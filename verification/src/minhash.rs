//! The similarity sketch: a streaming MinHash over chunk features.
//!
//! Each of the 64 lanes keeps the least value that its permutation has given
//! to any feature so far. The digest packs the low four bits of every lane.

use vstd::prelude::*;
use vstd::arithmetic::div_mod::{lemma_fundamental_div_mod, lemma_mod_multiples_basic};
use crate::constants::{DIGEST_LEN, LANES, LANE_ADD, LANE_MUL, LANE_SENTINEL};

verus! {

/// The permutation of lane `i`: `f * LANE_MUL[i] + LANE_ADD[i]` in 32-bit
/// arithmetic.
pub open spec fn lane_permute(i: int, f: u32) -> u32 {
    f.wrapping_mul(LANE_MUL[i]).wrapping_add(LANE_ADD[i])
}

/// The value of lane `i` once `features` have been absorbed: the least
/// permuted feature, or the sentinel where there is none.
pub open spec fn lane_min(i: int, features: Seq<u32>) -> u32
    decreases features.len(),
{
    if features.len() == 0 {
        LANE_SENTINEL
    } else {
        let rest = lane_min(i, features.drop_last());
        let p = lane_permute(i, features.last());
        if p < rest {
            p
        } else {
            rest
        }
    }
}

/// The 64 lanes once `features` have been absorbed.
pub open spec fn sketch(features: Seq<u32>) -> Seq<u32> {
    Seq::new(LANES as nat, |i: int| lane_min(i, features))
}

/// The 32-byte packing of 64 lanes: byte `k` holds the low four bits of lane
/// `2k` in its high half and those of lane `2k + 1` in its low half.
pub open spec fn pack(lanes: Seq<u32>) -> Seq<u8> {
    Seq::new(DIGEST_LEN as nat, |k: int| (16 * (lanes[2 * k] % 16) + lanes[2 * k + 1] % 16) as u8)
}

/// The similarity digest of a sequence of features.
pub open spec fn similarity_digest(features: Seq<u32>) -> Seq<u8> {
    pack(sketch(features))
}

/// A lane is no greater than any permuted feature, and it is the sentinel or
/// one of the permuted features.
pub proof fn lemma_lane_is_minimum(i: int, features: Seq<u32>)
    ensures
        forall|j: int|
            0 <= j < features.len() ==> lane_min(i, features) <= #[trigger] lane_permute(
                i,
                features[j],
            ),
        lane_min(i, features) == LANE_SENTINEL || exists|j: int|
            0 <= j < features.len() && lane_min(i, features) == #[trigger] lane_permute(
                i,
                features[j],
            ),
    decreases features.len(),
{
    if features.len() > 0 {
        let front = features.drop_last();
        lemma_lane_is_minimum(i, front);
        let rest = lane_min(i, front);
        let p = lane_permute(i, features.last());
        assert forall|j: int| 0 <= j < features.len() implies lane_min(i, features)
            <= #[trigger] lane_permute(i, features[j]) by {
            if j < front.len() {
                assert(front[j] == features[j]);
            }
        }
        if p < rest {
            assert(lane_min(i, features) == lane_permute(i, features[features.len() - 1]));
        } else if rest != LANE_SENTINEL {
            let j = choose|j: int|
                0 <= j < front.len() && rest == #[trigger] lane_permute(i, front[j]);
            assert(lane_min(i, features) == lane_permute(i, features[j]));
        }
    }
}

/// One more feature leaves a lane at the lesser of its value and the
/// feature's permutation.
pub proof fn lemma_lane_push(i: int, features: Seq<u32>, f: u32)
    ensures
        lane_min(i, features.push(f)) == if lane_permute(i, f) < lane_min(i, features) {
            lane_permute(i, f)
        } else {
            lane_min(i, features)
        },
{
    assert(features.push(f).drop_last() =~= features);
}

/// Absorbing more features never raises a lane.
pub proof fn lemma_lane_monotone(i: int, features: Seq<u32>, more: Seq<u32>)
    ensures
        lane_min(i, features + more) <= lane_min(i, features),
    decreases more.len(),
{
    if more.len() == 0 {
        assert(features + more =~= features);
    } else {
        assert((features + more).drop_last() =~= features + more.drop_last());
        lemma_lane_monotone(i, features, more.drop_last());
    }
}

/// With no feature absorbed every byte of the digest is `0xFF`.
pub proof fn lemma_empty_digest()
    ensures
        similarity_digest(Seq::empty()) == Seq::new(DIGEST_LEN as nat, |k: int| 0xFFu8),
{
    let d = similarity_digest(Seq::empty());
    assert forall|k: int| 0 <= k < 32 implies #[trigger] d[k] == 0xFFu8 by {
        assert(sketch(Seq::empty())[2 * k] == LANE_SENTINEL);
        assert(sketch(Seq::empty())[2 * k + 1] == LANE_SENTINEL);
    }
    assert(d =~= Seq::new(DIGEST_LEN as nat, |k: int| 0xFFu8));
}

/// Two to the power `k`.
pub open spec fn two_to(k: nat) -> int
    decreases k,
{
    if k == 0 {
        1
    } else {
        2 * two_to((k - 1) as nat)
    }
}

/// A power of two that divides a multiple of an odd number divides the
/// other factor.
pub proof fn lemma_odd_factor(a: int, d: int, k: nat)
    requires
        a % 2 == 1,
        (d * a) % two_to(k) == 0,
    ensures
        two_to(k) > 0,
        d % two_to(k) == 0,
    decreases k,
{
    if k > 0 {
        let p = two_to((k - 1) as nat);
        let n = d * a;
        assert(p > 0 && n % p == 0) by {
            lemma_two_to_positive((k - 1) as nat);
            lemma_fundamental_div_mod(n, 2 * p);
            let q = n / (2 * p);
            assert(n == p * (2 * q)) by (nonlinear_arith)
                requires
                    n == (2 * p) * q,
            ;
            lemma_mod_multiples_basic(2 * q, p);
            assert((2 * q) * p == p * (2 * q)) by (nonlinear_arith);
        }
        lemma_odd_factor(a, d, (k - 1) as nat);
        lemma_fundamental_div_mod(d, p);
        let e = d / p;
        assert(d == p * e);
        lemma_fundamental_div_mod(n, 2 * p);
        let q = n / (2 * p);
        assert(e * a == 2 * q) by (nonlinear_arith)
            requires
                p > 0,
                d == p * e,
                n == d * a,
                n == (2 * p) * q,
        ;
        lemma_fundamental_div_mod(e, 2);
        lemma_fundamental_div_mod(a, 2);
        let h = e / 2;
        let c = a / 2;
        if e % 2 == 1 {
            assert(e * a == 2 * (2 * h * c + h + c) + 1) by (nonlinear_arith)
                requires
                    e == 2 * h + 1,
                    a == 2 * c + 1,
            ;
        }
        assert(e % 2 == 0);
        assert(d == h * (2 * p)) by (nonlinear_arith)
            requires
                d == p * e,
                e == 2 * h,
        ;
        lemma_mod_multiples_basic(h, 2 * p);
    }
}

/// Every power of two is positive.
pub proof fn lemma_two_to_positive(k: nat)
    ensures
        two_to(k) > 0,
    decreases k,
{
    if k > 0 {
        lemma_two_to_positive((k - 1) as nat);
    }
}

/// Multiplying by an odd number in 32-bit arithmetic and adding a constant
/// loses nothing: different inputs give different outputs.
pub proof fn lemma_mixing_is_injective(a: u32, b: u32, x: u32, y: u32)
    requires
        a % 2 == 1,
        x.wrapping_mul(a).wrapping_add(b) == y.wrapping_mul(a).wrapping_add(b),
    ensures
        x == y,
{
    let m = 0x1_0000_0000int;
    assert(two_to(32) == m) by {
        reveal_with_fuel(two_to, 33);
    }
    let xa = x.wrapping_mul(a);
    let ya = y.wrapping_mul(a);
    assert(xa == ya);
    assert(xa == (x as int * a as int) % m);
    assert(ya == (y as int * a as int) % m);
    let d = x as int - y as int;
    assert((d * a as int) % m == 0) by {
        lemma_fundamental_div_mod(x as int * a as int, m);
        lemma_fundamental_div_mod(y as int * a as int, m);
        let qx = (x as int * a as int) / m;
        let qy = (y as int * a as int) / m;
        assert(d * a as int == (qx - qy) * m) by (nonlinear_arith)
            requires
                d == x as int - y as int,
                x as int * a as int == m * qx + xa as int,
                y as int * a as int == m * qy + xa as int,
        ;
        lemma_mod_multiples_basic(qx - qy, m);
    }
    lemma_odd_factor(a as int, d, 32);
    assert(d % m == 0);
    assert(-m < d < m);
}

/// Every lane permutation is one: no two features have the same image.
pub proof fn lemma_lane_permute_injective(i: int, f: u32, g: u32)
    requires
        0 <= i < LANES,
        lane_permute(i, f) == lane_permute(i, g),
    ensures
        f == g,
{
    assert(LANE_MUL[i] % 2 == 1);
    lemma_mixing_is_injective(LANE_MUL[i], LANE_ADD[i], f, g);
}

/// The permutation of lane `i` applied to `f`.
fn permute(i: usize, f: u32) -> (p: u32)
    requires
        i < LANES,
    ensures
        p == lane_permute(i as int, f),
{
    f.wrapping_mul(LANE_MUL[i]).wrapping_add(LANE_ADD[i])
}

/// The running sketch of a stream of features.
pub struct MinHash {
    lanes: [u32; 64],
    count: u64,
    seen: Ghost<Seq<u32>>,
}

impl View for MinHash {
    type V = Seq<u32>;

    /// The features absorbed so far, oldest first.
    closed spec fn view(&self) -> Seq<u32> {
        self.seen@
    }
}

impl MinHash {
    /// The lanes are the sketch of the features absorbed so far, and the
    /// count is their number.
    pub closed spec fn wf(&self) -> bool {
        &&& self.lanes@ == sketch(self.seen@)
        &&& self.count == self.seen@.len()
    }

    /// A sketch that has absorbed nothing: every lane holds the sentinel.
    pub fn new() -> (m: MinHash)
        ensures
            m.wf(),
            m@ == Seq::<u32>::empty(),
    {
        let lanes = [LANE_SENTINEL;64];
        assert(lanes@ =~= sketch(Seq::empty()));
        MinHash { lanes, count: 0, seen: Ghost(Seq::empty()) }
    }

    /// The number of features absorbed so far.
    pub fn count(&self) -> (n: u64)
        requires
            self.wf(),
        ensures
            n == self@.len(),
    {
        self.count
    }

    /// The value of lane `i`.
    pub fn lane(&self, i: usize) -> (v: u32)
        requires
            self.wf(),
            i < LANES,
        ensures
            v == lane_min(i as int, self@),
    {
        self.lanes[i]
    }

    /// Absorbs one feature: every lane takes the lesser of its value and the
    /// feature's permutation.
    pub fn absorb(&mut self, f: u32)
        requires
            old(self).wf(),
            old(self)@.len() < u64::MAX,
        ensures
            final(self).wf(),
            final(self)@ == old(self)@.push(f),
    {
        let ghost before = self.seen@;
        let ghost after = self.seen@.push(f);
        let mut i: usize = 0;
        while i < LANES
            invariant
                i <= LANES,
                after == before.push(f),
                self.count == before.len(),
                self.seen@ == before,
                forall|j: int| 0 <= j < i ==> self.lanes@[j] == lane_min(j, after),
                forall|j: int| i <= j < LANES ==> self.lanes@[j] == lane_min(j, before),
            decreases LANES - i,
        {
            let p = permute(i, f);
            proof {
                lemma_lane_push(i as int, before, f);
            }
            if p < self.lanes[i] {
                self.lanes[i] = p;
            }
            i = i + 1;
        }
        assert(self.lanes@ =~= sketch(after));
        self.count = self.count + 1;
        self.seen = Ghost(after);
    }

    /// The 32-byte digest of the features absorbed so far, and of `last`
    /// after them where there is one. The sketch is left as it is.
    pub fn digest(&self, last: Option<u32>) -> (d: Vec<u8>)
        requires
            self.wf(),
        ensures
            d@ == similarity_digest(
                match last {
                    Some(f) => self@.push(f),
                    None => self@,
                },
            ),
            d@.len() == DIGEST_LEN,
    {
        let ghost whole = match last {
            Some(f) => self.seen@.push(f),
            None => self.seen@,
        };
        let mut d: Vec<u8> = Vec::new();
        let mut k: usize = 0;
        while k < DIGEST_LEN
            invariant
                k <= DIGEST_LEN,
                d@.len() == k,
                self.wf(),
                whole == match last {
                    Some(f) => self.seen@.push(f),
                    None => self.seen@,
                },
                forall|j: int| 0 <= j < k ==> d@[j] == pack(sketch(whole))[j],
            decreases DIGEST_LEN - k,
        {
            let hi: u32 = self.lane_with(2 * k, last) % 16;
            let lo: u32 = self.lane_with(2 * k + 1, last) % 16;
            d.push((16 * hi + lo) as u8);
            k = k + 1;
        }
        assert(d@ =~= pack(sketch(whole)));
        d
    }

    /// The value that lane `i` takes once `last` is absorbed too.
    fn lane_with(&self, i: usize, last: Option<u32>) -> (v: u32)
        requires
            self.wf(),
            i < LANES,
        ensures
            v == lane_min(
                i as int,
                match last {
                    Some(f) => self@.push(f),
                    None => self@,
                },
            ),
    {
        match last {
            Some(f) => {
                proof {
                    lemma_lane_push(i as int, self.seen@, f);
                }
                let p = permute(i, f);
                if p < self.lanes[i] {
                    p
                } else {
                    self.lanes[i]
                }
            },
            None => self.lanes[i],
        }
    }
}

} // verus!
