//! The order of directory entries: by the UTF-8 bytes of the NFC form of the
//! name, then by the UTF-8 bytes of the name itself.

use vstd::prelude::*;
use vstd::utf8::encode_utf8;
use unicode_normalization::UnicodeNormalization;

verus! {

/// The Unicode Normalization Form C of `s`, as the `unicode_normalization`
/// crate computes it.
pub uninterp spec fn nfc_form(s: Seq<char>) -> Seq<char>;

/// `UnicodeNormalization::nfc` collected into a string: the NFC form of `s`.
#[verifier::external_body]
pub(crate) fn nfc(s: &str) -> (normal: String)
    ensures
        normal@ == nfc_form(s@),
{
    s.nfc().collect::<String>()
}

/// Lexicographic order of two byte strings: negative where `a` comes first,
/// zero where they are equal, positive where `b` comes first.
pub open spec fn byte_order(a: Seq<u8>, b: Seq<u8>) -> int
    decreases a.len(),
{
    if a.len() == 0 {
        if b.len() == 0 {
            0
        } else {
            -1
        }
    } else if b.len() == 0 {
        1
    } else if a[0] < b[0] {
        -1
    } else if a[0] > b[0] {
        1
    } else {
        byte_order(a.drop_first(), b.drop_first())
    }
}

/// The order of two entry names: by the bytes of their NFC forms, and by
/// their own bytes where those are equal.
pub open spec fn name_order(a: Seq<char>, b: Seq<char>) -> int {
    let by_form = byte_order(encode_utf8(nfc_form(a)), encode_utf8(nfc_form(b)));
    if by_form != 0 {
        by_form
    } else {
        byte_order(encode_utf8(a), encode_utf8(b))
    }
}

/// The byte order is one of -1, 0 and 1; it is zero for equal strings only;
/// and swapping the strings swaps the sign.
pub proof fn lemma_byte_order_sign(a: Seq<u8>, b: Seq<u8>)
    ensures
        -1 <= byte_order(a, b) <= 1,
        byte_order(a, b) == 0 <==> a == b,
        byte_order(b, a) == -byte_order(a, b),
    decreases a.len(),
{
    if a.len() > 0 && b.len() > 0 {
        lemma_byte_order_sign(a.drop_first(), b.drop_first());
        if a[0] == b[0] {
            if a.drop_first() == b.drop_first() {
                assert(a =~= seq![a[0]] + a.drop_first());
                assert(b =~= seq![b[0]] + b.drop_first());
            }
        }
    } else {
        if a.len() == 0 && b.len() == 0 {
            assert(a =~= b);
        }
    }
}

/// The byte order is transitive.
pub proof fn lemma_byte_order_transitive(a: Seq<u8>, b: Seq<u8>, c: Seq<u8>)
    requires
        byte_order(a, b) <= 0,
        byte_order(b, c) <= 0,
    ensures
        byte_order(a, c) <= 0,
        byte_order(a, b) < 0 || byte_order(b, c) < 0 ==> byte_order(a, c) < 0,
    decreases a.len(),
{
    if a.len() > 0 && b.len() > 0 && c.len() > 0 {
        if a[0] == b[0] && b[0] == c[0] {
            lemma_byte_order_transitive(a.drop_first(), b.drop_first(), c.drop_first());
        }
    }
}

/// The order of names is a total order up to equal names: swapping the names
/// swaps the sign, and names in order stay in order through a third.
pub proof fn lemma_name_order_total(a: Seq<char>, b: Seq<char>, c: Seq<char>)
    ensures
        -1 <= name_order(a, b) <= 1,
        name_order(b, a) == -name_order(a, b),
        name_order(a, a) == 0,
        name_order(a, b) <= 0 && name_order(b, c) <= 0 ==> name_order(a, c) <= 0,
{
    let fa = encode_utf8(nfc_form(a));
    let fb = encode_utf8(nfc_form(b));
    let fc = encode_utf8(nfc_form(c));
    let ba = encode_utf8(a);
    let bb = encode_utf8(b);
    let bc = encode_utf8(c);
    lemma_byte_order_sign(fa, fb);
    lemma_byte_order_sign(fb, fc);
    lemma_byte_order_sign(fa, fc);
    lemma_byte_order_sign(fa, fa);
    lemma_byte_order_sign(ba, bb);
    lemma_byte_order_sign(bb, bc);
    lemma_byte_order_sign(ba, bc);
    lemma_byte_order_sign(ba, ba);
    if name_order(a, b) <= 0 && name_order(b, c) <= 0 {
        lemma_byte_order_transitive(fa, fb, fc);
        if byte_order(fa, fb) == 0 && byte_order(fb, fc) == 0 {
            lemma_byte_order_transitive(ba, bb, bc);
        }
    }
}

/// Compares two byte strings lexicographically.
pub fn bytes_sign(a: &[u8], b: &[u8]) -> (sign: i8)
    ensures
        sign == byte_order(a@, b@),
{
    let mut i: usize = 0;
    assert(a@.skip(0) =~= a@);
    assert(b@.skip(0) =~= b@);
    while i < a.len() && i < b.len()
        invariant
            i <= a@.len(),
            i <= b@.len(),
            byte_order(a@, b@) == byte_order(a@.skip(i as int), b@.skip(i as int)),
        decreases a@.len() - i,
    {
        assert(a@.skip(i as int).drop_first() =~= a@.skip(i + 1));
        assert(b@.skip(i as int).drop_first() =~= b@.skip(i + 1));
        if a[i] < b[i] {
            return -1;
        }
        if a[i] > b[i] {
            return 1;
        }
        i = i + 1;
    }
    if i < b.len() {
        -1
    } else if i < a.len() {
        1
    } else {
        0
    }
}

/// Compares two entry names.
pub fn names_sign(a: &str, b: &str) -> (sign: i8)
    ensures
        sign == name_order(a@, b@),
{
    let fa = nfc(a);
    let fb = nfc(b);
    let by_form = bytes_sign(fa.as_str().as_bytes(), fb.as_str().as_bytes());
    if by_form != 0 {
        by_form
    } else {
        bytes_sign(a.as_bytes(), b.as_bytes())
    }
}

} // verus!
