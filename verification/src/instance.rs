//! The Instance-Code pipeline: a streaming BLAKE3 hash and a byte counter.

use vstd::prelude::*;
use crate::constants::{MULTIHASH_CODE, MULTIHASH_LEN};
use crate::hex::{hex_text, to_hex};

verus! {

/// The streaming state of the `blake3` crate. Nothing inside it is visible
/// here; `absorbed` names what it has been fed.
#[verifier::external_type_specification]
#[verifier::external_body]
pub struct ExBlake3Hasher(blake3::Hasher);

/// The 32-byte BLAKE3 hash of `input`, as `blake3::Hasher::finalize` gives it.
pub uninterp spec fn blake3_hash(input: Seq<u8>) -> Seq<u8>;

/// The bytes that a `blake3::Hasher` has been fed since it was made.
pub uninterp spec fn absorbed(state: &blake3::Hasher) -> Seq<u8>;

/// `blake3::Hasher::new`: a hasher for the regular hash function that has
/// been fed nothing.
#[verifier::external_body]
fn blake3_new() -> (state: blake3::Hasher)
    ensures
        absorbed(&state) == Seq::<u8>::empty(),
{
    blake3::Hasher::new()
}

/// `blake3::Hasher::update`: the hasher has now been fed `data` after what it
/// was fed before.
#[verifier::external_body]
fn blake3_update(state: &mut blake3::Hasher, data: &[u8])
    ensures
        absorbed(final(state)) == absorbed(old(state)) + data@,
{
    state.update(data);
}

/// `blake3::Hasher::finalize`: the 32-byte hash of everything the hasher has
/// been fed; the hasher is left as it is.
#[verifier::external_body]
fn blake3_finalize(state: &blake3::Hasher) -> (digest: Vec<u8>)
    ensures
        digest@ == blake3_hash(absorbed(state)),
        digest@.len() == 32,
{
    state.finalize().as_bytes().to_vec()
}

/// The 256-bit integrity digest of a byte stream.
pub open spec fn instance_digest(bytes: Seq<u8>) -> Seq<u8> {
    blake3_hash(bytes)
}

/// The multihash of a digest: the BLAKE3 code, the length byte, then the
/// digest.
pub open spec fn multihash_bytes(digest: Seq<u8>) -> Seq<u8> {
    seq![MULTIHASH_CODE, MULTIHASH_LEN] + digest
}

/// The multihash text of a byte stream: lowercase hex of the multihash of
/// its integrity digest.
pub open spec fn multihash_text(bytes: Seq<u8>) -> Seq<char> {
    hex_text(multihash_bytes(instance_digest(bytes)))
}

/// Renders the multihash of a 32-byte digest as lowercase hex.
pub fn multihash_of(digest: &[u8]) -> (text: String)
    ensures
        text@ == hex_text(multihash_bytes(digest@)),
{
    let mut framed: Vec<u8> = Vec::new();
    framed.push(MULTIHASH_CODE);
    framed.push(MULTIHASH_LEN);
    let mut i: usize = 0;
    while i < digest.len()
        invariant
            i <= digest@.len(),
            framed@ == seq![MULTIHASH_CODE, MULTIHASH_LEN] + digest@.subrange(0, i as int),
        decreases digest@.len() - i,
    {
        framed.push(digest[i]);
        assert(digest@.subrange(0, i + 1) =~= digest@.subrange(0, i as int).push(
            digest@[i as int],
        ));
        i = i + 1;
    }
    assert(digest@.subrange(0, digest@.len() as int) =~= digest@);
    to_hex(framed.as_slice())
}

/// Streaming Instance-Code hasher.
pub struct InstanceHasher {
    state: blake3::Hasher,
    filesize: u64,
}

impl View for InstanceHasher {
    type V = Seq<u8>;

    /// The bytes pushed so far.
    closed spec fn view(&self) -> Seq<u8> {
        absorbed(&self.state)
    }
}

impl InstanceHasher {
    /// The counter is the number of bytes that the hash state has been fed.
    pub closed spec fn wf(&self) -> bool {
        self.filesize == absorbed(&self.state).len()
    }

    /// A hasher at the start of a stream.
    pub fn new() -> (h: InstanceHasher)
        ensures
            h.wf(),
            h@ == Seq::<u8>::empty(),
    {
        InstanceHasher { state: blake3_new(), filesize: 0 }
    }

    /// Pushes the next bytes of the stream.
    pub fn push(&mut self, data: &[u8])
        requires
            old(self).wf(),
            old(self)@.len() + data@.len() <= u64::MAX,
        ensures
            final(self).wf(),
            final(self)@ == old(self)@ + data@,
    {
        blake3_update(&mut self.state, data);
        self.filesize = self.filesize + data.len() as u64;
    }

    /// The 32-byte digest of the stream so far. The hasher is left as it is.
    pub fn digest(&self) -> (d: Vec<u8>)
        requires
            self.wf(),
        ensures
            d@ == instance_digest(self@),
            d@.len() == 32,
    {
        blake3_finalize(&self.state)
    }

    /// The multihash of the stream so far, as lowercase hex.
    pub fn multihash(&self) -> (text: String)
        requires
            self.wf(),
        ensures
            text@ == multihash_text(self@),
    {
        let d = blake3_finalize(&self.state);
        multihash_of(d.as_slice())
    }

    /// The number of bytes pushed so far.
    pub fn filesize(&self) -> (n: u64)
        requires
            self.wf(),
        ensures
            n == self@.len(),
    {
        self.filesize
    }
}

} // verus!
