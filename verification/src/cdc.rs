//! Content-defined chunking: a gear rolling hash with normalized chunking.
//!
//! The chunker keeps a 64-bit register and the length of the open chunk. It
//! never holds chunk bytes: when a chunk closes it hands out the chunk's
//! 32-bit feature, the low half of the register at the boundary.

use vstd::prelude::*;
use crate::constants::{AVG_SIZE, GEAR, MASK_LARGE, MASK_SMALL, MAX_SIZE, MIN_SIZE};

verus! {

/// The register after one more byte: `(h << 1) + GEAR[b]` in 64-bit arithmetic.
pub open spec fn gear_roll(h: u64, b: u8) -> u64 {
    (h << 1u64).wrapping_add(GEAR[b as int])
}

/// Whether a chunk that now holds `len` bytes, with register `h`, ends here.
pub open spec fn is_cut(h: u64, len: nat) -> bool {
    if len < MIN_SIZE {
        false
    } else if len < AVG_SIZE {
        h & MASK_SMALL == 0
    } else if len < MAX_SIZE {
        h & MASK_LARGE == 0
    } else {
        true
    }
}

/// The feature of a chunk whose register is `h` at its end: the low 32 bits.
pub open spec fn feature_of(h: u64) -> u32 {
    (h % 0x1_0000_0000) as u32
}

/// In plain arithmetic: the register is doubled, the gear word is added, and
/// the sum is taken modulo 2^64; a mask test asks whether the low eleven or
/// the low nine bits of the register are zero.
pub proof fn lemma_register_arithmetic(h: u64, b: u8)
    ensures
        gear_roll(h, b) == (2 * h + GEAR[b as int]) % 0x1_0000_0000_0000_0000,
        h & MASK_SMALL == 0 <==> h % 2048 == 0,
        h & MASK_LARGE == 0 <==> h % 512 == 0,
{
    let doubled = h << 1u64;
    assert(doubled == (2 * h) % 0x1_0000_0000_0000_0000) by (bit_vector)
        requires
            doubled == h << 1u64,
    ;
    assert((h & 0x7FF == 0) <==> (h % 2048 == 0)) by (bit_vector);
    assert((h & 0x1FF == 0) <==> (h % 512 == 0)) by (bit_vector);
}

/// The open chunk of a stream: its register and its length.
pub struct CdcState {
    pub h: u64,
    pub pos: nat,
}

/// The open chunk at the start of a stream: empty, with a zero register.
pub open spec fn cdc_start() -> CdcState {
    CdcState { h: 0, pos: 0 }
}

/// Whether the byte `b`, read in state `s`, closes the open chunk.
pub open spec fn closes(s: CdcState, b: u8) -> bool {
    is_cut(gear_roll(s.h, b), s.pos + 1)
}

/// The state after the byte `b` is read in state `s`: a fresh chunk where
/// the byte closes the open one, the open chunk grown by one byte where it
/// does not.
pub open spec fn cdc_step(s: CdcState, b: u8) -> CdcState {
    if closes(s, b) {
        cdc_start()
    } else {
        CdcState { h: gear_roll(s.h, b), pos: s.pos + 1 }
    }
}

/// The state after `bytes` are read from state `s` on.
pub open spec fn cdc_resume(s: CdcState, bytes: Seq<u8>) -> CdcState
    decreases bytes.len(),
{
    if bytes.len() == 0 {
        s
    } else {
        cdc_step(cdc_resume(s, bytes.drop_last()), bytes.last())
    }
}

/// The features of the chunks that close while `bytes` are read from state
/// `s` on, oldest first.
pub open spec fn resumed_features(s: CdcState, bytes: Seq<u8>) -> Seq<u32>
    decreases bytes.len(),
{
    if bytes.len() == 0 {
        Seq::empty()
    } else {
        let before = cdc_resume(s, bytes.drop_last());
        if closes(before, bytes.last()) {
            resumed_features(s, bytes.drop_last()).push(
                feature_of(gear_roll(before.h, bytes.last())),
            )
        } else {
            resumed_features(s, bytes.drop_last())
        }
    }
}

/// The state of the open chunk once `bytes` have been read.
pub open spec fn cdc_after(bytes: Seq<u8>) -> CdcState {
    cdc_resume(cdc_start(), bytes)
}

/// The features of the chunks that are closed once `bytes` have been read,
/// oldest first.
pub open spec fn closed_features(bytes: Seq<u8>) -> Seq<u32> {
    resumed_features(cdc_start(), bytes)
}

/// The chunker depends on what it has read through its state alone: reading
/// `back` after `front` goes on from the state that `front` left, and closes
/// the chunks of `front` and then those that close from there.
pub proof fn lemma_cdc_resumes(front: Seq<u8>, back: Seq<u8>)
    ensures
        cdc_after(front + back) == cdc_resume(cdc_after(front), back),
        closed_features(front + back) == closed_features(front) + resumed_features(
            cdc_after(front),
            back,
        ),
    decreases back.len(),
{
    if back.len() == 0 {
        assert(front + back =~= front);
        assert(closed_features(front) + Seq::<u32>::empty() =~= closed_features(front));
    } else {
        assert((front + back).drop_last() =~= front + back.drop_last());
        lemma_cdc_resumes(front, back.drop_last());
        assert(closed_features(front + back) =~= closed_features(front) + resumed_features(
            cdc_after(front),
            back,
        ));
    }
}

/// The lengths of the chunks that are closed once `bytes` have been read,
/// oldest first.
pub open spec fn closed_lengths(bytes: Seq<u8>) -> Seq<nat>
    decreases bytes.len(),
{
    if bytes.len() == 0 {
        Seq::empty()
    } else {
        let before = cdc_after(bytes.drop_last());
        if closes(before, bytes.last()) {
            closed_lengths(bytes.drop_last()).push(before.pos + 1)
        } else {
            closed_lengths(bytes.drop_last())
        }
    }
}

/// The features of a whole stream: those of its closed chunks, then that of
/// the open chunk if it holds any byte.
pub open spec fn stream_features(bytes: Seq<u8>) -> Seq<u32> {
    let open = cdc_after(bytes);
    if open.pos > 0 {
        closed_features(bytes).push(feature_of(open.h))
    } else {
        closed_features(bytes)
    }
}

/// The open chunk is always shorter than `MAX_SIZE`, and an empty one has a
/// zero register.
pub proof fn lemma_open_chunk_bounded(bytes: Seq<u8>)
    ensures
        cdc_after(bytes).pos < MAX_SIZE,
        cdc_after(bytes).pos <= bytes.len(),
        cdc_after(bytes).pos == 0 ==> cdc_after(bytes).h == 0,
    decreases bytes.len(),
{
    if bytes.len() > 0 {
        lemma_open_chunk_bounded(bytes.drop_last());
    }
}

/// Every closed chunk holds at least `MIN_SIZE` and at most `MAX_SIZE` bytes,
/// and the closed chunks and the open one together hold every byte read.
pub proof fn lemma_chunk_lengths(bytes: Seq<u8>)
    ensures
        closed_lengths(bytes).len() == closed_features(bytes).len(),
        forall|i: int|
            0 <= i < closed_lengths(bytes).len() ==> MIN_SIZE <= #[trigger] closed_lengths(
                bytes,
            )[i] <= MAX_SIZE,
        total(closed_lengths(bytes)) + cdc_after(bytes).pos == bytes.len(),
    decreases bytes.len(),
{
    if bytes.len() > 0 {
        let front = bytes.drop_last();
        lemma_chunk_lengths(front);
        lemma_open_chunk_bounded(front);
        if closes(cdc_after(front), bytes.last()) {
            assert(closed_lengths(bytes).drop_last() =~= closed_lengths(front));
        }
    }
}

/// Fewer chunks have closed than bytes were read, unless none was read.
pub proof fn lemma_closed_count(bytes: Seq<u8>)
    ensures
        closed_features(bytes).len() <= bytes.len(),
        cdc_after(bytes).pos > 0 ==> closed_features(bytes).len() < bytes.len(),
    decreases bytes.len(),
{
    if bytes.len() > 0 {
        lemma_closed_count(bytes.drop_last());
        lemma_open_chunk_bounded(bytes.drop_last());
    }
}

/// The sum of a sequence of lengths.
pub open spec fn total(lengths: Seq<nat>) -> nat
    decreases lengths.len(),
{
    if lengths.len() == 0 {
        0
    } else {
        total(lengths.drop_last()) + lengths.last()
    }
}

/// A streaming chunker. It holds the register and the length of the open
/// chunk across calls, so the boundaries do not depend on how the stream is
/// cut into calls.
pub struct Chunker {
    h: u64,
    pos: usize,
    read: Ghost<Seq<u8>>,
}

impl View for Chunker {
    type V = Seq<u8>;

    /// The bytes read so far.
    closed spec fn view(&self) -> Seq<u8> {
        self.read@
    }
}

impl Chunker {
    /// The register and the length are those of the open chunk of the bytes
    /// read so far.
    pub closed spec fn wf(&self) -> bool {
        cdc_after(self.read@) == (CdcState { h: self.h, pos: self.pos as nat })
    }

    /// A chunker at the start of a stream.
    pub fn new() -> (c: Chunker)
        ensures
            c.wf(),
            c@ == Seq::<u8>::empty(),
    {
        Chunker { h: 0, pos: 0, read: Ghost(Seq::empty()) }
    }

    /// Reads one byte. Returns the feature of the chunk that this byte
    /// closes, if it closes one.
    pub fn step(&mut self, b: u8) -> (closed: Option<u32>)
        requires
            old(self).wf(),
        ensures
            final(self).wf(),
            final(self)@ == old(self)@.push(b),
            closed_features(final(self)@) == match closed {
                Some(f) => closed_features(old(self)@).push(f),
                None => closed_features(old(self)@),
            },
            closed is Some <==> cdc_after(final(self)@).pos == 0,
    {
        proof {
            lemma_open_chunk_bounded(self.read@);
            assert(self.read@.push(b).drop_last() =~= self.read@);
        }
        let h = (self.h << 1u64).wrapping_add(GEAR[b as usize]);
        let len = self.pos + 1;
        let cut = if len < MIN_SIZE {
            false
        } else if len < AVG_SIZE {
            h & MASK_SMALL == 0
        } else if len < MAX_SIZE {
            h & MASK_LARGE == 0
        } else {
            true
        };
        self.read = Ghost(self.read@.push(b));
        if cut {
            self.h = 0;
            self.pos = 0;
            Some((h % 0x1_0000_0000) as u32)
        } else {
            self.h = h;
            self.pos = len;
            None
        }
    }

    /// The feature of the open chunk, if it holds any byte. The chunker is
    /// left as it is.
    pub fn residue(&self) -> (open: Option<u32>)
        requires
            self.wf(),
        ensures
            stream_features(self@) == match open {
                Some(f) => closed_features(self@).push(f),
                None => closed_features(self@),
            },
            open is Some <==> cdc_after(self@).pos > 0,
    {
        if self.pos > 0 {
            Some((self.h % 0x1_0000_0000) as u32)
        } else {
            None
        }
    }

    /// The length of the open chunk.
    pub fn open_len(&self) -> (n: usize)
        requires
            self.wf(),
        ensures
            n == cdc_after(self@).pos,
            n < MAX_SIZE,
    {
        proof {
            lemma_open_chunk_bounded(self.read@);
        }
        self.pos
    }
}

} // verus!
