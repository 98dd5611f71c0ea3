//! The Data-Code pipeline: the chunker feeding the similarity sketch.

use vstd::prelude::*;
use crate::cdc::{closed_features, lemma_closed_count, stream_features, Chunker};
use crate::minhash::{similarity_digest, MinHash};

verus! {

/// The 256-bit similarity digest of a byte stream.
pub open spec fn data_digest(bytes: Seq<u8>) -> Seq<u8> {
    similarity_digest(stream_features(bytes))
}

/// Streaming Data-Code hasher. Its state is a chunker and a sketch; no byte
/// of the stream is kept.
pub struct DataHasher {
    chunker: Chunker,
    sketch: MinHash,
}

impl View for DataHasher {
    type V = Seq<u8>;

    /// The bytes pushed so far.
    closed spec fn view(&self) -> Seq<u8> {
        self.chunker@
    }
}

impl DataHasher {
    /// The sketch has absorbed the features of the chunks that the chunker
    /// has closed, and the stream is no longer than a 64-bit count.
    pub closed spec fn wf(&self) -> bool {
        &&& self.chunker.wf()
        &&& self.sketch.wf()
        &&& self.sketch@ == closed_features(self.chunker@)
        &&& self.chunker@.len() <= u64::MAX
    }

    /// A hasher at the start of a stream.
    pub fn new() -> (h: DataHasher)
        ensures
            h.wf(),
            h@ == Seq::<u8>::empty(),
    {
        DataHasher { chunker: Chunker::new(), sketch: MinHash::new() }
    }

    /// Pushes the next bytes of the stream.
    pub fn push(&mut self, data: &[u8])
        requires
            old(self).wf(),
            old(self)@.len() + data@.len() <= u64::MAX,
        ensures
            final(self).wf(),
            final(self)@ == old(self)@ + data@,
    {
        let ghost start = self@;
        let mut i: usize = 0;
        assert(start + data@.subrange(0, 0) =~= start);
        while i < data.len()
            invariant
                i <= data@.len(),
                start.len() + data@.len() <= u64::MAX,
                self.chunker.wf(),
                self.sketch.wf(),
                self.chunker@ == start + data@.subrange(0, i as int),
                self.sketch@ == closed_features(self.chunker@),
            decreases data@.len() - i,
        {
            proof {
                lemma_closed_count(self.chunker@);
                assert(start + data@.subrange(0, i + 1) =~= (start + data@.subrange(
                    0,
                    i as int,
                )).push(data@[i as int]));
            }
            match self.chunker.step(data[i]) {
                Some(f) => {
                    self.sketch.absorb(f);
                },
                None => {},
            }
            i = i + 1;
        }
        assert(data@.subrange(0, data@.len() as int) =~= data@);
    }

    /// The digest of the stream so far, with the open chunk counted as the
    /// last chunk. The hasher is left as it is.
    pub fn digest(&self) -> (d: Vec<u8>)
        requires
            self.wf(),
        ensures
            d@ == data_digest(self@),
            d@.len() == 32,
    {
        self.sketch.digest(self.chunker.residue())
    }

    /// The number of chunks closed so far.
    pub fn chunk_count(&self) -> (n: u64)
        requires
            self.wf(),
        ensures
            n == closed_features(self@).len(),
    {
        self.sketch.count()
    }
}

} // verus!
