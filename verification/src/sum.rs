//! ISCC-SUM: the Data-Code and the Instance-Code of one stream, computed in a
//! single pass and joined in one token.

use vstd::prelude::*;
use crate::cdc::stream_features;
use crate::codec::{
    base32_decode, data_unit_header, encode_code, framed, instance_unit_header,
    is_base32_char, iscc_prefix, iscc_text, join_prefixes, lemma_token_round_trip, sum_body,
    sum_header, unit_len, Header,
};
use crate::data::{data_digest, DataHasher};
use crate::hex::hex_text;
use crate::instance::{instance_digest, multihash_bytes, multihash_of, InstanceHasher};
use crate::minhash::lemma_empty_digest;

verus! {

/// What a processor gives when the stream is complete.
#[derive(Debug, Clone)]
pub struct IsccSumResult {
    /// The composite token.
    pub iscc: String,
    /// The multihash of the exact bytes, as lowercase hex.
    pub datahash: String,
    /// The number of bytes of the stream.
    pub filesize: u64,
    /// The full-length Data-Code and Instance-Code, where they were asked for.
    pub units: Option<Vec<String>>,
}

/// Misuse of a processor.
#[derive(Debug, Clone, Copy, PartialEq, Eq, Structural)]
pub enum SumError {
    /// The processor has already given its result.
    AlreadyFinalized,
}

/// Whether `r` is the result for two digests and a byte count.
pub open spec fn is_assembled(
    r: IsccSumResult,
    data: Seq<u8>,
    instance: Seq<u8>,
    filesize: u64,
    wide: bool,
    add_units: bool,
) -> bool {
    &&& r.iscc@ == iscc_text(sum_header(wide), sum_body(data, instance, wide))
    &&& r.datahash@ == hex_text(multihash_bytes(instance))
    &&& r.filesize == filesize
    &&& if add_units {
        &&& r.units matches Some(units)
        &&& units@.len() == 2
        &&& units@[0]@ == iscc_text(data_unit_header(), data)
        &&& units@[1]@ == iscc_text(instance_unit_header(), instance)
    } else {
        r.units is None
    }
}

/// Whether `r` is the result for the stream `bytes`.
pub open spec fn is_sum_of(r: IsccSumResult, bytes: Seq<u8>, wide: bool, add_units: bool) -> bool {
    &&& bytes.len() <= u64::MAX
    &&& instance_digest(bytes).len() == 32
    &&& is_assembled(
        r,
        data_digest(bytes),
        instance_digest(bytes),
        bytes.len() as u64,
        wide,
        add_units,
    )
}

/// Builds the result from the two 32-byte digests and the byte count.
pub fn assemble(
    data: &[u8],
    instance: &[u8],
    filesize: u64,
    wide: bool,
    add_units: bool,
) -> (r: IsccSumResult)
    requires
        data@.len() == 32,
        instance@.len() == 32,
    ensures
        is_assembled(r, data@, instance@, filesize, wide, add_units),
{
    let body = join_prefixes(data, instance, wide);
    let iscc = encode_code(Header::sum(wide), body.as_slice());
    let datahash = multihash_of(instance);
    let units = if add_units {
        let mut units: Vec<String> = Vec::new();
        units.push(encode_code(Header::data_unit(), data));
        units.push(encode_code(Header::instance_unit(), instance));
        Some(units)
    } else {
        None
    };
    IsccSumResult { iscc, datahash, filesize, units }
}

/// Streaming ISCC-SUM processor. It is made empty, takes the stream through
/// `update`, and gives its result once.
pub struct IsccSumProcessor {
    data_hasher: DataHasher,
    instance_hasher: InstanceHasher,
    finalized: bool,
}

impl View for IsccSumProcessor {
    type V = Seq<u8>;

    /// The bytes taken so far.
    closed spec fn view(&self) -> Seq<u8> {
        self.instance_hasher@
    }
}

impl IsccSumProcessor {
    /// Both pipelines have taken the same bytes.
    pub closed spec fn wf(&self) -> bool {
        &&& self.data_hasher.wf()
        &&& self.instance_hasher.wf()
        &&& self.data_hasher@ == self.instance_hasher@
    }

    /// Whether the processor has given its result.
    pub closed spec fn is_finalized(&self) -> bool {
        self.finalized
    }

    /// A processor at the start of a stream.
    pub fn new() -> (p: IsccSumProcessor)
        ensures
            p.wf(),
            p@ == Seq::<u8>::empty(),
            !p.is_finalized(),
    {
        IsccSumProcessor {
            data_hasher: DataHasher::new(),
            instance_hasher: InstanceHasher::new(),
            finalized: false,
        }
    }

    /// Whether the processor has given its result.
    pub fn finalized(&self) -> (b: bool)
        ensures
            b == self.is_finalized(),
    {
        self.finalized
    }

    /// The number of bytes taken so far.
    pub fn filesize(&self) -> (n: u64)
        requires
            self.wf(),
        ensures
            n == self@.len(),
    {
        self.instance_hasher.filesize()
    }

    /// Takes the next bytes of the stream. A processor that has given its
    /// result refuses them and stays as it is.
    pub fn update(&mut self, data: &[u8]) -> (res: Result<(), SumError>)
        requires
            old(self).wf(),
            !old(self).is_finalized() ==> old(self)@.len() + data@.len() <= u64::MAX,
        ensures
            final(self).wf(),
            final(self).is_finalized() == old(self).is_finalized(),
            old(self).is_finalized() ==> res == Err::<(), SumError>(SumError::AlreadyFinalized)
                && final(self)@ == old(self)@,
            !old(self).is_finalized() ==> res is Ok && final(self)@ == old(self)@ + data@,
    {
        if self.finalized {
            return Err(SumError::AlreadyFinalized);
        }
        self.data_hasher.push(data);
        self.instance_hasher.push(data);
        Ok(())
    }

    /// Closes the stream and gives its result: the open chunk counts as the
    /// last chunk. A processor gives its result once.
    pub fn result(&mut self, wide: bool, add_units: bool) -> (res: Result<IsccSumResult, SumError>)
        requires
            old(self).wf(),
        ensures
            final(self).wf(),
            final(self).is_finalized(),
            final(self)@ == old(self)@,
            old(self).is_finalized() ==> res == Err::<IsccSumResult, SumError>(
                SumError::AlreadyFinalized,
            ),
            !old(self).is_finalized() ==> res is Ok && is_sum_of(
                res->Ok_0,
                old(self)@,
                wide,
                add_units,
            ),
    {
        if self.finalized {
            return Err(SumError::AlreadyFinalized);
        }
        Ok(self.close(wide, add_units))
    }

    /// Closes the stream of a processor that has not given its result yet.
    fn close(&mut self, wide: bool, add_units: bool) -> (r: IsccSumResult)
        requires
            old(self).wf(),
            !old(self).is_finalized(),
        ensures
            final(self).wf(),
            final(self).is_finalized(),
            final(self)@ == old(self)@,
            is_sum_of(r, old(self)@, wide, add_units),
    {
        let data = self.data_hasher.digest();
        let instance = self.instance_hasher.digest();
        let filesize = self.instance_hasher.filesize();
        self.finalized = true;
        assemble(data.as_slice(), instance.as_slice(), filesize, wide, add_units)
    }
}

/// The stream that a reader gives: its blocks in order, up to the first
/// empty one, which marks the end.
pub open spec fn stream_of(blocks: Seq<Seq<u8>>) -> Seq<u8>
    decreases blocks.len(),
{
    if blocks.len() == 0 || blocks[0].len() == 0 {
        Seq::empty()
    } else {
        blocks[0] + stream_of(blocks.drop_first())
    }
}

/// The blocks of `blocks` as plain sequences.
pub open spec fn block_views(blocks: Seq<Vec<u8>>) -> Seq<Seq<u8>> {
    blocks.map_values(|b: Vec<u8>| b@)
}

/// Computes the ISCC-SUM of the stream that arrives as `blocks`, in the
/// narrow or the wide form, without units.
pub fn process_reader(blocks: &Vec<Vec<u8>>, narrow: bool) -> (r: IsccSumResult)
    requires
        stream_of(block_views(blocks@)).len() <= u64::MAX,
    ensures
        is_sum_of(r, stream_of(block_views(blocks@)), !narrow, false),
{
    let ghost all = block_views(blocks@);
    let mut processor = IsccSumProcessor::new();
    let mut i: usize = 0;
    assert(all.subrange(0, all.len() as int) =~= all);
    while i < blocks.len() && blocks[i].len() > 0
        invariant
            i <= blocks@.len(),
            all == block_views(blocks@),
            processor.wf(),
            !processor.is_finalized(),
            stream_of(all) == processor@ + stream_of(all.subrange(i as int, all.len() as int)),
            stream_of(all).len() <= u64::MAX,
        decreases blocks@.len() - i,
    {
        let ghost rest = all.subrange(i as int, all.len() as int);
        assert(rest[0] == blocks@[i as int]@);
        assert(rest.drop_first() =~= all.subrange(i + 1, all.len() as int));
        let _ = processor.update(blocks[i].as_slice());
        i = i + 1;
    }
    proof {
        let rest = all.subrange(i as int, all.len() as int);
        if i < blocks.len() {
            assert(rest[0] == blocks@[i as int]@);
        }
        assert(stream_of(rest) =~= Seq::<u8>::empty());
        assert(processor@ + stream_of(rest) =~= processor@);
    }
    processor.close(!narrow, false)
}

/// The bytes that a token stands for: the base32 decoding of what follows
/// the prefix.
pub open spec fn token_payload(token: Seq<char>) -> Seq<u8> {
    base32_decode(token.subrange(5, token.len() as int))
}

/// The stream that a processor holds once it has taken `parts` in order
/// after `start`.
pub open spec fn fed(start: Seq<u8>, parts: Seq<Seq<u8>>) -> Seq<u8>
    decreases parts.len(),
{
    if parts.len() == 0 {
        start
    } else {
        fed(start + parts[0], parts.drop_first())
    }
}

/// The parts of a stream joined in order.
pub open spec fn joined(parts: Seq<Seq<u8>>) -> Seq<u8>
    decreases parts.len(),
{
    if parts.len() == 0 {
        Seq::empty()
    } else {
        parts[0] + joined(parts.drop_first())
    }
}

/// Taking a stream in parts leaves a processor where taking it in one piece
/// leaves it, however the stream is cut.
pub proof fn lemma_fed_joined(start: Seq<u8>, parts: Seq<Seq<u8>>)
    ensures
        fed(start, parts) == start + joined(parts),
    decreases parts.len(),
{
    if parts.len() == 0 {
        assert(start + joined(parts) =~= start);
    } else {
        lemma_fed_joined(start + parts[0], parts.drop_first());
        assert(start + parts[0] + joined(parts.drop_first()) =~= start + joined(parts));
    }
}

/// The result does not depend on how the stream is cut: a result for a
/// stream taken in parts is a result for the same stream taken in one piece,
/// and the other way round.
pub proof fn lemma_slicing_independence(
    parts: Seq<Seq<u8>>,
    r: IsccSumResult,
    wide: bool,
    add_units: bool,
)
    ensures
        is_sum_of(r, fed(Seq::empty(), parts), wide, add_units) <==> is_sum_of(
            r,
            fed(Seq::empty(), seq![joined(parts)]),
            wide,
            add_units,
        ),
{
    let whole = seq![joined(parts)];
    lemma_fed_joined(Seq::empty(), parts);
    lemma_fed_joined(Seq::empty(), whole);
    assert(whole[0] == joined(parts));
    assert(joined(whole.drop_first()) =~= Seq::<u8>::empty());
    assert(joined(whole) =~= joined(parts));
    assert(Seq::<u8>::empty() + joined(parts) =~= joined(parts));
}

/// Two results for the same stream and the same form agree in every field,
/// and the byte count of both is the length of the stream.
pub proof fn lemma_determinism(
    a: IsccSumResult,
    b: IsccSumResult,
    bytes: Seq<u8>,
    wide: bool,
    add_units: bool,
)
    requires
        is_sum_of(a, bytes, wide, add_units),
        is_sum_of(b, bytes, wide, add_units),
    ensures
        a.iscc@ == b.iscc@,
        a.datahash@ == b.datahash@,
        a.filesize == b.filesize,
        a.filesize == bytes.len(),
        a.units is Some <==> b.units is Some,
        a.units is Some ==> a.units->Some_0@.len() == 2 && b.units->Some_0@.len() == 2
            && a.units->Some_0@[0]@ == b.units->Some_0@[0]@ && a.units->Some_0@[1]@
            == b.units->Some_0@[1]@,
{
}

/// The 256-bit similarity digest always holds 32 bytes.
pub proof fn lemma_data_digest_len(bytes: Seq<u8>)
    ensures
        data_digest(bytes).len() == 32,
{
}

/// The token of a result is the prefix followed by base32 characters only.
/// Decoded, it holds two header bytes and the leading 8 or 16 bytes of both
/// digests. The first header byte has the composite main type in its high
/// half and the form's sub type in its low half; the second is zero.
pub proof fn lemma_token_shape(r: IsccSumResult, bytes: Seq<u8>, wide: bool, add_units: bool)
    requires
        is_sum_of(r, bytes, wide, add_units),
    ensures
        r.iscc@.len() == if wide {
            60int
        } else {
            34int
        },
        r.iscc@.subrange(0, 5) == iscc_prefix(),
        forall|k: int| 5 <= k < r.iscc@.len() ==> is_base32_char(#[trigger] r.iscc@[k]),
        token_payload(r.iscc@).len() == 2 + 2 * unit_len(wide),
        token_payload(r.iscc@)[0] as int / 16 == 5,
        token_payload(r.iscc@)[0] as int % 16 == if wide {
            7int
        } else {
            5int
        },
        token_payload(r.iscc@)[1] == 0,
        token_payload(r.iscc@).subrange(2, 2 + unit_len(wide)) == data_digest(bytes).subrange(
            0,
            unit_len(wide),
        ),
        token_payload(r.iscc@).subrange(2 + unit_len(wide), 2 + 2 * unit_len(wide))
            == instance_digest(bytes).subrange(0, unit_len(wide)),
{
    let data = data_digest(bytes);
    let instance = instance_digest(bytes);
    lemma_data_digest_len(bytes);
    lemma_token_of_payload(r.iscc@, data, instance, wide);
}

/// What the header and the body of the composite code hold.
pub proof fn lemma_sum_payload(data: Seq<u8>, instance: Seq<u8>, wide: bool)
    requires
        data.len() == 32,
        instance.len() == 32,
    ensures
        ({
            let payload = framed(sum_header(wide), sum_body(data, instance, wide));
            let n = unit_len(wide);
            &&& payload.len() == 2 + 2 * n
            &&& payload[0] as int / 16 == 5
            &&& payload[0] as int % 16 == if wide {
                7int
            } else {
                5int
            }
            &&& payload[1] == 0
            &&& payload.subrange(2, 2 + n) == data.subrange(0, n)
            &&& payload.subrange(2 + n, 2 + 2 * n) == instance.subrange(0, n)
        }),
{
    let payload = framed(sum_header(wide), sum_body(data, instance, wide));
    let n = unit_len(wide);
    assert(payload.subrange(2, 2 + n) =~= data.subrange(0, n));
    assert(payload.subrange(2 + n, 2 + 2 * n) =~= instance.subrange(0, n));
}

/// What a composite token holds, from the text of the token alone.
pub proof fn lemma_token_of_payload(token: Seq<char>, data: Seq<u8>, instance: Seq<u8>, wide: bool)
    requires
        data.len() == 32,
        instance.len() == 32,
        token == iscc_text(sum_header(wide), sum_body(data, instance, wide)),
    ensures
        token.len() == if wide {
            60int
        } else {
            34int
        },
        token.subrange(0, 5) == iscc_prefix(),
        forall|k: int| 5 <= k < token.len() ==> is_base32_char(#[trigger] token[k]),
        token_payload(token) == framed(sum_header(wide), sum_body(data, instance, wide)),
        token_payload(token).len() == 2 + 2 * unit_len(wide),
        token_payload(token)[0] as int / 16 == 5,
        token_payload(token)[0] as int % 16 == if wide {
            7int
        } else {
            5int
        },
        token_payload(token)[1] == 0,
        token_payload(token).subrange(2, 2 + unit_len(wide)) == data.subrange(0, unit_len(wide)),
        token_payload(token).subrange(2 + unit_len(wide), 2 + 2 * unit_len(wide))
            == instance.subrange(0, unit_len(wide)),
{
    let payload = framed(sum_header(wide), sum_body(data, instance, wide));
    lemma_sum_payload(data, instance, wide);
    lemma_token_round_trip(token, payload);
}

/// For one stream, what the compact token holds of each digest is the
/// beginning of what the wide token holds of it.
pub proof fn lemma_prefix_property(
    narrow: IsccSumResult,
    wide: IsccSumResult,
    bytes: Seq<u8>,
    narrow_units: bool,
    wide_units: bool,
)
    requires
        is_sum_of(narrow, bytes, false, narrow_units),
        is_sum_of(wide, bytes, true, wide_units),
    ensures
        token_payload(narrow.iscc@).subrange(2, 10) == token_payload(wide.iscc@).subrange(2, 10),
        token_payload(narrow.iscc@).subrange(10, 18) == token_payload(wide.iscc@).subrange(
            18,
            26,
        ),
{
    lemma_token_shape(narrow, bytes, false, narrow_units);
    lemma_token_shape(wide, bytes, true, wide_units);
    let d = data_digest(bytes);
    let i = instance_digest(bytes);
    let pn = token_payload(narrow.iscc@);
    let pw = token_payload(wide.iscc@);
    assert(pn.subrange(2, 10) =~= d.subrange(0, 8));
    assert(pw.subrange(2, 18) == d.subrange(0, 16));
    assert(pw.subrange(2, 10) =~= pw.subrange(2, 18).subrange(0, 8));
    assert(d.subrange(0, 16).subrange(0, 8) =~= d.subrange(0, 8));
    assert(pn.subrange(10, 18) =~= i.subrange(0, 8));
    assert(pw.subrange(18, 34) == i.subrange(0, 16));
    assert(pw.subrange(18, 26) =~= pw.subrange(18, 34).subrange(0, 8));
    assert(i.subrange(0, 16).subrange(0, 8) =~= i.subrange(0, 8));
}

/// The similarity digest of the empty stream is 32 bytes of `0xFF`, so a
/// result for the empty stream counts no byte and the data half of its
/// token holds `0xFF` only.
pub proof fn lemma_empty_stream(r: IsccSumResult, wide: bool, add_units: bool)
    requires
        is_sum_of(r, Seq::empty(), wide, add_units),
    ensures
        data_digest(Seq::empty()) == Seq::new(32, |k: int| 0xFFu8),
        r.filesize == 0,
        forall|k: int|
            2 <= k < 2 + unit_len(wide) ==> #[trigger] token_payload(r.iscc@)[k] == 0xFFu8,
{
    lemma_empty_digest();
    assert(stream_features(Seq::empty()) =~= Seq::<u32>::empty());
    lemma_token_shape(r, Seq::empty(), wide, add_units);
    let n = unit_len(wide);
    let payload = token_payload(r.iscc@);
    assert forall|k: int| 2 <= k < 2 + n implies #[trigger] payload[k] == 0xFFu8 by {
        assert(payload.subrange(2, 2 + n)[k - 2] == payload[k]);
        assert(data_digest(Seq::empty()).subrange(0, n)[k - 2] == 0xFFu8);
    }
}

} // verus!
