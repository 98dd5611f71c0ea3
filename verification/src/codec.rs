//! The wire form of an ISCC: a two-byte header, a body, and their rendering
//! as RFC 4648 base32 text, upper case and without padding, after the prefix
//! `ISCC:`.

use vstd::prelude::*;
use vstd::string::StringExecFns;

verus! {

/// The RFC 4648 base32 alphabet.
pub const BASE32_ALPHABET: [char; 32] = [
    'A', 'B', 'C', 'D', 'E', 'F', 'G', 'H', 'I', 'J', 'K', 'L', 'M', 'N', 'O', 'P',
    'Q', 'R', 'S', 'T', 'U', 'V', 'W', 'X', 'Y', 'Z', '2', '3', '4', '5', '6', '7',
];

/// The weight of bit `k` of a byte, counted from the most significant bit.
pub open spec fn bit_weight(k: int) -> int {
    if k == 0 {
        128
    } else if k == 1 {
        64
    } else if k == 2 {
        32
    } else if k == 3 {
        16
    } else if k == 4 {
        8
    } else if k == 5 {
        4
    } else if k == 6 {
        2
    } else {
        1
    }
}

/// Bit `i` of the bit stream of `data`, most significant bit of each byte
/// first; zero past the end.
pub open spec fn stream_bit(data: Seq<u8>, i: int) -> int {
    if 0 <= i < 8 * data.len() {
        (data[i / 8] as int / bit_weight(i % 8)) % 2
    } else {
        0
    }
}

/// The `k`-th group of five bits of the bit stream of `data`, as a number.
#[verifier::opaque]
pub open spec fn quintet(data: Seq<u8>, k: int) -> int {
    16 * stream_bit(data, 5 * k) + 8 * stream_bit(data, 5 * k + 1) + 4 * stream_bit(
        data,
        5 * k + 2,
    ) + 2 * stream_bit(data, 5 * k + 3) + stream_bit(data, 5 * k + 4)
}

/// The number of base32 characters that encode `n` bytes without padding.
pub open spec fn base32_len(n: nat) -> nat {
    ((8 * n + 4) / 5) as nat
}

/// The unpadded base32 text of `data`: one letter of the alphabet for each
/// group of five bits, the last group filled up with zero bits.
pub open spec fn base32_text(data: Seq<u8>) -> Seq<char> {
    Seq::new(base32_len(data.len()), |k: int| BASE32_ALPHABET[quintet(data, k)])
}

/// `base32::encode` with the alphabet `Rfc4648 { padding: false }`: the
/// unpadded upper-case base32 text of `data`.
#[verifier::external_body]
pub(crate) fn base32_encode(data: &[u8]) -> (text: String)
    ensures
        text@ == base32_text(data@),
{
    base32::encode(base32::Alphabet::Rfc4648 { padding: false }, data)
}

/// Every group of five bits is a number below 32.
pub proof fn lemma_quintet_range(data: Seq<u8>, k: int)
    ensures
        0 <= quintet(data, k) < 32,
{
    reveal(quintet);
}

/// Every character of a base32 text is an upper-case letter or a digit from
/// `2` to `7`.
pub proof fn lemma_base32_alphabet(data: Seq<u8>, k: int)
    requires
        0 <= k < base32_len(data.len()),
    ensures
        is_base32_char(base32_text(data)[k]),
{
    lemma_quintet_range(data, k);
    lemma_alphabet_value(quintet(data, k));
}

/// Whether `c` belongs to the RFC 4648 base32 alphabet.
pub open spec fn is_base32_char(c: char) -> bool {
    ('A' <= c && c <= 'Z') || ('2' <= c && c <= '7')
}

/// The number that a base32 character stands for.
pub open spec fn base32_value(c: char) -> int {
    if 'A' <= c && c <= 'Z' {
        c as int - 'A' as int
    } else {
        c as int - '2' as int + 26
    }
}

/// The weight of bit `k` of a group of five bits, counted from the most
/// significant bit.
pub open spec fn quintet_weight(k: int) -> int {
    if k == 0 {
        16
    } else if k == 1 {
        8
    } else if k == 2 {
        4
    } else if k == 3 {
        2
    } else {
        1
    }
}

/// Bit `i` of the bit stream that `text` stands for.
pub open spec fn text_bit(text: Seq<char>, i: int) -> int {
    (base32_value(text[i / 5]) / quintet_weight(i % 5)) % 2
}

/// Byte `j` of the bit stream that `text` stands for.
pub open spec fn text_byte(text: Seq<char>, j: int) -> int {
    128 * text_bit(text, 8 * j) + 64 * text_bit(text, 8 * j + 1) + 32 * text_bit(text, 8 * j + 2)
        + 16 * text_bit(text, 8 * j + 3) + 8 * text_bit(text, 8 * j + 4) + 4 * text_bit(
        text,
        8 * j + 5,
    ) + 2 * text_bit(text, 8 * j + 6) + text_bit(text, 8 * j + 7)
}

/// The bytes that an unpadded base32 text stands for: the whole bytes of its
/// bit stream.
pub open spec fn base32_decode(text: Seq<char>) -> Seq<u8> {
    Seq::new(((5 * text.len()) / 8) as nat, |j: int| text_byte(text, j) as u8)
}

/// Each letter of the alphabet stands for its own place in it.
pub proof fn lemma_alphabet_value(q: int)
    requires
        0 <= q < 32,
    ensures
        base32_value(BASE32_ALPHABET[q]) == q,
        is_base32_char(BASE32_ALPHABET[q]),
{
}

/// A byte is the weighted sum of its eight bits.
pub proof fn lemma_byte_bits(x: int)
    requires
        0 <= x < 256,
    ensures
        x == 128 * ((x / 128) % 2) + 64 * ((x / 64) % 2) + 32 * ((x / 32) % 2) + 16 * ((x / 16)
            % 2) + 8 * ((x / 8) % 2) + 4 * ((x / 4) % 2) + 2 * ((x / 2) % 2) + (x % 2),
{
}

/// The bits of a base32 text are the bits of the bytes it was made from.
pub proof fn lemma_text_bit(data: Seq<u8>, i: int)
    requires
        0 <= i < 8 * data.len(),
    ensures
        text_bit(base32_text(data), i) == stream_bit(data, i),
{
    let k = i / 5;
    let text = base32_text(data);
    assert(0 <= k < base32_len(data.len()));
    lemma_quintet_range(data, k);
    lemma_alphabet_value(quintet(data, k));
    assert(text[k] == BASE32_ALPHABET[quintet(data, k)]);
    let b0 = stream_bit(data, 5 * k);
    let b1 = stream_bit(data, 5 * k + 1);
    let b2 = stream_bit(data, 5 * k + 2);
    let b3 = stream_bit(data, 5 * k + 3);
    let b4 = stream_bit(data, 5 * k + 4);
    assert(0 <= b0 <= 1 && 0 <= b1 <= 1 && 0 <= b2 <= 1 && 0 <= b3 <= 1 && 0 <= b4 <= 1);
    let q = 16 * b0 + 8 * b1 + 4 * b2 + 2 * b3 + b4;
    assert(q == quintet(data, k)) by {
        reveal(quintet);
    }
    assert((q / 16) % 2 == b0);
    assert((q / 8) % 2 == b1);
    assert((q / 4) % 2 == b2);
    assert((q / 2) % 2 == b3);
    assert(q % 2 == b4);
}

/// The eight stream bits of byte `j` are the bits of that byte.
pub proof fn lemma_stream_bits_of_byte(data: Seq<u8>, j: int)
    requires
        0 <= j < data.len(),
    ensures
        stream_bit(data, 8 * j) == (data[j] as int / 128) % 2,
        stream_bit(data, 8 * j + 1) == (data[j] as int / 64) % 2,
        stream_bit(data, 8 * j + 2) == (data[j] as int / 32) % 2,
        stream_bit(data, 8 * j + 3) == (data[j] as int / 16) % 2,
        stream_bit(data, 8 * j + 4) == (data[j] as int / 8) % 2,
        stream_bit(data, 8 * j + 5) == (data[j] as int / 4) % 2,
        stream_bit(data, 8 * j + 6) == (data[j] as int / 2) % 2,
        stream_bit(data, 8 * j + 7) == (data[j] as int) % 2,
{
}

/// Byte `j` of the bit stream of a base32 text is byte `j` of the bytes it
/// was made from.
pub proof fn lemma_text_byte(data: Seq<u8>, j: int)
    requires
        0 <= j < data.len(),
    ensures
        text_byte(base32_text(data), j) == data[j],
{
    lemma_text_bit(data, 8 * j);
    lemma_text_bit(data, 8 * j + 1);
    lemma_text_bit(data, 8 * j + 2);
    lemma_text_bit(data, 8 * j + 3);
    lemma_text_bit(data, 8 * j + 4);
    lemma_text_bit(data, 8 * j + 5);
    lemma_text_bit(data, 8 * j + 6);
    lemma_text_bit(data, 8 * j + 7);
    lemma_stream_bits_of_byte(data, j);
    lemma_byte_bits(data[j] as int);
}

/// Decoding the base32 text of `data` gives `data` back, and the text holds
/// characters of the alphabet only.
pub proof fn lemma_base32_round_trip(data: Seq<u8>)
    ensures
        base32_decode(base32_text(data)) == data,
        base32_text(data).len() == base32_len(data.len()),
        forall|k: int|
            0 <= k < base32_text(data).len() ==> is_base32_char(#[trigger] base32_text(data)[k]),
{
    let text = base32_text(data);
    let back = base32_decode(text);
    assert(back.len() == data.len());
    assert forall|j: int| 0 <= j < data.len() implies back[j] == data[j] by {
        lemma_text_byte(data, j);
    }
    assert(back =~= data);
    assert forall|k: int| 0 <= k < text.len() implies is_base32_char(#[trigger] text[k]) by {
        lemma_base32_alphabet(data, k);
    }
}

/// A token gives back the bytes it was made from: what follows the prefix
/// is base32 text of the alphabet, and decoding it gives the bytes.
pub proof fn lemma_token_round_trip(token: Seq<char>, payload: Seq<u8>)
    requires
        token == iscc_prefix() + base32_text(payload),
    ensures
        token.len() == 5 + base32_len(payload.len()),
        token.subrange(0, 5) == iscc_prefix(),
        forall|k: int| 5 <= k < token.len() ==> is_base32_char(#[trigger] token[k]),
        base32_decode(token.subrange(5, token.len() as int)) == payload,
{
    let text = base32_text(payload);
    lemma_base32_round_trip(payload);
    assert(token.subrange(5, token.len() as int) =~= text);
    assert(token.subrange(0, 5) =~= iscc_prefix());
    assert forall|k: int| 5 <= k < token.len() implies is_base32_char(#[trigger] token[k]) by {
        assert(token[k] == text[k - 5]);
    }
}

/// The four fields of an ISCC header, each a number below 16.
#[derive(Clone, Copy, Debug, PartialEq, Eq, Structural)]
pub struct Header {
    pub main_type: u8,
    pub sub_type: u8,
    pub version: u8,
    pub length: u8,
}

/// Main type of a Data-Code unit.
pub const MAIN_DATA: u8 = 0b0011;

/// Main type of an Instance-Code unit.
pub const MAIN_INSTANCE: u8 = 0b0100;

/// Main type of a composite ISCC.
pub const MAIN_ISCC: u8 = 0b0101;

/// Sub type of a stand-alone unit.
pub const SUB_NONE: u8 = 0b0000;

/// Sub type of the compact composite: 64 bits of each code.
pub const SUB_SUM: u8 = 0b0101;

/// Sub type of the wide composite: 128 bits of each code.
pub const SUB_SUM_WIDE: u8 = 0b0111;

/// Length code of a 256-bit unit.
pub const LENGTH_256: u8 = 0b0111;

/// The header of the composite code, compact or wide.
pub open spec fn sum_header(wide: bool) -> Header {
    Header {
        main_type: MAIN_ISCC,
        sub_type: if wide {
            SUB_SUM_WIDE
        } else {
            SUB_SUM
        },
        version: 0,
        length: 0,
    }
}

/// The header of a full-length Data-Code unit.
pub open spec fn data_unit_header() -> Header {
    Header { main_type: MAIN_DATA, sub_type: SUB_NONE, version: 0, length: LENGTH_256 }
}

/// The header of a full-length Instance-Code unit.
pub open spec fn instance_unit_header() -> Header {
    Header { main_type: MAIN_INSTANCE, sub_type: SUB_NONE, version: 0, length: LENGTH_256 }
}

/// The literal prefix of every token.
pub open spec fn iscc_prefix() -> Seq<char> {
    seq!['I', 'S', 'C', 'C', ':']
}

/// The number of body bytes that each code gives to the composite.
pub open spec fn unit_len(wide: bool) -> int {
    if wide {
        16
    } else {
        8
    }
}

impl Header {
    /// Every field fits in four bits.
    pub open spec fn wf(&self) -> bool {
        self.main_type < 16 && self.sub_type < 16 && self.version < 16 && self.length < 16
    }

    /// The two header bytes: main type over sub type, version over length.
    pub open spec fn bytes(&self) -> Seq<u8> {
        seq![
            (16 * self.main_type + self.sub_type) as u8,
            (16 * self.version + self.length) as u8,
        ]
    }

    /// The header of the composite code.
    pub fn sum(wide: bool) -> (h: Header)
        ensures
            h == sum_header(wide),
            h.wf(),
    {
        Header {
            main_type: MAIN_ISCC,
            sub_type: if wide {
                SUB_SUM_WIDE
            } else {
                SUB_SUM
            },
            version: 0,
            length: 0,
        }
    }

    /// The header of a full-length Data-Code unit.
    pub fn data_unit() -> (h: Header)
        ensures
            h == data_unit_header(),
            h.wf(),
    {
        Header { main_type: MAIN_DATA, sub_type: SUB_NONE, version: 0, length: LENGTH_256 }
    }

    /// The header of a full-length Instance-Code unit.
    pub fn instance_unit() -> (h: Header)
        ensures
            h == instance_unit_header(),
            h.wf(),
    {
        Header { main_type: MAIN_INSTANCE, sub_type: SUB_NONE, version: 0, length: LENGTH_256 }
    }
}

/// The bytes of a code: the header, then the body.
pub open spec fn framed(header: Header, body: Seq<u8>) -> Seq<u8> {
    header.bytes() + body
}

/// The text of a code: the prefix, then the base32 text of its bytes.
pub open spec fn iscc_text(header: Header, body: Seq<u8>) -> Seq<char> {
    iscc_prefix() + base32_text(framed(header, body))
}

/// The body of the composite code: the leading bytes of the data digest,
/// then as many of the instance digest.
pub open spec fn sum_body(data_digest: Seq<u8>, instance_digest: Seq<u8>, wide: bool) -> Seq<u8> {
    data_digest.subrange(0, unit_len(wide)) + instance_digest.subrange(0, unit_len(wide))
}

/// Puts `header` in front of `body`.
pub fn frame(header: Header, body: &[u8]) -> (bytes: Vec<u8>)
    requires
        header.wf(),
    ensures
        bytes@ == framed(header, body@),
{
    let mut bytes: Vec<u8> = Vec::new();
    bytes.push(16 * header.main_type + header.sub_type);
    bytes.push(16 * header.version + header.length);
    let mut i: usize = 0;
    while i < body.len()
        invariant
            i <= body@.len(),
            bytes@ == header.bytes() + body@.subrange(0, i as int),
        decreases body@.len() - i,
    {
        bytes.push(body[i]);
        assert(body@.subrange(0, i + 1) =~= body@.subrange(0, i as int).push(body@[i as int]));
        i = i + 1;
    }
    assert(body@.subrange(0, body@.len() as int) =~= body@);
    bytes
}

/// Renders a code as text.
pub fn encode_code(header: Header, body: &[u8]) -> (text: String)
    requires
        header.wf(),
    ensures
        text@ == iscc_text(header, body@),
{
    let bytes = frame(header, body);
    let encoded = base32_encode(bytes.as_slice());
    let mut text = String::from_str("ISCC:");
    proof {
        reveal_strlit("ISCC:");
        assert("ISCC:"@ =~= iscc_prefix());
    }
    text.append(encoded.as_str());
    text
}

/// Joins the leading `n` bytes of each digest.
pub fn join_prefixes(data_digest: &[u8], instance_digest: &[u8], wide: bool) -> (body: Vec<u8>)
    requires
        data_digest@.len() == 32,
        instance_digest@.len() == 32,
    ensures
        body@ == sum_body(data_digest@, instance_digest@, wide),
{
    let n: usize = if wide {
        16
    } else {
        8
    };
    let mut body: Vec<u8> = Vec::new();
    let mut i: usize = 0;
    while i < n
        invariant
            i <= n <= 32,
            data_digest@.len() == 32,
            body@ == data_digest@.subrange(0, i as int),
        decreases n - i,
    {
        body.push(data_digest[i]);
        assert(data_digest@.subrange(0, i + 1) =~= data_digest@.subrange(0, i as int).push(
            data_digest@[i as int],
        ));
        i = i + 1;
    }
    let mut j: usize = 0;
    while j < n
        invariant
            j <= n <= 32,
            instance_digest@.len() == 32,
            body@ == data_digest@.subrange(0, n as int) + instance_digest@.subrange(0, j as int),
        decreases n - j,
    {
        body.push(instance_digest[j]);
        assert(instance_digest@.subrange(0, j + 1) =~= instance_digest@.subrange(
            0,
            j as int,
        ).push(instance_digest@[j as int]));
        j = j + 1;
    }
    body
}

} // verus!
