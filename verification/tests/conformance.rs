use iscc_sum::cdc::Chunker;
use iscc_sum::codec::{encode_code, frame, join_prefixes, Header};
use iscc_sum::constants::{GEAR, LANE_ADD, LANE_MUL, MAX_SIZE, MIN_SIZE};
use iscc_sum::data::DataHasher;
use iscc_sum::hex::to_hex;
use iscc_sum::instance::{multihash_of, InstanceHasher};
use iscc_sum::minhash::MinHash;
use iscc_sum::sum::{assemble, IsccSumProcessor, IsccSumResult, SumError};

const EMPTY_BLAKE3: &str = "af1349b9f5f9a1a6a0404dea36dcc9499bcb25c9adc112b7cc9a93cae41f3262";

fn from_hex(text: &str) -> Vec<u8> {
    (0..text.len() / 2).map(|i| u8::from_str_radix(&text[2 * i..2 * i + 2], 16).unwrap()).collect()
}

fn sum_of(data: &[u8], wide: bool, add_units: bool) -> IsccSumResult {
    let mut p = IsccSumProcessor::new();
    p.update(data).unwrap();
    p.result(wide, add_units).unwrap()
}

fn payload(token: &str) -> Vec<u8> {
    assert!(token.starts_with("ISCC:"));
    base32::decode(base32::Alphabet::Rfc4648 { padding: false }, &token[5..]).unwrap()
}

fn data_digest(data: &[u8]) -> Vec<u8> {
    let mut h = DataHasher::new();
    h.push(data);
    h.digest()
}

fn hamming(a: &[u8], b: &[u8]) -> u32 {
    a.iter().zip(b.iter()).map(|(x, y)| (x ^ y).count_ones()).sum()
}

/// A reproducible stand-in for random bytes.
fn noise(n: usize, seed: u64) -> Vec<u8> {
    let mut s = seed;
    let mut out = Vec::with_capacity(n);
    for _ in 0..n {
        s = s.wrapping_mul(6364136223846793005).wrapping_add(1442695040888963407);
        out.push((s >> 33) as u8);
    }
    out
}

#[test]
fn empty_stream_vector() {
    let narrow = sum_of(b"", false, true);
    assert_eq!(narrow.iscc, "ISCC:KUAP777777777777V4JUTOPV7GQ2M");
    assert_eq!(narrow.filesize, 0);
    assert_eq!(narrow.datahash, format!("1e20{}", EMPTY_BLAKE3));
    let units = narrow.units.unwrap();
    assert_eq!(units.len(), 2);
    assert_eq!(units[0], "ISCC:GAD777777777777777777777777777777777777777777777777777Y");
    assert_eq!(units[1], "ISCC:IAD26E2JXH27TINGUBAE32RW3TEUTG6LEXE23QISW7GJVE6K4QPTEYQ");

    let wide = sum_of(b"", true, false);
    assert_eq!(wide.iscc, "ISCC:K4AP7777777777777777777777777LYTJG47L6NBU2QEATPKG3OMSSI");
    assert!(wide.units.is_none());
}

#[test]
fn empty_data_digest_is_all_ones() {
    assert_eq!(data_digest(b""), vec![0xFFu8; 32]);
}

#[test]
fn hello_world_vector() {
    let data = b"Hello, World!";
    let wide = sum_of(data, true, true);
    assert_eq!(wide.filesize, 13);
    let hash = blake3::hash(data);
    assert_eq!(wide.datahash, format!("1e20{}", hash.to_hex()));

    let expected_data =
        from_hex("dabbc6d026cfb9e97be161ac213e364cbf9fbb40a58c2d1078d365a33169dc54");
    assert_eq!(data_digest(data), expected_data);

    let bytes = payload(&wide.iscc);
    assert_eq!(bytes.len(), 34);
    assert_eq!(bytes[0], 0x57);
    assert_eq!(bytes[1], 0x00);
    assert_eq!(&bytes[2..18], &expected_data[..16]);
    assert_eq!(&bytes[18..34], &hash.as_bytes()[..16]);

    let units = wide.units.unwrap();
    let data_unit = payload(&units[0]);
    assert_eq!(&data_unit[..2], &[0x30, 0x07]);
    assert_eq!(&data_unit[2..], &expected_data[..]);
    let instance_unit = payload(&units[1]);
    assert_eq!(&instance_unit[..2], &[0x40, 0x07]);
    assert_eq!(&instance_unit[2..], &hash.as_bytes()[..]);

    let narrow = sum_of(data, false, false);
    let bytes = payload(&narrow.iscc);
    assert_eq!(bytes.len(), 18);
    assert_eq!(bytes[0], 0x55);
    assert_eq!(bytes[1], 0x00);
    assert_eq!(&bytes[2..10], &expected_data[..8]);
    assert_eq!(&bytes[10..18], &hash.as_bytes()[..8]);
}

#[test]
fn five_mebibytes_vector_and_single_byte_pushes() {
    let data = vec![0x42u8; 5_242_880];
    let whole = sum_of(&data, true, true);
    assert_eq!(whole.filesize, 5_242_880);
    assert_eq!(whole.datahash, format!("1e20{}", blake3::hash(&data).to_hex()));
    let expected_data =
        from_hex("c9ca1f213376ec54ee98d65d5e63eff9a6026c77da31186ba9807e5848308ded");
    assert_eq!(&payload(&whole.iscc)[2..18], &expected_data[..16]);

    let mut p = IsccSumProcessor::new();
    for b in data.iter() {
        p.update(std::slice::from_ref(b)).unwrap();
    }
    let bytewise = p.result(true, true).unwrap();
    assert_eq!(bytewise.iscc, whole.iscc);
    assert_eq!(bytewise.datahash, whole.datahash);
    assert_eq!(bytewise.filesize, whole.filesize);
    assert_eq!(bytewise.units, whole.units);
}

#[test]
fn slicing_does_not_change_the_result() {
    let data = noise(300_000, 42);
    let whole = sum_of(&data, true, true);
    for cuts in [vec![1usize, 255, 256, 257], vec![1024, 8191, 8192, 8193, 100_000], vec![299_999]] {
        let mut p = IsccSumProcessor::new();
        let mut at = 0;
        for cut in cuts {
            p.update(&data[at..cut]).unwrap();
            at = cut;
        }
        p.update(&data[at..]).unwrap();
        p.update(&[]).unwrap();
        let parts = p.result(true, true).unwrap();
        assert_eq!(parts.iscc, whole.iscc);
        assert_eq!(parts.datahash, whole.datahash);
        assert_eq!(parts.filesize, whole.filesize);
        assert_eq!(parts.units, whole.units);
    }
}

#[test]
fn one_flipped_byte() {
    let r = noise(1 << 20, 12345);
    assert_eq!(
        data_digest(&r),
        from_hex("7415acb684e9db8b1d0b0fc24f5c5c6a5931d16ac3aacff29ef1cbc19b43f2ba")
    );
    let mut flipped = r.clone();
    flipped[500_000] ^= 0xFF;
    assert!(hamming(&data_digest(&r), &data_digest(&flipped)) <= 32);

    let a = sum_of(&r, true, true).units.unwrap();
    let b = sum_of(&flipped, true, true).units.unwrap();
    let instance_a = payload(&a[1]);
    let instance_b = payload(&b[1]);
    assert!(hamming(&instance_a[2..], &instance_b[2..]) >= 100);
}

#[test]
fn thirty_two_bytes_prepended() {
    let r = noise(1 << 20, 12345);
    let mut longer = noise(32, 777);
    longer.extend_from_slice(&r);
    assert!(hamming(&data_digest(&r), &data_digest(&longer)) <= 32);
}

#[test]
fn narrow_is_a_prefix_of_wide() {
    let r = noise(1 << 20, 12345);
    let narrow = payload(&sum_of(&r, false, false).iscc);
    let wide = payload(&sum_of(&r, true, false).iscc);
    assert_eq!(narrow.len(), 18);
    assert_eq!(wide.len(), 34);
    assert_eq!(narrow[0] >> 4, 0x5);
    assert_eq!(narrow[0] & 0xF, 0x5);
    assert_eq!(wide[0] >> 4, 0x5);
    assert_eq!(wide[0] & 0xF, 0x7);
    assert_eq!(narrow[1], 0);
    assert_eq!(wide[1], 0);
    assert_eq!(&narrow[2..10], &wide[2..10]);
    assert_eq!(&narrow[10..18], &wide[18..26]);
}

#[test]
fn token_is_unpadded_upper_case_base32() {
    for (wide, len) in [(false, 34usize), (true, 60usize)] {
        let token = sum_of(b"token shape", wide, false).iscc;
        assert_eq!(token.len(), len);
        assert!(token[5..].chars().all(|c| c.is_ascii_uppercase() || ('2'..='7').contains(&c)));
    }
}

#[test]
fn update_after_result_is_refused() {
    let mut p = IsccSumProcessor::new();
    assert!(!p.finalized());
    p.update(b"abc").unwrap();
    assert_eq!(p.filesize(), 3);
    let first = p.result(false, false).unwrap();
    assert!(p.finalized());
    assert_eq!(p.update(b"def"), Err(SumError::AlreadyFinalized));
    assert_eq!(p.filesize(), 3);
    assert!(matches!(p.result(false, false), Err(SumError::AlreadyFinalized)));
    assert_eq!(first.iscc, sum_of(b"abc", false, false).iscc);
}

#[test]
fn assemble_from_given_digests() {
    let data: Vec<u8> = (0u8..32).collect();
    let instance: Vec<u8> = (100u8..132).collect();
    let r = assemble(&data, &instance, 7, false, true);
    assert_eq!(r.iscc, "ISCC:KUAAAAICAMCAKBQHMRSWMZ3INFVGW");
    assert_eq!(
        r.datahash,
        "1e206465666768696a6b6c6d6e6f707172737475767778797a7b7c7d7e7f80818283"
    );
    assert_eq!(r.filesize, 7);
    let units = r.units.unwrap();
    assert_eq!(units[0], "ISCC:GADQAAICAMCAKBQHBAEQUCYMBUHA6EARCIJRIFIWC4MBSGQ3DQOR4HY");
    assert_eq!(payload(&units[1])[2..], instance[..]);
    let w = assemble(&data, &instance, 7, true, false);
    assert_eq!(payload(&w.iscc), [&[0x57u8, 0x00][..], &data[..16], &instance[..16]].concat());
    assert!(w.units.is_none());
}

#[test]
fn base32_of_known_texts() {
    // Header 0x66 0x6f ("fo") and body "obar": the text of "foobar".
    let header = Header { main_type: 6, sub_type: 6, version: 6, length: 15 };
    assert_eq!(encode_code(header, b"obar"), "ISCC:MZXW6YTBOI");
    assert_eq!(encode_code(header, b""), "ISCC:MZXQ");
    assert_eq!(frame(header, b"ob"), b"foob".to_vec());
}

#[test]
fn headers_of_the_three_codes() {
    assert_eq!(frame(Header::sum(false), &[]), vec![0x55, 0x00]);
    assert_eq!(frame(Header::sum(true), &[]), vec![0x57, 0x00]);
    assert_eq!(frame(Header::data_unit(), &[]), vec![0x30, 0x07]);
    assert_eq!(frame(Header::instance_unit(), &[]), vec![0x40, 0x07]);
}

#[test]
fn join_prefixes_takes_the_leading_bytes() {
    let data: Vec<u8> = (0u8..32).collect();
    let instance: Vec<u8> = (100u8..132).collect();
    assert_eq!(
        join_prefixes(&data, &instance, false),
        vec![0, 1, 2, 3, 4, 5, 6, 7, 100, 101, 102, 103, 104, 105, 106, 107]
    );
    assert_eq!(join_prefixes(&data, &instance, true).len(), 32);
}

#[test]
fn hex_and_multihash() {
    assert_eq!(to_hex(&[0x00, 0x0f, 0xa5, 0xff]), "000fa5ff");
    assert_eq!(to_hex(&[]), "");
    assert_eq!(multihash_of(&from_hex(EMPTY_BLAKE3)), format!("1e20{}", EMPTY_BLAKE3));
}

#[test]
fn instance_hasher_streams() {
    let mut h = InstanceHasher::new();
    assert_eq!(h.filesize(), 0);
    assert_eq!(to_hex(&h.digest()), EMPTY_BLAKE3);
    h.push(b"foo");
    h.push(b"bar");
    assert_eq!(h.filesize(), 6);
    assert_eq!(h.digest(), blake3::hash(b"foobar").as_bytes().to_vec());
    assert_eq!(h.multihash(), format!("1e20{}", blake3::hash(b"foobar").to_hex()));
    h.push(b"baz");
    assert_eq!(h.digest(), blake3::hash(b"foobarbaz").as_bytes().to_vec());
}

#[test]
fn chunker_boundaries() {
    // A run of one byte value settles the register after 64 bytes, so every
    // chunk of 0x42 runs to the forced boundary.
    let mut c = Chunker::new();
    let mut lengths = Vec::new();
    let mut features = Vec::new();
    let mut len = 0usize;
    for _ in 0..20_000 {
        len += 1;
        if let Some(f) = c.step(0x42) {
            lengths.push(len);
            features.push(f);
            len = 0;
        }
    }
    assert_eq!(lengths, vec![MAX_SIZE, MAX_SIZE]);
    assert_eq!(features, vec![2984127575, 2984127575]);
    assert_eq!(c.open_len(), 20_000 - 2 * MAX_SIZE);
    assert_eq!(c.residue(), Some(2984127575));
}

#[test]
fn chunker_keeps_chunks_within_bounds() {
    let data = noise(200_000, 7);
    let mut c = Chunker::new();
    let mut len = 0usize;
    let mut closed = 0usize;
    for b in data {
        len += 1;
        if c.step(b).is_some() {
            assert!(MIN_SIZE <= len && len <= MAX_SIZE);
            closed += 1;
            len = 0;
        }
        assert_eq!(c.open_len(), len);
    }
    assert!(closed > 50);
}

#[test]
fn first_byte_feature_is_the_gear_word() {
    let mut c = Chunker::new();
    assert_eq!(c.residue(), None);
    assert_eq!(c.step(0), None);
    assert_eq!(c.residue(), Some(GEAR[0] as u32));
    assert_eq!(c.step(1), None);
    assert_eq!(c.residue(), Some(((GEAR[0] << 1).wrapping_add(GEAR[1])) as u32));
}

#[test]
fn sketch_lanes_are_minima() {
    let mut m = MinHash::new();
    assert_eq!(m.count(), 0);
    assert_eq!(m.lane(0), 0xFFFF_FFFF);
    assert_eq!(m.digest(None), vec![0xFF; 32]);
    let features = [3886713282u32, 17, 0, 0xFFFF_FFFF];
    for f in features {
        m.absorb(f);
    }
    assert_eq!(m.count(), 4);
    for i in 0..64 {
        let least = features
            .iter()
            .map(|f| f.wrapping_mul(LANE_MUL[i]).wrapping_add(LANE_ADD[i]))
            .min()
            .unwrap();
        assert_eq!(m.lane(i), least);
    }
    let d = m.digest(None);
    assert_eq!(d[0], (((m.lane(0) & 15) << 4) | (m.lane(1) & 15)) as u8);
    assert_eq!(d[31], (((m.lane(62) & 15) << 4) | (m.lane(63) & 15)) as u8);
    let mut with_last = MinHash::new();
    for f in [3886713282u32, 17, 0] {
        with_last.absorb(f);
    }
    assert_eq!(with_last.digest(Some(0xFFFF_FFFF)), d);
}

#[test]
fn sketch_of_one_feature() {
    let mut m = MinHash::new();
    m.absorb(3886713282);
    assert_eq!(
        to_hex(&m.digest(None)),
        "dabbc6d026cfb9e97be161ac213e364cbf9fbb40a58c2d1078d365a33169dc54"
    );
}

#[test]
fn lane_multipliers_are_odd() {
    assert!(LANE_MUL.iter().all(|a| a % 2 == 1));
}

#[test]
fn data_hasher_counts_closed_chunks() {
    let mut h = DataHasher::new();
    h.push(&vec![0x42u8; 2 * MAX_SIZE + 5]);
    assert_eq!(h.chunk_count(), 2);
}

#[test]
fn test_iscc_sum_processor() {
    let processor = IsccSumProcessor::new();
    assert!(!processor.finalized());
    assert_eq!(processor.filesize(), 0);
}
