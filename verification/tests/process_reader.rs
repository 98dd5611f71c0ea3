use iscc_sum::cli::{Cli, BUFFER_SIZE};
use iscc_sum::sum::{process_reader, IsccSumResult};

/// What a reader that fills at most `max` bytes per read hands out for
/// `data`: the blocks, then the empty read that marks the end.
fn read_blocks(data: &[u8], max: usize) -> Vec<Vec<u8>> {
    let mut blocks: Vec<Vec<u8>> = data.chunks(max).map(|c| c.to_vec()).collect();
    blocks.push(Vec::new());
    blocks
}

fn process(data: &[u8], narrow: bool) -> IsccSumResult {
    process_reader(&read_blocks(data, BUFFER_SIZE), narrow)
}

#[test]
fn test_process_reader_empty() {
    let result = process(&[], false);

    assert!(result.iscc.starts_with("ISCC:"));
    assert_eq!(result.filesize, 0);
}

#[test]
fn test_process_reader_small_data() {
    let data = b"Hello, World!";
    let result = process(data, false);

    assert!(result.iscc.starts_with("ISCC:"));
    assert_eq!(result.filesize, 13);
    assert!(result.iscc.len() > 40);
}

#[test]
fn test_process_reader_narrow_format() {
    let data = b"Test data for narrow format";
    let result = process(data, true);

    assert!(result.iscc.starts_with("ISCC:"));
    assert_eq!(result.filesize, 27);
    assert!(result.iscc.len() < 40);
}

#[test]
fn test_process_reader_large_data() {
    let large_data = vec![0x42u8; BUFFER_SIZE * 2 + 1024];
    let result = process(&large_data, false);

    assert!(result.iscc.starts_with("ISCC:"));
    assert_eq!(result.filesize, large_data.len() as u64);
}

#[test]
fn test_process_reader_deterministic() {
    let data = b"Deterministic test data";

    let result1 = process(data, false);
    let result2 = process(data, false);

    assert_eq!(result1.iscc, result2.iscc);
    assert_eq!(result1.datahash, result2.datahash);
    assert_eq!(result1.filesize, result2.filesize);
}

#[test]
fn test_process_reader_different_data() {
    let data1 = b"First test data";
    let data2 = b"Second test data";

    let result1 = process(data1, false);
    let result2 = process(data2, false);

    assert_ne!(result1.iscc, result2.iscc);
}

#[test]
fn test_narrow_vs_wide_format() {
    let data = b"Format comparison test";

    let narrow_result = process(data, true);
    let wide_result = process(data, false);

    assert_ne!(narrow_result.iscc, wide_result.iscc);
    assert_eq!(narrow_result.filesize, wide_result.filesize);
    assert!(wide_result.iscc.len() > narrow_result.iscc.len());
}

#[test]
fn test_chunked_reading() {
    let data = vec![0x55u8; BUFFER_SIZE / 2];

    let result1 = process(&data, false);
    let result2 = process_reader(&read_blocks(&data, 1024), false);

    assert_eq!(result1.iscc, result2.iscc);
}

#[test]
fn test_cli_narrow_flag() {
    let cli = Cli { files: vec![], narrow: true };
    assert!(cli.narrow);

    let cli = Cli { files: vec![], narrow: false };
    assert!(!cli.narrow);
}

#[test]
fn process_reader_stops_at_the_first_empty_block() {
    let blocks = vec![b"Hello, ".to_vec(), b"World!".to_vec(), Vec::new(), b"ignored".to_vec()];
    let stopped = process_reader(&blocks, false);
    let whole = process(b"Hello, World!", false);
    assert_eq!(stopped.iscc, whole.iscc);
    assert_eq!(stopped.datahash, whole.datahash);
    assert_eq!(stopped.filesize, 13);
    assert!(stopped.units.is_none());
}

#[test]
fn process_reader_without_blocks_is_the_empty_stream() {
    let result = process_reader(&Vec::new(), true);
    assert_eq!(result.iscc, "ISCC:KUAP777777777777V4JUTOPV7GQ2M");
    assert_eq!(result.filesize, 0);
}
