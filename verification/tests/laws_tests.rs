//! Concrete checks of the library-wide properties: index completeness and
//! order, read counts, and the round trip from lines back to bytes.

use logview_core::file_processor::FileProcessor;
use logview_core::indexer::EncodingMode;

#[test]
fn index_is_strictly_increasing_and_complete() {
    let data = b"alpha\n\nbeta\ncc\n\n";
    let fp = FileProcessor::new(String::from("/log"), EncodingMode::AsciiCompatible, data);
    for pair in fp.index.windows(2) {
        assert!(pair[0] < pair[1]);
    }
    for (offset, byte) in data.iter().enumerate() {
        let indexed = fp.index.contains(&(offset as u64));
        assert_eq!(indexed, *byte == b'\n', "offset {offset}");
    }
}

#[test]
fn read_count_matches_the_clamped_range() {
    let data = b"a\nbb\n\nccc\ndddd\n";
    let fp = FileProcessor::new(String::from("/log"), EncodingMode::AsciiCompatible, data);
    let count = fp.index.len() as u64;
    assert_eq!(count, 5);
    for a in 0..count {
        for b in a..count + 3 {
            let lines = fp.read_lines_range(data, a, b).unwrap();
            let clamped = if b < count - 1 { b } else { count - 1 };
            assert_eq!(lines.len() as u64, clamped - a + 1, "range {a}..{b}");
        }
    }
}

#[test]
fn lines_joined_with_newlines_restore_the_content() {
    let data = b"first\nsecond line\n\nlast\n";
    let fp = FileProcessor::new(String::from("/log"), EncodingMode::AsciiCompatible, data);
    let count = fp.index.len() as u64;
    let lines = fp.read_lines_range(data, 0, count - 1).unwrap();
    let mut joined = lines.join("\n");
    joined.push('\n');
    assert_eq!(joined.as_bytes(), data);
}

#[test]
fn error_messages_render_large_numbers() {
    let data = b"a\n";
    let fp = FileProcessor::new(String::from("/log"), EncodingMode::AsciiCompatible, data);
    let err = fp.read_lines_range(data, u64::MAX, u64::MAX).unwrap_err();
    assert_eq!(
        err,
        "start_line (18446744073709551615) out of bounds (file has 1 lines)"
    );
}
