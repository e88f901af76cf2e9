use logview_core::file_processor::{FileChangeType, FileProcessor};
use logview_core::indexer::{EncodingMode, LineScanner};

#[test]
fn ascii_index_and_range_read() {
    let data = b"a\nbb\nccc\n";
    let fp = FileProcessor::new(String::from("/log"), EncodingMode::AsciiCompatible, data);
    assert_eq!(fp.index, vec![1, 4, 8]);
    assert_eq!(fp.last_file_size, 9);
    let lines = fp.read_lines_range(data, 0, 2).unwrap();
    assert_eq!(lines, vec!["a".to_string(), "bb".to_string(), "ccc".to_string()]);
}

#[test]
fn no_trailing_newline_drops_partial_line() {
    let data = b"x\ny";
    let fp = FileProcessor::new(String::from("/log"), EncodingMode::AsciiCompatible, data);
    assert_eq!(fp.index, vec![1]);
    let err = fp.read_lines_range(data, 1, 1).unwrap_err();
    assert_eq!(err, "start_line (1) out of bounds (file has 1 lines)");
}

#[test]
fn utf16le_index_and_decode() {
    let data: &[u8] = &[0xFF, 0xFE, 0x41, 0x00, 0x0A, 0x00, 0x42, 0x00, 0x0A, 0x00];
    let fp = FileProcessor::new(String::from("/log"), EncodingMode::Utf16LE, data);
    assert_eq!(fp.index, vec![4, 8]);
    let lines = fp.read_lines_range(data, 0, 1).unwrap();
    assert_eq!(lines, vec!["A".to_string(), "B".to_string()]);
}

#[test]
fn utf16be_index() {
    let data: &[u8] = &[0xFE, 0xFF, 0x00, 0x41, 0x00, 0x0A, 0x00, 0x42, 0x00, 0x0A];
    let fp = FileProcessor::new(String::from("/log"), EncodingMode::Utf16BE, data);
    assert_eq!(fp.index, vec![5, 9]);
    let lines = fp.read_lines_range(data, 0, 0).unwrap();
    assert_eq!(lines[0], "A");
}

#[test]
fn utf16be_last_line_window_passes_end() {
    let data: &[u8] = &[0xFE, 0xFF, 0x00, 0x41, 0x00, 0x0A, 0x00, 0x42, 0x00, 0x0A];
    let fp = FileProcessor::new(String::from("/log"), EncodingMode::Utf16BE, data);
    let err = fp.read_lines_range(data, 0, 1).unwrap_err();
    assert!(err.contains("window passes the end of the file"), "{err}");
}

#[test]
fn utf16le_terminator_straddles_buffers() {
    let mut scanner = LineScanner::new(0, EncodingMode::Utf16LE);
    scanner.feed(&[0x41, 0x00, 0x0A]);
    assert_eq!(scanner.index, Vec::<u64>::new());
    scanner.feed(&[0x00, 0x42, 0x00]);
    assert_eq!(scanner.index, vec![2]);
}

#[test]
fn utf16be_terminator_straddles_buffers() {
    let mut scanner = LineScanner::new(0, EncodingMode::Utf16BE);
    scanner.feed(&[0x00, 0x41, 0x00]);
    scanner.feed(&[0x0A, 0x00, 0x42]);
    assert_eq!(scanner.index, vec![3]);
}

#[test]
fn utf16le_misaligned_newline_is_skipped() {
    // 0x0A at an odd offset is the high byte of another character, not a
    // terminator.
    let data: &[u8] = &[0x00, 0x0A, 0x41, 0x00, 0x0A, 0x00];
    let fp = FileProcessor::new(String::from("/log"), EncodingMode::Utf16LE, data);
    assert_eq!(fp.index, vec![4]);
}

#[test]
fn ascii_scanner_across_many_buffers() {
    let mut scanner = LineScanner::new(0, EncodingMode::AsciiCompatible);
    scanner.feed(b"one\ntw");
    scanner.feed(b"o\n");
    scanner.feed(b"");
    scanner.feed(b"three\n");
    assert_eq!(scanner.index, vec![3, 7, 13]);
}

#[test]
fn empty_file_read_is_an_error() {
    let data = b"";
    let fp = FileProcessor::new(String::from("/log"), EncodingMode::AsciiCompatible, data);
    assert_eq!(fp.index, Vec::<u64>::new());
    assert_eq!(fp.read_lines_range(data, 0, 0).unwrap_err(), "File is empty");
}

#[test]
fn inverted_range_is_an_error() {
    let data = b"a\nb\n";
    let fp = FileProcessor::new(String::from("/log"), EncodingMode::AsciiCompatible, data);
    let err = fp.read_lines_range(data, 1, 0).unwrap_err();
    assert_eq!(err, "Invalid range: start_line (1) > end_line (0)");
}

#[test]
fn range_read_clamps_to_last_line() {
    let data = b"a\nb\nc\n";
    let fp = FileProcessor::new(String::from("/log"), EncodingMode::AsciiCompatible, data);
    let lines = fp.read_lines_range(data, 0, 99).unwrap();
    assert_eq!(lines.len(), 3);
}

#[test]
fn crlf_terminators_are_stripped() {
    let data = b"a\r\nb\r\n";
    let fp = FileProcessor::new(String::from("/log"), EncodingMode::AsciiCompatible, data);
    assert_eq!(fp.index, vec![2, 5]);
    let lines = fp.read_lines_range(data, 0, 1).unwrap();
    assert_eq!(lines, vec!["a".to_string(), "b".to_string()]);
}

#[test]
fn invalid_utf8_bytes_become_replacement_characters() {
    let data: &[u8] = &[0xFF, 0x61, 0x0A];
    let fp = FileProcessor::new(String::from("/log"), EncodingMode::AsciiCompatible, data);
    let lines = fp.read_lines_range(data, 0, 0).unwrap();
    assert_eq!(lines[0], "\u{FFFD}a");
}

#[test]
fn append_then_refresh_reports_new_lines() {
    let data = b"a\nb\n";
    let mut fp = FileProcessor::new(String::from("/log"), EncodingMode::AsciiCompatible, data);
    assert_eq!(fp.index, vec![1, 3]);
    let data2 = b"a\nb\nc\n";
    let (change, old_count, new_count, new_lines) =
        fp.refresh_if_needed(data2).unwrap().unwrap();
    assert_eq!(change, FileChangeType::LinesAdded);
    assert_eq!(old_count, 2);
    assert_eq!(new_count, 3);
    assert_eq!(new_lines, vec!["c".to_string()]);
    assert_eq!(old_count + new_lines.len() as u64, new_count);
    assert_eq!(new_lines, fp.read_lines_range(data2, old_count, new_count - 1).unwrap());
}

#[test]
fn truncate_then_refresh_rebuilds_index() {
    let mut big = Vec::new();
    for i in 0..10 {
        big.extend_from_slice(format!("line{i}\n").as_bytes());
    }
    let mut fp = FileProcessor::new(String::from("/log"), EncodingMode::AsciiCompatible, &big);
    assert_eq!(fp.index.len(), 10);
    let small = b"a\nb\nc\n";
    let (change, old_count, new_count, new_lines) =
        fp.refresh_if_needed(small).unwrap().unwrap();
    assert_eq!(change, FileChangeType::Truncated);
    assert_eq!(old_count, 10);
    assert_eq!(new_count, 3);
    assert!(new_lines.is_empty());
    assert!(new_count <= old_count);
    // Reads inside the new range succeed.
    for i in 0..3 {
        assert_eq!(fp.read_lines_range(small, i, i).unwrap().len(), 1);
    }
}

#[test]
fn unchanged_file_refreshes_to_nothing() {
    let data = b"a\n";
    let mut fp = FileProcessor::new(String::from("/log"), EncodingMode::AsciiCompatible, data);
    assert!(fp.refresh_if_needed(data).unwrap().is_none());
}

#[test]
fn utf16_refresh_from_odd_size_rounds_down() {
    // An append that left the last known size odd must not split a
    // terminator pair: the rescan backs up one byte.
    let data: &[u8] = &[0x41, 0x00, 0x0A, 0x00, 0x42, 0x00, 0x0A, 0x00];
    let mut fp = FileProcessor::new(String::from("/log"), EncodingMode::Utf16LE, &data[..4]);
    assert_eq!(fp.index, vec![2]);
    // Simulate a stale odd size as a torn write would leave it.
    fp.last_file_size = 5;
    let (change, _, new_count, _) = fp.refresh_if_needed(data).unwrap().unwrap();
    assert_eq!(change, FileChangeType::LinesAdded);
    assert_eq!(new_count, 2);
    assert_eq!(fp.index, vec![2, 6]);
}
