use logview_core::file_processor::FileProcessor;
use logview_core::indexer::EncodingMode;
use logview_core::regex_wrap::compile_pattern;
use logview_core::search::{search, search_chunk};

fn file_of(lines: usize, text: &str) -> Vec<u8> {
    let mut data = Vec::new();
    for _ in 0..lines {
        data.extend_from_slice(text.as_bytes());
        data.push(b'\n');
    }
    data
}

#[test]
fn search_caps_results_and_reports_progress() {
    let data = file_of(25_000, "hello world");
    let fp = FileProcessor::new(String::from("/log"), EncodingMode::AsciiCompatible, &data);
    assert_eq!(fp.index.len(), 25_000);
    let needle = compile_pattern("world").unwrap();
    let outcome = search(&fp, &data, &None, &needle, None);
    assert_eq!(outcome.matches.len(), 1000);
    assert_eq!(outcome.total_matches, 1000);
    assert!(!outcome.search_complete);
    // The cap is reached inside the first of three chunks, so one decile
    // lands between the mandatory 0 and 100.
    assert_eq!(outcome.progress, vec![0, 30, 100]);
    assert!(outcome.infos.is_empty());
    let m = &outcome.matches[0];
    assert_eq!(m.line_number, 0);
    assert_eq!(m.column, 0);
    assert_eq!(m.start_index, 6);
    assert_eq!(m.end_index, 11);
}

#[test]
fn search_without_matches_walks_every_chunk() {
    let data = file_of(25_000, "hello world");
    let fp = FileProcessor::new(String::from("/log"), EncodingMode::AsciiCompatible, &data);
    let needle = compile_pattern("absent").unwrap();
    let outcome = search(&fp, &data, &None, &needle, None);
    assert_eq!(outcome.total_matches, 0);
    assert!(outcome.search_complete);
    assert_eq!(outcome.progress, vec![0, 30, 60, 100]);
}

#[test]
fn search_on_empty_file() {
    let data: &[u8] = b"";
    let fp = FileProcessor::new(String::from("/log"), EncodingMode::AsciiCompatible, data);
    let needle = compile_pattern("x").unwrap();
    let outcome = search(&fp, data, &None, &needle, None);
    assert_eq!(outcome.total_matches, 0);
    assert!(outcome.search_complete);
    assert_eq!(outcome.progress, vec![0, 100]);
}

#[test]
fn progress_is_increasing_deciles() {
    let data = file_of(123, "x");
    let fp = FileProcessor::new(String::from("/log"), EncodingMode::AsciiCompatible, &data);
    let needle = compile_pattern("x").unwrap();
    let outcome = search(&fp, &data, &None, &needle, None);
    assert_eq!(outcome.progress.first(), Some(&0));
    assert_eq!(outcome.progress.last(), Some(&100));
    for pair in outcome.progress.windows(2) {
        assert!(pair[0] < pair[1]);
    }
    for p in &outcome.progress {
        assert_eq!(p % 10, 0);
    }
}

#[test]
fn search_within_parsed_columns() {
    let data = b"alpha beta\ngamma delta\n";
    let fp = FileProcessor::new(String::from("/log"), EncodingMode::AsciiCompatible, data);
    let parser = compile_pattern(r"^(\w+) (\w+)$").ok();
    let needle = compile_pattern("delta").unwrap();
    let outcome = search(&fp, data, &parser, &needle, Some(2));
    assert_eq!(outcome.total_matches, 1);
    let m = &outcome.matches[0];
    assert_eq!(m.line_number, 1);
    assert_eq!(m.column, 1);
    assert_eq!(m.start_index, 0);
    assert_eq!(m.end_index, 5);
    assert!(outcome.search_complete);
}

#[test]
fn search_finds_every_nonoverlapping_match_in_a_line() {
    let data = b"abcabcabc\n";
    let fp = FileProcessor::new(String::from("/log"), EncodingMode::AsciiCompatible, data);
    let needle = compile_pattern("abc").unwrap();
    let outcome = search(&fp, data, &None, &needle, None);
    assert_eq!(outcome.total_matches, 3);
    let spans: Vec<(u16, u16)> =
        outcome.matches.iter().map(|m| (m.start_index, m.end_index)).collect();
    assert_eq!(spans, vec![(0, 3), (3, 6), (6, 9)]);
}

#[test]
fn search_chunk_reads_its_own_range() {
    let data = b"one\ntwo\nthree\n";
    let fp = FileProcessor::new(String::from("/log"), EncodingMode::AsciiCompatible, data);
    let needle = compile_pattern("t").unwrap();
    let matches = search_chunk(&fp, data, &None, &needle, None, 1, 2).unwrap();
    assert_eq!(matches.len(), 2);
    assert_eq!(matches[0].line_number, 1);
    assert_eq!(matches[1].line_number, 2);
}
