use logview_core::encoding::{label_ascii_compatible, label_supported, mode_for_label,
    resolve_encoding};
use logview_core::formats::{LogFormat, LogFormats};
use logview_core::indexer::EncodingMode;
use logview_core::state::{
    get_chunk, get_parsing_information, open_file, parse_file, read_lines_range, watcher_tick,
};
use logview_core::types::Response;

#[test]
fn open_file_reports_line_count() {
    let data = b"a\nbb\nccc\n";
    let (state, response) =
        open_file(String::from("/log"), EncodingMode::AsciiCompatible, data);
    assert_eq!(state.processor.index, vec![1, 4, 8]);
    assert!(state.regex_pattern.is_none());
    assert!(state.nbr_columns.is_none());
    match response {
        Response::FileOpened { line_count } => assert_eq!(line_count, 3),
        other => panic!("unexpected response: {other:?}"),
    }
}

#[test]
fn get_chunk_parses_and_reports_exclusive_end() {
    let data = b"a\nbb\nccc\n";
    let (state, _) = open_file(String::from("/log"), EncodingMode::AsciiCompatible, data);
    let (response, info) = get_chunk(&state.processor, data, 0, 1, &None, None);
    assert!(info.is_none());
    match response {
        Response::Chunk { data: rows, start_line, end_line } => {
            assert_eq!(rows, vec![vec!["a".to_string()], vec!["bb".to_string()]]);
            assert_eq!(start_line, 0);
            assert_eq!(end_line, 2);
        },
        other => panic!("unexpected response: {other:?}"),
    }
}

#[test]
fn get_chunk_out_of_range_is_an_error() {
    let data = b"a\n";
    let (state, _) = open_file(String::from("/log"), EncodingMode::AsciiCompatible, data);
    let (response, _) = get_chunk(&state.processor, data, 7, 9, &None, None);
    match response {
        Response::Error { message } => {
            assert_eq!(message, "start_line (7) out of bounds (file has 1 lines)")
        },
        other => panic!("unexpected response: {other:?}"),
    }
}

#[test]
fn free_read_lines_range_wraps_errors_as_responses() {
    let data = b"a\n";
    let (state, _) = open_file(String::from("/log"), EncodingMode::AsciiCompatible, data);
    let ok = read_lines_range(&state.processor, data, 0, 0);
    assert_eq!(ok.lines.unwrap(), vec!["a".to_string()]);
    assert!(ok.error.is_none());
    let bad = read_lines_range(&state.processor, data, 3, 4);
    assert!(bad.lines.is_none());
    assert!(matches!(bad.error, Some(Response::Error { .. })));
}

#[test]
fn parsing_information_detects_first_line_format() {
    let data = b"127.0.0.1 - frank [10/Oct/2000:13:55:36 -0700] \"GET /apache_pb.gif HTTP/1.0\" 200 2326\nnoise\n";
    let (state, _) = open_file(String::from("/log"), EncodingMode::AsciiCompatible, data);
    let formats = LogFormats::new().unwrap();
    match get_parsing_information(&state.processor, data, &formats) {
        Response::ParsingInformation { log_format } => {
            assert!(matches!(log_format, LogFormat::CommonLogFormat))
        },
        other => panic!("unexpected response: {other:?}"),
    }
}

#[test]
fn parse_file_installs_format_pattern_and_columns() {
    let data = b"a\n";
    let (state, _) = open_file(String::from("/log"), EncodingMode::AsciiCompatible, data);
    let formats = LogFormats::new().unwrap();
    let mut slot = Some(state);
    let response = parse_file(&mut slot, &formats, LogFormat::CommonLogFormat, None, None);
    assert!(matches!(
        response,
        Response::ParsingInformation { log_format: LogFormat::CommonLogFormat }
    ));
    let state = slot.unwrap();
    assert!(state.regex_pattern.is_some());
    assert_eq!(state.nbr_columns, Some(8));
}

#[test]
fn parse_file_prefers_a_valid_caller_pattern() {
    let data = b"a\n";
    let (state, _) = open_file(String::from("/log"), EncodingMode::AsciiCompatible, data);
    let formats = LogFormats::new().unwrap();
    let mut slot = Some(state);
    parse_file(
        &mut slot,
        &formats,
        LogFormat::Other,
        Some(String::from(r"^(\w+)$")),
        Some(1),
    );
    let state = slot.unwrap();
    assert_eq!(state.regex_pattern.as_ref().unwrap().source(), r"^(\w+)$");
    assert_eq!(state.nbr_columns, Some(1));
}

#[test]
fn parse_file_falls_back_when_the_pattern_is_invalid() {
    let data = b"a\n";
    let (state, _) = open_file(String::from("/log"), EncodingMode::AsciiCompatible, data);
    let formats = LogFormats::new().unwrap();
    let mut slot = Some(state);
    parse_file(
        &mut slot,
        &formats,
        LogFormat::SyslogRFC3164,
        Some(String::from("(unclosed")),
        None,
    );
    let state = slot.unwrap();
    assert!(state.regex_pattern.is_some());
    assert_ne!(state.regex_pattern.as_ref().unwrap().source(), "(unclosed");
    assert_eq!(state.nbr_columns, Some(5));
}

#[test]
fn watcher_tick_emits_lines_added() {
    let data = b"a\nb\n";
    let (mut state, _) = open_file(String::from("/log"), EncodingMode::AsciiCompatible, data);
    assert_eq!(state.processor.index, vec![1, 3]);
    let data2 = b"a\nb\nc\n";
    match watcher_tick(&mut state, data2) {
        Some(Response::LinesAdded { old_line_count, new_line_count, new_lines }) => {
            assert_eq!(old_line_count, 2);
            assert_eq!(new_line_count, 3);
            assert_eq!(new_lines, vec![vec!["c".to_string()]]);
        },
        other => panic!("unexpected event: {other:?}"),
    }
}

#[test]
fn watcher_tick_emits_file_truncated() {
    let mut big = Vec::new();
    for i in 0..10 {
        big.extend_from_slice(format!("line{i}\n").as_bytes());
    }
    let (mut state, _) = open_file(String::from("/log"), EncodingMode::AsciiCompatible, &big);
    let small = b"a\nb\nc\n";
    match watcher_tick(&mut state, small) {
        Some(Response::FileTruncated { line_count }) => assert_eq!(line_count, 3),
        other => panic!("unexpected event: {other:?}"),
    }
}

#[test]
fn watcher_tick_is_silent_when_nothing_changed() {
    let data = b"a\n";
    let (mut state, _) = open_file(String::from("/log"), EncodingMode::AsciiCompatible, data);
    assert!(watcher_tick(&mut state, data).is_none());
}

#[test]
fn watcher_tick_parses_new_lines_with_active_regex() {
    let data = b"a b\n";
    let (state, _) = open_file(String::from("/log"), EncodingMode::AsciiCompatible, data);
    let formats = LogFormats::new().unwrap();
    let mut slot = Some(state);
    parse_file(&mut slot, &formats, LogFormat::Other, Some(String::from(r"^(\w+) (\w+)$")), None);
    let mut state = slot.unwrap();
    let data2 = b"a b\nc d\n";
    match watcher_tick(&mut state, data2) {
        Some(Response::LinesAdded { new_lines, .. }) => {
            assert_eq!(new_lines, vec![vec!["c".to_string(), "d".to_string()]]);
        },
        other => panic!("unexpected event: {other:?}"),
    }
}

#[test]
fn encoding_resolution_modes() {
    assert_eq!(
        resolve_encoding("UTF-16LE", true).unwrap(),
        (EncodingMode::Utf16LE, false)
    );
    assert_eq!(
        resolve_encoding("utf-16be", true).unwrap(),
        (EncodingMode::Utf16BE, false)
    );
    assert_eq!(resolve_encoding("UTF-16", true).unwrap(), (EncodingMode::Utf16LE, false));
    assert_eq!(
        resolve_encoding("windows-1252", true).unwrap(),
        (EncodingMode::AsciiCompatible, false)
    );
    assert_eq!(
        resolve_encoding("EBCDIC", false).unwrap(),
        (EncodingMode::AsciiCompatible, true)
    );
}

#[test]
fn unknown_label_is_an_error() {
    let err = mode_for_label("xyzzy", None).unwrap_err();
    assert_eq!(err, "Unknown encoding label: xyzzy");
}

#[test]
fn label_support_matches_the_encoding_table() {
    let acb = label_ascii_compatible("windows-1252");
    assert_eq!(acb, Some(true));
    assert!(label_supported("windows-1252", acb));
    let utf16 = label_ascii_compatible("UTF-16LE");
    assert_eq!(utf16, Some(false));
    assert!(label_supported("UTF-16LE", utf16));
    assert_eq!(label_ascii_compatible("xyzzy"), None);
    assert!(!label_supported("xyzzy", None));
}
