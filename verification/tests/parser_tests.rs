use logview_core::formats::{detect_format, get_column_count, get_pattern, LogFormat, LogFormats};
use logview_core::parser::parse_data;
use logview_core::regex_wrap::compile_pattern;

const CLF_LINE: &str =
    "127.0.0.1 - frank [10/Oct/2000:13:55:36 -0700] \"GET /apache_pb.gif HTTP/1.0\" 200 2326";

#[test]
fn detects_common_log_format() {
    let formats = LogFormats::new().unwrap();
    let detected = detect_format(&formats, CLF_LINE);
    assert!(matches!(detected, LogFormat::CommonLogFormat));
    assert_eq!(get_column_count(&detected), Some(8));
}

#[test]
fn detects_other_formats() {
    let formats = LogFormats::new().unwrap();
    let cef = "CEF:0|vendor|product|1.0|100|intrusion|5|src=10.0.0.1";
    assert!(matches!(detect_format(&formats, cef), LogFormat::CommonEventFormat));
    let syslog = "<34>Oct 11 22:14:15 mymachine su: 'su root' failed for lonvick on /dev/pts/8";
    assert!(matches!(detect_format(&formats, syslog), LogFormat::SyslogRFC3164));
    let w3c = "2024-01-02 03:04:05 GET /index.html 200";
    assert!(matches!(detect_format(&formats, w3c), LogFormat::W3CExtended));
    assert!(matches!(detect_format(&formats, "nothing recognisable"), LogFormat::Other));
    assert!(matches!(detect_format(&formats, ""), LogFormat::Other));
}

#[test]
fn column_counts_per_format() {
    assert_eq!(get_column_count(&LogFormat::CommonEventFormat), Some(8));
    assert_eq!(get_column_count(&LogFormat::W3CExtended), Some(5));
    assert_eq!(get_column_count(&LogFormat::SyslogRFC5424), Some(8));
    assert_eq!(get_column_count(&LogFormat::NCSACombined), Some(5));
    assert_eq!(get_column_count(&LogFormat::CommonLogFormat), Some(8));
    assert_eq!(get_column_count(&LogFormat::SyslogRFC3164), Some(5));
    assert_eq!(get_column_count(&LogFormat::Other), None);
}

#[test]
fn get_pattern_only_for_known_formats() {
    let formats = LogFormats::new().unwrap();
    assert!(get_pattern(&formats, &LogFormat::Other).is_none());
    let clf = get_pattern(&formats, &LogFormat::CommonLogFormat).unwrap();
    assert!(clf.source().starts_with("^(\\S+)"));
}

#[test]
fn parse_without_regex_wraps_each_line() {
    let lines = vec!["a".to_string(), "b b".to_string(), String::new()];
    let outcome = parse_data(&None, None, &lines, 0, true);
    assert_eq!(
        outcome.rows,
        vec![vec!["a".to_string()], vec!["b b".to_string()], vec![String::new()]]
    );
    assert_eq!(outcome.total_failures, 0);
    assert!(outcome.message.is_none());
}

#[test]
fn parse_clf_line_into_eight_columns() {
    let formats = LogFormats::new().unwrap();
    let regex = get_pattern(&formats, &LogFormat::CommonLogFormat);
    let lines = vec![CLF_LINE.to_string()];
    let outcome = parse_data(&regex, Some(8), &lines, 0, true);
    assert_eq!(outcome.total_failures, 0);
    assert_eq!(
        outcome.rows[0],
        vec![
            "127.0.0.1".to_string(),
            "frank".to_string(),
            "10/Oct/2000:13:55:36 -0700".to_string(),
            "GET".to_string(),
            "/apache_pb.gif".to_string(),
            "HTTP/1.0".to_string(),
            "200".to_string(),
            "2326".to_string(),
        ]
    );
}

#[test]
fn parse_failure_falls_back_to_raw_line() {
    let formats = LogFormats::new().unwrap();
    let regex = get_pattern(&formats, &LogFormat::CommonLogFormat);
    let lines = vec!["not a clf line".to_string()];
    let outcome = parse_data(&regex, Some(8), &lines, 5, true);
    assert_eq!(outcome.rows, vec![vec!["not a clf line".to_string()]]);
    assert_eq!(outcome.total_failures, 1);
    assert_eq!(outcome.failed_preview, vec![5]);
    assert_eq!(outcome.message.as_deref(), Some("Failed to parse 1 line(s): [5]"));
}

#[test]
fn parse_failures_beyond_preview_get_an_ellipsis() {
    let re = compile_pattern("^x$").ok();
    let lines: Vec<String> = (0..8).map(|i| format!("line{i}")).collect();
    let outcome = parse_data(&re, None, &lines, 10, true);
    assert_eq!(outcome.total_failures, 8);
    assert_eq!(outcome.failed_preview, vec![10, 11, 12, 13, 14, 15]);
    assert_eq!(
        outcome.message.as_deref(),
        Some("Failed to parse 8 line(s): [10, 11, 12, 13, 14]...")
    );
}

#[test]
fn column_count_mismatch_counts_as_failure() {
    let re = compile_pattern(r"^(\w+) (\w+)$").ok();
    assert!(re.is_some());
    let lines = vec!["a b".to_string()];
    let wrong = parse_data(&re, Some(3), &lines, 0, true);
    assert_eq!(wrong.rows, vec![vec!["a b".to_string()]]);
    assert_eq!(wrong.total_failures, 1);
    let right = parse_data(&re, Some(2), &lines, 0, true);
    assert_eq!(right.rows, vec![vec!["a".to_string(), "b".to_string()]]);
    assert_eq!(right.total_failures, 0);
}

#[test]
fn absent_optional_groups_are_skipped() {
    let re = compile_pattern(r"^(a)(b)?(c)$").ok();
    let lines = vec!["ac".to_string()];
    let outcome = parse_data(&re, None, &lines, 0, false);
    assert_eq!(outcome.rows, vec![vec!["a".to_string(), "c".to_string()]]);
    assert!(outcome.message.is_none());
}

#[test]
fn no_message_when_errors_are_hidden() {
    let re = compile_pattern("^x$").ok();
    let lines = vec!["y".to_string()];
    let outcome = parse_data(&re, None, &lines, 0, false);
    assert_eq!(outcome.total_failures, 1);
    assert!(outcome.message.is_none());
}

#[test]
fn invalid_pattern_is_rejected() {
    assert!(compile_pattern("(unclosed").is_err());
    let ok = compile_pattern("closed").unwrap();
    assert_eq!(ok.source(), "closed");
}
