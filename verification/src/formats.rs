//! The format library: one compiled regex per known log format, detection
//! by trying them in a fixed order of specificity, and the fixed column
//! count each format parses into.

use vstd::prelude::*;

use crate::regex_wrap::{
    compile_pattern, duplicate_regex, matches_of, regex_is_match, regex_valid, CompiledRegex,
};

verus! {

/// The log formats the library knows, plus `Other` for everything else.
#[derive(Clone, Copy, PartialEq, Eq, Structural, Debug)]
pub enum LogFormat {
    CommonLogFormat,
    SyslogRFC3164,
    SyslogRFC5424,
    W3CExtended,
    CommonEventFormat,
    NCSACombined,
    Other,
}

/// The Common Event Format pattern.
pub open spec fn spec_cef_pattern() -> Seq<char> {
    r"^CEF:(\d+)\|([^|]+)\|([^|]+)\|([^|]+)\|([^|]+)\|([^|]+)\|(\d+)\|(.*)$"@
}

/// The W3C Extended pattern.
pub open spec fn spec_w3c_pattern() -> Seq<char> {
    r"^(\d{4}-\d{2}-\d{2})\s(\d{2}:\d{2}:\d{2})\s(\S+)\s(\S+)\s(\S+)"@
}

/// The syslog RFC 5424 pattern.
pub open spec fn spec_syslog5424_pattern() -> Seq<char> {
    r"^<(\d{1,3})>1\s(\S+)\s(\S+)\s(\S+)\s(\S+)\s(\S+)\s(\[(?:.+)\]|-) (.*)$"@
}

/// The NCSA Combined pattern.
pub open spec fn spec_ncsa_pattern() -> Seq<char> {
    r#"^(\d{1,3}(?:\.\d{1,3}){3}) - - \[(.*?)\] "(.*?)" (\d{3}) (\d+|-)"#@
}

/// The Common Log Format pattern.
pub open spec fn spec_clf_pattern() -> Seq<char> {
    r#"^(\S+) \S+ (\S+) \[([\w:/]+\s[+\-]\d{4})\] "(\S+) (\S+)\s*(\S+)?\s*" (\d{3}) (\S+)"#@
}

/// The syslog RFC 3164 pattern.
pub open spec fn spec_syslog3164_pattern() -> Seq<char> {
    r"^<(\d{1,3})>([A-Z][a-z]{2}\s{1,2}\d{1,2}\s\d{2}:\d{2}:\d{2})\s(\S+)\s([^:]+):\s(.*)$"@
}

/// The pattern of each format; `Other` has none.
pub open spec fn spec_pattern_of(format: LogFormat) -> Option<Seq<char>> {
    match format {
        LogFormat::CommonEventFormat => Some(spec_cef_pattern()),
        LogFormat::W3CExtended => Some(spec_w3c_pattern()),
        LogFormat::SyslogRFC5424 => Some(spec_syslog5424_pattern()),
        LogFormat::NCSACombined => Some(spec_ncsa_pattern()),
        LogFormat::CommonLogFormat => Some(spec_clf_pattern()),
        LogFormat::SyslogRFC3164 => Some(spec_syslog3164_pattern()),
        LogFormat::Other => None,
    }
}

/// The fixed column count each format parses into; `Other` has none.
pub open spec fn spec_column_count_of(format: LogFormat) -> Option<u8> {
    match format {
        LogFormat::CommonEventFormat => Some(8u8),
        LogFormat::W3CExtended => Some(5u8),
        LogFormat::SyslogRFC5424 => Some(8u8),
        LogFormat::NCSACombined => Some(5u8),
        LogFormat::CommonLogFormat => Some(8u8),
        LogFormat::SyslogRFC3164 => Some(5u8),
        LogFormat::Other => None,
    }
}

/// Which format a line detects as: the patterns are tried in a fixed order
/// of specificity and the first match wins.
pub open spec fn spec_detect(line: Seq<char>) -> LogFormat {
    if matches_of(spec_cef_pattern(), line) {
        LogFormat::CommonEventFormat
    } else if matches_of(spec_w3c_pattern(), line) {
        LogFormat::W3CExtended
    } else if matches_of(spec_syslog5424_pattern(), line) {
        LogFormat::SyslogRFC5424
    } else if matches_of(spec_ncsa_pattern(), line) {
        LogFormat::NCSACombined
    } else if matches_of(spec_clf_pattern(), line) {
        LogFormat::CommonLogFormat
    } else if matches_of(spec_syslog3164_pattern(), line) {
        LogFormat::SyslogRFC3164
    } else {
        LogFormat::Other
    }
}

/// The compiled table of known formats, built once and shared.
pub struct LogFormats {
    cef: CompiledRegex,
    w3c: CompiledRegex,
    syslog5424: CompiledRegex,
    ncsa: CompiledRegex,
    clf: CompiledRegex,
    syslog3164: CompiledRegex,
}

impl LogFormats {
    /// Each compiled regex carries its documented pattern.
    pub closed spec fn wf(self) -> bool {
        &&& self.cef.pattern() == spec_cef_pattern()
        &&& self.w3c.pattern() == spec_w3c_pattern()
        &&& self.syslog5424.pattern() == spec_syslog5424_pattern()
        &&& self.ncsa.pattern() == spec_ncsa_pattern()
        &&& self.clf.pattern() == spec_clf_pattern()
        &&& self.syslog3164.pattern() == spec_syslog3164_pattern()
    }

    /// Compile the six patterns.  This succeeds exactly when the regex
    /// engine accepts all six; the result surfaces the engine's error
    /// rather than hiding it.
    pub fn new() -> (r: Result<LogFormats, String>)
        ensures
            r is Ok <==> regex_valid(spec_cef_pattern()) && regex_valid(spec_w3c_pattern())
                && regex_valid(spec_syslog5424_pattern()) && regex_valid(spec_ncsa_pattern())
                && regex_valid(spec_clf_pattern()) && regex_valid(spec_syslog3164_pattern()),
            match r {
                Ok(f) => f.wf(),
                Err(_) => true,
            },
    {
        let cef = match compile_pattern(
            r"^CEF:(\d+)\|([^|]+)\|([^|]+)\|([^|]+)\|([^|]+)\|([^|]+)\|(\d+)\|(.*)$",
        ) {
            Ok(re) => re,
            Err(e) => {
                return Err(e);
            },
        };
        let w3c = match compile_pattern(
            r"^(\d{4}-\d{2}-\d{2})\s(\d{2}:\d{2}:\d{2})\s(\S+)\s(\S+)\s(\S+)",
        ) {
            Ok(re) => re,
            Err(e) => {
                return Err(e);
            },
        };
        let syslog5424 = match compile_pattern(
            r"^<(\d{1,3})>1\s(\S+)\s(\S+)\s(\S+)\s(\S+)\s(\S+)\s(\[(?:.+)\]|-) (.*)$",
        ) {
            Ok(re) => re,
            Err(e) => {
                return Err(e);
            },
        };
        let ncsa = match compile_pattern(
            r#"^(\d{1,3}(?:\.\d{1,3}){3}) - - \[(.*?)\] "(.*?)" (\d{3}) (\d+|-)"#,
        ) {
            Ok(re) => re,
            Err(e) => {
                return Err(e);
            },
        };
        let clf = match compile_pattern(
            r#"^(\S+) \S+ (\S+) \[([\w:/]+\s[+\-]\d{4})\] "(\S+) (\S+)\s*(\S+)?\s*" (\d{3}) (\S+)"#,
        ) {
            Ok(re) => re,
            Err(e) => {
                return Err(e);
            },
        };
        let syslog3164 = match compile_pattern(
            r"^<(\d{1,3})>([A-Z][a-z]{2}\s{1,2}\d{1,2}\s\d{2}:\d{2}:\d{2})\s(\S+)\s([^:]+):\s(.*)$",
        ) {
            Ok(re) => re,
            Err(e) => {
                return Err(e);
            },
        };
        Ok(LogFormats { cef, w3c, syslog5424, ncsa, clf, syslog3164 })
    }
}

/// The compiled pattern for a format: a fresh handle on the table's regex,
/// present exactly for the non-`Other` formats.
pub fn get_pattern(formats: &LogFormats, format: &LogFormat) -> (r: Option<CompiledRegex>)
    requires
        formats.wf(),
    ensures
        match r {
            Some(re) => spec_pattern_of(*format) == Some(re.pattern()),
            None => format is Other,
        },
        r is Some <==> !(format is Other),
{
    match format {
        LogFormat::CommonEventFormat => Some(duplicate_regex(&formats.cef)),
        LogFormat::W3CExtended => Some(duplicate_regex(&formats.w3c)),
        LogFormat::SyslogRFC5424 => Some(duplicate_regex(&formats.syslog5424)),
        LogFormat::NCSACombined => Some(duplicate_regex(&formats.ncsa)),
        LogFormat::CommonLogFormat => Some(duplicate_regex(&formats.clf)),
        LogFormat::SyslogRFC3164 => Some(duplicate_regex(&formats.syslog3164)),
        LogFormat::Other => None,
    }
}

/// The fixed number of columns (capture groups) a format parses into.
pub fn get_column_count(format: &LogFormat) -> (r: Option<u8>)
    ensures
        r == spec_column_count_of(*format),
{
    match format {
        LogFormat::CommonEventFormat => Some(8),
        LogFormat::W3CExtended => Some(5),
        LogFormat::SyslogRFC5424 => Some(8),
        LogFormat::NCSACombined => Some(5),
        LogFormat::CommonLogFormat => Some(8),
        LogFormat::SyslogRFC3164 => Some(5),
        LogFormat::Other => None,
    }
}

/// Detect the format of a line by trying the patterns in order of
/// specificity; `Other` when none matches.
pub fn detect_format(formats: &LogFormats, line: &str) -> (r: LogFormat)
    requires
        formats.wf(),
    ensures
        r == spec_detect(line@),
{
    if regex_is_match(&formats.cef, line) {
        LogFormat::CommonEventFormat
    } else if regex_is_match(&formats.w3c, line) {
        LogFormat::W3CExtended
    } else if regex_is_match(&formats.syslog5424, line) {
        LogFormat::SyslogRFC5424
    } else if regex_is_match(&formats.ncsa, line) {
        LogFormat::NCSACombined
    } else if regex_is_match(&formats.clf, line) {
        LogFormat::CommonLogFormat
    } else if regex_is_match(&formats.syslog3164, line) {
        LogFormat::SyslogRFC3164
    } else {
        LogFormat::Other
    }
}

} // verus!
