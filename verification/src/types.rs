//! The wire-facing types: the tagged commands the router dispatches and
//! the tagged responses and events the core hands back.  Serialisation
//! itself lives outside the library.

use vstd::prelude::*;

use crate::formats::LogFormat;
use crate::search::SearchMatch;

verus! {

/// A command from the front-end.
#[derive(Debug)]
pub enum Command {
    GetFileEncoding { path: String },
    OpenFile { path: String },
    GetParsingInformation,
    ParseFile { log_format: LogFormat, pattern: Option<String>, nbr_columns: Option<u8> },
    GetChunk { start_line: u64, end_line: u64 },
    Search { pattern: String },
    Filter { pattern: String },
}

/// A response or asynchronous event for the front-end.
#[derive(Debug)]
pub enum Response {
    Encoding { encoding: String, is_supported: bool },
    FileOpened { line_count: u64 },
    ParsingInformation { log_format: LogFormat },
    Chunk { data: Vec<Vec<String>>, start_line: u64, end_line: u64 },
    SearchResults { matches: Vec<SearchMatch>, total_matches: u32, search_complete: bool },
    SearchProgress { percent: u8 },
    LinesAdded { old_line_count: u64, new_line_count: u64, new_lines: Vec<Vec<String>> },
    FileTruncated { line_count: u64 },
    Progress { percent: u8, message: String },
    Error { message: String },
    Info { message: String },
}

} // verus!
