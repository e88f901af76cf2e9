//! The file-state engine: the single slot binding a file processor to the
//! active parse regex and expected column count, and the operations the
//! command router drives — opening, range reads as chunks, parse
//! configuration, format detection, and the watcher's per-tick decision.

use vstd::prelude::*;

use crate::file_processor::{FileChangeType, FileProcessor};
use crate::formats::{
    detect_format, get_column_count, get_pattern, spec_column_count_of, spec_detect,
    spec_pattern_of, LogFormat, LogFormats,
};
use crate::parser::{parse_data, spec_parse_rows};
use crate::regex_wrap::{compile_pattern, regex_valid, CompiledRegex};
use crate::types::Response;

verus! {

/// The active per-file state: one processor plus the parse configuration.
pub struct FileState {
    /// The open file's processor.
    pub processor: FileProcessor,
    /// The active parse regex, if any.
    pub regex_pattern: Option<CompiledRegex>,
    /// The expected column count, if any.
    pub nbr_columns: Option<u8>,
}

/// The pattern text the active parse regex was compiled from, if any.
pub open spec fn spec_active_pattern(regex_pattern: Option<CompiledRegex>) -> Option<Seq<char>> {
    match regex_pattern {
        Some(re) => Some(re.pattern()),
        None => None,
    }
}

/// What lines a range read yields, as the free-standing reader reports
/// them.
pub struct ReadLines {
    /// The decoded lines, when the read succeeded.
    pub lines: Option<Vec<String>>,
    /// The error response, when it did not.
    pub error: Option<Response>,
}

/// Read a line range out of the file's bytes, reporting an error response
/// instead of a bare message: exactly one of the two fields is filled.
pub fn read_lines_range(
    processor: &FileProcessor,
    data: &[u8],
    start_line: u64,
    end_line: u64,
) -> (r: ReadLines)
    requires
        processor.consistent_with(data@),
        data@.len() + 2 <= u64::MAX,
    ensures
        match processor.spec_read_outcome(data@, start_line as int, end_line as int) {
            Ok(model) => match (r.lines, r.error) {
                (Some(lines), None) => lines@.map_values(|l: String| l@) == model,
                _ => false,
            },
            Err(m) => match (r.lines, r.error) {
                (None, Some(Response::Error { message })) => message@ == m,
                _ => false,
            },
        },
{
    match processor.read_lines_range(data, start_line, end_line) {
        Ok(lines) => ReadLines { lines: Some(lines), error: None },
        Err(message) => ReadLines { lines: None, error: Some(Response::Error { message }) },
    }
}

/// Open a file whose bytes are `data` under the resolved encoding mode:
/// build the fresh state (no parse configuration yet) and the response
/// naming the line count.
pub fn open_file(path: String, mode: crate::indexer::EncodingMode, data: &[u8]) -> (r: (
    FileState,
    Response,
))
    ensures
        r.0.processor.consistent_with(data@),
        r.0.processor.mode == mode,
        r.0.processor.file_path == path,
        r.0.regex_pattern is None,
        r.0.nbr_columns is None,
        r.1 matches Response::FileOpened { line_count } && line_count
            == r.0.processor.index@.len(),
{
    let processor = FileProcessor::new(path, mode, data);
    let line_count = processor.index.len() as u64;
    (
        FileState { processor, regex_pattern: None, nbr_columns: None },
        Response::FileOpened { line_count },
    )
}

/// Read a chunk of lines and parse them with the active configuration.
/// On success the response carries one column row per line read, with
/// `end_line` exclusive (`start_line` plus the number of rows); a bad
/// range yields its error response.  The second component is the parse
/// failure summary, for the router to emit as an info event: present
/// exactly when a regex is active and some line failed, with the exact
/// summary text.
pub fn get_chunk(
    processor: &FileProcessor,
    data: &[u8],
    start_line: u64,
    end_line: u64,
    regex_pattern: &Option<CompiledRegex>,
    nbr_columns: Option<u8>,
) -> (r: (Response, Option<String>))
    requires
        processor.consistent_with(data@),
        data@.len() * 2 + 2 <= u64::MAX,
    ensures
        match processor.spec_read_outcome(data@, start_line as int, end_line as int) {
            Ok(model) => match r.0 {
                Response::Chunk { data: rows, start_line: s, end_line: e } => {
                    &&& rows@.map_values(|row: Vec<String>| row@.map_values(|c: String| c@))
                        == spec_parse_rows(
                        spec_active_pattern(*regex_pattern),
                        nbr_columns,
                        model,
                    )
                    &&& s == start_line
                    &&& e == start_line + model.len()
                    &&& match spec_active_pattern(*regex_pattern) {
                        None => r.1 is None,
                        Some(p) => {
                            let failed = crate::parser::spec_failed_lines(
                                p,
                                nbr_columns,
                                model,
                                start_line as int,
                            );
                            match r.1 {
                                Some(info) => failed.len() > 0 && info@
                                    == crate::parser::spec_failure_message(failed),
                                None => failed.len() == 0,
                            }
                        },
                    }
                },
                _ => false,
            },
            Err(m) => (match r.0 {
                Response::Error { message } => message@ == m,
                _ => false,
            }) && r.1 is None,
        },
{
    let lines = match processor.read_lines_range(data, start_line, end_line) {
        Ok(lines) => lines,
        Err(message) => {
            return (Response::Error { message }, None);
        },
    };
    proof {
        assert(lines@.map_values(|l: String| l@).len() == lines@.len());
        crate::indexer::lemma_line_index_len(data@, 0, processor.mode);
        assert(start_line < processor.spec_line_count());
        assert(processor.spec_line_count() <= data@.len());
    }
    let outcome = parse_data(regex_pattern, nbr_columns, &lines, start_line, true);
    let end = start_line + lines.len() as u64;
    proof {
        assert(outcome.rows@.map_values(
            |row: Vec<String>| row@.map_values(|c: String| c@),
        ).len() == outcome.rows@.len());
    }
    (
        Response::Chunk { data: outcome.rows, start_line, end_line: end },
        outcome.message,
    )
}

/// The first line a detection reads: the file's first line, or the empty
/// string when the file cannot be read or has no line.
pub open spec fn spec_first_line(processor: FileProcessor, data: Seq<u8>) -> Seq<char> {
    match processor.spec_read_outcome(data, 0, 1) {
        Ok(lines) => if lines.len() == 0 {
            Seq::empty()
        } else {
            lines[0]
        },
        Err(_) => Seq::empty(),
    }
}

/// Detect the log format of the file's first line.
pub fn get_parsing_information(
    processor: &FileProcessor,
    data: &[u8],
    formats: &LogFormats,
) -> (r: Response)
    requires
        processor.consistent_with(data@),
        data@.len() + 2 <= u64::MAX,
        formats.wf(),
    ensures
        r matches Response::ParsingInformation { log_format } && log_format == spec_detect(
            spec_first_line(*processor, data@),
        ),
{
    let first_line = match processor.read_lines_range(data, 0, 1) {
        Ok(lines) => {
            if lines.len() == 0 {
                let log_format = detect_format(formats, "");
                proof {
                    reveal_strlit("");
                    assert(""@ =~= Seq::<char>::empty());
                }
                return Response::ParsingInformation { log_format };
            }
            proof {
                let model = processor.spec_read_outcome(data@, 0, 1)->Ok_0;
                assert(lines@.map_values(|l: String| l@)[0] == model[0]);
            }
            lines[0].clone()
        },
        Err(_) => {
            let log_format = detect_format(formats, "");
            proof {
                reveal_strlit("");
                assert(""@ =~= Seq::<char>::empty());
            }
            return Response::ParsingInformation { log_format };
        },
    };
    let log_format = detect_format(formats, first_line.as_str());
    Response::ParsingInformation { log_format }
}

/// The parse regex a `ParseFile` command resolves to: the caller's
/// pattern when it compiles, else the format's built-in pattern.
pub open spec fn spec_resolved_pattern(
    pattern: Option<Seq<char>>,
    log_format: LogFormat,
) -> Option<Seq<char>> {
    match pattern {
        Some(p) => if regex_valid(p) {
            Some(p)
        } else {
            spec_pattern_of(log_format)
        },
        None => spec_pattern_of(log_format),
    }
}

/// The column count a `ParseFile` command resolves to: the caller's when
/// given, else the format's fixed count.
pub open spec fn spec_resolved_columns(
    nbr_columns: Option<u8>,
    log_format: LogFormat,
) -> Option<u8> {
    match nbr_columns {
        Some(n) => Some(n),
        None => spec_column_count_of(log_format),
    }
}

/// Install the parse configuration a `ParseFile` command names: the
/// effective regex and column count land in the state slot (when a file
/// is open), and the response echoes the format.
pub fn parse_file(
    file_state: &mut Option<FileState>,
    formats: &LogFormats,
    log_format: LogFormat,
    pattern: Option<String>,
    nbr_columns: Option<u8>,
) -> (r: Response)
    requires
        formats.wf(),
    ensures
        r matches Response::ParsingInformation { log_format: lf } && lf == log_format,
        match (*old(file_state), *final(file_state)) {
            (None, None) => true,
            (Some(old_fs), Some(new_fs)) => {
                &&& new_fs.processor == old_fs.processor
                &&& spec_active_pattern(new_fs.regex_pattern) == spec_resolved_pattern(
                    match pattern {
                        Some(p) => Some(p@),
                        None => None,
                    },
                    log_format,
                )
                &&& new_fs.nbr_columns == spec_resolved_columns(nbr_columns, log_format)
            },
            _ => false,
        },
{
    let compiled = match pattern {
        Some(p) => match compile_pattern(p.as_str()) {
            Ok(re) => Some(re),
            Err(_) => get_pattern(formats, &log_format),
        },
        None => get_pattern(formats, &log_format),
    };
    let final_columns = match nbr_columns {
        Some(n) => Some(n),
        None => get_column_count(&log_format),
    };
    match file_state {
        Some(fs) => {
            fs.regex_pattern = compiled;
            fs.nbr_columns = final_columns;
        },
        None => {},
    }
    Response::ParsingInformation { log_format }
}

/// One tick of the tail watcher: refresh against the file's current
/// bytes, and turn what changed into the event to emit — `FileTruncated`
/// with the new count, or `LinesAdded` with the new lines parsed under
/// the active configuration (without error events).  Nothing is emitted
/// only for an unchanged file, or when the refresh's read of the new
/// lines errs.
pub fn watcher_tick(state: &mut FileState, data: &[u8]) -> (r: Option<Response>)
    requires
        data@.len() * 2 + 2 <= u64::MAX,
        data@.len() > old(state).processor.last_file_size ==> old(
            state,
        ).processor.consistent_with(data@.take(old(state).processor.last_file_size as int)),
    ensures
        final(state).regex_pattern == old(state).regex_pattern,
        final(state).nbr_columns == old(state).nbr_columns,
        final(state).processor.mode == old(state).processor.mode,
        match r {
            None => data@.len() == old(state).processor.last_file_size || (data@.len() > old(
                state,
            ).processor.last_file_size && final(state).processor.consistent_with(data@)
                && final(state).processor.index@.len() > old(state).processor.index@.len()
                && final(state).processor.spec_read_outcome(
                data@,
                old(state).processor.index@.len() as int,
                final(state).processor.index@.len() - 1,
            ) is Err),
            Some(Response::FileTruncated { line_count }) => {
                &&& data@.len() < old(state).processor.last_file_size
                &&& final(state).processor.consistent_with(data@)
                &&& line_count == final(state).processor.index@.len()
            },
            Some(Response::LinesAdded { old_line_count, new_line_count, new_lines }) => {
                &&& data@.len() > old(state).processor.last_file_size
                &&& final(state).processor.consistent_with(data@)
                &&& old_line_count == old(state).processor.index@.len()
                &&& new_line_count == final(state).processor.index@.len()
                &&& (new_line_count > old_line_count ==> match final(state).processor.spec_read_outcome(data@, old_line_count as int, new_line_count - 1) {
                    Ok(model) => new_lines@.map_values(
                        |row: Vec<String>| row@.map_values(|c: String| c@),
                    ) == spec_parse_rows(
                        spec_active_pattern(old(state).regex_pattern),
                        old(state).nbr_columns,
                        model,
                    ),
                    Err(_) => false,
                })
                &&& (new_line_count <= old_line_count ==> new_lines@.len() == 0)
            },
            Some(_) => false,
        },
{
    let old_size = state.processor.last_file_size;
    match state.processor.refresh_if_needed(data) {
        Ok(None) => None,
        Ok(Some((change, old_count, new_count, new_lines))) => {
            match change {
                FileChangeType::Truncated => Some(
                    Response::FileTruncated { line_count: new_count },
                ),
                FileChangeType::LinesAdded => {
                    proof {
                        crate::indexer::lemma_line_index_len(data@, 0, state.processor.mode);
                        if new_count > old_count {
                            assert(new_lines@.len() <= data@.len());
                        }
                    }
                    let parsed = parse_data(
                        &state.regex_pattern,
                        state.nbr_columns,
                        &new_lines,
                        old_count,
                        false,
                    );
                    proof {
                        assert(parsed.rows@.map_values(
                            |row: Vec<String>| row@.map_values(|c: String| c@),
                        ).len() == parsed.rows@.len());
                    }
                    Some(
                        Response::LinesAdded {
                            old_line_count: old_count,
                            new_line_count: new_count,
                            new_lines: parsed.rows,
                        },
                    )
                },
            }
        },
        Err(_) => None,
    }
}

} // verus!
