//! The chunked searcher: partitions the line space into chunks, reads and
//! parses each, finds every non-overlapping match of the search regex in
//! every column, caps the gathered results, and reports monotonic progress
//! milestones.  A chunk that cannot be read contributes an info message
//! and no matches; the search never aborts for one.

use vstd::prelude::*;

use crate::file_processor::FileProcessor;
use crate::parser::{parse_data, spec_parse_rows};
use crate::regex_wrap::{find_all_of, regex_find_all, CompiledRegex};
use crate::strings::{spec_decimal, u64_to_string};

verus! {

/// Lines per search chunk.
pub const CHUNK_SIZE: usize = 10_000;

/// The cap on gathered matches.
pub const MAX_RESULTS: usize = 1_000;

/// One match of the search regex inside one column of one line.
#[derive(Clone, Copy, PartialEq, Eq, Structural, Debug)]
pub struct SearchMatch {
    /// Absolute line number of the matching line.
    pub line_number: u32,
    /// Which column of the parsed row matched (0 is the whole line when no
    /// parse regex is active).
    pub column: u8,
    /// Byte offset where the match starts, within the column.
    pub start_index: u16,
    /// Byte offset just past the match, within the column.
    pub end_index: u16,
}

/// The low bits of a column number, as stored.
pub open spec fn trunc8(x: int) -> u8 {
    x as u8
}

/// The low bits of a match offset, as stored.
pub open spec fn trunc16(x: int) -> u16 {
    x as u16
}

/// The low bits of a line number, as stored.
pub open spec fn trunc32(x: int) -> u32 {
    x as u32
}

/// The matches the search pattern finds in one column of one line.
pub open spec fn spec_matches_in_col(
    pattern: Seq<char>,
    col: Seq<char>,
    line_no: int,
    col_no: int,
) -> Seq<SearchMatch> {
    find_all_of(pattern, col).map_values(
        |r: (int, int)|
            SearchMatch {
                line_number: trunc32(line_no),
                column: trunc8(col_no),
                start_index: trunc16(r.0),
                end_index: trunc16(r.1),
            },
    )
}

/// The matches across all columns of one parsed row, column by column.
pub open spec fn spec_matches_in_row(
    pattern: Seq<char>,
    row: Seq<Seq<char>>,
    line_no: int,
) -> Seq<SearchMatch>
    decreases row.len(),
{
    if row.len() == 0 {
        Seq::empty()
    } else {
        spec_matches_in_row(pattern, row.drop_last(), line_no) + spec_matches_in_col(
            pattern,
            row.last(),
            line_no,
            row.len() - 1,
        )
    }
}

/// The matches across a run of parsed rows, the first row standing at
/// absolute line `start_line`.
pub open spec fn spec_matches_in_rows(
    pattern: Seq<char>,
    rows: Seq<Seq<Seq<char>>>,
    start_line: int,
) -> Seq<SearchMatch>
    decreases rows.len(),
{
    if rows.len() == 0 {
        Seq::empty()
    } else {
        spec_matches_in_rows(pattern, rows.drop_last(), start_line) + spec_matches_in_row(
            pattern,
            rows.last(),
            start_line + rows.len() - 1,
        )
    }
}

/// The info message a failing chunk contributes.
pub open spec fn spec_chunk_info(start_line: int, err: Seq<char>) -> Seq<char> {
    "Failed to search chunk starting at line "@ + spec_decimal(start_line) + ": "@ + err
}

/// Search one chunk of lines: read them, parse them without error events,
/// and gather every match in every column.  The outcome mirrors the range
/// read's: its error is handed back for the caller's info message.
pub fn search_chunk(
    processor: &FileProcessor,
    data: &[u8],
    regex_pattern_parser: &Option<CompiledRegex>,
    regex_pattern_search: &CompiledRegex,
    nbr_columns: Option<u8>,
    start_line: u64,
    count: u64,
) -> (r: Result<Vec<SearchMatch>, String>)
    requires
        processor.consistent_with(data@),
        data@.len() * 2 + 2 <= u64::MAX,
        count >= 1,
        start_line <= data@.len(),
        start_line + count <= u64::MAX,
    ensures
        ({
            let parse_pat = match regex_pattern_parser {
                Some(re) => Some(re.pattern()),
                None => None,
            };
            match (
                r,
                processor.spec_read_outcome(
                    data@,
                    start_line as int,
                    start_line + count - 1,
                ),
            ) {
                (Ok(ms), Ok(lines)) => ms@ == spec_matches_in_rows(
                    regex_pattern_search.pattern(),
                    spec_parse_rows(parse_pat, nbr_columns, lines),
                    start_line as int,
                ),
                (Err(e), Err(m)) => e@ == m,
                _ => false,
            }
        }),
{
    let lines = match processor.read_lines_range(data, start_line, start_line + count - 1) {
        Ok(lines) => lines,
        Err(e) => {
            return Err(e);
        },
    };
    proof {
        assert(lines@.len() <= data@.len());
    }
    let outcome = parse_data(regex_pattern_parser, nbr_columns, &lines, start_line, false);
    let rows = outcome.rows;
    let ghost parse_pat = match regex_pattern_parser {
        Some(re) => Some(re.pattern()),
        None => None,
    };
    let ghost model_rows = spec_parse_rows(
        parse_pat,
        nbr_columns,
        lines@.map_values(|l: String| l@),
    );
    proof {
        assert(rows@.map_values(|row: Vec<String>| row@.map_values(|c: String| c@))
            == model_rows);
        assert(rows@.len() == model_rows.len());
    }
    let mut matches: Vec<SearchMatch> = Vec::new();
    let n = rows.len();
    let mut i: usize = 0;
    while i < n
        invariant
            i <= n,
            n == rows@.len(),
            n == model_rows.len(),
            start_line + n <= u64::MAX,
            rows@.map_values(|row: Vec<String>| row@.map_values(|c: String| c@)) == model_rows,
            matches@ == spec_matches_in_rows(
                regex_pattern_search.pattern(),
                model_rows.take(i as int),
                start_line as int,
            ),
        decreases n - i,
    {
        let row = &rows[i];
        let ghost model_row = model_rows[i as int];
        proof {
            assert(rows@.map_values(|row: Vec<String>| row@.map_values(|c: String| c@))[i as int]
                == model_rows[i as int]);
        }
        let cols = row.len();
        let line_no_t: u32 = #[verifier::truncate] ((start_line + i as u64) as u32);
        let mut c: usize = 0;
        while c < cols
            invariant
                c <= cols,
                cols == row@.len(),
                model_row == row@.map_values(|s: String| s@),
                line_no_t == trunc32(start_line + i),
                matches@ == spec_matches_in_rows(
                    regex_pattern_search.pattern(),
                    model_rows.take(i as int),
                    start_line as int,
                ) + spec_matches_in_row(
                    regex_pattern_search.pattern(),
                    model_row.take(c as int),
                    start_line + i,
                ),
            decreases cols - c,
        {
            let found = regex_find_all(regex_pattern_search, row[c].as_str());
            let ghost found_model = found@.map_values(|p: (usize, usize)| (p.0 as int, p.1 as int));
            let ghost before = matches@;
            proof {
                assert(row@.map_values(|s: String| s@)[c as int] == row@[c as int]@);
            }
            let col_t: u8 = #[verifier::truncate] (c as u8);
            let mut f: usize = 0;
            let fn_ = found.len();
            while f < fn_
                invariant
                    f <= fn_,
                    fn_ == found@.len(),
                    found_model == found@.map_values(
                        |p: (usize, usize)| (p.0 as int, p.1 as int),
                    ),
                    found_model == find_all_of(
                        regex_pattern_search.pattern(),
                        model_row[c as int],
                    ),
                    line_no_t == trunc32(start_line + i),
                    col_t == trunc8(c as int),
                    model_row == row@.map_values(|s: String| s@),
                    c < row@.len(),
                    matches@ == before + spec_matches_in_col(
                        regex_pattern_search.pattern(),
                        model_row[c as int],
                        start_line + i,
                        c as int,
                    ).take(f as int),
                decreases fn_ - f,
            {
                let (ms, me) = found[f];
                let start_t: u16 = #[verifier::truncate] (ms as u16);
                let end_t: u16 = #[verifier::truncate] (me as u16);
                let ghost col_model = spec_matches_in_col(
                    regex_pattern_search.pattern(),
                    model_row[c as int],
                    start_line + i,
                    c as int,
                );
                proof {
                    assert(row@.map_values(|s: String| s@)[c as int] == row@[c as int]@);
                    assert(found_model[f as int] == (ms as int, me as int));
                    assert(col_model[f as int] == SearchMatch {
                        line_number: trunc32(start_line + i),
                        column: trunc8(c as int),
                        start_index: trunc16(ms as int),
                        end_index: trunc16(me as int),
                    });
                    assert(col_model.take(f + 1).drop_last() =~= col_model.take(f as int));
                }
                matches.push(
                    SearchMatch {
                        line_number: line_no_t,
                        column: col_t,
                        start_index: start_t,
                        end_index: end_t,
                    },
                );
                proof {
                    assert(matches@ =~= before + col_model.take(f + 1));
                }
                f = f + 1;
            }
            proof {
                let col_model = spec_matches_in_col(
                    regex_pattern_search.pattern(),
                    model_row[c as int],
                    start_line + i,
                    c as int,
                );
                assert(col_model.take(fn_ as int) =~= col_model);
                assert(model_row.take(c + 1).drop_last() =~= model_row.take(c as int));
                assert(model_row.take(c + 1).last() == model_row[c as int]);
            }
            c = c + 1;
        }
        proof {
            assert(model_row.take(cols as int) =~= model_row);
            assert(model_rows.take(i + 1).drop_last() =~= model_rows.take(i as int));
            assert(model_rows.take(i + 1).last() == model_rows[i as int]);
        }
        i = i + 1;
    }
    proof {
        assert(model_rows.take(n as int) =~= model_rows);
    }
    Ok(matches)
}

/// How many chunks a file of `n` lines partitions into.
pub open spec fn spec_total_chunks(n: int) -> int {
    (n + 9999) / 10000
}

/// The inclusive end line requested for the chunk starting at `start`, in a
/// file of `n` lines.
pub open spec fn spec_chunk_end(n: int, start: int) -> int {
    if n - start < 10000 {
        n - 1
    } else {
        start + 9999
    }
}

/// The matches one chunk contributes: none when its read fails.
pub open spec fn spec_chunk_matches(
    fp: FileProcessor,
    data: Seq<u8>,
    parse_pat: Option<Seq<char>>,
    cols: Option<u8>,
    pattern: Seq<char>,
    start: int,
) -> Seq<SearchMatch> {
    match fp.spec_read_outcome(data, start, spec_chunk_end(fp.spec_line_count(), start)) {
        Ok(lines) => spec_matches_in_rows(pattern, spec_parse_rows(parse_pat, cols, lines), start),
        Err(_) => Seq::empty(),
    }
}

/// The info messages one chunk contributes: one when its read fails.
pub open spec fn spec_chunk_info_of(fp: FileProcessor, data: Seq<u8>, start: int) -> Seq<
    Seq<char>,
> {
    match fp.spec_read_outcome(data, start, spec_chunk_end(fp.spec_line_count(), start)) {
        Ok(_) => Seq::empty(),
        Err(m) => seq![spec_chunk_info(start, m)],
    }
}

/// All matches of the first `k` chunks, in chunk order.
pub open spec fn spec_chunks_matches(
    fp: FileProcessor,
    data: Seq<u8>,
    parse_pat: Option<Seq<char>>,
    cols: Option<u8>,
    pattern: Seq<char>,
    k: int,
) -> Seq<SearchMatch>
    decreases k,
{
    if k <= 0 {
        Seq::empty()
    } else {
        spec_chunks_matches(fp, data, parse_pat, cols, pattern, k - 1) + spec_chunk_matches(
            fp,
            data,
            parse_pat,
            cols,
            pattern,
            (k - 1) * 10000,
        )
    }
}

/// All info messages of the first `k` chunks, in chunk order.
pub open spec fn spec_chunks_infos(fp: FileProcessor, data: Seq<u8>, k: int) -> Seq<Seq<char>>
    decreases k,
{
    if k <= 0 {
        Seq::empty()
    } else {
        spec_chunks_infos(fp, data, k - 1) + spec_chunk_info_of(fp, data, (k - 1) * 10000)
    }
}

/// How many chunks a search over `total` chunks processes: all of them,
/// unless the cap is reached first, in which case no chunk after the one
/// that crossed it.
pub open spec fn spec_processed_chunks(
    fp: FileProcessor,
    data: Seq<u8>,
    parse_pat: Option<Seq<char>>,
    cols: Option<u8>,
    pattern: Seq<char>,
    total: int,
) -> int
    decreases total,
{
    if total <= 0 {
        0
    } else {
        let p = spec_processed_chunks(fp, data, parse_pat, cols, pattern, total - 1);
        if p < total - 1 {
            p
        } else if total - 1 >= 1 && spec_chunks_matches(
            fp,
            data,
            parse_pat,
            cols,
            pattern,
            total - 1,
        ).len() >= 1000 {
            total - 1
        } else {
            total
        }
    }
}

/// Once the cap is crossed after `k` chunks, larger chunk totals change
/// neither the processed count nor the first thousand matches.
proof fn lemma_search_stops(
    fp: FileProcessor,
    data: Seq<u8>,
    parse_pat: Option<Seq<char>>,
    cols: Option<u8>,
    pattern: Seq<char>,
    k: int,
    t: int,
)
    requires
        1 <= k <= t,
        spec_processed_chunks(fp, data, parse_pat, cols, pattern, k) == k,
        spec_chunks_matches(fp, data, parse_pat, cols, pattern, k).len() >= 1000,
    ensures
        spec_processed_chunks(fp, data, parse_pat, cols, pattern, t) == k,
        spec_chunks_matches(fp, data, parse_pat, cols, pattern, t).take(1000)
            == spec_chunks_matches(fp, data, parse_pat, cols, pattern, k).take(1000),
    decreases t - k,
{
    if t > k {
        lemma_search_stops(fp, data, parse_pat, cols, pattern, k, t - 1);
        lemma_chunks_len_monotone(fp, data, parse_pat, cols, pattern, k, t - 1);
        let prev = spec_chunks_matches(fp, data, parse_pat, cols, pattern, t - 1);
        let cur = spec_chunks_matches(fp, data, parse_pat, cols, pattern, t);
        assert(prev.len() >= 1000);
        assert(cur == prev + spec_chunk_matches(fp, data, parse_pat, cols, pattern, (t - 1)
            * 10000));
        assert forall|idx: int| 0 <= idx < 1000 implies cur.take(1000)[idx] == prev.take(
            1000,
        )[idx] by {
            assert(cur[idx] == prev[idx]);
        }
        assert(cur.take(1000) =~= prev.take(1000));
    }
}

/// More chunks never mean fewer matches.
proof fn lemma_chunks_len_monotone(
    fp: FileProcessor,
    data: Seq<u8>,
    parse_pat: Option<Seq<char>>,
    cols: Option<u8>,
    pattern: Seq<char>,
    k: int,
    t: int,
)
    requires
        k <= t,
    ensures
        spec_chunks_matches(fp, data, parse_pat, cols, pattern, k).len() <= spec_chunks_matches(
            fp,
            data,
            parse_pat,
            cols,
            pattern,
            t,
        ).len(),
    decreases t - k,
{
    if t > k {
        lemma_chunks_len_monotone(fp, data, parse_pat, cols, pattern, k, t - 1);
    }
}

/// What a whole search hands back: the capped matches, their count, the
/// completeness flag, the progress milestones in emission order, and one
/// info message per chunk whose read failed.
pub struct SearchOutcome {
    /// The gathered matches, at most the cap.
    pub matches: Vec<SearchMatch>,
    /// Exactly the number of gathered matches.
    pub total_matches: u32,
    /// Whether the search saw the whole file rather than stopping at the
    /// cap.
    pub search_complete: bool,
    /// Every progress value emitted, in order: starts at 0, ends at 100,
    /// strictly increasing multiples of ten.
    pub progress: Vec<u8>,
    /// One message per failed chunk, naming its start line.
    pub infos: Vec<String>,
}

/// Search the whole file chunk by chunk: gather every match of the search
/// regex in every parsed column, stop at the cap, report each progress
/// decile at most once and in increasing order, and carry on past a chunk
/// whose read fails, keeping its info message.
pub fn search(
    processor: &FileProcessor,
    data: &[u8],
    regex_pattern_parser: &Option<CompiledRegex>,
    regex_pattern_search: &CompiledRegex,
    nbr_columns: Option<u8>,
) -> (r: SearchOutcome)
    requires
        processor.consistent_with(data@),
        data@.len() * 2 + 2 <= u64::MAX,
    ensures
        ({
            let parse_pat = match regex_pattern_parser {
                Some(re) => Some(re.pattern()),
                None => None,
            };
            let pattern = regex_pattern_search.pattern();
            let total = spec_total_chunks(processor.spec_line_count());
            let all = spec_chunks_matches(*processor, data@, parse_pat, nbr_columns, pattern, total);
            let processed = spec_processed_chunks(
                *processor,
                data@,
                parse_pat,
                nbr_columns,
                pattern,
                total,
            );
            &&& r.matches@ == all.take(
                if all.len() < 1000 {
                    all.len() as int
                } else {
                    1000
                },
            )
            &&& r.total_matches == r.matches@.len()
            &&& (r.search_complete <==> r.matches@.len() < 1000)
            &&& r.infos@.map_values(|m: String| m@) == spec_chunks_infos(
                *processor,
                data@,
                processed,
            )
            &&& r.progress@.len() >= 2
            &&& r.progress@[0] == 0
            &&& r.progress@.last() == 100
            &&& forall|k1: int, k2: int|
                0 <= k1 < k2 < r.progress@.len() ==> r.progress@[k1] < r.progress@[k2]
            &&& forall|k: int|
                0 <= k < r.progress@.len() ==> (#[trigger] r.progress@[k]) % 10 == 0
                    && r.progress@[k] <= 100
        }),
{
    let ghost parse_pat = match regex_pattern_parser {
        Some(re) => Some(re.pattern()),
        None => None,
    };
    let ghost pattern = regex_pattern_search.pattern();
    let line_count: usize = processor.index.len();
    let total_chunks: usize = line_count / CHUNK_SIZE + (if line_count % CHUNK_SIZE != 0 {
        1
    } else {
        0
    });
    proof {
        crate::indexer::lemma_line_index_len(data@, 0, processor.mode);
        assert(line_count <= data@.len());
        assert(total_chunks == spec_total_chunks(line_count as int));
    }
    let mut matches: Vec<SearchMatch> = Vec::new();
    let mut infos: Vec<String> = Vec::new();
    let mut progress: Vec<u8> = Vec::new();
    progress.push(0);
    let mut last_reported: u8 = 0;
    let mut k: usize = 0;
    let mut stopped = false;
    while k < total_chunks && !stopped
        invariant
            0 <= k <= total_chunks,
            parse_pat == match regex_pattern_parser {
                Some(re) => Some(re.pattern()),
                None => None,
            },
            pattern == regex_pattern_search.pattern(),
            processor.consistent_with(data@),
            data@.len() * 2 + 2 <= u64::MAX,
            line_count == processor.spec_line_count(),
            line_count <= data@.len(),
            total_chunks == spec_total_chunks(line_count as int),
            total_chunks * 10000 < line_count + 10000,
            !stopped ==> spec_processed_chunks(
                *processor,
                data@,
                parse_pat,
                nbr_columns,
                pattern,
                k as int,
            ) == k as int && matches@ == spec_chunks_matches(
                *processor,
                data@,
                parse_pat,
                nbr_columns,
                pattern,
                k as int,
            ) && matches@.len() < 1000,
            stopped ==> k >= 1 && spec_processed_chunks(
                *processor,
                data@,
                parse_pat,
                nbr_columns,
                pattern,
                k as int,
            ) == k as int && spec_chunks_matches(
                *processor,
                data@,
                parse_pat,
                nbr_columns,
                pattern,
                k as int,
            ).len() >= 1000 && matches@ == spec_chunks_matches(
                *processor,
                data@,
                parse_pat,
                nbr_columns,
                pattern,
                k as int,
            ).take(1000),
            infos@.map_values(|m: String| m@) == spec_chunks_infos(*processor, data@, k as int),
            progress@.len() >= 1,
            progress@[0] == 0,
            progress@.last() == last_reported,
            last_reported % 10 == 0,
            last_reported < 100,
            forall|k1: int, k2: int|
                0 <= k1 < k2 < progress@.len() ==> progress@[k1] < progress@[k2],
            forall|j: int|
                0 <= j < progress@.len() ==> (#[trigger] progress@[j]) % 10 == 0 && progress@[j]
                    < 100,
        decreases total_chunks - k,
    {
        let chunk_start: usize = k * CHUNK_SIZE;
        proof {
            assert(k * 10000 < total_chunks * 10000 || total_chunks == 0) by (nonlinear_arith)
                requires
                    k < total_chunks,
            ;
            assert(chunk_start < line_count + 10000);
            assert((k as int) * 10000 + 10000 == ((k as int) + 1) * 10000) by (nonlinear_arith);
            if k as int + 1 < total_chunks as int {
                assert((k as int + 1) * 10000 <= (total_chunks as int - 1) * 10000) by (
                nonlinear_arith)
                    requires
                        k as int + 1 <= total_chunks as int - 1,
                ;
                assert((total_chunks as int - 1) * 10000 < line_count) by (nonlinear_arith)
                    requires
                        total_chunks == spec_total_chunks(line_count as int),
                ;
            }
            assert(chunk_start < line_count) by {
                if k as int + 1 < total_chunks as int {
                } else {
                    assert(k as int == total_chunks - 1);
                    assert((total_chunks as int - 1) * 10000 < line_count) by (nonlinear_arith)
                        requires
                            total_chunks == spec_total_chunks(line_count as int),
                            total_chunks >= 1,
                    ;
                }
            }
        }
        let remaining = line_count - chunk_start;
        let this_count: usize = if remaining < CHUNK_SIZE {
            remaining
        } else {
            CHUNK_SIZE
        };
        proof {
            assert(spec_chunk_end(line_count as int, chunk_start as int) == chunk_start
                + this_count - 1);
        }
        let ghost chunk_model = spec_chunk_matches(
            *processor,
            data@,
            parse_pat,
            nbr_columns,
            pattern,
            chunk_start as int,
        );
        let ghost infos_before = infos@;
        let ghost matches_before = matches@;
        match search_chunk(
            processor,
            data,
            regex_pattern_parser,
            regex_pattern_search,
            nbr_columns,
            chunk_start as u64,
            this_count as u64,
        ) {
            Ok(found) => {
                let mut f: usize = 0;
                let found_n = found.len();
                proof {
                    assert(found@ == chunk_model);
                }
                while f < found_n && matches.len() < MAX_RESULTS
                    invariant
                        0 <= f <= found_n,
                        found_n == found@.len(),
                        found@ == chunk_model,
                        matches@.len() <= 1000,
                        matches@ == (matches_before + chunk_model).take(
                            matches_before.len() + f,
                        ),
                        f < found_n ==> (matches@.len() == 1000 || matches@.len()
                            == matches_before.len() + f),
                        matches@.len() == matches_before.len() + f || matches@.len() == 1000,
                    decreases found_n - f,
                {
                    proof {
                        assert((matches_before + chunk_model).take(
                            matches_before.len() + f + 1,
                        ) =~= (matches_before + chunk_model).take(matches_before.len() + f)
                            + seq![chunk_model[f as int]]);
                    }
                    matches.push(found[f]);
                    f = f + 1;
                }
                proof {
                    let new_model = spec_chunks_matches(
                        *processor,
                        data@,
                        parse_pat,
                        nbr_columns,
                        pattern,
                        k as int + 1,
                    );
                    assert(new_model == matches_before + chunk_model);
                    if f == found_n {
                        assert((matches_before + chunk_model).take(
                            matches_before.len() + found_n,
                        ) =~= matches_before + chunk_model);
                    } else {
                        assert(matches@.len() == 1000);
                        assert(matches@ =~= new_model.take(1000));
                    }
                    assert(spec_chunks_infos(*processor, data@, k as int + 1)
                        =~= infos_before.map_values(|m: String| m@));
                }
            },
            Err(e) => {
                let mut info = String::new();
                info.append("Failed to search chunk starting at line ");
                info.append(u64_to_string(chunk_start as u64).as_str());
                info.append(": ");
                info.append(e.as_str());
                infos.push(info);
                proof {
                    assert(spec_chunk_matches(
                        *processor,
                        data@,
                        parse_pat,
                        nbr_columns,
                        pattern,
                        chunk_start as int,
                    ) =~= Seq::<SearchMatch>::empty());
                    assert(spec_chunks_matches(
                        *processor,
                        data@,
                        parse_pat,
                        nbr_columns,
                        pattern,
                        k as int + 1,
                    ) =~= matches_before);
                    assert(matches@ =~= matches_before + Seq::<SearchMatch>::empty());
                    assert(infos@.map_values(|m: String| m@) =~= spec_chunks_infos(
                        *processor,
                        data@,
                        k as int + 1,
                    ));
                }
            },
        }
        let completed = k + 1;
        proof {
            assert(completed * 100 <= total_chunks * 100) by (nonlinear_arith)
                requires
                    completed <= total_chunks,
            ;
            assert(total_chunks * 100 >= 0) by (nonlinear_arith)
                requires
                    total_chunks >= 0,
            ;
            assert(total_chunks as int * 10000 < line_count + 10000);
            assert(total_chunks as int * 100 <= usize::MAX) by (nonlinear_arith)
                requires
                    total_chunks as int * 10000 < line_count + 10000,
                    line_count <= usize::MAX,
            ;
        }
        let percent: usize = (completed * 100) / total_chunks;
        let milestone_u: usize = (percent / 10) * 10;
        proof {
            assert(percent <= 100) by (nonlinear_arith)
                requires
                    completed <= total_chunks,
                    total_chunks >= 1,
                    percent as int == (completed as int * 100) / (total_chunks as int),
            ;
            assert(milestone_u <= 100 && milestone_u % 10 == 0);
        }
        let milestone: u8 = milestone_u as u8;
        if milestone > last_reported && milestone < 100 {
            let ghost pv = progress@;
            progress.push(milestone);
            proof {
                assert(progress@.last() == milestone);
                assert forall|k1: int, k2: int|
                    0 <= k1 < k2 < progress@.len() implies progress@[k1] < progress@[k2] by {
                    if k2 == progress@.len() - 1 {
                        assert(progress@[k1] == pv[k1]);
                        if k1 == pv.len() - 1 {
                        } else {
                            assert(pv[k1] < pv[pv.len() - 1]);
                        }
                    }
                }
            }
            last_reported = milestone;
        }
        let hit_cap = matches.len() >= MAX_RESULTS;
        proof {
            let new_p = spec_processed_chunks(
                *processor,
                data@,
                parse_pat,
                nbr_columns,
                pattern,
                k as int + 1,
            );
            assert(new_p == k as int + 1);
        }
        k = completed;
        if hit_cap {
            stopped = true;
        }
    }
    proof {
        let total = spec_total_chunks(processor.spec_line_count());
        let all = spec_chunks_matches(*processor, data@, parse_pat, nbr_columns, pattern, total);
        if stopped {
            lemma_search_stops(
                *processor,
                data@,
                parse_pat,
                nbr_columns,
                pattern,
                k as int,
                total,
            );
            lemma_chunks_len_monotone(
                *processor,
                data@,
                parse_pat,
                nbr_columns,
                pattern,
                k as int,
                total,
            );
        } else {
            assert(k == total_chunks);
            assert(all.take(all.len() as int) =~= all);
        }
    }
    let complete = matches.len() < MAX_RESULTS;
    let total_matches = matches.len() as u32;
    proof {
        let pv = progress@;
        assert(forall|j: int| 0 <= j < pv.len() ==> (#[trigger] pv[j]) < 100);
    }
    progress.push(100);
    proof {
        let pv = progress@;
        assert forall|k1: int, k2: int| 0 <= k1 < k2 < pv.len() implies pv[k1] < pv[k2] by {}
    }
    SearchOutcome { matches, total_matches, search_complete: complete, progress, infos }
}

} // verus!
