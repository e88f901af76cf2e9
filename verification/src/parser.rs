//! The per-chunk parser: applies the active regex to raw lines, producing
//! column vectors, falling back to the raw line when the regex does not
//! match or yields the wrong number of columns, and accounting failures
//! (a preview of the first few failed line numbers, a total, and the one
//! summary message the caller may emit).

use vstd::prelude::*;

use crate::regex_wrap::{captures_of, regex_captures, CompiledRegex};
use crate::strings::{spec_decimal, u64_to_string};

verus! {

/// The columns a group list contributes, in order, skipping absent groups.
pub open spec fn spec_present_groups(model: Seq<Option<Seq<char>>>) -> Seq<Seq<char>>
    decreases model.len(),
{
    if model.len() == 0 {
        Seq::empty()
    } else {
        spec_present_groups(model.drop_last()) + (match model.last() {
            Some(g) => seq![g],
            None => Seq::<Seq<char>>::empty(),
        })
    }
}

/// The capture groups a successful match contributes as columns: groups
/// 1 onward, skipping any group that took no part in the match.
pub open spec fn spec_groups_of(model: Seq<Option<Seq<char>>>) -> Seq<Seq<char>> {
    spec_present_groups(model.skip(1))
}

/// One line's parse: the columns it yields and whether the parse counted
/// as a success.  No match, or a column count other than the expected one,
/// falls back to the raw line and counts as a failure.
pub open spec fn spec_parse_row(pattern: Seq<char>, expected: Option<u8>, line: Seq<char>) -> (
    Seq<Seq<char>>,
    bool,
) {
    match captures_of(pattern, line) {
        None => (seq![line], false),
        Some(model) => {
            let groups = spec_groups_of(model);
            if expected is Some && groups.len() != expected.unwrap() as int {
                (seq![line], false)
            } else {
                (groups, true)
            }
        },
    }
}

/// All rows of a parse: with no regex every line wraps into its own single
/// column; with one, each line parses independently.
pub open spec fn spec_parse_rows(
    pattern: Option<Seq<char>>,
    expected: Option<u8>,
    lines: Seq<Seq<char>>,
) -> Seq<Seq<Seq<char>>> {
    match pattern {
        None => lines.map_values(|l: Seq<char>| seq![l]),
        Some(p) => lines.map_values(|l: Seq<char>| spec_parse_row(p, expected, l).0),
    }
}

/// Law: with no parse regex, parsing is the identity up to wrapping: every
/// line becomes the single column of its own row.
pub proof fn lemma_parse_rows_identity(expected: Option<u8>, lines: Seq<Seq<char>>)
    ensures
        spec_parse_rows(None, expected, lines) == lines.map_values(|l: Seq<char>| seq![l]),
        spec_parse_rows(None, expected, lines).len() == lines.len(),
{
}

/// The absolute numbers of the failed lines, in order, with line `i` of the
/// chunk numbered `start + i`.
pub open spec fn spec_failed_lines(
    pattern: Seq<char>,
    expected: Option<u8>,
    lines: Seq<Seq<char>>,
    start: int,
) -> Seq<int>
    decreases lines.len(),
{
    if lines.len() == 0 {
        Seq::empty()
    } else {
        spec_failed_lines(pattern, expected, lines.drop_last(), start) + (if spec_parse_row(
            pattern,
            expected,
            lines.last(),
        ).1 {
            Seq::<int>::empty()
        } else {
            seq![start + lines.len() - 1]
        })
    }
}

/// The comma-separated decimal rendering of a list of numbers.
pub open spec fn spec_number_list(nums: Seq<int>) -> Seq<char>
    decreases nums.len(),
{
    if nums.len() == 0 {
        Seq::empty()
    } else if nums.len() == 1 {
        spec_decimal(nums[0])
    } else {
        spec_number_list(nums.drop_last()) + ", "@ + spec_decimal(nums.last())
    }
}

/// How many failed line numbers the preview shows in the message.
pub open spec fn spec_shown(n: int) -> int {
    if n < 5 {
        n
    } else {
        5
    }
}

/// The one summary message a parse with failures may emit: the total, the
/// first five failed line numbers, and a trailing ellipsis when more
/// failed than the preview shows.
pub open spec fn spec_failure_message(failed: Seq<int>) -> Seq<char> {
    "Failed to parse "@ + spec_decimal(failed.len() as int) + " line(s): ["@ + spec_number_list(
        failed.take(spec_shown(failed.len() as int)),
    ) + "]"@ + (if failed.len() > 5 {
        "..."@
    } else {
        Seq::<char>::empty()
    })
}

/// What a parse hands back: the rows, and the failure accounting.
pub struct ParseOutcome {
    /// One row of columns per input line.
    pub rows: Vec<Vec<String>>,
    /// Absolute numbers of the first failed lines (at most six are kept:
    /// five to show and one to detect that more failed).
    pub failed_preview: Vec<u64>,
    /// How many lines failed in all.
    pub total_failures: usize,
    /// The summary message, present exactly when failures were to be shown.
    pub message: Option<String>,
}

/// Render the failure summary from the preview and the total.
fn failure_message(total: usize, preview: &Vec<u64>, Ghost(failed): Ghost<Seq<int>>) -> (msg:
    String)
    requires
        total == failed.len(),
        preview@.map_values(|v: u64| v as int) == failed.take(
            if failed.len() < 6 {
                failed.len() as int
            } else {
                6
            },
        ),
    ensures
        msg@ == spec_failure_message(failed),
{
    let shown: usize = if preview.len() < 5 {
        preview.len()
    } else {
        5
    };
    let ghost nums = failed.take(spec_shown(failed.len() as int));
    proof {
        assert(preview@.map_values(|v: u64| v as int).len() == preview@.len());
        assert(preview@.len() == if failed.len() < 6 {
            failed.len() as int
        } else {
            6
        });
        assert forall|j: int| 0 <= j < nums.len() implies nums[j] == preview@[j] as int by {
            assert(preview@.map_values(|v: u64| v as int)[j] == preview@[j] as int);
        }
    }
    let mut msg = String::new();
    msg.append("Failed to parse ");
    msg.append(u64_to_string(total as u64).as_str());
    msg.append(" line(s): [");
    let mut i: usize = 0;
    while i < shown
        invariant
            i <= shown,
            shown == spec_shown(failed.len() as int),
            shown <= preview@.len(),
            total == failed.len(),
            nums == failed.take(spec_shown(failed.len() as int)),
            forall|j: int| 0 <= j < nums.len() ==> nums[j] == preview@[j] as int,
            msg@ == "Failed to parse "@ + spec_decimal(total as int) + " line(s): ["@
                + spec_number_list(nums.take(i as int)),
        decreases shown - i,
    {
        if i > 0 {
            msg.append(", ");
        }
        msg.append(u64_to_string(preview[i]).as_str());
        proof {
            assert(nums.take(i + 1).drop_last() =~= nums.take(i as int));
            assert(nums.take(i + 1).last() == preview@[i as int] as int);
            if i == 0 {
                assert(spec_number_list(nums.take(1)) == spec_decimal(nums[0]));
            }
        }
        i = i + 1;
    }
    proof {
        assert(nums.take(shown as int) =~= nums);
    }
    msg.append("]");
    if total > 5 {
        msg.append("...");
    }
    msg
}

/// Parse one line against the regex: the columns and whether it succeeded.
fn parse_one_line(re: &CompiledRegex, nbr_columns: Option<u8>, line: &String) -> (r: (
    Vec<String>,
    bool,
))
    ensures
        ({
            let (row, ok) = spec_parse_row(re.pattern(), nbr_columns, line@);
            r.0@.map_values(|c: String| c@) == row && r.1 == ok
        }),
{
    match regex_captures(re, line.as_str()) {
        None => {
            let mut row: Vec<String> = Vec::new();
            row.push(line.clone());
            proof {
                assert(row@.map_values(|c: String| c@) =~= seq![line@]);
            }
            (row, false)
        },
        Some(groups) => {
            let ghost model = groups.deep_view();
            let mut cols: Vec<String> = Vec::new();
            let mut g: usize = 1;
            proof {
                assert(cols@.map_values(|c: String| c@) =~= spec_present_groups(
                    model.subrange(1, 1),
                ));
            }
            while g < groups.len()
                invariant
                    1 <= g <= groups@.len() || (groups@.len() == 0 && g == 1),
                    model == groups.deep_view(),
                    cols@.map_values(|c: String| c@) == spec_present_groups(
                        model.subrange(1, g as int),
                    ),
                decreases groups@.len() - g,
            {
                proof {
                    assert(model.subrange(1, g + 1).drop_last() =~= model.subrange(1, g as int));
                    assert(model.subrange(1, g + 1).last() == model[g as int]);
                    assert(model[g as int] == groups@[g as int].deep_view());
                }
                let ghost before = cols@;
                match &groups[g] {
                    Some(s) => {
                        cols.push(s.clone());
                        proof {
                            assert(cols@.map_values(|c: String| c@) =~= before.map_values(
                                |c: String| c@,
                            ) + seq![s@]);
                        }
                    },
                    None => {},
                }
                g = g + 1;
            }
            proof {
                if groups@.len() > 0 {
                    assert(model.subrange(1, groups@.len() as int) =~= model.skip(1));
                }
            }
            let expected_ok = match nbr_columns {
                Some(expected) => cols.len() == expected as usize,
                None => true,
            };
            if expected_ok {
                (cols, true)
            } else {
                let mut row: Vec<String> = Vec::new();
                row.push(line.clone());
                proof {
                    assert(row@.map_values(|c: String| c@) =~= seq![line@]);
                }
                (row, false)
            }
        },
    }
}

/// Parse a chunk of raw lines with the active regex, if any.  The rows are
/// exactly `spec_parse_rows`; the accounting is exact: the total failure
/// count, the first failed line numbers (at most six), and — only when
/// `show_errors` is set and something failed — the summary message.
pub fn parse_data(
    regex_pattern: &Option<CompiledRegex>,
    nbr_columns: Option<u8>,
    data: &Vec<String>,
    start_line: u64,
    show_errors: bool,
) -> (r: ParseOutcome)
    requires
        start_line + data@.len() <= u64::MAX,
    ensures
        ({
            let lines = data@.map_values(|l: String| l@);
            &&& r.rows@.map_values(|row: Vec<String>| row@.map_values(|c: String| c@))
                == spec_parse_rows(
                match regex_pattern {
                    Some(re) => Some(re.pattern()),
                    None => None,
                },
                nbr_columns,
                lines,
            )
            &&& match regex_pattern {
                None => r.total_failures == 0 && r.failed_preview@.len() == 0 && r.message
                    is None,
                Some(re) => {
                    let failed = spec_failed_lines(
                        re.pattern(),
                        nbr_columns,
                        lines,
                        start_line as int,
                    );
                    &&& r.total_failures == failed.len()
                    &&& r.failed_preview@.map_values(|v: u64| v as int) == failed.take(
                        if failed.len() < 6 {
                            failed.len() as int
                        } else {
                            6
                        },
                    )
                    &&& match r.message {
                        Some(m) => show_errors && r.total_failures > 0 && m@
                            == spec_failure_message(failed),
                        None => !show_errors || r.total_failures == 0,
                    }
                },
            }
        }),
{
    let ghost lines = data@.map_values(|l: String| l@);
    let n = data.len();
    match regex_pattern {
        None => {
            let mut rows: Vec<Vec<String>> = Vec::new();
            let mut i: usize = 0;
            while i < n
                invariant
                    i <= n,
                    n == data@.len(),
                    lines == data@.map_values(|l: String| l@),
                    rows@.map_values(|row: Vec<String>| row@.map_values(|c: String| c@))
                        == lines.take(i as int).map_values(|l: Seq<char>| seq![l]),
                decreases n - i,
            {
                let mut row: Vec<String> = Vec::new();
                row.push(data[i].clone());
                proof {
                    assert(row@.map_values(|c: String| c@) =~= seq![data@[i as int]@]);
                }
                let ghost before = rows@;
                rows.push(row);
                proof {
                    assert(lines.take(i + 1).map_values(|l: Seq<char>| seq![l]) =~= lines.take(
                        i as int,
                    ).map_values(|l: Seq<char>| seq![l]) + seq![seq![lines[i as int]]]);
                    assert(rows@.map_values(
                        |row: Vec<String>| row@.map_values(|c: String| c@),
                    ) =~= before.map_values(|row: Vec<String>| row@.map_values(|c: String| c@))
                        + seq![seq![data@[i as int]@]]);
                }
                i = i + 1;
            }
            proof {
                assert(lines.take(n as int) =~= lines);
            }
            ParseOutcome {
                rows,
                failed_preview: Vec::new(),
                total_failures: 0,
                message: None,
            }
        },
        Some(re) => {
            let mut rows: Vec<Vec<String>> = Vec::new();
            let mut preview: Vec<u64> = Vec::new();
            let mut total: usize = 0;
            let mut i: usize = 0;
            while i < n
                invariant
                    i <= n,
                    n == data@.len(),
                    total <= i,
                    lines == data@.map_values(|l: String| l@),
                    start_line + n <= u64::MAX,
                    rows@.map_values(|row: Vec<String>| row@.map_values(|c: String| c@))
                        == lines.take(i as int).map_values(
                        |l: Seq<char>| spec_parse_row(re.pattern(), nbr_columns, l).0,
                    ),
                    ({
                        let failed = spec_failed_lines(
                            re.pattern(),
                            nbr_columns,
                            lines.take(i as int),
                            start_line as int,
                        );
                        &&& total == failed.len()
                        &&& preview@.map_values(|v: u64| v as int) == failed.take(
                            if failed.len() < 6 {
                                failed.len() as int
                            } else {
                                6
                            },
                        )
                    }),
                decreases n - i,
            {
                let ghost failed_before = spec_failed_lines(
                    re.pattern(),
                    nbr_columns,
                    lines.take(i as int),
                    start_line as int,
                );
                let (row, ok) = parse_one_line(re, nbr_columns, &data[i]);
                let ghost rows_before = rows@;
                rows.push(row);
                proof {
                    assert(lines.take(i + 1).drop_last() =~= lines.take(i as int));
                    assert(lines.take(i + 1).last() == lines[i as int]);
                    assert(lines.take(i + 1).map_values(
                        |l: Seq<char>| spec_parse_row(re.pattern(), nbr_columns, l).0,
                    ) =~= lines.take(i as int).map_values(
                        |l: Seq<char>| spec_parse_row(re.pattern(), nbr_columns, l).0,
                    ) + seq![spec_parse_row(re.pattern(), nbr_columns, lines[i as int]).0]);
                    assert(rows@.map_values(
                        |row: Vec<String>| row@.map_values(|c: String| c@),
                    ) =~= rows_before.map_values(
                        |row: Vec<String>| row@.map_values(|c: String| c@),
                    ) + seq![spec_parse_row(re.pattern(), nbr_columns, lines[i as int]).0]);
                }
                if !ok {
                    if preview.len() < 6 {
                        let ghost pv_before = preview@;
                        preview.push(start_line + i as u64);
                        proof {
                            assert(preview@.map_values(|v: u64| v as int) =~= pv_before.map_values(
                                |v: u64| v as int,
                            ) + seq![start_line + i]);
                            assert(spec_failed_lines(
                                re.pattern(),
                                nbr_columns,
                                lines.take(i + 1),
                                start_line as int,
                            ) =~= failed_before + seq![start_line + i]);
                            assert(failed_before.len() < 6);
                            assert((failed_before + seq![start_line + i]).take(
                                failed_before.len() as int + 1,
                            ) =~= failed_before.take(failed_before.len() as int) + seq![
                                start_line + i,
                            ]);
                            assert(failed_before.take(failed_before.len() as int)
                                =~= failed_before);
                        }
                    } else {
                        proof {
                            assert(spec_failed_lines(
                                re.pattern(),
                                nbr_columns,
                                lines.take(i + 1),
                                start_line as int,
                            ) =~= failed_before + seq![start_line + i]);
                            assert((failed_before + seq![start_line + i]).take(6)
                                =~= failed_before.take(6));
                        }
                    }
                    total = total + 1;
                } else {
                    proof {
                        assert(spec_failed_lines(
                            re.pattern(),
                            nbr_columns,
                            lines.take(i + 1),
                            start_line as int,
                        ) =~= failed_before);
                    }
                }
                i = i + 1;
            }
            proof {
                assert(lines.take(n as int) =~= lines);
            }
            let message = if total > 0 && show_errors {
                let ghost failed = spec_failed_lines(
                    re.pattern(),
                    nbr_columns,
                    lines,
                    start_line as int,
                );
                Some(failure_message(total, &preview, Ghost(failed)))
            } else {
                None
            };
            ParseOutcome { rows, failed_preview: preview, total_failures: total, message }
        },
    }
}

} // verus!
