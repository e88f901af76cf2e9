//! Pure text helpers: decimal rendering of counters for error messages,
//! splitting decoded text into lines the way the range reader hands them
//! out, and stripping a leading byte-order mark.

use vstd::prelude::*;

verus! {

/// The decimal digit character for `d` (0 through 9).
pub open spec fn spec_digit(d: int) -> char {
    if d == 0 {
        '0'
    } else if d == 1 {
        '1'
    } else if d == 2 {
        '2'
    } else if d == 3 {
        '3'
    } else if d == 4 {
        '4'
    } else if d == 5 {
        '5'
    } else if d == 6 {
        '6'
    } else if d == 7 {
        '7'
    } else if d == 8 {
        '8'
    } else {
        '9'
    }
}

/// The decimal rendering of a non-negative integer, most significant digit
/// first, with no leading zeros (except for zero itself).
pub open spec fn spec_decimal(n: int) -> Seq<char>
    recommends
        n >= 0,
    decreases n,
{
    if n < 10 {
        seq![spec_digit(n)]
    } else {
        spec_decimal(n / 10) + seq![spec_digit(n % 10)]
    }
}

/// The digit character for `d`.
fn digit_char(d: u64) -> (c: char)
    requires
        d < 10,
    ensures
        c == spec_digit(d as int),
{
    match d {
        0 => '0',
        1 => '1',
        2 => '2',
        3 => '3',
        4 => '4',
        5 => '5',
        6 => '6',
        7 => '7',
        8 => '8',
        _ => '9',
    }
}

/// Append the decimal rendering of `n` to `out`.
fn push_decimal(n: u64, out: &mut Vec<char>)
    ensures
        final(out)@ == old(out)@ + spec_decimal(n as int),
    decreases n,
{
    if n < 10 {
        out.push(digit_char(n));
    } else {
        push_decimal(n / 10, out);
        out.push(digit_char(n % 10));
        proof {
            assert(final(out)@ =~= old(out)@ + spec_decimal(n as int));
        }
    }
}

/// Relies on `String::from_iter` (through `Iterator::collect`): builds the
/// string holding exactly the given characters in order.
#[verifier::external_body]
pub fn string_from_chars(chars: &Vec<char>) -> (s: String)
    ensures
        s@ == chars@,
{
    chars.iter().collect()
}

/// The decimal rendering of `n` as a string.
pub fn u64_to_string(n: u64) -> (s: String)
    ensures
        s@ == spec_decimal(n as int),
{
    let mut digits: Vec<char> = Vec::new();
    push_decimal(n, &mut digits);
    string_from_chars(&digits)
}

/// `s` with one trailing carriage return removed, if it ends with one.
pub open spec fn strip_one_cr(s: Seq<char>) -> Seq<char> {
    if s.len() > 0 && s.last() == '\r' {
        s.drop_last()
    } else {
        s
    }
}

/// The index of the first newline in `s`, or `s.len()` if there is none.
pub open spec fn first_nl(s: Seq<char>) -> int
    decreases s.len(),
{
    if s.len() == 0 {
        0
    } else if s[0] == '\n' {
        0
    } else {
        1 + first_nl(s.skip(1))
    }
}

/// `first_nl` indeed points at the first newline.
pub proof fn lemma_first_nl(s: Seq<char>)
    ensures
        0 <= first_nl(s) <= s.len(),
        first_nl(s) < s.len() ==> s[first_nl(s)] == '\n',
        forall|j: int| 0 <= j < first_nl(s) ==> s[j] != '\n',
    decreases s.len(),
{
    if s.len() > 0 && s[0] != '\n' {
        lemma_first_nl(s.skip(1));
        assert forall|j: int| 0 <= j < first_nl(s) implies s[j] != '\n' by {
            if j > 0 {
                assert(s.skip(1)[j - 1] == s[j]);
            }
        }
    }
}

/// A position before which there is no newline, holding one (or the end),
/// is the first newline.
pub proof fn lemma_first_nl_at(s: Seq<char>, m: int)
    requires
        0 <= m <= s.len(),
        forall|j: int| 0 <= j < m ==> s[j] != '\n',
        m < s.len() ==> s[m] == '\n',
    ensures
        first_nl(s) == m,
    decreases m,
{
    if m > 0 {
        assert forall|j: int| 0 <= j < m - 1 implies s.skip(1)[j] != '\n' by {
            assert(s.skip(1)[j] == s[j + 1]);
        }
        assert(m - 1 < s.skip(1).len() ==> s.skip(1)[m - 1] == '\n');
        lemma_first_nl_at(s.skip(1), m - 1);
    }
}

/// The lines of `s`, split the way the range reader reports them: segments
/// end at each newline, a carriage return just before a newline is dropped,
/// and an empty final segment (text ending in a newline) yields no line.
pub open spec fn spec_split_lines(s: Seq<char>) -> Seq<Seq<char>>
    decreases s.len(),
{
    if s.len() == 0 {
        Seq::empty()
    } else {
        let i = first_nl(s);
        if 0 <= i < s.len() {
            seq![strip_one_cr(s.take(i))] + spec_split_lines(s.skip(i + 1))
        } else {
            seq![s]
        }
    }
}

/// `s` with every leading byte-order mark removed.
pub open spec fn spec_strip_bom(s: Seq<char>) -> Seq<char>
    decreases s.len(),
{
    if s.len() > 0 && s[0] == '\u{feff}' {
        spec_strip_bom(s.skip(1))
    } else {
        s
    }
}

/// Stripping the byte-order mark drops exactly the leading run of marks.
pub proof fn lemma_strip_bom_at(s: Seq<char>, m: int)
    requires
        0 <= m <= s.len(),
        forall|j: int| 0 <= j < m ==> s[j] == '\u{feff}',
        m < s.len() ==> s[m] != '\u{feff}',
    ensures
        spec_strip_bom(s) == s.skip(m),
    decreases m,
{
    if m == 0 {
        assert(s.skip(0) =~= s);
    } else {
        assert forall|j: int| 0 <= j < m - 1 implies s.skip(1)[j] == '\u{feff}' by {
            assert(s.skip(1)[j] == s[j + 1]);
        }
        lemma_strip_bom_at(s.skip(1), m - 1);
        assert(s.skip(1).skip(m - 1) =~= s.skip(m));
    }
}

/// Splitting yields at most one line per character: the bound the
/// searcher needs to number lines without overflow.
pub proof fn lemma_split_lines_len(s: Seq<char>)
    ensures
        spec_split_lines(s).len() <= s.len(),
    decreases s.len(),
{
    if s.len() > 0 {
        lemma_first_nl(s);
        let i = first_nl(s);
        if 0 <= i < s.len() {
            lemma_split_lines_len(s.skip(i + 1));
        }
    }
}

/// Stripping the byte-order mark never lengthens the text.
pub proof fn lemma_strip_bom_len(s: Seq<char>)
    ensures
        spec_strip_bom(s).len() <= s.len(),
    decreases s.len(),
{
    if s.len() > 0 && s[0] == '\u{feff}' {
        lemma_strip_bom_len(s.skip(1));
    }
}

/// Split `text`, with any leading byte-order mark removed, into lines.
pub fn strip_bom_and_split(text: &str) -> (lines: Vec<String>)
    ensures
        lines@.map_values(|l: String| l@) == spec_split_lines(spec_strip_bom(text@)),
{
    let n = text.unicode_len();
    let mut start: usize = 0;
    while start < n && text.get_char(start) == '\u{feff}'
        invariant
            start <= n,
            n == text@.len(),
            forall|j: int| 0 <= j < start ==> text@[j] == '\u{feff}',
        decreases n - start,
    {
        start = start + 1;
    }
    proof {
        lemma_strip_bom_at(text@, start as int);
    }
    let ghost stripped = text@.skip(start as int);
    let mut lines: Vec<String> = Vec::new();
    let mut cur: usize = start;
    while cur < n
        invariant
            start <= cur <= n,
            n == text@.len(),
            stripped == text@.skip(start as int),
            spec_split_lines(stripped) == lines@.map_values(|l: String| l@) + spec_split_lines(
                text@.skip(cur as int),
            ),
        decreases n - cur,
    {
        let ghost rest = text@.skip(cur as int);
        let mut k: usize = cur;
        while k < n && text.get_char(k) != '\n'
            invariant
                cur <= k <= n,
                n == text@.len(),
                forall|j: int| cur <= j < k ==> text@[j] != '\n',
            decreases n - k,
        {
            k = k + 1;
        }
        proof {
            assert forall|j: int| 0 <= j < k - cur implies rest[j] != '\n' by {
                assert(rest[j] == text@[cur + j]);
            }
            if k < n {
                assert(rest[k - cur] == text@[k as int]);
            }
            lemma_first_nl_at(rest, k - cur);
        }
        if k == n {
            let line = text.substring_char(cur, n).to_owned();
            proof {
                assert(text@.subrange(cur as int, n as int) =~= rest);
                assert(spec_split_lines(rest) =~= seq![rest]);
                assert((lines@ + seq![line]).map_values(|l: String| l@) =~= lines@.map_values(
                    |l: String| l@,
                ) + seq![line@]);
                assert(spec_split_lines(text@.skip(n as int)) =~= Seq::<Seq<char>>::empty());
            }
            lines.push(line);
            cur = n;
        } else {
            let end = if k > cur && text.get_char(k - 1) == '\r' {
                k - 1
            } else {
                k
            };
            let line = text.substring_char(cur, end).to_owned();
            proof {
                assert(rest.take(k - cur) =~= text@.subrange(cur as int, k as int));
                assert(strip_one_cr(rest.take(k - cur)) =~= text@.subrange(
                    cur as int,
                    end as int,
                ));
                assert(rest.skip(k - cur + 1) =~= text@.skip(k + 1 as int));
                assert((lines@ + seq![line]).map_values(|l: String| l@) =~= lines@.map_values(
                    |l: String| l@,
                ) + seq![line@]);
            }
            lines.push(line);
            cur = k + 1;
        }
    }
    proof {
        assert(spec_split_lines(text@.skip(n as int)) =~= Seq::<Seq<char>>::empty());
        assert(lines@.map_values(|l: String| l@) =~= lines@.map_values(|l: String| l@)
            + spec_split_lines(text@.skip(n as int)));
    }
    lines
}

/// Text whose one newline is its last character splits into exactly one
/// line: everything before the newline, minus one trailing carriage
/// return.
pub proof fn lemma_split_lines_single(s: Seq<char>)
    requires
        s.len() >= 1,
        s.last() == '\n',
        forall|j: int| 0 <= j < s.len() - 1 ==> s[j] != '\n',
    ensures
        spec_split_lines(s) == seq![strip_one_cr(s.drop_last())],
{
    lemma_first_nl_at(s, s.len() - 1);
    assert(s.take(s.len() - 1) =~= s.drop_last());
    assert(s.skip(s.len() as int) =~= Seq::<char>::empty());
    assert(spec_split_lines(Seq::<char>::empty()) =~= Seq::<Seq<char>>::empty());
    assert(spec_split_lines(s) == seq![strip_one_cr(s.take(s.len() - 1))] + spec_split_lines(
        s.skip(s.len() as int),
    ));
    assert(spec_split_lines(s) =~= seq![strip_one_cr(s.drop_last())]);
}

/// Splitting distributes over concatenation at a newline boundary.
pub proof fn lemma_split_lines_append(x: Seq<char>, y: Seq<char>)
    requires
        x.len() >= 1,
        x.last() == '\n',
    ensures
        spec_split_lines(x + y) == spec_split_lines(x) + spec_split_lines(y),
    decreases x.len(),
{
    lemma_first_nl(x);
    let i = first_nl(x);
    if i == x.len() {
        assert(x[x.len() - 1] != '\n');
    }
    assert(0 <= i < x.len());
    let xy = x + y;
    assert forall|j: int| 0 <= j < i implies xy[j] != '\n' by {
        assert(xy[j] == x[j]);
    }
    assert(xy[i] == x[i]);
    lemma_first_nl_at(xy, i);
    assert(xy.take(i) =~= x.take(i));
    assert(xy.skip(i + 1) =~= x.skip(i + 1) + y);
    let rest = x.skip(i + 1);
    if rest.len() == 0 {
        assert(rest + y =~= y);
        assert(spec_split_lines(x) == seq![strip_one_cr(x.take(i))] + spec_split_lines(rest));
        assert(spec_split_lines(rest) =~= Seq::<Seq<char>>::empty());
        assert(spec_split_lines(x) =~= seq![strip_one_cr(x.take(i))]);
        assert(spec_split_lines(xy) =~= spec_split_lines(x) + spec_split_lines(y));
    } else {
        assert(rest.last() == x.last());
        lemma_split_lines_append(rest, y);
        assert(spec_split_lines(xy) =~= spec_split_lines(x) + spec_split_lines(y));
    }
}

/// The lines joined back together, one newline between each two.
pub open spec fn join_nl(lines: Seq<Seq<char>>) -> Seq<char>
    decreases lines.len(),
{
    if lines.len() == 0 {
        Seq::empty()
    } else if lines.len() == 1 {
        lines[0]
    } else {
        join_nl(lines.drop_last()) + seq!['\n'] + lines.last()
    }
}

/// Joining distributes over concatenation of non-empty line lists.
pub proof fn lemma_join_nl_append(p: Seq<Seq<char>>, q: Seq<Seq<char>>)
    requires
        p.len() >= 1,
        q.len() >= 1,
    ensures
        join_nl(p + q) == join_nl(p) + seq!['\n'] + join_nl(q),
    decreases q.len(),
{
    if q.len() == 1 {
        assert((p + q).drop_last() =~= p);
        assert((p + q).last() == q[0]);
        assert(join_nl(p + q) =~= join_nl(p) + seq!['\n'] + join_nl(q));
    } else {
        lemma_join_nl_append(p, q.drop_last());
        assert((p + q).drop_last() =~= p + q.drop_last());
        assert((p + q).last() == q.last());
        assert(join_nl(q) == join_nl(q.drop_last()) + seq!['\n'] + q.last());
        assert(join_nl(p + q) =~= join_nl(p) + seq!['\n'] + join_nl(q));
    }
}

} // verus!

