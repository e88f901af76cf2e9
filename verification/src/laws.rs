//! Cross-cutting properties of the reader, stated and proved once: how
//! many lines a range read yields for an ASCII-compatible file, that those
//! lines joined with newlines restore the file's bytes, and when a read
//! within the indexed range is guaranteed to succeed.

use vstd::prelude::*;

use crate::encoding::ascii_chars;
use crate::file_processor::FileProcessor;
use crate::indexer::{
    is_terminator_at, lemma_line_index_complete, lemma_line_index_entries, line_index_of,
};
use crate::strings::{
    join_nl, lemma_split_lines_append, lemma_split_lines_single, lemma_strip_bom_at,
    spec_split_lines, spec_strip_bom, strip_one_cr,
};

verus! {

/// Whether the bytes hold no carriage return.
pub open spec fn no_cr(bytes: Seq<u8>) -> bool {
    forall|i: int| 0 <= i < bytes.len() ==> bytes[i] != 0x0du8
}

/// The byte window of one line of an ASCII-compatible file: it ends with
/// the line's terminator and holds no other newline byte.
proof fn lemma_ascii_line_bytes(fp: FileProcessor, data: Seq<u8>, a: int)
    requires
        fp.consistent_with(data),
        fp.mode is AsciiCompatible,
        0 <= a < fp.spec_line_count(),
    ensures
        ({
            let w = data.subrange(fp.spec_line_start(a), fp.spec_line_end(a));
            &&& 0 <= fp.spec_line_start(a) < fp.spec_line_end(a) <= data.len()
            &&& w.len() >= 1
            &&& w.last() == 0x0au8
            &&& forall|j: int| 0 <= j < w.len() - 1 ==> w[j] != 0x0au8
        }),
{
    let m = fp.index@.map_values(|v: u64| v as int);
    lemma_line_index_entries(data, 0, fp.mode);
    assert(m[a] == fp.index@[a] as int);
    if a > 0 {
        assert(m[a - 1] == fp.index@[a - 1] as int);
        assert(m[a - 1] < m[a]);
    }
    let sp = fp.spec_line_start(a);
    let ep = fp.spec_line_end(a);
    assert(is_terminator_at(data, 0, m[a], fp.mode));
    let w = data.subrange(sp, ep);
    assert(w.last() == data[m[a]]);
    assert forall|j: int| 0 <= j < w.len() - 1 implies w[j] != 0x0au8 by {
        let p = sp + j;
        assert(w[j] == data[p]);
        if data[p] == 0x0au8 {
            assert(is_terminator_at(data, 0, p, fp.mode));
            lemma_line_index_complete(data, 0, fp.mode, p);
            let li = line_index_of(data, 0, fp.mode);
            let k = choose|k: int| 0 <= k < li.len() && li[k] == p;
            assert(m == li);
            assert(m[k] == p);
            assert(fp.index@[k] as int == p);
            if k < a {
                if a > 0 {
                    if k < a - 1 {
                        assert(m[k] < m[a - 1]);
                    }
                    assert(p <= m[a - 1]);
                    assert(p >= sp);
                    assert(false);
                } else {
                    assert(false);
                }
            } else {
                assert(m[a] <= m[k]);
                assert(p < m[a]);
                assert(false);
            }
        }
    }
}

/// The characters of an ASCII-compatible byte window, line-structured the
/// same way: bytes map one-for-one, `0x0A` to the newline character, and
/// no byte maps to a byte-order mark.
proof fn lemma_ascii_chars_structure(w: Seq<u8>)
    ensures
        ascii_chars(w).len() == w.len(),
        forall|j: int|
            0 <= j < w.len() ==> (#[trigger] ascii_chars(w)[j] == '\n' <==> w[j] == 0x0au8),
        forall|j: int|
            0 <= j < w.len() ==> (#[trigger] ascii_chars(w)[j] == '\r' <==> w[j] == 0x0du8),
        forall|j: int| 0 <= j < w.len() ==> #[trigger] ascii_chars(w)[j] != '\u{feff}',
{
    assert forall|j: int| 0 <= j < w.len() implies (#[trigger] ascii_chars(w)[j] == '\n' <==> w[j]
        == 0x0au8) && (ascii_chars(w)[j] == '\r' <==> w[j] == 0x0du8) && ascii_chars(w)[j]
        != '\u{feff}' by {
        assert(ascii_chars(w)[j] == w[j] as char);
    }
}

/// The decoded characters of the window holding lines `a` through `b` of
/// an ASCII-compatible file: no byte-order mark to strip, exactly
/// `b - a + 1` lines after splitting, and — when the window holds no
/// carriage return — joining those lines with newlines restores the whole
/// window but its final terminator.
pub proof fn lemma_ascii_window_lines(fp: FileProcessor, data: Seq<u8>, a: int, b: int)
    requires
        fp.consistent_with(data),
        fp.mode is AsciiCompatible,
        0 <= a <= b < fp.spec_line_count(),
    ensures
        ({
            let w = data.subrange(fp.spec_line_start(a), fp.spec_line_end(b));
            let chars = ascii_chars(w);
            &&& fp.spec_line_start(a) < fp.spec_line_end(b) <= data.len()
            &&& chars.len() >= 1
            &&& chars.last() == '\n'
            &&& spec_strip_bom(chars) == chars
            &&& spec_split_lines(chars).len() == b - a + 1
            &&& (no_cr(w) ==> join_nl(spec_split_lines(chars)) + seq!['\n'] == chars)
        }),
    decreases b - a,
{
    let m = fp.index@.map_values(|v: u64| v as int);
    lemma_line_index_entries(data, 0, fp.mode);
    let w = data.subrange(fp.spec_line_start(a), fp.spec_line_end(b));
    let chars = ascii_chars(w);
    lemma_ascii_chars_structure(w);
    if a == b {
        lemma_ascii_line_bytes(fp, data, a);
        assert(chars.last() == '\n');
        assert forall|j: int| 0 <= j < chars.len() - 1 implies chars[j] != '\n' by {
            assert(w[j] != 0x0au8);
        }
        lemma_split_lines_single(chars);
        assert(chars[0] != '\u{feff}');
        lemma_strip_bom_at(chars, 0);
        assert(chars.skip(0) =~= chars);
        if no_cr(w) {
            assert forall|j: int| 0 <= j < chars.len() implies chars[j] != '\r' by {
                assert(w[j] != 0x0du8);
            }
            assert(strip_one_cr(chars.drop_last()) == chars.drop_last()) by {
                if chars.drop_last().len() > 0 {
                    assert(chars.drop_last().last() == chars[chars.len() - 2]);
                }
            }
            assert(join_nl(spec_split_lines(chars)) + seq!['\n'] =~= chars);
        }
    } else {
        lemma_ascii_window_lines(fp, data, a, a);
        lemma_ascii_window_lines(fp, data, a + 1, b);
        assert(m[a] == fp.index@[a] as int);
        let wa = data.subrange(fp.spec_line_start(a), fp.spec_line_end(a));
        let wr = data.subrange(fp.spec_line_start(a + 1), fp.spec_line_end(b));
        assert(fp.spec_line_start(a + 1) == fp.spec_line_end(a));
        assert(w =~= wa + wr);
        let ca = ascii_chars(wa);
        let cr = ascii_chars(wr);
        assert(chars =~= ca + cr);
        lemma_ascii_chars_structure(wa);
        lemma_ascii_chars_structure(wr);
        lemma_split_lines_append(ca, cr);
        assert(spec_split_lines(chars) == spec_split_lines(ca) + spec_split_lines(cr));
        assert(chars.last() == cr.last());
        assert(chars[0] == ca[0]);
        assert(chars[0] != '\u{feff}');
        lemma_strip_bom_at(chars, 0);
        assert(chars.skip(0) =~= chars);
        if no_cr(w) {
            assert forall|j: int| 0 <= j < wa.len() implies wa[j] != 0x0du8 by {
                assert(wa[j] == w[j]);
            }
            assert forall|j: int| 0 <= j < wr.len() implies wr[j] != 0x0du8 by {
                assert(wr[j] == w[wa.len() + j]);
            }
            crate::strings::lemma_join_nl_append(
                spec_split_lines(ca),
                spec_split_lines(cr),
            );
            assert(join_nl(spec_split_lines(ca)) + seq!['\n'] == ca);
            assert(join_nl(spec_split_lines(cr)) + seq!['\n'] == cr);
            assert(join_nl(spec_split_lines(ca)) =~= ca.drop_last());
            assert(join_nl(spec_split_lines(cr)) =~= cr.drop_last());
            assert(join_nl(spec_split_lines(chars)) + seq!['\n'] =~= chars);
        }
    }
}

/// A range read whose start lies within the index succeeds, except under
/// UTF-16BE, where the documented window formula passes the end of the
/// file for the last line.
pub proof fn lemma_read_in_range_succeeds(fp: FileProcessor, data: Seq<u8>, a: int, b: int)
    requires
        fp.consistent_with(data),
        !(fp.mode is Utf16BE),
        0 <= a <= b,
        a < fp.spec_line_count(),
    ensures
        fp.spec_read_outcome(data, a, b) is Ok,
{
    let m = fp.index@.map_values(|v: u64| v as int);
    lemma_line_index_entries(data, 0, fp.mode);
    let count = fp.spec_line_count();
    let ae = if b < count - 1 {
        b
    } else {
        count - 1
    };
    assert(m[ae] == fp.index@[ae] as int);
    assert(is_terminator_at(data, 0, m[ae], fp.mode));
    if fp.mode is Utf16LE {
        assert(m[ae] + 2 <= data.len());
    } else {
        assert(m[ae] + 1 <= data.len());
    }
}

} // verus!
