//! The line indexer: scans bytes and records the absolute byte offset of
//! every confirmed line terminator, for ASCII-compatible and UTF-16 (LE/BE)
//! encodings.  A terminator whose companion byte is not yet visible is never
//! recorded; one byte of look-behind is carried between successive buffers.

use vstd::prelude::*;

verus! {

/// How line terminators are laid out in the file's bytes.
#[derive(Clone, Copy, PartialEq, Eq, Structural, Debug)]
pub enum EncodingMode {
    /// One `0x0A` byte ends a line (UTF-8, Latin-1, ASCII, ...).
    AsciiCompatible,
    /// The pair `0x0A 0x00` with the `0x0A` at an even absolute offset.
    Utf16LE,
    /// The pair `0x00 0x0A` with the `0x0A` at an odd absolute offset.
    Utf16BE,
}

impl EncodingMode {
    /// Width in bytes of one line terminator.
    pub open spec fn spec_terminator_width(self) -> int {
        match self {
            EncodingMode::AsciiCompatible => 1,
            EncodingMode::Utf16LE => 2,
            EncodingMode::Utf16BE => 2,
        }
    }

    /// Width in bytes of one line terminator.
    pub fn terminator_width(self) -> (w: u64)
        ensures
            w == self.spec_terminator_width(),
    {
        match self {
            EncodingMode::AsciiCompatible => 1,
            EncodingMode::Utf16LE => 2,
            EncodingMode::Utf16BE => 2,
        }
    }

    /// Whether the mode is one of the two UTF-16 variants.
    pub open spec fn spec_is_utf16(self) -> bool {
        self != EncodingMode::AsciiCompatible
    }

    /// Whether the mode is one of the two UTF-16 variants.
    pub fn is_utf16(self) -> (r: bool)
        ensures
            r == self.spec_is_utf16(),
    {
        match self {
            EncodingMode::AsciiCompatible => false,
            EncodingMode::Utf16LE => true,
            EncodingMode::Utf16BE => true,
        }
    }
}

/// Whether the byte at index `i` of `bytes` is a confirmed line terminator,
/// when `bytes` stands at absolute file offset `base` (so index `i` is
/// absolute offset `base + i`).  A terminator is confirmed only when its
/// companion byte is inside `bytes` as well.
pub open spec fn is_terminator_at(bytes: Seq<u8>, base: int, i: int, mode: EncodingMode) -> bool {
    match mode {
        EncodingMode::AsciiCompatible => 0 <= i < bytes.len() && bytes[i] == 0x0au8,
        EncodingMode::Utf16LE => 0 <= i && i + 1 < bytes.len() && (base + i) % 2 == 0
            && bytes[i] == 0x0au8 && bytes[i + 1] == 0x00u8,
        EncodingMode::Utf16BE => 1 <= i < bytes.len() && (base + i) % 2 == 1
            && bytes[i] == 0x0au8 && bytes[i - 1] == 0x00u8,
    }
}

/// The absolute offsets, in increasing order, of every confirmed line
/// terminator in `bytes` placed at absolute offset `base`.  This is the
/// mathematical model of the index that the scanner builds.
pub open spec fn line_index_of(bytes: Seq<u8>, base: int, mode: EncodingMode) -> Seq<int>
    decreases bytes.len(),
{
    if bytes.len() == 0 {
        Seq::empty()
    } else {
        let decided = if mode is Utf16LE {
            bytes.len() - 2
        } else {
            bytes.len() - 1
        };
        line_index_of(bytes.drop_last(), base, mode) + (if is_terminator_at(
            bytes,
            base,
            decided,
            mode,
        ) {
            seq![base + decided]
        } else {
            Seq::<int>::empty()
        })
    }
}

/// Terminator status at `i` depends only on the bytes up to the companion
/// byte, so it is stable under extending the prefix.
pub proof fn lemma_terminator_prefix(bytes: Seq<u8>, base: int, i: int, mode: EncodingMode, m: int)
    requires
        0 <= m <= bytes.len(),
        mode is Utf16LE ==> i + 2 <= m,
        !(mode is Utf16LE) ==> i + 1 <= m,
    ensures
        is_terminator_at(bytes.take(m), base, i, mode) == is_terminator_at(bytes, base, i, mode),
{
}

/// Every entry of the model index is a confirmed terminator, lies in
/// `[base, base + bytes.len())`, and the entries are strictly increasing.
pub proof fn lemma_line_index_entries(bytes: Seq<u8>, base: int, mode: EncodingMode)
    ensures
        forall|k: int|
            0 <= k < line_index_of(bytes, base, mode).len() ==> {
                let off = #[trigger] line_index_of(bytes, base, mode)[k];
                base <= off < base + bytes.len() && is_terminator_at(bytes, base, off - base, mode)
            },
        forall|k1: int, k2: int|
            0 <= k1 < k2 < line_index_of(bytes, base, mode).len()
                ==> #[trigger] line_index_of(bytes, base, mode)[k1]
                    < #[trigger] line_index_of(bytes, base, mode)[k2],
    decreases bytes.len(),
{
    if bytes.len() > 0 {
        lemma_line_index_entries(bytes.drop_last(), base, mode);
        let prev = line_index_of(bytes.drop_last(), base, mode);
        let decided = if mode is Utf16LE {
            bytes.len() - 2
        } else {
            bytes.len() - 1
        };
        assert forall|k: int| 0 <= k < prev.len() implies {
            let off = #[trigger] prev[k];
            base <= off < base + bytes.len() - 1 && is_terminator_at(bytes, base, off - base, mode)
        } by {
            let off = prev[k];
            assert(is_terminator_at(bytes.drop_last(), base, off - base, mode));
            assert(bytes.drop_last() == bytes.take(bytes.len() - 1));
            lemma_terminator_prefix(bytes, base, off - base, mode, bytes.len() - 1);
        }
    }
}

/// The model index never holds more entries than there are bytes.
pub proof fn lemma_line_index_len(bytes: Seq<u8>, base: int, mode: EncodingMode)
    ensures
        line_index_of(bytes, base, mode).len() <= bytes.len(),
    decreases bytes.len(),
{
    if bytes.len() > 0 {
        lemma_line_index_len(bytes.drop_last(), base, mode);
    }
}

/// The index position decided once `m + 1` bytes are visible: seeing byte
/// `m` settles position `m` itself, except for UTF-16LE, where it settles
/// the preceding position (whose companion byte it is).
pub open spec fn decided_by(m: int, mode: EncodingMode) -> int {
    if mode is Utf16LE {
        m - 1
    } else {
        m
    }
}

/// Revealing one more byte extends the model index by at most one entry:
/// the position that byte decides.
pub proof fn lemma_line_index_step(bytes: Seq<u8>, base: int, mode: EncodingMode, m: int)
    requires
        0 <= m < bytes.len(),
    ensures
        line_index_of(bytes.take(m + 1), base, mode) == line_index_of(bytes.take(m), base, mode)
            + (if is_terminator_at(bytes, base, decided_by(m, mode), mode) {
            seq![base + decided_by(m, mode)]
        } else {
            Seq::<int>::empty()
        }),
{
    let ext = bytes.take(m + 1);
    assert(ext.len() == m + 1);
    assert(ext.drop_last() =~= bytes.take(m));
    let d = decided_by(m, mode);
    if d >= 0 {
        lemma_terminator_prefix(bytes, base, d, mode, m + 1);
    }
    assert(is_terminator_at(ext, base, d, mode) == is_terminator_at(bytes, base, d, mode));
}

/// Revealing a run of bytes none of which is `0x0A` leaves the model index
/// unchanged, whatever the mode: every terminator is a `0x0A` byte.
pub proof fn lemma_line_index_skip(bytes: Seq<u8>, base: int, mode: EncodingMode, m: int, n: int)
    requires
        0 <= m <= n <= bytes.len(),
        forall|p: int|
            decided_by(m, mode) <= p <= decided_by(n - 1, mode) && 0 <= p < bytes.len()
                ==> bytes[p] != 0x0au8,
    ensures
        line_index_of(bytes.take(n), base, mode) == line_index_of(bytes.take(m), base, mode),
    decreases n - m,
{
    if m < n {
        lemma_line_index_skip(bytes, base, mode, m, n - 1);
        lemma_line_index_step(bytes, base, mode, n - 1);
        let d = decided_by(n - 1, mode);
        assert(!is_terminator_at(bytes, base, d, mode));
        assert(line_index_of(bytes.take(n), base, mode) =~= line_index_of(
            bytes.take(n - 1),
            base,
            mode,
        ));
    } else {
        assert(bytes.take(n) == bytes.take(m));
    }
}

/// Completeness: every confirmed terminator offset occurs in the model
/// index (and, with `lemma_line_index_entries`, nothing else does).
pub proof fn lemma_line_index_complete(bytes: Seq<u8>, base: int, mode: EncodingMode, i: int)
    requires
        is_terminator_at(bytes, base, i, mode),
    ensures
        line_index_of(bytes, base, mode).contains(base + i),
    decreases bytes.len(),
{
    let decided = if mode is Utf16LE {
        bytes.len() - 2
    } else {
        bytes.len() - 1
    };
    if i == decided {
        assert(line_index_of(bytes, base, mode).last() == base + i);
    } else {
        assert(i < decided);
        lemma_terminator_prefix(bytes, base, i, mode, bytes.len() - 1);
        assert(bytes.take(bytes.len() - 1) =~= bytes.drop_last());
        lemma_line_index_complete(bytes.drop_last(), base, mode, i);
        let prev = line_index_of(bytes.drop_last(), base, mode);
        let k = choose|k: int| 0 <= k < prev.len() && prev[k] == base + i;
        assert(line_index_of(bytes, base, mode)[k] == base + i);
    }
}

/// Splitting the bytes at an even offset (any offset for ASCII-compatible
/// modes) splits the model index: no terminator pair straddles such a cut.
pub proof fn lemma_line_index_split(bytes: Seq<u8>, mode: EncodingMode, s: int)
    requires
        0 <= s <= bytes.len(),
        mode.spec_is_utf16() ==> s % 2 == 0,
    ensures
        line_index_of(bytes, 0, mode) == line_index_of(bytes.take(s), 0, mode) + line_index_of(
            bytes.skip(s),
            s,
            mode,
        ),
    decreases bytes.len() - s,
{
    if bytes.len() == s {
        assert(bytes.take(s) =~= bytes);
        assert(bytes.skip(s).len() == 0);
        assert(line_index_of(bytes, 0, mode) =~= line_index_of(bytes.take(s), 0, mode)
            + line_index_of(bytes.skip(s), s, mode));
    } else {
        let shorter = bytes.drop_last();
        lemma_line_index_split(shorter, mode, s);
        assert(shorter.take(s) =~= bytes.take(s));
        assert(shorter.skip(s) =~= bytes.skip(s).drop_last());
        let tail = bytes.skip(s);
        let decided = if mode is Utf16LE {
            bytes.len() - 2
        } else {
            bytes.len() - 1
        };
        let tail_decided = if mode is Utf16LE {
            tail.len() - 2
        } else {
            tail.len() - 1
        };
        assert(tail_decided == decided - s);
        assert(is_terminator_at(tail, s, decided - s, mode) == is_terminator_at(
            bytes,
            0,
            decided,
            mode,
        )) by {
            if decided - s >= 0 {
                assert(tail.len() == bytes.len() - s);
                if mode is Utf16BE && decided - s >= 1 {
                    assert(tail[decided - s - 1] == bytes[decided - 1]);
                }
                if decided - s >= 0 && decided < bytes.len() {
                    assert(tail[decided - s] == bytes[decided]);
                }
                if mode is Utf16LE && decided + 1 < bytes.len() {
                    assert(tail[decided - s + 1] == bytes[decided + 1]);
                }
                if mode is Utf16BE && decided - s == 0 {
                    // A BE terminator sits at an odd absolute offset, and the
                    // cut is even, so neither side sees one exactly at the cut.
                    assert(!is_terminator_at(bytes, 0, decided, mode));
                    assert(!is_terminator_at(tail, s, 0, mode));
                }
            }
        }
        assert(line_index_of(bytes, 0, mode) =~= line_index_of(bytes.take(s), 0, mode)
            + line_index_of(bytes.skip(s), s, mode));
    }
}

/// Relies on memchr::memchr: returns the index of the first occurrence of
/// `needle` in `haystack`, or `None` if it does not occur.
#[verifier::external_body]
fn find_byte(needle: u8, haystack: &[u8]) -> (r: Option<usize>)
    ensures
        match r {
            Some(i) => i < haystack@.len() && haystack@[i as int] == needle && forall|j: int|
                0 <= j < i ==> haystack@[j] != needle,
            None => forall|j: int| 0 <= j < haystack@.len() ==> haystack@[j] != needle,
        },
{
    memchr::memchr(needle, haystack)
}

/// A streaming line indexer.  Bytes are fed in arbitrary buffer-sized
/// pieces; the scanner records the absolute offset of every confirmed
/// terminator and carries the one byte of look-behind that a terminator
/// pair straddling two buffers needs.
pub struct LineScanner {
    /// Absolute offsets of the confirmed terminators seen so far.
    pub index: Vec<u64>,
    /// Absolute file offset at which the scan started.
    pub base: u64,
    /// Number of bytes fed so far.
    pub consumed: u64,
    /// The last byte fed, if any: the look-behind carried between buffers.
    pub pending: Option<u8>,
    /// The encoding the scan is for.
    pub mode: EncodingMode,
    /// The bytes fed so far (model only).
    pub fed: Ghost<Seq<u8>>,
}

impl LineScanner {
    /// The scanner's invariant: the recorded index is exactly the model
    /// index of the bytes fed so far.
    pub open spec fn wf(self) -> bool {
        &&& self.consumed == self.fed@.len()
        &&& self.base + self.fed@.len() <= u64::MAX
        &&& (self.mode.spec_is_utf16() ==> self.base % 2 == 0)
        &&& self.pending == (if self.fed@.len() == 0 {
            None::<u8>
        } else {
            Some(self.fed@.last())
        })
        &&& self.index@.map_values(|v: u64| v as int) == line_index_of(
            self.fed@,
            self.base as int,
            self.mode,
        )
    }

    /// A fresh scanner that will scan bytes standing at absolute offset
    /// `base`.  For the UTF-16 modes the scan must start on a pair
    /// boundary.
    pub fn new(base: u64, mode: EncodingMode) -> (r: LineScanner)
        requires
            mode.spec_is_utf16() ==> base % 2 == 0,
        ensures
            r.wf(),
            r.base == base,
            r.mode == mode,
            r.consumed == 0,
            r.fed@ == Seq::<u8>::empty(),
            r.index@.len() == 0,
    {
        let r = LineScanner {
            index: Vec::new(),
            base,
            consumed: 0,
            pending: None,
            mode,
            fed: Ghost(Seq::empty()),
        };
        proof {
            assert(r.index@.map_values(|v: u64| v as int) =~= line_index_of(
                Seq::<u8>::empty(),
                base as int,
                mode,
            ));
        }
        r
    }

    /// Feed the next buffer of bytes.  Afterwards the recorded index is
    /// exactly the model index of everything fed so far.
    pub fn feed(&mut self, chunk: &[u8])
        requires
            old(self).wf(),
            old(self).base + old(self).fed@.len() + chunk@.len() <= u64::MAX,
        ensures
            final(self).wf(),
            final(self).base == old(self).base,
            final(self).mode == old(self).mode,
            final(self).fed@ == old(self).fed@ + chunk@,
            final(self).consumed == old(self).consumed + chunk@.len(),
    {
        let ghost b_all = self.fed@ + chunk@;
        let l0: u64 = self.consumed;
        proof {
            assert(b_all.take(l0 as int) =~= self.fed@);
            assert(b_all.skip(l0 as int) =~= chunk@);
        }
        match self.mode {
            EncodingMode::AsciiCompatible => {
                scan_chunk_ascii(&mut self.index, self.base, l0, chunk, Ghost(b_all));
            },
            EncodingMode::Utf16LE => {
                scan_chunk_le(&mut self.index, self.base, l0, self.pending, chunk, Ghost(b_all));
            },
            EncodingMode::Utf16BE => {
                scan_chunk_be(&mut self.index, self.base, l0, self.pending, chunk, Ghost(b_all));
            },
        }
        self.consumed = self.consumed + chunk.len() as u64;
        if chunk.len() > 0 {
            self.pending = Some(chunk[chunk.len() - 1]);
        }
        proof {
            self.fed@ = b_all;
            if chunk@.len() == 0 {
                assert(b_all =~= old(self).fed@);
            }
        }
    }
}

/// Scan `data[start..]` in one go, with `start` as the absolute offset of
/// that suffix, and return the offsets of all confirmed terminators in it.
pub fn scan_from(data: &[u8], start: usize, mode: EncodingMode) -> (index: Vec<u64>)
    requires
        start <= data@.len(),
        mode.spec_is_utf16() ==> start % 2 == 0,
    ensures
        index@.map_values(|v: u64| v as int) == line_index_of(
            data@.skip(start as int),
            start as int,
            mode,
        ),
{
    let mut scanner = LineScanner::new(start as u64, mode);
    scanner.feed(&data[start..data.len()]);
    proof {
        assert(scanner.fed@ =~= data@.skip(start as int));
    }
    scanner.index
}

/// Law: a scanner's recorded offsets are strictly increasing, and each one
/// both lies within the bytes fed so far and points at a confirmed
/// terminator for the scanner's mode.
pub proof fn lemma_scanner_index_increasing(s: LineScanner)
    requires
        s.wf(),
    ensures
        forall|k1: int, k2: int|
            0 <= k1 < k2 < s.index@.len() ==> s.index@[k1] < s.index@[k2],
        forall|k: int|
            0 <= k < s.index@.len() ==> s.base <= #[trigger] s.index@[k] < s.base + s.fed@.len()
                && is_terminator_at(s.fed@, s.base as int, s.index@[k] - s.base, s.mode),
{
    lemma_line_index_entries(s.fed@, s.base as int, s.mode);
    let m = s.index@.map_values(|v: u64| v as int);
    assert forall|k: int|
        0 <= k < s.index@.len() implies s.base <= #[trigger] s.index@[k] < s.base + s.fed@.len()
        && is_terminator_at(s.fed@, s.base as int, s.index@[k] - s.base, s.mode) by {
        assert(m[k] == s.index@[k]);
    }
    assert forall|k1: int, k2: int|
        0 <= k1 < k2 < s.index@.len() implies s.index@[k1] < s.index@[k2] by {
        assert(m[k1] == s.index@[k1]);
        assert(m[k2] == s.index@[k2]);
    }
}

/// Law: a scanner's index is complete: it holds an offset if and only if a
/// confirmed terminator stands there in the bytes fed so far.  Its length
/// is therefore the number of complete lines those bytes hold.
pub proof fn lemma_scanner_index_complete(s: LineScanner, i: int)
    requires
        s.wf(),
    ensures
        is_terminator_at(s.fed@, s.base as int, i, s.mode) <==> s.index@.map_values(
            |v: u64| v as int,
        ).contains(s.base + i),
{
    let m = s.index@.map_values(|v: u64| v as int);
    if is_terminator_at(s.fed@, s.base as int, i, s.mode) {
        lemma_line_index_complete(s.fed@, s.base as int, s.mode, i);
    }
    if m.contains(s.base + i) {
        lemma_line_index_entries(s.fed@, s.base as int, s.mode);
        let k = choose|k: int| 0 <= k < m.len() && m[k] == s.base + i;
        assert(line_index_of(s.fed@, s.base as int, s.mode)[k] == s.base + i);
    }
}

/// One buffer of an ASCII-compatible scan: record `base + p` for every
/// `0x0A` at chunk position `p`, found with the fast byte search.
fn scan_chunk_ascii(
    index: &mut Vec<u64>,
    base: u64,
    l0: u64,
    chunk: &[u8],
    Ghost(b_all): Ghost<Seq<u8>>,
)
    requires
        base + l0 + chunk@.len() <= u64::MAX,
        b_all.len() == l0 + chunk@.len(),
        b_all.skip(l0 as int) == chunk@,
        old(index)@.map_values(|v: u64| v as int) == line_index_of(
            b_all.take(l0 as int),
            base as int,
            EncodingMode::AsciiCompatible,
        ),
    ensures
        final(index)@.map_values(|v: u64| v as int) == line_index_of(
            b_all,
            base as int,
            EncodingMode::AsciiCompatible,
        ),
{
    let ghost mode = EncodingMode::AsciiCompatible;
    let mut from: usize = 0;
    while from < chunk.len()
        invariant
            mode is AsciiCompatible,
            from <= chunk@.len(),
            base + l0 + chunk@.len() <= u64::MAX,
            b_all.len() == l0 + chunk@.len(),
            b_all.skip(l0 as int) == chunk@,
            index@.map_values(|v: u64| v as int) == line_index_of(
                b_all.take(l0 + from),
                base as int,
                mode,
            ),
        decreases chunk@.len() - from,
    {
        let sub = &chunk[from..chunk.len()];
        proof {
            assert forall|p: int| l0 + from <= p < b_all.len() implies b_all[p] == sub@[p - l0
                - from] by {
                assert(b_all[p] == b_all.skip(l0 as int)[p - l0]);
                assert(sub@[p - l0 - from] == chunk@.subrange(
                    from as int,
                    chunk@.len() as int,
                )[p - l0 - from]);
            }
        }
        match find_byte(0x0a, sub) {
            None => {
                proof {
                    lemma_line_index_skip(b_all, base as int, mode, l0 + from, b_all.len() as int);
                    assert(b_all.take(b_all.len() as int) =~= b_all);
                }
                from = chunk.len();
            },
            Some(rel) => {
                let pos = from + rel;
                proof {
                    lemma_line_index_skip(b_all, base as int, mode, l0 + from, l0 + pos);
                    lemma_line_index_step(b_all, base as int, mode, l0 + pos);
                    assert(b_all[l0 + pos] == sub@[rel as int]);
                    assert(is_terminator_at(b_all, base as int, l0 + pos, mode));
                }
                let off: u64 = base + l0 + pos as u64;
                let ghost before = index@;
                index.push(off);
                proof {
                    assert(index@.map_values(|v: u64| v as int) =~= before.map_values(
                        |v: u64| v as int,
                    ) + seq![off as int]);
                }
                from = pos + 1;
            },
        }
    }
    proof {
        assert(b_all.take(l0 + chunk@.len()) =~= b_all);
    }
}

/// One buffer of a UTF-16LE scan: seeing chunk byte `j` settles whether the
/// preceding absolute position carries a terminator (`0x0A 0x00`, even).
/// `prev` is the byte just before the chunk, if any.
fn scan_chunk_le(
    index: &mut Vec<u64>,
    base: u64,
    l0: u64,
    prev: Option<u8>,
    chunk: &[u8],
    Ghost(b_all): Ghost<Seq<u8>>,
)
    requires
        base + l0 + chunk@.len() <= u64::MAX,
        b_all.len() == l0 + chunk@.len(),
        b_all.skip(l0 as int) == chunk@,
        prev == (if l0 == 0 {
            None::<u8>
        } else {
            Some(b_all[l0 - 1])
        }),
        old(index)@.map_values(|v: u64| v as int) == line_index_of(
            b_all.take(l0 as int),
            base as int,
            EncodingMode::Utf16LE,
        ),
    ensures
        final(index)@.map_values(|v: u64| v as int) == line_index_of(
            b_all,
            base as int,
            EncodingMode::Utf16LE,
        ),
{
    let ghost mode = EncodingMode::Utf16LE;
    let mut j: usize = 0;
    while j < chunk.len()
        invariant
            mode is Utf16LE,
            j <= chunk@.len(),
            base + l0 + chunk@.len() <= u64::MAX,
            b_all.len() == l0 + chunk@.len(),
            b_all.skip(l0 as int) == chunk@,
            prev == (if l0 == 0 {
                None::<u8>
            } else {
                Some(b_all[l0 - 1])
            }),
            index@.map_values(|v: u64| v as int) == line_index_of(
                b_all.take(l0 + j),
                base as int,
                mode,
            ),
        decreases chunk@.len() - j,
    {
        let prev_nl: bool = if j > 0 {
            chunk[j - 1] == 0x0a
        } else {
            match prev {
                Some(b) => b == 0x0a,
                None => false,
            }
        };
        proof {
            lemma_line_index_step(b_all, base as int, mode, l0 + j);
            assert(b_all[l0 + j] == chunk@[j as int]);
            if l0 + j >= 1 {
                assert(b_all[l0 + j - 1] == (if j > 0 {
                    chunk@[j - 1]
                } else {
                    b_all[l0 - 1]
                }));
            }
        }
        let ghost before = index@;
        if prev_nl && chunk[j] == 0x00 {
            let abs_prev: u64 = base + l0 + j as u64 - 1;
            if abs_prev % 2 == 0 {
                index.push(abs_prev);
                proof {
                    assert(is_terminator_at(b_all, base as int, l0 + j - 1, mode));
                    assert(index@.map_values(|v: u64| v as int) =~= before.map_values(
                        |v: u64| v as int,
                    ) + seq![abs_prev as int]);
                }
            } else {
                proof {
                    assert(!is_terminator_at(b_all, base as int, l0 + j - 1, mode));
                }
            }
        } else {
            proof {
                assert(!is_terminator_at(b_all, base as int, l0 + j - 1, mode));
            }
        }
        j = j + 1;
    }
    proof {
        assert(b_all.take(l0 + chunk@.len()) =~= b_all);
    }
}

/// One buffer of a UTF-16BE scan: a `0x0A` at chunk position `j` carries a
/// terminator when it stands at an odd absolute offset after a `0x00`.
/// `prev` is the byte just before the chunk, if any.
fn scan_chunk_be(
    index: &mut Vec<u64>,
    base: u64,
    l0: u64,
    prev: Option<u8>,
    chunk: &[u8],
    Ghost(b_all): Ghost<Seq<u8>>,
)
    requires
        base + l0 + chunk@.len() <= u64::MAX,
        b_all.len() == l0 + chunk@.len(),
        b_all.skip(l0 as int) == chunk@,
        prev == (if l0 == 0 {
            None::<u8>
        } else {
            Some(b_all[l0 - 1])
        }),
        old(index)@.map_values(|v: u64| v as int) == line_index_of(
            b_all.take(l0 as int),
            base as int,
            EncodingMode::Utf16BE,
        ),
    ensures
        final(index)@.map_values(|v: u64| v as int) == line_index_of(
            b_all,
            base as int,
            EncodingMode::Utf16BE,
        ),
{
    let ghost mode = EncodingMode::Utf16BE;
    let mut j: usize = 0;
    while j < chunk.len()
        invariant
            mode is Utf16BE,
            j <= chunk@.len(),
            base + l0 + chunk@.len() <= u64::MAX,
            b_all.len() == l0 + chunk@.len(),
            b_all.skip(l0 as int) == chunk@,
            prev == (if l0 == 0 {
                None::<u8>
            } else {
                Some(b_all[l0 - 1])
            }),
            index@.map_values(|v: u64| v as int) == line_index_of(
                b_all.take(l0 + j),
                base as int,
                mode,
            ),
        decreases chunk@.len() - j,
    {
        let prev_zero: bool = if j > 0 {
            chunk[j - 1] == 0x00
        } else {
            match prev {
                Some(b) => b == 0x00,
                None => false,
            }
        };
        proof {
            lemma_line_index_step(b_all, base as int, mode, l0 + j);
            assert(b_all[l0 + j] == chunk@[j as int]);
            if l0 + j >= 1 {
                assert(b_all[l0 + j - 1] == (if j > 0 {
                    chunk@[j - 1]
                } else {
                    b_all[l0 - 1]
                }));
            }
        }
        let ghost before = index@;
        if chunk[j] == 0x0a && prev_zero {
            let abs: u64 = base + l0 + j as u64;
            if abs % 2 == 1 {
                index.push(abs);
                proof {
                    assert(is_terminator_at(b_all, base as int, l0 + j, mode));
                    assert(index@.map_values(|v: u64| v as int) =~= before.map_values(
                        |v: u64| v as int,
                    ) + seq![abs as int]);
                }
            } else {
                proof {
                    assert(!is_terminator_at(b_all, base as int, l0 + j, mode));
                }
            }
        } else {
            proof {
                assert(!is_terminator_at(b_all, base as int, l0 + j, mode));
            }
        }
        j = j + 1;
    }
    proof {
        assert(b_all.take(l0 + chunk@.len()) =~= b_all);
    }
}

} // verus!
