//! The file processor: owns a file's path, its per-line terminator index,
//! the last known size and the encoding mode, and offers range reads and
//! incremental refresh over the file's bytes.  The surrounding application
//! reads the bytes; everything decided about them is decided here.

use vstd::prelude::*;

use crate::encoding::{decode_window, spec_decode};
use crate::indexer::{
    is_terminator_at, lemma_line_index_entries, lemma_line_index_skip, lemma_line_index_split,
    line_index_of, scan_from, EncodingMode,
};
use crate::strings::{spec_decimal, spec_split_lines, spec_strip_bom, strip_bom_and_split,
    u64_to_string};


verus! {

/// What a refresh found the file had undergone.
#[derive(Clone, Copy, PartialEq, Eq, Structural, Debug)]
pub enum FileChangeType {
    /// The file shrank: the index was rebuilt from scratch.
    Truncated,
    /// The file grew: the new tail was scanned and its lines read back.
    LinesAdded,
}

/// The per-file state: path, terminator index, last known size, and the
/// encoding mode the index was built for.
pub struct FileProcessor {
    /// Absolute path of the file (held for the caller; never read here).
    pub file_path: String,
    /// Absolute byte offset of every line terminator, in increasing order.
    pub index: Vec<u64>,
    /// The byte count the index reflects.
    pub last_file_size: u64,
    /// The encoding mode, fixed at construction.
    pub mode: EncodingMode,
}

/// The lines a decoded window of bytes yields: decode by mode, strip a
/// leading byte-order mark, split at the line terminators.
pub open spec fn spec_window_lines(mode: EncodingMode, window: Seq<u8>) -> Seq<Seq<char>> {
    spec_split_lines(spec_strip_bom(spec_decode(mode, window)))
}

/// The out-of-bounds message of a range read.
pub open spec fn spec_oob_msg(start: int, count: int) -> Seq<char> {
    "start_line ("@ + spec_decimal(start) + ") out of bounds (file has "@ + spec_decimal(count)
        + " lines)"@
}

/// The inverted-range message of a range read.
pub open spec fn spec_range_msg(start: int, end: int) -> Seq<char> {
    "Invalid range: start_line ("@ + spec_decimal(start) + ") > end_line ("@ + spec_decimal(end)
        + ")"@
}

/// The short-read message of a range read whose window would pass the end
/// of the file.
pub open spec fn spec_short_msg(n: int) -> Seq<char> {
    "Failed to read "@ + spec_decimal(n) + " bytes: window passes the end of the file"@
}

impl FileProcessor {
    /// The index is the model index of `data`, and the recorded size is its
    /// length: what `new` establishes and `refresh_if_needed` re-establishes.
    pub open spec fn consistent_with(self, data: Seq<u8>) -> bool {
        &&& self.index@.map_values(|v: u64| v as int) == line_index_of(data, 0, self.mode)
        &&& self.last_file_size == data.len()
    }

    /// Number of complete lines the index reflects.
    pub open spec fn spec_line_count(self) -> int {
        self.index@.len() as int
    }

    /// The byte offset at which `line` starts.
    pub open spec fn spec_line_start(self, line: int) -> int {
        if line == 0 {
            0
        } else {
            self.index@[line - 1] + self.mode.spec_terminator_width()
        }
    }

    /// The byte offset just past `line`'s terminator.
    pub open spec fn spec_line_end(self, line: int) -> int {
        self.index@[line] + self.mode.spec_terminator_width()
    }

    /// The end line a read clamps to: the last line of the file at most.
    pub open spec fn spec_clamped_end(self, end: int) -> int {
        if end < self.spec_line_count() - 1 {
            end
        } else {
            self.spec_line_count() - 1
        }
    }

    /// The whole outcome of a range read on a file whose bytes are `data`:
    /// which error each bad range raises, and the exact lines a good range
    /// yields.
    pub open spec fn spec_read_outcome(self, data: Seq<u8>, start: int, end: int) -> Result<
        Seq<Seq<char>>,
        Seq<char>,
    > {
        let count = self.spec_line_count();
        if count == 0 {
            Err("File is empty"@)
        } else if start >= count {
            Err(spec_oob_msg(start, count))
        } else if start > end {
            Err(spec_range_msg(start, end))
        } else {
            let actual_end = if end < count - 1 {
                end
            } else {
                count - 1
            };
            let start_pos = self.spec_line_start(start);
            let end_pos = self.spec_line_end(actual_end);
            if end_pos > data.len() {
                Err(spec_short_msg(end_pos - start_pos))
            } else {
                Ok(spec_window_lines(self.mode, data.subrange(start_pos, end_pos)))
            }
        }
    }

    /// Build a processor for a file whose bytes are `data`, scanning the
    /// whole of it.
    pub fn new(file_path: String, mode: EncodingMode, data: &[u8]) -> (r: FileProcessor)
        ensures
            r.consistent_with(data@),
            r.mode == mode,
            r.file_path == file_path,
    {
        let index = scan_from(data, 0, mode);
        proof {
            assert(data@.skip(0) =~= data@);
        }
        FileProcessor { file_path, index, last_file_size: data.len() as u64, mode }
    }

    /// Read lines `start_line` through `end_line` (inclusive, clamped to
    /// the last line) out of `data`, decoded and split.  Exactly the
    /// outcome `spec_read_outcome` names: each bad range raises its error,
    /// and a good range yields the decoded window's lines.
    pub fn read_lines_range(&self, data: &[u8], start_line: u64, end_line: u64) -> (r: Result<
        Vec<String>,
        String,
    >)
        requires
            self.consistent_with(data@),
            data@.len() + 2 <= u64::MAX,
        ensures
            match (r, self.spec_read_outcome(data@, start_line as int, end_line as int)) {
                (Ok(lines), Ok(model)) => lines@.map_values(|l: String| l@) == model,
                (Err(e), Err(m)) => e@ == m,
                _ => false,
            },
            r is Ok ==> r.unwrap()@.len() <= data@.len(),
            self.mode is AsciiCompatible && crate::encoding::all_ascii(data@) ==> match r {
                Ok(lines) => lines@.len() == self.spec_clamped_end(end_line as int) - start_line
                    + 1,
                Err(_) => true,
            },
            self.mode is AsciiCompatible && crate::encoding::all_ascii(data@)
                && crate::laws::no_cr(data@) ==> match r {
                Ok(lines) => crate::strings::join_nl(lines@.map_values(|l: String| l@)) + seq![
                    '\n',
                ] == crate::encoding::ascii_chars(
                    data@.subrange(
                        self.spec_line_start(start_line as int),
                        self.spec_line_end(self.spec_clamped_end(end_line as int)),
                    ),
                ),
                Err(_) => true,
            },
    {
        let line_count = self.index.len() as u64;
        proof {
            lemma_line_index_entries(data@, 0, self.mode);
        }
        if line_count == 0 {
            let mut msg = String::new();
            msg.append("File is empty");
            return Err(msg);
        }
        if start_line >= line_count {
            let mut msg = String::new();
            msg.append("start_line (");
            msg.append(u64_to_string(start_line).as_str());
            msg.append(") out of bounds (file has ");
            msg.append(u64_to_string(line_count).as_str());
            msg.append(" lines)");
            return Err(msg);
        }
        if start_line > end_line {
            let mut msg = String::new();
            msg.append("Invalid range: start_line (");
            msg.append(u64_to_string(start_line).as_str());
            msg.append(") > end_line (");
            msg.append(u64_to_string(end_line).as_str());
            msg.append(")");
            return Err(msg);
        }
        let actual_end = if end_line < line_count - 1 {
            end_line
        } else {
            line_count - 1
        };
        let ghost m = self.index@.map_values(|v: u64| v as int);
        proof {
            assert(m[actual_end as int] == self.index@[actual_end as int]);
            if start_line > 0 {
                assert(m[start_line - 1] == self.index@[start_line - 1]);
                if start_line - 1 < actual_end {
                    assert(m[start_line - 1] < m[actual_end as int]);
                }
            }
        }
        let newline_size = self.mode.terminator_width();
        let start_pos: u64 = if start_line == 0 {
            0
        } else {
            self.index[(start_line - 1) as usize] + newline_size
        };
        let end_pos: u64 = self.index[actual_end as usize] + newline_size;
        if end_pos > data.len() as u64 {
            let mut msg = String::new();
            msg.append("Failed to read ");
            msg.append(u64_to_string(end_pos - start_pos).as_str());
            msg.append(" bytes: window passes the end of the file");
            return Err(msg);
        }
        let window = &data[start_pos as usize..end_pos as usize];
        proof {
            if crate::encoding::all_ascii(data@) {
                assert forall|j: int| 0 <= j < window@.len() implies window@[j] < 0x80 by {
                    assert(window@[j] == data@[start_pos + j]);
                }
            }
        }
        let decoded = decode_window(self.mode, window);
        let lines = strip_bom_and_split(decoded.as_str());
        proof {
            crate::strings::lemma_split_lines_len(spec_strip_bom(decoded@));
            crate::strings::lemma_strip_bom_len(decoded@);
            assert(lines@.map_values(|l: String| l@).len() == lines@.len());
            if self.mode is AsciiCompatible && crate::encoding::all_ascii(data@) {
                crate::laws::lemma_ascii_window_lines(
                    *self,
                    data@,
                    start_line as int,
                    actual_end as int,
                );
                if crate::laws::no_cr(data@) {
                    assert forall|j: int| 0 <= j < window@.len() implies window@[j] != 0x0du8 by {
                        assert(window@[j] == data@[start_pos + j]);
                    }
                }
            }
        }
        Ok(lines)
    }

    /// Compare the file's current bytes against the last known size.  A
    /// smaller file is rescanned from scratch and reported truncated; a
    /// larger one has only its new tail scanned (from the last known size,
    /// rounded down to a pair boundary for UTF-16) and the newly indexed
    /// lines read back; an unchanged size reports nothing.
    pub fn refresh_if_needed(&mut self, data: &[u8]) -> (r: Result<
        Option<(FileChangeType, u64, u64, Vec<String>)>,
        String,
    >)
        requires
            data@.len() + 2 <= u64::MAX,
            data@.len() > old(self).last_file_size ==> old(self).consistent_with(
                data@.take(old(self).last_file_size as int),
            ),
        ensures
            final(self).mode == old(self).mode,
            final(self).file_path == old(self).file_path,
            match r {
                Ok(None) => data@.len() == old(self).last_file_size && *final(self) == *old(self),
                Ok(Some((change, old_count, new_count, new_lines))) => {
                    &&& new_lines@.len() <= data@.len()
                    &&& (old(self).mode is AsciiCompatible && crate::encoding::all_ascii(data@)
                        && change is LinesAdded && new_count > old_count ==> new_lines@.len()
                        == new_count - old_count)
                    &&& old_count == old(self).index@.len()
                    &&& new_count == final(self).index@.len()
                    &&& final(self).consistent_with(data@)
                    &&& (change is Truncated <==> data@.len() < old(self).last_file_size)
                    &&& (change is Truncated ==> new_lines@.len() == 0)
                    &&& (change is LinesAdded ==> data@.len() > old(self).last_file_size && (
                    if new_count > old_count {
                        match final(self).spec_read_outcome(
                            data@,
                            old_count as int,
                            new_count - 1,
                        ) {
                            Ok(model) => new_lines@.map_values(|l: String| l@) == model,
                            Err(_) => false,
                        }
                    } else {
                        new_lines@.len() == 0
                    }))
                },
                Err(e) => {
                    &&& data@.len() > old(self).last_file_size
                    &&& final(self).consistent_with(data@)
                    &&& final(self).index@.len() > old(self).index@.len()
                    &&& match final(self).spec_read_outcome(
                        data@,
                        old(self).index@.len() as int,
                        final(self).index@.len() - 1,
                    ) {
                        Err(m) => e@ == m,
                        Ok(_) => false,
                    }
                },
            },
    {
        let current_size = data.len() as u64;
        if current_size < self.last_file_size {
            let old_count = self.index.len() as u64;
            self.index = scan_from(data, 0, self.mode);
            self.last_file_size = current_size;
            proof {
                assert(data@.skip(0) =~= data@);
            }
            let new_count = self.index.len() as u64;
            Ok(Some((FileChangeType::Truncated, old_count, new_count, Vec::new())))
        } else if current_size > self.last_file_size {
            let ghost old_size = self.last_file_size as int;
            let old_count = self.index.len() as u64;
            let mut start: u64 = self.last_file_size;
            if self.mode.is_utf16() && start % 2 == 1 {
                start = start - 1;
            }
            let mut new_entries = scan_from(data, start as usize, self.mode);
            let ghost tail_model = new_entries@.map_values(|v: u64| v as int);
            self.index.append(&mut new_entries);
            self.last_file_size = current_size;
            proof {
                let mode = self.mode;
                lemma_line_index_split(data@, mode, start as int);
                if (start as int) < old_size {
                    crate::indexer::lemma_line_index_step(data@, 0, mode, start as int);
                    assert(!is_terminator_at(
                        data@,
                        0,
                        crate::indexer::decided_by(start as int, mode),
                        mode,
                    ));
                    assert(line_index_of(data@.take(old_size), 0, mode) =~= line_index_of(
                        data@.take(start as int),
                        0,
                        mode,
                    ));
                }
                assert(self.index@.map_values(|v: u64| v as int) =~= old(
                    self,
                ).index@.map_values(|v: u64| v as int) + tail_model);
                assert(self.index@.map_values(|v: u64| v as int) =~= line_index_of(
                    data@,
                    0,
                    mode,
                ));
            }
            let new_count = self.index.len() as u64;
            if new_count > old_count {
                match self.read_lines_range(data, old_count, new_count - 1) {
                    Ok(lines) => Ok(
                        Some((FileChangeType::LinesAdded, old_count, new_count, lines)),
                    ),
                    Err(e) => Err(e),
                }
            } else {
                Ok(Some((FileChangeType::LinesAdded, old_count, new_count, Vec::new())))
            }
        } else {
            Ok(None)
        }
    }
}

} // verus!
