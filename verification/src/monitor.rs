//! The incremental log tailer: a file offset and a last-modified stamp.
//!
//! The file itself is read outside the library; the tailer decides whether
//! a read is due (cheap early exit on an unmodified file) and ingests the
//! lines the reader hands back, advancing the offset by exactly the bytes
//! consumed and producing parsed records, newest first.

use vstd::prelude::*;
use vstd::relations::sorted_by;
use vstd::string::StringExecFns;
use vstd::utf8::encode_utf8;

use crate::logparse::{
    jail_of, level_of, parse_log_line, spec_jail_of, spec_level_of, spec_parse_log_line,
};
use crate::records::LogLevel;
use crate::records::{LogEntry, LogEntryView};
use crate::sorting::{log_order, log_views, sort_logs_desc};

verus! {

/// Tailer state over one log file.
pub struct LogMonitor {
    /// Path of the file being tailed.
    pub file_path: String,
    /// Byte offset up to which the file has been consumed.
    pub last_position: u64,
    /// Modification stamp of the file at the last read, in milliseconds
    /// since the Unix epoch; 0 before any read.
    pub last_modified_ms: i64,
}

/// Bytes a reader consumes for a sequence of lines: each line's UTF-8
/// length plus one for its newline.
pub open spec fn consumed_bytes(lines: Seq<Seq<char>>) -> int
    decreases lines.len(),
{
    if lines.len() == 0 {
        0
    } else {
        consumed_bytes(lines.drop_last()) + (encode_utf8(lines.last()).len() as usize) + 1
    }
}

/// The records a sequence of raw lines parses to, blank lines skipped, in
/// line order.
pub open spec fn parsed_entries(lines: Seq<Seq<char>>, now_ms: int) -> Seq<LogEntryView>
    decreases lines.len(),
{
    if lines.len() == 0 {
        Seq::empty()
    } else {
        let rest = parsed_entries(lines.drop_last(), now_ms);
        match spec_parse_log_line(lines.last(), now_ms) {
            Some(e) => rest.push(e),
            None => rest,
        }
    }
}

/// Consuming bytes never shrinks a sequence of lines.
pub proof fn lemma_consumed_bytes_nonneg(lines: Seq<Seq<char>>)
    ensures
        consumed_bytes(lines) >= 0,
    decreases lines.len(),
{
    if lines.len() > 0 {
        lemma_consumed_bytes_nonneg(lines.drop_last());
    }
}

/// No more records come out of a batch of lines than went in.
pub proof fn lemma_parsed_entries_len(lines: Seq<Seq<char>>, now_ms: int)
    ensures
        parsed_entries(lines, now_ms).len() <= lines.len(),
    decreases lines.len(),
{
    if lines.len() > 0 {
        lemma_parsed_entries_len(lines.drop_last(), now_ms);
    }
}

/// Views of a sequence of raw line strings.
pub open spec fn line_views(lines: Seq<String>) -> Seq<Seq<char>> {
    lines.map_values(|l: String| l@)
}

/// Saturating addition on byte offsets.
fn sat_add_u64(a: u64, b: u64) -> (r: u64)
    ensures
        r as int == if a + b <= u64::MAX {
            a + b
        } else {
            u64::MAX as int
        },
{
    if b > u64::MAX - a {
        u64::MAX
    } else {
        a + b
    }
}

impl LogMonitor {
    /// A tailer that has consumed nothing of the file at `file_path`.
    pub fn new(file_path: &str) -> (r: Self)
        ensures
            r.file_path@ == file_path@,
            r.last_position == 0,
            r.last_modified_ms == 0,
    {
        LogMonitor { file_path: String::from_str(file_path), last_position: 0, last_modified_ms: 0 }
    }

    /// The conventional log file location: the first of the usual
    /// candidates that exists, else the most common one. The three flags
    /// say which of `/var/log/fail2ban.log`,
    /// `/var/log/fail2ban/fail2ban.log` and
    /// `/usr/local/var/log/fail2ban.log` exists.
    pub fn get_fail2ban_log_path(exists0: bool, exists1: bool, exists2: bool) -> (r: String)
        ensures
            exists0 ==> r@ == "/var/log/fail2ban.log"@,
            !exists0 && exists1 ==> r@ == "/var/log/fail2ban/fail2ban.log"@,
            !exists0 && !exists1 && exists2 ==> r@ == "/usr/local/var/log/fail2ban.log"@,
            !exists0 && !exists1 && !exists2 ==> r@ == "/var/log/fail2ban.log"@,
    {
        if exists0 {
            String::from_str("/var/log/fail2ban.log")
        } else if exists1 {
            String::from_str("/var/log/fail2ban/fail2ban.log")
        } else if exists2 {
            String::from_str("/usr/local/var/log/fail2ban.log")
        } else {
            String::from_str("/var/log/fail2ban.log")
        }
    }

    /// Resets the tailer when the file was truncated or rotated: a file
    /// now shorter than the consumed offset is read from its start again,
    /// instead of silently producing nothing forever.
    pub fn note_file_size(&mut self, file_len: u64)
        ensures
            final(self).file_path@ == old(self).file_path@,
            final(self).last_modified_ms == old(self).last_modified_ms,
            final(self).last_position == (if file_len < old(self).last_position {
                0u64
            } else {
                old(self).last_position
            }),
    {
        if file_len < self.last_position {
            self.last_position = 0;
        }
    }

    /// Whether a tail is due: only when the file has been modified since
    /// the last read. Tailing an unmodified file returns no records.
    pub fn should_read(&self, modified_ms: i64) -> (r: bool)
        ensures
            r == (modified_ms > self.last_modified_ms),
    {
        modified_ms > self.last_modified_ms
    }

    /// Splits a line's text after the timestamp into its level, its full
    /// text, and the jail name of its first plausible bracketed group.
    pub fn parse_message_parts(&self, message_part: &str) -> (r: (LogLevel, String, Option<String>))
        ensures
            r.0 == spec_level_of(message_part@),
            r.1@ == message_part@,
            (match r.2 {
                Some(j) => spec_jail_of(message_part@) == Some(j@),
                None => spec_jail_of(message_part@) is None,
            }),
    {
        let level = level_of(message_part);
        let jail = jail_of(message_part);
        (level, String::from_str(message_part), jail)
    }

    /// Ingests the lines read from the current offset to the end of file:
    /// parses every non-blank line, returns the records newest-first,
    /// advances the offset by exactly the bytes consumed (saturating at
    /// the offset type's maximum), and takes the new modification stamp.
    pub fn ingest_tail(&mut self, lines: &Vec<String>, modified_ms: i64, now_ms: i64) -> (r: Vec<
        LogEntry,
    >)
        ensures
            final(self).file_path@ == old(self).file_path@,
            final(self).last_modified_ms == modified_ms,
            final(self).last_position as int == if old(self).last_position + consumed_bytes(
                line_views(lines@),
            ) <= u64::MAX {
                old(self).last_position + consumed_bytes(line_views(lines@))
            } else {
                u64::MAX as int
            },
            sorted_by(log_views(r@), log_order()),
            log_views(r@).to_multiset() =~= parsed_entries(line_views(lines@), now_ms as int)
                .to_multiset(),
            r@.len() == parsed_entries(line_views(lines@), now_ms as int).len(),
    {
        let mut parsed: Vec<LogEntry> = Vec::new();
        let mut pos: u64 = self.last_position;
        let mut i: usize = 0;
        proof {
            assert(line_views(lines@).take(0) =~= Seq::<Seq<char>>::empty());
            assert(log_views(parsed@) =~= Seq::<LogEntryView>::empty());
            assert(log_views(parsed@) =~= parsed_entries(line_views(lines@).take(0), now_ms as int));
        }
        while i < lines.len()
            invariant
                i <= lines@.len(),
                log_views(parsed@) =~= parsed_entries(
                    line_views(lines@).take(i as int),
                    now_ms as int,
                ),
                pos as int == if old(self).last_position + consumed_bytes(
                    line_views(lines@).take(i as int),
                ) <= u64::MAX {
                    old(self).last_position + consumed_bytes(line_views(lines@).take(i as int))
                } else {
                    u64::MAX as int
                },
                self == old(self),
            decreases lines@.len() - i,
        {
            let ghost pre = line_views(lines@).take(i as int);
            let ghost cur = line_views(lines@).take(i as int + 1);
            proof {
                assert(cur.drop_last() =~= pre);
                assert(cur.last() == lines@[i as int]@);
                lemma_consumed_bytes_nonneg(pre);
            }
            let line = &lines[i];
            let nbytes = line.as_str().len();
            proof {
                assert(consumed_bytes(cur) == consumed_bytes(pre) + nbytes + 1);
            }
            let ghost pos0 = pos as int;
            let step = sat_add_u64(nbytes as u64, 1);
            pos = sat_add_u64(pos, step);
            proof {
                let exact = old(self).last_position + consumed_bytes(cur);
                if step as int == nbytes + 1 {
                    if pos0 == old(self).last_position + consumed_bytes(pre) {
                        assert(pos as int == if exact <= u64::MAX {
                            exact
                        } else {
                            u64::MAX as int
                        });
                    } else {
                        assert(pos0 == u64::MAX as int);
                        lemma_consumed_bytes_nonneg(cur);
                        assert(exact > u64::MAX);
                        assert(pos as int == u64::MAX as int);
                    }
                } else {
                    assert(nbytes as int + 1 > u64::MAX);
                    assert(step == u64::MAX);
                    assert(pos == u64::MAX);
                    assert(exact > u64::MAX);
                }
            }
            match parse_log_line(line.as_str(), now_ms) {
                Some(e) => {
                    parsed.push(e);
                    proof {
                        assert(log_views(parsed@) =~= parsed_entries(pre, now_ms as int).push(e@));
                    }
                },
                None => {},
            }
            i = i + 1;
        }
        proof {
            assert(line_views(lines@).take(lines@.len() as int) =~= line_views(lines@));
        }
        self.last_position = pos;
        self.last_modified_ms = modified_ms;
        let out = sort_logs_desc(&parsed);
        proof {
            vstd::seq_lib::to_multiset_len(log_views(out@));
            vstd::seq_lib::to_multiset_len(log_views(parsed@));
        }
        out
    }

    /// Ingests a whole-file read for the initial load: keeps only the last
    /// `max_lines` lines, parses them, returns the records newest-first,
    /// and sets the offset to the end of the file so subsequent tails
    /// start clean.
    pub fn ingest_recent(
        &mut self,
        lines: &Vec<String>,
        max_lines: usize,
        file_len: u64,
        modified_ms: i64,
        now_ms: i64,
    ) -> (r: Vec<LogEntry>)
        ensures
            final(self).file_path@ == old(self).file_path@,
            final(self).last_modified_ms == modified_ms,
            final(self).last_position == file_len,
            sorted_by(log_views(r@), log_order()),
            ({
                let kept = if lines@.len() > max_lines {
                    line_views(lines@).skip(lines@.len() - max_lines)
                } else {
                    line_views(lines@)
                };
                log_views(r@).to_multiset() =~= parsed_entries(kept, now_ms as int).to_multiset()
            }),
    {
        let start: usize = if lines.len() > max_lines {
            lines.len() - max_lines
        } else {
            0
        };
        let ghost kept = if lines@.len() > max_lines {
            line_views(lines@).skip(lines@.len() - max_lines)
        } else {
            line_views(lines@)
        };
        let mut parsed: Vec<LogEntry> = Vec::new();
        let mut i: usize = start;
        proof {
            assert(kept =~= line_views(lines@).skip(start as int));
            assert(kept.take(0) =~= Seq::<Seq<char>>::empty());
            assert(log_views(parsed@) =~= parsed_entries(kept.take(0), now_ms as int));
        }
        while i < lines.len()
            invariant
                start <= i <= lines@.len(),
                kept =~= line_views(lines@).skip(start as int),
                log_views(parsed@) =~= parsed_entries(
                    kept.take(i - start as int),
                    now_ms as int,
                ),
            decreases lines@.len() - i,
        {
            let ghost pre = kept.take(i - start as int);
            let ghost cur = kept.take(i + 1 - start as int);
            proof {
                assert(cur.drop_last() =~= pre);
                assert(cur.last() == lines@[i as int]@);
            }
            match parse_log_line(lines[i].as_str(), now_ms) {
                Some(e) => {
                    parsed.push(e);
                    proof {
                        assert(log_views(parsed@) =~= parsed_entries(pre, now_ms as int).push(e@));
                    }
                },
                None => {},
            }
            i = i + 1;
        }
        proof {
            assert(kept.take(lines@.len() - start as int) =~= kept);
        }
        self.last_position = file_len;
        self.last_modified_ms = modified_ms;
        sort_logs_desc(&parsed)
    }
}

} // verus!
