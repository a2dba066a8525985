//! The record parser: one raw log line in, one structured record out.
//!
//! A line's first 23 characters are a timestamp `YYYY-MM-DD HH:MM:SS,mmm`.
//! Parsing never discards a non-blank line: on any timestamp defect the
//! record is still produced, carrying the wall-clock instant handed in by
//! the caller and level `INFO`. The level is chosen by scanning the rest of
//! the line for level keywords in fixed priority order, and the jail name
//! is the first bracketed group that is longer than one character and not
//! purely numeric (which excludes process-id brackets).
//!
//! Timestamps before 1970 are treated as unreadable and take the
//! wall-clock fallback.

use vstd::prelude::*;
use vstd::string::StrSliceExecFns;
use vstd::string::StringExecFns;

use crate::records::{LogEntry, LogEntryView, LogLevel};
use crate::text::{
    all_digits, all_space, find_char_from, find_from, has_substring, lemma_find_from, contains_sub,
    is_all_digits, is_blank,
};

verus! {

/// ASCII decimal digit.
pub open spec fn is_digit(c: char) -> bool {
    48 <= c as int <= 57
}

/// Numeric value of an ASCII digit.
pub open spec fn digit_val(c: char) -> int {
    c as int - 48
}

/// Whether the first 23 characters have the shape
/// `YYYY-MM-DD HH:MM:SS,mmm`: digits and separators in the right places.
pub open spec fn ts_shape_ok(s: Seq<char>) -> bool {
    &&& s.len() >= 23
    &&& is_digit(s[0]) && is_digit(s[1]) && is_digit(s[2]) && is_digit(s[3])
    &&& s[4] == '-'
    &&& is_digit(s[5]) && is_digit(s[6])
    &&& s[7] == '-'
    &&& is_digit(s[8]) && is_digit(s[9])
    &&& s[10] == ' '
    &&& is_digit(s[11]) && is_digit(s[12])
    &&& s[13] == ':'
    &&& is_digit(s[14]) && is_digit(s[15])
    &&& s[16] == ':'
    &&& is_digit(s[17]) && is_digit(s[18])
    &&& s[19] == ','
    &&& is_digit(s[20]) && is_digit(s[21]) && is_digit(s[22])
}

pub open spec fn ts_year(s: Seq<char>) -> int {
    digit_val(s[0]) * 1000 + digit_val(s[1]) * 100 + digit_val(s[2]) * 10 + digit_val(s[3])
}

pub open spec fn ts_month(s: Seq<char>) -> int {
    digit_val(s[5]) * 10 + digit_val(s[6])
}

pub open spec fn ts_day(s: Seq<char>) -> int {
    digit_val(s[8]) * 10 + digit_val(s[9])
}

pub open spec fn ts_hour(s: Seq<char>) -> int {
    digit_val(s[11]) * 10 + digit_val(s[12])
}

pub open spec fn ts_minute(s: Seq<char>) -> int {
    digit_val(s[14]) * 10 + digit_val(s[15])
}

pub open spec fn ts_second(s: Seq<char>) -> int {
    digit_val(s[17]) * 10 + digit_val(s[18])
}

pub open spec fn ts_millis(s: Seq<char>) -> int {
    digit_val(s[20]) * 100 + digit_val(s[21]) * 10 + digit_val(s[22])
}

/// Gregorian leap year.
pub open spec fn is_leap_year(y: int) -> bool {
    y % 4 == 0 && (y % 100 != 0 || y % 400 == 0)
}

/// Days in a month of the proleptic Gregorian calendar.
pub open spec fn days_in_month(y: int, m: int) -> int {
    if m == 2 {
        if is_leap_year(y) {
            29
        } else {
            28
        }
    } else if m == 4 || m == 6 || m == 9 || m == 11 {
        30
    } else {
        31
    }
}

/// Whether the first 23 characters are a readable timestamp: the shape is
/// right and the fields name a real calendar instant from 1970 on.
pub open spec fn ts_fields_ok(s: Seq<char>) -> bool {
    &&& ts_shape_ok(s)
    &&& 1970 <= ts_year(s)
    &&& 1 <= ts_month(s) <= 12
    &&& 1 <= ts_day(s) <= days_in_month(ts_year(s), ts_month(s))
    &&& ts_hour(s) <= 23
    &&& ts_minute(s) <= 59
    &&& ts_second(s) <= 59
}

/// Days from 1970-01-01 to the first day of year `y`: the days of every
/// year from 1970 up to but not including `y`.
pub open spec fn days_before_year(y: int) -> int
    decreases y - 1970 when y >= 1970
{
    if y <= 1970 {
        0
    } else {
        days_before_year(y - 1) + if is_leap_year(y - 1) {
            366int
        } else {
            365int
        }
    }
}

/// A year count of days stays within 366 days a year.
proof fn lemma_days_before_year_bound(y: int)
    requires
        y >= 1970,
    ensures
        0 <= days_before_year(y) <= 366 * (y - 1970),
    decreases y - 1970,
{
    if y > 1970 {
        lemma_days_before_year_bound(y - 1);
    }
}

/// Days from the first day of year `y` to the first day of its month `m`.
pub open spec fn days_before_month(y: int, m: int) -> int {
    (if m == 1 {
        0int
    } else if m == 2 {
        31
    } else if m == 3 {
        59
    } else if m == 4 {
        90
    } else if m == 5 {
        120
    } else if m == 6 {
        151
    } else if m == 7 {
        181
    } else if m == 8 {
        212
    } else if m == 9 {
        243
    } else if m == 10 {
        273
    } else if m == 11 {
        304
    } else {
        334
    }) + if m >= 3 && is_leap_year(y) {
        1int
    } else {
        0int
    }
}

/// Milliseconds since the Unix epoch of a UTC calendar instant.
pub open spec fn epoch_ms_of(y: int, m: int, d: int, h: int, mi: int, sec: int, ms: int) -> int {
    ((days_before_year(y) + days_before_month(y, m) + (d - 1)) * 86400 + h * 3600 + mi * 60 + sec)
        * 1000 + ms
}

/// The timestamp read from the first 23 characters, when they are one.
pub open spec fn spec_parse_ts(s: Seq<char>) -> Option<int> {
    if ts_fields_ok(s) {
        Some(
            epoch_ms_of(
                ts_year(s),
                ts_month(s),
                ts_day(s),
                ts_hour(s),
                ts_minute(s),
                ts_second(s),
                ts_millis(s),
            ),
        )
    } else {
        None
    }
}

/// Reads the numeric value of the digit at position `i`, or reports that
/// there is none.
fn digit_at(s: &str, i: usize) -> (r: Option<u64>)
    requires
        i < s@.len(),
    ensures
        (match r {
            Some(v) => is_digit(s@[i as int]) && v == digit_val(s@[i as int]),
            None => !is_digit(s@[i as int]),
        }),
{
    let c = s.get_char(i) as u32;
    if 48 <= c && c <= 57 {
        Some((c - 48) as u64)
    } else {
        None
    }
}

/// Whether the character at position `i` is `c`.
fn char_at_is(s: &str, i: usize, c: char) -> (r: bool)
    requires
        i < s@.len(),
    ensures
        r == (s@[i as int] == c),
{
    s.get_char(i) == c
}

/// Parses the leading `YYYY-MM-DD HH:MM:SS,mmm` timestamp of a line into
/// milliseconds since the Unix epoch, or reports that the line does not
/// start with a readable timestamp.
#[verifier::rlimit(60)]
pub fn parse_timestamp_ms(line: &str) -> (r: Option<i64>)
    ensures
        (match r {
            Some(t) => spec_parse_ts(line@) == Some(t as int),
            None => spec_parse_ts(line@) is None,
        }),
{
    let len = line.unicode_len();
    if len < 23 {
        return None;
    }
    // Separators first.
    if !(char_at_is(line, 4, '-') && char_at_is(line, 7, '-') && char_at_is(line, 10, ' ')
        && char_at_is(line, 13, ':') && char_at_is(line, 16, ':') && char_at_is(line, 19, ',')) {
        return None;
    }
    let d0 = digit_at(line, 0);
    let d1 = digit_at(line, 1);
    let d2 = digit_at(line, 2);
    let d3 = digit_at(line, 3);
    let d5 = digit_at(line, 5);
    let d6 = digit_at(line, 6);
    let d8 = digit_at(line, 8);
    let d9 = digit_at(line, 9);
    let d11 = digit_at(line, 11);
    let d12 = digit_at(line, 12);
    let d14 = digit_at(line, 14);
    let d15 = digit_at(line, 15);
    let d17 = digit_at(line, 17);
    let d18 = digit_at(line, 18);
    let d20 = digit_at(line, 20);
    let d21 = digit_at(line, 21);
    let d22 = digit_at(line, 22);
    match (d0, d1, d2, d3, d5, d6, d8, d9, d11, d12, d14, d15, d17, d18, d20, d21, d22) {
        (
            Some(y0),
            Some(y1),
            Some(y2),
            Some(y3),
            Some(m0),
            Some(m1),
            Some(dd0),
            Some(dd1),
            Some(h0),
            Some(h1),
            Some(mi0),
            Some(mi1),
            Some(s0),
            Some(s1),
            Some(ms0),
            Some(ms1),
            Some(ms2),
        ) => {
            let y: u64 = y0 * 1000 + y1 * 100 + y2 * 10 + y3;
            let m: u64 = m0 * 10 + m1;
            let d: u64 = dd0 * 10 + dd1;
            let h: u64 = h0 * 10 + h1;
            let mi: u64 = mi0 * 10 + mi1;
            let sec: u64 = s0 * 10 + s1;
            let ms: u64 = ms0 * 100 + ms1 * 10 + ms2;
            if y < 1970 || m < 1 || m > 12 {
                return None;
            }
            let leap: bool = y % 4 == 0 && (y % 100 != 0 || y % 400 == 0);
            let dim: u64 = if m == 2 {
                if leap {
                    29
                } else {
                    28
                }
            } else if m == 4 || m == 6 || m == 9 || m == 11 {
                30
            } else {
                31
            };
            if d < 1 || d > dim || h > 23 || mi > 59 || sec > 59 {
                return None;
            }
            let mut days_year: u64 = 0;
            let mut yr: u64 = 1970;
            while yr < y
                invariant
                    1970 <= yr <= y,
                    y <= 9999,
                    days_year == days_before_year(yr as int),
                    days_year <= 366 * (yr - 1970),
                decreases y - yr,
            {
                let leap_yr: bool = yr % 4 == 0 && (yr % 100 != 0 || yr % 400 == 0);
                days_year = days_year + if leap_yr {
                    366
                } else {
                    365
                };
                yr = yr + 1;
            }
            let before: u64 = if m == 1 {
                0
            } else if m == 2 {
                31
            } else if m == 3 {
                59
            } else if m == 4 {
                90
            } else if m == 5 {
                120
            } else if m == 6 {
                151
            } else if m == 7 {
                181
            } else if m == 8 {
                212
            } else if m == 9 {
                243
            } else if m == 10 {
                273
            } else if m == 11 {
                304
            } else {
                334
            };
            let before = if m >= 3 && leap {
                before + 1
            } else {
                before
            };
            let total_days: u64 = days_year + before + (d - 1);
            let total_secs: u64 = total_days * 86400 + h * 3600 + mi * 60 + sec;
            let total_ms: u64 = total_secs * 1000 + ms;
            Some(total_ms as i64)
        },
        _ => None,
    }
}

/// Level of a line: the highest-priority level keyword found in its text,
/// `INFO` when none occurs.
pub open spec fn spec_level_of(s: Seq<char>) -> LogLevel {
    if has_substring(s, "ERROR"@) {
        LogLevel::Error
    } else if has_substring(s, "WARNING"@) || has_substring(s, "WARN"@) {
        LogLevel::Warn
    } else if has_substring(s, "NOTICE"@) {
        LogLevel::Notice
    } else if has_substring(s, "INFO"@) {
        LogLevel::Info
    } else if has_substring(s, "DEBUG"@) {
        LogLevel::Debug
    } else {
        LogLevel::Info
    }
}

/// Scans a line's text for level keywords in fixed priority order:
/// `ERROR` before `WARNING`/`WARN` before `NOTICE` before `INFO` before
/// `DEBUG`, defaulting to `INFO`.
pub fn level_of(s: &str) -> (r: LogLevel)
    ensures
        r == spec_level_of(s@),
{
    if contains_sub(s, "ERROR") {
        LogLevel::Error
    } else if contains_sub(s, "WARNING") || contains_sub(s, "WARN") {
        LogLevel::Warn
    } else if contains_sub(s, "NOTICE") {
        LogLevel::Notice
    } else if contains_sub(s, "INFO") {
        LogLevel::Info
    } else if contains_sub(s, "DEBUG") {
        LogLevel::Debug
    } else {
        LogLevel::Info
    }
}

/// The first bracketed group, looking at opening brackets from position
/// `i` on, whose contents are longer than one character and not purely
/// numeric; `None` when there is no such group. Purely numeric groups
/// (process ids) and single characters are passed over.
pub open spec fn spec_jail_from(s: Seq<char>, i: int) -> Option<Seq<char>>
    decreases s.len() - i when 0 <= i <= s.len()
    via spec_jail_from_dec
{
    let st = find_from(s, '[', i);
    if st == s.len() {
        None
    } else {
        let e = find_from(s, ']', st + 1);
        if e == s.len() {
            None
        } else {
            let inner = s.subrange(st + 1, e);
            if !all_digits(inner) && inner.len() > 1 {
                Some(inner)
            } else {
                spec_jail_from(s, st + 1)
            }
        }
    }
}

#[via_fn]
proof fn spec_jail_from_dec(s: Seq<char>, i: int) {
    lemma_find_from(s, '[', i);
    let st = find_from(s, '[', i);
    if st < s.len() {
        lemma_find_from(s, ']', st + 1);
    }
}

/// The jail name a line's text carries, if any.
pub open spec fn spec_jail_of(s: Seq<char>) -> Option<Seq<char>> {
    spec_jail_from(s, 0)
}

/// Extracts the jail name from a line's text: the contents of the first
/// bracketed group that is neither purely numeric (a process id) nor a
/// single character.
pub fn jail_of(s: &str) -> (r: Option<String>)
    ensures
        (match r {
            Some(j) => spec_jail_of(s@) == Some(j@),
            None => spec_jail_of(s@) is None,
        }),
{
    let len = s.unicode_len();
    let mut i: usize = 0;
    while i <= len
        invariant
            i <= len + 1,
            len == s@.len(),
            i <= len ==> spec_jail_of(s@) == spec_jail_from(s@, i as int),
            i > len ==> spec_jail_of(s@) is None,
        decreases len + 1 - i,
    {
        let st = find_char_from(s, '[', i);
        proof {
            lemma_find_from(s@, '[', i as int);
        }
        if st == len {
            return None;
        }
        let e = find_char_from(s, ']', st + 1);
        proof {
            lemma_find_from(s@, ']', st as int + 1);
        }
        if e == len {
            return None;
        }
        let inner = s.substring_char(st + 1, e);
        if !is_all_digits(inner) && inner.unicode_len() > 1 {
            return Some(inner.to_owned());
        }
        i = st + 1;
    }
    None
}

/// The record a line parses to at wall-clock instant `now_ms`: `None` only
/// for a blank line; a line too short to carry a timestamp, or one whose
/// timestamp is unreadable, still yields a record with the wall-clock
/// instant substituted.
pub open spec fn spec_parse_log_line(line: Seq<char>, now_ms: int) -> Option<LogEntryView> {
    if all_space(line) {
        None
    } else if line.len() < 23 {
        Some(
            LogEntryView {
                timestamp_ms: now_ms,
                level: LogLevel::Info,
                message: line,
                jail: None,
            },
        )
    } else {
        let rest = if line.len() > 24 {
            line.subrange(24, line.len() as int)
        } else {
            Seq::empty()
        };
        let ts = match spec_parse_ts(line) {
            Some(t) => t,
            None => now_ms,
        };
        Some(
            LogEntryView {
                timestamp_ms: ts,
                level: spec_level_of(rest),
                message: rest,
                jail: spec_jail_of(rest),
            },
        )
    }
}

/// Parses one raw log line into a record, substituting `now_ms` for an
/// unreadable timestamp. Only a blank line yields no record.
pub fn parse_log_line(line: &str, now_ms: i64) -> (r: Option<LogEntry>)
    ensures
        (match r {
            Some(e) => spec_parse_log_line(line@, now_ms as int) == Some(e@),
            None => spec_parse_log_line(line@, now_ms as int) is None,
        }),
{
    if is_blank(line) {
        return None;
    }
    let len = line.unicode_len();
    if len < 23 {
        return Some(
            LogEntry {
                timestamp_ms: now_ms,
                level: LogLevel::Info,
                message: String::from_str(line),
                jail: None,
            },
        );
    }
    let rest: String = if len > 24 {
        String::from_str(line.substring_char(24, len))
    } else {
        String::new()
    };
    let ts: i64 = match parse_timestamp_ms(line) {
        Some(t) => t,
        None => now_ms,
    };
    let level = level_of(rest.as_str());
    let jail = jail_of(rest.as_str());
    Some(LogEntry { timestamp_ms: ts, level, message: rest, jail })
}

} // verus!
