//! Filtering of the log buffer for display: by level, jail, ban/unban
//! events, time range, and a free-text search query.

use vstd::prelude::*;

use crate::records::{LogEntry, LogEntryView, LogLevel};
use crate::text::{chars_cmp, has_substring_ci, lemma_chars_cmp_eq, str_cmp, contains_sub_ci};

verus! {

/// Display filter over the log buffer. All axes are optional; the active
/// ones are conjoined.
#[derive(Debug, Clone)]
pub struct LogFilter {
    /// Keep only entries of exactly this level.
    pub level: Option<LogLevel>,
    /// Keep only entries of this jail; the name `none` keeps entries
    /// without a jail.
    pub jail: Option<String>,
    /// Keep only ban events.
    pub show_only_bans: bool,
    /// Keep only unban events.
    pub show_only_unbans: bool,
    /// Keep only entries at most this many hours old.
    pub time_range_hours: Option<u32>,
}

/// Mathematical image of a [`LogFilter`].
pub ghost struct LogFilterView {
    pub level: Option<LogLevel>,
    pub jail: Option<Seq<char>>,
    pub show_only_bans: bool,
    pub show_only_unbans: bool,
    pub time_range_hours: Option<int>,
}

impl View for LogFilter {
    type V = LogFilterView;

    open spec fn view(&self) -> LogFilterView {
        LogFilterView {
            level: self.level,
            jail: match self.jail {
                Some(ref j) => Some(j@),
                None => None,
            },
            show_only_bans: self.show_only_bans,
            show_only_unbans: self.show_only_unbans,
            time_range_hours: match self.time_range_hours {
                Some(h) => Some(h as int),
                None => None,
            },
        }
    }
}

/// The log filter defaults to fully open: no axis active.
impl Default for LogFilter {
    fn default() -> (r: Self)
        ensures
            r@.level is None,
            r@.jail is None,
            !r@.show_only_bans,
            !r@.show_only_unbans,
            r@.time_range_hours is None,
    {
        LogFilter {
            level: None,
            jail: None,
            show_only_bans: false,
            show_only_unbans: false,
            time_range_hours: None,
        }
    }
}

/// Display name of a level, as it appears in search matching.
pub open spec fn spec_level_name(l: LogLevel) -> Seq<char> {
    match l {
        LogLevel::Error => "ERROR"@,
        LogLevel::Warn => "WARN"@,
        LogLevel::Notice => "NOTICE"@,
        LogLevel::Info => "INFO"@,
        LogLevel::Debug => "DEBUG"@,
    }
}

impl LogLevel {
    /// Display name of the level.
    pub fn name(&self) -> (r: &'static str)
        ensures
            r@ == spec_level_name(*self),
    {
        match self {
            LogLevel::Error => "ERROR",
            LogLevel::Warn => "WARN",
            LogLevel::Notice => "NOTICE",
            LogLevel::Info => "INFO",
            LogLevel::Debug => "DEBUG",
        }
    }
}

/// Whether one log entry passes the filter and search query at instant
/// `now_ms`. An entry is a ban event when its text holds `ban ` but not
/// `unban`; an unban event when it holds `unban` (ASCII case ignored).
/// A non-empty query must occur in the message, the jail name or the
/// level name, ASCII case ignored.
pub open spec fn log_matches(
    e: LogEntryView,
    f: LogFilterView,
    query: Seq<char>,
    now_ms: int,
) -> bool {
    &&& match f.time_range_hours {
        Some(h) => e.timestamp_ms >= now_ms - h * 3_600_000,
        None => true,
    }
    &&& match f.level {
        Some(lv) => e.level == lv,
        None => true,
    }
    &&& match f.jail {
        Some(j) => e.jail == Some(j) || (e.jail is None && j == "none"@),
        None => true,
    }
    &&& (f.show_only_bans ==> has_substring_ci(e.message, "ban "@) && !has_substring_ci(
        e.message,
        "unban"@,
    ))
    &&& (f.show_only_unbans ==> has_substring_ci(e.message, "unban"@))
    &&& (query.len() > 0 ==> has_substring_ci(e.message, query) || (match e.jail {
        Some(j) => has_substring_ci(j, query),
        None => false,
    }) || has_substring_ci(spec_level_name(e.level), query))
}

/// The subsequence of entries that pass the filter and query, in order.
pub open spec fn filtered_logs(
    s: Seq<LogEntryView>,
    f: LogFilterView,
    query: Seq<char>,
    now_ms: int,
) -> Seq<LogEntryView>
    decreases s.len(),
{
    if s.len() == 0 {
        Seq::empty()
    } else {
        let rest = filtered_logs(s.drop_last(), f, query, now_ms);
        if log_matches(s.last(), f, query, now_ms) {
            rest.push(s.last())
        } else {
            rest
        }
    }
}

/// Filtering never grows the buffer.
pub proof fn lemma_filtered_logs_len(
    s: Seq<LogEntryView>,
    f: LogFilterView,
    query: Seq<char>,
    now_ms: int,
)
    ensures
        filtered_logs(s, f, query, now_ms).len() <= s.len(),
    decreases s.len(),
{
    if s.len() > 0 {
        lemma_filtered_logs_len(s.drop_last(), f, query, now_ms);
    }
}

/// Whether one entry passes the filter and query at instant `now_ms`.
pub fn log_entry_matches(e: &LogEntry, f: &LogFilter, query: &str, now_ms: i64) -> (r: bool)
    ensures
        r == log_matches(e@, f@, query@, now_ms as int),
{
    let time_ok = match f.time_range_hours {
        Some(h) => {
            let cutoff: i128 = now_ms as i128 - (h as i128) * 3_600_000;
            e.timestamp_ms as i128 >= cutoff
        },
        None => true,
    };
    if !time_ok {
        return false;
    }
    let level_ok = match f.level {
        Some(lv) => e.level == lv,
        None => true,
    };
    if !level_ok {
        return false;
    }
    let jail_ok = match &f.jail {
        Some(j) => {
            match &e.jail {
                Some(ej) => {
                    let same = str_cmp(ej.as_str(), j.as_str()) == 0;
                    proof {
                        lemma_chars_cmp_eq(ej@, j@);
                    }
                    same
                },
                None => {
                    let is_none_name = str_cmp(j.as_str(), "none") == 0;
                    proof {
                        lemma_chars_cmp_eq(j@, "none"@);
                    }
                    is_none_name
                },
            }
        },
        None => true,
    };
    if !jail_ok {
        return false;
    }
    if f.show_only_bans {
        if !contains_sub_ci(e.message.as_str(), "ban ") || contains_sub_ci(
            e.message.as_str(),
            "unban",
        ) {
            return false;
        }
    }
    if f.show_only_unbans {
        if !contains_sub_ci(e.message.as_str(), "unban") {
            return false;
        }
    }
    if query.unicode_len() > 0 {
        let msg_hit = contains_sub_ci(e.message.as_str(), query);
        let jail_hit = match &e.jail {
            Some(j) => contains_sub_ci(j.as_str(), query),
            None => false,
        };
        let level_hit = contains_sub_ci(e.level.name(), query);
        if !msg_hit && !jail_hit && !level_hit {
            return false;
        }
    }
    true
}

/// Builds the filtered view of the log buffer at instant `now_ms`.
pub fn filter_log_entries(entries: &Vec<LogEntry>, f: &LogFilter, query: &str, now_ms: i64) -> (out:
    Vec<LogEntry>)
    ensures
        crate::sorting::log_views(out@) =~= filtered_logs(
            crate::sorting::log_views(entries@),
            f@,
            query@,
            now_ms as int,
        ),
{
    let mut out: Vec<LogEntry> = Vec::new();
    let mut i: usize = 0;
    proof {
        assert(crate::sorting::log_views(entries@).take(0) =~= Seq::<LogEntryView>::empty());
        assert(crate::sorting::log_views(out@) =~= Seq::<LogEntryView>::empty());
    }
    while i < entries.len()
        invariant
            i <= entries@.len(),
            crate::sorting::log_views(out@) =~= filtered_logs(
                crate::sorting::log_views(entries@).take(i as int),
                f@,
                query@,
                now_ms as int,
            ),
        decreases entries@.len() - i,
    {
        let ghost pre = crate::sorting::log_views(entries@).take(i as int);
        let ghost cur = crate::sorting::log_views(entries@).take(i as int + 1);
        proof {
            assert(cur.drop_last() =~= pre);
            assert(cur.last() == entries@[i as int]@);
        }
        if log_entry_matches(&entries[i], f, query, now_ms) {
            out.push(entries[i].duplicate());
            proof {
                assert(crate::sorting::log_views(out@) =~= filtered_logs(
                    pre,
                    f@,
                    query@,
                    now_ms as int,
                ).push(entries@[i as int]@));
            }
        }
        i = i + 1;
    }
    proof {
        assert(crate::sorting::log_views(entries@).take(entries@.len() as int)
            =~= crate::sorting::log_views(entries@));
    }
    out
}

impl LogFilter {
    /// Steps the level axis through every level and back to unset.
    pub fn cycle_level(&mut self)
        ensures
            final(self)@.level == (match old(self)@.level {
                None => Some(LogLevel::Error),
                Some(LogLevel::Error) => Some(LogLevel::Warn),
                Some(LogLevel::Warn) => Some(LogLevel::Notice),
                Some(LogLevel::Notice) => Some(LogLevel::Info),
                Some(LogLevel::Info) => Some(LogLevel::Debug),
                Some(LogLevel::Debug) => None::<LogLevel>,
            }),
            final(self)@.jail == old(self)@.jail,
            final(self)@.show_only_bans == old(self)@.show_only_bans,
            final(self)@.show_only_unbans == old(self)@.show_only_unbans,
            final(self)@.time_range_hours == old(self)@.time_range_hours,
    {
        self.level = match self.level {
            None => Some(LogLevel::Error),
            Some(LogLevel::Error) => Some(LogLevel::Warn),
            Some(LogLevel::Warn) => Some(LogLevel::Notice),
            Some(LogLevel::Notice) => Some(LogLevel::Info),
            Some(LogLevel::Info) => Some(LogLevel::Debug),
            Some(LogLevel::Debug) => None,
        };
    }

    /// Steps the time-range axis through 1, 6, 24 and 168 hours and back
    /// to unset.
    pub fn cycle_time_range(&mut self)
        ensures
            final(self)@.time_range_hours == (if old(self)@.time_range_hours is None {
                Some(1int)
            } else if old(self)@.time_range_hours == Some(1int) {
                Some(6int)
            } else if old(self)@.time_range_hours == Some(6int) {
                Some(24int)
            } else if old(self)@.time_range_hours == Some(24int) {
                Some(168int)
            } else {
                None::<int>
            }),
            final(self)@.level == old(self)@.level,
            final(self)@.jail == old(self)@.jail,
            final(self)@.show_only_bans == old(self)@.show_only_bans,
            final(self)@.show_only_unbans == old(self)@.show_only_unbans,
    {
        self.time_range_hours = match self.time_range_hours {
            None => Some(1),
            Some(1) => Some(6),
            Some(6) => Some(24),
            Some(24) => Some(168),
            _ => None,
        };
    }

    /// Toggles the bans-only axis; setting it clears the unbans-only axis.
    pub fn toggle_bans_only(&mut self)
        ensures
            final(self)@.show_only_bans == !old(self)@.show_only_bans,
            final(self)@.show_only_unbans == (old(self)@.show_only_bans
                && old(self)@.show_only_unbans),
            final(self)@.level == old(self)@.level,
            final(self)@.jail == old(self)@.jail,
            final(self)@.time_range_hours == old(self)@.time_range_hours,
    {
        self.show_only_bans = !self.show_only_bans;
        if self.show_only_bans {
            self.show_only_unbans = false;
        }
    }

    /// Toggles the unbans-only axis; setting it clears the bans-only axis.
    pub fn toggle_unbans_only(&mut self)
        ensures
            final(self)@.show_only_unbans == !old(self)@.show_only_unbans,
            final(self)@.show_only_bans == (old(self)@.show_only_unbans
                && old(self)@.show_only_bans),
            final(self)@.level == old(self)@.level,
            final(self)@.jail == old(self)@.jail,
            final(self)@.time_range_hours == old(self)@.time_range_hours,
    {
        self.show_only_unbans = !self.show_only_unbans;
        if self.show_only_unbans {
            self.show_only_bans = false;
        }
    }
}

} // verus!
