//! The two record types the engine caches: banned addresses and log lines.
//!
//! Timestamps are UTC instants in milliseconds since the Unix epoch. A
//! banned-address record is immutable once fetched and is replaced
//! wholesale on each successful refresh; log records sit in a bounded
//! newest-first buffer.

use vstd::prelude::*;

verus! {

/// One banned address as reported by the daemon.
#[derive(Debug, Clone)]
pub struct BannedIP {
    /// The banned address.
    pub ip: String,
    /// Name of the jail that holds the ban.
    pub jail: String,
    /// When the ban was laid, in milliseconds since the Unix epoch (UTC).
    pub ban_time_ms: i64,
    /// When the ban lapses; absent for a permanent ban.
    pub unban_time_ms: Option<i64>,
    /// Free-text provenance of the record.
    pub reason: String,
}

/// Mathematical image of a [`BannedIP`].
pub ghost struct BannedIPView {
    pub ip: Seq<char>,
    pub jail: Seq<char>,
    pub ban_time_ms: int,
    pub unban_time_ms: Option<int>,
    pub reason: Seq<char>,
}

impl View for BannedIP {
    type V = BannedIPView;

    open spec fn view(&self) -> BannedIPView {
        BannedIPView {
            ip: self.ip@,
            jail: self.jail@,
            ban_time_ms: self.ban_time_ms as int,
            unban_time_ms: match self.unban_time_ms {
                Some(t) => Some(t as int),
                None => None,
            },
            reason: self.reason@,
        }
    }
}

impl BannedIP {
    /// Field-for-field copy.
    pub fn duplicate(&self) -> (r: Self)
        ensures
            r == *self,
    {
        BannedIP {
            ip: self.ip.clone(),
            jail: self.jail.clone(),
            ban_time_ms: self.ban_time_ms,
            unban_time_ms: self.unban_time_ms,
            reason: self.reason.clone(),
        }
    }
}

/// Severity of a log line, chosen by scanning its text for level keywords
/// in fixed priority order.
#[derive(Debug, Clone, Copy, PartialEq, Eq, Structural)]
pub enum LogLevel {
    Error,
    Warn,
    Notice,
    Info,
    Debug,
}

/// One parsed line of the daemon's log file.
#[derive(Debug, Clone)]
pub struct LogEntry {
    /// Timestamp of the line, in milliseconds since the Unix epoch (UTC);
    /// the wall-clock time of parsing when the line carried no readable
    /// timestamp.
    pub timestamp_ms: i64,
    /// Severity scanned from the line.
    pub level: LogLevel,
    /// The line's text after the timestamp.
    pub message: String,
    /// First bracketed group that looks like a jail name, if any.
    pub jail: Option<String>,
}

/// Mathematical image of a [`LogEntry`].
pub ghost struct LogEntryView {
    pub timestamp_ms: int,
    pub level: LogLevel,
    pub message: Seq<char>,
    pub jail: Option<Seq<char>>,
}

impl View for LogEntry {
    type V = LogEntryView;

    open spec fn view(&self) -> LogEntryView {
        LogEntryView {
            timestamp_ms: self.timestamp_ms as int,
            level: self.level,
            message: self.message@,
            jail: match self.jail {
                Some(ref j) => Some(j@),
                None => None,
            },
        }
    }
}

impl LogEntry {
    /// Field-for-field copy.
    pub fn duplicate(&self) -> (r: Self)
        ensures
            r == *self,
    {
        LogEntry {
            timestamp_ms: self.timestamp_ms,
            level: self.level,
            message: self.message.clone(),
            jail: match &self.jail {
                Some(j) => Some(j.clone()),
                None => None,
            },
        }
    }
}

} // verus!
