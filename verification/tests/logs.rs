//! Record parser, tailer and log-filter tests.

use f2b_buxjr::logfilter::{filter_log_entries, LogFilter};
use f2b_buxjr::logparse::{parse_log_line, parse_timestamp_ms};
use f2b_buxjr::monitor::LogMonitor;
use f2b_buxjr::records::{LogEntry, LogLevel};
use f2b_buxjr::state::AppState;

const NOW: i64 = 1_800_000_000_000;

fn entry(ts: i64, level: LogLevel, msg: &str, jail: Option<&str>) -> LogEntry {
    LogEntry {
        timestamp_ms: ts,
        level,
        message: msg.to_string(),
        jail: jail.map(|j| j.to_string()),
    }
}

#[test]
fn scenario_notice_ban_line() {
    let line = "2025-07-19 16:16:35,393 fail2ban.actions [12345]: NOTICE [sshd] Ban 192.168.1.100";
    let e = parse_log_line(line, NOW).expect("line parses");
    assert_eq!(e.level, LogLevel::Notice);
    assert_eq!(e.jail.as_deref(), Some("sshd"));
    assert_eq!(e.timestamp_ms, 1_752_941_795_393);
}

#[test]
fn timestamp_parses_exactly() {
    assert_eq!(parse_timestamp_ms("1970-01-01 00:00:00,000"), Some(0));
    assert_eq!(parse_timestamp_ms("1970-01-02 00:00:00,001"), Some(86_400_001));
    assert_eq!(parse_timestamp_ms("2025-07-19 16:16:35,393"), Some(1_752_941_795_393));
    // Leap day of a leap year.
    assert_eq!(parse_timestamp_ms("2024-02-29 00:00:00,000"), Some(1_709_164_800_000));
}

#[test]
fn timestamp_rejects_bad_fields() {
    assert_eq!(parse_timestamp_ms("2025-13-01 00:00:00,000"), None);
    assert_eq!(parse_timestamp_ms("2025-02-29 00:00:00,000"), None);
    assert_eq!(parse_timestamp_ms("2025-07-19 24:00:00,000"), None);
    assert_eq!(parse_timestamp_ms("2025-07-19T16:16:35,393"), None);
    assert_eq!(parse_timestamp_ms("not a timestamp at all!!"), None);
}

#[test]
fn blank_line_yields_no_record() {
    assert!(parse_log_line("", NOW).is_none());
    assert!(parse_log_line("   \t  ", NOW).is_none());
}

#[test]
fn short_line_degrades_to_wall_clock_info() {
    let e = parse_log_line("tiny line", NOW).expect("short line still parses");
    assert_eq!(e.timestamp_ms, NOW);
    assert_eq!(e.level, LogLevel::Info);
    assert_eq!(e.message, "tiny line");
    assert_eq!(e.jail, None);
}

#[test]
fn unreadable_timestamp_degrades_to_wall_clock() {
    let e = parse_log_line("2025-99-99 16:16:35,393 fail2ban.server: ERROR boom", NOW)
        .expect("line still parses");
    assert_eq!(e.timestamp_ms, NOW);
    assert_eq!(e.level, LogLevel::Error);
}

#[test]
fn level_priority_first_match_wins() {
    let mk = |tail: &str| {
        parse_log_line(&format!("2025-07-19 16:16:35,393 {}", tail), NOW).unwrap().level
    };
    assert_eq!(mk("DEBUG then ERROR later"), LogLevel::Error);
    assert_eq!(mk("WARNING and DEBUG"), LogLevel::Warn);
    assert_eq!(mk("WARN short form"), LogLevel::Warn);
    assert_eq!(mk("NOTICE with INFO"), LogLevel::Notice);
    assert_eq!(mk("INFO only"), LogLevel::Info);
    assert_eq!(mk("DEBUG only"), LogLevel::Debug);
    assert_eq!(mk("no keyword at all"), LogLevel::Info);
}

#[test]
fn jail_brackets_skip_pids_and_single_chars() {
    let mk = |tail: &str| {
        parse_log_line(&format!("2025-07-19 16:16:35,393 {}", tail), NOW).unwrap().jail
    };
    assert_eq!(mk("svc [123]: NOTICE [sshd] x").as_deref(), Some("sshd"));
    assert_eq!(mk("svc [123]: NOTICE x"), None);
    assert_eq!(mk("svc [a]: NOTICE x"), None);
    assert_eq!(mk("svc [nginx-http] x").as_deref(), Some("nginx-http"));
    assert_eq!(mk("no brackets here"), None);
    assert_eq!(mk("open [bracket without close"), None);
}

#[test]
fn parse_message_parts_splits_the_tail() {
    let m = LogMonitor::new("/tmp/f2b-test.log");
    let (level, message, jail) =
        m.parse_message_parts("fail2ban.actions [12345]: NOTICE [sshd] Ban 1.2.3.4");
    assert_eq!(level, LogLevel::Notice);
    assert_eq!(message, "fail2ban.actions [12345]: NOTICE [sshd] Ban 1.2.3.4");
    assert_eq!(jail.as_deref(), Some("sshd"));
}

#[test]
fn unmodified_file_is_not_read() {
    let m = LogMonitor::new("/tmp/f2b-test.log");
    assert_eq!(m.last_position, 0);
    assert!(!m.should_read(0));
    assert!(m.should_read(1));
}

#[test]
fn tailing_k_lines_returns_k_records_newest_first() {
    let mut m = LogMonitor::new("/tmp/f2b-test.log");
    let lines = vec![
        "2025-07-19 10:00:00,000 fail2ban.server: INFO one".to_string(),
        "2025-07-19 11:00:00,000 fail2ban.server: INFO two".to_string(),
        "2025-07-19 12:00:00,000 fail2ban.server: INFO three".to_string(),
    ];
    let got = m.ingest_tail(&lines, 5_000, NOW);
    assert_eq!(got.len(), 3);
    assert!(got[0].timestamp_ms >= got[1].timestamp_ms);
    assert!(got[1].timestamp_ms >= got[2].timestamp_ms);
    assert!(got[0].message.contains("three"));
    assert!(got[2].message.contains("one"));
    let consumed: u64 = lines.iter().map(|l| l.len() as u64 + 1).sum();
    assert_eq!(m.last_position, consumed);
    assert_eq!(m.last_modified_ms, 5_000);
    // Unmodified since: nothing due.
    assert!(!m.should_read(5_000));
}

#[test]
fn blank_lines_do_not_become_records() {
    let mut m = LogMonitor::new("/tmp/f2b-test.log");
    let lines = vec![
        "2025-07-19 10:00:00,000 fail2ban.server: INFO one".to_string(),
        "".to_string(),
        "   ".to_string(),
    ];
    let got = m.ingest_tail(&lines, 5_000, NOW);
    assert_eq!(got.len(), 1);
}

#[test]
fn initial_load_keeps_only_the_last_n_lines() {
    let mut m = LogMonitor::new("/tmp/f2b-test.log");
    let lines: Vec<String> = (0..5)
        .map(|i| format!("2025-07-19 10:0{}:00,000 fail2ban.server: INFO line{}", i, i))
        .collect();
    let got = m.ingest_recent(&lines, 3, 999, 7_000, NOW);
    assert_eq!(got.len(), 3);
    assert!(got[0].message.contains("line4"));
    assert!(got[2].message.contains("line2"));
    assert_eq!(m.last_position, 999);
    assert_eq!(m.last_modified_ms, 7_000);
}

#[test]
fn rotation_resets_the_offset() {
    let mut m = LogMonitor::new("/tmp/f2b-test.log");
    let lines = vec!["2025-07-19 10:00:00,000 fail2ban.server: INFO one".to_string()];
    let _ = m.ingest_tail(&lines, 5_000, NOW);
    assert!(m.last_position > 0);
    // The file grew: the offset stands.
    m.note_file_size(m.last_position + 100);
    assert!(m.last_position > 0);
    // The file shrank below the offset: it was rotated, read from the start.
    m.note_file_size(m.last_position - 1);
    assert_eq!(m.last_position, 0);
}

#[test]
fn log_path_prefers_existing_candidates() {
    assert_eq!(LogMonitor::get_fail2ban_log_path(true, true, true), "/var/log/fail2ban.log");
    assert_eq!(
        LogMonitor::get_fail2ban_log_path(false, true, true),
        "/var/log/fail2ban/fail2ban.log"
    );
    assert_eq!(
        LogMonitor::get_fail2ban_log_path(false, false, true),
        "/usr/local/var/log/fail2ban.log"
    );
    assert_eq!(LogMonitor::get_fail2ban_log_path(false, false, false), "/var/log/fail2ban.log");
}

#[test]
fn log_buffer_merges_sorts_and_truncates() {
    let mut st = AppState::new();
    let mut newer = Vec::new();
    for i in 0..1_005 {
        newer.push(entry(i as i64, LogLevel::Info, &format!("m{}", i), None));
    }
    st.update_log_entries(&newer, NOW);
    assert_eq!(st.log_entries.len(), 1_000);
    // Newest first, oldest dropped.
    assert_eq!(st.log_entries[0].timestamp_ms, 1_004);
    assert_eq!(st.log_entries[999].timestamp_ms, 5);
    // An empty batch changes nothing.
    let before = st.log_entries.len();
    st.update_log_entries(&Vec::new(), NOW);
    assert_eq!(st.log_entries.len(), before);
}

#[test]
fn log_filter_level_and_jail() {
    let entries = vec![
        entry(10, LogLevel::Error, "broken", Some("sshd")),
        entry(9, LogLevel::Notice, "Ban 1.2.3.4", Some("sshd")),
        entry(8, LogLevel::Notice, "Unban 1.2.3.4", Some("nginx")),
        entry(7, LogLevel::Info, "startup", None),
    ];
    let mut f = LogFilter::default();
    f.level = Some(LogLevel::Notice);
    let got = filter_log_entries(&entries, &f, "", 100);
    assert_eq!(got.len(), 2);
    let mut f2 = LogFilter::default();
    f2.jail = Some("none".to_string());
    let got2 = filter_log_entries(&entries, &f2, "", 100);
    assert_eq!(got2.len(), 1);
    assert_eq!(got2[0].message, "startup");
    let mut f3 = LogFilter::default();
    f3.jail = Some("sshd".to_string());
    let got3 = filter_log_entries(&entries, &f3, "", 100);
    assert_eq!(got3.len(), 2);
}

#[test]
fn log_filter_ban_and_unban_events() {
    let entries = vec![
        entry(10, LogLevel::Notice, "Ban 1.2.3.4", Some("sshd")),
        entry(9, LogLevel::Notice, "Unban 1.2.3.4", Some("sshd")),
        entry(8, LogLevel::Info, "no events", None),
    ];
    let mut bans = LogFilter::default();
    bans.show_only_bans = true;
    let got = filter_log_entries(&entries, &bans, "", 100);
    assert_eq!(got.len(), 1);
    assert_eq!(got[0].message, "Ban 1.2.3.4");
    let mut unbans = LogFilter::default();
    unbans.show_only_unbans = true;
    let got2 = filter_log_entries(&entries, &unbans, "", 100);
    assert_eq!(got2.len(), 1);
    assert_eq!(got2[0].message, "Unban 1.2.3.4");
}

#[test]
fn log_filter_time_range_and_query() {
    let hour = 3_600_000;
    let now = 100 * hour;
    let entries = vec![
        entry(now - hour / 2, LogLevel::Info, "recent NGINX reload", Some("nginx")),
        entry(now - 50 * hour, LogLevel::Info, "old line", None),
    ];
    let mut f = LogFilter::default();
    f.time_range_hours = Some(24);
    let got = filter_log_entries(&entries, &f, "", now);
    assert_eq!(got.len(), 1);
    assert_eq!(got[0].message, "recent NGINX reload");
    // The query folds ASCII case and also matches the level name.
    let open = LogFilter::default();
    let q = filter_log_entries(&entries, &open, "nginx", now);
    assert_eq!(q.len(), 1);
    let q2 = filter_log_entries(&entries, &open, "info", now);
    assert_eq!(q2.len(), 2);
    let q3 = filter_log_entries(&entries, &open, "nothing-matches", now);
    assert_eq!(q3.len(), 0);
}

#[test]
fn log_filter_toggles_are_mutually_exclusive() {
    let mut f = LogFilter::default();
    f.toggle_bans_only();
    assert!(f.show_only_bans);
    f.toggle_unbans_only();
    assert!(f.show_only_unbans && !f.show_only_bans);
    f.toggle_bans_only();
    assert!(f.show_only_bans && !f.show_only_unbans);
    f.cycle_level();
    assert_eq!(f.level, Some(LogLevel::Error));
    f.cycle_time_range();
    assert_eq!(f.time_range_hours, Some(1));
}

#[test]
fn update_filtered_logs_follows_the_buffer() {
    let mut st = AppState::new();
    let batch = vec![
        entry(10, LogLevel::Error, "bad", None),
        entry(9, LogLevel::Info, "fine", None),
    ];
    st.update_log_entries(&batch, NOW);
    assert_eq!(st.filtered_log_entries.len(), 2);
    st.log_filter.level = Some(LogLevel::Error);
    st.update_filtered_logs(NOW);
    assert_eq!(st.filtered_log_entries.len(), 1);
    assert_eq!(st.filtered_log_entries[0].message, "bad");
}
