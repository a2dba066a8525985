//! Configuration-text, model and helper tests.

use f2b_buxjr::client::Fail2banClient;
use f2b_buxjr::client::parse_bantime_ms;
use f2b_buxjr::ini::{join_lines, parse_i32, split_lines, trim};
use f2b_buxjr::model::{
    classify_privileges, DashboardFocus, LoadingModalState, OperationType, PrivilegeStatus, Screen,
    ServiceStatus, SystemService,
};

const SAMPLE: &str = "# main configuration\n\
[DEFAULT]\n\
bantime = 10m\n\
\n\
[sshd]\n\
enabled = True\n\
port = ssh\n\
maxretry = 7\n\
bantime = 1d\n\
\n\
[nginx-http]\n\
filter = nginx-http\n\
logpath = /var/log/nginx/error.log\n";

#[test]
fn parse_jail_configs_reads_sections() {
    let c = Fail2banClient::new();
    let jails = c.parse_jail_configs(SAMPLE).expect("parsing never fails");
    assert_eq!(jails.len(), 2);
    assert_eq!(jails[0].name, "sshd");
    assert!(jails[0].enabled);
    assert_eq!(jails[0].port, "ssh");
    assert_eq!(jails[0].max_retry, 7);
    assert_eq!(jails[0].ban_time, "1d");
    // Untouched fields keep their defaults.
    assert_eq!(jails[0].find_time, "10m");
    assert_eq!(jails[1].name, "nginx-http");
    assert!(!jails[1].enabled);
    assert_eq!(jails[1].filter, "nginx-http");
    assert_eq!(jails[1].log_path, "/var/log/nginx/error.log");
    assert_eq!(jails[1].max_retry, 5);
}

#[test]
fn parse_jail_configs_skips_reserved_and_malformed() {
    let c = Fail2banClient::new();
    let text = "[DEFAULT]\nenabled = true\n[Definition]\nx = y\n[INCLUDES]\nbefore = z\n";
    let jails = c.parse_jail_configs(text).unwrap();
    assert_eq!(jails.len(), 0);
    let text2 = "[a-jail]\nthis line has no assignment\nmaxretry = not-a-number\n";
    let jails2 = c.parse_jail_configs(text2).unwrap();
    assert_eq!(jails2.len(), 1);
    assert_eq!(jails2[0].max_retry, 5);
}

#[test]
fn update_enabled_replaces_existing_line() {
    let c = Fail2banClient::new();
    let out = c.update_jail_enabled_in_config(SAMPLE, "sshd", false).unwrap();
    assert!(out.contains("[sshd]"));
    assert!(out.contains("enabled = false"));
    assert!(!out.contains("enabled = True"));
    // The other sections are untouched.
    assert!(out.contains("[nginx-http]"));
    assert!(out.contains("filter = nginx-http"));
}

#[test]
fn update_enabled_inserts_when_missing() {
    let c = Fail2banClient::new();
    let out = c.update_jail_enabled_in_config(SAMPLE, "nginx-http", true).unwrap();
    let lines: Vec<&str> = out.lines().collect();
    let h = lines.iter().position(|l| l.trim() == "[nginx-http]").unwrap();
    assert_eq!(lines[h + 1], "enabled = true");
}

#[test]
fn update_enabled_leaves_unknown_jail_alone() {
    let c = Fail2banClient::new();
    let out = c.update_jail_enabled_in_config(SAMPLE, "no-such-jail", true).unwrap();
    assert!(!out.contains("no-such-jail"));
    assert!(out.contains("enabled = True"));
}

#[test]
fn split_and_join_lines_round_trip() {
    let lines = split_lines("a\nb\n\nc");
    assert_eq!(lines, vec!["a", "b", "", "c"]);
    assert_eq!(join_lines(&lines), "a\nb\n\nc");
    assert_eq!(split_lines("").len(), 0);
    assert_eq!(split_lines("x\n"), vec!["x"]);
}

#[test]
fn trim_strips_ascii_whitespace() {
    assert_eq!(trim("  hello \t"), "hello");
    assert_eq!(trim("\r\n"), "");
    assert_eq!(trim("solid"), "solid");
}

#[test]
fn parse_i32_accepts_and_rejects() {
    assert_eq!(parse_i32("42"), Some(42));
    assert_eq!(parse_i32("-7"), Some(-7));
    assert_eq!(parse_i32("+10"), Some(10));
    assert_eq!(parse_i32("2147483647"), Some(i32::MAX));
    assert_eq!(parse_i32("-2147483648"), Some(i32::MIN));
    assert_eq!(parse_i32("2147483648"), None);
    assert_eq!(parse_i32("-2147483649"), None);
    assert_eq!(parse_i32(""), None);
    assert_eq!(parse_i32("-"), None);
    assert_eq!(parse_i32("12a"), None);
    assert_eq!(parse_i32("99999999999999999999"), None);
}

#[test]
fn bantime_formats() {
    assert_eq!(parse_bantime_ms("1h"), Some(3_600_000));
    assert_eq!(parse_bantime_ms("2d"), Some(172_800_000));
    assert_eq!(parse_bantime_ms("30m"), Some(1_800_000));
    assert_eq!(parse_bantime_ms("3600"), Some(3_600_000));
    assert_eq!(parse_bantime_ms(" 10m "), Some(600_000));
    assert_eq!(parse_bantime_ms("soon"), None);
    assert_eq!(parse_bantime_ms(""), None);
    assert_eq!(parse_bantime_ms("h"), None);
}

#[test]
fn screen_titles() {
    assert_eq!(Screen::Dashboard.title(), "Dashboard");
    assert_eq!(Screen::JailEditor.title(), "Jail Editor");
    assert_eq!(Screen::Logs.title(), "Logs");
}

#[test]
fn service_status_symbols() {
    assert_eq!(ServiceStatus::Running.symbol(), "●");
    assert_eq!(ServiceStatus::Stopped.symbol(), "○");
    assert_eq!(ServiceStatus::Failed.symbol(), "✖");
    assert_eq!(ServiceStatus::Unknown.symbol(), "?");
    assert!(ServiceStatus::Running.is_running());
    assert!(!ServiceStatus::Stopped.is_running());
}

#[test]
fn unit_state_words() {
    assert_eq!(SystemService::status_of_word("active"), ServiceStatus::Running);
    assert_eq!(SystemService::status_of_word("inactive"), ServiceStatus::Stopped);
    assert_eq!(SystemService::status_of_word("failed"), ServiceStatus::Failed);
    assert_eq!(SystemService::status_of_word("activating"), ServiceStatus::Unknown);
    let s = SystemService::new("fail2ban");
    assert_eq!(s.service_name, "fail2ban");
}

#[test]
fn privilege_classification() {
    assert_eq!(classify_privileges(true, false, false), PrivilegeStatus::Root);
    assert_eq!(classify_privileges(false, true, false), PrivilegeStatus::Root);
    assert_eq!(classify_privileges(false, false, true), PrivilegeStatus::Sudo);
    assert_eq!(classify_privileges(false, false, false), PrivilegeStatus::User);
}

#[test]
fn operation_metadata() {
    assert_eq!(OperationType::ServiceRestart.display_name(), "Restarting fail2ban service");
    assert_eq!(OperationType::ServiceRestart.estimated_duration(), 5_000);
    assert_eq!(OperationType::IpBan.estimated_duration(), 300);
    assert_eq!(OperationType::LogRefresh.estimated_duration(), 500);
}

#[test]
fn loading_modal_dots_cycle() {
    let mut m = LoadingModalState::new("Loading".to_string(), "please wait".to_string(), 1_000);
    assert_eq!(m.animated_dots, "");
    m.update_animated_dots(1_000 + 1_600);
    assert_eq!(m.animated_dots, "...");
    m.update_animated_dots(1_000 + 2_100);
    assert_eq!(m.animated_dots, "");
    m.update_animated_dots(1_000 + 700);
    assert_eq!(m.animated_dots, ".");
    let m2 = m.with_progress(60);
    assert_eq!(m2.progress, Some(60));
    let mut m3 = m2;
    m3.update_message("almost there".to_string());
    assert_eq!(m3.message, "almost there");
}

#[test]
fn dashboard_focus_default() {
    assert_eq!(DashboardFocus::default(), DashboardFocus::Jails);
}
