//! Scheduler, loader, filtered-view cache, pagination and tier tests.

use f2b_buxjr::filter::BannedIpFilter;
use f2b_buxjr::model::ServiceStatus;
use f2b_buxjr::pagination::BannedIpPagination;
use f2b_buxjr::records::BannedIP;
use f2b_buxjr::sorting::sort_banned;
use f2b_buxjr::state::{AppState, BannedStep};
use f2b_buxjr::tier::{classify, interval_ms, suppressed, Category, DatasetTier};

fn rec(ip: &str, jail: &str, ban: i64, unban: Option<i64>) -> BannedIP {
    BannedIP {
        ip: ip.to_string(),
        jail: jail.to_string(),
        ban_time_ms: ban,
        unban_time_ms: unban,
        reason: "test".to_string(),
    }
}

fn many_recs(n: usize) -> Vec<BannedIP> {
    let mut v = Vec::new();
    for i in 0..n {
        v.push(rec(&format!("10.0.{}.{}", i / 256, i % 256), "sshd", 1_000, None));
    }
    v
}

#[test]
fn tier_boundaries() {
    assert_eq!(classify(0), DatasetTier::Normal);
    assert_eq!(classify(10_000), DatasetTier::Normal);
    assert_eq!(classify(10_001), DatasetTier::Large);
    assert_eq!(classify(15_000), DatasetTier::Large);
    assert_eq!(classify(15_001), DatasetTier::Massive);
}

#[test]
fn interval_table_switches_at_boundaries() {
    let banned = Category::BannedAddresses;
    assert_eq!(interval_ms(classify(10_000), banned), 30_000);
    assert_eq!(interval_ms(classify(10_001), banned), 60_000);
    assert_eq!(interval_ms(classify(15_000), banned), 60_000);
    assert_eq!(interval_ms(classify(15_001), banned), 120_000);
    let svc = Category::ServiceStatus;
    assert_eq!(interval_ms(classify(10_000), svc), 10_000);
    assert_eq!(interval_ms(classify(10_001), svc), 60_000);
    assert_eq!(interval_ms(classify(15_001), svc), 300_000);
    let logs = Category::Logs;
    assert_eq!(interval_ms(classify(10_000), logs), 10_000);
    assert_eq!(interval_ms(classify(15_000), logs), 30_000);
    assert_eq!(interval_ms(classify(15_001), logs), 30_000);
    assert!(!suppressed(DatasetTier::Large, Category::ServiceStatus));
    assert!(suppressed(DatasetTier::Massive, Category::ServiceStatus));
    assert!(suppressed(DatasetTier::Massive, Category::JailList));
    assert!(suppressed(DatasetTier::Massive, Category::Logs));
    assert!(!suppressed(DatasetTier::Massive, Category::BannedAddresses));
}

#[test]
fn pagination_defaults_and_pages() {
    let mut p = BannedIpPagination::default();
    assert_eq!(p.page_size, 100);
    assert_eq!(p.total_pages(), 1);
    p.update_total_items(250);
    assert_eq!(p.total_pages(), 3);
    assert!(p.next_page());
    assert!(p.next_page());
    assert_eq!(p.current_page, 2);
    assert_eq!(p.start_index(), 200);
    assert_eq!(p.end_index(), 250);
    assert!(!p.next_page());
    assert_eq!(p.current_page, 2);
}

#[test]
fn pagination_window_nonempty_when_items_exist() {
    let mut p = BannedIpPagination::default();
    p.update_total_items(5);
    assert!(p.total_pages() >= 1);
    assert!(p.start_index() < p.end_index());
    p.update_total_items(0);
    assert_eq!(p.total_pages(), 1);
    assert_eq!(p.start_index(), 0);
    assert_eq!(p.end_index(), 0);
}

#[test]
fn pagination_reclamps_current_page() {
    let mut p = BannedIpPagination::default();
    p.update_total_items(1_000);
    p.go_to_last_page();
    assert_eq!(p.current_page, 9);
    p.update_total_items(100);
    assert!(p.current_page < p.total_pages());
    assert_eq!(p.current_page, 0);
    p.update_total_items(0);
    assert!(p.current_page < p.total_pages());
}

#[test]
fn pagination_prev_and_jumps() {
    let mut p = BannedIpPagination::default();
    p.update_total_items(300);
    assert!(!p.prev_page());
    p.go_to_last_page();
    assert_eq!(p.current_page, 2);
    assert!(p.prev_page());
    assert_eq!(p.current_page, 1);
    p.go_to_first_page();
    assert_eq!(p.current_page, 0);
}

#[test]
fn filter_first_digit_scenario() {
    let mut st = AppState::new();
    st.banned_ips = vec![
        rec("1.1.1.1", "sshd", 0, None),
        rec("2.2.2.2", "sshd", 0, None),
        rec("1.2.3.4", "sshd", 0, None),
        rec("9.9.9.9", "sshd", 0, None),
        rec("1.9.9.9", "sshd", 0, None),
    ];
    st.banned_ip_filter.cycle_ip_digit_filter();
    assert_eq!(st.banned_ip_filter.ip_starting_digit(), Some('1'));
    let got = st.get_filtered_banned_ips(0);
    let ips: Vec<&str> = got.iter().map(|r| r.ip.as_str()).collect();
    assert_eq!(ips, vec!["1.1.1.1", "1.2.3.4", "1.9.9.9"]);
}

#[test]
fn filtered_never_larger_than_raw() {
    let mut st = AppState::new();
    st.banned_ips = many_recs(50);
    st.banned_ip_filter.cycle_ip_digit_filter();
    let raw_len = st.banned_ips.len();
    let got_len = st.get_filtered_banned_ips(0).len();
    assert!(got_len <= raw_len);
}

#[test]
fn unchanged_version_rebuilds_nothing() {
    let mut st = AppState::new();
    st.banned_ips = many_recs(10);
    st.banned_ip_filter.cycle_ip_digit_filter();
    assert_eq!(st.rebuild_count, 0);
    let _ = st.get_filtered_banned_ips(0);
    assert_eq!(st.rebuild_count, 1);
    let _ = st.get_filtered_banned_ips(5_000);
    assert_eq!(st.rebuild_count, 1);
    st.banned_ip_filter.cycle_ip_digit_filter();
    let _ = st.get_filtered_banned_ips(10_000);
    assert_eq!(st.rebuild_count, 2);
}

#[test]
fn massive_unfiltered_read_bypasses_cache() {
    let mut st = AppState::new();
    st.banned_ips = many_recs(20_000);
    assert!(!st.banned_ip_filter.has_active_filters());
    let before = st.rebuild_count;
    let len = st.get_filtered_banned_ips(0).len();
    assert_eq!(len, 20_000);
    assert_eq!(st.rebuild_count, before);
    assert!(!st.filter_cache_built);
    assert_eq!(st.cached_filtered_ips.len(), 0);
}

#[test]
fn remaining_time_buckets() {
    let now: i64 = 1_000_000_000;
    let hour = 3_600_000;
    let mut st = AppState::new();
    st.banned_ips = vec![
        rec("1.1.1.1", "sshd", 0, Some(now + hour / 2)),
        rec("2.2.2.2", "sshd", 0, Some(now + 12 * hour)),
        rec("3.3.3.3", "sshd", 0, Some(now + 100 * hour)),
        rec("4.4.4.4", "sshd", 0, None),
    ];
    st.banned_ip_filter.cycle_remaining_time_filter(); // Soon
    let soon: Vec<String> = st.get_filtered_banned_ips(now).iter().map(|r| r.ip.clone()).collect();
    assert_eq!(soon, vec!["1.1.1.1"]);
    st.banned_ip_filter.cycle_remaining_time_filter(); // Today
    let today: Vec<String> = st.get_filtered_banned_ips(now).iter().map(|r| r.ip.clone()).collect();
    assert_eq!(today, vec!["1.1.1.1", "2.2.2.2"]);
    st.banned_ip_filter.cycle_remaining_time_filter(); // ThisWeek
    let week: Vec<String> = st.get_filtered_banned_ips(now).iter().map(|r| r.ip.clone()).collect();
    assert_eq!(week, vec!["1.1.1.1", "2.2.2.2", "3.3.3.3"]);
    st.banned_ip_filter.cycle_remaining_time_filter(); // Permanent
    let perm: Vec<String> = st.get_filtered_banned_ips(now).iter().map(|r| r.ip.clone()).collect();
    assert_eq!(perm, vec!["4.4.4.4"]);
}

#[test]
fn ban_age_filter() {
    let now: i64 = 10 * 3_600_000;
    let mut st = AppState::new();
    st.banned_ips = vec![
        rec("1.1.1.1", "sshd", now - 30 * 60_000, None), // half an hour old
        rec("2.2.2.2", "sshd", now - 5 * 3_600_000, None), // five hours old
    ];
    st.banned_ip_filter.cycle_ban_age_filter(); // last hour
    let got: Vec<String> = st.get_filtered_banned_ips(now).iter().map(|r| r.ip.clone()).collect();
    assert_eq!(got, vec!["1.1.1.1"]);
}

#[test]
fn jail_filter_cycles_through_names() {
    let mut f = BannedIpFilter::new();
    let names = vec!["nginx".to_string(), "sshd".to_string()];
    let v0 = f.version();
    f.cycle_jail_filter(&names);
    assert_eq!(f.jail().map(|s| s.as_str()), Some("nginx"));
    f.cycle_jail_filter(&names);
    assert_eq!(f.jail().map(|s| s.as_str()), Some("sshd"));
    f.cycle_jail_filter(&names);
    assert_eq!(f.jail(), None);
    assert_eq!(f.version(), v0 + 3);
    let empty: Vec<String> = Vec::new();
    f.cycle_jail_filter(&empty);
    assert_eq!(f.version(), v0 + 3);
}

#[test]
fn filter_version_increments_on_every_mutation() {
    let mut f = BannedIpFilter::new();
    assert_eq!(f.version(), 0);
    f.cycle_ip_digit_filter();
    assert_eq!(f.version(), 1);
    f.cycle_ban_age_filter();
    assert_eq!(f.version(), 2);
    f.cycle_remaining_time_filter();
    assert_eq!(f.version(), 3);
    f.clear_filters();
    assert_eq!(f.version(), 4);
    assert!(!f.has_active_filters());
}

#[test]
fn two_phase_loader_announces_then_fetches() {
    let mut st = AppState::new();
    // First poll at the banned-address interval: announce, no fetch yet.
    let d1 = st.poll(30_000);
    assert_eq!(d1.banned, BannedStep::Announce);
    assert!(st.is_loading_banned_ips);
    assert!(st.loading_modal.is_some());
    assert_eq!(st.timers.last_ip_ms, 0);
    // Second poll with the flag up: fetch now.
    let d2 = st.poll(30_100);
    assert_eq!(d2.banned, BannedStep::Fetch);
    assert!(st.is_loading_banned_ips);
    // The fetch completes: records land sorted, loader back to idle.
    let results = vec![
        Some(vec![rec("9.9.9.9", "sshd", 0, None), rec("1.1.1.1", "sshd", 0, None)]),
        None,
        Some(vec![rec("5.5.5.5", "nginx", 0, None)]),
    ];
    st.apply_banned_fetch(&results, 30_200);
    assert!(!st.is_loading_banned_ips);
    assert!(st.loading_modal.is_none());
    assert_eq!(st.timers.last_ip_ms, 30_200);
    let ips: Vec<&str> = st.banned_ips.iter().map(|r| r.ip.as_str()).collect();
    assert_eq!(ips, vec!["1.1.1.1", "5.5.5.5", "9.9.9.9"]);
    assert_eq!(st.banned_ip_pagination.total_items, 3);
    // A third poll before the interval: nothing due.
    let d3 = st.poll(40_000);
    assert_eq!(d3.banned, BannedStep::Hold);
}

#[test]
fn loader_clears_collection_when_daemon_stopped() {
    let mut st = AppState::new();
    st.banned_ips = many_recs(4);
    st.banned_ip_pagination.update_total_items(4);
    st.apply_service_status(ServiceStatus::Stopped);
    let d = st.poll(30_000);
    assert_eq!(d.banned, BannedStep::Announce);
    let d2 = st.poll(30_050);
    assert_eq!(d2.banned, BannedStep::Fetch);
    let results = vec![Some(vec![rec("1.1.1.1", "sshd", 0, None)])];
    st.apply_banned_fetch(&results, 30_100);
    assert!(!st.is_loading_banned_ips);
    assert_eq!(st.banned_ips.len(), 0);
    assert_eq!(st.banned_ip_pagination.total_items, 0);
}

#[test]
fn massive_tier_suppresses_other_categories() {
    let mut st = AppState::new();
    st.banned_ips = many_recs(15_001);
    let d = st.poll(400_000);
    assert!(!d.refresh_service);
    assert!(!d.refresh_jails);
    assert!(!d.refresh_logs);
    assert_eq!(d.banned, BannedStep::Announce);
    // The suppressed categories were still stamped, so they do not fire
    // the moment the dataset shrinks.
    assert_eq!(st.timers.last_service_ms, 400_000);
    assert_eq!(st.timers.last_jail_ms, 400_000);
    assert_eq!(st.timers.last_log_ms, 400_000);
}

#[test]
fn normal_tier_refreshes_all_categories() {
    let mut st = AppState::new();
    let d = st.poll(30_000);
    assert!(d.refresh_service);
    assert!(d.refresh_jails);
    assert!(d.refresh_logs);
    assert_eq!(d.banned, BannedStep::Announce);
    // Right after, nothing is due.
    let d2 = st.poll(30_001);
    assert!(!d2.refresh_service);
    assert!(!d2.refresh_jails);
    assert!(!d2.refresh_logs);
}

#[test]
fn jail_merge_keeps_prior_on_failure() {
    let mut st = AppState::new();
    let names = vec!["sshd".to_string(), "nginx".to_string()];
    let fresh = |n: &str, c: usize| f2b_buxjr::model::JailState {
        name: n.to_string(),
        enabled: true,
        banned_count: c,
        filter: "f".to_string(),
        action: "a".to_string(),
    };
    st.apply_jail_results(&names, vec![Some(fresh("sshd", 3)), Some(fresh("nginx", 5))]);
    assert_eq!(st.jails.len(), 2);
    // nginx fails this time: its previous state is kept.
    st.apply_jail_results(&names, vec![Some(fresh("sshd", 4)), None]);
    assert_eq!(st.jails.len(), 2);
    assert_eq!(st.jails[0].banned_count, 4);
    assert_eq!(st.jails[1].name, "nginx");
    assert_eq!(st.jails[1].banned_count, 5);
    // Everything fails: the previous list stands.
    st.apply_jail_results(&names, vec![None, None]);
    assert_eq!(st.jails.len(), 2);
    assert_eq!(st.jails[0].banned_count, 4);
}

#[test]
fn sort_is_by_address_then_jail_and_stable() {
    let v = vec![
        rec("2.2.2.2", "b", 0, None),
        rec("1.1.1.1", "b", 10, None),
        rec("1.1.1.1", "a", 20, None),
        rec("1.1.1.1", "a", 30, None),
    ];
    let s = sort_banned(&v);
    let keys: Vec<(String, String, i64)> =
        s.iter().map(|r| (r.ip.clone(), r.jail.clone(), r.ban_time_ms)).collect();
    assert_eq!(
        keys,
        vec![
            ("1.1.1.1".to_string(), "a".to_string(), 20),
            ("1.1.1.1".to_string(), "a".to_string(), 30),
            ("1.1.1.1".to_string(), "b".to_string(), 10),
            ("2.2.2.2".to_string(), "b".to_string(), 0),
        ]
    );
}

#[test]
fn wall_clock_poll_behaves_like_a_poll() {
    let mut st = AppState::new();
    // Timers start at zero, so at any real wall-clock instant everything
    // in the normal tier is due and the loader announces.
    let d = st.poll_now();
    assert_eq!(d.banned, BannedStep::Announce);
    assert!(st.is_loading());
    assert!(st.loading_modal.is_some());
}

#[test]
fn wall_clock_filtered_read_serves_the_view() {
    let mut st = AppState::new();
    st.banned_ips = vec![rec("1.1.1.1", "sshd", 0, None), rec("2.2.2.2", "sshd", 0, None)];
    st.banned_ip_filter.cycle_ip_digit_filter();
    let got: Vec<String> =
        st.get_filtered_banned_ips_now().iter().map(|r| r.ip.clone()).collect();
    assert_eq!(got, vec!["1.1.1.1"]);
}

#[test]
fn current_page_slices_filtered_view() {
    let mut st = AppState::new();
    st.banned_ips = many_recs(250);
    let page = st.current_page_records(0);
    assert_eq!(page.len(), 100);
    assert_eq!(st.banned_ip_pagination.total_items, 250);
    st.banned_ip_pagination.go_to_last_page();
    let last = st.current_page_records(0);
    assert_eq!(last.len(), 50);
}
