//! The engine state and its poll step: refresh scheduling, the two-phase
//! banned-address loader, the version-keyed filtered-view cache, and the
//! bounded log buffer.
//!
//! All mutation happens inside the methods here, driven by one
//! single-threaded poll loop outside the library: the loop calls
//! [`AppState::poll`], performs the fetches the decision asks for, and
//! hands the results back through the `apply` methods.

use vstd::prelude::*;
use vstd::relations::sorted_by;

use crate::clock::now_utc_ms;
use crate::filter::{
    filter_records, filtered_recs, ip_views, lemma_filtered_identity, lemma_filtered_len,
    spec_has_active_filters, BannedIpFilter,
};
use crate::logfilter::{filter_log_entries, filtered_logs, LogFilter};
use crate::model::{
    jail_views, JailState, JailStateView, LoadingModalState, Screen, ServiceStatus,
};
use crate::pagination::BannedIpPagination;
use crate::records::{BannedIP, BannedIPView, LogEntry, LogEntryView};
use crate::sorting::{log_order, log_views, rec_order, sort_banned, sort_logs_desc};
use crate::tier::{spec_classify, spec_interval_ms, spec_suppressed, classify, interval_ms, suppressed, Category, DatasetTier};

verus! {

/// Last-refreshed instant per data category, in milliseconds since the
/// Unix epoch. Scheduling decisions are the only place mutating these,
/// except that the banned-address stamp moves only when its two-phase
/// fetch completes.
#[derive(Debug, Clone, Copy, PartialEq, Eq, Structural)]
pub struct RefreshTimers {
    pub last_service_ms: i64,
    pub last_jail_ms: i64,
    pub last_ip_ms: i64,
    pub last_log_ms: i64,
}

/// What the poll asks of the banned-address category.
#[derive(Debug, Clone, Copy, PartialEq, Eq, Structural)]
pub enum BannedStep {
    /// Nothing due.
    Hold,
    /// First phase: the loading flag was just raised and the interface
    /// should repaint; no fetch work yet.
    Announce,
    /// Second phase: the flag was already up; perform the fetch now and
    /// hand the results to `apply_banned_fetch`.
    Fetch,
}

/// One poll's decisions: which categories to re-fetch, in the fixed order
/// service status, jail list, banned addresses, logs.
#[derive(Debug, Clone, Copy, PartialEq, Eq, Structural)]
pub struct PollDecision {
    pub refresh_service: bool,
    pub refresh_jails: bool,
    pub banned: BannedStep,
    pub refresh_logs: bool,
}

/// The one state object of the engine.
pub struct AppState {
    pub current_screen: Screen,
    pub fail2ban_service: ServiceStatus,
    pub jails: Vec<JailState>,
    /// The raw banned-address collection, replaced wholesale on each
    /// successful refresh.
    pub banned_ips: Vec<BannedIP>,
    /// Bounded log buffer, newest first.
    pub log_entries: Vec<LogEntry>,
    /// The log buffer after the log filter and search query.
    pub filtered_log_entries: Vec<LogEntry>,
    pub log_filter: LogFilter,
    pub log_search_query: String,
    pub banned_ip_filter: BannedIpFilter,
    pub banned_ip_pagination: BannedIpPagination,
    /// Materialized filtered view of `banned_ips`.
    pub cached_filtered_ips: Vec<BannedIP>,
    /// Whether `cached_filtered_ips` has been materialized at all.
    pub filter_cache_built: bool,
    /// Filter version the cache was built from.
    pub filter_cache_version: u64,
    /// Wall-clock instant the cache was built at.
    pub filter_cache_now_ms: i64,
    /// How many times the filtered view has been materialized.
    pub rebuild_count: u64,
    /// Two-phase loader flag: up between the announce poll and the fetch
    /// poll.
    pub is_loading_banned_ips: bool,
    pub loading_modal: Option<LoadingModalState>,
    pub timers: RefreshTimers,
    pub status_message: Option<String>,
    pub whitelist_ips: Vec<String>,
}

/// Elapsed time from `last` to `now`, clamped at zero.
pub open spec fn spec_elapsed(now: int, last: int) -> int {
    if now >= last {
        now - last
    } else {
        0
    }
}

/// Whether the cached filtered view may be served as it stands.
pub open spec fn cache_valid(s: AppState) -> bool {
    s.filter_cache_built && s.filter_cache_version == s.banned_ip_filter@.version
}

/// Whether reads bypass the cache entirely: a massive collection with no
/// active filter is returned as it is, to avoid an O(n) copy for
/// pass-through display.
pub open spec fn view_bypass(s: AppState) -> bool {
    spec_classify(s.banned_ips@.len()) == DatasetTier::Massive && !spec_has_active_filters(
        s.banned_ip_filter@,
    )
}

impl AppState {
    /// Well-formedness: the pagination invariant holds, and a cache that
    /// is valid for the current filter version holds exactly the filtered
    /// view as of the instant it was built.
    pub open spec fn wf(self) -> bool {
        &&& self.banned_ip_pagination.wf()
        &&& cache_valid(self) ==> ip_views(self.cached_filtered_ips@) == filtered_recs(
            ip_views(self.banned_ips@),
            self.banned_ip_filter@,
            self.filter_cache_now_ms as int,
        )
    }

    /// Fresh state: dashboard screen, service assumed running until
    /// checked, everything empty, all timers at zero.
    pub fn new() -> (r: Self)
        ensures
            r.wf(),
            r.current_screen == Screen::Dashboard,
            r.fail2ban_service == ServiceStatus::Running,
            r.jails@.len() == 0,
            r.banned_ips@.len() == 0,
            r.log_entries@.len() == 0,
            r.filtered_log_entries@.len() == 0,
            !r.is_loading_banned_ips,
            r.loading_modal is None,
            r.rebuild_count == 0,
            !r.filter_cache_built,
            r.banned_ip_filter@.version == 0,
            r.timers.last_service_ms == 0 && r.timers.last_jail_ms == 0 && r.timers.last_ip_ms == 0
                && r.timers.last_log_ms == 0,
            r.banned_ip_pagination.page_size == 100,
            r.banned_ip_pagination.current_page == 0,
            r.banned_ip_pagination.total_items == 0,
    {
        AppState {
            current_screen: Screen::Dashboard,
            fail2ban_service: ServiceStatus::Running,
            jails: Vec::new(),
            banned_ips: Vec::new(),
            log_entries: Vec::new(),
            filtered_log_entries: Vec::new(),
            log_filter: LogFilter::default(),
            log_search_query: String::new(),
            banned_ip_filter: BannedIpFilter::new(),
            banned_ip_pagination: BannedIpPagination::default(),
            cached_filtered_ips: Vec::new(),
            filter_cache_built: false,
            filter_cache_version: 0,
            filter_cache_now_ms: 0,
            rebuild_count: 0,
            is_loading_banned_ips: false,
            loading_modal: None,
            timers: RefreshTimers {
                last_service_ms: 0,
                last_jail_ms: 0,
                last_ip_ms: 0,
                last_log_ms: 0,
            },
            status_message: None,
            whitelist_ips: Vec::new(),
        }
    }

    /// Whether the two-phase banned-address fetch is in flight.
    pub fn is_loading(&self) -> (r: bool)
        ensures
            r == self.is_loading_banned_ips,
    {
        self.is_loading_banned_ips
    }

    /// The log records on display: the buffer after the log filter and
    /// search query, newest first.
    pub fn log_records(&self) -> (r: &Vec<LogEntry>)
        ensures
            r@ == self.filtered_log_entries@,
    {
        &self.filtered_log_entries
    }

    /// Stores a status message for the interface to render.
    pub fn set_status_message(&mut self, msg: String)
        ensures
            final(self).status_message == Some(msg),
            *final(self) == (AppState { status_message: Some(msg), ..*old(self) }),
    {
        self.status_message = Some(msg);
    }
}

/// Everything `poll` leaves alone.
pub open spec fn poll_untouched(pre: AppState, post: AppState) -> bool {
    &&& post.current_screen == pre.current_screen
    &&& post.fail2ban_service == pre.fail2ban_service
    &&& post.jails@ == pre.jails@
    &&& post.banned_ips@ == pre.banned_ips@
    &&& post.log_entries@ == pre.log_entries@
    &&& post.filtered_log_entries@ == pre.filtered_log_entries@
    &&& post.log_filter@ == pre.log_filter@
    &&& post.log_search_query@ == pre.log_search_query@
    &&& post.banned_ip_filter == pre.banned_ip_filter
    &&& post.banned_ip_pagination == pre.banned_ip_pagination
    &&& post.cached_filtered_ips@ == pre.cached_filtered_ips@
    &&& post.filter_cache_built == pre.filter_cache_built
    &&& post.filter_cache_version == pre.filter_cache_version
    &&& post.filter_cache_now_ms == pre.filter_cache_now_ms
    &&& post.rebuild_count == pre.rebuild_count
    &&& post.status_message == pre.status_message
    &&& post.whitelist_ips@ == pre.whitelist_ips@
    &&& post.timers.last_ip_ms == pre.timers.last_ip_ms
}

/// The full poll relation: for each category, due exactly when its
/// tier-specific interval has elapsed; due categories take the poll's
/// instant as their new stamp whether or not they were suppressed; the
/// banned-address category instead steps its two-phase loader, and its
/// stamp moves only when the fetch completes.
pub open spec fn poll_rel(pre: AppState, post: AppState, d: PollDecision, now: int) -> bool {
    let tier = spec_classify(pre.banned_ips@.len());
    let svc_due = spec_elapsed(now, pre.timers.last_service_ms as int) >= spec_interval_ms(
        tier,
        Category::ServiceStatus,
    );
    let jail_due = spec_elapsed(now, pre.timers.last_jail_ms as int) >= spec_interval_ms(
        tier,
        Category::JailList,
    );
    let ip_due = spec_elapsed(now, pre.timers.last_ip_ms as int) >= spec_interval_ms(
        tier,
        Category::BannedAddresses,
    );
    let log_due = spec_elapsed(now, pre.timers.last_log_ms as int) >= spec_interval_ms(
        tier,
        Category::Logs,
    );
    &&& poll_untouched(pre, post)
    &&& d.refresh_service == (svc_due && !spec_suppressed(tier, Category::ServiceStatus))
    &&& post.timers.last_service_ms as int == (if svc_due {
        now
    } else {
        pre.timers.last_service_ms as int
    })
    &&& d.refresh_jails == (jail_due && !spec_suppressed(tier, Category::JailList))
    &&& post.timers.last_jail_ms as int == (if jail_due {
        now
    } else {
        pre.timers.last_jail_ms as int
    })
    &&& d.refresh_logs == (log_due && !spec_suppressed(tier, Category::Logs))
    &&& post.timers.last_log_ms as int == (if log_due {
        now
    } else {
        pre.timers.last_log_ms as int
    })
    &&& d.banned == (if !ip_due {
        BannedStep::Hold
    } else if !pre.is_loading_banned_ips {
        BannedStep::Announce
    } else {
        BannedStep::Fetch
    })
    &&& (d.banned == BannedStep::Announce ==> post.is_loading_banned_ips && (match
        post.loading_modal {
        Some(m) => m.started_at_ms as int == now && m.progress is None,
        None => false,
    }))
    &&& (d.banned != BannedStep::Announce ==> post.is_loading_banned_ips
        == pre.is_loading_banned_ips && post.loading_modal == pre.loading_modal)
}

impl AppState {
    /// One scheduler poll at wall-clock instant `now_ms`: decides which
    /// categories are due, stamps them, and steps the two-phase loader.
    /// In the massive tier everything but the banned addresses is
    /// suppressed outright. The caller performs the fetches the decision
    /// asks for, in the fixed order service status, jail list, banned
    /// addresses, logs.
    pub fn poll(&mut self, now_ms: i64) -> (d: PollDecision)
        requires
            old(self).wf(),
        ensures
            final(self).wf(),
            poll_rel(*old(self), *final(self), d, now_ms as int),
    {
        let tier = classify(self.banned_ips.len());
        let svc_due = due(now_ms, self.timers.last_service_ms, interval_ms(
            tier,
            Category::ServiceStatus,
        ));
        let jail_due = due(now_ms, self.timers.last_jail_ms, interval_ms(tier, Category::JailList));
        let ip_due = due(now_ms, self.timers.last_ip_ms, interval_ms(
            tier,
            Category::BannedAddresses,
        ));
        let log_due = due(now_ms, self.timers.last_log_ms, interval_ms(tier, Category::Logs));
        let refresh_service = svc_due && !suppressed(tier, Category::ServiceStatus);
        if svc_due {
            self.timers.last_service_ms = now_ms;
        }
        let refresh_jails = jail_due && !suppressed(tier, Category::JailList);
        if jail_due {
            self.timers.last_jail_ms = now_ms;
        }
        let refresh_logs = log_due && !suppressed(tier, Category::Logs);
        if log_due {
            self.timers.last_log_ms = now_ms;
        }
        let banned = if !ip_due {
            BannedStep::Hold
        } else if !self.is_loading_banned_ips {
            self.is_loading_banned_ips = true;
            let message = match tier {
                DatasetTier::Massive => "Large dataset detected; this may take a while",
                DatasetTier::Large => "Loading banned addresses; this may take several seconds",
                DatasetTier::Normal => "Loading banned addresses from all jails",
            };
            self.loading_modal = Some(
                LoadingModalState::new(
                    String::from_str("Loading Banned IPs"),
                    String::from_str(message),
                    now_ms,
                ),
            );
            BannedStep::Announce
        } else {
            BannedStep::Fetch
        };
        PollDecision { refresh_service, refresh_jails, banned, refresh_logs }
    }

    /// One scheduler poll at the current wall-clock time. Whatever instant
    /// the clock reports, the poll relation holds of it.
    pub fn poll_now(&mut self) -> (d: PollDecision)
        requires
            old(self).wf(),
        ensures
            final(self).wf(),
            exists|now: int| #[trigger] poll_rel(*old(self), *final(self), d, now),
    {
        let now_ms = now_utc_ms();
        let d = self.poll(now_ms);
        proof {
            assert(poll_rel(*old(self), *final(self), d, now_ms as int));
        }
        d
    }

    /// Records a fresh service status report.
    pub fn apply_service_status(&mut self, status: ServiceStatus)
        requires
            old(self).wf(),
        ensures
            final(self).wf(),
            final(self).fail2ban_service == status,
            *final(self) == (AppState { fail2ban_service: status, ..*old(self) }),
    {
        self.fail2ban_service = status;
    }
}

/// Whether `interval` milliseconds have elapsed from `last` to `now`.
fn due(now_ms: i64, last_ms: i64, interval: i64) -> (r: bool)
    requires
        interval > 0,
    ensures
        r == (spec_elapsed(now_ms as int, last_ms as int) >= interval),
{
    (now_ms as i128) - (last_ms as i128) >= interval as i128
}

/// The concatenation, in jail order, of the per-jail fetch results that
/// succeeded: a failing jail contributes nothing and voids nothing.
pub open spec fn fetched_views(results: Seq<Option<Vec<BannedIP>>>) -> Seq<BannedIPView>
    decreases results.len(),
{
    if results.len() == 0 {
        Seq::empty()
    } else {
        fetched_views(results.drop_last()) + (match results.last() {
            Some(v) => ip_views(v@),
            None => Seq::empty(),
        })
    }
}

/// The merged jail list: for each name, the fresh report when the fetch
/// succeeded, else the previously known state of that jail, if any.
pub open spec fn merged_jails(
    prior: Seq<JailStateView>,
    names: Seq<Seq<char>>,
    results: Seq<Option<JailStateView>>,
) -> Seq<JailStateView>
    decreases names.len(),
{
    if names.len() == 0 || results.len() != names.len() {
        Seq::empty()
    } else {
        let rest = merged_jails(prior, names.drop_last(), results.drop_last());
        match results.last() {
            Some(j) => rest.push(j),
            None => match find_jail(prior, names.last()) {
                Some(p) => rest.push(p),
                None => rest,
            },
        }
    }
}

/// The view of one optional jail report.
pub open spec fn jail_opt_view(r: Option<JailState>) -> Option<JailStateView> {
    match r {
        Some(j) => Some(j@),
        None => None,
    }
}

/// First jail of the given name, scanning from the front.
pub open spec fn find_jail(s: Seq<JailStateView>, name: Seq<char>) -> Option<JailStateView>
    decreases s.len(),
{
    if s.len() == 0 {
        None
    } else if s.first().name == name {
        Some(s.first())
    } else {
        find_jail(s.drop_first(), name)
    }
}

impl AppState {
    /// Records the outcome of one jail-list refresh: for every jail name
    /// the fresh status where its fetch succeeded, else the previously
    /// known state; a single failing jail never voids the batch. An
    /// entirely empty outcome leaves the previous list standing.
    pub fn apply_jail_results(&mut self, names: &Vec<String>, results: Vec<Option<JailState>>)
        requires
            old(self).wf(),
            names@.len() == results@.len(),
        ensures
            final(self).wf(),
            ({
                let merged = merged_jails(
                    jail_views(old(self).jails@),
                    names@.map_values(|n: String| n@),
                    results@.map_values(|r: Option<JailState>| jail_opt_view(r)),
                );
                jail_views(final(self).jails@) == if merged.len() > 0 {
                    merged
                } else {
                    jail_views(old(self).jails@)
                }
            }),
            *final(self) == (AppState { jails: final(self).jails, ..*old(self) }),
    {
        let ghost prior = jail_views(self.jails@);
        let ghost names_v = names@.map_values(|n: String| n@);
        let ghost results_v = results@.map_values(|r: Option<JailState>| jail_opt_view(r));
        let mut merged: Vec<JailState> = Vec::new();
        let mut i: usize = 0;
        proof {
            assert(names_v.take(0) =~= Seq::<Seq<char>>::empty());
            assert(results_v.take(0) =~= Seq::<Option<JailStateView>>::empty());
            assert(jail_views(merged@) =~= merged_jails(prior, names_v.take(0), results_v.take(0)));
        }
        while i < results.len()
            invariant
                i <= results@.len(),
                names@.len() == results@.len(),
                prior == jail_views(self.jails@),
                names_v == names@.map_values(|n: String| n@),
                results_v == results@.map_values(|r: Option<JailState>| jail_opt_view(r)),
                jail_views(merged@) =~= merged_jails(
                    prior,
                    names_v.take(i as int),
                    results_v.take(i as int),
                ),
                self == old(self),
            decreases results@.len() - i,
        {
            let ghost pre_names = names_v.take(i as int);
            let ghost cur_names = names_v.take(i as int + 1);
            let ghost pre_results = results_v.take(i as int);
            let ghost cur_results = results_v.take(i as int + 1);
            proof {
                assert(cur_names.drop_last() =~= pre_names);
                assert(cur_results.drop_last() =~= pre_results);
                assert(cur_names.last() == names@[i as int]@);
                assert(cur_results.last() == results_v[i as int]);
            }
            match &results[i] {
                Some(j) => {
                    merged.push(j.duplicate());
                    proof {
                        assert(jail_views(merged@) =~= merged_jails(prior, pre_names, pre_results)
                            .push(results@[i as int]->Some_0@));
                    }
                },
                None => {
                    match find_jail_exec(&self.jails, &names[i]) {
                        Some(p) => {
                            merged.push(p);
                            proof {
                                assert(jail_views(merged@) =~= merged_jails(
                                    prior,
                                    pre_names,
                                    pre_results,
                                ).push(find_jail(prior, names@[i as int]@)->Some_0));
                            }
                        },
                        None => {},
                    }
                },
            }
            i = i + 1;
        }
        proof {
            assert(names_v.take(names_v.len() as int) =~= names_v);
            assert(results_v.take(results_v.len() as int) =~= results_v);
        }
        if merged.len() > 0 {
            self.jails = merged;
        }
    }

    /// Completes the two-phase banned-address fetch. With the daemon
    /// running, the concatenated per-jail results replace the raw
    /// collection, sorted by address then jail name; otherwise the raw
    /// collection is cleared rather than showing stale data. Either way
    /// the loader returns to idle, the pagination totals follow the new
    /// count, the cached filtered view is discarded, and the category's
    /// refresh stamp takes the completion instant.
    pub fn apply_banned_fetch(&mut self, results: &Vec<Option<Vec<BannedIP>>>, now_ms: i64)
        requires
            old(self).wf(),
        ensures
            final(self).wf(),
            !final(self).is_loading_banned_ips,
            final(self).loading_modal is None,
            final(self).timers.last_ip_ms == now_ms,
            !final(self).filter_cache_built,
            final(self).banned_ip_pagination.total_items == final(self).banned_ips@.len(),
            old(self).fail2ban_service == ServiceStatus::Running ==> sorted_by(
                ip_views(final(self).banned_ips@),
                rec_order(),
            ) && ip_views(final(self).banned_ips@).to_multiset() =~= fetched_views(
                results@,
            ).to_multiset(),
            old(self).fail2ban_service != ServiceStatus::Running ==> final(self).banned_ips@.len()
                == 0,
            final(self).fail2ban_service == old(self).fail2ban_service,
            final(self).jails@ == old(self).jails@,
            final(self).banned_ip_filter == old(self).banned_ip_filter,
            final(self).rebuild_count == old(self).rebuild_count,
            final(self).log_entries@ == old(self).log_entries@,
            final(self).filtered_log_entries@ == old(self).filtered_log_entries@,
            final(self).timers.last_service_ms == old(self).timers.last_service_ms,
            final(self).timers.last_jail_ms == old(self).timers.last_jail_ms,
            final(self).timers.last_log_ms == old(self).timers.last_log_ms,
            final(self).banned_ip_pagination.page_size == old(self).banned_ip_pagination.page_size,
    {
        if self.fail2ban_service.is_running() {
            let mut fetched: Vec<BannedIP> = Vec::new();
            let mut i: usize = 0;
            proof {
                assert(results@.take(0) =~= Seq::<Option<Vec<BannedIP>>>::empty());
                assert(ip_views(fetched@) =~= fetched_views(results@.take(0)));
            }
            while i < results.len()
                invariant
                    i <= results@.len(),
                    ip_views(fetched@) =~= fetched_views(results@.take(i as int)),
                decreases results@.len() - i,
            {
                let ghost pre = results@.take(i as int);
                let ghost cur = results@.take(i as int + 1);
                proof {
                    assert(cur.drop_last() =~= pre);
                    assert(cur.last() == results@[i as int]);
                }
                match &results[i] {
                    Some(v) => {
                        let ghost fetched_pre = ip_views(fetched@);
                        let mut k: usize = 0;
                        proof {
                            assert(ip_views(v@).take(0) =~= Seq::<BannedIPView>::empty());
                            assert(ip_views(fetched@) =~= fetched_pre + ip_views(v@).take(0));
                        }
                        while k < v.len()
                            invariant
                                k <= v@.len(),
                                ip_views(fetched@) =~= fetched_pre + ip_views(v@).take(k as int),
                            decreases v@.len() - k,
                        {
                            let ghost before = ip_views(fetched@);
                            fetched.push(v[k].duplicate());
                            proof {
                                let x = v@[k as int]@;
                                let taken = ip_views(v@).take(k as int);
                                assert(ip_views(fetched@) =~= before.push(x));
                                assert(ip_views(v@).take(k as int + 1) =~= taken.push(x));
                                assert((fetched_pre + taken).push(x) =~= fetched_pre + taken.push(
                                    x,
                                ));
                                assert(ip_views(fetched@) =~= fetched_pre + ip_views(v@).take(
                                    k as int + 1,
                                ));
                            }
                            k = k + 1;
                        }
                        proof {
                            assert(ip_views(v@).take(v@.len() as int) =~= ip_views(v@));
                        }
                    },
                    None => {
                        proof {
                            assert(ip_views(fetched@) + Seq::<BannedIPView>::empty() =~= ip_views(
                                fetched@,
                            ));
                        }
                    },
                }
                i = i + 1;
            }
            proof {
                assert(results@.take(results@.len() as int) =~= results@);
            }
            let sorted = sort_banned(&fetched);
            self.banned_ips = sorted;
        } else {
            self.banned_ips = Vec::new();
            proof {
                assert(ip_views(self.banned_ips@) =~= Seq::<BannedIPView>::empty());
            }
        }
        let n = self.banned_ips.len();
        self.banned_ip_pagination.update_total_items(n);
        self.is_loading_banned_ips = false;
        self.loading_modal = None;
        self.filter_cache_built = false;
        self.cached_filtered_ips = Vec::new();
        self.timers.last_ip_ms = now_ms;
    }
}

/// First jail of the given name in the list, if any.
fn find_jail_exec(jails: &Vec<JailState>, name: &String) -> (r: Option<JailState>)
    ensures
        (match r {
            Some(j) => find_jail(jail_views(jails@), name@) == Some(j@),
            None => find_jail(jail_views(jails@), name@) is None,
        }),
{
    let mut i: usize = 0;
    proof {
        assert(jail_views(jails@).skip(0) =~= jail_views(jails@));
    }
    while i < jails.len()
        invariant
            i <= jails@.len(),
            find_jail(jail_views(jails@), name@) == find_jail(
                jail_views(jails@).skip(i as int),
                name@,
            ),
        decreases jails@.len() - i,
    {
        proof {
            assert(jail_views(jails@).skip(i as int)[0] == jails@[i as int]@);
            assert(jail_views(jails@).skip(i as int).drop_first() =~= jail_views(jails@).skip(
                i as int + 1,
            ));
        }
        let same = crate::text::str_cmp(jails[i].name.as_str(), name.as_str()) == 0;
        proof {
            crate::text::lemma_chars_cmp_eq(jails@[i as int].name@, name@);
        }
        if same {
            return Some(jails[i].duplicate());
        }
        i = i + 1;
    }
    None
}

/// Everything a filtered-view read leaves alone: the raw collection, the
/// filter, the pagination, and all state outside the cache.
pub open spec fn view_untouched(pre: AppState, post: AppState) -> bool {
    &&& post.current_screen == pre.current_screen
    &&& post.fail2ban_service == pre.fail2ban_service
    &&& post.jails@ == pre.jails@
    &&& post.banned_ips@ == pre.banned_ips@
    &&& post.log_entries@ == pre.log_entries@
    &&& post.filtered_log_entries@ == pre.filtered_log_entries@
    &&& post.log_filter@ == pre.log_filter@
    &&& post.log_search_query@ == pre.log_search_query@
    &&& post.banned_ip_filter == pre.banned_ip_filter
    &&& post.banned_ip_pagination == pre.banned_ip_pagination
    &&& post.is_loading_banned_ips == pre.is_loading_banned_ips
    &&& post.loading_modal == pre.loading_modal
    &&& post.timers == pre.timers
    &&& post.status_message == pre.status_message
    &&& post.whitelist_ips@ == pre.whitelist_ips@
}

/// The instant a filtered-view read is valid for: the read's own instant
/// on the cache-bypass path, else the instant the cache was built at.
pub open spec fn spec_view_instant(s: AppState, now: int) -> int {
    if view_bypass(s) {
        now
    } else {
        s.filter_cache_now_ms as int
    }
}

/// The record views a read serves: the raw collection on the bypass path,
/// else the cache.
pub open spec fn current_view(s: AppState) -> Seq<BannedIPView> {
    if view_bypass(s) {
        ip_views(s.banned_ips@)
    } else {
        ip_views(s.cached_filtered_ips@)
    }
}

/// The full relation of one filtered-view read returning record views
/// `rv`: the result is exactly the filtered view of the raw collection,
/// the cache is rebuilt only when the filter version moved (the rebuild
/// counter says so), and a massive collection with no active filter is
/// served as it is, the cache discarded.
pub open spec fn view_read_rel(pre: AppState, post: AppState, rv: Seq<BannedIPView>, now: int) -> bool {
    &&& post.wf()
    &&& view_untouched(pre, post)
    &&& rv == filtered_recs(
        ip_views(pre.banned_ips@),
        pre.banned_ip_filter@,
        spec_view_instant(post, now),
    )
    &&& (view_bypass(pre) ==> !post.filter_cache_built && post.rebuild_count == pre.rebuild_count
        && rv == ip_views(pre.banned_ips@))
    &&& (!view_bypass(pre) && cache_valid(pre) ==> post == pre && rv == ip_views(
        pre.cached_filtered_ips@,
    ))
    &&& (!view_bypass(pre) && !cache_valid(pre) ==> post.rebuild_count == pre.rebuild_count + 1
        && cache_valid(post) && post.filter_cache_now_ms == now && rv == ip_views(
        post.cached_filtered_ips@,
    ))
}

impl AppState {
    /// Brings the cached filtered view up to date at instant `now_ms`:
    /// rebuilds it only when the filter version moved since it was built,
    /// and discards it outright on the bypass path (massive collection, no
    /// active filter), where reads serve the raw collection.
    fn refresh_view_cache(&mut self, now_ms: i64)
        requires
            old(self).wf(),
            old(self).rebuild_count < u64::MAX,
        ensures
            view_read_rel(
                *old(self),
                *final(self),
                current_view(*final(self)),
                now_ms as int,
            ),
    {
        let tier = classify(self.banned_ips.len());
        let massive = matches!(tier, DatasetTier::Massive);
        if massive && !self.banned_ip_filter.has_active_filters() {
            self.cached_filtered_ips = Vec::new();
            self.filter_cache_built = false;
            proof {
                lemma_filtered_identity(
                    ip_views(self.banned_ips@),
                    self.banned_ip_filter@,
                    now_ms as int,
                );
            }
        } else if self.filter_cache_built && self.filter_cache_version
            == self.banned_ip_filter.version() {
        } else {
            let out = filter_records(&self.banned_ips, &self.banned_ip_filter, now_ms);
            self.cached_filtered_ips = out;
            self.filter_cache_built = true;
            self.filter_cache_version = self.banned_ip_filter.version();
            self.filter_cache_now_ms = now_ms;
            self.rebuild_count = self.rebuild_count + 1;
        }
    }

    /// The filtered view of the banned-address collection at instant
    /// `now_ms`: every record passing the filter, in raw-collection order.
    /// Served from the cache unless the filter version moved; a massive
    /// collection with no active filter is returned as it is, with no copy
    /// and no rebuild.
    pub fn get_filtered_banned_ips(&mut self, now_ms: i64) -> (r: &Vec<BannedIP>)
        requires
            old(self).wf(),
            old(self).rebuild_count < u64::MAX,
        ensures
            view_read_rel(*old(self), *final(self), ip_views(r@), now_ms as int),
    {
        self.refresh_view_cache(now_ms);
        let tier = classify(self.banned_ips.len());
        let massive = matches!(tier, DatasetTier::Massive);
        if massive && !self.banned_ip_filter.has_active_filters() {
            &self.banned_ips
        } else {
            &self.cached_filtered_ips
        }
    }

    /// The filtered view read at the current wall-clock time. Whatever
    /// instant the clock reports, the read relation holds of it.
    pub fn get_filtered_banned_ips_now(&mut self) -> (r: &Vec<BannedIP>)
        requires
            old(self).wf(),
            old(self).rebuild_count < u64::MAX,
        ensures
            exists|now: int| #[trigger] view_read_rel(*old(self), *final(self), ip_views(r@), now),
    {
        let now_ms = now_utc_ms();
        self.get_filtered_banned_ips(now_ms)
    }

    /// The records of the current page: re-points the pagination at the
    /// filtered count, then returns the filtered view's slice from
    /// `start_index()` to `end_index()`.
    pub fn current_page_records(&mut self, now_ms: i64) -> (r: Vec<BannedIP>)
        requires
            old(self).wf(),
            old(self).rebuild_count < u64::MAX,
        ensures
            final(self).wf(),
            ({
                let rv = filtered_recs(
                    ip_views(old(self).banned_ips@),
                    old(self).banned_ip_filter@,
                    spec_view_instant(*final(self), now_ms as int),
                );
                &&& final(self).banned_ip_pagination.total_items == rv.len()
                &&& ip_views(r@) == rv.subrange(
                    final(self).banned_ip_pagination.spec_start_index(),
                    final(self).banned_ip_pagination.spec_end_index(),
                )
            }),
            final(self).banned_ips@ == old(self).banned_ips@,
            final(self).banned_ip_filter == old(self).banned_ip_filter,
            final(self).banned_ip_pagination.page_size == old(self).banned_ip_pagination.page_size,
    {
        self.refresh_view_cache(now_ms);
        let ghost rv = current_view(*self);
        let tier = classify(self.banned_ips.len());
        let massive = matches!(tier, DatasetTier::Massive);
        let bypass = massive && !self.banned_ip_filter.has_active_filters();
        let n = if bypass {
            self.banned_ips.len()
        } else {
            self.cached_filtered_ips.len()
        };
        self.banned_ip_pagination.update_total_items(n);
        let start = self.banned_ip_pagination.start_index();
        let end = self.banned_ip_pagination.end_index();
        let mut out: Vec<BannedIP> = Vec::new();
        let mut i: usize = start;
        proof {
            assert(rv.subrange(start as int, start as int) =~= Seq::<BannedIPView>::empty());
            assert(ip_views(out@) =~= rv.subrange(start as int, start as int));
        }
        while i < end
            invariant
                start <= i <= end,
                end <= n,
                n == rv.len(),
                bypass ==> rv == ip_views(self.banned_ips@) && n == self.banned_ips@.len(),
                !bypass ==> rv == ip_views(self.cached_filtered_ips@) && n
                    == self.cached_filtered_ips@.len(),
                ip_views(out@) =~= rv.subrange(start as int, i as int),
            decreases end - i,
        {
            let rec = if bypass {
                self.banned_ips[i].duplicate()
            } else {
                self.cached_filtered_ips[i].duplicate()
            };
            out.push(rec);
            proof {
                assert(rv.subrange(start as int, i as int + 1) =~= rv.subrange(
                    start as int,
                    i as int,
                ).push(rv[i as int]));
                assert(ip_views(out@) =~= rv.subrange(start as int, i as int + 1));
            }
            i = i + 1;
        }
        out
    }

    /// Merges freshly tailed records into the bounded log buffer: the
    /// buffer is re-sorted newest-first and truncated to its maximum of
    /// 1000 records, dropping the oldest, and the filtered view of the
    /// buffer is recomputed. An empty batch changes nothing.
    pub fn update_log_entries(&mut self, new_entries: &Vec<LogEntry>, now_ms: i64)
        requires
            old(self).wf(),
        ensures
            final(self).wf(),
            new_entries@.len() == 0 ==> *final(self) == *old(self),
            new_entries@.len() > 0 ==> ({
                let all = log_views(old(self).log_entries@) + log_views(new_entries@);
                let keep = if all.len() <= 1000 {
                    all.len() as int
                } else {
                    1000int
                };
                &&& sorted_by(log_views(final(self).log_entries@), log_order())
                &&& final(self).log_entries@.len() == keep
                &&& (exists|merged: Seq<LogEntryView>|
                    #[trigger] sorted_by(merged, log_order()) && merged.to_multiset()
                        =~= all.to_multiset() && log_views(final(self).log_entries@)
                        == merged.take(keep))
                &&& log_views(final(self).filtered_log_entries@) == filtered_logs(
                    log_views(final(self).log_entries@),
                    old(self).log_filter@,
                    old(self).log_search_query@,
                    now_ms as int,
                )
            }),
            final(self).banned_ips@ == old(self).banned_ips@,
            final(self).banned_ip_filter == old(self).banned_ip_filter,
            final(self).banned_ip_pagination == old(self).banned_ip_pagination,
            final(self).log_filter@ == old(self).log_filter@,
            final(self).log_search_query@ == old(self).log_search_query@,
            final(self).rebuild_count == old(self).rebuild_count,
            final(self).timers == old(self).timers,
    {
        if new_entries.len() == 0 {
            return ;
        }
        let mut combined: Vec<LogEntry> = Vec::new();
        let mut i: usize = 0;
        proof {
            assert(log_views(self.log_entries@).take(0) =~= Seq::<LogEntryView>::empty());
            assert(log_views(combined@) =~= log_views(self.log_entries@).take(0));
        }
        while i < self.log_entries.len()
            invariant
                i <= self.log_entries@.len(),
                log_views(combined@) =~= log_views(self.log_entries@).take(i as int),
                self == old(self),
            decreases self.log_entries@.len() - i,
        {
            combined.push(self.log_entries[i].duplicate());
            proof {
                assert(log_views(self.log_entries@).take(i as int + 1) =~= log_views(
                    self.log_entries@,
                ).take(i as int).push(self.log_entries@[i as int]@));
                assert(log_views(combined@) =~= log_views(self.log_entries@).take(i as int + 1));
            }
            i = i + 1;
        }
        proof {
            assert(log_views(self.log_entries@).take(self.log_entries@.len() as int) =~= log_views(
                self.log_entries@,
            ));
        }
        let mut k: usize = 0;
        let ghost base = log_views(self.log_entries@);
        while k < new_entries.len()
            invariant
                k <= new_entries@.len(),
                base == log_views(self.log_entries@),
                log_views(combined@) =~= base + log_views(new_entries@).take(k as int),
                self == old(self),
            decreases new_entries@.len() - k,
        {
            let ghost before = log_views(combined@);
            combined.push(new_entries[k].duplicate());
            proof {
                let x = new_entries@[k as int]@;
                let taken = log_views(new_entries@).take(k as int);
                assert(log_views(combined@) =~= before.push(x));
                assert(log_views(new_entries@).take(k as int + 1) =~= taken.push(x));
                assert((base + taken).push(x) =~= base + taken.push(x));
                assert(log_views(combined@) =~= base + log_views(new_entries@).take(k as int + 1));
            }
            k = k + 1;
        }
        proof {
            assert(log_views(new_entries@).take(new_entries@.len() as int) =~= log_views(
                new_entries@,
            ));
        }
        let mut sorted = sort_logs_desc(&combined);
        let ghost merged = log_views(sorted@);
        sorted.truncate(1000);
        proof {
            if merged.len() <= 1000 {
                assert(log_views(sorted@) =~= merged);
                assert(merged.take(merged.len() as int) =~= merged);
            } else {
                assert(log_views(sorted@) =~= merged.take(1000));
            }
            assert(sorted_by(log_views(sorted@), log_order())) by {
                assert forall|a: int, b: int|
                    0 <= a < b < log_views(sorted@).len() implies log_order()(
                    log_views(sorted@)[a],
                    log_views(sorted@)[b],
                ) by {
                    assert(log_views(sorted@)[a] == merged[a]);
                    assert(log_views(sorted@)[b] == merged[b]);
                    assert(log_order()(merged[a], merged[b]));
                }
            }
        }
        self.log_entries = sorted;
        let filtered = filter_log_entries(
            &self.log_entries,
            &self.log_filter,
            self.log_search_query.as_str(),
            now_ms,
        );
        self.filtered_log_entries = filtered;
    }

    /// Recomputes the filtered view of the log buffer, for use after a
    /// log-filter or search-query change.
    pub fn update_filtered_logs(&mut self, now_ms: i64)
        requires
            old(self).wf(),
        ensures
            final(self).wf(),
            log_views(final(self).filtered_log_entries@) == filtered_logs(
                log_views(old(self).log_entries@),
                old(self).log_filter@,
                old(self).log_search_query@,
                now_ms as int,
            ),
            *final(self) == (AppState {
                filtered_log_entries: final(self).filtered_log_entries,
                ..*old(self)
            }),
    {
        let filtered = filter_log_entries(
            &self.log_entries,
            &self.log_filter,
            self.log_search_query.as_str(),
            now_ms,
        );
        self.filtered_log_entries = filtered;
    }
}

/// Law: at most one banned-address load is in flight. Once a poll has
/// announced the load, no later poll announces again before the fetch
/// completes: it either holds or asks for the fetch itself.
pub proof fn lemma_announce_is_single(
    s0: AppState,
    s1: AppState,
    d1: PollDecision,
    t1: int,
    s2: AppState,
    d2: PollDecision,
    t2: int,
)
    requires
        poll_rel(s0, s1, d1, t1),
        d1.banned == BannedStep::Announce,
        poll_rel(s1, s2, d2, t2),
    ensures
        d2.banned != BannedStep::Announce,
{
}

/// Law: the filtered view never outgrows the raw collection. For every
/// filter and every instant, a read returns at most as many records as
/// the raw collection holds.
pub proof fn lemma_view_no_larger(pre: AppState, post: AppState, rv: Seq<BannedIPView>, now: int)
    requires
        view_read_rel(pre, post, rv, now),
    ensures
        rv.len() <= pre.banned_ips@.len(),
{
    lemma_filtered_len(
        ip_views(pre.banned_ips@),
        pre.banned_ip_filter@,
        spec_view_instant(post, now),
    );
}

/// Law: reading the filtered view twice with an unchanged filter version
/// rebuilds nothing the second time and serves the same records: the
/// second read leaves the rebuild counter where the first left it.
pub proof fn lemma_second_read_no_rebuild(
    s0: AppState,
    s1: AppState,
    v1: Seq<BannedIPView>,
    t1: int,
    s2: AppState,
    v2: Seq<BannedIPView>,
    t2: int,
)
    requires
        view_read_rel(s0, s1, v1, t1),
        view_read_rel(s1, s2, v2, t2),
    ensures
        s2.rebuild_count == s1.rebuild_count,
        v2 == v1,
{
    if view_bypass(s0) {
        assert(view_bypass(s1));
        lemma_filtered_identity(
            ip_views(s0.banned_ips@),
            s0.banned_ip_filter@,
            spec_view_instant(s1, t1),
        );
        lemma_filtered_identity(
            ip_views(s1.banned_ips@),
            s1.banned_ip_filter@,
            spec_view_instant(s2, t2),
        );
    } else if cache_valid(s0) {
        assert(s1 == s0);
        assert(!view_bypass(s1) && cache_valid(s1));
    } else {
        assert(cache_valid(s1));
        assert(!view_bypass(s1));
        assert(v2 == ip_views(s1.cached_filtered_ips@));
    }
}

} // verus!
