//! The banned-address filter specification: one optional predicate per
//! axis plus a version counter.
//!
//! Every mutation of a predicate increments the version, and nothing else
//! does; the cached filtered view is keyed on that version. The predicate
//! fields are private so that the discipline cannot be bypassed.

use vstd::prelude::*;
use vstd::string::StrSliceExecFns;

use crate::records::{BannedIP, BannedIPView};

verus! {

/// Bucket of remaining ban time. Permanent bans (no unban time) match only
/// `Permanent`; the other buckets require an unban time within the window.
#[derive(Debug, Clone, Copy, PartialEq, Eq, Structural)]
pub enum RemainingTimeFilter {
    /// Unban within one hour of now.
    Soon,
    /// Unban within 24 hours of now.
    Today,
    /// Unban within 7 days of now.
    ThisWeek,
    /// No unban time at all.
    Permanent,
}

/// Filter over banned-address records: a conjunction of whichever of the
/// four axes are set, plus a monotonically incrementing version.
#[derive(Debug, Clone)]
pub struct BannedIpFilter {
    ip_starting_digit: Option<char>,
    jail: Option<String>,
    ban_age_hours: Option<u32>,
    remaining_time: Option<RemainingTimeFilter>,
    version: u64,
}

/// Mathematical image of a [`BannedIpFilter`].
pub ghost struct BannedIpFilterView {
    pub ip_starting_digit: Option<char>,
    pub jail: Option<Seq<char>>,
    pub ban_age_hours: Option<int>,
    pub remaining_time: Option<RemainingTimeFilter>,
    pub version: int,
}

impl View for BannedIpFilter {
    type V = BannedIpFilterView;

    closed spec fn view(&self) -> BannedIpFilterView {
        BannedIpFilterView {
            ip_starting_digit: self.ip_starting_digit,
            jail: match self.jail {
                Some(ref j) => Some(j@),
                None => None,
            },
            ban_age_hours: match self.ban_age_hours {
                Some(h) => Some(h as int),
                None => None,
            },
            remaining_time: self.remaining_time,
            version: self.version as int,
        }
    }
}

/// Whether any of the four predicate axes is set.
pub open spec fn spec_has_active_filters(f: BannedIpFilterView) -> bool {
    f.ip_starting_digit is Some || f.jail is Some || f.ban_age_hours is Some || f.remaining_time
        is Some
}

/// Milliseconds of remaining-time window granted by a bucket.
pub open spec fn bucket_window_ms(b: RemainingTimeFilter) -> int {
    match b {
        RemainingTimeFilter::Soon => 3_600_000,
        RemainingTimeFilter::Today => 86_400_000,
        RemainingTimeFilter::ThisWeek => 604_800_000,
        RemainingTimeFilter::Permanent => 0,
    }
}

/// Whether one record passes the filter at wall-clock instant `now_ms`:
/// the conjunction of whichever axes are set.
pub open spec fn rec_matches(r: BannedIPView, f: BannedIpFilterView, now_ms: int) -> bool {
    &&& match f.ip_starting_digit {
        Some(d) => r.ip.len() > 0 && r.ip[0] == d,
        None => true,
    }
    &&& match f.jail {
        Some(j) => r.jail == j,
        None => true,
    }
    &&& match f.ban_age_hours {
        Some(h) => r.ban_time_ms >= now_ms - h * 3_600_000,
        None => true,
    }
    &&& match f.remaining_time {
        Some(RemainingTimeFilter::Permanent) => r.unban_time_ms is None,
        Some(b) => match r.unban_time_ms {
            Some(u) => u <= now_ms + bucket_window_ms(b),
            None => false,
        },
        None => true,
    }
}

/// The subsequence of `s` whose records pass the filter, in the order of
/// `s`.
pub open spec fn filtered_recs(
    s: Seq<BannedIPView>,
    f: BannedIpFilterView,
    now_ms: int,
) -> Seq<BannedIPView>
    decreases s.len(),
{
    if s.len() == 0 {
        Seq::empty()
    } else {
        let rest = filtered_recs(s.drop_last(), f, now_ms);
        if rec_matches(s.last(), f, now_ms) {
            rest.push(s.last())
        } else {
            rest
        }
    }
}

/// Filtering never grows the collection: the filtered view has at most as
/// many records as the raw collection, for every filter and every instant.
pub proof fn lemma_filtered_len(s: Seq<BannedIPView>, f: BannedIpFilterView, now_ms: int)
    ensures
        filtered_recs(s, f, now_ms).len() <= s.len(),
    decreases s.len(),
{
    if s.len() > 0 {
        lemma_filtered_len(s.drop_last(), f, now_ms);
    }
}

/// With no active predicate the filter is the identity: every record
/// passes and the order is untouched.
pub proof fn lemma_filtered_identity(s: Seq<BannedIPView>, f: BannedIpFilterView, now_ms: int)
    requires
        !spec_has_active_filters(f),
    ensures
        filtered_recs(s, f, now_ms) =~= s,
    decreases s.len(),
{
    if s.len() > 0 {
        lemma_filtered_identity(s.drop_last(), f, now_ms);
        assert(filtered_recs(s, f, now_ms) =~= s.drop_last().push(s.last()));
        assert(s.drop_last().push(s.last()) =~= s);
    }
}

/// Every record of the filtered view passes the filter.
pub proof fn lemma_filtered_pass(s: Seq<BannedIPView>, f: BannedIpFilterView, now_ms: int)
    ensures
        forall|i: int|
            0 <= i < filtered_recs(s, f, now_ms).len() ==> rec_matches(
                #[trigger] filtered_recs(s, f, now_ms)[i],
                f,
                now_ms,
            ),
    decreases s.len(),
{
    if s.len() > 0 {
        lemma_filtered_pass(s.drop_last(), f, now_ms);
        let prev = filtered_recs(s.drop_last(), f, now_ms);
        let fr = filtered_recs(s, f, now_ms);
        assert forall|i: int| 0 <= i < fr.len() implies rec_matches(fr[i], f, now_ms) by {
            if rec_matches(s.last(), f, now_ms) {
                assert(fr == prev.push(s.last()));
                if i < prev.len() {
                    assert(fr[i] == prev[i]);
                } else {
                    assert(fr[i] == s.last());
                }
            } else {
                assert(fr == prev);
            }
        }
    }
}

/// Views of a sequence of records.
pub open spec fn ip_views(s: Seq<BannedIP>) -> Seq<BannedIPView> {
    s.map_values(|r: BannedIP| r@)
}

impl BannedIpFilter {
    /// The empty filter: no active axis, version 0.
    pub fn new() -> (r: Self)
        ensures
            !spec_has_active_filters(r@),
            r@.version == 0,
    {
        BannedIpFilter {
            ip_starting_digit: None,
            jail: None,
            ban_age_hours: None,
            remaining_time: None,
            version: 0,
        }
    }

    /// Version stamp; increments on every predicate mutation.
    pub fn version(&self) -> (r: u64)
        ensures
            r == self@.version,
    {
        self.version
    }

    /// The active leading-digit predicate, if set.
    pub fn ip_starting_digit(&self) -> (r: Option<char>)
        ensures
            r == self@.ip_starting_digit,
    {
        self.ip_starting_digit
    }

    /// The active jail-name predicate, if set.
    pub fn jail(&self) -> (r: Option<&String>)
        ensures
            (match r {
                Some(j) => self@.jail == Some(j@),
                None => self@.jail is None,
            }),
    {
        self.jail.as_ref()
    }

    /// The active ban-age predicate in hours, if set.
    pub fn ban_age_hours(&self) -> (r: Option<u32>)
        ensures
            (match r {
                Some(h) => self@.ban_age_hours == Some(h as int),
                None => self@.ban_age_hours is None,
            }),
    {
        self.ban_age_hours
    }

    /// The active remaining-time bucket, if set.
    pub fn remaining_time(&self) -> (r: Option<RemainingTimeFilter>)
        ensures
            r == self@.remaining_time,
    {
        self.remaining_time
    }

    /// Whether any predicate axis is set.
    pub fn has_active_filters(&self) -> (r: bool)
        ensures
            r == spec_has_active_filters(self@),
    {
        self.ip_starting_digit.is_some() || self.jail.is_some() || self.ban_age_hours.is_some()
            || self.remaining_time.is_some()
    }

    /// Steps the leading-digit axis through `'1'` to `'9'` and back to
    /// unset, and increments the version.
    pub fn cycle_ip_digit_filter(&mut self)
        requires
            old(self)@.version < u64::MAX,
        ensures
            final(self)@.version == old(self)@.version + 1,
            final(self)@.ip_starting_digit == (match old(self)@.ip_starting_digit {
                None => Some('1'),
                Some(d) => if d == '1' {
                    Some('2')
                } else if d == '2' {
                    Some('3')
                } else if d == '3' {
                    Some('4')
                } else if d == '4' {
                    Some('5')
                } else if d == '5' {
                    Some('6')
                } else if d == '6' {
                    Some('7')
                } else if d == '7' {
                    Some('8')
                } else if d == '8' {
                    Some('9')
                } else {
                    None::<char>
                },
            }),
            final(self)@.jail == old(self)@.jail,
            final(self)@.ban_age_hours == old(self)@.ban_age_hours,
            final(self)@.remaining_time == old(self)@.remaining_time,
    {
        self.ip_starting_digit = match self.ip_starting_digit {
            None => Some('1'),
            Some('1') => Some('2'),
            Some('2') => Some('3'),
            Some('3') => Some('4'),
            Some('4') => Some('5'),
            Some('5') => Some('6'),
            Some('6') => Some('7'),
            Some('7') => Some('8'),
            Some('8') => Some('9'),
            _ => None,
        };
        self.version = self.version + 1;
    }

    /// Steps the jail axis through the given jail names in order, then back
    /// to unset, and increments the version. An empty list of names leaves
    /// the filter untouched, version included.
    pub fn cycle_jail_filter(&mut self, available: &Vec<String>)
        requires
            old(self)@.version < u64::MAX,
        ensures
            available@.len() == 0 ==> *final(self) == *old(self),
            available@.len() > 0 ==> {
                &&& final(self)@.version == old(self)@.version + 1
                &&& final(self)@.ip_starting_digit == old(self)@.ip_starting_digit
                &&& final(self)@.ban_age_hours == old(self)@.ban_age_hours
                &&& final(self)@.remaining_time == old(self)@.remaining_time
            },
    {
        if available.len() == 0 {
            return ;
        }
        let next: Option<String> = match &self.jail {
            None => Some(available[0].clone()),
            Some(current) => {
                let mut idx: Option<usize> = None;
                let mut i: usize = 0;
                while i < available.len()
                    invariant
                        i <= available@.len(),
                    decreases available@.len() - i,
                {
                    if available[i] == *current {
                        idx = Some(i);
                        break ;
                    }
                    i = i + 1;
                }
                match idx {
                    Some(k) if k < available.len() - 1 => Some(available[k + 1].clone()),
                    _ => None,
                }
            },
        };
        self.jail = next;
        self.version = self.version + 1;
    }

    /// Steps the ban-age axis through 1, 24 and 168 hours and back to
    /// unset, and increments the version.
    pub fn cycle_ban_age_filter(&mut self)
        requires
            old(self)@.version < u64::MAX,
        ensures
            final(self)@.version == old(self)@.version + 1,
            final(self)@.ban_age_hours == (if old(self)@.ban_age_hours is None {
                Some(1int)
            } else if old(self)@.ban_age_hours == Some(1int) {
                Some(24int)
            } else if old(self)@.ban_age_hours == Some(24int) {
                Some(168int)
            } else {
                None::<int>
            }),
            final(self)@.ip_starting_digit == old(self)@.ip_starting_digit,
            final(self)@.jail == old(self)@.jail,
            final(self)@.remaining_time == old(self)@.remaining_time,
    {
        self.ban_age_hours = match self.ban_age_hours {
            None => Some(1),
            Some(1) => Some(24),
            Some(24) => Some(168),
            _ => None,
        };
        self.version = self.version + 1;
    }

    /// Steps the remaining-time axis through the four buckets and back to
    /// unset, and increments the version.
    pub fn cycle_remaining_time_filter(&mut self)
        requires
            old(self)@.version < u64::MAX,
        ensures
            final(self)@.version == old(self)@.version + 1,
            final(self)@.remaining_time == (match old(self)@.remaining_time {
                None => Some(RemainingTimeFilter::Soon),
                Some(RemainingTimeFilter::Soon) => Some(RemainingTimeFilter::Today),
                Some(RemainingTimeFilter::Today) => Some(RemainingTimeFilter::ThisWeek),
                Some(RemainingTimeFilter::ThisWeek) => Some(RemainingTimeFilter::Permanent),
                Some(RemainingTimeFilter::Permanent) => None::<RemainingTimeFilter>,
            }),
            final(self)@.ip_starting_digit == old(self)@.ip_starting_digit,
            final(self)@.jail == old(self)@.jail,
            final(self)@.ban_age_hours == old(self)@.ban_age_hours,
    {
        self.remaining_time = match self.remaining_time {
            None => Some(RemainingTimeFilter::Soon),
            Some(RemainingTimeFilter::Soon) => Some(RemainingTimeFilter::Today),
            Some(RemainingTimeFilter::Today) => Some(RemainingTimeFilter::ThisWeek),
            Some(RemainingTimeFilter::ThisWeek) => Some(RemainingTimeFilter::Permanent),
            Some(RemainingTimeFilter::Permanent) => None,
        };
        self.version = self.version + 1;
    }

    /// Clears all four predicate axes and increments the version: the
    /// counter stays monotonic even across a reset.
    pub fn clear_filters(&mut self)
        requires
            old(self)@.version < u64::MAX,
        ensures
            final(self)@.version == old(self)@.version + 1,
            !spec_has_active_filters(final(self)@),
    {
        self.ip_starting_digit = None;
        self.jail = None;
        self.ban_age_hours = None;
        self.remaining_time = None;
        self.version = self.version + 1;
    }

    /// Whether one record passes the filter at instant `now_ms`.
    pub fn matches(&self, rec: &BannedIP, now_ms: i64) -> (r: bool)
        ensures
            r == rec_matches(rec@, self@, now_ms as int),
    {
        let digit_ok = match self.ip_starting_digit {
            Some(d) => {
                if rec.ip.as_str().unicode_len() > 0 {
                    rec.ip.as_str().get_char(0) == d
                } else {
                    false
                }
            },
            None => true,
        };
        if !digit_ok {
            return false;
        }
        let jail_ok = match &self.jail {
            Some(j) => *j == rec.jail,
            None => true,
        };
        if !jail_ok {
            return false;
        }
        let age_ok = match self.ban_age_hours {
            Some(h) => {
                let cutoff: i128 = now_ms as i128 - (h as i128) * 3_600_000;
                rec.ban_time_ms as i128 >= cutoff
            },
            None => true,
        };
        if !age_ok {
            return false;
        }
        match self.remaining_time {
            Some(RemainingTimeFilter::Permanent) => rec.unban_time_ms.is_none(),
            Some(b) => match rec.unban_time_ms {
                Some(u) => {
                    let window: i128 = match b {
                        RemainingTimeFilter::Soon => 3_600_000,
                        RemainingTimeFilter::Today => 86_400_000,
                        RemainingTimeFilter::ThisWeek => 604_800_000,
                        RemainingTimeFilter::Permanent => 0,
                    };
                    u as i128 <= now_ms as i128 + window
                },
                None => false,
            },
            None => true,
        }
    }
}

/// Builds the filtered view of `src` at instant `now_ms`: the records that
/// pass the filter, in their original order.
pub fn filter_records(src: &Vec<BannedIP>, f: &BannedIpFilter, now_ms: i64) -> (out: Vec<BannedIP>)
    ensures
        ip_views(out@) =~= filtered_recs(ip_views(src@), f@, now_ms as int),
{
    let mut out: Vec<BannedIP> = Vec::new();
    let mut i: usize = 0;
    proof {
        assert(ip_views(src@).take(0) =~= Seq::<BannedIPView>::empty());
        assert(ip_views(out@) =~= Seq::<BannedIPView>::empty());
    }
    while i < src.len()
        invariant
            i <= src@.len(),
            ip_views(out@) =~= filtered_recs(ip_views(src@).take(i as int), f@, now_ms as int),
        decreases src@.len() - i,
    {
        let ghost pre = ip_views(src@).take(i as int);
        let ghost cur = ip_views(src@).take(i as int + 1);
        proof {
            assert(cur.drop_last() =~= pre);
            assert(cur.last() == src@[i as int]@);
        }
        if f.matches(&src[i], now_ms) {
            out.push(src[i].duplicate());
            proof {
                assert(ip_views(out@) =~= filtered_recs(pre, f@, now_ms as int).push(
                    src@[i as int]@,
                ));
            }
        }
        i = i + 1;
    }
    proof {
        assert(ip_views(src@).take(src@.len() as int) =~= ip_views(src@));
    }
    out
}

} // verus!
