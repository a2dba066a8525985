//! Verified sorts for the two record collections: banned addresses by
//! address then jail name (lexicographic), log entries newest-first.
//!
//! Each sort returns a sequence that is sorted under its order and is a
//! permutation (equal multiset of views) of the input. Equal keys keep
//! their input order.

use vstd::prelude::*;
use vstd::relations::sorted_by;
use vstd::seq_lib::to_multiset_build;
use vstd::seq_lib::to_multiset_insert;

use crate::filter::ip_views;
use crate::records::{BannedIP, BannedIPView, LogEntry, LogEntryView};
use crate::text::{chars_cmp, lemma_chars_cmp_antisym, lemma_chars_cmp_eq, lemma_chars_cmp_trans, str_cmp};

verus! {

/// Order of the banned-address collection: by address, ties broken by jail
/// name, both lexicographic by Unicode scalar value.
pub open spec fn rec_le(a: BannedIPView, b: BannedIPView) -> bool {
    chars_cmp(a.ip, b.ip) < 0 || (chars_cmp(a.ip, b.ip) == 0 && chars_cmp(a.jail, b.jail) <= 0)
}

/// The banned-address order as a relation value, for `sorted_by`.
pub open spec fn rec_order() -> spec_fn(BannedIPView, BannedIPView) -> bool {
    |a: BannedIPView, b: BannedIPView| rec_le(a, b)
}

/// Newest-first order of the log buffer: by timestamp, descending.
pub open spec fn log_desc(a: LogEntryView, b: LogEntryView) -> bool {
    a.timestamp_ms >= b.timestamp_ms
}

/// The log order as a relation value, for `sorted_by`.
pub open spec fn log_order() -> spec_fn(LogEntryView, LogEntryView) -> bool {
    |a: LogEntryView, b: LogEntryView| log_desc(a, b)
}

/// Any two records are comparable under the banned-address order.
pub proof fn lemma_rec_le_total(a: BannedIPView, b: BannedIPView)
    ensures
        rec_le(a, b) || rec_le(b, a),
{
    lemma_chars_cmp_antisym(a.ip, b.ip);
    lemma_chars_cmp_antisym(a.jail, b.jail);
}

/// The banned-address order is transitive.
pub proof fn lemma_rec_le_trans(a: BannedIPView, b: BannedIPView, c: BannedIPView)
    requires
        rec_le(a, b),
        rec_le(b, c),
    ensures
        rec_le(a, c),
{
    lemma_chars_cmp_trans(a.ip, b.ip, c.ip);
    if chars_cmp(a.ip, b.ip) == 0 {
        lemma_chars_cmp_eq(a.ip, b.ip);
    }
    if chars_cmp(b.ip, c.ip) == 0 {
        lemma_chars_cmp_eq(b.ip, c.ip);
    }
    if chars_cmp(a.ip, c.ip) == 0 && chars_cmp(a.ip, b.ip) == 0 && chars_cmp(b.ip, c.ip) == 0 {
        lemma_chars_cmp_trans(a.jail, b.jail, c.jail);
    }
}

/// Mapping a view function commutes with inserting one element.
proof fn lemma_map_values_insert<A, B>(s: Seq<A>, i: int, x: A, f: spec_fn(A) -> B)
    requires
        0 <= i <= s.len(),
    ensures
        s.insert(i, x).map_values(f) =~= s.map_values(f).insert(i, f(x)),
{
    let lhs = s.insert(i, x).map_values(f);
    let rhs = s.map_values(f).insert(i, f(x));
    assert forall|j: int| 0 <= j < lhs.len() implies lhs[j] == rhs[j] by {
        if j < i {
            assert(s.insert(i, x)[j] == s[j]);
        } else if j == i {
            assert(s.insert(i, x)[j] == x);
        } else {
            assert(s.insert(i, x)[j] == s[j - 1]);
        }
    }
}

/// Mapping a view function commutes with pushing one element.
proof fn lemma_map_values_push<A, B>(s: Seq<A>, x: A, f: spec_fn(A) -> B)
    ensures
        s.push(x).map_values(f) =~= s.map_values(f).push(f(x)),
{
    let lhs = s.push(x).map_values(f);
    let rhs = s.map_values(f).push(f(x));
    assert forall|j: int| 0 <= j < lhs.len() implies lhs[j] == rhs[j] by {
        if j < s.len() {
            assert(s.push(x)[j] == s[j]);
        } else {
            assert(s.push(x)[j] == x);
        }
    }
}

/// Whether `a` sorts at or before `b` in the banned-address order.
fn rec_le_exec(a: &BannedIP, b: &BannedIP) -> (r: bool)
    ensures
        r == rec_le(a@, b@),
{
    let c = str_cmp(a.ip.as_str(), b.ip.as_str());
    if c < 0 {
        true
    } else if c == 0 {
        str_cmp(a.jail.as_str(), b.jail.as_str()) <= 0
    } else {
        false
    }
}

/// Inserts one record into a sorted vector, after any records of equal
/// key, keeping it sorted.
fn insert_banned_sorted(out: &mut Vec<BannedIP>, x: BannedIP)
    requires
        sorted_by(ip_views(old(out)@), rec_order()),
    ensures
        sorted_by(ip_views(final(out)@), rec_order()),
        ip_views(final(out)@).to_multiset() =~= ip_views(old(out)@).to_multiset().insert(x@),
        final(out)@.len() == old(out)@.len() + 1,
{
    let ghost v0 = ip_views(out@);
    let mut k: usize = 0;
    while k < out.len() && rec_le_exec(&out[k], &x)
        invariant
            k <= out@.len(),
            out@ == old(out)@,
            forall|i: int| 0 <= i < k ==> rec_le(#[trigger] ip_views(out@)[i], x@),
        decreases out@.len() - k,
    {
        k = k + 1;
    }
    proof {
        if (k as int) < out@.len() {
            assert(!rec_le(ip_views(out@)[k as int], x@));
            lemma_rec_le_total(ip_views(out@)[k as int], x@);
            assert(rec_le(x@, ip_views(out@)[k as int]));
        }
    }
    let ghost kk = k as int;
    out.insert(k, x);
    proof {
        lemma_map_values_insert(old(out)@, kk, x, |r: BannedIP| r@);
        assert(ip_views(out@) =~= v0.insert(kk, x@));
        to_multiset_insert(v0, kk, x@);
        let nv = ip_views(out@);
        assert forall|i: int, j: int| 0 <= i < j < nv.len() implies rec_order()(nv[i], nv[j]) by {
            if j < kk {
                assert(nv[i] == v0[i] && nv[j] == v0[j]);
                assert(sorted_by(v0, rec_order()));
                assert(rec_order()(v0[i], v0[j]));
            } else if j == kk {
                assert(nv[i] == v0[i] && nv[j] == x@);
                assert(rec_le(v0[i], x@));
            } else {
                assert(nv[j] == v0[j - 1]);
                assert(rec_le(x@, v0[kk]));
                if i < kk {
                    if j - 1 == kk {
                        assert(rec_le(v0[i], x@));
                        lemma_rec_le_trans(v0[i], x@, v0[kk]);
                    } else {
                        assert(rec_order()(v0[i], v0[j - 1]));
                    }
                } else if i == kk {
                    if j - 1 == kk {
                        assert(nv[i] == x@ && nv[j] == v0[kk]);
                    } else {
                        assert(rec_order()(v0[kk], v0[j - 1]));
                        lemma_rec_le_trans(x@, v0[kk], v0[j - 1]);
                    }
                } else {
                    assert(nv[i] == v0[i - 1]);
                    assert(rec_order()(v0[i - 1], v0[j - 1]));
                }
            }
        }
    }
}

/// Sorts the banned-address records by address then jail name,
/// lexicographically: the result is sorted and holds exactly the input
/// records (equal multiset of views); records of equal key keep their
/// input order.
pub fn sort_banned(v: &Vec<BannedIP>) -> (out: Vec<BannedIP>)
    ensures
        sorted_by(ip_views(out@), rec_order()),
        ip_views(out@).to_multiset() =~= ip_views(v@).to_multiset(),
        out@.len() == v@.len(),
{
    let mut out: Vec<BannedIP> = Vec::new();
    let mut i: usize = 0;
    proof {
        assert(ip_views(out@) =~= Seq::<BannedIPView>::empty());
        assert(ip_views(v@).take(0) =~= Seq::<BannedIPView>::empty());
        assert(ip_views(out@).to_multiset() =~= ip_views(v@).take(0).to_multiset());
    }
    while i < v.len()
        invariant
            i <= v@.len(),
            out@.len() == i,
            sorted_by(ip_views(out@), rec_order()),
            ip_views(out@).to_multiset() =~= ip_views(v@).take(i as int).to_multiset(),
        decreases v@.len() - i,
    {
        let ghost pre_take = ip_views(v@).take(i as int);
        insert_banned_sorted(&mut out, v[i].duplicate());
        proof {
            let cur_take = ip_views(v@).take(i as int + 1);
            assert(cur_take =~= pre_take.push(v@[i as int]@));
            to_multiset_build(pre_take, v@[i as int]@);
        }
        i = i + 1;
    }
    proof {
        assert(ip_views(v@).take(v@.len() as int) =~= ip_views(v@));
    }
    out
}

/// Views of a sequence of log entries.
pub open spec fn log_views(s: Seq<LogEntry>) -> Seq<LogEntryView> {
    s.map_values(|r: LogEntry| r@)
}

/// Inserts one log entry into a newest-first vector, after any entries of
/// equal timestamp, keeping it newest-first.
fn insert_log_sorted(out: &mut Vec<LogEntry>, x: LogEntry)
    requires
        sorted_by(log_views(old(out)@), log_order()),
    ensures
        sorted_by(log_views(final(out)@), log_order()),
        log_views(final(out)@).to_multiset() =~= log_views(old(out)@).to_multiset().insert(x@),
        final(out)@.len() == old(out)@.len() + 1,
{
    let ghost v0 = log_views(out@);
    let mut k: usize = 0;
    while k < out.len() && out[k].timestamp_ms >= x.timestamp_ms
        invariant
            k <= out@.len(),
            out@ == old(out)@,
            forall|i: int| 0 <= i < k ==> log_desc(#[trigger] log_views(out@)[i], x@),
        decreases out@.len() - k,
    {
        k = k + 1;
    }
    proof {
        if (k as int) < out@.len() {
            assert(!log_desc(log_views(out@)[k as int], x@));
            assert(log_desc(x@, log_views(out@)[k as int]));
        }
    }
    let ghost kk = k as int;
    out.insert(k, x);
    proof {
        lemma_map_values_insert(old(out)@, kk, x, |r: LogEntry| r@);
        assert(log_views(out@) =~= v0.insert(kk, x@));
        to_multiset_insert(v0, kk, x@);
        let nv = log_views(out@);
        assert forall|i: int, j: int| 0 <= i < j < nv.len() implies log_order()(nv[i], nv[j]) by {
            if j < kk {
                assert(nv[i] == v0[i] && nv[j] == v0[j]);
                assert(log_order()(v0[i], v0[j]));
            } else if j == kk {
                assert(nv[i] == v0[i] && nv[j] == x@);
            } else {
                assert(nv[j] == v0[j - 1]);
                if i < kk {
                    if j - 1 == kk {
                        assert(log_desc(v0[i], x@));
                    } else {
                        assert(log_order()(v0[i], v0[j - 1]));
                    }
                } else if i == kk {
                    if j - 1 == kk {
                        assert(nv[i] == x@ && nv[j] == v0[kk]);
                    } else {
                        assert(log_order()(v0[kk], v0[j - 1]));
                    }
                } else {
                    assert(nv[i] == v0[i - 1]);
                    assert(log_order()(v0[i - 1], v0[j - 1]));
                }
            }
        }
    }
}

/// Sorts log entries newest-first by timestamp: the result is sorted
/// descending and holds exactly the input entries (equal multiset of
/// views); entries of equal timestamp keep their input order.
pub fn sort_logs_desc(v: &Vec<LogEntry>) -> (out: Vec<LogEntry>)
    ensures
        sorted_by(log_views(out@), log_order()),
        log_views(out@).to_multiset() =~= log_views(v@).to_multiset(),
        out@.len() == v@.len(),
{
    let mut out: Vec<LogEntry> = Vec::new();
    let mut i: usize = 0;
    proof {
        assert(log_views(out@) =~= Seq::<LogEntryView>::empty());
        assert(log_views(v@).take(0) =~= Seq::<LogEntryView>::empty());
        assert(log_views(out@).to_multiset() =~= log_views(v@).take(0).to_multiset());
    }
    while i < v.len()
        invariant
            i <= v@.len(),
            out@.len() == i,
            sorted_by(log_views(out@), log_order()),
            log_views(out@).to_multiset() =~= log_views(v@).take(i as int).to_multiset(),
        decreases v@.len() - i,
    {
        let ghost pre_take = log_views(v@).take(i as int);
        insert_log_sorted(&mut out, v[i].duplicate());
        proof {
            let cur_take = log_views(v@).take(i as int + 1);
            assert(cur_take =~= pre_take.push(v@[i as int]@));
            to_multiset_build(pre_take, v@[i as int]@);
        }
        i = i + 1;
    }
    proof {
        assert(log_views(v@).take(v@.len() as int) =~= log_views(v@));
    }
    out
}

} // verus!
