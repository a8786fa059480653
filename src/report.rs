use vstd::prelude::*;
use vstd::seq_lib::to_multiset_build;
use vstd::seq_lib::to_multiset_insert;

use crate::datetime::Window;
use crate::resident::{Alarm, Resident};
use crate::store::RecordStore;
use crate::text::{lemma_text_le_total, lemma_text_le_trans, text_le, text_le_exec};

verus! {

/// One resident's line of a report.
#[derive(Debug, Clone, PartialEq, Eq)]
pub struct ReportRow {
    pub name: String,
    pub location: String,
    /// Closed alarms opened within the window.
    pub alarms_count: usize,
    /// Sum of their durations, in seconds.
    pub alarms_duration_total: u128,
    /// Their mean duration in whole seconds, rounded down; `None` where there are none.
    pub alarms_avg_duration: Option<u64>,
    /// The earliest of their opening times.
    pub alarms_min_time: Option<i64>,
    /// The latest of their opening times.
    pub alarms_max_time: Option<i64>,
    /// Open alarms, whenever opened.
    pub active_alarms_count: usize,
}

/// The closed alarms of a list opened within the window, in order.
pub open spec fn alarms_in(s: Seq<Alarm>, w: Window) -> Seq<Alarm> {
    s.filter(|a: Alarm| w.from <= a.time && a.time <= w.to)
}

/// The sum of the durations of a list of closed alarms.
pub open spec fn total_duration(s: Seq<Alarm>) -> int
    decreases s.len(),
{
    if s.len() == 0 {
        0
    } else {
        total_duration(s.drop_last()) + s.last().duration_sec
    }
}

/// The earliest opening time of a list of closed alarms.
pub open spec fn min_time(s: Seq<Alarm>) -> Option<i64>
    decreases s.len(),
{
    if s.len() == 0 {
        None
    } else {
        match min_time(s.drop_last()) {
            Some(m) if m <= s.last().time => Some(m),
            _ => Some(s.last().time),
        }
    }
}

/// The latest opening time of a list of closed alarms.
pub open spec fn max_time(s: Seq<Alarm>) -> Option<i64>
    decreases s.len(),
{
    if s.len() == 0 {
        None
    } else {
        match max_time(s.drop_last()) {
            Some(m) if m >= s.last().time => Some(m),
            _ => Some(s.last().time),
        }
    }
}

/// The report line of a resident for a window.
pub open spec fn row_of(r: Resident, w: Window) -> ReportRow {
    let h = alarms_in(r.alarms@, w);
    ReportRow {
        name: r.name,
        location: r.location,
        alarms_count: h.len() as usize,
        alarms_duration_total: total_duration(h) as u128,
        alarms_avg_duration: if h.len() == 0 {
            None
        } else {
            Some((total_duration(h) / (h.len() as int)) as u64)
        },
        alarms_min_time: min_time(h),
        alarms_max_time: max_time(h),
        active_alarms_count: r.active_alarms@.len() as usize,
    }
}

/// A resident belongs in a report when it has an open alarm, or a closed
/// alarm opened within the window.
pub open spec fn included(r: Resident, w: Window) -> bool {
    r.active_alarms@.len() > 0 || alarms_in(r.alarms@, w).len() > 0
}

/// Whether the resident at `i` passes the name and location patterns, given
/// for each resident whether its name, and its location, match. A pattern
/// that is not given lets every resident pass; where both are given, passing
/// one of them is enough.
pub open spec fn pattern_pass(names: Option<Seq<bool>>, locations: Option<Seq<bool>>, i: int) -> bool {
    match (names, locations) {
        (Some(n), Some(l)) => n[i] || l[i],
        (Some(n), None) => n[i],
        (None, Some(l)) => l[i],
        (None, None) => true,
    }
}

/// The per-resident answers of a pattern, where one was given.
pub open spec fn hits_view(h: Option<&Vec<bool>>) -> Option<Seq<bool>> {
    match h {
        Some(v) => Some(v@),
        None => None,
    }
}

/// The report lines of the first `n` residents, in store order.
pub open spec fn report_rows(
    s: Seq<Resident>,
    w: Window,
    names: Option<Seq<bool>>,
    locations: Option<Seq<bool>>,
    n: int,
) -> Seq<ReportRow>
    decreases n,
{
    if n <= 0 {
        seq![]
    } else {
        let prev = report_rows(s, w, names, locations, n - 1);
        if pattern_pass(names, locations, n - 1) && included(s[n - 1], w) {
            prev.push(row_of(s[n - 1], w))
        } else {
            prev
        }
    }
}

/// The lines come by location, ascending.
pub open spec fn sorted_by_location(rows: Seq<ReportRow>) -> bool {
    forall|i: int, j: int|
        0 <= i < j < rows.len() ==> text_le((#[trigger] rows[i]).location@, (#[trigger] rows[j]).location@)
}

proof fn lemma_alarms_in_take_succ(s: Seq<Alarm>, w: Window, j: int)
    requires
        0 <= j < s.len(),
    ensures
        alarms_in(s.take(j + 1), w) == if w.from <= s[j].time && s[j].time <= w.to {
            alarms_in(s.take(j), w).push(s[j])
        } else {
            alarms_in(s.take(j), w)
        },
{
    reveal(Seq::filter);
    assert(s.take(j + 1).drop_last() == s.take(j));
}

proof fn lemma_total_duration_bound(s: Seq<Alarm>)
    ensures
        0 <= total_duration(s) <= s.len() * (u64::MAX as int),
    decreases s.len(),
{
    if s.len() > 0 {
        lemma_total_duration_bound(s.drop_last());
    }
}

/// The report line of one resident for a window.
pub fn summarize(r: &Resident, w: Window) -> (row: ReportRow)
    ensures
        row == row_of(*r, w),
        r.alarms@.len() <= usize::MAX,
        r.active_alarms@.len() <= usize::MAX,
{
    let ghost s = r.alarms@;
    let mut count: usize = 0;
    let mut total: u128 = 0;
    let mut lo: Option<i64> = None;
    let mut hi: Option<i64> = None;
    let mut j: usize = 0;
    while j < r.alarms.len()
        invariant
            s == r.alarms@,
            j <= s.len(),
            count as int == alarms_in(s.take(j as int), w).len(),
            total as int == total_duration(alarms_in(s.take(j as int), w)),
            lo == min_time(alarms_in(s.take(j as int), w)),
            hi == max_time(alarms_in(s.take(j as int), w)),
            count <= j,
        decreases s.len() - j,
    {
        let a = &r.alarms[j];
        proof {
            lemma_alarms_in_take_succ(s, w, j as int);
        }
        if w.from <= a.time && a.time <= w.to {
            proof {
                let h = alarms_in(s.take(j as int), w);
                lemma_total_duration_bound(h);
                assert(h.push(s[j as int]).drop_last() == h);
                assert(count * (u64::MAX as int) <= (usize::MAX as int) * (u64::MAX as int))
                    by (nonlinear_arith)
                    requires
                        count <= usize::MAX,
                ;
            }
            count = count + 1;
            total = total + a.duration_sec as u128;
            lo = match lo {
                Some(m) if m <= a.time => Some(m),
                _ => Some(a.time),
            };
            hi = match hi {
                Some(m) if m >= a.time => Some(m),
                _ => Some(a.time),
            };
        }
        j = j + 1;
    }
    assert(s.take(j as int) == s);
    let ghost h = alarms_in(s, w);
    let avg = if count == 0 {
        None
    } else {
        proof {
            lemma_total_duration_bound(h);
            assert(total as int / count as int <= u64::MAX) by (nonlinear_arith)
                requires
                    total as int <= count * (u64::MAX as int),
                    count > 0,
            ;
        }
        Some((total / count as u128) as u64)
    };
    ReportRow {
        name: r.name.clone(),
        location: r.location.clone(),
        alarms_count: count,
        alarms_duration_total: total,
        alarms_avg_duration: avg,
        alarms_min_time: lo,
        alarms_max_time: hi,
        active_alarms_count: r.active_alarms.len(),
    }
}

/// The lines, in the order of their locations; lines of equal location keep
/// their order.
pub fn sort_by_location(rows: Vec<ReportRow>) -> (r: Vec<ReportRow>)
    ensures
        r@.to_multiset() == rows@.to_multiset(),
        sorted_by_location(r@),
{
    let ghost all = rows@;
    let n = rows.len();
    let mut rest = rows;
    let mut out: Vec<ReportRow> = Vec::new();
    let mut j: usize = 0;
    assert(all.take(0) =~= Seq::<ReportRow>::empty());
    assert(out@ =~= Seq::<ReportRow>::empty());
    while rest.len() > 0
        invariant
            all == rows@,
            n == all.len(),
            j + rest@.len() == n,
            rest@ == all.skip(j as int),
            out@.to_multiset() == all.take(j as int).to_multiset(),
            sorted_by_location(out@),
        decreases rest@.len(),
    {
        let x = rest.remove(0);
        assert(x == all[j as int]);
        let mut p = out.len();
        while p > 0 && !text_le_exec(out[p - 1].location.as_str(), x.location.as_str())
            invariant
                p <= out@.len(),
                forall|k: int| p <= k < out@.len() ==> !text_le((#[trigger] out@[k]).location@, x.location@),
            decreases p,
        {
            p = p - 1;
        }
        proof {
            let o = out@;
            assert forall|k: int| 0 <= k < p implies text_le((#[trigger] o[k]).location@, x.location@) by {
                if k < p - 1 {
                    lemma_text_le_trans(o[k].location@, o[p - 1].location@, x.location@);
                }
            }
            assert forall|k: int| p <= k < o.len() implies text_le(x.location@, (#[trigger] o[k]).location@) by {
                lemma_text_le_total(o[k].location@, x.location@);
            }
            to_multiset_insert(o, p as int, x);
            assert(all.take(j as int).push(x) == all.take(j + 1));
            to_multiset_build(all.take(j as int), x);
        }
        out.insert(p, x);
        proof {
            let o = out@;
            assert forall|a: int, b: int| 0 <= a < b < o.len() implies text_le(
                (#[trigger] o[a]).location@,
                (#[trigger] o[b]).location@,
            ) by {
                if a < p && b > p {
                    lemma_text_le_trans(o[a].location@, x.location@, o[b].location@);
                }
            }
        }
        j = j + 1;
        assert(rest@ == all.skip(j as int));
    }
    assert(all.take(j as int) == all);
    out
}

/// A span of whole minutes as days, hours and minutes.
pub fn timedelta_parts(total_minutes: u64) -> (r: (u64, u64, u64))
    ensures
        r.0 * 1440 + r.1 * 60 + r.2 == total_minutes,
        r.1 < 24,
        r.2 < 60,
{
    (total_minutes / 1440, (total_minutes % 1440) / 60, total_minutes % 60)
}

impl RecordStore {
    /// The report over `window`: a line for each resident that passes the
    /// patterns (see `pattern_pass`; `names[i]` and `locations[i]` tell
    /// whether the name, and the location, of the resident at `i` match) and
    /// has an open alarm or a closed alarm opened within the window; the lines
    /// come by location, ascending.
    pub fn report(&self, window: Window, names: Option<&Vec<bool>>, locations: Option<&Vec<bool>>) -> (r:
        Vec<ReportRow>)
        requires
            names matches Some(v) ==> v@.len() == self@.len(),
            locations matches Some(v) ==> v@.len() == self@.len(),
        ensures
            r@.to_multiset() == report_rows(
                self@,
                window,
                hits_view(names),
                hits_view(locations),
                self@.len() as int,
            ).to_multiset(),
            sorted_by_location(r@),
    {
        let residents = self.residents();
        let ghost nv = hits_view(names);
        let ghost lv = hits_view(locations);
        let mut rows: Vec<ReportRow> = Vec::new();
        let mut i: usize = 0;
        while i < residents.len()
            invariant
                residents@ == self@,
                i <= self@.len(),
                nv == hits_view(names),
                lv == hits_view(locations),
                names matches Some(v) ==> v@.len() == self@.len(),
                locations matches Some(v) ==> v@.len() == self@.len(),
                rows@ == report_rows(self@, window, nv, lv, i as int),
            decreases self@.len() - i,
        {
            let pass = match (names, locations) {
                (Some(n), Some(l)) => n[i] || l[i],
                (Some(n), None) => n[i],
                (None, Some(l)) => l[i],
                (None, None) => true,
            };
            if pass {
                let row = summarize(&residents[i], window);
                proof {
                    self@[i as int].alarms@.lemma_filter_len(
                        |a: Alarm| window.from <= a.time && a.time <= window.to,
                    );
                    assert(pass == pattern_pass(nv, lv, i as int));
                }
                if row.alarms_count > 0 || row.active_alarms_count > 0 {
                    rows.push(row);
                }
            }
            i = i + 1;
        }
        sort_by_location(rows)
    }
}

} // verus!
