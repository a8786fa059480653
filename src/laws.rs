use vstd::prelude::*;

use crate::alarm::close_duration;
use crate::datetime::elapsed_secs_spec;
use crate::report::{alarms_in, included, pattern_pass, report_rows, row_of};
use crate::datetime::Window;
use crate::resident::{
    active_at, active_not_at, closed, has_active_at, is_key, opened, with_data, ActiveAlarm, Alarm,
    Resident,
};
use crate::store::{holds_key, keys_unique};

verus! {

/// A list with no open alarm at `t` keeps all of it, and none at `t`.
proof fn lemma_none_at(s: Seq<ActiveAlarm>, t: i64)
    requires
        forall|k: int| 0 <= k < s.len() ==> (#[trigger] s[k]).time != t,
    ensures
        active_not_at(s, t) == s,
        active_at(s, t).len() == 0,
    decreases s.len(),
{
    reveal(Seq::filter);
    if s.len() > 0 {
        lemma_none_at(s.drop_last(), t);
        assert(s.drop_last().push(s.last()) == s);
    }
}

/// Once a resident is stored, a second insert under its name and birth date
/// is refused as a duplicate; an insert-or-update under that key leaves
/// exactly one resident with it, carrying the second payload's location and
/// residency start.
pub proof fn law_second_insert_of_key(s: Seq<Resident>, first: Resident, second: Resident, after: Seq<Resident>)
    requires
        keys_unique(s),
        !holds_key(s, first.name@, first.birth),
        second.name@ == first.name@,
        second.birth == first.birth,
        forall|i: int|
            0 <= i < s.len() + 1 && is_key(#[trigger] s.push(first)[i], second.name@, second.birth)
                ==> after == s.push(first).update(
                i,
                with_data(s.push(first)[i], second.location, second.resident_since),
            ),
    ensures
        holds_key(s.push(first), second.name@, second.birth),
        after.len() == s.len() + 1,
        is_key(after[s.len() as int], second.name@, second.birth),
        after[s.len() as int].location == second.location,
        after[s.len() as int].resident_since == second.resident_since,
        forall|j: int|
            0 <= j < after.len() && is_key(#[trigger] after[j], second.name@, second.birth) ==> j
                == s.len(),
{
    let s1 = s.push(first);
    let n = s.len() as int;
    assert(is_key(s1[n], second.name@, second.birth));
    assert forall|j: int|
        0 <= j < after.len() && is_key(#[trigger] after[j], second.name@, second.birth) implies j
        == n by {
        if j != n {
            assert(after[j] == s[j]);
        }
    }
}

/// Opening an alarm and then closing it leaves the open alarms as they were
/// and records one closed alarm, at the opening time and with the message
/// given, that lasts exactly the duration given where one is, and otherwise
/// the whole seconds elapsed, never fewer than zero.
pub proof fn law_open_then_close(
    r0: Resident,
    r1: Resident,
    r2: Resident,
    t: i64,
    message: Seq<char>,
    duration: Option<u64>,
    now: i64,
)
    requires
        !has_active_at(r0, t),
        opened(r0, r1, t, message),
        closed(r1, r2, t, close_duration(duration, t, now)),
    ensures
        has_active_at(r1, t),
        r2.active_alarms@ == r0.active_alarms@,
        r2.alarms@.len() == r0.alarms@.len() + 1,
        r2.alarms@.drop_last() == r0.alarms@,
        r2.alarms@.last().time == t,
        r2.alarms@.last().message@ == message,
        duration matches Some(d) ==> r2.alarms@.last().duration_sec == d,
        duration is None ==> r2.alarms@.last().duration_sec == elapsed_secs_spec(now, t),
        duration is None && now >= t ==> r2.alarms@.last().duration_sec == (now - t) / 1000,
{
    let a0 = r0.active_alarms@;
    let a1 = r1.active_alarms@;
    assert(a1 == a0.push(a1.last()));
    assert(a1[a0.len() as int].time == t);
    assert forall|k: int| 0 <= k < a0.len() implies (#[trigger] a0[k]).time != t by {
        if a0[k].time == t {
            assert(r0.active_alarms@[k].time == t);
        }
    }
    lemma_none_at(a0, t);
    reveal(Seq::filter);
    assert(a1.drop_last() == a0);
    assert(active_at(a1, t) == active_at(a0, t).push(a1.last()));
    assert(active_not_at(a1, t) == active_not_at(a0, t));
    assert(r2.alarms@.drop_last() == r1.alarms@);
}

/// An alarm once closed is no longer open: closing it again finds nothing.
pub proof fn law_closed_alarm_is_gone(r0: Resident, r1: Resident, t: i64, d: u64)
    requires
        closed(r0, r1, t, d),
    ensures
        !has_active_at(r1, t),
{
    let p = |a: ActiveAlarm| a.time != t;
    assert forall|k: int| 0 <= k < r1.active_alarms@.len() implies (
    #[trigger] r1.active_alarms@[k]).time != t by {
        r0.active_alarms@.lemma_filter_pred(p, k);
    }
}

/// A resident that passes the patterns and belongs in the report has its line in it.
pub proof fn lemma_report_rows_contains(
    s: Seq<Resident>,
    w: Window,
    names: Option<Seq<bool>>,
    locations: Option<Seq<bool>>,
    n: int,
    k: int,
)
    requires
        0 <= k < n <= s.len(),
        pattern_pass(names, locations, k),
        included(s[k], w),
    ensures
        report_rows(s, w, names, locations, n).contains(row_of(s[k], w)),
    decreases n,
{
    let prev = report_rows(s, w, names, locations, n - 1);
    if k == n - 1 {
        assert(prev.push(row_of(s[k], w)).last() == row_of(s[k], w));
    } else {
        lemma_report_rows_contains(s, w, names, locations, n - 1, k);
        let j = choose|j: int| 0 <= j < prev.len() && prev[j] == row_of(s[k], w);
        if pattern_pass(names, locations, n - 1) && included(s[n - 1], w) {
            assert(prev.push(row_of(s[n - 1], w))[j] == row_of(s[k], w));
        }
    }
}

/// Every line of a report is that of a resident that passes the patterns and
/// belongs in the report.
pub proof fn lemma_report_rows_origin(
    s: Seq<Resident>,
    w: Window,
    names: Option<Seq<bool>>,
    locations: Option<Seq<bool>>,
    n: int,
    j: int,
)
    requires
        0 <= n <= s.len(),
        0 <= j < report_rows(s, w, names, locations, n).len(),
    ensures
        exists|k: int|
            0 <= k < n && pattern_pass(names, locations, k) && included(s[k], w)
                && report_rows(s, w, names, locations, n)[j] == row_of(#[trigger] s[k], w),
    decreases n,
{
    let prev = report_rows(s, w, names, locations, n - 1);
    if j < prev.len() {
        lemma_report_rows_origin(s, w, names, locations, n - 1, j);
        let k = choose|k: int|
            0 <= k < n - 1 && pattern_pass(names, locations, k) && included(s[k], w) && prev[j]
                == row_of(#[trigger] s[k], w);
        assert(report_rows(s, w, names, locations, n)[j] == row_of(s[k], w));
    } else {
        assert(report_rows(s, w, names, locations, n)[j] == row_of(s[n - 1], w));
    }
}

/// A resident with an open alarm appears in every report that its patterns
/// let it into, whatever the window; a resident with no open alarm and no
/// closed alarm opened within the window appears in none: every line of the
/// report is that of another resident.
pub proof fn law_report_inclusion(
    s: Seq<Resident>,
    w: Window,
    names: Option<Seq<bool>>,
    locations: Option<Seq<bool>>,
    i: int,
)
    requires
        0 <= i < s.len(),
    ensures
        s[i].active_alarms@.len() > 0 && pattern_pass(names, locations, i) ==> report_rows(
            s,
            w,
            names,
            locations,
            s.len() as int,
        ).contains(row_of(s[i], w)),
        s[i].active_alarms@.len() == 0 && (forall|k: int|
            0 <= k < s[i].alarms@.len() ==> !(w.from <= (#[trigger] s[i].alarms@[k]).time
                <= w.to)) ==> {
            &&& !included(s[i], w)
            &&& forall|j: int|
                0 <= j < report_rows(s, w, names, locations, s.len() as int).len() ==> exists|k: int|
                    0 <= k < s.len() && k != i && #[trigger] report_rows(s, w, names, locations, s.len() as int)[j]
                        == row_of(#[trigger] s[k], w)
        },
{
    if s[i].active_alarms@.len() > 0 && pattern_pass(names, locations, i) {
        lemma_report_rows_contains(s, w, names, locations, s.len() as int, i);
    }
    let h = s[i].alarms@;
    let p = |a: Alarm| w.from <= a.time && a.time <= w.to;
    if s[i].active_alarms@.len() == 0 && forall|k: int|
        0 <= k < h.len() ==> !(w.from <= (#[trigger] h[k]).time <= w.to) {
        if alarms_in(h, w).len() > 0 {
            h.lemma_filter_contains_rev(p, alarms_in(h, w)[0]);
            h.lemma_filter_pred(p, 0);
        }
        let rows = report_rows(s, w, names, locations, s.len() as int);
        assert forall|j: int| 0 <= j < rows.len() implies exists|k: int|
            0 <= k < s.len() && k != i && #[trigger] rows[j] == row_of(#[trigger] s[k], w) by {
            lemma_report_rows_origin(s, w, names, locations, s.len() as int, j);
            let k = choose|k: int|
                0 <= k < s.len() && pattern_pass(names, locations, k) && included(s[k], w)
                    && rows[j] == row_of(#[trigger] s[k], w);
            assert(k != i);
        }
    }
}

/// Name and location patterns are joined by "or": a resident whose location
/// matches is let in even where its name does not match.
pub proof fn law_patterns_union(
    s: Seq<Resident>,
    w: Window,
    names: Seq<bool>,
    locations: Seq<bool>,
    i: int,
)
    requires
        0 <= i < s.len(),
        names.len() == s.len(),
        locations.len() == s.len(),
        !names[i],
        locations[i],
        included(s[i], w),
    ensures
        report_rows(s, w, Some(names), Some(locations), s.len() as int).contains(row_of(s[i], w)),
{
    lemma_report_rows_contains(s, w, Some(names), Some(locations), s.len() as int, i);
}

} // verus!
