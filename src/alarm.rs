use vstd::prelude::*;

use crate::datetime::{elapsed_secs, elapsed_secs_spec};
use crate::error::ResidentError;
use crate::resident::{
    active_at, active_not_at, closed, has_active_at, opened, ActiveAlarm, Alarm, Resident,
};

verus! {

/// How long an alarm opened at `open_time` is recorded to have lasted when it
/// is closed at `now`: the duration given, or else the whole seconds elapsed.
pub open spec fn close_duration(duration: Option<u64>, open_time: i64, now: i64) -> u64 {
    match duration {
        Some(d) => d,
        None => elapsed_secs_spec(now, open_time),
    }
}

/// Filtering a list one element longer adds that element when it passes.
proof fn lemma_filter_take_succ(s: Seq<ActiveAlarm>, j: int, p: spec_fn(ActiveAlarm) -> bool)
    requires
        0 <= j < s.len(),
    ensures
        s.take(j + 1).filter(p) == if p(s[j]) {
            s.take(j).filter(p).push(s[j])
        } else {
            s.take(j).filter(p)
        },
{
    reveal(Seq::filter);
    assert(s.take(j + 1).drop_last() == s.take(j));
}

/// Keeping the open alarms not at `t` of a list one element longer.
proof fn lemma_not_at_take_succ(s: Seq<ActiveAlarm>, j: int, t: i64)
    requires
        0 <= j < s.len(),
    ensures
        active_not_at(s.take(j + 1), t) == if s[j].time != t {
            active_not_at(s.take(j), t).push(s[j])
        } else {
            active_not_at(s.take(j), t)
        },
{
    reveal(Seq::filter);
    assert(s.take(j + 1).drop_last() == s.take(j));
}

/// No open alarm among the first `m` was opened at `t`, so none is kept.
proof fn lemma_none_at_prefix(s: Seq<ActiveAlarm>, t: i64, m: int)
    requires
        0 <= m <= s.len(),
        forall|q: int| 0 <= q < m ==> (#[trigger] s[q]).time != t,
    ensures
        active_at(s.take(m), t).len() == 0,
    decreases m,
{
    if m > 0 {
        lemma_none_at_prefix(s, t, m - 1);
        lemma_filter_take_succ(s, m - 1, |a: ActiveAlarm| a.time == t);
    }
}

/// The first open alarm at `t`, found at `k`, heads the list of those at `t`.
proof fn lemma_first_active_at(s: Seq<ActiveAlarm>, t: i64, k: int)
    requires
        0 <= k < s.len(),
        s[k].time == t,
        forall|m: int| 0 <= m < k ==> (#[trigger] s[m]).time != t,
    ensures
        active_at(s, t).len() > 0,
        active_at(s, t)[0] == s[k],
{
    let p = |a: ActiveAlarm| a.time == t;
    lemma_none_at_prefix(s, t, k);
    lemma_filter_take_succ(s, k, p);
    assert(s.take(k + 1).filter(p) =~= seq![s[k]]);
    assert(s == s.take(k + 1) + s.skip(k + 1));
    Seq::filter_distributes_over_add(s.take(k + 1), s.skip(k + 1), p);
}

impl Resident {
    /// Opens an alarm at `now` with text `message` and returns its opening
    /// time. Where an open alarm of this resident was opened at that very time,
    /// `DuplicateAlarm` and nothing changes: an opening time names one alarm.
    pub fn open_alarm(&mut self, message: &str, now: i64) -> (r: Result<i64, ResidentError>)
        ensures
            has_active_at(*old(self), now) ==> r == Err::<i64, ResidentError>(
                ResidentError::DuplicateAlarm,
            ) && *final(self) == *old(self),
            !has_active_at(*old(self), now) ==> r == Ok::<i64, ResidentError>(now) && opened(
                *old(self),
                *final(self),
                now,
                message@,
            ),
    {
        let mut k: usize = 0;
        while k < self.active_alarms.len()
            invariant
                k <= self.active_alarms@.len(),
                forall|m: int| 0 <= m < k ==> (#[trigger] self.active_alarms@[m]).time != now,
            decreases self.active_alarms@.len() - k,
        {
            if self.active_alarms[k].time == now {
                return Err(ResidentError::DuplicateAlarm);
            }
            k = k + 1;
        }
        self.active_alarms.push(ActiveAlarm { time: now, message: String::from_str(message) });
        assert(self.active_alarms@.drop_last() == old(self).active_alarms@);
        Ok(now)
    }

    /// Closes the open alarm opened at `open_time`: it leaves the open alarms
    /// and is recorded as closed, lasting `duration` seconds where that is
    /// given and otherwise the whole seconds from `open_time` to `now`, never
    /// fewer than zero. Returns the recorded duration. Where no open alarm was
    /// opened at `open_time`, `AlarmNotFound` and nothing changes.
    pub fn close_alarm(&mut self, open_time: i64, duration: Option<u64>, now: i64) -> (r: Result<
        u64,
        ResidentError,
    >)
        ensures
            !has_active_at(*old(self), open_time) ==> r == Err::<u64, ResidentError>(
                ResidentError::AlarmNotFound,
            ) && *final(self) == *old(self),
            has_active_at(*old(self), open_time) ==> r == Ok::<u64, ResidentError>(
                close_duration(duration, open_time, now),
            ) && closed(*old(self), *final(self), open_time, close_duration(duration, open_time, now)),
    {
        let ghost before = *self;
        let mut k: usize = 0;
        while k < self.active_alarms.len() && self.active_alarms[k].time != open_time
            invariant
                k <= self.active_alarms@.len(),
                forall|m: int| 0 <= m < k ==> (#[trigger] self.active_alarms@[m]).time != open_time,
            decreases self.active_alarms@.len() - k,
        {
            k = k + 1;
        }
        if k == self.active_alarms.len() {
            return Err(ResidentError::AlarmNotFound);
        }
        proof {
            lemma_first_active_at(self.active_alarms@, open_time, k as int);
        }
        let message = self.active_alarms[k].message.clone();
        let d = match duration {
            Some(d) => d,
            None => elapsed_secs(now, open_time),
        };
        let mut rest: Vec<ActiveAlarm> = Vec::new();
        std::mem::swap(&mut self.active_alarms, &mut rest);
        let ghost all = rest@;
        let n = rest.len();
        let mut j: usize = 0;
        while rest.len() > 0
            invariant
                n == all.len(),
                j + rest@.len() == n,
                rest@ == all.skip(j as int),
                self.active_alarms@ == active_not_at(all.take(j as int), open_time),
                self.name == before.name,
                self.birth == before.birth,
                self.location == before.location,
                self.resident_since == before.resident_since,
                self.alarms == before.alarms,
            decreases rest@.len(),
        {
            let a = rest.remove(0);
            assert(a == all[j as int]);
            proof {
                lemma_not_at_take_succ(all, j as int, open_time);
            }
            if a.time != open_time {
                self.active_alarms.push(a);
            }
            j = j + 1;
            assert(rest@ == all.skip(j as int));
        }
        assert(all.take(j as int) == all);
        self.alarms.push(Alarm { time: open_time, duration_sec: d, message });
        Ok(d)
    }
}

} // verus!
