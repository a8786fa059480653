use vstd::prelude::*;

use crate::error::ResidentError;
use crate::alarm::close_duration;
use crate::datetime::now_millis;
use crate::resident::{
    closed, has_active_at, is_key, opened, same_identity, with_data, Resident, ResidentKey,
};

verus! {

/// The resident list holds one named `name`, born at `birth`.
pub open spec fn holds_key(s: Seq<Resident>, name: Seq<char>, birth: i64) -> bool {
    exists|i: int| 0 <= i < s.len() && is_key(#[trigger] s[i], name, birth)
}

/// No two residents of the list share a name and a birth date.
pub open spec fn keys_unique(s: Seq<Resident>) -> bool {
    forall|i: int, j: int|
        0 <= i < s.len() && 0 <= j < s.len() && i != j ==> !is_key(
            #[trigger] s[j],
            (#[trigger] s[i]).name@,
            s[i].birth,
        )
}

/// `after` is `before` with a resident added at the end that carries the
/// identity and data of `r` and no alarms.
pub open spec fn appended_blank(before: Seq<Resident>, after: Seq<Resident>, r: Resident) -> bool {
    &&& after.len() == before.len() + 1
    &&& after.drop_last() == before
    &&& same_identity(r, after.last())
    &&& after.last().alarms@.len() == 0
    &&& after.last().active_alarms@.len() == 0
}

/// `after` is `before` with at most the resident at `i` changed.
pub open spec fn changed_at(before: Seq<Resident>, after: Seq<Resident>, i: int) -> bool {
    &&& after.len() == before.len()
    &&& forall|j: int| 0 <= j < before.len() && j != i ==> #[trigger] after[j] == before[j]
}

/// How a write of a resident went: a new resident was stored, or the one with
/// the same key had its data overwritten, `modified` where that changed it.
#[derive(Debug, Clone, Copy, PartialEq, Eq, Structural)]
pub enum WriteOutcome {
    Inserted,
    Updated { modified: bool },
}

/// Residents keyed by name and birth date.
pub struct RecordStore {
    residents: Vec<Resident>,
}

impl View for RecordStore {
    type V = Seq<Resident>;

    closed spec fn view(&self) -> Seq<Resident> {
        self.residents@
    }
}

impl RecordStore {
    /// The store's invariant: a key names at most one resident.
    pub open spec fn wf(&self) -> bool {
        keys_unique(self@)
    }

    pub fn new() -> (r: RecordStore)
        ensures
            r.wf(),
            r@ == Seq::<Resident>::empty(),
    {
        RecordStore { residents: Vec::new() }
    }

    /// A store holding `residents` in that order; `DuplicateKey` where two of
    /// them share a name and a birth date.
    pub fn from_residents(residents: Vec<Resident>) -> (r: Result<RecordStore, ResidentError>)
        ensures
            r is Ok <==> keys_unique(residents@),
            r matches Ok(s) ==> s.wf() && s@ == residents@,
            r matches Err(e) ==> e == ResidentError::DuplicateKey,
    {
        let ghost all = residents@;
        let mut store = RecordStore::new();
        let mut rest = residents;
        let n = rest.len();
        let mut i: usize = 0;
        while rest.len() > 0
            invariant
                store.wf(),
                all == residents@,
                n == all.len(),
                i + rest@.len() == all.len(),
                store@ == all.take(i as int),
                rest@ == all.skip(i as int),
            decreases rest@.len(),
        {
            let r = rest.remove(0);
            assert(all.take(i as int).push(r) == all.take(i + 1));
            if store.insert_new(r).is_err() {
                proof {
                    let k = choose|k: int|
                        0 <= k < store@.len() && is_key(#[trigger] store@[k], r.name@, r.birth);
                    assert(all[k] == store@[k]);
                    assert(all[i as int] == r);
                    assert(is_key(all[i as int], all[k].name@, all[k].birth));
                    assert(k != i);
                    assert(!keys_unique(all));
                }
                return Err(ResidentError::DuplicateKey);
            }
            i = i + 1;
            assert(rest@ == all.skip(i as int));
        }
        assert(all.take(i as int) == all);
        Ok(store)
    }

    /// The residents, in the order they were stored.
    pub fn residents(&self) -> (r: &Vec<Resident>)
        ensures
            r@ == self@,
    {
        &self.residents
    }

    /// Where the resident named `name`, born at `birth`, stands.
    pub fn find_index(&self, name: &str, birth: i64) -> (r: Option<usize>)
        ensures
            r matches Some(i) ==> i < self@.len() && is_key(self@[i as int], name@, birth),
            r is None <==> !holds_key(self@, name@, birth),
    {
        let key = String::from_str(name);
        let mut i: usize = 0;
        while i < self.residents.len()
            invariant
                i <= self@.len(),
                key@ == name@,
                forall|k: int| 0 <= k < i ==> !is_key(#[trigger] self@[k], name@, birth),
            decreases self@.len() - i,
        {
            if self.residents[i].birth == birth && self.residents[i].name == key {
                return Some(i);
            }
            i = i + 1;
        }
        None
    }

    /// The resident named `name`, born at `birth`.
    pub fn find(&self, name: &str, birth: i64) -> (r: Option<&Resident>)
        ensures
            r matches Some(res) ==> is_key(*res, name@, birth) && self@.contains(*res),
            r is None <==> !holds_key(self@, name@, birth),
    {
        match self.find_index(name, birth) {
            Some(i) => Some(&self.residents[i]),
            None => None,
        }
    }

    /// Stores `r` as it is; `DuplicateKey`, with nothing changed, where a
    /// resident with its name and birth date is already stored.
    pub fn insert_new(&mut self, r: Resident) -> (res: Result<(), ResidentError>)
        requires
            old(self).wf(),
        ensures
            final(self).wf(),
            holds_key(old(self)@, r.name@, r.birth) ==> res == Err::<(), ResidentError>(
                ResidentError::DuplicateKey,
            ) && final(self)@ == old(self)@,
            !holds_key(old(self)@, r.name@, r.birth) ==> res == Ok::<(), ResidentError>(())
                && final(self)@ == old(self)@.push(r),
    {
        match self.find_index(r.name.as_str(), r.birth) {
            Some(_) => Err(ResidentError::DuplicateKey),
            None => {
                self.residents.push(r);
                proof {
                    let s = self@;
                    assert forall|i: int, j: int|
                        0 <= i < s.len() && 0 <= j < s.len() && i != j implies !is_key(
                            #[trigger] s[j],
                            (#[trigger] s[i]).name@,
                            s[i].birth,
                        ) by {
                        if i == s.len() - 1 {
                            assert(old(self)@[j] == s[j]);
                        } else if j == s.len() - 1 {
                            assert(old(self)@[i] == s[i]);
                        } else {
                            assert(old(self)@[i] == s[i] && old(self)@[j] == s[j]);
                        }
                    }
                }
                Ok(())
            },
        }
    }

    /// Overwrites the location and residency start of the resident at `i`;
    /// whether either value changed.
    fn set_data(&mut self, i: usize, location: String, resident_since: i64) -> (modified: bool)
        requires
            old(self).wf(),
            i < old(self)@.len(),
        ensures
            final(self).wf(),
            final(self)@ == old(self)@.update(
                i as int,
                with_data(old(self)@[i as int], location, resident_since),
            ),
            modified == !(old(self)@[i as int].location@ == location@
                && old(self)@[i as int].resident_since == resident_since),
    {
        let modified = !(self.residents[i].location == location
            && self.residents[i].resident_since == resident_since);
        self.residents[i].location = location;
        self.residents[i].resident_since = resident_since;
        proof {
            let s = self@;
            assert forall|a: int, b: int|
                0 <= a < s.len() && 0 <= b < s.len() && a != b implies !is_key(
                    #[trigger] s[b],
                    (#[trigger] s[a]).name@,
                    s[a].birth,
                ) by {
                assert(is_key(s[b], s[a].name@, s[a].birth) ==> is_key(
                    old(self)@[b],
                    old(self)@[a].name@,
                    old(self)@[a].birth,
                ));
            }
        }
        modified
    }

    /// Where a resident with the key of `r` is stored, overwrites its location
    /// and residency start and leaves its alarms; otherwise stores a resident
    /// with the key and data of `r` and no alarms.
    pub fn upsert(&mut self, r: Resident) -> (res: WriteOutcome)
        requires
            old(self).wf(),
        ensures
            final(self).wf(),
            forall|i: int|
                0 <= i < old(self)@.len() && is_key(#[trigger] old(self)@[i], r.name@, r.birth)
                    ==> final(self)@ == old(self)@.update(
                    i,
                    with_data(old(self)@[i], r.location, r.resident_since),
                ) && res == (WriteOutcome::Updated {
                    modified: !(old(self)@[i].location@ == r.location@ && old(self)@[i].resident_since
                        == r.resident_since),
                }),
            !holds_key(old(self)@, r.name@, r.birth) ==> res == WriteOutcome::Inserted
                && appended_blank(old(self)@, final(self)@, r),
    {
        match self.find_index(r.name.as_str(), r.birth) {
            Some(i) => {
                proof {
                    self.lemma_key_index_unique(r.name@, r.birth, i as int);
                }
                let modified = self.set_data(i, r.location, r.resident_since);
                WriteOutcome::Updated { modified }
            },
            None => {
                let blank = Resident {
                    name: r.name,
                    birth: r.birth,
                    location: r.location,
                    resident_since: r.resident_since,
                    alarms: Vec::new(),
                    active_alarms: Vec::new(),
                };
                let _ = self.insert_new(blank);
                assert(self@.drop_last() == old(self)@);
                WriteOutcome::Inserted
            },
        }
    }

    /// Stores `r` as it is, alarms included; where a resident with its key is
    /// already stored, overwrites that one's location and residency start
    /// with those of `r` instead.
    pub fn insert_or_update(&mut self, r: Resident) -> (res: WriteOutcome)
        requires
            old(self).wf(),
        ensures
            final(self).wf(),
            forall|i: int|
                0 <= i < old(self)@.len() && is_key(#[trigger] old(self)@[i], r.name@, r.birth)
                    ==> final(self)@ == old(self)@.update(
                    i,
                    with_data(old(self)@[i], r.location, r.resident_since),
                ) && res == (WriteOutcome::Updated {
                    modified: !(old(self)@[i].location@ == r.location@ && old(self)@[i].resident_since
                        == r.resident_since),
                }),
            !holds_key(old(self)@, r.name@, r.birth) ==> res == WriteOutcome::Inserted
                && final(self)@ == old(self)@.push(r),
    {
        match self.find_index(r.name.as_str(), r.birth) {
            Some(i) => {
                proof {
                    self.lemma_key_index_unique(r.name@, r.birth, i as int);
                }
                let modified = self.set_data(i, r.location, r.resident_since);
                WriteOutcome::Updated { modified }
            },
            None => {
                let _ = self.insert_new(r);
                WriteOutcome::Inserted
            },
        }
    }

    /// Removes the resident named `name`, born at `birth`; how many were
    /// removed, 0 or 1.
    pub fn delete(&mut self, name: &str, birth: i64) -> (deleted: usize)
        requires
            old(self).wf(),
        ensures
            final(self).wf(),
            forall|i: int|
                0 <= i < old(self)@.len() && is_key(#[trigger] old(self)@[i], name@, birth)
                    ==> final(self)@ == old(self)@.remove(i) && deleted == 1,
            !holds_key(old(self)@, name@, birth) ==> final(self)@ == old(self)@ && deleted == 0,
    {
        match self.find_index(name, birth) {
            Some(i) => {
                proof {
                    self.lemma_key_index_unique(name@, birth, i as int);
                }
                let gone = self.residents.remove(i);
                proof {
                    let s = self@;
                    let o = old(self)@;
                    assert forall|a: int, b: int|
                        0 <= a < s.len() && 0 <= b < s.len() && a != b implies !is_key(
                            #[trigger] s[b],
                            (#[trigger] s[a]).name@,
                            s[a].birth,
                        ) by {
                        let oa = if a < i { a } else { a + 1 };
                        let ob = if b < i { b } else { b + 1 };
                        assert(s[a] == o[oa] && s[b] == o[ob]);
                    }
                }
                1
            },
            None => 0,
        }
    }

    /// A change to the alarms of the resident at `i` keeps the store well formed.
    proof fn lemma_alarm_change_wf(before: Seq<Resident>, after: Seq<Resident>, i: int)
        requires
            keys_unique(before),
            0 <= i < before.len(),
            changed_at(before, after, i),
            same_identity(before[i], after[i]),
        ensures
            keys_unique(after),
    {
        assert forall|a: int, b: int|
            0 <= a < after.len() && 0 <= b < after.len() && a != b implies !is_key(
                #[trigger] after[b],
                (#[trigger] after[a]).name@,
                after[a].birth,
            ) by {
            assert(is_key(after[b], after[a].name@, after[a].birth) ==> is_key(
                before[b],
                before[a].name@,
                before[a].birth,
            ));
        }
    }

    /// Opens an alarm at `now`, with text `message`, for the resident named
    /// `name`, born at `birth`, and returns its opening time (see
    /// `Resident::open_alarm`). `ResidentNotFound` where there is no such resident.
    pub fn open_alarm(&mut self, name: &str, birth: i64, message: &str, now: i64) -> (r: Result<
        i64,
        ResidentError,
    >)
        requires
            old(self).wf(),
        ensures
            final(self).wf(),
            !holds_key(old(self)@, name@, birth) ==> r == Err::<i64, ResidentError>(
                ResidentError::ResidentNotFound,
            ) && final(self)@ == old(self)@,
            forall|i: int|
                0 <= i < old(self)@.len() && is_key(#[trigger] old(self)@[i], name@, birth) ==> {
                    &&& has_active_at(old(self)@[i], now) ==> r == Err::<i64, ResidentError>(
                        ResidentError::DuplicateAlarm,
                    ) && final(self)@ == old(self)@
                    &&& !has_active_at(old(self)@[i], now) ==> r == Ok::<i64, ResidentError>(now)
                        && changed_at(old(self)@, final(self)@, i) && opened(
                        old(self)@[i],
                        final(self)@[i],
                        now,
                        message@,
                    )
                },
    {
        match self.find_index(name, birth) {
            None => Err(ResidentError::ResidentNotFound),
            Some(i) => {
                proof {
                    self.lemma_key_index_unique(name@, birth, i as int);
                }
                let r = self.residents[i].open_alarm(message, now);
                proof {
                    if r is Err {
                        assert(self@ =~= old(self)@);
                    }
                    Self::lemma_alarm_change_wf(old(self)@, self@, i as int);
                }
                r
            },
        }
    }

    /// Closes the alarm opened at `open_time` of the resident named `name`,
    /// born at `birth` (see `Resident::close_alarm`), and returns the duration
    /// recorded. `ResidentNotFound` where there is no such resident,
    /// `AlarmNotFound` where it has no open alarm opened at `open_time`.
    pub fn close_alarm(
        &mut self,
        name: &str,
        birth: i64,
        open_time: i64,
        duration: Option<u64>,
        now: i64,
    ) -> (r: Result<u64, ResidentError>)
        requires
            old(self).wf(),
        ensures
            final(self).wf(),
            !holds_key(old(self)@, name@, birth) ==> r == Err::<u64, ResidentError>(
                ResidentError::ResidentNotFound,
            ) && final(self)@ == old(self)@,
            forall|i: int|
                0 <= i < old(self)@.len() && is_key(#[trigger] old(self)@[i], name@, birth) ==> {
                    &&& !has_active_at(old(self)@[i], open_time) ==> r == Err::<u64, ResidentError>(
                        ResidentError::AlarmNotFound,
                    ) && final(self)@ == old(self)@
                    &&& has_active_at(old(self)@[i], open_time) ==> r == Ok::<u64, ResidentError>(
                        close_duration(duration, open_time, now),
                    ) && changed_at(old(self)@, final(self)@, i) && closed(
                        old(self)@[i],
                        final(self)@[i],
                        open_time,
                        close_duration(duration, open_time, now),
                    )
                },
    {
        match self.find_index(name, birth) {
            None => Err(ResidentError::ResidentNotFound),
            Some(i) => {
                proof {
                    self.lemma_key_index_unique(name@, birth, i as int);
                }
                let r = self.residents[i].close_alarm(open_time, duration, now);
                proof {
                    if r is Err {
                        assert(self@ =~= old(self)@);
                    }
                    Self::lemma_alarm_change_wf(old(self)@, self@, i as int);
                }
                r
            },
        }
    }

    /// `open_alarm` at the current time of the clock. Whatever that time is,
    /// the outcome is one that `open_alarm` gives for it; a resident with no
    /// open alarm always gets its new alarm.
    pub fn open_alarm_now(&mut self, name: &str, birth: i64, message: &str) -> (r: Result<
        i64,
        ResidentError,
    >)
        requires
            old(self).wf(),
        ensures
            final(self).wf(),
            !holds_key(old(self)@, name@, birth) ==> r == Err::<i64, ResidentError>(
                ResidentError::ResidentNotFound,
            ),
            r matches Err(e) ==> final(self)@ == old(self)@ && (e == ResidentError::ResidentNotFound
                || e == ResidentError::DuplicateAlarm),
            forall|i: int|
                0 <= i < old(self)@.len() && is_key(#[trigger] old(self)@[i], name@, birth) ==> {
                    &&& r matches Err(e) ==> e == ResidentError::DuplicateAlarm
                    &&& old(self)@[i].active_alarms@.len() == 0 ==> r is Ok
                    &&& r matches Ok(t) ==> !has_active_at(old(self)@[i], t) && changed_at(
                        old(self)@,
                        final(self)@,
                        i,
                    ) && opened(old(self)@[i], final(self)@[i], t, message@)
                },
    {
        let now = now_millis();
        self.open_alarm(name, birth, message, now)
    }

    /// `close_alarm` at the current time of the clock. Whatever that time is,
    /// the outcome is one that `close_alarm` gives for it: in particular a
    /// duration given is recorded exactly.
    pub fn close_alarm_now(&mut self, name: &str, birth: i64, open_time: i64, duration: Option<u64>) -> (r:
        Result<u64, ResidentError>)
        requires
            old(self).wf(),
        ensures
            final(self).wf(),
            !holds_key(old(self)@, name@, birth) ==> r == Err::<u64, ResidentError>(
                ResidentError::ResidentNotFound,
            ) && final(self)@ == old(self)@,
            forall|i: int|
                0 <= i < old(self)@.len() && is_key(#[trigger] old(self)@[i], name@, birth) ==> {
                    &&& !has_active_at(old(self)@[i], open_time) ==> r == Err::<u64, ResidentError>(
                        ResidentError::AlarmNotFound,
                    ) && final(self)@ == old(self)@
                    &&& has_active_at(old(self)@[i], open_time) ==> (r matches Ok(d) && changed_at(
                        old(self)@,
                        final(self)@,
                        i,
                    ) && closed(old(self)@[i], final(self)@[i], open_time, d) && (duration matches Some(
                        x,
                    ) ==> d == x))
                },
    {
        let now = now_millis();
        self.close_alarm(name, birth, open_time, duration, now)
    }

    /// For each stored resident, in order, whether its key is among `keys`:
    /// the shape in which `report` takes the residents that a pattern matched.
    pub fn key_hits(&self, keys: &Vec<ResidentKey>) -> (r: Vec<bool>)
        ensures
            r@.len() == self@.len(),
            forall|i: int|
                0 <= i < self@.len() ==> #[trigger] r@[i] == exists|k: int|
                    0 <= k < keys@.len() && is_key(self@[i], (#[trigger] keys@[k]).name@, keys@[k].birth),
    {
        let mut r: Vec<bool> = Vec::new();
        let mut i: usize = 0;
        while i < self.residents.len()
            invariant
                i <= self@.len(),
                r@.len() == i,
                forall|m: int|
                    0 <= m < i ==> #[trigger] r@[m] == exists|k: int|
                        0 <= k < keys@.len() && is_key(self@[m], (#[trigger] keys@[k]).name@, keys@[k].birth),
            decreases self@.len() - i,
        {
            let mut hit = false;
            let mut k: usize = 0;
            while k < keys.len()
                invariant
                    i < self@.len(),
                    k <= keys@.len(),
                    hit == exists|q: int|
                        0 <= q < k && is_key(self@[i as int], (#[trigger] keys@[q]).name@, keys@[q].birth),
                decreases keys@.len() - k,
            {
                if keys[k].birth == self.residents[i].birth && keys[k].name == self.residents[i].name {
                    hit = true;
                }
                k = k + 1;
            }
            r.push(hit);
            i = i + 1;
        }
        r
    }

    /// In a well-formed store, the resident found at `i` is the only one with its key.
    pub proof fn lemma_key_index_unique(&self, name: Seq<char>, birth: i64, i: int)
        requires
            self.wf(),
            0 <= i < self@.len(),
            is_key(self@[i], name, birth),
        ensures
            forall|j: int| 0 <= j < self@.len() && is_key(#[trigger] self@[j], name, birth) ==> j == i,
    {
        assert forall|j: int| 0 <= j < self@.len() && is_key(#[trigger] self@[j], name, birth) implies j
            == i by {
            if j != i {
                assert(!is_key(self@[j], self@[i].name@, self@[i].birth));
            }
        }
    }
}

} // verus!
