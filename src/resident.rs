use vstd::prelude::*;

use crate::datetime::{timestamp_of, DateTimeStr};
use crate::error::ResidentError;

verus! {

/// A closed alarm: when it was opened, how long it stayed open, and its text.
#[derive(Debug, Clone, PartialEq, Eq)]
pub struct Alarm {
    /// Milliseconds since the Unix epoch.
    pub time: i64,
    pub duration_sec: u64,
    pub message: String,
}

/// An alarm that is still open. Its opening time identifies it within its resident.
#[derive(Debug, Clone, PartialEq, Eq)]
pub struct ActiveAlarm {
    /// Milliseconds since the Unix epoch.
    pub time: i64,
    pub message: String,
}

/// A resident, identified by name and birth date, with the alarms raised for it.
#[derive(Debug, Clone, PartialEq, Eq)]
pub struct Resident {
    pub name: String,
    /// Milliseconds since the Unix epoch.
    pub birth: i64,
    pub location: String,
    /// Milliseconds since the Unix epoch.
    pub resident_since: i64,
    /// Closed alarms, oldest first.
    pub alarms: Vec<Alarm>,
    /// Open alarms, in the order they were opened.
    pub active_alarms: Vec<ActiveAlarm>,
}

/// What identifies a resident: its name and birth date.
#[derive(Debug, Clone, PartialEq, Eq)]
pub struct ResidentKey {
    pub name: String,
    pub birth: i64,
}

/// The fields that an update of a resident overwrites.
#[derive(Debug, Clone, PartialEq, Eq)]
pub struct ResidentUpdate {
    pub location: String,
    pub resident_since: i64,
}

/// The resident is the one named `name`, born at `birth`.
pub open spec fn is_key(r: Resident, name: Seq<char>, birth: i64) -> bool {
    r.name@ == name && r.birth == birth
}

/// `after` is `before` with nothing but its alarms changed.
pub open spec fn same_identity(before: Resident, after: Resident) -> bool {
    &&& after.name == before.name
    &&& after.birth == before.birth
    &&& after.location == before.location
    &&& after.resident_since == before.resident_since
}

/// `before` with its location and residency start replaced.
pub open spec fn with_data(before: Resident, location: String, resident_since: i64) -> Resident {
    Resident { location, resident_since, ..before }
}

/// The resident has an open alarm opened at `t`.
pub open spec fn has_active_at(r: Resident, t: i64) -> bool {
    exists|k: int| 0 <= k < r.active_alarms@.len() && #[trigger] r.active_alarms@[k].time == t
}

/// The open alarms of a list that were opened at `t`, in order.
pub open spec fn active_at(s: Seq<ActiveAlarm>, t: i64) -> Seq<ActiveAlarm> {
    s.filter(|a: ActiveAlarm| a.time == t)
}

/// The open alarms of a list that were not opened at `t`, in order.
pub open spec fn active_not_at(s: Seq<ActiveAlarm>, t: i64) -> Seq<ActiveAlarm> {
    s.filter(|a: ActiveAlarm| a.time != t)
}

/// `after` is `before` with one more open alarm, opened at `t` with text `message`.
pub open spec fn opened(before: Resident, after: Resident, t: i64, message: Seq<char>) -> bool {
    &&& same_identity(before, after)
    &&& after.alarms == before.alarms
    &&& after.active_alarms@.len() == before.active_alarms@.len() + 1
    &&& after.active_alarms@.drop_last() == before.active_alarms@
    &&& after.active_alarms@.last().time == t
    &&& after.active_alarms@.last().message@ == message
}

/// `after` is `before` with its open alarms at `t` taken away and the first of
/// them recorded as closed, `duration_sec` seconds long.
pub open spec fn closed(before: Resident, after: Resident, t: i64, duration_sec: u64) -> bool {
    &&& same_identity(before, after)
    &&& after.active_alarms@ == active_not_at(before.active_alarms@, t)
    &&& after.alarms@ == before.alarms@.push(
        Alarm { time: t, duration_sec, message: active_at(before.active_alarms@, t)[0].message },
    )
}

impl Resident {
    /// A resident with no alarms; the two dates are read as `DateTimeStr` reads
    /// them, and one that cannot be read is `MalformedInput`.
    pub fn new(name: &str, birth: &str, location: &str, resident_since: &str) -> (r: Result<
        Resident,
        ResidentError,
    >)
        ensures
            r is Ok <==> (timestamp_of(birth@) is Some && timestamp_of(resident_since@) is Some),
            r matches Err(e) ==> e == ResidentError::MalformedInput,
            r matches Ok(res) ==> {
                &&& res.name@ == name@
                &&& timestamp_of(birth@) == Some(res.birth)
                &&& res.location@ == location@
                &&& timestamp_of(resident_since@) == Some(res.resident_since)
                &&& res.alarms@.len() == 0
                &&& res.active_alarms@.len() == 0
            },
    {
        let birth = match DateTimeStr::Str(birth).to_millis() {
            Ok(t) => t,
            Err(e) => return Err(e),
        };
        let resident_since = match DateTimeStr::Str(resident_since).to_millis() {
            Ok(t) => t,
            Err(e) => return Err(e),
        };
        Ok(
            Resident {
                name: String::from_str(name),
                birth,
                location: String::from_str(location),
                resident_since,
                alarms: Vec::new(),
                active_alarms: Vec::new(),
            },
        )
    }

    /// The name and birth date that identify this resident.
    pub fn unique_index(&self) -> (r: ResidentKey)
        ensures
            r.name == self.name,
            r.birth == self.birth,
    {
        ResidentKey { name: self.name.clone(), birth: self.birth }
    }

    /// The fields that an update with this resident as payload overwrites.
    pub fn update_data(&self) -> (r: ResidentUpdate)
        ensures
            r.location == self.location,
            r.resident_since == self.resident_since,
    {
        ResidentUpdate { location: self.location.clone(), resident_since: self.resident_since }
    }
}

} // verus!
