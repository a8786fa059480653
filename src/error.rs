use vstd::prelude::*;

verus! {

/// The outcomes, other than success, of the operations on residents and alarms.
#[derive(Debug, Clone, Copy, PartialEq, Eq, Structural)]
pub enum ResidentError {
    /// No resident has the given name and birth date.
    ResidentNotFound,
    /// The resident has no active alarm opened at the given time.
    AlarmNotFound,
    /// A resident with the same name and birth date is already stored.
    DuplicateKey,
    /// The resident already has an active alarm opened at that very time.
    DuplicateAlarm,
    /// A date or time text could not be read.
    MalformedInput,
}

} // verus!
