//! Residents and their alarms: an in-memory record store keyed by name and
//! birth date, the lifecycle that moves an alarm from active to historical,
//! and a report that aggregates alarms per resident over a window of days.

mod alarm;
mod datetime;
mod error;
pub mod laws;
mod report;
mod resident;
mod store;
mod text;

pub use datetime::{elapsed_secs, normalize_rfc3339, report_window, DateTimeStr, Window};
pub use error::ResidentError;
pub use resident::{ActiveAlarm, Alarm, Resident, ResidentKey, ResidentUpdate};
pub use store::{RecordStore, WriteOutcome};
pub use report::{sort_by_location, summarize, timedelta_parts, ReportRow};
