use vstd::prelude::*;

use crate::error::ResidentError;
use crate::text::chars_of;

verus! {

/// What `bson::DateTime::parse_rfc3339_str` makes of a text: the instant it
/// names in milliseconds since the Unix epoch, or `None` where the text is not
/// an RFC 3339 date and time.
pub uninterp spec fn rfc3339_millis(s: Seq<char>) -> Option<i64>;

/// Relies on `bson::DateTime::parse_rfc3339_str`, read back through
/// `timestamp_millis`: whether a text parses, and to which instant, depends on
/// the text alone.
#[verifier::external_body]
fn parse_rfc3339(s: &str) -> (r: Option<i64>)
    ensures
        r == rfc3339_millis(s@),
{
    match mongodb::bson::DateTime::parse_rfc3339_str(s) {
        Ok(d) => Some(d.timestamp_millis()),
        Err(_) => None,
    }
}

/// Relies on `bson::DateTime::now`, read back through `timestamp_millis`: the
/// wall-clock time in milliseconds since the Unix epoch. Nothing is known of it.
#[verifier::external_body]
pub(crate) fn now_millis() -> (r: i64) {
    mongodb::bson::DateTime::now().timestamp_millis()
}

/// The text ends in a zone designator: `Z` (or `z`), or an offset `+hh:mm` / `-hh:mm`.
pub open spec fn has_zone(s: Seq<char>) -> bool {
    ||| s.len() > 0 && (s.last() == 'Z' || s.last() == 'z')
    ||| s.len() >= 6 && (s[s.len() - 6] == '+' || s[s.len() - 6] == '-')
}

/// A date or date-time text completed to RFC 3339: a date alone stands for
/// midnight UTC, and a date-time without a zone is taken as UTC.
pub open spec fn normalized(s: Seq<char>) -> Seq<char> {
    if !s.contains('T') {
        s + "T00:00:00Z"@
    } else if !has_zone(s) {
        s + "Z"@
    } else {
        s
    }
}

/// The instant that a date or date-time text names, once completed.
pub open spec fn timestamp_of(s: Seq<char>) -> Option<i64> {
    rfc3339_millis(normalized(s))
}

/// Completes a date or date-time text to RFC 3339 (see `normalized`).
pub fn normalize_rfc3339(s: &str) -> (r: String)
    ensures
        r@ == normalized(s@),
{
    let cs = chars_of(s);
    let n = cs.len();
    let mut has_t = false;
    let mut i: usize = 0;
    while i < n
        invariant
            n == cs@.len(),
            cs@ == s@,
            i <= n,
            has_t == (exists|k: int| 0 <= k < i && cs@[k] == 'T'),
        decreases n - i,
    {
        if cs[i] == 'T' {
            has_t = true;
        }
        i = i + 1;
    }
    let zone = (n > 0 && (cs[n - 1] == 'Z' || cs[n - 1] == 'z')) || (n >= 6 && (cs[n - 6] == '+' || cs[n - 6] == '-'));
    let owned = String::from_str(s);
    if !has_t {
        owned.concat("T00:00:00Z")
    } else if !zone {
        owned.concat("Z")
    } else {
        owned
    }
}

/// A point in time given as text, or already read.
pub enum DateTimeStr<'a> {
    Str(&'a str),
    String(String),
    /// Milliseconds since the Unix epoch.
    DateTime(i64),
}

impl<'a> DateTimeStr<'a> {
    /// The instant this value names, if it names one.
    pub open spec fn spec_millis(&self) -> Option<i64> {
        match self {
            DateTimeStr::Str(s) => timestamp_of(s@),
            DateTimeStr::String(s) => timestamp_of(s@),
            DateTimeStr::DateTime(t) => Some(*t),
        }
    }

    /// Reads the instant, in milliseconds since the Unix epoch; a text that
    /// does not name one is `MalformedInput`.
    pub fn to_millis(&self) -> (r: Result<i64, ResidentError>)
        ensures
            match self.spec_millis() {
                Some(t) => r == Ok::<i64, ResidentError>(t),
                None => r == Err::<i64, ResidentError>(ResidentError::MalformedInput),
            },
    {
        let parsed = match self {
            DateTimeStr::Str(s) => parse_rfc3339(normalize_rfc3339(s).as_str()),
            DateTimeStr::String(s) => parse_rfc3339(normalize_rfc3339(s.as_str()).as_str()),
            DateTimeStr::DateTime(t) => Some(*t),
        };
        match parsed {
            Some(t) => Ok(t),
            None => Err(ResidentError::MalformedInput),
        }
    }
}

/// Whole seconds from `since` to `now`; zero where `now` comes first.
pub open spec fn elapsed_secs_spec(now: i64, since: i64) -> u64 {
    if now >= since {
        ((now - since) / 1000) as u64
    } else {
        0
    }
}

/// Whole seconds from `since` to `now` (both in milliseconds), clamped at zero.
pub fn elapsed_secs(now: i64, since: i64) -> (r: u64)
    ensures
        r == elapsed_secs_spec(now, since),
{
    if now >= since {
        let d: i128 = now as i128 - since as i128;
        (d / 1000) as u64
    } else {
        0
    }
}

/// An inclusive range of instants, in milliseconds since the Unix epoch.
#[derive(Debug, Clone, Copy, PartialEq, Eq, Structural)]
pub struct Window {
    pub from: i64,
    pub to: i64,
}

impl Window {
    pub open spec fn contains(self, t: i64) -> bool {
        self.from <= t <= self.to
    }
}

/// The window from the start of day `from_date` to the last millisecond of
/// day `to_date`, both dates `YYYY-MM-DD` in UTC.
pub fn report_window(from_date: &str, to_date: &str) -> (r: Result<Window, ResidentError>)
    ensures
        match (
            rfc3339_millis(from_date@ + "T00:00:00Z"@),
            rfc3339_millis(to_date@ + "T23:59:59.999Z"@),
        ) {
            (Some(f), Some(t)) => r == Ok::<Window, ResidentError>(Window { from: f, to: t }),
            _ => r == Err::<Window, ResidentError>(ResidentError::MalformedInput),
        },
{
    let from_text = String::from_str(from_date).concat("T00:00:00Z");
    let to_text = String::from_str(to_date).concat("T23:59:59.999Z");
    match (parse_rfc3339(from_text.as_str()), parse_rfc3339(to_text.as_str())) {
        (Some(f), Some(t)) => Ok(Window { from: f, to: t }),
        _ => Err(ResidentError::MalformedInput),
    }
}

} // verus!
