//! Points in time, and the text in which the time of the last run is kept.

use vstd::prelude::*;
use crate::error::RunError;
use crate::text::opt_text;

verus! {

/// A point in time on the UTC time line. During a leap second `nanos` runs
/// on past a full second, so that the order of two points in time is the
/// order of their seconds, and of their nanoseconds where the seconds agree.
#[derive(Clone, Copy, Debug, PartialEq, Eq, Hash, Structural)]
pub struct Timestamp {
    /// Whole seconds since 1970-01-01 00:00:00 UTC, leap seconds not counted.
    pub secs: i64,
    /// Nanoseconds since the start of that second.
    pub nanos: u32,
}

impl Timestamp {
    /// `self` is not later than `other`.
    pub open spec fn at_or_before(self, other: Timestamp) -> bool {
        self.secs < other.secs || (self.secs == other.secs && self.nanos <= other.nanos)
    }

    /// Tells whether `self` is not later than `other`.
    pub fn is_at_or_before(&self, other: &Timestamp) -> (r: bool)
        ensures
            r == self.at_or_before(*other),
    {
        self.secs < other.secs || (self.secs == other.secs && self.nanos <= other.nanos)
    }
}

/// Of two points in time one is not later than the other, and two that are
/// not later than each other are the same.
pub proof fn lemma_time_is_ordered(a: Timestamp, b: Timestamp, c: Timestamp)
    ensures
        a.at_or_before(b) || b.at_or_before(a),
        a.at_or_before(b) && b.at_or_before(a) ==> a == b,
        a.at_or_before(b) && b.at_or_before(c) ==> a.at_or_before(c),
{
}

/// The format in which the time of the last run is kept.
pub open spec fn last_update_format() -> Seq<char> {
    "%Y-%m-%d %H:%M:%S%.f UTC"@
}

/// What `chrono::NaiveDateTime::parse_from_str` makes of `text` under
/// `format`, read as a time in UTC: its seconds and nanoseconds, or nothing
/// where the text does not follow the format.
pub uninterp spec fn parsed_instant(text: Seq<char>, format: Seq<char>) -> Option<(i64, u32)>;

/// The text that `chrono` writes for a time in UTC, or nothing where
/// `chrono::DateTime::from_timestamp` has no such time.
pub uninterp spec fn rendered_instant(secs: i64, nanos: u32) -> Option<Seq<char>>;

/// Calls `chrono::NaiveDateTime::parse_from_str`, and takes the seconds and
/// nanoseconds of what it returns with `and_utc`, `timestamp` and
/// `timestamp_subsec_nanos`. The contract claims only that the outcome
/// depends on the two texts alone.
#[verifier::external_body]
fn parse_instant(text: &str, format: &str) -> (r: Option<(i64, u32)>)
    ensures
        r == parsed_instant(text@, format@),
{
    match chrono::NaiveDateTime::parse_from_str(text, format) {
        Ok(naive) => {
            let utc = naive.and_utc();
            Some((utc.timestamp(), utc.timestamp_subsec_nanos()))
        },
        Err(_) => None,
    }
}

/// Calls `chrono::DateTime::from_timestamp` and writes the time that it
/// returns with `to_string`. The contract claims only that the outcome
/// depends on the two numbers alone.
#[verifier::external_body]
fn render_instant(secs: i64, nanos: u32) -> (r: Option<String>)
    ensures
        opt_text(r) == rendered_instant(secs, nanos),
{
    match chrono::DateTime::from_timestamp(secs, nanos) {
        Some(utc) => Some(utc.to_string()),
        None => None,
    }
}

/// The time of the last run, from what was read of its text.
pub open spec fn last_update_of(parsed: Option<(i64, u32)>) -> Result<Timestamp, RunError> {
    match parsed {
        Some((secs, nanos)) => Ok(Timestamp { secs, nanos }),
        None => Err(RunError::Storage),
    }
}

/// The time of the last run, from what was read of its text. A text that
/// could not be read is a failure of the store.
pub fn last_update_from(parsed: Option<(i64, u32)>) -> (r: Result<Timestamp, RunError>)
    ensures
        r == last_update_of(parsed),
{
    match parsed {
        Some((secs, nanos)) => Ok(Timestamp { secs, nanos }),
        None => Err(RunError::Storage),
    }
}

/// Reads the time of the last run from the text in which it is kept.
pub fn parse_last_update(text: &str) -> (r: Result<Timestamp, RunError>)
    ensures
        r == last_update_of(parsed_instant(text@, last_update_format())),
{
    last_update_from(parse_instant(text, "%Y-%m-%d %H:%M:%S%.f UTC"))
}

/// Writes the time of a run as the text in which it is kept, where the time
/// can be written.
pub fn render_last_update(time: Timestamp) -> (r: Option<String>)
    ensures
        opt_text(r) == rendered_instant(time.secs, time.nanos),
{
    render_instant(time.secs, time.nanos)
}

} // verus!
