//! Points in time, as the reporter needs them: how long ago a report was
//! sent, and how a time is shown.

use crate::text::text_of;
use vstd::prelude::*;

verus! {

/// A point in time: the seconds since the Unix epoch, and the nanoseconds
/// past that second.
#[derive(Clone, Copy, Debug, PartialEq, Eq, Structural)]
pub struct Timestamp {
    pub secs: i64,
    pub nanos: u32,
}

/// The whole seconds in a number of nanoseconds, rounded towards zero.
pub open spec fn whole_seconds(nanoseconds: int) -> int {
    if nanoseconds >= 0 {
        nanoseconds / 1_000_000_000
    } else {
        -((-nanoseconds) / 1_000_000_000)
    }
}

impl Timestamp {
    /// The nanoseconds since the Unix epoch.
    pub open spec fn nanoseconds(self) -> int {
        self.secs * 1_000_000_000 + self.nanos
    }

    /// The whole seconds that have passed since `earlier`; negative if
    /// `earlier` is in fact later.
    pub open spec fn seconds_since(self, earlier: Timestamp) -> int {
        whole_seconds(self.nanoseconds() - earlier.nanoseconds())
    }

    /// Counts the whole seconds that have passed since `earlier`.
    pub fn whole_seconds_since(self, earlier: Timestamp) -> (r: i128)
        ensures
            r == self.seconds_since(earlier),
    {
        let seconds: i128 = self.secs as i128 - earlier.secs as i128;
        let nanos: i128 = self.nanos as i128 - earlier.nanos as i128;
        let span: i128 = seconds * 1_000_000_000 + nanos;
        if span >= 0 {
            span / 1_000_000_000
        } else {
            -((-span) / 1_000_000_000)
        }
    }

    /// The time as it is shown in the status, in UTC: year, month, day, hour,
    /// minute and second. `None` for a time that no calendar date stands for.
    pub fn text(self) -> (r: Option<String>)
        ensures
            text_of(r) == utc_text(self.secs),
    {
        format_utc(self.secs)
    }
}

/// The UTC date and time of day at `secs` seconds since the Unix epoch,
/// written as `YYYY-MM-DD HH:MM:SS`; `None` where the date is out of the
/// range of the calendar.
pub uninterp spec fn utc_text(secs: i64) -> Option<Seq<char>>;

/// `DateTime::from_timestamp` and `DateTime::format` of chrono, with the
/// pattern `%Y-%m-%d %H:%M:%S`: the result is a function of the seconds
/// alone, and is `None` exactly when chrono has no date for them. Nothing
/// more is claimed of it.
#[verifier::external_body]
fn format_utc(secs: i64) -> (r: Option<String>)
    ensures
        text_of(r) == utc_text(secs),
{
    match chrono::DateTime::from_timestamp(secs, 0) {
        Some(t) => Some(t.format("%Y-%m-%d %H:%M:%S").to_string()),
        None => None,
    }
}

} // verus!
