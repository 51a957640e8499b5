//! Points in time, as the cache records them, and the spans between them.

use vstd::prelude::*;

verus! {

/// A point in time: whole seconds since 1970 and the nanoseconds after them. In a leap
/// second there are more than a thousand million nanoseconds.
#[derive(Clone, Copy)]
pub struct Moment {
    pub secs: i64,
    pub nanos: u32,
}

/// The nanoseconds of one second.
pub const NANOS_PER_SECOND: i128 = 1_000_000_000;

/// The seconds of one day.
pub const SECONDS_PER_DAY: i128 = 86_400;

/// The seconds and nanoseconds of the point in time that an RFC 3339 text names, if
/// `chrono` accepts the text.
pub uninterp spec fn rfc3339(text: Seq<char>) -> Option<(i64, u32)>;

/// `chrono::DateTime::parse_from_rfc3339`, with `timestamp` and `timestamp_subsec_nanos`
/// of the result: whether a text is accepted, and which point in time it names, is
/// determined by the text.
#[verifier::external_body]
fn parse_from_rfc3339(text: &str) -> (r: Option<(i64, u32)>)
    ensures
        r == rfc3339(text@),
{
    match chrono::DateTime::parse_from_rfc3339(text) {
        Ok(d) => Some((d.timestamp(), d.timestamp_subsec_nanos())),
        Err(_) => None,
    }
}

/// The point in time that a text names.
pub open spec fn moment_of(text: Seq<char>) -> Option<Moment> {
    match rfc3339(text) {
        Some((secs, nanos)) => Some(Moment { secs, nanos }),
        None => None,
    }
}

/// Reads an RFC 3339 text.
pub fn parse_moment(text: &str) -> (r: Option<Moment>)
    ensures
        r == moment_of(text@),
{
    match parse_from_rfc3339(text) {
        Some((secs, nanos)) => Some(Moment { secs, nanos }),
        None => None,
    }
}

impl Moment {
    /// Whether the point lies in a leap second.
    pub open spec fn is_leap(self) -> bool {
        self.nanos >= 1_000_000_000
    }

    /// The second of the day.
    pub open spec fn second_of_day(self) -> int {
        self.secs as int % 86_400
    }

    /// The nanoseconds from `earlier` to this point. A leap second that one of the two
    /// lies in is counted where the other lies beyond it on the clock of the day.
    pub open spec fn nanos_since(self, earlier: Moment) -> int {
        let leap: int = if self.second_of_day() > earlier.second_of_day() && earlier.is_leap() {
            1
        } else if self.second_of_day() < earlier.second_of_day() && self.is_leap() {
            -1
        } else {
            0
        };
        (self.secs - earlier.secs + leap) * 1_000_000_000 + (self.nanos - earlier.nanos)
    }

    /// The whole seconds from `earlier` to this point; the rest is dropped, towards zero.
    pub open spec fn seconds_since(self, earlier: Moment) -> int {
        let n = self.nanos_since(earlier);
        if n >= 0 {
            n / 1_000_000_000
        } else {
            -((-n) / 1_000_000_000)
        }
    }

    fn day_second(&self) -> (r: i128)
        ensures
            r == self.second_of_day(),
    {
        let s: i128 = self.secs as i128;
        if s >= 0 {
            s % SECONDS_PER_DAY
        } else {
            let rest: i128 = (-s) % SECONDS_PER_DAY;
            if rest == 0 {
                0
            } else {
                SECONDS_PER_DAY - rest
            }
        }
    }

    /// The nanoseconds from `earlier` to this point.
    pub fn elapsed_nanos(&self, earlier: &Moment) -> (r: i128)
        ensures
            r == self.nanos_since(*earlier),
            -20_000_000_000_000_000_000_000_000_000 <= r <= 20_000_000_000_000_000_000_000_000_000,
    {
        let here: i128 = self.day_second();
        let there: i128 = earlier.day_second();
        let leap: i128 = if here > there && earlier.nanos >= 1_000_000_000 {
            1
        } else if here < there && self.nanos >= 1_000_000_000 {
            -1
        } else {
            0
        };
        (self.secs as i128 - earlier.secs as i128 + leap) * NANOS_PER_SECOND + (self.nanos as i128
            - earlier.nanos as i128)
    }

    /// The whole seconds from `earlier` to this point.
    pub fn elapsed_seconds(&self, earlier: &Moment) -> (r: i128)
        ensures
            r == self.seconds_since(*earlier),
    {
        let n: i128 = self.elapsed_nanos(earlier);
        if n >= 0 {
            n / NANOS_PER_SECOND
        } else {
            -((-n) / NANOS_PER_SECOND)
        }
    }
}

} // verus!
