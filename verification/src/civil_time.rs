//! Wall-clock time in the reference zone of the wire format.

use chrono::offset::LocalResult;
use chrono::{Datelike, TimeZone, Timelike};
use chrono_tz::Europe::Amsterdam;
use vstd::prelude::*;

use crate::text::{padded2_text, push_padded2, push_year, year_text};

verus! {

/// A calendar date and a time of day, to the minute.
#[derive(Debug, Clone, Copy, PartialEq, Eq, Structural)]
pub struct CivilTime {
    pub year: i32,
    pub month: u32,
    pub day: u32,
    pub hour: u32,
    pub minute: u32,
}

/// The first second of the year 10000, counted from the epoch in UTC.
pub const YEAR_10000: u64 = 253_402_300_800;

/// What the clocks of Amsterdam show at the instant that lies `epoch_seconds`
/// seconds after 1970-01-01T00:00:00Z, daylight saving time included; `None`
/// for an instant outside the calendar that the time-zone database covers.
pub uninterp spec fn amsterdam_wall_clock(epoch_seconds: int) -> Option<CivilTime>;

/// `chrono::TimeZone::timestamp_opt` on `chrono_tz::Europe::Amsterdam`, with no
/// nanoseconds; the fields of its result are read with chrono's `Datelike`
/// and `Timelike`. Two things are taken on trust. The result is a function of
/// the instant alone, named [`amsterdam_wall_clock`]: the year, month, day,
/// hour and minute that chrono reports for the local time, or `None` where
/// chrono has no date for the instant. And chrono has a date for every
/// instant from 1970 to the end of the year 9999, which lies well inside its
/// calendar of some 262000 years to either side.
#[verifier::external_body]
fn amsterdam_lookup(epoch_seconds: i64) -> (found: Option<CivilTime>)
    ensures
        found == amsterdam_wall_clock(epoch_seconds as int),
        0 <= epoch_seconds < YEAR_10000 ==> found is Some,
{
    match Amsterdam.timestamp_opt(epoch_seconds, 0) {
        LocalResult::Single(t) => Some(
            CivilTime {
                year: t.year(),
                month: t.month(),
                day: t.day(),
                hour: t.hour(),
                minute: t.minute(),
            },
        ),
        LocalResult::Ambiguous(_, _) => None,
        LocalResult::None => None,
    }
}

/// A stored timestamp read as a signed count of seconds: the upper half of the
/// unsigned range stands for the instants before 1970.
pub open spec fn signed_seconds(timestamp: u64) -> int {
    if timestamp <= i64::MAX {
        timestamp as int
    } else {
        timestamp - 0x1_0000_0000_0000_0000
    }
}

/// The local time at which a sample with this timestamp was taken.
pub open spec fn local_time_of(timestamp: u64) -> Option<CivilTime> {
    amsterdam_wall_clock(signed_seconds(timestamp))
}

/// Converts a stored timestamp to the wall-clock time of the reference zone.
/// A timestamp before the year 10000 always has one.
pub fn local_time(timestamp: u64) -> (found: Option<CivilTime>)
    ensures
        found == local_time_of(timestamp),
        timestamp < YEAR_10000 ==> found is Some,
{
    if timestamp <= 0x7fff_ffff_ffff_ffff {
        amsterdam_lookup(timestamp as i64)
    } else {
        let above: u64 = timestamp - 0x8000_0000_0000_0000;
        amsterdam_lookup(i64::MIN + (above as i64))
    }
}

impl CivilTime {
    /// The date as `YYYYMMDD`.
    pub open spec fn date_text(self) -> Seq<char> {
        year_text(self.year as int) + padded2_text(self.month as nat) + padded2_text(
            self.day as nat,
        )
    }

    /// The time of day as `HH:MM`.
    pub open spec fn clock_text(self) -> Seq<char> {
        padded2_text(self.hour as nat) + seq![':'] + padded2_text(self.minute as nat)
    }

    /// Appends the date to `out`.
    pub fn push_date(&self, out: &mut String)
        ensures
            final(out)@ == old(out)@ + self.date_text(),
    {
        push_year(out, self.year);
        push_padded2(out, self.month as u64);
        push_padded2(out, self.day as u64);
    }

    /// Appends the time of day to `out`.
    pub fn push_clock(&self, out: &mut String)
        ensures
            final(out)@ == old(out)@ + self.clock_text(),
    {
        push_padded2(out, self.hour as u64);
        out.push(':');
        push_padded2(out, self.minute as u64);
    }
}

} // verus!
