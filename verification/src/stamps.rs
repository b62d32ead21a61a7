//! Moments as they are written in records: RFC 3339.
use vstd::prelude::*;

use crate::cron;
use crate::model::Model;

verus! {

/// A moment: seconds since the beginning of 1970, and nanoseconds behind them.
#[derive(Clone, Copy, Debug, PartialEq, Eq, Structural)]
pub struct Stamp {
    pub secs: i64,
    pub nanos: u32,
}

impl Model for Stamp {
    type M = Stamp;

    open spec fn model(&self) -> Stamp {
        *self
    }
}

/// The last second of the year 9999.
pub const LAST_WRITTEN_SECOND: i64 = 253_402_300_799;

impl Stamp {
    /// Whether the moment is on the calendar.
    pub open spec fn on_calendar(self) -> bool {
        cron::FIRST_SECOND <= self.secs <= cron::LAST_SECOND && self.nanos < 1_000_000_000
    }

    /// The nanoseconds from `earlier` until this moment; negative when it is later.
    pub open spec fn nanos_since(self, earlier: Stamp) -> int {
        (self.secs - earlier.secs) * 1_000_000_000 + self.nanos - earlier.nanos
    }

    /// The whole seconds from `earlier` until this moment, towards none.
    pub open spec fn secs_since(self, earlier: Stamp) -> int {
        whole(self.nanos_since(earlier), 1_000_000_000)
    }

    /// The whole hours from `earlier` until this moment, towards none.
    pub open spec fn hours_since(self, earlier: Stamp) -> int {
        whole(self.nanos_since(earlier), 3_600_000_000_000)
    }
}

/// How often `unit` goes into `n`, towards zero.
pub open spec fn whole(n: int, unit: int) -> int {
    if n >= 0 {
        n / unit
    } else {
        -((-n) / unit)
    }
}

/// What `chrono::DateTime::parse_from_rfc3339` reads: the seconds since 1970 and
/// the nanoseconds behind them.
pub uninterp spec fn read_of(t: Seq<char>) -> Option<(i64, u32)>;

/// What `chrono::DateTime::to_rfc3339` writes of a moment in UTC.
pub uninterp spec fn written_of(secs: i64, nanos: u32) -> Seq<char>;

/// `chrono::DateTime::parse_from_rfc3339`, with `timestamp` and
/// `timestamp_subsec_nanos` of what it reads. It is a function of the text.
#[verifier::external_body]
fn parse_from_rfc3339(t: &str) -> (r: Option<(i64, u32)>)
    ensures
        r == read_of(t@),
{
    match chrono::DateTime::parse_from_rfc3339(t) {
        Ok(d) => Some((d.timestamp(), d.timestamp_subsec_nanos())),
        Err(_) => None,
    }
}

/// `chrono::DateTime::to_rfc3339` of `chrono::DateTime::from_timestamp`. It is a
/// function of the moment. Up to the end of the year 9999, and from 1970 on, what
/// it writes reads back as the same moment; later years are written with more
/// digits than a reader takes.
#[verifier::external_body]
fn to_rfc3339(secs: i64, nanos: u32) -> (r: String)
    requires
        cron::FIRST_SECOND <= secs <= cron::LAST_SECOND,
        nanos < 1_000_000_000,
    ensures
        r@ == written_of(secs, nanos),
        0 <= secs <= LAST_WRITTEN_SECOND ==> read_of(r@) == Some((secs, nanos)),
{
    match chrono::DateTime::from_timestamp(secs, nanos) {
        Some(d) => d.to_rfc3339(),
        None => String::new(),
    }
}

/// The moment in a text.
pub open spec fn stamp_in(t: Seq<char>) -> Option<Stamp> {
    match read_of(t) {
        Some(p) => Some(Stamp { secs: p.0, nanos: p.1 }),
        None => None,
    }
}

impl Stamp {
    /// Reads a moment.
    pub fn parse(t: &str) -> (r: Option<Stamp>)
        ensures
            r == stamp_in(t@),
    {
        match parse_from_rfc3339(t) {
            Some((secs, nanos)) => Some(Stamp { secs, nanos }),
            None => None,
        }
    }

    /// Writes a moment.
    pub fn text(&self) -> (r: String)
        requires
            self.on_calendar(),
        ensures
            r@ == written_of(self.secs, self.nanos),
            0 <= self.secs <= LAST_WRITTEN_SECOND ==> stamp_in(r@) == Some(*self),
    {
        to_rfc3339(self.secs, self.nanos)
    }

    fn nanos_from(&self, earlier: Stamp) -> (r: i128)
        ensures
            r == self.nanos_since(earlier),
    {
        (self.secs as i128 - earlier.secs as i128) * 1_000_000_000 + self.nanos as i128
            - earlier.nanos as i128
    }

    /// The whole seconds from `earlier` until this moment.
    pub fn seconds_from(&self, earlier: Stamp) -> (r: i128)
        ensures
            r == self.secs_since(earlier),
    {
        let n = self.nanos_from(earlier);
        if n >= 0 {
            n / 1_000_000_000
        } else {
            -((-n) / 1_000_000_000)
        }
    }

    /// The whole hours from `earlier` until this moment. The calendar of a moment
    /// leaves room for them in a count of 64 bits.
    pub fn hours_from(&self, earlier: Stamp) -> (r: i64)
        ensures
            r == self.hours_since(earlier),
    {
        let n = self.nanos_from(earlier);
        if n >= 0 {
            (n / 3_600_000_000_000) as i64
        } else {
            (-((-n) / 3_600_000_000_000)) as i64
        }
    }
}

} // verus!
