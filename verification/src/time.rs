//! Points in time, as the ledger and the escrow store compare them.

use vstd::prelude::*;

verus! {

/// An instant on the UTC time line: whole seconds since the Unix epoch and
/// the nanoseconds within that second. Instants are ordered by seconds,
/// then by nanoseconds.
#[derive(Clone, Copy, Debug, PartialEq, Eq, Structural)]
pub struct Timestamp {
    pub secs: i64,
    pub nanos: u32,
}

/// The seconds in one day.
pub const SECONDS_PER_DAY: i64 = 86_400;

/// The seconds in one hour.
pub const SECONDS_PER_HOUR: i64 = 3_600;

impl Timestamp {
    /// `self` lies strictly before `other`.
    pub open spec fn lt(self, other: Timestamp) -> bool {
        self.secs < other.secs || (self.secs == other.secs && self.nanos < other.nanos)
    }

    /// `self` lies at or before `other`.
    pub open spec fn le(self, other: Timestamp) -> bool {
        self.secs < other.secs || (self.secs == other.secs && self.nanos <= other.nanos)
    }

    /// `self` lies at or before the instant `days` whole days before `now`.
    pub open spec fn at_least_days_before(self, now: Timestamp, days: nat) -> bool {
        self.secs + SECONDS_PER_DAY * days < now.secs || (self.secs + SECONDS_PER_DAY * days
            == now.secs && self.nanos <= now.nanos)
    }

    /// `self` lies at or before the instant `hours` whole hours before
    /// `now`.
    pub open spec fn at_least_hours_before(self, now: Timestamp, hours: nat) -> bool {
        self.secs + SECONDS_PER_HOUR * hours < now.secs || (self.secs + SECONDS_PER_HOUR * hours
            == now.secs && self.nanos <= now.nanos)
    }

    /// The instant made of `secs` and `nanos`.
    pub fn new(secs: i64, nanos: u32) -> (t: Timestamp)
        ensures
            t.secs == secs,
            t.nanos == nanos,
    {
        Timestamp { secs, nanos }
    }

    /// Whether `self` lies strictly before `other`.
    pub fn is_before(&self, other: &Timestamp) -> (b: bool)
        ensures
            b == self.lt(*other),
    {
        self.secs < other.secs || (self.secs == other.secs && self.nanos < other.nanos)
    }

    /// Whether `self` lies at or before `other`.
    pub fn is_at_or_before(&self, other: &Timestamp) -> (b: bool)
        ensures
            b == self.le(*other),
    {
        self.secs < other.secs || (self.secs == other.secs && self.nanos <= other.nanos)
    }

    /// Whether `self` lies at or before the instant `days` whole days
    /// before `now`.
    pub fn is_at_least_days_before(&self, now: &Timestamp, days: u32) -> (b: bool)
        ensures
            b == self.at_least_days_before(*now, days as nat),
    {
        let span: i128 = 86_400 * (days as i128);
        let shifted: i128 = self.secs as i128 + span;
        let limit: i128 = now.secs as i128;
        shifted < limit || (shifted == limit && self.nanos <= now.nanos)
    }

    /// Whether `self` lies at or before the instant `hours` whole hours
    /// before `now`.
    pub fn is_at_least_hours_before(&self, now: &Timestamp, hours: u64) -> (b: bool)
        ensures
            b == self.at_least_hours_before(*now, hours as nat),
    {
        let span: i128 = 3_600 * (hours as i128);
        let shifted: i128 = self.secs as i128 + span;
        let limit: i128 = now.secs as i128;
        shifted < limit || (shifted == limit && self.nanos <= now.nanos)
    }
}

/// Reads the clock with `chrono::Utc::now` and keeps what
/// `DateTime::timestamp` and `DateTime::timestamp_subsec_nanos` give.
/// Trusted, and nothing is claimed of the instant: it is whatever the
/// machine's clock says. chrono refuses a clock set before 1970.
#[verifier::external_body]
pub(crate) fn current_time() -> (t: Timestamp) {
    let now = chrono::Utc::now();
    Timestamp { secs: now.timestamp(), nanos: now.timestamp_subsec_nanos() }
}

/// Reads the clock with `chrono::Utc::now` and writes the instant with
/// `DateTime::to_rfc3339`. Trusted, and nothing is claimed of the text: it
/// names whatever instant the machine's clock gave.
#[verifier::external_body]
pub(crate) fn current_time_text() -> (text: String) {
    chrono::Utc::now().to_rfc3339()
}

/// The whole milliseconds from `start` to `end`; 0 where `end` is not
/// after `start`, and the largest number where they do not fit.
pub open spec fn millis_between(start: Timestamp, end: Timestamp) -> u64 {
    let nanos = (end.secs - start.secs) * 1_000_000_000 + (end.nanos - start.nanos);
    if nanos <= 0 {
        0
    } else if nanos / 1_000_000 > u64::MAX {
        u64::MAX
    } else {
        (nanos / 1_000_000) as u64
    }
}

/// The whole milliseconds from `start` to `end`.
pub fn elapsed_millis(start: &Timestamp, end: &Timestamp) -> (ms: u64)
    ensures
        ms == millis_between(*start, *end),
{
    let secs: i128 = end.secs as i128 - start.secs as i128;
    let nanos: i128 = secs * 1_000_000_000 + (end.nanos as i128 - start.nanos as i128);
    if nanos <= 0 {
        0
    } else {
        let millis: i128 = nanos / 1_000_000;
        if millis > u64::MAX as i128 {
            u64::MAX
        } else {
            millis as u64
        }
    }
}

} // verus!
