//! The simulated clock and the records it stamps.
use vstd::prelude::*;
use chrono::{Datelike, Timelike};
use crate::model::Fix;
use crate::model::GeoPoint;
use crate::sentence::{
    CivilTime, record, encode_fix, sentence, time_field, date_field, lemma_sentence_layout,
};

verus! {

/// The last millisecond of the year 9999, as milliseconds since the Unix epoch.
pub const MAX_MILLIS: i64 = 253_402_300_799_999;

/// A simulated clock reading: milliseconds since 1970-01-01T00:00:00 UTC.
#[derive(Clone, Copy, Debug, PartialEq, Eq, Structural)]
pub struct Clock {
    pub millis: i64,
}

impl Clock {
    /// Between the Unix epoch and the end of the year 9999.
    pub open spec fn wf(self) -> bool {
        0 <= self.millis <= MAX_MILLIS
    }

    /// The clock moved on by `interval_ms`, or `None` past the end of the year 9999.
    pub fn advance(self, interval_ms: u64) -> (r: Option<Clock>)
        requires
            self.wf(),
        ensures
            r == (if self.millis + interval_ms <= MAX_MILLIS {
                Some(Clock { millis: (self.millis + interval_ms) as i64 })
            } else {
                None
            }),
    {
        if interval_ms <= (MAX_MILLIS - self.millis) as u64 {
            Some(Clock { millis: self.millis + interval_ms as i64 })
        } else {
            None
        }
    }
}

/// The UTC calendar date and time of day at a Unix timestamp in milliseconds.
pub uninterp spec fn civil_of(millis: int) -> CivilTime;

/// What the calendar reading of a timestamp is known to satisfy: the time of
/// day is the second of the day split into hours, minutes and seconds (UTC
/// counts no leap seconds), and month, day and year lie in their ranges.
pub open spec fn civil_facts(t: CivilTime, millis: int) -> bool {
    let secs = millis / 1000;
    &&& t.hour == secs % 86_400 / 3600
    &&& t.minute == secs % 3600 / 60
    &&& t.second == secs % 60
    &&& 1 <= t.month <= 12
    &&& 1 <= t.day <= 31
    &&& 1970 <= t.year <= 9999
}

/// Relies on chrono's `DateTime::<Utc>::from_timestamp_millis`, which gives the
/// UTC date and time of a timestamp (any timestamp up to the year 9999 is in its
/// range), read off through its calendar accessors: the time of day comes from
/// the seconds since midnight, and month, day and year are the calendar's.
#[verifier::external_body]
fn civil_time(millis: i64) -> (r: CivilTime)
    requires
        0 <= millis <= MAX_MILLIS,
    ensures
        r == civil_of(millis as int),
        civil_facts(r, millis as int),
{
    let t = chrono::DateTime::from_timestamp_millis(millis).unwrap();
    CivilTime {
        year: t.year() as u32,
        month: t.month(),
        day: t.day(),
        hour: t.hour(),
        minute: t.minute(),
        second: t.second(),
    }
}

/// The record for a fix stamped with the clock's reading.
pub fn encode_at(clock: Clock, fix: &Fix) -> (r: Vec<u8>)
    requires
        clock.wf(),
        fix.wf(),
    ensures
        r@ == record(civil_of(clock.millis as int), *fix),
        civil_facts(civil_of(clock.millis as int), clock.millis as int),
{
    let t = civil_time(clock.millis);
    encode_fix(&t, fix)
}

/// The reading of a clock started at `start` after `k` intervals.
pub open spec fn reading(start: Clock, interval_ms: u64, k: int) -> int {
    start.millis + k * interval_ms
}

/// The records of a whole trajectory: the first fix is stamped with the
/// clock's starting reading and each later one a sampling interval after the
/// one before, so fix `k` is stamped `start + k * interval_ms`.
pub fn encode_trajectory(start: Clock, interval_ms: u64, fixes: &Vec<Fix>) -> (r: Vec<Vec<u8>>)
    requires
        start.wf(),
        fixes@.len() > 0 ==> reading(start, interval_ms, fixes@.len() - 1) <= MAX_MILLIS,
        forall|k: int| 0 <= k < fixes@.len() ==> (#[trigger] fixes@[k]).wf(),
    ensures
        r@.len() == fixes@.len(),
        forall|k: int|
            0 <= k < fixes@.len() ==> (#[trigger] r@[k])@ == record(
                civil_of(reading(start, interval_ms, k)),
                fixes@[k],
            ),
{
    let mut out: Vec<Vec<u8>> = Vec::new();
    let mut now = start;
    let mut k: usize = 0;
    while k < fixes.len()
        invariant
            k <= fixes@.len(),
            k < fixes@.len() ==> now.millis == reading(start, interval_ms, k as int),
            fixes@.len() > 0 ==> reading(start, interval_ms, fixes@.len() - 1) <= MAX_MILLIS,
            start.wf(),
            forall|j: int| 0 <= j < fixes@.len() ==> (#[trigger] fixes@[j]).wf(),
            out@.len() == k,
            forall|j: int|
                0 <= j < k ==> (#[trigger] out@[j])@ == record(
                    civil_of(reading(start, interval_ms, j)),
                    fixes@[j],
                ),
        decreases fixes@.len() - k,
    {
        proof {
            assert(reading(start, interval_ms, k as int) <= reading(
                start,
                interval_ms,
                fixes@.len() - 1,
            )) by (nonlinear_arith)
                requires
                    k + 1 <= fixes@.len(),
            ;
            assert(reading(start, interval_ms, k as int) >= 0) by (nonlinear_arith)
                requires
                    start.millis >= 0,
                    k >= 0,
            ;
        }
        let line = encode_at(now, &fixes[k]);
        out.push(line);
        if k + 1 < fixes.len() {
            proof {
                assert(reading(start, interval_ms, (k + 1) as int) <= reading(
                    start,
                    interval_ms,
                    fixes@.len() - 1,
                )) by (nonlinear_arith)
                    requires
                        k + 2 <= fixes@.len(),
                ;
                assert(reading(start, interval_ms, (k + 1) as int) == reading(
                    start,
                    interval_ms,
                    k as int,
                ) + interval_ms) by (nonlinear_arith);
            }
            now = Clock { millis: now.millis + interval_ms as i64 };
        }
        k = k + 1;
    }
    out
}

/// A sentence stamped by the clock has the fixed layout: its `hhmmss` and
/// `ddmmyy` fields are six digits each and the whole sentence is 69 bytes,
/// for a position in range, a speed below 999.95 knots and a heading below
/// 999.95 degrees.
pub proof fn lemma_stamped_sentence_layout(millis: int, loc: GeoPoint, speed: u64, heading: u64)
    requires
        millis >= 0,
        civil_facts(civil_of(millis), millis),
        loc.wf(),
        speed < 999_950,
        heading < 999_950_000,
    ensures
        time_field(civil_of(millis)).len() == 6,
        date_field(civil_of(millis)).len() == 6,
        sentence(civil_of(millis), loc, speed, heading).len() == 69,
{
    lemma_sentence_layout(civil_of(millis), loc, speed, heading);
}

} // verus!
