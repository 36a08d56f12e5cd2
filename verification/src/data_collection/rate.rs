//! Turning a counter that only grows into a rate.
//!
//! The operating system reports totals: bytes received since boot, processor
//! time used since a process started. A rate is the difference of two such
//! observations over the time between them. A counter that went backwards
//! was reset, and a clock that did not advance gives nothing to divide by;
//! both give a rate of zero, never a negative one.
//!
//! Instants are in milliseconds.

use vstd::prelude::*;

verus! {

/// How far a counter has advanced: zero if it went backwards.
pub open spec fn counter_delta(prev_value: int, curr_value: int) -> int {
    if curr_value > prev_value {
        curr_value - prev_value
    } else {
        0
    }
}

/// The time from `prev_time` to `curr_time`: zero if the clock went
/// backwards.
pub open spec fn elapsed(prev_time: int, curr_time: int) -> int {
    if curr_time > prev_time {
        curr_time - prev_time
    } else {
        0
    }
}

/// The advance of a counter per unit of time, times `scale`, rounded down.
pub open spec fn exact_rate(
    prev_value: int,
    prev_time: int,
    curr_value: int,
    curr_time: int,
    scale: int,
) -> int {
    if curr_time <= prev_time {
        0
    } else {
        counter_delta(prev_value, curr_value) * scale / (curr_time - prev_time)
    }
}

/// [`exact_rate`], held at the largest `u64` where it would not fit.
pub open spec fn scaled_rate(
    prev_value: int,
    prev_time: int,
    curr_value: int,
    curr_time: int,
    scale: int,
) -> int {
    let exact = exact_rate(prev_value, prev_time, curr_value, curr_time, scale);
    if exact > u64::MAX {
        u64::MAX as int
    } else {
        exact
    }
}

/// A rate is never negative. It is zero when the counter went backwards or
/// stood still, and when time did not advance.
pub proof fn lemma_rate_never_negative(
    prev_value: int,
    prev_time: int,
    curr_value: int,
    curr_time: int,
    scale: int,
)
    requires
        scale >= 0,
    ensures
        scaled_rate(prev_value, prev_time, curr_value, curr_time, scale) >= 0,
        exact_rate(prev_value, prev_time, curr_value, curr_time, scale) >= 0,
        curr_value <= prev_value ==> scaled_rate(
            prev_value,
            prev_time,
            curr_value,
            curr_time,
            scale,
        ) == 0,
        curr_time <= prev_time ==> scaled_rate(prev_value, prev_time, curr_value, curr_time, scale)
            == 0,
{
    if curr_time > prev_time {
        let dv = counter_delta(prev_value, curr_value);
        let dt = curr_time - prev_time;
        assert(dv * scale >= 0) by (nonlinear_arith)
            requires
                dv >= 0,
                scale >= 0,
        ;
        assert(dv * scale / dt >= 0) by (nonlinear_arith)
            requires
                dv * scale >= 0,
                dt > 0,
        ;
        if curr_value <= prev_value {
            assert(dv * scale == 0) by (nonlinear_arith)
                requires
                    dv == 0,
            ;
        }
    }
}

/// Computes the rate between two observations of a counter: the advance of
/// the counter, times `scale`, per millisecond elapsed.
///
/// With a `scale` of 1000 this is the advance per second.
pub fn rate(prev_value: u64, prev_time: u64, curr_value: u64, curr_time: u64, scale: u32) -> (r:
    u64)
    ensures
        r == scaled_rate(
            prev_value as int,
            prev_time as int,
            curr_value as int,
            curr_time as int,
            scale as int,
        ),
{
    if curr_time <= prev_time || curr_value <= prev_value {
        proof {
            lemma_rate_never_negative(
                prev_value as int,
                prev_time as int,
                curr_value as int,
                curr_time as int,
                scale as int,
            );
        }
        return 0;
    }
    let dv: u128 = (curr_value - prev_value) as u128;
    let dt: u128 = (curr_time - prev_time) as u128;
    assert(dv * (scale as u128) <= 0xffff_ffff_ffff_ffff * 0xffff_ffff) by (nonlinear_arith)
        requires
            dv <= 0xffff_ffff_ffff_ffff,
            scale <= 0xffff_ffff,
    ;
    let exact: u128 = dv * (scale as u128) / dt;
    if exact > u64::MAX as u128 {
        u64::MAX
    } else {
        exact as u64
    }
}

/// What is remembered of a counter between two ticks: its last value and
/// when that was seen, once it has been seen at all.
#[derive(Clone, Copy, Debug, PartialEq, Eq, Structural)]
pub struct RateCounter {
    /// Whether a value has been observed.
    pub seeded: bool,
    /// The value last observed.
    pub value: u64,
    /// When it was observed.
    pub instant: u64,
}

impl RateCounter {
    /// The rate that observing `value` at `instant` gives: zero for the
    /// first observation, which has nothing to be compared with.
    pub open spec fn rate_at(self, value: u64, instant: u64, scale: u32) -> int {
        if self.seeded {
            scaled_rate(
                self.value as int,
                self.instant as int,
                value as int,
                instant as int,
                scale as int,
            )
        } else {
            0
        }
    }

    /// The counter after `value` was observed at `instant`.
    pub open spec fn observed(value: u64, instant: u64) -> RateCounter {
        RateCounter { seeded: true, value, instant }
    }

    /// A counter of which nothing has been observed.
    pub fn new() -> (counter: RateCounter)
        ensures
            !counter.seeded,
            counter.value == 0,
            counter.instant == 0,
    {
        RateCounter { seeded: false, value: 0, instant: 0 }
    }

    /// Observes the counter: returns the rate since the last observation and
    /// remembers this one in its place, whatever the rate was.
    pub fn observe(&mut self, value: u64, instant: u64, scale: u32) -> (r: u64)
        ensures
            r == old(self).rate_at(value, instant, scale),
            *final(self) == RateCounter::observed(value, instant),
    {
        let r: u64 = if self.seeded {
            rate(self.value, self.instant, value, instant, scale)
        } else {
            0
        };
        self.seeded = true;
        self.value = value;
        self.instant = instant;
        r
    }
}

} // verus!
