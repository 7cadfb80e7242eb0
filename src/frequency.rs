use vstd::prelude::*;

use crate::signal::{Signal, cleared, written};

verus! {

/// Ticks of the microsecond clock per second.
pub const TICKS_PER_SECOND: u64 = 1_000_000;

/// Ticks elapsed from `previous` to `now` on the 64-bit microsecond clock,
/// which wraps around at 2^64.
pub open spec fn ticks_since(previous: u64, now: u64) -> int {
    (now as int - previous as int) % 0x1_0000_0000_0000_0000
}

/// The weighted mean `(a·wa + b·wb) / (wa + wb)`, rounded down.
pub open spec fn weighted(wa: u32, wb: u32, a: u64, b: u64) -> int {
    (a * wa + b * wb) / (wa + wb)
}

/// Weights of a smoothing filter: field 0 weighs the previous filtered value,
/// field 1 the new raw one.
#[derive(Debug, Clone, Copy)]
pub struct Ratio(pub u32, pub u32);

impl Ratio {
    /// Whether the weights can be applied: not both zero.
    pub open spec fn wf(self) -> bool {
        self.0 + self.1 > 0
    }

    /// The weighted mean of the previous value `a` and the new value `b`.
    pub fn apply(self, a: u64, b: u64) -> (r: u64)
        requires
            self.wf(),
        ensures
            r == weighted(self.0, self.1, a, b),
    {
        let (ar, br) = (self.0 as u128, self.1 as u128);
        proof {
            let m = if a >= b { a as int } else { b as int };
            assert(a * ar + b * br <= m * (ar + br)) by (nonlinear_arith)
                requires
                    0 <= a <= m,
                    0 <= b <= m,
                    ar >= 0,
                    br >= 0,
            ;
            assert(a * ar <= 0xffff_ffff_ffff_ffff * 0xffff_ffff) by (nonlinear_arith)
                requires
                    a <= 0xffff_ffff_ffff_ffff,
                    ar <= 0xffff_ffff,
            ;
            assert(b * br <= 0xffff_ffff_ffff_ffff * 0xffff_ffff) by (nonlinear_arith)
                requires
                    b <= 0xffff_ffff_ffff_ffff,
                    br <= 0xffff_ffff,
            ;
            assert((a * ar + b * br) / (ar + br) <= m) by (nonlinear_arith)
                requires
                    a * ar + b * br <= m * (ar + br),
                    ar + br > 0,
                    a * ar + b * br >= 0,
            ;
        }
        ((a as u128 * ar + b as u128 * br) / (ar + br)) as u64
    }
}

/// Exclusive lower and upper bounds on a duration, in ticks.
#[derive(Debug, Clone, Copy)]
pub struct Bounds(pub u64, pub u64);

impl Bounds {
    /// What `apply` returns for `x`.
    pub open spec fn spec_apply(self, x: u64) -> Option<u64> {
        if self.0 < x && x < self.1 {
            Some(x)
        } else {
            None
        }
    }

    /// `x` if it lies strictly between the bounds, else `None`.
    pub fn apply(self, x: u64) -> (r: Option<u64>)
        ensures
            r == self.spec_apply(x),
    {
        if x > self.0 && x < self.1 {
            Some(x)
        } else {
            None
        }
    }
}

/// The filtered period after an edge at `now`, given the last edge and the
/// filtered period before it, each if known: with both, the weighted mean of
/// the old period and the new interval; with only one, that one; then bounds.
pub open spec fn next_interval(
    filter: Ratio,
    bounds: Bounds,
    previous: Option<u64>,
    interval: Option<u64>,
    now: u64,
) -> Option<u64> {
    match (previous, interval) {
        (Some(instant), Some(duration)) => bounds.spec_apply(
            weighted(filter.0, filter.1, duration, ticks_since(instant, now) as u64) as u64,
        ),
        (None, Some(duration)) => bounds.spec_apply(duration),
        (Some(instant), None) => bounds.spec_apply(ticks_since(instant, now) as u64),
        (None, None) => None,
    }
}

/// Edge-interval filter of a tachometer: turns edge timestamps into a smoothed,
/// bounds-checked pulse period, published through a signal. An interval out of
/// bounds (pin bounce, or a stalled fan) leaves no known period, and the signal
/// is cleared rather than left holding a stale value.
pub struct Frequency {
    filter: Ratio,
    bounds: Bounds,
    previous: Option<u64>,
    interval: Option<u64>,
}

impl Frequency {
    pub closed spec fn spec_filter(&self) -> Ratio {
        self.filter
    }

    pub closed spec fn spec_bounds(&self) -> Bounds {
        self.bounds
    }

    pub closed spec fn spec_previous(&self) -> Option<u64> {
        self.previous
    }

    pub closed spec fn spec_interval(&self) -> Option<u64> {
        self.interval
    }

    /// A filter that has seen no edge yet.
    pub fn new(filter: Ratio, bounds: Bounds) -> (r: Self)
        requires
            filter.wf(),
        ensures
            r.spec_filter() == filter,
            r.spec_bounds() == bounds,
            r.spec_previous().is_none(),
            r.spec_interval().is_none(),
    {
        Frequency { filter, bounds, previous: None, interval: None }
    }

    /// The filtered period, if one is known.
    pub fn interval(&self) -> (r: Option<u64>)
        ensures
            r == self.spec_interval(),
    {
        self.interval
    }

    /// Handles an edge at tick `now`: updates the filtered period, always
    /// remembers `now` as the last edge, and publishes the period to `signal`,
    /// or clears it when none is known. Returns whether the reader must be woken.
    pub fn edge(&mut self, now: u64, signal: &mut Signal<u64>) -> (wake: bool)
        requires
            old(self).spec_filter().wf(),
        ensures
            final(self).spec_filter() == old(self).spec_filter(),
            final(self).spec_bounds() == old(self).spec_bounds(),
            final(self).spec_previous() == Some(now),
            final(self).spec_interval() == next_interval(
                old(self).spec_filter(),
                old(self).spec_bounds(),
                old(self).spec_previous(),
                old(self).spec_interval(),
                now,
            ),
            match final(self).spec_interval() {
                Some(d) => final(signal)@ == written(old(signal)@, d) && wake
                    == old(signal)@.waiting,
                None => final(signal)@ == cleared(old(signal)@) && !wake,
            },
    {
        self.interval =
            match (self.previous, self.interval) {
            (Some(instant), Some(duration)) => {
                let next = now.wrapping_sub(instant);
                self.bounds.apply(self.filter.apply(duration, next))
            },
            (None, Some(duration)) => self.bounds.apply(duration),
            (Some(instant), None) => self.bounds.apply(now.wrapping_sub(instant)),
            (None, None) => None,
        };
        self.previous = Some(now);
        match self.interval {
            Some(duration) => signal.write(duration),
            None => {
                signal.clear();
                false
            },
        }
    }
}

/// Pulse rate in hertz of a period of `ticks` microseconds.
pub open spec fn rate_hz(ticks: u64) -> int {
    TICKS_PER_SECOND as int / ticks as int
}

/// Fan speed in revolutions per minute from the latest pulse period: the fan
/// gives two pulses per revolution, so rpm is 60 / 2 = 30 times the pulse rate.
/// Without a fresh period, or with a zero one, the speed is reported as 0.
pub open spec fn rpm_of(period: Option<u64>) -> int {
    match period {
        Some(t) if t > 0 => 30 * rate_hz(t),
        _ => 0,
    }
}

/// Consumes the latest pulse period from the tachometer's signal and converts it
/// to revolutions per minute.
pub fn rpm(periods: &mut Signal<u64>) -> (r: i32)
    ensures
        r == rpm_of(old(periods)@.slot),
        final(periods)@ == (crate::signal::taken(old(periods)@)).0,
{
    match periods.try_read() {
        Some(duration) if duration > 0 => {
            let hz = TICKS_PER_SECOND / duration;
            30 * (hz as i32)
        },
        _ => 0,
    }
}

} // verus!
