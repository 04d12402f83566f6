//! Bounded gauges: a value kept between a minimum and a maximum.
//!
//! Fuel, cooldowns, lifetimes and power slots are all gauges. A gauge over
//! `i64` holds a fixed-point quantity and can be changed by a delta or set by a
//! ratio; a gauge over `usize` counts slots.

use crate::scalar::{clamp, scaled, trunc_div, UNIT};
use vstd::prelude::*;

verus! {

/// A value with the bounds it is kept within.
#[derive(Clone, Copy, Debug, PartialEq, Eq, Structural)]
pub struct Bounded<T> {
    pub value: T,
    pub min: T,
    pub max: T,
}

/// The share of the way from `min` to `max` at which `value` stands, as a
/// fixed-point number; 0 where the bounds coincide.
pub open spec fn ratio_of(value: int, min: int, max: int) -> int {
    if max > min {
        trunc_div((value - min) * UNIT, max - min)
    } else {
        0
    }
}

/// The value at the fixed-point share `ratio` of the way from `min` to `max`,
/// kept within the bounds.
pub open spec fn value_at(ratio: int, min: int, max: int) -> int {
    clamp(min + scaled(max - min, ratio), min, max)
}

impl Bounded<i64> {
    /// The value lies within the bounds.
    pub open spec fn wf(self) -> bool {
        self.min <= self.value <= self.max
    }

    /// The gauge with its value replaced by `value`, limited to the bounds.
    pub open spec fn with_value(self, value: int) -> Bounded<i64> {
        Bounded { value: clamp(value, self.min as int, self.max as int) as i64, ..self }
    }

    /// A gauge between `min` and `max` that holds `value`, limited to the bounds.
    pub fn new(value: i64, min: i64, max: i64) -> (r: Self)
        requires
            min <= max,
        ensures
            r == (Bounded { value: clamp(value as int, min as int, max as int) as i64, min, max }),
            r.wf(),
    {
        let held: i64 = if value < min {
            min
        } else if value > max {
            max
        } else {
            value
        };
        Bounded { value: held, min, max }
    }

    /// A gauge between `min` and `max` that stands at its minimum.
    pub fn new_min(min: i64, max: i64) -> (r: Self)
        requires
            min <= max,
        ensures
            r == (Bounded { value: min, min, max }),
            r.wf(),
    {
        Bounded { value: min, min, max }
    }

    /// A full gauge between zero and `max`.
    pub fn new_max(max: i64) -> (r: Self)
        requires
            0 <= max,
        ensures
            r == (Bounded { value: max, min: 0i64, max }),
            r.wf(),
    {
        Bounded { value: max, min: 0, max }
    }

    /// An empty gauge between zero and `max`.
    pub fn new_zero(max: i64) -> (r: Self)
        requires
            0 <= max,
        ensures
            r == (Bounded { value: 0i64, min: 0i64, max }),
            r.wf(),
    {
        Bounded { value: 0, min: 0, max }
    }

    /// The current value.
    pub fn value(&self) -> (r: i64)
        ensures
            r == self.value,
    {
        self.value
    }

    /// The lower bound.
    pub fn min(&self) -> (r: i64)
        ensures
            r == self.min,
    {
        self.min
    }

    /// The upper bound.
    pub fn max(&self) -> (r: i64)
        ensures
            r == self.max,
    {
        self.max
    }

    /// Sets the value, limited to the bounds.
    pub fn set(&mut self, value: i64)
        requires
            old(self).min <= old(self).max,
        ensures
            *final(self) == old(self).with_value(value as int),
            final(self).wf(),
    {
        self.value = if value < self.min {
            self.min
        } else if value > self.max {
            self.max
        } else {
            value
        };
    }

    /// Adds `delta` to the value; the sum is exact and then limited to the
    /// bounds.
    pub fn change(&mut self, delta: i64)
        requires
            old(self).min <= old(self).max,
        ensures
            *final(self) == old(self).with_value(old(self).value + delta),
            final(self).wf(),
    {
        let sum: i128 = self.value as i128 + delta as i128;
        self.value = if sum < self.min as i128 {
            self.min
        } else if sum > self.max as i128 {
            self.max
        } else {
            sum as i64
        };
    }

    /// Takes `amount` off the value; the difference is exact and then limited
    /// to the bounds.
    pub fn spend(&mut self, amount: i64)
        requires
            old(self).min <= old(self).max,
        ensures
            *final(self) == old(self).with_value(old(self).value - amount),
            final(self).wf(),
    {
        let rest: i128 = self.value as i128 - amount as i128;
        self.value = if rest < self.min as i128 {
            self.min
        } else if rest > self.max as i128 {
            self.max
        } else {
            rest as i64
        };
    }

    /// Sets the value to the fixed-point share `ratio` of the way from the
    /// minimum to the maximum: 0 empties the gauge, `UNIT` fills it.
    pub fn set_ratio(&mut self, ratio: i64)
        requires
            old(self).min <= old(self).max,
        ensures
            *final(self) == (Bounded {
                value: value_at(ratio as int, old(self).min as int, old(self).max as int) as i64,
                ..*old(self)
            }),
            final(self).wf(),
            ratio == 0 ==> final(self).value == old(self).min,
            ratio == UNIT ==> final(self).value == old(self).max,
    {
        let extent: i128 = self.max as i128 - self.min as i128;
        proof {
            assert(-0xffff_ffff_ffff_ffff * 0x8000_0000_0000_0000 <= extent * ratio
                <= 0xffff_ffff_ffff_ffff * 0x8000_0000_0000_0000) by (nonlinear_arith)
                requires
                    -0xffff_ffff_ffff_ffff <= extent <= 0xffff_ffff_ffff_ffff,
                    -0x8000_0000_0000_0000 <= ratio <= 0x8000_0000_0000_0000,
            ;
            if ratio == UNIT {
                assert(extent * 1000 / 1000 == extent) by (nonlinear_arith);
            }
            if ratio == 0 {
                assert(extent * 0 == 0) by (nonlinear_arith);
            }
        }
        let wide: i128 = extent * (ratio as i128);
        let target: i128 = self.min as i128 + wide / 1000;
        self.value = if target < self.min as i128 {
            self.min
        } else if target > self.max as i128 {
            self.max
        } else {
            target as i64
        };
    }

    /// The share of the way from the minimum to the maximum at which the value
    /// stands, as a fixed-point number; 0 where the bounds coincide.
    pub fn get_ratio(&self) -> (r: i64)
        requires
            self.wf(),
        ensures
            r == ratio_of(self.value as int, self.min as int, self.max as int),
            0 <= r <= UNIT,
    {
        if self.max <= self.min {
            return 0;
        }
        let part: i128 = self.value as i128 - self.min as i128;
        let extent: i128 = self.max as i128 - self.min as i128;
        proof {
            assert(0 <= part * 1000 <= extent * 1000) by (nonlinear_arith)
                requires
                    0 <= part <= extent,
            ;
            assert(0 <= (part * 1000) / (extent as int) <= 1000) by (nonlinear_arith)
                requires
                    0 <= part * 1000 <= extent * 1000,
                    extent > 0,
            ;
        }
        let share: i128 = (part * 1000) / extent;
        share as i64
    }

    /// Whether the value stands at the minimum.
    pub fn is_min(&self) -> (r: bool)
        ensures
            r == (self.value == self.min),
    {
        self.value == self.min
    }

    /// Whether the value stands at the maximum.
    pub fn is_max(&self) -> (r: bool)
        ensures
            r == (self.value == self.max),
    {
        self.value == self.max
    }

    /// Whether the value stands above the minimum.
    pub fn is_above_min(&self) -> (r: bool)
        ensures
            r == (self.value > self.min),
    {
        self.value > self.min
    }
}

impl Bounded<usize> {
    /// The value lies within the bounds.
    pub open spec fn wf(self) -> bool {
        self.min <= self.value <= self.max
    }

    /// A gauge between `min` and `max` that holds `value`, limited to the bounds.
    pub fn new(value: usize, min: usize, max: usize) -> (r: Self)
        requires
            min <= max,
        ensures
            r == (Bounded {
                value: clamp(value as int, min as int, max as int) as usize,
                min,
                max,
            }),
            r.wf(),
    {
        let held: usize = if value < min {
            min
        } else if value > max {
            max
        } else {
            value
        };
        Bounded { value: held, min, max }
    }

    /// A full gauge between zero and `max`.
    pub fn new_max(max: usize) -> (r: Self)
        ensures
            r == (Bounded { value: max, min: 0usize, max }),
            r.wf(),
    {
        Bounded { value: max, min: 0, max }
    }

    /// An empty gauge between zero and `max`.
    pub fn new_zero(max: usize) -> (r: Self)
        ensures
            r == (Bounded { value: 0usize, min: 0usize, max }),
            r.wf(),
    {
        Bounded { value: 0, min: 0, max }
    }

    /// The current value.
    pub fn value(&self) -> (r: usize)
        ensures
            r == self.value,
    {
        self.value
    }

    /// The lower bound.
    pub fn min(&self) -> (r: usize)
        ensures
            r == self.min,
    {
        self.min
    }

    /// The upper bound.
    pub fn max(&self) -> (r: usize)
        ensures
            r == self.max,
    {
        self.max
    }

    /// Whether the value stands at the minimum.
    pub fn is_min(&self) -> (r: bool)
        ensures
            r == (self.value == self.min),
    {
        self.value == self.min
    }

    /// Whether the value stands at the maximum.
    pub fn is_max(&self) -> (r: bool)
        ensures
            r == (self.value == self.max),
    {
        self.value == self.max
    }

    /// Whether the value stands above the minimum.
    pub fn is_above_min(&self) -> (r: bool)
        ensures
            r == (self.value > self.min),
    {
        self.value > self.min
    }
}

} // verus!
