//! Unit-safe scalar quantities: frequencies and durations held as integers in
//! fixed sub-units, so that unit mixing is a type error.

use vstd::prelude::*;

verus! {

/// A frequency in millihertz (thousandths of a cycle per second).
#[derive(Debug, Clone, Copy, PartialEq, Eq, Structural)]
pub struct Frequency(pub u64);

/// A duration in milliseconds.
#[derive(Debug, Clone, Copy, PartialEq, Eq, Structural)]
pub struct Duration(pub u64);

impl Frequency {
    /// A frequency of a whole number of cycles per second.
    pub fn from_hertz(hertz: u32) -> (r: Frequency)
        ensures
            r.0 == hertz * 1000,
    {
        Frequency((hertz as u64) * 1000)
    }

    pub fn from_millihertz(millihertz: u64) -> (r: Frequency)
        ensures
            r.0 == millihertz,
    {
        Frequency(millihertz)
    }

    /// The whole number of cycles per second, rounded down.
    pub fn to_hertz(self) -> (r: u64)
        ensures
            r == self.0 / 1000,
    {
        self.0 / 1000
    }

    pub fn to_millihertz(self) -> (r: u64)
        ensures
            r == self.0,
    {
        self.0
    }

    /// Sum of two frequencies.
    pub fn plus(self, other: Frequency) -> (r: Frequency)
        requires
            self.0 + other.0 <= u64::MAX,
        ensures
            r.0 == self.0 + other.0,
    {
        Frequency(self.0 + other.0)
    }

    /// Difference of two frequencies.
    pub fn minus(self, other: Frequency) -> (r: Frequency)
        requires
            other.0 <= self.0,
        ensures
            r.0 == self.0 - other.0,
    {
        Frequency(self.0 - other.0)
    }

    /// The frequency scaled by a whole factor.
    pub fn times(self, factor: u64) -> (r: Frequency)
        requires
            self.0 * factor <= u64::MAX,
        ensures
            r.0 == self.0 * factor,
    {
        Frequency(self.0 * factor)
    }

    /// Frequency times duration: the dimensionless number of whole cycles
    /// that fit in the duration, rounded down.
    pub fn cycles_in(self, duration: Duration) -> (r: u64)
        requires
            mul_div_spec(self.0, duration.0, 1000000) <= u64::MAX,
        ensures
            r == mul_div_spec(self.0, duration.0, 1000000),
    {
        let wide: u128 = (self.0 as u128) * (duration.0 as u128);
        let q: u128 = wide / 1000000u128;
        proof {
            vstd::arithmetic::div_mod::lemma_div_pos_is_pos((self.0 as int) * (duration.0 as int), 1000000int);
        }
        q as u64
    }

    /// The dimensionless ratio of two frequencies, rounded down.
    pub fn ratio(self, other: Frequency) -> (r: u64)
        requires
            other.0 >= 1,
        ensures
            r == self.0 / other.0,
    {
        self.0 / other.0
    }
}

impl Duration {
    /// A duration of a whole number of seconds.
    pub fn from_seconds(seconds: u32) -> (r: Duration)
        ensures
            r.0 == seconds * 1000,
    {
        Duration((seconds as u64) * 1000)
    }

    pub fn from_milliseconds(milliseconds: u64) -> (r: Duration)
        ensures
            r.0 == milliseconds,
    {
        Duration(milliseconds)
    }

    /// The whole number of seconds, rounded down.
    pub fn to_seconds(self) -> (r: u64)
        ensures
            r == self.0 / 1000,
    {
        self.0 / 1000
    }

    pub fn to_milliseconds(self) -> (r: u64)
        ensures
            r == self.0,
    {
        self.0
    }

    /// Sum of two durations.
    pub fn plus(self, other: Duration) -> (r: Duration)
        requires
            self.0 + other.0 <= u64::MAX,
        ensures
            r.0 == self.0 + other.0,
    {
        Duration(self.0 + other.0)
    }

    /// Difference of two durations.
    pub fn minus(self, other: Duration) -> (r: Duration)
        requires
            other.0 <= self.0,
        ensures
            r.0 == self.0 - other.0,
    {
        Duration(self.0 - other.0)
    }

    /// The duration scaled by a whole factor.
    pub fn times(self, factor: u64) -> (r: Duration)
        requires
            self.0 * factor <= u64::MAX,
        ensures
            r.0 == self.0 * factor,
    {
        Duration(self.0 * factor)
    }

    /// The dimensionless ratio of two durations, rounded down.
    pub fn ratio(self, other: Duration) -> (r: u64)
        requires
            other.0 >= 1,
        ensures
            r == self.0 / other.0,
    {
        self.0 / other.0
    }
}

/// `a * b / c` computed without intermediate overflow.
pub open spec fn mul_div_spec(a: u64, b: u64, c: u64) -> int {
    (a as int) * (b as int) / (c as int)
}

} // verus!
