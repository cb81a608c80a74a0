//! Sample scalars: total ordering, amplitude limits, and the Q15 fixed-point
//! helpers used by every concrete filter.

use vstd::prelude::*;

verus! {

/// Absolute value of a mathematical integer.
pub open spec fn abs_val(x: int) -> int {
    if x >= 0 {
        x
    } else {
        -x
    }
}

/// Saturate a mathematical integer into the `i64` range.
pub open spec fn sat64(x: int) -> int {
    if x > i64::MAX as int {
        i64::MAX as int
    } else if x < i64::MIN as int {
        i64::MIN as int
    } else {
        x
    }
}

/// Division by `Q15_ONE` that truncates toward zero, as the executable
/// fixed-point code does.
pub open spec fn div_q15(x: int) -> int {
    if x >= 0 {
        x / 32768
    } else {
        -((-x) / 32768)
    }
}

/// The Q15 product of two samples, saturated into the `i64` range.
pub open spec fn scale_q15(a: int, b: int) -> int {
    sat64(div_q15(a * b))
}

/// A total preorder on a copyable scalar: every two values compare, and the
/// comparison is transitive. Antisymmetry is not required, so distinct values
/// may compare equal in both directions (magnitudes do).
pub trait TotalOrder: Copy + Sized {
    /// What `le` decides.
    spec fn le_spec(self, other: Self) -> bool;

    /// Any two values compare in at least one direction.
    proof fn lemma_total(a: Self, b: Self)
        ensures
            a.le_spec(b) || b.le_spec(a),
    ;

    /// The order relation is transitive.
    proof fn lemma_transitive(a: Self, b: Self, c: Self)
        requires
            a.le_spec(b),
            b.le_spec(c),
        ensures
            a.le_spec(c),
    ;

    /// Decide `self <= other` in the order.
    fn le(self, other: Self) -> (r: bool)
        ensures
            r == self.le_spec(other),
    ;

    /// Decide `self < other`, i.e. `other` is not at or below `self`.
    fn lt(self, other: Self) -> (r: bool)
        ensures
            r == !other.le_spec(self),
    {
        let back = other.le(self);
        !back
    }
}

/// Scalar type that can carry an audio signal: ordered, with a lower and an
/// upper amplitude limit and an equilibrium (silence) value between them.
pub trait Sample: TotalOrder {
    spec fn lower_limit_spec() -> Self;

    spec fn upper_limit_spec() -> Self;

    spec fn equilibrium_spec() -> Self;

    fn lower_limit() -> (r: Self)
        ensures
            r == Self::lower_limit_spec(),
    ;

    fn upper_limit() -> (r: Self)
        ensures
            r == Self::upper_limit_spec(),
    ;

    fn equilibrium() -> (r: Self)
        ensures
            r == Self::equilibrium_spec(),
    ;
}

impl TotalOrder for i64 {
    open spec fn le_spec(self, other: Self) -> bool {
        self <= other
    }

    proof fn lemma_total(a: Self, b: Self) {
    }

    proof fn lemma_transitive(a: Self, b: Self, c: Self) {
    }

    fn le(self, other: Self) -> (r: bool) {
        self <= other
    }
}

/// The canonical signal sample: Q15 fixed point held in an `i64`, full scale
/// at +/-32767 and equilibrium at zero.
impl Sample for i64 {
    open spec fn lower_limit_spec() -> Self {
        -32767i64
    }

    open spec fn upper_limit_spec() -> Self {
        32767i64
    }

    open spec fn equilibrium_spec() -> Self {
        0i64
    }

    fn lower_limit() -> (r: Self) {
        -32767
    }

    fn upper_limit() -> (r: Self) {
        32767
    }

    fn equilibrium() -> (r: Self) {
        0
    }
}

impl TotalOrder for i32 {
    open spec fn le_spec(self, other: Self) -> bool {
        self <= other
    }

    proof fn lemma_total(a: Self, b: Self) {
    }

    proof fn lemma_transitive(a: Self, b: Self, c: Self) {
    }

    fn le(self, other: Self) -> (r: bool) {
        self <= other
    }
}

impl TotalOrder for i16 {
    open spec fn le_spec(self, other: Self) -> bool {
        self <= other
    }

    proof fn lemma_total(a: Self, b: Self) {
    }

    proof fn lemma_transitive(a: Self, b: Self, c: Self) {
    }

    fn le(self, other: Self) -> (r: bool) {
        self <= other
    }
}

/// The output sample format of the library's fixed-point pipeline.
impl Sample for i16 {
    open spec fn lower_limit_spec() -> Self {
        -32767i16
    }

    open spec fn upper_limit_spec() -> Self {
        32767i16
    }

    open spec fn equilibrium_spec() -> Self {
        0i16
    }

    fn lower_limit() -> (r: Self) {
        -32767
    }

    fn upper_limit() -> (r: Self) {
        32767
    }

    fn equilibrium() -> (r: Self) {
        0
    }
}

/// Conversion between sample formats, full scale to full scale.
pub trait Resample<To> {
    spec fn resample_spec(self) -> To;

    fn resample(self) -> (r: To)
        ensures
            r == self.resample_spec(),
    ;
}

impl Resample<i16> for i64 {
    open spec fn resample_spec(self) -> i16 {
        if self < -32767 {
            -32767i16
        } else if self > 32767 {
            32767i16
        } else {
            self as i16
        }
    }

    fn resample(self) -> (r: i16) {
        let limited = hard_limit(self);
        limited as i16
    }
}

/// What `clamp` returns: `min` below the range, `max` above it, otherwise the
/// value itself.
pub open spec fn clamp_spec<A: TotalOrder>(value: A, min: A, max: A) -> A {
    if !min.le_spec(value) {
        min
    } else if !value.le_spec(max) {
        max
    } else {
        value
    }
}

/// Restrict a value to the interval `[min, max]`.
pub fn clamp<A: TotalOrder>(value: A, min: A, max: A) -> (r: A)
    ensures
        r == clamp_spec(value, min, max),
{
    if value.lt(min) {
        min
    } else if max.lt(value) {
        max
    } else {
        value
    }
}

/// Clip a sample to the amplitude limits of its type.
pub fn hard_limit<S: Sample>(input: S) -> (r: S)
    ensures
        r == clamp_spec(input, S::lower_limit_spec(), S::upper_limit_spec()),
{
    clamp(input, S::lower_limit(), S::upper_limit())
}

/// The value `sat_add` returns.
pub open spec fn sat_add_spec(a: i64, b: i64) -> i64 {
    sat64(a as int + b as int) as i64
}

/// The value `q15_scale` returns.
pub open spec fn q15_scale_spec(a: i64, b: i64) -> i64 {
    scale_q15(a as int, b as int) as i64
}

/// Add two samples, saturating at the `i64` range ends.
pub fn sat_add(a: i64, b: i64) -> (r: i64)
    ensures
        r as int == sat64(a as int + b as int),
{
    match a.checked_add(b) {
        Some(s) => s,
        None => {
            if a >= 0 {
                i64::MAX
            } else {
                i64::MIN
            }
        },
    }
}

/// The value `q15_combine` returns: the weighted sum `a * wa + b * wb` scaled
/// back down by `Q15_ONE`, truncated toward zero and saturated.
pub open spec fn combine_q15(a: int, wa: int, b: int, wb: int) -> int {
    sat64(div_q15(a * wa + b * wb))
}

/// Combine two samples with Q15 weights.
pub fn q15_combine(a: i64, wa: i64, b: i64, wb: i64) -> (r: i64)
    requires
        -32768 <= wa <= 32768,
        -32768 <= wb <= 32768,
    ensures
        r as int == combine_q15(a as int, wa as int, b as int, wb as int),
{
    proof {
        assert((a as int) * (wa as int) <= 0x8000000000000000 * 0x8000 && (a as int) * (wa as int)
            >= -0x8000000000000000 * 0x8000) by (nonlinear_arith)
            requires
                -0x8000000000000000 <= a as int <= 0x7fffffffffffffff,
                -0x8000 <= wa as int <= 0x8000,
        ;
        assert((b as int) * (wb as int) <= 0x8000000000000000 * 0x8000 && (b as int) * (wb as int)
            >= -0x8000000000000000 * 0x8000) by (nonlinear_arith)
            requires
                -0x8000000000000000 <= b as int <= 0x7fffffffffffffff,
                -0x8000 <= wb as int <= 0x8000,
        ;
    }
    let p: i128 = (a as i128) * (wa as i128) + (b as i128) * (wb as i128);
    let neg: bool = p < 0;
    let mag: u128 = if neg {
        (-p) as u128
    } else {
        p as u128
    };
    let q: u128 = mag / 32768u128;
    if neg {
        if q >= 9223372036854775808u128 {
            i64::MIN
        } else {
            -(q as i64)
        }
    } else {
        if q > 9223372036854775807u128 {
            i64::MAX
        } else {
            q as i64
        }
    }
}

/// Multiply two Q15 samples: the wide product scaled back down by `Q15_ONE`,
/// truncated toward zero and saturated into the `i64` range.
pub fn q15_scale(a: i64, b: i64) -> (r: i64)
    ensures
        r as int == scale_q15(a as int, b as int),
{
    proof {
        assert((a as int) * (b as int) <= 0x40000000000000000000000000000000
            && (a as int) * (b as int) >= -0x40000000000000000000000000000000) by (nonlinear_arith)
            requires
                -0x8000000000000000 <= a as int <= 0x7fffffffffffffff,
                -0x8000000000000000 <= b as int <= 0x7fffffffffffffff,
        ;
    }
    let p: i128 = (a as i128) * (b as i128);
    let neg: bool = p < 0;
    let mag: u128 = if neg {
        (-p) as u128
    } else {
        p as u128
    };
    let q: u128 = mag / 32768u128;
    if neg {
        if q >= 9223372036854775808u128 {
            i64::MIN
        } else {
            -(q as i64)
        }
    } else {
        if q > 9223372036854775807u128 {
            i64::MAX
        } else {
            q as i64
        }
    }
}

} // verus!
