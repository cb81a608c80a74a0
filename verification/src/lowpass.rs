//! A one-pole RC low-pass filter: an exponential moving average whose
//! coefficient follows from the cutoff frequency and the sample rate.

use vstd::prelude::*;
use crate::module::{SoundModule, SamplingParameters, Parameter};
use crate::filter::Filter;
use crate::sample::{q15_combine, combine_q15, div_q15, sat64};
use crate::types::Frequency;

verus! {

/// The Q15 smoothing coefficient for a cutoff frequency (millihertz) at a
/// sample rate (hertz): `beta / (beta + 1)` where `beta` is 2 pi times the
/// cutoff over the rate, evaluated exactly in integers and rounded down
/// (411775 / 65536 approximates 2 pi; the factor 65536000 carries both that
/// scale and the millihertz unit). Zero while the filter is unconfigured.
pub open spec fn alpha_spec(cutoff: Frequency, rate: u32) -> int {
    if rate == 0 {
        0
    } else {
        let num = 411775 * (cutoff.0 as int);
        num * 32768 / (num + 65536000 * (rate as int))
    }
}

/// The coefficient is a proper fraction: never negative, never a full 1.0.
pub proof fn lemma_alpha_below_one(cutoff: Frequency, rate: u32)
    ensures
        0 <= alpha_spec(cutoff, rate) < 32768,
{
    if rate != 0 {
        let num = 411775 * (cutoff.0 as int);
        let den = num + 65536000 * (rate as int);
        assert(num >= 0);
        assert(den >= num + 65536000);
        assert(num * 32768 < den * 32768);
        vstd::arithmetic::div_mod::lemma_multiply_divide_lt(num * 32768, den, 32768);
        vstd::arithmetic::div_mod::lemma_div_pos_is_pos(num * 32768, den);
    }
}

/// At cutoff zero the coefficient vanishes: the filter holds its state.
pub proof fn lemma_alpha_at_zero(rate: u32)
    ensures
        alpha_spec(Frequency(0), rate) == 0,
{
    if rate != 0 {
        let den = 411775 * 0 + 65536000 * (rate as int);
        assert(den > 0);
        vstd::arithmetic::div_mod::lemma_div_of0(den);
    }
}

/// At cutoff frequencies far above the sample rate the coefficient attains
/// its ceiling, one step below a full 1.0: the filter passes the raw input
/// as closely as the fixed-point grid allows.
pub proof fn lemma_alpha_saturates(cutoff: Frequency, rate: u32)
    requires
        rate >= 1,
        411775 * (cutoff.0 as int) >= 32767 * 65536000 * (rate as int),
    ensures
        alpha_spec(cutoff, rate) == 32767,
{
    let num = 411775 * (cutoff.0 as int);
    let den = num + 65536000 * (rate as int);
    lemma_alpha_below_one(cutoff, rate);
    assert(num * 32768 == num * 32767 + num) by (nonlinear_arith);
    assert(num * 32767 >= 32767 * (65536000 * (rate as int)) * 32767) by (nonlinear_arith)
        requires
            num >= 32767 * 65536000 * (rate as int),
    ;
    assert(num * 32768 >= 32767 * den) by (nonlinear_arith)
        requires
            num * 32768 == num * 32767 + num,
            num >= 32767 * 65536000 * (rate as int),
            den == num + 65536000 * (rate as int),
    ;
    vstd::arithmetic::div_mod::lemma_div_multiples_vanish(32767, den);
    vstd::arithmetic::div_mod::lemma_div_is_ordered(den * 32767, num * 32768, den);
    assert(den * 32767 <= num * 32768) by (nonlinear_arith)
        requires
            num * 32768 >= 32767 * den,
    ;
    assert(alpha_spec(cutoff, rate) >= 32767);
}

/// The coefficient grows with the cutoff frequency.
pub proof fn lemma_alpha_monotone(c1: Frequency, c2: Frequency, rate: u32)
    requires
        c1.0 <= c2.0,
    ensures
        alpha_spec(c1, rate) <= alpha_spec(c2, rate),
{
    if rate != 0 {
        let n1 = 411775 * (c1.0 as int);
        let n2 = 411775 * (c2.0 as int);
        let c = 65536000 * (rate as int);
        let q1 = alpha_spec(c1, rate);
        lemma_alpha_below_one(c1, rate);
        assert(n1 <= n2);
        assert(n1 >= 0 && c > 0);
        // from the division: q1 * (n1 + c) <= n1 * 32768
        vstd::arithmetic::div_mod::lemma_fundamental_div_mod(n1 * 32768, n1 + c);
        vstd::arithmetic::div_mod::lemma_mod_bound(n1 * 32768, n1 + c);
        assert(q1 * (n1 + c) <= n1 * 32768);
        // widening the numerator by n2 - n1 widens the product by at most
        // 32768 times as much
        assert(q1 * (n2 + c) <= n2 * 32768) by (nonlinear_arith)
            requires
                q1 * (n1 + c) <= n1 * 32768,
                q1 < 32768,
                0 <= q1,
                n1 <= n2,
        ;
        vstd::arithmetic::div_mod::lemma_div_multiples_vanish(q1, n2 + c);
        assert((n2 + c) * q1 <= n2 * 32768);
        vstd::arithmetic::div_mod::lemma_div_is_ordered((n2 + c) * q1, n2 * 32768, n2 + c);
        assert(q1 <= n2 * 32768 / (n2 + c));
    }
}

/// A typed handle naming the cutoff-frequency parameter of a node.
#[derive(Debug)]
pub struct CutoffFrequencyParam<Target>(pub std::marker::PhantomData<Target>);

/// One-pole RC low-pass: `output = last * (1 - alpha) + input * alpha` in
/// Q15, where `alpha` is recomputed whenever the cutoff or the rate changes.
#[derive(Debug, Clone)]
pub struct LowPassRC {
    cutoff_frequency: Frequency,
    sample_rate: u32,
    alpha: i64,
    last_output: i64,
}

impl LowPassRC {
    pub closed spec fn cutoff_spec(&self) -> Frequency {
        self.cutoff_frequency
    }

    pub closed spec fn rate_spec(&self) -> u32 {
        self.sample_rate
    }

    pub closed spec fn alpha_val(&self) -> i64 {
        self.alpha
    }

    pub closed spec fn last_spec(&self) -> i64 {
        self.last_output
    }

    /// Construct a low-pass with the given cutoff frequency. The coefficient
    /// becomes meaningful once the sampling parameters are set.
    pub fn new(cutoff_frequency: Frequency) -> (r: Self)
        ensures
            r.inv(),
            r.cutoff_spec() == cutoff_frequency,
            r.rate_spec() == 0u32,
            r.last_spec() == 0i64,
    {
        LowPassRC { cutoff_frequency, sample_rate: 0, alpha: 0, last_output: 0 }
    }

    fn recompute_coefficient(&mut self)
        requires
            old(self).rate_spec() >= 1,
        ensures
            final(self).cutoff_spec() == old(self).cutoff_spec(),
            final(self).rate_spec() == old(self).rate_spec(),
            final(self).last_spec() == old(self).last_spec(),
            final(self).alpha_val() as int == alpha_spec(old(self).cutoff_spec(), old(self).rate_spec()),
            final(self).inv(),
    {
        proof {
            lemma_alpha_below_one(self.cutoff_frequency, self.sample_rate);
        }
        let num: u128 = 411775u128 * (self.cutoff_frequency.0 as u128);
        let den: u128 = num + 65536000u128 * (self.sample_rate as u128);
        let scaled: u128 = num * 32768;
        self.alpha = (scaled / den) as i64;
    }

    /// Change the cutoff frequency, recomputing the coefficient.
    pub fn set_cutoff_frequency(&mut self, cutoff_frequency: Frequency)
        requires
            old(self).inv(),
        ensures
            final(self).inv(),
            final(self).cutoff_spec() == cutoff_frequency,
            final(self).rate_spec() == old(self).rate_spec(),
            final(self).last_spec() == old(self).last_spec(),
    {
        self.cutoff_frequency = cutoff_frequency;
        if self.sample_rate >= 1 {
            self.recompute_coefficient();
        } else {
            self.alpha = 0;
        }
    }

    /// The handle through which automation drives the cutoff frequency.
    pub fn cutoff_frequency() -> (r: CutoffFrequencyParam<LowPassRC>) {
        CutoffFrequencyParam(std::marker::PhantomData)
    }
}

impl LowPassRC {
    /// The filter as it stands after a cutoff write: the new cutoff, the
    /// coefficient recomputed for it, everything else kept.
    pub closed spec fn spec_with_cutoff(self, cutoff: Frequency) -> LowPassRC {
        LowPassRC {
            cutoff_frequency: cutoff,
            sample_rate: self.sample_rate,
            alpha: alpha_spec(cutoff, self.sample_rate) as i64,
            last_output: self.last_output,
        }
    }

    /// What a cutoff write leaves behind, stated over the public accessors.
    pub proof fn lemma_with_cutoff(target: LowPassRC, value: Frequency)
        ensures
            target.spec_with_cutoff(value).cutoff_spec() == value,
            target.spec_with_cutoff(value).rate_spec() == target.rate_spec(),
            target.spec_with_cutoff(value).last_spec() == target.last_spec(),
            target.spec_with_cutoff(value).alpha_val() as int == alpha_spec(
                value,
                target.rate_spec(),
            ),
            target.spec_with_cutoff(value).inv(),
    {
        lemma_alpha_below_one(value, target.rate_spec());
    }
}

impl Parameter for CutoffFrequencyParam<LowPassRC> {
    type Target = LowPassRC;

    type Value = Frequency;

    open spec fn set_spec(&self, target: LowPassRC, value: Frequency) -> LowPassRC {
        target.spec_with_cutoff(value)
    }

    open spec fn value_ok(&self, value: Frequency) -> bool {
        true
    }

    fn set(&self, target: &mut LowPassRC, value: Frequency) {
        target.set_cutoff_frequency(value);
        proof {
            lemma_alpha_below_one(value, target.sample_rate);
            if target.sample_rate == 0 {
                assert(target.alpha as int == alpha_spec(value, target.sample_rate));
            }
            assert(*target == old(target).spec_with_cutoff(value));
        }
    }
}

impl SoundModule for LowPassRC {
    /// The stored coefficient always matches the cutoff and rate.
    open spec fn inv(&self) -> bool {
        self.alpha_val() as int == alpha_spec(self.cutoff_spec(), self.rate_spec())
    }

    open spec fn reset_rel(pre: Self, post: Self) -> bool {
        &&& post.cutoff_spec() == pre.cutoff_spec()
        &&& post.rate_spec() == pre.rate_spec()
        &&& post.alpha_val() == pre.alpha_val()
        &&& post.last_spec() == 0i64
    }

    open spec fn config_rel(pre: Self, post: Self, rate: u32) -> bool {
        &&& post.cutoff_spec() == pre.cutoff_spec()
        &&& post.rate_spec() == rate
        &&& post.alpha_val() as int == alpha_spec(pre.cutoff_spec(), rate)
        &&& post.last_spec() == pre.last_spec()
    }

    fn reset(&mut self) {
        self.last_output = 0;
    }

    fn set_sampling_parameters(&mut self, params: &SamplingParameters) {
        self.sample_rate = params.sample_rate();
        self.recompute_coefficient();
    }
}

impl Filter for LowPassRC {
    type Input = i64;

    type Output = i64;

    open spec fn filter_rel(pre: Self, post: Self, input: i64, out: i64) -> bool {
        &&& out as int == combine_q15(
            pre.last_spec() as int,
            32768 - pre.alpha_val() as int,
            input as int,
            pre.alpha_val() as int,
        )
        &&& post.last_spec() == out
        &&& post.cutoff_spec() == pre.cutoff_spec()
        &&& post.rate_spec() == pre.rate_spec()
        &&& post.alpha_val() == pre.alpha_val()
    }

    fn filter(&mut self, input: i64) -> (r: i64) {
        proof {
            lemma_alpha_below_one(self.cutoff_frequency, self.sample_rate);
        }
        let current = q15_combine(self.last_output, 32768 - self.alpha, input, self.alpha);
        self.last_output = current;
        current
    }
}

/// Each output of the low-pass lies between the stored state and the input:
/// with the coefficient near one (high cutoff) it tracks the input, with the
/// coefficient near zero (low cutoff) it settles toward the running average
/// of the inputs.
pub proof fn lemma_lowpass_output_between(pre: LowPassRC, post: LowPassRC, input: i64, out: i64)
    requires
        0 <= pre.alpha_val() <= 32768,
        LowPassRC::filter_rel(pre, post, input, out),
    ensures
        pre.last_spec() <= input ==> pre.last_spec() <= out <= input,
        input <= pre.last_spec() ==> input <= out <= pre.last_spec(),
{
    let l = pre.last_spec() as int;
    let x = input as int;
    let a = pre.alpha_val() as int;
    let lo = if l <= x {
        l
    } else {
        x
    };
    let hi = if l <= x {
        x
    } else {
        l
    };
    let s = l * (32768 - a) + x * a;
    assert(lo * 32768 <= s && s <= hi * 32768) by (nonlinear_arith)
        requires
            0 <= a <= 32768,
            lo <= l <= hi,
            lo <= x <= hi,
            s == l * (32768 - a) + x * a,
    ;
    if s >= 0 {
        vstd::arithmetic::div_mod::lemma_div_is_ordered(s, hi * 32768, 32768);
        vstd::arithmetic::div_mod::lemma_div_multiples_vanish(hi, 32768);
        assert(32768 * hi == hi * 32768);
        assert(div_q15(s) <= hi);
        if lo >= 0 {
            vstd::arithmetic::div_mod::lemma_div_is_ordered(lo * 32768, s, 32768);
            vstd::arithmetic::div_mod::lemma_div_multiples_vanish(lo, 32768);
            assert(32768 * lo == lo * 32768);
            assert(lo <= div_q15(s));
        } else {
            vstd::arithmetic::div_mod::lemma_div_pos_is_pos(s, 32768);
            assert(lo <= div_q15(s));
        }
    } else {
        assert(-(s) <= (-lo) * 32768);
        vstd::arithmetic::div_mod::lemma_div_is_ordered(-s, (-lo) * 32768, 32768);
        vstd::arithmetic::div_mod::lemma_div_multiples_vanish(-lo, 32768);
        assert(32768 * (-lo) == (-lo) * 32768);
        assert((-s) / 32768 <= -lo);
        assert(lo <= div_q15(s));
        vstd::arithmetic::div_mod::lemma_div_pos_is_pos(-s, 32768);
        assert(div_q15(s) <= 0);
        if hi < 0 {
            assert((-hi) * 32768 <= -s);
            vstd::arithmetic::div_mod::lemma_div_is_ordered((-hi) * 32768, -s, 32768);
            vstd::arithmetic::div_mod::lemma_div_multiples_vanish(-hi, 32768);
            assert(32768 * (-hi) == (-hi) * 32768);
            assert(-hi <= (-s) / 32768);
            assert(div_q15(s) <= hi);
        }
    }
    assert(lo <= div_q15(s) <= hi);
    assert(sat64(div_q15(s)) == div_q15(s));
}

/// With the coefficient at zero the filter holds its state exactly: as the
/// cutoff goes to zero, the output freezes toward a constant.
pub proof fn lemma_lowpass_holds_at_zero(pre: LowPassRC, post: LowPassRC, input: i64, out: i64)
    requires
        pre.alpha_val() == 0i64,
        LowPassRC::filter_rel(pre, post, input, out),
    ensures
        out == pre.last_spec(),
{
    let l = pre.last_spec() as int;
    assert((input as int) * 0 == 0) by (nonlinear_arith);
    if l >= 0 {
        vstd::arithmetic::div_mod::lemma_div_multiples_vanish(l, 32768);
        assert(32768 * l == l * 32768);
    } else {
        assert(-(l * 32768) == (-l) * 32768);
        vstd::arithmetic::div_mod::lemma_div_multiples_vanish(-l, 32768);
        assert(32768 * (-l) == (-l) * 32768);
    }
}

} // verus!
