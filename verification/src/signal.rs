//! Signal generators: nodes that produce one output value per pull, plus the
//! combinators that mix two generators per sample.

use vstd::prelude::*;
use crate::module::{SoundModule, SamplingParameters};
use crate::sample::{sat_add, sat_add_spec, q15_scale, q15_scale_spec};

verus! {

/// A constant-valued signal.
#[derive(Debug, Copy, Clone)]
pub struct Const<T>(pub T);

/// Per-sample sum of two generators' outputs, saturating at the sample range.
#[derive(Debug, Clone)]
pub struct Add<S1, S2>(pub S1, pub S2);

/// Per-sample Q15 product of two generators' outputs.
#[derive(Debug, Clone)]
pub struct Mul<S1, S2>(pub S1, pub S2);

/// Construct a constant-valued signal.
pub fn constant<T>(value: T) -> (r: Const<T>)
    ensures
        r.0 == value,
{
    Const(value)
}

/// A stateful node producing one output value per pull. `gen_rel` relates the
/// state before a pull, the state after it, and the value produced; for a
/// deterministic node it pins both exactly.
pub trait SignalGenerator: SoundModule {
    type Output;

    /// What one pull does: how the new state and the produced value relate to
    /// the old state.
    spec fn gen_rel(pre: Self, post: Self, out: Self::Output) -> bool;

    /// Produce the next sample, advancing the internal state.
    fn next(&mut self) -> (r: Self::Output)
        requires
            old(self).inv(),
        ensures
            final(self).inv(),
            Self::gen_rel(*old(self), *final(self), r),
    ;
}

/// Treating constant values as a sound module can be useful.
impl<T> SoundModule for Const<T> {
    open spec fn inv(&self) -> bool {
        true
    }

    open spec fn reset_rel(pre: Self, post: Self) -> bool {
        post == pre
    }

    open spec fn config_rel(pre: Self, post: Self, rate: u32) -> bool {
        post == pre
    }

    fn reset(&mut self) {
    }

    fn set_sampling_parameters(&mut self, _params: &SamplingParameters) {
    }
}

impl<T: Copy> SignalGenerator for Const<T> {
    type Output = T;

    open spec fn gen_rel(pre: Self, post: Self, out: T) -> bool {
        post == pre && out == pre.0
    }

    fn next(&mut self) -> (r: T) {
        self.0
    }
}

/// A bare sample doubles as a constant generator.
impl SoundModule for i64 {
    open spec fn inv(&self) -> bool {
        true
    }

    open spec fn reset_rel(pre: Self, post: Self) -> bool {
        post == pre
    }

    open spec fn config_rel(pre: Self, post: Self, rate: u32) -> bool {
        post == pre
    }

    fn reset(&mut self) {
    }

    fn set_sampling_parameters(&mut self, _params: &SamplingParameters) {
    }
}

impl SignalGenerator for i64 {
    type Output = i64;

    open spec fn gen_rel(pre: Self, post: Self, out: i64) -> bool {
        post == pre && out == pre
    }

    fn next(&mut self) -> (r: i64) {
        *self
    }
}

impl<S1: SoundModule, S2: SoundModule> SoundModule for Add<S1, S2> {
    open spec fn inv(&self) -> bool {
        self.0.inv() && self.1.inv()
    }

    open spec fn reset_rel(pre: Self, post: Self) -> bool {
        S1::reset_rel(pre.0, post.0) && S2::reset_rel(pre.1, post.1)
    }

    open spec fn config_rel(pre: Self, post: Self, rate: u32) -> bool {
        S1::config_rel(pre.0, post.0, rate) && S2::config_rel(pre.1, post.1, rate)
    }

    fn reset(&mut self) {
        self.0.reset();
        self.1.reset();
    }

    fn set_sampling_parameters(&mut self, params: &SamplingParameters) {
        self.0.set_sampling_parameters(params);
        self.1.set_sampling_parameters(params);
    }
}

impl<S1, S2> SignalGenerator for Add<S1, S2> where
    S1: SignalGenerator<Output = i64>,
    S2: SignalGenerator<Output = i64>,
 {
    type Output = i64;

    open spec fn gen_rel(pre: Self, post: Self, out: i64) -> bool {
        exists|a: i64, b: i64|
            {
                &&& #[trigger] S1::gen_rel(pre.0, post.0, a)
                &&& #[trigger] S2::gen_rel(pre.1, post.1, b)
                &&& out == sat_add_spec(a, b)
            }
    }

    fn next(&mut self) -> (r: i64) {
        let a = self.0.next();
        let b = self.1.next();
        let r = sat_add(a, b);
        proof {
            assert(S1::gen_rel(old(self).0, self.0, a));
            assert(S2::gen_rel(old(self).1, self.1, b));
        }
        r
    }
}

impl<S1: SoundModule, S2: SoundModule> SoundModule for Mul<S1, S2> {
    open spec fn inv(&self) -> bool {
        self.0.inv() && self.1.inv()
    }

    open spec fn reset_rel(pre: Self, post: Self) -> bool {
        S1::reset_rel(pre.0, post.0) && S2::reset_rel(pre.1, post.1)
    }

    open spec fn config_rel(pre: Self, post: Self, rate: u32) -> bool {
        S1::config_rel(pre.0, post.0, rate) && S2::config_rel(pre.1, post.1, rate)
    }

    fn reset(&mut self) {
        self.0.reset();
        self.1.reset();
    }

    fn set_sampling_parameters(&mut self, params: &SamplingParameters) {
        self.0.set_sampling_parameters(params);
        self.1.set_sampling_parameters(params);
    }
}

impl<S1, S2> SignalGenerator for Mul<S1, S2> where
    S1: SignalGenerator<Output = i64>,
    S2: SignalGenerator<Output = i64>,
 {
    type Output = i64;

    open spec fn gen_rel(pre: Self, post: Self, out: i64) -> bool {
        exists|a: i64, b: i64|
            {
                &&& #[trigger] S1::gen_rel(pre.0, post.0, a)
                &&& #[trigger] S2::gen_rel(pre.1, post.1, b)
                &&& out == q15_scale_spec(a, b)
            }
    }

    fn next(&mut self) -> (r: i64) {
        let a = self.0.next();
        let b = self.1.next();
        let r = q15_scale(a, b);
        proof {
            assert(S1::gen_rel(old(self).0, self.0, a));
            assert(S2::gen_rel(old(self).1, self.1, b));
        }
        r
    }
}

/// Adapter that pulls a generator like a lazy, conceptually infinite sequence:
/// every pull yields a value.
pub struct SignalIterator<Signal>(pub Signal);

impl<Signal: SignalGenerator> SignalIterator<Signal> {
    /// Pull the next sample; a generator never runs out, so this is always
    /// `Some`.
    pub fn next(&mut self) -> (r: Option<Signal::Output>)
        requires
            old(self).0.inv(),
        ensures
            final(self).0.inv(),
            r matches Some(out) && Signal::gen_rel(old(self).0, final(self).0, out),
    {
        Some(self.0.next())
    }
}

} // verus!
