//! Filters: nodes that transform one input sample into one output sample per
//! call, plus the combinators that compose them.

use vstd::prelude::*;
use crate::module::{SoundModule, SamplingParameters};
use crate::sample::{sat_add, sat_add_spec, q15_scale, q15_scale_spec};

verus! {

/// The identity filter, returning a signal unchanged.
#[derive(Debug)]
pub struct Id<S>(pub std::marker::PhantomData<S>);

/// Two filters chained together, first applying the first, then the second to
/// the result of the first.
#[derive(Debug, Clone)]
pub struct Chain<F1, F2>(pub F1, pub F2);

/// Duplicates a filter's single output into a pair, enabling branching.
#[derive(Debug, Clone)]
pub struct Split<F>(pub F);

/// A stateless per-sample transform: a function used as a filter.
pub struct Mapped<Fun, I, O>(pub Fun, pub std::marker::PhantomData<(I, O)>);

/// A dried version of a filter that mixes the wet (filtered) signal with the
/// dry (input) signal: `input * dry + filtered * wet` in Q15.
#[derive(Debug, Clone)]
pub struct Dried<F> {
    pub wet: i64,
    pub dry: i64,
    pub filter: F,
}

/// Construct the identity filter.
pub fn id<S>() -> (r: Id<S>) {
    Id(std::marker::PhantomData)
}

/// Use a function as a filter.
pub fn lift<F: Fn(I) -> O, I, O>(fun: F) -> (r: Mapped<F, I, O>)
    ensures
        r.0 == fun,
{
    Mapped(fun, std::marker::PhantomData)
}

/// A stateful node consuming one input and producing one output per call,
/// strictly one-to-one and causal. `filter_rel` relates the state before the
/// call, the state after it, the input and the output; for a deterministic
/// node it pins the output and the new state exactly.
pub trait Filter: SoundModule {
    type Input;

    type Output;

    /// What one call does: how the new state and the output relate to the old
    /// state and the input.
    spec fn filter_rel(pre: Self, post: Self, input: Self::Input, out: Self::Output) -> bool;

    /// Transform one input sample into one output sample.
    fn filter(&mut self, input: Self::Input) -> (r: Self::Output)
        requires
            old(self).inv(),
        ensures
            final(self).inv(),
            Self::filter_rel(*old(self), *final(self), input, r),
    ;
}

impl<S> SoundModule for Id<S> {
    open spec fn inv(&self) -> bool {
        true
    }

    open spec fn reset_rel(pre: Self, post: Self) -> bool {
        post == pre
    }

    open spec fn config_rel(pre: Self, post: Self, rate: u32) -> bool {
        post == pre
    }

    fn reset(&mut self) {
    }

    fn set_sampling_parameters(&mut self, _params: &SamplingParameters) {
    }
}

impl<S> Filter for Id<S> {
    type Input = S;

    type Output = S;

    open spec fn filter_rel(pre: Self, post: Self, input: S, out: S) -> bool {
        post == pre && out == input
    }

    fn filter(&mut self, input: S) -> (r: S) {
        input
    }
}

impl<F1: SoundModule, F2: SoundModule> SoundModule for Chain<F1, F2> {
    open spec fn inv(&self) -> bool {
        self.0.inv() && self.1.inv()
    }

    open spec fn reset_rel(pre: Self, post: Self) -> bool {
        F1::reset_rel(pre.0, post.0) && F2::reset_rel(pre.1, post.1)
    }

    open spec fn config_rel(pre: Self, post: Self, rate: u32) -> bool {
        F1::config_rel(pre.0, post.0, rate) && F2::config_rel(pre.1, post.1, rate)
    }

    fn reset(&mut self) {
        self.0.reset();
        self.1.reset();
    }

    fn set_sampling_parameters(&mut self, params: &SamplingParameters) {
        self.0.set_sampling_parameters(params);
        self.1.set_sampling_parameters(params);
    }
}

impl<F1: Filter, F2: Filter<Input = F1::Output>> Filter for Chain<F1, F2> {
    type Input = F1::Input;

    type Output = F2::Output;

    open spec fn filter_rel(pre: Self, post: Self, input: F1::Input, out: F2::Output) -> bool {
        exists|mid: F1::Output|
            {
                &&& #[trigger] F1::filter_rel(pre.0, post.0, input, mid)
                &&& #[trigger] F2::filter_rel(pre.1, post.1, mid, out)
            }
    }

    fn filter(&mut self, input: F1::Input) -> (r: F2::Output) {
        let mid = self.0.filter(input);
        let r = self.1.filter(mid);
        proof {
            assert(F1::filter_rel(old(self).0, self.0, input, mid));
            assert(F2::filter_rel(old(self).1, self.1, mid, r));
        }
        r
    }
}

impl<F: SoundModule> SoundModule for Split<F> {
    open spec fn inv(&self) -> bool {
        self.0.inv()
    }

    open spec fn reset_rel(pre: Self, post: Self) -> bool {
        F::reset_rel(pre.0, post.0)
    }

    open spec fn config_rel(pre: Self, post: Self, rate: u32) -> bool {
        F::config_rel(pre.0, post.0, rate)
    }

    fn reset(&mut self) {
        self.0.reset();
    }

    fn set_sampling_parameters(&mut self, params: &SamplingParameters) {
        self.0.set_sampling_parameters(params);
    }
}

impl<F: Filter> Filter for Split<F> where F::Output: Copy {
    type Input = F::Input;

    type Output = (F::Output, F::Output);

    open spec fn filter_rel(
        pre: Self,
        post: Self,
        input: F::Input,
        out: (F::Output, F::Output),
    ) -> bool {
        F::filter_rel(pre.0, post.0, input, out.0) && out.1 == out.0
    }

    fn filter(&mut self, input: F::Input) -> (r: (F::Output, F::Output)) {
        let out = self.0.filter(input);
        (out, out)
    }
}

impl<Fun: Fn(I) -> O, I, O> SoundModule for Mapped<Fun, I, O> {
    open spec fn inv(&self) -> bool {
        forall|i: I| #[trigger] call_requires(self.0, (i,))
    }

    open spec fn reset_rel(pre: Self, post: Self) -> bool {
        post == pre
    }

    open spec fn config_rel(pre: Self, post: Self, rate: u32) -> bool {
        post == pre
    }

    fn reset(&mut self) {
    }

    fn set_sampling_parameters(&mut self, _params: &SamplingParameters) {
    }
}

impl<Fun: Fn(I) -> O, I, O> Filter for Mapped<Fun, I, O> {
    type Input = I;

    type Output = O;

    open spec fn filter_rel(pre: Self, post: Self, input: I, out: O) -> bool {
        post.0 == pre.0 && call_ensures(pre.0, (input,), out)
    }

    fn filter(&mut self, input: I) -> (r: O) {
        (self.0)(input)
    }
}

impl<F: SoundModule> SoundModule for Dried<F> {
    open spec fn inv(&self) -> bool {
        self.filter.inv()
    }

    open spec fn reset_rel(pre: Self, post: Self) -> bool {
        F::reset_rel(pre.filter, post.filter) && post.wet == pre.wet && post.dry == pre.dry
    }

    open spec fn config_rel(pre: Self, post: Self, rate: u32) -> bool {
        F::config_rel(pre.filter, post.filter, rate) && post.wet == pre.wet && post.dry == pre.dry
    }

    fn reset(&mut self) {
        self.filter.reset();
    }

    fn set_sampling_parameters(&mut self, params: &SamplingParameters) {
        self.filter.set_sampling_parameters(params);
    }
}

impl<F: Filter<Input = i64, Output = i64>> Filter for Dried<F> {
    type Input = i64;

    type Output = i64;

    open spec fn filter_rel(pre: Self, post: Self, input: i64, out: i64) -> bool {
        &&& post.wet == pre.wet
        &&& post.dry == pre.dry
        &&& exists|wet_out: i64|
            {
                &&& #[trigger] F::filter_rel(pre.filter, post.filter, input, wet_out)
                &&& out == sat_add_spec(
                    q15_scale_spec(input, pre.dry),
                    q15_scale_spec(wet_out, pre.wet),
                )
            }
    }

    fn filter(&mut self, input: i64) -> (r: i64) {
        let wet_out = self.filter.filter(input);
        let r = sat_add(q15_scale(input, self.dry), q15_scale(wet_out, self.wet));
        proof {
            assert(F::filter_rel(old(self).filter, self.filter, input, wet_out));
        }
        r
    }
}

} // verus!
