//! A generator whose output runs through a filter.

use vstd::prelude::*;
use crate::module::{SoundModule, SamplingParameters};
use crate::signal::SignalGenerator;
use crate::filter::{Filter, Mapped};
use crate::inspection::Frobnicator;
use crate::knob::Knob;

verus! {

/// A filtered signal generator: each pull takes one sample from the generator
/// and pushes it through the filter.
#[derive(Debug, Clone)]
pub struct Filtered<S, F> {
    pub generator: S,
    pub filter: F,
}

impl<S, F> Filtered<S, F> {
    /// Run the output of `generator` through `filter`.
    pub fn new(generator: S, filter: F) -> (r: Filtered<S, F>)
        ensures
            r.generator == generator,
            r.filter == filter,
    {
        Filtered { generator, filter }
    }
}

/// Convenience constructors for running a generator through a filter. They
/// are available on every signal generator.
pub trait FilteredExt: SignalGenerator {
    /// Run this generator's output through `filter`.
    fn filtered<F: Filter<Input = Self::Output>>(self, filter: F) -> (r: Filtered<Self, F>)
        ensures
            r.generator == self,
            r.filter == filter,
    ;

    /// Transform each sample with a function.
    fn map<F: Fn(Self::Output) -> O, O>(self, fun: F) -> (r: Filtered<
        Self,
        Mapped<F, Self::Output, O>,
    >)
        ensures
            r.generator == self,
            r.filter.0 == fun,
    ;

    /// Continuously adjust the knob according to this generator's output.
    fn frobnicate(self, knob: Knob<Self::Output>) -> (r: Filtered<
        Self,
        Frobnicator<Self::Output>,
    >) where Self::Output: Copy
        ensures
            r.generator == self,
            r.filter.knob == knob,
    ;
}

impl<S: SignalGenerator> FilteredExt for S {
    fn filtered<F: Filter<Input = Self::Output>>(self, filter: F) -> (r: Filtered<Self, F>) {
        Filtered { generator: self, filter }
    }

    fn map<F: Fn(Self::Output) -> O, O>(self, fun: F) -> (r: Filtered<
        Self,
        Mapped<F, Self::Output, O>,
    >) {
        Filtered { generator: self, filter: Mapped(fun, std::marker::PhantomData) }
    }

    fn frobnicate(self, knob: Knob<Self::Output>) -> (r: Filtered<
        Self,
        Frobnicator<Self::Output>,
    >) where Self::Output: Copy {
        Filtered { generator: self, filter: Frobnicator { knob } }
    }
}

impl<S: SoundModule, F: SoundModule> SoundModule for Filtered<S, F> {
    open spec fn inv(&self) -> bool {
        self.generator.inv() && self.filter.inv()
    }

    open spec fn reset_rel(pre: Self, post: Self) -> bool {
        S::reset_rel(pre.generator, post.generator) && F::reset_rel(pre.filter, post.filter)
    }

    open spec fn config_rel(pre: Self, post: Self, rate: u32) -> bool {
        S::config_rel(pre.generator, post.generator, rate) && F::config_rel(
            pre.filter,
            post.filter,
            rate,
        )
    }

    fn reset(&mut self) {
        self.filter.reset();
        self.generator.reset();
    }

    fn set_sampling_parameters(&mut self, params: &SamplingParameters) {
        self.filter.set_sampling_parameters(params);
        self.generator.set_sampling_parameters(params);
    }
}

impl<S: SignalGenerator, F: Filter<Input = S::Output>> SignalGenerator for Filtered<S, F> {
    type Output = F::Output;

    open spec fn gen_rel(pre: Self, post: Self, out: F::Output) -> bool {
        exists|mid: S::Output|
            {
                &&& #[trigger] S::gen_rel(pre.generator, post.generator, mid)
                &&& #[trigger] F::filter_rel(pre.filter, post.filter, mid, out)
            }
    }

    fn next(&mut self) -> (r: F::Output) {
        let mid = self.generator.next();
        let r = self.filter.filter(mid);
        proof {
            assert(S::gen_rel(old(self).generator, self.generator, mid));
            assert(F::filter_rel(old(self).filter, self.filter, mid, r));
        }
        r
    }
}

} // verus!
