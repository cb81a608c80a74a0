//! Filters that expose a signal for inspection elsewhere in the graph.

use vstd::prelude::*;
use crate::module::{SoundModule, SamplingParameters};
use crate::filter::Filter;
use crate::knob::Knob;

verus! {

/// A frobnicator leaves the signal unchanged, but writes every sample into a
/// knob, so a generator's own output becomes an observable control value.
#[verifier::reject_recursive_types(T)]
pub struct Frobnicator<T: Copy> {
    pub knob: Knob<T>,
}

impl<T: Copy> Frobnicator<T> {
    pub fn new(knob: Knob<T>) -> (r: Self)
        ensures
            r.knob == knob,
    {
        Frobnicator { knob }
    }
}

impl<T: Copy> SoundModule for Frobnicator<T> {
    open spec fn inv(&self) -> bool {
        true
    }

    open spec fn reset_rel(pre: Self, post: Self) -> bool {
        post == pre
    }

    open spec fn config_rel(pre: Self, post: Self, rate: u32) -> bool {
        post == pre
    }

    fn reset(&mut self) {
    }

    fn set_sampling_parameters(&mut self, _params: &SamplingParameters) {
    }
}

impl<T: Copy> Filter for Frobnicator<T> {
    type Input = T;

    type Output = T;

    /// The input passes through unchanged and becomes the knob's value.
    open spec fn filter_rel(pre: Self, post: Self, input: T, out: T) -> bool {
        out == input && post.knob.mirror_spec() == input
    }

    fn filter(&mut self, input: T) -> (r: T) {
        self.knob.set(input);
        input
    }
}

} // verus!
