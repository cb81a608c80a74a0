//! Filters that distort a signal.

use vstd::prelude::*;
use crate::module::{SoundModule, SamplingParameters};
use crate::filter::Filter;
use crate::sample::{hard_limit, clamp_spec, q15_scale, q15_scale_spec, Sample};

verus! {

/// A hard clip after a fixed Q15 gain: `clamp(input * factor)` at the sample
/// type's amplitude limits. Stateless.
#[derive(Debug, Clone)]
pub struct Overdrive {
    factor: i64,
}

impl Overdrive {
    pub closed spec fn factor_spec(&self) -> i64 {
        self.factor
    }

    /// Construct an overdrive with the given Q15 gain factor.
    pub fn new(factor: i64) -> (r: Self)
        ensures
            r.factor_spec() == factor,
            r.inv(),
    {
        Overdrive { factor }
    }
}

impl SoundModule for Overdrive {
    open spec fn inv(&self) -> bool {
        true
    }

    open spec fn reset_rel(pre: Self, post: Self) -> bool {
        post == pre
    }

    open spec fn config_rel(pre: Self, post: Self, rate: u32) -> bool {
        post == pre
    }

    fn reset(&mut self) {
    }

    fn set_sampling_parameters(&mut self, _params: &SamplingParameters) {
    }
}

impl Filter for Overdrive {
    type Input = i64;

    type Output = i64;

    open spec fn filter_rel(pre: Self, post: Self, input: i64, out: i64) -> bool {
        &&& post == pre
        &&& out == clamp_spec(
            q15_scale_spec(input, pre.factor_spec()),
            <i64 as Sample>::lower_limit_spec(),
            <i64 as Sample>::upper_limit_spec(),
        )
    }

    fn filter(&mut self, input: i64) -> (r: i64) {
        hard_limit(q15_scale(input, self.factor))
    }
}

} // verus!
