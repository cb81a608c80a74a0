//! The lifecycle contract shared by every node of a signal graph, the
//! sampling-session parameters, and automatable parameter handles.

use vstd::prelude::*;

verus! {

/// Parameters that influence how sound is generated and communicated between
/// the modules of a graph: the number of samples per second of one session.
pub struct SamplingParameters {
    samples_per_second: u32,
}

impl SamplingParameters {
    /// The configured sample rate in Hertz, always at least 1.
    pub closed spec fn rate_spec(&self) -> u32 {
        self.samples_per_second
    }

    pub open spec fn valid(&self) -> bool {
        self.rate_spec() >= 1
    }

    /// The parameters of an audio CD: 44100 samples per second.
    pub fn audio_cd() -> (r: SamplingParameters)
        ensures
            r.rate_spec() == 44100u32,
            r.valid(),
    {
        Self::with_rate(44100)
    }

    /// Construct sampling parameters for a sample rate measured in Hz.
    pub fn with_rate(sample_rate: u32) -> (r: SamplingParameters)
        requires
            sample_rate >= 1,
        ensures
            r.rate_spec() == sample_rate,
            r.valid(),
    {
        SamplingParameters { samples_per_second: sample_rate }
    }

    /// Return the current sample rate in Hz.
    pub fn sample_rate(&self) -> (r: u32)
        ensures
            r == self.rate_spec(),
    {
        self.samples_per_second
    }

    /// Return the Nyquist frequency in Hz: the highest audio frequency that
    /// the rate can represent, half the sample rate rounded down.
    pub fn nyquist_rate(&self) -> (r: u32)
        ensures
            r == self.rate_spec() / 2,
    {
        self.samples_per_second / 2
    }
}

/// A general trait for all things that are part of a synthesizer graph.
///
/// Each node carries a well-formedness invariant and two relations that its
/// lifecycle operations are proved to satisfy: one describing `reset`, one
/// describing reconfiguration for a sample rate. Composite nodes propagate
/// both calls to all their children in a fixed order.
pub trait SoundModule: Sized {
    /// Well-formedness of the node's state, established by constructors and
    /// preserved by every operation.
    spec fn inv(&self) -> bool;

    /// How `reset` changes the state: transient state (phase accumulators,
    /// filter history, generator positions) is cleared, configuration kept.
    spec fn reset_rel(pre: Self, post: Self) -> bool;

    /// How reconfiguring for `rate` samples per second changes the state.
    spec fn config_rel(pre: Self, post: Self, rate: u32) -> bool;

    /// Reset the internal transient state of the node.
    fn reset(&mut self)
        requires
            old(self).inv(),
        ensures
            final(self).inv(),
            Self::reset_rel(*old(self), *final(self)),
    ;

    /// Set the sampling parameters used for the whole setup, recomputing any
    /// rate-dependent coefficients.
    fn set_sampling_parameters(&mut self, params: &SamplingParameters)
        requires
            old(self).inv(),
            params.valid(),
        ensures
            final(self).inv(),
            Self::config_rel(*old(self), *final(self), params.rate_spec()),
    ;
}

/// A parameter of a node that can be changed through automation: a typed
/// handle naming one settable aspect of the target node.
pub trait Parameter: Sized {
    type Target: SoundModule;

    type Value;

    /// The new target state after writing `value`.
    spec fn set_spec(&self, target: Self::Target, value: Self::Value) -> Self::Target;

    /// The values this handle accepts.
    spec fn value_ok(&self, value: Self::Value) -> bool;

    fn set(&self, target: &mut Self::Target, value: Self::Value)
        requires
            old(target).inv(),
            self.value_ok(value),
        ensures
            final(target).inv(),
            *final(target) == self.set_spec(*old(target), value),
    ;
}

/// A parameter that replaces the sound module as a whole.
pub struct SelfParameter<T>(std::marker::PhantomData<T>);

impl<T> SelfParameter<T> {
    pub fn new() -> (r: SelfParameter<T>) {
        SelfParameter(std::marker::PhantomData)
    }
}

impl<T: SoundModule> Parameter for SelfParameter<T> {
    type Target = T;

    type Value = T;

    open spec fn set_spec(&self, target: T, value: T) -> T {
        value
    }

    open spec fn value_ok(&self, value: T) -> bool {
        value.inv()
    }

    fn set(&self, target: &mut T, value: T) {
        *target = value;
    }
}

} // verus!
