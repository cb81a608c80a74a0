//! The oscillator: a phase accumulator driving a waveform shape, with the
//! frequency itself supplied by a signal generator.

use vstd::prelude::*;
use crate::module::{SoundModule, SamplingParameters};
use crate::signal::SignalGenerator;
use crate::types::Frequency;
use crate::waveform::{Waveform, Sine, Saw, Triangle, Rect};

verus! {

/// The phase step for one sample: the fraction of a cycle that passes between
/// samples, as a `u32` phase (one full cycle per `2^32`). Frequencies above
/// the sample rate alias by wrapping; an unconfigured oscillator stands still.
pub open spec fn phase_increment_spec(freq: Frequency, rate: u32) -> int {
    if rate == 0 {
        0
    } else {
        ((freq.0 as int) * 4294967296 / ((rate as int) * 1000)) % 4294967296
    }
}

/// One phase step, wrapping at the end of the cycle.
pub open spec fn phase_step_spec(phase: u32, freq: Frequency, rate: u32) -> int {
    (phase as int + phase_increment_spec(freq, rate)) % 4294967296
}

/// An oscillator: emits the shape's amplitude at the current phase, then
/// advances the phase by the frequency generator's current value.
#[derive(Debug, Clone)]
pub struct Oscillator<Shape, Freq> {
    phase: u32,
    frequency: Freq,
    shape: Shape,
    sample_rate: u32,
}

/// An oscillator with a sine-like shape.
pub fn sine<F: SignalGenerator<Output = Frequency>>(frequency: F) -> (r: Oscillator<Sine, F>)
    ensures
        r.phase_spec() == 0u32,
        r.frequency_spec() == frequency,
        r.rate_spec() == 0u32,
{
    Oscillator::new(frequency, Sine)
}

/// An oscillator with a sawtooth shape.
pub fn saw<F: SignalGenerator<Output = Frequency>>(frequency: F) -> (r: Oscillator<Saw, F>)
    ensures
        r.phase_spec() == 0u32,
        r.frequency_spec() == frequency,
        r.rate_spec() == 0u32,
{
    Oscillator::new(frequency, Saw)
}

/// An oscillator with a triangle shape.
pub fn triangle<F: SignalGenerator<Output = Frequency>>(frequency: F) -> (r: Oscillator<
    Triangle,
    F,
>)
    ensures
        r.phase_spec() == 0u32,
        r.frequency_spec() == frequency,
        r.rate_spec() == 0u32,
{
    Oscillator::new(frequency, Triangle)
}

/// An oscillator with a rectangular shape at a half-cycle duty point.
pub fn square<F: SignalGenerator<Output = Frequency>>(frequency: F) -> (r: Oscillator<Rect, F>)
    ensures
        r.phase_spec() == 0u32,
        r.frequency_spec() == frequency,
        r.rate_spec() == 0u32,
        r.shape_spec() == Rect(2147483648u32),
{
    Oscillator::new(frequency, Rect(2147483648))
}

/// An oscillator with a rectangular shape at the given duty point.
pub fn rect<F: SignalGenerator<Output = Frequency>>(duty_cycle: u32, frequency: F) -> (r:
    Oscillator<Rect, F>)
    ensures
        r.phase_spec() == 0u32,
        r.frequency_spec() == frequency,
        r.rate_spec() == 0u32,
        r.shape_spec() == Rect(duty_cycle),
{
    Oscillator::new(frequency, Rect(duty_cycle))
}

impl<Shape, Freq> Oscillator<Shape, Freq> {
    pub closed spec fn phase_spec(&self) -> u32 {
        self.phase
    }

    pub closed spec fn frequency_spec(&self) -> Freq {
        self.frequency
    }

    pub closed spec fn shape_spec(&self) -> Shape {
        self.shape
    }

    pub closed spec fn rate_spec(&self) -> u32 {
        self.sample_rate
    }

    /// Construct an oscillator at phase zero. The phase advances once the
    /// sampling parameters are set.
    pub fn new(frequency: Freq, shape: Shape) -> (r: Self)
        ensures
            r.phase_spec() == 0u32,
            r.frequency_spec() == frequency,
            r.shape_spec() == shape,
            r.rate_spec() == 0u32,
    {
        Oscillator { phase: 0, frequency, shape, sample_rate: 0 }
    }
}

impl<Shape: Waveform, Freq: SoundModule> SoundModule for Oscillator<Shape, Freq> {
    open spec fn inv(&self) -> bool {
        self.shape_spec().shape_inv() && self.frequency_spec().inv()
    }

    open spec fn reset_rel(pre: Self, post: Self) -> bool {
        &&& Freq::reset_rel(pre.frequency_spec(), post.frequency_spec())
        &&& post.phase_spec() == 0u32
        &&& post.shape_spec() == pre.shape_spec()
        &&& post.rate_spec() == pre.rate_spec()
    }

    open spec fn config_rel(pre: Self, post: Self, rate: u32) -> bool {
        &&& Freq::config_rel(pre.frequency_spec(), post.frequency_spec(), rate)
        &&& post.phase_spec() == pre.phase_spec()
        &&& post.shape_spec() == pre.shape_spec()
        &&& post.rate_spec() == rate
    }

    fn reset(&mut self) {
        self.frequency.reset();
        self.phase = 0;
    }

    fn set_sampling_parameters(&mut self, params: &SamplingParameters) {
        self.frequency.set_sampling_parameters(params);
        self.sample_rate = params.sample_rate();
    }
}

impl<Shape: Waveform, Freq: SignalGenerator<Output = Frequency>> SignalGenerator for Oscillator<
    Shape,
    Freq,
> {
    type Output = i64;

    open spec fn gen_rel(pre: Self, post: Self, out: i64) -> bool {
        &&& out == pre.shape_spec().amplitude_spec(pre.phase_spec())
        &&& post.shape_spec() == pre.shape_spec()
        &&& post.rate_spec() == pre.rate_spec()
        &&& exists|freq_out: Frequency|
            {
                &&& #[trigger] Freq::gen_rel(pre.frequency_spec(), post.frequency_spec(), freq_out)
                &&& post.phase_spec() as int == phase_step_spec(
                    pre.phase_spec(),
                    freq_out,
                    pre.rate_spec(),
                )
            }
    }

    fn next(&mut self) -> (r: i64) {
        let value = self.shape.phase_amplitude(self.phase);
        let freq = self.frequency.next();
        proof {
            assert(Freq::gen_rel(old(self).frequency_spec(), self.frequency_spec(), freq));
        }
        let increment: u32 = if self.sample_rate == 0 {
            0
        } else {
            let divisor: u64 = (self.sample_rate as u64) * 1000;
            let wide: u128 = (freq.0 as u128) * 4294967296;
            let stepped: u128 = wide / (divisor as u128);
            proof {
                vstd::arithmetic::div_mod::lemma_div_pos_is_pos(
                    (freq.0 as int) * 4294967296,
                    divisor as int,
                );
                vstd::arithmetic::div_mod::lemma_mod_bound(stepped as int, 4294967296);
            }
            (stepped % 4294967296) as u32
        };
        proof {
            assert(increment as int == phase_increment_spec(freq, old(self).rate_spec()));
            vstd::arithmetic::div_mod::lemma_mod_bound(
                self.phase as int + increment as int,
                4294967296,
            );
        }
        let next_phase: u64 = ((self.phase as u64) + (increment as u64)) % 4294967296;
        self.phase = next_phase as u32;
        proof {
            assert(Freq::gen_rel(old(self).frequency_spec(), self.frequency_spec(), freq));
            assert(self.phase_spec() as int == phase_step_spec(
                old(self).phase_spec(),
                freq,
                old(self).rate_spec(),
            ));
        }
        value
    }
}

} // verus!
