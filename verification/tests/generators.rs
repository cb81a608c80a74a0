//! Tests for generators: constants, mixing, oscillators, noise, knobs and
//! automation.

use synth::automation::{Automated, AutomationExt, ControllerExt, GeneratorController, NopController};
use synth::filter::Filter;
use synth::filtered::{Filtered, FilteredExt};
use synth::inspection::Frobnicator;
use synth::knob::Knob;
use synth::lowpass::LowPassRC;
use synth::module::{SamplingParameters, SelfParameter, SoundModule};
use synth::noise::{Noise, Pink, White, pink_noise, white_noise};
use synth::oscillator::{saw, sine, square, triangle, Oscillator};
use synth::signal::{constant, Add, Mul, SignalGenerator, SignalIterator};
use synth::types::{Duration, Frequency};
use synth::waveform::Wavetable;

#[test]
fn test_constant_generator() {
    let mut c = constant(7i64);
    assert_eq!(c.next(), 7);
    assert_eq!(c.next(), 7);
    c.reset();
    assert_eq!(c.next(), 7);
}

#[test]
fn test_add_and_mul_generators() {
    let mut sum = Add(constant(100i64), constant(23i64));
    assert_eq!(sum.next(), 123);
    // Q15 product: one half of 20000
    let mut product = Mul(constant(20000i64), constant(16384i64));
    assert_eq!(product.next(), 10000);
    let mut saturated = Add(constant(i64::MAX), constant(1i64));
    assert_eq!(saturated.next(), i64::MAX);
}

#[test]
fn test_signal_iterator() {
    let mut it = SignalIterator(constant(9i64));
    assert_eq!(it.next(), Some(9));
    assert_eq!(it.next(), Some(9));
}

#[test]
fn test_saw_oscillator_phase() {
    let mut osc = saw(constant(Frequency::from_hertz(250)));
    osc.set_sampling_parameters(&SamplingParameters::with_rate(1000));
    assert_eq!(osc.next(), -32768);
    assert_eq!(osc.next(), -16384);
    assert_eq!(osc.next(), 0);
    assert_eq!(osc.next(), 16384);
    // the phase wraps after one full cycle
    assert_eq!(osc.next(), -32768);
    osc.reset();
    assert_eq!(osc.next(), -32768);
}

#[test]
fn test_sine_oscillator_quarters() {
    let mut osc = sine(constant(Frequency::from_hertz(250)));
    osc.set_sampling_parameters(&SamplingParameters::with_rate(1000));
    assert_eq!(osc.next(), 0);
    assert_eq!(osc.next(), 32767);
    assert_eq!(osc.next(), 0);
    assert_eq!(osc.next(), -32767);
}

#[test]
fn test_square_oscillator() {
    let mut osc = square(constant(Frequency::from_hertz(250)));
    osc.set_sampling_parameters(&SamplingParameters::with_rate(1000));
    assert_eq!(osc.next(), -32767);
    assert_eq!(osc.next(), -32767);
    assert_eq!(osc.next(), 32767);
    assert_eq!(osc.next(), 32767);
    assert_eq!(osc.next(), -32767);
}

#[test]
fn test_triangle_oscillator() {
    let mut osc = triangle(constant(Frequency::from_hertz(250)));
    osc.set_sampling_parameters(&SamplingParameters::with_rate(1000));
    assert_eq!(osc.next(), -32767);
    assert_eq!(osc.next(), 0);
    assert_eq!(osc.next(), 32767);
    assert_eq!(osc.next(), 0);
}

#[test]
fn test_wavetable_lookup() {
    let mut osc = Oscillator::new(
        constant(Frequency::from_hertz(250)),
        Wavetable(vec![10, 20, 30, 40]),
    );
    osc.set_sampling_parameters(&SamplingParameters::with_rate(1000));
    assert_eq!(osc.next(), 10);
    assert_eq!(osc.next(), 20);
    assert_eq!(osc.next(), 30);
    assert_eq!(osc.next(), 40);
    assert_eq!(osc.next(), 10);
}

#[test]
fn test_unconfigured_oscillator_stands_still() {
    let mut osc = saw(constant(Frequency::from_hertz(440)));
    assert_eq!(osc.next(), -32768);
    assert_eq!(osc.next(), -32768);
}

#[test]
fn test_pink_noise_determinism() {
    let seed = [42u8; 16];
    let mut a = Noise::with_seed(seed, Pink::new());
    let mut b = Noise::with_seed(seed, Pink::new());
    for _ in 0..500 {
        assert_eq!(a.next(), b.next());
    }
}

#[test]
fn test_pink_noise_reset_replays() {
    let seed = [7u8; 16];
    let mut gen = Noise::with_seed(seed, Pink::new());
    let first: Vec<i64> = (0..300).map(|_| gen.next()).collect();
    gen.reset();
    let second: Vec<i64> = (0..300).map(|_| gen.next()).collect();
    assert_eq!(first, second);
}

#[test]
fn test_pink_noise_stays_in_range() {
    let mut gen = Noise::with_seed([1u8; 16], Pink::new());
    for _ in 0..2000 {
        let v = gen.next();
        assert!(-32768 <= v && v <= 32768);
    }
}

#[test]
fn test_pink_noise_not_constant() {
    // the stream really comes from the generator: a run of samples varies
    let mut gen = Noise::with_seed([9u8; 16], Pink::new());
    let samples: Vec<i64> = (0..64).map(|_| gen.next()).collect();
    assert!(samples.iter().any(|v| *v != samples[0]));
}

#[test]
fn test_white_noise_range_and_reset() {
    let mut gen = Noise::with_seed([3u8; 16], White);
    let first: Vec<i64> = (0..200).map(|_| gen.next()).collect();
    for v in first.iter() {
        assert!(-32767 <= *v && *v <= 32767);
    }
    gen.reset();
    let second: Vec<i64> = (0..200).map(|_| gen.next()).collect();
    assert_eq!(first, second);
}

#[test]
fn test_entropy_noise_runs() {
    let mut w = white_noise();
    let mut p = pink_noise();
    for _ in 0..50 {
        let a = w.next();
        assert!(-32767 <= a && a <= 32767);
        let b = p.next();
        assert!(-32768 <= b && b <= 32768);
    }
}

#[test]
fn test_knob_set_get() {
    let mut knob = Knob::new(5i64);
    assert_eq!(knob.get(), 5);
    let mut reader = knob.as_generator();
    assert_eq!(reader.next(), 5);
    knob.set(-11);
    assert_eq!(knob.get(), -11);
    // every reader observes the latest write
    assert_eq!(reader.next(), -11);
    let mut second = knob.as_generator();
    assert_eq!(second.next(), -11);
}

#[test]
fn test_frobnicator_reports_signal() {
    let knob = Knob::new(0i64);
    let reader = knob.as_generator();
    let mut tap = Frobnicator::new(knob);
    assert_eq!(tap.filter(321), 321);
    let mut r = reader;
    assert_eq!(r.next(), 321);
    assert_eq!(tap.filter(-4), -4);
    assert_eq!(r.next(), -4);
}

#[test]
fn test_filtered_generator() {
    let mut gen = Filtered::new(
        constant(1000i64),
        synth::filter::lift(|x: i64| x + 1),
    );
    assert_eq!(gen.next(), 1001);
}

#[test]
fn test_filtered_ext_sugar() {
    let mut doubled = constant(4i64).map(|x: i64| x * 2);
    assert_eq!(doubled.next(), 8);
    let mut chained = constant(100i64).filtered(synth::filter::id::<i64>());
    assert_eq!(chained.next(), 100);
    let knob = Knob::new(0i64);
    let mut reader = knob.as_generator();
    let mut tapped = constant(33i64).frobnicate(knob);
    assert_eq!(tapped.next(), 33);
    assert_eq!(reader.next(), 33);
}

#[test]
fn test_controller_then_chains_in_order() {
    // two writers chained left to right: the later one wins within the step
    let first = GeneratorController { param: SelfParameter::new(), value_gen: constant(1i64) };
    let second = GeneratorController { param: SelfParameter::new(), value_gen: constant(2i64) };
    let nop: NopController<i64> = NopController::new();
    let mut automated = Automated { equipment: 0i64, controller: nop.then(first).then(second) };
    assert_eq!(automated.next(), 2);
}

#[test]
fn test_automation_applies_same_step() {
    // the low-pass starts wide open; the controller writes cutoff zero at the
    // first step, so already the first output is held at the filter state
    let lp = LowPassRC::new(Frequency::from_millihertz(1000000000000));
    let mut automated = lp.automated().with_generated_param(
        LowPassRC::cutoff_frequency(),
        constant(Frequency::from_hertz(0)),
    );
    automated.set_sampling_parameters(&SamplingParameters::with_rate(1000));
    assert_eq!(automated.filter(30000), 0);
    assert_eq!(automated.filter(30000), 0);
}

#[test]
fn test_automation_drives_knob_signal() {
    // drive the cutoff from a knob: writes take effect on the next sample
    let mut knob = Knob::new(Frequency::from_millihertz(1000000000000));
    let lp = LowPassRC::new(Frequency::from_hertz(0));
    let mut automated = lp
        .automated()
        .with_generated_param(LowPassRC::cutoff_frequency(), knob.as_generator());
    automated.set_sampling_parameters(&SamplingParameters::with_rate(1000));
    // wide open: output follows the input closely
    assert_eq!(automated.filter(32768), 32767);
    knob.set(Frequency::from_hertz(0));
    // closed: output frozen at the previous state
    assert_eq!(automated.filter(0), 32767);
}

#[test]
fn test_self_parameter_replaces_value_same_step() {
    // a bare sample is a constant generator; automating it through the
    // self-parameter replaces the value before each pull, so the very first
    // pull already yields the controller's value
    let mut automated = AutomationExt::automated(5i64)
        .with_generated_param(SelfParameter::new(), constant(9i64));
    assert_eq!(automated.next(), 9);
    assert_eq!(automated.next(), 9);
}

#[test]
fn test_sampling_parameters() {
    let cd = SamplingParameters::audio_cd();
    assert_eq!(cd.sample_rate(), 44100);
    assert_eq!(cd.nyquist_rate(), 22050);
    let custom = SamplingParameters::with_rate(48000);
    assert_eq!(custom.sample_rate(), 48000);
}

#[test]
fn test_unit_arithmetic() {
    let a4 = Frequency::from_hertz(440);
    assert_eq!(a4.to_hertz(), 440);
    assert_eq!(a4.to_millihertz(), 440000);
    assert_eq!(a4.plus(Frequency::from_hertz(60)).to_hertz(), 500);
    assert_eq!(a4.minus(Frequency::from_hertz(40)).to_hertz(), 400);
    assert_eq!(a4.times(2).to_hertz(), 880);
    assert_eq!(a4.ratio(Frequency::from_hertz(110)), 4);
    let two_s = Duration::from_seconds(2);
    assert_eq!(two_s.to_milliseconds(), 2000);
    assert_eq!(two_s.to_seconds(), 2);
    assert_eq!(two_s.plus(Duration::from_milliseconds(500)).to_milliseconds(), 2500);
    assert_eq!(two_s.minus(Duration::from_milliseconds(500)).to_milliseconds(), 1500);
    assert_eq!(two_s.times(3).to_seconds(), 6);
    assert_eq!(two_s.ratio(Duration::from_milliseconds(400)), 5);
    // frequency times duration is a plain cycle count
    assert_eq!(Frequency::from_hertz(250).cycles_in(two_s), 500);
}
