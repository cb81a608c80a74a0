//! Tests for the concrete filters: delay, echo, low-pass, overdrive and the
//! look-ahead limiter, plus the filter combinators.

use synth::delay::{Delay, Echo};
use synth::distortion::Overdrive;
use synth::filter::{Filter, Id, Chain, Split, Dried, id, lift};
use synth::limiter::LookaheadLimiter;
use synth::lowpass::LowPassRC;
use synth::module::{SamplingParameters, SoundModule};
use synth::types::{Duration, Frequency};

#[test]
fn test_delay_round_trip() {
    // 5 ms at 1000 samples per second: exactly 5 slots
    let mut delay: Delay<i64> = Delay::new(Duration::from_milliseconds(5));
    delay.set_sampling_parameters(&SamplingParameters::with_rate(1000));
    let inputs: Vec<i64> = vec![10, 20, 30, 40, 50, 60, 70];
    let mut outputs: Vec<i64> = Vec::new();
    for x in inputs.iter() {
        outputs.push(delay.filter(*x));
    }
    assert_eq!(outputs, vec![0, 0, 0, 0, 0, 10, 20]);
}

#[test]
fn test_delay_reset() {
    let mut delay: Delay<i64> = Delay::new(Duration::from_milliseconds(2));
    delay.set_sampling_parameters(&SamplingParameters::with_rate(1000));
    assert_eq!(delay.filter(11), 0);
    assert_eq!(delay.filter(22), 0);
    assert_eq!(delay.filter(33), 11);
    delay.reset();
    assert_eq!(delay.filter(44), 0);
    assert_eq!(delay.filter(55), 0);
    assert_eq!(delay.filter(66), 44);
}

#[test]
fn test_delay_unconfigured_single_slot() {
    // before the sampling parameters are set the line has one slot
    let mut delay: Delay<i64> = Delay::new(Duration::from_seconds(1));
    assert_eq!(delay.filter(5), 0);
    assert_eq!(delay.filter(6), 5);
}

#[test]
fn test_delay_zero_duration_floors_at_one_slot() {
    let mut delay: Delay<i64> = Delay::new(Duration::from_milliseconds(0));
    delay.set_sampling_parameters(&SamplingParameters::with_rate(1000));
    assert_eq!(delay.filter(5), 0);
    assert_eq!(delay.filter(6), 5);
    assert_eq!(delay.filter(7), 6);
}

#[test]
fn test_limiter_zero_lookahead_passes_through() {
    // with no look-ahead there is no window to divide by: the limiter adds no
    // latency and no bound
    let mut limiter = LookaheadLimiter::new(0);
    assert_eq!(limiter.filter(70000), 70000);
    assert_eq!(limiter.filter(-12), -12);
}

#[test]
fn test_echo_decay() {
    // 4 ms at 1000 samples per second, dampening one half in Q15
    let mut echo = Echo::new(Duration::from_milliseconds(4), 16384);
    echo.set_sampling_parameters(&SamplingParameters::with_rate(1000));
    let mut outputs: Vec<i64> = Vec::new();
    outputs.push(echo.filter(32767));
    for _ in 0..12 {
        outputs.push(echo.filter(0));
    }
    // repeats spaced 4 samples apart, halved each time, silence elsewhere
    assert_eq!(
        outputs,
        vec![0, 0, 0, 0, 16383, 0, 0, 0, 8191, 0, 0, 0, 4095]
    );
}

#[test]
fn test_lowpass_zero_cutoff_holds() {
    let mut lp = LowPassRC::new(Frequency::from_hertz(0));
    lp.set_sampling_parameters(&SamplingParameters::with_rate(1000));
    for _ in 0..8 {
        assert_eq!(lp.filter(30000), 0);
    }
}

#[test]
fn test_lowpass_high_cutoff_follows_input() {
    // 1 MHz cutoff at 1000 samples per second: the coefficient saturates at
    // 32767 of 32768, so the output follows the input almost exactly
    let mut lp = LowPassRC::new(Frequency::from_millihertz(1000000000000));
    lp.set_sampling_parameters(&SamplingParameters::with_rate(1000));
    assert_eq!(lp.filter(32768), 32767);
    assert_eq!(lp.filter(32768), 32767);
}

#[test]
fn test_lowpass_moves_between_state_and_input() {
    let mut lp = LowPassRC::new(Frequency::from_hertz(440));
    lp.set_sampling_parameters(&SamplingParameters::audio_cd());
    let mut last: i64 = 0;
    for _ in 0..64 {
        let out = lp.filter(20000);
        assert!(last <= out && out <= 20000);
        last = out;
    }
    // the average converges upward over time
    assert!(last > 10000);
}

#[test]
fn test_lowpass_reset_keeps_coefficient() {
    let mut lp = LowPassRC::new(Frequency::from_hertz(440));
    lp.set_sampling_parameters(&SamplingParameters::audio_cd());
    let first = lp.filter(20000);
    lp.reset();
    // after a reset the filter repeats its first step exactly
    assert_eq!(lp.filter(20000), first);
}

#[test]
fn test_set_cutoff_frequency() {
    let mut lp = LowPassRC::new(Frequency::from_hertz(440));
    lp.set_sampling_parameters(&SamplingParameters::with_rate(1000));
    lp.set_cutoff_frequency(Frequency::from_hertz(0));
    assert_eq!(lp.filter(30000), 0);
}

#[test]
fn test_overdrive_clips() {
    // gain of two in Q15
    let mut od = Overdrive::new(65536);
    assert_eq!(od.filter(1000), 2000);
    assert_eq!(od.filter(20000), 32767);
    assert_eq!(od.filter(-20000), -32767);
    assert_eq!(od.filter(0), 0);
}

#[test]
fn test_limiter_prefill_and_bound() {
    let mut limiter = LookaheadLimiter::new(2);
    // the two pre-filled silent samples drain first
    assert_eq!(limiter.filter(65534), 0);
    assert_eq!(limiter.filter(0), 0);
    // the loud sample leaves scaled down to exactly full scale
    assert_eq!(limiter.filter(0), 32767);
    assert_eq!(limiter.filter(0), 0);
}

#[test]
fn test_limiter_bounded_on_wild_input() {
    let mut limiter = LookaheadLimiter::new(3);
    let inputs: Vec<i64> = vec![
        1000000, -4000000, 32767, -1, 0, i64::MAX, i64::MIN + 1, 123456789, -987654321, 5,
    ];
    for x in inputs.iter() {
        let out = limiter.filter(*x);
        assert!(-32767 <= out && out <= 32767);
    }
}

#[test]
fn test_limiter_quiet_passes_through() {
    let mut limiter = LookaheadLimiter::new(1);
    assert_eq!(limiter.filter(1234), 0);
    // quiet samples are never amplified nor attenuated
    assert_eq!(limiter.filter(-777), 1234);
    assert_eq!(limiter.filter(0), -777);
}

#[test]
fn test_limiter_reset() {
    let mut limiter = LookaheadLimiter::new(2);
    limiter.filter(50000);
    limiter.reset();
    assert_eq!(limiter.filter(0), 0);
    assert_eq!(limiter.filter(0), 0);
    assert_eq!(limiter.filter(0), 0);
}

#[test]
fn test_id_filter() {
    let mut f: Id<i64> = id();
    assert_eq!(f.filter(42), 42);
    f.reset();
    assert_eq!(f.filter(-3), -3);
}

#[test]
fn test_lift_filter() {
    let mut f = lift(|x: i64| x * 3);
    assert_eq!(f.filter(5), 15);
    assert_eq!(f.filter(-2), -6);
}

#[test]
fn test_chain_filters() {
    let mut f = Chain(lift(|x: i64| x + 1), lift(|x: i64| x * 10));
    assert_eq!(f.filter(4), 50);
}

#[test]
fn test_split_filter() {
    let mut f = Split(lift(|x: i64| x - 1));
    assert_eq!(f.filter(8), (7, 7));
}

#[test]
fn test_dried_mix() {
    // half dry, half wet around an identity filter: the mix halves twice
    let mut f = Dried { wet: 16384, dry: 16384, filter: id::<i64>() };
    assert_eq!(f.filter(20000), 20000);
    let mut boosted = Dried { wet: 32768, dry: 32768, filter: id::<i64>() };
    assert_eq!(boosted.filter(100), 200);
}
