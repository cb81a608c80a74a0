//! Tests for the sample scalar helpers: clamping, resampling, and the Q15
//! fixed-point arithmetic.

use synth::sample::{clamp, hard_limit, sat_add, q15_scale, Resample, Sample};
use synth::{FULL_SCALE, Q15_ONE};

#[test]
fn limiter_test_clamp() {
    assert_eq!(0, clamp(0i64, -1, 1));
    assert_eq!(1, clamp(2i64, -1, 1));
    assert_eq!(-1, clamp(-2i64, -1, 1));
    assert_eq!(7, clamp(7i64, 7, 7));
}

#[test]
fn sample_test_clamp() {
    assert_eq!(0, clamp(0i64, -1, 1));
    assert_eq!(1, clamp(2i64, -1, 1));
    assert_eq!(-1, clamp(-2i64, -1, 1));
    assert_eq!(-32767, clamp(i64::MIN, -32767, 32767));
}

#[test]
fn sample_test_resample() {
    assert_eq!(
        <i64 as Sample>::lower_limit().resample(),
        <i16 as Sample>::lower_limit()
    );
    assert_eq!(
        <i64 as Sample>::upper_limit().resample(),
        <i16 as Sample>::upper_limit()
    );
    assert_eq!(
        <i64 as Sample>::equilibrium().resample(),
        <i16 as Sample>::equilibrium()
    );
    let over: i16 = 1000000i64.resample();
    assert_eq!(over, 32767);
    let under: i16 = (-1000000i64).resample();
    assert_eq!(under, -32767);
}

#[test]
fn test_hard_limit() {
    assert_eq!(hard_limit(0i64), 0);
    assert_eq!(hard_limit(32768i64), 32767);
    assert_eq!(hard_limit(-40000i64), -32767);
    assert_eq!(hard_limit(12345i64), 12345);
    assert_eq!(hard_limit(100i16), 100);
    assert_eq!(hard_limit(i16::MIN), -32767);
}

#[test]
fn test_full_scale_constants() {
    assert_eq!(FULL_SCALE, 32767);
    assert_eq!(Q15_ONE, 32768);
    // one step above full scale clips back to full scale
    assert_eq!(hard_limit(Q15_ONE), FULL_SCALE);
}

#[test]
fn test_sat_add() {
    assert_eq!(sat_add(1, 2), 3);
    assert_eq!(sat_add(i64::MAX, 1), i64::MAX);
    assert_eq!(sat_add(i64::MIN, -1), i64::MIN);
    assert_eq!(sat_add(-5, 5), 0);
}

#[test]
fn test_q15_scale() {
    // multiplying by one half halves, truncating toward zero
    assert_eq!(q15_scale(1000, 16384), 500);
    assert_eq!(q15_scale(-1000, 16384), -500);
    assert_eq!(q15_scale(32767, 32768), 32767);
    assert_eq!(q15_scale(32767, 16384), 16383);
    assert_eq!(q15_scale(-32767, 16384), -16383);
    assert_eq!(q15_scale(7, 0), 0);
}
