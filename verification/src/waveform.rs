//! Waveform shapes: maps from an oscillator phase to an amplitude.
//!
//! A phase is a `u32` covering one cycle (the full `u32` range is one
//! period); an amplitude is a Q15 sample.

use vstd::prelude::*;
use vstd::arithmetic::div_mod::{lemma_multiply_divide_lt, lemma_div_pos_is_pos};

verus! {

/// A waveform shape: a pure map from phase to amplitude.
pub trait Waveform: Sized {
    /// Well-formedness of the shape's data.
    spec fn shape_inv(&self) -> bool;

    /// The amplitude at the given phase.
    spec fn amplitude_spec(&self, phase: u32) -> i64;

    /// Return the amplitude at the given phase offset within one cycle.
    fn phase_amplitude(&self, phase: u32) -> (r: i64)
        requires
            self.shape_inv(),
        ensures
            r == self.amplitude_spec(phase),
    ;
}

/// A sine-like shape: two opposite parabolic arcs, full scale at the quarter
/// points, zero at the half points.
#[derive(Debug, Clone)]
pub struct Sine;

/// A rising sawtooth from the lower limit to the upper limit over one cycle.
#[derive(Debug, Clone)]
pub struct Saw;

/// A symmetric ramp: full scale at phase zero, lower limit at the half point.
#[derive(Debug, Clone)]
pub struct Triangle;

/// A rectangular wave with the given duty cycle (as a phase span): the lower
/// limit below the duty point, the upper limit below twice the duty point,
/// silence above.
#[derive(Debug, Clone)]
pub struct Rect(pub u32);

/// A shape read from a table of samples, by nearest preceding entry.
#[derive(Debug, Clone)]
pub struct Wavetable(pub Vec<i64>);

/// The parabolic arc used for each half of the sine shape: zero at `x == 0`
/// and `x == 32768`, full scale at `x == 16384`.
pub open spec fn sine_arc(x: int) -> int {
    x * (32768 - x) * 32767 / 268435456
}

fn sine_arc_exec(x: u64) -> (r: i64)
    requires
        x <= 32768,
    ensures
        r as int == sine_arc(x as int),
        0 <= r <= 32767,
{
    proof {
        assert((x as int) * (32768 - x as int) <= 268435456) by (nonlinear_arith)
            requires
                0 <= (x as int) <= 32768,
        ;
        assert((x as int) * (32768 - x as int) >= 0) by (nonlinear_arith)
            requires
                0 <= (x as int) <= 32768,
        ;
        assert((x as int) * (32768 - x as int) * 32767 <= 268435456 * 32767) by (nonlinear_arith)
            requires
                0 <= (x as int) * (32768 - x as int) <= 268435456,
        ;
    }
    let num: u64 = x * (32768 - x) * 32767;
    let q: u64 = num / 268435456;
    proof {
        lemma_multiply_divide_lt((x as int) * (32768 - x as int) * 32767, 268435456, 32768);
        lemma_div_pos_is_pos((x as int) * (32768 - x as int) * 32767, 268435456);
    }
    q as i64
}

impl Waveform for Sine {
    open spec fn shape_inv(&self) -> bool {
        true
    }

    open spec fn amplitude_spec(&self, phase: u32) -> i64 {
        let p16 = phase as int / 65536;
        if p16 < 32768 {
            sine_arc(p16) as i64
        } else {
            (-sine_arc(p16 - 32768)) as i64
        }
    }

    fn phase_amplitude(&self, phase: u32) -> (r: i64) {
        let p16: u32 = phase / 65536;
        if p16 < 32768 {
            sine_arc_exec(p16 as u64)
        } else {
            let arc = sine_arc_exec((p16 - 32768) as u64);
            -arc
        }
    }
}

impl Waveform for Saw {
    open spec fn shape_inv(&self) -> bool {
        true
    }

    open spec fn amplitude_spec(&self, phase: u32) -> i64 {
        (phase as int / 65536 - 32768) as i64
    }

    fn phase_amplitude(&self, phase: u32) -> (r: i64) {
        let p16: u32 = phase / 65536;
        (p16 as i64) - 32768
    }
}

impl Waveform for Triangle {
    open spec fn shape_inv(&self) -> bool {
        true
    }

    open spec fn amplitude_spec(&self, phase: u32) -> i64 {
        let p16 = phase as int / 65536;
        let dist = if p16 >= 32768 {
            p16 - 32768
        } else {
            32768 - p16
        };
        if dist <= 16384 {
            ((16384 - dist) * 32767 / 16384) as i64
        } else {
            (-((dist - 16384) * 32767 / 16384)) as i64
        }
    }

    fn phase_amplitude(&self, phase: u32) -> (r: i64) {
        let p16: u32 = phase / 65536;
        let dist: u32 = if p16 >= 32768 {
            p16 - 32768
        } else {
            32768 - p16
        };
        if dist <= 16384 {
            let up: u64 = ((16384 - dist) as u64) * 32767;
            proof {
                lemma_multiply_divide_lt((16384 - dist as int) * 32767, 16384, 32768);
                lemma_div_pos_is_pos((16384 - dist as int) * 32767, 16384);
            }
            (up / 16384) as i64
        } else {
            let down: u64 = ((dist - 16384) as u64) * 32767;
            proof {
                lemma_multiply_divide_lt((dist as int - 16384) * 32767, 16384, 32769);
                lemma_div_pos_is_pos((dist as int - 16384) * 32767, 16384);
            }
            -((down / 16384) as i64)
        }
    }
}

impl Waveform for Rect {
    open spec fn shape_inv(&self) -> bool {
        true
    }

    open spec fn amplitude_spec(&self, phase: u32) -> i64 {
        if (phase as int) < self.0 as int {
            -32767i64
        } else if (phase as int) < 2 * (self.0 as int) {
            32767i64
        } else {
            0i64
        }
    }

    fn phase_amplitude(&self, phase: u32) -> (r: i64) {
        if phase < self.0 {
            -32767
        } else if (phase as u64) < 2 * (self.0 as u64) {
            32767
        } else {
            0
        }
    }
}

impl Waveform for Wavetable {
    /// The table holds at least one sample.
    open spec fn shape_inv(&self) -> bool {
        self.0@.len() >= 1
    }

    open spec fn amplitude_spec(&self, phase: u32) -> i64 {
        self.0@[(phase as int) * (self.0@.len() as int) / 4294967296]
    }

    fn phase_amplitude(&self, phase: u32) -> (r: i64) {
        let len = self.0.len();
        proof {
            assert(0 <= (phase as int) * (len as int) <= 4294967295 * 0xffffffffffffffff)
                by (nonlinear_arith)
                requires
                    0 <= (phase as int) <= 4294967295,
                    0 <= (len as int) <= 0xffffffffffffffff,
            ;
            assert((phase as int) * (len as int) < 4294967296 * (len as int)) by (nonlinear_arith)
                requires
                    0 <= (phase as int) < 4294967296,
                    1 <= (len as int),
            ;
        }
        let scaled: u128 = (phase as u128) * (len as u128);
        let pos: u128 = scaled / 4294967296;
        proof {
            lemma_multiply_divide_lt((phase as int) * (len as int), 4294967296, len as int);
            lemma_div_pos_is_pos((phase as int) * (len as int), 4294967296);
        }
        self.0[pos as usize]
    }
}

} // verus!
