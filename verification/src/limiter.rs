//! The look-ahead limiter: delays the signal by a fixed window so that each
//! emitted sample can be divided by the true peak of the window it belongs
//! to, keeping the output within full scale without hard clipping.

use vstd::prelude::*;
use vstd::arithmetic::div_mod::{
    lemma_multiply_divide_le,
    lemma_div_is_ordered_by_denominator,
    lemma_div_multiples_vanish,
    lemma_div_pos_is_pos,
};
use crate::module::{SoundModule, SamplingParameters};
use crate::filter::Filter;
use crate::sample::{abs_val, TotalOrder};
use crate::data::{SlidingWindowMax, is_max_of};

verus! {

/// A sample ordered by absolute value: `Magnitude(x)` and `Magnitude(-x)`
/// compare equal.
#[derive(Debug, Copy, Clone)]
pub struct Magnitude(pub i64);

/// The absolute value of a sample, wide enough for the most negative one.
pub fn mag_u64(x: i64) -> (r: u64)
    ensures
        r as int == abs_val(x as int),
{
    if x >= 0 {
        x as u64
    } else {
        let wide: i128 = -(x as i128);
        wide as u64
    }
}

impl TotalOrder for Magnitude {
    open spec fn le_spec(self, other: Self) -> bool {
        abs_val(self.0 as int) <= abs_val(other.0 as int)
    }

    proof fn lemma_total(a: Self, b: Self) {
    }

    proof fn lemma_transitive(a: Self, b: Self, c: Self) {
    }

    fn le(self, other: Self) -> (r: bool) {
        mag_u64(self.0) <= mag_u64(other.0)
    }
}

impl PartialEq for Magnitude {
    fn eq(&self, other: &Magnitude) -> (r: bool) {
        mag_u64(self.0) == mag_u64(other.0)
    }
}

impl vstd::std_specs::cmp::PartialEqSpecImpl for Magnitude {
    open spec fn obeys_eq_spec() -> bool {
        true
    }

    open spec fn eq_spec(&self, other: &Magnitude) -> bool {
        abs_val(self.0 as int) == abs_val(other.0 as int)
    }
}

impl PartialOrd for Magnitude {
    fn partial_cmp(&self, other: &Magnitude) -> (r: Option<std::cmp::Ordering>) {
        let a = mag_u64(self.0);
        let b = mag_u64(other.0);
        if a < b {
            Some(std::cmp::Ordering::Less)
        } else if a == b {
            Some(std::cmp::Ordering::Equal)
        } else {
            Some(std::cmp::Ordering::Greater)
        }
    }
}

impl vstd::std_specs::cmp::PartialOrdSpecImpl for Magnitude {
    open spec fn obeys_partial_cmp_spec() -> bool {
        true
    }

    open spec fn partial_cmp_spec(&self, other: &Magnitude) -> Option<std::cmp::Ordering> {
        if abs_val(self.0 as int) < abs_val(other.0 as int) {
            Some(std::cmp::Ordering::Less)
        } else if abs_val(self.0 as int) == abs_val(other.0 as int) {
            Some(std::cmp::Ordering::Equal)
        } else {
            Some(std::cmp::Ordering::Greater)
        }
    }
}

/// A magnitude and its negation compare equal in both directions: the order
/// sees only the absolute value.
pub proof fn lemma_magnitude_negation(a: Magnitude, b: Magnitude)
    requires
        a.0 as int == -(b.0 as int),
    ensures
        a.le_spec(b),
        b.le_spec(a),
{
}

/// The peak of a window: the largest absolute value among its samples, zero
/// for an empty window.
pub open spec fn window_peak(w: Seq<Magnitude>) -> int
    decreases w.len(),
{
    if w.len() == 0 {
        0
    } else {
        let rest = window_peak(w.drop_first());
        if abs_val(w[0].0 as int) > rest {
            abs_val(w[0].0 as int)
        } else {
            rest
        }
    }
}

/// The amplitude a limiter divides by: the window peak, floored at full scale
/// so that quiet passages are never amplified.
pub open spec fn amp_spec(w: Seq<Magnitude>) -> int {
    if window_peak(w) > 32767 {
        window_peak(w)
    } else {
        32767
    }
}

/// A sample scaled to full scale over `amp`, truncated toward zero.
pub open spec fn scale_to_peak(x: int, amp: int) -> int {
    if x >= 0 {
        x * 32767 / amp
    } else {
        -((-x) * 32767 / amp)
    }
}

/// Every window member lies at or below the peak.
pub proof fn lemma_peak_dominates(w: Seq<Magnitude>, j: int)
    requires
        0 <= j < w.len(),
    ensures
        abs_val(w[j].0 as int) <= window_peak(w),
        window_peak(w) >= 0,
    decreases w.len(),
{
    if j > 0 {
        lemma_peak_dominates(w.drop_first(), j - 1);
        assert(w.drop_first()[j - 1] == w[j]);
    } else if w.len() > 1 {
        lemma_peak_dominates(w.drop_first(), 0);
    }
}

/// A nonempty window attains its peak.
pub proof fn lemma_peak_attained(w: Seq<Magnitude>)
    requires
        w.len() > 0,
    ensures
        exists|j: int| 0 <= j < w.len() && abs_val((#[trigger] w[j]).0 as int) == window_peak(w),
    decreases w.len(),
{
    let rest = w.drop_first();
    if rest.len() == 0 {
        assert(window_peak(rest) == 0);
        assert(abs_val(w[0].0 as int) == window_peak(w));
    } else if abs_val(w[0].0 as int) > window_peak(rest) {
        assert(abs_val(w[0].0 as int) == window_peak(w));
    } else {
        lemma_peak_attained(rest);
        let j = choose|j: int| 0 <= j < rest.len() && abs_val((#[trigger] rest[j]).0 as int)
            == window_peak(rest);
        assert(rest[j] == w[j + 1]);
        assert(abs_val(w[j + 1].0 as int) == window_peak(w));
    }
}

/// The maximum that the sliding window reports has exactly the peak's
/// absolute value.
pub proof fn lemma_max_is_peak(m: Magnitude, w: Seq<Magnitude>)
    requires
        is_max_of(m, w),
    ensures
        abs_val(m.0 as int) == window_peak(w),
{
    let j = choose|j: int| 0 <= j < w.len() && w[j] == m;
    lemma_peak_dominates(w, j);
    lemma_peak_attained(w);
    let k = choose|k: int| 0 <= k < w.len() && abs_val((#[trigger] w[k]).0 as int) == window_peak(
        w,
    );
    assert(w[k].le_spec(m));
}

/// Wraps a sliding-window maximum pre-filled with `lookahead_count` silent
/// samples, so the limiter is always `lookahead_count` samples of latency
/// behind its input and can divide each emitted sample by the peak of the
/// window that follows it.
pub struct LookaheadLimiter {
    lookahead_count: usize,
    buffer: SlidingWindowMax<Magnitude>,
}

impl LookaheadLimiter {
    /// The buffered window, newest sample first.
    pub closed spec fn window(&self) -> Seq<Magnitude> {
        self.buffer@
    }

    pub closed spec fn count_spec(&self) -> usize {
        self.lookahead_count
    }

    pub closed spec fn window_wf(&self) -> bool {
        self.buffer.wf()
    }

    fn refill(&mut self)
        requires
            old(self).window_wf(),
        ensures
            final(self).inv(),
            final(self).count_spec() == old(self).count_spec(),
            final(self).window().len() == final(self).count_spec(),
            forall|j: int|
                0 <= j < final(self).window().len() ==> final(self).window()[j] == Magnitude(0i64),
    {
        self.buffer.clear();
        let mut i: usize = 0;
        while i < self.lookahead_count
            invariant
                self.buffer.wf(),
                self.lookahead_count == old(self).lookahead_count,
                self.buffer@.len() == i,
                i <= self.lookahead_count,
                forall|j: int| 0 <= j < i ==> self.buffer@[j] == Magnitude(0i64),
            decreases self.lookahead_count - i,
        {
            self.buffer.enqueue(Magnitude(0));
            i = i + 1;
        }
    }

    /// Construct a limiter with the given look-ahead, pre-filled with that
    /// many silent samples.
    pub fn new(lookahead_count: usize) -> (r: Self)
        ensures
            r.inv(),
            r.count_spec() == lookahead_count,
            forall|j: int| 0 <= j < r.window().len() ==> r.window()[j] == Magnitude(0i64),
    {
        let mut limiter = LookaheadLimiter {
            lookahead_count,
            buffer: SlidingWindowMax::with_capacity(lookahead_count),
        };
        limiter.refill();
        limiter
    }
}

impl SoundModule for LookaheadLimiter {
    open spec fn inv(&self) -> bool {
        self.window_wf() && self.window().len() == self.count_spec()
    }

    open spec fn reset_rel(pre: Self, post: Self) -> bool {
        &&& post.count_spec() == pre.count_spec()
        &&& post.window().len() == post.count_spec()
        &&& forall|j: int| 0 <= j < post.window().len() ==> post.window()[j] == Magnitude(0i64)
    }

    open spec fn config_rel(pre: Self, post: Self, rate: u32) -> bool {
        post == pre
    }

    fn reset(&mut self) {
        self.refill();
    }

    fn set_sampling_parameters(&mut self, _params: &SamplingParameters) {
    }
}

impl Filter for LookaheadLimiter {
    type Input = i64;

    type Output = i64;

    open spec fn filter_rel(pre: Self, post: Self, input: i64, out: i64) -> bool {
        let w1 = seq![Magnitude(input)] + pre.window();
        &&& out as int == scale_to_peak(w1.last().0 as int, amp_spec(pre.window()))
        &&& post.window() == w1.drop_last()
        &&& post.count_spec() == pre.count_spec()
    }

    /// Emit the oldest buffered sample divided by the peak of the window that
    /// followed it. With at least one sample of look-ahead, the output never
    /// leaves full scale.
    fn filter(&mut self, input: i64) -> (r: i64)
        ensures
            old(self).count_spec() >= 1 ==> -32767 <= r <= 32767,
    {
        let ghost w0 = self.window();
        let amp: u64 = match self.buffer.maximum() {
            Some(m) => {
                proof {
                    lemma_max_is_peak(m, w0);
                }
                let a = mag_u64(m.0);
                if a < 32767 {
                    32767
                } else {
                    a
                }
            },
            None => 32767,
        };
        proof {
            if w0.len() > 0 {
                assert(amp as int == amp_spec(w0));
            } else {
                assert(window_peak(w0) == 0);
                assert(amp as int == amp_spec(w0));
            }
        }
        self.buffer.enqueue(Magnitude(input));
        let deq: Magnitude = match self.buffer.dequeue() {
            Some(x) => x,
            None => {
                proof {
                    assert(false);
                }
                Magnitude(0)
            },
        };
        proof {
            assert(deq == (seq![Magnitude(input)] + w0).last());
            if old(self).count_spec() >= 1 {
                assert(deq == w0[w0.len() - 1]);
                lemma_peak_dominates(w0, w0.len() - 1);
            }
        }
        let mag: u64 = mag_u64(deq.0);
        let wide: u128 = (mag as u128) * 32767;
        let q: u128 = wide / (amp as u128);
        proof {
            lemma_div_pos_is_pos((mag as int) * 32767, amp as int);
            // dividing by at least full scale never grows the magnitude
            lemma_div_is_ordered_by_denominator((mag as int) * 32767, 32767, amp as int);
            lemma_div_multiples_vanish(mag as int, 32767);
            assert(32767 * (mag as int) == (mag as int) * 32767);
            assert(q as int <= mag as int);
            if old(self).count_spec() >= 1 {
                // the dequeued sample was inside the window the peak covers
                assert((mag as int) * 32767 <= (amp as int) * 32767);
                lemma_multiply_divide_le((mag as int) * 32767, amp as int, 32767);
                assert(q <= 32767);
            }
        }
        if deq.0 < 0 {
            if q >= 9223372036854775808u128 {
                i64::MIN
            } else {
                -(q as i64)
            }
        } else {
            q as i64
        }
    }
}

/// Outputs of a limiter, described over its buffered window (newest first):
/// each call enqueues the input, divides the departing oldest sample by the
/// previous window's amplitude, and emits it.
pub open spec fn limiter_window_run(w: Seq<Magnitude>, inputs: Seq<i64>) -> Seq<int>
    decreases inputs.len(),
{
    if inputs.len() == 0 {
        Seq::empty()
    } else {
        let w1 = seq![Magnitude(inputs[0])] + w;
        seq![scale_to_peak(w1.last().0 as int, amp_spec(w))] + limiter_window_run(
            w1.drop_last(),
            inputs.drop_first(),
        )
    }
}

/// Scaling a sample to a window peak at or above its own magnitude keeps it
/// within full scale.
proof fn lemma_scale_bounded(x: int, amp: int)
    requires
        amp >= 32767,
        abs_val(x) <= amp,
    ensures
        -32767 <= scale_to_peak(x, amp) <= 32767,
{
    if x >= 0 {
        assert(x * 32767 <= amp * 32767);
        lemma_multiply_divide_le(x * 32767, amp, 32767);
        lemma_div_pos_is_pos(x * 32767, amp);
    } else {
        assert((-x) * 32767 <= amp * 32767);
        lemma_multiply_divide_le((-x) * 32767, amp, 32767);
        lemma_div_pos_is_pos((-x) * 32767, amp);
    }
}

/// With at least one sample of look-ahead, every output of a limiter lies
/// within full scale, whatever the inputs are.
pub proof fn lemma_limiter_bounded(w: Seq<Magnitude>, inputs: Seq<i64>)
    requires
        w.len() >= 1,
    ensures
        limiter_window_run(w, inputs).len() == inputs.len(),
        forall|i: int|
            0 <= i < inputs.len() ==> -32767 <= #[trigger] limiter_window_run(w, inputs)[i]
                <= 32767,
    decreases inputs.len(),
{
    if inputs.len() > 0 {
        let w1 = seq![Magnitude(inputs[0])] + w;
        let outs = limiter_window_run(w, inputs);
        assert(w1.last() == w[w.len() - 1]);
        lemma_peak_dominates(w, w.len() - 1);
        lemma_scale_bounded(w1.last().0 as int, amp_spec(w));
        assert(outs[0] == scale_to_peak(w1.last().0 as int, amp_spec(w)));
        lemma_limiter_bounded(w1.drop_last(), inputs.drop_first());
        assert forall|i: int| 1 <= i < inputs.len() implies -32767 <= #[trigger] outs[i]
            <= 32767 by {
            assert(outs[i] == limiter_window_run(w1.drop_last(), inputs.drop_first())[i - 1]);
        }
    }
}

/// A limiter with a nonempty window emits one output per input.
pub proof fn lemma_limiter_run_len(w: Seq<Magnitude>, inputs: Seq<i64>)
    requires
        w.len() >= 1,
    ensures
        limiter_window_run(w, inputs).len() == inputs.len(),
    decreases inputs.len(),
{
    if inputs.len() > 0 {
        let w1 = seq![Magnitude(inputs[0])] + w;
        lemma_limiter_run_len(w1.drop_last(), inputs.drop_first());
    }
}

/// While the pre-filled silent samples drain out of the window, the limiter
/// emits exactly silence: the first `lookahead_count` outputs are equilibrium.
pub proof fn lemma_limiter_prefill(w: Seq<Magnitude>, inputs: Seq<i64>, k: int)
    requires
        0 <= k <= w.len(),
        forall|j: int| w.len() - k <= j < w.len() ==> (#[trigger] w[j]).0 == 0i64,
    ensures
        forall|i: int|
            0 <= i < k && i < inputs.len() ==> #[trigger] limiter_window_run(w, inputs)[i] == 0,
    decreases inputs.len(),
{
    if inputs.len() > 0 && k > 0 {
        let w1 = seq![Magnitude(inputs[0])] + w;
        let outs = limiter_window_run(w, inputs);
        lemma_limiter_run_len(w, inputs);
        lemma_limiter_run_len(w1.drop_last(), inputs.drop_first());
        assert(w1.last() == w[w.len() - 1]);
        assert(w[w.len() - 1].0 == 0i64);
        assert(scale_to_peak(0, amp_spec(w)) == 0) by {
            assert(0 * 32767 == 0);
            vstd::arithmetic::div_mod::lemma_div_of0(amp_spec(w));
        }
        assert(outs[0] == 0);
        let w2 = w1.drop_last();
        assert(w2.len() == w.len());
        assert forall|j: int| w2.len() - (k - 1) <= j < w2.len() implies (#[trigger] w2[j]).0
            == 0i64 by {
            assert(1 <= j < w1.len() - 1);
            assert(w2[j] == w1[j]);
            assert(w1[j] == w[j - 1]);
            assert(w.len() - k <= j - 1 < w.len());
        }
        lemma_limiter_prefill(w2, inputs.drop_first(), k - 1);
        assert forall|i: int| 0 <= i < k && i < inputs.len() implies #[trigger] outs[i] == 0 by {
            if i > 0 {
                assert(outs[i] == limiter_window_run(w2, inputs.drop_first())[i - 1]);
            }
        }
    }
}

} // verus!
