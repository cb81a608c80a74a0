//! Filters built on a fixed-size ring buffer: a pure delay line and a
//! feedback echo.

use vstd::prelude::*;
use vstd::arithmetic::div_mod::{lemma_small_mod, lemma_mod_multiples_vanish, lemma_mod_self_0};
use crate::module::{SoundModule, SamplingParameters};
use crate::filter::Filter;
use crate::sample::{Sample, sat_add, sat_add_spec, q15_scale, q15_scale_spec};
use crate::types::Duration;

verus! {

/// Fixed-capacity circular buffer with one read/write cursor.
#[derive(Debug, Clone)]
struct RingBuffer<S> {
    buffer: Vec<S>,
    index: usize,
}

impl<S: Sample> RingBuffer<S> {
    spec fn wf(&self) -> bool {
        self.index < self.buffer@.len()
    }

    fn filled(size: usize) -> (r: Vec<S>)
        ensures
            r@.len() == size,
            forall|j: int| 0 <= j < size ==> r@[j] == S::equilibrium_spec(),
    {
        let mut v: Vec<S> = Vec::new();
        while v.len() < size
            invariant
                v@.len() <= size,
                forall|j: int| 0 <= j < v@.len() ==> v@[j] == S::equilibrium_spec(),
            decreases size - v@.len(),
        {
            v.push(S::equilibrium());
        }
        v
    }

    fn new(size: usize) -> (r: Self)
        requires
            size >= 1,
        ensures
            r.wf(),
            r.index == 0,
            r.buffer@.len() == size,
            forall|j: int| 0 <= j < size ==> r.buffer@[j] == S::equilibrium_spec(),
    {
        RingBuffer { buffer: Self::filled(size), index: 0 }
    }

    /// Change the capacity, keeping the stored prefix, filling fresh slots
    /// with the equilibrium value and wrapping the cursor into range.
    fn resize(&mut self, new_size: usize)
        requires
            old(self).wf(),
            new_size >= 1,
        ensures
            final(self).wf(),
            final(self).buffer@.len() == new_size,
            forall|j: int|
                0 <= j < new_size && j < old(self).buffer@.len() ==> final(self).buffer@[j] == old(
                    self,
                ).buffer@[j],
            forall|j: int|
                old(self).buffer@.len() <= j < new_size ==> final(self).buffer@[j]
                    == S::equilibrium_spec(),
            final(self).index == old(self).index as int % new_size as int,
    {
        let mut fresh: Vec<S> = Vec::new();
        while fresh.len() < new_size
            invariant
                fresh@.len() <= new_size,
                self == old(self),
                forall|j: int|
                    0 <= j < fresh@.len() && j < old(self).buffer@.len() ==> fresh@[j] == old(
                        self,
                    ).buffer@[j],
                forall|j: int|
                    old(self).buffer@.len() <= j < fresh@.len() ==> fresh@[j]
                        == S::equilibrium_spec(),
            decreases new_size - fresh@.len(),
        {
            if fresh.len() < self.buffer.len() {
                let kept = self.buffer[fresh.len()];
                fresh.push(kept);
            } else {
                fresh.push(S::equilibrium());
            }
        }
        self.buffer = fresh;
        self.index = self.index % new_size;
    }

    fn current(&self) -> (r: S)
        requires
            self.wf(),
        ensures
            r == self.buffer@[self.index as int],
    {
        self.buffer[self.index]
    }

    fn set_current(&mut self, value: S)
        requires
            old(self).wf(),
        ensures
            final(self).wf(),
            final(self).buffer@ == old(self).buffer@.update(old(self).index as int, value),
            final(self).index == old(self).index,
    {
        let i = self.index;
        self.buffer.set(i, value);
    }

    fn forward(&mut self)
        requires
            old(self).wf(),
        ensures
            final(self).wf(),
            final(self).buffer@ == old(self).buffer@,
            final(self).index as int == (old(self).index + 1) as int % (old(self).buffer@.len() as int),
    {
        let len = self.buffer.len();
        self.index = (self.index + 1) % len;
    }

    /// Store `in_value` at the cursor, return the value it replaces, advance.
    fn shift(&mut self, in_value: S) -> (out: S)
        requires
            old(self).wf(),
        ensures
            final(self).wf(),
            out == old(self).buffer@[old(self).index as int],
            final(self).buffer@ == old(self).buffer@.update(old(self).index as int, in_value),
            final(self).index as int == (old(self).index + 1) as int % (old(self).buffer@.len() as int),
    {
        let out = self.current();
        self.set_current(in_value);
        self.forward();
        out
    }

    /// Refill every slot with the equilibrium value and rewind the cursor.
    fn reset(&mut self)
        requires
            old(self).wf(),
        ensures
            final(self).wf(),
            final(self).index == 0,
            final(self).buffer@.len() == old(self).buffer@.len(),
            forall|j: int|
                0 <= j < final(self).buffer@.len() ==> final(self).buffer@[j]
                    == S::equilibrium_spec(),
    {
        self.index = 0;
        let mut i: usize = 0;
        while i < self.buffer.len()
            invariant
                self.index == 0,
                i <= self.buffer@.len(),
                self.buffer@.len() == old(self).buffer@.len(),
                forall|j: int| 0 <= j < i ==> self.buffer@[j] == S::equilibrium_spec(),
            decreases self.buffer@.len() - i,
        {
            self.buffer.set(i, S::equilibrium());
            i = i + 1;
        }
    }
}

/// The number of buffer slots for a delay of `duration` at `rate` samples per
/// second: the product rounded to the nearest whole sample, floored at one
/// slot and capped at the address space.
pub open spec fn buffer_size_spec(rate: u32, duration: Duration) -> int {
    let raw = ((rate as int) * (duration.0 as int) + 500) / 1000;
    if raw < 1 {
        1
    } else if raw > usize::MAX as int {
        usize::MAX as int
    } else {
        raw
    }
}

fn buffer_size(rate: u32, duration: Duration) -> (r: usize)
    ensures
        r == buffer_size_spec(rate, duration),
{
    proof {
        assert((rate as int) * (duration.0 as int) <= 0xffffffff * 0xffffffffffffffff)
            by (nonlinear_arith)
            requires
                0 <= rate as int <= 0xffffffff,
                0 <= duration.0 as int <= 0xffffffffffffffff,
        ;
    }
    let wide: u128 = (rate as u128) * (duration.0 as u128);
    let raw: u128 = (wide + 500) / 1000;
    proof {
        vstd::arithmetic::div_mod::lemma_div_pos_is_pos(
            (rate as int) * (duration.0 as int) + 500,
            1000int,
        );
    }
    if raw < 1 {
        1
    } else if raw > usize::MAX as u128 {
        usize::MAX
    } else {
        raw as usize
    }
}

/// A pure delay line: every sample comes out unchanged, one buffer length
/// later; until then the line yields its equilibrium pre-fill.
#[derive(Debug, Clone)]
pub struct Delay<S> {
    duration: Duration,
    sample_rate: u32,
    delay_buffer: RingBuffer<S>,
}

impl<S: Sample> Delay<S> {
    /// The stored samples, in buffer order.
    pub closed spec fn slots(&self) -> Seq<S> {
        self.delay_buffer.buffer@
    }

    /// The cursor: the slot that the next call reads and overwrites.
    pub closed spec fn cursor(&self) -> int {
        self.delay_buffer.index as int
    }

    pub closed spec fn duration_spec(&self) -> Duration {
        self.duration
    }

    pub closed spec fn rate_spec(&self) -> u32 {
        self.sample_rate
    }

    /// Construct a delay line of the given duration. The line allocates for
    /// its sample rate once the sampling parameters are set.
    pub fn new(duration: Duration) -> (r: Self)
        ensures
            r.inv(),
            r.duration_spec() == duration,
            r.rate_spec() == 0u32,
            r.cursor() == 0,
            r.slots() =~= seq![S::equilibrium_spec()],
    {
        Delay { duration, sample_rate: 0, delay_buffer: RingBuffer::new(1) }
    }
}

impl<S: Sample> SoundModule for Delay<S> {
    open spec fn inv(&self) -> bool {
        0 <= self.cursor() < self.slots().len()
    }

    open spec fn reset_rel(pre: Self, post: Self) -> bool {
        &&& post.duration_spec() == pre.duration_spec()
        &&& post.rate_spec() == pre.rate_spec()
        &&& post.cursor() == 0
        &&& post.slots().len() == pre.slots().len()
        &&& forall|j: int| 0 <= j < post.slots().len() ==> post.slots()[j] == S::equilibrium_spec()
    }

    open spec fn config_rel(pre: Self, post: Self, rate: u32) -> bool {
        &&& post.duration_spec() == pre.duration_spec()
        &&& post.rate_spec() == rate
        &&& post.slots().len() == buffer_size_spec(rate, pre.duration_spec())
        &&& forall|j: int|
            0 <= j < post.slots().len() && j < pre.slots().len() ==> post.slots()[j]
                == pre.slots()[j]
        &&& forall|j: int|
            pre.slots().len() <= j < post.slots().len() ==> post.slots()[j]
                == S::equilibrium_spec()
        &&& post.cursor() == pre.cursor() % post.slots().len() as int
    }

    fn reset(&mut self) {
        self.delay_buffer.reset();
    }

    fn set_sampling_parameters(&mut self, params: &SamplingParameters) {
        self.sample_rate = params.sample_rate();
        let size = buffer_size(self.sample_rate, self.duration);
        self.delay_buffer.resize(size);
    }
}

impl<S: Sample> Filter for Delay<S> {
    type Input = S;

    type Output = S;

    open spec fn filter_rel(pre: Self, post: Self, input: S, out: S) -> bool {
        &&& out == pre.slots()[pre.cursor()]
        &&& post.slots() == pre.slots().update(pre.cursor(), input)
        &&& post.cursor() == (pre.cursor() + 1) % pre.slots().len() as int
        &&& post.duration_spec() == pre.duration_spec()
        &&& post.rate_spec() == pre.rate_spec()
    }

    fn filter(&mut self, input: S) -> (r: S) {
        self.delay_buffer.shift(input)
    }
}

/// The samples a ring buffer will emit next, oldest first: the slots read
/// from the cursor onward, wrapping around.
pub open spec fn ring_pending<T>(slots: Seq<T>, cursor: int) -> Seq<T> {
    Seq::new(slots.len(), |t: int| slots[(cursor + t) % slots.len() as int])
}

/// One shift of a ring buffer dequeues the oldest pending sample and enqueues
/// the written value.
pub proof fn lemma_ring_pending_step<T>(slots: Seq<T>, cursor: int, written: T)
    requires
        0 <= cursor < slots.len(),
    ensures
        ring_pending(slots, cursor)[0] == slots[cursor],
        ring_pending(slots.update(cursor, written), (cursor + 1) % slots.len() as int)
            == ring_pending(slots, cursor).drop_first().push(written),
{
    let n = slots.len() as int;
    let c = cursor;
    let slots2 = slots.update(c, written);
    let cp = (c + 1) % n;
    lemma_small_mod(c as nat, n as nat);
    assert(ring_pending(slots, c)[0] == slots[c]);
    assert forall|t: int| 0 <= t < n implies ring_pending(slots2, cp)[t] == ring_pending(
        slots,
        c,
    ).drop_first().push(written)[t] by {
        if t < n - 1 {
            // the slot read is the one the old state would have read one step
            // later, and it was not overwritten
            let x = c + 1 + t;
            assert(ring_pending(slots2, cp)[t] == slots2[x % n]) by {
                assert((cp + t) % n == x % n) by {
                    if c + 1 < n {
                        lemma_small_mod((c + 1) as nat, n as nat);
                    } else {
                        lemma_mod_self_0(n);
                        lemma_mod_multiples_vanish(1, t, n);
                        lemma_small_mod(t as nat, n as nat);
                    }
                }
            }
            if x < n {
                lemma_small_mod(x as nat, n as nat);
                assert(x % n == x);
                assert(x != c);
            } else {
                lemma_mod_multiples_vanish(1, x - n, n);
                lemma_small_mod((x - n) as nat, n as nat);
                assert(x % n == x - n);
                assert(x - n != c);
            }
            assert(slots2[x % n] == slots[x % n]);
            assert(ring_pending(slots, c).drop_first().push(written)[t] == ring_pending(slots, c)[t
                + 1]);
        } else {
            // the final pending sample is the one just written
            assert(t == n - 1);
            lemma_mod_multiples_vanish(1, c, n);
            lemma_small_mod(c as nat, n as nat);
            assert((cp + t) % n == c) by {
                if c + 1 < n {
                    lemma_small_mod((c + 1) as nat, n as nat);
                    assert(cp == c + 1);
                    assert(cp + t == c + n);
                    assert((c + n) % n == c);
                } else {
                    lemma_mod_self_0(n);
                    assert(cp == 0);
                    lemma_small_mod(t as nat, n as nat);
                }
            }
            assert(slots2[c] == written);
        }
    }
    assert(ring_pending(slots2, cp) =~= ring_pending(slots, c).drop_first().push(written));
}

/// The samples a delay line will emit next, oldest first.
pub open spec fn delay_pending<S: Sample>(d: Delay<S>) -> Seq<S> {
    ring_pending(d.slots(), d.cursor())
}

/// One filter call dequeues the oldest pending sample and enqueues the input.
pub proof fn lemma_delay_pending_step<S: Sample>(pre: Delay<S>, post: Delay<S>, input: S, out: S)
    requires
        pre.inv(),
        Delay::<S>::filter_rel(pre, post, input, out),
    ensures
        out == delay_pending(pre)[0],
        delay_pending(post) == delay_pending(pre).drop_first().push(input),
{
    lemma_ring_pending_step(pre.slots(), pre.cursor(), input);
}

/// Outputs of a delay line, described over its pending queue: each call emits
/// the head of the queue and appends the input at its tail.
pub open spec fn line_run<S>(pending: Seq<S>, inputs: Seq<S>) -> Seq<S>
    decreases inputs.len(),
{
    if inputs.len() == 0 || pending.len() == 0 {
        Seq::empty()
    } else {
        seq![pending[0]] + line_run(pending.drop_first().push(inputs[0]), inputs.drop_first())
    }
}

/// A delay line simply replays the pre-filled queue followed by its inputs:
/// output `i` is input `i - n` once the `n` pre-filled samples have drained.
pub proof fn lemma_line_run<S>(pending: Seq<S>, inputs: Seq<S>)
    requires
        pending.len() >= 1,
    ensures
        line_run(pending, inputs).len() == inputs.len(),
        forall|i: int|
            0 <= i < inputs.len() ==> line_run(pending, inputs)[i] == (pending + inputs)[i],
    decreases inputs.len(),
{
    if inputs.len() > 0 {
        let pending1 = pending.drop_first().push(inputs[0]);
        lemma_line_run(pending1, inputs.drop_first());
        let outs = line_run(pending, inputs);
        assert(outs[0] == pending[0]);
        assert(outs[0] == (pending + inputs)[0]);
        assert forall|i: int| 1 <= i < inputs.len() implies outs[i] == (pending + inputs)[i] by {
            assert(outs[i] == line_run(pending1, inputs.drop_first())[i - 1]);
            assert(line_run(pending1, inputs.drop_first())[i - 1] == (pending1
                + inputs.drop_first())[i - 1]);
            assert((pending1 + inputs.drop_first())[i - 1] == (pending + inputs)[i]);
        }
    }
}

/// Feeding a delay line whose slots hold the equilibrium pre-fill returns
/// equilibrium for the first `n` outputs and afterwards reproduces the input
/// sequence shifted by exactly `n` samples.
pub proof fn lemma_delay_round_trip<S: Sample>(d: Delay<S>, inputs: Seq<S>)
    requires
        d.inv(),
        forall|j: int| 0 <= j < d.slots().len() ==> d.slots()[j] == S::equilibrium_spec(),
    ensures
        line_run(delay_pending(d), inputs).len() == inputs.len(),
        forall|i: int|
            0 <= i < inputs.len() ==> line_run(delay_pending(d), inputs)[i] == (if i
                < d.slots().len() {
                S::equilibrium_spec()
            } else {
                inputs[i - d.slots().len()]
            }),
{
    let pending = delay_pending(d);
    let n = d.slots().len() as int;
    assert(pending.len() == n);
    assert forall|t: int| 0 <= t < n implies pending[t] == S::equilibrium_spec() by {
        vstd::arithmetic::div_mod::lemma_mod_bound(d.cursor() + t, n);
        assert(pending[t] == d.slots()[(d.cursor() + t) % n]);
    }
    lemma_line_run(pending, inputs);
    assert forall|i: int| 0 <= i < inputs.len() implies line_run(pending, inputs)[i] == (if i < n {
        S::equilibrium_spec()
    } else {
        inputs[i - n]
    }) by {
        if i < n {
            assert((pending + inputs)[i] == pending[i]);
        } else {
            assert((pending + inputs)[i] == inputs[i - n]);
        }
    }
}

/// The feedback echo: each call returns the stored slot unchanged (the
/// delayed echo), then stores the sum of that slot and the input, attenuated
/// by the dampening factor, producing exponentially decaying repeats.
#[derive(Debug, Clone)]
pub struct Echo {
    duration: Duration,
    dampening: i64,
    sample_rate: u32,
    delay_buffer: RingBuffer<i64>,
}

/// What an echo stores back into the slot it just played: the played sample
/// plus the input, attenuated by `damp` in Q15.
pub open spec fn echo_push_spec(played: i64, input: i64, damp: i64) -> i64 {
    q15_scale_spec(sat_add_spec(played, input), damp)
}

impl Echo {
    /// The stored samples, in buffer order.
    pub closed spec fn slots(&self) -> Seq<i64> {
        self.delay_buffer.buffer@
    }

    /// The cursor: the slot that the next call plays and overwrites.
    pub closed spec fn cursor(&self) -> int {
        self.delay_buffer.index as int
    }

    pub closed spec fn duration_spec(&self) -> Duration {
        self.duration
    }

    pub closed spec fn dampening_spec(&self) -> i64 {
        self.dampening
    }

    pub closed spec fn rate_spec(&self) -> u32 {
        self.sample_rate
    }

    /// Construct an echo with repeats spaced `duration` apart, each attenuated
    /// by the Q15 factor `dampening`. The buffer allocates for its sample rate
    /// once the sampling parameters are set.
    pub fn new(duration: Duration, dampening: i64) -> (r: Self)
        ensures
            r.inv(),
            r.duration_spec() == duration,
            r.dampening_spec() == dampening,
            r.rate_spec() == 0u32,
            r.cursor() == 0,
            r.slots() =~= seq![0i64],
    {
        Echo { duration, dampening, sample_rate: 0, delay_buffer: RingBuffer::new(1) }
    }
}

impl SoundModule for Echo {
    open spec fn inv(&self) -> bool {
        0 <= self.cursor() < self.slots().len()
    }

    open spec fn reset_rel(pre: Self, post: Self) -> bool {
        &&& post.duration_spec() == pre.duration_spec()
        &&& post.dampening_spec() == pre.dampening_spec()
        &&& post.rate_spec() == pre.rate_spec()
        &&& post.cursor() == 0
        &&& post.slots().len() == pre.slots().len()
        &&& forall|j: int| 0 <= j < post.slots().len() ==> post.slots()[j] == 0i64
    }

    open spec fn config_rel(pre: Self, post: Self, rate: u32) -> bool {
        &&& post.duration_spec() == pre.duration_spec()
        &&& post.dampening_spec() == pre.dampening_spec()
        &&& post.rate_spec() == rate
        &&& post.slots().len() == buffer_size_spec(rate, pre.duration_spec())
        &&& forall|j: int|
            0 <= j < post.slots().len() && j < pre.slots().len() ==> post.slots()[j]
                == pre.slots()[j]
        &&& forall|j: int| pre.slots().len() <= j < post.slots().len() ==> post.slots()[j] == 0i64
        &&& post.cursor() == pre.cursor() % post.slots().len() as int
    }

    fn reset(&mut self) {
        self.delay_buffer.reset();
    }

    fn set_sampling_parameters(&mut self, params: &SamplingParameters) {
        self.sample_rate = params.sample_rate();
        let size = buffer_size(self.sample_rate, self.duration);
        self.delay_buffer.resize(size);
    }
}

impl Filter for Echo {
    type Input = i64;

    type Output = i64;

    open spec fn filter_rel(pre: Self, post: Self, input: i64, out: i64) -> bool {
        &&& out == pre.slots()[pre.cursor()]
        &&& post.slots() == pre.slots().update(
            pre.cursor(),
            echo_push_spec(out, input, pre.dampening_spec()),
        )
        &&& post.cursor() == (pre.cursor() + 1) % pre.slots().len() as int
        &&& post.duration_spec() == pre.duration_spec()
        &&& post.dampening_spec() == pre.dampening_spec()
        &&& post.rate_spec() == pre.rate_spec()
    }

    fn filter(&mut self, input: i64) -> (r: i64) {
        let current = self.delay_buffer.current();
        let stored = q15_scale(sat_add(current, input), self.dampening);
        let played = self.delay_buffer.shift(stored);
        played
    }
}

/// The samples an echo will play next, oldest first.
pub open spec fn echo_pending(e: Echo) -> Seq<i64> {
    ring_pending(e.slots(), e.cursor())
}

/// One filter call plays the oldest pending sample and stores it back, summed
/// with the input and attenuated.
pub proof fn lemma_echo_pending_step(pre: Echo, post: Echo, input: i64, out: i64)
    requires
        pre.inv(),
        Echo::filter_rel(pre, post, input, out),
    ensures
        out == echo_pending(pre)[0],
        echo_pending(post) == echo_pending(pre).drop_first().push(
            echo_push_spec(out, input, pre.dampening_spec()),
        ),
{
    lemma_ring_pending_step(
        pre.slots(),
        pre.cursor(),
        echo_push_spec(out, input, pre.dampening_spec()),
    );
}

/// Outputs of an echo, described over its pending queue.
pub open spec fn echo_run(pending: Seq<i64>, damp: i64, inputs: Seq<i64>) -> Seq<i64>
    decreases inputs.len(),
{
    if inputs.len() == 0 || pending.len() == 0 {
        Seq::empty()
    } else {
        seq![pending[0]] + echo_run(
            pending.drop_first().push(echo_push_spec(pending[0], inputs[0], damp)),
            damp,
            inputs.drop_first(),
        )
    }
}

/// The pending queue of an echo after it has consumed `inputs`.
pub open spec fn echo_state(pending: Seq<i64>, damp: i64, inputs: Seq<i64>) -> Seq<i64>
    decreases inputs.len(),
{
    if inputs.len() == 0 || pending.len() == 0 {
        pending
    } else {
        echo_state(
            pending.drop_first().push(echo_push_spec(pending[0], inputs[0], damp)),
            damp,
            inputs.drop_first(),
        )
    }
}

/// Running an echo over concatenated inputs runs it over each part in turn.
proof fn lemma_echo_run_concat(pending: Seq<i64>, damp: i64, a: Seq<i64>, b: Seq<i64>)
    requires
        pending.len() >= 1,
    ensures
        echo_run(pending, damp, a + b) == echo_run(pending, damp, a) + echo_run(
            echo_state(pending, damp, a),
            damp,
            b,
        ),
        echo_state(pending, damp, a + b) == echo_state(echo_state(pending, damp, a), damp, b),
        echo_state(pending, damp, a).len() == pending.len(),
    decreases a.len(),
{
    if a.len() == 0 {
        assert(a + b =~= b);
        assert(echo_run(pending, damp, a) =~= Seq::<i64>::empty());
        assert(echo_run(pending, damp, a) + echo_run(pending, damp, b) =~= echo_run(
            pending,
            damp,
            b,
        ));
    } else {
        let pending1 = pending.drop_first().push(echo_push_spec(pending[0], a[0], damp));
        assert((a + b)[0] == a[0]);
        assert((a + b).drop_first() =~= a.drop_first() + b);
        lemma_echo_run_concat(pending1, damp, a.drop_first(), b);
        assert(echo_run(pending, damp, a + b) =~= echo_run(pending, damp, a) + echo_run(
            echo_state(pending, damp, a),
            damp,
            b,
        ));
    }
}

/// A sequence of `n` silent samples.
pub open spec fn zeros(n: int) -> Seq<i64> {
    Seq::new(n as nat, |t: int| 0i64)
}

/// A window of `n` silent samples except for `w` at position `j`.
pub open spec fn lone(n: int, j: int, w: i64) -> Seq<i64> {
    Seq::new(n as nat, |t: int| if t == j { w } else { 0i64 })
}

/// Output position of repeat `k`, offset `r`, for a buffer of `n` slots.
pub open spec fn repeat_index(k: int, r: int, n: int) -> int {
    1 + k * n + r
}

/// `v` attenuated `k` times by the Q15 factor `damp`.
pub open spec fn damp_pow(v: i64, damp: i64, k: nat) -> i64
    decreases k,
{
    if k == 0 {
        v
    } else {
        q15_scale_spec(damp_pow(v, damp, (k - 1) as nat), damp)
    }
}

/// Attenuating silence keeps silence.
proof fn lemma_echo_push_zero(damp: i64)
    ensures
        echo_push_spec(0i64, 0i64, damp) == 0i64,
{
    assert(sat_add_spec(0i64, 0i64) == 0i64);
    assert(0int * (damp as int) == 0) by (nonlinear_arith);
    assert(q15_scale_spec(0i64, damp) == 0i64);
}

/// Summing a sample with silence and attenuating it attenuates the sample.
proof fn lemma_echo_push_lone(w: i64, damp: i64)
    ensures
        echo_push_spec(w, 0i64, damp) == q15_scale_spec(w, damp),
{
    assert(sat_add_spec(w, 0i64) == w);
}

/// While the echo's stored sample has not yet reached the cursor, silent
/// input produces silent output and the sample only travels forward.
proof fn lemma_echo_quiet(n: int, j: int, w: i64, damp: i64, k: int)
    requires
        0 <= k <= j < n,
    ensures
        echo_run(lone(n, j, w), damp, zeros(k)) == zeros(k),
        echo_state(lone(n, j, w), damp, zeros(k)) == lone(n, j - k, w),
    decreases k,
{
    if k == 0 {
        assert(echo_run(lone(n, j, w), damp, zeros(0)) =~= zeros(0));
        assert(echo_state(lone(n, j, w), damp, zeros(0)) =~= lone(n, j, w));
    } else {
        let p = lone(n, j, w);
        assert(p[0] == 0i64);
        lemma_echo_push_zero(damp);
        assert(p.drop_first().push(0i64) =~= lone(n, j - 1, w));
        assert(zeros(k).drop_first() =~= zeros(k - 1));
        lemma_echo_quiet(n, j - 1, w, damp, k - 1);
        assert(echo_run(p, damp, zeros(k)) =~= seq![0i64] + zeros(k - 1));
        assert(seq![0i64] + zeros(k - 1) =~= zeros(k));
    }
}

/// One full period of silence plays the stored sample once and stores it
/// back, attenuated one step further.
proof fn lemma_echo_cycle(n: int, w: i64, damp: i64)
    requires
        n >= 1,
    ensures
        echo_run(lone(n, n - 1, w), damp, zeros(n)) == zeros(n - 1).push(w),
        echo_state(lone(n, n - 1, w), damp, zeros(n)) == lone(n, n - 1, q15_scale_spec(w, damp)),
{
    let p = lone(n, n - 1, w);
    lemma_echo_quiet(n, n - 1, w, damp, n - 1);
    assert(zeros(n) =~= zeros(n - 1) + zeros(1));
    lemma_echo_run_concat(p, damp, zeros(n - 1), zeros(1));
    let p0 = lone(n, 0, w);
    assert(p0[0] == w);
    lemma_echo_push_lone(w, damp);
    let z1 = zeros(1);
    assert(z1.len() == 1 && z1[0] == 0i64);
    let p1 = p0.drop_first().push(echo_push_spec(p0[0], z1[0], damp));
    assert(echo_run(p0, damp, z1) == seq![p0[0]] + echo_run(p1, damp, z1.drop_first()));
    assert(z1.drop_first().len() == 0);
    assert(echo_run(p1, damp, z1.drop_first()) == Seq::<i64>::empty());
    assert(echo_run(p0, damp, z1) =~= seq![w]);
    assert(echo_run(p, damp, zeros(n)) =~= zeros(n - 1).push(w));
    assert(echo_state(p0, damp, z1) == echo_state(p1, damp, z1.drop_first()));
    assert(echo_state(p1, damp, z1.drop_first()) == p1);
    assert(p1 =~= lone(n, n - 1, q15_scale_spec(w, damp)));
}

/// Feeding a single impulse `v` into a silent echo produces repeated
/// impulses spaced one buffer length apart, attenuated by one more factor of
/// the dampening at each repeat, with silence everywhere else.
pub proof fn lemma_echo_impulse(n: int, v: i64, damp: i64, m: nat)
    requires
        n >= 1,
    ensures
        ({
            let outs = echo_run(zeros(n), damp, seq![v] + zeros(m * n));
            &&& outs.len() == 1 + m * n
            &&& outs[0] == 0i64
            &&& forall|k: int, r: int|
                0 <= k < m && 0 <= r < n ==> outs[#[trigger] repeat_index(k, r, n)] == (if r == n
                    - 1 {
                    damp_pow(v, damp, (k + 1) as nat)
                } else {
                    0i64
                })
        }),
        echo_state(zeros(n), damp, seq![v] + zeros(m * n)) == lone(
            n,
            n - 1,
            damp_pow(v, damp, (m + 1) as nat),
        ),
    decreases m,
{
    let damp1 = damp_pow(v, damp, 1);
    if m == 0 {
        let whole = seq![v] + zeros(m * n);
        assert(whole =~= seq![v]);
        let p = zeros(n);
        assert(p.len() == n && p[0] == 0i64);
        assert(whole[0] == v);
        assert(echo_push_spec(0i64, v, damp) == q15_scale_spec(v, damp)) by {
            assert(sat_add_spec(0i64, v) == v);
        }
        let p1 = p.drop_first().push(echo_push_spec(p[0], whole[0], damp));
        assert(echo_run(p, damp, whole) == seq![p[0]] + echo_run(p1, damp, whole.drop_first()));
        assert(whole.drop_first().len() == 0);
        assert(echo_run(p1, damp, whole.drop_first()) == Seq::<i64>::empty());
        let outs = echo_run(p, damp, whole);
        assert(outs =~= seq![0i64]);
        assert(damp1 == q15_scale_spec(damp_pow(v, damp, 0), damp));
        assert(echo_state(p, damp, whole) == echo_state(p1, damp, whole.drop_first()));
        assert(echo_state(p1, damp, whole.drop_first()) == p1);
        assert(p1 =~= lone(n, n - 1, damp1));
    } else {
        lemma_echo_impulse(n, v, damp, (m - 1) as nat);
        let prefix = seq![v] + zeros((m - 1) as int * n);
        let whole = seq![v] + zeros(m * n);
        assert((m as int) * n == ((m - 1) as int) * n + n) by (nonlinear_arith);
        assert(whole.len() == prefix.len() + n);
        assert forall|i: int| 0 <= i < whole.len() implies whole[i] == (prefix + zeros(n))[i] by {
            if i == 0 {
            } else if i < prefix.len() {
                assert(whole[i] == zeros(m * n)[i - 1]);
                assert((prefix + zeros(n))[i] == zeros(((m - 1) as int) * n)[i - 1]);
            } else {
                assert(whole[i] == zeros(m * n)[i - 1]);
                assert((prefix + zeros(n))[i] == zeros(n)[i - prefix.len()]);
            }
        }
        assert(whole =~= prefix + zeros(n));
        lemma_echo_run_concat(zeros(n), damp, prefix, zeros(n));
        let w_m = damp_pow(v, damp, m);
        assert(echo_state(zeros(n), damp, prefix) == lone(n, n - 1, w_m));
        lemma_echo_cycle(n, w_m, damp);
        let outs_prev = echo_run(zeros(n), damp, prefix);
        let outs = echo_run(zeros(n), damp, whole);
        assert(outs =~= outs_prev + zeros(n - 1).push(w_m));
        assert(outs.len() == 1 + m * n);
        assert(outs[0] == outs_prev[0]);
        assert forall|k: int, r: int| 0 <= k < m && 0 <= r < n implies outs[#[trigger] repeat_index(
            k,
            r,
            n,
        )] == (if r == n - 1 {
            damp_pow(v, damp, (k + 1) as nat)
        } else {
            0i64
        }) by {
            assert(repeat_index(k, r, n) == 1 + k * n + r);
            if k < m - 1 {
                assert(1 + k * n + r < outs_prev.len()) by (nonlinear_arith)
                    requires
                        k <= m - 2,
                        0 <= r < n,
                        outs_prev.len() == 1 + (m - 1) * n,
                        0 <= k,
                ;
                assert(outs[1 + k * n + r] == outs_prev[1 + k * n + r]);
            } else {
                assert(k == m - 1);
                let base = outs_prev.len();
                assert(1 + k * n + r == base + r) by (nonlinear_arith)
                    requires
                        k == m - 1,
                        base == 1 + (m - 1) * n,
                ;
                assert(outs[base + r] == zeros(n - 1).push(w_m)[r]);
                if r == n - 1 {
                    assert(zeros(n - 1).push(w_m)[r] == w_m);
                    assert(damp_pow(v, damp, (k + 1) as nat) == w_m);
                } else {
                    assert(zeros(n - 1).push(w_m)[r] == 0i64);
                }
            }
        }
        assert(echo_state(zeros(n), damp, whole) == lone(n, n - 1, q15_scale_spec(w_m, damp)));
        assert(q15_scale_spec(w_m, damp) == damp_pow(v, damp, (m + 1) as nat));
    }
}


} // verus!
