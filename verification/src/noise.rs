//! Noise generators: white noise, and pink noise by the Voss-McCartney
//! octave-summation algorithm, both drawing from a reproducible seeded
//! pseudo-random generator.

use vstd::prelude::*;
use crate::module::{SoundModule, SamplingParameters};
use crate::signal::SignalGenerator;

verus! {

/// The `i`-th 32-bit draw of the xorshift stream started from `seed`: the
/// generator is deterministic, so each draw is a function of the seed and of
/// how many draws came before it.
pub uninterp spec fn xorshift_stream(seed: Seq<u8>, i: nat) -> u32;

/// The xorshift generator of the rand crate, declared so that a value of it
/// can be carried through this module; Verus sees nothing inside it.
#[verifier::external_type_specification]
#[verifier::external_body]
pub struct ExXorShiftRng(rand::XorShiftRng);

/// A pseudo-random generator that remembers its initial seed, for
/// reproducible noise even across multiple plays of the same material.
pub struct ResettableRng {
    rng: rand::XorShiftRng,
    initial_seed: [u8; 16],
    position: Ghost<nat>,
}

/// Relies on rand's thread_rng and RngCore::fill_bytes: sixteen seed bytes
/// from the thread-local generator. Nothing is promised of their values.
#[verifier::external_body]
fn entropy_seed() -> (r: [u8; 16]) {
    let mut seed = [0u8; 16];
    rand::RngCore::fill_bytes(&mut rand::thread_rng(), &mut seed);
    seed
}

/// Relies on XorShiftRng::from_seed: the fresh generator stands at the start
/// of the stream that `seed` determines. Every draw is counted in
/// `position`, so `next_u32` can name its result.
#[verifier::external_body]
fn xorshift_from_seed(seed: [u8; 16]) -> (r: rand::XorShiftRng) {
    <rand::XorShiftRng as rand::SeedableRng>::from_seed(seed)
}

impl ResettableRng {
    /// The seed the generator was created from.
    pub closed spec fn seed_spec(&self) -> Seq<u8> {
        self.initial_seed@
    }

    /// How many draws have been taken since the last (re)seeding.
    pub closed spec fn position_spec(&self) -> nat {
        self.position@
    }

    /// A generator at the start of the stream determined by `seed`.
    pub fn from_seed(seed: [u8; 16]) -> (r: ResettableRng)
        ensures
            r.seed_spec() == seed@,
            r.position_spec() == 0,
    {
        ResettableRng { rng: xorshift_from_seed(seed), initial_seed: seed, position: Ghost(0) }
    }

    /// A generator seeded from the environment's entropy.
    pub fn from_entropy() -> (r: ResettableRng)
        ensures
            r.position_spec() == 0,
    {
        ResettableRng::from_seed(entropy_seed())
    }

    /// Relies on XorShiftRng::next_u32: the draw is a pure function of the
    /// seed and the number of draws before it, with the stream position
    /// maintained by this module alone.
    #[verifier::external_body]
    pub fn next_u32(&mut self) -> (r: u32)
        ensures
            final(self).seed_spec() == old(self).seed_spec(),
            final(self).position_spec() == old(self).position_spec() + 1,
            r == xorshift_stream(old(self).seed_spec(), old(self).position_spec()),
    {
        proof {
            self.position@ = self.position@ + 1;
        }
        rand::RngCore::next_u32(&mut self.rng)
    }

    /// Rewind to the start of the stream by reseeding with the stored seed.
    pub fn reset(&mut self)
        ensures
            final(self).seed_spec() == old(self).seed_spec(),
            final(self).position_spec() == 0,
    {
        self.rng = xorshift_from_seed(self.initial_seed);
        proof {
            self.position@ = 0;
        }
    }
}

/// A color of noise: how one output sample is computed from the pseudo-random
/// draws and the color's own state.
pub trait NoiseColor: Sized {
    /// Well-formedness of the color's state.
    spec fn color_inv(&self) -> bool;

    /// What one sample does: how the new state and the output relate to the
    /// old state, the seed, and the stream positions before and after.
    spec fn color_rel(
        pre: Self,
        post: Self,
        seed: Seq<u8>,
        pos_pre: nat,
        pos_post: nat,
        out: i64,
    ) -> bool;

    /// What a reset leaves behind: the freshly constructed state.
    spec fn reset_color_rel(pre: Self, post: Self) -> bool;

    /// Produce the next sample of this color from the generator.
    fn next(&mut self, rng: &mut ResettableRng) -> (r: i64)
        requires
            old(self).color_inv(),
        ensures
            final(self).color_inv(),
            final(rng).seed_spec() == old(rng).seed_spec(),
            Self::color_rel(
                *old(self),
                *final(self),
                old(rng).seed_spec(),
                old(rng).position_spec(),
                final(rng).position_spec(),
                r,
            ),
    ;

    /// Clear the color's accumulated state.
    fn reset(&mut self)
        requires
            old(self).color_inv(),
        ensures
            final(self).color_inv(),
            Self::reset_color_rel(*old(self), *final(self)),
    ;
}

/// A uniform sample in the full-scale range computed from one draw.
pub open spec fn white_sample(draw: u32) -> i64 {
    ((draw as int) % 65535 - 32767) as i64
}

/// White noise: every sample is an independent uniform draw.
#[derive(Debug, Clone)]
pub struct White;

impl NoiseColor for White {
    open spec fn color_inv(&self) -> bool {
        true
    }

    open spec fn color_rel(
        pre: Self,
        post: Self,
        seed: Seq<u8>,
        pos_pre: nat,
        pos_post: nat,
        out: i64,
    ) -> bool {
        &&& pos_post == pos_pre + 1
        &&& out == white_sample(xorshift_stream(seed, pos_pre))
    }

    open spec fn reset_color_rel(pre: Self, post: Self) -> bool {
        true
    }

    fn next(&mut self, rng: &mut ResettableRng) -> (r: i64) {
        let draw = rng.next_u32();
        ((draw % 65535) as i64) - 32767
    }

    fn reset(&mut self) {
    }
}

/// A 24-bit signed noise value taken from one draw.
pub open spec fn noise24(draw: u32) -> i64 {
    ((draw as int) / 256 - 8388608) as i64
}

fn noise24_exec(draw: u32) -> (r: i64)
    ensures
        r == noise24(draw),
        -8388608 <= r <= 8388607,
{
    ((draw / 256) as i64) - 8388608
}

/// Division by 4096 truncating toward zero: scales the octave sum into the
/// full-scale sample range.
pub open spec fn shrink4096(x: int) -> int {
    if x >= 0 {
        x / 4096
    } else {
        -((-x) / 4096)
    }
}

/// The sum of a sequence of samples.
pub open spec fn seq_sum(s: Seq<i64>) -> int
    decreases s.len(),
{
    if s.len() == 0 {
        0
    } else {
        s[0] + seq_sum(s.drop_first())
    }
}

/// Updating one entry moves the sum by the difference.
proof fn lemma_seq_sum_update(s: Seq<i64>, j: int, v: i64)
    requires
        0 <= j < s.len(),
    ensures
        seq_sum(s.update(j, v)) == seq_sum(s) - s[j] + v,
    decreases s.len(),
{
    let s2 = s.update(j, v);
    if j == 0 {
        assert(s2.drop_first() =~= s.drop_first());
    } else {
        assert(s2.drop_first() =~= s.drop_first().update(j - 1, v));
        lemma_seq_sum_update(s.drop_first(), j - 1, v);
    }
}

/// A sequence of silent samples sums to silence.
proof fn lemma_seq_sum_zero(s: Seq<i64>)
    requires
        forall|j: int| 0 <= j < s.len() ==> #[trigger] s[j] == 0i64,
    ensures
        seq_sum(s) == 0,
    decreases s.len(),
{
    if s.len() > 0 {
        let rest = s.drop_first();
        assert(forall|j: int| 0 <= j < rest.len() ==> #[trigger] rest[j] == s[j + 1]);
        lemma_seq_sum_zero(rest);
    }
}

/// A sequence of bounded samples has a bounded sum.
proof fn lemma_seq_sum_bounds(s: Seq<i64>)
    requires
        forall|j: int| 0 <= j < s.len() ==> -8388608 <= #[trigger] s[j] <= 8388607,
    ensures
        -8388608 * s.len() <= seq_sum(s) <= 8388607 * s.len(),
    decreases s.len(),
{
    if s.len() > 0 {
        let rest = s.drop_first();
        assert(forall|j: int| 0 <= j < rest.len() ==> -8388608 <= #[trigger] rest[j] <= 8388607)
            by {
            assert(forall|j: int| 0 <= j < rest.len() ==> rest[j] == s[j + 1]);
        }
        lemma_seq_sum_bounds(rest);
        assert(-8388608 * s.len() == -8388608 * rest.len() + -8388608) by (nonlinear_arith)
            requires
                s.len() == rest.len() + 1,
        ;
        assert(8388607 * s.len() == 8388607 * rest.len() + 8388607) by (nonlinear_arith)
            requires
                s.len() == rest.len() + 1,
        ;
    }
}

/// The number of trailing binary zeros of `m`, up to `fuel` of them.
pub open spec fn trailing_zeros_below(m: int, fuel: nat) -> nat
    decreases fuel,
{
    if fuel == 0 {
        0
    } else if m % 2 == 1 {
        0
    } else {
        (1 + trailing_zeros_below(m / 2, (fuel - 1) as nat)) as nat
    }
}

/// The octave that a step refreshes: the number of trailing zeros of the step
/// counter, with the highest octave refreshed on the all-zeros count.
pub open spec fn octave_of(counter: u32) -> nat {
    trailing_zeros_below(counter as int, 14)
}

proof fn lemma_octave_bound(m: int, fuel: nat)
    ensures
        trailing_zeros_below(m, fuel) <= fuel,
    decreases fuel,
{
    if fuel > 0 && m % 2 != 1 {
        lemma_octave_bound(m / 2, (fuel - 1) as nat);
    }
}

fn octave_of_exec(counter: u32) -> (r: usize)
    ensures
        r as nat == octave_of(counter),
        r <= 14,
{
    let mut t: usize = 0;
    let mut m: u32 = counter;
    proof {
        lemma_octave_bound(counter as int, 14);
    }
    while t < 14 && m % 2 == 0
        invariant
            t <= 14,
            octave_of(counter) == t + trailing_zeros_below(m as int, (14 - t) as nat),
        decreases 14 - t,
    {
        m = m / 2;
        t = t + 1;
    }
    proof {
        if t < 14 {
            assert(m % 2 == 1);
            assert(trailing_zeros_below(m as int, (14 - t) as nat) == 0);
        }
    }
    t
}

/// Pink noise state, after Voss and McCartney: one recent random value per
/// octave, refreshed at geometrically staggered rates, plus the running sum
/// of all octaves, maintained incrementally.
#[derive(Debug, Clone)]
pub struct Pink {
    /// The current random values of the octaves.
    octaves: Vec<i64>,
    /// The number of trailing zeros of the counter picks the octave that is
    /// refreshed in the current step.
    counter: u32,
    /// The current sum of all octaves.
    running_sum: i64,
}

impl Pink {
    pub closed spec fn octaves_spec(&self) -> Seq<i64> {
        self.octaves@
    }

    pub closed spec fn counter_spec(&self) -> u32 {
        self.counter
    }

    pub closed spec fn sum_spec(&self) -> i64 {
        self.running_sum
    }

    /// A fresh pink state: counter and every octave at zero.
    pub fn new() -> (r: Pink)
        ensures
            r.color_inv(),
            r.counter_spec() == 0u32,
            r.sum_spec() == 0i64,
            r.octaves_spec() == Seq::new(15, |t: int| 0i64),
    {
        let mut octaves: Vec<i64> = Vec::new();
        while octaves.len() < 15
            invariant
                octaves@.len() <= 15,
                forall|j: int| 0 <= j < octaves@.len() ==> octaves@[j] == 0i64,
            decreases 15 - octaves@.len(),
        {
            octaves.push(0);
        }
        proof {
            assert(octaves@ =~= Seq::new(15, |t: int| 0i64));
            lemma_seq_sum_zero(octaves@);
        }
        Pink { octaves, counter: 0, running_sum: 0 }
    }
}

impl NoiseColor for Pink {
    /// Fifteen bounded octaves, a wrapped counter, and the invariant that the
    /// running sum always equals the exact sum of the octaves.
    open spec fn color_inv(&self) -> bool {
        &&& self.octaves_spec().len() == 15
        &&& self.counter_spec() < 16384
        &&& forall|j: int| 0 <= j < 15 ==> -8388608 <= #[trigger] self.octaves_spec()[j] <= 8388607
        &&& self.sum_spec() as int == seq_sum(self.octaves_spec())
    }

    open spec fn color_rel(
        pre: Self,
        post: Self,
        seed: Seq<u8>,
        pos_pre: nat,
        pos_post: nat,
        out: i64,
    ) -> bool {
        let oct = octave_of(pre.counter_spec()) as int;
        let fresh_value = noise24(xorshift_stream(seed, pos_pre));
        let extra = noise24(xorshift_stream(seed, (pos_pre + 1) as nat));
        &&& pos_post == pos_pre + 2
        &&& post.octaves_spec() == pre.octaves_spec().update(oct, fresh_value)
        &&& post.counter_spec() as int == (pre.counter_spec() + 1) as int % 16384
        &&& post.sum_spec() as int == pre.sum_spec() - pre.octaves_spec()[oct] + fresh_value
        &&& out as int == shrink4096(post.sum_spec() + extra)
    }

    open spec fn reset_color_rel(pre: Self, post: Self) -> bool {
        &&& post.counter_spec() == 0u32
        &&& post.sum_spec() == 0i64
        &&& post.octaves_spec() == Seq::new(15, |t: int| 0i64)
    }

    fn next(&mut self, rng: &mut ResettableRng) -> (r: i64) {
        let cur_octave = octave_of_exec(self.counter);
        let previous = self.octaves[cur_octave];
        let fresh_value = noise24_exec(rng.next_u32());
        proof {
            lemma_seq_sum_bounds(self.octaves@);
            lemma_seq_sum_update(self.octaves@, cur_octave as int, fresh_value);
        }
        self.running_sum = self.running_sum - previous + fresh_value;
        self.octaves.set(cur_octave, fresh_value);
        self.counter = (self.counter + 1) % 16384;
        let extra = noise24_exec(rng.next_u32());
        proof {
            lemma_seq_sum_bounds(self.octaves@);
        }
        let q: i64 = self.running_sum + extra;
        if q >= 0 {
            q / 4096
        } else {
            -((-q) / 4096)
        }
    }

    fn reset(&mut self) {
        self.counter = 0;
        self.running_sum = 0;
        let mut i: usize = 0;
        while i < 15
            invariant
                self.octaves@.len() == 15,
                self.counter == 0u32,
                self.running_sum == 0i64,
                i <= 15,
                forall|j: int| 0 <= j < i ==> self.octaves@[j] == 0i64,
            decreases 15 - i,
        {
            self.octaves.set(i, 0);
            i = i + 1;
        }
        proof {
            assert(self.octaves@ =~= Seq::new(15, |t: int| 0i64));
            lemma_seq_sum_zero(self.octaves@);
        }
    }
}

/// A noise generator: a seeded pseudo-random source driving a noise color.
pub struct Noise<C> {
    rng: ResettableRng,
    color: C,
}

impl<C> Noise<C> {
    pub closed spec fn seed_spec(&self) -> Seq<u8> {
        self.rng.seed_spec()
    }

    pub closed spec fn position_spec(&self) -> nat {
        self.rng.position_spec()
    }

    pub closed spec fn color_spec(&self) -> C {
        self.color
    }

    /// A noise generator of the given color, seeded from entropy.
    pub fn new(color: C) -> (r: Noise<C>)
        ensures
            r.color_spec() == color,
            r.position_spec() == 0,
    {
        Noise { rng: ResettableRng::from_entropy(), color }
    }

    /// A noise generator of the given color with a caller-chosen seed: two
    /// generators built from the same seed produce identical sample streams.
    pub fn with_seed(seed: [u8; 16], color: C) -> (r: Noise<C>)
        ensures
            r.color_spec() == color,
            r.seed_spec() == seed@,
            r.position_spec() == 0,
    {
        Noise { rng: ResettableRng::from_seed(seed), color }
    }
}

/// White noise seeded from entropy.
pub fn white_noise() -> (r: Noise<White>)
    ensures
        r.position_spec() == 0,
        r.color_spec() == White,
{
    Noise::new(White)
}

/// Pink noise seeded from entropy.
pub fn pink_noise() -> (r: Noise<Pink>)
    ensures
        r.position_spec() == 0,
        r.color_spec().color_inv(),
        Pink::reset_color_rel(r.color_spec(), r.color_spec()),
{
    let color = Pink::new();
    Noise::new(color)
}

impl<C: NoiseColor> SoundModule for Noise<C> {
    open spec fn inv(&self) -> bool {
        self.color_spec().color_inv()
    }

    open spec fn reset_rel(pre: Self, post: Self) -> bool {
        &&& post.seed_spec() == pre.seed_spec()
        &&& post.position_spec() == 0
        &&& C::reset_color_rel(pre.color_spec(), post.color_spec())
    }

    open spec fn config_rel(pre: Self, post: Self, rate: u32) -> bool {
        post == pre
    }

    /// Rewind the pseudo-random stream to its seed and clear the color state:
    /// replaying after a reset is identical to a fresh generator on the same
    /// seed.
    fn reset(&mut self) {
        self.rng.reset();
        self.color.reset();
    }

    fn set_sampling_parameters(&mut self, _params: &SamplingParameters) {
    }
}

impl<C: NoiseColor> SignalGenerator for Noise<C> {
    type Output = i64;

    open spec fn gen_rel(pre: Self, post: Self, out: i64) -> bool {
        &&& post.seed_spec() == pre.seed_spec()
        &&& C::color_rel(
            pre.color_spec(),
            post.color_spec(),
            pre.seed_spec(),
            pre.position_spec(),
            post.position_spec(),
            out,
        )
    }

    fn next(&mut self) -> (r: i64) {
        self.color.next(&mut self.rng)
    }
}

/// After a reset, a pink generator stands exactly where a freshly seeded one
/// does: same seed, the stream rewound to its start, and the octave state
/// cleared. Replaying it therefore reproduces the original sequence.
pub proof fn lemma_pink_reset_matches_fresh(
    pre: Noise<Pink>,
    post: Noise<Pink>,
    fresh: Noise<Pink>,
)
    requires
        Noise::<Pink>::reset_rel(pre, post),
        fresh.seed_spec() == pre.seed_spec(),
        fresh.position_spec() == 0,
        fresh.color_spec().counter_spec() == 0u32,
        fresh.color_spec().sum_spec() == 0i64,
        fresh.color_spec().octaves_spec() == Seq::new(15, |t: int| 0i64),
    ensures
        post.seed_spec() == fresh.seed_spec(),
        post.position_spec() == fresh.position_spec(),
        post.color_spec().octaves_spec() == fresh.color_spec().octaves_spec(),
        post.color_spec().counter_spec() == fresh.color_spec().counter_spec(),
        post.color_spec().sum_spec() == fresh.color_spec().sum_spec(),
{
}

/// Pink-noise determinism: two pink generators at the same seed, stream
/// position and octave state produce the same sample and move to states that
/// again agree, so equal seeds give bit-identical sequences; together with
/// `reset`, which rewinds the stream and clears the octave state, a reset
/// generator replays its original output exactly.
pub proof fn lemma_pink_noise_deterministic(
    a_pre: Noise<Pink>,
    a_post: Noise<Pink>,
    b_pre: Noise<Pink>,
    b_post: Noise<Pink>,
    out_a: i64,
    out_b: i64,
)
    requires
        a_pre.seed_spec() == b_pre.seed_spec(),
        a_pre.position_spec() == b_pre.position_spec(),
        a_pre.color_spec().octaves_spec() == b_pre.color_spec().octaves_spec(),
        a_pre.color_spec().counter_spec() == b_pre.color_spec().counter_spec(),
        a_pre.color_spec().sum_spec() == b_pre.color_spec().sum_spec(),
        Noise::<Pink>::gen_rel(a_pre, a_post, out_a),
        Noise::<Pink>::gen_rel(b_pre, b_post, out_b),
    ensures
        out_a == out_b,
        a_post.seed_spec() == b_post.seed_spec(),
        a_post.position_spec() == b_post.position_spec(),
        a_post.color_spec().octaves_spec() == b_post.color_spec().octaves_spec(),
        a_post.color_spec().counter_spec() == b_post.color_spec().counter_spec(),
        a_post.color_spec().sum_spec() == b_post.color_spec().sum_spec(),
{
}

} // verus!
