//! The seeded random source every builder step draws from.
//!
//! Determinism is load-bearing: the same seed and the same sequence of calls
//! must give the same draws, since that is what makes snapshot replay and
//! testing meaningful.  Each draw's result is therefore pinned, in the
//! contracts below, to a spec-level function of the generator state, and the
//! generator is threaded explicitly through the builder chain rather than
//! hidden in process-wide state.

use vstd::prelude::*;

verus! {

/// The state a generator starts from for a given seed.  Seed zero is mapped
/// to a fixed non-zero constant, since the all-zero state is a fixed point
/// of the xorshift step.
pub open spec fn seed_state(seed: u64) -> u64 {
    if seed == 0 {
        0x9e3779b97f4a7c15
    } else {
        seed
    }
}

/// One xorshift step of the generator state.
pub open spec fn next_state(s: u64) -> u64 {
    let a = s ^ (s << 13);
    let b = a ^ (a >> 7);
    b ^ (b << 17)
}

/// The value `range` returns from state `s`: uniform over `[min, max)`
/// (minimum inclusive, maximum exclusive).
pub open spec fn range_result(s: u64, min: int, max: int) -> int
    recommends
        min < max,
{
    min + (next_state(s) % ((max - min) as u64)) as int
}

/// The state after `n` draws.
pub open spec fn roll_state(s: u64, n: int) -> u64
    decreases n,
{
    if n <= 0 {
        s
    } else {
        roll_state(next_state(s), n - 1)
    }
}

/// The sum of `n` dice of `die` sides rolled from state `s`, each die a
/// uniform draw in `[1, die]`.
pub open spec fn roll_result(s: u64, n: int, die: int) -> int
    decreases n,
{
    if n <= 0 {
        0
    } else {
        range_result(s, 1, die + 1) + roll_result(next_state(s), n - 1, die)
    }
}

/// Drawing `a` times and then `b` times lands on the same state as
/// drawing `a + b` times.
pub proof fn lemma_roll_state_add(s: u64, a: int, b: int)
    requires
        0 <= a,
        0 <= b,
    ensures
        roll_state(roll_state(s, a), b) == roll_state(s, a + b),
    decreases a,
{
    if a > 0 {
        lemma_roll_state_add(next_state(s), a - 1, b);
    }
}

/// A seeded pseudo-random generator.  Every draw advances the state by
/// `next_state`, so the whole stream is a function of the seed alone.
pub struct RandomSource {
    state: u64,
}

impl View for RandomSource {
    type V = u64;

    closed spec fn view(&self) -> u64 {
        self.state
    }
}

impl RandomSource {
    /// A generator whose stream is determined by `seed`.
    pub fn seeded(seed: u64) -> (rng: RandomSource)
        ensures
            rng@ == seed_state(seed),
    {
        if seed == 0 {
            RandomSource { state: 0x9e3779b97f4a7c15 }
        } else {
            RandomSource { state: seed }
        }
    }

    /// The next raw draw.
    pub fn next_u64(&mut self) -> (r: u64)
        ensures
            final(self)@ == next_state(old(self)@),
            r == next_state(old(self)@),
    {
        let mut s: u64 = self.state;
        s = s ^ (s << 13);
        s = s ^ (s >> 7);
        s = s ^ (s << 17);
        self.state = s;
        s
    }

    /// A uniform draw in `[min, max)`: minimum inclusive, maximum exclusive.
    pub fn range(&mut self, min: i32, max: i32) -> (r: i32)
        requires
            min < max,
        ensures
            min <= r < max,
            r == range_result(old(self)@, min as int, max as int),
            final(self)@ == next_state(old(self)@),
    {
        let raw: u64 = self.next_u64();
        let span: u64 = ((max as i64) - (min as i64)) as u64;
        let offset: u64 = raw % span;
        ((min as i64) + (offset as i64)) as i32
    }

    /// The sum of `n` uniform draws in `[1, die]`.
    pub fn roll_dice(&mut self, n: i32, die: i32) -> (r: i32)
        requires
            0 <= n <= 10000,
            1 <= die <= 10000,
        ensures
            n <= r <= n * die,
            r == roll_result(old(self)@, n as int, die as int),
            final(self)@ == roll_state(old(self)@, n as int),
    {
        let mut sum: i32 = 0;
        let mut i: i32 = 0;
        while i < n
            invariant
                0 <= i <= n,
                0 <= n <= 10000,
                1 <= die <= 10000,
                i <= sum <= i * die,
                roll_result(old(self)@, n as int, die as int) == sum + roll_result(
                    self@,
                    (n - i) as int,
                    die as int,
                ),
                roll_state(old(self)@, n as int) == roll_state(self@, (n - i) as int),
            decreases n - i,
        {
            let v: i32 = self.range(1, die + 1);
            proof {
                lemma_partial_sum_bound(i as int, sum as int, v as int, die as int);
            }
            sum = sum + v;
            i = i + 1;
        }
        sum
    }
}

/// Adding one in-range die to a bounded partial sum keeps it bounded.
proof fn lemma_partial_sum_bound(i: int, sum: int, v: int, die: int)
    by (nonlinear_arith)
    requires
        0 <= i,
        i + 1 <= 10000,
        1 <= die <= 10000,
        i <= sum <= i * die,
        1 <= v <= die,
    ensures
        i + 1 <= sum + v <= (i + 1) * die,
        (i + 1) * die <= 100000000,
{
}

/// A fresh generator for the given seed; the start of every level build.
pub fn reseed(seed: u64) -> (rng: RandomSource)
    ensures
        rng@ == seed_state(seed),
{
    RandomSource::seeded(seed)
}

/// The sum of `n` dice of `die_type` sides drawn from `rng`.
pub fn roll_dice(rng: &mut RandomSource, n: i32, die_type: i32) -> (r: i32)
    requires
        0 <= n <= 10000,
        1 <= die_type <= 10000,
    ensures
        n <= r <= n * die_type,
        r == roll_result(old(rng)@, n as int, die_type as int),
        final(rng)@ == roll_state(old(rng)@, n as int),
{
    rng.roll_dice(n, die_type)
}

/// A uniform draw in `[min, max)` from `rng`.
pub fn range(rng: &mut RandomSource, min: i32, max: i32) -> (r: i32)
    requires
        min < max,
    ensures
        min <= r < max,
        r == range_result(old(rng)@, min as int, max as int),
        final(rng)@ == next_state(old(rng)@),
{
    rng.range(min, max)
}

} // verus!
