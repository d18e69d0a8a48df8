//! A small pseudo-random generator that gives the same values for the same seed.

use vstd::prelude::*;

verus! {

/// The multiplier of the generator.
pub const MULTIPLIER: u32 = 1664525;

/// The increment of the generator.
pub const INCREMENT: u32 = 1013904223;

/// The fraction that stands for `1.0`: fractions are counted in units of `2^-23`.
pub const FRACTION_ONE: u32 = 8388608;

/// The state that follows `state`.
pub open spec fn next_state(state: u32) -> u32 {
    ((state * MULTIPLIER + INCREMENT) % 0x1_0000_0000) as u32
}

/// The state after `n` steps from `seed`.
pub open spec fn state_after(seed: u32, n: nat) -> u32
    decreases n,
{
    if n == 0 {
        seed
    } else {
        next_state(state_after(seed, (n - 1) as nat))
    }
}

/// The `k`-th fraction that a generator started from `seed` gives, counting from zero:
/// the upper 23 bits of its state after `k + 1` steps.
pub open spec fn fraction_at(seed: u32, k: nat) -> nat {
    (state_after(seed, k + 1) / 512) as nat
}

/// A linear congruential generator.
#[derive(Clone, Copy, Debug, PartialEq, Eq, Structural)]
pub struct SimpleRng {
    state: u32,
}

impl SimpleRng {
    /// The state of the generator.
    pub closed spec fn state(self) -> u32 {
        self.state
    }

    /// A generator started from `seed`, in contracts.
    pub closed spec fn new_spec(seed: u32) -> SimpleRng {
        SimpleRng { state: seed }
    }

    /// A generator started from `seed`.
    #[verifier::when_used_as_spec(new_spec)]
    pub fn new(seed: u32) -> (rng: SimpleRng)
        ensures
            rng == SimpleRng::new_spec(seed),
            rng.state() == seed,
    {
        SimpleRng { state: seed }
    }

    /// The state of the generator: the seed of what it gives from here on.
    pub fn seed(&self) -> (state: u32)
        ensures
            state == self.state(),
    {
        self.state
    }

    /// Steps the generator and gives its new state.
    pub fn gen(&mut self) -> (value: u32)
        ensures
            value == next_state(old(self).state()),
            final(self).state() == value,
    {
        assert(0 <= self.state * 1664525 <= 0xffff_ffff * 1664525) by (nonlinear_arith)
            requires
                0 <= self.state <= 0xffff_ffff,
        ;
        let wide: u64 = (self.state as u64) * (MULTIPLIER as u64) + (INCREMENT as u64);
        self.state = (wide % 0x1_0000_0000) as u32;
        self.state
    }

    /// Steps the generator and gives a fraction of [`FRACTION_ONE`], at least zero and
    /// less than one.
    pub fn gen_fraction(&mut self) -> (value: u32)
        ensures
            value == next_state(old(self).state()) / 512,
            final(self).state() == next_state(old(self).state()),
            value < FRACTION_ONE,
    {
        self.gen() / 512
    }

    /// Stepping a generator that has made `n` steps from `seed` brings it to step `n + 1`,
    /// and the fraction it gives is the `n`-th of that seed.
    pub proof fn lemma_step(seed: u32, n: nat)
        ensures
            next_state(state_after(seed, n)) == state_after(seed, n + 1),
            next_state(state_after(seed, n)) / 512 == fraction_at(seed, n),
            fraction_at(seed, n) < FRACTION_ONE,
    {
    }
}

impl Default for SimpleRng {
    /// The generator that effects start from unless they are given another.
    fn default() -> (rng: SimpleRng)
        ensures
            rng == SimpleRng::new_spec(0x5eed_1e55),
            rng.state() == 0x5eed_1e55,
    {
        SimpleRng::new(0x5eed_1e55)
    }
}

} // verus!
