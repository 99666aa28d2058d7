//! A xorshift64 generator: the deterministic source of the trusted party's
//! masks and coefficients.
use vstd::prelude::*;

verus! {

/// Seed used in place of zero, which is a fixed point of the step.
pub const ZERO_SEED_REPLACEMENT: u64 = 0x9e3779b97f4a7c15;

/// One xorshift step (shifts 13, 7, 17).
pub open spec fn xorshift_step(x: u64) -> u64 {
    let a = x ^ (x << 13u64);
    let b = a ^ (a >> 7u64);
    b ^ (b << 17u64)
}

/// The state after `k` steps from `s`.
pub open spec fn xorshift_iter(s: u64, k: nat) -> u64
    decreases k,
{
    if k == 0 {
        s
    } else {
        xorshift_step(xorshift_iter(s, (k - 1) as nat))
    }
}

/// The state a generator starts from for a given seed.
pub open spec fn seed_state(seed: u64) -> u64 {
    if seed == 0 {
        ZERO_SEED_REPLACEMENT
    } else {
        seed
    }
}

#[derive(Clone, Debug)]
pub struct XorShift64 {
    pub state: u64,
}

impl XorShift64 {
    pub fn new(seed: u64) -> (r: Self)
        ensures
            r.state == seed_state(seed),
    {
        let seed = if seed == 0 {
            ZERO_SEED_REPLACEMENT
        } else {
            seed
        };
        XorShift64 { state: seed }
    }

    /// Advances the state by one step and returns the new state.
    pub fn next_u64(&mut self) -> (r: u64)
        ensures
            r == xorshift_step(old(self).state),
            final(self).state == r,
    {
        let mut x = self.state;
        x = x ^ (x << 13u64);
        x = x ^ (x >> 7u64);
        x = x ^ (x << 17u64);
        self.state = x;
        x
    }

    /// A value in `[1, p)` drawn from the next state.
    pub fn next_field_nonzero(&mut self, p: u64) -> (r: u64)
        requires
            p > 1,
        ensures
            final(self).state == xorshift_step(old(self).state),
            r == 1 + final(self).state % ((p - 1) as u64),
            1 <= r < p,
    {
        1 + (self.next_u64() % (p - 1))
    }

    /// A value in `[0, p)` drawn from the next state.
    pub fn next_field(&mut self, p: u64) -> (r: u64)
        requires
            p > 0,
        ensures
            final(self).state == xorshift_step(old(self).state),
            r == final(self).state % p,
    {
        self.next_u64() % p
    }
}

} // verus!
