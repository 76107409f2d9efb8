//! The deterministic xorshift generator behind piece draws and earth-row generation.
use vstd::prelude::*;

verus! {

/// Seed used in place of a zero seed, which would keep a xorshift state at zero forever.
pub open spec fn spec_rng_seed(seed: u64) -> u64 {
    if seed == 0 {
        0x9E37_79B9_7F4A_7C15u64
    } else {
        seed
    }
}

/// One xorshift64 state transition.
pub open spec fn spec_xorshift(x: u64) -> u64 {
    let a = x ^ (x >> 12u64);
    let b = a ^ (a << 25u64);
    b ^ (b >> 27u64)
}

/// The 32-bit output drawn from the state reached after a transition.
pub open spec fn spec_rng_output(x: u64) -> u32 {
    (x.wrapping_mul(0x2545_F491_4F6C_DD1Du64) >> 32u64) as u32
}

/// The state after `n` draws from `state`.
pub open spec fn spec_rng_advance(state: u64, n: nat) -> u64
    decreases n,
{
    if n == 0 {
        state
    } else {
        spec_xorshift(spec_rng_advance(state, (n - 1) as nat))
    }
}

#[derive(Debug, Clone, Copy)]
pub(crate) struct Rng {
    pub(crate) state: u64,
}

impl Rng {
    pub(crate) fn new(seed: u64) -> (r: Self)
        ensures
            r.state == spec_rng_seed(seed),
    {
        let seed = if seed == 0 {
            0x9E37_79B9_7F4A_7C15
        } else {
            seed
        };
        Self { state: seed }
    }

    pub(crate) fn next_u32(&mut self) -> (r: u32)
        ensures
            final(self).state == spec_xorshift(old(self).state),
            r == spec_rng_output(final(self).state),
    {
        let mut x = self.state;
        x ^= x >> 12;
        x ^= x << 25;
        x ^= x >> 27;
        self.state = x;
        (x.wrapping_mul(0x2545_F491_4F6C_DD1D) >> 32) as u32
    }
}

} // verus!
