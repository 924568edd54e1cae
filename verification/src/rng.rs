//! The seeded generator every random decision of a run is drawn from.

use vstd::prelude::*;

verus! {

/// Multiplier of the congruential step.
pub const LCG_MUL: u64 = 6364136223846793005;

/// Mask folded into the seed.
pub const SEED_MASK: u64 = 0x9E37_79B9_7F4A_7C15;

/// The generator state reached from a seed.
pub open spec fn seeded(seed: u64) -> u64 {
    seed ^ SEED_MASK
}

/// The state that follows `state`.
pub open spec fn next_state(state: u64) -> u64 {
    state.wrapping_mul(LCG_MUL).wrapping_add(1)
}

/// The 32-bit draw read off a state: its upper half.
pub open spec fn draw_of(state: u64) -> u32 {
    (state >> 32) as u32
}

/// The index below `upper_exclusive` that a generator in `state` picks, and
/// the state it is left in. One or no choice costs no draw.
pub open spec fn range_of(state: u64, upper_exclusive: nat) -> (nat, u64) {
    if upper_exclusive <= 1 {
        (0, state)
    } else {
        ((draw_of(next_state(state)) as nat) % upper_exclusive, next_state(state))
    }
}

/// Small deterministic linear congruential generator.
#[derive(Clone, Copy, Debug)]
pub struct SimpleRng {
    pub state: u64,
}

impl SimpleRng {
    pub fn new(seed: u64) -> (rng: SimpleRng)
        ensures
            rng.state == seeded(seed),
    {
        SimpleRng { state: seed ^ SEED_MASK }
    }

    /// Advances the state once and returns its upper 32 bits.
    pub fn next_u32(&mut self) -> (draw: u32)
        ensures
            final(self).state == next_state(old(self).state),
            draw == draw_of(final(self).state),
    {
        self.state = self.state.wrapping_mul(LCG_MUL).wrapping_add(1);
        let s: u64 = self.state;
        assert((s >> 32) <= 0xffff_ffff) by (bit_vector);
        (s >> 32) as u32
    }

    /// A value in `0..upper_exclusive`; `0`, without a draw, when there is at most one choice.
    pub fn range_usize(&mut self, upper_exclusive: usize) -> (pick: usize)
        ensures
            pick == range_of(old(self).state, upper_exclusive as nat).0,
            final(self).state == range_of(old(self).state, upper_exclusive as nat).1,
            upper_exclusive > 0 ==> pick < upper_exclusive,
    {
        if upper_exclusive <= 1 {
            return 0;
        }
        let draw: u32 = self.next_u32();
        (draw as usize) % upper_exclusive
    }
}

} // verus!
