//! Deterministic, gauge-driven combat resolution.
//!
//! Every quantity is an integer in a fixed unit, so that two runs fed the same
//! seed and the same actions agree to the last digit:
//!
//! * hit points, damage and status power are counted in hundredths;
//! * multipliers are percentages, chances are ten-thousandths;
//! * time is in milliseconds, speed in hundredths of a gauge point per second;
//! * the action gauge is counted in `1e-8` points, which makes
//!   `speed x time x multiplier` exact.

pub mod battle;
pub mod engine;
pub mod event;
pub mod fixed;
pub mod log;
pub mod model;
pub mod rng;
pub mod run;
pub mod skill;
pub mod step_api;
pub mod text;
pub mod trait_spec;

use vstd::prelude::*;

verus! {

/// Multiplier of the demonstration generator.
pub const SIM_MUL: u32 = 1_664_525;

/// Increment of the demonstration generator.
pub const SIM_ADD: u32 = 1_013_904_223;

/// The state of the demonstration generator `steps` congruential steps after `state`.
pub open spec fn sim_state(state: u32, steps: nat) -> u32
    decreases steps,
{
    if steps == 0 {
        state
    } else {
        sim_state(state, (steps - 1) as nat).wrapping_mul(SIM_MUL).wrapping_add(SIM_ADD)
    }
}

/// Runs a tiny deterministic simulation: `steps` congruential steps from `seed`.
pub fn run_sim(seed: u32, steps: u32) -> (state: u32)
    ensures
        state == sim_state(seed, steps as nat),
{
    let mut state = seed;
    let mut done: u32 = 0;
    while done < steps
        invariant
            done <= steps,
            state == sim_state(seed, done as nat),
        decreases steps - done,
    {
        state = state.wrapping_mul(SIM_MUL).wrapping_add(SIM_ADD);
        done = done + 1;
    }
    state
}

/// Plays a whole run unattended and returns the number of nodes it cleared.
pub fn run_run(seed: u32, max_nodes: u32) -> (cleared: u32)
    ensures
        cleared == run::cleared_nodes(seed as u64, max_nodes),
        cleared <= run::node_limit(max_nodes),
{
    run::run_records(seed as u64, max_nodes).1
}

} // verus!
