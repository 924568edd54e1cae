//! The combat resolution engine: condition evaluation, effect resolution,
//! trigger dispatch, status ticking and turn execution.

pub mod combat_state;
pub mod snapshot;
pub mod status_system;
pub mod trait_system;
pub mod turn_system;
pub mod upkeep;
