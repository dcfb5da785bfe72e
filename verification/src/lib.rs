//! Two cooperative agents exploring an unknown grid world.
//!
//! Every agent senses its four-neighbourhood, exchanges maps with its partner
//! when the two are close, and runs a phase machine that traces walls in legs
//! of doubling length and classifies the traced boundary by the difference of
//! the two agents' accumulated rotations.

pub mod constants;
pub mod map_loader;
pub mod map_manager;
pub mod robot_node;
pub mod sample_runs;
pub mod simulation_laws;
pub mod simulation_manager;
pub mod types;
