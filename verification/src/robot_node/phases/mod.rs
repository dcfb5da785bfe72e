//! The phases of an agent's machine.

pub mod boundary_analysis;
pub mod boundary_scouting;
pub mod interior_sweep;
pub mod island_escape;
pub mod leg_laws;
pub mod wall_find;

pub use boundary_analysis::BoundaryAnalysisPhase;
pub use boundary_scouting::BoundaryScoutingPhase;
pub use interior_sweep::InteriorSweepPhase;
pub use island_escape::IslandEscapePhase;
pub use wall_find::WallFindPhase;
