//! Constants shared by the agents and the simulation driver.

use vstd::prelude::*;

verus! {

/// Largest Manhattan distance at which two agents can talk to each other.
pub const COMMUNICATION_RANGE: i32 = 2;

/// Length of the first scouting leg.
pub const INITIAL_SCOUT_DEPTH: u32 = 3;

/// Difference of the two rotation totals, in quarter turns, that marks a closed boundary.
pub const EXPECTED_ROTATION_DIFFERENCE: i32 = 4;

/// Unit step towards smaller `y`.
pub const NORTH: (i32, i32) = (0, -1);

/// Unit step towards larger `y`.
pub const SOUTH: (i32, i32) = (0, 1);

/// Unit step towards larger `x`.
pub const EAST: (i32, i32) = (1, 0);

/// Unit step towards smaller `x`.
pub const WEST: (i32, i32) = (-1, 0);

/// Number of ticks after which a run is cut off.
pub const MAX_SIMULATION_TICKS: usize = 500;

/// Identifier of the agent whose rotation total is the minuend of the analysis.
pub const ROBOT_LEFT_HAND: u8 = 0;

/// Identifier of the agent whose rotation total is the subtrahend of the analysis.
pub const ROBOT_RIGHT_HAND: u8 = 1;

/// Chirality that keeps the wall on the agent's left.
pub const LEFT_HAND_RULE: i8 = -1;

/// Chirality that keeps the wall on the agent's right.
pub const RIGHT_HAND_RULE: i8 = 1;

} // verus!
