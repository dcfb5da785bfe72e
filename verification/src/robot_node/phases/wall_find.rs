//! The first phase: walk north until an obstacle is seen one step ahead.

use vstd::prelude::*;
use crate::robot_node::phase_trait::{ContextModel, PhaseContext, PhaseTransition, RobotPhaseBehavior};
use crate::types::{point_at, CellState, GridModel, Pose, Point, RobotModel, RobotPhase, RobotState};

verus! {

/// One step of wall finding.
///
/// When the cell north of the agent is an obstacle in the agent's own map (or
/// lies beyond the border), the agent stays and asks for boundary scouting.
/// Otherwise it steps north, keeping its heading, and marks the cell it
/// entered as empty.
pub open spec fn wall_find_step(state: RobotModel) -> (RobotModel, PhaseTransition) {
    let x = state.pose.position.x as int;
    let y = state.pose.position.y - 1;
    if state.map.cell_or_obstacle(x, y) == CellState::Obstacle {
        (state, PhaseTransition::Transition(RobotPhase::BoundaryScouting))
    } else {
        (
            RobotModel {
                pose: Pose { position: point_at(x, y), ..state.pose },
                map: state.map.with_cell(x, y, CellState::Empty),
                ..state
            },
            PhaseTransition::Continue,
        )
    }
}

/// A wall-finding step keeps a well-formed agent well formed and on a map of
/// the same shape, changes neither its identifiers nor its scout, and forgets
/// nothing that its map held.
pub proof fn lemma_wall_find_keeps_wf(state: RobotModel)
    requires
        state.wf(),
    ensures
        wall_find_step(state).0.wf(),
        wall_find_step(state).0.map.keeps_knowledge_of(state.map),
        wall_find_step(state).0.id == state.id,
        wall_find_step(state).0.partner_id == state.partner_id,
        wall_find_step(state).0.boundary_scout == state.boundary_scout,
{
    let x = state.pose.position.x as int;
    let y = state.pose.position.y - 1;
    if state.map.in_bounds(x, y) {
        crate::types::lemma_index_in_range(state.map, x, y);
    }
}

/// A wall-finding step of an agent whose map sees the cell north of it as
/// the ground truth has it keeps the agent and its path on passable cells.
pub proof fn lemma_wall_find_on_open_ground(state: RobotModel, truth: GridModel)
    requires
        state.wf(),
        truth.wf(),
        truth.same_shape(state.map),
        state.on_open_ground(truth),
        state.sees_front(truth),
    ensures
        wall_find_step(state).0.on_open_ground(truth),
{
}

/// The wall-finding phase.
#[derive(Debug, Clone, Copy)]
pub struct WallFindPhase;

impl RobotPhaseBehavior for WallFindPhase {
    open spec fn step(&self, state: RobotModel, context: ContextModel) -> (
        RobotModel,
        PhaseTransition,
    ) {
        wall_find_step(state)
    }

    open spec fn fits(&self, state: RobotModel, context: ContextModel) -> bool {
        true
    }

    open spec fn phase(&self) -> RobotPhase {
        RobotPhase::InitialWallFind
    }

    fn execute(&mut self, robot_state: &mut RobotState, _context: &PhaseContext) -> (transition:
        PhaseTransition) {
        let (next_pos, cell) = Self::sense_front(robot_state);
        match cell {
            Some(CellState::Obstacle) => PhaseTransition::Transition(RobotPhase::BoundaryScouting),
            _ => {
                robot_state.pose.position = next_pos;
                robot_state.map.set(next_pos.x, next_pos.y, CellState::Empty);
                PhaseTransition::Continue
            },
        }
    }

    fn phase_type(&self) -> (phase: RobotPhase) {
        RobotPhase::InitialWallFind
    }
}

impl WallFindPhase {
    /// The cell north of the agent and what the agent's own map says of it,
    /// with everything beyond the border read as an obstacle.
    pub fn sense_front(robot_state: &RobotState) -> (front: (Point, Option<CellState>))
        requires
            robot_state@.wf(),
        ensures
            front.0 == point_at(
                robot_state.pose.position.x as int,
                robot_state.pose.position.y - 1,
            ),
            front.1 == Some(
                robot_state@.map.cell_or_obstacle(
                    robot_state.pose.position.x as int,
                    robot_state.pose.position.y - 1,
                ),
            ),
    {
        let next_pos = Point { x: robot_state.pose.position.x, y: robot_state.pose.position.y - 1 };
        (next_pos, Some(robot_state.map.at_or_obstacle(next_pos.x, next_pos.y)))
    }
}

} // verus!
