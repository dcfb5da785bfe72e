//! Boundary analysis: once both agents have met, the difference of their
//! rotation totals says what they traced.

use vstd::prelude::*;
use crate::constants::{ROBOT_LEFT_HAND, ROBOT_RIGHT_HAND};
use crate::robot_node::boundary_analysis::{classify_rotation, BoundaryAnalyzer};
use crate::robot_node::phase_trait::{ContextModel, PhaseContext, PhaseTransition, RobotPhaseBehavior};
use crate::robot_node::RobotNode;
use crate::types::{BoundaryAnalysisResult, RobotModel, RobotPhase, RobotState};

verus! {

/// The verdict of an agent and its partner on the boundary they traced.
///
/// The minuend is the rotation total of the agent with the left-hand
/// identifier, the subtrahend that of the agent with the right-hand
/// identifier, each taken from `state` where `state` has that identifier and
/// from `partner` otherwise.
pub open spec fn pair_verdict(state: RobotModel, partner: RobotModel) -> BoundaryAnalysisResult {
    classify_rotation(
        if state.id == ROBOT_LEFT_HAND {
            state.rotation_total()
        } else {
            partner.rotation_total()
        },
        if state.id == ROBOT_RIGHT_HAND {
            state.rotation_total()
        } else {
            partner.rotation_total()
        },
    )
}

/// The transition that a verdict asks for: island escape after an island,
/// the interior sweep after the exterior wall, and no change otherwise.
pub open spec fn transition_after(verdict: BoundaryAnalysisResult) -> PhaseTransition {
    match verdict {
        BoundaryAnalysisResult::Island => PhaseTransition::Transition(RobotPhase::IslandEscape),
        BoundaryAnalysisResult::ExteriorWall => PhaseTransition::Transition(
            RobotPhase::InteriorSweep,
        ),
        BoundaryAnalysisResult::Incomplete => PhaseTransition::Continue,
    }
}

/// One step of boundary analysis: the agent waits until its partner is in
/// boundary analysis too, then follows the verdict. The agent itself does not
/// change.
pub open spec fn analysis_step(state: RobotModel, context: ContextModel) -> (
    RobotModel,
    PhaseTransition,
) {
    let partner = context.robot_with(state.partner_id);
    if partner.phase == RobotPhase::BoundaryAnalysis {
        (state, transition_after(pair_verdict(state, partner)))
    } else {
        (state, PhaseTransition::Continue)
    }
}

/// The boundary-analysis phase.
#[derive(Debug, Clone, Copy)]
pub struct BoundaryAnalysisPhase;

impl RobotPhaseBehavior for BoundaryAnalysisPhase {
    open spec fn step(&self, state: RobotModel, context: ContextModel) -> (
        RobotModel,
        PhaseTransition,
    ) {
        analysis_step(state, context)
    }

    open spec fn fits(&self, state: RobotModel, context: ContextModel) -> bool {
        true
    }

    open spec fn phase(&self) -> RobotPhase {
        RobotPhase::BoundaryAnalysis
    }

    fn execute(&mut self, robot_state: &mut RobotState, context: &PhaseContext) -> (transition:
        PhaseTransition) {
        let partner = context.robot_with(robot_state.partner_id);
        if partner.state.phase == RobotPhase::BoundaryAnalysis {
            match Self::analyze_boundary_by_rotation(robot_state, partner) {
                BoundaryAnalysisResult::Island => PhaseTransition::Transition(
                    RobotPhase::IslandEscape,
                ),
                BoundaryAnalysisResult::ExteriorWall => PhaseTransition::Transition(
                    RobotPhase::InteriorSweep,
                ),
                BoundaryAnalysisResult::Incomplete => PhaseTransition::Continue,
            }
        } else {
            PhaseTransition::Continue
        }
    }

    fn phase_type(&self) -> (phase: RobotPhase) {
        RobotPhase::BoundaryAnalysis
    }
}

impl BoundaryAnalysisPhase {
    /// The verdict of an agent and its partner on the boundary they traced.
    pub fn analyze_boundary_by_rotation(robot_state: &RobotState, partner: &RobotNode) -> (verdict:
        BoundaryAnalysisResult)
        ensures
            verdict == pair_verdict(robot_state@, partner@),
    {
        let own = match &robot_state.boundary_scout {
            Some(scout) => Some(scout.total_rotation_steps),
            None => None,
        };
        let other = match &partner.state.boundary_scout {
            Some(scout) => Some(scout.total_rotation_steps),
            None => None,
        };
        let robot0_rotation = if robot_state.id == ROBOT_LEFT_HAND {
            own
        } else {
            other
        };
        let robot1_rotation = if robot_state.id == ROBOT_RIGHT_HAND {
            own
        } else {
            other
        };
        BoundaryAnalyzer::analyze_boundary_by_rotation(robot0_rotation, robot1_rotation)
    }
}

} // verus!
