//! The interior sweep: with the exterior wall closed the mission is complete,
//! so the phase ends the run as soon as both agents have reached it.

use vstd::prelude::*;
use crate::robot_node::phase_trait::{ContextModel, PhaseContext, PhaseTransition, RobotPhaseBehavior};
use crate::types::{RobotModel, RobotPhase, RobotState};

verus! {

/// One step of the interior sweep: the agent waits until its partner is in
/// the interior sweep too, then goes idle. The agent itself does not change.
pub open spec fn sweep_step(state: RobotModel, context: ContextModel) -> (
    RobotModel,
    PhaseTransition,
) {
    if context.robot_with(state.partner_id).phase == RobotPhase::InteriorSweep {
        (state, PhaseTransition::Transition(RobotPhase::Idle))
    } else {
        (state, PhaseTransition::Continue)
    }
}

/// The interior-sweep phase.
#[derive(Debug, Clone, Copy)]
pub struct InteriorSweepPhase;

impl RobotPhaseBehavior for InteriorSweepPhase {
    open spec fn step(&self, state: RobotModel, context: ContextModel) -> (
        RobotModel,
        PhaseTransition,
    ) {
        sweep_step(state, context)
    }

    open spec fn fits(&self, state: RobotModel, context: ContextModel) -> bool {
        true
    }

    open spec fn phase(&self) -> RobotPhase {
        RobotPhase::InteriorSweep
    }

    fn execute(&mut self, robot_state: &mut RobotState, context: &PhaseContext) -> (transition:
        PhaseTransition) {
        let partner = context.robot_with(robot_state.partner_id);
        if partner.state.phase != RobotPhase::InteriorSweep {
            return PhaseTransition::Continue;
        }
        PhaseTransition::Transition(RobotPhase::Idle)
    }

    fn phase_type(&self) -> (phase: RobotPhase) {
        RobotPhase::InteriorSweep
    }
}

} // verus!
