//! What a phase sees of the world in one tick, what it may ask for, and the
//! contract that every phase keeps.

use vstd::prelude::*;
use crate::robot_node::RobotNode;
use crate::types::{GridMap, GridModel, RobotModel, RobotPhase, RobotState};

verus! {

/// What a phase may read in one tick: a snapshot of all agents and the
/// ground-truth map.
pub struct PhaseContext<'a> {
    pub all_robots: &'a [RobotNode],
    pub global_map: &'a GridMap,
}

/// Mathematical model of a [`PhaseContext`].
pub struct ContextModel {
    pub all: Seq<RobotModel>,
    pub global: GridModel,
}

/// The models of a sequence of agents.
pub open spec fn robot_models(nodes: Seq<RobotNode>) -> Seq<RobotModel> {
    Seq::new(nodes.len(), |i: int| nodes[i]@)
}

/// The model of the context made of a snapshot and a ground truth.
pub open spec fn context_model(all_robots: Seq<RobotNode>, global: GridModel) -> ContextModel {
    ContextModel { all: robot_models(all_robots), global }
}

impl ContextModel {
    /// Some agent of the snapshot has identifier `id`.
    pub open spec fn has_robot(self, id: u8) -> bool {
        exists|i: int| 0 <= i < self.all.len() && (#[trigger] self.all[i]).id == id
    }

    /// `i` is the position of the first agent of the snapshot with identifier `id`.
    pub open spec fn is_first_with_id(self, id: u8, i: int) -> bool {
        &&& 0 <= i < self.all.len()
        &&& self.all[i].id == id
        &&& forall|j: int| 0 <= j < i ==> (#[trigger] self.all[j]).id != id
    }

    /// The first agent of the snapshot with identifier `id`, meaningful where there is one.
    pub open spec fn robot_with(self, id: u8) -> RobotModel {
        self.all[choose|i: int| self.is_first_with_id(id, i)]
    }

    /// The context fits the agent: the ground truth is well formed and has
    /// the shape of the agent's map, and the agent's partner is in the
    /// snapshot.
    pub open spec fn admits(self, state: RobotModel) -> bool {
        &&& self.global.wf()
        &&& self.global.same_shape(state.map)
        &&& self.has_robot(state.partner_id)
    }
}

impl<'a> View for PhaseContext<'a> {
    type V = ContextModel;

    open spec fn view(&self) -> ContextModel {
        context_model(self.all_robots@, self.global_map@)
    }
}

/// The first agent with a given identifier is unique.
pub proof fn lemma_first_with_id_unique(context: ContextModel, id: u8, i: int)
    requires
        context.is_first_with_id(id, i),
    ensures
        context.robot_with(id) == context.all[i],
        context.has_robot(id),
{
    let k = choose|k: int| context.is_first_with_id(id, k);
    assert(context.is_first_with_id(id, k));
    if k < i {
        assert(context.all[k].id != id);
    } else if i < k {
        assert(context.all[i].id != id);
    }
}

impl<'a> PhaseContext<'a> {
    /// The first agent of the snapshot with identifier `id`.
    pub fn robot_with(&self, id: u8) -> (found: &RobotNode)
        requires
            self@.has_robot(id),
        ensures
            found@ == self@.robot_with(id),
    {
        proof {
            let k = choose|k: int| 0 <= k < self@.all.len() && (#[trigger] self@.all[k]).id == id;
            assert(0 < self.all_robots@.len());
        }
        let mut i: usize = 0;
        loop
            invariant
                i < self.all_robots@.len(),
                self@.has_robot(id),
                forall|j: int| 0 <= j < i ==> (#[trigger] self@.all[j]).id != id,
            decreases self.all_robots@.len() - i,
        {
            assert(self@.all[i as int] == self.all_robots@[i as int]@);
            if self.all_robots[i].state.id == id {
                proof {
                    lemma_first_with_id_unique(self@, id, i as int);
                }
                return &self.all_robots[i];
            }
            proof {
                let k = choose|k: int|
                    0 <= k < self@.all.len() && (#[trigger] self@.all[k]).id == id;
                assert(k > i);
            }
            i += 1;
        }
    }
}

/// What a phase asks of the agent after a step.
#[derive(Copy, Clone, PartialEq, Eq, Debug, Structural)]
pub enum PhaseTransition {
    /// Stay in the current phase.
    Continue,
    /// Enter the given phase.
    Transition(RobotPhase),
    /// Nothing is left to do.
    Complete,
}

/// One phase of the agent's machine.
pub trait RobotPhaseBehavior {
    /// The agent after one step of this phase, and the transition the step asks for.
    spec fn step(&self, state: RobotModel, context: ContextModel) -> (RobotModel, PhaseTransition);

    /// The counters that the step increases stay within their machine types.
    spec fn fits(&self, state: RobotModel, context: ContextModel) -> bool;

    /// The phase that this behaviour belongs to.
    spec fn phase(&self) -> RobotPhase;

    /// Performs one step of the phase on `robot_state`.
    fn execute(&mut self, robot_state: &mut RobotState, context: &PhaseContext) -> (transition:
        PhaseTransition)
        requires
            old(robot_state)@.wf(),
            context@.admits(old(robot_state)@),
            old(self).fits(old(robot_state)@, context@),
        ensures
            (final(robot_state)@, transition) == old(self).step(old(robot_state)@, context@),
            final(robot_state)@.wf(),
            final(robot_state)@.map.same_shape(old(robot_state)@.map),
    ;

    /// The phase that this behaviour belongs to.
    fn phase_type(&self) -> (phase: RobotPhase)
        ensures
            phase == self.phase(),
    ;

    /// Called when the agent enters the phase, so that the phase can set up
    /// its state; does nothing unless overridden. Whatever it does, the agent
    /// stays well formed on a map of the same shape, and stays who it is.
    fn on_enter(&mut self, _robot_state: &mut RobotState)
        ensures
            old(_robot_state)@.wf() ==> final(_robot_state)@.wf(),
            final(_robot_state)@.map.same_shape(old(_robot_state)@.map),
            final(_robot_state)@.id == old(_robot_state)@.id,
            final(_robot_state)@.partner_id == old(_robot_state)@.partner_id,
    {
    }

    /// Called when the agent leaves the phase, so that the phase can clean up
    /// its state; does nothing unless overridden. Whatever it does, the agent
    /// stays well formed on a map of the same shape, and stays who it is.
    fn on_exit(&mut self, _robot_state: &mut RobotState)
        ensures
            old(_robot_state)@.wf() ==> final(_robot_state)@.wf(),
            final(_robot_state)@.map.same_shape(old(_robot_state)@.map),
            final(_robot_state)@.id == old(_robot_state)@.id,
            final(_robot_state)@.partner_id == old(_robot_state)@.partner_id,
    {
    }
}

} // verus!
