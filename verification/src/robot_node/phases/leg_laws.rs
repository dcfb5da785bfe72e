//! Whole legs: what a run of scouting steps makes of an agent that nothing
//! disturbs.

use vstd::prelude::*;
use crate::robot_node::phase_trait::ContextModel;
use crate::robot_node::phases::boundary_scouting::{
    meets_partner,
    planned_move,
    scouting_fits,
    scouting_step,
};
use crate::types::RobotModel;

verus! {

/// The agent after one scouting step in each of the given contexts, one
/// after another.
pub open spec fn scouted(state: RobotModel, contexts: Seq<ContextModel>) -> RobotModel
    decreases contexts.len(),
{
    if contexts.len() == 0 {
        state
    } else {
        scouting_step(scouted(state, contexts.drop_last()), contexts.last()).0
    }
}

/// Nothing disturbs a scouting step: the counters have room, and an agent
/// with outbound steps left on its leg finds an open cell and does not meet
/// its partner there.
pub open spec fn quiet_step(state: RobotModel, context: ContextModel) -> bool {
    &&& scouting_fits(state, context)
    &&& (state.boundary_scout matches Some(scout) ==> (!scout.returning
        && scout.steps_taken_this_scouting_mission < state.scout_depth_n ==> (planned_move(
        state,
        scout,
        context,
    ) matches Some(next) && !meets_partner(state, scout, context, next))))
}

/// Nothing disturbs the step taken in the context at position `i`.
pub open spec fn quiet_at(state: RobotModel, contexts: Seq<ContextModel>, i: int) -> bool {
    quiet_step(scouted(state, contexts.take(i)), contexts[i])
}

/// Nothing disturbs any of the steps taken in the given contexts.
pub open spec fn undisturbed(state: RobotModel, contexts: Seq<ContextModel>) -> bool {
    forall|i: int| 0 <= i < contexts.len() ==> #[trigger] quiet_at(state, contexts, i)
}

/// The agent stands at the start of a leg: it has a scout, is not returning,
/// has counted no step of the leg, and its path holds its cell alone.
pub open spec fn at_leg_start(state: RobotModel) -> bool {
    state.boundary_scout matches Some(scout) && {
        &&& !scout.returning
        &&& scout.steps_taken_this_scouting_mission == 0
        &&& scout.path == seq![state.pose.position]
    }
}

/// `now` is `i` steps out on the leg that `start` began: the leg length is
/// unchanged, the path holds the start and one cell per step, and the agent
/// stands on the last of them.
pub open spec fn steps_out(start: RobotModel, now: RobotModel, i: int) -> bool {
    now.boundary_scout matches Some(scout) && {
        &&& now.scout_depth_n == start.scout_depth_n
        &&& !scout.returning
        &&& scout.steps_taken_this_scouting_mission == i
        &&& scout.path.len() == i + 1
        &&& scout.path[0] == start.pose.position
        &&& now.pose.position == scout.path[i]
    }
}

/// `now` is `j` steps back on the leg that `start` began: the leg length is
/// unchanged, the path holds the whole leg, and the agent stands `j` cells
/// before its end.
pub open spec fn steps_back(start: RobotModel, now: RobotModel, j: int) -> bool {
    now.boundary_scout matches Some(scout) && {
        &&& now.scout_depth_n == start.scout_depth_n
        &&& scout.returning
        &&& scout.steps_taken_this_scouting_mission == j
        &&& scout.path.len() == start.scout_depth_n + 1
        &&& scout.path[0] == start.pose.position
        &&& now.pose.position == scout.path[start.scout_depth_n - j]
    }
}

/// One more context means one more step.
pub proof fn lemma_scouted_next(state: RobotModel, contexts: Seq<ContextModel>, i: int)
    requires
        0 <= i < contexts.len(),
    ensures
        scouted(state, contexts.take(i + 1)) == scouting_step(
            scouted(state, contexts.take(i)),
            contexts[i],
        ).0,
{
    assert(contexts.take(i + 1).drop_last() =~= contexts.take(i));
    assert(contexts.take(i + 1).last() == contexts[i]);
}

/// The way out of an undisturbed leg: after `i` steps, up to the leg length,
/// the agent is `i` steps out.
pub proof fn lemma_way_out(state: RobotModel, contexts: Seq<ContextModel>, i: int)
    requires
        at_leg_start(state),
        undisturbed(state, contexts),
        0 <= i <= state.scout_depth_n,
        i <= contexts.len(),
    ensures
        steps_out(state, scouted(state, contexts.take(i)), i),
    decreases i,
{
    if i == 0 {
        assert(contexts.take(0) =~= Seq::<ContextModel>::empty());
    } else {
        lemma_way_out(state, contexts, i - 1);
        lemma_scouted_next(state, contexts, i - 1);
        assert(quiet_at(state, contexts, i - 1));
        let before = scouted(state, contexts.take(i - 1));
        let scout = before.boundary_scout->0;
        let next = planned_move(before, scout, contexts[i - 1])->0;
        let after = scouting_step(before, contexts[i - 1]).0;
        assert(after.boundary_scout->0.path == scout.path.push(next));
    }
}

/// The way back of an undisturbed leg: `j` steps after the agent has turned
/// round at the end of the leg, it is `j` steps back.
pub proof fn lemma_way_back(state: RobotModel, contexts: Seq<ContextModel>, j: int)
    requires
        at_leg_start(state),
        undisturbed(state, contexts),
        0 <= j <= state.scout_depth_n,
        state.scout_depth_n + 1 + j <= contexts.len(),
    ensures
        steps_back(state, scouted(state, contexts.take(state.scout_depth_n + 1 + j)), j),
    decreases j,
{
    let n = state.scout_depth_n as int;
    if j == 0 {
        lemma_way_out(state, contexts, n);
        lemma_scouted_next(state, contexts, n);
        assert(quiet_at(state, contexts, n));
        let before = scouted(state, contexts.take(n));
        let after = scouting_step(before, contexts[n]).0;
        assert(after.boundary_scout->0.path == before.boundary_scout->0.path);
    } else {
        lemma_way_back(state, contexts, j - 1);
        lemma_scouted_next(state, contexts, n + j);
        assert(quiet_at(state, contexts, n + j));
        let before = scouted(state, contexts.take(n + j));
        let after = scouting_step(before, contexts[n + j]).0;
        assert(after.boundary_scout->0.path == before.boundary_scout->0.path);
    }
}

/// A whole leg. An agent at the start of a leg of length `n` that nothing
/// disturbs takes `n` steps out, one tick to turn round, `n` steps back and
/// one tick to begin anew: after `2n + 2` scouting steps it stands where the
/// leg began, at the start of a leg of length `2n`.
pub proof fn lemma_whole_leg(state: RobotModel, contexts: Seq<ContextModel>)
    requires
        at_leg_start(state),
        undisturbed(state, contexts),
        contexts.len() == 2 * state.scout_depth_n + 2,
    ensures
        scouted(state, contexts).scout_depth_n == 2 * state.scout_depth_n,
        scouted(state, contexts).pose.position == state.pose.position,
        at_leg_start(scouted(state, contexts)),
        scouted(state, contexts).boundary_scout->0.first_move,
{
    let n = state.scout_depth_n as int;
    lemma_way_back(state, contexts, n);
    lemma_scouted_next(state, contexts, 2 * n + 1);
    assert(quiet_at(state, contexts, 2 * n + 1));
    assert(contexts.take(2 * n + 2) =~= contexts);
}

/// Scouting through two runs of contexts, one after the other, is scouting
/// through the first and then through the second.
pub proof fn lemma_scouted_in_two_parts(
    state: RobotModel,
    first: Seq<ContextModel>,
    second: Seq<ContextModel>,
)
    ensures
        scouted(state, first + second) == scouted(scouted(state, first), second),
    decreases second.len(),
{
    if second.len() == 0 {
        assert(first + second =~= first);
    } else {
        lemma_scouted_in_two_parts(state, first, second.drop_last());
        assert((first + second).drop_last() =~= first + second.drop_last());
        assert((first + second).last() == second.last());
    }
}

/// What is undisturbed as a whole is undisturbed in its first part and, from
/// where the first part ends, in its second.
pub proof fn lemma_undisturbed_in_two_parts(
    state: RobotModel,
    contexts: Seq<ContextModel>,
    k: int,
)
    requires
        undisturbed(state, contexts),
        0 <= k <= contexts.len(),
    ensures
        undisturbed(state, contexts.take(k)),
        undisturbed(scouted(state, contexts.take(k)), contexts.skip(k)),
{
    let first = contexts.take(k);
    let second = contexts.skip(k);
    assert forall|i: int| 0 <= i < first.len() implies #[trigger] quiet_at(state, first, i) by {
        assert(quiet_at(state, contexts, i));
        assert(first.take(i) =~= contexts.take(i));
    }
    assert forall|i: int| 0 <= i < second.len() implies #[trigger] quiet_at(
        scouted(state, first),
        second,
        i,
    ) by {
        assert(quiet_at(state, contexts, k + i));
        lemma_scouted_in_two_parts(state, first, second.take(i));
        assert(first + second.take(i) =~= contexts.take(k + i));
    }
}

/// Two legs in a row. An agent at the start of a leg of length `n` that
/// nothing disturbs stands, after the `2n + 2` steps of that leg and the
/// `4n + 2` steps of the next, where the first leg began, at the start of a
/// leg of length `4n`.
pub proof fn lemma_two_legs(state: RobotModel, contexts: Seq<ContextModel>)
    requires
        at_leg_start(state),
        undisturbed(state, contexts),
        contexts.len() == 6 * state.scout_depth_n + 4,
    ensures
        scouted(state, contexts).scout_depth_n == 4 * state.scout_depth_n,
        scouted(state, contexts).pose.position == state.pose.position,
        at_leg_start(scouted(state, contexts)),
{
    let n = state.scout_depth_n as int;
    let first = contexts.take(2 * n + 2);
    let second = contexts.skip(2 * n + 2);
    lemma_undisturbed_in_two_parts(state, contexts, 2 * n + 2);
    lemma_whole_leg(state, first);
    lemma_whole_leg(scouted(state, first), second);
    lemma_scouted_in_two_parts(state, first, second);
    assert(first + second =~= contexts);
}

} // verus!
