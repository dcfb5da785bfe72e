//! Boundary scouting: legs of doubling length along a wall, out and back,
//! until the agent meets its partner on the way out.

use vstd::prelude::*;
use crate::constants::{INITIAL_SCOUT_DEPTH, LEFT_HAND_RULE, RIGHT_HAND_RULE, ROBOT_LEFT_HAND};
use crate::robot_node::phase_trait::{ContextModel, PhaseContext, PhaseTransition, RobotPhaseBehavior};
use crate::robot_node::wall_following::{
    first_move_step,
    follow_step,
    full_turns,
    lemma_full_turns,
    lemma_full_turns_small,
    lemma_rotation_between,
    rotation_between,
    RotationTracker,
    WallFollower,
};
use crate::robot_node::RobotNode;
use crate::types::{
    in_comm_range,
    orientation_of_step,
    point_at,
    BoundaryScoutState,
    Orientation,
    Point,
    Pose,
    RobotModel,
    RobotPhase,
    RobotState,
    ScoutModel,
};

verus! {

/// The scout of an agent that begins scouting where it stands. The chirality
/// is provisional: the first move fixes it.
pub open spec fn fresh_scout(state: RobotModel) -> ScoutModel {
    ScoutModel {
        tracing_direction: if state.id == ROBOT_LEFT_HAND {
            RIGHT_HAND_RULE
        } else {
            LEFT_HAND_RULE
        },
        steps_taken: 0,
        steps_taken_this_scouting_mission: 0,
        returning: false,
        path: seq![state.pose.position],
        first_move: true,
        initial_scouting_direction: None,
        total_rotation_steps: 0,
    }
}

/// The agent with a fresh scout if it had none.
pub open spec fn with_scout(state: RobotModel) -> RobotModel {
    match state.boundary_scout {
        Some(_) => state,
        None => RobotModel { boundary_scout: Some(fresh_scout(state)), ..state },
    }
}

/// The return half of a leg is over: every recorded cell has been retraced.
pub open spec fn back_at_start(scout: ScoutModel) -> bool {
    scout.steps_taken_this_scouting_mission + 1 >= scout.path.len()
}

/// One step of the return half of a leg.
///
/// While cells of the path are left, the agent moves one cell back along it
/// and turns to face the way it moved. Once it is back at the start, the leg
/// length doubles and a new leg begins where the agent stands.
pub open spec fn return_step(state: RobotModel) -> (RobotModel, PhaseTransition) {
    match state.boundary_scout {
        None => (state, PhaseTransition::Continue),
        Some(scout) => {
            let here = state.pose.position;
            if !back_at_start(scout) {
                let target = scout.path[scout.path.len() - 2
                    - scout.steps_taken_this_scouting_mission];
                (
                    RobotModel {
                        pose: Pose {
                            position: target,
                            orientation: orientation_of_step(target.x - here.x, target.y - here.y),
                        },
                        boundary_scout: Some(
                            ScoutModel {
                                steps_taken_this_scouting_mission: (
                                scout.steps_taken_this_scouting_mission + 1) as u32,
                                ..scout
                            },
                        ),
                        ..state
                    },
                    PhaseTransition::Continue,
                )
            } else {
                (
                    RobotModel {
                        scout_depth_n: (2 * state.scout_depth_n) as u32,
                        boundary_scout: Some(
                            ScoutModel {
                                steps_taken_this_scouting_mission: 0,
                                returning: false,
                                path: seq![here],
                                first_move: true,
                                ..scout
                            },
                        ),
                        ..state
                    },
                    PhaseTransition::Continue,
                )
            }
        },
    }
}

/// What a return step makes of an agent with the given scout.
///
/// Back at the start, the leg length is doubled, the agent has not moved, and
/// a new leg is due: not returning, first move pending, no step counted, the
/// path holding the agent's cell alone. Otherwise the leg length is as it
/// was, the agent stands on the recorded cell before the one it retraced
/// last, and one more step back is counted.
pub open spec fn returned(before: RobotModel, scout: ScoutModel, after: RobotModel) -> bool {
    after.boundary_scout matches Some(next) && if back_at_start(scout) {
        &&& after.scout_depth_n == 2 * before.scout_depth_n
        &&& after.pose == before.pose
        &&& !next.returning
        &&& next.first_move
        &&& next.steps_taken_this_scouting_mission == 0
        &&& next.path == seq![before.pose.position]
    } else {
        &&& after.scout_depth_n == before.scout_depth_n
        &&& after.pose.position == scout.path[scout.path.len() - 2
            - scout.steps_taken_this_scouting_mission]
        &&& next.returning == scout.returning
        &&& next.steps_taken_this_scouting_mission == scout.steps_taken_this_scouting_mission
            + 1
        &&& next.path == scout.path
    }
}

/// The counters of a return step stay within `u32`.
pub open spec fn return_fits(state: RobotModel) -> bool {
    state.boundary_scout matches Some(scout) ==> if back_at_start(scout) {
        2 * state.scout_depth_n <= u32::MAX
    } else {
        scout.steps_taken_this_scouting_mission < u32::MAX
    }
}

/// The cell that the agent moves to on an outbound step, if any is open.
///
/// The first step of a leg repeats the recorded first step of the first leg
/// where that cell is passable and falls back to wall following where it is
/// not; the very first step of all turns away from the partner. Every other
/// step follows the wall.
pub open spec fn planned_move(
    state: RobotModel,
    scout: ScoutModel,
    context: ContextModel,
) -> Option<Point> {
    let here = state.pose.position;
    if scout.first_move {
        match scout.initial_scouting_direction {
            Some(d) => {
                if context.global.passable(here.x + d.x, here.y + d.y) {
                    Some(point_at(here.x + d.x, here.y + d.y))
                } else {
                    follow_step(
                        context.global,
                        here,
                        state.pose.orientation,
                        scout.tracing_direction,
                    )
                }
            },
            None => first_move_step(
                context.global,
                here,
                state.pose.orientation,
                context.robot_with(state.partner_id).pose.position,
            ),
        }
    } else {
        follow_step(context.global, here, state.pose.orientation, scout.tracing_direction)
    }
}

/// A step `(dx, dy)` lies to the right of the heading: the cross product of
/// the heading's step and `(dx, dy)` is positive.
pub open spec fn steps_right(heading: Orientation, dx: int, dy: int) -> bool {
    heading.vector().0 * dy - heading.vector().1 * dx > 0
}

/// The scout once the very first step to `next` is known: the step is
/// recorded and the chirality is fixed, right-hand after a step to the right
/// and left-hand otherwise. An agent that turned left, away from a partner on
/// its right, so traces with the left-hand rule, and its partner with the
/// right-hand rule.
pub open spec fn committed(state: RobotModel, scout: ScoutModel, next: Point) -> ScoutModel {
    if scout.first_move && scout.initial_scouting_direction is None {
        let dx = next.x - state.pose.position.x;
        let dy = next.y - state.pose.position.y;
        ScoutModel {
            initial_scouting_direction: Some(point_at(dx, dy)),
            tracing_direction: if steps_right(state.pose.orientation, dx, dy) {
                RIGHT_HAND_RULE
            } else {
                LEFT_HAND_RULE
            },
            ..scout
        }
    } else {
        scout
    }
}

/// The agent meets its partner by moving to `next`: the step is not the first
/// of its leg, and the partner is within range on another cell.
pub open spec fn meets_partner(
    state: RobotModel,
    scout: ScoutModel,
    context: ContextModel,
    next: Point,
) -> bool {
    let partner = context.robot_with(state.partner_id).pose.position;
    !scout.first_move && in_comm_range(next, partner) && next != partner
}

/// One outbound step.
///
/// When no neighbour is open the agent stays. Otherwise it moves to the
/// planned cell, faces the way it moved, appends the cell to the path and
/// counts the step. The rotation total grows by the turn just made, except
/// that the first step of a leg sets it to zero. On meeting the partner the
/// leg length doubles and the agent asks for boundary analysis.
pub open spec fn forward_step(state: RobotModel, context: ContextModel) -> (
    RobotModel,
    PhaseTransition,
) {
    match state.boundary_scout {
        None => (state, PhaseTransition::Continue),
        Some(scout) => match planned_move(state, scout, context) {
            None => (state, PhaseTransition::Continue),
            Some(next) => {
                let here = state.pose.position;
                let heading = orientation_of_step(next.x - here.x, next.y - here.y);
                let meets = meets_partner(state, scout, context, next);
                (
                    RobotModel {
                        pose: Pose { position: next, orientation: heading },
                        scout_depth_n: if meets {
                            (2 * state.scout_depth_n) as u32
                        } else {
                            state.scout_depth_n
                        },
                        boundary_scout: Some(
                            ScoutModel {
                                total_rotation_steps: if scout.first_move {
                                    0
                                } else {
                                    (scout.total_rotation_steps + rotation_between(
                                        state.pose.orientation,
                                        heading,
                                    )) as i32
                                },
                                path: scout.path.push(next),
                                steps_taken: (scout.steps_taken + 1) as u32,
                                steps_taken_this_scouting_mission: (
                                scout.steps_taken_this_scouting_mission + 1) as u32,
                                first_move: false,
                                ..committed(state, scout, next)
                            },
                        ),
                        ..state
                    },
                    if meets {
                        PhaseTransition::Transition(RobotPhase::BoundaryAnalysis)
                    } else {
                        PhaseTransition::Continue
                    },
                )
            },
        },
    }
}

/// The counters of an outbound step stay within their machine types.
pub open spec fn forward_fits(state: RobotModel, context: ContextModel) -> bool {
    state.boundary_scout matches Some(scout) ==> (planned_move(state, scout, context) matches Some(
        next,
    ) ==> {
        let here = state.pose.position;
        let heading = orientation_of_step(next.x - here.x, next.y - here.y);
        &&& scout.steps_taken < u32::MAX
        &&& scout.steps_taken_this_scouting_mission < u32::MAX
        &&& (!scout.first_move ==> i32::MIN <= scout.total_rotation_steps + rotation_between(
            state.pose.orientation,
            heading,
        ) <= i32::MAX)
        &&& (meets_partner(state, scout, context, next) ==> 2 * state.scout_depth_n <= u32::MAX)
    })
}

/// One step of boundary scouting.
///
/// An agent without a scout gets a fresh one first. A returning agent takes a
/// return step; an agent with outbound steps left on its leg takes an outbound
/// step; an agent at the end of its leg turns round: it starts returning, with
/// the step counter of the leg back at zero.
pub open spec fn scouting_step(state: RobotModel, context: ContextModel) -> (
    RobotModel,
    PhaseTransition,
) {
    let ready = with_scout(state);
    let scout = ready.boundary_scout->0;
    if scout.returning {
        return_step(ready)
    } else if scout.steps_taken_this_scouting_mission < ready.scout_depth_n {
        forward_step(ready, context)
    } else {
        (
            RobotModel {
                boundary_scout: Some(
                    ScoutModel { returning: true, steps_taken_this_scouting_mission: 0, ..scout },
                ),
                ..ready
            },
            PhaseTransition::Continue,
        )
    }
}

/// The counters of a scouting step stay within their machine types.
pub open spec fn scouting_fits(state: RobotModel, context: ContextModel) -> bool {
    let ready = with_scout(state);
    let scout = ready.boundary_scout->0;
    if scout.returning {
        return_fits(ready)
    } else if scout.steps_taken_this_scouting_mission < ready.scout_depth_n {
        forward_fits(ready, context)
    } else {
        true
    }
}

/// The agent's position follows its recorded path.
///
/// On the way out the path holds the start and one cell per step of the leg,
/// and the agent stands on the last one; before the first step of a leg no
/// step is counted. On the way back the agent stands as many cells before the
/// end of the path as it has taken steps back.
pub open spec fn on_leg(state: RobotModel) -> bool {
    state.boundary_scout matches Some(scout) && {
        let steps = scout.steps_taken_this_scouting_mission as int;
        let here = state.pose.position;
        if scout.returning {
            steps + 1 <= scout.path.len() && here == scout.path[scout.path.len() - 1 - steps]
        } else {
            &&& steps + 1 == scout.path.len()
            &&& here == scout.path[scout.path.len() - 1]
            &&& (scout.first_move ==> steps == 0)
        }
    }
}

/// The start of the agent's current leg.
pub open spec fn leg_start(state: RobotModel) -> Point {
    state.boundary_scout->0.path[0]
}

/// Leg symmetry, as an invariant of scouting: an agent that begins scouting
/// is on its leg, every scouting step keeps it on its leg, and when the
/// return half of a leg is over the agent stands on the start of the leg,
/// which is where its next leg starts.
pub proof fn lemma_leg_symmetry(state: RobotModel, context: ContextModel)
    requires
        state.boundary_scout is None || on_leg(state),
        scouting_fits(state, context),
    ensures
        on_leg(with_scout(state)),
        on_leg(scouting_step(state, context).0),
        state.boundary_scout matches Some(scout) && scout.returning && back_at_start(scout) ==> {
            &&& state.pose.position == leg_start(state)
            &&& scouting_step(state, context).0.pose.position == leg_start(state)
            &&& leg_start(scouting_step(state, context).0) == leg_start(state)
        },
{
    let ready = with_scout(state);
    let scout = ready.boundary_scout->0;
    if state.boundary_scout is None {
        assert(scout.path =~= seq![state.pose.position]);
    }
    assert(on_leg(ready));
}

/// Leg doubling: the step that ends the return half of a leg doubles the leg
/// length and begins a new leg, and every other scouting step that does not
/// meet the partner leaves the leg length as it is.
pub proof fn lemma_leg_doubling(state: RobotModel, context: ContextModel)
    requires
        scouting_fits(state, context),
    ensures
        ({
            let scout = with_scout(state).boundary_scout->0;
            let after = scouting_step(state, context).0;
            if scout.returning && back_at_start(scout) {
                &&& after.scout_depth_n == 2 * state.scout_depth_n
                &&& after.boundary_scout->0.first_move
                &&& !after.boundary_scout->0.returning
                &&& after.boundary_scout->0.steps_taken_this_scouting_mission == 0
                &&& after.boundary_scout->0.path == seq![state.pose.position]
            } else {
                scouting_step(state, context).1 == PhaseTransition::Continue
                    ==> after.scout_depth_n == state.scout_depth_n
            }
        }),
{
}

/// The heading with which the current leg left its start.
pub open spec fn first_heading(scout: ScoutModel) -> Orientation {
    orientation_of_step(scout.path[1].x - scout.path[0].x, scout.path[1].y - scout.path[0].y)
}

/// The rotation total accounts for the agent's turning on the current leg.
///
/// On the way out, after the first step of the leg, the total differs from
/// the number of clockwise quarter turns between the first heading of the leg
/// and the current heading by a whole number of full turns.
pub open spec fn rotation_tracked(state: RobotModel) -> bool {
    state.boundary_scout matches Some(scout) ==> (!scout.first_move && !scout.returning ==> {
        &&& scout.path.len() >= 2
        &&& full_turns(scout.total_rotation_steps - turned_since_first(state))
    })
}

/// Number of clockwise quarter turns between the first heading of the leg
/// and the agent's heading now.
pub open spec fn turned_since_first(state: RobotModel) -> int {
    state.pose.orientation.quarter_turns() - first_heading(
        state.boundary_scout->0,
    ).quarter_turns()
}

/// Rotation tracking is an invariant of scouting: every scouting step of an
/// agent that is on its leg keeps the rotation total in step with the
/// agent's heading.
pub proof fn lemma_rotation_tracked(state: RobotModel, context: ContextModel)
    requires
        state.boundary_scout is None || (on_leg(state) && rotation_tracked(state)),
        scouting_fits(state, context),
    ensures
        rotation_tracked(scouting_step(state, context).0),
{
    let ready = with_scout(state);
    let scout = ready.boundary_scout->0;
    if state.boundary_scout is None {
        assert(scout.path =~= seq![state.pose.position]);
    }
    if !scout.returning && scout.steps_taken_this_scouting_mission < ready.scout_depth_n {
        match planned_move(ready, scout, context) {
            None => {},
            Some(next) => {
                let here = ready.pose.position;
                let heading = orientation_of_step(next.x - here.x, next.y - here.y);
                lemma_rotation_between(ready.pose.orientation, heading);
                let moved = scouting_step(state, context).0;
                let after = moved.boundary_scout->0;
                assert(after.path == scout.path.push(next));
                assert(after.path[0] == scout.path[0]);
                assert(moved.pose.orientation == heading);
                if scout.first_move {
                    assert(scout.path.len() == 1);
                    assert(after.path[1] == next);
                    assert(here == scout.path[0]);
                    assert(first_heading(after) == heading);
                    assert(after.total_rotation_steps == 0);
                    lemma_full_turns_small();
                    assert(after.total_rotation_steps - turned_since_first(moved) == 0);
                } else {
                    assert(after.path[1] == scout.path[1]);
                    assert(first_heading(after) == first_heading(scout));
                    let before = scout.total_rotation_steps - turned_since_first(ready);
                    let turn = rotation_between(ready.pose.orientation, heading) - (
                    heading.quarter_turns() - ready.pose.orientation.quarter_turns());
                    assert(full_turns(before));
                    assert(full_turns(turn));
                    lemma_full_turns(before, turn);
                    assert(after.total_rotation_steps == scout.total_rotation_steps
                        + rotation_between(ready.pose.orientation, heading));
                    assert(after.total_rotation_steps - turned_since_first(moved) == before
                        + turn);
                }
            },
        }
    }
}

/// Two agents whose rotation totals are tracked: the difference of the totals
/// differs from the difference of the turns that the two have made since their
/// first headings by a whole number of full turns. When the two have turned
/// equally far, up to full turns, the difference of the totals is itself a
/// whole number of full turns.
pub proof fn lemma_rotation_difference(first: RobotModel, second: RobotModel)
    requires
        rotation_tracked(first),
        rotation_tracked(second),
        first.boundary_scout matches Some(s) && !s.first_move && !s.returning,
        second.boundary_scout matches Some(s) && !s.first_move && !s.returning,
    ensures
        full_turns(
            (first.boundary_scout->0.total_rotation_steps
                - second.boundary_scout->0.total_rotation_steps) - (turned_since_first(first)
                - turned_since_first(second)),
        ),
        full_turns(turned_since_first(first) - turned_since_first(second)) ==> full_turns(
            first.boundary_scout->0.total_rotation_steps
                - second.boundary_scout->0.total_rotation_steps,
        ),
{
    let a = first.boundary_scout->0.total_rotation_steps - turned_since_first(first);
    let b = second.boundary_scout->0.total_rotation_steps - turned_since_first(second);
    let d = turned_since_first(first) - turned_since_first(second);
    assert(full_turns(a));
    assert(full_turns(b));
    lemma_full_turns(a, b);
    assert(a - b == (first.boundary_scout->0.total_rotation_steps
        - second.boundary_scout->0.total_rotation_steps) - d);
    if full_turns(d) {
        lemma_full_turns(a - b, d);
        assert((a - b) + d == first.boundary_scout->0.total_rotation_steps
            - second.boundary_scout->0.total_rotation_steps);
    }
}

/// Two agents whose rotation totals are tracked and who have turned equally
/// far, up to full turns: where the totals differ by no more than one full
/// turn, their difference is minus four, zero or four.
pub proof fn lemma_rotation_difference_within_a_turn(first: RobotModel, second: RobotModel)
    requires
        rotation_tracked(first),
        rotation_tracked(second),
        first.boundary_scout matches Some(s) && !s.first_move && !s.returning,
        second.boundary_scout matches Some(s) && !s.first_move && !s.returning,
        full_turns(turned_since_first(first) - turned_since_first(second)),
        -4 <= first.boundary_scout->0.total_rotation_steps
            - second.boundary_scout->0.total_rotation_steps <= 4,
    ensures
        ({
            let d = first.boundary_scout->0.total_rotation_steps
                - second.boundary_scout->0.total_rotation_steps;
            d == -4 || d == 0 || d == 4
        }),
{
    lemma_rotation_difference(first, second);
    reveal(full_turns);
}

/// A scouting step keeps the agent and its path on passable cells of the
/// ground truth.
pub proof fn lemma_scouting_on_open_ground(state: RobotModel, context: ContextModel)
    requires
        state.wf(),
        context.admits(state),
        state.on_open_ground(context.global),
    ensures
        scouting_step(state, context).0.on_open_ground(context.global),
{
    let ready = with_scout(state);
    let scout = ready.boundary_scout->0;
    if state.boundary_scout is None {
        assert(scout.path =~= seq![state.pose.position]);
    }
    assert(ready.on_open_ground(context.global));
    let after = scouting_step(state, context).0;
    let scout_after = after.boundary_scout->0;
    if scout.returning {
        if !back_at_start(scout) {
            assert(scout_after.path == scout.path);
        } else {
            assert(scout_after.path == seq![state.pose.position]);
        }
    } else if scout.steps_taken_this_scouting_mission < ready.scout_depth_n {
        match planned_move(ready, scout, context) {
            None => {},
            Some(next) => {
                lemma_planned_move_passable(ready, scout, context);
                assert(scout_after.path == scout.path.push(next));
            },
        }
    } else {
        assert(scout_after.path == scout.path);
    }
}

/// The leg discipline of a scouting agent: it has no scout yet, or it is on
/// its leg with a tracked rotation total.
pub open spec fn keeps_to_leg(state: RobotModel) -> bool {
    state.boundary_scout is None || (on_leg(state) && rotation_tracked(state))
}

/// A scouting step keeps the leg discipline.
pub proof fn lemma_scouting_keeps_to_leg(state: RobotModel, context: ContextModel)
    requires
        keeps_to_leg(state),
        scouting_fits(state, context),
    ensures
        keeps_to_leg(scouting_step(state, context).0),
{
    lemma_leg_symmetry(state, context);
    lemma_rotation_tracked(state, context);
}

/// The books of a scouting agent balance: the leg length is the initial
/// length doubled once per finished leg, so on the way out the outbound steps
/// taken so far are those of the finished legs, three less than the leg
/// length, plus those of this leg; on the way back they are those of all legs
/// up to this one, and the path holds the whole leg.
pub open spec fn leg_accounts(state: RobotModel) -> bool {
    state.boundary_scout matches Some(scout) ==> {
        let n = state.scout_depth_n as int;
        let steps = scout.steps_taken_this_scouting_mission as int;
        &&& n >= INITIAL_SCOUT_DEPTH
        &&& steps <= n
        &&& if scout.returning {
            scout.steps_taken + INITIAL_SCOUT_DEPTH == 2 * n && scout.path.len() == n + 1
        } else {
            scout.steps_taken + INITIAL_SCOUT_DEPTH == n + steps
        }
    }
}

/// The counters of an agent are bounded by the number of outbound steps it
/// has taken: an agent without a scout has the initial leg length; with a
/// scout, the steps of the current half leg are at most the outbound steps,
/// the rotation total is at most two quarter turns per outbound step either
/// way, and the leg length lies between the initial length and twice the
/// outbound steps plus twice the initial length.
pub open spec fn counters_bounded(state: RobotModel) -> bool {
    match state.boundary_scout {
        None => state.scout_depth_n == INITIAL_SCOUT_DEPTH,
        Some(scout) => {
            &&& scout.steps_taken_this_scouting_mission <= scout.steps_taken
            &&& -2 * scout.steps_taken <= scout.total_rotation_steps <= 2 * scout.steps_taken
            &&& INITIAL_SCOUT_DEPTH <= state.scout_depth_n <= 2 * (scout.steps_taken
                + INITIAL_SCOUT_DEPTH)
        },
    }
}

/// A scouting step of an agent that is on its leg with balanced books keeps
/// the books balanced while the agent goes on scouting, keeps the counters
/// bounded in any case, and adds at most one outbound step.
pub proof fn lemma_scouting_keeps_accounts(state: RobotModel, context: ContextModel)
    requires
        keeps_to_leg(state),
        leg_accounts(state),
        counters_bounded(state),
        scouting_fits(state, context),
    ensures
        scouting_step(state, context).1 == PhaseTransition::Continue ==> leg_accounts(
            scouting_step(state, context).0,
        ),
        counters_bounded(scouting_step(state, context).0),
        scouting_step(state, context).0.boundary_scout is Some,
        scouting_step(state, context).0.boundary_scout->0.steps_taken <= with_scout(
            state,
        ).boundary_scout->0.steps_taken + 1,
{
    let ready = with_scout(state);
    let scout = ready.boundary_scout->0;
    if state.boundary_scout is None {
        assert(scout.path =~= seq![state.pose.position]);
    }
    assert(on_leg(ready));
    assert(leg_accounts(ready));
    assert(counters_bounded(ready));
    let after = scouting_step(state, context).0;
    if scout.returning {
    } else if scout.steps_taken_this_scouting_mission < ready.scout_depth_n {
        match planned_move(ready, scout, context) {
            None => {},
            Some(next) => {
                let here = ready.pose.position;
                let heading = orientation_of_step(next.x - here.x, next.y - here.y);
                lemma_rotation_between(ready.pose.orientation, heading);
                assert(after.boundary_scout->0.path == scout.path.push(next));
            },
        }
    } else {
        assert(after.boundary_scout->0.path == scout.path);
    }
}

/// A scouting step keeps a well-formed agent well formed and changes neither
/// its map nor its identifiers.
pub proof fn lemma_scouting_keeps_wf(state: RobotModel, context: ContextModel)
    requires
        state.wf(),
        context.admits(state),
    ensures
        scouting_step(state, context).0.wf(),
        scouting_step(state, context).0.map == state.map,
        scouting_step(state, context).0.id == state.id,
        scouting_step(state, context).0.partner_id == state.partner_id,
        scouting_step(state, context).0.phase == state.phase,
{
    let ready = with_scout(state);
    let scout = ready.boundary_scout->0;
    assert(scout.within(state.map)) by {
        if state.boundary_scout is None {
            assert(scout.path =~= seq![state.pose.position]);
        }
    }
    let after = scouting_step(state, context).0;
    let scout_after = after.boundary_scout->0;
    if scout.returning {
        if !back_at_start(scout) {
            assert(scout_after.path == scout.path);
        }
    } else if scout.steps_taken_this_scouting_mission < ready.scout_depth_n {
        match planned_move(ready, scout, context) {
            None => {},
            Some(next) => {
                lemma_planned_move_passable(ready, scout, context);
                assert(scout_after.path == scout.path.push(next));
            },
        }
    } else {
        assert(scout_after.path == scout.path);
    }
}

/// A planned move leads to a cell that is passable in the ground truth.
pub proof fn lemma_planned_move_passable(
    state: RobotModel,
    scout: ScoutModel,
    context: ContextModel,
)
    requires
        context.global.wf(),
    ensures
        planned_move(state, scout, context) matches Some(next) ==> context.global.passable(
            next.x as int,
            next.y as int,
        ),
{
}

/// The boundary-scouting phase.
#[derive(Debug, Clone, Copy)]
pub struct BoundaryScoutingPhase;

impl RobotPhaseBehavior for BoundaryScoutingPhase {
    open spec fn step(&self, state: RobotModel, context: ContextModel) -> (
        RobotModel,
        PhaseTransition,
    ) {
        scouting_step(state, context)
    }

    open spec fn fits(&self, state: RobotModel, context: ContextModel) -> bool {
        scouting_fits(state, context)
    }

    open spec fn phase(&self) -> RobotPhase {
        RobotPhase::BoundaryScouting
    }

    fn execute(&mut self, robot_state: &mut RobotState, context: &PhaseContext) -> (transition:
        PhaseTransition) {
        if robot_state.boundary_scout.is_none() {
            Self::initialize_boundary_scout(robot_state);
        }
        let scout_n = robot_state.scout_depth_n;
        let (steps_taken_this_scouting_mission, returning) = match &robot_state.boundary_scout {
            Some(scout) => (scout.steps_taken_this_scouting_mission, scout.returning),
            None => (0, false),
        };

        if returning {
            return Self::handle_return_journey(robot_state, scout_n);
        }
        if steps_taken_this_scouting_mission < scout_n {
            Self::execute_forward_scouting(robot_state, context)
        } else {
            match &mut robot_state.boundary_scout {
                Some(scout) => {
                    scout.returning = true;
                    scout.steps_taken_this_scouting_mission = 0;
                },
                None => {},
            }
            proof {
                let before = with_scout(old(robot_state)@).boundary_scout->0;
                let after = robot_state@.boundary_scout->0;
                assert(after.path == before.path);
                assert(before.within(robot_state@.map));
            }
            PhaseTransition::Continue
        }
    }

    fn phase_type(&self) -> (phase: RobotPhase) {
        RobotPhase::BoundaryScouting
    }
}

impl BoundaryScoutingPhase {
    /// Gives the agent a fresh scout that starts where the agent stands.
    pub fn initialize_boundary_scout(robot_state: &mut RobotState)
        requires
            old(robot_state)@.wf(),
        ensures
            final(robot_state)@ == (RobotModel {
                boundary_scout: Some(fresh_scout(old(robot_state)@)),
                ..old(robot_state)@
            }),
            final(robot_state)@.wf(),
    {
        let tracing_direction = if robot_state.id == ROBOT_LEFT_HAND {
            RIGHT_HAND_RULE
        } else {
            LEFT_HAND_RULE
        };
        let mut path: Vec<Point> = Vec::new();
        path.push(robot_state.pose.position);
        assert(path@ =~= seq![robot_state.pose.position]);
        robot_state.boundary_scout = Some(
            BoundaryScoutState {
                tracing_direction,
                steps_taken: 0,
                steps_taken_this_scouting_mission: 0,
                returning: false,
                path,
                first_move: true,
                initial_scouting_direction: None,
                total_rotation_steps: 0,
            },
        );
    }

    /// One step of the return half of a leg.
    ///
    /// Back at the start of the leg the leg length doubles and a new leg
    /// begins where the agent stands; before that the agent moves one cell
    /// back along its path and the leg length stays. An agent that is on its
    /// leg ends the return on the cell where the leg began.
    pub fn handle_return_journey(robot_state: &mut RobotState, scout_n: u32) -> (transition:
        PhaseTransition)
        requires
            old(robot_state)@.wf(),
            scout_n == old(robot_state).scout_depth_n,
            return_fits(old(robot_state)@),
        ensures
            (final(robot_state)@, transition) == return_step(old(robot_state)@),
            final(robot_state)@.wf(),
            final(robot_state)@.map == old(robot_state)@.map,
            transition == PhaseTransition::Continue,
            old(robot_state)@.boundary_scout matches Some(scout) ==> returned(
                old(robot_state)@,
                scout,
                final(robot_state)@,
            ),
            on_leg(old(robot_state)@) && old(robot_state)@.boundary_scout->0.returning ==> {
                &&& on_leg(final(robot_state)@)
                &&& (back_at_start(old(robot_state)@.boundary_scout->0) ==> {
                    &&& final(robot_state)@.pose.position == leg_start(old(robot_state)@)
                    &&& leg_start(final(robot_state)@) == leg_start(old(robot_state)@)
                })
            },
    {
        let here = robot_state.pose.position;
        match &mut robot_state.boundary_scout {
            Some(scout) => {
                let path_length = scout.path.len();
                let done = scout.steps_taken_this_scouting_mission;
                if (done as u64) + 1 < path_length as u64 {
                    let target_index = path_length - 2 - done as usize;
                    let next_pos = scout.path[target_index];
                    scout.steps_taken_this_scouting_mission = done + 1;
                    robot_state.pose.orientation = WallFollower::update_orientation(here, next_pos);
                    robot_state.pose.position = next_pos;
                } else {
                    let mut path: Vec<Point> = Vec::new();
                    path.push(here);
                    assert(path@ =~= seq![here]);
                    scout.steps_taken_this_scouting_mission = 0;
                    scout.returning = false;
                    scout.path = path;
                    scout.first_move = true;
                    robot_state.scout_depth_n = 2 * scout_n;
                }
                PhaseTransition::Continue
            },
            None => PhaseTransition::Continue,
        }
    }

    /// One outbound step of a leg.
    #[verifier::rlimit(30)]
    pub fn execute_forward_scouting(robot_state: &mut RobotState, context: &PhaseContext) -> (transition:
        PhaseTransition)
        requires
            old(robot_state)@.wf(),
            context@.admits(old(robot_state)@),
            forward_fits(old(robot_state)@, context@),
        ensures
            (final(robot_state)@, transition) == forward_step(old(robot_state)@, context@),
            final(robot_state)@.wf(),
            final(robot_state)@.map == old(robot_state)@.map,
    {
        let here = robot_state.pose.position;
        let heading = robot_state.pose.orientation;
        let partner_pos = context.robot_with(robot_state.partner_id).state.pose.position;
        match &mut robot_state.boundary_scout {
            None => PhaseTransition::Continue,
            Some(scout) => {
                let first_move = scout.first_move;
                let next = if first_move {
                    match scout.initial_scouting_direction {
                        Some(direction) => {
                            let repeated = WallFollower::try_step(
                                here,
                                direction.x,
                                direction.y,
                                context.global_map,
                            );
                            if repeated.is_some() {
                                repeated
                            } else {
                                WallFollower::wall_follow_step(
                                    here,
                                    heading,
                                    context.global_map,
                                    scout.tracing_direction,
                                )
                            }
                        },
                        None => {
                            let chosen = WallFollower::wall_follow_step_first_move(
                                here,
                                heading,
                                context.global_map,
                                partner_pos,
                            );
                            if let Some(pos) = chosen {
                                let direction = Point { x: pos.x - here.x, y: pos.y - here.y };
                                let to_the_right = Self::is_step_to_right(
                                    heading,
                                    direction.x,
                                    direction.y,
                                );
                                scout.initial_scouting_direction = Some(direction);
                                scout.tracing_direction = if to_the_right {
                                    RIGHT_HAND_RULE
                                } else {
                                    LEFT_HAND_RULE
                                };
                            }
                            chosen
                        },
                    }
                } else {
                    WallFollower::wall_follow_step(
                        here,
                        heading,
                        context.global_map,
                        scout.tracing_direction,
                    )
                };

                match next {
                    None => PhaseTransition::Continue,
                    Some(next_pos) => {
                        let new_heading = WallFollower::update_orientation(here, next_pos);
                        if first_move {
                            scout.total_rotation_steps = 0;
                        } else {
                            scout.total_rotation_steps = scout.total_rotation_steps
                                + RotationTracker::calculate_rotation_steps(heading, new_heading);
                        }
                        scout.path.push(next_pos);
                        scout.steps_taken = scout.steps_taken + 1;
                        scout.steps_taken_this_scouting_mission =
                            scout.steps_taken_this_scouting_mission + 1;
                        scout.first_move = false;
                        robot_state.pose.orientation = new_heading;
                        robot_state.pose.position = next_pos;

                        if !first_move && RobotNode::within_comm_range(&next_pos, &partner_pos) && (
                        next_pos.x != partner_pos.x || next_pos.y != partner_pos.y) {
                            robot_state.scout_depth_n = 2 * robot_state.scout_depth_n;
                            PhaseTransition::Transition(RobotPhase::BoundaryAnalysis)
                        } else {
                            PhaseTransition::Continue
                        }
                    },
                }
            },
        }
    }

    /// Whether the step `(dx, dy)` lies to the right of `heading`.
    fn is_step_to_right(heading: Orientation, dx: i32, dy: i32) -> (right: bool)
        ensures
            right == steps_right(heading, dx as int, dy as int),
    {
        match heading {
            Orientation::East => dy > 0,
            Orientation::South => dx < 0,
            Orientation::West => dy < 0,
            Orientation::North => dx > 0,
        }
    }
}

} // verus!
