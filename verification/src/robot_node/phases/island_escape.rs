//! Island escape: move away from the centroid of the traced island until a
//! new wall lies ahead, then scout again.

use vstd::prelude::*;
use crate::constants::{EAST, INITIAL_SCOUT_DEPTH, NORTH, SOUTH, WEST};
use crate::robot_node::phase_trait::{ContextModel, PhaseContext, PhaseTransition, RobotPhaseBehavior};
use crate::robot_node::wall_following::WallFollower;
use crate::types::{
    orientation_of_step,
    point_at,
    GridMap,
    GridModel,
    Point,
    Pose,
    RobotModel,
    RobotPhase,
    RobotState,
};

verus! {

/// Sum of the `x` coordinates of a path.
pub open spec fn sum_x(path: Seq<Point>) -> int
    decreases path.len(),
{
    if path.len() == 0 {
        0
    } else {
        sum_x(path.drop_last()) + path.last().x
    }
}

/// Sum of the `y` coordinates of a path.
pub open spec fn sum_y(path: Seq<Point>) -> int
    decreases path.len(),
{
    if path.len() == 0 {
        0
    } else {
        sum_y(path.drop_last()) + path.last().y
    }
}

/// The quotient of `a` by a positive `n`, rounded towards zero.
pub open spec fn quotient_towards_zero(a: int, n: int) -> int {
    if a >= 0 {
        a / n
    } else {
        -((-a) / n)
    }
}

/// The centroid of a path: the mean of its coordinates, each rounded towards
/// zero; `fallback` for the empty path.
pub open spec fn centroid(path: Seq<Point>, fallback: Point) -> Point {
    if path.len() == 0 {
        fallback
    } else {
        point_at(
            quotient_towards_zero(sum_x(path), path.len() as int),
            quotient_towards_zero(sum_y(path), path.len() as int),
        )
    }
}

/// The unit step away from `center` along the axis on which `pos` is further
/// from it; along `y` on a tie, and north when the two coincide.
pub open spec fn escape_direction(pos: Point, center: Point) -> (int, int) {
    let dx = pos.x - center.x;
    let dy = pos.y - center.y;
    let adx = if dx >= 0 { dx } else { -dx };
    let ady = if dy >= 0 { dy } else { -dy };
    if adx > ady {
        (if dx > 0 { 1int } else { -1int }, 0)
    } else {
        (0, if dy > 0 { 1int } else { -1int })
    }
}

/// The pose after a step `(dx, dy)` from `pose`, facing the way of the step.
pub open spec fn stepped(pose: Pose, dx: int, dy: int) -> Pose {
    Pose {
        position: point_at(pose.position.x + dx, pose.position.y + dy),
        orientation: orientation_of_step(dx, dy),
    }
}

/// The pose after the fallback of a blocked escape: a step to the first
/// passable neighbour in the order north, east, south, west; the pose itself
/// when all four are blocked.
pub open spec fn alternative_escape(map: GridModel, pose: Pose) -> Pose {
    let x = pose.position.x as int;
    let y = pose.position.y as int;
    if map.passable(x, y - 1) {
        stepped(pose, 0, -1)
    } else if map.passable(x + 1, y) {
        stepped(pose, 1, 0)
    } else if map.passable(x, y + 1) {
        stepped(pose, 0, 1)
    } else if map.passable(x - 1, y) {
        stepped(pose, -1, 0)
    } else {
        pose
    }
}

/// One step of island escape.
///
/// An agent without a scout asks for wall finding. Otherwise the agent heads
/// away from the centroid of its traced path. Where the cell in that
/// direction is passable it moves there; if the cell after it is not
/// passable, a new wall is found: the scout is dropped, the leg length goes
/// back to its initial value and the agent asks for boundary scouting. Where
/// the cell is blocked the agent takes the fallback step instead.
pub open spec fn escape_step(state: RobotModel, context: ContextModel) -> (
    RobotModel,
    PhaseTransition,
) {
    match state.boundary_scout {
        None => (state, PhaseTransition::Transition(RobotPhase::InitialWallFind)),
        Some(scout) => {
            let here = state.pose.position;
            let d = escape_direction(here, centroid(scout.path, here));
            if context.global.passable(here.x + d.0, here.y + d.1) {
                if !context.global.passable(here.x + 2 * d.0, here.y + 2 * d.1) {
                    (
                        RobotModel {
                            pose: stepped(state.pose, d.0, d.1),
                            scout_depth_n: INITIAL_SCOUT_DEPTH,
                            boundary_scout: None,
                            ..state
                        },
                        PhaseTransition::Transition(RobotPhase::BoundaryScouting),
                    )
                } else {
                    (
                        RobotModel { pose: stepped(state.pose, d.0, d.1), ..state },
                        PhaseTransition::Continue,
                    )
                }
            } else {
                (
                    RobotModel { pose: alternative_escape(context.global, state.pose), ..state },
                    PhaseTransition::Continue,
                )
            }
        },
    }
}

/// The sums of a path extended by one point.
pub proof fn lemma_sum_push(path: Seq<Point>, p: Point)
    ensures
        sum_x(path.push(p)) == sum_x(path) + p.x,
        sum_y(path.push(p)) == sum_y(path) + p.y,
{
    assert(path.push(p).drop_last() =~= path);
}

/// The mean of numbers between `lo` and `hi` lies between `lo` and `hi`.
pub proof fn lemma_mean_bounds(sum: int, n: int, lo: int, hi: int)
    requires
        n > 0,
        lo <= 0 <= hi,
        n * lo <= sum <= n * hi,
    ensures
        lo <= quotient_towards_zero(sum, n) <= hi,
{
    if sum >= 0 {
        assert(0 <= sum / n <= hi) by (nonlinear_arith)
            requires
                n > 0,
                0 <= sum <= n * hi,
        ;
    } else {
        assert(n * (-lo) == -(n * lo)) by (nonlinear_arith);
        assert(0 <= (-sum) / n <= -lo) by (nonlinear_arith)
            requires
                n > 0,
                0 <= -sum <= n * (-lo),
        ;
    }
}

/// An escape step keeps a well-formed agent well formed and changes neither
/// its map nor its identifiers.
pub proof fn lemma_escape_keeps_wf(state: RobotModel, context: ContextModel)
    requires
        state.wf(),
        context.admits(state),
    ensures
        escape_step(state, context).0.wf(),
        escape_step(state, context).0.map == state.map,
        escape_step(state, context).0.id == state.id,
        escape_step(state, context).0.partner_id == state.partner_id,
        escape_step(state, context).0.phase == state.phase,
{
}

/// An escape step keeps the agent and its path on passable cells of the
/// ground truth, and an agent that it sends scouting or wall finding has no
/// scout.
pub proof fn lemma_escape_on_open_ground(state: RobotModel, context: ContextModel)
    requires
        state.wf(),
        context.admits(state),
        state.on_open_ground(context.global),
    ensures
        escape_step(state, context).0.on_open_ground(context.global),
        escape_step(state, context).1 != PhaseTransition::Continue ==> escape_step(
            state,
            context,
        ).0.boundary_scout is None,
        escape_step(state, context).1 == PhaseTransition::Continue || escape_step(state, context).1
            == PhaseTransition::Transition(RobotPhase::BoundaryScouting) || escape_step(
            state,
            context,
        ).1 == PhaseTransition::Transition(RobotPhase::InitialWallFind),
{
}

/// The island-escape phase.
#[derive(Debug, Clone, Copy)]
pub struct IslandEscapePhase;

impl RobotPhaseBehavior for IslandEscapePhase {
    open spec fn step(&self, state: RobotModel, context: ContextModel) -> (
        RobotModel,
        PhaseTransition,
    ) {
        escape_step(state, context)
    }

    open spec fn fits(&self, state: RobotModel, context: ContextModel) -> bool {
        true
    }

    open spec fn phase(&self) -> RobotPhase {
        RobotPhase::IslandEscape
    }

    fn execute(&mut self, robot_state: &mut RobotState, context: &PhaseContext) -> (transition:
        PhaseTransition) {
        let here = robot_state.pose.position;
        let escape_direction = match &robot_state.boundary_scout {
            Some(scout_state) => {
                let island_center = Self::calculate_path_centroid(scout_state.path.as_slice(), here);
                Self::calculate_escape_direction(here, island_center)
            },
            None => {
                return PhaseTransition::Transition(RobotPhase::InitialWallFind);
            },
        };
        let (dx, dy) = escape_direction;
        match WallFollower::try_step(here, dx, dy, context.global_map) {
            Some(next_pos) => {
                robot_state.pose.orientation = WallFollower::update_orientation(here, next_pos);
                robot_state.pose.position = next_pos;
                let ahead = WallFollower::try_step(next_pos, dx, dy, context.global_map);
                if ahead.is_none() {
                    robot_state.scout_depth_n = INITIAL_SCOUT_DEPTH;
                    robot_state.boundary_scout = None;
                    return PhaseTransition::Transition(RobotPhase::BoundaryScouting);
                }
                PhaseTransition::Continue
            },
            None => {
                Self::try_alternative_escape_directions(robot_state, context.global_map);
                PhaseTransition::Continue
            },
        }
    }

    fn phase_type(&self) -> (phase: RobotPhase) {
        RobotPhase::IslandEscape
    }
}

impl IslandEscapePhase {
    /// The centroid of a path, or `fallback` for the empty path.
    pub fn calculate_path_centroid(path: &[Point], fallback: Point) -> (center: Point)
        ensures
            center == centroid(path@, fallback),
    {
        if path.len() == 0 {
            return fallback;
        }
        let mut total_x: i128 = 0;
        let mut total_y: i128 = 0;
        let mut i: usize = 0;
        while i < path.len()
            invariant
                i <= path@.len(),
                total_x == sum_x(path@.subrange(0, i as int)),
                total_y == sum_y(path@.subrange(0, i as int)),
                i * (i32::MIN as int) <= total_x <= i * (i32::MAX as int),
                i * (i32::MIN as int) <= total_y <= i * (i32::MAX as int),
            decreases path@.len() - i,
        {
            proof {
                lemma_sum_push(path@.subrange(0, i as int), path@[i as int]);
                assert(path@.subrange(0, i as int).push(path@[i as int]) =~= path@.subrange(
                    0,
                    i + 1,
                ));
                assert(i * (i32::MAX as int) <= usize::MAX * (i32::MAX as int)) by (nonlinear_arith)
                    requires
                        0 <= i <= usize::MAX,
                ;
                assert(i * (i32::MIN as int) >= usize::MAX * (i32::MIN as int)) by (nonlinear_arith)
                    requires
                        0 <= i <= usize::MAX,
                ;
                assert((i + 1) * (i32::MAX as int) == i * (i32::MAX as int) + i32::MAX)
                    by (nonlinear_arith);
                assert((i + 1) * (i32::MIN as int) == i * (i32::MIN as int) + i32::MIN)
                    by (nonlinear_arith);
            }
            total_x = total_x + path[i].x as i128;
            total_y = total_y + path[i].y as i128;
            i += 1;
        }
        assert(path@.subrange(0, i as int) =~= path@);
        let count: i128 = path.len() as i128;
        proof {
            lemma_mean_bounds(total_x as int, count as int, i32::MIN as int, i32::MAX as int);
            lemma_mean_bounds(total_y as int, count as int, i32::MIN as int, i32::MAX as int);
        }
        Point { x: (total_x / count) as i32, y: (total_y / count) as i32 }
    }

    /// The unit step that leads away from the centre of the island.
    pub fn calculate_escape_direction(current_pos: Point, island_center: Point) -> (d: (i32, i32))
        ensures
            (d.0 as int, d.1 as int) == escape_direction(current_pos, island_center),
    {
        let dx: i64 = current_pos.x as i64 - island_center.x as i64;
        let dy: i64 = current_pos.y as i64 - island_center.y as i64;
        let adx: i64 = if dx >= 0 { dx } else { -dx };
        let ady: i64 = if dy >= 0 { dy } else { -dy };
        if adx > ady {
            (if dx > 0 { 1 } else { -1 }, 0)
        } else {
            (0, if dy > 0 { 1 } else { -1 })
        }
    }

    /// Steps to the first passable neighbour in the order north, east, south,
    /// west; stays when all four are blocked.
    fn try_alternative_escape_directions(robot_state: &mut RobotState, global_map: &GridMap)
        requires
            old(robot_state)@.wf(),
            global_map@.wf(),
            global_map@.same_shape(old(robot_state)@.map),
        ensures
            final(robot_state)@ == (RobotModel {
                pose: alternative_escape(global_map@, old(robot_state)@.pose),
                ..old(robot_state)@
            }),
            final(robot_state)@.wf(),
    {
        let here = robot_state.pose.position;
        let directions = [NORTH, EAST, SOUTH, WEST];
        let mut k: usize = 0;
        while k < 4
            invariant
                k <= 4,
                global_map@.wf(),
                old(robot_state)@.wf(),
                global_map@.same_shape(old(robot_state)@.map),
                here == robot_state.pose.position,
                *robot_state == *old(robot_state),
                directions@ =~= seq![NORTH, EAST, SOUTH, WEST],
                forall|j: int|
                    0 <= j < k ==> !global_map@.passable(
                        here.x + (#[trigger] directions@[j]).0,
                        here.y + directions@[j].1,
                    ),
            decreases 4 - k,
        {
            let (dx, dy) = directions[k];
            match WallFollower::try_step(here, dx, dy, global_map) {
                Some(next_pos) => {
                    proof {
                        assert(forall|j: int|
                            0 <= j < k ==> !global_map@.passable(
                                here.x + (#[trigger] directions@[j]).0,
                                here.y + directions@[j].1,
                            ));
                        if k >= 1 {
                            assert(directions@[0] == NORTH);
                        }
                        if k >= 2 {
                            assert(directions@[1] == EAST);
                        }
                        if k >= 3 {
                            assert(directions@[2] == SOUTH);
                        }
                    }
                    robot_state.pose.orientation = WallFollower::update_orientation(here, next_pos);
                    robot_state.pose.position = next_pos;
                    return ;
                },
                None => {},
            }
            k += 1;
        }
        proof {
            assert(directions@[0] == NORTH);
            assert(directions@[1] == EAST);
            assert(directions@[2] == SOUTH);
            assert(directions@[3] == WEST);
        }
    }
}

} // verus!
