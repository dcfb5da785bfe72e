//! Runs on small rooms, followed tick by tick.

use vstd::prelude::*;
use vstd::assert_seqs_equal;
use crate::constants::{LEFT_HAND_RULE, RIGHT_HAND_RULE, ROBOT_LEFT_HAND, ROBOT_RIGHT_HAND};
use crate::robot_node::phase_trait::{lemma_first_with_id_unique, ContextModel};
use crate::robot_node::boundary_analysis::classify_rotation;
use crate::robot_node::phases::boundary_analysis::pair_verdict;
use crate::robot_node::phases::boundary_scouting::{fresh_scout, meets_partner, planned_move, with_scout};
use crate::robot_node::{after_tick, with_map};
use crate::simulation_laws::{
    lemma_sensed_cells_stay,
    lemma_started_coherent,
    lemma_started_steady,
    lemma_states_keep_knowledge,
    lemma_step_keeps_knowledge,
    lemma_steady_has_headroom,
    lemma_step_moves_as_on_truth,
    moved_on_truth,
    on_truth,
};
use crate::simulation_manager::{lemma_headroom_fits, started, starting_robot, SimulationModel};
use crate::types::{
    manhattan,
    point_at,
    BoundaryAnalysisResult,
    CellState,
    GridMap,
    GridModel,
    Orientation,
    Point,
    Pose,
    RobotModel,
    RobotPhase,
    ScoutModel,
};

verus! {

/// The cell `(x, y)`.
pub open spec fn at(x: int, y: int) -> Point {
    point_at(x, y)
}

/// An agent that carries `room` as its map.
pub open spec fn agent_in(
    room: GridModel,
    id: u8,
    position: Point,
    orientation: Orientation,
    phase: RobotPhase,
    scout_depth_n: u32,
    boundary_scout: Option<ScoutModel>,
) -> RobotModel {
    RobotModel {
        id,
        pose: Pose { position, orientation },
        phase,
        map: room,
        scout_depth_n,
        partner_id: if id == ROBOT_LEFT_HAND {
            ROBOT_RIGHT_HAND
        } else {
            ROBOT_LEFT_HAND
        },
        boundary_scout,
    }
}

/// The scout of an agent whose first step led east: it traces right-handed,
/// and as long as it has not turned its rotation total is zero.
pub open spec fn east_scout(
    steps_taken: u32,
    steps_taken_this_scouting_mission: u32,
    returning: bool,
    path: Seq<Point>,
    first_move: bool,
) -> ScoutModel {
    ScoutModel {
        tracing_direction: RIGHT_HAND_RULE,
        steps_taken,
        steps_taken_this_scouting_mission,
        returning,
        path,
        first_move,
        initial_scouting_direction: Some(at(1, 0)),
        total_rotation_steps: 0,
    }
}

/// The state after `n` full ticks.
pub open spec fn after_steps(sim: SimulationModel, n: nat) -> SimulationModel
    decreases n,
{
    if n == 0 {
        sim
    } else {
        after_steps(sim, (n - 1) as nat).after_step()
    }
}

/// After `n` full ticks the run is coherent and steady on its ground truth,
/// and its agents, but for their maps, are the given pair.
#[verifier::opaque]
pub open spec fn settled(run: SimulationModel, n: nat, pair: Seq<RobotModel>) -> bool {
    &&& after_steps(run, n).coherent()
    &&& after_steps(run, n).steady()
    &&& after_steps(run, n).map == run.map
    &&& after_steps(run, n).tick_count == n
    &&& on_truth(after_steps(run, n)) == pair
}

/// A run that is settled on a pair is settled, one full tick on, on what one
/// act on the ground truth makes of the pair.
proof fn lemma_settled_tick(
    run: SimulationModel,
    n: nat,
    before: Seq<RobotModel>,
    after: Seq<RobotModel>,
)
    requires
        n < 100,
        settled(run, n, before),
        moved_on_truth(before, run.map) == after,
    ensures
        settled(run, n + 1, after),
{
    reveal(settled);
    lemma_step_moves_as_on_truth(after_steps(run, n));
    assert(after_steps(run, n + 1) == after_steps(run, n).after_step());
}

/// A run is settled at its start on the pair it starts with, if it starts
/// coherent and steady.
proof fn lemma_settled_start(run: SimulationModel, pair: Seq<RobotModel>)
    requires
        run.coherent(),
        run.steady(),
        run.tick_count == 0,
        on_truth(run) == pair,
    ensures
        settled(run, 0, pair),
{
    reveal(settled);
}

/// What a settled run says of its agents: they are as many as the pair, each
/// in the phase, with the identifier and with the scout of its like in the
/// pair, and the run is coherent and steady.
proof fn lemma_settled_agent(run: SimulationModel, n: nat, pair: Seq<RobotModel>, i: int)
    requires
        settled(run, n, pair),
        0 <= i < pair.len(),
    ensures
        after_steps(run, n).robots.len() == pair.len(),
        after_steps(run, n).robots[i].phase == pair[i].phase,
        after_steps(run, n).robots[i].id == pair[i].id,
        after_steps(run, n).robots[i].boundary_scout == pair[i].boundary_scout,
        after_steps(run, n).robots[i].pose == pair[i].pose,
        after_steps(run, n).robots[i].scout_depth_n == pair[i].scout_depth_n,
        after_steps(run, n).map == run.map,
        after_steps(run, n).coherent(),
        after_steps(run, n).steady(),
        after_steps(run, n).tick_count == n,
{
    reveal(settled);
    lemma_on_truth_agent(after_steps(run, n), i);
}

/// A run starts with its pair as placed: facing north, finding the wall,
/// without scouts.
proof fn lemma_start_pair(room: GridModel, first: Point, second: Point)
    ensures
        started(room, first, second).map == room,
        started(room, first, second).tick_count == 0,
        on_truth(started(room, first, second)) == seq![
            agent_in(
                room,
                ROBOT_LEFT_HAND,
                first,
                Orientation::North,
                RobotPhase::InitialWallFind,
                3,
                None,
            ),
            agent_in(
                room,
                ROBOT_RIGHT_HAND,
                second,
                Orientation::North,
                RobotPhase::InitialWallFind,
                3,
                None,
            ),
        ],
{
    let run = started(room, first, second);
    let pair = on_truth(run);
    assert(run.robots.len() == 2);
    assert(pair[0] == with_map(run.robots[0], room));
    assert(pair[1] == with_map(run.robots[1], room));
    assert(run.robots[0] == starting_robot(ROBOT_LEFT_HAND, ROBOT_RIGHT_HAND, first, room));
    assert(run.robots[1] == starting_robot(ROBOT_RIGHT_HAND, ROBOT_LEFT_HAND, second, room));
    assert_seqs_equal!(pair, seq![
        agent_in(
            room,
            ROBOT_LEFT_HAND,
            first,
            Orientation::North,
            RobotPhase::InitialWallFind,
            3,
            None,
        ),
        agent_in(
            room,
            ROBOT_RIGHT_HAND,
            second,
            Orientation::North,
            RobotPhase::InitialWallFind,
            3,
            None,
        ),
    ]);
}

/// In a pair, each agent's partner is the other.
proof fn lemma_pair_partners(pair: Seq<RobotModel>, room: GridModel)
    requires
        pair.len() == 2,
        pair[0].id == ROBOT_LEFT_HAND,
        pair[1].id == ROBOT_RIGHT_HAND,
    ensures
        (ContextModel { all: pair, global: room }).robot_with(ROBOT_LEFT_HAND) == pair[0],
        (ContextModel { all: pair, global: room }).robot_with(ROBOT_RIGHT_HAND) == pair[1],
{
    let context = ContextModel { all: pair, global: room };
    assert(context.is_first_with_id(ROBOT_LEFT_HAND, 0));
    assert(context.is_first_with_id(ROBOT_RIGHT_HAND, 1));
    lemma_first_with_id_unique(context, ROBOT_LEFT_HAND, 0);
    lemma_first_with_id_unique(context, ROBOT_RIGHT_HAND, 1);
}

/// Carrying the ground truth changes neither the number of agents nor their
/// phases nor their scouts.
proof fn lemma_on_truth_agent(sim: SimulationModel, i: int)
    requires
        0 <= i < on_truth(sim).len(),
    ensures
        on_truth(sim).len() == sim.robots.len(),
        on_truth(sim)[i].phase == sim.robots[i].phase,
        on_truth(sim)[i].id == sim.robots[i].id,
        on_truth(sim)[i].boundary_scout == sim.robots[i].boundary_scout,
        on_truth(sim)[i].pose == sim.robots[i].pose,
        on_truth(sim)[i].scout_depth_n == sim.robots[i].scout_depth_n,
{
}

/// A settled run keeps, one full tick on, what its agents knew.
proof fn lemma_settled_keeps(run: SimulationModel, n: nat, pair: Seq<RobotModel>)
    requires
        settled(run, n, pair),
    ensures
        after_steps(run, n + 1).keeps_knowledge_of(after_steps(run, n)),
{
    reveal(settled);
    lemma_step_keeps_knowledge(after_steps(run, n));
    assert(after_steps(run, n + 1) == after_steps(run, n).after_step());
}

/// A state keeps what it knows.
proof fn lemma_keeps_own_knowledge(sim: SimulationModel)
    ensures
        sim.keeps_knowledge_of(sim),
{
}

/// A box of six by four cells, walled all round.
pub open spec fn box_room() -> GridModel {
    GridModel {
        width: 6,
        height: 4,
        cells: Seq::new(
            24,
            |i: int|
                if i < 6 || i >= 18 || i % 6 == 0 || i % 6 == 5 {
                    CellState::Obstacle
                } else {
                    CellState::Empty
                },
        ),
    }
}

/// The box as a map.
pub fn box_map() -> (map: GridMap)
    ensures
        map@ == box_room(),
{
    let mut cells: Vec<CellState> = Vec::new();
    let mut i: usize = 0;
    while i < 24
        invariant
            i <= 24,
            cells@.len() == i,
            forall|k: int| 0 <= k < i ==> cells@[k] == box_room().cells[k],
        decreases 24 - i,
    {
        if i < 6 || i >= 18 || i % 6 == 0 || i % 6 == 5 {
            cells.push(CellState::Obstacle);
        } else {
            cells.push(CellState::Empty);
        }
        i += 1;
    }
    assert(cells@ =~= box_room().cells);
    GridMap { width: 6, height: 4, cells }
}

/// The cells of the box: a wall in the first and last row and column, empty
/// elsewhere; no cell lies beyond them.
proof fn lemma_box_room(x: int, y: int)
    ensures
        box_room().wf(),
        box_room().fully_known(),
        box_room().in_bounds(x, y) <==> 0 <= x < 6 && 0 <= y < 4,
        box_room().in_bounds(x, y) ==> box_room().cell(x, y) == if x == 0 || x == 5 || y == 0 || y
            == 3 {
            CellState::Obstacle
        } else {
            CellState::Empty
        },
{
    assert(box_room().index_of(x, y) == y * 6 + x);
}

/// The run in the box with the agents starting on the two cells in the
/// corner under the upper wall.
pub open spec fn box_run() -> SimulationModel {
    started(box_room(), at(1, 1), at(2, 1))
}

/// The left agent in the box, at the start.
pub open spec fn box_left_at_start() -> RobotModel {
    agent_in(
        box_room(),
        ROBOT_LEFT_HAND,
        at(1, 1),
        Orientation::North,
        RobotPhase::InitialWallFind,
        3,
        None,
    )
}

/// The left agent in the box, at the wall, about to scout.
pub open spec fn box_left_at_wall() -> RobotModel {
    agent_in(
        box_room(),
        ROBOT_LEFT_HAND,
        at(1, 1),
        Orientation::North,
        RobotPhase::BoundaryScouting,
        3,
        None,
    )
}

/// The left agent in the box, one step out.
pub open spec fn box_left_one_out() -> RobotModel {
    agent_in(
        box_room(),
        ROBOT_LEFT_HAND,
        at(2, 1),
        Orientation::East,
        RobotPhase::BoundaryScouting,
        3,
        Some(east_scout(1, 1, false, seq![at(1, 1), at(2, 1)], false)),
    )
}

/// The left agent in the box, two steps out.
pub open spec fn box_left_two_out() -> RobotModel {
    agent_in(
        box_room(),
        ROBOT_LEFT_HAND,
        at(3, 1),
        Orientation::East,
        RobotPhase::BoundaryScouting,
        3,
        Some(east_scout(2, 2, false, seq![at(1, 1), at(2, 1), at(3, 1)], false)),
    )
}

/// The left agent in the box, three steps out, at the end of its leg.
pub open spec fn box_left_three_out() -> RobotModel {
    agent_in(
        box_room(),
        ROBOT_LEFT_HAND,
        at(4, 1),
        Orientation::East,
        RobotPhase::BoundaryScouting,
        3,
        Some(east_scout(3, 3, false, seq![at(1, 1), at(2, 1), at(3, 1), at(4, 1)], false)),
    )
}

/// The left agent in the box, turned round at the end of its leg.
pub open spec fn box_left_turned() -> RobotModel {
    agent_in(
        box_room(),
        ROBOT_LEFT_HAND,
        at(4, 1),
        Orientation::East,
        RobotPhase::BoundaryScouting,
        3,
        Some(east_scout(3, 0, true, seq![at(1, 1), at(2, 1), at(3, 1), at(4, 1)], false)),
    )
}

/// The left agent in the box, one step back.
pub open spec fn box_left_one_back() -> RobotModel {
    agent_in(
        box_room(),
        ROBOT_LEFT_HAND,
        at(3, 1),
        Orientation::West,
        RobotPhase::BoundaryScouting,
        3,
        Some(east_scout(3, 1, true, seq![at(1, 1), at(2, 1), at(3, 1), at(4, 1)], false)),
    )
}

/// The left agent in the box, two steps back.
pub open spec fn box_left_two_back() -> RobotModel {
    agent_in(
        box_room(),
        ROBOT_LEFT_HAND,
        at(2, 1),
        Orientation::West,
        RobotPhase::BoundaryScouting,
        3,
        Some(east_scout(3, 2, true, seq![at(1, 1), at(2, 1), at(3, 1), at(4, 1)], false)),
    )
}

/// The left agent in the box, back where its leg began.
pub open spec fn box_left_home() -> RobotModel {
    agent_in(
        box_room(),
        ROBOT_LEFT_HAND,
        at(1, 1),
        Orientation::West,
        RobotPhase::BoundaryScouting,
        3,
        Some(east_scout(3, 3, true, seq![at(1, 1), at(2, 1), at(3, 1), at(4, 1)], false)),
    )
}

/// The left agent in the box, at the start of a leg of twice the length.
pub open spec fn box_left_anew() -> RobotModel {
    agent_in(
        box_room(),
        ROBOT_LEFT_HAND,
        at(1, 1),
        Orientation::West,
        RobotPhase::BoundaryScouting,
        6,
        Some(east_scout(3, 0, false, seq![at(1, 1)], true)),
    )
}

/// The left agent in the box, one step out on its second leg.
pub open spec fn box_left_out_again() -> RobotModel {
    agent_in(
        box_room(),
        ROBOT_LEFT_HAND,
        at(2, 1),
        Orientation::East,
        RobotPhase::BoundaryScouting,
        6,
        Some(east_scout(4, 1, false, seq![at(1, 1), at(2, 1)], false)),
    )
}

/// The left agent in the box, two steps out on its second leg, where it meets
/// its partner.
pub open spec fn box_left_met() -> RobotModel {
    agent_in(
        box_room(),
        ROBOT_LEFT_HAND,
        at(3, 1),
        Orientation::East,
        RobotPhase::BoundaryAnalysis,
        12,
        Some(east_scout(5, 2, false, seq![at(1, 1), at(2, 1), at(3, 1)], false)),
    )
}

/// The right agent in the box, at the start.
pub open spec fn box_right_at_start() -> RobotModel {
    agent_in(
        box_room(),
        ROBOT_RIGHT_HAND,
        at(2, 1),
        Orientation::North,
        RobotPhase::InitialWallFind,
        3,
        None,
    )
}

/// The right agent in the box, at the wall, about to scout.
pub open spec fn box_right_at_wall() -> RobotModel {
    agent_in(
        box_room(),
        ROBOT_RIGHT_HAND,
        at(2, 1),
        Orientation::North,
        RobotPhase::BoundaryScouting,
        3,
        None,
    )
}

/// The right agent in the box, one step out.
pub open spec fn box_right_one_out() -> RobotModel {
    agent_in(
        box_room(),
        ROBOT_RIGHT_HAND,
        at(3, 1),
        Orientation::East,
        RobotPhase::BoundaryScouting,
        3,
        Some(east_scout(1, 1, false, seq![at(2, 1), at(3, 1)], false)),
    )
}

/// The right agent in the box, two steps out, where it meets its partner and
/// waits for it.
pub open spec fn box_right_met() -> RobotModel {
    agent_in(
        box_room(),
        ROBOT_RIGHT_HAND,
        at(4, 1),
        Orientation::East,
        RobotPhase::BoundaryAnalysis,
        6,
        Some(east_scout(2, 2, false, seq![at(2, 1), at(3, 1), at(4, 1)], false)),
    )
}

/// The first tick in the box: both agents see the wall north of them and turn
/// to scouting.
#[verifier::rlimit(40)]
proof fn lemma_box_first_tick()
    ensures
        moved_on_truth(seq![box_left_at_start(), box_right_at_start()], box_room()) == seq![
            box_left_at_wall(),
            box_right_at_wall(),
        ],
{
    lemma_box_room(0, 1);
    lemma_box_room(1, 0);
    lemma_box_room(1, 1);
    lemma_box_room(1, 2);
    lemma_box_room(2, 0);
    lemma_box_room(2, 1);
    lemma_box_room(2, 2);
    lemma_box_room(3, 1);
    let pair = seq![box_left_at_start(), box_right_at_start()];
    let context = ContextModel { all: pair, global: box_room() };
    lemma_pair_partners(pair, box_room());
    assert(moved_on_truth(pair, box_room())[0] == box_left_at_wall());
    assert(moved_on_truth(pair, box_room())[1] == box_right_at_wall());
    assert(moved_on_truth(pair, box_room()) =~= seq![box_left_at_wall(), box_right_at_wall()]);
}

/// The second tick in the box: the left agent cannot turn away from its
/// partner, for the wall is there, so both agents step east.
#[verifier::rlimit(40)]
proof fn lemma_box_second_tick()
    ensures
        moved_on_truth(seq![box_left_at_wall(), box_right_at_wall()], box_room()) == seq![
            box_left_one_out(),
            box_right_one_out(),
        ],
{
    lemma_box_room(0, 1);
    lemma_box_room(1, 0);
    lemma_box_room(1, 1);
    lemma_box_room(1, 2);
    lemma_box_room(2, 0);
    lemma_box_room(2, 1);
    lemma_box_room(2, 2);
    lemma_box_room(3, 1);
    let pair = seq![box_left_at_wall(), box_right_at_wall()];
    let context = ContextModel { all: pair, global: box_room() };
    lemma_pair_partners(pair, box_room());
    assert(planned_move(with_scout(pair[0]), fresh_scout(pair[0]), context) == Some(at(2, 1)));
    assert(after_tick(pair[0], context).boundary_scout->0.path
        =~= box_left_one_out().boundary_scout->0.path);
    assert(after_tick(pair[0], context).boundary_scout->0 == box_left_one_out().boundary_scout->0);
    assert(moved_on_truth(pair, box_room())[0] == box_left_one_out());
    assert(planned_move(with_scout(pair[1]), fresh_scout(pair[1]), context) == Some(at(3, 1)));
    assert(after_tick(pair[1], context).boundary_scout->0.path
        =~= box_right_one_out().boundary_scout->0.path);
    assert(after_tick(pair[1], context).boundary_scout->0 == box_right_one_out().boundary_scout->0);
    assert(moved_on_truth(pair, box_room())[1] == box_right_one_out());
    assert(moved_on_truth(pair, box_room()) =~= seq![box_left_one_out(), box_right_one_out()]);
}

/// The third tick in the box: both step on; the right agent finds its partner
/// two cells behind it and turns to boundary analysis.
#[verifier::rlimit(40)]
proof fn lemma_box_third_tick()
    ensures
        moved_on_truth(seq![box_left_one_out(), box_right_one_out()], box_room()) == seq![
            box_left_two_out(),
            box_right_met(),
        ],
{
    lemma_box_room(1, 1);
    lemma_box_room(2, 0);
    lemma_box_room(2, 1);
    lemma_box_room(2, 2);
    lemma_box_room(3, 0);
    lemma_box_room(3, 1);
    lemma_box_room(3, 2);
    lemma_box_room(4, 1);
    let pair = seq![box_left_one_out(), box_right_one_out()];
    let context = ContextModel { all: pair, global: box_room() };
    lemma_pair_partners(pair, box_room());
    assert(planned_move(with_scout(pair[0]), pair[0].boundary_scout->0, context) == Some(at(3, 1)));
    assert(after_tick(pair[0], context).boundary_scout->0.path
        =~= box_left_two_out().boundary_scout->0.path);
    assert(after_tick(pair[0], context).boundary_scout->0 == box_left_two_out().boundary_scout->0);
    assert(moved_on_truth(pair, box_room())[0] == box_left_two_out());
    assert(planned_move(with_scout(pair[1]), pair[1].boundary_scout->0, context) == Some(at(4, 1)));
    assert(after_tick(pair[1], context).boundary_scout->0.path
        =~= box_right_met().boundary_scout->0.path);
    assert(after_tick(pair[1], context).boundary_scout->0 == box_right_met().boundary_scout->0);
    assert(moved_on_truth(pair, box_room())[1] == box_right_met());
    assert(moved_on_truth(pair, box_room()) =~= seq![box_left_two_out(), box_right_met()]);
}

/// The fourth tick in the box: the left agent steps onto its partner's cell,
/// which is no meeting.
#[verifier::rlimit(40)]
proof fn lemma_box_fourth_tick()
    ensures
        moved_on_truth(seq![box_left_two_out(), box_right_met()], box_room()) == seq![
            box_left_three_out(),
            box_right_met(),
        ],
{
    lemma_box_room(2, 1);
    lemma_box_room(3, 0);
    lemma_box_room(3, 2);
    lemma_box_room(4, 1);
    let pair = seq![box_left_two_out(), box_right_met()];
    let context = ContextModel { all: pair, global: box_room() };
    lemma_pair_partners(pair, box_room());
    assert(planned_move(with_scout(pair[0]), pair[0].boundary_scout->0, context) == Some(at(4, 1)));
    assert(after_tick(pair[0], context).boundary_scout->0.path
        =~= box_left_three_out().boundary_scout->0.path);
    assert(after_tick(pair[0], context).boundary_scout->0 == box_left_three_out().boundary_scout->0);
    assert(moved_on_truth(pair, box_room())[0] == box_left_three_out());
    assert(moved_on_truth(pair, box_room())[1] == box_right_met());
    assert(moved_on_truth(pair, box_room()) =~= seq![box_left_three_out(), box_right_met()]);
}

/// The fifth tick in the box: the left agent has taken the three steps of its
/// leg and turns round.
#[verifier::rlimit(40)]
proof fn lemma_box_fifth_tick()
    ensures
        moved_on_truth(seq![box_left_three_out(), box_right_met()], box_room()) == seq![
            box_left_turned(),
            box_right_met(),
        ],
{
    lemma_box_room(3, 1);
    lemma_box_room(4, 0);
    lemma_box_room(4, 2);
    lemma_box_room(5, 1);
    let pair = seq![box_left_three_out(), box_right_met()];
    let context = ContextModel { all: pair, global: box_room() };
    lemma_pair_partners(pair, box_room());
    assert(after_tick(pair[0], context).boundary_scout->0.path
        =~= box_left_turned().boundary_scout->0.path);
    assert(after_tick(pair[0], context).boundary_scout->0 == box_left_turned().boundary_scout->0);
    assert(moved_on_truth(pair, box_room())[0] == box_left_turned());
    assert(moved_on_truth(pair, box_room())[1] == box_right_met());
    assert(moved_on_truth(pair, box_room()) =~= seq![box_left_turned(), box_right_met()]);
}

/// The sixth tick in the box: the left agent takes its first step back.
#[verifier::rlimit(40)]
proof fn lemma_box_sixth_tick()
    ensures
        moved_on_truth(seq![box_left_turned(), box_right_met()], box_room()) == seq![
            box_left_one_back(),
            box_right_met(),
        ],
{
    lemma_box_room(3, 1);
    lemma_box_room(4, 0);
    lemma_box_room(4, 2);
    lemma_box_room(5, 1);
    let pair = seq![box_left_turned(), box_right_met()];
    let context = ContextModel { all: pair, global: box_room() };
    lemma_pair_partners(pair, box_room());
    assert(after_tick(pair[0], context).boundary_scout->0.path
        =~= box_left_one_back().boundary_scout->0.path);
    assert(after_tick(pair[0], context).boundary_scout->0 == box_left_one_back().boundary_scout->0);
    assert(moved_on_truth(pair, box_room())[0] == box_left_one_back());
    assert(moved_on_truth(pair, box_room())[1] == box_right_met());
    assert(moved_on_truth(pair, box_room()) =~= seq![box_left_one_back(), box_right_met()]);
}

/// The seventh tick in the box: the left agent takes its second step back.
#[verifier::rlimit(40)]
proof fn lemma_box_seventh_tick()
    ensures
        moved_on_truth(seq![box_left_one_back(), box_right_met()], box_room()) == seq![
            box_left_two_back(),
            box_right_met(),
        ],
{
    lemma_box_room(2, 1);
    lemma_box_room(3, 0);
    lemma_box_room(3, 2);
    lemma_box_room(4, 1);
    let pair = seq![box_left_one_back(), box_right_met()];
    let context = ContextModel { all: pair, global: box_room() };
    lemma_pair_partners(pair, box_room());
    assert(after_tick(pair[0], context).boundary_scout->0.path
        =~= box_left_two_back().boundary_scout->0.path);
    assert(after_tick(pair[0], context).boundary_scout->0 == box_left_two_back().boundary_scout->0);
    assert(moved_on_truth(pair, box_room())[0] == box_left_two_back());
    assert(moved_on_truth(pair, box_room())[1] == box_right_met());
    assert(moved_on_truth(pair, box_room()) =~= seq![box_left_two_back(), box_right_met()]);
}

/// The eighth tick in the box: the left agent takes its third step back and is
/// where its leg began.
#[verifier::rlimit(40)]
proof fn lemma_box_eighth_tick()
    ensures
        moved_on_truth(seq![box_left_two_back(), box_right_met()], box_room()) == seq![
            box_left_home(),
            box_right_met(),
        ],
{
    lemma_box_room(1, 1);
    lemma_box_room(2, 0);
    lemma_box_room(2, 2);
    lemma_box_room(3, 1);
    let pair = seq![box_left_two_back(), box_right_met()];
    let context = ContextModel { all: pair, global: box_room() };
    lemma_pair_partners(pair, box_room());
    assert(after_tick(pair[0], context).boundary_scout->0.path
        =~= box_left_home().boundary_scout->0.path);
    assert(after_tick(pair[0], context).boundary_scout->0 == box_left_home().boundary_scout->0);
    assert(moved_on_truth(pair, box_room())[0] == box_left_home());
    assert(moved_on_truth(pair, box_room())[1] == box_right_met());
    assert(moved_on_truth(pair, box_room()) =~= seq![box_left_home(), box_right_met()]);
}

/// The ninth tick in the box: the left agent doubles its leg length and begins
/// anew.
#[verifier::rlimit(40)]
proof fn lemma_box_ninth_tick()
    ensures
        moved_on_truth(seq![box_left_home(), box_right_met()], box_room()) == seq![
            box_left_anew(),
            box_right_met(),
        ],
{
    lemma_box_room(0, 1);
    lemma_box_room(1, 0);
    lemma_box_room(1, 2);
    lemma_box_room(2, 1);
    let pair = seq![box_left_home(), box_right_met()];
    let context = ContextModel { all: pair, global: box_room() };
    lemma_pair_partners(pair, box_room());
    assert(after_tick(pair[0], context).boundary_scout->0.path
        =~= box_left_anew().boundary_scout->0.path);
    assert(after_tick(pair[0], context).boundary_scout->0 == box_left_anew().boundary_scout->0);
    assert(moved_on_truth(pair, box_room())[0] == box_left_anew());
    assert(moved_on_truth(pair, box_room())[1] == box_right_met());
    assert(moved_on_truth(pair, box_room()) =~= seq![box_left_anew(), box_right_met()]);
}

/// The tenth tick in the box: the left agent repeats its first step.
#[verifier::rlimit(40)]
proof fn lemma_box_tenth_tick()
    ensures
        moved_on_truth(seq![box_left_anew(), box_right_met()], box_room()) == seq![
            box_left_out_again(),
            box_right_met(),
        ],
{
    lemma_box_room(0, 1);
    lemma_box_room(1, 0);
    lemma_box_room(1, 2);
    lemma_box_room(2, 1);
    let pair = seq![box_left_anew(), box_right_met()];
    let context = ContextModel { all: pair, global: box_room() };
    lemma_pair_partners(pair, box_room());
    assert(planned_move(with_scout(pair[0]), pair[0].boundary_scout->0, context) == Some(at(2, 1)));
    assert(after_tick(pair[0], context).boundary_scout->0.path
        =~= box_left_out_again().boundary_scout->0.path);
    assert(after_tick(pair[0], context).boundary_scout->0 == box_left_out_again().boundary_scout->0);
    assert(moved_on_truth(pair, box_room())[0] == box_left_out_again());
    assert(moved_on_truth(pair, box_room())[1] == box_right_met());
    assert(moved_on_truth(pair, box_room()) =~= seq![box_left_out_again(), box_right_met()]);
}

/// The eleventh tick in the box: the left agent steps on, finds its partner
/// next to it, and turns to boundary analysis too.
#[verifier::rlimit(40)]
proof fn lemma_box_eleventh_tick()
    ensures
        moved_on_truth(seq![box_left_out_again(), box_right_met()], box_room()) == seq![
            box_left_met(),
            box_right_met(),
        ],
{
    lemma_box_room(1, 1);
    lemma_box_room(2, 0);
    lemma_box_room(2, 2);
    lemma_box_room(3, 1);
    let pair = seq![box_left_out_again(), box_right_met()];
    let context = ContextModel { all: pair, global: box_room() };
    lemma_pair_partners(pair, box_room());
    assert(planned_move(with_scout(pair[0]), pair[0].boundary_scout->0, context) == Some(at(3, 1)));
    assert(after_tick(pair[0], context).boundary_scout->0.path
        =~= box_left_met().boundary_scout->0.path);
    assert(after_tick(pair[0], context).boundary_scout->0 == box_left_met().boundary_scout->0);
    assert(moved_on_truth(pair, box_room())[0] == box_left_met());
    assert(moved_on_truth(pair, box_room())[1] == box_right_met());
    assert(moved_on_truth(pair, box_room()) =~= seq![box_left_met(), box_right_met()]);
}

/// The box run starts coherent and steady.
proof fn lemma_box_start_sound()
    ensures
        box_run().coherent(),
        box_run().steady(),
{
    lemma_box_room(1, 1);
    lemma_box_room(2, 1);
    lemma_started_coherent(box_room(), at(1, 1), at(2, 1));
    lemma_started_steady(box_room(), at(1, 1), at(2, 1));
}

/// The box run starts coherent and steady, with the pair at its start.
#[verifier::rlimit(40)]
proof fn lemma_box_after_no_tick()
    ensures
        settled(box_run(), 0, seq![box_left_at_start(), box_right_at_start()]),
{
    lemma_box_start_sound();
    lemma_start_pair(box_room(), at(1, 1), at(2, 1));
    assert(on_truth(box_run()) =~= seq![box_left_at_start(), box_right_at_start()]);
    lemma_settled_start(box_run(), seq![box_left_at_start(), box_right_at_start()]);
}

/// The box run after one tick.
#[verifier::rlimit(40)]
proof fn lemma_box_after_one_tick()
    ensures
        settled(box_run(), 1, seq![box_left_at_wall(), box_right_at_wall()]),
{
    lemma_box_after_no_tick();
    lemma_box_first_tick();
    lemma_settled_tick(
        box_run(),
        0,
        seq![box_left_at_start(), box_right_at_start()],
        seq![box_left_at_wall(), box_right_at_wall()],
    );
}

/// The box run after two ticks.
proof fn lemma_box_after_two_ticks()
    ensures
        settled(box_run(), 2, seq![box_left_one_out(), box_right_one_out()]),
{
    lemma_box_after_one_tick();
    lemma_box_second_tick();
    lemma_settled_tick(
        box_run(),
        1,
        seq![box_left_at_wall(), box_right_at_wall()],
        seq![box_left_one_out(), box_right_one_out()],
    );
}

/// The box run after three ticks.
proof fn lemma_box_after_three_ticks()
    ensures
        settled(box_run(), 3, seq![box_left_two_out(), box_right_met()]),
{
    lemma_box_after_two_ticks();
    lemma_box_third_tick();
    lemma_settled_tick(
        box_run(),
        2,
        seq![box_left_one_out(), box_right_one_out()],
        seq![box_left_two_out(), box_right_met()],
    );
}

/// The box run after four ticks.
proof fn lemma_box_after_four_ticks()
    ensures
        settled(box_run(), 4, seq![box_left_three_out(), box_right_met()]),
{
    lemma_box_after_three_ticks();
    lemma_box_fourth_tick();
    lemma_settled_tick(
        box_run(),
        3,
        seq![box_left_two_out(), box_right_met()],
        seq![box_left_three_out(), box_right_met()],
    );
}

/// The box run after five ticks.
proof fn lemma_box_after_five_ticks()
    ensures
        settled(box_run(), 5, seq![box_left_turned(), box_right_met()]),
{
    lemma_box_after_four_ticks();
    lemma_box_fifth_tick();
    lemma_settled_tick(
        box_run(),
        4,
        seq![box_left_three_out(), box_right_met()],
        seq![box_left_turned(), box_right_met()],
    );
}

/// The box run after six ticks.
proof fn lemma_box_after_six_ticks()
    ensures
        settled(box_run(), 6, seq![box_left_one_back(), box_right_met()]),
{
    lemma_box_after_five_ticks();
    lemma_box_sixth_tick();
    lemma_settled_tick(
        box_run(),
        5,
        seq![box_left_turned(), box_right_met()],
        seq![box_left_one_back(), box_right_met()],
    );
}

/// The box run after seven ticks.
proof fn lemma_box_after_seven_ticks()
    ensures
        settled(box_run(), 7, seq![box_left_two_back(), box_right_met()]),
{
    lemma_box_after_six_ticks();
    lemma_box_seventh_tick();
    lemma_settled_tick(
        box_run(),
        6,
        seq![box_left_one_back(), box_right_met()],
        seq![box_left_two_back(), box_right_met()],
    );
}

/// The box run after eight ticks.
proof fn lemma_box_after_eight_ticks()
    ensures
        settled(box_run(), 8, seq![box_left_home(), box_right_met()]),
{
    lemma_box_after_seven_ticks();
    lemma_box_eighth_tick();
    lemma_settled_tick(
        box_run(),
        7,
        seq![box_left_two_back(), box_right_met()],
        seq![box_left_home(), box_right_met()],
    );
}

/// The box run after nine ticks.
proof fn lemma_box_after_nine_ticks()
    ensures
        settled(box_run(), 9, seq![box_left_anew(), box_right_met()]),
{
    lemma_box_after_eight_ticks();
    lemma_box_ninth_tick();
    lemma_settled_tick(
        box_run(),
        8,
        seq![box_left_home(), box_right_met()],
        seq![box_left_anew(), box_right_met()],
    );
}

/// The box run after ten ticks.
proof fn lemma_box_after_ten_ticks()
    ensures
        settled(box_run(), 10, seq![box_left_out_again(), box_right_met()]),
{
    lemma_box_after_nine_ticks();
    lemma_box_tenth_tick();
    lemma_settled_tick(
        box_run(),
        9,
        seq![box_left_anew(), box_right_met()],
        seq![box_left_out_again(), box_right_met()],
    );
}

/// The box run after eleven ticks.
proof fn lemma_box_after_eleven_ticks()
    ensures
        settled(box_run(), 11, seq![box_left_met(), box_right_met()]),
{
    lemma_box_after_ten_ticks();
    lemma_box_eleventh_tick();
    lemma_settled_tick(
        box_run(),
        10,
        seq![box_left_out_again(), box_right_met()],
        seq![box_left_met(), box_right_met()],
    );
}

/// In the box the right agent is in boundary analysis after three full ticks.
proof fn lemma_box_right_agent_met()
    ensures
        after_steps(box_run(), 3).robots.len() == 2,
        after_steps(box_run(), 3).robots[1].phase == RobotPhase::BoundaryAnalysis,
{
    lemma_box_after_three_ticks();
    lemma_settled_agent(box_run(), 3, seq![box_left_two_out(), box_right_met()], 1);
}

/// In the box both agents are in boundary analysis after eleven full ticks,
/// each with a rotation total of zero.
proof fn lemma_box_both_agents_met()
    ensures
        after_steps(box_run(), 11).robots.len() == 2,
        after_steps(box_run(), 11).robots[0].phase == RobotPhase::BoundaryAnalysis,
        after_steps(box_run(), 11).robots[1].phase == RobotPhase::BoundaryAnalysis,
        after_steps(box_run(), 11).robots[0].id == ROBOT_LEFT_HAND,
        after_steps(box_run(), 11).robots[1].id == ROBOT_RIGHT_HAND,
        after_steps(box_run(), 11).robots[0].rotation_total() == Some(0i32),
        after_steps(box_run(), 11).robots[1].rotation_total() == Some(0i32),
        after_steps(box_run(), 11).coherent(),
        after_steps(box_run(), 11).steady(),
{
    lemma_box_after_eleven_ticks();
    lemma_settled_agent(box_run(), 11, seq![box_left_met(), box_right_met()], 0);
    lemma_settled_agent(box_run(), 11, seq![box_left_met(), box_right_met()], 1);
}

/// In the box both agents reach boundary analysis: the right one is in it
/// after three full ticks, the left one after eleven, and there the run is
/// still coherent and steady. Their rotation totals are both zero, so the
/// verdict on them is undecided.
pub proof fn lemma_box_run_reaches_analysis()
    ensures
        after_steps(box_run(), 3).robots[1].phase == RobotPhase::BoundaryAnalysis,
        after_steps(box_run(), 11).robots.len() == 2,
        after_steps(box_run(), 11).robots[0].phase == RobotPhase::BoundaryAnalysis,
        after_steps(box_run(), 11).robots[1].phase == RobotPhase::BoundaryAnalysis,
        after_steps(box_run(), 11).coherent(),
        after_steps(box_run(), 11).steady(),
        pair_verdict(after_steps(box_run(), 11).robots[0], after_steps(box_run(), 11).robots[1])
            == BoundaryAnalysisResult::Incomplete,
{
    lemma_box_right_agent_met();
    lemma_box_both_agents_met();
}

/// A room of ten by six cells, walled all round, with an island of two by
/// two cells in its middle.
pub open spec fn island_room() -> GridModel {
    GridModel {
        width: 10,
        height: 6,
        cells: Seq::new(
            60,
            |i: int|
                if i < 10 || i >= 50 || i % 10 == 0 || i % 10 == 9 || i == 24 || i == 25 || i == 34
                    || i == 35 {
                    CellState::Obstacle
                } else {
                    CellState::Empty
                },
        ),
    }
}

/// The island room as a map.
pub fn island_map() -> (map: GridMap)
    ensures
        map@ == island_room(),
{
    let mut cells: Vec<CellState> = Vec::new();
    let mut i: usize = 0;
    while i < 60
        invariant
            i <= 60,
            cells@.len() == i,
            forall|k: int| 0 <= k < i ==> cells@[k] == island_room().cells[k],
        decreases 60 - i,
    {
        if i < 10 || i >= 50 || i % 10 == 0 || i % 10 == 9 || i == 24 || i == 25 || i == 34 || i
            == 35 {
            cells.push(CellState::Obstacle);
        } else {
            cells.push(CellState::Empty);
        }
        i += 1;
    }
    assert(cells@ =~= island_room().cells);
    GridMap { width: 10, height: 6, cells }
}

/// The cells of the island room: a wall in the first and last row and
/// column and on the four cells of the island, empty elsewhere.
proof fn lemma_island_room(x: int, y: int)
    requires
        0 <= x < 10,
        0 <= y < 6,
    ensures
        island_room().wf(),
        island_room().fully_known(),
        island_room().in_bounds(x, y),
        island_room().cell(x, y) == if x == 0 || x == 9 || y == 0 || y == 5 || ((x == 4 || x == 5)
            && (y == 2 || y == 3)) {
            CellState::Obstacle
        } else {
            CellState::Empty
        },
{
    assert(island_room().index_of(x, y) == y * 10 + x);
}

/// The run in the island room with the agents starting on the two cells in
/// the corner under the upper wall.
pub open spec fn island_run() -> SimulationModel {
    started(island_room(), at(1, 1), at(2, 1))
}

/// An agent in the island room with the initial leg length.
pub open spec fn island_agent(
    id: u8,
    position: Point,
    orientation: Orientation,
    phase: RobotPhase,
    boundary_scout: Option<ScoutModel>,
) -> RobotModel {
    agent_in(island_room(), id, position, orientation, phase, 3, boundary_scout)
}

/// The two agents in the island room at the start.
pub open spec fn island_pair_at_start() -> Seq<RobotModel> {
    seq![
        island_agent(
            ROBOT_LEFT_HAND,
            at(1, 1),
            Orientation::North,
            RobotPhase::InitialWallFind,
            None,
        ),
        island_agent(
            ROBOT_RIGHT_HAND,
            at(2, 1),
            Orientation::North,
            RobotPhase::InitialWallFind,
            None,
        ),
    ]
}

/// The two agents in the island room after the first tick: both have seen
/// the wall.
pub open spec fn island_pair_at_wall() -> Seq<RobotModel> {
    seq![
        island_agent(
            ROBOT_LEFT_HAND,
            at(1, 1),
            Orientation::North,
            RobotPhase::BoundaryScouting,
            None,
        ),
        island_agent(
            ROBOT_RIGHT_HAND,
            at(2, 1),
            Orientation::North,
            RobotPhase::BoundaryScouting,
            None,
        ),
    ]
}

/// The two agents in the island room after the second tick: both have
/// stepped east.
pub open spec fn island_pair_under_way() -> Seq<RobotModel> {
    seq![
        island_agent(
            ROBOT_LEFT_HAND,
            at(2, 1),
            Orientation::East,
            RobotPhase::BoundaryScouting,
            Some(east_scout(1, 1, false, seq![at(1, 1), at(2, 1)], false)),
        ),
        island_agent(
            ROBOT_RIGHT_HAND,
            at(3, 1),
            Orientation::East,
            RobotPhase::BoundaryScouting,
            Some(east_scout(1, 1, false, seq![at(2, 1), at(3, 1)], false)),
        ),
    ]
}

/// The first tick in the island room: both agents see the wall north of
/// them and turn to scouting.
#[verifier::rlimit(40)]
proof fn lemma_island_first_tick()
    ensures
        moved_on_truth(island_pair_at_start(), island_room()) == island_pair_at_wall(),
{
    lemma_island_room(1, 0);
    lemma_island_room(2, 0);
    let moved = moved_on_truth(island_pair_at_start(), island_room());
    assert(moved[0] == island_pair_at_wall()[0]);
    assert(moved[1] == island_pair_at_wall()[1]);
    assert(moved =~= island_pair_at_wall());
}

/// The second tick in the island room: the left agent cannot turn away from
/// its partner, for the wall is there, so both agents step east.
#[verifier::rlimit(40)]
proof fn lemma_island_second_tick()
    ensures
        moved_on_truth(island_pair_at_wall(), island_room()) == island_pair_under_way(),
{
    lemma_island_room(0, 1);
    lemma_island_room(1, 0);
    lemma_island_room(2, 1);
    lemma_island_room(3, 1);
    let pair = island_pair_at_wall();
    let context = ContextModel { all: pair, global: island_room() };
    lemma_pair_partners(pair, island_room());
    let moved = moved_on_truth(pair, island_room());
    let left = after_tick(pair[0], context);
    let right = after_tick(pair[1], context);
    assert(planned_move(with_scout(pair[0]), fresh_scout(pair[0]), context) == Some(at(2, 1)));
    assert(planned_move(with_scout(pair[1]), fresh_scout(pair[1]), context) == Some(at(3, 1)));
    assert(left.boundary_scout->0.path =~= seq![at(1, 1), at(2, 1)]);
    assert(right.boundary_scout->0.path =~= seq![at(2, 1), at(3, 1)]);
    assert(left.boundary_scout->0 == island_pair_under_way()[0].boundary_scout->0);
    assert(right.boundary_scout->0 == island_pair_under_way()[1].boundary_scout->0);
    assert(moved[0] == island_pair_under_way()[0]);
    assert(moved[1] == island_pair_under_way()[1]);
    assert(moved =~= island_pair_under_way());
}

/// The third tick in the island room: the right agent steps on along the
/// wall, finds its partner two cells behind it, and turns to boundary
/// analysis.
#[verifier::rlimit(40)]
proof fn lemma_island_third_tick()
    ensures
        moved_on_truth(island_pair_under_way(), island_room()).len() == 2,
        moved_on_truth(island_pair_under_way(), island_room())[1].phase
            == RobotPhase::BoundaryAnalysis,
{
    lemma_island_room(3, 0);
    lemma_island_room(4, 1);
    let pair = island_pair_under_way();
    let context = ContextModel { all: pair, global: island_room() };
    lemma_pair_partners(pair, island_room());
    let scout = pair[1].boundary_scout->0;
    assert(planned_move(pair[1], scout, context) == Some(at(4, 1)));
    assert(meets_partner(pair[1], scout, context, at(4, 1)));
}

/// The island run after two full ticks.
proof fn lemma_island_after_two_ticks()
    ensures
        settled(island_run(), 2, island_pair_under_way()),
{
    lemma_island_room(1, 1);
    lemma_island_room(2, 1);
    lemma_started_coherent(island_room(), at(1, 1), at(2, 1));
    lemma_started_steady(island_room(), at(1, 1), at(2, 1));
    lemma_start_pair(island_room(), at(1, 1), at(2, 1));
    assert(on_truth(island_run()) =~= island_pair_at_start());
    lemma_settled_start(island_run(), island_pair_at_start());
    lemma_island_first_tick();
    lemma_settled_tick(island_run(), 0, island_pair_at_start(), island_pair_at_wall());
    lemma_island_second_tick();
    lemma_settled_tick(island_run(), 1, island_pair_at_wall(), island_pair_under_way());
}

/// In the island room an agent reaches boundary analysis: the right agent is
/// in it after three full ticks, and no agent is idle before.
pub proof fn lemma_island_run_reaches_analysis()
    ensures
        after_steps(island_run(), 3).robots.len() == 2,
        after_steps(island_run(), 3).robots[1].phase == RobotPhase::BoundaryAnalysis,
        after_steps(island_run(), 3).coherent(),
        after_steps(island_run(), 3).steady(),
{
    lemma_island_after_two_ticks();
    lemma_island_third_tick();
    lemma_settled_tick(
        island_run(),
        2,
        island_pair_under_way(),
        moved_on_truth(island_pair_under_way(), island_room()),
    );
    lemma_settled_agent(
        island_run(),
        3,
        moved_on_truth(island_pair_under_way(), island_room()),
        1,
    );
}

/// A corridor of twelve by four cells, walled all round.
pub open spec fn corridor_room() -> GridModel {
    GridModel {
        width: 12,
        height: 4,
        cells: Seq::new(
            48,
            |i: int|
                if i < 12 || i >= 36 || i % 12 == 0 || i % 12 == 11 {
                    CellState::Obstacle
                } else {
                    CellState::Empty
                },
        ),
    }
}

/// The corridor as a map.
pub fn corridor_map() -> (map: GridMap)
    ensures
        map@ == corridor_room(),
{
    let mut cells: Vec<CellState> = Vec::new();
    let mut i: usize = 0;
    while i < 48
        invariant
            i <= 48,
            cells@.len() == i,
            forall|k: int| 0 <= k < i ==> cells@[k] == corridor_room().cells[k],
        decreases 48 - i,
    {
        if i < 12 || i >= 36 || i % 12 == 0 || i % 12 == 11 {
            cells.push(CellState::Obstacle);
        } else {
            cells.push(CellState::Empty);
        }
        i += 1;
    }
    assert(cells@ =~= corridor_room().cells);
    GridMap { width: 12, height: 4, cells }
}

/// The cells of the corridor: a wall in the first and last row and column,
/// empty elsewhere; no cell lies beyond them.
proof fn lemma_corridor_room(x: int, y: int)
    ensures
        corridor_room().wf(),
        corridor_room().fully_known(),
        corridor_room().in_bounds(x, y) <==> 0 <= x < 12 && 0 <= y < 4,
        corridor_room().in_bounds(x, y) ==> corridor_room().cell(x, y) == if x == 0 || x == 11
            || y == 0 || y == 3 {
            CellState::Obstacle
        } else {
            CellState::Empty
        },
{
    assert(corridor_room().index_of(x, y) == y * 12 + x);
}

/// The run in the corridor with the agents starting in its middle under the
/// upper wall.
pub open spec fn corridor_run() -> SimulationModel {
    started(corridor_room(), at(5, 1), at(6, 1))
}

/// The way of an agent along the wall of the corridor: the left agent's
/// leads west along the upper wall, round the corner and back east along the
/// lower wall; the right agent's is its mirror image.
pub open spec fn corridor_route(left: bool) -> Seq<Point> {
    if left {
        seq![
            at(5, 1),
            at(4, 1),
            at(3, 1),
            at(2, 1),
            at(1, 1),
            at(1, 2),
            at(2, 2),
            at(3, 2),
            at(4, 2),
            at(5, 2),
        ]
    } else {
        seq![
            at(6, 1),
            at(7, 1),
            at(8, 1),
            at(9, 1),
            at(10, 1),
            at(10, 2),
            at(9, 2),
            at(8, 2),
            at(7, 2),
            at(6, 2),
        ]
    }
}

/// The heading seen in a mirror that swaps east and west.
pub open spec fn mirrored(heading: Orientation) -> Orientation {
    match heading {
        Orientation::East => Orientation::West,
        Orientation::West => Orientation::East,
        Orientation::North => Orientation::North,
        Orientation::South => Orientation::South,
    }
}

/// The scout of an agent in the corridor whose path holds the first `cells`
/// cells of its way. The left agent traces left-handed and turns
/// counter-clockwise; the right agent is its mirror image.
pub open spec fn route_scout(
    left: bool,
    steps_taken: u32,
    steps_taken_this_scouting_mission: u32,
    returning: bool,
    cells: int,
    first_move: bool,
    rotation: int,
) -> ScoutModel {
    ScoutModel {
        tracing_direction: if left {
            LEFT_HAND_RULE
        } else {
            RIGHT_HAND_RULE
        },
        steps_taken,
        steps_taken_this_scouting_mission,
        returning,
        path: corridor_route(left).take(cells),
        first_move,
        initial_scouting_direction: Some(if left { at(-1, 0) } else { at(1, 0) }),
        total_rotation_steps: (if left { rotation } else { -rotation }) as i32,
    }
}

/// The pair in the corridor, the right agent the mirror image of the left:
/// the left agent stands on `(x, y)`, and its scout, if it has one, is given
/// by its outbound steps, the steps of its half leg, whether it returns, the
/// number of cells on its path, whether its first move is due, and its
/// rotation total.
pub open spec fn corridor_pair(
    x: int,
    y: int,
    heading: Orientation,
    phase: RobotPhase,
    scout_depth_n: u32,
    scout: Option<(u32, u32, bool, int, bool, int)>,
) -> Seq<RobotModel> {
    seq![
        agent_in(
            corridor_room(),
            ROBOT_LEFT_HAND,
            at(x, y),
            heading,
            phase,
            scout_depth_n,
            match scout {
                Some(s) => Some(route_scout(true, s.0, s.1, s.2, s.3, s.4, s.5)),
                None => None,
            },
        ),
        agent_in(
            corridor_room(),
            ROBOT_RIGHT_HAND,
            at(11 - x, y),
            mirrored(heading),
            phase,
            scout_depth_n,
            match scout {
                Some(s) => Some(route_scout(false, s.0, s.1, s.2, s.3, s.4, s.5)),
                None => None,
            },
        ),
    ]
}

/// The pair in the corridor after `t` full ticks, for `t` up to thirty-four.
#[verifier::opaque]
pub open spec fn corridor_pair_after(t: nat) -> Seq<RobotModel> {
    if t == 0 {
        corridor_pair(5, 1, Orientation::North, RobotPhase::InitialWallFind, 3, None)
    } else if t == 1 {
        corridor_pair(5, 1, Orientation::North, RobotPhase::BoundaryScouting, 3, None)
    } else if t == 2 {
        corridor_pair(4, 1, Orientation::West, RobotPhase::BoundaryScouting, 3, Some((1, 1, false, 2, false, 0)))
    } else if t == 3 {
        corridor_pair(3, 1, Orientation::West, RobotPhase::BoundaryScouting, 3, Some((2, 2, false, 3, false, 0)))
    } else if t == 4 {
        corridor_pair(2, 1, Orientation::West, RobotPhase::BoundaryScouting, 3, Some((3, 3, false, 4, false, 0)))
    } else if t == 5 {
        corridor_pair(2, 1, Orientation::West, RobotPhase::BoundaryScouting, 3, Some((3, 0, true, 4, false, 0)))
    } else if t == 6 {
        corridor_pair(3, 1, Orientation::East, RobotPhase::BoundaryScouting, 3, Some((3, 1, true, 4, false, 0)))
    } else if t == 7 {
        corridor_pair(4, 1, Orientation::East, RobotPhase::BoundaryScouting, 3, Some((3, 2, true, 4, false, 0)))
    } else if t == 8 {
        corridor_pair(5, 1, Orientation::East, RobotPhase::BoundaryScouting, 3, Some((3, 3, true, 4, false, 0)))
    } else if t == 9 {
        corridor_pair(5, 1, Orientation::East, RobotPhase::BoundaryScouting, 6, Some((3, 0, false, 1, true, 0)))
    } else if t == 10 {
        corridor_pair(4, 1, Orientation::West, RobotPhase::BoundaryScouting, 6, Some((4, 1, false, 2, false, 0)))
    } else if t == 11 {
        corridor_pair(3, 1, Orientation::West, RobotPhase::BoundaryScouting, 6, Some((5, 2, false, 3, false, 0)))
    } else if t == 12 {
        corridor_pair(2, 1, Orientation::West, RobotPhase::BoundaryScouting, 6, Some((6, 3, false, 4, false, 0)))
    } else if t == 13 {
        corridor_pair(1, 1, Orientation::West, RobotPhase::BoundaryScouting, 6, Some((7, 4, false, 5, false, 0)))
    } else if t == 14 {
        corridor_pair(1, 2, Orientation::South, RobotPhase::BoundaryScouting, 6, Some((8, 5, false, 6, false, -1)))
    } else if t == 15 {
        corridor_pair(2, 2, Orientation::East, RobotPhase::BoundaryScouting, 6, Some((9, 6, false, 7, false, -2)))
    } else if t == 16 {
        corridor_pair(2, 2, Orientation::East, RobotPhase::BoundaryScouting, 6, Some((9, 0, true, 7, false, -2)))
    } else if t == 17 {
        corridor_pair(1, 2, Orientation::West, RobotPhase::BoundaryScouting, 6, Some((9, 1, true, 7, false, -2)))
    } else if t == 18 {
        corridor_pair(1, 1, Orientation::North, RobotPhase::BoundaryScouting, 6, Some((9, 2, true, 7, false, -2)))
    } else if t == 19 {
        corridor_pair(2, 1, Orientation::East, RobotPhase::BoundaryScouting, 6, Some((9, 3, true, 7, false, -2)))
    } else if t == 20 {
        corridor_pair(3, 1, Orientation::East, RobotPhase::BoundaryScouting, 6, Some((9, 4, true, 7, false, -2)))
    } else if t == 21 {
        corridor_pair(4, 1, Orientation::East, RobotPhase::BoundaryScouting, 6, Some((9, 5, true, 7, false, -2)))
    } else if t == 22 {
        corridor_pair(5, 1, Orientation::East, RobotPhase::BoundaryScouting, 6, Some((9, 6, true, 7, false, -2)))
    } else if t == 23 {
        corridor_pair(5, 1, Orientation::East, RobotPhase::BoundaryScouting, 12, Some((9, 0, false, 1, true, -2)))
    } else if t == 24 {
        corridor_pair(4, 1, Orientation::West, RobotPhase::BoundaryScouting, 12, Some((10, 1, false, 2, false, 0)))
    } else if t == 25 {
        corridor_pair(3, 1, Orientation::West, RobotPhase::BoundaryScouting, 12, Some((11, 2, false, 3, false, 0)))
    } else if t == 26 {
        corridor_pair(2, 1, Orientation::West, RobotPhase::BoundaryScouting, 12, Some((12, 3, false, 4, false, 0)))
    } else if t == 27 {
        corridor_pair(1, 1, Orientation::West, RobotPhase::BoundaryScouting, 12, Some((13, 4, false, 5, false, 0)))
    } else if t == 28 {
        corridor_pair(1, 2, Orientation::South, RobotPhase::BoundaryScouting, 12, Some((14, 5, false, 6, false, -1)))
    } else if t == 29 {
        corridor_pair(2, 2, Orientation::East, RobotPhase::BoundaryScouting, 12, Some((15, 6, false, 7, false, -2)))
    } else if t == 30 {
        corridor_pair(3, 2, Orientation::East, RobotPhase::BoundaryScouting, 12, Some((16, 7, false, 8, false, -2)))
    } else if t == 31 {
        corridor_pair(4, 2, Orientation::East, RobotPhase::BoundaryScouting, 12, Some((17, 8, false, 9, false, -2)))
    } else if t == 32 {
        corridor_pair(5, 2, Orientation::East, RobotPhase::BoundaryAnalysis, 24, Some((18, 9, false, 10, false, -2)))
    } else if t == 33 {
        corridor_pair(5, 2, Orientation::East, RobotPhase::InteriorSweep, 24, Some((18, 9, false, 10, false, -2)))
    } else {
        corridor_pair(5, 2, Orientation::East, RobotPhase::Idle, 24, Some((18, 9, false, 10, false, -2)))
    }
}

/// Tick 1 in the corridor: both agents see the wall north of them and turn to
/// scouting.
#[verifier::rlimit(40)]
proof fn lemma_corridor_tick_1()
    ensures
        moved_on_truth(corridor_pair_after(0), corridor_room()) == corridor_pair_after(1),
{
    reveal(corridor_pair_after);
    lemma_corridor_room(5, 0);
    lemma_corridor_room(6, 0);
    let pair = corridor_pair_after(0);
    let next = corridor_pair_after(1);
    let context = ContextModel { all: pair, global: corridor_room() };
    lemma_pair_partners(pair, corridor_room());
    assert(moved_on_truth(pair, corridor_room())[0] == next[0]);
    assert(moved_on_truth(pair, corridor_room())[1] == next[1]);
    assert(moved_on_truth(pair, corridor_room()) =~= next);
}

/// Tick 2 in the corridor: both agents take a step out, away from each other.
#[verifier::rlimit(40)]
proof fn lemma_corridor_tick_2()
    ensures
        moved_on_truth(corridor_pair_after(1), corridor_room()) == corridor_pair_after(2),
{
    reveal(corridor_pair_after);
    lemma_corridor_room(4, 1);
    lemma_corridor_room(7, 1);
    let pair = corridor_pair_after(1);
    let next = corridor_pair_after(2);
    let context = ContextModel { all: pair, global: corridor_room() };
    lemma_pair_partners(pair, corridor_room());
    assert(planned_move(with_scout(pair[0]), fresh_scout(pair[0]), context) == Some(at(4, 1)));
    assert(after_tick(pair[0], context).boundary_scout->0.path
        =~= next[0].boundary_scout->0.path);
    assert(after_tick(pair[0], context).boundary_scout->0 == next[0].boundary_scout->0);
    assert(moved_on_truth(pair, corridor_room())[0] == next[0]);
    assert(planned_move(with_scout(pair[1]), fresh_scout(pair[1]), context) == Some(at(7, 1)));
    assert(after_tick(pair[1], context).boundary_scout->0.path
        =~= next[1].boundary_scout->0.path);
    assert(after_tick(pair[1], context).boundary_scout->0 == next[1].boundary_scout->0);
    assert(moved_on_truth(pair, corridor_room())[1] == next[1]);
    assert(moved_on_truth(pair, corridor_room()) =~= next);
}

/// Tick 3 in the corridor: both agents take a step out, away from each other.
#[verifier::rlimit(40)]
proof fn lemma_corridor_tick_3()
    ensures
        moved_on_truth(corridor_pair_after(2), corridor_room()) == corridor_pair_after(3),
{
    reveal(corridor_pair_after);
    lemma_corridor_room(3, 1);
    lemma_corridor_room(4, 0);
    lemma_corridor_room(7, 0);
    lemma_corridor_room(8, 1);
    let pair = corridor_pair_after(2);
    let next = corridor_pair_after(3);
    let context = ContextModel { all: pair, global: corridor_room() };
    lemma_pair_partners(pair, corridor_room());
    assert(planned_move(with_scout(pair[0]), pair[0].boundary_scout->0, context) == Some(at(3, 1)));
    assert(after_tick(pair[0], context).boundary_scout->0.path
        =~= next[0].boundary_scout->0.path);
    assert(after_tick(pair[0], context).boundary_scout->0 == next[0].boundary_scout->0);
    assert(moved_on_truth(pair, corridor_room())[0] == next[0]);
    assert(planned_move(with_scout(pair[1]), pair[1].boundary_scout->0, context) == Some(at(8, 1)));
    assert(after_tick(pair[1], context).boundary_scout->0.path
        =~= next[1].boundary_scout->0.path);
    assert(after_tick(pair[1], context).boundary_scout->0 == next[1].boundary_scout->0);
    assert(moved_on_truth(pair, corridor_room())[1] == next[1]);
    assert(moved_on_truth(pair, corridor_room()) =~= next);
}

/// Tick 4 in the corridor: both agents take a step out, away from each other.
#[verifier::rlimit(40)]
proof fn lemma_corridor_tick_4()
    ensures
        moved_on_truth(corridor_pair_after(3), corridor_room()) == corridor_pair_after(4),
{
    reveal(corridor_pair_after);
    lemma_corridor_room(2, 1);
    lemma_corridor_room(3, 0);
    lemma_corridor_room(8, 0);
    lemma_corridor_room(9, 1);
    let pair = corridor_pair_after(3);
    let next = corridor_pair_after(4);
    let context = ContextModel { all: pair, global: corridor_room() };
    lemma_pair_partners(pair, corridor_room());
    assert(planned_move(with_scout(pair[0]), pair[0].boundary_scout->0, context) == Some(at(2, 1)));
    assert(after_tick(pair[0], context).boundary_scout->0.path
        =~= next[0].boundary_scout->0.path);
    assert(after_tick(pair[0], context).boundary_scout->0 == next[0].boundary_scout->0);
    assert(moved_on_truth(pair, corridor_room())[0] == next[0]);
    assert(planned_move(with_scout(pair[1]), pair[1].boundary_scout->0, context) == Some(at(9, 1)));
    assert(after_tick(pair[1], context).boundary_scout->0.path
        =~= next[1].boundary_scout->0.path);
    assert(after_tick(pair[1], context).boundary_scout->0 == next[1].boundary_scout->0);
    assert(moved_on_truth(pair, corridor_room())[1] == next[1]);
    assert(moved_on_truth(pair, corridor_room()) =~= next);
}

/// Tick 5 in the corridor: both agents are at the end of their leg and turn
/// round.
#[verifier::rlimit(40)]
proof fn lemma_corridor_tick_5()
    ensures
        moved_on_truth(corridor_pair_after(4), corridor_room()) == corridor_pair_after(5),
{
    reveal(corridor_pair_after);
    let pair = corridor_pair_after(4);
    let next = corridor_pair_after(5);
    let context = ContextModel { all: pair, global: corridor_room() };
    lemma_pair_partners(pair, corridor_room());
    assert(after_tick(pair[0], context).boundary_scout->0.path
        =~= next[0].boundary_scout->0.path);
    assert(after_tick(pair[0], context).boundary_scout->0 == next[0].boundary_scout->0);
    assert(moved_on_truth(pair, corridor_room())[0] == next[0]);
    assert(after_tick(pair[1], context).boundary_scout->0.path
        =~= next[1].boundary_scout->0.path);
    assert(after_tick(pair[1], context).boundary_scout->0 == next[1].boundary_scout->0);
    assert(moved_on_truth(pair, corridor_room())[1] == next[1]);
    assert(moved_on_truth(pair, corridor_room()) =~= next);
}

/// Tick 6 in the corridor: both agents take a step back.
#[verifier::rlimit(40)]
proof fn lemma_corridor_tick_6()
    ensures
        moved_on_truth(corridor_pair_after(5), corridor_room()) == corridor_pair_after(6),
{
    reveal(corridor_pair_after);
    let pair = corridor_pair_after(5);
    let next = corridor_pair_after(6);
    let context = ContextModel { all: pair, global: corridor_room() };
    lemma_pair_partners(pair, corridor_room());
    assert(after_tick(pair[0], context).boundary_scout->0.path
        =~= next[0].boundary_scout->0.path);
    assert(after_tick(pair[0], context).boundary_scout->0 == next[0].boundary_scout->0);
    assert(moved_on_truth(pair, corridor_room())[0] == next[0]);
    assert(after_tick(pair[1], context).boundary_scout->0.path
        =~= next[1].boundary_scout->0.path);
    assert(after_tick(pair[1], context).boundary_scout->0 == next[1].boundary_scout->0);
    assert(moved_on_truth(pair, corridor_room())[1] == next[1]);
    assert(moved_on_truth(pair, corridor_room()) =~= next);
}

/// Tick 7 in the corridor: both agents take a step back.
#[verifier::rlimit(40)]
proof fn lemma_corridor_tick_7()
    ensures
        moved_on_truth(corridor_pair_after(6), corridor_room()) == corridor_pair_after(7),
{
    reveal(corridor_pair_after);
    let pair = corridor_pair_after(6);
    let next = corridor_pair_after(7);
    let context = ContextModel { all: pair, global: corridor_room() };
    lemma_pair_partners(pair, corridor_room());
    assert(after_tick(pair[0], context).boundary_scout->0.path
        =~= next[0].boundary_scout->0.path);
    assert(after_tick(pair[0], context).boundary_scout->0 == next[0].boundary_scout->0);
    assert(moved_on_truth(pair, corridor_room())[0] == next[0]);
    assert(after_tick(pair[1], context).boundary_scout->0.path
        =~= next[1].boundary_scout->0.path);
    assert(after_tick(pair[1], context).boundary_scout->0 == next[1].boundary_scout->0);
    assert(moved_on_truth(pair, corridor_room())[1] == next[1]);
    assert(moved_on_truth(pair, corridor_room()) =~= next);
}

/// Tick 8 in the corridor: both agents take a step back.
#[verifier::rlimit(40)]
proof fn lemma_corridor_tick_8()
    ensures
        moved_on_truth(corridor_pair_after(7), corridor_room()) == corridor_pair_after(8),
{
    reveal(corridor_pair_after);
    let pair = corridor_pair_after(7);
    let next = corridor_pair_after(8);
    let context = ContextModel { all: pair, global: corridor_room() };
    lemma_pair_partners(pair, corridor_room());
    assert(after_tick(pair[0], context).boundary_scout->0.path
        =~= next[0].boundary_scout->0.path);
    assert(after_tick(pair[0], context).boundary_scout->0 == next[0].boundary_scout->0);
    assert(moved_on_truth(pair, corridor_room())[0] == next[0]);
    assert(after_tick(pair[1], context).boundary_scout->0.path
        =~= next[1].boundary_scout->0.path);
    assert(after_tick(pair[1], context).boundary_scout->0 == next[1].boundary_scout->0);
    assert(moved_on_truth(pair, corridor_room())[1] == next[1]);
    assert(moved_on_truth(pair, corridor_room()) =~= next);
}

/// Tick 9 in the corridor: both agents are back where their legs began, double
/// the leg length and begin anew.
#[verifier::rlimit(40)]
proof fn lemma_corridor_tick_9()
    ensures
        moved_on_truth(corridor_pair_after(8), corridor_room()) == corridor_pair_after(9),
{
    reveal(corridor_pair_after);
    let pair = corridor_pair_after(8);
    let next = corridor_pair_after(9);
    let context = ContextModel { all: pair, global: corridor_room() };
    lemma_pair_partners(pair, corridor_room());
    assert(after_tick(pair[0], context).boundary_scout->0.path
        =~= next[0].boundary_scout->0.path);
    assert(after_tick(pair[0], context).boundary_scout->0 == next[0].boundary_scout->0);
    assert(moved_on_truth(pair, corridor_room())[0] == next[0]);
    assert(after_tick(pair[1], context).boundary_scout->0.path
        =~= next[1].boundary_scout->0.path);
    assert(after_tick(pair[1], context).boundary_scout->0 == next[1].boundary_scout->0);
    assert(moved_on_truth(pair, corridor_room())[1] == next[1]);
    assert(moved_on_truth(pair, corridor_room()) =~= next);
}

/// Tick 10 in the corridor: both agents take a step out, away from each other.
#[verifier::rlimit(40)]
proof fn lemma_corridor_tick_10()
    ensures
        moved_on_truth(corridor_pair_after(9), corridor_room()) == corridor_pair_after(10),
{
    reveal(corridor_pair_after);
    lemma_corridor_room(4, 1);
    lemma_corridor_room(7, 1);
    let pair = corridor_pair_after(9);
    let next = corridor_pair_after(10);
    let context = ContextModel { all: pair, global: corridor_room() };
    lemma_pair_partners(pair, corridor_room());
    assert(planned_move(with_scout(pair[0]), pair[0].boundary_scout->0, context) == Some(at(4, 1)));
    assert(after_tick(pair[0], context).boundary_scout->0.path
        =~= next[0].boundary_scout->0.path);
    assert(after_tick(pair[0], context).boundary_scout->0 == next[0].boundary_scout->0);
    assert(moved_on_truth(pair, corridor_room())[0] == next[0]);
    assert(planned_move(with_scout(pair[1]), pair[1].boundary_scout->0, context) == Some(at(7, 1)));
    assert(after_tick(pair[1], context).boundary_scout->0.path
        =~= next[1].boundary_scout->0.path);
    assert(after_tick(pair[1], context).boundary_scout->0 == next[1].boundary_scout->0);
    assert(moved_on_truth(pair, corridor_room())[1] == next[1]);
    assert(moved_on_truth(pair, corridor_room()) =~= next);
}

/// Tick 11 in the corridor: both agents take a step out, away from each other.
#[verifier::rlimit(40)]
proof fn lemma_corridor_tick_11()
    ensures
        moved_on_truth(corridor_pair_after(10), corridor_room()) == corridor_pair_after(11),
{
    reveal(corridor_pair_after);
    lemma_corridor_room(3, 1);
    lemma_corridor_room(4, 0);
    lemma_corridor_room(7, 0);
    lemma_corridor_room(8, 1);
    let pair = corridor_pair_after(10);
    let next = corridor_pair_after(11);
    let context = ContextModel { all: pair, global: corridor_room() };
    lemma_pair_partners(pair, corridor_room());
    assert(planned_move(with_scout(pair[0]), pair[0].boundary_scout->0, context) == Some(at(3, 1)));
    assert(after_tick(pair[0], context).boundary_scout->0.path
        =~= next[0].boundary_scout->0.path);
    assert(after_tick(pair[0], context).boundary_scout->0 == next[0].boundary_scout->0);
    assert(moved_on_truth(pair, corridor_room())[0] == next[0]);
    assert(planned_move(with_scout(pair[1]), pair[1].boundary_scout->0, context) == Some(at(8, 1)));
    assert(after_tick(pair[1], context).boundary_scout->0.path
        =~= next[1].boundary_scout->0.path);
    assert(after_tick(pair[1], context).boundary_scout->0 == next[1].boundary_scout->0);
    assert(moved_on_truth(pair, corridor_room())[1] == next[1]);
    assert(moved_on_truth(pair, corridor_room()) =~= next);
}

/// Tick 12 in the corridor: both agents take a step out, away from each other.
#[verifier::rlimit(40)]
proof fn lemma_corridor_tick_12()
    ensures
        moved_on_truth(corridor_pair_after(11), corridor_room()) == corridor_pair_after(12),
{
    reveal(corridor_pair_after);
    lemma_corridor_room(2, 1);
    lemma_corridor_room(3, 0);
    lemma_corridor_room(8, 0);
    lemma_corridor_room(9, 1);
    let pair = corridor_pair_after(11);
    let next = corridor_pair_after(12);
    let context = ContextModel { all: pair, global: corridor_room() };
    lemma_pair_partners(pair, corridor_room());
    assert(planned_move(with_scout(pair[0]), pair[0].boundary_scout->0, context) == Some(at(2, 1)));
    assert(after_tick(pair[0], context).boundary_scout->0.path
        =~= next[0].boundary_scout->0.path);
    assert(after_tick(pair[0], context).boundary_scout->0 == next[0].boundary_scout->0);
    assert(moved_on_truth(pair, corridor_room())[0] == next[0]);
    assert(planned_move(with_scout(pair[1]), pair[1].boundary_scout->0, context) == Some(at(9, 1)));
    assert(after_tick(pair[1], context).boundary_scout->0.path
        =~= next[1].boundary_scout->0.path);
    assert(after_tick(pair[1], context).boundary_scout->0 == next[1].boundary_scout->0);
    assert(moved_on_truth(pair, corridor_room())[1] == next[1]);
    assert(moved_on_truth(pair, corridor_room()) =~= next);
}

/// Tick 13 in the corridor: both agents take a step out, away from each other.
#[verifier::rlimit(40)]
proof fn lemma_corridor_tick_13()
    ensures
        moved_on_truth(corridor_pair_after(12), corridor_room()) == corridor_pair_after(13),
{
    reveal(corridor_pair_after);
    lemma_corridor_room(1, 1);
    lemma_corridor_room(2, 0);
    lemma_corridor_room(9, 0);
    lemma_corridor_room(10, 1);
    let pair = corridor_pair_after(12);
    let next = corridor_pair_after(13);
    let context = ContextModel { all: pair, global: corridor_room() };
    lemma_pair_partners(pair, corridor_room());
    assert(planned_move(with_scout(pair[0]), pair[0].boundary_scout->0, context) == Some(at(1, 1)));
    assert(after_tick(pair[0], context).boundary_scout->0.path
        =~= next[0].boundary_scout->0.path);
    assert(after_tick(pair[0], context).boundary_scout->0 == next[0].boundary_scout->0);
    assert(moved_on_truth(pair, corridor_room())[0] == next[0]);
    assert(planned_move(with_scout(pair[1]), pair[1].boundary_scout->0, context) == Some(at(10, 1)));
    assert(after_tick(pair[1], context).boundary_scout->0.path
        =~= next[1].boundary_scout->0.path);
    assert(after_tick(pair[1], context).boundary_scout->0 == next[1].boundary_scout->0);
    assert(moved_on_truth(pair, corridor_room())[1] == next[1]);
    assert(moved_on_truth(pair, corridor_room()) =~= next);
}

/// Tick 14 in the corridor: both agents take a step out along the wall.
#[verifier::rlimit(40)]
proof fn lemma_corridor_tick_14()
    ensures
        moved_on_truth(corridor_pair_after(13), corridor_room()) == corridor_pair_after(14),
{
    reveal(corridor_pair_after);
    lemma_corridor_room(0, 1);
    lemma_corridor_room(1, 0);
    lemma_corridor_room(1, 2);
    lemma_corridor_room(10, 0);
    lemma_corridor_room(10, 2);
    lemma_corridor_room(11, 1);
    let pair = corridor_pair_after(13);
    let next = corridor_pair_after(14);
    let context = ContextModel { all: pair, global: corridor_room() };
    lemma_pair_partners(pair, corridor_room());
    assert(planned_move(with_scout(pair[0]), pair[0].boundary_scout->0, context) == Some(at(1, 2)));
    assert(after_tick(pair[0], context).boundary_scout->0.path
        =~= next[0].boundary_scout->0.path);
    assert(after_tick(pair[0], context).boundary_scout->0 == next[0].boundary_scout->0);
    assert(moved_on_truth(pair, corridor_room())[0] == next[0]);
    assert(planned_move(with_scout(pair[1]), pair[1].boundary_scout->0, context) == Some(at(10, 2)));
    assert(after_tick(pair[1], context).boundary_scout->0.path
        =~= next[1].boundary_scout->0.path);
    assert(after_tick(pair[1], context).boundary_scout->0 == next[1].boundary_scout->0);
    assert(moved_on_truth(pair, corridor_room())[1] == next[1]);
    assert(moved_on_truth(pair, corridor_room()) =~= next);
}

/// Tick 15 in the corridor: both agents take a step out along the wall.
#[verifier::rlimit(40)]
proof fn lemma_corridor_tick_15()
    ensures
        moved_on_truth(corridor_pair_after(14), corridor_room()) == corridor_pair_after(15),
{
    reveal(corridor_pair_after);
    lemma_corridor_room(0, 2);
    lemma_corridor_room(1, 3);
    lemma_corridor_room(2, 2);
    lemma_corridor_room(9, 2);
    lemma_corridor_room(10, 3);
    lemma_corridor_room(11, 2);
    let pair = corridor_pair_after(14);
    let next = corridor_pair_after(15);
    let context = ContextModel { all: pair, global: corridor_room() };
    lemma_pair_partners(pair, corridor_room());
    assert(planned_move(with_scout(pair[0]), pair[0].boundary_scout->0, context) == Some(at(2, 2)));
    assert(after_tick(pair[0], context).boundary_scout->0.path
        =~= next[0].boundary_scout->0.path);
    assert(after_tick(pair[0], context).boundary_scout->0 == next[0].boundary_scout->0);
    assert(moved_on_truth(pair, corridor_room())[0] == next[0]);
    assert(planned_move(with_scout(pair[1]), pair[1].boundary_scout->0, context) == Some(at(9, 2)));
    assert(after_tick(pair[1], context).boundary_scout->0.path
        =~= next[1].boundary_scout->0.path);
    assert(after_tick(pair[1], context).boundary_scout->0 == next[1].boundary_scout->0);
    assert(moved_on_truth(pair, corridor_room())[1] == next[1]);
    assert(moved_on_truth(pair, corridor_room()) =~= next);
}

/// Tick 16 in the corridor: both agents are at the end of their leg and turn
/// round.
#[verifier::rlimit(40)]
proof fn lemma_corridor_tick_16()
    ensures
        moved_on_truth(corridor_pair_after(15), corridor_room()) == corridor_pair_after(16),
{
    reveal(corridor_pair_after);
    let pair = corridor_pair_after(15);
    let next = corridor_pair_after(16);
    let context = ContextModel { all: pair, global: corridor_room() };
    lemma_pair_partners(pair, corridor_room());
    assert(after_tick(pair[0], context).boundary_scout->0.path
        =~= next[0].boundary_scout->0.path);
    assert(after_tick(pair[0], context).boundary_scout->0 == next[0].boundary_scout->0);
    assert(moved_on_truth(pair, corridor_room())[0] == next[0]);
    assert(after_tick(pair[1], context).boundary_scout->0.path
        =~= next[1].boundary_scout->0.path);
    assert(after_tick(pair[1], context).boundary_scout->0 == next[1].boundary_scout->0);
    assert(moved_on_truth(pair, corridor_room())[1] == next[1]);
    assert(moved_on_truth(pair, corridor_room()) =~= next);
}

/// Tick 17 in the corridor: both agents take a step back.
#[verifier::rlimit(40)]
proof fn lemma_corridor_tick_17()
    ensures
        moved_on_truth(corridor_pair_after(16), corridor_room()) == corridor_pair_after(17),
{
    reveal(corridor_pair_after);
    let pair = corridor_pair_after(16);
    let next = corridor_pair_after(17);
    let context = ContextModel { all: pair, global: corridor_room() };
    lemma_pair_partners(pair, corridor_room());
    assert(after_tick(pair[0], context).boundary_scout->0.path
        =~= next[0].boundary_scout->0.path);
    assert(after_tick(pair[0], context).boundary_scout->0 == next[0].boundary_scout->0);
    assert(moved_on_truth(pair, corridor_room())[0] == next[0]);
    assert(after_tick(pair[1], context).boundary_scout->0.path
        =~= next[1].boundary_scout->0.path);
    assert(after_tick(pair[1], context).boundary_scout->0 == next[1].boundary_scout->0);
    assert(moved_on_truth(pair, corridor_room())[1] == next[1]);
    assert(moved_on_truth(pair, corridor_room()) =~= next);
}

/// Tick 18 in the corridor: both agents take a step back.
#[verifier::rlimit(40)]
proof fn lemma_corridor_tick_18()
    ensures
        moved_on_truth(corridor_pair_after(17), corridor_room()) == corridor_pair_after(18),
{
    reveal(corridor_pair_after);
    let pair = corridor_pair_after(17);
    let next = corridor_pair_after(18);
    let context = ContextModel { all: pair, global: corridor_room() };
    lemma_pair_partners(pair, corridor_room());
    assert(after_tick(pair[0], context).boundary_scout->0.path
        =~= next[0].boundary_scout->0.path);
    assert(after_tick(pair[0], context).boundary_scout->0 == next[0].boundary_scout->0);
    assert(moved_on_truth(pair, corridor_room())[0] == next[0]);
    assert(after_tick(pair[1], context).boundary_scout->0.path
        =~= next[1].boundary_scout->0.path);
    assert(after_tick(pair[1], context).boundary_scout->0 == next[1].boundary_scout->0);
    assert(moved_on_truth(pair, corridor_room())[1] == next[1]);
    assert(moved_on_truth(pair, corridor_room()) =~= next);
}

/// Tick 19 in the corridor: both agents take a step back.
#[verifier::rlimit(40)]
proof fn lemma_corridor_tick_19()
    ensures
        moved_on_truth(corridor_pair_after(18), corridor_room()) == corridor_pair_after(19),
{
    reveal(corridor_pair_after);
    let pair = corridor_pair_after(18);
    let next = corridor_pair_after(19);
    let context = ContextModel { all: pair, global: corridor_room() };
    lemma_pair_partners(pair, corridor_room());
    assert(after_tick(pair[0], context).boundary_scout->0.path
        =~= next[0].boundary_scout->0.path);
    assert(after_tick(pair[0], context).boundary_scout->0 == next[0].boundary_scout->0);
    assert(moved_on_truth(pair, corridor_room())[0] == next[0]);
    assert(after_tick(pair[1], context).boundary_scout->0.path
        =~= next[1].boundary_scout->0.path);
    assert(after_tick(pair[1], context).boundary_scout->0 == next[1].boundary_scout->0);
    assert(moved_on_truth(pair, corridor_room())[1] == next[1]);
    assert(moved_on_truth(pair, corridor_room()) =~= next);
}

/// Tick 20 in the corridor: both agents take a step back.
#[verifier::rlimit(40)]
proof fn lemma_corridor_tick_20()
    ensures
        moved_on_truth(corridor_pair_after(19), corridor_room()) == corridor_pair_after(20),
{
    reveal(corridor_pair_after);
    let pair = corridor_pair_after(19);
    let next = corridor_pair_after(20);
    let context = ContextModel { all: pair, global: corridor_room() };
    lemma_pair_partners(pair, corridor_room());
    assert(after_tick(pair[0], context).boundary_scout->0.path
        =~= next[0].boundary_scout->0.path);
    assert(after_tick(pair[0], context).boundary_scout->0 == next[0].boundary_scout->0);
    assert(moved_on_truth(pair, corridor_room())[0] == next[0]);
    assert(after_tick(pair[1], context).boundary_scout->0.path
        =~= next[1].boundary_scout->0.path);
    assert(after_tick(pair[1], context).boundary_scout->0 == next[1].boundary_scout->0);
    assert(moved_on_truth(pair, corridor_room())[1] == next[1]);
    assert(moved_on_truth(pair, corridor_room()) =~= next);
}

/// Tick 21 in the corridor: both agents take a step back.
#[verifier::rlimit(40)]
proof fn lemma_corridor_tick_21()
    ensures
        moved_on_truth(corridor_pair_after(20), corridor_room()) == corridor_pair_after(21),
{
    reveal(corridor_pair_after);
    let pair = corridor_pair_after(20);
    let next = corridor_pair_after(21);
    let context = ContextModel { all: pair, global: corridor_room() };
    lemma_pair_partners(pair, corridor_room());
    assert(after_tick(pair[0], context).boundary_scout->0.path
        =~= next[0].boundary_scout->0.path);
    assert(after_tick(pair[0], context).boundary_scout->0 == next[0].boundary_scout->0);
    assert(moved_on_truth(pair, corridor_room())[0] == next[0]);
    assert(after_tick(pair[1], context).boundary_scout->0.path
        =~= next[1].boundary_scout->0.path);
    assert(after_tick(pair[1], context).boundary_scout->0 == next[1].boundary_scout->0);
    assert(moved_on_truth(pair, corridor_room())[1] == next[1]);
    assert(moved_on_truth(pair, corridor_room()) =~= next);
}

/// Tick 22 in the corridor: both agents take a step back.
#[verifier::rlimit(40)]
proof fn lemma_corridor_tick_22()
    ensures
        moved_on_truth(corridor_pair_after(21), corridor_room()) == corridor_pair_after(22),
{
    reveal(corridor_pair_after);
    let pair = corridor_pair_after(21);
    let next = corridor_pair_after(22);
    let context = ContextModel { all: pair, global: corridor_room() };
    lemma_pair_partners(pair, corridor_room());
    assert(after_tick(pair[0], context).boundary_scout->0.path
        =~= next[0].boundary_scout->0.path);
    assert(after_tick(pair[0], context).boundary_scout->0 == next[0].boundary_scout->0);
    assert(moved_on_truth(pair, corridor_room())[0] == next[0]);
    assert(after_tick(pair[1], context).boundary_scout->0.path
        =~= next[1].boundary_scout->0.path);
    assert(after_tick(pair[1], context).boundary_scout->0 == next[1].boundary_scout->0);
    assert(moved_on_truth(pair, corridor_room())[1] == next[1]);
    assert(moved_on_truth(pair, corridor_room()) =~= next);
}

/// Tick 23 in the corridor: both agents are back where their legs began,
/// double the leg length and begin anew.
#[verifier::rlimit(40)]
proof fn lemma_corridor_tick_23()
    ensures
        moved_on_truth(corridor_pair_after(22), corridor_room()) == corridor_pair_after(23),
{
    reveal(corridor_pair_after);
    let pair = corridor_pair_after(22);
    let next = corridor_pair_after(23);
    let context = ContextModel { all: pair, global: corridor_room() };
    lemma_pair_partners(pair, corridor_room());
    assert(after_tick(pair[0], context).boundary_scout->0.path
        =~= next[0].boundary_scout->0.path);
    assert(after_tick(pair[0], context).boundary_scout->0 == next[0].boundary_scout->0);
    assert(moved_on_truth(pair, corridor_room())[0] == next[0]);
    assert(after_tick(pair[1], context).boundary_scout->0.path
        =~= next[1].boundary_scout->0.path);
    assert(after_tick(pair[1], context).boundary_scout->0 == next[1].boundary_scout->0);
    assert(moved_on_truth(pair, corridor_room())[1] == next[1]);
    assert(moved_on_truth(pair, corridor_room()) =~= next);
}

/// Tick 24 in the corridor: both agents take a step out, away from each other.
#[verifier::rlimit(40)]
proof fn lemma_corridor_tick_24()
    ensures
        moved_on_truth(corridor_pair_after(23), corridor_room()) == corridor_pair_after(24),
{
    reveal(corridor_pair_after);
    lemma_corridor_room(4, 1);
    lemma_corridor_room(7, 1);
    let pair = corridor_pair_after(23);
    let next = corridor_pair_after(24);
    let context = ContextModel { all: pair, global: corridor_room() };
    lemma_pair_partners(pair, corridor_room());
    assert(planned_move(with_scout(pair[0]), pair[0].boundary_scout->0, context) == Some(at(4, 1)));
    assert(after_tick(pair[0], context).boundary_scout->0.path
        =~= next[0].boundary_scout->0.path);
    assert(after_tick(pair[0], context).boundary_scout->0 == next[0].boundary_scout->0);
    assert(moved_on_truth(pair, corridor_room())[0] == next[0]);
    assert(planned_move(with_scout(pair[1]), pair[1].boundary_scout->0, context) == Some(at(7, 1)));
    assert(after_tick(pair[1], context).boundary_scout->0.path
        =~= next[1].boundary_scout->0.path);
    assert(after_tick(pair[1], context).boundary_scout->0 == next[1].boundary_scout->0);
    assert(moved_on_truth(pair, corridor_room())[1] == next[1]);
    assert(moved_on_truth(pair, corridor_room()) =~= next);
}

/// Tick 25 in the corridor: both agents take a step out, away from each other.
#[verifier::rlimit(40)]
proof fn lemma_corridor_tick_25()
    ensures
        moved_on_truth(corridor_pair_after(24), corridor_room()) == corridor_pair_after(25),
{
    reveal(corridor_pair_after);
    lemma_corridor_room(3, 1);
    lemma_corridor_room(4, 0);
    lemma_corridor_room(7, 0);
    lemma_corridor_room(8, 1);
    let pair = corridor_pair_after(24);
    let next = corridor_pair_after(25);
    let context = ContextModel { all: pair, global: corridor_room() };
    lemma_pair_partners(pair, corridor_room());
    assert(planned_move(with_scout(pair[0]), pair[0].boundary_scout->0, context) == Some(at(3, 1)));
    assert(after_tick(pair[0], context).boundary_scout->0.path
        =~= next[0].boundary_scout->0.path);
    assert(after_tick(pair[0], context).boundary_scout->0 == next[0].boundary_scout->0);
    assert(moved_on_truth(pair, corridor_room())[0] == next[0]);
    assert(planned_move(with_scout(pair[1]), pair[1].boundary_scout->0, context) == Some(at(8, 1)));
    assert(after_tick(pair[1], context).boundary_scout->0.path
        =~= next[1].boundary_scout->0.path);
    assert(after_tick(pair[1], context).boundary_scout->0 == next[1].boundary_scout->0);
    assert(moved_on_truth(pair, corridor_room())[1] == next[1]);
    assert(moved_on_truth(pair, corridor_room()) =~= next);
}

/// Tick 26 in the corridor: both agents take a step out, away from each other.
#[verifier::rlimit(40)]
proof fn lemma_corridor_tick_26()
    ensures
        moved_on_truth(corridor_pair_after(25), corridor_room()) == corridor_pair_after(26),
{
    reveal(corridor_pair_after);
    lemma_corridor_room(2, 1);
    lemma_corridor_room(3, 0);
    lemma_corridor_room(8, 0);
    lemma_corridor_room(9, 1);
    let pair = corridor_pair_after(25);
    let next = corridor_pair_after(26);
    let context = ContextModel { all: pair, global: corridor_room() };
    lemma_pair_partners(pair, corridor_room());
    assert(planned_move(with_scout(pair[0]), pair[0].boundary_scout->0, context) == Some(at(2, 1)));
    assert(after_tick(pair[0], context).boundary_scout->0.path
        =~= next[0].boundary_scout->0.path);
    assert(after_tick(pair[0], context).boundary_scout->0 == next[0].boundary_scout->0);
    assert(moved_on_truth(pair, corridor_room())[0] == next[0]);
    assert(planned_move(with_scout(pair[1]), pair[1].boundary_scout->0, context) == Some(at(9, 1)));
    assert(after_tick(pair[1], context).boundary_scout->0.path
        =~= next[1].boundary_scout->0.path);
    assert(after_tick(pair[1], context).boundary_scout->0 == next[1].boundary_scout->0);
    assert(moved_on_truth(pair, corridor_room())[1] == next[1]);
    assert(moved_on_truth(pair, corridor_room()) =~= next);
}

/// Tick 27 in the corridor: both agents take a step out, away from each other.
#[verifier::rlimit(40)]
proof fn lemma_corridor_tick_27()
    ensures
        moved_on_truth(corridor_pair_after(26), corridor_room()) == corridor_pair_after(27),
{
    reveal(corridor_pair_after);
    lemma_corridor_room(1, 1);
    lemma_corridor_room(2, 0);
    lemma_corridor_room(9, 0);
    lemma_corridor_room(10, 1);
    let pair = corridor_pair_after(26);
    let next = corridor_pair_after(27);
    let context = ContextModel { all: pair, global: corridor_room() };
    lemma_pair_partners(pair, corridor_room());
    assert(planned_move(with_scout(pair[0]), pair[0].boundary_scout->0, context) == Some(at(1, 1)));
    assert(after_tick(pair[0], context).boundary_scout->0.path
        =~= next[0].boundary_scout->0.path);
    assert(after_tick(pair[0], context).boundary_scout->0 == next[0].boundary_scout->0);
    assert(moved_on_truth(pair, corridor_room())[0] == next[0]);
    assert(planned_move(with_scout(pair[1]), pair[1].boundary_scout->0, context) == Some(at(10, 1)));
    assert(after_tick(pair[1], context).boundary_scout->0.path
        =~= next[1].boundary_scout->0.path);
    assert(after_tick(pair[1], context).boundary_scout->0 == next[1].boundary_scout->0);
    assert(moved_on_truth(pair, corridor_room())[1] == next[1]);
    assert(moved_on_truth(pair, corridor_room()) =~= next);
}

/// Tick 28 in the corridor: both agents take a step out along the wall.
#[verifier::rlimit(40)]
proof fn lemma_corridor_tick_28()
    ensures
        moved_on_truth(corridor_pair_after(27), corridor_room()) == corridor_pair_after(28),
{
    reveal(corridor_pair_after);
    lemma_corridor_room(0, 1);
    lemma_corridor_room(1, 0);
    lemma_corridor_room(1, 2);
    lemma_corridor_room(10, 0);
    lemma_corridor_room(10, 2);
    lemma_corridor_room(11, 1);
    let pair = corridor_pair_after(27);
    let next = corridor_pair_after(28);
    let context = ContextModel { all: pair, global: corridor_room() };
    lemma_pair_partners(pair, corridor_room());
    assert(planned_move(with_scout(pair[0]), pair[0].boundary_scout->0, context) == Some(at(1, 2)));
    assert(after_tick(pair[0], context).boundary_scout->0.path
        =~= next[0].boundary_scout->0.path);
    assert(after_tick(pair[0], context).boundary_scout->0 == next[0].boundary_scout->0);
    assert(moved_on_truth(pair, corridor_room())[0] == next[0]);
    assert(planned_move(with_scout(pair[1]), pair[1].boundary_scout->0, context) == Some(at(10, 2)));
    assert(after_tick(pair[1], context).boundary_scout->0.path
        =~= next[1].boundary_scout->0.path);
    assert(after_tick(pair[1], context).boundary_scout->0 == next[1].boundary_scout->0);
    assert(moved_on_truth(pair, corridor_room())[1] == next[1]);
    assert(moved_on_truth(pair, corridor_room()) =~= next);
}

/// Tick 29 in the corridor: both agents take a step out along the wall.
#[verifier::rlimit(40)]
proof fn lemma_corridor_tick_29()
    ensures
        moved_on_truth(corridor_pair_after(28), corridor_room()) == corridor_pair_after(29),
{
    reveal(corridor_pair_after);
    lemma_corridor_room(0, 2);
    lemma_corridor_room(1, 3);
    lemma_corridor_room(2, 2);
    lemma_corridor_room(9, 2);
    lemma_corridor_room(10, 3);
    lemma_corridor_room(11, 2);
    let pair = corridor_pair_after(28);
    let next = corridor_pair_after(29);
    let context = ContextModel { all: pair, global: corridor_room() };
    lemma_pair_partners(pair, corridor_room());
    assert(planned_move(with_scout(pair[0]), pair[0].boundary_scout->0, context) == Some(at(2, 2)));
    assert(after_tick(pair[0], context).boundary_scout->0.path
        =~= next[0].boundary_scout->0.path);
    assert(after_tick(pair[0], context).boundary_scout->0 == next[0].boundary_scout->0);
    assert(moved_on_truth(pair, corridor_room())[0] == next[0]);
    assert(planned_move(with_scout(pair[1]), pair[1].boundary_scout->0, context) == Some(at(9, 2)));
    assert(after_tick(pair[1], context).boundary_scout->0.path
        =~= next[1].boundary_scout->0.path);
    assert(after_tick(pair[1], context).boundary_scout->0 == next[1].boundary_scout->0);
    assert(moved_on_truth(pair, corridor_room())[1] == next[1]);
    assert(moved_on_truth(pair, corridor_room()) =~= next);
}

/// Tick 30 in the corridor: both agents take a step out along the wall.
#[verifier::rlimit(40)]
proof fn lemma_corridor_tick_30()
    ensures
        moved_on_truth(corridor_pair_after(29), corridor_room()) == corridor_pair_after(30),
{
    reveal(corridor_pair_after);
    lemma_corridor_room(2, 3);
    lemma_corridor_room(3, 2);
    lemma_corridor_room(8, 2);
    lemma_corridor_room(9, 3);
    let pair = corridor_pair_after(29);
    let next = corridor_pair_after(30);
    let context = ContextModel { all: pair, global: corridor_room() };
    lemma_pair_partners(pair, corridor_room());
    assert(planned_move(with_scout(pair[0]), pair[0].boundary_scout->0, context) == Some(at(3, 2)));
    assert(after_tick(pair[0], context).boundary_scout->0.path
        =~= next[0].boundary_scout->0.path);
    assert(after_tick(pair[0], context).boundary_scout->0 == next[0].boundary_scout->0);
    assert(moved_on_truth(pair, corridor_room())[0] == next[0]);
    assert(planned_move(with_scout(pair[1]), pair[1].boundary_scout->0, context) == Some(at(8, 2)));
    assert(after_tick(pair[1], context).boundary_scout->0.path
        =~= next[1].boundary_scout->0.path);
    assert(after_tick(pair[1], context).boundary_scout->0 == next[1].boundary_scout->0);
    assert(moved_on_truth(pair, corridor_room())[1] == next[1]);
    assert(moved_on_truth(pair, corridor_room()) =~= next);
}

/// Tick 31 in the corridor: both agents take a step out along the wall.
#[verifier::rlimit(40)]
proof fn lemma_corridor_tick_31()
    ensures
        moved_on_truth(corridor_pair_after(30), corridor_room()) == corridor_pair_after(31),
{
    reveal(corridor_pair_after);
    lemma_corridor_room(3, 3);
    lemma_corridor_room(4, 2);
    lemma_corridor_room(7, 2);
    lemma_corridor_room(8, 3);
    let pair = corridor_pair_after(30);
    let next = corridor_pair_after(31);
    let context = ContextModel { all: pair, global: corridor_room() };
    lemma_pair_partners(pair, corridor_room());
    assert(planned_move(with_scout(pair[0]), pair[0].boundary_scout->0, context) == Some(at(4, 2)));
    assert(after_tick(pair[0], context).boundary_scout->0.path
        =~= next[0].boundary_scout->0.path);
    assert(after_tick(pair[0], context).boundary_scout->0 == next[0].boundary_scout->0);
    assert(moved_on_truth(pair, corridor_room())[0] == next[0]);
    assert(planned_move(with_scout(pair[1]), pair[1].boundary_scout->0, context) == Some(at(7, 2)));
    assert(after_tick(pair[1], context).boundary_scout->0.path
        =~= next[1].boundary_scout->0.path);
    assert(after_tick(pair[1], context).boundary_scout->0 == next[1].boundary_scout->0);
    assert(moved_on_truth(pair, corridor_room())[1] == next[1]);
    assert(moved_on_truth(pair, corridor_room()) =~= next);
}

/// Tick 32 in the corridor: both agents step on, find each other next to them,
/// and turn to boundary analysis.
#[verifier::rlimit(40)]
proof fn lemma_corridor_tick_32()
    ensures
        moved_on_truth(corridor_pair_after(31), corridor_room()) == corridor_pair_after(32),
{
    reveal(corridor_pair_after);
    lemma_corridor_room(4, 3);
    lemma_corridor_room(5, 2);
    lemma_corridor_room(6, 2);
    lemma_corridor_room(7, 3);
    let pair = corridor_pair_after(31);
    let next = corridor_pair_after(32);
    let context = ContextModel { all: pair, global: corridor_room() };
    lemma_pair_partners(pair, corridor_room());
    assert(planned_move(with_scout(pair[0]), pair[0].boundary_scout->0, context) == Some(at(5, 2)));
    assert(after_tick(pair[0], context).boundary_scout->0.path
        =~= next[0].boundary_scout->0.path);
    assert(after_tick(pair[0], context).boundary_scout->0 == next[0].boundary_scout->0);
    assert(moved_on_truth(pair, corridor_room())[0] == next[0]);
    assert(planned_move(with_scout(pair[1]), pair[1].boundary_scout->0, context) == Some(at(6, 2)));
    assert(after_tick(pair[1], context).boundary_scout->0.path
        =~= next[1].boundary_scout->0.path);
    assert(after_tick(pair[1], context).boundary_scout->0 == next[1].boundary_scout->0);
    assert(moved_on_truth(pair, corridor_room())[1] == next[1]);
    assert(moved_on_truth(pair, corridor_room()) =~= next);
}

/// Tick 33 in the corridor: the verdict on the rotation totals, minus two and
/// two, is the exterior wall, and both agents turn to the interior sweep.
#[verifier::rlimit(40)]
proof fn lemma_corridor_tick_33()
    ensures
        moved_on_truth(corridor_pair_after(32), corridor_room()) == corridor_pair_after(33),
{
    reveal(corridor_pair_after);
    let pair = corridor_pair_after(32);
    let next = corridor_pair_after(33);
    let context = ContextModel { all: pair, global: corridor_room() };
    lemma_pair_partners(pair, corridor_room());
    assert(pair_verdict(pair[0], pair[1]) == BoundaryAnalysisResult::ExteriorWall);
    assert(moved_on_truth(pair, corridor_room())[0] == next[0]);
    assert(pair_verdict(pair[1], pair[0]) == BoundaryAnalysisResult::ExteriorWall);
    assert(moved_on_truth(pair, corridor_room())[1] == next[1]);
    assert(moved_on_truth(pair, corridor_room()) =~= next);
}

/// Tick 34 in the corridor: both agents find each other in the interior sweep
/// and go idle.
#[verifier::rlimit(40)]
proof fn lemma_corridor_tick_34()
    ensures
        moved_on_truth(corridor_pair_after(33), corridor_room()) == corridor_pair_after(34),
{
    reveal(corridor_pair_after);
    let pair = corridor_pair_after(33);
    let next = corridor_pair_after(34);
    let context = ContextModel { all: pair, global: corridor_room() };
    lemma_pair_partners(pair, corridor_room());
    assert(moved_on_truth(pair, corridor_room())[0] == next[0]);
    assert(moved_on_truth(pair, corridor_room())[1] == next[1]);
    assert(moved_on_truth(pair, corridor_room()) =~= next);
}

/// Every tick in the corridor, up to the thirty-fourth, takes the pair to
/// the next.
proof fn lemma_corridor_tick(t: nat)
    requires
        t < 34,
    ensures
        moved_on_truth(corridor_pair_after(t), corridor_room()) == corridor_pair_after(t + 1),
{
    if t == 0 {
        lemma_corridor_tick_1();
    } else if t == 1 {
        lemma_corridor_tick_2();
    } else if t == 2 {
        lemma_corridor_tick_3();
    } else if t == 3 {
        lemma_corridor_tick_4();
    } else if t == 4 {
        lemma_corridor_tick_5();
    } else if t == 5 {
        lemma_corridor_tick_6();
    } else if t == 6 {
        lemma_corridor_tick_7();
    } else if t == 7 {
        lemma_corridor_tick_8();
    } else if t == 8 {
        lemma_corridor_tick_9();
    } else if t == 9 {
        lemma_corridor_tick_10();
    } else if t == 10 {
        lemma_corridor_tick_11();
    } else if t == 11 {
        lemma_corridor_tick_12();
    } else if t == 12 {
        lemma_corridor_tick_13();
    } else if t == 13 {
        lemma_corridor_tick_14();
    } else if t == 14 {
        lemma_corridor_tick_15();
    } else if t == 15 {
        lemma_corridor_tick_16();
    } else if t == 16 {
        lemma_corridor_tick_17();
    } else if t == 17 {
        lemma_corridor_tick_18();
    } else if t == 18 {
        lemma_corridor_tick_19();
    } else if t == 19 {
        lemma_corridor_tick_20();
    } else if t == 20 {
        lemma_corridor_tick_21();
    } else if t == 21 {
        lemma_corridor_tick_22();
    } else if t == 22 {
        lemma_corridor_tick_23();
    } else if t == 23 {
        lemma_corridor_tick_24();
    } else if t == 24 {
        lemma_corridor_tick_25();
    } else if t == 25 {
        lemma_corridor_tick_26();
    } else if t == 26 {
        lemma_corridor_tick_27();
    } else if t == 27 {
        lemma_corridor_tick_28();
    } else if t == 28 {
        lemma_corridor_tick_29();
    } else if t == 29 {
        lemma_corridor_tick_30();
    } else if t == 30 {
        lemma_corridor_tick_31();
    } else if t == 31 {
        lemma_corridor_tick_32();
    } else if t == 32 {
        lemma_corridor_tick_33();
    } else {
        lemma_corridor_tick_34();
    }
}

/// The corridor run starts coherent and steady.
proof fn lemma_corridor_start_sound()
    ensures
        corridor_run().coherent(),
        corridor_run().steady(),
{
    lemma_corridor_room(5, 1);
    lemma_corridor_room(6, 1);
    lemma_started_coherent(corridor_room(), at(5, 1), at(6, 1));
    lemma_started_steady(corridor_room(), at(5, 1), at(6, 1));
}

/// The corridor run starts with the pair at its start.
proof fn lemma_corridor_start_pair()
    ensures
        corridor_run().tick_count == 0,
        on_truth(corridor_run()) == corridor_pair_after(0),
{
    reveal(corridor_pair_after);
    lemma_start_pair(corridor_room(), at(5, 1), at(6, 1));
    assert(on_truth(corridor_run()) =~= corridor_pair_after(0));
}

/// The corridor run is settled at its start.
proof fn lemma_corridor_at_start()
    ensures
        settled(corridor_run(), 0, corridor_pair_after(0)),
{
    lemma_corridor_start_sound();
    lemma_corridor_start_pair();
    lemma_settled_start(corridor_run(), corridor_pair_after(0));
}

/// The corridor run after `t` full ticks, for `t` up to thirty-four.
proof fn lemma_corridor_after(t: nat)
    requires
        t <= 34,
    ensures
        settled(corridor_run(), t, corridor_pair_after(t)),
    decreases t,
{
    if t == 0 {
        lemma_corridor_at_start();
    } else {
        lemma_corridor_after((t - 1) as nat);
        lemma_corridor_tick((t - 1) as nat);
        lemma_settled_tick(
            corridor_run(),
            (t - 1) as nat,
            corridor_pair_after((t - 1) as nat),
            corridor_pair_after(t),
        );
    }
}

/// In the corridor both agents are in boundary analysis after thirty-two
/// full ticks, with rotation totals of minus two and two.
proof fn lemma_corridor_both_agents_met()
    ensures
        after_steps(corridor_run(), 32).robots.len() == 2,
        after_steps(corridor_run(), 32).robots[0].phase == RobotPhase::BoundaryAnalysis,
        after_steps(corridor_run(), 32).robots[1].phase == RobotPhase::BoundaryAnalysis,
        after_steps(corridor_run(), 32).robots[0].rotation_total() == Some(-2i32),
        after_steps(corridor_run(), 32).robots[1].rotation_total() == Some(2i32),
{
    reveal(corridor_pair_after);
    lemma_corridor_after(32);
    lemma_settled_agent(corridor_run(), 32, corridor_pair_after(32), 0);
    lemma_settled_agent(corridor_run(), 32, corridor_pair_after(32), 1);
}

/// In the corridor both agents are idle after thirty-four full ticks.
proof fn lemma_corridor_both_agents_idle()
    ensures
        after_steps(corridor_run(), 34).robots.len() == 2,
        after_steps(corridor_run(), 34).robots[0].phase == RobotPhase::Idle,
        after_steps(corridor_run(), 34).robots[1].phase == RobotPhase::Idle,
{
    reveal(corridor_pair_after);
    lemma_corridor_after(34);
    lemma_settled_agent(corridor_run(), 34, corridor_pair_after(34), 0);
    lemma_settled_agent(corridor_run(), 34, corridor_pair_after(34), 1);
}

/// The corridor holds a pair at every tick.
proof fn lemma_corridor_pair_is_a_pair(t: nat)
    ensures
        corridor_pair_after(t).len() == 2,
{
    reveal(corridor_pair_after);
}

/// In the corridor the left agent stands, after `t` full ticks, where the
/// pair has it, with the leg length that the pair gives it.
proof fn lemma_corridor_left_as_paired(t: nat)
    requires
        t <= 34,
    ensures
        after_steps(corridor_run(), t).robots[0].pose == corridor_pair_after(t)[0].pose,
        after_steps(corridor_run(), t).robots[0].scout_depth_n == corridor_pair_after(
            t,
        )[0].scout_depth_n,
{
    lemma_corridor_pair_is_a_pair(t);
    lemma_corridor_after(t);
    lemma_settled_agent(corridor_run(), t, corridor_pair_after(t), 0);
}

/// Where the pair has the left agent at the start and at the end of its
/// first two legs.
proof fn lemma_corridor_pair_at_leg_ends()
    ensures
        corridor_pair_after(0)[0].scout_depth_n == 3,
        corridor_pair_after(9)[0].scout_depth_n == 6,
        corridor_pair_after(9)[0].pose.position == at(5, 1),
        corridor_pair_after(23)[0].scout_depth_n == 12,
        corridor_pair_after(23)[0].pose.position == at(5, 1),
{
    reveal(corridor_pair_after);
}

/// Leg doubling in the corridor: the left agent starts with a leg length of
/// three; after nine full ticks it has finished its first leg and stands
/// where it began, with a leg length of six; after twenty-three it has
/// finished its second leg and stands there again, with a leg length of
/// twelve.
pub proof fn lemma_corridor_legs_double()
    ensures
        after_steps(corridor_run(), 0).robots[0].scout_depth_n == 3,
        after_steps(corridor_run(), 9).robots[0].scout_depth_n == 6,
        after_steps(corridor_run(), 9).robots[0].pose.position == at(5, 1),
        after_steps(corridor_run(), 23).robots[0].scout_depth_n == 12,
        after_steps(corridor_run(), 23).robots[0].pose.position == at(5, 1),
{
    lemma_corridor_pair_at_leg_ends();
    lemma_corridor_left_as_paired(0);
    lemma_corridor_left_as_paired(9);
    lemma_corridor_left_as_paired(23);
}

/// In the corridor the verdict on the rotation totals of the two agents,
/// once both are in boundary analysis, is the exterior wall.
proof fn lemma_corridor_verdict()
    ensures
        classify_rotation(
            after_steps(corridor_run(), 32).robots[0].rotation_total(),
            after_steps(corridor_run(), 32).robots[1].rotation_total(),
        ) == BoundaryAnalysisResult::ExteriorWall,
{
    lemma_corridor_both_agents_met();
}

/// In the corridor the run is over after thirty-four full ticks: every agent
/// is idle.
proof fn lemma_corridor_run_over()
    ensures
        after_steps(corridor_run(), 34).all_idle(),
        after_steps(corridor_run(), 34).finished(),
{
    lemma_corridor_both_agents_idle();
    lemma_idle_pair_is_finished(after_steps(corridor_run(), 34));
}

/// A run whose two agents are idle is over.
proof fn lemma_idle_pair_is_finished(sim: SimulationModel)
    requires
        sim.robots.len() == 2,
        sim.robots[0].phase == RobotPhase::Idle,
        sim.robots[1].phase == RobotPhase::Idle,
    ensures
        sim.all_idle(),
        sim.finished(),
{
}

/// In the corridor both agents reach boundary analysis after thirty-two full
/// ticks, with rotation totals of minus two and two, on which the verdict is
/// the exterior wall; after thirty-four full ticks both agents are idle and
/// the run is over.
pub proof fn lemma_corridor_run_closes_the_wall()
    ensures
        after_steps(corridor_run(), 32).robots.len() == 2,
        after_steps(corridor_run(), 32).robots[0].phase == RobotPhase::BoundaryAnalysis,
        after_steps(corridor_run(), 32).robots[1].phase == RobotPhase::BoundaryAnalysis,
        classify_rotation(
            after_steps(corridor_run(), 32).robots[0].rotation_total(),
            after_steps(corridor_run(), 32).robots[1].rotation_total(),
        ) == BoundaryAnalysisResult::ExteriorWall,
        after_steps(corridor_run(), 34).all_idle(),
        after_steps(corridor_run(), 34).finished(),
{
    lemma_corridor_both_agents_met();
    lemma_corridor_verdict();
    lemma_corridor_run_over();
}

/// The corridor run keeps what it knows: the agents know after `m` full ticks
/// what they knew after `n`, for `n` before `m` and `m` up to thirty-four.
proof fn lemma_corridor_keeps(n: nat, m: nat)
    requires
        n <= m <= 34,
    ensures
        after_steps(corridor_run(), m).keeps_knowledge_of(after_steps(corridor_run(), n)),
    decreases m - n,
{
    if m == n {
        lemma_keeps_own_knowledge(after_steps(corridor_run(), n));
    } else {
        let before = (m - 1) as nat;
        lemma_corridor_keeps(n, before);
        lemma_corridor_after(before);
        lemma_settled_keeps(corridor_run(), before, corridor_pair_after(before));
        lemma_states_keep_knowledge(
            after_steps(corridor_run(), n),
            after_steps(corridor_run(), before),
            after_steps(corridor_run(), m),
        );
    }
}

/// What a settled run says of where an agent stands and whether it can act.
proof fn lemma_settled_stand(run: SimulationModel, n: nat, pair: Seq<RobotModel>, i: int)
    requires
        settled(run, n, pair),
        n < 100,
        0 <= i < pair.len(),
    ensures
        after_steps(run, n).coherent(),
        after_steps(run, n).after_sensing().after_exchange().acting_fits(),
        after_steps(run, n).robots.len() == pair.len(),
        after_steps(run, n).robots[i].pose == pair[i].pose,
        after_steps(run, n).map == run.map,
        after_steps(run, n + 1) == after_steps(run, n).after_step(),
{
    reveal(settled);
    lemma_on_truth_agent(after_steps(run, n), i);
    lemma_steady_has_headroom(after_steps(run, n));
    lemma_headroom_fits(after_steps(run, n));
}

/// In the corridor a cell on which the left agent stands after `t` full
/// ticks, or next to which it stands, has in the agent's map, once both
/// agents are in boundary analysis, the state that the corridor gives it.
proof fn lemma_corridor_left_knows(t: nat, x: int, y: int)
    requires
        t < 32,
        0 <= x < 12,
        0 <= y < 4,
        corridor_pair_after(t).len() == 2,
        manhattan(corridor_pair_after(t)[0].pose.position, at(x, y)) <= 1,
    ensures
        after_steps(corridor_run(), 32).robots[0].map.cell(x, y) == corridor_room().cell(x, y),
{
    lemma_corridor_room(x, y);
    lemma_corridor_after(t);
    lemma_settled_stand(corridor_run(), t, corridor_pair_after(t), 0);
    lemma_corridor_keeps(t + 1, 32);
    lemma_sensed_cells_stay(
        after_steps(corridor_run(), t),
        after_steps(corridor_run(), 32),
        0,
        x,
        y,
    );
}

/// Coverage in the corridor: once both agents are in boundary analysis, the
/// left agent's map marks the ten cells of its half of the corridor as empty,
/// which is half of the empty cells of the corridor.
pub proof fn lemma_corridor_coverage()
    ensures
        forall|x: int, y: int|
            1 <= x <= 5 && 1 <= y <= 2 ==> #[trigger] after_steps(
                corridor_run(),
                32,
            ).robots[0].map.cell(x, y) == CellState::Empty,
{
    reveal(corridor_pair_after);
    lemma_corridor_left_knows(0, 5, 1);
    lemma_corridor_left_knows(0, 4, 1);
    lemma_corridor_left_knows(0, 5, 2);
    lemma_corridor_left_knows(2, 3, 1);
    lemma_corridor_left_knows(2, 4, 2);
    lemma_corridor_left_knows(3, 2, 1);
    lemma_corridor_left_knows(3, 3, 2);
    lemma_corridor_left_knows(4, 1, 1);
    lemma_corridor_left_knows(4, 2, 2);
    lemma_corridor_left_knows(13, 1, 2);
    lemma_corridor_room(1, 1);
    assert forall|x: int, y: int| 1 <= x <= 5 && 1 <= y <= 2 implies #[trigger] after_steps(
        corridor_run(),
        32,
    ).robots[0].map.cell(x, y) == CellState::Empty by {
        lemma_corridor_room(x, y);
    }
}

} // verus!
