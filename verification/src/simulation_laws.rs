//! What holds of every run: agents stay on the map and on passable cells,
//! maps only ever gain knowledge, legs end where they began, and rotation
//! totals follow the headings.

use vstd::prelude::*;
use crate::constants::{MAX_SIMULATION_TICKS, ROBOT_LEFT_HAND, ROBOT_RIGHT_HAND};
use crate::robot_node::phase_trait::ContextModel;
use crate::robot_node::phases::boundary_analysis::pair_verdict;
use crate::robot_node::{
    after_tick,
    disciplined,
    lemma_phase_order,
    lemma_tick_but_maps,
    same_but_maps,
    with_map,
    lemma_paced_has_headroom,
    lemma_sensed_cells,
    lemma_tick_keeps_discipline,
    lemma_tick_keeps_pace,
    lemma_tick_on_open_ground,
    paced,
    sensed,
    tick_fits,
    with_sensed_cell,
};
use crate::simulation_manager::{
    lemma_acting_keeps_wf,
    lemma_exchange_keeps_wf,
    lemma_headroom_fits,
    lemma_sensing_keeps_wf,
    received,
    started,
    starting_robot,
    SimulationModel,
};
use crate::types::{
    in_comm_range,
    manhattan,
    point_at,
    BoundaryAnalysisResult,
    lemma_index_in_range,
    lemma_keeps_knowledge_transitive,
    lemma_merge_agreeing,
    CellState,
    GridModel,
    Point,
    RobotModel,
    RobotPhase,
};

verus! {

/// A full tick keeps a well-formed simulation well formed: in particular
/// every agent stays on the map.
pub proof fn lemma_step_keeps_wf(sim: SimulationModel)
    requires
        sim.wf(),
    ensures
        sim.after_step().wf(),
{
    lemma_sensing_keeps_wf(sim);
    lemma_exchange_keeps_wf(sim.after_sensing());
    let recorded = sim.after_sensing().after_exchange().after_recording();
    assert(recorded.robots == sim.after_sensing().after_exchange().robots);
    assert(recorded.wf());
    lemma_acting_keeps_wf(recorded);
    let acted = recorded.after_acting();
    assert(sim.after_step().robots == acted.robots);
    assert(sim.after_step().context() == acted.context());
}

/// Copying a cell from the ground truth into a map that agrees with it keeps
/// the agreement and every known cell.
proof fn lemma_sensed_cell_agrees(map: GridModel, truth: GridModel, x: int, y: int)
    requires
        map.wf(),
        truth.wf(),
        map.agrees_with(truth),
    ensures
        with_sensed_cell(map, truth, x, y).wf(),
        with_sensed_cell(map, truth, x, y).agrees_with(truth),
        with_sensed_cell(map, truth, x, y).keeps_knowledge_of(map),
{
    if map.in_bounds(x, y) {
        lemma_index_in_range(map, x, y);
    }
}

/// Sensing keeps a map in agreement with the ground truth and loses nothing.
proof fn lemma_sensing_agrees(map: GridModel, truth: GridModel, pos: Point)
    requires
        map.wf(),
        truth.wf(),
        map.agrees_with(truth),
    ensures
        sensed(map, truth, pos).wf(),
        sensed(map, truth, pos).agrees_with(truth),
        sensed(map, truth, pos).keeps_knowledge_of(map),
{
    let x = pos.x as int;
    let y = pos.y as int;
    let m1 = with_sensed_cell(map, truth, x, y);
    let m2 = with_sensed_cell(m1, truth, x, y - 1);
    let m3 = with_sensed_cell(m2, truth, x, y + 1);
    let m4 = with_sensed_cell(m3, truth, x + 1, y);
    lemma_sensed_cell_agrees(map, truth, x, y);
    lemma_sensed_cell_agrees(m1, truth, x, y - 1);
    lemma_sensed_cell_agrees(m2, truth, x, y + 1);
    lemma_sensed_cell_agrees(m3, truth, x + 1, y);
    lemma_sensed_cell_agrees(m4, truth, x - 1, y);
}

/// Taking over maps that agree with the ground truth keeps a map in
/// agreement with it and loses nothing.
proof fn lemma_received_agrees(
    robot: RobotModel,
    others: Seq<RobotModel>,
    k: int,
    truth: GridModel,
)
    requires
        0 <= k <= others.len(),
        robot.map.agrees_with(truth),
        forall|j: int| 0 <= j < others.len() ==> (#[trigger] others[j]).map.agrees_with(truth),
    ensures
        received(robot, others, k).agrees_with(truth),
        received(robot, others, k).keeps_knowledge_of(robot.map),
    decreases k,
{
    if k > 0 {
        lemma_received_agrees(robot, others, k - 1, truth);
        assert(others[k - 1].map.agrees_with(truth));
        lemma_merge_agreeing(
            received(robot, others, k - 1),
            others[k - 1].map,
            truth,
        );
    }
}

/// The agent's map knows the cell north of the agent, if that cell is on the map.
pub open spec fn front_known(robot: RobotModel) -> bool {
    robot.map.cell_or_obstacle(robot.pose.position.x as int, robot.pose.position.y - 1)
        != CellState::Unexplored
}

/// Sensing on a ground truth without unexplored cells: the maps still agree
/// with the ground truth, nothing known has changed, and every agent knows
/// the cell north of it.
proof fn lemma_sensing_keeps_knowledge(sim: SimulationModel)
    requires
        sim.wf(),
        sim.map.fully_known(),
        sim.consistent(),
    ensures
        sim.after_sensing().wf(),
        sim.after_sensing().consistent(),
        sim.after_sensing().keeps_knowledge_of(sim),
        forall|i: int|
            0 <= i < sim.robots.len() ==> front_known(#[trigger] sim.after_sensing().robots[i]),
{
    lemma_sensing_keeps_wf(sim);
    let after = sim.after_sensing();
    assert forall|i: int| 0 <= i < sim.robots.len() implies {
        &&& (#[trigger] after.robots[i]).map.agrees_with(sim.map)
        &&& after.robots[i].map.keeps_knowledge_of(sim.robots[i].map)
        &&& front_known(after.robots[i])
    } by {
        let robot = sim.robots[i];
        assert(robot.wf());
        assert(sim.context().admits(robot));
        assert(robot.map.agrees_with(sim.map));
        lemma_sensing_agrees(robot.map, sim.map, robot.pose.position);
        lemma_sensed_front_known(robot.map, sim.map, robot.pose.position);
        assert(after.robots[i].map == sensed(robot.map, sim.map, robot.pose.position));
        assert(after.robots[i].pose == robot.pose);
    }
}

/// After sensing on a ground truth without unexplored cells, a map knows the
/// cell north of the agent.
proof fn lemma_sensed_front_known(map: GridModel, truth: GridModel, pos: Point)
    requires
        map.wf(),
        truth.wf(),
        map.same_shape(truth),
        truth.fully_known(),
    ensures
        sensed(map, truth, pos).cell_or_obstacle(pos.x as int, pos.y - 1)
            != CellState::Unexplored,
{
    let x = pos.x as int;
    let y = pos.y - 1;
    if map.in_bounds(x, y) {
        lemma_sensed_cells(map, truth, pos, x, y);
        lemma_index_in_range(truth, x, y);
    } else {
        lemma_sensed_shape(map, truth, pos);
    }
}

/// Sensing keeps the shape of a map.
proof fn lemma_sensed_shape(map: GridModel, truth: GridModel, pos: Point)
    ensures
        sensed(map, truth, pos).same_shape(map),
{
}

/// A cell that a map knows is known to every map that keeps its knowledge.
proof fn lemma_known_cell_stays(before: GridModel, after: GridModel, x: int, y: int)
    requires
        before.wf(),
        after.keeps_knowledge_of(before),
        before.cell_or_obstacle(x, y) != CellState::Unexplored,
    ensures
        after.cell_or_obstacle(x, y) != CellState::Unexplored,
{
    if before.in_bounds(x, y) {
        lemma_index_in_range(before, x, y);
        assert(after.cells[before.index_of(x, y)] == before.cells[before.index_of(x, y)]);
    }
}

/// The exchange between maps that agree with the ground truth: the maps
/// still agree with it, and nothing known has changed.
proof fn lemma_exchange_keeps_knowledge(sim: SimulationModel)
    requires
        sim.wf(),
        sim.consistent(),
    ensures
        sim.after_exchange().wf(),
        sim.after_exchange().consistent(),
        sim.after_exchange().keeps_knowledge_of(sim),
        forall|i: int|
            0 <= i < sim.robots.len() && front_known(#[trigger] sim.robots[i]) ==> front_known(
                sim.after_exchange().robots[i],
            ),
{
    lemma_exchange_keeps_wf(sim);
    let after = sim.after_exchange();
    assert forall|i: int| 0 <= i < sim.robots.len() implies {
        &&& (#[trigger] after.robots[i]).map.agrees_with(sim.map)
        &&& after.robots[i].map.keeps_knowledge_of(sim.robots[i].map)
        &&& (front_known(sim.robots[i]) ==> front_known(after.robots[i]))
    } by {
        let robot = sim.robots[i];
        assert(robot.wf());
        assert(robot.map.agrees_with(sim.map));
        lemma_received_agrees(robot, sim.robots, sim.robots.len() as int, sim.map);
        let merged = received(robot, sim.robots, sim.robots.len() as int);
        assert(after.robots[i].map == merged);
        assert(after.robots[i].pose == robot.pose);
        if front_known(robot) {
            lemma_known_cell_stays(
                robot.map,
                merged,
                robot.pose.position.x as int,
                robot.pose.position.y - 1,
            );
        }
    }
}

/// Acting when every agent knows the cell north of it changes no map.
proof fn lemma_acting_keeps_maps(sim: SimulationModel)
    requires
        sim.wf(),
        forall|i: int| 0 <= i < sim.robots.len() ==> front_known(#[trigger] sim.robots[i]),
    ensures
        sim.after_acting().wf(),
        forall|i: int|
            0 <= i < sim.robots.len() ==> (#[trigger] sim.after_acting().robots[i]).map
                == sim.robots[i].map,
{
    lemma_acting_keeps_wf(sim);
    assert forall|i: int| 0 <= i < sim.robots.len() implies (
    #[trigger] sim.after_acting().robots[i]).map == sim.robots[i].map by {
        assert(sim.robots[i].wf());
        assert(sim.context().admits(sim.robots[i]));
        assert(front_known(sim.robots[i]));
        lemma_tick_keeps_map(sim.robots[i], sim.context());
    }
}

/// Map monotonicity of one full tick. On a ground truth without unexplored
/// cells, agents whose maps agree with the ground truth still have maps that
/// agree with it after the tick, and no cell that an agent knew has changed.
pub proof fn lemma_step_keeps_knowledge(sim: SimulationModel)
    requires
        sim.wf(),
        sim.map.fully_known(),
        sim.consistent(),
    ensures
        sim.after_step().wf(),
        sim.after_step().consistent(),
        sim.after_step().keeps_knowledge_of(sim),
        sim.after_step().map == sim.map,
{
    let s1 = sim.after_sensing();
    let s2 = s1.after_exchange();
    let s3 = s2.after_recording();
    let s4 = s3.after_acting();
    lemma_sensing_keeps_knowledge(sim);
    lemma_exchange_keeps_knowledge(s1);
    assert(s3.robots == s2.robots);
    assert(s3.map == sim.map);
    assert(s3.wf());
    assert forall|i: int| 0 <= i < s3.robots.len() implies front_known(#[trigger] s3.robots[i]) by {
        assert(front_known(s1.robots[i]));
    }
    lemma_acting_keeps_maps(s3);
    assert(sim.after_step().robots == s4.robots);
    assert(sim.after_step().map == sim.map);
    assert(sim.after_step().context() == s4.context());
    assert forall|i: int| 0 <= i < sim.after_step().robots.len() implies {
        &&& (#[trigger] sim.after_step().robots[i]).map.agrees_with(sim.map)
        &&& sim.after_step().robots[i].map.keeps_knowledge_of(sim.robots[i].map)
    } by {
        assert(s4.robots[i].map == s2.robots[i].map);
        assert(s2.robots[i].map.agrees_with(sim.map));
        assert(s2.robots[i].map.keeps_knowledge_of(s1.robots[i].map));
        assert(s1.robots[i].map.keeps_knowledge_of(sim.robots[i].map));
        lemma_keeps_knowledge_transitive(
            sim.robots[i].map,
            s1.robots[i].map,
            s2.robots[i].map,
        );
    }
}

/// A tick leaves the map of an agent as it is when the agent's map already
/// knows the cell north of the agent.
proof fn lemma_tick_keeps_map(state: RobotModel, context: ContextModel)
    requires
        state.wf(),
        context.admits(state),
        state.map.cell_or_obstacle(state.pose.position.x as int, state.pose.position.y - 1)
            != CellState::Unexplored,
    ensures
        after_tick(state, context).map == state.map,
{
    crate::robot_node::phases::boundary_scouting::lemma_scouting_keeps_wf(state, context);
    crate::robot_node::phases::island_escape::lemma_escape_keeps_wf(state, context);
    let x = state.pose.position.x as int;
    let y = state.pose.position.y - 1;
    if state.phase == RobotPhase::InitialWallFind && state.map.in_bounds(x, y) {
        lemma_index_in_range(state.map, x, y);
        assert(state.map.with_cell(x, y, state.map.cell(x, y)).cells =~= state.map.cells);
    }
}

/// The simulation starts with maps that agree with the ground truth.
pub proof fn lemma_started_consistent(truth: GridModel, first: Point, second: Point)
    requires
        truth.wf(),
    ensures
        started(truth, first, second).consistent(),
{
    let blank = GridModel::blank(truth.width, truth.height);
    assert(blank.wf());
    assert(blank.agrees_with(truth));
    lemma_sensing_agrees(blank, truth, first);
    lemma_sensing_agrees(blank, truth, second);
}

/// Map monotonicity of a whole run, and bounds safety with it. On a ground
/// truth without unexplored cells, a run from a well-formed state whose maps
/// agree with the ground truth ends in such a state, and no cell that an
/// agent knew at the start has changed.
pub proof fn lemma_run_keeps_knowledge(sim: SimulationModel)
    requires
        sim.wf(),
        sim.map.fully_known(),
        sim.consistent(),
    ensures
        sim.after_run().wf(),
        sim.after_run().consistent(),
        sim.after_run().keeps_knowledge_of(sim),
    decreases MAX_SIMULATION_TICKS - sim.tick_count,
{
    if sim.finished() || !sim.has_headroom() {
    } else {
        lemma_step_keeps_knowledge(sim);
        let next = sim.after_step();
        lemma_run_keeps_knowledge(next);
        assert forall|i: int| 0 <= i < sim.after_run().robots.len() implies (
        #[trigger] sim.after_run().robots[i]).map.keeps_knowledge_of(sim.robots[i].map) by {
            assert(next.after_run().robots[i].map.keeps_knowledge_of(next.robots[i].map));
            assert(next.robots[i].map.keeps_knowledge_of(sim.robots[i].map));
            lemma_keeps_knowledge_transitive(
                sim.robots[i].map,
                next.robots[i].map,
                next.after_run().robots[i].map,
            );
        }
    }
}

/// A map that agrees with the ground truth and knows the cell north of the
/// agent says of that cell what the ground truth says.
proof fn lemma_known_front_is_seen(robot: RobotModel, truth: GridModel)
    requires
        robot.wf(),
        truth.wf(),
        robot.map.agrees_with(truth),
        front_known(robot),
    ensures
        robot.sees_front(truth),
{
    let x = robot.pose.position.x as int;
    let y = robot.pose.position.y - 1;
    if robot.map.in_bounds(x, y) {
        lemma_index_in_range(robot.map, x, y);
    }
}

/// One agent's tick inside a coherent state: the agent keeps its discipline,
/// stays on passable cells, and its map does not change.
proof fn lemma_robot_acts_coherently(robot: RobotModel, context: ContextModel)
    requires
        robot.wf(),
        context.admits(robot),
        tick_fits(robot, context),
        disciplined(robot),
        robot.on_open_ground(context.global),
        robot.map.agrees_with(context.global),
        front_known(robot),
    ensures
        disciplined(after_tick(robot, context)),
        after_tick(robot, context).on_open_ground(context.global),
        after_tick(robot, context).map == robot.map,
{
    lemma_known_front_is_seen(robot, context.global);
    lemma_tick_keeps_discipline(robot, context);
    lemma_tick_on_open_ground(robot, context);
    lemma_tick_keeps_map(robot, context);
}

/// Neither the discipline of an agent nor the ground it stands on depends on
/// the agent's map.
proof fn lemma_discipline_ignores_map(state: RobotModel, map: GridModel, truth: GridModel)
    ensures
        disciplined(RobotModel { map, ..state }) == disciplined(state),
        (RobotModel { map, ..state }).on_open_ground(truth) == state.on_open_ground(truth),
        front_known(RobotModel { map, ..state }) == (map.cell_or_obstacle(
            state.pose.position.x as int,
            state.pose.position.y - 1,
        ) != CellState::Unexplored),
{
}

/// Sensing keeps a state coherent and teaches every agent the cell north of it.
proof fn lemma_coherent_after_sensing(sim: SimulationModel)
    requires
        sim.coherent(),
    ensures
        sim.after_sensing().coherent(),
        sim.after_sensing().keeps_knowledge_of(sim),
        forall|i: int|
            0 <= i < sim.robots.len() ==> front_known(#[trigger] sim.after_sensing().robots[i]),
{
    lemma_sensing_keeps_knowledge(sim);
    let after = sim.after_sensing();
    assert forall|i: int| 0 <= i < after.robots.len() implies {
        &&& disciplined(#[trigger] after.robots[i])
        &&& after.robots[i].on_open_ground(after.map)
    } by {
        assert(disciplined(sim.robots[i]) && sim.robots[i].on_open_ground(sim.map));
        lemma_discipline_ignores_map(sim.robots[i], after.robots[i].map, sim.map);
        assert(after.robots[i] == RobotModel { map: after.robots[i].map, ..sim.robots[i] });
    }
}

/// The exchange keeps a state coherent, and agents that knew the cells north
/// of them still know them.
proof fn lemma_coherent_after_exchange(sim: SimulationModel)
    requires
        sim.coherent(),
    ensures
        sim.after_exchange().coherent(),
        sim.after_exchange().keeps_knowledge_of(sim),
        forall|i: int|
            0 <= i < sim.robots.len() && front_known(#[trigger] sim.robots[i]) ==> front_known(
                sim.after_exchange().robots[i],
            ),
{
    lemma_exchange_keeps_knowledge(sim);
    let after = sim.after_exchange();
    assert forall|i: int| 0 <= i < after.robots.len() implies {
        &&& disciplined(#[trigger] after.robots[i])
        &&& after.robots[i].on_open_ground(after.map)
    } by {
        assert(disciplined(sim.robots[i]) && sim.robots[i].on_open_ground(sim.map));
        lemma_discipline_ignores_map(sim.robots[i], after.robots[i].map, sim.map);
        assert(after.robots[i] == RobotModel { map: after.robots[i].map, ..sim.robots[i] });
    }
}

/// Whether a state is coherent does not depend on its history.
proof fn lemma_coherent_ignores_history(sim: SimulationModel, history: Seq<Seq<RobotModel>>)
    requires
        sim.coherent(),
    ensures
        (SimulationModel { history, ..sim }).coherent(),
{
    let other = SimulationModel { history, ..sim };
    assert(other.context() == sim.context());
    assert forall|i: int| 0 <= i < other.robots.len() implies {
        &&& (#[trigger] other.robots[i]).wf()
        &&& other.context().admits(other.robots[i])
        &&& other.robots[i].map.agrees_with(other.map)
        &&& disciplined(other.robots[i])
        &&& other.robots[i].on_open_ground(other.map)
    } by {
        assert(sim.robots[i].wf());
    }
}

/// In a coherent state that has sensed, exchanged and recorded, every agent
/// is ready to act: the state is still coherent, and every agent's map knows
/// the cell north of the agent.
proof fn lemma_coherent_before_acting(sim: SimulationModel)
    requires
        sim.coherent(),
    ensures
        sim.after_sensing().after_exchange().after_recording().coherent(),
        sim.after_sensing().after_exchange().after_recording().keeps_knowledge_of(sim),
        forall|i: int|
            0 <= i < sim.robots.len() ==> front_known(
                #[trigger] sim.after_sensing().after_exchange().after_recording().robots[i],
            ),
{
    let s1 = sim.after_sensing();
    let s2 = s1.after_exchange();
    let s3 = s2.after_recording();
    lemma_coherent_after_sensing(sim);
    lemma_coherent_after_exchange(s1);
    lemma_coherent_ignores_history(s2, s3.history);
    assert(s3.robots == s2.robots);
    assert forall|i: int| 0 <= i < s3.robots.len() implies {
        &&& front_known(#[trigger] s3.robots[i])
        &&& s3.robots[i].map.keeps_knowledge_of(sim.robots[i].map)
    } by {
        assert(front_known(s1.robots[i]));
        assert(s2.robots[i].map.keeps_knowledge_of(s1.robots[i].map));
        assert(s1.robots[i].map.keeps_knowledge_of(sim.robots[i].map));
        lemma_keeps_knowledge_transitive(sim.robots[i].map, s1.robots[i].map, s2.robots[i].map);
    }
}

/// Acting in a coherent state whose agents know the cells north of them
/// keeps the state coherent and changes no map.
proof fn lemma_acting_keeps_coherent(sim: SimulationModel)
    requires
        sim.coherent(),
        sim.acting_fits(),
        forall|i: int| 0 <= i < sim.robots.len() ==> front_known(#[trigger] sim.robots[i]),
    ensures
        sim.after_acting().coherent(),
        sim.after_acting().keeps_knowledge_of(sim),
{
    lemma_acting_keeps_maps(sim);
    let after = sim.after_acting();
    assert forall|i: int| 0 <= i < after.robots.len() implies {
        &&& disciplined(#[trigger] after.robots[i])
        &&& after.robots[i].on_open_ground(after.map)
        &&& after.robots[i].map.agrees_with(after.map)
        &&& after.robots[i].map.keeps_knowledge_of(sim.robots[i].map)
    } by {
        let robot = sim.robots[i];
        assert(robot.wf());
        assert(sim.context().admits(robot));
        assert(tick_fits(robot, sim.context()));
        assert(disciplined(robot) && robot.on_open_ground(sim.map));
        assert(robot.map.agrees_with(sim.map));
        assert(front_known(robot));
        lemma_robot_acts_coherently(robot, sim.context());
    }
}

/// The invariant of a run is kept by every full tick, and no cell that an
/// agent knew changes. In particular every agent stays on the map, on a cell
/// that is not an obstacle; every scouting agent is on its leg, so that it is
/// back on the start of the leg when the return half ends; and every rotation
/// total is in step with the agent's heading.
pub proof fn lemma_step_keeps_coherent(sim: SimulationModel)
    requires
        sim.coherent(),
        sim.after_sensing().after_exchange().acting_fits(),
    ensures
        sim.after_step().coherent(),
        sim.after_step().keeps_knowledge_of(sim),
{
    let s3 = sim.after_sensing().after_exchange().after_recording();
    let s4 = s3.after_acting();
    lemma_coherent_before_acting(sim);
    assert(s3.robots == sim.after_sensing().after_exchange().robots);
    assert(s3.context() == sim.after_sensing().after_exchange().context());
    assert(s3.acting_fits());
    lemma_acting_keeps_coherent(s3);
    lemma_coherent_ignores_tick_count(s4, s4.tick_count + 1);
    assert forall|i: int| 0 <= i < s4.robots.len() implies (
    #[trigger] s4.robots[i]).map.keeps_knowledge_of(sim.robots[i].map) by {
        lemma_keeps_knowledge_transitive(
            sim.robots[i].map,
            s3.robots[i].map,
            s4.robots[i].map,
        );
    }
}

/// Whether a state is coherent does not depend on its tick counter.
proof fn lemma_coherent_ignores_tick_count(sim: SimulationModel, ticks: int)
    requires
        sim.coherent(),
    ensures
        (SimulationModel { tick_count: ticks, ..sim }).coherent(),
{
    let other = SimulationModel { tick_count: ticks, ..sim };
    assert(other.context() == sim.context());
    assert forall|i: int| 0 <= i < other.robots.len() implies {
        &&& (#[trigger] other.robots[i]).wf()
        &&& other.context().admits(other.robots[i])
        &&& other.robots[i].map.agrees_with(other.map)
        &&& disciplined(other.robots[i])
        &&& other.robots[i].on_open_ground(other.map)
    } by {
        assert(sim.robots[i].wf());
    }
}

/// An agent that starts on a passable cell is well formed, disciplined and
/// on open ground, and its map agrees with the ground truth.
proof fn lemma_starting_robot(id: u8, partner_id: u8, position: Point, truth: GridModel)
    requires
        truth.wf(),
        truth.passable(position.x as int, position.y as int),
    ensures
        starting_robot(id, partner_id, position, truth).wf(),
        starting_robot(id, partner_id, position, truth).map.same_shape(truth),
        starting_robot(id, partner_id, position, truth).map.agrees_with(truth),
        starting_robot(id, partner_id, position, truth).on_open_ground(truth),
        disciplined(starting_robot(id, partner_id, position, truth)),
{
    let blank = GridModel::blank(truth.width, truth.height);
    assert(blank.wf());
    assert(blank.agrees_with(truth));
    lemma_sensing_agrees(blank, truth, position);
    lemma_sensed_shape(blank, truth, position);
}

/// A simulation that starts with its agents on passable cells of a ground
/// truth without unexplored cells starts in a coherent state.
pub proof fn lemma_started_coherent(truth: GridModel, first: Point, second: Point)
    requires
        truth.wf(),
        truth.fully_known(),
        truth.passable(first.x as int, first.y as int),
        truth.passable(second.x as int, second.y as int),
    ensures
        started(truth, first, second).coherent(),
{
    let sim = started(truth, first, second);
    lemma_starting_robot(ROBOT_LEFT_HAND, ROBOT_RIGHT_HAND, first, truth);
    lemma_starting_robot(ROBOT_RIGHT_HAND, ROBOT_LEFT_HAND, second, truth);
    assert(sim.robots[0] == starting_robot(ROBOT_LEFT_HAND, ROBOT_RIGHT_HAND, first, truth));
    assert(sim.robots[1] == starting_robot(ROBOT_RIGHT_HAND, ROBOT_LEFT_HAND, second, truth));
    assert(sim.robots[0].id == ROBOT_LEFT_HAND);
    assert(sim.robots[1].id == ROBOT_RIGHT_HAND);
    assert(sim.context().has_robot(ROBOT_LEFT_HAND));
    assert(sim.context().has_robot(ROBOT_RIGHT_HAND));
}

/// The invariant of a run is kept by the whole run, and no cell that an
/// agent knew at the start has changed at the end.
pub proof fn lemma_run_keeps_coherent(sim: SimulationModel)
    requires
        sim.coherent(),
    ensures
        sim.after_run().coherent(),
        sim.after_run().keeps_knowledge_of(sim),
    decreases MAX_SIMULATION_TICKS - sim.tick_count,
{
    if sim.finished() || !sim.has_headroom() {
    } else {
        lemma_headroom_fits(sim);
        lemma_step_keeps_coherent(sim);
        let next = sim.after_step();
        lemma_run_keeps_coherent(next);
        assert forall|i: int| 0 <= i < sim.after_run().robots.len() implies (
        #[trigger] sim.after_run().robots[i]).map.keeps_knowledge_of(sim.robots[i].map) by {
            assert(next.after_run().robots[i].map.keeps_knowledge_of(next.robots[i].map));
            assert(next.robots[i].map.keeps_knowledge_of(sim.robots[i].map));
            lemma_keeps_knowledge_transitive(
                sim.robots[i].map,
                next.robots[i].map,
                next.after_run().robots[i].map,
            );
        }
    }
}

/// Communication range, for a pair of agents with different identifiers: in
/// the exchange each takes over the other's map exactly when their Manhattan
/// distance is at most two, and keeps its own map as it is otherwise.
pub proof fn lemma_exchange_in_range_only(sim: SimulationModel)
    requires
        sim.robots.len() == 2,
        sim.robots[0].id != sim.robots[1].id,
    ensures
        sim.after_exchange().robots[0].map.cells == if in_comm_range(
            sim.robots[0].pose.position,
            sim.robots[1].pose.position,
        ) {
            sim.robots[0].map.merged(sim.robots[1].map).cells
        } else {
            sim.robots[0].map.cells
        },
        sim.after_exchange().robots[1].map.cells == if in_comm_range(
            sim.robots[0].pose.position,
            sim.robots[1].pose.position,
        ) {
            sim.robots[1].map.merged(sim.robots[0].map).cells
        } else {
            sim.robots[1].map.cells
        },
{
    reveal_with_fuel(received, 3);
    let a = sim.robots[0];
    let b = sim.robots[1];
    assert(received(a, sim.robots, 1) == a.map);
    assert(received(b, sim.robots, 1) == if in_comm_range(b.pose.position, a.pose.position) {
        b.map.merged(a.map)
    } else {
        b.map
    });
    assert(in_comm_range(a.pose.position, b.pose.position) == in_comm_range(
        b.pose.position,
        a.pose.position,
    ));
}

/// The history is append-only: a full tick appends one snapshot, the agents
/// as they are after sensing and exchanging, and keeps every earlier one.
pub proof fn lemma_history_append_only(sim: SimulationModel)
    ensures
        sim.after_step().history == sim.history.push(
            sim.after_sensing().after_exchange().robots,
        ),
        sim.after_step().tick_count == sim.tick_count + 1,
        sim.after_step().map == sim.map,
{
}

/// Neither the discipline nor the pace of an agent depends on its map.
proof fn lemma_pace_ignores_map(state: RobotModel, map: GridModel, ticks: int)
    ensures
        disciplined(RobotModel { map, ..state }) == disciplined(state),
        paced(RobotModel { map, ..state }, ticks) == paced(state, ticks),
        (RobotModel { map, ..state }).has_headroom() == state.has_headroom(),
{
}

/// A steady state has room in every counter.
pub proof fn lemma_steady_has_headroom(sim: SimulationModel)
    requires
        sim.steady(),
    ensures
        sim.has_headroom(),
{
    assert forall|i: int| 0 <= i < sim.robots.len() implies (
    #[trigger] sim.robots[i]).has_headroom() by {
        assert(paced(sim.robots[i], sim.tick_count));
        lemma_paced_has_headroom(sim.robots[i], sim.tick_count);
    }
}

/// A full tick of a steady state that has not reached the tick cap leaves a
/// steady state.
pub proof fn lemma_step_keeps_steady(sim: SimulationModel)
    requires
        sim.steady(),
        sim.tick_count < MAX_SIMULATION_TICKS,
    ensures
        sim.after_step().steady(),
{
    lemma_step_keeps_wf(sim);
    lemma_steady_has_headroom(sim);
    lemma_headroom_fits(sim);
    lemma_sensing_keeps_wf(sim);
    lemma_exchange_keeps_wf(sim.after_sensing());
    let s2 = sim.after_sensing().after_exchange();
    let s3 = s2.after_recording();
    let s4 = s3.after_acting();
    assert(s3.robots == s2.robots);
    assert(s3.context() == s2.context());
    assert(sim.after_step().robots == s4.robots);
    assert forall|i: int| 0 <= i < sim.after_step().robots.len() implies {
        &&& disciplined(#[trigger] sim.after_step().robots[i])
        &&& paced(sim.after_step().robots[i], sim.after_step().tick_count)
    } by {
        let r0 = sim.robots[i];
        let r2 = s2.robots[i];
        lemma_sensing_and_exchange_keep_agents(sim, i);
        lemma_pace_ignores_map(r0, r2.map, sim.tick_count);
        assert(disciplined(r0) && paced(r0, sim.tick_count));
        assert(r2.wf());
        assert(s2.context().admits(r2));
        assert(tick_fits(r2, s2.context()));
        lemma_tick_keeps_discipline(r2, s3.context());
        lemma_tick_keeps_pace(r2, s3.context(), sim.tick_count);
        assert(s4.robots[i] == after_tick(r2, s3.context()));
    }
}

/// Sensing and exchanging change nothing of an agent but its map.
proof fn lemma_sensing_and_exchange_keep_agents(sim: SimulationModel, i: int)
    requires
        0 <= i < sim.robots.len(),
    ensures
        sim.after_sensing().after_exchange().robots.len() == sim.robots.len(),
        sim.after_sensing().after_exchange().robots[i] == (RobotModel {
            map: sim.after_sensing().after_exchange().robots[i].map,
            ..sim.robots[i]
        }),
{
}

/// A simulation that starts with its agents on the map starts in a steady state.
pub proof fn lemma_started_steady(truth: GridModel, first: Point, second: Point)
    requires
        truth.wf(),
        truth.in_bounds(first.x as int, first.y as int),
        truth.in_bounds(second.x as int, second.y as int),
    ensures
        started(truth, first, second).steady(),
{
    let sim = started(truth, first, second);
    let blank = GridModel::blank(truth.width, truth.height);
    assert(blank.wf());
    lemma_sensed_cells(blank, truth, first, first.x as int, first.y as int);
    lemma_sensed_cells(blank, truth, second, second.x as int, second.y as int);
    assert(sim.robots[0] == starting_robot(ROBOT_LEFT_HAND, ROBOT_RIGHT_HAND, first, truth));
    assert(sim.robots[1] == starting_robot(ROBOT_RIGHT_HAND, ROBOT_LEFT_HAND, second, truth));
    assert(sim.context().has_robot(ROBOT_LEFT_HAND));
    assert(sim.context().has_robot(ROBOT_RIGHT_HAND));
}

/// Termination: a run from a steady state goes on until every agent is idle
/// or the tick cap is reached. No counter ever stops it.
pub proof fn lemma_run_finishes(sim: SimulationModel)
    requires
        sim.steady(),
    ensures
        sim.after_run().finished(),
        sim.after_run().steady(),
    decreases MAX_SIMULATION_TICKS - sim.tick_count,
{
    lemma_steady_has_headroom(sim);
    if !sim.finished() {
        lemma_step_keeps_steady(sim);
        lemma_run_finishes(sim.after_step());
    }
}

/// No agent is in the interior sweep or idle.
pub open spec fn none_swept(sim: SimulationModel) -> bool {
    forall|i: int|
        0 <= i < sim.robots.len() ==> (#[trigger] sim.robots[i]).phase != RobotPhase::InteriorSweep
            && sim.robots[i].phase != RobotPhase::Idle
}

/// No agent goes idle before an analysis: after a full tick of a state in
/// which no agent is in the interior sweep or idle, no agent is idle, and an
/// agent is in the interior sweep only if in this tick it was in boundary
/// analysis together with its partner and the verdict on their rotation
/// totals was the exterior wall.
pub proof fn lemma_no_idle_before_analysis(sim: SimulationModel)
    requires
        none_swept(sim),
    ensures
        forall|i: int|
            0 <= i < sim.robots.len() ==> {
                let ready = sim.after_sensing().after_exchange();
                let partner = ready.context().robot_with(ready.robots[i].partner_id);
                &&& (#[trigger] sim.after_step().robots[i]).phase != RobotPhase::Idle
                &&& (sim.after_step().robots[i].phase == RobotPhase::InteriorSweep ==> {
                    &&& sim.robots[i].phase == RobotPhase::BoundaryAnalysis
                    &&& partner.phase == RobotPhase::BoundaryAnalysis
                    &&& pair_verdict(ready.robots[i], partner)
                        == BoundaryAnalysisResult::ExteriorWall
                })
            },
{
    let ready = sim.after_sensing().after_exchange();
    let recorded = ready.after_recording();
    assert(recorded.robots == ready.robots);
    assert(recorded.context() == ready.context());
    assert(sim.after_step().robots == recorded.after_acting().robots);
    assert forall|i: int| 0 <= i < sim.robots.len() implies {
        let partner = ready.context().robot_with(ready.robots[i].partner_id);
        &&& (#[trigger] sim.after_step().robots[i]).phase != RobotPhase::Idle
        &&& (sim.after_step().robots[i].phase == RobotPhase::InteriorSweep ==> {
            &&& sim.robots[i].phase == RobotPhase::BoundaryAnalysis
            &&& partner.phase == RobotPhase::BoundaryAnalysis
            &&& pair_verdict(ready.robots[i], partner) == BoundaryAnalysisResult::ExteriorWall
        })
    } by {
        lemma_sensing_and_exchange_keep_agents(sim, i);
        assert(sim.robots[i].phase != RobotPhase::InteriorSweep && sim.robots[i].phase
            != RobotPhase::Idle);
        lemma_phase_order(ready.robots[i], recorded.context());
        assert(sim.after_step().robots[i] == after_tick(ready.robots[i], recorded.context()));
    }
}

/// The agents of a state, each with the ground truth in place of its map.
pub open spec fn on_truth(sim: SimulationModel) -> Seq<RobotModel> {
    Seq::new(sim.robots.len(), |i: int| with_map(sim.robots[i], sim.map))
}

/// What one act makes of agents that carry the ground truth as their map,
/// each again with the ground truth in place of its map.
pub open spec fn moved_on_truth(robots: Seq<RobotModel>, truth: GridModel) -> Seq<RobotModel> {
    Seq::new(
        robots.len(),
        |i: int|
            with_map(after_tick(robots[i], ContextModel { all: robots, global: truth }), truth),
    )
}

/// After sensing, exchanging and recording, the agents are what they were
/// but for their maps.
proof fn lemma_ready_but_maps(sim: SimulationModel)
    ensures
        same_but_maps(
            sim.after_sensing().after_exchange().after_recording().robots,
            on_truth(sim),
        ),
{
    let s3 = sim.after_sensing().after_exchange().after_recording();
    assert(s3.robots == sim.after_sensing().after_exchange().robots);
    assert forall|j: int| 0 <= j < s3.robots.len() implies #[trigger] s3.robots[j] == with_map(
        on_truth(sim)[j],
        s3.robots[j].map,
    ) by {
        lemma_sensing_and_exchange_keep_agents(sim, j);
    }
}

/// One agent that is ready to act in a coherent state acts, but for its map,
/// as it would with the ground truth for a map among agents that carry the
/// ground truth too.
proof fn lemma_agent_acts_as_on_truth(
    ready: SimulationModel,
    others: Seq<RobotModel>,
    i: int,
)
    requires
        ready.wf(),
        ready.consistent(),
        0 <= i < ready.robots.len(),
        front_known(ready.robots[i]),
        same_but_maps(ready.robots, others),
        others[i].map == ready.map,
    ensures
        with_map(ready.after_acting().robots[i], ready.map) == with_map(
            after_tick(others[i], ContextModel { all: others, global: ready.map }),
            ready.map,
        ),
{
    let agent = ready.robots[i];
    assert(agent.wf());
    assert(ready.context().admits(agent));
    assert(agent.map.agrees_with(ready.map));
    lemma_known_front_is_seen(agent, ready.map);
    assert(agent == with_map(others[i], agent.map));
    lemma_tick_but_maps(
        agent,
        ready.context(),
        others[i],
        ContextModel { all: others, global: ready.map },
    );
}

/// In a coherent and steady run the agents move as if each of them knew the
/// whole ground truth: but for the private maps, a full tick makes of the
/// agents what one act makes of them when they carry the ground truth.
pub proof fn lemma_step_moves_as_on_truth(sim: SimulationModel)
    requires
        sim.coherent(),
        sim.steady(),
        sim.tick_count < MAX_SIMULATION_TICKS,
    ensures
        on_truth(sim.after_step()) == moved_on_truth(on_truth(sim), sim.map),
        sim.after_step().coherent(),
        sim.after_step().steady(),
        sim.after_step().map == sim.map,
        sim.after_step().tick_count == sim.tick_count + 1,
{
    lemma_steady_has_headroom(sim);
    lemma_headroom_fits(sim);
    lemma_step_keeps_coherent(sim);
    lemma_step_keeps_steady(sim);
    lemma_coherent_before_acting(sim);
    lemma_ready_but_maps(sim);
    let s3 = sim.after_sensing().after_exchange().after_recording();
    assert(sim.after_step().robots == s3.after_acting().robots);
    assert(s3.map == sim.map);
    assert forall|i: int| 0 <= i < sim.robots.len() implies on_truth(sim.after_step())[i]
        == moved_on_truth(on_truth(sim), sim.map)[i] by {
        lemma_agent_acts_as_on_truth(s3, on_truth(sim), i);
    }
    assert(on_truth(sim.after_step()) =~= moved_on_truth(on_truth(sim), sim.map));
}

/// Keeping knowledge is transitive between states of a run.
pub proof fn lemma_states_keep_knowledge(
    first: SimulationModel,
    second: SimulationModel,
    third: SimulationModel,
)
    requires
        second.keeps_knowledge_of(first),
        third.keeps_knowledge_of(second),
    ensures
        third.keeps_knowledge_of(first),
{
    assert forall|i: int| 0 <= i < third.robots.len() implies (
    #[trigger] third.robots[i]).map.keeps_knowledge_of(first.robots[i].map) by {
        assert(second.robots[i].map.keeps_knowledge_of(first.robots[i].map));
        lemma_keeps_knowledge_transitive(
            first.robots[i].map,
            second.robots[i].map,
            third.robots[i].map,
        );
    }
}

/// Coverage by sensing: after a full tick of a coherent state every agent's
/// map holds, as the ground truth has them, the cell on which the agent stood
/// when the tick began and the neighbours of that cell.
pub proof fn lemma_step_knows_surroundings(sim: SimulationModel, i: int, x: int, y: int)
    requires
        sim.coherent(),
        0 <= i < sim.robots.len(),
        sim.map.in_bounds(x, y),
        manhattan(sim.robots[i].pose.position, point_at(x, y)) <= 1,
    ensures
        sim.after_step().robots[i].map.cell(x, y) == sim.map.cell(x, y),
        sim.after_step().robots[i].map.cell(x, y) != CellState::Unexplored,
{
    let s1 = sim.after_sensing();
    let s2 = s1.after_exchange();
    let s3 = s2.after_recording();
    let robot = sim.robots[i];
    assert(robot.wf());
    assert(sim.context().admits(robot));
    lemma_sensed_cells(robot.map, sim.map, robot.pose.position, x, y);
    lemma_index_in_range(sim.map, x, y);
    lemma_index_in_range(robot.map, x, y);
    lemma_coherent_after_sensing(sim);
    lemma_coherent_after_exchange(s1);
    lemma_coherent_before_acting(sim);
    lemma_acting_keeps_maps(s3);
    assert(s3.robots == s2.robots);
    assert(sim.after_step().robots == s3.after_acting().robots);
    assert(s1.robots[i].map.cell(x, y) == sim.map.cell(x, y));
    assert(s2.robots[i].map.keeps_knowledge_of(s1.robots[i].map));
    assert(sim.after_step().robots[i].map == s2.robots[i].map);
}

/// A cell that a map knows has the same state in every map that keeps its
/// knowledge.
pub proof fn lemma_kept_cell(earlier: GridModel, later: GridModel, x: int, y: int)
    requires
        earlier.wf(),
        later.keeps_knowledge_of(earlier),
        earlier.in_bounds(x, y),
        earlier.cell(x, y) != CellState::Unexplored,
    ensures
        later.cell(x, y) == earlier.cell(x, y),
{
    lemma_index_in_range(earlier, x, y);
    assert(later.cells[earlier.index_of(x, y)] == earlier.cells[earlier.index_of(x, y)]);
}

/// What an agent has sensed stays: a cell on or next to which an agent stood
/// when a full tick of a coherent state began has, in every later state that
/// keeps the knowledge of the state after that tick, the state that the
/// ground truth gives it.
pub proof fn lemma_sensed_cells_stay(
    then: SimulationModel,
    later: SimulationModel,
    i: int,
    x: int,
    y: int,
)
    requires
        then.coherent(),
        then.after_sensing().after_exchange().acting_fits(),
        later.keeps_knowledge_of(then.after_step()),
        0 <= i < then.robots.len(),
        then.map.in_bounds(x, y),
        manhattan(then.robots[i].pose.position, point_at(x, y)) <= 1,
    ensures
        later.robots[i].map.cell(x, y) == then.map.cell(x, y),
{
    let next = then.after_step();
    lemma_step_knows_surroundings(then, i, x, y);
    lemma_step_keeps_coherent(then);
    assert(next.robots[i].wf());
    assert(next.context().admits(next.robots[i]));
    assert(later.robots[i].map.keeps_knowledge_of(next.robots[i].map));
    lemma_kept_cell(next.robots[i].map, later.robots[i].map, x, y);
}

/// What a map that agrees with the ground truth marks as empty is empty: no
/// wall is taken for an empty cell.
pub proof fn lemma_no_wall_marked_empty(sim: SimulationModel, i: int, x: int, y: int)
    requires
        sim.wf(),
        sim.consistent(),
        0 <= i < sim.robots.len(),
        sim.map.in_bounds(x, y),
        sim.robots[i].map.cell(x, y) == CellState::Empty,
    ensures
        sim.map.cell(x, y) == CellState::Empty,
{
    assert(sim.robots[i].wf());
    assert(sim.context().admits(sim.robots[i]));
    assert(sim.robots[i].map.agrees_with(sim.map));
    lemma_index_in_range(sim.map, x, y);
}

} // verus!
