//! One agent: its state, its senses and its phase machine.

pub mod boundary_analysis;
pub mod phase_trait;
pub mod phases;
pub mod wall_following;

use vstd::prelude::*;
use crate::constants::{COMMUNICATION_RANGE, MAX_SIMULATION_TICKS};
use crate::robot_node::boundary_analysis::{avoids_border, classify_path, is_closed_loop, BoundaryAnalyzer};
use crate::robot_node::phase_trait::{
    context_model,
    ContextModel,
    PhaseContext,
    PhaseTransition,
    RobotPhaseBehavior,
};
use crate::robot_node::phases::boundary_analysis::{analysis_step, pair_verdict};
use crate::robot_node::phases::boundary_scouting::{
    counters_bounded,
    keeps_to_leg,
    leg_accounts,
    lemma_scouting_keeps_accounts,
    lemma_scouting_keeps_to_leg,
    lemma_scouting_keeps_wf,
    lemma_scouting_on_open_ground,
    scouting_fits,
    scouting_step,
};
use crate::robot_node::phases::interior_sweep::sweep_step;
use crate::robot_node::phases::island_escape::{
    escape_step,
    lemma_escape_keeps_wf,
    lemma_escape_on_open_ground,
};
use crate::robot_node::phases::wall_find::{
    lemma_wall_find_keeps_wf,
    lemma_wall_find_on_open_ground,
    wall_find_step,
};
use crate::robot_node::phases::{
    BoundaryAnalysisPhase,
    BoundaryScoutingPhase,
    InteriorSweepPhase,
    IslandEscapePhase,
    WallFindPhase,
};
use crate::robot_node::wall_following::{follow_step, WallFollower};
use crate::types::{
    in_comm_range,
    lemma_index_in_range,
    lemma_index_injective,
    manhattan,
    orientation_of_step,
    point_at,
    BoundaryAnalysisResult,
    CellState,
    GridMap,
    GridModel,
    Point,
    Pose,
    RobotModel,
    RobotPhase,
    RobotState,
};

verus! {

/// One agent.
#[derive(Debug)]
pub struct RobotNode {
    pub state: RobotState,
}

impl View for RobotNode {
    type V = RobotModel;

    open spec fn view(&self) -> RobotModel {
        self.state@
    }
}

impl Clone for RobotNode {
    fn clone(&self) -> (copy: Self)
        ensures
            copy@ == self@,
    {
        RobotNode { state: self.state.clone() }
    }
}

/// The agent after one step of the phase it is in, and the transition that
/// the step asks for. An idle agent does nothing.
pub open spec fn phase_step(state: RobotModel, context: ContextModel) -> (
    RobotModel,
    PhaseTransition,
) {
    match state.phase {
        RobotPhase::InitialWallFind => wall_find_step(state),
        RobotPhase::BoundaryScouting => scouting_step(state, context),
        RobotPhase::BoundaryAnalysis => analysis_step(state, context),
        RobotPhase::IslandEscape => escape_step(state, context),
        RobotPhase::InteriorSweep => sweep_step(state, context),
        RobotPhase::Idle => (state, PhaseTransition::Continue),
    }
}

/// The agent after following a transition.
pub open spec fn after_transition(state: RobotModel, transition: PhaseTransition) -> RobotModel {
    match transition {
        PhaseTransition::Transition(phase) => RobotModel { phase, ..state },
        PhaseTransition::Continue => state,
        PhaseTransition::Complete => state,
    }
}

/// The agent after one tick: one step of its phase, then the transition.
pub open spec fn after_tick(state: RobotModel, context: ContextModel) -> RobotModel {
    after_transition(phase_step(state, context).0, phase_step(state, context).1)
}

/// The counters that a tick increases stay within their machine types. Only
/// boundary scouting counts anything.
pub open spec fn tick_fits(state: RobotModel, context: ContextModel) -> bool {
    state.phase == RobotPhase::BoundaryScouting ==> scouting_fits(state, context)
}

/// `map` with cell `(x, y)` copied from `truth`, where `(x, y)` is on the map.
pub open spec fn with_sensed_cell(map: GridModel, truth: GridModel, x: int, y: int) -> GridModel {
    if map.in_bounds(x, y) {
        map.with_cell(x, y, truth.cell(x, y))
    } else {
        map
    }
}

/// `map` after an agent at `pos` has sensed: its own cell and the four
/// neighbours that are on the map are copied from `truth`.
pub open spec fn sensed(map: GridModel, truth: GridModel, pos: Point) -> GridModel {
    let x = pos.x as int;
    let y = pos.y as int;
    with_sensed_cell(
        with_sensed_cell(
            with_sensed_cell(
                with_sensed_cell(with_sensed_cell(map, truth, x, y), truth, x, y - 1),
                truth,
                x,
                y + 1,
            ),
            truth,
            x + 1,
            y,
        ),
        truth,
        x - 1,
        y,
    )
}

/// Cell by cell: sensing copies from the truth exactly the cells at Manhattan
/// distance at most one from the agent and leaves every other cell as it was.
pub proof fn lemma_sensed_cells(map: GridModel, truth: GridModel, pos: Point, x: int, y: int)
    requires
        map.wf(),
        truth.wf(),
        map.same_shape(truth),
        map.in_bounds(x, y),
    ensures
        sensed(map, truth, pos).wf(),
        sensed(map, truth, pos).same_shape(map),
        sensed(map, truth, pos).cell(x, y) == if manhattan(pos, point_at(x, y)) <= 1 {
            truth.cell(x, y)
        } else {
            map.cell(x, y)
        },
{
    let px = pos.x as int;
    let py = pos.y as int;
    let m1 = with_sensed_cell(map, truth, px, py);
    let m2 = with_sensed_cell(m1, truth, px, py - 1);
    let m3 = with_sensed_cell(m2, truth, px, py + 1);
    let m4 = with_sensed_cell(m3, truth, px + 1, py);
    lemma_index_in_range(map, x, y);
    lemma_sensed_one(map, truth, px, py, x, y);
    lemma_sensed_one(m1, truth, px, py - 1, x, y);
    lemma_sensed_one(m2, truth, px, py + 1, x, y);
    lemma_sensed_one(m3, truth, px + 1, py, x, y);
    lemma_sensed_one(m4, truth, px - 1, py, x, y);
}

/// Copying one cell from the truth changes that cell and no other.
pub proof fn lemma_sensed_one(map: GridModel, truth: GridModel, cx: int, cy: int, x: int, y: int)
    requires
        map.wf(),
        truth.wf(),
        map.same_shape(truth),
        map.in_bounds(x, y),
    ensures
        with_sensed_cell(map, truth, cx, cy).wf(),
        with_sensed_cell(map, truth, cx, cy).same_shape(map),
        with_sensed_cell(map, truth, cx, cy).cell(x, y) == if cx == x && cy == y {
            truth.cell(x, y)
        } else {
            map.cell(x, y)
        },
{
    lemma_index_in_range(map, x, y);
    if map.in_bounds(cx, cy) {
        lemma_index_in_range(map, cx, cy);
        if map.index_of(cx, cy) == map.index_of(x, y) {
            lemma_index_injective(map, cx, cy, x, y);
        }
    }
}

/// A tick keeps a well-formed agent well formed, on a map of the same shape,
/// with the same identifier and the same partner.
pub proof fn lemma_tick_keeps_wf(state: RobotModel, context: ContextModel)
    requires
        state.wf(),
        context.admits(state),
    ensures
        after_tick(state, context).wf(),
        after_tick(state, context).map.same_shape(state.map),
        after_tick(state, context).id == state.id,
        after_tick(state, context).partner_id == state.partner_id,
{
    crate::robot_node::phases::boundary_scouting::lemma_scouting_keeps_wf(state, context);
    crate::robot_node::phases::island_escape::lemma_escape_keeps_wf(state, context);
    crate::robot_node::phases::wall_find::lemma_wall_find_keeps_wf(state);
    let stepped = phase_step(state, context).0;
    assert(stepped.wf());
    assert(stepped.map.same_shape(state.map));
    let after = after_tick(state, context);
    assert(after.map == stepped.map);
    assert(after.pose == stepped.pose);
    assert(after.boundary_scout == stepped.boundary_scout);
}

/// A tick forgets nothing: every cell that the agent's map knew keeps its state.
pub proof fn lemma_tick_keeps_knowledge(state: RobotModel, context: ContextModel)
    requires
        state.wf(),
        context.admits(state),
    ensures
        after_tick(state, context).map.keeps_knowledge_of(state.map),
{
    crate::robot_node::phases::boundary_scouting::lemma_scouting_keeps_wf(state, context);
    crate::robot_node::phases::island_escape::lemma_escape_keeps_wf(state, context);
    crate::robot_node::phases::wall_find::lemma_wall_find_keeps_wf(state);
}

/// The discipline that the phases keep between them: an agent that is
/// finding its wall has no scout, and a scouting agent keeps to its leg.
pub open spec fn disciplined(state: RobotModel) -> bool {
    match state.phase {
        RobotPhase::InitialWallFind => state.boundary_scout is None,
        RobotPhase::BoundaryScouting => keeps_to_leg(state),
        _ => true,
    }
}

/// The agent keeps pace with the clock: its counters are bounded by its
/// outbound steps, it has taken at most one outbound step per tick so far,
/// and while it scouts its books balance.
pub open spec fn paced(state: RobotModel, ticks: int) -> bool {
    &&& counters_bounded(state)
    &&& (state.boundary_scout matches Some(scout) ==> scout.steps_taken <= ticks)
    &&& (state.phase == RobotPhase::BoundaryScouting ==> leg_accounts(state))
}

/// A tick of a disciplined agent that keeps pace with the clock leaves it in
/// pace with the clock one tick on.
pub proof fn lemma_tick_keeps_pace(state: RobotModel, context: ContextModel, ticks: int)
    requires
        state.wf(),
        context.admits(state),
        tick_fits(state, context),
        disciplined(state),
        paced(state, ticks),
        ticks >= 0,
    ensures
        paced(after_tick(state, context), ticks + 1),
{
    match state.phase {
        RobotPhase::BoundaryScouting => {
            lemma_scouting_keeps_accounts(state, context);
            lemma_scouting_keeps_wf(state, context);
            let stepped = scouting_step(state, context);
            let after = after_tick(state, context);
            assert(after.boundary_scout == stepped.0.boundary_scout);
            assert(after.scout_depth_n == stepped.0.scout_depth_n);
            assert(counters_bounded(stepped.0));
            assert(counters_bounded(after));
            if stepped.1 == PhaseTransition::Continue {
                assert(leg_accounts(stepped.0));
                assert(leg_accounts(after));
            }
        },
        RobotPhase::IslandEscape => {
            lemma_escape_keeps_wf(state, context);
        },
        RobotPhase::InitialWallFind => {
            lemma_wall_find_keeps_wf(state);
        },
        _ => {},
    }
}

/// An agent that keeps pace with a clock that has not passed the tick cap
/// has room in every counter.
pub proof fn lemma_paced_has_headroom(state: RobotModel, ticks: int)
    requires
        paced(state, ticks),
        0 <= ticks <= MAX_SIMULATION_TICKS,
    ensures
        state.has_headroom(),
{
}

/// The agent with another map.
pub open spec fn with_map(state: RobotModel, map: GridModel) -> RobotModel {
    RobotModel { map, ..state }
}

/// Two snapshots show the same agents but for their maps.
pub open spec fn same_but_maps(a: Seq<RobotModel>, b: Seq<RobotModel>) -> bool {
    &&& a.len() == b.len()
    &&& forall|j: int| 0 <= j < a.len() ==> #[trigger] a[j] == with_map(b[j], a[j].map)
}

/// In snapshots that show the same agents but for their maps, the agent with
/// a given identifier is the same but for its map.
pub proof fn lemma_partner_but_map(a: ContextModel, b: ContextModel, id: u8)
    requires
        same_but_maps(a.all, b.all),
        a.has_robot(id),
    ensures
        b.has_robot(id),
        a.robot_with(id) == with_map(b.robot_with(id), a.robot_with(id).map),
{
    let k = choose|k: int| a.is_first_with_id(id, k);
    let w = choose|w: int| 0 <= w < a.all.len() && (#[trigger] a.all[w]).id == id;
    lemma_has_first(a, id, w);
    assert(a.is_first_with_id(id, k));
    assert(a.all[k] == with_map(b.all[k], a.all[k].map));
    assert forall|j: int| 0 <= j < k implies (#[trigger] b.all[j]).id != id by {
        assert(a.all[j] == with_map(b.all[j], a.all[j].map));
        assert(a.all[j].id != id);
    }
    assert(b.is_first_with_id(id, k));
    crate::robot_node::phase_trait::lemma_first_with_id_unique(a, id, k);
    crate::robot_node::phase_trait::lemma_first_with_id_unique(b, id, k);
}

/// Where some agent has the identifier, a first one has it.
pub proof fn lemma_has_first(context: ContextModel, id: u8, w: int)
    requires
        0 <= w < context.all.len(),
        context.all[w].id == id,
    ensures
        exists|k: int| context.is_first_with_id(id, k),
    decreases w,
{
    if forall|j: int| 0 <= j < w ==> (#[trigger] context.all[j]).id != id {
        assert(context.is_first_with_id(id, w));
    } else {
        let j = choose|j: int| 0 <= j < w && (#[trigger] context.all[j]).id == id;
        lemma_has_first(context, id, j);
    }
}

/// What a tick makes of an agent, but for its map, does not depend on the
/// private maps: it is the same for an agent and a snapshot that differ from
/// another agent and snapshot in their maps alone, as long as the two agents'
/// maps say the same of the cell north of the agent.
pub proof fn lemma_tick_but_maps(
    state: RobotModel,
    context: ContextModel,
    other: RobotModel,
    other_context: ContextModel,
)
    requires
        state == with_map(other, state.map),
        same_but_maps(context.all, other_context.all),
        context.global == other_context.global,
        context.has_robot(state.partner_id),
        state.map.cell_or_obstacle(state.pose.position.x as int, state.pose.position.y - 1)
            == other.map.cell_or_obstacle(other.pose.position.x as int, other.pose.position.y - 1),
    ensures
        after_tick(state, context) == with_map(
            after_tick(other, other_context),
            after_tick(state, context).map,
        ),
{
    lemma_partner_but_map(context, other_context, state.partner_id);
}

/// The order of the phases. An agent is idle after a tick only if it was
/// idle already or was in the interior sweep together with its partner. It is
/// in the interior sweep only if it was there already or the analysis of the
/// pair gave the exterior wall, and in island escape only if it was there
/// already or the analysis gave an island. It is in boundary analysis only
/// from analysis or scouting, scouting only from scouting, wall finding or
/// island escape, and finding its wall only from wall finding or island
/// escape.
pub proof fn lemma_phase_order(state: RobotModel, context: ContextModel)
    ensures
        ({
            let after = after_tick(state, context);
            let partner = context.robot_with(state.partner_id);
            let analysed = state.phase == RobotPhase::BoundaryAnalysis && partner.phase
                == RobotPhase::BoundaryAnalysis;
            &&& (after.phase == RobotPhase::Idle ==> state.phase == RobotPhase::Idle || (state.phase
                == RobotPhase::InteriorSweep && partner.phase == RobotPhase::InteriorSweep))
            &&& (after.phase == RobotPhase::InteriorSweep ==> state.phase
                == RobotPhase::InteriorSweep || (analysed && pair_verdict(state, partner)
                == BoundaryAnalysisResult::ExteriorWall))
            &&& (after.phase == RobotPhase::IslandEscape ==> state.phase == RobotPhase::IslandEscape
                || (analysed && pair_verdict(state, partner) == BoundaryAnalysisResult::Island))
            &&& (after.phase == RobotPhase::BoundaryAnalysis ==> state.phase
                == RobotPhase::BoundaryAnalysis || state.phase == RobotPhase::BoundaryScouting)
            &&& (after.phase == RobotPhase::BoundaryScouting ==> state.phase
                == RobotPhase::BoundaryScouting || state.phase == RobotPhase::InitialWallFind
                || state.phase == RobotPhase::IslandEscape)
            &&& (after.phase == RobotPhase::InitialWallFind ==> state.phase
                == RobotPhase::InitialWallFind || state.phase == RobotPhase::IslandEscape)
        }),
{
}

/// A tick keeps the discipline of the phases.
pub proof fn lemma_tick_keeps_discipline(state: RobotModel, context: ContextModel)
    requires
        state.wf(),
        context.admits(state),
        tick_fits(state, context),
        disciplined(state),
    ensures
        disciplined(after_tick(state, context)),
{
    match state.phase {
        RobotPhase::BoundaryScouting => {
            lemma_scouting_keeps_to_leg(state, context);
            lemma_scouting_keeps_wf(state, context);
            let stepped = scouting_step(state, context);
            let after = after_tick(state, context);
            assert(after.boundary_scout == stepped.0.boundary_scout);
            assert(after.pose == stepped.0.pose);
            assert(keeps_to_leg(stepped.0));
            assert(keeps_to_leg(after));
        },
        RobotPhase::IslandEscape => {
            lemma_escape_keeps_wf(state, context);
        },
        _ => {},
    }
}

/// A tick of an agent whose map sees the cell north of it as the ground
/// truth has it keeps the agent and its path on passable cells.
pub proof fn lemma_tick_on_open_ground(state: RobotModel, context: ContextModel)
    requires
        state.wf(),
        context.admits(state),
        state.on_open_ground(context.global),
        state.sees_front(context.global),
    ensures
        after_tick(state, context).on_open_ground(context.global),
{
    match state.phase {
        RobotPhase::InitialWallFind => {
            lemma_wall_find_on_open_ground(state, context.global);
        },
        RobotPhase::BoundaryScouting => {
            lemma_scouting_on_open_ground(state, context);
        },
        RobotPhase::IslandEscape => {
            lemma_escape_on_open_ground(state, context);
        },
        _ => {},
    }
    let stepped = phase_step(state, context).0;
    let after = after_tick(state, context);
    assert(after.pose == stepped.pose);
    assert(after.boundary_scout == stepped.boundary_scout);
}

/// An agent whose counters have room can tick in any context.
pub proof fn lemma_headroom_fits(state: RobotModel, context: ContextModel)
    requires
        state.has_headroom(),
    ensures
        tick_fits(state, context),
{
    if state.phase == RobotPhase::BoundaryScouting {
        let ready = crate::robot_node::phases::boundary_scouting::with_scout(state);
        let scout = ready.boundary_scout->0;
        match crate::robot_node::phases::boundary_scouting::planned_move(ready, scout, context) {
            Some(next) => {
                let here = ready.pose.position;
                crate::robot_node::wall_following::lemma_rotation_between(
                    ready.pose.orientation,
                    orientation_of_step(next.x - here.x, next.y - here.y),
                );
            },
            None => {},
        }
    }
}

/// The character that stands for a cell in a rendered map.
pub open spec fn glyph(cell: CellState) -> char {
    match cell {
        CellState::Obstacle => '#',
        CellState::Empty => '.',
        CellState::Unexplored => ' ',
    }
}

/// The character that stands for cell `(x, y)` of an agent's map: `R` where
/// the agent stands, the cell's glyph elsewhere.
pub open spec fn rendered_cell(state: RobotModel, x: int, y: int) -> char {
    if state.pose.position == point_at(x, y) {
        'R'
    } else {
        glyph(state.map.cell(x, y))
    }
}

/// `rows` is the rendering of the agent's map: one row per map row, one
/// character per cell.
pub open spec fn is_rendering_of(rows: Seq<Vec<char>>, state: RobotModel) -> bool {
    &&& rows.len() == state.map.height
    &&& forall|y: int| 0 <= y < rows.len() ==> (#[trigger] rows[y])@.len() == state.map.width
    &&& forall|x: int, y: int|
        state.map.in_bounds(x, y) ==> (#[trigger] rows[y]@[x]) == rendered_cell(state, x, y)
}

impl RobotNode {
    /// An agent with the given state.
    pub fn new(state: RobotState) -> (node: RobotNode)
        ensures
            node.state == state,
    {
        RobotNode { state }
    }

    /// Follows a transition: enters the phase it names, if it names one.
    fn apply_transition(&mut self, transition: PhaseTransition)
        ensures
            final(self)@ == after_transition(old(self)@, transition),
    {
        match transition {
            PhaseTransition::Transition(new_phase) => {
                self.state.phase = new_phase;
            },
            PhaseTransition::Complete => {},
            PhaseTransition::Continue => {},
        }
    }

    /// One step of wall finding, followed by the transition it asks for.
    pub fn execute_initial_wall_find(&mut self, all_robots: &[RobotNode], global_map: &GridMap)
        requires
            old(self)@.wf(),
            context_model(all_robots@, global_map@).admits(old(self)@),
        ensures
            final(self)@ == after_transition(
                wall_find_step(old(self)@).0,
                wall_find_step(old(self)@).1,
            ),
            final(self)@.wf(),
            final(self)@.map.same_shape(old(self)@.map),
    {
        let context = PhaseContext { all_robots, global_map };
        let mut phase = WallFindPhase;
        let transition = phase.execute(&mut self.state, &context);
        self.apply_transition(transition);
    }

    /// One step of a scouting leg, followed by the transition it asks for.
    pub fn execute_boundary_scouting_leg(&mut self, all_robots: &[RobotNode], global_map: &GridMap)
        requires
            old(self)@.wf(),
            context_model(all_robots@, global_map@).admits(old(self)@),
            scouting_fits(old(self)@, context_model(all_robots@, global_map@)),
        ensures
            final(self)@ == after_transition(
                scouting_step(old(self)@, context_model(all_robots@, global_map@)).0,
                scouting_step(old(self)@, context_model(all_robots@, global_map@)).1,
            ),
            final(self)@.wf(),
            final(self)@.map.same_shape(old(self)@.map),
    {
        let context = PhaseContext { all_robots, global_map };
        let mut phase = BoundaryScoutingPhase;
        let transition = phase.execute(&mut self.state, &context);
        self.apply_transition(transition);
    }

    /// One step of boundary analysis, followed by the transition it asks for.
    pub fn execute_boundary_analysis(&mut self, all_robots: &[RobotNode], global_map: &GridMap)
        requires
            old(self)@.wf(),
            context_model(all_robots@, global_map@).admits(old(self)@),
        ensures
            final(self)@ == after_transition(
                analysis_step(old(self)@, context_model(all_robots@, global_map@)).0,
                analysis_step(old(self)@, context_model(all_robots@, global_map@)).1,
            ),
            final(self)@.wf(),
            final(self)@.map.same_shape(old(self)@.map),
    {
        let context = PhaseContext { all_robots, global_map };
        let mut phase = BoundaryAnalysisPhase;
        let transition = phase.execute(&mut self.state, &context);
        self.apply_transition(transition);
    }

    /// One step of island escape, followed by the transition it asks for.
    pub fn execute_island_escape(&mut self, all_robots: &[RobotNode], global_map: &GridMap)
        requires
            old(self)@.wf(),
            context_model(all_robots@, global_map@).admits(old(self)@),
        ensures
            final(self)@ == after_transition(
                escape_step(old(self)@, context_model(all_robots@, global_map@)).0,
                escape_step(old(self)@, context_model(all_robots@, global_map@)).1,
            ),
            final(self)@.wf(),
            final(self)@.map.same_shape(old(self)@.map),
    {
        let context = PhaseContext { all_robots, global_map };
        let mut phase = IslandEscapePhase;
        let transition = phase.execute(&mut self.state, &context);
        self.apply_transition(transition);
    }

    /// One step of the interior sweep, followed by the transition it asks for.
    pub fn execute_interior_sweep(&mut self, all_robots: &[RobotNode], global_map: &GridMap)
        requires
            old(self)@.wf(),
            context_model(all_robots@, global_map@).admits(old(self)@),
        ensures
            final(self)@ == after_transition(
                sweep_step(old(self)@, context_model(all_robots@, global_map@)).0,
                sweep_step(old(self)@, context_model(all_robots@, global_map@)).1,
            ),
            final(self)@.wf(),
            final(self)@.map.same_shape(old(self)@.map),
    {
        let context = PhaseContext { all_robots, global_map };
        let mut phase = InteriorSweepPhase;
        let transition = phase.execute(&mut self.state, &context);
        self.apply_transition(transition);
    }

    /// One tick of the agent: one step of the phase it is in, followed by the
    /// transition that the step asks for. An idle agent does nothing. Sensing
    /// and map exchange are not part of a tick.
    pub fn tick(&mut self, all_robots: &[RobotNode], global_map: &GridMap)
        requires
            old(self)@.wf(),
            context_model(all_robots@, global_map@).admits(old(self)@),
            tick_fits(old(self)@, context_model(all_robots@, global_map@)),
        ensures
            final(self)@ == after_tick(old(self)@, context_model(all_robots@, global_map@)),
            final(self)@.wf(),
            final(self)@.map.same_shape(old(self)@.map),
            final(self)@.map.keeps_knowledge_of(old(self)@.map),
    {
        proof {
            lemma_tick_keeps_knowledge(old(self)@, context_model(all_robots@, global_map@));
        }
        match self.state.phase {
            RobotPhase::InitialWallFind => self.execute_initial_wall_find(all_robots, global_map),
            RobotPhase::BoundaryScouting => self.execute_boundary_scouting_leg(
                all_robots,
                global_map,
            ),
            RobotPhase::BoundaryAnalysis => self.execute_boundary_analysis(all_robots, global_map),
            RobotPhase::IslandEscape => self.execute_island_escape(all_robots, global_map),
            RobotPhase::InteriorSweep => self.execute_interior_sweep(all_robots, global_map),
            RobotPhase::Idle => {},
        }
    }

    /// The cell north of the agent and what the agent's own map says of it,
    /// with everything beyond the border read as an obstacle.
    pub fn sense_front(&self) -> (front: (Point, Option<CellState>))
        requires
            self@.wf(),
        ensures
            front.0 == point_at(self@.pose.position.x as int, self@.pose.position.y - 1),
            front.1 == Some(
                self@.map.cell_or_obstacle(
                    self@.pose.position.x as int,
                    self@.pose.position.y - 1,
                ),
            ),
    {
        WallFindPhase::sense_front(&self.state)
    }

    /// The four neighbours of the agent, in the order north, south, east,
    /// west, each with what the agent's own map says of it; everything
    /// beyond the border is read as an obstacle.
    pub fn sense_neighbors(&self) -> (around: [(Point, Option<CellState>); 4])
        requires
            self@.wf(),
        ensures
            around@[0] == self@.neighbour(0, -1),
            around@[1] == self@.neighbour(0, 1),
            around@[2] == self@.neighbour(1, 0),
            around@[3] == self@.neighbour(-1, 0),
    {
        let x = self.state.pose.position.x;
        let y = self.state.pose.position.y;
        [
            (Point { x, y: y - 1 }, Some(self.state.map.at_or_obstacle(x, y - 1))),
            (Point { x, y: y + 1 }, Some(self.state.map.at_or_obstacle(x, y + 1))),
            (Point { x: x + 1, y }, Some(self.state.map.at_or_obstacle(x + 1, y))),
            (Point { x: x - 1, y }, Some(self.state.map.at_or_obstacle(x - 1, y))),
        ]
    }

    /// The unit step of the agent's heading.
    pub fn get_direction_vector(&self) -> (d: (i32, i32))
        ensures
            (d.0 as int, d.1 as int) == self@.pose.orientation.vector(),
    {
        WallFollower::get_direction_vector(self.state.pose.orientation)
    }

    /// Turns the agent to face the way of a step from `prev_pos` to
    /// `next_pos`; north when the two are not neighbours.
    pub fn update_orientation(&mut self, prev_pos: Point, next_pos: Point)
        ensures
            final(self)@ == (RobotModel {
                pose: Pose {
                    orientation: orientation_of_step(
                        next_pos.x - prev_pos.x,
                        next_pos.y - prev_pos.y,
                    ),
                    ..old(self)@.pose
                },
                ..old(self)@
            }),
    {
        self.state.pose.orientation = WallFollower::update_orientation(prev_pos, next_pos);
    }

    /// The wall-following step of the agent on the given map.
    pub fn wall_follow_step(&self, global_map: &GridMap, tracing_direction: i8) -> (next: Option<
        Point,
    >)
        requires
            global_map@.wf(),
        ensures
            next == follow_step(
                global_map@,
                self@.pose.position,
                self@.pose.orientation,
                tracing_direction,
            ),
    {
        WallFollower::wall_follow_step(
            self.state.pose.position,
            self.state.pose.orientation,
            global_map,
            tracing_direction,
        )
    }

    /// Whether the path has at least three points and returns to its start.
    pub fn is_boundary_closed_loop(path: &[Point]) -> (closed: bool)
        ensures
            closed == is_closed_loop(path@),
    {
        BoundaryAnalyzer::is_boundary_closed_loop(path)
    }

    /// Whether the path stays clear of the border of the map.
    pub fn is_island_not_exterior(path: &[Point], map_width: usize, map_height: usize) -> (island:
        bool)
        ensures
            island == avoids_border(path@, map_width as int, map_height as int),
    {
        BoundaryAnalyzer::is_island_not_exterior(path, map_width, map_height)
    }

    /// The verdict on the agent's traced path alone: undecided without a
    /// scout, an island when the path stays clear of the border, the exterior
    /// wall when it touches it.
    pub fn analyze_boundary(&self, map_width: usize, map_height: usize) -> (verdict:
        BoundaryAnalysisResult)
        ensures
            verdict == match self@.boundary_scout {
                Some(scout) => classify_path(scout.path, map_width as int, map_height as int),
                None => BoundaryAnalysisResult::Incomplete,
            },
    {
        match &self.state.boundary_scout {
            Some(scout_state) => BoundaryAnalyzer::analyze_boundary_by_path(
                scout_state.path.as_slice(),
                map_width,
                map_height,
            ),
            None => BoundaryAnalysisResult::Incomplete,
        }
    }

    /// Copies cell `(x, y)` of the ground truth into the agent's map, where it is on the map.
    fn sense_cell(&mut self, global_map: &GridMap, x: i64, y: i64)
        requires
            old(self)@.map.wf(),
            global_map@.wf(),
            global_map@.same_shape(old(self)@.map),
        ensures
            final(self)@ == (RobotModel {
                map: with_sensed_cell(old(self)@.map, global_map@, x as int, y as int),
                ..old(self)@
            }),
            final(self)@.map.wf(),
            final(self)@.map.same_shape(old(self)@.map),
    {
        if x < 0 || y < 0 || x > i32::MAX as i64 || y > i32::MAX as i64 {
            return ;
        }
        let cx = x as i32;
        let cy = y as i32;
        if self.state.map.in_bounds(cx, cy) {
            let cell = global_map.at(cx, cy);
            self.state.map.set(cx, cy, cell);
        }
    }

    /// Senses: copies the agent's own cell and its four neighbours that are
    /// on the map from the ground truth into the agent's map.
    pub fn update_local_map(&mut self, global_map: &GridMap)
        requires
            old(self)@.map.wf(),
            global_map@.wf(),
            global_map@.same_shape(old(self)@.map),
        ensures
            final(self)@ == (RobotModel {
                map: sensed(old(self)@.map, global_map@, old(self)@.pose.position),
                ..old(self)@
            }),
            final(self)@.map.wf(),
            final(self)@.map.same_shape(old(self)@.map),
    {
        let x = self.state.pose.position.x as i64;
        let y = self.state.pose.position.y as i64;
        self.sense_cell(global_map, x, y);
        self.sense_cell(global_map, x, y - 1);
        self.sense_cell(global_map, x, y + 1);
        self.sense_cell(global_map, x + 1, y);
        self.sense_cell(global_map, x - 1, y);
    }

    /// Whether agents at `a` and `b` are within communication range of each other.
    pub fn within_comm_range(a: &Point, b: &Point) -> (near: bool)
        ensures
            near == in_comm_range(*a, *b),
    {
        let dx: i64 = a.x as i64 - b.x as i64;
        let dy: i64 = a.y as i64 - b.y as i64;
        let adx: i64 = if dx >= 0 { dx } else { -dx };
        let ady: i64 = if dy >= 0 { dy } else { -dy };
        adx + ady <= COMMUNICATION_RANGE as i64
    }

    /// The agent's map as rows of characters: `#` for an obstacle, `.` for an
    /// empty cell, a blank for an unexplored one, and `R` where the agent stands.
    pub fn render_map(&self) -> (rows: Vec<Vec<char>>)
        requires
            self@.map.wf(),
        ensures
            is_rendering_of(rows@, self@),
    {
        let mut rows: Vec<Vec<char>> = Vec::new();
        let mut y: usize = 0;
        while y < self.state.map.height
            invariant
                self@.map.wf(),
                y <= self.state.map.height,
                rows@.len() == y,
                forall|b: int| 0 <= b < y ==> (#[trigger] rows@[b])@.len() == self@.map.width,
                forall|a: int, b: int|
                    0 <= a < self@.map.width && 0 <= b < y ==> (#[trigger] rows@[b]@[a])
                        == rendered_cell(self@, a, b),
            decreases self.state.map.height - y,
        {
            let mut row: Vec<char> = Vec::new();
            let mut x: usize = 0;
            while x < self.state.map.width
                invariant
                    self@.map.wf(),
                    y < self.state.map.height,
                    x <= self.state.map.width,
                    row@.len() == x,
                    forall|a: int|
                        0 <= a < x ==> (#[trigger] row@[a]) == rendered_cell(self@, a, y as int),
                decreases self.state.map.width - x,
            {
                let ch = match self.state.map.at(x as i32, y as i32) {
                    CellState::Obstacle => '#',
                    CellState::Empty => '.',
                    CellState::Unexplored => ' ',
                };
                if self.state.pose.position.x == x as i32 && self.state.pose.position.y == y as i32 {
                    row.push('R');
                } else {
                    row.push(ch);
                }
                x += 1;
            }
            rows.push(row);
            y += 1;
        }
        rows
    }

    /// Merges the partner's map into the agent's own: every cell that the
    /// partner knows is taken over.
    pub fn merge_map(&mut self, partner_map: &GridMap)
        requires
            forall|i: int|
                0 <= i < partner_map.cells@.len() && partner_map.cells@[i] != CellState::Unexplored
                    ==> i < old(self).state.map.cells@.len(),
        ensures
            final(self)@ == (RobotModel {
                map: old(self)@.map.merged(partner_map@),
                ..old(self)@
            }),
    {
        self.state.map.merge_from(partner_map);
    }
}

} // verus!
