//! The simulation driver: the ground truth, the agents, and the tick loop of
//! sense, exchange, record and act.

use vstd::prelude::*;
use rand::rngs::StdRng;
use rand::seq::SliceRandom;
use rand::SeedableRng;
use crate::constants::{INITIAL_SCOUT_DEPTH, MAX_SIMULATION_TICKS, ROBOT_LEFT_HAND, ROBOT_RIGHT_HAND};
use crate::robot_node::phase_trait::{robot_models, ContextModel};
use crate::robot_node::{
    disciplined,
    is_rendering_of,
    paced,
    lemma_sensed_cells,
    sensed,
    tick_fits,
    after_tick,
    RobotNode,
};
use crate::types::{
    in_comm_range,
    point_at,
    row_major_before,
    CellState,
    GridMap,
    GridModel,
    Orientation,
    Point,
    Pose,
    RobotModel,
    RobotPhase,
    RobotState,
};

verus! {

/// The simulation: the ground-truth map, the agents, the number of ticks
/// done, and a snapshot of the agents for every tick.
#[derive(Debug)]
pub struct SimulationManager {
    pub map: GridMap,
    pub robots: Vec<RobotNode>,
    pub tick_count: usize,
    pub history: Vec<Vec<RobotNode>>,
}

/// Mathematical model of a [`SimulationManager`].
pub struct SimulationModel {
    pub map: GridModel,
    pub robots: Seq<RobotModel>,
    pub tick_count: int,
    pub history: Seq<Seq<RobotModel>>,
}

/// The models of a sequence of snapshots.
pub open spec fn history_models(history: Seq<Vec<RobotNode>>) -> Seq<Seq<RobotModel>> {
    Seq::new(history.len(), |i: int| robot_models(history[i]@))
}

impl View for SimulationManager {
    type V = SimulationModel;

    open spec fn view(&self) -> SimulationModel {
        SimulationModel {
            map: self.map@,
            robots: robot_models(self.robots@),
            tick_count: self.tick_count as int,
            history: history_models(self.history@),
        }
    }
}

/// No two neighbouring empty cells of the map can serve as start positions.
#[derive(Copy, Clone, PartialEq, Eq, Debug)]
pub struct PlacementError;

impl PlacementError {
    /// What went wrong, in words.
    pub fn message(&self) -> (text: &'static str)
        ensures
            text@ == "No valid adjacent left-right empty start positions found"@,
    {
        "No valid adjacent left-right empty start positions found"
    }
}

/// The generator type of `rand` that the start positions are drawn with.
#[verifier::external_type_specification]
#[verifier::external_body]
pub struct ExStdRng(StdRng);

/// Calls `rand::SeedableRng::seed_from_u64` for `rand::rngs::StdRng`: a
/// generator seeded with `seed`. Nothing is claimed of the generator.
#[verifier::external_body]
fn seeded_generator(seed: u64) -> StdRng {
    StdRng::seed_from_u64(seed)
}

/// Calls `rand::seq::SliceRandom::choose` on the candidates: `None` exactly
/// when there is no candidate, and otherwise one of the candidates. Which one
/// is left open.
#[verifier::external_body]
fn choose_candidate(candidates: &Vec<Point>, rng: &mut StdRng) -> (chosen: Option<Point>)
    ensures
        chosen is Some <==> candidates@.len() > 0,
        chosen matches Some(p) ==> candidates@.contains(p),
{
    candidates.choose(rng).copied()
}

/// `(x, y)` can be the left one of two start positions: it and its right
/// neighbour are empty in the ground truth, it lies neither in the first nor
/// the last row nor in the first column, and its right neighbour does not lie
/// in the last column.
pub open spec fn is_start_cell(map: GridModel, x: int, y: int) -> bool {
    &&& 1 <= y < map.height - 1
    &&& 1 <= x < map.width - 2
    &&& map.cell(x, y) == CellState::Empty
    &&& map.cell(x + 1, y) == CellState::Empty
}

/// An agent as the simulation starts it: at `position`, facing north, finding
/// its wall, with the initial leg length and no scout, and with a map that
/// holds what it senses where it stands and nothing else.
pub open spec fn starting_robot(id: u8, partner_id: u8, position: Point, truth: GridModel) -> RobotModel {
    RobotModel {
        id,
        pose: Pose { position, orientation: Orientation::North },
        phase: RobotPhase::InitialWallFind,
        map: sensed(GridModel::blank(truth.width, truth.height), truth, position),
        scout_depth_n: INITIAL_SCOUT_DEPTH,
        partner_id,
        boundary_scout: None,
    }
}

/// The simulation as it starts with its two agents at `first` and `second`.
pub open spec fn started(truth: GridModel, first: Point, second: Point) -> SimulationModel {
    SimulationModel {
        map: truth,
        robots: seq![
            starting_robot(ROBOT_LEFT_HAND, ROBOT_RIGHT_HAND, first, truth),
            starting_robot(ROBOT_RIGHT_HAND, ROBOT_LEFT_HAND, second, truth),
        ],
        tick_count: 0,
        history: Seq::empty(),
    }
}

/// The map of `robot` after it has taken over the maps of the first `k`
/// agents of `others` in turn, skipping those with its own identifier and
/// those out of communication range.
pub open spec fn received(robot: RobotModel, others: Seq<RobotModel>, k: int) -> GridModel
    decreases k,
{
    if k <= 0 {
        robot.map
    } else {
        let before = received(robot, others, k - 1);
        let other = others[k - 1];
        if other.id != robot.id && in_comm_range(robot.pose.position, other.pose.position) {
            before.merged(other.map)
        } else {
            before
        }
    }
}

impl SimulationModel {
    /// The context that the agents see in this state.
    pub open spec fn context(self) -> ContextModel {
        ContextModel { all: self.robots, global: self.map }
    }

    /// The ground truth and every agent are well formed, every private map
    /// has the shape of the ground truth, and every agent's partner is present.
    pub open spec fn wf(self) -> bool {
        &&& self.map.wf()
        &&& forall|i: int|
            0 <= i < self.robots.len() ==> {
                &&& (#[trigger] self.robots[i]).wf()
                &&& self.context().admits(self.robots[i])
            }
    }

    /// This state after every agent has sensed.
    pub open spec fn after_sensing(self) -> SimulationModel {
        SimulationModel {
            robots: Seq::new(
                self.robots.len(),
                |i: int|
                    RobotModel {
                        map: sensed(self.robots[i].map, self.map, self.robots[i].pose.position),
                        ..self.robots[i]
                    },
            ),
            ..self
        }
    }

    /// This state after the map exchange: every agent has taken over the map,
    /// as it was before the exchange, of every other agent within range.
    pub open spec fn after_exchange(self) -> SimulationModel {
        SimulationModel {
            robots: Seq::new(
                self.robots.len(),
                |i: int|
                    RobotModel {
                        map: received(self.robots[i], self.robots, self.robots.len() as int),
                        ..self.robots[i]
                    },
            ),
            ..self
        }
    }

    /// This state with a snapshot of the agents appended to the history.
    pub open spec fn after_recording(self) -> SimulationModel {
        SimulationModel { history: self.history.push(self.robots), ..self }
    }

    /// This state after every agent has ticked, each seeing the others as
    /// they were before any of them ticked.
    pub open spec fn after_acting(self) -> SimulationModel {
        SimulationModel {
            robots: Seq::new(
                self.robots.len(),
                |i: int| after_tick(self.robots[i], self.context()),
            ),
            ..self
        }
    }

    /// This state after one full tick: sense, exchange, record, act, and the
    /// tick counter advanced by one.
    pub open spec fn after_step(self) -> SimulationModel {
        let acted = self.after_sensing().after_exchange().after_recording().after_acting();
        SimulationModel { tick_count: acted.tick_count + 1, ..acted }
    }

    /// Every agent is idle.
    pub open spec fn all_idle(self) -> bool {
        forall|i: int|
            0 <= i < self.robots.len() ==> (#[trigger] self.robots[i]).phase == RobotPhase::Idle
    }

    /// The run is over: every agent is idle, or the tick cap is reached.
    pub open spec fn finished(self) -> bool {
        self.all_idle() || self.tick_count >= MAX_SIMULATION_TICKS
    }

    /// Every counter of every agent can take one more tick.
    pub open spec fn has_headroom(self) -> bool {
        forall|i: int| 0 <= i < self.robots.len() ==> (#[trigger] self.robots[i]).has_headroom()
    }

    /// This state after running: full ticks are taken until the run is over
    /// or some counter has no room left.
    pub open spec fn after_run(self) -> SimulationModel
        decreases MAX_SIMULATION_TICKS - self.tick_count,
    {
        if self.finished() || !self.has_headroom() {
            self
        } else {
            self.after_step().after_run()
        }
    }

    /// Every private map agrees with the ground truth on every cell it knows.
    pub open spec fn consistent(self) -> bool {
        forall|i: int|
            0 <= i < self.robots.len() ==> (#[trigger] self.robots[i]).map.agrees_with(self.map)
    }

    /// Every private map of this state keeps what the map of the same agent
    /// knew in `earlier`.
    pub open spec fn keeps_knowledge_of(self, earlier: SimulationModel) -> bool {
        &&& self.robots.len() == earlier.robots.len()
        &&& forall|i: int|
            0 <= i < self.robots.len() ==> (#[trigger] self.robots[i]).map.keeps_knowledge_of(
                earlier.robots[i].map,
            )
    }

    /// The invariant of a run on a ground truth without unexplored cells: the
    /// state is well formed, every private map agrees with the ground truth,
    /// every agent and every recorded path is on passable cells, and every
    /// agent keeps the discipline of its phase.
    pub open spec fn coherent(self) -> bool {
        &&& self.wf()
        &&& self.map.fully_known()
        &&& self.consistent()
        &&& forall|i: int|
            0 <= i < self.robots.len() ==> {
                &&& disciplined(#[trigger] self.robots[i])
                &&& self.robots[i].on_open_ground(self.map)
            }
    }

    /// The invariant that keeps a run going: the state is well formed, the
    /// tick cap is not passed, and every agent keeps the discipline of its
    /// phase and keeps pace with the tick counter.
    pub open spec fn steady(self) -> bool {
        &&& self.wf()
        &&& 0 <= self.tick_count <= MAX_SIMULATION_TICKS
        &&& forall|i: int|
            0 <= i < self.robots.len() ==> {
                &&& disciplined(#[trigger] self.robots[i])
                &&& paced(self.robots[i], self.tick_count)
            }
    }

    /// Every agent's counters leave room for its tick.
    pub open spec fn acting_fits(self) -> bool {
        forall|i: int|
            0 <= i < self.robots.len() ==> tick_fits(#[trigger] self.robots[i], self.context())
    }
}

impl SimulationManager {
    /// A simulation of the given agents on the given ground truth, with no
    /// tick done and nothing recorded.
    pub fn new(map: GridMap, robot_states: Vec<RobotState>) -> (sim: SimulationManager)
        ensures
            sim.map == map,
            sim@.robots == Seq::new(robot_states@.len(), |i: int| robot_states@[i]@),
            sim@.tick_count == 0,
            sim@.history == Seq::<Seq<RobotModel>>::empty(),
    {
        let mut robots: Vec<RobotNode> = Vec::new();
        let mut i: usize = 0;
        while i < robot_states.len()
            invariant
                i <= robot_states@.len(),
                robots@.len() == i,
                forall|k: int| 0 <= k < i ==> (#[trigger] robots@[k])@ == robot_states@[k]@,
            decreases robot_states@.len() - i,
        {
            robots.push(RobotNode::new(robot_states[i].clone()));
            i += 1;
        }
        let sim = SimulationManager { map, robots, tick_count: 0, history: Vec::new() };
        assert(sim@.robots =~= Seq::new(robot_states@.len(), |i: int| robot_states@[i]@));
        assert(sim@.history =~= Seq::<Seq<RobotModel>>::empty());
        sim
    }

    /// Whether some agent has identifier `id`.
    fn has_robot(&self, id: u8) -> (found: bool)
        ensures
            found == self@.context().has_robot(id),
    {
        let mut i: usize = 0;
        while i < self.robots.len()
            invariant
                i <= self.robots@.len(),
                forall|k: int| 0 <= k < i ==> (#[trigger] self@.robots[k]).id != id,
            decreases self.robots@.len() - i,
        {
            assert(self@.robots[i as int] == self.robots@[i as int]@);
            if self.robots[i].state.id == id {
                return true;
            }
            i += 1;
        }
        false
    }

    /// Whether the simulation is well formed: the ground truth and every
    /// agent are, every private map has the shape of the ground truth, and
    /// every agent's partner is present.
    pub fn is_well_formed(&self) -> (ok: bool)
        ensures
            ok == self@.wf(),
    {
        if !self.map.is_well_formed() {
            return false;
        }
        let mut i: usize = 0;
        while i < self.robots.len()
            invariant
                i <= self.robots@.len(),
                self@.map.wf(),
                forall|k: int|
                    0 <= k < i ==> {
                        &&& (#[trigger] self@.robots[k]).wf()
                        &&& self@.context().admits(self@.robots[k])
                    },
            decreases self.robots@.len() - i,
        {
            assert(self@.robots[i as int] == self.robots@[i as int]@);
            let state = &self.robots[i].state;
            if !state.is_well_formed() || state.map.width != self.map.width || state.map.height
                != self.map.height || !self.has_robot(state.partner_id) {
                assert(!(self@.robots[i as int].wf() && self@.context().admits(
                    self@.robots[i as int],
                )));
                return false;
            }
            i += 1;
        }
        true
    }

    /// A copy of the agents as they are now.
    fn snapshot(&self) -> (copy: Vec<RobotNode>)
        ensures
            robot_models(copy@) == robot_models(self.robots@),
    {
        let mut copy: Vec<RobotNode> = Vec::new();
        let mut i: usize = 0;
        while i < self.robots.len()
            invariant
                i <= self.robots@.len(),
                copy@.len() == i,
                forall|k: int| 0 <= k < i ==> (#[trigger] copy@[k])@ == self.robots@[k]@,
            decreases self.robots@.len() - i,
        {
            copy.push(self.robots[i].clone());
            i += 1;
        }
        assert(robot_models(copy@) =~= robot_models(self.robots@));
        copy
    }

    /// Sense: every agent copies its own cell and its neighbours from the
    /// ground truth.
    pub fn sense_all(&mut self)
        requires
            old(self)@.wf(),
        ensures
            final(self)@ == old(self)@.after_sensing(),
            final(self)@.wf(),
    {
        let mut i: usize = 0;
        while i < self.robots.len()
            invariant
                i <= self.robots@.len(),
                old(self)@.wf(),
                self.map == old(self).map,
                self.tick_count == old(self).tick_count,
                self.history == old(self).history,
                self.robots@.len() == old(self).robots@.len(),
                forall|k: int|
                    0 <= k < i ==> (#[trigger] self.robots@[k])@ == old(self)@.after_sensing().robots[k],
                forall|k: int|
                    i <= k < self.robots@.len() ==> (#[trigger] self.robots@[k])@ == old(
                        self,
                    ).robots@[k]@,
            decreases self.robots@.len() - i,
        {
            assert(old(self)@.robots[i as int].wf());
            assert(old(self)@.context().admits(old(self)@.robots[i as int]));
            self.robots[i].update_local_map(&self.map);
            i += 1;
        }
        assert(self@.robots =~= old(self)@.after_sensing().robots);
        proof {
            lemma_sensing_keeps_wf(old(self)@);
        }
    }

    /// Exchange: every agent takes over the map of every other agent within
    /// communication range, as that map was before the exchange.
    #[verifier::rlimit(30)]
    pub fn exchange_maps(&mut self)
        requires
            old(self)@.wf(),
        ensures
            final(self)@ == old(self)@.after_exchange(),
            final(self)@.wf(),
    {
        let snapshot = self.snapshot();
        let mut i: usize = 0;
        while i < self.robots.len()
            invariant
                i <= self.robots@.len(),
                old(self)@.wf(),
                robot_models(snapshot@) == old(self)@.robots,
                self.map == old(self).map,
                self.tick_count == old(self).tick_count,
                self.history == old(self).history,
                self.robots@.len() == old(self).robots@.len(),
                forall|k: int|
                    0 <= k < i ==> (#[trigger] self.robots@[k])@ == old(
                        self,
                    )@.after_exchange().robots[k],
                forall|k: int|
                    i <= k < self.robots@.len() ==> (#[trigger] self.robots@[k])@ == old(
                        self,
                    ).robots@[k]@,
            decreases self.robots@.len() - i,
        {
            let ghost before = old(self)@.robots[i as int];
            let mut j: usize = 0;
            while j < snapshot.len()
                invariant
                    i < self.robots@.len(),
                    j <= snapshot@.len(),
                    old(self)@.wf(),
                    before == old(self)@.robots[i as int],
                    robot_models(snapshot@) == old(self)@.robots,
                    self.map == old(self).map,
                    self.tick_count == old(self).tick_count,
                    self.history == old(self).history,
                    self.robots@.len() == old(self).robots@.len(),
                    self.robots@[i as int]@ == (RobotModel {
                        map: received(before, old(self)@.robots, j as int),
                        ..before
                    }),
                    received(before, old(self)@.robots, j as int).cells.len()
                        == before.map.cells.len(),
                    forall|k: int|
                        0 <= k < i ==> (#[trigger] self.robots@[k])@ == old(
                            self,
                        )@.after_exchange().robots[k],
                    forall|k: int|
                        i < k < self.robots@.len() ==> (#[trigger] self.robots@[k])@ == old(
                            self,
                        ).robots@[k]@,
                decreases snapshot@.len() - j,
            {
                let other = &snapshot[j];
                proof {
                    assert(robot_models(snapshot@)[j as int] == snapshot@[j as int]@);
                    assert(old(self)@.robots[j as int].wf());
                    assert(old(self)@.context().admits(old(self)@.robots[j as int]));
                    assert(before.wf());
                    assert(old(self)@.context().admits(before));
                }
                let own_id = self.robots[i].state.id;
                let own_pos = self.robots[i].state.pose.position;
                if other.state.id != own_id && RobotNode::within_comm_range(
                    &own_pos,
                    &other.state.pose.position,
                ) {
                    self.robots[i].merge_map(&other.state.map);
                }
                j += 1;
            }
            i += 1;
        }
        assert(self@.robots =~= old(self)@.after_exchange().robots);
        proof {
            lemma_exchange_keeps_wf(old(self)@);
        }
    }

    /// Record: appends a snapshot of the agents to the history.
    pub fn record(&mut self)
        ensures
            final(self)@ == old(self)@.after_recording(),
    {
        let snapshot = self.snapshot();
        self.history.push(snapshot);
        assert(self@.history =~= old(self)@.history.push(old(self)@.robots));
    }

    /// Act: every agent ticks once, each seeing the others as they were
    /// before any of them ticked.
    pub fn tick(&mut self)
        requires
            old(self)@.wf(),
            old(self)@.acting_fits(),
        ensures
            final(self)@ == old(self)@.after_acting(),
            final(self)@.wf(),
    {
        let robots_snapshot = self.snapshot();
        let mut i: usize = 0;
        while i < self.robots.len()
            invariant
                i <= self.robots@.len(),
                old(self)@.wf(),
                old(self)@.acting_fits(),
                robot_models(robots_snapshot@) == old(self)@.robots,
                self.map == old(self).map,
                self.tick_count == old(self).tick_count,
                self.history == old(self).history,
                self.robots@.len() == old(self).robots@.len(),
                forall|k: int|
                    0 <= k < i ==> (#[trigger] self.robots@[k])@ == old(
                        self,
                    )@.after_acting().robots[k],
                forall|k: int|
                    i <= k < self.robots@.len() ==> (#[trigger] self.robots@[k])@ == old(
                        self,
                    ).robots@[k]@,
            decreases self.robots@.len() - i,
        {
            proof {
                assert(old(self)@.robots[i as int].wf());
                assert(old(self)@.context().admits(old(self)@.robots[i as int]));
                assert(tick_fits(old(self)@.robots[i as int], old(self)@.context()));
            }
            self.robots[i].tick(robots_snapshot.as_slice(), &self.map);
            i += 1;
        }
        assert(self@.robots =~= old(self)@.after_acting().robots);
        proof {
            lemma_acting_keeps_wf(old(self)@);
        }
    }

    /// Whether every agent is idle.
    pub fn all_idle(&self) -> (idle: bool)
        ensures
            idle == self@.all_idle(),
    {
        let mut i: usize = 0;
        while i < self.robots.len()
            invariant
                i <= self.robots@.len(),
                forall|k: int| 0 <= k < i ==> (#[trigger] self@.robots[k]).phase == RobotPhase::Idle,
            decreases self.robots@.len() - i,
        {
            if self.robots[i].state.phase != RobotPhase::Idle {
                assert(self@.robots[i as int] == self.robots@[i as int]@);
                return false;
            }
            assert(self@.robots[i as int] == self.robots@[i as int]@);
            i += 1;
        }
        true
    }

    /// Whether the run is over: every agent is idle, or the tick cap is reached.
    pub fn is_finished(&self) -> (done: bool)
        ensures
            done == self@.finished(),
    {
        self.tick_count >= MAX_SIMULATION_TICKS || self.all_idle()
    }

    /// Whether every counter of every agent can take one more tick.
    pub fn has_headroom(&self) -> (room: bool)
        ensures
            room == self@.has_headroom(),
    {
        let mut i: usize = 0;
        while i < self.robots.len()
            invariant
                i <= self.robots@.len(),
                forall|k: int| 0 <= k < i ==> (#[trigger] self@.robots[k]).has_headroom(),
            decreases self.robots@.len() - i,
        {
            assert(self@.robots[i as int] == self.robots@[i as int]@);
            if !self.robots[i].state.has_headroom() {
                return false;
            }
            i += 1;
        }
        true
    }

    /// One full tick: sense, exchange, record, act; the tick counter advances
    /// by one. Returns whether the run is over afterwards.
    pub fn step(&mut self) -> (done: bool)
        requires
            old(self)@.wf(),
            old(self)@.tick_count < usize::MAX,
            old(self)@.after_sensing().after_exchange().acting_fits(),
        ensures
            final(self)@ == old(self)@.after_step(),
            final(self)@.wf(),
            done == final(self)@.finished(),
    {
        self.sense_all();
        self.exchange_maps();
        self.record();
        assert(self@.context() == old(self)@.after_sensing().after_exchange().context());
        self.tick();
        self.tick_count = self.tick_count + 1;
        self.is_finished()
    }

    /// Runs full ticks until the run is over. Returns whether it is: `false`
    /// means that the run stopped early because some counter of some agent had
    /// no room left for another tick.
    pub fn run(&mut self) -> (done: bool)
        requires
            old(self)@.wf(),
        ensures
            final(self)@ == old(self)@.after_run(),
            final(self)@.wf(),
            done == final(self)@.finished(),
            !done ==> !final(self)@.has_headroom(),
    {
        loop
            invariant
                self@.wf(),
                self@.after_run() == old(self)@.after_run(),
            ensures
                self@ == old(self)@.after_run(),
                self@.wf(),
                self@.finished() || !self@.has_headroom(),
            decreases MAX_SIMULATION_TICKS - self@.tick_count,
        {
            if self.is_finished() || !self.has_headroom() {
                break;
            }
            proof {
                lemma_headroom_fits(self@);
            }
            self.step();
        }
        self.is_finished()
    }

    /// The rendered map of every agent, in the order of the agents.
    pub fn render_all_maps(&self) -> (maps: Vec<Vec<Vec<char>>>)
        requires
            self@.wf(),
        ensures
            maps@.len() == self@.robots.len(),
            forall|i: int|
                0 <= i < maps@.len() ==> is_rendering_of((#[trigger] maps@[i])@, self@.robots[i]),
    {
        let mut maps: Vec<Vec<Vec<char>>> = Vec::new();
        let mut i: usize = 0;
        while i < self.robots.len()
            invariant
                i <= self.robots@.len(),
                self@.wf(),
                maps@.len() == i,
                forall|k: int|
                    0 <= k < i ==> is_rendering_of((#[trigger] maps@[k])@, self@.robots[k]),
            decreases self.robots@.len() - i,
        {
            assert(self@.robots[i as int] == self.robots@[i as int]@);
            assert(self@.robots[i as int].wf());
            maps.push(self.robots[i].render_map());
            i += 1;
        }
        maps
    }

    /// The cells that can be the left one of two start positions, row by row
    /// and left to right.
    pub fn start_candidates(map: &GridMap) -> (candidates: Vec<Point>)
        requires
            map@.wf(),
        ensures
            forall|k: int|
                0 <= k < candidates@.len() ==> is_start_cell(
                    map@,
                    (#[trigger] candidates@[k]).x as int,
                    candidates@[k].y as int,
                ),
            forall|x: int, y: int|
                is_start_cell(map@, x, y) ==> candidates@.contains(#[trigger] point_at(x, y)),
            forall|k: int, l: int|
                0 <= k < l < candidates@.len() ==> row_major_before(
                    #[trigger] candidates@[k],
                    #[trigger] candidates@[l],
                ),
    {
        let mut candidates: Vec<Point> = Vec::new();
        if map.height < 2 || map.width < 3 {
            return candidates;
        }
        let mut y: usize = 1;
        while y < map.height - 1
            invariant
                map@.wf(),
                map.height >= 2,
                map.width >= 3,
                1 <= y <= map.height - 1,
                forall|k: int|
                    0 <= k < candidates@.len() ==> is_start_cell(
                        map@,
                        (#[trigger] candidates@[k]).x as int,
                        candidates@[k].y as int,
                    ) && candidates@[k].y < y,
                forall|a: int, b: int|
                    is_start_cell(map@, a, b) && b < y ==> candidates@.contains(
                        #[trigger] point_at(a, b),
                    ),
                forall|k: int, l: int|
                    0 <= k < l < candidates@.len() ==> row_major_before(
                        #[trigger] candidates@[k],
                        #[trigger] candidates@[l],
                    ),
            decreases map.height - y,
        {
            let mut x: usize = 1;
            while x < map.width - 2
                invariant
                    map@.wf(),
                    map.height >= 2,
                    map.width >= 3,
                    1 <= y < map.height - 1,
                    1 <= x <= map.width - 2,
                    forall|k: int|
                        0 <= k < candidates@.len() ==> is_start_cell(
                            map@,
                            (#[trigger] candidates@[k]).x as int,
                            candidates@[k].y as int,
                        ) && (candidates@[k].y < y || (candidates@[k].y == y && candidates@[k].x
                            < x)),
                    forall|a: int, b: int|
                        is_start_cell(map@, a, b) && (b < y || (b == y && a < x))
                            ==> candidates@.contains(#[trigger] point_at(a, b)),
                    forall|k: int, l: int|
                        0 <= k < l < candidates@.len() ==> row_major_before(
                            #[trigger] candidates@[k],
                            #[trigger] candidates@[l],
                        ),
                decreases map.width - x,
            {
                let ghost before = candidates@;
                if map.at(x as i32, y as i32) == CellState::Empty && map.at(
                    (x + 1) as i32,
                    y as i32,
                ) == CellState::Empty {
                    let p = Point { x: x as i32, y: y as i32 };
                    candidates.push(p);
                    assert(candidates@[before.len() as int] == p);
                    assert(p == point_at(x as int, y as int));
                }
                assert forall|a: int, b: int|
                    is_start_cell(map@, a, b) && (b < y || (b == y && a < x + 1))
                        implies candidates@.contains(#[trigger] point_at(a, b)) by {
                    if b < y || (b == y && a < x) {
                        let k = choose|k: int|
                            0 <= k < before.len() && before[k] == point_at(a, b);
                        assert(candidates@[k] == point_at(a, b));
                    } else {
                        assert(candidates@[before.len() as int] == point_at(a, b));
                    }
                }
                x += 1;
            }
            y += 1;
        }
        candidates
    }

    /// An agent as the simulation starts it.
    fn starting_state(id: u8, partner_id: u8, position: Point, map: &GridMap) -> (state: RobotState)
        requires
            map@.wf(),
        ensures
            state@ == starting_robot(id, partner_id, position, map@),
            state@.map.wf(),
            state@.map.same_shape(map@),
    {
        let total = map.cells.len();
        let blank = GridMap::new(map.width, map.height);
        proof {
            assert(blank@.cells.len() == map@.width * map@.height);
        }
        let mut node = RobotNode::new(
            RobotState {
                id,
                pose: Pose { position, orientation: Orientation::North },
                phase: RobotPhase::InitialWallFind,
                map: blank,
                scout_depth_n: INITIAL_SCOUT_DEPTH,
                partner_id,
                boundary_scout: None,
            },
        );
        node.update_local_map(map);
        node.state
    }

    /// The simulation as it starts with its two agents at `first` and
    /// `second`: no tick done, nothing recorded, and each agent knowing what
    /// it senses where it stands.
    pub fn with_start_positions(map: GridMap, first: Point, second: Point) -> (sim:
        SimulationManager)
        requires
            map@.wf(),
        ensures
            sim@ == started(map@, first, second),
            map@.in_bounds(first.x as int, first.y as int) && map@.in_bounds(
                second.x as int,
                second.y as int,
            ) ==> sim@.wf(),
    {
        let left = Self::starting_state(ROBOT_LEFT_HAND, ROBOT_RIGHT_HAND, first, &map);
        let right = Self::starting_state(ROBOT_RIGHT_HAND, ROBOT_LEFT_HAND, second, &map);
        let mut robots: Vec<RobotNode> = Vec::new();
        robots.push(RobotNode::new(left));
        robots.push(RobotNode::new(right));
        let sim = SimulationManager { map, robots, tick_count: 0, history: Vec::new() };
        assert(sim@.robots =~= started(map@, first, second).robots);
        assert(sim@.history =~= Seq::<Seq<RobotModel>>::empty());
        proof {
            if map@.in_bounds(first.x as int, first.y as int) && map@.in_bounds(
                second.x as int,
                second.y as int,
            ) {
                assert(sim@.robots[0].id == ROBOT_LEFT_HAND);
                assert(sim@.robots[1].id == ROBOT_RIGHT_HAND);
                assert forall|i: int| 0 <= i < sim@.robots.len() implies {
                    &&& (#[trigger] sim@.robots[i]).wf()
                    &&& sim@.context().admits(sim@.robots[i])
                } by {
                    if i == 0 {
                        assert(sim@.robots[1].id == sim@.robots[0].partner_id);
                    } else {
                        assert(sim@.robots[0].id == sim@.robots[1].partner_id);
                    }
                }
            }
        }
        sim
    }

    /// A simulation on the given ground truth whose two agents start on a
    /// random pair of neighbouring empty cells, drawn by a generator seeded
    /// with `seed`. Fails exactly when the map has no such pair.
    pub fn from_map(map: GridMap, seed: u64) -> (outcome: Result<SimulationManager, PlacementError>)
        requires
            map@.wf(),
        ensures
            match outcome {
                Ok(sim) => exists|x: int, y: int|
                    {
                        &&& is_start_cell(map@, x, y)
                        &&& #[trigger] started(map@, point_at(x, y), point_at(x + 1, y)) == sim@
                        &&& sim@.wf()
                    },
                Err(_) => forall|x: int, y: int| !is_start_cell(map@, x, y),
            },
    {
        let candidates = Self::start_candidates(&map);
        let mut rng = seeded_generator(seed);
        match choose_candidate(&candidates, &mut rng) {
            Some(left) => {
                let right = Point { x: left.x + 1, y: left.y };
                let ghost truth = map@;
                let sim = Self::with_start_positions(map, left, right);
                proof {
                    let k = choose|k: int| 0 <= k < candidates@.len() && candidates@[k] == left;
                    assert(is_start_cell(truth, left.x as int, left.y as int));
                    assert(left == point_at(left.x as int, left.y as int));
                    assert(right == point_at(left.x + 1, left.y as int));
                    assert(started(truth, point_at(left.x as int, left.y as int), point_at(left.x + 1, left.y as int)) == sim@);
                }
                Ok(sim)
            },
            None => {
                proof {
                    assert forall|x: int, y: int| !is_start_cell(map@, x, y) by {
                        if is_start_cell(map@, x, y) {
                            assert(candidates@.contains(point_at(x, y)));
                        }
                    }
                }
                Err(PlacementError)
            },
        }
    }
}

/// Sensing keeps a well-formed simulation well formed.
pub proof fn lemma_sensing_keeps_wf(sim: SimulationModel)
    requires
        sim.wf(),
    ensures
        sim.after_sensing().wf(),
{
    let after = sim.after_sensing();
    assert forall|i: int| 0 <= i < after.robots.len() implies {
        &&& (#[trigger] after.robots[i]).wf()
        &&& after.context().admits(after.robots[i])
    } by {
        let robot = sim.robots[i];
        assert(robot.wf());
        assert(sim.context().admits(robot));
        crate::robot_node::lemma_sensed_cells(
            robot.map,
            sim.map,
            robot.pose.position,
            robot.pose.position.x as int,
            robot.pose.position.y as int,
        );
        let k = choose|k: int|
            0 <= k < sim.robots.len() && (#[trigger] sim.robots[k]).id == robot.partner_id;
        assert(after.robots[k].id == robot.partner_id);
    }
}

/// Taking over maps of the same size keeps the size of a map.
pub proof fn lemma_received_shape(robot: RobotModel, others: Seq<RobotModel>, k: int)
    ensures
        received(robot, others, k).width == robot.map.width,
        received(robot, others, k).height == robot.map.height,
        received(robot, others, k).cells.len() == robot.map.cells.len(),
    decreases k,
{
    if k > 0 {
        lemma_received_shape(robot, others, k - 1);
    }
}

/// The exchange keeps a well-formed simulation well formed.
pub proof fn lemma_exchange_keeps_wf(sim: SimulationModel)
    requires
        sim.wf(),
    ensures
        sim.after_exchange().wf(),
{
    let after = sim.after_exchange();
    assert forall|i: int| 0 <= i < after.robots.len() implies {
        &&& (#[trigger] after.robots[i]).wf()
        &&& after.context().admits(after.robots[i])
    } by {
        let robot = sim.robots[i];
        assert(robot.wf());
        assert(sim.context().admits(robot));
        lemma_received_shape(robot, sim.robots, sim.robots.len() as int);
        let k = choose|k: int|
            0 <= k < sim.robots.len() && (#[trigger] sim.robots[k]).id == robot.partner_id;
        assert(after.robots[k].id == robot.partner_id);
    }
}

/// A tick changes neither the identifier of an agent nor that of its partner,
/// keeps the agent well formed and keeps the shape of its map.
pub proof fn lemma_tick_keeps_identity(state: RobotModel, context: ContextModel)
    requires
        state.wf(),
        context.admits(state),
    ensures
        after_tick(state, context).id == state.id,
        after_tick(state, context).partner_id == state.partner_id,
        after_tick(state, context).map.same_shape(state.map),
        after_tick(state, context).wf(),
{
    crate::robot_node::lemma_tick_keeps_wf(state, context);
}

/// Acting keeps a well-formed simulation well formed.
pub proof fn lemma_acting_keeps_wf(sim: SimulationModel)
    requires
        sim.wf(),
    ensures
        sim.after_acting().wf(),
{
    let after = sim.after_acting();
    assert forall|i: int| 0 <= i < after.robots.len() implies {
        &&& (#[trigger] after.robots[i]).wf()
        &&& after.context().admits(after.robots[i])
    } by {
        let robot = sim.robots[i];
        assert(robot.wf());
        assert(sim.context().admits(robot));
        lemma_tick_keeps_identity(robot, sim.context());
        let k = choose|k: int|
            0 <= k < sim.robots.len() && (#[trigger] sim.robots[k]).id == robot.partner_id;
        assert(sim.robots[k].wf());
        assert(sim.context().admits(sim.robots[k]));
        lemma_tick_keeps_identity(sim.robots[k], sim.context());
        assert(after.robots[k].id == robot.partner_id);
    }
}

/// Agents whose counters have room can all tick, whatever they sense and
/// receive first.
pub proof fn lemma_headroom_fits(sim: SimulationModel)
    requires
        sim.has_headroom(),
    ensures
        sim.after_sensing().after_exchange().acting_fits(),
{
    let ready = sim.after_sensing().after_exchange();
    assert forall|i: int| 0 <= i < ready.robots.len() implies tick_fits(
        #[trigger] ready.robots[i],
        ready.context(),
    ) by {
        assert(sim.robots[i].has_headroom());
        assert(sim.after_sensing().robots[i].has_headroom());
        assert(ready.robots[i].has_headroom());
        crate::robot_node::lemma_headroom_fits(ready.robots[i], ready.context());
    }
}

} // verus!
