//! Value types of the grid world: cells, points, poses, maps and agent state,
//! each with the mathematical model that the contracts speak of.

use vstd::prelude::*;
use crate::constants::COMMUNICATION_RANGE;

verus! {

/// What an agent knows about one cell.
#[derive(Copy, Clone, PartialEq, Eq, Debug, Structural)]
pub enum CellState {
    Unexplored,
    Empty,
    Obstacle,
}

/// The phase an agent is in. `InitialWallFind` is where every agent starts,
/// `Idle` is terminal.
#[derive(Copy, Clone, PartialEq, Eq, Debug, Structural)]
pub enum RobotPhase {
    Idle,
    InitialWallFind,
    BoundaryScouting,
    BoundaryAnalysis,
    IslandEscape,
    InteriorSweep,
}

/// Verdict of the boundary analysis.
#[derive(Copy, Clone, PartialEq, Eq, Debug, Structural)]
pub enum BoundaryAnalysisResult {
    /// The rotation totals do not decide (yet).
    Incomplete,
    /// A closed wall surrounded by reachable cells.
    Island,
    /// The closed wall that encloses the reachable cells.
    ExteriorWall,
}

/// Integer grid coordinates; also used for unit direction vectors.
#[derive(Copy, Clone, PartialEq, Eq, Hash, Debug, Structural)]
pub struct Point {
    pub x: i32,
    pub y: i32,
}

/// The point with the given coordinates, meaningful where both fit in `i32`.
pub open spec fn point_at(x: int, y: int) -> Point {
    Point { x: x as i32, y: y as i32 }
}

/// `a` comes before `b` when the map is read row by row, left to right.
pub open spec fn row_major_before(a: Point, b: Point) -> bool {
    a.y < b.y || (a.y == b.y && a.x < b.x)
}

/// Manhattan distance between two points.
pub open spec fn manhattan(a: Point, b: Point) -> int {
    (if a.x >= b.x { a.x - b.x } else { b.x - a.x }) + (if a.y >= b.y { a.y - b.y } else { b.y - a.y })
}

/// Two agents at `a` and `b` can talk: their Manhattan distance is at most two.
pub open spec fn in_comm_range(a: Point, b: Point) -> bool {
    manhattan(a, b) <= COMMUNICATION_RANGE
}

/// One of the four directions an agent can face. `y` grows southwards.
#[derive(Copy, Clone, PartialEq, Eq, Debug, Structural)]
pub enum Orientation {
    East,
    South,
    West,
    North,
}

impl Orientation {
    /// Number of clockwise quarter turns from east: E = 0, S = 1, W = 2, N = 3.
    pub open spec fn quarter_turns(self) -> int {
        match self {
            Orientation::East => 0,
            Orientation::South => 1,
            Orientation::West => 2,
            Orientation::North => 3,
        }
    }

    /// The unit step taken when moving forward: E = (1,0), S = (0,1), W = (-1,0), N = (0,-1).
    pub open spec fn vector(self) -> (int, int) {
        match self {
            Orientation::East => (1, 0),
            Orientation::South => (0, 1),
            Orientation::West => (-1, 0),
            Orientation::North => (0, -1),
        }
    }

    /// The angle in whole degrees, in `(-180, 180]`: E = 0, S = 90, W = 180, N = -90.
    pub open spec fn whole_degrees(self) -> int {
        match self {
            Orientation::East => 0,
            Orientation::South => 90,
            Orientation::West => 180,
            Orientation::North => -90,
        }
    }

    /// The angle in whole degrees.
    pub fn degrees(self) -> (d: i32)
        ensures
            d == self.whole_degrees(),
    {
        match self {
            Orientation::East => 0,
            Orientation::South => 90,
            Orientation::West => 180,
            Orientation::North => -90,
        }
    }
}

/// The orientation whose forward step is `(dx, dy)`; north for anything that
/// is not a unit step along one axis.
pub open spec fn orientation_of_step(dx: int, dy: int) -> Orientation {
    if dx == 1 && dy == 0 {
        Orientation::East
    } else if dx == -1 && dy == 0 {
        Orientation::West
    } else if dx == 0 && dy == 1 {
        Orientation::South
    } else {
        Orientation::North
    }
}

/// Where an agent stands and which way it faces.
#[derive(Copy, Clone, PartialEq, Eq, Debug, Structural)]
pub struct Pose {
    pub position: Point,
    pub orientation: Orientation,
}

/// A rectangular map, cells stored row by row.
#[derive(Debug)]
pub struct GridMap {
    pub width: usize,
    pub height: usize,
    pub cells: Vec<CellState>,
}

/// Mathematical model of a [`GridMap`].
pub struct GridModel {
    pub width: int,
    pub height: int,
    pub cells: Seq<CellState>,
}

impl GridModel {
    /// The map holds one cell per coordinate pair and its coordinates fit in `i32`.
    pub open spec fn wf(self) -> bool {
        &&& 0 <= self.width <= i32::MAX
        &&& 0 <= self.height <= i32::MAX
        &&& self.cells.len() == self.width * self.height
    }

    pub open spec fn same_shape(self, other: GridModel) -> bool {
        self.width == other.width && self.height == other.height
    }

    pub open spec fn in_bounds(self, x: int, y: int) -> bool {
        0 <= x < self.width && 0 <= y < self.height
    }

    /// Row-major index of `(x, y)`.
    pub open spec fn index_of(self, x: int, y: int) -> int {
        y * self.width + x
    }

    /// The cell at `(x, y)`, meaningful where `(x, y)` is in bounds.
    pub open spec fn cell(self, x: int, y: int) -> CellState {
        self.cells[self.index_of(x, y)]
    }

    /// The cell at `(x, y)`, with everything beyond the border read as an obstacle.
    pub open spec fn cell_or_obstacle(self, x: int, y: int) -> CellState {
        if self.in_bounds(x, y) {
            self.cell(x, y)
        } else {
            CellState::Obstacle
        }
    }

    /// An agent may step onto `(x, y)`: it is in bounds and not an obstacle.
    pub open spec fn passable(self, x: int, y: int) -> bool {
        self.in_bounds(x, y) && self.cell(x, y) != CellState::Obstacle
    }

    /// This map with cell `(x, y)` replaced by `c`.
    pub open spec fn with_cell(self, x: int, y: int, c: CellState) -> GridModel {
        GridModel { cells: self.cells.update(self.index_of(x, y), c), ..self }
    }

    /// This map after taking over every cell that `other` knows.
    pub open spec fn merged(self, other: GridModel) -> GridModel {
        GridModel {
            cells: Seq::new(
                self.cells.len(),
                |i: int|
                    if i < other.cells.len() && other.cells[i] != CellState::Unexplored {
                        other.cells[i]
                    } else {
                        self.cells[i]
                    },
            ),
            ..self
        }
    }

    /// Every cell that `earlier` knows has the same state here.
    pub open spec fn keeps_knowledge_of(self, earlier: GridModel) -> bool {
        &&& self.same_shape(earlier)
        &&& self.cells.len() == earlier.cells.len()
        &&& forall|i: int|
            0 <= i < earlier.cells.len() && earlier.cells[i] != CellState::Unexplored
                ==> self.cells[i] == earlier.cells[i]
    }

    /// Every cell known here has the state that `truth` gives it.
    pub open spec fn agrees_with(self, truth: GridModel) -> bool {
        &&& self.same_shape(truth)
        &&& self.cells.len() == truth.cells.len()
        &&& forall|i: int|
            0 <= i < self.cells.len() && self.cells[i] != CellState::Unexplored
                ==> self.cells[i] == truth.cells[i]
    }

    /// No cell of the map is unexplored.
    pub open spec fn fully_known(self) -> bool {
        forall|i: int| 0 <= i < self.cells.len() ==> self.cells[i] != CellState::Unexplored
    }

    /// A map of the given shape with every cell unexplored.
    pub open spec fn blank(width: int, height: int) -> GridModel {
        GridModel {
            width,
            height,
            cells: Seq::new((width * height) as nat, |i: int| CellState::Unexplored),
        }
    }
}

impl View for GridMap {
    type V = GridModel;

    open spec fn view(&self) -> GridModel {
        GridModel { width: self.width as int, height: self.height as int, cells: self.cells@ }
    }
}

/// Merging the same map twice gives what merging it once gives.
pub proof fn lemma_merge_idempotent(map: GridModel, other: GridModel)
    ensures
        map.merged(other).merged(other) == map.merged(other),
{
    assert(map.merged(other).merged(other).cells =~= map.merged(other).cells);
}

/// Merging never loses knowledge: no cell that was known becomes unexplored,
/// and the shape of the map stays.
pub proof fn lemma_merge_monotone(map: GridModel, other: GridModel)
    ensures
        map.merged(other).same_shape(map),
        map.merged(other).cells.len() == map.cells.len(),
        forall|i: int|
            0 <= i < map.cells.len() && map.cells[i] != CellState::Unexplored ==> map.merged(
                other,
            ).cells[i] != CellState::Unexplored,
        forall|i: int|
            0 <= i < map.cells.len() && i < other.cells.len() && other.cells[i]
                != CellState::Unexplored ==> map.merged(other).cells[i] == other.cells[i],
{
}

/// Maps that agree with the same ground truth merge into a map that agrees
/// with it and keeps the state of every cell that was known.
pub proof fn lemma_merge_agreeing(map: GridModel, other: GridModel, truth: GridModel)
    requires
        map.agrees_with(truth),
        other.agrees_with(truth),
    ensures
        map.merged(other).agrees_with(truth),
        map.merged(other).keeps_knowledge_of(map),
{
}

/// Merging is symmetric between maps of the same size that agree on every
/// cell that both know: each ends up with the same cells.
pub proof fn lemma_merge_commutes(a: GridModel, b: GridModel)
    requires
        a.cells.len() == b.cells.len(),
        forall|i: int|
            0 <= i < a.cells.len() && a.cells[i] != CellState::Unexplored && b.cells[i]
                != CellState::Unexplored ==> a.cells[i] == b.cells[i],
    ensures
        a.merged(b).cells == b.merged(a).cells,
{
    assert(a.merged(b).cells =~= b.merged(a).cells);
}

/// Keeping knowledge is transitive.
pub proof fn lemma_keeps_knowledge_transitive(a: GridModel, b: GridModel, c: GridModel)
    requires
        c.keeps_knowledge_of(b),
        b.keeps_knowledge_of(a),
    ensures
        c.keeps_knowledge_of(a),
{
}

/// In a well-formed map the row-major index of an in-bounds cell is a valid index.
pub proof fn lemma_index_in_range(m: GridModel, x: int, y: int)
    requires
        m.wf(),
        m.in_bounds(x, y),
    ensures
        0 <= y * m.width <= m.index_of(x, y) < m.cells.len(),
{
    assert(y * m.width + x < m.height * m.width) by (nonlinear_arith)
        requires
            0 <= x < m.width,
            0 <= y < m.height,
    ;
    assert(0 <= y * m.width) by (nonlinear_arith)
        requires
            0 <= m.width,
            0 <= y,
    ;
    assert(m.width * m.height == m.height * m.width) by (nonlinear_arith);
}

/// Distinct in-bounds cells have distinct row-major indices.
pub proof fn lemma_index_injective(m: GridModel, x1: int, y1: int, x2: int, y2: int)
    requires
        m.wf(),
        m.in_bounds(x1, y1),
        m.in_bounds(x2, y2),
        m.index_of(x1, y1) == m.index_of(x2, y2),
    ensures
        x1 == x2,
        y1 == y2,
{
    if y1 < y2 {
        assert(y1 * m.width + m.width <= y2 * m.width) by (nonlinear_arith)
            requires
                y1 + 1 <= y2,
                0 <= m.width,
        ;
    } else if y2 < y1 {
        assert(y2 * m.width + m.width <= y1 * m.width) by (nonlinear_arith)
            requires
                y2 + 1 <= y1,
                0 <= m.width,
        ;
    }
}

impl Clone for GridMap {
    fn clone(&self) -> (copy: Self)
        ensures
            copy@ == self@,
    {
        let cells = self.cells.clone();
        assert(cells@ =~= self.cells@);
        GridMap { width: self.width, height: self.height, cells }
    }
}

impl GridMap {
    /// A map of the given shape with every cell unexplored.
    pub fn new(width: usize, height: usize) -> (map: GridMap)
        requires
            width * height <= usize::MAX,
        ensures
            map@ == GridModel::blank(width as int, height as int),
    {
        assert(width * height >= 0) by (nonlinear_arith)
            requires
                width >= 0,
                height >= 0,
        ;
        let total: usize = width * height;
        let mut cells: Vec<CellState> = Vec::new();
        let mut i: usize = 0;
        while i < total
            invariant
                i <= total,
                cells@.len() == i,
                forall|k: int| 0 <= k < i ==> cells@[k] == CellState::Unexplored,
            decreases total - i,
        {
            cells.push(CellState::Unexplored);
            i += 1;
        }
        assert(cells@ =~= GridModel::blank(width as int, height as int).cells);
        GridMap { width, height, cells }
    }

    /// Whether the map holds one cell per coordinate pair, with coordinates that fit in `i32`.
    pub fn is_well_formed(&self) -> (ok: bool)
        ensures
            ok == self@.wf(),
    {
        if self.width > i32::MAX as usize || self.height > i32::MAX as usize {
            return false;
        }
        assert(self.width * self.height <= i32::MAX * i32::MAX) by (nonlinear_arith)
            requires
                0 <= self.width <= i32::MAX,
                0 <= self.height <= i32::MAX,
        ;
        assert(self.width * self.height >= 0) by (nonlinear_arith)
            requires
                0 <= self.width,
                0 <= self.height,
        ;
        let total: u64 = (self.width as u64) * (self.height as u64);
        self.cells.len() as u64 == total
    }

    /// Whether `(x, y)` names a cell of the map.
    pub fn in_bounds(&self, x: i32, y: i32) -> (inside: bool)
        ensures
            inside == self@.in_bounds(x as int, y as int),
    {
        x >= 0 && y >= 0 && (x as usize) < self.width && (y as usize) < self.height
    }

    /// Row-major index of the in-bounds cell `(x, y)`.
    fn index(&self, x: i32, y: i32) -> (idx: usize)
        requires
            self@.wf(),
            self@.in_bounds(x as int, y as int),
        ensures
            idx == self@.index_of(x as int, y as int),
            idx < self.cells@.len(),
    {
        let total = self.cells.len();
        proof {
            lemma_index_in_range(self@, x as int, y as int);
        }
        let idx = (y as usize) * self.width + (x as usize);
        assert(idx < total);
        idx
    }

    /// The state of cell `(x, y)`.
    pub fn at(&self, x: i32, y: i32) -> (c: CellState)
        requires
            self@.wf(),
            self@.in_bounds(x as int, y as int),
        ensures
            c == self@.cell(x as int, y as int),
    {
        let idx = self.index(x, y);
        self.cells[idx]
    }

    /// Overwrites the state of cell `(x, y)`.
    pub fn set(&mut self, x: i32, y: i32, c: CellState)
        requires
            old(self)@.wf(),
            old(self)@.in_bounds(x as int, y as int),
        ensures
            final(self)@ == old(self)@.with_cell(x as int, y as int, c),
            final(self)@.wf(),
    {
        let idx = self.index(x, y);
        self.cells.set(idx, c);
    }

    /// The state of cell `(x, y)`, reading everything beyond the border as an obstacle.
    pub fn at_or_obstacle(&self, x: i32, y: i32) -> (c: CellState)
        requires
            self@.wf(),
        ensures
            c == self@.cell_or_obstacle(x as int, y as int),
    {
        if self.in_bounds(x, y) {
            self.at(x, y)
        } else {
            CellState::Obstacle
        }
    }

    /// Takes over every cell that `other` knows; cells that `other` has not
    /// explored keep their state.
    pub fn merge_from(&mut self, other: &GridMap)
        requires
            forall|i: int|
                0 <= i < other.cells@.len() && other.cells@[i] != CellState::Unexplored
                    ==> i < old(self).cells@.len(),
        ensures
            final(self)@ == old(self)@.merged(other@),
            forall|i: int|
                0 <= i < old(self).cells@.len() && old(self).cells@[i] != CellState::Unexplored
                    ==> final(self).cells@[i] != CellState::Unexplored,
    {
        let n = other.cells.len();
        let mut i: usize = 0;
        while i < n
            invariant
                i <= n,
                n == other.cells@.len(),
                self.width == old(self).width,
                self.height == old(self).height,
                self.cells@.len() == old(self).cells@.len(),
                forall|k: int|
                    0 <= k < other.cells@.len() && other.cells@[k] != CellState::Unexplored
                        ==> k < old(self).cells@.len(),
                forall|k: int|
                    0 <= k < self.cells@.len() ==> self.cells@[k] == if k < i
                        && other.cells@[k] != CellState::Unexplored {
                        other.cells@[k]
                    } else {
                        old(self).cells@[k]
                    },
            decreases n - i,
        {
            let cell = other.cells[i];
            if cell != CellState::Unexplored {
                self.cells.set(i, cell);
            }
            i += 1;
        }
        assert(self@.cells =~= old(self)@.merged(other@).cells);
    }
}

/// Bookkeeping of one agent's boundary scouting.
#[derive(Debug)]
pub struct BoundaryScoutState {
    /// Chirality of the trace: `-1` keeps the wall on the left, `+1` on the right.
    pub tracing_direction: i8,
    /// Outbound steps taken since scouting began.
    pub steps_taken: u32,
    /// Steps taken in the current half of the current leg.
    pub steps_taken_this_scouting_mission: u32,
    /// Whether the agent is retracing the leg back to its start.
    pub returning: bool,
    /// Cells visited on the outbound half of the current leg, the start first.
    pub path: Vec<Point>,
    /// Whether the next outbound step is the first of its leg.
    pub first_move: bool,
    /// The step with which the first leg left its start.
    pub initial_scouting_direction: Option<Point>,
    /// Quarter turns accumulated on the current leg, positive clockwise.
    pub total_rotation_steps: i32,
}

/// Mathematical model of a [`BoundaryScoutState`].
pub struct ScoutModel {
    pub tracing_direction: i8,
    pub steps_taken: u32,
    pub steps_taken_this_scouting_mission: u32,
    pub returning: bool,
    pub path: Seq<Point>,
    pub first_move: bool,
    pub initial_scouting_direction: Option<Point>,
    pub total_rotation_steps: i32,
}

impl ScoutModel {
    /// Every cell of the recorded path lies on `map`.
    pub open spec fn within(self, map: GridModel) -> bool {
        forall|i: int|
            0 <= i < self.path.len() ==> map.in_bounds(
                (#[trigger] self.path[i]).x as int,
                self.path[i].y as int,
            )
    }
}

impl View for BoundaryScoutState {
    type V = ScoutModel;

    open spec fn view(&self) -> ScoutModel {
        ScoutModel {
            tracing_direction: self.tracing_direction,
            steps_taken: self.steps_taken,
            steps_taken_this_scouting_mission: self.steps_taken_this_scouting_mission,
            returning: self.returning,
            path: self.path@,
            first_move: self.first_move,
            initial_scouting_direction: self.initial_scouting_direction,
            total_rotation_steps: self.total_rotation_steps,
        }
    }
}

impl Clone for BoundaryScoutState {
    fn clone(&self) -> (copy: Self)
        ensures
            copy@ == self@,
    {
        let path = self.path.clone();
        assert(path@ =~= self.path@);
        BoundaryScoutState {
            tracing_direction: self.tracing_direction,
            steps_taken: self.steps_taken,
            steps_taken_this_scouting_mission: self.steps_taken_this_scouting_mission,
            returning: self.returning,
            path,
            first_move: self.first_move,
            initial_scouting_direction: self.initial_scouting_direction,
            total_rotation_steps: self.total_rotation_steps,
        }
    }
}

/// Model of an optional scout.
pub open spec fn scout_model(scout: Option<BoundaryScoutState>) -> Option<ScoutModel> {
    match scout {
        Some(s) => Some(s@),
        None => None,
    }
}

/// Everything one agent carries.
#[derive(Debug)]
pub struct RobotState {
    pub id: u8,
    pub pose: Pose,
    pub phase: RobotPhase,
    /// The agent's private map.
    pub map: GridMap,
    /// Length of the current scouting leg.
    pub scout_depth_n: u32,
    pub partner_id: u8,
    /// Present from the first scouting step until a new wall is found.
    pub boundary_scout: Option<BoundaryScoutState>,
}

/// Mathematical model of a [`RobotState`].
pub struct RobotModel {
    pub id: u8,
    pub pose: Pose,
    pub phase: RobotPhase,
    pub map: GridModel,
    pub scout_depth_n: u32,
    pub partner_id: u8,
    pub boundary_scout: Option<ScoutModel>,
}

impl RobotModel {
    /// The private map is well formed, and the agent and its recorded path
    /// are on it.
    pub open spec fn wf(self) -> bool {
        &&& self.map.wf()
        &&& self.map.in_bounds(self.pose.position.x as int, self.pose.position.y as int)
        &&& (self.boundary_scout matches Some(s) ==> s.within(self.map))
    }

    /// The agent stands on a cell that is passable in `truth`, and so is every
    /// cell of its recorded path.
    pub open spec fn on_open_ground(self, truth: GridModel) -> bool {
        &&& truth.passable(self.pose.position.x as int, self.pose.position.y as int)
        &&& (self.boundary_scout matches Some(s) ==> forall|i: int|
            0 <= i < s.path.len() ==> truth.passable(
                (#[trigger] s.path[i]).x as int,
                s.path[i].y as int,
            ))
    }

    /// The agent's map says of the cell north of the agent what `truth` says of it.
    pub open spec fn sees_front(self, truth: GridModel) -> bool {
        self.map.cell_or_obstacle(self.pose.position.x as int, self.pose.position.y - 1)
            == truth.cell_or_obstacle(self.pose.position.x as int, self.pose.position.y - 1)
    }

    /// The cell a step `(dx, dy)` away from the agent and what the agent's own
    /// map says of it, with everything beyond the border read as an obstacle.
    pub open spec fn neighbour(self, dx: int, dy: int) -> (Point, Option<CellState>) {
        let x = self.pose.position.x + dx;
        let y = self.pose.position.y + dy;
        (point_at(x, y), Some(self.map.cell_or_obstacle(x, y)))
    }

    /// Every counter of the agent can take one more tick, whatever the tick does.
    pub open spec fn has_headroom(self) -> bool {
        &&& 2 * self.scout_depth_n <= u32::MAX
        &&& (self.boundary_scout matches Some(s) ==> {
            &&& s.steps_taken < u32::MAX
            &&& s.steps_taken_this_scouting_mission < u32::MAX
            &&& i32::MIN + 2 <= s.total_rotation_steps <= i32::MAX - 2
        })
    }

    /// The rotation total of the agent's scout, if it has one.
    pub open spec fn rotation_total(self) -> Option<i32> {
        match self.boundary_scout {
            Some(s) => Some(s.total_rotation_steps),
            None => None,
        }
    }
}

impl View for RobotState {
    type V = RobotModel;

    open spec fn view(&self) -> RobotModel {
        RobotModel {
            id: self.id,
            pose: self.pose,
            phase: self.phase,
            map: self.map@,
            scout_depth_n: self.scout_depth_n,
            partner_id: self.partner_id,
            boundary_scout: scout_model(self.boundary_scout),
        }
    }
}

impl RobotState {
    /// Whether the agent is well formed: its map is, and the agent and its
    /// recorded path are on it.
    pub fn is_well_formed(&self) -> (ok: bool)
        ensures
            ok == self@.wf(),
    {
        if !self.map.is_well_formed() {
            return false;
        }
        if !self.map.in_bounds(self.pose.position.x, self.pose.position.y) {
            return false;
        }
        match &self.boundary_scout {
            None => true,
            Some(scout) => {
                let mut i: usize = 0;
                while i < scout.path.len()
                    invariant
                        i <= scout.path@.len(),
                        self.boundary_scout == Some(*scout),
                        forall|k: int|
                            0 <= k < i ==> self.map@.in_bounds(
                                (#[trigger] scout.path@[k]).x as int,
                                scout.path@[k].y as int,
                            ),
                    decreases scout.path@.len() - i,
                {
                    if !self.map.in_bounds(scout.path[i].x, scout.path[i].y) {
                        assert(self@.boundary_scout == Some(scout@));
                        assert(!self.map@.in_bounds(
                            scout@.path[i as int].x as int,
                            scout@.path[i as int].y as int,
                        ));
                        assert(!scout@.within(self.map@));
                        return false;
                    }
                    i += 1;
                }
                assert(scout@.within(self.map@));
                true
            },
        }
    }

    /// Whether every counter of the agent can take one more tick.
    pub fn has_headroom(&self) -> (room: bool)
        ensures
            room == self@.has_headroom(),
    {
        if self.scout_depth_n > u32::MAX / 2 {
            return false;
        }
        match &self.boundary_scout {
            Some(s) => s.steps_taken < u32::MAX && s.steps_taken_this_scouting_mission < u32::MAX
                && s.total_rotation_steps >= i32::MIN + 2 && s.total_rotation_steps <= i32::MAX
                - 2,
            None => true,
        }
    }
}

impl Clone for RobotState {
    fn clone(&self) -> (copy: Self)
        ensures
            copy@ == self@,
    {
        let boundary_scout = match &self.boundary_scout {
            Some(s) => Some(s.clone()),
            None => None,
        };
        RobotState {
            id: self.id,
            pose: self.pose,
            phase: self.phase,
            map: self.map.clone(),
            scout_depth_n: self.scout_depth_n,
            partner_id: self.partner_id,
            boundary_scout,
        }
    }
}

} // verus!
