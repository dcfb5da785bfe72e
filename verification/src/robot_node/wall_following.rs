//! Wall following on the grid: which neighbour an agent steps to next, how a
//! step turns the agent, and how many quarter turns lie between two headings.

use vstd::prelude::*;
use crate::constants::LEFT_HAND_RULE;
use crate::types::{orientation_of_step, point_at, CellState, GridMap, GridModel, Orientation, Point};

verus! {

/// `(dx, dy)` is one cell along one axis.
pub open spec fn is_unit_step(dx: int, dy: int) -> bool {
    dx == 0 && (dy == 1 || dy == -1) || dy == 0 && (dx == 1 || dx == -1)
}

/// The step a quarter turn counter-clockwise of `d` (to the agent's left).
pub open spec fn left_of(d: (int, int)) -> (int, int) {
    (d.1, -d.0)
}

/// The step a quarter turn clockwise of `d` (to the agent's right).
pub open spec fn right_of(d: (int, int)) -> (int, int) {
    (-d.1, d.0)
}

/// The step opposite to `d`.
pub open spec fn back_of(d: (int, int)) -> (int, int) {
    (-d.0, -d.1)
}

/// `(x, y)` lies on one of the traced loops in `walls`.
pub open spec fn on_virtual_wall(walls: Seq<Vec<Point>>, x: int, y: int) -> bool {
    exists|i: int, j: int|
        0 <= i < walls.len() && 0 <= j < walls[i]@.len() && (#[trigger] walls[i]@[j]).x == x
            && walls[i]@[j].y == y
}

/// An agent may step onto `(x, y)` when the loops in `walls` count as walls too.
pub open spec fn free_cell(map: GridModel, walls: Seq<Vec<Point>>, x: int, y: int) -> bool {
    map.passable(x, y) && !on_virtual_wall(walls, x, y)
}

/// The neighbour of `(x, y)` reached by the first of the steps `a`, `b`, `c`,
/// `d` that leads to a passable cell, if any does.
pub open spec fn first_passable(
    map: GridModel,
    x: int,
    y: int,
    a: (int, int),
    b: (int, int),
    c: (int, int),
    d: (int, int),
) -> Option<Point> {
    if map.passable(x + a.0, y + a.1) {
        Some(point_at(x + a.0, y + a.1))
    } else if map.passable(x + b.0, y + b.1) {
        Some(point_at(x + b.0, y + b.1))
    } else if map.passable(x + c.0, y + c.1) {
        Some(point_at(x + c.0, y + c.1))
    } else if map.passable(x + d.0, y + d.1) {
        Some(point_at(x + d.0, y + d.1))
    } else {
        None
    }
}

/// As [`first_passable`], with the loops in `walls` counted as walls.
pub open spec fn first_free(
    map: GridModel,
    walls: Seq<Vec<Point>>,
    x: int,
    y: int,
    a: (int, int),
    b: (int, int),
    c: (int, int),
    d: (int, int),
) -> Option<Point> {
    if free_cell(map, walls, x + a.0, y + a.1) {
        Some(point_at(x + a.0, y + a.1))
    } else if free_cell(map, walls, x + b.0, y + b.1) {
        Some(point_at(x + b.0, y + b.1))
    } else if free_cell(map, walls, x + c.0, y + c.1) {
        Some(point_at(x + c.0, y + c.1))
    } else if free_cell(map, walls, x + d.0, y + d.1) {
        Some(point_at(x + d.0, y + d.1))
    } else {
        None
    }
}

/// The wall-following step from `pos` for an agent facing `heading`.
///
/// With the wall on the left (`LEFT_HAND_RULE`) the agent tries right,
/// forward, left, back; with any other chirality it tries left, forward,
/// right, back. It takes the first that is passable.
pub open spec fn follow_step(
    map: GridModel,
    pos: Point,
    heading: Orientation,
    chirality: i8,
) -> Option<Point> {
    let f = heading.vector();
    if chirality == LEFT_HAND_RULE {
        first_passable(map, pos.x as int, pos.y as int, right_of(f), f, left_of(f), back_of(f))
    } else {
        first_passable(map, pos.x as int, pos.y as int, left_of(f), f, right_of(f), back_of(f))
    }
}

/// As [`follow_step`], with the loops in `walls` counted as walls.
pub open spec fn follow_step_virtual(
    map: GridModel,
    walls: Seq<Vec<Point>>,
    pos: Point,
    heading: Orientation,
    chirality: i8,
) -> Option<Point> {
    let f = heading.vector();
    if chirality == LEFT_HAND_RULE {
        first_free(map, walls, pos.x as int, pos.y as int, right_of(f), f, left_of(f), back_of(f))
    } else {
        first_free(map, walls, pos.x as int, pos.y as int, left_of(f), f, right_of(f), back_of(f))
    }
}

/// The partner at `partner` lies strictly to the right of an agent at `pos`
/// facing `heading` (positive cross product of forward and the vector to the
/// partner).
pub open spec fn partner_on_right(pos: Point, heading: Orientation, partner: Point) -> bool {
    let f = heading.vector();
    f.0 * (partner.y - pos.y) - f.1 * (partner.x - pos.x) > 0
}

/// The first step of a trace, chosen away from the partner: left first when
/// the partner is on the right, right first otherwise (also when the partner
/// is straight ahead or behind).
pub open spec fn first_move_step(
    map: GridModel,
    pos: Point,
    heading: Orientation,
    partner: Point,
) -> Option<Point> {
    let f = heading.vector();
    if partner_on_right(pos, heading, partner) {
        first_passable(map, pos.x as int, pos.y as int, left_of(f), f, right_of(f), back_of(f))
    } else {
        first_passable(map, pos.x as int, pos.y as int, right_of(f), f, left_of(f), back_of(f))
    }
}

/// Signed number of quarter turns from `from` to `to`, in `[-1, 2]`, positive
/// clockwise: the shorter way round, and `+2` for every half turn, whichever
/// way the agent faced before.
pub open spec fn rotation_between(from: Orientation, to: Orientation) -> int {
    let d = to.quarter_turns() - from.quarter_turns();
    if d > 2 {
        d - 4
    } else if d < -2 {
        d + 4
    } else if d == -2 {
        2
    } else {
        d
    }
}

/// Every heading is one of the four cardinal directions, and its step leads
/// one cell along one axis.
pub proof fn lemma_heading_is_cardinal(heading: Orientation)
    ensures
        heading == Orientation::East || heading == Orientation::South || heading
            == Orientation::West || heading == Orientation::North,
        is_unit_step(heading.vector().0, heading.vector().1),
        0 <= heading.quarter_turns() < 4,
        heading.whole_degrees() == 0 || heading.whole_degrees() == 90 || heading.whole_degrees() == 180
            || heading.whole_degrees() == -90,
{
}

/// Turning an orientation into its step and back gives the orientation.
pub proof fn lemma_orientation_round_trip(heading: Orientation)
    ensures
        orientation_of_step(heading.vector().0, heading.vector().1) == heading,
{
}

/// `n` is a multiple of four: a whole number of full turns, counted in
/// quarter turns.
#[verifier::opaque]
pub open spec fn full_turns(n: int) -> bool {
    n % 4 == 0
}

/// No turn at all is a whole number of full turns, and so is one full turn
/// either way.
pub proof fn lemma_full_turns_small()
    ensures
        full_turns(0),
        full_turns(4),
        full_turns(-4),
        !full_turns(1) && !full_turns(2) && !full_turns(3),
{
    reveal(full_turns);
}

/// Sums and differences of whole numbers of full turns are whole numbers of
/// full turns.
pub proof fn lemma_full_turns(a: int, b: int)
    requires
        full_turns(a),
        full_turns(b),
    ensures
        full_turns(a + b),
        full_turns(a - b),
{
    reveal(full_turns);
}

/// A rotation lies in `[-1, 2]` and differs from the difference of the two
/// headings' quarter turns by a whole number of full turns. It is zero
/// between equal headings only.
pub proof fn lemma_rotation_between(from: Orientation, to: Orientation)
    ensures
        -1 <= rotation_between(from, to) <= 2,
        full_turns(rotation_between(from, to) - (to.quarter_turns() - from.quarter_turns())),
        from == to <==> rotation_between(from, to) == 0,
{
    reveal(full_turns);
}

/// A half turn counts the same in both directions, and a quarter turn one way
/// is undone by the quarter turn back.
pub proof fn lemma_rotation_there_and_back(from: Orientation, to: Orientation)
    ensures
        rotation_between(from, to) == 2 <==> rotation_between(to, from) == 2,
        rotation_between(from, to) != 2 ==> rotation_between(to, from) == -rotation_between(
            from,
            to,
        ),
{
}

/// A wall-following step leads to a passable neighbour of the start.
pub proof fn lemma_follow_step_adjacent(
    map: GridModel,
    pos: Point,
    heading: Orientation,
    chirality: i8,
)
    requires
        map.wf(),
    ensures
        follow_step(map, pos, heading, chirality) matches Some(next) ==> {
            &&& map.passable(next.x as int, next.y as int)
            &&& is_unit_step(next.x - pos.x, next.y - pos.y)
        },
{
}

/// Wall following.
pub struct WallFollower;

impl WallFollower {
    /// The cell reached from `pos` by the step `(dx, dy)`, if it is passable.
    pub fn try_step(pos: Point, dx: i32, dy: i32, map: &GridMap) -> (next: Option<Point>)
        requires
            map@.wf(),
        ensures
            next == if map@.passable(pos.x + dx, pos.y + dy) {
                Some(point_at(pos.x + dx, pos.y + dy))
            } else {
                None::<Point>
            },
    {
        let nx: i64 = pos.x as i64 + dx as i64;
        let ny: i64 = pos.y as i64 + dy as i64;
        if nx < 0 || ny < 0 || nx > i32::MAX as i64 || ny > i32::MAX as i64 {
            return None;
        }
        let candidate = Point { x: nx as i32, y: ny as i32 };
        if Self::is_position_valid_and_empty(candidate, map) {
            Some(candidate)
        } else {
            None
        }
    }

    /// The first of four steps that leads to a passable neighbour of `pos`.
    fn first_open(
        pos: Point,
        a: (i32, i32),
        b: (i32, i32),
        c: (i32, i32),
        d: (i32, i32),
        map: &GridMap,
    ) -> (next: Option<Point>)
        requires
            map@.wf(),
        ensures
            next == first_passable(
                map@,
                pos.x as int,
                pos.y as int,
                (a.0 as int, a.1 as int),
                (b.0 as int, b.1 as int),
                (c.0 as int, c.1 as int),
                (d.0 as int, d.1 as int),
            ),
    {
        let first = Self::try_step(pos, a.0, a.1, map);
        if first.is_some() {
            return first;
        }
        let second = Self::try_step(pos, b.0, b.1, map);
        if second.is_some() {
            return second;
        }
        let third = Self::try_step(pos, c.0, c.1, map);
        if third.is_some() {
            return third;
        }
        Self::try_step(pos, d.0, d.1, map)
    }

    /// The first step after reaching a wall: the agent turns away from its
    /// partner. Left is tried first when the partner is on the right, right
    /// first otherwise; then forward, the other side, and back. `None` when
    /// all four neighbours are blocked.
    pub fn wall_follow_step_first_move(
        current_pos: Point,
        orientation: Orientation,
        global_map: &GridMap,
        partner_pos: Point,
    ) -> (next: Option<Point>)
        requires
            global_map@.wf(),
        ensures
            next == first_move_step(global_map@, current_pos, orientation, partner_pos),
            next matches Some(p) ==> global_map@.passable(p.x as int, p.y as int),
    {
        let (dx, dy) = Self::get_direction_vector(orientation);
        let to_partner_x: i64 = partner_pos.x as i64 - current_pos.x as i64;
        let to_partner_y: i64 = partner_pos.y as i64 - current_pos.y as i64;
        let cross: i64 = match orientation {
            Orientation::East => to_partner_y,
            Orientation::South => -to_partner_x,
            Orientation::West => -to_partner_y,
            Orientation::North => to_partner_x,
        };
        if cross > 0 {
            Self::first_open(current_pos, (dy, -dx), (dx, dy), (-dy, dx), (-dx, -dy), global_map)
        } else {
            Self::first_open(current_pos, (-dy, dx), (dx, dy), (dy, -dx), (-dx, -dy), global_map)
        }
    }

    /// One wall-following step: the first passable neighbour in the priority
    /// order of the chirality, or `None` when all four are blocked.
    pub fn wall_follow_step(
        current_pos: Point,
        orientation: Orientation,
        global_map: &GridMap,
        tracing_direction: i8,
    ) -> (next: Option<Point>)
        requires
            global_map@.wf(),
        ensures
            next == follow_step(global_map@, current_pos, orientation, tracing_direction),
            next matches Some(p) ==> global_map@.passable(p.x as int, p.y as int),
    {
        let (dx, dy) = Self::get_direction_vector(orientation);
        if tracing_direction == LEFT_HAND_RULE {
            Self::first_open(current_pos, (-dy, dx), (dx, dy), (dy, -dx), (-dx, -dy), global_map)
        } else {
            Self::first_open(current_pos, (dy, -dx), (dx, dy), (-dy, dx), (-dx, -dy), global_map)
        }
    }

    /// The unit step of an orientation.
    pub fn get_direction_vector(orientation: Orientation) -> (d: (i32, i32))
        ensures
            (d.0 as int, d.1 as int) == orientation.vector(),
    {
        match orientation {
            Orientation::East => (1, 0),
            Orientation::South => (0, 1),
            Orientation::West => (-1, 0),
            Orientation::North => (0, -1),
        }
    }

    /// Whether an agent may step onto `pos`: it is on the map and not an obstacle.
    pub fn is_position_valid_and_empty(pos: Point, global_map: &GridMap) -> (ok: bool)
        requires
            global_map@.wf(),
        ensures
            ok == global_map@.passable(pos.x as int, pos.y as int),
    {
        if !global_map.in_bounds(pos.x, pos.y) {
            return false;
        }
        global_map.at(pos.x, pos.y) != CellState::Obstacle
    }

    /// Whether `pos` lies on one of the traced loops.
    pub fn is_virtual_wall(pos: Point, virtual_boundaries: &[Vec<Point>]) -> (hit: bool)
        ensures
            hit == on_virtual_wall(virtual_boundaries@, pos.x as int, pos.y as int),
    {
        let mut i: usize = 0;
        while i < virtual_boundaries.len()
            invariant
                i <= virtual_boundaries@.len(),
                forall|a: int, b: int|
                    0 <= a < i && 0 <= b < virtual_boundaries@[a]@.len() ==> !((
                    #[trigger] virtual_boundaries@[a]@[b]).x == pos.x
                        && virtual_boundaries@[a]@[b].y == pos.y),
            decreases virtual_boundaries@.len() - i,
        {
            let boundary = &virtual_boundaries[i];
            let mut j: usize = 0;
            while j < boundary.len()
                invariant
                    i < virtual_boundaries@.len(),
                    boundary == virtual_boundaries@[i as int],
                    j <= boundary@.len(),
                    forall|b: int|
                        0 <= b < j ==> !((#[trigger] boundary@[b]).x == pos.x && boundary@[b].y
                            == pos.y),
                decreases boundary@.len() - j,
            {
                if boundary[j].x == pos.x && boundary[j].y == pos.y {
                    return true;
                }
                j += 1;
            }
            i += 1;
        }
        false
    }

    /// Whether an agent may step onto `pos` when the traced loops count as walls.
    pub fn is_position_valid_and_empty_virtual(
        pos: Point,
        global_map: &GridMap,
        virtual_boundaries: &[Vec<Point>],
    ) -> (ok: bool)
        requires
            global_map@.wf(),
        ensures
            ok == free_cell(global_map@, virtual_boundaries@, pos.x as int, pos.y as int),
    {
        if !Self::is_position_valid_and_empty(pos, global_map) {
            return false;
        }
        !Self::is_virtual_wall(pos, virtual_boundaries)
    }

    /// The neighbour of `pos` reached by the step `(dx, dy)`, if it is free.
    fn try_step_virtual(
        pos: Point,
        dx: i32,
        dy: i32,
        map: &GridMap,
        walls: &[Vec<Point>],
    ) -> (next: Option<Point>)
        requires
            map@.wf(),
            -1 <= dx <= 1,
            -1 <= dy <= 1,
        ensures
            next == if free_cell(map@, walls@, pos.x + dx, pos.y + dy) {
                Some(point_at(pos.x + dx, pos.y + dy))
            } else {
                None::<Point>
            },
    {
        let nx: i64 = pos.x as i64 + dx as i64;
        let ny: i64 = pos.y as i64 + dy as i64;
        if nx < 0 || ny < 0 || nx > i32::MAX as i64 || ny > i32::MAX as i64 {
            return None;
        }
        let candidate = Point { x: nx as i32, y: ny as i32 };
        if Self::is_position_valid_and_empty_virtual(candidate, map, walls) {
            Some(candidate)
        } else {
            None
        }
    }

    /// One wall-following step with the traced loops counted as walls.
    pub fn wall_follow_step_virtual(
        current_pos: Point,
        orientation: Orientation,
        global_map: &GridMap,
        virtual_boundaries: &[Vec<Point>],
        tracing_direction: i8,
    ) -> (next: Option<Point>)
        requires
            global_map@.wf(),
        ensures
            next == follow_step_virtual(
                global_map@,
                virtual_boundaries@,
                current_pos,
                orientation,
                tracing_direction,
            ),
            next matches Some(p) ==> free_cell(
                global_map@,
                virtual_boundaries@,
                p.x as int,
                p.y as int,
            ),
    {
        let (dx, dy) = Self::get_direction_vector(orientation);
        let (side_x, side_y) = if tracing_direction == LEFT_HAND_RULE {
            (-dy, dx)
        } else {
            (dy, -dx)
        };
        let first = Self::try_step_virtual(
            current_pos,
            side_x,
            side_y,
            global_map,
            virtual_boundaries,
        );
        if first.is_some() {
            return first;
        }
        let second = Self::try_step_virtual(current_pos, dx, dy, global_map, virtual_boundaries);
        if second.is_some() {
            return second;
        }
        let third = Self::try_step_virtual(
            current_pos,
            -side_x,
            -side_y,
            global_map,
            virtual_boundaries,
        );
        if third.is_some() {
            return third;
        }
        Self::try_step_virtual(current_pos, -dx, -dy, global_map, virtual_boundaries)
    }

    /// The orientation of an agent that has just stepped from `prev_pos` to
    /// `next_pos`; north when the two are not neighbours.
    pub fn update_orientation(prev_pos: Point, next_pos: Point) -> (heading: Orientation)
        ensures
            heading == orientation_of_step(next_pos.x - prev_pos.x, next_pos.y - prev_pos.y),
    {
        let dx: i64 = next_pos.x as i64 - prev_pos.x as i64;
        let dy: i64 = next_pos.y as i64 - prev_pos.y as i64;
        if dx == 1 && dy == 0 {
            Orientation::East
        } else if dx == -1 && dy == 0 {
            Orientation::West
        } else if dx == 0 && dy == 1 {
            Orientation::South
        } else {
            Orientation::North
        }
    }
}

/// Bookkeeping of turns in quarter-turn steps.
pub struct RotationTracker;

impl RotationTracker {
    /// Signed number of quarter turns from `prev_orientation` to
    /// `new_orientation`: the shorter way round, `+2` for every half turn.
    pub fn calculate_rotation_steps(
        prev_orientation: Orientation,
        new_orientation: Orientation,
    ) -> (steps: i32)
        ensures
            steps == rotation_between(prev_orientation, new_orientation),
            -1 <= steps <= 2,
    {
        let prev_step = Self::orientation_to_step(prev_orientation);
        let new_step = Self::orientation_to_step(new_orientation);
        let mut diff: i32 = new_step - prev_step;
        if diff > 2 {
            diff -= 4;
        } else if diff < -2 {
            diff += 4;
        } else if diff == -2 {
            diff = 2;
        }
        diff
    }

    /// Number of clockwise quarter turns from east: E = 0, S = 1, W = 2, N = 3.
    pub fn orientation_to_step(orientation: Orientation) -> (step: i32)
        ensures
            step == orientation.quarter_turns(),
    {
        match orientation {
            Orientation::East => 0,
            Orientation::South => 1,
            Orientation::West => 2,
            Orientation::North => 3,
        }
    }
}

} // verus!
