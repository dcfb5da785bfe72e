//! Questions about a map as a whole.

use vstd::prelude::*;
use crate::types::{point_at, row_major_before, CellState, GridMap, GridModel, Point};

verus! {

/// `(x, y)` is on the map and unexplored.
pub open spec fn unexplored_at(map: GridModel, x: int, y: int) -> bool {
    map.in_bounds(x, y) && map.cell(x, y) == CellState::Unexplored
}

/// `(x, y)` is a frontier cell: an empty cell with an unexplored cell among
/// its four neighbours.
pub open spec fn is_frontier_cell(map: GridModel, x: int, y: int) -> bool {
    &&& map.in_bounds(x, y)
    &&& map.cell(x, y) == CellState::Empty
    &&& (unexplored_at(map, x, y - 1) || unexplored_at(map, x, y + 1) || unexplored_at(
        map,
        x + 1,
        y,
    ) || unexplored_at(map, x - 1, y))
}

/// Whether `(x, y)` is on the map and unexplored.
fn is_unexplored(map: &GridMap, x: i64, y: i64) -> (unexplored: bool)
    requires
        map@.wf(),
    ensures
        unexplored == unexplored_at(map@, x as int, y as int),
{
    if x < 0 || y < 0 || x > i32::MAX as i64 || y > i32::MAX as i64 {
        return false;
    }
    map.in_bounds(x as i32, y as i32) && map.at(x as i32, y as i32) == CellState::Unexplored
}

/// The frontier cells of the map, row by row and left to right.
pub fn find_frontier_cells(map: &GridMap) -> (frontier: Vec<Point>)
    requires
        map@.wf(),
    ensures
        forall|k: int|
            0 <= k < frontier@.len() ==> is_frontier_cell(
                map@,
                (#[trigger] frontier@[k]).x as int,
                frontier@[k].y as int,
            ),
        forall|x: int, y: int|
            is_frontier_cell(map@, x, y) ==> frontier@.contains(#[trigger] point_at(x, y)),
        forall|k: int, l: int|
            0 <= k < l < frontier@.len() ==> row_major_before(
                #[trigger] frontier@[k],
                #[trigger] frontier@[l],
            ),
{
    let mut frontier: Vec<Point> = Vec::new();
    let mut y: usize = 0;
    while y < map.height
        invariant
            map@.wf(),
            y <= map.height,
            forall|k: int|
                0 <= k < frontier@.len() ==> is_frontier_cell(
                    map@,
                    (#[trigger] frontier@[k]).x as int,
                    frontier@[k].y as int,
                ) && frontier@[k].y < y,
            forall|a: int, b: int|
                is_frontier_cell(map@, a, b) && b < y ==> frontier@.contains(
                    #[trigger] point_at(a, b),
                ),
            forall|k: int, l: int|
                0 <= k < l < frontier@.len() ==> row_major_before(
                    #[trigger] frontier@[k],
                    #[trigger] frontier@[l],
                ),
        decreases map.height - y,
    {
        let mut x: usize = 0;
        while x < map.width
            invariant
                map@.wf(),
                y < map.height,
                x <= map.width,
                forall|k: int|
                    0 <= k < frontier@.len() ==> is_frontier_cell(
                        map@,
                        (#[trigger] frontier@[k]).x as int,
                        frontier@[k].y as int,
                    ) && (frontier@[k].y < y || (frontier@[k].y == y && frontier@[k].x < x)),
                forall|a: int, b: int|
                    is_frontier_cell(map@, a, b) && (b < y || (b == y && a < x))
                        ==> frontier@.contains(#[trigger] point_at(a, b)),
                forall|k: int, l: int|
                    0 <= k < l < frontier@.len() ==> row_major_before(
                        #[trigger] frontier@[k],
                        #[trigger] frontier@[l],
                    ),
            decreases map.width - x,
        {
            let ghost before = frontier@;
            let cx = x as i64;
            let cy = y as i64;
            if map.at(x as i32, y as i32) == CellState::Empty && (is_unexplored(map, cx, cy - 1)
                || is_unexplored(map, cx, cy + 1) || is_unexplored(map, cx + 1, cy)
                || is_unexplored(map, cx - 1, cy)) {
                let p = Point { x: x as i32, y: y as i32 };
                frontier.push(p);
                assert(frontier@[before.len() as int] == p);
                assert(p == point_at(x as int, y as int));
            }
            assert forall|a: int, b: int|
                is_frontier_cell(map@, a, b) && (b < y || (b == y && a < x + 1))
                    implies frontier@.contains(#[trigger] point_at(a, b)) by {
                if b < y || (b == y && a < x) {
                    let k = choose|k: int| 0 <= k < before.len() && before[k] == point_at(a, b);
                    assert(frontier@[k] == point_at(a, b));
                } else {
                    assert(frontier@[before.len() as int] == point_at(a, b));
                }
            }
            x += 1;
        }
        y += 1;
    }
    frontier
}

} // verus!
