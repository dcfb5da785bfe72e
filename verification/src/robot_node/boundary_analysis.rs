//! Telling an island from the exterior wall, by the agents' rotation totals
//! or by whether a traced path touches the border of the map.

use vstd::prelude::*;
use crate::constants::EXPECTED_ROTATION_DIFFERENCE;
use crate::types::{BoundaryAnalysisResult, Point};

verus! {

/// The verdict on two rotation totals, in quarter turns: a difference of
/// `-4` (first minus second) is the exterior wall, `+4` an island, anything
/// else, or a missing total, decides nothing.
pub open spec fn classify_rotation(
    first: Option<i32>,
    second: Option<i32>,
) -> BoundaryAnalysisResult {
    match (first, second) {
        (Some(a), Some(b)) => {
            if a - b == -EXPECTED_ROTATION_DIFFERENCE {
                BoundaryAnalysisResult::ExteriorWall
            } else if a - b == EXPECTED_ROTATION_DIFFERENCE {
                BoundaryAnalysisResult::Island
            } else {
                BoundaryAnalysisResult::Incomplete
            }
        },
        _ => BoundaryAnalysisResult::Incomplete,
    }
}

/// The path has at least three points and ends where it starts.
pub open spec fn is_closed_loop(path: Seq<Point>) -> bool {
    path.len() >= 3 && path[0] == path[path.len() - 1]
}

/// `p` lies in the first or last row or column of a `width` by `height` map.
pub open spec fn touches_border(p: Point, width: int, height: int) -> bool {
    p.x == 0 || p.x == width - 1 || p.y == 0 || p.y == height - 1
}

/// No point of the path touches the border of the map.
pub open spec fn avoids_border(path: Seq<Point>, width: int, height: int) -> bool {
    forall|i: int| 0 <= i < path.len() ==> !touches_border(#[trigger] path[i], width, height)
}

/// The verdict on a traced path: an island when it stays clear of the border,
/// the exterior wall when it touches it.
pub open spec fn classify_path(path: Seq<Point>, width: int, height: int) -> BoundaryAnalysisResult {
    if avoids_border(path, width, height) {
        BoundaryAnalysisResult::Island
    } else {
        BoundaryAnalysisResult::ExteriorWall
    }
}

/// Boundary analysis.
pub struct BoundaryAnalyzer;

impl BoundaryAnalyzer {
    /// Classifies a boundary by the rotation totals of the two agents that traced it.
    pub fn analyze_boundary_by_rotation(
        robot0_rotation: Option<i32>,
        robot1_rotation: Option<i32>,
    ) -> (verdict: BoundaryAnalysisResult)
        ensures
            verdict == classify_rotation(robot0_rotation, robot1_rotation),
    {
        match (robot0_rotation, robot1_rotation) {
            (Some(rot0), Some(rot1)) => {
                let rotation_difference: i64 = rot0 as i64 - rot1 as i64;
                if rotation_difference == -(EXPECTED_ROTATION_DIFFERENCE as i64) {
                    BoundaryAnalysisResult::ExteriorWall
                } else if rotation_difference == EXPECTED_ROTATION_DIFFERENCE as i64 {
                    BoundaryAnalysisResult::Island
                } else {
                    BoundaryAnalysisResult::Incomplete
                }
            },
            _ => BoundaryAnalysisResult::Incomplete,
        }
    }

    /// Whether the path has at least three points and returns to its start.
    pub fn is_boundary_closed_loop(path: &[Point]) -> (closed: bool)
        ensures
            closed == is_closed_loop(path@),
    {
        if path.len() < 3 {
            return false;
        }
        let first = path[0];
        let last = path[path.len() - 1];
        first.x == last.x && first.y == last.y
    }

    /// Whether the path stays clear of the border of the map (an island) or
    /// touches it (the exterior wall).
    pub fn is_island_not_exterior(path: &[Point], map_width: usize, map_height: usize) -> (island:
        bool)
        ensures
            island == avoids_border(path@, map_width as int, map_height as int),
    {
        let mut i: usize = 0;
        while i < path.len()
            invariant
                i <= path@.len(),
                forall|k: int|
                    0 <= k < i ==> !touches_border(
                        #[trigger] path@[k],
                        map_width as int,
                        map_height as int,
                    ),
            decreases path@.len() - i,
        {
            let point = path[i];
            if point.x == 0 || point.y == 0 || Self::is_last(point.x, map_width) || Self::is_last(
                point.y,
                map_height,
            ) {
                return false;
            }
            i += 1;
        }
        true
    }

    /// Whether coordinate `c` is the last one of an axis of length `len`.
    fn is_last(c: i32, len: usize) -> (last: bool)
        ensures
            last == (c == len - 1),
    {
        if c < -1 {
            return false;
        }
        let next: u64 = (c as i64 + 1) as u64;
        next == len as u64
    }

    /// Classifies a boundary by its path alone.
    pub fn analyze_boundary_by_path(path: &[Point], map_width: usize, map_height: usize) -> (verdict:
        BoundaryAnalysisResult)
        ensures
            verdict == classify_path(path@, map_width as int, map_height as int),
    {
        if Self::is_island_not_exterior(path, map_width, map_height) {
            BoundaryAnalysisResult::Island
        } else {
            BoundaryAnalysisResult::ExteriorWall
        }
    }
}

} // verus!
