use multiagent_explore::constants::{LEFT_HAND_RULE, RIGHT_HAND_RULE, ROBOT_LEFT_HAND, ROBOT_RIGHT_HAND};
use multiagent_explore::robot_node::boundary_analysis::BoundaryAnalyzer;
use multiagent_explore::robot_node::phases::BoundaryAnalysisPhase;
use multiagent_explore::robot_node::wall_following::{RotationTracker, WallFollower};
use multiagent_explore::robot_node::RobotNode;
use multiagent_explore::types::{
    BoundaryAnalysisResult, BoundaryScoutState, CellState, GridMap, Orientation, Point, Pose,
    RobotPhase, RobotState,
};
use std::f64::consts::PI;

/// Builds a map from rows of `#`, `.` and anything else for unexplored.
fn create_test_map(ascii_grid: &[&str]) -> GridMap {
    let height = ascii_grid.len();
    let width = ascii_grid[0].len();
    let mut map_cells = vec![CellState::Empty; width * height];
    for (y, row) in ascii_grid.iter().enumerate() {
        for (x, ch) in row.chars().enumerate() {
            let idx = y * width + x;
            map_cells[idx] = match ch {
                '#' => CellState::Obstacle,
                '.' => CellState::Empty,
                _ => CellState::Unexplored,
            };
        }
    }
    GridMap { width, height, cells: map_cells }
}

/// The heading that an angle in radians stands for.
fn facing(rad: f64) -> Orientation {
    match rad.rem_euclid(2.0 * PI).to_degrees().round() as i32 {
        0 | 360 => Orientation::East,
        90 => Orientation::South,
        180 => Orientation::West,
        _ => Orientation::North,
    }
}

/// The angle in radians that a heading stands for.
fn radians(heading: Orientation) -> f64 {
    match heading {
        Orientation::East => 0.0,
        Orientation::South => PI / 2.0,
        Orientation::West => PI,
        Orientation::North => -PI / 2.0,
    }
}

fn scout(tracing_direction: i8, start: Point, first_move: bool, total_rotation_steps: i32) -> BoundaryScoutState {
    BoundaryScoutState {
        tracing_direction,
        steps_taken: 0,
        steps_taken_this_scouting_mission: 0,
        returning: false,
        path: vec![start],
        first_move,
        initial_scouting_direction: None,
        total_rotation_steps,
    }
}

#[test]
fn test_robot0_wall_follow_left_hand_simple_wall() {
    let map = create_test_map(&["###", "#..", "###"]);

    let robot0_state = RobotState {
        id: 0,
        pose: Pose { position: Point { x: 1, y: 1 }, orientation: facing(-PI / 2.0) },
        phase: RobotPhase::BoundaryScouting,
        map: map.clone(),
        scout_depth_n: 10,
        partner_id: 1,
        boundary_scout: Some(scout(LEFT_HAND_RULE, Point { x: 1, y: 1 }, true, 0)),
    };
    let mut robot0 = RobotNode::new(robot0_state);

    // Facing north with the wall on the left: right (east) comes first.
    let next_pos = WallFollower::wall_follow_step(
        robot0.state.pose.position,
        robot0.state.pose.orientation,
        &map,
        LEFT_HAND_RULE,
    )
    .unwrap();
    assert_eq!(next_pos, Point { x: 2, y: 1 });
    let prev_pos = robot0.state.pose.position;
    robot0.state.pose.orientation = WallFollower::update_orientation(prev_pos, next_pos);
    robot0.state.pose.position = next_pos;
    assert_eq!(radians(robot0.state.pose.orientation).to_degrees().round() as i32, 0);

    // Facing east at the end of the corridor: only the way back is open.
    let next_pos = WallFollower::wall_follow_step(
        robot0.state.pose.position,
        robot0.state.pose.orientation,
        &map,
        LEFT_HAND_RULE,
    )
    .unwrap();
    assert_eq!(next_pos, Point { x: 1, y: 1 });
    let prev_pos = robot0.state.pose.position;
    robot0.state.pose.orientation = WallFollower::update_orientation(prev_pos, next_pos);
    robot0.state.pose.position = next_pos;
    assert_eq!(radians(robot0.state.pose.orientation).to_degrees().round() as i32, 180);
}

#[test]
fn test_robot1_wall_follow_right_hand_simple_wall() {
    let map = create_test_map(&["###", "..#", "###"]);

    let robot1_state = RobotState {
        id: 1,
        pose: Pose { position: Point { x: 1, y: 1 }, orientation: facing(-PI / 2.0) },
        phase: RobotPhase::BoundaryScouting,
        map: map.clone(),
        scout_depth_n: 10,
        partner_id: 0,
        boundary_scout: Some(scout(RIGHT_HAND_RULE, Point { x: 1, y: 1 }, true, 0)),
    };
    let mut robot1 = RobotNode::new(robot1_state);

    // Facing north with the wall on the right: left (west) comes first.
    let next_pos = WallFollower::wall_follow_step(
        robot1.state.pose.position,
        robot1.state.pose.orientation,
        &map,
        RIGHT_HAND_RULE,
    )
    .unwrap();
    assert_eq!(next_pos, Point { x: 0, y: 1 });
    let prev_pos = robot1.state.pose.position;
    robot1.state.pose.orientation = WallFollower::update_orientation(prev_pos, next_pos);
    robot1.state.pose.position = next_pos;
    assert_eq!(radians(robot1.state.pose.orientation).to_degrees().round() as i32, 180);

    // Facing west at the border: only the way back is open.
    let next_pos = WallFollower::wall_follow_step(
        robot1.state.pose.position,
        robot1.state.pose.orientation,
        &map,
        RIGHT_HAND_RULE,
    )
    .unwrap();
    assert_eq!(next_pos, Point { x: 1, y: 1 });
    let prev_pos = robot1.state.pose.position;
    robot1.state.pose.orientation = WallFollower::update_orientation(prev_pos, next_pos);
    robot1.state.pose.position = next_pos;
    assert_eq!(radians(robot1.state.pose.orientation).to_degrees().round() as i32, 0);
}

#[test]
fn robot_node_test_robot0_wall_follow_left_hand_simple_wall() {
    let map = create_test_map(&["###", "#..", "###"]);

    let robot0_state = RobotState {
        id: 0,
        pose: Pose { position: Point { x: 1, y: 1 }, orientation: facing(-PI / 2.0) },
        phase: RobotPhase::BoundaryScouting,
        map: map.clone(),
        scout_depth_n: 10,
        partner_id: 1,
        boundary_scout: Some(scout(-1, Point { x: 1, y: 1 }, true, 0)),
    };
    let mut robot0 = RobotNode { state: robot0_state };

    let next_pos = robot0.wall_follow_step(&map, -1).unwrap();
    assert_eq!(next_pos, Point { x: 2, y: 1 });
    robot0.update_orientation(Point { x: 1, y: 1 }, next_pos);
    robot0.state.pose.position = next_pos;
    assert_eq!(radians(robot0.state.pose.orientation).to_degrees().round() as i32, 0);

    let next_pos = robot0.wall_follow_step(&map, -1).unwrap();
    assert_eq!(next_pos, Point { x: 1, y: 1 });
    robot0.update_orientation(Point { x: 2, y: 1 }, next_pos);
    robot0.state.pose.position = next_pos;
    assert_eq!(radians(robot0.state.pose.orientation).to_degrees().round() as i32, 180);
}

#[test]
fn robot_node_test_robot1_wall_follow_right_hand_simple_wall() {
    let map = create_test_map(&["###", "..#", "###"]);

    let robot1_state = RobotState {
        id: 1,
        pose: Pose { position: Point { x: 1, y: 1 }, orientation: facing(-PI / 2.0) },
        phase: RobotPhase::BoundaryScouting,
        map: map.clone(),
        scout_depth_n: 10,
        partner_id: 0,
        boundary_scout: Some(scout(1, Point { x: 1, y: 1 }, true, 0)),
    };
    let mut robot1 = RobotNode { state: robot1_state };

    let next_pos = robot1.wall_follow_step(&map, 1).unwrap();
    assert_eq!(next_pos, Point { x: 0, y: 1 });
    robot1.update_orientation(Point { x: 1, y: 1 }, next_pos);
    robot1.state.pose.position = next_pos;
    assert_eq!(radians(robot1.state.pose.orientation).to_degrees().round() as i32, 180);

    let next_pos = robot1.wall_follow_step(&map, 1).unwrap();
    assert_eq!(next_pos, Point { x: 1, y: 1 });
    robot1.update_orientation(Point { x: 0, y: 1 }, next_pos);
    robot1.state.pose.position = next_pos;
    assert_eq!(radians(robot1.state.pose.orientation).to_degrees().round() as i32, 0);
}

#[test]
fn test_boundary_analysis_island_detection() {
    let island_path = vec![
        Point { x: 5, y: 5 },
        Point { x: 6, y: 5 },
        Point { x: 6, y: 6 },
        Point { x: 5, y: 6 },
        Point { x: 5, y: 5 },
    ];

    let map_width = 20;
    let map_height = 20;
    assert!(RobotNode::is_boundary_closed_loop(&island_path));
    assert!(RobotNode::is_island_not_exterior(&island_path, map_width, map_height));

    let exterior_path = vec![
        Point { x: 0, y: 5 },
        Point { x: 0, y: 6 },
        Point { x: 1, y: 6 },
        Point { x: 1, y: 5 },
        Point { x: 0, y: 5 },
    ];

    assert!(RobotNode::is_boundary_closed_loop(&exterior_path));
    assert!(!RobotNode::is_island_not_exterior(&exterior_path, map_width, map_height));

    let open_path = vec![Point { x: 5, y: 5 }, Point { x: 6, y: 5 }, Point { x: 6, y: 6 }];

    assert!(!RobotNode::is_boundary_closed_loop(&open_path));
}

#[test]
fn test_boundary_analysis_edge_cases() {
    let map_width = 10;
    let map_height = 10;

    let right_boundary_path = vec![
        Point { x: 9, y: 3 },
        Point { x: 9, y: 4 },
        Point { x: 8, y: 4 },
        Point { x: 8, y: 3 },
        Point { x: 9, y: 3 },
    ];

    assert!(RobotNode::is_boundary_closed_loop(&right_boundary_path));
    assert!(!RobotNode::is_island_not_exterior(&right_boundary_path, map_width, map_height));

    let bottom_boundary_path = vec![
        Point { x: 3, y: 9 },
        Point { x: 4, y: 9 },
        Point { x: 4, y: 8 },
        Point { x: 3, y: 8 },
        Point { x: 3, y: 9 },
    ];

    assert!(RobotNode::is_boundary_closed_loop(&bottom_boundary_path));
    assert!(!RobotNode::is_island_not_exterior(&bottom_boundary_path, map_width, map_height));
}

fn analysis_pair() -> (RobotNode, RobotNode) {
    let robot0_state = RobotState {
        id: ROBOT_LEFT_HAND,
        pose: Pose { position: Point { x: 5, y: 5 }, orientation: facing(0.0) },
        phase: RobotPhase::BoundaryAnalysis,
        map: create_test_map(&["...", "...", "..."]),
        scout_depth_n: 3,
        partner_id: ROBOT_RIGHT_HAND,
        boundary_scout: Some(scout(LEFT_HAND_RULE, Point { x: 5, y: 5 }, false, -2)),
    };
    let robot1_state = RobotState {
        id: ROBOT_RIGHT_HAND,
        pose: Pose { position: Point { x: 6, y: 5 }, orientation: facing(0.0) },
        phase: RobotPhase::BoundaryAnalysis,
        map: create_test_map(&["...", "...", "..."]),
        scout_depth_n: 3,
        partner_id: ROBOT_LEFT_HAND,
        boundary_scout: Some(scout(RIGHT_HAND_RULE, Point { x: 6, y: 5 }, false, 2)),
    };
    (RobotNode::new(robot0_state), RobotNode::new(robot1_state))
}

#[test]
fn test_rotation_based_boundary_analysis() {
    let (_robot0, _robot1) = analysis_pair();

    // -2 - 2 = -4: the exterior wall.
    let result = BoundaryAnalyzer::analyze_boundary_by_rotation(Some(-2), Some(2));
    assert_eq!(result, BoundaryAnalysisResult::ExteriorWall);

    // 2 - (-2) = 4: an island.
    let result = BoundaryAnalyzer::analyze_boundary_by_rotation(Some(2), Some(-2));
    assert_eq!(result, BoundaryAnalysisResult::Island);

    // A missing total decides nothing.
    let result = BoundaryAnalyzer::analyze_boundary_by_rotation(None, Some(2));
    assert_eq!(result, BoundaryAnalysisResult::Incomplete);
}

#[test]
fn robot_node_test_rotation_based_boundary_analysis() {
    let (robot0, robot1) = analysis_pair();

    let analysis_result = BoundaryAnalysisPhase::analyze_boundary_by_rotation(&robot0.state, &robot1);
    assert_eq!(analysis_result, BoundaryAnalysisResult::ExteriorWall);

    let mut robot0_island = robot0.clone();
    let mut robot1_island = robot1.clone();
    robot0_island.state.boundary_scout.as_mut().unwrap().total_rotation_steps = 2;
    robot1_island.state.boundary_scout.as_mut().unwrap().total_rotation_steps = -2;

    let analysis_result =
        BoundaryAnalysisPhase::analyze_boundary_by_rotation(&robot0_island.state, &robot1_island);
    assert_eq!(analysis_result, BoundaryAnalysisResult::Island);
}

#[test]
fn rotation_verdict_is_the_same_from_either_agent() {
    let (robot0, robot1) = analysis_pair();
    assert_eq!(
        BoundaryAnalysisPhase::analyze_boundary_by_rotation(&robot1.state, &robot0),
        BoundaryAnalysisResult::ExteriorWall
    );
}

#[test]
fn rotation_verdict_other_differences_decide_nothing() {
    for (a, b) in [(0, 0), (1, -1), (3, 0), (-8, 0), (i32::MAX, i32::MIN), (i32::MIN, i32::MAX)] {
        assert_eq!(
            BoundaryAnalyzer::analyze_boundary_by_rotation(Some(a), Some(b)),
            BoundaryAnalysisResult::Incomplete
        );
    }
    assert_eq!(
        BoundaryAnalyzer::analyze_boundary_by_rotation(Some(0), None),
        BoundaryAnalysisResult::Incomplete
    );
    assert_eq!(
        BoundaryAnalyzer::analyze_boundary_by_rotation(None, None),
        BoundaryAnalysisResult::Incomplete
    );
    assert_eq!(
        BoundaryAnalyzer::analyze_boundary_by_rotation(Some(-1), Some(3)),
        BoundaryAnalysisResult::ExteriorWall
    );
    assert_eq!(
        BoundaryAnalyzer::analyze_boundary_by_rotation(Some(4), Some(0)),
        BoundaryAnalysisResult::Island
    );
}

#[test]
fn path_verdict() {
    let inner = vec![Point { x: 2, y: 2 }, Point { x: 3, y: 2 }];
    let touching = vec![Point { x: 2, y: 2 }, Point { x: 2, y: 0 }];
    assert_eq!(BoundaryAnalyzer::analyze_boundary_by_path(&inner, 6, 6), BoundaryAnalysisResult::Island);
    assert_eq!(
        BoundaryAnalyzer::analyze_boundary_by_path(&touching, 6, 6),
        BoundaryAnalysisResult::ExteriorWall
    );
    assert_eq!(BoundaryAnalyzer::analyze_boundary_by_path(&[], 6, 6), BoundaryAnalysisResult::Island);
    assert!(!BoundaryAnalyzer::is_boundary_closed_loop(&[]));
    assert!(!BoundaryAnalyzer::is_boundary_closed_loop(&[Point { x: 1, y: 1 }, Point { x: 1, y: 1 }]));
}

#[test]
fn direction_vectors_and_back() {
    let table = [
        (Orientation::East, (1, 0)),
        (Orientation::South, (0, 1)),
        (Orientation::West, (-1, 0)),
        (Orientation::North, (0, -1)),
    ];
    for (heading, step) in table {
        assert_eq!(WallFollower::get_direction_vector(heading), step);
        let origin = Point { x: 4, y: 7 };
        let moved = Point { x: 4 + step.0, y: 7 + step.1 };
        assert_eq!(WallFollower::update_orientation(origin, moved), heading);
    }
    // Anything that is not a step to a neighbour faces north.
    assert_eq!(
        WallFollower::update_orientation(Point { x: 0, y: 0 }, Point { x: 2, y: 0 }),
        Orientation::North
    );
    assert_eq!(
        WallFollower::update_orientation(Point { x: 0, y: 0 }, Point { x: 0, y: 0 }),
        Orientation::North
    );
    assert_eq!(
        WallFollower::update_orientation(Point { x: i32::MIN, y: 0 }, Point { x: i32::MAX, y: 0 }),
        Orientation::North
    );
}

#[test]
fn rotation_steps_table() {
    let order = [Orientation::East, Orientation::South, Orientation::West, Orientation::North];
    let expected = [[0, 1, 2, -1], [-1, 0, 1, 2], [2, -1, 0, 1], [1, 2, -1, 0]];
    for (i, from) in order.iter().enumerate() {
        assert_eq!(RotationTracker::orientation_to_step(*from), i as i32);
        for (j, to) in order.iter().enumerate() {
            assert_eq!(RotationTracker::calculate_rotation_steps(*from, *to), expected[i][j]);
        }
    }
}

#[test]
fn half_turns_have_one_sign() {
    for (a, b) in [(Orientation::East, Orientation::West), (Orientation::South, Orientation::North)] {
        assert_eq!(RotationTracker::calculate_rotation_steps(a, b), 2);
        assert_eq!(RotationTracker::calculate_rotation_steps(b, a), 2);
    }
}

#[test]
fn wall_follow_priorities() {
    // An open plus: every neighbour of the centre is free.
    let map = create_test_map(&["#.#", "...", "#.#"]);
    let centre = Point { x: 1, y: 1 };
    // Left-hand rule tries right first, right-hand rule left first.
    assert_eq!(
        WallFollower::wall_follow_step(centre, Orientation::North, &map, LEFT_HAND_RULE),
        Some(Point { x: 2, y: 1 })
    );
    assert_eq!(
        WallFollower::wall_follow_step(centre, Orientation::North, &map, RIGHT_HAND_RULE),
        Some(Point { x: 0, y: 1 })
    );
    assert_eq!(
        WallFollower::wall_follow_step(centre, Orientation::East, &map, LEFT_HAND_RULE),
        Some(Point { x: 1, y: 2 })
    );
    assert_eq!(
        WallFollower::wall_follow_step(centre, Orientation::East, &map, RIGHT_HAND_RULE),
        Some(Point { x: 1, y: 0 })
    );
    // Side blocked: forward comes second.
    let corridor = create_test_map(&["###", "...", "###"]);
    assert_eq!(
        WallFollower::wall_follow_step(centre, Orientation::East, &corridor, LEFT_HAND_RULE),
        Some(Point { x: 2, y: 1 })
    );
    // All four blocked: no move.
    let cell = create_test_map(&["###", "#.#", "###"]);
    assert_eq!(WallFollower::wall_follow_step(centre, Orientation::East, &cell, LEFT_HAND_RULE), None);
    assert_eq!(WallFollower::wall_follow_step(centre, Orientation::East, &cell, RIGHT_HAND_RULE), None);
    // On the border nothing outside the map is proposed.
    let single = create_test_map(&["."]);
    assert_eq!(
        WallFollower::wall_follow_step(Point { x: 0, y: 0 }, Orientation::North, &single, LEFT_HAND_RULE),
        None
    );
}

#[test]
fn first_move_turns_away_from_partner() {
    let map = create_test_map(&["#####", ".....", "#####"]);
    let here = Point { x: 2, y: 1 };
    // Partner to the east lies on the right of an agent facing north: turn left (west).
    assert_eq!(
        WallFollower::wall_follow_step_first_move(here, Orientation::North, &map, Point { x: 3, y: 1 }),
        Some(Point { x: 1, y: 1 })
    );
    // Partner to the west lies on the left: turn right (east).
    assert_eq!(
        WallFollower::wall_follow_step_first_move(here, Orientation::North, &map, Point { x: 1, y: 1 }),
        Some(Point { x: 3, y: 1 })
    );
    // Partner straight ahead or on the same cell: right is preferred.
    assert_eq!(
        WallFollower::wall_follow_step_first_move(here, Orientation::North, &map, Point { x: 2, y: 0 }),
        Some(Point { x: 3, y: 1 })
    );
    assert_eq!(
        WallFollower::wall_follow_step_first_move(here, Orientation::North, &map, here),
        Some(Point { x: 3, y: 1 })
    );
}

#[test]
fn passable_cells() {
    let map = create_test_map(&["#. "]);
    assert!(!WallFollower::is_position_valid_and_empty(Point { x: 0, y: 0 }, &map));
    assert!(WallFollower::is_position_valid_and_empty(Point { x: 1, y: 0 }, &map));
    assert!(WallFollower::is_position_valid_and_empty(Point { x: 2, y: 0 }, &map));
    assert!(!WallFollower::is_position_valid_and_empty(Point { x: 3, y: 0 }, &map));
    assert!(!WallFollower::is_position_valid_and_empty(Point { x: 0, y: 1 }, &map));
    assert!(!WallFollower::is_position_valid_and_empty(Point { x: -1, y: 0 }, &map));
    assert_eq!(WallFollower::try_step(Point { x: 0, y: 0 }, 1, 0, &map), Some(Point { x: 1, y: 0 }));
    assert_eq!(WallFollower::try_step(Point { x: 1, y: 0 }, -1, 0, &map), None);
    assert_eq!(WallFollower::try_step(Point { x: i32::MAX, y: 0 }, 1, 0, &map), None);
}

#[test]
fn virtual_walls() {
    let map = create_test_map(&["...", "...", "..."]);
    let walls = vec![vec![Point { x: 2, y: 1 }], vec![], vec![Point { x: 1, y: 0 }]];
    assert!(WallFollower::is_virtual_wall(Point { x: 2, y: 1 }, &walls));
    assert!(WallFollower::is_virtual_wall(Point { x: 1, y: 0 }, &walls));
    assert!(!WallFollower::is_virtual_wall(Point { x: 1, y: 1 }, &walls));
    assert!(!WallFollower::is_virtual_wall(Point { x: 1, y: 1 }, &[]));
    assert!(!WallFollower::is_position_valid_and_empty_virtual(Point { x: 2, y: 1 }, &map, &walls));
    assert!(WallFollower::is_position_valid_and_empty_virtual(Point { x: 0, y: 1 }, &map, &walls));
    assert!(!WallFollower::is_position_valid_and_empty_virtual(Point { x: 3, y: 1 }, &map, &walls));
    let centre = Point { x: 1, y: 1 };
    // Facing north, left-hand rule: right (east) is a virtual wall, forward
    // (north) too, so left (west) is taken.
    assert_eq!(
        WallFollower::wall_follow_step_virtual(centre, Orientation::North, &map, &walls, LEFT_HAND_RULE),
        Some(Point { x: 0, y: 1 })
    );
    assert_eq!(
        WallFollower::wall_follow_step_virtual(centre, Orientation::North, &map, &walls, RIGHT_HAND_RULE),
        Some(Point { x: 0, y: 1 })
    );
    assert_eq!(
        WallFollower::wall_follow_step_virtual(centre, Orientation::North, &map, &[], LEFT_HAND_RULE),
        Some(Point { x: 2, y: 1 })
    );
}

#[test]
fn communication_range_is_manhattan_two() {
    let origin = Point { x: 0, y: 0 };
    for (x, y, near) in [
        (0, 0, true),
        (2, 0, true),
        (0, -2, true),
        (1, 1, true),
        (-1, 1, true),
        (3, 0, false),
        (2, 1, false),
        (-2, -1, false),
        (i32::MAX, i32::MIN, false),
    ] {
        assert_eq!(RobotNode::within_comm_range(&origin, &Point { x, y }), near);
        assert_eq!(RobotNode::within_comm_range(&Point { x, y }, &origin), near);
    }
}
