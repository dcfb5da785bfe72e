use multiagent_explore::robot_node::wall_following::{RotationTracker, WallFollower};
use multiagent_explore::map_loader::parse_map;
use multiagent_explore::robot_node::RobotNode;
use multiagent_explore::sample_runs::{box_map, corridor_map, island_map};
use multiagent_explore::simulation_manager::{PlacementError, SimulationManager};
use multiagent_explore::types::{
    CellState, GridMap, Orientation, Point, Pose, RobotPhase, RobotState,
};
use std::collections::HashSet;

/// Builds a map from rows of `#`, `.` and anything else for unexplored.
fn create_test_map(ascii_grid: &[&str]) -> GridMap {
    let height = ascii_grid.len();
    let width = ascii_grid[0].len();
    let mut map_cells = vec![CellState::Empty; width * height];
    for (y, row) in ascii_grid.iter().enumerate() {
        for (x, ch) in row.chars().enumerate() {
            let idx = y * width + x;
            map_cells[idx] = match ch {
                '#' => CellState::Obstacle,
                '.' => CellState::Empty,
                _ => CellState::Unexplored,
            };
        }
    }
    GridMap { width, height, cells: map_cells }
}

/// An agent that knows nothing yet, facing north and looking for its wall.
fn create_test_robot_state(id: u8, position: Point, partner_id: u8, map: &GridMap) -> RobotState {
    RobotState {
        id,
        pose: Pose { position, orientation: Orientation::North },
        phase: RobotPhase::InitialWallFind,
        map: GridMap {
            width: map.width,
            height: map.height,
            cells: vec![CellState::Unexplored; map.width * map.height],
        },
        scout_depth_n: 3,
        partner_id,
        boundary_scout: None,
    }
}

/// Sense, exchange and act, spelled out on the agents.
fn manual_tick(sim: &mut SimulationManager) -> usize {
    for robot in &mut sim.robots {
        robot.update_local_map(&sim.map);
    }
    let mut communication_events = 0;
    let robots_snapshot = sim.robots.clone();
    for robot in &mut sim.robots {
        for other in &robots_snapshot {
            if other.state.id != robot.state.id
                && RobotNode::within_comm_range(&robot.state.pose.position, &other.state.pose.position)
            {
                communication_events += 1;
                robot.merge_map(&other.state.map);
            }
        }
    }
    let robots_snapshot = sim.robots.clone();
    for robot in &mut sim.robots {
        robot.tick(&robots_snapshot, &sim.map);
    }
    communication_events
}

#[test]
fn test_simple_corridor_exploration() {
    let map = create_test_map(&["############", "#..........#", "#..........#", "############"]);

    let robot_states = vec![
        create_test_robot_state(0, Point { x: 1, y: 1 }, 1, &map),
        create_test_robot_state(1, Point { x: 2, y: 1 }, 0, &map),
    ];

    let mut sim = SimulationManager::new(map, robot_states);

    let mut boundary_phase_reached = false;
    for _tick in 0..100 {
        manual_tick(&mut sim);
        if sim.robots.iter().any(|r| r.state.phase == RobotPhase::BoundaryAnalysis) {
            boundary_phase_reached = true;
            break;
        }
    }

    assert!(boundary_phase_reached, "Robots should reach boundary analysis phase");

    for robot in &sim.robots {
        let explored_cells =
            robot.state.map.cells.iter().filter(|&&cell| cell != CellState::Unexplored).count();
        assert!(
            explored_cells > 10,
            "Robot {} should have explored significant area",
            robot.state.id
        );
    }
}

#[test]
fn test_island_detection() {
    let map = create_test_map(&[
        "##########",
        "#........#",
        "#...##...#",
        "#...##...#",
        "#........#",
        "##########",
    ]);

    let robot_states = vec![
        create_test_robot_state(0, Point { x: 1, y: 1 }, 1, &map),
        create_test_robot_state(1, Point { x: 2, y: 1 }, 0, &map),
    ];

    let mut sim = SimulationManager::new(map, robot_states);

    for _tick in 0..200 {
        manual_tick(&mut sim);

        let any_boundary_analysis =
            sim.robots.iter().any(|r| r.state.phase == RobotPhase::BoundaryAnalysis);
        let any_island_escape = sim.robots.iter().any(|r| r.state.phase == RobotPhase::IslandEscape);

        if any_boundary_analysis || any_island_escape {
            return;
        }
    }

    assert!(
        sim.robots.iter().any(|r| r.state.phase != RobotPhase::InitialWallFind),
        "Robots should progress beyond initial wall finding"
    );
}

#[test]
fn test_communication_during_scouting() {
    let map = create_test_map(&["########", "#......#", "#......#", "#......#", "########"]);

    let robot_states = vec![
        create_test_robot_state(0, Point { x: 1, y: 1 }, 1, &map),
        create_test_robot_state(1, Point { x: 2, y: 1 }, 0, &map),
    ];

    let mut sim = SimulationManager::new(map, robot_states);
    let mut communication_events = 0;

    for _tick in 0..50 {
        communication_events += manual_tick(&mut sim);
    }

    assert!(
        communication_events > 0,
        "Robots should have opportunities to communicate during exploration"
    );
}

#[test]
fn test_exploration_coverage() {
    let map = create_test_map(&["######", "#....#", "#....#", "######"]);

    let robot_states = vec![
        create_test_robot_state(0, Point { x: 1, y: 1 }, 1, &map),
        create_test_robot_state(1, Point { x: 2, y: 1 }, 0, &map),
    ];

    let mut sim = SimulationManager::new(map.clone(), robot_states);

    for _tick in 0..150 {
        manual_tick(&mut sim);
    }

    let map_cells = &map.cells;
    let map_width = map.width;
    let total_empty_cells: HashSet<_> = (0..map.height)
        .flat_map(|y| {
            (0..map_width).filter_map(move |x| {
                let idx = y * map_width + x;
                if map_cells[idx] == CellState::Empty {
                    Some((x, y))
                } else {
                    None
                }
            })
        })
        .collect();

    let max_coverage = sim
        .robots
        .iter()
        .map(|robot| robot.state.map.cells.iter().filter(|&&cell| cell == CellState::Empty).count())
        .max()
        .unwrap_or(0);

    assert!(
        max_coverage >= total_empty_cells.len() / 2,
        "Robots should achieve reasonable exploration coverage"
    );
}

fn phases(sim: &SimulationManager) -> Vec<RobotPhase> {
    sim.robots.iter().map(|r| r.state.phase).collect()
}

fn positions(sim: &SimulationManager) -> Vec<Point> {
    sim.robots.iter().map(|r| r.state.pose.position).collect()
}

/// Whether an empty cell of the ground truth touches `(x, y)`.
fn touches_empty(map: &GridMap, x: usize, y: usize) -> bool {
    let mut around = Vec::new();
    if x > 0 {
        around.push((x - 1, y));
    }
    if y > 0 {
        around.push((x, y - 1));
    }
    if x + 1 < map.width {
        around.push((x + 1, y));
    }
    if y + 1 < map.height {
        around.push((x, y + 1));
    }
    around.iter().any(|&(ax, ay)| map.cells[ay * map.width + ax] == CellState::Empty)
}

#[test]
fn starting_state_knows_its_surroundings() {
    let map = create_test_map(&["######", "#....#", "#....#", "######"]);
    let sim = SimulationManager::with_start_positions(map, Point { x: 1, y: 1 }, Point { x: 2, y: 1 });
    assert_eq!(sim.tick_count, 0);
    assert!(sim.history.is_empty());
    assert_eq!(sim.robots.len(), 2);
    let first = &sim.robots[0].state;
    let second = &sim.robots[1].state;
    assert_eq!((first.id, first.partner_id), (0, 1));
    assert_eq!((second.id, second.partner_id), (1, 0));
    assert_eq!(first.pose, Pose { position: Point { x: 1, y: 1 }, orientation: Orientation::North });
    assert_eq!(second.pose, Pose { position: Point { x: 2, y: 1 }, orientation: Orientation::North });
    assert_eq!(first.phase, RobotPhase::InitialWallFind);
    assert_eq!(first.scout_depth_n, 3);
    assert!(first.boundary_scout.is_none());
    let rows: Vec<String> =
        sim.robots[0].render_map().iter().map(|row| row.iter().collect()).collect();
    assert_eq!(rows, vec![" #    ", "#R.   ", " .    ", "      "]);
    let rows: Vec<String> =
        sim.robots[1].render_map().iter().map(|row| row.iter().collect()).collect();
    assert_eq!(rows, vec!["  #   ", " .R.  ", "  .   ", "      "]);
}

#[test]
fn single_step_sensing_knows_five_cells() {
    let mut rows = vec!["###########".to_string()];
    for _ in 0..9 {
        rows.push("#.........#".to_string());
    }
    rows.push("###########".to_string());
    let row_refs: Vec<&str> = rows.iter().map(|r| r.as_str()).collect();
    let map = create_test_map(&row_refs);
    let mut robot = RobotNode::new(create_test_robot_state(0, Point { x: 5, y: 5 }, 1, &map));
    robot.update_local_map(&map);
    let known: Vec<usize> = robot
        .state
        .map
        .cells
        .iter()
        .enumerate()
        .filter(|(_, &c)| c != CellState::Unexplored)
        .map(|(i, _)| i)
        .collect();
    assert_eq!(known, vec![4 * 11 + 5, 5 * 11 + 4, 5 * 11 + 5, 5 * 11 + 6, 6 * 11 + 5]);
    assert!(known.iter().all(|&i| robot.state.map.cells[i] == CellState::Empty));
}

#[test]
fn sensing_in_a_corner_skips_cells_off_the_map() {
    let map = create_test_map(&[".#", ".."]);
    let mut robot = RobotNode::new(create_test_robot_state(0, Point { x: 0, y: 0 }, 1, &map));
    robot.update_local_map(&map);
    assert_eq!(
        robot.state.map.cells,
        vec![CellState::Empty, CellState::Obstacle, CellState::Empty, CellState::Unexplored]
    );
    assert_eq!(robot.sense_front(), (Point { x: 0, y: -1 }, Some(CellState::Obstacle)));
    assert_eq!(
        robot.sense_neighbors(),
        [
            (Point { x: 0, y: -1 }, Some(CellState::Obstacle)),
            (Point { x: 0, y: 1 }, Some(CellState::Empty)),
            (Point { x: 1, y: 0 }, Some(CellState::Obstacle)),
            (Point { x: -1, y: 0 }, Some(CellState::Obstacle)),
        ]
    );
}

#[test]
fn pairwise_merge_gives_both_agents_the_union() {
    let map = create_test_map(&[".#"]);
    let mut a = RobotNode::new(create_test_robot_state(0, Point { x: 0, y: 0 }, 1, &map));
    let mut b = RobotNode::new(create_test_robot_state(1, Point { x: 0, y: 0 }, 0, &map));
    a.state.map.cells = vec![CellState::Empty, CellState::Unexplored];
    b.state.map.cells = vec![CellState::Unexplored, CellState::Obstacle];
    let mut sim = SimulationManager {
        map,
        robots: vec![a, b],
        tick_count: 0,
        history: Vec::new(),
    };
    sim.exchange_maps();
    assert_eq!(sim.robots[0].state.map.cells, vec![CellState::Empty, CellState::Obstacle]);
    assert_eq!(sim.robots[1].state.map.cells, vec![CellState::Empty, CellState::Obstacle]);
}

#[test]
fn exchange_happens_within_range_only() {
    let map = create_test_map(&["....."]);
    for (distance, expected) in [(2, CellState::Empty), (3, CellState::Unexplored)] {
        let mut a = RobotNode::new(create_test_robot_state(0, Point { x: 0, y: 0 }, 1, &map));
        let mut b = RobotNode::new(create_test_robot_state(1, Point { x: distance, y: 0 }, 0, &map));
        a.state.map.cells[4] = CellState::Empty;
        b.state.map.cells[0] = CellState::Obstacle;
        let mut sim = SimulationManager {
            map: map.clone(),
            robots: vec![a, b],
            tick_count: 0,
            history: Vec::new(),
        };
        sim.exchange_maps();
        assert_eq!(sim.robots[1].state.map.cells[4], expected);
        assert_eq!(
            sim.robots[0].state.map.cells[0],
            if distance == 2 { CellState::Obstacle } else { CellState::Unexplored }
        );
    }
}

#[test]
fn sample_rooms_are_the_rooms_of_the_texts() {
    let the_box = parse_map("######\n#....#\n#....#\n######".as_bytes()).unwrap();
    assert_eq!((box_map().width, box_map().height), (6, 4));
    assert_eq!(box_map().cells, the_box.cells);
    let island = parse_map(
        "##########\n#........#\n#...##...#\n#...##...#\n#........#\n##########".as_bytes(),
    )
    .unwrap();
    assert_eq!((island_map().width, island_map().height), (10, 6));
    assert_eq!(island_map().cells, island.cells);
    let corridor =
        parse_map("############\n#..........#\n#..........#\n############".as_bytes()).unwrap();
    assert_eq!((corridor_map().width, corridor_map().height), (12, 4));
    assert_eq!(corridor_map().cells, corridor.cells);
}

#[test]
fn island_room_run_reaches_analysis_in_three_ticks() {
    let mut sim =
        SimulationManager::with_start_positions(island_map(), Point { x: 1, y: 1 }, Point { x: 2, y: 1 });
    sim.step();
    sim.step();
    assert!(sim.robots.iter().all(|r| r.state.phase == RobotPhase::BoundaryScouting));
    sim.step();
    assert_eq!(phases(&sim), vec![RobotPhase::BoundaryScouting, RobotPhase::BoundaryAnalysis]);
}

#[test]
fn empty_box_run() {
    let truth = create_test_map(&["######", "#....#", "#....#", "######"]);
    let mut sim =
        SimulationManager::with_start_positions(truth.clone(), Point { x: 1, y: 1 }, Point { x: 2, y: 1 });
    let mut first_analysis = [None, None];
    while !sim.is_finished() {
        sim.step();
        for (i, robot) in sim.robots.iter().enumerate() {
            if robot.state.phase == RobotPhase::BoundaryAnalysis && first_analysis[i].is_none() {
                first_analysis[i] = Some(sim.tick_count);
            }
        }
    }
    // Both agents reach boundary analysis and stay there until the tick cap:
    // both left along the same wall, so their rotation totals are equal.
    assert_eq!(first_analysis, [Some(11), Some(3)]);
    assert_eq!(sim.tick_count, 500);
    assert_eq!(phases(&sim), vec![RobotPhase::BoundaryAnalysis, RobotPhase::BoundaryAnalysis]);
    assert_eq!(positions(&sim), vec![Point { x: 3, y: 1 }, Point { x: 4, y: 1 }]);
    for robot in &sim.robots {
        assert_eq!(robot.state.boundary_scout.as_ref().unwrap().total_rotation_steps, 0);
        // No agent ever left the map or stood on an obstacle.
        let p = robot.state.pose.position;
        assert!(truth.in_bounds(p.x, p.y));
        assert_eq!(truth.at(p.x, p.y), CellState::Empty);
        // What an agent knows is what the ground truth holds.
        for (i, &cell) in robot.state.map.cells.iter().enumerate() {
            assert!(cell == CellState::Unexplored || cell == truth.cells[i]);
        }
    }
    assert_eq!(sim.history.len(), 500);
    let rows: Vec<String> =
        sim.robots[0].render_map().iter().map(|row| row.iter().collect()).collect();
    assert_eq!(rows, vec![" #### ", "#..R.#", " .... ", "      "]);
}

#[test]
fn corridor_run_closes_the_exterior_wall() {
    let truth = create_test_map(&["############", "#..........#", "#..........#", "############"]);
    let mut sim =
        SimulationManager::with_start_positions(truth.clone(), Point { x: 5, y: 1 }, Point { x: 6, y: 1 });
    let mut trace = Vec::new();
    let mut known_before: Vec<Vec<CellState>> =
        sim.robots.iter().map(|r| r.state.map.cells.clone()).collect();
    while !sim.is_finished() {
        sim.step();
        trace.push(phases(&sim));
        for (robot, before) in sim.robots.iter().zip(known_before.iter()) {
            // Map monotonicity: what was known stays as it was.
            for (now, then) in robot.state.map.cells.iter().zip(before.iter()) {
                assert!(*then == CellState::Unexplored || now == then);
            }
            let p = robot.state.pose.position;
            assert!(truth.in_bounds(p.x, p.y));
            assert_ne!(truth.at(p.x, p.y), CellState::Obstacle);
            assert!([0, 90, 180, -90].contains(&robot.state.pose.orientation.degrees()));
            // On the way out, the rotation total follows the heading.
            if let Some(scout) = &robot.state.boundary_scout {
                if !scout.first_move && !scout.returning {
                    let first = WallFollower::update_orientation(scout.path[0], scout.path[1]);
                    let turned = RotationTracker::orientation_to_step(robot.state.pose.orientation)
                        - RotationTracker::orientation_to_step(first);
                    assert_eq!((scout.total_rotation_steps - turned).rem_euclid(4), 0);
                }
            }
        }
        known_before = sim.robots.iter().map(|r| r.state.map.cells.clone()).collect();
    }
    assert_eq!(sim.tick_count, 34);
    assert_eq!(trace.len(), 34);
    let analysis = vec![RobotPhase::BoundaryAnalysis, RobotPhase::BoundaryAnalysis];
    let sweep = vec![RobotPhase::InteriorSweep, RobotPhase::InteriorSweep];
    let idle = vec![RobotPhase::Idle, RobotPhase::Idle];
    assert_eq!(trace[31], analysis);
    assert_eq!(trace[32], sweep);
    assert_eq!(trace[33], idle);
    assert!(trace[..31].iter().all(|p| !p.contains(&RobotPhase::BoundaryAnalysis)));
    assert_eq!(positions(&sim), vec![Point { x: 5, y: 2 }, Point { x: 6, y: 2 }]);
    assert_eq!(sim.robots[0].state.boundary_scout.as_ref().unwrap().total_rotation_steps, -2);
    assert_eq!(sim.robots[1].state.boundary_scout.as_ref().unwrap().total_rotation_steps, 2);
    // Each agent knows every empty cell and every obstacle that touches one.
    for robot in &sim.robots {
        for y in 0..truth.height {
            for x in 0..truth.width {
                let i = y * truth.width + x;
                let expected = if truth.cells[i] == CellState::Empty || touches_empty(&truth, x, y) {
                    truth.cells[i]
                } else {
                    CellState::Unexplored
                };
                assert_eq!(robot.state.map.cells[i], expected);
            }
        }
    }
    // The history holds the agents as they were before each act.
    assert_eq!(sim.history.len(), 34);
    assert_eq!(sim.history[0][0].state.pose.position, Point { x: 5, y: 1 });
    assert_eq!(sim.history[33][0].state.phase, RobotPhase::InteriorSweep);
}

#[test]
fn rotation_totals_can_differ_by_two() {
    let truth = create_test_map(&["#######", "#.##..#", "#.....#", "#.....#", "#.....#", "#######"]);
    let mut sim =
        SimulationManager::with_start_positions(truth, Point { x: 4, y: 1 }, Point { x: 5, y: 1 });
    assert!(sim.is_well_formed());
    while !sim.is_finished()
        && !sim.robots.iter().all(|r| r.state.phase == RobotPhase::BoundaryAnalysis)
    {
        sim.step();
    }
    assert_eq!(sim.tick_count, 3);
    assert_eq!(positions(&sim), vec![Point { x: 5, y: 2 }, Point { x: 4, y: 2 }]);
    assert_eq!(sim.robots[0].state.boundary_scout.as_ref().unwrap().total_rotation_steps, 1);
    assert_eq!(sim.robots[1].state.boundary_scout.as_ref().unwrap().total_rotation_steps, -1);
    // A difference of two decides nothing: both stay in analysis.
    sim.step();
    assert_eq!(phases(&sim), vec![RobotPhase::BoundaryAnalysis, RobotPhase::BoundaryAnalysis]);
}

#[test]
fn well_formedness_is_checked() {
    let truth = create_test_map(&["#####", "#...#", "#####"]);
    let good = SimulationManager::new(
        truth.clone(),
        vec![
            create_test_robot_state(0, Point { x: 1, y: 1 }, 1, &truth),
            create_test_robot_state(1, Point { x: 2, y: 1 }, 0, &truth),
        ],
    );
    assert!(good.is_well_formed());
    assert_eq!(good.robots.len(), 2);
    assert_eq!(good.robots[1].state.pose.position, Point { x: 2, y: 1 });
    let lonely = SimulationManager::new(
        truth.clone(),
        vec![create_test_robot_state(0, Point { x: 1, y: 1 }, 1, &truth)],
    );
    assert!(!lonely.is_well_formed());
    let off_map = SimulationManager::new(
        truth.clone(),
        vec![
            create_test_robot_state(0, Point { x: 5, y: 1 }, 1, &truth),
            create_test_robot_state(1, Point { x: 2, y: 1 }, 0, &truth),
        ],
    );
    assert!(!off_map.is_well_formed());
    let other_shape = create_test_map(&["....", "...."]);
    let mismatched = SimulationManager::new(
        truth,
        vec![
            create_test_robot_state(0, Point { x: 1, y: 1 }, 1, &other_shape),
            create_test_robot_state(1, Point { x: 2, y: 1 }, 0, &other_shape),
        ],
    );
    assert!(!mismatched.is_well_formed());
}

#[test]
fn run_is_the_same_as_stepping() {
    let truth = create_test_map(&["############", "#..........#", "#..........#", "############"]);
    let mut stepped =
        SimulationManager::with_start_positions(truth.clone(), Point { x: 5, y: 1 }, Point { x: 6, y: 1 });
    while !stepped.is_finished() {
        stepped.step();
    }
    let mut ran = SimulationManager::with_start_positions(truth, Point { x: 5, y: 1 }, Point { x: 6, y: 1 });
    assert!(ran.has_headroom());
    assert!(ran.run());
    assert!(ran.all_idle());
    assert_eq!(ran.tick_count, stepped.tick_count);
    assert_eq!(positions(&ran), positions(&stepped));
    assert_eq!(ran.render_all_maps(), stepped.render_all_maps());
    // A finished simulation does not move.
    assert!(ran.run());
    assert_eq!(ran.tick_count, 34);
}

#[test]
fn run_stops_when_a_counter_has_no_room() {
    let truth = create_test_map(&["#####", "#...#", "#####"]);
    let mut sim = SimulationManager::with_start_positions(truth, Point { x: 1, y: 1 }, Point { x: 2, y: 1 });
    sim.robots[0].state.scout_depth_n = u32::MAX;
    assert!(!sim.has_headroom());
    assert!(!sim.run());
    assert_eq!(sim.tick_count, 0);
}

#[test]
fn leg_doubling_in_the_corridor() {
    let truth = create_test_map(&["############", "#..........#", "#..........#", "############"]);
    let mut sim = SimulationManager::with_start_positions(truth, Point { x: 5, y: 1 }, Point { x: 6, y: 1 });
    let mut depths = Vec::new();
    for _ in 0..23 {
        sim.step();
        depths.push(sim.robots[0].state.scout_depth_n);
        assert_eq!(sim.robots[1].state.scout_depth_n, sim.robots[0].state.scout_depth_n);
    }
    // One tick to see the wall, three steps out, one to turn, three back, one to
    // start the next leg: the first leg ends with tick 9, the second with tick 23.
    assert!(depths[..8].iter().all(|&n| n == 3));
    assert!(depths[8..22].iter().all(|&n| n == 6));
    assert_eq!(depths[22], 12);
    // Leg symmetry: both are back where the leg began.
    assert_eq!(positions(&sim), vec![Point { x: 5, y: 1 }, Point { x: 6, y: 1 }]);
    for robot in &sim.robots {
        let scout = robot.state.boundary_scout.as_ref().unwrap();
        assert_eq!(scout.path, vec![robot.state.pose.position]);
        assert!(scout.first_move);
        assert!(!scout.returning);
    }
}

#[test]
fn island_run() {
    let truth = create_test_map(&[
        "##########",
        "#........#",
        "#...##...#",
        "#...##...#",
        "#........#",
        "##########",
    ]);
    let mut sim =
        SimulationManager::with_start_positions(truth, Point { x: 1, y: 1 }, Point { x: 2, y: 1 });
    let mut saw_analysis = false;
    while !sim.is_finished() {
        sim.step();
        saw_analysis = saw_analysis
            || sim.robots.iter().any(|r| {
                r.state.phase == RobotPhase::BoundaryAnalysis || r.state.phase == RobotPhase::IslandEscape
            });
        assert!(saw_analysis || sim.robots.iter().all(|r| r.state.phase != RobotPhase::Idle));
    }
    assert!(saw_analysis);
    assert_eq!(sim.tick_count, 500);
    assert!(sim.robots.iter().all(|r| r.state.phase != RobotPhase::Idle));
}

#[test]
fn start_candidates_are_interior_pairs() {
    let map = create_test_map(&[".....", "..#..", ".....", "....."]);
    // Rows 1 and 2 only; the left cell in columns 1 and 2 only.
    assert_eq!(
        SimulationManager::start_candidates(&map),
        vec![Point { x: 1, y: 2 }, Point { x: 2, y: 2 }]
    );
    let narrow = create_test_map(&["...", "...", "..."]);
    assert!(SimulationManager::start_candidates(&narrow).is_empty());
}

#[test]
fn random_start_is_one_of_the_candidates() {
    let map = create_test_map(&["######", "#....#", "#.#..#", "######"]);
    let candidates = SimulationManager::start_candidates(&map);
    assert_eq!(
        candidates,
        vec![Point { x: 1, y: 1 }, Point { x: 2, y: 1 }, Point { x: 3, y: 1 }, Point { x: 3, y: 2 }]
    );
    let mut seen = HashSet::new();
    for seed in 0..64 {
        let sim = SimulationManager::from_map(map.clone(), seed).unwrap();
        let left = sim.robots[0].state.pose.position;
        let right = sim.robots[1].state.pose.position;
        assert!(candidates.contains(&left));
        assert_eq!(right, Point { x: left.x + 1, y: left.y });
        assert_eq!(sim.robots[0].state.map.at(left.x, left.y), CellState::Empty);
        seen.insert(left);
        // The same seed gives the same start.
        let again = SimulationManager::from_map(map.clone(), seed).unwrap();
        assert_eq!(again.robots[0].state.pose.position, left);
    }
    assert!(seen.len() > 1);
}

#[test]
fn no_start_position_is_an_error() {
    let map = create_test_map(&["#####", "#.#.#", "#####"]);
    let outcome = SimulationManager::from_map(map, 42);
    assert_eq!(outcome.err(), Some(PlacementError));
    assert_eq!(
        PlacementError.message(),
        "No valid adjacent left-right empty start positions found"
    );
}
