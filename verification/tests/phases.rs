use multiagent_explore::map_manager::find_frontier_cells;
use multiagent_explore::robot_node::phase_trait::{PhaseContext, PhaseTransition, RobotPhaseBehavior};
use multiagent_explore::robot_node::phases::{
    BoundaryAnalysisPhase, BoundaryScoutingPhase, InteriorSweepPhase, IslandEscapePhase, WallFindPhase,
};
use multiagent_explore::robot_node::RobotNode;
use multiagent_explore::types::{
    BoundaryAnalysisResult, BoundaryScoutState, CellState, GridMap, Orientation, Point, Pose,
    RobotPhase, RobotState,
};

fn grid(rows: &[&str]) -> GridMap {
    let height = rows.len();
    let width = rows[0].len();
    let mut cells = Vec::new();
    for row in rows {
        for ch in row.chars() {
            cells.push(match ch {
                '#' => CellState::Obstacle,
                '.' => CellState::Empty,
                _ => CellState::Unexplored,
            });
        }
    }
    GridMap { width, height, cells }
}

fn agent(id: u8, x: i32, y: i32, heading: Orientation, phase: RobotPhase, map: &GridMap) -> RobotNode {
    RobotNode::new(RobotState {
        id,
        pose: Pose { position: Point { x, y }, orientation: heading },
        phase,
        map: map.clone(),
        scout_depth_n: 3,
        partner_id: 1 - id,
        boundary_scout: None,
    })
}

fn scout_on(path: Vec<Point>) -> BoundaryScoutState {
    BoundaryScoutState {
        tracing_direction: 1,
        steps_taken: 0,
        steps_taken_this_scouting_mission: 0,
        returning: false,
        path,
        first_move: false,
        initial_scouting_direction: None,
        total_rotation_steps: 0,
    }
}

#[test]
fn wall_find_walks_north_until_the_wall() {
    let truth = grid(&["###", "#.#", "#.#", "###"]);
    let far = agent(1, 1, 1, Orientation::North, RobotPhase::Idle, &truth);
    let mut robot = agent(0, 1, 2, Orientation::East, RobotPhase::InitialWallFind, &truth);
    robot.state.map = grid(&["   ", "   ", "   ", "   "]);
    let others = vec![far];
    robot.tick(&others, &truth);
    // The cell ahead was not known to be an obstacle: the agent moved and marked it empty.
    assert_eq!(robot.state.pose.position, Point { x: 1, y: 1 });
    assert_eq!(robot.state.pose.orientation, Orientation::East);
    assert_eq!(robot.state.phase, RobotPhase::InitialWallFind);
    assert_eq!(robot.state.map.at(1, 1), CellState::Empty);
    robot.update_local_map(&truth);
    robot.tick(&others, &truth);
    assert_eq!(robot.state.pose.position, Point { x: 1, y: 1 });
    assert_eq!(robot.state.phase, RobotPhase::BoundaryScouting);
    assert!(robot.state.boundary_scout.is_none());
}

#[test]
fn wall_find_stops_at_the_border() {
    let truth = grid(&["...", "..."]);
    let mut robot = agent(0, 1, 0, Orientation::North, RobotPhase::InitialWallFind, &truth);
    let mut phase = WallFindPhase;
    assert_eq!(phase.phase_type(), RobotPhase::InitialWallFind);
    let others = vec![agent(1, 0, 0, Orientation::North, RobotPhase::Idle, &truth)];
    let context = PhaseContext { all_robots: &others, global_map: &truth };
    let transition = phase.execute(&mut robot.state, &context);
    assert_eq!(transition, PhaseTransition::Transition(RobotPhase::BoundaryScouting));
    assert_eq!(robot.state.pose.position, Point { x: 1, y: 0 });
}

#[test]
fn scouting_first_step_fixes_the_chirality() {
    let truth = grid(&["#####", ".....", "#####"]);
    let partner = agent(1, 3, 1, Orientation::North, RobotPhase::BoundaryScouting, &truth);
    let mut robot = agent(0, 2, 1, Orientation::North, RobotPhase::BoundaryScouting, &truth);
    let others = vec![robot.clone(), partner];
    robot.tick(&others, &truth);
    // Partner on the right: the agent turned left (west) and traces left-handed.
    assert_eq!(robot.state.pose, Pose { position: Point { x: 1, y: 1 }, orientation: Orientation::West });
    let scout = robot.state.boundary_scout.as_ref().unwrap();
    assert_eq!(scout.tracing_direction, -1);
    assert_eq!(scout.initial_scouting_direction, Some(Point { x: -1, y: 0 }));
    assert_eq!(scout.path, vec![Point { x: 2, y: 1 }, Point { x: 1, y: 1 }]);
    assert_eq!((scout.steps_taken, scout.steps_taken_this_scouting_mission), (1, 1));
    assert!(!scout.first_move);
    assert_eq!(scout.total_rotation_steps, 0);
    // The first step never counts as a meeting, however close the partner is.
    assert_eq!(robot.state.phase, RobotPhase::BoundaryScouting);
    assert_eq!(robot.state.scout_depth_n, 3);
}

#[test]
fn scouting_other_agent_turns_right() {
    let truth = grid(&["#####", ".....", "#####"]);
    let partner = agent(0, 1, 1, Orientation::North, RobotPhase::BoundaryScouting, &truth);
    let mut robot = agent(1, 2, 1, Orientation::North, RobotPhase::BoundaryScouting, &truth);
    let others = vec![partner, robot.clone()];
    robot.tick(&others, &truth);
    assert_eq!(robot.state.pose, Pose { position: Point { x: 3, y: 1 }, orientation: Orientation::East });
    let scout = robot.state.boundary_scout.as_ref().unwrap();
    assert_eq!(scout.tracing_direction, 1);
    assert_eq!(scout.initial_scouting_direction, Some(Point { x: 1, y: 0 }));
}

#[test]
fn scouting_meeting_asks_for_analysis_and_doubles_the_depth() {
    let truth = grid(&["#####", ".....", "#####"]);
    let partner = agent(1, 4, 1, Orientation::North, RobotPhase::BoundaryScouting, &truth);
    let mut robot = agent(0, 1, 1, Orientation::East, RobotPhase::BoundaryScouting, &truth);
    let mut scout = scout_on(vec![Point { x: 0, y: 1 }, Point { x: 1, y: 1 }]);
    scout.steps_taken = 1;
    scout.steps_taken_this_scouting_mission = 1;
    scout.total_rotation_steps = 1;
    robot.state.boundary_scout = Some(scout);
    let others = vec![robot.clone(), partner];
    let mut phase = BoundaryScoutingPhase;
    let context = PhaseContext { all_robots: &others, global_map: &truth };
    let transition = phase.execute(&mut robot.state, &context);
    // Wall on the right, facing east: left and forward; left is a wall, so forward to (2,1),
    // two cells from the partner.
    assert_eq!(transition, PhaseTransition::Transition(RobotPhase::BoundaryAnalysis));
    assert_eq!(robot.state.pose.position, Point { x: 2, y: 1 });
    assert_eq!(robot.state.scout_depth_n, 6);
    let scout = robot.state.boundary_scout.as_ref().unwrap();
    assert_eq!(scout.total_rotation_steps, 1);
    assert_eq!(scout.path.len(), 3);
}

#[test]
fn scouting_same_cell_is_no_meeting() {
    let truth = grid(&["#####", ".....", "#####"]);
    let partner = agent(1, 2, 1, Orientation::North, RobotPhase::BoundaryScouting, &truth);
    let mut robot = agent(0, 1, 1, Orientation::East, RobotPhase::BoundaryScouting, &truth);
    let mut scout = scout_on(vec![Point { x: 0, y: 1 }, Point { x: 1, y: 1 }]);
    scout.steps_taken_this_scouting_mission = 1;
    robot.state.boundary_scout = Some(scout);
    let others = vec![robot.clone(), partner];
    robot.tick(&others, &truth);
    assert_eq!(robot.state.pose.position, Point { x: 2, y: 1 });
    assert_eq!(robot.state.phase, RobotPhase::BoundaryScouting);
    assert_eq!(robot.state.scout_depth_n, 3);
}

#[test]
fn scouting_turns_round_at_depth_and_retraces() {
    let truth = grid(&["#######", ".......", "#######"]);
    let partner = agent(1, 6, 1, Orientation::North, RobotPhase::Idle, &truth);
    let mut robot = agent(0, 2, 1, Orientation::West, RobotPhase::BoundaryScouting, &truth);
    let mut scout = scout_on(vec![
        Point { x: 5, y: 1 },
        Point { x: 4, y: 1 },
        Point { x: 3, y: 1 },
        Point { x: 2, y: 1 },
    ]);
    scout.steps_taken = 3;
    scout.steps_taken_this_scouting_mission = 3;
    scout.total_rotation_steps = 1;
    robot.state.boundary_scout = Some(scout);
    let others = vec![robot.clone(), partner];
    // At depth: the agent turns round without moving.
    robot.tick(&others, &truth);
    assert_eq!(robot.state.pose.position, Point { x: 2, y: 1 });
    assert!(robot.state.boundary_scout.as_ref().unwrap().returning);
    assert_eq!(robot.state.boundary_scout.as_ref().unwrap().steps_taken_this_scouting_mission, 0);
    // Three steps back along the path, facing east.
    for x in [3, 4, 5] {
        robot.tick(&others, &truth);
        assert_eq!(robot.state.pose, Pose { position: Point { x, y: 1 }, orientation: Orientation::East });
        assert_eq!(robot.state.scout_depth_n, 3);
    }
    // Back at the start: the depth doubles and a new leg begins.
    robot.tick(&others, &truth);
    assert_eq!(robot.state.pose.position, Point { x: 5, y: 1 });
    assert_eq!(robot.state.scout_depth_n, 6);
    let scout = robot.state.boundary_scout.as_ref().unwrap();
    assert!(!scout.returning);
    assert!(scout.first_move);
    assert_eq!(scout.path, vec![Point { x: 5, y: 1 }]);
    assert_eq!(scout.steps_taken, 3);
    // The rotation total is kept until the first step of the new leg.
    assert_eq!(scout.total_rotation_steps, 1);
}

#[test]
fn return_journey_step_by_step() {
    let truth = grid(&["#####", ".....", "#####"]);
    let mut robot = agent(0, 3, 1, Orientation::East, RobotPhase::BoundaryScouting, &truth);
    let mut scout = scout_on(vec![Point { x: 1, y: 1 }, Point { x: 2, y: 1 }, Point { x: 3, y: 1 }]);
    scout.returning = true;
    robot.state.boundary_scout = Some(scout);
    robot.state.scout_depth_n = 2;
    // Not yet back: one cell back along the path, the depth stays.
    assert_eq!(BoundaryScoutingPhase::handle_return_journey(&mut robot.state, 2), PhaseTransition::Continue);
    assert_eq!(robot.state.pose, Pose { position: Point { x: 2, y: 1 }, orientation: Orientation::West });
    assert_eq!(robot.state.scout_depth_n, 2);
    assert_eq!(robot.state.boundary_scout.as_ref().unwrap().steps_taken_this_scouting_mission, 1);
    BoundaryScoutingPhase::handle_return_journey(&mut robot.state, 2);
    assert_eq!(robot.state.pose.position, Point { x: 1, y: 1 });
    assert_eq!(robot.state.scout_depth_n, 2);
    // Back at the start: the depth doubles, a new leg begins on the start cell.
    BoundaryScoutingPhase::handle_return_journey(&mut robot.state, 2);
    assert_eq!(robot.state.pose.position, Point { x: 1, y: 1 });
    assert_eq!(robot.state.scout_depth_n, 4);
    let scout = robot.state.boundary_scout.as_ref().unwrap();
    assert_eq!(scout.path, vec![Point { x: 1, y: 1 }]);
    assert!(scout.first_move && !scout.returning);
    assert_eq!(scout.steps_taken_this_scouting_mission, 0);
}

#[test]
fn fresh_scout_and_forward_step() {
    let truth = grid(&["#####", ".....", "#####"]);
    let partner = agent(1, 3, 1, Orientation::North, RobotPhase::BoundaryScouting, &truth);
    let mut robot = agent(0, 2, 1, Orientation::North, RobotPhase::BoundaryScouting, &truth);
    BoundaryScoutingPhase::initialize_boundary_scout(&mut robot.state);
    let scout = robot.state.boundary_scout.as_ref().unwrap();
    assert_eq!(scout.tracing_direction, 1);
    assert_eq!(scout.path, vec![Point { x: 2, y: 1 }]);
    assert!(scout.first_move && !scout.returning);
    assert_eq!((scout.steps_taken, scout.total_rotation_steps), (0, 0));
    let others = vec![robot.clone(), partner];
    let context = PhaseContext { all_robots: &others, global_map: &truth };
    assert_eq!(
        BoundaryScoutingPhase::execute_forward_scouting(&mut robot.state, &context),
        PhaseTransition::Continue
    );
    assert_eq!(robot.state.pose.position, Point { x: 1, y: 1 });
    // At the dead end the agent turns back: a half turn counts plus two.
    robot.state.pose = Pose { position: Point { x: 0, y: 1 }, orientation: Orientation::West };
    robot.state.boundary_scout.as_mut().unwrap().path.push(Point { x: 0, y: 1 });
    BoundaryScoutingPhase::execute_forward_scouting(&mut robot.state, &context);
    assert_eq!(robot.state.pose, Pose { position: Point { x: 1, y: 1 }, orientation: Orientation::East });
    assert_eq!(robot.state.boundary_scout.as_ref().unwrap().total_rotation_steps, 2);
}

#[test]
fn scouting_stalls_when_boxed_in() {
    let truth = grid(&["###", "#.#", "###"]);
    let partner = agent(1, 1, 1, Orientation::North, RobotPhase::Idle, &truth);
    let mut robot = agent(0, 1, 1, Orientation::North, RobotPhase::BoundaryScouting, &truth);
    let others = vec![robot.clone(), partner];
    robot.tick(&others, &truth);
    assert_eq!(robot.state.pose.position, Point { x: 1, y: 1 });
    assert_eq!(robot.state.phase, RobotPhase::BoundaryScouting);
    let scout = robot.state.boundary_scout.as_ref().unwrap();
    assert_eq!(scout.path, vec![Point { x: 1, y: 1 }]);
    assert!(scout.first_move);
    assert_eq!(scout.initial_scouting_direction, None);
}

#[test]
fn analysis_waits_for_the_partner() {
    let truth = grid(&["..."]);
    let mut robot = agent(0, 0, 0, Orientation::East, RobotPhase::BoundaryAnalysis, &truth);
    let mut own = scout_on(vec![Point { x: 0, y: 0 }]);
    own.total_rotation_steps = 2;
    robot.state.boundary_scout = Some(own);
    let mut partner = agent(1, 1, 0, Orientation::East, RobotPhase::BoundaryScouting, &truth);
    let mut theirs = scout_on(vec![Point { x: 1, y: 0 }]);
    theirs.total_rotation_steps = -2;
    partner.state.boundary_scout = Some(theirs);

    let others = vec![robot.clone(), partner.clone()];
    robot.tick(&others, &truth);
    assert_eq!(robot.state.phase, RobotPhase::BoundaryAnalysis);

    partner.state.phase = RobotPhase::BoundaryAnalysis;
    let others = vec![robot.clone(), partner.clone()];
    let mut phase = BoundaryAnalysisPhase;
    assert_eq!(phase.phase_type(), RobotPhase::BoundaryAnalysis);
    assert_eq!(
        BoundaryAnalysisPhase::analyze_boundary_by_rotation(&robot.state, &partner),
        BoundaryAnalysisResult::Island
    );
    let context = PhaseContext { all_robots: &others, global_map: &truth };
    assert_eq!(
        phase.execute(&mut robot.state, &context),
        PhaseTransition::Transition(RobotPhase::IslandEscape)
    );
    robot.tick(&others, &truth);
    assert_eq!(robot.state.phase, RobotPhase::IslandEscape);
    // The partner decides the same from its side.
    partner.tick(&others, &truth);
    assert_eq!(partner.state.phase, RobotPhase::IslandEscape);
}

#[test]
fn analysis_of_the_exterior_wall_leads_to_the_sweep_and_to_idle() {
    let truth = grid(&["..."]);
    let mut robot = agent(0, 0, 0, Orientation::East, RobotPhase::BoundaryAnalysis, &truth);
    let mut own = scout_on(vec![Point { x: 0, y: 0 }]);
    own.total_rotation_steps = -3;
    robot.state.boundary_scout = Some(own);
    let mut partner = agent(1, 1, 0, Orientation::East, RobotPhase::BoundaryAnalysis, &truth);
    let mut theirs = scout_on(vec![Point { x: 1, y: 0 }]);
    theirs.total_rotation_steps = 1;
    partner.state.boundary_scout = Some(theirs);
    let others = vec![robot.clone(), partner.clone()];
    robot.tick(&others, &truth);
    assert_eq!(robot.state.phase, RobotPhase::InteriorSweep);
    // The sweep waits for the partner, then ends the mission.
    robot.tick(&others, &truth);
    assert_eq!(robot.state.phase, RobotPhase::InteriorSweep);
    partner.state.phase = RobotPhase::InteriorSweep;
    let others = vec![robot.clone(), partner];
    let mut phase = InteriorSweepPhase;
    assert_eq!(phase.phase_type(), RobotPhase::InteriorSweep);
    let context = PhaseContext { all_robots: &others, global_map: &truth };
    assert_eq!(phase.execute(&mut robot.state, &context), PhaseTransition::Transition(RobotPhase::Idle));
    robot.tick(&others, &truth);
    assert_eq!(robot.state.phase, RobotPhase::Idle);
    // Idle is terminal.
    let before = robot.state.pose;
    robot.tick(&others, &truth);
    assert_eq!(robot.state.phase, RobotPhase::Idle);
    assert_eq!(robot.state.pose, before);
}

#[test]
fn centroid_and_escape_direction() {
    let path = vec![Point { x: 1, y: 1 }, Point { x: 2, y: 1 }, Point { x: 2, y: 2 }, Point { x: 2, y: 3 }];
    // Sums 7 and 7 over four points, rounded towards zero.
    assert_eq!(
        IslandEscapePhase::calculate_path_centroid(&path, Point { x: 9, y: 9 }),
        Point { x: 1, y: 1 }
    );
    assert_eq!(
        IslandEscapePhase::calculate_path_centroid(&[], Point { x: 9, y: 8 }),
        Point { x: 9, y: 8 }
    );
    assert_eq!(
        IslandEscapePhase::calculate_path_centroid(
            &[Point { x: -3, y: -1 }, Point { x: 0, y: -2 }],
            Point { x: 0, y: 0 }
        ),
        Point { x: -1, y: -1 }
    );
    assert_eq!(
        IslandEscapePhase::calculate_path_centroid(
            &[Point { x: i32::MAX, y: i32::MIN }, Point { x: i32::MAX, y: i32::MIN }],
            Point { x: 0, y: 0 }
        ),
        Point { x: i32::MAX, y: i32::MIN }
    );
    let centre = Point { x: 5, y: 5 };
    assert_eq!(IslandEscapePhase::calculate_escape_direction(Point { x: 8, y: 6 }, centre), (1, 0));
    assert_eq!(IslandEscapePhase::calculate_escape_direction(Point { x: 2, y: 6 }, centre), (-1, 0));
    assert_eq!(IslandEscapePhase::calculate_escape_direction(Point { x: 6, y: 8 }, centre), (0, 1));
    assert_eq!(IslandEscapePhase::calculate_escape_direction(Point { x: 6, y: 2 }, centre), (0, -1));
    // A tie goes along y; on the centre itself the agent heads north.
    assert_eq!(IslandEscapePhase::calculate_escape_direction(Point { x: 7, y: 7 }, centre), (0, 1));
    assert_eq!(IslandEscapePhase::calculate_escape_direction(centre, centre), (0, -1));
}

#[test]
fn island_escape_moves_outward_and_restarts_at_a_wall() {
    let truth = grid(&["#######", "#.....#", "#.....#", "#######"]);
    let partner = agent(1, 1, 1, Orientation::North, RobotPhase::IslandEscape, &truth);
    let mut robot = agent(0, 3, 1, Orientation::North, RobotPhase::IslandEscape, &truth);
    robot.state.scout_depth_n = 24;
    robot.state.boundary_scout = Some(scout_on(vec![Point { x: 1, y: 1 }, Point { x: 1, y: 2 }]));
    let others = vec![robot.clone(), partner];
    // Centroid (1,1): the agent is further off along x and heads east.
    robot.tick(&others, &truth);
    assert_eq!(robot.state.pose, Pose { position: Point { x: 4, y: 1 }, orientation: Orientation::East });
    assert_eq!(robot.state.phase, RobotPhase::IslandEscape);
    assert_eq!(robot.state.scout_depth_n, 24);
    // The next step ends in front of the wall: scouting starts afresh.
    robot.tick(&others, &truth);
    assert_eq!(robot.state.pose.position, Point { x: 5, y: 1 });
    assert_eq!(robot.state.phase, RobotPhase::BoundaryScouting);
    assert_eq!(robot.state.scout_depth_n, 3);
    assert!(robot.state.boundary_scout.is_none());
}

#[test]
fn island_escape_falls_back_when_blocked() {
    let truth = grid(&["####", "#..#", "#.##", "####"]);
    let partner = agent(1, 1, 1, Orientation::North, RobotPhase::IslandEscape, &truth);
    let mut robot = agent(0, 2, 1, Orientation::South, RobotPhase::IslandEscape, &truth);
    robot.state.boundary_scout = Some(scout_on(vec![Point { x: 1, y: 1 }]));
    let others = vec![robot.clone(), partner];
    // East is a wall; north is a wall too, east again, south too: west it is.
    let mut phase = IslandEscapePhase;
    assert_eq!(phase.phase_type(), RobotPhase::IslandEscape);
    let context = PhaseContext { all_robots: &others, global_map: &truth };
    assert_eq!(phase.execute(&mut robot.state, &context), PhaseTransition::Continue);
    assert_eq!(robot.state.pose, Pose { position: Point { x: 1, y: 1 }, orientation: Orientation::West });
    assert!(robot.state.boundary_scout.is_some());
}

#[test]
fn island_escape_without_scout_goes_back_to_wall_finding() {
    let truth = grid(&["..."]);
    let partner = agent(1, 1, 0, Orientation::North, RobotPhase::Idle, &truth);
    let mut robot = agent(0, 0, 0, Orientation::East, RobotPhase::IslandEscape, &truth);
    let others = vec![robot.clone(), partner];
    robot.tick(&others, &truth);
    assert_eq!(robot.state.phase, RobotPhase::InitialWallFind);
    assert_eq!(robot.state.pose.position, Point { x: 0, y: 0 });
}

#[test]
fn path_analysis_of_an_agent() {
    let truth = grid(&["....", "....", "....", "...."]);
    let mut robot = agent(0, 1, 1, Orientation::East, RobotPhase::BoundaryAnalysis, &truth);
    assert_eq!(robot.analyze_boundary(4, 4), BoundaryAnalysisResult::Incomplete);
    robot.state.boundary_scout = Some(scout_on(vec![Point { x: 1, y: 1 }, Point { x: 2, y: 1 }]));
    assert_eq!(robot.analyze_boundary(4, 4), BoundaryAnalysisResult::Island);
    assert_eq!(robot.analyze_boundary(3, 4), BoundaryAnalysisResult::ExteriorWall);
    assert_eq!(robot.get_direction_vector(), (1, 0));
}

#[test]
fn frontier_cells() {
    let map = grid(&[". #", "...", "#. "]);
    assert_eq!(
        find_frontier_cells(&map),
        vec![Point { x: 0, y: 0 }, Point { x: 1, y: 1 }, Point { x: 2, y: 1 }, Point { x: 1, y: 2 }]
    );
    assert!(find_frontier_cells(&grid(&["..", ".#"])).is_empty());
    assert!(find_frontier_cells(&grid(&["  ", "  "])).is_empty());
}
