use multiagent_explore::map_loader::{parse_map, MapLoadError};
use multiagent_explore::types::{CellState, GridMap, Orientation, Point, RobotPhase};

#[test]
fn test_point_equality() {
    let a = Point { x: 1, y: 2 };
    let b = Point { x: 1, y: 2 };
    assert_eq!(a, b);
}

#[test]
fn test_cell_state_enum() {
    let cell = CellState::Unexplored;
    assert_eq!(cell, CellState::Unexplored);
}

#[test]
fn test_robot_phase_enum() {
    let phase = RobotPhase::InitialWallFind;
    assert_eq!(phase, RobotPhase::InitialWallFind);
}

#[test]
fn test_grid_map_creation() {
    let map = GridMap {
        width: 10,
        height: 10,
        cells: vec![CellState::Unexplored; 100],
    };
    assert_eq!(map.cells.len(), 100);
}

#[test]
fn test_map_loader_ascii_grid() {
    let map_str = "#.#\n. .\n###";
    let map = parse_map(map_str.as_bytes()).unwrap();
    assert_eq!(map.width, 3);
    assert_eq!(map.height, 3);
    assert_eq!(map.cells[0], CellState::Obstacle);
    assert_eq!(map.cells[1], CellState::Empty);
    assert_eq!(map.cells[2], CellState::Obstacle);
    assert_eq!(map.cells[3], CellState::Empty);
    assert_eq!(map.cells[4], CellState::Unexplored);
    assert_eq!(map.cells[5], CellState::Empty);
    assert_eq!(map.cells[6], CellState::Obstacle);
    assert_eq!(map.cells[7], CellState::Obstacle);
    assert_eq!(map.cells[8], CellState::Obstacle);
}

#[test]
fn map_text_question_mark_is_unexplored() {
    let map = parse_map("?.\n#?".as_bytes()).unwrap();
    assert_eq!(
        map.cells,
        vec![CellState::Unexplored, CellState::Empty, CellState::Obstacle, CellState::Unexplored]
    );
}

#[test]
fn map_text_line_endings() {
    let unix = parse_map("#.\n.#\n".as_bytes()).unwrap();
    assert_eq!((unix.width, unix.height), (2, 2));
    let dos = parse_map("#.\r\n.#\r\n".as_bytes()).unwrap();
    assert_eq!((dos.width, dos.height), (2, 2));
    assert_eq!(dos.cells, unix.cells);
    let blank_line = parse_map("\n".as_bytes()).unwrap();
    assert_eq!((blank_line.width, blank_line.height), (0, 1));
    assert!(blank_line.cells.is_empty());
}

#[test]
fn map_text_empty_is_rejected() {
    assert_eq!(parse_map("".as_bytes()).err(), Some(MapLoadError::Empty));
}

#[test]
fn map_text_ragged_is_rejected() {
    assert_eq!(parse_map("##\n#".as_bytes()).err(), Some(MapLoadError::InconsistentRowLength));
    assert_eq!(parse_map("##\n\n##".as_bytes()).err(), Some(MapLoadError::InconsistentRowLength));
}

#[test]
fn map_text_invalid_character_is_rejected() {
    assert_eq!(parse_map("#.\n.x".as_bytes()).err(), Some(MapLoadError::InvalidCharacter(b'x')));
    assert_eq!(parse_map("#a\nb.".as_bytes()).err(), Some(MapLoadError::InvalidCharacter(b'a')));
    // A carriage return that no line feed follows belongs to the line.
    assert_eq!(parse_map("#.\r".as_bytes()).err(), Some(MapLoadError::InvalidCharacter(13)));
}

#[test]
fn map_text_ragged_wins_over_invalid_character() {
    assert_eq!(parse_map("#x\n#".as_bytes()).err(), Some(MapLoadError::InconsistentRowLength));
}

#[test]
fn map_load_error_messages() {
    assert_eq!(MapLoadError::Empty.message(), "Map file is empty");
    assert_eq!(
        MapLoadError::InconsistentRowLength.message(),
        "Inconsistent line lengths in map file"
    );
    assert_eq!(MapLoadError::InvalidCharacter(b'x').message(), "Invalid map character");
}

#[test]
fn grid_map_access() {
    let mut map = GridMap::new(3, 2);
    assert!(map.is_well_formed());
    assert!(map.in_bounds(2, 1));
    assert!(!map.in_bounds(3, 1));
    assert!(!map.in_bounds(0, 2));
    assert!(!map.in_bounds(-1, 0));
    map.set(2, 1, CellState::Obstacle);
    assert_eq!(map.at(2, 1), CellState::Obstacle);
    assert_eq!(map.cells[5], CellState::Obstacle);
    assert_eq!(map.at(0, 0), CellState::Unexplored);
    assert_eq!(map.at_or_obstacle(3, 0), CellState::Obstacle);
    assert_eq!(map.at_or_obstacle(1, 1), CellState::Unexplored);
    let broken = GridMap { width: 3, height: 2, cells: vec![CellState::Empty; 5] };
    assert!(!broken.is_well_formed());
}

#[test]
fn merge_takes_over_known_cells_only() {
    let mut mine = GridMap {
        width: 2,
        height: 1,
        cells: vec![CellState::Empty, CellState::Unexplored],
    };
    let theirs = GridMap {
        width: 2,
        height: 1,
        cells: vec![CellState::Unexplored, CellState::Obstacle],
    };
    mine.merge_from(&theirs);
    assert_eq!(mine.cells, vec![CellState::Empty, CellState::Obstacle]);
    // Merging the same map again changes nothing.
    mine.merge_from(&theirs);
    assert_eq!(mine.cells, vec![CellState::Empty, CellState::Obstacle]);
}

#[test]
fn merge_is_symmetric_on_agreeing_maps() {
    let mut a = GridMap {
        width: 2,
        height: 1,
        cells: vec![CellState::Empty, CellState::Unexplored],
    };
    let mut b = GridMap {
        width: 2,
        height: 1,
        cells: vec![CellState::Unexplored, CellState::Obstacle],
    };
    let a_before = a.clone();
    a.merge_from(&b);
    b.merge_from(&a_before);
    assert_eq!(a.cells, vec![CellState::Empty, CellState::Obstacle]);
    assert_eq!(b.cells, vec![CellState::Empty, CellState::Obstacle]);
}

#[test]
fn orientation_degrees() {
    assert_eq!(Orientation::East.degrees(), 0);
    assert_eq!(Orientation::South.degrees(), 90);
    assert_eq!(Orientation::West.degrees(), 180);
    assert_eq!(Orientation::North.degrees(), -90);
}
