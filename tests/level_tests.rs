use tile_physics::components::CollisionType;
use tile_physics::level::{Level, LevelError, Perspective, TileType};
use tile_physics::world::World;
use tile_physics::{TILE_SIZE, UNIT};

#[test]
fn new_level_is_empty_with_origin_spawn() {
    let level = Level::new(4, 3, Perspective::TopDown);
    assert_eq!(level.width, 4);
    assert_eq!(level.height, 3);
    assert_eq!(level.tiles.len(), 12);
    assert_eq!(level.spawn_point, (0, 0));
    for y in 0..3 {
        for x in 0..4 {
            assert_eq!(level.get_tile(x, y), Some(TileType::Empty));
        }
    }
}

#[test]
fn get_tile_outside_is_absent() {
    let level = Level::new(4, 3, Perspective::SideScrolling);
    assert_eq!(level.get_tile(4, 0), None);
    assert_eq!(level.get_tile(0, 3), None);
    assert_eq!(level.get_tile(usize::MAX, usize::MAX), None);
}

#[test]
fn set_tile_outside_is_a_no_op() {
    let mut level = Level::new(2, 2, Perspective::SideScrolling);
    level.set_tile(1, 0, TileType::Wall);
    level.set_tile(2, 0, TileType::Wall);
    level.set_tile(0, 5, TileType::Wall);
    assert_eq!(level.get_tile(1, 0), Some(TileType::Wall));
    assert_eq!(level.tiles, vec![TileType::Empty, TileType::Wall, TileType::Empty, TileType::Empty]);
}

#[test]
fn add_evidence_marks_tile_and_location() {
    let mut level = Level::new(3, 3, Perspective::TopDown);
    level.add_evidence(2, 1);
    level.add_evidence(7, 7);
    assert_eq!(level.get_tile(2, 1), Some(TileType::Evidence));
    assert_eq!(level.evidence_locations(), vec![(2, 1)]);
    level.set_tile(2, 1, TileType::Empty);
    assert_eq!(level.evidence_locations(), Vec::<(usize, usize)>::new());
}

#[test]
fn from_string_maps_characters() {
    let level = Level::from_string("\n#WE\n.S?\n", Perspective::SideScrolling).unwrap();
    assert_eq!(level.width, 3);
    assert_eq!(level.height, 2);
    assert_eq!(level.perspective, Perspective::SideScrolling);
    assert_eq!(level.get_tile(0, 0), Some(TileType::Platform));
    assert_eq!(level.get_tile(1, 0), Some(TileType::Wall));
    assert_eq!(level.get_tile(2, 0), Some(TileType::Evidence));
    assert_eq!(level.get_tile(0, 1), Some(TileType::Empty));
    assert_eq!(level.get_tile(1, 1), Some(TileType::Empty));
    assert_eq!(level.get_tile(2, 1), Some(TileType::Empty));
    assert_eq!(level.spawn_point, (48 * UNIT, 48 * UNIT));
    assert_eq!(level.evidence_locations(), vec![(2, 0)]);
}

#[test]
fn from_string_last_spawn_marker_counts() {
    let level = Level::from_string("S..\n..S", Perspective::TopDown).unwrap();
    assert_eq!(level.spawn_point, (2 * TILE_SIZE + TILE_SIZE / 2, TILE_SIZE + TILE_SIZE / 2));
}

#[test]
fn from_string_accepts_crlf_lines() {
    let level = Level::from_string("#S\r\n#E\r\n", Perspective::TopDown).unwrap();
    assert_eq!(level.width, 2);
    assert_eq!(level.height, 2);
    assert_eq!(level.get_tile(1, 1), Some(TileType::Evidence));
}

#[test]
fn from_string_rejects_malformed_text() {
    assert_eq!(Level::from_string("", Perspective::TopDown).err(), Some(LevelError::InvalidLevelData));
    assert_eq!(Level::from_string(" \n\t \n", Perspective::TopDown).err(), Some(LevelError::InvalidLevelData));
    assert_eq!(Level::from_string("S#\n#", Perspective::TopDown).err(), Some(LevelError::InvalidLevelData));
    assert_eq!(Level::from_string("S#\n\n##", Perspective::TopDown).err(), Some(LevelError::InvalidLevelData));
    assert_eq!(Level::from_string("##\n##", Perspective::TopDown).err(), Some(LevelError::InvalidLevelData));
}

#[test]
fn collision_types_of_tiles() {
    assert_eq!(TileType::Platform.collision_type(), Some(CollisionType::Solid));
    assert_eq!(TileType::Wall.collision_type(), Some(CollisionType::Solid));
    assert_eq!(TileType::Evidence.collision_type(), Some(CollisionType::Evidence));
    assert_eq!(TileType::Empty.collision_type(), None);
}

#[test]
fn world_adds_and_switches_levels() {
    let mut world = World::new();
    assert!(world.current_level().is_none());
    world.add_level("a", Level::new(2, 2, Perspective::SideScrolling));
    world.add_level("b", Level::new(3, 1, Perspective::TopDown));
    assert_eq!(world.current_level, "a".to_string());
    assert_eq!(world.current_level().unwrap().width, 2);
    assert!(world.switch_level("b"));
    assert_eq!(world.current_level().unwrap().perspective, Perspective::TopDown);
    assert!(!world.switch_level("missing"));
    assert_eq!(world.current_level, "b".to_string());
    world.add_level("b", Level::new(5, 5, Perspective::TopDown));
    assert_eq!(world.current_level().unwrap().width, 5);
    assert_eq!(world.levels.len(), 2);
}

#[test]
fn from_string_counts_characters() {
    let level = Level::from_string("éS", Perspective::TopDown).unwrap();
    assert_eq!(level.width, 2);
    assert_eq!(level.spawn_point, (TILE_SIZE + TILE_SIZE / 2, TILE_SIZE / 2));
    let level = Level::from_string("éE\nSW", Perspective::TopDown).unwrap();
    assert_eq!(level.get_tile(1, 0), Some(TileType::Evidence));
    assert_eq!(level.get_tile(1, 1), Some(TileType::Wall));
    assert_eq!(level.spawn_point, (TILE_SIZE / 2, TILE_SIZE + TILE_SIZE / 2));
    assert_eq!(Level::from_string("é\nSS", Perspective::TopDown).err(), Some(LevelError::InvalidLevelData));
    let level = Level::from_string("\u{3000}S#\u{a0}", Perspective::TopDown).unwrap();
    assert_eq!(level.width, 2);
}
