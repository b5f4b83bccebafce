use tile_physics::game::{Key, PlayingState, TileSprite, SCREEN_HEIGHT, SCREEN_WIDTH};
use tile_physics::level::{Level, Perspective};
use tile_physics::player::JUMP_VELOCITY;
use tile_physics::world::World;
use tile_physics::UNIT;

fn two_levels() -> World {
    let mut world = World::new();
    world.add_level("test_level", Level::from_string("#E#\n#S#\n###", Perspective::SideScrolling).unwrap());
    world.add_level("topdown_level", Level::from_string("....\n.S..\n...E", Perspective::TopDown).unwrap());
    world
}

#[test]
fn playing_state_starts_at_spawn() {
    let state = PlayingState::with_world(two_levels());
    assert_eq!((state.player.x, state.player.y), (48 * UNIT, 48 * UNIT));
    assert_eq!((state.camera_x, state.camera_y), (0, 0));

    let empty = PlayingState::with_world(World::new());
    assert_eq!((empty.player.x, empty.player.y), (100 * UNIT, 300 * UNIT));
}

#[test]
fn keys_drive_the_player() {
    let mut state = PlayingState::with_world(two_levels());
    assert!(!state.handle_key(Key::Left, true));
    assert!(state.player.moving_left && !state.player.facing_right);
    state.handle_key(Key::Left, false);
    state.handle_key(Key::Right, true);
    assert!(state.player.moving_right && state.player.facing_right);
    state.handle_key(Key::Down, true);
    assert!(state.player.moving_down);
    assert!(state.handle_key(Key::Escape, true));
    assert!(!state.handle_key(Key::Escape, false));
}

#[test]
fn up_jumps_when_side_scrolling_and_moves_when_top_down() {
    let mut state = PlayingState::with_world(two_levels());
    state.handle_key(Key::Up, true);
    assert_eq!(state.player.velocity_y, -JUMP_VELOCITY);
    assert!(!state.player.moving_up);

    state.handle_key(Key::Tab, true);
    assert_eq!(state.world.current_level, "topdown_level".to_string());
    state.handle_key(Key::Up, true);
    assert!(state.player.moving_up);
    state.handle_key(Key::Up, false);
    assert!(!state.player.moving_up);
}

#[test]
fn tab_switches_levels_and_respawns() {
    let mut state = PlayingState::with_world(two_levels());
    state.player.evidence_collected.push((1, 0));
    state.handle_key(Key::Tab, true);
    assert_eq!(state.world.current_level, "topdown_level".to_string());
    assert_eq!((state.player.x, state.player.y), (48 * UNIT, 48 * UNIT));
    assert!(state.player.evidence_collected.is_empty());
    state.handle_key(Key::Tab, true);
    assert_eq!(state.world.current_level, "test_level".to_string());

    let mut lonely = PlayingState::with_world(World::new());
    lonely.handle_key(Key::Tab, true);
    assert_eq!((lonely.player.x, lonely.player.y), (100 * UNIT, 300 * UNIT));
}

#[test]
fn update_steps_player_and_clamps_camera() {
    let mut state = PlayingState::with_world(two_levels());
    let events = state.update(16);
    assert_eq!(events, vec![(1, 0)]);
    // Centering the player would move the camera before the level's start.
    assert_eq!((state.camera_x, state.camera_y), (0, 0));
    state.camera_x = 50 * UNIT;
    state.update_camera(SCREEN_WIDTH, SCREEN_HEIGHT);
    // Past the level's end less one screen (negative here, as the level is small).
    assert_eq!(state.camera_x, 96 * UNIT - SCREEN_WIDTH);
}

#[test]
fn camera_moves_a_tenth_of_the_way() {
    let mut state = PlayingState::new_empty();
    state.player.x = 1000 * UNIT + SCREEN_WIDTH / 2;
    state.player.y = -(50 * UNIT) + SCREEN_HEIGHT / 2;
    state.update_camera(SCREEN_WIDTH, SCREEN_HEIGHT);
    assert_eq!(state.camera_x, 100 * UNIT);
    assert_eq!(state.camera_y, -5 * UNIT);
    let events = state.update(16);
    assert!(events.is_empty());
    assert_eq!(state.camera_x, 190 * UNIT);
}

#[test]
fn sprites_hide_collected_evidence() {
    let mut state = PlayingState::with_world(two_levels());
    assert_eq!(state.sprite_at(0, 0), Some(TileSprite::Platform));
    assert_eq!(state.sprite_at(1, 0), Some(TileSprite::Evidence));
    assert_eq!(state.sprite_at(1, 1), None);
    assert_eq!(state.sprite_at(9, 9), None);
    state.update(16);
    assert_eq!(state.sprite_at(1, 0), None);
    assert_eq!(PlayingState::new_empty().sprite_at(0, 0), None);
}

#[test]
fn built_in_world_starts_on_side_scrolling_level() {
    let state = PlayingState::new();
    assert_eq!(state.world.current_level, "test_level".to_string());
    assert_eq!(state.world.levels.len(), 2);
    let level = state.world.current_level().unwrap();
    assert_eq!((level.width, level.height), (20, 14));
    assert_eq!(level.perspective, Perspective::SideScrolling);
    assert_eq!((state.player.x, state.player.y), (336 * UNIT, 208 * UNIT));
}

#[test]
fn releasing_arrows_keeps_facing_and_evidence() {
    let mut state = PlayingState::with_world(two_levels());
    state.player.evidence_collected.push((1, 0));
    state.handle_key(Key::Left, true);
    state.handle_key(Key::Left, false);
    assert!(!state.player.facing_right);
    assert_eq!(state.player.evidence_collected, vec![(1, 0)]);
    state.player.is_grounded = false;
    state.player.velocity_y = 5;
    state.handle_key(Key::Space, true);
    assert_eq!(state.player.velocity_y, 5);
}
