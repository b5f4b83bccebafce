use tile_physics::level::{Level, Perspective};
use tile_physics::player::{
    Player, DIAGONAL_VELOCITY, FRICTION, JUMP_VELOCITY, MAX_STEP_MS, MAX_VELOCITY, PLAYER_HEIGHT, PLAYER_WIDTH,
};
use tile_physics::timer::{step_millis, Timer};
use tile_physics::UNIT;

fn open_level(perspective: Perspective) -> Level {
    Level::from_string("..........\n..........\nS.........", perspective).unwrap()
}

#[test]
fn new_player_defaults() {
    let p = Player::new(3, 4);
    assert_eq!((p.x, p.y), (3, 4));
    assert_eq!((p.velocity_x, p.velocity_y), (0, 0));
    assert!(p.is_grounded);
    assert!(!p.is_jumping);
    assert!(p.facing_right);
    assert_eq!((p.width, p.height), (PLAYER_WIDTH, PLAYER_HEIGHT));
    assert!(p.evidence_collected.is_empty());
}

#[test]
fn spawn_uses_level_spawn_point() {
    let level = Level::from_string("...\n.S.\n...", Perspective::SideScrolling).unwrap();
    let p = Player::spawn(&level);
    assert_eq!((p.x, p.y), (48 * UNIT, 48 * UNIT));
}

#[test]
fn input_sets_flags_and_facing() {
    let mut p = Player::new(0, 0);
    p.move_left(true);
    assert!(p.moving_left && !p.facing_right);
    p.move_left(false);
    assert!(!p.moving_left && !p.facing_right);
    p.move_right(true);
    assert!(p.moving_right && p.facing_right);
    p.move_up(true);
    p.move_down(true);
    assert!(p.moving_up && p.moving_down);
}

#[test]
fn jump_only_when_grounded() {
    let mut p = Player::new(0, 0);
    p.jump();
    assert_eq!(p.velocity_y, -JUMP_VELOCITY);
    assert!(p.is_jumping);
    assert!(!p.is_grounded);
    p.velocity_y = -7;
    p.jump();
    assert_eq!(p.velocity_y, -7);
}

#[test]
fn side_scroller_stops_at_wall_next_to_spawn() {
    let level = Level::from_string("###\n#S#\n###", Perspective::SideScrolling).unwrap();
    let mut p = Player::spawn(&level);
    p.move_right(true);
    for _ in 0..60 {
        let events = p.update(16, &level);
        assert!(events.is_empty());
        assert!(p.x <= 2 * 32 * UNIT - PLAYER_WIDTH / 2);
    }
    assert_eq!(p.x, 2 * 32 * UNIT - PLAYER_WIDTH / 2);
    assert_eq!(p.velocity_x, 0);
    p.update(16, &level);
    assert_eq!(p.x, 52 * UNIT);
}

#[test]
fn grounded_follows_vertical_contact() {
    let level = Level::from_string("S..\n...\n###", Perspective::SideScrolling).unwrap();
    let mut p = Player::new(48 * UNIT, 39_900_000);
    p.is_grounded = false;
    p.update(16, &level);
    assert!(p.is_grounded);
    assert_eq!(p.y, 64 * UNIT - PLAYER_HEIGHT / 2);
    assert_eq!(p.velocity_y, 0);
    p.update(16, &level);
    assert!(!p.is_grounded);
    p.update(16, &level);
    assert!(p.is_grounded);
    assert_eq!(p.y, 40 * UNIT);
}

#[test]
fn wall_beside_player_does_not_snap_it() {
    let level = Level::from_string("S.#\n..#\n..#", Perspective::SideScrolling).unwrap();
    // The box overlaps the wall column without moving across any wall face.
    let mut p = Player::new(60 * UNIT, 48 * UNIT);
    p.velocity_x = 1;
    p.is_grounded = false;
    p.velocity_y = 100_000;
    p.update(16, &level);
    assert_eq!(p.x, 60 * UNIT);
    assert_eq!(p.y, 48 * UNIT);
    assert!(!p.is_grounded);
}

#[test]
fn resting_on_bottom_edge_is_grounded() {
    let level = open_level(Perspective::SideScrolling);
    let mut p = Player::new(100 * UNIT, 96 * UNIT - PLAYER_HEIGHT / 2);
    p.is_grounded = false;
    p.update(10, &level);
    assert!(p.is_grounded);
    assert_eq!(p.velocity_y, 0);
    assert_eq!(p.y, 72 * UNIT);
}

#[test]
fn friction_slows_to_exactly_zero() {
    let level = open_level(Perspective::SideScrolling);
    let mut p = Player::new(100 * UNIT, 72 * UNIT);
    p.velocity_x = 10_000;
    p.update(10, &level);
    assert_eq!(p.velocity_x, 10_000 - FRICTION * 10);
    p.update(10, &level);
    assert_eq!(p.velocity_x, 0);
    p.update(10, &level);
    assert_eq!(p.velocity_x, 0);

    p.velocity_x = -10_000;
    let mut last = 10_000;
    for _ in 0..5 {
        p.update(3, &level);
        assert!(p.velocity_x <= 0);
        assert!(p.velocity_x.abs() <= last);
        last = p.velocity_x.abs();
    }
    assert_eq!(p.velocity_x, 0);
}

#[test]
fn horizontal_speed_is_capped() {
    let level = open_level(Perspective::SideScrolling);
    let mut p = Player::new(100 * UNIT, 72 * UNIT);
    p.move_left(true);
    p.update(MAX_STEP_MS, &level);
    assert_eq!(p.velocity_x, -MAX_VELOCITY);
}

#[test]
fn diagonal_top_down_speed_is_capped() {
    let level = open_level(Perspective::TopDown);
    let mut p = Player::new(100 * UNIT, 50 * UNIT);
    p.move_right(true);
    p.move_down(true);
    p.update(16, &level);
    assert_eq!(p.velocity_x, DIAGONAL_VELOCITY);
    assert_eq!(p.velocity_y, DIAGONAL_VELOCITY);
    let speed = ((p.velocity_x as f64).powi(2) + (p.velocity_y as f64).powi(2)).sqrt();
    assert!((speed - MAX_VELOCITY as f64).abs() < 1.0);
    assert!(speed <= MAX_VELOCITY as f64);

    let mut q = Player::new(100 * UNIT, 50 * UNIT);
    q.move_left(true);
    q.update(16, &level);
    assert_eq!((q.velocity_x, q.velocity_y), (-MAX_VELOCITY, 0));
    assert!(!q.facing_right);
}

#[test]
fn top_down_facing_follows_horizontal_intent_only() {
    let level = open_level(Perspective::TopDown);
    let mut p = Player::new(100 * UNIT, 50 * UNIT);
    p.facing_right = false;
    p.move_up(true);
    p.update(16, &level);
    assert!(!p.facing_right);
    assert_eq!(p.velocity_y, -MAX_VELOCITY);
}

#[test]
fn clamped_past_right_and_left_edges() {
    let level = Level::from_string(".....\n.....\nS....", Perspective::SideScrolling).unwrap();
    let mut p = Player::new(200 * UNIT, 72 * UNIT);
    p.velocity_x = 100_000;
    p.update(16, &level);
    assert_eq!(p.x, 160 * UNIT - PLAYER_WIDTH / 2);
    assert_eq!(p.velocity_x, 0);

    let mut q = Player::new(-50 * UNIT, 72 * UNIT);
    q.velocity_x = -100_000;
    q.update(16, &level);
    assert_eq!(q.x, PLAYER_WIDTH / 2);
    assert_eq!(q.velocity_x, 0);

    let mut r = Player::new(80 * UNIT, -10 * UNIT);
    r.is_grounded = false;
    r.velocity_y = -100_000;
    r.update(16, &level);
    assert_eq!(r.y, PLAYER_HEIGHT / 2);
    assert_eq!(r.velocity_y, 0);
}

#[test]
fn fast_move_into_single_wall_stops_at_near_face() {
    let level = Level::from_string("........\n...W....\nS.......", Perspective::SideScrolling).unwrap();
    let mut p = Player::new(40 * UNIT, 48 * UNIT);
    p.velocity_x = MAX_VELOCITY;
    p.move_right(true);
    p.update(100, &level);
    assert_eq!(p.x, 96 * UNIT - PLAYER_WIDTH / 2);
    assert_eq!(p.velocity_x, 0);

    let mut q = Player::new(40 * UNIT, 48 * UNIT);
    q.velocity_x = MAX_VELOCITY;
    q.move_right(true);
    q.update(MAX_STEP_MS, &level);
    assert!(q.x - PLAYER_WIDTH / 2 < 128 * UNIT);
}

#[test]
fn evidence_collected_once() {
    let level = Level::from_string(".....\n.....\n..E..\n.....\nS....", Perspective::TopDown).unwrap();
    let mut p = Player::new(80 * UNIT, 80 * UNIT);
    let events = p.update(16, &level);
    assert_eq!(events, vec![(2, 2)]);
    assert_eq!(p.evidence_collected, vec![(2, 2)]);

    p.x = 144 * UNIT;
    p.y = 24 * UNIT;
    assert!(p.update(16, &level).is_empty());

    p.x = 80 * UNIT;
    p.y = 80 * UNIT;
    assert!(p.update(16, &level).is_empty());
    assert_eq!(p.evidence_collected.len(), 1);
}

#[test]
fn repeated_scans_collect_nothing_more() {
    let level = Level::from_string(".....\n..E..\n..E..\n.....\nS....", Perspective::TopDown).unwrap();
    let mut p = Player::new(80 * UNIT, 64 * UNIT);
    let first = p.check_evidence_collection(&level);
    assert_eq!(first, vec![(2, 1), (2, 2)]);
    for _ in 0..3 {
        assert!(p.check_evidence_collection(&level).is_empty());
        assert_eq!(p.evidence_collected.len(), 2);
    }
}

#[test]
fn animation_advances_every_hundred_ms() {
    let level = open_level(Perspective::TopDown);
    let mut p = Player::new(100 * UNIT, 50 * UNIT);
    p.update(60, &level);
    assert_eq!((p.animation_frame, p.animation_timer), (0, 60));
    p.update(60, &level);
    assert_eq!((p.animation_frame, p.animation_timer), (1, 0));
    for _ in 0..3 {
        p.update(101, &level);
    }
    assert_eq!(p.animation_frame, 0);
}

#[test]
fn timer_delta_measures_and_steps_are_capped() {
    let mut t = Timer::new();
    let d = t.delta();
    assert!(d < 60_000);
    assert_eq!(step_millis(16), 16);
    assert_eq!(step_millis(0), 0);
    assert_eq!(step_millis(5000), MAX_STEP_MS);
}

#[test]
fn fast_fall_onto_single_tile_lands_on_it() {
    let level = Level::from_string("S..\n...\n...\n...\n.#.\n...", Perspective::SideScrolling).unwrap();
    let mut p = Player::new(48 * UNIT, 24 * UNIT);
    p.is_grounded = false;
    p.velocity_y = 1_000_000;
    p.update(100, &level);
    assert_eq!(p.y, 128 * UNIT - PLAYER_HEIGHT / 2);
    assert_eq!(p.velocity_y, 0);
    assert!(p.is_grounded);
}
