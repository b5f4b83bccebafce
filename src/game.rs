//! The playing screen's logic: keys to player actions, level switching,
//! the per-frame step, the camera and which tiles are drawn.
use vstd::prelude::*;
use crate::level::{describes, rows_valid, text_rows, Level, Perspective, TileType};
use crate::player::{
    animation_next, fresh_at, is_collected, jumped, new_evidence, pair_int, step_facing, step_kin, valid_dt, Player,
    POSITION_LIMIT,
};
use crate::world::World;
use crate::UNIT;

verus! {

/// The keys that the playing screen reacts to.
#[derive(Clone, Copy, PartialEq, Eq, Structural, Debug)]
pub enum Key {
    Left,
    Right,
    Up,
    Down,
    Space,
    Tab,
    Escape,
}

/// What a visible tile is drawn with.
#[derive(Clone, Copy, PartialEq, Eq, Structural, Debug)]
pub enum TileSprite {
    /// Platforms and walls.
    Platform,
    /// Evidence not collected yet.
    Evidence,
}

/// Width of the view, in the position scale.
pub const SCREEN_WIDTH: i64 = 800 * UNIT;

/// Height of the view, in the position scale.
pub const SCREEN_HEIGHT: i64 = 600 * UNIT;

/// Name of the side-scrolling level that Tab switches between.
pub open spec fn side_level_name() -> Seq<char> {
    "test_level"@
}

/// Name of the top-down level that Tab switches between.
pub open spec fn top_level_name() -> Seq<char> {
    "topdown_level"@
}

/// Division by ten, rounded toward zero.
pub open spec fn tenth(d: int) -> int {
    if d >= 0 {
        d / 10
    } else {
        -((-d) / 10)
    }
}

/// The camera moves a tenth of the way toward its target.
pub open spec fn camera_follow(cam: int, target: int) -> int {
    cam + tenth(target - cam)
}

/// The camera stays within the level: not before its start, not past its end
/// less one screen.
pub open spec fn camera_clamp(cam: int, extent: int, screen: int) -> int {
    if cam < 0 {
        0
    } else if cam > extent - screen {
        extent - screen
    } else {
        cam
    }
}

/// The side-scrolling built-in level.
pub const SIDE_LEVEL_TEXT: &'static str = "
####################
#                  #
#                  #
#     E            #
#   #####          #
#                  #
#         S        #
#                  #
#                  #
#       #####      #
#                  #
#                  #
#                 E#
####################
";

/// The top-down built-in level.
pub const TOP_LEVEL_TEXT: &'static str = "
####################
#                  #
#     E            #
#                  #
#   #####          #
#                  #
#         S        #
#        ###       #
#         #        #
#       #####      #
#                  #
#            E     #
#                  #
####################
";

/// `o` is the level that `text` describes, if it describes one.
pub open spec fn loaded(o: Option<Level>, text: Seq<char>, perspective: Perspective) -> bool {
    if rows_valid(text_rows(text)) {
        o matches Some(l) && describes(l, text, perspective)
    } else {
        o is None
    }
}

/// `w` holds the two built-in levels, `test_level` side-scrolling and
/// `topdown_level` top-down, and plays the first of them that loaded.
pub open spec fn built_in(w: World) -> bool {
    let side_ok = rows_valid(text_rows(SIDE_LEVEL_TEXT@));
    let top_ok = rows_valid(text_rows(TOP_LEVEL_TEXT@));
    &&& w.wf()
    &&& loaded(w.level_named(side_level_name()), SIDE_LEVEL_TEXT@, Perspective::SideScrolling)
    &&& loaded(w.level_named(top_level_name()), TOP_LEVEL_TEXT@, Perspective::TopDown)
    &&& w.current_name() == if side_ok {
        side_level_name()
    } else if top_ok {
        top_level_name()
    } else {
        Seq::<char>::empty()
    }
}

/// The world of the built-in levels.
pub fn built_in_world() -> (w: World)
    ensures
        built_in(w),
{
    proof {
        reveal_strlit("test_level");
        reveal_strlit("topdown_level");
    }
    assert("test_level"@ != "topdown_level"@) by {
        assert("test_level"@.len() != "topdown_level"@.len());
    }
    let mut world = World::new();
    let side = Level::from_string(SIDE_LEVEL_TEXT, Perspective::SideScrolling);
    match side {
        Ok(level) => world.add_level("test_level", level),
        Err(_) => {},
    }
    assert(loaded(world.level_named(side_level_name()), SIDE_LEVEL_TEXT@, Perspective::SideScrolling));
    assert(world.level_named(top_level_name()) is None);
    let ghost mid = world;
    let top = Level::from_string(TOP_LEVEL_TEXT, Perspective::TopDown);
    match top {
        Ok(level) => world.add_level("topdown_level", level),
        Err(_) => {},
    }
    assert(world.level_named(side_level_name()) == mid.level_named(side_level_name()));
    assert(loaded(world.level_named(top_level_name()), TOP_LEVEL_TEXT@, Perspective::TopDown));
    world
}

/// The player, the levels, and the camera's top-left corner.
pub struct PlayingState {
    pub player: Player,
    pub world: World,
    pub camera_x: i64,
    pub camera_y: i64,
}

impl PlayingState {
    pub open spec fn wf(&self) -> bool {
        &&& self.player.wf()
        &&& self.world.wf()
        &&& -2 * POSITION_LIMIT <= self.camera_x <= 2 * POSITION_LIMIT
        &&& -2 * POSITION_LIMIT <= self.camera_y <= 2 * POSITION_LIMIT
    }

    /// The level being played, if the world has one under its current name.
    pub open spec fn current(&self) -> Option<Level> {
        self.world.level_named(self.world.current_name())
    }

    /// No levels, a player at the origin, the camera at the origin.
    pub fn new_empty() -> (r: PlayingState)
        ensures
            r.wf(),
            r.current() is None,
            r.player.x == 0 && r.player.y == 0,
            r.camera_x == 0 && r.camera_y == 0,
    {
        PlayingState { player: Player::new(0, 0), world: World::new(), camera_x: 0, camera_y: 0 }
    }

    /// Plays `world`: the player starts at the current level's spawn point.
    pub fn with_world(world: World) -> (r: PlayingState)
        requires
            world.wf(),
        ensures
            r.wf(),
            r.world == world,
            r.camera_x == 0 && r.camera_y == 0,
            r.current() matches Some(l) ==> fresh_at(r.player, l.spawn_point.0, l.spawn_point.1),
            r.current() is None ==> fresh_at(r.player, (100 * UNIT) as i64, (300 * UNIT) as i64),
    {
        let mut player = Player::new(100 * UNIT, 300 * UNIT);
        match world.current_level() {
            Some(level) => {
                player = Player::spawn(level);
            },
            None => {},
        }
        PlayingState { player, world, camera_x: 0, camera_y: 0 }
    }

    /// Plays the built-in world (see `built_in_world`).
    pub fn new() -> (r: PlayingState)
        ensures
            r.wf(),
            built_in(r.world),
            r.camera_x == 0 && r.camera_y == 0,
            r.current() matches Some(l) ==> fresh_at(r.player, l.spawn_point.0, l.spawn_point.1),
            r.current() is None ==> fresh_at(r.player, (100 * UNIT) as i64, (300 * UNIT) as i64),
    {
        PlayingState::with_world(built_in_world())
    }

    /// Reacts to a key going down (`pressed`) or up. Arrows move; Up jumps in
    /// a side-scrolling level; Space jumps; Tab switches between the two
    /// levels and starts over at the new level's spawn point with nothing
    /// collected there. Returns whether the game should end (Escape).
    pub fn handle_key(&mut self, key: Key, pressed: bool) -> (exit: bool)
        requires
            old(self).wf(),
        ensures
            final(self).wf(),
            exit == (key == Key::Escape && pressed),
            final(self).camera_x == old(self).camera_x,
            final(self).camera_y == old(self).camera_y,
            key != Key::Tab || !pressed ==> final(self).world == old(self).world,
            key == Key::Left ==> final(self).player == (Player {
                moving_left: pressed,
                facing_right: if pressed { false } else { old(self).player.facing_right },
                ..old(self).player
            }),
            key == Key::Right ==> final(self).player == (Player {
                moving_right: pressed,
                facing_right: if pressed { true } else { old(self).player.facing_right },
                ..old(self).player
            }),
            key == Key::Down ==> final(self).player == (Player { moving_down: pressed, ..old(self).player }),
            key == Key::Up && !pressed ==> final(self).player == (Player { moving_up: false, ..old(self).player }),
            key == Key::Up && pressed ==> final(self).player == match old(self).current() {
                Some(l) => if l.perspective == Perspective::SideScrolling {
                    jumped(old(self).player)
                } else {
                    Player { moving_up: true, ..old(self).player }
                },
                None => old(self).player,
            },
            key == Key::Space ==> final(self).player == if pressed { jumped(old(self).player) } else { old(self).player },
            key == Key::Escape ==> final(self).player == old(self).player,
            key == Key::Tab && !pressed ==> final(self).player == old(self).player,
            key == Key::Tab && pressed ==> {
                let target = if old(self).world.current_name() == side_level_name() {
                    top_level_name()
                } else {
                    side_level_name()
                };
                &&& final(self).world.levels == old(self).world.levels
                &&& final(self).world.current_name() == if old(self).world.level_named(target) is Some {
                    target
                } else {
                    old(self).world.current_name()
                }
                &&& final(self).current() matches Some(l) ==> fresh_at(final(self).player, l.spawn_point.0, l.spawn_point.1)
                &&& final(self).current() is None ==> final(self).player == old(self).player
            },
    {
        match key {
            Key::Escape => {
                return pressed;
            },
            Key::Left => {
                self.player.move_left(pressed);
            },
            Key::Right => {
                self.player.move_right(pressed);
            },
            Key::Down => {
                self.player.move_down(pressed);
            },
            Key::Up => {
                if pressed {
                    match self.world.current_level() {
                        Some(level) => {
                            match level.perspective {
                                Perspective::SideScrolling => self.player.jump(),
                                Perspective::TopDown => self.player.move_up(true),
                            }
                        },
                        None => {},
                    }
                } else {
                    self.player.move_up(false);
                }
            },
            Key::Space => {
                if pressed {
                    self.player.jump();
                }
            },
            Key::Tab => {
                if pressed {
                    let side = "test_level".to_owned();
                    proof {
                        reveal_strlit("test_level");
                        reveal_strlit("topdown_level");
                    }
                    if self.world.current_level == side {
                        self.world.switch_level("topdown_level");
                    } else {
                        self.world.switch_level("test_level");
                    }
                    match self.world.current_level() {
                        Some(level) => {
                            self.player = Player::spawn(level);
                        },
                        None => {},
                    }
                }
            },
        }
        false
    }

    /// One frame: the player steps `dt` milliseconds in the current level
    /// (nothing moves without one), then the camera follows. Returns the
    /// evidence collected in this frame.
    pub fn update(&mut self, dt: i64) -> (events: Vec<(usize, usize)>)
        requires
            old(self).wf(),
            valid_dt(dt as int),
        ensures
            final(self).wf(),
            final(self).world == old(self).world,
            match old(self).current() {
                Some(l) => {
                    let o = old(self).player;
                    let f = final(self).player;
                    &&& f.kin() == step_kin(l, o, dt as int)
                    &&& f.facing_right == step_facing(l, o)
                    &&& (f.animation_timer as int, f.animation_frame as int) == animation_next(
                        o.animation_timer as int, o.animation_frame as int, dt as int)
                    &&& events@.map_values(|t: (usize, usize)| pair_int(t)) == new_evidence(l, f.x as int, f.y as int,
                        o.half_width(), o.half_height(), o.evidence_collected@)
                    &&& f.evidence_collected@ == o.evidence_collected@ + events@
                    &&& f.moving_left == o.moving_left
                    &&& f.moving_right == o.moving_right
                    &&& f.moving_up == o.moving_up
                    &&& f.moving_down == o.moving_down
                    &&& f.width == o.width
                    &&& f.height == o.height
                },
                None => final(self).player == old(self).player && events@.len() == 0,
            },
            final(self).camera_x == match old(self).current() {
                Some(l) => camera_clamp(camera_follow(old(self).camera_x as int, final(self).player.x - SCREEN_WIDTH / 2),
                    l.extent_x(), SCREEN_WIDTH as int),
                None => camera_follow(old(self).camera_x as int, final(self).player.x - SCREEN_WIDTH / 2),
            },
            final(self).camera_y == match old(self).current() {
                Some(l) => camera_clamp(camera_follow(old(self).camera_y as int, final(self).player.y - SCREEN_HEIGHT / 2),
                    l.extent_y(), SCREEN_HEIGHT as int),
                None => camera_follow(old(self).camera_y as int, final(self).player.y - SCREEN_HEIGHT / 2),
            },
    {
        let events = match self.world.current_level() {
            Some(level) => self.player.update(dt, level),
            None => Vec::new(),
        };
        self.update_camera(SCREEN_WIDTH, SCREEN_HEIGHT);
        events
    }

    /// Moves the camera a tenth of the way toward centering the player, then
    /// keeps it within the current level.
    pub fn update_camera(&mut self, screen_width: i64, screen_height: i64)
        requires
            old(self).wf(),
            0 <= screen_width <= POSITION_LIMIT,
            0 <= screen_height <= POSITION_LIMIT,
        ensures
            final(self).wf(),
            final(self).player == old(self).player,
            final(self).world == old(self).world,
            final(self).camera_x == match old(self).current() {
                Some(l) => camera_clamp(camera_follow(old(self).camera_x as int, old(self).player.x - screen_width / 2),
                    l.extent_x(), screen_width as int),
                None => camera_follow(old(self).camera_x as int, old(self).player.x - screen_width / 2),
            },
            final(self).camera_y == match old(self).current() {
                Some(l) => camera_clamp(camera_follow(old(self).camera_y as int, old(self).player.y - screen_height / 2),
                    l.extent_y(), screen_height as int),
                None => camera_follow(old(self).camera_y as int, old(self).player.y - screen_height / 2),
            },
    {
        let cx = follow(self.camera_x, self.player.x - screen_width / 2);
        let cy = follow(self.camera_y, self.player.y - screen_height / 2);
        match self.world.current_level() {
            Some(level) => {
                proof {
                    crate::level::lemma_extent_bound(*level);
                }
                let level_width = level.width as i64 * crate::TILE_SIZE;
                let level_height = level.height as i64 * crate::TILE_SIZE;
                self.camera_x = clamp_camera(cx, level_width, screen_width);
                self.camera_y = clamp_camera(cy, level_height, screen_height);
            },
            None => {
                self.camera_x = cx;
                self.camera_y = cy;
            },
        }
    }

    /// What the tile at column `x`, row `y` of the current level is drawn
    /// with: platforms and walls alike, evidence until it is collected,
    /// nothing for empty tiles or outside the level.
    pub fn sprite_at(&self, x: usize, y: usize) -> (r: Option<TileSprite>)
        requires
            self.wf(),
        ensures
            r == match self.current() {
                Some(l) => match l.tile_at(x as int, y as int) {
                    Some(TileType::Platform) => Some(TileSprite::Platform),
                    Some(TileType::Wall) => Some(TileSprite::Platform),
                    Some(TileType::Evidence) => if is_collected(self.player.evidence_collected@, x as int, y as int) {
                        None
                    } else {
                        Some(TileSprite::Evidence)
                    },
                    _ => None,
                },
                None => None,
            },
    {
        match self.world.current_level() {
            Some(level) => match level.get_tile(x, y) {
                Some(TileType::Platform) => Some(TileSprite::Platform),
                Some(TileType::Wall) => Some(TileSprite::Platform),
                Some(TileType::Evidence) => {
                    if crate::player::contains_id(&self.player.evidence_collected, (x, y)) {
                        None
                    } else {
                        Some(TileSprite::Evidence)
                    }
                },
                _ => None,
            },
            None => None,
        }
    }
}

fn follow(cam: i64, target: i64) -> (r: i64)
    requires
        -2 * POSITION_LIMIT <= cam <= 2 * POSITION_LIMIT,
        -2 * POSITION_LIMIT <= target <= 2 * POSITION_LIMIT,
    ensures
        r == camera_follow(cam as int, target as int),
        -2 * POSITION_LIMIT <= r <= 2 * POSITION_LIMIT,
{
    let d = target - cam;
    if d >= 0 {
        cam + d / 10
    } else {
        cam - (-d) / 10
    }
}

fn clamp_camera(cam: i64, extent: i64, screen: i64) -> (r: i64)
    requires
        -2 * POSITION_LIMIT <= cam <= 2 * POSITION_LIMIT,
        0 <= extent <= POSITION_LIMIT,
        0 <= screen <= POSITION_LIMIT,
    ensures
        r == camera_clamp(cam as int, extent as int, screen as int),
        -POSITION_LIMIT <= r <= POSITION_LIMIT,
{
    if cam < 0 {
        0
    } else if cam > extent - screen {
        extent - screen
    } else {
        cam
    }
}

} // verus!
