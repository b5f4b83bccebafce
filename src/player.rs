//! The player: intent flags, per-step integration for both perspectives,
//! axis-separated collision against solid tiles, and evidence collection.
use vstd::prelude::*;
use crate::level::{Level, Perspective, TileType};
use crate::scan::{all_in_row, all_in_rows, last_in_rows, last_so_far};
use crate::{MAX_DIM, TILE_SIZE, UNIT};

verus! {

/// Horizontal acceleration under input, in velocity steps per millisecond.
pub const ACCELERATION: i64 = 1000;

/// Horizontal speed cap, and the speed of top-down movement.
pub const MAX_VELOCITY: i64 = 500_000;

/// Deceleration of a grounded player without horizontal input, per millisecond.
pub const FRICTION: i64 = 800;

/// Upward speed given by a jump.
pub const JUMP_VELOCITY: i64 = 500_000;

/// Downward acceleration while airborne, per millisecond.
pub const GRAVITY: i64 = 1500;

/// Speed along each axis of diagonal top-down movement: the largest integer
/// `d` with `2 * d * d <= MAX_VELOCITY * MAX_VELOCITY`.
pub const DIAGONAL_VELOCITY: i64 = 353_553;

/// Width of a freshly created player, in the position scale.
pub const PLAYER_WIDTH: i64 = 24 * UNIT;

/// Height of a freshly created player, in the position scale.
pub const PLAYER_HEIGHT: i64 = 48 * UNIT;

/// Longest simulation step, in milliseconds.
pub const MAX_STEP_MS: i64 = 1000;

/// Bound on the magnitude of either velocity component (vertical speed is
/// otherwise unbounded while falling and saturates here).
pub const VELOCITY_LIMIT: i64 = 1_000_000_000_000;

/// Bound on the magnitude of either position coordinate.
pub const POSITION_LIMIT: i64 = 1_000_000_000_000_000;

/// Bound on the player's width and height.
pub const SIZE_LIMIT: i64 = 1_000_000_000_000;

/// Milliseconds that one animation frame lasts.
pub const ANIMATION_FRAME_MS: i64 = 100;

/// Number of frames in the walk animation.
pub const ANIMATION_FRAMES: usize = 4;

/// A jump: from standing, upward at `JUMP_VELOCITY`; in the air, nothing.
pub open spec fn jump_kin(k: Kin) -> Kin {
    if k.grounded {
        Kin { vy: -JUMP_VELOCITY, jumping: true, grounded: false, ..k }
    } else {
        k
    }
}

/// `p` after a jump.
pub open spec fn jumped(p: Player) -> Player {
    if p.is_grounded {
        Player { velocity_y: (-JUMP_VELOCITY) as i64, is_jumping: true, is_grounded: false, ..p }
    } else {
        p
    }
}

/// `p` is a player at rest at `(x, y)`: standing, no input held, facing right,
/// standard size, animation at its start, nothing collected.
pub open spec fn fresh_at(p: Player, x: i64, y: i64) -> bool {
    &&& p.x == x
    &&& p.y == y
    &&& p.velocity_x == 0
    &&& p.velocity_y == 0
    &&& !p.moving_left && !p.moving_right && !p.moving_up && !p.moving_down
    &&& !p.is_jumping
    &&& p.is_grounded
    &&& p.width == PLAYER_WIDTH
    &&& p.height == PLAYER_HEIGHT
    &&& p.facing_right
    &&& p.animation_frame == 0
    &&& p.animation_timer == 0
    &&& p.evidence_collected@ == Seq::<(usize, usize)>::empty()
}

/// The kinematic part of the player's state, as mathematical integers.
pub struct Kin {
    pub x: int,
    pub y: int,
    pub vx: int,
    pub vy: int,
    pub grounded: bool,
    pub jumping: bool,
}

/// The player, the one moving actor of a level.
pub struct Player {
    /// Center of the bounding box, in the position scale.
    pub x: i64,
    pub y: i64,
    /// Velocity, in thousandths of a world unit per second.
    pub velocity_x: i64,
    pub velocity_y: i64,
    pub moving_left: bool,
    pub moving_right: bool,
    pub moving_up: bool,
    pub moving_down: bool,
    pub is_jumping: bool,
    pub is_grounded: bool,
    pub width: i64,
    pub height: i64,
    pub facing_right: bool,
    pub animation_frame: usize,
    /// Milliseconds spent on the current animation frame.
    pub animation_timer: i64,
    /// Coordinates `(column, row)` of the evidence tiles collected so far.
    pub evidence_collected: Vec<(usize, usize)>,
}

/// A coordinate pair as mathematical integers.
pub open spec fn pair_int(t: (usize, usize)) -> (int, int) {
    (t.0 as int, t.1 as int)
}

/// The elapsed times that one step accepts.
pub open spec fn valid_dt(dt: int) -> bool {
    0 <= dt <= MAX_STEP_MS
}

pub open spec fn abs(v: int) -> int {
    if v < 0 { -v } else { v }
}

// ---------------------------------------------------------------------------
// Side-scrolling integration

/// Horizontal velocity after input, friction and the speed cap.
pub open spec fn side_vx(vx: int, left: bool, right: bool, grounded: bool, dt: int) -> int {
    let v1 = if left { vx - ACCELERATION * dt } else { vx };
    let v2 = if right { v1 + ACCELERATION * dt } else { v1 };
    let v3 = if !left && !right && grounded {
        if v2 > 0 {
            if v2 - FRICTION * dt < 0 { 0 } else { v2 - FRICTION * dt }
        } else if v2 < 0 {
            if v2 + FRICTION * dt > 0 { 0 } else { v2 + FRICTION * dt }
        } else {
            v2
        }
    } else {
        v2
    };
    if v3 > MAX_VELOCITY {
        MAX_VELOCITY as int
    } else if v3 < -MAX_VELOCITY {
        -MAX_VELOCITY
    } else {
        v3
    }
}

/// Vertical velocity after gravity, saturating at `VELOCITY_LIMIT`.
pub open spec fn side_vy(vy: int, grounded: bool, dt: int) -> int {
    if grounded {
        vy
    } else if vy + GRAVITY * dt > VELOCITY_LIMIT {
        VELOCITY_LIMIT as int
    } else {
        vy + GRAVITY * dt
    }
}

// ---------------------------------------------------------------------------
// Top-down integration

/// Intent along one axis: -1, 0 or 1.
pub open spec fn axis_intent(neg: bool, pos: bool) -> int {
    (if pos { 1int } else { 0int }) - (if neg { 1int } else { 0int })
}

/// Top-down velocity along one axis: full speed when moving along this axis
/// alone, `DIAGONAL_VELOCITY` when the other axis moves too.
pub open spec fn top_down_velocity(this_axis: int, other_axis: int) -> int {
    if other_axis != 0 {
        this_axis * DIAGONAL_VELOCITY
    } else {
        this_axis * MAX_VELOCITY
    }
}

// ---------------------------------------------------------------------------
// Collision

/// First tile index, clamped into `[0, n]`, of a footprint whose low edge is `lo`.
pub open spec fn span_start(lo: int, n: int) -> int {
    let f = lo / (TILE_SIZE as int);
    if f < 0 {
        0
    } else if f > n {
        n
    } else {
        f
    }
}

/// One past the last tile index, clamped into `[start, n]`, of a footprint
/// whose high edge is `hi`.
pub open spec fn span_end(hi: int, start: int, n: int) -> int {
    let f = hi / (TILE_SIZE as int) + 1;
    if f > n {
        n
    } else if f < start {
        start
    } else {
        f
    }
}

/// Whether the solid tile at `(c, r)` stops a box that moves with velocity `v`
/// along the tested axis, from extent `[olo, ohi]` to extent `[lo, hi]` on that
/// axis: its leading edge crossed the tile's near face during the step.
pub open spec fn contact(level: Level, horizontal: bool, v: int, olo: int, ohi: int, lo: int, hi: int, c: int, r: int) -> bool {
    let k = if horizontal { c } else { r };
    &&& level.solid_at(c, r)
    &&& ((v > 0 && ohi <= k * TILE_SIZE && k * TILE_SIZE < hi) || (v < 0 && lo < (k + 1) * TILE_SIZE && (k + 1)
        * TILE_SIZE <= olo))
}

pub open spec fn contact_pred(level: Level, horizontal: bool, v: int, olo: int, ohi: int, lo: int, hi: int) -> spec_fn(int, int) -> bool {
    |c: int, r: int| contact(level, horizontal, v, olo, ohi, lo, hi, c, r)
}

/// The last tile, in row-major order over the footprint of the box centered at
/// `(x, y)` with half extents `hw`, `hh`, that stops movement with velocity `v`
/// along the tested axis; `orig` is the center's coordinate on that axis
/// before the step.
pub open spec fn pass_hit(level: Level, horizontal: bool, x: int, y: int, hw: int, hh: int, v: int, orig: int) -> Option<(int, int)> {
    let c0 = span_start(x - hw, level.width as int);
    let c1 = span_end(x + hw, c0, level.width as int);
    let r0 = span_start(y - hh, level.height as int);
    let r1 = span_end(y + hh, r0, level.height as int);
    let lo = if horizontal { x - hw } else { y - hh };
    let hi = if horizontal { x + hw } else { y + hh };
    let half = if horizontal { hw } else { hh };
    last_in_rows(contact_pred(level, horizontal, v, orig - half, orig + half, lo, hi), c0, c1, r0, r1)
}

/// The horizontal pass: snap to the face of the last stopping tile and stop,
/// or, with no contact, return to the position before the step.
pub open spec fn resolve_x(level: Level, k: Kin, orig_x: int, hw: int, hh: int) -> Kin {
    match pass_hit(level, true, k.x, k.y, hw, hh, k.vx, orig_x) {
        Some(t) => Kin {
            x: if k.vx > 0 { t.0 * TILE_SIZE - hw } else { (t.0 + 1) * TILE_SIZE + hw },
            vx: 0,
            ..k
        },
        None => Kin { x: orig_x, ..k },
    }
}

/// The vertical pass: as the horizontal one, and it decides whether the
/// player stands on something.
pub open spec fn resolve_y(level: Level, k: Kin, orig_y: int, hw: int, hh: int) -> Kin {
    match pass_hit(level, false, k.x, k.y, hw, hh, k.vy, orig_y) {
        Some(t) => Kin {
            y: if k.vy > 0 { t.1 * TILE_SIZE - hh } else { (t.1 + 1) * TILE_SIZE + hh },
            vy: 0,
            grounded: k.vy > 0,
            jumping: false,
            ..k
        },
        None => Kin { y: orig_y, grounded: false, ..k },
    }
}

/// Keeps the box inside the level; resting on or falling past the bottom
/// edge grounds the player. The bottom edge is applied last, so a level
/// shorter than the player holds it on its bottom edge.
pub open spec fn clamp_bounds(level: Level, k: Kin, hw: int, hh: int) -> Kin {
    let max_x = level.extent_x() - hw;
    let max_y = level.extent_y() - hh;
    let k1 = if k.x < hw {
        Kin { x: hw, vx: 0, ..k }
    } else if k.x > max_x {
        Kin { x: max_x, vx: 0, ..k }
    } else {
        k
    };
    let k2 = if k1.y < hh {
        Kin { y: hh, vy: 0, ..k1 }
    } else {
        k1
    };
    if k2.y >= max_y {
        Kin { y: max_y, vy: 0, grounded: true, jumping: false, ..k2 }
    } else {
        k2
    }
}

/// Collision resolution of a moved player against the level.
pub open spec fn resolve(level: Level, k: Kin, orig_x: int, orig_y: int, hw: int, hh: int) -> Kin {
    clamp_bounds(level, resolve_y(level, resolve_x(level, k, orig_x, hw, hh), orig_y, hw, hh), hw, hh)
}

impl Player {
    pub open spec fn kin(&self) -> Kin {
        Kin {
            x: self.x as int,
            y: self.y as int,
            vx: self.velocity_x as int,
            vy: self.velocity_y as int,
            grounded: self.is_grounded,
            jumping: self.is_jumping,
        }
    }

    pub open spec fn half_width(&self) -> int {
        self.width / 2
    }

    pub open spec fn half_height(&self) -> int {
        self.height / 2
    }

    /// Numbers within the ranges that keep every step free of overflow, and a
    /// collected set without repeats.
    pub open spec fn wf(&self) -> bool {
        &&& -POSITION_LIMIT <= self.x <= POSITION_LIMIT
        &&& -POSITION_LIMIT <= self.y <= POSITION_LIMIT
        &&& -VELOCITY_LIMIT <= self.velocity_x <= VELOCITY_LIMIT
        &&& -VELOCITY_LIMIT <= self.velocity_y <= VELOCITY_LIMIT
        &&& 0 < self.width <= SIZE_LIMIT
        &&& 0 < self.height <= SIZE_LIMIT
        &&& 0 <= self.animation_timer <= ANIMATION_FRAME_MS
        &&& self.animation_frame < ANIMATION_FRAMES
        &&& self.evidence_collected@.no_duplicates()
    }

    /// Everything but the kinematic state is as in `o`.
    pub open spec fn same_but_kin(&self, o: &Player) -> bool {
        &&& self.moving_left == o.moving_left
        &&& self.moving_right == o.moving_right
        &&& self.moving_up == o.moving_up
        &&& self.moving_down == o.moving_down
        &&& self.width == o.width
        &&& self.height == o.height
        &&& self.facing_right == o.facing_right
        &&& self.animation_frame == o.animation_frame
        &&& self.animation_timer == o.animation_timer
        &&& self.evidence_collected == o.evidence_collected
    }

    /// A player at rest at `(x, y)`, standing, facing right, with nothing collected.
    pub fn new(x: i64, y: i64) -> (r: Player)
        ensures
            r.x == x,
            r.y == y,
            r.velocity_x == 0,
            r.velocity_y == 0,
            !r.moving_left && !r.moving_right && !r.moving_up && !r.moving_down,
            !r.is_jumping,
            r.is_grounded,
            r.width == PLAYER_WIDTH,
            r.height == PLAYER_HEIGHT,
            r.facing_right,
            r.animation_frame == 0,
            r.animation_timer == 0,
            r.evidence_collected@ == Seq::<(usize, usize)>::empty(),
            fresh_at(r, x, y),
            -POSITION_LIMIT <= x <= POSITION_LIMIT && -POSITION_LIMIT <= y <= POSITION_LIMIT ==> r.wf(),
    {
        Player {
            x,
            y,
            velocity_x: 0,
            velocity_y: 0,
            moving_left: false,
            moving_right: false,
            moving_up: false,
            moving_down: false,
            is_jumping: false,
            is_grounded: true,
            width: PLAYER_WIDTH,
            height: PLAYER_HEIGHT,
            facing_right: true,
            animation_frame: 0,
            animation_timer: 0,
            evidence_collected: Vec::new(),
        }
    }

    /// Presses or releases "left"; pressing turns the player to the left.
    pub fn move_left(&mut self, pressed: bool)
        ensures
            *final(self) == (Player { moving_left: pressed, facing_right: if pressed { false } else { old(self).facing_right }, ..*old(self) }),
            final(self).moving_left == pressed,
            final(self).facing_right == if pressed { false } else { old(self).facing_right },
            final(self).kin() == old(self).kin(),
            final(self).moving_right == old(self).moving_right,
            final(self).moving_up == old(self).moving_up,
            final(self).moving_down == old(self).moving_down,
            final(self).width == old(self).width,
            final(self).height == old(self).height,
            final(self).animation_frame == old(self).animation_frame,
            final(self).animation_timer == old(self).animation_timer,
            final(self).evidence_collected == old(self).evidence_collected,
    {
        self.moving_left = pressed;
        if pressed {
            self.facing_right = false;
        }
    }

    /// Presses or releases "right"; pressing turns the player to the right.
    pub fn move_right(&mut self, pressed: bool)
        ensures
            *final(self) == (Player { moving_right: pressed, facing_right: if pressed { true } else { old(self).facing_right }, ..*old(self) }),
            final(self).moving_right == pressed,
            final(self).facing_right == if pressed { true } else { old(self).facing_right },
            final(self).kin() == old(self).kin(),
            final(self).moving_left == old(self).moving_left,
            final(self).moving_up == old(self).moving_up,
            final(self).moving_down == old(self).moving_down,
            final(self).width == old(self).width,
            final(self).height == old(self).height,
            final(self).animation_frame == old(self).animation_frame,
            final(self).animation_timer == old(self).animation_timer,
            final(self).evidence_collected == old(self).evidence_collected,
    {
        self.moving_right = pressed;
        if pressed {
            self.facing_right = true;
        }
    }

    /// Presses or releases "up" (top-down movement).
    pub fn move_up(&mut self, pressed: bool)
        ensures
            *final(self) == (Player { moving_up: pressed, ..*old(self) }),
            final(self).moving_up == pressed,
            final(self).kin() == old(self).kin(),
            final(self).moving_left == old(self).moving_left,
            final(self).moving_right == old(self).moving_right,
            final(self).moving_down == old(self).moving_down,
            final(self).facing_right == old(self).facing_right,
            final(self).width == old(self).width,
            final(self).height == old(self).height,
            final(self).animation_frame == old(self).animation_frame,
            final(self).animation_timer == old(self).animation_timer,
            final(self).evidence_collected == old(self).evidence_collected,
    {
        self.moving_up = pressed;
    }

    /// Presses or releases "down" (top-down movement).
    pub fn move_down(&mut self, pressed: bool)
        ensures
            *final(self) == (Player { moving_down: pressed, ..*old(self) }),
            final(self).moving_down == pressed,
            final(self).kin() == old(self).kin(),
            final(self).moving_left == old(self).moving_left,
            final(self).moving_right == old(self).moving_right,
            final(self).moving_up == old(self).moving_up,
            final(self).facing_right == old(self).facing_right,
            final(self).width == old(self).width,
            final(self).height == old(self).height,
            final(self).animation_frame == old(self).animation_frame,
            final(self).animation_timer == old(self).animation_timer,
            final(self).evidence_collected == old(self).evidence_collected,
    {
        self.moving_down = pressed;
    }

    /// Jumps if standing on something; otherwise does nothing.
    pub fn jump(&mut self)
        ensures
            final(self).kin() == jump_kin(old(self).kin()),
            *final(self) == jumped(*old(self)),
            final(self).same_but_kin(old(self)),
            old(self).wf() ==> final(self).wf(),
    {
        if self.is_grounded {
            self.velocity_y = -JUMP_VELOCITY;
            self.is_jumping = true;
            self.is_grounded = false;
        }
    }
}

/// A found tile as mathematical integers.
pub open spec fn opt_int(o: Option<(usize, usize)>) -> Option<(int, int)> {
    match o {
        Some(t) => Some(pair_int(t)),
        None => None,
    }
}

/// The numbers that the collision passes accept: a moved position may be up to
/// one full step outside `POSITION_LIMIT`.
pub open spec fn moving_ok(p: &Player) -> bool {
    &&& -2 * POSITION_LIMIT <= p.x <= 2 * POSITION_LIMIT
    &&& -2 * POSITION_LIMIT <= p.y <= 2 * POSITION_LIMIT
    &&& -VELOCITY_LIMIT <= p.velocity_x <= VELOCITY_LIMIT
    &&& -VELOCITY_LIMIT <= p.velocity_y <= VELOCITY_LIMIT
    &&& 0 < p.width <= SIZE_LIMIT
    &&& 0 < p.height <= SIZE_LIMIT
}

/// Faces of tiles inside a level lie well within the position range.
proof fn lemma_tile_offset(k: int)
    requires
        0 <= k <= MAX_DIM,
    ensures
        0 <= k * TILE_SIZE <= MAX_DIM * TILE_SIZE,
        0 <= (k + 1) * TILE_SIZE <= (MAX_DIM + 1) * TILE_SIZE,
{
    assert(0 <= k * TILE_SIZE <= MAX_DIM * TILE_SIZE) by (nonlinear_arith)
        requires 0 <= k <= MAX_DIM, TILE_SIZE == 32_000_000;
    assert(0 <= (k + 1) * TILE_SIZE <= (MAX_DIM + 1) * TILE_SIZE) by (nonlinear_arith)
        requires 0 <= k <= MAX_DIM, TILE_SIZE == 32_000_000;
}

/// `floor(v / TILE_SIZE)`.
fn tile_floor(v: i64) -> (r: i64)
    requires
        -4 * POSITION_LIMIT <= v <= 4 * POSITION_LIMIT,
    ensures
        r == v as int / (TILE_SIZE as int),
        -4 * POSITION_LIMIT <= r <= 4 * POSITION_LIMIT,
{
    if v >= 0 {
        let q = v / TILE_SIZE;
        proof {
            vstd::arithmetic::div_mod::lemma_fundamental_div_mod(v as int, TILE_SIZE as int);
            vstd::arithmetic::div_mod::lemma_fundamental_div_mod_converse(v as int, TILE_SIZE as int, q as int, v as int - q * TILE_SIZE);
        }
        q
    } else {
        let m = -v - 1;
        let q = m / TILE_SIZE;
        proof {
            let t = TILE_SIZE as int;
            vstd::arithmetic::div_mod::lemma_fundamental_div_mod(m as int, t);
            let s = m as int % t;
            assert(m as int == q * t + s);
            assert(v as int == (-(q as int) - 1) * t + (t - s - 1)) by (nonlinear_arith)
                requires m as int == q * t + s, v as int == -(m as int) - 1;
            vstd::arithmetic::div_mod::lemma_fundamental_div_mod_converse(v as int, t, -(q as int) - 1, t - s - 1);
        }
        -q - 1
    }
}

/// The tile range `[start, end)` covered by the extent `[lo, hi]`, clamped to `[0, n]`.
fn span(lo: i64, hi: i64, n: usize) -> (r: (usize, usize))
    requires
        -4 * POSITION_LIMIT <= lo <= 4 * POSITION_LIMIT,
        -4 * POSITION_LIMIT <= hi <= 4 * POSITION_LIMIT,
        n <= MAX_DIM,
    ensures
        r.0 == span_start(lo as int, n as int),
        r.1 == span_end(hi as int, r.0 as int, n as int),
        r.0 <= r.1 <= n,
{
    let f = tile_floor(lo);
    let start: usize = if f < 0 {
        0
    } else if f > n as i64 {
        n
    } else {
        f as usize
    };
    let g = tile_floor(hi) + 1;
    let end: usize = if g > n as i64 {
        n
    } else if g < start as i64 {
        start
    } else {
        g as usize
    };
    (start, end)
}

/// Whether the tile at `(c, r)` stops the box; see `contact`.
fn tile_contact(level: &Level, horizontal: bool, v: i64, olo: i64, ohi: i64, lo: i64, hi: i64, c: usize, r: usize) -> (b: bool)
    requires
        level.wf(),
        c < level.width,
        r < level.height,
    ensures
        b == contact(*level, horizontal, v as int, olo as int, ohi as int, lo as int, hi as int, c as int, r as int),
{
    let solid = match level.get_tile(c, r) {
        Some(TileType::Platform) => true,
        Some(TileType::Wall) => true,
        _ => false,
    };
    let k: i64 = if horizontal { c as i64 } else { r as i64 };
    solid && ((v > 0 && ohi <= k * TILE_SIZE && k * TILE_SIZE < hi) || (v < 0 && lo < (k + 1) * TILE_SIZE && (k + 1)
        * TILE_SIZE <= olo))
}

/// Scans the footprint row by row and returns the last tile that stops the box.
fn last_contact(level: &Level, horizontal: bool, v: i64, olo: i64, ohi: i64, lo: i64, hi: i64, c0: usize, c1: usize, r0: usize, r1: usize) -> (r: Option<(usize, usize)>)
    requires
        level.wf(),
        c0 <= c1 <= level.width,
        r0 <= r1 <= level.height,
    ensures
        opt_int(r) == last_in_rows(contact_pred(*level, horizontal, v as int, olo as int, ohi as int, lo as int, hi as int), c0 as int, c1 as int, r0 as int, r1 as int),
        r matches Some(t) ==> t.0 < c1 && t.1 < r1,
{
    let ghost p = contact_pred(*level, horizontal, v as int, olo as int, ohi as int, lo as int, hi as int);
    let mut found: Option<(usize, usize)> = None;
    let mut r = r0;
    while r < r1
        invariant
            level.wf(),
            c0 <= c1 <= level.width,
            r0 <= r <= r1 <= level.height,
            p == contact_pred(*level, horizontal, v as int, olo as int, ohi as int, lo as int, hi as int),
            opt_int(found) == last_in_rows(p, c0 as int, c1 as int, r0 as int, r as int),
            found matches Some(t) ==> t.0 < c1 && t.1 < r1,
        decreases r1 - r,
    {
        let mut c = c0;
        while c < c1
            invariant
                level.wf(),
                c0 <= c <= c1 <= level.width,
                r0 <= r < r1 <= level.height,
                p == contact_pred(*level, horizontal, v as int, olo as int, ohi as int, lo as int, hi as int),
                opt_int(found) == last_so_far(p, c0 as int, c1 as int, r0 as int, r as int, c as int),
                found matches Some(t) ==> t.0 < c1 && t.1 < r1,
            decreases c1 - c,
        {
            if tile_contact(level, horizontal, v, olo, ohi, lo, hi, c, r) {
                found = Some((c, r));
            }
            c = c + 1;
        }
        r = r + 1;
    }
    found
}

impl Player {
    /// The horizontal collision pass; `orig_x` is the position before the step.
    fn horizontal_pass(&mut self, level: &Level, orig_x: i64)
        requires
            level.wf(),
            moving_ok(old(self)),
            -POSITION_LIMIT <= orig_x <= POSITION_LIMIT,
        ensures
            final(self).kin() == resolve_x(*level, old(self).kin(), orig_x as int, old(self).half_width(), old(self).half_height()),
            final(self).same_but_kin(old(self)),
            moving_ok(final(self)),
            -POSITION_LIMIT <= final(self).x <= POSITION_LIMIT,
    {
        let hw = self.width / 2;
        let hh = self.height / 2;
        let left = self.x - hw;
        let right = self.x + hw;
        let (c0, c1) = span(left, right, level.width);
        let (r0, r1) = span(self.y - hh, self.y + hh, level.height);
        match last_contact(level, true, self.velocity_x, orig_x - hw, orig_x + hw, left, right, c0, c1, r0, r1) {
            Some((c, _)) => {
                let ci = c as i64;
                proof { lemma_tile_offset(ci as int); }
                if self.velocity_x > 0 {
                    self.x = ci * TILE_SIZE - hw;
                } else {
                    self.x = (ci + 1) * TILE_SIZE + hw;
                }
                self.velocity_x = 0;
            },
            None => {
                self.x = orig_x;
            },
        }
    }

    /// The vertical collision pass; `orig_y` is the position before the step.
    fn vertical_pass(&mut self, level: &Level, orig_y: i64)
        requires
            level.wf(),
            moving_ok(old(self)),
            -POSITION_LIMIT <= old(self).x <= POSITION_LIMIT,
            -POSITION_LIMIT <= orig_y <= POSITION_LIMIT,
        ensures
            final(self).kin() == resolve_y(*level, old(self).kin(), orig_y as int, old(self).half_width(), old(self).half_height()),
            final(self).same_but_kin(old(self)),
            moving_ok(final(self)),
    {
        let hw = self.width / 2;
        let hh = self.height / 2;
        let top = self.y - hh;
        let bottom = self.y + hh;
        let (c0, c1) = span(self.x - hw, self.x + hw, level.width);
        let (r0, r1) = span(top, bottom, level.height);
        self.is_grounded = false;
        match last_contact(level, false, self.velocity_y, orig_y - hh, orig_y + hh, top, bottom, c0, c1, r0, r1) {
            Some((_, r)) => {
                let ri = r as i64;
                proof { lemma_tile_offset(ri as int); }
                if self.velocity_y > 0 {
                    self.y = ri * TILE_SIZE - hh;
                    self.is_grounded = true;
                } else {
                    self.y = (ri + 1) * TILE_SIZE + hh;
                }
                self.velocity_y = 0;
                self.is_jumping = false;
            },
            None => {
                self.y = orig_y;
            },
        }
    }

    /// Keeps the player's box inside the level.
    fn clamp_to_level(&mut self, level: &Level)
        requires
            level.wf(),
            moving_ok(old(self)),
        ensures
            final(self).kin() == clamp_bounds(*level, old(self).kin(), old(self).half_width(), old(self).half_height()),
            final(self).same_but_kin(old(self)),
            -POSITION_LIMIT <= final(self).x <= POSITION_LIMIT,
            -POSITION_LIMIT <= final(self).y <= POSITION_LIMIT,
            -VELOCITY_LIMIT <= final(self).velocity_x <= VELOCITY_LIMIT,
            -VELOCITY_LIMIT <= final(self).velocity_y <= VELOCITY_LIMIT,
    {
        let hw = self.width / 2;
        let hh = self.height / 2;
        let max_x = level.width as i64 * TILE_SIZE - hw;
        let max_y = level.height as i64 * TILE_SIZE - hh;
        if self.x < hw {
            self.x = hw;
            self.velocity_x = 0;
        } else if self.x > max_x {
            self.x = max_x;
            self.velocity_x = 0;
        }
        if self.y < hh {
            self.y = hh;
            self.velocity_y = 0;
        }
        if self.y >= max_y {
            self.y = max_y;
            self.velocity_y = 0;
            self.is_grounded = true;
            self.is_jumping = false;
        }
    }

    /// Corrects a moved player against the level's solid tiles and edges.
    fn handle_collisions(&mut self, level: &Level, orig_x: i64, orig_y: i64)
        requires
            level.wf(),
            moving_ok(old(self)),
            -POSITION_LIMIT <= orig_x <= POSITION_LIMIT,
            -POSITION_LIMIT <= orig_y <= POSITION_LIMIT,
        ensures
            final(self).kin() == resolve(*level, old(self).kin(), orig_x as int, orig_y as int, old(self).half_width(), old(self).half_height()),
            final(self).same_but_kin(old(self)),
            -POSITION_LIMIT <= final(self).x <= POSITION_LIMIT,
            -POSITION_LIMIT <= final(self).y <= POSITION_LIMIT,
            -VELOCITY_LIMIT <= final(self).velocity_x <= VELOCITY_LIMIT,
            -VELOCITY_LIMIT <= final(self).velocity_y <= VELOCITY_LIMIT,
    {
        self.horizontal_pass(level, orig_x);
        self.vertical_pass(level, orig_y);
        self.clamp_to_level(level);
    }
}

// ---------------------------------------------------------------------------
// One simulation step

/// A side-scrolling step of the kinematic state.
pub open spec fn side_scrolling_kin(level: Level, k: Kin, left: bool, right: bool, dt: int, hw: int, hh: int) -> Kin {
    let vx = side_vx(k.vx, left, right, k.grounded, dt);
    let vy = side_vy(k.vy, k.grounded, dt);
    resolve(level, Kin { x: k.x + vx * dt, y: k.y + vy * dt, vx: vx, vy: vy, ..k }, k.x, k.y, hw, hh)
}

/// A top-down step of the kinematic state: the velocity comes from the intent
/// flags alone.
pub open spec fn top_down_kin(level: Level, k: Kin, left: bool, right: bool, up: bool, down: bool, dt: int, hw: int, hh: int) -> Kin {
    let ix = axis_intent(left, right);
    let iy = axis_intent(up, down);
    let vx = top_down_velocity(ix, iy);
    let vy = top_down_velocity(iy, ix);
    resolve(level, Kin { x: k.x + vx * dt, y: k.y + vy * dt, vx: vx, vy: vy, ..k }, k.x, k.y, hw, hh)
}

/// The kinematic state after one step of `dt` milliseconds in `level`.
pub open spec fn step_kin(level: Level, p: Player, dt: int) -> Kin {
    match level.perspective {
        Perspective::SideScrolling => side_scrolling_kin(
            level, p.kin(), p.moving_left, p.moving_right, dt, p.half_width(), p.half_height()),
        Perspective::TopDown => top_down_kin(
            level, p.kin(), p.moving_left, p.moving_right, p.moving_up, p.moving_down, dt, p.half_width(), p.half_height()),
    }
}

/// Facing after a step: top-down movement turns the player by its horizontal intent.
pub open spec fn step_facing(level: Level, p: Player) -> bool {
    match level.perspective {
        Perspective::SideScrolling => p.facing_right,
        Perspective::TopDown => if p.moving_right {
            true
        } else if p.moving_left {
            false
        } else {
            p.facing_right
        },
    }
}

/// The animation timer and frame after `dt` more milliseconds.
pub open spec fn animation_next(timer: int, frame: int, dt: int) -> (int, int) {
    if timer + dt > ANIMATION_FRAME_MS {
        (0, (frame + 1) % (ANIMATION_FRAMES as int))
    } else {
        (timer + dt, frame)
    }
}

/// Whether `(c, r)` is among the collected coordinates.
pub open spec fn is_collected(collected: Seq<(usize, usize)>, c: int, r: int) -> bool {
    exists|i: int| 0 <= i < collected.len() && #[trigger] pair_int(collected[i]) == (c, r)
}

pub open spec fn uncollected_evidence(level: Level, collected: Seq<(usize, usize)>) -> spec_fn(int, int) -> bool {
    |c: int, r: int| level.tile_at(c, r) == Some(TileType::Evidence) && !is_collected(collected, c, r)
}

/// The evidence tiles under the box centered at `(x, y)` with half extents
/// `hw`, `hh` that are not yet collected, in row-major order.
pub open spec fn new_evidence(level: Level, x: int, y: int, hw: int, hh: int, collected: Seq<(usize, usize)>) -> Seq<(int, int)> {
    let c0 = span_start(x - hw, level.width as int);
    let c1 = span_end(x + hw, c0, level.width as int);
    let r0 = span_start(y - hh, level.height as int);
    let r1 = span_end(y + hh, r0, level.height as int);
    all_in_rows(uncollected_evidence(level, collected), c0, c1, r0, r1)
}

/// Whether `id` is among `ids`.
pub(crate) fn contains_id(ids: &Vec<(usize, usize)>, id: (usize, usize)) -> (b: bool)
    ensures
        b == is_collected(ids@, id.0 as int, id.1 as int),
{
    let mut i: usize = 0;
    while i < ids.len()
        invariant
            i <= ids@.len(),
            forall|j: int| 0 <= j < i ==> #[trigger] pair_int(ids@[j]) != pair_int(id),
        decreases ids@.len() - i,
    {
        if ids[i].0 == id.0 && ids[i].1 == id.1 {
            assert(pair_int(ids@[i as int]) == (id.0 as int, id.1 as int));
            return true;
        }
        i = i + 1;
    }
    false
}

/// Displacement over one step stays within the position range.
proof fn lemma_step_displacement(v: int, dt: int)
    requires
        -VELOCITY_LIMIT <= v <= VELOCITY_LIMIT,
        0 <= dt <= MAX_STEP_MS,
    ensures
        -POSITION_LIMIT <= v * dt <= POSITION_LIMIT,
{
    assert(-VELOCITY_LIMIT * MAX_STEP_MS <= v * dt <= VELOCITY_LIMIT * MAX_STEP_MS) by (nonlinear_arith)
        requires -VELOCITY_LIMIT <= v <= VELOCITY_LIMIT, 0 <= dt <= MAX_STEP_MS,
            VELOCITY_LIMIT == 1_000_000_000_000i64, MAX_STEP_MS == 1000i64;
}

impl Player {
    fn update_side_scrolling(&mut self, dt: i64, level: &Level)
        requires
            level.wf(),
            old(self).wf(),
            valid_dt(dt as int),
        ensures
            final(self).kin() == side_scrolling_kin(*level, old(self).kin(), old(self).moving_left, old(self).moving_right,
                dt as int, old(self).half_width(), old(self).half_height()),
            final(self).same_but_kin(old(self)),
            final(self).wf(),
    {
        let mut vx = self.velocity_x;
        if self.moving_left {
            vx = vx - ACCELERATION * dt;
        }
        if self.moving_right {
            vx = vx + ACCELERATION * dt;
        }
        if !self.moving_left && !self.moving_right && self.is_grounded {
            if vx > 0 {
                vx = vx - FRICTION * dt;
                if vx < 0 {
                    vx = 0;
                }
            } else if vx < 0 {
                vx = vx + FRICTION * dt;
                if vx > 0 {
                    vx = 0;
                }
            }
        }
        let mut vy = self.velocity_y;
        if !self.is_grounded {
            if vy > VELOCITY_LIMIT - GRAVITY * dt {
                vy = VELOCITY_LIMIT;
            } else {
                vy = vy + GRAVITY * dt;
            }
        }
        if vx > MAX_VELOCITY {
            vx = MAX_VELOCITY;
        } else if vx < -MAX_VELOCITY {
            vx = -MAX_VELOCITY;
        }
        let orig_x = self.x;
        let orig_y = self.y;
        proof {
            lemma_step_displacement(vx as int, dt as int);
            lemma_step_displacement(vy as int, dt as int);
        }
        self.velocity_x = vx;
        self.velocity_y = vy;
        self.x = self.x + vx * dt;
        self.y = self.y + vy * dt;
        self.handle_collisions(level, orig_x, orig_y);
    }

    fn update_top_down(&mut self, dt: i64, level: &Level)
        requires
            level.wf(),
            old(self).wf(),
            valid_dt(dt as int),
        ensures
            final(self).kin() == top_down_kin(*level, old(self).kin(), old(self).moving_left, old(self).moving_right,
                old(self).moving_up, old(self).moving_down, dt as int, old(self).half_width(), old(self).half_height()),
            final(self).facing_right == if old(self).moving_right {
                true
            } else if old(self).moving_left {
                false
            } else {
                old(self).facing_right
            },
            final(self).moving_left == old(self).moving_left,
            final(self).moving_right == old(self).moving_right,
            final(self).moving_up == old(self).moving_up,
            final(self).moving_down == old(self).moving_down,
            final(self).width == old(self).width,
            final(self).height == old(self).height,
            final(self).animation_frame == old(self).animation_frame,
            final(self).animation_timer == old(self).animation_timer,
            final(self).evidence_collected == old(self).evidence_collected,
            final(self).wf(),
    {
        let mut ix: i64 = 0;
        let mut iy: i64 = 0;
        if self.moving_left {
            ix = ix - 1;
            self.facing_right = false;
        }
        if self.moving_right {
            ix = ix + 1;
            self.facing_right = true;
        }
        if self.moving_up {
            iy = iy - 1;
        }
        if self.moving_down {
            iy = iy + 1;
        }
        let speed = if ix != 0 && iy != 0 { DIAGONAL_VELOCITY } else { MAX_VELOCITY };
        let dx = ix * speed;
        let dy = iy * speed;
        let orig_x = self.x;
        let orig_y = self.y;
        proof {
            lemma_step_displacement(dx as int, dt as int);
            lemma_step_displacement(dy as int, dt as int);
        }
        self.velocity_x = dx;
        self.velocity_y = dy;
        self.x = self.x + dx * dt;
        self.y = self.y + dy * dt;
        self.handle_collisions(level, orig_x, orig_y);
    }

    fn animate(&mut self, dt: i64)
        requires
            old(self).wf(),
            valid_dt(dt as int),
        ensures
            (final(self).animation_timer as int, final(self).animation_frame as int) == animation_next(
                old(self).animation_timer as int, old(self).animation_frame as int, dt as int),
            final(self).kin() == old(self).kin(),
            final(self).moving_left == old(self).moving_left,
            final(self).moving_right == old(self).moving_right,
            final(self).moving_up == old(self).moving_up,
            final(self).moving_down == old(self).moving_down,
            final(self).facing_right == old(self).facing_right,
            final(self).width == old(self).width,
            final(self).height == old(self).height,
            final(self).evidence_collected == old(self).evidence_collected,
            final(self).wf(),
    {
        self.animation_timer = self.animation_timer + dt;
        if self.animation_timer > ANIMATION_FRAME_MS {
            self.animation_timer = 0;
            self.animation_frame = (self.animation_frame + 1) % ANIMATION_FRAMES;
        }
    }

    /// Collects every evidence tile under the player that was not collected
    /// yet, and returns those tiles in row-major order.
    pub fn check_evidence_collection(&mut self, level: &Level) -> (events: Vec<(usize, usize)>)
        requires
            level.wf(),
            old(self).wf(),
        ensures
            events@.map_values(|t: (usize, usize)| pair_int(t)) == new_evidence(*level, old(self).x as int, old(self).y as int,
                old(self).half_width(), old(self).half_height(), old(self).evidence_collected@),
            final(self).evidence_collected@ == old(self).evidence_collected@ + events@,
            final(self).kin() == old(self).kin(),
            final(self).moving_left == old(self).moving_left,
            final(self).moving_right == old(self).moving_right,
            final(self).moving_up == old(self).moving_up,
            final(self).moving_down == old(self).moving_down,
            final(self).facing_right == old(self).facing_right,
            final(self).width == old(self).width,
            final(self).height == old(self).height,
            final(self).animation_frame == old(self).animation_frame,
            final(self).animation_timer == old(self).animation_timer,
            final(self).wf(),
    {
        let ghost start = self.evidence_collected@;
        let ghost p = uncollected_evidence(*level, start);
        let hw = self.width / 2;
        let hh = self.height / 2;
        let (c0, c1) = span(self.x - hw, self.x + hw, level.width);
        let (r0, r1) = span(self.y - hh, self.y + hh, level.height);
        let mut events: Vec<(usize, usize)> = Vec::new();
        let mut r = r0;
        while r < r1
            invariant
                level.wf(),
                c0 <= c1 <= level.width,
                r0 <= r <= r1 <= level.height,
                p == uncollected_evidence(*level, start),
                self.evidence_collected@ == start + events@,
                self.evidence_collected@.no_duplicates(),
                events@.map_values(|t: (usize, usize)| pair_int(t)) == all_in_rows(p, c0 as int, c1 as int, r0 as int, r as int),
                self.kin() == old(self).kin(),
                self.same_but_kin_except_evidence(old(self)),
                self.wf(),
            decreases r1 - r,
        {
            let mut c = c0;
            while c < c1
                invariant
                    level.wf(),
                    c0 <= c <= c1 <= level.width,
                    r0 <= r < r1 <= level.height,
                    p == uncollected_evidence(*level, start),
                    self.evidence_collected@ == start + events@,
                    self.evidence_collected@.no_duplicates(),
                    events@.map_values(|t: (usize, usize)| pair_int(t)) == all_in_rows(p, c0 as int, c1 as int, r0 as int, r as int)
                        + all_in_row(p, r as int, c0 as int, c as int),
                    self.kin() == old(self).kin(),
                    self.same_but_kin_except_evidence(old(self)),
                    self.wf(),
                decreases c1 - c,
            {
                if level.get_tile(c, r) == Some(TileType::Evidence) {
                    let seen = contains_id(&self.evidence_collected, (c, r));
                    proof {
                        lemma_scanned_before(p, c0 as int, c1 as int, r0 as int, r as int, c as int,
                            events@.map_values(|t: (usize, usize)| pair_int(t)));
                        assert forall|i: int| 0 <= i < events@.len() implies #[trigger] pair_int(events@[i]) != (c as int, r as int) by {
                            assert(events@.map_values(|t: (usize, usize)| pair_int(t))[i] == pair_int(events@[i]));
                        }
                        if is_collected(start, c as int, r as int) {
                            let i = choose|i: int| 0 <= i < start.len() && #[trigger] pair_int(start[i]) == (c as int, r as int);
                            assert(self.evidence_collected@[i] == start[i]);
                        }
                        if is_collected(self.evidence_collected@, c as int, r as int) {
                            let i = choose|i: int| 0 <= i < self.evidence_collected@.len()
                                && #[trigger] pair_int(self.evidence_collected@[i]) == (c as int, r as int);
                            if i >= start.len() {
                                assert(self.evidence_collected@[i] == events@[i - start.len()]);
                            }
                        }
                    }
                    if !seen {
                        let ghost before = events@;
                        let ghost cur = self.evidence_collected@;
                        proof {
                            assert forall|i: int| 0 <= i < cur.len() implies cur[i] != (c, r) by {
                                if cur[i] == (c, r) {
                                    assert(pair_int(cur[i]) == (c as int, r as int));
                                }
                            }
                        }
                        events.push((c, r));
                        self.evidence_collected.push((c, r));
                        proof {
                            let s = self.evidence_collected@;
                            assert forall|i: int, j: int| 0 <= i < s.len() && 0 <= j < s.len() && i != j implies s[i] != s[j] by {
                                if i < cur.len() && j < cur.len() {
                                    assert(s[i] == cur[i] && s[j] == cur[j]);
                                } else if i < cur.len() {
                                    assert(s[i] == cur[i]);
                                } else {
                                    assert(s[j] == cur[j]);
                                }
                            }
                            assert(events@.map_values(|t: (usize, usize)| pair_int(t)) =~= before.map_values(
                                |t: (usize, usize)| pair_int(t)).push((c as int, r as int)));
                            assert(self.evidence_collected@ =~= start + events@);
                        }
                    }
                }
                c = c + 1;
            }
            r = r + 1;
        }
        events
    }

    /// A player at rest at the level's spawn point, with nothing collected.
    /// Collected evidence is kept per level: entering another level means a
    /// new player.
    pub fn spawn(level: &Level) -> (r: Player)
        requires
            level.wf(),
        ensures
            r.x == level.spawn_point.0,
            r.y == level.spawn_point.1,
            r.velocity_x == 0,
            r.velocity_y == 0,
            !r.moving_left && !r.moving_right && !r.moving_up && !r.moving_down,
            !r.is_jumping,
            r.is_grounded,
            r.width == PLAYER_WIDTH,
            r.height == PLAYER_HEIGHT,
            r.facing_right,
            r.evidence_collected@ == Seq::<(usize, usize)>::empty(),
            fresh_at(r, level.spawn_point.0, level.spawn_point.1),
            r.wf(),
    {
        Player::new(level.spawn_point.0, level.spawn_point.1)
    }

    /// Advances the player by `dt` milliseconds in `level`: integration by the
    /// level's perspective, collision resolution, animation, then evidence
    /// collection. Returns the evidence collected in this step.
    pub fn update(&mut self, dt: i64, level: &Level) -> (events: Vec<(usize, usize)>)
        requires
            level.wf(),
            old(self).wf(),
            valid_dt(dt as int),
        ensures
            final(self).kin() == step_kin(*level, *old(self), dt as int),
            final(self).facing_right == step_facing(*level, *old(self)),
            (final(self).animation_timer as int, final(self).animation_frame as int) == animation_next(
                old(self).animation_timer as int, old(self).animation_frame as int, dt as int),
            events@.map_values(|t: (usize, usize)| pair_int(t)) == new_evidence(*level, final(self).x as int, final(self).y as int,
                old(self).half_width(), old(self).half_height(), old(self).evidence_collected@),
            final(self).evidence_collected@ == old(self).evidence_collected@ + events@,
            final(self).moving_left == old(self).moving_left,
            final(self).moving_right == old(self).moving_right,
            final(self).moving_up == old(self).moving_up,
            final(self).moving_down == old(self).moving_down,
            final(self).width == old(self).width,
            final(self).height == old(self).height,
            final(self).wf(),
    {
        match level.perspective {
            Perspective::SideScrolling => self.update_side_scrolling(dt, level),
            Perspective::TopDown => self.update_top_down(dt, level),
        }
        self.animate(dt);
        self.check_evidence_collection(level)
    }

    /// Everything but the collected evidence is as in `o`.
    pub open spec fn same_but_kin_except_evidence(&self, o: &Player) -> bool {
        &&& self.moving_left == o.moving_left
        &&& self.moving_right == o.moving_right
        &&& self.moving_up == o.moving_up
        &&& self.moving_down == o.moving_down
        &&& self.width == o.width
        &&& self.height == o.height
        &&& self.facing_right == o.facing_right
        &&& self.animation_frame == o.animation_frame
        &&& self.animation_timer == o.animation_timer
    }
}

/// Tiles listed by a scan that has reached column `c` of row `r` all come
/// before `(c, r)`.
proof fn lemma_scanned_before(p: spec_fn(int, int) -> bool, c0: int, c1: int, r0: int, r: int, c: int, s: Seq<(int, int)>)
    requires
        s == all_in_rows(p, c0, c1, r0, r) + all_in_row(p, r, c0, c),
    ensures
        forall|i: int| 0 <= i < s.len() ==> #[trigger] s[i] != (c, r),
{
    crate::scan::lemma_all_in_rows_members(p, c0, c1, r0, r);
    crate::scan::lemma_all_in_row_members(p, r, c0, c);
    let a = all_in_rows(p, c0, c1, r0, r);
    let b = all_in_row(p, r, c0, c);
    assert forall|i: int| 0 <= i < s.len() implies #[trigger] s[i] != (c, r) by {
        if i < a.len() {
            assert(s[i] == a[i]);
        } else {
            assert(s[i] == b[i - a.len()]);
        }
    }
}

} // verus!
