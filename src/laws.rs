//! Properties of the simulation step, proved over the step's spec functions.
use vstd::prelude::*;
use crate::level::{Level, Perspective};
use crate::player::{
    abs, axis_intent, clamp_bounds, contact, contact_pred, new_evidence, pair_int, pass_hit, resolve, resolve_x,
    resolve_y, side_vx, span_end, span_start, step_kin, top_down_velocity, uncollected_evidence, valid_dt, is_collected,
    Kin, Player, DIAGONAL_VELOCITY, FRICTION, MAX_VELOCITY,
};
use crate::scan::{all_in_rows, lemma_all_in_rows_complete, lemma_all_in_rows_members, lemma_last_in_rows_found};
use crate::TILE_SIZE;

verus! {

/// After collision resolution the player stands exactly when the vertical
/// pass stopped a downward movement, or the player rests on the bottom edge
/// of the level.
pub proof fn lemma_grounded_iff_contact_or_floor(level: Level, k: Kin, orig_x: int, orig_y: int, hw: int, hh: int)
    requires
        level.wf(),
    ensures
        ({
            let kx = resolve_x(level, k, orig_x, hw, hh);
            let fin = resolve(level, k, orig_x, orig_y, hw, hh);
            fin.grounded == ((pass_hit(level, false, kx.x, kx.y, hw, hh, kx.vy, orig_y) is Some && kx.vy > 0) || fin.y
                == level.extent_y() - hh)
        }),
{
}

/// Where a tile is the only solid one, a player whose box starts on its left
/// never ends a step with its box entirely past the tile's right face, at any
/// speed.
pub proof fn lemma_no_tunneling(level: Level, p: Player, dt: int, c: int, r: int)
    requires
        level.wf(),
        p.wf(),
        valid_dt(dt),
        level.solid_at(c, r),
        forall|c2: int, r2: int| #[trigger] level.solid_at(c2, r2) ==> c2 == c && r2 == r,
        p.x + p.half_width() <= c * TILE_SIZE,
    ensures
        step_kin(level, p, dt).x - p.half_width() < (c + 1) * TILE_SIZE,
{
    let hw = p.half_width();
    let hh = p.half_height();
    let k0 = p.kin();
    let moved = match level.perspective {
        Perspective::SideScrolling => {
            let vx = side_vx(k0.vx, p.moving_left, p.moving_right, k0.grounded, dt);
            let vy = crate::player::side_vy(k0.vy, k0.grounded, dt);
            Kin { x: k0.x + vx * dt, y: k0.y + vy * dt, vx: vx, vy: vy, ..k0 }
        },
        Perspective::TopDown => {
            let ix = axis_intent(p.moving_left, p.moving_right);
            let iy = axis_intent(p.moving_up, p.moving_down);
            let vx = top_down_velocity(ix, iy);
            let vy = top_down_velocity(iy, ix);
            Kin { x: k0.x + vx * dt, y: k0.y + vy * dt, vx: vx, vy: vy, ..k0 }
        },
    };
    assert(step_kin(level, p, dt) == resolve(level, moved, k0.x, k0.y, hw, hh));
    let kx = resolve_x(level, moved, k0.x, hw, hh);
    let ky = resolve_y(level, kx, k0.y, hw, hh);
    let fin = clamp_bounds(level, ky, hw, hh);
    assert(fin == resolve(level, moved, k0.x, k0.y, hw, hh));
    assert(0 <= hw && 0 <= hh);
    let pred = contact_pred(level, true, moved.vx, k0.x - hw, k0.x + hw, moved.x - hw, moved.x + hw);
    let c0 = span_start(moved.x - hw, level.width as int);
    let c1 = span_end(moved.x + hw, c0, level.width as int);
    let r0 = span_start(moved.y - hh, level.height as int);
    let r1 = span_end(moved.y + hh, r0, level.height as int);
    lemma_last_in_rows_found(pred, c0, c1, r0, r1);
    assert((c + 1) * TILE_SIZE == c * TILE_SIZE + TILE_SIZE) by (nonlinear_arith);
    match pass_hit(level, true, moved.x, moved.y, hw, hh, moved.vx, k0.x) {
        Some(t) => {
            assert(contact(level, true, moved.vx, k0.x - hw, k0.x + hw, moved.x - hw, moved.x + hw, t.0, t.1));
            assert(t.0 == c);
            assert(kx.x == c * TILE_SIZE - hw);
        },
        None => {
            assert(kx.x == k0.x);
        },
    }
    assert(ky.x == kx.x);
    assert(kx.x <= c * TILE_SIZE - hw);
    assert(0 <= c < level.width);
    assert((c + 1) * TILE_SIZE <= level.width * TILE_SIZE) by (nonlinear_arith)
        requires c < level.width, TILE_SIZE > 0;
    assert(0 <= c * TILE_SIZE) by (nonlinear_arith)
        requires 0 <= c, TILE_SIZE > 0;
    assert(ky.x <= level.extent_x() - hw);
    if ky.x < hw {
        assert(fin.x == hw);
    } else {
        assert(fin.x == ky.x);
    }
}

/// Where a tile is the only solid one, a player whose box starts above it
/// never ends a step with its box entirely below the tile's bottom face, at
/// any speed.
pub proof fn lemma_no_tunneling_down(level: Level, p: Player, dt: int, c: int, r: int)
    requires
        level.wf(),
        p.wf(),
        valid_dt(dt),
        level.solid_at(c, r),
        forall|c2: int, r2: int| #[trigger] level.solid_at(c2, r2) ==> c2 == c && r2 == r,
        p.y + p.half_height() <= r * TILE_SIZE,
    ensures
        step_kin(level, p, dt).y - p.half_height() < (r + 1) * TILE_SIZE,
{
    let hw = p.half_width();
    let hh = p.half_height();
    let k0 = p.kin();
    let moved = match level.perspective {
        Perspective::SideScrolling => {
            let vx = side_vx(k0.vx, p.moving_left, p.moving_right, k0.grounded, dt);
            let vy = crate::player::side_vy(k0.vy, k0.grounded, dt);
            Kin { x: k0.x + vx * dt, y: k0.y + vy * dt, vx: vx, vy: vy, ..k0 }
        },
        Perspective::TopDown => {
            let ix = axis_intent(p.moving_left, p.moving_right);
            let iy = axis_intent(p.moving_up, p.moving_down);
            let vx = top_down_velocity(ix, iy);
            let vy = top_down_velocity(iy, ix);
            Kin { x: k0.x + vx * dt, y: k0.y + vy * dt, vx: vx, vy: vy, ..k0 }
        },
    };
    assert(step_kin(level, p, dt) == resolve(level, moved, k0.x, k0.y, hw, hh));
    let kx = resolve_x(level, moved, k0.x, hw, hh);
    let ky = resolve_y(level, kx, k0.y, hw, hh);
    let fin = clamp_bounds(level, ky, hw, hh);
    assert(fin == resolve(level, moved, k0.x, k0.y, hw, hh));
    assert(0 <= hw && 0 <= hh);
    assert(kx.y == moved.y && kx.vy == moved.vy);
    let pred = contact_pred(level, false, kx.vy, k0.y - hh, k0.y + hh, kx.y - hh, kx.y + hh);
    let c0 = span_start(kx.x - hw, level.width as int);
    let c1 = span_end(kx.x + hw, c0, level.width as int);
    let r0 = span_start(kx.y - hh, level.height as int);
    let r1 = span_end(kx.y + hh, r0, level.height as int);
    lemma_last_in_rows_found(pred, c0, c1, r0, r1);
    assert((r + 1) * TILE_SIZE == r * TILE_SIZE + TILE_SIZE) by (nonlinear_arith);
    match pass_hit(level, false, kx.x, kx.y, hw, hh, kx.vy, k0.y) {
        Some(t) => {
            assert(contact(level, false, kx.vy, k0.y - hh, k0.y + hh, kx.y - hh, kx.y + hh, t.0, t.1));
            assert(t.1 == r);
            assert(ky.y == r * TILE_SIZE - hh);
        },
        None => {
            assert(ky.y == k0.y);
        },
    }
    assert(ky.y <= r * TILE_SIZE - hh);
    assert(0 <= r < level.height);
    assert((r + 1) * TILE_SIZE <= level.height * TILE_SIZE) by (nonlinear_arith)
        requires r < level.height, TILE_SIZE > 0;
    assert(0 <= r * TILE_SIZE) by (nonlinear_arith)
        requires 0 <= r, TILE_SIZE > 0;
    assert(ky.y < level.extent_y() - hh);
    if ky.y < hh {
        assert(fin.y == hh || fin.y == level.extent_y() - hh);
    } else {
        assert(fin.y == ky.y);
    }
}

/// Without horizontal input, a standing player's horizontal speed never grows
/// and never changes sign; any positive step strictly slows a moving player,
/// and a step long enough for friction to absorb the speed stops it exactly.
pub proof fn lemma_friction_monotone(level: Level, p: Player, dt: int)
    requires
        level.wf(),
        p.wf(),
        valid_dt(dt),
        level.perspective == Perspective::SideScrolling,
        !p.moving_left,
        !p.moving_right,
        p.is_grounded,
    ensures
        ({
            let v0 = p.velocity_x as int;
            let v1 = step_kin(level, p, dt).vx;
            &&& abs(v1) <= abs(v0)
            &&& v1 * v0 >= 0
            &&& (dt > 0 && v0 != 0 ==> abs(v1) < abs(v0))
            &&& (abs(v0) <= FRICTION * dt ==> v1 == 0)
        }),
{
    let v0 = p.velocity_x as int;
    let vi = side_vx(v0, false, false, true, dt);
    assert(abs(vi) <= abs(v0));
    assert(vi * v0 >= 0) by (nonlinear_arith)
        requires (vi >= 0 && v0 >= 0) || (vi <= 0 && v0 <= 0);
    let v1 = step_kin(level, p, dt).vx;
    assert(v1 == vi || v1 == 0);
    assert(v1 * v0 >= 0) by (nonlinear_arith)
        requires v1 == vi || v1 == 0, vi * v0 >= 0;
}

/// Top-down movement along both axes at once is no faster than movement along
/// one: the speed is at most `MAX_VELOCITY`, and within one velocity step of it.
pub proof fn lemma_diagonal_speed(left: bool, right: bool, up: bool, down: bool)
    requires
        axis_intent(left, right) != 0,
        axis_intent(up, down) != 0,
    ensures
        ({
            let ix = axis_intent(left, right);
            let iy = axis_intent(up, down);
            let vx = top_down_velocity(ix, iy);
            let vy = top_down_velocity(iy, ix);
            &&& vx * vx + vy * vy <= MAX_VELOCITY * MAX_VELOCITY
            &&& MAX_VELOCITY * MAX_VELOCITY - 2 * MAX_VELOCITY <= vx * vx + vy * vy
            &&& abs(vx) == abs(vy)
            &&& vx * ix > 0
            &&& vy * iy > 0
        }),
{
    let ix = axis_intent(left, right);
    let iy = axis_intent(up, down);
    assert(ix == 1 || ix == -1);
    assert(iy == 1 || iy == -1);
    assert(DIAGONAL_VELOCITY * DIAGONAL_VELOCITY == 124999723809int) by (nonlinear_arith)
        requires DIAGONAL_VELOCITY == 353553i64;
    assert(MAX_VELOCITY * MAX_VELOCITY == 250000000000int) by (nonlinear_arith)
        requires MAX_VELOCITY == 500000i64;
}

/// Collecting twice in the same place collects nothing the second time: once
/// the evidence under the player is recorded, none of it is new.
pub proof fn lemma_collection_idempotent(
    level: Level,
    x: int,
    y: int,
    hw: int,
    hh: int,
    collected: Seq<(usize, usize)>,
    events: Seq<(usize, usize)>,
)
    requires
        events.map_values(|t: (usize, usize)| pair_int(t)) == new_evidence(level, x, y, hw, hh, collected),
    ensures
        new_evidence(level, x, y, hw, hh, collected + events) == Seq::<(int, int)>::empty(),
{
    let c0 = span_start(x - hw, level.width as int);
    let c1 = span_end(x + hw, c0, level.width as int);
    let r0 = span_start(y - hh, level.height as int);
    let r1 = span_end(y + hh, r0, level.height as int);
    let p0 = uncollected_evidence(level, collected);
    let after = collected + events;
    let p1 = uncollected_evidence(level, after);
    let s = all_in_rows(p1, c0, c1, r0, r1);
    lemma_all_in_rows_members(p1, c0, c1, r0, r1);
    if s.len() > 0 {
        let t = s[0];
        assert(p1(t.0, t.1));
        assert(!is_collected(collected, t.0, t.1)) by {
            if is_collected(collected, t.0, t.1) {
                let i = choose|i: int| 0 <= i < collected.len() && #[trigger] pair_int(collected[i]) == (t.0, t.1);
                assert(after[i] == collected[i]);
            }
        }
        assert(p0(t.0, t.1));
        lemma_all_in_rows_complete(p0, c0, c1, r0, r1, t.0, t.1);
        let mapped = events.map_values(|e: (usize, usize)| pair_int(e));
        let j = choose|j: int| 0 <= j < mapped.len() && mapped[j] == (t.0, t.1);
        assert(after[collected.len() + j] == events[j]);
        assert(pair_int(after[collected.len() + j]) == (t.0, t.1));
        assert(false);
    }
    assert(s =~= Seq::<(int, int)>::empty());
}

/// Clamping to the level keeps the box inside it, and stops the player along
/// every axis on which it was outside. (Levels narrower or shorter than the
/// player are left out.)
pub proof fn lemma_clamped_to_level(level: Level, k: Kin, hw: int, hh: int)
    requires
        level.wf(),
        0 <= hw,
        0 <= hh,
        2 * hw <= level.extent_x(),
        2 * hh <= level.extent_y(),
    ensures
        ({
            let f = clamp_bounds(level, k, hw, hh);
            &&& hw <= f.x <= level.extent_x() - hw
            &&& hh <= f.y <= level.extent_y() - hh
            &&& (k.x < hw || k.x > level.extent_x() - hw) ==> f.vx == 0
            &&& (k.y < hh || k.y > level.extent_y() - hh) ==> f.vy == 0
        }),
{
}

} // verus!
