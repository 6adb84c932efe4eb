//! The player: pose, movement parameters and field of view, the input
//! integration step, and the sweep that pushes the player circle out of
//! every solid neighbor tile.

use crate::collision::{
    circle_aabb_penetration, circle_aabb_penetration_spec, closest_point_delta,
    closest_point_dist, lemma_penetration_zero_without_overlap, lemma_sqrt_floor_square,
    RADIUS_LIMIT,
};
use crate::level::Level;
use crate::math::{clamp_spec, polar_to_cartesian, Vec2};
use crate::num::{
    abs_int, div_floor, lemma_muldiv_bound, lemma_muldiv_cancel_signed, lemma_muldiv_div_bound,
    muldiv, muldiv_spec, FRAC_ONE, MAX_FRAME_DT,
};
use crate::render::Color;
use vstd::prelude::*;

verus! {

/// Player positions stay below this magnitude, with room for the sweep's
/// corrections.
pub const MAX_PLAYER_POS: i64 = 0x100_0000_0000;

/// Where the player is and how big it is: position, heading (in
/// `FRAC_ONE` subunits per radian) and collision radius.
#[derive(Clone, Copy, Debug, PartialEq, Eq, Structural)]
pub struct PlayerTransform {
    pub pos: Vec2,
    pub rot: i64,
    pub radius: i64,
}

/// Movement parameters: linear speed `v` in world subunits per second
/// and angular speed `w` in angle subunits per second.
#[derive(Clone, Copy, Debug, PartialEq, Eq, Structural)]
pub struct PlayerMovement {
    pub v: i64,
    pub w: i64,
}

/// Field of view: its half-angle and the number of rays the view casts.
#[derive(Clone, Copy, Debug, PartialEq, Eq, Structural)]
pub struct PlayerFov {
    pub half_fov_rad: i64,
    pub ray_count: usize,
}

/// How the player is drawn on the overview map.
#[derive(Clone, Copy, Debug, PartialEq, Eq, Structural)]
pub struct PlayerMinimapGraphics {
    pub color: Color,
    pub arrow_length: i64,
}

/// Everything the player owns.
#[derive(Clone, Copy, Debug, PartialEq, Eq, Structural)]
pub struct PlayerBundle {
    pub transform: PlayerTransform,
    pub movement: PlayerMovement,
    pub fov: PlayerFov,
    pub minimap_graphics: PlayerMinimapGraphics,
}

impl PlayerFov {
    /// The angle between two neighboring rays of the fan.
    pub fn dtheta(&self) -> (r: i64)
        requires
            0 < self.ray_count <= 0x1_0000_0000,
            0 <= self.half_fov_rad <= 0x10_0000,
        ensures
            r == 2 * self.half_fov_rad as int / self.ray_count as int,
    {
        div_floor(self.half_fov_rad * 2, self.ray_count as i64)
    }
}

/// The default player: centered, looking thirty degrees up from the
/// positive x axis, with a sixty degree fan of a hundred rays.
pub fn create_player() -> (p: PlayerBundle)
    ensures
        p.transform == (PlayerTransform { pos: Vec2 { x: 0, y: 0 }, rot: 34315, radius: 10 }),
        p.movement == (PlayerMovement { v: 60, w: 102944 }),
        p.fov == (PlayerFov { half_fov_rad: 34315, ray_count: 100 }),
        p.minimap_graphics == (PlayerMinimapGraphics {
            color: Color { r: 199, g: 122, b: 255, a: 255 },
            arrow_length: 20,
        }),
{
    PlayerBundle {
        transform: PlayerTransform { pos: Vec2 { x: 0, y: 0 }, rot: 34315, radius: 10 },
        movement: PlayerMovement { v: 60, w: 102944 },
        fov: PlayerFov { half_fov_rad: 34315, ray_count: 100 },
        minimap_graphics: PlayerMinimapGraphics {
            color: Color { r: 199, g: 122, b: 255, a: 255 },
            arrow_length: 20,
        },
    }
}

/// Turns the player: the heading advances by
/// `rot_input * (w * dt / FRAC_ONE)` angle subunits, where `dt` is the
/// frame's elapsed time in `FRAC_ONE` subunits per second.
pub fn turn_player(
    transform: &mut PlayerTransform,
    movement: &PlayerMovement,
    rot_input: i64,
    dt: i64,
)
    requires
        abs_int(rot_input as int) <= 4,
        0 <= dt <= MAX_FRAME_DT,
        0 <= movement.w <= 0x100_0000,
        abs_int(old(transform).rot as int) <= 0x1000_0000_0000,
    ensures
        final(transform).pos == old(transform).pos,
        final(transform).radius == old(transform).radius,
        final(transform).rot == old(transform).rot + rot_input * muldiv_spec(
            movement.w as int,
            dt as int,
            FRAC_ONE as int,
        ),
{
    proof {
        vstd::arithmetic::mul::lemma_mul_upper_bound(
            abs_int(movement.w as int),
            0x100_0000,
            abs_int(dt as int),
            MAX_FRAME_DT as int,
        );
        lemma_muldiv_div_bound(
            movement.w as int,
            dt as int,
            FRAC_ONE as int,
            0x1_0000_0000_0000_0000,
        );
        assert(0x1_0000_0000_0000_0000int / 65536int == 0x1_0000_0000_0000int);
    }
    let step = muldiv(movement.w, dt, FRAC_ONE);
    proof {
        assert(abs_int(rot_input as int * step as int) <= 0x4_0000_0000_0000) by (nonlinear_arith)
            requires
                abs_int(rot_input as int) <= 4,
                abs_int(step as int) <= 0x1_0000_0000_0000,
        ;
    }
    let delta: i64 = rot_input * step;
    transform.rot = transform.rot + delta;
}

/// Moves the player along the given heading direction:
/// `pos += polar_to_cartesian(move_input * (v * dt / FRAC_ONE), dir)`,
/// where `dir` is the heading's `(cos, sin)` pair scaled by `FRAC_ONE`
/// (evaluated by the caller) and `dt` is in `FRAC_ONE` subunits per
/// second.
pub fn move_player(
    transform: &mut PlayerTransform,
    movement: &PlayerMovement,
    move_input: i64,
    dt: i64,
    dir: Vec2,
)
    requires
        abs_int(move_input as int) <= 4,
        0 <= dt <= MAX_FRAME_DT,
        0 <= movement.v <= 0x100_0000,
        abs_int(dir.x as int) <= FRAC_ONE,
        abs_int(dir.y as int) <= FRAC_ONE,
        abs_int(old(transform).pos.x as int) <= MAX_PLAYER_POS,
        abs_int(old(transform).pos.y as int) <= MAX_PLAYER_POS,
    ensures
        final(transform).rot == old(transform).rot,
        final(transform).radius == old(transform).radius,
        ({
            let ds = move_input * muldiv_spec(movement.v as int, dt as int, FRAC_ONE as int);
            &&& final(transform).pos.x == old(transform).pos.x + muldiv_spec(
                dir.x as int,
                ds,
                FRAC_ONE as int,
            )
            &&& final(transform).pos.y == old(transform).pos.y + muldiv_spec(
                dir.y as int,
                ds,
                FRAC_ONE as int,
            )
        }),
{
    proof {
        vstd::arithmetic::mul::lemma_mul_upper_bound(
            abs_int(movement.v as int),
            0x100_0000,
            abs_int(dt as int),
            MAX_FRAME_DT as int,
        );
        lemma_muldiv_div_bound(
            movement.v as int,
            dt as int,
            FRAC_ONE as int,
            0x1_0000_0000_0000_0000,
        );
        assert(0x1_0000_0000_0000_0000int / 65536int == 0x1_0000_0000_0000int);
    }
    let step = muldiv(movement.v, dt, FRAC_ONE);
    proof {
        assert(abs_int(move_input as int * step as int) <= 0x4_0000_0000_0000) by (nonlinear_arith)
            requires
                abs_int(move_input as int) <= 4,
                abs_int(step as int) <= 0x1_0000_0000_0000,
        ;
    }
    let ds: i64 = move_input * step;
    let delta = polar_to_cartesian(ds, dir);
    proof {
        vstd::arithmetic::mul::lemma_mul_upper_bound(
            abs_int(dir.x as int),
            FRAC_ONE as int,
            abs_int(ds as int),
            0x4_0000_0000_0000,
        );
        vstd::arithmetic::mul::lemma_mul_upper_bound(
            abs_int(dir.y as int),
            FRAC_ONE as int,
            abs_int(ds as int),
            0x4_0000_0000_0000,
        );
        lemma_muldiv_div_bound(
            dir.x as int,
            ds as int,
            FRAC_ONE as int,
            0x4_0000_0000_0000_0000,
        );
        lemma_muldiv_div_bound(
            dir.y as int,
            ds as int,
            FRAC_ONE as int,
            0x4_0000_0000_0000_0000,
        );
        assert(0x4_0000_0000_0000_0000int / 65536int == 0x4_0000_0000_0000int);
    }
    transform.pos = Vec2 { x: transform.pos.x + delta.x, y: transform.pos.y + delta.y };
}

/// One frame of input integration: turn by `rot_input`, then step by
/// `move_input` along `new_heading_dir`, the `(cos, sin) * FRAC_ONE`
/// direction the caller evaluated for the heading after the turn.
pub fn update_player(
    player: &mut PlayerBundle,
    rot_input: i64,
    move_input: i64,
    dt: i64,
    new_heading_dir: Vec2,
)
    requires
        abs_int(rot_input as int) <= 4,
        abs_int(move_input as int) <= 4,
        0 <= dt <= MAX_FRAME_DT,
        0 <= old(player).movement.w <= 0x100_0000,
        0 <= old(player).movement.v <= 0x100_0000,
        abs_int(new_heading_dir.x as int) <= FRAC_ONE,
        abs_int(new_heading_dir.y as int) <= FRAC_ONE,
        abs_int(old(player).transform.rot as int) <= 0x1000_0000_0000,
        abs_int(old(player).transform.pos.x as int) <= MAX_PLAYER_POS,
        abs_int(old(player).transform.pos.y as int) <= MAX_PLAYER_POS,
    ensures
        final(player).movement == old(player).movement,
        final(player).fov == old(player).fov,
        final(player).minimap_graphics == old(player).minimap_graphics,
        final(player).transform.radius == old(player).transform.radius,
        final(player).transform.rot == old(player).transform.rot + rot_input * muldiv_spec(
            old(player).movement.w as int,
            dt as int,
            FRAC_ONE as int,
        ),
        ({
            let ds = move_input * muldiv_spec(
                old(player).movement.v as int,
                dt as int,
                FRAC_ONE as int,
            );
            &&& final(player).transform.pos.x == old(player).transform.pos.x + muldiv_spec(
                new_heading_dir.x as int,
                ds,
                FRAC_ONE as int,
            )
            &&& final(player).transform.pos.y == old(player).transform.pos.y + muldiv_spec(
                new_heading_dir.y as int,
                ds,
                FRAC_ONE as int,
            )
        }),
{
    let movement = player.movement;
    turn_player(&mut player.transform, &movement, rot_input, dt);
    move_player(&mut player.transform, &movement, move_input, dt, new_heading_dir);
}

/// The neighbor offsets the collision sweep visits, in order.
pub open spec fn neighbor_offsets() -> Seq<(int, int)> {
    seq![(-1int, 0int), (1int, 0int), (0int, -1int), (0int, 1int), (-1int, 1int), (-1int, -1int), (1int, 1int), (1int, -1int)]
}

/// World center of tile `(x, y)`.
pub open spec fn tile_center_of(level: Level, x: int, y: int) -> (int, int) {
    (
        x * level.tile_size + level.tile_size as int / 2 - level.ext_x(),
        y * level.tile_size + level.tile_size as int / 2 - level.ext_y(),
    )
}

/// One sweep step: if the tile at `coord` is solid, subtract the
/// circle's penetration against it from the position.
pub open spec fn resolve_step(level: Level, pos: (int, int), radius: int, coord: (int, int)) -> (
    int,
    int,
) {
    if level.is_wall_at(coord.0, coord.1) {
        let c = tile_center_of(level, coord.0, coord.1);
        let p = circle_aabb_penetration_spec(
            pos.0,
            pos.1,
            radius,
            c.0,
            c.1,
            level.tile_size as int / 2,
            level.tile_size as int / 2,
        );
        (pos.0 - p.0, pos.1 - p.1)
    } else {
        pos
    }
}

/// The sweep: apply `resolve_step` for each offset around `base`, in
/// order, each step seeing the position the previous one left.
pub open spec fn resolve_against(
    level: Level,
    pos: (int, int),
    radius: int,
    base: (int, int),
    offsets: Seq<(int, int)>,
) -> (int, int)
    decreases offsets.len(),
{
    if offsets.len() == 0 {
        pos
    } else {
        let coord = (base.0 + offsets[0].0, base.1 + offsets[0].1);
        resolve_against(
            level,
            resolve_step(level, pos, radius, coord),
            radius,
            base,
            offsets.drop_first(),
        )
    }
}

/// Pushes the player circle out of every solid tile in the eight-cell
/// neighborhood of its current tile, one neighbor at a time in a fixed
/// order, each correction applied before the next is computed.
#[verifier::loop_isolation(false)]
pub fn player_map_collision(transform: &mut PlayerTransform, level: &Level)
    requires
        level.grid_wf(),
        abs_int(old(transform).pos.x as int) <= MAX_PLAYER_POS,
        abs_int(old(transform).pos.y as int) <= MAX_PLAYER_POS,
        0 <= old(transform).radius <= RADIUS_LIMIT,
    ensures
        final(transform).rot == old(transform).rot,
        final(transform).radius == old(transform).radius,
        (final(transform).pos.x as int, final(transform).pos.y as int) == resolve_against(
            *level,
            (old(transform).pos.x as int, old(transform).pos.y as int),
            old(transform).radius as int,
            level.coord_of(old(transform).pos.x as int, old(transform).pos.y as int),
            neighbor_offsets(),
        ),
        abs_int(final(transform).pos.x as int) <= MAX_PLAYER_POS + 8 * RADIUS_LIMIT,
        abs_int(final(transform).pos.y as int) <= MAX_PLAYER_POS + 8 * RADIUS_LIMIT,
{
    let offsets: [(i64, i64); 8] = [
        (-1, 0),
        (1, 0),
        (0, -1),
        (0, 1),
        (-1, 1),
        (-1, -1),
        (1, 1),
        (1, -1),
    ];
    let base = level.pos_to_coords(transform.pos);
    let ghost base_i = (base.x as int, base.y as int);
    let ghost pos0 = (old(transform).pos.x as int, old(transform).pos.y as int);
    let radius = transform.radius;
    let tile_ext = level.tile_extents();
    proof {
        crate::level::lemma_extents_bounds(*level);
        crate::num::lemma_div_magnitude(
            old(transform).pos.x as int + level.ext_x(),
            level.tile_size as int,
        );
        crate::num::lemma_div_magnitude(
            old(transform).pos.y as int + level.ext_y(),
            level.tile_size as int,
        );
        crate::num::lemma_div_mul_near(
            old(transform).pos.x as int + level.ext_x(),
            level.tile_size as int,
        );
        crate::num::lemma_div_mul_near(
            old(transform).pos.y as int + level.ext_y(),
            level.tile_size as int,
        );
    }
    proof {
        assert(abs_int(base.x as int) <= 0x2_0000_0000_0000);
        assert(abs_int(base.y as int) <= 0x2_0000_0000_0000);
    }
    let mut i: usize = 0;
    while i < 8
        invariant
            0 <= i <= 8,
            transform.rot == old(transform).rot,
            transform.radius == old(transform).radius,
            (transform.pos.x as int, transform.pos.y as int) == resolve_against(
                *level,
                pos0,
                radius as int,
                base_i,
                neighbor_offsets().take(i as int),
            ),
            abs_int(transform.pos.x as int) <= MAX_PLAYER_POS + i * RADIUS_LIMIT,
            abs_int(transform.pos.y as int) <= MAX_PLAYER_POS + i * RADIUS_LIMIT,
        decreases 8 - i,
    {
        let off = offsets[i];
        proof {
            assert(neighbor_offsets()[i as int] == (off.0 as int, off.1 as int));
        }
        let cx = base.x + off.0;
        let cy = base.y + off.1;
        if level.is_wall(cx, cy) {
            proof {
                // tile center products stay small: the base cell is near
                // the position, offsets shift it by one tile
                assert((base.x as int + off.0) * level.tile_size == (base.x as int)
                    * level.tile_size + off.0 * level.tile_size) by (nonlinear_arith);
                assert((base.y as int + off.1) * level.tile_size == (base.y as int)
                    * level.tile_size + off.1 * level.tile_size) by (nonlinear_arith);
                assert(off.0 * level.tile_size == off.0 as int * level.tile_size as int && abs_int(
                    off.0 as int * level.tile_size as int,
                ) <= crate::level::MAX_TILE_SIZE) by (nonlinear_arith)
                    requires
                        abs_int(off.0 as int) <= 1,
                        0 < level.tile_size <= crate::level::MAX_TILE_SIZE,
                ;
                assert(off.1 * level.tile_size == off.1 as int * level.tile_size as int && abs_int(
                    off.1 as int * level.tile_size as int,
                ) <= crate::level::MAX_TILE_SIZE) by (nonlinear_arith)
                    requires
                        abs_int(off.1 as int) <= 1,
                        0 < level.tile_size <= crate::level::MAX_TILE_SIZE,
                ;
            }
            let center = level.tile_center(cx, cy);
            let p = circle_aabb_penetration(transform.pos, radius, center, tile_ext);
            transform.pos = Vec2 { x: transform.pos.x - p.x, y: transform.pos.y - p.y };
        }
        proof {
            let taken = neighbor_offsets().take(i as int);
            let taken1 = neighbor_offsets().take(i as int + 1);
            lemma_resolve_against_snoc(*level, pos0, radius as int, base_i, taken, (
                off.0 as int,
                off.1 as int,
            ));
            assert(taken1 =~= taken.push((off.0 as int, off.1 as int)));
        }
        i += 1;
    }
    proof {
        assert(neighbor_offsets().take(8) =~= neighbor_offsets());
    }
}

/// Appending one offset to a sweep resolves it last.
proof fn lemma_resolve_against_snoc(
    level: Level,
    pos: (int, int),
    radius: int,
    base: (int, int),
    offsets: Seq<(int, int)>,
    off: (int, int),
)
    ensures
        resolve_against(level, pos, radius, base, offsets.push(off)) == resolve_step(
            level,
            resolve_against(level, pos, radius, base, offsets),
            radius,
            (base.0 + off.0, base.1 + off.1),
        ),
    decreases offsets.len(),
{
    let s1 = offsets.push(off);
    if offsets.len() == 0 {
        assert(s1.len() == 1 && s1[0] == off);
        assert(s1.drop_first() =~= Seq::<(int, int)>::empty());
        let coord = (base.0 + off.0, base.1 + off.1);
        assert(resolve_against(level, pos, radius, base, s1) == resolve_against(
            level,
            resolve_step(level, pos, radius, coord),
            radius,
            base,
            s1.drop_first(),
        ));
        assert(resolve_against(
            level,
            resolve_step(level, pos, radius, coord),
            radius,
            base,
            Seq::<(int, int)>::empty(),
        ) == resolve_step(level, pos, radius, coord));
        assert(resolve_against(level, pos, radius, base, offsets) == pos);
    } else {
        let coord = (base.0 + offsets[0].0, base.1 + offsets[0].1);
        assert(s1[0] == offsets[0]);
        assert(s1.drop_first() =~= offsets.drop_first().push(off));
        assert(resolve_against(level, pos, radius, base, s1) == resolve_against(
            level,
            resolve_step(level, pos, radius, coord),
            radius,
            base,
            offsets.drop_first().push(off),
        ));
        lemma_resolve_against_snoc(
            level,
            resolve_step(level, pos, radius, coord),
            radius,
            base,
            offsets.drop_first(),
            off,
        );
        assert(resolve_against(level, pos, radius, base, offsets) == resolve_against(
            level,
            resolve_step(level, pos, radius, coord),
            radius,
            base,
            offsets.drop_first(),
        ));
    }
}

/// A sweep over a position that does not overlap any of the checked
/// tiles corrects nothing: resolving an already-corrected,
/// non-overlapping position is the identity.
pub proof fn lemma_resolution_idempotent(
    level: Level,
    pos: (int, int),
    radius: int,
    base: (int, int),
    offsets: Seq<(int, int)>,
)
    requires
        radius >= 0,
        forall|i: int|
            0 <= i < offsets.len() ==> {
                let c = (base.0 + (#[trigger] offsets[i]).0, base.1 + offsets[i].1);
                let t = tile_center_of(level, c.0, c.1);
                !level.is_wall_at(c.0, c.1) || closest_point_dist(
                    pos.0,
                    pos.1,
                    t.0,
                    t.1,
                    level.tile_size as int / 2,
                    level.tile_size as int / 2,
                ) >= radius || closest_point_dist(
                    pos.0,
                    pos.1,
                    t.0,
                    t.1,
                    level.tile_size as int / 2,
                    level.tile_size as int / 2,
                ) == 0
            },
    ensures
        resolve_against(level, pos, radius, base, offsets) == pos,
    decreases offsets.len(),
{
    if offsets.len() > 0 {
        let c = (base.0 + offsets[0].0, base.1 + offsets[0].1);
        let t = tile_center_of(level, c.0, c.1);
        if level.is_wall_at(c.0, c.1) {
            lemma_penetration_zero_without_overlap(
                pos.0,
                pos.1,
                radius,
                t.0,
                t.1,
                level.tile_size as int / 2,
                level.tile_size as int / 2,
            );
        }
        assert(resolve_step(level, pos, radius, c) == pos);
        assert forall|i: int| 0 <= i < offsets.drop_first().len() implies {
            let c2 = (base.0 + (#[trigger] offsets.drop_first()[i]).0, base.1
                + offsets.drop_first()[i].1);
            let t2 = tile_center_of(level, c2.0, c2.1);
            !level.is_wall_at(c2.0, c2.1) || closest_point_dist(
                pos.0,
                pos.1,
                t2.0,
                t2.1,
                level.tile_size as int / 2,
                level.tile_size as int / 2,
            ) >= radius || closest_point_dist(
                pos.0,
                pos.1,
                t2.0,
                t2.1,
                level.tile_size as int / 2,
                level.tile_size as int / 2,
            ) == 0
        } by {
            assert(offsets.drop_first()[i] == offsets[i + 1]);
        }
        lemma_resolution_idempotent(level, pos, radius, base, offsets.drop_first());
    }
}

/// One sweep step fully resolves an axis-aligned overlap: when the
/// player circle overlaps one solid neighbor tile with its center level
/// with the tile along `y` (the approach axis-aligned along `x`), the
/// step leaves the circle exactly `radius` from the tile's near face --
/// no overlap with that tile survives the pass -- and a second step
/// against the same tile corrects nothing.
pub proof fn lemma_step_resolves_axis_overlap(
    level: Level,
    pos: (int, int),
    radius: int,
    coord: (int, int),
)
    requires
        level.grid_wf(),
        radius > 0,
        level.is_wall_at(coord.0, coord.1),
        ({
            let t = tile_center_of(level, coord.0, coord.1);
            let e = level.tile_size as int / 2;
            let p = closest_point_delta(pos.0, pos.1, t.0, t.1, e, e);
            &&& p.1 == 0
            &&& p.0 != 0
            &&& abs_int(p.0) < radius
        }),
    ensures
        ({
            let t = tile_center_of(level, coord.0, coord.1);
            let e = level.tile_size as int / 2;
            let pos2 = resolve_step(level, pos, radius, coord);
            &&& closest_point_dist(pos2.0, pos2.1, t.0, t.1, e, e) == radius
            &&& resolve_step(level, pos2, radius, coord) == pos2
        }),
{
    let t = tile_center_of(level, coord.0, coord.1);
    let e = level.tile_size as int / 2;
    crate::num::lemma_div_magnitude(level.tile_size as int, 2);
    lemma_axis_aligned_resolution(pos.0, pos.1, radius, t.0, t.1, e);
    let pos2 = resolve_step(level, pos, radius, coord);
    lemma_penetration_zero_without_overlap(pos2.0, pos2.1, radius, t.0, t.1, e, e);
}

/// For an axis-aligned approach (the circle center level with the tile
/// along `y`, overlapping along `x`), one resolution step leaves the
/// circle exactly `radius` away from the tile's near face, and a second
/// step corrects nothing.
pub proof fn lemma_axis_aligned_resolution(cx: int, cy: int, radius: int, bx: int, by: int, e: int)
    requires
        e >= 0,
        radius > 0,
        ({
            let p = closest_point_delta(cx, cy, bx, by, e, e);
            &&& p.1 == 0
            &&& p.0 != 0
            &&& abs_int(p.0) < radius
        }),
    ensures
        ({
            let r = circle_aabb_penetration_spec(cx, cy, radius, bx, by, e, e);
            let cx2 = cx - r.0;
            let cy2 = cy - r.1;
            &&& closest_point_dist(cx2, cy2, bx, by, e, e) == radius
            &&& circle_aabb_penetration_spec(cx2, cy2, radius, bx, by, e, e) == (0int, 0int)
        }),
{
    let p = closest_point_delta(cx, cy, bx, by, e, e);
    let ap = abs_int(p.0);
    assert(p.0 * p.0 + p.1 * p.1 == ap * ap) by (nonlinear_arith)
        requires
            p.1 == 0,
            ap == abs_int(p.0),
    ;
    lemma_sqrt_floor_square(ap as nat);
    let l = closest_point_dist(cx, cy, bx, by, e, e);
    assert(l == ap);
    let m = radius - l;
    lemma_muldiv_cancel_signed(p.0, m);
    let r = circle_aabb_penetration_spec(cx, cy, radius, bx, by, e, e);
    assert(muldiv_spec(p.1, m, l) == 0) by {
        assert(abs_int(p.1) * abs_int(m) == 0) by (nonlinear_arith)
            requires
                p.1 == 0,
        ;
        vstd::arithmetic::div_mod::lemma_div_of0(abs_int(l));
    }
    assert(r == (if p.0 > 0 {
        m
    } else {
        -m
    }, 0int));
    let cx2 = cx - r.0;
    let cy2 = cy - r.1;
    let dx = cx - bx;
    let p2 = closest_point_delta(cx2, cy2, bx, by, e, e);
    if p.0 > 0 {
        // the circle sits left of the tile; the correction moves it
        // further left, to exactly radius from the face
        assert(clamp_spec(dx, -e, e) - dx > 0);
        assert(dx < -e);
        assert(p.0 == -e - dx);
        assert(p2.0 == -e - (dx - m));
        assert(p2.0 == radius);
    } else {
        assert(dx > e);
        assert(p.0 == e - dx);
        assert(p2.0 == e - (dx + m));
        assert(p2.0 == -radius);
    }
    assert(p2.1 == 0);
    assert(p2.0 * p2.0 + p2.1 * p2.1 == radius * radius) by (nonlinear_arith)
        requires
            p2.1 == 0,
            p2.0 == radius || p2.0 == -radius,
    ;
    lemma_sqrt_floor_square(radius as nat);
    assert(closest_point_dist(cx2, cy2, bx, by, e, e) == radius);
}

} // verus!
