//! The wall raycaster: a grid DDA that walks a ray's intersections with
//! horizontal and vertical grid lines, records every cell it passes
//! through, and stops at the first solid cell of each family; the closer
//! family wins.
//!
//! The contract is closed-form: the `k`-th sample of the horizontal
//! family is `(x0 + k * xstep, y0 + k * ystep)` with the start point and
//! steps given exactly by integer formulas over the ray's origin and
//! direction, the cell sampled at step `k` is the floor cell of that
//! point nudged one subunit along the stepping direction, and the hit is
//! the first sample whose cell is solid (out-of-bounds cells count as
//! solid, so the walk always stops).

use crate::grid::GridCoords;
use crate::level::{Level, MAX_WORLD_POS};
use crate::math::{len_sq, Vec2};
use crate::num::{
    abs_int, div_floor, isqrt, lemma_muldiv_bound, lemma_sqrt_floor_bounds, muldiv, muldiv_spec,
    sqrt_floor,
};
use vstd::arithmetic::div_mod::lemma_mod_multiples_basic;
use vstd::prelude::*;

verus! {

/// Ray direction components stay below this magnitude.
pub const MAX_RAY_DIR: i64 = 0x2000_0000;

/// The distance reported when a ray has no usable family: larger than
/// any real hit, but finite.
pub const RAY_DISTANCE_SENTINEL: i64 = 0x7FFF_FFFF_FFFF_FFFF;

/// One wall hit: the solid cell, the exact intersection point, the floor
/// of its Euclidean distance from the ray origin, and which grid-line
/// family produced it.
#[derive(Clone, Copy, Debug, PartialEq, Eq, Structural)]
pub struct RaycastGridResult {
    pub coord: GridCoords,
    pub distance: i64,
    pub point: Vec2,
    pub is_horizontal_hit: bool,
}

/// Per-frame raycast scratch: every cell any ray stepped through, and
/// one hit per cast, in cast order.
pub struct LevelRaycastResults {
    pub visited: Vec<GridCoords>,
    pub hits: Vec<RaycastGridResult>,
}

impl LevelRaycastResults {
    /// Fresh, empty scratch.
    pub fn new() -> (r: LevelRaycastResults)
        ensures
            r.visited@.len() == 0,
            r.hits@.len() == 0,
    {
        LevelRaycastResults { visited: Vec::new(), hits: Vec::new() }
    }

    /// Empties both the visited set and the hit list; a frame starts here.
    pub fn clear(&mut self)
        ensures
            final(self).visited@.len() == 0,
            final(self).hits@.len() == 0,
    {
        self.visited.clear();
        self.hits.clear();
    }

    /// Whether some ray of this frame stepped through `coord`.
    pub open spec fn visited_contains(&self, coord: GridCoords) -> bool {
        self.visited@.contains(coord)
    }
}

/// Toward increasing `y`?  (In angle terms: a normalized heading below
/// pi, i.e. a positive sine.)
pub open spec fn h_sign(dir: Vec2) -> bool {
    dir.y > 0
}

/// Toward increasing `x`?  (A normalized heading left of the vertical
/// axis, i.e. a positive cosine.)
pub open spec fn v_sign(dir: Vec2) -> bool {
    dir.x > 0
}

/// Row index of the first horizontal grid line strictly ahead of the
/// ray origin in its stepping direction.
pub open spec fn h_start_row(level: Level, pos: Vec2, dir: Vec2) -> int {
    level.coord_of(pos.x as int, pos.y as int).1 + if h_sign(dir) {
        1int
    } else {
        0int
    }
}

/// World `y` of the first horizontal grid line ahead.
pub open spec fn h_y0(level: Level, pos: Vec2, dir: Vec2) -> int {
    h_start_row(level, pos, dir) * level.tile_size - level.ext_y()
}

/// World `x` where the ray crosses that first horizontal grid line.
pub open spec fn h_x0(level: Level, pos: Vec2, dir: Vec2) -> int {
    pos.x + muldiv_spec(h_y0(level, pos, dir) - pos.y, dir.x as int, dir.y as int)
}

/// Per-step `y` increment of the horizontal family.
pub open spec fn h_ystep(level: Level, dir: Vec2) -> int {
    if h_sign(dir) {
        level.tile_size as int
    } else {
        -(level.tile_size as int)
    }
}

/// Per-step `x` increment of the horizontal family.
pub open spec fn h_xstep(level: Level, dir: Vec2) -> int {
    muldiv_spec(h_ystep(level, dir), dir.x as int, dir.y as int)
}

/// The one-subunit nudge applied before sampling a cell, along the
/// stepping direction, so a point exactly on a grid line lands in the
/// cell the ray is entering.
pub open spec fn h_eps(dir: Vec2) -> int {
    if h_sign(dir) {
        1int
    } else {
        -1int
    }
}

/// The `k`-th intersection point of the horizontal family.
pub open spec fn h_point(level: Level, pos: Vec2, dir: Vec2, k: int) -> (int, int) {
    (h_x0(level, pos, dir) + k * h_xstep(level, dir), h_y0(level, pos, dir) + k * h_ystep(
        level,
        dir,
    ))
}

/// The cell sampled at step `k` of the horizontal family.
pub open spec fn h_cell(level: Level, pos: Vec2, dir: Vec2, k: int) -> (int, int) {
    let p = h_point(level, pos, dir, k);
    level.coord_of(p.0 + h_eps(dir), p.1 + h_eps(dir))
}

/// Solidity of the cell sampled at step `k` of the horizontal family.
pub open spec fn h_is_wall(level: Level, pos: Vec2, dir: Vec2, k: int) -> bool {
    let c = h_cell(level, pos, dir, k);
    level.is_wall_at(c.0, c.1)
}

/// Step `k` is the first solid sample of the horizontal family.
pub open spec fn h_first_wall(level: Level, pos: Vec2, dir: Vec2, k: int) -> bool {
    &&& 0 <= k
    &&& h_is_wall(level, pos, dir, k)
    &&& forall|j: int| 0 <= j < k ==> !#[trigger] h_is_wall(level, pos, dir, j)
}

/// The hit the horizontal family reports for a stop at step `k`.
pub open spec fn h_result(level: Level, pos: Vec2, dir: Vec2, k: int) -> RaycastGridResult {
    let p = h_point(level, pos, dir, k);
    let c = h_cell(level, pos, dir, k);
    RaycastGridResult {
        coord: GridCoords { x: c.0 as i64, y: c.1 as i64 },
        distance: sqrt_floor(len_sq(p.0 - pos.x, p.1 - pos.y) as nat) as i64,
        point: Vec2 { x: p.0 as i64, y: p.1 as i64 },
        is_horizontal_hit: true,
    }
}

/// The cells sampled by the first `n` steps of the horizontal family,
/// in stepping order.
pub open spec fn h_cells_seq(level: Level, pos: Vec2, dir: Vec2, n: int) -> Seq<GridCoords> {
    Seq::new(
        n as nat,
        |j: int|
            {
                let c = h_cell(level, pos, dir, j);
                GridCoords { x: c.0 as i64, y: c.1 as i64 }
            },
    )
}

/// Column index of the first vertical grid line strictly ahead.
pub open spec fn v_start_col(level: Level, pos: Vec2, dir: Vec2) -> int {
    level.coord_of(pos.x as int, pos.y as int).0 + if v_sign(dir) {
        1int
    } else {
        0int
    }
}

/// World `x` of the first vertical grid line ahead.
pub open spec fn v_x0(level: Level, pos: Vec2, dir: Vec2) -> int {
    v_start_col(level, pos, dir) * level.tile_size - level.ext_x()
}

/// World `y` where the ray crosses that first vertical grid line.
pub open spec fn v_y0(level: Level, pos: Vec2, dir: Vec2) -> int {
    pos.y + muldiv_spec(v_x0(level, pos, dir) - pos.x, dir.y as int, dir.x as int)
}

/// Per-step `x` increment of the vertical family.
pub open spec fn v_xstep(level: Level, dir: Vec2) -> int {
    if v_sign(dir) {
        level.tile_size as int
    } else {
        -(level.tile_size as int)
    }
}

/// Per-step `y` increment of the vertical family.
pub open spec fn v_ystep(level: Level, dir: Vec2) -> int {
    muldiv_spec(v_xstep(level, dir), dir.y as int, dir.x as int)
}

/// The nudge of the vertical family.
pub open spec fn v_eps(dir: Vec2) -> int {
    if v_sign(dir) {
        1int
    } else {
        -1int
    }
}

/// The `k`-th intersection point of the vertical family.
pub open spec fn v_point(level: Level, pos: Vec2, dir: Vec2, k: int) -> (int, int) {
    (v_x0(level, pos, dir) + k * v_xstep(level, dir), v_y0(level, pos, dir) + k * v_ystep(
        level,
        dir,
    ))
}

/// The cell sampled at step `k` of the vertical family.
pub open spec fn v_cell(level: Level, pos: Vec2, dir: Vec2, k: int) -> (int, int) {
    let p = v_point(level, pos, dir, k);
    level.coord_of(p.0 + v_eps(dir), p.1 + v_eps(dir))
}

/// Solidity of the cell sampled at step `k` of the vertical family.
pub open spec fn v_is_wall(level: Level, pos: Vec2, dir: Vec2, k: int) -> bool {
    let c = v_cell(level, pos, dir, k);
    level.is_wall_at(c.0, c.1)
}

/// Step `k` is the first solid sample of the vertical family.
pub open spec fn v_first_wall(level: Level, pos: Vec2, dir: Vec2, k: int) -> bool {
    &&& 0 <= k
    &&& v_is_wall(level, pos, dir, k)
    &&& forall|j: int| 0 <= j < k ==> !#[trigger] v_is_wall(level, pos, dir, j)
}

/// The hit the vertical family reports for a stop at step `k`.
pub open spec fn v_result(level: Level, pos: Vec2, dir: Vec2, k: int) -> RaycastGridResult {
    let p = v_point(level, pos, dir, k);
    let c = v_cell(level, pos, dir, k);
    RaycastGridResult {
        coord: GridCoords { x: c.0 as i64, y: c.1 as i64 },
        distance: sqrt_floor(len_sq(p.0 - pos.x, p.1 - pos.y) as nat) as i64,
        point: Vec2 { x: p.0 as i64, y: p.1 as i64 },
        is_horizontal_hit: false,
    }
}

/// The cells sampled by the first `n` steps of the vertical family.
pub open spec fn v_cells_seq(level: Level, pos: Vec2, dir: Vec2, n: int) -> Seq<GridCoords> {
    Seq::new(
        n as nat,
        |j: int|
            {
                let c = v_cell(level, pos, dir, j);
                GridCoords { x: c.0 as i64, y: c.1 as i64 }
            },
    )
}

/// The hit reported when both families are degenerate (a zero
/// direction): the origin's own cell at the sentinel distance.
pub open spec fn sentinel_result(level: Level, pos: Vec2) -> RaycastGridResult {
    let c = level.coord_of(pos.x as int, pos.y as int);
    RaycastGridResult {
        coord: GridCoords { x: c.0 as i64, y: c.1 as i64 },
        distance: RAY_DISTANCE_SENTINEL,
        point: pos,
        is_horizontal_hit: false,
    }
}

/// Shared argument bounds of the raycaster.
pub open spec fn ray_args_ok(level: Level, pos: Vec2, dir: Vec2) -> bool {
    &&& level.grid_wf()
    &&& abs_int(pos.x as int) <= MAX_WORLD_POS
    &&& abs_int(pos.y as int) <= MAX_WORLD_POS
    &&& abs_int(dir.x as int) <= MAX_RAY_DIR
    &&& abs_int(dir.y as int) <= MAX_RAY_DIR
}

/// Walks the horizontal family: steps from grid line to grid line along
/// `y`, recording each sampled cell, until a cell is solid.
#[verifier::loop_isolation(false)]
#[verifier::rlimit(60)]
fn cast_horizontal(
    results: &mut LevelRaycastResults,
    level: &Level,
    pos: Vec2,
    dir: Vec2,
) -> (hit: RaycastGridResult)
    requires
        ray_args_ok(*level, pos, dir),
        dir.y != 0,
    ensures
        final(results).hits@ == old(results).hits@,
        exists|k: int|
            {
                &&& #[trigger] h_first_wall(*level, pos, dir, k)
                &&& hit == h_result(*level, pos, dir, k)
                &&& final(results).visited@ == old(results).visited@ + h_cells_seq(
                    *level,
                    pos,
                    dir,
                    k + 1,
                )
            },
        level.is_wall_at(hit.coord.x as int, hit.coord.y as int),
        hit.is_horizontal_hit,
        (hit.point.y + level.ext_y()) % (level.tile_size as int) == 0,
        hit.distance >= 0,
        abs_int(hit.point.x as int) <= 0x8_0000_0000_0000,
        abs_int(hit.point.y as int) <= 0x8_0000_0000_0000,
{
    let ghost old_vis = results.visited@;
    let ext = level.extents();
    let ts = level.tile_size;
    let o = level.pos_to_coords(pos);
    let y_sign = dir.y > 0;
    let eps: i64 = if y_sign {
        1
    } else {
        -1
    };
    proof {
        crate::num::lemma_div_magnitude(pos.y as int + level.ext_y(), ts as int);
        crate::num::lemma_div_mul_near(pos.y as int + level.ext_y(), ts as int);
    }
    let start_row: i64 = if y_sign {
        o.y + 1
    } else {
        o.y
    };
    proof {
        assert((start_row as int) * (ts as int) == (o.y as int) * (ts as int) + (if y_sign {
            ts as int
        } else {
            0int
        })) by (nonlinear_arith)
            requires
                start_row as int == o.y as int + (if y_sign {
                    1int
                } else {
                    0int
                }),
        ;
        assert((o.y as int) * (ts as int) == (ts as int) * (o.y as int)) by (nonlinear_arith);
    }
    let mut y: i64 = start_row * ts - ext.y;
    proof {
        assert(y as int == h_y0(*level, pos, dir));
        assert(h_y0(*level, pos, dir) - pos.y <= ts && pos.y - h_y0(*level, pos, dir) < ts);
        crate::num::lemma_muldiv_bound(y as int - pos.y as int, dir.x as int, dir.y as int);
        vstd::arithmetic::mul::lemma_mul_upper_bound(
            abs_int(y as int - pos.y as int),
            crate::level::MAX_TILE_SIZE as int,
            abs_int(dir.x as int),
            MAX_RAY_DIR as int,
        );
    }
    let mut x: i64 = pos.x + muldiv(y - pos.y, dir.x, dir.y);
    let y_step: i64 = if y_sign {
        ts
    } else {
        -ts
    };
    proof {
        crate::num::lemma_muldiv_bound(y_step as int, dir.x as int, dir.y as int);
        vstd::arithmetic::mul::lemma_mul_upper_bound(
            abs_int(y_step as int),
            crate::level::MAX_TILE_SIZE as int,
            abs_int(dir.x as int),
            MAX_RAY_DIR as int,
        );
    }
    let x_step: i64 = muldiv(y_step, dir.x, dir.y);
    let ghost mut k: int = 0;
    let ghost mut row: int = start_row as int;
    proof {
        assert(y_step as int == h_ystep(*level, dir));
        assert(x_step as int == h_xstep(*level, dir));
        assert(x as int == h_x0(*level, pos, dir) + 0 * h_xstep(*level, dir)) by (nonlinear_arith)
            requires
                x as int == h_x0(*level, pos, dir),
        ;
        assert(y as int == h_y0(*level, pos, dir) + 0 * h_ystep(*level, dir)) by (nonlinear_arith)
            requires
                y as int == h_y0(*level, pos, dir),
        ;
        assert(results.visited@ =~= old_vis + h_cells_seq(*level, pos, dir, 0));
    }
    loop
        invariant
            0 <= k,
            row == start_row + (if y_sign {
                k
            } else {
                -k
            }),
            y as int == h_y0(*level, pos, dir) + k * h_ystep(*level, dir),
            x as int == h_x0(*level, pos, dir) + k * h_xstep(*level, dir),
            y as int + level.ext_y() == row * (ts as int),
            abs_int(x as int) <= 0x8_0000_0000_0000,
            abs_int(y as int) <= 0x8_0000_0000_0000,
            abs_int(row) <= 0x4_0000_0000_0000,
            forall|j: int| 0 <= j < k ==> !#[trigger] h_is_wall(*level, pos, dir, j),
            results.visited@ == old_vis + h_cells_seq(*level, pos, dir, k),
            results.hits@ == old(results).hits@,
        decreases (if y_sign {
            level.rows() * (ts as int) - (y as int + level.ext_y())
        } else {
            y as int + level.ext_y()
        }),
    {
        let sx = x + eps + ext.x;
        let sy = y + eps + ext.y;
        let cx = div_floor(sx, ts);
        let cy = div_floor(sy, ts);
        let c = GridCoords { x: cx, y: cy };
        results.visited.push(c);
        proof {
            assert((cx as int, cy as int) == h_cell(*level, pos, dir, k));
            assert(h_cells_seq(*level, pos, dir, k + 1) =~= h_cells_seq(
                *level,
                pos,
                dir,
                k,
            ).push(c));
            assert(results.visited@ == old_vis + h_cells_seq(*level, pos, dir, k + 1));
        }
        if level.is_wall(cx, cy) {
            let dx = x - pos.x;
            let dy = y - pos.y;
            proof {
                assert((dx as int) * (dx as int) >= 0 && (dy as int) * (dy as int) >= 0)
                    by (nonlinear_arith);
                assert((dx as int) * (dx as int) < i128::MAX && (dy as int) * (dy as int)
                    < i128::MAX) by (nonlinear_arith)
                    requires
                        abs_int(dx as int) <= 0x9_0000_0000_0000,
                        abs_int(dy as int) <= 0x9_0000_0000_0000,
                ;
                assert((dx as int) * (dx as int) + (dy as int) * (dy as int) <= u128::MAX)
                    by (nonlinear_arith)
                    requires
                        abs_int(dx as int) <= 0x9_0000_0000_0000,
                        abs_int(dy as int) <= 0x9_0000_0000_0000,
                ;
            }
            let sq: u128 = (dx as i128 * dx as i128) as u128 + (dy as i128 * dy as i128) as u128;
            let d64: u64 = isqrt(sq);
            proof {
                lemma_sqrt_floor_bounds(sq as nat);
                assert(sq <= 0xA2_0000_0000_0000_0000_0000_0000) by (nonlinear_arith)
                    requires
                        abs_int(dx as int) <= 0x9_0000_0000_0000,
                        abs_int(dy as int) <= 0x9_0000_0000_0000,
                        sq as int == (dx as int) * (dx as int) + (dy as int) * (dy as int),
                ;
                if d64 > 0x40_0000_0000_0000 {
                    assert(false) by (nonlinear_arith)
                        requires
                            (d64 as int) * (d64 as int) <= sq,
                            sq <= 0xA2_0000_0000_0000_0000_0000_0000,
                            d64 > 0x40_0000_0000_0000,
                    ;
                }
            }
            let hit = RaycastGridResult {
                coord: c,
                distance: d64 as i64,
                point: Vec2 { x, y },
                is_horizontal_hit: true,
            };
            proof {
                assert(h_first_wall(*level, pos, dir, k));
                assert(sq as int == len_sq(x as int - pos.x as int, y as int - pos.y as int));
                assert(hit == h_result(*level, pos, dir, k));
                lemma_mod_multiples_basic(row, ts as int);
                assert((row * (ts as int)) % (ts as int) == 0);
            }
            return hit;
        }
        proof {
            assert(!h_is_wall(*level, pos, dir, k));
            // the sampled cell is on the grid, which bounds the walk
            assert(0 <= cx && (cx as int) < level.cols() && 0 <= cy && (cy as int)
                < level.rows());
            crate::num::lemma_div_nonneg_back(sx as int, ts as int);
            crate::num::lemma_div_nonneg_back(sy as int, ts as int);
            crate::num::lemma_div_below(sx as int, ts as int, level.cols());
            crate::num::lemma_div_below(sy as int, ts as int, level.rows());
            assert(level.cols() * (ts as int) <= 0x100_0000_0000 && level.rows() * (ts as int)
                <= 0x100_0000_0000) by (nonlinear_arith)
                requires
                    1 <= level.cols() <= crate::level::MAX_GRID_DIM,
                    1 <= level.rows() <= crate::level::MAX_GRID_DIM,
                    1 <= ts <= crate::level::MAX_TILE_SIZE,
            ;
            // tie the sampled row back to the walked row index
            if y_sign {
                assert((ts as int) * row + 1 == sy) by (nonlinear_arith)
                    requires
                        y as int + level.ext_y() == row * (ts as int),
                        sy as int == y as int + 1 + level.ext_y(),
                ;
                vstd::arithmetic::div_mod::lemma_div_multiples_vanish_fancy(row, 1, ts as int);
                assert(cy as int == row);
            } else {
                assert((ts as int) * (row - 1) + ((ts as int) - 1) == sy) by (nonlinear_arith)
                    requires
                        y as int + level.ext_y() == row * (ts as int),
                        sy as int == y as int - 1 + level.ext_y(),
                ;
                vstd::arithmetic::div_mod::lemma_div_multiples_vanish_fancy(
                    row - 1,
                    (ts as int) - 1,
                    ts as int,
                );
                assert(cy as int == row - 1);
            }
        }
        x = x + x_step;
        y = y + y_step;
        proof {
            let k0 = k;
            let r0 = row;
            k = k + 1;
            row = if y_sign {
                r0 + 1
            } else {
                r0 - 1
            };
            assert((k0 + 1) * h_xstep(*level, dir) == k0 * h_xstep(*level, dir) + h_xstep(
                *level,
                dir,
            )) by (nonlinear_arith);
            assert((k0 + 1) * h_ystep(*level, dir) == k0 * h_ystep(*level, dir) + h_ystep(
                *level,
                dir,
            )) by (nonlinear_arith);
            assert((r0 + 1) * (ts as int) == r0 * (ts as int) + (ts as int) && (r0 - 1) * (
            ts as int) == r0 * (ts as int) - (ts as int)) by (nonlinear_arith);
            assert(abs_int(row * (ts as int)) <= 0x2_0000_0000) by (nonlinear_arith)
                requires
                    abs_int(row) <= 0x1001,
                    2 <= ts <= crate::level::MAX_TILE_SIZE,
            ;
            if y_sign {
                assert(level.rows() * (ts as int) >= row * (ts as int)) by (nonlinear_arith)
                    requires
                        row <= level.rows(),
                        ts >= 2,
                ;
            }
        }
    }
}

/// Walks the vertical family: steps from grid line to grid line along
/// `x`, recording each sampled cell, until a cell is solid.
#[verifier::loop_isolation(false)]
#[verifier::rlimit(60)]
fn cast_vertical(
    results: &mut LevelRaycastResults,
    level: &Level,
    pos: Vec2,
    dir: Vec2,
) -> (hit: RaycastGridResult)
    requires
        ray_args_ok(*level, pos, dir),
        dir.x != 0,
    ensures
        final(results).hits@ == old(results).hits@,
        exists|k: int|
            {
                &&& #[trigger] v_first_wall(*level, pos, dir, k)
                &&& hit == v_result(*level, pos, dir, k)
                &&& final(results).visited@ == old(results).visited@ + v_cells_seq(
                    *level,
                    pos,
                    dir,
                    k + 1,
                )
            },
        level.is_wall_at(hit.coord.x as int, hit.coord.y as int),
        !hit.is_horizontal_hit,
        (hit.point.x + level.ext_x()) % (level.tile_size as int) == 0,
        hit.distance >= 0,
        abs_int(hit.point.x as int) <= 0x8_0000_0000_0000,
        abs_int(hit.point.y as int) <= 0x8_0000_0000_0000,
{
    let ghost old_vis = results.visited@;
    let ext = level.extents();
    let ts = level.tile_size;
    let o = level.pos_to_coords(pos);
    let x_sign = dir.x > 0;
    let eps: i64 = if x_sign {
        1
    } else {
        -1
    };
    proof {
        crate::num::lemma_div_magnitude(pos.x as int + level.ext_x(), ts as int);
        crate::num::lemma_div_mul_near(pos.x as int + level.ext_x(), ts as int);
    }
    let start_col: i64 = if x_sign {
        o.x + 1
    } else {
        o.x
    };
    proof {
        assert((start_col as int) * (ts as int) == (o.x as int) * (ts as int) + (if x_sign {
            ts as int
        } else {
            0int
        })) by (nonlinear_arith)
            requires
                start_col as int == o.x as int + (if x_sign {
                    1int
                } else {
                    0int
                }),
        ;
        assert((o.x as int) * (ts as int) == (ts as int) * (o.x as int)) by (nonlinear_arith);
    }
    let mut x: i64 = start_col * ts - ext.x;
    proof {
        assert(x as int == v_x0(*level, pos, dir));
        assert(v_x0(*level, pos, dir) - pos.x <= ts && pos.x - v_x0(*level, pos, dir) < ts);
        crate::num::lemma_muldiv_bound(x as int - pos.x as int, dir.y as int, dir.x as int);
        vstd::arithmetic::mul::lemma_mul_upper_bound(
            abs_int(x as int - pos.x as int),
            crate::level::MAX_TILE_SIZE as int,
            abs_int(dir.y as int),
            MAX_RAY_DIR as int,
        );
    }
    let mut y: i64 = pos.y + muldiv(x - pos.x, dir.y, dir.x);
    let x_step: i64 = if x_sign {
        ts
    } else {
        -ts
    };
    proof {
        crate::num::lemma_muldiv_bound(x_step as int, dir.y as int, dir.x as int);
        vstd::arithmetic::mul::lemma_mul_upper_bound(
            abs_int(x_step as int),
            crate::level::MAX_TILE_SIZE as int,
            abs_int(dir.y as int),
            MAX_RAY_DIR as int,
        );
    }
    let y_step: i64 = muldiv(x_step, dir.y, dir.x);
    let ghost mut k: int = 0;
    let ghost mut col: int = start_col as int;
    proof {
        assert(x_step as int == v_xstep(*level, dir));
        assert(y_step as int == v_ystep(*level, dir));
        assert(x as int == v_x0(*level, pos, dir) + 0 * v_xstep(*level, dir)) by (nonlinear_arith)
            requires
                x as int == v_x0(*level, pos, dir),
        ;
        assert(y as int == v_y0(*level, pos, dir) + 0 * v_ystep(*level, dir)) by (nonlinear_arith)
            requires
                y as int == v_y0(*level, pos, dir),
        ;
        assert(results.visited@ =~= old_vis + v_cells_seq(*level, pos, dir, 0));
    }
    loop
        invariant
            0 <= k,
            col == start_col + (if x_sign {
                k
            } else {
                -k
            }),
            x as int == v_x0(*level, pos, dir) + k * v_xstep(*level, dir),
            y as int == v_y0(*level, pos, dir) + k * v_ystep(*level, dir),
            x as int + level.ext_x() == col * (ts as int),
            abs_int(x as int) <= 0x8_0000_0000_0000,
            abs_int(y as int) <= 0x8_0000_0000_0000,
            abs_int(col) <= 0x4_0000_0000_0000,
            forall|j: int| 0 <= j < k ==> !#[trigger] v_is_wall(*level, pos, dir, j),
            results.visited@ == old_vis + v_cells_seq(*level, pos, dir, k),
            results.hits@ == old(results).hits@,
        decreases (if x_sign {
            level.cols() * (ts as int) - (x as int + level.ext_x())
        } else {
            x as int + level.ext_x()
        }),
    {
        let sx = x + eps + ext.x;
        let sy = y + eps + ext.y;
        let cx = div_floor(sx, ts);
        let cy = div_floor(sy, ts);
        let c = GridCoords { x: cx, y: cy };
        results.visited.push(c);
        proof {
            assert((cx as int, cy as int) == v_cell(*level, pos, dir, k));
            assert(v_cells_seq(*level, pos, dir, k + 1) =~= v_cells_seq(
                *level,
                pos,
                dir,
                k,
            ).push(c));
            assert(results.visited@ == old_vis + v_cells_seq(*level, pos, dir, k + 1));
        }
        if level.is_wall(cx, cy) {
            let dx = x - pos.x;
            let dy = y - pos.y;
            proof {
                assert((dx as int) * (dx as int) >= 0 && (dy as int) * (dy as int) >= 0)
                    by (nonlinear_arith);
                assert((dx as int) * (dx as int) < i128::MAX && (dy as int) * (dy as int)
                    < i128::MAX) by (nonlinear_arith)
                    requires
                        abs_int(dx as int) <= 0x9_0000_0000_0000,
                        abs_int(dy as int) <= 0x9_0000_0000_0000,
                ;
                assert((dx as int) * (dx as int) + (dy as int) * (dy as int) <= u128::MAX)
                    by (nonlinear_arith)
                    requires
                        abs_int(dx as int) <= 0x9_0000_0000_0000,
                        abs_int(dy as int) <= 0x9_0000_0000_0000,
                ;
            }
            let sq: u128 = (dx as i128 * dx as i128) as u128 + (dy as i128 * dy as i128) as u128;
            let d64: u64 = isqrt(sq);
            proof {
                lemma_sqrt_floor_bounds(sq as nat);
                assert(sq <= 0xA2_0000_0000_0000_0000_0000_0000) by (nonlinear_arith)
                    requires
                        abs_int(dx as int) <= 0x9_0000_0000_0000,
                        abs_int(dy as int) <= 0x9_0000_0000_0000,
                        sq as int == (dx as int) * (dx as int) + (dy as int) * (dy as int),
                ;
                if d64 > 0x40_0000_0000_0000 {
                    assert(false) by (nonlinear_arith)
                        requires
                            (d64 as int) * (d64 as int) <= sq,
                            sq <= 0xA2_0000_0000_0000_0000_0000_0000,
                            d64 > 0x40_0000_0000_0000,
                    ;
                }
            }
            let hit = RaycastGridResult {
                coord: c,
                distance: d64 as i64,
                point: Vec2 { x, y },
                is_horizontal_hit: false,
            };
            proof {
                assert(v_first_wall(*level, pos, dir, k));
                assert(sq as int == len_sq(x as int - pos.x as int, y as int - pos.y as int));
                assert(hit == v_result(*level, pos, dir, k));
                lemma_mod_multiples_basic(col, ts as int);
                assert((col * (ts as int)) % (ts as int) == 0);
            }
            return hit;
        }
        proof {
            assert(!v_is_wall(*level, pos, dir, k));
            assert(0 <= cx && (cx as int) < level.cols() && 0 <= cy && (cy as int)
                < level.rows());
            crate::num::lemma_div_nonneg_back(sx as int, ts as int);
            crate::num::lemma_div_nonneg_back(sy as int, ts as int);
            crate::num::lemma_div_below(sx as int, ts as int, level.cols());
            crate::num::lemma_div_below(sy as int, ts as int, level.rows());
            assert(level.cols() * (ts as int) <= 0x100_0000_0000 && level.rows() * (ts as int)
                <= 0x100_0000_0000) by (nonlinear_arith)
                requires
                    1 <= level.cols() <= crate::level::MAX_GRID_DIM,
                    1 <= level.rows() <= crate::level::MAX_GRID_DIM,
                    1 <= ts <= crate::level::MAX_TILE_SIZE,
            ;
            // tie the sampled column back to the walked column index
            if x_sign {
                assert((ts as int) * col + 1 == sx) by (nonlinear_arith)
                    requires
                        x as int + level.ext_x() == col * (ts as int),
                        sx as int == x as int + 1 + level.ext_x(),
                ;
                vstd::arithmetic::div_mod::lemma_div_multiples_vanish_fancy(col, 1, ts as int);
                assert(cx as int == col);
            } else {
                assert((ts as int) * (col - 1) + ((ts as int) - 1) == sx) by (nonlinear_arith)
                    requires
                        x as int + level.ext_x() == col * (ts as int),
                        sx as int == x as int - 1 + level.ext_x(),
                ;
                vstd::arithmetic::div_mod::lemma_div_multiples_vanish_fancy(
                    col - 1,
                    (ts as int) - 1,
                    ts as int,
                );
                assert(cx as int == col - 1);
            }
        }
        x = x + x_step;
        y = y + y_step;
        proof {
            let k0 = k;
            let c0 = col;
            k = k + 1;
            col = if x_sign {
                c0 + 1
            } else {
                c0 - 1
            };
            assert((k0 + 1) * v_xstep(*level, dir) == k0 * v_xstep(*level, dir) + v_xstep(
                *level,
                dir,
            )) by (nonlinear_arith);
            assert((k0 + 1) * v_ystep(*level, dir) == k0 * v_ystep(*level, dir) + v_ystep(
                *level,
                dir,
            )) by (nonlinear_arith);
            assert((c0 + 1) * (ts as int) == c0 * (ts as int) + (ts as int) && (c0 - 1) * (
            ts as int) == c0 * (ts as int) - (ts as int)) by (nonlinear_arith);
            assert(abs_int(col * (ts as int)) <= 0x2_0000_0000) by (nonlinear_arith)
                requires
                    abs_int(col) <= 0x1001,
                    2 <= ts <= crate::level::MAX_TILE_SIZE,
            ;
            if x_sign {
                assert(level.cols() * (ts as int) >= col * (ts as int)) by (nonlinear_arith)
                    requires
                        col <= level.cols(),
                        ts >= 2,
                ;
            }
        }
    }
}

/// At most one step is the first solid sample of the horizontal family,
/// so the caster's contract pins its hit down.
pub proof fn lemma_h_first_wall_unique(level: Level, pos: Vec2, dir: Vec2, k1: int, k2: int)
    requires
        h_first_wall(level, pos, dir, k1),
        h_first_wall(level, pos, dir, k2),
    ensures
        k1 == k2,
{
}

/// At most one step is the first solid sample of the vertical family.
pub proof fn lemma_v_first_wall_unique(level: Level, pos: Vec2, dir: Vec2, k1: int, k2: int)
    requires
        v_first_wall(level, pos, dir, k1),
        v_first_wall(level, pos, dir, k2),
    ensures
        k1 == k2,
{
}

/// The step at which the horizontal family stops: the unique first
/// solid sample (the lemmas above make `choose` pick it).
pub open spec fn h_stop(level: Level, pos: Vec2, dir: Vec2) -> int {
    choose|k: int| h_first_wall(level, pos, dir, k)
}

/// The step at which the vertical family stops.
pub open spec fn v_stop(level: Level, pos: Vec2, dir: Vec2) -> int {
    choose|k: int| v_first_wall(level, pos, dir, k)
}

/// The hit a cast from `pos` along `dir` returns, as a function of its
/// arguments: the sentinel for a zero direction, the sole usable family
/// when the other is degenerate, else the closer family with the
/// horizontal winning ties.
pub open spec fn cast_hit(level: Level, pos: Vec2, dir: Vec2) -> RaycastGridResult {
    if dir.x == 0 && dir.y == 0 {
        sentinel_result(level, pos)
    } else if dir.x == 0 {
        h_result(level, pos, dir, h_stop(level, pos, dir))
    } else if dir.y == 0 {
        v_result(level, pos, dir, v_stop(level, pos, dir))
    } else {
        let rh = h_result(level, pos, dir, h_stop(level, pos, dir));
        let rv = v_result(level, pos, dir, v_stop(level, pos, dir));
        if rv.distance < rh.distance {
            rv
        } else {
            rh
        }
    }
}

/// The cells a cast from `pos` along `dir` steps through and records,
/// in order: the horizontal family's samples up to its stop, then the
/// vertical family's; a degenerate family contributes nothing.
pub open spec fn cast_cells(level: Level, pos: Vec2, dir: Vec2) -> Seq<GridCoords> {
    if dir.x == 0 && dir.y == 0 {
        Seq::empty()
    } else if dir.x == 0 {
        h_cells_seq(level, pos, dir, h_stop(level, pos, dir) + 1)
    } else if dir.y == 0 {
        v_cells_seq(level, pos, dir, v_stop(level, pos, dir) + 1)
    } else {
        h_cells_seq(level, pos, dir, h_stop(level, pos, dir) + 1) + v_cells_seq(
            level,
            pos,
            dir,
            v_stop(level, pos, dir) + 1,
        )
    }
}

/// Any first solid horizontal sample is the chosen stop.
pub proof fn lemma_h_stop_is(level: Level, pos: Vec2, dir: Vec2, k: int)
    requires
        h_first_wall(level, pos, dir, k),
    ensures
        h_stop(level, pos, dir) == k,
{
    lemma_h_first_wall_unique(level, pos, dir, k, h_stop(level, pos, dir));
}

/// Any first solid vertical sample is the chosen stop.
pub proof fn lemma_v_stop_is(level: Level, pos: Vec2, dir: Vec2, k: int)
    requires
        v_first_wall(level, pos, dir, k),
    ensures
        v_stop(level, pos, dir) == k,
{
    lemma_v_first_wall_unique(level, pos, dir, k, v_stop(level, pos, dir));
}

/// The hit a cast from `pos` along `dir` reports: the sentinel for a
/// zero direction, the sole usable family when the other is degenerate,
/// else the closer family with the horizontal winning ties.
pub open spec fn hit_matches(level: Level, pos: Vec2, dir: Vec2, hit: RaycastGridResult) -> bool {
    if dir.x == 0 && dir.y == 0 {
        hit == sentinel_result(level, pos)
    } else if dir.x == 0 {
        exists|k: int| #[trigger] h_first_wall(level, pos, dir, k) && hit == h_result(
            level,
            pos,
            dir,
            k,
        )
    } else if dir.y == 0 {
        exists|k: int| #[trigger] v_first_wall(level, pos, dir, k) && hit == v_result(
            level,
            pos,
            dir,
            k,
        )
    } else {
        exists|kh: int, kv: int|
            {
                &&& #[trigger] h_first_wall(level, pos, dir, kh)
                &&& #[trigger] v_first_wall(level, pos, dir, kv)
                &&& hit == if v_result(level, pos, dir, kv).distance < h_result(
                    level,
                    pos,
                    dir,
                    kh,
                ).distance {
                    v_result(level, pos, dir, kv)
                } else {
                    h_result(level, pos, dir, kh)
                }
            }
    }
}

/// Casts one ray: walks both grid-line families from `pos` along `dir`,
/// records every cell either family stepped through, appends the winning
/// hit to the session, and returns it.  A family whose direction
/// component is zero never crosses its grid lines and is skipped; with
/// a zero direction the sentinel hit is returned.  The closer family
/// wins; on equal floored distances the horizontal family does.
pub fn raycast_level(
    results: &mut LevelRaycastResults,
    level: &Level,
    pos: Vec2,
    dir: Vec2,
) -> (hit: RaycastGridResult)
    requires
        ray_args_ok(*level, pos, dir),
    ensures
        final(results).hits@ == old(results).hits@.push(hit),
        dir.x == 0 && dir.y == 0 ==> hit == sentinel_result(*level, pos) && final(results).visited@
            == old(results).visited@,
        dir.x == 0 && dir.y != 0 ==> exists|kh: int|
            {
                &&& #[trigger] h_first_wall(*level, pos, dir, kh)
                &&& hit == h_result(*level, pos, dir, kh)
                &&& final(results).visited@ == old(results).visited@ + h_cells_seq(
                    *level,
                    pos,
                    dir,
                    kh + 1,
                )
            },
        dir.x != 0 && dir.y == 0 ==> exists|kv: int|
            {
                &&& #[trigger] v_first_wall(*level, pos, dir, kv)
                &&& hit == v_result(*level, pos, dir, kv)
                &&& final(results).visited@ == old(results).visited@ + v_cells_seq(
                    *level,
                    pos,
                    dir,
                    kv + 1,
                )
            },
        dir.x != 0 && dir.y != 0 ==> exists|kh: int, kv: int|
            {
                &&& #[trigger] h_first_wall(*level, pos, dir, kh)
                &&& #[trigger] v_first_wall(*level, pos, dir, kv)
                &&& hit == if v_result(*level, pos, dir, kv).distance < h_result(
                    *level,
                    pos,
                    dir,
                    kh,
                ).distance {
                    v_result(*level, pos, dir, kv)
                } else {
                    h_result(*level, pos, dir, kh)
                }
                &&& final(results).visited@ == old(results).visited@ + h_cells_seq(
                    *level,
                    pos,
                    dir,
                    kh + 1,
                ) + v_cells_seq(*level, pos, dir, kv + 1)
            },
        dir.x != 0 || dir.y != 0 ==> level.is_wall_at(hit.coord.x as int, hit.coord.y as int),
        hit.is_horizontal_hit && dir.y != 0 ==> (hit.point.y + level.ext_y()) % (
        level.tile_size as int) == 0,
        !hit.is_horizontal_hit && dir.x != 0 ==> (hit.point.x + level.ext_x()) % (
        level.tile_size as int) == 0,
        hit.distance >= 0,
        hit_matches(*level, pos, dir, hit),
        hit == cast_hit(*level, pos, dir),
        final(results).visited@ == old(results).visited@ + cast_cells(*level, pos, dir),
        abs_int(hit.point.x as int) <= 0x8_0000_0000_0000,
        abs_int(hit.point.y as int) <= 0x8_0000_0000_0000,
        old(results).visited@.len() <= final(results).visited@.len() && forall|i: int|
            0 <= i < old(results).visited@.len() ==> final(results).visited@[i] == old(
                results,
            ).visited@[i],
{
    if dir.x == 0 && dir.y == 0 {
        let c = level.pos_to_coords(pos);
        let hit = RaycastGridResult {
            coord: c,
            distance: RAY_DISTANCE_SENTINEL,
            point: pos,
            is_horizontal_hit: false,
        };
        results.hits.push(hit);
        proof {
            assert(results.visited@ =~= old(results).visited@ + cast_cells(*level, pos, dir));
        }
        return hit;
    }
    if dir.x == 0 {
        let hit = cast_horizontal(results, level, pos, dir);
        results.hits.push(hit);
        proof {
            let kh = choose|k: int|
                {
                    &&& #[trigger] h_first_wall(*level, pos, dir, k)
                    &&& hit == h_result(*level, pos, dir, k)
                    &&& results.visited@ == old(results).visited@ + h_cells_seq(
                        *level,
                        pos,
                        dir,
                        k + 1,
                    )
                };
            lemma_h_stop_is(*level, pos, dir, kh);
        }
        return hit;
    }
    if dir.y == 0 {
        let hit = cast_vertical(results, level, pos, dir);
        results.hits.push(hit);
        proof {
            let kv = choose|k: int|
                {
                    &&& #[trigger] v_first_wall(*level, pos, dir, k)
                    &&& hit == v_result(*level, pos, dir, k)
                    &&& results.visited@ == old(results).visited@ + v_cells_seq(
                        *level,
                        pos,
                        dir,
                        k + 1,
                    )
                };
            lemma_v_stop_is(*level, pos, dir, kv);
        }
        return hit;
    }
    let ghost vis0 = results.visited@;
    let horizontal_hit = cast_horizontal(results, level, pos, dir);
    let ghost vis1 = results.visited@;
    let vertical_hit = cast_vertical(results, level, pos, dir);
    let hit = if vertical_hit.distance < horizontal_hit.distance {
        vertical_hit
    } else {
        horizontal_hit
    };
    results.hits.push(hit);
    proof {
        let kh = choose|k: int|
            {
                &&& #[trigger] h_first_wall(*level, pos, dir, k)
                &&& horizontal_hit == h_result(*level, pos, dir, k)
                &&& vis1 == vis0 + h_cells_seq(*level, pos, dir, k + 1)
            };
        let kv = choose|k: int|
            {
                &&& #[trigger] v_first_wall(*level, pos, dir, k)
                &&& vertical_hit == v_result(*level, pos, dir, k)
                &&& results.visited@ == vis1 + v_cells_seq(*level, pos, dir, k + 1)
            };
        assert(results.visited@ =~= vis0 + h_cells_seq(*level, pos, dir, kh + 1) + v_cells_seq(
            *level,
            pos,
            dir,
            kv + 1,
        ));
        assert({
            &&& h_first_wall(*level, pos, dir, kh)
            &&& v_first_wall(*level, pos, dir, kv)
            &&& hit == if v_result(*level, pos, dir, kv).distance < h_result(
                *level,
                pos,
                dir,
                kh,
            ).distance {
                v_result(*level, pos, dir, kv)
            } else {
                h_result(*level, pos, dir, kh)
            }
            &&& results.visited@ == vis0 + h_cells_seq(*level, pos, dir, kh + 1) + v_cells_seq(
                *level,
                pos,
                dir,
                kv + 1,
            )
        });
        lemma_h_stop_is(*level, pos, dir, kh);
        lemma_v_stop_is(*level, pos, dir, kv);
    }
    hit
}

/// A sprite draws this frame only if some ray stepped through its
/// cached grid cell.
pub fn is_sprite_visible(sprite: &crate::level::LevelSprite, raycasts: &LevelRaycastResults) -> (r:
    bool)
    ensures
        r == raycasts.visited_contains(sprite.coords),
{
    let mut i: usize = 0;
    while i < raycasts.visited.len()
        invariant
            0 <= i <= raycasts.visited@.len(),
            forall|j: int| 0 <= j < i ==> raycasts.visited@[j] != sprite.coords,
        decreases raycasts.visited@.len() - i,
    {
        let c = raycasts.visited[i];
        if c.x == sprite.coords.x && c.y == sprite.coords.y {
            proof {
                assert(raycasts.visited@[i as int] == sprite.coords);
            }
            return true;
        }
        i += 1;
    }
    proof {
        assert(!raycasts.visited@.contains(sprite.coords));
    }
    false
}

} // verus!
