//! Pure grid math: world positions against tile coordinates, with the
//! floor-division convention that pins down behavior for negative
//! coordinates, and the rectangle walk used by the level editor.

use crate::math::Vec2;
use crate::num::div_floor;
use vstd::arithmetic::div_mod::lemma_div_multiples_vanish_fancy;
use vstd::prelude::*;

verus! {

/// A coordinate on the tile grid: column `x`, row `y`.
#[derive(Clone, Copy, Debug, PartialEq, Eq, Structural)]
pub struct GridCoords {
    pub x: i64,
    pub y: i64,
}

/// Builds a grid coordinate from its components.
pub fn coords(x: i64, y: i64) -> (c: GridCoords)
    ensures
        c == (GridCoords { x, y }),
{
    GridCoords { x, y }
}

impl GridCoords {
    /// Component-wise sum.
    pub fn add(self, rhs: GridCoords) -> (c: GridCoords)
        requires
            i64::MIN <= self.x + rhs.x <= i64::MAX,
            i64::MIN <= self.y + rhs.y <= i64::MAX,
        ensures
            c.x == self.x + rhs.x,
            c.y == self.y + rhs.y,
    {
        GridCoords { x: self.x + rhs.x, y: self.y + rhs.y }
    }

    /// Component-wise difference.
    pub fn sub(self, rhs: GridCoords) -> (c: GridCoords)
        requires
            i64::MIN <= self.x - rhs.x <= i64::MAX,
            i64::MIN <= self.y - rhs.y <= i64::MAX,
        ensures
            c.x == self.x - rhs.x,
            c.y == self.y - rhs.y,
    {
        GridCoords { x: self.x - rhs.x, y: self.y - rhs.y }
    }
}

/// World position of the bottom-left corner of tile `(x, y)`.
pub open spec fn tile_bl_spec(x: int, y: int, tile_size: int) -> (int, int) {
    (x * tile_size, y * tile_size)
}

/// World position of the center of tile `(x, y)`.
pub open spec fn tile_center_spec(x: int, y: int, tile_size: int) -> (int, int) {
    (x * tile_size + tile_size / 2, y * tile_size + tile_size / 2)
}

/// Tile coordinate holding a world position: component-wise floor of
/// `pos / tile_size`.
pub open spec fn pos_to_coords_spec(px: int, py: int, tile_size: int) -> (int, int) {
    (px / tile_size, py / tile_size)
}

/// World position of the bottom-left corner of tile `(x, y)`.
pub fn tile_bl(x: i64, y: i64, tile_size: i64) -> (v: Vec2)
    requires
        tile_size > 0,
        i64::MIN <= x * tile_size <= i64::MAX,
        i64::MIN <= y * tile_size <= i64::MAX,
    ensures
        (v.x as int, v.y as int) == tile_bl_spec(x as int, y as int, tile_size as int),
{
    Vec2 { x: x * tile_size, y: y * tile_size }
}

/// World position of the bottom-left corner of tile `(x, y)`; a synonym
/// of `tile_bl` kept for callers that use the longer name.
pub fn tile_bottom_left(x: i64, y: i64, tile_size: i64) -> (v: Vec2)
    requires
        tile_size > 0,
        i64::MIN <= x * tile_size <= i64::MAX,
        i64::MIN <= y * tile_size <= i64::MAX,
    ensures
        (v.x as int, v.y as int) == tile_bl_spec(x as int, y as int, tile_size as int),
{
    tile_bl(x, y, tile_size)
}

/// World position of the center of tile `(x, y)`.
pub fn tile_center(x: i64, y: i64, tile_size: i64) -> (v: Vec2)
    requires
        tile_size > 0,
        i64::MIN <= x * tile_size <= i64::MAX - tile_size,
        i64::MIN <= y * tile_size <= i64::MAX - tile_size,
    ensures
        (v.x as int, v.y as int) == tile_center_spec(x as int, y as int, tile_size as int),
{
    let bl = tile_bl(x, y, tile_size);
    let half = div_floor(tile_size, 2);
    Vec2 { x: bl.x + half, y: bl.y + half }
}

/// Tile coordinate holding a world position; floor division, so points
/// with negative coordinates land in the tile below, never toward zero.
pub fn position_to_coords(pos: Vec2, tile_size: i64) -> (c: GridCoords)
    requires
        tile_size > 0,
    ensures
        (c.x as int, c.y as int) == pos_to_coords_spec(pos.x as int, pos.y as int, tile_size as int),
{
    GridCoords { x: div_floor(pos.x, tile_size), y: div_floor(pos.y, tile_size) }
}

/// The center of a tile converts back to that tile: for every
/// `tile_size > 0` and every integer coordinate, `pos_to_coords` of
/// `tile_center` is the identity.
pub proof fn lemma_tile_center_round_trip(x: int, y: int, tile_size: int)
    requires
        tile_size > 0,
    ensures
        pos_to_coords_spec(
            tile_center_spec(x, y, tile_size).0,
            tile_center_spec(x, y, tile_size).1,
            tile_size,
        ) == (x, y),
{
    vstd::arithmetic::div_mod::lemma_mod_division_less_than_divisor(tile_size, 2);
    assert(0 <= tile_size / 2 < tile_size) by {
        vstd::arithmetic::div_mod::lemma_div_pos_is_pos(tile_size, 2);
        if tile_size / 2 >= tile_size {
            vstd::arithmetic::div_mod::lemma_fundamental_div_mod(tile_size, 2);
            assert(2 * (tile_size / 2) >= 2 * tile_size) by (nonlinear_arith)
                requires
                    tile_size / 2 >= tile_size,
            ;
        }
    }
    lemma_div_multiples_vanish_fancy(x, tile_size / 2, tile_size);
    lemma_div_multiples_vanish_fancy(y, tile_size / 2, tile_size);
    assert(tile_size * x == x * tile_size) by (nonlinear_arith);
    assert(tile_size * y == y * tile_size) by (nonlinear_arith);
}

/// Walks the rectangle spanned by two grid corners, column by column:
/// each call to `next` hands out one coordinate until the far corner has
/// been reached.
pub struct FromToCoordsIterator {
    pub current: Option<GridCoords>,
    pub start: GridCoords,
    pub end: GridCoords,
    pub x_sign: i64,
    pub y_sign: i64,
}

impl FromToCoordsIterator {
    /// Starts a walk at `start`, stepping each axis toward `end`.
    pub fn new(start: GridCoords, end: GridCoords) -> (it: FromToCoordsIterator)
        requires
            crate::num::abs_int(start.x as int) <= 0x1000_0000,
            crate::num::abs_int(start.y as int) <= 0x1000_0000,
            crate::num::abs_int(end.x as int) <= 0x1000_0000,
            crate::num::abs_int(end.y as int) <= 0x1000_0000,
        ensures
            it.current == Some(start),
            it.start == start,
            it.end == end,
            it.x_sign == if end.x > start.x {
                1int
            } else if end.x < start.x {
                -1int
            } else {
                1int
            },
            it.y_sign == if end.y > start.y {
                1int
            } else if end.y < start.y {
                -1int
            } else {
                1int
            },
    {
        let x_sign: i64 = if end.x > start.x {
            1
        } else if end.x < start.x {
            -1
        } else {
            1
        };
        let y_sign: i64 = if end.y > start.y {
            1
        } else if end.y < start.y {
            -1
        } else {
            1
        };
        FromToCoordsIterator { current: Some(start), start, end, x_sign, y_sign }
    }

    /// Hands out the current coordinate and advances: the y axis steps
    /// first, wrapping back to the start row and stepping x when it
    /// passes the end row; the walk closes with the far corner.
    pub fn next(&mut self) -> (r: Option<GridCoords>)
        requires
            crate::num::abs_int(old(self).start.y as int) <= 0x1000_0000,
            crate::num::abs_int(old(self).end.x as int) <= 0x1000_0000,
            crate::num::abs_int(old(self).end.y as int) <= 0x1000_0000,
            old(self).x_sign == 1 || old(self).x_sign == -1,
            old(self).y_sign == 1 || old(self).y_sign == -1,
            old(self).current is Some ==> crate::num::abs_int(old(self).current->0.x as int)
                <= 0x1000_0000 && crate::num::abs_int(old(self).current->0.y as int) <= 0x1000_0000,
        ensures
            r == old(self).current,
            final(self).start == old(self).start,
            final(self).end == old(self).end,
            final(self).x_sign == old(self).x_sign,
            final(self).y_sign == old(self).y_sign,
            old(self).current is None ==> final(self).current is None,
            old(self).current is Some ==> final(self).current == ({
                let cur = old(self).current->0;
                let stepped_y = cur.y + old(self).y_sign;
                let wraps = old(self).y_sign * stepped_y > old(self).y_sign * old(self).end.y;
                let next_x = if wraps {
                    cur.x + old(self).x_sign
                } else {
                    cur.x as int
                };
                let next_y = if wraps {
                    old(self).start.y as int
                } else {
                    stepped_y
                };
                if old(self).x_sign * next_x > old(self).x_sign * old(self).end.x {
                    None
                } else {
                    Some(GridCoords { x: next_x as i64, y: next_y as i64 })
                }
            }),
            old(self).current is Some && final(self).current is None ==> r == Some(
                old(self).current->0,
            ),
    {
        let result = self.current;
        if let Some(cur) = self.current {
            let mut next = cur;
            next.y = next.y + self.y_sign;
            if self.y_sign * next.y > self.y_sign * self.end.y {
                next.x = next.x + self.x_sign;
                next.y = self.start.y;
            }
            if self.x_sign * next.x > self.x_sign * self.end.x {
                self.current = None;
            } else {
                self.current = Some(next);
            }
        }
        result
    }
}

} // verus!
