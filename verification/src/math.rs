//! Plane vectors, angle normalization and the axis/bounds penetration
//! helpers shared by the collision resolver.
//!
//! Headings are handled as fixed-point direction vectors: the caller
//! evaluates its trigonometry once and passes `(cos, sin)` scaled by
//! `FRAC_ONE`, and every function here is exact integer arithmetic over
//! those components.

use crate::num::{abs_int, muldiv, muldiv_spec, FRAC_ONE, TWO_PI};
use vstd::prelude::*;

verus! {

/// A position, displacement or direction in world subunits.
#[derive(Clone, Copy, Debug, PartialEq, Eq, Structural)]
pub struct Vec2 {
    pub x: i64,
    pub y: i64,
}

/// Builds a vector from its components.
pub fn vec2(x: i64, y: i64) -> (v: Vec2)
    ensures
        v == (Vec2 { x, y }),
{
    Vec2 { x, y }
}

impl Vec2 {
    /// The zero vector.
    pub fn zero() -> (v: Vec2)
        ensures
            v == (Vec2 { x: 0, y: 0 }),
    {
        Vec2 { x: 0, y: 0 }
    }

    /// Component-wise sum.
    pub fn add(self, rhs: Vec2) -> (v: Vec2)
        requires
            i64::MIN <= self.x + rhs.x <= i64::MAX,
            i64::MIN <= self.y + rhs.y <= i64::MAX,
        ensures
            v.x == self.x + rhs.x,
            v.y == self.y + rhs.y,
    {
        Vec2 { x: self.x + rhs.x, y: self.y + rhs.y }
    }

    /// Component-wise difference.
    pub fn sub(self, rhs: Vec2) -> (v: Vec2)
        requires
            i64::MIN <= self.x - rhs.x <= i64::MAX,
            i64::MIN <= self.y - rhs.y <= i64::MAX,
        ensures
            v.x == self.x - rhs.x,
            v.y == self.y - rhs.y,
    {
        Vec2 { x: self.x - rhs.x, y: self.y - rhs.y }
    }
}

/// Squared length of a vector given by components.
pub open spec fn len_sq(px: int, py: int) -> int {
    px * px + py * py
}

/// Floor of the Euclidean distance between two points.
pub fn distance(a: Vec2, b: Vec2) -> (d: i64)
    requires
        abs_int(a.x as int) <= 0x10_0000_0000_0000,
        abs_int(a.y as int) <= 0x10_0000_0000_0000,
        abs_int(b.x as int) <= 0x10_0000_0000_0000,
        abs_int(b.y as int) <= 0x10_0000_0000_0000,
    ensures
        d == crate::num::sqrt_floor(len_sq(b.x as int - a.x as int, b.y as int - a.y as int) as nat),
        d >= 0,
{
    let dx = b.x - a.x;
    let dy = b.y - a.y;
    proof {
        assert((dx as int) * (dx as int) >= 0 && (dy as int) * (dy as int) >= 0)
            by (nonlinear_arith);
        assert((dx as int) * (dx as int) < i128::MAX && (dy as int) * (dy as int) < i128::MAX
            && (dx as int) * (dx as int) + (dy as int) * (dy as int) <= u128::MAX)
            by (nonlinear_arith)
            requires
                abs_int(dx as int) <= 0x20_0000_0000_0000,
                abs_int(dy as int) <= 0x20_0000_0000_0000,
        ;
    }
    let sq: u128 = (dx as i128 * dx as i128) as u128 + (dy as i128 * dy as i128) as u128;
    let d64: u64 = crate::num::isqrt(sq);
    proof {
        crate::num::lemma_sqrt_floor_bounds(sq as nat);
        assert(sq <= 0x800_0000_0000_0000_0000_0000_0000) by (nonlinear_arith)
            requires
                abs_int(dx as int) <= 0x20_0000_0000_0000,
                abs_int(dy as int) <= 0x20_0000_0000_0000,
                sq as int == (dx as int) * (dx as int) + (dy as int) * (dy as int),
        ;
        if d64 > 0x80_0000_0000_0000 {
            assert(false) by (nonlinear_arith)
                requires
                    (d64 as int) * (d64 as int) <= sq,
                    sq <= 0x800_0000_0000_0000_0000_0000_0000,
                    d64 > 0x80_0000_0000_0000,
            ;
        }
    }
    d64 as i64
}

/// Clamp of `v` into `[lo, hi]`.
pub open spec fn clamp_spec(v: int, lo: int, hi: int) -> int {
    if v < lo {
        lo
    } else if v > hi {
        hi
    } else {
        v
    }
}

/// Clamps `v` into `[lo, hi]`.
pub fn clamp(v: i64, lo: i64, hi: i64) -> (r: i64)
    requires
        lo <= hi,
    ensures
        r == clamp_spec(v as int, lo as int, hi as int),
{
    if v < lo {
        lo
    } else if v > hi {
        hi
    } else {
        v
    }
}

/// The normalized equivalent of angle `a`, in `[0, TWO_PI)`; angles are
/// measured in `FRAC_ONE` subunits per radian.
pub fn normalize_angle(a: i64) -> (r: i64)
    ensures
        r == a as int % TWO_PI as int,
        0 <= r < TWO_PI,
{
    crate::num::rem_floor(a, TWO_PI)
}

/// Linear interpolation from `a` to `b` by the fraction `t / FRAC_ONE`:
/// exactly `a + (b - a) * t / FRAC_ONE`, rounded toward zero.
pub fn lerp(a: i64, b: i64, t: i64) -> (r: i64)
    requires
        abs_int(b as int - a as int) <= 0x2000_0000_0000,
        abs_int(t as int) <= FRAC_ONE,
        i64::MIN <= a + muldiv_spec(b as int - a as int, t as int, FRAC_ONE as int) <= i64::MAX,
    ensures
        r == a + muldiv_spec(b as int - a as int, t as int, FRAC_ONE as int),
{
    proof {
        crate::num::lemma_muldiv_bound(b as int - a as int, t as int, FRAC_ONE as int);
        vstd::arithmetic::mul::lemma_mul_upper_bound(
            abs_int(b as int - a as int),
            0x2000_0000_0000,
            abs_int(t as int),
            FRAC_ONE as int,
        );
    }
    let d = muldiv(b - a, t, FRAC_ONE);
    a + d
}

/// Scales a `FRAC_ONE`-scaled direction by `r`: the cartesian displacement
/// of polar coordinates `(r, theta)` once the caller has evaluated
/// `dir == (cos theta, sin theta) * FRAC_ONE`.
pub fn polar_to_cartesian(r: i64, dir: Vec2) -> (v: Vec2)
    requires
        abs_int(r as int) <= 0x4_0000_0000_0000,
        abs_int(dir.x as int) <= FRAC_ONE,
        abs_int(dir.y as int) <= FRAC_ONE,
    ensures
        v.x == muldiv_spec(dir.x as int, r as int, FRAC_ONE as int),
        v.y == muldiv_spec(dir.y as int, r as int, FRAC_ONE as int),
{
    proof {
        vstd::arithmetic::mul::lemma_mul_upper_bound(
            abs_int(dir.x as int),
            FRAC_ONE as int,
            abs_int(r as int),
            0x4_0000_0000_0000,
        );
        vstd::arithmetic::mul::lemma_mul_upper_bound(
            abs_int(dir.y as int),
            FRAC_ONE as int,
            abs_int(r as int),
            0x4_0000_0000_0000,
        );
        crate::num::lemma_muldiv_div_bound(
            dir.x as int,
            r as int,
            FRAC_ONE as int,
            0x4_0000_0000_0000_0000,
        );
        crate::num::lemma_muldiv_div_bound(
            dir.y as int,
            r as int,
            FRAC_ONE as int,
            0x4_0000_0000_0000_0000,
        );
        assert(0x4_0000_0000_0000_0000int / 65536int == 0x4_0000_0000_0000int);
    }
    Vec2 { x: muldiv(dir.x, r, FRAC_ONE), y: muldiv(dir.y, r, FRAC_ONE) }
}

/// How far a segment of half-length `extents` centered on `center` pokes
/// outside the symmetric band of total width `bounds`; zero when inside.
pub open spec fn axis_bounds_penetration_spec(center: int, extents: int, bounds: int) -> int {
    if center >= 0 {
        let reach = center + extents - bounds / 2;
        if reach > 0 {
            reach
        } else {
            0
        }
    } else {
        let reach = -center + extents - bounds / 2;
        if reach > 0 {
            -reach
        } else {
            0
        }
    }
}

/// Signed overhang of a centered segment past a symmetric bound; the
/// result can be subtracted from `center` to move the segment back inside.
pub fn axis_bounds_penetration(center: i64, extents: i64, bounds: i64) -> (r: i64)
    requires
        0 <= extents <= 0x1_0000_0000_0000,
        0 <= bounds <= 0x1_0000_0000_0000,
        abs_int(center as int) <= 0x1_0000_0000_0000,
    ensures
        r == axis_bounds_penetration_spec(center as int, extents as int, bounds as int),
{
    let half = crate::num::div_floor(bounds, 2);
    if center >= 0 {
        let reach = center + extents - half;
        if reach > 0 {
            reach
        } else {
            0
        }
    } else {
        let reach = -center + extents - half;
        if reach > 0 {
            -reach
        } else {
            0
        }
    }
}

/// Component-wise `axis_bounds_penetration` for a circle against a
/// centered rectangular bound.
pub fn circle_bounds_penetration(circle_pos: Vec2, circle_radius: i64, bounds: Vec2) -> (v: Vec2)
    requires
        0 <= circle_radius <= 0x1_0000_0000_0000,
        0 <= bounds.x <= 0x1_0000_0000_0000,
        0 <= bounds.y <= 0x1_0000_0000_0000,
        abs_int(circle_pos.x as int) <= 0x1_0000_0000_0000,
        abs_int(circle_pos.y as int) <= 0x1_0000_0000_0000,
    ensures
        v.x == axis_bounds_penetration_spec(
            circle_pos.x as int,
            circle_radius as int,
            bounds.x as int,
        ),
        v.y == axis_bounds_penetration_spec(
            circle_pos.y as int,
            circle_radius as int,
            bounds.y as int,
        ),
{
    Vec2 {
        x: axis_bounds_penetration(circle_pos.x, circle_radius, bounds.x),
        y: axis_bounds_penetration(circle_pos.y, circle_radius, bounds.y),
    }
}

/// Component-wise `axis_bounds_penetration` for an axis-aligned box
/// against a centered rectangular bound.
pub fn aabb_rect_bounds_penetration(center: Vec2, extents: Vec2, bounds: Vec2) -> (v: Vec2)
    requires
        0 <= extents.x <= 0x1_0000_0000_0000,
        0 <= extents.y <= 0x1_0000_0000_0000,
        0 <= bounds.x <= 0x1_0000_0000_0000,
        0 <= bounds.y <= 0x1_0000_0000_0000,
        abs_int(center.x as int) <= 0x1_0000_0000_0000,
        abs_int(center.y as int) <= 0x1_0000_0000_0000,
    ensures
        v.x == axis_bounds_penetration_spec(center.x as int, extents.x as int, bounds.x as int),
        v.y == axis_bounds_penetration_spec(center.y as int, extents.y as int, bounds.y as int),
{
    Vec2 {
        x: axis_bounds_penetration(center.x, extents.x, bounds.x),
        y: axis_bounds_penetration(center.y, extents.y, bounds.y),
    }
}

} // verus!
