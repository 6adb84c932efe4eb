//! Circle against axis-aligned box resolution: the minimal push-out
//! vector that removes an overlap, plus the laws the resolver obeys
//! (zero correction without overlap, exact magnitude on representable
//! overlaps, exact push-out for axis-aligned approaches).

use crate::math::{clamp, clamp_spec, len_sq, Vec2};
use crate::num::{
    abs_int, isqrt, lemma_muldiv_bound, lemma_sqrt_floor_bounds, lemma_sqrt_floor_monotonic,
    lemma_sqrt_floor_unique, muldiv, muldiv_sign, muldiv_spec, sqrt_floor,
};
use vstd::arithmetic::div_mod::{
    lemma_div_is_ordered, lemma_div_multiples_vanish_fancy, lemma_fundamental_div_mod,
};
use vstd::arithmetic::mul::lemma_mul_inequality;
use vstd::prelude::*;

verus! {

/// Positions and box extents handed to the resolver stay below this, so
/// every intermediate product fits the machine integers.
pub const WORLD_LIMIT: i64 = 0x1_0000_0000_0000;

/// Circle radii handed to the resolver stay below this.
pub const RADIUS_LIMIT: i64 = 0x10_0000;

/// The vector from the circle center to the closest point of the box:
/// `clamp(diff, -extents, extents) - diff` where `diff = center - box`.
pub open spec fn closest_point_delta(
    cx: int,
    cy: int,
    bx: int,
    by: int,
    ex: int,
    ey: int,
) -> (int, int) {
    let dx = cx - bx;
    let dy = cy - by;
    (clamp_spec(dx, -ex, ex) - dx, clamp_spec(dy, -ey, ey) - dy)
}

/// Distance from the circle center to the closest point of the box,
/// rounded down to an integer.
pub open spec fn closest_point_dist(
    cx: int,
    cy: int,
    bx: int,
    by: int,
    ex: int,
    ey: int,
) -> int {
    let p = closest_point_delta(cx, cy, bx, by, ex, ey);
    sqrt_floor(len_sq(p.0, p.1) as nat) as int
}

/// The push-out vector: zero when the circle center sits on the box
/// boundary or when there is no overlap, else the closest-point delta
/// rescaled to length `radius - distance`.
pub open spec fn circle_aabb_penetration_spec(
    cx: int,
    cy: int,
    radius: int,
    bx: int,
    by: int,
    ex: int,
    ey: int,
) -> (int, int) {
    let p = closest_point_delta(cx, cy, bx, by, ex, ey);
    let l = closest_point_dist(cx, cy, bx, by, ex, ey);
    if 0 < l < radius {
        (muldiv_spec(p.0, radius - l, l), muldiv_spec(p.1, radius - l, l))
    } else {
        (0, 0)
    }
}

/// The square root of a perfect square is exact.
pub proof fn lemma_sqrt_floor_square(a: nat)
    ensures
        sqrt_floor(a * a) == a,
{
    assert(a * a < (a + 1) * (a + 1)) by (nonlinear_arith);
    lemma_sqrt_floor_unique(a * a, a);
}

/// Each component of a vector is bounded by the floor of its length,
/// because squares are monotone.
proof fn lemma_component_le_dist(px: int, py: int)
    ensures
        abs_int(px) <= sqrt_floor(len_sq(px, py) as nat),
        abs_int(py) <= sqrt_floor(len_sq(px, py) as nat),
        len_sq(px, py) >= 0,
{
    let ax = abs_int(px);
    let ay = abs_int(py);
    assert(px * px == ax * ax && py * py == ay * ay && ax * ax >= 0 && ay * ay >= 0)
        by (nonlinear_arith)
        requires
            ax == abs_int(px),
            ay == abs_int(py),
    ;
    lemma_sqrt_floor_square(ax as nat);
    lemma_sqrt_floor_square(ay as nat);
    lemma_sqrt_floor_monotonic((ax * ax) as nat, len_sq(px, py) as nat);
    lemma_sqrt_floor_monotonic((ay * ay) as nat, len_sq(px, py) as nat);
}

/// `|muldiv(p, m, l)| <= m` whenever `|p| <= l`.
proof fn lemma_muldiv_le(p: int, m: int, l: int)
    requires
        l >= 1,
        m >= 0,
        abs_int(p) <= l,
    ensures
        abs_int(muldiv_spec(p, m, l)) <= m,
{
    lemma_mul_inequality(abs_int(p), l, m);
    lemma_div_is_ordered(abs_int(p) * m, l * m, l);
    lemma_div_multiples_vanish_fancy(m, 0, l);
    assert(l * m == m * l) by (nonlinear_arith);
    lemma_muldiv_bound(p, m, l);
}

/// Minimal vector that, subtracted from the circle's position, removes
/// its overlap with an axis-aligned box; the zero vector when the circle
/// center lies on the closest point or there is no overlap.
pub fn circle_aabb_penetration(
    circle_center: Vec2,
    circle_radius: i64,
    aabb_center: Vec2,
    aabb_extents: Vec2,
) -> (r: Vec2)
    requires
        abs_int(circle_center.x as int) <= WORLD_LIMIT,
        abs_int(circle_center.y as int) <= WORLD_LIMIT,
        abs_int(aabb_center.x as int) <= WORLD_LIMIT,
        abs_int(aabb_center.y as int) <= WORLD_LIMIT,
        0 <= aabb_extents.x <= WORLD_LIMIT,
        0 <= aabb_extents.y <= WORLD_LIMIT,
        0 <= circle_radius <= RADIUS_LIMIT,
    ensures
        (r.x as int, r.y as int) == circle_aabb_penetration_spec(
            circle_center.x as int,
            circle_center.y as int,
            circle_radius as int,
            aabb_center.x as int,
            aabb_center.y as int,
            aabb_extents.x as int,
            aabb_extents.y as int,
        ),
        abs_int(r.x as int) <= circle_radius,
        abs_int(r.y as int) <= circle_radius,
{
    let dx = circle_center.x - aabb_center.x;
    let dy = circle_center.y - aabb_center.y;
    let px = clamp(dx, -aabb_extents.x, aabb_extents.x) - dx;
    let py = clamp(dy, -aabb_extents.y, aabb_extents.y) - dy;
    proof {
        lemma_component_le_dist(px as int, py as int);
        assert((px as int) * (px as int) >= 0 && (py as int) * (py as int) >= 0)
            by (nonlinear_arith);
        assert((px as int) * (px as int) < i128::MAX && (py as int) * (py as int) < i128::MAX)
            by (nonlinear_arith)
            requires
                abs_int(px as int) <= 3 * WORLD_LIMIT,
                abs_int(py as int) <= 3 * WORLD_LIMIT,
        ;
        assert((px as int) * (px as int) + (py as int) * (py as int) <= u128::MAX)
            by (nonlinear_arith)
            requires
                abs_int(px as int) <= 3 * WORLD_LIMIT,
                abs_int(py as int) <= 3 * WORLD_LIMIT,
        ;
    }
    let sq: u128 = (px as i128 * px as i128) as u128 + (py as i128 * py as i128) as u128;
    let l64: u64 = isqrt(sq);
    proof {
        lemma_sqrt_floor_bounds(sq as nat);
        assert((px as int) * (px as int) <= 0x9_0000_0000_0000_0000_0000_0000 && (py as int) * (
        py as int) <= 0x9_0000_0000_0000_0000_0000_0000) by (nonlinear_arith)
            requires
                abs_int(px as int) <= 3 * WORLD_LIMIT,
                abs_int(py as int) <= 3 * WORLD_LIMIT,
        ;
        if l64 > 6 * WORLD_LIMIT {
            assert(false) by (nonlinear_arith)
                requires
                    (l64 as int) * (l64 as int) <= sq,
                    sq <= 0x12_0000_0000_0000_0000_0000_0000,
                    l64 > 6 * WORLD_LIMIT,
            ;
        }
    }
    let l: i64 = l64 as i64;
    if 0 < l && l < circle_radius {
        proof {
            lemma_muldiv_le(px as int, (circle_radius - l) as int, l as int);
            lemma_muldiv_le(py as int, (circle_radius - l) as int, l as int);
        }
        Vec2 { x: muldiv(px, circle_radius - l, l), y: muldiv(py, circle_radius - l, l) }
    } else {
        Vec2 { x: 0, y: 0 }
    }
}

/// Without an overlap the resolver corrects nothing: whenever the circle
/// center is at least `radius` away from the closest point of the box
/// (or sits exactly on it), the penetration vector is zero.  Applied to
/// an already-corrected, non-overlapping position this makes a second
/// resolution pass the identity.
pub proof fn lemma_penetration_zero_without_overlap(
    cx: int,
    cy: int,
    radius: int,
    bx: int,
    by: int,
    ex: int,
    ey: int,
)
    requires
        radius >= 0,
        closest_point_dist(cx, cy, bx, by, ex, ey) >= radius || closest_point_dist(
            cx,
            cy,
            bx,
            by,
            ex,
            ey,
        ) == 0,
    ensures
        circle_aabb_penetration_spec(cx, cy, radius, bx, by, ex, ey) == (0int, 0int),
{
}

/// On an overlap whose closest-point distance is exactly representable
/// (the squared length is a perfect square and the rescaling divisions
/// are exact), the squared magnitude of the correction is exactly
/// `(radius - distance)^2`.
#[verifier::rlimit(60)]
pub proof fn lemma_penetration_magnitude(
    cx: int,
    cy: int,
    radius: int,
    bx: int,
    by: int,
    ex: int,
    ey: int,
)
    requires
        ({
            let p = closest_point_delta(cx, cy, bx, by, ex, ey);
            let l = closest_point_dist(cx, cy, bx, by, ex, ey);
            &&& 0 < l < radius
            &&& len_sq(p.0, p.1) == l * l
            &&& (abs_int(p.0) * (radius - l)) % l == 0
            &&& (abs_int(p.1) * (radius - l)) % l == 0
        }),
    ensures
        ({
            let r = circle_aabb_penetration_spec(cx, cy, radius, bx, by, ex, ey);
            let p = closest_point_delta(cx, cy, bx, by, ex, ey);
            let l = closest_point_dist(cx, cy, bx, by, ex, ey);
            &&& len_sq(r.0, r.1) == (radius - l) * (radius - l)
            &&& r.0 * p.1 == r.1 * p.0
        }),
{
    let p = closest_point_delta(cx, cy, bx, by, ex, ey);
    let l = closest_point_dist(cx, cy, bx, by, ex, ey);
    let m = radius - l;
    let apx = abs_int(p.0);
    let apy = abs_int(p.1);
    let qx = (apx * m) / l;
    let qy = (apy * m) / l;
    assert(p.0 * p.0 == apx * apx && p.1 * p.1 == apy * apy) by (nonlinear_arith)
        requires
            apx == abs_int(p.0) && apy == abs_int(p.1),
    ;
    lemma_fundamental_div_mod(apx * m, l);
    lemma_fundamental_div_mod(apy * m, l);
    assert(apx * m == l * qx && apy * m == l * qy);
    let r = circle_aabb_penetration_spec(cx, cy, radius, bx, by, ex, ey);
    assert(qx >= 0 && qy >= 0) by {
        assert(apx * m >= 0 && apy * m >= 0) by (nonlinear_arith)
            requires
                apx >= 0 && apy >= 0 && m > 0,
        ;
        lemma_div_is_ordered(0, apx * m, l);
        lemma_div_is_ordered(0, apy * m, l);
    }
    assert(muldiv_sign(p.0, m, l) == if p.0 < 0 {
        -1int
    } else {
        1int
    });
    assert(muldiv_sign(p.1, m, l) == if p.1 < 0 {
        -1int
    } else {
        1int
    });
    assert(r.0 == muldiv_sign(p.0, m, l) * qx && r.1 == muldiv_sign(p.1, m, l) * qy);
    assert(r.0 == if p.0 >= 0 {
        qx
    } else {
        -qx
    } && r.1 == if p.1 >= 0 {
        qy
    } else {
        -qy
    }) by (nonlinear_arith)
        requires
            r.0 == muldiv_sign(p.0, m, l) * qx,
            r.1 == muldiv_sign(p.1, m, l) * qy,
            muldiv_sign(p.0, m, l) == if p.0 < 0 {
                -1int
            } else {
                1int
            },
            muldiv_sign(p.1, m, l) == if p.1 < 0 {
                -1int
            } else {
                1int
            },
    ;
    assert(r.0 * r.0 == qx * qx && r.1 * r.1 == qy * qy) by (nonlinear_arith)
        requires
            r.0 == qx || r.0 == -qx,
            r.1 == qy || r.1 == -qy,
    ;
    assert(qx * qx + qy * qy == m * m) by (nonlinear_arith)
        requires
            apx * m == l * qx,
            apy * m == l * qy,
            apx * apx + apy * apy == l * l,
            l > 0,
    ;
    // the correction keeps the closest-point direction: the cross
    // product of the two vectors vanishes
    assert(r.0 * p.1 == r.1 * p.0) by (nonlinear_arith)
        requires
            l > 0,
            apx * m == l * qx,
            apy * m == l * qy,
            (p.0 >= 0 ==> apx == p.0) && (p.0 < 0 ==> apx == -p.0),
            (p.1 >= 0 ==> apy == p.1) && (p.1 < 0 ==> apy == -p.1),
            r.0 == if p.0 >= 0 {
                qx
            } else {
                -qx
            },
            r.1 == if p.1 >= 0 {
                qy
            } else {
                -qy
            },
    ;
}

} // verus!
