//! Grid math, angle and penetration helpers, exercised on concrete
//! values.  Fractional quantities from the world of floating-point
//! engines are carried in fixed-point subunits (65536 per unit), so
//! every expected value is exact.

use raygrid::grid::{coords, position_to_coords, tile_bl, tile_center, FromToCoordsIterator};
use raygrid::math::{
    aabb_rect_bounds_penetration, axis_bounds_penetration, circle_bounds_penetration, distance,
    lerp, normalize_angle, vec2, Vec2,
};
use raygrid::num::{div_floor, isqrt, muldiv, FRAC_ONE, TWO_PI};

#[test]
fn add_grid_coords_test() {
    let coord1 = coords(5, 3);
    let coord2 = coords(2, 7);
    let result = coord1.add(coord2);
    assert_eq!(result.x, 7);
    assert_eq!(result.y, 10);
}

#[test]
fn coords_function_test() {
    let result = coords(4, 7);
    assert_eq!(result.x, 4);
    assert_eq!(result.y, 7);
}

#[test]
fn tile_center_test() {
    // tile size 5.0 in half-subunits: ten subunits, so the half-tile
    // offset of 2.5 units stays exact
    let result = tile_center(2, 3, 10);
    assert_eq!(result, vec2(25, 35));
}

#[test]
fn tile_bl_test() {
    let result = tile_bl(2, 3, 5);
    assert_eq!(result, vec2(10, 15));
}

#[test]
fn position_to_coords_test() {
    let pos = vec2(12, 17);
    let result = position_to_coords(pos, 5);
    assert_eq!(result, coords(2, 3));
}

#[test]
fn position_to_coords_floors_negative() {
    assert_eq!(position_to_coords(vec2(-1, -32), 32), coords(-1, -1));
    assert_eq!(position_to_coords(vec2(-33, 31), 32), coords(-2, 0));
}

#[test]
fn tile_center_round_trip() {
    // the round-trip law on concrete values, negative coordinates
    // included, for an odd tile size too
    for &(x, y, ts) in &[(0i64, 0i64, 32i64), (7, -3, 32), (-5, 11, 7), (100, 100, 2)] {
        let c = tile_center(x, y, ts);
        assert_eq!(position_to_coords(c, ts), coords(x, y));
    }
}

#[test]
fn returns_zero_if_inside_bounds() {
    let center = 1;
    let size = 4;
    let bounds = 8;
    let p = axis_bounds_penetration(center, size / 2, bounds);
    assert_eq!(p, 0);
}

#[test]
fn returns_zero_if_touching_bounds() {
    let center = 1;
    let size = 4;
    let bounds = 6;
    let p = axis_bounds_penetration(center, size / 2, bounds);
    assert_eq!(p, 0);

    // just a hair further is outside: one subunit past touching
    let p2 = axis_bounds_penetration(center * FRAC_ONE + 1, size / 2 * FRAC_ONE, bounds * FRAC_ONE);
    assert!(p2 > 0);
}

#[test]
fn returns_positive_if_outside_bounds_right_side() {
    let center = 1;
    let size = 4;
    let bounds = 4;
    let p = axis_bounds_penetration(center, size / 2, bounds);
    assert_eq!(p, 1);
}

#[test]
fn returns_negative_if_outside_bounds_left_side() {
    let center = -1;
    let size = 4;
    let bounds = 4;
    let p = axis_bounds_penetration(center, size / 2, bounds);
    assert_eq!(p, -1);
}

#[test]
fn circle_and_rect_bounds_penetration() {
    let p = circle_bounds_penetration(vec2(5, -5), 2, vec2(8, 8));
    assert_eq!(p, vec2(3, -3));
    let q = aabb_rect_bounds_penetration(vec2(0, 6), vec2(1, 1), vec2(10, 10));
    assert_eq!(q, vec2(0, 2));
}

#[test]
fn normalize_angle_wraps() {
    assert_eq!(normalize_angle(5), 5);
    assert_eq!(normalize_angle(TWO_PI + 5), 5);
    assert_eq!(normalize_angle(-1), TWO_PI - 1);
    assert_eq!(normalize_angle(-5 * TWO_PI + 17), 17);
}

#[test]
fn lerp_interpolates() {
    assert_eq!(lerp(0, 100, FRAC_ONE / 2), 50);
    assert_eq!(lerp(10, 10, 12345), 10);
    assert_eq!(lerp(0, 100, 0), 0);
    assert_eq!(lerp(0, 100, FRAC_ONE), 100);
}

#[test]
fn numeric_kernel_basics() {
    assert_eq!(div_floor(7, 2), 3);
    assert_eq!(div_floor(-7, 2), -4);
    assert_eq!(muldiv(10, 6, 4), 15);
    assert_eq!(muldiv(-10, 6, 4), -15);
    assert_eq!(muldiv(10, -6, 4), -15);
    assert_eq!(isqrt(0), 0);
    assert_eq!(isqrt(256), 16);
    assert_eq!(isqrt(255), 15);
    assert_eq!(isqrt(u64::MAX as u128), 0xFFFF_FFFF);
}

#[test]
fn distance_is_floored_euclidean() {
    assert_eq!(distance(vec2(0, 0), vec2(3, 4)), 5);
    assert_eq!(distance(vec2(1, 1), vec2(2, 2)), 1);
    assert_eq!(distance(vec2(0, 0), vec2(16, 16)), 22);
}

#[test]
fn from_to_coords_iterator_walks_rectangle() {
    let mut it = FromToCoordsIterator::new(coords(0, 0), coords(1, 1));
    let mut seen = Vec::new();
    while let Some(c) = it.next() {
        seen.push((c.x, c.y));
    }
    assert_eq!(seen, vec![(0, 0), (0, 1), (1, 0), (1, 1)]);

    let mut back = FromToCoordsIterator::new(coords(2, 2), coords(1, 1));
    let mut seen2 = Vec::new();
    while let Some(c) = back.next() {
        seen2.push((c.x, c.y));
    }
    assert_eq!(seen2, vec![(2, 2), (2, 1), (1, 2), (1, 1)]);
}

#[test]
fn vec2_componentwise_ops() {
    let a = Vec2 { x: 3, y: -4 };
    let b = vec2(1, 9);
    assert_eq!(a.add(b), vec2(4, 5));
    assert_eq!(a.sub(b), vec2(2, -13));
    assert_eq!(Vec2::zero(), vec2(0, 0));
}
