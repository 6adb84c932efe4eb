//! Integer arithmetic kernel: floor division, the signed
//! multiply-then-divide used for ray slopes, and the integer square root
//! used for Euclidean distances.

use vstd::arithmetic::div_mod::lemma_div_is_ordered;
use vstd::arithmetic::div_mod::lemma_div_multiples_vanish_fancy;
use vstd::arithmetic::div_mod::lemma_div_nonincreasing;
use vstd::arithmetic::div_mod::lemma_fundamental_div_mod;
use vstd::prelude::*;

verus! {

/// One whole unit of the fixed-point fractions used for direction
/// components, time deltas and shading factors.
pub const FRAC_ONE: i64 = 65536;

/// `2 * pi` in angle subunits (`FRAC_ONE` subunits per radian).
pub const TWO_PI: i64 = 411775;

/// Largest frame delta the integrators accept, in `FRAC_ONE` subunits of
/// a second (about eighteen hours): a machine limit that keeps every
/// speed-times-time product inside the integer range, far beyond any
/// real frame time.
pub const MAX_FRAME_DT: i64 = 0x1_0000_0000;

/// Absolute value over mathematical integers.
pub open spec fn abs_int(a: int) -> int {
    if a < 0 {
        -a
    } else {
        a
    }
}

/// The sign the quotient `a * b / c` carries in `muldiv`.
pub open spec fn muldiv_sign(a: int, b: int, c: int) -> int {
    if ((a < 0) != (b < 0)) != (c < 0) {
        -1
    } else {
        1
    }
}

/// `a * b / c` computed on magnitudes with the quotient rounded toward
/// zero, then given the sign of `a * b * c`.
pub open spec fn muldiv_spec(a: int, b: int, c: int) -> int
    recommends
        c != 0,
{
    muldiv_sign(a, b, c) * ((abs_int(a) * abs_int(b)) / abs_int(c))
}

/// Floor of the square root: the greatest `r` with `r * r <= n`.
pub open spec fn sqrt_floor(n: nat) -> nat
    decreases n,
{
    if n == 0 {
        0
    } else {
        let s = sqrt_floor((n - 1) as nat);
        if (s + 1) * (s + 1) <= n {
            s + 1
        } else {
            s
        }
    }
}

/// `sqrt_floor` brackets its argument between consecutive squares.
pub proof fn lemma_sqrt_floor_bounds(n: nat)
    ensures
        sqrt_floor(n) * sqrt_floor(n) <= n,
        n < (sqrt_floor(n) + 1) * (sqrt_floor(n) + 1),
    decreases n,
{
    if n == 0 {
        assert(sqrt_floor(0) == 0);
        assert(n < (sqrt_floor(n) + 1) * (sqrt_floor(n) + 1)) by (nonlinear_arith)
            requires
                n == 0,
                sqrt_floor(n) == 0,
        ;
    } else {
        lemma_sqrt_floor_bounds((n - 1) as nat);
        let s = sqrt_floor((n - 1) as nat);
        if (s + 1) * (s + 1) <= n {
            assert(sqrt_floor(n) == s + 1);
            assert(n <= (s + 1) * (s + 1)) by {
                assert((n - 1) < (s + 1) * (s + 1));
            }
            assert(sqrt_floor(n) * sqrt_floor(n) <= n) by (nonlinear_arith)
                requires
                    sqrt_floor(n) == s + 1,
                    (s + 1) * (s + 1) <= n,
            ;
            assert(n < (sqrt_floor(n) + 1) * (sqrt_floor(n) + 1)) by (nonlinear_arith)
                requires
                    s >= 0,
                    sqrt_floor(n) == s + 1,
                    n <= (s + 1) * (s + 1),
            ;
        } else {
            assert(sqrt_floor(n) == s);
            assert(sqrt_floor(n) * sqrt_floor(n) <= n) by (nonlinear_arith)
                requires
                    sqrt_floor(n) == s,
                    s * s <= n - 1,
            ;
            assert(n < (sqrt_floor(n) + 1) * (sqrt_floor(n) + 1)) by (nonlinear_arith)
                requires
                    sqrt_floor(n) == s,
                    !((s + 1) * (s + 1) <= n),
            ;
        }
    }
}

/// The bracket between consecutive squares pins the square root down.
pub proof fn lemma_sqrt_floor_unique(n: nat, r: nat)
    requires
        r * r <= n,
        n < (r + 1) * (r + 1),
    ensures
        r == sqrt_floor(n),
{
    let s = sqrt_floor(n);
    lemma_sqrt_floor_bounds(n);
    if r < s {
        assert(false) by (nonlinear_arith)
            requires
                r >= 0 && s >= 0 && r + 1 <= s,
                s * s <= n,
                n < (r + 1) * (r + 1),
        ;
    }
    if s < r {
        assert(false) by (nonlinear_arith)
            requires
                r >= 0 && s >= 0 && s + 1 <= r,
                r * r <= n,
                n < (s + 1) * (s + 1),
        ;
    }
}

/// Growing the radicand never shrinks the root.
pub proof fn lemma_sqrt_floor_monotonic(a: nat, b: nat)
    requires
        a <= b,
    ensures
        sqrt_floor(a) <= sqrt_floor(b),
{
    let ra = sqrt_floor(a);
    let rb = sqrt_floor(b);
    lemma_sqrt_floor_bounds(a);
    lemma_sqrt_floor_bounds(b);
    if rb < ra {
        assert(false) by (nonlinear_arith)
            requires
                ra >= 0 && rb >= 0 && rb + 1 <= ra,
                ra * ra <= a,
                a <= b,
                b < (rb + 1) * (rb + 1),
        ;
    }
}

/// The quotient of an `i64` by a positive divisor stays inside `i64`.
proof fn lemma_div_bounds_signed(a: int, b: int)
    requires
        b > 0,
        i64::MIN <= a <= i64::MAX,
    ensures
        i64::MIN <= a / b <= i64::MAX,
{
    if a >= 0 {
        lemma_div_nonincreasing(a, b);
        lemma_div_is_ordered(0, a, b);
    } else {
        lemma_div_is_ordered(a, 0, b);
        lemma_fundamental_div_mod(a, b);
        let q = a / b;
        assert(a < b * (q + 1)) by {
            assert(b * (q + 1) == b * q + b) by (nonlinear_arith);
        }
        if q + 1 <= a {
            assert(b * (q + 1) <= q + 1) by (nonlinear_arith)
                requires
                    b >= 1,
                    q + 1 <= a < 0,
            ;
        }
        assert(q >= a);
    }
}

/// Floor division by a positive divisor shrinks magnitudes and keeps
/// signs.
pub proof fn lemma_div_magnitude(a: int, b: int)
    requires
        b >= 1,
    ensures
        abs_int(a / b) <= abs_int(a),
        a >= 0 ==> 0 <= a / b <= a,
        a < 0 ==> a <= a / b <= 0,
{
    if a >= 0 {
        lemma_div_nonincreasing(a, b);
        lemma_div_is_ordered(0, a, b);
    } else {
        lemma_div_is_ordered(a, 0, b);
        lemma_fundamental_div_mod(a, b);
        let q = a / b;
        assert(a < b * (q + 1)) by {
            assert(b * (q + 1) == b * q + b) by (nonlinear_arith);
        }
        if q + 1 <= a {
            assert(b * (q + 1) <= q + 1) by (nonlinear_arith)
                requires
                    b >= 1,
                    q + 1 <= a < 0,
            ;
        }
    }
}

/// The multiple `b * (a / b)` lies within one divisor below `a`.
pub proof fn lemma_div_mul_near(a: int, b: int)
    requires
        b >= 1,
    ensures
        a - b < b * (a / b) <= a,
{
    lemma_fundamental_div_mod(a, b);
}

/// A bounded quotient bounds the dividend: `a / b < c` forces `a < c * b`.
pub proof fn lemma_div_below(a: int, b: int, c: int)
    requires
        b >= 1,
        a / b < c,
    ensures
        a < c * b,
{
    lemma_fundamental_div_mod(a, b);
    assert(a < c * b) by (nonlinear_arith)
        requires
            a == b * (a / b) + a % b,
            0 <= a % b < b,
            a / b < c,
            b >= 1,
    ;
}

/// A bounded dividend bounds the quotient: `a < c * b` forces
/// `a / b < c` for a nonnegative `a`.
pub proof fn lemma_div_lt(a: int, b: int, c: int)
    requires
        b >= 1,
        0 <= a,
        a < c * b,
    ensures
        a / b < c,
{
    lemma_fundamental_div_mod(a, b);
    if a / b >= c {
        assert(b * (a / b) >= b * c) by (nonlinear_arith)
            requires
                a / b >= c,
                b >= 1,
        ;
        assert(b * c == c * b) by (nonlinear_arith);
    }
}

/// A nonnegative quotient forces a nonnegative dividend.
pub proof fn lemma_div_nonneg_back(a: int, b: int)
    requires
        b >= 1,
        a / b >= 0,
    ensures
        a >= 0,
{
    lemma_fundamental_div_mod(a, b);
    assert(a >= 0) by (nonlinear_arith)
        requires
            a == b * (a / b) + a % b,
            0 <= a % b,
            a / b >= 0,
            b >= 1,
    ;
}

/// Floor division of a signed value by a positive divisor.
pub fn div_floor(a: i64, b: i64) -> (r: i64)
    requires
        b > 0,
    ensures
        r == a as int / b as int,
{
    proof {
        lemma_div_bounds_signed(a as int, b as int);
    }
    a.checked_div_euclid(b).unwrap()
}

/// Remainder of floor division by a positive divisor, in `[0, b)`.
pub fn rem_floor(a: i64, b: i64) -> (r: i64)
    requires
        b > 0,
    ensures
        r == a as int % b as int,
        0 <= r < b,
{
    a.checked_rem_euclid(b).unwrap()
}

/// `a * b / c` on magnitudes, rounded toward zero, with the sign of
/// `a * b * c`; the slope arithmetic of the raycaster and the scaling
/// arithmetic of the projector.
pub fn muldiv(a: i64, b: i64, c: i64) -> (r: i64)
    requires
        c != 0,
        abs_int(muldiv_spec(a as int, b as int, c as int)) <= i64::MAX,
    ensures
        r == muldiv_spec(a as int, b as int, c as int),
{
    let ua: u64 = if a >= 0 {
        a as u64
    } else {
        (-(a as i128)) as u64
    };
    let ub: u64 = if b >= 0 {
        b as u64
    } else {
        (-(b as i128)) as u64
    };
    let uc: u64 = if c >= 0 {
        c as u64
    } else {
        (-(c as i128)) as u64
    };
    proof {
        assert(ua == abs_int(a as int) && ub == abs_int(b as int) && uc == abs_int(c as int));
        assert((ua as int) * (ub as int) <= u128::MAX as int) by (nonlinear_arith)
            requires
                0 <= ua as int <= u64::MAX as int,
                0 <= ub as int <= u64::MAX as int,
        ;
    }
    let prod: u128 = (ua as u128) * (ub as u128);
    let q: u128 = prod / (uc as u128);
    proof {
        assert(q == (abs_int(a as int) * abs_int(b as int)) / abs_int(c as int));
        assert(abs_int(muldiv_spec(a as int, b as int, c as int)) == q);
    }
    let negative: bool = ((a < 0) != (b < 0)) != (c < 0);
    if negative {
        -(q as i64)
    } else {
        q as i64
    }
}

/// Integer square root: floor of the square root of `n`.
pub fn isqrt(n: u128) -> (r: u64)
    ensures
        r == sqrt_floor(n as nat),
{
    let top: u64 = u64::MAX;
    let mut lo: u64 = 0;
    let mut hi: u64;
    if n >= 0xFFFF_FFFF_FFFF_FFFF {
        proof {
            assert((top as int) * (top as int) <= u128::MAX as int) by (nonlinear_arith)
                requires
                    top as int == u64::MAX as int,
            ;
        }
        if ((top as u128) * (top as u128)) <= n {
            proof {
                assert((top as int + 1) * (top as int + 1) > u128::MAX as int)
                    by (nonlinear_arith)
                    requires
                        top as int == u64::MAX as int,
                ;
                lemma_sqrt_floor_unique(n as nat, top as nat);
            }
            return top;
        }
        hi = top - 1;
    } else {
        hi = 0xFFFF_FFFF;
        proof {
            assert((0xFFFF_FFFFu64 as int + 1) * (0xFFFF_FFFFu64 as int + 1) > n as int)
                by (nonlinear_arith)
                requires
                    (n as int) < 0xFFFF_FFFF_FFFF_FFFFu64 as int,
            ;
        }
    }
    while lo < hi
        invariant
            lo <= hi,
            hi < u64::MAX,
            (lo as int) * (lo as int) <= n as int,
            (n as int) < (hi as int + 1) * (hi as int + 1),
        decreases hi - lo,
    {
        let mid: u64 = lo + (hi - lo + 1) / 2;
        proof {
            assert((mid as int) * (mid as int) <= u128::MAX as int) by (nonlinear_arith)
                requires
                    0 <= mid as int <= u64::MAX as int,
            ;
        }
        let sq: u128 = (mid as u128) * (mid as u128);
        if sq <= n {
            lo = mid;
        } else {
            hi = mid - 1;
        }
    }
    proof {
        lemma_sqrt_floor_unique(n as nat, lo as nat);
    }
    lo
}

/// Exactness of `muldiv` when the divisor divides one factor away:
/// `muldiv(a, b, a) == b` for a nonnegative `b`, so a correction of
/// magnitude `b` along an axis is applied exactly.
pub proof fn lemma_muldiv_cancel(a: int, b: int)
    requires
        a != 0,
        b >= 0,
    ensures
        muldiv_spec(a, b, a) == b,
{
    lemma_div_multiples_vanish_fancy(abs_int(b), 0, abs_int(a));
    assert(abs_int(a) * abs_int(b) == abs_int(b) * abs_int(a)) by (nonlinear_arith);
}

/// `muldiv(a, b, |a|)` is exactly `b` carrying the sign of `a`.
pub proof fn lemma_muldiv_cancel_signed(a: int, b: int)
    requires
        a != 0,
        b >= 0,
    ensures
        muldiv_spec(a, b, abs_int(a)) == if a > 0 {
            b
        } else {
            -b
        },
{
    lemma_div_multiples_vanish_fancy(b, 0, abs_int(a));
    assert(abs_int(a) * abs_int(b) == abs_int(a) * b) by (nonlinear_arith)
        requires
            b >= 0,
            abs_int(b) == b,
    ;
}

/// A cap on the product caps the scaled quotient: if `|a * b| <= cap`
/// then `|muldiv(a, b, c)| <= cap / |c|`.
pub proof fn lemma_muldiv_div_bound(a: int, b: int, c: int, cap: int)
    requires
        c != 0,
        abs_int(a) * abs_int(b) <= cap,
    ensures
        abs_int(muldiv_spec(a, b, c)) <= cap / abs_int(c),
{
    lemma_muldiv_bound(a, b, c);
    lemma_div_is_ordered(abs_int(a) * abs_int(b), cap, abs_int(c));
}

/// The magnitude of `muldiv` never exceeds the magnitude of the product.
pub proof fn lemma_muldiv_bound(a: int, b: int, c: int)
    requires
        c != 0,
    ensures
        0 <= (abs_int(a) * abs_int(b)) / abs_int(c) <= abs_int(a) * abs_int(b),
        abs_int(muldiv_spec(a, b, c)) <= abs_int(a) * abs_int(b),
{
    assert(abs_int(a) * abs_int(b) >= 0) by (nonlinear_arith)
        requires
            abs_int(a) >= 0,
            abs_int(b) >= 0,
    ;
    lemma_div_nonincreasing(abs_int(a) * abs_int(b), abs_int(c));
    lemma_div_is_ordered(0, abs_int(a) * abs_int(b), abs_int(c));
}

} // verus!
