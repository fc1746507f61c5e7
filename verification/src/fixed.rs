//! Fixed-point scalars and planar vectors.
//!
//! Every world quantity is an integer count of thousandths of a unit.  This
//! module provides the vector type, a verified integer square root, the
//! normalization used for jump directions, the coefficient-times-fraction
//! product used by the movement integrator, and the componentwise clamp.

use vstd::prelude::*;

verus! {

use vstd::arithmetic::div_mod::lemma_div_by_multiple;
use vstd::arithmetic::div_mod::lemma_div_is_ordered;

/// One world unit on the fixed-point scale: all quantities are thousandths.
pub const FP_ONE: i64 = 1000;

/// Largest magnitude accepted for a coordinate of a contact-normal sum.
pub const CONTACT_BOUND: i64 = 0x4000_0000;

/// Largest magnitude accepted for a tuning coefficient (thousandths).
pub const COEFF_LIMIT: i64 = 1_000_000_000;

/// A planar vector with fixed-point coordinates.
#[derive(Clone, Copy, Debug, PartialEq, Eq, Structural)]
pub struct Vec2Fx {
    pub x: i64,
    pub y: i64,
}

impl Vec2Fx {
    /// The zero vector.
    pub open spec fn zero_spec() -> Vec2Fx {
        Vec2Fx { x: 0, y: 0 }
    }

    /// Build the zero vector.
    pub fn zero() -> (r: Vec2Fx)
        ensures
            r == Vec2Fx::zero_spec(),
    {
        Vec2Fx { x: 0, y: 0 }
    }
}

/// `r` is the floor of the square root of `n`.
pub open spec fn is_sqrt_floor(r: int, n: int) -> bool {
    0 <= r && r * r <= n < (r + 1) * (r + 1)
}

/// The floor of the square root of a non-negative integer.
pub open spec fn sqrt_floor(n: int) -> int {
    choose|r: int| is_sqrt_floor(r, n)
}

/// Any integer satisfying the square-root-floor property is the one
/// `sqrt_floor` denotes.
pub proof fn lemma_sqrt_floor_unique(r: int, n: int)
    requires
        is_sqrt_floor(r, n),
    ensures
        sqrt_floor(n) == r,
{
    assert(exists|q: int| is_sqrt_floor(q, n)) by {
        assert(is_sqrt_floor(r, n));
    }
    let r2 = sqrt_floor(n);
    assert(is_sqrt_floor(r2, n));
    if r2 < r {
        assert((r2 + 1) * (r2 + 1) <= r * r) by (nonlinear_arith)
            requires
                0 <= r2,
                r2 + 1 <= r,
        ;
    }
    if r < r2 {
        assert((r + 1) * (r + 1) <= r2 * r2) by (nonlinear_arith)
            requires
                0 <= r,
                r + 1 <= r2,
        ;
    }
}

/// Integer square root, rounding down.
pub fn isqrt(n: u64) -> (r: u64)
    ensures
        r * r <= n < (r + 1) * (r + 1),
        r == sqrt_floor(n as int),
{
    let mut lo: u64 = 0;
    let mut hi: u64 = 0x1_0000_0000;
    assert(n < hi * hi) by (nonlinear_arith)
        requires
            n <= u64::MAX,
            hi == 0x1_0000_0000u64,
    ;
    while lo + 1 < hi
        invariant
            lo < hi <= 0x1_0000_0000u64,
            lo * lo <= n,
            n < hi * hi,
        decreases hi - lo,
    {
        let mid: u64 = lo + (hi - lo) / 2;
        assert((mid as u128) * (mid as u128) <= 0x1_0000_0000u128 * 0x1_0000_0000u128)
            by (nonlinear_arith)
            requires
                0 <= mid <= 0x1_0000_0000u128,
        ;
        if (mid as u128) * (mid as u128) <= n as u128 {
            lo = mid;
        } else {
            hi = mid;
        }
    }
    proof {
        lemma_sqrt_floor_unique(lo as int, n as int);
    }
    lo
}

/// The squared magnitude of a planar vector.
pub open spec fn sq_mag(x: int, y: int) -> int {
    x * x + y * y
}

/// One coordinate of the fixed-point normalization of the vector whose
/// coordinates are `c` (the one being computed) and `other`: the coordinate
/// scaled to a vector of length `FP_ONE`, rounding magnitudes down, and the
/// zero vector for zero input.
pub open spec fn norm_coord(c: int, other: int) -> int {
    if c == 0 && other == 0 {
        0
    } else {
        let len = sqrt_floor(sq_mag(c, other));
        if c >= 0 {
            (c * FP_ONE) / len
        } else {
            -(((-c) * FP_ONE) / len)
        }
    }
}

/// Scale a vector to unit length on the fixed-point scale, or return zero
/// for the zero vector.  Each resulting coordinate keeps the sign of the
/// input coordinate and has magnitude at most `FP_ONE`.
pub fn normalize_or_zero(v: Vec2Fx) -> (r: Vec2Fx)
    requires
        -CONTACT_BOUND <= v.x <= CONTACT_BOUND,
        -CONTACT_BOUND <= v.y <= CONTACT_BOUND,
    ensures
        r.x == norm_coord(v.x as int, v.y as int),
        r.y == norm_coord(v.y as int, v.x as int),
        -FP_ONE <= r.x <= FP_ONE,
        -FP_ONE <= r.y <= FP_ONE,
{
    if v.x == 0 && v.y == 0 {
        return Vec2Fx::zero();
    }
    let mx: u64 = if v.x < 0 { (-v.x) as u64 } else { v.x as u64 };
    let my: u64 = if v.y < 0 { (-v.y) as u64 } else { v.y as u64 };
    proof {
        assert(mx * mx == v.x * v.x && my * my == v.y * v.y) by (nonlinear_arith)
            requires
                mx == if v.x < 0 { -v.x as int } else { v.x as int },
                my == if v.y < 0 { -v.y as int } else { v.y as int },
        ;
        assert(mx * mx <= 0x4000_0000 * 0x4000_0000) by (nonlinear_arith)
            requires
                0 <= mx <= 0x4000_0000,
        ;
        assert(my * my <= 0x4000_0000 * 0x4000_0000) by (nonlinear_arith)
            requires
                0 <= my <= 0x4000_0000,
        ;
    }
    let sq: u64 = mx * mx + my * my;
    let len: u64 = isqrt(sq);
    proof {
        assert(sq >= 1) by (nonlinear_arith)
            requires
                sq == mx * mx + my * my,
                0 <= mx,
                0 <= my,
                mx >= 1 || my >= 1,
        ;
        assert(len >= 1) by (nonlinear_arith)
            requires
                1 <= sq,
                0 <= len,
                sq < (len + 1) * (len + 1),
        ;
        lemma_coord_le_sqrt(mx as int, my as int, len as int);
    }
    let ux: u64 = mx * 1000 / len;
    let uy: u64 = my * 1000 / len;
    proof {
        lemma_div_is_ordered((mx * 1000) as int, (len * 1000) as int, len as int);
        lemma_div_is_ordered((my * 1000) as int, (len * 1000) as int, len as int);
        lemma_div_by_multiple(1000, len as int);
        assert(len * 1000 == 1000 * len) by (nonlinear_arith);
    }
    let rx: i64 = if v.x < 0 {
        -(ux as i64)
    } else {
        ux as i64
    };
    let ry: i64 = if v.y < 0 {
        -(uy as i64)
    } else {
        uy as i64
    };
    Vec2Fx { x: rx, y: ry }
}

/// A coordinate's magnitude never exceeds the floor square root of the
/// squared vector magnitude.
proof fn lemma_coord_le_sqrt(mx: int, my: int, len: int)
    requires
        0 <= mx,
        0 <= my,
        is_sqrt_floor(len, mx * mx + my * my),
    ensures
        mx <= len,
        my <= len,
{
    if mx > len {
        assert((len + 1) * (len + 1) <= mx * mx + my * my) by (nonlinear_arith)
            requires
                0 <= len,
                len + 1 <= mx,
                0 <= my,
        ;
    }
    if my > len {
        assert((len + 1) * (len + 1) <= mx * mx + my * my) by (nonlinear_arith)
            requires
                0 <= len,
                len + 1 <= my,
                0 <= mx,
        ;
    }
}

/// Law: each normalized coordinate keeps the sign of the input coordinate
/// (so the negated normalization points away from the input vector), and a
/// zero coordinate normalizes to zero.
pub proof fn lemma_norm_coord_sign(c: int, other: int)
    ensures
        c == 0 ==> norm_coord(c, other) == 0,
        c > 0 ==> norm_coord(c, other) >= 0,
        c < 0 ==> norm_coord(c, other) <= 0,
{
    if !(c == 0 && other == 0) {
        let n = sq_mag(c, other);
        assert(n >= 1) by (nonlinear_arith)
            requires
                n == c * c + other * other,
                c != 0 || other != 0,
        ;
        lemma_sqrt_pos(n);
        let len = sqrt_floor(n);
        if c == 0 {
            assert((0int * FP_ONE) == 0) by (nonlinear_arith);
            vstd::arithmetic::div_mod::lemma_div_basics(len);
        } else if c > 0 {
            assert(c * FP_ONE >= 0) by (nonlinear_arith)
                requires
                    c > 0,
            ;
            vstd::arithmetic::div_mod::lemma_div_pos_is_pos(c * FP_ONE, len);
        } else {
            assert((-c) * FP_ONE >= 0) by (nonlinear_arith)
                requires
                    c < 0,
            ;
            vstd::arithmetic::div_mod::lemma_div_pos_is_pos((-c) * FP_ONE, len);
        }
    }
}

/// The floor square root of a positive number is at least one.
proof fn lemma_sqrt_pos(n: int)
    requires
        n >= 1,
    ensures
        sqrt_floor(n) >= 1,
{
    lemma_sqrt_floor_exists(n);
    let r = sqrt_floor(n);
    assert(is_sqrt_floor(r, n));
    assert(r >= 1) by (nonlinear_arith)
        requires
            0 <= r,
            n >= 1,
            n < (r + 1) * (r + 1),
    ;
}

/// Every non-negative integer has a floor square root.
proof fn lemma_sqrt_floor_exists(n: int)
    requires
        0 <= n,
    ensures
        is_sqrt_floor(sqrt_floor(n), n),
    decreases n,
{
    if n == 0 {
        assert(is_sqrt_floor(0, 0)) by (nonlinear_arith);
    } else {
        lemma_sqrt_floor_exists(n - 1);
        let r = sqrt_floor(n - 1);
        assert(is_sqrt_floor(r, n - 1));
        if (r + 1) * (r + 1) <= n {
            assert(is_sqrt_floor(r + 1, n)) by (nonlinear_arith)
                requires
                    0 <= r,
                    r * r <= n - 1,
                    n - 1 < (r + 1) * (r + 1) <= n,
            ;
        } else {
            assert(is_sqrt_floor(r, n));
        }
    }
    assert(exists|q: int| is_sqrt_floor(q, n));
}

/// Law: a nonzero vector never normalizes to zero; its larger coordinate
/// keeps at least half the fixed-point unit magnitude.
pub proof fn lemma_normalize_nonzero(x: int, y: int)
    requires
        -CONTACT_BOUND <= x <= CONTACT_BOUND,
        -CONTACT_BOUND <= y <= CONTACT_BOUND,
        x != 0 || y != 0,
    ensures
        norm_coord(x, y) != 0 || norm_coord(y, x) != 0,
{
    let mx = if x >= 0 { x } else { -x };
    let my = if y >= 0 { y } else { -y };
    let m = if mx >= my { mx } else { my };
    let n = sq_mag(x, y);
    assert(n == mx * mx + my * my) by (nonlinear_arith)
        requires
            mx == if x >= 0 { x } else { -x },
            my == if y >= 0 { y } else { -y },
            n == x * x + y * y,
    ;
    assert(n >= 1 && n < (2 * m) * (2 * m) && m >= 1) by (nonlinear_arith)
        requires
            n == mx * mx + my * my,
            0 <= mx <= m,
            0 <= my <= m,
            m == mx || m == my,
            m >= 1,
    ;
    lemma_sqrt_pos(n);
    lemma_sqrt_floor_exists(n);
    let len = sqrt_floor(n);
    assert(len < 2 * m) by (nonlinear_arith)
        requires
            is_sqrt_floor(len, n),
            n < (2 * m) * (2 * m),
            m >= 1,
    ;
    assert((m * FP_ONE) / len >= (m * FP_ONE) / (2 * m)) by {
        assert(m * FP_ONE >= 0) by (nonlinear_arith)
            requires
                m >= 1,
        ;
        vstd::arithmetic::div_mod::lemma_div_is_ordered_by_denominator(m * FP_ONE, len, 2 * m);
    }
    assert((m * FP_ONE) / (2 * m) == 500) by {
        assert(m * FP_ONE == 500 * (2 * m)) by (nonlinear_arith);
        vstd::arithmetic::div_mod::lemma_div_by_multiple(500, 2 * m);
    }
    if m == mx {
        assert(norm_coord(x, y) != 0) by {
            if x >= 0 {
                assert(norm_coord(x, y) == (mx * FP_ONE) / len);
            } else {
                assert(norm_coord(x, y) == -((mx * FP_ONE) / len));
            }
        }
    } else {
        assert(norm_coord(y, x) != 0) by {
            if y >= 0 {
                assert(norm_coord(y, x) == (my * FP_ONE) / len);
            } else {
                assert(norm_coord(y, x) == -((my * FP_ONE) / len));
            }
        }
    }
}

/// A tuning coefficient times a fixed-point fraction, scaled back down:
/// the product `c * f` in world units when `f` is a coordinate of a
/// normalized vector.  Magnitudes round toward zero.
pub open spec fn mul_frac_spec(c: int, f: int) -> int {
    if f >= 0 {
        (c * f) / (FP_ONE as int)
    } else {
        -((c * (-f)) / (FP_ONE as int))
    }
}

/// Multiply a non-negative coefficient by a normalized-fraction coordinate.
pub fn mul_frac(c: i64, f: i64) -> (r: i64)
    requires
        0 <= c <= COEFF_LIMIT,
        -FP_ONE <= f <= FP_ONE,
    ensures
        r == mul_frac_spec(c as int, f as int),
        -c <= r <= c,
{
    proof {
        lemma_mul_frac_bound(c as int, f as int);
    }
    if f >= 0 {
        let p: u64 = (c as u64) * (f as u64);
        let q: u64 = p / 1000;
        q as i64
    } else {
        let p: u64 = (c as u64) * ((-f) as u64);
        let q: u64 = p / 1000;
        -(q as i64)
    }
}

/// The scaled product is bounded by the coefficient itself.
proof fn lemma_mul_frac_bound(c: int, f: int)
    requires
        0 <= c <= COEFF_LIMIT,
        -FP_ONE <= f <= FP_ONE,
    ensures
        -c <= mul_frac_spec(c, f) <= c,
        f >= 0 ==> 0 <= (c * f) / (FP_ONE as int) <= c,
        f < 0 ==> 0 <= (c * (-f)) / (FP_ONE as int) <= c,
{
    let m = if f >= 0 { f } else { -f };
    assert(0 <= c * m <= c * 1000) by (nonlinear_arith)
        requires
            0 <= c,
            0 <= m <= 1000,
    ;
    lemma_div_is_ordered(0, (c * m) as int, 1000);
    lemma_div_is_ordered((c * m) as int, (c * 1000) as int, 1000);
    lemma_div_by_multiple(c, 1000);
}

/// Clamp a value componentwise to the band `[-m, m]`.
pub open spec fn clamp_spec(v: int, m: int) -> int {
    if v > m {
        m
    } else if v < -m {
        -m
    } else {
        v
    }
}

/// Clamp a fixed-point value to magnitude at most `m`.
pub fn clamp_mag(v: i64, m: i64) -> (r: i64)
    requires
        0 <= m,
    ensures
        r == clamp_spec(v as int, m as int),
{
    if v > m {
        m
    } else if v < -m {
        -m
    } else {
        v
    }
}

} // verus!
