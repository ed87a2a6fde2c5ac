//! Integer layout geometry: rectangles in database units and the integer
//! arithmetic that grid and tile placement rests on.

use vstd::prelude::*;

verus! {

/// A rectangle in database units, low corner `(lx, ly)`, high `(hx, hy)`.
#[derive(Clone, Copy, Debug, PartialEq, Eq, Structural)]
pub struct Rect32 {
    pub lx: i32,
    pub ly: i32,
    pub hx: i32,
    pub hy: i32,
}

/// A point in database units.
#[derive(Clone, Copy, Debug, PartialEq, Eq, Structural)]
pub struct Point32 {
    pub x: i32,
    pub y: i32,
}

pub open spec fn min_i32(a: i32, b: i32) -> i32 {
    if a <= b {
        a
    } else {
        b
    }
}

pub open spec fn max_i32(a: i32, b: i32) -> i32 {
    if a >= b {
        a
    } else {
        b
    }
}

fn min32(a: i32, b: i32) -> (r: i32)
    ensures
        r == min_i32(a, b),
{
    if a <= b {
        a
    } else {
        b
    }
}

fn max32(a: i32, b: i32) -> (r: i32)
    ensures
        r == max_i32(a, b),
{
    if a >= b {
        a
    } else {
        b
    }
}

/// The rectangle spanned by two corners given in any order.
pub open spec fn spec_rect_from_corners(x0: i32, y0: i32, x1: i32, y1: i32) -> Rect32 {
    Rect32 { lx: min_i32(x0, x1), ly: min_i32(y0, y1), hx: max_i32(x0, x1), hy: max_i32(y0, y1) }
}

/// The rectangle spanned by two corners given in any order.
pub fn rect_from_corners(x0: i32, y0: i32, x1: i32, y1: i32) -> (r: Rect32)
    ensures
        r == spec_rect_from_corners(x0, y0, x1, y1),
{
    Rect32 { lx: min32(x0, x1), ly: min32(y0, y1), hx: max32(x0, x1), hy: max32(y0, y1) }
}

/// The smallest rectangle holding both.
pub open spec fn spec_union_rect(a: Rect32, b: Rect32) -> Rect32 {
    Rect32 {
        lx: min_i32(a.lx, b.lx),
        ly: min_i32(a.ly, b.ly),
        hx: max_i32(a.hx, b.hx),
        hy: max_i32(a.hy, b.hy),
    }
}

/// The smallest rectangle holding both.
pub fn union_rect(lhs: Rect32, rhs: Rect32) -> (r: Rect32)
    ensures
        r == spec_union_rect(lhs, rhs),
{
    Rect32 {
        lx: min32(lhs.lx, rhs.lx),
        ly: min32(lhs.ly, rhs.ly),
        hx: max32(lhs.hx, rhs.hx),
        hy: max32(lhs.hy, rhs.hy),
    }
}

/// The overlap of two rectangles, when it is not empty (edges touching
/// count as overlap).
pub open spec fn spec_intersect_rect(a: Rect32, b: Rect32) -> Option<Rect32> {
    let i = Rect32 {
        lx: max_i32(a.lx, b.lx),
        ly: max_i32(a.ly, b.ly),
        hx: min_i32(a.hx, b.hx),
        hy: min_i32(a.hy, b.hy),
    };
    if i.lx <= i.hx && i.ly <= i.hy {
        Some(i)
    } else {
        None
    }
}

pub fn intersect_rect(lhs: Rect32, rhs: Rect32) -> (r: Option<Rect32>)
    ensures
        r == spec_intersect_rect(lhs, rhs),
{
    let intersection = Rect32 {
        lx: max32(lhs.lx, rhs.lx),
        ly: max32(lhs.ly, rhs.ly),
        hx: min32(lhs.hx, rhs.hx),
        hy: min32(lhs.hy, rhs.hy),
    };
    if intersection.lx <= intersection.hx && intersection.ly <= intersection.hy {
        Some(intersection)
    } else {
        None
    }
}

/// `i32::saturating_add`.
pub open spec fn sat_add_i32(a: i32, b: i32) -> i32 {
    if a + b > i32::MAX {
        i32::MAX
    } else if a + b < i32::MIN {
        i32::MIN
    } else {
        (a + b) as i32
    }
}

fn saturating_add_i32(a: i32, b: i32) -> (r: i32)
    ensures
        r == sat_add_i32(a, b),
{
    let s: i64 = a as i64 + b as i64;
    if s > i32::MAX as i64 {
        i32::MAX
    } else if s < i32::MIN as i64 {
        i32::MIN
    } else {
        s as i32
    }
}

/// The rectangle moved by `(dx, dy)`, each edge saturating at the `i32`
/// range.
pub fn translate_rect(rect: Rect32, dx: i32, dy: i32) -> (r: Rect32)
    ensures
        r == (Rect32 {
            lx: sat_add_i32(rect.lx, dx),
            ly: sat_add_i32(rect.ly, dy),
            hx: sat_add_i32(rect.hx, dx),
            hy: sat_add_i32(rect.hy, dy),
        }),
{
    Rect32 {
        lx: saturating_add_i32(rect.lx, dx),
        ly: saturating_add_i32(rect.ly, dy),
        hx: saturating_add_i32(rect.hx, dx),
        hy: saturating_add_i32(rect.hy, dy),
    }
}

/// The value clamped into the `i32` range.
pub open spec fn clamp_to_i32(v: int) -> i32 {
    if v < i32::MIN {
        i32::MIN
    } else if v > i32::MAX {
        i32::MAX
    } else {
        v as i32
    }
}

/// `value.clamp(i32::MIN, i32::MAX) as i32`.
pub fn clamp_i64_to_i32(value: i64) -> (r: i32)
    ensures
        r == clamp_to_i32(value as int),
{
    if value < i32::MIN as i64 {
        i32::MIN
    } else if value > i32::MAX as i64 {
        i32::MAX
    } else {
        value as i32
    }
}

/// Same as `clamp_i64_to_i32`.
pub fn saturating_i64_to_i32(value: i64) -> (r: i32)
    ensures
        r == clamp_to_i32(value as int),
{
    clamp_i64_to_i32(value)
}

/// The Euclidean quotient of `n / d`, plus one when a remainder is left;
/// for a positive divisor, the ceiling of `n / d`.
pub open spec fn spec_ceil_div(n: int, d: int) -> int
    recommends
        d != 0,
{
    if n % d == 0 {
        n / d
    } else {
        n / d + 1
    }
}

proof fn lemma_euclid_quotient_bounds(n: int, d: int)
    requires
        d != 0,
        i64::MIN <= n <= i64::MAX,
        i64::MIN <= d <= i64::MAX,
        !(n == i64::MIN && d == -1),
    ensures
        i64::MIN <= n / d <= i64::MAX,
{
    let q = n / d;
    let r = n % d;
    vstd::arithmetic::div_mod::lemma_fundamental_div_mod(n, d);
    if d > 0 {
        vstd::arithmetic::div_mod::lemma_mod_bound(n, d);
        assert(i64::MIN <= q <= i64::MAX) by (nonlinear_arith)
            requires
                n == d * q + r,
                0 <= r < d,
                d > 0,
                i64::MIN <= n <= i64::MAX,
        ;
    } else {
        assert(0 <= r < -d);
        assert(i64::MIN <= q <= i64::MAX) by (nonlinear_arith)
            requires
                n == d * q + r,
                0 <= r < -d,
                d < 0,
                i64::MIN <= n <= i64::MAX,
                i64::MIN <= d,
                !(n == i64::MIN && d == -1),
        ;
    }
}

/// `numerator.div_euclid(denominator)`: the quotient of Euclidean
/// division (the remainder lies in `0..|denominator|`).
pub fn floor_div_i64(numerator: i64, denominator: i64) -> (q: i64)
    requires
        denominator != 0,
        !(numerator == i64::MIN && denominator == -1),
    ensures
        q == numerator as int / denominator as int,
{
    proof {
        lemma_euclid_quotient_bounds(numerator as int, denominator as int);
    }
    match numerator.checked_div_euclid(denominator) {
        Some(q) => q,
        None => 0,
    }
}

/// The Euclidean quotient, plus one when the division leaves a remainder:
/// for a positive divisor, the quotient rounded up.  Any divisor but zero
/// is taken, except `-1` under `i64::MIN`, whose quotient does not fit.
pub fn ceil_div_i64(numerator: i64, denominator: i64) -> (q: i64)
    requires
        denominator != 0,
        !(numerator == i64::MIN && denominator == -1),
    ensures
        q == spec_ceil_div(numerator as int, denominator as int),
{
    let quotient = floor_div_i64(numerator, denominator);
    proof {
        vstd::arithmetic::div_mod::lemma_fundamental_div_mod(numerator as int, denominator as int);
        if denominator > 0 {
            vstd::arithmetic::div_mod::lemma_mod_bound(numerator as int, denominator as int);
        }
    }
    let rem = match numerator.checked_rem_euclid(denominator) {
        Some(r) => r,
        None => 0,
    };
    if rem == 0 {
        quotient
    } else {
        proof {
            let q = quotient as int;
            let r = rem as int;
            if denominator > 0 {
                assert(q < i64::MAX) by (nonlinear_arith)
                    requires
                        numerator == denominator * q + r,
                        0 < r < denominator,
                        numerator <= i64::MAX,
                ;
            } else {
                assert(q < i64::MAX) by (nonlinear_arith)
                    requires
                        numerator == denominator * q + r,
                        0 < r < -denominator,
                        denominator < 0,
                        i64::MIN <= numerator,
                        i64::MIN <= denominator,
                ;
            }
        }
        quotient + 1
    }
}

} // verus!
