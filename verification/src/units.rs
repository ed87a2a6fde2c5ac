//! Distances and cursor positions as status text, in database units or in
//! microns. A micron value is printed the way `{:.3}` prints the `f64`
//! quotient of the database units by the units per micron: the quotient is
//! the double nearest to the exact ratio (ties to an even significand), and
//! that double is rounded to three decimals, ties to even.

use vstd::prelude::*;
use crate::geometry::Point32;
use crate::panels::{CoordinateUnit, effective_unit, effective_coordinate_unit};
use crate::text::{decimal, int_decimal, digit_char, push_decimal, push_int_decimal, push_str, push_char};

verus! {

/// `2^n`.
pub open spec fn two_pow(n: nat) -> nat
    decreases n,
{
    if n == 0 {
        1
    } else {
        2 * two_pow((n - 1) as nat)
    }
}

/// The first exponent from `s` on at which `a * 2^s` reaches `2^52 * d`:
/// where the binary point of a double's significand falls for `a / d`.
pub open spec fn significand_shift(a: nat, d: nat, s: nat) -> nat
    decreases 200 - s,
{
    if s >= 200 || a * two_pow(s) >= two_pow(52) * d {
        s
    } else {
        significand_shift(a, d, s + 1)
    }
}

/// `num / den` rounded to the nearest integer, ties to even.
pub open spec fn round_half_even(num: nat, den: nat) -> nat
    recommends
        den > 0,
{
    let q = num / den;
    let r = num % den;
    if 2 * r > den || (2 * r == den && q % 2 == 1) {
        q + 1
    } else {
        q
    }
}

/// The thousandths that `{:.3}` prints for the `f64` quotient `a / d`:
/// the quotient is `m / 2^s` with `m` the significand rounded to nearest,
/// ties to even, and that value is rounded to thousandths, ties to even.
pub open spec fn quotient_thousandths(a: nat, d: nat) -> nat {
    if a == 0 {
        0
    } else {
        let s = significand_shift(a, d, 0);
        let m = round_half_even(a * two_pow(s), d);
        round_half_even(1000 * m, two_pow(s))
    }
}

/// Three decimal digits, with leading zeros.
pub open spec fn three_digits(k: nat) -> Seq<char> {
    seq![digit_char((k / 100) % 10), digit_char((k / 10) % 10), digit_char(k % 10)]
}

/// The units per micron that the conversion uses: the manifest's value
/// when it is positive, else one.
pub open spec fn micron_scale(dbu_per_micron: Option<u32>) -> nat {
    match dbu_per_micron {
        Some(d) if d > 0 => d as nat,
        _ => 1,
    }
}

/// `{:.3}` of `value_dbu as f64 / scale as f64`.
pub open spec fn micron_text(value_dbu: i32, dbu_per_micron: Option<u32>) -> Seq<char> {
    let a: nat = if value_dbu < 0 {
        (-value_dbu) as nat
    } else {
        value_dbu as nat
    };
    let n = quotient_thousandths(a, micron_scale(dbu_per_micron));
    let sign = if value_dbu < 0 {
        seq!['-']
    } else {
        Seq::<char>::empty()
    };
    sign + decimal(n / 1000) + seq!['.'] + three_digits(n % 1000)
}

fn round_half_even_u128(num: u128, den: u128) -> (r: u128)
    requires
        den > 0,
        num / den < u128::MAX,
    ensures
        r == round_half_even(num as nat, den as nat),
{
    let q = num / den;
    let rem = num % den;
    if (rem > den - rem) || (rem == den - rem && q % 2 == 1) {
        q + 1
    } else {
        q
    }
}

proof fn lemma_shift_steps(a: nat, d: nat, s: nat)
    requires
        s <= 200,
        forall|t: nat| t < s ==> #[trigger] (a * two_pow(t)) < two_pow(52) * d,
    ensures
        significand_shift(a, d, 0) == significand_shift(a, d, s),
    decreases s,
{
    if s > 0 {
        let t = (s - 1) as nat;
        assert(a * two_pow(t) < two_pow(52) * d);
        lemma_shift_steps_from(a, d, t);
        lemma_shift_steps(a, d, t);
    }
}

proof fn lemma_shift_steps_from(a: nat, d: nat, t: nat)
    requires
        t < 200,
        a * two_pow(t) < two_pow(52) * d,
    ensures
        significand_shift(a, d, t) == significand_shift(a, d, t + 1),
{
}

proof fn lemma_two_pow_adds(a: nat, b: nat)
    ensures
        two_pow(a + b) == two_pow(a) * two_pow(b),
    decreases b,
{
    assert(two_pow(0) == 1);
    if b > 0 {
        let b1 = (b - 1) as nat;
        lemma_two_pow_adds(a, b1);
        let x = two_pow(a);
        let y = two_pow(b1);
        let z = two_pow(a + b1);
        assert(z == x * y);
        assert(two_pow(b) == 2 * y);
        assert(two_pow(a + b) == 2 * z) by {
            assert((a + b - 1) as nat == a + b1);
        }
        assert(2 * (x * y) == x * (2 * y)) by (nonlinear_arith);
        assert(two_pow(a + b) == x * two_pow(b));
    } else {
        let x = two_pow(a);
        assert(x * 1 == x) by (nonlinear_arith);
    }
}

proof fn lemma_two_pow_values()
    ensures
        two_pow(52) == 0x10_0000_0000_0000,
        two_pow(84) == 0x10_0000_0000_0000_0000_0000,
{
    assert(two_pow(0) == 1);
    assert(two_pow(1) == 2);
    lemma_two_pow_adds(1, 1);
    assert(two_pow(2) == 0x4) by (nonlinear_arith)
        requires
            two_pow(2) == two_pow(1) * two_pow(1),
            two_pow(1) == 0x2,
            two_pow(1) == 0x2,
    ;
    lemma_two_pow_adds(2, 2);
    assert(two_pow(4) == 0x10) by (nonlinear_arith)
        requires
            two_pow(4) == two_pow(2) * two_pow(2),
            two_pow(2) == 0x4,
            two_pow(2) == 0x4,
    ;
    lemma_two_pow_adds(4, 4);
    assert(two_pow(8) == 0x100) by (nonlinear_arith)
        requires
            two_pow(8) == two_pow(4) * two_pow(4),
            two_pow(4) == 0x10,
            two_pow(4) == 0x10,
    ;
    lemma_two_pow_adds(8, 8);
    assert(two_pow(16) == 0x10000) by (nonlinear_arith)
        requires
            two_pow(16) == two_pow(8) * two_pow(8),
            two_pow(8) == 0x100,
            two_pow(8) == 0x100,
    ;
    lemma_two_pow_adds(16, 16);
    assert(two_pow(32) == 0x100000000) by (nonlinear_arith)
        requires
            two_pow(32) == two_pow(16) * two_pow(16),
            two_pow(16) == 0x10000,
            two_pow(16) == 0x10000,
    ;
    lemma_two_pow_adds(32, 16);
    assert(two_pow(48) == 0x1000000000000) by (nonlinear_arith)
        requires
            two_pow(48) == two_pow(32) * two_pow(16),
            two_pow(32) == 0x100000000,
            two_pow(16) == 0x10000,
    ;
    lemma_two_pow_adds(48, 4);
    assert(two_pow(52) == 0x10000000000000) by (nonlinear_arith)
        requires
            two_pow(52) == two_pow(48) * two_pow(4),
            two_pow(48) == 0x1000000000000,
            two_pow(4) == 0x10,
    ;
    lemma_two_pow_adds(52, 32);
    assert(two_pow(84) == 0x1000000000000000000000) by (nonlinear_arith)
        requires
            two_pow(84) == two_pow(52) * two_pow(32),
            two_pow(52) == 0x10000000000000,
            two_pow(32) == 0x100000000,
    ;
}

proof fn lemma_two_pow_monotone(s1: nat, s2: nat)
    requires
        s1 <= s2,
    ensures
        two_pow(s1) <= two_pow(s2),
    decreases s2,
{
    if s1 < s2 {
        lemma_two_pow_monotone(s1, (s2 - 1) as nat);
    }
}

/// The thousandths that `{:.3}` prints for `a as f64 / d as f64`.
fn thousandths_of_quotient(a: u32, d: u32) -> (n: u64)
    requires
        d > 0,
    ensures
        n == quotient_thousandths(a as nat, d as nat),
{
    if a == 0 {
        return 0;
    }
    proof {
        lemma_two_pow_values();
    }
    let aw: u128 = a as u128;
    let dw: u128 = d as u128;
    let limit: u128 = 0x10_0000_0000_0000u128 * dw;
    let mut s: u32 = 0;
    let mut p: u128 = 1;
    let mut reached: bool = aw >= limit;
    while !reached
        invariant
            1 <= aw <= u32::MAX,
            1 <= dw <= u32::MAX,
            limit == two_pow(52) * dw,
            limit == 0x10_0000_0000_0000u128 * dw,
            two_pow(84) == 0x10_0000_0000_0000_0000_0000u128,
            s <= 84,
            p == two_pow(s as nat),
            1 <= p <= 0x10_0000_0000_0000_0000_0000u128,
            reached == (aw * p >= limit),
            s > 0 ==> aw * p < 2 * limit,
            forall|t: nat| t < s ==> #[trigger] (aw as nat * two_pow(t)) < two_pow(52) * dw,
        decreases 84 - s,
    {
        assert(p < 0x10_0000_0000_0000_0000_0000u128) by (nonlinear_arith)
            requires
                aw * p < limit,
                aw >= 1,
                limit == 0x10_0000_0000_0000u128 * dw,
                dw <= u32::MAX,
        ;
        assert(s < 84) by {
            if s >= 84 {
                lemma_two_pow_monotone(84, s as nat);
            }
        }
        assert(aw as nat * two_pow(s as nat) < two_pow(52) * dw);
        let half: u128 = p;
        p = p * 2;
        s = s + 1;
        assert(two_pow(s as nat) == 2 * two_pow((s - 1) as nat));
        proof {
            lemma_two_pow_monotone(s as nat, 84);
        }
        assert(aw * p <= 0x1_0000_0000u128 * 0x10_0000_0000_0000_0000_0000u128) by (nonlinear_arith)
            requires
                aw <= u32::MAX,
                p <= 0x10_0000_0000_0000_0000_0000u128,
        ;
        assert(aw * p < 2 * limit) by (nonlinear_arith)
            requires
                aw * half < limit,
                p == 2 * half,
        ;
        reached = aw * p >= limit;
    }
    proof {
        lemma_shift_steps(aw as nat, dw as nat, s as nat);
        assert(significand_shift(aw as nat, dw as nat, s as nat) == s);
    }
    let t: u128 = aw * p;
    assert(t < 0x20_0000_0000_0000u128 * dw);
    assert(t / dw < 0x20_0000_0000_0000u128) by (nonlinear_arith)
        requires
            t < 0x20_0000_0000_0000u128 * dw,
            dw >= 1,
    ;
    let m: u128 = round_half_even_u128(t, dw);
    assert(m <= 0x20_0000_0000_0000u128);
    let scaled: u128 = 1000 * m;
    assert(scaled / p <= scaled) by (nonlinear_arith)
        requires
            p >= 1,
    ;
    let n: u128 = round_half_even_u128(scaled, p);
    assert(n <= scaled + 1);
    n as u64
}

/// A value in microns with three decimals, as `{:.3}` prints the `f64`
/// quotient of `value_dbu` by the units per micron (one when the manifest
/// gives none or zero).
pub fn format_micron(value_dbu: i32, dbu_per_micron: Option<u32>) -> (text: String)
    ensures
        text@ == micron_text(value_dbu, dbu_per_micron),
{
    let d: u32 = match dbu_per_micron {
        Some(v) if v > 0 => v,
        _ => 1,
    };
    let a: u32 = if value_dbu < 0 {
        if value_dbu == i32::MIN {
            0x8000_0000u32
        } else {
            (-value_dbu) as u32
        }
    } else {
        value_dbu as u32
    };
    let n = thousandths_of_quotient(a, d);
    let mut text = String::new();
    if value_dbu < 0 {
        push_char(&mut text, '-');
    }
    push_decimal(&mut text, n / 1000);
    push_char(&mut text, '.');
    let frac = n % 1000;
    push_char(&mut text, digit_of(frac / 100));
    push_char(&mut text, digit_of((frac / 10) % 10));
    push_char(&mut text, digit_of(frac % 10));
    proof {
        let sign = if value_dbu < 0 {
            seq!['-']
        } else {
            Seq::<char>::empty()
        };
        assert(text@ =~= sign + decimal((n / 1000) as nat) + seq!['.'] + three_digits(
            (n % 1000) as nat,
        ));
    }
    text
}

fn digit_of(k: u64) -> (c: char)
    requires
        k < 10,
    ensures
        c == digit_char(k as nat),
{
    let code: u8 = 48u8 + k as u8;
    code as char
}

/// A distance in the unit that can be shown: `N DBU`, or microns with
/// three decimals followed by `um` when the manifest gives a scale.
pub open spec fn distance_text(
    distance_dbu: i32,
    unit: CoordinateUnit,
    dbu_per_micron: Option<u32>,
) -> Seq<char> {
    match effective_unit(unit, dbu_per_micron) {
        CoordinateUnit::Dbu => int_decimal(distance_dbu as int) + " DBU"@,
        CoordinateUnit::Micron => micron_text(distance_dbu, dbu_per_micron) + " um"@,
    }
}

/// Renders a distance (see `distance_text`).
pub fn format_distance(distance_dbu: i32, unit: CoordinateUnit, dbu_per_micron: Option<u32>) -> (text:
    String)
    ensures
        text@ == distance_text(distance_dbu, unit, dbu_per_micron),
{
    let mut text = String::new();
    match effective_coordinate_unit(unit, dbu_per_micron) {
        CoordinateUnit::Dbu => {
            push_int_decimal(&mut text, distance_dbu as i64);
            push_str(&mut text, " DBU");
        },
        CoordinateUnit::Micron => {
            let m = format_micron(distance_dbu, dbu_per_micron);
            push_str(&mut text, m.as_str());
            push_str(&mut text, " um");
        },
    }
    text
}

/// `cursor: X Y DBU`, or the coordinates in microns followed by `um`.
pub open spec fn cursor_text(point: Point32, unit: CoordinateUnit, dbu_per_micron: Option<u32>) -> Seq<
    char,
> {
    match effective_unit(unit, dbu_per_micron) {
        CoordinateUnit::Dbu => "cursor: "@ + int_decimal(point.x as int) + " "@ + int_decimal(
            point.y as int,
        ) + " DBU"@,
        CoordinateUnit::Micron => "cursor: "@ + micron_text(point.x, dbu_per_micron) + " "@
            + micron_text(point.y, dbu_per_micron) + " um"@,
    }
}

/// The status line for the cursor position (see `cursor_text`).
pub fn cursor_status_line(point: Point32, unit: CoordinateUnit, dbu_per_micron: Option<u32>) -> (line:
    String)
    ensures
        line@ == cursor_text(point, unit, dbu_per_micron),
{
    let mut line = String::new();
    push_str(&mut line, "cursor: ");
    match effective_coordinate_unit(unit, dbu_per_micron) {
        CoordinateUnit::Dbu => {
            push_int_decimal(&mut line, point.x as i64);
            push_str(&mut line, " ");
            push_int_decimal(&mut line, point.y as i64);
            push_str(&mut line, " DBU");
        },
        CoordinateUnit::Micron => {
            let x = format_micron(point.x, dbu_per_micron);
            let y = format_micron(point.y, dbu_per_micron);
            push_str(&mut line, x.as_str());
            push_str(&mut line, " ");
            push_str(&mut line, y.as_str());
            push_str(&mut line, " um");
        },
    }
    line
}

/// The shape nearest to the cursor and its squared distance.
#[derive(Clone, Copy, Debug, PartialEq, Eq, Structural)]
pub struct NearestShape {
    pub shape_id: u64,
    pub distance_squared: u64,
}

/// The cursor line, followed by `, nearest: shape ID d2 D` when a shape is
/// near.
pub open spec fn hover_text(
    point: Point32,
    unit: CoordinateUnit,
    dbu_per_micron: Option<u32>,
    nearest: Option<NearestShape>,
) -> Seq<char> {
    let cursor = cursor_text(point, unit, dbu_per_micron);
    match nearest {
        Some(n) => cursor + ", nearest: shape "@ + decimal(n.shape_id as nat) + " d2 "@ + decimal(
            n.distance_squared as nat,
        ),
        None => cursor,
    }
}

/// The status line while hovering the canvas (see `hover_text`).
pub fn hover_status_line(
    point: Point32,
    unit: CoordinateUnit,
    dbu_per_micron: Option<u32>,
    nearest: Option<NearestShape>,
) -> (line: String)
    ensures
        line@ == hover_text(point, unit, dbu_per_micron, nearest),
{
    let mut line = cursor_status_line(point, unit, dbu_per_micron);
    match nearest {
        Some(n) => {
            push_str(&mut line, ", nearest: shape ");
            push_decimal(&mut line, n.shape_id);
            push_str(&mut line, " d2 ");
            push_decimal(&mut line, n.distance_squared);
        },
        None => {},
    }
    line
}

} // verus!
