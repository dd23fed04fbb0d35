//! Quotients as text, to the digit that double-precision arithmetic shows.
//!
//! A double holds 53 significant bits. Its arithmetic gives the exact result rounded to
//! that many bits, and its decimal text is the exact value rounded to the places asked for;
//! both go to the even neighbour where two are equally near. Here that is done, and stated,
//! on whole numbers.

use vstd::prelude::*;

use crate::text;
use crate::text::{number_filled, number_wide};

verus! {

/// 2 to the power of 52.
pub const LEAST: u128 = 4_503_599_627_370_496;

/// 2 to the power of 53: whole numbers below it have no more than 53 bits.
pub const LIMIT: u128 = 9_007_199_254_740_992;

/// The whole number nearest to `a / b`, the even one where two are equally near.
pub open spec fn nearest(a: nat, b: nat) -> nat {
    let q = a / b;
    let r = a % b;
    if 2 * r < b || (2 * r == b && q % 2 == 0) {
        q
    } else {
        q + 1
    }
}

/// No whole number is nearer to `a / b`: it is off by at most one half.
pub proof fn nearest_is_within_a_half(a: nat, b: nat)
    requires
        b > 0,
    ensures
        2 * (nearest(a, b) * b) <= 2 * a + b,
        2 * a <= 2 * (nearest(a, b) * b) + b,
        2 * a == 2 * (nearest(a, b) * b) + b || 2 * a + b == 2 * (nearest(a, b) * b) ==> nearest(
            a,
            b,
        ) % 2 == 0,
{
    let q = a / b;
    let r = a % b;
    assert(a == q * b + r && 0 <= r < b) by (nonlinear_arith)
        requires
            q == a / b,
            r == a % b,
            b > 0,
    ;
    assert((q + 1) * b == q * b + b) by (nonlinear_arith);
}

/// `a / b` to 53 bits, times `one`, for a quotient of 53 bits or more.
pub open spec fn rounded_large(a: nat, b: nat, one: nat) -> nat
    decreases a - b,
    when b > 0
{
    if a < LIMIT * b {
        nearest(a, b) * one
    } else {
        rounded_large(a, 2 * b, 2 * one)
    }
}

/// `a / b` to 53 bits, as a fraction whose denominator is `one` times a power of two, for a
/// quotient of fewer than 53 bits before the point.
pub open spec fn rounded_small(a: nat, b: nat, one: nat) -> (nat, nat)
    decreases LIMIT * b - a,
    when a > 0
{
    if a >= LEAST * b {
        (nearest(a, b), one)
    } else {
        rounded_small(2 * a, b, 2 * one)
    }
}

/// The double nearest to a whole number.
pub open spec fn to_double(n: nat) -> nat {
    if n < LIMIT {
        n
    } else {
        rounded_large(n, 1, 1)
    }
}

/// The double nearest to `a / b`, as a fraction.
pub open spec fn divided(a: nat, b: nat) -> (nat, nat) {
    if a == 0 {
        (0, 1)
    } else if a < LIMIT * b {
        rounded_small(a, b, 1)
    } else {
        (rounded_large(a, b, 1), 1)
    }
}

pub open spec fn ten_to(places: nat) -> nat
    decreases places,
{
    if places == 0 {
        1
    } else {
        10 * ten_to((places - 1) as nat)
    }
}

/// A fraction in decimal, rounded to `places` places after the point.
pub open spec fn fixed(value: (nat, nat), places: nat) -> Seq<char> {
    let d = nearest(value.0 * ten_to(places), value.1);
    text::decimal(d / ten_to(places)) + "."@ + text::zero_filled(d % ten_to(places), places)
}

/// The quotient of two doubles in decimal.
pub open spec fn quotient_text(a: nat, b: nat, places: nat) -> Seq<char> {
    fixed(divided(a, b), places)
}

fn nearest_of(a: u128, b: u128) -> (r: u128)
    requires
        0 < b,
        a < u128::MAX,
    ensures
        r == nearest(a as nat, b as nat),
{
    let q: u128 = a / b;
    let rest: u128 = a % b;
    assert(q <= a) by (nonlinear_arith)
        requires
            q == a / b,
            b > 0,
    ;
    if rest < b - rest || (rest == b - rest && q % 2 == 0) {
        q
    } else {
        q + 1
    }
}

/// The largest number that the functions here take: 2 to the power of 73.
pub const LARGEST: u128 = 9_444_732_965_739_290_427_392;

fn large(a: u128, b: u128) -> (r: u128)
    requires
        0 < b <= a <= LARGEST,
    ensures
        r == rounded_large(a as nat, b as nat, 1),
        1 <= r <= 2 * a,
{
    let mut low: u128 = b;
    let mut one: u128 = 1;
    while a >= LIMIT * low
        invariant
            1 <= one <= low <= a <= LARGEST,
            rounded_large(a as nat, low as nat, one as nat) == rounded_large(
                a as nat,
                b as nat,
                1,
            ),
        decreases a - low,
    {
        low = 2 * low;
        one = 2 * one;
    }
    let m: u128 = nearest_of(a, low);
    proof {
        let q = a / low;
        assert(q * low <= a) by (nonlinear_arith)
            requires
                q == a / low,
                low > 0,
        ;
        assert(1 <= q) by (nonlinear_arith)
            requires
                q == a / low,
                0 < low <= a,
        ;
        assert(1 <= m * one <= a + low) by (nonlinear_arith)
            requires
                q <= m <= q + 1,
                q * low <= a,
                1 <= q,
                1 <= one <= low,
        ;
    }
    m * one
}

fn small(a: u128, b: u128) -> (r: (u128, u128))
    requires
        0 < a < LIMIT * b,
        b <= LARGEST,
    ensures
        (r.0 as nat, r.1 as nat) == rounded_small(a as nat, b as nat, 1),
        r.0 <= LIMIT,
        r.1 >= 1,
{
    let mut high: u128 = a;
    let mut one: u128 = 1;
    while high < LEAST * b
        invariant
            1 <= one <= high < LIMIT * b,
            b <= LARGEST,
            rounded_small(high as nat, b as nat, one as nat) == rounded_small(
                a as nat,
                b as nat,
                1,
            ),
        decreases LIMIT * b - high,
    {
        high = 2 * high;
        one = 2 * one;
    }
    let m: u128 = nearest_of(high, b);
    proof {
        let q = high / b;
        assert(q < LIMIT) by (nonlinear_arith)
            requires
                q == high / b,
                b > 0,
                high < LIMIT * b,
        ;
    }
    (m, one)
}

/// The double nearest to a whole number.
pub fn as_double(n: u128) -> (r: u128)
    requires
        n <= LARGEST,
    ensures
        r == to_double(n as nat),
        r <= 2 * n,
        n > 0 ==> r > 0,
{
    if n < LIMIT {
        n
    } else {
        large(n, 1)
    }
}

/// The quotient of two doubles in decimal.
pub fn show_quotient(a: u128, b: u128, places: usize) -> (r: String)
    requires
        a <= LARGEST,
        0 < b <= LARGEST,
        1 <= places <= 3,
    ensures
        r@ == quotient_text(a as nat, b as nat, places as nat),
{
    let (num, den): (u128, u128) = if a == 0 {
        (0, 1)
    } else if a < LIMIT * b {
        small(a, b)
    } else {
        (large(a, b), 1)
    };
    proof {
        reveal_with_fuel(ten_to, 4);
    }
    let scale: u128 = if places == 1 {
        10
    } else if places == 2 {
        100
    } else {
        1000
    };
    let d: u128 = nearest_of(num * scale, den);
    let mut s = number_wide(d / scale);
    s.append(".");
    s.append(number_filled((d % scale) as u64, places).as_str());
    s
}

// ---------------------------------------------------------------------------
// Laws
// ---------------------------------------------------------------------------

/// A quotient that is not too large is rounded to 53 bits: a scaled whole number that is off by
/// at most one half.
proof fn small_is_near(a: nat, b: nat, one: nat)
    requires
        0 < a,
        b > 0,
        one > 0,
    ensures
        ({
            let (n, m) = rounded_small(a, b, one);
            &&& m >= one
            &&& 2 * (n * b * one) <= 2 * (a * m) + b * one
            &&& 2 * (a * m) <= 2 * (n * b * one) + b * one
            &&& a < LIMIT * b ==> n >= LEAST
        }),
    decreases LIMIT * b - a,
{
    if a >= LEAST * b {
        let n = nearest(a, b);
        nearest_is_within_a_half(a, b);
        assert(2 * (n * b * one) <= 2 * (a * one) + b * one) by (nonlinear_arith)
            requires
                2 * (n * b) <= 2 * a + b,
                one > 0,
        ;
        assert(2 * (a * one) <= 2 * (n * b * one) + b * one) by (nonlinear_arith)
            requires
                2 * a <= 2 * (n * b) + b,
                one > 0,
        ;
        assert(n >= LEAST) by {
            assert(a / b >= LEAST) by (nonlinear_arith)
                requires
                    a >= LEAST * b,
                    b > 0,
            ;
        }
    } else {
        small_is_near(2 * a, b, 2 * one);
        let (n, m) = rounded_small(2 * a, b, 2 * one);
        assert(n * b * (2 * one) == 2 * (n * b * one)) by (nonlinear_arith);
        assert((2 * a) * m == 2 * (a * m)) by (nonlinear_arith);
        assert(b * (2 * one) == 2 * (b * one)) by (nonlinear_arith);
    }
}

/// A quotient is shown to the place: the digits are those of a number of units of the last
/// place, and that number is off by less than one.
pub proof fn quotients_are_shown_to_the_place(a: nat, b: nat, places: nat) -> (d: nat)
    requires
        b > 0,
        a < 0x100_0000_0000 * b,
        1 <= places <= 3,
    ensures
        quotient_text(a, b, places) == text::decimal(d / ten_to(places)) + "."@ + text::zero_filled(
            d % ten_to(places),
            places,
        ),
        d * b - a * ten_to(places) < b,
        a * ten_to(places) - d * b < b,
        ten_to(places) == (if places == 1 {
            10nat
        } else if places == 2 {
            100nat
        } else {
            1000nat
        }),
{
    reveal_with_fuel(ten_to, 4);
    let t = ten_to(places);
    let (n, m) = divided(a, b);
    let d = nearest(n * t, m);
    if a == 0 {
        assert(n * t == 0) by (nonlinear_arith)
            requires
                n == 0,
        ;
        nearest_is_within_a_half(0, 1);
        assert(d == 0);
        assert(d * b == 0) by (nonlinear_arith)
            requires
                d == 0,
        ;
        assert(a * t == 0) by (nonlinear_arith)
            requires
                a == 0,
        ;
    } else {
        assert(a < LIMIT * b) by (nonlinear_arith)
            requires
                a < 0x100_0000_0000 * b,
                b > 0,
        ;
        small_is_near(a, b, 1);
        nearest_is_within_a_half(n * t, m);
        let nb = n * b;
        let am = a * m;
        assert(n * b * 1 == nb) by (nonlinear_arith)
            requires
                nb == n * b,
        ;
        assert(m > t) by (nonlinear_arith)
            requires
                2 * nb <= 2 * am + b,
                nb == n * b,
                am == a * m,
                n >= LEAST,
                a < 0x100_0000_0000 * b,
                b > 0,
                m > 0,
                t <= 1000,
        ;
        assert(2 * (d * m * b) <= 2 * (n * t * b) + m * b) by (nonlinear_arith)
            requires
                2 * (d * m) <= 2 * (n * t) + m,
                b > 0,
        ;
        assert(2 * (n * t * b) <= 2 * (d * m * b) + m * b) by (nonlinear_arith)
            requires
                2 * (n * t) <= 2 * (d * m) + m,
                b > 0,
        ;
        assert(2 * (n * t * b) <= 2 * (a * m * t) + b * t) by (nonlinear_arith)
            requires
                2 * nb <= 2 * am + b,
                nb == n * b,
                am == a * m,
                t > 0,
        ;
        assert(2 * (a * m * t) <= 2 * (n * t * b) + b * t) by (nonlinear_arith)
            requires
                2 * am <= 2 * nb + b,
                nb == n * b,
                am == a * m,
                t > 0,
        ;
        assert(b * t < b * m) by (nonlinear_arith)
            requires
                t < m,
                b > 0,
        ;
        assert(m * b == b * m) by (nonlinear_arith);
        assert(d * m * b - a * m * t < m * b);
        assert(a * m * t - d * m * b < m * b);
        assert(d * b - a * t < b) by (nonlinear_arith)
            requires
                d * m * b - a * m * t < m * b,
                m > 0,
        ;
        assert(a * t - d * b < b) by (nonlinear_arith)
            requires
                a * m * t - d * m * b < m * b,
                m > 0,
        ;
    }
    d
}

/// A whole number below two to the power of 53 is its own double.
pub proof fn small_numbers_are_doubles()
    ensures
        forall|n: u128, r: u128| #[trigger]
            call_ensures(as_double, (n,), r) && n < LIMIT ==> r == n,
        forall|a: u128, b: u128, places: usize, r: String| #[trigger]
            call_ensures(show_quotient, (a, b, places), r) && a < 0x100_0000_0000 * b && b > 0 && 1
                <= places <= 3 ==> exists|d: nat|
                {
                    &&& r@ == #[trigger] text::decimal(d / ten_to(places as nat)) + "."@
                        + text::zero_filled(d % ten_to(places as nat), places as nat)
                    &&& d * b - a * ten_to(places as nat) < b
                    &&& a * ten_to(places as nat) - d * b < b
                },
{
    assert forall|a: u128, b: u128, places: usize, r: String| #[trigger]
        call_ensures(show_quotient, (a, b, places), r) && a < 0x100_0000_0000 * b && b > 0 && 1
            <= places <= 3 implies exists|d: nat|
        {
            &&& r@ == #[trigger] text::decimal(d / ten_to(places as nat)) + "."@ + text::zero_filled(
                d % ten_to(places as nat),
                places as nat,
            )
            &&& d * b - a * ten_to(places as nat) < b
            &&& a * ten_to(places as nat) - d * b < b
        } by {
        let d = quotients_are_shown_to_the_place(a as nat, b as nat, places as nat);
        assert(text::decimal(d / ten_to(places as nat)) == text::decimal(
            d / ten_to(places as nat),
        ));
    }
}

} // verus!
