//! Number types that count in exact decimals, such as [`Fixed`] with functions of analysis
//! put beside it: what is said of them is said in whole units.

use vstd::prelude::*;
use crate::number::{towards_zero, Fixed, Number, UNITS};

verus! {

/// `d` gives the exact decimal that a number stands for, and every operation on numbers is
/// that on the decimals.
#[verifier::opaque]
pub open spec fn counts_in_decimals<N: Number>(d: spec_fn(N) -> Fixed) -> bool {
    &&& forall|i: int| #[trigger] d(N::of_int(i)) == Fixed::of_int(i)
    &&& forall|p: int, q: int| #[trigger] d(N::of_ratio(p, q)) == Fixed::of_ratio(p, q)
    &&& forall|a: N, b: N| #[trigger] d(a.sum(b)) == d(a).sum(d(b))
    &&& forall|a: N, b: N| #[trigger] d(a.difference(b)) == d(a).difference(d(b))
    &&& forall|a: N, b: N| #[trigger] d(a.product(b)) == d(a).product(d(b))
    &&& forall|a: N, b: N| #[trigger] d(a.quotient(b)) == d(a).quotient(d(b))
    &&& forall|a: N| #[trigger] d(a.magnitude()) == d(a).magnitude()
    &&& forall|a: N| #[trigger] d(a.sign()) == d(a).sign()
    &&& forall|a: N, b: N| #[trigger] d(a.larger(b)) == d(a).larger(d(b))
    &&& forall|a: N, b: N| #[trigger] d(a.smaller(b)) == d(a).smaller(d(b))
    &&& forall|a: N, b: N| #[trigger] a.is_below(b) == d(a).is_below(d(b))
    &&& forall|a: N, b: N| #[trigger] a.is_at_most(b) == d(a).is_at_most(d(b))
    &&& forall|a: N, b: N| #[trigger] a.is_same(b) == d(a).is_same(d(b))
}

/// Exact decimals count in themselves.
pub proof fn fixed_counts_in_decimals()
    ensures
        counts_in_decimals::<Fixed>(|x: Fixed| x),
{
    reveal(counts_in_decimals);
}

/// How many units a number has.
pub open spec fn units_in<N: Number>(d: spec_fn(N) -> Fixed, x: N) -> int {
    d(x).units as int
}

/// `x` is `num / den`, up to less than one unit.
pub open spec fn is_near(x: int, num: int, den: int) -> bool {
    num - den < x * den < num + den
}

/// Division that drops the fraction is off by less than one, towards zero.
pub proof fn division_is_near(x: int, d: int)
    requires
        d > 0,
    ensures
        is_near(towards_zero(x, d), x, d),
        x >= 0 ==> 0 <= towards_zero(x, d) <= x && towards_zero(x, d) * d <= x,
        x <= 0 ==> x <= towards_zero(x, d) <= 0 && x <= towards_zero(x, d) * d,
{
    if x >= 0 {
        let q = x / d;
        assert(q * d <= x < q * d + d && 0 <= q <= x) by (nonlinear_arith)
            requires
                q == x / d,
                d > 0,
                x >= 0,
        ;
    } else {
        let y = -x;
        let q = y / d;
        assert(q * d <= y < q * d + d && 0 <= q <= y) by (nonlinear_arith)
            requires
                q == y / d,
                d > 0,
                y > 0,
        ;
        assert((-q) * d == -(q * d)) by (nonlinear_arith);
    }
}

/// A product of exact decimals, up to less than a unit.
pub proof fn product_is_near(a: Fixed, b: Fixed)
    requires
        i64::MIN * UNITS <= a.units * b.units <= i64::MAX * UNITS,
    ensures
        is_near(a.product(b).units as int, a.units * b.units, UNITS as int),
        a.units * b.units >= 0 ==> a.product(b).units >= 0,
        a.units * b.units <= 0 ==> a.product(b).units <= 0,
{
    let x = a.units * b.units;
    let u = UNITS as int;
    division_is_near(x, u);
    let t = towards_zero(x, u);
    assert(i64::MIN <= t <= i64::MAX) by (nonlinear_arith)
        requires
            i64::MIN * u <= x <= i64::MAX * u,
            x >= 0 ==> 0 <= t && t * u <= x,
            x <= 0 ==> t <= 0 && x <= t * u,
            u == 100_000_000,
    ;
}

/// A quotient of exact decimals by a positive one, up to less than a unit.
pub proof fn quotient_is_near(a: Fixed, b: Fixed)
    requires
        b.units > 0,
        i64::MIN * b.units <= a.units * UNITS <= i64::MAX * b.units,
    ensures
        is_near(a.quotient(b).units as int, a.units * UNITS, b.units as int),
        a.units >= 0 ==> a.quotient(b).units >= 0,
        a.units <= 0 ==> a.quotient(b).units <= 0,
{
    let x = a.units * UNITS;
    let v = b.units as int;
    division_is_near(x, v);
    let t = towards_zero(x, v);
    assert(i64::MIN <= t <= i64::MAX) by (nonlinear_arith)
        requires
            i64::MIN * v <= x <= i64::MAX * v,
            x >= 0 ==> 0 <= t && t * v <= x,
            x <= 0 ==> t <= 0 && x <= t * v,
            v > 0,
    ;
}

/// Multiplying by a whole number drops nothing.
pub proof fn whole_multiple_is_exact(a: Fixed, n: int)
    requires
        0 <= n <= 92_233_720_368,
        i64::MIN <= a.units * n <= i64::MAX,
    ensures
        a.product(Fixed::of_int(n)).units == a.units * n,
        Fixed::of_int(n).product(a).units == a.units * n,
{
    let (x, u) = (a.units as int, UNITS as int);
    assert(u == 100_000_000);
    assert(Fixed::of_int(n).units == n * u);
    let y = x * n;
    assert(x * (n * u) == y * u && (n * u) * x == y * u) by (nonlinear_arith)
        requires
            y == x * n,
    ;
    if y >= 0 {
        assert(y * u >= 0 && (y * u) / u == y) by (nonlinear_arith)
            requires
                y >= 0,
                u == 100_000_000,
        ;
    } else {
        let z = -y;
        assert(-(y * u) == z * u && y * u < 0 && (z * u) / u == z) by (nonlinear_arith)
            requires
                z == -y,
                y < 0,
                u == 100_000_000,
        ;
    }
}

/// Dividing by a positive whole number drops less than a unit.
pub proof fn whole_part_is_near(a: Fixed, n: int)
    requires
        0 < n <= 92_233_720_368,
    ensures
        a.quotient(Fixed::of_int(n)).units == towards_zero(a.units as int, n),
        is_near(a.quotient(Fixed::of_int(n)).units as int, a.units as int, n),
        a.units >= 0 ==> 0 <= a.quotient(Fixed::of_int(n)).units <= a.units,
        a.units <= 0 ==> a.units <= a.quotient(Fixed::of_int(n)).units <= 0,
{
    let (x, u) = (a.units as int, UNITS as int);
    assert(u == 100_000_000);
    assert(Fixed::of_int(n).units == n * u);
    division_is_near(x, n);
    let m = if x >= 0 { x } else { -x };
    assert((m * u) / (n * u) == m / n && m * u >= 0) by (nonlinear_arith)
        requires
            m >= 0,
            n > 0,
            u == 100_000_000,
    ;
    assert((-m) * u == -(m * u)) by (nonlinear_arith);
}

} // verus!
