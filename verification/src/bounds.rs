//! What bounded numbers amount to: sums, products and quotients of values that are known
//! to lie near zero.

use vstd::prelude::*;
use crate::number::{
    clamped, fixed_is_monotone, is_between, is_exp, is_monotone, is_tanh, not_negative,
    scaled_step_is_no_longer, towards_zero, Analytic, Fixed, Number, UNITS,
};

verus! {

/// The largest bound that the laws speak of.
pub const LARGEST_BOUND: i64 = 1_000_000_000;

/// Lies within `k` of zero. What is not a number does.
pub open spec fn within<N: Number>(x: N, k: int) -> bool {
    is_between(N::of_int(-k), x, N::of_int(k))
}

/// A number that lies within `k` of zero.
pub open spec fn is_bounded<N: Number>(x: N, k: int) -> bool {
    x.is_number() && within(x, k)
}

/// Bounds add up and multiply, and dividing by at least one does not widen them.
pub open spec fn bounds_add_up<N: Number>() -> bool {
    &&& forall|a: N, b: N, j: int, k: int|
        #![trigger a.sum(b), within(a, j), within(b, k)]
        0 <= j && 0 <= k && j + k <= LARGEST_BOUND && within(a, j) && within(b, k) ==> within(
            a.sum(b),
            j + k,
        )
    &&& forall|a: N, b: N, j: int, k: int|
        #![trigger a.difference(b), within(a, j), within(b, k)]
        0 <= j && 0 <= k && j + k <= LARGEST_BOUND && within(a, j) && within(b, k) ==> within(
            a.difference(b),
            j + k,
        )
    &&& forall|a: N, b: N, j: int, k: int|
        #![trigger a.product(b), within(a, j), within(b, k)]
        0 <= j && 0 <= k && j * k <= LARGEST_BOUND && within(a, j) && within(b, k) ==> within(
            a.product(b),
            j * k,
        )
    &&& forall|a: N, b: N, k: int|
        #![trigger a.quotient(b), within(a, k)]
        0 <= k <= LARGEST_BOUND && within(a, k) && !b.is_below(N::of_int(1)) ==> within(
            a.quotient(b),
            k,
        )
}

/// What bounded numbers give is a number.
pub open spec fn bounded_numbers_give_numbers<N: Number>() -> bool {
    &&& forall|a: N, b: N|
        is_bounded(a, LARGEST_BOUND as int) && is_bounded(b, LARGEST_BOUND as int)
            ==> (#[trigger] a.sum(b)).is_number()
    &&& forall|a: N, b: N|
        is_bounded(a, LARGEST_BOUND as int) && is_bounded(b, LARGEST_BOUND as int)
            ==> (#[trigger] a.difference(b)).is_number()
    &&& forall|a: N, b: N|
        is_bounded(a, LARGEST_BOUND as int) && is_bounded(b, LARGEST_BOUND as int)
            ==> (#[trigger] a.product(b)).is_number()
    &&& forall|a: N, b: N|
        a.is_number() && is_bounded(b, LARGEST_BOUND as int) && !b.is_same(N::of_int(0))
            ==> (#[trigger] a.quotient(b)).is_number()
    &&& forall|a: N| a.is_number() ==> is_bounded(#[trigger] a.sign(), 1)
}

/// Small integers and fractions of them are exact enough: integers add up, the quotient
/// of two is their fraction, and fractions are placed as their values are.
pub open spec fn literals_add_up<N: Number>() -> bool {
    &&& forall|i: int, j: int|
        -500_000 <= i <= 500_000 && -500_000 <= j <= 500_000 ==> #[trigger] N::of_int(i).sum(
            N::of_int(j),
        ) == N::of_int(i + j)
    &&& forall|i: int|
        0 <= i <= 1_000_000 ==> #[trigger] N::of_int(0).difference(N::of_int(i)) == N::of_int(-i)
    &&& forall|p: int, q: int|
        0 <= p <= 1_000_000 && 0 < q <= 1_000_000 ==> #[trigger] N::of_int(p).quotient(
            N::of_int(q),
        ) == N::of_ratio(p, q)
    &&& forall|p: int, q: int, k: int|
        #![trigger is_bounded(N::of_ratio(p, q), k)]
        0 < q <= 1_000_000 && 0 <= k <= 1_000_000 && -(k * q) <= p <= k * q ==> is_bounded(
            N::of_ratio(p, q),
            k,
        )
    &&& forall|p: int, q: int|
        0 < p <= 1_000_000 && 0 < q <= 1_000_000 ==> N::of_int(0).is_below(
            #[trigger] N::of_ratio(p, q),
        )
    &&& forall|p: int, q: int|
        0 <= 2 * p <= q && 0 < q <= 1_000_000 ==> is_between(
            N::of_int(0),
            #[trigger] N::of_ratio(p, q),
            N::of_ratio(1, 2),
        )
}

/// A step of at most half the way to a target does not pass it.
pub open spec fn half_steps_stay_between<N: Number>() -> bool {
    forall|from: N, alpha: N, target: N|
        #![trigger from.sum(alpha.product(target.difference(from)))]
        {
            let to = from.sum(alpha.product(target.difference(from)));
            is_bounded(from, LARGEST_BOUND as int) && is_bounded(target, LARGEST_BOUND as int)
                && alpha.is_number() && is_between(N::of_int(0), alpha, N::of_ratio(1, 2)) ==> {
                &&& to.is_number()
                &&& !target.is_below(from) ==> is_between(from, to, target)
                &&& !from.is_below(target) ==> is_between(target, to, from)
            }
        }
}

/// Sums, products and quotients keep the order of what goes into them.
pub open spec fn order_is_kept<N: Number>() -> bool {
    let zero = N::of_int(0);
    &&& forall|a: N, b: N, c: N|
        #![trigger a.product(b), a.product(c)]
        not_negative(a) && !c.is_below(b) ==> !a.product(c).is_below(a.product(b))
    &&& forall|a: N, b: N, c: N|
        #![trigger b.product(a), c.product(a)]
        not_negative(a) && !c.is_below(b) ==> !c.product(a).is_below(b.product(a))
    &&& forall|a: N, b: N, c: N|
        #![trigger a.difference(b), a.difference(c)]
        !c.is_below(b) ==> !a.difference(b).is_below(a.difference(c))
    &&& forall|a: N, b: N, c: N|
        #![trigger b.quotient(a), c.quotient(a)]
        zero.is_below(a) && !c.is_below(b) ==> !c.quotient(a).is_below(b.quotient(a))
    &&& forall|a: N| not_negative(#[trigger] a.magnitude())
    &&& forall|a: N, b: N|
        not_negative(a) && not_negative(b) ==> not_negative(#[trigger] a.smaller(b))
}

/// The laws of bounded arithmetic that binary floats and exact decimals share.
#[verifier::opaque]
pub open spec fn has_bounds<N: Number>() -> bool {
    &&& is_monotone::<N>()
    &&& bounds_add_up::<N>()
    &&& bounded_numbers_give_numbers::<N>()
    &&& literals_add_up::<N>()
    &&& half_steps_stay_between::<N>()
    &&& order_is_kept::<N>()
}

/// The laws of the functions of analysis that the models rest on: on numbers the
/// hyperbolic tangent is a number between -1 and 1, and the exponential never falls.
pub open spec fn is_analytic<N: Analytic>() -> bool {
    &&& forall|x: N, y: N| x.is_number() && #[trigger] is_tanh(x, y) ==> is_bounded(y, 1)
    &&& forall|x: N, y: N, ex: N, ey: N|
        #![trigger is_exp(x, ex), is_exp(y, ey)]
        is_exp(x, ex) && is_exp(y, ey) && !y.is_below(x) ==> !ey.is_below(ex)
}

// ---------------------------------------------------------------------------
// One step at a time
// ---------------------------------------------------------------------------
/// A wider bound holds too.
pub proof fn bound_widens<N: Number>(x: N, j: int, k: int)
    requires
        has_bounds::<N>(),
        is_bounded(x, j),
        j <= k,
    ensures
        is_bounded(x, k),
{
    reveal(has_bounds);
    reveal(is_monotone);
    let (low, high) = (N::of_int(-j), N::of_int(j));
    assert(!N::of_int(-j).is_below(N::of_int(-k)));
    assert(!N::of_int(k).is_below(N::of_int(j)));
    assert(low.is_number() && high.is_number());
    if x.is_below(N::of_int(-k)) {
        assert(x.is_below(low) || low.is_below(N::of_int(-k)));
    }
    if N::of_int(k).is_below(x) {
        assert(N::of_int(k).is_below(high) || high.is_below(x));
    }
}

/// The sum of two bounded numbers.
pub proof fn sum_is_bounded<N: Number>(a: N, j: int, b: N, k: int)
    requires
        has_bounds::<N>(),
        is_bounded(a, j),
        is_bounded(b, k),
        0 <= j,
        0 <= k,
        j + k <= LARGEST_BOUND,
    ensures
        is_bounded(a.sum(b), j + k),
{
    bound_widens(a, j, LARGEST_BOUND as int);
    bound_widens(b, k, LARGEST_BOUND as int);
    reveal(has_bounds);
}

/// The difference of two bounded numbers.
pub proof fn difference_is_bounded<N: Number>(a: N, j: int, b: N, k: int)
    requires
        has_bounds::<N>(),
        is_bounded(a, j),
        is_bounded(b, k),
        0 <= j,
        0 <= k,
        j + k <= LARGEST_BOUND,
    ensures
        is_bounded(a.difference(b), j + k),
{
    bound_widens(a, j, LARGEST_BOUND as int);
    bound_widens(b, k, LARGEST_BOUND as int);
    reveal(has_bounds);
}

/// The product of two bounded numbers.
pub proof fn product_is_bounded<N: Number>(a: N, j: int, b: N, k: int)
    requires
        has_bounds::<N>(),
        is_bounded(a, j),
        is_bounded(b, k),
        0 <= j <= LARGEST_BOUND,
        0 <= k <= LARGEST_BOUND,
        j * k <= LARGEST_BOUND,
    ensures
        is_bounded(a.product(b), j * k),
{
    bound_widens(a, j, LARGEST_BOUND as int);
    bound_widens(b, k, LARGEST_BOUND as int);
    reveal(has_bounds);
}

/// The quotient of a number by a bounded one that is not 0.
pub proof fn quotient_is_a_number<N: Number>(a: N, b: N, k: int)
    requires
        has_bounds::<N>(),
        a.is_number(),
        is_bounded(b, k),
        k <= LARGEST_BOUND,
        !b.is_same(N::of_int(0)),
    ensures
        a.quotient(b).is_number(),
{
    bound_widens(b, k, LARGEST_BOUND as int);
    reveal(has_bounds);
}

/// A small integer is bounded by its size.
pub proof fn integer_is_bounded<N: Number>(i: int)
    requires
        has_bounds::<N>(),
        0 <= i,
    ensures
        is_bounded(N::of_int(i), i),
        is_bounded(N::of_int(-i), i),
{
    reveal(has_bounds);
    reveal(is_monotone);
}

/// A small fraction is bounded by what it does not exceed.
pub proof fn fraction_is_bounded<N: Number>(p: int, q: int, k: int)
    requires
        has_bounds::<N>(),
        0 < q <= 1_000_000,
        0 <= k <= 1_000_000,
        -(k * q) <= p <= k * q,
    ensures
        is_bounded(N::of_ratio(p, q), k),
{
    reveal(has_bounds);
}

/// A clamped number is a number of its interval.
pub proof fn clamped_number_is_bounded<N: Number>(x: N, k: int)
    requires
        has_bounds::<N>(),
        x.is_number(),
        0 <= k,
    ensures
        is_bounded(clamped(x, N::of_int(-k), N::of_int(k)), k),
{
    reveal(has_bounds);
    reveal(is_monotone);
    assert(!N::of_int(k).is_below(N::of_int(-k)));
}

// ---------------------------------------------------------------------------
// Exact decimals
// ---------------------------------------------------------------------------
proof fn fixed_product_is_bounded(a: Fixed, b: Fixed, j: int, k: int)
    requires
        0 <= j,
        0 <= k,
        j * k <= LARGEST_BOUND,
        within(a, j),
        within(b, k),
    ensures
        within(a.product(b), j * k),
{
    let (x, y, u) = (a.units as int, b.units as int, UNITS as int);
    if j == 0 || k == 0 {
        assert(j * k == 0 && x * y == 0) by (nonlinear_arith)
            requires
                j == 0 || k == 0,
                j == 0 ==> x == 0,
                k == 0 ==> y == 0,
        ;
    } else {
        assert(j <= j * k && k <= j * k) by (nonlinear_arith)
            requires
                j >= 1,
                k >= 1,
        ;
        let top = (j * k) * u;
        assert(-(top * u) <= x * y <= top * u) by (nonlinear_arith)
            requires
                -(j * u) <= x <= j * u,
                -(k * u) <= y <= k * u,
                top == (j * k) * u,
                u > 0,
                j >= 1,
                k >= 1,
        ;
        let m = if x * y >= 0 { x * y } else { -(x * y) };
        assert(0 <= m / u <= top) by (nonlinear_arith)
            requires
                0 <= m <= top * u,
                u > 0,
        ;
    }
}

proof fn fixed_bounds()
    ensures
        bounds_add_up::<Fixed>(),
        bounded_numbers_give_numbers::<Fixed>(),
{
    assert forall|a: Fixed, b: Fixed, j: int, k: int|
        #![trigger a.product(b), within(a, j), within(b, k)]
        0 <= j && 0 <= k && j * k <= LARGEST_BOUND && within(a, j) && within(b, k) implies within(
        a.product(b),
        j * k,
    ) by {
        fixed_product_is_bounded(a, b, j, k);
    }
    assert forall|a: Fixed, b: Fixed, k: int|
        #![trigger a.quotient(b), within(a, k)]
        0 <= k <= LARGEST_BOUND && within(a, k) && !b.is_below(Fixed::of_int(1)) implies within(
        a.quotient(b),
        k,
    ) by {
        let (x, y, u) = (a.units as int, b.units as int, UNITS as int);
        let m = if x >= 0 { x } else { -x };
        assert(0 <= (m * u) / y <= m) by (nonlinear_arith)
            requires
                m >= 0,
                y >= u,
                u > 0,
        ;
        assert((-m) * u == -(m * u)) by (nonlinear_arith);
    }
}

proof fn fixed_fraction(p: int, q: int, k: int)
    requires
        0 < q <= 1_000_000,
        0 <= k <= 1_000_000,
        -(k * q) <= p <= k * q,
    ensures
        is_bounded(Fixed::of_ratio(p, q), k),
{
    let u = UNITS as int;
    let m = if p >= 0 { p } else { -p };
    assert(0 <= (m * u) / q <= k * u) by (nonlinear_arith)
        requires
            0 <= m <= k * q,
            0 < q,
            u > 0,
    ;
    assert((-m) * u == -(m * u)) by (nonlinear_arith);
    assert(m * u >= 0) by (nonlinear_arith)
        requires
            m >= 0,
            u > 0,
    ;
}

proof fn fixed_literals_add_up()
    ensures
        literals_add_up::<Fixed>(),
{
    let u = UNITS as int;
    assert forall|p: int, q: int|
        0 <= p <= 1_000_000 && 0 < q <= 1_000_000 implies #[trigger] Fixed::of_int(p).quotient(
        Fixed::of_int(q),
    ) == Fixed::of_ratio(p, q) by {
        assert(((p * u) * u) / (q * u) == (p * u) / q) by (nonlinear_arith)
            requires
                0 <= p,
                0 < q,
                u == 100_000_000,
        ;
    }
    assert forall|p: int, q: int, k: int|
        #![trigger is_bounded(Fixed::of_ratio(p, q), k)]
        0 < q <= 1_000_000 && 0 <= k <= 1_000_000 && -(k * q) <= p <= k * q implies is_bounded(
        Fixed::of_ratio(p, q),
        k,
    ) by {
        fixed_fraction(p, q, k);
    }
    assert forall|p: int, q: int|
        0 < p <= 1_000_000 && 0 < q <= 1_000_000 implies Fixed::of_int(0).is_below(
        #[trigger] Fixed::of_ratio(p, q),
    ) by {
        assert((p * u) / q >= 1) by (nonlinear_arith)
            requires
                0 < p,
                0 < q <= 1_000_000,
                u == 100_000_000,
        ;
    }
    assert forall|p: int, q: int| 0 <= 2 * p <= q && 0 < q <= 1_000_000 implies is_between(
        Fixed::of_int(0),
        #[trigger] Fixed::of_ratio(p, q),
        Fixed::of_ratio(1, 2),
    ) by {
        assert(0 <= (p * u) / q <= 50_000_000) by (nonlinear_arith)
            requires
                0 <= 2 * p <= q,
                0 < q,
                u == 100_000_000,
        ;
    }
}

proof fn fixed_steps()
    ensures
        half_steps_stay_between::<Fixed>(),
{
    assert forall|from: Fixed, alpha: Fixed, target: Fixed|
        #![trigger from.sum(alpha.product(target.difference(from)))]
        is_bounded(from, LARGEST_BOUND as int) && is_bounded(target, LARGEST_BOUND as int)
            && alpha.is_number() && is_between(
            Fixed::of_int(0),
            alpha,
            Fixed::of_ratio(1, 2),
        ) implies {
        let to = from.sum(alpha.product(target.difference(from)));
        &&& to.is_number()
        &&& !target.is_below(from) ==> is_between(from, to, target)
        &&& !from.is_below(target) ==> is_between(target, to, from)
    } by {
        let gap = target.difference(from).units as int;
        scaled_step_is_no_longer(alpha.units as int, gap);
    }
}

proof fn fixed_order()
    ensures
        order_is_kept::<Fixed>(),
{
    let u = UNITS as int;
    assert forall|a: Fixed, b: Fixed, c: Fixed|
        #![trigger a.product(b), a.product(c)]
        not_negative(a) && !c.is_below(b) implies !a.product(c).is_below(a.product(b)) by {
        let (x, y, z) = (a.units as int, b.units as int, c.units as int);
        assert(x * y <= x * z) by (nonlinear_arith)
            requires
                x >= 0,
                y <= z,
        ;
        division_keeps_the_order(x * y, x * z, u);
    }
    assert forall|a: Fixed, b: Fixed, c: Fixed|
        #![trigger b.product(a), c.product(a)]
        not_negative(a) && !c.is_below(b) implies !c.product(a).is_below(b.product(a)) by {
        let (x, y, z) = (a.units as int, b.units as int, c.units as int);
        assert(y * x <= z * x) by (nonlinear_arith)
            requires
                x >= 0,
                y <= z,
        ;
        division_keeps_the_order(y * x, z * x, u);
    }
    assert forall|a: Fixed, b: Fixed, c: Fixed|
        #![trigger b.quotient(a), c.quotient(a)]
        Fixed::of_int(0).is_below(a) && !c.is_below(b) implies !c.quotient(a).is_below(
        b.quotient(a),
    ) by {
        division_keeps_the_order(b.units * u, c.units * u, a.units as int);
    }
}

proof fn division_keeps_the_order(x: int, y: int, d: int)
    requires
        x <= y,
        d > 0,
    ensures
        towards_zero(x, d) <= towards_zero(y, d),
{
    if x >= 0 {
        assert(x / d <= y / d) by (nonlinear_arith)
            requires
                x <= y,
                d > 0,
        ;
    } else if y < 0 {
        assert((-y) / d <= (-x) / d) by (nonlinear_arith)
            requires
                x <= y,
                d > 0,
        ;
    } else {
        assert((-x) / d >= 0 && y / d >= 0) by (nonlinear_arith)
            requires
                x < 0,
                y >= 0,
                d > 0,
        ;
    }
}

/// Exact decimals obey the laws of bounded arithmetic.
pub proof fn fixed_has_bounds()
    ensures
        has_bounds::<Fixed>(),
{
    reveal(has_bounds);
    fixed_is_monotone();
    fixed_bounds();
    fixed_literals_add_up();
    fixed_steps();
    fixed_order();
}

} // verus!
