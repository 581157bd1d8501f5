//! What the engine asks of a price or a quantity.
//!
//! Every stage is written once, for any type that can be added, multiplied and
//! compared. A deployment runs the stages on binary floats; [`Fixed`] is the exact
//! decimal that replays and audits use.

use vstd::prelude::*;

verus! {

/// A number type: each operation is a function of its operands.
///
/// The specification functions name the results of the operations, and `is_number`
/// singles out the values that take part in the order; a float's NaN does not.
///
/// What is proved here holds of a type whose operations return what the names say. A
/// type inside the verified code defines the names, as [`Fixed`] does, and is held to
/// them. A type outside it has no way to define them: the definitions that stand in the
/// trait are there for it to compile, no float meets them, and nothing is proved with
/// them. Such a type owes, unchecked, that there is a meaning of the names that its
/// operations do meet: the same operands give the same result, each time and in every
/// operation that goes by the name.
pub trait Number: Copy {
    /// Is the value one that the order places?
    open spec fn is_number(self) -> bool {
        arbitrary()
    }

    open spec fn of_int(n: int) -> Self {
        arbitrary()
    }

    open spec fn of_ratio(num: int, den: int) -> Self {
        arbitrary()
    }

    open spec fn sum(self, other: Self) -> Self {
        arbitrary()
    }

    open spec fn difference(self, other: Self) -> Self {
        arbitrary()
    }

    open spec fn product(self, other: Self) -> Self {
        arbitrary()
    }

    open spec fn quotient(self, other: Self) -> Self {
        arbitrary()
    }

    open spec fn magnitude(self) -> Self {
        arbitrary()
    }

    open spec fn sign(self) -> Self {
        arbitrary()
    }

    open spec fn larger(self, other: Self) -> Self {
        arbitrary()
    }

    open spec fn smaller(self, other: Self) -> Self {
        arbitrary()
    }

    open spec fn is_below(self, other: Self) -> bool {
        arbitrary()
    }

    open spec fn is_at_most(self, other: Self) -> bool {
        arbitrary()
    }

    open spec fn is_same(self, other: Self) -> bool {
        arbitrary()
    }

    open spec fn bottom() -> Self {
        arbitrary()
    }

    open spec fn top() -> Self {
        arbitrary()
    }

    open spec fn rounded(self) -> i64 {
        arbitrary()
    }

    open spec fn truncated(self) -> i64 {
        arbitrary()
    }

    /// The number nearest to an integer.
    fn from_int(n: i128) -> (r: Self)
        ensures
            r == Self::of_int(n as int),
    ;

    /// The number nearest to a fraction.
    fn ratio(num: i64, den: i64) -> (r: Self)
        requires
            den > 0,
        ensures
            r == Self::of_ratio(num as int, den as int),
    ;

    fn add(self, other: Self) -> (r: Self)
        ensures
            r == self.sum(other),
    ;

    fn sub(self, other: Self) -> (r: Self)
        ensures
            r == self.difference(other),
    ;

    fn mul(self, other: Self) -> (r: Self)
        ensures
            r == self.product(other),
    ;

    fn div(self, other: Self) -> (r: Self)
        ensures
            r == self.quotient(other),
    ;

    /// Absolute value.
    fn abs(self) -> (r: Self)
        ensures
            r == self.magnitude(),
    ;

    /// One with the sign of `self`; zero counts as positive.
    fn signum(self) -> (r: Self)
        ensures
            r == self.sign(),
    ;

    fn max(self, other: Self) -> (r: Self)
        ensures
            r == self.larger(other),
    ;

    fn min(self, other: Self) -> (r: Self)
        ensures
            r == self.smaller(other),
    ;

    /// The lower end of the type's range.
    fn lowest() -> (r: Self)
        ensures
            r == Self::bottom(),
    ;

    /// The upper end of the type's range.
    fn highest() -> (r: Self)
        ensures
            r == Self::top(),
    ;

    /// `self < other`.
    fn below(self, other: Self) -> (r: bool)
        ensures
            r == self.is_below(other),
    ;

    /// `self <= other`.
    fn at_most(self, other: Self) -> (r: bool)
        ensures
            r == self.is_at_most(other),
    ;

    /// `self == other`.
    fn same(self, other: Self) -> (r: bool)
        ensures
            r == self.is_same(other),
    ;

    /// The nearest `i64`, halves away from zero, saturating.
    fn round(self) -> (r: i64)
        ensures
            r == self.rounded(),
    ;

    /// The integer part as an `i64`, saturating.
    fn trunc(self) -> (r: i64)
        ensures
            r == self.truncated(),
    ;
}

/// The laws of order that binary floats and exact decimals share: on numbers, and on
/// nothing else, `<` is a strict order in which unordered values are interchangeable;
/// the other two comparisons follow from it, the larger and the smaller of two numbers
/// are those by it, no absolute value is negative, and zero is below one.
pub open spec fn is_ordered<N: Number>() -> bool {
    &&& forall|a: N, b: N| #[trigger] a.is_below(b) ==> a.is_number() && b.is_number()
    &&& forall|a: N| !(#[trigger] a.is_below(a))
    &&& forall|a: N, b: N, c: N|
        #![trigger a.is_below(b), b.is_below(c)]
        a.is_below(b) && b.is_below(c) ==> a.is_below(c)
    &&& forall|a: N, b: N, c: N|
        #![trigger a.is_below(c), b.is_number()]
        a.is_below(c) && b.is_number() ==> a.is_below(b) || b.is_below(c)
    &&& forall|a: N, b: N| #[trigger]
        a.is_at_most(b) && a.is_number() && b.is_number() ==> !b.is_below(a)
    &&& forall|a: N, b: N|
        a.is_number() && b.is_number() && !(#[trigger] a.is_at_most(b)) ==> b.is_below(a)
    &&& forall|a: N, b: N|
        a.is_number() && b.is_number() ==> (#[trigger] a.is_same(b) <==> !a.is_below(b)
            && !b.is_below(a))
    &&& forall|a: N, b: N|
        a.is_number() && b.is_number() ==> {
            &&& (#[trigger] a.larger(b) == a || a.larger(b) == b)
            &&& !a.larger(b).is_below(a)
            &&& !a.larger(b).is_below(b)
        }
    &&& forall|a: N, b: N|
        a.is_number() && b.is_number() ==> {
            &&& (#[trigger] a.smaller(b) == a || a.smaller(b) == b)
            &&& !a.is_below(a.smaller(b))
            &&& !b.is_below(a.smaller(b))
        }
    &&& forall|a: N|
        a.is_number() ==> (#[trigger] a.magnitude()).is_number() && !a.magnitude().is_below(
            N::of_int(0),
        )
    &&& N::bottom().is_number()
    &&& N::top().is_number()
    &&& N::of_int(0).is_number()
    &&& N::of_int(1).is_number()
    &&& N::of_int(0).is_below(N::of_int(1))
}

/// The value is not negative.
pub open spec fn not_negative<N: Number>(a: N) -> bool {
    !a.is_below(N::of_int(0))
}

/// The value does not leave the interval. What is not a number does not.
pub open spec fn is_between<N: Number>(lo: N, x: N, hi: N) -> bool {
    !x.is_below(lo) && !hi.is_below(x)
}

/// The laws of sums and differences that binary floats and exact decimals share: adding
/// what is not negative does not lower a value, subtracting it does not raise one, zero
/// changes nothing, and the order of two summands does not matter.
pub open spec fn sums_are_monotone<N: Number>() -> bool {
    let zero = N::of_int(0);
    &&& forall|a: N, b: N|
        not_negative(a) && not_negative(b) ==> {
            &&& not_negative(#[trigger] a.sum(b))
            &&& !a.sum(b).is_below(a)
            &&& !a.sum(b).is_below(b)
            &&& a.is_number() && b.is_number() ==> a.sum(b).is_number() && a.sum(b) == b.sum(a)
        }
    &&& forall|a: N| a.is_number() ==> (#[trigger] a.sum(zero)).is_same(a)
    &&& forall|a: N, b: N| !a.is_below(b) ==> not_negative(#[trigger] a.difference(b))
    &&& forall|a: N, b: N| not_negative(b) ==> !a.is_below(#[trigger] a.difference(b))
    &&& forall|a: N, b: N|
        not_negative(a) && not_negative(b) ==> is_between(
            zero.difference(a.sum(b)),
            #[trigger] a.difference(b),
            a.sum(b),
        )
    &&& forall|a: N, b: N| !(#[trigger] a.larger(b)).is_below(b)
}

/// The laws of products and quotients that binary floats and exact decimals share:
/// what is not negative stays so, dividing by at least one does not raise it, a part
/// of a total is at most one, and swapping two parts changes the sign of their
/// difference over their sum.
pub open spec fn ratios_are_monotone<N: Number>() -> bool {
    let zero = N::of_int(0);
    let one = N::of_int(1);
    &&& forall|a: N, b: N|
        not_negative(a) && not_negative(b) ==> not_negative(#[trigger] a.product(b))
    &&& forall|a: N, b: N|
        not_negative(a) && not_negative(b) && !b.is_same(zero) ==> not_negative(
            #[trigger] a.quotient(b),
        )
    &&& forall|a: N, b: N|
        not_negative(a) && !b.is_below(one) ==> is_between(zero, #[trigger] a.quotient(b), a)
    &&& forall|x: N, t: N|
        not_negative(t) && !t.is_same(zero) && is_between(zero.difference(t), x, t) ==> is_between(
            N::of_int(-1),
            #[trigger] x.quotient(t),
            one,
        )
    &&& forall|a: N, b: N|
        not_negative(a) && not_negative(b) && !a.sum(b).is_same(zero) && (
        #[trigger] a.difference(b)).quotient(a.sum(b)).is_number() ==> b.difference(a).quotient(
            a.sum(b),
        ).is_same(zero.difference(a.difference(b).quotient(a.sum(b))))
}

/// Integers and fractions are placed as their values are, up to a million strictly so.
pub open spec fn literals_are_ordered<N: Number>() -> bool {
    &&& forall|i: int| (#[trigger] N::of_int(i)).is_number()
    &&& forall|i: int, j: int|
        i <= j ==> !(#[trigger] N::of_int(j)).is_below(#[trigger] N::of_int(i))
    &&& forall|i: int, j: int|
        -1_000_000 <= i < j <= 1_000_000 ==> (#[trigger] N::of_int(i)).is_below(
            #[trigger] N::of_int(j),
        )
    &&& forall|p: int, q: int|
        0 <= p <= q && 0 < q ==> is_between(N::of_int(0), #[trigger] N::of_ratio(p, q), N::of_int(1))
}

/// The laws of arithmetic that binary floats and exact decimals share. Both round, and
/// neither rounds past a value that it can represent.
#[verifier::opaque]
pub open spec fn is_monotone<N: Number>() -> bool {
    &&& is_ordered::<N>()
    &&& sums_are_monotone::<N>()
    &&& ratios_are_monotone::<N>()
    &&& literals_are_ordered::<N>()
}

pub(crate) proof fn zero_is_not_negative<N: Number>()
    requires
        is_monotone::<N>(),
    ensures
        not_negative(N::of_int(0)),
{
    reveal(is_monotone);
}

/// Lies near a whole number that is at most `range` away from zero.
pub open spec fn rounds_within<N: Number>(x: N, range: int) -> bool {
    x.is_number() && -range <= x.rounded() <= range
}

/// The laws of rounding to whole numbers, up to `range` away from zero, that binary
/// floats and exact decimals share; a type with more places has a larger range. Going
/// from a value some part of the way to a whole number leads away from neither: the
/// result does not lie behind the start, and it passes the whole number by less than one
/// half, if at all.
pub open spec fn settles<N: Number>(range: int) -> bool {
    let zero = N::of_int(0);
    &&& forall|a: N, b: N|
        a.is_number() && b.is_number() && !b.is_below(a) ==> #[trigger] a.rounded()
            <= #[trigger] b.rounded()
    &&& forall|a: N|
        (0 <= #[trigger] a.truncated() <= a.rounded()) || (a.rounded() <= a.truncated() <= 0)
    &&& forall|s: int|
        -range <= s <= range ==> (#[trigger] N::of_int(s)).is_number() && N::of_int(s).rounded() == s
    &&& forall|from: N, alpha: N, s: int|
        #![trigger from.sum(alpha.product(N::of_int(s).difference(from)))]
        {
            let target = N::of_int(s);
            let step = alpha.product(target.difference(from));
            let to = from.sum(step);
            rounds_within(from, range) && -range <= s <= range && is_between(
                zero,
                alpha,
                N::of_int(1),
            ) && alpha.is_number() ==> {
                &&& to.is_number()
                &&& !target.is_below(from) ==> !to.is_below(from) && to.rounded() <= s
                &&& !from.is_below(target) ==> !from.is_below(to) && s <= to.rounded()
            }
        }
}

/// The functions of analysis that volatility, returns and confidences need.
///
/// Nothing is assumed of their values: a contract that goes through one of them
/// says which argument it was called on and that the result is one it returned.
pub trait Analytic: Number {
    /// Natural logarithm.
    fn ln(self) -> (r: Self);

    /// `e` to the power of `self`.
    fn exp(self) -> (r: Self);

    /// Hyperbolic tangent.
    fn tanh(self) -> (r: Self);

    /// Square root.
    fn sqrt(self) -> (r: Self);
}

/// `y` is a value that `ln` returns on `x`.
pub open spec fn is_ln<N: Analytic>(x: N, y: N) -> bool {
    call_ensures(N::ln, (x,), y)
}

/// `y` is a value that `exp` returns on `x`.
pub open spec fn is_exp<N: Analytic>(x: N, y: N) -> bool {
    call_ensures(N::exp, (x,), y)
}

/// `y` is a value that `tanh` returns on `x`.
pub open spec fn is_tanh<N: Analytic>(x: N, y: N) -> bool {
    call_ensures(N::tanh, (x,), y)
}

/// `y` is a value that `sqrt` returns on `x`.
pub open spec fn is_sqrt<N: Analytic>(x: N, y: N) -> bool {
    call_ensures(N::sqrt, (x,), y)
}

/// `x` held between `lo` and `hi`.
pub open spec fn clamped<N: Number>(x: N, lo: N, hi: N) -> N {
    if x.is_below(lo) {
        lo
    } else if hi.is_below(x) {
        hi
    } else {
        x
    }
}

/// Holds `x` between `lo` and `hi`.
pub fn clamp<N: Number>(x: N, lo: N, hi: N) -> (r: N)
    ensures
        r == clamped(x, lo, hi),
{
    if x.below(lo) {
        lo
    } else if hi.below(x) {
        hi
    } else {
        x
    }
}

/// A clamped value leaves neither end of its interval.
pub proof fn clamped_in_interval<N: Number>(x: N, lo: N, hi: N)
    requires
        is_ordered::<N>(),
        !hi.is_below(lo),
    ensures
        !clamped(x, lo, hi).is_below(lo),
        !hi.is_below(clamped(x, lo, hi)),
{
}

/// The greatest of some numbers; the lower end of the range for none.
pub open spec fn greatest<N: Number>(xs: Seq<N>) -> N
    decreases xs.len(),
{
    if xs.len() == 0 {
        N::bottom()
    } else {
        greatest(xs.drop_last()).larger(xs.last())
    }
}

/// The least of some numbers; the upper end of the range for none.
pub open spec fn least<N: Number>(xs: Seq<N>) -> N
    decreases xs.len(),
{
    if xs.len() == 0 {
        N::top()
    } else {
        least(xs.drop_last()).smaller(xs.last())
    }
}

// ---------------------------------------------------------------------------
// Exact decimals
// ---------------------------------------------------------------------------
/// Units of a [`Fixed`] in one.
pub const UNITS: i128 = 100_000_000;

/// A decimal with eight places, held as a whole number of hundred-millionths.
///
/// Results that leave the range stick to its nearer end; a quotient by zero is
/// zero; products and quotients drop what lies below the last place.
#[derive(Debug, Clone, Copy, PartialEq, Eq, Structural)]
pub struct Fixed {
    pub units: i64,
}

/// Division that drops the fraction, as machine integers divide.
pub open spec fn towards_zero(x: int, d: int) -> int {
    if d == 0 {
        0
    } else if x >= 0 && d > 0 {
        x / d
    } else if x < 0 && d > 0 {
        -((-x) / d)
    } else if x >= 0 {
        -(x / (-d))
    } else {
        (-x) / (-d)
    }
}

/// The end of the `i64` range that `x` has passed, or `x`.
pub open spec fn saturated(x: int) -> i64 {
    if x > i64::MAX {
        i64::MAX
    } else if x < i64::MIN {
        i64::MIN
    } else {
        x as i64
    }
}

fn saturate(x: i128) -> (r: i64)
    ensures
        r == saturated(x as int),
{
    if x > 9_223_372_036_854_775_807 {
        i64::MAX
    } else if x < -9_223_372_036_854_775_808 {
        i64::MIN
    } else {
        x as i64
    }
}

fn divide(x: i128, d: i128) -> (r: i128)
    requires
        x > i128::MIN,
    ensures
        r == towards_zero(x as int, d as int),
{
    proof {
        if d > 0 && x > 0 {
            assert(0 <= x as int / d as int <= x) by (nonlinear_arith)
                requires
                    d > 0,
                    x > 0,
            ;
        }
        if d > 0 && x < 0 {
            assert(0 <= (-x) / d as int <= -x) by (nonlinear_arith)
                requires
                    d > 0,
                    x < 0,
            ;
        }
        if d < 0 && x > 0 {
            assert(0 <= x as int / (-d) <= x) by (nonlinear_arith)
                requires
                    d < 0,
                    x > 0,
            ;
        }
        if d < 0 && x < 0 {
            assert(0 <= (-x) / (-d) <= -x) by (nonlinear_arith)
                requires
                    d < 0,
                    x < 0,
            ;
        }
    }
    match x.checked_div(d) {
        Some(q) => q,
        None => 0,
    }
}

impl Number for Fixed {
    open spec fn is_number(self) -> bool {
        true
    }

    open spec fn of_int(n: int) -> Self {
        Fixed { units: saturated(n * UNITS) }
    }

    open spec fn of_ratio(num: int, den: int) -> Self {
        Fixed { units: saturated(towards_zero(num * UNITS, den)) }
    }

    open spec fn sum(self, other: Self) -> Self {
        Fixed { units: saturated(self.units + other.units) }
    }

    open spec fn difference(self, other: Self) -> Self {
        Fixed { units: saturated(self.units - other.units) }
    }

    open spec fn product(self, other: Self) -> Self {
        Fixed { units: saturated(towards_zero(self.units * other.units, UNITS as int)) }
    }

    open spec fn quotient(self, other: Self) -> Self {
        Fixed { units: saturated(towards_zero(self.units * UNITS, other.units as int)) }
    }

    open spec fn magnitude(self) -> Self {
        Fixed { units: saturated(if self.units < 0 { -self.units } else { self.units as int }) }
    }

    open spec fn sign(self) -> Self {
        Fixed { units: if self.units < 0 { (-UNITS) as i64 } else { UNITS as i64 } }
    }

    open spec fn larger(self, other: Self) -> Self {
        if self.units < other.units { other } else { self }
    }

    open spec fn smaller(self, other: Self) -> Self {
        if other.units < self.units { other } else { self }
    }

    open spec fn bottom() -> Self {
        Fixed { units: i64::MIN }
    }

    open spec fn top() -> Self {
        Fixed { units: i64::MAX }
    }

    open spec fn is_below(self, other: Self) -> bool {
        self.units < other.units
    }

    open spec fn is_at_most(self, other: Self) -> bool {
        self.units <= other.units
    }

    open spec fn is_same(self, other: Self) -> bool {
        self.units == other.units
    }

    open spec fn rounded(self) -> i64 {
        let half = UNITS / 2;
        saturated(
            towards_zero(if self.units < 0 { self.units - half } else { self.units + half }, UNITS as int),
        )
    }

    open spec fn truncated(self) -> i64 {
        saturated(towards_zero(self.units as int, UNITS as int))
    }

    fn from_int(n: i128) -> (r: Self) {
        let top: i128 = 9_223_372_036_854_775_807;
        let m: i128 = if n > top { top } else if n < -top { -top } else { n };
        proof {
            assert(n > top ==> n * UNITS > i64::MAX && m * UNITS > i64::MAX);
            assert(n < -top ==> n * UNITS < i64::MIN && m * UNITS < i64::MIN);
        }
        Fixed { units: saturate(m * UNITS) }
    }

    fn ratio(num: i64, den: i64) -> (r: Self) {
        Fixed { units: saturate(divide(num as i128 * UNITS, den as i128)) }
    }

    fn add(self, other: Self) -> (r: Self) {
        Fixed { units: saturate(self.units as i128 + other.units as i128) }
    }

    fn sub(self, other: Self) -> (r: Self) {
        Fixed { units: saturate(self.units as i128 - other.units as i128) }
    }

    fn mul(self, other: Self) -> (r: Self) {
        proof {
            let (a, b) = (self.units as int, other.units as int);
            assert(-0x4000_0000_0000_0000_0000_0000_0000_0000 <= a * b
                <= 0x4000_0000_0000_0000_0000_0000_0000_0000) by (nonlinear_arith)
                requires
                    -0x8000_0000_0000_0000 <= a <= 0x8000_0000_0000_0000,
                    -0x8000_0000_0000_0000 <= b <= 0x8000_0000_0000_0000,
            ;
        }
        Fixed { units: saturate(divide(self.units as i128 * other.units as i128, UNITS)) }
    }

    fn div(self, other: Self) -> (r: Self) {
        Fixed { units: saturate(divide(self.units as i128 * UNITS, other.units as i128)) }
    }

    fn abs(self) -> (r: Self) {
        let wide: i128 = self.units as i128;
        Fixed { units: saturate(if wide < 0 { -wide } else { wide }) }
    }

    fn signum(self) -> (r: Self) {
        Fixed { units: if self.units < 0 { -100_000_000 } else { 100_000_000 } }
    }

    fn max(self, other: Self) -> (r: Self) {
        if self.units < other.units { other } else { self }
    }

    fn min(self, other: Self) -> (r: Self) {
        if other.units < self.units { other } else { self }
    }

    fn lowest() -> (r: Self) {
        Fixed { units: i64::MIN }
    }

    fn highest() -> (r: Self) {
        Fixed { units: i64::MAX }
    }

    fn below(self, other: Self) -> (r: bool) {
        self.units < other.units
    }

    fn at_most(self, other: Self) -> (r: bool) {
        self.units <= other.units
    }

    fn same(self, other: Self) -> (r: bool) {
        self.units == other.units
    }

    fn round(self) -> (r: i64) {
        let half: i128 = UNITS / 2;
        let wide: i128 = self.units as i128;
        saturate(divide(if wide < 0 { wide - half } else { wide + half }, UNITS))
    }

    fn trunc(self) -> (r: i64) {
        saturate(divide(self.units as i128, UNITS))
    }
}

/// Exact decimals obey the laws of order.
pub proof fn fixed_is_ordered()
    ensures
        is_ordered::<Fixed>(),
{
}

proof fn fixed_sums()
    ensures
        sums_are_monotone::<Fixed>(),
{
}

proof fn fixed_quotient_is_small(x: Fixed, t: Fixed)
    requires
        t.units > 0,
        -t.units <= x.units <= t.units,
    ensures
        -UNITS <= x.quotient(t).units <= UNITS,
        x.quotient(t).units == towards_zero(x.units * UNITS, t.units as int),
{
    let (a, total) = (x.units as int, t.units as int);
    if a >= 0 {
        part_is_a_fraction(a, 0, total);
    } else {
        part_is_a_fraction(0, -a, total);
    }
}

proof fn fixed_ratios()
    ensures
        ratios_are_monotone::<Fixed>(),
{
    let u = UNITS as int;
    let zero = Fixed::of_int(0);
    let one = Fixed::of_int(1);
    assert forall|a: Fixed, b: Fixed| not_negative(a) && not_negative(b) implies not_negative(
        #[trigger] a.product(b),
    ) by {
        let (x, y) = (a.units as int, b.units as int);
        assert(x * y >= 0) by (nonlinear_arith)
            requires
                x >= 0,
                y >= 0,
        ;
    }
    assert forall|a: Fixed, b: Fixed|
        not_negative(a) && not_negative(b) && !b.is_same(zero) implies not_negative(
        #[trigger] a.quotient(b),
    ) by {
        let (x, y) = (a.units as int, b.units as int);
        assert((x * u) / y >= 0) by (nonlinear_arith)
            requires
                x >= 0,
                y > 0,
                u > 0,
        ;
    }
    assert forall|a: Fixed, b: Fixed| not_negative(a) && !b.is_below(one) implies is_between(
        zero,
        #[trigger] a.quotient(b),
        a,
    ) by {
        let (x, y) = (a.units as int, b.units as int);
        assert(0 <= (x * u) / y <= x) by (nonlinear_arith)
            requires
                x >= 0,
                y >= u,
                u > 0,
        ;
    }
    assert forall|x: Fixed, t: Fixed|
        not_negative(t) && !t.is_same(zero) && is_between(zero.difference(t), x, t) implies is_between(
        Fixed::of_int(-1),
        #[trigger] x.quotient(t),
        one,
    ) by {
        fixed_quotient_is_small(x, t);
    }
    assert forall|a: Fixed, b: Fixed|
        not_negative(a) && not_negative(b) && !a.sum(b).is_same(zero) && (
        #[trigger] a.difference(b)).quotient(a.sum(b)).is_number() implies b.difference(a).quotient(
        a.sum(b),
    ).is_same(zero.difference(a.difference(b).quotient(a.sum(b)))) by {
        let total = a.sum(b);
        let (d, e) = (a.difference(b), b.difference(a));
        assert(e.units == -d.units);
        fixed_quotient_is_small(d, total);
        fixed_quotient_is_small(e, total);
        let du = d.units as int;
        assert((-du) * u == -(du * u)) by (nonlinear_arith);
        assert(e.units * UNITS == -(d.units * UNITS));
    }
}

proof fn fixed_literals()
    ensures
        literals_are_ordered::<Fixed>(),
{
    let u = UNITS as int;
    assert forall|p: int, q: int| 0 <= p <= q && 0 < q implies is_between(
        Fixed::of_int(0),
        #[trigger] Fixed::of_ratio(p, q),
        Fixed::of_int(1),
    ) by {
        assert(0 <= (p * u) / q <= u) by (nonlinear_arith)
            requires
                0 <= p <= q,
                0 < q,
                u > 0,
        ;
    }
}

/// Exact decimals obey the laws of arithmetic.
pub proof fn fixed_is_monotone()
    ensures
        is_monotone::<Fixed>(),
{
    reveal(is_monotone);
    fixed_is_ordered();
    fixed_sums();
    fixed_ratios();
    fixed_literals();
}

proof fn fixed_rounds_in_order(a: int, b: int)
    requires
        a <= b,
    ensures
        ({
            let (u, half) = (UNITS as int, UNITS / 2);
            towards_zero(if a < 0 { a - half } else { a + half }, u) <= towards_zero(
                if b < 0 { b - half } else { b + half },
                u,
            )
        }),
{
}

/// The largest whole number that is a [`Fixed`].
pub const LARGEST_WHOLE: i64 = 92_233_720_368;

/// Exact decimals obey the laws of rounding to whole numbers, as far as they have any.
pub proof fn fixed_settles(range: int)
    requires
        range <= LARGEST_WHOLE,
    ensures
        settles::<Fixed>(range),
{
    let u = UNITS as int;
    assert forall|a: Fixed, b: Fixed|
        a.is_number() && b.is_number() && !b.is_below(a) implies #[trigger] a.rounded()
        <= #[trigger] b.rounded() by {
        fixed_rounds_in_order(a.units as int, b.units as int);
    }
    assert forall|from: Fixed, alpha: Fixed, s: int|
        #![trigger from.sum(alpha.product(Fixed::of_int(s).difference(from)))]
        rounds_within(from, range) && -range <= s <= range && is_between(
            Fixed::of_int(0),
            alpha,
            Fixed::of_int(1),
        ) && alpha.is_number() implies {
        let target = Fixed::of_int(s);
        let to = from.sum(alpha.product(target.difference(from)));
        &&& to.is_number()
        &&& !target.is_below(from) ==> !to.is_below(from) && to.rounded() <= s
        &&& !from.is_below(target) ==> !from.is_below(to) && s <= to.rounded()
    } by {
        let target = Fixed::of_int(s);
        assert(target.units == s * UNITS);
        let gap = target.difference(from).units as int;
        scaled_step_is_no_longer(alpha.units as int, gap);
        let step = alpha.product(target.difference(from));
        assert(step.units == towards_zero(alpha.units * gap, u));
        let to = from.sum(step);
        assert(target.rounded() == s);
        if gap >= 0 {
            fixed_rounds_in_order(to.units as int, target.units as int);
        }
        if gap <= 0 {
            fixed_rounds_in_order(target.units as int, to.units as int);
        }
    }
}

/// A part of a total is a fraction between 0 and 1, and the difference of two parts
/// one between -1 and 1.
pub proof fn part_is_a_fraction(a: int, b: int, total: int)
    requires
        0 <= a <= total,
        0 <= b <= total,
        0 < total,
    ensures
        0 <= towards_zero(a * UNITS, total) <= UNITS,
        -UNITS <= towards_zero((a - b) * UNITS, total) <= UNITS,
{
    let u = UNITS as int;
    assert(0 <= (a * u) / total <= u) by (nonlinear_arith)
        requires
            0 <= a <= total,
            0 < total,
            u > 0,
    ;
    if a >= b {
        let d = a - b;
        assert(0 <= d * u && (d * u) / total <= u && (d * u) / total >= 0) by (nonlinear_arith)
            requires
                0 <= d <= total,
                0 < total,
                u > 0,
        ;
    } else {
        let d = b - a;
        assert((a - b) * u == -(d * u)) by (nonlinear_arith)
            requires
                d == b - a,
        ;
        assert(0 < d * u && (d * u) / total <= u && (d * u) / total >= 0) by (nonlinear_arith)
            requires
                0 < d <= total,
                0 < total,
                u > 0,
        ;
    }
}

/// A fraction of a step goes the same way and no further.
pub proof fn scaled_step_is_no_longer(alpha: int, gap: int)
    requires
        0 <= alpha <= UNITS,
    ensures
        gap >= 0 ==> 0 <= towards_zero(alpha * gap, UNITS as int) <= gap,
        gap <= 0 ==> gap <= towards_zero(alpha * gap, UNITS as int) <= 0,
{
    let u = UNITS as int;
    if gap >= 0 {
        assert(0 <= alpha * gap <= u * gap) by (nonlinear_arith)
            requires
                0 <= alpha <= u,
                gap >= 0,
        ;
        assert(0 <= (alpha * gap) / u <= gap) by (nonlinear_arith)
            requires
                0 <= alpha * gap <= u * gap,
                u > 0,
        ;
    } else {
        assert(u * gap <= alpha * gap <= 0) by (nonlinear_arith)
            requires
                0 <= alpha <= u,
                gap < 0,
        ;
        assert(0 <= (-(alpha * gap)) / u <= -gap) by (nonlinear_arith)
            requires
                u * gap <= alpha * gap <= 0,
                u > 0,
        ;
    }
}

} // verus!
