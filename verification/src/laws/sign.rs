//! Signs: which side of zero a result lies on.

use vstd::prelude::*;
use crate::laws::decimal::division_is_near;
use crate::number::{Fixed, Number, UNITS};

verus! {

/// The value is not positive.
pub open spec fn not_positive<N: Number>(a: N) -> bool {
    !N::of_int(0).is_below(a)
}

/// The value is not negative.
pub open spec fn not_below_zero<N: Number>(a: N) -> bool {
    !a.is_below(N::of_int(0))
}

/// The laws of signs that binary floats and exact decimals share: a difference has the
/// sign of the comparison, a product with or a quotient by a positive number has the sign
/// of its first operand, and fractions and integers have their own.
#[verifier::opaque]
pub open spec fn keeps_signs<N: Number>() -> bool {
    let zero = N::of_int(0);
    &&& forall|a: N, b: N| #[trigger] a.is_below(b) ==> !b.is_below(a)
    &&& forall|a: N, b: N|
        {
            &&& !b.is_below(a) ==> not_positive(#[trigger] a.difference(b))
            &&& !a.is_below(b) ==> not_below_zero(a.difference(b))
        }
    &&& forall|a: N, b: N|
        not_below_zero(b) ==> {
            &&& not_positive(a) ==> not_positive(#[trigger] a.product(b))
            &&& not_below_zero(a) ==> not_below_zero(a.product(b))
        }
    &&& forall|a: N, b: N|
        zero.is_below(b) ==> {
            &&& not_positive(a) ==> not_positive(#[trigger] a.quotient(b))
            &&& not_below_zero(a) ==> not_below_zero(a.quotient(b))
        }
    &&& forall|a: N, b: N|
        {
            &&& not_positive(a) && not_positive(b) ==> not_positive(#[trigger] a.sum(b))
            &&& not_below_zero(a) && not_below_zero(b) ==> not_below_zero(a.sum(b))
        }
    &&& forall|i: int| 0 < i ==> zero.is_below(#[trigger] N::of_int(i))
    &&& forall|p: int, q: int|
        0 < q <= 1_000_000 && -1_000_000 <= p <= 1_000_000 ==> {
            &&& p > 0 ==> zero.is_below(#[trigger] N::of_ratio(p, q))
            &&& p < 0 ==> N::of_ratio(p, q).is_below(zero)
        }
    &&& forall|a: N, b: N, c: N|
        #![trigger a.is_below(b), b.is_below(c)]
        a.is_below(b) && b.is_below(c) ==> a.is_below(c)
    &&& forall|a: N, b: N|
        {
            &&& not_positive(a) && not_positive(b) ==> not_positive(#[trigger] a.larger(b))
            &&& not_below_zero(a) && not_below_zero(b) ==> not_below_zero(a.larger(b))
        }
    &&& not_positive(zero)
    &&& not_below_zero(zero)
}

/// Exact decimals obey the laws of signs.
pub proof fn fixed_keeps_signs()
    ensures
        keeps_signs::<Fixed>(),
{
    reveal(keeps_signs);
    let u = UNITS as int;
    assert(u == 100_000_000);
    let zero = Fixed::of_int(0);
    assert forall|a: Fixed, b: Fixed| not_below_zero(b) implies {
        &&& not_positive(a) ==> not_positive(#[trigger] a.product(b))
        &&& not_below_zero(a) ==> not_below_zero(a.product(b))
    } by {
        let (x, y) = (a.units as int, b.units as int);
        division_is_near(x * y, u);
        assert((x <= 0 ==> x * y <= 0) && (x >= 0 ==> x * y >= 0)) by (nonlinear_arith)
            requires
                y >= 0,
        ;
    }
    assert forall|a: Fixed, b: Fixed| zero.is_below(b) implies {
        &&& not_positive(a) ==> not_positive(#[trigger] a.quotient(b))
        &&& not_below_zero(a) ==> not_below_zero(a.quotient(b))
    } by {
        division_is_near(a.units * UNITS, b.units as int);
    }
    assert forall|i: int| 0 < i implies zero.is_below(#[trigger] Fixed::of_int(i)) by {}
    assert forall|p: int, q: int|
        0 < q <= 1_000_000 && -1_000_000 <= p <= 1_000_000 implies {
        &&& p > 0 ==> zero.is_below(#[trigger] Fixed::of_ratio(p, q))
        &&& p < 0 ==> Fixed::of_ratio(p, q).is_below(zero)
    } by {
        let m = if p >= 0 { p } else { -p };
        if p != 0 {
            assert((m * u) / q >= 1 && m * u > 0) by (nonlinear_arith)
                requires
                    m >= 1,
                    0 < q <= 1_000_000,
                    u == 100_000_000,
            ;
        }
        assert(p * u == if p >= 0 { m * u } else { -(m * u) });
    }
}

} // verus!
