//! The arithmetic that rounds.
//!
//! The library never rounds a number itself. Sums, products, roots and the
//! like are asked of an [`Arithmetic`], which the caller provides: for
//! binary64 numbers, the operations of the machine. What the library
//! computes is stated over the results of these operations, whatever they
//! are. All that is asked of them is that they are steady: that each can be
//! asked for every operand and that the same operands give the same result.

use vstd::prelude::*;
use crate::scalar::Scalar;

verus! {

/// The operations on scalars that round.
pub trait Arithmetic {
    /// `a + b`.
    fn plus(&self, a: Scalar, b: Scalar) -> Scalar;

    /// `a - b`.
    fn minus(&self, a: Scalar, b: Scalar) -> Scalar;

    /// `a * b`.
    fn times(&self, a: Scalar, b: Scalar) -> Scalar;

    /// `a / b`.
    fn over(&self, a: Scalar, b: Scalar) -> Scalar;

    /// The square root of `a`.
    fn root(&self, a: Scalar) -> Scalar;

    /// The sine of the angle `a`, in radians.
    fn sine(&self, a: Scalar) -> Scalar;

    /// The cosine of the angle `a`, in radians.
    fn cosine(&self, a: Scalar) -> Scalar;

    /// The tangent of the angle `a`, in radians.
    fn tangent(&self, a: Scalar) -> Scalar;

    /// `a` raised to the power `b`.
    fn power(&self, a: Scalar, b: Scalar) -> Scalar;

    /// The scalar nearest to the count `n`.
    fn count(&self, n: usize) -> Scalar;

    /// The integer nearest to `a`, halves away from zero; the nearest end
    /// of the range where `a` lies outside it.
    fn nearest(&self, a: Scalar) -> i32;
}

/// What `plus` gives for `a` and `b`.
pub open spec fn sum<A: Arithmetic>(ops: &A, a: Scalar, b: Scalar) -> Scalar {
    choose|r: Scalar| call_ensures(A::plus, (ops, a, b), r)
}

/// What `minus` gives for `a` and `b`.
pub open spec fn difference<A: Arithmetic>(ops: &A, a: Scalar, b: Scalar) -> Scalar {
    choose|r: Scalar| call_ensures(A::minus, (ops, a, b), r)
}

/// What `times` gives for `a` and `b`.
pub open spec fn product<A: Arithmetic>(ops: &A, a: Scalar, b: Scalar) -> Scalar {
    choose|r: Scalar| call_ensures(A::times, (ops, a, b), r)
}

/// What `over` gives for `a` and `b`.
pub open spec fn quotient<A: Arithmetic>(ops: &A, a: Scalar, b: Scalar) -> Scalar {
    choose|r: Scalar| call_ensures(A::over, (ops, a, b), r)
}

/// What `root` gives for `a`.
pub open spec fn square_root<A: Arithmetic>(ops: &A, a: Scalar) -> Scalar {
    choose|r: Scalar| call_ensures(A::root, (ops, a), r)
}

/// What `sine` gives for `a`.
pub open spec fn sine_of<A: Arithmetic>(ops: &A, a: Scalar) -> Scalar {
    choose|r: Scalar| call_ensures(A::sine, (ops, a), r)
}

/// What `cosine` gives for `a`.
pub open spec fn cosine_of<A: Arithmetic>(ops: &A, a: Scalar) -> Scalar {
    choose|r: Scalar| call_ensures(A::cosine, (ops, a), r)
}

/// What `tangent` gives for `a`.
pub open spec fn tangent_of<A: Arithmetic>(ops: &A, a: Scalar) -> Scalar {
    choose|r: Scalar| call_ensures(A::tangent, (ops, a), r)
}

/// What `power` gives for `a` and `b`.
pub open spec fn power_of<A: Arithmetic>(ops: &A, a: Scalar, b: Scalar) -> Scalar {
    choose|r: Scalar| call_ensures(A::power, (ops, a, b), r)
}

/// What `count` gives for `n`.
pub open spec fn count_of<A: Arithmetic>(ops: &A, n: usize) -> Scalar {
    choose|r: Scalar| call_ensures(A::count, (ops, n), r)
}

/// What `nearest` gives for `a`.
pub open spec fn nearest_of<A: Arithmetic>(ops: &A, a: Scalar) -> i32 {
    choose|r: i32| call_ensures(A::nearest, (ops, a), r)
}

/// Each operation can be asked for every operand.
pub open spec fn total<A: Arithmetic>(ops: &A) -> bool {
    &&& forall|a: Scalar, b: Scalar| call_requires(A::plus, (ops, a, b))
    &&& forall|a: Scalar, b: Scalar| call_requires(A::minus, (ops, a, b))
    &&& forall|a: Scalar, b: Scalar| call_requires(A::times, (ops, a, b))
    &&& forall|a: Scalar, b: Scalar| call_requires(A::over, (ops, a, b))
    &&& forall|a: Scalar| call_requires(A::root, (ops, a))
    &&& forall|a: Scalar| call_requires(A::sine, (ops, a))
    &&& forall|a: Scalar| call_requires(A::cosine, (ops, a))
    &&& forall|a: Scalar| call_requires(A::tangent, (ops, a))
    &&& forall|a: Scalar, b: Scalar| call_requires(A::power, (ops, a, b))
    &&& forall|n: usize| call_requires(A::count, (ops, n))
    &&& forall|a: Scalar| call_requires(A::nearest, (ops, a))
}

/// Each operation gives the same result for the same operands.
pub open spec fn repeatable<A: Arithmetic>(ops: &A) -> bool {
    &&& forall|a: Scalar, b: Scalar, r: Scalar, s: Scalar|
        call_ensures(A::plus, (ops, a, b), r) && call_ensures(A::plus, (ops, a, b), s) ==> r == s
    &&& forall|a: Scalar, b: Scalar, r: Scalar, s: Scalar|
        call_ensures(A::minus, (ops, a, b), r) && call_ensures(A::minus, (ops, a, b), s) ==> r
            == s
    &&& forall|a: Scalar, b: Scalar, r: Scalar, s: Scalar|
        call_ensures(A::times, (ops, a, b), r) && call_ensures(A::times, (ops, a, b), s) ==> r
            == s
    &&& forall|a: Scalar, b: Scalar, r: Scalar, s: Scalar|
        call_ensures(A::over, (ops, a, b), r) && call_ensures(A::over, (ops, a, b), s) ==> r == s
    &&& forall|a: Scalar, r: Scalar, s: Scalar|
        call_ensures(A::root, (ops, a), r) && call_ensures(A::root, (ops, a), s) ==> r == s
    &&& forall|a: Scalar, r: Scalar, s: Scalar|
        call_ensures(A::sine, (ops, a), r) && call_ensures(A::sine, (ops, a), s) ==> r == s
    &&& forall|a: Scalar, r: Scalar, s: Scalar|
        call_ensures(A::cosine, (ops, a), r) && call_ensures(A::cosine, (ops, a), s) ==> r == s
    &&& forall|a: Scalar, r: Scalar, s: Scalar|
        call_ensures(A::tangent, (ops, a), r) && call_ensures(A::tangent, (ops, a), s) ==> r == s
    &&& forall|a: Scalar, b: Scalar, r: Scalar, s: Scalar|
        call_ensures(A::power, (ops, a, b), r) && call_ensures(A::power, (ops, a, b), s) ==> r
            == s
    &&& forall|n: usize, r: Scalar, s: Scalar|
        call_ensures(A::count, (ops, n), r) && call_ensures(A::count, (ops, n), s) ==> r == s
    &&& forall|a: Scalar, r: i32, s: i32|
        call_ensures(A::nearest, (ops, a), r) && call_ensures(A::nearest, (ops, a), s) ==> r == s
}

/// The operations are steady: each can be asked for every operand, and the
/// same operands give the same result.
pub open spec fn steady<A: Arithmetic>(ops: &A) -> bool {
    total(ops) && repeatable(ops)
}

/// Two numbers closer than this count as equal: the number 0.00001.
pub const EPSILON_BITS: u64 = 0x3EE4_F8B5_88E3_68F1;

/// Whether `a` and `b` differ by less than 0.00001.
pub open spec fn close<A: Arithmetic>(ops: &A, a: Scalar, b: Scalar) -> bool {
    difference(ops, a, b).magnitude().less(Scalar { bits: EPSILON_BITS })
}

/// Whether `a` and `b` are equal up to rounding: whether they differ by
/// less than 0.00001.
pub fn nearly_equal<A: Arithmetic>(ops: &A, a: Scalar, b: Scalar) -> (r: bool)
    requires
        steady(ops),
    ensures
        r == close(ops, a, b),
{
    ops.minus(a, b).abs().lt(Scalar::from_bits(EPSILON_BITS))
}

} // verus!
