//! Comparisons of elements, and the rectified linear unit.
use vstd::prelude::*;
use vstd::std_specs::cmp::PartialOrdSpec;
use crate::arith::Scalar;

verus! {

/// `<` and `>` of `T` compute its partial-order specification.
pub open spec fn ordered<T: Scalar>() -> bool {
    T::obeys_partial_cmp_spec()
}

/// `a > b` by the partial-order specification of `T`.
pub open spec fn greater<T: Scalar>(a: T, b: T) -> bool {
    a.partial_cmp_spec(&b) == Some(core::cmp::Ordering::Greater)
}

/// `a < b` by the partial-order specification of `T`.
pub open spec fn less<T: Scalar>(a: T, b: T) -> bool {
    a.partial_cmp_spec(&b) == Some(core::cmp::Ordering::Less)
}

/// The rectified linear unit: `zero` where `x < zero`, else `x`.
pub open spec fn relu_spec<T: Scalar>(x: T, zero: T) -> T {
    if less(x, zero) {
        zero
    } else {
        x
    }
}

/// The rectified linear unit: `zero` where `x < zero`, else `x` itself.
pub fn relu<T: Scalar>(x: T, zero: T) -> (r: T)
    ensures
        r == x || r == zero,
        ordered::<T>() ==> r == relu_spec(x, zero),
{
    if x < zero {
        zero
    } else {
        x
    }
}

/// One step of max pooling: the candidate `v` replaces the running value
/// `acc` only where `v > acc`.
pub open spec fn keep_greater<T: Scalar>(acc: T, v: T) -> T {
    if greater(v, acc) {
        v
    } else {
        acc
    }
}

/// `>` of `T`, as specified, is irreflexive and transitive (a strict partial
/// order, as `>` of floating-point numbers is).
pub open spec fn strict_greater<T: Scalar>() -> bool {
    &&& forall|a: T| !#[trigger] greater(a, a)
    &&& forall|a: T, b: T, c: T| #[trigger] greater(a, b) && #[trigger] greater(b, c) ==> greater(a, c)
}

/// The rectified linear unit never gives a value less than `zero`, where
/// `zero` is not less than itself.
pub proof fn lemma_relu_not_below_zero<T: Scalar>(x: T, zero: T)
    requires
        !less(zero, zero),
    ensures
        !less(relu_spec(x, zero), zero),
{
}

/// A step of max pooling keeps every value that was not greater than the
/// running value not greater than it, and the candidate is not greater than
/// the new running value.
pub proof fn lemma_keep_greater_bound<T: Scalar>(acc: T, v: T, e: T)
    requires
        strict_greater::<T>(),
    ensures
        !greater(e, acc) ==> !greater(e, keep_greater(acc, v)),
        !greater(v, keep_greater(acc, v)),
        !greater(acc, keep_greater(acc, v)),
{
    if greater(v, acc) {
        if greater(e, v) {
            assert(greater(e, acc));
        }
    }
}

} // verus!
