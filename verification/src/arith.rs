//! Element arithmetic: the `Scalar` bound, Kahan summation and its laws.
use vstd::prelude::*;
use vstd::std_specs::ops::{AddSpec, MulSpec, SubSpec};

verus! {

/// The element types the layers compute on: copyable values with `+`, `-`,
/// `*` and a partial order.
pub trait Scalar:
    Copy + core::ops::Add<Output = Self> + core::ops::Sub<Output = Self> + core::ops::Mul<
        Output = Self,
    > + PartialOrd {

}

impl<
    T: Copy + core::ops::Add<Output = T> + core::ops::Sub<Output = T> + core::ops::Mul<
        Output = T,
    > + PartialOrd,
> Scalar for T {

}

/// `+`, `-` and `*` of `T` are defined on every pair of values (they never
/// panic), as they are for floating-point types.
pub open spec fn total_ops<T: Scalar>() -> bool {
    &&& forall|x: T, y: T| #[trigger] x.add_req(y)
    &&& forall|x: T, y: T| #[trigger] x.sub_req(y)
    &&& forall|x: T, y: T| #[trigger] x.mul_req(y)
}

/// `+`, `-` and `*` of `T` compute their specification functions.
pub open spec fn exact_ops<T: Scalar>() -> bool {
    T::obeys_add_spec() && T::obeys_sub_spec() && T::obeys_mul_spec()
}

/// One step of compensated summation: the running `(sum, compensation)` after
/// adding `v`.
pub open spec fn kahan_step<T: Scalar>(state: (T, T), v: T) -> (T, T) {
    let y = v.sub_spec(state.1);
    let t = state.0.add_spec(y);
    (t, t.sub_spec(state.0).sub_spec(y))
}

/// The `(sum, compensation)` pair after compensated summation of `s`,
/// starting from `(zero, zero)`.
pub open spec fn kahan_state<T: Scalar>(s: Seq<T>, zero: T) -> (T, T)
    decreases s.len(),
{
    if s.len() == 0 {
        (zero, zero)
    } else {
        kahan_step(kahan_state(s.drop_last(), zero), s.last())
    }
}

/// The compensated (Kahan) sum of `s`.
pub open spec fn kahan<T: Scalar>(s: Seq<T>, zero: T) -> T {
    kahan_state(s, zero).0
}

/// The compensated sum of the two values `a` and `b`, in that order.
pub open spec fn kahan_pair<T: Scalar>(a: T, b: T, zero: T) -> T {
    kahan(seq![a, b], zero)
}

/// The plain left-to-right sum `((zero + s[0]) + s[1]) + ...`.
pub open spec fn plain_sum<T: Scalar>(s: Seq<T>, zero: T) -> T
    decreases s.len(),
{
    if s.len() == 0 {
        zero
    } else {
        plain_sum(s.drop_last(), zero).add_spec(s.last())
    }
}

/// Compensated summation of `input`: returns its Kahan sum, computed with the
/// operations of `T` in the order that `kahan` states.
pub fn kahan_sum<T: Scalar>(input: &[T], zero: T) -> (r: T)
    requires
        total_ops::<T>(),
    ensures
        exact_ops::<T>() ==> r == kahan(input@, zero),
{
    let mut sum = zero;
    let mut c = zero;
    let mut i: usize = 0;
    while i < input.len()
        invariant
            total_ops::<T>(),
            i <= input.len(),
            exact_ops::<T>() ==> (sum, c) == kahan_state(input@.take(i as int), zero),
        decreases input.len() - i,
    {
        let value = input[i];
        let y = value - c;
        let t = sum + y;
        c = (t - sum) - y;
        sum = t;
        proof {
            assert(input@.take(i + 1).drop_last() =~= input@.take(i as int));
        }
        i = i + 1;
    }
    proof {
        assert(input@.take(input.len() as int) =~= input@);
    }
    sum
}

/// Subtraction and addition of `T` behave as in an abelian group with
/// identity `zero`: `zero` is neutral, `+` commutes, and subtracting `b`
/// undoes adding `b` and the other way round.
pub open spec fn exact_additive<T: Scalar>(zero: T) -> bool {
    &&& forall|a: T| #[trigger] a.add_spec(zero) == a
    &&& forall|a: T, b: T| #[trigger] a.add_spec(b) == b.add_spec(a)
    &&& forall|a: T, b: T| #[trigger] a.add_spec(b).sub_spec(b) == a
    &&& forall|a: T, b: T| #[trigger] a.sub_spec(b).add_spec(b) == a
}

/// In exact arithmetic the compensation term of Kahan summation stays zero,
/// so the compensated sum is the plain left-to-right sum.
pub proof fn lemma_kahan_exact<T: Scalar>(s: Seq<T>, zero: T)
    requires
        exact_additive::<T>(zero),
    ensures
        kahan_state(s, zero) == (plain_sum(s, zero), zero),
        kahan(s, zero) == plain_sum(s, zero),
    decreases s.len(),
{
    if s.len() > 0 {
        lemma_kahan_exact(s.drop_last(), zero);
        let sum = plain_sum(s.drop_last(), zero);
        let v = s.last();
        // v - zero == v
        assert(v.add_spec(zero).sub_spec(zero) == v);
        assert(v.sub_spec(zero) == v);
        // (sum + v) - sum == v
        assert(v.add_spec(sum).sub_spec(sum) == v);
        assert(sum.add_spec(v) == v.add_spec(sum));
        // v - v == zero: both (v - v) + v and zero + v are v
        let d = v.sub_spec(v);
        assert(d.add_spec(v) == v);
        assert(zero.add_spec(v) == v.add_spec(zero));
        assert(d.add_spec(v).sub_spec(v) == d);
        assert(zero.add_spec(v).sub_spec(v) == zero);
    }
}

/// In exact arithmetic the compensated sum of a pair is the plain sum of the
/// pair.
pub proof fn lemma_kahan_pair_exact<T: Scalar>(a: T, b: T, zero: T)
    requires
        exact_additive::<T>(zero),
    ensures
        kahan_pair(a, b, zero) == a.add_spec(b),
{
    let s = seq![a, b];
    lemma_kahan_exact(s, zero);
    assert(s.drop_last() =~= seq![a]);
    assert(seq![a].drop_last() =~= Seq::<T>::empty());
    assert(seq![a].last() == a);
    assert(plain_sum(Seq::<T>::empty(), zero) == zero);
    assert(plain_sum(seq![a], zero) == zero.add_spec(a));
    assert(zero.add_spec(a) == a.add_spec(zero));
}

} // verus!
