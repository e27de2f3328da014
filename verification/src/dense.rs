//! Fully connected layers.
use vstd::prelude::*;
use crate::arith::{
    Scalar, exact_additive, exact_ops, kahan_pair, kahan_sum, lemma_kahan_pair_exact, plain_sum,
    total_ops,
};
use vstd::std_specs::ops::{AddSpec, MulSpec};
use crate::dot::{column, dot_product, dot_spec, lemma_dot_exact, products};
use crate::tensor::rect2;

verus! {

/// A fully connected layer from `IN` inputs to `UNITS` outputs:
/// `weights[i][u]` weighs input `i` for output `u`, and `biases[u]` is added
/// to output `u`.
pub struct Dense<T, const IN: usize, const UNITS: usize> {
    pub weights: Vec<Vec<T>>,
    pub biases: Vec<T>,
}

/// The value of output `u` of the layer for the input row `x`, before the
/// activation: the compensated sum of the pair (bias of `u`, dot product of
/// column `u` of the weights and `x`).
pub open spec fn dense_pre<T: Scalar>(
    weights: Seq<Vec<T>>,
    biases: Seq<T>,
    x: Seq<T>,
    u: int,
    zero: T,
) -> T {
    kahan_pair(biases[u], dot_spec(column(weights, x.len() as int, u), x, x.len() as int, zero), zero)
}

/// In exact arithmetic, output `u` of the layer before the activation is
/// `biases[u]` plus the sum over the inputs `i` of `weights[i][u] * x[i]`.
pub proof fn lemma_dense_pre_exact<T: Scalar>(
    weights: Seq<Vec<T>>,
    biases: Seq<T>,
    x: Seq<T>,
    u: int,
    zero: T,
)
    requires
        exact_additive::<T>(zero),
    ensures
        dense_pre(weights, biases, x, u, zero) == biases[u].add_spec(
            plain_sum(Seq::new(x.len(), |i: int| weights[i][u].mul_spec(x[i])), zero),
        ),
{
    let n = x.len() as int;
    let col = column(weights, n, u);
    lemma_dot_exact(col, x, n, zero);
    assert(products(col, x, n) =~= Seq::new(x.len(), |i: int| weights[i][u].mul_spec(x[i])));
    lemma_kahan_pair_exact(biases[u], dot_spec(col, x, n, zero), zero);
}

/// `v` is a value that `activation` can return (for some argument).
pub open spec fn activation_output<T, F: Fn(T) -> T>(activation: F, v: T) -> bool {
    exists|x: T| #[trigger] call_ensures(activation, (x,), v)
}

impl<T: Scalar, const IN: usize, const UNITS: usize> Dense<T, IN, UNITS> {
    /// The weights are `IN x UNITS` and there is one bias per output.
    pub open spec fn wf(&self) -> bool {
        &&& rect2(self.weights@, IN as int, UNITS as int)
        &&& self.biases@.len() == UNITS
    }

    pub fn new(weights: Vec<Vec<T>>, biases: Vec<T>) -> (r: Self)
        requires
            rect2(weights@, IN as int, UNITS as int),
            biases@.len() == UNITS,
        ensures
            r.weights == weights,
            r.biases == biases,
            r.wf(),
    {
        Self { weights, biases }
    }

    /// Applies the layer to each row of `input` (rows of `IN` values): output
    /// `u` of a row is `activation` applied to `dense_pre` of that row.
    pub fn compute<F: Fn(T) -> T>(self, input: &Vec<Vec<T>>, activation: F, zero: T) -> (r: Vec<
        Vec<T>,
    >)
        requires
            self.wf(),
            rect2(input@, input@.len() as int, IN as int),
            total_ops::<T>(),
            forall|x: T| call_requires(activation, (x,)),
        ensures
            rect2(r@, input@.len() as int, UNITS as int),
            forall|b: int, u: int|
                0 <= b < input@.len() && 0 <= u < UNITS ==> activation_output(activation, #[trigger] r@[b]@[u]),
            exact_ops::<T>() ==> forall|b: int, u: int|
                0 <= b < input@.len() && 0 <= u < UNITS ==> call_ensures(
                    activation,
                    (dense_pre(self.weights@, self.biases@, input@[b]@, u, zero),),
                    #[trigger] r@[b]@[u],
                ),
    {
        let batches = input.len();
        let mut ret: Vec<Vec<T>> = Vec::new();
        let mut batch: usize = 0;
        while batch < batches
            invariant
                self.wf(),
                batches == input@.len(),
                rect2(input@, input@.len() as int, IN as int),
                total_ops::<T>(),
                forall|x: T| call_requires(activation, (x,)),
                batch <= batches,
                rect2(ret@, batch as int, UNITS as int),
                forall|b: int, u: int|
                    0 <= b < batch && 0 <= u < UNITS ==> activation_output(activation, #[trigger] ret@[b]@[u]),
                exact_ops::<T>() ==> forall|b: int, u: int|
                    0 <= b < batch && 0 <= u < UNITS ==> call_ensures(
                        activation,
                        (dense_pre(self.weights@, self.biases@, input@[b]@, u, zero),),
                        #[trigger] ret@[b]@[u],
                    ),
            decreases batches - batch,
        {
            // pivot
            let weight = self.pivot_weights();
            assert(input@[batch as int].len() == IN);
            let row_in = input[batch].as_slice();
            let mut row: Vec<T> = Vec::new();
            let mut u: usize = 0;
            while u < UNITS
                invariant
                    self.wf(),
                    rect2(weight@, UNITS as int, IN as int),
                    forall|uu: int, i: int|
                        0 <= uu < UNITS && 0 <= i < IN ==> #[trigger] weight@[uu]@[i]
                            == self.weights@[i]@[uu],
                    row_in@ == input@[batch as int]@,
                    row_in@.len() == IN,
                    total_ops::<T>(),
                    forall|x: T| call_requires(activation, (x,)),
                    u <= UNITS,
                    row@.len() == u,
                    forall|uu: int|
                        0 <= uu < u ==> activation_output(activation, #[trigger] row@[uu]),
                    exact_ops::<T>() ==> forall|uu: int|
                        0 <= uu < u ==> call_ensures(
                            activation,
                            (dense_pre(self.weights@, self.biases@, row_in@, uu, zero),),
                            #[trigger] row@[uu],
                        ),
                decreases UNITS - u,
            {
                assert(weight@[u as int].len() == IN);
                let value = dot_product(weight[u].as_slice(), row_in, zero);
                assert(weight@[u as int]@ =~= column(self.weights@, IN as int, u as int));
                let pair = [self.biases[u], value];
                let value = kahan_sum(&pair, zero);
                assert(pair@ =~= seq![pair[0], pair[1]]);
                let out = activation(value);
                assert(call_ensures(activation, (value,), out));
                row.push(out);
                u = u + 1;
            }
            let ghost prev = ret@;
            ret.push(row);
            proof {
                assert forall|b: int, u: int| 0 <= b < batch + 1 && 0 <= u < UNITS implies activation_output(activation, #[trigger] ret@[b]@[u]) by {
                    if b < batch {
                        assert(ret@[b] == prev[b]);
                    }
                }
                if exact_ops::<T>() {
                    assert forall|b: int, u: int| 0 <= b < batch + 1 && 0 <= u < UNITS implies call_ensures(
                        activation,
                        (dense_pre(self.weights@, self.biases@, input@[b]@, u, zero),),
                        #[trigger] ret@[b]@[u],
                    ) by {
                        if b < batch {
                            assert(ret@[b] == prev[b]);
                        }
                    }
                }
            }
            batch = batch + 1;
        }
        ret
    }

    /// The transpose of the weights: row `u` holds the weights of output `u`.
    fn pivot_weights(&self) -> (r: Vec<Vec<T>>)
        requires
            self.wf(),
        ensures
            rect2(r@, UNITS as int, IN as int),
            forall|u: int, i: int|
                0 <= u < UNITS && 0 <= i < IN ==> #[trigger] r@[u]@[i] == self.weights@[i]@[u],
    {
        crate::dot::pivot(&self.weights, IN, UNITS)
    }
}

} // verus!
