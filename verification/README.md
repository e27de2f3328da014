# inference_test

Inference for a small convolutional network (convolution with zero padding and
ReLU, max pooling, flattening, fully connected layers), verified with Verus.

Every layer is generic in its element type `T` (`arith::Scalar`: `Copy`, `+`,
`-`, `*`, `PartialOrd`) and takes the element `zero` explicitly. Sums are
compensated (Kahan) sums; the order of every operation is part of the
contracts, stated over `T`'s operator specifications, so that results are
pinned down for every element type that obeys them. Shapes hold for every `T`.

- `src/arith.rs`: the `Scalar` bound, Kahan summation, its laws in exact arithmetic.
- `src/order.rs`: comparisons, ReLU, the step of max pooling and their laws.
- `src/tensor.rs`: nested vectors as rectangular tensors.
- `src/dot.rs`: dot products and matrix products.
- `src/conv.rs`, `src/pooling.rs`, `src/flatten.rs`, `src/dense.rs`: the layers.
- `app/lib.rs`: the `f32` sigmoid and ReLU activations.
- `tests/`: the layers on `f32` data with known results, and on integers.
