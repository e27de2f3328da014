//! Inference for small convolutional networks, over any element type whose
//! arithmetic and ordering come from the standard operator traits.
//!
//! Each layer is generic in its element type `T`. The order in which the
//! layers add, subtract, multiply and compare values is part of each contract:
//! it is stated over the operator specifications of `T` (`add_spec`,
//! `sub_spec`, `mul_spec`, `partial_cmp_spec`), and it holds whenever `T`
//! obeys them. The shapes of all results hold for every `T`.

pub mod arith;
pub mod order;
pub mod tensor;
pub mod dot;
pub mod conv;
pub mod pooling;
pub mod dense;
pub mod flatten;

pub use arith::kahan_sum;
pub use conv::Conv2D;
pub use dense::Dense;
pub use dot::{dot_product, dot_product_2d};
pub use flatten::Flatten;
pub use order::relu;
pub use pooling::MaxPooling2D;
pub use tensor::Data2D;
