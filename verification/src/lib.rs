//! Neural-network layer primitives over dense integer matrices: a
//! fully-connected (dense) layer, a rectified-linear activation, and a
//! sigmoid activation, each with a verified forward and backward pass.
//!
//! Matrix entries are exact 64-bit integers, so every pass is an exact
//! computation proved free of overflow within the library's entry and size
//! limits. A caller that works with real-valued data fixes a scale, rounds
//! once at the boundary, and carries the scaled entries through the layers.

use vstd::prelude::*;

mod layers;
mod matrix;

pub use layers::lemma_fc_forward_repeatable;
pub use layers::lemma_relu_forward_repeatable;
pub use layers::relu_mask;
pub use layers::relu_val;
pub use layers::FCLayer;
pub use layers::Layer;
pub use layers::LayerError;
pub use layers::Relu;
pub use layers::Sigmoid;

pub use matrix::col_s;
pub use matrix::col_sum;
pub use matrix::col_sum_prefix;
pub use matrix::dot;
pub use matrix::dot_prefix;
pub use matrix::entries_bounded;
pub use matrix::entries_within;
pub use matrix::lemma_dims_nonneg;
pub use matrix::row_s;
pub use matrix::Matrix;
pub use matrix::DIM_LIMIT;
pub use matrix::ENTRY_LIMIT;
pub use matrix::PROD_LIMIT;

verus! {

} // verus!
