//! Batched matrix-vector multiplication over strided tensors.
//!
//! For a batch of `b` independent problems, an `m x k` matrix slice of the
//! first operand is multiplied by a `k`-vector of the second, and one element
//! is written per output row per batch. The first operand is addressed through
//! per-dimension strides and need not be contiguous; the output elements are
//! computed in parallel, one independent dot product each.
//!
//! The element type is abstract: [`Element`] supplies the arithmetic, and
//! every contract is stated over the model of that arithmetic.

pub mod element;
pub mod exact;
pub mod kernel;
pub mod matvec;
pub mod strider;

pub use element::Element;
pub use kernel::{
    dot_product_f32, dot_product_f32_fallback, dot_product_f32_simd_narrow,
    dot_product_f32_simd_wide, Kernel,
};
pub use matvec::{
    batch_matmul_vec, check_operands, output_element, split_index, try_batch_matmul_vec,
    ContractViolation, MatVecLayout,
};
pub use strider::TensorStrider;
