//! Dense row-major tensors: construction, elementwise arithmetic, transpose and
//! two-dimensional matrix multiplication, serial and row-parallel.
//!
//! A [`Tensor`] is generic in its element type. The arithmetic of the element
//! type is taken as given; everything the library adds to it (shape validation,
//! the row-major layout, the order in which products are accumulated, the
//! partition of the output into rows) is proved.

pub mod algebra;
pub mod element;
pub mod elementwise;
pub mod error;
pub mod laws;
pub mod matmul;
pub mod operators;
pub mod parallel;
pub mod shape;
pub mod tensor;
pub mod transpose;

pub use error::Error;
pub use tensor::Tensor;
pub use tensor::TensorView;
