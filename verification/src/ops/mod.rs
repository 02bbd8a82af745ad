//! Tensor operations whose results are decided by shapes and data movement:
//! broadcasting, matrix products and element-wise arithmetic, embedding
//! lookup and key/value head repetition; and the shape checks of the
//! floating-point operations.
pub mod attention;
pub mod embedding;
pub mod matmul;
pub mod shapes;

pub use attention::repeat_kv;
pub use embedding::embedding;
pub use matmul::{add, broadcast_shape, div, matmul, matmul_with_bias, mul, sub};
