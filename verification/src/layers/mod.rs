//! Neural-network layers built on the tensor operations.
pub mod attention;
pub mod embedding;
pub mod linear;

pub use attention::{MLP, MultiHeadAttention};
pub use embedding::Embedding;
pub use linear::Linear;
