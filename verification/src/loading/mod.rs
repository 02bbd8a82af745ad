//! Model file formats.
pub mod gguf;
pub mod safetensors;

pub use gguf::{GgmlDType, GgufLoader, GgufMetadata, GgufTensorInfo, GgufValue};
