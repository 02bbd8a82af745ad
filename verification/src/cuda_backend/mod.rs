//! CUDA-side support: error handling, device properties, kernel launch
//! planning and host memory.
pub mod context;
pub mod errors;
pub mod launcher;
pub mod memory;
pub mod properties;

pub use errors::{CudaError, CudaResult, RecoveryStrategy};
pub use memory::{GpuMemoryPool, MemoryStats, PinnedMemory};
pub use properties::DeviceProperties;
