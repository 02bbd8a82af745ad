//! Core tensor types: data types, shapes, layouts, devices, storage and tensors.
pub mod device;
pub mod dtype;

pub use device::{CudaDevice, Device};
pub use dtype::{DType, Layout, Shape};
pub mod storage;
pub use storage::{CpuStorage, CudaStorage, Storage, StorageData};
pub mod tensor;
pub use tensor::Tensor;
