//! Kernel launch planning, kernel selection and GPU/CPU dispatch.
pub mod execution;
pub mod integration;

pub use execution::{
    AutoKernelSelector, BlockPrimitives, GpuMemoryManager, GpuOp, GpuStream, KernelConfig, KernelExecutor,
    MatmulKernelType, SoftmaxKernelType, TileConfig, WarpPrimitives, check_cuda_error,
};
pub use integration::{GpuExecutable, GpuFallback, GpuOpDispatcher};

use vstd::prelude::*;
use vstd::string::*;
use crate::error::OxideResult;

verus! {

/// Prepares CUDA on device `device_id`; there is nothing to prepare, so this
/// always succeeds.
pub fn init_cuda(device_id: usize) -> (r: OxideResult<()>)
    ensures
        r is Ok,
{
    Ok(())
}

/// Whether CUDA kernels can run here: never, in this build.
pub fn cuda_available() -> (r: bool)
    ensures
        !r,
{
    false
}

/// Number of CUDA devices kernels can use: none, in this build.
pub fn cuda_device_count() -> (r: usize)
    ensures
        r == 0,
{
    0
}

/// Properties of device `device_id`: none are known.
pub fn cuda_device_props(device_id: usize) -> (r: Option<CudaDeviceProps>)
    ensures
        r is None,
{
    None
}

/// CUDA device properties
#[derive(Debug, Clone)]
pub struct CudaDeviceProps {
    pub name: String,
    pub compute_capability_major: i32,
    pub compute_capability_minor: i32,
    pub total_memory: usize,
    pub max_threads_per_block: i32,
    pub warp_size: i32,
}

/// Compile-time kernel metadata
pub struct KernelMetadata {
    pub name: &'static str,
    pub num_regs: usize,
    pub shared_mem_bytes: usize,
    pub const_mem_bytes: usize,
}

/// Metadata of the three compiled kernels: `vecadd_f32` (16 registers, no
/// shared or constant memory), `matmul_f32` (32 registers, 2048 bytes of
/// shared memory) and `attention_forward_f32` (64 registers, 4096 bytes of
/// shared and 256 of constant memory).
pub fn get_kernel_metadata() -> (r: Vec<KernelMetadata>)
    ensures
        r@.len() == 3,
        r@[0].name@ == "vecadd_f32"@ && r@[0].num_regs == 16 && r@[0].shared_mem_bytes == 0
            && r@[0].const_mem_bytes == 0,
        r@[1].name@ == "matmul_f32"@ && r@[1].num_regs == 32 && r@[1].shared_mem_bytes == 2048
            && r@[1].const_mem_bytes == 0,
        r@[2].name@ == "attention_forward_f32"@ && r@[2].num_regs == 64
            && r@[2].shared_mem_bytes == 4096 && r@[2].const_mem_bytes == 256,
{
    let mut v: Vec<KernelMetadata> = Vec::new();
    v.push(KernelMetadata { name: "vecadd_f32", num_regs: 16, shared_mem_bytes: 0, const_mem_bytes: 0 });
    v.push(KernelMetadata { name: "matmul_f32", num_regs: 32, shared_mem_bytes: 2048, const_mem_bytes: 0 });
    v.push(KernelMetadata {
        name: "attention_forward_f32",
        num_regs: 64,
        shared_mem_bytes: 4096,
        const_mem_bytes: 256,
    });
    v
}

} // verus!
