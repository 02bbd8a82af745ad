//! Launch geometry, kernel selection and tensor transfers.
use vstd::prelude::*;
use vstd::string::*;
use crate::base::device::Device;
use crate::base::storage::spec_moved_data;
use crate::base::tensor::Tensor;
use crate::error::{OxideError, OxideResult};

verus! {

/// Configuration for kernel launches
#[derive(Debug, Clone)]
pub struct KernelConfig {
    pub block_size_1d: usize,
    pub block_size_2d: usize,
    pub max_threads_per_block: usize,
}

impl Default for KernelConfig {
    /// Blocks of 256 threads in 1D and 16×16 in 2D, at most 1024 threads.
    fn default() -> (r: Self)
        ensures
            r.block_size_1d == 256,
            r.block_size_2d == 16,
            r.max_threads_per_block == 1024,
    {
        Self { block_size_1d: 256, block_size_2d: 16, max_threads_per_block: 1024 }
    }
}

/// Number of blocks of `b` items needed to cover `n` items.
pub open spec fn blocks_for(n: nat, b: nat) -> nat
    recommends
        b > 0,
{
    ((n + b - 1) as nat) / b
}

/// Plans kernel launches.
pub struct KernelExecutor {
    config: KernelConfig,
}

impl KernelExecutor {
    /// The configuration launches are planned with.
    pub closed spec fn spec_config(&self) -> KernelConfig {
        self.config
    }

    pub fn new(config: KernelConfig) -> (r: Self)
        ensures
            r.spec_config() == config,
    {
        Self { config }
    }

    pub fn default() -> (r: Self)
        ensures
            r.spec_config().block_size_1d == 256,
            r.spec_config().block_size_2d == 16,
            r.spec_config().max_threads_per_block == 1024,
    {
        Self::new(KernelConfig::default())
    }

    /// `(blocks, threads per block)` for `num_elems` items: just enough
    /// blocks of the 1D block size to cover them all.
    pub fn launch_config_1d(&self, num_elems: usize) -> (r: (usize, usize))
        requires
            self.spec_config().block_size_1d > 0,
            num_elems + self.spec_config().block_size_1d <= usize::MAX,
        ensures
            r.1 == self.spec_config().block_size_1d,
            r.0 == blocks_for(num_elems as nat, r.1 as nat),
            r.0 * r.1 >= num_elems,
            num_elems > 0 ==> (r.0 - 1) * r.1 < num_elems,
    {
        let threads_per_block = self.config.block_size_1d;
        let blocks = (num_elems + threads_per_block - 1) / threads_per_block;
        proof {
            lemma_blocks_cover(num_elems as nat, threads_per_block as nat);
        }
        (blocks, threads_per_block)
    }

    /// `((grid x, grid y), (block x, block y))` covering a `dim_x` × `dim_y`
    /// range with square blocks of the 2D block size.
    pub fn launch_config_2d(&self, dim_x: usize, dim_y: usize) -> (r: ((usize, usize), (usize, usize)))
        requires
            self.spec_config().block_size_2d > 0,
            dim_x + self.spec_config().block_size_2d <= usize::MAX,
            dim_y + self.spec_config().block_size_2d <= usize::MAX,
        ensures
            r.1 == (self.spec_config().block_size_2d, self.spec_config().block_size_2d),
            r.0.0 == blocks_for(dim_x as nat, r.1.0 as nat),
            r.0.1 == blocks_for(dim_y as nat, r.1.1 as nat),
    {
        let block_x = self.config.block_size_2d;
        let block_y = self.config.block_size_2d;
        let grid_x = (dim_x + block_x - 1) / block_x;
        let grid_y = (dim_y + block_y - 1) / block_y;
        ((grid_x, grid_y), (block_x, block_y))
    }
}

/// Enough blocks to cover every item, and no block more than needed.
pub proof fn lemma_blocks_cover(n: nat, b: nat)
    requires
        b > 0,
    ensures
        blocks_for(n, b) * b >= n,
        n > 0 ==> (blocks_for(n, b) - 1) * b < n,
{
    let q = blocks_for(n, b);
    let m = (n + b - 1) as nat;
    vstd::arithmetic::div_mod::lemma_fundamental_div_mod(m as int, b as int);
    vstd::arithmetic::div_mod::lemma_mod_bound(m as int, b as int);
    vstd::arithmetic::mul::lemma_mul_is_commutative(b as int, q as int);
    vstd::arithmetic::mul::lemma_mul_is_distributive_sub_other_way(b as int, q as int, 1);
}

/// Operations on tensors that can run on a GPU.
pub trait GpuOp {
    fn execute(&self, inputs: &[&Tensor], output: &mut Tensor, device: &Device) -> OxideResult<()>;
}

/// Moves tensors between the host and one device.
pub struct GpuMemoryManager {
    device: Device,
}

impl GpuMemoryManager {
    /// The device tensors are uploaded to.
    pub closed spec fn spec_device(&self) -> Device {
        self.device
    }

    pub fn new(device: &Device) -> (r: Self)
        ensures
            r.spec_device() == *device,
    {
        Self { device: device.clone() }
    }

    /// The tensor's contents on this manager's device.
    pub fn upload(&self, tensor: &Tensor) -> (r: OxideResult<Tensor>)
        ensures
            r matches Ok(t) && t@.dtype == tensor@.dtype && t@.layout == tensor@.layout
                && spec_moved_data(tensor@.data, self.spec_device(), t@.data),
    {
        tensor.to_device(&self.device)
    }

    /// The tensor's contents on the host.
    pub fn download(&self, tensor: &Tensor) -> (r: OxideResult<Tensor>)
        ensures
            r matches Ok(t) && t@.dtype == tensor@.dtype && t@.layout == tensor@.layout
                && spec_moved_data(tensor@.data, Device::Cpu, t@.data),
    {
        tensor.to_device(&Device::Cpu)
    }

    /// A copy of the tensor when it is on a CUDA device already, else its
    /// upload.
    pub fn ensure_gpu(&self, tensor: &Tensor) -> (r: OxideResult<Tensor>)
        ensures
            tensor@.data is Cuda ==> (r matches Ok(t) && crate::base::storage::same_storage(t@, tensor@)),
            tensor@.data is Cpu ==> (r matches Ok(t) && t@.dtype == tensor@.dtype && t@.layout == tensor@.layout
                && spec_moved_data(tensor@.data, self.spec_device(), t@.data)),
    {
        if tensor.device().is_cuda() {
            Ok(tensor.clone())
        } else {
            self.upload(tensor)
        }
    }

    /// A copy of the tensor when it is on the host already, else its download.
    pub fn ensure_cpu(&self, tensor: &Tensor) -> (r: OxideResult<Tensor>)
        ensures
            tensor@.data is Cpu ==> (r matches Ok(t) && crate::base::storage::same_storage(t@, tensor@)),
            tensor@.data is Cuda ==> (r matches Ok(t) && t@.dtype == tensor@.dtype && t@.layout == tensor@.layout
                && spec_moved_data(tensor@.data, Device::Cpu, t@.data)),
    {
        if tensor.device().is_cpu() {
            Ok(tensor.clone())
        } else {
            self.download(tensor)
        }
    }
}

/// Matmul kernel variants.
#[derive(Debug, Clone, Copy, PartialEq, Eq, Structural)]
pub enum MatmulKernelType {
    Naive,
    Tiled,
    TiledSharedMemory,
    CuBLAS,
}

/// Softmax kernel variants.
#[derive(Debug, Clone, Copy, PartialEq, Eq, Structural)]
pub enum SoftmaxKernelType {
    Standard,
    WarpOptimized,
    Online,
}

/// The smallest of three dimensions.
pub open spec fn min3(m: usize, n: usize, k: usize) -> usize {
    let a = if m <= n { m } else { n };
    if a <= k { a } else { k }
}

/// Picks kernels from problem sizes.
pub struct AutoKernelSelector;

impl AutoKernelSelector {
    /// Shared-memory tiling when every dimension is at least 1024, plain
    /// tiling when every one is at least 128, else the naive kernel.
    pub fn select_matmul_kernel(m: usize, n: usize, k: usize) -> (r: MatmulKernelType)
        ensures
            min3(m, n, k) >= 1024 ==> r == MatmulKernelType::TiledSharedMemory,
            128 <= min3(m, n, k) < 1024 ==> r == MatmulKernelType::Tiled,
            min3(m, n, k) < 128 ==> r == MatmulKernelType::Naive,
    {
        let mn = if m <= n { m } else { n };
        let min_dim = if mn <= k { mn } else { k };
        if min_dim >= 1024 {
            MatmulKernelType::TiledSharedMemory
        } else if min_dim >= 128 {
            MatmulKernelType::Tiled
        } else {
            MatmulKernelType::Naive
        }
    }

    /// The warp-optimized kernel above 1024 positions, else the standard one.
    pub fn select_softmax_kernel(seq_len: usize) -> (r: SoftmaxKernelType)
        ensures
            r == (if seq_len > 1024 { SoftmaxKernelType::WarpOptimized } else { SoftmaxKernelType::Standard }),
    {
        if seq_len > 1024 {
            SoftmaxKernelType::WarpOptimized
        } else {
            SoftmaxKernelType::Standard
        }
    }
}

/// Passes a success through and turns a failure message into
/// `OxideError::CudaError` with that message.
pub fn check_cuda_error(result: Result<(), String>) -> (r: OxideResult<()>)
    ensures
        result is Ok ==> r is Ok,
        result matches Err(msg) ==> (r matches Err(OxideError::CudaError(m)) && m@ == msg@),
{
    match result {
        Ok(()) => Ok(()),
        Err(msg) => Err(OxideError::CudaError(msg)),
    }
}

/// Warp-level primitives.
pub struct WarpPrimitives;

/// Block-level primitives.
pub struct BlockPrimitives;

/// Tiling configuration for GPU kernels
#[derive(Debug, Clone)]
pub struct TileConfig {
    pub tile_size_m: usize,
    pub tile_size_n: usize,
    pub tile_size_k: usize,
}

impl TileConfig {
    /// Square tiles of 64 when every dimension is at least 1024, of 32 when
    /// every one is at least 256, else of 16.
    pub fn optimal_for_matmul(m: usize, n: usize, k: usize) -> (r: Self)
        ensures
            r.tile_size_m == r.tile_size_n == r.tile_size_k,
            r.tile_size_m == (if min3(m, n, k) >= 1024 { 64usize } else if min3(m, n, k) >= 256 { 32usize } else { 16usize }),
    {
        let mn = if m <= n { m } else { n };
        let min_dim = if mn <= k { mn } else { k };
        let base_tile = if min_dim >= 1024 {
            64
        } else if min_dim >= 256 {
            32
        } else {
            16
        };
        Self { tile_size_m: base_tile, tile_size_n: base_tile, tile_size_k: base_tile }
    }
}

/// An ordered queue of work on a device. No CUDA stream is created, so
/// work submitted through it runs in order and is complete when submitted.
pub struct GpuStream {
    device: Device,
}

impl GpuStream {
    pub closed spec fn spec_device(&self) -> Device {
        self.device
    }

    /// A stream on `device`; never fails.
    pub fn new(device: &Device) -> (r: OxideResult<Self>)
        ensures
            r matches Ok(s) && s.spec_device() == *device,
    {
        Ok(Self { device: device.clone() })
    }

    /// The default stream of `device`, as `new` makes it.
    pub fn default_stream(device: &Device) -> (r: OxideResult<Self>)
        ensures
            r matches Ok(s) && s.spec_device() == *device,
    {
        Self::new(device)
    }

    /// Waits for the stream's work, which is always complete.
    pub fn synchronize(&self) -> (r: OxideResult<()>)
        ensures
            r is Ok,
    {
        Ok(())
    }

    pub fn device(&self) -> (r: &Device)
        ensures
            *r == self.spec_device(),
    {
        &self.device
    }
}

} // verus!
