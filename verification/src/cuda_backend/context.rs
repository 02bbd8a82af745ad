//! Detailed device properties and context configuration.
use vstd::prelude::*;

verus! {

/// Device properties
#[derive(Debug)]
pub struct DeviceProperties {
    pub device_id: usize,
    pub name: String,
    pub major: i32,
    pub minor: i32,
    pub total_memory: usize,
    pub shared_memory_per_block: usize,
    pub max_threads_per_block: usize,
    pub max_block_dim: (usize, usize, usize),
    pub max_grid_dim: (usize, usize, usize),
    pub warp_size: usize,
    pub memory_clock_rate: i32,
    pub memory_bus_width: i32,
    pub l2_cache_size: i32,
}

impl Clone for DeviceProperties {
    fn clone(&self) -> (r: Self)
        ensures
            r == *self,
    {
        DeviceProperties {
            device_id: self.device_id,
            name: self.name.clone(),
            major: self.major,
            minor: self.minor,
            total_memory: self.total_memory,
            shared_memory_per_block: self.shared_memory_per_block,
            max_threads_per_block: self.max_threads_per_block,
            max_block_dim: (self.max_block_dim.0, self.max_block_dim.1, self.max_block_dim.2),
            max_grid_dim: (self.max_grid_dim.0, self.max_grid_dim.1, self.max_grid_dim.2),
            warp_size: self.warp_size,
            memory_clock_rate: self.memory_clock_rate,
            memory_bus_width: self.memory_bus_width,
            l2_cache_size: self.l2_cache_size,
        }
    }
}

impl DeviceProperties {
    /// Compute capability as tuple
    pub fn compute_capability(&self) -> (r: (i32, i32))
        ensures
            r == (self.major, self.minor),
    {
        (self.major, self.minor)
    }

    /// Tensor cores come with compute capability 7 and later.
    pub fn has_tensor_cores(&self) -> (r: bool)
        ensures
            r == (self.major >= 7),
    {
        self.major >= 7
    }

    /// Asynchronous copies come with compute capability 8 and later.
    pub fn supports_async_copy(&self) -> (r: bool)
        ensures
            r == (self.major >= 8),
    {
        self.major >= 8
    }
}

/// Context configuration
#[derive(Debug, Clone)]
pub struct ContextConfig {
    pub device_id: usize,
    pub flags: u32,
}

impl ContextConfig {
    pub fn new(device_id: usize) -> (r: Self)
        ensures
            r.device_id == device_id,
            r.flags == 0,
    {
        Self { device_id, flags: 0 }
    }
}

} // verus!
