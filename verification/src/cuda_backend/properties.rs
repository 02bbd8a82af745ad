//! Properties the backend reports for a CUDA device.
use vstd::prelude::*;
use vstd::string::*;
use crate::text::{decimal, usize_to_string};

verus! {

/// Device properties
#[derive(Debug, Clone)]
pub struct DeviceProperties {
    pub device_id: usize,
    pub name: String,
    pub major: i32,
    pub minor: i32,
    pub total_memory: usize,
    pub warp_size: usize,
}

impl DeviceProperties {
    /// The properties assumed for every device: named `CUDA Device <id>`,
    /// compute capability 8.6, 6 GiB of memory (6442450944 bytes, cut to the
    /// width of `usize`), warps of 32 threads.
    pub fn from_device(device_id: usize) -> (r: Self)
        ensures
            r.device_id == device_id,
            r.name@ == "CUDA Device "@ + decimal(device_id as nat),
            r.major == 8,
            r.minor == 6,
            r.total_memory == 6442450944u64 as usize,
            r.warp_size == 32,
    {
        let mut name = String::from_str("CUDA Device ");
        name.append(usize_to_string(device_id).as_str());
        proof {
            reveal_strlit("CUDA Device ");
        }
        DeviceProperties {
            device_id,
            name,
            major: 8,
            minor: 6,
            total_memory: 6442450944u64 as usize,
            warp_size: 32,
        }
    }

    /// Compute capability as tuple
    pub fn compute_capability(&self) -> (r: (i32, i32))
        ensures
            r == (self.major, self.minor),
    {
        (self.major, self.minor)
    }

    /// Check if tensor cores are available
    pub fn has_tensor_cores(&self) -> (r: bool)
        ensures
            r == (self.major >= 7),
    {
        self.major >= 7
    }
}

} // verus!
