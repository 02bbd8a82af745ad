//! Compute devices.
use vstd::prelude::*;

verus! {

/// Where a tensor's data lives.
#[derive(Debug, PartialEq, Eq, Structural)]
pub enum Device {
    Cpu,
    Cuda(CudaDevice),
}

/// A CUDA device, named by its ordinal.
#[derive(Debug, PartialEq, Eq, Structural)]
pub struct CudaDevice {
    device_id: usize,
}

impl CudaDevice {
    /// The ordinal this handle names.
    pub closed spec fn id(&self) -> usize {
        self.device_id
    }

    /// A handle for device `device_id`; creating it never fails.
    pub fn new(device_id: usize) -> (r: Result<Self, crate::error::OxideError>)
        ensures
            r matches Ok(d) && d.id() == device_id,
    {
        Ok(Self { device_id })
    }

    pub fn device_id(&self) -> (r: usize)
        ensures
            r == self.id(),
    {
        self.device_id
    }
}

/// Two devices are the same when both are the CPU or both are CUDA devices
/// with the same ordinal.
pub open spec fn spec_same_device(a: Device, b: Device) -> bool {
    match (a, b) {
        (Device::Cpu, Device::Cpu) => true,
        (Device::Cuda(x), Device::Cuda(y)) => x.id() == y.id(),
        _ => false,
    }
}

impl Device {
    pub fn new_cuda(device_id: usize) -> (r: Result<Self, crate::error::OxideError>)
        ensures
            r matches Ok(d) && d matches Device::Cuda(c) && c.id() == device_id,
    {
        let c = CudaDevice::new(device_id)?;
        Ok(Device::Cuda(c))
    }

    pub fn is_cuda(&self) -> (r: bool)
        ensures
            r == (self is Cuda),
    {
        match self {
            Device::Cuda(_) => true,
            Device::Cpu => false,
        }
    }

    pub fn is_cpu(&self) -> (r: bool)
        ensures
            r == (self is Cpu),
    {
        match self {
            Device::Cpu => true,
            Device::Cuda(_) => false,
        }
    }

    pub fn same_device(&self, other: &Device) -> (r: bool)
        ensures
            r == spec_same_device(*self, *other),
    {
        match (self, other) {
            (Device::Cpu, Device::Cpu) => true,
            (Device::Cuda(a), Device::Cuda(b)) => a.device_id == b.device_id,
            _ => false,
        }
    }
}

impl Clone for CudaDevice {
    fn clone(&self) -> (r: Self)
        ensures
            r == *self,
    {
        CudaDevice { device_id: self.device_id }
    }
}

impl Clone for Device {
    fn clone(&self) -> (r: Self)
        ensures
            r == *self,
    {
        match self {
            Device::Cpu => Device::Cpu,
            Device::Cuda(c) => Device::Cuda(c.clone()),
        }
    }
}

impl Default for Device {
    fn default() -> (r: Self)
        ensures
            r == Device::Cpu,
    {
        Device::Cpu
    }
}

/// Device identity is an equivalence: reflexive, symmetric and transitive.
pub proof fn lemma_same_device_equivalence(a: Device, b: Device, c: Device)
    ensures
        spec_same_device(a, a),
        spec_same_device(a, b) == spec_same_device(b, a),
        spec_same_device(a, b) && spec_same_device(b, c) ==> spec_same_device(a, c),
{
}

} // verus!
