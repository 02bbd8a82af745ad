//! Raw tensor storage, on the host or on a CUDA device.
use vstd::prelude::*;
use crate::base::device::{CudaDevice, Device, spec_same_device};
use crate::base::dtype::{DType, Layout, suffix_fits, contiguous_strides};
use crate::error::OxideResult;

verus! {

/// The bytes of a tensor together with how to read them.
#[derive(Debug)]
pub struct Storage {
    pub dtype: DType,
    pub layout: Layout,
    pub data: StorageData,
}

/// Where the bytes of a tensor live.
#[derive(Debug)]
pub enum StorageData {
    Cpu(CpuStorage),
    Cuda(CudaStorage),
}

/// Host bytes.
#[derive(Debug)]
pub struct CpuStorage {
    pub data: Vec<u8>,
}

/// A device allocation, named by device ordinal, address and byte length.
#[derive(Debug, Clone, Copy, PartialEq, Eq, Structural)]
pub struct CudaStorage {
    pub device_id: usize,
    pub ptr: usize,
    pub len: usize,
}

impl Clone for CpuStorage {
    fn clone(&self) -> (r: Self)
        ensures
            r.data@ == self.data@,
    {
        let data = self.data.clone();
        assert(data@ =~= self.data@);
        CpuStorage { data }
    }
}

/// Two storage contents are the same: equal host bytes, or the same device
/// allocation.
pub open spec fn same_data(a: StorageData, b: StorageData) -> bool {
    match (a, b) {
        (StorageData::Cpu(x), StorageData::Cpu(y)) => x.data@ == y.data@,
        (StorageData::Cuda(x), StorageData::Cuda(y)) => x == y,
        _ => false,
    }
}

/// Two storages hold the same dtype, layout and contents.
pub open spec fn same_storage(a: Storage, b: Storage) -> bool {
    a.dtype == b.dtype && a.layout == b.layout && same_data(a.data, b.data)
}

impl Clone for StorageData {
    fn clone(&self) -> (r: Self)
        ensures
            same_data(r, *self),
    {
        match self {
            StorageData::Cpu(c) => StorageData::Cpu(c.clone()),
            StorageData::Cuda(c) => StorageData::Cuda(*c),
        }
    }
}

impl Clone for Storage {
    fn clone(&self) -> (r: Self)
        ensures
            same_storage(r, *self),
    {
        Storage { dtype: self.dtype, layout: self.layout, data: self.data.clone() }
    }
}

/// The device a storage's contents live on.
pub open spec fn spec_storage_device_is(s: StorageData, d: Device) -> bool {
    match s {
        StorageData::Cpu(_) => d is Cpu,
        StorageData::Cuda(c) => d matches Device::Cuda(x) && x.id() == c.device_id,
    }
}

/// What `to_device` makes of storage contents `s` for target `d`: the same
/// contents when already there; host bytes become a device allocation of
/// the same length at address 0; a device allocation becomes that many zero
/// bytes on the host; a move between two CUDA devices leaves the contents
/// where they are.
pub open spec fn spec_moved_data(s: StorageData, d: Device, r: StorageData) -> bool {
    if spec_storage_device_is(s, d) {
        same_data(r, s)
    } else {
        match (s, d) {
            (StorageData::Cpu(c), Device::Cuda(x)) =>
                r == StorageData::Cuda(CudaStorage { device_id: x.id(), ptr: 0, len: c.data@.len() as usize }),
            (StorageData::Cuda(c), Device::Cpu) =>
                r matches StorageData::Cpu(h) && h.data@ == Seq::new(c.len as nat, |i: int| 0u8),
            _ => same_data(r, s),
        }
    }
}

impl Storage {
    pub fn device(&self) -> (r: Device)
        ensures
            spec_storage_device_is(self.data, r),
    {
        match &self.data {
            StorageData::Cpu(_) => Device::Cpu,
            StorageData::Cuda(cuda) => {
                let d = CudaDevice::new(cuda.device_id);
                match d {
                    Ok(c) => Device::Cuda(c),
                    Err(_) => Device::Cpu,
                }
            }
        }
    }

    pub fn is_contiguous(&self) -> (r: bool)
        requires
            suffix_fits(self.layout.shape@),
        ensures
            r == (self.layout.stride_seq() == contiguous_strides(self.layout.shape@)),
    {
        self.layout.is_contiguous()
    }

    /// This storage moved to `device`; never fails. Host bytes become a
    /// device allocation of the same length with nothing copied, and device
    /// contents come back as zero bytes (see `spec_moved_data`).
    pub fn to_device(&self, device: &Device) -> (r: OxideResult<Storage>)
        ensures
            r matches Ok(s) && s.dtype == self.dtype && s.layout == self.layout
                && spec_moved_data(self.data, *device, s.data),
    {
        if self.device().same_device(device) {
            return Ok(self.clone());
        }
        match (&self.data, device) {
            (StorageData::Cpu(cpu), Device::Cuda(cuda)) => {
                Ok(Storage {
                    dtype: self.dtype,
                    layout: self.layout,
                    data: StorageData::Cuda(CudaStorage {
                        device_id: cuda.device_id(),
                        ptr: 0,
                        len: cpu.data.len(),
                    }),
                })
            }
            (StorageData::Cuda(cuda), Device::Cpu) => {
                let bytes = vec![0u8; cuda.len];
                proof {
                    assert(bytes@ =~= Seq::new(cuda.len as nat, |i: int| 0u8));
                }
                Ok(Storage {
                    dtype: self.dtype,
                    layout: self.layout,
                    data: StorageData::Cpu(CpuStorage { data: bytes }),
                })
            }
            _ => Ok(self.clone()),
        }
    }
}

} // verus!
