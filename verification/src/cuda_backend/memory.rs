//! Host-side memory helpers and memory statistics.
use vstd::prelude::*;
use vstd::string::*;
use crate::base::dtype::{DType, spec_size_in_bytes};
use crate::error::{OxideError, OxideResult};

verus! {

/// Memory statistics
#[derive(Debug, Clone)]
pub struct MemoryStats {
    pub used_bytes: usize,
    pub peak_bytes: usize,
    pub device_id: usize,
}

/// Keeps count of the device memory handed out for one device: the bytes in
/// use and the most ever in use.
pub struct GpuMemoryPool {
    device_id: usize,
    used_bytes: usize,
    peak_bytes: usize,
}

impl GpuMemoryPool {
    /// The peak never falls below the bytes in use.
    #[verifier::type_invariant]
    closed spec fn peak_covers_use(self) -> bool {
        self.used_bytes <= self.peak_bytes
    }

    pub closed spec fn spec_device_id(&self) -> usize {
        self.device_id
    }

    pub closed spec fn spec_used(&self) -> usize {
        self.used_bytes
    }

    pub closed spec fn spec_peak(&self) -> usize {
        self.peak_bytes
    }

    /// An empty pool for device `device_id`; never fails.
    pub fn new(device_id: usize) -> (r: OxideResult<Self>)
        ensures
            r matches Ok(p) && p.spec_device_id() == device_id && p.spec_used() == 0 && p.spec_peak() == 0,
    {
        Ok(Self { device_id, used_bytes: 0, peak_bytes: 0 })
    }

    /// Books the outcome of asking the device for `size_bytes` bytes: a
    /// buffer counts its bytes as in use (raising the peak when it passes
    /// it) and is handed back; a refusal becomes a `CudaError` and changes
    /// nothing.
    pub fn allocate<B>(&mut self, size_bytes: usize, outcome: Result<B, String>) -> (r: OxideResult<B>)
        requires
            old(self).spec_used() + size_bytes <= usize::MAX,
        ensures
            final(self).spec_device_id() == old(self).spec_device_id(),
            match outcome {
                Ok(b) => r == Ok::<B, OxideError>(b) && final(self).spec_used() == old(self).spec_used() + size_bytes
                    && final(self).spec_peak() == (if old(self).spec_used() + size_bytes > old(self).spec_peak() {
                        (old(self).spec_used() + size_bytes) as usize
                    } else {
                        old(self).spec_peak()
                    }),
                Err(e) => (r matches Err(OxideError::CudaError(m)) && m@ == "Allocation failed: "@ + e@)
                    && final(self).spec_used() == old(self).spec_used() && final(self).spec_peak() == old(self).spec_peak(),
            },
    {
        match outcome {
            Ok(b) => {
                let used = self.used_bytes + size_bytes;
                let peak = if used > self.peak_bytes { used } else { self.peak_bytes };
                self.peak_bytes = peak;
                self.used_bytes = used;
                Ok(b)
            },
            Err(e) => {
                let mut m = String::from_str("Allocation failed: ");
                m.append(e.as_str());
                proof {
                    reveal_strlit("Allocation failed: ");
                }
                Err(OxideError::CudaError(m))
            },
        }
    }

    /// Books the outcome of asking for `num_elements` elements of `dtype`.
    pub fn allocate_for_tensor<B>(&mut self, num_elements: usize, dtype: DType, outcome: Result<B, String>) -> (r: OxideResult<B>)
        requires
            num_elements * spec_size_in_bytes(dtype) <= usize::MAX,
            old(self).spec_used() + num_elements * spec_size_in_bytes(dtype) <= usize::MAX,
        ensures
            final(self).spec_device_id() == old(self).spec_device_id(),
            match outcome {
                Ok(b) => r == Ok::<B, OxideError>(b)
                    && final(self).spec_used() == old(self).spec_used() + num_elements * spec_size_in_bytes(dtype),
                Err(e) => (r matches Err(OxideError::CudaError(m)) && m@ == "Allocation failed: "@ + e@)
                    && final(self).spec_used() == old(self).spec_used(),
            },
    {
        let size = num_elements * dtype.size_in_bytes();
        self.allocate(size, outcome)
    }

    /// Books the outcome of asking for a typed buffer: the buffer is handed
    /// back without being counted; a refusal becomes a `CudaError`. The pool
    /// is unchanged either way.
    pub fn allocate_typed<B>(&mut self, outcome: Result<B, String>) -> (r: OxideResult<B>)
        ensures
            final(self).spec_device_id() == old(self).spec_device_id(),
            final(self).spec_used() == old(self).spec_used(),
            final(self).spec_peak() == old(self).spec_peak(),
            match outcome {
                Ok(b) => r == Ok::<B, OxideError>(b),
                Err(e) => r matches Err(OxideError::CudaError(m)) && m@ == "Allocation failed: "@ + e@,
            },
    {
        match outcome {
            Ok(b) => Ok(b),
            Err(e) => {
                let mut m = String::from_str("Allocation failed: ");
                m.append(e.as_str());
                proof {
                    reveal_strlit("Allocation failed: ");
                }
                Err(OxideError::CudaError(m))
            },
        }
    }

    /// Gives a buffer back: it is dropped, and the counts are unchanged.
    pub fn free<B>(&mut self, buffer: B)
        ensures
            final(self).spec_device_id() == old(self).spec_device_id(),
            final(self).spec_used() == old(self).spec_used(),
            final(self).spec_peak() == old(self).spec_peak(),
    {
        let _ = buffer;
    }

    /// The bytes in use, the peak and the device.
    pub fn stats(&self) -> (r: MemoryStats)
        ensures
            r.used_bytes == self.spec_used(),
            r.peak_bytes == self.spec_peak(),
            r.device_id == self.spec_device_id(),
            r.used_bytes <= r.peak_bytes,
    {
        proof {
            use_type_invariant(self);
        }
        MemoryStats { used_bytes: self.used_bytes, peak_bytes: self.peak_bytes, device_id: self.device_id }
    }
}

/// Page-locked host memory (allocated as ordinary host memory).
pub struct PinnedMemory {
    _marker: std::marker::PhantomData<u8>,
}

impl PinnedMemory {
    /// `size_bytes` zero bytes; never fails.
    pub fn allocate(size_bytes: usize) -> (r: OxideResult<Vec<u8>>)
        ensures
            r matches Ok(v) && v@ == Seq::new(size_bytes as nat, |i: int| 0u8),
    {
        let v = vec![0u8; size_bytes];
        assert(v@ =~= Seq::new(size_bytes as nat, |i: int| 0u8));
        Ok(v)
    }

    /// Zero bytes for `num_elements` elements of `dtype`.
    pub fn allocate_for_tensor(num_elements: usize, dtype: DType) -> (r: OxideResult<Vec<u8>>)
        requires
            num_elements * spec_size_in_bytes(dtype) <= usize::MAX,
        ensures
            r matches Ok(v) && v@ == Seq::new((num_elements * spec_size_in_bytes(dtype)) as nat, |i: int| 0u8),
    {
        Self::allocate(num_elements * dtype.size_in_bytes())
    }
}

} // verus!
