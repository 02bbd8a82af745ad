//! Choosing between GPU and CPU execution.
use vstd::prelude::*;
use vstd::string::*;
use crate::base::device::Device;
use crate::base::tensor::Tensor;
use crate::error::{OxideError, OxideResult};

verus! {

/// Operations that may run on a GPU.
pub trait GpuExecutable {
    /// Check if this operation is supported on GPU; unless an operation
    /// says otherwise, it is not.
    fn supports_gpu(&self) -> (r: bool)
        default_ensures
            r == false,
    {
        false
    }

    /// Execute on GPU if available, otherwise fall back to CPU
    fn execute_gpu(&self, inputs: &[&Tensor], output: &mut Tensor) -> OxideResult<()>;
}

/// Decides whether operations run on the GPU.
pub struct GpuOpDispatcher {
    device: Device,
    use_gpu: bool,
}

impl GpuOpDispatcher {
    /// The device operations are dispatched for.
    pub closed spec fn spec_device(&self) -> Device {
        self.device
    }

    /// Whether the GPU implementation is chosen.
    pub closed spec fn spec_use_gpu(&self) -> bool {
        self.use_gpu
    }

    /// Uses the GPU exactly when the device is a CUDA device.
    pub fn new(device: &Device) -> (r: Self)
        ensures
            r.spec_device() == *device,
            r.spec_use_gpu() == (*device is Cuda),
    {
        Self { device: device.clone(), use_gpu: device.is_cuda() }
    }

    /// Uses the GPU when asked to and the device is a CUDA device.
    pub fn with_gpu(device: &Device, use_gpu: bool) -> (r: Self)
        ensures
            r.spec_device() == *device,
            r.spec_use_gpu() == (use_gpu && *device is Cuda),
    {
        Self { device: device.clone(), use_gpu: use_gpu && device.is_cuda() }
    }

    /// Runs an operation. No GPU kernel is launched: on either choice the
    /// CPU implementation runs on the inputs and the output, and its result
    /// is returned; the GPU implementation is never called.
    pub fn execute<F, G>(&self, inputs: &[&Tensor], output: &mut Tensor, cpu_impl: F, _gpu_impl: G) -> (r: OxideResult<()>)
        where
            F: FnOnce(&[&Tensor], &mut Tensor) -> OxideResult<()>,
            G: FnOnce(&[&Tensor], &mut Tensor) -> OxideResult<()>,
        requires
            forall|o: &mut Tensor| *o == *old(output) ==> call_requires(cpu_impl, (inputs, o)),
        ensures
            exists|o: &mut Tensor| *o == *old(output) && *final(o) == *final(output)
                && call_ensures(cpu_impl, (inputs, o), r),
    {
        let out: &mut Tensor = output;
        if self.use_gpu {
            cpu_impl(inputs, out)
        } else {
            cpu_impl(inputs, out)
        }
    }

    pub fn device(&self) -> (r: &Device)
        ensures
            *r == self.spec_device(),
    {
        &self.device
    }

    pub fn use_gpu(&self) -> (r: bool)
        ensures
            r == self.spec_use_gpu(),
    {
        self.use_gpu
    }
}

/// Falls back to the CPU when the GPU cannot run an operation.
pub trait GpuFallback: GpuExecutable {
    /// Runs on the GPU when the operation supports it and every input is on a
    /// CUDA device, giving `execute_gpu`'s result; otherwise fails with
    /// `InvalidArgument("GPU not supported, using CPU fallback")`.
    fn execute_with_fallback(&self, inputs: &[&Tensor], output: &mut Tensor) -> (r: OxideResult<()>)
        ensures
            (exists|i: int| 0 <= i < inputs@.len() && #[trigger] inputs@[i]@.data is Cpu)
                ==> (r matches Err(OxideError::InvalidArgument(m)) && m@ == "GPU not supported, using CPU fallback"@),
            (forall|i: int| 0 <= i < inputs@.len() ==> #[trigger] inputs@[i]@.data is Cuda) ==> exists|b: bool| {
                &&& call_ensures(Self::supports_gpu, (self,), b)
                &&& !b ==> (r matches Err(OxideError::InvalidArgument(m))
                    && m@ == "GPU not supported, using CPU fallback"@)
                &&& b ==> exists|o: &mut Tensor| *o == *old(output) && *final(o) == *final(output)
                    && call_ensures(Self::execute_gpu, (self, inputs, o), r)
            },
    {
        let mut all_cuda = true;
        let mut i: usize = 0;
        while i < inputs.len()
            invariant
                i <= inputs@.len(),
                all_cuda == (forall|j: int| 0 <= j < i ==> #[trigger] inputs@[j]@.data is Cuda),
            decreases inputs@.len() - i,
        {
            all_cuda = all_cuda && inputs[i].device().is_cuda();
            i = i + 1;
        }
        proof {
            if exists|i: int| 0 <= i < inputs@.len() && #[trigger] inputs@[i]@.data is Cpu {
                let i = choose|i: int| 0 <= i < inputs@.len() && #[trigger] inputs@[i]@.data is Cpu;
                assert(!(inputs@[i]@.data is Cuda));
                assert(!all_cuda);
            }
        }
        if self.supports_gpu() && all_cuda {
            self.execute_gpu(inputs, output)
        } else {
            let m = String::from_str("GPU not supported, using CPU fallback");
            proof {
                reveal_strlit("GPU not supported, using CPU fallback");
            }
            Err(OxideError::InvalidArgument(m))
        }
    }
}

} // verus!
