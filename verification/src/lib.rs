//! Tensor, layer and model-loading building blocks for LLM inference, with
//! their shape, layout, error-handling and file-format logic verified.
pub mod base;
pub mod cache;
pub mod cuda_backend;
pub mod error;
pub mod kernels;
pub mod layers;
pub mod loading;
pub mod ops;
pub mod pipeline;
pub mod text;
pub mod tokenizer;

use vstd::prelude::*;
use vstd::string::*;
use crate::text::{bool_text, bool_to_string, decimal, i32_to_string, signed_decimal, usize_to_string};

verus! {

/// Decides which GPU features are usable from what probing the devices
/// found.
pub struct GpuFeatureDetector;

/// The GPU features found on this machine.
#[derive(Debug)]
pub struct GpuFeatures {
    pub cuda_available: bool,
    pub device_count: usize,
    pub tensor_cores: bool,
    pub max_compute_capability: (i32, i32),
    pub supports_fp16: bool,
    pub supports_bf16: bool,
    pub supports_async_copy: bool,
}

impl Clone for GpuFeatures {
    fn clone(&self) -> (r: Self)
        ensures
            r == *self,
    {
        GpuFeatures {
            cuda_available: self.cuda_available,
            device_count: self.device_count,
            tensor_cores: self.tensor_cores,
            max_compute_capability: (self.max_compute_capability.0, self.max_compute_capability.1),
            supports_fp16: self.supports_fp16,
            supports_bf16: self.supports_bf16,
            supports_async_copy: self.supports_async_copy,
        }
    }
}

/// Compute capabilities ordered by major version, then minor version.
pub open spec fn cc_le(a: (i32, i32), b: (i32, i32)) -> bool {
    a.0 < b.0 || (a.0 == b.0 && a.1 <= b.1)
}

/// The capabilities that count: those probed, when CUDA is available.
pub open spec fn probed(cuda_available: bool, caps: Seq<Option<(i32, i32)>>) -> Seq<Option<(i32, i32)>> {
    if cuda_available { caps } else { Seq::empty() }
}

/// Some probed device reports a compute capability with major version 7 or
/// more.
pub open spec fn any_tensor_cores(p: Seq<Option<(i32, i32)>>) -> bool {
    exists|i: int| 0 <= i < p.len() && ((#[trigger] p[i]) matches Some(c) && c.0 >= 7)
}

/// `m` is the greatest of (0, 0) and the reported compute capabilities.
pub open spec fn is_max_capability(p: Seq<Option<(i32, i32)>>, m: (i32, i32)) -> bool {
    &&& cc_le((0, 0), m)
    &&& forall|i: int| 0 <= i < p.len() ==> ((#[trigger] p[i]) matches Some(c) ==> cc_le(c, m))
    &&& (m == (0i32, 0i32) || exists|i: int| 0 <= i < p.len() && p[i] == Some(m))
}

/// The one-line summary of a set of features.
pub open spec fn features_summary(f: GpuFeatures) -> Seq<char> {
    if !f.cuda_available {
        "No CUDA devices found"@
    } else {
        "CUDA: "@ + decimal(f.device_count as nat) + " device(s), CC "@
            + signed_decimal(f.max_compute_capability.0 as int) + "."@
            + signed_decimal(f.max_compute_capability.1 as int) + ", Tensor Cores: "@
            + bool_text(f.tensor_cores) + ", FP16: "@ + bool_text(f.supports_fp16) + ", BF16: "@
            + bool_text(f.supports_bf16)
    }
}

impl GpuFeatureDetector {
    /// The features of a machine where CUDA is or is not available and the
    /// devices, numbered from 0, reported the compute capabilities
    /// `capabilities` (`None` where a device could not be queried). The
    /// capabilities are ignored when CUDA is not available.
    pub fn detect(cuda_available: bool, capabilities: &[Option<(i32, i32)>]) -> (r: GpuFeatures)
        ensures
            r.cuda_available == cuda_available,
            r.device_count == probed(cuda_available, capabilities@).len(),
            r.tensor_cores == any_tensor_cores(probed(cuda_available, capabilities@)),
            is_max_capability(probed(cuda_available, capabilities@), r.max_compute_capability),
            r.supports_fp16 == r.tensor_cores,
            r.supports_bf16 == (r.tensor_cores && r.max_compute_capability.0 >= 8),
            r.supports_async_copy == (r.max_compute_capability.0 >= 8),
    {
        let device_count: usize = if cuda_available { capabilities.len() } else { 0 };
        let ghost p = probed(cuda_available, capabilities@);
        let mut tensor_cores = false;
        let mut max_cc: (i32, i32) = (0, 0);
        let mut i: usize = 0;
        while i < device_count
            invariant
                p == probed(cuda_available, capabilities@),
                device_count == p.len(),
                i <= device_count,
                tensor_cores == any_tensor_cores(p.take(i as int)),
                is_max_capability(p.take(i as int), max_cc),
            decreases device_count - i,
        {
            let ghost before = p.take(i as int);
            assert(p.take(i + 1) =~= before.push(p[i as int]));
            assert(p[i as int] == capabilities@[i as int]);
            if let Some(cc) = capabilities[i] {
                tensor_cores = tensor_cores || cc.0 >= 7;
                if cc.0 > max_cc.0 || (cc.0 == max_cc.0 && cc.1 > max_cc.1) {
                    max_cc = cc;
                }
            }
            i = i + 1;
            proof {
                let now = p.take(i as int);
                assert(now[i - 1] == p[i - 1]);
                assert forall|j: int| 0 <= j < i - 1 implies now[j] == before[j] by {}
                if tensor_cores && !any_tensor_cores(before) {
                    assert(now[i - 1] matches Some(c) && c.0 >= 7);
                }
                if any_tensor_cores(before) {
                    let j = choose|j: int| 0 <= j < before.len() && ((#[trigger] before[j]) matches Some(c) && c.0 >= 7);
                    assert(now[j] == before[j]);
                }
                if max_cc != (0i32, 0i32) {
                    if now[i - 1] != Some(max_cc) {
                        let j = choose|j: int| 0 <= j < before.len() && before[j] == Some(max_cc);
                        assert(now[j] == before[j]);
                    }
                }
            }
        }
        assert(p.take(device_count as int) =~= p);
        GpuFeatures {
            cuda_available,
            device_count,
            tensor_cores,
            max_compute_capability: max_cc,
            supports_fp16: tensor_cores,
            supports_bf16: tensor_cores && max_cc.0 >= 8,
            supports_async_copy: max_cc.0 >= 8,
        }
    }
}

impl GpuFeatures {
    /// "No CUDA devices found", or the device count, the greatest compute
    /// capability and the tensor-core, FP16 and BF16 flags on one line.
    pub fn summary(&self) -> (r: String)
        ensures
            r@ == features_summary(*self),
    {
        proof {
            reveal_strlit("No CUDA devices found");
            reveal_strlit("CUDA: ");
            reveal_strlit(" device(s), CC ");
            reveal_strlit(".");
            reveal_strlit(", Tensor Cores: ");
            reveal_strlit(", FP16: ");
            reveal_strlit(", BF16: ");
        }
        if !self.cuda_available {
            return String::from_str("No CUDA devices found");
        }
        let mut s = String::from_str("CUDA: ");
        s.append(usize_to_string(self.device_count).as_str());
        s.append(" device(s), CC ");
        s.append(i32_to_string(self.max_compute_capability.0).as_str());
        s.append(".");
        s.append(i32_to_string(self.max_compute_capability.1).as_str());
        s.append(", Tensor Cores: ");
        s.append(bool_to_string(self.tensor_cores).as_str());
        s.append(", FP16: ");
        s.append(bool_to_string(self.supports_fp16).as_str());
        s.append(", BF16: ");
        s.append(bool_to_string(self.supports_bf16).as_str());
        assert(s@ =~= features_summary(*self));
        s
    }
}

} // verus!
