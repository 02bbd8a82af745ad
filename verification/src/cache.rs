//! The key/value cache of an attention stack: one key and one value tensor
//! per layer, sized for the longest sequence, and the length filled so far.
use vstd::prelude::*;
use vstd::string::*;
use crate::base::device::Device;
use crate::base::dtype::{DType, Shape, contiguous_strides, prod};
use crate::base::storage::Storage;
use crate::base::tensor::{Tensor, alloc_fits, zero_data};
use crate::error::{OxideError, OxideResult};
use crate::text::{decimal, usize_to_string};

verus! {

/// A contiguous zero-filled `F32` tensor with dimensions `dims` on `device`.
pub open spec fn is_zero_block(s: Storage, dims: Seq<usize>, device: Device) -> bool {
    &&& s.dtype == DType::F32
    &&& s.layout.shape@ == dims
    &&& s.layout.stride_seq() == contiguous_strides(dims)
    &&& s.layout.offset == 0
    &&& zero_data(prod(dims) * 4, device, s.data)
}

/// The message of an update for a layer the cache does not have.
pub open spec fn layer_message(layer: nat, layers: nat) -> Seq<char> {
    "Layer index "@ + decimal(layer) + " out of range for "@ + decimal(layers) + " layers"@
}

/// The message of an update that would pass the longest sequence.
pub open spec fn overflow_message(end: nat, max: nat) -> Seq<char> {
    "KV cache overflow: "@ + decimal(end) + " > "@ + decimal(max)
}

/// Bytes held by the cache: a key and a value tensor of `F32` per layer.
pub open spec fn cache_bytes(batch: nat, heads: nat, max_len: nat, head_dim: nat, layers: nat) -> nat {
    2 * batch * heads * max_len * head_dim * 4 * layers
}

/// Every running product in computing `cache_bytes`, from the left, fits in
/// a `usize`.
pub open spec fn cache_bytes_fit(batch: nat, heads: nat, max_len: nat, head_dim: nat, layers: nat) -> bool {
    &&& 2 * batch <= usize::MAX
    &&& 2 * batch * heads <= usize::MAX
    &&& 2 * batch * heads * max_len <= usize::MAX
    &&& 2 * batch * heads * max_len * head_dim <= usize::MAX
    &&& 2 * batch * heads * max_len * head_dim * 4 <= usize::MAX
    &&& cache_bytes(batch, heads, max_len, head_dim, layers) <= usize::MAX
}

pub struct KVCache {
    k_cache: Vec<Tensor>,
    v_cache: Vec<Tensor>,
    current_seq_len: usize,
    max_seq_len: usize,
    num_layers: usize,
    num_kv_heads: usize,
    head_dim: usize,
    batch_size: usize,
}

impl KVCache {
    /// One key and one value tensor per layer, and the filled length never
    /// passes the longest sequence.
    #[verifier::type_invariant]
    closed spec fn wf(self) -> bool {
        &&& self.k_cache@.len() == self.num_layers
        &&& self.v_cache@.len() == self.num_layers
        &&& self.current_seq_len <= self.max_seq_len
    }

    pub closed spec fn spec_current(&self) -> usize {
        self.current_seq_len
    }

    pub closed spec fn spec_max(&self) -> usize {
        self.max_seq_len
    }

    pub closed spec fn spec_layers(&self) -> usize {
        self.num_layers
    }

    pub closed spec fn spec_heads(&self) -> usize {
        self.num_kv_heads
    }

    pub closed spec fn spec_head_dim(&self) -> usize {
        self.head_dim
    }

    pub closed spec fn spec_batch(&self) -> usize {
        self.batch_size
    }

    pub closed spec fn keys(&self) -> Seq<Tensor> {
        self.k_cache@
    }

    pub closed spec fn values(&self) -> Seq<Tensor> {
        self.v_cache@
    }

    /// The dimensions of every cached tensor: batch, heads, longest
    /// sequence, head size.
    pub open spec fn block_dims(&self) -> Seq<usize> {
        seq![self.spec_batch(), self.spec_heads(), self.spec_max(), self.spec_head_dim()]
    }

    /// An empty cache: for each of `num_layers` layers a zero key and a zero
    /// value tensor of dimensions `[batch_size, num_kv_heads, max_seq_len,
    /// head_dim]` on `device`; never fails.
    pub fn new(
        num_layers: usize,
        batch_size: usize,
        num_kv_heads: usize,
        head_dim: usize,
        max_seq_len: usize,
        device: &Device,
    ) -> (r: OxideResult<Self>)
        requires
            alloc_fits(seq![batch_size, num_kv_heads, max_seq_len, head_dim], DType::F32),
        ensures
            r matches Ok(c) && {
                &&& c.spec_current() == 0
                &&& c.spec_max() == max_seq_len
                &&& c.spec_layers() == num_layers
                &&& c.spec_heads() == num_kv_heads
                &&& c.spec_head_dim() == head_dim
                &&& c.spec_batch() == batch_size
                &&& c.keys().len() == num_layers
                &&& c.values().len() == num_layers
                &&& forall|i: int| 0 <= i < num_layers ==> is_zero_block((#[trigger] c.keys()[i])@, c.block_dims(), *device)
                &&& forall|i: int| 0 <= i < num_layers ==> is_zero_block((#[trigger] c.values()[i])@, c.block_dims(), *device)
            },
    {
        let ghost dims = seq![batch_size, num_kv_heads, max_seq_len, head_dim];
        let mut k_cache: Vec<Tensor> = Vec::new();
        let mut v_cache: Vec<Tensor> = Vec::new();
        let mut i: usize = 0;
        while i < num_layers
            invariant
                i <= num_layers,
                dims == seq![batch_size, num_kv_heads, max_seq_len, head_dim],
                alloc_fits(dims, DType::F32),
                k_cache@.len() == i,
                v_cache@.len() == i,
                forall|j: int| 0 <= j < i ==> is_zero_block((#[trigger] k_cache@[j])@, dims, *device),
                forall|j: int| 0 <= j < i ==> is_zero_block((#[trigger] v_cache@[j])@, dims, *device),
            decreases num_layers - i,
        {
            let shape = Shape::new(&[batch_size, num_kv_heads, max_seq_len, head_dim]);
            assert(shape@ =~= dims);
            let k = match Tensor::zeros(shape, DType::F32, device) {
                Ok(t) => t,
                Err(e) => return Err(e),
            };
            let v = match Tensor::zeros(shape, DType::F32, device) {
                Ok(t) => t,
                Err(e) => return Err(e),
            };
            k_cache.push(k);
            v_cache.push(v);
            i = i + 1;
        }
        Ok(Self {
            k_cache,
            v_cache,
            current_seq_len: 0,
            max_seq_len,
            num_layers,
            num_kv_heads,
            head_dim,
            batch_size,
        })
    }

    /// Records `key.dims()[2]` more positions for layer `layer_idx`: refused
    /// when the layer is out of range or the filled length would pass the
    /// longest sequence; otherwise the filled length grows by that many.
    /// The cached tensors themselves are left as they are.
    pub fn update(&mut self, layer_idx: usize, key: &Tensor, value: &Tensor) -> (r: OxideResult<()>)
        requires
            layer_idx < old(self).spec_layers() ==> key.spec_dims().len() >= 3,
            layer_idx < old(self).spec_layers() ==> old(self).spec_current() + key.spec_dims()[2] <= usize::MAX,
        ensures
            final(self).spec_max() == old(self).spec_max(),
            final(self).spec_layers() == old(self).spec_layers(),
            final(self).spec_heads() == old(self).spec_heads(),
            final(self).spec_head_dim() == old(self).spec_head_dim(),
            final(self).spec_batch() == old(self).spec_batch(),
            final(self).keys() == old(self).keys(),
            final(self).values() == old(self).values(),
            layer_idx >= old(self).spec_layers() ==> (r matches Err(OxideError::InvalidArgument(m))
                && m@ == layer_message(layer_idx as nat, old(self).spec_layers() as nat)
                && final(self).spec_current() == old(self).spec_current()),
            layer_idx < old(self).spec_layers() && old(self).spec_current() + key.spec_dims()[2] > old(self).spec_max()
                ==> (r matches Err(OxideError::InvalidArgument(m))
                && m@ == overflow_message((old(self).spec_current() + key.spec_dims()[2]) as nat, old(self).spec_max() as nat)
                && final(self).spec_current() == old(self).spec_current()),
            layer_idx < old(self).spec_layers() && old(self).spec_current() + key.spec_dims()[2] <= old(self).spec_max()
                ==> (r is Ok && final(self).spec_current() == old(self).spec_current() + key.spec_dims()[2]),
    {
        proof {
            reveal_strlit("Layer index ");
            reveal_strlit(" out of range for ");
            reveal_strlit(" layers");
            reveal_strlit("KV cache overflow: ");
            reveal_strlit(" > ");
        }
        proof {
            use_type_invariant(&*self);
        }
        if layer_idx >= self.num_layers {
            let mut m = String::from_str("Layer index ");
            m.append(usize_to_string(layer_idx).as_str());
            m.append(" out of range for ");
            m.append(usize_to_string(self.num_layers).as_str());
            m.append(" layers");
            return Err(OxideError::InvalidArgument(m));
        }
        let key_seq_len = key.dims()[2];
        let end_pos = self.current_seq_len + key_seq_len;
        if end_pos > self.max_seq_len {
            let mut m = String::from_str("KV cache overflow: ");
            m.append(usize_to_string(end_pos).as_str());
            m.append(" > ");
            m.append(usize_to_string(self.max_seq_len).as_str());
            return Err(OxideError::InvalidArgument(m));
        }
        self.current_seq_len = end_pos;
        Ok(())
    }

    /// The filled length, which never passes the longest sequence.
    pub fn current_seq_len(&self) -> (r: usize)
        ensures
            r == self.spec_current(),
            r <= self.spec_max(),
    {
        proof {
            use_type_invariant(self);
        }
        self.current_seq_len
    }

    pub fn max_seq_len(&self) -> (r: usize)
        ensures
            r == self.spec_max(),
    {
        self.max_seq_len
    }

    pub fn num_layers(&self) -> (r: usize)
        ensures
            r == self.spec_layers(),
    {
        self.num_layers
    }

    /// Empties the cache: the filled length goes back to zero.
    pub fn clear(&mut self)
        ensures
            final(self).spec_current() == 0,
            final(self).spec_max() == old(self).spec_max(),
            final(self).spec_layers() == old(self).spec_layers(),
            final(self).spec_heads() == old(self).spec_heads(),
            final(self).spec_head_dim() == old(self).spec_head_dim(),
            final(self).spec_batch() == old(self).spec_batch(),
            final(self).keys() == old(self).keys(),
            final(self).values() == old(self).values(),
    {
        proof {
            use_type_invariant(&*self);
        }
        self.current_seq_len = 0;
    }

    /// Whether the filled length has reached the longest sequence.
    pub fn is_full(&self) -> (r: bool)
        ensures
            r == (self.spec_current() >= self.spec_max()),
    {
        self.current_seq_len >= self.max_seq_len
    }

    /// The bytes the cache holds: two `F32` tensors per layer.
    pub fn get_cache_size(&self) -> (r: usize)
        requires
            cache_bytes_fit(
                self.spec_batch() as nat,
                self.spec_heads() as nat,
                self.spec_max() as nat,
                self.spec_head_dim() as nat,
                self.spec_layers() as nat,
            ),
        ensures
            r == cache_bytes(
                self.spec_batch() as nat,
                self.spec_heads() as nat,
                self.spec_max() as nat,
                self.spec_head_dim() as nat,
                self.spec_layers() as nat,
            ),
    {
        let elem_size: usize = 4;
        let a = 2 * self.batch_size;
        let b = a * self.num_kv_heads;
        let c = b * self.max_seq_len;
        let d = c * self.head_dim;
        let cache_per_layer = d * elem_size;
        cache_per_layer * self.num_layers
    }
}

} // verus!
