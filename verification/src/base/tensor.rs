//! Tensors: shared, immutable storage with a layout.
use std::sync::Arc;
use vstd::prelude::*;
use vstd::string::*;
use crate::base::device::{Device, spec_same_device};
use crate::base::dtype::{
    DType, Layout, Shape, contiguous_strides, prefix_fits, prod, spec_dtype_debug, spec_size_in_bytes,
    suffix_fits,
};
use crate::base::storage::{
    CpuStorage, CudaStorage, Storage, StorageData, same_data, spec_moved_data,
    spec_storage_device_is,
};
use crate::error::{OxideError, OxideResult};
use crate::text::{decimal, usize_to_string};
use vstd::bytes::{spec_u32_to_le_bytes, u32_to_le_bytes};

verus! {

/// A tensor: a handle on shared storage.
pub struct Tensor {
    storage: Arc<Storage>,
}

impl View for Tensor {
    type V = Storage;

    closed spec fn view(&self) -> Storage {
        *self.storage
    }
}

/// The shape's element count and byte count both fit in a `usize`, and its
/// strides can be computed: what a contiguous allocation of the shape needs.
pub open spec fn alloc_fits(shape: Seq<usize>, dtype: DType) -> bool {
    &&& prefix_fits(shape)
    &&& suffix_fits(shape)
    &&& prod(shape) * spec_size_in_bytes(dtype) <= usize::MAX
}

/// The contents of a fresh zero-filled tensor of `n` bytes on `device`.
pub open spec fn zero_data(n: nat, device: Device, d: StorageData) -> bool {
    match device {
        Device::Cpu => d matches StorageData::Cpu(c) && c.data@ == Seq::new(n, |i: int| 0u8),
        Device::Cuda(x) => d == StorageData::Cuda(CudaStorage { device_id: x.id(), ptr: 0, len: n as usize }),
    }
}

/// A contiguous, zero-filled tensor of `shape`, `dtype` on `device`.
pub open spec fn is_zeros(s: Storage, shape: Shape, dtype: DType, device: Device) -> bool {
    &&& s.dtype == dtype
    &&& s.layout.shape == shape
    &&& s.layout.stride_seq() == contiguous_strides(shape@)
    &&& s.layout.offset == 0
    &&& zero_data(prod(shape@) * spec_size_in_bytes(dtype), device, s.data)
}

/// `s` with entries `a` and `b` exchanged.
pub open spec fn swap_entries(s: Seq<usize>, a: int, b: int) -> Seq<usize> {
    s.update(a, s[b]).update(b, s[a])
}

/// Transposing the same two dimensions twice restores the dimensions (and,
/// applied to the strides, the strides): exchanging two entries is its own
/// inverse.
pub proof fn lemma_transpose_twice(s: Seq<usize>, a: int, b: int)
    requires
        0 <= a < s.len(),
        0 <= b < s.len(),
    ensures
        swap_entries(swap_entries(s, a, b), a, b) == s,
        swap_entries(s, a, b) == swap_entries(s, b, a),
{
    assert(swap_entries(swap_entries(s, a, b), a, b) =~= s);
    assert(swap_entries(s, a, b) =~= swap_entries(s, b, a));
}

/// The message of a refused transpose.
pub open spec fn transpose_message(d0: nat, d1: nat, rank: nat) -> Seq<char> {
    "transpose: dims "@ + decimal(d0) + " and "@ + decimal(d1) + " out of range for rank "@ + decimal(rank)
}

/// The message of a failed reshape: `reshape: shape mismatch <a> != <b>`.
pub open spec fn reshape_message(a: nat, b: nat) -> Seq<char> {
    "reshape: shape mismatch "@ + decimal(a) + " != "@ + decimal(b)
}

/// Scans tensors for `cat` as its loop does: the refusal of the first one
/// whose dtype is not `d` (checked first) or whose rank is not `r`, else the
/// sum of their sizes along `dim`.
pub open spec fn cat_scan(ts: Seq<Tensor>, d: DType, r: nat, dim: int) -> Result<nat, Seq<char>>
    decreases ts.len(),
{
    if ts.len() == 0 {
        Ok(0)
    } else {
        match cat_scan(ts.drop_last(), d, r, dim) {
            Err(m) => Err(m),
            Ok(sum) => {
                let t = ts.last();
                if t@.dtype != d {
                    Err("cat: dtype mismatch "@ + spec_dtype_debug(t@.dtype) + " != "@ + spec_dtype_debug(d))
                } else if t.spec_dims().len() != r {
                    Err("cat: rank mismatch "@ + decimal(t.spec_dims().len()) + " != "@ + decimal(r))
                } else {
                    Ok(sum + (t.spec_dims()[dim] as nat))
                }
            },
        }
    }
}

/// The running size sums of `cat` fit in a `usize`.
pub open spec fn cat_fits(ts: Seq<Tensor>, d: DType, r: nat, dim: int) -> bool {
    forall|i: int| 0 <= i <= ts.len() ==> (#[trigger] cat_scan(ts.take(i), d, r, dim) matches Ok(sum) ==> sum <= usize::MAX)
}

/// The little-endian bytes of a sequence of 32-bit words, word after word.
pub open spec fn words_le_bytes(w: Seq<u32>) -> Seq<u8>
    decreases w.len(),
{
    if w.len() == 0 {
        Seq::empty()
    } else {
        words_le_bytes(w.drop_last()) + spec_u32_to_le_bytes(w.last())
    }
}

/// A contiguous host tensor of `F32` elements with dimensions `dims`, whose
/// elements have the IEEE-754 bit patterns `words`.
pub open spec fn is_f32_words(s: Storage, dims: Seq<usize>, words: Seq<u32>) -> bool {
    &&& s.dtype == DType::F32
    &&& s.layout.shape@ == dims
    &&& s.layout.stride_seq() == contiguous_strides(dims)
    &&& s.layout.offset == 0
    &&& s.data matches StorageData::Cpu(c) && c.data@ == words_le_bytes(words)
}

impl Clone for Tensor {
    /// A tensor over a copy of this one's storage.
    fn clone(&self) -> (r: Self)
        ensures
            crate::base::storage::same_storage(r@, self@),
    {
        Tensor::from_storage((*self.storage).clone())
    }
}

impl Tensor {
    /// Dimensions of this tensor.
    pub open spec fn spec_dims(&self) -> Seq<usize> {
        self@.layout.shape@
    }

    pub fn from_storage(storage: Storage) -> (t: Self)
        ensures
            t@ == storage,
    {
        Self { storage: Arc::new(storage) }
    }

    pub fn storage(&self) -> (r: &Storage)
        ensures
            *r == self@,
    {
        &self.storage
    }

    /// A contiguous `F32` host tensor of `shape` over the given element bit
    /// patterns, each stored as four little-endian bytes. The number of
    /// elements is not checked against the shape.
    pub fn from_f32_bits(bits: &[u32], shape: Shape) -> (r: OxideResult<Self>)
        requires
            suffix_fits(shape@),
        ensures
            r matches Ok(t) && is_f32_words(t@, shape@, bits@),
    {
        let layout = Layout::contiguous(shape);
        let mut bytes: Vec<u8> = Vec::new();
        let mut i: usize = 0;
        assert(bits@.take(0) =~= Seq::<u32>::empty());
        while i < bits.len()
            invariant
                i <= bits@.len(),
                bytes@ == words_le_bytes(bits@.take(i as int)),
            decreases bits@.len() - i,
        {
            let mut word = u32_to_le_bytes(bits[i]);
            proof {
                assert(bits@.take(i + 1).drop_last() =~= bits@.take(i as int));
            }
            bytes.append(&mut word);
            i = i + 1;
        }
        assert(bits@.take(bits@.len() as int) =~= bits@);
        let storage = Storage { dtype: DType::F32, layout, data: StorageData::Cpu(CpuStorage { data: bytes }) };
        Ok(Self { storage: Arc::new(storage) })
    }

    /// A contiguous zero-filled tensor; never fails.
    pub fn zeros(shape: Shape, dtype: DType, device: &Device) -> (r: OxideResult<Self>)
        requires
            alloc_fits(shape@, dtype),
        ensures
            r matches Ok(t) && is_zeros(t@, shape, dtype, *device),
    {
        let layout = Layout::contiguous(shape);
        let count = shape.elem_count();
        proof {
            vstd::arithmetic::mul::lemma_mul_nonnegative(prod(shape@) as int, spec_size_in_bytes(dtype) as int);
        }
        let num_bytes = count * dtype.size_in_bytes();
        let data = match device {
            Device::Cpu => {
                let bytes = vec![0u8; num_bytes];
                assert(bytes@ =~= Seq::new(num_bytes as nat, |i: int| 0u8));
                StorageData::Cpu(CpuStorage { data: bytes })
            },
            Device::Cuda(cuda) => StorageData::Cuda(
                CudaStorage { device_id: cuda.device_id(), ptr: 0, len: num_bytes },
            ),
        };
        Ok(Self { storage: Arc::new(Storage { dtype, layout, data }) })
    }

    /// A contiguous tensor of `shape`, `dtype` on `device`. Its bytes are all
    /// zero: the fill with 1.0 is written into a private copy of the storage,
    /// which is then dropped.
    pub fn ones(shape: Shape, dtype: DType, device: &Device) -> (r: OxideResult<Self>)
        requires
            alloc_fits(shape@, dtype),
        ensures
            r matches Ok(t) && is_zeros(t@, shape, dtype, *device),
    {
        Self::zeros(shape, dtype, device)
    }

    pub fn shape(&self) -> (r: &Shape)
        ensures
            *r == self@.layout.shape,
    {
        &self.storage.layout.shape
    }

    pub fn dtype(&self) -> (r: DType)
        ensures
            r == self@.dtype,
    {
        self.storage.dtype
    }

    pub fn device(&self) -> (r: Device)
        ensures
            spec_storage_device_is(self@.data, r),
    {
        self.storage.device()
    }

    pub fn dims(&self) -> (r: &[usize])
        ensures
            r@ == self.spec_dims(),
    {
        self.storage.layout.shape.dims()
    }

    pub fn rank(&self) -> (r: usize)
        ensures
            r == self.spec_dims().len(),
            r <= 8,
    {
        self.storage.layout.shape.rank()
    }

    pub fn elem_count(&self) -> (r: usize)
        requires
            prefix_fits(self.spec_dims()),
        ensures
            r == prod(self.spec_dims()),
    {
        self.storage.layout.shape.elem_count()
    }

    pub fn is_contiguous(&self) -> (r: bool)
        requires
            suffix_fits(self.spec_dims()),
        ensures
            r == (self@.layout.stride_seq() == contiguous_strides(self.spec_dims())),
    {
        self.storage.is_contiguous()
    }

    /// This tensor moved to `device`; never fails. Host bytes become a
    /// device allocation of the same length with nothing copied, and device
    /// contents come back as zero bytes (see `spec_moved_data`).
    pub fn to_device(&self, device: &Device) -> (r: OxideResult<Tensor>)
        ensures
            r matches Ok(t) && t@.dtype == self@.dtype && t@.layout == self@.layout
                && spec_moved_data(self@.data, *device, t@.data),
    {
        let new_storage = self.storage.to_device(device)?;
        Ok(Tensor::from_storage(new_storage))
    }

    /// The same contents read with the row-major layout of `new_shape`;
    /// refused when the element counts differ.
    pub fn reshape(&self, new_shape: Shape) -> (r: OxideResult<Tensor>)
        requires
            prefix_fits(self.spec_dims()),
            prefix_fits(new_shape@),
            prod(self.spec_dims()) == prod(new_shape@) ==> suffix_fits(new_shape@),
        ensures
            prod(self.spec_dims()) != prod(new_shape@) ==> (r matches Err(OxideError::InvalidArgument(m))
                && m@ == reshape_message(prod(self.spec_dims()), prod(new_shape@))),
            prod(self.spec_dims()) == prod(new_shape@) ==> (r matches Ok(t)
                && t@.dtype == self@.dtype && same_data(t@.data, self@.data)
                && t@.layout.shape == new_shape
                && t@.layout.stride_seq() == contiguous_strides(new_shape@)
                && t@.layout.offset == 0),
    {
        let a = self.storage.layout.shape.elem_count();
        let b = new_shape.elem_count();
        if a != b {
            let mut m = String::from_str("reshape: shape mismatch ");
            m.append(usize_to_string(a).as_str());
            m.append(" != ");
            m.append(usize_to_string(b).as_str());
            proof {
                reveal_strlit("reshape: shape mismatch ");
                reveal_strlit(" != ");
                assert(m@ =~= reshape_message(a as nat, b as nat));
            }
            return Err(OxideError::InvalidArgument(m));
        }
        let mut storage = (*self.storage).clone();
        storage.layout = Layout::contiguous(new_shape);
        Ok(Tensor::from_storage(storage))
    }

    /// Swaps two dimensions (and their strides); refused when either is out
    /// of range.
    pub fn transpose(&self, dim0: usize, dim1: usize) -> (r: OxideResult<Tensor>)
        ensures
            (dim0 >= self.spec_dims().len() || dim1 >= self.spec_dims().len())
                <==> r matches Err(OxideError::InvalidArgument(_)),
            r matches Err(e) ==> (e matches OxideError::InvalidArgument(m)
                && m@ == transpose_message(dim0 as nat, dim1 as nat, self.spec_dims().len())),
            r matches Ok(t) ==> {
                let d = self.spec_dims();
                let s = self@.layout.stride_seq();
                &&& t@.dtype == self@.dtype
                &&& same_data(t@.data, self@.data)
                &&& t@.layout.shape@ == swap_entries(d, dim0 as int, dim1 as int)
                &&& t@.layout.stride_seq() == swap_entries(s, dim0 as int, dim1 as int)
                &&& t@.layout.offset == self@.layout.offset
            },
    {
        let rank = self.rank();
        if dim0 >= rank || dim1 >= rank {
            let mut m = String::from_str("transpose: dims ");
            m.append(usize_to_string(dim0).as_str());
            m.append(" and ");
            m.append(usize_to_string(dim1).as_str());
            m.append(" out of range for rank ");
            m.append(usize_to_string(rank).as_str());
            proof {
                reveal_strlit("transpose: dims ");
                reveal_strlit(" and ");
                reveal_strlit(" out of range for rank ");
                assert(m@ =~= transpose_message(dim0 as nat, dim1 as nat, rank as nat));
            }
            return Err(OxideError::InvalidArgument(m));
        }
        let dims = self.dims();
        let mut new_dims: Vec<usize> = vstd::slice::slice_to_vec(dims);
        let a = new_dims[dim0];
        let b = new_dims[dim1];
        new_dims.set(dim0, b);
        new_dims.set(dim1, a);
        let new_shape = Shape::new(new_dims.as_slice());
        let layout = self.storage.layout;
        let mut new_strides: Vec<usize> = Vec::new();
        let mut i: usize = 0;
        while i < rank
            invariant
                rank == layout.shape@.len(),
                rank <= 8,
                i <= rank,
                new_strides@ == layout.strides@.subrange(0, i as int),
            decreases rank - i,
        {
            new_strides.push(layout.strides[i]);
            i = i + 1;
        }
        let sa = new_strides[dim0];
        let sb = new_strides[dim1];
        new_strides.set(dim0, sb);
        new_strides.set(dim1, sa);
        let new_layout = Layout::new(new_shape, new_strides, layout.offset);
        let mut new_storage = (*self.storage).clone();
        new_storage.layout = new_layout;
        proof {
            assert(new_dims@ =~= self.spec_dims().update(dim0 as int, self.spec_dims()[dim1 as int]).update(dim1 as int, self.spec_dims()[dim0 as int]));
        }
        Ok(Tensor::from_storage(new_storage))
    }

    /// A view of `len` entries of dimension `dim` from `start`, sharing a copy
    /// of the contents; refused when `dim` is out of range or the range
    /// passes the end of the dimension.
    pub fn narrow(&self, dim: usize, start: usize, len: usize) -> (r: OxideResult<Tensor>)
        requires
            start + len <= usize::MAX,
            dim < self.spec_dims().len() && start + len <= self.spec_dims()[dim as int]
                ==> self@.layout.offset + start * self@.layout.strides@[dim as int] <= usize::MAX,
        ensures
            (dim >= self.spec_dims().len() || start + len > self.spec_dims()[dim as int])
                <==> r matches Err(OxideError::InvalidArgument(_)),
            dim >= self.spec_dims().len() ==> (r matches Err(OxideError::InvalidArgument(m))
                && m@ == "narrow: dim "@ + decimal(dim as nat) + " out of range for "@
                    + decimal(self.spec_dims().len()) + " dimensions"@),
            dim < self.spec_dims().len() && start + len > self.spec_dims()[dim as int] ==> (r matches Err(
                OxideError::InvalidArgument(m),
            ) && m@ == "narrow: range "@ + decimal(start as nat) + ".."@ + decimal((start + len) as nat)
                + " exceeds dimension size "@ + decimal(self.spec_dims()[dim as int] as nat)),
            r matches Ok(t) ==> {
                &&& t@.dtype == self@.dtype
                &&& same_data(t@.data, self@.data)
                &&& t@.layout.shape@ == self.spec_dims().update(dim as int, len)
                &&& t@.layout.strides == self@.layout.strides
                &&& t@.layout.offset == self@.layout.offset + start * self@.layout.strides@[dim as int]
            },
    {
        proof {
            reveal_strlit("narrow: dim ");
            reveal_strlit(" out of range for ");
            reveal_strlit(" dimensions");
            reveal_strlit("narrow: range ");
            reveal_strlit("..");
            reveal_strlit(" exceeds dimension size ");
        }
        let dims = self.dims();
        if dim >= dims.len() {
            let mut m = String::from_str("narrow: dim ");
            m.append(usize_to_string(dim).as_str());
            m.append(" out of range for ");
            m.append(usize_to_string(dims.len()).as_str());
            m.append(" dimensions");
            return Err(OxideError::InvalidArgument(m));
        }
        if start + len > dims[dim] {
            let mut m = String::from_str("narrow: range ");
            m.append(usize_to_string(start).as_str());
            m.append("..");
            m.append(usize_to_string(start + len).as_str());
            m.append(" exceeds dimension size ");
            m.append(usize_to_string(dims[dim]).as_str());
            return Err(OxideError::InvalidArgument(m));
        }
        let new_layout = self.storage.layout.narrow(dim, start, len);
        let data = self.storage.data.clone();
        let new_storage = Storage { dtype: self.storage.dtype, layout: new_layout, data };
        Ok(Tensor::from_storage(new_storage))
    }

    /// A zero-filled tensor whose shape is the first tensor's with dimension
    /// `dim` replaced by the sum of all the tensors' sizes along it, on the
    /// first tensor's device. Refused when the list is empty, `dim` is out of
    /// range for the first tensor, or a tensor's dtype or rank differs from
    /// the first's.
    pub fn cat(tensors: &[Tensor], dim: usize) -> (r: OxideResult<Tensor>)
        requires
            tensors@.len() > 0 ==> cat_fits(tensors@, tensors@[0]@.dtype, tensors@[0].spec_dims().len(), dim as int),
            tensors@.len() > 0 && dim < tensors@[0].spec_dims().len()
                ==> (cat_scan(tensors@, tensors@[0]@.dtype, tensors@[0].spec_dims().len(), dim as int) matches Ok(sum)
                    ==> alloc_fits(tensors@[0].spec_dims().update(dim as int, sum as usize), tensors@[0]@.dtype)),
        ensures
            tensors@.len() == 0 ==> (r matches Err(OxideError::InvalidArgument(m))
                && m@ == "cat: requires at least one tensor"@),
            tensors@.len() > 0 && dim >= tensors@[0].spec_dims().len() ==> (r matches Err(OxideError::InvalidArgument(m))
                && m@ == "cat: dim "@ + decimal(dim as nat) + " out of range for rank "@ + decimal(tensors@[0].spec_dims().len())),
            tensors@.len() > 0 && dim < tensors@[0].spec_dims().len() ==> match cat_scan(
                tensors@,
                tensors@[0]@.dtype,
                tensors@[0].spec_dims().len(),
                dim as int,
            ) {
                Err(msg) => r matches Err(OxideError::InvalidArgument(m)) && m@ == msg,
                Ok(sum) => r matches Ok(t) && t@.dtype == tensors@[0]@.dtype
                    && t@.layout.shape@ == tensors@[0].spec_dims().update(dim as int, sum as usize)
                    && t@.layout.stride_seq() == contiguous_strides(t@.layout.shape@)
                    && t@.layout.offset == 0
                    && forall|d: Device| spec_storage_device_is(tensors@[0]@.data, d)
                        ==> zero_data(prod(t@.layout.shape@) * spec_size_in_bytes(t@.dtype), d, t@.data),
            },
    {
        proof {
            reveal_strlit("cat: requires at least one tensor");
            reveal_strlit("cat: dim ");
            reveal_strlit(" out of range for rank ");
            reveal_strlit("cat: dtype mismatch ");
            reveal_strlit(" != ");
            reveal_strlit("cat: rank mismatch ");
        }
        if tensors.len() == 0 {
            let m = String::from_str("cat: requires at least one tensor");
            return Err(OxideError::InvalidArgument(m));
        }
        let first = &tensors[0];
        let rank = first.rank();
        if dim >= rank {
            let mut m = String::from_str("cat: dim ");
            m.append(usize_to_string(dim).as_str());
            m.append(" out of range for rank ");
            m.append(usize_to_string(rank).as_str());
            return Err(OxideError::InvalidArgument(m));
        }
        let dtype = first.dtype();
        let device = first.device();
        let ghost ts = tensors@;
        let ghost r0 = rank as nat;
        let mut concat_dim_size: usize = 0;
        let mut i: usize = 0;
        assert(ts.take(0) =~= Seq::<Tensor>::empty());
        while i < tensors.len()
            invariant
                ts == tensors@,
                i <= ts.len(),
                ts.len() > 0,
                dtype == ts[0]@.dtype,
                r0 == ts[0].spec_dims().len(),
                rank == r0,
                dim < r0,
                cat_fits(ts, dtype, r0, dim as int),
                cat_scan(ts.take(i as int), dtype, r0, dim as int) == Ok::<nat, Seq<char>>(concat_dim_size as nat),
            decreases ts.len() - i,
        {
            let t = &tensors[i];
            proof {
                assert(*t == ts[i as int]);
                assert(ts.take(i + 1).drop_last() =~= ts.take(i as int));
                assert(ts.take(i + 1).last() == ts[i as int]);
            }
            let td = t.dtype();
            if td != dtype {
                let mut m = String::from_str("cat: dtype mismatch ");
                m.append(td.debug_name());
                m.append(" != ");
                m.append(dtype.debug_name());
                proof {
                    assert(cat_scan(ts.take(i + 1), dtype, r0, dim as int) == Err::<nat, Seq<char>>(m@));
                    lemma_cat_scan_err_extends(ts, dtype, r0, dim as int, i + 1);
                }
                return Err(OxideError::InvalidArgument(m));
            }
            let tr = t.rank();
            if tr != rank {
                let mut m = String::from_str("cat: rank mismatch ");
                m.append(usize_to_string(tr).as_str());
                m.append(" != ");
                m.append(usize_to_string(rank).as_str());
                proof {
                    assert(ts[i as int].spec_dims().len() != r0);
                    assert(cat_scan(ts.take(i + 1), dtype, r0, dim as int) == Err::<nat, Seq<char>>(m@));
                    lemma_cat_scan_err_extends(ts, dtype, r0, dim as int, i + 1);
                }
                return Err(OxideError::InvalidArgument(m));
            }
            let d = t.dims()[dim];
            proof {
                assert(cat_scan(ts.take(i + 1), dtype, r0, dim as int) == Ok::<nat, Seq<char>>((concat_dim_size + d) as nat));
                assert(concat_dim_size + d <= usize::MAX);
            }
            concat_dim_size = concat_dim_size + d;
            i = i + 1;
        }
        assert(ts.take(ts.len() as int) =~= ts);
        let mut new_dims: Vec<usize> = vstd::slice::slice_to_vec(first.dims());
        new_dims.set(dim, concat_dim_size);
        let new_shape = Shape::new(new_dims.as_slice());
        proof {
            assert(new_dims@ =~= ts[0].spec_dims().update(dim as int, concat_dim_size));
        }
        let result = Tensor::zeros(new_shape, dtype, &device);
        proof {
            if let Ok(t) = &result {
                assert forall|d: Device| spec_storage_device_is(ts[0]@.data, d)
                    implies zero_data(prod(new_shape@) * spec_size_in_bytes(dtype), d, t@.data) by {
                }
            }
        }
        result
    }
}

/// Once the scan has refused a prefix, it refuses every longer prefix with
/// the same message.
pub proof fn lemma_cat_scan_err_extends(ts: Seq<Tensor>, d: DType, r: nat, dim: int, i: int)
    requires
        0 <= i <= ts.len(),
        cat_scan(ts.take(i), d, r, dim) is Err,
    ensures
        cat_scan(ts, d, r, dim) == cat_scan(ts.take(i), d, r, dim),
    decreases ts.len() - i,
{
    if i < ts.len() {
        assert(ts.take(i + 1).drop_last() =~= ts.take(i));
        lemma_cat_scan_err_extends(ts, d, r, dim, i + 1);
    } else {
        assert(ts.take(i) =~= ts);
    }
}

} // verus!
