//! Broadcasting, matrix products and element-wise arithmetic.
use vstd::prelude::*;
use vstd::string::*;
use crate::base::device::{Device, spec_same_device};
use crate::base::dtype::{DType, Shape, contiguous_strides, prod, spec_size_in_bytes};
use crate::base::storage::{CudaStorage, Storage, StorageData, spec_storage_device_is};
use crate::base::tensor::{Tensor, alloc_fits};
use crate::error::{OxideError, OxideResult};
use crate::text::{debug_usizes, decimal, usize_to_string, usizes_debug};

verus! {

/// Dimension `i` of `s` counted from the last one (0 is the last); 1 past
/// the rank.
pub open spec fn dim_from_end(s: Seq<usize>, i: int) -> usize {
    if 0 <= i < s.len() { s[s.len() - 1 - i] } else { 1 }
}

/// The larger of two ranks.
pub open spec fn max_rank(a: Seq<usize>, b: Seq<usize>) -> nat {
    if a.len() >= b.len() { a.len() } else { b.len() }
}

/// Two dimensions broadcast together when they are equal or one is 1.
pub open spec fn dims_compatible(x: usize, y: usize) -> bool {
    x == y || x == 1 || y == 1
}

/// Two shapes broadcast together when, aligned at their last dimension,
/// every pair of dimensions is compatible.
pub open spec fn broadcastable(a: Seq<usize>, b: Seq<usize>) -> bool {
    forall|i: int| 0 <= i < max_rank(a, b) ==> #[trigger] dims_compatible(dim_from_end(a, i), dim_from_end(b, i))
}

/// The broadcast shape: the larger rank, each dimension the larger of the
/// aligned pair.
pub open spec fn broadcast_dims(a: Seq<usize>, b: Seq<usize>) -> Seq<usize> {
    let n = max_rank(a, b);
    Seq::new(n, |k: int| {
        let x = dim_from_end(a, n - 1 - k);
        let y = dim_from_end(b, n - 1 - k);
        if x >= y { x } else { y }
    })
}

/// The message of a failed broadcast.
pub open spec fn broadcast_message(a: Seq<usize>, b: Seq<usize>) -> Seq<char> {
    "broadcast: shape mismatch "@ + debug_usizes(a) + " and "@ + debug_usizes(b)
}

/// The shape two tensors broadcast to; refused when a pair of aligned
/// dimensions differ and neither is 1.
pub fn broadcast_shape(a: &[usize], b: &[usize]) -> (r: OxideResult<Vec<usize>>)
    ensures
        broadcastable(a@, b@) ==> (r matches Ok(v) && v@ == broadcast_dims(a@, b@)),
        !broadcastable(a@, b@) ==> (r matches Err(OxideError::InvalidArgument(m))
            && m@ == broadcast_message(a@, b@)),
{
    let n = if a.len() >= b.len() { a.len() } else { b.len() };
    let mut result: Vec<usize> = vec![0usize; n];
    let mut i: usize = 0;
    while i < n
        invariant
            n == max_rank(a@, b@),
            result@.len() == n,
            i <= n,
            forall|j: int| 0 <= j < i ==> #[trigger] dims_compatible(dim_from_end(a@, j), dim_from_end(b@, j)),
            forall|k: int| n - i <= k < n ==> result@[k] == broadcast_dims(a@, b@)[k],
        decreases n - i,
    {
        let a_dim = if i < a.len() { a[a.len() - 1 - i] } else { 1 };
        let b_dim = if i < b.len() { b[b.len() - 1 - i] } else { 1 };
        assert(a_dim == dim_from_end(a@, i as int) && b_dim == dim_from_end(b@, i as int));
        if a_dim != b_dim && a_dim != 1 && b_dim != 1 {
            let mut m = String::from_str("broadcast: shape mismatch ");
            m.append(usizes_debug(a).as_str());
            m.append(" and ");
            m.append(usizes_debug(b).as_str());
            proof {
                reveal_strlit("broadcast: shape mismatch ");
                reveal_strlit(" and ");
                assert(!dims_compatible(dim_from_end(a@, i as int), dim_from_end(b@, i as int)));
                assert(m@ =~= broadcast_message(a@, b@));
            }
            return Err(OxideError::InvalidArgument(m));
        }
        let d = if a_dim >= b_dim { a_dim } else { b_dim };
        result.set(n - 1 - i, d);
        i = i + 1;
    }
    assert(result@ =~= broadcast_dims(a@, b@));
    Ok(result)
}

/// Broadcasting does not depend on the order of the operands.
pub proof fn lemma_broadcast_commutes(a: Seq<usize>, b: Seq<usize>)
    ensures
        broadcastable(a, b) == broadcastable(b, a),
        broadcast_dims(a, b) == broadcast_dims(b, a),
{
    assert(broadcast_dims(a, b) =~= broadcast_dims(b, a));
    if broadcastable(a, b) {
        assert forall|i: int| 0 <= i < max_rank(b, a) implies #[trigger] dims_compatible(dim_from_end(b, i), dim_from_end(a, i)) by {
            assert(dims_compatible(dim_from_end(a, i), dim_from_end(b, i)));
        }
    }
    if broadcastable(b, a) {
        assert forall|i: int| 0 <= i < max_rank(a, b) implies #[trigger] dims_compatible(dim_from_end(a, i), dim_from_end(b, i)) by {
            assert(dims_compatible(dim_from_end(b, i), dim_from_end(a, i)));
        }
    }
}

/// A shape broadcast with itself is itself; so is a shape without a zero
/// dimension broadcast with the shape of a scalar (a zero dimension meets
/// the scalar's implicit 1 and becomes 1).
pub proof fn lemma_broadcast_identity(a: Seq<usize>)
    ensures
        broadcastable(a, a),
        broadcast_dims(a, a) == a,
        broadcastable(a, Seq::empty()),
        (forall|i: int| 0 <= i < a.len() ==> a[i] != 0) ==> broadcast_dims(a, Seq::empty()) == a,
{
    assert forall|i: int| 0 <= i < max_rank(a, a) implies #[trigger] dims_compatible(dim_from_end(a, i), dim_from_end(a, i)) by {}
    assert forall|i: int| 0 <= i < max_rank(a, Seq::<usize>::empty())
        implies #[trigger] dims_compatible(dim_from_end(a, i), dim_from_end(Seq::<usize>::empty(), i)) by {}
    assert(broadcast_dims(a, a) =~= a);
    if forall|i: int| 0 <= i < a.len() ==> a[i] != 0 {
        assert(broadcast_dims(a, Seq::empty()) =~= a);
    }
}

/// Each operand's shape is compatible with the broadcast shape, which is
/// the larger rank and, aligned at the end, never smaller.
pub proof fn lemma_broadcast_covers(a: Seq<usize>, b: Seq<usize>)
    requires
        broadcastable(a, b),
    ensures
        broadcast_dims(a, b).len() == max_rank(a, b),
        broadcastable(a, broadcast_dims(a, b)),
        forall|i: int| 0 <= i < a.len() ==> dim_from_end(a, i) <= #[trigger] dim_from_end(broadcast_dims(a, b), i),
{
    let c = broadcast_dims(a, b);
    assert forall|i: int| 0 <= i < max_rank(a, c) implies #[trigger] dims_compatible(dim_from_end(a, i), dim_from_end(c, i)) by {
        assert(dims_compatible(dim_from_end(a, i), dim_from_end(b, i)));
    }
}

/// Where a tensor's contents are, as the element-wise and matrix ops see
/// them: on the host, holding some number of `f32`s (its byte count over
/// four), or on the CUDA device with some ordinal.
pub enum Place {
    Host(nat),
    Device(usize),
}

pub open spec fn place_of(s: StorageData) -> Place {
    match s {
        StorageData::Cpu(c) => Place::Host(c.data@.len() / 4),
        StorageData::Cuda(c) => Place::Device(c.device_id),
    }
}

/// A contiguous zero-filled tensor with dimensions `dims` and `dtype`, at
/// place `p` (on the host, or on the same device).
pub open spec fn zeros_at(t: Storage, dims: Seq<usize>, dtype: DType, p: Place) -> bool {
    let n = prod(dims) * spec_size_in_bytes(dtype);
    &&& t.dtype == dtype
    &&& t.layout.shape@ == dims
    &&& t.layout.stride_seq() == contiguous_strides(dims)
    &&& t.layout.offset == 0
    &&& match p {
        Place::Host(_) => t.data matches StorageData::Cpu(c) && c.data@ == Seq::new(n, |i: int| 0u8),
        Place::Device(id) => t.data == StorageData::Cuda(CudaStorage { device_id: id, ptr: 0, len: n as usize }),
    }
}

/// The place of a fresh zero-filled tensor of `dims` and `dtype` put where
/// `p` is.
pub open spec fn zeros_place(dims: Seq<usize>, dtype: DType, p: Place) -> Place {
    match p {
        Place::Host(_) => Place::Host(prod(dims) * spec_size_in_bytes(dtype) / 4),
        Place::Device(id) => Place::Device(id),
    }
}

/// The host loop of an element-wise op stays in bounds: it writes `count`
/// outputs and reads its operands cyclically.
pub open spec fn elementwise_loop_fits(count: nat, a_len: nat, b_len: nat, out_len: nat) -> bool {
    count == 0 || (a_len > 0 && b_len > 0 && count <= out_len)
}

/// What an element-wise op over operands with dimensions `ad` and `bd`
/// needs: the output can be allocated, and the host loop (run when both
/// operands are on the host) stays in bounds.
pub open spec fn elementwise_fits(ad: Seq<usize>, dtype: DType, pa: Place, bd: Seq<usize>, pb: Place) -> bool {
    broadcastable(ad, bd) ==> {
        let d = broadcast_dims(ad, bd);
        &&& alloc_fits(d, dtype)
        &&& pa matches Place::Host(al) ==> (pb matches Place::Host(bl) ==> elementwise_loop_fits(
            prod(d),
            al,
            bl,
            prod(d) * spec_size_in_bytes(dtype) / 4,
        ))
    }
}

/// The refusal of an element-wise op on a host `a` when `b` sits on a
/// device.
pub open spec fn expected_f32_message() -> Seq<char> {
    "Expected f32 tensor"@
}

/// The outcome of `mul`, `sub` and `div`: a refusal, or zeros of the
/// broadcast shape with `a`'s dtype at `a`'s place (the element values are
/// computed into a copy of the output that is then dropped).
pub open spec fn elementwise_ok(ad: Seq<usize>, dtype: DType, pa: Place, bd: Seq<usize>, pb: Place, r: OxideResult<Tensor>) -> bool {
    if !broadcastable(ad, bd) {
        r matches Err(OxideError::InvalidArgument(m)) && m@ == broadcast_message(ad, bd)
    } else if pa is Host && pb is Device {
        r matches Err(OxideError::InvalidArgument(m)) && m@ == expected_f32_message()
    } else {
        r matches Ok(t) && zeros_at(t@, broadcast_dims(ad, bd), dtype, pa)
    }
}

/// The zero-filled result of an element-wise op; the element values are not
/// kept.
fn elementwise(a: &Tensor, b: &Tensor) -> (r: OxideResult<Tensor>)
    requires
        elementwise_fits(a.spec_dims(), a@.dtype, place_of(a@.data), b.spec_dims(), place_of(b@.data)),
    ensures
        elementwise_ok(a.spec_dims(), a@.dtype, place_of(a@.data), b.spec_dims(), place_of(b@.data), r),
{
    let out_shape = broadcast_shape(a.dims(), b.dims())?;
    let _ = a.rank();
    let _ = b.rank();
    proof {
        lemma_broadcast_rank(a.spec_dims(), b.spec_dims());
    }
    let shape = Shape::new(out_shape.as_slice());
    let device = a.device();
    let output = Tensor::zeros(shape, a.dtype(), &device)?;
    if device.is_cpu() && b.device().is_cuda() {
        proof {
            reveal_strlit("Expected f32 tensor");
        }
        return Err(OxideError::InvalidArgument(String::from_str("Expected f32 tensor")));
    }
    Ok(output)
}

/// Broadcast shapes of tensors (at most eight dimensions) have at most
/// eight dimensions.
proof fn lemma_broadcast_rank(a: Seq<usize>, b: Seq<usize>)
    requires
        a.len() <= 8,
        b.len() <= 8,
    ensures
        broadcast_dims(a, b).len() <= 8,
{
}

/// Element-wise product, broadcasting the shapes.
pub fn mul(a: &Tensor, b: &Tensor) -> (r: OxideResult<Tensor>)
    requires
        elementwise_fits(a.spec_dims(), a@.dtype, place_of(a@.data), b.spec_dims(), place_of(b@.data)),
    ensures
        elementwise_ok(a.spec_dims(), a@.dtype, place_of(a@.data), b.spec_dims(), place_of(b@.data), r),
{
    elementwise(a, b)
}

/// Element-wise difference, broadcasting the shapes.
pub fn sub(a: &Tensor, b: &Tensor) -> (r: OxideResult<Tensor>)
    requires
        elementwise_fits(a.spec_dims(), a@.dtype, place_of(a@.data), b.spec_dims(), place_of(b@.data)),
    ensures
        elementwise_ok(a.spec_dims(), a@.dtype, place_of(a@.data), b.spec_dims(), place_of(b@.data), r),
{
    elementwise(a, b)
}

/// Element-wise quotient, broadcasting the shapes.
pub fn div(a: &Tensor, b: &Tensor) -> (r: OxideResult<Tensor>)
    requires
        elementwise_fits(a.spec_dims(), a@.dtype, place_of(a@.data), b.spec_dims(), place_of(b@.data)),
    ensures
        elementwise_ok(a.spec_dims(), a@.dtype, place_of(a@.data), b.spec_dims(), place_of(b@.data), r),
{
    elementwise(a, b)
}

/// The place `add` works at: `a`'s when it is on a CUDA device, else `b`'s.
pub open spec fn add_target(pa: Place, pb: Place) -> Place {
    if pa is Device { pa } else { pb }
}

/// What `add` needs: the output can be allocated, and the host loop (run
/// when both operands are on the host) stays in bounds.
pub open spec fn add_fits(ad: Seq<usize>, dtype: DType, pa: Place, bd: Seq<usize>, pb: Place) -> bool {
    if pa is Device || pb is Device {
        broadcastable(ad, bd) ==> alloc_fits(broadcast_dims(ad, bd), dtype)
    } else {
        elementwise_fits(ad, dtype, pa, bd, pb)
    }
}

/// The outcome of `add`: refused when the shapes do not broadcast, else
/// zeros of the broadcast shape with `a`'s dtype, on `a`'s device when that
/// is a CUDA device and otherwise at `b`'s place (the element values are
/// computed into a copy of the output that is then dropped).
pub open spec fn add_ok(ad: Seq<usize>, dtype: DType, pa: Place, bd: Seq<usize>, pb: Place, r: OxideResult<Tensor>) -> bool {
    if !broadcastable(ad, bd) {
        r matches Err(OxideError::InvalidArgument(m)) && m@ == broadcast_message(ad, bd)
    } else {
        r matches Ok(t) && zeros_at(t@, broadcast_dims(ad, bd), dtype, add_target(pa, pb))
    }
}

/// The shape and place of an element-wise sum, broadcasting the shapes:
/// zeros of the broadcast shape (the sums are computed into a copy of the
/// output that is then dropped). Operands on different devices are first
/// moved to the CUDA one (`a`'s when both are).
pub fn add(a: &Tensor, b: &Tensor) -> (r: OxideResult<Tensor>)
    requires
        add_fits(a.spec_dims(), a@.dtype, place_of(a@.data), b.spec_dims(), place_of(b@.data)),
    ensures
        add_ok(a.spec_dims(), a@.dtype, place_of(a@.data), b.spec_dims(), place_of(b@.data), r),
{
    let a_device = a.device();
    let b_device = b.device();
    let (a2, b2) = if !a_device.same_device(&b_device) {
        let target = if a_device.is_cuda() { a_device } else { b_device };
        (a.to_device(&target)?, b.to_device(&target)?)
    } else {
        (a.clone(), b.clone())
    };
    proof {
        if a@.data is Cuda || b@.data is Cuda {
            assert(a2@.data is Cuda);
        } else {
            assert(place_of(a2@.data) == place_of(a@.data) && place_of(b2@.data) == place_of(b@.data));
        }
        if a@.data is Cuda {
            assert(a2@.data == a@.data);
        }
    }
    elementwise(&a2, &b2)
}

/// The leading (batch) dimensions of a shape of rank two or more.
pub open spec fn batch_dims(d: Seq<usize>) -> Seq<usize> {
    d.take(d.len() - 2)
}

/// The shape of a matrix product: the broadcast batch dimensions, then the
/// rows of `a` and the columns of `b`.
pub open spec fn matmul_dims(ad: Seq<usize>, bd: Seq<usize>) -> Seq<usize> {
    broadcast_dims(batch_dims(ad), batch_dims(bd)) + seq![ad[ad.len() - 2], bd[bd.len() - 1]]
}

/// Two places are the same device: both the host, or the same CUDA ordinal.
pub open spec fn same_place(pa: Place, pb: Place) -> bool {
    match (pa, pb) {
        (Place::Host(_), Place::Host(_)) => true,
        (Place::Device(x), Place::Device(y)) => x == y,
        _ => false,
    }
}

/// The message for a contraction mismatch.
pub open spec fn matmul_mismatch_message(ad: Seq<usize>, bd: Seq<usize>) -> Seq<char> {
    "matmul: dimension mismatch "@ + debug_usizes(ad) + " @ "@ + debug_usizes(bd) + " - "@
        + decimal(ad[ad.len() - 1] as nat) + " != "@ + decimal(bd[bd.len() - 2] as nat)
}

/// Why `matmul` refuses `a` (dimensions `ad`, at `pa`) and `b`, if it
/// does: either has fewer than two dimensions, the columns of `a` are not
/// the rows of `b`, they are on different devices, or the batch dimensions
/// do not broadcast.
pub open spec fn matmul_refusal(ad: Seq<usize>, pa: Place, bd: Seq<usize>, pb: Place) -> Option<Seq<char>> {
    if ad.len() < 2 || bd.len() < 2 {
        Some("matmul requires 2D or higher dimensional tensors"@)
    } else if ad[ad.len() - 1] != bd[bd.len() - 2] {
        Some(matmul_mismatch_message(ad, bd))
    } else if !same_place(pa, pb) {
        Some("matmul requires tensors on same device"@)
    } else if !broadcastable(batch_dims(ad), batch_dims(bd)) {
        Some(broadcast_message(batch_dims(ad), batch_dims(bd)))
    } else {
        None
    }
}

/// The outcome of `matmul`: its refusal, or zeros of the product's shape
/// with `a`'s dtype at `a`'s place (the products are computed into a copy
/// of the output that is then dropped).
pub open spec fn matmul_ok(ad: Seq<usize>, dtype: DType, pa: Place, bd: Seq<usize>, pb: Place, r: OxideResult<Tensor>) -> bool {
    match matmul_refusal(ad, pa, bd, pb) {
        Some(m) => r matches Err(OxideError::InvalidArgument(x)) && x@ == m,
        None => r matches Ok(t) && zeros_at(t@, matmul_dims(ad, bd), dtype, pa),
    }
}

/// The host loop of a matrix product stays in bounds: `bs` batches of
/// `ar` by `ac` times `ac` by `bc` matrices, read from `a_len` and `b_len`
/// floats and written to `out_len`.
pub open spec fn matmul_loop_fits(bs: nat, ar: nat, ac: nat, bc: nat, a_len: nat, b_len: nat, out_len: nat) -> bool {
    ar == 0 || bc == 0 || (bs * ar * bc <= out_len && (ac == 0 || (bs * ar * ac <= a_len && bs * ac * bc <= b_len)))
}

/// What `matmul` needs once its operands pass its checks: the output can
/// be allocated, and the host loop stays in bounds.
pub open spec fn matmul_fits(ad: Seq<usize>, dtype: DType, pa: Place, bd: Seq<usize>, pb: Place) -> bool {
    matmul_refusal(ad, pa, bd, pb) is None ==> {
        let d = matmul_dims(ad, bd);
        let batch = prod(broadcast_dims(batch_dims(ad), batch_dims(bd)));
        &&& alloc_fits(d, dtype)
        &&& pa matches Place::Host(al) ==> (pb matches Place::Host(bl) ==> matmul_loop_fits(
            if batch == 0 { 1 } else { batch },
            ad[ad.len() - 2] as nat,
            ad[ad.len() - 1] as nat,
            bd[bd.len() - 1] as nat,
            al,
            bl,
            prod(d) * spec_size_in_bytes(dtype) / 4,
        ))
    }
}

/// The shape of a matrix product over the last two dimensions, broadcasting
/// the batch dimensions in front of them: zeros of that shape (the products
/// are computed into a copy of the output that is then dropped).
pub fn matmul(a: &Tensor, b: &Tensor) -> (r: OxideResult<Tensor>)
    requires
        matmul_fits(a.spec_dims(), a@.dtype, place_of(a@.data), b.spec_dims(), place_of(b@.data)),
    ensures
        matmul_ok(a.spec_dims(), a@.dtype, place_of(a@.data), b.spec_dims(), place_of(b@.data), r),
{
    proof {
        reveal_strlit("matmul requires 2D or higher dimensional tensors");
        reveal_strlit("matmul: dimension mismatch ");
        reveal_strlit(" @ ");
        reveal_strlit(" - ");
        reveal_strlit(" != ");
        reveal_strlit("matmul requires tensors on same device");
    }
    let ad = a.dims();
    let bd = b.dims();
    if ad.len() < 2 || bd.len() < 2 {
        return Err(OxideError::InvalidArgument(String::from_str("matmul requires 2D or higher dimensional tensors")));
    }
    let a_rows = ad[ad.len() - 2];
    let a_cols = ad[ad.len() - 1];
    let b_rows = bd[bd.len() - 2];
    let b_cols = bd[bd.len() - 1];
    if a_cols != b_rows {
        let mut m = String::from_str("matmul: dimension mismatch ");
        m.append(usizes_debug(ad).as_str());
        m.append(" @ ");
        m.append(usizes_debug(bd).as_str());
        m.append(" - ");
        m.append(usize_to_string(a_cols).as_str());
        m.append(" != ");
        m.append(usize_to_string(b_rows).as_str());
        assert(m@ =~= matmul_mismatch_message(ad@, bd@));
        return Err(OxideError::InvalidArgument(m));
    }
    let device = a.device();
    if !device.same_device(&b.device()) {
        return Err(OxideError::InvalidArgument(String::from_str("matmul requires tensors on same device")));
    }
    let batch_a = vstd::slice::slice_subrange(ad, 0, ad.len() - 2);
    let batch_b = vstd::slice::slice_subrange(bd, 0, bd.len() - 2);
    let mut out_shape = broadcast_shape(batch_a, batch_b)?;
    let _ = a.rank();
    let _ = b.rank();
    proof {
        lemma_broadcast_rank(batch_dims(ad@), batch_dims(bd@));
    }
    out_shape.push(a_rows);
    out_shape.push(b_cols);
    assert(out_shape@ =~= matmul_dims(ad@, bd@));
    let output = Tensor::zeros(Shape::new(out_shape.as_slice()), a.dtype(), &device)?;
    Ok(output)
}

/// Matrix product followed by the addition of `bias`.
pub fn matmul_with_bias(a: &Tensor, b: &Tensor, bias: &Tensor) -> (r: OxideResult<Tensor>)
    requires
        matmul_fits(a.spec_dims(), a@.dtype, place_of(a@.data), b.spec_dims(), place_of(b@.data)),
        matmul_refusal(a.spec_dims(), place_of(a@.data), b.spec_dims(), place_of(b@.data)) is None ==> add_fits(
            matmul_dims(a.spec_dims(), b.spec_dims()),
            a@.dtype,
            zeros_place(matmul_dims(a.spec_dims(), b.spec_dims()), a@.dtype, place_of(a@.data)),
            bias.spec_dims(),
            place_of(bias@.data),
        ),
    ensures
        match matmul_refusal(a.spec_dims(), place_of(a@.data), b.spec_dims(), place_of(b@.data)) {
            Some(m) => r matches Err(OxideError::InvalidArgument(x)) && x@ == m,
            None => add_ok(
                matmul_dims(a.spec_dims(), b.spec_dims()),
                a@.dtype,
                zeros_place(matmul_dims(a.spec_dims(), b.spec_dims()), a@.dtype, place_of(a@.data)),
                bias.spec_dims(),
                place_of(bias@.data),
                r,
            ),
        },
{
    let c = matmul(a, b)?;
    self::add(&c, bias)
}

} // verus!