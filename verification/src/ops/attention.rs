//! Repeating key/value heads for grouped-query attention.
use vstd::prelude::*;
use vstd::slice::{slice_subrange, slice_to_vec};
use vstd::string::*;
use crate::base::dtype::{Shape, contiguous_strides, prod, spec_size_in_bytes};
use crate::base::storage::{CpuStorage, Storage, StorageData};
use crate::base::tensor::{Tensor, alloc_fits};
use crate::error::{OxideError, OxideResult};
use crate::ops::matmul::{place_of, zeros_at};

verus! {

/// `s` repeated `n` times.
pub open spec fn repeat_seq(s: Seq<u8>, n: nat) -> Seq<u8>
    decreases n,
{
    if n == 0 { Seq::empty() } else { repeat_seq(s, (n - 1) as nat) + s }
}

/// The first `nb` blocks of `blk` bytes of `x`, each repeated `reps` times,
/// in order.
pub open spec fn repeat_blocks(x: Seq<u8>, nb: nat, reps: nat, blk: nat) -> Seq<u8>
    decreases nb,
{
    if nb == 0 {
        Seq::empty()
    } else {
        repeat_blocks(x, (nb - 1) as nat, reps, blk) + repeat_seq(x.subrange(((nb - 1) * blk) as int, (nb * blk) as int), reps)
    }
}

/// The dimensions after repeating heads: dimension 1 multiplied by `n`.
pub open spec fn repeat_kv_dims(d: Seq<usize>, n: usize) -> Seq<usize> {
    d.update(1, (d[1] * n) as usize)
}

/// What `repeat_kv` needs for a tensor of four or more dimensions `d`: the
/// new head count and the elements per head in a `usize`, an output that can
/// be allocated, and, on the host, a copy loop within the input and the
/// output.
pub open spec fn repeat_kv_fits(x: Storage, n: usize) -> bool {
    let d = x.layout.shape@;
    d.len() >= 4 ==> {
        let nd = repeat_kv_dims(d, n);
        let eph = d[2] * d[3];
        let total = d[0] * d[1] * n * eph;
        &&& d[1] * n <= usize::MAX
        &&& eph <= usize::MAX
        &&& alloc_fits(nd, x.dtype)
        &&& x.data matches StorageData::Cpu(c) ==> (total == 0 || (4 * total <= prod(nd) * spec_size_in_bytes(x.dtype)
            && 4 * (d[0] * d[1] * eph) <= c.data@.len()))
    }
}

/// The outcome of `repeat_kv`: refused below four dimensions; zeros of the
/// new shape on a device; on the host, each head's block of `seq_len *
/// head_dim` elements repeated `n` times in place, followed by zero bytes
/// for any further dimensions or wider dtypes.
pub open spec fn repeat_kv_ok(x: Storage, n: usize, r: OxideResult<Tensor>) -> bool {
    let d = x.layout.shape@;
    if d.len() < 4 {
        r matches Err(OxideError::InvalidArgument(m))
            && m@ == "repeat_kv requires 4D tensor (batch, heads, seq_len, head_dim)"@
    } else {
        let nd = repeat_kv_dims(d, n);
        let blk = 4 * (d[2] * d[3]);
        let copied = repeat_blocks(
            match x.data {
                StorageData::Cpu(c) => c.data@,
                StorageData::Cuda(_) => Seq::empty(),
            },
            (d[0] * d[1]) as nat,
            n as nat,
            blk as nat,
        );
        match x.data {
            StorageData::Cuda(_) => r matches Ok(t) && zeros_at(t@, nd, x.dtype, place_of(x.data)),
            StorageData::Cpu(c) => r matches Ok(t) && t@.dtype == x.dtype && t@.layout.shape@ == nd
                && t@.layout.stride_seq() == contiguous_strides(nd) && t@.layout.offset == 0
                && (t@.data matches StorageData::Cpu(o) && o.data@ == (if d[0] * d[1] * n * (d[2] * d[3]) == 0 {
                    Seq::new((prod(nd) * spec_size_in_bytes(x.dtype)) as nat, |i: int| 0u8)
                } else {
                    copied + Seq::new((prod(nd) * spec_size_in_bytes(x.dtype) - copied.len()) as nat, |i: int| 0u8)
                })),
        }
    }
}

proof fn lemma_repeat_seq_len(s: Seq<u8>, n: nat)
    ensures
        repeat_seq(s, n).len() == n * s.len(),
    decreases n,
{
    if n > 0 {
        lemma_repeat_seq_len(s, (n - 1) as nat);
        assert((n - 1) * s.len() + s.len() == n * s.len()) by (nonlinear_arith);
    } else {
        assert(n * s.len() == 0) by (nonlinear_arith)
            requires
                n == 0;
    }
}

proof fn lemma_repeat_blocks_len(x: Seq<u8>, nb: nat, reps: nat, blk: nat)
    requires
        nb * blk <= x.len(),
    ensures
        repeat_blocks(x, nb, reps, blk).len() == nb * reps * blk,
    decreases nb,
{
    if nb > 0 {
        assert((nb - 1) * blk <= nb * blk) by (nonlinear_arith);
        assert((nb - 1) * blk + blk == nb * blk) by (nonlinear_arith);
        lemma_repeat_blocks_len(x, (nb - 1) as nat, reps, blk);
        lemma_repeat_seq_len(x.subrange(((nb - 1) * blk) as int, (nb * blk) as int), reps);
        assert((nb - 1) * reps * blk + reps * blk == nb * reps * blk) by (nonlinear_arith);
    } else {
        assert(nb * reps * blk == 0) by (nonlinear_arith)
            requires
                nb == 0;
    }
}

/// Copy `r` of `s` in `repeat_seq(s, n)` is `s`.
proof fn lemma_repeat_seq_at(s: Seq<u8>, n: nat, r: nat)
    requires
        r < n,
    ensures
        repeat_seq(s, n).subrange((r * s.len()) as int, ((r + 1) * s.len()) as int) == s,
    decreases n,
{
    let prev = repeat_seq(s, (n - 1) as nat);
    lemma_repeat_seq_len(s, (n - 1) as nat);
    assert(repeat_seq(s, n) == prev + s);
    let a: int = (r * s.len()) as int;
    let b: int = ((r + 1) * s.len()) as int;
    assert(b == a + s.len()) by (nonlinear_arith)
        requires
            a == r * s.len(),
            b == (r + 1) * s.len();
    if r == n - 1 {
        assert(a == prev.len());
        assert((prev + s).subrange(a, b) =~= s);
    } else {
        lemma_repeat_seq_at(s, (n - 1) as nat, r);
        assert(b <= prev.len()) by (nonlinear_arith)
            requires
                b == (r + 1) * s.len(),
                prev.len() == (n - 1) * s.len(),
                r + 1 <= n - 1;
        assert((prev + s).subrange(a, b) =~= prev.subrange(a, b));
    }
}

/// Repeating heads puts copy `r` of input block `g` at output block
/// `g * reps + r`: every copy reads back the block it was made from.
pub proof fn lemma_repeat_blocks_at(x: Seq<u8>, nb: nat, reps: nat, blk: nat, g: nat, r: nat)
    requires
        g < nb,
        r < reps,
        nb * blk <= x.len(),
    ensures
        repeat_blocks(x, nb, reps, blk).subrange(((g * reps + r) * blk) as int, ((g * reps + r + 1) * blk) as int)
            == x.subrange((g * blk) as int, ((g + 1) * blk) as int),
    decreases nb,
{
    let prev = repeat_blocks(x, (nb - 1) as nat, reps, blk);
    assert((nb - 1) * blk <= nb * blk) by (nonlinear_arith);
    assert((nb - 1) * blk + blk == nb * blk) by (nonlinear_arith);
    lemma_repeat_blocks_len(x, (nb - 1) as nat, reps, blk);
    let piece = x.subrange(((nb - 1) * blk) as int, (nb * blk) as int);
    assert(piece.len() == blk);
    assert(repeat_blocks(x, nb, reps, blk) == prev + repeat_seq(piece, reps));
    let a = (g * reps + r) * blk;
    let b = (g * reps + r + 1) * blk;
    assert(b == a + blk) by (nonlinear_arith)
        requires
            a == (g * reps + r) * blk,
            b == (g * reps + r + 1) * blk;
    if g == nb - 1 {
        lemma_repeat_seq_at(piece, reps, r);
        assert(a == prev.len() + r * blk) by (nonlinear_arith)
            requires
                a == (g * reps + r) * blk,
                prev.len() == (nb - 1) * reps * blk,
                g == nb - 1;
        assert(b == prev.len() + (r + 1) * blk) by (nonlinear_arith)
            requires
                b == a + blk,
                a == prev.len() + r * blk;
        let rs = repeat_seq(piece, reps);
        lemma_repeat_seq_len(piece, reps);
        assert((r + 1) * blk <= reps * blk) by (nonlinear_arith)
            requires
                r + 1 <= reps;
        assert(r * blk >= 0) by (nonlinear_arith);
        assert((prev + rs).subrange(a as int, b as int) =~= rs.subrange((r * blk) as int, ((r + 1) * blk) as int));
    } else {
        lemma_repeat_blocks_at(x, (nb - 1) as nat, reps, blk, g, r);
        assert(b <= prev.len()) by (nonlinear_arith)
            requires
                b == (g * reps + r + 1) * blk,
                prev.len() == (nb - 1) * reps * blk,
                g + 1 <= nb - 1,
                r + 1 <= reps;
        assert((prev + repeat_seq(piece, reps)).subrange(a as int, b as int) =~= prev.subrange(a as int, b as int));
    }
}

/// Repeats each key/value head `num_repeat` times, so that a tensor of shape
/// `[batch, heads, seq_len, head_dim]` becomes `[batch, heads *
/// num_repeat, seq_len, head_dim]` with copies of a head next to each other.
pub fn repeat_kv(x: &Tensor, num_repeat: usize) -> (r: OxideResult<Tensor>)
    requires
        repeat_kv_fits(x@, num_repeat),
    ensures
        repeat_kv_ok(x@, num_repeat, r),
{
    proof {
        reveal_strlit("repeat_kv requires 4D tensor (batch, heads, seq_len, head_dim)");
    }
    let d = x.dims();
    if d.len() < 4 {
        return Err(OxideError::InvalidArgument(String::from_str("repeat_kv requires 4D tensor (batch, heads, seq_len, head_dim)")));
    }
    let batch = d[0];
    let heads = d[1];
    let seq_len = d[2];
    let head_dim = d[3];
    let mut nd: Vec<usize> = slice_to_vec(d);
    nd.set(1, heads * num_repeat);
    let ghost ndims = repeat_kv_dims(x.spec_dims(), num_repeat);
    assert(nd@ =~= ndims);
    let _ = x.rank();
    let device = x.device();
    let output = Tensor::zeros(Shape::new(nd.as_slice()), x.dtype(), &device)?;
    let xb: &Vec<u8> = match &x.storage().data {
        StorageData::Cpu(c) => &c.data,
        StorageData::Cuda(_) => {
            return Ok(output);
        },
    };
    let out_bytes: usize = match &output.storage().data {
        StorageData::Cpu(c) => c.data.len(),
        StorageData::Cuda(_) => 0,
    };
    let eph = seq_len * head_dim;
    let ghost total = batch * heads * num_repeat * eph;
    let mut out: Vec<u8> = Vec::new();
    if batch > 0 && heads > 0 && num_repeat > 0 && eph > 0 {
        proof {
            assert(batch * heads <= batch * heads * num_repeat * eph) by (nonlinear_arith)
                requires
                    num_repeat > 0 && eph > 0;
            assert(total > 0) by (nonlinear_arith)
                requires
                    batch > 0 && heads > 0 && num_repeat > 0 && eph > 0,
                    total == batch * heads * num_repeat * eph;
            assert(4 * eph <= 4 * (batch * heads * eph)) by (nonlinear_arith)
                requires
                    batch > 0 && heads > 0;
        }
        let xlen = xb.len();
        let nb = batch * heads;
        let blk = 4 * eph;
        proof {
            assert(nb * blk == 4 * (batch * heads * eph)) by (nonlinear_arith)
                requires
                    nb == batch * heads,
                    blk == 4 * eph;
        }
        let mut g: usize = 0;
        while g < nb
            invariant
                g <= nb,
                nb * blk <= xb@.len(),
                xlen == xb@.len(),
                blk > 0,
                out@ == repeat_blocks(xb@, g as nat, num_repeat as nat, blk as nat),
            decreases nb - g,
        {
            proof {
                assert((g + 1) * blk <= nb * blk) by (nonlinear_arith)
                    requires
                        g < nb;
                assert(g * blk + blk == (g + 1) * blk) by (nonlinear_arith);
            }
            let start = g * blk;
            let end = start + blk;
            let piece = slice_subrange(xb.as_slice(), start, end);
            let ghost base = out@;
            let mut k: usize = 0;
            while k < num_repeat
                invariant
                    k <= num_repeat,
                    piece@ == xb@.subrange(start as int, end as int),
                    out@ == base + repeat_seq(piece@, k as nat),
                decreases num_repeat - k,
            {
                let mut copy = slice_to_vec(piece);
                out.append(&mut copy);
                k = k + 1;
            }
            proof {
                assert(start == g * blk && end == (g + 1) * blk);
            }
            g = g + 1;
        }
        proof {
            lemma_repeat_blocks_len(xb@, nb as nat, num_repeat as nat, blk as nat);
            assert(nb * num_repeat * blk == 4 * total) by (nonlinear_arith)
                requires
                    nb == batch * heads,
                    blk == 4 * eph,
                    total == batch * heads * num_repeat * eph;
        }
    } else {
        assert(total == 0) by (nonlinear_arith)
            requires
                batch == 0 || heads == 0 || num_repeat == 0 || eph == 0,
                total == batch * heads * num_repeat * eph;
    }
    let pad_len = out_bytes - out.len();
    let mut pad = vec![0u8; pad_len];
    assert(pad@ =~= Seq::new(pad_len as nat, |j: int| 0u8));
    out.append(&mut pad);
    proof {
        if total == 0 {
            assert(out@ =~= Seq::new(out_bytes as nat, |i: int| 0u8));
        }
    }
    let layout = output.storage().layout;
    let storage = Storage { dtype: x.dtype(), layout, data: StorageData::Cpu(CpuStorage { data: out }) };
    Ok(Tensor::from_storage(storage))
}

} // verus!
