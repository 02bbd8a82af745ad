//! Embedding lookup: gathering rows of a weight matrix by index.
use vstd::prelude::*;
use vstd::bytes::{spec_u64_from_le_bytes, u64_from_le_bytes};
use vstd::slice::{slice_subrange, slice_to_vec};
use vstd::string::*;
use crate::base::dtype::{Shape, contiguous_strides, prefix_fits, prod, spec_size_in_bytes};
use crate::base::storage::{CpuStorage, Storage, StorageData};
use crate::base::tensor::{Tensor, alloc_fits};
use crate::error::{OxideError, OxideResult};
use crate::ops::matmul::{Place, place_of, zeros_at};
use crate::text::{decimal, usize_to_string};

verus! {

/// The host bytes an `i64` read of a tensor sees: its bytes on the host; a
/// device tensor is copied back as that many zero bytes.
pub open spec fn host_bytes(s: StorageData) -> Seq<u8> {
    match s {
        StorageData::Cpu(c) => c.data@,
        StorageData::Cuda(c) => Seq::new(c.len as nat, |i: int| 0u8),
    }
}

/// The `n` indices stored as little-endian 64-bit integers in `b`, each
/// taken as a `usize` (a negative index wraps to a huge one).
pub open spec fn indices_of(b: Seq<u8>, n: nat) -> Seq<usize> {
    Seq::new(n, |i: int| spec_u64_from_le_bytes(b.subrange(8 * i, 8 * i + 8)) as usize)
}

/// The position of the first index not below `vocab`, if any.
pub open spec fn first_out_of_range(idx: Seq<usize>, vocab: usize) -> Option<nat>
    decreases idx.len(),
{
    if idx.len() == 0 {
        None
    } else {
        match first_out_of_range(idx.drop_last(), vocab) {
            Some(i) => Some(i),
            None => if idx.last() >= vocab { Some((idx.len() - 1) as nat) } else { None },
        }
    }
}

/// The rows `idx` of a table of `row` bytes per row, one after another.
pub open spec fn gather_rows(w: Seq<u8>, idx: Seq<usize>, row: nat) -> Seq<u8>
    decreases idx.len(),
{
    if idx.len() == 0 {
        Seq::empty()
    } else {
        gather_rows(w, idx.drop_last(), row) + w.subrange(idx.last() * row, (idx.last() + 1) * row)
    }
}

/// The dimensions of an embedding lookup: the indices' dimensions, then the
/// embedding width.
pub open spec fn embedding_dims(id: Seq<usize>, wd: Seq<usize>) -> Seq<usize> {
    id.push(wd[1])
}

/// The message for an index past the table.
pub open spec fn index_message(idx: usize, vocab: usize) -> Seq<char> {
    "embedding index "@ + decimal(idx as nat) + " out of bounds for vocab size "@ + decimal(vocab as nat)
}

/// What `embedding` needs from its operands (its dimensions are at most
/// eight): a 2-D weight, an output that can be allocated, and, for a host
/// weight, a byte count of the indices in a `usize` and a copy loop that
/// stays in bounds of the output and the table up to the first index out of
/// range.
pub open spec fn embedding_fits(ind: Storage, w: Storage) -> bool {
    let id = ind.layout.shape@;
    let wd = w.layout.shape@;
    wd.len() == 2 ==> {
        let d = embedding_dims(id, wd);
        let n = prod(id);
        let h = wd[1] as nat;
        let b = host_bytes(ind.data);
        let idx = indices_of(b, n);
        let k = match first_out_of_range(idx, wd[0]) {
            Some(i) => i,
            None => n,
        };
        &&& id.len() < 8
        &&& alloc_fits(d, w.dtype)
        &&& (w.data is Cpu ==> n * 8 <= usize::MAX)
        &&& (w.data is Cpu && b.len() == n * 8 && h > 0 && k > 0) ==> {
            &&& 4 * k * h <= prod(d) * spec_size_in_bytes(w.dtype)
            &&& forall|i: int| 0 <= i < k ==> 4 * (#[trigger] idx[i] + 1) * h <= host_bytes(w.data).len()
        }
    }
}

/// The outcome of `embedding`: refused for a weight that is not 2-D;
/// zeros of the output shape for a weight on a device; for a host weight,
/// refused when the indices do not hold eight bytes each or at the first
/// index past the table, else the rows of the weight picked by the indices,
/// one after another (followed by zero bytes when the dtype is wider than
/// four bytes).
pub open spec fn embedding_ok(ind: Storage, w: Storage, r: OxideResult<Tensor>) -> bool {
    let id = ind.layout.shape@;
    let wd = w.layout.shape@;
    if wd.len() != 2 {
        r matches Err(OxideError::InvalidArgument(m)) && m@ == "embedding weight must be 2D"@
    } else {
        let d = embedding_dims(id, wd);
        let n = prod(id);
        let h = wd[1] as nat;
        let b = host_bytes(ind.data);
        let idx = indices_of(b, n);
        if w.data is Cuda {
            r matches Ok(t) && zeros_at(t@, d, w.dtype, place_of(w.data))
        } else if b.len() != n * 8 {
            r matches Err(OxideError::InvalidArgument(m)) && m@ == "Expected i64 indices"@
        } else {
            match first_out_of_range(idx, wd[0]) {
                Some(i) => r matches Err(OxideError::InvalidArgument(m)) && m@ == index_message(idx[i as int], wd[0]),
                None => r matches Ok(t) && t@.dtype == w.dtype && t@.layout.shape@ == d
                    && t@.layout.stride_seq() == contiguous_strides(d) && t@.layout.offset == 0
                    && (t@.data matches StorageData::Cpu(c) && c.data@ == gather_rows(host_bytes(w.data), idx, 4 * h)
                    + Seq::new((prod(d) * spec_size_in_bytes(w.dtype) - 4 * n * h) as nat, |i: int| 0u8)),
            }
        }
    }
}

/// `first_out_of_range` finds the first index not below `vocab`.
pub proof fn lemma_first_out_of_range(s: Seq<usize>, vocab: usize)
    ensures
        first_out_of_range(s, vocab) matches Some(k) ==> (k < s.len() && s[k as int] >= vocab
            && forall|j: int| 0 <= j < k ==> s[j] < vocab),
        first_out_of_range(s, vocab) is None ==> forall|j: int| 0 <= j < s.len() ==> s[j] < vocab,
    decreases s.len(),
{
    if s.len() > 0 {
        lemma_first_out_of_range(s.drop_last(), vocab);
        assert forall|j: int| 0 <= j < s.len() - 1 implies s.drop_last()[j] == s[j] by {}
    }
}

/// Row `i` of the gathered rows is the table row named by `idx[i]`: an
/// embedding lookup reads back, at each position, the row of its index.
pub proof fn lemma_gather_rows_at(w: Seq<u8>, idx: Seq<usize>, row: nat, i: int)
    requires
        0 <= i < idx.len(),
        forall|j: int| 0 <= j < idx.len() ==> (#[trigger] idx[j] + 1) * row <= w.len(),
    ensures
        gather_rows(w, idx, row).subrange(i * row, (i + 1) * row) == w.subrange(idx[i] * row, (idx[i] + 1) * row),
    decreases idx.len(),
{
    let p = idx.drop_last();
    assert forall|j: int| 0 <= j < p.len() implies (#[trigger] p[j] + 1) * row <= w.len() by {
        assert(p[j] == idx[j]);
    }
    lemma_gather_len(w, p, row);
    let last = w.subrange(idx.last() * row, (idx.last() + 1) * row);
    assert(gather_rows(w, idx, row) == gather_rows(w, p, row) + last);
    assert(idx.last() * row <= (idx.last() + 1) * row) by (nonlinear_arith);
    assert(last.len() == row) by (nonlinear_arith)
        requires
            last.len() == (idx.last() + 1) * row - idx.last() * row;
    if i == idx.len() - 1 {
        assert(i * row == p.len() * row);
        assert(gather_rows(w, idx, row).subrange(i * row, (i + 1) * row) =~= last) by {
            assert((i + 1) * row == p.len() * row + row) by (nonlinear_arith)
                requires
                    i == p.len();
        }
    } else {
        lemma_gather_rows_at(w, p, row, i);
        assert((i + 1) * row <= p.len() * row) by (nonlinear_arith)
            requires
                i + 1 <= p.len();
        assert(i * row >= 0) by (nonlinear_arith)
            requires
                i >= 0;
        let a = i * row;
        let b = (i + 1) * row;
        let head = gather_rows(w, p, row);
        assert(a <= b) by (nonlinear_arith)
            requires
                a == i * row,
                b == (i + 1) * row,
                row >= 0;
        assert(0 <= a && b <= head.len());
        assert((head + last).subrange(a, b) =~= head.subrange(a, b));
        assert(p[i] == idx[i]);
    }
}

/// Taking one more row appends it.
proof fn lemma_gather_step(w: Seq<u8>, idx: Seq<usize>, row: nat, i: int)
    requires
        0 <= i < idx.len(),
    ensures
        gather_rows(w, idx.take(i + 1), row) == gather_rows(w, idx.take(i), row)
            + w.subrange(idx[i] * row, (idx[i] + 1) * row),
{
    assert(idx.take(i + 1).drop_last() =~= idx.take(i));
}

/// The length of the gathered rows.
proof fn lemma_gather_len(w: Seq<u8>, idx: Seq<usize>, row: nat)
    requires
        forall|i: int| 0 <= i < idx.len() ==> (#[trigger] idx[i] + 1) * row <= w.len(),
    ensures
        gather_rows(w, idx, row).len() == idx.len() * row,
    decreases idx.len(),
{
    if idx.len() > 0 {
        let p = idx.drop_last();
        assert forall|i: int| 0 <= i < p.len() implies (#[trigger] p[i] + 1) * row <= w.len() by {
            assert(p[i] == idx[i]);
        }
        lemma_gather_len(w, p, row);
        assert(idx.last() * row + row == (idx.last() + 1) * row) by (nonlinear_arith);
        assert((idx.len() - 1) * row + row == idx.len() * row) by (nonlinear_arith);
    }
}

/// Gathers the rows of `table` (`4 * hidden` bytes each) named by the `n`
/// indices in `idx_bytes`, stopping at the first index not below `vocab`,
/// which is returned as the error.
fn gather_checked(table: &[u8], idx_bytes: &[u8], n: usize, vocab: usize, hidden: usize) -> (r: Result<Vec<u8>, usize>)
    requires
        idx_bytes@.len() == n * 8,
        ({
            let idx = indices_of(idx_bytes@, n as nat);
            let k: nat = match first_out_of_range(idx, vocab) {
                Some(k) => k,
                None => n as nat,
            };
            hidden > 0 && k > 0 ==> forall|i: int| 0 <= i < k ==> 4 * (#[trigger] idx[i] + 1) * hidden <= table@.len()
        }),
    ensures
        ({
            let idx = indices_of(idx_bytes@, n as nat);
            match first_out_of_range(idx, vocab) {
                Some(i) => r == Err::<Vec<u8>, usize>(idx[i as int]),
                None => r matches Ok(v) && v@ == gather_rows(table@, idx, 4 * hidden as nat)
                    && v@.len() == n * (4 * hidden as nat),
            }
        }),
{
    let ghost idx = indices_of(idx_bytes@, n as nat);
    let ghost hn = hidden as nat;
    proof {
        lemma_first_out_of_range(idx, vocab);
    }
    let tlen = table.len();
    let blen = idx_bytes.len();
    let mut out: Vec<u8> = Vec::new();
    let mut i: usize = 0;
    assert(idx.take(0) =~= Seq::<usize>::empty());
    while i < n
        invariant
            i <= n,
            idx_bytes@.len() == n * 8,
            idx == indices_of(idx_bytes@, n as nat),
            hn == hidden as nat,
            tlen == table@.len(),
            blen == idx_bytes@.len(),
            first_out_of_range(idx, vocab) matches Some(k) ==> (k < idx.len() && idx[k as int] >= vocab
                && forall|j: int| 0 <= j < k ==> idx[j] < vocab),
            first_out_of_range(idx, vocab) is None ==> forall|j: int| 0 <= j < idx.len() ==> idx[j] < vocab,
            ({
                let k: nat = match first_out_of_range(idx, vocab) {
                    Some(k) => k,
                    None => n as nat,
                };
                hidden > 0 && k > 0 ==> forall|i: int| 0 <= i < k ==> 4 * (#[trigger] idx[i] + 1) * hidden <= table@.len()
            }),
            forall|j: int| 0 <= j < i ==> idx[j] < vocab,
            out@ == gather_rows(table@, idx.take(i as int), 4 * hn),
            out@.len() == i * (4 * hn),
        decreases n - i,
    {
        let raw = u64_from_le_bytes(slice_subrange(idx_bytes, 8 * i, 8 * i + 8));
        let ix = raw as usize;
        assert(ix == idx[i as int]);
        if ix >= vocab {
            proof {
                assert(first_out_of_range(idx, vocab) == Some(i as nat));
            }
            return Err(ix);
        }
        proof {
            let k: nat = match first_out_of_range(idx, vocab) {
                Some(k) => k,
                None => n as nat,
            };
            assert(k > i);
            if hn > 0 {
                assert(4 * (idx[i as int] + 1) * hn <= table@.len());
                assert(4 * hn <= 4 * (ix + 1) * hn) by (nonlinear_arith)
                    requires
                        hn > 0;
            }
            assert(ix * (4 * hn) + 4 * hn == 4 * (ix + 1) * hn) by (nonlinear_arith);
            assert((ix + 1) * (4 * hn) == ix * (4 * hn) + 4 * hn) by (nonlinear_arith);
            assert((i + 1) * (4 * hn) == i * (4 * hn) + 4 * hn) by (nonlinear_arith);
            if hn == 0 {
                assert(ix * (4 * hn) == 0) by (nonlinear_arith)
                    requires
                        hn == 0;
            }
            lemma_gather_step(table@, idx, 4 * hn, i as int);
        }
        let row = 4 * hidden;
        let start = ix * row;
        let end = start + row;
        let mut piece = slice_to_vec(slice_subrange(table, start, end));
        out.append(&mut piece);
        i = i + 1;
    }
    assert(idx.take(n as int) =~= idx);
    Ok(out)
}

/// Looks up the rows of `weight` (`[vocab, hidden]`) named by `indices`
/// (64-bit integers): the output has the indices' dimensions followed by
/// `hidden`, with `weight`'s dtype on `weight`'s device.
pub fn embedding(indices: &Tensor, weight: &Tensor) -> (r: OxideResult<Tensor>)
    requires
        embedding_fits(indices@, weight@),
    ensures
        embedding_ok(indices@, weight@, r),
{
    proof {
        reveal_strlit("embedding weight must be 2D");
        reveal_strlit("Expected i64 indices");
        reveal_strlit("embedding index ");
        reveal_strlit(" out of bounds for vocab size ");
    }
    let wd = weight.dims();
    if wd.len() != 2 {
        return Err(OxideError::InvalidArgument(String::from_str("embedding weight must be 2D")));
    }
    let vocab = wd[0];
    let hidden = wd[1];
    let id = indices.dims();
    let mut out_dims: Vec<usize> = slice_to_vec(id);
    out_dims.push(hidden);
    let ghost d = embedding_dims(indices.spec_dims(), weight.spec_dims());
    assert(out_dims@ =~= d);
    let out_shape = Shape::new(out_dims.as_slice());
    let device = weight.device();
    let output = Tensor::zeros(out_shape, weight.dtype(), &device)?;
    let wb: &Vec<u8> = match &weight.storage().data {
        StorageData::Cpu(c) => &c.data,
        StorageData::Cuda(_) => {
            return Ok(output);
        },
    };
    proof {
        lemma_prefix_of_push(indices.spec_dims(), hidden);
    }
    let n = indices.elem_count();
    let host: Vec<u8> = match &indices.storage().data {
        StorageData::Cpu(c) => c.data.clone(),
        StorageData::Cuda(c) => {
            let z = vec![0u8; c.len];
            assert(z@ =~= Seq::new(c.len as nat, |i: int| 0u8));
            z
        },
    };
    assert(host@ =~= host_bytes(indices@.data));
    if host.len() != n * 8 {
        return Err(OxideError::InvalidArgument(String::from_str("Expected i64 indices")));
    }
    let ghost idx = indices_of(host@, n as nat);
    let ghost hn = hidden as nat;
    let out_bytes: usize = match &output.storage().data {
        StorageData::Cpu(c) => c.data.len(),
        StorageData::Cuda(_) => 0,
    };
    assert(out_bytes == prod(d) * spec_size_in_bytes(weight@.dtype));
    proof {
        lemma_first_out_of_range(idx, vocab);
        let k: nat = match first_out_of_range(idx, vocab) {
            Some(k) => k,
            None => n as nat,
        };
        assert(hn > 0 && k > 0 ==> forall|i: int| 0 <= i < k ==> 4 * (#[trigger] idx[i] + 1) * hn <= wb@.len());
    }
    let mut out = match gather_checked(wb.as_slice(), host.as_slice(), n, vocab, hidden) {
        Ok(v) => v,
        Err(ix) => {
            let mut m = String::from_str("embedding index ");
            m.append(usize_to_string(ix).as_str());
            m.append(" out of bounds for vocab size ");
            m.append(usize_to_string(vocab).as_str());
            return Err(OxideError::InvalidArgument(m));
        },
    };
    proof {
        if hn > 0 && n > 0 {
            assert(4 * n * hn <= out_bytes);
        }
        assert(n * (4 * hn) == 4 * n * hn) by (nonlinear_arith);
        assert(4 * n * hn <= out_bytes) by (nonlinear_arith)
            requires
                hn > 0 && n > 0 ==> 4 * n * hn <= out_bytes,
                hn >= 0,
                n >= 0;
    }
    let pad_len = out_bytes - out.len();
    let mut pad = vec![0u8; pad_len];
    assert(pad@ =~= Seq::new(pad_len as nat, |j: int| 0u8));
    out.append(&mut pad);
    let layout = output.storage().layout;
    let storage = Storage { dtype: weight.dtype(), layout, data: StorageData::Cpu(CpuStorage { data: out }) };
    Ok(Tensor::from_storage(storage))
}

/// The running products of a shape followed by one more dimension include
/// those of the shape.
proof fn lemma_prefix_of_push(s: Seq<usize>, x: usize)
    requires
        prefix_fits(s.push(x)),
    ensures
        prefix_fits(s),
{
    assert forall|i: int| 0 <= i <= s.len() implies #[trigger] prod(s.take(i)) <= usize::MAX by {
        assert(s.push(x).take(i) =~= s.take(i));
        assert(prod(s.push(x).take(i)) <= usize::MAX);
    }
}

} // verus!
