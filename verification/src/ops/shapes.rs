//! The shape checks of the floating-point operations (attention, rotary
//! embeddings, normalization, softmax): which operands they refuse, with
//! which message, and the shape of the result they produce otherwise.
use vstd::prelude::*;
use vstd::string::*;
use crate::error::{OxideError, OxideResult};
use crate::text::{debug_usizes, decimal, usize_to_string, usizes_debug};

verus! {

/// The dimensions of an attention result: the query's, with the last one
/// replaced by the value's last.
pub open spec fn attention_dims(q: Seq<usize>, v: Seq<usize>) -> Seq<usize> {
    q.update(q.len() - 1, v[v.len() - 1])
}

/// Checks the operands of scaled dot-product attention: each needs at least
/// three dimensions; the result then has the query's dimensions with the
/// last one replaced by the value's last.
pub fn attention_output_dims(q: &[usize], k: &[usize], v: &[usize]) -> (r: OxideResult<Vec<usize>>)
    ensures
        (q@.len() < 3 || k@.len() < 3 || v@.len() < 3) ==> (r matches Err(OxideError::InvalidArgument(m))
            && m@ == "Attention requires 3D+ tensors (batch, seq_len, dim)"@),
        !(q@.len() < 3 || k@.len() < 3 || v@.len() < 3) ==> (r matches Ok(d) && d@ == attention_dims(q@, v@)),
{
    if q.len() < 3 || k.len() < 3 || v.len() < 3 {
        return Err(OxideError::InvalidArgument(String::from_str("Attention requires 3D+ tensors (batch, seq_len, dim)")));
    }
    let mut d = vstd::slice::slice_to_vec(q);
    let last = d.len() - 1;
    d.set(last, v[v.len() - 1]);
    Ok(d)
}

/// The refusal of rotary embedding operands, if any: fewer than three
/// dimensions in `x`, or a cosine or sine table whose dimensions are not
/// `[seq_len, head_dim / 2]` (cosines checked first).
pub open spec fn rotary_refusal(x: Seq<usize>, cos: Seq<usize>, sin: Seq<usize>) -> Option<Seq<char>> {
    if x.len() < 3 {
        Some("apply_rotary_emb requires at least 3D tensor"@)
    } else {
        let expected = seq![x[x.len() - 2], (x[x.len() - 1] / 2) as usize];
        if cos != expected {
            Some("cos shape "@ + debug_usizes(cos) + " doesn't match expected "@ + debug_usizes(expected))
        } else if sin != expected {
            Some("sin shape "@ + debug_usizes(sin) + " doesn't match expected "@ + debug_usizes(expected))
        } else {
            None
        }
    }
}

fn same_dims(a: &[usize], b: &[usize]) -> (r: bool)
    ensures
        r == (a@ == b@),
{
    if a.len() != b.len() {
        return false;
    }
    let mut i: usize = 0;
    while i < a.len()
        invariant
            a@.len() == b@.len(),
            i <= a@.len(),
            forall|j: int| 0 <= j < i ==> a@[j] == b@[j],
        decreases a@.len() - i,
    {
        if a[i] != b[i] {
            return false;
        }
        i = i + 1;
    }
    assert(a@ =~= b@);
    true
}

/// Checks the operands of rotary embedding: `x` needs at least three
/// dimensions, `cos` and `sin` the dimensions `[seq_len, head_dim / 2]` of
/// `x`'s last two. Gives `(seq_len, head_dim)` when they pass.
pub fn check_rotary_shapes(x: &[usize], cos: &[usize], sin: &[usize]) -> (r: OxideResult<(usize, usize)>)
    ensures
        match rotary_refusal(x@, cos@, sin@) {
            Some(m) => r matches Err(OxideError::InvalidArgument(t)) && t@ == m,
            None => r == Ok::<(usize, usize), OxideError>((x@[x@.len() - 2], x@[x@.len() - 1])),
        },
{
    proof {
        reveal_strlit("apply_rotary_emb requires at least 3D tensor");
        reveal_strlit("cos shape ");
        reveal_strlit("sin shape ");
        reveal_strlit(" doesn't match expected ");
    }
    if x.len() < 3 {
        return Err(OxideError::InvalidArgument(String::from_str("apply_rotary_emb requires at least 3D tensor")));
    }
    let seq_len = x[x.len() - 2];
    let head_dim = x[x.len() - 1];
    let expected = [seq_len, head_dim / 2];
    assert(expected@ =~= seq![x@[x@.len() - 2], (x@[x@.len() - 1] / 2) as usize]);
    if !same_dims(cos, &expected) {
        let mut m = String::from_str("cos shape ");
        m.append(usizes_debug(cos).as_str());
        m.append(" doesn't match expected ");
        m.append(usizes_debug(&expected).as_str());
        return Err(OxideError::InvalidArgument(m));
    }
    if !same_dims(sin, &expected) {
        let mut m = String::from_str("sin shape ");
        m.append(usizes_debug(sin).as_str());
        m.append(" doesn't match expected ");
        m.append(usizes_debug(&expected).as_str());
        return Err(OxideError::InvalidArgument(m));
    }
    Ok((seq_len, head_dim))
}

/// The message of a normalization parameter whose shape is not `[last]`.
pub open spec fn norm_param_message(op: Seq<char>, param: Seq<char>, d: Seq<usize>, last: nat) -> Seq<char> {
    op + " "@ + param + " shape "@ + debug_usizes(d) + " doesn't match input last dim "@ + decimal(last)
}

/// Whether a normalization parameter fits an input whose last dimension is
/// `last`: a single dimension of that size.
pub open spec fn param_fits(d: Seq<usize>, last: usize) -> bool {
    d.len() == 1 && d[0] == last
}

fn param_message(op: &str, param: &str, d: &[usize], last: usize) -> (m: String)
    ensures
        m@ == norm_param_message(op@, param@, d@, last as nat),
{
    proof {
        reveal_strlit(" ");
        reveal_strlit(" shape ");
        reveal_strlit(" doesn't match input last dim ");
    }
    let mut m = String::from_str(op);
    m.append(" ");
    m.append(param);
    m.append(" shape ");
    m.append(usizes_debug(d).as_str());
    m.append(" doesn't match input last dim ");
    m.append(usize_to_string(last).as_str());
    m
}

/// Checks the operands of RMS normalization: the input needs a dimension
/// and the weight must be `[last]`, `last` being the input's last
/// dimension, which is given back.
pub fn check_rms_norm_shapes(input: &[usize], weight: &[usize]) -> (r: OxideResult<usize>)
    ensures
        input@.len() == 0 ==> (r matches Err(OxideError::InvalidArgument(m))
            && m@ == "rms_norm requires at least 1D tensor"@),
        input@.len() > 0 && !param_fits(weight@, input@.last()) ==> (r matches Err(OxideError::InvalidArgument(m))
            && m@ == norm_param_message("rms_norm"@, "weight"@, weight@, input@.last() as nat)),
        input@.len() > 0 && param_fits(weight@, input@.last()) ==> r == Ok::<usize, OxideError>(input@.last()),
{
    proof {
        reveal_strlit("rms_norm requires at least 1D tensor");
        reveal_strlit("rms_norm");
        reveal_strlit("weight");
    }
    if input.len() < 1 {
        return Err(OxideError::InvalidArgument(String::from_str("rms_norm requires at least 1D tensor")));
    }
    let last = input[input.len() - 1];
    if weight.len() != 1 || weight[0] != last {
        return Err(OxideError::InvalidArgument(param_message("rms_norm", "weight", weight, last)));
    }
    Ok(last)
}

/// Checks the operands of layer normalization: the input needs a dimension,
/// then the weight and the bias (in that order) must each be `[last]`,
/// `last` being the input's last dimension, which is given back.
pub fn check_layer_norm_shapes(input: &[usize], weight: &[usize], bias: &[usize]) -> (r: OxideResult<usize>)
    ensures
        input@.len() == 0 ==> (r matches Err(OxideError::InvalidArgument(m))
            && m@ == "layer_norm requires at least 1D tensor"@),
        input@.len() > 0 && !param_fits(weight@, input@.last()) ==> (r matches Err(OxideError::InvalidArgument(m))
            && m@ == norm_param_message("layer_norm"@, "weight"@, weight@, input@.last() as nat)),
        input@.len() > 0 && param_fits(weight@, input@.last()) && !param_fits(bias@, input@.last()) ==> (r matches Err(
            OxideError::InvalidArgument(m),
        ) && m@ == norm_param_message("layer_norm"@, "bias"@, bias@, input@.last() as nat)),
        input@.len() > 0 && param_fits(weight@, input@.last()) && param_fits(bias@, input@.last())
            ==> r == Ok::<usize, OxideError>(input@.last()),
{
    proof {
        reveal_strlit("layer_norm requires at least 1D tensor");
        reveal_strlit("layer_norm");
        reveal_strlit("weight");
        reveal_strlit("bias");
    }
    if input.len() < 1 {
        return Err(OxideError::InvalidArgument(String::from_str("layer_norm requires at least 1D tensor")));
    }
    let last = input[input.len() - 1];
    if weight.len() != 1 || weight[0] != last {
        return Err(OxideError::InvalidArgument(param_message("layer_norm", "weight", weight, last)));
    }
    if bias.len() != 1 || bias[0] != last {
        return Err(OxideError::InvalidArgument(param_message("layer_norm", "bias", bias, last)));
    }
    Ok(last)
}

/// Checks the dimension of a softmax: it must be below the rank.
pub fn check_softmax_dim(rank: usize, dim: usize) -> (r: OxideResult<()>)
    ensures
        dim >= rank ==> (r matches Err(OxideError::InvalidArgument(m)) && m@ == "softmax dim "@ + decimal(dim as nat)
            + " out of range for rank "@ + decimal(rank as nat)),
        dim < rank ==> r is Ok,
{
    proof {
        reveal_strlit("softmax dim ");
        reveal_strlit(" out of range for rank ");
    }
    if dim >= rank {
        let mut m = String::from_str("softmax dim ");
        m.append(usize_to_string(dim).as_str());
        m.append(" out of range for rank ");
        m.append(usize_to_string(rank).as_str());
        return Err(OxideError::InvalidArgument(m));
    }
    Ok(())
}

} // verus!
