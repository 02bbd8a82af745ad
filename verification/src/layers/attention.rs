//! Attention and feed-forward blocks: their projections and head layout.
use vstd::prelude::*;
use crate::base::device::Device;
use crate::base::tensor::is_f32_words;
use crate::error::OxideResult;
use crate::layers::linear::{Linear, weight_init_bits};

verus! {

/// Multi-head attention with grouped key/value heads: four projections and
/// the head layout.
pub struct MultiHeadAttention {
    pub q_proj: Linear,
    pub k_proj: Linear,
    pub v_proj: Linear,
    pub o_proj: Linear,
    pub num_heads: usize,
    pub num_kv_heads: usize,
    pub head_dim: usize,
    pub hidden_dim: usize,
}

/// A fresh projection from `i` to `o` features with a zero bias, as
/// `Linear::new` makes it.
pub open spec fn fresh_linear(l: Linear, i: usize, o: usize) -> bool {
    &&& is_f32_words(l.spec_weight()@, seq![o, i], Seq::new((i * o) as nat, |k: int| weight_init_bits()))
    &&& l.spec_bias() matches Some(b) && is_f32_words(b@, seq![o], Seq::new(o as nat, |k: int| 0u32))
}

impl MultiHeadAttention {
    /// Fresh projections for `num_heads` query heads and `num_kv_heads`
    /// key/value heads of width `hidden_dim / num_heads`.
    pub fn new(hidden_dim: usize, num_heads: usize, num_kv_heads: usize, device: &Device) -> (r: OxideResult<Self>)
        requires
            num_heads > 0,
            hidden_dim * hidden_dim <= usize::MAX,
            num_kv_heads * (hidden_dim / num_heads) <= usize::MAX,
            hidden_dim * (num_kv_heads * (hidden_dim / num_heads)) <= usize::MAX,
        ensures
            r matches Ok(m) && m.num_heads == num_heads && m.num_kv_heads == num_kv_heads
                && m.head_dim == hidden_dim / num_heads && m.hidden_dim == hidden_dim
                && fresh_linear(m.q_proj, hidden_dim, hidden_dim)
                && fresh_linear(m.k_proj, hidden_dim, (num_kv_heads * (hidden_dim / num_heads)) as usize)
                && fresh_linear(m.v_proj, hidden_dim, (num_kv_heads * (hidden_dim / num_heads)) as usize)
                && fresh_linear(m.o_proj, hidden_dim, hidden_dim),
    {
        let head_dim = hidden_dim / num_heads;
        let kv = num_kv_heads * head_dim;
        let q_proj = Linear::new(hidden_dim, hidden_dim, true, device)?;
        let k_proj = Linear::new(hidden_dim, kv, true, device)?;
        let v_proj = Linear::new(hidden_dim, kv, true, device)?;
        let o_proj = Linear::new(hidden_dim, hidden_dim, true, device)?;
        Ok(Self { q_proj, k_proj, v_proj, o_proj, num_heads, num_kv_heads, head_dim, hidden_dim })
    }

    /// Attention over given projections; the width is the query projection's
    /// input width.
    pub fn from_linear_layers(
        q_proj: Linear,
        k_proj: Linear,
        v_proj: Linear,
        o_proj: Linear,
        num_heads: usize,
        num_kv_heads: usize,
    ) -> (r: OxideResult<Self>)
        requires
            num_heads > 0,
            q_proj.spec_weight().spec_dims().len() >= 2,
        ensures
            r matches Ok(m) && m.q_proj == q_proj && m.k_proj == k_proj && m.v_proj == v_proj
                && m.o_proj == o_proj && m.num_heads == num_heads && m.num_kv_heads == num_kv_heads
                && m.hidden_dim == q_proj.spec_weight().spec_dims()[1]
                && m.head_dim == m.hidden_dim / num_heads,
    {
        let hidden_dim = q_proj.in_features();
        let head_dim = hidden_dim / num_heads;
        Ok(Self { q_proj, k_proj, v_proj, o_proj, num_heads, num_kv_heads, head_dim, hidden_dim })
    }
}

/// The gated feed-forward block: gate, up and down projections.
pub struct MLP {
    pub gate_proj: Linear,
    pub up_proj: Linear,
    pub down_proj: Linear,
}

impl MLP {
    /// Fresh projections from `hidden_dim` to `intermediate_dim` and back.
    pub fn new(hidden_dim: usize, intermediate_dim: usize, device: &Device) -> (r: OxideResult<Self>)
        requires
            hidden_dim * intermediate_dim <= usize::MAX,
        ensures
            r matches Ok(m) && fresh_linear(m.gate_proj, hidden_dim, intermediate_dim)
                && fresh_linear(m.up_proj, hidden_dim, intermediate_dim)
                && fresh_linear(m.down_proj, intermediate_dim, hidden_dim),
    {
        proof {
            vstd::arithmetic::mul::lemma_mul_is_commutative(hidden_dim as int, intermediate_dim as int);
        }
        let gate_proj = Linear::new(hidden_dim, intermediate_dim, true, device)?;
        let up_proj = Linear::new(hidden_dim, intermediate_dim, true, device)?;
        let down_proj = Linear::new(intermediate_dim, hidden_dim, true, device)?;
        Ok(Self { gate_proj, up_proj, down_proj })
    }

    /// A block over given projections; never fails.
    pub fn from_linear_layers(gate_proj: Linear, up_proj: Linear, down_proj: Linear) -> (r: OxideResult<Self>)
        ensures
            r matches Ok(m) && m.gate_proj == gate_proj && m.up_proj == up_proj && m.down_proj == down_proj,
    {
        Ok(Self { gate_proj, up_proj, down_proj })
    }
}

} // verus!
