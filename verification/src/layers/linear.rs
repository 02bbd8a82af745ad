//! Fully connected layers.
use vstd::prelude::*;
use vstd::string::*;
use crate::base::device::Device;
use crate::base::dtype::{Shape, lemma_prod_pair};
use crate::base::tensor::{Tensor, is_f32_words, transpose_message};
use crate::error::{OxideError, OxideResult};
use crate::ops::matmul::{
    add_fits, add_ok, matmul_dims, matmul_fits, matmul_refusal, place_of, zeros_at, zeros_place,
};
use crate::text::decimal;

verus! {

/// The IEEE-754 single-precision bit pattern of `0.01`, the value new
/// layers start their weights at.
pub open spec fn weight_init_bits() -> u32 {
    0x3C23D70A
}

/// A linear map `y = x W^T + b`, with `W` of shape `[out, in]`.
pub struct Linear {
    weight: Tensor,
    bias: Option<Tensor>,
}

/// The dimensions of the transposed weight: its first two swapped.
pub open spec fn swap01(d: Seq<usize>) -> Seq<usize> {
    d.update(0, d[1]).update(1, d[0])
}

/// The message of a transpose of dimensions 0 and 1 on a tensor of rank
/// `rank`.
pub open spec fn transpose01_message(rank: nat) -> Seq<char> {
    transpose_message(0, 1, rank)
}

impl Linear {
    pub closed spec fn spec_weight(&self) -> Tensor {
        self.weight
    }

    pub closed spec fn spec_bias(&self) -> Option<Tensor> {
        self.bias
    }

    /// A host layer with every weight `0.01` and, when `bias` is set, a zero
    /// bias of length `out_features`; `device` is not used.
    pub fn new(in_features: usize, out_features: usize, bias: bool, device: &Device) -> (r: OxideResult<Self>)
        requires
            in_features * out_features <= usize::MAX,
        ensures
            r matches Ok(l) && is_f32_words(
                l.spec_weight()@,
                seq![out_features, in_features],
                Seq::new((in_features * out_features) as nat, |i: int| weight_init_bits()),
            ),
            r matches Ok(l) ==> (bias ==> (l.spec_bias() matches Some(b) && is_f32_words(
                b@,
                seq![out_features],
                Seq::new(out_features as nat, |i: int| 0u32),
            ))),
            r matches Ok(l) ==> (!bias ==> l.spec_bias() is None),
    {
        let n = in_features * out_features;
        let words = vec![0x3C23D70Au32; n];
        let dims = [out_features, in_features];
        proof {
            vstd::arithmetic::mul::lemma_mul_is_commutative(in_features as int, out_features as int);
            lemma_prod_pair(out_features, in_features);
            assert(dims@ =~= seq![out_features, in_features]);
        }
        let weight = Tensor::from_f32_bits(words.as_slice(), Shape::new(dims.as_slice()))?;
        assert(words@ =~= Seq::new((in_features * out_features) as nat, |i: int| weight_init_bits()));
        let bias_tensor = if bias {
            let zeros = vec![0u32; out_features];
            let bdims = [out_features];
            proof {
                crate::base::dtype::lemma_prod_single(out_features);
                let s = bdims@;
                assert(s.skip(0) =~= s);
                assert(s.skip(1) =~= Seq::<usize>::empty());
                assert(s =~= seq![out_features]);
            }
            let b = Tensor::from_f32_bits(zeros.as_slice(), Shape::new(bdims.as_slice()))?;
            assert(zeros@ =~= Seq::new(out_features as nat, |i: int| 0u32));
            Some(b)
        } else {
            None
        };
        Ok(Self { weight, bias: bias_tensor })
    }

    /// A layer over the given weight and bias; never fails.
    pub fn from_tensors(weight: Tensor, bias: Option<Tensor>) -> (r: OxideResult<Self>)
        ensures
            r matches Ok(l) && l.spec_weight() == weight && l.spec_bias() == bias,
    {
        Ok(Self { weight, bias })
    }

    pub fn weight(&self) -> (r: &Tensor)
        ensures
            *r == self.spec_weight(),
    {
        &self.weight
    }

    pub fn bias(&self) -> (r: Option<&Tensor>)
        ensures
            r matches Some(b) ==> self.spec_bias() == Some(*b),
            r is None <==> self.spec_bias() is None,
    {
        match &self.bias {
            Some(b) => Some(b),
            None => None,
        }
    }

    /// Applies the layer: the input times the transposed weight, plus the
    /// bias when there is one. Refused when the weight has fewer than two
    /// dimensions, and where `matmul` or `add` refuse.
    pub fn forward(&self, input: &Tensor) -> (r: OxideResult<Tensor>)
        requires
            ({
                let wd = self.spec_weight().spec_dims();
                let id = input.spec_dims();
                let pw = place_of(self.spec_weight()@.data);
                let pi = place_of(input@.data);
                wd.len() >= 2 ==> {
                    &&& matmul_fits(id, input@.dtype, pi, swap01(wd), pw)
                    &&& matmul_refusal(id, pi, swap01(wd), pw) is None
                        ==> (self.spec_bias() matches Some(b) ==> add_fits(
                        matmul_dims(id, swap01(wd)),
                        input@.dtype,
                        zeros_place(matmul_dims(id, swap01(wd)), input@.dtype, pi),
                        b.spec_dims(),
                        place_of(b@.data),
                    ))
                }
            }),
        ensures
            ({
                let wd = self.spec_weight().spec_dims();
                let id = input.spec_dims();
                let pw = place_of(self.spec_weight()@.data);
                let pi = place_of(input@.data);
                if wd.len() < 2 {
                    r matches Err(OxideError::InvalidArgument(m)) && m@ == transpose01_message(wd.len())
                } else {
                    match matmul_refusal(id, pi, swap01(wd), pw) {
                        Some(m) => r matches Err(OxideError::InvalidArgument(x)) && x@ == m,
                        None => match self.spec_bias() {
                            None => r matches Ok(t) && zeros_at(t@, matmul_dims(id, swap01(wd)), input@.dtype, pi),
                            Some(b) => add_ok(
                                matmul_dims(id, swap01(wd)),
                                input@.dtype,
                                zeros_place(matmul_dims(id, swap01(wd)), input@.dtype, pi),
                                b.spec_dims(),
                                place_of(b@.data),
                                r,
                            ),
                        },
                    }
                }
            }),
    {
        let wt = self.weight.transpose(0, 1)?;
        proof {
            let wd = self.weight.spec_dims();
            assert(wt.spec_dims() =~= swap01(wd));
            assert(place_of(wt@.data) == place_of(self.weight@.data));
        }
        let output = crate::ops::matmul::matmul(input, &wt)?;
        match &self.bias {
            Some(b) => crate::ops::matmul::add(&output, b),
            None => Ok(output),
        }
    }

    /// The input width: the weight's second dimension.
    pub fn in_features(&self) -> (r: usize)
        requires
            self.spec_weight().spec_dims().len() >= 2,
        ensures
            r == self.spec_weight().spec_dims()[1],
    {
        self.weight.dims()[1]
    }

    /// The output width: the weight's first dimension.
    pub fn out_features(&self) -> (r: usize)
        requires
            self.spec_weight().spec_dims().len() >= 1,
        ensures
            r == self.spec_weight().spec_dims()[0],
    {
        self.weight.dims()[0]
    }
}

} // verus!
