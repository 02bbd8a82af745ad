//! Token embedding tables.
use vstd::prelude::*;
use vstd::string::*;
use crate::base::device::Device;
use crate::base::dtype::{Shape, lemma_prod_pair};
use crate::base::tensor::{Tensor, is_f32_words};
use crate::error::{OxideError, OxideResult};
use crate::ops::embedding::{embedding_fits, embedding_ok};

verus! {

/// The IEEE-754 single-precision bit pattern of `0.001`, the value new
/// tables start at.
pub open spec fn table_init_bits() -> u32 {
    0x3A83126F
}

/// A table of `num_embeddings` vectors of width `embedding_dim`.
pub struct Embedding {
    weight: Tensor,
    num_embeddings: usize,
    embedding_dim: usize,
}

impl Embedding {
    pub closed spec fn spec_weight(&self) -> Tensor {
        self.weight
    }

    pub closed spec fn spec_num_embeddings(&self) -> usize {
        self.num_embeddings
    }

    pub closed spec fn spec_embedding_dim(&self) -> usize {
        self.embedding_dim
    }

    /// A host table with every entry `0.001`; `device` is not used.
    pub fn new(num_embeddings: usize, embedding_dim: usize, device: &Device) -> (r: OxideResult<Self>)
        requires
            num_embeddings * embedding_dim <= usize::MAX,
        ensures
            r matches Ok(e) && is_f32_words(
                e.spec_weight()@,
                seq![num_embeddings, embedding_dim],
                Seq::new((num_embeddings * embedding_dim) as nat, |i: int| table_init_bits()),
            ) && e.spec_num_embeddings() == num_embeddings && e.spec_embedding_dim() == embedding_dim,
    {
        let n = num_embeddings * embedding_dim;
        let words = vec![0x3A83126Fu32; n];
        let dims = [num_embeddings, embedding_dim];
        proof {
            lemma_prod_pair(num_embeddings, embedding_dim);
            assert(dims@ =~= seq![num_embeddings, embedding_dim]);
        }
        let weight = Tensor::from_f32_bits(words.as_slice(), Shape::new(dims.as_slice()))?;
        assert(words@ =~= Seq::new((num_embeddings * embedding_dim) as nat, |i: int| table_init_bits()));
        Ok(Self { weight, num_embeddings, embedding_dim })
    }

    /// A table over `weight`, whose two dimensions are the table's size and
    /// width; refused for a weight that is not 2-D.
    pub fn from_tensor(weight: Tensor) -> (r: OxideResult<Self>)
        ensures
            weight.spec_dims().len() != 2 ==> (r matches Err(OxideError::InvalidArgument(m))
                && m@ == "Embedding weight must be 2D"@),
            weight.spec_dims().len() == 2 ==> (r matches Ok(e) && e.spec_weight() == weight
                && e.spec_num_embeddings() == weight.spec_dims()[0]
                && e.spec_embedding_dim() == weight.spec_dims()[1]),
    {
        let dims = weight.dims();
        if dims.len() != 2 {
            proof {
                reveal_strlit("Embedding weight must be 2D");
            }
            return Err(OxideError::InvalidArgument(String::from_str("Embedding weight must be 2D")));
        }
        let num_embeddings = dims[0];
        let embedding_dim = dims[1];
        Ok(Self { weight, num_embeddings, embedding_dim })
    }

    pub fn weight(&self) -> (r: &Tensor)
        ensures
            *r == self.spec_weight(),
    {
        &self.weight
    }

    /// Looks up the rows named by `indices`, as `ops::embedding` does.
    pub fn forward(&self, indices: &Tensor) -> (r: OxideResult<Tensor>)
        requires
            embedding_fits(indices@, self.spec_weight()@),
        ensures
            embedding_ok(indices@, self.spec_weight()@, r),
    {
        crate::ops::embedding::embedding(indices, &self.weight)
    }

    pub fn num_embeddings(&self) -> (r: usize)
        ensures
            r == self.spec_num_embeddings(),
    {
        self.num_embeddings
    }

    pub fn embedding_dim(&self) -> (r: usize)
        ensures
            r == self.spec_embedding_dim(),
    {
        self.embedding_dim
    }
}

} // verus!
