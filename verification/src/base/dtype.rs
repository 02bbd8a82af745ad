//! Element types, shapes and strided layouts.
use vstd::prelude::*;
use vstd::slice::slice_subrange;
use vstd::string::*;
use crate::text::str_eq;

verus! {

/// Element type of a tensor.
#[derive(Debug, Clone, Copy, PartialEq, Eq, Hash, Structural)]
pub enum DType {
    U8,
    U32,
    I64,
    BF16,
    F16,
    F32,
    F64,
    F8E4M3,
}

/// Bytes taken by one element of `d`.
pub open spec fn spec_size_in_bytes(d: DType) -> nat {
    match d {
        DType::U8 | DType::F8E4M3 => 1,
        DType::U32 => 4,
        DType::I64 => 8,
        DType::BF16 | DType::F16 => 2,
        DType::F32 => 4,
        DType::F64 => 8,
    }
}

/// The lower-case name of `d`, as `Display` writes it.
pub open spec fn spec_dtype_name(d: DType) -> Seq<char> {
    match d {
        DType::U8 => "u8"@,
        DType::U32 => "u32"@,
        DType::I64 => "i64"@,
        DType::BF16 => "bf16"@,
        DType::F16 => "f16"@,
        DType::F32 => "f32"@,
        DType::F64 => "f64"@,
        DType::F8E4M3 => "f8e4m3"@,
    }
}

/// The variant name of `d`, as `{:?}` writes it.
pub open spec fn spec_dtype_debug(d: DType) -> Seq<char> {
    match d {
        DType::U8 => "U8"@,
        DType::U32 => "U32"@,
        DType::I64 => "I64"@,
        DType::BF16 => "BF16"@,
        DType::F16 => "F16"@,
        DType::F32 => "F32"@,
        DType::F64 => "F64"@,
        DType::F8E4M3 => "F8E4M3"@,
    }
}

impl DType {
    pub fn size_in_bytes(&self) -> (r: usize)
        ensures
            r == spec_size_in_bytes(*self),
            1 <= r <= 8,
    {
        match self {
            DType::U8 | DType::F8E4M3 => 1,
            DType::U32 => 4,
            DType::I64 => 8,
            DType::BF16 | DType::F16 => 2,
            DType::F32 => 4,
            DType::F64 => 8,
        }
    }

    pub fn is_float(&self) -> (r: bool)
        ensures
            r == (*self is F16 || *self is BF16 || *self is F32 || *self is F64 || *self is F8E4M3),
    {
        match self {
            DType::F16 | DType::BF16 | DType::F32 | DType::F64 | DType::F8E4M3 => true,
            _ => false,
        }
    }

    pub fn is_int(&self) -> (r: bool)
        ensures
            r == (*self is U8 || *self is U32 || *self is I64),
    {
        match self {
            DType::U8 | DType::U32 | DType::I64 => true,
            _ => false,
        }
    }

    /// The name `Display` writes for this type.
    pub fn name(&self) -> (r: &'static str)
        ensures
            r@ == spec_dtype_name(*self),
    {
        proof {
            reveal_strlit("u8");
            reveal_strlit("u32");
            reveal_strlit("i64");
            reveal_strlit("bf16");
            reveal_strlit("f16");
            reveal_strlit("f32");
            reveal_strlit("f64");
            reveal_strlit("f8e4m3");
        }
        match self {
            DType::U8 => "u8",
            DType::U32 => "u32",
            DType::I64 => "i64",
            DType::BF16 => "bf16",
            DType::F16 => "f16",
            DType::F32 => "f32",
            DType::F64 => "f64",
            DType::F8E4M3 => "f8e4m3",
        }
    }

    /// The variant's name, as `{:?}` prints it.
    pub fn debug_name(&self) -> (r: &'static str)
        ensures
            r@ == spec_dtype_debug(*self),
    {
        match self {
            DType::U8 => "U8",
            DType::U32 => "U32",
            DType::I64 => "I64",
            DType::BF16 => "BF16",
            DType::F16 => "F16",
            DType::F32 => "F32",
            DType::F64 => "F64",
            DType::F8E4M3 => "F8E4M3",
        }
    }

    /// The text `Display` writes for this type.
    pub fn to_string(&self) -> (r: String)
        ensures
            r@ == spec_dtype_name(*self),
    {
        String::from_str(self.name())
    }

    /// Parses a type name; anything but the eight names is refused with
    /// `Unknown dtype: <name>`.
    pub fn parse(s: &str) -> (r: Result<DType, String>)
        ensures
            r matches Ok(d) ==> spec_dtype_name(d) == s@,
            r is Err ==> (forall|d: DType| spec_dtype_name(d) != s@),
            r matches Err(m) ==> m@ == "Unknown dtype: "@ + s@,
    {
        proof {
            reveal_strlit("u8");
            reveal_strlit("u32");
            reveal_strlit("i64");
            reveal_strlit("bf16");
            reveal_strlit("f16");
            reveal_strlit("f32");
            reveal_strlit("f64");
            reveal_strlit("f8e4m3");
            reveal_strlit("Unknown dtype: ");
        }
        if str_eq(s, "u8") {
            Ok(DType::U8)
        } else if str_eq(s, "u32") {
            Ok(DType::U32)
        } else if str_eq(s, "i64") {
            Ok(DType::I64)
        } else if str_eq(s, "bf16") {
            Ok(DType::BF16)
        } else if str_eq(s, "f16") {
            Ok(DType::F16)
        } else if str_eq(s, "f32") {
            Ok(DType::F32)
        } else if str_eq(s, "f64") {
            Ok(DType::F64)
        } else if str_eq(s, "f8e4m3") {
            Ok(DType::F8E4M3)
        } else {
            proof {
                assert forall|d: DType| spec_dtype_name(d) != s@ by {
                    match d {
                        DType::U8 => {},
                        DType::U32 => {},
                        DType::I64 => {},
                        DType::BF16 => {},
                        DType::F16 => {},
                        DType::F32 => {},
                        DType::F64 => {},
                        DType::F8E4M3 => {},
                    }
                }
            }
            let m = String::from_str("Unknown dtype: ");
            Err(m.concat(s))
        }
    }
}

impl std::str::FromStr for DType {
    type Err = String;

    /// As `DType::parse`: one of the eight names gives its dtype; anything
    /// else is refused with `Unknown dtype: <name>`.
    fn from_str(s: &str) -> (r: Result<Self, Self::Err>)
        ensures
            r matches Ok(d) ==> spec_dtype_name(d) == s@,
            r is Err ==> (forall|d: DType| spec_dtype_name(d) != s@),
            r matches Err(m) ==> m@ == "Unknown dtype: "@ + s@,
    {
        DType::parse(s)
    }
}

/// Product of a sequence of dimensions, folded from the left.
pub open spec fn prod(s: Seq<usize>) -> nat
    decreases s.len(),
{
    if s.len() == 0 {
        1
    } else {
        prod(s.drop_last()) * (s.last() as nat)
    }
}

/// Every running product from the left fits in a `usize`, so folding the
/// product from the left never overflows.
pub open spec fn prefix_fits(s: Seq<usize>) -> bool {
    forall|i: int| 0 <= i <= s.len() ==> #[trigger] prod(s.take(i)) <= usize::MAX
}

/// Every product of a suffix fits in a `usize`, so folding the product from
/// the right never overflows.
pub open spec fn suffix_fits(s: Seq<usize>) -> bool {
    forall|i: int| 0 <= i <= s.len() ==> #[trigger] prod(s.skip(i)) <= usize::MAX
}

/// Row-major strides of a shape: the stride of a dimension is the product of
/// all dimensions after it.
pub open spec fn contiguous_strides(s: Seq<usize>) -> Seq<usize> {
    Seq::new(s.len(), |i: int| prod(s.skip(i + 1)) as usize)
}

pub proof fn lemma_prod_concat(a: Seq<usize>, b: Seq<usize>)
    ensures
        prod(a + b) == prod(a) * prod(b),
    decreases b.len(),
{
    if b.len() == 0 {
        assert(a + b =~= a);
        assert(prod(b) == 1);
        assert(prod(a) * 1 == prod(a));
    } else {
        lemma_prod_concat(a, b.drop_last());
        assert((a + b).drop_last() =~= a + b.drop_last());
        assert((a + b).last() == b.last());
        assert(prod(a + b) == prod(a + b.drop_last()) * (b.last() as nat));
        assert(prod(b) == prod(b.drop_last()) * (b.last() as nat));
        vstd::arithmetic::mul::lemma_mul_is_associative(
            prod(a) as int,
            prod(b.drop_last()) as int,
            b.last() as int,
        );
    }
}

pub proof fn lemma_prod_single(x: usize)
    ensures
        prod(seq![x]) == x as nat,
{
    assert(seq![x].drop_last() =~= Seq::<usize>::empty());
    assert(prod(Seq::<usize>::empty()) == 1);
    assert(prod(seq![x]) == prod(seq![x].drop_last()) * (x as nat));
}

/// The product of a suffix starting at `i` is `s[i]` times the next suffix.
pub proof fn lemma_prod_skip(s: Seq<usize>, i: int)
    requires
        0 <= i < s.len(),
    ensures
        prod(s.skip(i)) == (s[i] as nat) * prod(s.skip(i + 1)),
{
    assert(s.skip(i) =~= seq![s[i]] + s.skip(i + 1));
    lemma_prod_concat(seq![s[i]], s.skip(i + 1));
    lemma_prod_single(s[i]);
}

/// The product of the first `i + 1` dimensions is the first `i` times `s[i]`.
pub proof fn lemma_prod_take(s: Seq<usize>, i: int)
    requires
        0 <= i < s.len(),
    ensures
        prod(s.take(i + 1)) == prod(s.take(i)) * (s[i] as nat),
{
    assert(s.take(i + 1).drop_last() =~= s.take(i));
}

/// The product and the running products of a two-dimensional shape.
pub proof fn lemma_prod_pair(a: usize, b: usize)
    requires
        a * b <= usize::MAX,
    ensures
        prod(seq![a, b]) == a * b,
        prefix_fits(seq![a, b]),
        suffix_fits(seq![a, b]),
{
    let s = seq![a, b];
    assert(s.take(0) =~= Seq::<usize>::empty());
    assert(s.take(1) =~= seq![a]);
    assert(s.take(2) =~= s);
    assert(s.skip(0) =~= s);
    assert(s.skip(1) =~= seq![b]);
    assert(s.skip(2) =~= Seq::<usize>::empty());
    lemma_prod_single(a);
    lemma_prod_single(b);
    lemma_prod_take(s, 1);
    assert(prod(s) == a * b);
    if a > 0 {
        assert(a <= a * b || b == 0) by (nonlinear_arith)
            requires
                a > 0;
    }
}

/// Shape of a tensor: up to eight dimensions.
#[derive(Debug, Clone, Copy, PartialEq, Eq, Hash)]
pub struct Shape {
    dims: [usize; 8],
    rank: usize,
}

impl View for Shape {
    type V = Seq<usize>;

    /// The dimensions, outermost first.
    closed spec fn view(&self) -> Seq<usize> {
        self.dims@.subrange(0, self.rank as int)
    }
}

impl Shape {
    /// At most eight dimensions are held; the unused slots hold 1.
    #[verifier::type_invariant]
    closed spec fn inv(self) -> bool {
        &&& self.rank <= 8
        &&& forall|i: int| self.rank <= i < 8 ==> self.dims@[i] == 1
    }

    /// A shape with the given dimensions; at most eight fit in its fixed
    /// storage, so more are left out by the precondition.
    pub fn new(dims: &[usize]) -> (s: Self)
        requires
            dims@.len() <= 8,
        ensures
            s@ == dims@,
    {
        let rank = dims.len();
        let mut arr = [1usize; 8];
        let mut i: usize = 0;
        while i < rank
            invariant
                rank == dims@.len(),
                rank <= 8,
                i <= rank,
                forall|j: int| 0 <= j < i ==> arr@[j] == dims@[j],
                forall|j: int| rank <= j < 8 ==> arr@[j] == 1,
            decreases rank - i,
        {
            arr[i] = dims[i];
            i = i + 1;
        }
        let s = Self { dims: arr, rank };
        assert(s@ =~= dims@);
        s
    }

    /// The shape of a scalar: no dimensions.
    pub fn scalar() -> (s: Self)
        ensures
            s@ == Seq::<usize>::empty(),
    {
        let s = Self { dims: [1; 8], rank: 0 };
        assert(s@ =~= Seq::<usize>::empty());
        s
    }

    pub fn from_dims(dims: &[usize]) -> (s: Self)
        requires
            dims@.len() <= 8,
        ensures
            s@ == dims@,
    {
        Self::new(dims)
    }

    pub fn rank(&self) -> (r: usize)
        ensures
            r == self@.len(),
            r <= 8,
    {
        proof {
            use_type_invariant(self);
        }
        self.rank
    }

    pub fn dims(&self) -> (r: &[usize])
        ensures
            r@ == self@,
    {
        proof {
            use_type_invariant(self);
        }
        slice_subrange(self.dims.as_slice(), 0, self.rank)
    }

    /// The dimension at position `i`.
    pub fn dim(&self, i: usize) -> (r: usize)
        requires
            i < self@.len(),
        ensures
            r == self@[i as int],
    {
        proof {
            use_type_invariant(self);
        }
        self.dims[i]
    }

    /// Number of elements: the product of the dimensions (1 for a scalar).
    pub fn elem_count(&self) -> (r: usize)
        requires
            prefix_fits(self@),
        ensures
            r == prod(self@),
    {
        proof {
            use_type_invariant(self);
        }
        let mut acc: usize = 1;
        let mut i: usize = 0;
        assert(self@.take(0) =~= Seq::<usize>::empty());
        while i < self.rank
            invariant
                self.rank <= 8,
                i <= self.rank,
                self@.len() == self.rank,
                prefix_fits(self@),
                acc == prod(self@.take(i as int)),
            decreases self.rank - i,
        {
            proof {
                lemma_prod_take(self@, i as int);
                assert(prod(self@.take(i + 1)) <= usize::MAX);
                assert(self@[i as int] == self.dims@[i as int]);
            }
            acc = acc * self.dims[i];
            i = i + 1;
        }
        assert(self@.take(self.rank as int) =~= self@);
        acc
    }

    /// Row-major strides of this shape.
    pub fn stride_contiguous(&self) -> (r: Vec<usize>)
        requires
            suffix_fits(self@),
        ensures
            r@ == contiguous_strides(self@),
    {
        proof {
            use_type_invariant(self);
        }
        let mut stride = vec![0usize; self.rank];
        let mut current: usize = 1;
        let mut i: usize = self.rank;
        assert(self@.skip(self.rank as int) =~= Seq::<usize>::empty());
        while i > 0
            invariant
                self.rank <= 8,
                i <= self.rank,
                self@.len() == self.rank,
                stride@.len() == self.rank,
                suffix_fits(self@),
                current == prod(self@.skip(i as int)),
                forall|j: int| i <= j < self.rank ==> stride@[j] == contiguous_strides(self@)[j],
            decreases i,
        {
            i = i - 1;
            stride.set(i, current);
            proof {
                lemma_prod_skip(self@, i as int);
                assert(prod(self@.skip(i as int)) <= usize::MAX);
                assert(self@[i as int] == self.dims@[i as int]);
                vstd::arithmetic::mul::lemma_mul_is_commutative(
                    self@[i as int] as int,
                    prod(self@.skip(i + 1)) as int,
                );
            }
            current = current * self.dims[i];
        }
        assert(stride@ =~= contiguous_strides(self@));
        stride
    }

    /// Whether `strides` are the row-major strides of this shape.
    pub fn is_contiguous(&self, strides: &[usize]) -> (r: bool)
        requires
            strides@.len() == self@.len() ==> suffix_fits(self@),
        ensures
            r == (strides@ == contiguous_strides(self@)),
    {
        if strides.len() != self.rank() {
            return false;
        }
        let expected = self.stride_contiguous();
        let mut i: usize = 0;
        while i < strides.len()
            invariant
                expected@ == contiguous_strides(self@),
                strides@.len() == expected@.len(),
                i <= strides@.len(),
                forall|j: int| 0 <= j < i ==> strides@[j] == expected@[j],
            decreases strides@.len() - i,
        {
            if strides[i] != expected[i] {
                return false;
            }
            i = i + 1;
        }
        assert(strides@ =~= expected@);
        true
    }

    /// Whether the element count and the row-major strides of this shape can
    /// be computed without leaving `usize`.
    pub(crate) fn counts_fit(&self) -> (r: bool)
        ensures
            r == (prefix_fits(self@) && suffix_fits(self@)),
    {
        self.prefix_fit() && self.strides_fit()
    }

    /// Whether every running product of the dimensions from the left fits in
    /// a `usize`.
    pub(crate) fn prefix_fit(&self) -> (r: bool)
        ensures
            r == prefix_fits(self@),
    {
        proof {
            use_type_invariant(self);
        }
        let rank = self.rank;
        let ghost s = self@;
        let mut acc: usize = 1;
        let mut i: usize = 0;
        assert(s.take(0) =~= Seq::<usize>::empty());
        while i < rank
            invariant
                rank <= 8,
                rank == self.rank,
                rank == s.len(),
                s == self@,
                i <= rank,
                acc == prod(s.take(i as int)),
                forall|j: int| 0 <= j <= i ==> #[trigger] prod(s.take(j)) <= usize::MAX,
            decreases rank - i,
        {
            proof {
                lemma_prod_take(s, i as int);
                assert(s[i as int] == self.dims@[i as int]);
            }
            match acc.checked_mul(self.dims[i]) {
                Some(next) => {
                    acc = next;
                },
                None => {
                    return false;
                },
            }
            i = i + 1;
        }
        assert(s.take(rank as int) =~= s);
        true
    }

    /// Whether the row-major strides of this shape (every product of a
    /// suffix of the dimensions) fit in a `usize`.
    pub(crate) fn strides_fit(&self) -> (r: bool)
        ensures
            r == suffix_fits(self@),
    {
        proof {
            use_type_invariant(self);
        }
        let rank = self.rank;
        let ghost s = self@;
        let mut cur: usize = 1;
        let mut k: usize = rank;
        assert(s.skip(rank as int) =~= Seq::<usize>::empty());
        while k > 0
            invariant
                rank <= 8,
                rank == self.rank,
                rank == s.len(),
                s == self@,
                k <= rank,
                cur == prod(s.skip(k as int)),
                forall|j: int| k <= j <= rank ==> #[trigger] prod(s.skip(j)) <= usize::MAX,
            decreases k,
        {
            k = k - 1;
            proof {
                lemma_prod_skip(s, k as int);
                assert(s[k as int] == self.dims@[k as int]);
                vstd::arithmetic::mul::lemma_mul_is_commutative(s[k as int] as int, cur as int);
            }
            match cur.checked_mul(self.dims[k]) {
                Some(next) => {
                    cur = next;
                },
                None => {
                    return false;
                },
            }
        }
        true
    }

    /// This shape with dimension `dim` set to `len`; `start` is not used.
    pub fn narrow(&self, dim: usize, start: usize, len: usize) -> (s: Self)
        requires
            dim < self@.len(),
        ensures
            s@ == self@.update(dim as int, len),
    {
        proof {
            use_type_invariant(self);
        }
        let mut arr = self.dims;
        arr[dim] = len;
        let s = Self { dims: arr, rank: self.rank };
        assert(s@ =~= self@.update(dim as int, len));
        s
    }
}

/// A strided view of a tensor's elements.
#[derive(Debug, Clone, Copy, PartialEq, Eq)]
pub struct Layout {
    pub shape: Shape,
    pub strides: [usize; 8],
    pub offset: usize,
}

impl Layout {
    /// The strides of the dimensions in use.
    pub open spec fn stride_seq(&self) -> Seq<usize> {
        self.strides@.subrange(0, self.shape@.len() as int)
    }

    /// A layout of `shape` with `strides` (one per dimension; another count
    /// would overrun the fixed storage and is left out) and `offset`. Unused
    /// stride slots hold 0.
    pub fn new(shape: Shape, strides: Vec<usize>, offset: usize) -> (l: Self)
        requires
            strides@.len() == shape@.len(),
        ensures
            l.shape == shape,
            l.stride_seq() == strides@,
            forall|i: int| shape@.len() <= i < 8 ==> l.strides@[i] == 0,
            l.offset == offset,
    {
        let rank = shape.rank();
        let mut arr = [0usize; 8];
        let mut i: usize = 0;
        while i < rank
            invariant
                rank == shape@.len(),
                rank <= 8,
                strides@.len() == rank,
                i <= rank,
                forall|j: int| 0 <= j < i ==> arr@[j] == strides@[j],
                forall|j: int| rank <= j < 8 ==> arr@[j] == 0,
            decreases rank - i,
        {
            arr[i] = strides[i];
            i = i + 1;
        }
        let l = Self { shape, strides: arr, offset };
        assert(l.stride_seq() =~= strides@);
        l
    }

    /// The row-major layout of `shape`, starting at offset 0.
    pub fn contiguous(shape: Shape) -> (l: Self)
        requires
            suffix_fits(shape@),
        ensures
            l.shape == shape,
            l.stride_seq() == contiguous_strides(shape@),
            forall|i: int| shape@.len() <= i < 8 ==> l.strides@[i] == 0,
            l.offset == 0,
    {
        let strides = shape.stride_contiguous();
        Self::new(shape, strides, 0)
    }

    pub fn is_contiguous(&self) -> (r: bool)
        requires
            suffix_fits(self.shape@),
        ensures
            r == (self.stride_seq() == contiguous_strides(self.shape@)),
    {
        let rank = self.shape.rank();
        let s = slice_subrange(self.strides.as_slice(), 0, rank);
        self.shape.is_contiguous(s)
    }

    pub fn num_elements(&self) -> (r: usize)
        requires
            prefix_fits(self.shape@),
        ensures
            r == prod(self.shape@),
    {
        self.shape.elem_count()
    }

    /// This layout restricted to `len` entries of dimension `dim` from
    /// `start`: the dimension shrinks and the offset moves by `start` steps
    /// of that dimension's stride.
    pub fn narrow(&self, dim: usize, start: usize, len: usize) -> (l: Self)
        requires
            dim < self.shape@.len(),
            self.offset + start * self.strides@[dim as int] <= usize::MAX,
        ensures
            l.shape@ == self.shape@.update(dim as int, len),
            l.strides == self.strides,
            l.offset == self.offset + start * self.strides@[dim as int],
    {
        let new_shape = self.shape.narrow(dim, start, len);
        let _ = self.shape.rank();
        proof {
            vstd::arithmetic::mul::lemma_mul_nonnegative(start as int, self.strides@[dim as int] as int);
            assert(start * self.strides@[dim as int] <= usize::MAX);
        }
        let step = start * self.strides[dim];
        Self { shape: new_shape, strides: self.strides, offset: self.offset + step }
    }
}

} // verus!
