//! What the planners know of a tensor: its element type, its shape, where it
//! lies and whether it is contiguous.

use vstd::prelude::*;

verus! {

/// Element type of a tensor.
#[derive(Debug, Clone, Copy, PartialEq, Eq, Structural)]
pub enum DType {
    U8,
    U32,
    I16,
    I32,
    I64,
    BF16,
    F16,
    F32,
    F64,
    F8E4M3,
    F6E2M3,
    F6E3M2,
    F4,
    F8E8M0,
}

impl DType {
    /// Bytes of one element; types narrower than a byte count as none.
    pub open spec fn bytes(self) -> nat {
        match self {
            DType::U8 | DType::F8E4M3 | DType::F8E8M0 => 1,
            DType::I16 | DType::BF16 | DType::F16 => 2,
            DType::U32 | DType::I32 | DType::F32 => 4,
            DType::I64 | DType::F64 => 8,
            DType::F6E2M3 | DType::F6E3M2 | DType::F4 => 0,
        }
    }

    /// Bytes of one element.
    pub fn size_in_bytes(&self) -> (r: usize)
        ensures
            r == self.bytes(),
            r <= 8,
    {
        match self {
            DType::U8 | DType::F8E4M3 | DType::F8E8M0 => 1,
            DType::I16 | DType::BF16 | DType::F16 => 2,
            DType::U32 | DType::I32 | DType::F32 => 4,
            DType::I64 | DType::F64 => 8,
            DType::F6E2M3 | DType::F6E3M2 | DType::F4 => 0,
        }
    }

    /// The element types that the logits kernels read.
    pub open spec fn is_logits_float(self) -> bool {
        self == DType::BF16 || self == DType::F16 || self == DType::F32
    }

    /// Whether the logits kernels read this element type.
    pub fn logits_float(&self) -> (r: bool)
        ensures
            r == self.is_logits_float(),
    {
        matches!(self, DType::BF16 | DType::F16 | DType::F32)
    }
}

/// Where a tensor lies. Accelerators are told apart by their device identity.
#[derive(Debug, Clone, Copy, PartialEq, Eq, Structural)]
pub enum Device {
    Cpu,
    Cuda(usize),
    Metal(usize),
}

/// The product of the dimensions: the number of elements of a shape.
pub open spec fn product(dims: Seq<usize>) -> nat
    decreases dims.len(),
{
    if dims.len() == 0 {
        1
    } else {
        product(dims.drop_last()) * dims.last() as nat
    }
}

/// A shape with a zero dimension has no elements.
proof fn lemma_zero_dim(dims: Seq<usize>, i: int)
    requires
        0 <= i < dims.len(),
        dims[i] == 0,
    ensures
        product(dims) == 0,
    decreases dims.len(),
{
    if i < dims.len() - 1 {
        lemma_zero_dim(dims.drop_last(), i);
        assert(0 * dims.last() as nat == 0) by (nonlinear_arith);
    } else {
        assert(product(dims.drop_last()) * 0 == 0) by (nonlinear_arith);
    }
}

/// With no zero dimension, leading dimensions hold at most as many elements as
/// the whole shape.
proof fn lemma_prefix_product(dims: Seq<usize>, n: int)
    requires
        0 <= n <= dims.len(),
        forall|i: int| 0 <= i < dims.len() ==> dims[i] > 0,
    ensures
        0 < product(dims.take(n)) <= product(dims),
    decreases dims.len() - n, dims.len(),
{
    if n == dims.len() {
        assert(dims.take(n) =~= dims);
        if dims.len() > 0 {
            lemma_prefix_product(dims.drop_last(), dims.len() - 1);
            assert(dims.drop_last().take(dims.len() - 1) =~= dims.drop_last());
            let p = product(dims.drop_last());
            let d = dims.last() as nat;
            assert(p * d > 0) by (nonlinear_arith)
                requires
                    p > 0,
                    d > 0,
            ;
        }
    } else {
        lemma_prefix_product(dims, n + 1);
        let longer = dims.take(n + 1);
        assert(longer.drop_last() =~= dims.take(n));
        let p = product(dims.take(n));
        let d = dims[n] as nat;
        assert(longer.last() == dims[n]);
        assert(p > 0 && p <= p * d) by (nonlinear_arith)
            requires
                p * d > 0,
                d > 0,
        ;
    }
}

/// What the planners know of a tensor.
pub struct TensorMeta {
    pub dtype: DType,
    pub dims: Vec<usize>,
    pub contiguous: bool,
    pub device: Device,
}

impl TensorMeta {
    /// Number of elements.
    pub open spec fn count(&self) -> nat {
        product(self.dims@)
    }

    /// The element count can be held in a machine word.
    pub open spec fn wf(&self) -> bool {
        self.count() <= usize::MAX
    }

    /// Number of elements.
    pub fn elem_count(&self) -> (r: usize)
        requires
            self.wf(),
        ensures
            r == self.count(),
    {
        let n: usize = self.dims.len();
        let mut i: usize = 0;
        while i < n
            invariant
                i <= n == self.dims@.len(),
                forall|j: int| 0 <= j < i ==> self.dims@[j] > 0,
            decreases n - i,
        {
            if self.dims[i] == 0 {
                proof {
                    lemma_zero_dim(self.dims@, i as int);
                }
                return 0;
            }
            i += 1;
        }
        let mut count: usize = 1;
        let mut i: usize = 0;
        assert(self.dims@.take(0) =~= Seq::<usize>::empty());
        while i < n
            invariant
                i <= n == self.dims@.len(),
                forall|j: int| 0 <= j < self.dims@.len() ==> self.dims@[j] > 0,
                self.wf(),
                count == product(self.dims@.take(i as int)),
            decreases n - i,
        {
            proof {
                lemma_prefix_product(self.dims@, i + 1);
                assert(self.dims@.take(i + 1).drop_last() =~= self.dims@.take(i as int));
            }
            count = count * self.dims[i];
            i += 1;
        }
        assert(self.dims@.take(n as int) =~= self.dims@);
        count
    }

    /// The last dimension, or nothing for a scalar.
    pub open spec fn last(&self) -> Option<usize> {
        if self.dims@.len() == 0 {
            None
        } else {
            Some(self.dims@.last())
        }
    }

    /// The last dimension, or nothing for a scalar.
    pub fn last_dim(&self) -> (r: Option<usize>)
        ensures
            r == self.last(),
    {
        let n: usize = self.dims.len();
        if n == 0 {
            None
        } else {
            Some(self.dims[n - 1])
        }
    }

    /// A contiguous tensor of one dimension.
    pub open spec fn is_vector(&self, dtype: DType, len: nat, device: Device) -> bool {
        &&& self.dtype == dtype
        &&& self.dims@.len() == 1
        &&& self.dims@[0] == len
        &&& self.contiguous
        &&& self.device == device
    }

    /// A contiguous tensor of two dimensions.
    pub open spec fn is_matrix(&self, dtype: DType, rows: nat, cols: nat, device: Device) -> bool {
        &&& self.dtype == dtype
        &&& self.dims@.len() == 2
        &&& self.dims@[0] == rows
        &&& self.dims@[1] == cols
        &&& self.contiguous
        &&& self.device == device
    }

    /// A contiguous tensor of one dimension.
    pub fn vector(dtype: DType, len: usize, device: Device) -> (r: TensorMeta)
        ensures
            r.is_vector(dtype, len as nat, device),
            r.count() == len,
    {
        let r = TensorMeta { dtype, dims: vec![len], contiguous: true, device };
        proof {
            lemma_vector_count(r.dims@);
        }
        r
    }

    /// A contiguous tensor of two dimensions.
    pub fn matrix(dtype: DType, rows: usize, cols: usize, device: Device) -> (r: TensorMeta)
        ensures
            r.is_matrix(dtype, rows as nat, cols as nat, device),
            r.count() == rows * cols,
    {
        let r = TensorMeta { dtype, dims: vec![rows, cols], contiguous: true, device };
        proof {
            let d = r.dims@;
            assert(d.drop_last() =~= seq![rows]);
            lemma_vector_count(d.drop_last());
        }
        r
    }
}

/// A shape of one dimension has as many elements as that dimension says.
proof fn lemma_vector_count(dims: Seq<usize>)
    requires
        dims.len() == 1,
    ensures
        product(dims) == dims[0],
{
    assert(dims.drop_last() =~= Seq::<usize>::empty());
    assert(product(dims.drop_last()) == 1);
    let d = dims.last() as nat;
    assert(1 * d == d) by (nonlinear_arith);
}

/// A copy of a shape.
pub fn copy_dims(a: &Vec<usize>) -> (r: Vec<usize>)
    ensures
        r@ == a@,
{
    let n: usize = a.len();
    let mut r: Vec<usize> = Vec::with_capacity(n);
    let mut i: usize = 0;
    while i < n
        invariant
            i <= n == a@.len(),
            r@ == a@.take(i as int),
        decreases n - i,
    {
        r.push(a[i]);
        i += 1;
        assert(r@ =~= a@.take(i as int));
    }
    assert(r@ =~= a@);
    r
}

/// A shape has as many elements as its leading dimensions times its others; one of a single
/// dimension has as many as that says.
pub proof fn law_counts_multiply(lead: Seq<usize>, rest: Seq<usize>, n: usize)
    ensures
        product(lead + rest) == product(lead) * product(rest),
        product(seq![n]) == n,
    decreases rest.len(),
{
    lemma_vector_count(seq![n]);
    if rest.len() == 0 {
        assert(lead + rest =~= lead);
        assert(product(rest) == 1);
        assert(product(lead) * 1 == product(lead)) by (nonlinear_arith);
    } else {
        law_counts_multiply(lead, rest.drop_last(), n);
        assert((lead + rest).drop_last() =~= lead + rest.drop_last());
        let (a, b, c) = (product(lead), product(rest.drop_last()), rest.last() as nat);
        assert(a * b * c == a * (b * c)) by (nonlinear_arith);
    }
}

/// The types of elements are as wide as they are called; those narrower than a byte count as none.
pub proof fn law_elements_are_as_wide_as_their_types(dtype: DType)
    ensures
        8 * dtype.bytes() == (match dtype {
            DType::U8 | DType::F8E4M3 | DType::F8E8M0 => 8nat,
            DType::I16 | DType::BF16 | DType::F16 => 16,
            DType::U32 | DType::I32 | DType::F32 => 32,
            DType::I64 | DType::F64 => 64,
            DType::F6E2M3 | DType::F6E3M2 | DType::F4 => 0,
        }),
{
}

} // verus!
