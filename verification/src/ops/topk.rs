//! Top-k and sorting along the last dimension.

use vstd::prelude::*;

use crate::ops::{OpError, MAX_KERNEL_COUNT};
use crate::tensor::{copy_dims, DType, Device, TensorMeta};

verus! {

/// Values and indices of a top-k.
pub struct TopKOutput {
    pub values: TensorMeta,
    pub indices: TensorMeta,
}

/// Values and indices of a top-k over logits, with the full softmax.
pub struct TopKLogitsOutput {
    pub values: TensorMeta,
    pub indices: TensorMeta,
    /// `[softmax_denominator, global_max]` for the full-vocabulary softmax at
    /// the temperature used for top-k selection.
    pub softmax_info: TensorMeta,
    pub workspace: Vec<TensorMeta>,
}

/// A top-k over logits in one tensor.
pub struct TopKLogitsPackedOutput {
    /// Each row is packed as `[values; indices_as_f32; softmax_denominator; global_max]`.
    pub packed: TensorMeta,
    pub k: usize,
    pub workspace: Vec<TensorMeta>,
}

/// A ranked top-k over logits in one tensor.
pub struct RankedTopKPackedOutput {
    /// Each row is packed as `[values; indices_as_f32]`.
    pub packed: TensorMeta,
    pub k: usize,
    pub workspace: Vec<TensorMeta>,
}

/// Counts that a top-k launch hands to its kernel.
#[derive(Debug, Clone, Copy, PartialEq, Eq, Structural)]
pub struct TopKPlan {
    pub nrows: i32,
    pub ncols: i32,
    pub k: i32,
    /// Elements of the values and of the indices.
    pub out_elems: usize,
}

/// Why a top-k along the last dimension is refused.
pub open spec fn topk_refusal(input: TensorMeta) -> Option<OpError> {
    if input.dims@.len() == 0 {
        Some(OpError::EmptyDims)
    } else if input.device !is Cuda {
        Some(OpError::LogitsDevice)
    } else if !input.dtype.is_logits_float() {
        Some(OpError::LogitsDType)
    } else {
        None
    }
}

/// A shape that differs from another at most in its last dimension, which is `k`.
pub open spec fn with_last(dims: Seq<usize>, k: usize) -> Seq<usize> {
    dims.update(dims.len() - 1, k)
}

/// Plans the top-k along the last dimension of the final row of logits: the values
/// have the element type of that row, the indices are 32-bit, and both have `k` as
/// last dimension. Which row is final, the caller has settled.
///
/// The kernels count rows and columns with 32-bit integers, and a tensor whose
/// last dimension is empty has no rows.
pub fn cuda_topk(input: &TensorMeta, k: usize) -> (r: Result<(TopKPlan, TopKOutput), OpError>)
    requires
        input.wf(),
        input.dims@.len() > 0 ==> {
            &&& 0 < input.dims@.last() <= MAX_KERNEL_COUNT
            &&& input.count() / (input.dims@.last() as nat) <= MAX_KERNEL_COUNT
            &&& input.count() / (input.dims@.last() as nat) * k <= usize::MAX
        },
        k <= MAX_KERNEL_COUNT,
    ensures
        match topk_refusal(*input) {
            Some(e) => r == Err::<(TopKPlan, TopKOutput), OpError>(e),
            None => r matches Ok((plan, out)) && {
                let last = input.dims@.last();
                &&& plan.ncols == last
                &&& plan.nrows == input.count() / (last as nat)
                &&& plan.k == k
                &&& plan.out_elems == plan.nrows * k
                &&& out.values.dtype == input.dtype
                &&& out.indices.dtype == DType::U32
                &&& out.values.dims@ == with_last(input.dims@, k)
                &&& out.indices.dims@ == with_last(input.dims@, k)
                &&& out.values.contiguous && out.indices.contiguous
                &&& out.values.device == input.device && out.indices.device == input.device
            },
        },
{
    let ncols: usize = match input.last_dim() {
        Some(last) => last,
        None => {
            return Err(OpError::EmptyDims);
        },
    };
    let nrows: usize = input.elem_count() / ncols;
    match input.device {
        Device::Cuda(_) => {},
        _ => {
            return Err(OpError::LogitsDevice);
        },
    }
    if !input.dtype.logits_float() {
        return Err(OpError::LogitsDType);
    }
    let mut out_dims: Vec<usize> = copy_dims(&input.dims);
    let rank: usize = out_dims.len();
    out_dims[rank - 1] = k;
    let plan = TopKPlan {
        nrows: nrows as i32,
        ncols: ncols as i32,
        k: k as i32,
        out_elems: nrows * k,
    };
    let out = TopKOutput {
        values: TensorMeta {
            dtype: input.dtype,
            dims: copy_dims(&out_dims),
            contiguous: true,
            device: input.device,
        },
        indices: TensorMeta {
            dtype: DType::U32,
            dims: out_dims,
            contiguous: true,
            device: input.device,
        },
    };
    Ok((plan, out))
}

/// The planned output holds exactly the elements that the launch writes.
pub proof fn law_topk_output_count(dims: Seq<usize>, k: usize)
    requires
        dims.len() > 0,
        dims.last() > 0,
    ensures
        crate::tensor::product(with_last(dims, k)) == crate::tensor::product(dims) / (
        dims.last() as nat) * k,
{
    let lead = crate::tensor::product(dims.drop_last());
    let d = dims.last() as nat;
    assert(with_last(dims, k).drop_last() =~= dims.drop_last());
    assert((lead * d) / d == lead) by (nonlinear_arith)
        requires
            d > 0,
    ;
}

/// The sorting kernel of an element type and a direction, with its counts.
#[derive(Debug, Clone, Copy, PartialEq, Eq, Structural)]
pub struct ArgSortPlan {
    pub asc: bool,
    pub dtype: DType,
    pub nrows: i32,
    pub ncols: i32,
    /// Whether the sorted values replace the input.
    pub inplace: bool,
    /// Elements of the indices.
    pub out_elems: usize,
}

/// The element types that have a sorting kernel.
pub open spec fn sortable_dtype(dtype: DType) -> bool {
    match dtype {
        DType::U8 | DType::U32 | DType::I64 | DType::BF16 | DType::F16 | DType::F32 | DType::F64 =>
            true,
        _ => false,
    }
}

/// Sorting along a last dimension of known size.
#[derive(Debug, Clone, Copy, PartialEq, Eq, Structural)]
pub struct ArgSort {
    pub asc: bool,
    pub last_dim: usize,
    pub inplace: bool,
}

/// The plan of a sort of a tensor.
pub open spec fn sort_plan(op: ArgSort, input: TensorMeta) -> ArgSortPlan {
    ArgSortPlan {
        asc: op.asc,
        dtype: input.dtype,
        nrows: (input.count() / (op.last_dim as nat)) as i32,
        ncols: op.last_dim as i32,
        inplace: op.inplace,
        out_elems: input.count() as usize,
    }
}

/// A tensor of the shape and on the device of another, without gaps.
pub open spec fn is_like(out: TensorMeta, dtype: DType, input: TensorMeta) -> bool {
    &&& out.dtype == dtype
    &&& out.dims@ == input.dims@
    &&& out.contiguous
    &&& out.device == input.device
}

fn like(dtype: DType, input: &TensorMeta) -> (r: TensorMeta)
    ensures
        is_like(r, dtype, *input),
{
    TensorMeta { dtype, dims: copy_dims(&input.dims), contiguous: true, device: input.device }
}

impl ArgSort {
    /// The name of the operator.
    pub fn name(&self) -> (r: &'static str)
        ensures
            r@ == "argsort"@,
    {
        "argsort"
    }

    /// Picks the kernel for the element type and the direction. The indices have the shape
    /// of the tensor.
    pub fn cuda_fwd(&self, input: &TensorMeta) -> (r: Result<(ArgSortPlan, TensorMeta), OpError>)
        requires
            0 < self.last_dim <= MAX_KERNEL_COUNT,
            input.count() <= MAX_KERNEL_COUNT,
        ensures
            if sortable_dtype(input.dtype) {
                r matches Ok((plan, indices)) && plan == sort_plan(*self, *input) && is_like(
                    indices,
                    DType::U32,
                    *input,
                )
            } else {
                r == Err::<(ArgSortPlan, TensorMeta), OpError>(OpError::SortDType)
            },
    {
        let known: bool = match input.dtype {
            DType::U8
            | DType::U32
            | DType::I64
            | DType::BF16
            | DType::F16
            | DType::F32
            | DType::F64 => true,
            _ => false,
        };
        if !known {
            return Err(OpError::SortDType);
        }
        let elem_count: usize = input.elem_count();
        let nrows: usize = elem_count / self.last_dim;
        proof {
            let n = elem_count;
            let d = self.last_dim;
            assert(nrows <= n) by (nonlinear_arith)
                requires
                    d > 0,
                    nrows == n / d,
                    n >= 0,
            ;
        }
        let plan = ArgSortPlan {
            asc: self.asc,
            dtype: input.dtype,
            nrows: nrows as i32,
            ncols: self.last_dim as i32,
            inplace: self.inplace,
            out_elems: elem_count,
        };
        Ok((plan, like(DType::U32, input)))
    }
}

/// Why a sort along the last dimension is refused.
pub open spec fn sort_refusal(input: TensorMeta) -> Option<OpError> {
    if !input.contiguous {
        Some(OpError::RequiresContiguous)
    } else if input.dims@.len() == 0 {
        Some(OpError::EmptyDims)
    } else if input.device is Metal {
        Some(OpError::NoMetal)
    } else if !sortable_dtype(input.dtype) {
        Some(OpError::SortDType)
    } else {
        None
    }
}

/// The sort of a tensor along its last dimension.
pub open spec fn sort_of(input: TensorMeta, asc: bool, inplace: bool) -> ArgSortPlan {
    sort_plan(ArgSort { asc, last_dim: input.dims@.last(), inplace }, input)
}

/// The tensor can be handed to a sorting kernel: it lies on an accelerator, its
/// rows are not empty and its counts fit 32-bit integers.
pub open spec fn sortable(input: TensorMeta) -> bool {
    &&& input.wf()
    &&& input.contiguous && input.dims@.len() > 0 ==> {
        &&& input.device !is Cpu
        &&& 0 < input.dims@.last() <= MAX_KERNEL_COUNT
        &&& input.count() <= MAX_KERNEL_COUNT
    }
}

/// A sorted tensor and the indices that sort it.
pub struct SortOutput {
    pub values: TensorMeta,
    pub indices: TensorMeta,
    /// Whether the kernel runs on a copy of the input, which becomes the sorted tensor.
    pub on_copy: bool,
}

/// What a sort hands out. The input stays as it is, for the kernel sorts a copy in place.
pub open spec fn is_sort_output(out: SortOutput, input: TensorMeta) -> bool {
    &&& is_like(out.values, input.dtype, input)
    &&& is_like(out.indices, DType::U32, input)
    &&& out.on_copy
}

/// Sorting along the last dimension, on an accelerator.
///
/// If `asc` is `true`, sorting is in ascending order, otherwise in descending
/// order. The sort is unstable: nothing is said of the order of equal elements.
pub trait ArgSortOp {
    /// What is known of the tensor.
    spec fn described(&self) -> TensorMeta;

    /// Plans the indices that sort the tensor along the last dimension. The kernel leaves
    /// the tensor as it is.
    fn arg_sort(&self, asc: bool) -> (r: Result<(ArgSortPlan, TensorMeta), OpError>)
        requires
            sortable(self.described()),
        ensures
            match sort_refusal(self.described()) {
                Some(e) => r == Err::<(ArgSortPlan, TensorMeta), OpError>(e),
                None => r matches Ok((plan, indices)) && plan == sort_of(
                    self.described(),
                    asc,
                    false,
                ) && is_like(indices, DType::U32, self.described()),
            },
    ;

    /// Plans the sorted tensor together with the sorted indices.
    fn sort(&self, asc: bool) -> (r: Result<(ArgSortPlan, SortOutput), OpError>)
        requires
            sortable(self.described()),
        ensures
            match sort_refusal(self.described()) {
                Some(e) => r == Err::<(ArgSortPlan, SortOutput), OpError>(e),
                None => r matches Ok((plan, out)) && plan == sort_of(self.described(), asc, true)
                    && is_sort_output(out, self.described()),
            },
    ;
}

/// Why a tensor is refused before a kernel is picked, or its last dimension.
fn check_sort(input: &TensorMeta) -> (r: Result<usize, OpError>)
    ensures
        if !input.contiguous {
            r == Err::<usize, OpError>(OpError::RequiresContiguous)
        } else if input.dims@.len() == 0 {
            r == Err::<usize, OpError>(OpError::EmptyDims)
        } else if input.device is Metal {
            r == Err::<usize, OpError>(OpError::NoMetal)
        } else {
            r == Ok::<usize, OpError>(input.dims@.last())
        },
{
    if !input.contiguous {
        return Err(OpError::RequiresContiguous);
    }
    let last_dim: usize = match input.last_dim() {
        Some(last_dim) => last_dim,
        None => {
            return Err(OpError::EmptyDims);
        },
    };
    if let Device::Metal(_) = input.device {
        return Err(OpError::NoMetal);
    }
    Ok(last_dim)
}

impl ArgSortOp for TensorMeta {
    open spec fn described(&self) -> TensorMeta {
        *self
    }

    fn arg_sort(&self, asc: bool) -> (r: Result<(ArgSortPlan, TensorMeta), OpError>) {
        match check_sort(self) {
            Ok(last_dim) => ArgSort { asc, last_dim, inplace: false }.cuda_fwd(self),
            Err(e) => Err(e),
        }
    }

    fn sort(&self, asc: bool) -> (r: Result<(ArgSortPlan, SortOutput), OpError>) {
        let last_dim: usize = match check_sort(self) {
            Ok(last_dim) => last_dim,
            Err(e) => {
                return Err(e);
            },
        };
        match (ArgSort { asc, last_dim, inplace: true }).cuda_fwd(self) {
            Ok((plan, indices)) => Ok(
                (plan, SortOutput { values: like(self.dtype, self), indices, on_copy: true }),
            ),
            Err(e) => Err(e),
        }
    }
}

/// The indices of a sort are those of an argsort: both are refused alike, and run the same
/// kernel over the same rows and columns. They differ in where the kernel puts the values.
pub proof fn law_sort_and_arg_sort_run_one_kernel(input: TensorMeta, asc: bool)
    ensures
        sort_of(input, asc, true) == (ArgSortPlan {
            inplace: true,
            ..sort_of(input, asc, false)
        }),
        !sort_of(input, asc, false).inplace,
{
}

} // verus!
