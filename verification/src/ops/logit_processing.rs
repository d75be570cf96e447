//! Penalties, biases and masks on logits and scores.

use vstd::prelude::*;

use crate::ops::{OpError, MAX_KERNEL_COUNT};
use crate::tensor::{copy_dims, DType, Device, TensorMeta};

verus! {

/// Counts that a sparse update of logits hands to its kernel.
#[derive(Debug, Clone, Copy, PartialEq, Eq, Structural)]
pub struct SparsePlan {
    pub elem_count: i32,
    pub n_tokens: i32,
}

/// Why a sparse update of single-precision logits is refused. `values` holds
/// one number for each of the token ids.
pub open spec fn sparse_refusal(
    input: TensorMeta,
    token_ids: TensorMeta,
    values: TensorMeta,
) -> Option<OpError> {
    if input.dtype != DType::F32 {
        Some(OpError::LogitsDType)
    } else if token_ids.dtype != DType::U32 {
        Some(OpError::TokenIdsDType)
    } else if values.dtype != DType::F32 {
        Some(OpError::ValuesDType)
    } else if token_ids.count() != values.count() {
        Some(
            OpError::LengthMismatch {
                tokens: token_ids.count() as usize,
                values: values.count() as usize,
            },
        )
    } else if token_ids.device != input.device || values.device != input.device {
        Some(OpError::DifferentDevices)
    } else if input.count() == 0 {
        Some(OpError::EmptyLogits)
    } else if input.count() > MAX_KERNEL_COUNT {
        Some(OpError::InputTooLarge { elems: input.count() as usize })
    } else if token_ids.count() > MAX_KERNEL_COUNT {
        Some(OpError::TokensTooLarge { tokens: token_ids.count() as usize })
    } else if input.device !is Cuda {
        Some(OpError::LogitsDevice)
    } else {
        None
    }
}

/// The output of an update: as the input, and contiguous.
pub open spec fn is_updated(out: TensorMeta, input: TensorMeta) -> bool {
    &&& out.dtype == input.dtype
    &&& out.dims@ == input.dims@
    &&& out.contiguous
    &&& out.device == input.device
}

fn updated(input: &TensorMeta) -> (r: TensorMeta)
    ensures
        is_updated(r, *input),
{
    TensorMeta {
        dtype: input.dtype,
        dims: copy_dims(&input.dims),
        contiguous: true,
        device: input.device,
    }
}

fn plan_sparse(input: &TensorMeta, token_ids: &TensorMeta, values: &TensorMeta) -> (r: Result<
    (SparsePlan, TensorMeta),
    OpError,
>)
    requires
        input.wf(),
        token_ids.wf(),
        values.wf(),
    ensures
        match sparse_refusal(*input, *token_ids, *values) {
            Some(e) => r == Err::<(SparsePlan, TensorMeta), OpError>(e),
            None => r matches Ok((plan, out)) && plan.elem_count == input.count() && plan.n_tokens
                == token_ids.count() && is_updated(out, *input),
        },
{
    if input.dtype != DType::F32 {
        return Err(OpError::LogitsDType);
    }
    if token_ids.dtype != DType::U32 {
        return Err(OpError::TokenIdsDType);
    }
    if values.dtype != DType::F32 {
        return Err(OpError::ValuesDType);
    }
    let n_tokens: usize = token_ids.elem_count();
    let n_values: usize = values.elem_count();
    if n_tokens != n_values {
        return Err(OpError::LengthMismatch { tokens: n_tokens, values: n_values });
    }
    if token_ids.device != input.device || values.device != input.device {
        return Err(OpError::DifferentDevices);
    }
    let elem_count: usize = input.elem_count();
    if elem_count == 0 {
        return Err(OpError::EmptyLogits);
    }
    if elem_count > MAX_KERNEL_COUNT {
        return Err(OpError::InputTooLarge { elems: elem_count });
    }
    if n_tokens > MAX_KERNEL_COUNT {
        return Err(OpError::TokensTooLarge { tokens: n_tokens });
    }
    match input.device {
        Device::Cuda(_) => {},
        _ => {
            return Err(OpError::LogitsDevice);
        },
    }
    let plan = SparsePlan { elem_count: elem_count as i32, n_tokens: n_tokens as i32 };
    Ok((plan, updated(input)))
}

/// Plans frequency, presence and repetition penalties on the logits of the
/// tokens that occurred, each with its count.
pub fn cuda_apply_sparse_penalties_f32(
    input: &TensorMeta,
    token_ids: &TensorMeta,
    counts: &TensorMeta,
) -> (r: Result<(SparsePlan, TensorMeta), OpError>)
    requires
        input.wf(),
        token_ids.wf(),
        counts.wf(),
    ensures
        match sparse_refusal(*input, *token_ids, *counts) {
            Some(e) => r == Err::<(SparsePlan, TensorMeta), OpError>(e),
            None => r matches Ok((plan, out)) && plan.elem_count == input.count() && plan.n_tokens
                == token_ids.count() && is_updated(out, *input),
        },
{
    plan_sparse(input, token_ids, counts)
}

/// Plans biases on the logits of chosen tokens.
pub fn cuda_apply_sparse_logits_bias_f32(
    input: &TensorMeta,
    token_ids: &TensorMeta,
    biases: &TensorMeta,
) -> (r: Result<(SparsePlan, TensorMeta), OpError>)
    requires
        input.wf(),
        token_ids.wf(),
        biases.wf(),
    ensures
        match sparse_refusal(*input, *token_ids, *biases) {
            Some(e) => r == Err::<(SparsePlan, TensorMeta), OpError>(e),
            None => r matches Ok((plan, out)) && plan.elem_count == input.count() && plan.n_tokens
                == token_ids.count() && is_updated(out, *input),
        },
{
    plan_sparse(input, token_ids, biases)
}

/// Counts that a causal mask hands to its kernel.
#[derive(Debug, Clone, Copy, PartialEq, Eq, Structural)]
pub struct CausalMaskPlan {
    pub batch_heads: i32,
    pub q_len: i32,
    pub kv_len: i32,
    pub q_offset: i32,
    pub prefix_len: i32,
}

/// Why a causal mask over scores is refused.
pub open spec fn causal_mask_refusal(scores: TensorMeta, q_offset: nat, prefix_len: nat) -> Option<
    OpError,
> {
    let d = scores.dims@;
    if scores.device is Cpu {
        Some(OpError::LogitsDevice)
    } else if scores.device is Metal {
        Some(OpError::NoMetal)
    } else if d.len() != 3 {
        Some(OpError::NotThreeDims { dims: scores.dims })
    } else if d[0] > MAX_KERNEL_COUNT || d[1] > MAX_KERNEL_COUNT || d[2] > MAX_KERNEL_COUNT
        || q_offset > MAX_KERNEL_COUNT || prefix_len > MAX_KERNEL_COUNT {
        Some(OpError::CountTooLarge)
    } else if !scores.contiguous {
        Some(OpError::RequiresContiguous)
    } else if scores.dtype != DType::F32 {
        Some(OpError::LogitsDType)
    } else {
        None
    }
}

/// Plans the causal mask over attention scores of shape heads by queries by
/// keys, in place.
pub fn cuda_apply_causal_mask_f32(scores: &TensorMeta, q_offset: usize, prefix_len: usize) -> (r:
    Result<CausalMaskPlan, OpError>)
    ensures
        match causal_mask_refusal(*scores, q_offset as nat, prefix_len as nat) {
            Some(e) => r matches Err(got) && got.same(e),
            None => r matches Ok(plan) && plan.batch_heads == scores.dims@[0] && plan.q_len
                == scores.dims@[1] && plan.kv_len == scores.dims@[2] && plan.q_offset == q_offset
                && plan.prefix_len == prefix_len,
        },
{
    match scores.device {
        Device::Cpu => {
            return Err(OpError::LogitsDevice);
        },
        Device::Metal(_) => {
            return Err(OpError::NoMetal);
        },
        Device::Cuda(_) => {},
    }
    if scores.dims.len() != 3 {
        return Err(OpError::NotThreeDims { dims: copy_dims(&scores.dims) });
    }
    let (batch_heads, q_len, kv_len) = (scores.dims[0], scores.dims[1], scores.dims[2]);
    if batch_heads > MAX_KERNEL_COUNT || q_len > MAX_KERNEL_COUNT || kv_len > MAX_KERNEL_COUNT
        || q_offset > MAX_KERNEL_COUNT || prefix_len > MAX_KERNEL_COUNT {
        return Err(OpError::CountTooLarge);
    }
    if !scores.contiguous {
        return Err(OpError::RequiresContiguous);
    }
    if scores.dtype != DType::F32 {
        return Err(OpError::LogitsDType);
    }
    Ok(
        CausalMaskPlan {
            batch_heads: batch_heads as i32,
            q_len: q_len as i32,
            kv_len: kv_len as i32,
            q_offset: q_offset as i32,
            prefix_len: prefix_len as i32,
        },
    )
}

/// Why penalties on logits on a Metal device are refused.
pub open spec fn metal_penalties_refusal(
    input: TensorMeta,
    token_ids: TensorMeta,
    counts: TensorMeta,
) -> Option<OpError> {
    if !input.dtype.is_logits_float() {
        Some(OpError::LogitsDType)
    } else if token_ids.dtype != DType::U32 || counts.dtype != DType::F32 {
        Some(OpError::TokenIdsOrCountsDType)
    } else if counts.count() != token_ids.count() {
        Some(
            OpError::LengthMismatch {
                tokens: token_ids.count() as usize,
                values: counts.count() as usize,
            },
        )
    } else if input.device !is Metal || token_ids.device !is Metal || counts.device !is Metal {
        Some(OpError::LogitsDevice)
    } else {
        None
    }
}

/// Plans penalties on logits on a Metal device: the element counts and the
/// output.
pub fn metal_apply_sparse_penalties(
    input: &TensorMeta,
    token_ids: &TensorMeta,
    counts: &TensorMeta,
) -> (r: Result<(usize, usize, TensorMeta), OpError>)
    requires
        input.wf(),
        token_ids.wf(),
        counts.wf(),
    ensures
        match metal_penalties_refusal(*input, *token_ids, *counts) {
            Some(e) => r == Err::<(usize, usize, TensorMeta), OpError>(e),
            None => r matches Ok((n, n_tokens, out)) && n == input.count() && n_tokens
                == token_ids.count() && is_updated(out, *input),
        },
{
    if !input.dtype.logits_float() {
        return Err(OpError::LogitsDType);
    }
    if token_ids.dtype != DType::U32 || counts.dtype != DType::F32 {
        return Err(OpError::TokenIdsOrCountsDType);
    }
    let n: usize = input.elem_count();
    let n_tokens: usize = token_ids.elem_count();
    let n_counts: usize = counts.elem_count();
    if n_counts != n_tokens {
        return Err(OpError::LengthMismatch { tokens: n_tokens, values: n_counts });
    }
    let on_metal: bool = matches!(input.device, Device::Metal(_)) && matches!(
        token_ids.device,
        Device::Metal(_)
    ) && matches!(counts.device, Device::Metal(_));
    if !on_metal {
        return Err(OpError::LogitsDevice);
    }
    Ok((n, n_tokens, updated(input)))
}

} // verus!
