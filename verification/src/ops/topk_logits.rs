//! Top-k over logits: one row with its softmax, packed rows with temperatures,
//! and ranked packed rows, with the workspaces that they reuse.

use vstd::prelude::*;

use crate::ops::topk::{RankedTopKPackedOutput, TopKLogitsOutput, TopKLogitsPackedOutput};
use crate::ops::{
    ceil_div, checked_next_power_of_two, div_ceil, law_next_power_of_two_bounds,
    law_ranked_packed_max_k, min, min_usize, next_power_of_two, ranked_packed_max_k, OpError,
    WorkspaceError, CUDA_TOPK_CHUNK_SIZE, CUDA_TOPK_MAX_EXACT_PACKED_VOCAB, CUDA_TOPK_MAX_GRID_Y,
    CUDA_TOPK_MAX_K, CUDA_TOPK_MAX_STAGE2_CANDIDATES,
};
use crate::tensor::{copy_dims, product, DType, Device, TensorMeta};

verus! {

/// The bits of a double-precision number that is positive and finite.
pub open spec fn is_positive_finite(bits: u64) -> bool {
    0 < bits < 0x7ff0_0000_0000_0000
}

/// Whether a temperature, given by the bits of its double-precision value, is
/// positive and finite: the sign bit is clear, the exponent is not the one of
/// infinities and NaNs, and the value is not zero.
pub fn positive_finite(bits: u64) -> (r: bool)
    ensures
        r == is_positive_finite(bits),
{
    0 < bits && bits < 0x7ff0_0000_0000_0000
}

/// Sizes of a top-k launch over one row.
#[derive(Debug, Clone, Copy, PartialEq, Eq, Structural)]
pub struct RowTopKPlan {
    pub ncols: usize,
    pub k: usize,
    pub nblocks: usize,
    pub workspace_elems: usize,
    pub packed_elems: usize,
}

/// The sizes of a top-k launch over `ncols` columns.
pub open spec fn row_plan(ncols: nat, k: nat) -> RowTopKPlan {
    let kk = min(k as int, ncols as int);
    let nblocks = ceil_div(ncols, CUDA_TOPK_CHUNK_SIZE as nat);
    RowTopKPlan {
        ncols: ncols as usize,
        k: kk as usize,
        nblocks: nblocks as usize,
        workspace_elems: (nblocks * kk) as usize,
        packed_elems: (2 * kk + 2) as usize,
    }
}

/// Why a launch over one row with `ncols` columns is refused on account of `k`.
pub open spec fn row_width_refusal(ncols: nat, k: nat, bounded: bool) -> Option<OpError> {
    let kk = min(k as int, ncols as int);
    let candidates = ceil_div(ncols, CUDA_TOPK_CHUNK_SIZE as nat) * kk;
    if ncols == 0 {
        Some(OpError::EmptyLogits)
    } else if kk == 0 || kk > CUDA_TOPK_MAX_K {
        Some(OpError::K { k: kk as usize, max: CUDA_TOPK_MAX_K })
    } else if bounded && candidates > CUDA_TOPK_MAX_STAGE2_CANDIDATES {
        Some(OpError::Candidates { candidates: candidates as usize })
    } else {
        None
    }
}

/// Plans a launch over one row; `bounded` says whether the kernel limits the
/// candidates of its second stage.
fn plan_row(ncols: usize, k: usize, bounded: bool) -> (r: Result<RowTopKPlan, OpError>)
    ensures
        match row_width_refusal(ncols as nat, k as nat, bounded) {
            Some(e) => r == Err::<RowTopKPlan, OpError>(e),
            None => r == Ok::<RowTopKPlan, OpError>(row_plan(ncols as nat, k as nat)) && {
                let p = row_plan(ncols as nat, k as nat);
                &&& 1 <= p.k <= CUDA_TOPK_MAX_K
                &&& p.ncols == ncols
                &&& p.nblocks == ceil_div(ncols as nat, CUDA_TOPK_CHUNK_SIZE as nat)
                &&& p.workspace_elems == p.nblocks * p.k
                &&& p.packed_elems == 2 * p.k + 2
            },
        },
{
    if ncols == 0 {
        return Err(OpError::EmptyLogits);
    }
    let kk: usize = min_usize(k, ncols);
    if kk == 0 || kk > CUDA_TOPK_MAX_K {
        return Err(OpError::K { k: kk, max: CUDA_TOPK_MAX_K });
    }
    let nblocks: usize = div_ceil(ncols, CUDA_TOPK_CHUNK_SIZE);
    proof {
        assert(nblocks * kk <= nblocks * 128) by (nonlinear_arith)
            requires
                kk <= 128,
                nblocks >= 0,
        ;
        assert(nblocks * 128 <= usize::MAX) by {
            assert(nblocks <= ncols as nat / 2048 + 1);
        }
    }
    let candidates: usize = nblocks * kk;
    if bounded && candidates > CUDA_TOPK_MAX_STAGE2_CANDIDATES {
        return Err(OpError::Candidates { candidates });
    }
    Ok(
        RowTopKPlan {
            ncols,
            k: kk,
            nblocks,
            workspace_elems: candidates,
            packed_elems: 2 * kk + 2,
        },
    )
}

/// An accepted bounded launch passes counts that fit 32-bit integers.
pub proof fn law_row_counts_fit(ncols: nat, k: nat)
    requires
        row_width_refusal(ncols, k, true) is None,
    ensures
        ncols <= i32::MAX,
{
    let kk = min(k as int, ncols as int);
    let nblocks = ceil_div(ncols, CUDA_TOPK_CHUNK_SIZE as nat);
    assert(nblocks <= nblocks * kk) by (nonlinear_arith)
        requires
            kk >= 1,
            nblocks >= 0,
    ;
}

/// Why a softmaxed top-k over one row of single-precision logits on a CUDA
/// device is refused.
pub open spec fn row_f32_refusal(input: TensorMeta, k: nat, temperature: u64) -> Option<OpError> {
    if !is_positive_finite(temperature) {
        Some(OpError::Temperature)
    } else if input.dtype != DType::F32 {
        Some(OpError::LogitsDType)
    } else if row_width_refusal(input.count(), k, true) is Some {
        row_width_refusal(input.count(), k, true)
    } else if input.device !is Cuda {
        Some(OpError::LogitsDevice)
    } else {
        None
    }
}

/// The block values, block indices, block maxima and block sums of a launch.
pub open spec fn is_block_workspace(
    ws: Seq<TensorMeta>,
    candidates: nat,
    blocks: nat,
    device: Device,
) -> bool {
    &&& ws.len() == 4
    &&& ws[0].is_vector(DType::F32, candidates, device)
    &&& ws[1].is_vector(DType::U32, candidates, device)
    &&& ws[2].is_vector(DType::F32, blocks, device)
    &&& ws[3].is_vector(DType::F32, blocks, device)
}

fn block_workspace(candidates: usize, blocks: usize, device: Device) -> (r: Vec<TensorMeta>)
    ensures
        is_block_workspace(r@, candidates as nat, blocks as nat, device),
{
    let mut ws: Vec<TensorMeta> = Vec::new();
    ws.push(TensorMeta::vector(DType::F32, candidates, device));
    ws.push(TensorMeta::vector(DType::U32, candidates, device));
    ws.push(TensorMeta::vector(DType::F32, blocks, device));
    ws.push(TensorMeta::vector(DType::F32, blocks, device));
    ws
}

/// What a top-k over one row hands out: so many values and indices as were asked for, and
/// the two numbers of the softmax over the whole row.
pub open spec fn is_row_output(out: TopKLogitsOutput, plan: RowTopKPlan, device: Device) -> bool {
    &&& out.values.is_vector(DType::F32, plan.k as nat, device)
    &&& out.indices.is_vector(DType::U32, plan.k as nat, device)
    &&& out.softmax_info.is_vector(DType::F32, 2, device)
    &&& is_block_workspace(
        out.workspace@,
        plan.workspace_elems as nat,
        plan.nblocks as nat,
        device,
    )
}

/// What a packed top-k over one row hands out.
pub open spec fn is_packed_row_output(
    out: TopKLogitsPackedOutput,
    plan: RowTopKPlan,
    device: Device,
) -> bool {
    &&& out.packed.is_vector(DType::F32, plan.packed_elems as nat, device)
    &&& out.k == plan.k
    &&& is_block_workspace(
        out.workspace@,
        plan.workspace_elems as nat,
        plan.nblocks as nat,
        device,
    )
}

/// Two accepted launches over one row differ only in how many entries they keep: both read
/// all columns in the same blocks, so that the softmax sees the whole row whatever `k` is,
/// and its two numbers lie alike. The entries kept are as many as asked for, or the row.
pub proof fn law_softmax_sees_the_row_whatever_k(
    input: TensorMeta,
    temperature: u64,
    k: nat,
    other_k: nat,
    out: TopKLogitsOutput,
    other: TopKLogitsOutput,
)
    requires
        input.wf(),
        row_f32_refusal(input, k, temperature) is None,
        row_f32_refusal(input, other_k, temperature) is None,
        is_row_output(out, row_plan(input.count(), k), input.device),
        is_row_output(other, row_plan(input.count(), other_k), input.device),
    ensures
        row_plan(input.count(), k).ncols == input.count(),
        row_plan(input.count(), k).ncols == row_plan(input.count(), other_k).ncols,
        row_plan(input.count(), k).nblocks == row_plan(input.count(), other_k).nblocks,
        out.softmax_info.dtype == other.softmax_info.dtype,
        out.softmax_info.dims@ == other.softmax_info.dims@,
        out.softmax_info.device == other.softmax_info.device,
        out.workspace@[2].dims@ == other.workspace@[2].dims@,
        out.workspace@[3].dims@ == other.workspace@[3].dims@,
        out.values.dims@ == seq![min(k as int, input.count() as int) as usize],
        out.indices.dims@ == seq![min(k as int, input.count() as int) as usize],
{
    assert(out.softmax_info.dims@ =~= other.softmax_info.dims@);
    assert(out.workspace@[2].dims@ =~= other.workspace@[2].dims@);
    assert(out.workspace@[3].dims@ =~= other.workspace@[3].dims@);
    let kept = seq![min(k as int, input.count() as int) as usize];
    assert(out.values.dims@ =~= kept);
    assert(out.indices.dims@ =~= kept);
}

/// A packed row holds as many entries as the values, the indices and the softmax that the
/// same launch hands out apart.
pub proof fn law_packed_row_holds_the_parts(
    input: TensorMeta,
    temperature: u64,
    k: nat,
    parts: TopKLogitsOutput,
    packed: TopKLogitsPackedOutput,
)
    requires
        input.wf(),
        row_f32_refusal(input, k, temperature) is None,
        is_row_output(parts, row_plan(input.count(), k), input.device),
        is_packed_row_output(packed, row_plan(input.count(), k), input.device),
    ensures
        packed.k == min(k as int, input.count() as int),
        packed.packed.dims@ == seq![(2 * packed.k + 2) as usize],
        packed.packed.count() == parts.values.count() + parts.indices.count()
            + parts.softmax_info.count(),
{
    let kk = min(k as int, input.count() as int);
    assert(1 <= kk <= CUDA_TOPK_MAX_K);
    assert(packed.packed.dims@ =~= seq![(2 * packed.k + 2) as usize]);
    lemma_vector_count(packed.packed, 2 * kk as nat + 2);
    lemma_vector_count(parts.values, kk as nat);
    lemma_vector_count(parts.indices, kk as nat);
    lemma_vector_count(parts.softmax_info, 2);
}

proof fn lemma_vector_count(t: TensorMeta, n: nat)
    requires
        t.dims@.len() == 1,
        t.dims@[0] == n,
    ensures
        t.count() == n,
{
    reveal_with_fuel(product, 2);
    assert(t.dims@.drop_last().len() == 0);
    assert(1 * n == n);
}

/// Plans the top-k of one row of logits with its softmax.
///
/// The temperature is given by the bits of its double-precision value.
pub fn cuda_topk_logits_f32(input: &TensorMeta, k: usize, temperature: u64) -> (r: Result<
    (RowTopKPlan, TopKLogitsOutput),
    OpError,
>)
    requires
        input.wf(),
    ensures
        match row_f32_refusal(*input, k as nat, temperature) {
            Some(e) => r == Err::<(RowTopKPlan, TopKLogitsOutput), OpError>(e),
            None => r matches Ok((plan, out)) && {
                &&& plan == row_plan(input.count(), k as nat)
                &&& is_row_output(out, plan, input.device)
            },
        },
{
    if !positive_finite(temperature) {
        return Err(OpError::Temperature);
    }
    if input.dtype != DType::F32 {
        return Err(OpError::LogitsDType);
    }
    let plan = match plan_row(input.elem_count(), k, true) {
        Ok(plan) => plan,
        Err(e) => {
            return Err(e);
        },
    };
    match input.device {
        Device::Cuda(_) => {},
        _ => {
            return Err(OpError::LogitsDevice);
        },
    }
    let out = TopKLogitsOutput {
        values: TensorMeta::vector(DType::F32, plan.k, input.device),
        indices: TensorMeta::vector(DType::U32, plan.k, input.device),
        softmax_info: TensorMeta::vector(DType::F32, 2, input.device),
        workspace: block_workspace(plan.workspace_elems, plan.nblocks, input.device),
    };
    Ok((plan, out))
}

/// Plans the top-k of one row of logits, packed with its softmax.
///
/// The temperature is given by the bits of its double-precision value.
pub fn cuda_topk_logits_f32_packed(input: &TensorMeta, k: usize, temperature: u64) -> (r: Result<
    (RowTopKPlan, TopKLogitsPackedOutput),
    OpError,
>)
    requires
        input.wf(),
    ensures
        match row_f32_refusal(*input, k as nat, temperature) {
            Some(e) => r == Err::<(RowTopKPlan, TopKLogitsPackedOutput), OpError>(e),
            None => r matches Ok((plan, out)) && {
                &&& plan == row_plan(input.count(), k as nat)
                &&& is_packed_row_output(out, plan, input.device)
            },
        },
{
    if !positive_finite(temperature) {
        return Err(OpError::Temperature);
    }
    if input.dtype != DType::F32 {
        return Err(OpError::LogitsDType);
    }
    let plan = match plan_row(input.elem_count(), k, true) {
        Ok(plan) => plan,
        Err(e) => {
            return Err(e);
        },
    };
    match input.device {
        Device::Cuda(_) => {},
        _ => {
            return Err(OpError::LogitsDevice);
        },
    }
    let out = TopKLogitsPackedOutput {
        packed: TensorMeta::vector(DType::F32, plan.packed_elems, input.device),
        k: plan.k,
        workspace: block_workspace(plan.workspace_elems, plan.nblocks, input.device),
    };
    Ok((plan, out))
}

/// Why a packed top-k over one row of logits on a Metal device is refused.
pub open spec fn metal_row_refusal(input: TensorMeta, k: nat, temperature: u64) -> Option<
    OpError,
> {
    if !is_positive_finite(temperature) {
        Some(OpError::Temperature)
    } else if !input.dtype.is_logits_float() {
        Some(OpError::LogitsDType)
    } else if row_width_refusal(input.count(), k, false) is Some {
        row_width_refusal(input.count(), k, false)
    } else if input.device !is Metal {
        Some(OpError::LogitsDevice)
    } else {
        None
    }
}

/// Plans the top-k of one row of logits on a Metal device, packed with its
/// softmax. Its workspace lives only as long as the launch.
pub fn metal_topk_logits_packed(input: &TensorMeta, k: usize, temperature: u64) -> (r: Result<
    (RowTopKPlan, TopKLogitsPackedOutput),
    OpError,
>)
    requires
        input.wf(),
    ensures
        match metal_row_refusal(*input, k as nat, temperature) {
            Some(e) => r == Err::<(RowTopKPlan, TopKLogitsPackedOutput), OpError>(e),
            None => r matches Ok((plan, out)) && {
                &&& plan == row_plan(input.count(), k as nat)
                &&& out.packed.is_vector(DType::F32, plan.packed_elems as nat, input.device)
                &&& out.k == plan.k
                &&& out.workspace@.len() == 0
            },
        },
{
    if !positive_finite(temperature) {
        return Err(OpError::Temperature);
    }
    if !input.dtype.logits_float() {
        return Err(OpError::LogitsDType);
    }
    let plan = match plan_row(input.elem_count(), k, false) {
        Ok(plan) => plan,
        Err(e) => {
            return Err(e);
        },
    };
    match input.device {
        Device::Metal(_) => {},
        _ => {
            return Err(OpError::LogitsDevice);
        },
    }
    let out = TopKLogitsPackedOutput {
        packed: TensorMeta::vector(DType::F32, plan.packed_elems, input.device),
        k: plan.k,
        workspace: Vec::new(),
    };
    Ok((plan, out))
}

/// The stream that a launch runs on: its device, its context and the stream
/// itself, each by its identity.
#[derive(Debug, Clone, Copy, PartialEq, Eq, Structural)]
pub struct StreamKey {
    pub gpu_id: usize,
    pub context: u64,
    pub stream: u64,
}

/// Rows of logits: how many the leading dimensions hold.
pub open spec fn rows(input: TensorMeta) -> nat {
    input.count() / (input.dims@.last() as nat)
}

/// The rows are counted by the leading dimensions.
pub proof fn law_rows_are_leading_dims(input: TensorMeta)
    requires
        input.dims@.len() > 0,
        input.dims@.last() > 0,
    ensures
        rows(input) == product(input.dims@.drop_last()),
{
    let lead = product(input.dims@.drop_last());
    let d = input.dims@.last() as nat;
    assert((lead * d) / d == lead) by (nonlinear_arith)
        requires
            d > 0,
    ;
}

/// Why rows of logits are refused on account of their shape.
pub open spec fn rows_refusal(input: TensorMeta) -> Option<OpError> {
    if input.dims@.len() == 0 {
        Some(OpError::Rank)
    } else if input.dims@.last() == 0 {
        Some(OpError::EmptyVocabulary)
    } else if rows(input) == 0 {
        Some(OpError::EmptyBatch)
    } else {
        None
    }
}

/// The vocabulary and the number of rows of logits.
fn check_rows(input: &TensorMeta) -> (r: Result<(usize, usize), OpError>)
    requires
        input.wf(),
    ensures
        match rows_refusal(*input) {
            Some(e) => r == Err::<(usize, usize), OpError>(e),
            None => r matches Ok((vocab, batch)) && vocab == input.dims@.last() && batch == rows(
                *input,
            ),
        },
{
    let vocab: usize = match input.last_dim() {
        Some(vocab) => vocab,
        None => {
            return Err(OpError::Rank);
        },
    };
    if vocab == 0 {
        return Err(OpError::EmptyVocabulary);
    }
    let batch: usize = input.elem_count() / vocab;
    if batch == 0 {
        return Err(OpError::EmptyBatch);
    }
    Ok((vocab, batch))
}

/// Sizes of a top-k launch over packed rows.
#[derive(Debug, Clone, Copy, PartialEq, Eq, Structural)]
pub struct PackedTopKPlan {
    pub batch: usize,
    pub vocab: usize,
    pub k: usize,
    pub nblocks: usize,
    pub workspace_elems: usize,
    pub packed_width: usize,
    pub packed_elems: usize,
}

/// The sizes of a launch over `batch` rows of `vocab` logits whose packed rows
/// hold `extra` entries beside values and indices.
pub open spec fn packed_plan(batch: nat, vocab: nat, k: nat, extra: nat) -> PackedTopKPlan {
    let kk = min(k as int, vocab as int) as nat;
    let nblocks = ceil_div(vocab, CUDA_TOPK_CHUNK_SIZE as nat);
    PackedTopKPlan {
        batch: batch as usize,
        vocab: vocab as usize,
        k: kk as usize,
        nblocks: nblocks as usize,
        workspace_elems: (batch * (nblocks * kk)) as usize,
        packed_width: (2 * kk + extra) as usize,
        packed_elems: (batch * (2 * kk + extra)) as usize,
    }
}

/// Why a launch over packed rows is refused on account of its sizes.
pub open spec fn packed_width_refusal(batch: nat, vocab: nat, k: nat) -> Option<OpError> {
    let kk = min(k as int, vocab as int);
    let candidates = ceil_div(vocab, CUDA_TOPK_CHUNK_SIZE as nat) * kk;
    if kk == 0 || kk > CUDA_TOPK_MAX_K {
        Some(
            OpError::K {
                k: kk as usize,
                max: min(CUDA_TOPK_MAX_K as int, vocab as int) as usize,
            },
        )
    } else if vocab > CUDA_TOPK_MAX_EXACT_PACKED_VOCAB {
        Some(OpError::InexactVocabulary { vocab: vocab as usize })
    } else if batch > CUDA_TOPK_MAX_GRID_Y {
        Some(OpError::BatchTooLarge { batch: batch as usize })
    } else if candidates > CUDA_TOPK_MAX_STAGE2_CANDIDATES {
        Some(OpError::Candidates { candidates: candidates as usize })
    } else {
        None
    }
}

/// The plan of an accepted launch holds the sizes without overflow.
pub open spec fn exact_packed_plan(
    p: PackedTopKPlan,
    batch: nat,
    vocab: nat,
    k: nat,
    extra: nat,
) -> bool {
    let kk = min(k as int, vocab as int);
    &&& p.batch == batch
    &&& p.vocab == vocab
    &&& p.k == kk
    &&& 1 <= p.k <= CUDA_TOPK_MAX_K
    &&& p.nblocks == ceil_div(vocab, CUDA_TOPK_CHUNK_SIZE as nat)
    &&& p.nblocks <= 8193
    &&& p.nblocks * p.k <= CUDA_TOPK_MAX_STAGE2_CANDIDATES
    &&& p.workspace_elems == batch * (p.nblocks * p.k)
    &&& p.packed_width == 2 * p.k + extra
    &&& p.packed_elems == batch * p.packed_width
}

/// Every count of an accepted launch fits the kernels' 32-bit integers, and no
/// size of it overflows a 32-bit word.
pub proof fn law_packed_counts_fit(batch: nat, vocab: nat, k: nat, extra: nat)
    requires
        packed_width_refusal(batch, vocab, k) is None,
        extra <= 2,
    ensures
        exact_packed_plan(packed_plan(batch, vocab, k, extra), batch, vocab, k, extra),
        batch <= i32::MAX,
        vocab <= i32::MAX,
        batch * ceil_div(vocab, CUDA_TOPK_CHUNK_SIZE as nat) <= u32::MAX,
{
    let kk = min(k as int, vocab as int) as nat;
    let nblocks = ceil_div(vocab, CUDA_TOPK_CHUNK_SIZE as nat);
    assert(1 <= nblocks <= 8193);
    let candidates = nblocks * kk;
    assert(batch * candidates <= 65535 * 48128) by (nonlinear_arith)
        requires
            batch <= 65535,
            candidates <= 48128,
    ;
    assert(batch * (2 * kk + extra) <= 65535 * 258) by (nonlinear_arith)
        requires
            batch <= 65535,
            kk <= 128,
            extra <= 2,
    ;
    assert(batch * nblocks <= 65535 * 8193) by (nonlinear_arith)
        requires
            batch <= 65535,
            nblocks <= 8193,
    ;
}

/// Plans a launch over packed rows.
fn plan_packed(batch: usize, vocab: usize, k: usize, extra: usize) -> (r: Result<
    PackedTopKPlan,
    OpError,
>)
    requires
        extra <= 2,
    ensures
        match packed_width_refusal(batch as nat, vocab as nat, k as nat) {
            Some(e) => r == Err::<PackedTopKPlan, OpError>(e),
            None => {
                let p = packed_plan(batch as nat, vocab as nat, k as nat, extra as nat);
                &&& r == Ok::<PackedTopKPlan, OpError>(p)
                &&& exact_packed_plan(p, batch as nat, vocab as nat, k as nat, extra as nat)
            },
        },
{
    let kk: usize = min_usize(k, vocab);
    if kk == 0 || kk > CUDA_TOPK_MAX_K {
        return Err(OpError::K { k: kk, max: min_usize(CUDA_TOPK_MAX_K, vocab) });
    }
    if vocab > CUDA_TOPK_MAX_EXACT_PACKED_VOCAB {
        return Err(OpError::InexactVocabulary { vocab });
    }
    if batch > CUDA_TOPK_MAX_GRID_Y {
        return Err(OpError::BatchTooLarge { batch });
    }
    let nblocks: usize = div_ceil(vocab, CUDA_TOPK_CHUNK_SIZE);
    proof {
        assert(nblocks * kk <= 8193 * 128) by (nonlinear_arith)
            requires
                nblocks <= 8193,
                kk <= 128,
        ;
    }
    let candidates: usize = nblocks * kk;
    if candidates > CUDA_TOPK_MAX_STAGE2_CANDIDATES {
        return Err(OpError::Candidates { candidates });
    }
    proof {
        law_packed_counts_fit(batch as nat, vocab as nat, k as nat, extra as nat);
    }
    let packed_width: usize = 2 * kk + extra;
    Ok(
        PackedTopKPlan {
            batch,
            vocab,
            k: kk,
            nblocks,
            workspace_elems: batch * candidates,
            packed_width,
            packed_elems: batch * packed_width,
        },
    )
}

/// The buffers kept between packed top-k launches, by the sizes they have.
#[derive(Debug, Clone, Copy, PartialEq, Eq, Structural)]
pub struct CudaTopKLogitsPackedWorkspace {
    pub key: StreamKey,
    pub capacity_rows: usize,
    pub vocab: usize,
    pub capacity_k: usize,
    pub nblocks: usize,
    /// Elements of the block values and of the block indices.
    pub candidate_elems: usize,
    /// Elements of the block maxima and of the block sums.
    pub block_elems: usize,
    /// Elements of the packed rows.
    pub packed_elems: usize,
}

/// Whether a workspace for `rows` rows can be sized, and if not which count is
/// the first that does not fit.
pub open spec fn topk_workspace_error(rows: nat, k: nat, nblocks: nat) -> Option<WorkspaceError> {
    let r = next_power_of_two(rows);
    let w = next_power_of_two(k);
    if r > usize::MAX {
        Some(WorkspaceError::TopkRows)
    } else if w > usize::MAX {
        Some(WorkspaceError::TopkWidth)
    } else if (r * nblocks) * w > usize::MAX {
        Some(WorkspaceError::TopkCandidates)
    } else if 2 * w + 2 > usize::MAX {
        Some(WorkspaceError::TopkPackedWidth)
    } else if r * (2 * w + 2) > usize::MAX {
        Some(WorkspaceError::TopkPacked)
    } else {
        None
    }
}

impl CudaTopKLogitsPackedWorkspace {
    /// The sizes are those of the capacities, which are powers of two.
    pub open spec fn wf(self) -> bool {
        &&& self.candidate_elems == (self.capacity_rows * self.nblocks) * self.capacity_k
        &&& self.block_elems == self.capacity_rows * self.nblocks
        &&& self.packed_elems == self.capacity_rows * (2 * self.capacity_k + 2)
    }

    /// A workspace for at least `rows` rows of `k` entries.
    pub open spec fn is_new(
        self,
        key: StreamKey,
        rows: nat,
        vocab: nat,
        k: nat,
        nblocks: nat,
    ) -> bool {
        &&& self.key == key
        &&& self.capacity_rows == next_power_of_two(rows)
        &&& self.vocab == vocab
        &&& self.capacity_k == next_power_of_two(k)
        &&& self.nblocks == nblocks
        &&& self.wf()
    }

    /// Sizes a workspace, rounding rows and width up to powers of two.
    pub fn new(key: StreamKey, rows: usize, vocab: usize, k: usize, nblocks: usize) -> (r: Result<
        Self,
        WorkspaceError,
    >)
        ensures
            match topk_workspace_error(rows as nat, k as nat, nblocks as nat) {
                Some(e) => r == Err::<Self, WorkspaceError>(e),
                None => r matches Ok(w) && w.is_new(
                    key,
                    rows as nat,
                    vocab as nat,
                    k as nat,
                    nblocks as nat,
                ),
            },
    {
        let capacity_rows: usize = match checked_next_power_of_two(rows) {
            Some(n) => n,
            None => {
                return Err(WorkspaceError::TopkRows);
            },
        };
        let capacity_k: usize = match checked_next_power_of_two(k) {
            Some(n) => n,
            None => {
                return Err(WorkspaceError::TopkWidth);
            },
        };
        proof {
            law_next_power_of_two_bounds(k as nat);
        }
        let (block_elems, candidate_elems) = match sized_blocks(
            capacity_rows,
            nblocks,
            capacity_k,
        ) {
            Some(sizes) => sizes,
            None => {
                return Err(WorkspaceError::TopkCandidates);
            },
        };
        let packed_width: usize = match capacity_k.checked_mul(2) {
            Some(width) => match width.checked_add(2) {
                Some(width) => width,
                None => {
                    return Err(WorkspaceError::TopkPackedWidth);
                },
            },
            None => {
                return Err(WorkspaceError::TopkPackedWidth);
            },
        };
        let packed_elems: usize = match capacity_rows.checked_mul(packed_width) {
            Some(n) => n,
            None => {
                return Err(WorkspaceError::TopkPacked);
            },
        };
        Ok(
            CudaTopKLogitsPackedWorkspace {
                key,
                capacity_rows,
                vocab,
                capacity_k,
                nblocks,
                candidate_elems,
                block_elems,
                packed_elems,
            },
        )
    }

    /// The workspace belongs to the stream and has room for the launch.
    pub open spec fn holds(
        self,
        key: StreamKey,
        rows: nat,
        vocab: nat,
        k: nat,
        nblocks: nat,
    ) -> bool {
        &&& self.key == key
        &&& self.capacity_rows >= rows
        &&& self.vocab == vocab
        &&& self.capacity_k >= k
        &&& self.nblocks == nblocks
    }

    /// Whether the workspace belongs to the stream and has room for the launch.
    pub fn can_hold(
        &self,
        key: StreamKey,
        rows: usize,
        vocab: usize,
        k: usize,
        nblocks: usize,
    ) -> (r: bool)
        ensures
            r == self.holds(key, rows as nat, vocab as nat, k as nat, nblocks as nat),
    {
        self.key == key && self.capacity_rows >= rows && self.vocab == vocab && self.capacity_k
            >= k && self.nblocks == nblocks
    }
}

/// The block count and the candidate count of a workspace, or nothing where the
/// latter does not fit.
fn sized_blocks(rows: usize, nblocks: usize, width: usize) -> (r: Option<(usize, usize)>)
    requires
        width >= 1,
    ensures
        if (rows * nblocks) * width > usize::MAX {
            r is None
        } else {
            r matches Some((blocks, candidates)) && blocks == rows * nblocks && candidates == (rows
                * nblocks) * width
        },
{
    proof {
        let b = rows * nblocks;
        assert(b <= b * width) by (nonlinear_arith)
            requires
                width >= 1,
                b >= 0,
        ;
    }
    match rows.checked_mul(nblocks) {
        Some(blocks) => match blocks.checked_mul(width) {
            Some(candidates) => Some((blocks, candidates)),
            None => None,
        },
        None => None,
    }
}

/// A workspace that has room for a launch has room for each of its buffers, so
/// every buffer can be narrowed to what the launch uses.
pub proof fn law_workspace_covers_launch(
    w: CudaTopKLogitsPackedWorkspace,
    rows: nat,
    k: nat,
    nblocks: nat,
)
    requires
        w.wf(),
        w.capacity_rows >= rows,
        w.capacity_k >= k,
        w.nblocks == nblocks,
    ensures
        rows * (nblocks * k) <= w.candidate_elems,
        rows * nblocks <= w.block_elems,
        rows * (2 * k + 2) <= w.packed_elems,
{
    lemma_covers(w.capacity_rows as nat, rows, w.capacity_k as nat, k, nblocks);
    let cr = w.capacity_rows as nat;
    let ck = w.capacity_k as nat;
    assert(rows * (2 * k + 2) <= cr * (2 * ck + 2)) by (nonlinear_arith)
        requires
            rows <= cr,
            k <= ck,
    ;
}

proof fn lemma_covers(cr: nat, rows: nat, ck: nat, k: nat, nblocks: nat)
    requires
        rows <= cr,
        k <= ck,
    ensures
        rows * (nblocks * k) <= (cr * nblocks) * ck,
        rows * nblocks <= cr * nblocks,
{
    assert(rows * nblocks <= cr * nblocks) by (nonlinear_arith)
        requires
            rows <= cr,
    ;
    let a = rows * nblocks;
    let b = cr * nblocks;
    assert(a * k <= b * ck) by (nonlinear_arith)
        requires
            a <= b,
            k <= ck,
    ;
    assert(rows * (nblocks * k) == (rows * nblocks) * k) by (nonlinear_arith);
}

/// A freshly sized workspace holds the launch it was sized for.
pub proof fn law_new_workspace_holds(
    w: CudaTopKLogitsPackedWorkspace,
    key: StreamKey,
    rows: nat,
    vocab: nat,
    k: nat,
    nblocks: nat,
)
    requires
        w.is_new(key, rows, vocab, k, nblocks),
    ensures
        w.holds(key, rows, vocab, k, nblocks),
{
    law_next_power_of_two_bounds(rows);
    law_next_power_of_two_bounds(k);
}

/// Where machine words have 64 bits, every accepted launch can size its
/// workspace.
pub proof fn law_accepted_launch_sizes_workspace(batch: nat, vocab: nat, k: nat)
    requires
        packed_width_refusal(batch, vocab, k) is None,
        batch > 0,
        usize::MAX == 0xffff_ffff_ffff_ffff,
    ensures
        topk_workspace_error(
            batch,
            min(k as int, vocab as int) as nat,
            ceil_div(vocab, CUDA_TOPK_CHUNK_SIZE as nat),
        ) is None,
{
    let kk = min(k as int, vocab as int) as nat;
    let nblocks = ceil_div(vocab, CUDA_TOPK_CHUNK_SIZE as nat);
    law_packed_counts_fit(batch, vocab, k, 2);
    law_next_power_of_two_bounds(batch);
    law_next_power_of_two_bounds(kk);
    let r = next_power_of_two(batch);
    let w = next_power_of_two(kk);
    assert((r * nblocks) * w <= (131070 * 8193) * 256) by (nonlinear_arith)
        requires
            r <= 131070,
            nblocks <= 8193,
            w <= 256,
    ;
    assert(r * (2 * w + 2) <= 131070 * 514) by (nonlinear_arith)
        requires
            r <= 131070,
            w <= 256,
    ;
}

/// Why a packed top-k over rows with temperatures is refused.
pub open spec fn packed_batched_refusal(
    input: TensorMeta,
    temperatures: TensorMeta,
    k: nat,
) -> Option<OpError> {
    if !input.dtype.is_logits_float() {
        Some(OpError::LogitsDType)
    } else if temperatures.dtype != DType::F32 {
        Some(OpError::TemperaturesDType)
    } else if !input.contiguous || !temperatures.contiguous {
        Some(OpError::RequiresContiguous)
    } else if input.device != temperatures.device {
        Some(OpError::DifferentDevices)
    } else if rows_refusal(input) is Some {
        rows_refusal(input)
    } else if temperatures.dims@ != seq![rows(input) as usize] {
        Some(
            OpError::TemperaturesShape { batch: rows(input) as usize, dims: temperatures.dims },
        )
    } else if packed_width_refusal(rows(input), input.dims@.last() as nat, k) is Some {
        packed_width_refusal(rows(input), input.dims@.last() as nat, k)
    } else if input.device !is Cuda {
        Some(OpError::LogitsDevice)
    } else {
        None
    }
}

/// What a packed launch hands out.
pub open spec fn is_packed_output(
    out: TopKLogitsPackedOutput,
    plan: PackedTopKPlan,
    device: Device,
) -> bool {
    &&& out.packed.is_matrix(DType::F32, plan.batch as nat, plan.packed_width as nat, device)
    &&& out.k == plan.k
    &&& is_block_workspace(
        out.workspace@,
        plan.workspace_elems as nat,
        (plan.batch * plan.nblocks) as nat,
        device,
    )
}

/// Plans the packed top-k of rows of logits, each with its own inverse
/// temperature. The workspace in `cache` is kept where it has room and sized
/// anew where it has not; a refused launch leaves it as it is.
pub fn cuda_topk_logits_packed_batched_with_workspace(
    input: &TensorMeta,
    k: usize,
    inverse_temperatures: &TensorMeta,
    key: StreamKey,
    cache: &mut Option<CudaTopKLogitsPackedWorkspace>,
) -> (r: Result<(PackedTopKPlan, TopKLogitsPackedOutput), OpError>)
    requires
        input.wf(),
        *old(cache) matches Some(w) ==> w.wf(),
    ensures
        *final(cache) matches Some(w) ==> w.wf(),
        match packed_batched_refusal(*input, *inverse_temperatures, k as nat) {
            Some(e) => r matches Err(got) && got.same(e) && *final(cache) == *old(cache),
            None => {
                let batch = rows(*input);
                let vocab = input.dims@.last() as nat;
                let plan = packed_plan(batch, vocab, k as nat, 2);
                let kept = *old(cache) matches Some(w) && w.holds(
                    key,
                    batch,
                    vocab,
                    plan.k as nat,
                    plan.nblocks as nat,
                );
                let failure = topk_workspace_error(batch, plan.k as nat, plan.nblocks as nat);
                if !kept && failure is Some {
                    &&& r == Err::<(PackedTopKPlan, TopKLogitsPackedOutput), OpError>(
                        OpError::Workspace(failure.unwrap()),
                    )
                    &&& *final(cache) == *old(cache)
                } else {
                    &&& r matches Ok((got, out))
                    &&& got == plan
                    &&& exact_packed_plan(got, batch, vocab, k as nat, 2)
                    &&& is_packed_output(out, plan, input.device)
                    &&& kept ==> *final(cache) == *old(cache)
                    &&& !kept ==> (*final(cache) matches Some(w) && w.is_new(
                        key,
                        batch,
                        vocab,
                        plan.k as nat,
                        plan.nblocks as nat,
                    ))
                    &&& *final(cache) matches Some(w)
                    &&& plan.workspace_elems <= w.candidate_elems
                    &&& plan.batch * plan.nblocks <= w.block_elems
                    &&& plan.packed_elems <= w.packed_elems
                }
            },
        },
{
    if !input.dtype.logits_float() {
        return Err(OpError::LogitsDType);
    }
    if inverse_temperatures.dtype != DType::F32 {
        return Err(OpError::TemperaturesDType);
    }
    if !input.contiguous || !inverse_temperatures.contiguous {
        return Err(OpError::RequiresContiguous);
    }
    if input.device != inverse_temperatures.device {
        return Err(OpError::DifferentDevices);
    }
    let (vocab, batch) = match check_rows(input) {
        Ok(sizes) => sizes,
        Err(e) => {
            return Err(e);
        },
    };
    if inverse_temperatures.dims.len() != 1 || inverse_temperatures.dims[0] != batch {
        assert(inverse_temperatures.dims@ != seq![batch]);
        return Err(
            OpError::TemperaturesShape { batch, dims: copy_dims(&inverse_temperatures.dims) },
        );
    }
    assert(inverse_temperatures.dims@ =~= seq![batch]);
    let plan = match plan_packed(batch, vocab, k, 2) {
        Ok(plan) => plan,
        Err(e) => {
            return Err(e);
        },
    };
    match input.device {
        Device::Cuda(_) => {},
        _ => {
            return Err(OpError::LogitsDevice);
        },
    }
    let kept: bool = match cache {
        Some(w) => w.can_hold(key, batch, vocab, plan.k, plan.nblocks),
        None => false,
    };
    if !kept {
        match CudaTopKLogitsPackedWorkspace::new(key, batch, vocab, plan.k, plan.nblocks) {
            Ok(w) => {
                proof {
                    law_new_workspace_holds(
                        w,
                        key,
                        batch as nat,
                        vocab as nat,
                        plan.k as nat,
                        plan.nblocks as nat,
                    );
                }
                *cache = Some(w);
            },
            Err(e) => {
                return Err(OpError::Workspace(e));
            },
        }
    }
    proof {
        law_workspace_covers_launch(
            cache.unwrap(),
            batch as nat,
            plan.k as nat,
            plan.nblocks as nat,
        );
        law_packed_counts_fit(batch as nat, vocab as nat, k as nat, 2);
    }
    let out = TopKLogitsPackedOutput {
        packed: TensorMeta::matrix(DType::F32, batch, plan.packed_width, input.device),
        k: plan.k,
        workspace: block_workspace(plan.workspace_elems, batch * plan.nblocks, input.device),
    };
    Ok((plan, out))
}

/// Plans the packed top-k of rows of logits with a workspace of its own.
pub fn cuda_topk_logits_packed_batched(
    input: &TensorMeta,
    k: usize,
    inverse_temperatures: &TensorMeta,
    key: StreamKey,
) -> (r: Result<(PackedTopKPlan, TopKLogitsPackedOutput), OpError>)
    requires
        input.wf(),
    ensures
        match packed_batched_refusal(*input, *inverse_temperatures, k as nat) {
            Some(e) => r matches Err(got) && got.same(e),
            None => {
                let plan = packed_plan(rows(*input), input.dims@.last() as nat, k as nat, 2);
                match topk_workspace_error(rows(*input), plan.k as nat, plan.nblocks as nat) {
                    Some(e) => r == Err::<(PackedTopKPlan, TopKLogitsPackedOutput), OpError>(
                        OpError::Workspace(e),
                    ),
                    None => r matches Ok((got, out)) && got == plan && is_packed_output(
                        out,
                        plan,
                        input.device,
                    ),
                }
            },
        },
{
    let mut workspace: Option<CudaTopKLogitsPackedWorkspace> = None;
    cuda_topk_logits_packed_batched_with_workspace(
        input,
        k,
        inverse_temperatures,
        key,
        &mut workspace,
    )
}

/// Plans the packed top-k of rows of single-precision logits.
pub fn cuda_topk_logits_f32_packed_batched(
    input: &TensorMeta,
    k: usize,
    inverse_temperatures: &TensorMeta,
    key: StreamKey,
) -> (r: Result<(PackedTopKPlan, TopKLogitsPackedOutput), OpError>)
    requires
        input.wf(),
    ensures
        input.dtype != DType::F32 ==> r == Err::<(PackedTopKPlan, TopKLogitsPackedOutput), OpError>(
            OpError::LogitsDType,
        ),
        input.dtype == DType::F32 ==> match packed_batched_refusal(
            *input,
            *inverse_temperatures,
            k as nat,
        ) {
            Some(e) => r matches Err(got) && got.same(e),
            None => {
                let plan = packed_plan(rows(*input), input.dims@.last() as nat, k as nat, 2);
                match topk_workspace_error(rows(*input), plan.k as nat, plan.nblocks as nat) {
                    Some(e) => r == Err::<(PackedTopKPlan, TopKLogitsPackedOutput), OpError>(
                        OpError::Workspace(e),
                    ),
                    None => r matches Ok((got, out)) && got == plan && is_packed_output(
                        out,
                        plan,
                        input.device,
                    ),
                }
            },
        },
{
    if input.dtype != DType::F32 {
        return Err(OpError::LogitsDType);
    }
    cuda_topk_logits_packed_batched(input, k, inverse_temperatures, key)
}

/// The buffers kept between ranked packed top-k launches, by the sizes they have.
#[derive(Debug, Clone, Copy, PartialEq, Eq, Structural)]
pub struct CudaRankedTopKPackedWorkspace {
    pub key: StreamKey,
    pub capacity_rows: usize,
    pub vocab: usize,
    pub capacity_k: usize,
    pub nblocks: usize,
    /// Elements of the block values and of the block indices.
    pub candidate_elems: usize,
    /// Words of the radix state.
    pub radix_elems: usize,
    /// Elements of the packed rows.
    pub packed_elems: usize,
}

/// Whether a ranked workspace can be sized, and if not which count is the first
/// that does not fit.
pub open spec fn ranked_workspace_error(
    rows: nat,
    k: nat,
    nblocks: nat,
    state_words: nat,
) -> Option<WorkspaceError> {
    let r = next_power_of_two(rows);
    let w = next_power_of_two(k);
    if r > usize::MAX {
        Some(WorkspaceError::RankedRows)
    } else if w > usize::MAX {
        Some(WorkspaceError::RankedWidth)
    } else if (r * nblocks) * w > usize::MAX {
        Some(WorkspaceError::RankedCandidates)
    } else if r * state_words > usize::MAX {
        Some(WorkspaceError::RankedRadix)
    } else if (r * w) * 2 > usize::MAX {
        Some(WorkspaceError::RankedPacked)
    } else {
        None
    }
}

impl CudaRankedTopKPackedWorkspace {
    /// The sizes are those of the capacities.
    pub open spec fn wf(self, state_words: nat) -> bool {
        &&& self.candidate_elems == (self.capacity_rows * self.nblocks) * self.capacity_k
        &&& self.radix_elems == self.capacity_rows * state_words
        &&& self.packed_elems == (self.capacity_rows * self.capacity_k) * 2
    }

    /// A workspace for at least `rows` rows of `k` entries.
    pub open spec fn is_new(
        self,
        key: StreamKey,
        rows: nat,
        vocab: nat,
        k: nat,
        nblocks: nat,
        state_words: nat,
    ) -> bool {
        &&& self.key == key
        &&& self.capacity_rows == next_power_of_two(rows)
        &&& self.vocab == vocab
        &&& self.capacity_k == next_power_of_two(k)
        &&& self.nblocks == nblocks
        &&& self.wf(state_words)
    }

    /// Sizes a workspace, rounding rows and width up to powers of two.
    pub fn new(
        key: StreamKey,
        rows: usize,
        vocab: usize,
        k: usize,
        nblocks: usize,
        state_words: usize,
    ) -> (r: Result<Self, WorkspaceError>)
        ensures
            match ranked_workspace_error(
                rows as nat,
                k as nat,
                nblocks as nat,
                state_words as nat,
            ) {
                Some(e) => r == Err::<Self, WorkspaceError>(e),
                None => r matches Ok(w) && w.is_new(
                    key,
                    rows as nat,
                    vocab as nat,
                    k as nat,
                    nblocks as nat,
                    state_words as nat,
                ),
            },
    {
        let capacity_rows: usize = match checked_next_power_of_two(rows) {
            Some(n) => n,
            None => {
                return Err(WorkspaceError::RankedRows);
            },
        };
        let capacity_k: usize = match checked_next_power_of_two(k) {
            Some(n) => n,
            None => {
                return Err(WorkspaceError::RankedWidth);
            },
        };
        proof {
            law_next_power_of_two_bounds(k as nat);
        }
        let (_blocks, candidate_elems) = match sized_blocks(capacity_rows, nblocks, capacity_k) {
            Some(sizes) => sizes,
            None => {
                return Err(WorkspaceError::RankedCandidates);
            },
        };
        let radix_elems: usize = match capacity_rows.checked_mul(state_words) {
            Some(n) => n,
            None => {
                return Err(WorkspaceError::RankedRadix);
            },
        };
        let (_pairs, packed_elems) = match sized_blocks(capacity_rows, capacity_k, 2) {
            Some(sizes) => sizes,
            None => {
                return Err(WorkspaceError::RankedPacked);
            },
        };
        Ok(
            CudaRankedTopKPackedWorkspace {
                key,
                capacity_rows,
                vocab,
                capacity_k,
                nblocks,
                candidate_elems,
                radix_elems,
                packed_elems,
            },
        )
    }

    /// The workspace belongs to the stream and has room for the launch.
    pub open spec fn holds(
        self,
        key: StreamKey,
        rows: nat,
        vocab: nat,
        k: nat,
        nblocks: nat,
    ) -> bool {
        &&& self.key == key
        &&& self.capacity_rows >= rows
        &&& self.vocab == vocab
        &&& self.capacity_k >= k
        &&& self.nblocks == nblocks
    }

    /// Whether the workspace belongs to the stream and has room for the launch.
    pub fn can_hold(
        &self,
        key: StreamKey,
        rows: usize,
        vocab: usize,
        k: usize,
        nblocks: usize,
    ) -> (r: bool)
        ensures
            r == self.holds(key, rows as nat, vocab as nat, k as nat, nblocks as nat),
    {
        self.key == key && self.capacity_rows >= rows && self.vocab == vocab && self.capacity_k
            >= k && self.nblocks == nblocks
    }
}

/// A ranked workspace that has room for a launch has room for each of its
/// buffers.
pub proof fn law_ranked_workspace_covers_launch(
    w: CudaRankedTopKPackedWorkspace,
    rows: nat,
    k: nat,
    nblocks: nat,
    state_words: nat,
)
    requires
        w.wf(state_words),
        w.capacity_rows >= rows,
        w.capacity_k >= k,
        w.nblocks == nblocks,
    ensures
        rows * (nblocks * k) <= w.candidate_elems,
        rows * state_words <= w.radix_elems,
        rows * (2 * k) <= w.packed_elems,
{
    let cr = w.capacity_rows as nat;
    let ck = w.capacity_k as nat;
    lemma_covers(cr, rows, ck, k, nblocks);
    assert(rows * state_words <= cr * state_words) by (nonlinear_arith)
        requires
            rows <= cr,
    ;
    assert(rows * (2 * k) <= (cr * ck) * 2) by (nonlinear_arith)
        requires
            rows <= cr,
            k <= ck,
    ;
}

/// Why a ranked packed top-k over rows is refused. `state_words` is the number
/// of words that the kernel keeps for a row.
pub open spec fn ranked_batched_refusal(input: TensorMeta, k: nat, state_words: nat) -> Option<
    OpError,
> {
    if !input.dtype.is_logits_float() {
        Some(OpError::LogitsDType)
    } else if !input.contiguous {
        Some(OpError::RequiresContiguous)
    } else if rows_refusal(input) is Some {
        rows_refusal(input)
    } else if packed_width_refusal(rows(input), input.dims@.last() as nat, k) is Some {
        packed_width_refusal(rows(input), input.dims@.last() as nat, k)
    } else if rows(input) * state_words > usize::MAX {
        Some(OpError::RadixOverflow)
    } else if input.device !is Cuda {
        Some(OpError::LogitsDevice)
    } else {
        None
    }
}

/// What a ranked packed launch hands out: packed rows, and as workspace the
/// block values, the block indices and the radix state.
pub open spec fn is_ranked_output(
    out: RankedTopKPackedOutput,
    plan: PackedTopKPlan,
    state_words: nat,
    device: Device,
) -> bool {
    &&& out.packed.is_matrix(DType::F32, plan.batch as nat, plan.packed_width as nat, device)
    &&& out.k == plan.k
    &&& out.workspace@.len() == 3
    &&& out.workspace@[0].is_vector(DType::F32, plan.workspace_elems as nat, device)
    &&& out.workspace@[1].is_vector(DType::U32, plan.workspace_elems as nat, device)
    &&& out.workspace@[2].is_vector(DType::U32, plan.batch as nat * state_words, device)
}

/// Plans the ranked packed top-k of rows of logits. The workspace in `cache` is
/// kept where it has room and sized anew where it has not; a refused launch
/// leaves it as it is.
pub fn cuda_topk_ranked_packed_batched_with_workspace(
    input: &TensorMeta,
    k: usize,
    state_words: usize,
    key: StreamKey,
    cache: &mut Option<CudaRankedTopKPackedWorkspace>,
) -> (r: Result<(PackedTopKPlan, RankedTopKPackedOutput), OpError>)
    requires
        input.wf(),
        *old(cache) matches Some(w) ==> w.wf(state_words as nat),
    ensures
        *final(cache) matches Some(w) ==> w.wf(state_words as nat),
        match ranked_batched_refusal(*input, k as nat, state_words as nat) {
            Some(e) => r matches Err(got) && got.same(e) && *final(cache) == *old(cache),
            None => {
                let batch = rows(*input);
                let vocab = input.dims@.last() as nat;
                let plan = packed_plan(batch, vocab, k as nat, 0);
                let kept = *old(cache) matches Some(w) && w.holds(
                    key,
                    batch,
                    vocab,
                    plan.k as nat,
                    plan.nblocks as nat,
                );
                let failure = ranked_workspace_error(
                    batch,
                    plan.k as nat,
                    plan.nblocks as nat,
                    state_words as nat,
                );
                if !kept && failure is Some {
                    &&& r == Err::<(PackedTopKPlan, RankedTopKPackedOutput), OpError>(
                        OpError::Workspace(failure.unwrap()),
                    )
                    &&& *final(cache) == *old(cache)
                } else {
                    &&& r matches Ok((got, out))
                    &&& got == plan
                    &&& exact_packed_plan(got, batch, vocab, k as nat, 0)
                    &&& is_ranked_output(out, plan, state_words as nat, input.device)
                    &&& kept ==> *final(cache) == *old(cache)
                    &&& !kept ==> (*final(cache) matches Some(w) && w.is_new(
                        key,
                        batch,
                        vocab,
                        plan.k as nat,
                        plan.nblocks as nat,
                        state_words as nat,
                    ))
                    &&& *final(cache) matches Some(w)
                    &&& plan.workspace_elems <= w.candidate_elems
                    &&& plan.batch * state_words <= w.radix_elems
                    &&& plan.packed_elems <= w.packed_elems
                }
            },
        },
{
    if !input.dtype.logits_float() {
        return Err(OpError::LogitsDType);
    }
    if !input.contiguous {
        return Err(OpError::RequiresContiguous);
    }
    let (vocab, batch) = match check_rows(input) {
        Ok(sizes) => sizes,
        Err(e) => {
            return Err(e);
        },
    };
    let plan = match plan_packed(batch, vocab, k, 0) {
        Ok(plan) => plan,
        Err(e) => {
            return Err(e);
        },
    };
    let radix_elems: usize = match batch.checked_mul(state_words) {
        Some(n) => n,
        None => {
            return Err(OpError::RadixOverflow);
        },
    };
    match input.device {
        Device::Cuda(_) => {},
        _ => {
            return Err(OpError::LogitsDevice);
        },
    }
    let kept: bool = match cache {
        Some(w) => w.can_hold(key, batch, vocab, plan.k, plan.nblocks),
        None => false,
    };
    if !kept {
        match CudaRankedTopKPackedWorkspace::new(
            key,
            batch,
            vocab,
            plan.k,
            plan.nblocks,
            state_words,
        ) {
            Ok(w) => {
                proof {
                    law_next_power_of_two_bounds(batch as nat);
                    law_next_power_of_two_bounds(plan.k as nat);
                }
                *cache = Some(w);
            },
            Err(e) => {
                return Err(OpError::Workspace(e));
            },
        }
    }
    proof {
        law_ranked_workspace_covers_launch(
            cache.unwrap(),
            batch as nat,
            plan.k as nat,
            plan.nblocks as nat,
            state_words as nat,
        );
    }
    let mut workspace: Vec<TensorMeta> = Vec::new();
    workspace.push(TensorMeta::vector(DType::F32, plan.workspace_elems, input.device));
    workspace.push(TensorMeta::vector(DType::U32, plan.workspace_elems, input.device));
    workspace.push(TensorMeta::vector(DType::U32, radix_elems, input.device));
    let out = RankedTopKPackedOutput {
        packed: TensorMeta::matrix(DType::F32, batch, plan.packed_width, input.device),
        k: plan.k,
        workspace,
    };
    Ok((plan, out))
}

/// Plans the ranked packed top-k of rows of logits with a workspace of its own.
pub fn cuda_topk_ranked_packed_batched(
    input: &TensorMeta,
    k: usize,
    state_words: usize,
    key: StreamKey,
) -> (r: Result<(PackedTopKPlan, RankedTopKPackedOutput), OpError>)
    requires
        input.wf(),
    ensures
        match ranked_batched_refusal(*input, k as nat, state_words as nat) {
            Some(e) => r matches Err(got) && got.same(e),
            None => {
                let plan = packed_plan(rows(*input), input.dims@.last() as nat, k as nat, 0);
                match ranked_workspace_error(
                    rows(*input),
                    plan.k as nat,
                    plan.nblocks as nat,
                    state_words as nat,
                ) {
                    Some(e) => r == Err::<(PackedTopKPlan, RankedTopKPackedOutput), OpError>(
                        OpError::Workspace(e),
                    ),
                    None => r matches Ok((got, out)) && got == plan && is_ranked_output(
                        out,
                        plan,
                        state_words as nat,
                        input.device,
                    ),
                }
            },
        },
{
    let mut workspace: Option<CudaRankedTopKPackedWorkspace> = None;
    cuda_topk_ranked_packed_batched_with_workspace(input, k, state_words, key, &mut workspace)
}

/// The largest `k` of a vocabulary is exact: within the grid, a batch of its logits is
/// accepted for every `k` up to it and refused for every one beyond, where a `k` beyond the
/// vocabulary counts as the vocabulary.
pub proof fn law_ranked_max_k_is_accepted(batch: nat, vocab: nat, k: nat)
    requires
        0 < vocab <= CUDA_TOPK_MAX_EXACT_PACKED_VOCAB,
        batch <= CUDA_TOPK_MAX_GRID_Y,
    ensures
        ranked_packed_max_k(vocab) matches Some(most) && (packed_width_refusal(batch, vocab, k)
            is None <==> 1 <= min(k as int, vocab as int) <= most),
{
    law_ranked_packed_max_k(vocab, min(k as int, vocab as int) as nat);
    let kk = min(k as int, vocab as int) as nat;
    let nblocks = ceil_div(vocab, CUDA_TOPK_CHUNK_SIZE as nat);
    assert(kk * nblocks == nblocks * kk) by (nonlinear_arith);
}

/// What a ranked launch answers, given the status that the kernel returned.
pub fn ranked_launch_status(status: i32) -> (r: Result<(), OpError>)
    ensures
        r == (if status == 0 {
            Ok::<(), OpError>(())
        } else {
            Err::<(), OpError>(OpError::LaunchFailed { status })
        }),
{
    if status != 0 {
        Err(OpError::LaunchFailed { status })
    } else {
        Ok(())
    }
}

} // verus!
