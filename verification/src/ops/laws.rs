//! Which launches are accepted, and what a refusal says.

use vstd::arithmetic::power2::pow2;
use vstd::prelude::*;

use crate::ops::logit_processing::{causal_mask_refusal, metal_penalties_refusal, sparse_refusal};
use crate::ops::topk::{sort_of, sort_refusal, sortable, topk_refusal};
use crate::ops::topk_logits::{
    is_positive_finite, metal_row_refusal, packed_batched_refusal, packed_width_refusal,
    ranked_batched_refusal, row_f32_refusal, row_width_refusal, rows,
};
use crate::ops::{ceil_div, doubled_until, next_power_of_two, Op, OpError, WorkspaceError};
use crate::tensor::{product, DType, TensorMeta};

verus! {

/// A tensor has one of the three element types of logits.
pub open spec fn has_logits(t: TensorMeta) -> bool {
    t.dtype == DType::BF16 || t.dtype == DType::F16 || t.dtype == DType::F32
}

proof fn lemma_doubled_is_a_power(p: nat, n: nat, e: nat) -> (r: nat)
    requires
        p == pow2(e),
        p > 0,
    ensures
        doubled_until(p, n) == pow2(r),
        r > e ==> pow2((r - 1) as nat) < n,
    decreases crate::ops::above(n as int, p as int),
{
    if p >= n {
        e
    } else {
        vstd::arithmetic::power2::lemma_pow2_unfold(e + 1);
        let r = lemma_doubled_is_a_power(2 * p, n, e + 1);
        r
    }
}

/// What a count is rounded up to is a power of two, and the one before it is too small.
pub proof fn law_rounded_counts_are_powers_of_two(n: nat) -> (e: nat)
    ensures
        next_power_of_two(n) == pow2(e),
        pow2(e) >= n,
        e > 0 ==> pow2((e - 1) as nat) < n,
{
    vstd::arithmetic::power2::lemma2_to64();
    crate::ops::law_next_power_of_two_bounds(n);
    lemma_doubled_is_a_power(1, n, 0)
}

/// A temperature is taken where its sign is clear, its exponent is that of a number, and it is not
/// zero.
pub proof fn law_temperatures_are_positive_numbers(bits: u64)
    ensures
        is_positive_finite(bits) <==> bits >> 63 == 0 && (bits >> 52) & 0x7ff != 0x7ff && bits != 0,
{
    assert((0 < bits && bits < 0x7ff0_0000_0000_0000) <==> (bits >> 63 == 0 && (bits >> 52) & 0x7ff
        != 0x7ff && bits != 0)) by (bit_vector);
}

/// A top-k needs a last dimension of logits on a CUDA device, and nothing else.
pub proof fn law_topk_takes_logits_on_cuda(input: TensorMeta)
    ensures
        topk_refusal(input) is None <==> input.dims@.len() > 0 && input.device is Cuda
            && has_logits(input),
        topk_refusal(input) == Some(OpError::EmptyDims) ==> input.dims@.len() == 0,
        topk_refusal(input) == Some(OpError::LogitsDevice) ==> input.device !is Cuda,
        topk_refusal(input) == Some(OpError::LogitsDType) ==> !has_logits(input),
{
}

/// A sort needs a last dimension without gaps, of a type that has a kernel, off Metal; its rows and
/// columns are the whole tensor.
pub proof fn law_sorts_cover_the_tensor(input: TensorMeta, asc: bool, inplace: bool)
    ensures
        sort_refusal(input) is None <==> input.contiguous && input.dims@.len() > 0 && input.device
            !is Metal && !(input.dtype == DType::I16 || input.dtype == DType::I32 || input.dtype
            == DType::F8E4M3 || input.dtype == DType::F8E8M0 || input.dtype.bytes() == 0),
        sort_refusal(input) is None && sortable(input) ==> {
            let plan = sort_of(input, asc, inplace);
            &&& plan.nrows * plan.ncols == plan.out_elems
            &&& plan.out_elems == input.count()
            &&& plan.ncols == input.dims@.last()
            &&& plan.asc == asc && plan.inplace == inplace && plan.dtype == input.dtype
        },
{
    if sort_refusal(input) is None && sortable(input) {
        let d = input.dims@.last() as nat;
        let lead = product(input.dims@.drop_last());
        assert((lead * d) / d == lead && lead * d >= lead) by (nonlinear_arith)
            requires
                d > 0,
        ;
    }
}

/// A sparse update needs single-precision logits, as many values as token ids, all on one CUDA
/// device, and no more of either than a kernel can count. A refusal names what is wrong.
pub proof fn law_sparse_updates_need_matching_tensors(
    input: TensorMeta,
    ids: TensorMeta,
    values: TensorMeta,
)
    ensures
        sparse_refusal(input, ids, values) is None <==> {
            &&& input.dtype == DType::F32 && ids.dtype == DType::U32 && values.dtype == DType::F32
            &&& ids.count() == values.count()
            &&& input.device == ids.device && input.device == values.device
            &&& input.device is Cuda
            &&& 0 < input.count() <= 0x7fff_ffff
            &&& ids.count() <= 0x7fff_ffff
        },
        match sparse_refusal(input, ids, values) {
            Some(OpError::LogitsDType) => input.dtype != DType::F32,
            Some(OpError::TokenIdsDType) => ids.dtype != DType::U32,
            Some(OpError::ValuesDType) => values.dtype != DType::F32,
            Some(OpError::LengthMismatch { .. }) => ids.count() != values.count(),
            Some(OpError::DifferentDevices) => input.device != ids.device || input.device
                != values.device,
            Some(OpError::EmptyLogits) => input.count() == 0,
            Some(OpError::InputTooLarge { .. }) => input.count() > 0x7fff_ffff,
            Some(OpError::TokensTooLarge { .. }) => ids.count() > 0x7fff_ffff,
            Some(OpError::LogitsDevice) => input.device !is Cuda,
            Some(_) => false,
            None => true,
        },
{
}

/// A causal mask needs single-precision scores of three dimensions without gaps on a CUDA device,
/// and counts that a kernel can hold. A refusal names what is wrong.
pub proof fn law_causal_masks_need_three_dims(scores: TensorMeta, offset: nat, prefix: nat)
    ensures
        causal_mask_refusal(scores, offset, prefix) is None <==> {
            &&& scores.device is Cuda && scores.dtype == DType::F32 && scores.contiguous
            &&& scores.dims@.len() == 3
            &&& forall|i: int| 0 <= i < 3 ==> #[trigger] scores.dims@[i] <= 0x7fff_ffff
            &&& offset <= 0x7fff_ffff && prefix <= 0x7fff_ffff
        },
        match causal_mask_refusal(scores, offset, prefix) {
            Some(OpError::LogitsDevice) => scores.device is Cpu,
            Some(OpError::NoMetal) => scores.device is Metal,
            Some(OpError::NotThreeDims { dims }) => scores.dims@.len() != 3 && dims@
                == scores.dims@,
            Some(OpError::CountTooLarge) => scores.dims@.len() == 3,
            Some(OpError::RequiresContiguous) => !scores.contiguous,
            Some(OpError::LogitsDType) => scores.dtype != DType::F32,
            Some(_) => false,
            None => true,
        },
{
    let d = scores.dims@;
    if d.len() == 3 {
        let all = forall|i: int| 0 <= i < 3 ==> #[trigger] d[i] <= 0x7fff_ffff;
        if all {
            assert(d[0] <= 0x7fff_ffff && d[1] <= 0x7fff_ffff && d[2] <= 0x7fff_ffff);
        }
    }
}

/// Penalties on Metal need logits, as many counts as token ids, and all three on Metal.
pub proof fn law_metal_penalties_need_matching_tensors(
    input: TensorMeta,
    ids: TensorMeta,
    counts: TensorMeta,
)
    ensures
        metal_penalties_refusal(input, ids, counts) is None <==> {
            &&& has_logits(input) && ids.dtype == DType::U32 && counts.dtype == DType::F32
            &&& ids.count() == counts.count()
            &&& input.device is Metal && ids.device is Metal && counts.device is Metal
        },
        match metal_penalties_refusal(input, ids, counts) {
            Some(OpError::LogitsDType) => !has_logits(input),
            Some(OpError::TokenIdsOrCountsDType) => ids.dtype != DType::U32 || counts.dtype
                != DType::F32,
            Some(OpError::LengthMismatch { .. }) => ids.count() != counts.count(),
            Some(OpError::LogitsDevice) => input.device !is Metal || ids.device !is Metal
                || counts.device !is Metal,
            Some(_) => false,
            None => true,
        },
{
}

/// So many entries of a row can be kept as there are, up to a hundred and twenty-eight; where the
/// second stage is bounded, what all blocks hand on must fit it. No one is refused for asking for
/// more entries than there are.
pub proof fn law_rows_are_taken_whole(ncols: nat, k: nat, bounded: bool)
    ensures
        ({
            let kept = if k <= ncols {
                k
            } else {
                ncols
            };
            &&& row_width_refusal(ncols, k, bounded) is None <==> {
                &&& 1 <= kept <= 128
                &&& bounded ==> ceil_div(ncols, 2048) * kept <= 48128
            }
            &&& row_width_refusal(ncols, k, bounded) == row_width_refusal(ncols, kept, bounded)
            &&& row_width_refusal(ncols, k, bounded) == Some(OpError::EmptyLogits) <==> ncols == 0
        }),
{
}

/// A row on CUDA is single-precision, and one on Metal of any type of logits; both need a positive
/// temperature, and only on CUDA is the second stage bounded.
pub proof fn law_rows_run_where_they_lie(input: TensorMeta, k: nat, temperature: u64)
    ensures
        row_f32_refusal(input, k, temperature) is None <==> is_positive_finite(temperature)
            && input.dtype == DType::F32 && input.device is Cuda && row_width_refusal(
            input.count(),
            k,
            true,
        ) is None,
        metal_row_refusal(input, k, temperature) is None <==> is_positive_finite(temperature)
            && has_logits(input) && input.device is Metal && row_width_refusal(
            input.count(),
            k,
            false,
        ) is None,
{
}

/// Packed rows need an entry to keep and no more than a kernel keeps, indices that a float holds
/// exactly, a batch that a grid holds, and candidates that the second stage holds.
pub proof fn law_packed_rows_are_taken_within_limits(batch: nat, vocab: nat, k: nat)
    ensures
        ({
            let kept = if k <= vocab {
                k
            } else {
                vocab
            };
            packed_width_refusal(batch, vocab, k) is None <==> {
                &&& 1 <= kept <= 128
                &&& vocab <= 16777217
                &&& batch <= 65535
                &&& ceil_div(vocab, 2048) * kept <= 48128
            }
        }),
        match packed_width_refusal(batch, vocab, k) {
            Some(OpError::K { .. }) => k == 0 || vocab == 0 || (k > 128 && vocab > 128),
            Some(OpError::InexactVocabulary { .. }) => vocab > 16777217,
            Some(OpError::BatchTooLarge { .. }) => batch > 65535,
            Some(OpError::Candidates { .. }) => ceil_div(vocab, 2048) * k > 48128,
            Some(_) => false,
            None => true,
        },
{
    let kept = if k <= vocab {
        k
    } else {
        vocab
    };
    let n = ceil_div(vocab, 2048);
    assert(n * kept <= n * k) by (nonlinear_arith)
        requires
            kept <= k,
    ;
}

/// A batch needs rows of logits without gaps on a CUDA device, within the limits, and one
/// temperature for each row on the same device; a ranked batch needs no temperatures, but words
/// for the state of each row.
pub proof fn law_batches_are_taken_with_their_temperatures(
    input: TensorMeta,
    temperatures: TensorMeta,
    k: nat,
    words: nat,
)
    requires
        input.wf(),
    ensures
        ({
            let ready = {
                &&& has_logits(input) && input.contiguous && input.device is Cuda
                &&& input.dims@.len() > 0
                &&& input.count() > 0
                &&& packed_width_refusal(rows(input), input.dims@.last() as nat, k) is None
            };
            &&& packed_batched_refusal(input, temperatures, k) is None <==> {
                &&& ready
                &&& temperatures.dtype == DType::F32 && temperatures.contiguous
                &&& temperatures.device == input.device
                &&& temperatures.dims@.len() == 1 && temperatures.dims@[0] == rows(input)
            }
            &&& ranked_batched_refusal(input, k, words) is None <==> ready && rows(input) * words
                <= usize::MAX
        }),
{
    if input.dims@.len() > 0 {
        let d = input.dims@.last() as nat;
        let lead = product(input.dims@.drop_last());
        if d > 0 {
            assert((lead * d) / d == lead) by (nonlinear_arith)
                requires
                    d > 0,
            ;
            assert(lead > 0 <==> lead * d > 0) by (nonlinear_arith)
                requires
                    d > 0,
            ;
            assert(lead <= lead * d) by (nonlinear_arith)
                requires
                    d > 0,
            ;
        } else {
            assert(lead * 0 == 0);
        }
        let dims = temperatures.dims@;
        if dims.len() == 1 && dims[0] == rows(input) {
            assert(dims =~= seq![rows(input) as usize]);
        }
    }
}

/// Every operator answers under a name of its own.
pub proof fn law_operators_are_named_apart(a: Op, b: Op)
    requires
        a.text() == b.text(),
    ensures
        a == b,
{
    reveal_strlit("cuda_topk");
    assert("cuda_topk"@.len() == 9);
    reveal_strlit("arg_sort");
    assert("arg_sort"@.len() == 8);
    reveal_strlit("cuda_topk_logits_f32");
    assert("cuda_topk_logits_f32"@.len() == 20);
    reveal_strlit("cuda_topk_logits_f32_packed");
    assert("cuda_topk_logits_f32_packed"@.len() == 27);
    reveal_strlit("cuda_topk_logits_packed_batched");
    assert("cuda_topk_logits_packed_batched"@.len() == 31 && "cuda_topk_logits_packed_batched"@[5] == 't' && "cuda_topk_logits_packed_batched"@[10] == 'l');
    reveal_strlit("cuda_topk_logits_f32_packed_batched");
    assert("cuda_topk_logits_f32_packed_batched"@.len() == 35);
    reveal_strlit("cuda_topk_ranked_packed_batched");
    assert("cuda_topk_ranked_packed_batched"@.len() == 31 && "cuda_topk_ranked_packed_batched"@[5] == 't' && "cuda_topk_ranked_packed_batched"@[10] == 'r');
    reveal_strlit("metal_topk_logits_packed");
    assert("metal_topk_logits_packed"@.len() == 24);
    reveal_strlit("cuda_apply_sparse_penalties_f32");
    assert("cuda_apply_sparse_penalties_f32"@.len() == 31 && "cuda_apply_sparse_penalties_f32"@[5] == 'a');
    reveal_strlit("cuda_apply_sparse_logits_bias_f32");
    assert("cuda_apply_sparse_logits_bias_f32"@.len() == 33);
    reveal_strlit("causal-mask-f32");
    assert("causal-mask-f32"@.len() == 15);
    reveal_strlit("metal_apply_sparse_penalties");
    assert("metal_apply_sparse_penalties"@.len() == 28);
}

/// Every count that does not fit is told by a message of its own.
pub proof fn law_overflows_are_told_apart(a: WorkspaceError, b: WorkspaceError)
    requires
        a.text() == b.text(),
    ensures
        a == b,
{
    reveal_strlit("CUDA top-k row capacity overflow");
    assert("CUDA top-k row capacity overflow"@.len() == 32 && "CUDA top-k row capacity overflow"@[5] == 't' && "CUDA top-k row capacity overflow"@[11] == 'r');
    reveal_strlit("CUDA top-k width capacity overflow");
    assert("CUDA top-k width capacity overflow"@.len() == 34);
    reveal_strlit("CUDA top-k workspace overflow");
    assert("CUDA top-k workspace overflow"@.len() == 29);
    reveal_strlit("CUDA top-k packed width overflow");
    assert("CUDA top-k packed width overflow"@.len() == 32 && "CUDA top-k packed width overflow"@[5] == 't' && "CUDA top-k packed width overflow"@[11] == 'p');
    reveal_strlit("CUDA top-k packed workspace overflow");
    assert("CUDA top-k packed workspace overflow"@.len() == 36 && "CUDA top-k packed workspace overflow"@[5] == 't');
    reveal_strlit("CUDA ranked top-k row capacity overflow");
    assert("CUDA ranked top-k row capacity overflow"@.len() == 39);
    reveal_strlit("CUDA ranked top-k width capacity overflow");
    assert("CUDA ranked top-k width capacity overflow"@.len() == 41);
    reveal_strlit("CUDA ranked top-k workspace overflow");
    assert("CUDA ranked top-k workspace overflow"@.len() == 36 && "CUDA ranked top-k workspace overflow"@[5] == 'r');
    reveal_strlit("CUDA ranked top-k radix overflow");
    assert("CUDA ranked top-k radix overflow"@.len() == 32 && "CUDA ranked top-k radix overflow"@[5] == 'r');
    reveal_strlit("CUDA ranked top-k packed overflow");
    assert("CUDA ranked top-k packed overflow"@.len() == 33);
}

} // verus!
