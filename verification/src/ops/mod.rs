//! Planning of the accelerator operators on logits: which launches are
//! accepted, with which sizes, and what is answered to the others.

use vstd::prelude::*;

use crate::text::{decimal, push_decimal, push_list, push_signed, signed_decimal};

pub mod laws;
pub mod logit_processing;
pub mod topk;
pub mod topk_logits;

verus! {

/// Columns that one block of a top-k kernel reads.
pub const CUDA_TOPK_CHUNK_SIZE: usize = 2048;

/// Largest vocabulary whose indices a single-precision float holds exactly.
pub const CUDA_TOPK_MAX_EXACT_PACKED_VOCAB: usize = 16777217;

/// Rows that a two-dimensional launch can have.
pub const CUDA_TOPK_MAX_GRID_Y: usize = 65535;

/// Largest number of entries that a top-k kernel selects.
pub const CUDA_TOPK_MAX_K: usize = 128;

/// Candidates that the second stage of a top-k kernel can hold.
pub const CUDA_TOPK_MAX_STAGE2_CANDIDATES: usize = 48128;

/// Largest count that the kernels take.
pub const MAX_KERNEL_COUNT: usize = 2147483647;

/// The least number not below `n / d`.
pub open spec fn ceil_div(n: nat, d: nat) -> nat {
    if n % d == 0 {
        n / d
    } else {
        n / d + 1
    }
}

/// Dividing and rounding up gives enough parts, and not one too many.
pub proof fn law_rounding_up_is_enough(n: nat, d: nat)
    requires
        d > 0,
    ensures
        ceil_div(n, d) * d >= n,
        n > 0 ==> (ceil_div(n, d) - 1) * d < n,
        n == 0 ==> ceil_div(n, d) == 0,
{
    let (q, r) = (n / d, n % d);
    assert(q * d + r == n && 0 <= r < d) by (nonlinear_arith)
        requires
            d > 0,
            q == n / d,
            r == n % d,
    ;
    assert((q + 1) * d == q * d + d && (q - 1) * d == q * d - d) by (nonlinear_arith);
    if n == 0 {
        assert(q == 0) by (nonlinear_arith)
            requires
                q == 0nat / d,
                d > 0,
        ;
    }
}

/// The least number not below `n / d`.
pub fn div_ceil(n: usize, d: usize) -> (r: usize)
    requires
        d > 0,
    ensures
        r == ceil_div(n as nat, d as nat),
        r <= n,
{
    let q: usize = n / d;
    proof {
        assert(q <= n && (n % d != 0 ==> q < n)) by (nonlinear_arith)
            requires
                d > 0,
                q == n / d,
                n >= 0,
        ;
    }
    if n % d == 0 {
        q
    } else {
        q + 1
    }
}

/// The lesser of two numbers.
pub open spec fn min(a: int, b: int) -> int {
    if a <= b {
        a
    } else {
        b
    }
}

/// The lesser of two numbers.
pub fn min_usize(a: usize, b: usize) -> (r: usize)
    ensures
        r == min(a as int, b as int),
{
    if a <= b {
        a
    } else {
        b
    }
}

/// How far `a` lies above `b`.
pub open spec fn above(a: int, b: int) -> int {
    if a > b {
        a - b
    } else {
        0
    }
}

/// The first of `p`, `2 * p`, `4 * p`, ... that is not below `n`.
pub open spec fn doubled_until(p: nat, n: nat) -> nat
    decreases above(n as int, p as int),
{
    if p >= n || p == 0 {
        p
    } else {
        doubled_until(2 * p, n)
    }
}

/// The least power of two that is not below `n`.
pub open spec fn next_power_of_two(n: nat) -> nat {
    doubled_until(1, n)
}

proof fn lemma_doubled_until(p: nat, n: nat)
    requires
        p > 0,
    ensures
        doubled_until(p, n) >= n,
        doubled_until(p, n) >= p,
        doubled_until(p, n) == p || doubled_until(p, n) < 2 * n,
    decreases above(n as int, p as int),
{
    if p < n {
        lemma_doubled_until(2 * p, n);
    }
}

/// The rounding up to a power of two keeps room for `n` and less than doubles it.
pub proof fn law_next_power_of_two_bounds(n: nat)
    ensures
        next_power_of_two(n) >= n,
        next_power_of_two(n) >= 1,
        n > 0 ==> next_power_of_two(n) < 2 * n,
{
    lemma_doubled_until(1, n);
}

/// The least power of two not below `n`, or nothing where it does not fit a
/// machine word.
pub fn checked_next_power_of_two(n: usize) -> (r: Option<usize>)
    ensures
        r == (if next_power_of_two(n as nat) <= usize::MAX {
            Some(next_power_of_two(n as nat) as usize)
        } else {
            None
        }),
{
    let mut p: usize = 1;
    while p < n
        invariant
            p >= 1,
            next_power_of_two(n as nat) == doubled_until(p as nat, n as nat),
        decreases above(n as int, p as int),
    {
        match p.checked_mul(2) {
            Some(q) => {
                p = q;
            },
            None => {
                proof {
                    lemma_doubled_until(2 * p as nat, n as nat);
                }
                return None;
            },
        }
    }
    Some(p)
}

/// Largest `k` for which the ranked packed top-k of a vocabulary fits the
/// kernel's workspace.
pub open spec fn ranked_packed_max_k(vocab: nat) -> Option<nat> {
    if vocab == 0 || vocab > CUDA_TOPK_MAX_EXACT_PACKED_VOCAB {
        None
    } else {
        let chunks = ceil_div(vocab, CUDA_TOPK_CHUNK_SIZE as nat);
        let bound = CUDA_TOPK_MAX_STAGE2_CANDIDATES as nat / chunks;
        let max_k = min(min(vocab as int, CUDA_TOPK_MAX_K as int), bound as int);
        if max_k > 0 {
            Some(max_k as nat)
        } else {
            None
        }
    }
}

/// Largest `k` for which the ranked packed top-k of a vocabulary fits the
/// kernel's workspace, or nothing where no `k` does.
pub fn cuda_topk_ranked_packed_max_k(vocab: usize) -> (r: Option<usize>)
    ensures
        match ranked_packed_max_k(vocab as nat) {
            Some(k) => r == Some(k as usize) && k <= CUDA_TOPK_MAX_K,
            None => r is None,
        },
{
    if vocab == 0 || vocab > CUDA_TOPK_MAX_EXACT_PACKED_VOCAB {
        return None;
    }
    let chunks: usize = div_ceil(vocab, CUDA_TOPK_CHUNK_SIZE);
    if chunks == 0 {
        return None;
    }
    let workspace_bound: usize = CUDA_TOPK_MAX_STAGE2_CANDIDATES / chunks;
    let max_k: usize = min_usize(min_usize(vocab, CUDA_TOPK_MAX_K), workspace_bound);
    if max_k > 0 {
        Some(max_k)
    } else {
        None
    }
}

/// Every vocabulary that packed indices can name has some `k`, and the `k` given is the
/// largest: a `k` fits the vocabulary, the kernel and the candidates of the second stage
/// exactly where it is not above that one.
pub proof fn law_ranked_packed_max_k(vocab: nat, k: nat)
    requires
        0 < vocab <= CUDA_TOPK_MAX_EXACT_PACKED_VOCAB,
    ensures
        ranked_packed_max_k(vocab) matches Some(most) && most >= 1 && (k <= most <==> {
            &&& k <= vocab
            &&& k <= CUDA_TOPK_MAX_K
            &&& k * ceil_div(vocab, CUDA_TOPK_CHUNK_SIZE as nat) <= CUDA_TOPK_MAX_STAGE2_CANDIDATES
        }),
{
    let chunks = ceil_div(vocab, CUDA_TOPK_CHUNK_SIZE as nat);
    assert(1 <= chunks <= 8193);
    let bound = CUDA_TOPK_MAX_STAGE2_CANDIDATES as nat / chunks;
    assert(bound >= 5 && bound * chunks <= 48128) by (nonlinear_arith)
        requires
            1 <= chunks <= 8193,
            bound == 48128nat / chunks,
    ;
    assert(k <= bound <==> k * chunks <= 48128) by (nonlinear_arith)
        requires
            chunks >= 1,
            bound == 48128nat / chunks,
    ;
}

/// The operators that plan a launch.
#[derive(Debug, Clone, Copy, PartialEq, Eq, Structural)]
pub enum Op {
    Topk,
    ArgSort,
    TopkLogitsF32,
    TopkLogitsF32Packed,
    TopkLogitsPackedBatched,
    TopkLogitsF32PackedBatched,
    TopkRankedPackedBatched,
    MetalTopkLogitsPacked,
    SparsePenaltiesF32,
    SparseLogitsBiasF32,
    CausalMaskF32,
    MetalSparsePenalties,
}

impl Op {
    /// The name under which the operator answers.
    pub open spec fn text(self) -> Seq<char> {
        match self {
            Op::Topk => "cuda_topk"@,
            Op::ArgSort => "arg_sort"@,
            Op::TopkLogitsF32 => "cuda_topk_logits_f32"@,
            Op::TopkLogitsF32Packed => "cuda_topk_logits_f32_packed"@,
            Op::TopkLogitsPackedBatched => "cuda_topk_logits_packed_batched"@,
            Op::TopkLogitsF32PackedBatched => "cuda_topk_logits_f32_packed_batched"@,
            Op::TopkRankedPackedBatched => "cuda_topk_ranked_packed_batched"@,
            Op::MetalTopkLogitsPacked => "metal_topk_logits_packed"@,
            Op::SparsePenaltiesF32 => "cuda_apply_sparse_penalties_f32"@,
            Op::SparseLogitsBiasF32 => "cuda_apply_sparse_logits_bias_f32"@,
            Op::CausalMaskF32 => "causal-mask-f32"@,
            Op::MetalSparsePenalties => "metal_apply_sparse_penalties"@,
        }
    }

    /// The name under which the operator answers.
    pub fn name(&self) -> (r: &'static str)
        ensures
            r@ == self.text(),
    {
        match self {
            Op::Topk => "cuda_topk",
            Op::ArgSort => "arg_sort",
            Op::TopkLogitsF32 => "cuda_topk_logits_f32",
            Op::TopkLogitsF32Packed => "cuda_topk_logits_f32_packed",
            Op::TopkLogitsPackedBatched => "cuda_topk_logits_packed_batched",
            Op::TopkLogitsF32PackedBatched => "cuda_topk_logits_f32_packed_batched",
            Op::TopkRankedPackedBatched => "cuda_topk_ranked_packed_batched",
            Op::MetalTopkLogitsPacked => "metal_topk_logits_packed",
            Op::SparsePenaltiesF32 => "cuda_apply_sparse_penalties_f32",
            Op::SparseLogitsBiasF32 => "cuda_apply_sparse_logits_bias_f32",
            Op::CausalMaskF32 => "causal-mask-f32",
            Op::MetalSparsePenalties => "metal_apply_sparse_penalties",
        }
    }
}

/// Why the workspace of a launch cannot be sized: one of its element counts
/// does not fit a machine word.
#[derive(Debug, Clone, Copy, PartialEq, Eq, Structural)]
pub enum WorkspaceError {
    TopkRows,
    TopkWidth,
    TopkCandidates,
    TopkPackedWidth,
    TopkPacked,
    RankedRows,
    RankedWidth,
    RankedCandidates,
    RankedRadix,
    RankedPacked,
}

impl WorkspaceError {
    /// The message that names the count.
    pub open spec fn text(self) -> Seq<char> {
        match self {
            WorkspaceError::TopkRows => "CUDA top-k row capacity overflow"@,
            WorkspaceError::TopkWidth => "CUDA top-k width capacity overflow"@,
            WorkspaceError::TopkCandidates => "CUDA top-k workspace overflow"@,
            WorkspaceError::TopkPackedWidth => "CUDA top-k packed width overflow"@,
            WorkspaceError::TopkPacked => "CUDA top-k packed workspace overflow"@,
            WorkspaceError::RankedRows => "CUDA ranked top-k row capacity overflow"@,
            WorkspaceError::RankedWidth => "CUDA ranked top-k width capacity overflow"@,
            WorkspaceError::RankedCandidates => "CUDA ranked top-k workspace overflow"@,
            WorkspaceError::RankedRadix => "CUDA ranked top-k radix overflow"@,
            WorkspaceError::RankedPacked => "CUDA ranked top-k packed overflow"@,
        }
    }

    /// The message that names the count.
    pub fn message(&self) -> (r: String)
        ensures
            r@ == self.text(),
    {
        match self {
            WorkspaceError::TopkRows => "CUDA top-k row capacity overflow".to_owned(),
            WorkspaceError::TopkWidth => "CUDA top-k width capacity overflow".to_owned(),
            WorkspaceError::TopkCandidates => "CUDA top-k workspace overflow".to_owned(),
            WorkspaceError::TopkPackedWidth => "CUDA top-k packed width overflow".to_owned(),
            WorkspaceError::TopkPacked => "CUDA top-k packed workspace overflow".to_owned(),
            WorkspaceError::RankedRows => "CUDA ranked top-k row capacity overflow".to_owned(),
            WorkspaceError::RankedWidth => "CUDA ranked top-k width capacity overflow".to_owned(),
            WorkspaceError::RankedCandidates => "CUDA ranked top-k workspace overflow".to_owned(),
            WorkspaceError::RankedRadix => "CUDA ranked top-k radix overflow".to_owned(),
            WorkspaceError::RankedPacked => "CUDA ranked top-k packed overflow".to_owned(),
        }
    }
}

/// Why a launch is refused. Each variant carries what its message names.
pub enum OpError {
    /// A tensor has to be contiguous.
    RequiresContiguous,
    /// The shape has no dimension.
    EmptyDims,
    /// The element type has no sorting kernel.
    SortDType,
    /// The temperature is not a positive finite number.
    Temperature,
    /// The logits have the wrong element type.
    LogitsDType,
    /// The inverse temperatures have the wrong element type.
    TemperaturesDType,
    /// The token ids have the wrong element type.
    TokenIdsDType,
    /// The per-token values (counts or biases) have the wrong element type.
    ValuesDType,
    /// Token ids or counts have the wrong element type.
    TokenIdsOrCountsDType,
    /// The tensors lie on different devices.
    DifferentDevices,
    /// The logits need at least one dimension.
    Rank,
    /// The logits hold nothing.
    EmptyLogits,
    /// The vocabulary is empty.
    EmptyVocabulary,
    /// There is no row.
    EmptyBatch,
    /// The inverse temperatures do not have one entry per row.
    TemperaturesShape { batch: usize, dims: Vec<usize> },
    /// `k` is out of range.
    K { k: usize, max: usize },
    /// The vocabulary is too large for exact packed indices.
    InexactVocabulary { vocab: usize },
    /// The batch is too large for a launch.
    BatchTooLarge { batch: usize },
    /// The second stage has too many candidates.
    Candidates { candidates: usize },
    /// The workspace cannot be sized.
    Workspace(WorkspaceError),
    /// The operator has no Metal kernel.
    NoMetal,
    /// The radix state does not fit.
    RadixOverflow,
    /// The kernel reported a failure.
    LaunchFailed { status: i32 },
    /// The logits are not on the accelerator.
    LogitsDevice,
    /// The token ids and their values have different lengths.
    LengthMismatch { tokens: usize, values: usize },
    /// The input is too large.
    InputTooLarge { elems: usize },
    /// The token list is too large.
    TokensTooLarge { tokens: usize },
    /// A count does not fit the kernel's integers.
    CountTooLarge,
    /// The shape does not have three dimensions.
    NotThreeDims { dims: Vec<usize> },
}

impl OpError {
    /// Two refusals say the same.
    pub open spec fn same(self, other: OpError) -> bool {
        match (self, other) {
            (
                OpError::TemperaturesShape { batch, dims },
                OpError::TemperaturesShape { batch: b, dims: d },
            ) => batch == b && dims@ == d@,
            (OpError::NotThreeDims { dims }, OpError::NotThreeDims { dims: d }) => dims@ == d@,
            _ => self == other,
        }
    }

    /// The message that an operator answers with.
    pub open spec fn text(self, op: Op) -> Seq<char> {
        let n = op.text();
        match self {
            OpError::RequiresContiguous => if op == Op::CausalMaskF32 {
                n + " requires contiguous scores"@
            } else {
                n + " only supports contiguous tensors"@
            },
            OpError::EmptyDims => if op == Op::ArgSort {
                "empty last-dim in arg-sort"@
            } else {
                "empty dims"@
            },
            OpError::SortDType => "Unexpected dtype in asort"@,
            OpError::Temperature => n + " requires a positive finite temperature"@,
            OpError::LogitsDType => match op {
                Op::Topk => n + " only supports BF16/F16/F32"@,
                Op::TopkLogitsPackedBatched | Op::TopkRankedPackedBatched => n
                    + " requires BF16, F16, or F32 logits"@,
                Op::MetalTopkLogitsPacked | Op::MetalSparsePenalties => n
                    + " requires F32/F16/BF16 logits"@,
                Op::CausalMaskF32 => n + " requires F32 scores"@,
                _ => n + " requires F32 logits"@,
            },
            OpError::TemperaturesDType => n + " requires F32 inverse temperatures"@,
            OpError::TokenIdsDType => n + " requires U32 token ids"@,
            OpError::ValuesDType => if op == Op::SparseLogitsBiasF32 {
                n + " requires F32 biases"@
            } else {
                n + " requires F32 counts"@
            },
            OpError::TokenIdsOrCountsDType => n + " token_ids must be u32, counts f32"@,
            OpError::DifferentDevices => n + " tensors must be on the same CUDA device"@,
            OpError::Rank => n + " requires logits with rank >= 1"@,
            OpError::EmptyLogits => n + " got empty logits"@,
            OpError::EmptyVocabulary => n + " got an empty vocabulary"@,
            OpError::EmptyBatch => n + " got an empty batch"@,
            OpError::TemperaturesShape { batch, dims } => n
                + " expected inverse temperatures with shape ["@ + decimal(batch as nat)
                + "], got "@ + crate::text::list_text(dims@),
            OpError::K { k, max } => n + " k="@ + decimal(k as nat) + " must be in [1, "@
                + decimal(max as nat) + "]"@,
            OpError::InexactVocabulary { vocab } => n + " vocabulary size "@ + decimal(
                vocab as nat,
            ) + " cannot be represented exactly by packed F32 indices"@,
            OpError::BatchTooLarge { batch } => n
                + " batch is too large for a 2D CUDA launch: "@ + decimal(batch as nat),
            OpError::Candidates { candidates } => match op {
                Op::TopkLogitsF32 | Op::TopkLogitsF32Packed => n + " workspace too large: "@
                    + decimal(candidates as nat) + " candidates"@,
                _ => n + " workspace too large: "@ + decimal(candidates as nat)
                    + " candidates per row"@,
            },
            OpError::Workspace(e) => e.text(),
            OpError::NoMetal => if op == Op::ArgSort {
                "Metal error no metal implementation for argsort"@
            } else {
                "Metal error no metal implementation for "@ + n
            },
            OpError::RadixOverflow => n + " radix workspace overflow"@,
            OpError::LaunchFailed { status } => n + " CUDA launch failed with status "@
                + signed_decimal(status as int),
            OpError::LogitsDevice => match op {
                Op::Topk | Op::TopkLogitsF32 | Op::TopkLogitsF32Packed => n
                    + " requires CUDA tensor"@,
                Op::MetalTopkLogitsPacked => n + " requires Metal tensor"@,
                Op::MetalSparsePenalties => n + " requires Metal tensors"@,
                Op::CausalMaskF32 => n + " requires CUDA storage"@,
                _ => n + " requires CUDA logits"@,
            },
            OpError::LengthMismatch { tokens, values } => match op {
                Op::MetalSparsePenalties => "token_ids and counts length mismatch"@,
                Op::SparseLogitsBiasF32 => n + " token ids/biases length mismatch: "@ + decimal(
                    tokens as nat,
                ) + " vs "@ + decimal(values as nat),
                _ => n + " token ids/counts length mismatch: "@ + decimal(tokens as nat)
                    + " vs "@ + decimal(values as nat),
            },
            OpError::InputTooLarge { elems } => n + " input is too large: "@ + decimal(
                elems as nat,
            ) + " elements"@,
            OpError::TokensTooLarge { tokens } => n + " token list is too large: "@ + decimal(
                tokens as nat,
            ) + " elements"@,
            OpError::CountTooLarge => "out of range integral type conversion attempted"@,
            OpError::NotThreeDims { dims } => "unexpected rank, expected: 3, got: "@ + decimal(
                dims@.len(),
            ) + " ("@ + crate::text::list_text(dims@) + ")"@,
        }
    }

    /// The message that an operator answers with.
    pub fn message(&self, op: Op) -> (r: String)
        ensures
            r@ == self.text(op),
    {
        let mut s: String = op.name().to_owned();
        match self {
            OpError::RequiresContiguous => if op == Op::CausalMaskF32 {
                s.append(" requires contiguous scores");
            } else {
                s.append(" only supports contiguous tensors");
            },
            OpError::EmptyDims => if op == Op::ArgSort {
                s = "empty last-dim in arg-sort".to_owned();
            } else {
                s = "empty dims".to_owned();
            },
            OpError::SortDType => {
                s = "Unexpected dtype in asort".to_owned();
            },
            OpError::Temperature => {
                s.append(" requires a positive finite temperature");
            },
            OpError::LogitsDType => match op {
                Op::Topk => {
                    s.append(" only supports BF16/F16/F32");
                },
                Op::TopkLogitsPackedBatched | Op::TopkRankedPackedBatched => {
                    s.append(" requires BF16, F16, or F32 logits");
                },
                Op::MetalTopkLogitsPacked | Op::MetalSparsePenalties => {
                    s.append(" requires F32/F16/BF16 logits");
                },
                Op::CausalMaskF32 => {
                    s.append(" requires F32 scores");
                },
                _ => {
                    s.append(" requires F32 logits");
                },
            },
            OpError::TemperaturesDType => {
                s.append(" requires F32 inverse temperatures");
            },
            OpError::TokenIdsDType => {
                s.append(" requires U32 token ids");
            },
            OpError::ValuesDType => if op == Op::SparseLogitsBiasF32 {
                s.append(" requires F32 biases");
            } else {
                s.append(" requires F32 counts");
            },
            OpError::TokenIdsOrCountsDType => {
                s.append(" token_ids must be u32, counts f32");
            },
            OpError::DifferentDevices => {
                s.append(" tensors must be on the same CUDA device");
            },
            OpError::Rank => {
                s.append(" requires logits with rank >= 1");
            },
            OpError::EmptyLogits => {
                s.append(" got empty logits");
            },
            OpError::EmptyVocabulary => {
                s.append(" got an empty vocabulary");
            },
            OpError::EmptyBatch => {
                s.append(" got an empty batch");
            },
            OpError::TemperaturesShape { batch, dims } => {
                s.append(" expected inverse temperatures with shape [");
                push_decimal(&mut s, *batch);
                s.append("], got ");
                push_list(&mut s, dims);
            },
            OpError::K { k, max } => {
                s.append(" k=");
                push_decimal(&mut s, *k);
                s.append(" must be in [1, ");
                push_decimal(&mut s, *max);
                s.append("]");
            },
            OpError::InexactVocabulary { vocab } => {
                s.append(" vocabulary size ");
                push_decimal(&mut s, *vocab);
                s.append(" cannot be represented exactly by packed F32 indices");
            },
            OpError::BatchTooLarge { batch } => {
                s.append(" batch is too large for a 2D CUDA launch: ");
                push_decimal(&mut s, *batch);
            },
            OpError::Candidates { candidates } => {
                s.append(" workspace too large: ");
                push_decimal(&mut s, *candidates);
                match op {
                    Op::TopkLogitsF32 | Op::TopkLogitsF32Packed => {
                        s.append(" candidates");
                    },
                    _ => {
                        s.append(" candidates per row");
                    },
                }
            },
            OpError::Workspace(e) => {
                s = e.message();
            },
            OpError::NoMetal => if op == Op::ArgSort {
                s = "Metal error no metal implementation for argsort".to_owned();
            } else {
                s = "Metal error no metal implementation for ".to_owned();
                s.append(op.name());
            },
            OpError::RadixOverflow => {
                s.append(" radix workspace overflow");
            },
            OpError::LaunchFailed { status } => {
                s.append(" CUDA launch failed with status ");
                push_signed(&mut s, *status);
            },
            OpError::LogitsDevice => match op {
                Op::Topk | Op::TopkLogitsF32 | Op::TopkLogitsF32Packed => {
                    s.append(" requires CUDA tensor");
                },
                Op::MetalTopkLogitsPacked => {
                    s.append(" requires Metal tensor");
                },
                Op::MetalSparsePenalties => {
                    s.append(" requires Metal tensors");
                },
                Op::CausalMaskF32 => {
                    s.append(" requires CUDA storage");
                },
                _ => {
                    s.append(" requires CUDA logits");
                },
            },
            OpError::LengthMismatch { tokens, values } => match op {
                Op::MetalSparsePenalties => {
                    s = "token_ids and counts length mismatch".to_owned();
                },
                Op::SparseLogitsBiasF32 => {
                    s.append(" token ids/biases length mismatch: ");
                    push_decimal(&mut s, *tokens);
                    s.append(" vs ");
                    push_decimal(&mut s, *values);
                },
                _ => {
                    s.append(" token ids/counts length mismatch: ");
                    push_decimal(&mut s, *tokens);
                    s.append(" vs ");
                    push_decimal(&mut s, *values);
                },
            },
            OpError::InputTooLarge { elems } => {
                s.append(" input is too large: ");
                push_decimal(&mut s, *elems);
                s.append(" elements");
            },
            OpError::TokensTooLarge { tokens } => {
                s.append(" token list is too large: ");
                push_decimal(&mut s, *tokens);
                s.append(" elements");
            },
            OpError::CountTooLarge => {
                s = "out of range integral type conversion attempted".to_owned();
            },
            OpError::NotThreeDims { dims } => {
                s = "unexpected rank, expected: 3, got: ".to_owned();
                push_decimal(&mut s, dims.len());
                s.append(" (");
                push_list(&mut s, dims);
                s.append(")");
            },
        }
        s
    }
}

} // verus!
