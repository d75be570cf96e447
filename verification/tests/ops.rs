use inference::ops::logit_processing::{
    cuda_apply_causal_mask_f32, cuda_apply_sparse_logits_bias_f32,
    cuda_apply_sparse_penalties_f32, metal_apply_sparse_penalties, CausalMaskPlan, SparsePlan,
};
use inference::ops::topk::{cuda_topk, ArgSort, ArgSortOp, ArgSortPlan, TopKPlan};
use inference::ops::topk_logits::{
    cuda_topk_logits_f32, cuda_topk_logits_f32_packed, cuda_topk_logits_f32_packed_batched,
    cuda_topk_logits_packed_batched, cuda_topk_logits_packed_batched_with_workspace,
    cuda_topk_ranked_packed_batched, cuda_topk_ranked_packed_batched_with_workspace,
    metal_topk_logits_packed, positive_finite, ranked_launch_status,
    CudaRankedTopKPackedWorkspace, CudaTopKLogitsPackedWorkspace, PackedTopKPlan, RowTopKPlan,
    StreamKey,
};
use inference::ops::{
    checked_next_power_of_two, cuda_topk_ranked_packed_max_k, div_ceil, min_usize, Op, OpError,
    WorkspaceError,
};
use inference::tensor::{DType, Device, TensorMeta};

const CUDA: Device = Device::Cuda(0);

const KEY: StreamKey = StreamKey { gpu_id: 0, context: 1, stream: 2 };

fn tensor(dtype: DType, dims: Vec<usize>, device: Device) -> TensorMeta {
    TensorMeta { dtype, dims, contiguous: true, device }
}

fn logits(dims: Vec<usize>) -> TensorMeta {
    tensor(DType::F32, dims, CUDA)
}

fn message<T>(r: Result<T, OpError>, op: Op) -> String {
    match r {
        Ok(_) => "accepted".to_string(),
        Err(e) => e.message(op),
    }
}

#[test]
fn small_arithmetic() {
    assert_eq!(div_ceil(7, 3), 3);
    assert_eq!(div_ceil(6, 3), 2);
    assert_eq!(div_ceil(0, 3), 0);
    assert_eq!(min_usize(3, 5), 3);
    assert_eq!(checked_next_power_of_two(0), Some(1));
    assert_eq!(checked_next_power_of_two(5), Some(8));
    assert_eq!(checked_next_power_of_two(8), Some(8));
    assert_eq!(checked_next_power_of_two(usize::MAX), None);
}

#[test]
fn temperatures_are_read_by_their_bits() {
    assert!(positive_finite(1.0f64.to_bits()));
    assert!(positive_finite(f64::MIN_POSITIVE.to_bits()));
    assert!(positive_finite(f64::MAX.to_bits()));
    assert!(!positive_finite(0.0f64.to_bits()));
    assert!(!positive_finite((-1.0f64).to_bits()));
    assert!(!positive_finite(f64::INFINITY.to_bits()));
    assert!(!positive_finite(f64::NAN.to_bits()));
}

#[test]
fn largest_ranked_k() {
    assert_eq!(cuda_topk_ranked_packed_max_k(0), None);
    assert_eq!(cuda_topk_ranked_packed_max_k(7), Some(7));
    assert_eq!(cuda_topk_ranked_packed_max_k(32000), Some(128));
    // 500 chunks leave room for 96 candidates of each.
    assert_eq!(cuda_topk_ranked_packed_max_k(1024000), Some(96));
    assert_eq!(cuda_topk_ranked_packed_max_k(16777217), Some(5));
    assert_eq!(cuda_topk_ranked_packed_max_k(16777218), None);
}

#[test]
fn ranked_rows_take_every_k_up_to_the_largest() {
    for vocab in [7, 32000, 1024000] {
        let most = cuda_topk_ranked_packed_max_k(vocab).unwrap();
        let accepted =
            |k| cuda_topk_ranked_packed_batched(&logits(vec![2, vocab]), k, 64, KEY).is_ok();
        assert!(accepted(1) && accepted(most) && !accepted(0));
        // A width beyond the vocabulary counts as the vocabulary.
        assert_eq!(accepted(most + 1), most == vocab);
    }
}

#[test]
fn softmax_sees_the_row_whatever_k() {
    let one = 1.0f64.to_bits();
    let t = logits(vec![5000]);
    let (plan, few) = cuda_topk_logits_f32(&t, 2, one).ok().unwrap();
    let (other, many) = cuda_topk_logits_f32(&t, 100, one).ok().unwrap();
    assert_eq!((plan.ncols, plan.nblocks), (other.ncols, other.nblocks));
    assert_eq!(few.softmax_info.dims, many.softmax_info.dims);
    assert_eq!((few.values.dims, many.values.dims.clone()), (vec![2], vec![100]));
    let (_, packed) = cuda_topk_logits_f32_packed(&t, 100, one).ok().unwrap();
    let parts = many.values.elem_count() + many.indices.elem_count();
    assert_eq!(packed.packed.elem_count(), parts + many.softmax_info.elem_count());
}

#[test]
fn topk_along_the_last_dimension() {
    let (plan, out) = cuda_topk(&tensor(DType::BF16, vec![2, 3, 8], CUDA), 4).ok().unwrap();
    assert_eq!(plan, TopKPlan { nrows: 6, ncols: 8, k: 4, out_elems: 24 });
    assert_eq!(out.values.dims, vec![2, 3, 4]);
    assert_eq!(out.values.dtype, DType::BF16);
    assert_eq!(out.indices.dims, vec![2, 3, 4]);
    assert_eq!(out.indices.dtype, DType::U32);
    assert_eq!(out.values.elem_count(), 24);
    let refused = |t: &TensorMeta| message(cuda_topk(t, 1), Op::Topk);
    assert_eq!(refused(&tensor(DType::F32, vec![], CUDA)), "empty dims");
    assert!(refused(&tensor(DType::F32, vec![4], Device::Cpu)).ends_with("requires CUDA tensor"));
    assert!(refused(&tensor(DType::U32, vec![4], CUDA)).ends_with("only supports BF16/F16/F32"));
}

#[test]
fn sorting() {
    let t = tensor(DType::F16, vec![3, 5], CUDA);
    let plan = |asc, inplace| ArgSortPlan {
        asc,
        dtype: DType::F16,
        nrows: 3,
        ncols: 5,
        inplace,
        out_elems: 15,
    };
    let (argsort, indices) = t.arg_sort(true).ok().unwrap();
    assert_eq!(argsort, plan(true, false));
    assert_eq!((indices.dtype, indices.dims.clone()), (DType::U32, vec![3, 5]));
    let (sorted, out) = t.sort(true).ok().unwrap();
    assert_eq!(sorted, ArgSortPlan { inplace: true, ..argsort });
    assert_eq!((out.values.dtype, out.values.dims), (DType::F16, vec![3, 5]));
    assert_eq!((out.indices.dtype, out.indices.dims), (DType::U32, vec![3, 5]));
    assert!(out.on_copy && out.values.contiguous && out.values.device == CUDA);
    assert_eq!(t.sort(false).ok().unwrap().0, plan(false, true));
    let mut strided = tensor(DType::F16, vec![3, 5], CUDA);
    strided.contiguous = false;
    assert!(matches!(strided.arg_sort(true), Err(OpError::RequiresContiguous)));
    let scalar = tensor(DType::F16, vec![], CUDA);
    assert_eq!(message(scalar.sort(true), Op::ArgSort), "empty last-dim in arg-sort");
    let metal = tensor(DType::F16, vec![3, 5], Device::Metal(0));
    assert_eq!(
        message(metal.arg_sort(true), Op::ArgSort),
        "Metal error no metal implementation for argsort"
    );
    let odd = tensor(DType::F4, vec![3, 5], CUDA);
    assert_eq!(message(odd.arg_sort(true), Op::ArgSort), "Unexpected dtype in asort");
    assert_eq!(ArgSort { asc: true, last_dim: 5, inplace: false }.name(), "argsort");
}

#[test]
fn one_row_with_its_softmax() {
    let t = logits(vec![1, 5000]);
    let one = 1.0f64.to_bits();
    let plan = RowTopKPlan {
        ncols: 5000,
        k: 50,
        nblocks: 3,
        workspace_elems: 150,
        packed_elems: 102,
    };
    let (got, out) = cuda_topk_logits_f32(&t, 50, one).ok().unwrap();
    assert_eq!(got, plan);
    assert_eq!(out.values.dims, vec![50]);
    assert_eq!(out.indices.dtype, DType::U32);
    assert_eq!(out.softmax_info.dims, vec![2]);
    assert_eq!(out.workspace.len(), 4);
    assert_eq!(out.workspace[1].dims, vec![150]);
    assert_eq!(out.workspace[3].dims, vec![3]);
    let (got, out) = cuda_topk_logits_f32_packed(&t, 50, one).ok().unwrap();
    assert_eq!(got, plan);
    assert_eq!(out.packed.dims, vec![102]);
    assert_eq!(out.k, 50);
    // A row shorter than `k` gives all it has.
    let (got, _) = cuda_topk_logits_f32_packed(&logits(vec![3]), 50, one).ok().unwrap();
    assert_eq!((got.k, got.packed_elems), (3, 8));
    let refused = |t: &TensorMeta, k, temp: f64| {
        message(cuda_topk_logits_f32(t, k, temp.to_bits()), Op::TopkLogitsF32)
    };
    assert!(refused(&t, 50, 0.0).ends_with("requires a positive finite temperature"));
    assert!(refused(&tensor(DType::F16, vec![4], CUDA), 1, 1.0).ends_with("requires F32 logits"));
    assert!(refused(&logits(vec![0]), 1, 1.0).ends_with("got empty logits"));
    assert!(refused(&t, 0, 1.0).ends_with("k=0 must be in [1, 128]"));
    assert!(refused(&t, 129, 1.0).ends_with("k=129 must be in [1, 128]"));
    assert!(refused(&logits(vec![1000000]), 128, 1.0)
        .ends_with("workspace too large: 62592 candidates"));
    assert!(refused(&tensor(DType::F32, vec![4], Device::Cpu), 1, 1.0)
        .ends_with("requires CUDA tensor"));
}

#[test]
fn one_row_on_metal() {
    let one = 1.0f64.to_bits();
    let metal = Device::Metal(1);
    let (plan, out) =
        metal_topk_logits_packed(&tensor(DType::F16, vec![1000000], metal), 128, one).ok().unwrap();
    assert_eq!(plan.workspace_elems, 62592);
    assert_eq!(out.packed.dims, vec![258]);
    assert!(out.workspace.is_empty());
    let op = Op::MetalTopkLogitsPacked;
    let refused = |t: &TensorMeta| message(metal_topk_logits_packed(t, 1, one), op);
    assert!(refused(&tensor(DType::U8, vec![4], metal)).ends_with("requires F32/F16/BF16 logits"));
    assert!(refused(&logits(vec![4])).ends_with("requires Metal tensor"));
}

#[test]
fn packed_rows() {
    let t = tensor(DType::F16, vec![3, 5000], CUDA);
    let temps = logits(vec![3]);
    let (plan, out) = cuda_topk_logits_packed_batched(&t, 50, &temps, KEY).ok().unwrap();
    assert_eq!(
        plan,
        PackedTopKPlan {
            batch: 3,
            vocab: 5000,
            k: 50,
            nblocks: 3,
            workspace_elems: 450,
            packed_width: 102,
            packed_elems: 306,
        }
    );
    assert_eq!(out.packed.dims, vec![3, 102]);
    assert_eq!(out.workspace[0].dims, vec![450]);
    assert_eq!(out.workspace[2].dims, vec![9]);
    let op = Op::TopkLogitsPackedBatched;
    let refused = |t: &TensorMeta, k, temps: &TensorMeta| {
        message(cuda_topk_logits_packed_batched(t, k, temps, KEY), op)
    };
    assert!(refused(&tensor(DType::U8, vec![3, 9], CUDA), 1, &temps)
        .ends_with("requires BF16, F16, or F32 logits"));
    assert!(refused(&t, 1, &tensor(DType::F16, vec![3], CUDA))
        .ends_with("requires F32 inverse temperatures"));
    assert!(refused(&t, 1, &tensor(DType::F32, vec![3], Device::Cuda(1)))
        .ends_with("tensors must be on the same CUDA device"));
    assert!(refused(&t, 1, &logits(vec![4]))
        .ends_with("expected inverse temperatures with shape [3], got [4]"));
    assert!(refused(&t, 0, &temps).ends_with("k=0 must be in [1, 128]"));
    assert!(refused(&logits(vec![]), 1, &temps).ends_with("requires logits with rank >= 1"));
    assert!(refused(&logits(vec![3, 0]), 1, &temps).ends_with("got an empty vocabulary"));
    assert!(refused(&logits(vec![0, 3]), 1, &temps).ends_with("got an empty batch"));
    assert!(refused(&logits(vec![1, 16777218]), 1, &logits(vec![1])).ends_with(
        "vocabulary size 16777218 cannot be represented exactly by packed F32 indices"
    ));
    assert!(refused(&logits(vec![65536, 2]), 1, &logits(vec![65536]))
        .ends_with("batch is too large for a 2D CUDA launch: 65536"));
    assert!(refused(&logits(vec![1, 1000000]), 128, &logits(vec![1]))
        .ends_with("workspace too large: 62592 candidates per row"));
    let cpu = tensor(DType::F32, vec![1, 4], Device::Cpu);
    assert!(refused(&cpu, 1, &tensor(DType::F32, vec![1], Device::Cpu))
        .ends_with("requires CUDA logits"));
    let mut strided = tensor(DType::F32, vec![3, 9], CUDA);
    strided.contiguous = false;
    assert!(refused(&strided, 1, &temps).ends_with("only supports contiguous tensors"));
    let half = cuda_topk_logits_f32_packed_batched(&t, 50, &temps, KEY);
    assert!(matches!(half, Err(OpError::LogitsDType)));
    let single = cuda_topk_logits_f32_packed_batched(&logits(vec![3, 9]), 2, &temps, KEY);
    assert!(single.is_ok());
}

#[test]
fn workspaces_are_kept_while_they_have_room() {
    let mut cache: Option<CudaTopKLogitsPackedWorkspace> = None;
    let run = |rows: usize, k: usize, cache: &mut Option<CudaTopKLogitsPackedWorkspace>| {
        let t = logits(vec![rows, 5000]);
        let temps = logits(vec![rows]);
        cuda_topk_logits_packed_batched_with_workspace(&t, k, &temps, KEY, cache).is_ok()
    };
    assert!(run(3, 50, &mut cache));
    let first = cache.unwrap();
    assert_eq!((first.capacity_rows, first.capacity_k, first.nblocks), (4, 64, 3));
    assert_eq!((first.candidate_elems, first.block_elems, first.packed_elems), (768, 12, 520));
    assert!(run(4, 64, &mut cache));
    assert_eq!(cache, Some(first));
    assert!(!run(4, 0, &mut cache));
    assert_eq!(cache, Some(first));
    assert!(run(5, 50, &mut cache));
    assert_eq!(cache.unwrap().capacity_rows, 8);
    assert!(first.can_hold(KEY, 4, 5000, 64, 3));
    assert!(!first.can_hold(KEY, 5, 5000, 64, 3));
    assert!(!first.can_hold(StreamKey { stream: 9, ..KEY }, 4, 5000, 64, 3));
}

#[test]
fn workspaces_that_cannot_be_sized() {
    let big = usize::MAX;
    let half = usize::MAX / 2 + 1;
    let new = |rows, k, blocks| {
        CudaTopKLogitsPackedWorkspace::new(KEY, rows, 9, k, blocks).err().unwrap()
    };
    assert_eq!(new(big, 1, 1), WorkspaceError::TopkRows);
    assert_eq!(new(1, big, 1), WorkspaceError::TopkWidth);
    assert_eq!(new(half, 1, 2), WorkspaceError::TopkCandidates);
    assert_eq!(new(1, half, 1), WorkspaceError::TopkPackedWidth);
    assert_eq!(new(half, 1, 1), WorkspaceError::TopkPacked);
    assert_eq!(new(half, 1, 2).message(), "CUDA top-k workspace overflow");
    let ranked = |rows, k, blocks, words| {
        CudaRankedTopKPackedWorkspace::new(KEY, rows, 9, k, blocks, words).err().unwrap()
    };
    assert_eq!(ranked(big, 1, 1, 1), WorkspaceError::RankedRows);
    assert_eq!(ranked(1, big, 1, 1), WorkspaceError::RankedWidth);
    assert_eq!(ranked(half, 1, 2, 1), WorkspaceError::RankedCandidates);
    assert_eq!(ranked(half, 1, 1, 2), WorkspaceError::RankedRadix);
    assert_eq!(ranked(half, 1, 1, 1), WorkspaceError::RankedPacked);
    assert_eq!(ranked(half, 1, 1, 2).message(), "CUDA ranked top-k radix overflow");
}

#[test]
fn ranked_rows() {
    let t = tensor(DType::BF16, vec![3, 5000], CUDA);
    let (plan, out) = cuda_topk_ranked_packed_batched(&t, 50, 7, KEY).ok().unwrap();
    assert_eq!((plan.packed_width, plan.packed_elems), (100, 300));
    assert_eq!(out.packed.dims, vec![3, 100]);
    assert_eq!(out.workspace.len(), 3);
    assert_eq!(out.workspace[2].dims, vec![21]);
    let mut cache: Option<CudaRankedTopKPackedWorkspace> = None;
    let first = cuda_topk_ranked_packed_batched_with_workspace(&t, 50, 7, KEY, &mut cache);
    assert!(first.is_ok());
    let kept = cache.unwrap();
    assert_eq!((kept.candidate_elems, kept.radix_elems, kept.packed_elems), (768, 28, 512));
    assert!(kept.can_hold(KEY, 4, 5000, 64, 3));
    let refused = cuda_topk_ranked_packed_batched(&t, 50, usize::MAX, KEY);
    assert!(message(refused, Op::TopkRankedPackedBatched).ends_with("radix workspace overflow"));
    // The largest `k` of a vocabulary is accepted.
    let wide = logits(vec![1, 1024000]);
    assert!(cuda_topk_ranked_packed_batched(&wide, 96, 1, KEY).is_ok());
    assert!(cuda_topk_ranked_packed_batched(&wide, 97, 1, KEY).is_err());
    assert!(ranked_launch_status(0).is_ok());
    assert!(message(ranked_launch_status(-3), Op::TopkRankedPackedBatched)
        .ends_with("CUDA launch failed with status -3"));
}

#[test]
fn sparse_updates() {
    let t = logits(vec![2, 9]);
    let ids = tensor(DType::U32, vec![4], CUDA);
    let counts = logits(vec![4]);
    let (plan, out) = cuda_apply_sparse_penalties_f32(&t, &ids, &counts).ok().unwrap();
    assert_eq!(plan, SparsePlan { elem_count: 18, n_tokens: 4 });
    assert_eq!(out.dims, vec![2, 9]);
    let op = Op::SparsePenaltiesF32;
    let penalties = |t: &TensorMeta, ids: &TensorMeta, counts: &TensorMeta| {
        message(cuda_apply_sparse_penalties_f32(t, ids, counts), op)
    };
    let half = tensor(DType::F16, vec![4], CUDA);
    assert!(penalties(&half, &ids, &counts).ends_with("requires F32 logits"));
    assert!(penalties(&t, &counts, &counts).ends_with("requires U32 token ids"));
    assert!(penalties(&t, &ids, &half).ends_with("requires F32 counts"));
    assert!(penalties(&t, &ids, &logits(vec![3]))
        .ends_with("token ids/counts length mismatch: 4 vs 3"));
    assert!(penalties(&t, &ids, &tensor(DType::F32, vec![4], Device::Cuda(1)))
        .ends_with("tensors must be on the same CUDA device"));
    assert!(penalties(&logits(vec![0]), &ids, &counts).ends_with("got empty logits"));
    assert!(penalties(&logits(vec![2147483648]), &ids, &counts)
        .ends_with("input is too large: 2147483648 elements"));
    let long_ids = tensor(DType::U32, vec![2147483648], CUDA);
    assert!(penalties(&t, &long_ids, &logits(vec![2147483648]))
        .ends_with("token list is too large: 2147483648 elements"));
    let cpu = |dtype, n| tensor(dtype, vec![n], Device::Cpu);
    assert!(penalties(&cpu(DType::F32, 5), &cpu(DType::U32, 4), &cpu(DType::F32, 4))
        .ends_with("requires CUDA logits"));
    let (plan, _) = cuda_apply_sparse_logits_bias_f32(&t, &ids, &counts).ok().unwrap();
    assert_eq!(plan.n_tokens, 4);
    let biased = cuda_apply_sparse_logits_bias_f32(&t, &ids, &half);
    assert!(message(biased, Op::SparseLogitsBiasF32).ends_with("requires F32 biases"));
}

#[test]
fn metal_penalties() {
    let metal = |dtype, n| tensor(dtype, vec![n], Device::Metal(0));
    let (n, tokens, out) = metal_apply_sparse_penalties(
        &metal(DType::F16, 9),
        &metal(DType::U32, 4),
        &metal(DType::F32, 4),
    )
    .ok()
    .unwrap();
    assert_eq!((n, tokens), (9, 4));
    assert_eq!(out.dtype, DType::F16);
    let refused = |t: &TensorMeta, ids: &TensorMeta, counts: &TensorMeta| {
        message(metal_apply_sparse_penalties(t, ids, counts), Op::MetalSparsePenalties)
    };
    let (t, ids) = (metal(DType::F16, 9), metal(DType::U32, 4));
    assert!(refused(&ids, &ids, &metal(DType::F32, 4)).ends_with("requires F32/F16/BF16 logits"));
    assert!(refused(&t, &ids, &ids).ends_with("token_ids must be u32, counts f32"));
    assert_eq!(refused(&t, &ids, &metal(DType::F32, 5)), "token_ids and counts length mismatch");
    assert!(refused(&t, &ids, &logits(vec![4])).ends_with("requires Metal tensors"));
}

#[test]
fn causal_masks() {
    let plan = cuda_apply_causal_mask_f32(&logits(vec![8, 3, 7]), 4, 2).ok().unwrap();
    assert_eq!(
        plan,
        CausalMaskPlan { batch_heads: 8, q_len: 3, kv_len: 7, q_offset: 4, prefix_len: 2 }
    );
    let refused = |t: &TensorMeta, offset| {
        message(cuda_apply_causal_mask_f32(t, offset, 0), Op::CausalMaskF32)
    };
    let t = logits(vec![8, 3, 7]);
    assert!(refused(&tensor(DType::F32, vec![8, 3, 7], Device::Cpu), 0)
        .ends_with("requires CUDA storage"));
    let metal = tensor(DType::F32, vec![8, 3, 7], Device::Metal(0));
    assert!(refused(&metal, 0).starts_with("Metal error no metal implementation for "));
    assert_eq!(refused(&logits(vec![8, 3]), 0), "unexpected rank, expected: 3, got: 2 ([8, 3])");
    assert_eq!(refused(&t, 2147483648), "out of range integral type conversion attempted");
    let mut strided = logits(vec![8, 3, 7]);
    strided.contiguous = false;
    assert!(refused(&strided, 0).ends_with("requires contiguous scores"));
    assert!(refused(&tensor(DType::F16, vec![8, 3, 7], CUDA), 0).ends_with("requires F32 scores"));
}

#[test]
fn element_types_and_counts() {
    assert_eq!(DType::F64.size_in_bytes(), 8);
    assert_eq!(DType::BF16.size_in_bytes(), 2);
    assert_eq!(DType::F8E4M3.size_in_bytes(), 1);
    assert_eq!(DType::F4.size_in_bytes(), 0);
    assert_eq!(logits(vec![2, 3, 4]).elem_count(), 24);
    assert_eq!(logits(vec![]).elem_count(), 1);
    assert_eq!(logits(vec![usize::MAX, 0, usize::MAX]).elem_count(), 0);
    assert_eq!(logits(vec![2, 3]).last_dim(), Some(3));
    assert_eq!(logits(vec![]).last_dim(), None);
}
