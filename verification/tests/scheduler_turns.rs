//! Whose turn it is, and how batches of prompts are made up.

use inference::paged_attention::block_hash::{
    ItemRange, MultiModalFeature, MultimodalAttentionPolicy, MultimodalKind,
};
use inference::paged_attention::prompt_plan::PromptChunk;
use inference::paged_attention::scheduler::{
    CacheConfig, PagedAttentionScheduler, PagedAttentionSchedulerConfig,
};
use inference::paged_attention::sequence::{Sequence, SequenceState, StopReason};

fn test_scheduler() -> PagedAttentionScheduler {
    PagedAttentionScheduler::new(
        PagedAttentionSchedulerConfig {
            max_num_seqs: 8,
            max_num_batched_tokens: 4096,
            max_prefill_chunk_tokens: 4096,
            max_decode_steps_before_prefill: 8,
        },
        CacheConfig { block_size: 8, num_gpu_blocks: 128 },
    )
}

fn test_sequence(id: usize, len: usize) -> Sequence {
    let mut seq = Sequence::new_waiting(vec![1; len], id, 0, 0, 0);
    seq.set_state(SequenceState::RunningCompletion);
    seq
}

fn waiting_sequence(id: usize, len: usize) -> Sequence {
    let mut seq = test_sequence(id, len);
    seq.set_state(SequenceState::Waiting);
    seq
}

fn prompt(id: usize, len: usize, computed: usize) -> Sequence {
    let mut seq = test_sequence(id, len);
    seq.set_state(SequenceState::RunningPrompt);
    seq.set_num_computed_tokens(computed);
    seq
}

fn chunk_sizes(chunks: &Option<Vec<PromptChunk>>) -> Vec<usize> {
    chunks
        .as_ref()
        .unwrap()
        .iter()
        .map(|chunk| chunk.end - chunk.start)
        .collect()
}

fn all_chunks(chunks: &Option<Vec<PromptChunk>>, start: usize, end: usize) -> bool {
    chunks
        .as_ref()
        .unwrap()
        .iter()
        .all(|chunk| (chunk.start, chunk.end) == (start, end))
}

#[test]
fn prompt_chunk_size_stays_within_the_batch_token_budget() {
    let mut scheduler = test_scheduler();
    scheduler.config.max_num_batched_tokens = 4096;

    assert_eq!(scheduler.prompt_chunk_size(0, false), None);
    assert_eq!(scheduler.prompt_chunk_size(1, false), Some(4096));
    assert_eq!(scheduler.prompt_chunk_size(8, false), Some(512));
    assert_eq!(scheduler.prompt_chunk_size(16, false), Some(256));
    assert_eq!(scheduler.prompt_chunk_size(7, false), Some(585));
    assert!(scheduler.prompt_chunk_size(7, false).unwrap() * 7 <= 4096);
}

#[test]
fn prompt_chunk_size_uses_the_prefill_latency_budget() {
    let mut scheduler = test_scheduler();
    scheduler.scheduler_visible_prompt_chunks = true;
    scheduler.config.max_num_batched_tokens = 4096;
    scheduler.config.max_prefill_chunk_tokens = 512;

    assert_eq!(scheduler.prompt_chunk_size(1, true), Some(512));
    assert_eq!(scheduler.prompt_chunk_size(8, true), Some(64));
    assert_eq!(scheduler.prompt_chunk_size(16, true), Some(32));
    assert_eq!(scheduler.prompt_chunk_size(16, false), Some(256));
}

#[test]
fn mixed_prefill_budget_stays_bounded_between_prompt_turns() {
    let mut scheduler = test_scheduler();
    scheduler.scheduler_visible_prompt_chunks = true;
    scheduler.config.max_num_batched_tokens = 4096;
    scheduler.config.max_prefill_chunk_tokens = 512;

    assert_eq!(scheduler.prefill_token_budget(true), 512);
    scheduler.decode_steps_since_prefill = 4;
    assert_eq!(scheduler.prefill_token_budget(true), 512);
    scheduler.decode_steps_since_prefill = 8;
    assert_eq!(scheduler.prefill_token_budget(true), 512);
    scheduler.decode_steps_since_prefill = usize::MAX;
    assert_eq!(scheduler.prefill_token_budget(true), 512);
}

#[test]
fn idle_prompt_backlog_uses_full_admission_budget() {
    let mut scheduler = test_scheduler();
    scheduler.scheduler_visible_prompt_chunks = true;
    scheduler.config.max_prefill_chunk_tokens = 512;
    scheduler.waiting.push(waiting_sequence(0, 1024));

    scheduler.update_prompt_admission_epoch();

    assert!(scheduler.prompt_admission_epoch);
    assert_eq!(scheduler.prefill_token_budget(true), 4096);
}

#[test]
fn established_decode_keeps_latency_bounded_prompt_budget() {
    let mut scheduler = test_scheduler();
    scheduler.scheduler_visible_prompt_chunks = true;
    scheduler.config.max_prefill_chunk_tokens = 512;
    scheduler.running.push(test_sequence(0, 4));
    scheduler.waiting.push(waiting_sequence(1, 1024));

    scheduler.update_prompt_admission_epoch();

    assert!(!scheduler.prompt_admission_epoch);
    assert_eq!(scheduler.prefill_token_budget(true), 512);
}

#[test]
fn admission_epoch_allows_one_decode_turn_between_prompt_batches() {
    let mut scheduler = test_scheduler();
    scheduler.scheduler_visible_prompt_chunks = true;
    scheduler.config.max_prefill_chunk_tokens = 512;
    scheduler.prompt_admission_epoch = true;
    scheduler.running.push(test_sequence(0, 4));
    scheduler.running.push(prompt(1, 8192, 0));

    assert!(scheduler.completion_is_due());
    scheduler.decode_steps_since_prefill = 1;
    assert!(!scheduler.completion_is_due());
}

#[test]
fn admission_epoch_clears_after_prompt_backlog_drains() {
    let mut scheduler = test_scheduler();
    scheduler.prompt_admission_epoch = true;
    scheduler.running.push(test_sequence(0, 4));

    scheduler.update_prompt_admission_epoch();

    assert!(scheduler.prompt_admission_epoch);
    scheduler.decode_steps_since_prefill = 1;
    scheduler.update_prompt_admission_epoch();

    assert!(!scheduler.prompt_admission_epoch);
}

#[test]
fn established_decode_long_prompt_retains_normal_cadence() {
    let mut scheduler = test_scheduler();
    scheduler.scheduler_visible_prompt_chunks = true;
    scheduler.config.max_prefill_chunk_tokens = 512;
    scheduler.running.push(test_sequence(0, 4));
    scheduler.running.push(prompt(1, 8192, 0));

    scheduler.decode_steps_since_prefill = 7;
    assert!(scheduler.completion_is_due());
    scheduler.decode_steps_since_prefill = 8;
    assert!(!scheduler.completion_is_due());
}

#[test]
fn prefill_latency_budget_does_not_change_atomic_prompt_paths() {
    let mut scheduler = test_scheduler();
    scheduler.config.max_num_batched_tokens = 4096;
    scheduler.config.max_prefill_chunk_tokens = 512;

    assert_eq!(scheduler.prompt_chunk_size(1, true), Some(4096));
}

#[test]
fn completion_priority_uses_the_prefill_latency_budget() {
    let mut scheduler = test_scheduler();
    scheduler.scheduler_visible_prompt_chunks = true;
    scheduler.config.max_num_batched_tokens = 4096;
    scheduler.config.max_prefill_chunk_tokens = 512;
    scheduler.running.push(test_sequence(0, 4));
    scheduler.running.push(prompt(1, 1024, 0));

    assert!(scheduler.completion_is_due());

    scheduler.running[1].set_num_computed_tokens(512);
    assert!(scheduler.completion_is_due());

    scheduler.decode_steps_since_prefill = 1;
    assert!(!scheduler.completion_is_due());
}

#[test]
fn prompt_batch_does_not_exceed_the_prefill_latency_budget() {
    let mut scheduler = test_scheduler();
    scheduler.scheduler_visible_prompt_chunks = true;
    scheduler.config.max_num_batched_tokens = 16;
    scheduler.config.max_prefill_chunk_tokens = 2;
    let mut completion = test_sequence(100, 8);
    completion.set_num_computed_tokens(8);
    scheduler.running.push(completion);
    let candidates = (0..3).map(|id| prompt(id, 8, 0)).collect::<Vec<_>>();

    let batch = scheduler.select_prompt_batch(&candidates);

    assert_eq!(batch.scheduled.len(), 2);
    assert_eq!(batch.chunk_size, Some(1));
    assert_eq!(chunk_sizes(&batch.chunks).into_iter().sum::<usize>(), 2);
}

#[test]
fn pure_prefill_batch_uses_the_full_token_budget() {
    let mut scheduler = test_scheduler();
    scheduler.scheduler_visible_prompt_chunks = true;
    scheduler.config.max_num_batched_tokens = 16;
    scheduler.config.max_prefill_chunk_tokens = 2;
    let candidates = (0..4).map(|id| prompt(id, 8, 0)).collect::<Vec<_>>();

    let batch = scheduler.select_prompt_batch(&candidates);

    assert_eq!(batch.scheduled.len(), 4);
    assert_eq!(batch.chunk_size, Some(4));
    assert_eq!(chunk_sizes(&batch.chunks).into_iter().sum::<usize>(), 16);
}

fn span_packing_scheduler() -> PagedAttentionScheduler {
    let mut scheduler = test_scheduler();
    scheduler.scheduler_visible_prompt_chunks = true;
    scheduler.supports_packed_prefill = true;
    scheduler.requires_uniform_prompt_batch = false;
    scheduler.config.max_num_seqs = 64;
    scheduler.config.max_prefill_chunk_tokens = 512;
    scheduler
}

fn span_packing_prompts(lengths: &[usize]) -> Vec<Sequence> {
    lengths
        .iter()
        .enumerate()
        .map(|(id, &length)| prompt(id, length, 0))
        .collect()
}

#[test]
fn packed_prompt_spans_finish_whole_prompts_within_the_idle_budget() {
    let mut scheduler = span_packing_scheduler();
    let candidates = span_packing_prompts(&[1024; 64]);

    let batch = scheduler.select_prompt_batch(&candidates);

    assert_eq!(batch.scheduled.len(), 4);
    assert_eq!(scheduler.next_prompt_sequence_id, Some(4));
    assert!(all_chunks(&batch.chunks, 0, 1024));
}

#[test]
fn packed_prompt_spans_pack_ragged_cold_queries_without_padding() {
    let mut scheduler = span_packing_scheduler();
    scheduler.config.max_num_batched_tokens = 512;
    let batch = scheduler.select_prompt_batch(&span_packing_prompts(&[128, 256, 128, 64]));

    assert_eq!(batch.scheduled.len(), 3);
    assert_eq!(scheduler.next_prompt_sequence_id, Some(3));
    assert_eq!(chunk_sizes(&batch.chunks).into_iter().sum::<usize>(), 512);
}

#[test]
fn packed_prompt_spans_budget_padding_for_cached_queries() {
    let mut scheduler = span_packing_scheduler();
    scheduler.config.max_num_batched_tokens = 512;
    let mut candidates = span_packing_prompts(&[512, 256, 256]);
    for seq in candidates.iter_mut() {
        seq.set_num_computed_tokens(128);
    }

    let batch = scheduler.select_prompt_batch(&candidates);

    assert_eq!(batch.scheduled.len(), 1);
    assert_eq!(scheduler.next_prompt_sequence_id, Some(1));
    assert_eq!(
        (
            batch.chunks.as_ref().unwrap()[0].start,
            batch.chunks.unwrap()[0].end
        ),
        (128, 512)
    );
}

#[test]
fn packed_prompt_spans_keep_the_mixed_budget_and_rotate_without_starvation() {
    let mut scheduler = span_packing_scheduler();
    scheduler.running.push(test_sequence(100, 8));
    let candidates = span_packing_prompts(&[1024; 63]);
    scheduler.running.extend(candidates.iter().cloned());
    let mut seen = Vec::new();

    for _ in 0..candidates.len() {
        let batch = scheduler.select_prompt_batch(&candidates);
        assert_eq!(batch.scheduled.len(), 1);
        assert_eq!(
            (
                batch.chunks.as_ref().unwrap()[0].start,
                batch.chunks.as_ref().unwrap()[0].end
            ),
            (0, 512)
        );
        seen.push(batch.scheduled[0]);
    }
    assert_eq!(seen, (0..63).collect::<Vec<_>>());
    assert!(scheduler.completion_is_due());
    scheduler.decode_steps_since_prefill = scheduler.config.max_decode_steps_before_prefill;
    assert!(!scheduler.completion_is_due());
}

#[test]
fn packed_prompt_spans_respect_the_admission_quantum() {
    let mut scheduler = span_packing_scheduler();
    scheduler.prompt_admission_epoch = true;
    scheduler.running.push(test_sequence(100, 8));
    let candidates = span_packing_prompts(&[1024; 63]);
    scheduler.running.extend(candidates.iter().cloned());

    let batch = scheduler.select_prompt_batch(&candidates);

    assert_eq!(batch.scheduled.len(), 8);
    assert_eq!(scheduler.next_prompt_sequence_id, Some(8));
    assert!(all_chunks(&batch.chunks, 0, 512));
    assert!(scheduler.completion_is_due());
    scheduler.decode_steps_since_prefill = 1;
    assert!(!scheduler.completion_is_due());
}

#[test]
fn packed_prompt_spans_do_not_mix_final_and_nonfinal_queries() {
    let mut scheduler = span_packing_scheduler();
    scheduler.config.max_num_batched_tokens = 512;
    let candidates = span_packing_prompts(&[1024, 128, 128]);

    let first = scheduler.select_prompt_batch(&candidates);
    let second = scheduler.select_prompt_batch(&candidates);

    assert_eq!(first.scheduled.len(), 1);
    assert_eq!(first.chunks.unwrap()[0].end, 512);
    assert_eq!(second.scheduled.len(), 2);
    assert!(second.chunks.unwrap().iter().all(|chunk| chunk.end == 128));
}

#[test]
fn packed_prompt_spans_require_the_runtime_packing_capability() {
    let mut scheduler = span_packing_scheduler();
    scheduler.supports_packed_prefill = false;
    let batch = scheduler.select_prompt_batch(&span_packing_prompts(&[1024; 64]));

    assert_eq!(batch.scheduled.len(), 64);
    assert_eq!(batch.chunk_size, Some(64));
    assert!(batch.chunks.unwrap().iter().all(|chunk| chunk.end == 64));
}

#[test]
fn packed_prompt_spans_keep_small_aligned_budgets_nonempty() {
    let mut scheduler = span_packing_scheduler();
    scheduler.config.max_num_batched_tokens = 16;
    scheduler.prompt_chunks_require_block_alignment = true;
    scheduler.block_size = 32;
    let mut candidates = span_packing_prompts(&[80; 3]);
    for seq in candidates.iter_mut() {
        seq.set_num_computed_tokens(31);
    }

    let batch = scheduler.select_prompt_batch(&candidates);

    assert_eq!(batch.scheduled.len(), 3);
    assert!(all_chunks(&batch.chunks, 31, 32));
}

#[test]
fn packed_prompt_spans_preserve_recurrent_and_multimodal_planning() {
    let mut scheduler = span_packing_scheduler();
    scheduler.prefill_has_per_sequence_state = true;
    let recurrent = scheduler.select_prompt_batch(&span_packing_prompts(&[1024; 64]));
    assert_eq!(recurrent.scheduled.len(), 8);
    assert_eq!(recurrent.chunk_size, Some(512));

    let mut scheduler = span_packing_scheduler();
    let mut candidates = span_packing_prompts(&[1024; 64]);
    candidates[63].set_mm_features(vec![MultiModalFeature {
        kind: MultimodalKind::Image,
        item_range: ItemRange { start: 0, end: 1 },
        hashes: vec![1],
        offset: 0,
        length: 32,
        attention_policy: MultimodalAttentionPolicy::Causal,
        splittable: false,
    }]);
    let multimodal = scheduler.select_prompt_batch(&candidates);
    assert_eq!(multimodal.scheduled.len(), 64);
    assert_eq!(multimodal.chunk_size, Some(64));
}

#[test]
fn recurrent_prefill_preserves_efficient_sequence_width_and_rotates() {
    let mut scheduler = test_scheduler();
    scheduler.scheduler_visible_prompt_chunks = true;
    scheduler.prefill_has_per_sequence_state = true;
    scheduler.config.max_num_seqs = 16;
    scheduler.config.max_num_batched_tokens = 4096;
    scheduler.config.max_prefill_chunk_tokens = 512;
    let candidates = (0..16).map(|id| prompt(id, 8192, 0)).collect::<Vec<_>>();

    let first = scheduler.select_prompt_batch(&candidates);
    assert_eq!(first.scheduled.len(), 8);
    assert_eq!(first.chunk_size, Some(512));
    assert_eq!(first.scheduled, (0..8).collect::<Vec<_>>());

    let second = scheduler.select_prompt_batch(&candidates);
    assert_eq!(second.scheduled.len(), 8);
    assert_eq!(second.chunk_size, Some(512));
    assert_eq!(second.scheduled, (8..16).collect::<Vec<_>>());
}

#[test]
fn recurrent_prefill_with_decode_uses_one_sequence_quantum() {
    let mut scheduler = test_scheduler();
    scheduler.scheduler_visible_prompt_chunks = true;
    scheduler.prefill_has_per_sequence_state = true;
    scheduler.config.max_num_seqs = 16;
    scheduler.config.max_num_batched_tokens = 4096;
    scheduler.config.max_prefill_chunk_tokens = 512;
    scheduler.running.push(test_sequence(100, 8));
    let candidates = (0..16).map(|id| prompt(id, 8192, 0)).collect::<Vec<_>>();

    let batch = scheduler.select_prompt_batch(&candidates);

    assert_eq!(batch.scheduled.len(), 1);
    assert_eq!(batch.chunk_size, Some(512));
    assert_eq!(batch.chunks.unwrap()[0].end, 512);
}

fn recurrent_scheduler() -> PagedAttentionScheduler {
    let mut scheduler = test_scheduler();
    scheduler.scheduler_visible_prompt_chunks = true;
    scheduler.prompt_chunks_require_block_alignment = true;
    scheduler.prefill_has_per_sequence_state = true;
    scheduler.config.max_num_seqs = 64;
    scheduler.config.max_num_batched_tokens = 4096;
    scheduler.config.max_prefill_chunk_tokens = 512;
    scheduler
}

#[test]
fn recurrent_short_prefills_share_the_mixed_token_budget() {
    let mut scheduler = recurrent_scheduler();
    scheduler.running.push(test_sequence(100, 8));
    let candidates = (0..16).map(|id| prompt(id, 134, 0)).collect::<Vec<_>>();

    let batch = scheduler.select_prompt_batch(&candidates);

    assert_eq!(batch.scheduled.len(), 4);
    assert_eq!(batch.chunk_size, Some(128));
    assert_eq!(chunk_sizes(&batch.chunks).into_iter().sum::<usize>(), 512);
}

#[test]
fn recurrent_short_prefills_remain_latency_bounded_after_steady_decode() {
    let mut scheduler = recurrent_scheduler();
    scheduler.decode_steps_since_prefill = 8;
    scheduler.running.push(test_sequence(100, 8));
    let candidates = (0..32).map(|id| prompt(id, 134, 0)).collect::<Vec<_>>();

    let batch = scheduler.select_prompt_batch(&candidates);

    assert_eq!(batch.scheduled.len(), 4);
    assert_eq!(batch.chunk_size, Some(128));
    assert_eq!(chunk_sizes(&batch.chunks).into_iter().sum::<usize>(), 512);
}

#[test]
fn admission_epoch_uses_the_full_budget_for_short_prefills() {
    let mut scheduler = recurrent_scheduler();
    scheduler.prompt_admission_epoch = true;
    scheduler.set_prefix_caching_enabled_sync(true);
    scheduler.running.push(test_sequence(100, 8));
    let candidates = (0..32).map(|id| prompt(id, 134, 0)).collect::<Vec<_>>();

    let batch = scheduler.select_prompt_batch(&candidates);

    assert_eq!(batch.scheduled.len(), 32);
    assert_eq!(batch.chunk_size, Some(128));
    assert!(all_chunks(&batch.chunks, 0, 128));
    assert_eq!(chunk_sizes(&batch.chunks).into_iter().sum::<usize>(), 4096);
}

#[test]
fn admission_epoch_packs_complete_short_prefills_without_prefix_caching() {
    let mut scheduler = recurrent_scheduler();
    scheduler.prompt_admission_epoch = true;
    scheduler.set_prefix_caching_enabled_sync(false);
    scheduler.running.push(test_sequence(100, 8));
    let candidates = (0..32).map(|id| prompt(id, 134, 0)).collect::<Vec<_>>();

    let batch = scheduler.select_prompt_batch(&candidates);

    assert_eq!(batch.scheduled.len(), 30);
    assert_eq!(batch.chunk_size, Some(134));
    assert!(all_chunks(&batch.chunks, 0, 134));
    assert_eq!(chunk_sizes(&batch.chunks).into_iter().sum::<usize>(), 4020);
}

#[test]
fn admission_epoch_advances_the_rotating_prompt_frontier() {
    let mut scheduler = recurrent_scheduler();
    scheduler.supports_packed_prefill = true;
    scheduler.requires_uniform_prompt_batch = false;
    scheduler.prompt_admission_epoch = true;
    scheduler.block_size = 32;
    scheduler.running.push(test_sequence(100, 8));

    let tail = prompt(0, 134, 128);
    let unstarted = (1..=2).map(|id| prompt(id, 134, 0)).collect::<Vec<_>>();
    let batch = scheduler.select_prompt_batch(&vec![
        tail,
        unstarted[0].clone(),
        unstarted[1].clone(),
    ]);
    assert_eq!(batch.scheduled.len(), 1);
    assert_eq!(batch.scheduled[0], 0);
    assert_eq!(batch.chunks.unwrap()[0].start, 128);

    let batch = scheduler.select_prompt_batch(&vec![unstarted[0].clone(), unstarted[1].clone()]);
    assert_eq!(batch.scheduled, vec![1, 2]);
    assert!(all_chunks(&batch.chunks, 0, 128));

    let short_tail = prompt(3, 1000, 992);
    let advanced_long = prompt(4, 8192, 1024);
    let batch = scheduler.select_prompt_batch(&vec![advanced_long, short_tail]);
    assert_eq!(batch.scheduled.len(), 1);
    assert_eq!(batch.scheduled[0], 4);
}

#[test]
fn admission_epoch_does_not_bypass_a_prefix_hit() {
    let mut scheduler = recurrent_scheduler();
    scheduler.supports_packed_prefill = true;
    scheduler.requires_uniform_prompt_batch = false;
    scheduler.prompt_admission_epoch = true;
    scheduler.block_size = 32;
    scheduler.next_prompt_sequence_id = Some(0);

    let mut cached = prompt(0, 134, 96);
    cached.set_prefix_cache_len(96);
    let cold = prompt(1, 134, 0);

    let batch = scheduler.select_prompt_batch(&vec![cached, cold]);

    assert_eq!(batch.scheduled.len(), 1);
    assert_eq!(batch.scheduled[0], 0);
    assert_eq!(batch.chunks.unwrap()[0].start, 96);
    assert_eq!(scheduler.next_prompt_sequence_id, Some(1));
}

#[test]
fn recurrent_prompt_tails_use_their_actual_token_cost() {
    let mut scheduler = recurrent_scheduler();
    scheduler.running.push(test_sequence(100, 8));
    let candidates = (0..16).map(|id| prompt(id, 134, 128)).collect::<Vec<_>>();

    let batch = scheduler.select_prompt_batch(&candidates);

    assert_eq!(batch.scheduled.len(), 16);
}

#[test]
fn packed_recurrent_final_tails_can_be_ragged() {
    let mut scheduler = recurrent_scheduler();
    scheduler.supports_packed_prefill = true;
    scheduler.requires_uniform_prompt_batch = false;
    scheduler.block_size = 32;
    scheduler.running.push(test_sequence(100, 8));
    let candidates = (1..=12)
        .map(|tail_len| prompt(tail_len, 128 + tail_len, 128))
        .collect::<Vec<_>>();

    let batch = scheduler.select_prompt_batch(&candidates);

    assert_eq!(batch.scheduled.len(), 12);
    assert_eq!(chunk_sizes(&batch.chunks), (1..=12).collect::<Vec<_>>());
}

#[test]
fn resident_decode_continuation_requires_exact_live_batch() {
    let mut scheduler = test_scheduler();
    scheduler.running.push(test_sequence(0, 4));
    scheduler.running.push(test_sequence(1, 4));

    let cursor = scheduler.completion_cursor;
    let decode_steps = scheduler.decode_steps_since_prefill;
    assert!(scheduler.can_continue_decode_batch(&vec![0, 1]));
    assert!(!scheduler.can_continue_decode_batch(&vec![1, 0]));
    assert!(!scheduler.can_continue_decode_batch(&vec![0]));
    assert!(!scheduler.can_continue_decode_batch(&vec![0, 1, 2]));
    assert_eq!(scheduler.completion_cursor, cursor);
    assert_eq!(scheduler.decode_steps_since_prefill, decode_steps);

    scheduler.running[1].set_state(SequenceState::Done(StopReason::Canceled));
    assert!(!scheduler.can_continue_decode_batch(&vec![0, 1]));
}

#[test]
fn resident_decode_continuation_respects_prompt_fairness() {
    let mut scheduler = test_scheduler();
    for id in 0..scheduler.config.max_num_seqs {
        scheduler.running.push(test_sequence(id, 4));
    }
    scheduler
        .waiting
        .push(waiting_sequence(scheduler.config.max_num_seqs, 4));
    scheduler.decode_steps_since_prefill = scheduler.config.max_decode_steps_before_prefill - 1;
    let sequence_ids = (0..scheduler.config.max_num_seqs).collect::<Vec<_>>();

    assert!(scheduler.can_continue_decode_batch(&sequence_ids));
    let before = scheduler.decode_steps_since_prefill;
    scheduler.record_decode_continuation();
    assert_eq!(scheduler.decode_steps_since_prefill, before + 1);
    assert!(!scheduler.can_continue_decode_batch(&sequence_ids));
}

#[test]
fn underfilled_resident_decode_yields_after_one_turn() {
    let mut scheduler = test_scheduler();
    scheduler.running.push(test_sequence(0, 4));
    scheduler.waiting.push(waiting_sequence(1, 4));
    scheduler.decode_steps_since_prefill = 1;

    let cursor = scheduler.completion_cursor;
    let steps = scheduler.decode_steps_since_prefill;
    assert!(!scheduler.can_continue_decode_batch(&vec![0]));
    assert_eq!(scheduler.completion_cursor, cursor);
    assert_eq!(scheduler.decode_steps_since_prefill, steps);
}

#[test]
fn kv_blocked_prompt_does_not_interrupt_resident_decode() {
    let mut scheduler = test_scheduler();
    scheduler.running.push(test_sequence(0, 4));
    scheduler.waiting.push(waiting_sequence(1, 4));
    scheduler.decode_steps_since_prefill = 1;
    let free_tokens = scheduler.kv_cache_manager.num_free_blocks() * scheduler.block_size;
    assert!(scheduler
        .kv_cache_manager
        .allocate_slots(99, free_tokens, &vec![])
        .is_some());
    assert_eq!(scheduler.kv_cache_manager.num_free_blocks(), 0);

    assert!(scheduler.can_continue_decode_batch(&vec![0]));
}

#[test]
fn resident_decode_continuation_stops_for_pending_termination() {
    let mut scheduler = test_scheduler();
    scheduler.running.push(test_sequence(0, 4));

    assert!(scheduler.can_continue_decode_batch_inner(&vec![0], false));
    assert!(!scheduler.can_continue_decode_batch_inner(&vec![0], true));
}

#[test]
fn resident_decode_continuation_preserves_subset_rotation() {
    let mut scheduler = test_scheduler();
    scheduler.config.max_num_batched_tokens = 2;
    for id in 0..3 {
        let mut seq = test_sequence(id, 4);
        seq.set_num_computed_tokens(4);
        scheduler.running.push(seq);
    }

    assert!(scheduler.can_continue_decode_batch(&vec![0, 1]));
    assert_eq!(scheduler.completion_cursor, 0);
    scheduler.record_decode_continuation();
    assert_eq!(scheduler.completion_cursor, 2);
    assert!(!scheduler.can_continue_decode_batch(&vec![0, 1]));
    assert!(scheduler.can_continue_decode_batch(&vec![2, 0]));

    scheduler.record_decode_continuation();
    assert_eq!(scheduler.completion_cursor, 1);
    assert!(scheduler.can_continue_decode_batch(&vec![1, 2]));
}

#[test]
fn continuation_counter_saturates() {
    let mut scheduler = test_scheduler();
    scheduler.decode_steps_since_prefill = usize::MAX;
    scheduler.running.push(test_sequence(0, 4));
    scheduler.record_decode_continuation();
    assert_eq!(scheduler.decode_steps_since_prefill, usize::MAX);
}

#[test]
fn decoding_gets_a_step_between_batches_of_prompts() {
    let mut scheduler = test_scheduler();
    scheduler.running.push(test_sequence(0, 4));
    scheduler.running.push(prompt(1, 100_000, 0));
    for steps in 0..8 {
        scheduler.decode_steps_since_prefill = steps;
        assert!(scheduler.completion_is_due());
    }
    scheduler.decode_steps_since_prefill = 8;
    assert!(!scheduler.completion_is_due());
}
