//! The scheduler's bookkeeping: hashes, preemption, cleanup and batches.

use inference::paged_attention::block_hash::{
    compute_block_hashes, ItemRange, MultiModalFeature, MultimodalAttentionPolicy, MultimodalKind,
};
use inference::paged_attention::scheduler::batches::BatchKind;
use inference::paged_attention::scheduler::hashes::BlockHashUpdate;
use inference::paged_attention::scheduler::{
    CacheConfig, PagedAttentionScheduler, PagedAttentionSchedulerConfig,
};
use inference::paged_attention::sequence::{
    modality_signature, Sequence, SequenceState, StopReason, IMAGE_MODALITY,
};

fn test_scheduler() -> PagedAttentionScheduler {
    PagedAttentionScheduler::new(
        PagedAttentionSchedulerConfig {
            max_num_seqs: 8,
            max_num_batched_tokens: 4096,
            max_prefill_chunk_tokens: 4096,
            max_decode_steps_before_prefill: 8,
        },
        CacheConfig { block_size: 8, num_gpu_blocks: 128 },
    )
}

fn with_media(id: usize, len: usize, images: usize, audios: usize, videos: usize) -> Sequence {
    let mut seq = Sequence::new_waiting(vec![1; len], id, images, audios, videos);
    seq.set_state(SequenceState::RunningCompletion);
    seq
}

fn test_sequence(id: usize, len: usize) -> Sequence {
    with_media(id, len, 0, 0, 0)
}

fn test_sequence_with_images(id: usize, len: usize, images: usize) -> Sequence {
    with_media(id, len, images, 0, 0)
}

fn test_audio_sequence(id: usize, len: usize) -> Sequence {
    with_media(id, len, 0, 1, 0)
}

fn test_video_sequence(id: usize, len: usize) -> Sequence {
    with_media(id, len, 0, 0, 1)
}

fn image_feature(offset: usize, length: usize) -> MultiModalFeature {
    MultiModalFeature {
        kind: MultimodalKind::Image,
        item_range: ItemRange { start: 0, end: 1 },
        hashes: vec![1],
        offset,
        length,
        attention_policy: MultimodalAttentionPolicy::Causal,
        splittable: false,
    }
}

fn as_prompts(sequences: Vec<Sequence>) -> Vec<Sequence> {
    let mut prompts = sequences;
    for seq in prompts.iter_mut() {
        seq.set_state(SequenceState::RunningPrompt);
    }
    prompts
}

fn ids(sequences: &[Sequence]) -> Vec<usize> {
    sequences.iter().map(|seq| seq.id()).collect()
}

#[test]
fn block_hash_update_waits_for_a_full_block() {
    let mut scheduler = test_scheduler();
    let seq_id = 7;
    let revision = 3;
    let mut tokens = vec![1; scheduler.block_size - 1];

    assert_eq!(
        scheduler.block_hash_update(seq_id, tokens.len(), revision),
        Some(BlockHashUpdate::Rebuild)
    );
    scheduler.ensure_block_hashes(seq_id, &tokens, &vec![], None, revision);
    assert!(scheduler.seq_block_hashes[&seq_id].is_empty());
    assert_eq!(
        scheduler.block_hash_update(seq_id, tokens.len(), revision),
        None
    );

    tokens.push(1);
    assert_eq!(
        scheduler.block_hash_update(seq_id, tokens.len(), revision),
        Some(BlockHashUpdate::Append)
    );
    scheduler.ensure_block_hashes(seq_id, &tokens, &vec![], None, revision);
    assert_eq!(scheduler.seq_block_hashes[&seq_id].len(), 1);

    tokens.extend(std::iter::repeat(2).take(scheduler.block_size - 1));
    assert_eq!(
        scheduler.block_hash_update(seq_id, tokens.len(), revision),
        None
    );
}

#[test]
fn block_hash_update_appends_then_rebuilds_on_revision_change() {
    let mut scheduler = test_scheduler();
    let seq_id = 9;
    let revision = 4;
    let mut tokens = vec![1; scheduler.block_size];

    scheduler.ensure_block_hashes(seq_id, &tokens, &vec![], None, revision);
    let first_hashes = scheduler.seq_block_hashes[&seq_id].clone();
    tokens.extend(std::iter::repeat(2).take(scheduler.block_size));

    assert_eq!(
        scheduler.block_hash_update(seq_id, tokens.len(), revision),
        Some(BlockHashUpdate::Append)
    );
    scheduler.ensure_block_hashes(seq_id, &tokens, &vec![], None, revision);
    assert_eq!(
        scheduler.seq_block_hashes[&seq_id],
        compute_block_hashes(&tokens, scheduler.block_size, &vec![], &vec![])
    );
    assert_eq!(
        scheduler.block_hash_update(seq_id, tokens.len(), revision),
        None
    );

    tokens[0] = 100;
    let next_revision = revision + 1;
    assert_eq!(
        scheduler.block_hash_update(seq_id, tokens.len(), next_revision),
        Some(BlockHashUpdate::Rebuild)
    );
    scheduler.ensure_block_hashes(seq_id, &tokens, &vec![], None, next_revision);
    assert_ne!(scheduler.seq_block_hashes[&seq_id][0], first_hashes[0]);
    assert_eq!(
        scheduler.seq_block_hashes[&seq_id],
        compute_block_hashes(&tokens, scheduler.block_size, &vec![], &vec![])
    );
}

#[test]
fn preemption_caches_hash_appended_after_token_growth() {
    let mut scheduler = test_scheduler();
    let seq_id = 10;
    let mut seq = test_sequence(seq_id, scheduler.block_size);
    let initial_tokens = seq.tokens.clone();
    scheduler.ensure_block_hashes(seq_id, &initial_tokens, &vec![], None, 0);

    for _ in 0..scheduler.block_size {
        seq.add_token(2);
    }
    let len = seq.len();
    seq.set_num_computed_tokens(len);
    let tokens = seq.tokens.clone();
    let expected_hashes = compute_block_hashes(&tokens, scheduler.block_size, &vec![], &vec![]);
    assert!(scheduler
        .kv_cache_manager
        .allocate_slots(seq_id, tokens.len(), &vec![])
        .is_some());

    scheduler._preempt(seq);

    assert_eq!(scheduler.seq_block_hashes[&seq_id], expected_hashes);
    assert_eq!(
        scheduler
            .kv_cache_manager
            .get_computed_blocks(&expected_hashes, tokens.len() + 1)
            .num_computed_tokens,
        tokens.len()
    );
}

#[test]
fn finished_done_caches_but_error_only_cleans_up() {
    let mut scheduler = test_scheduler();
    let done_id = 10;
    let error_id = 20;
    let mut done = test_sequence(done_id, scheduler.block_size);
    let mut error = test_sequence(error_id, scheduler.block_size);
    error.set_toks_and_reallocate(vec![2; scheduler.block_size]);

    let done_tokens = done.tokens.clone();
    let error_tokens = error.tokens.clone();
    let done_hashes = compute_block_hashes(&done_tokens, scheduler.block_size, &vec![], &vec![]);
    let error_hashes = compute_block_hashes(&error_tokens, scheduler.block_size, &vec![], &vec![]);
    scheduler.ensure_block_hashes(done_id, &done_tokens, &vec![], None, 0);
    scheduler.ensure_block_hashes(
        error_id,
        &error_tokens,
        &vec![],
        None,
        error.block_hash_revision,
    );
    assert!(scheduler
        .kv_cache_manager
        .allocate_slots(done_id, done_tokens.len(), &vec![])
        .is_some());
    assert!(scheduler
        .kv_cache_manager
        .allocate_slots(error_id, error_tokens.len(), &vec![])
        .is_some());
    done.set_num_computed_tokens(done_tokens.len());
    done.set_state(SequenceState::Done(StopReason::Eos));
    error.set_num_computed_tokens(error_tokens.len());
    error.set_state(SequenceState::Error);
    scheduler.waiting_counts.insert(done_id, 3);
    scheduler.waiting_counts.insert(error_id, 4);
    scheduler.running.push(done);
    scheduler.waiting.push(error);

    scheduler.free_finished_sequence_groups();

    assert!(scheduler.running.is_empty());
    assert!(scheduler.waiting.is_empty());
    for seq_id in [done_id, error_id] {
        assert!(!scheduler.seq_block_hashes.contains_key(&seq_id));
        assert!(!scheduler.seq_block_hash_revisions.contains_key(&seq_id));
        assert!(!scheduler.waiting_counts.contains_key(&seq_id));
    }
    assert!(!scheduler.kv_cache_manager.has_request(done_id));
    assert!(!scheduler.kv_cache_manager.has_request(error_id));
    assert_eq!(
        scheduler
            .kv_cache_manager
            .get_computed_blocks(&done_hashes, done_tokens.len() + 1)
            .num_computed_tokens,
        done_tokens.len()
    );
    assert_eq!(
        scheduler
            .kv_cache_manager
            .get_computed_blocks(&error_hashes, error_tokens.len() + 1)
            .num_computed_tokens,
        0
    );
}

#[test]
fn deferred_speculative_releases_follow_final_state_and_are_unique() {
    let mut scheduler = test_scheduler();
    scheduler.running.push(test_sequence(20, 4));
    scheduler.preempted_sequence_ids = vec![20, 30, 20, 30];

    assert_eq!(scheduler.take_deferred_speculative_releases(), vec![30]);
    assert!(scheduler.preempted_sequence_ids.is_empty());
}

#[test]
fn finished_sequence_ids_are_visible_before_cleanup() {
    let mut scheduler = test_scheduler();
    let live = test_sequence(10, 4);
    let mut finished = test_sequence(20, 4);
    finished.set_state(SequenceState::Done(StopReason::Eos));
    scheduler.running.push(live);
    scheduler.running.push(finished);

    assert_eq!(scheduler.get_finished_sequence_ids(), vec![20]);
    scheduler.free_finished_sequence_groups();
    assert!(scheduler.get_finished_sequence_ids().is_empty());
}

#[test]
fn closed_response_group_cancels_waiting_prefill_and_decode() {
    let mut scheduler = test_scheduler();
    let initial_free_blocks = scheduler.kv_cache_manager.num_free_blocks();

    let mut waiting = test_sequence(10, 4);
    waiting.set_state(SequenceState::Waiting);
    waiting.set_recurrent_state_idx(Some(10));
    scheduler.waiting.push(waiting);

    let mut prefill = test_sequence(20, 4);
    prefill.set_state(SequenceState::RunningPrompt);
    prefill.set_recurrent_state_idx(Some(20));
    assert!(scheduler
        .kv_cache_manager
        .allocate_slots(20, 4, &vec![])
        .is_some());
    scheduler.running.push(prefill);

    let mut decode = test_sequence(30, 4);
    decode.set_recurrent_state_idx(Some(30));
    assert!(scheduler
        .kv_cache_manager
        .allocate_slots(30, 4, &vec![])
        .is_some());
    scheduler.running.push(decode);
    assert_eq!(scheduler.kv_cache_manager.num_active_blocks(), 2);

    scheduler.cancel_closed_response_groups(&vec![10, 20, 30]);

    for seq in [
        &scheduler.waiting[0],
        &scheduler.running[0],
        &scheduler.running[1],
    ] {
        assert_eq!(
            seq.getstate(),
            SequenceState::Done(StopReason::Canceled)
        );
    }
    assert_eq!(scheduler.get_finished_sequence_ids(), vec![20, 30, 10]);
    assert_eq!(
        scheduler.get_finished_recurrent_slots(),
        vec![(20, 20), (30, 30), (10, 10)]
    );
    assert!(!scheduler.can_continue_decode_batch(&vec![30]));

    scheduler.free_finished_sequence_groups();
    assert!(scheduler.waiting.is_empty());
    assert!(scheduler.running.is_empty());
    assert_eq!(
        scheduler.kv_cache_manager.num_free_blocks(),
        initial_free_blocks
    );
    assert_eq!(scheduler.kv_cache_manager.num_active_blocks(), 0);
}

#[test]
fn closed_response_stops_resident_decode_continuation() {
    let mut scheduler = test_scheduler();
    scheduler.running.push(test_sequence(10, 4));
    assert!(scheduler.can_continue_decode_batch(&vec![10]));

    scheduler.cancel_closed_response_groups(&vec![10]);

    assert!(!scheduler.can_continue_decode_batch(&vec![10]));
}

#[test]
fn ragged_completion_batch_keeps_all_sequences_running() {
    let mut scheduler = test_scheduler();
    scheduler.requires_uniform_completion_batch = false;
    scheduler.requires_uniform_media_batch = false;
    scheduler.running.push(test_sequence(0, 4));
    scheduler.running.push(test_sequence(1, 7));

    scheduler.enforce_completion_compatibility();

    assert_eq!(scheduler.running.len(), 2);
    assert!(scheduler.waiting.is_empty());
}

#[test]
fn ragged_completion_batch_separates_incompatible_media() {
    let mut scheduler = test_scheduler();
    scheduler.requires_uniform_completion_batch = false;
    scheduler.requires_uniform_media_batch = true;
    scheduler.running.push(test_sequence(0, 4));
    scheduler.running.push(test_sequence_with_images(1, 7, 1));

    scheduler.enforce_completion_compatibility();

    assert_eq!(scheduler.running.len(), 1);
    assert_eq!(scheduler.waiting.len(), 1);
}

#[test]
fn completion_media_signature_survives_consumed_prompt_inputs() {
    let mut scheduler = test_scheduler();
    scheduler.requires_uniform_completion_batch = false;
    scheduler.requires_uniform_media_batch = true;
    scheduler.running.push(test_sequence(0, 4));
    let mut image = test_sequence_with_images(1, 7, 1);
    image.set_mm_features(vec![image_feature(0, 1)]);
    assert_eq!(image.take_images(), 1);
    assert!(!image.has_images());
    assert_eq!(modality_signature(&image), IMAGE_MODALITY);
    scheduler.running.push(image);

    scheduler.enforce_completion_compatibility();

    assert_eq!(scheduler.running.len(), 1);
    assert_eq!(scheduler.waiting.len(), 1);
}

#[test]
fn empty_image_list_does_not_split_text_completion_batch() {
    let mut scheduler = test_scheduler();
    scheduler.requires_uniform_completion_batch = false;
    scheduler.running.push(test_sequence(0, 4));
    let mut prompt = test_sequence_with_images(1, 7, 0);
    prompt.set_state(SequenceState::RunningPrompt);
    scheduler.running.push(prompt);

    scheduler.enforce_completion_compatibility();

    assert_eq!(scheduler.running.len(), 2);
    assert!(scheduler.waiting.is_empty());
}

#[test]
fn uniform_completion_batch_preempts_other_lengths() {
    let mut scheduler = test_scheduler();
    scheduler.requires_uniform_completion_batch = true;
    scheduler.running.push(test_sequence(0, 4));
    scheduler.running.push(test_sequence(1, 7));

    scheduler.enforce_completion_compatibility();

    assert_eq!(scheduler.running.len(), 1);
    assert_eq!(scheduler.waiting.len(), 1);
    assert_eq!(scheduler.running[0].len(), 4);
}

#[test]
fn ragged_prompt_batch_keeps_compatible_sequences() {
    let mut scheduler = test_scheduler();
    let prompts = as_prompts(vec![test_sequence(0, 4), test_sequence(1, 7)]);

    let scheduled = scheduler.bucket_and_preempt_sequences(prompts, BatchKind::Prompt, false);

    assert_eq!(scheduled.len(), 2);
    assert!(scheduler.waiting.is_empty());
}

#[test]
fn ragged_prompt_batch_mixes_media_and_text_sequences() {
    let mut scheduler = test_scheduler();
    scheduler.requires_uniform_media_batch = false;
    let prompts = as_prompts(vec![test_sequence(0, 4), test_sequence_with_images(1, 7, 1)]);

    let scheduled = scheduler.bucket_and_preempt_sequences(prompts, BatchKind::Prompt, false);

    assert_eq!(scheduled.len(), 2);
    assert!(scheduler.waiting.is_empty());
}

#[test]
fn ragged_prompt_batch_mixes_distinct_media_modalities() {
    let mut scheduler = test_scheduler();
    scheduler.requires_uniform_media_batch = false;
    let prompts = as_prompts(vec![
        test_sequence_with_images(0, 4, 1),
        test_audio_sequence(1, 7),
        test_video_sequence(2, 5),
    ]);

    let scheduled = scheduler.bucket_and_preempt_sequences(prompts, BatchKind::Prompt, false);

    assert_eq!(scheduled.len(), 3);
    assert!(scheduler.waiting.is_empty());
}

#[test]
fn uniform_prompt_batch_separates_media_and_text_sequences() {
    let mut scheduler = test_scheduler();
    let prompts = as_prompts(vec![test_sequence(0, 4), test_sequence_with_images(1, 4, 1)]);

    let scheduled = scheduler.bucket_and_preempt_sequences(prompts, BatchKind::Prompt, true);

    assert_eq!(scheduled.len(), 1);
    assert_eq!(scheduler.waiting.len(), 1);
}

#[test]
fn ragged_prompt_batch_separates_incompatible_media() {
    let mut scheduler = test_scheduler();
    scheduler.requires_uniform_prompt_batch = false;
    scheduler.requires_uniform_media_batch = true;
    let prompts = as_prompts(vec![test_sequence(0, 4), test_sequence_with_images(1, 7, 1)]);

    let scheduled = scheduler.bucket_and_preempt_sequences(prompts, BatchKind::Prompt, false);

    assert_eq!(scheduled.len(), 1);
    assert_eq!(scheduler.waiting.len(), 1);
}

#[test]
fn uniform_prompt_batch_separates_image_and_audio_sequences() {
    let mut scheduler = test_scheduler();
    let prompts = as_prompts(vec![
        test_sequence_with_images(0, 4, 1),
        test_audio_sequence(1, 4),
    ]);

    let scheduled = scheduler.bucket_and_preempt_sequences(prompts, BatchKind::Prompt, true);

    assert_eq!(scheduled.len(), 1);
    assert_eq!(scheduler.waiting.len(), 1);
}

#[test]
fn uniform_prompt_batch_separates_image_and_video_sequences() {
    let mut scheduler = test_scheduler();
    let prompts = as_prompts(vec![
        test_sequence_with_images(0, 4, 1),
        test_video_sequence(1, 4),
    ]);

    let scheduled = scheduler.bucket_and_preempt_sequences(prompts, BatchKind::Prompt, true);

    assert_eq!(scheduled.len(), 1);
    assert_eq!(scheduler.waiting.len(), 1);
}

#[test]
fn ragged_prompt_batch_keeps_unequal_lengths() {
    let mut scheduler = test_scheduler();
    scheduler.supports_packed_prefill = true;
    let prompts = as_prompts(vec![
        test_sequence(0, 4),
        test_sequence(1, 300),
        test_sequence(2, 600),
    ]);

    let scheduled = scheduler.bucket_and_preempt_sequences(prompts, BatchKind::Prompt, false);

    assert_eq!(ids(&scheduled), vec![0, 1, 2]);
    assert!(scheduler.waiting.is_empty());
}

#[test]
fn ragged_prompt_batch_preserves_fcfs_order() {
    let mut scheduler = test_scheduler();
    scheduler.supports_packed_prefill = true;
    scheduler.waiting.push(test_sequence(4, 8));
    let prompts = as_prompts(vec![
        test_sequence(0, 300),
        test_sequence(1, 4),
        test_sequence(2, 600),
        test_sequence(3, 7),
    ]);

    let scheduled = scheduler.bucket_and_preempt_sequences(prompts, BatchKind::Prompt, false);

    assert_eq!(ids(&scheduled), vec![0, 1, 2, 3]);
    assert_eq!(ids(&scheduler.waiting), vec![4]);
}

#[test]
fn padded_ragged_prompt_batch_bounds_padding() {
    let mut scheduler = test_scheduler();
    let prompts = as_prompts(vec![test_sequence(0, 4), test_sequence(1, 300)]);

    let scheduled = scheduler.bucket_and_preempt_sequences(prompts, BatchKind::Prompt, false);

    assert_eq!(scheduled.len(), 1);
    assert_eq!(scheduler.waiting.len(), 1);
    assert_eq!(scheduled[0].len(), 4);
}

#[test]
fn cached_prompt_batch_requires_matching_prefix_offsets() {
    let mut scheduler = test_scheduler();
    let mut first = test_sequence(0, 100);
    let mut second = test_sequence(1, 132);
    first.set_prefix_cache_len(32);
    second.set_prefix_cache_len(64);
    let prompts = as_prompts(vec![first, second]);

    let scheduled = scheduler.bucket_and_preempt_sequences(prompts, BatchKind::Prompt, true);

    assert_eq!(scheduled.len(), 1);
    assert_eq!(scheduler.waiting.len(), 1);
}

#[test]
fn prompt_batch_separates_raw_logits_requests() {
    let mut scheduler = test_scheduler();
    let first = test_sequence(0, 4);
    let mut second = test_sequence(1, 4);
    second.return_raw_logits = true;
    let prompts = as_prompts(vec![first, second]);

    let scheduled = scheduler.bucket_and_preempt_sequences(prompts, BatchKind::Prompt, true);

    assert_eq!(scheduled.len(), 1);
    assert_eq!(scheduler.waiting.len(), 1);
}

#[test]
fn prompt_batch_singletonizes_raw_logits_requests() {
    let mut scheduler = test_scheduler();
    let mut first = test_sequence(0, 4);
    let mut second = test_sequence(1, 4);
    first.return_raw_logits = true;
    second.return_raw_logits = true;
    let prompts = as_prompts(vec![first, second]);

    let scheduled = scheduler.bucket_and_preempt_sequences(prompts, BatchKind::Prompt, true);

    assert_eq!(scheduled.len(), 1);
    assert_eq!(scheduler.waiting.len(), 1);
}

#[test]
fn completion_buckets_go_by_length_and_media() {
    let mut scheduler = test_scheduler();
    let rows = vec![test_sequence(0, 4), test_sequence(1, 7), test_sequence(2, 4)];
    let scheduled = scheduler.bucket_and_preempt_sequences(rows, BatchKind::Completion, true);
    assert_eq!(ids(&scheduled), vec![0, 2]);
    assert_eq!(ids(&scheduler.waiting), vec![1]);

    scheduler.requires_uniform_media_batch = true;
    let rows = vec![test_sequence(3, 4), test_audio_sequence(4, 4)];
    let scheduled = scheduler.bucket_and_preempt_sequences(rows, BatchKind::Completion, false);
    assert_eq!(ids(&scheduled), vec![3]);
    assert_eq!(ids(&scheduler.waiting), vec![4, 1]);

    let nobody = scheduler.bucket_and_preempt_sequences(vec![], BatchKind::Prompt, true);
    assert!(nobody.is_empty());
    assert_eq!(scheduler.preempted_sequence_ids, vec![1, 4]);
}

#[test]
fn preempted_batch_keeps_its_order_and_is_set_back() {
    let mut scheduler = test_scheduler();
    scheduler.requires_uniform_completion_batch = true;
    for (id, len) in [(0, 4), (1, 7), (2, 8), (3, 4)] {
        let mut seq = test_sequence(id, len);
        seq.set_num_computed_tokens(len);
        seq.set_prefix_cache_len(2);
        scheduler.running.push(seq);
    }
    scheduler.enforce_completion_compatibility();
    assert_eq!(ids(&scheduler.running), vec![0, 3]);
    assert_eq!(ids(&scheduler.waiting), vec![1, 2]);
    assert_eq!(scheduler.preempted_sequence_ids, vec![2, 1]);
    for seq in &scheduler.waiting {
        assert_eq!(seq.getstate(), SequenceState::Waiting);
        assert_eq!(seq.num_computed_tokens, 0);
        assert_eq!(seq.prefix_cache_len, 0);
    }
}

#[test]
fn changed_adapter_changes_the_hashes() {
    let mut scheduler = test_scheduler();
    let tokens = vec![1; 16];
    scheduler.ensure_block_hashes(1, &tokens, &vec![], None, 0);
    scheduler.ensure_block_hashes(2, &tokens, &vec![], Some(5), 0);
    assert_eq!(
        scheduler.seq_block_hashes[&2],
        compute_block_hashes(&tokens, 8, &vec![], &vec![5])
    );
    assert_ne!(scheduler.seq_block_hashes[&1], scheduler.seq_block_hashes[&2]);
}
