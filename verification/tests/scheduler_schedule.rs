//! Whole turns of the scheduler.

use inference::paged_attention::block_hash::{
    compute_block_hashes, ItemRange, MultiModalFeature, MultimodalAttentionPolicy, MultimodalKind,
};
use inference::paged_attention::scheduler::admission::{
    PagedPrefixCacheValidator, PrefixCacheStats, Rejection, StatelessModel, WAITING_TIMEOUT,
};
use inference::paged_attention::scheduler::{
    CacheConfig, PagedAttentionScheduler, PagedAttentionSchedulerConfig,
};
use inference::paged_attention::sequence::{
    modality_signature, Sequence, SequenceState, SpeculativePrefixCheckpointPolicy,
    SpeculativePrefixReplay,
};

fn scheduler_with(
    max_num_batched_tokens: usize,
    max_prefill_chunk_tokens: usize,
    max_decode_steps_before_prefill: usize,
    num_gpu_blocks: usize,
) -> PagedAttentionScheduler {
    PagedAttentionScheduler::new(
        PagedAttentionSchedulerConfig {
            max_num_seqs: 8,
            max_num_batched_tokens,
            max_prefill_chunk_tokens,
            max_decode_steps_before_prefill,
        },
        CacheConfig { block_size: 8, num_gpu_blocks },
    )
}

fn test_scheduler() -> PagedAttentionScheduler {
    scheduler_with(4096, 4096, 8, 128)
}

fn with_images(id: usize, len: usize, images: usize) -> Sequence {
    let mut seq = Sequence::new_waiting(vec![1; len], id, images, 0, 0);
    seq.set_state(SequenceState::RunningCompletion);
    seq
}

fn test_sequence(id: usize, len: usize) -> Sequence {
    with_images(id, len, 0)
}

fn waiting_sequence(id: usize, len: usize) -> Sequence {
    Sequence::new_waiting(vec![1; len], id, 0, 0, 0)
}

fn decoding(id: usize, len: usize, computed: usize) -> Sequence {
    let mut seq = test_sequence(id, len);
    seq.set_num_computed_tokens(computed);
    seq
}

fn prompt(id: usize, len: usize, computed: usize) -> Sequence {
    let mut seq = test_sequence(id, len);
    seq.set_state(SequenceState::RunningPrompt);
    seq.set_prefix_cache_len(computed);
    seq.set_num_computed_tokens(computed);
    seq
}

fn image_feature(offset: usize, length: usize) -> MultiModalFeature {
    MultiModalFeature {
        kind: MultimodalKind::Image,
        item_range: ItemRange { start: 0, end: 1 },
        hashes: vec![1],
        offset,
        length,
        attention_policy: MultimodalAttentionPolicy::Causal,
        splittable: false,
    }
}

fn running(scheduler: &PagedAttentionScheduler, id: usize) -> &Sequence {
    scheduler
        .running
        .iter()
        .find(|seq| seq.id() == id)
        .unwrap()
}

fn set_computed(scheduler: &mut PagedAttentionScheduler, id: usize, computed: usize) {
    for seq in scheduler.running.iter_mut() {
        if seq.id() == id {
            seq.set_num_computed_tokens(computed);
        }
    }
}

#[derive(Default)]
struct RecordingPrefixValidator {
    cached_tokens: Vec<usize>,
    validated_ids: Vec<usize>,
    committed_ids: Vec<usize>,
    released_slots: Vec<(usize, usize)>,
}

impl PagedPrefixCacheValidator for RecordingPrefixValidator {
    fn validate_prefix_cache_hit(
        &mut self,
        seq: &Sequence,
        _block_hashes: &Vec<u64>,
        cached_tokens: usize,
        _block_size: usize,
    ) -> Result<usize, String> {
        self.cached_tokens.push(cached_tokens);
        self.validated_ids.push(seq.id());
        Ok(cached_tokens)
    }

    fn commit_prefix_cache_hit(&mut self, seq: &Sequence, _cached: usize) -> Result<(), String> {
        self.committed_ids.push(seq.id());
        Ok(())
    }

    fn release_recurrent_state(
        &mut self,
        sequence_id: usize,
        slot_idx: usize,
    ) -> Result<bool, String> {
        self.released_slots.push((sequence_id, slot_idx));
        Ok(true)
    }
}

#[derive(Default)]
struct FailingPrefixValidator {
    released_slots: Vec<(usize, usize)>,
}

impl PagedPrefixCacheValidator for FailingPrefixValidator {
    fn validate_prefix_cache_hit(
        &mut self,
        _seq: &Sequence,
        _block_hashes: &Vec<u64>,
        _cached_tokens: usize,
        _block_size: usize,
    ) -> Result<usize, String> {
        Err("injected recurrent state reset failure".to_string())
    }

    fn commit_prefix_cache_hit(&mut self, _seq: &Sequence, _cached: usize) -> Result<(), String> {
        Ok(())
    }

    fn release_recurrent_state(
        &mut self,
        sequence_id: usize,
        slot_idx: usize,
    ) -> Result<bool, String> {
        self.released_slots.push((sequence_id, slot_idx));
        Ok(true)
    }
}

#[derive(Default)]
struct FailingCommitPrefixValidator {
    released_slots: Vec<(usize, usize)>,
}

impl PagedPrefixCacheValidator for FailingCommitPrefixValidator {
    fn validate_prefix_cache_hit(
        &mut self,
        _seq: &Sequence,
        _block_hashes: &Vec<u64>,
        cached_tokens: usize,
        _block_size: usize,
    ) -> Result<usize, String> {
        Ok(cached_tokens)
    }

    fn commit_prefix_cache_hit(&mut self, _seq: &Sequence, _cached: usize) -> Result<(), String> {
        Err("injected recurrent state commit failure".to_string())
    }

    fn release_recurrent_state(
        &mut self,
        sequence_id: usize,
        slot_idx: usize,
    ) -> Result<bool, String> {
        self.released_slots.push((sequence_id, slot_idx));
        Ok(true)
    }
}

#[test]
fn enabling_prefix_cache_reuses_hashes_built_while_disabled() {
    let mut scheduler = test_scheduler();
    let seq_id = 10;
    let tokens = vec![1; scheduler.block_size * 2];
    let hashes = compute_block_hashes(&tokens, scheduler.block_size, &vec![], &vec![]);
    assert!(scheduler
        .kv_cache_manager
        .allocate_slots(99, tokens.len(), &vec![])
        .is_some());
    scheduler
        .kv_cache_manager
        .cache_blocks(99, &hashes, scheduler.block_size);
    scheduler.kv_cache_manager.free(99);

    scheduler.set_prefix_caching_enabled_sync(false);
    scheduler.waiting.push(waiting_sequence(seq_id, tokens.len()));
    let mut logger = PrefixCacheStats::new();

    let disabled = scheduler.schedule(&mut logger, &mut StatelessModel);
    assert_eq!(disabled.num_cached_tokens, vec![0]);
    assert_eq!(scheduler.seq_block_hashes[&seq_id], hashes);
    let seq = scheduler.running.remove(0);
    scheduler._preempt(seq);
    assert_eq!(scheduler.seq_block_hashes[&seq_id], hashes);

    scheduler.set_prefix_caching_enabled_sync(true);
    let enabled = scheduler.schedule(&mut logger, &mut StatelessModel);
    assert_eq!(enabled.num_cached_tokens, vec![scheduler.block_size]);
    assert_eq!(scheduler.seq_block_hashes[&seq_id], hashes);
}

#[test]
fn preempted_prompt_validates_zero_token_recurrent_state() {
    let mut scheduler = test_scheduler();
    let mut seq = test_sequence(0, 4);
    seq.set_prefix_cache_len(4);
    seq.set_num_computed_tokens(4);
    seq.set_recurrent_state_idx(Some(7));
    scheduler._preempt(seq);

    assert_eq!(scheduler.waiting[0].getstate(), SequenceState::Waiting);
    assert_eq!(scheduler.waiting[0].prefix_cache_len, 0);
    assert_eq!(scheduler.waiting[0].num_computed_tokens, 0);

    let mut logger = PrefixCacheStats::new();
    let mut validator = RecordingPrefixValidator::default();
    let output = scheduler.schedule(&mut logger, &mut validator);

    assert_eq!(output.scheduled.len(), 1);
    assert_eq!(validator.cached_tokens, vec![0]);
}

#[test]
fn scheduler_output_reports_preempted_sequence_ids() {
    let mut scheduler = test_scheduler();
    scheduler.requires_uniform_completion_batch = true;
    scheduler.running.push(test_sequence(10, 4));
    scheduler.running.push(test_sequence(20, 7));

    let mut logger = PrefixCacheStats::new();
    let turn = scheduler.schedule_turn(&mut logger, &mut StatelessModel);

    assert_eq!(turn.preempted_sequence_ids, vec![20]);
    assert_eq!(turn.output.scheduled.len(), 1);
    assert_eq!(turn.output.scheduled[0], 10);
}

#[test]
fn readmitted_prefix_restore_supersedes_deferred_speculative_release() {
    let mut scheduler = test_scheduler();
    scheduler._preempt(test_sequence(20, 16));

    let mut logger = PrefixCacheStats::new();
    let mut validator = RecordingPrefixValidator::default();
    let turn = scheduler.schedule_turn(&mut logger, &mut validator);

    assert_eq!(validator.committed_ids, vec![20]);
    assert!(turn.preempted_sequence_ids.is_empty());
    assert_eq!(turn.output.scheduled.len(), 1);
    assert_eq!(turn.output.scheduled[0], 20);
}

#[test]
fn prefix_validator_observes_the_clamped_cache_boundary() {
    let mut scheduler = test_scheduler();
    let tokens = vec![1; 24];
    let features = vec![image_feature(12, 8)];
    let hashes = compute_block_hashes(&tokens, scheduler.block_size, &features, &vec![]);
    assert!(scheduler
        .kv_cache_manager
        .allocate_slots(99, tokens.len(), &vec![])
        .is_some());
    scheduler.kv_cache_manager.cache_blocks(99, &hashes, 16);
    scheduler.kv_cache_manager.free(99);

    let mut seq = waiting_sequence(0, tokens.len());
    seq.set_mm_features(features);
    scheduler.waiting.push(seq);

    let mut logger = PrefixCacheStats::new();
    let mut validator = RecordingPrefixValidator::default();
    let output = scheduler.schedule(&mut logger, &mut validator);

    assert_eq!(validator.cached_tokens, vec![8]);
    assert_eq!(output.num_cached_tokens, vec![8]);
}

#[test]
fn cache_pressure_discards_staged_prefix_admission_until_retry_succeeds() {
    let mut scheduler = scheduler_with(4096, 4096, 8, 2);
    assert!(scheduler
        .kv_cache_manager
        .allocate_slots(99, 8, &vec![])
        .is_some());
    let mut seq = waiting_sequence(0, 8);
    seq.set_recurrent_state_idx(Some(7));
    scheduler.waiting.push(seq);
    let mut logger = PrefixCacheStats::new();
    let mut validator = RecordingPrefixValidator::default();

    let blocked = scheduler.schedule(&mut logger, &mut validator);

    assert!(blocked.scheduled.is_empty());
    assert_eq!(validator.validated_ids, vec![0]);
    assert!(validator.committed_ids.is_empty());
    assert_eq!(scheduler.waiting.len(), 1);

    scheduler.kv_cache_manager.free(99);
    let admitted = scheduler.schedule(&mut logger, &mut validator);

    assert_eq!(admitted.scheduled.len(), 1);
    assert_eq!(validator.validated_ids, vec![0, 0]);
    assert_eq!(validator.committed_ids, vec![0]);
}

#[test]
fn disabled_waiting_prompt_preemption_preserves_decode_state() {
    let mut scheduler = scheduler_with(4096, 4096, 8, 5);
    scheduler.decode_steps_since_prefill = scheduler.config.max_decode_steps_before_prefill;

    assert!(scheduler
        .kv_cache_manager
        .allocate_slots(10, 7, &vec![])
        .is_some());
    scheduler.running.push(decoding(10, 7, 7));

    scheduler.waiting.push(waiting_sequence(20, 32));
    scheduler.waiting_counts.insert(20, WAITING_TIMEOUT);
    scheduler.set_waiting_prompt_preemption_enabled(false);

    let blocks_before = scheduler.kv_cache_manager.get_block_ids(10).unwrap();
    let mut logger = PrefixCacheStats::new();
    let turn = scheduler.schedule_turn(&mut logger, &mut StatelessModel);

    assert!(turn.preempted_sequence_ids.is_empty());
    assert_eq!(turn.output.scheduled.len(), 1);
    assert_eq!(turn.output.scheduled[0], 10);
    assert_eq!(running(&scheduler, 10).num_computed_tokens, 7);
    assert_eq!(
        running(&scheduler, 10).getstate(),
        SequenceState::RunningCompletion
    );
    assert_eq!(scheduler.waiting[0].getstate(), SequenceState::Waiting);
    assert_eq!(scheduler.waiting.len(), 1);
    assert_eq!(
        scheduler.kv_cache_manager.get_block_ids(10).unwrap(),
        blocks_before
    );
    assert_eq!(
        scheduler.waiting_counts.get(&20),
        Some(&(WAITING_TIMEOUT + 1))
    );

    scheduler.set_waiting_prompt_preemption_enabled(true);
    let turn = scheduler.schedule_turn(&mut logger, &mut StatelessModel);

    assert_eq!(turn.preempted_sequence_ids, vec![10]);
    assert_eq!(turn.output.scheduled.len(), 1);
    assert_eq!(turn.output.scheduled[0], 20);
    assert!(!scheduler.waiting_counts.contains_key(&20));
}

#[test]
fn modality_requeue_does_not_stage_or_commit_prefix_admission() {
    let mut scheduler = test_scheduler();
    scheduler.requires_uniform_media_batch = true;
    scheduler.waiting.push(waiting_sequence(0, 8));
    scheduler
        .waiting
        .push(Sequence::new_waiting(vec![1; 8], 1, 1, 0, 0));
    let mut logger = PrefixCacheStats::new();
    let mut validator = RecordingPrefixValidator::default();

    let text_batch = scheduler.schedule(&mut logger, &mut validator);

    assert_eq!(text_batch.scheduled.len(), 1);
    assert_eq!(validator.validated_ids, vec![0]);
    assert_eq!(validator.committed_ids, vec![0]);
    assert_eq!(scheduler.waiting.len(), 1);

    scheduler.kv_cache_manager.free(0);
    scheduler.running.clear();
    let image_batch = scheduler.schedule(&mut logger, &mut validator);

    assert_eq!(image_batch.scheduled.len(), 1);
    assert_eq!(image_batch.scheduled[0], 1);
    assert_eq!(validator.validated_ids, vec![0, 1]);
    assert_eq!(validator.committed_ids, vec![0, 1]);
}

#[test]
fn ignored_prompt_finishes_before_modality_requeue() {
    let mut scheduler = test_scheduler();
    scheduler.requires_uniform_media_batch = true;

    scheduler.waiting.push(waiting_sequence(0, 4));

    let mut oversized = Sequence::new_waiting(vec![1; 1_024], 1, 1, 0, 0);
    oversized.set_recurrent_state_idx(Some(7));
    scheduler.waiting.push(oversized);
    scheduler.waiting_counts.insert(1, WAITING_TIMEOUT);

    let mut logger = PrefixCacheStats::new();
    let mut validator = RecordingPrefixValidator::default();
    let output = scheduler.schedule(&mut logger, &mut validator);

    assert_eq!(output.scheduled.len(), 1);
    assert_eq!(output.scheduled[0], 0);
    assert!(scheduler.waiting.is_empty());
    assert_eq!(output.rejected.len(), 1);
    assert_eq!(
        output.rejected[0].sequence.getstate(),
        SequenceState::FinishedIgnored
    );
    assert_eq!(output.rejected[0].sequence.recurrent_state_idx, None);
    assert_eq!(validator.released_slots, vec![(1, 7)]);
    assert!(matches!(
        output.rejected[0].reason,
        Rejection::ValidationError
    ));
}

#[test]
fn recurrent_prefix_failure_rejects_request_and_releases_slot() {
    let mut scheduler = test_scheduler();
    let mut seq = waiting_sequence(1, 16);
    seq.set_recurrent_state_idx(Some(7));
    scheduler.waiting.push(seq);

    let mut logger = PrefixCacheStats::new();
    let mut validator = FailingPrefixValidator::default();
    let output = scheduler.schedule(&mut logger, &mut validator);

    assert!(output.scheduled.is_empty());
    assert!(scheduler.waiting.is_empty());
    assert!(scheduler.running.is_empty());
    assert_eq!(validator.released_slots, vec![(1, 7)]);
    assert_eq!(output.rejected[0].sequence.recurrent_state_idx, None);
    assert_eq!(
        output.rejected[0].sequence.getstate(),
        SequenceState::FinishedIgnored
    );
    assert!(matches!(
        output.rejected[0].reason,
        Rejection::InternalError(_)
    ));
}

#[test]
fn recurrent_prefix_commit_failure_frees_kv_and_releases_slot() {
    let mut scheduler = test_scheduler();
    let initial_free_blocks = scheduler.kv_cache_manager.num_free_blocks();
    let mut seq = waiting_sequence(1, 16);
    seq.set_recurrent_state_idx(Some(7));
    scheduler.waiting.push(seq);

    let mut logger = PrefixCacheStats::new();
    let mut validator = FailingCommitPrefixValidator::default();
    let output = scheduler.schedule(&mut logger, &mut validator);

    assert!(output.scheduled.is_empty());
    assert!(scheduler.waiting.is_empty());
    assert!(scheduler.running.is_empty());
    assert_eq!(validator.released_slots, vec![(1, 7)]);
    assert_eq!(output.rejected[0].sequence.recurrent_state_idx, None);
    assert_eq!(
        scheduler.kv_cache_manager.num_free_blocks(),
        initial_free_blocks
    );
    assert!(matches!(
        output.rejected[0].reason,
        Rejection::InternalError(_)
    ));
}

#[test]
fn raw_logits_prompt_bypasses_reusable_prefix_blocks() {
    let mut scheduler = test_scheduler();
    let tokens = vec![1; 16];
    let hashes = compute_block_hashes(&tokens, scheduler.block_size, &vec![], &vec![]);
    assert!(scheduler
        .kv_cache_manager
        .allocate_slots(99, tokens.len(), &vec![])
        .is_some());
    scheduler
        .kv_cache_manager
        .cache_blocks(99, &hashes, scheduler.block_size);
    scheduler.kv_cache_manager.free(99);
    assert_eq!(
        scheduler
            .kv_cache_manager
            .get_computed_blocks(&hashes, tokens.len())
            .num_computed_tokens,
        scheduler.block_size
    );

    let mut raw = waiting_sequence(0, tokens.len());
    raw.return_raw_logits = true;
    scheduler.waiting.push(raw);

    let mut logger = PrefixCacheStats::new();
    let output = scheduler.schedule(&mut logger, &mut StatelessModel);

    assert_eq!(output.num_cached_tokens, vec![0]);
    assert_eq!(running(&scheduler, output.scheduled[0]).prefix_cache_len, 0);
    assert_eq!(
        scheduler
            .kv_cache_manager
            .get_computed_blocks(&hashes, tokens.len())
            .num_computed_tokens,
        scheduler.block_size
    );
}

#[test]
fn preempted_prefix_cache_hit_is_counted_once() {
    let mut scheduler = test_scheduler();
    let tokens = vec![1; 16];
    let hashes = compute_block_hashes(&tokens, scheduler.block_size, &vec![], &vec![]);
    assert!(scheduler
        .kv_cache_manager
        .allocate_slots(99, tokens.len(), &vec![])
        .is_some());
    scheduler
        .kv_cache_manager
        .cache_blocks(99, &hashes, scheduler.block_size);
    scheduler.kv_cache_manager.free(99);

    scheduler.waiting.push(waiting_sequence(0, tokens.len()));

    let mut logger = PrefixCacheStats::new();
    logger.add_new_sequence();
    let first = scheduler.schedule(&mut logger, &mut StatelessModel);

    assert_eq!(first.num_cached_tokens, vec![scheduler.block_size]);
    assert_eq!(logger.prefix_cache_stats(), (1, 1));

    let seq = scheduler.running.remove(0);
    scheduler._preempt(seq);
    let second = scheduler.schedule(&mut logger, &mut StatelessModel);

    assert_eq!(second.num_cached_tokens, vec![scheduler.block_size]);
    assert_eq!(logger.prefix_cache_stats(), (1, 1));
}

#[test]
fn underfilled_decode_gets_one_completion_turn_before_refill() {
    let mut scheduler = test_scheduler();
    let mut first = test_sequence(0, 4);
    first.set_state(SequenceState::RunningPrompt);
    first.set_num_computed_tokens(4);
    scheduler.running.push(first);
    scheduler.waiting.push(waiting_sequence(1, 7));

    let mut logger = PrefixCacheStats::new();
    let completion = scheduler.schedule(&mut logger, &mut StatelessModel);
    assert_eq!(completion.scheduled.len(), 1);
    assert!(!running(&scheduler, completion.scheduled[0]).is_prompt());
    assert_eq!(scheduler.waiting.len(), 1);

    let prompt = scheduler.schedule(&mut logger, &mut StatelessModel);

    assert_eq!(prompt.scheduled.len(), 1);
    assert!(running(&scheduler, prompt.scheduled[0]).is_prompt());
    assert!(scheduler.waiting.is_empty());
}

#[test]
fn running_prompt_tail_within_budget_yields_after_prefill() {
    let mut scheduler = test_scheduler();
    scheduler.running.push(decoding(0, 8, 8));
    scheduler.running.push(prompt(1, 12, 8));

    let mut logger = PrefixCacheStats::new();
    let decode = scheduler.schedule(&mut logger, &mut StatelessModel);
    assert_eq!(decode.scheduled.len(), 1);
    assert_eq!(decode.scheduled[0], 0);

    let prompt = scheduler.schedule(&mut logger, &mut StatelessModel);
    assert_eq!(prompt.scheduled.len(), 1);
    assert_eq!(prompt.scheduled[0], 1);
    assert!(running(&scheduler, prompt.scheduled[0]).is_prompt());
}

#[test]
fn incompatible_prompt_tails_yield_between_batches() {
    let mut scheduler = test_scheduler();
    scheduler.config.max_num_batched_tokens = 8;
    scheduler.scheduler_visible_prompt_chunks = true;
    scheduler.running.push(test_sequence(0, 8));

    for (id, len) in [(1, 10), (2, 11)] {
        scheduler.running.push(prompt(id, len, 8));
    }

    let mut logger = PrefixCacheStats::new();
    let decode = scheduler.schedule(&mut logger, &mut StatelessModel);
    assert_eq!(decode.scheduled[0], 0);

    let first = scheduler.schedule(&mut logger, &mut StatelessModel);
    assert_eq!(first.scheduled.len(), 1);
    assert_eq!(first.scheduled[0], 1);
    set_computed(&mut scheduler, 1, 10);

    let decode = scheduler.schedule(&mut logger, &mut StatelessModel);
    assert_eq!(decode.scheduled[0], 0);

    let second = scheduler.schedule(&mut logger, &mut StatelessModel);
    assert_eq!(second.scheduled.len(), 1);
    assert_eq!(second.scheduled[0], 2);
    assert!(running(&scheduler, second.scheduled[0]).is_prompt());
}

#[test]
fn chunked_prompt_buckets_rotate_without_discarding_partial_state() {
    let mut scheduler = test_scheduler();
    scheduler.config.max_num_batched_tokens = 4;
    scheduler.scheduler_visible_prompt_chunks = true;

    for (id, computed) in [(0, 4), (1, 0), (2, 4)] {
        scheduler.running.push(prompt(id, 12, computed));
    }

    let mut logger = PrefixCacheStats::new();
    let first = scheduler.schedule(&mut logger, &mut StatelessModel);
    assert_eq!(first.scheduled, vec![0, 2]);
    for id in first.scheduled {
        for seq in scheduler.running.iter_mut() {
            if seq.id() == id {
                seq.set_prefix_cache_len(6);
                seq.set_num_computed_tokens(6);
            }
        }
    }

    let second = scheduler.schedule(&mut logger, &mut StatelessModel);
    assert_eq!(second.scheduled.len(), 1);
    assert_eq!(second.scheduled[0], 1);
    assert_eq!(scheduler.running.len(), 3);
    assert!(scheduler.waiting.is_empty());
    assert_eq!(
        scheduler
            .running
            .iter()
            .map(|seq| seq.num_computed_tokens)
            .collect::<Vec<_>>(),
        vec![6, 0, 6]
    );

    scheduler.running[1].set_prefix_cache_len(4);
    scheduler.running[1].set_num_computed_tokens(4);
    let third = scheduler.schedule(&mut logger, &mut StatelessModel);
    assert_eq!(third.scheduled, vec![2, 0]);
}

#[test]
fn active_decodes_are_prioritized_over_new_prompts() {
    let mut scheduler = test_scheduler();
    scheduler.running.push(test_sequence(0, 4));
    scheduler.waiting.push(waiting_sequence(1, 7));

    let mut logger = PrefixCacheStats::new();
    let completion = scheduler.schedule(&mut logger, &mut StatelessModel);

    assert_eq!(completion.scheduled.len(), 1);
    assert!(!running(&scheduler, completion.scheduled[0]).is_prompt());
    assert_eq!(scheduler.waiting.len(), 1);
}

#[test]
fn completion_turn_survives_finished_prompt_cleanup() {
    let mut scheduler = test_scheduler();
    scheduler.running.push(test_sequence(0, 4));
    scheduler.decode_steps_since_prefill = 0;
    scheduler.waiting.push(waiting_sequence(1, 7));

    let mut logger = PrefixCacheStats::new();
    let completion = scheduler.schedule(&mut logger, &mut StatelessModel);

    assert_eq!(completion.scheduled.len(), 1);
    assert_eq!(completion.scheduled[0], 0);
    assert_eq!(scheduler.waiting.len(), 1);
}

#[test]
fn completion_turn_without_running_sequences_does_not_delay_prompts() {
    let mut scheduler = test_scheduler();
    scheduler.decode_steps_since_prefill = 0;
    scheduler.waiting.push(waiting_sequence(1, 7));

    let mut logger = PrefixCacheStats::new();
    let prompt = scheduler.schedule(&mut logger, &mut StatelessModel);

    assert_eq!(prompt.scheduled.len(), 1);
    assert!(running(&scheduler, prompt.scheduled[0]).is_prompt());
    assert!(scheduler.waiting.is_empty());
}

#[test]
fn token_budget_caps_prompt_admission() {
    let mut scheduler = test_scheduler();
    scheduler.config.max_num_batched_tokens = 3;
    for id in 0..5 {
        scheduler.waiting.push(waiting_sequence(id, 4));
    }

    let mut logger = PrefixCacheStats::new();
    let prompt = scheduler.schedule(&mut logger, &mut StatelessModel);

    assert_eq!(prompt.scheduled.len(), 3);
    assert_eq!(prompt.prompt_chunk_size, Some(1));
    assert_eq!(scheduler.waiting.len(), 2);
}

#[test]
fn deferred_prompt_tail_runs_first_without_reallocating_kv() {
    let mut scheduler = test_scheduler();
    scheduler.set_scheduler_visible_prompt_chunks(
        true,
        false,
        SpeculativePrefixCheckpointPolicy::default(),
    );
    for id in 0..3 {
        scheduler.waiting.push(waiting_sequence(id, 16));
    }

    let mut logger = PrefixCacheStats::new();
    let mut first = scheduler.schedule(&mut logger, &mut StatelessModel);
    assert_eq!(first.scheduled, vec![0, 1, 2]);
    let first_omitted = first.retain_prompt_prefix(1).unwrap();
    assert_eq!(first_omitted, 1);
    assert_eq!(first.scheduled.len(), 1);
    assert_eq!(first.num_cached_tokens.len(), 1);
    assert_eq!(first.scheduled_prompt_chunks.as_ref().unwrap().len(), 1);

    let kv_before = (0..3)
        .map(|id| scheduler.kv_cache_manager.get_block_ids(id).unwrap())
        .collect::<Vec<_>>();
    let states_before = scheduler
        .running
        .iter()
        .map(|seq| seq.getstate())
        .collect::<Vec<_>>();

    scheduler.defer_prompt_tail(first_omitted);

    let kv_after_deferral = (0..3)
        .map(|id| scheduler.kv_cache_manager.get_block_ids(id).unwrap())
        .collect::<Vec<_>>();
    assert_eq!(kv_after_deferral, kv_before);
    assert_eq!(
        scheduler
            .running
            .iter()
            .map(|seq| seq.getstate())
            .collect::<Vec<_>>(),
        states_before
    );

    let next = scheduler.schedule(&mut logger, &mut StatelessModel);
    assert_eq!(next.scheduled, vec![1, 2, 0]);
    let kv_after_schedule = (0..3)
        .map(|id| scheduler.kv_cache_manager.get_block_ids(id).unwrap())
        .collect::<Vec<_>>();
    assert_eq!(kv_after_schedule, kv_before);
    assert_eq!(
        scheduler
            .running
            .iter()
            .map(|seq| seq.getstate())
            .collect::<Vec<_>>(),
        states_before
    );
}

#[test]
fn token_budget_fairly_rotates_completion_batches() {
    let mut scheduler = test_scheduler();
    scheduler.config.max_num_batched_tokens = 2;
    for id in 0..3 {
        scheduler.running.push(decoding(id, 4, 4));
    }

    let mut logger = PrefixCacheStats::new();
    let first = scheduler.schedule(&mut logger, &mut StatelessModel);
    assert_eq!(first.scheduled, vec![0, 1]);

    let second = scheduler.schedule(&mut logger, &mut StatelessModel);
    assert_eq!(second.scheduled, vec![2, 0]);
}

#[test]
fn completion_batches_bootstrap_new_rows_without_dropping_staged_rows() {
    let mut scheduler = test_scheduler();
    for id in 0..2 {
        let mut seq = decoding(id, 4, 4);
        seq.set_staged_speculative(vec![10, 11]);
        scheduler.running.push(seq);
    }
    scheduler.running.push(decoding(2, 4, 4));

    let mut logger = PrefixCacheStats::new();
    let staged = scheduler.schedule(&mut logger, &mut StatelessModel);
    assert_eq!(staged.scheduled, vec![0, 1]);
    assert_eq!(
        scheduler
            .running
            .iter()
            .map(|seq| seq.active_staged_speculative_len())
            .collect::<Vec<_>>(),
        vec![2, 2, 0]
    );

    let bootstrap = scheduler.schedule(&mut logger, &mut StatelessModel);
    assert_eq!(bootstrap.scheduled.len(), 1);
    assert_eq!(bootstrap.scheduled[0], 2);
    scheduler.running[2].set_staged_speculative(vec![12, 13]);

    let joined = scheduler.schedule(&mut logger, &mut StatelessModel);
    assert_eq!(joined.scheduled, vec![0, 1, 2]);
}

#[test]
fn lazy_prompt_admission_materializes_only_the_selected_chunk() {
    let mut scheduler = test_scheduler();
    scheduler.scheduler_visible_prompt_chunks = true;
    scheduler.config.max_num_batched_tokens = 8;
    scheduler.waiting.push(waiting_sequence(0, 32));
    let mut logger = PrefixCacheStats::new();

    let output = scheduler.schedule(&mut logger, &mut StatelessModel);

    assert_eq!(output.scheduled_prompt_chunks.unwrap()[0].end, 8);
    let kv_mgr = &scheduler.kv_cache_manager;
    assert_eq!(kv_mgr.num_blocks_for_request(0), 1);
    assert_eq!(kv_mgr.num_reserved_blocks(), 3);
    assert_eq!(kv_mgr.num_active_blocks() + kv_mgr.num_reserved_blocks(), 4);
}

#[test]
fn lazy_prompt_allocation_grows_with_each_chunk_frontier() {
    let mut scheduler = test_scheduler();
    scheduler.scheduler_visible_prompt_chunks = true;
    scheduler.config.max_num_batched_tokens = 8;
    scheduler.waiting.push(waiting_sequence(0, 24));
    let mut logger = PrefixCacheStats::new();

    let first = scheduler.schedule(&mut logger, &mut StatelessModel);
    let first_chunk = first.scheduled_prompt_chunks.unwrap()[0];
    let first_blocks = scheduler.kv_cache_manager.get_block_ids(0).unwrap();
    assert_eq!((first_chunk.start, first_chunk.end), (0, 8));
    assert_eq!(first_blocks.len(), 1);
    assert_eq!(scheduler.kv_cache_manager.num_reserved_blocks(), 2);

    set_computed(&mut scheduler, 0, first_chunk.end);
    assert_eq!(running(&scheduler, 0).prefix_cache_len, 0);
    let second = scheduler.schedule(&mut logger, &mut StatelessModel);
    let second_chunk = second.scheduled_prompt_chunks.unwrap()[0];
    let second_blocks = scheduler.kv_cache_manager.get_block_ids(0).unwrap();
    assert_eq!((second_chunk.start, second_chunk.end), (8, 16));
    assert_eq!(second_blocks.len(), 2);
    assert_eq!(&second_blocks[..first_blocks.len()], first_blocks);
    assert_eq!(scheduler.kv_cache_manager.num_reserved_blocks(), 1);
}

#[test]
fn lazy_prompt_reservation_pressure_preserves_decode_and_staged_validation() {
    let mut scheduler = scheduler_with(8, 8, 1, 8);
    scheduler.scheduler_visible_prompt_chunks = true;
    assert!(scheduler
        .kv_cache_manager
        .allocate_slots(0, 9, &vec![])
        .is_some());
    scheduler.running.push(decoding(0, 8, 8));

    scheduler.waiting.push(waiting_sequence(1, 48));
    scheduler.decode_steps_since_prefill = scheduler.config.max_decode_steps_before_prefill;
    let mut logger = PrefixCacheStats::new();
    let mut validator = RecordingPrefixValidator::default();

    let turn = scheduler.schedule_turn(&mut logger, &mut validator);

    assert_eq!(turn.output.scheduled.len(), 1);
    assert_eq!(turn.output.scheduled[0], 0);
    assert!(turn.preempted_sequence_ids.is_empty());
    assert_eq!(scheduler.waiting.len(), 1);
    assert_eq!(validator.validated_ids, vec![1]);
    assert!(validator.committed_ids.is_empty());
    assert!(!scheduler.kv_cache_manager.has_request(1));
    assert_eq!(scheduler.kv_cache_manager.num_reserved_blocks(), 0);
}

#[test]
fn canceling_lazy_prompt_releases_physical_and_reserved_blocks() {
    let mut scheduler = test_scheduler();
    scheduler.scheduler_visible_prompt_chunks = true;
    scheduler.config.max_num_batched_tokens = 8;
    let initial_free_blocks = scheduler.kv_cache_manager.num_free_blocks();
    scheduler.waiting.push(waiting_sequence(0, 32));
    let mut logger = PrefixCacheStats::new();

    let output = scheduler.schedule(&mut logger, &mut StatelessModel);
    let chunk_end = output.scheduled_prompt_chunks.unwrap()[0].end;
    set_computed(&mut scheduler, 0, chunk_end);
    assert_eq!(running(&scheduler, 0).prefix_cache_len, 0);
    assert_eq!(scheduler.kv_cache_manager.num_reserved_blocks(), 3);

    scheduler.cancel_closed_response_groups(&vec![0]);
    scheduler.free_finished_sequence_groups();

    let kv_mgr = &scheduler.kv_cache_manager;
    assert!(!kv_mgr.has_request(0));
    assert_eq!(kv_mgr.num_active_blocks(), 0);
    assert_eq!(kv_mgr.num_reserved_blocks(), 0);
    assert_eq!(kv_mgr.num_free_blocks(), initial_free_blocks);
}

#[test]
fn lazy_prompt_prefix_hit_pins_cache_and_materializes_only_the_suffix_chunk() {
    let mut scheduler = test_scheduler();
    scheduler.scheduler_visible_prompt_chunks = true;
    scheduler.config.max_num_batched_tokens = 4;
    let tokens = vec![1; 24];
    let hashes = compute_block_hashes(&tokens, scheduler.block_size, &vec![], &vec![]);
    scheduler
        .kv_cache_manager
        .allocate_slots(99, 8, &vec![])
        .unwrap();
    scheduler.kv_cache_manager.cache_blocks(99, &hashes, 8);
    scheduler.kv_cache_manager.free(99);

    scheduler.waiting.push(waiting_sequence(0, tokens.len()));
    let mut logger = PrefixCacheStats::new();
    let mut validator = RecordingPrefixValidator::default();

    let output = scheduler.schedule(&mut logger, &mut validator);

    assert_eq!(output.num_cached_tokens, vec![8]);
    let chunk = output.scheduled_prompt_chunks.unwrap()[0];
    assert_eq!((chunk.start, chunk.end), (8, 12));
    assert_eq!(validator.cached_tokens, vec![8]);
    assert_eq!(validator.committed_ids, vec![0]);
    assert_eq!(scheduler.kv_cache_manager.num_blocks_for_request(0), 2);
    assert_eq!(scheduler.kv_cache_manager.num_reserved_blocks(), 1);
    assert_eq!(scheduler.kv_cache_manager.num_cached_blocks(0), 1);

    set_computed(&mut scheduler, 0, chunk.end);
    assert_eq!(running(&scheduler, 0).prefix_cache_len, 8);
    let output = scheduler.schedule(&mut logger, &mut validator);
    assert_eq!(output.num_cached_tokens, vec![8]);
    let chunk = output.scheduled_prompt_chunks.unwrap()[0];
    assert_eq!((chunk.start, chunk.end), (12, 16));
    assert_eq!(running(&scheduler, 0).prefix_cache_len, 8);
}

#[test]
fn lazy_prompt_still_rejects_a_full_request_over_capacity() {
    let mut scheduler = scheduler_with(8, 8, 8, 4);
    scheduler.scheduler_visible_prompt_chunks = true;
    scheduler.waiting.push(waiting_sequence(0, 25));
    let mut logger = PrefixCacheStats::new();

    let output = scheduler.schedule(&mut logger, &mut StatelessModel);

    assert!(output.scheduled.is_empty());
    assert_eq!(
        output.rejected[0].sequence.getstate(),
        SequenceState::FinishedIgnored
    );
    assert!(matches!(
        output.rejected[0].reason,
        Rejection::ValidationError
    ));
    assert_eq!(scheduler.kv_cache_manager.num_active_blocks(), 0);
    assert_eq!(scheduler.kv_cache_manager.num_reserved_blocks(), 0);
}

#[test]
fn scheduler_visible_prefill_uses_exact_long_prompt_ranges() {
    let mut scheduler = test_scheduler();
    scheduler.scheduler_visible_prompt_chunks = true;
    scheduler.config.max_num_batched_tokens = 4;
    scheduler.waiting.push(waiting_sequence(0, 10));
    let mut logger = PrefixCacheStats::new();

    for expected in [(0, 4), (4, 8), (8, 10)] {
        let output = scheduler.schedule(&mut logger, &mut StatelessModel);
        let chunks = output.scheduled_prompt_chunks.unwrap();
        assert_eq!(output.scheduled.len(), 1);
        assert_eq!((chunks[0].start, chunks[0].end), expected);
        assert_eq!(chunks[0].end - chunks[0].start, expected.1 - expected.0);
        set_computed(&mut scheduler, 0, chunks[0].end);
        assert_eq!(running(&scheduler, 0).prefix_cache_len, 0);
    }
}

#[test]
fn hybrid_prefill_schedules_the_maximum_reusable_prefix_boundary() {
    let mut scheduler = test_scheduler();
    scheduler.scheduler_visible_prompt_chunks = true;
    scheduler.prompt_chunks_require_block_alignment = true;
    scheduler.config.max_num_batched_tokens = 32;
    scheduler.waiting.push(waiting_sequence(0, 64));
    let mut logger = PrefixCacheStats::new();

    for expected in [(0, 32), (32, 56), (56, 64)] {
        let output = scheduler.schedule(&mut logger, &mut StatelessModel);
        let chunks = output.scheduled_prompt_chunks.unwrap();
        assert_eq!(output.scheduled.len(), 1);
        assert_eq!((chunks[0].start, chunks[0].end), expected);
        set_computed(&mut scheduler, 0, chunks[0].end);
        assert_eq!(running(&scheduler, 0).prefix_cache_len, 0);
    }
}

#[test]
fn hybrid_prefill_schedules_the_suffix_replay_boundary() {
    let mut scheduler = test_scheduler();
    scheduler.scheduler_visible_prompt_chunks = true;
    scheduler.prompt_chunks_require_block_alignment = true;
    scheduler.prefix_policy =
        SpeculativePrefixCheckpointPolicy::new(SpeculativePrefixReplay::Suffix(16), false);
    scheduler.config.max_num_batched_tokens = 32;
    scheduler.waiting.push(waiting_sequence(0, 64));
    let mut logger = PrefixCacheStats::new();

    for expected in [(0, 32), (32, 40), (40, 64)] {
        let output = scheduler.schedule(&mut logger, &mut StatelessModel);
        let chunks = output.scheduled_prompt_chunks.unwrap();
        assert_eq!(output.scheduled.len(), 1);
        assert_eq!((chunks[0].start, chunks[0].end), expected);
        set_computed(&mut scheduler, 0, chunks[0].end);
        assert_eq!(running(&scheduler, 0).prefix_cache_len, 0);
    }
}

#[test]
fn text_auxiliary_policy_keeps_multimodal_suffix_replay() {
    let policy = SpeculativePrefixCheckpointPolicy::new(SpeculativePrefixReplay::Suffix(16), true);
    let mut logger = PrefixCacheStats::new();

    let mut text_scheduler = test_scheduler();
    text_scheduler.scheduler_visible_prompt_chunks = true;
    text_scheduler.prompt_chunks_require_block_alignment = true;
    text_scheduler.prefix_policy = policy;
    text_scheduler.config.max_num_batched_tokens = 32;
    text_scheduler.waiting.push(waiting_sequence(0, 64));
    let first = text_scheduler.schedule(&mut logger, &mut StatelessModel);
    let first_chunk = first.scheduled_prompt_chunks.unwrap()[0];
    set_computed(&mut text_scheduler, 0, first_chunk.end);
    let second = text_scheduler.schedule(&mut logger, &mut StatelessModel);
    assert_eq!(second.scheduled_prompt_chunks.unwrap()[0].end, 56);

    let mut media_scheduler = test_scheduler();
    media_scheduler.scheduler_visible_prompt_chunks = true;
    media_scheduler.prompt_chunks_require_block_alignment = true;
    media_scheduler.prefix_policy = policy;
    media_scheduler.config.max_num_batched_tokens = 32;
    let mut media = with_images(1, 64, 1);
    assert_eq!(
        policy.replay_for(modality_signature(&media)),
        SpeculativePrefixReplay::Suffix(16)
    );
    media.set_mm_features(vec![image_feature(0, 8)]);
    media.set_state(SequenceState::Waiting);
    media_scheduler.waiting.push(media);
    let first = media_scheduler.schedule(&mut logger, &mut StatelessModel);
    let first_chunk = first.scheduled_prompt_chunks.unwrap()[0];
    set_computed(&mut media_scheduler, 1, first_chunk.end);
    let second = media_scheduler.schedule(&mut logger, &mut StatelessModel);
    assert_eq!(second.scheduled_prompt_chunks.unwrap()[0].end, 40);
}

#[test]
fn partial_prefill_runs_after_the_decode_turn_budget() {
    let mut scheduler = test_scheduler();
    scheduler.scheduler_visible_prompt_chunks = true;
    scheduler.config.max_num_batched_tokens = 4;
    scheduler.config.max_decode_steps_before_prefill = 3;

    scheduler.running.push(decoding(0, 8, 8));
    scheduler.running.push(prompt(1, 12, 4));
    let mut logger = PrefixCacheStats::new();

    for _ in 0..scheduler.config.max_decode_steps_before_prefill {
        let output = scheduler.schedule(&mut logger, &mut StatelessModel);
        assert_eq!(output.scheduled.len(), 1);
        assert!(running(&scheduler, output.scheduled[0]).is_completion());
        assert!(output.scheduled_prompt_chunks.is_none());
    }

    let output = scheduler.schedule(&mut logger, &mut StatelessModel);
    assert_eq!(output.scheduled.len(), 1);
    assert!(running(&scheduler, output.scheduled[0]).is_prompt());
    let chunks = output.scheduled_prompt_chunks.unwrap();
    assert_eq!((chunks[0].start, chunks[0].end), (4, 8));
}

#[test]
fn partial_prefill_yields_to_decode_between_quanta() {
    let mut scheduler = test_scheduler();
    scheduler.scheduler_visible_prompt_chunks = true;
    scheduler.config.max_num_batched_tokens = 16;
    scheduler.config.max_prefill_chunk_tokens = 4;
    scheduler.config.max_decode_steps_before_prefill = 3;

    scheduler.running.push(decoding(0, 8, 8));
    scheduler.running.push(prompt(1, 12, 4));
    scheduler.decode_steps_since_prefill = scheduler.config.max_decode_steps_before_prefill;
    let mut logger = PrefixCacheStats::new();

    let prefill = scheduler.schedule(&mut logger, &mut StatelessModel);
    let chunks = prefill.scheduled_prompt_chunks.unwrap();
    assert_eq!((chunks[0].start, chunks[0].end), (4, 8));
    set_computed(&mut scheduler, 1, 8);

    let decode = scheduler.schedule(&mut logger, &mut StatelessModel);
    assert_eq!(decode.scheduled.len(), 1);
    assert_eq!(decode.scheduled[0], 0);
    assert!(decode.scheduled_prompt_chunks.is_none());
}

#[test]
fn unsupported_prompt_paths_remain_atomic() {
    let mut logger = PrefixCacheStats::new();

    let mut raw_scheduler = test_scheduler();
    raw_scheduler.scheduler_visible_prompt_chunks = true;
    raw_scheduler.config.max_num_batched_tokens = 4;
    let mut raw = waiting_sequence(0, 10);
    raw.return_raw_logits = true;
    raw_scheduler.waiting.push(raw);
    let raw_output = raw_scheduler.schedule(&mut logger, &mut StatelessModel);
    assert!(raw_output.scheduled_prompt_chunks.is_none());
    assert!(raw_output.prompt_chunk_size.is_none());
    assert_eq!(raw_scheduler.kv_cache_manager.num_blocks_for_request(0), 2);
    assert_eq!(raw_scheduler.kv_cache_manager.num_reserved_blocks(), 0);

    let mut media_scheduler = test_scheduler();
    media_scheduler.scheduler_visible_prompt_chunks = true;
    media_scheduler.config.max_num_batched_tokens = 4;
    let mut media = with_images(1, 10, 1);
    media.set_state(SequenceState::Waiting);
    media_scheduler.waiting.push(media);
    let media_output = media_scheduler.schedule(&mut logger, &mut StatelessModel);
    assert!(media_output.scheduled_prompt_chunks.is_none());
    assert!(media_output.prompt_chunk_size.is_none());
    assert_eq!(media_scheduler.kv_cache_manager.num_blocks_for_request(1), 2);
    assert_eq!(media_scheduler.kv_cache_manager.num_reserved_blocks(), 0);
}

#[test]
fn decode_step_takes_blocks_from_the_last_sequence() {
    let mut scheduler = scheduler_with(4096, 4096, 8, 4);
    for id in 0..3 {
        assert!(scheduler
            .kv_cache_manager
            .allocate_slots(id, 8, &vec![])
            .is_some());
        scheduler.running.push(decoding(id, 8, 8));
    }
    let mut logger = PrefixCacheStats::new();
    let turn = scheduler.schedule_turn(&mut logger, &mut StatelessModel);
    assert_eq!(turn.output.scheduled, vec![0]);
    assert_eq!(turn.preempted_sequence_ids, vec![2, 1]);
    assert_eq!(scheduler.running.len(), 1);
    assert_eq!(
        scheduler.waiting.iter().map(|s| s.id()).collect::<Vec<_>>(),
        vec![1, 2]
    );
}

#[test]
fn lone_sequence_without_room_gives_up_its_place() {
    let mut scheduler = scheduler_with(4096, 4096, 8, 2);
    assert!(scheduler
        .kv_cache_manager
        .allocate_slots(0, 8, &vec![])
        .is_some());
    scheduler.running.push(decoding(0, 8, 8));
    let mut logger = PrefixCacheStats::new();
    let output = scheduler.schedule(&mut logger, &mut StatelessModel);
    assert!(output.scheduled.is_empty());
    assert_eq!(scheduler.waiting.len(), 1);
    assert!(!scheduler.kv_cache_manager.has_request(0));
}

#[test]
fn turns_lose_no_sequence() {
    let mut scheduler = scheduler_with(16, 8, 2, 12);
    scheduler.scheduler_visible_prompt_chunks = true;
    for id in 0..10 {
        scheduler.waiting.push(waiting_sequence(id, 3 + 7 * id));
    }
    scheduler.waiting.push(waiting_sequence(10, 500));
    let mut logger = PrefixCacheStats::new();
    let mut gone = Vec::new();
    for _ in 0..40 {
        let output = scheduler.schedule(&mut logger, &mut StatelessModel);
        gone.extend(output.rejected.iter().map(|r| r.sequence.id()));
        for id in &output.scheduled {
            assert!(scheduler.running.iter().any(|seq| seq.id() == *id));
        }
        if let Some(chunks) = &output.scheduled_prompt_chunks {
            for (id, chunk) in output.scheduled.iter().zip(chunks) {
                set_computed(&mut scheduler, *id, chunk.end);
            }
        }
        let mut everyone = scheduler.running.iter().map(|s| s.id()).collect::<Vec<_>>();
        everyone.extend(scheduler.waiting.iter().map(|s| s.id()));
        everyone.extend(gone.iter().copied());
        everyone.sort();
        assert_eq!(everyone, (0..11).collect::<Vec<_>>());
        assert!(scheduler.running.len() <= 8);
    }
}

#[test]
fn stateless_models_admit_alike() {
    let turns = || {
        let mut scheduler = scheduler_with(64, 16, 2, 12);
        scheduler.waiting.push(waiting_sequence(6, 500));
        for id in 0..6 {
            scheduler.waiting.push(waiting_sequence(id, 5 + 9 * id));
        }
        let mut logger = PrefixCacheStats::new();
        let mut seen = Vec::new();
        for _ in 0..10 {
            let output = scheduler.schedule(&mut logger, &mut StatelessModel);
            let refused = output.rejected.iter().map(|r| r.sequence.id());
            seen.push((refused.collect::<Vec<_>>(), output.scheduled.clone()));
        }
        seen
    };
    let seen = turns();
    assert_eq!(seen[0].0, vec![6]);
    assert_eq!(seen, turns());
}

#[test]
fn partial_validation_shortens_the_prefix() {
    struct HalfValidator;
    impl PagedPrefixCacheValidator for HalfValidator {
        fn validate_prefix_cache_hit(
            &mut self,
            _seq: &Sequence,
            _block_hashes: &Vec<u64>,
            cached_tokens: usize,
            _block_size: usize,
        ) -> Result<usize, String> {
            assert_eq!(cached_tokens, 16);
            Ok(11)
        }
        fn commit_prefix_cache_hit(&mut self, _: &Sequence, cached: usize) -> Result<(), String> {
            assert_eq!(cached, 8);
            Ok(())
        }
        fn release_recurrent_state(&mut self, _: usize, _: usize) -> Result<bool, String> {
            Ok(false)
        }
    }
    let mut scheduler = test_scheduler();
    let tokens = vec![1; 24];
    let hashes = compute_block_hashes(&tokens, 8, &vec![], &vec![]);
    scheduler
        .kv_cache_manager
        .allocate_slots(99, 24, &vec![])
        .unwrap();
    scheduler.kv_cache_manager.cache_blocks(99, &hashes, 24);
    scheduler.kv_cache_manager.free(99);
    scheduler.waiting.push(waiting_sequence(0, 24));
    let mut logger = PrefixCacheStats::new();
    let output = scheduler.schedule(&mut logger, &mut HalfValidator);
    assert_eq!(output.num_cached_tokens, vec![8]);
}
