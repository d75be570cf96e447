//! The scheduler: which sequences run next, and who holds the cache meanwhile.

use std::collections::HashMap;

use vstd::prelude::*;

use crate::paged_attention::block_hash::features_fit;
use crate::paged_attention::kv_cache_manager::{KvCacheManager, RequestState};
use crate::paged_attention::sequence::{
    Sequence, SpeculativePrefixCheckpointPolicy, SpeculativePrefixReplay,
};

pub mod admission;
pub mod batches;
pub mod block_laws;
pub mod hashes;
pub mod laws;
pub mod schedule;
pub mod steps;
pub mod turn_laws;
pub mod turns;

verus! {

/// The limits that the scheduler works within.
#[derive(Debug, Clone, Copy, PartialEq, Eq, Structural)]
pub struct PagedAttentionSchedulerConfig {
    pub max_num_seqs: usize,
    /// The tokens that one batch may compute.
    pub max_num_batched_tokens: usize,
    /// The tokens that prompts may take of a batch while others decode.
    pub max_prefill_chunk_tokens: usize,
    /// The decode steps that waiting prompts put up with.
    pub max_decode_steps_before_prefill: usize,
}

/// The size of the cache.
#[derive(Debug, Clone, Copy, PartialEq, Eq, Structural)]
pub struct CacheConfig {
    pub block_size: usize,
    pub num_gpu_blocks: usize,
}

/// The scheduler.
pub struct PagedAttentionScheduler {
    pub config: PagedAttentionSchedulerConfig,
    pub block_size: usize,
    pub running: Vec<Sequence>,
    pub waiting: Vec<Sequence>,
    /// How often a waiting prompt found too little cache.
    pub waiting_counts: HashMap<usize, usize>,
    pub seq_block_hashes: HashMap<usize, Vec<u64>>,
    pub seq_block_hash_revisions: HashMap<usize, usize>,
    pub kv_cache_manager: KvCacheManager,
    pub requires_uniform_completion_batch: bool,
    pub requires_uniform_prompt_batch: bool,
    pub requires_uniform_media_batch: bool,
    pub supports_packed_prefill: bool,
    pub scheduler_visible_prompt_chunks: bool,
    pub prompt_chunks_require_block_alignment: bool,
    pub prefill_has_per_sequence_state: bool,
    pub prefix_caching_enabled: bool,
    pub prefix_policy: SpeculativePrefixCheckpointPolicy,
    pub waiting_prompt_preemption_enabled: bool,
    /// Whether prompts came in while nothing decoded: they may then use the whole
    /// token budget, and wait for one decode step only.
    pub prompt_admission_epoch: bool,
    pub decode_steps_since_prefill: usize,
    /// Whose turn it is among the sequences that decode.
    pub completion_cursor: usize,
    /// Whose turn it is among the prompts.
    pub next_prompt_sequence_id: Option<usize>,
    /// The sequences that gave up their cache since this was last asked for.
    pub preempted_sequence_ids: Vec<usize>,
}

/// Every feature of every sequence ends within a machine word.
pub open spec fn all_features_fit(sequences: Seq<Sequence>) -> bool {
    forall|i: int|
        0 <= i < sequences.len() ==> features_fit((#[trigger] sequences[i]).mm_features@)
}

impl PagedAttentionScheduler {
    /// What holds between any two calls.
    pub open spec fn wf(&self) -> bool {
        &&& self.block_size > 0
        &&& self.kv_cache_manager.wf()
        &&& all_features_fit(self.running@)
        &&& all_features_fit(self.waiting@)
    }

    /// The settings are those of `other`.
    pub open spec fn same_settings(&self, other: &Self) -> bool {
        &&& self.config == other.config
        &&& self.block_size == other.block_size
        &&& self.requires_uniform_completion_batch == other.requires_uniform_completion_batch
        &&& self.requires_uniform_prompt_batch == other.requires_uniform_prompt_batch
        &&& self.requires_uniform_media_batch == other.requires_uniform_media_batch
        &&& self.supports_packed_prefill == other.supports_packed_prefill
        &&& self.scheduler_visible_prompt_chunks == other.scheduler_visible_prompt_chunks
        &&& self.prompt_chunks_require_block_alignment
            == other.prompt_chunks_require_block_alignment
        &&& self.prefill_has_per_sequence_state == other.prefill_has_per_sequence_state
        &&& self.prefix_caching_enabled == other.prefix_caching_enabled
        &&& self.prefix_policy == other.prefix_policy
        &&& self.waiting_prompt_preemption_enabled == other.waiting_prompt_preemption_enabled
    }

    /// All but the queues and the cache is as in `other`.
    pub open spec fn differs_in_queues(&self, other: &Self) -> bool {
        &&& self.same_settings(other)
        &&& self.prompt_admission_epoch == other.prompt_admission_epoch
        &&& self.decode_steps_since_prefill == other.decode_steps_since_prefill
        &&& self.completion_cursor == other.completion_cursor
        &&& self.next_prompt_sequence_id == other.next_prompt_sequence_id
    }

    /// All but what is kept in the cache is as in `other`.
    pub open spec fn differs_in_cache(&self, other: &Self) -> bool {
        &&& self.differs_in_queues(other)
        &&& self.running == other.running
        &&& self.waiting == other.waiting
        &&& self.preempted_sequence_ids == other.preempted_sequence_ids
    }

    /// A scheduler with nothing to do.
    pub fn new(config: PagedAttentionSchedulerConfig, cache_config: CacheConfig) -> (r: Self)
        requires
            cache_config.block_size > 0,
            cache_config.num_gpu_blocks > 0,
        ensures
            r.wf(),
            r.config == config,
            r.block_size == cache_config.block_size,
            r.running@.len() == 0,
            r.waiting@.len() == 0,
            r.waiting_counts@ == Map::<usize, usize>::empty(),
            r.seq_block_hashes@ == Map::<usize, Vec<u64>>::empty(),
            r.seq_block_hash_revisions@ == Map::<usize, usize>::empty(),
            r.kv_cache_manager@.block_size == cache_config.block_size,
            r.kv_cache_manager@.hashes == Seq::new(
                cache_config.num_gpu_blocks as nat,
                |b: int| None::<u64>,
            ),
            r.kv_cache_manager@.free == Seq::new(
                (cache_config.num_gpu_blocks - 1) as nat,
                |i: int| (i + 1) as usize,
            ),
            r.kv_cache_manager@.requests == Seq::<RequestState>::empty(),
            !r.requires_uniform_completion_batch,
            r.requires_uniform_prompt_batch,
            !r.requires_uniform_media_batch,
            !r.supports_packed_prefill,
            !r.scheduler_visible_prompt_chunks,
            !r.prompt_chunks_require_block_alignment,
            !r.prefill_has_per_sequence_state,
            r.prefix_caching_enabled,
            r.prefix_policy.replay == SpeculativePrefixReplay::Nothing,
            !r.prefix_policy.text_is_exempt,
            r.waiting_prompt_preemption_enabled,
            !r.prompt_admission_epoch,
            r.decode_steps_since_prefill == 0,
            r.completion_cursor == 0,
            r.next_prompt_sequence_id is None,
            r.preempted_sequence_ids@.len() == 0,
    {
        PagedAttentionScheduler {
            config,
            block_size: cache_config.block_size,
            running: Vec::new(),
            waiting: Vec::new(),
            waiting_counts: HashMap::new(),
            seq_block_hashes: HashMap::new(),
            seq_block_hash_revisions: HashMap::new(),
            kv_cache_manager: KvCacheManager::new(
                cache_config.block_size,
                cache_config.num_gpu_blocks,
            ),
            requires_uniform_completion_batch: false,
            requires_uniform_prompt_batch: true,
            requires_uniform_media_batch: false,
            supports_packed_prefill: false,
            scheduler_visible_prompt_chunks: false,
            prompt_chunks_require_block_alignment: false,
            prefill_has_per_sequence_state: false,
            prefix_caching_enabled: true,
            prefix_policy: SpeculativePrefixCheckpointPolicy::default(),
            waiting_prompt_preemption_enabled: true,
            prompt_admission_epoch: false,
            decode_steps_since_prefill: 0,
            completion_cursor: 0,
            next_prompt_sequence_id: None,
            preempted_sequence_ids: Vec::new(),
        }
    }

    /// Turns the reuse of cached prefixes on or off.
    pub fn set_prefix_caching_enabled_sync(&mut self, enabled: bool)
        ensures
            *final(self) == (Self { prefix_caching_enabled: enabled, ..*old(self) }),
    {
        self.prefix_caching_enabled = enabled;
    }

    /// Allows or forbids waiting prompts to take the cache of sequences that decode.
    pub fn set_waiting_prompt_preemption_enabled(&mut self, enabled: bool)
        ensures
            *final(self) == (Self { waiting_prompt_preemption_enabled: enabled, ..*old(self) }),
    {
        self.waiting_prompt_preemption_enabled = enabled;
    }

    /// Says whether prompts are computed in parts, whether these end at block
    /// boundaries, and what is computed again after a cache hit.
    pub fn set_scheduler_visible_prompt_chunks(
        &mut self,
        visible: bool,
        aligned: bool,
        policy: SpeculativePrefixCheckpointPolicy,
    )
        ensures
            *final(self) == (Self {
                scheduler_visible_prompt_chunks: visible,
                prompt_chunks_require_block_alignment: aligned,
                prefix_policy: policy,
                ..*old(self)
            }),
    {
        self.scheduler_visible_prompt_chunks = visible;
        self.prompt_chunks_require_block_alignment = aligned;
        self.prefix_policy = policy;
    }

    /// Gives the next turn among the prompts to a sequence.
    pub fn defer_prompt_tail(&mut self, id: usize)
        ensures
            *final(self) == (Self { next_prompt_sequence_id: Some(id), ..*old(self) }),
    {
        self.next_prompt_sequence_id = Some(id);
    }
}

} // verus!
