//! Whose turn it is: prompts or sequences that decode.

use vstd::prelude::*;

use crate::paged_attention::decode_plan::{
    next_cursor, plan_step, step_ids, DecodeConfig, DecodeRow, DecodeStep,
};
use crate::paged_attention::kv_cache_manager::total_reserved;
use crate::paged_attention::prompt_plan::{
    all_wf, lemma_turn, plan_batch, rotate, rotated, turn, PlanConfig, PromptBatch, PromptInfo,
};
use crate::paged_attention::scheduler::PagedAttentionScheduler;
use crate::paged_attention::sequence::{
    Sequence, SequenceState, SpeculativePrefixCheckpointPolicy,
};

verus! {

/// Whether some sequence decodes.
pub open spec fn has_completion(sequences: Seq<Sequence>) -> bool {
    exists|i: int|
        0 <= i < sequences.len() && (#[trigger] sequences[i]).state
            == SequenceState::RunningCompletion
}

/// Whether some sequence has its prompt computed.
pub open spec fn has_prompt(sequences: Seq<Sequence>) -> bool {
    exists|i: int|
        0 <= i < sequences.len() && (#[trigger] sequences[i]).state == SequenceState::RunningPrompt
}

/// Whether some sequence is finished.
pub open spec fn has_finished(sequences: Seq<Sequence>) -> bool {
    exists|i: int| 0 <= i < sequences.len() && (#[trigger] sequences[i]).state.finished()
}

/// The tokens that are still to be computed of the running prompts.
pub open spec fn remaining(sequences: Seq<Sequence>) -> int
    decreases sequences.len(),
{
    if sequences.len() == 0 {
        0
    } else {
        remaining(sequences.drop_last()) + (if sequences.last().state
            == SequenceState::RunningPrompt {
            sequences.last().length() - sequences.last().frontier()
        } else {
            0
        })
    }
}

/// The sequences that decode, as planning sees them.
pub open spec fn rows_of(sequences: Seq<Sequence>) -> Seq<DecodeRow>
    decreases sequences.len(),
{
    if sequences.len() == 0 {
        Seq::empty()
    } else {
        let before = rows_of(sequences.drop_last());
        if sequences.last().state == SequenceState::RunningCompletion {
            before.push(
                DecodeRow {
                    id: sequences.last().id,
                    staged: sequences.last().staged_speculative@.len() as usize,
                },
            )
        } else {
            before
        }
    }
}

/// What planning needs to know of prompts.
pub open spec fn infos_of(
    sequences: Seq<Sequence>,
    policy: SpeculativePrefixCheckpointPolicy,
) -> Seq<PromptInfo> {
    Seq::new(sequences.len(), |i: int| sequences[i].prompt(policy))
}

/// Whether some sequence decodes.
pub fn find_completion(sequences: &Vec<Sequence>) -> (r: bool)
    ensures
        r == has_completion(sequences@),
{
    let n: usize = sequences.len();
    let mut i: usize = 0;
    while i < n
        invariant
            i <= n == sequences@.len(),
            forall|j: int|
                0 <= j < i ==> (#[trigger] sequences@[j]).state != SequenceState::RunningCompletion,
        decreases n - i,
    {
        if sequences[i].is_completion() {
            assert(sequences@[i as int].state == SequenceState::RunningCompletion);
            return true;
        }
        i += 1;
    }
    false
}

fn find_prompt(sequences: &Vec<Sequence>) -> (r: bool)
    ensures
        r == has_prompt(sequences@),
{
    let n: usize = sequences.len();
    let mut i: usize = 0;
    while i < n
        invariant
            i <= n == sequences@.len(),
            forall|j: int|
                0 <= j < i ==> (#[trigger] sequences@[j]).state != SequenceState::RunningPrompt,
        decreases n - i,
    {
        if sequences[i].is_prompt() {
            assert(sequences@[i as int].state == SequenceState::RunningPrompt);
            return true;
        }
        i += 1;
    }
    false
}

fn find_finished(sequences: &Vec<Sequence>) -> (r: bool)
    ensures
        r == has_finished(sequences@),
{
    let n: usize = sequences.len();
    let mut i: usize = 0;
    while i < n
        invariant
            i <= n == sequences@.len(),
            forall|j: int| 0 <= j < i ==> !(#[trigger] sequences@[j]).state.finished(),
        decreases n - i,
    {
        if sequences[i].state.is_finished() {
            assert(sequences@[i as int].state.finished());
            return true;
        }
        i += 1;
    }
    false
}

proof fn lemma_remaining_grows(sequences: Seq<Sequence>, k: int)
    requires
        0 <= k <= sequences.len(),
    ensures
        0 <= remaining(sequences.take(k)) <= remaining(sequences),
    decreases sequences.len(),
{
    if k == sequences.len() {
        assert(sequences.take(k) =~= sequences);
        if k > 0 {
            lemma_remaining_grows(sequences.drop_last(), k - 1);
        }
    } else {
        assert(sequences.drop_last().take(k) =~= sequences.take(k));
        lemma_remaining_grows(sequences.drop_last(), k);
    }
}

fn remaining_within(sequences: &Vec<Sequence>, budget: usize) -> (r: bool)
    ensures
        r == (remaining(sequences@) <= budget),
{
    let n: usize = sequences.len();
    let mut left: usize = budget;
    let mut i: usize = 0;
    assert(sequences@.take(0) =~= Seq::<Sequence>::empty());
    while i < n
        invariant
            i <= n == sequences@.len(),
            left == budget - remaining(sequences@.take(i as int)),
        decreases n - i,
    {
        proof {
            assert(sequences@.take(i + 1).drop_last() =~= sequences@.take(i as int));
            lemma_remaining_grows(sequences@, i + 1);
        }
        if sequences[i].is_prompt() {
            let tokens: usize = sequences[i].len() - sequences[i].next_token();
            if tokens > left {
                return false;
            }
            left = left - tokens;
        }
        i += 1;
    }
    assert(sequences@.take(n as int) =~= sequences@);
    true
}

fn list_rows(sequences: &Vec<Sequence>) -> (r: Vec<DecodeRow>)
    ensures
        r@ == rows_of(sequences@),
{
    let n: usize = sequences.len();
    let mut r: Vec<DecodeRow> = Vec::new();
    let mut i: usize = 0;
    assert(sequences@.take(0) =~= Seq::<Sequence>::empty());
    while i < n
        invariant
            i <= n == sequences@.len(),
            r@ == rows_of(sequences@.take(i as int)),
        decreases n - i,
    {
        assert(sequences@.take(i + 1).drop_last() =~= sequences@.take(i as int));
        if sequences[i].is_completion() {
            let staged: usize = sequences[i].active_staged_speculative_len();
            r.push(DecodeRow { id: sequences[i].id, staged });
        }
        i += 1;
    }
    assert(sequences@.take(n as int) =~= sequences@);
    r
}

/// What planning needs to know of prompts.
pub fn prompt_infos(
    sequences: &Vec<Sequence>,
    policy: &SpeculativePrefixCheckpointPolicy,
) -> (r: Vec<PromptInfo>)
    ensures
        r@ == infos_of(sequences@, *policy),
        all_wf(r@),
{
    let n: usize = sequences.len();
    let mut r: Vec<PromptInfo> = Vec::with_capacity(n);
    let mut i: usize = 0;
    while i < n
        invariant
            i <= n == sequences@.len(),
            r@ == infos_of(sequences@, *policy).take(i as int),
            all_wf(r@),
        decreases n - i,
    {
        r.push(sequences[i].prompt_info(policy));
        i += 1;
        assert(r@ =~= infos_of(sequences@, *policy).take(i as int));
    }
    assert(r@ =~= infos_of(sequences@, *policy));
    r
}

fn same_ids(a: &Vec<usize>, b: &Vec<usize>) -> (r: bool)
    ensures
        r == (a@ == b@),
{
    if a.len() != b.len() {
        return false;
    }
    let n: usize = a.len();
    let mut i: usize = 0;
    while i < n
        invariant
            i <= n == a@.len() == b@.len(),
            forall|j: int| 0 <= j < i ==> a@[j] == b@[j],
        decreases n - i,
    {
        if a[i] != b[i] {
            return false;
        }
        i += 1;
    }
    assert(a@ =~= b@);
    true
}

impl PagedAttentionScheduler {
    /// The tokens that a batch of prompts may compute. Beside sequences that decode,
    /// prompts that are cut take less, unless they came in before.
    pub open spec fn prefill_budget(&self, mixed: bool) -> usize {
        if mixed && self.scheduler_visible_prompt_chunks && !self.prompt_admission_epoch
            && self.config.max_prefill_chunk_tokens < self.config.max_num_batched_tokens {
            self.config.max_prefill_chunk_tokens
        } else {
            self.config.max_num_batched_tokens
        }
    }

    /// The tokens that a batch of prompts may compute.
    pub fn prefill_token_budget(&self, mixed: bool) -> (r: usize)
        ensures
            r == self.prefill_budget(mixed),
    {
        if mixed && self.scheduler_visible_prompt_chunks && !self.prompt_admission_epoch
            && self.config.max_prefill_chunk_tokens < self.config.max_num_batched_tokens {
            self.config.max_prefill_chunk_tokens
        } else {
            self.config.max_num_batched_tokens
        }
    }

    /// The tokens that each of `n` prompts gets of the budget: at least one.
    pub fn prompt_chunk_size(&self, n: usize, mixed: bool) -> (r: Option<usize>)
        ensures
            match r {
                None => n == 0,
                Some(size) => n > 0 && size == (if self.prefill_budget(mixed) / n > 0 {
                    self.prefill_budget(mixed) / n
                } else {
                    1
                }),
            },
    {
        if n == 0 {
            return None;
        }
        let part: usize = self.prefill_token_budget(mixed) / n;
        if part > 0 {
            Some(part)
        } else {
            Some(1)
        }
    }

    /// Whether prompts run or wait.
    pub open spec fn prompts_pending(&self) -> bool {
        has_prompt(self.running@) || self.waiting@.len() > 0
    }

    /// The decode steps that come between two batches of prompts: one, if all that
    /// remains of the running prompts fits in one batch, or waiting ones find room.
    pub open spec fn turns_before_prefill(&self) -> usize {
        if self.prompt_admission_epoch {
            1
        } else if has_prompt(self.running@) {
            if remaining(self.running@) <= self.prefill_budget(true) {
                1
            } else {
                self.config.max_decode_steps_before_prefill
            }
        } else if self.running@.len() < self.config.max_num_seqs {
            1
        } else {
            self.config.max_decode_steps_before_prefill
        }
    }

    /// Whether the next turn is one of sequences that decode.
    pub open spec fn decode_is_due(&self) -> bool {
        has_completion(self.running@) && (!self.prompts_pending()
            || self.decode_steps_since_prefill < self.turns_before_prefill())
    }

    fn required_turns(&self) -> (r: usize)
        ensures
            r == self.turns_before_prefill(),
    {
        if self.prompt_admission_epoch {
            return 1;
        }
        if find_prompt(&self.running) {
            if remaining_within(&self.running, self.prefill_token_budget(true)) {
                1
            } else {
                self.config.max_decode_steps_before_prefill
            }
        } else if self.running.len() < self.config.max_num_seqs {
            1
        } else {
            self.config.max_decode_steps_before_prefill
        }
    }

    /// Whether the next turn is one of sequences that decode.
    pub fn completion_is_due(&self) -> (r: bool)
        ensures
            r == self.decode_is_due(),
    {
        if !find_completion(&self.running) {
            return false;
        }
        let pending: bool = find_prompt(&self.running) || self.waiting.len() > 0;
        !pending || self.decode_steps_since_prefill < self.required_turns()
    }

    /// Whether prompts may use the whole budget from now on. This begins where prompts
    /// are pending and nothing decodes, and ends when none is pending and a decode step
    /// was made or nothing decodes.
    pub open spec fn epoch_after(&self) -> bool {
        if !has_completion(self.running@) && self.prompts_pending() {
            true
        } else if !self.prompts_pending() && (self.decode_steps_since_prefill > 0
            || !has_completion(self.running@)) {
            false
        } else {
            self.prompt_admission_epoch
        }
    }

    /// Notes whether prompts may use the whole budget from now on.
    pub fn update_prompt_admission_epoch(&mut self)
        ensures
            *final(self) == (PagedAttentionScheduler {
                prompt_admission_epoch: old(self).epoch_after(),
                ..*old(self)
            }),
    {
        let decodes: bool = find_completion(&self.running);
        let pending: bool = find_prompt(&self.running) || self.waiting.len() > 0;
        if !decodes && pending {
            self.prompt_admission_epoch = true;
        } else if !pending && (self.decode_steps_since_prefill > 0 || !decodes) {
            self.prompt_admission_epoch = false;
        }
    }

    /// What a batch of prompts is planned by.
    pub open spec fn plan_config(&self) -> PlanConfig {
        let mixed = has_completion(self.running@);
        PlanConfig {
            budget: self.prefill_budget(mixed),
            quantum: self.config.max_prefill_chunk_tokens,
            max_num_seqs: self.config.max_num_seqs,
            block_size: self.block_size,
            mixed,
            visible_chunks: self.scheduler_visible_prompt_chunks,
            aligned: self.prompt_chunks_require_block_alignment,
            prefix_caching: self.prefix_caching_enabled,
            packed: self.supports_packed_prefill,
            recurrent: self.prefill_has_per_sequence_state,
            uniform: self.requires_uniform_prompt_batch,
            uniform_media: self.requires_uniform_media_batch,
        }
    }

    pub fn planning(&self) -> (r: PlanConfig)
        ensures
            r == self.plan_config(),
    {
        let mixed: bool = find_completion(&self.running);
        PlanConfig {
            budget: self.prefill_token_budget(mixed),
            quantum: self.config.max_prefill_chunk_tokens,
            max_num_seqs: self.config.max_num_seqs,
            block_size: self.block_size,
            mixed,
            visible_chunks: self.scheduler_visible_prompt_chunks,
            aligned: self.prompt_chunks_require_block_alignment,
            prefix_caching: self.prefix_caching_enabled,
            packed: self.supports_packed_prefill,
            recurrent: self.prefill_has_per_sequence_state,
            uniform: self.requires_uniform_prompt_batch,
            uniform_media: self.requires_uniform_media_batch,
        }
    }

    /// The batch is the next one planned out of the given prompts, and the turn then goes
    /// to the first one that it leaves out.
    pub open spec fn selects(
        &self,
        after: &Self,
        infos: Seq<PromptInfo>,
        batch: PromptBatch,
    ) -> bool {
        &&& batch.is_planned(self.plan_config(), rotated(infos, self.next_prompt_sequence_id))
        &&& *after == (PagedAttentionScheduler { next_prompt_sequence_id: batch.next, ..*self })
    }

    /// Plans the next batch out of the given prompts, and whose turn comes then.
    pub fn select_prompt_batch(&mut self, candidates: &Vec<Sequence>) -> (r: PromptBatch)
        requires
            old(self).block_size > 0,
        ensures
            old(self).selects(
                final(self),
                infos_of(candidates@, old(self).prefix_policy),
                r,
            ),
    {
        let infos: Vec<PromptInfo> = prompt_infos(candidates, &self.prefix_policy);
        self.select_batch(&infos)
    }

    /// Plans the next batch out of the given prompts, and whose turn comes then.
    pub fn select_batch(&mut self, infos: &Vec<PromptInfo>) -> (r: PromptBatch)
        requires
            old(self).block_size > 0,
            all_wf(infos@),
        ensures
            old(self).selects(final(self), infos@, r),
    {
        let cfg: PlanConfig = self.planning();
        let ordered: Vec<PromptInfo> = rotate(infos, self.next_prompt_sequence_id);
        assert(all_wf(ordered@)) by {
            assert forall|i: int| 0 <= i < ordered@.len() implies (#[trigger] ordered@[i]).wf() by {
                let s = turn(infos@, self.next_prompt_sequence_id);
                lemma_turn(infos@, self.next_prompt_sequence_id);
                if i < infos@.len() - s {
                    assert(ordered@[i] == infos@[s + i]);
                } else {
                    assert(ordered@[i] == infos@[i - (infos@.len() - s)]);
                }
            }
        }
        let batch: PromptBatch = plan_batch(&cfg, &ordered);
        self.next_prompt_sequence_id = batch.next;
        batch
    }

    /// What a decode step is planned by.
    pub open spec fn decode_config(&self) -> DecodeConfig {
        DecodeConfig {
            budget: self.config.max_num_batched_tokens,
            max_num_seqs: self.config.max_num_seqs,
        }
    }

    /// The sequences of the next decode step.
    pub open spec fn next_step_ids(&self) -> Seq<usize> {
        step_ids(self.decode_config(), rows_of(self.running@), self.completion_cursor as int)
    }

    /// Plans the next decode step.
    pub fn plan_decode_step(&self) -> (r: DecodeStep)
        ensures
            r.ids@ == self.next_step_ids(),
            r.next_cursor == next_cursor(
                self.decode_config(),
                rows_of(self.running@),
                self.completion_cursor as int,
            ),
    {
        let rows: Vec<DecodeRow> = list_rows(&self.running);
        let cfg: DecodeConfig = DecodeConfig {
            budget: self.config.max_num_batched_tokens,
            max_num_seqs: self.config.max_num_seqs,
        };
        plan_step(&cfg, &rows, self.completion_cursor)
    }

    /// Whether a prompt could run: one runs, or there is cache for the first that
    /// waits.
    pub open spec fn backlog_is_admissible(&self) -> bool {
        has_prompt(self.running@) || (self.waiting@.len() > 0 && self.kv_cache_manager@.blocks_for(
            self.waiting@[0].length(),
        ) + total_reserved(self.kv_cache_manager@.requests) <= self.kv_cache_manager@.free.len())
    }

    /// Whether decoding goes on with the same sequences without another look at the
    /// queues: the next step is theirs, none of them is finished, none is about to be
    /// ended, and no prompt that could run has waited long enough.
    pub open spec fn may_continue(&self, ids: Seq<usize>, pending_termination: bool) -> bool {
        &&& !pending_termination
        &&& !has_finished(self.running@)
        &&& ids == self.next_step_ids()
        &&& self.decode_steps_since_prefill < self.turns_before_prefill()
            || !self.backlog_is_admissible()
    }

    /// Whether decoding goes on with the same sequences.
    pub fn can_continue_decode_batch_inner(
        &self,
        ids: &Vec<usize>,
        pending_termination: bool,
    ) -> (r: bool)
        requires
            self.kv_cache_manager.wf(),
        ensures
            r == self.may_continue(ids@, pending_termination),
    {
        if pending_termination || find_finished(&self.running) {
            return false;
        }
        let step: DecodeStep = self.plan_decode_step();
        if !same_ids(ids, &step.ids) {
            return false;
        }
        if self.decode_steps_since_prefill < self.required_turns() {
            return true;
        }
        let admissible: bool = if find_prompt(&self.running) {
            true
        } else if self.waiting.len() > 0 {
            self.kv_cache_manager.has_room_for(self.waiting[0].len())
        } else {
            false
        };
        !admissible
    }

    /// Whether decoding goes on with the same sequences.
    pub fn can_continue_decode_batch(&self, ids: &Vec<usize>) -> (r: bool)
        requires
            self.kv_cache_manager.wf(),
        ensures
            r == self.may_continue(ids@, false),
    {
        self.can_continue_decode_batch_inner(ids, false)
    }

    /// Notes that decoding went on by one step.
    pub fn record_decode_continuation(&mut self)
        ensures
            final(self).completion_cursor == next_cursor(
                old(self).decode_config(),
                rows_of(old(self).running@),
                old(self).completion_cursor as int,
            ),
            final(self).decode_steps_since_prefill == (if old(self).decode_steps_since_prefill
                < usize::MAX {
                old(self).decode_steps_since_prefill + 1
            } else {
                usize::MAX as int
            }),
            *final(self) == (PagedAttentionScheduler {
                completion_cursor: final(self).completion_cursor,
                decode_steps_since_prefill: final(self).decode_steps_since_prefill,
                ..*old(self)
            }),
    {
        let step: DecodeStep = self.plan_decode_step();
        self.completion_cursor = step.next_cursor;
        if self.decode_steps_since_prefill < usize::MAX {
            self.decode_steps_since_prefill = self.decode_steps_since_prefill + 1;
        }
    }
}

} // verus!
