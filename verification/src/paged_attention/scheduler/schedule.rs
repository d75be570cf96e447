//! One turn of the scheduler.

use vstd::prelude::*;

use crate::paged_attention::scheduler::admission::{
    PagedPrefixCacheValidator, PrefixCacheStats, RejectedSequence,
};
use crate::paged_attention::scheduler::hashes::{ids_of, releases};
use crate::paged_attention::scheduler::steps::PagedAttentionSchedulerOutput;
use crate::paged_attention::scheduler::{all_features_fit, PagedAttentionScheduler};
use crate::paged_attention::sequence::{Sequence, SequenceState};

verus! {

/// Prompts that are computed to their end go on to decode.
pub open spec fn promoted(sequences: Seq<Sequence>) -> Seq<Sequence> {
    Seq::new(
        sequences.len(),
        |i: int|
            if sequences[i].state == SequenceState::RunningPrompt && sequences[i].frontier()
                >= sequences[i].length() {
                Sequence { state: SequenceState::RunningCompletion, ..sequences[i] }
            } else {
                sequences[i]
            },
    )
}

/// What a turn gives, and the sequences whose guesses are to be dropped.
pub struct SchedulerOutput {
    pub output: PagedAttentionSchedulerOutput,
    pub preempted_sequence_ids: Vec<usize>,
}

impl PagedAttentionScheduler {
    /// A turn has begun: prompts that are computed to their end decode, and it is noted
    /// whether prompts may use the whole budget.
    pub open spec fn begins(&self, after: &Self) -> bool {
        &&& after.running@ == promoted(self.running@)
        &&& *after == (PagedAttentionScheduler {
            running: after.running,
            prompt_admission_epoch: (PagedAttentionScheduler {
                running: after.running,
                ..*self
            }).epoch_after(),
            ..*self
        })
    }

    /// Begins a turn.
    pub fn begin_turn(&mut self)
        requires
            old(self).wf(),
        ensures
            final(self).wf(),
            old(self).begins(final(self)),
    {
        let n: usize = self.running.len();
        let ghost before = self.running@;
        let mut i: usize = 0;
        while i < n
            invariant
                i <= n == before.len() == self.running@.len(),
                *self == (PagedAttentionScheduler { running: self.running, ..*old(self) }),
                forall|j: int| 0 <= j < i ==> #[trigger] self.running@[j] == promoted(before)[j],
                forall|j: int| i <= j < n ==> #[trigger] self.running@[j] == before[j],
            decreases n - i,
        {
            if self.running[i].is_prompt() && self.running[i].next_token()
                >= self.running[i].len() {
                self.running[i].state = SequenceState::RunningCompletion;
            }
            i += 1;
        }
        proof {
            assert(self.running@ =~= promoted(before));
            assert(all_features_fit(self.running@)) by {
                assert forall|j: int| 0 <= j < n implies
                    crate::paged_attention::block_hash::features_fit(
                    (#[trigger] self.running@[j]).mm_features@,
                ) by {
                    assert(self.running@[j].mm_features == before[j].mm_features);
                }
            }
        }
        self.update_prompt_admission_epoch();
    }

    /// Prompts were admitted, and served if any got blocks; otherwise a decode step was
    /// made.
    pub open spec fn fills(
        &self,
        admitted: &Self,
        after: &Self,
        out: PagedAttentionSchedulerOutput,
    ) -> bool {
        ||| out.scheduled@.len() > 0 && admitted.serves_prompts(after, out)
        ||| exists|mid: Self, nothing: PagedAttentionSchedulerOutput| #[trigger]
            admitted.serves_prompts(&mid, nothing) && nothing.scheduled@.len() == 0
                && mid.decodes(after, out)
    }

    /// A turn was made, with the given prompts refused. It is a decode step where one is
    /// due, and otherwise begins with the admission of prompts.
    pub open spec fn schedules<V: PagedPrefixCacheValidator>(
        &self,
        after: &Self,
        hits: usize,
        hits_after: usize,
        out: PagedAttentionSchedulerOutput,
    ) -> bool {
        exists|begun: Self|
            #![trigger self.begins(&begun)]
            {
                &&& self.begins(&begun)
                &&& if begun.decode_is_due() {
                    &&& begun.decodes(after, out)
                    &&& out.rejected@.len() == 0
                    &&& hits_after == hits
                } else {
                    exists|admitted: Self|
                        #![trigger begun.admits::<V>(&admitted, hits, hits_after, out.rejected@)]
                        {
                            &&& begun.admits::<V>(&admitted, hits, hits_after, out.rejected@)
                            &&& admitted.differs_in_queues(&begun)
                            &&& begun.fills(&admitted, after, out)
                        }
                }
            }
    }

    /// Makes one turn: says what is to be computed next.
    pub fn schedule<V: PagedPrefixCacheValidator>(
        &mut self,
        stats: &mut PrefixCacheStats,
        validator: &mut V,
    ) -> (r: PagedAttentionSchedulerOutput)
        requires
            old(self).wf(),
        ensures
            final(self).wf(),
            old(self).schedules::<V>(final(self), old(stats).hits, final(stats).hits, r),
            final(stats).sequences == old(stats).sequences,
    {
        self.begin_turn();
        let ghost begun = *self;
        if self.completion_is_due() {
            return self.decode_step();
        }
        let rejected: Vec<RejectedSequence> = self.admit_waiting(validator, stats);
        let ghost admitted = *self;
        let mut out: PagedAttentionSchedulerOutput = self.prompt_step();
        let ghost tried = out;
        if out.scheduled.len() == 0 {
            let ghost mid = *self;
            out = self.decode_step();
            assert(admitted.serves_prompts(&mid, tried));
            assert(mid.decodes(self, out));
            assert(begun.fills(&admitted, self, out));
        }
        let ghost bare = out;
        out.rejected = rejected;
        proof {
            lemma_fills_whatever_is_refused(begun, admitted, *self, bare, out);
            assert(begun.admits::<V>(&admitted, old(stats).hits, stats.hits, out.rejected@));
        }
        out
    }

    /// Makes one turn, and says whose guesses are to be dropped.
    pub fn schedule_turn<V: PagedPrefixCacheValidator>(
        &mut self,
        stats: &mut PrefixCacheStats,
        validator: &mut V,
    ) -> (r: SchedulerOutput)
        requires
            old(self).wf(),
        ensures
            final(self).wf(),
            exists|made: Self|
                #![trigger old(self).schedules::<V>(
                    &made,
                    old(stats).hits,
                    final(stats).hits,
                    r.output,
                )]
                {
                    &&& old(self).schedules::<V>(
                        &made,
                        old(stats).hits,
                        final(stats).hits,
                        r.output,
                    )
                    &&& r.preempted_sequence_ids@ == releases(
                        made.preempted_sequence_ids@,
                        ids_of(made.running@),
                        made.preempted_sequence_ids@.len() as int,
                    )
                    &&& final(self).preempted_sequence_ids@.len() == 0
                    &&& *final(self) == (PagedAttentionScheduler {
                        preempted_sequence_ids: final(self).preempted_sequence_ids,
                        ..made
                    })
                },
            final(stats).sequences == old(stats).sequences,
    {
        let output: PagedAttentionSchedulerOutput = self.schedule(stats, validator);
        let ghost made = *self;
        let preempted_sequence_ids: Vec<usize> = self.take_deferred_speculative_releases();
        assert(old(self).schedules::<V>(&made, old(stats).hits, stats.hits, output));
        SchedulerOutput { output, preempted_sequence_ids }
    }
}

proof fn lemma_fills_whatever_is_refused(
    begun: PagedAttentionScheduler,
    admitted: PagedAttentionScheduler,
    after: PagedAttentionScheduler,
    a: PagedAttentionSchedulerOutput,
    b: PagedAttentionSchedulerOutput,
)
    requires
        begun.fills(&admitted, &after, a),
        b == (PagedAttentionSchedulerOutput { rejected: b.rejected, ..a }),
    ensures
        begun.fills(&admitted, &after, b),
{
    if a.scheduled@.len() > 0 && admitted.serves_prompts(&after, a) {
        let batch = choose|batch: crate::paged_attention::prompt_plan::PromptBatch| #[trigger]
            admitted.serves(&after, a, batch);
        assert(admitted.serves(&after, b, batch));
    } else {
        let (mid, nothing) = choose|mid: PagedAttentionScheduler,
            nothing: PagedAttentionSchedulerOutput| #[trigger]
            admitted.serves_prompts(&mid, nothing) && nothing.scheduled@.len() == 0 && mid.decodes(
                &after,
                a,
            );
        let even = choose|even: PagedAttentionScheduler| #[trigger]
            mid.makes_compatible(&even) && even.steps_from(&after, a);
        assert(even.steps_from(&after, b));
        assert(mid.decodes(&after, b));
        assert(admitted.serves_prompts(&mid, nothing) && nothing.scheduled@.len() == 0
            && mid.decodes(&after, b));
    }
}

} // verus!
