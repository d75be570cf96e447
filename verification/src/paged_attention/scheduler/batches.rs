//! Which sequences can share a batch. The others give up their place.

use vstd::prelude::*;

use crate::paged_attention::prompt_plan::{compatible, is_compatible, PlanConfig, PromptInfo};
use crate::paged_attention::scheduler::hashes::{
    all_given_up, all_set_back, ids_of, kept, lemma_kept_fit,
};
use crate::paged_attention::scheduler::{all_features_fit, PagedAttentionScheduler};
use crate::paged_attention::sequence::{modality_signature, Sequence, SequenceState};

verus! {

/// What a batch does.
#[derive(Debug, Clone, Copy, PartialEq, Eq, Structural)]
pub enum BatchKind {
    Prompt,
    Completion,
}

/// Whether two sequences can decode together.
pub open spec fn decode_together(
    first: Sequence,
    other: Sequence,
    uniform: bool,
    uniform_media: bool,
) -> bool {
    &&& uniform ==> first.length() == other.length()
    &&& uniform_media ==> first.signature() == other.signature()
}

fn can_decode_together(
    first: &Sequence,
    other: &Sequence,
    uniform: bool,
    uniform_media: bool,
) -> (r: bool)
    ensures
        r == decode_together(*first, *other, uniform, uniform_media),
{
    if uniform && first.len() != other.len() {
        return false;
    }
    !uniform_media || modality_signature(first) == modality_signature(other)
}

/// The first sequence from `from` on that decodes.
pub open spec fn first_completion(sequences: Seq<Sequence>, from: int) -> Option<int>
    decreases sequences.len() - from,
{
    if from >= sequences.len() {
        None
    } else if sequences[from].state == SequenceState::RunningCompletion {
        Some(from)
    } else {
        first_completion(sequences, from + 1)
    }
}

/// Parts sequences by a test whose outcome is given for each.
fn split(
    sequences: Vec<Sequence>,
    mask: &Vec<bool>,
    Ghost(keep): Ghost<spec_fn(Sequence) -> bool>,
) -> (r: (Vec<Sequence>, Vec<Sequence>))
    requires
        mask@.len() == sequences@.len(),
        forall|i: int|
            0 <= i < sequences@.len() ==> #[trigger] mask@[i] == keep(sequences@[i]),
    ensures
        r.0@ == kept(sequences@, keep),
        r.1@ == kept(sequences@, |s: Sequence| !keep(s)),
{
    let ghost all = sequences@;
    let ghost other = |s: Sequence| !keep(s);
    let n: usize = mask.len();
    let mut list: Vec<Sequence> = sequences;
    let mut gone: Vec<Sequence> = Vec::new();
    let mut i: usize = 0;
    let mut k: usize = 0;
    assert(all.take(0) =~= Seq::<Sequence>::empty());
    assert(list@ =~= kept(all.take(0), keep) + all.skip(0));
    while k < n
        invariant
            i <= k <= n == mask@.len() == all.len(),
            forall|j: int| 0 <= j < all.len() ==> #[trigger] mask@[j] == keep(all[j]),
            other == (|s: Sequence| !keep(s)),
            i == kept(all.take(k as int), keep).len(),
            list@ == kept(all.take(k as int), keep) + all.skip(k as int),
            gone@ == kept(all.take(k as int), other),
        decreases n - k,
    {
        assert(all.take(k + 1).drop_last() =~= all.take(k as int));
        assert(all.take(k + 1).last() == all[k as int]);
        assert(list@[i as int] == all[k as int]);
        if mask[k] {
            i += 1;
            assert(list@ =~= kept(all.take(k + 1), keep) + all.skip(k + 1));
        } else {
            let seq: Sequence = list.remove(i);
            gone.push(seq);
            assert(list@ =~= kept(all.take(k + 1), keep) + all.skip(k + 1));
        }
        k += 1;
    }
    assert(all.take(n as int) =~= all);
    assert(list@ =~= kept(all, keep));
    (list, gone)
}

impl PagedAttentionScheduler {
    /// Whether a running sequence keeps its place: it does not decode, or can decode
    /// together with the first that does.
    pub open spec fn keeps_place(&self, seq: Sequence) -> bool {
        match first_completion(self.running@, 0) {
            None => true,
            Some(i) => seq.state != SequenceState::RunningCompletion || decode_together(
                self.running@[i],
                seq,
                self.requires_uniform_completion_batch,
                self.requires_uniform_media_batch,
            ),
        }
    }

    /// The sequences that cannot decode together with the first have given up their
    /// places.
    pub open spec fn makes_compatible(&self, after: &Self) -> bool {
        let gone = kept(self.running@, |s: Sequence| !self.keeps_place(s));
        &&& after.running@ == kept(self.running@, |s: Sequence| self.keeps_place(s))
        &&& after.waiting@ == all_set_back(gone) + self.waiting@
        &&& after.preempted_sequence_ids@ == self.preempted_sequence_ids@ + ids_of(gone).reverse()
        &&& after.cache() == all_given_up(
            self.cache(),
            gone,
            self.block_size as int,
            self.prefix_caching_enabled,
        )
        &&& after.differs_in_queues(self)
    }

    /// Takes their place from sequences that cannot decode together with the first.
    pub fn enforce_completion_compatibility(&mut self)
        requires
            old(self).wf(),
        ensures
            final(self).wf(),
            old(self).makes_compatible(final(self)),
    {
        let n: usize = self.running.len();
        let ghost keep = |s: Sequence| old(self).keeps_place(s);
        let mut first: usize = 0;
        while first < n && !self.running[first].is_completion()
            invariant
                first <= n == self.running@.len(),
                first_completion(self.running@, 0) == first_completion(
                    self.running@,
                    first as int,
                ),
            decreases n - first,
        {
            first += 1;
        }
        let mut mask: Vec<bool> = Vec::with_capacity(n);
        let mut i: usize = 0;
        while i < n
            invariant
                i <= n == self.running@.len(),
                *self == *old(self),
                keep == (|s: Sequence| old(self).keeps_place(s)),
                first <= n,
                first_completion(self.running@, 0) == (if first < n {
                    Some(first as int)
                } else {
                    None
                }),
                mask@.len() == i,
                forall|j: int| 0 <= j < i ==> #[trigger] mask@[j] == keep(self.running@[j]),
            decreases n - i,
        {
            let stays: bool = first == n || !self.running[i].is_completion()
                || can_decode_together(
                &self.running[first],
                &self.running[i],
                self.requires_uniform_completion_batch,
                self.requires_uniform_media_batch,
            );
            mask.push(stays);
            i += 1;
        }
        let mut running: Vec<Sequence> = Vec::new();
        std::mem::swap(&mut running, &mut self.running);
        let (stay, gone): (Vec<Sequence>, Vec<Sequence>) = split(running, &mask, Ghost(keep));
        let ghost other = |s: Sequence| !keep(s);
        let ghost wanted = |s: Sequence| !old(self).keeps_place(s);
        proof {
            assert(other =~= wanted);
            lemma_kept_fit(old(self).running@, keep);
            lemma_kept_fit(old(self).running@, other);
        }
        self.preempt_all(gone);
        self.running = stay;
    }

    /// What decides which sequences share a batch with the first.
    pub open spec fn shares_batch(
        &self,
        first: Sequence,
        other: Sequence,
        kind: BatchKind,
        uniform: bool,
    ) -> bool {
        match kind {
            BatchKind::Prompt => compatible(
                self.bucket_config(uniform),
                first.prompt(self.prefix_policy),
                other.prompt(self.prefix_policy),
            ),
            BatchKind::Completion => decode_together(
                first,
                other,
                uniform,
                self.requires_uniform_media_batch,
            ),
        }
    }

    /// What compatibility of prompts goes by.
    pub open spec fn bucket_config(&self, uniform: bool) -> PlanConfig {
        PlanConfig { uniform, ..self.plan_config() }
    }

    /// Keeps the sequences that can share a batch with the first, and lets the others
    /// wait first.
    pub fn bucket_and_preempt_sequences(
        &mut self,
        sequences: Vec<Sequence>,
        kind: BatchKind,
        uniform: bool,
    ) -> (r: Vec<Sequence>)
        requires
            old(self).wf(),
            all_features_fit(sequences@),
        ensures
            final(self).wf(),
            sequences@.len() == 0 ==> r@.len() == 0 && *final(self) == *old(self),
            sequences@.len() > 0 ==> {
                let first = sequences@[0];
                let rest = sequences@.skip(1);
                let gone = kept(
                    rest,
                    |s: Sequence| !old(self).shares_batch(first, s, kind, uniform),
                );
                &&& r@ == seq![first] + kept(
                    rest,
                    |s: Sequence| old(self).shares_batch(first, s, kind, uniform),
                )
                &&& final(self).waiting@ == all_set_back(gone) + old(self).waiting@
                &&& final(self).preempted_sequence_ids@ == old(self).preempted_sequence_ids@
                    + ids_of(gone).reverse()
                &&& final(self).cache() == all_given_up(
                    old(self).cache(),
                    gone,
                    old(self).block_size as int,
                    old(self).prefix_caching_enabled,
                )
                &&& final(self).differs_in_queues(old(self))
                &&& final(self).running == old(self).running
            },
    {
        let mut list: Vec<Sequence> = sequences;
        if list.len() == 0 {
            return list;
        }
        let first: Sequence = list.remove(0);
        let ghost rest = sequences@.skip(1);
        assert(list@ =~= rest);
        let ghost keep = |s: Sequence| old(self).shares_batch(first, s, kind, uniform);
        let mut cfg: PlanConfig = self.planning();
        cfg.uniform = uniform;
        let first_info: PromptInfo = first.prompt_info(&self.prefix_policy);
        let n: usize = list.len();
        let mut mask: Vec<bool> = Vec::with_capacity(n);
        let mut i: usize = 0;
        while i < n
            invariant
                i <= n == list@.len(),
                *self == *old(self),
                keep == (|s: Sequence| old(self).shares_batch(first, s, kind, uniform)),
                cfg == self.bucket_config(uniform),
                first_info == first.prompt(self.prefix_policy),
                first_info.wf(),
                mask@.len() == i,
                forall|j: int| 0 <= j < i ==> #[trigger] mask@[j] == keep(list@[j]),
            decreases n - i,
        {
            let stays: bool = match kind {
                BatchKind::Prompt => {
                    let info: PromptInfo = list[i].prompt_info(&self.prefix_policy);
                    is_compatible(&cfg, &first_info, &info)
                },
                BatchKind::Completion => can_decode_together(
                    &first,
                    &list[i],
                    uniform,
                    self.requires_uniform_media_batch,
                ),
            };
            mask.push(stays);
            i += 1;
        }
        let (stay, gone): (Vec<Sequence>, Vec<Sequence>) = split(list, &mask, Ghost(keep));
        let ghost other = |s: Sequence| !keep(s);
        let ghost wanted = |s: Sequence| !old(self).shares_batch(first, s, kind, uniform);
        proof {
            assert(other =~= wanted);
            assert(all_features_fit(rest)) by {
                assert(forall|j: int| 0 <= j < rest.len() ==> rest[j] == sequences@[j + 1]);
            }
            lemma_kept_fit(rest, other);
        }
        self.preempt_all(gone);
        let mut r: Vec<Sequence> = stay;
        r.insert(0, first);
        assert(r@ =~= seq![first] + kept(rest, keep));
        r
    }
}

} // verus!
