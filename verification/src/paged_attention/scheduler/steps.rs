//! The two kinds of turn: a batch of prompts, and a decode step.

use vstd::prelude::*;

use crate::lists::contains_index;
use crate::paged_attention::block_hash::features_fit;
use crate::paged_attention::decode_plan::{next_cursor, DecodeStep};
use crate::paged_attention::kv_cache_manager::KvState;
use crate::paged_attention::prompt_plan::{
    all_wf, rotated, PromptBatch, PromptChunk, PromptInfo,
};
use crate::paged_attention::scheduler::admission::{prompts_of, Intake, RejectedSequence};
use crate::paged_attention::scheduler::hashes::{given_up, set_back, CacheState};
use crate::paged_attention::scheduler::turns::{infos_of, rows_of};
use crate::paged_attention::scheduler::{all_features_fit, PagedAttentionScheduler};
use crate::paged_attention::sequence::{
    Sequence, SpeculativePrefixCheckpointPolicy,
};

verus! {

/// What is to be computed next.
pub struct PagedAttentionSchedulerOutput {
    /// The sequences, in the order of their turn.
    pub scheduled: Vec<usize>,
    /// For each prompt, the tokens that came out of the cache.
    pub num_cached_tokens: Vec<usize>,
    pub prompt_chunk_size: Option<usize>,
    /// The part of each prompt, where prompts are cut.
    pub scheduled_prompt_chunks: Option<Vec<PromptChunk>>,
    /// The prompts that are not served.
    pub rejected: Vec<RejectedSequence>,
}

/// Where the sequence with an id stands, from `from` on.
pub open spec fn seat(sequences: Seq<Sequence>, id: usize, from: int) -> Option<int>
    decreases sequences.len() - from,
{
    if from >= sequences.len() {
        None
    } else if sequences[from].id == id {
        Some(from)
    } else {
        seat(sequences, id, from + 1)
    }
}

/// The tokens that a scheduled prompt needs blocks for.
pub open spec fn prompt_target(seq: Sequence, batch: PromptBatch, i: int) -> usize {
    match batch.chunks {
        Some(chunks) => chunks@[i].end,
        None => seq.length() as usize,
    }
}

/// Whether the blocks are there that a sequence lacks for a number of tokens.
#[verifier::opaque]
pub open spec fn has_blocks(kv: KvState, id: usize, target: usize) -> bool {
    kv.can_allocate(id, target as nat, Seq::empty())
}

/// The pool after a sequence got the blocks that it lacked for a number of tokens.
#[verifier::opaque]
pub open spec fn with_blocks(kv: KvState, id: usize, target: usize) -> KvState {
    kv.allocated(id, target as nat, Seq::empty())
}

/// Which prompts of a batch got their blocks.
pub struct Grants {
    pub kv: KvState,
    pub places: Seq<int>,
}

/// Which of the first `k` prompts of a batch get their blocks, in order. One that lacks
/// blocks is left out.
pub open spec fn granted(
    kv: KvState,
    running: Seq<Sequence>,
    batch: PromptBatch,
    k: int,
) -> Grants
    decreases k,
{
    if k <= 0 {
        Grants { kv, places: Seq::empty() }
    } else {
        let before = granted(kv, running, batch, k - 1);
        let id = batch.scheduled@[k - 1];
        match seat(running, id, 0) {
            None => before,
            Some(j) => {
                let target = prompt_target(running[j], batch, k - 1);
                if has_blocks(before.kv, id, target) {
                    Grants {
                        kv: with_blocks(before.kv, id, target),
                        places: before.places.push(k - 1),
                    }
                } else {
                    before
                }
            },
        }
    }
}

fn find_seat(sequences: &Vec<Sequence>, id: usize) -> (r: Option<usize>)
    ensures
        match seat(sequences@, id, 0) {
            Some(i) => r is Some && r->0 == i && 0 <= i < sequences@.len() && sequences@[i].id
                == id,
            None => r is None,
        },
{
    let n: usize = sequences.len();
    let mut i: usize = 0;
    while i < n
        invariant
            i <= n == sequences@.len(),
            seat(sequences@, id, 0) == seat(sequences@, id, i as int),
        decreases n - i,
    {
        if sequences[i].id == id {
            return Some(i);
        }
        i += 1;
    }
    None
}

fn running_prompt_infos(
    sequences: &Vec<Sequence>,
    policy: &SpeculativePrefixCheckpointPolicy,
) -> (r: Vec<PromptInfo>)
    ensures
        r@ == infos_of(prompts_of(sequences@), *policy),
        all_wf(r@),
{
    let n: usize = sequences.len();
    let mut r: Vec<PromptInfo> = Vec::new();
    let mut i: usize = 0;
    assert(sequences@.take(0) =~= Seq::<Sequence>::empty());
    assert(r@ =~= infos_of(prompts_of(sequences@.take(0)), *policy));
    while i < n
        invariant
            i <= n == sequences@.len(),
            r@ == infos_of(prompts_of(sequences@.take(i as int)), *policy),
            all_wf(r@),
        decreases n - i,
    {
        assert(sequences@.take(i + 1).drop_last() =~= sequences@.take(i as int));
        if sequences[i].is_prompt() {
            r.push(sequences[i].prompt_info(policy));
        }
        i += 1;
        assert(r@ =~= infos_of(prompts_of(sequences@.take(i as int)), *policy));
    }
    assert(sequences@.take(n as int) =~= sequences@);
    r
}

impl PagedAttentionSchedulerOutput {
    /// The output holds the prompts in some places of a batch.
    pub open spec fn holds(
        self,
        running: Seq<Sequence>,
        batch: PromptBatch,
        places: Seq<int>,
    ) -> bool {
        &&& self.scheduled@.len() == places.len()
        &&& self.num_cached_tokens@.len() == places.len()
        &&& forall|i: int|
            0 <= i < places.len() ==> #[trigger] self.scheduled@[i] == batch.scheduled@[places[i]]
        &&& forall|i: int|
            0 <= i < places.len() ==> #[trigger] self.num_cached_tokens@[i] == running[seat(
                running,
                batch.scheduled@[places[i]],
                0,
            )->0].prefix_cache_len
        &&& self.prompt_chunk_size == batch.chunk_size
        &&& match batch.chunks {
            Some(chunks) => {
                &&& self.scheduled_prompt_chunks is Some
                &&& self.scheduled_prompt_chunks->0@.len() == places.len()
                &&& forall|i: int|
                    0 <= i < places.len() ==> #[trigger] self.scheduled_prompt_chunks->0@[i]
                        == chunks@[places[i]]
            },
            None => self.scheduled_prompt_chunks is None,
        }
    }

    /// The output holds a decode step.
    pub open spec fn decodes(self, ids: Seq<usize>) -> bool {
        &&& self.scheduled@ == ids
        &&& self.num_cached_tokens@.len() == 0
        &&& self.prompt_chunk_size is None
        &&& self.scheduled_prompt_chunks is None
    }

    /// Keeps the first `n` prompts. The result is the first one left out.
    pub fn retain_prompt_prefix(&mut self, n: usize) -> (r: Option<usize>)
        ensures
            n >= old(self).scheduled@.len() ==> r is None && *final(self) == *old(self),
            n < old(self).scheduled@.len() ==> {
                &&& r == Some(old(self).scheduled@[n as int])
                &&& final(self).scheduled@ == old(self).scheduled@.take(n as int)
                &&& final(self).num_cached_tokens@ == (if n
                    < old(self).num_cached_tokens@.len() {
                    old(self).num_cached_tokens@.take(n as int)
                } else {
                    old(self).num_cached_tokens@
                })
                &&& match old(self).scheduled_prompt_chunks {
                    Some(chunks) => final(self).scheduled_prompt_chunks is Some
                        && final(self).scheduled_prompt_chunks->0@ == (if n < chunks@.len() {
                        chunks@.take(n as int)
                    } else {
                        chunks@
                    }),
                    None => final(self).scheduled_prompt_chunks is None,
                }
                &&& final(self).prompt_chunk_size == old(self).prompt_chunk_size
                &&& final(self).rejected == old(self).rejected
            },
    {
        if n >= self.scheduled.len() {
            return None;
        }
        let omitted: usize = self.scheduled[n];
        self.scheduled.truncate(n);
        if n < self.num_cached_tokens.len() {
            self.num_cached_tokens.truncate(n);
        }
        let mut chunks: Option<Vec<PromptChunk>> = None;
        std::mem::swap(&mut chunks, &mut self.scheduled_prompt_chunks);
        self.scheduled_prompt_chunks = match chunks {
            Some(list) => {
                let mut list: Vec<PromptChunk> = list;
                if n < list.len() {
                    list.truncate(n);
                }
                Some(list)
            },
            None => None,
        };
        Some(omitted)
    }
}

impl PagedAttentionScheduler {
    /// A batch is the one planned out of the running prompts, and those of it that got
    /// their blocks are in the output. If any did, decode steps are counted anew.
    pub open spec fn serves(
        &self,
        after: &Self,
        out: PagedAttentionSchedulerOutput,
        batch: PromptBatch,
    ) -> bool {
        let prompts = infos_of(prompts_of(self.running@), self.prefix_policy);
        let grants = granted(
            self.kv_cache_manager@,
            self.running@,
            batch,
            batch.scheduled@.len() as int,
        );
        &&& batch.is_planned(self.plan_config(), rotated(prompts, self.next_prompt_sequence_id))
        &&& out.holds(self.running@, batch, grants.places)
        &&& after.kv_cache_manager@ == grants.kv
        &&& *after == (PagedAttentionScheduler {
            kv_cache_manager: after.kv_cache_manager,
            next_prompt_sequence_id: batch.next,
            decode_steps_since_prefill: if grants.places.len() > 0 {
                0
            } else {
                self.decode_steps_since_prefill
            },
            ..*self
        })
    }

    /// A batch of the running prompts was served.
    pub open spec fn serves_prompts(
        &self,
        after: &Self,
        out: PagedAttentionSchedulerOutput,
    ) -> bool {
        exists|batch: PromptBatch| #[trigger] self.serves(after, out, batch)
    }

    /// Gives a sequence the blocks that it lacks for a number of tokens, if they are
    /// there.
    fn take_blocks(&mut self, id: usize, target: usize) -> (r: bool)
        requires
            old(self).wf(),
        ensures
            final(self).wf(),
            r == has_blocks(old(self).kv_cache_manager@, id, target),
            final(self).kv_cache_manager@ == (if r {
                with_blocks(old(self).kv_cache_manager@, id, target)
            } else {
                old(self).kv_cache_manager@
            }),
            *final(self) == (PagedAttentionScheduler {
                kv_cache_manager: final(self).kv_cache_manager,
                ..*old(self)
            }),
    {
        reveal(has_blocks);
        reveal(with_blocks);
        let none: Vec<usize> = Vec::new();
        assert(none@ =~= Seq::<usize>::empty());
        self.kv_cache_manager.allocate_slots(id, target, &none).is_some()
    }

    /// Serves a batch of the running prompts.
    pub fn prompt_step(&mut self) -> (r: PagedAttentionSchedulerOutput)
        requires
            old(self).wf(),
        ensures
            final(self).wf(),
            old(self).serves_prompts(final(self), r),
            r.rejected@.len() == 0,
    {
        let infos: Vec<PromptInfo> = running_prompt_infos(&self.running, &self.prefix_policy);
        let batch: PromptBatch = self.select_batch(&infos);
        let ghost kv = self.kv_cache_manager@;
        let ghost running = self.running@;
        let ghost mid = *self;
        let n: usize = batch.scheduled.len();
        let mut scheduled: Vec<usize> = Vec::new();
        let mut cached: Vec<usize> = Vec::new();
        let mut parts: Vec<PromptChunk> = Vec::new();
        let mut k: usize = 0;
        while k < n
            invariant
                k <= n == batch.scheduled@.len(),
                self.wf(),
                running == self.running@,
                *self == (PagedAttentionScheduler {
                    kv_cache_manager: self.kv_cache_manager,
                    ..mid
                }),
                batch.chunks matches Some(chunks) ==> chunks@.len() == n,
                self.kv_cache_manager@ == granted(kv, running, batch, k as int).kv,
                ({
                    let places = granted(kv, running, batch, k as int).places;
                    &&& scheduled@.len() == places.len()
                    &&& cached@.len() == places.len()
                    &&& batch.chunks is Some ==> parts@.len() == places.len()
                    &&& forall|i: int| 0 <= i < places.len() ==> 0 <= #[trigger] places[i] < n
                    &&& forall|i: int|
                        0 <= i < places.len() ==> #[trigger] scheduled@[i]
                            == batch.scheduled@[places[i]]
                    &&& forall|i: int|
                        0 <= i < places.len() ==> #[trigger] cached@[i] == running[seat(
                            running,
                            batch.scheduled@[places[i]],
                            0,
                        )->0].prefix_cache_len
                    &&& batch.chunks matches Some(chunks) ==> forall|i: int|
                        0 <= i < places.len() ==> #[trigger] parts@[i] == chunks@[places[i]]
                }),
            decreases n - k,
        {
            let id: usize = batch.scheduled[k];
            if let Some(j) = find_seat(&self.running, id) {
                let target: usize = match &batch.chunks {
                    Some(chunks) => chunks[k].end,
                    None => self.running[j].len(),
                };
                assert(target == prompt_target(running[j as int], batch, k as int));
                if self.take_blocks(id, target) {
                    scheduled.push(id);
                    cached.push(self.running[j].prefix_cache_len);
                    if let Some(chunks) = &batch.chunks {
                        parts.push(chunks[k]);
                    }
                }
            }
            k += 1;
        }
        if scheduled.len() > 0 {
            self.decode_steps_since_prefill = 0;
        }
        let chunks: Option<Vec<PromptChunk>> = if batch.chunks.is_some() {
            Some(parts)
        } else {
            None
        };
        let r: PagedAttentionSchedulerOutput = PagedAttentionSchedulerOutput {
            scheduled,
            num_cached_tokens: cached,
            prompt_chunk_size: batch.chunk_size,
            scheduled_prompt_chunks: chunks,
            rejected: Vec::new(),
        };
        proof {
            assert(r.holds(running, batch, granted(kv, running, batch, n as int).places));
            assert(old(self).serves(self, r, batch));
        }
        r
    }
}

/// The tokens that a sequence needs blocks for in a decode step: its own, one more and
/// those that were guessed.
pub open spec fn decode_target(seq: Sequence) -> usize {
    if seq.length() + seq.staged_speculative@.len() < usize::MAX {
        (seq.length() + seq.staged_speculative@.len() + 1) as usize
    } else {
        usize::MAX
    }
}

fn tokens_of_step(seq: &Sequence) -> (r: usize)
    ensures
        r == decode_target(*seq),
{
    let n: usize = seq.len();
    let staged: usize = seq.active_staged_speculative_len();
    if staged < usize::MAX - n {
        n + staged + 1
    } else {
        usize::MAX
    }
}

/// A sequence got the blocks for a number of tokens.
pub open spec fn supplied(w: Intake, id: usize, target: usize) -> Intake {
    Intake {
        cache: CacheState { kv: with_blocks(w.cache.kv, id, target), ..w.cache },
        ..w
    }
}

/// The last of the first `n` sequences that is neither the given one nor among those
/// that got their blocks.
pub open spec fn victim(
    sequences: Seq<Sequence>,
    id: usize,
    served: Seq<usize>,
    n: int,
) -> Option<int>
    decreases n,
{
    if n <= 0 {
        None
    } else if sequences[n - 1].id != id && !served.contains(sequences[n - 1].id) {
        Some(n - 1)
    } else {
        victim(sequences, id, served, n - 1)
    }
}

fn find_victim(sequences: &Vec<Sequence>, id: usize, served: &Vec<usize>) -> (r: Option<usize>)
    ensures
        match victim(sequences@, id, served@, sequences@.len() as int) {
            Some(i) => r is Some && r->0 == i && 0 <= i < sequences@.len(),
            None => r is None,
        },
{
    let mut n: usize = sequences.len();
    while n > 0
        invariant
            n <= sequences@.len(),
            victim(sequences@, id, served@, sequences@.len() as int) == victim(
                sequences@,
                id,
                served@,
                n as int,
            ),
        decreases n,
    {
        if sequences[n - 1].id != id && !contains_index(served, sequences[n - 1].id) {
            return Some(n - 1);
        }
        n -= 1;
    }
    None
}

impl PagedAttentionScheduler {
    /// The running sequence in a place gave it up.
    pub open spec fn place_given_up(&self, w: Intake, i: int) -> Intake {
        let gone = w.running[i];
        Intake {
            cache: given_up(
                w.cache,
                gone,
                self.block_size as int,
                self.prefix_caching_enabled,
            ),
            running: w.running.remove(i),
            waiting: seq![set_back(gone)] + w.waiting,
            preempted: w.preempted.push(gone.id),
            ..w
        }
    }

    /// A sequence got the blocks for its next step, and whether it did. For lack of
    /// blocks others give up their places, from the last on, or the sequence its own.
    #[verifier::opaque]
    pub open spec fn row_served(&self, w: Intake, id: usize, served: Seq<usize>) -> (Intake, bool)
        decreases w.running.len(),
    {
        match seat(w.running, id, 0) {
            None => (w, false),
            Some(i) => {
                let target = decode_target(w.running[i]);
                if has_blocks(w.cache.kv, id, target) {
                    (supplied(w, id, target), true)
                } else {
                    match victim(w.running, id, served, w.running.len() as int) {
                        Some(j) => if 0 <= j < w.running.len() {
                            self.row_served(self.place_given_up(w, j), id, served)
                        } else {
                            (w, false)
                        },
                        None => (self.place_given_up(w, i), false),
                    }
                }
            },
        }
    }

    /// Which of the first `k` sequences of a step got their blocks, in order, each once.
    pub open spec fn rows_served(&self, w: Intake, ids: Seq<usize>, k: int) -> (Intake, Seq<usize>)
        decreases k,
    {
        if k <= 0 {
            (w, Seq::empty())
        } else {
            let (before, served) = self.rows_served(w, ids, k - 1);
            if served.contains(ids[k - 1]) {
                (before, served)
            } else {
                let (now, got) = self.row_served(before, ids[k - 1], served);
                (
                    now,
                    if got {
                        served.push(ids[k - 1])
                    } else {
                        served
                    },
                )
            }
        }
    }

    /// The running sequences that can decode together were served in their turn.
    pub open spec fn steps_from(
        &self,
        after: &Self,
        out: PagedAttentionSchedulerOutput,
    ) -> bool {
        let ids = self.next_step_ids();
        let (w, served) = self.rows_served(
            self.intake(Seq::empty(), 0),
            ids,
            ids.len() as int,
        );
        &&& out.decodes(served)
        &&& after.agrees(w, Seq::empty(), 0)
        &&& after.same_settings(self)
        &&& after.prompt_admission_epoch == self.prompt_admission_epoch
        &&& after.next_prompt_sequence_id == self.next_prompt_sequence_id
        &&& after.completion_cursor == next_cursor(
            self.decode_config(),
            rows_of(self.running@),
            self.completion_cursor as int,
        )
        &&& after.decode_steps_since_prefill == (if served.len() > 0
            && self.decode_steps_since_prefill < usize::MAX {
            self.decode_steps_since_prefill + 1
        } else {
            self.decode_steps_since_prefill as int
        })
    }

    /// A decode step was made: the running sequences were made compatible and served.
    pub open spec fn decodes(&self, after: &Self, out: PagedAttentionSchedulerOutput) -> bool {
        exists|mid: Self| #[trigger] self.makes_compatible(&mid) && mid.steps_from(after, out)
    }

    /// Takes its place from a running sequence.
    fn give_up_place(&mut self, i: usize, Ghost(w): Ghost<Intake>)
        requires
            old(self).wf(),
            old(self).agrees(w, w.rejected, w.hits),
            i < old(self).running@.len(),
        ensures
            final(self).wf(),
            final(self).differs_in_queues(old(self)),
            final(self).agrees(old(self).place_given_up(w, i as int), w.rejected, w.hits),
            final(self).running@.len() == old(self).running@.len() - 1,
    {
        let ghost before = self.running@;
        assert(features_fit(before[i as int].mm_features@));
        let gone: Sequence = self.running.remove(i);
        proof {
            lemma_rest_fits(before, i as int);
        }
        self._preempt(gone);
    }

    /// Gives a sequence the blocks for its next step.
    #[verifier::rlimit(60)]
    fn serve_row(&mut self, id: usize, served: &Vec<usize>, Ghost(w): Ghost<Intake>) -> (r: bool)
        requires
            old(self).wf(),
            old(self).agrees(w, w.rejected, w.hits),
        ensures
            final(self).wf(),
            final(self).differs_in_queues(old(self)),
            final(self).agrees(
                old(self).row_served(w, id, served@).0,
                w.rejected,
                w.hits,
            ),
            r == old(self).row_served(w, id, served@).1,
        decreases old(self).running@.len(),
    {
        let ghost start = *self;
        proof {
            lemma_row(start, w, id, served@);
        }
        let at: usize = match find_seat(&self.running, id) {
            Some(i) => i,
            None => {
                return false;
            },
        };
        let target: usize = tokens_of_step(&self.running[at]);
        if self.take_blocks(id, target) {
            return true;
        }
        match find_victim(&self.running, id, served) {
            Some(j) => {
                let ghost next = start.place_given_up(w, j as int);
                self.give_up_place(j, Ghost(w));
                let ghost before = *self;
                let got: bool = self.serve_row(id, served, Ghost(next));
                proof {
                    lemma_same_row(start, before, next, id, served@);
                }
                got
            },
            None => {
                self.give_up_place(at, Ghost(w));
                false
            },
        }
    }

    /// Makes a decode step.
    pub fn decode_step(&mut self) -> (r: PagedAttentionSchedulerOutput)
        requires
            old(self).wf(),
        ensures
            final(self).wf(),
            old(self).decodes(final(self), r),
            r.rejected@.len() == 0,
    {
        self.enforce_completion_compatibility();
        let ghost mid = *self;
        let step: DecodeStep = self.plan_decode_step();
        let n: usize = step.ids.len();
        let mut served: Vec<usize> = Vec::new();
        let ghost start = self.intake(Seq::empty(), 0);
        let ghost mut w = start;
        let mut k: usize = 0;
        while k < n
            invariant
                k <= n == step.ids@.len(),
                self.wf(),
                self.differs_in_queues(&mid),
                start == mid.intake(Seq::empty(), 0),
                w == mid.rows_served(start, step.ids@, k as int).0,
                served@ == mid.rows_served(start, step.ids@, k as int).1,
                self.agrees(w, Seq::empty(), 0),
            decreases n - k,
        {
            let ghost before = *self;
            let id: usize = step.ids[k];
            if !contains_index(&served, id) {
                proof {
                    lemma_row_keeps_rest(mid, w, id, served@);
                }
                let got: bool = self.serve_row(id, &served, Ghost(w));
                proof {
                    lemma_same_row(mid, before, w, id, served@);
                    w = mid.row_served(w, id, served@).0;
                }
                if got {
                    served.push(id);
                }
            }
            k += 1;
        }
        self.completion_cursor = step.next_cursor;
        if served.len() > 0 && self.decode_steps_since_prefill < usize::MAX {
            self.decode_steps_since_prefill = self.decode_steps_since_prefill + 1;
        }
        let r: PagedAttentionSchedulerOutput = PagedAttentionSchedulerOutput {
            scheduled: served,
            num_cached_tokens: Vec::new(),
            prompt_chunk_size: None,
            scheduled_prompt_chunks: None,
            rejected: Vec::new(),
        };
        proof {
            assert(old(self).makes_compatible(&mid));
            assert(mid.steps_from(self, r));
        }
        r
    }
}

proof fn lemma_rest_fits(sequences: Seq<Sequence>, i: int)
    requires
        all_features_fit(sequences),
        0 <= i < sequences.len(),
    ensures
        all_features_fit(sequences.remove(i)),
{
    let rest = sequences.remove(i);
    assert forall|j: int| 0 <= j < rest.len() implies features_fit(
        (#[trigger] rest[j]).mm_features@,
    ) by {
        if j < i {
            assert(rest[j] == sequences[j]);
        } else {
            assert(rest[j] == sequences[j + 1]);
        }
    }
}

proof fn lemma_row(s: PagedAttentionScheduler, w: Intake, id: usize, served: Seq<usize>)
    ensures
        match seat(w.running, id, 0) {
            None => s.row_served(w, id, served) == (w, false),
            Some(i) => {
                let target = decode_target(w.running[i]);
                if has_blocks(w.cache.kv, id, target) {
                    s.row_served(w, id, served) == (supplied(w, id, target), true)
                } else {
                    match victim(w.running, id, served, w.running.len() as int) {
                        Some(j) => 0 <= j < w.running.len() ==> s.row_served(w, id, served)
                            == s.row_served(s.place_given_up(w, j), id, served),
                        None => s.row_served(w, id, served) == (s.place_given_up(w, i), false),
                    }
                }
            },
        },
{
    reveal(PagedAttentionScheduler::row_served);
}

proof fn lemma_row_keeps_rest(
    s: PagedAttentionScheduler,
    w: Intake,
    id: usize,
    served: Seq<usize>,
)
    ensures
        s.row_served(w, id, served).0.rejected == w.rejected,
        s.row_served(w, id, served).0.hits == w.hits,
    decreases w.running.len(),
{
    reveal(PagedAttentionScheduler::row_served);
    if let Some(i) = seat(w.running, id, 0) {
        if let Some(j) = victim(w.running, id, served, w.running.len() as int) {
            if 0 <= j < w.running.len() {
                lemma_row_keeps_rest(s, s.place_given_up(w, j), id, served);
            }
        }
    }
}

proof fn lemma_same_row(
    a: PagedAttentionScheduler,
    b: PagedAttentionScheduler,
    w: Intake,
    id: usize,
    served: Seq<usize>,
)
    requires
        b.differs_in_queues(&a),
    ensures
        a.row_served(w, id, served) == b.row_served(w, id, served),
    decreases w.running.len(),
{
    reveal(PagedAttentionScheduler::row_served);
    if let Some(i) = seat(w.running, id, 0) {
        if let Some(j) = victim(w.running, id, served, w.running.len() as int) {
            if 0 <= j < w.running.len() {
                lemma_same_row(a, b, a.place_given_up(w, j), id, served);
            }
        }
    }
}

} // verus!
