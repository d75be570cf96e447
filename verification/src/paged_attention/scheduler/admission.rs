//! How waiting prompts come to run.

use vstd::prelude::*;
use vstd::std_specs::hash::*;

use crate::paged_attention::block_hash::{
    clamp_cached_tokens, features_fit, lemma_uncut, uncut_blocks,
};
use crate::paged_attention::kv_cache_manager::{
    law_admitted_request_can_reserve, position, startable, ComputedBlocks, KvState,
};
use crate::paged_attention::scheduler::hashes::{
    forgotten, given_up, hashed_for, kept, set_back, CacheState,
};
use crate::paged_attention::scheduler::turns::{find_completion, has_completion};
use crate::paged_attention::scheduler::PagedAttentionScheduler;
use crate::paged_attention::sequence::{modality_signature, Sequence, SequenceState};

verus! {

broadcast use group_hash_axioms;

/// How often a waiting prompt may find too little cache before it takes the cache of
/// others.
pub const WAITING_TIMEOUT: usize = 64;

/// What a model that carries a state says to a cache hit. The state of a prefix may be
/// gone while its blocks are there.
pub trait PagedPrefixCacheValidator {
    /// What the model may answer when it is asked how many cached tokens can be used:
    /// anything, unless it says otherwise.
    open spec fn may_validate(
        seq: Sequence,
        block_hashes: Seq<u64>,
        cached_tokens: usize,
        block_size: usize,
        answer: Result<usize, String>,
    ) -> bool {
        true
    }

    /// What the model may answer when the state is to become that of cached tokens:
    /// anything, unless it says otherwise.
    open spec fn may_commit(
        seq: Sequence,
        cached_tokens: usize,
        answer: Result<(), String>,
    ) -> bool {
        true
    }

    /// What the model may answer when the slot of a sequence's state is given back:
    /// anything, unless it says otherwise.
    open spec fn may_release(
        sequence_id: usize,
        slot_idx: usize,
        answer: Result<bool, String>,
    ) -> bool {
        true
    }

    /// How many of the cached tokens can be used. Nothing is changed yet.
    fn validate_prefix_cache_hit(
        &mut self,
        seq: &Sequence,
        block_hashes: &Vec<u64>,
        cached_tokens: usize,
        block_size: usize,
    ) -> (r: Result<usize, String>)
        ensures
            Self::may_validate(*seq, block_hashes@, cached_tokens, block_size, r),
    ;

    /// Makes the state of the sequence that of the cached tokens.
    fn commit_prefix_cache_hit(&mut self, seq: &Sequence, cached_tokens: usize) -> (r: Result<
        (),
        String,
    >)
        ensures
            Self::may_commit(*seq, cached_tokens, r),
    ;

    /// Gives back the slot of a state.
    fn release_recurrent_state(&mut self, sequence_id: usize, slot_idx: usize) -> (r: Result<
        bool,
        String,
    >)
        ensures
            Self::may_release(sequence_id, slot_idx, r),
    ;
}

/// The answer of a model without such a state: every hit can be used.
pub struct StatelessModel;

impl PagedPrefixCacheValidator for StatelessModel {
    open spec fn may_validate(
        seq: Sequence,
        block_hashes: Seq<u64>,
        cached_tokens: usize,
        block_size: usize,
        answer: Result<usize, String>,
    ) -> bool {
        answer == Ok::<usize, String>(cached_tokens)
    }

    open spec fn may_commit(
        seq: Sequence,
        cached_tokens: usize,
        answer: Result<(), String>,
    ) -> bool {
        answer is Ok
    }

    open spec fn may_release(
        sequence_id: usize,
        slot_idx: usize,
        answer: Result<bool, String>,
    ) -> bool {
        answer == Ok::<bool, String>(false)
    }

    fn validate_prefix_cache_hit(
        &mut self,
        seq: &Sequence,
        block_hashes: &Vec<u64>,
        cached_tokens: usize,
        block_size: usize,
    ) -> (r: Result<usize, String>) {
        Ok(cached_tokens)
    }

    fn commit_prefix_cache_hit(&mut self, seq: &Sequence, cached_tokens: usize) -> (r: Result<
        (),
        String,
    >) {
        Ok(())
    }

    fn release_recurrent_state(&mut self, sequence_id: usize, slot_idx: usize) -> (r: Result<
        bool,
        String,
    >) {
        Ok(false)
    }
}

/// Why a prompt is not served.
#[derive(Debug)]
pub enum Rejection {
    /// It needs more cache than there is.
    ValidationError,
    /// The model refused its state.
    InternalError(String),
}

/// A prompt that is not served.
#[derive(Debug)]
pub struct RejectedSequence {
    pub sequence: Sequence,
    pub reason: Rejection,
}

/// How often prompts found a prefix in the cache.
#[derive(Debug, Clone, Copy, PartialEq, Eq, Structural)]
pub struct PrefixCacheStats {
    pub hits: usize,
    pub sequences: usize,
}

impl PrefixCacheStats {
    pub fn new() -> (r: Self)
        ensures
            r.hits == 0,
            r.sequences == 0,
    {
        PrefixCacheStats { hits: 0, sequences: 0 }
    }

    /// Counts a new sequence.
    pub fn add_new_sequence(&mut self)
        ensures
            final(self).hits == old(self).hits,
            final(self).sequences == (if old(self).sequences < usize::MAX {
                old(self).sequences + 1
            } else {
                usize::MAX as int
            }),
    {
        if self.sequences < usize::MAX {
            self.sequences = self.sequences + 1;
        }
    }

    /// The hits and the sequences.
    pub fn prefix_cache_stats(&self) -> (r: (usize, usize))
        ensures
            r == (self.hits, self.sequences),
    {
        (self.hits, self.sequences)
    }
}

/// What the model answers in one attempt to admit a prompt.
pub struct Reply {
    pub validated: Result<usize, String>,
    pub committed: Result<(), String>,
}

/// The queues while prompts are admitted.
pub struct Intake {
    pub cache: CacheState,
    pub running: Seq<Sequence>,
    pub waiting: Seq<Sequence>,
    pub preempted: Seq<usize>,
    pub rejected: Seq<RejectedSequence>,
    pub hits: usize,
    /// Whether no more are admitted in this turn.
    pub stopped: bool,
}

/// The model was told that the slot of a sequence's state is free, if the sequence has
/// one: there is an answer of the model to just that.
pub open spec fn gives_back<V: PagedPrefixCacheValidator>(seq: Sequence) -> bool {
    seq.recurrent_state_idx matches Some(slot) ==> exists|answer: Result<bool, String>|
        #[trigger] V::may_release(seq.id, slot, answer)
}

/// A prompt that is not served: it has no slot any more.
pub open spec fn ignored(seq: Sequence) -> Sequence {
    Sequence { state: SequenceState::FinishedIgnored, recurrent_state_idx: None, ..seq }
}

/// A prompt that runs, with so many tokens out of the cache.
pub open spec fn started(seq: Sequence, tokens: usize) -> Sequence {
    Sequence {
        state: SequenceState::RunningPrompt,
        prefix_cache_len: tokens,
        num_computed_tokens: tokens,
        prefix_hit_counted: seq.prefix_hit_counted || tokens > 0,
        ..seq
    }
}

/// The running prompts.
pub open spec fn prompts_of(sequences: Seq<Sequence>) -> Seq<Sequence> {
    kept(sequences, |s: Sequence| s.state == SequenceState::RunningPrompt)
}

/// The first running prompt from `from` on.
pub open spec fn first_prompt(sequences: Seq<Sequence>, from: int) -> Option<int>
    decreases sequences.len() - from,
{
    if from >= sequences.len() {
        None
    } else if sequences[from].state == SequenceState::RunningPrompt {
        Some(from)
    } else {
        first_prompt(sequences, from + 1)
    }
}

/// Whether a prompt holds other kinds of media than the first that runs.
pub open spec fn clashes(running: Seq<Sequence>, seq: Sequence) -> bool {
    match first_prompt(running, 0) {
        Some(i) => running[i].signature() != seq.signature(),
        None => false,
    }
}

/// The pool after a request got the blocks of its first tokens, and the rest is kept
/// for it.
pub open spec fn reserved_for(
    kv: KvState,
    id: usize,
    first: nat,
    all: nat,
    blocks: Seq<usize>,
) -> KvState {
    let next = kv.allocated(id, first, blocks);
    next.reserved(position(next.requests, id)->0, next.to_reserve(next.request(id)->0, all))
}

impl PagedAttentionScheduler {
    /// The blocks of the cached prefix that a prompt starts from, of at most `limit`
    /// tokens. One whose logits are all asked for starts from nothing.
    pub open spec fn prefix_of(
        &self,
        cache: CacheState,
        seq: Sequence,
        limit: usize,
    ) -> Seq<usize> {
        if seq.return_raw_logits || !self.prefix_caching_enabled || !cache.hashes.contains_key(
            seq.id,
        ) {
            Seq::empty()
        } else {
            let found = cache.kv.computed(cache.hashes[seq.id], seq.length() as int);
            let whole = uncut_blocks(seq.mm_features@, found.len() as int, cache.kv.block_size);
            let most = limit as int / cache.kv.block_size;
            found.take(
                if most < whole {
                    most
                } else {
                    whole
                },
            )
        }
    }

    /// Whether there are blocks for all of a prompt.
    pub open spec fn prompt_fits(&self, w: Intake, seq: Sequence, limit: usize) -> bool {
        w.cache.kv.can_allocate(seq.id, seq.length(), self.prefix_of(w.cache, seq, limit))
    }

    /// Whether a prompt gets its blocks part by part.
    pub open spec fn grows(&self, seq: Sequence) -> bool {
        self.scheduler_visible_prompt_chunks && !seq.prompt(self.prefix_policy).atomic()
    }

    /// The last running sequence gave up its place.
    pub open spec fn last_given_up(&self, w: Intake) -> Intake {
        let gone = w.running.last();
        Intake {
            cache: given_up(
                w.cache,
                gone,
                self.block_size as int,
                self.prefix_caching_enabled,
            ),
            running: w.running.drop_last(),
            waiting: seq![set_back(gone)] + w.waiting,
            preempted: w.preempted.push(gone.id),
            ..w
        }
    }

    /// Running sequences gave up their places, from the last on, until a prompt fits.
    pub open spec fn squeezed(&self, w: Intake, seq: Sequence, limit: usize) -> Intake
        decreases w.running.len(),
    {
        if self.prompt_fits(w, seq, limit) || w.running.len() == 0 {
            w
        } else {
            self.squeezed(self.last_given_up(w), seq, limit)
        }
    }

    /// A prompt was refused.
    pub open spec fn refused(&self, w: Intake, seq: Sequence, reason: Rejection) -> Intake {
        Intake {
            cache: forgotten(
                w.cache,
                ignored(seq),
                self.block_size as int,
                self.prefix_caching_enabled,
            ),
            rejected: w.rejected.push(RejectedSequence { sequence: ignored(seq), reason }),
            ..w
        }
    }

    /// A prompt got its blocks.
    pub open spec fn supplied(&self, w: Intake, seq: Sequence, limit: usize) -> Intake {
        let blocks = self.prefix_of(w.cache, seq, limit);
        Intake {
            cache: CacheState {
                kv: if self.grows(seq) {
                    reserved_for(
                        w.cache.kv,
                        seq.id,
                        (blocks.len() * w.cache.kv.block_size) as nat,
                        seq.length(),
                        blocks,
                    )
                } else {
                    w.cache.kv.allocated(seq.id, seq.length(), blocks)
                },
                ..w.cache
            },
            ..w
        }
    }

    /// How often a prompt has found too little cache, with this time.
    pub open spec fn waits_now(&self, cache: CacheState, id: usize) -> usize {
        if !cache.waits.contains_key(id) {
            1
        } else if cache.waits[id] < usize::MAX {
            (cache.waits[id] + 1) as usize
        } else {
            usize::MAX
        }
    }

    /// Room was made for a prompt that lacked blocks, if it has waited long enough.
    pub open spec fn pressed(&self, w: Intake, seq: Sequence, limit: usize) -> Intake {
        let count = self.waits_now(w.cache, seq.id);
        let counted = Intake {
            cache: CacheState { waits: w.cache.waits.insert(seq.id, count), ..w.cache },
            stopped: true,
            ..w
        };
        if count > WAITING_TIMEOUT && self.waiting_prompt_preemption_enabled {
            self.squeezed(counted, seq, limit)
        } else {
            counted
        }
    }

    /// One attempt to admit the first prompt that waits.
    pub open spec fn attempted(&self, w: Intake, reply: Reply) -> Intake {
        let seq = w.waiting[0];
        let rest = Intake { waiting: w.waiting.skip(1), ..w };
        if w.cache.kv.blocks_for(seq.length()) > w.cache.kv.capacity() {
            self.refused(rest, seq, Rejection::ValidationError)
        } else if self.requires_uniform_media_batch && clashes(w.running, seq) {
            Intake { stopped: true, ..w }
        } else {
            self.considered(rest, seq, reply)
        }
    }

    /// A prompt is placed or refused as the model answers.
    pub open spec fn considered(&self, w: Intake, seq: Sequence, reply: Reply) -> Intake {
        let known = Intake { cache: hashed_for(w.cache, seq, self.block_size as int), ..w };
        match reply.validated {
            Err(message) => self.refused(known, seq, Rejection::InternalError(message)),
            Ok(limit) => self.placed(known, seq, limit, reply.committed),
        }
    }

    /// A prompt that may use so many cached tokens runs, or waits on for lack of blocks.
    pub open spec fn placed(
        &self,
        w: Intake,
        seq: Sequence,
        limit: usize,
        committed: Result<(), String>,
    ) -> Intake {
        let ready = self.readied(w, seq, limit);
        if !self.prompt_fits(ready, seq, limit) {
            Intake { waiting: seq![seq] + ready.waiting, ..ready }
        } else {
            self.entered(ready, seq, limit, committed)
        }
    }

    /// Room was made for a prompt where it lacks blocks.
    pub open spec fn readied(&self, w: Intake, seq: Sequence, limit: usize) -> Intake {
        if self.prompt_fits(w, seq, limit) {
            w
        } else {
            self.pressed(w, seq, limit)
        }
    }

    /// The cached tokens that a prompt starts from.
    pub open spec fn reused(&self, w: Intake, seq: Sequence, limit: usize) -> usize {
        (self.prefix_of(w.cache, seq, limit).len() * w.cache.kv.block_size) as usize
    }

    /// The model was asked to take the state of the tokens that a prompt starts from,
    /// where the prompt finds room, and got the slot back where it refused.
    pub open spec fn commits<V: PagedPrefixCacheValidator>(
        &self,
        w: Intake,
        seq: Sequence,
        limit: usize,
        committed: Result<(), String>,
    ) -> bool {
        let ready = self.readied(w, seq, limit);
        self.prompt_fits(ready, seq, limit) ==> {
            &&& V::may_commit(seq, self.reused(ready, seq, limit), committed)
            &&& committed is Err ==> gives_back::<V>(seq)
        }
    }

    /// The model was asked how many of all cached tokens a prompt may use, and then as the
    /// answer led on. Where it refused, it got the slot back.
    pub open spec fn consults<V: PagedPrefixCacheValidator>(
        &self,
        w: Intake,
        seq: Sequence,
        reply: Reply,
    ) -> bool {
        let known = Intake { cache: hashed_for(w.cache, seq, self.block_size as int), ..w };
        &&& V::may_validate(
            seq,
            known.cache.hashes[seq.id],
            self.reused(known, seq, usize::MAX),
            known.cache.kv.block_size as usize,
            reply.validated,
        )
        &&& reply.validated is Err ==> gives_back::<V>(seq)
        &&& reply.validated matches Ok(limit) ==> self.commits::<V>(
            known,
            seq,
            limit,
            reply.committed,
        )
    }

    /// The answers in an attempt are answers of the model to what it was asked. It is asked
    /// nothing of a prompt whose media clash, and of one that is too long it gets the slot
    /// back.
    pub open spec fn answers<V: PagedPrefixCacheValidator>(&self, w: Intake, reply: Reply) -> bool {
        let seq = w.waiting[0];
        if w.cache.kv.blocks_for(seq.length()) > w.cache.kv.capacity() {
            gives_back::<V>(seq)
        } else if self.requires_uniform_media_batch && clashes(w.running, seq) {
            true
        } else {
            self.consults::<V>(Intake { waiting: w.waiting.skip(1), ..w }, seq, reply)
        }
    }

    /// A prompt got its blocks and runs, if the model takes its state.
    pub open spec fn entered(
        &self,
        w: Intake,
        seq: Sequence,
        limit: usize,
        committed: Result<(), String>,
    ) -> Intake {
        let tokens = self.reused(w, seq, limit);
        let held = self.supplied(w, seq, limit);
        match committed {
            Err(message) => self.refused(held, seq, Rejection::InternalError(message)),
            Ok(_) => Intake {
                cache: CacheState { waits: held.cache.waits.remove(seq.id), ..held.cache },
                running: held.running.push(started(seq, tokens)),
                hits: if tokens > 0 && !seq.prefix_hit_counted && held.hits < usize::MAX {
                    (held.hits + 1) as usize
                } else {
                    held.hits
                },
                ..held
            },
        }
    }

    /// Whether one more prompt may be admitted.
    pub open spec fn takes_more(&self, w: Intake) -> bool {
        &&& !w.stopped
        &&& w.waiting.len() > 0
        &&& w.running.len() < self.config.max_num_seqs
        &&& prompts_of(w.running).len() < self.prefill_budget(has_completion(w.running))
    }

    /// The queues after attempts that were answered as given.
    pub open spec fn after_attempts(&self, w: Intake, replies: Seq<Reply>) -> Intake
        decreases replies.len(),
    {
        if replies.len() == 0 {
            w
        } else {
            self.attempted(self.after_attempts(w, replies.drop_last()), replies.last())
        }
    }

    /// The queues as they are.
    pub open spec fn intake(&self, rejected: Seq<RejectedSequence>, hits: usize) -> Intake {
        Intake {
            cache: self.cache(),
            running: self.running@,
            waiting: self.waiting@,
            preempted: self.preempted_sequence_ids@,
            rejected,
            hits,
            stopped: false,
        }
    }

    /// The queues agree with an intake, but for its stop.
    pub open spec fn agrees(
        &self,
        w: Intake,
        rejected: Seq<RejectedSequence>,
        hits: usize,
    ) -> bool {
        &&& self.cache() == w.cache
        &&& self.running@ == w.running
        &&& self.waiting@ == w.waiting
        &&& self.preempted_sequence_ids@ == w.preempted
        &&& rejected == w.rejected
        &&& hits == w.hits
    }

    /// The blocks of the cached prefix that a prompt starts from, and its tokens.
    pub fn reusable_prefix(&self, seq: &Sequence, limit: usize) -> (r: (Vec<usize>, usize))
        requires
            self.wf(),
            features_fit(seq.mm_features@),
        ensures
            r.0@ == self.prefix_of(self.cache(), *seq, limit),
            r.1 == r.0@.len() * self.kv_cache_manager@.block_size,
            r.1 <= seq.length(),
            startable(self.kv_cache_manager@, seq.id, r.0@),
    {
        let mut none: Vec<usize> = Vec::new();
        if seq.return_raw_logits || !self.prefix_caching_enabled {
            return (none, 0);
        }
        match self.seq_block_hashes.get(&seq.id) {
            None => (none, 0),
            Some(hashes) => {
                let found: ComputedBlocks = self.kv_cache_manager.get_computed_blocks(
                    hashes,
                    seq.len(),
                );
                let size: usize = self.kv_cache_manager.block_size();
                let ghost all = found.block_ids@;
                let ghost n = all.len() as int;
                assert(found.num_computed_tokens as int % size as int == 0) by {
                    assert((n * size) % size as int == 0) by (nonlinear_arith)
                        requires
                            size > 0,
                    ;
                }
                let whole: usize = clamp_cached_tokens(
                    &seq.mm_features,
                    found.num_computed_tokens,
                    size,
                );
                proof {
                    lemma_uncut(seq.mm_features@, n, size as int, whole as int);
                }
                let ghost w = uncut_blocks(seq.mm_features@, n, size as int);
                let count: usize = whole / size;
                let most: usize = limit / size;
                assert(count == w) by (nonlinear_arith)
                    requires
                        count == whole / size,
                        whole == w * size,
                        size > 0,
                ;
                let taken: usize = if most < count {
                    most
                } else {
                    count
                };
                proof {
                    assert(0 <= taken * size <= n * size) by (nonlinear_arith)
                        requires
                            0 <= taken <= n,
                            size > 0,
                    ;
                }
                let mut blocks: Vec<usize> = Vec::with_capacity(taken);
                let mut i: usize = 0;
                while i < taken
                    invariant
                        i <= taken <= all.len(),
                        all == found.block_ids@,
                        blocks@ == all.take(i as int),
                    decreases taken - i,
                {
                    blocks.push(found.block_ids[i]);
                    i += 1;
                    assert(blocks@ =~= all.take(i as int));
                }
                let tokens: usize = taken * size;
                proof {
                    assert(startable(self.kv_cache_manager@, seq.id, all));
                    let st = self.kv_cache_manager@;
                    let part = all.take(taken as int);
                    assert forall|k: int| 0 <= k < part.len() implies part[k] == all[k] by {}
                    if st.request(seq.id) is None {
                        assert(st.valid_blocks(part)) by {
                            assert forall|k: int| 0 <= k < part.len() implies st.valid_block(
                                #[trigger] part[k],
                            ) by {
                                assert(st.valid_block(all[k]));
                            }
                        }
                        assert forall|k: int| 0 <= k < part.len() implies st.hashes[(
                        #[trigger] part[k]) as int] is Some by {
                            assert(st.hashes[all[k] as int] is Some);
                        }
                    }
                }
                (blocks, tokens)
            },
        }
    }

    /// Refuses a prompt and gives back its slot.
    fn refuse<V: PagedPrefixCacheValidator>(
        &mut self,
        seq: Sequence,
        reason: Rejection,
        validator: &mut V,
        rejected: &mut Vec<RejectedSequence>,
    )
        requires
            old(self).wf(),
            features_fit(seq.mm_features@),
        ensures
            final(self).wf(),
            final(self).differs_in_cache(old(self)),
            final(self).cache() == forgotten(
                old(self).cache(),
                ignored(seq),
                old(self).block_size as int,
                old(self).prefix_caching_enabled,
            ),
            final(rejected)@ == old(rejected)@.push(
                RejectedSequence { sequence: ignored(seq), reason },
            ),
            gives_back::<V>(seq),
    {
        if let Some(slot) = seq.recurrent_state_idx {
            let released: Result<bool, String> = validator.release_recurrent_state(seq.id, slot);
            assert(V::may_release(seq.id, slot, released));
        }
        let mut gone: Sequence = seq;
        gone.state = SequenceState::FinishedIgnored;
        gone.recurrent_state_idx = None;
        self.forget(&gone);
        rejected.push(RejectedSequence { sequence: gone, reason });
    }

    /// Makes room for a prompt: running sequences give up their places, from the last
    /// on.
    fn squeeze(&mut self, seq: &Sequence, limit: usize, Ghost(w): Ghost<Intake>)
        requires
            old(self).wf(),
            features_fit(seq.mm_features@),
            old(self).agrees(w, w.rejected, w.hits),
        ensures
            final(self).wf(),
            final(self).differs_in_queues(old(self)),
            final(self).agrees(old(self).squeezed(w, *seq, limit), w.rejected, w.hits),
            old(self).squeezed(w, *seq, limit).stopped == w.stopped,
    {
        let ghost mut now = w;
        loop
            invariant
                self.wf(),
                features_fit(seq.mm_features@),
                self.differs_in_queues(old(self)),
                self.agrees(now, w.rejected, w.hits),
                now.stopped == w.stopped,
                old(self).squeezed(w, *seq, limit) == old(self).squeezed(now, *seq, limit),
            decreases self.running@.len(),
        {
            let (blocks, tokens): (Vec<usize>, usize) = self.reusable_prefix(seq, limit);
            let room: bool = self.kv_cache_manager.can_allocate_slots(
                seq.id,
                seq.len(),
                &blocks,
            );
            assert(blocks@ == old(self).prefix_of(now.cache, *seq, limit));
            assert(room == old(self).prompt_fits(now, *seq, limit));
            if room || self.running.len() == 0 {
                return;
            }
            let ghost before = *self;
            if let Some(gone) = self.running.pop() {
                assert(gone == before.running@.last());
                assert(features_fit(before.running@[before.running@.len() - 1].mm_features@));
                self._preempt(gone);
                proof {
                    assert(self.running@ =~= now.running.drop_last());
                    now = old(self).last_given_up(now);
                }
            }
        }
    }

    /// Gives a prompt its blocks. There are enough.
    fn supply(&mut self, seq: &Sequence, limit: usize, Ghost(w): Ghost<Intake>) -> (r: usize)
        requires
            old(self).wf(),
            features_fit(seq.mm_features@),
            old(self).agrees(w, w.rejected, w.hits),
            old(self).prompt_fits(w, *seq, limit),
        ensures
            final(self).wf(),
            final(self).differs_in_cache(old(self)),
            final(self).agrees(old(self).supplied(w, *seq, limit), w.rejected, w.hits),
            r == old(self).prefix_of(w.cache, *seq, limit).len() * w.cache.kv.block_size,
    {
        let (blocks, tokens): (Vec<usize>, usize) = self.reusable_prefix(seq, limit);
        let ghost kv = self.kv_cache_manager@;
        let n: usize = seq.len();
        let atomic: bool = seq.prompt_info(&self.prefix_policy).is_atomic();
        if self.scheduler_visible_prompt_chunks && !atomic {
            proof {
                self.kv_cache_manager.lemma_wf();
                law_admitted_request_can_reserve(kv, seq.id, tokens as nat, n as nat, blocks@);
            }
            let given: Option<Vec<usize>> = self.kv_cache_manager.allocate_slots(
                seq.id,
                tokens,
                &blocks,
            );
            let kept_back: bool = self.kv_cache_manager.reserve_slots(seq.id, n);
            assert(kept_back);
        } else {
            let given: Option<Vec<usize>> = self.kv_cache_manager.allocate_slots(
                seq.id,
                n,
                &blocks,
            );
        }
        tokens
    }

    /// Whether the first prompt that waits holds other media than the first that runs.
    fn front_clashes(&self) -> (r: bool)
        requires
            self.waiting@.len() > 0,
        ensures
            r == clashes(self.running@, self.waiting@[0]),
    {
        let n: usize = self.running.len();
        let mut i: usize = 0;
        while i < n && !self.running[i].is_prompt()
            invariant
                i <= n == self.running@.len(),
                first_prompt(self.running@, 0) == first_prompt(self.running@, i as int),
            decreases n - i,
        {
            i += 1;
        }
        i < n && modality_signature(&self.running[i]) != modality_signature(&self.waiting[0])
    }

    /// Lets a prompt run that has its blocks, if the model takes its state.
    fn enter<V: PagedPrefixCacheValidator>(
        &mut self,
        seq: Sequence,
        limit: usize,
        validator: &mut V,
        stats: &mut PrefixCacheStats,
        rejected: &mut Vec<RejectedSequence>,
        Ghost(w): Ghost<Intake>,
    ) -> (r: Ghost<Result<(), String>>)
        requires
            old(self).wf(),
            features_fit(seq.mm_features@),
            old(self).agrees(w, old(rejected)@, old(stats).hits),
            old(self).prompt_fits(w, seq, limit),
        ensures
            final(self).wf(),
            final(self).differs_in_queues(old(self)),
            final(self).agrees(
                old(self).entered(w, seq, limit, r@),
                final(rejected)@,
                final(stats).hits,
            ),
            V::may_commit(seq, old(self).reused(w, seq, limit), r@),
            r@ is Err ==> gives_back::<V>(seq),
            final(stats).sequences == old(stats).sequences,
    {
        let tokens: usize = self.supply(&seq, limit, Ghost(w));
        let committed: Result<(), String> = validator.commit_prefix_cache_hit(&seq, tokens);
        let ghost answer = committed;
        match committed {
            Err(message) => {
                self.refuse(seq, Rejection::InternalError(message), validator, rejected);
            },
            Ok(_) => {
                self.waiting_counts.remove(&seq.id);
                if tokens > 0 && !seq.prefix_hit_counted && stats.hits < usize::MAX {
                    stats.hits = stats.hits + 1;
                }
                let mut now: Sequence = seq;
                now.state = SequenceState::RunningPrompt;
                now.prefix_cache_len = tokens;
                now.num_computed_tokens = tokens;
                now.prefix_hit_counted = now.prefix_hit_counted || tokens > 0;
                self.running.push(now);
                proof {
                    let held = old(self).supplied(w, seq, limit);
                    assert(self.cache() =~= (CacheState {
                        waits: held.cache.waits.remove(seq.id),
                        ..held.cache
                    }));
                }
            },
        }
        Ghost(answer)
    }

    /// Makes room for a prompt that lacks blocks, if it has waited long enough.
    fn press(&mut self, seq: &Sequence, limit: usize, Ghost(w): Ghost<Intake>)
        requires
            old(self).wf(),
            features_fit(seq.mm_features@),
            old(self).agrees(w, w.rejected, w.hits),
        ensures
            final(self).wf(),
            final(self).differs_in_queues(old(self)),
            final(self).agrees(old(self).pressed(w, *seq, limit), w.rejected, w.hits),
            old(self).pressed(w, *seq, limit).stopped,
    {
        let count: usize = match self.waiting_counts.get(&seq.id) {
            Some(c) => if *c < usize::MAX {
                *c + 1
            } else {
                usize::MAX
            },
            None => 1,
        };
        assert(count == old(self).waits_now(w.cache, seq.id));
        self.waiting_counts.insert(seq.id, count);
        let ghost counted = Intake {
            cache: CacheState { waits: w.cache.waits.insert(seq.id, count), ..w.cache },
            stopped: true,
            ..w
        };
        assert(self.cache() =~= counted.cache);
        if count > WAITING_TIMEOUT && self.waiting_prompt_preemption_enabled {
            let ghost before = *self;
            self.squeeze(seq, limit, Ghost(counted));
            proof {
                lemma_same_settings(*old(self), before, counted, *seq, limit);
            }
        }
    }

    /// Lets a prompt run that may use so many cached tokens, or wait on for lack of
    /// blocks. The result says whether no more are to be admitted.
    fn place<V: PagedPrefixCacheValidator>(
        &mut self,
        seq: Sequence,
        limit: usize,
        validator: &mut V,
        stats: &mut PrefixCacheStats,
        rejected: &mut Vec<RejectedSequence>,
        Ghost(w): Ghost<Intake>,
    ) -> (r: (bool, Ghost<Result<(), String>>))
        requires
            old(self).wf(),
            features_fit(seq.mm_features@),
            old(self).agrees(w, old(rejected)@, old(stats).hits),
            !w.stopped,
        ensures
            final(self).wf(),
            final(self).differs_in_queues(old(self)),
            final(self).agrees(
                old(self).placed(w, seq, limit, r.1@),
                final(rejected)@,
                final(stats).hits,
            ),
            r.0 == old(self).placed(w, seq, limit, r.1@).stopped,
            !r.0 ==> final(self).waiting@ == old(self).waiting@,
            old(self).commits::<V>(w, seq, limit, r.1@),
            final(stats).sequences == old(stats).sequences,
    {
        let n: usize = seq.len();
        let (at_most, used): (Vec<usize>, usize) = self.reusable_prefix(&seq, limit);
        let fits: bool = self.kv_cache_manager.can_allocate_slots(seq.id, n, &at_most);
        assert(fits == old(self).prompt_fits(w, seq, limit));
        let ghost mut ready = w;
        if !fits {
            self.press(&seq, limit, Ghost(w));
            proof {
                ready = old(self).pressed(w, seq, limit);
            }
            let (again, held): (Vec<usize>, usize) = self.reusable_prefix(&seq, limit);
            let now_fits: bool = self.kv_cache_manager.can_allocate_slots(seq.id, n, &again);
            assert(now_fits == old(self).prompt_fits(ready, seq, limit));
            if !now_fits {
                self.waiting.insert(0, seq);
                assert(self.waiting@ =~= seq![seq] + ready.waiting);
                return (true, Ghost(Ok(())));
            }
        }
        let ghost before = *self;
        let committed: Ghost<Result<(), String>> = self.enter(
            seq,
            limit,
            validator,
            stats,
            rejected,
            Ghost(ready),
        );
        assert(before.entered(ready, seq, limit, committed@) == old(self).entered(
            ready,
            seq,
            limit,
            committed@,
        ));
        (!fits, committed)
    }

    /// Places or refuses a prompt as the model answers.
    fn consider<V: PagedPrefixCacheValidator>(
        &mut self,
        seq: Sequence,
        validator: &mut V,
        stats: &mut PrefixCacheStats,
        rejected: &mut Vec<RejectedSequence>,
        Ghost(w): Ghost<Intake>,
    ) -> (r: (bool, Ghost<Reply>))
        requires
            old(self).wf(),
            features_fit(seq.mm_features@),
            old(self).agrees(w, old(rejected)@, old(stats).hits),
            !w.stopped,
        ensures
            final(self).wf(),
            final(self).differs_in_queues(old(self)),
            final(self).agrees(
                old(self).considered(w, seq, r.1@),
                final(rejected)@,
                final(stats).hits,
            ),
            r.0 == old(self).considered(w, seq, r.1@).stopped,
            !r.0 ==> final(self).waiting@ == old(self).waiting@,
            old(self).consults::<V>(w, seq, r.1@),
            final(stats).sequences == old(stats).sequences,
    {
        self.ensure_block_hashes(
            seq.id,
            &seq.tokens,
            &seq.mm_features,
            None,
            seq.block_hash_revision,
        );
        let ghost known = Intake { cache: hashed_for(w.cache, seq, self.block_size as int), ..w };
        assert(self.agrees(known, rejected@, stats.hits));
        let (blocks, tokens): (Vec<usize>, usize) = self.reusable_prefix(&seq, usize::MAX);
        assert(tokens == old(self).reused(known, seq, usize::MAX));
        let size: usize = self.kv_cache_manager.block_size();
        let hashes: Vec<u64> = match self.seq_block_hashes.get(&seq.id) {
            Some(stored) => stored.clone(),
            None => Vec::new(),
        };
        assert(hashes@ =~= known.cache.hashes[seq.id]);
        let validated: Result<usize, String> = validator.validate_prefix_cache_hit(
            &seq,
            &hashes,
            tokens,
            size,
        );
        let ghost answer = validated;
        match validated {
            Err(message) => {
                self.refuse(seq, Rejection::InternalError(message), validator, rejected);
                (false, Ghost(Reply { validated: answer, committed: Ok(()) }))
            },
            Ok(limit) => {
                let ghost before = *self;
                let (stop, committed): (bool, Ghost<Result<(), String>>) = self.place(
                    seq,
                    limit,
                    validator,
                    stats,
                    rejected,
                    Ghost(known),
                );
                proof {
                    lemma_same_place(*old(self), before, known, seq, limit, committed@);
                    lemma_same_commits::<V>(
                        *old(self),
                        before,
                        known,
                        seq,
                        limit,
                        committed@,
                    );
                }
                (stop, Ghost(Reply { validated: answer, committed: committed@ }))
            },
        }
    }

    /// Tries to admit the first prompt that waits. The result says whether no more are
    /// to be admitted.
    fn attempt<V: PagedPrefixCacheValidator>(
        &mut self,
        validator: &mut V,
        stats: &mut PrefixCacheStats,
        rejected: &mut Vec<RejectedSequence>,
        Ghost(w): Ghost<Intake>,
    ) -> (r: (bool, Ghost<Reply>))
        requires
            old(self).wf(),
            old(self).waiting@.len() > 0,
            old(self).agrees(w, old(rejected)@, old(stats).hits),
            !w.stopped,
        ensures
            final(self).wf(),
            final(self).differs_in_queues(old(self)),
            final(self).agrees(
                old(self).attempted(w, r.1@),
                final(rejected)@,
                final(stats).hits,
            ),
            r.0 == old(self).attempted(w, r.1@).stopped,
            !r.0 ==> final(self).waiting@.len() == old(self).waiting@.len() - 1,
            old(self).answers::<V>(w, r.1@),
            final(stats).sequences == old(stats).sequences,
    {
        let ghost silent = Reply { validated: Ok(0), committed: Ok(()) };
        let n: usize = self.waiting[0].len();
        if self.kv_cache_manager.needs_more_than_there_is(n) {
            let seq: Sequence = self.waiting.remove(0);
            assert(self.waiting@ =~= old(self).waiting@.skip(1));
            assert(features_fit(old(self).waiting@[0].mm_features@));
            self.refuse(seq, Rejection::ValidationError, validator, rejected);
            return (false, Ghost(silent));
        }
        if self.requires_uniform_media_batch && self.front_clashes() {
            return (true, Ghost(silent));
        }
        let seq: Sequence = self.waiting.remove(0);
        assert(self.waiting@ =~= old(self).waiting@.skip(1));
        assert(features_fit(old(self).waiting@[0].mm_features@));
        let ghost before = *self;
        let ghost rest = Intake { waiting: w.waiting.skip(1), ..w };
        let (stop, reply): (bool, Ghost<Reply>) = self.consider(
            seq,
            validator,
            stats,
            rejected,
            Ghost(rest),
        );
        proof {
            lemma_same_consider(*old(self), before, rest, seq, reply@);
            lemma_same_consults::<V>(*old(self), before, rest, seq, reply@);
        }
        (stop, reply)
    }

    /// The running prompts.
    fn count_prompts(&self) -> (r: usize)
        ensures
            r == prompts_of(self.running@).len(),
    {
        let n: usize = self.running.len();
        let mut r: usize = 0;
        let mut i: usize = 0;
        assert(self.running@.take(0) =~= Seq::<Sequence>::empty());
        while i < n
            invariant
                r <= i <= n == self.running@.len(),
                r == prompts_of(self.running@.take(i as int)).len(),
            decreases n - i,
        {
            assert(self.running@.take(i + 1).drop_last() =~= self.running@.take(i as int));
            if self.running[i].is_prompt() {
                r += 1;
            }
            i += 1;
        }
        assert(self.running@.take(n as int) =~= self.running@);
        r
    }

    /// Admits prompts while there is room: those that waited longest first.
    pub fn admit_waiting<V: PagedPrefixCacheValidator>(
        &mut self,
        validator: &mut V,
        stats: &mut PrefixCacheStats,
    ) -> (r: Vec<RejectedSequence>)
        requires
            old(self).wf(),
        ensures
            final(self).wf(),
            final(self).differs_in_queues(old(self)),
            old(self).admits::<V>(final(self), old(stats).hits, final(stats).hits, r@),
            final(stats).sequences == old(stats).sequences,
    {
        let mut rejected: Vec<RejectedSequence> = Vec::new();
        let ghost start = self.intake(Seq::empty(), stats.hits);
        let ghost mut replies: Seq<Reply> = Seq::empty();
        let ghost mut w = start;
        let mut stopped: bool = false;
        assert(rejected@ =~= Seq::empty());
        loop
            invariant
                self.wf(),
                self.differs_in_queues(old(self)),
                start == old(self).intake(Seq::empty(), old(stats).hits),
                w == old(self).after_attempts(start, replies),
                old(self).runs::<V>(start, replies),
                self.agrees(w, rejected@, stats.hits),
                stopped == w.stopped,
                stats.sequences == old(stats).sequences,
            ensures
                !old(self).takes_more(w),
            decreases (if stopped { 0nat } else { self.waiting@.len() + 1 }),
        {
            if stopped || self.waiting.len() == 0 || self.running.len()
                >= self.config.max_num_seqs {
                break;
            }
            let mixed: bool = find_completion(&self.running);
            if self.count_prompts() >= self.prefill_token_budget(mixed) {
                break;
            }
            let ghost before = *self;
            let (stop, reply): (bool, Ghost<Reply>) = self.attempt(
                validator,
                stats,
                &mut rejected,
                Ghost(w),
            );
            stopped = stop;
            proof {
                lemma_same_attempt(*old(self), before, w, reply@);
                lemma_same_answers::<V>(*old(self), before, w, reply@);
                let more = replies.push(reply@);
                assert(more.drop_last() =~= replies);
                assert(more.last() == reply@);
                w = old(self).attempted(w, reply@);
                replies = more;
            }
        }
        assert(old(self).admits::<V>(self, old(stats).hits, stats.hits, rejected@)) by {
            assert(old(self).runs::<V>(start, replies));
        }
        rejected
    }

    /// Every attempt was made while more could be taken in, and answered by the model.
    pub open spec fn runs<V: PagedPrefixCacheValidator>(
        &self,
        w: Intake,
        replies: Seq<Reply>,
    ) -> bool
        decreases replies.len(),
    {
        replies.len() == 0 || {
            let before = self.after_attempts(w, replies.drop_last());
            &&& self.runs::<V>(w, replies.drop_last())
            &&& self.takes_more(before)
            &&& self.answers::<V>(before, replies.last())
        }
    }

    /// The queues afterwards are those that attempts lead to as the model answered them,
    /// made as long as more could be taken in, and no longer.
    pub open spec fn admits<V: PagedPrefixCacheValidator>(
        &self,
        after: &Self,
        hits: usize,
        hits_after: usize,
        rejected: Seq<RejectedSequence>,
    ) -> bool {
        let w = self.intake(Seq::empty(), hits);
        exists|replies: Seq<Reply>|
            {
                &&& #[trigger] self.runs::<V>(w, replies)
                &&& !self.takes_more(self.after_attempts(w, replies))
                &&& after.agrees(self.after_attempts(w, replies), rejected, hits_after)
            }
    }
}

proof fn lemma_same_settings(
    a: PagedAttentionScheduler,
    b: PagedAttentionScheduler,
    w: Intake,
    seq: Sequence,
    limit: usize,
)
    requires
        b.differs_in_queues(&a),
    ensures
        a.squeezed(w, seq, limit) == b.squeezed(w, seq, limit),
    decreases w.running.len(),
{
    if !a.prompt_fits(w, seq, limit) && w.running.len() > 0 {
        lemma_same_settings(a, b, a.last_given_up(w), seq, limit);
    }
}

proof fn lemma_same_press(
    a: PagedAttentionScheduler,
    b: PagedAttentionScheduler,
    w: Intake,
    seq: Sequence,
    limit: usize,
)
    requires
        b.differs_in_queues(&a),
    ensures
        a.pressed(w, seq, limit) == b.pressed(w, seq, limit),
{
    let count = a.waits_now(w.cache, seq.id);
    let counted = Intake {
        cache: CacheState { waits: w.cache.waits.insert(seq.id, count), ..w.cache },
        stopped: true,
        ..w
    };
    lemma_same_settings(a, b, counted, seq, limit);
}

proof fn lemma_same_place(
    a: PagedAttentionScheduler,
    b: PagedAttentionScheduler,
    w: Intake,
    seq: Sequence,
    limit: usize,
    committed: Result<(), String>,
)
    requires
        b.differs_in_queues(&a),
    ensures
        a.placed(w, seq, limit, committed) == b.placed(w, seq, limit, committed),
{
    lemma_same_press(a, b, w, seq, limit);
    let ready = if a.prompt_fits(w, seq, limit) {
        w
    } else {
        a.pressed(w, seq, limit)
    };
    assert(a.prompt_fits(w, seq, limit) == b.prompt_fits(w, seq, limit));
    assert(a.prompt_fits(ready, seq, limit) == b.prompt_fits(ready, seq, limit));
    assert(a.entered(ready, seq, limit, committed) == b.entered(ready, seq, limit, committed));
}

proof fn lemma_same_commits<V: PagedPrefixCacheValidator>(
    a: PagedAttentionScheduler,
    b: PagedAttentionScheduler,
    w: Intake,
    seq: Sequence,
    limit: usize,
    committed: Result<(), String>,
)
    requires
        b.differs_in_queues(&a),
    ensures
        a.commits::<V>(w, seq, limit, committed) == b.commits::<V>(w, seq, limit, committed),
{
    lemma_same_press(a, b, w, seq, limit);
    let ready = a.readied(w, seq, limit);
    assert(ready == b.readied(w, seq, limit));
    assert(a.prompt_fits(ready, seq, limit) == b.prompt_fits(ready, seq, limit));
    assert(a.reused(ready, seq, limit) == b.reused(ready, seq, limit));
}

proof fn lemma_same_answers<V: PagedPrefixCacheValidator>(
    a: PagedAttentionScheduler,
    b: PagedAttentionScheduler,
    w: Intake,
    reply: Reply,
)
    requires
        b.differs_in_queues(&a),
    ensures
        a.answers::<V>(w, reply) == b.answers::<V>(w, reply),
{
    let seq = w.waiting[0];
    lemma_same_consults::<V>(a, b, Intake { waiting: w.waiting.skip(1), ..w }, seq, reply);
}

proof fn lemma_same_consults<V: PagedPrefixCacheValidator>(
    a: PagedAttentionScheduler,
    b: PagedAttentionScheduler,
    w: Intake,
    seq: Sequence,
    reply: Reply,
)
    requires
        b.differs_in_queues(&a),
    ensures
        a.consults::<V>(w, seq, reply) == b.consults::<V>(w, seq, reply),
{
    let known = Intake { cache: hashed_for(w.cache, seq, a.block_size as int), ..w };
    assert(a.reused(known, seq, usize::MAX) == b.reused(known, seq, usize::MAX));
    if let Ok(limit) = reply.validated {
        lemma_same_commits::<V>(a, b, known, seq, limit, reply.committed);
    }
}

proof fn lemma_same_consider(
    a: PagedAttentionScheduler,
    b: PagedAttentionScheduler,
    w: Intake,
    seq: Sequence,
    reply: Reply,
)
    requires
        b.differs_in_queues(&a),
    ensures
        a.considered(w, seq, reply) == b.considered(w, seq, reply),
{
    let known = Intake { cache: hashed_for(w.cache, seq, a.block_size as int), ..w };
    if let Ok(limit) = reply.validated {
        lemma_same_place(a, b, known, seq, limit, reply.committed);
    }
}

proof fn lemma_same_attempt(
    a: PagedAttentionScheduler,
    b: PagedAttentionScheduler,
    w: Intake,
    reply: Reply,
)
    requires
        b.differs_in_queues(&a),
    ensures
        a.attempted(w, reply) == b.attempted(w, reply),
{
    let rest = Intake { waiting: w.waiting.skip(1), ..w };
    lemma_same_consider(a, b, rest, w.waiting[0], reply);
}

} // verus!
