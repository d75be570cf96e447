//! What the scheduler keeps in the cache for a sequence: the hashes of its blocks,
//! and what becomes of them when the sequence gives up its place.

use vstd::prelude::*;
use vstd::std_specs::hash::*;

use crate::lists::contains_index;
use crate::paged_attention::block_hash::{
    block_hashes, compute_block_hashes, extend_block_hashes, extended, features_fit,
    MultiModalFeature,
};
use crate::paged_attention::kv_cache_manager::KvState;
use crate::paged_attention::scheduler::{all_features_fit, PagedAttentionScheduler};
use crate::paged_attention::sequence::{Sequence, SequenceState, StopReason};

verus! {

broadcast use group_hash_axioms;

/// How stored hashes are brought up to date.
#[derive(Debug, Clone, Copy, PartialEq, Eq, Structural)]
pub enum BlockHashUpdate {
    /// Blocks have become full since.
    Append,
    /// Earlier tokens may have changed.
    Rebuild,
}

/// The cache as the scheduler sees it.
#[verifier::ext_equal]
pub struct CacheState {
    pub kv: KvState,
    /// The hashes of each sequence.
    pub hashes: Map<usize, Seq<u64>>,
    /// The revision of the tokens that they were made from.
    pub revisions: Map<usize, usize>,
    /// How often each waiting prompt found too little cache.
    pub waits: Map<usize, usize>,
}

/// Whether and how the stored hashes of a sequence are brought up to date.
pub open spec fn hash_update(
    cache: CacheState,
    id: usize,
    num_tokens: int,
    block_size: int,
    revision: usize,
) -> Option<BlockHashUpdate> {
    let full = num_tokens / block_size;
    if !cache.hashes.contains_key(id) || !cache.revisions.contains_key(id)
        || cache.revisions[id] != revision || cache.hashes[id].len() > full {
        Some(BlockHashUpdate::Rebuild)
    } else if cache.hashes[id].len() < full {
        Some(BlockHashUpdate::Append)
    } else {
        None
    }
}

/// The cache once the hashes of a sequence are up to date.
pub open spec fn hashed(
    cache: CacheState,
    id: usize,
    tokens: Seq<u32>,
    block_size: int,
    features: Seq<MultiModalFeature>,
    extra: Seq<u64>,
    revision: usize,
) -> CacheState {
    match hash_update(cache, id, tokens.len() as int, block_size, revision) {
        None => cache,
        Some(BlockHashUpdate::Append) => CacheState {
            hashes: cache.hashes.insert(
                id,
                extended(
                    cache.hashes[id],
                    tokens,
                    block_size,
                    features,
                    extra,
                    tokens.len() as int / block_size,
                ),
            ),
            ..cache
        },
        Some(BlockHashUpdate::Rebuild) => CacheState {
            hashes: cache.hashes.insert(id, block_hashes(tokens, block_size, features, extra)),
            revisions: cache.revisions.insert(id, revision),
            ..cache
        },
    }
}

/// The same for all that the hashes of a sequence depend on.
pub open spec fn hashed_for(cache: CacheState, seq: Sequence, block_size: int) -> CacheState {
    hashed(
        cache,
        seq.id,
        seq.tokens@,
        block_size,
        seq.mm_features@,
        Seq::empty(),
        seq.block_hash_revision,
    )
}

/// The cache after a sequence gave its blocks back. What it has computed can be
/// found again, if prefixes are reused.
#[verifier::opaque]
pub open spec fn given_up(
    cache: CacheState,
    seq: Sequence,
    block_size: int,
    reuse: bool,
) -> CacheState {
    let now = hashed_for(cache, seq, block_size);
    let kept = if reuse {
        now.kv.cached(seq.id, now.hashes[seq.id], seq.num_computed_tokens as nat)
    } else {
        now.kv
    };
    CacheState { kv: kept.freed(seq.id), ..now }
}

/// The cache after sequences gave their blocks back, the last one first.
pub open spec fn all_given_up(
    cache: CacheState,
    gone: Seq<Sequence>,
    block_size: int,
    reuse: bool,
) -> CacheState
    decreases gone.len(),
{
    if gone.len() == 0 {
        cache
    } else {
        all_given_up(
            given_up(cache, gone.last(), block_size, reuse),
            gone.drop_last(),
            block_size,
            reuse,
        )
    }
}

/// The cache after a sequence that is finished was forgotten. Only what was
/// computed without an error can be found again.
pub open spec fn forgotten(
    cache: CacheState,
    seq: Sequence,
    block_size: int,
    reuse: bool,
) -> CacheState {
    let after = if seq.state is Done {
        given_up(cache, seq, block_size, reuse)
    } else {
        CacheState { kv: cache.kv.freed(seq.id), ..cache }
    };
    CacheState {
        hashes: after.hashes.remove(seq.id),
        revisions: after.revisions.remove(seq.id),
        waits: after.waits.remove(seq.id),
        ..after
    }
}

/// The cache after the finished ones among sequences were forgotten, in order.
pub open spec fn finished_forgotten(
    cache: CacheState,
    sequences: Seq<Sequence>,
    block_size: int,
    reuse: bool,
) -> CacheState
    decreases sequences.len(),
{
    if sequences.len() == 0 {
        cache
    } else {
        let before = finished_forgotten(cache, sequences.drop_last(), block_size, reuse);
        if sequences.last().state.finished() {
            forgotten(before, sequences.last(), block_size, reuse)
        } else {
            before
        }
    }
}

/// A sequence that has to be computed again from the start.
pub open spec fn set_back(seq: Sequence) -> Sequence {
    Sequence {
        state: SequenceState::Waiting,
        prefix_cache_len: 0,
        num_computed_tokens: 0,
        ..seq
    }
}

/// Sequences that have to be computed again from the start.
pub open spec fn all_set_back(gone: Seq<Sequence>) -> Seq<Sequence> {
    Seq::new(gone.len(), |i: int| set_back(gone[i]))
}

/// The sequences that pass a test, in order.
pub open spec fn kept(sequences: Seq<Sequence>, keep: spec_fn(Sequence) -> bool) -> Seq<Sequence>
    decreases sequences.len(),
{
    if sequences.len() == 0 {
        Seq::empty()
    } else {
        let before = kept(sequences.drop_last(), keep);
        if keep(sequences.last()) {
            before.push(sequences.last())
        } else {
            before
        }
    }
}

/// The sequences that are not finished.
pub open spec fn live(sequences: Seq<Sequence>) -> Seq<Sequence> {
    kept(sequences, |s: Sequence| !s.state.finished())
}

/// The ids of the finished sequences, in order.
pub open spec fn finished_ids(sequences: Seq<Sequence>) -> Seq<usize>
    decreases sequences.len(),
{
    if sequences.len() == 0 {
        Seq::empty()
    } else {
        let before = finished_ids(sequences.drop_last());
        if sequences.last().state.finished() {
            before.push(sequences.last().id)
        } else {
            before
        }
    }
}

/// The slots that finished sequences carry their state in, with their ids.
pub open spec fn finished_slots(sequences: Seq<Sequence>) -> Seq<(usize, usize)>
    decreases sequences.len(),
{
    if sequences.len() == 0 {
        Seq::empty()
    } else {
        let before = finished_slots(sequences.drop_last());
        match sequences.last().recurrent_state_idx {
            Some(slot) if sequences.last().state.finished() => before.push(
                (sequences.last().id, slot),
            ),
            _ => before,
        }
    }
}

impl PagedAttentionScheduler {
    /// The cache as the scheduler sees it.
    pub open spec fn cache(&self) -> CacheState {
        CacheState {
            kv: self.kv_cache_manager@,
            hashes: self.seq_block_hashes@.map_values(|v: Vec<u64>| v@),
            revisions: self.seq_block_hash_revisions@,
            waits: self.waiting_counts@,
        }
    }

    /// Whether and how the stored hashes of a sequence are to be brought up to date.
    pub fn block_hash_update(&self, id: usize, num_tokens: usize, revision: usize) -> (r: Option<
        BlockHashUpdate,
    >)
        requires
            self.block_size > 0,
        ensures
            r == hash_update(
                self.cache(),
                id,
                num_tokens as int,
                self.block_size as int,
                revision,
            ),
    {
        let full: usize = num_tokens / self.block_size;
        match self.seq_block_hashes.get(&id) {
            None => Some(BlockHashUpdate::Rebuild),
            Some(hashes) => match self.seq_block_hash_revisions.get(&id) {
                None => Some(BlockHashUpdate::Rebuild),
                Some(stored) => if *stored != revision || hashes.len() > full {
                    Some(BlockHashUpdate::Rebuild)
                } else if hashes.len() < full {
                    Some(BlockHashUpdate::Append)
                } else {
                    None
                },
            },
        }
    }

    /// Brings the stored hashes of a sequence up to date.
    pub fn ensure_block_hashes(
        &mut self,
        id: usize,
        tokens: &Vec<u32>,
        features: &Vec<MultiModalFeature>,
        adapter: Option<u64>,
        revision: usize,
    )
        requires
            old(self).block_size > 0,
            features_fit(features@),
        ensures
            final(self).differs_in_cache(old(self)),
            final(self).kv_cache_manager == old(self).kv_cache_manager,
            final(self).waiting_counts == old(self).waiting_counts,
            final(self).cache() == hashed(
                old(self).cache(),
                id,
                tokens@,
                old(self).block_size as int,
                features@,
                (match adapter {
                    Some(key) => seq![key],
                    None => Seq::empty(),
                }),
                revision,
            ),
            final(self).cache().hashes.contains_key(id),
    {
        let extra: Vec<u64> = match adapter {
            Some(key) => vec![key],
            None => Vec::new(),
        };
        let ghost keys = match adapter {
            Some(key) => seq![key],
            None => Seq::empty(),
        };
        assert(extra@ =~= keys);
        match self.block_hash_update(id, tokens.len(), revision) {
            None => {},
            Some(BlockHashUpdate::Append) => {
                let ghost before = self.seq_block_hashes@;
                if let Some(stored) = self.seq_block_hashes.get(&id) {
                    let mut hashes: Vec<u64> = stored.clone();
                    assert(hashes@ =~= before[id]@);
                    extend_block_hashes(&mut hashes, tokens, self.block_size, features, &extra);
                    self.seq_block_hashes.insert(id, hashes);
                    assert(self.seq_block_hashes@.map_values(|v: Vec<u64>| v@) =~= old(
                        self,
                    ).cache().hashes.insert(id, hashes@));
                }
            },
            Some(BlockHashUpdate::Rebuild) => {
                let hashes: Vec<u64> = compute_block_hashes(
                    tokens,
                    self.block_size,
                    features,
                    &extra,
                );
                self.seq_block_hashes.insert(id, hashes);
                self.seq_block_hash_revisions.insert(id, revision);
                assert(self.seq_block_hashes@.map_values(|v: Vec<u64>| v@) =~= old(
                    self,
                ).cache().hashes.insert(id, hashes@));
            },
        }
    }

    /// Takes the blocks of a sequence back.
    fn give_up(&mut self, seq: &Sequence)
        requires
            old(self).wf(),
            features_fit(seq.mm_features@),
        ensures
            final(self).differs_in_cache(old(self)),
            final(self).wf(),
            final(self).cache() == given_up(
                old(self).cache(),
                *seq,
                old(self).block_size as int,
                old(self).prefix_caching_enabled,
            ),
    {
        self.ensure_block_hashes(
            seq.id,
            &seq.tokens,
            &seq.mm_features,
            None,
            seq.block_hash_revision,
        );
        let ghost now = self.cache();
        if self.prefix_caching_enabled {
            if let Some(hashes) = self.seq_block_hashes.get(&seq.id) {
                let given: Vec<u64> = hashes.clone();
                assert(given@ =~= now.hashes[seq.id]);
                self.kv_cache_manager.cache_blocks(seq.id, &given, seq.num_computed_tokens);
            }
        }
        self.kv_cache_manager.free(seq.id);
        proof {
            reveal(given_up);
            assert(self.cache() =~= given_up(
                old(self).cache(),
                *seq,
                old(self).block_size as int,
                old(self).prefix_caching_enabled,
            ));
        }
    }

    /// Takes the blocks of a sequence back and lets it wait first.
    pub fn _preempt(&mut self, seq: Sequence)
        requires
            old(self).wf(),
            features_fit(seq.mm_features@),
        ensures
            final(self).wf(),
            final(self).cache() == given_up(
                old(self).cache(),
                seq,
                old(self).block_size as int,
                old(self).prefix_caching_enabled,
            ),
            final(self).waiting@ == seq![set_back(seq)] + old(self).waiting@,
            final(self).preempted_sequence_ids@ == old(self).preempted_sequence_ids@.push(seq.id),
            final(self).differs_in_queues(old(self)),
            final(self).running == old(self).running,
    {
        self.give_up(&seq);
        self.preempted_sequence_ids.push(seq.id);
        let mut again: Sequence = seq;
        again.state = SequenceState::Waiting;
        again.prefix_cache_len = 0;
        again.num_computed_tokens = 0;
        self.waiting.insert(0, again);
        assert(self.waiting@ =~= seq![set_back(seq)] + old(self).waiting@);
    }

    /// Takes the blocks of sequences back and lets them wait first, in their order.
    pub fn preempt_all(&mut self, gone: Vec<Sequence>)
        requires
            old(self).wf(),
            all_features_fit(gone@),
        ensures
            final(self).wf(),
            final(self).cache() == all_given_up(
                old(self).cache(),
                gone@,
                old(self).block_size as int,
                old(self).prefix_caching_enabled,
            ),
            final(self).waiting@ == all_set_back(gone@) + old(self).waiting@,
            final(self).preempted_sequence_ids@ == old(self).preempted_sequence_ids@ + ids_of(
                gone@,
            ).reverse(),
            final(self).differs_in_queues(old(self)),
            final(self).running == old(self).running,
    {
        let mut rest: Vec<Sequence> = gone;
        let ghost all = gone@;
        let ghost size = self.block_size as int;
        let ghost reuse = self.prefix_caching_enabled;
        assert(all_set_back(all.skip(all.len() as int)) + self.waiting@ =~= self.waiting@);
        assert(self.preempted_sequence_ids@ + ids_of(all.skip(all.len() as int)).reverse()
            =~= self.preempted_sequence_ids@);
        while rest.len() > 0
            invariant
                self.wf(),
                all_features_fit(all),
                rest@.len() <= all.len(),
                rest@ == all.take(rest@.len() as int),
                size == old(self).block_size,
                reuse == old(self).prefix_caching_enabled,
                all_given_up(old(self).cache(), all, size, reuse) == all_given_up(
                    self.cache(),
                    rest@,
                    size,
                    reuse,
                ),
                self.waiting@ == all_set_back(all.skip(rest@.len() as int)) + old(self).waiting@,
                self.preempted_sequence_ids@ == old(self).preempted_sequence_ids@ + ids_of(
                    all.skip(rest@.len() as int),
                ).reverse(),
                self.differs_in_queues(old(self)),
            self.running == old(self).running,
            decreases rest@.len(),
        {
            let ghost n = rest@.len() as int;
            let ghost before = *self;
            if let Some(seq) = rest.pop() {
                assert(seq == all[n - 1]);
                self._preempt(seq);
                proof {
                    assert(rest@ =~= all.take(n).drop_last());
                    assert(rest@ =~= all.take(n - 1));
                    assert(self.waiting@ =~= all_set_back(all.skip(n - 1)) + old(self).waiting@);
                    assert(self.preempted_sequence_ids@ =~= old(self).preempted_sequence_ids@
                        + ids_of(all.skip(n - 1)).reverse());
                }
            }
        }
        assert(all.skip(0) =~= all);
    }

    /// Forgets a sequence that is finished.
    pub fn forget(&mut self, seq: &Sequence)
        requires
            old(self).wf(),
            features_fit(seq.mm_features@),
        ensures
            final(self).wf(),
            final(self).differs_in_cache(old(self)),
            final(self).cache() == forgotten(
                old(self).cache(),
                *seq,
                old(self).block_size as int,
                old(self).prefix_caching_enabled,
            ),
    {
        if let SequenceState::Done(_) = seq.state {
            self.give_up(seq);
        } else {
            self.kv_cache_manager.free(seq.id);
        }
        let ghost after = self.cache();
        self.seq_block_hashes.remove(&seq.id);
        self.seq_block_hash_revisions.remove(&seq.id);
        self.waiting_counts.remove(&seq.id);
        assert(self.cache().hashes =~= after.hashes.remove(seq.id));
    }

    /// Forgets the finished ones among sequences and gives back the others.
    fn forget_finished(&mut self, sequences: Vec<Sequence>) -> (r: Vec<Sequence>)
        requires
            old(self).wf(),
            all_features_fit(sequences@),
        ensures
            final(self).wf(),
            final(self).differs_in_cache(old(self)),
            final(self).cache() == finished_forgotten(
                old(self).cache(),
                sequences@,
                old(self).block_size as int,
                old(self).prefix_caching_enabled,
            ),
            r@ == live(sequences@),
            all_features_fit(r@),
    {
        let ghost all = sequences@;
        let ghost size = self.block_size as int;
        let ghost reuse = self.prefix_caching_enabled;
        let mut list: Vec<Sequence> = sequences;
        let mut i: usize = 0;
        let ghost mut k = 0int;
        proof {
            assert(all.take(0) =~= Seq::<Sequence>::empty());
            assert(list@ =~= live(all.take(0)) + all.skip(0));
        }
        while i < list.len()
            invariant
                self.wf(),
                all_features_fit(all),
                size == old(self).block_size,
                reuse == old(self).prefix_caching_enabled,
                self.differs_in_cache(old(self)),
                0 <= k <= all.len(),
                i == live(all.take(k)).len(),
                list@ == live(all.take(k)) + all.skip(k),
                self.cache() == finished_forgotten(old(self).cache(), all.take(k), size, reuse),
            decreases all.len() - k,
        {
            assert(k < all.len());
            assert(list@[i as int] == all[k]);
            assert(all.take(k + 1).drop_last() =~= all.take(k));
            assert(all.take(k + 1).last() == all[k]);
            if list[i].state.is_finished() {
                let seq: Sequence = list.remove(i);
                self.forget(&seq);
                assert(list@ =~= live(all.take(k + 1)) + all.skip(k + 1));
            } else {
                i += 1;
                assert(list@ =~= live(all.take(k + 1)) + all.skip(k + 1));
            }
            proof {
                k = k + 1;
            }
        }
        proof {
            assert(k == all.len());
            assert(all.take(k) =~= all);
            assert(list@ =~= live(all));
            lemma_kept_fit(all, |s: Sequence| !s.state.finished());
        }
        list
    }

    /// Forgets all sequences that are finished.
    pub fn free_finished_sequence_groups(&mut self)
        requires
            old(self).wf(),
        ensures
            final(self).wf(),
            final(self).running@ == live(old(self).running@),
            final(self).waiting@ == live(old(self).waiting@),
            final(self).cache() == finished_forgotten(
                finished_forgotten(
                    old(self).cache(),
                    old(self).running@,
                    old(self).block_size as int,
                    old(self).prefix_caching_enabled,
                ),
                old(self).waiting@,
                old(self).block_size as int,
                old(self).prefix_caching_enabled,
            ),
            final(self).differs_in_queues(old(self)),
            final(self).preempted_sequence_ids == old(self).preempted_sequence_ids,
    {
        let mut running: Vec<Sequence> = Vec::new();
        std::mem::swap(&mut running, &mut self.running);
        let mut waiting: Vec<Sequence> = Vec::new();
        std::mem::swap(&mut waiting, &mut self.waiting);
        let running_left: Vec<Sequence> = self.forget_finished(running);
        let waiting_left: Vec<Sequence> = self.forget_finished(waiting);
        self.running = running_left;
        self.waiting = waiting_left;
    }

    /// The finished sequences: those that ran before those that waited.
    pub fn get_finished_sequence_ids(&self) -> (r: Vec<usize>)
        ensures
            r@ == finished_ids(self.running@) + finished_ids(self.waiting@),
    {
        let mut r: Vec<usize> = Vec::new();
        push_finished_ids(&self.running, &mut r);
        push_finished_ids(&self.waiting, &mut r);
        assert(r@ =~= finished_ids(self.running@) + finished_ids(self.waiting@));
        r
    }

    /// The slots that finished sequences carry their state in, with their ids.
    pub fn get_finished_recurrent_slots(&self) -> (r: Vec<(usize, usize)>)
        ensures
            r@ == finished_slots(self.running@) + finished_slots(self.waiting@),
    {
        let mut r: Vec<(usize, usize)> = Vec::new();
        push_finished_slots(&self.running, &mut r);
        push_finished_slots(&self.waiting, &mut r);
        assert(r@ =~= finished_slots(self.running@) + finished_slots(self.waiting@));
        r
    }

    /// The sequences whose guesses are to be dropped: those that gave up their cache
    /// since this was last asked for and do not run again, each once.
    pub fn take_deferred_speculative_releases(&mut self) -> (r: Vec<usize>)
        ensures
            r@ == releases(
                old(self).preempted_sequence_ids@,
                ids_of(old(self).running@),
                old(self).preempted_sequence_ids@.len() as int,
            ),
            final(self).preempted_sequence_ids@.len() == 0,
            *final(self) == (PagedAttentionScheduler {
                preempted_sequence_ids: final(self).preempted_sequence_ids,
                ..*old(self)
            }),
    {
        let mut given: Vec<usize> = Vec::new();
        std::mem::swap(&mut given, &mut self.preempted_sequence_ids);
        let running: Vec<usize> = list_ids(&self.running);
        let n: usize = given.len();
        let mut r: Vec<usize> = Vec::new();
        let mut i: usize = 0;
        while i < n
            invariant
                i <= n == given@.len(),
                running@ == ids_of(old(self).running@),
                r@ == releases(given@, running@, i as int),
            decreases n - i,
        {
            let id: usize = given[i];
            if !contains_index(&running, id) && !contains_index(&r, id) {
                r.push(id);
            }
            i += 1;
        }
        r
    }

    /// Ends the sequences that nobody waits for any more.
    pub fn cancel_closed_response_groups(&mut self, closed: &Vec<usize>)
        ensures
            final(self).running@ == canceled(old(self).running@, closed@),
            final(self).waiting@ == canceled(old(self).waiting@, closed@),
            *final(self) == (PagedAttentionScheduler {
                running: final(self).running,
                waiting: final(self).waiting,
                ..*old(self)
            }),
    {
        cancel_in(&mut self.running, closed);
        cancel_in(&mut self.waiting, closed);
    }
}

/// The ids of sequences.
pub open spec fn ids_of(sequences: Seq<Sequence>) -> Seq<usize> {
    Seq::new(sequences.len(), |i: int| sequences[i].id)
}

/// The first `n` ids that are not among the running ones, each once.
pub open spec fn releases(ids: Seq<usize>, running: Seq<usize>, n: int) -> Seq<usize>
    decreases n,
{
    if n <= 0 {
        Seq::empty()
    } else {
        let before = releases(ids, running, n - 1);
        if running.contains(ids[n - 1]) || before.contains(ids[n - 1]) {
            before
        } else {
            before.push(ids[n - 1])
        }
    }
}

/// Sequences once those with the given ids are ended. One that is finished stays
/// as it is.
pub open spec fn canceled(sequences: Seq<Sequence>, closed: Seq<usize>) -> Seq<Sequence> {
    Seq::new(
        sequences.len(),
        |i: int|
            if closed.contains(sequences[i].id) && !sequences[i].state.finished() {
                Sequence { state: SequenceState::Done(StopReason::Canceled), ..sequences[i] }
            } else {
                sequences[i]
            },
    )
}

/// What holds of the features of all sequences holds of those of some.
pub proof fn lemma_kept_fit(sequences: Seq<Sequence>, keep: spec_fn(Sequence) -> bool)
    requires
        all_features_fit(sequences),
    ensures
        all_features_fit(kept(sequences, keep)),
    decreases sequences.len(),
{
    if sequences.len() > 0 {
        assert(forall|i: int|
            0 <= i < sequences.drop_last().len() ==> sequences.drop_last()[i] == sequences[i]);
        lemma_kept_fit(sequences.drop_last(), keep);
        assert(features_fit(sequences[sequences.len() - 1].mm_features@));
    }
}

fn list_ids(sequences: &Vec<Sequence>) -> (r: Vec<usize>)
    ensures
        r@ == ids_of(sequences@),
{
    let n: usize = sequences.len();
    let mut r: Vec<usize> = Vec::with_capacity(n);
    let mut i: usize = 0;
    while i < n
        invariant
            i <= n == sequences@.len(),
            r@ == ids_of(sequences@).take(i as int),
        decreases n - i,
    {
        r.push(sequences[i].id);
        i += 1;
        assert(r@ =~= ids_of(sequences@).take(i as int));
    }
    assert(r@ =~= ids_of(sequences@));
    r
}

fn cancel_in(sequences: &mut Vec<Sequence>, closed: &Vec<usize>)
    ensures
        final(sequences)@ == canceled(old(sequences)@, closed@),
{
    let n: usize = sequences.len();
    let ghost before = sequences@;
    let mut i: usize = 0;
    while i < n
        invariant
            i <= n == before.len(),
            sequences@.len() == n,
            forall|j: int|
                0 <= j < i ==> #[trigger] sequences@[j] == canceled(before, closed@)[j],
            forall|j: int| i <= j < n ==> #[trigger] sequences@[j] == before[j],
        decreases n - i,
    {
        if contains_index(closed, sequences[i].id) && !sequences[i].state.is_finished() {
            sequences[i].state = SequenceState::Done(StopReason::Canceled);
        }
        i += 1;
    }
    assert(sequences@ =~= canceled(before, closed@));
}

fn push_finished_ids(sequences: &Vec<Sequence>, r: &mut Vec<usize>)
    ensures
        final(r)@ == old(r)@ + finished_ids(sequences@),
{
    let n: usize = sequences.len();
    let ghost before = r@;
    let mut i: usize = 0;
    assert(sequences@.take(0) =~= Seq::<Sequence>::empty());
    assert(r@ =~= before + finished_ids(sequences@.take(0)));
    while i < n
        invariant
            i <= n == sequences@.len(),
            r@ == before + finished_ids(sequences@.take(i as int)),
        decreases n - i,
    {
        assert(sequences@.take(i + 1).drop_last() =~= sequences@.take(i as int));
        if sequences[i].state.is_finished() {
            r.push(sequences[i].id);
        }
        i += 1;
        assert(r@ =~= before + finished_ids(sequences@.take(i as int)));
    }
    assert(sequences@.take(n as int) =~= sequences@);
}

fn push_finished_slots(sequences: &Vec<Sequence>, r: &mut Vec<(usize, usize)>)
    ensures
        final(r)@ == old(r)@ + finished_slots(sequences@),
{
    let n: usize = sequences.len();
    let ghost before = r@;
    let mut i: usize = 0;
    assert(sequences@.take(0) =~= Seq::<Sequence>::empty());
    assert(r@ =~= before + finished_slots(sequences@.take(0)));
    while i < n
        invariant
            i <= n == sequences@.len(),
            r@ == before + finished_slots(sequences@.take(i as int)),
        decreases n - i,
    {
        assert(sequences@.take(i + 1).drop_last() =~= sequences@.take(i as int));
        if sequences[i].state.is_finished() {
            if let Some(slot) = sequences[i].recurrent_state_idx {
                r.push((sequences[i].id, slot));
            }
        }
        i += 1;
        assert(r@ =~= before + finished_slots(sequences@.take(i as int)));
    }
    assert(sequences@.take(n as int) =~= sequences@);
}

} // verus!
