//! What calls on sequences, outputs and the pool come to, one behind another.

use vstd::prelude::*;

use crate::paged_attention::block_hash::{clamp_cached_tokens, MultiModalFeature};
use crate::paged_attention::kv_cache_manager::{
    lemma_free_at_most, lemma_position, KvCacheManager,
};
use crate::paged_attention::kv_laws::law_blocks_are_refused_only_for_lack;
use crate::paged_attention::scheduler::hashes::{
    forgotten, given_up, ids_of, releases, CacheState,
};
use crate::paged_attention::scheduler::steps::PagedAttentionSchedulerOutput;
use crate::paged_attention::scheduler::turn_laws::{
    law_a_test_keeps_those_that_pass, law_finished_sequences_are_told,
};
use crate::paged_attention::scheduler::{
    CacheConfig, PagedAttentionScheduler, PagedAttentionSchedulerConfig,
};
use crate::paged_attention::sequence::{
    modality_signature, Sequence, SequenceState, SpeculativePrefixCheckpointPolicy,
    SpeculativePrefixReplay,
};

verus! {

/// A new sequence waits with nothing computed: it is neither a prompt that runs, nor decodes, nor
/// is it finished. Its tokens are those given, and it marks just the media that it has.
pub proof fn law_new_sequences_wait(
    tokens: Vec<u32>,
    id: usize,
    images: usize,
    audios: usize,
    videos: usize,
    s: Sequence,
    next: usize,
    prompt: bool,
    decodes: bool,
    finished: bool,
    len: usize,
    mark: u8,
)
    requires
        call_ensures(Sequence::new_waiting, (tokens, id, images, audios, videos), s),
        call_ensures(Sequence::next_token, (&s,), next),
        call_ensures(Sequence::is_prompt, (&s,), prompt),
        call_ensures(Sequence::is_completion, (&s,), decodes),
        call_ensures(SequenceState::is_finished, (&s.state,), finished),
        call_ensures(Sequence::len, (&s,), len),
        call_ensures(modality_signature, (&s,), mark),
    ensures
        s.id == id,
        s.tokens@ == tokens@,
        len == tokens@.len(),
        next == 0,
        !prompt && !decodes && !finished,
        s.recurrent_state_idx is None && !s.prefix_hit_counted && !s.return_raw_logits,
        mark == 0 <==> images == 0 && audios == 0 && videos == 0,
{
}

/// A generated token comes behind all others, and changes nothing else. Guessed tokens do not count
/// as tokens.
pub proof fn law_sequences_grow_by_their_tokens(s: &mut Sequence, token: u32)
    requires
        call_ensures(Sequence::add_token, (s, token), ()),
    ensures
        final(s).tokens@.len() == old(s).tokens@.len() + 1,
        final(s).tokens@.last() == token,
        final(s).tokens@.drop_last() == old(s).tokens@,
        final(s).block_hash_revision == old(s).block_hash_revision,
        final(s).num_computed_tokens == old(s).num_computed_tokens,
        final(s).prefix_cache_len == old(s).prefix_cache_len,
        final(s).state == old(s).state && final(s).id == old(s).id,
        final(s).staged_speculative == old(s).staged_speculative,
{
    assert(old(s).tokens@.push(token).drop_last() =~= old(s).tokens@);
}

/// Other tokens in place of all of a sequence's come with a later revision, so that hashes of the
/// earlier ones are not taken for theirs; nothing else changes.
pub proof fn law_replaced_tokens_are_told_by_their_revision(s: &mut Sequence, tokens: Vec<u32>)
    requires
        old(s).block_hash_revision < usize::MAX,
        call_ensures(Sequence::set_toks_and_reallocate, (s, tokens), ()),
    ensures
        final(s).tokens@ == tokens@,
        final(s).block_hash_revision == old(s).block_hash_revision + 1,
        final(s).num_computed_tokens == old(s).num_computed_tokens,
        final(s).state == old(s).state && final(s).id == old(s).id,
        final(s).mm_features == old(s).mm_features,
{
}

/// Images are taken once: afterwards there are none, and audio and video stay.
pub proof fn law_images_are_taken_once(s: &mut Sequence, n: usize)
    requires
        call_ensures(Sequence::take_images, (s,), n),
    ensures
        n == old(s).images,
        final(s).images == 0,
        final(s).audios == old(s).audios && final(s).videos == old(s).videos,
        final(s).tokens == old(s).tokens && final(s).mm_features == old(s).mm_features,
{
}

/// Text needs nothing computed again where it is exempt; media never are, and nothing depends on
/// the kind of media otherwise.
pub proof fn law_only_text_is_exempt_from_replay(
    policy: SpeculativePrefixCheckpointPolicy,
    mark: u8,
    r: SpeculativePrefixReplay,
)
    requires
        call_ensures(SpeculativePrefixCheckpointPolicy::replay_for, (&policy, mark), r),
    ensures
        mark != 0 || !policy.text_is_exempt ==> r == policy.replay,
        mark == 0 && policy.text_is_exempt ==> r.count() == 0,
        r.count() <= policy.replay.count(),
        SpeculativePrefixReplay::Nothing.count() == 0,
        forall|n: usize| #[trigger] SpeculativePrefixReplay::Suffix(n).count() == n,
{
}

/// The first prompts of an output are kept, with what is said of each of them; the first one left
/// out is told, if any is.
pub proof fn law_kept_prompts_keep_what_is_said_of_them(
    out: &mut PagedAttentionSchedulerOutput,
    n: usize,
    r: Option<usize>,
)
    requires
        call_ensures(PagedAttentionSchedulerOutput::retain_prompt_prefix, (out, n), r),
        old(out).num_cached_tokens@.len() == old(out).scheduled@.len(),
        old(out).scheduled_prompt_chunks matches Some(c) ==> c@.len() == old(out).scheduled@.len(),
    ensures
        ({
            let m = final(out).scheduled@.len() as int;
            &&& m == (if n < old(out).scheduled@.len() {
                n as int
            } else {
                old(out).scheduled@.len() as int
            })
            &&& final(out).num_cached_tokens@.len() == m
            &&& forall|i: int|
                0 <= i < m ==> #[trigger] final(out).scheduled@[i] == old(out).scheduled@[i]
            &&& forall|i: int|
                0 <= i < m ==> #[trigger] final(out).num_cached_tokens@[i] == old(out).num_cached_tokens@[i]
            &&& r is Some <==> m < old(out).scheduled@.len()
            &&& r is Some ==> r->0 == old(out).scheduled@[m]
            &&& final(out).scheduled_prompt_chunks is Some <==> old(out).scheduled_prompt_chunks
                is Some
            &&& final(out).scheduled_prompt_chunks is Some
                ==> final(out).scheduled_prompt_chunks->0@ == old(out).scheduled_prompt_chunks->0@.take(m)
        }),
{
    if n >= old(out).scheduled@.len() && old(out).scheduled_prompt_chunks is Some {
        let c = old(out).scheduled_prompt_chunks->0@;
        assert(c.take(c.len() as int) =~= c);
    }
}

/// Every block but the first is free or held. What is kept for requests is free. Blocks of a
/// request are counted as they are listed, and no more of them have hashes. There is room for a
/// new request exactly where it could get its blocks, and only where it needs no more than there
/// are.
pub proof fn law_pools_count_their_blocks(
    pool: KvCacheManager,
    id: usize,
    tokens: usize,
    none: Vec<usize>,
    free: usize,
    active: usize,
    kept: usize,
    capacity: usize,
    ids: Option<Vec<usize>>,
    held: usize,
    cached: usize,
    known: bool,
    room: bool,
    can: bool,
    over: bool,
)
    requires
        pool.wf(),
        none@.len() == 0,
        call_ensures(KvCacheManager::num_free_blocks, (&pool,), free),
        call_ensures(KvCacheManager::num_active_blocks, (&pool,), active),
        call_ensures(KvCacheManager::num_reserved_blocks, (&pool,), kept),
        call_ensures(KvCacheManager::capacity, (&pool,), capacity),
        call_ensures(KvCacheManager::get_block_ids, (&pool, id), ids),
        call_ensures(KvCacheManager::num_blocks_for_request, (&pool, id), held),
        call_ensures(KvCacheManager::num_cached_blocks, (&pool, id), cached),
        call_ensures(KvCacheManager::has_request, (&pool, id), known),
        call_ensures(KvCacheManager::has_room_for, (&pool, tokens), room),
        call_ensures(KvCacheManager::can_allocate_slots, (&pool, id, tokens, &none), can),
        call_ensures(KvCacheManager::needs_more_than_there_is, (&pool, tokens), over),
    ensures
        free + active == capacity,
        kept <= free,
        known <==> ids is Some,
        held == (if known {
            ids->0@.len()
        } else {
            0
        }),
        cached <= held,
        !known ==> room == can,
        room ==> !over,
{
    pool.lemma_wf();
    lemma_free_at_most(pool@);
    lemma_position(pool@.requests, id);
    law_blocks_are_refused_only_for_lack(pool@, id, tokens as nat);
    assert(none@ =~= Seq::<usize>::empty());
}

/// A new pool has all its blocks but the first to hand out, and a new scheduler has nothing to do
/// with such a pool.
pub proof fn law_new_pools_are_free(
    block_size: usize,
    blocks: usize,
    pool: KvCacheManager,
    free: usize,
    capacity: usize,
    size: usize,
)
    requires
        block_size > 0,
        blocks > 0,
        call_ensures(KvCacheManager::new, (block_size, blocks), pool),
        call_ensures(KvCacheManager::num_free_blocks, (&pool,), free),
        call_ensures(KvCacheManager::capacity, (&pool,), capacity),
        call_ensures(KvCacheManager::block_size, (&pool,), size),
    ensures
        free == capacity,
        capacity == blocks - 1,
        size == block_size,
        pool@.free.no_duplicates() && !pool@.free.contains(0usize),
        forall|id: usize| #[trigger] pool@.request(id) is None,
{
    assert forall|id: usize| #[trigger] pool@.request(id) is None by {
        lemma_position(pool@.requests, id);
    }
}

/// A new scheduler has an empty pool of the given size, nobody who runs or waits, and nobody whose
/// turn it is.
pub proof fn law_new_schedulers_have_nothing_to_do(
    config: PagedAttentionSchedulerConfig,
    cache: CacheConfig,
    s: PagedAttentionScheduler,
)
    requires
        cache.block_size > 0,
        cache.num_gpu_blocks > 0,
        call_ensures(PagedAttentionScheduler::new, (config, cache), s),
    ensures
        s.running@.len() == 0 && s.waiting@.len() == 0 && s.preempted_sequence_ids@.len() == 0,
        s.kv_cache_manager@.free.len() == s.kv_cache_manager@.capacity(),
        s.kv_cache_manager@.capacity() == cache.num_gpu_blocks - 1,
        s.kv_cache_manager@.block_size == s.block_size,
        s.next_prompt_sequence_id is None && s.decode_steps_since_prefill == 0,
        s.prefix_caching_enabled && s.waiting_prompt_preemption_enabled,
        s.config == config,
{
}

/// Where no feature lies across a cached prefix, the prefix is used as it is; else it ends in front
/// of the first block boundary that such a feature lies across, and never within the feature.
pub proof fn law_cached_prefixes_end_outside_features(
    features: Vec<MultiModalFeature>,
    cached: usize,
    block_size: usize,
    r: usize,
    i: int,
)
    requires
        block_size > 0,
        cached as int % block_size as int == 0,
        call_ensures(clamp_cached_tokens, (&features, cached, block_size), r),
        0 <= i < features@.len(),
    ensures
        r <= cached,
        r as int % block_size as int == 0,
        features@[i].splittable || r <= features@[i].offset || r >= features@[i].offset
            + features@[i].length,
        r < cached ==> exists|j: int|
            0 <= j < features@.len() && !(#[trigger] features@[j]).splittable
                && features@[j].offset < cached && cached < features@[j].offset
                + features@[j].length,
{
    if r < cached {
        assert(crate::paged_attention::block_hash::cuts(features@, cached as int));
    }
}

/// What a sequence computed can be found again only where it was done: one that ended otherwise
/// leaves no hash behind. Nothing of either is remembered but that.
pub proof fn law_only_done_sequences_leave_their_prefix(
    cache: CacheState,
    seq: Sequence,
    block_size: int,
    reuse: bool,
    other: usize,
)
    ensures
        ({
            let after = forgotten(cache, seq, block_size, reuse);
            &&& seq.state !is Done ==> after.kv.hashes == cache.kv.hashes
            &&& seq.state is Done ==> after.kv == given_up(cache, seq, block_size, reuse).kv
            &&& seq.state is Done && !reuse ==> after.kv.hashes == cache.kv.hashes
            &&& !after.hashes.contains_key(seq.id) && !after.revisions.contains_key(seq.id)
                && !after.waits.contains_key(seq.id)
            &&& other != seq.id ==> after.hashes.contains_key(other) == cache.hashes.contains_key(
                other,
            ) && after.hashes[other] == cache.hashes[other] && after.waits.contains_key(other)
                == cache.waits.contains_key(other)
        }),
{
    reveal(given_up);
}

/// Once the finished sequences are let go, those that are not finished are all that is left, each
/// of them, and whoever was told as finished is gone.
pub proof fn law_finished_sequences_leave(s: &mut PagedAttentionScheduler, told: Vec<usize>)
    requires
        call_ensures(PagedAttentionScheduler::get_finished_sequence_ids, (&*old(s),), told),
        call_ensures(PagedAttentionScheduler::free_finished_sequence_groups, (s,), ()),
    ensures
        final(s).running@.len() + final(s).waiting@.len() + told@.len() == old(s).running@.len()
            + old(s).waiting@.len(),
        forall|i: int|
            0 <= i < final(s).running@.len() ==> !(#[trigger] final(s).running@[i]).state.finished() && old(s).running@.contains(final(s).running@[i]),
        forall|i: int|
            0 <= i < old(s).running@.len() && !(#[trigger] old(s).running@[i]).state.finished()
                ==> final(s).running@.contains(old(s).running@[i]),
        forall|i: int|
            0 <= i < old(s).waiting@.len() && !(#[trigger] old(s).waiting@[i]).state.finished()
                ==> final(s).waiting@.contains(old(s).waiting@[i]),
{
    law_finished_sequences_are_told(old(s).running@, 0, 0);
    law_finished_sequences_are_told(old(s).waiting@, 0, 0);
    law_a_test_keeps_those_that_pass(old(s).running@, |q: Sequence| !q.state.finished());
    law_a_test_keeps_those_that_pass(old(s).waiting@, |q: Sequence| !q.state.finished());
}

/// Whoever gave up the cache is named once and then not again; who runs is not named.
pub proof fn law_releases_are_told_once(s: &mut PagedAttentionScheduler, r: Vec<usize>, i: int)
    requires
        call_ensures(PagedAttentionScheduler::take_deferred_speculative_releases, (s,), r),
        0 <= i < r@.len(),
    ensures
        r@.no_duplicates(),
        old(s).preempted_sequence_ids@.contains(r@[i]),
        forall|j: int|
            0 <= j < old(s).running@.len() ==> (#[trigger] old(s).running@[j]).id != r@[i],
        final(s).preempted_sequence_ids@.len() == 0,
        final(s).running == old(s).running && final(s).waiting == old(s).waiting,
{
    let running = ids_of(old(s).running@);
    lemma_releases(
        old(s).preempted_sequence_ids@,
        running,
        old(s).preempted_sequence_ids@.len() as int,
        i,
    );
    assert forall|j: int| 0 <= j < old(s).running@.len() implies (#[trigger] old(s).running@[j]).id != r@[i] by {
        assert(running[j] == old(s).running@[j].id);
    }
}

proof fn lemma_releases(ids: Seq<usize>, running: Seq<usize>, n: int, i: int)
    requires
        0 <= n <= ids.len(),
    ensures
        releases(ids, running, n).no_duplicates(),
        0 <= i < releases(ids, running, n).len() ==> ids.contains(releases(ids, running, n)[i])
            && !running.contains(releases(ids, running, n)[i]),
    decreases n,
{
    if n > 0 {
        lemma_releases(ids, running, n - 1, i);
        let (before, all) = (releases(ids, running, n - 1), releases(ids, running, n));
        assert(ids.contains(ids[n - 1]));
        assert forall|a: int, b: int|
            0 <= a < all.len() && 0 <= b < all.len() && a != b implies all[a] != all[b] by {
            if a < before.len() {
                assert(before.contains(before[a]));
            }
            if b < before.len() {
                assert(before.contains(before[b]));
            }
        }
    }
}

} // verus!
