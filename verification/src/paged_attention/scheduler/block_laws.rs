//! Who gets cache blocks, who gives them up, and what prompts start from.

use vstd::prelude::*;

use crate::paged_attention::block_hash::{cuts, uncut_blocks};
use crate::paged_attention::kv_cache_manager::{
    law_admitted_request_can_reserve, law_allocation_keeps_the_pool, law_caching_keeps_the_pool,
    law_freeing_keeps_the_pool, startable, total_reserved, KvState,
};
use crate::paged_attention::kv_laws::{
    law_blocks_are_refused_only_for_lack, law_found_blocks_are_those_of_the_prompt,
    law_freed_blocks_can_be_handed_out, law_only_computed_blocks_are_cached,
    law_requests_get_the_blocks_they_need, law_reserved_blocks_are_enough,
};
use crate::paged_attention::prompt_plan::PromptBatch;
use crate::paged_attention::scheduler::admission::{clashes, first_prompt, Intake, Reply};
use crate::paged_attention::scheduler::hashes::{given_up, hashed_for, CacheState};
use crate::paged_attention::scheduler::steps::{
    decode_target, granted, has_blocks, prompt_target, seat, victim, with_blocks,
    PagedAttentionSchedulerOutput,
};
use crate::paged_attention::scheduler::PagedAttentionScheduler;
use crate::paged_attention::sequence::{Sequence, SequenceState};

verus! {

proof fn lemma_seat(sequences: Seq<Sequence>, id: usize, from: int)
    requires
        0 <= from,
    ensures
        match seat(sequences, id, from) {
            Some(i) => from <= i < sequences.len() && sequences[i].id == id,
            None => forall|i: int| from <= i < sequences.len() ==> (#[trigger] sequences[i]).id != id,
        },
    decreases sequences.len() - from,
{
    if from < sequences.len() && sequences[from].id != id {
        lemma_seat(sequences, id, from + 1);
    }
}

proof fn lemma_granted_blocks(
    kv: KvState,
    running: Seq<Sequence>,
    batch: PromptBatch,
    k: int,
)
    requires
        kv.wf(),
        0 <= k <= batch.scheduled@.len(),
    ensures
        ({
            let g = granted(kv, running, batch, k);
            &&& g.kv.wf()
            &&& g.kv.block_size == kv.block_size
            &&& forall|i: int, j: int| 0 <= i < j < g.places.len() ==> g.places[i] < g.places[j]
            &&& forall|i: int|
                0 <= i < g.places.len() ==> {
                    let p = #[trigger] g.places[i];
                    let id = batch.scheduled@[p];
                    let at = seat(running, id, 0);
                    &&& 0 <= p < k
                    &&& at is Some
                    &&& g.kv.request(id) is Some
                    &&& g.kv.request(id)->0.blocks.len() * kv.block_size >= prompt_target(
                        running[at->0],
                        batch,
                        p,
                    )
                }
        }),
    decreases k,
{
    if k > 0 {
        lemma_granted_blocks(kv, running, batch, k - 1);
        let before = granted(kv, running, batch, k - 1);
        let g = granted(kv, running, batch, k);
        let id = batch.scheduled@[k - 1];
        lemma_seat(running, id, 0);
        if let Some(j) = seat(running, id, 0) {
            let target = prompt_target(running[j], batch, k - 1);
            if has_blocks(before.kv, id, target) {
                reveal(has_blocks);
                reveal(with_blocks);
                law_requests_get_the_blocks_they_need(before.kv, id, target as nat, Seq::empty());
                law_allocation_keeps_the_pool(before.kv, id, target as nat, Seq::empty());
                assert forall|i: int| 0 <= i < g.places.len() implies {
                    let p = #[trigger] g.places[i];
                    let other = batch.scheduled@[p];
                    let at = seat(running, other, 0);
                    &&& 0 <= p < k
                    &&& at is Some
                    &&& g.kv.request(other) is Some
                    &&& g.kv.request(other)->0.blocks.len() * kv.block_size >= prompt_target(
                        running[at->0],
                        batch,
                        p,
                    )
                } by {
                    if i < before.places.len() {
                        let p = g.places[i];
                        assert(p == before.places[i]);
                        let other = batch.scheduled@[p];
                        if other == id {
                            let (x, y) = (
                                before.kv.request(id)->0.blocks.len() as int,
                                g.kv.request(id)->0.blocks.len() as int,
                            );
                            let size = kv.block_size;
                            assert(x * size <= y * size) by (nonlinear_arith)
                                requires
                                    x <= y,
                                    size > 0,
                            ;
                        }
                    }
                }
            }
        }
    }
}

/// Every prompt of a turn holds blocks for all the tokens that it is to have afterwards: to the
/// end of its part, or of the prompt where it runs whole. The parts are those that were planned
/// for it, and the tokens reported as cached those that it had out of the cache.
pub proof fn law_scheduled_prompts_have_their_blocks(
    s: PagedAttentionScheduler,
    after: PagedAttentionScheduler,
    out: PagedAttentionSchedulerOutput,
    batch: PromptBatch,
    i: int,
) -> (at: int)
    requires
        s.kv_cache_manager@.wf(),
        s.serves(&after, out, batch),
        0 <= i < out.scheduled@.len(),
    ensures
        0 <= at < s.running@.len(),
        s.running@[at].id == out.scheduled@[i],
        out.num_cached_tokens@.len() == out.scheduled@.len(),
        out.num_cached_tokens@[i] == s.running@[at].prefix_cache_len,
        out.scheduled_prompt_chunks is Some <==> batch.chunks is Some,
        after.running == s.running,
        after.kv_cache_manager@.request(out.scheduled@[i]) is Some,
        after.kv_cache_manager@.request(out.scheduled@[i])->0.blocks.len()
            * s.kv_cache_manager@.block_size >= (match out.scheduled_prompt_chunks {
            Some(parts) => parts@[i].end as int,
            None => s.running@[at].tokens@.len() as int,
        }),
{
    let n = batch.scheduled@.len() as int;
    let kv = s.kv_cache_manager@;
    let g = granted(kv, s.running@, batch, n);
    lemma_granted_blocks(kv, s.running@, batch, n);
    let p = g.places[i];
    let id = batch.scheduled@[p];
    assert(out.scheduled@[i] == id);
    lemma_seat(s.running@, id, 0);
    let at = seat(s.running@, id, 0)->0;
    assert(out.num_cached_tokens@[i] == s.running@[at].prefix_cache_len);
    let len = s.running@[at].tokens.len();
    assert(len == s.running@[at].tokens@.len());
    at
}

/// A prompt of a batch is passed over only where it does not run, or lacks blocks that are not
/// kept for others once those before it got theirs.
pub proof fn law_prompts_are_passed_over_only_for_lack(
    kv: KvState,
    running: Seq<Sequence>,
    batch: PromptBatch,
    k: int,
    p: int,
)
    requires
        kv.wf(),
        kv.hashes.len() <= usize::MAX,
        0 <= p < k <= batch.scheduled@.len(),
        !granted(kv, running, batch, k).places.contains(p),
    ensures
        ({
            let id = batch.scheduled@[p];
            let now = granted(kv, running, batch, p).kv;
            let at = seat(running, id, 0);
            let spare = now.free.len() - total_reserved(now.requests);
            at is Some ==> now.blocks_for(
                match batch.chunks {
                    Some(parts) => parts@[p].end as nat,
                    None => running[at->0].tokens@.len(),
                },
            ) > spare + (match now.request(id) {
                Some(r) => r.blocks.len() + r.reserved,
                None => 0,
            })
        }),
    decreases k,
{
    lemma_granted_blocks(kv, running, batch, p);
    let id = batch.scheduled@[p];
    lemma_seat(running, id, 0);
    let before = granted(kv, running, batch, k - 1);
    let g = granted(kv, running, batch, k);
    if p < k - 1 {
        if before.places.contains(p) {
            let x = choose|x: int| 0 <= x < before.places.len() && before.places[x] == p;
            assert(g.places[x] == p);
        }
        law_prompts_are_passed_over_only_for_lack(kv, running, batch, k - 1, p);
    } else if let Some(j) = seat(running, id, 0) {
        let target = prompt_target(running[j], batch, p);
        let len = running[j].tokens.len();
        assert(len == running[j].tokens@.len());
        if has_blocks(before.kv, id, target) {
            assert(g.places[before.places.len() as int] == p);
            assert(g.places.contains(p));
        }
        reveal(has_blocks);
        lemma_granted_len(kv, running, batch, p);
        law_blocks_are_refused_only_for_lack(before.kv, id, target as nat);
    }
}

proof fn lemma_granted_len(kv: KvState, running: Seq<Sequence>, batch: PromptBatch, k: int)
    requires
        kv.wf(),
        0 <= k <= batch.scheduled@.len(),
    ensures
        granted(kv, running, batch, k).kv.hashes.len() == kv.hashes.len(),
    decreases k,
{
    if k > 0 {
        lemma_granted_len(kv, running, batch, k - 1);
        reveal(with_blocks);
    }
}

/// Whoever gives up a place leaves the pool in order, and what others hold.
proof fn lemma_given_up_leaves_others(
    cache: CacheState,
    gone: Sequence,
    block_size: int,
    reuse: bool,
)
    requires
        cache.kv.wf(),
        cache.kv.hashes.len() <= usize::MAX,
    ensures
        ({
            let kv = given_up(cache, gone, block_size, reuse).kv;
            &&& kv.wf()
            &&& kv.block_size == cache.kv.block_size
            &&& kv.hashes.len() == cache.kv.hashes.len()
            &&& forall|other: usize|
                other != gone.id ==> #[trigger] kv.request(other) == cache.kv.request(other)
        }),
{
    reveal(given_up);
    let now = hashed_for(cache, gone, block_size);
    assert(now.kv == cache.kv);
    let hashes = now.hashes[gone.id];
    let n = gone.num_computed_tokens as nat;
    let kept = if reuse {
        now.kv.cached(gone.id, hashes, n)
    } else {
        now.kv
    };
    law_caching_keeps_the_pool(now.kv, gone.id, hashes, n);
    crate::paged_attention::kv_cache_manager::lemma_position(now.kv.requests, gone.id);
    if now.kv.request(gone.id) is Some {
        law_only_computed_blocks_are_cached(now.kv, gone.id, hashes, n);
    }
    law_freed_blocks_can_be_handed_out(kept, gone.id);
    law_freeing_keeps_the_pool(kept, gone.id);
    assert forall|other: usize| other != gone.id implies #[trigger] given_up(
        cache,
        gone,
        block_size,
        reuse,
    ).kv.request(other) == cache.kv.request(other) by {
        assert(kept.freed(gone.id).request(other) == kept.request(other));
        assert(kept.request(other) == now.kv.request(other));
    }
}

/// A running sequence has blocks for its tokens, those that were guessed, and the next one.
pub open spec fn ready_to_decode(w: Intake, id: usize) -> bool {
    exists|i: int|
        0 <= i < w.running.len() && (#[trigger] w.running[i]).id == id && (w.cache.kv.request(id)
            matches Some(r) && r.blocks.len() * w.cache.kv.block_size >= w.running[i].tokens@.len()
            + w.running[i].staged_speculative@.len() + 1)
}

/// The pool of an intake is in order.
spec fn orderly(w: Intake) -> bool {
    &&& w.cache.kv.wf()
    &&& w.cache.kv.hashes.len() <= usize::MAX
    &&& forall|i: int|
        0 <= i < w.running.len() ==> (#[trigger] w.running[i]).tokens@.len()
            + w.running[i].staged_speculative@.len() < usize::MAX
}

/// What is left of those that run, and what those that were served have.
spec fn goes_on(w: Intake, v: Intake, served: Seq<usize>) -> bool {
    &&& orderly(v)
    &&& v.cache.kv.block_size == w.cache.kv.block_size
    &&& forall|o: usize|
        served.contains(o) ==> #[trigger] v.cache.kv.request(o) == w.cache.kv.request(o)
    &&& forall|j: int|
        0 <= j < w.running.len() && served.contains((#[trigger] w.running[j]).id)
            ==> v.running.contains(w.running[j])
}

proof fn lemma_one_leaves(
    s: PagedAttentionScheduler,
    w: Intake,
    j: int,
    served: Seq<usize>,
)
    requires
        orderly(w),
        0 <= j < w.running.len(),
        !served.contains(w.running[j].id),
    ensures
        goes_on(w, s.place_given_up(w, j), served),
{
    let v = s.place_given_up(w, j);
    lemma_given_up_leaves_others(
        w.cache,
        w.running[j],
        s.block_size as int,
        s.prefix_caching_enabled,
    );
    assert forall|i: int| 0 <= i < v.running.len() implies (#[trigger] v.running[i]).tokens@.len()
        + v.running[i].staged_speculative@.len() < usize::MAX by {
        let was = if i < j {
            i
        } else {
            i + 1
        };
        assert(v.running[i] == w.running[was]);
    }
    assert forall|i: int|
        0 <= i < w.running.len() && served.contains((#[trigger] w.running[i]).id) implies
        v.running.contains(w.running[i]) by {
        let k = if i < j {
            i
        } else {
            i - 1
        };
        assert(i != j);
        assert(v.running[k] == w.running[i]);
    }
}

proof fn lemma_row_is_served(
    s: PagedAttentionScheduler,
    w: Intake,
    id: usize,
    served: Seq<usize>,
)
    requires
        orderly(w),
        !served.contains(id),
    ensures
        goes_on(w, s.row_served(w, id, served).0, served),
        s.row_served(w, id, served).1 ==> ready_to_decode(s.row_served(w, id, served).0, id),
    decreases w.running.len(),
{
    reveal_with_fuel(PagedAttentionScheduler::row_served, 2);
    lemma_seat(w.running, id, 0);
    if let Some(i) = seat(w.running, id, 0) {
        let target = decode_target(w.running[i]);
        let seq = w.running[i];
        if has_blocks(w.cache.kv, id, target) {
            reveal(has_blocks);
            reveal(with_blocks);
            law_requests_get_the_blocks_they_need(w.cache.kv, id, target as nat, Seq::empty());
            law_allocation_keeps_the_pool(w.cache.kv, id, target as nat, Seq::empty());
            let v = s.row_served(w, id, served).0;
            assert(v.running == w.running);
            assert(target == seq.tokens@.len() + seq.staged_speculative@.len() + 1);
            assert(v.running[i].id == id);
        } else {
            law_the_last_gives_up_first(w.running, id, served, w.running.len() as int);
            match victim(w.running, id, served, w.running.len() as int) {
                Some(j) => {
                    lemma_one_leaves(s, w, j, served);
                    let mid = s.place_given_up(w, j);
                    lemma_row_is_served(s, mid, id, served);
                    let v = s.row_served(mid, id, served).0;
                    assert forall|x: int|
                        0 <= x < w.running.len() && served.contains(
                            (#[trigger] w.running[x]).id,
                        ) implies v.running.contains(w.running[x]) by {
                        assert(mid.running.contains(w.running[x]));
                        let y = choose|y: int|
                            0 <= y < mid.running.len() && mid.running[y] == w.running[x];
                        assert(served.contains(mid.running[y].id));
                    }
                },
                None => {
                    lemma_one_leaves(s, w, i, served);
                },
            }
        }
    }
}

/// Blocks are taken first from whoever stands last, and never from one that was served in the
/// same step or asks for them.
pub proof fn law_the_last_gives_up_first(
    sequences: Seq<Sequence>,
    id: usize,
    served: Seq<usize>,
    n: int,
)
    requires
        0 <= n <= sequences.len(),
    ensures
        match victim(sequences, id, served, n) {
            Some(j) => {
                &&& 0 <= j < n
                &&& sequences[j].id != id && !served.contains(sequences[j].id)
                &&& forall|k: int|
                    j < k < n ==> (#[trigger] sequences[k]).id == id || served.contains(
                        sequences[k].id,
                    )
            },
            None => forall|k: int|
                0 <= k < n ==> (#[trigger] sequences[k]).id == id || served.contains(
                    sequences[k].id,
                ),
        },
    decreases n,
{
    if n > 0 && !(sequences[n - 1].id != id && !served.contains(sequences[n - 1].id)) {
        law_the_last_gives_up_first(sequences, id, served, n - 1);
    }
}

proof fn lemma_rows_are_served(
    s: PagedAttentionScheduler,
    w: Intake,
    ids: Seq<usize>,
    k: int,
)
    requires
        orderly(w),
        0 <= k <= ids.len(),
    ensures
        orderly(s.rows_served(w, ids, k).0),
        s.rows_served(w, ids, k).0.cache.kv.block_size == w.cache.kv.block_size,
        s.rows_served(w, ids, k).1.no_duplicates(),
        forall|i: int|
            0 <= i < s.rows_served(w, ids, k).1.len() ==> ready_to_decode(
                s.rows_served(w, ids, k).0,
                #[trigger] s.rows_served(w, ids, k).1[i],
            ) && ids.contains(s.rows_served(w, ids, k).1[i]),
    decreases k,
{
    if k > 0 {
        lemma_rows_are_served(s, w, ids, k - 1);
        let (before, served) = s.rows_served(w, ids, k - 1);
        let (now, all) = s.rows_served(w, ids, k);
        let id = ids[k - 1];
        if !served.contains(id) {
            lemma_row_is_served(s, before, id, served);
            assert forall|i: int| 0 <= i < all.len() implies ready_to_decode(
                now,
                #[trigger] all[i],
            ) && ids.contains(all[i]) by {
                if i < served.len() {
                    let o = served[i];
                    assert(all[i] == o);
                    assert(ready_to_decode(before, o));
                    assert(served.contains(o));
                    let x = choose|x: int|
                        0 <= x < before.running.len() && (#[trigger] before.running[x]).id == o && (
                        before.cache.kv.request(o) matches Some(r) && r.blocks.len()
                            * before.cache.kv.block_size >= before.running[x].tokens@.len()
                            + before.running[x].staged_speculative@.len() + 1);
                    assert(now.running.contains(before.running[x]));
                    let y = choose|y: int|
                        0 <= y < now.running.len() && now.running[y] == before.running[x];
                    assert(now.running[y].id == o);
                    assert(now.cache.kv.request(o) == before.cache.kv.request(o));
                }
            }
            assert forall|i: int, j: int|
                0 <= i < all.len() && 0 <= j < all.len() && i != j implies all[i] != all[j] by {
                if i < served.len() && j < served.len() {
                    assert(all[i] == served[i] && all[j] == served[j]);
                } else if i < served.len() {
                    assert(served[i] == all[i] && served.contains(all[i]));
                } else {
                    assert(served[j] == all[j] && served.contains(all[j]));
                }
            }
        }
    }
}

/// Every sequence of a decode step runs, holds blocks for its tokens, its guesses and the next
/// token, is one that was planned for the step, and is in it once; and a step counts as one only
/// where somebody is in it.
pub proof fn law_scheduled_rows_have_their_blocks(
    s: PagedAttentionScheduler,
    after: PagedAttentionScheduler,
    out: PagedAttentionSchedulerOutput,
    i: int,
)
    requires
        s.kv_cache_manager@.wf(),
        s.kv_cache_manager@.hashes.len() <= usize::MAX,
        forall|j: int|
            0 <= j < s.running@.len() ==> (#[trigger] s.running@[j]).tokens@.len()
                + s.running@[j].staged_speculative@.len() < usize::MAX,
        s.steps_from(&after, out),
        0 <= i < out.scheduled@.len(),
    ensures
        out.scheduled@.no_duplicates(),
        s.next_step_ids().contains(out.scheduled@[i]),
        exists|j: int|
            0 <= j < after.running@.len() && (#[trigger] after.running@[j]).id == out.scheduled@[i]
                && (after.kv_cache_manager@.request(out.scheduled@[i]) matches Some(r)
                && r.blocks.len() * s.kv_cache_manager@.block_size >= after.running@[j].tokens@.len()
                + after.running@[j].staged_speculative@.len() + 1),
        s.decode_steps_since_prefill < usize::MAX ==> after.decode_steps_since_prefill
            == s.decode_steps_since_prefill + 1,
        out.scheduled_prompt_chunks is None && out.prompt_chunk_size is None
            && out.num_cached_tokens@.len() == 0,
{
    let w = s.intake(Seq::empty(), 0);
    let ids = s.next_step_ids();
    assert(orderly(w));
    lemma_rows_are_served(s, w, ids, ids.len() as int);
    let v = s.rows_served(w, ids, ids.len() as int).0;
    assert(ready_to_decode(v, out.scheduled@[i]));
    assert(after.cache().kv == v.cache.kv);
}

/// A prompt starts from cached blocks of its own beginning, under its own hashes, without a gap;
/// at least one of its tokens is left to compute. It starts from nothing where its raw logits
/// are asked for or prefixes are not reused. It uses no more than the model allows, and does not
/// begin within media that cannot be split, unless the model stops it there.
pub proof fn law_prompts_start_from_their_own_prefix(
    s: PagedAttentionScheduler,
    cache: CacheState,
    seq: Sequence,
    limit: usize,
)
    requires
        cache.kv.wf(),
        cache.kv.hashes.len() <= usize::MAX,
    ensures
        ({
            let b = s.prefix_of(cache, seq, limit);
            let size = cache.kv.block_size;
            &&& seq.return_raw_logits || !s.prefix_caching_enabled ==> b.len() == 0
            &&& b.len() > 0 ==> cache.hashes.contains_key(seq.id) && b.len() * size
                < seq.tokens@.len() && b.len() * size <= limit
            &&& b.no_duplicates()
            &&& forall|i: int|
                0 <= i < b.len() ==> i < cache.hashes[seq.id].len() && 1 <= (#[trigger] b[i])
                    < cache.kv.hashes.len() && cache.kv.hashes[b[i] as int] == Some(
                    cache.hashes[seq.id][i],
                )
            &&& b.len() > 0 && (b.len() + 1) * size <= limit ==> !cuts(
                seq.mm_features@,
                b.len() * size,
            )
            &&& seq.mm_features@.len() == 0 && limit == usize::MAX && seq.tokens@.len()
                <= usize::MAX && !seq.return_raw_logits && s.prefix_caching_enabled
                && cache.hashes.contains_key(seq.id) ==> b == cache.kv.computed(
                cache.hashes[seq.id],
                seq.length() as int,
            )
        }),
{
    let size = cache.kv.block_size;
    let b = s.prefix_of(cache, seq, limit);
    if !seq.return_raw_logits && s.prefix_caching_enabled && cache.hashes.contains_key(seq.id) {
        let wanted = cache.hashes[seq.id];
        let found = cache.kv.computed(wanted, seq.length() as int);
        law_found_blocks_are_those_of_the_prompt(cache.kv, wanted, seq.length() as int);
        let n = found.len() as int;
        let whole = uncut_blocks(seq.mm_features@, n, size);
        lemma_uncut_blocks(seq.mm_features@, n, size);
        let most = limit as int / size;
        let m = b.len() as int;
        assert(0 <= most && most * size <= limit && limit < (most + 1) * size) by (nonlinear_arith)
            requires
                most == limit as int / size,
                size > 0,
                limit >= 0,
        ;
        assert(m <= n && m <= most);
        assert(m * size <= n * size && m * size <= most * size) by (nonlinear_arith)
            requires
                m <= n,
                m <= most,
                size > 0,
        ;
        assert(forall|i: int| 0 <= i < m ==> b[i] == found[i]);
        if m > 0 && (m + 1) * size <= limit {
            assert(m < most) by (nonlinear_arith)
                requires
                    (m + 1) * size <= limit,
                    limit < (most + 1) * size,
                    size > 0,
            ;
            assert(m == whole);
        }
        if seq.mm_features@.len() == 0 && limit == usize::MAX && seq.tokens@.len() <= usize::MAX {
            assert(whole == n);
            assert(n <= most) by (nonlinear_arith)
                requires
                    n == 0 || n * size < seq.tokens@.len(),
                    seq.tokens@.len() <= limit,
                    limit < (most + 1) * size,
                    most >= 0,
                    size > 0,
            ;
            assert(found.take(n) =~= found);
        }
    }
}

proof fn lemma_uncut_blocks(
    features: Seq<crate::paged_attention::block_hash::MultiModalFeature>,
    n: int,
    size: int,
)
    requires
        0 <= n,
    ensures
        0 <= uncut_blocks(features, n, size) <= n,
        uncut_blocks(features, n, size) > 0 ==> !cuts(
            features,
            uncut_blocks(features, n, size) * size,
        ),
        features.len() == 0 ==> uncut_blocks(features, n, size) == n,
    decreases n,
{
    if n > 0 && cuts(features, n * size) {
        lemma_uncut_blocks(features, n - 1, size);
    }
}

/// Those who run give up their places from the last on, only until the prompt fits, and wait in
/// front of the others.
pub proof fn law_room_is_made_from_the_end(
    s: PagedAttentionScheduler,
    w: Intake,
    seq: Sequence,
    limit: usize,
)
    ensures
        ({
            let v = s.squeezed(w, seq, limit);
            let n = v.running.len() as int;
            &&& n <= w.running.len() && v.running == w.running.take(n)
            &&& s.prompt_fits(v, seq, limit) || n == 0
            &&& s.prompt_fits(w, seq, limit) ==> v == w
            &&& v.waiting.len() == w.waiting.len() + w.running.len() - n
            &&& v.waiting.skip(w.running.len() - n) == w.waiting
            &&& forall|i: int|
                n <= i < w.running.len() ==> (#[trigger] v.waiting[i - n]).id == w.running[i].id
                    && v.waiting[i - n].state == SequenceState::Waiting && v.waiting[i
                    - n].num_computed_tokens == 0
            &&& v.rejected == w.rejected && v.hits == w.hits && v.stopped == w.stopped
        }),
    decreases w.running.len(),
{
    let v = s.squeezed(w, seq, limit);
    if s.prompt_fits(w, seq, limit) || w.running.len() == 0 {
        assert(w.running.take(w.running.len() as int) =~= w.running);
        assert(w.waiting.skip(0) =~= w.waiting);
    } else {
        let next = s.last_given_up(w);
        law_room_is_made_from_the_end(s, next, seq, limit);
        let n = v.running.len() as int;
        assert(next.running.take(n) =~= w.running.take(n));
        let m = next.running.len() - n;
        assert(v.waiting.skip(m) == next.waiting);
        assert(v.waiting.skip(m + 1) =~= next.waiting.skip(1));
        assert(next.waiting.skip(1) =~= w.waiting);
        assert forall|i: int| n <= i < w.running.len() implies (#[trigger] v.waiting[i - n]).id
            == w.running[i].id && v.waiting[i - n].state == SequenceState::Waiting && v.waiting[i
            - n].num_computed_tokens == 0 by {
            if i < next.running.len() {
                assert(next.running[i] == w.running[i]);
            } else {
                assert(v.waiting[i - n] == v.waiting.skip(m)[0]);
            }
        }
    }
}

/// A prompt that is admitted holds blocks for all its tokens, or those that it does not hold yet
/// are kept for it, where it is computed in parts. It begins with the cached blocks of its
/// prefix.
pub proof fn law_admitted_prompts_have_room(
    s: PagedAttentionScheduler,
    w: Intake,
    seq: Sequence,
    limit: usize,
)
    requires
        w.cache.kv.wf(),
        w.cache.kv.hashes.len() <= usize::MAX,
        w.cache.kv.request(seq.id) is None,
        startable(w.cache.kv, seq.id, s.prefix_of(w.cache, seq, limit)),
        s.prompt_fits(w, seq, limit),
    ensures
        ({
            let kv = s.supplied(w, seq, limit).cache.kv;
            let b = s.prefix_of(w.cache, seq, limit);
            let r = kv.request(seq.id)->0;
            let cut = s.scheduler_visible_prompt_chunks && !seq.return_raw_logits && (
            seq.mm_features@.len() > 0 || (seq.images == 0 && seq.audios == 0 && seq.videos == 0));
            &&& kv.request(seq.id) is Some
            &&& b.len() <= r.blocks.len() && r.blocks.take(b.len() as int) == b
            &&& !cut ==> r.blocks.len() * w.cache.kv.block_size >= seq.tokens@.len()
            &&& cut ==> (r.blocks.len() + r.reserved) * w.cache.kv.block_size >= seq.tokens@.len()
            &&& cut ==> r.blocks == b
            &&& forall|other: usize|
                other != seq.id ==> #[trigger] kv.request(other) == w.cache.kv.request(other)
        }),
{
    let kv = w.cache.kv;
    let b = s.prefix_of(w.cache, seq, limit);
    let size = kv.block_size;
    let n = seq.tokens.len();
    assert(n == seq.tokens@.len());
    law_prompts_start_from_their_own_prefix(s, w.cache, seq, limit);
    if s.grows(seq) {
        let first = (b.len() * size) as nat;
        assert(b.len() * size >= 0) by (nonlinear_arith)
            requires
                size > 0,
                b.len() >= 0,
        ;
        assert(first <= seq.length()) by {
            if b.len() == 0 {
                assert(0 * size == 0);
            }
        }
        law_admitted_request_can_reserve(kv, seq.id, first, seq.length(), b);
        law_requests_get_the_blocks_they_need(kv, seq.id, first, b);
        law_allocation_keeps_the_pool(kv, seq.id, first, b);
        let next = kv.allocated(seq.id, first, b);
        law_reserved_blocks_are_enough(next, seq.id, seq.length());
        let r = next.request(seq.id)->0;
        if r.blocks.len() > b.len() {
            let (x, y) = (r.blocks.len() - 1, b.len() as int);
            assert(x * size >= y * size) by (nonlinear_arith)
                requires
                    x >= y,
                    size > 0,
            ;
        }
        assert(r.blocks =~= r.blocks.take(b.len() as int));
    } else {
        law_requests_get_the_blocks_they_need(kv, seq.id, seq.length(), b);
    }
}

/// What comes of the first prompt that waits: it is refused for its length exactly where it needs
/// more blocks than there are; it waits on, with everybody else, where its media clash with those
/// of the running prompts and must not; and else it is refused as the model answers, runs, or
/// waits on for lack of blocks. Nobody loses a place to it before it has waited sixty-four times
/// in vain, or where that is not allowed.
pub proof fn law_first_in_line_is_served_first(s: PagedAttentionScheduler, w: Intake, reply: Reply)
    requires
        w.waiting.len() > 0,
    ensures
        ({
            let seq = w.waiting[0];
            let a = s.attempted(w, reply);
            let long = w.cache.kv.blocks_for(seq.tokens@.len()) > w.cache.kv.capacity();
            let clash = s.requires_uniform_media_batch && clashes(w.running, seq);
            let patient = !w.cache.waits.contains_key(seq.id) || w.cache.waits[seq.id] < 64;
            let runs = a.rejected == w.rejected && a.running.len() > 0 && a.running.last().id
                == seq.id && a.running.last().state == SequenceState::RunningPrompt
                && a.running.last().tokens == seq.tokens;
            let refused = a.rejected.len() == w.rejected.len() + 1
                && a.rejected.last().sequence.id == seq.id;
            let waits = a.stopped && a.rejected == w.rejected && a.waiting.contains(seq);
            &&& long ==> refused && a.rejected.last().reason is ValidationError && a.running
                == w.running && a.waiting == w.waiting.skip(1)
            &&& refused && a.rejected.last().reason is ValidationError ==> long
            &&& !long && clash ==> waits && a.running == w.running && a.waiting == w.waiting
                && a.cache == w.cache
            &&& !long && !clash && reply.validated is Err ==> refused
            &&& !long && !clash && reply.validated is Ok ==> refused || runs || waits
            &&& patient || !s.waiting_prompt_preemption_enabled ==> a.preempted == w.preempted
                && a.running.len() >= w.running.len() && a.running.take(w.running.len() as int)
                == w.running
        }),
{
    let seq = w.waiting[0];
    let rest = Intake { waiting: w.waiting.skip(1), ..w };
    let a = s.attempted(w, reply);
    assert(w.waiting.contains(seq));
    assert(w.running.take(w.running.len() as int) =~= w.running);
    let n = seq.tokens.len();
    assert(n == seq.tokens@.len());
    let long = w.cache.kv.blocks_for(seq.length()) > w.cache.kv.capacity();
    let clash = s.requires_uniform_media_batch && clashes(w.running, seq);
    if !long && !clash {
        let known = Intake { cache: hashed_for(rest.cache, seq, s.block_size as int), ..rest };
        if let Ok(limit) = reply.validated {
            let ready = s.readied(known, seq, limit);
            let count = s.waits_now(known.cache, seq.id);
            let counted = Intake {
                cache: CacheState {
                    waits: known.cache.waits.insert(seq.id, count),
                    ..known.cache
                },
                stopped: true,
                ..known
            };
            law_room_is_made_from_the_end(s, counted, seq, limit);
            if !s.prompt_fits(ready, seq, limit) {
                assert(a.waiting == seq![seq] + ready.waiting);
                assert(a.waiting[0] == seq);
            } else {
                let held = s.supplied(ready, seq, limit);
                if reply.committed is Ok {
                    assert(a.running.take(ready.running.len() as int) =~= ready.running);
                    if ready.running == w.running {
                        assert(a.running.take(w.running.len() as int) =~= w.running);
                    }
                }
            }
        }
    }
}

/// A prompt that is admitted is computed as far as the cached prefix that it starts from, which is
/// shorter than the prompt. It counts as a hit where it starts from any and was not counted before,
/// and its waiting is over.
pub proof fn law_admitted_prompts_start_behind_their_prefix(
    s: PagedAttentionScheduler,
    w: Intake,
    seq: Sequence,
    limit: usize,
)
    requires
        w.cache.kv.wf(),
        w.cache.kv.hashes.len() <= usize::MAX,
    ensures
        ({
            let a = s.entered(w, seq, limit, Ok(()));
            let last = a.running.last();
            let b = s.prefix_of(w.cache, seq, limit);
            &&& a.running.len() == w.running.len() + 1
            &&& a.running.drop_last() == w.running
            &&& last.num_computed_tokens == b.len() * w.cache.kv.block_size
            &&& last.prefix_cache_len == last.num_computed_tokens
            &&& last.num_computed_tokens > 0 ==> last.num_computed_tokens < seq.tokens@.len()
                && last.prefix_hit_counted
            &&& last.tokens == seq.tokens && last.id == seq.id && last.state
                == SequenceState::RunningPrompt
            &&& !a.cache.waits.contains_key(seq.id)
            &&& a.rejected == w.rejected && a.waiting == w.waiting && a.preempted == w.preempted
            &&& w.hits < usize::MAX ==> a.hits - w.hits == (if last.num_computed_tokens > 0
                && !seq.prefix_hit_counted {
                1int
            } else {
                0
            })
        }),
{
    law_prompts_start_from_their_own_prefix(s, w.cache, seq, limit);
    let b = s.prefix_of(w.cache, seq, limit);
    let size = w.cache.kv.block_size;
    if b.len() == 0 {
        assert(0 * size == 0) by (nonlinear_arith);
    }
    let n = seq.tokens.len();
    assert(n == seq.tokens@.len());
    assert(b.len() * size >= 0) by (nonlinear_arith)
        requires
            size > 0,
            b.len() >= 0,
    ;
    assert(s.entered(w, seq, limit, Ok(())).running.drop_last() =~= w.running);
}

/// A prompt clashes only with a running prompt of other media, and with none where all running
/// prompts hold the same kinds as it; it does clash where all of them hold others.
pub proof fn law_prompts_clash_over_media(running: Seq<Sequence>, seq: Sequence)
    ensures
        clashes(running, seq) ==> exists|i: int|
            0 <= i < running.len() && (#[trigger] running[i]).state == SequenceState::RunningPrompt
                && running[i].signature() != seq.signature(),
        (forall|i: int|
            0 <= i < running.len() && (#[trigger] running[i]).state
                == SequenceState::RunningPrompt ==> running[i].signature() != seq.signature()) && (
        exists|i: int|
            0 <= i < running.len() && (#[trigger] running[i]).state
                == SequenceState::RunningPrompt) ==> clashes(running, seq),
{
    lemma_first_prompt(running, 0);
}

proof fn lemma_first_prompt(running: Seq<Sequence>, from: int)
    requires
        0 <= from,
    ensures
        match first_prompt(running, from) {
            Some(i) => from <= i < running.len() && running[i].state
                == SequenceState::RunningPrompt,
            None => forall|i: int|
                from <= i < running.len() ==> (#[trigger] running[i]).state
                    != SequenceState::RunningPrompt,
        },
    decreases running.len() - from,
{
    if from < running.len() && running[from].state != SequenceState::RunningPrompt {
        lemma_first_prompt(running, from + 1);
    }
}

} // verus!
