//! What holds of the pool of cache blocks, whatever is asked of it.

use vstd::prelude::*;

use crate::ops::law_rounding_up_is_enough;
use crate::paged_attention::kv_cache_manager::{
    find, hits, law_freeing_keeps_the_pool, law_reserved_blocks_can_be_allocated,
    law_reserving_keeps_the_pool, lemma_find_from, lemma_free_at_most, lemma_hits, lemma_position,
    lemma_position_unique, lemma_registered_found, lemma_registered_len, lemma_released,
    lemma_reserved_parts, lemma_without, position, registered, released, reusable_blocks, startable,
    total_reserved, uses, without, KvState, RequestState,
};

verus! {

/// Requests with the same ids in the same places stand in the same places.
proof fn lemma_same_positions(a: Seq<RequestState>, b: Seq<RequestState>, id: usize)
    requires
        a.len() == b.len(),
        forall|i: int| 0 <= i < a.len() ==> (#[trigger] a[i]).id == b[i].id,
    ensures
        position(a, id) == position(b, id),
    decreases a.len(),
{
    if a.len() > 0 {
        let (p, q) = (a.drop_last(), b.drop_last());
        assert forall|i: int| 0 <= i < p.len() implies (#[trigger] p[i]).id == q[i].id by {
            assert(a[i].id == b[i].id);
        }
        lemma_same_positions(p, q, id);
        assert(a[a.len() - 1].id == b[a.len() - 1].id);
    }
}

/// Changing one request leaves the others.
proof fn lemma_others_stay(st: KvState, requests: Seq<RequestState>, id: usize, other: usize)
    requires
        other != id,
        match position(st.requests, id) {
            Some(i) => requests.len() == st.requests.len() && requests == st.requests.update(
                i,
                requests[i],
            ) && requests[i].id == id,
            None => requests.len() == st.requests.len() + 1 && requests.drop_last() == st.requests
                && requests.last().id == id,
        },
    ensures
        position(requests, other) == position(st.requests, other),
        position(st.requests, other) matches Some(j) ==> requests[j] == st.requests[j],
        position(requests, id) == (match position(st.requests, id) {
            Some(i) => Some(i),
            None => Some(st.requests.len() as int),
        }),
{
    lemma_position(st.requests, id);
    lemma_position(st.requests, other);
    if let Some(i) = position(st.requests, id) {
        assert forall|k: int| 0 <= k < requests.len() implies (#[trigger] requests[k]).id
            == st.requests[k].id by {
            assert(requests[k] == st.requests.update(i, requests[i])[k]);
        }
        lemma_same_positions(requests, st.requests, other);
        lemma_same_positions(requests, st.requests, id);
        if let Some(j) = position(st.requests, other) {
            assert(requests[j] == st.requests.update(i, requests[i])[j]);
        }
    } else if let Some(j) = position(st.requests, other) {
        assert(requests.drop_last()[j] == requests[j]);
    }
}

/// A request that is given blocks has enough of them for its tokens, and not one more than it
/// needs or had. It keeps those that it had, in their order, or begins with the cached blocks
/// of its prefix; the new ones were free, the next ones to hand out first, have lost what was
/// cached in them, and are held by nobody else. Nothing else changes.
pub proof fn law_requests_get_the_blocks_they_need(
    st: KvState,
    id: usize,
    num_tokens: nat,
    computed: Seq<usize>,
)
    requires
        st.wf(),
        startable(st, id, computed),
        st.can_allocate(id, num_tokens, computed),
    ensures
        ({
            let next = st.allocated(id, num_tokens, computed);
            let had = match st.request(id) {
                Some(r) => r.blocks,
                None => computed,
            };
            let r = next.request(id)->0;
            let m = had.len() as int;
            &&& next.request(id) is Some
            &&& r.id == id
            &&& r.blocks.len() * st.block_size >= num_tokens
            &&& r.blocks.len() >= m && r.blocks.take(m) == had
            &&& r.blocks.len() > m ==> (r.blocks.len() - 1) * st.block_size < num_tokens
            &&& forall|k: int|
                m <= k < r.blocks.len() ==> {
                    let b = #[trigger] r.blocks[k];
                    &&& st.free.contains(b)
                    &&& !next.free.contains(b)
                    &&& !had.contains(b)
                    &&& next.hashes[b as int] is None
                    &&& st.request(id) is Some ==> b == st.free[k - m]
                }
            &&& next.block_size == st.block_size
            &&& next.hashes.len() == st.hashes.len()
            &&& forall|b: int|
                0 <= b < st.hashes.len() && !r.blocks.skip(m).contains(b as usize)
                    ==> #[trigger] next.hashes[b] == st.hashes[b]
            &&& forall|other: usize|
                other != id ==> #[trigger] next.request(other) == st.request(other)
            &&& st.request(id) is Some ==> next.free == st.free.skip(r.blocks.len() - m)
        }),
{
    let next = st.allocated(id, num_tokens, computed);
    let start = st.start_of(id, computed);
    let had = start.blocks;
    let m = had.len() as int;
    let need = st.lacking(id, num_tokens, computed);
    let open = st.unpinned(id, computed);
    let fresh = open.take(need);
    lemma_position(st.requests, id);
    lemma_reserved_parts(st.requests);
    lemma_without(st.free, computed);
    law_rounding_up_is_enough(num_tokens, st.block_size as nat);
    let at = match position(st.requests, id) {
        Some(i) => i,
        None => st.requests.len() as int,
    };
    let grown = next.requests[at];
    assert(st.requests.push(grown).drop_last() =~= st.requests);
    assert(st.requests.push(grown).last() == grown);
    let any: usize = if id == 0 {
        1
    } else {
        0
    };
    lemma_others_stay(st, next.requests, id, any);
    let r = next.request(id)->0;
    assert(r == grown);
    assert(r.blocks == had + fresh);
    assert(r.blocks.take(m) =~= had);
    assert(r.blocks.skip(m) =~= fresh);
    let c = st.blocks_for(num_tokens);
    assert(r.blocks.len() >= c);
    let (size, len) = (st.block_size, r.blocks.len() as int);
    assert(len * size >= c * size) by (nonlinear_arith)
        requires
            len >= c,
            size > 0,
    ;
    assert forall|k: int| m <= k < r.blocks.len() implies {
        let b = #[trigger] r.blocks[k];
        &&& st.free.contains(b)
        &&& !next.free.contains(b)
        &&& !had.contains(b)
        &&& next.hashes[b as int] is None
        &&& st.request(id) is Some ==> b == st.free[k - m]
    } by {
        let b = r.blocks[k];
        assert(b == open[k - m]);
        assert(open.contains(b));
        assert(fresh[k - m] == b && fresh.contains(b));
        let f = choose|f: int| 0 <= f < st.free.len() && st.free[f] == b;
        assert(st.valid_block(st.free[f]));
        if next.free.contains(b) {
            let x = choose|x: int| 0 <= x < next.free.len() && next.free[x] == b;
            assert(open[x + need] == b);
        }
        if had.contains(b) {
            if let Some(i) = position(st.requests, id) {
                assert(st.requests[i].blocks.contains(b));
                lemma_held_is_used(st.requests, i, b);
                assert(uses(st.requests, b) == 0);
            }
        }
    }
    assert forall|other: usize| other != id implies #[trigger] next.request(other) == st.request(
        other,
    ) by {
        lemma_others_stay(st, next.requests, id, other);
    }
}

/// A block that a request holds is used.
proof fn lemma_held_is_used(requests: Seq<RequestState>, i: int, b: usize)
    requires
        0 <= i < requests.len(),
        requests[i].blocks.contains(b),
    ensures
        uses(requests, b) > 0,
    decreases requests.len(),
{
    if i < requests.len() - 1 {
        assert(requests.drop_last()[i] == requests[i]);
        lemma_held_is_used(requests.drop_last(), i, b);
    }
}

/// Of a request's blocks, later ones are given back before earlier ones.
proof fn lemma_released_order(blocks: Seq<usize>, rest: Seq<RequestState>)
    requires
        blocks.no_duplicates(),
    ensures
        forall|x: int, y: int, i: int, j: int|
            0 <= x < released(blocks, rest).len() && 0 <= y < released(blocks, rest).len() && 0 <= i
                < j < blocks.len() && released(blocks, rest)[x] == blocks[i] && released(
                blocks,
                rest,
            )[y] == blocks[j] ==> y < x,
    decreases blocks.len(),
{
    if blocks.len() > 0 {
        let head = blocks.drop_last();
        let others = released(head, rest);
        let all = released(blocks, rest);
        lemma_released_order(head, rest);
        lemma_released(head, rest);
        lemma_released(blocks, rest);
        assert forall|x: int, y: int, i: int, j: int|
            0 <= x < all.len() && 0 <= y < all.len() && 0 <= i < j < blocks.len() && all[x]
                == blocks[i] && all[y] == blocks[j] implies y < x by {
            assert(blocks[i] == head[i]);
            if uses(rest, blocks.last()) == 0 {
                assert(all == seq![blocks.last()] + others);
                assert(x > 0);
                if j < head.len() {
                    assert(all[y] == blocks[j] && blocks[j] == head[j]);
                    assert(y > 0);
                    assert(others[x - 1] == head[i] && others[y - 1] == head[j]);
                } else {
                    assert(all[0] == blocks.last());
                    assert(y == 0);
                }
            } else {
                assert(all == others);
                if j == blocks.len() - 1 {
                    assert(all.contains(blocks[j]));
                } else {
                    assert(blocks[j] == head[j]);
                }
            }
        }
    }
}

/// What a request gives back can be handed out again: each of its blocks that nobody else
/// holds, behind those that are free already, its last ones first, so that the beginning of its
/// tokens stays longest. What is cached in them stays until then, and other requests keep what
/// they have.
pub proof fn law_freed_blocks_can_be_handed_out(st: KvState, id: usize)
    requires
        st.wf(),
    ensures
        ({
            let next = st.freed(id);
            &&& next.request(id) is None
            &&& next.hashes == st.hashes
            &&& next.block_size == st.block_size
            &&& st.free.len() <= next.free.len() && next.free.take(st.free.len() as int) == st.free
            &&& forall|other: usize|
                other != id ==> #[trigger] next.request(other) == st.request(other)
            &&& st.request(id) is None ==> next == st
            &&& st.request(id) matches Some(r) ==> {
                &&& next.requests.len() == st.requests.len() - 1
                &&& forall|k: int|
                    0 <= k < r.blocks.len() ==> (next.free.contains(#[trigger] r.blocks[k]) <==> uses(
                        next.requests,
                        r.blocks[k],
                    ) == 0)
                &&& forall|x: int, y: int, i: int, j: int|
                    0 <= x < next.free.len() && 0 <= y < next.free.len() && 0 <= i < j
                        < r.blocks.len() && next.free[x] == r.blocks[i] && next.free[y]
                        == r.blocks[j] ==> y < x
            }
        }),
{
    let next = st.freed(id);
    law_freeing_keeps_the_pool(st, id);
    lemma_position(st.requests, id);
    if let Some(at) = position(st.requests, id) {
        let r = st.requests[at];
        let rest = st.requests.remove(at);
        let back = released(r.blocks, rest);
        assert(next.free.take(st.free.len() as int) =~= st.free);
        lemma_released(r.blocks, rest);
        lemma_released_order(r.blocks, rest);
        assert forall|k: int| 0 <= k < r.blocks.len() implies (next.free.contains(
            #[trigger] r.blocks[k],
        ) <==> uses(next.requests, r.blocks[k]) == 0) by {
            assert(st.valid_block(r.blocks[k]));
            assert(next.valid_block(r.blocks[k]));
        }
        assert forall|x: int, y: int, i: int, j: int|
            0 <= x < next.free.len() && 0 <= y < next.free.len() && 0 <= i < j < r.blocks.len()
                && next.free[x] == r.blocks[i] && next.free[y] == r.blocks[j] implies y < x by {
            lemma_not_free(st, at, i, x, next);
            lemma_not_free(st, at, j, y, next);
            let n = st.free.len();
            assert(next.free[x] == back[x - n] && next.free[y] == back[y - n]);
        }
        assert forall|other: usize| other != id implies #[trigger] next.request(other)
            == st.request(other) by {
            lemma_position(st.requests, other);
            lemma_position(rest, other);
            if let Some(j) = position(st.requests, other) {
                let k = if j < at {
                    j
                } else {
                    j - 1
                };
                assert(rest[k] == st.requests[j]);
                assert forall|i: int| 0 <= i < k implies (#[trigger] rest[i]).id != other by {
                    let was = if i < at {
                        i
                    } else {
                        i + 1
                    };
                    assert(rest[i] == st.requests[was]);
                    assert(st.requests[was].id != st.requests[j].id);
                }
                lemma_position_unique(rest, other, k);
            } else if let Some(k) = position(rest, other) {
                let was = if k < at {
                    k
                } else {
                    k + 1
                };
                assert(rest[k] == st.requests[was]);
            }
        }
    } else {
        assert(next.free.take(st.free.len() as int) =~= st.free);
    }
}

/// A block that a request holds is not among those that were free.
proof fn lemma_not_free(st: KvState, at: int, i: int, x: int, next: KvState)
    requires
        st.wf(),
        0 <= at < st.requests.len(),
        0 <= i < st.requests[at].blocks.len(),
        next.free.len() >= st.free.len(),
        next.free.take(st.free.len() as int) == st.free,
        0 <= x < next.free.len(),
        next.free[x] == st.requests[at].blocks[i],
    ensures
        x >= st.free.len(),
{
    let b = st.requests[at].blocks[i];
    assert(st.requests[at].blocks.contains(b));
    lemma_held_is_used(st.requests, at, b);
    assert(st.valid_block(b));
    if x < st.free.len() {
        assert(st.free[x] == next.free.take(st.free.len() as int)[x]);
        assert(st.free.contains(b));
    }
}

/// A search stops at the first block whose hash is not there.
proof fn lemma_search_goes_on(hashes: Seq<Option<u64>>, wanted: Seq<u64>, limit: int)
    requires
        hashes.len() <= usize::MAX,
        limit <= wanted.len(),
        hits(hashes, wanted, limit).len() < limit,
    ensures
        ({
            let r = hits(hashes, wanted, limit);
            ||| forall|b: int|
                1 <= b < hashes.len() ==> #[trigger] hashes[b] != Some(wanted[r.len() as int])
            ||| exists|i: int| 0 <= i < r.len() && #[trigger] wanted[i] == wanted[r.len() as int]
        }),
    decreases limit,
{
    let before = hits(hashes, wanted, limit - 1);
    if before.len() < limit - 1 {
        lemma_search_goes_on(hashes, wanted, limit - 1);
    } else {
        lemma_hits(hashes, wanted, limit - 1);
        lemma_find_from(hashes, wanted[limit - 1], 1);
        if let Some(b) = find(hashes, wanted[limit - 1]) {
            assert(before.contains(b));
            let i = choose|i: int| 0 <= i < before.len() && before[i] == b;
            assert(hashes[before[i] as int] == Some(wanted[i]));
            assert(wanted[i] == wanted[limit - 1]);
        }
    }
}

/// The cached blocks of a prompt are those of its beginning: the first has the first hash, and
/// so on, without a gap, as far as they are there. At least one token is left to compute.
pub proof fn law_found_blocks_are_those_of_the_prompt(
    st: KvState,
    wanted: Seq<u64>,
    num_tokens: int,
)
    requires
        st.block_size > 0,
        st.hashes.len() <= usize::MAX,
        num_tokens >= 0,
    ensures
        ({
            let r = st.computed(wanted, num_tokens);
            &&& r.len() <= wanted.len()
            &&& r.len() > 0 ==> r.len() * st.block_size < num_tokens
            &&& r.no_duplicates()
            &&& forall|i: int|
                0 <= i < r.len() ==> 1 <= (#[trigger] r[i]) < st.hashes.len() && st.hashes[r[i] as int]
                    == Some(wanted[i])
            &&& r.len() < wanted.len() && (r.len() + 1) * st.block_size < num_tokens ==> {
                ||| forall|b: int|
                    1 <= b < st.hashes.len() ==> #[trigger] st.hashes[b] != Some(
                        wanted[r.len() as int],
                    )
                ||| exists|i: int|
                    0 <= i < r.len() && #[trigger] wanted[i] == wanted[r.len() as int]
            }
        }),
{
    let size = st.block_size;
    let limit = reusable_blocks(wanted.len() as int, num_tokens, size);
    let r = st.computed(wanted, num_tokens);
    let n = r.len() as int;
    lemma_hits(st.hashes, wanted, limit);
    if num_tokens > 0 {
        let most = (num_tokens - 1) / size;
        assert(most >= 0 && most * size <= num_tokens - 1 && num_tokens - 1 < (most + 1) * size)
            by (nonlinear_arith)
            requires
                most == (num_tokens - 1) / size,
                size > 0,
                num_tokens > 0,
        ;
        assert(n <= most ==> n * size <= most * size) by (nonlinear_arith)
            requires
                size > 0,
        ;
        if n < wanted.len() && (n + 1) * size < num_tokens {
            assert(n < most) by (nonlinear_arith)
                requires
                    (n + 1) * size < num_tokens,
                    num_tokens - 1 < (most + 1) * size,
                    size > 0,
            ;
            lemma_search_goes_on(st.hashes, wanted, limit);
        }
    } else if (n + 1) * size < num_tokens {
        assert((n + 1) * size >= 0) by (nonlinear_arith)
            requires
                n >= 0,
                size > 0,
        ;
    }
}

/// What a block gets as its hash is one that was given for it.
proof fn lemma_registered_changes(
    hashes: Seq<Option<u64>>,
    blocks: Seq<usize>,
    given: Seq<u64>,
    from: int,
    to: int,
    b: int,
)
    requires
        0 <= from,
        to <= blocks.len(),
        forall|i: int| 0 <= i < blocks.len() ==> (#[trigger] blocks[i]) < hashes.len(),
        0 <= b < hashes.len(),
        registered(hashes, blocks, given, from, to)[b] != hashes[b],
    ensures
        exists|k: int|
            from <= k < to && (#[trigger] blocks[k]) == b && registered(
                hashes,
                blocks,
                given,
                from,
                to,
            )[b] == Some(given[k]),
    decreases to - from,
{
    if from < to {
        let before = registered(hashes, blocks, given, from, to - 1);
        lemma_registered_len(hashes, blocks, given, from, to - 1);
        if before[b] == registered(hashes, blocks, given, from, to)[b] {
            lemma_registered_changes(hashes, blocks, given, from, to - 1, b);
            let k = choose|k: int|
                from <= k < to - 1 && (#[trigger] blocks[k]) == b && before[b] == Some(given[k]);
            assert(blocks[k] == b);
        } else {
            assert(blocks[to - 1] == b);
        }
    }
}

/// Only full blocks whose tokens are all computed are put into the cache, each under the hash
/// that was given for it, and each of them can be found afterwards. What the request holds and
/// all other requests stay as they are.
pub proof fn law_only_computed_blocks_are_cached(
    st: KvState,
    id: usize,
    given: Seq<u64>,
    num_tokens: nat,
)
    requires
        st.wf(),
        st.hashes.len() <= usize::MAX,
        st.request(id) is Some,
    ensures
        ({
            let next = st.cached(id, given, num_tokens);
            let r = st.request(id)->0;
            let size = st.block_size;
            &&& next.free == st.free && next.block_size == size
            &&& next.hashes.len() == st.hashes.len()
            &&& next.request(id) is Some && next.request(id)->0.blocks == r.blocks
                && next.request(id)->0.reserved == r.reserved
            &&& forall|other: usize|
                other != id ==> #[trigger] next.request(other) == st.request(other)
            &&& forall|b: int|
                0 <= b < st.hashes.len() && #[trigger] next.hashes[b] != st.hashes[b]
                    ==> exists|k: int|
                    r.cached <= k < r.blocks.len() && k < given.len() && (#[trigger] r.blocks[k])
                        == b && (k + 1) * size <= num_tokens && next.hashes[b] == Some(given[k])
            &&& forall|k: int|
                r.cached <= k < r.blocks.len() && k < given.len() && (k + 1) * size <= num_tokens
                    ==> find(next.hashes, #[trigger] given[k]) is Some
        }),
{
    let next = st.cached(id, given, num_tokens);
    let size = st.block_size;
    lemma_position(st.requests, id);
    let i = position(st.requests, id)->0;
    let r = st.requests[i];
    let to = st.to_cache(r, given, num_tokens);
    let full = num_tokens as int / size;
    assert(full * size <= num_tokens && num_tokens < (full + 1) * size && full >= 0)
        by (nonlinear_arith)
        requires
            size > 0,
            full == num_tokens as int / size,
            num_tokens >= 0,
    ;
    assert forall|k: int| 0 <= k < r.blocks.len() implies 1 <= (#[trigger] r.blocks[k])
        < st.hashes.len() by {
        assert(st.valid_block(r.blocks[k]));
    }
    let any: usize = if id == 0 {
        1
    } else {
        0
    };
    if to > r.cached {
        lemma_others_stay(st, next.requests, id, any);
        lemma_registered_len(st.hashes, r.blocks, given, r.cached, to);
        assert(st.private_tail(i));
    }
    assert forall|other: usize| other != id implies #[trigger] next.request(other) == st.request(
        other,
    ) by {
        if to > r.cached {
            lemma_others_stay(st, next.requests, id, other);
        }
    }
    assert forall|b: int|
        0 <= b < st.hashes.len() && #[trigger] next.hashes[b] != st.hashes[b] implies exists|k: int|
        r.cached <= k < r.blocks.len() && k < given.len() && (#[trigger] r.blocks[k]) == b && (k
            + 1) * size <= num_tokens && next.hashes[b] == Some(given[k]) by {
        lemma_registered_changes(st.hashes, r.blocks, given, r.cached, to, b);
        let k = choose|k: int|
            r.cached <= k < to && (#[trigger] r.blocks[k]) == b && next.hashes[b] == Some(given[k]);
        assert((k + 1) * size <= full * size) by (nonlinear_arith)
            requires
                k + 1 <= full,
                size > 0,
        ;
        assert(r.blocks[k] == b);
    }
    assert forall|k: int|
        r.cached <= k < r.blocks.len() && k < given.len() && (k + 1) * size <= num_tokens implies find(
        next.hashes,
        #[trigger] given[k],
    ) is Some by {
        if k >= full {
            assert((k + 1) * size >= (full + 1) * size) by (nonlinear_arith)
                requires
                    k >= full,
                    size > 0,
            ;
        }
        lemma_registered_found(st.hashes, r.blocks, given, r.cached, to, k);
    }
    assert(st.request(id) == Some(r));
    assert(next.request(id) is Some && next.request(id)->0.blocks == r.blocks);
    assert(next.request(id)->0.reserved == r.reserved);
}

/// Blocks that are kept for a request are enough for the tokens that they are kept for, and are
/// there when it asks for them. Nothing is handed out for that.
pub proof fn law_reserved_blocks_are_enough(st: KvState, id: usize, num_tokens: nat)
    requires
        st.wf(),
        st.request(id) is Some,
        st.to_reserve(st.request(id)->0, num_tokens) + st.reserved_for_others(id) <= st.free.len(),
    ensures
        ({
            let q = st.request(id)->0;
            let next = st.reserved(position(st.requests, id)->0, st.to_reserve(q, num_tokens));
            let r = next.request(id)->0;
            &&& next.request(id) is Some
            &&& r.blocks == q.blocks && r.cached == q.cached
            &&& (r.blocks.len() + r.reserved) * st.block_size >= num_tokens
            &&& r.reserved > 0 ==> (r.blocks.len() + r.reserved - 1) * st.block_size < num_tokens
            &&& next.free == st.free && next.hashes == st.hashes
            &&& forall|other: usize|
                other != id ==> #[trigger] next.request(other) == st.request(other)
            &&& next.can_allocate(id, num_tokens, Seq::empty())
        }),
{
    lemma_position(st.requests, id);
    let i = position(st.requests, id)->0;
    let q = st.requests[i];
    let n = st.to_reserve(q, num_tokens);
    let next = st.reserved(i, n);
    law_rounding_up_is_enough(num_tokens, st.block_size as nat);
    law_reserving_keeps_the_pool(st, id, n);
    let any: usize = if id == 0 {
        1
    } else {
        0
    };
    lemma_others_stay(st, next.requests, id, any);
    let r = next.request(id)->0;
    let (c, len, size) = (st.blocks_for(num_tokens), r.blocks.len() + r.reserved, st.block_size);
    assert(len * size >= c * size) by (nonlinear_arith)
        requires
            len >= c,
            size > 0,
    ;
    law_reserved_blocks_can_be_allocated(next, id, num_tokens);
    assert forall|other: usize| other != id implies #[trigger] next.request(other) == st.request(
        other,
    ) by {
        lemma_others_stay(st, next.requests, id, other);
    }
}

/// A request is refused blocks only for lack of them: where those that it still needs are more
/// than are free and not kept for others. A new one that needs more than there are is always
/// refused.
pub proof fn law_blocks_are_refused_only_for_lack(st: KvState, id: usize, num_tokens: nat)
    requires
        st.wf(),
        st.hashes.len() <= usize::MAX,
    ensures
        ({
            let c = st.blocks_for(num_tokens);
            let spare = st.free.len() - total_reserved(st.requests);
            &&& c * st.block_size >= num_tokens
            &&& num_tokens > 0 ==> (c - 1) * st.block_size < num_tokens
            &&& spare >= 0
            &&& st.request(id) is None ==> (st.can_allocate(id, num_tokens, Seq::empty()) <==> c
                <= spare)
            &&& st.request(id) matches Some(r) ==> (st.can_allocate(id, num_tokens, Seq::empty())
                <==> c <= r.blocks.len() + r.reserved + spare)
            &&& st.request(id) is None && c > st.capacity() ==> !st.can_allocate(
                id,
                num_tokens,
                Seq::empty(),
            )
        }),
{
    law_rounding_up_is_enough(num_tokens, st.block_size as nat);
    lemma_position(st.requests, id);
    lemma_reserved_parts(st.requests);
    lemma_nothing_pinned(st.free);
    lemma_free_at_most(st);
}

proof fn lemma_nothing_pinned(free: Seq<usize>)
    ensures
        without(free, Seq::empty()) == free,
    decreases free.len(),
{
    if free.len() > 0 {
        lemma_nothing_pinned(free.drop_last());
        assert(free.drop_last().push(free.last()) =~= free);
    } else {
        assert(without(free, Seq::empty()) =~= free);
    }
}

} // verus!
