//! The pool of cache blocks. Requests hold blocks, may share those of a common
//! prefix, and may reserve blocks for later. A block that is given back keeps
//! its hash until it is handed out again, so that a later request can find it.

use std::collections::VecDeque;

use vstd::prelude::*;

use crate::lists::contains_index;
use crate::ops::{ceil_div, div_ceil};

verus! {

/// A request in the abstract.
#[verifier::ext_equal]
pub struct RequestState {
    pub id: usize,
    /// The blocks of its tokens, in order.
    pub blocks: Seq<usize>,
    /// How many of them have a hash.
    pub cached: int,
    /// How many more blocks are kept for it.
    pub reserved: int,
}

/// The pool in the abstract. Block zero is never handed out.
#[verifier::ext_equal]
pub struct KvState {
    pub block_size: int,
    /// The hash of each block that has one.
    pub hashes: Seq<Option<u64>>,
    /// The free blocks, the next one to hand out first.
    pub free: Seq<usize>,
    pub requests: Seq<RequestState>,
}

/// How many requests hold a block.
pub open spec fn uses(requests: Seq<RequestState>, b: usize) -> nat
    decreases requests.len(),
{
    if requests.len() == 0 {
        0
    } else {
        uses(requests.drop_last(), b) + (if requests.last().blocks.contains(b) {
            1nat
        } else {
            0nat
        })
    }
}

/// The blocks that are kept for all requests.
pub open spec fn total_reserved(requests: Seq<RequestState>) -> int
    decreases requests.len(),
{
    if requests.len() == 0 {
        0
    } else {
        total_reserved(requests.drop_last()) + requests.last().reserved
    }
}

/// Where a request stands.
pub open spec fn position(requests: Seq<RequestState>, id: usize) -> Option<int>
    decreases requests.len(),
{
    if requests.len() == 0 {
        None
    } else {
        match position(requests.drop_last(), id) {
            Some(i) => Some(i),
            None => if requests.last().id == id {
                Some(requests.len() - 1)
            } else {
                None
            },
        }
    }
}

/// The free blocks that are not pinned.
pub open spec fn without(free: Seq<usize>, pinned: Seq<usize>) -> Seq<usize>
    decreases free.len(),
{
    if free.len() == 0 {
        Seq::empty()
    } else {
        let before = without(free.drop_last(), pinned);
        if pinned.contains(free.last()) {
            before
        } else {
            before.push(free.last())
        }
    }
}

/// The hashes without those of the given blocks.
pub open spec fn evicted(hashes: Seq<Option<u64>>, blocks: Seq<usize>) -> Seq<Option<u64>> {
    Seq::new(
        hashes.len(),
        |b: int|
            if blocks.contains(b as usize) {
                None
            } else {
                hashes[b]
            },
    )
}

/// The blocks of a request that no other request holds, the last one first.
pub open spec fn released(blocks: Seq<usize>, rest: Seq<RequestState>) -> Seq<usize>
    decreases blocks.len(),
{
    if blocks.len() == 0 {
        Seq::empty()
    } else {
        let others = released(blocks.drop_last(), rest);
        if uses(rest, blocks.last()) == 0 {
            seq![blocks.last()] + others
        } else {
            others
        }
    }
}

/// The first block from `from` on that has the given hash.
pub open spec fn find_from(hashes: Seq<Option<u64>>, hash: u64, from: int) -> Option<usize>
    decreases hashes.len() - from,
{
    if from >= hashes.len() {
        None
    } else if hashes[from] == Some(hash) {
        Some(from as usize)
    } else {
        find_from(hashes, hash, from + 1)
    }
}

/// The block that has the given hash.
pub open spec fn find(hashes: Seq<Option<u64>>, hash: u64) -> Option<usize> {
    find_from(hashes, hash, 1)
}

/// The hashes after blocks `from..to` of a request got theirs. A hash that some
/// block has already is not given again.
pub open spec fn registered(
    hashes: Seq<Option<u64>>,
    blocks: Seq<usize>,
    given: Seq<u64>,
    from: int,
    to: int,
) -> Seq<Option<u64>>
    decreases to - from,
{
    if from >= to {
        hashes
    } else {
        let before = registered(hashes, blocks, given, from, to - 1);
        if find(before, given[to - 1]) is Some {
            before
        } else {
            before.update(blocks[to - 1] as int, Some(given[to - 1]))
        }
    }
}

/// The blocks of the longest cached prefix, of at most `limit` blocks.
pub open spec fn hits(hashes: Seq<Option<u64>>, wanted: Seq<u64>, limit: int) -> Seq<usize>
    decreases limit,
{
    if limit <= 0 {
        Seq::empty()
    } else {
        let before = hits(hashes, wanted, limit - 1);
        if before.len() < limit - 1 {
            before
        } else {
            match find(hashes, wanted[limit - 1]) {
                Some(b) => if before.contains(b) {
                    before
                } else {
                    before.push(b)
                },
                None => before,
            }
        }
    }
}

/// How many blocks of a prompt may come from the cache: at least one token is
/// always computed.
pub open spec fn reusable_blocks(wanted: int, num_tokens: int, block_size: int) -> int {
    let most = if num_tokens > 0 {
        (num_tokens - 1) / block_size
    } else {
        0
    };
    if wanted <= most {
        wanted
    } else {
        most
    }
}

impl KvState {
    /// How many blocks can ever be handed out.
    pub open spec fn capacity(self) -> int {
        self.hashes.len() - 1
    }

    /// A block that can be handed out.
    pub open spec fn valid_block(self, b: usize) -> bool {
        1 <= b < self.hashes.len()
    }

    /// A list of distinct blocks.
    pub open spec fn valid_blocks(self, blocks: Seq<usize>) -> bool {
        &&& blocks.no_duplicates()
        &&& forall|i: int| 0 <= i < blocks.len() ==> self.valid_block(#[trigger] blocks[i])
    }

    /// Every block is free or held, never both; what is reserved is there.
    pub open spec fn balanced(self) -> bool {
        &&& self.block_size > 0
        &&& self.hashes.len() >= 1
        &&& self.valid_blocks(self.free)
        &&& forall|i: int|
            0 <= i < self.requests.len() ==> self.valid_blocks((#[trigger] self.requests[i]).blocks)
                && 0 <= self.requests[i].cached <= self.requests[i].blocks.len()
                && 0 <= self.requests[i].reserved
        &&& forall|i: int, j: int|
            0 <= i < j < self.requests.len() ==> (#[trigger] self.requests[i]).id != (
            #[trigger] self.requests[j]).id
        &&& forall|b: usize| self.valid_block(b) ==> (#[trigger] self.free.contains(b) <==> uses(
            self.requests,
            b,
        ) == 0)
        &&& total_reserved(self.requests) <= self.free.len()
    }

    /// A block of request `i` behind those that were given hashes has none, and no
    /// other request holds it.
    pub open spec fn private_tail(self, i: int) -> bool {
        forall|k: int|
            self.requests[i].cached <= k < self.requests[i].blocks.len()
                ==> self.hashes[(#[trigger] self.requests[i].blocks[k]) as int] is None && uses(
                self.requests,
                self.requests[i].blocks[k],
            ) == 1
    }

    /// What holds of the pool between any two calls.
    pub open spec fn wf(self) -> bool {
        &&& self.balanced()
        &&& forall|i: int| 0 <= i < self.requests.len() ==> #[trigger] self.private_tail(i)
    }

    /// The blocks that a number of tokens needs.
    pub open spec fn blocks_for(self, num_tokens: nat) -> int {
        ceil_div(num_tokens, self.block_size as nat) as int
    }

    /// A request by its id.
    pub open spec fn request(self, id: usize) -> Option<RequestState> {
        match position(self.requests, id) {
            Some(i) => Some(self.requests[i]),
            None => None,
        }
    }

    /// What a request starts from: what it holds, or, where it is new, the cached
    /// blocks of its prefix.
    pub open spec fn start_of(self, id: usize, computed: Seq<usize>) -> RequestState {
        match self.request(id) {
            Some(r) => r,
            None => RequestState {
                id,
                blocks: computed,
                cached: computed.len() as int,
                reserved: 0,
            },
        }
    }

    /// The free blocks once the cached blocks of a new request are held.
    pub open spec fn unpinned(self, id: usize, computed: Seq<usize>) -> Seq<usize> {
        if self.request(id) is Some {
            self.free
        } else {
            without(self.free, computed)
        }
    }

    /// How many blocks a request lacks.
    pub open spec fn lacking(self, id: usize, num_tokens: nat, computed: Seq<usize>) -> int {
        let need = self.blocks_for(num_tokens) - self.start_of(id, computed).blocks.len();
        if need > 0 {
            need
        } else {
            0
        }
    }

    /// The blocks that are kept for other requests.
    pub open spec fn reserved_for_others(self, id: usize) -> int {
        total_reserved(self.requests) - (match self.request(id) {
            Some(r) => r.reserved,
            None => 0,
        })
    }

    /// Whether a request can get what it lacks without touching what is kept for
    /// others.
    pub open spec fn can_allocate(self, id: usize, num_tokens: nat, computed: Seq<usize>) -> bool {
        self.lacking(id, num_tokens, computed) + self.reserved_for_others(id) <= self.unpinned(
            id,
            computed,
        ).len()
    }

    /// The pool after a request got what it lacks. The blocks that are new to it
    /// lose their hashes, and come out of what is reserved for it.
    pub open spec fn allocated(self, id: usize, num_tokens: nat, computed: Seq<usize>) -> KvState {
        let start = self.start_of(id, computed);
        let need = self.lacking(id, num_tokens, computed);
        let fresh = self.unpinned(id, computed).take(need);
        let grown = RequestState {
            id,
            blocks: start.blocks + fresh,
            cached: start.cached,
            reserved: if start.reserved > need {
                start.reserved - need
            } else {
                0
            },
        };
        KvState {
            block_size: self.block_size,
            hashes: evicted(self.hashes, fresh),
            free: self.unpinned(id, computed).skip(need),
            requests: match position(self.requests, id) {
                Some(i) => self.requests.update(i, grown),
                None => self.requests.push(grown),
            },
        }
    }

    /// How many blocks a request will lack for a number of tokens.
    pub open spec fn to_reserve(self, r: RequestState, num_tokens: nat) -> int {
        let want = self.blocks_for(num_tokens) - r.blocks.len();
        if want > 0 {
            want
        } else {
            0
        }
    }

    /// The pool after blocks were kept for a request.
    pub open spec fn reserved(self, i: int, n: int) -> KvState {
        KvState {
            requests: self.requests.update(i, RequestState { reserved: n, ..self.requests[i] }),
            ..self
        }
    }

    /// The pool after a request gave everything back.
    pub open spec fn freed(self, id: usize) -> KvState {
        match position(self.requests, id) {
            Some(i) => {
                let rest = self.requests.remove(i);
                KvState {
                    free: self.free + released(self.requests[i].blocks, rest),
                    requests: rest,
                    ..self
                }
            },
            None => self,
        }
    }

    /// How many blocks of a request get a hash.
    pub open spec fn to_cache(self, r: RequestState, given: Seq<u64>, num_tokens: nat) -> int {
        let full = num_tokens as int / self.block_size;
        let known = if full <= given.len() {
            full
        } else {
            given.len() as int
        };
        if known <= r.blocks.len() {
            known
        } else {
            r.blocks.len() as int
        }
    }

    /// The pool after the first blocks of a request got their hashes.
    pub open spec fn cached(self, id: usize, given: Seq<u64>, num_tokens: nat) -> KvState {
        match position(self.requests, id) {
            Some(i) => {
                let r = self.requests[i];
                let to = self.to_cache(r, given, num_tokens);
                if to <= r.cached {
                    self
                } else {
                    KvState {
                        hashes: registered(self.hashes, r.blocks, given, r.cached, to),
                        requests: self.requests.update(i, RequestState { cached: to, ..r }),
                        ..self
                    }
                }
            },
            None => self,
        }
    }

    /// The cached blocks of the longest reusable prefix of a prompt.
    pub open spec fn computed(self, wanted: Seq<u64>, num_tokens: int) -> Seq<usize> {
        hits(
            self.hashes,
            wanted,
            reusable_blocks(wanted.len() as int, num_tokens, self.block_size),
        )
    }
}

proof fn lemma_uses_at_most(requests: Seq<RequestState>, b: usize)
    ensures
        uses(requests, b) <= requests.len(),
    decreases requests.len(),
{
    if requests.len() > 0 {
        lemma_uses_at_most(requests.drop_last(), b);
    }
}

proof fn lemma_uses_zero(requests: Seq<RequestState>, b: usize)
    ensures
        uses(requests, b) == 0 <==> forall|i: int|
            0 <= i < requests.len() ==> !(#[trigger] requests[i]).blocks.contains(b),
    decreases requests.len(),
{
    if requests.len() > 0 {
        let head = requests.drop_last();
        lemma_uses_zero(head, b);
        assert(forall|i: int| 0 <= i < head.len() ==> head[i] == requests[i]);
        if uses(requests, b) == 0 {
            assert forall|i: int| 0 <= i < requests.len() implies !(
            #[trigger] requests[i]).blocks.contains(b) by {
                if i < head.len() {
                    assert(!head[i].blocks.contains(b));
                }
            }
        } else if !requests.last().blocks.contains(b) {
            assert(uses(head, b) != 0);
            let i = choose|i: int|
                0 <= i < head.len() && (#[trigger] head[i]).blocks.contains(b);
            assert(requests[i].blocks.contains(b));
        } else {
            assert(requests[requests.len() - 1].blocks.contains(b));
        }
    }
}

proof fn lemma_uses_update(requests: Seq<RequestState>, i: int, r: RequestState, b: usize)
    requires
        0 <= i < requests.len(),
    ensures
        uses(requests.update(i, r), b) + (if requests[i].blocks.contains(b) {
            1nat
        } else {
            0nat
        }) == uses(requests, b) + (if r.blocks.contains(b) {
            1nat
        } else {
            0nat
        }),
    decreases requests.len(),
{
    let changed = requests.update(i, r);
    if i == requests.len() - 1 {
        assert(changed.drop_last() =~= requests.drop_last());
    } else {
        assert(changed.drop_last() =~= requests.drop_last().update(i, r));
        lemma_uses_update(requests.drop_last(), i, r, b);
    }
}

proof fn lemma_uses_remove(requests: Seq<RequestState>, i: int, b: usize)
    requires
        0 <= i < requests.len(),
    ensures
        uses(requests.remove(i), b) + (if requests[i].blocks.contains(b) {
            1nat
        } else {
            0nat
        }) == uses(requests, b),
    decreases requests.len(),
{
    let rest = requests.remove(i);
    if i == requests.len() - 1 {
        assert(rest =~= requests.drop_last());
    } else {
        assert(rest.drop_last() =~= requests.drop_last().remove(i));
        assert(rest.last() == requests.last());
        lemma_uses_remove(requests.drop_last(), i, b);
    }
}

pub proof fn lemma_reserved_update(requests: Seq<RequestState>, i: int, r: RequestState)
    requires
        0 <= i < requests.len(),
    ensures
        total_reserved(requests.update(i, r)) == total_reserved(requests) - requests[i].reserved
            + r.reserved,
    decreases requests.len(),
{
    let changed = requests.update(i, r);
    if i == requests.len() - 1 {
        assert(changed.drop_last() =~= requests.drop_last());
    } else {
        assert(changed.drop_last() =~= requests.drop_last().update(i, r));
        lemma_reserved_update(requests.drop_last(), i, r);
    }
}

proof fn lemma_reserved_remove(requests: Seq<RequestState>, i: int)
    requires
        0 <= i < requests.len(),
    ensures
        total_reserved(requests.remove(i)) == total_reserved(requests) - requests[i].reserved,
    decreases requests.len(),
{
    let rest = requests.remove(i);
    if i == requests.len() - 1 {
        assert(rest =~= requests.drop_last());
    } else {
        assert(rest.drop_last() =~= requests.drop_last().remove(i));
        assert(rest.last() == requests.last());
        lemma_reserved_remove(requests.drop_last(), i);
    }
}

pub proof fn lemma_reserved_parts(requests: Seq<RequestState>)
    requires
        forall|i: int| 0 <= i < requests.len() ==> (#[trigger] requests[i]).reserved >= 0,
    ensures
        total_reserved(requests) >= 0,
        forall|i: int|
            0 <= i < requests.len() ==> (#[trigger] requests[i]).reserved <= total_reserved(
                requests,
            ),
    decreases requests.len(),
{
    if requests.len() > 0 {
        let head = requests.drop_last();
        assert(forall|i: int| 0 <= i < head.len() ==> head[i] == requests[i]);
        lemma_reserved_parts(head);
        assert forall|i: int| 0 <= i < requests.len() implies (#[trigger] requests[i]).reserved
            <= total_reserved(requests) by {
            if i < head.len() {
                assert(head[i].reserved <= total_reserved(head));
            }
        }
    }
}

/// A request stands where `position` says.
pub proof fn lemma_position(requests: Seq<RequestState>, id: usize)
    ensures
        match position(requests, id) {
            Some(i) => 0 <= i < requests.len() && requests[i].id == id,
            None => forall|i: int| 0 <= i < requests.len() ==> (#[trigger] requests[i]).id != id,
        },
    decreases requests.len(),
{
    if requests.len() > 0 {
        let head = requests.drop_last();
        lemma_position(head, id);
        assert(forall|i: int| 0 <= i < head.len() ==> head[i] == requests[i]);
    }
}

pub proof fn lemma_position_unique(requests: Seq<RequestState>, id: usize, i: int)
    requires
        0 <= i < requests.len(),
        requests[i].id == id,
        forall|j: int| 0 <= j < i ==> (#[trigger] requests[j]).id != id,
    ensures
        position(requests, id) == Some(i),
    decreases requests.len(),
{
    let head = requests.drop_last();
    if i < head.len() {
        assert(forall|j: int| 0 <= j < head.len() ==> head[j] == requests[j]);
        lemma_position_unique(head, id, i);
    } else {
        lemma_position(head, id);
        match position(head, id) {
            Some(j) => {
                assert(requests[j].id == id);
            },
            None => {},
        }
    }
}

pub proof fn lemma_last(s: Seq<usize>, b: usize)
    requires
        s.len() > 0,
    ensures
        s.contains(b) <==> s.drop_last().contains(b) || b == s.last(),
{
    if s.contains(b) && b != s.last() {
        let k = choose|k: int| 0 <= k < s.len() && s[k] == b;
        assert(s.drop_last()[k] == b);
    }
    if s.drop_last().contains(b) {
        let k = choose|k: int| 0 <= k < s.drop_last().len() && s.drop_last()[k] == b;
        assert(s[k] == b);
    }
    assert(s[s.len() - 1] == s.last());
}

proof fn lemma_push(s: Seq<usize>, x: usize)
    ensures
        forall|b: usize| #[trigger] s.push(x).contains(b) <==> s.contains(b) || b == x,
        s.no_duplicates() && !s.contains(x) ==> s.push(x).no_duplicates(),
{
    assert forall|b: usize| #[trigger] s.push(x).contains(b) <==> s.contains(b) || b == x by {
        lemma_last(s.push(x), b);
        assert(s.push(x).drop_last() =~= s);
    }
}

pub proof fn lemma_without(free: Seq<usize>, pinned: Seq<usize>)
    requires
        free.no_duplicates(),
    ensures
        without(free, pinned).no_duplicates(),
        without(free, pinned).len() <= free.len(),
        forall|b: usize| #[trigger]
            without(free, pinned).contains(b) <==> free.contains(b) && !pinned.contains(b),
    decreases free.len(),
{
    if free.len() > 0 {
        let head = free.drop_last();
        lemma_without(head, pinned);
        let before = without(head, pinned);
        lemma_push(before, free.last());
        assert(!head.contains(free.last()));
        assert(!before.contains(free.last()));
        assert forall|b: usize| #[trigger] without(free, pinned).contains(b) <==> free.contains(b)
            && !pinned.contains(b) by {
            lemma_last(free, b);
        }
    }
}

pub proof fn lemma_released(blocks: Seq<usize>, rest: Seq<RequestState>)
    requires
        blocks.no_duplicates(),
    ensures
        released(blocks, rest).no_duplicates(),
        forall|b: usize| #[trigger]
            released(blocks, rest).contains(b) <==> blocks.contains(b) && uses(rest, b) == 0,
    decreases blocks.len(),
{
    if blocks.len() > 0 {
        let head = blocks.drop_last();
        let last = blocks.last();
        lemma_released(head, rest);
        let others = released(head, rest);
        let all = released(blocks, rest);
        assert(!head.contains(last));
        assert forall|b: usize| #[trigger] all.contains(b) <==> blocks.contains(b) && uses(rest, b)
            == 0 by {
            lemma_last(blocks, b);
            if uses(rest, last) == 0 {
                assert(all =~= seq![last] + others);
                if others.contains(b) {
                    let k = choose|k: int| 0 <= k < others.len() && others[k] == b;
                    assert(all[k + 1] == b);
                }
                assert(all[0] == last);
                if all.contains(b) {
                    let k = choose|k: int| 0 <= k < all.len() && all[k] == b;
                    if k > 0 {
                        assert(others[k - 1] == b);
                    }
                }
            }
        }
        if uses(rest, last) == 0 {
            assert(all =~= seq![last] + others);
            assert(!others.contains(last));
            assert forall|i: int, j: int| 0 <= i < all.len() && 0 <= j < all.len() && i != j implies
                all[i] != all[j] by {
                if i > 0 && j > 0 {
                    assert(all[i] == others[i - 1] && all[j] == others[j - 1]);
                } else if i == 0 {
                    assert(others[j - 1] == all[j]);
                    assert(others.contains(all[j]));
                } else {
                    assert(others[i - 1] == all[i]);
                    assert(others.contains(all[i]));
                }
            }
        }
    }
}

/// What a new request starts from are blocks with a hash.
pub open spec fn startable(st: KvState, id: usize, computed: Seq<usize>) -> bool {
    st.request(id) is None ==> st.valid_blocks(computed) && forall|k: int|
        0 <= k < computed.len() ==> st.hashes[(#[trigger] computed[k]) as int] is Some
}

proof fn lemma_uses_two(requests: Seq<RequestState>, i: int, j: int, b: usize)
    requires
        0 <= i < requests.len(),
        0 <= j < requests.len(),
        i != j,
        requests[i].blocks.contains(b),
        requests[j].blocks.contains(b),
    ensures
        uses(requests, b) >= 2,
{
    lemma_uses_remove(requests, i, b);
    let rest = requests.remove(i);
    lemma_uses_zero(rest, b);
    if j < i {
        assert(rest[j] == requests[j]);
    } else {
        assert(rest[j - 1] == requests[j]);
    }
}

proof fn lemma_allocation_balances(
    st: KvState,
    id: usize,
    num_tokens: nat,
    computed: Seq<usize>,
)
    requires
        st.wf(),
        startable(st, id, computed),
        st.can_allocate(id, num_tokens, computed),
    ensures
        st.allocated(id, num_tokens, computed).balanced(),
{
    let start = st.start_of(id, computed);
    let need = st.lacking(id, num_tokens, computed);
    let open = st.unpinned(id, computed);
    let fresh = open.take(need);
    let next = st.allocated(id, num_tokens, computed);
    lemma_position(st.requests, id);
    lemma_without(st.free, computed);
    lemma_reserved_parts(st.requests);
    assert(open.no_duplicates());
    assert(forall|b: usize| open.contains(b) ==> st.free.contains(b));
    assert(need <= open.len());
    lemma_parts(open, need);
    assert forall|i: int| 0 <= i < open.len() implies st.valid_block(#[trigger] open[i]) by {
        assert(open.contains(open[i]));
        let k = choose|k: int| 0 <= k < st.free.len() && st.free[k] == open[i];
        assert(st.valid_block(st.free[k]));
    }
    // a block that was open is not one that the request starts from
    assert forall|b: usize| open.contains(b) implies !start.blocks.contains(b) by {
        match position(st.requests, id) {
            Some(i) => {
                if start.blocks.contains(b) {
                    let k = choose|k: int| 0 <= k < start.blocks.len() && start.blocks[k] == b;
                    assert(st.valid_block(st.requests[i].blocks[k]));
                    lemma_uses_zero(st.requests, b);
                    assert(st.requests[i].blocks.contains(b));
                }
            },
            None => {},
        }
    }
    assert forall|b: usize| #![auto] !(start.blocks.contains(b) && fresh.contains(b)) by {
        if fresh.contains(b) {
            assert(open.contains(b));
        }
    }
    lemma_join(start.blocks, fresh);
    let grown = match position(st.requests, id) {
        Some(i) => next.requests[i],
        None => next.requests.last(),
    };
    assert(grown.blocks == start.blocks + fresh);
    assert(st.valid_blocks(start.blocks));
    assert forall|i: int| 0 <= i < grown.blocks.len() implies st.valid_block(
        #[trigger] grown.blocks[i],
    ) by {
        if i < start.blocks.len() {
            assert(grown.blocks[i] == start.blocks[i]);
        } else {
            assert(grown.blocks[i] == fresh[i - start.blocks.len()]);
        }
    }
    assert(next.valid_blocks(grown.blocks));
    assert forall|b: usize| next.valid_block(b) implies (#[trigger] next.free.contains(b) <==> uses(
        next.requests,
        b,
    ) == 0) by {
        assert(st.valid_block(b));
        match position(st.requests, id) {
            Some(i) => {
                lemma_uses_update(st.requests, i, grown, b);
            },
            None => {
                assert(next.requests.drop_last() =~= st.requests);
            },
        }
        assert(st.free.contains(b) <==> uses(st.requests, b) == 0);
        assert(open.contains(b) <==> fresh.contains(b) || next.free.contains(b));
        assert(grown.blocks.contains(b) <==> start.blocks.contains(b) || fresh.contains(b));
        match position(st.requests, id) {
            Some(i) => {
                if uses(st.requests, b) == 0 {
                    lemma_uses_zero(st.requests, b);
                    assert(!st.requests[i].blocks.contains(b));
                }
            },
            None => {},
        }
    }
    assert forall|i: int| 0 <= i < next.free.len() implies next.valid_block(
        #[trigger] next.free[i],
    ) by {
        assert(next.free[i] == open[i + need]);
    }
    match position(st.requests, id) {
        Some(i) => {
            lemma_reserved_update(st.requests, i, grown);
        },
        None => {
            assert(next.requests.drop_last() =~= st.requests);
        },
    }
}

proof fn lemma_parts(s: Seq<usize>, n: int)
    requires
        s.no_duplicates(),
        0 <= n <= s.len(),
    ensures
        s.take(n).no_duplicates(),
        s.skip(n).no_duplicates(),
        forall|b: usize| #[trigger]
            s.contains(b) <==> s.take(n).contains(b) || s.skip(n).contains(b),
        forall|b: usize| #![auto] !(s.take(n).contains(b) && s.skip(n).contains(b)),
{
    assert forall|b: usize| #[trigger] s.contains(b) <==> s.take(n).contains(b) || s.skip(
        n,
    ).contains(b) by {
        if s.contains(b) {
            let k = choose|k: int| 0 <= k < s.len() && s[k] == b;
            if k < n {
                assert(s.take(n)[k] == b);
            } else {
                assert(s.skip(n)[k - n] == b);
            }
        }
        if s.take(n).contains(b) {
            let k = choose|k: int| 0 <= k < n && s.take(n)[k] == b;
            assert(s[k] == b);
        }
        if s.skip(n).contains(b) {
            let k = choose|k: int| 0 <= k < s.skip(n).len() && s.skip(n)[k] == b;
            assert(s[k + n] == b);
        }
    }
    assert forall|b: usize| #![auto] !(s.take(n).contains(b) && s.skip(n).contains(b)) by {
        if s.take(n).contains(b) && s.skip(n).contains(b) {
            let j = choose|j: int| 0 <= j < n && s.take(n)[j] == b;
            let k = choose|k: int| 0 <= k < s.skip(n).len() && s.skip(n)[k] == b;
            assert(s[j] == b && s[k + n] == b);
        }
    }
}

proof fn lemma_join(a: Seq<usize>, b: Seq<usize>)
    ensures
        forall|x: usize| #[trigger] (a + b).contains(x) <==> a.contains(x) || b.contains(x),
        a.no_duplicates() && b.no_duplicates() && (forall|x: usize|
            #![auto]
            !(a.contains(x) && b.contains(x))) ==> (a + b).no_duplicates(),
{
    assert forall|x: usize| #[trigger] (a + b).contains(x) <==> a.contains(x) || b.contains(x) by {
        if a.contains(x) {
            let k = choose|k: int| 0 <= k < a.len() && a[k] == x;
            assert((a + b)[k] == x);
        }
        if b.contains(x) {
            let k = choose|k: int| 0 <= k < b.len() && b[k] == x;
            assert((a + b)[k + a.len()] == x);
        }
        if (a + b).contains(x) {
            let k = choose|k: int| 0 <= k < (a + b).len() && (a + b)[k] == x;
            if k < a.len() {
                assert(a[k] == x);
            } else {
                assert(b[k - a.len()] == x);
            }
        }
    }
    if a.no_duplicates() && b.no_duplicates() && (forall|x: usize|
        #![auto]
        !(a.contains(x) && b.contains(x))) {
        let c = a + b;
        assert forall|i: int, j: int| 0 <= i < c.len() && 0 <= j < c.len() && i != j implies c[i]
            != c[j] by {
            if i < a.len() && j >= a.len() {
                assert(a.contains(a[i]) && b.contains(b[j - a.len()]));
            } else if j < a.len() && i >= a.len() {
                assert(a.contains(a[j]) && b.contains(b[i - a.len()]));
            }
        }
    }
}

proof fn lemma_freeing_balances(st: KvState, id: usize)
    requires
        st.wf(),
    ensures
        st.freed(id).balanced(),
        st.freed(id).request(id) is None,
{
    lemma_position(st.requests, id);
    match position(st.requests, id) {
        Some(i) => {
            let r = st.requests[i];
            let rest = st.requests.remove(i);
            let back = released(r.blocks, rest);
            let next = st.freed(id);
            lemma_released(r.blocks, rest);
            lemma_reserved_remove(st.requests, i);
            assert(forall|j: int| 0 <= j < i ==> rest[j] == st.requests[j]);
            assert(forall|j: int| i <= j < rest.len() ==> rest[j] == st.requests[j + 1]);
            assert forall|b: usize| #![auto] !(st.free.contains(b) && back.contains(b)) by {
                if st.free.contains(b) && back.contains(b) {
                    let k = choose|k: int| 0 <= k < r.blocks.len() && r.blocks[k] == b;
                    assert(st.valid_block(r.blocks[k]));
                    lemma_uses_zero(st.requests, b);
                    assert(st.requests[i].blocks.contains(b));
                }
            }
            lemma_join(st.free, back);
            assert forall|k: int| 0 <= k < next.free.len() implies next.valid_block(
                #[trigger] next.free[k],
            ) by {
                if k >= st.free.len() {
                    let b = back[k - st.free.len()];
                    assert(back.contains(b));
                    let m = choose|m: int| 0 <= m < r.blocks.len() && r.blocks[m] == b;
                    assert(st.valid_block(r.blocks[m]));
                }
            }
            assert forall|b: usize| next.valid_block(b) implies (#[trigger] next.free.contains(b)
                <==> uses(next.requests, b) == 0) by {
                assert(st.valid_block(b));
                lemma_uses_remove(st.requests, i, b);
                assert(st.free.contains(b) <==> uses(st.requests, b) == 0);
                assert(next.free.contains(b) <==> st.free.contains(b) || back.contains(b));
                if st.free.contains(b) {
                    lemma_uses_zero(st.requests, b);
                    assert(!st.requests[i].blocks.contains(b));
                }
            }
            lemma_position(rest, id);
            if position(rest, id) is Some {
                let j = position(rest, id)->0;
                if j < i {
                    assert(st.requests[j].id == id);
                } else {
                    assert(st.requests[j + 1].id == id);
                }
            }
        },
        None => {},
    }
}

/// Blocks that are kept for a request are there when it needs them.
pub proof fn law_reserved_blocks_can_be_allocated(st: KvState, id: usize, num_tokens: nat)
    requires
        st.wf(),
        st.request(id) matches Some(r) && st.blocks_for(num_tokens) <= r.blocks.len() + r.reserved,
    ensures
        st.can_allocate(id, num_tokens, Seq::empty()),
{
    lemma_position(st.requests, id);
    lemma_reserved_parts(st.requests);
}

/// Where there are blocks for all tokens of a new request, what its first tokens do
/// not take can be kept for it.
pub proof fn law_admitted_request_can_reserve(
    st: KvState,
    id: usize,
    first: nat,
    all: nat,
    computed: Seq<usize>,
)
    requires
        st.wf(),
        startable(st, id, computed),
        first <= all,
        st.can_allocate(id, all, computed),
    ensures
        st.can_allocate(id, first, computed),
        ({
            let next = st.allocated(id, first, computed);
            &&& next.request(id) is Some
            &&& next.to_reserve(next.request(id)->0, all) + next.reserved_for_others(id)
                <= next.free.len()
        }),
{
    let size = st.block_size;
    lemma_ceil_div_grows(first, all, size as nat);
    lemma_position(st.requests, id);
    lemma_reserved_parts(st.requests);
    law_allocation_keeps_the_pool(st, id, first, computed);
    let next = st.allocated(id, first, computed);
    lemma_position(next.requests, id);
    match position(st.requests, id) {
        Some(i) => {
            lemma_reserved_update(st.requests, i, next.requests[i]);
            assert(next.requests[i].id == id);
        },
        None => {
            assert(next.requests.drop_last() =~= st.requests);
            assert(next.requests.last().id == id);
        },
    }
}

proof fn lemma_ceil_div_grows(a: nat, b: nat, d: nat)
    requires
        a <= b,
        d > 0,
    ensures
        ceil_div(a, d) <= ceil_div(b, d),
{
    assert(a / d <= b / d && (a / d == b / d && a % d != 0 ==> b % d != 0)) by (nonlinear_arith)
        requires
            a <= b,
            d > 0,
    ;
}

proof fn lemma_reserving_balances(st: KvState, id: usize, n: int)
    requires
        st.wf(),
        st.request(id) is Some,
        0 <= n,
        n + st.reserved_for_others(id) <= st.free.len(),
    ensures
        st.reserved(position(st.requests, id)->0, n).balanced(),
{
    lemma_position(st.requests, id);
    let i = position(st.requests, id)->0;
    let r = RequestState { reserved: n, ..st.requests[i] };
    let next = st.reserved(i, n);
    lemma_reserved_update(st.requests, i, r);
    assert forall|b: usize| next.valid_block(b) implies (#[trigger] next.free.contains(b) <==> uses(
        next.requests,
        b,
    ) == 0) by {
        assert(st.valid_block(b));
        lemma_uses_update(st.requests, i, r, b);
    }
}

pub proof fn lemma_registered_len(
    hashes: Seq<Option<u64>>,
    blocks: Seq<usize>,
    given: Seq<u64>,
    from: int,
    to: int,
)
    requires
        0 <= from,
        to <= blocks.len(),
        forall|i: int| 0 <= i < blocks.len() ==> (#[trigger] blocks[i]) < hashes.len(),
    ensures
        registered(hashes, blocks, given, from, to).len() == hashes.len(),
    decreases to - from,
{
    if from < to {
        lemma_registered_len(hashes, blocks, given, from, to - 1);
    }
}

proof fn lemma_caching_balances(st: KvState, id: usize, given: Seq<u64>, num_tokens: nat)
    requires
        st.wf(),
    ensures
        st.cached(id, given, num_tokens).balanced(),
{
    lemma_position(st.requests, id);
    match position(st.requests, id) {
        Some(i) => {
            let r = st.requests[i];
            let to = st.to_cache(r, given, num_tokens);
            let next = st.cached(id, given, num_tokens);
            if to > r.cached {
                let changed = RequestState { cached: to, ..r };
                assert forall|k: int| 0 <= k < r.blocks.len() implies (#[trigger] r.blocks[k])
                    < st.hashes.len() by {
                    assert(st.valid_block(r.blocks[k]));
                }
                lemma_registered_len(st.hashes, r.blocks, given, r.cached, to);
                lemma_reserved_update(st.requests, i, changed);
                assert(forall|b: usize| next.valid_block(b) <==> st.valid_block(b));
                assert forall|b: usize| next.valid_block(b) implies (
                #[trigger] next.free.contains(b) <==> uses(next.requests, b) == 0) by {
                    assert(st.valid_block(b));
                    lemma_uses_update(st.requests, i, changed, b);
                }
                assert(forall|s: Seq<usize>| st.valid_blocks(s) ==> next.valid_blocks(s));
            }
        },
        None => {},
    }
}

/// Handing out blocks keeps every block free or held, never both, keeps what is
/// reserved, and shares no block that has no hash.
pub proof fn law_allocation_keeps_the_pool(
    st: KvState,
    id: usize,
    num_tokens: nat,
    computed: Seq<usize>,
)
    requires
        st.wf(),
        startable(st, id, computed),
        st.can_allocate(id, num_tokens, computed),
    ensures
        st.allocated(id, num_tokens, computed).wf(),
{
    lemma_allocation_balances(st, id, num_tokens, computed);
    let start = st.start_of(id, computed);
    let need = st.lacking(id, num_tokens, computed);
    let open = st.unpinned(id, computed);
    let fresh = open.take(need);
    let next = st.allocated(id, num_tokens, computed);
    lemma_position(st.requests, id);
    lemma_without(st.free, computed);
    lemma_reserved_parts(st.requests);
    lemma_parts(open, need);
    lemma_join(start.blocks, fresh);
    let at = match position(st.requests, id) {
        Some(i) => i,
        None => st.requests.len() as int,
    };
    let grown = next.requests[at];
    assert forall|b: usize| fresh.contains(b) implies uses(st.requests, b) == 0 && st.valid_block(
        b,
    ) by {
        assert(open.contains(b));
        assert(st.free.contains(b));
        let k = choose|k: int| 0 <= k < st.free.len() && st.free[k] == b;
        assert(st.valid_block(st.free[k]));
    }
    assert forall|j: int| 0 <= j < next.requests.len() implies #[trigger] next.private_tail(j) by {
        assert forall|k: int|
            next.requests[j].cached <= k < next.requests[j].blocks.len() implies next.hashes[(
        #[trigger] next.requests[j].blocks[k]) as int] is None && uses(
            next.requests,
            next.requests[j].blocks[k],
        ) == 1 by {
            let b = next.requests[j].blocks[k];
            assert(next.valid_blocks(next.requests[j].blocks));
            assert(next.valid_block(b));
            assert(next.requests[j].blocks.contains(b));
            match position(st.requests, id) {
                Some(i) => {
                    lemma_uses_update(st.requests, i, grown, b);
                },
                None => {
                    assert(next.requests.drop_last() =~= st.requests);
                },
            }
            if j == at {
                if k < start.blocks.len() {
                    assert(start.blocks[k] == b);
                    assert(st.private_tail(at));
                    assert(st.requests[at].blocks[k] == b);
                    assert(start.blocks.contains(b));
                } else {
                    assert(fresh[k - start.blocks.len()] == b);
                    assert(fresh.contains(b));
                    if position(st.requests, id) is Some {
                        lemma_uses_zero(st.requests, b);
                        assert(!st.requests[at].blocks.contains(b));
                    }
                }
            } else {
                assert(next.requests[j] == st.requests[j]);
                assert(st.private_tail(j));
                assert(st.requests[j].blocks[k] == b);
                assert(!fresh.contains(b));
                if position(st.requests, id) is Some {
                    if start.blocks.contains(b) {
                        lemma_uses_two(st.requests, at, j, b);
                    }
                } else if computed.contains(b) {
                    let m = choose|m: int| 0 <= m < computed.len() && computed[m] == b;
                    assert(st.hashes[computed[m] as int] is Some);
                }
            }
        }
    }
}

/// Giving blocks back keeps every block free or held, never both.
pub proof fn law_freeing_keeps_the_pool(st: KvState, id: usize)
    requires
        st.wf(),
    ensures
        st.freed(id).wf(),
        st.freed(id).request(id) is None,
{
    lemma_freeing_balances(st, id);
    lemma_position(st.requests, id);
    match position(st.requests, id) {
        Some(i) => {
            let rest = st.requests.remove(i);
            let next = st.freed(id);
            assert forall|j: int| 0 <= j < rest.len() implies #[trigger] next.private_tail(j) by {
                let was = if j < i {
                    j
                } else {
                    j + 1
                };
                assert(rest[j] == st.requests[was]);
                assert(st.private_tail(was));
                assert forall|k: int|
                    rest[j].cached <= k < rest[j].blocks.len() implies next.hashes[(
                #[trigger] next.requests[j].blocks[k]) as int] is None && uses(
                    next.requests,
                    next.requests[j].blocks[k],
                ) == 1 by {
                    let b = rest[j].blocks[k];
                    assert(st.requests[was].blocks[k] == b);
                    lemma_uses_remove(st.requests, i, b);
                    assert(st.requests[was].blocks.contains(b));
                    if st.requests[i].blocks.contains(b) {
                        lemma_uses_two(st.requests, i, was, b);
                    }
                }
            }
        },
        None => {},
    }
}

/// Keeping blocks for a request keeps the pool.
pub proof fn law_reserving_keeps_the_pool(st: KvState, id: usize, n: int)
    requires
        st.wf(),
        st.request(id) is Some,
        0 <= n,
        n + st.reserved_for_others(id) <= st.free.len(),
    ensures
        st.reserved(position(st.requests, id)->0, n).wf(),
{
    lemma_reserving_balances(st, id, n);
    lemma_position(st.requests, id);
    let i = position(st.requests, id)->0;
    let r = RequestState { reserved: n, ..st.requests[i] };
    let next = st.reserved(i, n);
    assert forall|j: int| 0 <= j < next.requests.len() implies #[trigger] next.private_tail(j) by {
        assert(st.private_tail(j));
        assert forall|k: int|
            next.requests[j].cached <= k < next.requests[j].blocks.len() implies next.hashes[(
        #[trigger] next.requests[j].blocks[k]) as int] is None && uses(
            next.requests,
            next.requests[j].blocks[k],
        ) == 1 by {
            let b = next.requests[j].blocks[k];
            assert(st.requests[j].blocks[k] == b);
            lemma_uses_update(st.requests, i, r, b);
        }
    }
}

pub proof fn lemma_registered_frame(
    hashes: Seq<Option<u64>>,
    blocks: Seq<usize>,
    given: Seq<u64>,
    from: int,
    to: int,
    b: int,
)
    requires
        0 <= from,
        to <= blocks.len(),
        forall|i: int| 0 <= i < blocks.len() ==> (#[trigger] blocks[i]) < hashes.len(),
        0 <= b < hashes.len(),
        forall|i: int| from <= i < to ==> (#[trigger] blocks[i]) != b,
    ensures
        registered(hashes, blocks, given, from, to)[b] == hashes[b],
    decreases to - from,
{
    if from < to {
        lemma_registered_frame(hashes, blocks, given, from, to - 1, b);
        lemma_registered_len(hashes, blocks, given, from, to - 1);
    }
}

/// Giving hashes to blocks keeps the pool.
pub proof fn law_caching_keeps_the_pool(st: KvState, id: usize, given: Seq<u64>, num_tokens: nat)
    requires
        st.wf(),
    ensures
        st.cached(id, given, num_tokens).wf(),
{
    lemma_caching_balances(st, id, given, num_tokens);
    lemma_position(st.requests, id);
    match position(st.requests, id) {
        Some(i) => {
            let r = st.requests[i];
            let to = st.to_cache(r, given, num_tokens);
            let next = st.cached(id, given, num_tokens);
            if to > r.cached {
                let changed = RequestState { cached: to, ..r };
                assert forall|k: int| 0 <= k < r.blocks.len() implies (#[trigger] r.blocks[k])
                    < st.hashes.len() by {
                    assert(st.valid_block(r.blocks[k]));
                }
                assert forall|j: int|
                    0 <= j < next.requests.len() implies #[trigger] next.private_tail(j) by {
                    assert(st.private_tail(j));
                    assert forall|k: int|
                        next.requests[j].cached <= k
                            < next.requests[j].blocks.len() implies next.hashes[(
                    #[trigger] next.requests[j].blocks[k]) as int] is None && uses(
                        next.requests,
                        next.requests[j].blocks[k],
                    ) == 1 by {
                        let b = next.requests[j].blocks[k];
                        assert(st.requests[j].blocks[k] == b);
                        lemma_uses_update(st.requests, i, changed, b);
                        assert(st.valid_blocks(st.requests[j].blocks));
                        assert forall|m: int| r.cached <= m < to implies (#[trigger] r.blocks[m])
                            != b by {
                            if r.blocks[m] == b {
                                assert(st.requests[i].blocks.contains(b));
                                if j != i {
                                    assert(st.requests[j].blocks.contains(b));
                                    lemma_uses_two(st.requests, i, j, b);
                                }
                            }
                        }
                        lemma_registered_frame(
                            st.hashes,
                            r.blocks,
                            given,
                            r.cached,
                            to,
                            b as int,
                        );
                    }
                }
            }
        },
        None => {},
    }
}

pub proof fn lemma_find_from(hashes: Seq<Option<u64>>, hash: u64, from: int)
    requires
        0 <= from,
        hashes.len() <= usize::MAX,
    ensures
        match find_from(hashes, hash, from) {
            Some(b) => from <= b < hashes.len() && hashes[b as int] == Some(hash),
            None => forall|b: int| from <= b < hashes.len() ==> hashes[b] != Some(hash),
        },
    decreases hashes.len() - from,
{
    if from < hashes.len() && hashes[from] != Some(hash) {
        lemma_find_from(hashes, hash, from + 1);
    }
}

pub proof fn lemma_registered_found(
    hashes: Seq<Option<u64>>,
    blocks: Seq<usize>,
    given: Seq<u64>,
    from: int,
    to: int,
    j: int,
)
    requires
        0 <= from <= j < to <= blocks.len(),
        hashes.len() <= usize::MAX,
        blocks.no_duplicates(),
        forall|i: int| 0 <= i < blocks.len() ==> 1 <= (#[trigger] blocks[i]) < hashes.len(),
        forall|i: int| from <= i < to ==> hashes[(#[trigger] blocks[i]) as int] is None,
    ensures
        find(registered(hashes, blocks, given, from, to), given[j]) is Some,
    decreases to,
{
    let before = registered(hashes, blocks, given, from, to - 1);
    let after = registered(hashes, blocks, given, from, to);
    lemma_registered_len(hashes, blocks, given, from, to - 1);
    lemma_registered_len(hashes, blocks, given, from, to);
    lemma_registered_frame(hashes, blocks, given, from, to - 1, blocks[to - 1] as int);
    lemma_find_from(before, given[j], 1);
    lemma_find_from(after, given[j], 1);
    if j < to - 1 {
        lemma_registered_found(hashes, blocks, given, from, to - 1, j);
        let b = find(before, given[j])->0;
        assert(b != blocks[to - 1]);
        assert(after[b as int] == before[b as int]);
    } else if find(before, given[j]) is Some {
        assert(after == before);
    } else {
        assert(after[blocks[to - 1] as int] == Some(given[j]));
    }
}

proof fn lemma_registered_keeps(
    hashes: Seq<Option<u64>>,
    blocks: Seq<usize>,
    given: Seq<u64>,
    from: int,
    to: int,
    hash: u64,
)
    requires
        0 <= from <= to <= blocks.len(),
        hashes.len() <= usize::MAX,
        forall|i: int| 0 <= i < blocks.len() ==> 1 <= (#[trigger] blocks[i]) < hashes.len(),
        forall|i: int| from <= i < to ==> hashes[(#[trigger] blocks[i]) as int] is None,
        find(hashes, hash) is Some,
    ensures
        find(registered(hashes, blocks, given, from, to), hash) is Some,
{
    lemma_find_from(hashes, hash, 1);
    let b = find(hashes, hash)->0 as int;
    let after = registered(hashes, blocks, given, from, to);
    lemma_registered_len(hashes, blocks, given, from, to);
    lemma_registered_frame(hashes, blocks, given, from, to, b);
    lemma_find_from(after, hash, 1);
}

/// Blocks that are found are blocks of the pool with a hash, all different.
pub proof fn lemma_hits(hashes: Seq<Option<u64>>, wanted: Seq<u64>, limit: int)
    requires
        hashes.len() <= usize::MAX,
        limit <= wanted.len(),
    ensures
        ({
            let r = hits(hashes, wanted, limit);
            &&& r.no_duplicates()
            &&& r.len() <= if limit > 0 { limit } else { 0 }
            &&& forall|i: int|
                0 <= i < r.len() ==> 1 <= (#[trigger] r[i]) < hashes.len() && hashes[r[i] as int]
                    == Some(wanted[i])
        }),
    decreases limit,
{
    if limit > 0 {
        let before = hits(hashes, wanted, limit - 1);
        lemma_hits(hashes, wanted, limit - 1);
        lemma_find_from(hashes, wanted[limit - 1], 1);
        match find(hashes, wanted[limit - 1]) {
            Some(b) => {
                lemma_push(before, b);
            },
            None => {},
        }
    }
}

proof fn lemma_all_hits(hashes: Seq<Option<u64>>, wanted: Seq<u64>, k: int, limit: int)
    requires
        hashes.len() <= usize::MAX,
        limit <= wanted.len(),
        wanted.no_duplicates(),
        forall|j: int| 0 <= j < k ==> find(hashes, #[trigger] wanted[j]) is Some,
    ensures
        hits(hashes, wanted, limit).len() >= if limit <= 0 {
            0
        } else if k <= limit {
            k
        } else {
            limit
        },
    decreases limit,
{
    if limit > 0 {
        lemma_all_hits(hashes, wanted, k, limit - 1);
        lemma_hits(hashes, wanted, limit - 1);
        let before = hits(hashes, wanted, limit - 1);
        if limit <= k {
            assert(find(hashes, wanted[limit - 1]) is Some);
            lemma_find_from(hashes, wanted[limit - 1], 1);
            let b = find(hashes, wanted[limit - 1])->0;
            if before.contains(b) {
                let i = choose|i: int| 0 <= i < before.len() && before[i] == b;
                assert(hashes[before[i] as int] == Some(wanted[i]));
                assert(wanted[i] != wanted[limit - 1]);
            }
        }
    }
}

/// What a request has in the cache is found again once the request is gone: its hashed
/// blocks, but for the last token of the prompt that asks. Of the blocks that the request
/// had there before, the hashes must still be known.
pub proof fn law_cached_prefix_is_found(
    st: KvState,
    id: usize,
    given: Seq<u64>,
    num_tokens: nat,
    prompt_tokens: int,
)
    requires
        st.wf(),
        st.hashes.len() <= usize::MAX,
        st.request(id) matches Some(r) && forall|j: int|
            0 <= j < r.cached && j < given.len() ==> find(st.hashes, #[trigger] given[j])
                is Some,
        given.no_duplicates(),
    ensures
        ({
            let put = st.to_cache(st.request(id)->0, given, num_tokens);
            let limit = reusable_blocks(given.len() as int, prompt_tokens, st.block_size);
            st.cached(id, given, num_tokens).freed(id).computed(given, prompt_tokens).len()
                >= if put <= limit {
                put
            } else {
                limit
            }
        }),
{
    lemma_position(st.requests, id);
    let i = position(st.requests, id)->0;
    let r = st.requests[i];
    let put = st.to_cache(r, given, num_tokens);
    let limit = reusable_blocks(given.len() as int, prompt_tokens, st.block_size);
    let after = st.cached(id, given, num_tokens);
    let later = after.freed(id);
    assert(later.hashes == after.hashes);
    assert(limit <= given.len());
    assert(st.private_tail(i));
    assert forall|k: int| 0 <= k < r.blocks.len() implies 1 <= (#[trigger] r.blocks[k])
        < st.hashes.len() by {
        assert(st.valid_block(r.blocks[k]));
    }
    if put > 0 {
        lemma_registered_len(st.hashes, r.blocks, given, r.cached, put);
        assert forall|j: int| 0 <= j < put implies find(
            after.hashes,
            #[trigger] given[j],
        ) is Some by {
            if put <= r.cached {
                assert(after.hashes == st.hashes);
            } else if j >= r.cached {
                lemma_registered_found(st.hashes, r.blocks, given, r.cached, put, j);
            } else {
                lemma_registered_keeps(st.hashes, r.blocks, given, r.cached, put, given[j]);
            }
        }
        lemma_all_hits(after.hashes, given, put, limit);
    }
}

/// A request.
pub struct Request {
    id: usize,
    blocks: Vec<usize>,
    cached: usize,
    reserved: usize,
}

impl View for Request {
    type V = RequestState;

    closed spec fn view(&self) -> RequestState {
        RequestState {
            id: self.id,
            blocks: self.blocks@,
            cached: self.cached as int,
            reserved: self.reserved as int,
        }
    }
}

/// The cached blocks of a prefix.
pub struct ComputedBlocks {
    pub block_ids: Vec<usize>,
    pub num_computed_tokens: usize,
}

/// The pool of cache blocks.
pub struct KvCacheManager {
    block_size: usize,
    /// How many requests hold each block.
    refs: Vec<usize>,
    hashes: Vec<Option<u64>>,
    free: VecDeque<usize>,
    requests: Vec<Request>,
}

impl View for KvCacheManager {
    type V = KvState;

    closed spec fn view(&self) -> KvState {
        KvState {
            block_size: self.block_size as int,
            hashes: self.hashes@,
            free: self.free@,
            requests: Seq::new(self.requests@.len(), |i: int| self.requests@[i]@),
        }
    }
}

impl KvCacheManager {
    /// The pool is well formed, and the counts are those of the requests.
    pub closed spec fn wf(&self) -> bool {
        &&& self@.wf()
        &&& self.refs@.len() == self.hashes@.len()
        &&& forall|b: usize|
            b < self.refs@.len() ==> (#[trigger] self.refs@[b as int]) == uses(
                self@.requests,
                b,
            )
    }

    /// The pool is well formed.
    pub proof fn lemma_wf(&self)
        requires
            self.wf(),
        ensures
            self@.wf(),
            self@.hashes.len() <= usize::MAX,
            self@.block_size <= usize::MAX,
            self@.free.len() <= usize::MAX,
    {
        assert(self.hashes.len() == self.hashes@.len());
        assert(self.free.len() == self.free@.len());
    }

    /// A pool of `num_blocks` blocks, all free but the first.
    pub fn new(block_size: usize, num_blocks: usize) -> (r: KvCacheManager)
        requires
            block_size > 0,
            num_blocks > 0,
        ensures
            r.wf(),
            r@.block_size == block_size,
            r@.hashes == Seq::new(num_blocks as nat, |b: int| None::<u64>),
            r@.free == Seq::new((num_blocks - 1) as nat, |i: int| (i + 1) as usize),
            r@.requests == Seq::<RequestState>::empty(),
    {
        let mut refs: Vec<usize> = Vec::new();
        let mut hashes: Vec<Option<u64>> = Vec::new();
        let mut free: VecDeque<usize> = VecDeque::new();
        let mut i: usize = 0;
        while i < num_blocks
            invariant
                i <= num_blocks,
                refs@ == Seq::new(i as nat, |b: int| 0usize),
                hashes@ == Seq::new(i as nat, |b: int| None::<u64>),
                free@ == Seq::new(
                    if i > 0 {
                        (i - 1) as nat
                    } else {
                        0
                    },
                    |k: int| (k + 1) as usize,
                ),
            decreases num_blocks - i,
        {
            refs.push(0);
            hashes.push(None);
            if i > 0 {
                free.push_back(i);
            }
            i += 1;
            assert(refs@ =~= Seq::new(i as nat, |b: int| 0usize));
            assert(hashes@ =~= Seq::new(i as nat, |b: int| None::<u64>));
            assert(free@ =~= Seq::new((i - 1) as nat, |k: int| (k + 1) as usize));
        }
        let r = KvCacheManager { block_size, refs, hashes, free, requests: Vec::new() };
        proof {
            assert(r@.requests =~= Seq::<RequestState>::empty());
            assert forall|b: usize| r@.valid_block(b) implies (#[trigger] r@.free.contains(b) <==> uses(
                r@.requests,
                b,
            ) == 0) by {
                assert(r@.free[b - 1] == b);
            }
        }
        r
    }

    fn index_of(&self, id: usize) -> (r: Option<usize>)
        ensures
            match position(self@.requests, id) {
                Some(i) => r is Some && r->0 == i && i < self.requests@.len(),
                None => r is None,
            },
    {
        let n: usize = self.requests.len();
        let mut i: usize = 0;
        while i < n
            invariant
                i <= n == self.requests@.len(),
                forall|j: int| 0 <= j < i ==> (#[trigger] self@.requests[j]).id != id,
            decreases n - i,
        {
            if self.requests[i].id == id {
                assert(self@.requests[i as int].id == id);
                proof {
                    lemma_position_unique(self@.requests, id, i as int);
                }
                return Some(i);
            }
            assert(self@.requests[i as int].id != id);
            i += 1;
        }
        proof {
            lemma_position(self@.requests, id);
        }
        None
    }
}

/// Takes the pinned blocks out of the free ones.
fn unpin(free: &VecDeque<usize>, pinned: &Vec<usize>) -> (r: VecDeque<usize>)
    ensures
        r@ == without(free@, pinned@),
{
    let n: usize = free.len();
    let mut r: VecDeque<usize> = VecDeque::new();
    let mut i: usize = 0;
    assert(r@ =~= without(free@.take(0), pinned@));
    while i < n
        invariant
            i <= n == free@.len(),
            r@ == without(free@.take(i as int), pinned@),
        decreases n - i,
    {
        let b: usize = free[i];
        assert(free@.take(i + 1).drop_last() =~= free@.take(i as int));
        if !contains_index(pinned, b) {
            r.push_back(b);
        }
        i += 1;
    }
    assert(free@.take(n as int) =~= free@);
    r
}

/// Counts one more holder of each block.
fn hold(refs: &mut Vec<usize>, blocks: &Vec<usize>)
    requires
        blocks@.no_duplicates(),
        forall|k: int|
            0 <= k < blocks@.len() ==> (#[trigger] blocks@[k]) < old(refs)@.len()
                && old(refs)@[blocks@[k] as int] < usize::MAX,
    ensures
        final(refs)@.len() == old(refs)@.len(),
        forall|b: usize|
            b < old(refs)@.len() ==> (#[trigger] final(refs)@[b as int]) == old(refs)@[b as int] + (
            if blocks@.contains(b) {
                1int
            } else {
                0int
            }),
{
    let n: usize = blocks.len();
    let mut k: usize = 0;
    while k < n
        invariant
            k <= n == blocks@.len(),
            blocks@.no_duplicates(),
            refs@.len() == old(refs)@.len(),
            forall|j: int|
                0 <= j < blocks@.len() ==> (#[trigger] blocks@[j]) < old(refs)@.len()
                    && old(refs)@[blocks@[j] as int] < usize::MAX,
            forall|b: usize|
                b < refs@.len() ==> (#[trigger] refs@[b as int]) == old(refs)@[b as int] + (
                if blocks@.take(k as int).contains(b) {
                    1int
                } else {
                    0int
                }),
        decreases n - k,
    {
        let b: usize = blocks[k];
        let ghost before = refs@;
        proof {
            assert(b == blocks@[k as int]);
            if blocks@.take(k as int).contains(b) {
                let j = choose|j: int| 0 <= j < k && blocks@.take(k as int)[j] == b;
                assert(blocks@[j] == b);
            }
            assert(refs@[b as int] == old(refs)@[b as int]);
        }
        let count: usize = refs[b];
        refs[b] = count + 1;
        proof {
            assert forall|c: usize| c < refs@.len() implies (#[trigger] refs@[c as int]) == old(
                refs,
            )@[c as int] + (if blocks@.take(k + 1).contains(c) {
                1int
            } else {
                0int
            }) by {
                lemma_last(blocks@.take(k + 1), c);
                assert(blocks@.take(k + 1).drop_last() =~= blocks@.take(k as int));
                assert(before[c as int] == old(refs)@[c as int] + (if blocks@.take(
                    k as int,
                ).contains(c) {
                    1int
                } else {
                    0int
                }));
            }
        }
        k += 1;
    }
    assert(blocks@.take(n as int) =~= blocks@);
}

/// Takes the hashes of blocks away.
fn evict(hashes: &mut Vec<Option<u64>>, blocks: &Vec<usize>)
    requires
        forall|k: int| 0 <= k < blocks@.len() ==> (#[trigger] blocks@[k]) < old(hashes)@.len(),
        old(hashes)@.len() <= usize::MAX,
    ensures
        final(hashes)@ == evicted(old(hashes)@, blocks@),
{
    let n: usize = blocks.len();
    let mut k: usize = 0;
    assert(hashes@ =~= evicted(old(hashes)@, blocks@.take(0)));
    while k < n
        invariant
            k <= n == blocks@.len(),
            old(hashes)@.len() <= usize::MAX,
            forall|j: int| 0 <= j < blocks@.len() ==> (#[trigger] blocks@[j]) < old(hashes)@.len(),
            hashes@ == evicted(old(hashes)@, blocks@.take(k as int)),
        decreases n - k,
    {
        let b: usize = blocks[k];
        assert(b == blocks@[k as int]);
        hashes[b] = None;
        proof {
            let longer = blocks@.take(k + 1);
            assert(longer.drop_last() =~= blocks@.take(k as int));
            assert forall|c: int| 0 <= c < hashes@.len() implies hashes@[c] == evicted(
                old(hashes)@,
                longer,
            )[c] by {
                lemma_last(longer, c as usize);
            }
            assert(hashes@ =~= evicted(old(hashes)@, longer));
        }
        k += 1;
    }
    assert(blocks@.take(n as int) =~= blocks@);
}

impl KvCacheManager {
    fn reserved_total(&self) -> (r: usize)
        requires
            self.wf(),
        ensures
            r == total_reserved(self@.requests),
    {
        proof {
            self.lemma_wf();
        }
        let n: usize = self.requests.len();
        let mut sum: usize = 0;
        let mut i: usize = 0;
        assert(self@.requests.take(0) =~= Seq::<RequestState>::empty());
        while i < n
            invariant
                i <= n == self.requests@.len(),
                self.wf(),
                self@.free.len() <= usize::MAX,
                sum == total_reserved(self@.requests.take(i as int)),
            decreases n - i,
        {
            proof {
                let all = self@.requests;
                assert(all.take(i + 1).drop_last() =~= all.take(i as int));
                assert(all.take(i + 1).last() == all[i as int]);
                lemma_reserved_prefix(all, i + 1);
            }
            sum = sum + self.requests[i].reserved;
            i += 1;
        }
        assert(self@.requests.take(n as int) =~= self@.requests);
        sum
    }

    /// Hands out the blocks that a request lacks for a number of tokens. A new
    /// request starts from cached blocks of its prefix. Nothing happens where there
    /// are too few.
    pub fn allocate_slots(&mut self, id: usize, num_tokens: usize, computed: &Vec<usize>) -> (r:
        Option<Vec<usize>>)
        requires
            old(self).wf(),
            startable(old(self)@, id, computed@),
        ensures
            final(self).wf(),
            match r {
                Some(fresh) => {
                    &&& old(self)@.can_allocate(id, num_tokens as nat, computed@)
                    &&& final(self)@ == old(self)@.allocated(id, num_tokens as nat, computed@)
                    &&& fresh@ == old(self)@.unpinned(id, computed@).take(
                        old(self)@.lacking(id, num_tokens as nat, computed@),
                    )
                },
                None => {
                    &&& !old(self)@.can_allocate(id, num_tokens as nat, computed@)
                    &&& final(self)@ == old(self)@
                },
            },
    {
        let ghost st = self@;
        proof {
            self.lemma_wf();
            lemma_position(st.requests, id);
            lemma_reserved_parts(st.requests);
            lemma_without(st.free, computed@);
        }
        let at: Option<usize> = self.index_of(id);
        let reserved: usize = self.reserved_total();
        let wanted: usize = div_ceil(num_tokens, self.block_size);
        let (held, own): (usize, usize) = match at {
            Some(i) => (self.requests[i].blocks.len(), self.requests[i].reserved),
            None => (computed.len(), 0),
        };
        proof {
            if let Some(i) = at {
                assert(st.requests[i as int] == self.requests@[i as int]@);
                assert(st.requests[i as int].reserved <= total_reserved(st.requests));
            }
        }
        let need: usize = if wanted > held {
            wanted - held
        } else {
            0
        };
        let mut open: VecDeque<usize> = match at {
            Some(_) => self.free.clone(),
            None => unpin(&self.free, computed),
        };
        assert(open@ == st.unpinned(id, computed@)) by {
            assert(open@ =~= st.unpinned(id, computed@));
        }
        let others: usize = reserved - own;
        assert(others == st.reserved_for_others(id));
        assert(need == st.lacking(id, num_tokens as nat, computed@));
        let open_len: usize = open.len();
        if need > open_len || others > open_len - need {
            return None;
        }
        proof {
            law_allocation_keeps_the_pool(st, id, num_tokens as nat, computed@);
            lemma_parts(open@, need as int);
        }
        let ghost all_open = open@;
        let mut fresh: Vec<usize> = Vec::new();
        let mut k: usize = 0;
        assert(fresh@ =~= all_open.take(0));
        assert(open@ =~= all_open.skip(0));
        while k < need
            invariant
                k <= need <= all_open.len(),
                fresh@ == all_open.take(k as int),
                open@ == all_open.skip(k as int),
            decreases need - k,
        {
            match open.pop_front() {
                Some(b) => {
                    fresh.push(b);
                },
                None => {},
            }
            k += 1;
            assert(fresh@ =~= all_open.take(k as int));
            assert(open@ =~= all_open.skip(k as int));
        }
        proof {
            assert forall|j: int| 0 <= j < fresh@.len() implies (#[trigger] fresh@[j])
                < st.hashes.len() && uses(st.requests, fresh@[j]) == 0 by {
                let b = fresh@[j];
                assert(b == all_open[j]);
                assert(all_open.contains(b));
                assert(st.free.contains(b));
                let m = choose|m: int| 0 <= m < st.free.len() && st.free[m] == b;
                assert(st.valid_block(st.free[m]));
            }
        }
        self.free = open;
        evict(&mut self.hashes, &fresh);
        let result: Vec<usize> = fresh.clone();
        assert(result@ =~= fresh@);
        match at {
            Some(i) => {
                let ghost was = self.requests@;
                let mut grown: Vec<usize> = self.requests[i].blocks.clone();
                assert(grown@ =~= was[i as int].blocks@);
                let cached: usize = self.requests[i].cached;
                proof {
                    assert forall|j: int| 0 <= j < fresh@.len() implies (#[trigger] fresh@[j])
                        < self.refs@.len() && self.refs@[fresh@[j] as int] < usize::MAX by {
                        assert(self.refs@[fresh@[j] as int] == uses(st.requests, fresh@[j]));
                    }
                }
                hold(&mut self.refs, &fresh);
                grown.append(&mut fresh);
                self.requests[i] = Request {
                    id,
                    blocks: grown,
                    cached,
                    reserved: if own > need {
                        own - need
                    } else {
                        0
                    },
                };
                proof {
                    let next = st.allocated(id, num_tokens as nat, computed@);
                    assert(self@.requests =~= next.requests);
                    assert(self@ =~= next);
                    assert forall|b: usize| b < self.refs@.len() implies (
                    #[trigger] self.refs@[b as int]) == uses(self@.requests, b) by {
                        lemma_uses_update(st.requests, i as int, next.requests[i as int], b);
                        lemma_join(st.requests[i as int].blocks, result@);
                        if result@.contains(b) {
                            let j = choose|j: int| 0 <= j < result@.len() && result@[j] == b;
                            assert(uses(st.requests, result@[j]) == 0);
                            lemma_uses_zero(st.requests, b);
                            assert(!st.requests[i as int].blocks.contains(b));
                        }
                    }
                }
            },
            None => {
                let mut grown: Vec<usize> = computed.clone();
                assert(grown@ =~= computed@);
                grown.append(&mut fresh);
                let ghost all = grown@;
                self.requests.push(
                    Request { id, blocks: grown, cached: computed.len(), reserved: 0 },
                );
                let count: usize = self.requests.len();
                let last: usize = count - 1;
                let held_now: Vec<usize> = self.requests[last].blocks.clone();
                proof {
                    let next = st.allocated(id, num_tokens as nat, computed@);
                    assert(held_now@ =~= all);
                    assert(self@.requests =~= next.requests);
                    assert(next.valid_blocks(next.requests.last().blocks));
                    assert(next.requests.last().blocks =~= all);
                    assert forall|j: int| 0 <= j < all.len() implies (#[trigger] all[j])
                        < self.refs@.len() && self.refs@[all[j] as int] < usize::MAX by {
                        assert(next.valid_block(all[j]));
                        assert(self.refs@[all[j] as int] == uses(st.requests, all[j]));
                        lemma_uses_at_most(st.requests, all[j]);
                    }
                }
                hold(&mut self.refs, &held_now);
                proof {
                    let next = st.allocated(id, num_tokens as nat, computed@);
                    assert(self@.requests =~= next.requests);
                    assert(self@ =~= next);
                    assert forall|b: usize| b < self.refs@.len() implies (
                    #[trigger] self.refs@[b as int]) == uses(self@.requests, b) by {
                        assert(next.requests.drop_last() =~= st.requests);
                    }
                }
            },
        }
        Some(result)
    }
}

proof fn lemma_reserved_prefix(requests: Seq<RequestState>, n: int)
    requires
        0 <= n <= requests.len(),
        forall|i: int| 0 <= i < requests.len() ==> (#[trigger] requests[i]).reserved >= 0,
    ensures
        total_reserved(requests.take(n)) <= total_reserved(requests),
    decreases requests.len() - n,
{
    if n == requests.len() {
        assert(requests.take(n) =~= requests);
    } else {
        lemma_reserved_prefix(requests, n + 1);
        assert(requests.take(n + 1).drop_last() =~= requests.take(n));
        assert(requests.take(n + 1).last() == requests[n]);
    }
}

fn find_hash(hashes: &Vec<Option<u64>>, hash: u64) -> (r: Option<usize>)
    ensures
        r == find(hashes@, hash),
{
    let n: usize = hashes.len();
    let mut b: usize = 1;
    while b < n
        invariant
            1 <= b,
            n == hashes@.len(),
            n > 0 ==> b <= n,
            find(hashes@, hash) == find_from(hashes@, hash, b as int),
        decreases n - b,
    {
        if let Some(h) = hashes[b] {
            if h == hash {
                return Some(b);
            }
        }
        b += 1;
    }
    None
}

/// Drops one holder of each block, the last block first, and frees those that no
/// one holds any more.
fn unhold(
    refs: &mut Vec<usize>,
    free: &mut VecDeque<usize>,
    blocks: &Vec<usize>,
    Ghost(rest): Ghost<Seq<RequestState>>,
)
    requires
        blocks@.no_duplicates(),
        forall|k: int| 0 <= k < blocks@.len() ==> (#[trigger] blocks@[k]) < old(refs)@.len(),
        forall|b: usize|
            b < old(refs)@.len() ==> (#[trigger] old(refs)@[b as int]) == uses(rest, b) + (
            if blocks@.contains(b) {
                1nat
            } else {
                0nat
            }),
    ensures
        final(refs)@.len() == old(refs)@.len(),
        forall|b: usize|
            b < final(refs)@.len() ==> (#[trigger] final(refs)@[b as int]) == uses(rest, b),
        final(free)@ == old(free)@ + released(blocks@, rest),
{
    let n: usize = blocks.len();
    let mut k: usize = n;
    assert(blocks@.take(n as int) =~= blocks@);
    while k > 0
        invariant
            k <= n == blocks@.len(),
            blocks@.no_duplicates(),
            refs@.len() == old(refs)@.len(),
            forall|j: int| 0 <= j < blocks@.len() ==> (#[trigger] blocks@[j]) < refs@.len(),
            forall|b: usize|
                b < refs@.len() ==> (#[trigger] refs@[b as int]) == uses(rest, b) + (
                if blocks@.take(k as int).contains(b) {
                    1nat
                } else {
                    0nat
                }),
            free@ + released(blocks@.take(k as int), rest) == old(free)@ + released(blocks@, rest),
        decreases k,
    {
        let ghost now = blocks@.take(k as int);
        let ghost before = refs@;
        let ghost open = free@;
        let b: usize = blocks[k - 1];
        proof {
            assert(now.last() == b);
            assert(now.drop_last() =~= blocks@.take(k - 1));
            assert(now.contains(b)) by {
                assert(now[k - 1] == b);
            }
            assert(refs@[b as int] == uses(rest, b) + 1);
        }
        let count: usize = refs[b] - 1;
        refs[b] = count;
        if count == 0 {
            free.push_back(b);
        }
        proof {
            assert forall|c: usize| c < refs@.len() implies (#[trigger] refs@[c as int]) == uses(
                rest,
                c,
            ) + (if blocks@.take(k - 1).contains(c) {
                1nat
            } else {
                0nat
            }) by {
                lemma_last(now, c);
                assert(before[c as int] == uses(rest, c) + (if now.contains(c) {
                    1nat
                } else {
                    0nat
                }));
                if c == b && now.drop_last().contains(b) {
                    let j = choose|j: int| 0 <= j < k - 1 && now.drop_last()[j] == b;
                    assert(blocks@[j] == blocks@[k - 1]);
                }
            }
            assert(free@ + released(blocks@.take(k - 1), rest) =~= open + released(now, rest));
        }
        k -= 1;
    }
    assert(blocks@.take(0) =~= Seq::<usize>::empty());
    assert(free@ =~= free@ + released(blocks@.take(0), rest));
}

impl KvCacheManager {
    /// Keeps for a request the blocks that it will lack for a number of tokens.
    /// Nothing happens where there are too few, or no such request.
    pub fn reserve_slots(&mut self, id: usize, num_tokens: usize) -> (r: bool)
        requires
            old(self).wf(),
        ensures
            final(self).wf(),
            r == (old(self)@.request(id) matches Some(q) && old(self)@.to_reserve(
                q,
                num_tokens as nat,
            ) + old(self)@.reserved_for_others(id) <= old(self)@.free.len()),
            final(self)@ == (if r {
                old(self)@.reserved(
                    position(old(self)@.requests, id)->0,
                    old(self)@.to_reserve(old(self)@.request(id)->0, num_tokens as nat),
                )
            } else {
                old(self)@
            }),
    {
        let ghost st = self@;
        proof {
            self.lemma_wf();
            lemma_position(st.requests, id);
            lemma_reserved_parts(st.requests);
        }
        let i: usize = match self.index_of(id) {
            Some(i) => i,
            None => {
                return false;
            },
        };
        assert(st.requests[i as int] == self.requests@[i as int]@);
        let reserved: usize = self.reserved_total();
        let wanted: usize = div_ceil(num_tokens, self.block_size);
        let held: usize = self.requests[i].blocks.len();
        let need: usize = if wanted > held {
            wanted - held
        } else {
            0
        };
        assert(st.requests[i as int].reserved <= total_reserved(st.requests));
        let others: usize = reserved - self.requests[i].reserved;
        let free: usize = self.free.len();
        if need > free || others > free - need {
            return false;
        }
        proof {
            law_reserving_keeps_the_pool(st, id, need as int);
        }
        let blocks: Vec<usize> = self.requests[i].blocks.clone();
        assert(blocks@ =~= self.requests@[i as int].blocks@);
        let cached: usize = self.requests[i].cached;
        self.requests[i] = Request { id, blocks, cached, reserved: need };
        proof {
            let next = st.reserved(i as int, need as int);
            assert(self@.requests =~= next.requests);
            assert(self@ =~= next);
            assert forall|b: usize| b < self.refs@.len() implies (#[trigger] self.refs@[b as int])
                == uses(self@.requests, b) by {
                lemma_uses_update(st.requests, i as int, next.requests[i as int], b);
            }
        }
        true
    }

    /// Takes everything back from a request.
    pub fn free(&mut self, id: usize)
        requires
            old(self).wf(),
        ensures
            final(self).wf(),
            final(self)@ == old(self)@.freed(id),
            final(self)@.request(id) is None,
    {
        let ghost st = self@;
        proof {
            self.lemma_wf();
            lemma_position(st.requests, id);
            law_freeing_keeps_the_pool(st, id);
        }
        if let Some(i) = self.index_of(id) {
            assert(st.requests[i as int] == self.requests@[i as int]@);
            let gone: Request = self.requests.remove(i);
            let ghost rest = st.requests.remove(i as int);
            proof {
                assert(self@.requests =~= rest);
                assert(st.valid_blocks(gone.blocks@));
                assert forall|k: int| 0 <= k < gone.blocks@.len() implies (
                #[trigger] gone.blocks@[k]) < self.refs@.len() by {
                    assert(st.valid_block(gone.blocks@[k]));
                }
                assert forall|b: usize| b < self.refs@.len() implies (
                #[trigger] self.refs@[b as int]) == uses(rest, b) + (if gone.blocks@.contains(b) {
                    1nat
                } else {
                    0nat
                }) by {
                    lemma_uses_remove(st.requests, i as int, b);
                }
            }
            unhold(&mut self.refs, &mut self.free, &gone.blocks, Ghost(rest));
            proof {
                assert(self@.requests =~= rest);
                assert(self@ =~= st.freed(id));
            }
        }
    }

    /// Gives their hashes to the first blocks of a request, as far as they are full
    /// of the given number of tokens.
    pub fn cache_blocks(&mut self, id: usize, given: &Vec<u64>, num_tokens: usize)
        requires
            old(self).wf(),
        ensures
            final(self).wf(),
            final(self)@ == old(self)@.cached(id, given@, num_tokens as nat),
    {
        let ghost st = self@;
        proof {
            self.lemma_wf();
            lemma_position(st.requests, id);
            law_caching_keeps_the_pool(st, id, given@, num_tokens as nat);
        }
        let i: usize = match self.index_of(id) {
            Some(i) => i,
            None => {
                return;
            },
        };
        let ghost r = st.requests[i as int];
        assert(r == self.requests@[i as int]@);
        let full: usize = num_tokens / self.block_size;
        let known: usize = if full <= given.len() {
            full
        } else {
            given.len()
        };
        let held: usize = self.requests[i].blocks.len();
        let to: usize = if known <= held {
            known
        } else {
            held
        };
        let from: usize = self.requests[i].cached;
        if to <= from {
            return;
        }
        let blocks: Vec<usize> = self.requests[i].blocks.clone();
        assert(blocks@ =~= r.blocks);
        assert(st.valid_blocks(r.blocks));
        assert forall|k: int| 0 <= k < blocks@.len() implies (#[trigger] blocks@[k])
            < st.hashes.len() by {
            assert(st.valid_block(r.blocks[k]));
        }
        let mut k: usize = from;
        while k < to
            invariant
                from <= k <= to <= blocks@.len(),
                to <= given@.len(),
                forall|j: int| 0 <= j < blocks@.len() ==> (#[trigger] blocks@[j]) < st.hashes.len(),
                self.hashes@ == registered(st.hashes, blocks@, given@, from as int, k as int),
                self.hashes@.len() == st.hashes.len(),
                self.refs@ == old(self).refs@,
                self.free@ == old(self).free@,
                self.requests@ == old(self).requests@,
                self.block_size == old(self).block_size,
            decreases to - k,
        {
            let hash: u64 = given[k];
            if find_hash(&self.hashes, hash).is_none() {
                let b: usize = blocks[k];
                assert(b == blocks@[k as int]);
                self.hashes[b] = Some(hash);
            }
            k += 1;
        }
        let reserved: usize = self.requests[i].reserved;
        self.requests[i] = Request { id, blocks, cached: to, reserved };
        proof {
            let next = st.cached(id, given@, num_tokens as nat);
            assert(self@.requests =~= next.requests);
            assert(self@ =~= next);
            assert forall|b: usize| b < self.refs@.len() implies (#[trigger] self.refs@[b as int])
                == uses(self@.requests, b) by {
                lemma_uses_update(st.requests, i as int, next.requests[i as int], b);
            }
        }
    }

    /// The cached blocks of the longest reusable prefix of a prompt.
    pub fn get_computed_blocks(&self, wanted: &Vec<u64>, num_tokens: usize) -> (r: ComputedBlocks)
        requires
            self.wf(),
        ensures
            r.block_ids@ == self@.computed(wanted@, num_tokens as int),
            r.num_computed_tokens == r.block_ids@.len() * self@.block_size,
            r.num_computed_tokens < num_tokens || r.num_computed_tokens == 0,
            r.block_ids@.no_duplicates(),
            self@.valid_blocks(r.block_ids@),
            forall|id: usize| #[trigger] startable(self@, id, r.block_ids@),
    {
        proof {
            self.lemma_wf();
        }
        let most: usize = if num_tokens > 0 {
            (num_tokens - 1) / self.block_size
        } else {
            0
        };
        let limit: usize = if wanted.len() <= most {
            wanted.len()
        } else {
            most
        };
        let mut found: Vec<usize> = Vec::new();
        let mut k: usize = 0;
        let mut open: bool = true;
        while k < limit
            invariant
                k <= limit <= wanted@.len(),
                found@ == hits(self.hashes@, wanted@, k as int),
                open ==> found@.len() == k,
                !open ==> found@.len() < k,
                found@.len() <= k,
            decreases limit - k,
        {
            if open {
                match find_hash(&self.hashes, wanted[k]) {
                    Some(b) => {
                        if contains_index(&found, b) {
                            open = false;
                        } else {
                            found.push(b);
                        }
                    },
                    None => {
                        open = false;
                    },
                }
            }
            k += 1;
        }
        proof {
            lemma_hits(self@.hashes, wanted@, limit as int);
            assert(most as int == if num_tokens > 0 {
                (num_tokens - 1) / self@.block_size
            } else {
                0
            });
            assert(limit as int == reusable_blocks(
                wanted@.len() as int,
                num_tokens as int,
                self@.block_size,
            ));
            let n = found@.len() as int;
            let size = self.block_size as int;
            assert(n * size <= most * size) by (nonlinear_arith)
                requires
                    0 <= n <= most,
                    size > 0,
            ;
            if num_tokens > 0 {
                assert(most * size <= num_tokens - 1) by (nonlinear_arith)
                    requires
                        most as int == (num_tokens - 1) / size,
                        size > 0,
                        num_tokens > 0,
                ;
            } else {
                assert(n == 0);
                assert(n * size == 0) by (nonlinear_arith)
                    requires
                        n == 0,
                ;
            }
            assert(0 <= n * size) by (nonlinear_arith)
                requires
                    0 <= n,
                    size > 0,
            ;
        }
        let num_computed_tokens: usize = found.len() * self.block_size;
        ComputedBlocks { block_ids: found, num_computed_tokens }
    }

    /// Whether a request holds blocks.
    pub fn has_request(&self, id: usize) -> (r: bool)
        ensures
            r == self@.request(id) is Some,
    {
        self.index_of(id).is_some()
    }

    /// The blocks of a request.
    pub fn get_block_ids(&self, id: usize) -> (r: Option<Vec<usize>>)
        ensures
            match self@.request(id) {
                Some(q) => r matches Some(v) && v@ == q.blocks,
                None => r is None,
            },
    {
        match self.index_of(id) {
            Some(i) => {
                let v: Vec<usize> = self.requests[i].blocks.clone();
                assert(v@ =~= self@.requests[i as int].blocks);
                Some(v)
            },
            None => None,
        }
    }

    /// How many blocks a request holds.
    pub fn num_blocks_for_request(&self, id: usize) -> (r: usize)
        ensures
            r == (match self@.request(id) {
                Some(q) => q.blocks.len(),
                None => 0,
            }),
    {
        match self.index_of(id) {
            Some(i) => {
                assert(self@.requests[i as int] == self.requests@[i as int]@);
                self.requests[i].blocks.len()
            },
            None => 0,
        }
    }

    /// How many blocks of a request have been given hashes.
    pub fn num_cached_blocks(&self, id: usize) -> (r: usize)
        ensures
            r == (match self@.request(id) {
                Some(q) => q.cached,
                None => 0,
            }),
    {
        match self.index_of(id) {
            Some(i) => {
                assert(self@.requests[i as int] == self.requests@[i as int]@);
                self.requests[i].cached
            },
            None => 0,
        }
    }

    /// How many blocks are free.
    pub fn num_free_blocks(&self) -> (r: usize)
        ensures
            r == self@.free.len(),
    {
        self.free.len()
    }

    /// How many blocks are kept for requests.
    pub fn num_reserved_blocks(&self) -> (r: usize)
        requires
            self.wf(),
        ensures
            r == total_reserved(self@.requests),
    {
        self.reserved_total()
    }

    /// How many blocks are held.
    pub fn num_active_blocks(&self) -> (r: usize)
        requires
            self.wf(),
        ensures
            r == self@.capacity() - self@.free.len(),
    {
        proof {
            self.lemma_wf();
            lemma_free_at_most(self@);
        }
        self.hashes.len() - 1 - self.free.len()
    }

    /// Whether a request can get what it lacks for a number of tokens.
    pub fn can_allocate_slots(&self, id: usize, num_tokens: usize, computed: &Vec<usize>) -> (r:
        bool)
        requires
            self.wf(),
        ensures
            r == self@.can_allocate(id, num_tokens as nat, computed@),
    {
        let ghost st = self@;
        proof {
            self.lemma_wf();
            lemma_position(st.requests, id);
            lemma_reserved_parts(st.requests);
            lemma_without(st.free, computed@);
        }
        let at: Option<usize> = self.index_of(id);
        let reserved: usize = self.reserved_total();
        let wanted: usize = div_ceil(num_tokens, self.block_size);
        let (held, own, open): (usize, usize, usize) = match at {
            Some(i) => {
                assert(st.requests[i as int] == self.requests@[i as int]@);
                (self.requests[i].blocks.len(), self.requests[i].reserved, self.free.len())
            },
            None => (computed.len(), 0, unpin(&self.free, computed).len()),
        };
        proof {
            if let Some(i) = at {
                assert(st.requests[i as int].reserved <= total_reserved(st.requests));
            }
        }
        let need: usize = if wanted > held {
            wanted - held
        } else {
            0
        };
        let others: usize = reserved - own;
        need <= open && others <= open - need
    }

    /// Whether the blocks of a new request are there, beside what is kept for others.
    pub fn has_room_for(&self, num_tokens: usize) -> (r: bool)
        requires
            self.wf(),
        ensures
            r == (self@.blocks_for(num_tokens as nat) + total_reserved(self@.requests)
                <= self@.free.len()),
    {
        proof {
            self.lemma_wf();
        }
        let need: usize = div_ceil(num_tokens, self.block_size);
        let reserved: usize = self.reserved_total();
        let free: usize = self.free.len();
        reserved <= free && need <= free - reserved
    }

    /// Whether a number of tokens needs more blocks than can ever be held.
    pub fn needs_more_than_there_is(&self, num_tokens: usize) -> (r: bool)
        requires
            self.wf(),
        ensures
            r == (self@.blocks_for(num_tokens as nat) > self@.capacity()),
    {
        proof {
            self.lemma_wf();
        }
        div_ceil(num_tokens, self.block_size) > self.hashes.len() - 1
    }

    /// How many blocks can be held at once.
    pub fn capacity(&self) -> (r: usize)
        requires
            self.wf(),
        ensures
            r == self@.capacity(),
    {
        proof {
            self.lemma_wf();
        }
        self.hashes.len() - 1
    }

    /// The number of tokens in a block.
    pub fn block_size(&self) -> (r: usize)
        requires
            self.wf(),
        ensures
            r == self@.block_size,
            r > 0,
    {
        proof {
            self.lemma_wf();
        }
        self.block_size
    }
}

pub proof fn lemma_free_at_most(st: KvState)
    requires
        st.wf(),
    ensures
        st.free.len() <= st.capacity(),
{
    let ids = st.free.map_values(|b: usize| b as int);
    assert(ids.no_duplicates());
    ids.unique_seq_to_set();
    vstd::set_lib::lemma_int_range(1, st.hashes.len() as int);
    assert(ids.to_set().subset_of(vstd::set_lib::set_int_range(1, st.hashes.len() as int))) by {
        assert forall|x: int| ids.to_set().contains(x) implies vstd::set_lib::set_int_range(
            1,
            st.hashes.len() as int,
        ).contains(x) by {
            let k = choose|k: int| 0 <= k < ids.len() && ids[k] == x;
            assert(st.valid_block(st.free[k]));
        }
    }
    vstd::set_lib::lemma_len_subset(
        ids.to_set(),
        vstd::set_lib::set_int_range(1, st.hashes.len() as int),
    );
}

/// The blocks that are not free are those that some request holds.
pub proof fn law_active_blocks_are_held(st: KvState)
    requires
        st.wf(),
        st.hashes.len() <= usize::MAX,
    ensures
        Set::new(|b: int| 1 <= b < st.hashes.len() && uses(st.requests, b as usize) > 0).len()
            == st.capacity() - st.free.len(),
{
    let ids = st.free.map_values(|b: usize| b as int);
    let all = vstd::set_lib::set_int_range(1, st.hashes.len() as int);
    let held = Set::new(|b: int| 1 <= b < st.hashes.len() && uses(st.requests, b as usize) > 0);
    assert(ids.no_duplicates());
    ids.unique_seq_to_set();
    vstd::set_lib::lemma_int_range(1, st.hashes.len() as int);
    assert forall|x: int| ids.to_set().contains(x) implies all.contains(x) by {
        let k = choose|k: int| 0 <= k < ids.len() && ids[k] == x;
        assert(st.valid_block(st.free[k]));
    }
    assert forall|x: int| held.contains(x) <==> all.contains(x) && !ids.to_set().contains(x) by {
        if all.contains(x) {
            let b = x as usize;
            assert(st.valid_block(b));
            assert(st.free.contains(b) <==> uses(st.requests, b) == 0);
            if ids.to_set().contains(x) {
                let k = choose|k: int| 0 <= k < ids.len() && ids[k] == x;
                assert(st.free[k] == b);
                assert(st.free.contains(b));
            } else if st.free.contains(b) {
                let k = choose|k: int| 0 <= k < st.free.len() && st.free[k] == b;
                assert(ids[k] == x);
                assert(ids.contains(x));
            }
        }
    }
    assert(held =~= all.difference(ids.to_set()));
    vstd::set_lib::lemma_len_difference(all, ids.to_set());
    vstd::set_lib::lemma_set_disjoint_lens(held, ids.to_set());
    assert(held + ids.to_set() =~= all);
}

} // verus!
