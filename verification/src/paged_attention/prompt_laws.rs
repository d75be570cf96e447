//! What holds of every planned batch of prompts.

use vstd::prelude::*;

use crate::paged_attention::prompt_plan::{
    all_wf, batch_tokens, compatible, even_limit, first_left_out, fits, joins, kind_of,
    law_batch_stays_within_budget, law_first_in_turn_is_scheduled, lemma_floor, lemma_picked,
    lemma_planned_end, lemma_shared, picked, places, planned_end, prompt_quantum,
    reusable_boundary, shared, PlanConfig, PlanKind, PromptBatch, PromptChunk, PromptInfo,
};

verus! {

impl PromptBatch {
    /// The prompts of the batch stand at those places, in the order of their turn.
    pub open spec fn stands_at(self, prompts: Seq<PromptInfo>, at: Seq<int>) -> bool {
        &&& self.scheduled@.len() == at.len()
        &&& forall|i: int|
            0 <= i < at.len() ==> 0 <= #[trigger] at[i] < prompts.len() && self.scheduled@[i]
                == prompts[at[i]].id
        &&& forall|i: int, j: int| 0 <= i < j < at.len() ==> at[i] < at[j]
    }
}

proof fn lemma_shared_in_turn(cfg: PlanConfig, prompts: Seq<PromptInfo>, k: int)
    requires
        0 <= k <= prompts.len(),
    ensures
        ({
            let sel = shared(cfg, prompts, k);
            &&& forall|i: int, j: int| 0 <= i < j < sel.len() ==> sel[i] < sel[j]
            &&& forall|i: int|
                0 < i < sel.len() ==> {
                    &&& compatible(cfg, prompts[0], prompts[#[trigger] sel[i]])
                    &&& !(cfg.visible_chunks && prompts[sel[i]].media_pending)
                }
            &&& forall|p: int|
                0 <= p < k && !#[trigger] sel.contains(p) ==> {
                    ||| sel.len() >= even_limit(cfg)
                    ||| !compatible(cfg, prompts[0], prompts[p])
                    ||| cfg.visible_chunks && prompts[p].media_pending
                }
        }),
    decreases k,
{
    if k > 0 {
        lemma_shared_in_turn(cfg, prompts, k - 1);
        lemma_shared(cfg, prompts, k - 1);
        let before = shared(cfg, prompts, k - 1);
        let sel = shared(cfg, prompts, k);
        if sel.len() > before.len() {
            assert(sel == before.push(k - 1));
            assert(sel[before.len() as int] == k - 1);
            assert(sel.contains(k - 1));
            assert forall|p: int| 0 <= p < k && !#[trigger] sel.contains(p) implies {
                ||| sel.len() >= even_limit(cfg)
                ||| !compatible(cfg, prompts[0], prompts[p])
                ||| cfg.visible_chunks && prompts[p].media_pending
            } by {
                if before.contains(p) {
                    let i = choose|i: int| 0 <= i < before.len() && before[i] == p;
                    assert(sel[i] == p);
                }
            }
            assert forall|i: int| 0 < i < sel.len() implies {
                &&& compatible(cfg, prompts[0], prompts[#[trigger] sel[i]])
                &&& !(cfg.visible_chunks && prompts[sel[i]].media_pending)
            } by {
                if i < before.len() {
                    assert(before[i] == sel[i]);
                }
            }
        }
    }
}

proof fn lemma_picked_in_turn(cfg: PlanConfig, prompts: Seq<PromptInfo>, k: int)
    requires
        cfg.wf(),
        all_wf(prompts),
        0 <= k <= prompts.len(),
    ensures
        ({
            let sel = picked(cfg, prompts, k).places;
            &&& forall|i: int, j: int| 0 <= i < j < sel.len() ==> sel[i] < sel[j]
            &&& forall|i: int|
                0 < i < sel.len() ==> joins(cfg, prompts[0], prompts[#[trigger] sel[i]])
            &&& forall|p: int|
                0 <= p < k && !#[trigger] sel.contains(p) ==> picked(cfg, prompts, k).closed
                    || !joins(cfg, prompts[0], prompts[p])
        }),
    decreases k,
{
    if k > 0 {
        lemma_picked_in_turn(cfg, prompts, k - 1);
        lemma_picked(cfg, prompts, k - 1);
        let before = picked(cfg, prompts, k - 1).places;
        let sel = picked(cfg, prompts, k).places;
        if sel.len() > before.len() {
            assert(sel == before.push(k - 1));
            assert(sel[before.len() as int] == k - 1);
            assert(sel.contains(k - 1));
            assert forall|p: int| 0 <= p < k && !#[trigger] sel.contains(p) implies picked(
                cfg,
                prompts,
                k,
            ).closed || !joins(cfg, prompts[0], prompts[p]) by {
                if before.contains(p) {
                    let i = choose|i: int| 0 <= i < before.len() && before[i] == p;
                    assert(sel[i] == p);
                }
            }
            assert forall|i: int| 0 < i < sel.len() implies joins(
                cfg,
                prompts[0],
                prompts[#[trigger] sel[i]],
            ) by {
                if i < before.len() {
                    assert(before[i] == sel[i]);
                }
            }
        } else {
            assert(sel == before);
        }
    }
}

/// Where a batch of any prompts has its prompts from.
proof fn lemma_stands(cfg: PlanConfig, prompts: Seq<PromptInfo>, b: PromptBatch)
    requires
        cfg.wf(),
        all_wf(prompts),
        b.is_planned(cfg, prompts),
    ensures
        b.stands_at(prompts, places(cfg, prompts)),
{
    law_first_in_turn_is_scheduled(cfg, prompts);
    lemma_shared_in_turn(cfg, prompts, prompts.len() as int);
    lemma_picked_in_turn(cfg, prompts, prompts.len() as int);
    let at = places(cfg, prompts);
    assert forall|i: int| 0 <= i < at.len() implies 0 <= #[trigger] at[i] < prompts.len()
        && b.scheduled@[i] == prompts[at[i]].id by {
        assert(b.scheduled@[i] == prompts[at[i]].id);
    }
}

/// No prompt is cut that cannot be: where a batch carries parts, none of its prompts asks for
/// raw logits or has media that are not tokens yet, in whatever place it stands. Such a prompt
/// runs whole, and alone where prompts are cut; where they are not, no batch carries parts.
pub proof fn law_prompts_that_cannot_be_cut_run_whole(
    cfg: PlanConfig,
    prompts: Seq<PromptInfo>,
    b: PromptBatch,
) -> (at: Seq<int>)
    requires
        cfg.wf(),
        all_wf(prompts),
        b.is_planned(cfg, prompts),
    ensures
        at == places(cfg, prompts),
        b.stands_at(prompts, at),
        b.chunks is Some ==> forall|i: int|
            0 <= i < at.len() ==> !(#[trigger] prompts[at[i]]).raw_logits
                && !prompts[at[i]].media_pending,
        b.chunks is Some ==> cfg.visible_chunks,
        cfg.visible_chunks && prompts.len() > 0 && (prompts[0].raw_logits
            || prompts[0].media_pending) ==> b.scheduled@ == seq![prompts[0].id] && b.chunks is None
            && b.chunk_size is None,
        cfg.visible_chunks && prompts.len() > 0 && !prompts[0].raw_logits
            && !prompts[0].media_pending ==> b.chunks is Some && b.chunk_size is Some,
{
    let n = prompts.len() as int;
    let at = places(cfg, prompts);
    lemma_stands(cfg, prompts, b);
    law_first_in_turn_is_scheduled(cfg, prompts);
    lemma_shared_in_turn(cfg, prompts, n);
    lemma_picked_in_turn(cfg, prompts, n);
    if b.chunks is Some {
        assert forall|i: int| 0 <= i < at.len() implies !(#[trigger] prompts[at[i]]).raw_logits
            && !prompts[at[i]].media_pending by {
            if i > 0 {
                assert(at[i] > at[0]);
                if kind_of(cfg, prompts) == PlanKind::Own {
                    assert(joins(cfg, prompts[0], prompts[at[i]]));
                } else {
                    assert(compatible(cfg, prompts[0], prompts[at[i]]));
                }
            }
        }
    }
    if kind_of(cfg, prompts) == PlanKind::Alone {
        assert(b.scheduled@[0] == prompts[at[0]].id);
        assert(b.scheduled@ =~= seq![prompts[0].id]);
    }
    at
}

/// The tokens of parts.
pub open spec fn tokens_in(parts: Seq<PromptChunk>) -> int
    decreases parts.len(),
{
    if parts.len() == 0 {
        0
    } else {
        tokens_in(parts.drop_last()) + parts.last().end - parts.last().start
    }
}

proof fn lemma_tokens(
    cfg: PlanConfig,
    prompts: Seq<PromptInfo>,
    parts: Seq<PromptChunk>,
    at: Seq<int>,
)
    requires
        parts.len() == at.len(),
        forall|i: int|
            0 <= i < at.len() ==> (#[trigger] parts[i]).start
                == crate::paged_attention::prompt_plan::chunk_at(cfg, prompts, at[i]).0
                && parts[i].end == crate::paged_attention::prompt_plan::chunk_at(
                cfg,
                prompts,
                at[i],
            ).1,
    ensures
        tokens_in(parts) == batch_tokens(cfg, prompts, at),
    decreases parts.len(),
{
    if parts.len() > 0 {
        assert(parts[parts.len() - 1] == parts.last());
        assert forall|i: int| 0 <= i < at.drop_last().len() implies (#[trigger] parts.drop_last()[i]).start
            == crate::paged_attention::prompt_plan::chunk_at(cfg, prompts, at.drop_last()[i]).0
            && parts.drop_last()[i].end == crate::paged_attention::prompt_plan::chunk_at(
            cfg,
            prompts,
            at.drop_last()[i],
        ).1 by {
            assert(parts[i] == parts.drop_last()[i]);
        }
        lemma_tokens(cfg, prompts, parts.drop_last(), at.drop_last());
    }
}

/// Each part of a batch goes on where its prompt stands, is not empty while there is more to
/// compute, and ends within the prompt; together the parts stay within the budget, also where
/// those behind cached tokens are padded to the longest.
pub proof fn law_parts_advance_within_the_budget(
    cfg: PlanConfig,
    prompts: Seq<PromptInfo>,
    b: PromptBatch,
) -> (at: Seq<int>)
    requires
        cfg.wf(),
        all_wf(prompts),
        b.is_planned(cfg, prompts),
        b.chunks is Some,
        cfg.budget > 0,
    ensures
        at == places(cfg, prompts),
        b.stands_at(prompts, at),
        b.chunks->0@.len() == b.scheduled@.len(),
        forall|i: int|
            0 <= i < at.len() ==> {
                let (part, p) = (#[trigger] b.chunks->0@[i], prompts[at[i]]);
                &&& part.start == p.start
                &&& part.start <= part.end <= p.len
                &&& p.start < p.len ==> part.start < part.end
                &&& part.end - part.start <= b.chunk_size->0
            },
        tokens_in(b.chunks->0@) <= cfg.budget,
        b.scheduled@.len() > 1 && prompts[0].start > 0 && !cfg.recurrent ==> b.scheduled@.len()
            * b.chunk_size->0 <= cfg.budget,
{
    let n = prompts.len() as int;
    let at = places(cfg, prompts);
    lemma_stands(cfg, prompts, b);
    law_first_in_turn_is_scheduled(cfg, prompts);
    law_batch_stays_within_budget(cfg, prompts);
    lemma_tokens(cfg, prompts, b.chunks->0@, at);
    assert forall|i: int| 0 <= i < at.len() implies {
        let (part, p) = (#[trigger] b.chunks->0@[i], prompts[at[i]]);
        &&& part.start == p.start
        &&& part.start <= part.end <= p.len
        &&& p.start < p.len ==> part.start < part.end
        &&& part.end - part.start <= b.chunk_size->0
    } by {
        let q = crate::paged_attention::prompt_plan::batch_quantum(cfg, prompts);
        lemma_planned_end(cfg, prompts[at[i]], q);
        if kind_of(cfg, prompts) == PlanKind::Own {
            lemma_longest(cfg, prompts, n, i);
        }
    }
    if b.scheduled@.len() > 1 && prompts[0].start > 0 && !cfg.recurrent {
        if kind_of(cfg, prompts) == PlanKind::Own {
            lemma_padded(cfg, prompts, n);
        } else {
            lemma_shared(cfg, prompts, n);
            let m = at.len() as int;
            let c = cfg.budget as int;
            assert(m * (c / m) <= c && c / m > 0) by (nonlinear_arith)
                requires
                    0 < m <= c,
            ;
        }
    }
    at
}

proof fn lemma_longest(cfg: PlanConfig, prompts: Seq<PromptInfo>, k: int, i: int)
    requires
        cfg.wf(),
        all_wf(prompts),
        0 <= k <= prompts.len(),
        0 <= i < picked(cfg, prompts, k).places.len(),
    ensures
        ({
            let sel = picked(cfg, prompts, k);
            let p = prompts[sel.places[i]];
            planned_end(cfg, p, prompt_quantum(cfg)) - p.start <= sel.longest
        }),
    decreases k,
{
    if k > 0 {
        let before = picked(cfg, prompts, k - 1);
        if i < before.places.len() {
            lemma_longest(cfg, prompts, k - 1, i);
        }
    }
}

proof fn lemma_padded(cfg: PlanConfig, prompts: Seq<PromptInfo>, k: int)
    requires
        cfg.wf(),
        all_wf(prompts),
        0 <= k <= prompts.len(),
        prompts.len() > 0,
        prompts[0].start > 0,
        !cfg.recurrent,
    ensures
        ({
            let sel = picked(cfg, prompts, k);
            sel.places.len() > 1 ==> sel.places.len() * sel.longest <= cfg.budget
        }),
    decreases k,
{
    if k > 0 {
        lemma_padded(cfg, prompts, k - 1);
    }
}

/// The prompts of a batch go together: all of them have as many tokens computed, none asks for
/// raw logits beside another, they are of one length where lengths must agree, of the same
/// kinds of media where those must, and otherwise within a factor of two of the first, unless
/// they are computed without padding.
pub proof fn law_prompts_of_a_batch_go_together(
    cfg: PlanConfig,
    prompts: Seq<PromptInfo>,
    b: PromptBatch,
) -> (at: Seq<int>)
    requires
        cfg.wf(),
        all_wf(prompts),
        b.is_planned(cfg, prompts),
    ensures
        at == places(cfg, prompts),
        b.stands_at(prompts, at),
        at.len() > 0 <==> prompts.len() > 0,
        at.len() > 0 ==> at[0] == 0,
        forall|i: int|
            0 < i < at.len() ==> {
                let (first, p) = (prompts[0], #[trigger] prompts[at[i]]);
                &&& !first.raw_logits && !p.raw_logits
                &&& p.start == first.start
                &&& cfg.uniform ==> p.len == first.len
                &&& cfg.uniform || cfg.uniform_media ==> p.signature == first.signature
                &&& !cfg.uniform && !cfg.packed ==> p.len - p.start <= 2 * (first.len - first.start)
                    && first.len - first.start <= 2 * (p.len - p.start)
            },
{
    let n = prompts.len() as int;
    let at = places(cfg, prompts);
    lemma_stands(cfg, prompts, b);
    law_first_in_turn_is_scheduled(cfg, prompts);
    lemma_shared_in_turn(cfg, prompts, n);
    lemma_picked_in_turn(cfg, prompts, n);
    assert forall|i: int| 0 < i < at.len() implies compatible(
        cfg,
        prompts[0],
        #[trigger] prompts[at[i]],
    ) by {
        if kind_of(cfg, prompts) == PlanKind::Own {
            assert(joins(cfg, prompts[0], prompts[at[i]]));
        }
    }
    at
}

/// Parts that are cut on their own end their prompts all or none, and have one length unless
/// they are computed without padding; those that carry a state on are of one length unless they
/// end their prompts.
pub proof fn law_parts_on_their_own_end_together(
    cfg: PlanConfig,
    prompts: Seq<PromptInfo>,
    b: PromptBatch,
) -> (at: Seq<int>)
    requires
        cfg.wf(),
        all_wf(prompts),
        b.is_planned(cfg, prompts),
        b.chunks is Some,
        cfg.recurrent || (cfg.packed && !cfg.uniform && forall|j: int|
            0 <= j < prompts.len() ==> !(#[trigger] prompts[j]).has_features),
    ensures
        at == places(cfg, prompts),
        b.stands_at(prompts, at),
        forall|i: int|
            0 <= i < at.len() ==> {
                let (part, first) = (#[trigger] b.chunks->0@[i], b.chunks->0@[0]);
                let ends = part.end == prompts[at[i]].len;
                &&& ends == (first.end == prompts[0].len)
                &&& part.end - part.start == first.end - first.start || (cfg.packed && (
                !cfg.recurrent || ends))
            },
{
    let n = prompts.len() as int;
    let at = places(cfg, prompts);
    lemma_stands(cfg, prompts, b);
    law_first_in_turn_is_scheduled(cfg, prompts);
    lemma_picked_in_turn(cfg, prompts, n);
    assert(kind_of(cfg, prompts) == PlanKind::Own);
    assert forall|i: int| 0 <= i < at.len() implies {
        let (part, first) = (#[trigger] b.chunks->0@[i], b.chunks->0@[0]);
        let ends = part.end == prompts[at[i]].len;
        &&& ends == (first.end == prompts[0].len)
        &&& part.end - part.start == first.end - first.start || (cfg.packed && (!cfg.recurrent
            || ends))
    } by {
        assert(at[0] == 0);
        if i > 0 {
            assert(joins(cfg, prompts[0], prompts[at[i]]));
        }
    }
    at
}

/// A batch is no larger than it may be, and no smaller than it must: whoever is left out of a
/// batch with even shares finds it full, cannot go with its first prompt, or has media that are
/// not tokens yet where prompts are cut.
pub proof fn law_batch_leaves_no_room_unused(
    cfg: PlanConfig,
    prompts: Seq<PromptInfo>,
    b: PromptBatch,
) -> (at: Seq<int>)
    requires
        cfg.wf(),
        all_wf(prompts),
        b.is_planned(cfg, prompts),
    ensures
        at == places(cfg, prompts),
        b.stands_at(prompts, at),
        b.scheduled@.len() <= 1 || b.scheduled@.len() <= cfg.max_num_seqs,
        b.scheduled@.len() <= 1 || cfg.recurrent || cfg.packed || b.scheduled@.len() <= cfg.budget,
        !cfg.recurrent && !cfg.packed ==> forall|p: int|
            0 <= p < prompts.len() && !#[trigger] at.contains(p) ==> {
                let (first, other) = (prompts[0], prompts[p]);
                ||| b.scheduled@.len() >= cfg.max_num_seqs || b.scheduled@.len() >= cfg.budget
                ||| first.raw_logits || other.raw_logits
                ||| cfg.visible_chunks && (first.media_pending || other.media_pending)
                ||| first.start != other.start
                ||| (cfg.uniform || cfg.uniform_media) && first.signature != other.signature
                ||| cfg.uniform && first.len != other.len
                ||| !cfg.uniform && (first.len - first.start > 2 * (other.len - other.start)
                    || other.len - other.start > 2 * (first.len - first.start))
            },
{
    let n = prompts.len() as int;
    let at = places(cfg, prompts);
    lemma_stands(cfg, prompts, b);
    lemma_shared(cfg, prompts, n);
    lemma_shared_in_turn(cfg, prompts, n);
    lemma_picked_count(cfg, prompts, n);
    at
}

proof fn lemma_picked_count(cfg: PlanConfig, prompts: Seq<PromptInfo>, k: int)
    requires
        0 <= k <= prompts.len(),
    ensures
        picked(cfg, prompts, k).places.len() <= 1 || picked(cfg, prompts, k).places.len()
            <= cfg.max_num_seqs,
    decreases k,
{
    if k > 0 {
        lemma_picked_count(cfg, prompts, k - 1);
    }
}

proof fn lemma_closed(cfg: PlanConfig, prompts: Seq<PromptInfo>, k: int) -> (q: int)
    requires
        cfg.wf(),
        all_wf(prompts),
        0 <= k <= prompts.len(),
        picked(cfg, prompts, k).closed,
    ensures
        0 <= q < k,
        !picked(cfg, prompts, k).places.contains(q),
        joins(cfg, prompts[0], prompts[q]),
        ({
            let sel = picked(cfg, prompts, k);
            let p = prompts[q];
            let size = planned_end(cfg, p, prompt_quantum(cfg)) - p.start;
            sel.places.len() >= cfg.max_num_seqs || !fits(cfg, sel, p.start as int, size)
        }),
    decreases k,
{
    let before = picked(cfg, prompts, k - 1);
    if before.closed {
        lemma_closed(cfg, prompts, k - 1)
    } else {
        lemma_picked(cfg, prompts, k - 1);
        k - 1
    }
}

/// Where prompts are cut on their own, whoever could join and is left out finds the batch full,
/// or a part that could join and is left out no longer fits the budget.
pub proof fn law_own_parts_leave_no_room_unused(
    cfg: PlanConfig,
    prompts: Seq<PromptInfo>,
    b: PromptBatch,
    p: int,
) -> (r: (Seq<int>, int))
    requires
        cfg.wf(),
        all_wf(prompts),
        b.is_planned(cfg, prompts),
        b.chunks is Some,
        cfg.recurrent || (cfg.packed && !cfg.uniform && forall|j: int|
            0 <= j < prompts.len() ==> !(#[trigger] prompts[j]).has_features),
        0 <= p < prompts.len(),
        !places(cfg, prompts).contains(p),
        joins(cfg, prompts[0], prompts[p]),
    ensures
        b.stands_at(prompts, r.0),
        0 <= r.1 < prompts.len(),
        !r.0.contains(r.1),
        b.scheduled@.len() >= cfg.max_num_seqs || {
            let other = prompts[r.1];
            let size = planned_end(cfg, other, prompt_quantum(cfg)) - other.start;
            let longest = if size > b.chunk_size->0 {
                size
            } else {
                b.chunk_size->0 as int
            };
            if other.start > 0 && !cfg.recurrent {
                (b.scheduled@.len() + 1) * longest > cfg.budget
            } else {
                tokens_in(b.chunks->0@) + size > cfg.budget
            }
        },
{
    let n = prompts.len() as int;
    let at = places(cfg, prompts);
    assert(kind_of(cfg, prompts) == PlanKind::Own);
    lemma_stands(cfg, prompts, b);
    lemma_picked_in_turn(cfg, prompts, n);
    lemma_tokens(cfg, prompts, b.chunks->0@, at);
    crate::paged_attention::prompt_plan::lemma_picked_tokens(cfg, prompts, n);
    let q = lemma_closed(cfg, prompts, n);
    (at, q)
}

/// The tokens that prompts have left.
pub open spec fn tokens_left(prompts: Seq<PromptInfo>) -> int
    decreases prompts.len(),
{
    if prompts.len() == 0 {
        0
    } else {
        tokens_left(prompts.drop_last()) + prompts.last().len - prompts.last().start
    }
}

proof fn lemma_left(prompts: Seq<PromptInfo>, i: int)
    requires
        all_wf(prompts),
        0 <= i < prompts.len(),
    ensures
        0 <= prompts[i].len - prompts[i].start <= tokens_left(prompts),
        0 <= tokens_left(prompts.drop_last()),
    decreases prompts.len(),
{
    let before = prompts.drop_last();
    assert(prompts[prompts.len() - 1].wf());
    assert(prompts[i].wf());
    assert(forall|j: int| 0 <= j < before.len() ==> before[j] == prompts[j]);
    if before.len() > 0 {
        assert(all_wf(before));
        if i < before.len() {
            lemma_left(before, i);
        } else {
            lemma_left(before, 0);
            assert(before.drop_last().len() + 1 == before.len());
            assert(before[before.len() - 1].wf());
        }
    }
}

/// Prompts that fit into one batch all run, and whole: text prompts that nothing is computed of
/// yet, computed without padding, as many as there may be, with no more tokens than the budget.
pub proof fn law_prompts_that_fit_all_run(
    cfg: PlanConfig,
    prompts: Seq<PromptInfo>,
    b: PromptBatch,
)
    requires
        cfg.wf(),
        all_wf(prompts),
        b.is_planned(cfg, prompts),
        cfg.visible_chunks && cfg.packed && !cfg.uniform,
        !cfg.recurrent && !cfg.mixed && !cfg.aligned,
        0 < prompts.len() <= cfg.max_num_seqs,
        forall|i: int|
            0 <= i < prompts.len() ==> {
                let p = #[trigger] prompts[i];
                &&& p.start == 0
                &&& !p.raw_logits && !p.media_pending && !p.has_features
                &&& p.signature == 0
            },
        0 < tokens_left(prompts) <= cfg.budget,
    ensures
        b.scheduled@.len() == prompts.len(),
        b.next is None,
        b.chunks is Some,
        forall|i: int|
            0 <= i < prompts.len() ==> b.scheduled@[i] == prompts[i].id && (
            #[trigger] b.chunks->0@[i]).start == 0 && b.chunks->0@[i].end == prompts[i].len,
{
    let n = prompts.len() as int;
    assert(prompts[0].start == 0);
    assert(kind_of(cfg, prompts) == PlanKind::Own);
    lemma_all_picked(cfg, prompts, n);
    let at = places(cfg, prompts);
    assert forall|i: int| 0 <= i < n implies b.scheduled@[i] == prompts[i].id && (
    #[trigger] b.chunks->0@[i]).start == 0 && b.chunks->0@[i].end == prompts[i].len by {
        lemma_left(prompts, i);
        assert(at[i] == i);
        assert(b.scheduled@[i] == prompts[at[i]].id);
    }
    assert forall|i: int| 0 <= i < n implies at.contains(i) by {
        assert(at[i] == i);
    }
    lemma_left_out(at, n, 0);
}

proof fn lemma_all_picked(cfg: PlanConfig, prompts: Seq<PromptInfo>, k: int)
    requires
        cfg.wf(),
        all_wf(prompts),
        cfg.visible_chunks && cfg.packed && !cfg.uniform,
        !cfg.recurrent && !cfg.mixed && !cfg.aligned,
        0 <= k <= prompts.len() <= cfg.max_num_seqs,
        forall|i: int|
            0 <= i < prompts.len() ==> {
                let p = #[trigger] prompts[i];
                &&& p.start == 0
                &&& !p.raw_logits && !p.media_pending && !p.has_features
                &&& p.signature == 0
            },
        0 < tokens_left(prompts) <= cfg.budget,
    ensures
        ({
            let sel = picked(cfg, prompts, k);
            &&& sel.places.len() == k
            &&& forall|i: int| 0 <= i < k ==> #[trigger] sel.places[i] == i
            &&& sel.total == tokens_left(prompts.take(k))
            &&& !sel.closed
        }),
    decreases k,
{
    if k > 0 {
        lemma_all_picked(cfg, prompts, k - 1);
        lemma_left(prompts, k - 1);
        lemma_left(prompts, 0);
        assert(prompts.take(k).drop_last() =~= prompts.take(k - 1));
        lemma_left_grows(prompts, k);
        assert(prompts[0].wf() && prompts[k - 1].wf());
    }
}

proof fn lemma_left_grows(prompts: Seq<PromptInfo>, k: int)
    requires
        all_wf(prompts),
        0 <= k <= prompts.len(),
    ensures
        tokens_left(prompts.take(k)) <= tokens_left(prompts),
    decreases prompts.len(),
{
    if k == prompts.len() {
        assert(prompts.take(k) =~= prompts);
    } else {
        let before = prompts.drop_last();
        assert(forall|j: int| 0 <= j < before.len() ==> before[j] == prompts[j]);
        assert(prompts[prompts.len() - 1].wf());
        assert(before.take(k) =~= prompts.take(k));
        lemma_left_grows(before, k);
    }
}

proof fn lemma_left_out(chosen: Seq<int>, n: int, from: int)
    requires
        0 <= from,
    ensures
        match first_left_out(chosen, n, from) {
            Some(i) => from <= i < n && !chosen.contains(i) && forall|j: int|
                from <= j < i ==> #[trigger] chosen.contains(j),
            None => forall|j: int| from <= j < n ==> #[trigger] chosen.contains(j),
        },
    decreases n - from,
{
    if from < n && chosen.contains(from) {
        lemma_left_out(chosen, n, from + 1);
    }
}

/// The next turn is that of the first prompt that a batch leaves out, so that nobody is passed
/// over; where all are in the batch it is nobody's.
pub proof fn law_next_turn_is_that_of_the_first_left_out(
    cfg: PlanConfig,
    prompts: Seq<PromptInfo>,
    b: PromptBatch,
) -> (at: Seq<int>)
    requires
        cfg.wf(),
        all_wf(prompts),
        b.is_planned(cfg, prompts),
    ensures
        at == places(cfg, prompts),
        b.stands_at(prompts, at),
        b.next is None <==> at.len() == prompts.len(),
        b.next matches Some(id) ==> exists|j: int|
            #![trigger prompts[j]]
            {
                &&& 0 <= j < prompts.len()
                &&& prompts[j].id == id
                &&& !at.contains(j)
                &&& forall|i: int| 0 <= i < j ==> #[trigger] at.contains(i)
            },
{
    let n = prompts.len() as int;
    let at = places(cfg, prompts);
    lemma_stands(cfg, prompts, b);
    lemma_left_out(at, n, 0);
    if let Some(j) = first_left_out(at, n, 0) {
        assert(prompts[j].id == b.next->0);
        if at.len() == n {
            lemma_all_places(at, n);
            assert(at[j] == j);
        }
    } else {
        lemma_covered(at, n);
    }
    at
}

/// An increasing list of as many places as there are holds each.
proof fn lemma_all_places(at: Seq<int>, n: int)
    requires
        at.len() == n,
        forall|i: int| 0 <= i < n ==> 0 <= #[trigger] at[i] < n,
        forall|i: int, j: int| 0 <= i < j < n ==> at[i] < at[j],
    ensures
        forall|i: int| 0 <= i < n ==> #[trigger] at[i] == i,
{
    assert forall|i: int| 0 <= i < n implies #[trigger] at[i] == i by {
        lemma_at_least(at, i);
        lemma_at_most(at, n, i);
    }
}

proof fn lemma_at_least(at: Seq<int>, i: int)
    requires
        0 <= i < at.len(),
        at[0] >= 0,
        forall|i: int, j: int| 0 <= i < j < at.len() ==> at[i] < at[j],
    ensures
        at[i] >= i,
    decreases i,
{
    if i > 0 {
        lemma_at_least(at, i - 1);
        assert(at[i - 1] < at[i]);
    }
}

proof fn lemma_at_most(at: Seq<int>, n: int, i: int)
    requires
        0 <= i < at.len(),
        at[at.len() - 1] < n,
        forall|i: int, j: int| 0 <= i < j < at.len() ==> at[i] < at[j],
    ensures
        at[i] < n - (at.len() - 1 - i),
    decreases at.len() - i,
{
    if i < at.len() - 1 {
        lemma_at_most(at, n, i + 1);
        assert(at[i] < at[i + 1]);
    }
}

/// An increasing list within bounds that holds every place has as many entries as there are.
proof fn lemma_covered(at: Seq<int>, n: int)
    requires
        0 <= n,
        forall|i: int| 0 <= i < at.len() ==> 0 <= #[trigger] at[i] < n,
        forall|i: int, j: int| 0 <= i < j < at.len() ==> at[i] < at[j],
        forall|j: int| 0 <= j < n ==> #[trigger] at.contains(j),
    ensures
        at.len() == n,
{
    if at.len() > 0 {
        lemma_at_most(at, n, 0);
        assert(at[0] >= 0);
    }
    if at.len() < n {
        let last = n - 1;
        assert(at.contains(last));
        lemma_each_in_its_place(at, n, last);
    }
}

proof fn lemma_each_in_its_place(at: Seq<int>, n: int, j: int)
    requires
        0 <= j < n,
        forall|i: int| 0 <= i < at.len() ==> 0 <= #[trigger] at[i] < n,
        forall|i: int, j: int| 0 <= i < j < at.len() ==> at[i] < at[j],
        forall|j: int| 0 <= j < n ==> #[trigger] at.contains(j),
    ensures
        j < at.len() && at[j] == j,
    decreases j,
{
    assert(at.contains(j));
    let i = choose|i: int| 0 <= i < at.len() && at[i] == j;
    lemma_at_least(at, i);
    if i < j {
        lemma_each_in_its_place(at, n, j - 1);
        assert(at[j - 1] == j - 1);
        if i < j - 1 {
            assert(at[i] < at[j - 1]);
        }
    }
}

/// The most tokens of one prompt in a batch: an even share of the budget, or, where prompts are
/// cut on their own, the budget or the quantum.
pub open spec fn part_limit(cfg: PlanConfig, b: PromptBatch, own: bool) -> int {
    let whole = if (cfg.recurrent || cfg.mixed) && cfg.quantum < cfg.budget {
        cfg.quantum as int
    } else {
        cfg.budget as int
    };
    let limit = if own {
        whole
    } else {
        cfg.budget as int / b.scheduled@.len() as int
    };
    if limit > 0 {
        limit
    } else {
        1
    }
}

/// A part is as long as it can be: up to the end of its prompt or to the share of the budget
/// that it has. Where parts are aligned it ends at a block boundary, unless it ends its prompt
/// or no boundary lies in it, and gives up less than a block for that; and it does not run over
/// the last boundary that a later prompt can be resumed from.
pub proof fn law_parts_are_as_long_as_they_can_be(
    cfg: PlanConfig,
    prompts: Seq<PromptInfo>,
    b: PromptBatch,
    own: bool,
) -> (at: Seq<int>)
    requires
        cfg.wf(),
        all_wf(prompts),
        b.is_planned(cfg, prompts),
        b.chunks is Some,
        own == (cfg.recurrent || (cfg.packed && !cfg.uniform && forall|j: int|
            0 <= j < prompts.len() ==> !(#[trigger] prompts[j]).has_features)),
    ensures
        at == places(cfg, prompts),
        b.stands_at(prompts, at),
        forall|i: int|
            0 <= i < at.len() ==> {
                let (part, p) = (#[trigger] b.chunks->0@[i], prompts[at[i]]);
                let limit = part_limit(cfg, b, own);
                let size = cfg.block_size as int;
                &&& part.end <= p.len && part.end - p.start <= limit
                &&& !cfg.aligned ==> part.end == p.len || part.end - p.start == limit
                &&& cfg.aligned ==> part.end == p.len || part.end as int % size == 0 || forall|m: int|
                    p.start < m <= part.end ==> #[trigger] (m % size) != 0
                &&& cfg.aligned && !cfg.prefix_caching ==> part.end == p.len || part.end + size
                    > p.start + limit || part.end + size > p.len
                &&& cfg.aligned && cfg.prefix_caching ==> forall|m: int|
                    p.start < m && #[trigger] (m % size) == 0 && m + p.replay < p.len && m + size
                        + p.replay >= p.len ==> part.end <= m
            },
{
    let n = prompts.len() as int;
    let at = places(cfg, prompts);
    lemma_stands(cfg, prompts, b);
    law_first_in_turn_is_scheduled(cfg, prompts);
    assert(own == (kind_of(cfg, prompts) == PlanKind::Own));
    let limit = part_limit(cfg, b, own);
    assert(limit == crate::paged_attention::prompt_plan::batch_quantum(cfg, prompts));
    assert forall|i: int| 0 <= i < at.len() implies {
        let (part, p) = (#[trigger] b.chunks->0@[i], prompts[at[i]]);
        let size = cfg.block_size as int;
        &&& part.end <= p.len && part.end - p.start <= limit
        &&& !cfg.aligned ==> part.end == p.len || part.end - p.start == limit
        &&& cfg.aligned ==> part.end == p.len || part.end as int % size == 0 || forall|m: int|
            p.start < m <= part.end ==> #[trigger] (m % size) != 0
        &&& cfg.aligned && !cfg.prefix_caching ==> part.end == p.len || part.end + size > p.start
            + limit || part.end + size > p.len
        &&& cfg.aligned && cfg.prefix_caching ==> forall|m: int|
            p.start < m && #[trigger] (m % size) == 0 && m + p.replay < p.len && m + size
                + p.replay >= p.len ==> part.end <= m
    } by {
        lemma_aligned_end(cfg, prompts[at[i]], limit);
    }
    at
}

proof fn lemma_aligned_end(cfg: PlanConfig, p: PromptInfo, limit: int)
    requires
        cfg.wf(),
        p.wf(),
        limit > 0,
    ensures
        ({
            let end = planned_end(cfg, p, limit);
            let size = cfg.block_size as int;
            &&& p.start <= end <= p.len && end - p.start <= limit
            &&& !cfg.aligned ==> end == p.len || end - p.start == limit
            &&& cfg.aligned ==> end == p.len || end % size == 0 || forall|m: int|
                p.start < m <= end ==> #[trigger] (m % size) != 0
            &&& cfg.aligned && !cfg.prefix_caching ==> end == p.len || end + size > p.start + limit
                || end + size > p.len
            &&& cfg.aligned && cfg.prefix_caching ==> forall|m: int|
                p.start < m && #[trigger] (m % size) == 0 && m + p.replay < p.len && m + size
                    + p.replay >= p.len ==> end <= m
        }),
{
    lemma_planned_end(cfg, p, limit);
    let end = planned_end(cfg, p, limit);
    let size = cfg.block_size as int;
    if cfg.aligned {
        let reach = if p.start + limit < p.len {
            p.start + limit
        } else {
            p.len as int
        };
        let boundary = reusable_boundary(cfg, p);
        if p.len > p.replay {
            lemma_floor(p.len - p.replay - 1, size);
        }
        let stop = if cfg.prefix_caching && p.start < boundary && boundary < reach {
            boundary
        } else {
            reach
        };
        lemma_floor(stop, size);
        let lower = stop / size * size;
        assert(stop < lower + size) by (nonlinear_arith)
            requires
                lower == stop / size * size,
                size > 0,
                stop >= 0,
        ;
        assert forall|m: int| p.start < m <= end && end == stop && lower <= p.start implies
            #[trigger] (m % size) != 0 by {
            if m % size == 0 {
                lemma_no_boundary_between(lower, m, size);
            }
        }
        assert forall|m: int|
            p.start < m && #[trigger] (m % size) == 0 && m + p.replay < p.len && m + size
                + p.replay >= p.len && cfg.prefix_caching implies end <= m by {
            let last = p.len - p.replay - 1;
            assert(boundary == m) by {
                assert(last < boundary + size) by (nonlinear_arith)
                    requires
                        boundary == last / size * size,
                        size > 0,
                        last >= 0,
                ;
                if m < boundary {
                    lemma_no_boundary_between(m, boundary, size);
                } else if boundary < m {
                    lemma_no_boundary_between(boundary, m, size);
                }
            }
        }
    }
}

/// Two boundaries are a block apart.
proof fn lemma_no_boundary_between(a: int, m: int, size: int)
    requires
        size > 0,
        a % size == 0,
        m % size == 0,
        a < m,
    ensures
        m >= a + size,
{
    assert(m >= a + size) by (nonlinear_arith)
        requires
            size > 0,
            a % size == 0,
            m % size == 0,
            a < m,
    ;
}

} // verus!
