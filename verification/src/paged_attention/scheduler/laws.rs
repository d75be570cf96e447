//! What holds of every turn.

use vstd::prelude::*;

use crate::paged_attention::kv_cache_manager::KvState;
use crate::paged_attention::prompt_plan::PromptBatch;
use crate::paged_attention::scheduler::admission::{
    gives_back, ignored, started, Intake, PagedPrefixCacheValidator, RejectedSequence, Reply,
    StatelessModel,
};
use crate::paged_attention::scheduler::hashes::{
    all_set_back, hashed_for, kept, set_back, CacheState,
};
use crate::paged_attention::scheduler::steps::{
    granted, seat, victim, PagedAttentionSchedulerOutput,
};
use crate::paged_attention::scheduler::turns::has_completion;
use crate::paged_attention::scheduler::PagedAttentionScheduler;
use crate::paged_attention::sequence::Sequence;

verus! {

/// How often a sequence with an id is in a list.
pub open spec fn occurrences(sequences: Seq<Sequence>, id: usize) -> nat
    decreases sequences.len(),
{
    if sequences.len() == 0 {
        0
    } else {
        occurrences(sequences.drop_last(), id) + (if sequences.last().id == id {
            1nat
        } else {
            0nat
        })
    }
}

/// The sequences that were refused.
pub open spec fn refused_ones(rejected: Seq<RejectedSequence>) -> Seq<Sequence> {
    Seq::new(rejected.len(), |i: int| rejected[i].sequence)
}

/// How often a sequence with an id is anywhere.
pub open spec fn anywhere(w: Intake, id: usize) -> nat {
    occurrences(w.running, id) + occurrences(w.waiting, id) + occurrences(
        refused_ones(w.rejected),
        id,
    )
}

proof fn lemma_joined(a: Seq<Sequence>, b: Seq<Sequence>, id: usize)
    ensures
        occurrences(a + b, id) == occurrences(a, id) + occurrences(b, id),
    decreases b.len(),
{
    if b.len() == 0 {
        assert(a + b =~= a);
    } else {
        assert((a + b).drop_last() =~= a + b.drop_last());
        assert((a + b).last() == b.last());
        lemma_joined(a, b.drop_last(), id);
    }
}

proof fn lemma_one(s: Sequence, id: usize)
    ensures
        occurrences(seq![s], id) == (if s.id == id {
            1nat
        } else {
            0nat
        }),
{
    assert(seq![s].drop_last() =~= Seq::<Sequence>::empty());
    assert(occurrences(seq![s].drop_last(), id) == 0);
    assert(seq![s].last() == s);
}

proof fn lemma_pushed(a: Seq<Sequence>, s: Sequence, id: usize)
    ensures
        occurrences(a.push(s), id) == occurrences(a, id) + (if s.id == id {
            1nat
        } else {
            0nat
        }),
{
    assert(a.push(s).drop_last() =~= a);
}

proof fn lemma_in_front(s: Sequence, a: Seq<Sequence>, id: usize)
    ensures
        occurrences(seq![s] + a, id) == occurrences(a, id) + (if s.id == id {
            1nat
        } else {
            0nat
        }),
{
    lemma_joined(seq![s], a, id);
    lemma_one(s, id);
}

proof fn lemma_removed(a: Seq<Sequence>, i: int, id: usize)
    requires
        0 <= i < a.len(),
    ensures
        occurrences(a, id) == occurrences(a.remove(i), id) + (if a[i].id == id {
            1nat
        } else {
            0nat
        }),
{
    let head = a.take(i);
    let tail = a.skip(i + 1);
    assert(a =~= head + (seq![a[i]] + tail));
    assert(a.remove(i) =~= head + tail);
    lemma_joined(head, seq![a[i]] + tail, id);
    lemma_in_front(a[i], tail, id);
    lemma_joined(head, tail, id);
}

proof fn lemma_same_ids(a: Seq<Sequence>, b: Seq<Sequence>, id: usize)
    requires
        a.len() == b.len(),
        forall|i: int| 0 <= i < a.len() ==> (#[trigger] a[i]).id == b[i].id,
    ensures
        occurrences(a, id) == occurrences(b, id),
    decreases a.len(),
{
    if a.len() > 0 {
        let c = a.drop_last();
        let d = b.drop_last();
        assert forall|i: int| 0 <= i < c.len() implies (#[trigger] c[i]).id == d[i].id by {
            assert(c[i] == a[i]);
        }
        lemma_same_ids(c, d, id);
        assert(a[a.len() - 1].id == b[b.len() - 1].id);
    }
}

proof fn lemma_parted(a: Seq<Sequence>, keep: spec_fn(Sequence) -> bool, id: usize)
    ensures
        occurrences(a, id) == occurrences(kept(a, keep), id) + occurrences(
            kept(a, |s: Sequence| !keep(s)),
            id,
        ),
    decreases a.len(),
{
    if a.len() > 0 {
        let other = |s: Sequence| !keep(s);
        lemma_parted(a.drop_last(), keep, id);
        lemma_pushed(kept(a.drop_last(), keep), a.last(), id);
        lemma_pushed(kept(a.drop_last(), other), a.last(), id);
    }
}

proof fn lemma_refused(s: PagedAttentionScheduler, w: Intake, seq: Sequence, id: usize)
    ensures
        forall|reason| #[trigger]
            anywhere(s.refused(w, seq, reason), id) == anywhere(w, id) + (if seq.id == id {
                1nat
            } else {
                0nat
            }),
{
    assert forall|reason| #[trigger]
        anywhere(s.refused(w, seq, reason), id) == anywhere(w, id) + (if seq.id == id {
            1nat
        } else {
            0nat
        }) by {
        let after = s.refused(w, seq, reason);
        assert(refused_ones(after.rejected) =~= refused_ones(w.rejected).push(ignored(seq)));
        lemma_pushed(refused_ones(w.rejected), ignored(seq), id);
    }
}

proof fn lemma_place_given_up(s: PagedAttentionScheduler, w: Intake, i: int, id: usize)
    requires
        0 <= i < w.running.len(),
    ensures
        anywhere(s.place_given_up(w, i), id) == anywhere(w, id),
{
    lemma_removed(w.running, i, id);
    lemma_in_front(set_back(w.running[i]), w.waiting, id);
}

proof fn lemma_squeezed(
    s: PagedAttentionScheduler,
    w: Intake,
    seq: Sequence,
    limit: usize,
    id: usize,
)
    ensures
        anywhere(s.squeezed(w, seq, limit), id) == anywhere(w, id),
    decreases w.running.len(),
{
    if !s.prompt_fits(w, seq, limit) && w.running.len() > 0 {
        let i = w.running.len() - 1;
        assert(w.running.remove(i) =~= w.running.drop_last());
        lemma_place_given_up(s, w, i, id);
        lemma_squeezed(s, s.last_given_up(w), seq, limit, id);
    }
}

proof fn lemma_pressed(
    s: PagedAttentionScheduler,
    w: Intake,
    seq: Sequence,
    limit: usize,
    id: usize,
)
    ensures
        anywhere(s.pressed(w, seq, limit), id) == anywhere(w, id),
{
    let count = s.waits_now(w.cache, seq.id);
    let counted = Intake {
        cache: CacheState { waits: w.cache.waits.insert(seq.id, count), ..w.cache },
        stopped: true,
        ..w
    };
    lemma_squeezed(s, counted, seq, limit, id);
}

/// An attempt to admit a prompt loses no sequence and doubles none, whatever the model
/// answers.
pub proof fn law_attempt_keeps_sequences(
    s: PagedAttentionScheduler,
    w: Intake,
    reply: Reply,
    id: usize,
)
    requires
        w.waiting.len() > 0,
    ensures
        anywhere(s.attempted(w, reply), id) == anywhere(w, id),
{
    let seq = w.waiting[0];
    let rest = Intake { waiting: w.waiting.skip(1), ..w };
    let one: nat = if seq.id == id {
        1
    } else {
        0
    };
    assert(w.waiting =~= seq![seq] + rest.waiting);
    lemma_in_front(seq, rest.waiting, id);
    assert(anywhere(w, id) == anywhere(rest, id) + one);
    lemma_refused(s, rest, seq, id);
    let known = Intake { cache: hashed_for(rest.cache, seq, s.block_size as int), ..rest };
    lemma_refused(s, known, seq, id);
    if let Ok(limit) = reply.validated {
        lemma_pressed(s, known, seq, limit, id);
        let ready = if s.prompt_fits(known, seq, limit) {
            known
        } else {
            s.pressed(known, seq, limit)
        };
        assert(anywhere(ready, id) == anywhere(rest, id));
        lemma_in_front(seq, ready.waiting, id);
        let held = s.supplied(ready, seq, limit);
        lemma_refused(s, held, seq, id);
        let tokens = (s.prefix_of(ready.cache, seq, limit).len() * ready.cache.kv.block_size)
            as usize;
        lemma_pushed(held.running, started(seq, tokens), id);
    }
}

/// A prompt that an attempt refuses was the first that waited, and the model got its slot
/// back.
pub proof fn law_refused_prompts_give_back_their_slots<V: PagedPrefixCacheValidator>(
    s: PagedAttentionScheduler,
    w: Intake,
    reply: Reply,
)
    requires
        w.waiting.len() > 0,
        s.answers::<V>(w, reply),
    ensures
        ({
            let seq = w.waiting[0];
            let rejected = s.attempted(w, reply).rejected;
            ||| rejected == w.rejected
            ||| {
                &&& gives_back::<V>(seq)
                &&& rejected.len() == w.rejected.len() + 1
                &&& rejected.drop_last() == w.rejected
                &&& rejected.last().sequence == ignored(seq)
            }
        }),
{
    let seq = w.waiting[0];
    let rest = Intake { waiting: w.waiting.skip(1), ..w };
    let known = Intake { cache: hashed_for(rest.cache, seq, s.block_size as int), ..rest };
    if let Ok(limit) = reply.validated {
        let count = s.waits_now(known.cache, seq.id);
        let counted = Intake {
            cache: CacheState { waits: known.cache.waits.insert(seq.id, count), ..known.cache },
            stopped: true,
            ..known
        };
        lemma_squeezed_refuses_none(s, counted, seq, limit);
        assert(s.readied(known, seq, limit).rejected == w.rejected);
    }
    let rejected = s.attempted(w, reply).rejected;
    if rejected.len() > 0 {
        let one = rejected.last();
        assert(w.rejected.push(one).drop_last() =~= w.rejected);
    }
}

proof fn lemma_squeezed_refuses_none(
    s: PagedAttentionScheduler,
    w: Intake,
    seq: Sequence,
    limit: usize,
)
    ensures
        s.squeezed(w, seq, limit).rejected == w.rejected,
    decreases w.running.len(),
{
    if !s.prompt_fits(w, seq, limit) && w.running.len() > 0 {
        lemma_squeezed_refuses_none(s, s.last_given_up(w), seq, limit);
    }
}

proof fn lemma_attempts<V: PagedPrefixCacheValidator>(
    s: PagedAttentionScheduler,
    w: Intake,
    replies: Seq<Reply>,
    id: usize,
)
    requires
        s.runs::<V>(w, replies),
    ensures
        anywhere(s.after_attempts(w, replies), id) == anywhere(w, id),
    decreases replies.len(),
{
    if replies.len() > 0 {
        lemma_attempts::<V>(s, w, replies.drop_last(), id);
        law_attempt_keeps_sequences(
            s,
            s.after_attempts(w, replies.drop_last()),
            replies.last(),
            id,
        );
    }
}

proof fn lemma_seated(sequences: Seq<Sequence>, id: usize, from: int)
    requires
        0 <= from,
    ensures
        match seat(sequences, id, from) {
            Some(i) => from <= i < sequences.len() && sequences[i].id == id,
            None => forall|i: int|
                from <= i < sequences.len() ==> (#[trigger] sequences[i]).id != id,
        },
    decreases sequences.len() - from,
{
    if from < sequences.len() && sequences[from].id != id {
        lemma_seated(sequences, id, from + 1);
    }
}

proof fn lemma_victim(sequences: Seq<Sequence>, id: usize, served: Seq<usize>, n: int)
    requires
        0 <= n <= sequences.len(),
    ensures
        match victim(sequences, id, served, n) {
            Some(j) => 0 <= j < n && sequences[j].id != id && !served.contains(sequences[j].id),
            None => true,
        },
    decreases n,
{
    if n > 0 && !(sequences[n - 1].id != id && !served.contains(sequences[n - 1].id)) {
        lemma_victim(sequences, id, served, n - 1);
    }
}

/// Whether a sequence with an id is in a list.
pub open spec fn present(sequences: Seq<Sequence>, id: usize) -> bool {
    seat(sequences, id, 0) is Some
}

proof fn lemma_still_present(sequences: Seq<Sequence>, i: int, id: usize)
    requires
        0 <= i < sequences.len(),
        sequences[i].id != id,
        present(sequences, id),
    ensures
        present(sequences.remove(i), id),
{
    lemma_seated(sequences, id, 0);
    let k = seat(sequences, id, 0)->0;
    let rest = sequences.remove(i);
    lemma_seated(rest, id, 0);
    if k < i {
        assert(rest[k].id == id);
    } else {
        assert(rest[k - 1].id == id);
    }
}

proof fn lemma_row_served(
    s: PagedAttentionScheduler,
    w: Intake,
    id: usize,
    served: Seq<usize>,
    other: usize,
)
    ensures
        anywhere(s.row_served(w, id, served).0, other) == anywhere(w, other),
        served.contains(other) && other != id && present(w.running, other) ==> present(
            s.row_served(w, id, served).0.running,
            other,
        ),
        s.row_served(w, id, served).1 ==> present(s.row_served(w, id, served).0.running, id),
        s.row_served(w, id, served).0.rejected == w.rejected,
    decreases w.running.len(),
{
    reveal(PagedAttentionScheduler::row_served);
    lemma_seated(w.running, id, 0);
    lemma_victim(w.running, id, served, w.running.len() as int);
    if let Some(i) = seat(w.running, id, 0) {
        lemma_place_given_up(s, w, i, other);
        if present(w.running, other) && w.running[i].id != other {
            lemma_still_present(w.running, i, other);
        }
        if let Some(j) = victim(w.running, id, served, w.running.len() as int) {
            lemma_place_given_up(s, w, j, other);
            if present(w.running, other) && w.running[j].id != other {
                lemma_still_present(w.running, j, other);
            }
            lemma_row_served(s, s.place_given_up(w, j), id, served, other);
        }
    }
}

proof fn lemma_rows_served(
    s: PagedAttentionScheduler,
    w: Intake,
    ids: Seq<usize>,
    k: int,
    other: usize,
)
    requires
        0 <= k <= ids.len(),
    ensures
        anywhere(s.rows_served(w, ids, k).0, other) == anywhere(w, other),
        s.rows_served(w, ids, k).1.contains(other) ==> present(
            s.rows_served(w, ids, k).0.running,
            other,
        ),
        s.rows_served(w, ids, k).0.rejected == w.rejected,
    decreases k,
{
    if k > 0 {
        lemma_rows_served(s, w, ids, k - 1, other);
        let (before, served) = s.rows_served(w, ids, k - 1);
        lemma_row_served(s, before, ids[k - 1], served, other);
        let after = s.rows_served(w, ids, k).1;
        if after.contains(other) && !served.contains(other) {
            let m = choose|m: int| 0 <= m < after.len() && after[m] == other;
            assert(m == served.len());
        }
    }
}

/// A turn loses no sequence and doubles none: each runs, waits or was refused, as often
/// as it ran or waited before.
pub proof fn law_turn_keeps_sequences<V: PagedPrefixCacheValidator>(
    before: PagedAttentionScheduler,
    after: PagedAttentionScheduler,
    hits: usize,
    hits_after: usize,
    out: PagedAttentionSchedulerOutput,
    id: usize,
)
    requires
        before.schedules::<V>(&after, hits, hits_after, out),
    ensures
        occurrences(before.running@, id) + occurrences(before.waiting@, id) == occurrences(
            after.running@,
            id,
        ) + occurrences(after.waiting@, id) + occurrences(refused_ones(out.rejected@), id),
{
    let begun = choose|begun: PagedAttentionScheduler|
        #![trigger before.begins(&begun)]
        {
            &&& before.begins(&begun)
            &&& if begun.decode_is_due() {
                &&& begun.decodes(&after, out)
                &&& out.rejected@.len() == 0
                &&& hits_after == hits
            } else {
                exists|admitted: PagedAttentionScheduler|
                    #![trigger begun.admits::<V>(&admitted, hits, hits_after, out.rejected@)]
                    {
                        &&& begun.admits::<V>(&admitted, hits, hits_after, out.rejected@)
                        &&& admitted.differs_in_queues(&begun)
                        &&& begun.fills(&admitted, &after, out)
                    }
            }
        };
    assert(forall|i: int|
        0 <= i < begun.running@.len() ==> (#[trigger] begun.running@[i]).id
            == before.running@[i].id);
    lemma_same_ids(begun.running@, before.running@, id);
    let none = refused_ones(Seq::<RejectedSequence>::empty());
    assert(none =~= Seq::<Sequence>::empty());
    if begun.decode_is_due() {
        lemma_decodes(begun, after, out, id);
        assert(refused_ones(out.rejected@) =~= none);
    } else {
        let admitted = choose|admitted: PagedAttentionScheduler|
            #![trigger begun.admits::<V>(&admitted, hits, hits_after, out.rejected@)]
            {
                &&& begun.admits::<V>(&admitted, hits, hits_after, out.rejected@)
                &&& admitted.differs_in_queues(&begun)
                &&& begun.fills(&admitted, &after, out)
            };
        let w = begun.intake(Seq::empty(), hits);
        let replies = choose|replies: Seq<Reply>|
            {
                &&& #[trigger] begun.runs::<V>(w, replies)
                &&& !begun.takes_more(begun.after_attempts(w, replies))
                &&& admitted.agrees(begun.after_attempts(w, replies), out.rejected@, hits_after)
            };
        lemma_attempts::<V>(begun, w, replies, id);
        if !(out.scheduled@.len() > 0 && admitted.serves_prompts(&after, out)) {
            let (mid, nothing) = choose|mid: PagedAttentionScheduler,
                nothing: PagedAttentionSchedulerOutput| #[trigger]
                admitted.serves_prompts(&mid, nothing) && nothing.scheduled@.len() == 0
                    && mid.decodes(&after, out);
            lemma_decodes(mid, after, out, id);
        }
    }
}

proof fn lemma_decodes(
    before: PagedAttentionScheduler,
    after: PagedAttentionScheduler,
    out: PagedAttentionSchedulerOutput,
    id: usize,
)
    requires
        before.decodes(&after, out),
    ensures
        occurrences(before.running@, id) + occurrences(before.waiting@, id) == occurrences(
            after.running@,
            id,
        ) + occurrences(after.waiting@, id),
        out.scheduled@.contains(id) ==> present(after.running@, id),
{
    let mid = choose|mid: PagedAttentionScheduler| #[trigger]
        before.makes_compatible(&mid) && mid.steps_from(&after, out);
    let keep = |s: Sequence| before.keeps_place(s);
    let other = |s: Sequence| !before.keeps_place(s);
    lemma_parted(before.running@, keep, id);
    assert(other =~= (|s: Sequence| !keep(s)));
    let gone = kept(before.running@, other);
    lemma_joined(all_set_back(gone), before.waiting@, id);
    lemma_same_ids(all_set_back(gone), gone, id);
    let ids = mid.next_step_ids();
    lemma_rows_served(mid, mid.intake(Seq::empty(), 0), ids, ids.len() as int, id);
}

/// What a turn schedules runs.
pub proof fn law_scheduled_sequences_run<V: PagedPrefixCacheValidator>(
    before: PagedAttentionScheduler,
    after: PagedAttentionScheduler,
    hits: usize,
    hits_after: usize,
    out: PagedAttentionSchedulerOutput,
    id: usize,
)
    requires
        before.schedules::<V>(&after, hits, hits_after, out),
        out.scheduled@.contains(id),
    ensures
        present(after.running@, id),
{
    let begun = choose|begun: PagedAttentionScheduler|
        #![trigger before.begins(&begun)]
        {
            &&& before.begins(&begun)
            &&& if begun.decode_is_due() {
                &&& begun.decodes(&after, out)
                &&& out.rejected@.len() == 0
                &&& hits_after == hits
            } else {
                exists|admitted: PagedAttentionScheduler|
                    #![trigger begun.admits::<V>(&admitted, hits, hits_after, out.rejected@)]
                    {
                        &&& begun.admits::<V>(&admitted, hits, hits_after, out.rejected@)
                        &&& admitted.differs_in_queues(&begun)
                        &&& begun.fills(&admitted, &after, out)
                    }
            }
        };
    if begun.decode_is_due() {
        lemma_decodes(begun, after, out, id);
    } else {
        let admitted = choose|admitted: PagedAttentionScheduler|
            #![trigger begun.admits::<V>(&admitted, hits, hits_after, out.rejected@)]
            {
                &&& begun.admits::<V>(&admitted, hits, hits_after, out.rejected@)
                &&& admitted.differs_in_queues(&begun)
                &&& begun.fills(&admitted, &after, out)
            };
        if out.scheduled@.len() > 0 && admitted.serves_prompts(&after, out) {
            let batch = choose|batch: PromptBatch| #[trigger] admitted.serves(&after, out, batch);
            let kv = admitted.kv_cache_manager@;
            let n = batch.scheduled@.len() as int;
            let places = granted(kv, admitted.running@, batch, n).places;
            lemma_granted(kv, admitted.running@, batch, n);
            let i = choose|i: int| 0 <= i < out.scheduled@.len() && out.scheduled@[i] == id;
            assert(out.scheduled@[i] == batch.scheduled@[places[i]]);
        } else {
            let (mid, nothing) = choose|mid: PagedAttentionScheduler,
                nothing: PagedAttentionSchedulerOutput| #[trigger]
                admitted.serves_prompts(&mid, nothing) && nothing.scheduled@.len() == 0
                    && mid.decodes(&after, out);
            lemma_decodes(mid, after, out, id);
        }
    }
}

proof fn lemma_granted(kv: KvState, running: Seq<Sequence>, batch: PromptBatch, k: int)
    ensures
        forall|i: int|
            0 <= i < granted(kv, running, batch, k).places.len() ==> present(
                running,
                batch.scheduled@[#[trigger] granted(kv, running, batch, k).places[i]],
            ),
    decreases k,
{
    if k > 0 {
        lemma_granted(kv, running, batch, k - 1);
        let before = granted(kv, running, batch, k - 1).places;
        let places = granted(kv, running, batch, k).places;
        assert forall|i: int| 0 <= i < places.len() implies present(
            running,
            batch.scheduled@[#[trigger] places[i]],
        ) by {
            if i < before.len() {
                assert(places[i] == before[i]);
            } else {
                assert(places[i] == k - 1);
            }
        }
    }
}

/// Admission leaves no more sequences running than allowed, unless more ran before.
pub proof fn law_admission_respects_the_limit<V: PagedPrefixCacheValidator>(
    before: PagedAttentionScheduler,
    after: PagedAttentionScheduler,
    hits: usize,
    hits_after: usize,
    rejected: Seq<RejectedSequence>,
)
    requires
        before.admits::<V>(&after, hits, hits_after, rejected),
    ensures
        after.running@.len() <= before.running@.len() || after.running@.len()
            <= before.config.max_num_seqs,
{
    let w = before.intake(Seq::empty(), hits);
    let replies = choose|replies: Seq<Reply>|
        {
            &&& #[trigger] before.runs::<V>(w, replies)
            &&& !before.takes_more(before.after_attempts(w, replies))
            &&& after.agrees(before.after_attempts(w, replies), rejected, hits_after)
        };
    lemma_limit::<V>(before, w, replies);
}

proof fn lemma_limit<V: PagedPrefixCacheValidator>(
    s: PagedAttentionScheduler,
    w: Intake,
    replies: Seq<Reply>,
)
    requires
        s.runs::<V>(w, replies),
    ensures
        s.after_attempts(w, replies).running.len() <= w.running.len() || s.after_attempts(
            w,
            replies,
        ).running.len() <= s.config.max_num_seqs,
    decreases replies.len(),
{
    if replies.len() > 0 {
        lemma_limit::<V>(s, w, replies.drop_last());
        let v = s.after_attempts(w, replies.drop_last());
        let seq = v.waiting[0];
        let rest = Intake { waiting: v.waiting.skip(1), ..v };
        let known = Intake { cache: hashed_for(rest.cache, seq, s.block_size as int), ..rest };
        if let Ok(limit) = replies.last().validated {
            let count = s.waits_now(known.cache, seq.id);
            let counted = Intake {
                cache: CacheState {
                    waits: known.cache.waits.insert(seq.id, count),
                    ..known.cache
                },
                stopped: true,
                ..known
            };
            lemma_squeezed_runs_less(s, counted, seq, limit);
            assert(s.pressed(known, seq, limit).running.len() <= v.running.len());
        }
    }
}

proof fn lemma_squeezed_runs_less(
    s: PagedAttentionScheduler,
    w: Intake,
    seq: Sequence,
    limit: usize,
)
    ensures
        s.squeezed(w, seq, limit).running.len() <= w.running.len(),
    decreases w.running.len(),
{
    if !s.prompt_fits(w, seq, limit) && w.running.len() > 0 {
        lemma_squeezed_runs_less(s, s.last_given_up(w), seq, limit);
    }
}

proof fn lemma_one_answer(s: PagedAttentionScheduler, w: Intake, a: Reply, b: Reply)
    requires
        s.answers::<StatelessModel>(w, a),
        s.answers::<StatelessModel>(w, b),
    ensures
        s.attempted(w, a) == s.attempted(w, b),
{
}

proof fn lemma_one_way(
    s: PagedAttentionScheduler,
    w: Intake,
    a: Seq<Reply>,
    b: Seq<Reply>,
)
    requires
        s.runs::<StatelessModel>(w, a),
        s.runs::<StatelessModel>(w, b),
        a.len() == b.len(),
    ensures
        s.after_attempts(w, a) == s.after_attempts(w, b),
    decreases a.len(),
{
    if a.len() > 0 {
        lemma_one_way(s, w, a.drop_last(), b.drop_last());
        lemma_one_answer(s, s.after_attempts(w, a.drop_last()), a.last(), b.last());
    }
}

proof fn lemma_first_runs<V: PagedPrefixCacheValidator>(
    s: PagedAttentionScheduler,
    w: Intake,
    replies: Seq<Reply>,
    n: int,
)
    requires
        s.runs::<V>(w, replies),
        0 <= n <= replies.len(),
    ensures
        s.runs::<V>(w, replies.take(n)),
        n < replies.len() ==> s.takes_more(s.after_attempts(w, replies.take(n))),
    decreases replies.len(),
{
    if n == replies.len() {
        assert(replies.take(n) =~= replies);
    } else {
        assert(replies.drop_last().take(n) =~= replies.take(n));
        lemma_first_runs::<V>(s, w, replies.drop_last(), n);
        if n == replies.len() - 1 {
            assert(replies.take(n) =~= replies.drop_last());
        }
    }
}

/// Where the model carries no state, the queues before decide who is admitted: two
/// admissions from the same queues end alike.
pub proof fn law_stateless_admission_is_determined(
    before: PagedAttentionScheduler,
    a: PagedAttentionScheduler,
    b: PagedAttentionScheduler,
    hits: usize,
    hits_a: usize,
    hits_b: usize,
    rejected_a: Seq<RejectedSequence>,
    rejected_b: Seq<RejectedSequence>,
)
    requires
        before.admits::<StatelessModel>(&a, hits, hits_a, rejected_a),
        before.admits::<StatelessModel>(&b, hits, hits_b, rejected_b),
    ensures
        a.running@ == b.running@,
        a.waiting@ == b.waiting@,
        a.cache() == b.cache(),
        a.preempted_sequence_ids@ == b.preempted_sequence_ids@,
        rejected_a == rejected_b,
        hits_a == hits_b,
{
    let w = before.intake(Seq::empty(), hits);
    let x = choose|replies: Seq<Reply>|
        {
            &&& #[trigger] before.runs::<StatelessModel>(w, replies)
            &&& !before.takes_more(before.after_attempts(w, replies))
            &&& a.agrees(before.after_attempts(w, replies), rejected_a, hits_a)
        };
    let y = choose|replies: Seq<Reply>|
        {
            &&& #[trigger] before.runs::<StatelessModel>(w, replies)
            &&& !before.takes_more(before.after_attempts(w, replies))
            &&& b.agrees(before.after_attempts(w, replies), rejected_b, hits_b)
        };
    let n = if x.len() < y.len() {
        x.len() as int
    } else {
        y.len() as int
    };
    lemma_first_runs::<StatelessModel>(before, w, x, n);
    lemma_first_runs::<StatelessModel>(before, w, y, n);
    lemma_one_way(before, w, x.take(n), y.take(n));
    assert(x.take(x.len() as int) =~= x);
    assert(y.take(y.len() as int) =~= y);
}

/// A sequence is one of a pool, by its id and its slot.
pub open spec fn stems_from(s: Sequence, pool: Seq<Sequence>) -> bool {
    exists|i: int|
        0 <= i < pool.len() && (#[trigger] pool[i]).id == s.id && pool[i].recurrent_state_idx
            == s.recurrent_state_idx
}

/// All sequences are of a pool.
pub open spec fn all_stem_from(sequences: Seq<Sequence>, pool: Seq<Sequence>) -> bool {
    forall|i: int| 0 <= i < sequences.len() ==> stems_from(#[trigger] sequences[i], pool)
}

/// The model got back the slot of a sequence of a pool that a refused one was.
pub open spec fn slot_went_back<V: PagedPrefixCacheValidator>(
    refused: Sequence,
    pool: Seq<Sequence>,
) -> bool {
    exists|i: int|
        0 <= i < pool.len() && (#[trigger] pool[i]).id == refused.id && gives_back::<V>(pool[i])
}

proof fn lemma_squeezed_stems(
    s: PagedAttentionScheduler,
    w: Intake,
    seq: Sequence,
    limit: usize,
    pool: Seq<Sequence>,
)
    requires
        all_stem_from(w.running, pool),
        all_stem_from(w.waiting, pool),
    ensures
        all_stem_from(s.squeezed(w, seq, limit).running, pool),
        all_stem_from(s.squeezed(w, seq, limit).waiting, pool),
    decreases w.running.len(),
{
    if !s.prompt_fits(w, seq, limit) && w.running.len() > 0 {
        let next = s.last_given_up(w);
        assert forall|i: int| 0 <= i < next.running.len() implies stems_from(
            #[trigger] next.running[i],
            pool,
        ) by {
            assert(next.running[i] == w.running[i]);
        }
        assert forall|i: int| 0 <= i < next.waiting.len() implies stems_from(
            #[trigger] next.waiting[i],
            pool,
        ) by {
            if i == 0 {
                assert(stems_from(w.running[w.running.len() - 1], pool));
            } else {
                assert(next.waiting[i] == w.waiting[i - 1]);
            }
        }
        lemma_squeezed_stems(s, next, seq, limit, pool);
    }
}

proof fn lemma_attempted_stems(
    s: PagedAttentionScheduler,
    w: Intake,
    reply: Reply,
    pool: Seq<Sequence>,
)
    requires
        w.waiting.len() > 0,
        all_stem_from(w.running, pool),
        all_stem_from(w.waiting, pool),
    ensures
        all_stem_from(s.attempted(w, reply).running, pool),
        all_stem_from(s.attempted(w, reply).waiting, pool),
{
    let seq = w.waiting[0];
    let rest = Intake { waiting: w.waiting.skip(1), ..w };
    assert forall|i: int| 0 <= i < rest.waiting.len() implies stems_from(
        #[trigger] rest.waiting[i],
        pool,
    ) by {
        assert(rest.waiting[i] == w.waiting[i + 1]);
    }
    assert(stems_from(seq, pool));
    let known = Intake { cache: hashed_for(rest.cache, seq, s.block_size as int), ..rest };
    if let Ok(limit) = reply.validated {
        let count = s.waits_now(known.cache, seq.id);
        let counted = Intake {
            cache: CacheState { waits: known.cache.waits.insert(seq.id, count), ..known.cache },
            stopped: true,
            ..known
        };
        lemma_squeezed_stems(s, counted, seq, limit, pool);
        let ready = s.readied(known, seq, limit);
        assert(all_stem_from(ready.running, pool) && all_stem_from(ready.waiting, pool));
        let back = seq![seq] + ready.waiting;
        assert forall|i: int| 0 <= i < back.len() implies stems_from(#[trigger] back[i], pool) by {
            if i > 0 {
                assert(back[i] == ready.waiting[i - 1]);
            }
        }
        let entered = ready.running.push(started(seq, s.reused(ready, seq, limit)));
        assert forall|i: int| 0 <= i < entered.len() implies stems_from(
            #[trigger] entered[i],
            pool,
        ) by {
            if i < ready.running.len() {
                assert(entered[i] == ready.running[i]);
            }
        }
    }
}

proof fn lemma_slots_went_back<V: PagedPrefixCacheValidator>(
    s: PagedAttentionScheduler,
    w: Intake,
    replies: Seq<Reply>,
    pool: Seq<Sequence>,
)
    requires
        s.runs::<V>(w, replies),
        w.rejected.len() == 0,
        all_stem_from(w.running, pool),
        all_stem_from(w.waiting, pool),
    ensures
        ({
            let after = s.after_attempts(w, replies);
            &&& all_stem_from(after.running, pool)
            &&& all_stem_from(after.waiting, pool)
            &&& forall|i: int|
                0 <= i < after.rejected.len() ==> slot_went_back::<V>(
                    (#[trigger] after.rejected[i]).sequence,
                    pool,
                )
        }),
    decreases replies.len(),
{
    if replies.len() > 0 {
        lemma_slots_went_back::<V>(s, w, replies.drop_last(), pool);
        let before = s.after_attempts(w, replies.drop_last());
        let reply = replies.last();
        let after = s.attempted(before, reply);
        lemma_attempted_stems(s, before, reply, pool);
        law_refused_prompts_give_back_their_slots::<V>(s, before, reply);
        assert forall|i: int| 0 <= i < after.rejected.len() implies slot_went_back::<V>(
            (#[trigger] after.rejected[i]).sequence,
            pool,
        ) by {
            if i < before.rejected.len() {
                assert(after.rejected[i] == before.rejected[i]);
            } else {
                let seq = before.waiting[0];
                assert(stems_from(seq, pool));
                let k = choose|k: int|
                    0 <= k < pool.len() && (#[trigger] pool[k]).id == seq.id
                        && pool[k].recurrent_state_idx == seq.recurrent_state_idx;
                assert(gives_back::<V>(pool[k]));
                assert(pool[k].id == after.rejected[i].sequence.id);
            }
        }
    }
}

/// Of every prompt that an admission refuses, the model got the slot back that the prompt had
/// when the admission began.
pub proof fn law_admission_gives_back_slots<V: PagedPrefixCacheValidator>(
    before: PagedAttentionScheduler,
    after: PagedAttentionScheduler,
    hits: usize,
    hits_after: usize,
    rejected: Seq<RejectedSequence>,
)
    requires
        before.admits::<V>(&after, hits, hits_after, rejected),
    ensures
        forall|i: int|
            0 <= i < rejected.len() ==> slot_went_back::<V>(
                (#[trigger] rejected[i]).sequence,
                before.running@ + before.waiting@,
            ),
{
    let w = before.intake(Seq::empty(), hits);
    let pool = before.running@ + before.waiting@;
    let replies = choose|replies: Seq<Reply>|
        {
            &&& #[trigger] before.runs::<V>(w, replies)
            &&& !before.takes_more(before.after_attempts(w, replies))
            &&& after.agrees(before.after_attempts(w, replies), rejected, hits_after)
        };
    assert forall|i: int| 0 <= i < w.running.len() implies stems_from(
        #[trigger] w.running[i],
        pool,
    ) by {
        assert(pool[i] == w.running[i]);
    }
    assert forall|i: int| 0 <= i < w.waiting.len() implies stems_from(
        #[trigger] w.waiting[i],
        pool,
    ) by {
        assert(pool[i + w.running.len()] == w.waiting[i]);
    }
    lemma_slots_went_back::<V>(before, w, replies, pool);
}

/// Prompts wait for a bounded number of decode steps.
pub proof fn law_prompts_get_their_turn(s: PagedAttentionScheduler)
    requires
        s.prompts_pending(),
        s.decode_steps_since_prefill >= 1,
        s.decode_steps_since_prefill >= s.config.max_decode_steps_before_prefill,
    ensures
        !s.decode_is_due(),
{
}

/// Between two batches of prompts, sequences that decode get a step.
pub proof fn law_decoding_gets_its_turn(s: PagedAttentionScheduler)
    requires
        has_completion(s.running@),
        s.decode_steps_since_prefill == 0,
        s.config.max_decode_steps_before_prefill > 0,
    ensures
        s.decode_is_due(),
{
}

} // verus!
