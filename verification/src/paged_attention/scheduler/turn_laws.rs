//! What holds of budgets, turns and batches, whatever runs and waits.

use vstd::prelude::*;

use crate::paged_attention::block_hash::{block_hashes, law_hashes_can_be_appended};
use crate::paged_attention::decode_plan::DecodeStep;
use crate::paged_attention::prompt_laws::{
    law_batch_leaves_no_room_unused, law_parts_advance_within_the_budget,
    law_parts_are_as_long_as_they_can_be, law_prompts_of_a_batch_go_together,
    law_prompts_that_cannot_be_cut_run_whole, tokens_in, tokens_left,
};
use crate::paged_attention::prompt_plan::{
    all_wf, find_prompt, lemma_turn, rotated, turn, PromptBatch, PromptInfo,
};
use crate::paged_attention::scheduler::admission::prompts_of;
use crate::paged_attention::scheduler::batches::{first_completion, BatchKind};
use crate::paged_attention::scheduler::hashes::{
    canceled, finished_ids, finished_slots, forgotten, given_up, hashed_for, kept, live, releases,
    CacheState,
};
use crate::paged_attention::scheduler::turns::{
    has_completion, has_prompt, infos_of, remaining, rows_of,
};
use crate::paged_attention::scheduler::PagedAttentionScheduler;
use crate::paged_attention::sequence::{
    law_frontier_is_what_is_computed, Sequence, SequenceState, SpeculativePrefixCheckpointPolicy,
    StopReason,
};

verus! {

/// A batch of prompts may compute all the tokens of a batch, unless prompts are cut and others
/// decode beside: then no more than a part, except for prompts that came in before.
pub proof fn law_prompts_leave_room_for_decoding(
    s: &PagedAttentionScheduler,
    mixed: bool,
    r: usize,
)
    requires
        call_ensures(PagedAttentionScheduler::prefill_token_budget, (s, mixed), r),
    ensures
        r <= s.config.max_num_batched_tokens,
        !mixed || !s.scheduler_visible_prompt_chunks || s.prompt_admission_epoch ==> r
            == s.config.max_num_batched_tokens,
        mixed && s.scheduler_visible_prompt_chunks && !s.prompt_admission_epoch ==> r
            <= s.config.max_prefill_chunk_tokens && (r == s.config.max_prefill_chunk_tokens || r
            == s.config.max_num_batched_tokens),
{
}

/// Prompts share the budget evenly: together they stay within it, where it has a token for each,
/// and one token more for each would exceed it. Each gets one at least.
pub proof fn law_prompts_share_the_budget_evenly(
    s: &PagedAttentionScheduler,
    n: usize,
    mixed: bool,
    budget: usize,
    r: Option<usize>,
)
    requires
        call_ensures(PagedAttentionScheduler::prefill_token_budget, (s, mixed), budget),
        call_ensures(PagedAttentionScheduler::prompt_chunk_size, (s, n, mixed), r),
    ensures
        r is Some <==> n > 0,
        r matches Some(size) ==> size >= 1 && (size + 1) * n > budget && (size * n <= budget || (
        size == 1 && n > budget)),
{
    if n > 0 {
        let (b, m) = (budget as int, n as int);
        let q = b / m;
        assert(q * m <= b && b < (q + 1) * m && q >= 0) by (nonlinear_arith)
            requires
                m > 0,
                b >= 0,
                q == b / m,
        ;
        if q == 0 {
            assert((1 + 1) * m == 2 * m && 1 * m == m && (0 + 1) * m == m) by (nonlinear_arith);
        }
    }
}

/// What remains of the running prompts is what planning sees of them.
pub proof fn law_what_remains_is_what_prompts_have_left(
    sequences: Seq<Sequence>,
    policy: SpeculativePrefixCheckpointPolicy,
)
    ensures
        remaining(sequences) == tokens_left(infos_of(prompts_of(sequences), policy)),
    decreases sequences.len(),
{
    let all = infos_of(prompts_of(sequences), policy);
    if sequences.len() > 0 {
        let head = sequences.drop_last();
        law_what_remains_is_what_prompts_have_left(head, policy);
        let before = infos_of(prompts_of(head), policy);
        if sequences.last().state == SequenceState::RunningPrompt {
            assert(all.drop_last() =~= before);
            let n = sequences.last().tokens.len();
            assert(n == sequences.last().tokens@.len());
        } else {
            assert(all =~= before);
        }
    }
}

/// A test keeps those that pass it, all of them and no others, in their order; those that pass
/// and those that do not are all there are.
pub proof fn law_a_test_keeps_those_that_pass(
    sequences: Seq<Sequence>,
    keep: spec_fn(Sequence) -> bool,
)
    ensures
        kept(sequences, keep).len() + kept(sequences, |s: Sequence| !keep(s)).len()
            == sequences.len(),
        forall|i: int|
            0 <= i < kept(sequences, keep).len() ==> keep(#[trigger] kept(sequences, keep)[i])
                && sequences.contains(kept(sequences, keep)[i]),
        forall|i: int|
            0 <= i < sequences.len() && keep(#[trigger] sequences[i]) ==> kept(
                sequences,
                keep,
            ).contains(sequences[i]),
    decreases sequences.len(),
{
    if sequences.len() > 0 {
        let head = sequences.drop_last();
        let last = sequences.last();
        law_a_test_keeps_those_that_pass(head, keep);
        let (a, b) = (kept(head, keep), kept(sequences, keep));
        assert forall|i: int| 0 <= i < b.len() implies keep(#[trigger] b[i])
            && sequences.contains(b[i]) by {
            if i < a.len() {
                assert(b[i] == a[i]);
                let k = choose|k: int| 0 <= k < head.len() && head[k] == a[i];
                assert(sequences[k] == b[i]);
            } else {
                assert(sequences[sequences.len() - 1] == last);
            }
        }
        assert forall|i: int| 0 <= i < sequences.len() && keep(#[trigger] sequences[i]) implies
            b.contains(sequences[i]) by {
            if i < head.len() {
                assert(head[i] == sequences[i]);
                let k = choose|k: int| 0 <= k < a.len() && a[k] == head[i];
                assert(b[k] == sequences[i]);
            } else {
                assert(b[b.len() - 1] == last);
            }
        }
    }
}

/// Decoding is planned over the sequences that decode, in their order, each with as many guesses
/// as it has.
pub proof fn law_rows_are_those_that_decode(sequences: Seq<Sequence>)
    ensures
        ({
            let rows = rows_of(sequences);
            let all = kept(sequences, |s: Sequence| s.state == SequenceState::RunningCompletion);
            &&& rows.len() == all.len()
            &&& forall|i: int|
                0 <= i < rows.len() ==> (#[trigger] rows[i]).id == all[i].id && rows[i].staged
                    == all[i].staged_speculative@.len()
        }),
    decreases sequences.len(),
{
    if sequences.len() > 0 {
        let head = sequences.drop_last();
        law_rows_are_those_that_decode(head);
        let keep = |s: Sequence| s.state == SequenceState::RunningCompletion;
        let n = sequences.last().staged_speculative.len();
        assert(n == sequences.last().staged_speculative@.len());
        let rows = rows_of(sequences);
        assert forall|i: int| 0 <= i < rows.len() implies (#[trigger] rows[i]).id == kept(
            sequences,
            keep,
        )[i].id && rows[i].staged == kept(sequences, keep)[i].staged_speculative@.len() by {
            if i < rows_of(head).len() {
                assert(rows[i] == rows_of(head)[i]);
            }
        }
    }
}

/// Sequences that decode have the next turn where nothing else wants one, and none where nothing
/// decodes. Beside prompts they have it for a bounded number of steps: for one, where all that
/// is left of the running prompts fits into a batch, where no prompt runs and one that waits
/// finds a place, and where prompts came in before.
pub proof fn law_decoding_and_prompts_take_turns(s: &PagedAttentionScheduler, r: bool)
    requires
        call_ensures(PagedAttentionScheduler::completion_is_due, (s,), r),
    ensures
        ({
            let decodes = exists|i: int|
                0 <= i < s.running@.len() && (#[trigger] s.running@[i]).state
                    == SequenceState::RunningCompletion;
            let prompts = exists|i: int|
                0 <= i < s.running@.len() && (#[trigger] s.running@[i]).state
                    == SequenceState::RunningPrompt;
            let steps = s.decode_steps_since_prefill;
            let most = s.config.max_decode_steps_before_prefill;
            let pending = prompts || s.waiting@.len() > 0;
            &&& !decodes ==> !r
            &&& decodes && !pending ==> r
            &&& decodes && pending && s.prompt_admission_epoch ==> (r <==> steps < 1)
            &&& decodes && !s.prompt_admission_epoch && prompts && remaining(s.running@)
                <= s.prefill_budget(true) ==> (r <==> steps < 1)
            &&& decodes && !s.prompt_admission_epoch && prompts && remaining(s.running@)
                > s.prefill_budget(true) ==> (r <==> steps < most)
            &&& decodes && !s.prompt_admission_epoch && !prompts && s.waiting@.len() > 0
                && s.running@.len() < s.config.max_num_seqs ==> (r <==> steps < 1)
            &&& decodes && !s.prompt_admission_epoch && !prompts && s.waiting@.len() > 0
                && s.running@.len() >= s.config.max_num_seqs ==> (r <==> steps < most)
        }),
{
}

/// Prompts that come in while nothing decodes may use the whole budget, until none is left and
/// decoding has begun or there is nothing to decode; nothing else changes that.
pub proof fn law_early_prompts_keep_their_budget(s: PagedAttentionScheduler)
    ensures
        ({
            let decodes = has_completion(s.running@);
            let pending = has_prompt(s.running@) || s.waiting@.len() > 0;
            &&& pending && !decodes ==> s.epoch_after()
            &&& pending && decodes ==> s.epoch_after() == s.prompt_admission_epoch
            &&& !pending && !decodes ==> !s.epoch_after()
            &&& !pending && decodes ==> (s.epoch_after() <==> s.prompt_admission_epoch
                && s.decode_steps_since_prefill == 0)
        }),
{
}

/// Decoding goes on without another look at the queues only with the sequences of the next
/// step, while none is finished or about to be, and not past the point where a prompt that could
/// run has waited long enough. Where nothing runs or waits beside, it does go on.
pub proof fn law_decoding_goes_on_only_for_its_turns(
    s: &PagedAttentionScheduler,
    ids: &Vec<usize>,
    pending_termination: bool,
    step: DecodeStep,
    room: bool,
    r: bool,
)
    requires
        s.kv_cache_manager.wf(),
        call_ensures(PagedAttentionScheduler::plan_decode_step, (s,), step),
        call_ensures(
            PagedAttentionScheduler::can_continue_decode_batch_inner,
            (s, ids, pending_termination),
            r,
        ),
        s.waiting@.len() > 0 ==> room == (s.kv_cache_manager@.blocks_for(s.waiting@[0].length())
            + crate::paged_attention::kv_cache_manager::total_reserved(
            s.kv_cache_manager@.requests,
        ) <= s.kv_cache_manager@.free.len()),
    ensures
        ({
            let prompts = exists|i: int|
                0 <= i < s.running@.len() && (#[trigger] s.running@[i]).state
                    == SequenceState::RunningPrompt;
            let waited = s.decode_steps_since_prefill >= 1 && s.decode_steps_since_prefill
                >= s.config.max_decode_steps_before_prefill;
            &&& r ==> !pending_termination
            &&& r ==> ids@ == step.ids@
            &&& r ==> forall|i: int|
                0 <= i < s.running@.len() ==> !(#[trigger] s.running@[i]).state.finished()
            &&& r && waited ==> !prompts && (s.waiting@.len() == 0 || !room)
            &&& !pending_termination && ids@ == step.ids@ && (forall|i: int|
                0 <= i < s.running@.len() ==> !(#[trigger] s.running@[i]).state.finished())
                && !prompts && s.waiting@.len() == 0 ==> r
        }),
{
}

/// A turn begins with the same sequences: a prompt whose tokens are all computed or out of the
/// cache goes on to decode, and everything else stays as it is.
pub proof fn law_computed_prompts_decode(
    before: PagedAttentionScheduler,
    after: PagedAttentionScheduler,
    i: int,
)
    requires
        before.begins(&after),
        0 <= i < before.running@.len(),
    ensures
        after.running@.len() == before.running@.len(),
        after.waiting == before.waiting,
        ({
            let (a, b) = (before.running@[i], after.running@[i]);
            let done = a.prefix_cache_len >= a.tokens@.len() || a.num_computed_tokens
                >= a.tokens@.len();
            &&& a.state == SequenceState::RunningPrompt && done ==> b == (Sequence {
                state: SequenceState::RunningCompletion,
                ..a
            })
            &&& a.state != SequenceState::RunningPrompt || !done ==> b == a
        }),
{
    let a = before.running@[i];
    let n = a.tokens.len();
    assert(n == a.tokens@.len());
    if n > 0 {
        law_frontier_is_what_is_computed(a, n - 1);
    }
}

/// The order of turns goes round from the prompt whose turn it is, and leaves nobody out.
pub proof fn law_turns_go_round(prompts: Seq<PromptInfo>, next: Option<usize>) -> (s: int)
    ensures
        rotated(prompts, next).len() == prompts.len(),
        prompts.len() > 0 ==> 0 <= s < prompts.len(),
        forall|i: int|
            0 <= i < prompts.len() ==> #[trigger] rotated(prompts, next)[i] == prompts[(s + i) % (
            prompts.len() as int)],
        next matches Some(id) ==> (exists|j: int|
            0 <= j < prompts.len() && (#[trigger] prompts[j]).id == id) ==> rotated(
            prompts,
            next,
        )[0].id == id,
        next is None ==> rotated(prompts, next) == prompts,
{
    let n = prompts.len() as int;
    let s = turn(prompts, next);
    lemma_turn(prompts, next);
    let r = rotated(prompts, next);
    assert forall|i: int| 0 <= i < n implies #[trigger] r[i] == prompts[(s + i) % n] by {
        if s + i < n {
            vstd::arithmetic::div_mod::lemma_small_mod((s + i) as nat, n as nat);
        } else {
            crate::axes::lemma_digits(1, s + i - n, n);
        }
    }
    if let Some(id) = next {
        lemma_prompt_is_found(prompts, id, 0);
        if exists|j: int| 0 <= j < prompts.len() && (#[trigger] prompts[j]).id == id {
            assert(r[0] == prompts[s]);
        }
    } else {
        assert(r =~= prompts);
    }
    s
}

proof fn lemma_prompt_is_found(prompts: Seq<PromptInfo>, id: usize, from: int)
    requires
        0 <= from,
    ensures
        match find_prompt(prompts, id, from) {
            Some(i) => from <= i < prompts.len() && prompts[i].id == id,
            None => forall|j: int| from <= j < prompts.len() ==> (#[trigger] prompts[j]).id != id,
        },
    decreases prompts.len() - from,
{
    if from < prompts.len() && prompts[from].id != id {
        lemma_prompt_is_found(prompts, id, from + 1);
    }
}

/// A batch of prompts keeps to the settings of the scheduler: prompts are cut only where that is
/// allowed, and only where they can be; they are of one length or the same media where that is
/// asked for, within a factor of two where they are padded; there are no more of them and of
/// their tokens than allowed; and where parts end at block boundaries they do, unless they end
/// their prompts or lie within a block.
pub proof fn law_batches_keep_to_the_settings(
    s: PagedAttentionScheduler,
    after: PagedAttentionScheduler,
    infos: Seq<PromptInfo>,
    batch: PromptBatch,
) -> (at: Seq<int>)
    requires
        s.block_size > 0,
        all_wf(infos),
        s.selects(&after, infos, batch),
    ensures
        ({
            let prompts = rotated(infos, s.next_prompt_sequence_id);
            &&& batch.stands_at(prompts, at)
            &&& at.len() > 0 <==> infos.len() > 0
            &&& at.len() > 0 ==> at[0] == 0
            &&& batch.chunks is Some ==> s.scheduler_visible_prompt_chunks
            &&& batch.chunks is Some ==> forall|i: int|
                0 <= i < at.len() ==> !(#[trigger] prompts[at[i]]).raw_logits
                    && !prompts[at[i]].media_pending
            &&& forall|i: int|
                0 < i < at.len() ==> {
                    let (first, p) = (prompts[0], #[trigger] prompts[at[i]]);
                    &&& p.start == first.start
                    &&& s.requires_uniform_prompt_batch ==> p.len == first.len
                    &&& s.requires_uniform_prompt_batch || s.requires_uniform_media_batch
                        ==> p.signature == first.signature
                    &&& !s.requires_uniform_prompt_batch && !s.supports_packed_prefill ==> p.len
                        - p.start <= 2 * (first.len - first.start) && first.len - first.start <= 2
                        * (p.len - p.start)
                }
            &&& batch.scheduled@.len() <= 1 || batch.scheduled@.len() <= s.config.max_num_seqs
            &&& batch.chunks is Some && s.prefill_budget(has_completion(s.running@)) > 0
                ==> tokens_in(batch.chunks->0@) <= s.config.max_num_batched_tokens
            &&& batch.chunks is Some && s.prompt_chunks_require_block_alignment ==> forall|i: int|
                0 <= i < at.len() ==> {
                    let end = (#[trigger] batch.chunks->0@[i]).end;
                    let p = prompts[at[i]];
                    ||| end == p.len
                    ||| end as int % (s.block_size as int) == 0
                    ||| forall|m: int|
                        p.start < m <= end ==> #[trigger] (m % (s.block_size as int)) != 0
                }
            &&& after.next_prompt_sequence_id == batch.next
            &&& after.running == s.running && after.waiting == s.waiting
        }),
{
    let prompts = rotated(infos, s.next_prompt_sequence_id);
    let cfg = s.plan_config();
    lemma_turn(infos, s.next_prompt_sequence_id);
    let from = turn(infos, s.next_prompt_sequence_id);
    assert(all_wf(prompts)) by {
        assert forall|i: int| 0 <= i < prompts.len() implies (#[trigger] prompts[i]).wf() by {
            if i < infos.len() - from {
                assert(prompts[i] == infos[from + i]);
            } else {
                assert(prompts[i] == infos[i - (infos.len() - from)]);
            }
        }
    }
    let at = law_prompts_of_a_batch_go_together(cfg, prompts, batch);
    law_prompts_that_cannot_be_cut_run_whole(cfg, prompts, batch);
    law_batch_leaves_no_room_unused(cfg, prompts, batch);
    if batch.chunks is Some {
        if cfg.budget > 0 {
            law_parts_advance_within_the_budget(cfg, prompts, batch);
        }
        let own = cfg.recurrent || (cfg.packed && !cfg.uniform && forall|j: int|
            0 <= j < prompts.len() ==> !(#[trigger] prompts[j]).has_features);
        law_parts_are_as_long_as_they_can_be(cfg, prompts, batch, own);
        assert forall|i: int|
            0 <= i < at.len() && s.prompt_chunks_require_block_alignment implies {
            let end = (#[trigger] batch.chunks->0@[i]).end;
            let p = prompts[at[i]];
            ||| end == p.len
            ||| end as int % (s.block_size as int) == 0
            ||| forall|m: int| p.start < m <= end ==> #[trigger] (m % (s.block_size as int)) != 0
        } by {}
    }
    at
}

/// The first sequence that decodes is one, and none before it does.
proof fn lemma_first_completion(sequences: Seq<Sequence>, from: int)
    requires
        0 <= from,
    ensures
        match first_completion(sequences, from) {
            Some(i) => from <= i < sequences.len() && sequences[i].state
                == SequenceState::RunningCompletion,
            None => forall|i: int|
                from <= i < sequences.len() ==> (#[trigger] sequences[i]).state
                    != SequenceState::RunningCompletion,
        },
    decreases sequences.len() - from,
{
    if from < sequences.len() && sequences[from].state != SequenceState::RunningCompletion {
        lemma_first_completion(sequences, from + 1);
    }
}

/// Sequences that decode together are of one length where that is asked for, and of the same
/// media where that is. Nobody else has to leave: prompts stay, and without such demands so does
/// everybody. Whoever leaves waits first, to be computed from the start.
pub proof fn law_sequences_that_decode_are_alike(
    before: PagedAttentionScheduler,
    after: PagedAttentionScheduler,
)
    requires
        before.makes_compatible(&after),
    ensures
        forall|i: int, j: int|
            0 <= i < after.running@.len() && 0 <= j < after.running@.len() && (
            #[trigger] after.running@[i]).state == SequenceState::RunningCompletion && (
            #[trigger] after.running@[j]).state == SequenceState::RunningCompletion ==> {
                &&& before.requires_uniform_completion_batch ==> after.running@[i].length()
                    == after.running@[j].length()
                &&& before.requires_uniform_media_batch ==> after.running@[i].signature()
                    == after.running@[j].signature()
            },
        forall|i: int|
            0 <= i < before.running@.len() && (#[trigger] before.running@[i]).state
                != SequenceState::RunningCompletion ==> after.running@.contains(before.running@[i]),
        has_completion(before.running@) ==> has_completion(after.running@),
        !before.requires_uniform_completion_batch && !before.requires_uniform_media_batch
            ==> after.running@ == before.running@ && after.waiting@ == before.waiting@,
        after.running@.len() + after.waiting@.len() == before.running@.len()
            + before.waiting@.len(),
        forall|i: int|
            0 <= i < after.waiting@.len() - before.waiting@.len() ==> {
                let seq = #[trigger] after.waiting@[i];
                &&& seq.state == SequenceState::Waiting
                &&& seq.prefix_cache_len == 0
                &&& seq.num_computed_tokens == 0
            },
{
    let keep = |s: Sequence| before.keeps_place(s);
    let other = |s: Sequence| !before.keeps_place(s);
    assert(other =~= (|s: Sequence| !keep(s)));
    law_a_test_keeps_those_that_pass(before.running@, keep);
    lemma_first_completion(before.running@, 0);
    let run = after.running@;
    assert forall|i: int, j: int|
        0 <= i < run.len() && 0 <= j < run.len() && (#[trigger] run[i]).state
            == SequenceState::RunningCompletion && (#[trigger] run[j]).state
            == SequenceState::RunningCompletion implies {
        &&& before.requires_uniform_completion_batch ==> run[i].length() == run[j].length()
        &&& before.requires_uniform_media_batch ==> run[i].signature() == run[j].signature()
    } by {
        assert(keep(run[i]) && keep(run[j]));
        let x = choose|x: int| 0 <= x < before.running@.len() && before.running@[x] == run[i];
        assert(before.running@[x].state == SequenceState::RunningCompletion);
    }
    assert forall|i: int|
        0 <= i < before.running@.len() && (#[trigger] before.running@[i]).state
            != SequenceState::RunningCompletion implies run.contains(before.running@[i]) by {
        assert(keep(before.running@[i]));
    }
    if has_completion(before.running@) {
        let i = first_completion(before.running@, 0)->0;
        assert(keep(before.running@[i]));
        let k = choose|k: int| 0 <= k < run.len() && run[k] == before.running@[i];
        assert(run[k].state == SequenceState::RunningCompletion);
    }
    if !before.requires_uniform_completion_batch && !before.requires_uniform_media_batch {
        lemma_all_kept(before.running@, keep);
        let gone = kept(before.running@, other);
        assert(gone.len() == 0);
        assert(after.waiting@ =~= before.waiting@);
    }
}

proof fn lemma_all_kept(sequences: Seq<Sequence>, keep: spec_fn(Sequence) -> bool)
    requires
        forall|s: Sequence| #[trigger] keep(s),
    ensures
        kept(sequences, keep) == sequences,
    decreases sequences.len(),
{
    if sequences.len() > 0 {
        lemma_all_kept(sequences.drop_last(), keep);
        assert(keep(sequences.last()));
        assert(sequences.drop_last().push(sequences.last()) =~= sequences);
    } else {
        assert(kept(sequences, keep) =~= sequences);
    }
}

/// Which sequences share a batch with the first: to decode, those of its length where that is
/// asked for and of its media where that is; to have their prompts computed, those with as much
/// computed, without raw logits on either side, of its length and media where lengths must
/// agree, of its media where those must, and else within a factor of two where they are padded.
pub proof fn law_a_batch_is_shared_by_those_alike(
    s: PagedAttentionScheduler,
    first: Sequence,
    other: Sequence,
    uniform: bool,
)
    ensures
        s.shares_batch(first, other, BatchKind::Completion, uniform) <==> (!uniform
            || first.tokens@.len() == other.tokens@.len()) && (!s.requires_uniform_media_batch
            || first.signature() == other.signature()),
        s.shares_batch(first, other, BatchKind::Prompt, uniform) <==> {
            let (a, b) = (
                first.tokens@.len() - first.frontier(),
                other.tokens@.len() - other.frontier(),
            );
            &&& !first.return_raw_logits && !other.return_raw_logits
            &&& first.frontier() == other.frontier()
            &&& uniform || s.requires_uniform_media_batch ==> first.signature() == other.signature()
            &&& uniform ==> first.tokens@.len() == other.tokens@.len()
            &&& !uniform && !s.supports_packed_prefill ==> a <= 2 * b && b <= 2 * a
        },
{
    let (m, n) = (first.tokens.len(), other.tokens.len());
    assert(m == first.tokens@.len() && n == other.tokens@.len());
}

/// The stored hashes of a sequence, once brought up to date, are those of its tokens, whatever
/// was stored before: if they are of the same revision, of the first of these tokens. Those of
/// other sequences stay, and the blocks of all.
pub proof fn law_stored_hashes_are_those_of_the_tokens(
    cache: CacheState,
    seq: Sequence,
    block_size: int,
    first: Seq<u32>,
)
    requires
        block_size > 0,
        cache.hashes.contains_key(seq.id) && cache.revisions.contains_key(seq.id)
            && cache.revisions[seq.id] == seq.block_hash_revision ==> first.len()
            <= seq.tokens@.len() && seq.tokens@.take(first.len() as int) == first
            && cache.hashes[seq.id] == block_hashes(
            first,
            block_size,
            seq.mm_features@,
            Seq::empty(),
        ),
    ensures
        ({
            let now = hashed_for(cache, seq, block_size);
            &&& now.hashes.contains_key(seq.id)
            &&& now.hashes[seq.id] == block_hashes(
                seq.tokens@,
                block_size,
                seq.mm_features@,
                Seq::empty(),
            )
            &&& now.revisions.contains_key(seq.id) && now.revisions[seq.id]
                == seq.block_hash_revision
            &&& forall|other: usize|
                other != seq.id ==> (now.hashes.contains_key(other) <==> cache.hashes.contains_key(
                    other,
                )) && #[trigger] now.hashes[other] == cache.hashes[other]
            &&& now.kv == cache.kv && now.waits == cache.waits
        }),
{
    let tokens = seq.tokens@;
    let features = seq.mm_features@;
    let none = Seq::<u64>::empty();
    if cache.hashes.contains_key(seq.id) && cache.revisions.contains_key(seq.id)
        && cache.revisions[seq.id] == seq.block_hash_revision {
        law_hashes_can_be_appended(first, tokens, block_size, features, none);
    }
}

/// A sequence that gives up its place holds no blocks afterwards, and its hashes stay known; one
/// that is forgotten leaves nothing behind under its name. Neither touches the hashes of others.
pub proof fn law_nothing_is_held_afterwards(
    cache: CacheState,
    seq: Sequence,
    block_size: int,
    reuse: bool,
)
    requires
        block_size > 0,
        cache.kv.wf(),
        cache.kv.block_size == block_size,
    ensures
        given_up(cache, seq, block_size, reuse).kv.request(seq.id) is None,
        given_up(cache, seq, block_size, reuse).hashes.contains_key(seq.id),
        given_up(cache, seq, block_size, reuse).waits == cache.waits,
        forgotten(cache, seq, block_size, reuse).kv.request(seq.id) is None,
        !forgotten(cache, seq, block_size, reuse).hashes.contains_key(seq.id),
        !forgotten(cache, seq, block_size, reuse).revisions.contains_key(seq.id),
        !forgotten(cache, seq, block_size, reuse).waits.contains_key(seq.id),
        forall|other: usize|
            other != seq.id && cache.hashes.contains_key(other) ==> #[trigger] forgotten(
                cache,
                seq,
                block_size,
                reuse,
            ).hashes.contains_key(other) && forgotten(cache, seq, block_size, reuse).hashes[other]
                == cache.hashes[other],
        !reuse || !(seq.state is Done) ==> forgotten(cache, seq, block_size, reuse).kv.hashes
            == cache.kv.hashes,
{
    reveal(given_up);
    let now = hashed_for(cache, seq, block_size);
    let kept = now.kv.cached(seq.id, now.hashes[seq.id], seq.num_computed_tokens as nat);
    crate::paged_attention::kv_cache_manager::law_caching_keeps_the_pool(
        now.kv,
        seq.id,
        now.hashes[seq.id],
        seq.num_computed_tokens as nat,
    );
    crate::paged_attention::kv_cache_manager::law_freeing_keeps_the_pool(kept, seq.id);
    crate::paged_attention::kv_cache_manager::law_freeing_keeps_the_pool(now.kv, seq.id);
    crate::paged_attention::kv_cache_manager::law_freeing_keeps_the_pool(cache.kv, seq.id);
}

/// What a sequence has computed is found again by a later prompt once it gave up its place, where
/// prefixes are reused: its full blocks, but for the last token of the prompt.
pub proof fn law_given_up_prefixes_are_found_again(
    cache: CacheState,
    seq: Sequence,
    block_size: int,
    prompt_tokens: int,
    k: int,
)
    requires
        block_size > 0,
        cache.kv.wf(),
        cache.kv.block_size == block_size,
        cache.kv.hashes.len() <= usize::MAX,
        prompt_tokens >= 0,
        ({
            let hashes = hashed_for(cache, seq, block_size).hashes[seq.id];
            &&& hashes.no_duplicates()
            &&& cache.kv.request(seq.id) matches Some(r) && r.cached == 0
            &&& 0 <= k < cache.kv.request(seq.id)->0.blocks.len()
            &&& k < hashes.len()
        }),
        (k + 1) * block_size <= seq.num_computed_tokens,
        (k + 1) * block_size < prompt_tokens,
    ensures
        ({
            let after = given_up(cache, seq, block_size, true);
            let hashes = after.hashes[seq.id];
            let found = after.kv.computed(hashes, prompt_tokens);
            k < found.len() && after.kv.hashes[found[k] as int] == Some(hashes[k])
        }),
{
    reveal(given_up);
    let now = hashed_for(cache, seq, block_size);
    let hashes = now.hashes[seq.id];
    let n = seq.num_computed_tokens as nat;
    let after = given_up(cache, seq, block_size, true);
    crate::paged_attention::kv_cache_manager::law_cached_prefix_is_found(
        now.kv,
        seq.id,
        hashes,
        n,
        prompt_tokens,
    );
    crate::paged_attention::kv_cache_manager::law_caching_keeps_the_pool(
        now.kv,
        seq.id,
        hashes,
        n,
    );
    crate::paged_attention::kv_laws::law_only_computed_blocks_are_cached(
        now.kv,
        seq.id,
        hashes,
        n,
    );
    crate::paged_attention::kv_laws::law_freed_blocks_can_be_handed_out(
        now.kv.cached(seq.id, hashes, n),
        seq.id,
    );
    crate::paged_attention::kv_laws::law_found_blocks_are_those_of_the_prompt(
        after.kv,
        hashes,
        prompt_tokens,
    );
    let full = n as int / block_size;
    let most = (prompt_tokens - 1) / block_size;
    assert(k < full) by (nonlinear_arith)
        requires
            (k + 1) * block_size <= n,
            full == n as int / block_size,
            block_size > 0,
    ;
    assert((k + 1) * block_size > 0) by (nonlinear_arith)
        requires
            k >= 0,
            block_size > 0,
    ;
    assert(k < most) by (nonlinear_arith)
        requires
            (k + 1) * block_size < prompt_tokens,
            most == (prompt_tokens - 1) / block_size,
            block_size > 0,
    ;
}

/// The ids of finished sequences are those of the sequences that are finished, and the slots
/// those that they carry.
pub proof fn law_finished_sequences_are_told(sequences: Seq<Sequence>, id: usize, slot: usize)
    ensures
        finished_ids(sequences).contains(id) <==> exists|i: int|
            0 <= i < sequences.len() && (#[trigger] sequences[i]).id == id
                && sequences[i].state.finished(),
        finished_slots(sequences).contains((id, slot)) <==> exists|i: int|
            0 <= i < sequences.len() && (#[trigger] sequences[i]).id == id
                && sequences[i].state.finished() && sequences[i].recurrent_state_idx == Some(slot),
        live(sequences).len() + finished_ids(sequences).len() == sequences.len(),
        forall|i: int|
            0 <= i < live(sequences).len() ==> !(#[trigger] live(sequences)[i]).state.finished(),
    decreases sequences.len(),
{
    let n = sequences.len() as int;
    law_a_test_keeps_those_that_pass(sequences, |s: Sequence| !s.state.finished());
    if n > 0 {
        let head = sequences.drop_last();
        let last = sequences.last();
        law_finished_sequences_are_told(head, id, slot);
        let (a, b) = (finished_ids(head), finished_ids(sequences));
        let (x, y) = (finished_slots(head), finished_slots(sequences));
        assert(sequences[n - 1] == last);
        assert(forall|i: int| 0 <= i < head.len() ==> sequences[i] == head[i]);
        if b.contains(id) && !a.contains(id) {
            let k = choose|k: int| 0 <= k < b.len() && b[k] == id;
            if k < a.len() {
                assert(a[k] == id);
            }
        }
        if a.contains(id) {
            let k = choose|k: int| 0 <= k < a.len() && a[k] == id;
            assert(b[k] == id);
            let i = choose|i: int|
                0 <= i < head.len() && (#[trigger] head[i]).id == id && head[i].state.finished();
            assert(sequences[i].id == id);
        }
        if last.state.finished() {
            assert(b[a.len() as int] == last.id);
        }
        if y.contains((id, slot)) && !x.contains((id, slot)) {
            let k = choose|k: int| 0 <= k < y.len() && y[k] == (id, slot);
            if k < x.len() {
                assert(x[k] == (id, slot));
            }
        }
        if x.contains((id, slot)) {
            let k = choose|k: int| 0 <= k < x.len() && x[k] == (id, slot);
            assert(y[k] == (id, slot));
            let i = choose|i: int|
                0 <= i < head.len() && (#[trigger] head[i]).id == id && head[i].state.finished()
                    && head[i].recurrent_state_idx == Some(slot);
            assert(sequences[i].id == id);
        }
        if last.state.finished() && last.recurrent_state_idx is Some {
            assert(y[x.len() as int] == (last.id, last.recurrent_state_idx->0));
        }
    }
}

/// The guesses to drop are those of the sequences that gave up their cache and do not run again,
/// each once.
pub proof fn law_guesses_are_dropped_once(
    ids: Seq<usize>,
    running: Seq<usize>,
    n: int,
    id: usize,
)
    requires
        0 <= n <= ids.len(),
    ensures
        releases(ids, running, n).no_duplicates(),
        releases(ids, running, n).contains(id) <==> !running.contains(id) && exists|i: int|
            0 <= i < n && #[trigger] ids[i] == id,
    decreases n,
{
    if n > 0 {
        law_guesses_are_dropped_once(ids, running, n - 1, id);
        let (a, b) = (releases(ids, running, n - 1), releases(ids, running, n));
        if b.len() > a.len() {
            assert(b == a.push(ids[n - 1]));
            assert(b[a.len() as int] == ids[n - 1]);
            assert forall|i: int, j: int| 0 <= i < b.len() && 0 <= j < b.len() && i != j implies
                b[i] != b[j] by {
                if i < a.len() && j < a.len() {
                    assert(b[i] == a[i] && b[j] == a[j]);
                } else if i < a.len() {
                    assert(a[i] == b[i]);
                    assert(a.contains(b[i]));
                } else {
                    assert(a[j] == b[j]);
                    assert(a.contains(b[j]));
                }
            }
            if a.contains(id) {
                let k = choose|k: int| 0 <= k < a.len() && a[k] == id;
                assert(b[k] == id);
            }
            if b.contains(id) && !a.contains(id) {
                let k = choose|k: int| 0 <= k < b.len() && b[k] == id;
                if k < a.len() {
                    assert(a[k] == id);
                }
            }
        } else if ids[n - 1] == id && !running.contains(id) {
            assert(a.contains(id));
        }
    }
}

/// Sequences that nobody waits for are ended as canceled unless they are finished already;
/// everybody else stays as they are.
pub proof fn law_only_closed_sequences_are_canceled(
    sequences: Seq<Sequence>,
    closed: Seq<usize>,
    i: int,
)
    requires
        0 <= i < sequences.len(),
    ensures
        canceled(sequences, closed).len() == sequences.len(),
        ({
            let (a, b) = (sequences[i], canceled(sequences, closed)[i]);
            &&& closed.contains(a.id) && !a.state.finished() ==> b == (Sequence {
                state: SequenceState::Done(StopReason::Canceled),
                ..a
            })
            &&& !closed.contains(a.id) || a.state.finished() ==> b == a
            &&& closed.contains(a.id) ==> b.state.finished()
        }),
{
}

} // verus!
