//! Which prompts share the next prefill batch, and how much of each is computed.

use vstd::prelude::*;

use crate::lists::contains_index;

verus! {

/// What planning needs to know of a prompt.
#[derive(Debug, Clone, Copy, PartialEq, Eq, Structural)]
pub struct PromptInfo {
    pub id: usize,
    /// The tokens whose keys and values are there already.
    pub start: usize,
    pub len: usize,
    /// The kinds of media in it.
    pub signature: u8,
    pub raw_logits: bool,
    /// Whether tokens that stand for media are known.
    pub has_features: bool,
    /// Whether media wait to be turned into tokens.
    pub media_pending: bool,
    /// The tokens at the end that are computed again after a cache hit.
    pub replay: usize,
}

impl PromptInfo {
    /// No more is computed than there is.
    pub open spec fn wf(self) -> bool {
        self.start <= self.len
    }

    /// A prompt that cannot be cut: its logits are all asked for, or its media are
    /// not tokens yet.
    pub open spec fn atomic(self) -> bool {
        self.raw_logits || self.media_pending
    }

    pub fn is_atomic(&self) -> (r: bool)
        ensures
            r == self.atomic(),
    {
        self.raw_logits || self.media_pending
    }
}

/// A part of a prompt, from its first token to the one behind its last.
#[derive(Debug, Clone, Copy, PartialEq, Eq, Structural)]
pub struct PromptChunk {
    pub start: usize,
    pub end: usize,
}

/// What a batch is planned by.
#[derive(Debug, Clone, Copy, PartialEq, Eq, Structural)]
pub struct PlanConfig {
    /// The tokens that the batch may compute.
    pub budget: usize,
    /// The tokens of one prompt that a batch of mixed work computes.
    pub quantum: usize,
    pub max_num_seqs: usize,
    pub block_size: usize,
    /// Whether decoding goes on beside.
    pub mixed: bool,
    /// Whether prompts are computed in parts.
    pub visible_chunks: bool,
    /// Whether parts end at block boundaries.
    pub aligned: bool,
    pub prefix_caching: bool,
    /// Whether prompts of different lengths are computed without padding.
    pub packed: bool,
    /// Whether each sequence carries a state through its prefill.
    pub recurrent: bool,
    /// Whether the prompts of a batch must be of one length.
    pub uniform: bool,
    /// Whether the prompts of a batch must hold the same kinds of media.
    pub uniform_media: bool,
}

impl PlanConfig {
    /// There are blocks.
    pub open spec fn wf(self) -> bool {
        self.block_size > 0
    }
}

/// The largest ratio of lengths that padding evens out.
pub const MAX_PADDING_RATIO: usize = 2;

/// Whether two lengths are close enough to be padded.
pub open spec fn paddable(a: int, b: int) -> bool {
    a <= MAX_PADDING_RATIO * b && b <= MAX_PADDING_RATIO * a
}

fn can_pad(a: usize, b: usize) -> (r: bool)
    ensures
        r == paddable(a as int, b as int),
{
    let (low, high): (usize, usize) = if a <= b {
        (a, b)
    } else {
        (b, a)
    };
    high - low <= low
}

/// Whether a prompt can be computed together with the first of a batch.
pub open spec fn compatible(cfg: PlanConfig, first: PromptInfo, other: PromptInfo) -> bool {
    &&& !first.raw_logits && !other.raw_logits
    &&& first.start == other.start
    &&& (cfg.uniform || cfg.uniform_media) ==> first.signature == other.signature
    &&& cfg.uniform ==> first.len == other.len
    &&& !cfg.uniform && !cfg.packed ==> paddable(
        first.len - first.start,
        other.len - other.start,
    )
}

/// Whether a prompt can be computed together with the first of a batch.
pub fn is_compatible(cfg: &PlanConfig, first: &PromptInfo, other: &PromptInfo) -> (r: bool)
    requires
        first.wf(),
        other.wf(),
    ensures
        r == compatible(*cfg, *first, *other),
{
    if first.raw_logits || other.raw_logits || first.start != other.start {
        return false;
    }
    if (cfg.uniform || cfg.uniform_media) && first.signature != other.signature {
        return false;
    }
    if cfg.uniform {
        first.len == other.len
    } else {
        cfg.packed || can_pad(first.len - first.start, other.len - other.start)
    }
}

/// The last block boundary that a later prompt with the same beginning can be
/// resumed from.
pub open spec fn reusable_boundary(cfg: PlanConfig, info: PromptInfo) -> int {
    if info.len > info.replay {
        (info.len - info.replay - 1) / (cfg.block_size as int) * cfg.block_size
    } else {
        0
    }
}

/// Where a part of at most `quantum` tokens ends. Where parts are aligned, one
/// stops at the reusable boundary before it goes beyond, and ends at a block
/// boundary unless it ends the prompt or would be empty.
pub open spec fn planned_end(cfg: PlanConfig, info: PromptInfo, quantum: int) -> int {
    let reach = if info.start + quantum < info.len {
        info.start + quantum
    } else {
        info.len as int
    };
    if !cfg.aligned {
        reach
    } else {
        let boundary = reusable_boundary(cfg, info);
        let stop = if cfg.prefix_caching && info.start < boundary && boundary < reach {
            boundary
        } else {
            reach
        };
        let lower = stop / (cfg.block_size as int) * cfg.block_size;
        if stop < info.len && lower > info.start {
            lower
        } else {
            stop
        }
    }
}

fn plan_end(cfg: &PlanConfig, info: &PromptInfo, quantum: usize) -> (r: usize)
    requires
        cfg.wf(),
        info.wf(),
    ensures
        r == planned_end(*cfg, *info, quantum as int),
        info.start <= r <= info.len,
        quantum > 0 && info.start < info.len ==> info.start < r,
        r - info.start <= quantum,
{
    let reach: usize = if quantum < info.len - info.start {
        info.start + quantum
    } else {
        info.len
    };
    if !cfg.aligned {
        return reach;
    }
    let size: usize = cfg.block_size;
    let boundary: usize = if info.len > info.replay {
        let last: usize = info.len - info.replay - 1;
        proof {
            lemma_floor(last as int, size as int);
        }
        last / size * size
    } else {
        0
    };
    let stop: usize = if cfg.prefix_caching && info.start < boundary && boundary < reach {
        boundary
    } else {
        reach
    };
    proof {
        lemma_floor(stop as int, size as int);
    }
    let lower: usize = stop / size * size;
    if stop < info.len && lower > info.start {
        lower
    } else {
        stop
    }
}

pub proof fn lemma_floor(n: int, size: int)
    requires
        0 <= n,
        size > 0,
    ensures
        0 <= n / size * size <= n,
        (n / size * size) % size == 0,
{
    assert(0 <= n / size * size <= n && (n / size * size) % size == 0) by (nonlinear_arith)
        requires
            0 <= n,
            size > 0,
    ;
}

/// The prompts in the order of their turn: from the one whose turn it is.
pub open spec fn rotated(prompts: Seq<PromptInfo>, next: Option<usize>) -> Seq<PromptInfo> {
    let s = turn(prompts, next);
    prompts.skip(s) + prompts.take(s)
}

/// Where the prompt stands whose turn it is.
pub open spec fn turn(prompts: Seq<PromptInfo>, next: Option<usize>) -> int {
    match next {
        Some(id) => match find_prompt(prompts, id, 0) {
            Some(i) => i,
            None => 0,
        },
        None => 0,
    }
}

/// The first prompt from `from` on that has the given id.
pub open spec fn find_prompt(prompts: Seq<PromptInfo>, id: usize, from: int) -> Option<int>
    decreases prompts.len() - from,
{
    if from >= prompts.len() {
        None
    } else if prompts[from].id == id {
        Some(from)
    } else {
        find_prompt(prompts, id, from + 1)
    }
}

/// The turn is that of some prompt, if there is one.
pub proof fn lemma_turn(prompts: Seq<PromptInfo>, next: Option<usize>)
    ensures
        0 <= turn(prompts, next) <= prompts.len(),
        prompts.len() > 0 ==> turn(prompts, next) < prompts.len(),
{
    if let Some(id) = next {
        lemma_found(prompts, id, 0);
    }
}

proof fn lemma_found(prompts: Seq<PromptInfo>, id: usize, from: int)
    requires
        0 <= from,
    ensures
        find_prompt(prompts, id, from) matches Some(i) ==> from <= i < prompts.len(),
    decreases prompts.len() - from,
{
    if from < prompts.len() && prompts[from].id != id {
        lemma_found(prompts, id, from + 1);
    }
}

/// A selection in progress: the places taken, and the tokens.
pub struct Selection {
    pub places: Seq<int>,
    pub total: int,
    pub longest: int,
    pub closed: bool,
}

/// How many tokens of one prompt a batch computes, where prompts are cut on their
/// own.
pub open spec fn prompt_quantum(cfg: PlanConfig) -> int {
    let cut = cfg.recurrent || cfg.mixed;
    let q = if cut && cfg.quantum < cfg.budget {
        cfg.quantum
    } else {
        cfg.budget
    };
    if q > 0 {
        q as int
    } else {
        1
    }
}

/// Whether one more part fits in the budget. Parts behind cached tokens are
/// padded to the longest.
pub open spec fn fits(cfg: PlanConfig, sel: Selection, start: int, size: int) -> bool {
    let longest = if size > sel.longest {
        size
    } else {
        sel.longest
    };
    if start > 0 && !cfg.recurrent {
        (sel.places.len() + 1) * longest <= cfg.budget
    } else {
        sel.total + size <= cfg.budget
    }
}

/// Whether a part can join a batch of parts that are cut on their own: it ends its
/// prompt if the first does, and has the length of the first where the batch is
/// not packed or parts carry a state on.
pub open spec fn joins(cfg: PlanConfig, first: PromptInfo, other: PromptInfo) -> bool {
    let q = prompt_quantum(cfg);
    let a = planned_end(cfg, first, q);
    let b = planned_end(cfg, other, q);
    &&& compatible(cfg, first, other)
    &&& !other.media_pending
    &&& (a == first.len) == (b == other.len)
    &&& a - first.start == b - other.start || (cfg.packed && (!cfg.recurrent || b == other.len))
}

/// The selection among the first `k` prompts, where prompts are cut on their own.
/// The first is always taken; the batch is closed by the first part that does not
/// fit.
pub open spec fn picked(cfg: PlanConfig, prompts: Seq<PromptInfo>, k: int) -> Selection
    decreases k,
{
    if k <= 0 {
        Selection { places: Seq::empty(), total: 0, longest: 0, closed: false }
    } else {
        let sel = picked(cfg, prompts, k - 1);
        let p = prompts[k - 1];
        let size = planned_end(cfg, p, prompt_quantum(cfg)) - p.start;
        let grown = Selection {
            places: sel.places.push(k - 1),
            total: sel.total + size,
            longest: if size > sel.longest {
                size
            } else {
                sel.longest
            },
            closed: false,
        };
        if sel.places.len() == 0 {
            grown
        } else if sel.closed || !joins(cfg, prompts[0], p) {
            sel
        } else if sel.places.len() >= cfg.max_num_seqs || !fits(cfg, sel, p.start as int, size) {
            Selection { closed: true, ..sel }
        } else {
            grown
        }
    }
}

/// How many prompts share a budget evenly at most.
pub open spec fn even_limit(cfg: PlanConfig) -> int {
    let n = if cfg.budget < cfg.max_num_seqs {
        cfg.budget
    } else {
        cfg.max_num_seqs
    };
    if n > 0 {
        n as int
    } else {
        1
    }
}

/// The selection among the first `k` prompts, where the budget is shared evenly.
pub open spec fn shared(cfg: PlanConfig, prompts: Seq<PromptInfo>, k: int) -> Seq<int>
    decreases k,
{
    if k <= 0 {
        Seq::empty()
    } else {
        let sel = shared(cfg, prompts, k - 1);
        if sel.len() == 0 {
            sel.push(k - 1)
        } else if sel.len() < even_limit(cfg) && compatible(cfg, prompts[0], prompts[k - 1])
            && !(cfg.visible_chunks && prompts[k - 1].media_pending) {
            sel.push(k - 1)
        } else {
            sel
        }
    }
}

/// The part of a budget that each of `n` prompts gets.
pub open spec fn even_share(budget: int, n: int) -> int {
    let share = budget / n;
    if share > 0 {
        share
    } else {
        1
    }
}

/// Whether some prompt has tokens that stand for media.
pub open spec fn any_features(prompts: Seq<PromptInfo>) -> bool {
    exists|i: int| 0 <= i < prompts.len() && (#[trigger] prompts[i]).has_features
}

/// How a batch is made up.
#[derive(Debug, Clone, Copy, PartialEq, Eq, Structural)]
pub enum PlanKind {
    /// Nothing to do.
    Empty,
    /// One prompt as a whole.
    Alone,
    /// Whole prompts; the share of each is a hint.
    Whole,
    /// Parts of an even share.
    Even,
    /// Parts that are cut on their own.
    Own,
}

/// How a batch of these prompts is made up.
pub open spec fn kind_of(cfg: PlanConfig, prompts: Seq<PromptInfo>) -> PlanKind {
    if prompts.len() == 0 {
        PlanKind::Empty
    } else if !cfg.visible_chunks {
        PlanKind::Whole
    } else if prompts[0].atomic() {
        PlanKind::Alone
    } else if cfg.recurrent || (cfg.packed && !cfg.uniform && !any_features(prompts)) {
        PlanKind::Own
    } else {
        PlanKind::Even
    }
}

/// The places of a batch, in the order of their turn.
pub open spec fn places(cfg: PlanConfig, prompts: Seq<PromptInfo>) -> Seq<int> {
    match kind_of(cfg, prompts) {
        PlanKind::Empty => Seq::empty(),
        PlanKind::Alone => seq![0],
        PlanKind::Own => picked(cfg, prompts, prompts.len() as int).places,
        PlanKind::Whole => shared(cfg, prompts, prompts.len() as int),
        PlanKind::Even => shared(cfg, prompts, prompts.len() as int),
    }
}

/// How many tokens of a prompt a batch computes.
pub open spec fn batch_quantum(cfg: PlanConfig, prompts: Seq<PromptInfo>) -> int {
    match kind_of(cfg, prompts) {
        PlanKind::Own => prompt_quantum(cfg),
        _ => even_share(cfg.budget as int, places(cfg, prompts).len() as int),
    }
}

/// The part that is computed of the prompt in a place.
pub open spec fn chunk_at(cfg: PlanConfig, prompts: Seq<PromptInfo>, place: int) -> (int, int) {
    (prompts[place].start as int, planned_end(cfg, prompts[place], batch_quantum(cfg, prompts)))
}

/// The length that a batch reports for its parts.
pub open spec fn reported_size(cfg: PlanConfig, prompts: Seq<PromptInfo>) -> Option<int> {
    match kind_of(cfg, prompts) {
        PlanKind::Empty => None,
        PlanKind::Alone => None,
        PlanKind::Own => Some(picked(cfg, prompts, prompts.len() as int).longest),
        PlanKind::Whole => Some(batch_quantum(cfg, prompts)),
        PlanKind::Even => Some(batch_quantum(cfg, prompts)),
    }
}

/// The first place from `from` on that a batch leaves out.
pub open spec fn first_left_out(chosen: Seq<int>, n: int, from: int) -> Option<int>
    decreases n - from,
{
    if from >= n {
        None
    } else if !chosen.contains(from) {
        Some(from)
    } else {
        first_left_out(chosen, n, from + 1)
    }
}

/// Whose turn it is after a batch.
pub open spec fn next_turn(cfg: PlanConfig, prompts: Seq<PromptInfo>) -> Option<usize> {
    match first_left_out(places(cfg, prompts), prompts.len() as int, 0) {
        Some(i) => Some(prompts[i].id),
        None => None,
    }
}

/// A planned batch.
pub struct PromptBatch {
    /// The sequences, in the order of their turn.
    pub scheduled: Vec<usize>,
    pub chunk_size: Option<usize>,
    /// The part of each, where prompts are cut.
    pub chunks: Option<Vec<PromptChunk>>,
    /// The sequence whose turn is next.
    pub next: Option<usize>,
}

impl PromptBatch {
    /// The batch is the one planned for the given prompts.
    pub open spec fn is_planned(self, cfg: PlanConfig, prompts: Seq<PromptInfo>) -> bool {
        let chosen = places(cfg, prompts);
        &&& self.scheduled@.len() == chosen.len()
        &&& forall|i: int|
            0 <= i < chosen.len() ==> #[trigger] self.scheduled@[i] == prompts[chosen[i]].id
        &&& match reported_size(cfg, prompts) {
            Some(n) => self.chunk_size is Some && self.chunk_size->0 == n,
            None => self.chunk_size is None,
        }
        &&& match kind_of(cfg, prompts) {
            PlanKind::Own | PlanKind::Even => {
                &&& self.chunks is Some
                &&& self.chunks->0@.len() == chosen.len()
                &&& forall|i: int|
                    0 <= i < chosen.len() ==> (#[trigger] self.chunks->0@[i]).start == chunk_at(
                        cfg,
                        prompts,
                        chosen[i],
                    ).0 && self.chunks->0@[i].end == chunk_at(cfg, prompts, chosen[i]).1
            },
            _ => self.chunks is None,
        }
        &&& self.next == next_turn(cfg, prompts)
    }
}

fn quantum_of(cfg: &PlanConfig) -> (r: usize)
    ensures
        r == prompt_quantum(*cfg),
        r > 0,
{
    let cut: bool = cfg.recurrent || cfg.mixed;
    let q: usize = if cut && cfg.quantum < cfg.budget {
        cfg.quantum
    } else {
        cfg.budget
    };
    if q > 0 {
        q
    } else {
        1
    }
}

fn can_join(cfg: &PlanConfig, first: &PromptInfo, other: &PromptInfo) -> (r: bool)
    requires
        cfg.wf(),
        first.wf(),
        other.wf(),
    ensures
        r == joins(*cfg, *first, *other),
{
    let q: usize = quantum_of(cfg);
    let a: usize = plan_end(cfg, first, q);
    let b: usize = plan_end(cfg, other, q);
    if !is_compatible(cfg, first, other) || other.media_pending {
        return false;
    }
    if (a == first.len) != (b == other.len) {
        return false;
    }
    a - first.start == b - other.start || (cfg.packed && (!cfg.recurrent || b == other.len))
}

/// All prompts are well formed.
pub open spec fn all_wf(prompts: Seq<PromptInfo>) -> bool {
    forall|i: int| 0 <= i < prompts.len() ==> (#[trigger] prompts[i]).wf()
}

/// The places as numbers.
pub open spec fn as_places(v: Seq<usize>) -> Seq<int> {
    Seq::new(v.len(), |i: int| v[i] as int)
}

pub proof fn lemma_picked(cfg: PlanConfig, prompts: Seq<PromptInfo>, k: int)
    requires
        cfg.wf(),
        all_wf(prompts),
        0 <= k <= prompts.len(),
    ensures
        ({
            let sel = picked(cfg, prompts, k);
            &&& k > 0 ==> sel.places.len() > 0 && sel.places[0] == 0
            &&& sel.places.len() <= k
            &&& forall|i: int| 0 <= i < sel.places.len() ==> 0 <= #[trigger] sel.places[i] < k
            &&& 0 <= sel.longest
            &&& sel.longest <= prompt_quantum(cfg)
            &&& 0 <= sel.total <= sel.places.len() * sel.longest
            &&& sel.places.len() <= 1 || sel.total <= cfg.budget
        }),
    decreases k,
{
    if k > 0 {
        lemma_picked(cfg, prompts, k - 1);
        let before = picked(cfg, prompts, k - 1);
        let sel = picked(cfg, prompts, k);
        let p = prompts[k - 1];
        let q = prompt_quantum(cfg);
        lemma_planned_end(cfg, p, q);
        let size = planned_end(cfg, p, q) - p.start;
        let n = before.places.len() as int;
        let longest = if size > before.longest {
            size
        } else {
            before.longest
        };
        assert(before.total + size <= (n + 1) * longest) by (nonlinear_arith)
            requires
                0 <= before.total <= n * before.longest,
                0 <= n,
                0 <= before.longest <= longest,
                0 <= size <= longest,
        ;
    }
}

pub proof fn lemma_planned_end(cfg: PlanConfig, info: PromptInfo, quantum: int)
    requires
        cfg.wf(),
        info.wf(),
        quantum > 0,
    ensures
        info.start <= planned_end(cfg, info, quantum) <= info.len,
        info.start < info.len ==> info.start < planned_end(cfg, info, quantum),
        planned_end(cfg, info, quantum) - info.start <= quantum,
{
    let size = cfg.block_size as int;
    if info.len > info.replay {
        lemma_floor(info.len - info.replay - 1, size);
    }
    let reach = if info.start + quantum < info.len {
        info.start + quantum
    } else {
        info.len as int
    };
    let boundary = reusable_boundary(cfg, info);
    let stop = if cfg.prefix_caching && info.start < boundary && boundary < reach {
        boundary
    } else {
        reach
    };
    lemma_floor(stop, size);
}

fn pick(cfg: &PlanConfig, prompts: &Vec<PromptInfo>) -> (r: (Vec<usize>, usize))
    requires
        cfg.wf(),
        all_wf(prompts@),
    ensures
        as_places(r.0@) == picked(*cfg, prompts@, prompts@.len() as int).places,
        r.1 == picked(*cfg, prompts@, prompts@.len() as int).longest,
{
    let n: usize = prompts.len();
    let q: usize = quantum_of(cfg);
    let mut chosen: Vec<usize> = Vec::new();
    let mut total: usize = 0;
    let mut longest: usize = 0;
    let mut closed: bool = false;
    let mut k: usize = 0;
    assert(as_places(chosen@) =~= picked(*cfg, prompts@, 0).places);
    while k < n
        invariant
            k <= n == prompts@.len(),
            cfg.wf(),
            all_wf(prompts@),
            q == prompt_quantum(*cfg),
            q > 0,
            as_places(chosen@) == picked(*cfg, prompts@, k as int).places,
            total == picked(*cfg, prompts@, k as int).total,
            longest == picked(*cfg, prompts@, k as int).longest,
            closed == picked(*cfg, prompts@, k as int).closed,
        decreases n - k,
    {
        let ghost sel = picked(*cfg, prompts@, k as int);
        proof {
            lemma_picked(*cfg, prompts@, k as int);
            lemma_picked(*cfg, prompts@, k + 1);
        }
        let p: PromptInfo = prompts[k];
        let size: usize = plan_end(cfg, &p, q) - p.start;
        let count: usize = chosen.len();
        assert(count == sel.places.len());
        let larger: usize = if size > longest {
            size
        } else {
            longest
        };
        if count == 0 {
            chosen.push(k);
            total = size;
            longest = size;
            assert(as_places(chosen@) =~= sel.places.push(k as int));
            assert(sel.total == 0 && sel.longest == 0) by {
                if k > 0 {
                    assert(sel.places.len() > 0);
                }
            }
        } else if !closed && can_join(cfg, &prompts[0], &p) {
            let room: bool = if p.start > 0 && !cfg.recurrent {
                proof {
                    let a = count as int + 1;
                    let b = larger as int;
                    let c = cfg.budget as int;
                    if b > 0 {
                        assert(a * b <= c <==> a <= c / b) by (nonlinear_arith)
                            requires
                                b > 0,
                                a >= 0,
                                c >= 0,
                        ;
                    } else {
                        assert(a * b == 0) by (nonlinear_arith)
                            requires
                                b == 0,
                        ;
                    }
                }
                larger == 0 || count < cfg.budget / larger
            } else {
                total <= cfg.budget && size <= cfg.budget - total
            };
            assert(room == fits(*cfg, sel, p.start as int, size as int));
            if count >= cfg.max_num_seqs || !room {
                closed = true;
            } else {
                proof {
                    assert(sel.total + size <= (count + 1) * larger) by (nonlinear_arith)
                        requires
                            0 <= sel.total <= count * longest,
                            longest <= larger,
                            size <= larger,
                            0 <= count,
                    ;
                }
                chosen.push(k);
                total = total + size;
                longest = larger;
                assert(as_places(chosen@) =~= sel.places.push(k as int));
            }
        }
        k += 1;
    }
    (chosen, longest)
}

fn share(cfg: &PlanConfig, prompts: &Vec<PromptInfo>) -> (r: Vec<usize>)
    requires
        all_wf(prompts@),
    ensures
        as_places(r@) == shared(*cfg, prompts@, prompts@.len() as int),
{
    let n: usize = prompts.len();
    let low: usize = if cfg.budget < cfg.max_num_seqs {
        cfg.budget
    } else {
        cfg.max_num_seqs
    };
    let limit: usize = if low > 0 {
        low
    } else {
        1
    };
    let mut chosen: Vec<usize> = Vec::new();
    let mut k: usize = 0;
    assert(as_places(chosen@) =~= shared(*cfg, prompts@, 0));
    while k < n
        invariant
            k <= n == prompts@.len(),
            all_wf(prompts@),
            limit == even_limit(*cfg),
            as_places(chosen@) == shared(*cfg, prompts@, k as int),
        decreases n - k,
    {
        let ghost sel = shared(*cfg, prompts@, k as int);
        assert(sel.len() == chosen@.len());
        if chosen.len() == 0 {
            chosen.push(k);
            assert(as_places(chosen@) =~= sel.push(k as int));
        } else if chosen.len() < limit && is_compatible(cfg, &prompts[0], &prompts[k]) && !(
        cfg.visible_chunks && prompts[k].media_pending) {
            chosen.push(k);
            assert(as_places(chosen@) =~= sel.push(k as int));
        }
        k += 1;
    }
    chosen
}

pub proof fn lemma_shared(cfg: PlanConfig, prompts: Seq<PromptInfo>, k: int)
    requires
        0 <= k <= prompts.len(),
    ensures
        ({
            let sel = shared(cfg, prompts, k);
            &&& k > 0 ==> sel.len() > 0 && sel[0] == 0
            &&& sel.len() <= even_limit(cfg)
            &&& sel.len() <= k
            &&& forall|i: int| 0 <= i < sel.len() ==> 0 <= #[trigger] sel[i] < k
        }),
    decreases k,
{
    if k > 0 {
        lemma_shared(cfg, prompts, k - 1);
    }
}

/// A batch of any prompts begins with the one whose turn it is, and holds none
/// that was not asked for.
pub proof fn law_first_in_turn_is_scheduled(cfg: PlanConfig, prompts: Seq<PromptInfo>)
    requires
        cfg.wf(),
        all_wf(prompts),
    ensures
        prompts.len() > 0 ==> places(cfg, prompts).len() > 0 && places(cfg, prompts)[0] == 0,
        places(cfg, prompts).len() <= prompts.len(),
        forall|i: int|
            0 <= i < places(cfg, prompts).len() ==> 0 <= #[trigger] places(cfg, prompts)[i]
                < prompts.len(),
{
    lemma_picked(cfg, prompts, prompts.len() as int);
    lemma_shared(cfg, prompts, prompts.len() as int);
}

/// Each part begins behind what is computed, is not empty while the prompt is not
/// finished, and ends within the prompt.
pub proof fn law_chunks_advance(cfg: PlanConfig, prompts: Seq<PromptInfo>, place: int)
    requires
        cfg.wf(),
        all_wf(prompts),
        0 <= place < prompts.len(),
    ensures
        chunk_at(cfg, prompts, place).0 == prompts[place].start,
        prompts[place].start < prompts[place].len ==> prompts[place].start < chunk_at(
            cfg,
            prompts,
            place,
        ).1,
        chunk_at(cfg, prompts, place).1 <= prompts[place].len,
        chunk_at(cfg, prompts, place).1 - prompts[place].start <= batch_quantum(cfg, prompts),
{
    lemma_planned_end(cfg, prompts[place], batch_quantum(cfg, prompts));
}

/// The tokens of some parts of a batch.
pub open spec fn batch_tokens(cfg: PlanConfig, prompts: Seq<PromptInfo>, chosen: Seq<int>) -> int
    decreases chosen.len(),
{
    if chosen.len() == 0 {
        0
    } else {
        batch_tokens(cfg, prompts, chosen.drop_last()) + (chunk_at(cfg, prompts, chosen.last()).1
            - chunk_at(cfg, prompts, chosen.last()).0)
    }
}

pub proof fn lemma_even_tokens(cfg: PlanConfig, prompts: Seq<PromptInfo>, chosen: Seq<int>)
    requires
        cfg.wf(),
        all_wf(prompts),
        forall|i: int| 0 <= i < chosen.len() ==> 0 <= #[trigger] chosen[i] < prompts.len(),
    ensures
        batch_tokens(cfg, prompts, chosen) <= chosen.len() * batch_quantum(cfg, prompts),
    decreases chosen.len(),
{
    if chosen.len() > 0 {
        let head = chosen.drop_last();
        assert(forall|i: int| 0 <= i < head.len() ==> head[i] == chosen[i]);
        lemma_even_tokens(cfg, prompts, head);
        assert(0 <= chosen[chosen.len() - 1] < prompts.len());
        law_chunks_advance(cfg, prompts, chosen.last());
        let q = batch_quantum(cfg, prompts);
        let n = chosen.len() as int;
        assert((n - 1) * q + q == n * q) by (nonlinear_arith);
    }
}

pub proof fn lemma_picked_tokens(cfg: PlanConfig, prompts: Seq<PromptInfo>, k: int)
    requires
        cfg.wf(),
        all_wf(prompts),
        kind_of(cfg, prompts) == PlanKind::Own,
        0 <= k <= prompts.len(),
    ensures
        batch_tokens(cfg, prompts, picked(cfg, prompts, k).places) == picked(cfg, prompts, k).total,
    decreases k,
{
    if k > 0 {
        lemma_picked_tokens(cfg, prompts, k - 1);
        let before = picked(cfg, prompts, k - 1);
        assert(before.places.push(k - 1).drop_last() =~= before.places);
        assert(before.places.push(k - 1).last() == k - 1);
    }
}

/// Where prompts are cut, the parts of a batch stay within its budget.
pub proof fn law_batch_stays_within_budget(cfg: PlanConfig, prompts: Seq<PromptInfo>)
    requires
        cfg.wf(),
        all_wf(prompts),
        cfg.budget > 0,
        kind_of(cfg, prompts) == PlanKind::Own || kind_of(cfg, prompts) == PlanKind::Even,
    ensures
        batch_tokens(cfg, prompts, places(cfg, prompts)) <= cfg.budget,
{
    let n = prompts.len() as int;
    let chosen = places(cfg, prompts);
    law_first_in_turn_is_scheduled(cfg, prompts);
    if kind_of(cfg, prompts) == PlanKind::Own {
        lemma_picked(cfg, prompts, n);
        lemma_picked_tokens(cfg, prompts, n);
        let sel = picked(cfg, prompts, n);
        if sel.places.len() == 1 {
            assert(sel.total <= 1 * sel.longest);
            assert(prompt_quantum(cfg) <= cfg.budget);
        }
    } else {
        lemma_shared(cfg, prompts, n);
        lemma_even_tokens(cfg, prompts, chosen);
        let m = chosen.len() as int;
        let b = cfg.budget as int;
        assert(m * (b / m) <= b && b / m > 0) by (nonlinear_arith)
            requires
                0 < m <= b,
        ;
    }
}

fn next_left_out(chosen: &Vec<usize>, prompts: &Vec<PromptInfo>) -> (r: Option<usize>)
    ensures
        match first_left_out(as_places(chosen@), prompts@.len() as int, 0) {
            Some(i) => r == Some(prompts@[i].id) && 0 <= i < prompts@.len(),
            None => r is None,
        },
{
    let n: usize = prompts.len();
    let mut i: usize = 0;
    while i < n
        invariant
            i <= n == prompts@.len(),
            first_left_out(as_places(chosen@), n as int, 0) == first_left_out(
                as_places(chosen@),
                n as int,
                i as int,
            ),
        decreases n - i,
    {
        proof {
            lemma_as_places(chosen@, i);
        }
        if !contains_index(chosen, i) {
            return Some(prompts[i].id);
        }
        i += 1;
    }
    None
}

pub proof fn lemma_as_places(v: Seq<usize>, x: usize)
    ensures
        as_places(v).contains(x as int) <==> v.contains(x),
{
    if v.contains(x) {
        let k = choose|k: int| 0 <= k < v.len() && v[k] == x;
        assert(as_places(v)[k] == x as int);
    }
    if as_places(v).contains(x as int) {
        let k = choose|k: int| 0 <= k < v.len() && as_places(v)[k] == x as int;
        assert(v[k] == x);
    }
}

fn has_features(prompts: &Vec<PromptInfo>) -> (r: bool)
    ensures
        r == any_features(prompts@),
{
    let n: usize = prompts.len();
    let mut i: usize = 0;
    while i < n
        invariant
            i <= n == prompts@.len(),
            forall|j: int| 0 <= j < i ==> !(#[trigger] prompts@[j]).has_features,
        decreases n - i,
    {
        if prompts[i].has_features {
            assert(prompts@[i as int].has_features);
            return true;
        }
        i += 1;
    }
    false
}

/// Turns the list so that it begins with the prompt whose turn it is.
pub fn rotate(prompts: &Vec<PromptInfo>, next: Option<usize>) -> (r: Vec<PromptInfo>)
    ensures
        r@ == rotated(prompts@, next),
{
    let n: usize = prompts.len();
    let mut s: usize = 0;
    let mut found: bool = false;
    if let Some(id) = next {
        while s < n && !found
            invariant
                s <= n == prompts@.len(),
                !found ==> find_prompt(prompts@, id, 0) == find_prompt(prompts@, id, s as int),
                found ==> s < n && find_prompt(prompts@, id, 0) == Some(s as int),
            decreases (n - s) + (if found { 0int } else { 1int }),
        {
            if prompts[s].id == id {
                found = true;
            } else {
                s += 1;
            }
        }
    }
    if !found {
        s = 0;
    }
    assert(s as int == turn(prompts@, next));
    let mut r: Vec<PromptInfo> = Vec::with_capacity(n);
    let mut i: usize = s;
    while i < n
        invariant
            s <= i <= n == prompts@.len(),
            r@ == prompts@.subrange(s as int, i as int),
        decreases n - i,
    {
        r.push(prompts[i]);
        i += 1;
        assert(r@ =~= prompts@.subrange(s as int, i as int));
    }
    assert(prompts@.subrange(s as int, n as int) =~= prompts@.skip(s as int));
    let mut j: usize = 0;
    while j < s
        invariant
            j <= s <= n == prompts@.len(),
            r@ == prompts@.skip(s as int) + prompts@.take(j as int),
        decreases s - j,
    {
        r.push(prompts[j]);
        j += 1;
        assert(r@ =~= prompts@.skip(s as int) + prompts@.take(j as int));
    }
    assert(r@ =~= rotated(prompts@, next));
    r
}

/// Plans a batch of prompts that stand in the order of their turn.
pub fn plan_batch(cfg: &PlanConfig, prompts: &Vec<PromptInfo>) -> (r: PromptBatch)
    requires
        cfg.wf(),
        all_wf(prompts@),
    ensures
        r.is_planned(*cfg, prompts@),
{
    let n: usize = prompts.len();
    proof {
        law_first_in_turn_is_scheduled(*cfg, prompts@);
    }
    if n == 0 {
        let none: Vec<usize> = Vec::new();
        return PromptBatch { scheduled: none, chunk_size: None, chunks: None, next: None };
    }
    let kind: PlanKind = if !cfg.visible_chunks {
        PlanKind::Whole
    } else if prompts[0].is_atomic() {
        PlanKind::Alone
    } else if cfg.recurrent || (cfg.packed && !cfg.uniform && !has_features(prompts)) {
        PlanKind::Own
    } else {
        PlanKind::Even
    };
    assert(kind == kind_of(*cfg, prompts@));
    let (chosen, longest): (Vec<usize>, usize) = match kind {
        PlanKind::Own => pick(cfg, prompts),
        PlanKind::Alone => (vec![0], 0),
        _ => (share(cfg, prompts), 0),
    };
    assert(as_places(chosen@) =~= places(*cfg, prompts@));
    let count: usize = chosen.len();
    assert(count > 0);
    let quantum: usize = match kind {
        PlanKind::Own => quantum_of(cfg),
        _ => {
            let part: usize = cfg.budget / count;
            if part > 0 {
                part
            } else {
                1
            }
        },
    };
    assert(quantum == batch_quantum(*cfg, prompts@));
    let mut scheduled: Vec<usize> = Vec::with_capacity(count);
    let mut parts: Vec<PromptChunk> = Vec::with_capacity(count);
    let mut i: usize = 0;
    while i < count
        invariant
            i <= count == chosen@.len(),
            cfg.wf(),
            all_wf(prompts@),
            quantum == batch_quantum(*cfg, prompts@),
            as_places(chosen@) == places(*cfg, prompts@),
            forall|j: int|
                0 <= j < places(*cfg, prompts@).len() ==> 0 <= #[trigger] places(
                    *cfg,
                    prompts@,
                )[j] < prompts@.len(),
            scheduled@.len() == i,
            parts@.len() == i,
            forall|j: int|
                0 <= j < i ==> #[trigger] scheduled@[j] == prompts@[places(*cfg, prompts@)[j]].id,
            forall|j: int|
                0 <= j < i ==> (#[trigger] parts@[j]).start == chunk_at(
                    *cfg,
                    prompts@,
                    places(*cfg, prompts@)[j],
                ).0 && parts@[j].end == chunk_at(*cfg, prompts@, places(*cfg, prompts@)[j]).1,
        decreases count - i,
    {
        let place: usize = chosen[i];
        assert(place as int == as_places(chosen@)[i as int]);
        assert(places(*cfg, prompts@)[i as int] == place as int);
        let p: PromptInfo = prompts[place];
        scheduled.push(p.id);
        parts.push(PromptChunk { start: p.start, end: plan_end(cfg, &p, quantum) });
        i += 1;
    }
    let next: Option<usize> = next_left_out(&chosen, prompts);
    let (chunk_size, chunks): (Option<usize>, Option<Vec<PromptChunk>>) = match kind {
        PlanKind::Own => (Some(longest), Some(parts)),
        PlanKind::Even => (Some(quantum), Some(parts)),
        PlanKind::Whole => (Some(quantum), None),
        _ => (None, None),
    };
    PromptBatch { scheduled, chunk_size, chunks, next }
}

} // verus!
