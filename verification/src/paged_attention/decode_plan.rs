//! Which sequences share the next decode step.

use vstd::prelude::*;

use crate::lists::contains_index;
use crate::paged_attention::prompt_plan::{as_places, first_left_out};

verus! {

/// What planning needs to know of a sequence that decodes.
#[derive(Debug, Clone, Copy, PartialEq, Eq, Structural)]
pub struct DecodeRow {
    pub id: usize,
    /// The tokens that were guessed for it.
    pub staged: usize,
}

/// What a step is planned by.
#[derive(Debug, Clone, Copy, PartialEq, Eq, Structural)]
pub struct DecodeConfig {
    /// The tokens that the step may compute.
    pub budget: usize,
    pub max_num_seqs: usize,
}

/// Where the row stands whose turn it is.
pub open spec fn cursor_in(n: int, cursor: int) -> int {
    if cursor < n {
        cursor
    } else {
        0
    }
}

/// The rows in the order of their turn.
pub open spec fn rows_in_turn(rows: Seq<DecodeRow>, cursor: int) -> Seq<DecodeRow> {
    let s = cursor_in(rows.len() as int, cursor);
    rows.skip(s) + rows.take(s)
}

/// A selection in progress.
pub struct RowSelection {
    pub places: Seq<int>,
    pub total: int,
    pub closed: bool,
}

/// The selection among the first `k` rows. A step takes rows with guesses or rows
/// without, as the first one is; the first is always taken, and the step is closed
/// by the first row that does not fit.
pub open spec fn taken(cfg: DecodeConfig, rows: Seq<DecodeRow>, k: int) -> RowSelection
    decreases k,
{
    if k <= 0 {
        RowSelection { places: Seq::empty(), total: 0, closed: false }
    } else {
        let sel = taken(cfg, rows, k - 1);
        let cost = rows[k - 1].staged + 1;
        if sel.places.len() == 0 {
            RowSelection { places: sel.places.push(k - 1), total: cost, closed: false }
        } else if sel.closed || (rows[k - 1].staged > 0) != (rows[0].staged > 0) {
            sel
        } else if sel.places.len() >= cfg.max_num_seqs || sel.total + cost > cfg.budget {
            RowSelection { closed: true, ..sel }
        } else {
            RowSelection {
                places: sel.places.push(k - 1),
                total: sel.total + cost,
                closed: false,
            }
        }
    }
}

/// The places of a step, in the order of their turn.
pub open spec fn step_places(cfg: DecodeConfig, rows: Seq<DecodeRow>, cursor: int) -> Seq<int> {
    taken(cfg, rows_in_turn(rows, cursor), rows.len() as int).places
}

/// The sequences of a step, in the order of their turn.
pub open spec fn step_ids(cfg: DecodeConfig, rows: Seq<DecodeRow>, cursor: int) -> Seq<usize> {
    let turn = rows_in_turn(rows, cursor);
    let chosen = step_places(cfg, rows, cursor);
    Seq::new(chosen.len(), |i: int| turn[chosen[i]].id)
}

/// Where the turn goes on: at the first row that the step leaves out, or where it
/// was.
pub open spec fn next_cursor(cfg: DecodeConfig, rows: Seq<DecodeRow>, cursor: int) -> int {
    let n = rows.len() as int;
    let s = cursor_in(n, cursor);
    match first_left_out(step_places(cfg, rows, cursor), n, 0) {
        Some(i) => if s + i < n {
            s + i
        } else {
            s + i - n
        },
        None => s,
    }
}

proof fn lemma_taken(cfg: DecodeConfig, rows: Seq<DecodeRow>, k: int)
    requires
        0 <= k <= rows.len(),
    ensures
        ({
            let sel = taken(cfg, rows, k);
            &&& k > 0 ==> sel.places.len() > 0 && sel.places[0] == 0
            &&& k == 0 ==> sel.places.len() == 0
            &&& sel.places.len() <= k
            &&& forall|i: int| 0 <= i < sel.places.len() ==> 0 <= #[trigger] sel.places[i] < k
            &&& sel.places.len() <= 1 || sel.total <= cfg.budget
            &&& sel.places.len() == 1 ==> sel.total == rows[0].staged + 1
        }),
    decreases k,
{
    if k > 0 {
        lemma_taken(cfg, rows, k - 1);
    }
}

/// A step takes the row whose turn it is, only rows that are there, and no more
/// tokens than its budget unless one row alone exceeds it.
pub proof fn law_step_takes_the_turn(cfg: DecodeConfig, rows: Seq<DecodeRow>, cursor: int)
    requires
        cursor >= 0,
    ensures
        rows.len() > 0 ==> step_places(cfg, rows, cursor).len() > 0 && step_places(
            cfg,
            rows,
            cursor,
        )[0] == 0,
        step_places(cfg, rows, cursor).len() <= rows.len(),
        forall|i: int|
            0 <= i < step_places(cfg, rows, cursor).len() ==> 0 <= #[trigger] step_places(
                cfg,
                rows,
                cursor,
            )[i] < rows.len(),
        step_places(cfg, rows, cursor).len() <= 1 || taken(
            cfg,
            rows_in_turn(rows, cursor),
            rows.len() as int,
        ).total <= cfg.budget,
{
    lemma_taken(cfg, rows_in_turn(rows, cursor), rows.len() as int);
}

proof fn lemma_left_out(chosen: Seq<int>, n: int, from: int)
    requires
        0 <= from <= n,
    ensures
        match first_left_out(chosen, n, from) {
            Some(i) => from <= i < n && !chosen.contains(i),
            None => true,
        },
    decreases n - from,
{
    if from < n && chosen.contains(from) {
        lemma_left_out(chosen, n, from + 1);
    }
}

/// The turn goes on with a row that the step left out, so that every row gets its
/// turn; the cursor stays within the rows.
pub proof fn law_turn_goes_on_with_a_row_left_out(
    cfg: DecodeConfig,
    rows: Seq<DecodeRow>,
    cursor: int,
)
    requires
        cursor >= 0,
        rows.len() > 0,
    ensures
        0 <= next_cursor(cfg, rows, cursor) < rows.len(),
        step_places(cfg, rows, cursor).len() < rows.len() ==> next_cursor(cfg, rows, cursor)
            != cursor_in(rows.len() as int, cursor),
{
    let n = rows.len() as int;
    let chosen = step_places(cfg, rows, cursor);
    law_step_takes_the_turn(cfg, rows, cursor);
    lemma_left_out(chosen, n, 0);
    assert(chosen[0] == 0);
    assert(chosen.contains(0));
    if first_left_out(chosen, n, 0) is None && chosen.len() < n {
        lemma_all_chosen(chosen, n, 0);
        lemma_too_few(chosen, n);
    }
}

proof fn lemma_all_chosen(chosen: Seq<int>, n: int, from: int)
    requires
        0 <= from <= n,
        first_left_out(chosen, n, from) is None,
    ensures
        forall|i: int| from <= i < n ==> chosen.contains(i),
    decreases n - from,
{
    if from < n {
        lemma_all_chosen(chosen, n, from + 1);
    }
}

proof fn lemma_too_few(chosen: Seq<int>, n: int)
    requires
        0 <= n,
        forall|i: int| 0 <= i < n ==> chosen.contains(i),
    ensures
        chosen.len() >= n,
{
    let wanted = vstd::set_lib::set_int_range(0, n);
    vstd::set_lib::lemma_int_range(0, n);
    assert(wanted.subset_of(chosen.to_set())) by {
        assert forall|i: int| wanted.contains(i) implies chosen.to_set().contains(i) by {
            assert(chosen.contains(i));
        }
    }
    vstd::set_lib::lemma_len_subset(wanted, chosen.to_set());
    vstd::seq_lib::seq_to_set_is_finite(chosen);
    chosen.lemma_cardinality_of_set();
}

/// A planned step.
pub struct DecodeStep {
    pub ids: Vec<usize>,
    pub next_cursor: usize,
}

/// Plans the next decode step.
pub fn plan_step(cfg: &DecodeConfig, rows: &Vec<DecodeRow>, cursor: usize) -> (r: DecodeStep)
    ensures
        r.ids@ == step_ids(*cfg, rows@, cursor as int),
        r.next_cursor == next_cursor(*cfg, rows@, cursor as int),
{
    let n: usize = rows.len();
    let s: usize = if cursor < n {
        cursor
    } else {
        0
    };
    let ghost turn = rows_in_turn(rows@, cursor as int);
    let mut chosen: Vec<usize> = Vec::new();
    let mut ids: Vec<usize> = Vec::new();
    let mut total: usize = 0;
    let mut closed: bool = false;
    let mut over: bool = false;
    let mut k: usize = 0;
    assert(as_places(chosen@) =~= taken(*cfg, turn, 0).places);
    while k < n
        invariant
            k <= n == rows@.len(),
            s == cursor_in(n as int, cursor as int),
            s < n || n == 0,
            turn == rows_in_turn(rows@, cursor as int),
            turn.len() == n,
            as_places(chosen@) == taken(*cfg, turn, k as int).places,
            taken(*cfg, turn, k as int).places.len() == 0 ==> !over,
            taken(*cfg, turn, k as int).places.len() > 0 ==> if over {
                taken(*cfg, turn, k as int).total > cfg.budget
            } else {
                total == taken(*cfg, turn, k as int).total
            },
            closed == taken(*cfg, turn, k as int).closed,
            ids@.len() == chosen@.len(),
            forall|i: int|
                0 <= i < ids@.len() ==> #[trigger] ids@[i] == turn[chosen@[i] as int].id,
        decreases n - k,
    {
        let ghost sel = taken(*cfg, turn, k as int);
        proof {
            lemma_taken(*cfg, turn, k as int);
        }
        let place: usize = if k < n - s {
            s + k
        } else {
            k - (n - s)
        };
        assert(turn[k as int] == rows@[place as int]);
        let row: DecodeRow = rows[place];
        let staged: usize = row.staged;
        assert(sel.places.len() == chosen@.len());
        if chosen.len() == 0 {
            chosen.push(k);
            ids.push(row.id);
            if staged < usize::MAX {
                total = staged + 1;
            } else {
                over = true;
            }
            assert(as_places(chosen@) =~= sel.places.push(k as int));
        } else {
            assert(turn[0] == rows@[s as int]);
            let first_staged: bool = rows[s].staged > 0;
            if !closed && (staged > 0) == first_staged {
                let room: bool = !over && total <= cfg.budget && staged < cfg.budget - total;
                if chosen.len() >= cfg.max_num_seqs || !room {
                    closed = true;
                } else {
                    chosen.push(k);
                    ids.push(row.id);
                    total = total + staged + 1;
                    assert(as_places(chosen@) =~= sel.places.push(k as int));
                }
            }
        }
        k += 1;
    }
    proof {
        assert(ids@ =~= step_ids(*cfg, rows@, cursor as int)) by {
            assert forall|i: int| 0 <= i < ids@.len() implies ids@[i] == step_ids(
                *cfg,
                rows@,
                cursor as int,
            )[i] by {
                assert(as_places(chosen@)[i] == chosen@[i] as int);
            }
        }
    }
    let next_cursor: usize = match find_left_out(&chosen, n) {
        Some(i) => if i < n - s {
            s + i
        } else {
            i - (n - s)
        },
        None => s,
    };
    DecodeStep { ids, next_cursor }
}

fn find_left_out(chosen: &Vec<usize>, n: usize) -> (r: Option<usize>)
    ensures
        match first_left_out(as_places(chosen@), n as int, 0) {
            Some(i) => r is Some && r->0 == i && i < n,
            None => r is None,
        },
{
    let mut i: usize = 0;
    while i < n
        invariant
            i <= n,
            first_left_out(as_places(chosen@), n as int, 0) == first_left_out(
                as_places(chosen@),
                n as int,
                i as int,
            ),
        decreases n - i,
    {
        proof {
            crate::paged_attention::prompt_plan::lemma_as_places(chosen@, i);
        }
        if !contains_index(chosen, i) {
            return Some(i);
        }
        i += 1;
    }
    None
}

/// The tokens that rows take of a step: one each, and those that were guessed.
pub open spec fn step_tokens(rows: Seq<DecodeRow>) -> int
    decreases rows.len(),
{
    if rows.len() == 0 {
        0
    } else {
        step_tokens(rows.drop_last()) + rows.last().staged + 1
    }
}

/// The row that comes up after so many others, from the cursor on and round.
pub open spec fn row_after(rows: Seq<DecodeRow>, cursor: int, i: int) -> DecodeRow {
    let s = if cursor < rows.len() {
        cursor
    } else {
        0
    };
    rows[(s + i) % (rows.len() as int)]
}

/// The rows in some places, counted from the cursor on.
pub open spec fn rows_at(rows: Seq<DecodeRow>, cursor: int, at: Seq<int>) -> Seq<DecodeRow> {
    Seq::new(at.len(), |i: int| row_after(rows, cursor, at[i]))
}

proof fn lemma_row_after(rows: Seq<DecodeRow>, cursor: int, i: int)
    requires
        0 <= cursor,
        0 <= i < rows.len(),
    ensures
        rows_in_turn(rows, cursor)[i] == row_after(rows, cursor, i),
{
    let n = rows.len() as int;
    let s = cursor_in(n, cursor);
    if s + i < n {
        vstd::arithmetic::div_mod::lemma_small_mod((s + i) as nat, n as nat);
    } else {
        crate::axes::lemma_digits(1, s + i - n, n);
        assert((s + i) % n == s + i - n);
    }
}

proof fn lemma_taken_in_turn(cfg: DecodeConfig, rows: Seq<DecodeRow>, k: int)
    requires
        0 <= k <= rows.len(),
    ensures
        ({
            let sel = taken(cfg, rows, k);
            let at = sel.places;
            &&& forall|i: int, j: int| 0 <= i < j < at.len() ==> at[i] < at[j]
            &&& forall|i: int|
                0 <= i < at.len() ==> (rows[#[trigger] at[i]].staged > 0) == (rows[0].staged > 0)
            &&& at.len() <= 1 || at.len() <= cfg.max_num_seqs
            &&& sel.total == step_tokens(Seq::new(at.len(), |i: int| rows[at[i]]))
            &&& forall|p: int|
                0 <= p < k && !#[trigger] at.contains(p) && (rows[p].staged > 0) == (rows[0].staged
                    > 0) ==> sel.closed
            &&& sel.closed ==> at.len() >= cfg.max_num_seqs || exists|q: int|
                0 <= q < k && !#[trigger] at.contains(q) && (rows[q].staged > 0) == (rows[0].staged
                    > 0) && sel.total + rows[q].staged + 1 > cfg.budget
        }),
    decreases k,
{
    if k > 0 {
        lemma_taken_in_turn(cfg, rows, k - 1);
        lemma_taken(cfg, rows, k - 1);
        let before = taken(cfg, rows, k - 1);
        let sel = taken(cfg, rows, k);
        let (a, b) = (before.places, sel.places);
        let old_rows = Seq::new(a.len(), |i: int| rows[a[i]]);
        let new_rows = Seq::new(b.len(), |i: int| rows[b[i]]);
        if b.len() > a.len() {
            assert(b == a.push(k - 1));
            assert(b[a.len() as int] == k - 1);
            assert(b.contains(k - 1));
            assert(new_rows.drop_last() =~= old_rows);
            assert forall|p: int|
                0 <= p < k && !#[trigger] b.contains(p) && (rows[p].staged > 0) == (rows[0].staged
                    > 0) implies sel.closed by {
                if a.contains(p) {
                    let i = choose|i: int| 0 <= i < a.len() && a[i] == p;
                    assert(b[i] == p);
                }
            }
        } else {
            assert(new_rows =~= old_rows);
            assert(!a.contains(k - 1));
            if sel.closed && before.closed && a.len() < cfg.max_num_seqs {
                let q = choose|q: int|
                    0 <= q < k - 1 && !#[trigger] a.contains(q) && (rows[q].staged > 0) == (
                    rows[0].staged > 0) && before.total + rows[q].staged + 1 > cfg.budget;
                assert(!b.contains(q));
            } else if sel.closed {
                assert(!b.contains(k - 1));
            }
        }
    } else {
        assert(Seq::new(0, |i: int| rows[taken(cfg, rows, 0).places[i]]).len() == 0);
    }
}

/// A step takes rows from the cursor on and round, each at most once: the row whose turn it is,
/// and others that have guesses if it has and none if it has none, as many as are allowed and
/// as fit the budget. Whoever of them is left out finds the step full, or somebody of them no
/// longer fits. The turn then goes on with the first row left out, or stays where all were
/// taken.
pub proof fn law_steps_take_rows_in_turn(
    cfg: &DecodeConfig,
    rows: &Vec<DecodeRow>,
    cursor: usize,
    r: DecodeStep,
) -> (at: Seq<int>)
    requires
        call_ensures(plan_step, (cfg, rows, cursor), r),
    ensures
        ({
            let n = rows@.len() as int;
            let c = cursor as int;
            let guessed = row_after(rows@, c, 0).staged > 0;
            &&& r.ids@.len() == at.len()
            &&& at.len() > 0 <==> n > 0
            &&& at.len() > 0 ==> at[0] == 0
            &&& forall|i: int| 0 <= i < at.len() ==> 0 <= #[trigger] at[i] < n
            &&& forall|i: int, j: int| 0 <= i < j < at.len() ==> at[i] < at[j]
            &&& forall|i: int|
                0 <= i < at.len() ==> #[trigger] r.ids@[i] == row_after(rows@, c, at[i]).id
            &&& forall|i: int|
                0 <= i < at.len() ==> (row_after(rows@, c, #[trigger] at[i]).staged > 0) == guessed
            &&& at.len() <= 1 || at.len() <= cfg.max_num_seqs
            &&& at.len() <= 1 || step_tokens(rows_at(rows@, c, at)) <= cfg.budget
            &&& forall|p: int|
                0 <= p < n && !#[trigger] at.contains(p) && (row_after(rows@, c, p).staged > 0)
                    == guessed ==> at.len() >= cfg.max_num_seqs || exists|q: int|
                    0 <= q < n && !#[trigger] at.contains(q) && (row_after(rows@, c, q).staged > 0)
                        == guessed && step_tokens(rows_at(rows@, c, at)) + row_after(
                        rows@,
                        c,
                        q,
                    ).staged + 1 > cfg.budget
            &&& n > 0 ==> r.next_cursor < n
            &&& at.len() < n ==> exists|j: int|
                0 <= j < n && !#[trigger] at.contains(j) && (forall|i: int|
                    0 <= i < j ==> #[trigger] at.contains(i)) && rows@[r.next_cursor as int]
                    == row_after(rows@, c, j) && r.next_cursor == (cursor_in(n, c) + j) % n
            &&& at.len() == n && n > 0 ==> r.next_cursor == cursor_in(n, c)
        }),
{
    let n = rows@.len() as int;
    let c = cursor as int;
    let turn = rows_in_turn(rows@, c);
    let sel = taken(*cfg, turn, n);
    let at = sel.places;
    lemma_taken(*cfg, turn, n);
    lemma_taken_in_turn(*cfg, turn, n);
    assert forall|i: int| 0 <= i < n implies #[trigger] turn[i] == row_after(rows@, c, i) by {
        lemma_row_after(rows@, c, i);
    }
    assert(Seq::new(at.len(), |i: int| turn[at[i]]) =~= rows_at(rows@, c, at));
    assert forall|i: int| 0 <= i < at.len() implies #[trigger] r.ids@[i] == row_after(
        rows@,
        c,
        at[i],
    ).id by {
        assert(turn[at[i]] == row_after(rows@, c, at[i]));
    }
    assert forall|p: int|
        0 <= p < n && !#[trigger] at.contains(p) && (row_after(rows@, c, p).staged > 0) == (
        row_after(rows@, c, 0).staged > 0) implies at.len() >= cfg.max_num_seqs || exists|q: int|
        0 <= q < n && !#[trigger] at.contains(q) && (row_after(rows@, c, q).staged > 0) == (
        row_after(rows@, c, 0).staged > 0) && step_tokens(rows_at(rows@, c, at)) + row_after(
            rows@,
            c,
            q,
        ).staged + 1 > cfg.budget by {
        assert(turn[p] == row_after(rows@, c, p) && turn[0] == row_after(rows@, c, 0));
        assert(sel.closed);
        if at.len() < cfg.max_num_seqs {
            let q = choose|q: int|
                0 <= q < n && !#[trigger] at.contains(q) && (turn[q].staged > 0) == (turn[0].staged
                    > 0) && sel.total + turn[q].staged + 1 > cfg.budget;
            assert(!at.contains(q) && turn[q] == row_after(rows@, c, q));
        }
    }
    if n > 0 {
        law_turn_goes_on_with_a_row_left_out(*cfg, rows@, c);
        let s = cursor_in(n, c);
        lemma_first_left_out(at, n, 0);
        if let Some(j) = first_left_out(at, n, 0) {
            assert(!at.contains(j));
            if s + j < n {
                vstd::arithmetic::div_mod::lemma_small_mod((s + j) as nat, n as nat);
            } else {
                crate::axes::lemma_digits(1, s + j - n, n);
            }
            if at.len() == n {
                lemma_all_in_their_places(at, n, j);
                assert(at[j] == j);
            }
        } else {
            lemma_all_chosen(at, n, 0);
            lemma_too_few(at, n);
        }
    }
    at
}

proof fn lemma_first_left_out(chosen: Seq<int>, n: int, from: int)
    requires
        0 <= from,
    ensures
        first_left_out(chosen, n, from) matches Some(i) ==> from <= i < n && !chosen.contains(i)
            && forall|j: int| from <= j < i ==> #[trigger] chosen.contains(j),
    decreases n - from,
{
    if from < n && chosen.contains(from) {
        lemma_first_left_out(chosen, n, from + 1);
    }
}

/// An increasing list of as many places as there are has each in its place.
proof fn lemma_all_in_their_places(at: Seq<int>, n: int, i: int)
    requires
        at.len() == n,
        0 <= i < n,
        forall|i: int| 0 <= i < n ==> 0 <= #[trigger] at[i] < n,
        forall|i: int, j: int| 0 <= i < j < n ==> at[i] < at[j],
    ensures
        at[i] == i,
{
    lemma_no_less(at, i);
    lemma_no_more(at, n, i);
}

proof fn lemma_no_less(at: Seq<int>, i: int)
    requires
        0 <= i < at.len(),
        at[0] >= 0,
        forall|i: int, j: int| 0 <= i < j < at.len() ==> at[i] < at[j],
    ensures
        at[i] >= i,
    decreases i,
{
    if i > 0 {
        lemma_no_less(at, i - 1);
        assert(at[i - 1] < at[i]);
    }
}

proof fn lemma_no_more(at: Seq<int>, n: int, i: int)
    requires
        0 <= i < at.len() == n,
        at[n - 1] < n,
        forall|i: int, j: int| 0 <= i < j < n ==> at[i] < at[j],
    ensures
        at[i] <= i,
    decreases n - i,
{
    if i < n - 1 {
        lemma_no_more(at, n, i + 1);
        assert(at[i] < at[i + 1]);
    }
}

} // verus!
