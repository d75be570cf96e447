//! What the steps of a convolution add up to. The numbers are read as integers, so that sums
//! are exact and their order does not matter.

use vstd::prelude::*;

use crate::layout::conv::{
    covers, law_every_output_sees_every_channel, law_steps_stay_in_bounds, progress, row_steps,
    step_in_bounds, steps_in_bounds, tail_step, PointwisePlan, TileStep,
};
use crate::layout::pack::{law_each_weight_is_in_its_tile, packed_index, plain_index, source_of};
use crate::layout::planes::{
    law_tap_reads_the_padded_input, out_size, padded, plane_cols, plane_rows, planes_fit,
    planes_len, tap_offset, value_at, PhasePlanes,
};
use crate::layout::{LANES, OC_T, SLACK};

verus! {

/// The sum of the terms from one number to another.
pub open spec fn sum_of(term: spec_fn(int) -> int, from: int, to: int) -> int
    decreases to - from,
{
    if from >= to {
        0
    } else {
        sum_of(term, from, to - 1) + term(to - 1)
    }
}

proof fn lemma_sum_joined(term: spec_fn(int) -> int, from: int, mid: int, to: int)
    requires
        from <= mid <= to,
    ensures
        sum_of(term, from, mid) + sum_of(term, mid, to) == sum_of(term, from, to),
    decreases to - mid,
{
    if mid < to {
        lemma_sum_joined(term, from, mid, to - 1);
    }
}

proof fn lemma_same_sum(a: spec_fn(int) -> int, b: spec_fn(int) -> int, from: int, to: int)
    requires
        forall|i: int| from <= i < to ==> #[trigger] a(i) == b(i),
    ensures
        sum_of(a, from, to) == sum_of(b, from, to),
    decreases to - from,
{
    if from < to {
        lemma_same_sum(a, b, from, to - 1);
        assert(a(to - 1) == b(to - 1));
    }
}

/// What a column of an output channel holds after steps: the first step begins with the
/// bias, the others go on with what is there, each adds the terms of its input channels, and
/// the last applies the activation.
pub open spec fn held(
    steps: Seq<TileStep>,
    tile: int,
    x: int,
    bias: int,
    act: spec_fn(int) -> int,
    term: spec_fn(int) -> int,
    before: int,
) -> int
    decreases steps.len(),
{
    if steps.len() == 0 {
        before
    } else {
        let there = held(steps.drop_last(), tile, x, bias, act, term, before);
        let step = steps.last();
        if covers(step, tile, x) {
            let begun = if step.start == 0 {
                bias
            } else {
                there
            };
            let sum = begun + sum_of(term, step.start as int, step.end as int);
            if step.last {
                act(sum)
            } else {
                sum
            }
        } else {
            there
        }
    }
}

proof fn lemma_held(
    steps: Seq<TileStep>,
    c: int,
    t: int,
    tiles: int,
    lo: int,
    hi: int,
    tile: int,
    x: int,
    bias: int,
    act: spec_fn(int) -> int,
    term: spec_fn(int) -> int,
    before: int,
)
    requires
        c > 0,
        steps_in_bounds(steps, c, t, tiles, lo, hi),
        progress(steps, tile, x, 0) is Some,
    ensures
        ({
            let seen = progress(steps, tile, x, 0)->0;
            let sum = bias + sum_of(term, 0, seen);
            &&& 0 <= seen <= c
            &&& held(steps, tile, x, bias, act, term, before) == (if seen == 0 {
                before
            } else if seen == c {
                act(sum)
            } else {
                sum
            })
        }),
    decreases steps.len(),
{
    if steps.len() > 0 {
        let head = steps.drop_last();
        let step = steps.last();
        assert(step_in_bounds(steps[steps.len() - 1], c, t, tiles, lo, hi));
        assert forall|i: int| 0 <= i < head.len() implies step_in_bounds(
            #[trigger] head[i],
            c,
            t,
            tiles,
            lo,
            hi,
        ) by {
            assert(head[i] == steps[i]);
        }
        lemma_held(head, c, t, tiles, lo, hi, tile, x, bias, act, term, before);
        if covers(step, tile, x) {
            lemma_sum_joined(term, 0, step.start as int, step.end as int);
        }
    }
}

/// Every column of every tile of a row ends with the activation of the bias and the terms of
/// all input channels, whatever it held before; no other column is changed.
pub proof fn law_steps_add_up_all_channels(
    c: int,
    ic_block: int,
    t: int,
    tiles: int,
    lo: int,
    hi: int,
    tile: int,
    x: int,
    bias: int,
    act: spec_fn(int) -> int,
    term: spec_fn(int) -> int,
    before: int,
)
    requires
        ic_block > 0,
        0 < c <= usize::MAX,
        0 <= t,
        tiles <= usize::MAX,
        0 <= lo,
        hi <= usize::MAX,
    ensures
        held(row_steps(c, ic_block, t, tiles, lo, hi), tile, x, bias, act, term, before) == (if t
            <= tile < tiles && lo <= x < hi {
            act(bias + sum_of(term, 0, c))
        } else {
            before
        }),
{
    let steps = row_steps(c, ic_block, t, tiles, lo, hi);
    law_every_output_sees_every_channel(c, ic_block, t, tiles, lo, hi, tile, x, 0);
    law_steps_stay_in_bounds(c, ic_block, t, tiles, lo, hi);
    lemma_held(steps, c, t, tiles, lo, hi, tile, x, bias, act, term, before);
}

/// The terms of an input channel of a convolution: the weights of an output channel times
/// the padded input under the kernel.
pub open spec fn conv_term<T>(
    val: spec_fn(T) -> int,
    wt: Seq<T>,
    x: Seq<T>,
    zero: T,
    c: int,
    h: int,
    w: int,
    k: int,
    s: int,
    p: int,
    oc: int,
    oy: int,
    ox: int,
) -> spec_fn(int) -> int {
    |ic: int|
        sum_of(
            |tap: int|
                val(wt[plain_index(c, k * k, oc, ic, tap)]) * val(
                    padded(x, h, w, p, zero, ic, oy * s + tap / k, ox * s + tap % k),
                ),
            0,
            k * k,
        )
}

/// The terms as the steps of a row read them: packed weights times the phase planes.
pub open spec fn read_term<T>(
    val: spec_fn(T) -> int,
    packed: Seq<T>,
    planes: PhasePlanes<T>,
    c: int,
    k: int,
    s: int,
    oc: int,
    oy: int,
    ox: int,
) -> spec_fn(int) -> int {
    |ic: int|
        sum_of(
            |tap: int|
                val(packed[packed_index(c, k * k, oc, ic, tap)]) * val(
                    planes.data@[ic * (planes.hs * planes.ws) + oy * planes.ws + ox + tap_offset(
                        c,
                        k,
                        s,
                        planes.hs as int,
                        planes.ws as int,
                        tap,
                    )],
                ),
            0,
            k * k,
        )
}

/// The steps of an output row compute the convolution: over packed weights and phase planes,
/// each column of each output channel ends with the activation of its bias plus the sum, over
/// all input channels and all taps, of the weight times the padded input under the kernel.
pub proof fn law_direct_convolution_is_the_convolution<T>(
    val: spec_fn(T) -> int,
    act: spec_fn(int) -> int,
    wt: Seq<T>,
    packed: Seq<T>,
    bias: int,
    planes: PhasePlanes<T>,
    x: Seq<T>,
    zero: T,
    o: int,
    c: int,
    h: int,
    w: int,
    k: int,
    s: int,
    p: int,
    ic_block: int,
    t: int,
    tiles: int,
    oc: int,
    oy: int,
    ox: int,
    before: int,
)
    requires
        o % OC_T as int == 0,
        wt.len() >= packed.len() == o * c * (k * k),
        forall|i: int|
            0 <= i < packed.len() ==> #[trigger] packed[i] == wt[source_of(c, k * k, i)],
        planes_fit(c, h, w, s, p),
        h >= 0,
        w >= 0,
        p >= 0,
        planes.hs == plane_rows(h, s, p),
        planes.ws == plane_cols(w, s, p),
        planes.data@.len() == planes_len(c, h, w, s, p) + SLACK,
        forall|i: int|
            0 <= i < planes_len(c, h, w, s, p) ==> #[trigger] planes.data@[i] == value_at(
                x,
                c,
                h,
                w,
                s,
                p,
                zero,
                planes.hs as int,
                planes.ws as int,
                i,
            ),
        0 < k <= h + 2 * p,
        k <= w + 2 * p,
        ic_block > 0,
        0 < c <= usize::MAX,
        0 <= t,
        tiles <= usize::MAX,
        out_size(w, k, s, p) <= usize::MAX,
        0 <= oc < o,
        t <= oc / OC_T as int,
        oc / (OC_T as int) < tiles,
        0 <= oy < out_size(h, k, s, p),
        0 <= ox < out_size(w, k, s, p),
    ensures
        held(
            row_steps(c, ic_block, t, tiles, 0, out_size(w, k, s, p)),
            oc / OC_T as int,
            ox,
            bias,
            act,
            read_term(val, packed, planes, c, k, s, oc, oy, ox),
            before,
        ) == act(
            bias + sum_of(conv_term(val, wt, x, zero, c, h, w, k, s, p, oc, oy, ox), 0, c),
        ),
{
    let read = read_term(val, packed, planes, c, k, s, oc, oy, ox);
    let wanted = conv_term(val, wt, x, zero, c, h, w, k, s, p, oc, oy, ox);
    law_steps_add_up_all_channels(
        c,
        ic_block,
        t,
        tiles,
        0,
        out_size(w, k, s, p),
        oc / OC_T as int,
        ox,
        bias,
        act,
        read,
        before,
    );
    assert forall|ic: int| 0 <= ic < c implies #[trigger] read(ic) == wanted(ic) by {
        let a = |tap: int|
            val(packed[packed_index(c, k * k, oc, ic, tap)]) * val(
                planes.data@[ic * (planes.hs * planes.ws) + oy * planes.ws + ox + tap_offset(
                    c,
                    k,
                    s,
                    planes.hs as int,
                    planes.ws as int,
                    tap,
                )],
            );
        let b = |tap: int|
            val(wt[plain_index(c, k * k, oc, ic, tap)]) * val(
                padded(x, h, w, p, zero, ic, oy * s + tap / k, ox * s + tap % k),
            );
        assert forall|tap: int| 0 <= tap < k * k implies #[trigger] a(tap) == b(tap) by {
            law_each_weight_is_in_its_tile(o, c, k * k, oc, ic, tap);
            law_tap_reads_the_padded_input(
                planes,
                x,
                c,
                h,
                w,
                s,
                p,
                k,
                zero,
                ic,
                oy,
                ox,
                tap,
            );
        }
        lemma_same_sum(a, b, 0, k * k);
    }
    lemma_same_sum(read, wanted, 0, c);
}

/// The terms of a pointwise convolution at a pixel: the weight of each input channel times
/// the input there.
pub open spec fn pointwise_term<T>(
    val: spec_fn(T) -> int,
    wt: Seq<T>,
    xb: Seq<T>,
    c: int,
    hw: int,
    oc: int,
    x: int,
) -> spec_fn(int) -> int {
    |ic: int| val(wt[plain_index(c, 1, oc, ic, 0)]) * val(xb[ic * hw + x])
}

/// The steps of a pointwise convolution compute it: each column of a stretch of each output
/// channel ends with the activation of its bias plus the sum, over all input channels, of
/// the weight times the input there. So does the step of a tile over the columns behind the
/// last whole vector, which reads them where they were put aside.
pub proof fn law_pointwise_convolution_is_the_convolution<T>(
    val: spec_fn(T) -> int,
    act: spec_fn(int) -> int,
    wt: Seq<T>,
    packed: Seq<T>,
    bias: int,
    xb: Seq<T>,
    aside: Seq<T>,
    plan: PointwisePlan,
    o: int,
    c: usize,
    t: int,
    tiles: int,
    lo: int,
    hi: int,
    oc: int,
    x: int,
    before: int,
)
    requires
        o % OC_T as int == 0,
        wt.len() >= packed.len() == o * c,
        forall|i: int|
            0 <= i < packed.len() ==> #[trigger] packed[i] == wt[source_of(c as int, 1, i)],
        plan.ic_block > 0,
        plan.body <= plan.hw < plan.body + LANES,
        aside.len() == c * LANES,
        forall|i: int|
            0 <= i < c * LANES && i % (LANES as int) < plan.hw - plan.body ==> #[trigger] aside[i]
                == xb[i / LANES as int * plan.hw + plan.body + i % LANES as int],
        0 < c,
        0 <= t,
        tiles <= usize::MAX,
        0 <= lo,
        hi <= usize::MAX,
        0 <= oc < o,
        t <= oc / OC_T as int,
        oc / (OC_T as int) < tiles,
    ensures
        ({
            let read = |ic: int|
                val(packed[packed_index(c as int, 1, oc, ic, 0)]) * val(xb[ic * plan.hw + x]);
            let read_aside = |ic: int|
                val(packed[packed_index(c as int, 1, oc, ic, 0)]) * val(
                    aside[ic * LANES + (x - plan.body)],
                );
            let whole = act(
                bias + sum_of(
                    pointwise_term(val, wt, xb, c as int, plan.hw as int, oc, x),
                    0,
                    c as int,
                ),
            );
            let tile = oc / OC_T as int;
            &&& lo <= x < hi ==> held(
                row_steps(c as int, plan.ic_block as int, t, tiles, lo, hi),
                tile,
                x,
                bias,
                act,
                read,
                before,
            ) == whole
            &&& plan.body <= x < plan.hw ==> held(
                seq![tail_step(plan, c, tile as usize)],
                tile,
                x - plan.body,
                bias,
                act,
                read_aside,
                before,
            ) == whole
        }),
{
    let read = |ic: int|
        val(packed[packed_index(c as int, 1, oc, ic, 0)]) * val(xb[ic * plan.hw + x]);
    let wanted = pointwise_term(val, wt, xb, c as int, plan.hw as int, oc, x);
    let tile = oc / OC_T as int;
    assert forall|ic: int| 0 <= ic < c implies #[trigger] read(ic) == wanted(ic) by {
        law_each_weight_is_in_its_tile(o, c as int, 1, oc, ic, 0);
        assert(o * c * 1 == o * c);
    }
    lemma_same_sum(read, wanted, 0, c as int);
    law_steps_add_up_all_channels(
        c as int,
        plan.ic_block as int,
        t,
        tiles,
        lo,
        hi,
        tile,
        x,
        bias,
        act,
        read,
        before,
    );
    let one = seq![tail_step(plan, c, tile as usize)];
    assert(one.drop_last() =~= Seq::<TileStep>::empty());
    assert(one.last() == tail_step(plan, c, tile as usize));
    if plan.body <= x < plan.hw {
        let read_aside = |ic: int|
            val(packed[packed_index(c as int, 1, oc, ic, 0)]) * val(
                aside[ic * LANES + (x - plan.body)],
            );
        assert forall|ic: int| 0 <= ic < c implies #[trigger] read_aside(ic) == read(ic) by {
            let i = ic * LANES + (x - plan.body);
            assert(i / LANES as int == ic && i % LANES as int == x - plan.body);
            assert(aside[i] == xb[ic * plan.hw + plan.body + (x - plan.body)]);
        }
        lemma_same_sum(read_aside, read, 0, c as int);
        assert(covers(one.last(), tile, x - plan.body));
    }
}

} // verus!
