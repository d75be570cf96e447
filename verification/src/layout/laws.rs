//! What plans and tasks of convolutions come to.

use vstd::arithmetic::div_mod::{lemma_fundamental_div_mod, lemma_mod_pos_bound};
use vstd::prelude::*;

use crate::layout::conv::{
    conv_computable, conv_fits, conv_planned, conv_task, group_end, group_start, lemma_root,
    pointwise_computable, pointwise_fits, pointwise_planned, pointwise_task, progress, root,
    tail_columns, ConvPlan, ConvTask, Dims4, PointwisePlan, TileStep,
    law_every_output_sees_every_channel,
};
use crate::layout::planes::out_size;
use crate::layout::pool::{own_pool_threads, pool_threads};
use crate::layout::vectors::law_chunks_part_the_columns;
use crate::layout::{Act, Activation, LANES, L1_INPUT_FLOATS, L2_WEIGHT_FLOATS, PW_CHUNK, SEG_W};
use crate::ops::{ceil_div, law_rounding_up_is_enough};

verus! {

/// An output is as large as it can be: the kernel of its last place lies within the padded input,
/// and that of a further one would not.
pub proof fn law_outputs_fill_the_input(n: int, k: int, s: int, p: int)
    requires
        s > 0,
        0 <= k <= n + 2 * p,
    ensures
        out_size(n, k, s, p) >= 1,
        (out_size(n, k, s, p) - 1) * s + k <= n + 2 * p < out_size(n, k, s, p) * s + k,
{
    let q = (n + 2 * p - k) / s;
    lemma_fundamental_div_mod(n + 2 * p - k, s);
    lemma_mod_pos_bound(n + 2 * p - k, s);
    assert(q >= 0 && q * s <= n + 2 * p - k < (q + 1) * s) by (nonlinear_arith)
        requires
            n + 2 * p - k == s * q + (n + 2 * p - k) % s,
            0 <= (n + 2 * p - k) % s < s,
            n + 2 * p - k >= 0,
            s > 0,
    ;
}

/// The side of a kernel is the greatest whose square is no more than its taps.
pub proof fn law_kernels_are_square(n: nat, k: nat)
    ensures
        root(n) * root(n) <= n < (root(n) + 1) * (root(n) + 1),
        root(k * k) == k,
{
    lemma_root(n);
    lemma_root(k * k);
    let r = root(k * k);
    assert(r == k) by (nonlinear_arith)
        requires
            r * r <= k * k,
            k * k < (r + 1) * (r + 1),
            r >= 0,
            k >= 0,
    ;
}

/// The groups of a plan hold all tiles, as few groups as it takes, and each group no more weights
/// than fit the cache, unless it is one tile; a group that is not all tiles could not hold one
/// more.
proof fn lemma_groups(tiles: int, floats: int, group: int, groups: int, limit: int)
    requires
        tiles > 0,
        floats > 0,
        limit >= 0,
        group == crate::layout::conv::clamped(limit / floats, 1, tiles),
        groups == ceil_div(tiles as nat, group as nat),
    ensures
        1 <= group <= tiles,
        group == 1 || group * floats <= limit,
        group == tiles || (group + 1) * floats > limit,
        (groups - 1) * group < tiles <= groups * group,
{
    let q = limit / floats;
    lemma_fundamental_div_mod(limit, floats);
    lemma_mod_pos_bound(limit, floats);
    assert(q * floats <= limit < (q + 1) * floats) by (nonlinear_arith)
        requires
            limit == floats * q + limit % floats,
            0 <= limit % floats < floats,
    ;
    if group < q {
        assert(group * floats <= q * floats) by (nonlinear_arith)
            requires
                group < q,
                floats > 0,
        ;
    }
    if group > q {
        assert((group + 1) * floats >= (q + 1) * floats) by (nonlinear_arith)
            requires
                group > q,
                floats > 0,
        ;
    }
    law_rounding_up_is_enough(tiles as nat, group as nat);
}

/// A dense convolution has an output for each place where its kernel lies within the padded input,
/// and tiles for all output channels; its tasks are all tiles, cut by the caches.
pub proof fn law_convolutions_are_planned_to_fit(
    plan: ConvPlan,
    x: Dims4,
    wt: Dims4,
    s: int,
    p: int,
)
    requires
        conv_fits(x, wt),
        conv_computable(x, wt, s, p),
        conv_planned(plan, x, wt, s, p),
        p >= 0,
    ensures
        plan.k * plan.k == wt.d2,
        (plan.ho - 1) * s + plan.k <= x.d2 + 2 * p < plan.ho * s + plan.k,
        (plan.wo - 1) * s + plan.k <= x.d3 + 2 * p < plan.wo * s + plan.k,
        plan.o == 4 * wt.d0,
        plan.tile_floats == 4 * (x.d1 * (plan.k * plan.k)),
        1 <= plan.group <= wt.d0,
        plan.group == 1 || plan.group * plan.tile_floats <= 32768,
        plan.group == wt.d0 || (plan.group + 1) * plan.tile_floats > 32768,
        (plan.groups - 1) * plan.group < wt.d0 <= plan.groups * plan.group,
        4 <= plan.ic_block,
        plan.ic_block == 4 || plan.ic_block <= x.d1,
        plan.ic_block == 4 || plan.ic_block * (s * s * ceil_div(plan.k as nat, s as nat) * (48
            + plan.k)) <= 6144,
        plan.ic_block >= x.d1 || (plan.ic_block + 1) * (s * s * ceil_div(plan.k as nat, s as nat)
            * (48 + plan.k)) > 6144,
{
    law_outputs_fill_the_input(x.d2 as int, plan.k as int, s, p);
    law_outputs_fill_the_input(x.d3 as int, plan.k as int, s, p);
    assert(plan.tile_floats > 0) by (nonlinear_arith)
        requires
            plan.tile_floats == x.d1 * wt.d2 * 4,
            x.d1 > 0,
            wt.d2 > 0,
    ;
    lemma_groups(
        wt.d0 as int,
        plan.tile_floats as int,
        plan.group as int,
        plan.groups as int,
        L2_WEIGHT_FLOATS as int,
    );
    let k = plan.k as int;
    let rows = s * s * ceil_div(k as nat, s as nat);
    let d = rows * (SEG_W + k);
    assert(k > 0) by (nonlinear_arith)
        requires
            k * k == wt.d2,
            wt.d2 > 0,
            k >= 0,
    ;
    law_rounding_up_is_enough(k as nat, s as nat);
    assert(ceil_div(k as nat, s as nat) > 0) by (nonlinear_arith)
        requires
            ceil_div(k as nat, s as nat) * (s as nat) >= k as nat,
            k > 0,
            s > 0,
    ;
    assert(d > 0) by (nonlinear_arith)
        requires
            d == rows * (48 + k),
            rows == s * s * ceil_div(k as nat, s as nat),
            s > 0,
            ceil_div(k as nat, s as nat) > 0,
            k > 0,
    ;
    let q = L1_INPUT_FLOATS as int / d;
    lemma_fundamental_div_mod(6144, d);
    lemma_mod_pos_bound(6144, d);
    assert(d * q <= 6144 < (q + 1) * d && q * d == d * q) by (nonlinear_arith)
        requires
            6144 == d * q + 6144int % d,
            0 <= 6144int % d < d,
    ;
    let b = plan.ic_block as int;
    if b <= q {
        assert(b * d <= q * d) by (nonlinear_arith)
            requires
                b <= q,
                d > 0,
        ;
    }
    if b >= q {
        assert((b + 1) * d >= (q + 1) * d) by (nonlinear_arith)
            requires
                b >= q,
                d > 0,
        ;
    }
}

/// A pointwise convolution has an output for each pixel; whole vectors of them are cut into runs,
/// and less than a vector is left.
pub proof fn law_pointwise_convolutions_are_planned_to_fit(
    plan: PointwisePlan,
    x: Dims4,
    wt: Dims4,
)
    requires
        pointwise_fits(x, wt),
        pointwise_computable(x, wt),
        pointwise_planned(plan, x, wt),
    ensures
        plan.o == 4 * wt.d0,
        plan.hw == x.d2 * x.d3,
        plan.tile_floats == 4 * x.d1,
        1 <= plan.group <= wt.d0,
        plan.group == 1 || plan.group * plan.tile_floats <= 32768,
        plan.group == wt.d0 || (plan.group + 1) * plan.tile_floats > 32768,
        (plan.groups - 1) * plan.group < wt.d0 <= plan.groups * plan.group,
        plan.body as int % 8 == 0,
        plan.body <= plan.hw < plan.body + 8,
        plan.chunks * 192 >= plan.body,
        plan.body > 0 ==> (plan.chunks - 1) * 192 < plan.body,
        plan.ic_block == (if x.d1 < 4 {
            4
        } else if x.d1 > 128 {
            128
        } else {
            x.d1 as int
        }),
{
    lemma_groups(
        wt.d0 as int,
        plan.tile_floats as int,
        plan.group as int,
        plan.groups as int,
        L2_WEIGHT_FLOATS as int,
    );
    law_rounding_up_is_enough(plan.body as nat, PW_CHUNK as nat);
}

proof fn lemma_in_group(group: int, tiles: int, g: int, tile: int)
    requires
        group > 0,
        0 <= tile < tiles,
        0 <= g,
    ensures
        group_start(group, g) <= tile < group_end(group, tiles, g) <==> tile / group == g,
{
    lemma_fundamental_div_mod(tile, group);
    lemma_mod_pos_bound(tile, group);
    let (q, r) = (tile / group, tile % group);
    if q == g {
        assert(g * group <= tile < (g + 1) * group) by (nonlinear_arith)
            requires
                tile == group * q + r,
                0 <= r < group,
                q == g,
        ;
    } else if q < g {
        assert(tile < g * group) by (nonlinear_arith)
            requires
                tile == group * q + r,
                0 <= r < group,
                q + 1 <= g,
        ;
    } else {
        assert(tile >= (g + 1) * group) by (nonlinear_arith)
            requires
                tile == group * q + r,
                0 <= r < group,
                q >= g + 1,
        ;
    }
}

/// A task of a dense convolution brings one output row of the tiles of one group over all input
/// channels, at every column, and touches no other tile.
pub proof fn law_tasks_compute_rows_of_a_group(
    plan: ConvPlan,
    c: usize,
    tiles: usize,
    task: usize,
    r: ConvTask,
    tile: int,
    x: int,
)
    requires
        plan.ic_block > 0,
        plan.group > 0,
        plan.ho > 0,
        call_ensures(conv_task, (&plan, c, tiles, task), r),
        0 <= tile < tiles,
        0 <= x < plan.wo,
    ensures
        r.oy < plan.ho,
        (task - r.oy) % (plan.ho as int) == 0,
        progress(r.steps@, tile, x, 0) == (if tile / plan.group as int == task as int
            / plan.ho as int {
            Some(c as int)
        } else {
            Some(0int)
        }),
{
    let ho = plan.ho as int;
    let group = plan.group as int;
    let g = task as int / ho;
    lemma_fundamental_div_mod(task as int, ho);
    lemma_mod_pos_bound(task as int, ho);
    assert(g >= 0 && (task - r.oy) % ho == 0) by (nonlinear_arith)
        requires
            task as int == ho * g + task as int % ho,
            r.oy == task as int % ho,
            task >= 0,
            0 <= task as int % ho < ho,
            ho > 0,
    {
        vstd::arithmetic::div_mod::lemma_mod_multiples_basic(g, ho);
    }
    lemma_in_group(group, tiles as int, g, tile);
    assert(group_start(group, g) >= 0) by (nonlinear_arith)
        requires
            group > 0,
            g >= 0,
    ;
    law_every_output_sees_every_channel(
        c as int,
        plan.ic_block as int,
        group_start(group, g),
        group_end(group, tiles as int, g),
        0,
        plan.wo as int,
        tile,
        x,
        0,
    );
}

/// A task of a pointwise convolution brings one run of pixels of the tiles of one group over all
/// input channels, and touches no other pixel or tile.
pub proof fn law_tasks_compute_runs_of_a_group(
    plan: PointwisePlan,
    c: usize,
    tiles: usize,
    task: usize,
    r: Vec<TileStep>,
    tile: int,
    x: int,
)
    requires
        plan.ic_block > 0,
        plan.group > 0,
        plan.chunks > 0,
        plan.body as int == plan.hw as int / LANES as int * LANES,
        plan.chunks == ceil_div(plan.body as nat, PW_CHUNK as nat),
        call_ensures(pointwise_task, (&plan, c, tiles, task), r),
        0 <= tile < tiles,
        0 <= x < plan.body,
    ensures
        progress(r@, tile, x, 0) == (if tile / plan.group as int == task as int / plan.chunks as int
            && x / 192 == task as int % plan.chunks as int {
            Some(c as int)
        } else {
            Some(0int)
        }),
{
    let chunks = plan.chunks as int;
    let group = plan.group as int;
    let g = task as int / chunks;
    let chunk = task as int % chunks;
    lemma_mod_pos_bound(task as int, chunks);
    assert(g >= 0) by (nonlinear_arith)
        requires
            g == task as int / chunks,
            task >= 0,
            chunks > 0,
    ;
    law_chunks_part_the_columns(plan.hw as int, plan.body as int, chunks, chunk, x);
    lemma_in_group(group, tiles as int, g, tile);
    assert(group_start(group, g) >= 0) by (nonlinear_arith)
        requires
            group > 0,
            g >= 0,
    ;
    law_every_output_sees_every_channel(
        c as int,
        plan.ic_block as int,
        group_start(group, g),
        group_end(group, tiles as int, g),
        chunk * PW_CHUNK,
        crate::layout::conv::least((chunk + 1) * PW_CHUNK, plan.body as int),
        tile,
        x,
        0,
    );
}

/// Each channel of the tail holds the pixels of that channel that no whole vector holds, in order,
/// and nothing else.
pub proof fn law_tails_hold_the_last_pixels<T: Copy>(
    xb: &[T],
    c: usize,
    hw: usize,
    body: usize,
    zero: T,
    r: Vec<T>,
    ch: int,
    j: int,
)
    requires
        body <= hw < body + LANES,
        call_ensures(tail_columns::<T>, (xb, c, hw, body, zero), r),
        0 <= ch < c,
        0 <= j < 8,
    ensures
        body + j < hw ==> r@[8 * ch + j] == xb@[ch * hw + (body + j)],
        body + j >= hw ==> r@[8 * ch + j] == zero,
{
    let i = 8 * ch + j;
    assert(i / 8 == ch && i % 8 == j);
    assert(0 <= i < c * LANES);
    assert(i / (LANES as int) * hw + body + i % (LANES as int) == ch * hw + (body + j));
}

/// An output is stored as it is without an activation, and with it where it is one of those that
/// can be applied; no two activations are applied alike.
pub proof fn law_activations_are_kept_apart(
    a: Option<Activation>,
    b: Option<Activation>,
    r: Option<Act>,
    q: Option<Act>,
)
    requires
        call_ensures(Act::from_candle, (a,), r),
        call_ensures(Act::from_candle, (b,), q),
    ensures
        r is None <==> a == Some(Activation::Other),
        r == Some(Act::Identity) <==> a is None,
        r == Some(Act::Silu) <==> a == Some(Activation::Silu),
        r == q ==> a == b,
{
}

/// A shared pool has no more threads than cores, nor than the process may use, and as many as both
/// allow; there is none where the user has chosen, or the kernels are missing. A detector's own
/// pool has the threads that were asked for.
pub proof fn law_pools_use_the_cores_there_are(
    user_set: bool,
    available: bool,
    physical: usize,
    allowed: usize,
    r: Option<usize>,
    on_cpu: bool,
    threads: usize,
    own: Option<usize>,
)
    requires
        call_ensures(pool_threads, (user_set, available, physical, allowed), r),
        call_ensures(own_pool_threads, (on_cpu, threads), own),
    ensures
        r is Some <==> !user_set && available,
        r matches Some(n) ==> n <= physical && n <= allowed && (n == physical || n == allowed),
        own is Some <==> on_cpu,
        own matches Some(n) ==> n >= 1 && n >= threads && (threads >= 1 ==> n == threads) && (
        threads == 0 ==> n == 1),
{
}

} // verus!
