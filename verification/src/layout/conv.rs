//! How the work of a direct convolution is cut up: tasks write different output
//! rows, and each task goes through its row by segments, channel blocks, tiles and
//! register tiles.

use vstd::arithmetic::div_mod::*;
use vstd::prelude::*;

use crate::layout::planes::out_size;
use crate::layout::{
    LANES, L1_INPUT_FLOATS, L2_WEIGHT_FLOATS, MAX_XV, MIN_IC_BLOCK, OC_T, PW_CHUNK, SEG_W,
};
use crate::ops::{ceil_div, div_ceil};
use crate::text::{list_text, push_list};

verus! {

/// Four dimensions.
#[derive(Debug, Clone, Copy, PartialEq, Eq, Structural)]
pub struct Dims4 {
    pub d0: usize,
    pub d1: usize,
    pub d2: usize,
    pub d3: usize,
}

impl Dims4 {
    /// The dimensions in order.
    pub open spec fn list(self) -> Seq<usize> {
        seq![self.d0, self.d1, self.d2, self.d3]
    }

    fn push_to(&self, out: &mut String)
        ensures
            final(out)@ == old(out)@ + list_text(self.list()),
    {
        let dims: Vec<usize> = vec![self.d0, self.d1, self.d2, self.d3];
        assert(dims@ =~= self.list());
        push_list(out, &dims);
    }
}

/// The whole part of a square root.
pub open spec fn root(n: nat) -> nat
    decreases n,
{
    if n == 0 {
        0
    } else {
        let r = root((n - 1) as nat);
        if (r + 1) * (r + 1) <= n {
            r + 1
        } else {
            r
        }
    }
}

pub proof fn lemma_root(n: nat)
    ensures
        root(n) * root(n) <= n,
        n < (root(n) + 1) * (root(n) + 1),
    decreases n,
{
    if n > 0 {
        lemma_root((n - 1) as nat);
        let r = root((n - 1) as nat);
        let q = r + 1;
        assert(q * q < (q + 1) * (q + 1)) by (nonlinear_arith);
        if q * q <= n {
            assert(root(n) == q);
        } else {
            assert(root(n) == r);
        }
    } else {
        let z = root(n);
        assert(z * z == 0 && (z + 1) * (z + 1) == 1) by (nonlinear_arith)
            requires
                z == 0,
        ;
    }
}

fn isqrt(n: usize) -> (r: usize)
    ensures
        r == root(n as nat),
        r * r <= n,
        n < (r + 1) * (r + 1),
{
    let mut r: usize = 0;
    proof {
        lemma_root(n as nat);
    }
    let ghost top = root(n as nat) as int;
    while r < n && r + 1 <= n / (r + 1)
        invariant
            r <= n,
            r * r <= n,
            top * top <= n,
            n < (top + 1) * (top + 1),
            r <= top,
        decreases n - r,
    {
        let next: usize = r + 1;
        assert(next * next <= n) by (nonlinear_arith)
            requires
                next <= n / next,
                next > 0,
        ;
        assert(next <= top) by (nonlinear_arith)
            requires
                next * next <= n,
                n < (top + 1) * (top + 1),
                next >= 0,
                top >= 0,
        ;
        r = next;
    }
    proof {
        let s = r as int + 1;
        if r < n {
            assert(n < s * s) by (nonlinear_arith)
                requires
                    s > n as int / s,
                    s > 0,
            ;
        } else {
            assert(n < s * s) by (nonlinear_arith)
                requires
                    s == n + 1,
                    n >= 0,
            ;
        }
        assert(top < s) by (nonlinear_arith)
            requires
                top * top <= n,
                n < s * s,
                s > 0,
                top >= 0,
        ;
    }
    r
}

/// A number kept between two bounds.
pub open spec fn clamped(x: int, low: int, high: int) -> int {
    if x < low {
        low
    } else if x > high {
        high
    } else {
        x
    }
}

fn clamp(x: usize, low: usize, high: usize) -> (r: usize)
    ensures
        r == clamped(x as int, low as int, high as int),
{
    if x < low {
        low
    } else if x > high {
        high
    } else {
        x
    }
}

/// The larger of a number of channels and the smallest block.
pub open spec fn block_limit(c: int) -> int {
    if c > MIN_IC_BLOCK {
        c
    } else {
        MIN_IC_BLOCK as int
    }
}

/// How a convolution is cut up.
#[derive(Debug, Clone, Copy, PartialEq, Eq, Structural)]
pub struct ConvPlan {
    /// Output channels.
    pub o: usize,
    pub ho: usize,
    pub wo: usize,
    pub k: usize,
    /// Input channels per block.
    pub ic_block: usize,
    /// Weights per tile.
    pub tile_floats: usize,
    /// Tiles per task.
    pub group: usize,
    pub groups: usize,
}

/// Packed weights fit an input: same channels, a square kernel, whole tiles.
pub open spec fn conv_fits(x: Dims4, wt: Dims4) -> bool {
    &&& wt.d1 == x.d1
    &&& root(wt.d2 as nat) * root(wt.d2 as nat) == wt.d2
    &&& wt.d3 == OC_T
}

/// Neither input nor kernel is empty, the kernel fits the padded input, and all sizes
/// fit a machine word.
pub open spec fn conv_computable(x: Dims4, wt: Dims4, s: int, p: int) -> bool {
    let k = root(wt.d2 as nat) as int;
    &&& s > 0
    &&& x.d1 > 0
    &&& wt.d0 > 0
    &&& wt.d2 > 0
    &&& k <= x.d2 + 2 * p <= usize::MAX
    &&& k <= x.d3 + 2 * p <= usize::MAX
    &&& out_size(x.d2 as int, k, s, p) <= usize::MAX
    &&& out_size(x.d3 as int, k, s, p) <= usize::MAX
    &&& s * s <= usize::MAX
    &&& s * s * ceil_div(k as nat, s as nat) <= usize::MAX
    &&& s * s * ceil_div(k as nat, s as nat) * (SEG_W + k) <= usize::MAX
    &&& x.d1 * wt.d2 <= usize::MAX
    &&& x.d1 * wt.d2 * OC_T <= usize::MAX
    &&& wt.d0 * OC_T <= usize::MAX
}

/// The plan of a dense convolution.
pub open spec fn conv_planned(plan: ConvPlan, x: Dims4, wt: Dims4, s: int, p: int) -> bool {
    let k = root(wt.d2 as nat) as int;
    let phase_rows = s * s * ceil_div(k as nat, s as nat);
    &&& plan.o == wt.d0 * OC_T
    &&& plan.ho == out_size(x.d2 as int, k, s, p)
    &&& plan.wo == out_size(x.d3 as int, k, s, p)
    &&& plan.k == k
    &&& plan.ic_block == clamped(
        L1_INPUT_FLOATS as int / (phase_rows * (SEG_W + k)),
        MIN_IC_BLOCK as int,
        block_limit(x.d1 as int),
    )
    &&& plan.tile_floats == x.d1 * wt.d2 * OC_T
    &&& plan.group == clamped(
        L2_WEIGHT_FLOATS as int / (plan.tile_floats as int),
        1,
        wt.d0 as int,
    )
    &&& plan.groups == ceil_div(wt.d0 as nat, plan.group as nat)
}

/// The text of the refusal of weights.
pub open spec fn misfit_text(what: Seq<char>, wt: Dims4, mid: Seq<char>, x: Dims4) -> Seq<char> {
    what + list_text(wt.list()) + mid + list_text(x.list())
}

fn misfit(what: &str, wt: &Dims4, mid: &str, x: &Dims4) -> (r: String)
    ensures
        r@ == misfit_text(what@, *wt, mid@, *x),
{
    let mut text: String = what.to_string();
    wt.push_to(&mut text);
    text.append(mid);
    x.push_to(&mut text);
    text
}

/// Cuts up a dense convolution of an input `(batch, c, h, w)` with packed weights
/// `(tiles, c, k * k, channels of a tile)`. The kernels need a machine that has them.
pub fn plan_conv(x: &Dims4, wt: &Dims4, s: usize, p: usize, available: bool) -> (r: Result<
    ConvPlan,
    String,
>)
    requires
        conv_fits(*x, *wt) && available ==> conv_computable(*x, *wt, s as int, p as int),
    ensures
        match r {
            Ok(plan) => {
                &&& conv_fits(*x, *wt)
                &&& available
                &&& conv_planned(plan, *x, *wt, s as int, p as int)
                &&& plan.ic_block > 0
                &&& 0 < plan.group <= wt.d0
                &&& plan.ho > 0
                &&& plan.wo > 0
            },
            Err(text) => !(conv_fits(*x, *wt) && available) && text@ == misfit_text(
                "direct conv: packed weight "@,
                *wt,
                " does not fit input "@,
                *x,
            ),
        },
{
    let k: usize = isqrt(wt.d2);
    if wt.d1 != x.d1 || k * k != wt.d2 || wt.d3 != OC_T || !available {
        return Err(misfit("direct conv: packed weight ", wt, " does not fit input ", x));
    }
    let c: usize = x.d1;
    let tiles: usize = wt.d0;
    let ho: usize = (x.d2 + 2 * p - k) / s + 1;
    let wo: usize = (x.d3 + 2 * p - k) / s + 1;
    let phase_rows: usize = s * s * div_ceil(k, s);
    proof {
        lemma_positive_rows(k as int, s as int, phase_rows as int);
        assert(c * wt.d2 * OC_T > 0) by (nonlinear_arith)
            requires
                c > 0,
                wt.d2 > 0,
                OC_T == 4,
        ;
    }
    let limit: usize = if c > MIN_IC_BLOCK {
        c
    } else {
        MIN_IC_BLOCK
    };
    let ic_block: usize = clamp(L1_INPUT_FLOATS / (phase_rows * (SEG_W + k)), MIN_IC_BLOCK, limit);
    let tile_floats: usize = c * wt.d2 * OC_T;
    let group: usize = clamp(L2_WEIGHT_FLOATS / tile_floats, 1, tiles);
    let groups: usize = div_ceil(tiles, group);
    Ok(ConvPlan { o: tiles * OC_T, ho, wo, k, ic_block, tile_floats, group, groups })
}

proof fn lemma_positive_rows(k: int, s: int, rows: int)
    requires
        s > 0,
        k >= 0,
        k * k > 0,
        rows == s * s * ceil_div(k as nat, s as nat),
    ensures
        rows > 0,
        rows * (SEG_W + k) > 0,
        SEG_W + k <= rows * (SEG_W + k),
{
    assert(k > 0) by (nonlinear_arith)
        requires
            k * k > 0,
            k >= 0,
    ;
    let q = ceil_div(k as nat, s as nat) as int;
    assert(q > 0) by {
        lemma_fundamental_div_mod(k, s);
        lemma_mod_pos_bound(k, s);
        lemma_div_pos_is_pos(k, s);
        if k % s == 0 {
            assert(k / s > 0) by (nonlinear_arith)
                requires
                    k == s * (k / s) + 0,
                    k > 0,
                    s > 0,
            ;
        }
    }
    assert(s * s * q > 0) by (nonlinear_arith)
        requires
            s > 0,
            q > 0,
    ;
    assert(rows * (SEG_W + k) > 0 && SEG_W + k <= rows * (SEG_W + k)) by (nonlinear_arith)
        requires
            rows > 0,
            k > 0,
            SEG_W == 48,
    ;
}

/// How a pointwise convolution is cut up.
#[derive(Debug, Clone, Copy, PartialEq, Eq, Structural)]
pub struct PointwisePlan {
    pub o: usize,
    /// Pixels of a plane.
    pub hw: usize,
    pub ic_block: usize,
    pub tile_floats: usize,
    pub group: usize,
    pub groups: usize,
    /// Pixels in whole vectors: these are read in place.
    pub body: usize,
    /// Runs of pixels per group of tiles.
    pub chunks: usize,
}

/// Packed weights fit an input: same channels, one tap, whole tiles.
pub open spec fn pointwise_fits(x: Dims4, wt: Dims4) -> bool {
    wt.d1 == x.d1 && wt.d2 == 1 && wt.d3 == OC_T
}

/// Neither input channels nor tiles are missing, and all sizes fit a machine word.
pub open spec fn pointwise_computable(x: Dims4, wt: Dims4) -> bool {
    &&& x.d1 > 0
    &&& wt.d0 > 0
    &&& x.d2 * x.d3 <= usize::MAX
    &&& x.d1 * OC_T <= usize::MAX
    &&& wt.d0 * OC_T <= usize::MAX
}

/// The plan of a pointwise convolution.
pub open spec fn pointwise_planned(plan: PointwisePlan, x: Dims4, wt: Dims4) -> bool {
    &&& plan.o == wt.d0 * OC_T
    &&& plan.hw == x.d2 * x.d3
    &&& plan.ic_block == clamped(
        L1_INPUT_FLOATS as int / SEG_W as int,
        MIN_IC_BLOCK as int,
        block_limit(x.d1 as int),
    )
    &&& plan.tile_floats == x.d1 * OC_T
    &&& plan.group == clamped(
        L2_WEIGHT_FLOATS as int / (plan.tile_floats as int),
        1,
        wt.d0 as int,
    )
    &&& plan.groups == ceil_div(wt.d0 as nat, plan.group as nat)
    &&& plan.body == plan.hw as int / LANES as int * LANES
    &&& plan.chunks == ceil_div(plan.body as nat, PW_CHUNK as nat)
}

/// Cuts up a pointwise convolution of an input `(batch, c, h, w)` with packed weights
/// `(tiles, c, 1, channels of a tile)`.
pub fn plan_pointwise(x: &Dims4, wt: &Dims4, available: bool) -> (r: Result<PointwisePlan, String>)
    requires
        pointwise_fits(*x, *wt) && available ==> pointwise_computable(*x, *wt),
    ensures
        match r {
            Ok(plan) => {
                &&& pointwise_fits(*x, *wt)
                &&& available
                &&& pointwise_planned(plan, *x, *wt)
                &&& plan.ic_block > 0
                &&& 0 < plan.group <= wt.d0
                &&& plan.body <= plan.hw < plan.body + LANES
            },
            Err(text) => !(pointwise_fits(*x, *wt) && available) && text@ == misfit_text(
                "direct pointwise: packed weight "@,
                *wt,
                " does not fit input "@,
                *x,
            ),
        },
{
    if wt.d1 != x.d1 || wt.d2 != 1 || wt.d3 != OC_T || !available {
        return Err(misfit("direct pointwise: packed weight ", wt, " does not fit input ", x));
    }
    let c: usize = x.d1;
    let tiles: usize = wt.d0;
    let hw: usize = x.d2 * x.d3;
    let limit: usize = if c > MIN_IC_BLOCK {
        c
    } else {
        MIN_IC_BLOCK
    };
    let ic_block: usize = clamp(L1_INPUT_FLOATS / SEG_W, MIN_IC_BLOCK, limit);
    let tile_floats: usize = c * OC_T;
    let group: usize = clamp(L2_WEIGHT_FLOATS / tile_floats, 1, tiles);
    let groups: usize = div_ceil(tiles, group);
    let body: usize = hw / LANES * LANES;
    let chunks: usize = div_ceil(body, PW_CHUNK);
    Ok(
        PointwisePlan {
            o: tiles * OC_T,
            hw,
            ic_block,
            tile_floats,
            group,
            groups,
            body,
            chunks,
        },
    )
}

/// The size of the output of a depthwise convolution.
#[derive(Debug, Clone, Copy, PartialEq, Eq, Structural)]
pub struct DepthwisePlan {
    pub ho: usize,
    pub wo: usize,
}

/// Weights fit an input: one square kernel per channel.
pub open spec fn depthwise_fits(x: Dims4, wt: Dims4) -> bool {
    wt.d0 == x.d1 && wt.d1 == 1 && wt.d2 == wt.d3
}

/// The kernel fits the padded input, and the sizes fit a machine word.
pub open spec fn depthwise_computable(x: Dims4, wt: Dims4, s: int, p: int) -> bool {
    &&& s > 0
    &&& wt.d2 <= x.d2 + 2 * p <= usize::MAX
    &&& wt.d2 <= x.d3 + 2 * p <= usize::MAX
    &&& out_size(x.d2 as int, wt.d2 as int, s, p) <= usize::MAX
    &&& out_size(x.d3 as int, wt.d2 as int, s, p) <= usize::MAX
}

/// The size of the output of a depthwise convolution of an input `(batch, c, h, w)`
/// with weights `(c, 1, k, k)`.
pub fn plan_depthwise(x: &Dims4, wt: &Dims4, s: usize, p: usize, available: bool) -> (r: Result<
    DepthwisePlan,
    String,
>)
    requires
        depthwise_fits(*x, *wt) && available ==> depthwise_computable(
            *x,
            *wt,
            s as int,
            p as int,
        ),
    ensures
        match r {
            Ok(plan) => {
                &&& depthwise_fits(*x, *wt)
                &&& available
                &&& plan.ho == out_size(x.d2 as int, wt.d2 as int, s as int, p as int)
                &&& plan.wo == out_size(x.d3 as int, wt.d2 as int, s as int, p as int)
            },
            Err(text) => !(depthwise_fits(*x, *wt) && available) && text@ == misfit_text(
                "direct depthwise: weight "@,
                *wt,
                " vs input "@,
                *x,
            ),
        },
{
    if wt.d0 != x.d1 || wt.d1 != 1 || wt.d2 != wt.d3 || !available {
        return Err(misfit("direct depthwise: weight ", wt, " vs input ", x));
    }
    Ok(
        DepthwisePlan {
            ho: (x.d2 + 2 * p - wt.d2) / s + 1,
            wo: (x.d3 + 2 * p - wt.d2) / s + 1,
        },
    )
}

/// One register tile of work: columns `x0..x0 + n` of a tile's output channels, over
/// input channels `start..end`.
#[derive(Debug, Clone, Copy, PartialEq, Eq, Structural)]
pub struct TileStep {
    pub start: usize,
    pub end: usize,
    /// Whether these are the last channels: only then the activation is applied.
    pub last: bool,
    pub tile: usize,
    pub x0: usize,
    pub n: usize,
}

/// The columns of a full register tile.
pub open spec fn tile_width() -> int {
    MAX_XV * LANES
}

/// The lesser of two numbers.
pub open spec fn least(a: int, b: int) -> int {
    if a < b {
        a
    } else {
        b
    }
}

/// The steps of one tile over one block of channels, for columns `x0..to`.
pub open spec fn pieces(c: int, start: int, end: int, tile: int, x0: int, to: int) -> Seq<TileStep>
    decreases to - x0,
{
    if x0 >= to {
        Seq::empty()
    } else {
        let n = least(to - x0, tile_width());
        seq![
            TileStep {
                start: start as usize,
                end: end as usize,
                last: end == c,
                tile: tile as usize,
                x0: x0 as usize,
                n: n as usize,
            },
        ] + pieces(c, start, end, tile, x0 + n, to)
    }
}

/// The steps of tiles `tile..tiles` over one block of channels.
pub open spec fn tile_steps(
    c: int,
    start: int,
    end: int,
    tile: int,
    tiles: int,
    x0: int,
    to: int,
) -> Seq<TileStep>
    decreases tiles - tile,
{
    if tile >= tiles {
        Seq::empty()
    } else {
        pieces(c, start, end, tile, x0, to) + tile_steps(c, start, end, tile + 1, tiles, x0, to)
    }
}

/// The steps of tiles over the blocks of channels from `start` on.
pub open spec fn block_steps(
    c: int,
    ic_block: int,
    start: int,
    tile: int,
    tiles: int,
    x0: int,
    to: int,
) -> Seq<TileStep>
    decreases c - start,
{
    if start >= c || ic_block <= 0 {
        Seq::empty()
    } else {
        let end = least(start + ic_block, c);
        tile_steps(c, start, end, tile, tiles, x0, to) + block_steps(
            c,
            ic_block,
            end,
            tile,
            tiles,
            x0,
            to,
        )
    }
}

/// The steps of tiles `tile..tiles` for columns `lo..hi`, segment by segment.
pub open spec fn row_steps(
    c: int,
    ic_block: int,
    tile: int,
    tiles: int,
    lo: int,
    hi: int,
) -> Seq<TileStep>
    decreases hi - lo,
{
    if lo >= hi {
        Seq::empty()
    } else {
        let to = least(lo + SEG_W, hi);
        block_steps(c, ic_block, 0, tile, tiles, lo, to) + row_steps(
            c,
            ic_block,
            tile,
            tiles,
            to,
            hi,
        )
    }
}

fn push_pieces(
    out: &mut Vec<TileStep>,
    c: usize,
    start: usize,
    end: usize,
    tile: usize,
    x0: usize,
    to: usize,
)
    ensures
        final(out)@ == old(out)@ + pieces(
            c as int,
            start as int,
            end as int,
            tile as int,
            x0 as int,
            to as int,
        ),
{
    let ghost all = pieces(c as int, start as int, end as int, tile as int, x0 as int, to as int);
    let mut x: usize = x0;
    assert(out@ + all =~= old(out)@ + all);
    while x < to
        invariant
            out@ + pieces(
                c as int,
                start as int,
                end as int,
                tile as int,
                x as int,
                to as int,
            ) == old(out)@ + all,
        decreases to - x,
    {
        let full: usize = MAX_XV * LANES;
        let n: usize = if to - x < full {
            to - x
        } else {
            full
        };
        let step: TileStep = TileStep { start, end, last: end == c, tile, x0: x, n };
        let ghost before = out@;
        let ghost rest = pieces(
            c as int,
            start as int,
            end as int,
            tile as int,
            x + n,
            to as int,
        );
        out.push(step);
        assert(before + (seq![step] + rest) =~= out@ + rest);
        x = x + n;
    }
    assert(out@ =~= out@ + Seq::<TileStep>::empty());
}

fn push_tiles(
    out: &mut Vec<TileStep>,
    c: usize,
    start: usize,
    end: usize,
    tile: usize,
    tiles: usize,
    x0: usize,
    to: usize,
)
    ensures
        final(out)@ == old(out)@ + tile_steps(
            c as int,
            start as int,
            end as int,
            tile as int,
            tiles as int,
            x0 as int,
            to as int,
        ),
{
    let ghost all = tile_steps(
        c as int,
        start as int,
        end as int,
        tile as int,
        tiles as int,
        x0 as int,
        to as int,
    );
    let mut t: usize = tile;
    assert(out@ + all =~= old(out)@ + all);
    while t < tiles
        invariant
            out@ + tile_steps(
                c as int,
                start as int,
                end as int,
                t as int,
                tiles as int,
                x0 as int,
                to as int,
            ) == old(out)@ + all,
        decreases tiles - t,
    {
        let ghost before = out@;
        let ghost one = pieces(c as int, start as int, end as int, t as int, x0 as int, to as int);
        let ghost rest = tile_steps(
            c as int,
            start as int,
            end as int,
            t + 1,
            tiles as int,
            x0 as int,
            to as int,
        );
        push_pieces(out, c, start, end, t, x0, to);
        assert(before + (one + rest) =~= out@ + rest);
        t = t + 1;
    }
    assert(out@ =~= out@ + Seq::<TileStep>::empty());
}

fn push_blocks(
    out: &mut Vec<TileStep>,
    c: usize,
    ic_block: usize,
    tile: usize,
    tiles: usize,
    x0: usize,
    to: usize,
)
    requires
        ic_block > 0,
    ensures
        final(out)@ == old(out)@ + block_steps(
            c as int,
            ic_block as int,
            0,
            tile as int,
            tiles as int,
            x0 as int,
            to as int,
        ),
{
    let ghost all = block_steps(
        c as int,
        ic_block as int,
        0,
        tile as int,
        tiles as int,
        x0 as int,
        to as int,
    );
    let mut start: usize = 0;
    let mut more: bool = c > 0;
    assert(out@ + all =~= old(out)@ + all);
    while more
        invariant
            ic_block > 0,
            more ==> start < c,
            out@ + (if more {
                block_steps(
                    c as int,
                    ic_block as int,
                    start as int,
                    tile as int,
                    tiles as int,
                    x0 as int,
                    to as int,
                )
            } else {
                Seq::empty()
            }) == old(out)@ + all,
        decreases (if more { c - start } else { 0int }),
    {
        let end: usize = if ic_block < c - start {
            start + ic_block
        } else {
            c
        };
        let ghost before = out@;
        let ghost one = tile_steps(
            c as int,
            start as int,
            end as int,
            tile as int,
            tiles as int,
            x0 as int,
            to as int,
        );
        let ghost rest = block_steps(
            c as int,
            ic_block as int,
            end as int,
            tile as int,
            tiles as int,
            x0 as int,
            to as int,
        );
        push_tiles(out, c, start, end, tile, tiles, x0, to);
        assert(before + (one + rest) =~= out@ + rest);
        if end < c {
            start = end;
        } else {
            more = false;
            assert(rest =~= Seq::<TileStep>::empty());
        }
    }
    assert(out@ =~= out@ + Seq::<TileStep>::empty());
}

/// The steps of tiles `tile..tiles` for columns `lo..hi`, in the order in which they
/// are done.
pub fn steps_of_row(
    c: usize,
    ic_block: usize,
    tile: usize,
    tiles: usize,
    lo: usize,
    hi: usize,
) -> (r: Vec<TileStep>)
    requires
        ic_block > 0,
    ensures
        r@ == row_steps(
            c as int,
            ic_block as int,
            tile as int,
            tiles as int,
            lo as int,
            hi as int,
        ),
{
    let mut out: Vec<TileStep> = Vec::new();
    let ghost all = row_steps(
        c as int,
        ic_block as int,
        tile as int,
        tiles as int,
        lo as int,
        hi as int,
    );
    let mut seg: usize = lo;
    let mut more: bool = lo < hi;
    assert(out@ + all =~= all);
    while more
        invariant
            ic_block > 0,
            more ==> seg < hi,
            out@ + (if more {
                row_steps(
                    c as int,
                    ic_block as int,
                    tile as int,
                    tiles as int,
                    seg as int,
                    hi as int,
                )
            } else {
                Seq::empty()
            }) == all,
        decreases (if more { hi - seg } else { 0int }),
    {
        let to: usize = if SEG_W < hi - seg {
            seg + SEG_W
        } else {
            hi
        };
        let ghost before = out@;
        let ghost one = block_steps(
            c as int,
            ic_block as int,
            0,
            tile as int,
            tiles as int,
            seg as int,
            to as int,
        );
        let ghost rest = row_steps(
            c as int,
            ic_block as int,
            tile as int,
            tiles as int,
            to as int,
            hi as int,
        );
        push_blocks(&mut out, c, ic_block, tile, tiles, seg, to);
        assert(before + (one + rest) =~= out@ + rest);
        if to < hi {
            seg = to;
        } else {
            more = false;
            assert(rest =~= Seq::<TileStep>::empty());
        }
    }
    assert(out@ =~= out@ + Seq::<TileStep>::empty());
    out
}

/// Whether a step works on a column of a tile.
pub open spec fn covers(step: TileStep, tile: int, x: int) -> bool {
    step.tile == tile && step.x0 <= x < step.x0 + step.n
}

/// How many input channels a column of a tile has seen, if steps take it up where the
/// step before left it.
pub open spec fn progress(steps: Seq<TileStep>, tile: int, x: int, from: int) -> Option<int>
    decreases steps.len(),
{
    if steps.len() == 0 {
        Some(from)
    } else {
        let before = progress(steps.drop_last(), tile, x, from);
        let step = steps.last();
        if covers(step, tile, x) {
            if before == Some(step.start as int) {
                Some(step.end as int)
            } else {
                None
            }
        } else {
            before
        }
    }
}

proof fn lemma_progress_joined(
    a: Seq<TileStep>,
    b: Seq<TileStep>,
    tile: int,
    x: int,
    from: int,
    mid: int,
)
    requires
        progress(a, tile, x, from) == Some(mid),
    ensures
        progress(a + b, tile, x, from) == progress(b, tile, x, mid),
    decreases b.len(),
{
    if b.len() == 0 {
        assert(a + b =~= a);
    } else {
        assert((a + b).drop_last() =~= a + b.drop_last());
        assert((a + b).last() == b.last());
        lemma_progress_joined(a, b.drop_last(), tile, x, from, mid);
    }
}

proof fn lemma_progress_one(step: TileStep, tile: int, x: int, from: int)
    ensures
        progress(seq![step], tile, x, from) == (if covers(step, tile, x) {
            if from == step.start {
                Some(step.end as int)
            } else {
                None
            }
        } else {
            Some(from)
        }),
{
    let one = seq![step];
    assert(one.drop_last() =~= Seq::<TileStep>::empty());
    assert(progress(one.drop_last(), tile, x, from) == Some(from));
    assert(one.last() == step);
}

proof fn lemma_pieces(
    c: int,
    start: int,
    end: int,
    t: int,
    x0: int,
    to: int,
    tile: int,
    x: int,
    from: int,
)
    requires
        0 <= start <= usize::MAX,
        0 <= end <= usize::MAX,
        0 <= t <= usize::MAX,
        0 <= x0,
        to <= usize::MAX,
    ensures
        progress(pieces(c, start, end, t, x0, to), tile, x, from) == (if t == tile && x0 <= x < to {
            if from == start {
                Some(end)
            } else {
                None
            }
        } else {
            Some(from)
        }),
    decreases to - x0,
{
    if x0 < to {
        let n = least(to - x0, tile_width());
        let step = TileStep {
            start: start as usize,
            end: end as usize,
            last: end == c,
            tile: t as usize,
            x0: x0 as usize,
            n: n as usize,
        };
        let rest = pieces(c, start, end, t, x0 + n, to);
        lemma_progress_one(step, tile, x, from);
        if covers(step, tile, x) {
            if from == start {
                lemma_progress_joined(seq![step], rest, tile, x, from, end);
                lemma_pieces(c, start, end, t, x0 + n, to, tile, x, end);
            } else {
                lemma_progress_stuck(seq![step], rest, tile, x, from);
            }
        } else {
            lemma_progress_joined(seq![step], rest, tile, x, from, from);
            lemma_pieces(c, start, end, t, x0 + n, to, tile, x, from);
        }
    }
}

proof fn lemma_progress_stuck(
    a: Seq<TileStep>,
    b: Seq<TileStep>,
    tile: int,
    x: int,
    from: int,
)
    requires
        progress(a, tile, x, from) is None,
    ensures
        progress(a + b, tile, x, from) is None,
    decreases b.len(),
{
    if b.len() == 0 {
        assert(a + b =~= a);
    } else {
        assert((a + b).drop_last() =~= a + b.drop_last());
        assert((a + b).last() == b.last());
        lemma_progress_stuck(a, b.drop_last(), tile, x, from);
    }
}

proof fn lemma_tile_steps(
    c: int,
    start: int,
    end: int,
    t: int,
    tiles: int,
    x0: int,
    to: int,
    tile: int,
    x: int,
    from: int,
)
    requires
        0 <= start <= usize::MAX,
        0 <= end <= usize::MAX,
        0 <= t,
        tiles <= usize::MAX,
        0 <= x0,
        to <= usize::MAX,
    ensures
        progress(tile_steps(c, start, end, t, tiles, x0, to), tile, x, from) == (if t <= tile
            < tiles && x0 <= x < to {
            if from == start {
                Some(end)
            } else {
                None
            }
        } else {
            Some(from)
        }),
    decreases tiles - t,
{
    if t < tiles {
        let one = pieces(c, start, end, t, x0, to);
        let rest = tile_steps(c, start, end, t + 1, tiles, x0, to);
        lemma_pieces(c, start, end, t, x0, to, tile, x, from);
        if t == tile && x0 <= x < to {
            if from == start {
                lemma_progress_joined(one, rest, tile, x, from, end);
                lemma_tile_steps(c, start, end, t + 1, tiles, x0, to, tile, x, end);
            } else {
                lemma_progress_stuck(one, rest, tile, x, from);
            }
        } else {
            lemma_progress_joined(one, rest, tile, x, from, from);
            lemma_tile_steps(c, start, end, t + 1, tiles, x0, to, tile, x, from);
        }
    }
}

proof fn lemma_block_steps(
    c: int,
    ic_block: int,
    start: int,
    t: int,
    tiles: int,
    x0: int,
    to: int,
    tile: int,
    x: int,
    from: int,
)
    requires
        ic_block > 0,
        0 <= start <= c <= usize::MAX,
        0 <= t,
        tiles <= usize::MAX,
        0 <= x0,
        to <= usize::MAX,
    ensures
        t <= tile < tiles && x0 <= x < to && from == start ==> progress(
            block_steps(c, ic_block, start, t, tiles, x0, to),
            tile,
            x,
            from,
        ) == Some(c),
        !(t <= tile < tiles && x0 <= x < to) ==> progress(
            block_steps(c, ic_block, start, t, tiles, x0, to),
            tile,
            x,
            from,
        ) == Some(from),
    decreases c - start,
{
    if start < c {
        let end = least(start + ic_block, c);
        let one = tile_steps(c, start, end, t, tiles, x0, to);
        let rest = block_steps(c, ic_block, end, t, tiles, x0, to);
        lemma_tile_steps(c, start, end, t, tiles, x0, to, tile, x, from);
        if t <= tile < tiles && x0 <= x < to {
            if from == start {
                lemma_progress_joined(one, rest, tile, x, from, end);
                lemma_block_steps(c, ic_block, end, t, tiles, x0, to, tile, x, end);
            }
        } else {
            lemma_progress_joined(one, rest, tile, x, from, from);
            lemma_block_steps(c, ic_block, end, t, tiles, x0, to, tile, x, from);
        }
    }
}

/// Every column of every tile of a row is brought over all input channels, from the
/// first to the last, each channel once and in order; no other column is touched.
pub proof fn law_every_output_sees_every_channel(
    c: int,
    ic_block: int,
    t: int,
    tiles: int,
    lo: int,
    hi: int,
    tile: int,
    x: int,
    from: int,
)
    requires
        ic_block > 0,
        0 <= c <= usize::MAX,
        0 <= t,
        tiles <= usize::MAX,
        0 <= lo,
        hi <= usize::MAX,
    ensures
        t <= tile < tiles && lo <= x < hi && from == 0 ==> progress(
            row_steps(c, ic_block, t, tiles, lo, hi),
            tile,
            x,
            from,
        ) == Some(c),
        !(t <= tile < tiles && lo <= x < hi) ==> progress(
            row_steps(c, ic_block, t, tiles, lo, hi),
            tile,
            x,
            from,
        ) == Some(from),
    decreases hi - lo,
{
    if lo < hi {
        let to = least(lo + SEG_W, hi);
        let one = block_steps(c, ic_block, 0, t, tiles, lo, to);
        let rest = row_steps(c, ic_block, t, tiles, to, hi);
        lemma_block_steps(c, ic_block, 0, t, tiles, lo, to, tile, x, from);
        if t <= tile < tiles && lo <= x < to {
            if from == 0 {
                lemma_progress_joined(one, rest, tile, x, from, c);
                law_every_output_sees_every_channel(
                    c,
                    ic_block,
                    t,
                    tiles,
                    to,
                    hi,
                    tile,
                    x,
                    c,
                );
            }
        } else {
            lemma_progress_joined(one, rest, tile, x, from, from);
            law_every_output_sees_every_channel(
                c,
                ic_block,
                t,
                tiles,
                to,
                hi,
                tile,
                x,
                from,
            );
        }
    }
}

/// A step stays within the row and the channels, is at most a register tile wide, and
/// is marked as the last exactly where it ends the channels.
pub open spec fn step_in_bounds(
    step: TileStep,
    c: int,
    t: int,
    tiles: int,
    lo: int,
    hi: int,
) -> bool {
    &&& step.start < step.end <= c
    &&& step.last == (step.end == c)
    &&& t <= step.tile < tiles
    &&& lo <= step.x0
    &&& 0 < step.n <= tile_width()
    &&& step.x0 + step.n <= hi
}

/// All steps stay in bounds.
pub open spec fn steps_in_bounds(
    steps: Seq<TileStep>,
    c: int,
    t: int,
    tiles: int,
    lo: int,
    hi: int,
) -> bool {
    forall|i: int|
        0 <= i < steps.len() ==> step_in_bounds(#[trigger] steps[i], c, t, tiles, lo, hi)
}

proof fn lemma_bounds_joined(
    a: Seq<TileStep>,
    b: Seq<TileStep>,
    c: int,
    t: int,
    tiles: int,
    lo: int,
    hi: int,
)
    requires
        steps_in_bounds(a, c, t, tiles, lo, hi),
        steps_in_bounds(b, c, t, tiles, lo, hi),
    ensures
        steps_in_bounds(a + b, c, t, tiles, lo, hi),
{
    assert forall|i: int| 0 <= i < (a + b).len() implies step_in_bounds(
        #[trigger] (a + b)[i],
        c,
        t,
        tiles,
        lo,
        hi,
    ) by {
        if i < a.len() {
            assert((a + b)[i] == a[i]);
        } else {
            assert((a + b)[i] == b[i - a.len()]);
        }
    }
}

proof fn lemma_pieces_bounds(
    c: int,
    start: int,
    end: int,
    tile: int,
    x0: int,
    to: int,
    t: int,
    tiles: int,
    lo: int,
    hi: int,
)
    requires
        0 <= start < end <= c <= usize::MAX,
        t <= tile < tiles <= usize::MAX,
        0 <= tile,
        0 <= lo <= x0,
        to <= hi <= usize::MAX,
    ensures
        steps_in_bounds(pieces(c, start, end, tile, x0, to), c, t, tiles, lo, hi),
    decreases to - x0,
{
    if x0 < to {
        let n = least(to - x0, tile_width());
        lemma_pieces_bounds(c, start, end, tile, x0 + n, to, t, tiles, lo, hi);
        let step = TileStep {
            start: start as usize,
            end: end as usize,
            last: end == c,
            tile: tile as usize,
            x0: x0 as usize,
            n: n as usize,
        };
        lemma_bounds_joined(
            seq![step],
            pieces(c, start, end, tile, x0 + n, to),
            c,
            t,
            tiles,
            lo,
            hi,
        );
    }
}

proof fn lemma_tiles_bounds(
    c: int,
    start: int,
    end: int,
    tile: int,
    tiles: int,
    x0: int,
    to: int,
    t: int,
    lo: int,
    hi: int,
)
    requires
        0 <= start < end <= c <= usize::MAX,
        0 <= t <= tile,
        tiles <= usize::MAX,
        0 <= lo <= x0,
        to <= hi <= usize::MAX,
    ensures
        steps_in_bounds(tile_steps(c, start, end, tile, tiles, x0, to), c, t, tiles, lo, hi),
    decreases tiles - tile,
{
    if tile < tiles {
        lemma_pieces_bounds(c, start, end, tile, x0, to, t, tiles, lo, hi);
        lemma_tiles_bounds(c, start, end, tile + 1, tiles, x0, to, t, lo, hi);
        lemma_bounds_joined(
            pieces(c, start, end, tile, x0, to),
            tile_steps(c, start, end, tile + 1, tiles, x0, to),
            c,
            t,
            tiles,
            lo,
            hi,
        );
    }
}

proof fn lemma_blocks_bounds(
    c: int,
    ic_block: int,
    start: int,
    t: int,
    tiles: int,
    x0: int,
    to: int,
    lo: int,
    hi: int,
)
    requires
        ic_block > 0,
        0 <= start <= c <= usize::MAX,
        0 <= t,
        tiles <= usize::MAX,
        0 <= lo <= x0,
        to <= hi <= usize::MAX,
    ensures
        steps_in_bounds(block_steps(c, ic_block, start, t, tiles, x0, to), c, t, tiles, lo, hi),
    decreases c - start,
{
    if start < c {
        let end = least(start + ic_block, c);
        lemma_tiles_bounds(c, start, end, t, tiles, x0, to, t, lo, hi);
        lemma_blocks_bounds(c, ic_block, end, t, tiles, x0, to, lo, hi);
        lemma_bounds_joined(
            tile_steps(c, start, end, t, tiles, x0, to),
            block_steps(c, ic_block, end, t, tiles, x0, to),
            c,
            t,
            tiles,
            lo,
            hi,
        );
    }
}

proof fn lemma_row_bounds(
    c: int,
    ic_block: int,
    t: int,
    tiles: int,
    x0: int,
    lo: int,
    hi: int,
)
    requires
        ic_block > 0,
        0 <= c <= usize::MAX,
        0 <= t,
        tiles <= usize::MAX,
        0 <= lo <= x0,
        hi <= usize::MAX,
    ensures
        steps_in_bounds(row_steps(c, ic_block, t, tiles, x0, hi), c, t, tiles, lo, hi),
    decreases hi - x0,
{
    if x0 < hi {
        let to = least(x0 + SEG_W, hi);
        lemma_blocks_bounds(c, ic_block, 0, t, tiles, x0, to, lo, hi);
        lemma_row_bounds(c, ic_block, t, tiles, to, lo, hi);
        lemma_bounds_joined(
            block_steps(c, ic_block, 0, t, tiles, x0, to),
            row_steps(c, ic_block, t, tiles, to, hi),
            c,
            t,
            tiles,
            lo,
            hi,
        );
    }
}

/// The steps of a row stay within the row, its tiles and the channels, and the
/// activation is applied in the steps that end the channels, and in no other.
pub proof fn law_steps_stay_in_bounds(
    c: int,
    ic_block: int,
    t: int,
    tiles: int,
    lo: int,
    hi: int,
)
    requires
        ic_block > 0,
        0 <= c <= usize::MAX,
        0 <= t,
        tiles <= usize::MAX,
        0 <= lo,
        hi <= usize::MAX,
    ensures
        steps_in_bounds(row_steps(c, ic_block, t, tiles, lo, hi), c, t, tiles, lo, hi),
{
    lemma_row_bounds(c, ic_block, t, tiles, lo, lo, hi);
}

/// The first of the tiles of a group.
pub open spec fn group_start(group: int, g: int) -> int {
    g * group
}

/// The tile behind the last of a group.
pub open spec fn group_end(group: int, tiles: int, g: int) -> int {
    least((g + 1) * group, tiles)
}

/// What one task of a convolution does: the output row, and its steps.
pub struct ConvTask {
    pub oy: usize,
    pub steps: Vec<TileStep>,
}

/// The work of a task of a dense convolution. Tasks are numbered by groups of tiles,
/// and within them by output rows.
pub fn conv_task(plan: &ConvPlan, c: usize, tiles: usize, task: usize) -> (r: ConvTask)
    requires
        plan.ic_block > 0,
        plan.group > 0,
        plan.ho > 0,
        plan.groups == ceil_div(tiles as nat, plan.group as nat),
        task < plan.groups * plan.ho,
    ensures
        r.oy == task % plan.ho,
        r.steps@ == row_steps(
            c as int,
            plan.ic_block as int,
            group_start(plan.group as int, task as int / plan.ho as int),
            group_end(plan.group as int, tiles as int, task as int / plan.ho as int),
            0,
            plan.wo as int,
        ),
{
    let g: usize = task / plan.ho;
    proof {
        lemma_group(
            plan.group as int,
            tiles as int,
            plan.groups as int,
            plan.ho as int,
            task as int,
        );
    }
    let first: usize = g * plan.group;
    let behind: usize = if plan.group < tiles - first {
        first + plan.group
    } else {
        tiles
    };
    assert((g + 1) * plan.group == first + plan.group) by (nonlinear_arith)
        requires
            first == g * plan.group,
    ;
    ConvTask {
        oy: task % plan.ho,
        steps: steps_of_row(c, plan.ic_block, first, behind, 0, plan.wo),
    }
}

proof fn lemma_group(group: int, tiles: int, groups: int, per: int, task: int)
    requires
        group > 0,
        per > 0,
        tiles >= 0,
        groups == ceil_div(tiles as nat, group as nat),
        0 <= task < groups * per,
    ensures
        0 <= task / per < groups,
        0 <= (task / per) * group < tiles,
{
    let g = task / per;
    assert(0 <= g < groups) by (nonlinear_arith)
        requires
            0 <= task < groups * per,
            per > 0,
            g == task / per,
    ;
    lemma_fundamental_div_mod(tiles, group);
    lemma_mod_pos_bound(tiles, group);
    let q = tiles / group;
    let r = tiles % group;
    if r == 0 {
        assert(0 <= g * group < tiles) by (nonlinear_arith)
            requires
                0 <= g,
                g + 1 <= q,
                tiles == group * q,
                group > 0,
        ;
    } else {
        assert(0 <= g * group < tiles) by (nonlinear_arith)
            requires
                0 <= g <= q,
                tiles == group * q + r,
                r > 0,
                group > 0,
        ;
    }
}

/// The steps of a task of a pointwise convolution. Tasks are numbered by groups of
/// tiles, and within them by runs of pixels.
pub fn pointwise_task(plan: &PointwisePlan, c: usize, tiles: usize, task: usize) -> (r: Vec<
    TileStep,
>)
    requires
        plan.ic_block > 0,
        plan.group > 0,
        plan.chunks > 0,
        plan.groups == ceil_div(tiles as nat, plan.group as nat),
        plan.chunks == ceil_div(plan.body as nat, PW_CHUNK as nat),
        task < plan.groups * plan.chunks,
    ensures
        r@ == row_steps(
            c as int,
            plan.ic_block as int,
            group_start(plan.group as int, task as int / plan.chunks as int),
            group_end(plan.group as int, tiles as int, task as int / plan.chunks as int),
            task as int % plan.chunks as int * PW_CHUNK,
            least((task as int % plan.chunks as int + 1) * PW_CHUNK, plan.body as int),
        ),
{
    let g: usize = task / plan.chunks;
    let chunk: usize = task % plan.chunks;
    proof {
        lemma_group(
            plan.group as int,
            tiles as int,
            plan.groups as int,
            plan.chunks as int,
            task as int,
        );
        lemma_group(PW_CHUNK as int, plan.body as int, plan.chunks as int, 1, chunk as int);
        assert(chunk as int / 1 == chunk);
    }
    let first: usize = g * plan.group;
    let behind: usize = if plan.group < tiles - first {
        first + plan.group
    } else {
        tiles
    };
    assert((g + 1) * plan.group == first + plan.group) by (nonlinear_arith)
        requires
            first == g * plan.group,
    ;
    let lo: usize = chunk * PW_CHUNK;
    let hi: usize = if PW_CHUNK < plan.body - lo {
        lo + PW_CHUNK
    } else {
        plan.body
    };
    steps_of_row(c, plan.ic_block, first, behind, lo, hi)
}

/// The step of a tile over the pixels behind the last whole vector: all channels at once,
/// over columns that count from there.
pub open spec fn tail_step(plan: PointwisePlan, c: usize, tile: usize) -> TileStep {
    TileStep {
        start: 0,
        end: c,
        last: true,
        tile,
        x0: 0,
        n: (plan.hw - plan.body) as usize,
    }
}

/// The steps over the pixels behind the last whole vector, one for each tile. There are none
/// where no pixel is behind it.
pub fn tail_steps(plan: &PointwisePlan, c: usize, tiles: usize) -> (r: Vec<TileStep>)
    requires
        plan.body <= plan.hw,
    ensures
        r@.len() == (if plan.body < plan.hw {
            tiles as int
        } else {
            0
        }),
        forall|i: int| 0 <= i < r@.len() ==> #[trigger] r@[i] == tail_step(*plan, c, i as usize),
{
    let n: usize = plan.hw - plan.body;
    let mut r: Vec<TileStep> = Vec::new();
    if n == 0 {
        return r;
    }
    let mut tile: usize = 0;
    while tile < tiles
        invariant
            tile <= tiles,
            n == plan.hw - plan.body,
            r@.len() == tile,
            forall|i: int|
                0 <= i < r@.len() ==> #[trigger] r@[i] == tail_step(*plan, c, i as usize),
        decreases tiles - tile,
    {
        r.push(TileStep { start: 0, end: c, last: true, tile, x0: 0, n });
        tile += 1;
    }
    r
}

/// The pixels behind the last whole vector, padded to one vector per channel.
pub fn tail_columns<T: Copy>(xb: &[T], c: usize, hw: usize, body: usize, zero: T) -> (r: Vec<T>)
    requires
        body <= hw < body + LANES,
        c * hw <= usize::MAX,
        c * LANES <= usize::MAX,
        xb@.len() == c * hw,
    ensures
        r@.len() == c * LANES,
        forall|i: int|
            0 <= i < c * LANES ==> #[trigger] r@[i] == (if i % (LANES as int) < hw - body {
                xb@[i / LANES as int * hw + body + i % LANES as int]
            } else {
                zero
            }),
{
    let n: usize = c * LANES;
    let tail: usize = hw - body;
    let mut r: Vec<T> = Vec::with_capacity(n);
    let mut i: usize = 0;
    while i < n
        invariant
            i <= n == c * LANES,
            body <= hw < body + LANES,
            tail == hw - body,
            c * hw <= usize::MAX,
            xb@.len() == c * hw,
            r@.len() == i,
            forall|j: int|
                0 <= j < i ==> #[trigger] r@[j] == (if j % (LANES as int) < hw - body {
                    xb@[j / LANES as int * hw + body + j % LANES as int]
                } else {
                    zero
                }),
        decreases n - i,
    {
        let ch: usize = i / LANES;
        let lane: usize = i % LANES;
        if lane < tail {
            assert(0 <= ch * hw && ch * hw + body + lane < c * hw) by (nonlinear_arith)
                requires
                    ch + 1 <= c,
                    0 <= ch,
                    body + lane < hw,
            ;
            r.push(xb[ch * hw + body + lane]);
        } else {
            r.push(zero);
        }
        i += 1;
    }
    r
}

/// Whether a task writes an output row, where rows are numbered by channels and within
/// them by height.
pub open spec fn writes(group: int, tiles: int, ho: int, task: int, row: int) -> bool {
    let g = task / ho;
    let tile = row / ho / OC_T as int;
    row % ho == task % ho && group_start(group, g) <= tile < group_end(group, tiles, g)
}

/// The task that writes an output row.
pub open spec fn task_of(group: int, ho: int, row: int) -> int {
    row / ho / OC_T as int / group * ho + row % ho
}

/// Each output row is written by exactly one task.
pub proof fn law_tasks_write_different_rows(
    group: int,
    tiles: int,
    groups: int,
    ho: int,
    task: int,
    row: int,
)
    requires
        group > 0,
        tiles > 0,
        groups == ceil_div(tiles as nat, group as nat),
        ho > 0,
        0 <= row < tiles * OC_T * ho,
        0 <= task < groups * ho,
    ensures
        0 <= task_of(group, ho, row) < groups * ho,
        writes(group, tiles, ho, task, row) <==> task == task_of(group, ho, row),
{
    let oc = row / ho;
    let oy = row % ho;
    let tile = oc / OC_T as int;
    let g = tile / group;
    lemma_mod_pos_bound(row, ho);
    assert(0 <= oc < tiles * 4) by (nonlinear_arith)
        requires
            0 <= row < tiles * 4 * ho,
            ho > 0,
            oc == row / ho,
    ;
    assert(0 <= tile < tiles);
    lemma_fundamental_div_mod(tile, group);
    lemma_mod_pos_bound(tile, group);
    lemma_div_pos_is_pos(tile, group);
    lemma_fundamental_div_mod(tiles, group);
    lemma_mod_pos_bound(tiles, group);
    let q = tiles / group;
    assert(g < groups) by (nonlinear_arith)
        requires
            tile == group * g + tile % group,
            tile % group >= 0,
            tile < tiles,
            tiles == group * q + tiles % group,
            tiles % group < group,
            groups == (if tiles % group == 0 {
                q
            } else {
                q + 1
            }),
            group > 0,
    ;
    let owner = g * ho + oy;
    assert(0 <= owner < groups * ho) by (nonlinear_arith)
        requires
            owner == g * ho + oy,
            0 <= g,
            g + 1 <= groups,
            0 <= oy < ho,
    ;
    lemma_fundamental_div_mod_converse(owner, ho, g, oy);
    lemma_fundamental_div_mod(task, ho);
    lemma_mod_pos_bound(task, ho);
    let h = task / ho;
    if writes(group, tiles, ho, task, row) {
        assert(h == g) by (nonlinear_arith)
            requires
                h * group <= tile,
                tile < (h + 1) * group,
                tile == group * g + tile % group,
                0 <= tile % group < group,
                group > 0,
        ;
        assert(task == owner) by (nonlinear_arith)
            requires
                task == ho * h + oy,
                owner == g * ho + oy,
                h == g,
        ;
    }
    if task == owner {
        assert(g * group <= tile && tile < (g + 1) * group) by (nonlinear_arith)
            requires
                tile == group * g + tile % group,
                0 <= tile % group < group,
        ;
    }
}

} // verus!
