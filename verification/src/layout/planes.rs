//! Zero-padded inputs, split by the phases of a stride. With them every tap of a
//! kernel reads a contiguous row, whatever the stride.

use vstd::arithmetic::div_mod::*;
use vstd::arithmetic::mul::*;
use vstd::prelude::*;

use crate::layout::{LANES, MAX_XV, SLACK};
use crate::ops::{ceil_div, div_ceil};

verus! {

/// The rows of a phase plane.
pub open spec fn plane_rows(h: int, s: int, p: int) -> int {
    ceil_div((h + 2 * p) as nat, s as nat) as int
}

/// The columns of a phase plane: a whole number of vectors.
pub open spec fn plane_cols(w: int, s: int, p: int) -> int {
    ceil_div(ceil_div((w + 2 * p) as nat, s as nat), LANES as nat) * LANES
}

/// The numbers in all phase planes.
pub open spec fn planes_len(c: int, h: int, w: int, s: int, p: int) -> int {
    s * s * c * plane_rows(h, s, p) * plane_cols(w, s, p)
}

/// The planes are not empty, and they and the padded input fit a machine word.
pub open spec fn planes_fit(c: int, h: int, w: int, s: int, p: int) -> bool {
    &&& s > 0
    &&& h + 2 * p > 0
    &&& w + 2 * p > 0
    &&& h + 2 * p + s <= usize::MAX
    &&& w + 2 * p + 9 * s <= usize::MAX
    &&& s * s * c <= usize::MAX
    &&& c * h * w <= usize::MAX
    &&& planes_len(c, h, w, s, p) + SLACK <= usize::MAX
}

/// The input with `p` zeros on every side.
pub open spec fn padded<T>(
    x: Seq<T>,
    h: int,
    w: int,
    p: int,
    zero: T,
    ch: int,
    row: int,
    col: int,
) -> T {
    if p <= row < p + h && p <= col < p + w {
        x[(ch * h + (row - p)) * w + (col - p)]
    } else {
        zero
    }
}

/// Where a plane keeps a number.
pub open spec fn cell(hs: int, ws: int, plane: int, row: int, col: int) -> int {
    (plane * hs + row) * ws + col
}

/// What belongs at a place.
pub open spec fn value_at<T>(
    x: Seq<T>,
    c: int,
    h: int,
    w: int,
    s: int,
    p: int,
    zero: T,
    hs: int,
    ws: int,
    i: int,
) -> T {
    let col = i % ws;
    let row = (i / ws) % hs;
    let plane = (i / ws) / hs;
    let phase = plane / c;
    padded(x, h, w, p, zero, plane % c, row * s + phase / s, col * s + phase % s)
}

/// A padded input as one plane per phase and channel.
pub struct PhasePlanes<T> {
    pub data: Vec<T>,
    pub hs: usize,
    pub ws: usize,
}

proof fn lemma_sizes(c: int, h: int, w: int, s: int, p: int)
    requires
        planes_fit(c, h, w, s, p),
        h >= 0,
        w >= 0,
        p >= 0,
        c >= 0,
    ensures
        plane_rows(h, s, p) > 0,
        plane_cols(w, s, p) > 0,
        (plane_rows(h, s, p) - 1) * s < h + 2 * p,
        h + 2 * p <= plane_rows(h, s, p) * s,
        w + 2 * p <= plane_cols(w, s, p) * s,
        plane_cols(w, s, p) * s <= w + 2 * p + 9 * s,
        plane_cols(w, s, p) % LANES as int == 0,
{
    let a = h + 2 * p;
    let b = w + 2 * p;
    let hs = plane_rows(h, s, p);
    let n = ceil_div(b as nat, s as nat) as int;
    let ws = plane_cols(w, s, p);
    lemma_ceil(a, s);
    lemma_ceil(b, s);
    lemma_ceil(n, LANES as int);
    assert(hs > 0) by (nonlinear_arith)
        requires
            a > 0,
            a <= hs * s,
            s > 0,
    ;
    assert(n > 0) by (nonlinear_arith)
        requires
            b > 0,
            b <= n * s,
            s > 0,
    ;
    assert(b <= ws * s && ws * s <= b + 9 * s) by (nonlinear_arith)
        requires
            b <= n * s,
            (n - 1) * s < b,
            n <= ws,
            ws - 8 < n,
            s > 0,
    ;
}

proof fn lemma_ceil(n: int, d: int)
    requires
        n >= 0,
        d > 0,
    ensures
        ({
            let q = ceil_div(n as nat, d as nat) as int;
            &&& n <= q * d
            &&& (q - 1) * d < n || n == 0
            &&& q >= 0
        }),
{
    lemma_fundamental_div_mod(n, d);
    lemma_mod_pos_bound(n, d);
    let q = n / d;
    assert(q >= 0) by (nonlinear_arith)
        requires
            n >= 0,
            d > 0,
            q == n / d,
    ;
    assert((q + 1) * d == d * q + d && q * d == d * q && (q - 1) * d == d * q - d)
        by (nonlinear_arith);
}

proof fn lemma_place(hs: int, ws: int, c: int, plane: int, row: int, col: int)
    requires
        0 <= plane,
        0 <= row < hs,
        0 <= col < ws,
        c > 0,
    ensures
        ({
            let i = cell(hs, ws, plane, row, col);
            &&& i >= 0
            &&& i % ws == col
            &&& (i / ws) % hs == row
            &&& (i / ws) / hs == plane
        }),
{
    let outer = plane * hs + row;
    assert(outer >= 0 && outer * ws + col >= 0) by (nonlinear_arith)
        requires
            outer == plane * hs + row,
            plane >= 0,
            hs > 0,
            row >= 0,
            ws > 0,
            col >= 0,
    ;
    lemma_fundamental_div_mod_converse(outer * ws + col, ws, outer, col);
    lemma_fundamental_div_mod_converse(outer, hs, plane, row);
}

impl<T: Copy> PhasePlanes<T> {
    /// Pads an input and splits it by phases. Tail vectors may read on into zeros.
    pub fn new(xb: &[T], c: usize, h: usize, w: usize, s: usize, p: usize, zero: T) -> (r: Self)
        requires
            planes_fit(c as int, h as int, w as int, s as int, p as int),
            xb@.len() == c * h * w,
        ensures
            r.hs == plane_rows(h as int, s as int, p as int),
            r.ws == plane_cols(w as int, s as int, p as int),
            r.data@.len() == planes_len(c as int, h as int, w as int, s as int, p as int) + SLACK,
            forall|i: int|
                0 <= i < planes_len(c as int, h as int, w as int, s as int, p as int)
                    ==> #[trigger] r.data@[i] == value_at(
                    xb@,
                    c as int,
                    h as int,
                    w as int,
                    s as int,
                    p as int,
                    zero,
                    r.hs as int,
                    r.ws as int,
                    i,
                ),
            forall|i: int|
                planes_len(c as int, h as int, w as int, s as int, p as int) <= i
                    < r.data@.len() ==> #[trigger] r.data@[i] == zero,
    {
        proof {
            lemma_sizes(c as int, h as int, w as int, s as int, p as int);
        }
        let hs: usize = div_ceil(h + 2 * p, s);
        let narrow: usize = div_ceil(w + 2 * p, s);
        proof {
            lemma_ceil(w + 2 * p, s as int);
            lemma_ceil(narrow as int, LANES as int);
            let ws = plane_cols(w as int, s as int, p as int);
            assert(ws <= ws * s) by (nonlinear_arith)
                requires
                    s > 0,
                    ws >= 0,
            ;
            assert(s * s <= s * s * c || c == 0) by (nonlinear_arith)
                requires
                    s > 0,
                    c >= 0,
            ;
        }
        let ws: usize = div_ceil(narrow, LANES) * LANES;
        let ghost total = planes_len(c as int, h as int, w as int, s as int, p as int);
        let mut data: Vec<T> = Vec::new();
        if c > 0 {
            let phases: usize = s * s;
            let count: usize = phases * c;
            let mut plane: usize = 0;
            assert(plane * hs * ws == 0) by (nonlinear_arith)
                requires
                    plane == 0,
            ;
            while plane < count
                invariant
                    plane <= count == s * s * c,
                    c > 0,
                    s > 0,
                    planes_fit(c as int, h as int, w as int, s as int, p as int),
                    xb@.len() == c * h * w,
                    hs == plane_rows(h as int, s as int, p as int),
                    ws == plane_cols(w as int, s as int, p as int),
                    hs > 0,
                    ws > 0,
                    total == count * hs * ws,
                    total + SLACK <= usize::MAX,
                    data@.len() == plane * hs * ws,
                    forall|i: int|
                        0 <= i < data@.len() ==> #[trigger] data@[i] == value_at(
                            xb@,
                            c as int,
                            h as int,
                            w as int,
                            s as int,
                            p as int,
                            zero,
                            hs as int,
                            ws as int,
                            i,
                        ),
                decreases count - plane,
            {
                push_plane(
                    &mut data,
                    xb,
                    &PlaneGeometry { c, h, w, s, p, hs, ws },
                    plane,
                    zero,
                );
                plane += 1;
            }
        } else {
            assert(s * s * c == 0) by (nonlinear_arith)
                requires
                    c == 0,
            ;
            assert(total == 0) by (nonlinear_arith)
                requires
                    total == s * s * c * hs * ws,
                    s * s * c == 0,
            ;
        }
        assert(data@.len() == total);
        let mut i: usize = 0;
        while i < SLACK
            invariant
                i <= SLACK,
                0 <= total,
                data@.len() == total + i,
                forall|j: int|
                    0 <= j < total ==> #[trigger] data@[j] == value_at(
                        xb@,
                        c as int,
                        h as int,
                        w as int,
                        s as int,
                        p as int,
                        zero,
                        hs as int,
                        ws as int,
                        j,
                    ),
                forall|j: int| total <= j < data@.len() ==> #[trigger] data@[j] == zero,
            decreases SLACK - i,
        {
            data.push(zero);
            i += 1;
        }
        PhasePlanes { data, hs, ws }
    }
}

/// The sizes of a padded input and its planes.
pub struct PlaneGeometry {
    pub c: usize,
    pub h: usize,
    pub w: usize,
    pub s: usize,
    pub p: usize,
    pub hs: usize,
    pub ws: usize,
}

fn push_plane<T: Copy>(data: &mut Vec<T>, xb: &[T], g: &PlaneGeometry, plane: usize, zero: T)
    requires
        planes_fit(g.c as int, g.h as int, g.w as int, g.s as int, g.p as int),
        g.c > 0,
        xb@.len() == g.c * g.h * g.w,
        g.hs == plane_rows(g.h as int, g.s as int, g.p as int),
        g.ws == plane_cols(g.w as int, g.s as int, g.p as int),
        plane < g.s * g.s * g.c,
        old(data)@.len() == plane * g.hs * g.ws,
        forall|i: int|
            0 <= i < old(data)@.len() ==> #[trigger] old(data)@[i] == value_at(
                xb@,
                g.c as int,
                g.h as int,
                g.w as int,
                g.s as int,
                g.p as int,
                zero,
                g.hs as int,
                g.ws as int,
                i,
            ),
    ensures
        final(data)@.len() == (plane + 1) * g.hs * g.ws,
        forall|i: int|
            0 <= i < final(data)@.len() ==> #[trigger] final(data)@[i] == value_at(
                xb@,
                g.c as int,
                g.h as int,
                g.w as int,
                g.s as int,
                g.p as int,
                zero,
                g.hs as int,
                g.ws as int,
                i,
            ),
{
    let (c, h, w, s, p): (usize, usize, usize, usize, usize) = (g.c, g.h, g.w, g.s, g.p);
    let (hs, ws): (usize, usize) = (g.hs, g.ws);
    let phase: usize = plane / c;
    let ch: usize = plane % c;
    let py: usize = phase / s;
    let px: usize = phase % s;
    proof {
        lemma_sizes(c as int, h as int, w as int, s as int, p as int);
        lemma_mod_pos_bound(plane as int, c as int);
        lemma_mod_pos_bound(phase as int, s as int);
        assert(phase < s * s) by (nonlinear_arith)
            requires
                plane < s * s * c,
                c > 0,
                phase == plane / c,
        ;
        assert(py < s) by (nonlinear_arith)
            requires
                phase < s * s,
                s > 0,
                py == phase / s,
        ;
        assert(plane * hs * ws == (plane * hs + 0) * ws) by (nonlinear_arith);
    }
    let mut row: usize = 0;
    while row < hs
        invariant
            row <= hs,
            planes_fit(c as int, h as int, w as int, s as int, p as int),
            c > 0,
            xb@.len() == c * h * w,
            hs == plane_rows(h as int, s as int, p as int),
            ws == plane_cols(w as int, s as int, p as int),
            plane < s * s * c,
            phase == plane / c,
            ch == plane % c,
            ch < c,
            py == phase / s,
            px == phase % s,
            py < s,
            px < s,
            data@.len() == (plane * hs + row) * ws,
            forall|i: int|
                0 <= i < data@.len() ==> #[trigger] data@[i] == value_at(
                    xb@,
                    c as int,
                    h as int,
                    w as int,
                    s as int,
                    p as int,
                    zero,
                    hs as int,
                    ws as int,
                    i,
                ),
        decreases hs - row,
    {
        proof {
            lemma_sizes(c as int, h as int, w as int, s as int, p as int);
            assert(row * s <= (hs - 1) * s) by (nonlinear_arith)
                requires
                    row <= hs - 1,
                    s > 0,
            ;
        }
        let y: usize = row * s + py;
        let inside: bool = p <= y && y - p < h;
        let mut col: usize = 0;
        while col < ws
            invariant
                col <= ws,
                row < hs,
                planes_fit(c as int, h as int, w as int, s as int, p as int),
                c > 0,
                xb@.len() == c * h * w,
                hs == plane_rows(h as int, s as int, p as int),
                ws == plane_cols(w as int, s as int, p as int),
                plane < s * s * c,
                phase == plane / c,
                ch == plane % c,
                ch < c,
                py == phase / s,
                px == phase % s,
                py < s,
                px < s,
                y == row * s + py,
                inside == (p <= y && y - p < h),
                data@.len() == (plane * hs + row) * ws + col,
                forall|i: int|
                    0 <= i < data@.len() ==> #[trigger] data@[i] == value_at(
                        xb@,
                        c as int,
                        h as int,
                        w as int,
                        s as int,
                        p as int,
                        zero,
                        hs as int,
                        ws as int,
                        i,
                    ),
            decreases ws - col,
        {
            proof {
                lemma_sizes(c as int, h as int, w as int, s as int, p as int);
                lemma_place(hs as int, ws as int, c as int, plane as int, row as int, col as int);
                assert(col * s <= (ws - 1) * s && (ws - 1) * s == ws * s - s)
                    by (nonlinear_arith)
                    requires
                        col <= ws - 1,
                        s > 0,
                ;
            }
            let x: usize = col * s + px;
            if inside && p <= x && x - p < w {
                let iy: usize = y - p;
                let ix: usize = x - p;
                proof {
                    assert(0 <= ch * h && ch * h + iy < c * h && (ch * h + iy) * w + ix < c * h * w)
                        by (nonlinear_arith)
                        requires
                            0 <= ch < c,
                            0 <= iy < h,
                            0 <= ix < w,
                    ;
                    assert(c * h <= c * h * w) by (nonlinear_arith)
                        requires
                            w >= 1,
                            c >= 0,
                            h >= 0,
                    ;
                    assert(0 <= (ch * h + iy) * w) by (nonlinear_arith)
                        requires
                            ch >= 0,
                            h >= 0,
                            iy >= 0,
                            w >= 0,
                    ;
                }
                data.push(xb[(ch * h + iy) * w + ix]);
            } else {
                data.push(zero);
            }
            col += 1;
        }
        proof {
            assert((plane * hs + row) * ws + ws == (plane * hs + (row + 1)) * ws)
                by (nonlinear_arith);
        }
        row += 1;
    }
    proof {
        assert((plane * hs + hs) * ws == (plane + 1) * hs * ws) by (nonlinear_arith);
    }
}

/// Where the tap of a kernel stands before the place of an output.
pub open spec fn tap_offset(c: int, k: int, s: int, hs: int, ws: int, t: int) -> int {
    let ky = t / k;
    let kx = t % k;
    ((ky % s) * s + kx % s) * c * (hs * ws) + (ky / s) * ws + kx / s
}

/// The rows or columns of an output.
pub open spec fn out_size(n: int, k: int, s: int, p: int) -> int {
    (n + 2 * p - k) / s + 1
}

impl<T> PhasePlanes<T> {
    /// The offset of each tap of a kernel.
    pub fn tap_offsets(&self, c: usize, k: usize, s: usize) -> (r: Vec<usize>)
        requires
            k > 0,
            s > 0,
            k * k <= usize::MAX,
            s * s * c * (self.hs * self.ws) <= usize::MAX,
            c > 0,
            (k - 1) / (s as int) < self.hs,
            (k - 1) / (s as int) < self.ws,
        ensures
            r@.len() == k * k,
            forall|t: int|
                0 <= t < k * k ==> #[trigger] r@[t] == tap_offset(
                    c as int,
                    k as int,
                    s as int,
                    self.hs as int,
                    self.ws as int,
                    t,
                ),
    {
        let (hs, ws): (usize, usize) = (self.hs, self.ws);
        assert(hs * ws <= s * s * c * (hs * ws)) by (nonlinear_arith)
            requires
                s > 0,
                c > 0,
                hs >= 0,
                ws >= 0,
        ;
        let plane: usize = hs * ws;
        let n: usize = k * k;
        let mut r: Vec<usize> = Vec::with_capacity(n);
        let mut t: usize = 0;
        while t < n
            invariant
                t <= n == k * k,
                k > 0,
                s > 0,
                c > 0,
                plane == hs * ws,
                s * s * c * (hs * ws) <= usize::MAX,
                (k - 1) / (s as int) < hs,
                (k - 1) / (s as int) < ws,
                r@.len() == t,
                forall|j: int|
                    0 <= j < t ==> #[trigger] r@[j] == tap_offset(
                        c as int,
                        k as int,
                        s as int,
                        hs as int,
                        ws as int,
                        j,
                    ),
            decreases n - t,
        {
            let ky: usize = t / k;
            let kx: usize = t % k;
            proof {
                lemma_tap(c as int, k as int, s as int, hs as int, ws as int, t as int);
                lemma_tap_parts(c as int, k as int, s as int, hs as int, ws as int, t as int);
            }
            r.push(((ky % s) * s + kx % s) * c * plane + (ky / s) * ws + kx / s);
            t += 1;
        }
        r
    }
}

proof fn lemma_tap(c: int, k: int, s: int, hs: int, ws: int, t: int)
    requires
        0 <= t < k * k,
        k > 0,
        s > 0,
        c > 0,
        (k - 1) / s < hs,
        (k - 1) / s < ws,
    ensures
        ({
            let ky = t / k;
            let kx = t % k;
            let phase = (ky % s) * s + kx % s;
            &&& 0 <= ky < k
            &&& 0 <= kx < k
            &&& 0 <= ky / s < hs
            &&& 0 <= kx / s < ws
            &&& 0 <= phase < s * s
            &&& phase / s == ky % s
            &&& phase % s == kx % s
            &&& tap_offset(c, k, s, hs, ws, t) == cell(hs, ws, phase * c, ky / s, kx / s)
            &&& 0 <= tap_offset(c, k, s, hs, ws, t) < s * s * c * (hs * ws)
        }),
{
    let ky = t / k;
    let kx = t % k;
    lemma_mod_pos_bound(t, k);
    assert(0 <= ky < k) by (nonlinear_arith)
        requires
            0 <= t < k * k,
            k > 0,
            ky == t / k,
    ;
    lemma_mod_pos_bound(ky, s);
    lemma_mod_pos_bound(kx, s);
    lemma_div_is_ordered(ky, k - 1, s);
    lemma_div_is_ordered(kx, k - 1, s);
    lemma_div_pos_is_pos(ky, s);
    lemma_div_pos_is_pos(kx, s);
    let a = ky % s;
    let b = kx % s;
    let phase = a * s + b;
    lemma_fundamental_div_mod_converse(phase, s, a, b);
    assert(0 <= phase < s * s) by (nonlinear_arith)
        requires
            phase == a * s + b,
            0 <= a < s,
            0 <= b < s,
    ;
    let r = ky / s;
    let q = kx / s;
    assert(phase * c * (hs * ws) + r * ws + q == (phase * c * hs + r) * ws + q)
        by (nonlinear_arith);
    assert(0 <= phase * c * (hs * ws) + r * ws + q < s * s * c * (hs * ws)) by (nonlinear_arith)
        requires
            0 <= phase < s * s,
            c > 0,
            0 <= r < hs,
            0 <= q < ws,
    {
        assert(r * ws + q < hs * ws) by (nonlinear_arith)
            requires
                0 <= r < hs,
                0 <= q < ws,
        ;
        assert(phase * c + c <= s * s * c) by (nonlinear_arith)
            requires
                phase + 1 <= s * s,
                c > 0,
        ;
        assert(hs * ws <= c * (hs * ws)) by (nonlinear_arith)
            requires
                c >= 1,
                hs * ws >= 0,
        ;
        assert((phase * c + c) * (hs * ws) <= s * s * c * (hs * ws)) by (nonlinear_arith)
            requires
                phase * c + c <= s * s * c,
                hs * ws >= 0,
        ;
        assert((phase * c + c) * (hs * ws) == phase * c * (hs * ws) + c * (hs * ws))
            by (nonlinear_arith);
        assert(0 <= phase * c * (hs * ws)) by (nonlinear_arith)
            requires
                phase >= 0,
                c > 0,
                hs * ws >= 0,
        ;
    }
}

proof fn lemma_tap_parts(c: int, k: int, s: int, hs: int, ws: int, t: int)
    requires
        0 <= t < k * k,
        k > 0,
        s > 0,
        c > 0,
        (k - 1) / s < hs,
        (k - 1) / s < ws,
    ensures
        ({
            let ky = t / k;
            let kx = t % k;
            let phase = (ky % s) * s + kx % s;
            &&& (ky % s) * s <= phase
            &&& phase <= phase * c
            &&& 0 <= phase * c <= phase * c * (hs * ws)
            &&& 0 <= (ky / s) * ws
            &&& phase * c * (hs * ws) + (ky / s) * ws + kx / s == tap_offset(c, k, s, hs, ws, t)
        }),
{
    lemma_tap(c, k, s, hs, ws, t);
    let ky = t / k;
    let kx = t % k;
    let phase = (ky % s) * s + kx % s;
    lemma_mod_pos_bound(kx, s);
    assert(phase <= phase * c) by (nonlinear_arith)
        requires
            phase >= 0,
            c >= 1,
    ;
    assert(hs * ws >= 1) by (nonlinear_arith)
        requires
            hs >= 1,
            ws >= 1,
    ;
    let m = phase * c;
    let n = hs * ws;
    assert(m <= m * n) by (nonlinear_arith)
        requires
            m >= 0,
            n >= 1,
    ;
    let r = ky / s;
    assert(0 <= r * ws) by (nonlinear_arith)
        requires
            r >= 0,
            ws >= 0,
    ;
}

/// Every output reads within its plane: the rows and columns of all its taps are
/// there.
pub proof fn law_taps_stay_within_planes(n: int, k: int, s: int, p: int, o: int, tap: int)
    requires
        s > 0,
        p >= 0,
        0 <= tap < k <= n + 2 * p,
        0 <= o < out_size(n, k, s, p),
    ensures
        0 <= o * s + tap < n + 2 * p,
        (o * s + tap) / s == o + tap / s,
        (o * s + tap) % s == tap % s,
        0 <= o + tap / s < ceil_div((n + 2 * p) as nat, s as nat),
{
    let m = n + 2 * p;
    lemma_fundamental_div_mod(m - k, s);
    lemma_mod_pos_bound(m - k, s);
    let q = (m - k) / s;
    assert(o * s <= q * s) by (nonlinear_arith)
        requires
            o <= q,
            s > 0,
    ;
    assert(q * s == s * q) by (nonlinear_arith);
    assert(0 <= o * s) by (nonlinear_arith)
        requires
            o >= 0,
            s > 0,
    ;
    lemma_fundamental_div_mod(tap, s);
    lemma_mod_pos_bound(tap, s);
    lemma_div_pos_is_pos(tap, s);
    let d = tap / s;
    let b = tap % s;
    assert((o + d) * s + b == o * s + tap) by (nonlinear_arith)
        requires
            tap == s * d + b,
    ;
    lemma_fundamental_div_mod_converse(o * s + tap, s, o + d, b);
    lemma_ceil(m, s);
    let hs = ceil_div(m as nat, s as nat) as int;
    assert(o + d < hs) by (nonlinear_arith)
        requires
            (o + d) * s + b < m,
            m <= hs * s,
            b >= 0,
            s > 0,
    ;
}

/// The tap of an output reads the padded input where the kernel lies: at the row and
/// column of the output times the stride, plus those of the tap.
pub proof fn law_tap_reads_the_padded_input<T>(
    planes: PhasePlanes<T>,
    x: Seq<T>,
    c: int,
    h: int,
    w: int,
    s: int,
    p: int,
    k: int,
    zero: T,
    ch: int,
    oy: int,
    ox: int,
    t: int,
)
    requires
        planes_fit(c, h, w, s, p),
        h >= 0,
        w >= 0,
        p >= 0,
        planes.hs == plane_rows(h, s, p),
        planes.ws == plane_cols(w, s, p),
        planes.data@.len() == planes_len(c, h, w, s, p) + SLACK,
        forall|i: int|
            0 <= i < planes_len(c, h, w, s, p) ==> #[trigger] planes.data@[i] == value_at(
                x,
                c,
                h,
                w,
                s,
                p,
                zero,
                planes.hs as int,
                planes.ws as int,
                i,
            ),
        0 <= ch < c,
        0 < k <= h + 2 * p,
        k <= w + 2 * p,
        0 <= oy < out_size(h, k, s, p),
        0 <= ox < out_size(w, k, s, p),
        0 <= t < k * k,
    ensures
        ({
            let at = ch * (planes.hs * planes.ws) + oy * planes.ws + ox + tap_offset(
                c,
                k,
                s,
                planes.hs as int,
                planes.ws as int,
                t,
            );
            &&& 0 <= at < planes_len(c, h, w, s, p)
            &&& at + MAX_XV * LANES <= planes.data@.len()
            &&& planes.data@[at] == padded(
                x,
                h,
                w,
                p,
                zero,
                ch,
                oy * s + t / k,
                ox * s + t % k,
            )
        }),
{
    let hs = planes.hs as int;
    let ws = planes.ws as int;
    lemma_sizes(c, h, w, s, p);
    lemma_kernel_reach(h, k, s, p);
    lemma_kernel_reach(w, k, s, p);
    lemma_ceil((w + 2 * p), s);
    let narrow = ceil_div((w + 2 * p) as nat, s as nat) as int;
    lemma_ceil(narrow, LANES as int);
    lemma_tap(c, k, s, hs, ws, t);
    let ky = t / k;
    let kx = t % k;
    let phase = (ky % s) * s + kx % s;
    law_taps_stay_within_planes(h, k, s, p, oy, ky);
    law_taps_stay_within_planes(w, k, s, p, ox, kx);
    let row = oy + ky / s;
    let col = ox + kx / s;
    let plane = phase * c + ch;
    let at = ch * (hs * ws) + oy * ws + ox + tap_offset(c, k, s, hs, ws, t);
    let r = ky / s;
    let q = kx / s;
    assert(at == cell(hs, ws, plane, row, col)) by {
        assert(ch * (hs * ws) + oy * ws + ox + ((phase * c * hs + r) * ws + q) == ((phase * c + ch)
            * hs + (oy + r)) * ws + (ox + q)) by (nonlinear_arith);
    }
    assert(0 <= plane < s * s * c) by (nonlinear_arith)
        requires
            plane == phase * c + ch,
            0 <= phase < s * s,
            0 <= ch < c,
    ;
    lemma_place(hs, ws, c, plane, row, col);
    assert(at < s * s * c * hs * ws) by (nonlinear_arith)
        requires
            at == (plane * hs + row) * ws + col,
            0 <= plane,
            plane + 1 <= s * s * c,
            0 <= row < hs,
            0 <= col < ws,
    {
        assert((plane * hs + row) * ws + col < (plane * hs + hs) * ws) by (nonlinear_arith)
            requires
                row + 1 <= hs,
                col < ws,
                ws > 0,
        ;
        assert((plane * hs + hs) * ws == (plane + 1) * (hs * ws)) by (nonlinear_arith);
        assert((plane + 1) * (hs * ws) <= s * s * c * (hs * ws)) by (nonlinear_arith)
            requires
                plane + 1 <= s * s * c,
                hs * ws >= 0,
        ;
        assert(s * s * c * (hs * ws) == s * s * c * hs * ws) by (nonlinear_arith);
    }
    lemma_fundamental_div_mod_converse(plane, c, phase, ch);
    assert(planes.data@[at] == value_at(x, c, h, w, s, p, zero, hs, ws, at));
    lemma_fundamental_div_mod(ky, s);
    lemma_fundamental_div_mod(kx, s);
    assert(row * s + ky % s == oy * s + ky) by (nonlinear_arith)
        requires
            row == oy + ky / s,
            ky == s * (ky / s) + ky % s,
    ;
    assert(col * s + kx % s == ox * s + kx) by (nonlinear_arith)
        requires
            col == ox + kx / s,
            kx == s * (kx / s) + kx % s,
    ;
}

proof fn lemma_kernel_reach(n: int, k: int, s: int, p: int)
    requires
        s > 0,
        n >= 0,
        p >= 0,
        0 < k <= n + 2 * p,
    ensures
        (k - 1) / s < ceil_div((n + 2 * p) as nat, s as nat),
{
    let m = n + 2 * p;
    lemma_ceil(m, s);
    lemma_fundamental_div_mod(k - 1, s);
    lemma_mod_pos_bound(k - 1, s);
    let q = (k - 1) / s;
    let r = (k - 1) % s;
    let top = ceil_div(m as nat, s as nat) as int;
    assert(q < top) by (nonlinear_arith)
        requires
            k - 1 == s * q + r,
            r >= 0,
            k <= m,
            m <= top * s,
            s > 0,
    ;
}

} // verus!
