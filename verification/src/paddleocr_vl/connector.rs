//! The connector between the vision tower and the decoder: it merges neighbouring
//! patches and projects them to the width of the text.

use vstd::prelude::*;

use crate::axes::{lemma_swapped_at, lemma_within, place, swap_axes, swapped};

verus! {

/// The connector's sizes.
#[derive(Debug, Clone, Copy, PartialEq, Eq, Structural)]
pub struct Connector {
    pub merge_size: usize,
    pub vision_hidden: usize,
    pub text_hidden: usize,
}

/// A linear layer's sizes.
#[derive(Debug, Clone, Copy, PartialEq, Eq, Structural)]
pub struct LinearSize {
    pub inputs: usize,
    pub outputs: usize,
}

/// The sizes of the connector's layers.
#[derive(Debug, Clone, Copy, PartialEq, Eq, Structural)]
pub struct ConnectorLayers {
    pub pre_norm: usize,
    pub linear_1: LinearSize,
    pub linear_2: LinearSize,
}

/// Where a feature of a patch stands: frame by frame, row by row.
pub open spec fn at_grid(h: int, w: int, d: int, frame: int, y: int, x: int, k: int) -> int {
    ((frame * h + y) * w + x) * d + k
}

/// Where a feature of a patch stands among merged patches: the blocks frame by frame and
/// row by row, in each its patches row by row.
pub open spec fn at_merged(
    m: int,
    h: int,
    w: int,
    d: int,
    frame: int,
    y: int,
    x: int,
    k: int,
) -> int {
    ((((frame * (h / m) + y / m) * (w / m) + x / m) * m + y % m) * m + x % m) * d + k
}

impl Connector {
    /// Every product of the connector's sizes and of those of an image fits a machine
    /// word.
    pub open spec fn fits(self, t: int, h: int, w: int) -> bool {
        &&& self.merge_size > 0
        &&& t * h <= usize::MAX
        &&& t * h * w <= usize::MAX
        &&& self.merge_size * self.vision_hidden <= usize::MAX
        &&& t * h * w * self.vision_hidden <= usize::MAX
    }

    /// The sizes of the layers: the norm is that of a patch, and both linear layers read
    /// merged patches.
    pub fn load(&self) -> (r: ConnectorLayers)
        requires
            self.vision_hidden * self.merge_size <= usize::MAX,
            self.vision_hidden * self.merge_size * self.merge_size <= usize::MAX,
        ensures
            r.pre_norm == self.vision_hidden,
            r.linear_1.inputs == self.vision_hidden * self.merge_size * self.merge_size,
            r.linear_1.outputs == r.linear_1.inputs,
            r.linear_2.inputs == r.linear_1.outputs,
            r.linear_2.outputs == self.text_hidden,
    {
        let merged: usize = self.vision_hidden * self.merge_size * self.merge_size;
        ConnectorLayers {
            pre_norm: self.vision_hidden,
            linear_1: LinearSize { inputs: merged, outputs: merged },
            linear_2: LinearSize { inputs: merged, outputs: self.text_hidden },
        }
    }

    /// Merges the patches of `t` frames of `h` rows and `w` columns. There are no merged
    /// patches where the features are not those of whole blocks.
    pub fn merge<T: Copy>(&self, x: &Vec<T>, t: usize, h: usize, w: usize) -> (r: Option<Vec<T>>)
        requires
            self.fits(t as int, h as int, w as int),
        ensures
            ({
                let m = self.merge_size as int;
                let d = self.vision_hidden as int;
                let rows = h as int / m * m;
                let cols = w as int / m * m;
                match r {
                    Some(merged) => {
                        &&& x@.len() == t * rows * cols * d
                        &&& merged@.len() == x@.len()
                        &&& forall|frame: int, y: int, c: int, k: int|
                            #![trigger at_merged(m, rows, cols, d, frame, y, c, k)]
                            0 <= frame < t && 0 <= y < rows && 0 <= c < cols && 0 <= k < d
                                ==> merged@[at_merged(m, rows, cols, d, frame, y, c, k)]
                                == x@[at_grid(rows, cols, d, frame, y, c, k)]
                    },
                    None => x@.len() != t * rows * cols * d,
                }
            }),
    {
        let m: usize = self.merge_size;
        let d: usize = self.vision_hidden;
        let (hb, wb): (usize, usize) = (h / m, w / m);
        proof {
            lemma_block_sizes(t as int, h as int, w as int, m as int, d as int);
        }
        if t * hb * m * wb * m * d != x.len() {
            return None;
        }
        proof {
            assert((t * hb) * m * wb * (m * d) == t * hb * m * wb * m * d) by (nonlinear_arith);
        }
        let merged: Vec<T> = swap_axes(x, t * hb, m, wb, m * d);
        proof {
            let rows = h as int / m as int * m;
            let cols = w as int / m as int * m;
            assert forall|frame: int, y: int, c: int, k: int|
                #![trigger at_merged(m as int, rows, cols, d as int, frame, y, c, k)]
                0 <= frame < t && 0 <= y < rows && 0 <= c < cols && 0 <= k
                    < d implies merged@[at_merged(m as int, rows, cols, d as int, frame, y, c, k)]
                == x@[at_grid(rows, cols, d as int, frame, y, c, k)] by {
                lemma_merged_places(
                    x@,
                    t as int,
                    hb as int,
                    wb as int,
                    m as int,
                    d as int,
                    frame,
                    y,
                    c,
                    k,
                );
            }
        }
        Some(merged)
    }

    /// The shape of merged patches: a row for each block, as wide as its patches together.
    /// It holds what the patches of whole blocks hold.
    pub fn merged_dims(&self, t: usize, h: usize, w: usize) -> (r: (usize, usize))
        requires
            self.fits(t as int, h as int, w as int),
            self.merge_size * self.merge_size <= usize::MAX,
            self.merge_size * self.merge_size * self.vision_hidden <= usize::MAX,
        ensures
            ({
                let m = self.merge_size as int;
                let d = self.vision_hidden as int;
                &&& r.0 == t * (h as int / m) * (w as int / m)
                &&& r.1 == m * m * d
                &&& r.0 * r.1 == t * (h as int / m * m) * (w as int / m * m) * d
            }),
    {
        let m: usize = self.merge_size;
        let d: usize = self.vision_hidden;
        let (hb, wb): (usize, usize) = (h / m, w / m);
        proof {
            lemma_block_sizes(t as int, h as int, w as int, m as int, d as int);
            assert(0 <= t * hb * wb <= t * hb * m * wb) by (nonlinear_arith)
                requires
                    t >= 0,
                    hb >= 0,
                    wb >= 0,
                    m > 0,
            ;
            assert((t * hb * wb) * (m * m * d) == t * (hb * m) * (wb * m) * d) by (nonlinear_arith);
        }
        (t * hb * wb, m * m * d)
    }

    /// The names of the tensors that stay as they are when weights are quantized.
    pub fn residual_tensors(&self) -> (r: Vec<String>)
        ensures
            r@.len() == connector_residuals().len(),
            forall|i: int| 0 <= i < r@.len() ==> #[trigger] r@[i]@ == connector_residuals()[i],
    {
        vec![
            "mlp_AR.pre_norm.weight".to_string(),
            "mlp_AR.pre_norm.bias".to_string(),
            "mlp_AR.linear_1.weight".to_string(),
            "mlp_AR.linear_1.bias".to_string(),
            "mlp_AR.linear_2.weight".to_string(),
            "mlp_AR.linear_2.bias".to_string(),
        ]
    }
}

proof fn lemma_block_sizes(t: int, h: int, w: int, m: int, d: int)
    requires
        t >= 0,
        h >= 0,
        w >= 0,
        m > 0,
        d >= 0,
    ensures
        ({
            let hb = h / m;
            let wb = w / m;
            &&& 0 <= t * hb <= t * h
            &&& 0 <= t * hb * m <= t * h
            &&& 0 <= t * hb * m * wb <= t * h * w
            &&& 0 <= t * hb * m * wb * m <= t * h * w
            &&& 0 <= t * hb * m * wb * m * d <= t * h * w * d
            &&& t * hb * m * wb * m * d == t * (hb * m) * (wb * m) * d
        }),
{
    let hb = h / m;
    let wb = w / m;
    assert(0 <= hb && hb * m <= h && 0 <= wb && wb * m <= w) by (nonlinear_arith)
        requires
            hb == h / m,
            wb == w / m,
            m > 0,
            h >= 0,
            w >= 0,
    ;
    assert(0 <= t * hb && t * hb <= t * hb * m && t * hb * m <= t * h) by (nonlinear_arith)
        requires
            t >= 0,
            0 <= hb,
            hb * m <= h,
            m > 0,
    ;
    let a = t * hb * m;
    let b = t * h;
    assert(0 <= a * wb && a * wb <= a * wb * m && a * wb * m <= b * w) by (nonlinear_arith)
        requires
            0 <= a <= b,
            0 <= wb,
            wb * m <= w,
            m > 0,
    ;
    let e = a * wb * m;
    let f = b * w;
    assert(0 <= e * d <= f * d) by (nonlinear_arith)
        requires
            0 <= e <= f,
            d >= 0,
    ;
    assert(t * hb * m * wb * m * d == t * (hb * m) * (wb * m) * d) by (nonlinear_arith);
}

proof fn lemma_merged_places<T>(
    x: Seq<T>,
    t: int,
    hb: int,
    wb: int,
    m: int,
    d: int,
    frame: int,
    y: int,
    c: int,
    k: int,
)
    requires
        m > 0,
        x.len() == (t * hb) * m * wb * (m * d),
        0 <= frame < t,
        0 <= y < hb * m,
        0 <= c < wb * m,
        0 <= k < d,
    ensures
        swapped(x, m, wb, m * d)[at_merged(m, hb * m, wb * m, d, frame, y, c, k)] == x[at_grid(
            hb * m,
            wb * m,
            d,
            frame,
            y,
            c,
            k,
        )],
{
    assert(hb >= 0 && wb >= 0) by (nonlinear_arith)
        requires
            0 < hb * m,
            0 < wb * m,
            m > 0,
    ;
    crate::axes::lemma_parts(y, hb, m);
    crate::axes::lemma_parts(c, wb, m);
    let by = y / m;
    let py = y % m;
    let bx = c / m;
    let px = c % m;
    lemma_within(frame, t, by, hb);
    lemma_within(px, m, k, d);
    let o = frame * hb + by;
    let q = px * d + k;
    lemma_swapped_at(x, t * hb, m, wb, m * d, o, py, bx, q);
    assert(hb * m / m == hb && wb * m / m == wb) by {
        crate::axes::lemma_digits(hb, 0, m);
        crate::axes::lemma_digits(wb, 0, m);
    }
    let r = o * m + py;
    let s = r * wb + bx;
    assert(frame * (hb * m) + y == r) by (nonlinear_arith)
        requires
            r == o * m + py,
            o == frame * hb + by,
            y == by * m + py,
    ;
    assert(r * (wb * m) + c == s * m + px) by (nonlinear_arith)
        requires
            s == r * wb + bx,
            c == bx * m + px,
    ;
    assert((s * m + px) * d + k == s * (m * d) + q) by (nonlinear_arith)
        requires
            q == px * d + k,
    ;
    assert(place(wb, m, m * d, o, bx, py, q) == (((o * wb + bx) * m + py) * m + px) * d + k)
        by (nonlinear_arith)
        requires
            q == px * d + k,
    ;
}

/// Merged two by two, the row of a block is its four patches: the upper left one, the
/// upper right one, the lower left one and the lower right one.
pub proof fn law_blocks_of_four_are_in_reading_order(
    h: int,
    w: int,
    d: int,
    frame: int,
    row: int,
    col: int,
    k: int,
)
    requires
        h % 2 == 0,
        w % 2 == 0,
    ensures
        ({
            let block = ((frame * (h / 2) + row) * (w / 2) + col) * (4 * d);
            &&& at_merged(2, h, w, d, frame, 2 * row, 2 * col, k) == block + k
            &&& at_merged(2, h, w, d, frame, 2 * row, 2 * col + 1, k) == block + d + k
            &&& at_merged(2, h, w, d, frame, 2 * row + 1, 2 * col, k) == block + 2 * d + k
            &&& at_merged(2, h, w, d, frame, 2 * row + 1, 2 * col + 1, k) == block + 3 * d + k
        }),
{
    let b = (frame * (h / 2) + row) * (w / 2) + col;
    assert((2 * row) / 2 == row && (2 * row + 1) / 2 == row);
    assert((2 * col) / 2 == col && (2 * col + 1) / 2 == col);
    lemma_in_block(b, d, 0, 0, 0);
    lemma_in_block(b, d, 0, 1, 1);
    lemma_in_block(b, d, 1, 0, 2);
    lemma_in_block(b, d, 1, 1, 3);
}

proof fn lemma_in_block(b: int, d: int, py: int, px: int, n: int)
    requires
        n == 2 * py + px,
    ensures
        ((b * 2 + py) * 2 + px) * d == b * (4 * d) + n * d,
{
    assert(((b * 2 + py) * 2 + px) * d == b * (4 * d) + n * d) by (nonlinear_arith)
        requires
            n == 2 * py + px,
    ;
}

/// The tensors of the connector that stay as they are when weights are quantized.
pub open spec fn connector_residuals() -> Seq<Seq<char>> {
    seq![
        "mlp_AR.pre_norm.weight"@,
        "mlp_AR.pre_norm.bias"@,
        "mlp_AR.linear_1.weight"@,
        "mlp_AR.linear_1.bias"@,
        "mlp_AR.linear_2.weight"@,
        "mlp_AR.linear_2.bias"@,
    ]
}

} // verus!
