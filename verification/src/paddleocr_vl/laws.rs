//! How images are measured, cut into patches and merged.

use vstd::prelude::*;

use crate::axes::{lemma_digits, lemma_within};
use crate::paddleocr_vl::connector::{at_grid, at_merged, Connector, ConnectorLayers};
use crate::paddleocr_vl::preprocess::{
    at_patch, at_plane, brought_up, nearest_even, patch_grid, patchify, plan_of, planes_of,
    refused, Adjustment, FACTOR,
};

verus! {

/// A rounded fraction lies within half of it; where two numbers do, the even one is it.
pub proof fn law_fractions_are_rounded_to_the_nearest(n: int, d: int)
    requires
        n >= 0,
        d > 0,
    ensures
        -d <= 2 * (d * nearest_even(n, d) - n) <= d,
        2 * (d * nearest_even(n, d) - n) == d || 2 * (d * nearest_even(n, d) - n) == -d
            ==> nearest_even(n, d) % 2 == 0,
{
    vstd::arithmetic::div_mod::lemma_fundamental_div_mod(n, d);
    vstd::arithmetic::div_mod::lemma_mod_pos_bound(n, d);
    let (q, r) = (n / d, n % d);
    assert(d * (q + 1) == d * q + d) by (nonlinear_arith);
}

/// Sides that are long enough stay as they are. Where one is too short, it becomes the least there
/// is, and the other grows along with it, as far as whole numbers go; which one it is makes no
/// difference.
pub proof fn law_short_sides_are_brought_up_in_proportion(height: int, width: int)
    requires
        0 < height,
        0 < width,
        height >= FACTOR || width >= FACTOR,
    ensures
        height >= 28 && width >= 28 ==> brought_up(height, width) == (height, width),
        height < 28 ==> brought_up(height, width).0 == 28 && -height <= 2 * (brought_up(
            height,
            width,
        ).1 * height - 28 * width) <= height,
        width < 28 ==> brought_up(height, width).1 == 28 && -width <= 2 * (brought_up(
            height,
            width,
        ).0 * width - 28 * height) <= width,
        brought_up(width, height) == (brought_up(height, width).1, brought_up(height, width).0),
        brought_up(height, width).0 >= 28 && brought_up(height, width).1 >= 28,
{
    if height < 28 {
        law_fractions_are_rounded_to_the_nearest(width * 28, height);
        lemma_at_least(width * 28, height);
        let r = nearest_even(width * 28, height);
        assert(r * height == height * r) by (nonlinear_arith);
    } else if width < 28 {
        law_fractions_are_rounded_to_the_nearest(height * 28, width);
        lemma_at_least(height * 28, width);
        let r = nearest_even(height * 28, width);
        assert(r * width == width * r) by (nonlinear_arith);
    }
}

proof fn lemma_at_least(n: int, d: int)
    requires
        n >= 28 * d,
        d > 0,
    ensures
        nearest_even(n, d) >= 28,
{
    assert(n / d >= 28) by (nonlinear_arith)
        requires
            n >= 28 * d,
            d > 0,
    ;
}

/// An image is refused for a side of no pixels, or one more than two hundred times the other; it
/// does not matter which one is which.
pub proof fn law_images_are_refused_for_their_shape(height: u32, width: u32)
    ensures
        height == 0 || width == 0 ==> refused(height, width),
        height >= 28 && width >= 28 ==> (refused(height, width) <==> height > 200 * width || width
            > 200 * height),
        height >= 28 || width >= 28 ==> refused(height, width) == refused(width, height),
{
    if height > 0 && width > 0 && (height >= 28 || width >= 28) {
        law_short_sides_are_brought_up_in_proportion(height as int, width as int);
    }
}

/// The plan of a turned image is the plan, turned; sides that are whole already are not snapped.
pub proof fn law_turned_images_are_planned_alike(
    height: int,
    width: int,
    min_pixels: int,
    max_pixels: int,
)
    requires
        28 <= height <= u32::MAX,
        28 <= width <= u32::MAX,
    ensures
        ({
            let (p, q) = (
                plan_of(height, width, min_pixels, max_pixels),
                plan_of(width, height, min_pixels, max_pixels),
            );
            &&& q.height == p.width && q.width == p.height
            &&& q.rows == p.cols && q.cols == p.rows
            &&& q.adjustment == p.adjustment
            &&& height % 28 == 0 ==> 28 * p.rows == height
            &&& width % 28 == 0 ==> 28 * p.cols == width
            &&& p.adjustment == Adjustment::Shrink <==> (28 * p.rows) * (28 * p.cols) > max_pixels
            &&& p.adjustment == Adjustment::Grow <==> (28 * p.rows) * (28 * p.cols) < min_pixels
                && (28 * p.rows) * (28 * p.cols) <= max_pixels
        }),
{
    let (a, b) = (nearest_even(height, 28), nearest_even(width, 28));
    assert((a * 28) * (b * 28) == (b * 28) * (a * 28)) by (nonlinear_arith);
}

/// The grid has as many whole patches as the sides hold.
pub proof fn law_grids_hold_whole_patches(height: usize, width: usize, r: (usize, usize, usize))
    requires
        call_ensures(patch_grid, (height, width), r),
    ensures
        r.0 == 1,
        14 * r.1 <= height < 14 * (r.1 + 1),
        14 * r.2 <= width < 14 * (r.2 + 1),
{
}

/// Each plane holds its colour of every pixel, row by row.
pub proof fn law_planes_hold_one_colour_each<T: Copy>(
    pixels: Vec<T>,
    height: usize,
    width: usize,
    channels: usize,
    r: Option<Vec<T>>,
    c: int,
    y: int,
    x: int,
)
    requires
        call_ensures(planes_of::<T>, (&pixels, height, width, channels), r),
        0 <= c < channels,
        0 <= y < height,
        0 <= x < width,
    ensures
        r is Some <==> pixels@.len() == height * width * channels,
        r matches Some(planes) ==> planes@[c * (height * width) + y * width + x] == pixels@[(y
            * width + x) * channels + c],
{
    let at = at_plane(height as int, width as int, c, y, x);
    let (h, w) = (height as int, width as int);
    assert((c * h + y) * w + x == c * (h * w) + y * w + x) by (nonlinear_arith);
    if let Some(planes) = r {
        assert(planes@[at] == pixels@[(y * width + x) * channels + c]);
    }
}

/// A patch holds its square of every plane, plane by plane and row by row; the patches of an image
/// stand row by row.
pub proof fn law_patches_hold_their_squares(
    width: int,
    channels: int,
    c: int,
    row: int,
    col: int,
    i: int,
    j: int,
)
    requires
        0 <= i < 14,
        0 <= j < 14,
    ensures
        at_patch(width, channels, c, 14 * row + i, 14 * col + j) == (row * (width / 14) + col) * (
        channels * 196) + c * 196 + i * 14 + j,
{
    let (y, x) = (14 * row + i, 14 * col + j);
    assert(y / 14 == row && y % 14 == i && x / 14 == col && x % 14 == j);
    let p = row * (width / 14) + col;
    assert(((p * channels + c) * 14 + i) * 14 + j == p * (channels * 196) + c * 196 + i * 14 + j)
        by (nonlinear_arith);
}

/// An image is cut exactly where its sides hold whole patches, and each pixel of each plane goes to
/// the patch that it lies in.
pub proof fn law_whole_sides_are_cut<T: Copy>(
    planes: Vec<T>,
    channels: usize,
    height: usize,
    width: usize,
    r: Option<Vec<T>>,
    c: int,
    row: int,
    col: int,
    i: int,
    j: int,
)
    requires
        planes@.len() == channels * height * width,
        call_ensures(patchify::<T>, (&planes, channels, height, width), r),
        0 <= c < channels,
        0 <= 14 * row + i < height,
        0 <= 14 * col + j < width,
        0 <= i < 14,
        0 <= j < 14,
    ensures
        r is Some <==> height as int % 14 == 0 && width as int % 14 == 0,
        r matches Some(patches) ==> patches@[(row * (width as int / 14) + col) * (channels * 196)
            + c * 196 + i * 14 + j] == planes@[(c * height + (14 * row + i)) * width + (14 * col
            + j)],
{
    let (n, h, w) = (channels as int, height as int, width as int);
    let (a, b) = (h / 14 * 14, w / 14 * 14);
    assert(n * (h / 14) * 14 * (w / 14) * 14 == n * (a * b)) by (nonlinear_arith)
        requires
            a == h / 14 * 14,
            b == w / 14 * 14,
    ;
    assert(n * h * w == n * (h * w)) by (nonlinear_arith);
    assert(a * b == h * w <==> a == h && b == w) by (nonlinear_arith)
        requires
            0 <= a <= h,
            0 <= b <= w,
            h > 0,
            w > 0,
    ;
    assert(n * (a * b) == n * (h * w) <==> a * b == h * w) by (nonlinear_arith)
        requires
            n > 0,
    ;
    law_patches_hold_their_squares(w, n, c, row, col, i, j);
    if let Some(patches) = r {
        assert(patches@[at_patch(w, n, c, 14 * row + i, 14 * col + j)] == planes@[at_plane(
            h,
            w,
            c,
            14 * row + i,
            14 * col + j,
        )]);
    }
}

/// Merging keeps each feature of each patch: a block of patches becomes one row, which holds them
/// row by row, and the blocks of a frame stand row by row.
pub proof fn law_merged_blocks_hold_their_patches<T: Copy>(
    connector: Connector,
    x: Vec<T>,
    t: usize,
    h: usize,
    w: usize,
    r: Option<Vec<T>>,
    rows: int,
    cols: int,
    frame: int,
    by: int,
    bx: int,
    py: int,
    px: int,
    k: int,
)
    requires
        connector.merge_size > 0,
        call_ensures(Connector::merge::<T>, (&connector, &x, t, h, w), r),
        h == rows * connector.merge_size,
        w == cols * connector.merge_size,
        0 <= rows,
        0 <= cols,
        0 <= frame < t,
        0 <= by < rows,
        0 <= bx < cols,
        0 <= py < connector.merge_size,
        0 <= px < connector.merge_size,
        0 <= k < connector.vision_hidden,
    ensures
        r is Some <==> x@.len() == t * h * w * connector.vision_hidden,
        ({
            let m = connector.merge_size as int;
            let d = connector.vision_hidden as int;
            let block = (frame * rows + by) * cols + bx;
            r matches Some(merged) ==> merged@[((block * m + py) * m + px) * d + k] == x@[((frame
                * h + (by * m + py)) * w + (bx * m + px)) * d + k]
        }),
{
    let m = connector.merge_size as int;
    let d = connector.vision_hidden as int;
    lemma_digits(rows, 0, m);
    lemma_digits(cols, 0, m);
    lemma_digits(by, py, m);
    lemma_digits(bx, px, m);
    lemma_within(by, rows, py, m);
    lemma_within(bx, cols, px, m);
    assert(h as int / m * m == h && w as int / m * m == w);
    let (y, c) = (by * m + py, bx * m + px);
    if let Some(merged) = r {
        assert(merged@[at_merged(m, h as int, w as int, d, frame, y, c, k)] == x@[at_grid(
            h as int,
            w as int,
            d,
            frame,
            y,
            c,
            k,
        )]);
    }
}

/// The first layer reads the merged patches as they are, keeps their width, and the second brings
/// them to the width of the text. The norm is that of one patch.
pub proof fn law_connector_layers_chain(
    connector: Connector,
    t: usize,
    h: usize,
    w: usize,
    layers: ConnectorLayers,
    dims: (usize, usize),
)
    requires
        call_ensures(Connector::load, (&connector,), layers),
        call_ensures(Connector::merged_dims, (&connector, t, h, w), dims),
    ensures
        layers.linear_1.inputs == dims.1,
        layers.linear_2.inputs == layers.linear_1.outputs,
        layers.linear_1.outputs == layers.linear_1.inputs,
        layers.linear_2.outputs == connector.text_hidden,
        layers.pre_norm * (connector.merge_size * connector.merge_size) == dims.1,
        connector.merge_size > 0 && h as int % connector.merge_size as int == 0 && w as int
            % connector.merge_size as int == 0 ==> dims.0 * dims.1 == t * h * w * layers.pre_norm,
{
    let (m, d) = (connector.merge_size as int, connector.vision_hidden as int);
    assert(d * m * m == m * m * d && d * (m * m) == m * m * d) by (nonlinear_arith);
    if m > 0 {
        vstd::arithmetic::div_mod::lemma_fundamental_div_mod(h as int, m);
        vstd::arithmetic::div_mod::lemma_fundamental_div_mod(w as int, m);
        let (a, b) = (h as int / m, w as int / m);
        assert(a * m == m * a && b * m == m * b) by (nonlinear_arith);
    }
}

} // verus!
