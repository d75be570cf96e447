//! From a decoded image to the patches that the vision tower reads.

use image::{DynamicImage, ImageBuffer};
use vstd::prelude::*;

use crate::axes::{lemma_swapped_at, lemma_within, place, swap_axes, swapped};
use crate::text::{decimal, push_decimal};

verus! {

/// The side of a patch, in pixels.
pub const PATCH: usize = 14;

/// The patches along a side that are merged into one.
pub const MERGE: usize = 2;

/// Height and width are multiples of this.
pub const FACTOR: usize = 28;

pub const MIN_PIXELS: usize = 112896;

pub const MAX_PIXELS: usize = 1003520;

/// The largest ratio between the sides of an image.
pub const MAX_ASPECT_RATIO: u64 = 200;

/// The whole number nearest to a fraction; of two that are as near, the even one.
pub open spec fn nearest_even(n: int, d: int) -> int {
    let q = n / d;
    let r = n % d;
    if 2 * r < d || (2 * r == d && q % 2 == 0) {
        q
    } else {
        q + 1
    }
}

fn round_ties_even(n: u64, d: u64) -> (r: u64)
    requires
        d > 0,
        n < 0x4000000000000000,
    ensures
        r == nearest_even(n as int, d as int),
        r <= n + 1,
{
    let q: u64 = n / d;
    let rest: u64 = n % d;
    proof {
        assert(n as int / d as int <= n) by (nonlinear_arith)
            requires
                d > 0,
                n >= 0,
        ;
    }
    if rest < d - rest || (rest == d - rest && q % 2 == 0) {
        q
    } else {
        q + 1
    }
}

/// The sides of an image, height first, with the shorter one brought up to the least
/// size and the other one along with it.
pub open spec fn brought_up(height: int, width: int) -> (int, int) {
    let (h, w) = if height < FACTOR {
        (FACTOR as int, nearest_even(width * FACTOR, height))
    } else {
        (height, width)
    };
    if w < FACTOR {
        (nearest_even(h * FACTOR, w), FACTOR as int)
    } else {
        (h, w)
    }
}

/// One side is more than the allowed multiple of the other.
pub open spec fn too_long(h: int, w: int) -> bool {
    h > MAX_ASPECT_RATIO * w || w > MAX_ASPECT_RATIO * h
}

/// An image is refused: it has no pixels, or one side is too long for the other.
pub open spec fn refused(height: u32, width: u32) -> bool {
    let (h, w) = brought_up(height as int, width as int);
    height == 0 || width == 0 || too_long(h, w)
}

/// What is left to do with snapped sides.
#[derive(Debug, Clone, Copy, PartialEq, Eq, Structural)]
pub enum Adjustment {
    /// They are the sides.
    Keep,
    /// There are too many pixels.
    Shrink,
    /// There are too few pixels.
    Grow,
}

/// A root that is computed in floating point is known to one part in so many.
pub const ROOT_PARTS: u128 = 1099511627776;

/// The largest side that is brought up from one of an image.
pub const LARGEST_SIDE: u64 = 137438953472;

/// So many units of the factor are the whole units, rounded down, of the side of an image with
/// the given sides once it is shrunk to so many pixels: the side is `sqrt(side / other *
/// pixels)`, known to one part in many.
pub open spec fn shrinks_to(units: int, side: int, other: int, pixels: int) -> bool {
    let k = ROOT_PARTS as int;
    let below = units * FACTOR;
    let above = (units + 1) * FACTOR;
    &&& below * below * other * k <= side * pixels * (k + 1)
    &&& side * pixels * k < above * above * other * (k + 1)
}

/// So many units of the factor are the whole units, rounded up, of the side of an image with
/// the given sides once it is grown to so many pixels, known to one part in many.
pub open spec fn grows_to(units: int, side: int, other: int, pixels: int) -> bool {
    let k = ROOT_PARTS as int;
    let below = (units - 1) * FACTOR;
    let above = units * FACTOR;
    &&& units > 0
    &&& below * below * other * k < side * pixels * (k + 1)
    &&& side * pixels * k <= above * above * other * (k + 1)
}

/// The sides that an image is resized to, as far as they are known without roots.
#[derive(Debug, Clone, Copy, PartialEq, Eq, Structural)]
pub struct ResizePlan {
    /// The height after the shorter side was brought up.
    pub height: u64,
    /// The width after the shorter side was brought up.
    pub width: u64,
    /// The snapped height, in units of the factor.
    pub rows: u64,
    /// The snapped width, in units of the factor.
    pub cols: u64,
    pub adjustment: Adjustment,
}

impl ResizePlan {
    /// The sides before snapping are those of an image that is not too long.
    pub open spec fn measured(self) -> bool {
        &&& 0 < self.height <= LARGEST_SIDE
        &&& 0 < self.width <= LARGEST_SIDE
        &&& !too_long(self.height as int, self.width as int)
    }

    /// Those are the adjusted sides in units of the factor, where the plan asks for any.
    pub open spec fn adjusts(
        self,
        rows: int,
        cols: int,
        min_pixels: int,
        max_pixels: int,
    ) -> bool {
        let (h, w) = (self.height as int, self.width as int);
        match self.adjustment {
            Adjustment::Keep => true,
            Adjustment::Shrink => shrinks_to(rows, h, w, max_pixels) && shrinks_to(
                cols,
                w,
                h,
                max_pixels,
            ),
            Adjustment::Grow => grows_to(rows, h, w, min_pixels) && grows_to(
                cols,
                w,
                h,
                min_pixels,
            ),
        }
    }

    /// Whether those are the adjusted sides in units of the factor.
    pub fn adjusted_by(&self, rows: u32, cols: u32, min_pixels: u32, max_pixels: u32) -> (r: bool)
        requires
            self.measured(),
        ensures
            r == self.adjusts(rows as int, cols as int, min_pixels as int, max_pixels as int),
    {
        let (h, w): (u64, u64) = (self.height, self.width);
        match self.adjustment {
            Adjustment::Keep => true,
            Adjustment::Shrink => shrinks(rows, h, w, max_pixels) && shrinks(
                cols,
                w,
                h,
                max_pixels,
            ),
            Adjustment::Grow => grows(rows, h, w, min_pixels) && grows(cols, w, h, min_pixels),
        }
    }

    /// The sides, given those of an adjusted image in units of the factor.
    pub open spec fn sides(self, rows: int, cols: int) -> (int, int) {
        if self.adjustment == Adjustment::Keep {
            (self.rows * FACTOR, self.cols * FACTOR)
        } else {
            (rows * FACTOR, cols * FACTOR)
        }
    }

    /// The sides, height first. Where they are to be adjusted, `rows` and `cols` are the
    /// adjusted ones in units of the factor.
    pub fn finish(&self, rows: u32, cols: u32) -> (r: (u64, u64))
        requires
            self.rows <= u64::MAX / 28,
            self.cols <= u64::MAX / 28,
        ensures
            (r.0 as int, r.1 as int) == self.sides(rows as int, cols as int),
    {
        if self.adjustment == Adjustment::Keep {
            (self.rows * 28, self.cols * 28)
        } else {
            (rows as u64 * 28, cols as u64 * 28)
        }
    }
}

/// The plan for an image.
pub open spec fn plan_of(
    height: int,
    width: int,
    min_pixels: int,
    max_pixels: int,
) -> ResizePlan {
    let (h, w) = brought_up(height, width);
    let rows = nearest_even(h, FACTOR as int);
    let cols = nearest_even(w, FACTOR as int);
    let pixels = (rows * FACTOR) * (cols * FACTOR);
    ResizePlan {
        height: h as u64,
        width: w as u64,
        rows: rows as u64,
        cols: cols as u64,
        adjustment: if pixels > max_pixels {
            Adjustment::Shrink
        } else if pixels < min_pixels {
            Adjustment::Grow
        } else {
            Adjustment::Keep
        },
    }
}

/// The most units of the factor that a side can be adjusted to.
const MOST_UNITS: u32 = 65535;

proof fn lemma_square(n: int, other: int, most: int)
    requires
        0 <= n <= most,
        0 <= other,
    ensures
        0 <= n * n <= most * most,
        0 <= n * n * other <= most * most * other,
{
    assert(0 <= n * n <= most * most) by (nonlinear_arith)
        requires
            0 <= n <= most,
    ;
    let a = n * n;
    let b = most * most;
    assert(0 <= a * other <= b * other) by (nonlinear_arith)
        requires
            0 <= a <= b,
            0 <= other,
    ;
}

proof fn lemma_product(a: int, most_a: int, b: int, most_b: int)
    requires
        0 <= a <= most_a,
        0 <= b <= most_b,
    ensures
        0 <= a * b <= most_a * most_b,
{
    assert(0 <= a * b <= most_a * most_b) by (nonlinear_arith)
        requires
            0 <= a <= most_a,
            0 <= b <= most_b,
    ;
}

proof fn lemma_too_many(n: int, side: int, other: int, pixels: int)
    requires
        n >= 65535 * FACTOR,
        0 < side <= LARGEST_SIDE,
        0 < other <= LARGEST_SIDE,
        !too_long(side, other),
        0 <= pixels <= u32::MAX,
    ensures
        n * n * other * ROOT_PARTS > side * pixels * (ROOT_PARTS + 1),
{
    let k = ROOT_PARTS as int;
    let m = 65535 * FACTOR as int;
    assert(n * n >= m * m) by (nonlinear_arith)
        requires
            n >= m,
            m >= 0,
    ;
    let a = n * n;
    let p = u32::MAX as int;
    assert(m * m >= 3000000000000) by (nonlinear_arith)
        requires
            m == 1834980,
    ;
    assert(a * other >= 3000000000000 * other) by (nonlinear_arith)
        requires
            a >= 3000000000000,
            other > 0,
    ;
    assert(side * pixels <= (200 * other) * p) by (nonlinear_arith)
        requires
            0 < side <= 200 * other,
            0 <= pixels <= p,
    ;
    assert(200 * other * p <= 900000000000 * other);
    let b = a * other;
    let c = side * pixels;
    assert(b > 3 * c && c >= 0 && b > 0) by {
        assert(c >= 0) by (nonlinear_arith)
            requires
                c == side * pixels,
                side > 0,
                pixels >= 0,
        ;
    }
    assert(b * k > c * (k + 1)) by (nonlinear_arith)
        requires
            b > 3 * c,
            c >= 0,
            b > 0,
            k >= 1,
    ;
}

fn shrinks(units: u32, side: u64, other: u64, pixels: u32) -> (r: bool)
    requires
        0 < side <= LARGEST_SIDE,
        0 < other <= LARGEST_SIDE,
        !too_long(side as int, other as int),
    ensures
        r == shrinks_to(units as int, side as int, other as int, pixels as int),
{
    if units > MOST_UNITS {
        proof {
            lemma_too_many(units * FACTOR, side as int, other as int, pixels as int);
        }
        return false;
    }
    let below: u128 = units as u128 * 28;
    let above: u128 = (units as u128 + 1) * 28;
    proof {
        lemma_square(below as int, other as int, 1835008);
        lemma_square(above as int, other as int, 1835008);
        lemma_product(above * above, 3367254360064, other as int, LARGEST_SIDE as int);
        lemma_product(below * below, 3367254360064, other as int, LARGEST_SIDE as int);
        lemma_product(side as int, 137438953472, pixels as int, 4294967295);
    }
    let low: u128 = below * below * other as u128;
    let high: u128 = above * above * other as u128;
    let wanted: u128 = side as u128 * pixels as u128;
    proof {
        lemma_product(wanted as int, 590295810358705651712, ROOT_PARTS + 1, 1099511627777);
        lemma_product(high as int, 462791915321225230942208, ROOT_PARTS + 1, 1099511627777);
    }
    low * ROOT_PARTS <= wanted * (ROOT_PARTS + 1) && wanted * ROOT_PARTS < high * (ROOT_PARTS + 1)
}

fn grows(units: u32, side: u64, other: u64, pixels: u32) -> (r: bool)
    requires
        0 < side <= LARGEST_SIDE,
        0 < other <= LARGEST_SIDE,
        !too_long(side as int, other as int),
    ensures
        r == grows_to(units as int, side as int, other as int, pixels as int),
{
    if units == 0 {
        return false;
    }
    if units > MOST_UNITS {
        proof {
            lemma_too_many((units - 1) * FACTOR, side as int, other as int, pixels as int);
        }
        return false;
    }
    let below: u128 = (units as u128 - 1) * 28;
    let above: u128 = units as u128 * 28;
    proof {
        lemma_square(below as int, other as int, 1835008);
        lemma_square(above as int, other as int, 1835008);
        lemma_product(above * above, 3367254360064, other as int, LARGEST_SIDE as int);
        lemma_product(below * below, 3367254360064, other as int, LARGEST_SIDE as int);
        lemma_product(side as int, 137438953472, pixels as int, 4294967295);
    }
    let low: u128 = below * below * other as u128;
    let high: u128 = above * above * other as u128;
    let wanted: u128 = side as u128 * pixels as u128;
    proof {
        lemma_product(wanted as int, 590295810358705651712, ROOT_PARTS + 1, 1099511627777);
        lemma_product(high as int, 462791915321225230942208, ROOT_PARTS + 1, 1099511627777);
    }
    low * ROOT_PARTS < wanted * (ROOT_PARTS + 1) && wanted * ROOT_PARTS <= high * (ROOT_PARTS + 1)
}

/// The refusal of an image without pixels.
pub open spec fn zero_text(height: u32, width: u32) -> Seq<char> {
    "image has a zero dimension ("@ + decimal(width as nat) + "x"@ + decimal(height as nat) + ")"@
}

/// The refusal of an image that is too long.
pub open spec fn long_text(height: u32, width: u32) -> Seq<char> {
    "image aspect ratio "@ + decimal(width as nat) + "x"@ + decimal(height as nat)
        + " exceeds 200"@
}

proof fn lemma_brought_up(height: int, width: int)
    requires
        0 < height <= u32::MAX,
        0 < width <= u32::MAX,
    ensures
        height < FACTOR ==> 1 <= nearest_even(width * FACTOR, height) <= width * FACTOR + 1,
        FACTOR <= brought_up(height, width).0 <= LARGEST_SIDE,
        FACTOR <= brought_up(height, width).1 <= LARGEST_SIDE,
{
    if height < FACTOR {
        let n = width * FACTOR;
        lemma_ratio(n, height, 1);
        let w = nearest_even(n, height);
        if w < FACTOR {
            lemma_ratio(FACTOR * FACTOR, w, FACTOR as int);
        }
    } else if width < FACTOR {
        let n = height * FACTOR;
        assert(n >= FACTOR * width);
        lemma_ratio(n, width, FACTOR as int);
    }
}

/// The rounded fraction is at least what the fraction is at least.
proof fn lemma_ratio(n: int, d: int, least: int)
    requires
        n >= least * d,
        d > 0,
        least >= 0,
    ensures
        least <= nearest_even(n, d) <= n + 1,
{
    assert(n / d >= least && n / d <= n) by (nonlinear_arith)
        requires
            n >= least * d,
            d > 0,
            least >= 0,
    ;
}

/// Plans the sides of an image whose pixels are to lie within bounds. Sides are snapped
/// to multiples of the factor; of an image whose snapped sides hold too many or too few
/// pixels the plan gives what its sides are adjusted from.
pub fn smart_resize_bounded(
    height: u32,
    width: u32,
    min_pixels: u32,
    max_pixels: u32,
) -> (r: Result<
    ResizePlan,
    String,
>)
    ensures
        match r {
            Ok(plan) => {
                &&& !refused(height, width)
                &&& plan == plan_of(
                    height as int,
                    width as int,
                    min_pixels as int,
                    max_pixels as int,
                )
                &&& plan.measured()
                &&& plan.rows <= u64::MAX / 28
                &&& plan.cols <= u64::MAX / 28
            },
            Err(text) => {
                &&& refused(height, width)
                &&& if height == 0 || width == 0 {
                    text@ == zero_text(height, width)
                } else {
                    text@ == long_text(height, width)
                }
            },
        },
{
    if height == 0 || width == 0 {
        let mut text: String = "image has a zero dimension (".to_string();
        push_decimal(&mut text, width as usize);
        text.append("x");
        push_decimal(&mut text, height as usize);
        text.append(")");
        return Err(text);
    }
    proof {
        lemma_brought_up(height as int, width as int);
    }
    let mut h: u64 = height as u64;
    let mut w: u64 = width as u64;
    if h < 28 {
        w = round_ties_even(w * 28, h);
        h = 28;
    }
    if w < 28 {
        h = round_ties_even(h * 28, w);
        w = 28;
    }
    assert((h as int, w as int) == brought_up(height as int, width as int));
    if h > 200 * w || w > 200 * h {
        let mut text: String = "image aspect ratio ".to_string();
        push_decimal(&mut text, width as usize);
        text.append("x");
        push_decimal(&mut text, height as usize);
        text.append(" exceeds 200");
        return Err(text);
    }
    let rows: u64 = round_ties_even(h, 28);
    let cols: u64 = round_ties_even(w, 28);
    let (h_bar, w_bar): (u64, u64) = (rows * 28, cols * 28);
    proof {
        assert(0 <= h_bar * w_bar <= u128::MAX) by (nonlinear_arith)
            requires
                0 <= h_bar <= u64::MAX,
                0 <= w_bar <= u64::MAX,
        ;
    }
    let pixels: u128 = h_bar as u128 * w_bar as u128;
    let adjustment: Adjustment = if pixels > max_pixels as u128 {
        Adjustment::Shrink
    } else if pixels < min_pixels as u128 {
        Adjustment::Grow
    } else {
        Adjustment::Keep
    };
    Ok(ResizePlan { height: h, width: w, rows, cols, adjustment })
}

/// The plan for an image with the bounds of the model.
pub open spec fn model_plan(height: int, width: int) -> ResizePlan {
    plan_of(height, width, MIN_PIXELS as int, MAX_PIXELS as int)
}

/// Plans the sides of an image with the bounds of the model.
pub fn smart_resize(height: u32, width: u32) -> (r: Result<ResizePlan, String>)
    ensures
        match r {
            Ok(plan) => {
                &&& !refused(height, width)
                &&& plan == model_plan(height as int, width as int)
                &&& plan.measured()
                &&& plan.rows <= u64::MAX / 28
                &&& plan.cols <= u64::MAX / 28
            },
            Err(text) => {
                &&& refused(height, width)
                &&& if height == 0 || width == 0 {
                    text@ == zero_text(height, width)
                } else {
                    text@ == long_text(height, width)
                }
            },
        },
{
    smart_resize_bounded(height, width, MIN_PIXELS as u32, MAX_PIXELS as u32)
}

/// Whatever adjusted sides come back, the sides of the resized image are whole numbers
/// of merged patches, and so of patches.
pub proof fn law_sides_are_whole_patches(plan: ResizePlan, rows: int, cols: int)
    requires
        rows >= 0,
        cols >= 0,
    ensures
        plan.sides(rows, cols).0 % FACTOR as int == 0,
        plan.sides(rows, cols).1 % FACTOR as int == 0,
        plan.sides(rows, cols).0 % PATCH as int == 0,
        plan.sides(rows, cols).1 % PATCH as int == 0,
{
}

/// Sides that are kept hold a number of pixels within the bounds, and neither is
/// without patches.
pub proof fn law_kept_sides_are_within_bounds(
    plan: ResizePlan,
    height: u32,
    width: u32,
    min_pixels: int,
    max_pixels: int,
)
    requires
        height > 0,
        width > 0,
        plan == plan_of(height as int, width as int, min_pixels, max_pixels),
        plan.adjustment == Adjustment::Keep,
    ensures
        min_pixels <= plan.sides(0, 0).0 * plan.sides(0, 0).1 <= max_pixels,
        plan.sides(0, 0).0 >= FACTOR,
        plan.sides(0, 0).1 >= FACTOR,
{
    lemma_brought_up(height as int, width as int);
    let (h, w) = brought_up(height as int, width as int);
    lemma_ratio(h, FACTOR as int, 1);
    lemma_ratio(w, FACTOR as int, 1);
}

proof fn lemma_root_order(x: int, y: int, area: int)
    requires
        x >= 0,
        y >= 0,
        area > 0,
        area * (x * x) <= area * (y * y),
    ensures
        x <= y,
{
    assert(x * x <= y * y) by (nonlinear_arith)
        requires
            area > 0,
            area * (x * x) <= area * (y * y),
    ;
    assert(x <= y) by (nonlinear_arith)
        requires
            x * x <= y * y,
            x >= 0,
            y >= 0,
    ;
}

proof fn lemma_squares_in_area(a: int, b: int, h: int, w: int, s: int)
    ensures
        (a * a * w * s) * (b * b * h * s) == (h * w) * ((a * b * s) * (a * b * s)),
        (h * a * s) * (w * a * s) == (h * w) * ((a * s) * (a * s)),
{
    let (p, q) = (a * a, b * b);
    assert((p * w * s) * (q * h * s) == (h * w) * ((p * q) * (s * s))) by (nonlinear_arith);
    assert(p * q == (a * b) * (a * b)) by (nonlinear_arith)
        requires
            p == a * a,
            q == b * b,
    ;
    let c = a * b;
    assert((c * c) * (s * s) == (c * s) * (c * s)) by (nonlinear_arith);
    assert((h * a * s) * (w * a * s) == (h * w) * ((a * s) * (a * s))) by (nonlinear_arith);
}

proof fn lemma_signs(a: int, b: int, h: int, w: int, m: int, s: int)
    requires
        a >= 0,
        b >= 0,
        h > 0,
        w > 0,
        m >= 0,
        s > 0,
    ensures
        h * w > 0,
        a * b >= 0,
        a * b * s >= 0,
        m * s >= 0,
        a * a * w * s >= 0,
        b * b * h * s >= 0,
        h * m * s >= 0,
        w * m * s >= 0,
{
    lemma_product(h, h, w, w);
    assert(h * w > 0) by (nonlinear_arith)
        requires
            h > 0,
            w > 0,
    ;
    lemma_product(a, a, b, b);
    lemma_product(a * b, a * b, s, s);
    lemma_product(m, m, s, s);
    lemma_product(a, a, a, a);
    lemma_product(a * a, a * a, w, w);
    lemma_product(a * a * w, a * a * w, s, s);
    lemma_product(b, b, b, b);
    lemma_product(b * b, b * b, h, h);
    lemma_product(b * b * h, b * b * h, s, s);
    lemma_product(h, h, m, m);
    lemma_product(h * m, h * m, s, s);
    lemma_product(w, w, m, m);
    lemma_product(w * m, w * m, s, s);
}

/// Two sides whose squares are at most so large have at most so many pixels.
proof fn lemma_pixels_at_most(a: int, b: int, h: int, w: int, m: int, k: int)
    requires
        a >= 0,
        b >= 0,
        h > 0,
        w > 0,
        m >= 0,
        k > 0,
        a * a * w * k <= h * m * (k + 1),
        b * b * h * k <= w * m * (k + 1),
    ensures
        a * b * k <= m * (k + 1),
{
    lemma_signs(a, b, h, w, m, k);
    lemma_signs(a, b, h, w, m, k + 1);
    let (x, y) = (a * a * w * k, h * m * (k + 1));
    let (u, v) = (b * b * h * k, w * m * (k + 1));
    assert(x * u <= y * v) by (nonlinear_arith)
        requires
            0 <= x <= y,
            0 <= u <= v,
    ;
    lemma_squares_in_area(a, b, h, w, k);
    lemma_squares_in_area(m, m, h, w, k + 1);
    lemma_root_order(a * b * k, m * (k + 1), h * w);
}

/// Two sides whose squares are at least so large have at least so many pixels.
proof fn lemma_pixels_at_least(a: int, b: int, h: int, w: int, m: int, k: int)
    requires
        a >= 0,
        b >= 0,
        h > 0,
        w > 0,
        m >= 0,
        k > 0,
        h * m * k <= a * a * w * (k + 1),
        w * m * k <= b * b * h * (k + 1),
    ensures
        m * k <= a * b * (k + 1),
{
    lemma_signs(a, b, h, w, m, k);
    lemma_signs(a, b, h, w, m, k + 1);
    let (x, y) = (h * m * k, a * a * w * (k + 1));
    let (u, v) = (w * m * k, b * b * h * (k + 1));
    assert(x * u <= y * v) by (nonlinear_arith)
        requires
            0 <= x <= y,
            0 <= u <= v,
    ;
    lemma_squares_in_area(a, b, h, w, k + 1);
    lemma_squares_in_area(m, m, h, w, k);
    lemma_root_order(m * k, a * b * (k + 1), h * w);
}

/// An image that is shrunk has no more pixels than allowed, and one that is grown has no fewer
/// than asked for.
pub proof fn law_adjusting_respects_the_bound(
    plan: ResizePlan,
    rows: int,
    cols: int,
    min_pixels: int,
    max_pixels: int,
)
    requires
        plan.measured(),
        plan.adjusts(rows, cols, min_pixels, max_pixels),
        rows >= 0,
        cols >= 0,
        0 <= min_pixels <= u32::MAX,
        0 <= max_pixels <= u32::MAX,
    ensures
        plan.adjustment == Adjustment::Shrink ==> plan.sides(rows, cols).0 * plan.sides(
            rows,
            cols,
        ).1 <= max_pixels,
        plan.adjustment == Adjustment::Grow ==> plan.sides(rows, cols).0 * plan.sides(
            rows,
            cols,
        ).1 >= min_pixels,
{
    let k = ROOT_PARTS as int;
    let (h, w) = (plan.height as int, plan.width as int);
    let (a, b) = (rows * FACTOR, cols * FACTOR);
    if plan.adjustment == Adjustment::Shrink {
        lemma_pixels_at_most(a, b, h, w, max_pixels, k);
        let n = a * b;
        assert(n <= max_pixels) by (nonlinear_arith)
            requires
                n * k <= max_pixels * (k + 1),
                0 <= max_pixels < k,
        ;
    } else if plan.adjustment == Adjustment::Grow {
        lemma_pixels_at_least(a, b, h, w, min_pixels, k);
        let n = a * b;
        assert(n >= min_pixels) by (nonlinear_arith)
            requires
                min_pixels * k <= n * (k + 1),
                0 <= min_pixels <= k,
        ;
    }
}

/// A side of an image that is not too long is at most so many units.
proof fn lemma_units_at_most(n: int, side: int, other: int, area: int, most: int)
    requires
        n >= 0,
        0 < other,
        0 < side <= 200 * other,
        area >= 0,
        (n * FACTOR) * (n * FACTOR) * other * ROOT_PARTS <= side * (area * 784) * (ROOT_PARTS + 1),
        most >= 0,
        (most + 1) * (most + 1) >= area * 200 + 1,
        area <= 1280,
    ensures
        n <= most,
{
    let k = ROOT_PARTS as int;
    let q = n * n;
    assert((n * 28) * (n * 28) * other * k == (q * k * 784) * other) by (nonlinear_arith)
        requires
            q == n * n,
    ;
    assert(side * (area * 784) * (k + 1) <= (area * 200 * (k + 1) * 784) * other)
        by (nonlinear_arith)
        requires
            0 < side <= 200 * other,
            area >= 0,
            k > 0,
    ;
    assert(q * k * 784 <= area * 200 * (k + 1) * 784) by (nonlinear_arith)
        requires
            (q * k * 784) * other <= (area * 200 * (k + 1) * 784) * other,
            other > 0,
    ;
    assert(q <= area * 200) by (nonlinear_arith)
        requires
            q * k <= area * 200 * (k + 1),
            0 <= area <= 1280,
            k > 256000,
    ;
    if n > most {
        assert(n * n >= (most + 1) * (most + 1)) by (nonlinear_arith)
            requires
                n >= most + 1,
                most >= 0,
        ;
    }
}

/// The sides of a resized image hold a number of pixels within the bounds of the model, and
/// neither is without patches, whether they are kept or adjusted.
pub proof fn law_sides_are_within_bounds(height: u32, width: u32, rows: int, cols: int)
    requires
        !refused(height, width),
        rows >= 0,
        cols >= 0,
        model_plan(height as int, width as int).adjusts(
            rows,
            cols,
            MIN_PIXELS as int,
            MAX_PIXELS as int,
        ),
    ensures
        ({
            let (h, w) = model_plan(height as int, width as int).sides(rows, cols);
            &&& MIN_PIXELS <= h * w <= MAX_PIXELS
            &&& h >= FACTOR
            &&& w >= FACTOR
        }),
{
    let plan = model_plan(height as int, width as int);
    let k = ROOT_PARTS as int;
    let (h, w) = (plan.height as int, plan.width as int);
    lemma_brought_up(height as int, width as int);
    law_adjusting_respects_the_bound(plan, rows, cols, MIN_PIXELS as int, MAX_PIXELS as int);
    if plan.adjustment == Adjustment::Keep {
        law_kept_sides_are_within_bounds(
            plan,
            height,
            width,
            MIN_PIXELS as int,
            MAX_PIXELS as int,
        );
    } else if plan.adjustment == Adjustment::Shrink {
        lemma_units_at_most(rows, h, w, 1280, 505);
        lemma_units_at_most(cols, w, h, 1280, 505);
        let (a, b) = (rows + 1, cols + 1);
        lemma_pixels_at_least(a * 28, b * 28, h, w, MAX_PIXELS as int, k);
        let n = a * b;
        assert((a * 28) * (b * 28) == 784 * n) by (nonlinear_arith)
            requires
                n == a * b,
        ;
        assert(n >= 1280) by (nonlinear_arith)
            requires
                1003520 * k <= 784 * n * (k + 1),
                k > 1280,
        ;
        assert(rows * cols == n - rows - cols - 1) by (nonlinear_arith)
            requires
                n == (rows + 1) * (cols + 1),
        ;
        lemma_units(rows, cols, 269);
    } else {
        lemma_units_at_most(rows - 1, h, w, 144, 169);
        lemma_units_at_most(cols - 1, w, h, 144, 169);
        let (a, b) = (rows - 1, cols - 1);
        lemma_pixels_at_most(a * 28, b * 28, h, w, MIN_PIXELS as int, k);
        let n = a * b;
        assert((a * 28) * (b * 28) == 784 * n) by (nonlinear_arith)
            requires
                n == a * b,
        ;
        assert(n <= 144) by (nonlinear_arith)
            requires
                784 * n * k <= 112896 * (k + 1),
                k > 144,
        ;
        assert(rows * cols == n + rows + cols - 1) by (nonlinear_arith)
            requires
                n == (rows - 1) * (cols - 1),
        ;
        lemma_units(rows, cols, 1);
    }
}

/// Units whose product is not zero are not zero, and hold so many pixels.
proof fn lemma_units(rows: int, cols: int, least: int)
    requires
        rows >= 0,
        cols >= 0,
        rows * cols >= least > 0 || (rows > 0 && cols > 0),
    ensures
        rows >= 1,
        cols >= 1,
        (rows * FACTOR) * (cols * FACTOR) == 784 * (rows * cols),
{
    assert(rows >= 1 && cols >= 1) by (nonlinear_arith)
        requires
            rows >= 0,
            cols >= 0,
            rows * cols > 0 || (rows > 0 && cols > 0),
    ;
    assert((rows * 28) * (cols * 28) == 784 * (rows * cols)) by (nonlinear_arith);
}

/// Snapping moves a side by no more than half of the factor.
pub proof fn law_snapping_moves_little(
    plan: ResizePlan,
    height: u32,
    width: u32,
    min_pixels: int,
    max_pixels: int,
)
    requires
        height > 0,
        width > 0,
        plan == plan_of(height as int, width as int, min_pixels, max_pixels),
    ensures
        -14 <= plan.rows * FACTOR - plan.height <= 14,
        -14 <= plan.cols * FACTOR - plan.width <= 14,
{
    lemma_brought_up(height as int, width as int);
}

/// The grid of patches of an image: one frame, its rows and its columns.
pub fn patch_grid(height: usize, width: usize) -> (r: (usize, usize, usize))
    ensures
        r.0 == 1,
        r.1 == height / 14,
        r.2 == width / 14,
{
    (1, height / PATCH, width / PATCH)
}

/// An image whose pixels hold `channels` colours one behind the other, in planes.
pub fn planes_of<T: Copy>(
    pixels: &Vec<T>,
    height: usize,
    width: usize,
    channels: usize,
) -> (r: Option<
    Vec<T>,
>)
    requires
        height * width <= usize::MAX,
        height * width * channels <= usize::MAX,
    ensures
        match r {
            Some(planes) => {
                &&& pixels@.len() == height * width * channels
                &&& planes@.len() == pixels@.len()
                &&& forall|c: int, y: int, x: int|
                    #![trigger at_plane(height as int, width as int, c, y, x)]
                    0 <= c < channels && 0 <= y < height && 0 <= x < width ==> planes@[at_plane(
                        height as int,
                        width as int,
                        c,
                        y,
                        x,
                    )] == pixels@[(y * width + x) * channels + c]
            },
            None => pixels@.len() != height * width * channels,
        },
{
    let n: usize = height * width;
    if pixels.len() != n * channels {
        return None;
    }
    proof {
        assert(1 * n == n && n * channels == 1 * n * channels * 1) by (nonlinear_arith);
    }
    let planes: Vec<T> = swap_axes(pixels, 1, n, channels, 1);
    proof {
        assert forall|c: int, y: int, x: int|
            #![trigger at_plane(height as int, width as int, c, y, x)]
            0 <= c < channels && 0 <= y < height && 0 <= x < width implies planes@[at_plane(
            height as int,
            width as int,
            c,
            y,
            x,
        )] == pixels@[(y * width + x) * channels + c] by {
            lemma_within(y, height as int, x, width as int);
            let i = y * width + x;
            lemma_swapped_at(pixels@, 1, n as int, channels as int, 1, 0, i, c, 0);
            assert(place(n as int, channels as int, 1, 0, i, c, 0) == i * channels + c)
                by (nonlinear_arith);
            assert(place(channels as int, n as int, 1, 0, c, i, 0) == (c * height + y) * width + x)
                by (nonlinear_arith)
                requires
                    n == height * width,
                    i == y * width + x,
            ;
        }
    }
    Some(planes)
}

/// Where a pixel stands among planes.
pub open spec fn at_plane(height: int, width: int, c: int, y: int, x: int) -> int {
    (c * height + y) * width + x
}

/// Where a pixel stands among patches: the patches row by row, in each its planes.
pub open spec fn at_patch(width: int, channels: int, c: int, y: int, x: int) -> int {
    ((((y / 14) * (width / 14) + x / 14) * channels + c) * 14 + y % 14) * 14 + x % 14
}

/// The pixels of the patches that sides hold.
pub open spec fn patch_pixels(channels: int, height: int, width: int) -> int {
    channels * (height / 14) * 14 * (width / 14) * 14
}

/// Cuts planes into patches. There are none where the sides do not hold whole patches.
pub fn patchify<T: Copy>(
    planes: &Vec<T>,
    channels: usize,
    height: usize,
    width: usize,
) -> (r: Option<
    Vec<T>,
>)
    requires
        channels * height <= usize::MAX,
        height * width <= usize::MAX,
        channels * height * width <= usize::MAX,
        planes@.len() == channels * height * width,
    ensures
        match r {
            Some(patches) => {
                &&& patch_pixels(channels as int, height as int, width as int) == planes@.len()
                &&& patches@.len() == planes@.len()
                &&& forall|c: int, y: int, x: int|
                    #![trigger at_patch(width as int, channels as int, c, y, x)]
                    0 <= c < channels && 0 <= y < height && 0 <= x < width ==> patches@[at_patch(
                        width as int,
                        channels as int,
                        c,
                        y,
                        x,
                    )] == planes@[at_plane(height as int, width as int, c, y, x)]
            },
            None => patch_pixels(channels as int, height as int, width as int) != planes@.len(),
        },
{
    let (gh, gw): (usize, usize) = (height / PATCH, width / PATCH);
    proof {
        lemma_patch_sizes(channels as int, height as int, width as int);
    }
    if channels * gh * PATCH * gw * PATCH != planes.len() {
        return None;
    }
    proof {
        let c = channels as int;
        let g = gh * gw;
        assert(c * gh * 14 * gw * 14 == 1 * c * g * 196) by (nonlinear_arith)
            requires
                g == gh * gw,
        ;
    }
    let rows: Vec<T> = swap_axes(planes, channels * gh, PATCH, gw, PATCH);
    let patches: Vec<T> = swap_axes(&rows, 1, channels, gh * gw, PATCH * PATCH);
    proof {
        assert forall|c: int, y: int, x: int|
            #![trigger at_patch(width as int, channels as int, c, y, x)]
            0 <= c < channels && 0 <= y < height && 0 <= x < width implies patches@[at_patch(
            width as int,
            channels as int,
            c,
            y,
            x,
        )] == planes@[at_plane(height as int, width as int, c, y, x)] by {
            lemma_patch_places(planes@, channels as int, height as int, width as int, c, y, x);
        }
    }
    Some(patches)
}

proof fn lemma_patch_sizes(channels: int, height: int, width: int)
    requires
        channels >= 0,
        height >= 0,
        width >= 0,
    ensures
        ({
            let gh = height / 14;
            let gw = width / 14;
            &&& 0 <= channels * gh <= channels * height
            &&& 0 <= channels * gh * 14 <= channels * height
            &&& 0 <= gh * gw <= height * width
            &&& 0 <= channels * gh * 14 * gw <= channels * height * width
            &&& 0 <= channels * gh * 14 * gw * 14 <= channels * height * width
        }),
{
    let gh = height / 14;
    let gw = width / 14;
    assert(0 <= gh * 14 <= height && 0 <= gw * 14 <= width);
    assert(0 <= channels * gh && channels * (gh * 14) <= channels * height) by (nonlinear_arith)
        requires
            channels >= 0,
            0 <= gh * 14 <= height,
    ;
    assert(channels * gh * 14 == channels * (gh * 14)) by (nonlinear_arith);
    assert(0 <= gh * gw <= height * width) by (nonlinear_arith)
        requires
            0 <= gh <= height,
            0 <= gw <= width,
    ;
    let a = channels * gh * 14;
    let b = channels * height;
    assert(0 <= a * gw && a * (gw * 14) <= b * width) by (nonlinear_arith)
        requires
            0 <= a <= b,
            0 <= gw,
            0 <= gw * 14 <= width,
    ;
    assert(a * gw * 14 == a * (gw * 14)) by (nonlinear_arith);
}

proof fn lemma_patch_places<T>(
    planes: Seq<T>,
    channels: int,
    height: int,
    width: int,
    c: int,
    y: int,
    x: int,
)
    requires
        planes.len() == channels * height * width,
        patch_pixels(channels, height, width) == planes.len(),
        0 <= c < channels,
        0 <= y < height,
        0 <= x < width,
    ensures
        ({
            let gh = height / 14;
            let gw = width / 14;
            let rows = swapped(planes, 14, gw, 14);
            swapped(rows, channels, gh * gw, 196)[at_patch(width, channels, c, y, x)]
                == planes[at_plane(height, width, c, y, x)]
        }),
{
    let gh = height / 14;
    let gw = width / 14;
    assert(height == gh * 14 && width == gw * 14) by {
        lemma_whole(channels, height, width);
    }
    let gy = y / 14;
    let py = y % 14;
    let gx = x / 14;
    let px = x % 14;
    assert(0 <= gy < gh && 0 <= gx < gw && 0 <= py < 14 && 0 <= px < 14);
    let o = c * gh + gy;
    lemma_within(c, channels, gy, gh);
    let rows = swapped(planes, 14, gw, 14);
    lemma_swapped_at(planes, channels * gh, 14, gw, 14, o, py, gx, px);
    assert(place(14, gw, 14, o, py, gx, px) == at_plane(height, width, c, y, x))
        by (nonlinear_arith)
        requires
            o == c * gh + gy,
            height == gh * 14,
            width == gw * 14,
            y == gy * 14 + py,
            x == gx * 14 + px,
    ;
    let g = gy * gw + gx;
    let k = py * 14 + px;
    lemma_within(gy, gh, gx, gw);
    assert(1 * channels * (gh * gw) * 196 == channels * gh * 14 * gw * 14) by (nonlinear_arith);
    lemma_swapped_at(rows, 1, channels, gh * gw, 196, 0, c, g, k);
    assert(place(channels, gh * gw, 196, 0, c, g, k) == place(gw, 14, 14, o, gx, py, px))
        by (nonlinear_arith)
        requires
            o == c * gh + gy,
            g == gy * gw + gx,
            k == py * 14 + px,
    ;
    assert(place(gh * gw, channels, 196, 0, g, c, k) == at_patch(width, channels, c, y, x)) by {
        assert(0 * (gh * gw) == 0);
        assert((g * channels + c) * 196 + k == ((g * channels + c) * 14 + py) * 14 + px);
    }
}

/// Sides that hold all pixels in whole patches are multiples of a patch.
proof fn lemma_whole(channels: int, height: int, width: int)
    requires
        channels > 0,
        height > 0,
        width > 0,
        patch_pixels(channels, height, width) == channels * height * width,
    ensures
        height == height / 14 * 14,
        width == width / 14 * 14,
{
    let h = height / 14 * 14;
    let w = width / 14 * 14;
    assert(patch_pixels(channels, height, width) == channels * (h * w)) by (nonlinear_arith)
        requires
            h == height / 14 * 14,
            w == width / 14 * 14,
    ;
    assert(channels * height * width == channels * (height * width)) by (nonlinear_arith);
    assert(h * w == height * width) by (nonlinear_arith)
        requires
            channels * (h * w) == channels * (height * width),
            channels > 0,
    ;
    assert(h == height && w == width) by (nonlinear_arith)
        requires
            h * w == height * width,
            0 <= h <= height,
            0 <= w <= width,
            height > 0,
            width > 0,
    ;
}

/// What the samples of a pixel stand for.
#[derive(Debug, Clone, Copy, PartialEq, Eq, Structural)]
pub enum PixelKind {
    Luma,
    LumaA,
    Rgb,
    Rgba,
}

impl PixelKind {
    /// The samples of a pixel.
    pub open spec fn samples(self) -> int {
        match self {
            PixelKind::Luma => 1,
            PixelKind::LumaA => 2,
            PixelKind::Rgb => 3,
            PixelKind::Rgba => 4,
        }
    }
}

/// The samples of an image, of eight or of sixteen bits.
#[derive(Debug)]
pub enum Samples {
    Bytes(Vec<u8>),
    Words(Vec<u16>),
}

impl Samples {
    /// How many samples there are.
    pub open spec fn count(self) -> nat {
        match self {
            Samples::Bytes(bytes) => bytes@.len(),
            Samples::Words(words) => words@.len(),
        }
    }
}

/// A decoded image.
#[derive(Debug)]
pub struct DecodedImage {
    pub kind: PixelKind,
    pub width: u32,
    pub height: u32,
    pub samples: Samples,
}

impl DecodedImage {
    /// Every pixel is there.
    pub open spec fn wf(self) -> bool {
        self.samples.count() == self.width * self.height * self.kind.samples()
    }

    /// The image as it is: red, green and blue in bytes, with those sides.
    pub open spec fn is_rgb(self, rgb: Seq<u8>, width: int, height: int) -> bool {
        &&& self.kind == PixelKind::Rgb
        &&& self.width == width
        &&& self.height == height
        &&& self.samples matches Samples::Bytes(bytes)
        &&& bytes@ == rgb
    }

    /// The image needs no resampling to those sides.
    pub open spec fn stays(self, width: int, height: int) -> bool {
        &&& self.kind == PixelKind::Rgb
        &&& self.width == width
        &&& self.height == height
        &&& self.samples is Bytes
    }
}

/// The longest side that an image is resized to.
pub const LONGEST_SIDE: u32 = 35840;

/// The sides that an image of some width is resampled to: none is empty, and what the
/// resampling holds fits the memory.
pub open spec fn resizable(from_width: int, from_height: int, width: int, height: int) -> bool {
    &&& 0 < from_width
    &&& 0 < from_height
    &&& 0 < width <= LONGEST_SIDE
    &&& 0 < height <= LONGEST_SIDE
    &&& from_width * height * 16 <= isize::MAX
    &&& width * height * 16 <= isize::MAX
}

/// An image of bytes resampled to other sides, as red, green and blue, by
/// `image::DynamicImage::resize_exact` with its Catmull-Rom filter and `to_rgb8`: three
/// bytes for each pixel, and those of the image where it is of that kind and has those
/// sides. The samples in between come from floating-point sums, of which the crate
/// promises no bits: what they are is left unsaid.
#[verifier::external_body]
fn resize_bytes(
    kind: PixelKind,
    sides: (u32, u32),
    data: Vec<u8>,
    width: u32,
    height: u32,
) -> (r: Option<Vec<u8>>)
    requires
        data@.len() == sides.0 * sides.1 * kind.samples(),
        resizable(sides.0 as int, sides.1 as int, width as int, height as int),
    ensures
        r is Some,
        r->0@.len() == width * height * 3,
        kind == PixelKind::Rgb && width == sides.0 && height == sides.1 ==> r->0@ == data@,
{
    let (w, h) = sides;
    let dynamic = match kind {
        PixelKind::Luma => image::GrayImage::from_raw(w, h, data).map(DynamicImage::from),
        PixelKind::LumaA => image::GrayAlphaImage::from_raw(w, h, data).map(DynamicImage::from),
        PixelKind::Rgb => image::RgbImage::from_raw(w, h, data).map(DynamicImage::from),
        PixelKind::Rgba => image::RgbaImage::from_raw(w, h, data).map(DynamicImage::from),
    };
    let filter = image::imageops::FilterType::CatmullRom;
    dynamic.map(|d| d.resize_exact(width, height, filter).to_rgb8().into_raw())
}

/// An image of sixteen bits per sample resampled to other sides, as red, green and blue,
/// by the same functions: three bytes for each pixel. What they are is left unsaid.
#[verifier::external_body]
fn resize_words(
    kind: PixelKind,
    sides: (u32, u32),
    data: Vec<u16>,
    width: u32,
    height: u32,
) -> (r: Option<Vec<u8>>)
    requires
        data@.len() == sides.0 * sides.1 * kind.samples(),
        resizable(sides.0 as int, sides.1 as int, width as int, height as int),
    ensures
        r is Some,
        r->0@.len() == width * height * 3,
{
    let (w, h) = sides;
    let dynamic = match kind {
        PixelKind::Luma => ImageBuffer::from_raw(w, h, data).map(DynamicImage::ImageLuma16),
        PixelKind::LumaA => ImageBuffer::from_raw(w, h, data).map(DynamicImage::ImageLumaA16),
        PixelKind::Rgb => ImageBuffer::from_raw(w, h, data).map(DynamicImage::ImageRgb16),
        PixelKind::Rgba => ImageBuffer::from_raw(w, h, data).map(DynamicImage::ImageRgba16),
    };
    let filter = image::imageops::FilterType::CatmullRom;
    dynamic.map(|d| d.resize_exact(width, height, filter).to_rgb8().into_raw())
}

/// Those bytes are what the resampling of the samples of an image to other sides gave:
/// the call was made on that image and those sides, and answered so.
pub closed spec fn resampled(img: DecodedImage, width: u32, height: u32, rgb: Seq<u8>) -> bool {
    exists|out: Option<Vec<u8>>|
        #![trigger out->0]
        {
            &&& out is Some
            &&& out->0@ == rgb
            &&& match img.samples {
                Samples::Bytes(bytes) => call_ensures(
                    resize_bytes,
                    (img.kind, (img.width, img.height), bytes, width, height),
                    out,
                ),
                Samples::Words(words) => call_ensures(
                    resize_words,
                    (img.kind, (img.width, img.height), words, width, height),
                    out,
                ),
            }
        }
}

/// An image resampled to other sides, as red, green and blue.
fn resize_exact(img: DecodedImage, width: u32, height: u32) -> (r: Option<Vec<u8>>)
    requires
        img.wf(),
        resizable(img.width as int, img.height as int, width as int, height as int),
    ensures
        r is Some,
        r->0@.len() == width * height * 3,
        img.stays(width as int, height as int) ==> img.is_rgb(
            r->0@,
            width as int,
            height as int,
        ),
        resampled(img, width, height, r->0@),
{
    let sides: (u32, u32) = (img.width, img.height);
    let out: Option<Vec<u8>> = match img.samples {
        Samples::Bytes(bytes) => resize_bytes(img.kind, sides, bytes, width, height),
        Samples::Words(words) => resize_words(img.kind, sides, words, width, height),
    };
    assert(resampled(img, width, height, out->0@));
    out
}

/// The patches of an image and their grid.
#[derive(Debug)]
pub struct Patches {
    pub data: Vec<u8>,
    pub grid: (usize, usize, usize),
}

impl Patches {
    /// The patches of an image of the given sides in red, green and blue.
    pub open spec fn cut(self, rgb: Seq<u8>, height: int, width: int) -> bool {
        &&& self.grid.0 == 1
        &&& self.grid.1 == height / 14
        &&& self.grid.2 == width / 14
        &&& self.data@.len() == height * width * 3
        &&& forall|c: int, y: int, x: int|
            #![trigger at_patch(width, 3, c, y, x)]
            0 <= c < 3 && 0 <= y < height && 0 <= x < width ==> self.data@[at_patch(
                width,
                3,
                c,
                y,
                x,
            )] == rgb[(y * width + x) * 3 + c]
    }
}

/// Cuts an image in red, green and blue into patches. There are none where the sides do
/// not hold whole patches.
pub fn patches_of(rgb: &Vec<u8>, height: usize, width: usize) -> (r: Option<Patches>)
    requires
        height <= LONGEST_SIDE,
        width <= LONGEST_SIDE,
        rgb@.len() == height * width * 3,
    ensures
        match r {
            Some(patches) => {
                &&& patch_pixels(3, height as int, width as int) == rgb@.len()
                &&& patches.cut(rgb@, height as int, width as int)
            },
            None => patch_pixels(3, height as int, width as int) != rgb@.len(),
        },
{
    proof {
        let n = rgb.len();
        assert(height * width * 3 <= usize::MAX);
        assert(3 * height * width == height * width * 3) by (nonlinear_arith);
        assert(0 <= height * width) by (nonlinear_arith)
            requires
                height >= 0,
                width >= 0,
        ;
    }
    let planes: Vec<u8> = match planes_of(rgb, height, width, 3) {
        Some(planes) => planes,
        None => {
            return None;
        },
    };
    match patchify(&planes, 3, height, width) {
        Some(data) => {
            proof {
                assert forall|c: int, y: int, x: int|
                    #![trigger at_patch(width as int, 3, c, y, x)]
                    0 <= c < 3 && 0 <= y < height && 0 <= x < width implies data@[at_patch(
                    width as int,
                    3,
                    c,
                    y,
                    x,
                )] == rgb@[(y * width + x) * 3 + c] by {
                    let from = at_plane(height as int, width as int, c, y, x);
                    assert(data@[at_patch(width as int, 3usize as int, c, y, x)] == planes@[from]);
                }
            }
            Some(Patches { data, grid: patch_grid(height, width) })
        },
        None => None,
    }
}

/// Resizes an image and cuts it into patches. Where the plan of the image says that its
/// sides are to be adjusted, `rows` and `cols` are the adjusted ones in units of the
/// factor. The samples of a resized image are those of the resampling.
pub fn preprocess_decoded(img: DecodedImage, rows: u32, cols: u32) -> (r: Result<Patches, String>)
    requires
        img.wf(),
        img.width * LONGEST_SIDE * 16 <= isize::MAX,
        !refused(img.height, img.width) ==> model_plan(img.height as int, img.width as int).adjusts(
            rows as int,
            cols as int,
            MIN_PIXELS as int,
            MAX_PIXELS as int,
        ),
    ensures
        match r {
            Ok(patches) => {
                let plan = model_plan(img.height as int, img.width as int);
                let (h, w) = plan.sides(rows as int, cols as int);
                &&& !refused(img.height, img.width)
                &&& MIN_PIXELS <= h * w <= MAX_PIXELS
                &&& exists|rgb: Seq<u8>| #[trigger]
                    resized_to(rgb, img, h, w) && patches.cut(rgb, h, w)
            },
            Err(text) => {
                &&& refused(img.height, img.width)
                &&& if img.height == 0 || img.width == 0 {
                    text@ == zero_text(img.height, img.width)
                } else {
                    text@ == long_text(img.height, img.width)
                }
            },
        },
{
    let plan: ResizePlan = match smart_resize(img.height, img.width) {
        Ok(plan) => plan,
        Err(text) => {
            return Err(text);
        },
    };
    let (h_bar, w_bar): (u64, u64) = plan.finish(rows, cols);
    proof {
        law_sides_are_whole_patches(plan, rows as int, cols as int);
        law_sides_are_within_bounds(img.height, img.width, rows as int, cols as int);
        lemma_sides_are_short(h_bar as int, w_bar as int);
        let h = h_bar as int;
        let w = img.width as int;
        let longest = LONGEST_SIDE as int;
        assert(w * h * 16 <= w * longest * 16) by (nonlinear_arith)
            requires
                w >= 0,
                0 <= h <= longest,
        ;
        assert(w_bar * h_bar == h_bar * w_bar) by (nonlinear_arith);
    }
    let (height, width): (usize, usize) = (h_bar as usize, w_bar as usize);
    match resize_exact(img, w_bar as u32, h_bar as u32) {
        Some(rgb) => {
            match patches_of(&rgb, height, width) {
                Some(patches) => {
                    assert(resized_to(rgb@, img, height as int, width as int));
                    Ok(patches)
                },
                None => {
                    proof {
                        lemma_all_in_patches(height as int, width as int);
                    }
                    Err("image buffer size mismatch".to_string())
                },
            }
        },
        None => Err("image buffer size mismatch".to_string()),
    }
}

/// The bytes are those that the resampling of an image to the given sides gave.
pub open spec fn resized_to(rgb: Seq<u8>, img: DecodedImage, height: int, width: int) -> bool {
    &&& rgb.len() == width * height * 3
    &&& resampled(img, width as u32, height as u32, rgb)
    &&& img.stays(width, height) ==> img.is_rgb(rgb, width, height)
}

proof fn lemma_all_in_patches(height: int, width: int)
    requires
        height >= 0,
        width >= 0,
        height % 14 == 0,
        width % 14 == 0,
    ensures
        patch_pixels(3, height, width) == height * width * 3,
{
    let gh = height / 14;
    let gw = width / 14;
    assert(3 * gh * 14 * gw * 14 == (gh * 14) * (gw * 14) * 3) by (nonlinear_arith);
}

proof fn lemma_sides_are_short(h: int, w: int)
    requires
        h >= FACTOR,
        w >= FACTOR,
        h * w <= MAX_PIXELS,
    ensures
        h <= LONGEST_SIDE,
        w <= LONGEST_SIDE,
{
    assert(h * 28 <= h * w && 28 * w <= h * w) by (nonlinear_arith)
        requires
            h >= 28,
            w >= 28,
    ;
}

} // verus!
