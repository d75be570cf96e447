//! Moving the elements of a dense array as its axes are reordered.

use vstd::arithmetic::div_mod::*;
use vstd::prelude::*;

verus! {

/// A number of two digits, the last of which is below `n`, reads back.
pub proof fn lemma_digits(a: int, b: int, n: int)
    requires
        0 <= b < n,
    ensures
        (a * n + b) / n == a,
        (a * n + b) % n == b,
{
    lemma_fundamental_div_mod_converse(a * n + b, n, a, b);
}

/// A number of two digits lies within the product of their limits.
pub proof fn lemma_within(a: int, m: int, b: int, n: int)
    requires
        0 <= a < m,
        0 <= b < n,
    ensures
        0 <= a * n + b < m * n,
{
    assert(0 <= a * n + b < m * n) by (nonlinear_arith)
        requires
            0 <= a,
            a + 1 <= m,
            0 <= b < n,
    ;
}

/// A number below a product has two digits.
pub proof fn lemma_parts(i: int, m: int, n: int)
    requires
        0 <= i < m * n,
        m >= 0,
        n >= 0,
    ensures
        n > 0,
        0 <= i / n < m,
        0 <= i % n < n,
        i == (i / n) * n + i % n,
{
    assert(n > 0 && m > 0) by (nonlinear_arith)
        requires
            0 < m * n,
            m >= 0,
            n >= 0,
    ;
    lemma_fundamental_div_mod(i, n);
    lemma_mod_pos_bound(i, n);
    assert(0 <= i / n < m) by (nonlinear_arith)
        requires
            0 <= i < m * n,
            n > 0,
    ;
    assert((i / n) * n == n * (i / n)) by (nonlinear_arith);
}

/// Where an element stands in an array of axes `(_, a, b, inner)`.
pub open spec fn place(a: int, b: int, inner: int, o: int, i: int, j: int, k: int) -> int {
    ((o * a + i) * b + j) * inner + k
}

/// Where the element at `n` of an array of axes `(_, b, a, inner)` stands in the array
/// of axes `(_, a, b, inner)`.
pub open spec fn swap_source(a: int, b: int, inner: int, n: int) -> int {
    let k = n % inner;
    let i = n / inner % a;
    let j = n / inner / a % b;
    let o = n / inner / a / b;
    place(a, b, inner, o, i, j, k)
}

/// An array of axes `(outer, a, b, inner)` with the two in the middle swapped.
pub open spec fn swapped<T>(x: Seq<T>, a: int, b: int, inner: int) -> Seq<T> {
    Seq::new(x.len(), |n: int| x[swap_source(a, b, inner, n)])
}

/// An array has the given axes.
pub open spec fn has_axes(len: int, outer: int, a: int, b: int, inner: int) -> bool {
    len == outer * a * b * inner
}

proof fn lemma_source(outer: int, a: int, b: int, inner: int, n: int)
    requires
        outer >= 0,
        a >= 0,
        b >= 0,
        inner >= 0,
        0 <= n < outer * a * b * inner,
    ensures
        a > 0,
        b > 0,
        inner > 0,
        0 <= n % inner < inner,
        0 <= n / inner % a < a,
        0 <= n / inner / a % b < b,
        0 <= n / inner / a / b < outer,
        0 <= swap_source(a, b, inner, n) < outer * a * b * inner,
        n == place(
            b,
            a,
            inner,
            n / inner / a / b,
            n / inner / a % b,
            n / inner % a,
            n % inner,
        ),
{
    assert(0 <= outer * a * b && 0 <= outer * b) by (nonlinear_arith)
        requires
            outer >= 0,
            a >= 0,
            b >= 0,
    ;
    lemma_parts(n, outer * a * b, inner);
    let r = n / inner;
    assert(outer * a * b == outer * b * a) by (nonlinear_arith);
    lemma_parts(r, outer * b, a);
    lemma_parts(r / a, outer, b);
    let k = n % inner;
    let i = r % a;
    let j = r / a % b;
    let o = r / a / b;
    lemma_within(o, outer, i, a);
    lemma_within(o * a + i, outer * a, j, b);
    lemma_within((o * a + i) * b + j, outer * a * b, k, inner);
}

/// Where each element goes when two axes are swapped.
pub proof fn lemma_swapped_at<T>(
    x: Seq<T>,
    outer: int,
    a: int,
    b: int,
    inner: int,
    o: int,
    i: int,
    j: int,
    k: int,
)
    requires
        has_axes(x.len() as int, outer, a, b, inner),
        0 <= o < outer,
        0 <= i < a,
        0 <= j < b,
        0 <= k < inner,
    ensures
        0 <= place(a, b, inner, o, i, j, k) < x.len(),
        0 <= place(b, a, inner, o, j, i, k) < x.len(),
        swap_source(a, b, inner, place(b, a, inner, o, j, i, k)) == place(
            a,
            b,
            inner,
            o,
            i,
            j,
            k,
        ),
        swapped(x, a, b, inner)[place(b, a, inner, o, j, i, k)] == x[place(
            a,
            b,
            inner,
            o,
            i,
            j,
            k,
        )],
{
    lemma_within(o, outer, i, a);
    lemma_within(o * a + i, outer * a, j, b);
    lemma_within((o * a + i) * b + j, outer * a * b, k, inner);
    lemma_within(o, outer, j, b);
    lemma_within(o * b + j, outer * b, i, a);
    lemma_within((o * b + j) * a + i, outer * b * a, k, inner);
    assert(outer * a * b == outer * b * a) by (nonlinear_arith);
    let s = o * b + j;
    let r = s * a + i;
    lemma_digits(r, k, inner);
    lemma_digits(s, i, a);
    lemma_digits(o, j, b);
}

/// Swapping the same two axes again gives the array back.
pub proof fn law_swapping_twice_changes_nothing<T>(
    x: Seq<T>,
    outer: int,
    a: int,
    b: int,
    inner: int,
)
    requires
        outer >= 0,
        a >= 0,
        b >= 0,
        inner >= 0,
        has_axes(x.len() as int, outer, a, b, inner),
    ensures
        swapped(swapped(x, a, b, inner), b, a, inner) == x,
{
    let y = swapped(x, a, b, inner);
    assert(outer * b * a * inner == outer * a * b * inner) by (nonlinear_arith);
    assert forall|n: int| 0 <= n < x.len() implies swapped(y, b, a, inner)[n] == x[n] by {
        lemma_source(outer, b, a, inner, n);
        let k = n % inner;
        let j = n / inner % b;
        let i = n / inner / b % a;
        let o = n / inner / b / a;
        lemma_swapped_at(x, outer, a, b, inner, o, i, j, k);
    }
    assert(swapped(y, b, a, inner) =~= x);
}

/// Where one of two axes has a single entry, swapping them moves nothing.
pub proof fn law_a_single_entry_needs_no_swap<T>(x: Seq<T>, outer: int, b: int, inner: int)
    requires
        outer >= 0,
        b >= 0,
        inner >= 0,
        has_axes(x.len() as int, outer, 1, b, inner),
    ensures
        swapped(x, 1, b, inner) == x,
{
    assert forall|n: int| 0 <= n < x.len() implies swapped(x, 1, b, inner)[n] == x[n] by {
        lemma_source(outer, 1, b, inner, n);
        let o = n / inner / 1 / b;
        let j = n / inner / 1 % b;
        assert(o * 1 == o && (o * b + j) * 1 == o * b + j);
    }
    assert(swapped(x, 1, b, inner) =~= x);
}

/// Swaps the two axes in the middle of an array of axes `(outer, a, b, inner)`.
pub fn swap_axes<T: Copy>(x: &Vec<T>, outer: usize, a: usize, b: usize, inner: usize) -> (r: Vec<T>)
    requires
        has_axes(x@.len() as int, outer as int, a as int, b as int, inner as int),
    ensures
        r@ == swapped(x@, a as int, b as int, inner as int),
{
    let n: usize = x.len();
    let mut out: Vec<T> = Vec::with_capacity(n);
    let mut i: usize = 0;
    while i < n
        invariant
            i <= n == x@.len(),
            has_axes(x@.len() as int, outer as int, a as int, b as int, inner as int),
            out@.len() == i,
            forall|m: int|
                0 <= m < i ==> #[trigger] out@[m] == x@[swap_source(
                    a as int,
                    b as int,
                    inner as int,
                    m,
                )],
        decreases n - i,
    {
        proof {
            lemma_source(outer as int, a as int, b as int, inner as int, i as int);
            let k = i as int % inner as int;
            let p = i as int / inner as int % a as int;
            let q = i as int / inner as int / a as int % b as int;
            let o = i as int / inner as int / a as int / b as int;
            lemma_swapped_at(x@, outer as int, a as int, b as int, inner as int, o, p, q, k);
            lemma_prefixes(o, p, q, k, a as int, b as int, inner as int);
        }
        let k: usize = i % inner;
        let p: usize = i / inner % a;
        let q: usize = i / inner / a % b;
        let o: usize = i / inner / a / b;
        out.push(x[((o * a + p) * b + q) * inner + k]);
        i += 1;
    }
    assert(out@ =~= swapped(x@, a as int, b as int, inner as int));
    out
}

/// No step of a place exceeds the place.
proof fn lemma_prefixes(o: int, i: int, j: int, k: int, a: int, b: int, inner: int)
    requires
        o >= 0,
        i >= 0,
        j >= 0,
        k >= 0,
        a > 0,
        b > 0,
        inner > 0,
    ensures
        0 <= o * a <= o * a + i,
        o * a + i <= (o * a + i) * b <= (o * a + i) * b + j,
        (o * a + i) * b + j <= ((o * a + i) * b + j) * inner <= place(a, b, inner, o, i, j, k),
{
    assert(0 <= o * a) by (nonlinear_arith)
        requires
            o >= 0,
            a > 0,
    ;
    let s = o * a + i;
    assert(s <= s * b) by (nonlinear_arith)
        requires
            s >= 0,
            b > 0,
    ;
    let t = s * b + j;
    assert(t <= t * inner) by (nonlinear_arith)
        requires
            t >= 0,
            inner > 0,
    ;
}

} // verus!
