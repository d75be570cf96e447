//! Weights of a direct convolution: the output channels of a tile stand side by
//! side.

use vstd::arithmetic::div_mod::*;
use vstd::prelude::*;

use crate::layout::OC_T;
use crate::text::{decimal, push_decimal};

verus! {

/// Where a weight stands in `(output channel, input channel, tap)` order.
pub open spec fn plain_index(c: int, kk: int, oc: int, ic: int, tap: int) -> int {
    (oc * c + ic) * kk + tap
}

/// Where a weight stands in `(tile, input channel, tap, channel of the tile)` order.
pub open spec fn packed_index(c: int, kk: int, oc: int, ic: int, tap: int) -> int {
    ((oc / OC_T as int * c + ic) * kk + tap) * OC_T + oc % OC_T as int
}

/// Which weight belongs at a place of the packed order.
pub open spec fn source_of(c: int, kk: int, i: int) -> int {
    let j = i % OC_T as int;
    let rest = i / OC_T as int;
    let tap = rest % kk;
    let ic = (rest / kk) % c;
    let tile = (rest / kk) / c;
    plain_index(c, kk, tile * OC_T + j, ic, tap)
}

/// The text of the refusal of a number of output channels.
pub open spec fn odd_channels_text(o: nat) -> Seq<char> {
    "direct conv packs 4 output channels at a time, got "@ + decimal(o)
}

/// Puts weights in `(tile, input channel, tap, channel of the tile)` order. The
/// output channels must fill whole tiles. Weights behind those of a square kernel are left
/// out.
pub fn pack_weights<T: Copy>(src: &[T], o: usize, c: usize, k: usize) -> (r: Result<
    Vec<T>,
    String,
>)
    requires
        o % OC_T == 0 ==> k * k <= usize::MAX && o * c <= usize::MAX && o * c * (k * k)
            <= src@.len(),
    ensures
        match r {
            Ok(packed) => {
                &&& o % OC_T == 0
                &&& packed@.len() == o * c * (k * k)
                &&& forall|i: int|
                    0 <= i < packed@.len() ==> #[trigger] packed@[i] == src@[source_of(
                        c as int,
                        k * k,
                        i,
                    )]
            },
            Err(text) => o % OC_T != 0 && text@ == odd_channels_text(o as nat),
        },
{
    if o % OC_T != 0 {
        let mut text: String = "direct conv packs 4 output channels at a time, got ".to_string();
        push_decimal(&mut text, o);
        return Err(text);
    }
    let kk: usize = k * k;
    proof {
        assert(src@.len() == src.len());
    }
    let n: usize = o * c * kk;
    let mut packed: Vec<T> = Vec::with_capacity(n);
    let mut i: usize = 0;
    while i < n
        invariant
            i <= n <= src@.len(),
            n == o * c * kk,
            kk == k * k,
            o % OC_T == 0,
            packed@.len() == i,
            forall|x: int|
                0 <= x < i ==> #[trigger] packed@[x] == src@[source_of(c as int, kk as int, x)],
        decreases n - i,
    {
        proof {
            lemma_source(o as int, c as int, kk as int, i as int);
        }
        let j: usize = i % OC_T;
        let rest: usize = i / OC_T;
        let tap: usize = rest % kk;
        let ic: usize = (rest / kk) % c;
        let tile: usize = (rest / kk) / c;
        packed.push(src[((tile * OC_T + j) * c + ic) * kk + tap]);
        i += 1;
    }
    Ok(packed)
}

proof fn lemma_source(o: int, c: int, kk: int, i: int)
    requires
        0 <= i < o * c * kk,
        o >= 0,
        c >= 0,
        kk >= 0,
        o % OC_T as int == 0,
    ensures
        c > 0,
        kk > 0,
        ({
            let j = i % OC_T as int;
            let rest = i / OC_T as int;
            let tap = rest % kk;
            let ic = (rest / kk) % c;
            let tile = (rest / kk) / c;
            &&& 0 <= j < OC_T
            &&& 0 <= tap < kk
            &&& 0 <= ic < c
            &&& 0 <= tile
            &&& 0 <= tile * OC_T + j < o
            &&& 0 <= (tile * OC_T + j) * c + ic < o * c
            &&& 0 <= ((tile * OC_T + j) * c + ic) * kk + tap < o * c * kk
            &&& tile * OC_T <= o
            &&& (tile * OC_T + j) * c <= o * c <= o * c * kk
            &&& ((tile * OC_T + j) * c + ic) * kk <= o * c * kk
        }),
{
    assert(c > 0 && kk > 0 && o > 0) by (nonlinear_arith)
        requires
            0 < o * c * kk,
            o >= 0,
            c >= 0,
            kk >= 0,
    ;
    let t = OC_T as int;
    let j = i % t;
    let rest = i / t;
    let tap = rest % kk;
    let outer = rest / kk;
    let ic = outer % c;
    let tile = outer / c;
    let tiles = o / t;
    assert(o == tiles * 4);
    assert(0 <= rest && rest < tiles * c * kk) by (nonlinear_arith)
        requires
            0 <= i < o * c * kk,
            o == tiles * 4,
            rest == i / 4,
    {
        assert(o * c * kk == 4 * (tiles * c * kk)) by (nonlinear_arith)
            requires
                o == tiles * 4,
        ;
    }
    lemma_mod_pos_bound(rest, kk);
    assert(0 <= outer < tiles * c) by (nonlinear_arith)
        requires
            0 <= rest < tiles * c * kk,
            kk > 0,
            outer == rest / kk,
    ;
    lemma_mod_pos_bound(outer, c);
    assert(0 <= tile < tiles) by (nonlinear_arith)
        requires
            0 <= outer < tiles * c,
            c > 0,
            tile == outer / c,
    ;
    let oc = tile * 4 + j;
    assert(0 <= oc < o);
    assert(0 <= oc * c && oc * c + ic < o * c) by (nonlinear_arith)
        requires
            0 <= oc,
            oc + 1 <= o,
            0 <= ic < c,
    ;
    let m = oc * c + ic;
    assert(0 <= m * kk && m * kk + tap < o * c * kk) by (nonlinear_arith)
        requires
            0 <= m,
            m + 1 <= o * c,
            0 <= tap < kk,
    ;
    assert(o * c <= o * c * kk) by (nonlinear_arith)
        requires
            kk >= 1,
            o * c >= 0,
    ;
}

/// Packing moves each weight to the place of its tile, and none is lost: the place
/// of each weight holds it.
pub proof fn law_each_weight_is_in_its_tile(
    o: int,
    c: int,
    kk: int,
    oc: int,
    ic: int,
    tap: int,
)
    requires
        o % OC_T as int == 0,
        0 <= oc < o,
        0 <= ic < c,
        0 <= tap < kk,
    ensures
        0 <= packed_index(c, kk, oc, ic, tap) < o * c * kk,
        source_of(c, kk, packed_index(c, kk, oc, ic, tap)) == plain_index(c, kk, oc, ic, tap),
{
    let t = OC_T as int;
    let tile = oc / t;
    let j = oc % t;
    let outer = tile * c + ic;
    let rest = outer * kk + tap;
    let i = rest * t + j;
    assert(0 <= outer && 0 <= rest) by (nonlinear_arith)
        requires
            tile >= 0,
            0 <= ic < c,
            0 <= tap < kk,
            outer == tile * c + ic,
            rest == outer * kk + tap,
    ;
    lemma_fundamental_div_mod_converse(i, t, rest, j);
    lemma_fundamental_div_mod_converse(rest, kk, outer, tap);
    lemma_fundamental_div_mod_converse(outer, c, tile, ic);
    let tiles = o / t;
    assert(o == tiles * 4 && tile < tiles);
    assert(outer < tiles * c) by (nonlinear_arith)
        requires
            outer == tile * c + ic,
            tile + 1 <= tiles,
            0 <= ic < c,
    ;
    assert(rest < tiles * c * kk) by (nonlinear_arith)
        requires
            rest == outer * kk + tap,
            outer + 1 <= tiles * c,
            0 <= tap < kk,
    ;
    assert(o * c * kk == 4 * (tiles * c * kk)) by (nonlinear_arith)
        requires
            o == tiles * 4,
    ;
}

} // verus!
