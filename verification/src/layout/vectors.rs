//! What holds of pointwise convolutions, which read their input in place.

use vstd::prelude::*;

use crate::layout::conv::{block_steps, least, pieces, row_steps, tile_steps, tile_width, TileStep};
use crate::layout::{LANES, PW_CHUNK, SEG_W};
use crate::ops::ceil_div;

verus! {

/// The columns of a step are whole vectors.
pub open spec fn is_whole(step: TileStep) -> bool {
    step.x0 as int % LANES as int == 0 && step.n as int % LANES as int == 0
}

/// The columns of all steps are whole vectors.
pub open spec fn all_whole(steps: Seq<TileStep>) -> bool {
    forall|i: int| 0 <= i < steps.len() ==> is_whole(#[trigger] steps[i])
}

proof fn lemma_joined(a: Seq<TileStep>, b: Seq<TileStep>)
    requires
        all_whole(a),
        all_whole(b),
    ensures
        all_whole(a + b),
{
    assert forall|i: int| 0 <= i < (a + b).len() implies is_whole(#[trigger] (a + b)[i]) by {
        if i < a.len() {
            assert((a + b)[i] == a[i]);
        } else {
            assert((a + b)[i] == b[i - a.len()]);
        }
    }
}

proof fn lemma_pieces(c: int, start: int, end: int, tile: int, x0: int, to: int)
    requires
        0 <= x0,
        to <= usize::MAX,
        x0 % LANES as int == 0,
        to % LANES as int == 0,
    ensures
        all_whole(pieces(c, start, end, tile, x0, to)),
    decreases to - x0,
{
    if x0 < to {
        let n = least(to - x0, tile_width());
        lemma_pieces(c, start, end, tile, x0 + n, to);
        let step = TileStep {
            start: start as usize,
            end: end as usize,
            last: end == c,
            tile: tile as usize,
            x0: x0 as usize,
            n: n as usize,
        };
        lemma_joined(seq![step], pieces(c, start, end, tile, x0 + n, to));
    }
}

proof fn lemma_tiles(c: int, start: int, end: int, tile: int, tiles: int, x0: int, to: int)
    requires
        0 <= x0,
        to <= usize::MAX,
        x0 % LANES as int == 0,
        to % LANES as int == 0,
    ensures
        all_whole(tile_steps(c, start, end, tile, tiles, x0, to)),
    decreases tiles - tile,
{
    if tile < tiles {
        lemma_pieces(c, start, end, tile, x0, to);
        lemma_tiles(c, start, end, tile + 1, tiles, x0, to);
        lemma_joined(
            pieces(c, start, end, tile, x0, to),
            tile_steps(c, start, end, tile + 1, tiles, x0, to),
        );
    }
}

proof fn lemma_blocks(c: int, ic_block: int, start: int, t: int, tiles: int, x0: int, to: int)
    requires
        ic_block > 0,
        0 <= x0,
        to <= usize::MAX,
        x0 % LANES as int == 0,
        to % LANES as int == 0,
    ensures
        all_whole(block_steps(c, ic_block, start, t, tiles, x0, to)),
    decreases c - start,
{
    if start < c {
        let end = least(start + ic_block, c);
        lemma_tiles(c, start, end, t, tiles, x0, to);
        lemma_blocks(c, ic_block, end, t, tiles, x0, to);
        lemma_joined(
            tile_steps(c, start, end, t, tiles, x0, to),
            block_steps(c, ic_block, end, t, tiles, x0, to),
        );
    }
}

/// Where the columns of a row begin and end with whole vectors, so do those of each of its
/// steps: no vector reads beyond the row.
pub proof fn law_steps_read_whole_vectors(
    c: int,
    ic_block: int,
    t: int,
    tiles: int,
    lo: int,
    hi: int,
)
    requires
        ic_block > 0,
        0 <= lo,
        hi <= usize::MAX,
        lo % LANES as int == 0,
        hi % LANES as int == 0,
    ensures
        all_whole(row_steps(c, ic_block, t, tiles, lo, hi)),
    decreases hi - lo,
{
    if lo < hi {
        let to = least(lo + SEG_W, hi);
        lemma_blocks(c, ic_block, 0, t, tiles, lo, to);
        law_steps_read_whole_vectors(c, ic_block, t, tiles, to, hi);
        lemma_joined(
            block_steps(c, ic_block, 0, t, tiles, lo, to),
            row_steps(c, ic_block, t, tiles, to, hi),
        );
    }
}

/// A column is in a chunk.
pub open spec fn in_chunk(body: int, chunk: int, x: int) -> bool {
    chunk * PW_CHUNK <= x < least((chunk + 1) * PW_CHUNK, body)
}

/// The columns of a chunk of a pointwise convolution begin and end with whole vectors, and
/// each column in front of the tail is in exactly one chunk.
pub proof fn law_chunks_part_the_columns(hw: int, body: int, chunks: int, chunk: int, x: int)
    requires
        0 <= hw,
        body == hw / LANES as int * LANES,
        chunks == ceil_div(body as nat, PW_CHUNK as nat),
        0 <= chunk < chunks,
        0 <= x < body,
    ensures
        (chunk * PW_CHUNK) % LANES as int == 0,
        least((chunk + 1) * PW_CHUNK, body) % LANES as int == 0,
        0 <= x / (PW_CHUNK as int) < chunks,
        in_chunk(body, chunk, x) <==> chunk == x / PW_CHUNK as int,
{
    let v = hw / LANES as int;
    assert((v * 8) % 8 == 0) by (nonlinear_arith);
}

} // verus!
