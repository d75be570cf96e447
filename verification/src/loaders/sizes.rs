//! Element counts of the building blocks that model sizes are summed from.
//!
//! A block is counted as the engine counts it, in machine words. Each count
//! comes with the condition that none of its steps overflows.

use vstd::prelude::*;

use crate::ops::{ceil_div, div_ceil};

verus! {

/// A number that a machine word holds.
pub open spec fn word(x: int) -> bool {
    0 <= x <= usize::MAX
}

/// The greater of two counts.
pub open spec fn larger_elems(a: int, b: int) -> int {
    if a >= b {
        a
    } else {
        b
    }
}

/// The greater of two counts.
pub fn larger(a: usize, b: usize) -> (r: usize)
    ensures
        r == larger_elems(a as int, b as int),
{
    if a >= b {
        a
    } else {
        b
    }
}

/// The lesser of two counts.
pub open spec fn smaller_elems(a: int, b: int) -> int {
    if a <= b {
        a
    } else {
        b
    }
}

/// The lesser of two counts.
pub fn smaller(a: usize, b: usize) -> (r: usize)
    ensures
        r == smaller_elems(a as int, b as int),
{
    if a <= b {
        a
    } else {
        b
    }
}

/// A quotient, rounded up.
pub open spec fn ceil_quotient_elems(a: int, b: int) -> int {
    ceil_div(a as nat, b as nat) as int
}

/// The divisor is not zero.
pub open spec fn ceil_quotient_fits(a: int, b: int) -> bool {
    b > 0
}

/// A quotient, rounded up.
pub fn ceil_quotient(a: usize, b: usize) -> (r: usize)
    requires
        b > 0,
    ensures
        r == ceil_quotient_elems(a as int, b as int),
{
    div_ceil(a, b)
}

/// Token embeddings, output head (none where it is tied to the embeddings) and
/// final norm.
pub open spec fn text_head_elems(
    hidden: int,
    vocab: int,
    tied: bool,
    embed_pack: int,
    head_pack: int,
) -> int {
    let embed_tokens = hidden * vocab / embed_pack;
    let lm_head = if tied { 0 } else { hidden * vocab / head_pack };
    embed_tokens + lm_head + hidden
}

/// Every step of `text_head` fits a machine word.
pub open spec fn text_head_fits(
    hidden: int,
    vocab: int,
    tied: bool,
    embed_pack: int,
    head_pack: int,
) -> bool {
    let embed_tokens = hidden * vocab / embed_pack;
    let lm_head = if tied { 0 } else { hidden * vocab / head_pack };
    &&& word(hidden * vocab)
    &&& embed_pack > 0
    &&& !tied ==> word(hidden * vocab)
    &&& !tied ==> head_pack > 0
    &&& word(embed_tokens + lm_head + hidden)
}

/// Token embeddings, output head (none where it is tied to the embeddings) and
/// final norm.
pub fn text_head(
    hidden: usize,
    vocab: usize,
    tied: bool,
    embed_pack: usize,
    head_pack: usize,
) -> (r: usize)
    requires
        text_head_fits(hidden as int, vocab as int, tied, embed_pack as int, head_pack as int),
    ensures
        r == text_head_elems(
            hidden as int,
            vocab as int,
            tied,
            embed_pack as int,
            head_pack as int,
        ),
{
    let embed_tokens: usize = hidden * vocab / embed_pack;
    let lm_head: usize = if tied { 0 } else { hidden * vocab / head_pack };
    embed_tokens + lm_head + hidden
}

/// Gate, up and down projections.
pub open spec fn gated_mlp_elems(hidden: int, intermediate: int, pack: int) -> int {
    let proj = hidden * intermediate / pack;
    proj + proj + proj
}

/// Every step of `gated_mlp` fits a machine word.
pub open spec fn gated_mlp_fits(hidden: int, intermediate: int, pack: int) -> bool {
    let proj = hidden * intermediate / pack;
    &&& word(hidden * intermediate)
    &&& pack > 0
    &&& word(proj + proj + proj)
}

/// Gate, up and down projections.
pub fn gated_mlp(hidden: usize, intermediate: usize, pack: usize) -> (r: usize)
    requires
        gated_mlp_fits(hidden as int, intermediate as int, pack as int),
    ensures
        r == gated_mlp_elems(hidden as int, intermediate as int, pack as int),
{
    let proj: usize = hidden * intermediate / pack;
    proj + proj + proj
}

/// Query, key, value and output projections without biases.
pub open spec fn attention_elems(size_in: int, size_q: int, size_kv: int, pack: int) -> int {
    let q_proj = size_in * size_q / pack;
    let kv_proj = size_in * size_kv / pack;
    q_proj + kv_proj + kv_proj + q_proj
}

/// Every step of `attention` fits a machine word.
pub open spec fn attention_fits(size_in: int, size_q: int, size_kv: int, pack: int) -> bool {
    let q_proj = size_in * size_q / pack;
    let kv_proj = size_in * size_kv / pack;
    &&& word(size_in * size_q)
    &&& pack > 0
    &&& word(size_in * size_kv)
    &&& word(q_proj + kv_proj + kv_proj + q_proj)
}

/// Query, key, value and output projections without biases.
pub fn attention(size_in: usize, size_q: usize, size_kv: usize, pack: usize) -> (r: usize)
    requires
        attention_fits(size_in as int, size_q as int, size_kv as int, pack as int),
    ensures
        r == attention_elems(size_in as int, size_q as int, size_kv as int, pack as int),
{
    let q_proj: usize = size_in * size_q / pack;
    let kv_proj: usize = size_in * size_kv / pack;
    q_proj + kv_proj + kv_proj + q_proj
}

/// A decoder layer: two norms, attention and a gated feed-forward block.
pub open spec fn decoder_layer_elems(
    hidden: int,
    size_q: int,
    size_kv: int,
    intermediate: int,
    pack: int,
) -> int {
    let attn = attention_elems(hidden, size_q, size_kv, pack);
    let mlp = gated_mlp_elems(hidden, intermediate, pack);
    hidden + hidden + attn + mlp
}

/// Every step of `decoder_layer` fits a machine word.
pub open spec fn decoder_layer_fits(
    hidden: int,
    size_q: int,
    size_kv: int,
    intermediate: int,
    pack: int,
) -> bool {
    let attn = attention_elems(hidden, size_q, size_kv, pack);
    let mlp = gated_mlp_elems(hidden, intermediate, pack);
    &&& attention_fits(hidden, size_q, size_kv, pack)
    &&& gated_mlp_fits(hidden, intermediate, pack)
    &&& word(hidden + hidden + attn + mlp)
}

/// A decoder layer: two norms, attention and a gated feed-forward block.
pub fn decoder_layer(
    hidden: usize,
    size_q: usize,
    size_kv: usize,
    intermediate: usize,
    pack: usize,
) -> (r: usize)
    requires
        decoder_layer_fits(
            hidden as int,
            size_q as int,
            size_kv as int,
            intermediate as int,
            pack as int,
        ),
    ensures
        r == decoder_layer_elems(
            hidden as int,
            size_q as int,
            size_kv as int,
            intermediate as int,
            pack as int,
        ),
{
    let attn: usize = attention(hidden, size_q, size_kv, pack);
    let mlp: usize = gated_mlp(hidden, intermediate, pack);
    hidden + hidden + attn + mlp
}

/// A projection with its bias.
pub open spec fn biased_linear_elems(size_in: int, size_out: int) -> int {
    size_in * size_out + size_out
}

/// Every step of `biased_linear` fits a machine word.
pub open spec fn biased_linear_fits(size_in: int, size_out: int) -> bool {
    &&& word(size_in * size_out)
    &&& word(size_in * size_out + size_out)
}

/// A projection with its bias.
pub fn biased_linear(size_in: usize, size_out: usize) -> (r: usize)
    requires
        biased_linear_fits(size_in as int, size_out as int),
    ensures
        r == biased_linear_elems(size_in as int, size_out as int),
{
    size_in * size_out + size_out
}

/// An encoder layer of a vision transformer: two norms with biases, a feed-forward
/// block and four projections, all with biases.
pub open spec fn vit_layer_elems(hidden: int, intermediate: int) -> int {
    let norm = hidden + hidden;
    let fc1 = biased_linear_elems(hidden, intermediate);
    let fc2 = biased_linear_elems(intermediate, hidden);
    let proj = biased_linear_elems(hidden, hidden);
    norm + norm + fc1 + fc2 + proj + proj + proj + proj
}

/// Every step of `vit_layer` fits a machine word.
pub open spec fn vit_layer_fits(hidden: int, intermediate: int) -> bool {
    let norm = hidden + hidden;
    let fc1 = biased_linear_elems(hidden, intermediate);
    let fc2 = biased_linear_elems(intermediate, hidden);
    let proj = biased_linear_elems(hidden, hidden);
    &&& word(hidden + hidden)
    &&& biased_linear_fits(hidden, intermediate)
    &&& biased_linear_fits(intermediate, hidden)
    &&& biased_linear_fits(hidden, hidden)
    &&& word(norm + norm + fc1 + fc2 + proj + proj + proj + proj)
}

/// An encoder layer of a vision transformer: two norms with biases, a feed-forward
/// block and four projections, all with biases.
pub fn vit_layer(hidden: usize, intermediate: usize) -> (r: usize)
    requires
        vit_layer_fits(hidden as int, intermediate as int),
    ensures
        r == vit_layer_elems(hidden as int, intermediate as int),
{
    let norm: usize = hidden + hidden;
    let fc1: usize = biased_linear(hidden, intermediate);
    let fc2: usize = biased_linear(intermediate, hidden);
    let proj: usize = biased_linear(hidden, hidden);
    norm + norm + fc1 + fc2 + proj + proj + proj + proj
}

/// Patches of a square image.
pub open spec fn square_patches_elems(image_size: int, patch_size: int) -> int {
    let side = image_size / patch_size;
    side * side
}

/// Every step of `square_patches` fits a machine word.
pub open spec fn square_patches_fits(image_size: int, patch_size: int) -> bool {
    let side = image_size / patch_size;
    &&& patch_size > 0
    &&& word(side * side)
}

/// Patches of a square image.
pub fn square_patches(image_size: usize, patch_size: usize) -> (r: usize)
    requires
        square_patches_fits(image_size as int, patch_size as int),
    ensures
        r == square_patches_elems(image_size as int, patch_size as int),
{
    let side: usize = image_size / patch_size;
    side * side
}

/// The kernel of a convolution over square patches.
pub open spec fn patch_conv_elems(channels: int, hidden: int, patch_size: int) -> int {
    channels * hidden * patch_size * patch_size
}

/// Every step of `patch_conv` fits a machine word.
pub open spec fn patch_conv_fits(channels: int, hidden: int, patch_size: int) -> bool {
    &&& word(channels * hidden)
    &&& word(channels * hidden * patch_size)
    &&& word(channels * hidden * patch_size * patch_size)
}

/// The kernel of a convolution over square patches.
pub fn patch_conv(channels: usize, hidden: usize, patch_size: usize) -> (r: usize)
    requires
        patch_conv_fits(channels as int, hidden as int, patch_size as int),
    ensures
        r == patch_conv_elems(channels as int, hidden as int, patch_size as int),
{
    channels * hidden * patch_size * patch_size
}

/// A SigLIP vision tower.
pub open spec fn siglip_vision_elems(
    hidden: int,
    intermediate: int,
    channels: int,
    image_size: int,
    patch_size: int,
    layers: int,
) -> int {
    let patch_embedding = patch_conv_elems(channels, hidden, patch_size);
    let patches = square_patches_elems(image_size, patch_size);
    let position_embedding = patches * hidden;
    let layer = vit_layer_elems(hidden, intermediate);
    hidden + patch_embedding + position_embedding + layer * layers
}

/// Every step of `siglip_vision` fits a machine word.
pub open spec fn siglip_vision_fits(
    hidden: int,
    intermediate: int,
    channels: int,
    image_size: int,
    patch_size: int,
    layers: int,
) -> bool {
    let patch_embedding = patch_conv_elems(channels, hidden, patch_size);
    let patches = square_patches_elems(image_size, patch_size);
    let position_embedding = patches * hidden;
    let layer = vit_layer_elems(hidden, intermediate);
    &&& patch_conv_fits(channels, hidden, patch_size)
    &&& square_patches_fits(image_size, patch_size)
    &&& word(patches * hidden)
    &&& vit_layer_fits(hidden, intermediate)
    &&& word(layer * layers)
    &&& word(hidden + patch_embedding + position_embedding + layer * layers)
}

/// A SigLIP vision tower.
pub fn siglip_vision(
    hidden: usize,
    intermediate: usize,
    channels: usize,
    image_size: usize,
    patch_size: usize,
    layers: usize,
) -> (r: usize)
    requires
        siglip_vision_fits(
            hidden as int,
            intermediate as int,
            channels as int,
            image_size as int,
            patch_size as int,
            layers as int,
        ),
    ensures
        r == siglip_vision_elems(
            hidden as int,
            intermediate as int,
            channels as int,
            image_size as int,
            patch_size as int,
            layers as int,
        ),
{
    let patch_embedding: usize = patch_conv(channels, hidden, patch_size);
    let patches: usize = square_patches(image_size, patch_size);
    let position_embedding: usize = patches * hidden;
    let layer: usize = vit_layer(hidden, intermediate);
    hidden + patch_embedding + position_embedding + layer * layers
}

/// Attention scores of a batch.
pub open spec fn scores_elems(batch: int, heads: int, queries: int, keys: int) -> int {
    batch * heads * queries * keys
}

/// Every step of `scores` fits a machine word.
pub open spec fn scores_fits(batch: int, heads: int, queries: int, keys: int) -> bool {
    &&& word(batch * heads)
    &&& word(batch * heads * queries)
    &&& word(batch * heads * queries * keys)
}

/// Attention scores of a batch.
pub fn scores(batch: usize, heads: usize, queries: usize, keys: usize) -> (r: usize)
    requires
        scores_fits(batch as int, heads as int, queries as int, keys as int),
    ensures
        r == scores_elems(batch as int, heads as int, queries as int, keys as int),
{
    batch * heads * queries * keys
}

/// The same size for each of `n` layers.
pub fn uniform(size: usize, n: usize) -> (r: Vec<usize>)
    ensures
        r@ == Seq::new(n as nat, |i: int| size),
{
    let mut r: Vec<usize> = Vec::with_capacity(n);
    let mut i: usize = 0;
    while i < n
        invariant
            i <= n,
            r@ == Seq::new(i as nat, |j: int| size),
        decreases n - i,
    {
        r.push(size);
        i += 1;
        assert(r@ =~= Seq::new(i as nat, |j: int| size));
    }
    r
}

/// A quotient is the greatest number of times that a divisor goes into a count.
pub proof fn lemma_quotient(x: int, d: int)
    by (nonlinear_arith)
    requires
        d > 0,
    ensures
        d * (x / d) <= x < d * (x / d + 1),
{
}

/// Packing divides a matrix whose side is a multiple of the pack factor evenly.
pub proof fn lemma_packed(side: int, other: int, pack: int, k: int)
    requires
        pack > 0,
        side == pack * k,
    ensures
        (side * other) / pack == k * other,
        (other * side) / pack == k * other,
        pack * (k * other) == side * other,
        pack * (k * other) == other * side,
{
    assert(side * other == pack * (k * other) && other * side == pack * (k * other))
        by (nonlinear_arith)
        requires
            side == pack * k,
    ;
    vstd::arithmetic::div_mod::lemma_div_multiples_vanish(k * other, pack);
}

/// The embeddings take one row for each word, packed; an output head takes as much again, by its
/// own pack factor, unless it is the embeddings; and the final norm takes one row.
pub proof fn law_words_have_rows(
    hidden: int,
    vocab: int,
    tied: bool,
    embed_pack: int,
    head_pack: int,
) -> (rows: (int, int))
    requires
        embed_pack > 0,
        head_pack > 0,
    ensures
        text_head_elems(hidden, vocab, tied, embed_pack, head_pack) == rows.0 + rows.1 + hidden,
        embed_pack * rows.0 <= hidden * vocab < embed_pack * (rows.0 + 1),
        tied ==> rows.1 == 0,
        !tied ==> head_pack * rows.1 <= hidden * vocab < head_pack * (rows.1 + 1),
{
    lemma_quotient(hidden * vocab, embed_pack);
    lemma_quotient(hidden * vocab, head_pack);
    (
        hidden * vocab / embed_pack,
        if tied {
            0
        } else {
            hidden * vocab / head_pack
        },
    )
}

/// Each inner channel of a gated block has three rows of the model's width, and there is nothing
/// else.
pub proof fn law_inner_channels_have_three_rows(hidden: int, a: int, b: int)
    by (nonlinear_arith)
    ensures
        gated_mlp_elems(hidden, a + b, 1) == gated_mlp_elems(hidden, a, 1) + 3 * hidden * b,
        gated_mlp_elems(hidden, 0, 1) == 0,
{
}

/// Packing divides a gated block evenly.
pub proof fn law_gated_blocks_are_packed_whole(hidden: int, width: int, pack: int, k: int)
    requires
        pack > 0,
        hidden == pack * k,
    ensures
        pack * gated_mlp_elems(hidden, width, pack) == gated_mlp_elems(hidden, width, 1),
{
    lemma_packed(hidden, width, pack, k);
    let proj = k * width;
    assert(pack * (proj + proj + proj) == pack * proj + pack * proj + pack * proj)
        by (nonlinear_arith);
}

/// Each query channel has a row in its projection and one in the output projection; each key
/// channel has one in its projection, and its value one in another.
pub proof fn law_attention_channels_have_two_rows(size_in: int, q: int, kv: int, a: int, b: int)
    by (nonlinear_arith)
    ensures
        attention_elems(size_in, q + a, kv + b, 1) == attention_elems(size_in, q, kv, 1) + 2
            * size_in * (a + b),
        attention_elems(size_in, 0, 0, 1) == 0,
{
}

/// Packing divides attention evenly.
pub proof fn law_attention_is_packed_whole(size_in: int, q: int, kv: int, pack: int, k: int)
    requires
        pack > 0,
        size_in == pack * k,
    ensures
        pack * attention_elems(size_in, q, kv, pack) == attention_elems(size_in, q, kv, 1),
{
    lemma_packed(size_in, q, pack, k);
    lemma_packed(size_in, kv, pack, k);
    let (x, y) = (k * q, k * kv);
    assert(pack * (x + y + y + x) == pack * x + pack * y + pack * y + pack * x)
        by (nonlinear_arith);
}

/// A decoder layer is attention, a gated block, and a norm in front of each.
pub proof fn law_decoder_layers_have_two_norms(
    hidden: int,
    size_q: int,
    size_kv: int,
    width: int,
    pack: int,
)
    ensures
        decoder_layer_elems(hidden, size_q, size_kv, width, pack) - attention_elems(
            hidden,
            size_q,
            size_kv,
            pack,
        ) - gated_mlp_elems(hidden, width, pack) == 2 * hidden,
{
}

/// Each output has one weight for each input, and one bias.
pub proof fn law_outputs_have_their_weights_and_a_bias(size_in: int, a: int, b: int)
    by (nonlinear_arith)
    ensures
        biased_linear_elems(size_in, a + b) == biased_linear_elems(size_in, a) + (size_in + 1) * b,
        biased_linear_elems(size_in, 0) == 0,
{
}

/// A layer of a vision transformer has four square projections with biases and two norms with
/// biases; each inner channel has a row in, a row out and a bias, and the outputs have biases.
pub proof fn law_vision_layers_are_biased(hidden: int, a: int, b: int)
    by (nonlinear_arith)
    ensures
        vit_layer_elems(hidden, a + b) == vit_layer_elems(hidden, a) + (2 * hidden + 1) * b,
        vit_layer_elems(hidden, 0) == 4 * hidden * (hidden + 1) + 5 * hidden,
{
}

/// As many whole patches as fit lie along each side of an image.
pub proof fn law_patches_lie_within_the_image(image_size: int, patch_size: int) -> (side: int)
    requires
        patch_size > 0,
        image_size >= 0,
    ensures
        square_patches_elems(image_size, patch_size) == side * side,
        0 <= side,
        patch_size * side <= image_size < patch_size * (side + 1),
{
    lemma_quotient(image_size, patch_size);
    assert(image_size / patch_size >= 0) by (nonlinear_arith)
        requires
            patch_size > 0,
            image_size >= 0,
    ;
    image_size / patch_size
}

/// A patch kernel has one weight for each pixel, channel and output.
pub proof fn law_patch_kernels_see_every_pixel(channels: int, hidden: int, patch: int, more: int)
    by (nonlinear_arith)
    ensures
        patch_conv_elems(channels + more, hidden, patch) == patch_conv_elems(
            channels,
            hidden,
            patch,
        ) + more * hidden * patch * patch,
        patch_conv_elems(channels, hidden + more, patch) == patch_conv_elems(
            channels,
            hidden,
            patch,
        ) + channels * more * patch * patch,
        patch_conv_elems(0, hidden, patch) == 0,
        patch_conv_elems(channels, 0, patch) == 0,
{
}

/// A vision tower is its layers, the patch kernel, one position for each patch, and a norm.
pub proof fn law_vision_towers_are_their_layers(
    hidden: int,
    width: int,
    channels: int,
    image: int,
    patch: int,
    layers: int,
    more: int,
)
    ensures
        siglip_vision_elems(hidden, width, channels, image, patch, layers + more)
            == siglip_vision_elems(hidden, width, channels, image, patch, layers) + more
            * vit_layer_elems(hidden, width),
        siglip_vision_elems(hidden, width, channels, image, patch, 0) - patch_conv_elems(
            channels,
            hidden,
            patch,
        ) == hidden * (square_patches_elems(image, patch) + 1),
{
    let layer = vit_layer_elems(hidden, width);
    let patches = square_patches_elems(image, patch);
    assert(layer * (layers + more) == layer * layers + more * layer) by (nonlinear_arith);
    assert(layer * 0 == 0 && hidden + patches * hidden == hidden * (patches + 1))
        by (nonlinear_arith);
}

/// Every head of every item of a batch scores each query against each key.
pub proof fn law_scores_are_counted_once(
    batch: int,
    heads: int,
    queries: int,
    keys: int,
    more: int,
)
    by (nonlinear_arith)
    ensures
        scores_elems(batch + more, heads, queries, keys) - scores_elems(batch, heads, queries, keys)
            == more * heads * queries * keys,
        scores_elems(batch, heads + more, queries, keys) - scores_elems(batch, heads, queries, keys)
            == batch * more * queries * keys,
        scores_elems(batch, heads, queries + more, keys) - scores_elems(batch, heads, queries, keys)
            == batch * heads * more * keys,
        scores_elems(batch, heads, queries, keys + more) - scores_elems(batch, heads, queries, keys)
            == batch * heads * queries * more,
        scores_elems(0, heads, queries, keys) == 0,
{
}

/// The lesser and the greater of two counts are the two, and lie in order.
pub proof fn law_counts_are_ordered(a: int, b: int)
    ensures
        smaller_elems(a, b) <= larger_elems(a, b),
        smaller_elems(a, b) + larger_elems(a, b) == a + b,
        smaller_elems(a, b) == a || smaller_elems(a, b) == b,
        larger_elems(a, b) == a || larger_elems(a, b) == b,
{
}

} // verus!
