//! LFM2-VL.

use vstd::prelude::*;

use crate::loaders::{
    AutoDeviceMapParams, KvCacheLayout, LoaderError, Modalities, ModelConfigMetadata,
    NonMappedSubModel, PackFactors, PackLookup, SupportedModality,
};
use crate::loaders::patterns::{
    LM_HEAD, ROOT_LM_HEAD, WEIGHT_OR_BIAS, family, literals, push_family, push_pattern,
    push_patterns, texts,
};
use crate::loaders::sizes::{
    attention, ceil_quotient, ceil_quotient_elems, ceil_quotient_fits, larger, larger_elems, scores,
    scores_elems, scores_fits, smaller, smaller_elems, square_patches, square_patches_elems,
    square_patches_fits, text_head, text_head_elems, text_head_fits, word,
};
use crate::tensor::{DType};
use crate::loaders::normal::lfm2::Lfm2LayerType;
use crate::loaders::placement::{
    clamped_place, get_device_for_nested_tensor, regex_first_group, DeviceForLoadTensor,
    NESTED_LAYER_PATTERN,
};

verus! {

/// What the sizes of the text model depend on.
#[derive(Debug, Clone, Copy, PartialEq, Eq, Structural)]
pub struct Lfm2VlTextConfig {
    pub hidden_size: usize,
    pub vocab_size: usize,
    pub num_hidden_layers: usize,
    pub num_attention_heads: usize,
    pub num_key_value_heads: usize,
    pub head_dim: usize,
    pub intermediate_size: usize,
    pub max_position_embeddings: usize,
    pub conv_l_cache: usize,
    pub conv_bias: bool,
    pub tie_word_embeddings: bool,
}

/// What the sizes of the vision tower depend on.
#[derive(Debug, Clone, Copy, PartialEq, Eq, Structural)]
pub struct Lfm2VlVisionConfig {
    pub hidden_size: usize,
    pub intermediate_size: usize,
    pub num_hidden_layers: usize,
    pub num_attention_heads: usize,
    pub num_channels: usize,
    pub patch_size: usize,
    pub num_patches: usize,
}

/// What the sizes depend on.
#[derive(Debug, Clone, Copy, PartialEq, Eq, Structural)]
pub struct Lfm2VlConfig {
    pub text_config: Lfm2VlTextConfig,
    pub vision_config: Lfm2VlVisionConfig,
    pub tile_size: usize,
    pub encoder_patch_size: usize,
    pub downsample_factor: usize,
    pub max_tiles: usize,
    pub max_image_tokens: usize,
    pub do_image_splitting: bool,
    pub use_thumbnail: bool,
    pub projector_hidden_size: usize,
    pub projector_bias: bool,
    pub projector_use_layernorm: bool,
}

/// The most tokens of an image: those of its tiles and of its thumbnail where it is
/// split.
pub open spec fn max_image_seq_len_elems(cfg: Lfm2VlConfig) -> int {
    let tile = cfg.tile_size as int;
    let patch = cfg.encoder_patch_size as int;
    let factor = cfg.downsample_factor as int;
    let tiles = cfg.max_tiles as int;
    let whole = cfg.max_image_tokens as int;
    let split = cfg.do_image_splitting;
    let thumbnail = cfg.use_thumbnail;
    let patches = tile / patch;
    let side = ceil_quotient_elems(patches, factor);
    let per_tile = side * side;
    let extra = if thumbnail { whole } else { 0 };
    if split { tiles * per_tile + extra } else { whole }
}

/// Every step of `max_image_seq_len` fits a machine word.
pub open spec fn max_image_seq_len_fits(cfg: Lfm2VlConfig) -> bool {
    let tile = cfg.tile_size as int;
    let patch = cfg.encoder_patch_size as int;
    let factor = cfg.downsample_factor as int;
    let tiles = cfg.max_tiles as int;
    let whole = cfg.max_image_tokens as int;
    let split = cfg.do_image_splitting;
    let thumbnail = cfg.use_thumbnail;
    let patches = tile / patch;
    let side = ceil_quotient_elems(patches, factor);
    let per_tile = side * side;
    let extra = if thumbnail { whole } else { 0 };
    &&& patch > 0
    &&& ceil_quotient_fits(patches, factor)
    &&& word(side * side)
    &&& split ==> word(tiles * per_tile)
    &&& split ==> word(tiles * per_tile + extra)
}

/// The most tokens of an image: those of its tiles and of its thumbnail where it is
/// split.
pub fn max_image_seq_len(cfg: &Lfm2VlConfig) -> (r: usize)
    requires
        max_image_seq_len_fits(*cfg),
    ensures
        r == max_image_seq_len_elems(*cfg),
{
    let tile: usize = cfg.tile_size;
    let patch: usize = cfg.encoder_patch_size;
    let factor: usize = cfg.downsample_factor;
    let tiles: usize = cfg.max_tiles;
    let whole: usize = cfg.max_image_tokens;
    let split: bool = cfg.do_image_splitting;
    let thumbnail: bool = cfg.use_thumbnail;
    let patches: usize = tile / patch;
    let side: usize = ceil_quotient(patches, factor);
    let per_tile: usize = side * side;
    let extra: usize = if thumbnail { whole } else { 0 };
    if split { tiles * per_tile + extra } else { whole }
}

/// The most patches of a crop.
pub open spec fn max_num_patches_elems(cfg: Lfm2VlConfig) -> int {
    let tile = cfg.tile_size as int;
    let patch = cfg.encoder_patch_size as int;
    let factor = cfg.downsample_factor as int;
    let whole = cfg.max_image_tokens as int;
    let split = cfg.do_image_splitting;
    let thumbnail = whole * (factor * factor);
    let tile_patches = if split { square_patches_elems(tile, patch) } else { 0 };
    larger_elems(thumbnail, tile_patches)
}

/// Every step of `max_num_patches` fits a machine word.
pub open spec fn max_num_patches_fits(cfg: Lfm2VlConfig) -> bool {
    let tile = cfg.tile_size as int;
    let patch = cfg.encoder_patch_size as int;
    let factor = cfg.downsample_factor as int;
    let whole = cfg.max_image_tokens as int;
    let split = cfg.do_image_splitting;
    &&& word(factor * factor)
    &&& word(whole * (factor * factor))
    &&& split ==> square_patches_fits(tile, patch)
}

/// The most patches of a crop.
pub fn max_num_patches(cfg: &Lfm2VlConfig) -> (r: usize)
    requires
        max_num_patches_fits(*cfg),
    ensures
        r == max_num_patches_elems(*cfg),
{
    let tile: usize = cfg.tile_size;
    let patch: usize = cfg.encoder_patch_size;
    let factor: usize = cfg.downsample_factor;
    let whole: usize = cfg.max_image_tokens;
    let split: bool = cfg.do_image_splitting;
    let thumbnail: usize = whole * (factor * factor);
    let tile_patches: usize = if split { square_patches(tile, patch) } else { 0 };
    larger(thumbnail, tile_patches)
}

/// The most crops of an image.
pub open spec fn max_crops_per_image_elems(cfg: Lfm2VlConfig) -> int {
    let tiles = cfg.max_tiles as int;
    let split = cfg.do_image_splitting;
    let thumbnail = cfg.use_thumbnail;
    let extra: int = if thumbnail { 1 } else { 0 };
    if split { tiles + extra } else { 1 }
}

/// Every step of `max_crops_per_image` fits a machine word.
pub open spec fn max_crops_per_image_fits(cfg: Lfm2VlConfig) -> bool {
    let tiles = cfg.max_tiles as int;
    let split = cfg.do_image_splitting;
    let thumbnail = cfg.use_thumbnail;
    let extra: int = if thumbnail { 1 } else { 0 };
    &&& split ==> word(tiles + extra)
}

/// The most crops of an image.
pub fn max_crops_per_image(cfg: &Lfm2VlConfig) -> (r: usize)
    requires
        max_crops_per_image_fits(*cfg),
    ensures
        r == max_crops_per_image_elems(*cfg),
{
    let tiles: usize = cfg.max_tiles;
    let split: bool = cfg.do_image_splitting;
    let thumbnail: bool = cfg.use_thumbnail;
    let extra: usize = if thumbnail { 1 } else { 0 };
    if split { tiles + extra } else { 1 }
}

/// Scores of a prompt chunk with its images.
pub open spec fn lfm2vl_mapped_act_elems(
    cfg: Lfm2VlConfig,
    seq: int,
    batch: int,
    images: int,
    chunk: int,
) -> int {
    let heads = cfg.text_config.num_attention_heads as int;
    let image_seq = max_image_seq_len_elems(cfg);
    let total = smaller_elems(seq, chunk) + image_seq * images;
    scores_elems(batch, heads, total, total)
}

/// Every step of `lfm2vl_mapped_act` fits a machine word.
pub open spec fn lfm2vl_mapped_act_fits(
    cfg: Lfm2VlConfig,
    seq: int,
    batch: int,
    images: int,
    chunk: int,
) -> bool {
    let heads = cfg.text_config.num_attention_heads as int;
    let image_seq = max_image_seq_len_elems(cfg);
    let total = smaller_elems(seq, chunk) + image_seq * images;
    &&& max_image_seq_len_fits(cfg)
    &&& word(image_seq * images)
    &&& word(smaller_elems(seq, chunk) + image_seq * images)
    &&& scores_fits(batch, heads, total, total)
}

/// Scores of a prompt chunk with its images.
pub fn lfm2vl_mapped_act(
    cfg: &Lfm2VlConfig,
    seq: usize,
    batch: usize,
    images: usize,
    chunk: usize,
) -> (r: usize)
    requires
        lfm2vl_mapped_act_fits(*cfg, seq as int, batch as int, images as int, chunk as int),
    ensures
        r == lfm2vl_mapped_act_elems(*cfg, seq as int, batch as int, images as int, chunk as int),
{
    let heads: usize = cfg.text_config.num_attention_heads;
    let image_seq: usize = max_image_seq_len(cfg);
    let total: usize = smaller(seq, chunk) + image_seq * images;
    scores(batch, heads, total, total)
}

/// The larger of the scores and the hidden states of the vision tower.
pub open spec fn lfm2vl_vision_act_elems(cfg: Lfm2VlConfig, batch: int, images: int) -> int {
    let heads = cfg.vision_config.num_attention_heads as int;
    let hidden = cfg.vision_config.hidden_size as int;
    let width = cfg.vision_config.intermediate_size as int;
    let crops = images * max_crops_per_image_elems(cfg);
    let patches = max_num_patches_elems(cfg);
    let items = batch * crops;
    let attn = scores_elems(items, heads, patches, patches);
    let states = items * patches * larger_elems(hidden, width);
    larger_elems(attn, states)
}

/// Every step of `lfm2vl_vision_act` fits a machine word.
pub open spec fn lfm2vl_vision_act_fits(cfg: Lfm2VlConfig, batch: int, images: int) -> bool {
    let heads = cfg.vision_config.num_attention_heads as int;
    let hidden = cfg.vision_config.hidden_size as int;
    let width = cfg.vision_config.intermediate_size as int;
    let crops = images * max_crops_per_image_elems(cfg);
    let patches = max_num_patches_elems(cfg);
    let items = batch * crops;
    &&& max_crops_per_image_fits(cfg)
    &&& word(images * max_crops_per_image_elems(cfg))
    &&& max_num_patches_fits(cfg)
    &&& word(batch * crops)
    &&& scores_fits(items, heads, patches, patches)
    &&& word(items * patches)
    &&& word(items * patches * larger_elems(hidden, width))
}

/// The larger of the scores and the hidden states of the vision tower.
pub fn lfm2vl_vision_act(cfg: &Lfm2VlConfig, batch: usize, images: usize) -> (r: usize)
    requires
        lfm2vl_vision_act_fits(*cfg, batch as int, images as int),
    ensures
        r == lfm2vl_vision_act_elems(*cfg, batch as int, images as int),
{
    let heads: usize = cfg.vision_config.num_attention_heads;
    let hidden: usize = cfg.vision_config.hidden_size;
    let width: usize = cfg.vision_config.intermediate_size;
    let crops: usize = images * max_crops_per_image(cfg);
    let patches: usize = max_num_patches(cfg);
    let items: usize = batch * crops;
    let attn: usize = scores(items, heads, patches, patches);
    let states: usize = items * patches * larger(hidden, width);
    larger(attn, states)
}

/// The vision tower.
pub open spec fn lfm2vl_vision_elems(cfg: Lfm2VlVisionConfig) -> int {
    let hidden = cfg.hidden_size as int;
    let width = cfg.intermediate_size as int;
    let channels = cfg.num_channels as int;
    let patch = cfg.patch_size as int;
    let patches = cfg.num_patches as int;
    let layers = cfg.num_hidden_layers as int;
    let patch_embedding = channels * patch * patch * hidden + hidden;
    let position_embedding = patches * hidden;
    let post_layernorm = 2 * hidden;
    let attn = 4 * (hidden * hidden + hidden);
    let mlp = hidden * width + width + width * hidden + hidden;
    let norms = 4 * hidden;
    let layer = attn + mlp + norms;
    patch_embedding + position_embedding + post_layernorm + layers * layer
}

/// Every step of `lfm2vl_vision` fits a machine word.
pub open spec fn lfm2vl_vision_fits(cfg: Lfm2VlVisionConfig) -> bool {
    let hidden = cfg.hidden_size as int;
    let width = cfg.intermediate_size as int;
    let channels = cfg.num_channels as int;
    let patch = cfg.patch_size as int;
    let patches = cfg.num_patches as int;
    let layers = cfg.num_hidden_layers as int;
    let patch_embedding = channels * patch * patch * hidden + hidden;
    let position_embedding = patches * hidden;
    let post_layernorm = 2 * hidden;
    let attn = 4 * (hidden * hidden + hidden);
    let mlp = hidden * width + width + width * hidden + hidden;
    let norms = 4 * hidden;
    let layer = attn + mlp + norms;
    &&& word(channels * patch)
    &&& word(channels * patch * patch)
    &&& word(channels * patch * patch * hidden)
    &&& word(channels * patch * patch * hidden + hidden)
    &&& word(patches * hidden)
    &&& word(2 * hidden)
    &&& word(hidden * hidden)
    &&& word(hidden * hidden + hidden)
    &&& word(4 * (hidden * hidden + hidden))
    &&& word(hidden * width)
    &&& word(width * hidden)
    &&& word(hidden * width + width + width * hidden + hidden)
    &&& word(4 * hidden)
    &&& word(attn + mlp + norms)
    &&& word(layers * layer)
    &&& word(patch_embedding + position_embedding + post_layernorm + layers * layer)
}

/// The vision tower.
pub fn lfm2vl_vision(cfg: &Lfm2VlVisionConfig) -> (r: usize)
    requires
        lfm2vl_vision_fits(*cfg),
    ensures
        r == lfm2vl_vision_elems(*cfg),
{
    let hidden: usize = cfg.hidden_size;
    let width: usize = cfg.intermediate_size;
    let channels: usize = cfg.num_channels;
    let patch: usize = cfg.patch_size;
    let patches: usize = cfg.num_patches;
    let layers: usize = cfg.num_hidden_layers;
    let patch_embedding: usize = channels * patch * patch * hidden + hidden;
    let position_embedding: usize = patches * hidden;
    let post_layernorm: usize = 2 * hidden;
    let attn: usize = 4 * (hidden * hidden + hidden);
    let mlp: usize = hidden * width + width + width * hidden + hidden;
    let norms: usize = 4 * hidden;
    let layer: usize = attn + mlp + norms;
    patch_embedding + position_embedding + post_layernorm + layers * layer
}

/// The projection of image features to the text model.
pub open spec fn lfm2vl_projector_elems(cfg: Lfm2VlConfig, pack: int) -> int {
    let v_hidden = cfg.vision_config.hidden_size as int;
    let factor = cfg.downsample_factor as int;
    let width = cfg.projector_hidden_size as int;
    let hidden = cfg.text_config.hidden_size as int;
    let biased = cfg.projector_bias;
    let normed = cfg.projector_use_layernorm;
    let in_channels = v_hidden * (factor * factor);
    let linears = in_channels * width / pack + width * hidden / pack;
    let bias = if biased { width + hidden } else { 0 };
    let norm = if normed { 2 * in_channels } else { 0 };
    linears + bias + norm
}

/// Every step of `lfm2vl_projector` fits a machine word.
pub open spec fn lfm2vl_projector_fits(cfg: Lfm2VlConfig, pack: int) -> bool {
    let v_hidden = cfg.vision_config.hidden_size as int;
    let factor = cfg.downsample_factor as int;
    let width = cfg.projector_hidden_size as int;
    let hidden = cfg.text_config.hidden_size as int;
    let biased = cfg.projector_bias;
    let normed = cfg.projector_use_layernorm;
    let in_channels = v_hidden * (factor * factor);
    let linears = in_channels * width / pack + width * hidden / pack;
    let bias = if biased { width + hidden } else { 0 };
    let norm = if normed { 2 * in_channels } else { 0 };
    &&& word(factor * factor)
    &&& word(v_hidden * (factor * factor))
    &&& word(in_channels * width)
    &&& pack > 0
    &&& word(width * hidden)
    &&& word(in_channels * width / pack + width * hidden / pack)
    &&& biased ==> word(width + hidden)
    &&& normed ==> word(2 * in_channels)
    &&& word(linears + bias + norm)
}

/// The projection of image features to the text model.
pub fn lfm2vl_projector(cfg: &Lfm2VlConfig, pack: usize) -> (r: usize)
    requires
        lfm2vl_projector_fits(*cfg, pack as int),
    ensures
        r == lfm2vl_projector_elems(*cfg, pack as int),
{
    let v_hidden: usize = cfg.vision_config.hidden_size;
    let factor: usize = cfg.downsample_factor;
    let width: usize = cfg.projector_hidden_size;
    let hidden: usize = cfg.text_config.hidden_size;
    let biased: bool = cfg.projector_bias;
    let normed: bool = cfg.projector_use_layernorm;
    let in_channels: usize = v_hidden * (factor * factor);
    let linears: usize = in_channels * width / pack + width * hidden / pack;
    let bias: usize = if biased { width + hidden } else { 0 };
    let norm: usize = if normed { 2 * in_channels } else { 0 };
    linears + bias + norm
}

/// What is not mapped to layers.
pub open spec fn lfm2vl_non_mapped_elems(cfg: Lfm2VlConfig, packs: PackFactors) -> int {
    let hidden = cfg.text_config.hidden_size as int;
    let vocab = cfg.text_config.vocab_size as int;
    let embed_pack = packs.embed_tokens as int;
    let head_pack = packs.lm_head as int;
    let pack = packs.weight as int;
    let tied = cfg.text_config.tie_word_embeddings;
    let text = text_head_elems(hidden, vocab, tied, embed_pack, head_pack);
    let vision = lfm2vl_vision_elems(cfg.vision_config);
    let projector = lfm2vl_projector_elems(cfg, pack);
    text + vision + projector
}

/// Every step of `lfm2vl_non_mapped` fits a machine word.
pub open spec fn lfm2vl_non_mapped_fits(cfg: Lfm2VlConfig, packs: PackFactors) -> bool {
    let hidden = cfg.text_config.hidden_size as int;
    let vocab = cfg.text_config.vocab_size as int;
    let embed_pack = packs.embed_tokens as int;
    let head_pack = packs.lm_head as int;
    let pack = packs.weight as int;
    let tied = cfg.text_config.tie_word_embeddings;
    let text = text_head_elems(hidden, vocab, tied, embed_pack, head_pack);
    let vision = lfm2vl_vision_elems(cfg.vision_config);
    let projector = lfm2vl_projector_elems(cfg, pack);
    &&& text_head_fits(hidden, vocab, tied, embed_pack, head_pack)
    &&& lfm2vl_vision_fits(cfg.vision_config)
    &&& lfm2vl_projector_fits(cfg, pack)
    &&& word(text + vision + projector)
}

/// What is not mapped to layers.
pub fn lfm2vl_non_mapped(cfg: &Lfm2VlConfig, packs: PackFactors) -> (r: usize)
    requires
        lfm2vl_non_mapped_fits(*cfg, packs),
    ensures
        r == lfm2vl_non_mapped_elems(*cfg, packs),
{
    let hidden: usize = cfg.text_config.hidden_size;
    let vocab: usize = cfg.text_config.vocab_size;
    let embed_pack: usize = packs.embed_tokens;
    let head_pack: usize = packs.lm_head;
    let pack: usize = packs.weight;
    let tied: bool = cfg.text_config.tie_word_embeddings;
    let text: usize = text_head(hidden, vocab, tied, embed_pack, head_pack);
    let vision: usize = lfm2vl_vision(&cfg.vision_config);
    let projector: usize = lfm2vl_projector(cfg, pack);
    text + vision + projector
}

/// The attention of a layer.
pub open spec fn lfm2vl_attention_elems(cfg: Lfm2VlTextConfig, pack: int) -> int {
    let hidden = cfg.hidden_size as int;
    let head = cfg.head_dim as int;
    let heads = cfg.num_attention_heads as int;
    let kv_heads = cfg.num_key_value_heads as int;
    let q_dim = heads * head;
    let kv_dim = kv_heads * head;
    let projections = (hidden * q_dim + hidden * kv_dim * 2 + q_dim * hidden) / pack;
    projections + 2 * head
}

/// Every step of `lfm2vl_attention` fits a machine word.
pub open spec fn lfm2vl_attention_fits(cfg: Lfm2VlTextConfig, pack: int) -> bool {
    let hidden = cfg.hidden_size as int;
    let head = cfg.head_dim as int;
    let heads = cfg.num_attention_heads as int;
    let kv_heads = cfg.num_key_value_heads as int;
    let q_dim = heads * head;
    let kv_dim = kv_heads * head;
    let projections = (hidden * q_dim + hidden * kv_dim * 2 + q_dim * hidden) / pack;
    &&& word(heads * head)
    &&& word(kv_heads * head)
    &&& word(hidden * q_dim)
    &&& word(hidden * kv_dim)
    &&& word(hidden * kv_dim * 2)
    &&& word(q_dim * hidden)
    &&& word(hidden * q_dim + hidden * kv_dim * 2 + q_dim * hidden)
    &&& pack > 0
    &&& word(2 * head)
    &&& word(projections + 2 * head)
}

/// The attention of a layer.
pub fn lfm2vl_attention(cfg: &Lfm2VlTextConfig, pack: usize) -> (r: usize)
    requires
        lfm2vl_attention_fits(*cfg, pack as int),
    ensures
        r == lfm2vl_attention_elems(*cfg, pack as int),
{
    let hidden: usize = cfg.hidden_size;
    let head: usize = cfg.head_dim;
    let heads: usize = cfg.num_attention_heads;
    let kv_heads: usize = cfg.num_key_value_heads;
    let q_dim: usize = heads * head;
    let kv_dim: usize = kv_heads * head;
    let projections: usize = (hidden * q_dim + hidden * kv_dim * 2 + q_dim * hidden) / pack;
    projections + 2 * head
}

/// The short convolution of a layer.
pub open spec fn lfm2vl_conv_elems(cfg: Lfm2VlTextConfig, pack: int) -> int {
    let hidden = cfg.hidden_size as int;
    let cache = cfg.conv_l_cache as int;
    let biased = cfg.conv_bias;
    let projections = (hidden * 3 * hidden + hidden * hidden) / pack;
    let conv = hidden * cache;
    let bias = if biased { 5 * hidden } else { 0 };
    projections + conv + bias
}

/// Every step of `lfm2vl_conv` fits a machine word.
pub open spec fn lfm2vl_conv_fits(cfg: Lfm2VlTextConfig, pack: int) -> bool {
    let hidden = cfg.hidden_size as int;
    let cache = cfg.conv_l_cache as int;
    let biased = cfg.conv_bias;
    let projections = (hidden * 3 * hidden + hidden * hidden) / pack;
    let conv = hidden * cache;
    let bias = if biased { 5 * hidden } else { 0 };
    &&& word(hidden * 3)
    &&& word(hidden * 3 * hidden)
    &&& word(hidden * hidden)
    &&& word(hidden * 3 * hidden + hidden * hidden)
    &&& pack > 0
    &&& word(hidden * cache)
    &&& biased ==> word(5 * hidden)
    &&& word(projections + conv + bias)
}

/// The short convolution of a layer.
pub fn lfm2vl_conv(cfg: &Lfm2VlTextConfig, pack: usize) -> (r: usize)
    requires
        lfm2vl_conv_fits(*cfg, pack as int),
    ensures
        r == lfm2vl_conv_elems(*cfg, pack as int),
{
    let hidden: usize = cfg.hidden_size;
    let cache: usize = cfg.conv_l_cache;
    let biased: bool = cfg.conv_bias;
    let projections: usize = (hidden * 3 * hidden + hidden * hidden) / pack;
    let conv: usize = hidden * cache;
    let bias: usize = if biased { 5 * hidden } else { 0 };
    projections + conv + bias
}

/// A layer of the given kind.
pub open spec fn lfm2vl_layer_elems(cfg: Lfm2VlConfig, kind: Lfm2LayerType, pack: int) -> int {
    let hidden = cfg.text_config.hidden_size as int;
    let width = cfg.text_config.intermediate_size as int;
    let feed_forward = 3 * hidden * width / pack;
    let text = cfg.text_config;
    let operator = match kind {
        Lfm2LayerType::Attention => lfm2vl_attention_elems(text, pack),
        Lfm2LayerType::Conv => lfm2vl_conv_elems(text, pack),
    };
    hidden + hidden + operator + feed_forward
}

/// Every step of `lfm2vl_layer` fits a machine word.
pub open spec fn lfm2vl_layer_fits(cfg: Lfm2VlConfig, kind: Lfm2LayerType, pack: int) -> bool {
    let hidden = cfg.text_config.hidden_size as int;
    let width = cfg.text_config.intermediate_size as int;
    let feed_forward = 3 * hidden * width / pack;
    let text = cfg.text_config;
    let operator = match kind {
        Lfm2LayerType::Attention => lfm2vl_attention_elems(text, pack),
        Lfm2LayerType::Conv => lfm2vl_conv_elems(text, pack),
    };
    &&& word(3 * hidden)
    &&& word(3 * hidden * width)
    &&& pack > 0
    &&& kind == Lfm2LayerType::Attention ==> lfm2vl_attention_fits(text, pack)
    &&& kind == Lfm2LayerType::Conv ==> lfm2vl_conv_fits(text, pack)
    &&& word(hidden + hidden + operator + feed_forward)
}

/// A layer of the given kind.
pub fn lfm2vl_layer(cfg: &Lfm2VlConfig, kind: Lfm2LayerType, pack: usize) -> (r: usize)
    requires
        lfm2vl_layer_fits(*cfg, kind, pack as int),
    ensures
        r == lfm2vl_layer_elems(*cfg, kind, pack as int),
{
    let hidden: usize = cfg.text_config.hidden_size;
    let width: usize = cfg.text_config.intermediate_size;
    let feed_forward: usize = 3 * hidden * width / pack;
    let operator: usize = match kind {
        Lfm2LayerType::Attention => lfm2vl_attention(&cfg.text_config, pack),
        Lfm2LayerType::Conv => lfm2vl_conv(&cfg.text_config, pack),
    };
    hidden + hidden + operator + feed_forward
}

/// Marks the media of LFM2-VL prompts.
pub struct Lfm2VlPrefixer;

impl Lfm2VlPrefixer {
    /// The prompt with its image marks: the chat template sets them.
    pub fn prefix_image(&self, image_indexes: &Vec<usize>, prompt: &str) -> (r: String)
        ensures
            r@ == prompt@,
    {
        prompt.to_owned()
    }
}

/// Loader of LFM2-VL models.
pub struct Lfm2VlLoader;

impl Lfm2VlLoader {
    /// Elements of the largest activation of a layer.
    pub fn mapped_max_act_size_elems(
        &self,
        cfg: &Lfm2VlConfig,
        params: &AutoDeviceMapParams,
        attention_chunk: usize,
    ) -> (r: Result<usize, LoaderError>)
        requires
            match *params {
                AutoDeviceMapParams::Multimodal {
                    max_seq_len,
                    max_batch_size,
                    max_num_images,
                    ..
                } => lfm2vl_mapped_act_fits(
                    *cfg,
                    max_seq_len as int,
                    max_batch_size as int,
                    max_num_images as int,
                    attention_chunk as int,
                ),
                _ => true,
            },
        ensures
            match *params {
                AutoDeviceMapParams::Multimodal {
                    max_seq_len,
                    max_batch_size,
                    max_num_images,
                    ..
                } => r matches Ok(n) && n == lfm2vl_mapped_act_elems(
                    *cfg,
                    max_seq_len as int,
                    max_batch_size as int,
                    max_num_images as int,
                    attention_chunk as int,
                ),
                _ => r == Err::<usize, LoaderError>(LoaderError::ExpectedMultimodal),
            },
    {
        match params {
            AutoDeviceMapParams::Multimodal {
                max_seq_len,
                max_batch_size,
                max_num_images,
                ..
            } => Ok(
                lfm2vl_mapped_act(
                    cfg,
                    *max_seq_len,
                    *max_batch_size,
                    *max_num_images,
                    attention_chunk,
                ),
            ),
            _ => Err(LoaderError::ExpectedMultimodal),
        }
    }

    /// Elements of the largest activation outside the layers.
    pub fn non_mapped_max_act_size_elems(
        &self,
        cfg: &Lfm2VlConfig,
        params: &AutoDeviceMapParams,
    ) -> (r: Result<usize, LoaderError>)
        requires
            match *params {
                AutoDeviceMapParams::Multimodal {
                    max_batch_size,
                    max_num_images,
                    ..
                } => lfm2vl_vision_act_fits(
                    *cfg,
                    max_batch_size as int,
                    max_num_images as int,
                ),
                _ => true,
            },
        ensures
            match *params {
                AutoDeviceMapParams::Multimodal {
                    max_batch_size,
                    max_num_images,
                    ..
                } => r matches Ok(n) && n == lfm2vl_vision_act_elems(
                    *cfg,
                    max_batch_size as int,
                    max_num_images as int,
                ),
                _ => r == Err::<usize, LoaderError>(LoaderError::ExpectedMultimodal),
            },
    {
        match params {
            AutoDeviceMapParams::Multimodal { max_batch_size, max_num_images, .. } => Ok(
                lfm2vl_vision_act(cfg, *max_batch_size, *max_num_images),
            ),
            _ => Err(LoaderError::ExpectedMultimodal),
        }
    }

    /// The tensors by whose quantization the pack factors are known.
    pub fn pack_lookup(&self, cfg: &Lfm2VlConfig) -> (r: PackLookup)
        ensures
            r.asks(
                seq!["model.language_model.embed_tokens.weight"@],
                "lm_head.weight"@,
                cfg.text_config.tie_word_embeddings,
            ),
    {
        let embed_tokens = vec!["model.language_model.embed_tokens.weight"];
        assert(literals(embed_tokens@) =~= seq!["model.language_model.embed_tokens.weight"@]);
        PackLookup {
            embed_tokens,
            lm_head: "lm_head.weight",
            tied: cfg.text_config.tie_word_embeddings,
        }
    }

    /// Bytes of what is not mapped to layers.
    pub fn non_mapped_size_in_bytes(
        &self,
        cfg: &Lfm2VlConfig,
        dtype: DType,
        packs: PackFactors,
    ) -> (r: usize)
        requires
            lfm2vl_non_mapped_fits(*cfg, packs),
            word(lfm2vl_non_mapped_elems(*cfg, packs) * dtype.bytes()),
        ensures
            r == lfm2vl_non_mapped_elems(*cfg, packs) * dtype.bytes(),
    {
        let elems: usize = lfm2vl_non_mapped(cfg, packs);
        elems * dtype.size_in_bytes()
    }

    /// Bytes of each layer, by the kinds of the layers.
    pub fn layer_sizes_in_bytes(
        &self,
        cfg: &Lfm2VlConfig,
        layers: &Vec<Lfm2LayerType>,
        dtype: DType,
        weight_pack_factor: usize,
    ) -> (r: Vec<usize>)
        requires
            forall|i: int| 0 <= i < layers@.len()
                ==> lfm2vl_layer_fits(*cfg, #[trigger] layers@[i], weight_pack_factor as int)
                && word(
                    lfm2vl_layer_elems(*cfg, layers@[i], weight_pack_factor as int) * dtype.bytes(),
                ),
        ensures
            r@.len() == layers@.len(),
            forall|i: int| 0 <= i < r@.len()
                ==> #[trigger] r@[i] == lfm2vl_layer_elems(
                    *cfg,
                    layers@[i],
                    weight_pack_factor as int,
                ) * dtype.bytes(),
    {
        let n: usize = layers.len();
        let mut r: Vec<usize> = Vec::with_capacity(n);
        let mut i: usize = 0;
        while i < n
            invariant
                i <= n == layers@.len(),
                r@.len() == i,
                forall|j: int| 0 <= j < layers@.len()
                    ==> lfm2vl_layer_fits(*cfg, #[trigger] layers@[j], weight_pack_factor as int)
                    && word(
                        lfm2vl_layer_elems(
                            *cfg,
                            layers@[j],
                            weight_pack_factor as int,
                        ) * dtype.bytes(),
                    ),
                forall|j: int| 0 <= j < i
                    ==> #[trigger] r@[j] == lfm2vl_layer_elems(
                        *cfg,
                        layers@[j],
                        weight_pack_factor as int,
                    ) * dtype.bytes(),
            decreases n - i,
        {
            assert(lfm2vl_layer_fits(*cfg, layers@[i as int], weight_pack_factor as int));
            let elems: usize = lfm2vl_layer(cfg, layers[i], weight_pack_factor);
            r.push(elems * dtype.size_in_bytes());
            i += 1;
        }
        r
    }

    /// Number of layers.
    pub fn num_layers(&self, cfg: &Lfm2VlConfig) -> (r: usize)
        ensures
            r == cfg.text_config.num_hidden_layers,
    {
        cfg.text_config.num_hidden_layers
    }

    /// What the paged cache needs to know of the model.
    pub fn model_config(&self, cfg: &Lfm2VlConfig) -> (r: ModelConfigMetadata)
        ensures
            r == (ModelConfigMetadata {
                max_seq_len: cfg.text_config.max_position_embeddings,
                num_layers: cfg.text_config.num_hidden_layers,
                hidden_size: cfg.text_config.hidden_size,
                num_kv_heads: cfg.text_config.num_key_value_heads,
                num_attn_heads: cfg.text_config.num_attention_heads,
                sliding_window: None,
                k_head_dim: cfg.text_config.head_dim,
                v_head_dim: cfg.text_config.head_dim,
                kv_cache_layout: KvCacheLayout::Standard,
            }),
    {
        ModelConfigMetadata {
                max_seq_len: cfg.text_config.max_position_embeddings,
                num_layers: cfg.text_config.num_hidden_layers,
                hidden_size: cfg.text_config.hidden_size,
                num_kv_heads: cfg.text_config.num_key_value_heads,
                num_attn_heads: cfg.text_config.num_attention_heads,
                sliding_window: None,
                k_head_dim: cfg.text_config.head_dim,
                v_head_dim: cfg.text_config.head_dim,
                kv_cache_layout: KvCacheLayout::Standard,
        }
    }

    /// The parts that are not mapped to layers.
    pub fn non_mapped_sub_models(&self) -> (r: Option<Vec<NonMappedSubModel>>)
        ensures
            r matches Some(v) && v@ == seq![NonMappedSubModel::Vision],
    {
        Some(vec![NonMappedSubModel::Vision])
    }

    /// What the model reads and writes.
    pub fn modalities(&self) -> (r: Modalities)
        ensures
            r.reads(seq![SupportedModality::Text, SupportedModality::Vision]),
    {
        Modalities {
            input: vec![SupportedModality::Text, SupportedModality::Vision],
            output: vec![SupportedModality::Text],
        }
    }

    /// Whether rotary embeddings split a head in halves by default.
    pub fn is_gptx(&self) -> (r: bool)
        ensures
            r == true,
    {
        true
    }

    /// Whether the model runs with paged attention.
    pub fn supports_paged_attention(&self) -> (r: bool)
        ensures
            r == true,
    {
        true
    }

    /// Whether encoder outputs can be cached.
    pub fn supports_encoder_cache(&self) -> (r: bool)
        ensures
            r == false,
    {
        false
    }

    /// Whether prompt prefixes can be cached.
    pub fn supports_prefix_cacher(&self) -> (r: bool)
        ensures
            r == true,
    {
        true
    }

    /// Tensors that keep a higher precision when quantized.
    pub open spec fn promoted_isq_predicates_texts(&self) -> Seq<Seq<char>> {
        seq![r"^model\.language_model\.embed_tokens\.weight$"@] + seq![ROOT_LM_HEAD@]
    }

    /// Tensors that keep a higher precision when quantized.
    pub fn promoted_isq_predicates(&self) -> (r: Vec<String>)
        ensures
            texts(r@) == self.promoted_isq_predicates_texts(),
    {
        let mut out: Vec<String> = Vec::new();
        push_pattern(&mut out, r"^model\.language_model\.embed_tokens\.weight$");
        push_pattern(&mut out, ROOT_LM_HEAD);
        assert(texts(out@) =~= self.promoted_isq_predicates_texts());
        out
    }

    /// Tensors that are quantized.
    pub open spec fn isq_layer_regexes_texts(&self) -> Seq<Seq<char>> {
        seq![LM_HEAD@] + family(
                r"(model\.)?language_model\.layers\.(\d+)\."@,
                seq![
                    r"self_attn\.q_proj"@,
                    r"self_attn\.k_proj"@,
                    r"self_attn\.v_proj"@,
                    r"self_attn\.out_proj"@,
                    r"conv\.in_proj"@,
                    r"conv\.out_proj"@,
                    r"feed_forward\.w1"@,
                    r"feed_forward\.w2"@,
                    r"feed_forward\.w3"@,
                ],
                WEIGHT_OR_BIAS@,
            ) + seq![
                r"model\.multi_modal_projector\.linear_1\.(weight|bias)$"@,
                r"model\.multi_modal_projector\.linear_2\.(weight|bias)$"@,
            ]
    }

    /// Tensors that are quantized.
    pub fn isq_layer_regexes(&self) -> (r: Vec<String>)
        ensures
            texts(r@) == self.isq_layer_regexes_texts(),
    {
        let mut out: Vec<String> = Vec::new();
        push_pattern(&mut out, LM_HEAD);
        let list0 = vec![
            r"self_attn\.q_proj",
            r"self_attn\.k_proj",
            r"self_attn\.v_proj",
            r"self_attn\.out_proj",
            r"conv\.in_proj",
            r"conv\.out_proj",
            r"feed_forward\.w1",
            r"feed_forward\.w2",
            r"feed_forward\.w3",
        ];
        assert(
            literals(list0@) =~= seq![
                r"self_attn\.q_proj"@,
                r"self_attn\.k_proj"@,
                r"self_attn\.v_proj"@,
                r"self_attn\.out_proj"@,
                r"conv\.in_proj"@,
                r"conv\.out_proj"@,
                r"feed_forward\.w1"@,
                r"feed_forward\.w2"@,
                r"feed_forward\.w3"@,
            ]
        );
        push_family(&mut out, r"(model\.)?language_model\.layers\.(\d+)\.", &list0, WEIGHT_OR_BIAS);
        let list1 = vec![
            r"model\.multi_modal_projector\.linear_1\.(weight|bias)$",
            r"model\.multi_modal_projector\.linear_2\.(weight|bias)$",
        ];
        assert(
            literals(list1@) =~= seq![
                r"model\.multi_modal_projector\.linear_1\.(weight|bias)$"@,
                r"model\.multi_modal_projector\.linear_2\.(weight|bias)$"@,
            ]
        );
        push_patterns(&mut out, &list1);
        assert(texts(out@) =~= self.isq_layer_regexes_texts());
        out
    }

    /// Tensors that are quantized while they are loaded: those that are quantized.
    pub fn immediate_isq_predicates(&self) -> (r: Vec<String>)
        ensures
            texts(r@) == self.isq_layer_regexes_texts(),
    {
        self.isq_layer_regexes()
    }

    /// Where a tensor is loaded.
    pub fn get_device_for_tensor(
        &self,
        cfg: &Lfm2VlConfig,
        name: &str,
        loading_isq: bool,
    ) -> (r: DeviceForLoadTensor)
        ensures
            r == (if loading_isq {
                DeviceForLoadTensor::Base
            } else {
                clamped_place(
                    regex_first_group(NESTED_LAYER_PATTERN@, name@),
                    cfg.text_config.num_hidden_layers,
                )
            }),
    {
        get_device_for_nested_tensor(name, cfg.text_config.num_hidden_layers, loading_isq)
    }
}

} // verus!
