//! Qwen3-VL.

use vstd::prelude::*;

use crate::loaders::{
    AutoDeviceMapParams, KvCacheLayout, LoaderError, Modalities, ModelConfigMetadata,
    NonMappedSubModel, PackFactors, PackLookup, SupportedModality,
};
use crate::loaders::patterns::{
    attention_module_texts, attention_modules, family, literals, mlp_module_texts, mlp_modules,
    push_family, push_pattern, texts, LM_HEAD, ROOT_LM_HEAD, WEIGHT_OR_BIAS,
};
use crate::loaders::sizes::{
    attention, biased_linear, biased_linear_elems, biased_linear_fits, decoder_layer,
    decoder_layer_elems, decoder_layer_fits, scores, scores_elems, scores_fits, smaller,
    smaller_elems, text_head, text_head_elems, text_head_fits, uniform, word,
};
use crate::tensor::{DType};

verus! {

/// What the sizes of the vision tower depend on.
#[derive(Debug, Clone, Copy, PartialEq, Eq, Structural)]
pub struct Qwen3VLVisionConfig {
    pub hidden_size: usize,
    pub out_hidden_size: usize,
    pub intermediate_size: usize,
    pub depth: usize,
    pub num_heads: usize,
    pub in_chans: usize,
    pub patch_size: usize,
    pub temporal_patch_size: usize,
    pub spatial_merge_size: usize,
    pub num_position_embeddings: usize,
    pub num_deepstack_mergers: usize,
}

/// What the sizes of the text model depend on.
#[derive(Debug, Clone, Copy, PartialEq, Eq, Structural)]
pub struct Qwen3VLTextConfig {
    pub hidden_size: usize,
    pub vocab_size: usize,
    pub num_hidden_layers: usize,
    pub num_attention_heads: usize,
    pub num_key_value_heads: usize,
    pub intermediate_size: usize,
    pub max_position_embeddings: usize,
    pub head_dim: usize,
    pub sliding_window: Option<usize>,
}

/// What the sizes depend on.
#[derive(Debug, Clone, Copy, PartialEq, Eq, Structural)]
pub struct Qwen3VLConfig {
    pub text_config: Qwen3VLTextConfig,
    pub vision_config: Qwen3VLVisionConfig,
    pub tie_word_embeddings: bool,
}

/// Tokens of an image batch, whose patches are merged.
pub open spec fn qwen3vl_image_tokens_elems(
    cfg: Qwen3VLVisionConfig,
    height: int,
    width: int,
    images: int,
) -> int {
    let patch = cfg.patch_size as int;
    let merge = cfg.spatial_merge_size as int;
    let grid_h = height / patch / merge;
    let grid_w = width / patch / merge;
    grid_h * grid_w * images
}

/// Every step of `qwen3vl_image_tokens` fits a machine word.
pub open spec fn qwen3vl_image_tokens_fits(
    cfg: Qwen3VLVisionConfig,
    height: int,
    width: int,
    images: int,
) -> bool {
    let patch = cfg.patch_size as int;
    let merge = cfg.spatial_merge_size as int;
    let grid_h = height / patch / merge;
    let grid_w = width / patch / merge;
    &&& patch > 0
    &&& merge > 0
    &&& word(grid_h * grid_w)
    &&& word(grid_h * grid_w * images)
}

/// Tokens of an image batch, whose patches are merged.
pub fn qwen3vl_image_tokens(
    cfg: &Qwen3VLVisionConfig,
    height: usize,
    width: usize,
    images: usize,
) -> (r: usize)
    requires
        qwen3vl_image_tokens_fits(*cfg, height as int, width as int, images as int),
    ensures
        r == qwen3vl_image_tokens_elems(*cfg, height as int, width as int, images as int),
{
    let patch: usize = cfg.patch_size;
    let merge: usize = cfg.spatial_merge_size;
    let grid_h: usize = height / patch / merge;
    let grid_w: usize = width / patch / merge;
    grid_h * grid_w * images
}

/// Scores of the vision tower, over unmerged patches.
pub open spec fn qwen3vl_vision_act_elems(
    cfg: Qwen3VLVisionConfig,
    batch: int,
    height: int,
    width: int,
    images: int,
) -> int {
    let heads = cfg.num_heads as int;
    let patch = cfg.patch_size as int;
    let patches = height / patch * (width / patch);
    let items = batch * images;
    scores_elems(items, heads, patches, patches)
}

/// Every step of `qwen3vl_vision_act` fits a machine word.
pub open spec fn qwen3vl_vision_act_fits(
    cfg: Qwen3VLVisionConfig,
    batch: int,
    height: int,
    width: int,
    images: int,
) -> bool {
    let heads = cfg.num_heads as int;
    let patch = cfg.patch_size as int;
    let patches = height / patch * (width / patch);
    let items = batch * images;
    &&& patch > 0
    &&& word(height / patch * (width / patch))
    &&& word(batch * images)
    &&& scores_fits(items, heads, patches, patches)
}

/// Scores of the vision tower, over unmerged patches.
pub fn qwen3vl_vision_act(
    cfg: &Qwen3VLVisionConfig,
    batch: usize,
    height: usize,
    width: usize,
    images: usize,
) -> (r: usize)
    requires
        qwen3vl_vision_act_fits(*cfg, batch as int, height as int, width as int, images as int),
    ensures
        r == qwen3vl_vision_act_elems(
            *cfg,
            batch as int,
            height as int,
            width as int,
            images as int,
        ),
{
    let heads: usize = cfg.num_heads;
    let patch: usize = cfg.patch_size;
    let patches: usize = height / patch * (width / patch);
    let items: usize = batch * images;
    scores(items, heads, patches, patches)
}

/// A module that merges neighbouring patches, but for its norm.
pub open spec fn qwen3vl_merger_elems(cfg: Qwen3VLVisionConfig) -> int {
    let hidden = cfg.hidden_size as int;
    let out = cfg.out_hidden_size as int;
    let merge = cfg.spatial_merge_size as int;
    let merged = hidden * (merge * merge);
    let mlp0 = biased_linear_elems(merged, merged);
    let mlp2 = biased_linear_elems(merged, out);
    mlp0 + mlp2
}

/// Every step of `qwen3vl_merger` fits a machine word.
pub open spec fn qwen3vl_merger_fits(cfg: Qwen3VLVisionConfig) -> bool {
    let hidden = cfg.hidden_size as int;
    let out = cfg.out_hidden_size as int;
    let merge = cfg.spatial_merge_size as int;
    let merged = hidden * (merge * merge);
    let mlp0 = biased_linear_elems(merged, merged);
    let mlp2 = biased_linear_elems(merged, out);
    &&& word(merge * merge)
    &&& word(hidden * (merge * merge))
    &&& biased_linear_fits(merged, merged)
    &&& biased_linear_fits(merged, out)
    &&& word(mlp0 + mlp2)
}

/// A module that merges neighbouring patches, but for its norm.
pub fn qwen3vl_merger(cfg: &Qwen3VLVisionConfig) -> (r: usize)
    requires
        qwen3vl_merger_fits(*cfg),
    ensures
        r == qwen3vl_merger_elems(*cfg),
{
    let hidden: usize = cfg.hidden_size;
    let out: usize = cfg.out_hidden_size;
    let merge: usize = cfg.spatial_merge_size;
    let merged: usize = hidden * (merge * merge);
    let mlp0: usize = biased_linear(merged, merged);
    let mlp2: usize = biased_linear(merged, out);
    mlp0 + mlp2
}

/// The vision tower with its main merger and those of the deep stack.
pub open spec fn qwen3vl_vision_elems(cfg: Qwen3VLVisionConfig) -> int {
    let hidden = cfg.hidden_size as int;
    let merge = cfg.spatial_merge_size as int;
    let stacked = cfg.num_deepstack_mergers as int;
    let channels = cfg.in_chans as int;
    let temporal = cfg.temporal_patch_size as int;
    let patch = cfg.patch_size as int;
    let positions = cfg.num_position_embeddings as int;
    let width = cfg.intermediate_size as int;
    let depth = cfg.depth as int;
    let body = qwen3vl_merger_elems(cfg);
    let merger = body + (hidden + hidden);
    let merged = hidden * (merge * merge);
    let deepstack = stacked * (body + (merged + merged));
    let patch_embed = channels * hidden * temporal * patch * patch + hidden;
    let pos_embed = positions * hidden;
    let norm = hidden + hidden;
    let fc1 = hidden * width + width;
    let fc2 = hidden * width + hidden;
    let qkv = hidden * hidden * 3 + hidden * 3;
    let out = hidden * hidden + hidden;
    let layer = norm + norm + fc1 + fc2 + qkv + out;
    merger + deepstack + patch_embed + pos_embed + layer * depth
}

/// Every step of `qwen3vl_vision` fits a machine word.
pub open spec fn qwen3vl_vision_fits(cfg: Qwen3VLVisionConfig) -> bool {
    let hidden = cfg.hidden_size as int;
    let merge = cfg.spatial_merge_size as int;
    let stacked = cfg.num_deepstack_mergers as int;
    let channels = cfg.in_chans as int;
    let temporal = cfg.temporal_patch_size as int;
    let patch = cfg.patch_size as int;
    let positions = cfg.num_position_embeddings as int;
    let width = cfg.intermediate_size as int;
    let depth = cfg.depth as int;
    let body = qwen3vl_merger_elems(cfg);
    let merger = body + (hidden + hidden);
    let merged = hidden * (merge * merge);
    let deepstack = stacked * (body + (merged + merged));
    let patch_embed = channels * hidden * temporal * patch * patch + hidden;
    let pos_embed = positions * hidden;
    let norm = hidden + hidden;
    let fc1 = hidden * width + width;
    let fc2 = hidden * width + hidden;
    let qkv = hidden * hidden * 3 + hidden * 3;
    let out = hidden * hidden + hidden;
    let layer = norm + norm + fc1 + fc2 + qkv + out;
    &&& qwen3vl_merger_fits(cfg)
    &&& word(hidden + hidden)
    &&& word(body + (hidden + hidden))
    &&& word(merge * merge)
    &&& word(hidden * (merge * merge))
    &&& word(merged + merged)
    &&& word(body + (merged + merged))
    &&& word(stacked * (body + (merged + merged)))
    &&& word(channels * hidden)
    &&& word(channels * hidden * temporal)
    &&& word(channels * hidden * temporal * patch)
    &&& word(channels * hidden * temporal * patch * patch)
    &&& word(channels * hidden * temporal * patch * patch + hidden)
    &&& word(positions * hidden)
    &&& word(hidden * width)
    &&& word(hidden * width + width)
    &&& word(hidden * width + hidden)
    &&& word(hidden * hidden)
    &&& word(hidden * hidden * 3)
    &&& word(hidden * 3)
    &&& word(hidden * hidden * 3 + hidden * 3)
    &&& word(hidden * hidden + hidden)
    &&& word(norm + norm + fc1 + fc2 + qkv + out)
    &&& word(layer * depth)
    &&& word(merger + deepstack + patch_embed + pos_embed + layer * depth)
}

/// The vision tower with its main merger and those of the deep stack.
pub fn qwen3vl_vision(cfg: &Qwen3VLVisionConfig) -> (r: usize)
    requires
        qwen3vl_vision_fits(*cfg),
    ensures
        r == qwen3vl_vision_elems(*cfg),
{
    let hidden: usize = cfg.hidden_size;
    let merge: usize = cfg.spatial_merge_size;
    let stacked: usize = cfg.num_deepstack_mergers;
    let channels: usize = cfg.in_chans;
    let temporal: usize = cfg.temporal_patch_size;
    let patch: usize = cfg.patch_size;
    let positions: usize = cfg.num_position_embeddings;
    let width: usize = cfg.intermediate_size;
    let depth: usize = cfg.depth;
    let body: usize = qwen3vl_merger(cfg);
    let merger: usize = body + (hidden + hidden);
    let merged: usize = hidden * (merge * merge);
    let deepstack: usize = stacked * (body + (merged + merged));
    let patch_embed: usize = channels * hidden * temporal * patch * patch + hidden;
    let pos_embed: usize = positions * hidden;
    let norm: usize = hidden + hidden;
    let fc1: usize = hidden * width + width;
    let fc2: usize = hidden * width + hidden;
    let qkv: usize = hidden * hidden * 3 + hidden * 3;
    let out: usize = hidden * hidden + hidden;
    let layer: usize = norm + norm + fc1 + fc2 + qkv + out;
    merger + deepstack + patch_embed + pos_embed + layer * depth
}

/// Scores of a prompt chunk with its images.
pub open spec fn qwen3vl_mapped_act_elems(
    cfg: Qwen3VLConfig,
    seq: int,
    batch: int,
    height: int,
    width: int,
    images: int,
    chunk: int,
) -> int {
    let heads = cfg.text_config.num_attention_heads as int;
    let tokens = qwen3vl_image_tokens_elems(cfg.vision_config, height, width, images);
    let total = tokens + smaller_elems(seq, chunk);
    scores_elems(batch, heads, total, total)
}

/// Every step of `qwen3vl_mapped_act` fits a machine word.
pub open spec fn qwen3vl_mapped_act_fits(
    cfg: Qwen3VLConfig,
    seq: int,
    batch: int,
    height: int,
    width: int,
    images: int,
    chunk: int,
) -> bool {
    let heads = cfg.text_config.num_attention_heads as int;
    let tokens = qwen3vl_image_tokens_elems(cfg.vision_config, height, width, images);
    let total = tokens + smaller_elems(seq, chunk);
    &&& qwen3vl_image_tokens_fits(cfg.vision_config, height, width, images)
    &&& word(tokens + smaller_elems(seq, chunk))
    &&& scores_fits(batch, heads, total, total)
}

/// Scores of a prompt chunk with its images.
pub fn qwen3vl_mapped_act(
    cfg: &Qwen3VLConfig,
    seq: usize,
    batch: usize,
    height: usize,
    width: usize,
    images: usize,
    chunk: usize,
) -> (r: usize)
    requires
        qwen3vl_mapped_act_fits(
            *cfg,
            seq as int,
            batch as int,
            height as int,
            width as int,
            images as int,
            chunk as int,
        ),
    ensures
        r == qwen3vl_mapped_act_elems(
            *cfg,
            seq as int,
            batch as int,
            height as int,
            width as int,
            images as int,
            chunk as int,
        ),
{
    let heads: usize = cfg.text_config.num_attention_heads;
    let tokens: usize = qwen3vl_image_tokens(&cfg.vision_config, height, width, images);
    let total: usize = tokens + smaller(seq, chunk);
    scores(batch, heads, total, total)
}

/// What is not mapped to layers.
pub open spec fn qwen3vl_non_mapped_elems(cfg: Qwen3VLConfig, packs: PackFactors) -> int {
    let hidden = cfg.text_config.hidden_size as int;
    let vocab = cfg.text_config.vocab_size as int;
    let embed_pack = packs.embed_tokens as int;
    let head_pack = packs.lm_head as int;
    let tied = cfg.tie_word_embeddings;
    let text = text_head_elems(hidden, vocab, tied, embed_pack, head_pack);
    let vision = qwen3vl_vision_elems(cfg.vision_config);
    text + vision
}

/// Every step of `qwen3vl_non_mapped` fits a machine word.
pub open spec fn qwen3vl_non_mapped_fits(cfg: Qwen3VLConfig, packs: PackFactors) -> bool {
    let hidden = cfg.text_config.hidden_size as int;
    let vocab = cfg.text_config.vocab_size as int;
    let embed_pack = packs.embed_tokens as int;
    let head_pack = packs.lm_head as int;
    let tied = cfg.tie_word_embeddings;
    let text = text_head_elems(hidden, vocab, tied, embed_pack, head_pack);
    let vision = qwen3vl_vision_elems(cfg.vision_config);
    &&& text_head_fits(hidden, vocab, tied, embed_pack, head_pack)
    &&& qwen3vl_vision_fits(cfg.vision_config)
    &&& word(text + vision)
}

/// What is not mapped to layers.
pub fn qwen3vl_non_mapped(cfg: &Qwen3VLConfig, packs: PackFactors) -> (r: usize)
    requires
        qwen3vl_non_mapped_fits(*cfg, packs),
    ensures
        r == qwen3vl_non_mapped_elems(*cfg, packs),
{
    let hidden: usize = cfg.text_config.hidden_size;
    let vocab: usize = cfg.text_config.vocab_size;
    let embed_pack: usize = packs.embed_tokens;
    let head_pack: usize = packs.lm_head;
    let tied: bool = cfg.tie_word_embeddings;
    let text: usize = text_head(hidden, vocab, tied, embed_pack, head_pack);
    let vision: usize = qwen3vl_vision(&cfg.vision_config);
    text + vision
}

/// A decoder layer with norms on queries and keys.
pub open spec fn qwen3vl_layer_elems(cfg: Qwen3VLConfig, pack: int) -> int {
    let hidden = cfg.text_config.hidden_size as int;
    let heads = cfg.text_config.num_attention_heads as int;
    let kv_heads = cfg.text_config.num_key_value_heads as int;
    let head = cfg.text_config.head_dim as int;
    let width = cfg.text_config.intermediate_size as int;
    let size_q = head * heads;
    let size_kv = head * kv_heads;
    let layer = decoder_layer_elems(hidden, size_q, size_kv, width, pack);
    layer + head + head
}

/// Every step of `qwen3vl_layer` fits a machine word.
pub open spec fn qwen3vl_layer_fits(cfg: Qwen3VLConfig, pack: int) -> bool {
    let hidden = cfg.text_config.hidden_size as int;
    let heads = cfg.text_config.num_attention_heads as int;
    let kv_heads = cfg.text_config.num_key_value_heads as int;
    let head = cfg.text_config.head_dim as int;
    let width = cfg.text_config.intermediate_size as int;
    let size_q = head * heads;
    let size_kv = head * kv_heads;
    let layer = decoder_layer_elems(hidden, size_q, size_kv, width, pack);
    &&& word(head * heads)
    &&& word(head * kv_heads)
    &&& decoder_layer_fits(hidden, size_q, size_kv, width, pack)
    &&& word(layer + head + head)
}

/// A decoder layer with norms on queries and keys.
pub fn qwen3vl_layer(cfg: &Qwen3VLConfig, pack: usize) -> (r: usize)
    requires
        qwen3vl_layer_fits(*cfg, pack as int),
    ensures
        r == qwen3vl_layer_elems(*cfg, pack as int),
{
    let hidden: usize = cfg.text_config.hidden_size;
    let heads: usize = cfg.text_config.num_attention_heads;
    let kv_heads: usize = cfg.text_config.num_key_value_heads;
    let head: usize = cfg.text_config.head_dim;
    let width: usize = cfg.text_config.intermediate_size;
    let size_q: usize = head * heads;
    let size_kv: usize = head * kv_heads;
    let layer: usize = decoder_layer(hidden, size_q, size_kv, width, pack);
    layer + head + head
}

/// Marks the media of Qwen3-VL prompts.
pub struct Qwen3VLPrefixer;

impl Qwen3VLPrefixer {
    /// The prompt with its image marks: the chat template sets them.
    pub fn prefix_image(&self, image_indexes: &Vec<usize>, prompt: &str) -> (r: String)
        ensures
            r@ == prompt@,
    {
        prompt.to_owned()
    }
}

/// The frames that a model of the family samples from a video: so many in a
/// second, and no fewer and no more than the bounds say.
#[derive(Debug, Clone, Copy, PartialEq, Eq, Structural)]
pub struct VideoFrameSampling {
    pub fps: usize,
    pub min_frames: usize,
    pub max_frames: usize,
}

/// The sampling that Qwen3-VL and Qwen3.5 models share.
pub fn qwen3_video_sampling() -> (r: VideoFrameSampling)
    ensures
        r == (VideoFrameSampling { fps: 2, min_frames: 4, max_frames: 768 }),
{
    VideoFrameSampling { fps: 2, min_frames: 4, max_frames: 768 }
}

/// Loader of Qwen3-VL models.
pub struct Qwen3VLLoader;

impl Qwen3VLLoader {
    /// Elements of the largest activation of a layer.
    pub fn mapped_max_act_size_elems(
        &self,
        cfg: &Qwen3VLConfig,
        params: &AutoDeviceMapParams,
        attention_chunk: usize,
    ) -> (r: Result<usize, LoaderError>)
        requires
            match *params {
                AutoDeviceMapParams::Multimodal {
                    max_seq_len,
                    max_batch_size,
                    max_image_shape,
                    max_num_images,
                } => qwen3vl_mapped_act_fits(
                    *cfg,
                    max_seq_len as int,
                    max_batch_size as int,
                    max_image_shape.0 as int,
                    max_image_shape.1 as int,
                    max_num_images as int,
                    attention_chunk as int,
                ),
                _ => true,
            },
        ensures
            match *params {
                AutoDeviceMapParams::Multimodal {
                    max_seq_len,
                    max_batch_size,
                    max_image_shape,
                    max_num_images,
                } => r matches Ok(n) && n == qwen3vl_mapped_act_elems(
                    *cfg,
                    max_seq_len as int,
                    max_batch_size as int,
                    max_image_shape.0 as int,
                    max_image_shape.1 as int,
                    max_num_images as int,
                    attention_chunk as int,
                ),
                _ => r == Err::<usize, LoaderError>(LoaderError::ExpectedMultimodal),
            },
    {
        match params {
            AutoDeviceMapParams::Multimodal {
                max_seq_len,
                max_batch_size,
                max_image_shape,
                max_num_images,
            } => Ok(
                qwen3vl_mapped_act(
                    cfg,
                    *max_seq_len,
                    *max_batch_size,
                    max_image_shape.0,
                    max_image_shape.1,
                    *max_num_images,
                    attention_chunk,
                ),
            ),
            _ => Err(LoaderError::ExpectedMultimodal),
        }
    }

    /// Elements of the largest activation outside the layers.
    pub fn non_mapped_max_act_size_elems(
        &self,
        cfg: &Qwen3VLConfig,
        params: &AutoDeviceMapParams,
    ) -> (r: Result<usize, LoaderError>)
        requires
            match *params {
                AutoDeviceMapParams::Multimodal {
                    max_batch_size,
                    max_image_shape,
                    max_num_images,
                    ..
                } => qwen3vl_vision_act_fits(
                    cfg.vision_config,
                    max_batch_size as int,
                    max_image_shape.0 as int,
                    max_image_shape.1 as int,
                    max_num_images as int,
                ),
                _ => true,
            },
        ensures
            match *params {
                AutoDeviceMapParams::Multimodal {
                    max_batch_size,
                    max_image_shape,
                    max_num_images,
                    ..
                } => r matches Ok(n) && n == qwen3vl_vision_act_elems(
                    cfg.vision_config,
                    max_batch_size as int,
                    max_image_shape.0 as int,
                    max_image_shape.1 as int,
                    max_num_images as int,
                ),
                _ => r == Err::<usize, LoaderError>(LoaderError::ExpectedMultimodal),
            },
    {
        match params {
            AutoDeviceMapParams::Multimodal {
                max_batch_size,
                max_image_shape,
                max_num_images,
                ..
            } => Ok(
                qwen3vl_vision_act(
                    &cfg.vision_config,
                    *max_batch_size,
                    max_image_shape.0,
                    max_image_shape.1,
                    *max_num_images,
                ),
            ),
            _ => Err(LoaderError::ExpectedMultimodal),
        }
    }

    /// The tensors by whose quantization the pack factors are known.
    pub fn pack_lookup(&self, cfg: &Qwen3VLConfig) -> (r: PackLookup)
        ensures
            r.asks(
                seq![
                    "language_model.model.embed_tokens.weight"@,
                    "model.language_model.embed_tokens.weight"@,
                ],
                "lm_head.weight"@,
                cfg.tie_word_embeddings,
            ),
    {
        let embed_tokens = vec![
            "language_model.model.embed_tokens.weight",
            "model.language_model.embed_tokens.weight",
        ];
        assert(literals(embed_tokens@) =~= seq![
            "language_model.model.embed_tokens.weight"@,
            "model.language_model.embed_tokens.weight"@,
        ]);
        PackLookup { embed_tokens, lm_head: "lm_head.weight", tied: cfg.tie_word_embeddings }
    }

    /// Bytes of what is not mapped to layers.
    pub fn non_mapped_size_in_bytes(
        &self,
        cfg: &Qwen3VLConfig,
        dtype: DType,
        packs: PackFactors,
    ) -> (r: usize)
        requires
            qwen3vl_non_mapped_fits(*cfg, packs),
            word(qwen3vl_non_mapped_elems(*cfg, packs) * dtype.bytes()),
        ensures
            r == qwen3vl_non_mapped_elems(*cfg, packs) * dtype.bytes(),
    {
        let elems: usize = qwen3vl_non_mapped(cfg, packs);
        elems * dtype.size_in_bytes()
    }

    /// Bytes of each layer.
    pub fn layer_sizes_in_bytes(
        &self,
        cfg: &Qwen3VLConfig,
        dtype: DType,
        weight_pack_factor: usize,
    ) -> (r: Vec<usize>)
        requires
            qwen3vl_layer_fits(*cfg, weight_pack_factor as int),
            word(qwen3vl_layer_elems(*cfg, weight_pack_factor as int) * dtype.bytes()),
        ensures
            r@.len() == cfg.text_config.num_hidden_layers,
            forall|i: int| 0 <= i < r@.len()
                ==> #[trigger] r@[i] == qwen3vl_layer_elems(
                    *cfg,
                    weight_pack_factor as int,
                ) * dtype.bytes(),
    {
        let elems: usize = qwen3vl_layer(cfg, weight_pack_factor);
        uniform(elems * dtype.size_in_bytes(), cfg.text_config.num_hidden_layers)
    }

    /// Number of layers.
    pub fn num_layers(&self, cfg: &Qwen3VLConfig) -> (r: usize)
        ensures
            r == cfg.text_config.num_hidden_layers,
    {
        cfg.text_config.num_hidden_layers
    }

    /// What the paged cache needs to know of the model.
    pub fn model_config(&self, cfg: &Qwen3VLConfig) -> (r: ModelConfigMetadata)
        ensures
            r == (ModelConfigMetadata {
                max_seq_len: cfg.text_config.max_position_embeddings,
                num_layers: cfg.text_config.num_hidden_layers,
                hidden_size: cfg.text_config.hidden_size,
                num_kv_heads: cfg.text_config.num_key_value_heads,
                num_attn_heads: cfg.text_config.num_attention_heads,
                sliding_window: cfg.text_config.sliding_window,
                k_head_dim: cfg.text_config.head_dim,
                v_head_dim: cfg.text_config.head_dim,
                kv_cache_layout: KvCacheLayout::Standard,
            }),
    {
        ModelConfigMetadata {
                max_seq_len: cfg.text_config.max_position_embeddings,
                num_layers: cfg.text_config.num_hidden_layers,
                hidden_size: cfg.text_config.hidden_size,
                num_kv_heads: cfg.text_config.num_key_value_heads,
                num_attn_heads: cfg.text_config.num_attention_heads,
                sliding_window: cfg.text_config.sliding_window,
                k_head_dim: cfg.text_config.head_dim,
                v_head_dim: cfg.text_config.head_dim,
                kv_cache_layout: KvCacheLayout::Standard,
        }
    }

    /// The parts that are not mapped to layers.
    pub fn non_mapped_sub_models(&self) -> (r: Option<Vec<NonMappedSubModel>>)
        ensures
            r matches Some(v) && v@ == seq![NonMappedSubModel::Vision],
    {
        Some(vec![NonMappedSubModel::Vision])
    }

    /// What the model reads and writes.
    pub fn modalities(&self) -> (r: Modalities)
        ensures
            r.reads(
                seq![SupportedModality::Text, SupportedModality::Vision, SupportedModality::Video],
            ),
    {
        Modalities {
            input: vec![
                SupportedModality::Text,
                SupportedModality::Vision,
                SupportedModality::Video,
            ],
            output: vec![SupportedModality::Text],
        }
    }

    /// Whether rotary embeddings split a head in halves by default.
    pub fn is_gptx(&self) -> (r: bool)
        ensures
            r == true,
    {
        true
    }

    /// Whether the model runs with paged attention.
    pub fn supports_paged_attention(&self) -> (r: bool)
        ensures
            r == true,
    {
        true
    }

    /// Whether encoder outputs can be cached.
    pub fn supports_encoder_cache(&self) -> (r: bool)
        ensures
            r == true,
    {
        true
    }

    /// Whether prompt prefixes can be cached.
    pub fn supports_prefix_cacher(&self) -> (r: bool)
        ensures
            r == true,
    {
        true
    }

    /// Tensors that keep a higher precision when quantized.
    pub open spec fn promoted_isq_predicates_texts(&self) -> Seq<Seq<char>> {
        seq![
            r"^(language_model\.model|model\.language_model)\.embed_tokens\.weight$"@,
        ] + seq![ROOT_LM_HEAD@]
    }

    /// Tensors that keep a higher precision when quantized.
    pub fn promoted_isq_predicates(&self) -> (r: Vec<String>)
        ensures
            texts(r@) == self.promoted_isq_predicates_texts(),
    {
        let mut out: Vec<String> = Vec::new();
        push_pattern(
            &mut out,
            r"^(language_model\.model|model\.language_model)\.embed_tokens\.weight$",
        );
        push_pattern(&mut out, ROOT_LM_HEAD);
        assert(texts(out@) =~= self.promoted_isq_predicates_texts());
        out
    }

    /// Tensors that are quantized.
    pub open spec fn isq_layer_regexes_texts(&self) -> Seq<Seq<char>> {
        seq![LM_HEAD@] + family(
            r"^(language_model\.model|model\.language_model)\.layers\.(\d+)\."@,
            attention_module_texts(),
            WEIGHT_OR_BIAS@,
        ) + family(
            r"^(language_model\.model|model\.language_model)\.layers\.(\d+)\."@,
            mlp_module_texts(),
            WEIGHT_OR_BIAS@,
        )
    }

    /// Tensors that are quantized.
    pub fn isq_layer_regexes(&self) -> (r: Vec<String>)
        ensures
            texts(r@) == self.isq_layer_regexes_texts(),
    {
        let mut out: Vec<String> = Vec::new();
        push_pattern(&mut out, LM_HEAD);
        push_family(
            &mut out,
            r"^(language_model\.model|model\.language_model)\.layers\.(\d+)\.",
            &attention_modules(),
            WEIGHT_OR_BIAS,
        );
        push_family(
            &mut out,
            r"^(language_model\.model|model\.language_model)\.layers\.(\d+)\.",
            &mlp_modules(),
            WEIGHT_OR_BIAS,
        );
        assert(texts(out@) =~= self.isq_layer_regexes_texts());
        out
    }

    /// Tensors that are quantized while they are loaded: those that are quantized.
    pub fn immediate_isq_predicates(&self) -> (r: Vec<String>)
        ensures
            texts(r@) == self.isq_layer_regexes_texts(),
    {
        self.isq_layer_regexes()
    }
}

} // verus!
