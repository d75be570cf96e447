//! Qwen2-VL.

use vstd::prelude::*;

use crate::loaders::{
    AutoDeviceMapParams, KvCacheLayout, LoaderError, Modalities, ModelConfigMetadata,
    NonMappedSubModel, PackFactors, PackLookup, SupportedModality,
};
use crate::loaders::patterns::{
    attention_module_texts, attention_modules, family, literals, mlp_module_texts, mlp_modules,
    push_family, push_pattern, texts, ANY_LAYER, LM_HEAD, ROOT_LM_HEAD, WEIGHT_OR_BIAS,
};
use crate::loaders::sizes::{
    attention, biased_linear, biased_linear_elems, biased_linear_fits, decoder_layer,
    decoder_layer_elems, decoder_layer_fits, scores, scores_elems, scores_fits, smaller,
    smaller_elems, text_head, text_head_elems, text_head_fits, uniform, word,
};
use crate::tensor::{DType};
use crate::text::{repeat, repeated};

verus! {

/// What the sizes of the vision tower depend on. The width of its feed-forward
/// block is the embedding width times a ratio, rounded down.
#[derive(Debug, Clone, Copy, PartialEq, Eq, Structural)]
pub struct Qwen2VLVisionConfig {
    pub embed_dim: usize,
    pub hidden_size: usize,
    pub depth: usize,
    pub num_heads: usize,
    pub in_channels: usize,
    pub patch_size: usize,
    pub temporal_patch_size: usize,
    pub spatial_merge_size: usize,
    pub mlp_hidden_dim: usize,
}

/// What the sizes depend on.
#[derive(Debug, Clone, Copy, PartialEq, Eq, Structural)]
pub struct Qwen2VLConfig {
    pub hidden_size: usize,
    pub vocab_size: usize,
    pub num_hidden_layers: usize,
    pub num_attention_heads: usize,
    pub num_key_value_heads: usize,
    pub intermediate_size: usize,
    pub max_position_embeddings: usize,
    pub tie_word_embeddings: bool,
    pub sliding_window: Option<usize>,
    pub vision_config: Qwen2VLVisionConfig,
}

/// Scores of a prompt chunk with its images, whose patches are merged.
pub open spec fn qwen2vl_mapped_act_elems(
    cfg: Qwen2VLConfig,
    seq: int,
    batch: int,
    height: int,
    width: int,
    images: int,
    chunk: int,
) -> int {
    let heads = cfg.num_attention_heads as int;
    let patch = cfg.vision_config.patch_size as int;
    let merge = cfg.vision_config.spatial_merge_size as int;
    let grid_h = height / patch / merge;
    let grid_w = width / patch / merge;
    let total = grid_h * grid_w * images + smaller_elems(seq, chunk);
    scores_elems(batch, heads, total, total)
}

/// Every step of `qwen2vl_mapped_act` fits a machine word.
pub open spec fn qwen2vl_mapped_act_fits(
    cfg: Qwen2VLConfig,
    seq: int,
    batch: int,
    height: int,
    width: int,
    images: int,
    chunk: int,
) -> bool {
    let heads = cfg.num_attention_heads as int;
    let patch = cfg.vision_config.patch_size as int;
    let merge = cfg.vision_config.spatial_merge_size as int;
    let grid_h = height / patch / merge;
    let grid_w = width / patch / merge;
    let total = grid_h * grid_w * images + smaller_elems(seq, chunk);
    &&& patch > 0
    &&& merge > 0
    &&& word(grid_h * grid_w)
    &&& word(grid_h * grid_w * images)
    &&& word(grid_h * grid_w * images + smaller_elems(seq, chunk))
    &&& scores_fits(batch, heads, total, total)
}

/// Scores of a prompt chunk with its images, whose patches are merged.
pub fn qwen2vl_mapped_act(
    cfg: &Qwen2VLConfig,
    seq: usize,
    batch: usize,
    height: usize,
    width: usize,
    images: usize,
    chunk: usize,
) -> (r: usize)
    requires
        qwen2vl_mapped_act_fits(
            *cfg,
            seq as int,
            batch as int,
            height as int,
            width as int,
            images as int,
            chunk as int,
        ),
    ensures
        r == qwen2vl_mapped_act_elems(
            *cfg,
            seq as int,
            batch as int,
            height as int,
            width as int,
            images as int,
            chunk as int,
        ),
{
    let heads: usize = cfg.num_attention_heads;
    let patch: usize = cfg.vision_config.patch_size;
    let merge: usize = cfg.vision_config.spatial_merge_size;
    let grid_h: usize = height / patch / merge;
    let grid_w: usize = width / patch / merge;
    let total: usize = grid_h * grid_w * images + smaller(seq, chunk);
    scores(batch, heads, total, total)
}

/// Scores of the vision tower, over unmerged patches.
pub open spec fn qwen2vl_vision_act_elems(
    cfg: Qwen2VLConfig,
    batch: int,
    height: int,
    width: int,
    images: int,
) -> int {
    let heads = cfg.vision_config.num_heads as int;
    let patch = cfg.vision_config.patch_size as int;
    let patches = height / patch * (width / patch);
    let items = batch * images;
    scores_elems(items, heads, patches, patches)
}

/// Every step of `qwen2vl_vision_act` fits a machine word.
pub open spec fn qwen2vl_vision_act_fits(
    cfg: Qwen2VLConfig,
    batch: int,
    height: int,
    width: int,
    images: int,
) -> bool {
    let heads = cfg.vision_config.num_heads as int;
    let patch = cfg.vision_config.patch_size as int;
    let patches = height / patch * (width / patch);
    let items = batch * images;
    &&& patch > 0
    &&& word(height / patch * (width / patch))
    &&& word(batch * images)
    &&& scores_fits(items, heads, patches, patches)
}

/// Scores of the vision tower, over unmerged patches.
pub fn qwen2vl_vision_act(
    cfg: &Qwen2VLConfig,
    batch: usize,
    height: usize,
    width: usize,
    images: usize,
) -> (r: usize)
    requires
        qwen2vl_vision_act_fits(*cfg, batch as int, height as int, width as int, images as int),
    ensures
        r == qwen2vl_vision_act_elems(
            *cfg,
            batch as int,
            height as int,
            width as int,
            images as int,
        ),
{
    let heads: usize = cfg.vision_config.num_heads;
    let patch: usize = cfg.vision_config.patch_size;
    let patches: usize = height / patch * (width / patch);
    let items: usize = batch * images;
    scores(items, heads, patches, patches)
}

/// The module that merges neighbouring patches.
pub open spec fn qwen2vl_merger_elems(cfg: Qwen2VLVisionConfig) -> int {
    let embed = cfg.embed_dim as int;
    let out = cfg.hidden_size as int;
    let merge = cfg.spatial_merge_size as int;
    let merged = embed * (merge * merge);
    let mlp0 = biased_linear_elems(merged, merged);
    let mlp2 = biased_linear_elems(merged, out);
    let ln_q = embed + embed;
    mlp0 + mlp2 + ln_q
}

/// Every step of `qwen2vl_merger` fits a machine word.
pub open spec fn qwen2vl_merger_fits(cfg: Qwen2VLVisionConfig) -> bool {
    let embed = cfg.embed_dim as int;
    let out = cfg.hidden_size as int;
    let merge = cfg.spatial_merge_size as int;
    let merged = embed * (merge * merge);
    let mlp0 = biased_linear_elems(merged, merged);
    let mlp2 = biased_linear_elems(merged, out);
    let ln_q = embed + embed;
    &&& word(merge * merge)
    &&& word(embed * (merge * merge))
    &&& biased_linear_fits(merged, merged)
    &&& biased_linear_fits(merged, out)
    &&& word(embed + embed)
    &&& word(mlp0 + mlp2 + ln_q)
}

/// The module that merges neighbouring patches.
pub fn qwen2vl_merger(cfg: &Qwen2VLVisionConfig) -> (r: usize)
    requires
        qwen2vl_merger_fits(*cfg),
    ensures
        r == qwen2vl_merger_elems(*cfg),
{
    let embed: usize = cfg.embed_dim;
    let out: usize = cfg.hidden_size;
    let merge: usize = cfg.spatial_merge_size;
    let merged: usize = embed * (merge * merge);
    let mlp0: usize = biased_linear(merged, merged);
    let mlp2: usize = biased_linear(merged, out);
    let ln_q: usize = embed + embed;
    mlp0 + mlp2 + ln_q
}

/// A layer of the vision tower.
pub open spec fn qwen2vl_encoder_layer_elems(cfg: Qwen2VLVisionConfig) -> int {
    let embed = cfg.embed_dim as int;
    let mlp = cfg.mlp_hidden_dim as int;
    let norm = embed + embed;
    let fc1 = embed * mlp + mlp;
    let fc2 = embed * mlp + embed;
    let qkv = embed * embed * 3 + embed * 3;
    let out = embed * embed + embed;
    norm + norm + fc1 + fc2 + qkv + out
}

/// Every step of `qwen2vl_encoder_layer` fits a machine word.
pub open spec fn qwen2vl_encoder_layer_fits(cfg: Qwen2VLVisionConfig) -> bool {
    let embed = cfg.embed_dim as int;
    let mlp = cfg.mlp_hidden_dim as int;
    let norm = embed + embed;
    let fc1 = embed * mlp + mlp;
    let fc2 = embed * mlp + embed;
    let qkv = embed * embed * 3 + embed * 3;
    let out = embed * embed + embed;
    &&& word(embed + embed)
    &&& word(embed * mlp)
    &&& word(embed * mlp + mlp)
    &&& word(embed * mlp + embed)
    &&& word(embed * embed)
    &&& word(embed * embed * 3)
    &&& word(embed * 3)
    &&& word(embed * embed * 3 + embed * 3)
    &&& word(embed * embed + embed)
    &&& word(norm + norm + fc1 + fc2 + qkv + out)
}

/// A layer of the vision tower.
pub fn qwen2vl_encoder_layer(cfg: &Qwen2VLVisionConfig) -> (r: usize)
    requires
        qwen2vl_encoder_layer_fits(*cfg),
    ensures
        r == qwen2vl_encoder_layer_elems(*cfg),
{
    let embed: usize = cfg.embed_dim;
    let mlp: usize = cfg.mlp_hidden_dim;
    let norm: usize = embed + embed;
    let fc1: usize = embed * mlp + mlp;
    let fc2: usize = embed * mlp + embed;
    let qkv: usize = embed * embed * 3 + embed * 3;
    let out: usize = embed * embed + embed;
    norm + norm + fc1 + fc2 + qkv + out
}

/// The vision tower.
pub open spec fn qwen2vl_vision_elems(cfg: Qwen2VLVisionConfig) -> int {
    let channels = cfg.in_channels as int;
    let embed = cfg.embed_dim as int;
    let temporal = cfg.temporal_patch_size as int;
    let patch = cfg.patch_size as int;
    let depth = cfg.depth as int;
    let merger = qwen2vl_merger_elems(cfg);
    let patch_embed = channels * embed * temporal * patch * patch;
    let layer = qwen2vl_encoder_layer_elems(cfg);
    merger + patch_embed + layer * depth
}

/// Every step of `qwen2vl_vision` fits a machine word.
pub open spec fn qwen2vl_vision_fits(cfg: Qwen2VLVisionConfig) -> bool {
    let channels = cfg.in_channels as int;
    let embed = cfg.embed_dim as int;
    let temporal = cfg.temporal_patch_size as int;
    let patch = cfg.patch_size as int;
    let depth = cfg.depth as int;
    let merger = qwen2vl_merger_elems(cfg);
    let patch_embed = channels * embed * temporal * patch * patch;
    let layer = qwen2vl_encoder_layer_elems(cfg);
    &&& qwen2vl_merger_fits(cfg)
    &&& word(channels * embed)
    &&& word(channels * embed * temporal)
    &&& word(channels * embed * temporal * patch)
    &&& word(channels * embed * temporal * patch * patch)
    &&& qwen2vl_encoder_layer_fits(cfg)
    &&& word(layer * depth)
    &&& word(merger + patch_embed + layer * depth)
}

/// The vision tower.
pub fn qwen2vl_vision(cfg: &Qwen2VLVisionConfig) -> (r: usize)
    requires
        qwen2vl_vision_fits(*cfg),
    ensures
        r == qwen2vl_vision_elems(*cfg),
{
    let channels: usize = cfg.in_channels;
    let embed: usize = cfg.embed_dim;
    let temporal: usize = cfg.temporal_patch_size;
    let patch: usize = cfg.patch_size;
    let depth: usize = cfg.depth;
    let merger: usize = qwen2vl_merger(cfg);
    let patch_embed: usize = channels * embed * temporal * patch * patch;
    let layer: usize = qwen2vl_encoder_layer(cfg);
    merger + patch_embed + layer * depth
}

/// What is not mapped to layers.
pub open spec fn qwen2vl_non_mapped_elems(cfg: Qwen2VLConfig, packs: PackFactors) -> int {
    let hidden = cfg.hidden_size as int;
    let vocab = cfg.vocab_size as int;
    let embed_pack = packs.embed_tokens as int;
    let head_pack = packs.lm_head as int;
    let tied = cfg.tie_word_embeddings;
    let text = text_head_elems(hidden, vocab, tied, embed_pack, head_pack);
    let vision = qwen2vl_vision_elems(cfg.vision_config);
    text + vision
}

/// Every step of `qwen2vl_non_mapped` fits a machine word.
pub open spec fn qwen2vl_non_mapped_fits(cfg: Qwen2VLConfig, packs: PackFactors) -> bool {
    let hidden = cfg.hidden_size as int;
    let vocab = cfg.vocab_size as int;
    let embed_pack = packs.embed_tokens as int;
    let head_pack = packs.lm_head as int;
    let tied = cfg.tie_word_embeddings;
    let text = text_head_elems(hidden, vocab, tied, embed_pack, head_pack);
    let vision = qwen2vl_vision_elems(cfg.vision_config);
    &&& text_head_fits(hidden, vocab, tied, embed_pack, head_pack)
    &&& qwen2vl_vision_fits(cfg.vision_config)
    &&& word(text + vision)
}

/// What is not mapped to layers.
pub fn qwen2vl_non_mapped(cfg: &Qwen2VLConfig, packs: PackFactors) -> (r: usize)
    requires
        qwen2vl_non_mapped_fits(*cfg, packs),
    ensures
        r == qwen2vl_non_mapped_elems(*cfg, packs),
{
    let hidden: usize = cfg.hidden_size;
    let vocab: usize = cfg.vocab_size;
    let embed_pack: usize = packs.embed_tokens;
    let head_pack: usize = packs.lm_head;
    let tied: bool = cfg.tie_word_embeddings;
    let text: usize = text_head(hidden, vocab, tied, embed_pack, head_pack);
    let vision: usize = qwen2vl_vision(&cfg.vision_config);
    text + vision
}

/// A decoder layer, whose query, key and value projections have biases.
pub open spec fn qwen2vl_layer_elems(cfg: Qwen2VLConfig, pack: int) -> int {
    let hidden = cfg.hidden_size as int;
    let heads = cfg.num_attention_heads as int;
    let kv_heads = cfg.num_key_value_heads as int;
    let width = cfg.intermediate_size as int;
    let size_q = hidden / heads * heads;
    let size_kv = hidden / heads * kv_heads;
    let layer = decoder_layer_elems(hidden, size_q, size_kv, width, pack);
    layer + size_q + size_kv + size_kv
}

/// Every step of `qwen2vl_layer` fits a machine word.
pub open spec fn qwen2vl_layer_fits(cfg: Qwen2VLConfig, pack: int) -> bool {
    let hidden = cfg.hidden_size as int;
    let heads = cfg.num_attention_heads as int;
    let kv_heads = cfg.num_key_value_heads as int;
    let width = cfg.intermediate_size as int;
    let size_q = hidden / heads * heads;
    let size_kv = hidden / heads * kv_heads;
    let layer = decoder_layer_elems(hidden, size_q, size_kv, width, pack);
    &&& heads > 0
    &&& word(hidden / heads * heads)
    &&& word(hidden / heads * kv_heads)
    &&& decoder_layer_fits(hidden, size_q, size_kv, width, pack)
    &&& word(layer + size_q + size_kv + size_kv)
}

/// A decoder layer, whose query, key and value projections have biases.
pub fn qwen2vl_layer(cfg: &Qwen2VLConfig, pack: usize) -> (r: usize)
    requires
        qwen2vl_layer_fits(*cfg, pack as int),
    ensures
        r == qwen2vl_layer_elems(*cfg, pack as int),
{
    let hidden: usize = cfg.hidden_size;
    let heads: usize = cfg.num_attention_heads;
    let kv_heads: usize = cfg.num_key_value_heads;
    let width: usize = cfg.intermediate_size;
    let size_q: usize = hidden / heads * heads;
    let size_kv: usize = hidden / heads * kv_heads;
    let layer: usize = decoder_layer(hidden, size_q, size_kv, width, pack);
    layer + size_q + size_kv + size_kv
}

/// Marks the media of Qwen2-VL prompts.
pub struct Qwen2VLPrefixer;

impl Qwen2VLPrefixer {
    /// The prompt behind one mark for each image, where a mark is a start token,
    /// a padding token and an end token.
    pub fn prefix_image(
        &self,
        vision_start: &str,
        image_pad: &str,
        vision_end: &str,
        image_indexes: &Vec<usize>,
        prompt: &str,
    ) -> (r: String)
        ensures
            r@ == repeated(
                vision_start@ + image_pad@ + vision_end@,
                image_indexes@.len(),
            ) + prompt@,
    {
        let mut mark: String = vision_start.to_owned();
        mark.append(image_pad);
        mark.append(vision_end);
        let mut s: String = repeat(mark.as_str(), image_indexes.len());
        s.append(prompt);
        s
    }
}

/// Loader of Qwen2-VL models.
pub struct Qwen2VLLoader;

impl Qwen2VLLoader {
    /// Elements of the largest activation of a layer.
    pub fn mapped_max_act_size_elems(
        &self,
        cfg: &Qwen2VLConfig,
        params: &AutoDeviceMapParams,
        attention_chunk: usize,
    ) -> (r: Result<usize, LoaderError>)
        requires
            match *params {
                AutoDeviceMapParams::Multimodal {
                    max_seq_len,
                    max_batch_size,
                    max_image_shape,
                    max_num_images,
                } => qwen2vl_mapped_act_fits(
                    *cfg,
                    max_seq_len as int,
                    max_batch_size as int,
                    max_image_shape.0 as int,
                    max_image_shape.1 as int,
                    max_num_images as int,
                    attention_chunk as int,
                ),
                _ => true,
            },
        ensures
            match *params {
                AutoDeviceMapParams::Multimodal {
                    max_seq_len,
                    max_batch_size,
                    max_image_shape,
                    max_num_images,
                } => r matches Ok(n) && n == qwen2vl_mapped_act_elems(
                    *cfg,
                    max_seq_len as int,
                    max_batch_size as int,
                    max_image_shape.0 as int,
                    max_image_shape.1 as int,
                    max_num_images as int,
                    attention_chunk as int,
                ),
                _ => r == Err::<usize, LoaderError>(LoaderError::ExpectedMultimodal),
            },
    {
        match params {
            AutoDeviceMapParams::Multimodal {
                max_seq_len,
                max_batch_size,
                max_image_shape,
                max_num_images,
            } => Ok(
                qwen2vl_mapped_act(
                    cfg,
                    *max_seq_len,
                    *max_batch_size,
                    max_image_shape.0,
                    max_image_shape.1,
                    *max_num_images,
                    attention_chunk,
                ),
            ),
            _ => Err(LoaderError::ExpectedMultimodal),
        }
    }

    /// Elements of the largest activation outside the layers.
    pub fn non_mapped_max_act_size_elems(
        &self,
        cfg: &Qwen2VLConfig,
        params: &AutoDeviceMapParams,
    ) -> (r: Result<usize, LoaderError>)
        requires
            match *params {
                AutoDeviceMapParams::Multimodal {
                    max_batch_size,
                    max_image_shape,
                    max_num_images,
                    ..
                } => qwen2vl_vision_act_fits(
                    *cfg,
                    max_batch_size as int,
                    max_image_shape.0 as int,
                    max_image_shape.1 as int,
                    max_num_images as int,
                ),
                _ => true,
            },
        ensures
            match *params {
                AutoDeviceMapParams::Multimodal {
                    max_batch_size,
                    max_image_shape,
                    max_num_images,
                    ..
                } => r matches Ok(n) && n == qwen2vl_vision_act_elems(
                    *cfg,
                    max_batch_size as int,
                    max_image_shape.0 as int,
                    max_image_shape.1 as int,
                    max_num_images as int,
                ),
                _ => r == Err::<usize, LoaderError>(LoaderError::ExpectedMultimodal),
            },
    {
        match params {
            AutoDeviceMapParams::Multimodal {
                max_batch_size,
                max_image_shape,
                max_num_images,
                ..
            } => Ok(
                qwen2vl_vision_act(
                    cfg,
                    *max_batch_size,
                    max_image_shape.0,
                    max_image_shape.1,
                    *max_num_images,
                ),
            ),
            _ => Err(LoaderError::ExpectedMultimodal),
        }
    }

    /// The tensors by whose quantization the pack factors are known.
    pub fn pack_lookup(&self, cfg: &Qwen2VLConfig) -> (r: PackLookup)
        ensures
            r.asks(
                seq![
                    "model.embed_tokens.weight"@,
                    "language_model.model.embed_tokens.weight"@,
                ],
                "lm_head.weight"@,
                cfg.tie_word_embeddings,
            ),
    {
        let embed_tokens = vec!["model.embed_tokens.weight", "language_model.model.embed_tokens.weight"];
        assert(literals(embed_tokens@) =~= seq!["model.embed_tokens.weight"@, "language_model.model.embed_tokens.weight"@]);
        PackLookup { embed_tokens, lm_head: "lm_head.weight", tied: cfg.tie_word_embeddings }
    }

    /// Bytes of what is not mapped to layers.
    pub fn non_mapped_size_in_bytes(
        &self,
        cfg: &Qwen2VLConfig,
        dtype: DType,
        packs: PackFactors,
    ) -> (r: usize)
        requires
            qwen2vl_non_mapped_fits(*cfg, packs),
            word(qwen2vl_non_mapped_elems(*cfg, packs) * dtype.bytes()),
        ensures
            r == qwen2vl_non_mapped_elems(*cfg, packs) * dtype.bytes(),
    {
        let elems: usize = qwen2vl_non_mapped(cfg, packs);
        elems * dtype.size_in_bytes()
    }

    /// Bytes of each layer.
    pub fn layer_sizes_in_bytes(
        &self,
        cfg: &Qwen2VLConfig,
        dtype: DType,
        weight_pack_factor: usize,
    ) -> (r: Vec<usize>)
        requires
            qwen2vl_layer_fits(*cfg, weight_pack_factor as int),
            word(qwen2vl_layer_elems(*cfg, weight_pack_factor as int) * dtype.bytes()),
        ensures
            r@.len() == cfg.num_hidden_layers,
            forall|i: int| 0 <= i < r@.len()
                ==> #[trigger] r@[i] == qwen2vl_layer_elems(
                    *cfg,
                    weight_pack_factor as int,
                ) * dtype.bytes(),
    {
        let elems: usize = qwen2vl_layer(cfg, weight_pack_factor);
        uniform(elems * dtype.size_in_bytes(), cfg.num_hidden_layers)
    }

    /// Number of layers.
    pub fn num_layers(&self, cfg: &Qwen2VLConfig) -> (r: usize)
        ensures
            r == cfg.num_hidden_layers,
    {
        cfg.num_hidden_layers
    }

    /// What the paged cache needs to know of the model.
    pub fn model_config(&self, cfg: &Qwen2VLConfig) -> (r: ModelConfigMetadata)
        requires
            cfg.num_attention_heads > 0,
        ensures
            r == (ModelConfigMetadata {
                max_seq_len: cfg.max_position_embeddings,
                num_layers: cfg.num_hidden_layers,
                hidden_size: cfg.hidden_size,
                num_kv_heads: cfg.num_key_value_heads,
                num_attn_heads: cfg.num_attention_heads,
                sliding_window: cfg.sliding_window,
                k_head_dim: cfg.hidden_size / cfg.num_attention_heads,
                v_head_dim: cfg.hidden_size / cfg.num_attention_heads,
                kv_cache_layout: KvCacheLayout::Standard,
            }),
    {
        ModelConfigMetadata {
                max_seq_len: cfg.max_position_embeddings,
                num_layers: cfg.num_hidden_layers,
                hidden_size: cfg.hidden_size,
                num_kv_heads: cfg.num_key_value_heads,
                num_attn_heads: cfg.num_attention_heads,
                sliding_window: cfg.sliding_window,
                k_head_dim: cfg.hidden_size / cfg.num_attention_heads,
                v_head_dim: cfg.hidden_size / cfg.num_attention_heads,
                kv_cache_layout: KvCacheLayout::Standard,
        }
    }

    /// The parts that are not mapped to layers.
    pub fn non_mapped_sub_models(&self) -> (r: Option<Vec<NonMappedSubModel>>)
        ensures
            r matches Some(v) && v@ == seq![NonMappedSubModel::Vision],
    {
        Some(vec![NonMappedSubModel::Vision])
    }

    /// What the model reads and writes.
    pub fn modalities(&self) -> (r: Modalities)
        ensures
            r.reads(seq![SupportedModality::Text, SupportedModality::Vision]),
    {
        Modalities {
            input: vec![SupportedModality::Text, SupportedModality::Vision],
            output: vec![SupportedModality::Text],
        }
    }

    /// Whether rotary embeddings split a head in halves by default.
    pub fn is_gptx(&self) -> (r: bool)
        ensures
            r == true,
    {
        true
    }

    /// Whether the model runs with paged attention.
    pub fn supports_paged_attention(&self) -> (r: bool)
        ensures
            r == true,
    {
        true
    }

    /// Whether encoder outputs can be cached.
    pub fn supports_encoder_cache(&self) -> (r: bool)
        ensures
            r == true,
    {
        true
    }

    /// Whether prompt prefixes can be cached.
    pub fn supports_prefix_cacher(&self) -> (r: bool)
        ensures
            r == false,
    {
        false
    }

    /// Tensors that keep a higher precision when quantized.
    pub open spec fn promoted_isq_predicates_texts(&self) -> Seq<Seq<char>> {
        seq![r"^(model|language_model\.model)\.embed_tokens\.weight$"@] + seq![ROOT_LM_HEAD@]
    }

    /// Tensors that keep a higher precision when quantized.
    pub fn promoted_isq_predicates(&self) -> (r: Vec<String>)
        ensures
            texts(r@) == self.promoted_isq_predicates_texts(),
    {
        let mut out: Vec<String> = Vec::new();
        push_pattern(&mut out, r"^(model|language_model\.model)\.embed_tokens\.weight$");
        push_pattern(&mut out, ROOT_LM_HEAD);
        assert(texts(out@) =~= self.promoted_isq_predicates_texts());
        out
    }

    /// Tensors that are quantized.
    pub open spec fn isq_layer_regexes_texts(&self) -> Seq<Seq<char>> {
        seq![LM_HEAD@] + family(
            ANY_LAYER@,
            attention_module_texts(),
            WEIGHT_OR_BIAS@,
        ) + family(ANY_LAYER@, mlp_module_texts(), WEIGHT_OR_BIAS@)
    }

    /// Tensors that are quantized.
    pub fn isq_layer_regexes(&self) -> (r: Vec<String>)
        ensures
            texts(r@) == self.isq_layer_regexes_texts(),
    {
        let mut out: Vec<String> = Vec::new();
        push_pattern(&mut out, LM_HEAD);
        push_family(&mut out, ANY_LAYER, &attention_modules(), WEIGHT_OR_BIAS);
        push_family(&mut out, ANY_LAYER, &mlp_modules(), WEIGHT_OR_BIAS);
        assert(texts(out@) =~= self.isq_layer_regexes_texts());
        out
    }

    /// Tensors that are quantized while they are loaded: those that are quantized.
    pub fn immediate_isq_predicates(&self) -> (r: Vec<String>)
        ensures
            texts(r@) == self.isq_layer_regexes_texts(),
    {
        self.isq_layer_regexes()
    }
}

} // verus!
