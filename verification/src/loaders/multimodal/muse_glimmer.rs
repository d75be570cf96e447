//! Muse-Glimmer.

use vstd::prelude::*;

use crate::loaders::{
    AutoDeviceMapParams, KvCacheLayout, LoaderError, Modalities, ModelConfigMetadata,
    NonMappedSubModel, PackFactors, PackLookup, SupportedModality,
};
use crate::loaders::patterns::{ROOT_LM_HEAD, literals, push_pattern, push_patterns, texts};
use crate::loaders::sizes::{
    attention, larger, larger_elems, scores, scores_elems, scores_fits, smaller,
    smaller_elems, text_head, text_head_elems, text_head_fits, uniform, word,
};
use crate::tensor::{DType};
use crate::loaders::json::{json_with_number, limited_config, limited_result, set_json_number};
use crate::loaders::placement::{
    bounded_place, get_device_for_rooted_tensor, regex_first_group, DeviceForLoadTensor,
    ROOTED_LAYER_PATTERN,
};

verus! {

/// What the sizes of the text model depend on.
#[derive(Debug, Clone, Copy, PartialEq, Eq, Structural)]
pub struct MuseGlimmerTextConfig {
    pub hidden_size: usize,
    pub vocab_size: usize,
    pub num_hidden_layers: usize,
    pub num_attention_heads: usize,
    pub num_key_value_heads: usize,
    pub intermediate_size: usize,
    pub max_position_embeddings: usize,
    pub head_dim: usize,
    pub attention_bias: bool,
    pub tie_word_embeddings: bool,
}

/// What the sizes of the vision tower depend on.
#[derive(Debug, Clone, Copy, PartialEq, Eq, Structural)]
pub struct MuseGlimmerVisionConfig {
    pub hidden_size: usize,
    pub intermediate_size: usize,
    pub num_hidden_layers: usize,
    pub num_attention_heads: usize,
    pub patch_size: usize,
    pub patch_temporal: usize,
    pub merge_size: usize,
    pub pos_emb_height: usize,
    pub pos_emb_width: usize,
}

/// What the sizes depend on.
#[derive(Debug, Clone, Copy, PartialEq, Eq, Structural)]
pub struct MuseGlimmerConfig {
    pub text_config: MuseGlimmerTextConfig,
    pub vision_config: MuseGlimmerVisionConfig,
    pub out_hidden_size: usize,
    pub projector_hidden_size: usize,
    pub gguf_collapsed_temporal: bool,
}

/// Scores of a prompt chunk over the whole prompt with its images.
pub open spec fn muse_glimmer_mapped_act_elems(
    cfg: MuseGlimmerConfig,
    seq: int,
    batch: int,
    height: int,
    width: int,
    images: int,
    chunk: int,
) -> int {
    let heads = cfg.text_config.num_attention_heads as int;
    let patch = cfg.vision_config.patch_size as int;
    let merge = cfg.vision_config.merge_size as int;
    let visual = height / patch / merge * (width / patch / merge) * images;
    let total = seq + visual;
    let queries = smaller_elems(total, chunk);
    scores_elems(batch, heads, queries, total)
}

/// Every step of `muse_glimmer_mapped_act` fits a machine word.
pub open spec fn muse_glimmer_mapped_act_fits(
    cfg: MuseGlimmerConfig,
    seq: int,
    batch: int,
    height: int,
    width: int,
    images: int,
    chunk: int,
) -> bool {
    let heads = cfg.text_config.num_attention_heads as int;
    let patch = cfg.vision_config.patch_size as int;
    let merge = cfg.vision_config.merge_size as int;
    let visual = height / patch / merge * (width / patch / merge) * images;
    let total = seq + visual;
    let queries = smaller_elems(total, chunk);
    &&& patch > 0
    &&& merge > 0
    &&& word(height / patch / merge * (width / patch / merge))
    &&& word(height / patch / merge * (width / patch / merge) * images)
    &&& word(seq + visual)
    &&& scores_fits(batch, heads, queries, total)
}

/// Scores of a prompt chunk over the whole prompt with its images.
pub fn muse_glimmer_mapped_act(
    cfg: &MuseGlimmerConfig,
    seq: usize,
    batch: usize,
    height: usize,
    width: usize,
    images: usize,
    chunk: usize,
) -> (r: usize)
    requires
        muse_glimmer_mapped_act_fits(
            *cfg,
            seq as int,
            batch as int,
            height as int,
            width as int,
            images as int,
            chunk as int,
        ),
    ensures
        r == muse_glimmer_mapped_act_elems(
            *cfg,
            seq as int,
            batch as int,
            height as int,
            width as int,
            images as int,
            chunk as int,
        ),
{
    let heads: usize = cfg.text_config.num_attention_heads;
    let patch: usize = cfg.vision_config.patch_size;
    let merge: usize = cfg.vision_config.merge_size;
    let visual: usize = height / patch / merge * (width / patch / merge) * images;
    let total: usize = seq + visual;
    let queries: usize = smaller(total, chunk);
    scores(batch, heads, queries, total)
}

/// The larger of the scores and the hidden states of the vision tower.
pub open spec fn muse_glimmer_vision_act_elems(
    cfg: MuseGlimmerConfig,
    batch: int,
    height: int,
    width: int,
    images: int,
) -> int {
    let heads = cfg.vision_config.num_attention_heads as int;
    let patch = cfg.vision_config.patch_size as int;
    let hidden = cfg.vision_config.hidden_size as int;
    let mlp = cfg.vision_config.intermediate_size as int;
    let patches = height / patch * (width / patch);
    let items = batch * images;
    let attn = scores_elems(items, heads, patches, patches);
    let states = items * patches * larger_elems(hidden, mlp);
    larger_elems(attn, states)
}

/// Every step of `muse_glimmer_vision_act` fits a machine word.
pub open spec fn muse_glimmer_vision_act_fits(
    cfg: MuseGlimmerConfig,
    batch: int,
    height: int,
    width: int,
    images: int,
) -> bool {
    let heads = cfg.vision_config.num_attention_heads as int;
    let patch = cfg.vision_config.patch_size as int;
    let hidden = cfg.vision_config.hidden_size as int;
    let mlp = cfg.vision_config.intermediate_size as int;
    let patches = height / patch * (width / patch);
    let items = batch * images;
    &&& patch > 0
    &&& word(height / patch * (width / patch))
    &&& word(batch * images)
    &&& scores_fits(items, heads, patches, patches)
    &&& word(items * patches)
    &&& word(items * patches * larger_elems(hidden, mlp))
}

/// The larger of the scores and the hidden states of the vision tower.
pub fn muse_glimmer_vision_act(
    cfg: &MuseGlimmerConfig,
    batch: usize,
    height: usize,
    width: usize,
    images: usize,
) -> (r: usize)
    requires
        muse_glimmer_vision_act_fits(
            *cfg,
            batch as int,
            height as int,
            width as int,
            images as int,
        ),
    ensures
        r == muse_glimmer_vision_act_elems(
            *cfg,
            batch as int,
            height as int,
            width as int,
            images as int,
        ),
{
    let heads: usize = cfg.vision_config.num_attention_heads;
    let patch: usize = cfg.vision_config.patch_size;
    let hidden: usize = cfg.vision_config.hidden_size;
    let mlp: usize = cfg.vision_config.intermediate_size;
    let patches: usize = height / patch * (width / patch);
    let items: usize = batch * images;
    let attn: usize = scores(items, heads, patches, patches);
    let states: usize = items * patches * larger(hidden, mlp);
    larger(attn, states)
}

/// The vision tower and the projection to the text model.
pub open spec fn muse_glimmer_vision_elems(cfg: MuseGlimmerConfig) -> int {
    let hidden = cfg.vision_config.hidden_size as int;
    let width = cfg.vision_config.intermediate_size as int;
    let layers = cfg.vision_config.num_hidden_layers as int;
    let temporal = cfg.vision_config.patch_temporal as int;
    let patch_size = cfg.vision_config.patch_size as int;
    let pos_height = cfg.vision_config.pos_emb_height as int;
    let pos_width = cfg.vision_config.pos_emb_width as int;
    let out = cfg.out_hidden_size as int;
    let projector = cfg.projector_hidden_size as int;
    let text_hidden = cfg.text_config.hidden_size as int;
    let patch = hidden * temporal * 3 * (patch_size * patch_size);
    let position = pos_height * pos_width * hidden;
    let tower_norms = 4 * hidden;
    let layer = 4 * (hidden * hidden) + 2 * hidden * width + width + 9 * hidden;
    let adapter = out * projector + projector * projector;
    let projection = projector * text_hidden;
    patch + position + tower_norms + layers * layer + adapter + projection
}

/// Every step of `muse_glimmer_vision` fits a machine word.
pub open spec fn muse_glimmer_vision_fits(cfg: MuseGlimmerConfig) -> bool {
    let hidden = cfg.vision_config.hidden_size as int;
    let width = cfg.vision_config.intermediate_size as int;
    let layers = cfg.vision_config.num_hidden_layers as int;
    let temporal = cfg.vision_config.patch_temporal as int;
    let patch_size = cfg.vision_config.patch_size as int;
    let pos_height = cfg.vision_config.pos_emb_height as int;
    let pos_width = cfg.vision_config.pos_emb_width as int;
    let out = cfg.out_hidden_size as int;
    let projector = cfg.projector_hidden_size as int;
    let text_hidden = cfg.text_config.hidden_size as int;
    let patch = hidden * temporal * 3 * (patch_size * patch_size);
    let position = pos_height * pos_width * hidden;
    let tower_norms = 4 * hidden;
    let layer = 4 * (hidden * hidden) + 2 * hidden * width + width + 9 * hidden;
    let adapter = out * projector + projector * projector;
    let projection = projector * text_hidden;
    &&& word(hidden * temporal)
    &&& word(hidden * temporal * 3)
    &&& word(patch_size * patch_size)
    &&& word(hidden * temporal * 3 * (patch_size * patch_size))
    &&& word(pos_height * pos_width)
    &&& word(pos_height * pos_width * hidden)
    &&& word(4 * hidden)
    &&& word(hidden * hidden)
    &&& word(4 * (hidden * hidden))
    &&& word(2 * hidden)
    &&& word(2 * hidden * width)
    &&& word(9 * hidden)
    &&& word(4 * (hidden * hidden) + 2 * hidden * width + width + 9 * hidden)
    &&& word(out * projector)
    &&& word(projector * projector)
    &&& word(out * projector + projector * projector)
    &&& word(projector * text_hidden)
    &&& word(layers * layer)
    &&& word(patch + position + tower_norms + layers * layer + adapter + projection)
}

/// The vision tower and the projection to the text model.
pub fn muse_glimmer_vision(cfg: &MuseGlimmerConfig) -> (r: usize)
    requires
        muse_glimmer_vision_fits(*cfg),
    ensures
        r == muse_glimmer_vision_elems(*cfg),
{
    let hidden: usize = cfg.vision_config.hidden_size;
    let width: usize = cfg.vision_config.intermediate_size;
    let layers: usize = cfg.vision_config.num_hidden_layers;
    let temporal: usize = cfg.vision_config.patch_temporal;
    let patch_size: usize = cfg.vision_config.patch_size;
    let pos_height: usize = cfg.vision_config.pos_emb_height;
    let pos_width: usize = cfg.vision_config.pos_emb_width;
    let out: usize = cfg.out_hidden_size;
    let projector: usize = cfg.projector_hidden_size;
    let text_hidden: usize = cfg.text_config.hidden_size;
    let patch: usize = hidden * temporal * 3 * (patch_size * patch_size);
    let position: usize = pos_height * pos_width * hidden;
    let tower_norms: usize = 4 * hidden;
    let layer: usize = 4 * (hidden * hidden) + 2 * hidden * width + width + 9 * hidden;
    let adapter: usize = out * projector + projector * projector;
    let projection: usize = projector * text_hidden;
    patch + position + tower_norms + layers * layer + adapter + projection
}

/// What is not mapped to layers.
pub open spec fn muse_glimmer_non_mapped_elems(cfg: MuseGlimmerConfig, packs: PackFactors) -> int {
    let hidden = cfg.text_config.hidden_size as int;
    let vocab = cfg.text_config.vocab_size as int;
    let embed_pack = packs.embed_tokens as int;
    let head_pack = packs.lm_head as int;
    let tied = cfg.text_config.tie_word_embeddings;
    let text = text_head_elems(hidden, vocab, tied, embed_pack, head_pack);
    let vision = muse_glimmer_vision_elems(cfg);
    text + vision
}

/// Every step of `muse_glimmer_non_mapped` fits a machine word.
pub open spec fn muse_glimmer_non_mapped_fits(cfg: MuseGlimmerConfig, packs: PackFactors) -> bool {
    let hidden = cfg.text_config.hidden_size as int;
    let vocab = cfg.text_config.vocab_size as int;
    let embed_pack = packs.embed_tokens as int;
    let head_pack = packs.lm_head as int;
    let tied = cfg.text_config.tie_word_embeddings;
    let text = text_head_elems(hidden, vocab, tied, embed_pack, head_pack);
    let vision = muse_glimmer_vision_elems(cfg);
    &&& text_head_fits(hidden, vocab, tied, embed_pack, head_pack)
    &&& muse_glimmer_vision_fits(cfg)
    &&& word(text + vision)
}

/// What is not mapped to layers.
pub fn muse_glimmer_non_mapped(cfg: &MuseGlimmerConfig, packs: PackFactors) -> (r: usize)
    requires
        muse_glimmer_non_mapped_fits(*cfg, packs),
    ensures
        r == muse_glimmer_non_mapped_elems(*cfg, packs),
{
    let hidden: usize = cfg.text_config.hidden_size;
    let vocab: usize = cfg.text_config.vocab_size;
    let embed_pack: usize = packs.embed_tokens;
    let head_pack: usize = packs.lm_head;
    let tied: bool = cfg.text_config.tie_word_embeddings;
    let text: usize = text_head(hidden, vocab, tied, embed_pack, head_pack);
    let vision: usize = muse_glimmer_vision(cfg);
    text + vision
}

/// A decoder layer with gated attention and four norms.
pub open spec fn muse_glimmer_layer_elems(cfg: MuseGlimmerConfig, pack: int) -> int {
    let hidden = cfg.text_config.hidden_size as int;
    let heads = cfg.text_config.num_attention_heads as int;
    let kv_heads = cfg.text_config.num_key_value_heads as int;
    let head = cfg.text_config.head_dim as int;
    let width = cfg.text_config.intermediate_size as int;
    let biased = cfg.text_config.attention_bias;
    let query_size = heads * head;
    let kv_size = kv_heads * head;
    let projections = (hidden * query_size * 3 + hidden * kv_size * 2) / pack;
    let biases = if biased { query_size + kv_size * 2 + hidden } else { 0 };
    let mlp = 3 * hidden * width / pack;
    let norms = 4 * hidden;
    projections + biases + mlp + norms
}

/// Every step of `muse_glimmer_layer` fits a machine word.
pub open spec fn muse_glimmer_layer_fits(cfg: MuseGlimmerConfig, pack: int) -> bool {
    let hidden = cfg.text_config.hidden_size as int;
    let heads = cfg.text_config.num_attention_heads as int;
    let kv_heads = cfg.text_config.num_key_value_heads as int;
    let head = cfg.text_config.head_dim as int;
    let width = cfg.text_config.intermediate_size as int;
    let biased = cfg.text_config.attention_bias;
    let query_size = heads * head;
    let kv_size = kv_heads * head;
    let projections = (hidden * query_size * 3 + hidden * kv_size * 2) / pack;
    let biases = if biased { query_size + kv_size * 2 + hidden } else { 0 };
    let mlp = 3 * hidden * width / pack;
    let norms = 4 * hidden;
    &&& word(heads * head)
    &&& word(kv_heads * head)
    &&& word(hidden * query_size)
    &&& word(hidden * query_size * 3)
    &&& word(hidden * kv_size)
    &&& word(hidden * kv_size * 2)
    &&& word(hidden * query_size * 3 + hidden * kv_size * 2)
    &&& pack > 0
    &&& biased ==> word(kv_size * 2)
    &&& biased ==> word(query_size + kv_size * 2 + hidden)
    &&& word(3 * hidden)
    &&& word(3 * hidden * width)
    &&& word(4 * hidden)
    &&& word(projections + biases + mlp + norms)
}

/// A decoder layer with gated attention and four norms.
pub fn muse_glimmer_layer(cfg: &MuseGlimmerConfig, pack: usize) -> (r: usize)
    requires
        muse_glimmer_layer_fits(*cfg, pack as int),
    ensures
        r == muse_glimmer_layer_elems(*cfg, pack as int),
{
    let hidden: usize = cfg.text_config.hidden_size;
    let heads: usize = cfg.text_config.num_attention_heads;
    let kv_heads: usize = cfg.text_config.num_key_value_heads;
    let head: usize = cfg.text_config.head_dim;
    let width: usize = cfg.text_config.intermediate_size;
    let biased: bool = cfg.text_config.attention_bias;
    let query_size: usize = heads * head;
    let kv_size: usize = kv_heads * head;
    let projections: usize = (hidden * query_size * 3 + hidden * kv_size * 2) / pack;
    let biases: usize = if biased { query_size + kv_size * 2 + hidden } else { 0 };
    let mlp: usize = 3 * hidden * width / pack;
    let norms: usize = 4 * hidden;
    projections + biases + mlp + norms
}

/// Marks the media of Muse-Glimmer prompts.
pub struct MuseGlimmerPrefixer;

impl MuseGlimmerPrefixer {
    /// The prompt with its image marks: the chat template sets them.
    pub fn prefix_image(&self, image_indexes: &Vec<usize>, prompt: &str) -> (r: String)
        ensures
            r@ == prompt@,
    {
        prompt.to_owned()
    }
}

/// Loader of Muse-Glimmer models.
pub struct MuseGlimmerLoader;

impl MuseGlimmerLoader {
    /// Elements of the largest activation of a layer.
    pub fn mapped_max_act_size_elems(
        &self,
        cfg: &MuseGlimmerConfig,
        params: &AutoDeviceMapParams,
        attention_chunk: usize,
    ) -> (r: Result<usize, LoaderError>)
        requires
            match *params {
                AutoDeviceMapParams::Multimodal {
                    max_seq_len,
                    max_batch_size,
                    max_image_shape,
                    max_num_images,
                } => muse_glimmer_mapped_act_fits(
                    *cfg,
                    max_seq_len as int,
                    max_batch_size as int,
                    max_image_shape.0 as int,
                    max_image_shape.1 as int,
                    max_num_images as int,
                    attention_chunk as int,
                ),
                _ => true,
            },
        ensures
            match *params {
                AutoDeviceMapParams::Multimodal {
                    max_seq_len,
                    max_batch_size,
                    max_image_shape,
                    max_num_images,
                } => r matches Ok(n) && n == muse_glimmer_mapped_act_elems(
                    *cfg,
                    max_seq_len as int,
                    max_batch_size as int,
                    max_image_shape.0 as int,
                    max_image_shape.1 as int,
                    max_num_images as int,
                    attention_chunk as int,
                ),
                _ => r == Err::<usize, LoaderError>(LoaderError::ExpectedMultimodal),
            },
    {
        match params {
            AutoDeviceMapParams::Multimodal {
                max_seq_len,
                max_batch_size,
                max_image_shape,
                max_num_images,
            } => Ok(
                muse_glimmer_mapped_act(
                    cfg,
                    *max_seq_len,
                    *max_batch_size,
                    max_image_shape.0,
                    max_image_shape.1,
                    *max_num_images,
                    attention_chunk,
                ),
            ),
            _ => Err(LoaderError::ExpectedMultimodal),
        }
    }

    /// Elements of the largest activation outside the layers.
    pub fn non_mapped_max_act_size_elems(
        &self,
        cfg: &MuseGlimmerConfig,
        params: &AutoDeviceMapParams,
    ) -> (r: Result<usize, LoaderError>)
        requires
            match *params {
                AutoDeviceMapParams::Multimodal {
                    max_batch_size,
                    max_image_shape,
                    max_num_images,
                    ..
                } => muse_glimmer_vision_act_fits(
                    *cfg,
                    max_batch_size as int,
                    max_image_shape.0 as int,
                    max_image_shape.1 as int,
                    max_num_images as int,
                ),
                _ => true,
            },
        ensures
            match *params {
                AutoDeviceMapParams::Multimodal {
                    max_batch_size,
                    max_image_shape,
                    max_num_images,
                    ..
                } => r matches Ok(n) && n == muse_glimmer_vision_act_elems(
                    *cfg,
                    max_batch_size as int,
                    max_image_shape.0 as int,
                    max_image_shape.1 as int,
                    max_num_images as int,
                ),
                _ => r == Err::<usize, LoaderError>(LoaderError::ExpectedMultimodal),
            },
    {
        match params {
            AutoDeviceMapParams::Multimodal {
                max_batch_size,
                max_image_shape,
                max_num_images,
                ..
            } => Ok(
                muse_glimmer_vision_act(
                    cfg,
                    *max_batch_size,
                    max_image_shape.0,
                    max_image_shape.1,
                    *max_num_images,
                ),
            ),
            _ => Err(LoaderError::ExpectedMultimodal),
        }
    }

    /// The tensors by whose quantization the pack factors are known.
    pub fn pack_lookup(&self, cfg: &MuseGlimmerConfig) -> (r: PackLookup)
        ensures
            r.asks(
                seq!["model.language_model.embed_tokens.weight"@],
                "lm_head.weight"@,
                cfg.text_config.tie_word_embeddings,
            ),
    {
        let embed_tokens = vec!["model.language_model.embed_tokens.weight"];
        assert(literals(embed_tokens@) =~= seq!["model.language_model.embed_tokens.weight"@]);
        PackLookup {
            embed_tokens,
            lm_head: "lm_head.weight",
            tied: cfg.text_config.tie_word_embeddings,
        }
    }

    /// Bytes of what is not mapped to layers.
    pub fn non_mapped_size_in_bytes(
        &self,
        cfg: &MuseGlimmerConfig,
        dtype: DType,
        packs: PackFactors,
    ) -> (r: usize)
        requires
            muse_glimmer_non_mapped_fits(*cfg, packs),
            word(muse_glimmer_non_mapped_elems(*cfg, packs) * dtype.bytes()),
        ensures
            r == muse_glimmer_non_mapped_elems(*cfg, packs) * dtype.bytes(),
    {
        let elems: usize = muse_glimmer_non_mapped(cfg, packs);
        elems * dtype.size_in_bytes()
    }

    /// Bytes of each layer.
    pub fn layer_sizes_in_bytes(
        &self,
        cfg: &MuseGlimmerConfig,
        dtype: DType,
        weight_pack_factor: usize,
    ) -> (r: Vec<usize>)
        requires
            muse_glimmer_layer_fits(*cfg, weight_pack_factor as int),
            word(muse_glimmer_layer_elems(*cfg, weight_pack_factor as int) * dtype.bytes()),
        ensures
            r@.len() == cfg.text_config.num_hidden_layers,
            forall|i: int| 0 <= i < r@.len()
                ==> #[trigger] r@[i] == muse_glimmer_layer_elems(
                    *cfg,
                    weight_pack_factor as int,
                ) * dtype.bytes(),
    {
        let elems: usize = muse_glimmer_layer(cfg, weight_pack_factor);
        uniform(elems * dtype.size_in_bytes(), cfg.text_config.num_hidden_layers)
    }

    /// Number of layers.
    pub fn num_layers(&self, cfg: &MuseGlimmerConfig) -> (r: usize)
        ensures
            r == cfg.text_config.num_hidden_layers,
    {
        cfg.text_config.num_hidden_layers
    }

    /// What the paged cache needs to know of the model.
    pub fn model_config(&self, cfg: &MuseGlimmerConfig) -> (r: ModelConfigMetadata)
        ensures
            r == (ModelConfigMetadata {
                max_seq_len: cfg.text_config.max_position_embeddings,
                num_layers: cfg.text_config.num_hidden_layers,
                hidden_size: cfg.text_config.hidden_size,
                num_kv_heads: cfg.text_config.num_key_value_heads,
                num_attn_heads: cfg.text_config.num_attention_heads,
                sliding_window: None,
                k_head_dim: cfg.text_config.head_dim,
                v_head_dim: cfg.text_config.head_dim,
                kv_cache_layout: KvCacheLayout::Standard,
            }),
    {
        ModelConfigMetadata {
                max_seq_len: cfg.text_config.max_position_embeddings,
                num_layers: cfg.text_config.num_hidden_layers,
                hidden_size: cfg.text_config.hidden_size,
                num_kv_heads: cfg.text_config.num_key_value_heads,
                num_attn_heads: cfg.text_config.num_attention_heads,
                sliding_window: None,
                k_head_dim: cfg.text_config.head_dim,
                v_head_dim: cfg.text_config.head_dim,
                kv_cache_layout: KvCacheLayout::Standard,
        }
    }

    /// The parts that are not mapped to layers.
    pub fn non_mapped_sub_models(&self) -> (r: Option<Vec<NonMappedSubModel>>)
        ensures
            r matches Some(v) && v@ == seq![NonMappedSubModel::Vision],
    {
        Some(vec![NonMappedSubModel::Vision])
    }

    /// Whether rotary embeddings split a head in halves by default.
    pub fn is_gptx(&self) -> (r: bool)
        ensures
            r == true,
    {
        true
    }

    /// Whether the model runs with paged attention.
    pub fn supports_paged_attention(&self) -> (r: bool)
        ensures
            r == true,
    {
        true
    }

    /// Whether encoder outputs can be cached.
    pub fn supports_encoder_cache(&self) -> (r: bool)
        ensures
            r == true,
    {
        true
    }

    /// Whether prompt prefixes can be cached.
    pub fn supports_prefix_cacher(&self) -> (r: bool)
        ensures
            r == true,
    {
        true
    }

    /// What the model reads and writes: no video where the temporal patches of the
    /// checkpoint are collapsed.
    pub fn modalities(&self, cfg: &MuseGlimmerConfig) -> (r: Modalities)
        ensures
            r.reads(if cfg.gguf_collapsed_temporal {
                seq![SupportedModality::Text, SupportedModality::Vision]
            } else {
                seq![SupportedModality::Text, SupportedModality::Vision, SupportedModality::Video]
            }),
    {
        let mut input = vec![SupportedModality::Text, SupportedModality::Vision];
        if !cfg.gguf_collapsed_temporal {
            input.push(SupportedModality::Video);
        }
        Modalities { input, output: vec![SupportedModality::Text] }
    }

    /// Tensors that keep a higher precision when quantized.
    pub open spec fn promoted_isq_predicates_texts(&self) -> Seq<Seq<char>> {
        seq![r"^model\.language_model\.embed_tokens\.weight$"@] + seq![ROOT_LM_HEAD@]
    }

    /// Tensors that keep a higher precision when quantized.
    pub fn promoted_isq_predicates(&self) -> (r: Vec<String>)
        ensures
            texts(r@) == self.promoted_isq_predicates_texts(),
    {
        let mut out: Vec<String> = Vec::new();
        push_pattern(&mut out, r"^model\.language_model\.embed_tokens\.weight$");
        push_pattern(&mut out, ROOT_LM_HEAD);
        assert(texts(out@) =~= self.promoted_isq_predicates_texts());
        out
    }

    /// Tensors that are quantized.
    pub open spec fn isq_layer_regexes_texts(&self) -> Seq<Seq<char>> {
        seq![ROOT_LM_HEAD@] + seq![
                r"^model\.language_model\.layers\.(\d+)\.self_attn\.(q_proj|k_proj|v_proj|o_proj|gate_proj)\.(weight|bias)$"@,
                r"^model\.language_model\.layers\.(\d+)\.mlp\.(gate_proj|up_proj|down_proj)\.(weight|bias)$"@,
            ]
    }

    /// Tensors that are quantized.
    pub fn isq_layer_regexes(&self) -> (r: Vec<String>)
        ensures
            texts(r@) == self.isq_layer_regexes_texts(),
    {
        let mut out: Vec<String> = Vec::new();
        push_pattern(&mut out, ROOT_LM_HEAD);
        let list0 = vec![
            r"^model\.language_model\.layers\.(\d+)\.self_attn\.(q_proj|k_proj|v_proj|o_proj|gate_proj)\.(weight|bias)$",
            r"^model\.language_model\.layers\.(\d+)\.mlp\.(gate_proj|up_proj|down_proj)\.(weight|bias)$",
        ];
        assert(
            literals(list0@) =~= seq![
                r"^model\.language_model\.layers\.(\d+)\.self_attn\.(q_proj|k_proj|v_proj|o_proj|gate_proj)\.(weight|bias)$"@,
                r"^model\.language_model\.layers\.(\d+)\.mlp\.(gate_proj|up_proj|down_proj)\.(weight|bias)$"@,
            ]
        );
        push_patterns(&mut out, &list0);
        assert(texts(out@) =~= self.isq_layer_regexes_texts());
        out
    }

    /// Tensors that are quantized while they are loaded: those that are quantized.
    pub fn immediate_isq_predicates(&self) -> (r: Vec<String>)
        ensures
            texts(r@) == self.isq_layer_regexes_texts(),
    {
        self.isq_layer_regexes()
    }

    /// Where a tensor is loaded.
    pub fn get_device_for_tensor(
        &self,
        cfg: &MuseGlimmerConfig,
        name: &str,
        loading_isq: bool,
    ) -> (r: DeviceForLoadTensor)
        ensures
            r == (if loading_isq {
                DeviceForLoadTensor::Base
            } else {
                bounded_place(
                    regex_first_group(ROOTED_LAYER_PATTERN@, name@),
                    cfg.text_config.num_hidden_layers,
                )
            }),
    {
        get_device_for_rooted_tensor(name, cfg.text_config.num_hidden_layers, loading_isq)
    }

    /// The configuration to run with under a limit of the model length. `parsed` is
    /// the length that `config` gives the text model, or why it cannot be read; it
    /// matters only under a valid limit.
    pub fn runtime_config(
        &self,
        config: &str,
        parsed: Result<usize, String>,
        max_model_len: Option<usize>,
    ) -> (r: Result<String, LoaderError>)
        ensures
            match (max_model_len, parsed) {
                (None, _) => r matches Ok(s) && s@ == config@,
                (Some(0), _) => r == Err::<String, LoaderError>(LoaderError::MaxModelLenZero),
                (Some(_), Err(e)) => r == Err::<String, LoaderError>(LoaderError::Config(e)),
                (Some(n), Ok(length)) => if length <= n {
                    r matches Ok(s) && s@ == config@
                } else {
                    limited_result(
                        r,
                        json_with_number(config@, "text_config"@, "max_position_embeddings"@, n),
                    )
                },
            },
    {
        let limit: usize = match max_model_len {
            None => {
                return Ok(config.to_owned());
            },
            Some(n) => n,
        };
        if limit == 0 {
            return Err(LoaderError::MaxModelLenZero);
        }
        match parsed {
            Err(e) => Err(LoaderError::Config(e)),
            Ok(length) => if length <= limit {
                Ok(config.to_owned())
            } else {
                limited_config(
                    set_json_number(config, "text_config", "max_position_embeddings", limit),
                )
            },
        }
    }
}

} // verus!
