//! DiffusionGemma.

use vstd::prelude::*;

use crate::loaders::{
    AutoDeviceMapParams, KvCacheLayout, LoaderError, Modalities, ModelConfigMetadata,
    NonMappedSubModel, PackFactors, PackLookup, SupportedModality,
};
use crate::loaders::patterns::{
    ANY_LAYER, LM_HEAD, WEIGHT_OR_BIAS, attention_module_texts, attention_modules, family, literals,
    mlp_module_texts, mlp_modules, push_family, push_pattern, texts,
};
use crate::loaders::sizes::{
    attention, larger, larger_elems, scores, scores_elems, scores_fits, word,
};
use crate::tensor::{DType};
use crate::text::{same_text};
use crate::loaders::json::{json_text_at, supports_gemma4_incremental_cache};

verus! {

/// Which tokens attend in both directions.
#[derive(Debug, Clone, Copy, PartialEq, Eq, Structural)]
pub enum BidirectionalAttention {
    Nothing,
    Vision,
    All,
}

/// What the sizes of the text model depend on, and how it attends.
#[derive(Debug, Clone, Copy, PartialEq, Eq, Structural)]
pub struct DiffusionTextConfig {
    pub hidden_size: usize,
    pub vocab_size: usize,
    pub num_hidden_layers: usize,
    pub num_attention_heads: usize,
    pub num_key_value_heads: usize,
    pub intermediate_size: usize,
    pub max_position_embeddings: usize,
    pub head_dim: usize,
    pub global_head_dim: usize,
    pub num_global_key_value_heads: Option<usize>,
    pub attention_k_eq_v: bool,
    pub enable_moe_block: bool,
    pub num_experts: Option<usize>,
    pub expert_intermediate_size: Option<usize>,
    pub sliding_window: usize,
    pub tie_word_embeddings: bool,
    pub bidirectional_attention: BidirectionalAttention,
}

/// What the sizes of the vision tower depend on.
#[derive(Debug, Clone, Copy, PartialEq, Eq, Structural)]
pub struct DiffusionVisionConfig {
    pub hidden_size: usize,
    pub intermediate_size: usize,
    pub num_hidden_layers: usize,
    pub num_attention_heads: usize,
    pub num_key_value_heads: usize,
    pub head_dim: usize,
    pub patch_size: usize,
    pub position_embedding_size: usize,
    pub pooling_kernel_size: usize,
    pub default_output_length: usize,
}

/// What the sizes depend on.
#[derive(Debug, Clone, Copy, PartialEq, Eq, Structural)]
pub struct DiffusionGemmaConfig {
    pub text_config: DiffusionTextConfig,
    pub vision_config: Option<DiffusionVisionConfig>,
    pub vision_soft_tokens_per_image: Option<usize>,
    pub canvas_length: usize,
}

/// The tokens of an image.
pub open spec fn vision_tokens(cfg: DiffusionGemmaConfig) -> int {
    match (cfg.vision_config, cfg.vision_soft_tokens_per_image) {
        (None, _) => 0,
        (Some(_), Some(n)) => n as int,
        (Some(_), None) => 280,
    }
}

fn vision_tokens_per_image(cfg: &DiffusionGemmaConfig) -> (r: usize)
    ensures
        r == vision_tokens(*cfg),
{
    if cfg.vision_config.is_some() {
        match cfg.vision_soft_tokens_per_image {
            Some(n) => n,
            None => 280,
        }
    } else {
        0
    }
}

/// A count that may be left out.
pub open spec fn or_zero(n: Option<usize>) -> int {
    match n {
        Some(n) => n as int,
        None => 0,
    }
}

fn count_or_zero(n: Option<usize>) -> (r: usize)
    ensures
        r == or_zero(n),
{
    match n {
        Some(n) => n,
        None => 0,
    }
}

/// Scores of a prompt with its images.
pub open spec fn diffusion_mapped_act_elems(
    cfg: DiffusionGemmaConfig,
    seq: int,
    batch: int,
    images: int,
) -> int {
    let heads = cfg.text_config.num_attention_heads as int;
    let tokens = vision_tokens(cfg);
    let total = seq + tokens * images;
    scores_elems(batch, heads, total, total)
}

/// Every step of `diffusion_mapped_act` fits a machine word.
pub open spec fn diffusion_mapped_act_fits(
    cfg: DiffusionGemmaConfig,
    seq: int,
    batch: int,
    images: int,
) -> bool {
    let heads = cfg.text_config.num_attention_heads as int;
    let tokens = vision_tokens(cfg);
    let total = seq + tokens * images;
    &&& word(tokens * images)
    &&& word(seq + tokens * images)
    &&& scores_fits(batch, heads, total, total)
}

/// Scores of a prompt with its images.
pub fn diffusion_mapped_act(
    cfg: &DiffusionGemmaConfig,
    seq: usize,
    batch: usize,
    images: usize,
) -> (r: usize)
    requires
        diffusion_mapped_act_fits(*cfg, seq as int, batch as int, images as int),
    ensures
        r == diffusion_mapped_act_elems(*cfg, seq as int, batch as int, images as int),
{
    let heads: usize = cfg.text_config.num_attention_heads;
    let tokens: usize = vision_tokens_per_image(cfg);
    let total: usize = seq + tokens * images;
    scores(batch, heads, total, total)
}

/// The larger of the scores and the hidden states of the vision tower.
pub open spec fn diffusion_vision_act_elems(
    vc: DiffusionVisionConfig,
    batch: int,
    images: int,
) -> int {
    let length = vc.default_output_length as int;
    let kernel = vc.pooling_kernel_size as int;
    let heads = vc.num_attention_heads as int;
    let hidden = vc.hidden_size as int;
    let width = vc.intermediate_size as int;
    let patches = length * kernel * kernel;
    let items = batch * images;
    let attn = scores_elems(items, heads, patches, patches);
    let states = items * patches * larger_elems(hidden, width);
    larger_elems(attn, states)
}

/// Every step of `diffusion_vision_act` fits a machine word.
pub open spec fn diffusion_vision_act_fits(
    vc: DiffusionVisionConfig,
    batch: int,
    images: int,
) -> bool {
    let length = vc.default_output_length as int;
    let kernel = vc.pooling_kernel_size as int;
    let heads = vc.num_attention_heads as int;
    let hidden = vc.hidden_size as int;
    let width = vc.intermediate_size as int;
    let patches = length * kernel * kernel;
    let items = batch * images;
    &&& word(length * kernel)
    &&& word(length * kernel * kernel)
    &&& word(batch * images)
    &&& scores_fits(items, heads, patches, patches)
    &&& word(items * patches)
    &&& word(items * patches * larger_elems(hidden, width))
}

/// The larger of the scores and the hidden states of the vision tower.
pub fn diffusion_vision_act(vc: &DiffusionVisionConfig, batch: usize, images: usize) -> (r: usize)
    requires
        diffusion_vision_act_fits(*vc, batch as int, images as int),
    ensures
        r == diffusion_vision_act_elems(*vc, batch as int, images as int),
{
    let length: usize = vc.default_output_length;
    let kernel: usize = vc.pooling_kernel_size;
    let heads: usize = vc.num_attention_heads;
    let hidden: usize = vc.hidden_size;
    let width: usize = vc.intermediate_size;
    let patches: usize = length * kernel * kernel;
    let items: usize = batch * images;
    let attn: usize = scores(items, heads, patches, patches);
    let states: usize = items * patches * larger(hidden, width);
    larger(attn, states)
}

/// The larger of what the vision tower needs and the four arrays of logits that
/// denoising a canvas keeps.
pub open spec fn diffusion_non_mapped_act_elems(
    cfg: DiffusionGemmaConfig,
    batch: int,
    images: int,
) -> int {
    let canvas = cfg.canvas_length as int;
    let vocab = cfg.text_config.vocab_size as int;
    let vision = match cfg.vision_config {
        Some(vc) => diffusion_vision_act_elems(vc, batch, images),
        None => 0,
    };
    let canvas_logits = 4 * canvas * vocab;
    larger_elems(vision, canvas_logits)
}

/// Every step of `diffusion_non_mapped_act` fits a machine word.
pub open spec fn diffusion_non_mapped_act_fits(
    cfg: DiffusionGemmaConfig,
    batch: int,
    images: int,
) -> bool {
    let canvas = cfg.canvas_length as int;
    let vocab = cfg.text_config.vocab_size as int;
    &&& cfg.vision_config matches Some(vc) ==> diffusion_vision_act_fits(vc, batch, images)
    &&& word(4 * canvas)
    &&& word(4 * canvas * vocab)
}

/// The larger of what the vision tower needs and the four arrays of logits that
/// denoising a canvas keeps.
pub fn diffusion_non_mapped_act(
    cfg: &DiffusionGemmaConfig,
    batch: usize,
    images: usize,
) -> (r: usize)
    requires
        diffusion_non_mapped_act_fits(*cfg, batch as int, images as int),
    ensures
        r == diffusion_non_mapped_act_elems(*cfg, batch as int, images as int),
{
    let canvas: usize = cfg.canvas_length;
    let vocab: usize = cfg.text_config.vocab_size;
    let vision: usize = match &cfg.vision_config {
        Some(vc) => diffusion_vision_act(vc, batch, images),
        None => 0,
    };
    let canvas_logits: usize = 4 * canvas * vocab;
    larger(vision, canvas_logits)
}

/// Token embeddings, which are not packed where the head is tied to them, output
/// head, final norm and the block that conditions on earlier steps.
pub open spec fn diffusion_text_elems(cfg: DiffusionGemmaConfig, packs: PackFactors) -> int {
    let hidden = cfg.text_config.hidden_size as int;
    let vocab = cfg.text_config.vocab_size as int;
    let embed_pack = packs.embed_tokens as int;
    let head_pack = packs.lm_head as int;
    let width = cfg.text_config.intermediate_size as int;
    let tied = cfg.text_config.tie_word_embeddings;
    let resolved = if tied { 1 } else { embed_pack };
    let embed_tokens = hidden * vocab / resolved;
    let lm_head = if tied { 0 } else { hidden * vocab / head_pack };
    let self_conditioning = 3 * hidden * width + hidden;
    embed_tokens + lm_head + hidden + self_conditioning
}

/// Every step of `diffusion_text` fits a machine word.
pub open spec fn diffusion_text_fits(cfg: DiffusionGemmaConfig, packs: PackFactors) -> bool {
    let hidden = cfg.text_config.hidden_size as int;
    let vocab = cfg.text_config.vocab_size as int;
    let embed_pack = packs.embed_tokens as int;
    let head_pack = packs.lm_head as int;
    let width = cfg.text_config.intermediate_size as int;
    let tied = cfg.text_config.tie_word_embeddings;
    let resolved = if tied { 1 } else { embed_pack };
    let embed_tokens = hidden * vocab / resolved;
    let lm_head = if tied { 0 } else { hidden * vocab / head_pack };
    let self_conditioning = 3 * hidden * width + hidden;
    &&& word(hidden * vocab)
    &&& resolved > 0
    &&& !tied ==> word(hidden * vocab)
    &&& !tied ==> head_pack > 0
    &&& word(3 * hidden)
    &&& word(3 * hidden * width)
    &&& word(3 * hidden * width + hidden)
    &&& word(embed_tokens + lm_head + hidden + self_conditioning)
}

/// Token embeddings, which are not packed where the head is tied to them, output
/// head, final norm and the block that conditions on earlier steps.
pub fn diffusion_text(cfg: &DiffusionGemmaConfig, packs: PackFactors) -> (r: usize)
    requires
        diffusion_text_fits(*cfg, packs),
    ensures
        r == diffusion_text_elems(*cfg, packs),
{
    let hidden: usize = cfg.text_config.hidden_size;
    let vocab: usize = cfg.text_config.vocab_size;
    let embed_pack: usize = packs.embed_tokens;
    let head_pack: usize = packs.lm_head;
    let width: usize = cfg.text_config.intermediate_size;
    let tied: bool = cfg.text_config.tie_word_embeddings;
    let resolved: usize = if tied { 1 } else { embed_pack };
    let embed_tokens: usize = hidden * vocab / resolved;
    let lm_head: usize = if tied { 0 } else { hidden * vocab / head_pack };
    let self_conditioning: usize = 3 * hidden * width + hidden;
    embed_tokens + lm_head + hidden + self_conditioning
}

/// The vision tower and the projection to the text model.
pub open spec fn diffusion_vision_elems(vc: DiffusionVisionConfig, text_hidden: int) -> int {
    let hidden = vc.hidden_size as int;
    let heads = vc.num_attention_heads as int;
    let kv_heads = vc.num_key_value_heads as int;
    let head = vc.head_dim as int;
    let width = vc.intermediate_size as int;
    let patch = vc.patch_size as int;
    let positions = vc.position_embedding_size as int;
    let layers = vc.num_hidden_layers as int;
    let projections = hidden * heads * head + 3 * (hidden * kv_heads * head) + 2 * (hidden * width)
        + width * hidden;
    let norms = 2 * head + 4 * hidden;
    let layer = projections + norms;
    let patch_embed = patch * patch * 3 * hidden;
    let position_table = 2 * positions * hidden;
    let encoder = layers * layer;
    let embed_vision = hidden * text_hidden;
    patch_embed + position_table + encoder + embed_vision
}

/// Every step of `diffusion_vision` fits a machine word.
pub open spec fn diffusion_vision_fits(vc: DiffusionVisionConfig, text_hidden: int) -> bool {
    let hidden = vc.hidden_size as int;
    let heads = vc.num_attention_heads as int;
    let kv_heads = vc.num_key_value_heads as int;
    let head = vc.head_dim as int;
    let width = vc.intermediate_size as int;
    let patch = vc.patch_size as int;
    let positions = vc.position_embedding_size as int;
    let layers = vc.num_hidden_layers as int;
    let projections = hidden * heads * head + 3 * (hidden * kv_heads * head) + 2 * (hidden * width)
        + width * hidden;
    let norms = 2 * head + 4 * hidden;
    let layer = projections + norms;
    let patch_embed = patch * patch * 3 * hidden;
    let position_table = 2 * positions * hidden;
    let encoder = layers * layer;
    let embed_vision = hidden * text_hidden;
    &&& word(hidden * heads)
    &&& word(hidden * heads * head)
    &&& word(hidden * kv_heads)
    &&& word(hidden * kv_heads * head)
    &&& word(3 * (hidden * kv_heads * head))
    &&& word(hidden * width)
    &&& word(2 * (hidden * width))
    &&& word(width * hidden)
    &&& word(
        hidden * heads * head + 3 * (hidden * kv_heads * head) + 2 * (hidden * width)
            + width * hidden,
    )
    &&& word(2 * head)
    &&& word(4 * hidden)
    &&& word(2 * head + 4 * hidden)
    &&& word(projections + norms)
    &&& word(patch * patch)
    &&& word(patch * patch * 3)
    &&& word(patch * patch * 3 * hidden)
    &&& word(2 * positions)
    &&& word(2 * positions * hidden)
    &&& word(layers * layer)
    &&& word(hidden * text_hidden)
    &&& word(patch_embed + position_table + encoder + embed_vision)
}

/// The vision tower and the projection to the text model.
pub fn diffusion_vision(vc: &DiffusionVisionConfig, text_hidden: usize) -> (r: usize)
    requires
        diffusion_vision_fits(*vc, text_hidden as int),
    ensures
        r == diffusion_vision_elems(*vc, text_hidden as int),
{
    let hidden: usize = vc.hidden_size;
    let heads: usize = vc.num_attention_heads;
    let kv_heads: usize = vc.num_key_value_heads;
    let head: usize = vc.head_dim;
    let width: usize = vc.intermediate_size;
    let patch: usize = vc.patch_size;
    let positions: usize = vc.position_embedding_size;
    let layers: usize = vc.num_hidden_layers;
    let projections: usize = hidden * heads * head + 3 * (hidden * kv_heads * head)
        + 2 * (hidden * width) + width * hidden;
    let norms: usize = 2 * head + 4 * hidden;
    let layer: usize = projections + norms;
    let patch_embed: usize = patch * patch * 3 * hidden;
    let position_table: usize = 2 * positions * hidden;
    let encoder: usize = layers * layer;
    let embed_vision: usize = hidden * text_hidden;
    patch_embed + position_table + encoder + embed_vision
}

/// Elements of the vision tower, if there is one.
pub open spec fn diffusion_vision_part(cfg: DiffusionGemmaConfig) -> int {
    match cfg.vision_config {
        Some(vc) => diffusion_vision_elems(vc, cfg.text_config.hidden_size as int),
        None => 0,
    }
}

/// The type that the vision tower is held in: half precision is widened.
pub open spec fn vision_dtype(dtype: DType) -> DType {
    if dtype == DType::F16 {
        DType::F32
    } else {
        dtype
    }
}

/// The attention of a layer. Values may be the keys where attention is global.
pub open spec fn diffusion_attention_elems(cfg: DiffusionTextConfig, sliding: bool) -> int {
    let hidden = cfg.hidden_size as int;
    let heads = cfg.num_attention_heads as int;
    let own_kv = cfg.num_key_value_heads as int;
    let own_head = cfg.head_dim as int;
    let global_head = cfg.global_head_dim as int;
    let shared = cfg.attention_k_eq_v;
    let head = if sliding { own_head } else { global_head };
    let kv_heads = if sliding {
        own_kv
    } else {
        match cfg.num_global_key_value_heads {
            Some(n) => n as int,
            None => own_kv,
        }
    };
    let projections = hidden * heads * head + hidden * kv_heads * head + heads * head * hidden;
    let values = if shared && !sliding { 0 } else { hidden * kv_heads * head };
    projections + values + 2 * head
}

/// Every step of `diffusion_attention` fits a machine word.
pub open spec fn diffusion_attention_fits(cfg: DiffusionTextConfig, sliding: bool) -> bool {
    let hidden = cfg.hidden_size as int;
    let heads = cfg.num_attention_heads as int;
    let own_kv = cfg.num_key_value_heads as int;
    let own_head = cfg.head_dim as int;
    let global_head = cfg.global_head_dim as int;
    let shared = cfg.attention_k_eq_v;
    let head = if sliding { own_head } else { global_head };
    let kv_heads = if sliding {
        own_kv
    } else {
        match cfg.num_global_key_value_heads {
            Some(n) => n as int,
            None => own_kv,
        }
    };
    let projections = hidden * heads * head + hidden * kv_heads * head + heads * head * hidden;
    let values = if shared && !sliding { 0 } else { hidden * kv_heads * head };
    &&& word(hidden * heads)
    &&& word(hidden * heads * head)
    &&& word(hidden * kv_heads)
    &&& word(hidden * kv_heads * head)
    &&& word(heads * head)
    &&& word(heads * head * hidden)
    &&& word(hidden * heads * head + hidden * kv_heads * head + heads * head * hidden)
    &&& !(shared && !sliding) ==> word(hidden * kv_heads)
    &&& !(shared && !sliding) ==> word(hidden * kv_heads * head)
    &&& word(2 * head)
    &&& word(projections + values + 2 * head)
}

/// The attention of a layer. Values may be the keys where attention is global.
pub fn diffusion_attention(cfg: &DiffusionTextConfig, sliding: bool) -> (r: usize)
    requires
        diffusion_attention_fits(*cfg, sliding),
    ensures
        r == diffusion_attention_elems(*cfg, sliding),
{
    let hidden: usize = cfg.hidden_size;
    let heads: usize = cfg.num_attention_heads;
    let own_kv: usize = cfg.num_key_value_heads;
    let own_head: usize = cfg.head_dim;
    let global_head: usize = cfg.global_head_dim;
    let shared: bool = cfg.attention_k_eq_v;
    let head: usize = if sliding { own_head } else { global_head };
    let kv_heads: usize = if sliding {
        own_kv
    } else {
        match cfg.num_global_key_value_heads {
            Some(n) => n,
            None => own_kv,
        }
    };
    let projections: usize = hidden * heads * head + hidden * kv_heads * head
        + heads * head * hidden;
    let values: usize = if shared && !sliding { 0 } else { hidden * kv_heads * head };
    projections + values + 2 * head
}

/// The routed experts, their router and its norms.
pub open spec fn diffusion_experts_elems(cfg: DiffusionTextConfig) -> int {
    let hidden = cfg.hidden_size as int;
    let experts = or_zero(cfg.num_experts);
    let width = or_zero(cfg.expert_intermediate_size);
    experts * hidden * width * 2 + experts * width * hidden + experts + experts * hidden + hidden
        + 3 * hidden
}

/// Every step of `diffusion_experts` fits a machine word.
pub open spec fn diffusion_experts_fits(cfg: DiffusionTextConfig) -> bool {
    let hidden = cfg.hidden_size as int;
    let experts = or_zero(cfg.num_experts);
    let width = or_zero(cfg.expert_intermediate_size);
    &&& word(experts * hidden)
    &&& word(experts * hidden * width)
    &&& word(experts * hidden * width * 2)
    &&& word(experts * width)
    &&& word(experts * width * hidden)
    &&& word(3 * hidden)
    &&& word(
        experts * hidden * width * 2 + experts * width * hidden + experts + experts * hidden
            + hidden + 3 * hidden,
    )
}

/// The routed experts, their router and its norms.
pub fn diffusion_experts(cfg: &DiffusionTextConfig) -> (r: usize)
    requires
        diffusion_experts_fits(*cfg),
    ensures
        r == diffusion_experts_elems(*cfg),
{
    let hidden: usize = cfg.hidden_size;
    let experts: usize = count_or_zero(cfg.num_experts);
    let width: usize = count_or_zero(cfg.expert_intermediate_size);
    experts * hidden * width * 2 + experts * width * hidden + experts + experts * hidden + hidden
        + 3 * hidden
}

/// A layer with its norms and scales.
pub open spec fn diffusion_layer_elems(cfg: DiffusionGemmaConfig, sliding: bool) -> int {
    let hidden = cfg.text_config.hidden_size as int;
    let width = cfg.text_config.intermediate_size as int;
    let with_moe = cfg.text_config.enable_moe_block;
    let text = cfg.text_config;
    let attn = diffusion_attention_elems(text, sliding);
    let moe = if with_moe { diffusion_experts_elems(text) } else { 0 };
    let mlp = 3 * hidden * width;
    let norms = 4 * hidden + 2;
    attn + mlp + moe + norms
}

/// Every step of `diffusion_layer` fits a machine word.
pub open spec fn diffusion_layer_fits(cfg: DiffusionGemmaConfig, sliding: bool) -> bool {
    let hidden = cfg.text_config.hidden_size as int;
    let width = cfg.text_config.intermediate_size as int;
    let with_moe = cfg.text_config.enable_moe_block;
    let text = cfg.text_config;
    let attn = diffusion_attention_elems(text, sliding);
    let moe = if with_moe { diffusion_experts_elems(text) } else { 0 };
    let mlp = 3 * hidden * width;
    let norms = 4 * hidden + 2;
    &&& diffusion_attention_fits(text, sliding)
    &&& with_moe ==> diffusion_experts_fits(text)
    &&& word(3 * hidden)
    &&& word(3 * hidden * width)
    &&& word(4 * hidden)
    &&& word(4 * hidden + 2)
    &&& word(attn + mlp + moe + norms)
}

/// A layer with its norms and scales.
pub fn diffusion_layer(cfg: &DiffusionGemmaConfig, sliding: bool) -> (r: usize)
    requires
        diffusion_layer_fits(*cfg, sliding),
    ensures
        r == diffusion_layer_elems(*cfg, sliding),
{
    let hidden: usize = cfg.text_config.hidden_size;
    let width: usize = cfg.text_config.intermediate_size;
    let with_moe: bool = cfg.text_config.enable_moe_block;
    let attn: usize = diffusion_attention(&cfg.text_config, sliding);
    let moe: usize = if with_moe { diffusion_experts(&cfg.text_config) } else { 0 };
    let mlp: usize = 3 * hidden * width;
    let norms: usize = 4 * hidden + 2;
    attn + mlp + moe + norms
}

/// Whether layer `i` attends to a window only.
pub open spec fn slides(layer_types: Seq<String>, i: int) -> bool {
    layer_types[i]@ == "sliding_attention"@
}

/// Bytes of layer `i`. All of a layer is packed alike.
pub open spec fn diffusion_layer_bytes(
    cfg: DiffusionGemmaConfig,
    layer_types: Seq<String>,
    i: int,
    bytes: nat,
    pack: int,
) -> int {
    diffusion_layer_elems(cfg, slides(layer_types, i)) * bytes / pack
}

/// How the input processor is set up.
#[derive(Debug, Clone, Copy, PartialEq, Eq, Structural)]
pub struct ProcessorSettings {
    pub patch_size: usize,
    pub pooling_kernel_size: usize,
    pub default_output_length: usize,
    pub supports_images: bool,
    pub supports_audio: bool,
    pub raw_audio_frame_size: Option<usize>,
    pub is_unified: bool,
    pub decode_window: Option<usize>,
    pub bidirectional_attention: BidirectionalAttention,
    pub vision_attention_on_full_layers: bool,
}

/// Loader of DiffusionGemma models.
pub struct DiffusionGemmaLoader;

impl DiffusionGemmaLoader {
    /// Elements of the largest activation of a layer.
    pub fn mapped_max_act_size_elems(
        &self,
        cfg: &DiffusionGemmaConfig,
        params: &AutoDeviceMapParams,
    ) -> (r: Result<usize, LoaderError>)
        requires
            match *params {
                AutoDeviceMapParams::Multimodal {
                    max_seq_len,
                    max_batch_size,
                    max_num_images,
                    ..
                } => diffusion_mapped_act_fits(
                    *cfg,
                    max_seq_len as int,
                    max_batch_size as int,
                    max_num_images as int,
                ),
                _ => true,
            },
        ensures
            match *params {
                AutoDeviceMapParams::Multimodal {
                    max_seq_len,
                    max_batch_size,
                    max_num_images,
                    ..
                } => r matches Ok(n) && n == diffusion_mapped_act_elems(
                    *cfg,
                    max_seq_len as int,
                    max_batch_size as int,
                    max_num_images as int,
                ),
                _ => r == Err::<usize, LoaderError>(LoaderError::ExpectedMultimodal),
            },
    {
        match params {
            AutoDeviceMapParams::Multimodal {
                max_seq_len,
                max_batch_size,
                max_num_images,
                ..
            } => Ok(
                diffusion_mapped_act(cfg, *max_seq_len, *max_batch_size, *max_num_images),
            ),
            _ => Err(LoaderError::ExpectedMultimodal),
        }
    }

    /// Elements of the largest activation outside the layers.
    pub fn non_mapped_max_act_size_elems(
        &self,
        cfg: &DiffusionGemmaConfig,
        params: &AutoDeviceMapParams,
    ) -> (r: Result<usize, LoaderError>)
        requires
            match *params {
                AutoDeviceMapParams::Multimodal {
                    max_batch_size,
                    max_num_images,
                    ..
                } => diffusion_non_mapped_act_fits(
                    *cfg,
                    max_batch_size as int,
                    max_num_images as int,
                ),
                _ => true,
            },
        ensures
            match *params {
                AutoDeviceMapParams::Multimodal {
                    max_batch_size,
                    max_num_images,
                    ..
                } => r matches Ok(n) && n == diffusion_non_mapped_act_elems(
                    *cfg,
                    max_batch_size as int,
                    max_num_images as int,
                ),
                _ => r == Err::<usize, LoaderError>(LoaderError::ExpectedMultimodal),
            },
    {
        match params {
            AutoDeviceMapParams::Multimodal { max_batch_size, max_num_images, .. } => Ok(
                diffusion_non_mapped_act(cfg, *max_batch_size, *max_num_images),
            ),
            _ => Err(LoaderError::ExpectedMultimodal),
        }
    }

    /// The tensors by whose quantization the pack factors are known.
    pub fn pack_lookup(&self, cfg: &DiffusionGemmaConfig) -> (r: PackLookup)
        ensures
            r.asks(
                seq!["model.decoder.embed_tokens.weight"@],
                "model.decoder.lm_head.weight"@,
                cfg.text_config.tie_word_embeddings,
            ),
    {
        let embed_tokens = vec!["model.decoder.embed_tokens.weight"];
        assert(literals(embed_tokens@) =~= seq!["model.decoder.embed_tokens.weight"@]);
        PackLookup {
            embed_tokens,
            lm_head: "model.decoder.lm_head.weight",
            tied: cfg.text_config.tie_word_embeddings,
        }
    }

    /// Bytes of what is not mapped to layers.
    pub fn non_mapped_size_in_bytes(
        &self,
        cfg: &DiffusionGemmaConfig,
        dtype: DType,
        packs: PackFactors,
    ) -> (r: usize)
        requires
            diffusion_text_fits(*cfg, packs),
            cfg.vision_config matches Some(vc)
                ==> diffusion_vision_fits(vc, cfg.text_config.hidden_size as int),
            word(diffusion_text_elems(*cfg, packs) * dtype.bytes()),
            word(diffusion_vision_part(*cfg) * vision_dtype(dtype).bytes()),
            word(
                diffusion_text_elems(*cfg, packs) * dtype.bytes()
                    + diffusion_vision_part(*cfg) * vision_dtype(dtype).bytes(),
            ),
        ensures
            r
                == diffusion_text_elems(*cfg, packs) * dtype.bytes()
                    + diffusion_vision_part(*cfg) * vision_dtype(dtype).bytes(),
    {
        let text: usize = diffusion_text(cfg, packs);
        let vision: usize = match &cfg.vision_config {
            Some(vc) => diffusion_vision(vc, cfg.text_config.hidden_size),
            None => 0,
        };
        let widened: DType = if dtype == DType::F16 {
            DType::F32
        } else {
            dtype
        };
        text * dtype.size_in_bytes() + vision * widened.size_in_bytes()
    }

    /// Whether layer `i` attends to a window only.
    pub fn is_sliding(layer_types: &Vec<String>, i: usize) -> (r: bool)
        requires
            i < layer_types@.len(),
        ensures
            r == slides(layer_types@, i as int),
    {
        same_text(layer_types[i].as_str(), "sliding_attention")
    }

    /// Bytes of each layer, by the kinds of the layers.
    pub fn layer_sizes_in_bytes(
        &self,
        cfg: &DiffusionGemmaConfig,
        layer_types: &Vec<String>,
        dtype: DType,
        weight_pack_factor: usize,
    ) -> (r: Vec<usize>)
        requires
            cfg.text_config.num_hidden_layers <= layer_types@.len(),
            weight_pack_factor > 0,
            forall|i: int| 0 <= i < cfg.text_config.num_hidden_layers
                ==> diffusion_layer_fits(*cfg, #[trigger] slides(layer_types@, i))
                && word(diffusion_layer_elems(*cfg, slides(layer_types@, i)) * dtype.bytes()),
        ensures
            r@.len() == cfg.text_config.num_hidden_layers,
            forall|i: int| 0 <= i < r@.len()
                ==> #[trigger] r@[i] == diffusion_layer_bytes(
                    *cfg,
                    layer_types@,
                    i,
                    dtype.bytes(),
                    weight_pack_factor as int,
                ),
    {
        let n: usize = cfg.text_config.num_hidden_layers;
        let mut r: Vec<usize> = Vec::with_capacity(n);
        let mut i: usize = 0;
        while i < n
            invariant
                i <= n == cfg.text_config.num_hidden_layers <= layer_types@.len(),
                weight_pack_factor > 0,
                r@.len() == i,
                forall|j: int| 0 <= j < cfg.text_config.num_hidden_layers
                    ==> diffusion_layer_fits(*cfg, #[trigger] slides(layer_types@, j))
                    && word(diffusion_layer_elems(*cfg, slides(layer_types@, j)) * dtype.bytes()),
                forall|j: int| 0 <= j < i
                    ==> #[trigger] r@[j] == diffusion_layer_bytes(
                        *cfg,
                        layer_types@,
                        j,
                        dtype.bytes(),
                        weight_pack_factor as int,
                    ),
            decreases n - i,
        {
            let sliding: bool = Self::is_sliding(layer_types, i);
            let elems: usize = diffusion_layer(cfg, sliding);
            r.push(elems * dtype.size_in_bytes() / weight_pack_factor);
            i += 1;
        }
        r
    }

    /// Number of layers.
    pub fn num_layers(&self, cfg: &DiffusionGemmaConfig) -> (r: usize)
        ensures
            r == cfg.text_config.num_hidden_layers,
    {
        cfg.text_config.num_hidden_layers
    }

    /// What the paged cache needs to know of the model.
    pub fn model_config(&self, cfg: &DiffusionGemmaConfig) -> (r: ModelConfigMetadata)
        ensures
            r == (ModelConfigMetadata {
                max_seq_len: cfg.text_config.max_position_embeddings,
                num_layers: cfg.text_config.num_hidden_layers,
                hidden_size: cfg.text_config.hidden_size,
                num_kv_heads: cfg.text_config.num_key_value_heads,
                num_attn_heads: cfg.text_config.num_attention_heads,
                sliding_window: Some(cfg.text_config.sliding_window),
                k_head_dim: cfg.text_config.global_head_dim,
                v_head_dim: cfg.text_config.global_head_dim,
                kv_cache_layout: KvCacheLayout::Standard,
            }),
    {
        ModelConfigMetadata {
                max_seq_len: cfg.text_config.max_position_embeddings,
                num_layers: cfg.text_config.num_hidden_layers,
                hidden_size: cfg.text_config.hidden_size,
                num_kv_heads: cfg.text_config.num_key_value_heads,
                num_attn_heads: cfg.text_config.num_attention_heads,
                sliding_window: Some(cfg.text_config.sliding_window),
                k_head_dim: cfg.text_config.global_head_dim,
                v_head_dim: cfg.text_config.global_head_dim,
                kv_cache_layout: KvCacheLayout::Standard,
        }
    }

    /// The parts that are not mapped to layers.
    pub fn non_mapped_sub_models(&self) -> (r: Option<Vec<NonMappedSubModel>>)
        ensures
            r matches Some(v) && v@ == seq![NonMappedSubModel::Vision],
    {
        Some(vec![NonMappedSubModel::Vision])
    }

    /// Whether rotary embeddings split a head in halves by default.
    pub fn is_gptx(&self) -> (r: bool)
        ensures
            r == true,
    {
        true
    }

    /// Whether encoder outputs can be cached.
    pub fn supports_encoder_cache(&self) -> (r: bool)
        ensures
            r == false,
    {
        false
    }

    /// Whether the model runs with paged attention.
    pub fn supports_paged_attention(&self, config: &str) -> (r: bool)
        ensures
            r
                == (json_text_at(config@, "/text_config/use_bidirectional_attention"@) != Some("all"@)),
    {
        supports_gemma4_incremental_cache(config)
    }

    /// Whether prompt prefixes can be cached.
    pub fn supports_prefix_cacher(&self, config: &str) -> (r: bool)
        ensures
            r
                == (json_text_at(config@, "/text_config/use_bidirectional_attention"@) != Some("all"@)),
    {
        supports_gemma4_incremental_cache(config)
    }

    /// How the input processor is set up. A model without a vision tower takes no
    /// images.
    pub fn get_processor(&self, cfg: &DiffusionGemmaConfig) -> (r: ProcessorSettings)
        ensures
            r.supports_images == cfg.vision_config is Some,
            match cfg.vision_config {
                Some(vc) => r.patch_size == vc.patch_size
                    && r.pooling_kernel_size == vc.pooling_kernel_size
                    && r.default_output_length == vc.default_output_length,
                None => r.patch_size == 16 && r.pooling_kernel_size == 1
                    && r.default_output_length == 0,
            },
            !r.supports_audio,
            r.raw_audio_frame_size is None,
            !r.is_unified,
            r.decode_window == Some(cfg.canvas_length),
            r.bidirectional_attention == cfg.text_config.bidirectional_attention,
            r.vision_attention_on_full_layers,
    {
        let (
            patch_size,
            pooling_kernel_size,
            default_output_length,
            supports_images,
        ): (usize, usize, usize, bool) = match &cfg.vision_config {
            Some(vc) => (vc.patch_size, vc.pooling_kernel_size, vc.default_output_length, true),
            None => (16, 1, 0, false),
        };
        ProcessorSettings {
            patch_size,
            pooling_kernel_size,
            default_output_length,
            supports_images,
            supports_audio: false,
            raw_audio_frame_size: None,
            is_unified: false,
            decode_window: Some(cfg.canvas_length),
            bidirectional_attention: cfg.text_config.bidirectional_attention,
            vision_attention_on_full_layers: true,
        }
    }

    /// What the model reads and writes: images only with a vision tower.
    pub fn modalities(&self, cfg: &DiffusionGemmaConfig) -> (r: Modalities)
        ensures
            r.reads(if cfg.vision_config is Some {
                seq![SupportedModality::Text, SupportedModality::Vision]
            } else {
                seq![SupportedModality::Text]
            }),
    {
        let mut input = vec![SupportedModality::Text];
        if cfg.vision_config.is_some() {
            input.push(SupportedModality::Vision);
        }
        Modalities { input, output: vec![SupportedModality::Text] }
    }

    /// Tensors that keep a higher precision when quantized.
    pub open spec fn promoted_isq_predicates_texts(&self) -> Seq<Seq<char>> {
        seq![r"^model\.decoder\.embed_tokens\.weight$"@] + seq![
            r"^model\.decoder\.lm_head\.(weight|bias)$"@,
        ]
    }

    /// Tensors that keep a higher precision when quantized.
    pub fn promoted_isq_predicates(&self) -> (r: Vec<String>)
        ensures
            texts(r@) == self.promoted_isq_predicates_texts(),
    {
        let mut out: Vec<String> = Vec::new();
        push_pattern(&mut out, r"^model\.decoder\.embed_tokens\.weight$");
        push_pattern(&mut out, r"^model\.decoder\.lm_head\.(weight|bias)$");
        assert(texts(out@) =~= self.promoted_isq_predicates_texts());
        out
    }

    /// Tensors that are quantized.
    pub open spec fn isq_layer_regexes_texts(&self) -> Seq<Seq<char>> {
        seq![LM_HEAD@] + family(
            ANY_LAYER@,
            attention_module_texts(),
            WEIGHT_OR_BIAS@,
        ) + family(ANY_LAYER@, mlp_module_texts(), WEIGHT_OR_BIAS@) + family(
                ANY_LAYER@,
                seq![
                    r"moe\.gate_up_proj"@,
                    r"moe\.down_proj"@,
                    r"experts\.gate_up_proj"@,
                    r"experts\.down_proj"@,
                ],
                r"\.weight$"@,
            )
    }

    /// Tensors that are quantized.
    pub fn isq_layer_regexes(&self) -> (r: Vec<String>)
        ensures
            texts(r@) == self.isq_layer_regexes_texts(),
    {
        let mut out: Vec<String> = Vec::new();
        push_pattern(&mut out, LM_HEAD);
        push_family(&mut out, ANY_LAYER, &attention_modules(), WEIGHT_OR_BIAS);
        push_family(&mut out, ANY_LAYER, &mlp_modules(), WEIGHT_OR_BIAS);
        let list0 = vec![
            r"moe\.gate_up_proj",
            r"moe\.down_proj",
            r"experts\.gate_up_proj",
            r"experts\.down_proj",
        ];
        assert(
            literals(list0@) =~= seq![
                r"moe\.gate_up_proj"@,
                r"moe\.down_proj"@,
                r"experts\.gate_up_proj"@,
                r"experts\.down_proj"@,
            ]
        );
        push_family(&mut out, ANY_LAYER, &list0, r"\.weight$");
        assert(texts(out@) =~= self.isq_layer_regexes_texts());
        out
    }

    /// Tensors that are quantized while they are loaded.
    pub open spec fn immediate_isq_predicates_texts(&self) -> Seq<Seq<char>> {
        seq![LM_HEAD@] + family(
            r"model\.decoder\.layers\.(\d+)\."@,
            attention_module_texts(),
            WEIGHT_OR_BIAS@,
        ) + family(
            r"model\.decoder\.layers\.(\d+)\."@,
            mlp_module_texts(),
            WEIGHT_OR_BIAS@,
        ) + family(
                r"model\.decoder\.layers\.(\d+)\."@,
                seq![
                    r"moe\.gate_up_proj"@,
                    r"moe\.down_proj"@,
                    r"experts\.gate_up_proj"@,
                    r"experts\.down_proj"@,
                ],
                r"\.weight$"@,
            )
    }

    /// Tensors that are quantized while they are loaded.
    pub fn immediate_isq_predicates(&self) -> (r: Vec<String>)
        ensures
            texts(r@) == self.immediate_isq_predicates_texts(),
    {
        let mut out: Vec<String> = Vec::new();
        push_pattern(&mut out, LM_HEAD);
        push_family(
            &mut out,
            r"model\.decoder\.layers\.(\d+)\.",
            &attention_modules(),
            WEIGHT_OR_BIAS,
        );
        push_family(&mut out, r"model\.decoder\.layers\.(\d+)\.", &mlp_modules(), WEIGHT_OR_BIAS);
        let list0 = vec![
            r"moe\.gate_up_proj",
            r"moe\.down_proj",
            r"experts\.gate_up_proj",
            r"experts\.down_proj",
        ];
        assert(
            literals(list0@) =~= seq![
                r"moe\.gate_up_proj"@,
                r"moe\.down_proj"@,
                r"experts\.gate_up_proj"@,
                r"experts\.down_proj"@,
            ]
        );
        push_family(&mut out, r"model\.decoder\.layers\.(\d+)\.", &list0, r"\.weight$");
        assert(texts(out@) =~= self.immediate_isq_predicates_texts());
        out
    }
}

} // verus!
