//! Llama 4.

use vstd::prelude::*;

use crate::loaders::{
    AutoDeviceMapParams, KvCacheLayout, LoaderError, Modalities, ModelConfigMetadata,
    NonMappedSubModel, PackFactors, PackLookup, SupportedModality,
};
use crate::loaders::patterns::{
    ANY_LAYER, LM_HEAD, WEIGHT_OR_BIAS, attention_module_texts, attention_modules, family, literals,
    push_family, push_pattern, texts,
};
use crate::loaders::sizes::{
    attention, attention_elems, attention_fits, biased_linear, biased_linear_elems,
    biased_linear_fits, gated_mlp, gated_mlp_elems, gated_mlp_fits, scores, scores_elems,
    scores_fits, smaller, smaller_elems, text_head, text_head_elems, text_head_fits,
    word,
};
use crate::lists::{contains_index};
use crate::tensor::{DType};
use crate::text::{repeat, repeated};

verus! {

/// What the sizes of the text model depend on.
#[derive(Debug, Clone, Copy, PartialEq, Eq, Structural)]
pub struct Llama4TextConfig {
    pub hidden_size: usize,
    pub vocab_size: usize,
    pub num_hidden_layers: usize,
    pub num_attention_heads: usize,
    pub num_key_value_heads: usize,
    pub intermediate_size: usize,
    pub max_position_embeddings: usize,
    pub intermediate_size_mlp: usize,
    pub num_local_experts: usize,
    pub attention_chunk_size: usize,
    pub tie_word_embeddings: bool,
}

/// What the sizes of the vision tower depend on.
#[derive(Debug, Clone, Copy, PartialEq, Eq, Structural)]
pub struct Llama4VisionConfig {
    pub hidden_size: usize,
    pub intermediate_size: usize,
    pub num_hidden_layers: usize,
    pub num_attention_heads: usize,
    pub num_channels: usize,
    pub patch_size: usize,
    pub num_patches: usize,
    pub projector_input_dim: usize,
    pub projector_output_dim: usize,
}

/// What the sizes depend on.
#[derive(Debug, Clone, Copy, PartialEq, Eq, Structural)]
pub struct Llama4Config {
    pub text_config: Llama4TextConfig,
    pub vision_config: Llama4VisionConfig,
}

/// What comes out of the image processor for a batch of the largest images, and
/// how the processor cuts it: the number of chunks, their height and width, the
/// side of a patch, and how many patches become one token.
#[derive(Debug, Clone, Copy, PartialEq, Eq, Structural)]
pub struct ProcessedPixels {
    pub batch: usize,
    pub height: usize,
    pub width: usize,
    pub patch_size: usize,
    pub downsample_ratio: usize,
}

/// Chunks of all images of a batch.
pub open spec fn vllama4_pixel_batch_elems(pixels: ProcessedPixels, batch: int) -> int {
    let chunks = pixels.batch as int;
    chunks * batch
}

/// Every step of `vllama4_pixel_batch` fits a machine word.
pub open spec fn vllama4_pixel_batch_fits(pixels: ProcessedPixels, batch: int) -> bool {
    let chunks = pixels.batch as int;
    &&& word(chunks * batch)
}

/// Chunks of all images of a batch.
pub fn vllama4_pixel_batch(pixels: &ProcessedPixels, batch: usize) -> (r: usize)
    requires
        vllama4_pixel_batch_fits(*pixels, batch as int),
    ensures
        r == vllama4_pixel_batch_elems(*pixels, batch as int),
{
    let chunks: usize = pixels.batch;
    chunks * batch
}

/// Tokens of all images of a batch.
pub open spec fn vllama4_image_tokens_elems(pixels: ProcessedPixels, batch: int) -> int {
    let height = pixels.height as int;
    let width = pixels.width as int;
    let patch = pixels.patch_size as int;
    let ratio = pixels.downsample_ratio as int;
    let chunks = vllama4_pixel_batch_elems(pixels, batch);
    let per_chunk = height / patch * (width / patch) / ratio;
    per_chunk * chunks
}

/// Every step of `vllama4_image_tokens` fits a machine word.
pub open spec fn vllama4_image_tokens_fits(pixels: ProcessedPixels, batch: int) -> bool {
    let height = pixels.height as int;
    let width = pixels.width as int;
    let patch = pixels.patch_size as int;
    let ratio = pixels.downsample_ratio as int;
    let chunks = vllama4_pixel_batch_elems(pixels, batch);
    let per_chunk = height / patch * (width / patch) / ratio;
    &&& vllama4_pixel_batch_fits(pixels, batch)
    &&& patch > 0
    &&& word(height / patch * (width / patch))
    &&& ratio > 0
    &&& word(per_chunk * chunks)
}

/// Tokens of all images of a batch.
pub fn vllama4_image_tokens(pixels: &ProcessedPixels, batch: usize) -> (r: usize)
    requires
        vllama4_image_tokens_fits(*pixels, batch as int),
    ensures
        r == vllama4_image_tokens_elems(*pixels, batch as int),
{
    let height: usize = pixels.height;
    let width: usize = pixels.width;
    let patch: usize = pixels.patch_size;
    let ratio: usize = pixels.downsample_ratio;
    let chunks: usize = vllama4_pixel_batch(pixels, batch);
    let per_chunk: usize = height / patch * (width / patch) / ratio;
    per_chunk * chunks
}

/// Scores of a prompt chunk with its images.
pub open spec fn vllama4_mapped_act_elems(
    cfg: Llama4Config,
    pixels: ProcessedPixels,
    seq: int,
    batch: int,
    chunk: int,
) -> int {
    let heads = cfg.text_config.num_attention_heads as int;
    let tokens = vllama4_image_tokens_elems(pixels, batch);
    let total = smaller_elems(seq, chunk) + tokens;
    scores_elems(batch, heads, total, total)
}

/// Every step of `vllama4_mapped_act` fits a machine word.
pub open spec fn vllama4_mapped_act_fits(
    cfg: Llama4Config,
    pixels: ProcessedPixels,
    seq: int,
    batch: int,
    chunk: int,
) -> bool {
    let heads = cfg.text_config.num_attention_heads as int;
    let tokens = vllama4_image_tokens_elems(pixels, batch);
    let total = smaller_elems(seq, chunk) + tokens;
    &&& vllama4_image_tokens_fits(pixels, batch)
    &&& word(smaller_elems(seq, chunk) + tokens)
    &&& scores_fits(batch, heads, total, total)
}

/// Scores of a prompt chunk with its images.
pub fn vllama4_mapped_act(
    cfg: &Llama4Config,
    pixels: &ProcessedPixels,
    seq: usize,
    batch: usize,
    chunk: usize,
) -> (r: usize)
    requires
        vllama4_mapped_act_fits(*cfg, *pixels, seq as int, batch as int, chunk as int),
    ensures
        r == vllama4_mapped_act_elems(*cfg, *pixels, seq as int, batch as int, chunk as int),
{
    let heads: usize = cfg.text_config.num_attention_heads;
    let tokens: usize = vllama4_image_tokens(pixels, batch);
    let total: usize = smaller(seq, chunk) + tokens;
    scores(batch, heads, total, total)
}

/// Scores of the vision tower.
pub open spec fn vllama4_vision_act_elems(
    cfg: Llama4Config,
    pixels: ProcessedPixels,
    batch: int,
) -> int {
    let heads = cfg.vision_config.num_attention_heads as int;
    let patches = cfg.vision_config.num_patches as int;
    let chunks = vllama4_pixel_batch_elems(pixels, batch);
    let items = batch * chunks;
    scores_elems(items, heads, patches, patches)
}

/// Every step of `vllama4_vision_act` fits a machine word.
pub open spec fn vllama4_vision_act_fits(
    cfg: Llama4Config,
    pixels: ProcessedPixels,
    batch: int,
) -> bool {
    let heads = cfg.vision_config.num_attention_heads as int;
    let patches = cfg.vision_config.num_patches as int;
    let chunks = vllama4_pixel_batch_elems(pixels, batch);
    let items = batch * chunks;
    &&& vllama4_pixel_batch_fits(pixels, batch)
    &&& word(batch * chunks)
    &&& scores_fits(items, heads, patches, patches)
}

/// Scores of the vision tower.
pub fn vllama4_vision_act(cfg: &Llama4Config, pixels: &ProcessedPixels, batch: usize) -> (r: usize)
    requires
        vllama4_vision_act_fits(*cfg, *pixels, batch as int),
    ensures
        r == vllama4_vision_act_elems(*cfg, *pixels, batch as int),
{
    let heads: usize = cfg.vision_config.num_attention_heads;
    let patches: usize = cfg.vision_config.num_patches;
    let chunks: usize = vllama4_pixel_batch(pixels, batch);
    let items: usize = batch * chunks;
    scores(items, heads, patches, patches)
}

/// A layer of the vision tower.
pub open spec fn vllama4_encoder_layer_elems(cfg: Llama4VisionConfig) -> int {
    let hidden = cfg.hidden_size as int;
    let heads = cfg.num_attention_heads as int;
    let width = cfg.intermediate_size as int;
    let norm = hidden + hidden;
    let head = hidden / heads;
    let proj = hidden * heads * head + heads * head;
    let fc1 = biased_linear_elems(hidden, width);
    let fc2 = biased_linear_elems(width, hidden);
    norm + norm + proj + proj + proj + proj + fc1 + fc2
}

/// Every step of `vllama4_encoder_layer` fits a machine word.
pub open spec fn vllama4_encoder_layer_fits(cfg: Llama4VisionConfig) -> bool {
    let hidden = cfg.hidden_size as int;
    let heads = cfg.num_attention_heads as int;
    let width = cfg.intermediate_size as int;
    let norm = hidden + hidden;
    let head = hidden / heads;
    let proj = hidden * heads * head + heads * head;
    let fc1 = biased_linear_elems(hidden, width);
    let fc2 = biased_linear_elems(width, hidden);
    &&& word(hidden + hidden)
    &&& heads > 0
    &&& word(hidden * heads)
    &&& word(hidden * heads * head)
    &&& word(heads * head)
    &&& word(hidden * heads * head + heads * head)
    &&& biased_linear_fits(hidden, width)
    &&& biased_linear_fits(width, hidden)
    &&& word(norm + norm + proj + proj + proj + proj + fc1 + fc2)
}

/// A layer of the vision tower.
pub fn vllama4_encoder_layer(cfg: &Llama4VisionConfig) -> (r: usize)
    requires
        vllama4_encoder_layer_fits(*cfg),
    ensures
        r == vllama4_encoder_layer_elems(*cfg),
{
    let hidden: usize = cfg.hidden_size;
    let heads: usize = cfg.num_attention_heads;
    let width: usize = cfg.intermediate_size;
    let norm: usize = hidden + hidden;
    let head: usize = hidden / heads;
    let proj: usize = hidden * heads * head + heads * head;
    let fc1: usize = biased_linear(hidden, width);
    let fc2: usize = biased_linear(width, hidden);
    norm + norm + proj + proj + proj + proj + fc1 + fc2
}

/// The vision tower.
pub open spec fn vllama4_vision_elems(cfg: Llama4VisionConfig) -> int {
    let hidden = cfg.hidden_size as int;
    let width = cfg.intermediate_size as int;
    let channels = cfg.num_channels as int;
    let patch = cfg.patch_size as int;
    let patches = cfg.num_patches as int;
    let proj_in = cfg.projector_input_dim as int;
    let proj_out = cfg.projector_output_dim as int;
    let layers = cfg.num_hidden_layers as int;
    let unfold = channels * patch * patch * hidden;
    let positions = patches * hidden;
    let pixel_shuffle = width * proj_in + proj_in * proj_out;
    let layer = vllama4_encoder_layer_elems(cfg);
    unfold + hidden + positions + hidden + hidden + pixel_shuffle + layer * layers
}

/// Every step of `vllama4_vision` fits a machine word.
pub open spec fn vllama4_vision_fits(cfg: Llama4VisionConfig) -> bool {
    let hidden = cfg.hidden_size as int;
    let width = cfg.intermediate_size as int;
    let channels = cfg.num_channels as int;
    let patch = cfg.patch_size as int;
    let patches = cfg.num_patches as int;
    let proj_in = cfg.projector_input_dim as int;
    let proj_out = cfg.projector_output_dim as int;
    let layers = cfg.num_hidden_layers as int;
    let unfold = channels * patch * patch * hidden;
    let positions = patches * hidden;
    let pixel_shuffle = width * proj_in + proj_in * proj_out;
    let layer = vllama4_encoder_layer_elems(cfg);
    &&& word(channels * patch)
    &&& word(channels * patch * patch)
    &&& word(channels * patch * patch * hidden)
    &&& word(patches * hidden)
    &&& word(width * proj_in)
    &&& word(proj_in * proj_out)
    &&& word(width * proj_in + proj_in * proj_out)
    &&& vllama4_encoder_layer_fits(cfg)
    &&& word(layer * layers)
    &&& word(unfold + hidden + positions + hidden + hidden + pixel_shuffle + layer * layers)
}

/// The vision tower.
pub fn vllama4_vision(cfg: &Llama4VisionConfig) -> (r: usize)
    requires
        vllama4_vision_fits(*cfg),
    ensures
        r == vllama4_vision_elems(*cfg),
{
    let hidden: usize = cfg.hidden_size;
    let width: usize = cfg.intermediate_size;
    let channels: usize = cfg.num_channels;
    let patch: usize = cfg.patch_size;
    let patches: usize = cfg.num_patches;
    let proj_in: usize = cfg.projector_input_dim;
    let proj_out: usize = cfg.projector_output_dim;
    let layers: usize = cfg.num_hidden_layers;
    let unfold: usize = channels * patch * patch * hidden;
    let positions: usize = patches * hidden;
    let pixel_shuffle: usize = width * proj_in + proj_in * proj_out;
    let layer: usize = vllama4_encoder_layer(cfg);
    unfold + hidden + positions + hidden + hidden + pixel_shuffle + layer * layers
}

/// What is not mapped to layers.
pub open spec fn vllama4_non_mapped_elems(cfg: Llama4Config, packs: PackFactors) -> int {
    let hidden = cfg.text_config.hidden_size as int;
    let vocab = cfg.text_config.vocab_size as int;
    let embed_pack = packs.embed_tokens as int;
    let head_pack = packs.lm_head as int;
    let tied = cfg.text_config.tie_word_embeddings;
    let text = text_head_elems(hidden, vocab, tied, embed_pack, head_pack);
    let vision = vllama4_vision_elems(cfg.vision_config);
    text + vision
}

/// Every step of `vllama4_non_mapped` fits a machine word.
pub open spec fn vllama4_non_mapped_fits(cfg: Llama4Config, packs: PackFactors) -> bool {
    let hidden = cfg.text_config.hidden_size as int;
    let vocab = cfg.text_config.vocab_size as int;
    let embed_pack = packs.embed_tokens as int;
    let head_pack = packs.lm_head as int;
    let tied = cfg.text_config.tie_word_embeddings;
    let text = text_head_elems(hidden, vocab, tied, embed_pack, head_pack);
    let vision = vllama4_vision_elems(cfg.vision_config);
    &&& text_head_fits(hidden, vocab, tied, embed_pack, head_pack)
    &&& vllama4_vision_fits(cfg.vision_config)
    &&& word(text + vision)
}

/// What is not mapped to layers.
pub fn vllama4_non_mapped(cfg: &Llama4Config, packs: PackFactors) -> (r: usize)
    requires
        vllama4_non_mapped_fits(*cfg, packs),
    ensures
        r == vllama4_non_mapped_elems(*cfg, packs),
{
    let hidden: usize = cfg.text_config.hidden_size;
    let vocab: usize = cfg.text_config.vocab_size;
    let embed_pack: usize = packs.embed_tokens;
    let head_pack: usize = packs.lm_head;
    let tied: bool = cfg.text_config.tie_word_embeddings;
    let text: usize = text_head(hidden, vocab, tied, embed_pack, head_pack);
    let vision: usize = vllama4_vision(&cfg.vision_config);
    text + vision
}

/// The routed experts.
pub open spec fn vllama4_experts_elems(cfg: Llama4TextConfig, pack: int) -> int {
    let experts = cfg.num_local_experts as int;
    let hidden = cfg.hidden_size as int;
    let width = cfg.intermediate_size as int;
    let gate = experts * hidden * width / pack;
    let down = experts * width * hidden / pack;
    gate + gate + down
}

/// Every step of `vllama4_experts` fits a machine word.
pub open spec fn vllama4_experts_fits(cfg: Llama4TextConfig, pack: int) -> bool {
    let experts = cfg.num_local_experts as int;
    let hidden = cfg.hidden_size as int;
    let width = cfg.intermediate_size as int;
    let gate = experts * hidden * width / pack;
    let down = experts * width * hidden / pack;
    &&& word(experts * hidden)
    &&& word(experts * hidden * width)
    &&& pack > 0
    &&& word(experts * width)
    &&& word(experts * width * hidden)
    &&& word(gate + gate + down)
}

/// The routed experts.
pub fn vllama4_experts(cfg: &Llama4TextConfig, pack: usize) -> (r: usize)
    requires
        vllama4_experts_fits(*cfg, pack as int),
    ensures
        r == vllama4_experts_elems(*cfg, pack as int),
{
    let experts: usize = cfg.num_local_experts;
    let hidden: usize = cfg.hidden_size;
    let width: usize = cfg.intermediate_size;
    let gate: usize = experts * hidden * width / pack;
    let down: usize = experts * width * hidden / pack;
    gate + gate + down
}

/// A decoder layer with routed experts or a dense block.
pub open spec fn vllama4_layer_elems(cfg: Llama4Config, moe: bool, pack: int) -> int {
    let hidden = cfg.text_config.hidden_size as int;
    let heads = cfg.text_config.num_attention_heads as int;
    let kv_heads = cfg.text_config.num_key_value_heads as int;
    let mlp_width = cfg.text_config.intermediate_size_mlp as int;
    let size_q = hidden / heads * heads;
    let size_kv = hidden / heads * kv_heads;
    let attn = attention_elems(hidden, size_q, size_kv, pack);
    let text = cfg.text_config;
    let block = if moe {
        vllama4_experts_elems(text, pack)
    } else {
        gated_mlp_elems(hidden, mlp_width, pack)
    };
    hidden + hidden + attn + block
}

/// Every step of `vllama4_layer` fits a machine word.
pub open spec fn vllama4_layer_fits(cfg: Llama4Config, moe: bool, pack: int) -> bool {
    let hidden = cfg.text_config.hidden_size as int;
    let heads = cfg.text_config.num_attention_heads as int;
    let kv_heads = cfg.text_config.num_key_value_heads as int;
    let mlp_width = cfg.text_config.intermediate_size_mlp as int;
    let size_q = hidden / heads * heads;
    let size_kv = hidden / heads * kv_heads;
    let attn = attention_elems(hidden, size_q, size_kv, pack);
    let text = cfg.text_config;
    let block = if moe {
        vllama4_experts_elems(text, pack)
    } else {
        gated_mlp_elems(hidden, mlp_width, pack)
    };
    &&& heads > 0
    &&& word(hidden / heads * heads)
    &&& word(hidden / heads * kv_heads)
    &&& attention_fits(hidden, size_q, size_kv, pack)
    &&& moe ==> vllama4_experts_fits(text, pack)
    &&& !moe ==> gated_mlp_fits(hidden, mlp_width, pack)
    &&& word(hidden + hidden + attn + block)
}

/// A decoder layer with routed experts or a dense block.
pub fn vllama4_layer(cfg: &Llama4Config, moe: bool, pack: usize) -> (r: usize)
    requires
        vllama4_layer_fits(*cfg, moe, pack as int),
    ensures
        r == vllama4_layer_elems(*cfg, moe, pack as int),
{
    let hidden: usize = cfg.text_config.hidden_size;
    let heads: usize = cfg.text_config.num_attention_heads;
    let kv_heads: usize = cfg.text_config.num_key_value_heads;
    let mlp_width: usize = cfg.text_config.intermediate_size_mlp;
    let size_q: usize = hidden / heads * heads;
    let size_kv: usize = hidden / heads * kv_heads;
    let attn: usize = attention(hidden, size_q, size_kv, pack);
    let block: usize = if moe {
        vllama4_experts(&cfg.text_config, pack)
    } else {
        gated_mlp(hidden, mlp_width, pack)
    };
    hidden + hidden + attn + block
}

/// Marks the media of Llama 4 prompts.
pub struct VLlama4Prefixer;

impl VLlama4Prefixer {
    /// The prompt behind one mark for each image.
    pub fn prefix_image(
        &self,
        image_token: &str,
        image_indexes: &Vec<usize>,
        prompt: &str,
    ) -> (r: String)
        ensures
            r@ == repeated(image_token@, image_indexes@.len()) + prompt@,
    {
        let mut s: String = repeat(image_token, image_indexes.len());
        s.append(prompt);
        s
    }
}

/// Loader of Llama 4 models.
pub struct VLlama4Loader;

impl VLlama4Loader {
    /// The chunks and the tokens of the images of a batch.
    pub fn run_dummy_processing(
        &self,
        pixels: &ProcessedPixels,
        max_batch_size: usize,
    ) -> (r: (usize, usize))
        requires
            vllama4_image_tokens_fits(*pixels, max_batch_size as int),
        ensures
            r.0 == vllama4_pixel_batch_elems(*pixels, max_batch_size as int),
            r.1 == vllama4_image_tokens_elems(*pixels, max_batch_size as int),
    {
        (vllama4_pixel_batch(pixels, max_batch_size), vllama4_image_tokens(pixels, max_batch_size))
    }

    /// Elements of the largest activation of a layer.
    pub fn mapped_max_act_size_elems(
        &self,
        cfg: &Llama4Config,
        pixels: &ProcessedPixels,
        params: &AutoDeviceMapParams,
        attention_chunk: usize,
    ) -> (r: Result<usize, LoaderError>)
        requires
            match *params {
                AutoDeviceMapParams::Multimodal {
                    max_seq_len,
                    max_batch_size,
                    ..
                } => vllama4_mapped_act_fits(
                    *cfg,
                    *pixels,
                    max_seq_len as int,
                    max_batch_size as int,
                    attention_chunk as int,
                ),
                _ => true,
            },
        ensures
            match *params {
                AutoDeviceMapParams::Multimodal {
                    max_seq_len,
                    max_batch_size,
                    ..
                } => r matches Ok(n) && n == vllama4_mapped_act_elems(
                    *cfg,
                    *pixels,
                    max_seq_len as int,
                    max_batch_size as int,
                    attention_chunk as int,
                ),
                _ => r == Err::<usize, LoaderError>(LoaderError::ExpectedMultimodal),
            },
    {
        match params {
            AutoDeviceMapParams::Multimodal { max_seq_len, max_batch_size, .. } => Ok(
                vllama4_mapped_act(cfg, pixels, *max_seq_len, *max_batch_size, attention_chunk),
            ),
            _ => Err(LoaderError::ExpectedMultimodal),
        }
    }

    /// Elements of the largest activation outside the layers.
    pub fn non_mapped_max_act_size_elems(
        &self,
        cfg: &Llama4Config,
        pixels: &ProcessedPixels,
        params: &AutoDeviceMapParams,
    ) -> (r: Result<usize, LoaderError>)
        requires
            match *params {
                AutoDeviceMapParams::Multimodal { max_batch_size, .. } => vllama4_vision_act_fits(
                    *cfg,
                    *pixels,
                    max_batch_size as int,
                ),
                _ => true,
            },
        ensures
            match *params {
                AutoDeviceMapParams::Multimodal {
                    max_batch_size,
                    ..
                } => r matches Ok(n) && n == vllama4_vision_act_elems(
                    *cfg,
                    *pixels,
                    max_batch_size as int,
                ),
                _ => r == Err::<usize, LoaderError>(LoaderError::ExpectedMultimodal),
            },
    {
        match params {
            AutoDeviceMapParams::Multimodal { max_batch_size, .. } => Ok(
                vllama4_vision_act(cfg, pixels, *max_batch_size),
            ),
            _ => Err(LoaderError::ExpectedMultimodal),
        }
    }

    /// The tensors by whose quantization the pack factors are known.
    pub fn pack_lookup(&self, cfg: &Llama4Config) -> (r: PackLookup)
        ensures
            r.asks(
                seq!["language_model.model.embed_tokens.weight"@],
                "language_model.lm_head.weight"@,
                cfg.text_config.tie_word_embeddings,
            ),
    {
        let embed_tokens = vec!["language_model.model.embed_tokens.weight"];
        assert(literals(embed_tokens@) =~= seq!["language_model.model.embed_tokens.weight"@]);
        PackLookup {
            embed_tokens,
            lm_head: "language_model.lm_head.weight",
            tied: cfg.text_config.tie_word_embeddings,
        }
    }

    /// Bytes of what is not mapped to layers.
    pub fn non_mapped_size_in_bytes(
        &self,
        cfg: &Llama4Config,
        dtype: DType,
        packs: PackFactors,
    ) -> (r: usize)
        requires
            vllama4_non_mapped_fits(*cfg, packs),
            word(vllama4_non_mapped_elems(*cfg, packs) * dtype.bytes()),
        ensures
            r == vllama4_non_mapped_elems(*cfg, packs) * dtype.bytes(),
    {
        let elems: usize = vllama4_non_mapped(cfg, packs);
        elems * dtype.size_in_bytes()
    }

    /// Bytes of each layer. Those listed have routed experts.
    pub fn layer_sizes_in_bytes(
        &self,
        cfg: &Llama4Config,
        moe_layers: &Vec<usize>,
        dtype: DType,
        weight_pack_factor: usize,
    ) -> (r: Vec<usize>)
        requires
            forall|i: int| 0 <= i < cfg.text_config.num_hidden_layers
                ==> #[trigger] vllama4_layer_fits(
                    *cfg,
                    moe_layers@.contains(i as usize),
                    weight_pack_factor as int,
                )
                    && word(
                        vllama4_layer_elems(
                            *cfg,
                            moe_layers@.contains(i as usize),
                            weight_pack_factor as int,
                        ) * dtype.bytes(),
                    ),
        ensures
            r@.len() == cfg.text_config.num_hidden_layers,
            forall|i: int| 0 <= i < r@.len()
                ==> #[trigger] r@[i] == vllama4_layer_elems(
                    *cfg,
                    moe_layers@.contains(i as usize),
                    weight_pack_factor as int,
                ) * dtype.bytes(),
    {
        let n: usize = cfg.text_config.num_hidden_layers;
        let mut r: Vec<usize> = Vec::with_capacity(n);
        let mut i: usize = 0;
        while i < n
            invariant
                i <= n == cfg.text_config.num_hidden_layers,
                r@.len() == i,
                forall|j: int| 0 <= j < cfg.text_config.num_hidden_layers
                    ==> #[trigger] vllama4_layer_fits(
                        *cfg,
                        moe_layers@.contains(j as usize),
                        weight_pack_factor as int,
                    )
                        && word(
                            vllama4_layer_elems(
                                *cfg,
                                moe_layers@.contains(j as usize),
                                weight_pack_factor as int,
                            ) * dtype.bytes(),
                        ),
                forall|j: int| 0 <= j < i
                    ==> #[trigger] r@[j] == vllama4_layer_elems(
                        *cfg,
                        moe_layers@.contains(j as usize),
                        weight_pack_factor as int,
                    ) * dtype.bytes(),
            decreases n - i,
        {
            let listed: bool = contains_index(moe_layers, i);
            assert(
                vllama4_layer_fits(
                    *cfg,
                    moe_layers@.contains(i as int as usize),
                    weight_pack_factor as int,
                )
            );
            let elems: usize = vllama4_layer(cfg, listed, weight_pack_factor);
            r.push(elems * dtype.size_in_bytes());
            i += 1;
        }
        r
    }

    /// Number of layers.
    pub fn num_layers(&self, cfg: &Llama4Config) -> (r: usize)
        ensures
            r == cfg.text_config.num_hidden_layers,
    {
        cfg.text_config.num_hidden_layers
    }

    /// What the paged cache needs to know of the model.
    pub fn model_config(&self, cfg: &Llama4Config) -> (r: ModelConfigMetadata)
        requires
            cfg.text_config.num_attention_heads > 0,
        ensures
            r == (ModelConfigMetadata {
                max_seq_len: cfg.text_config.max_position_embeddings,
                num_layers: cfg.text_config.num_hidden_layers,
                hidden_size: cfg.text_config.hidden_size,
                num_kv_heads: cfg.text_config.num_key_value_heads,
                num_attn_heads: cfg.text_config.num_attention_heads,
                sliding_window: Some(cfg.text_config.attention_chunk_size),
                k_head_dim: cfg.text_config.hidden_size / cfg.text_config.num_attention_heads,
                v_head_dim: cfg.text_config.hidden_size / cfg.text_config.num_attention_heads,
                kv_cache_layout: KvCacheLayout::StandardNoFlashInfer,
            }),
    {
        ModelConfigMetadata {
                max_seq_len: cfg.text_config.max_position_embeddings,
                num_layers: cfg.text_config.num_hidden_layers,
                hidden_size: cfg.text_config.hidden_size,
                num_kv_heads: cfg.text_config.num_key_value_heads,
                num_attn_heads: cfg.text_config.num_attention_heads,
                sliding_window: Some(cfg.text_config.attention_chunk_size),
                k_head_dim: cfg.text_config.hidden_size / cfg.text_config.num_attention_heads,
                v_head_dim: cfg.text_config.hidden_size / cfg.text_config.num_attention_heads,
                kv_cache_layout: KvCacheLayout::StandardNoFlashInfer,
        }
    }

    /// The parts that are not mapped to layers.
    pub fn non_mapped_sub_models(&self) -> (r: Option<Vec<NonMappedSubModel>>)
        ensures
            r matches Some(v) && v@ == seq![NonMappedSubModel::Vision],
    {
        Some(vec![NonMappedSubModel::Vision])
    }

    /// What the model reads and writes.
    pub fn modalities(&self) -> (r: Modalities)
        ensures
            r.reads(seq![SupportedModality::Text, SupportedModality::Vision]),
    {
        Modalities {
            input: vec![SupportedModality::Text, SupportedModality::Vision],
            output: vec![SupportedModality::Text],
        }
    }

    /// Whether rotary embeddings split a head in halves by default.
    pub fn is_gptx(&self) -> (r: bool)
        ensures
            r == false,
    {
        false
    }

    /// Whether the model runs with paged attention.
    pub fn supports_paged_attention(&self) -> (r: bool)
        ensures
            r == true,
    {
        true
    }

    /// Whether encoder outputs can be cached.
    pub fn supports_encoder_cache(&self) -> (r: bool)
        ensures
            r == true,
    {
        true
    }

    /// Whether prompt prefixes can be cached.
    pub fn supports_prefix_cacher(&self) -> (r: bool)
        ensures
            r == false,
    {
        false
    }

    /// Tensors that keep a higher precision when quantized.
    pub open spec fn promoted_isq_predicates_texts(&self) -> Seq<Seq<char>> {
        seq![
            r"^language_model\.model\.embed_tokens\.weight$"@,
        ] + seq![r"^language_model\.lm_head\.(weight|bias)$"@]
    }

    /// Tensors that keep a higher precision when quantized.
    pub fn promoted_isq_predicates(&self) -> (r: Vec<String>)
        ensures
            texts(r@) == self.promoted_isq_predicates_texts(),
    {
        let mut out: Vec<String> = Vec::new();
        push_pattern(&mut out, r"^language_model\.model\.embed_tokens\.weight$");
        push_pattern(&mut out, r"^language_model\.lm_head\.(weight|bias)$");
        assert(texts(out@) =~= self.promoted_isq_predicates_texts());
        out
    }

    /// Tensors that are quantized.
    pub open spec fn isq_layer_regexes_texts(&self) -> Seq<Seq<char>> {
        seq![LM_HEAD@] + family(ANY_LAYER@, attention_module_texts(), WEIGHT_OR_BIAS@) + family(
                ANY_LAYER@,
                seq![
                    r"feed_forward\.experts\.gate_up_proj"@,
                    r"feed_forward\.experts\.gate_proj"@,
                    r"feed_forward\.experts\.up_proj"@,
                    r"feed_forward\.experts\.down_proj"@,
                    r"feed_forward\.router"@,
                    r"feed_forward\.shared_expert\.gate_proj"@,
                    r"feed_forward\.shared_expert\.up_proj"@,
                    r"feed_forward\.shared_expert\.down_proj"@,
                    r"feed_forward\.gate_proj"@,
                    r"feed_forward\.up_proj"@,
                    r"feed_forward\.down_proj"@,
                ],
                WEIGHT_OR_BIAS@,
            )
    }

    /// Tensors that are quantized.
    pub fn isq_layer_regexes(&self) -> (r: Vec<String>)
        ensures
            texts(r@) == self.isq_layer_regexes_texts(),
    {
        let mut out: Vec<String> = Vec::new();
        push_pattern(&mut out, LM_HEAD);
        push_family(&mut out, ANY_LAYER, &attention_modules(), WEIGHT_OR_BIAS);
        let list0 = vec![
            r"feed_forward\.experts\.gate_up_proj",
            r"feed_forward\.experts\.gate_proj",
            r"feed_forward\.experts\.up_proj",
            r"feed_forward\.experts\.down_proj",
            r"feed_forward\.router",
            r"feed_forward\.shared_expert\.gate_proj",
            r"feed_forward\.shared_expert\.up_proj",
            r"feed_forward\.shared_expert\.down_proj",
            r"feed_forward\.gate_proj",
            r"feed_forward\.up_proj",
            r"feed_forward\.down_proj",
        ];
        assert(
            literals(list0@) =~= seq![
                r"feed_forward\.experts\.gate_up_proj"@,
                r"feed_forward\.experts\.gate_proj"@,
                r"feed_forward\.experts\.up_proj"@,
                r"feed_forward\.experts\.down_proj"@,
                r"feed_forward\.router"@,
                r"feed_forward\.shared_expert\.gate_proj"@,
                r"feed_forward\.shared_expert\.up_proj"@,
                r"feed_forward\.shared_expert\.down_proj"@,
                r"feed_forward\.gate_proj"@,
                r"feed_forward\.up_proj"@,
                r"feed_forward\.down_proj"@,
            ]
        );
        push_family(&mut out, ANY_LAYER, &list0, WEIGHT_OR_BIAS);
        assert(texts(out@) =~= self.isq_layer_regexes_texts());
        out
    }

    /// Tensors that are quantized while they are loaded.
    pub open spec fn immediate_isq_predicates_texts(&self) -> Seq<Seq<char>> {
        seq![LM_HEAD@] + family(
            r"language_model\.model\.layers\.(\d+)\."@,
            attention_module_texts(),
            WEIGHT_OR_BIAS@,
        ) + family(
                r"language_model\.model\.layers\.(\d+)\."@,
                seq![
                    r"feed_forward\.experts\.(\d+)\.gate_up_proj"@,
                    r"feed_forward\.experts\.(\d+)\.gate_proj"@,
                    r"feed_forward\.experts\.(\d+)\.up_proj"@,
                    r"feed_forward\.experts\.(\d+)\.down_proj"@,
                ],
                WEIGHT_OR_BIAS@,
            ) + seq![
                r"language_model\.model\.layers\.(\d+)\.feed_forward\.experts\.(gate_proj|up_proj|down_proj)\.weight$"@,
            ] + family(
                r"language_model\.model\.layers\.(\d+)\."@,
                seq![
                    r"feed_forward\.router"@,
                    r"feed_forward\.shared_expert\.gate_proj"@,
                    r"feed_forward\.shared_expert\.up_proj"@,
                    r"feed_forward\.shared_expert\.down_proj"@,
                    r"feed_forward\.gate_proj"@,
                    r"feed_forward\.up_proj"@,
                    r"feed_forward\.down_proj"@,
                ],
                WEIGHT_OR_BIAS@,
            )
    }

    /// Tensors that are quantized while they are loaded.
    pub fn immediate_isq_predicates(&self) -> (r: Vec<String>)
        ensures
            texts(r@) == self.immediate_isq_predicates_texts(),
    {
        let mut out: Vec<String> = Vec::new();
        push_pattern(&mut out, LM_HEAD);
        push_family(
            &mut out,
            r"language_model\.model\.layers\.(\d+)\.",
            &attention_modules(),
            WEIGHT_OR_BIAS,
        );
        let list0 = vec![
            r"feed_forward\.experts\.(\d+)\.gate_up_proj",
            r"feed_forward\.experts\.(\d+)\.gate_proj",
            r"feed_forward\.experts\.(\d+)\.up_proj",
            r"feed_forward\.experts\.(\d+)\.down_proj",
        ];
        assert(
            literals(list0@) =~= seq![
                r"feed_forward\.experts\.(\d+)\.gate_up_proj"@,
                r"feed_forward\.experts\.(\d+)\.gate_proj"@,
                r"feed_forward\.experts\.(\d+)\.up_proj"@,
                r"feed_forward\.experts\.(\d+)\.down_proj"@,
            ]
        );
        push_family(&mut out, r"language_model\.model\.layers\.(\d+)\.", &list0, WEIGHT_OR_BIAS);
        push_pattern(
            &mut out,
            r"language_model\.model\.layers\.(\d+)\.feed_forward\.experts\.(gate_proj|up_proj|down_proj)\.weight$",
        );
        let list1 = vec![
            r"feed_forward\.router",
            r"feed_forward\.shared_expert\.gate_proj",
            r"feed_forward\.shared_expert\.up_proj",
            r"feed_forward\.shared_expert\.down_proj",
            r"feed_forward\.gate_proj",
            r"feed_forward\.up_proj",
            r"feed_forward\.down_proj",
        ];
        assert(
            literals(list1@) =~= seq![
                r"feed_forward\.router"@,
                r"feed_forward\.shared_expert\.gate_proj"@,
                r"feed_forward\.shared_expert\.up_proj"@,
                r"feed_forward\.shared_expert\.down_proj"@,
                r"feed_forward\.gate_proj"@,
                r"feed_forward\.up_proj"@,
                r"feed_forward\.down_proj"@,
            ]
        );
        push_family(&mut out, r"language_model\.model\.layers\.(\d+)\.", &list1, WEIGHT_OR_BIAS);
        assert(texts(out@) =~= self.immediate_isq_predicates_texts());
        out
    }
}

} // verus!
