//! Mistral 3.

use vstd::prelude::*;

use crate::loaders::{
    AutoDeviceMapParams, KvCacheLayout, LoaderError, Modalities, ModelConfigMetadata,
    NonMappedSubModel, PackFactors, PackLookup, SupportedModality,
};
use crate::loaders::patterns::{
    attention_module_texts, attention_modules, family, literals, mlp_module_texts, mlp_modules,
    push_family, push_pattern, texts, ANY_LAYER, LM_HEAD, WEIGHT_OR_BIAS,
};
use crate::loaders::sizes::{
    attention, decoder_layer, decoder_layer_elems, decoder_layer_fits, scores, scores_elems,
    scores_fits, smaller, smaller_elems, text_head, text_head_elems, text_head_fits,
    uniform, word,
};
use crate::tensor::{DType};

verus! {

/// What the sizes of the text model depend on.
#[derive(Debug, Clone, Copy, PartialEq, Eq, Structural)]
pub struct Mistral3TextConfig {
    pub hidden_size: usize,
    pub vocab_size: usize,
    pub num_hidden_layers: usize,
    pub num_attention_heads: usize,
    pub num_key_value_heads: usize,
    pub intermediate_size: usize,
    pub max_position_embeddings: usize,
    pub head_dim: usize,
    pub tie_word_embeddings: bool,
    pub sliding_window: Option<usize>,
}

/// What the sizes of the vision tower depend on.
#[derive(Debug, Clone, Copy, PartialEq, Eq, Structural)]
pub struct Mistral3VisionConfig {
    pub hidden_size: usize,
    pub intermediate_size: usize,
    pub num_hidden_layers: usize,
    pub num_attention_heads: usize,
    pub num_channels: usize,
    pub patch_size: usize,
}

/// What the sizes depend on.
#[derive(Debug, Clone, Copy, PartialEq, Eq, Structural)]
pub struct Mistral3Config {
    pub text_config: Mistral3TextConfig,
    pub vision_config: Mistral3VisionConfig,
}

/// Tokens of an image that fits the largest shape: one for each patch, and one at
/// the end of each row of patches. Patches at the border may be cut off.
pub open spec fn mistral3_image_tokens_elems(height: int, width: int, patch: int) -> int {
    let rows = (height - 1) / patch + 1;
    let cols = (width - 1) / patch + 1;
    let padded_height = rows * patch;
    let padded_width = cols * patch;
    (padded_width / patch + 1) * (padded_height / patch)
}

/// Every step of `mistral3_image_tokens` fits a machine word.
pub open spec fn mistral3_image_tokens_fits(height: int, width: int, patch: int) -> bool {
    let rows = (height - 1) / patch + 1;
    let cols = (width - 1) / patch + 1;
    let padded_height = rows * patch;
    let padded_width = cols * patch;
    &&& height >= 1
    &&& patch > 0
    &&& word((height - 1) / patch + 1)
    &&& width >= 1
    &&& word((width - 1) / patch + 1)
    &&& word(rows * patch)
    &&& word(cols * patch)
    &&& word(padded_width / patch + 1)
    &&& word((padded_width / patch + 1) * (padded_height / patch))
}

/// Tokens of an image that fits the largest shape: one for each patch, and one at
/// the end of each row of patches. Patches at the border may be cut off.
pub fn mistral3_image_tokens(height: usize, width: usize, patch: usize) -> (r: usize)
    requires
        mistral3_image_tokens_fits(height as int, width as int, patch as int),
    ensures
        r == mistral3_image_tokens_elems(height as int, width as int, patch as int),
{
    let rows: usize = (height - 1) / patch + 1;
    let cols: usize = (width - 1) / patch + 1;
    let padded_height: usize = rows * patch;
    let padded_width: usize = cols * patch;
    (padded_width / patch + 1) * (padded_height / patch)
}

/// Scores of a prompt chunk with its images.
pub open spec fn mistral3_mapped_act_elems(
    cfg: Mistral3Config,
    height: int,
    width: int,
    seq: int,
    batch: int,
    images: int,
    chunk: int,
) -> int {
    let heads = cfg.text_config.num_attention_heads as int;
    let patch = cfg.vision_config.patch_size as int;
    let tokens = mistral3_image_tokens_elems(height, width, patch);
    let total = tokens * images + smaller_elems(seq, chunk);
    scores_elems(batch, heads, total, total)
}

/// Every step of `mistral3_mapped_act` fits a machine word.
pub open spec fn mistral3_mapped_act_fits(
    cfg: Mistral3Config,
    height: int,
    width: int,
    seq: int,
    batch: int,
    images: int,
    chunk: int,
) -> bool {
    let heads = cfg.text_config.num_attention_heads as int;
    let patch = cfg.vision_config.patch_size as int;
    let tokens = mistral3_image_tokens_elems(height, width, patch);
    let total = tokens * images + smaller_elems(seq, chunk);
    &&& mistral3_image_tokens_fits(height, width, patch)
    &&& word(tokens * images)
    &&& word(tokens * images + smaller_elems(seq, chunk))
    &&& scores_fits(batch, heads, total, total)
}

/// Scores of a prompt chunk with its images.
pub fn mistral3_mapped_act(
    cfg: &Mistral3Config,
    height: usize,
    width: usize,
    seq: usize,
    batch: usize,
    images: usize,
    chunk: usize,
) -> (r: usize)
    requires
        mistral3_mapped_act_fits(
            *cfg,
            height as int,
            width as int,
            seq as int,
            batch as int,
            images as int,
            chunk as int,
        ),
    ensures
        r == mistral3_mapped_act_elems(
            *cfg,
            height as int,
            width as int,
            seq as int,
            batch as int,
            images as int,
            chunk as int,
        ),
{
    let heads: usize = cfg.text_config.num_attention_heads;
    let patch: usize = cfg.vision_config.patch_size;
    let tokens: usize = mistral3_image_tokens(height, width, patch);
    let total: usize = tokens * images + smaller(seq, chunk);
    scores(batch, heads, total, total)
}

/// Scores of the vision tower.
pub open spec fn mistral3_vision_act_elems(
    cfg: Mistral3Config,
    height: int,
    width: int,
    batch: int,
    images: int,
) -> int {
    let heads = cfg.vision_config.num_attention_heads as int;
    let patch = cfg.vision_config.patch_size as int;
    let tokens = mistral3_image_tokens_elems(height, width, patch);
    let items = batch * images;
    scores_elems(items, heads, tokens, tokens)
}

/// Every step of `mistral3_vision_act` fits a machine word.
pub open spec fn mistral3_vision_act_fits(
    cfg: Mistral3Config,
    height: int,
    width: int,
    batch: int,
    images: int,
) -> bool {
    let heads = cfg.vision_config.num_attention_heads as int;
    let patch = cfg.vision_config.patch_size as int;
    let tokens = mistral3_image_tokens_elems(height, width, patch);
    let items = batch * images;
    &&& mistral3_image_tokens_fits(height, width, patch)
    &&& word(batch * images)
    &&& scores_fits(items, heads, tokens, tokens)
}

/// Scores of the vision tower.
pub fn mistral3_vision_act(
    cfg: &Mistral3Config,
    height: usize,
    width: usize,
    batch: usize,
    images: usize,
) -> (r: usize)
    requires
        mistral3_vision_act_fits(*cfg, height as int, width as int, batch as int, images as int),
    ensures
        r == mistral3_vision_act_elems(
            *cfg,
            height as int,
            width as int,
            batch as int,
            images as int,
        ),
{
    let heads: usize = cfg.vision_config.num_attention_heads;
    let patch: usize = cfg.vision_config.patch_size;
    let tokens: usize = mistral3_image_tokens(height, width, patch);
    let items: usize = batch * images;
    scores(items, heads, tokens, tokens)
}

/// A layer of the vision tower.
pub open spec fn mistral3_vision_layer_elems(hidden: int, width: int) -> int {
    let proj = hidden * width;
    let square = hidden * hidden;
    hidden + hidden + proj + proj + proj + square + square + square + square
}

/// Every step of `mistral3_vision_layer` fits a machine word.
pub open spec fn mistral3_vision_layer_fits(hidden: int, width: int) -> bool {
    let proj = hidden * width;
    let square = hidden * hidden;
    &&& word(hidden * width)
    &&& word(hidden * hidden)
    &&& word(hidden + hidden + proj + proj + proj + square + square + square + square)
}

/// A layer of the vision tower.
pub fn mistral3_vision_layer(hidden: usize, width: usize) -> (r: usize)
    requires
        mistral3_vision_layer_fits(hidden as int, width as int),
    ensures
        r == mistral3_vision_layer_elems(hidden as int, width as int),
{
    let proj: usize = hidden * width;
    let square: usize = hidden * hidden;
    hidden + hidden + proj + proj + proj + square + square + square + square
}

/// What is not mapped to layers.
pub open spec fn mistral3_non_mapped_elems(cfg: Mistral3Config, packs: PackFactors) -> int {
    let hidden = cfg.text_config.hidden_size as int;
    let vocab = cfg.text_config.vocab_size as int;
    let embed_pack = packs.embed_tokens as int;
    let head_pack = packs.lm_head as int;
    let tied = cfg.text_config.tie_word_embeddings;
    let v_hidden = cfg.vision_config.hidden_size as int;
    let v_width = cfg.vision_config.intermediate_size as int;
    let channels = cfg.vision_config.num_channels as int;
    let patch = cfg.vision_config.patch_size as int;
    let v_layers = cfg.vision_config.num_hidden_layers as int;
    let text = text_head_elems(hidden, vocab, tied, embed_pack, head_pack);
    let patch_embed = channels * v_hidden * patch * patch * patch;
    let layer = mistral3_vision_layer_elems(v_hidden, v_width);
    text + (patch_embed + v_hidden + layer * v_layers)
}

/// Every step of `mistral3_non_mapped` fits a machine word.
pub open spec fn mistral3_non_mapped_fits(cfg: Mistral3Config, packs: PackFactors) -> bool {
    let hidden = cfg.text_config.hidden_size as int;
    let vocab = cfg.text_config.vocab_size as int;
    let embed_pack = packs.embed_tokens as int;
    let head_pack = packs.lm_head as int;
    let tied = cfg.text_config.tie_word_embeddings;
    let v_hidden = cfg.vision_config.hidden_size as int;
    let v_width = cfg.vision_config.intermediate_size as int;
    let channels = cfg.vision_config.num_channels as int;
    let patch = cfg.vision_config.patch_size as int;
    let v_layers = cfg.vision_config.num_hidden_layers as int;
    let text = text_head_elems(hidden, vocab, tied, embed_pack, head_pack);
    let patch_embed = channels * v_hidden * patch * patch * patch;
    let layer = mistral3_vision_layer_elems(v_hidden, v_width);
    &&& text_head_fits(hidden, vocab, tied, embed_pack, head_pack)
    &&& word(channels * v_hidden)
    &&& word(channels * v_hidden * patch)
    &&& word(channels * v_hidden * patch * patch)
    &&& word(channels * v_hidden * patch * patch * patch)
    &&& mistral3_vision_layer_fits(v_hidden, v_width)
    &&& word(layer * v_layers)
    &&& word(patch_embed + v_hidden + layer * v_layers)
    &&& word(text + (patch_embed + v_hidden + layer * v_layers))
}

/// What is not mapped to layers.
pub fn mistral3_non_mapped(cfg: &Mistral3Config, packs: PackFactors) -> (r: usize)
    requires
        mistral3_non_mapped_fits(*cfg, packs),
    ensures
        r == mistral3_non_mapped_elems(*cfg, packs),
{
    let hidden: usize = cfg.text_config.hidden_size;
    let vocab: usize = cfg.text_config.vocab_size;
    let embed_pack: usize = packs.embed_tokens;
    let head_pack: usize = packs.lm_head;
    let tied: bool = cfg.text_config.tie_word_embeddings;
    let v_hidden: usize = cfg.vision_config.hidden_size;
    let v_width: usize = cfg.vision_config.intermediate_size;
    let channels: usize = cfg.vision_config.num_channels;
    let patch: usize = cfg.vision_config.patch_size;
    let v_layers: usize = cfg.vision_config.num_hidden_layers;
    let text: usize = text_head(hidden, vocab, tied, embed_pack, head_pack);
    let patch_embed: usize = channels * v_hidden * patch * patch * patch;
    let layer: usize = mistral3_vision_layer(v_hidden, v_width);
    text + (patch_embed + v_hidden + layer * v_layers)
}

/// A decoder layer.
pub open spec fn mistral3_layer_elems(cfg: Mistral3Config, pack: int) -> int {
    let hidden = cfg.text_config.hidden_size as int;
    let heads = cfg.text_config.num_attention_heads as int;
    let kv_heads = cfg.text_config.num_key_value_heads as int;
    let width = cfg.text_config.intermediate_size as int;
    let size_q = hidden / heads * heads;
    let size_kv = hidden / heads * kv_heads;
    decoder_layer_elems(hidden, size_q, size_kv, width, pack)
}

/// Every step of `mistral3_layer` fits a machine word.
pub open spec fn mistral3_layer_fits(cfg: Mistral3Config, pack: int) -> bool {
    let hidden = cfg.text_config.hidden_size as int;
    let heads = cfg.text_config.num_attention_heads as int;
    let kv_heads = cfg.text_config.num_key_value_heads as int;
    let width = cfg.text_config.intermediate_size as int;
    let size_q = hidden / heads * heads;
    let size_kv = hidden / heads * kv_heads;
    &&& heads > 0
    &&& word(hidden / heads * heads)
    &&& word(hidden / heads * kv_heads)
    &&& decoder_layer_fits(hidden, size_q, size_kv, width, pack)
}

/// A decoder layer.
pub fn mistral3_layer(cfg: &Mistral3Config, pack: usize) -> (r: usize)
    requires
        mistral3_layer_fits(*cfg, pack as int),
    ensures
        r == mistral3_layer_elems(*cfg, pack as int),
{
    let hidden: usize = cfg.text_config.hidden_size;
    let heads: usize = cfg.text_config.num_attention_heads;
    let kv_heads: usize = cfg.text_config.num_key_value_heads;
    let width: usize = cfg.text_config.intermediate_size;
    let size_q: usize = hidden / heads * heads;
    let size_kv: usize = hidden / heads * kv_heads;
    decoder_layer(hidden, size_q, size_kv, width, pack)
}

/// Marks the media of Mistral 3 prompts.
pub struct Mistral3Prefixer;

impl Mistral3Prefixer {
    /// The prompt with its image marks: the chat template sets them.
    pub fn prefix_image(&self, image_indexes: &Vec<usize>, prompt: &str) -> (r: String)
        ensures
            r@ == prompt@,
    {
        prompt.to_owned()
    }
}

/// The longest side of an image that the model takes.
pub const MISTRAL3_LONGEST_SIDE: usize = 1540;

/// The shape that an image has in the model: its own, or where a side is too long the
/// shape that it is scaled down to.
pub open spec fn mistral3_shape(shape: (usize, usize), scaled: (usize, usize)) -> (usize, usize) {
    if shape.0 > MISTRAL3_LONGEST_SIDE || shape.1 > MISTRAL3_LONGEST_SIDE {
        scaled
    } else {
        shape
    }
}

/// The shape that an image has in the model, given the shape that it is scaled down to
/// where a side is too long.
pub fn limited_shape(shape: (usize, usize), scaled: (usize, usize)) -> (r: (usize, usize))
    ensures
        r == mistral3_shape(shape, scaled),
{
    if shape.0 > MISTRAL3_LONGEST_SIDE || shape.1 > MISTRAL3_LONGEST_SIDE {
        scaled
    } else {
        shape
    }
}

/// Loader of Mistral 3 models.
pub struct Mistral3Loader;

impl Mistral3Loader {
    /// Elements of the largest activation of a layer. `scaled` is the shape that the
    /// largest image is scaled down to where a side of it is too long.
    pub fn mapped_max_act_size_elems(
        &self,
        cfg: &Mistral3Config,
        scaled: (usize, usize),
        params: &AutoDeviceMapParams,
        attention_chunk: usize,
    ) -> (r: Result<usize, LoaderError>)
        requires
            match *params {
                AutoDeviceMapParams::Multimodal {
                    max_seq_len,
                    max_batch_size,
                    max_image_shape,
                    max_num_images,
                } => mistral3_mapped_act_fits(
                    *cfg,
                    mistral3_shape(max_image_shape, scaled).0 as int,
                    mistral3_shape(max_image_shape, scaled).1 as int,
                    max_seq_len as int,
                    max_batch_size as int,
                    max_num_images as int,
                    attention_chunk as int,
                ),
                _ => true,
            },
        ensures
            match *params {
                AutoDeviceMapParams::Multimodal {
                    max_seq_len,
                    max_batch_size,
                    max_image_shape,
                    max_num_images,
                } => r matches Ok(n) && n == mistral3_mapped_act_elems(
                    *cfg,
                    mistral3_shape(max_image_shape, scaled).0 as int,
                    mistral3_shape(max_image_shape, scaled).1 as int,
                    max_seq_len as int,
                    max_batch_size as int,
                    max_num_images as int,
                    attention_chunk as int,
                ),
                _ => r == Err::<usize, LoaderError>(LoaderError::ExpectedMultimodal),
            },
    {
        match params {
            AutoDeviceMapParams::Multimodal {
                max_seq_len,
                max_batch_size,
                max_image_shape,
                max_num_images,
            } => {
                let shape: (usize, usize) = limited_shape(*max_image_shape, scaled);
                Ok(
                    mistral3_mapped_act(
                        cfg,
                        shape.0,
                        shape.1,
                        *max_seq_len,
                        *max_batch_size,
                        *max_num_images,
                        attention_chunk,
                    ),
                )
            },
            _ => Err(LoaderError::ExpectedMultimodal),
        }
    }

    /// Elements of the largest activation outside the layers. `scaled` is the shape
    /// that the largest image is scaled down to where a side of it is too long.
    pub fn non_mapped_max_act_size_elems(
        &self,
        cfg: &Mistral3Config,
        scaled: (usize, usize),
        params: &AutoDeviceMapParams,
    ) -> (r: Result<usize, LoaderError>)
        requires
            match *params {
                AutoDeviceMapParams::Multimodal {
                    max_batch_size,
                    max_image_shape,
                    max_num_images,
                    ..
                } => mistral3_vision_act_fits(
                    *cfg,
                    mistral3_shape(max_image_shape, scaled).0 as int,
                    mistral3_shape(max_image_shape, scaled).1 as int,
                    max_batch_size as int,
                    max_num_images as int,
                ),
                _ => true,
            },
        ensures
            match *params {
                AutoDeviceMapParams::Multimodal {
                    max_batch_size,
                    max_image_shape,
                    max_num_images,
                    ..
                } => r matches Ok(n) && n == mistral3_vision_act_elems(
                    *cfg,
                    mistral3_shape(max_image_shape, scaled).0 as int,
                    mistral3_shape(max_image_shape, scaled).1 as int,
                    max_batch_size as int,
                    max_num_images as int,
                ),
                _ => r == Err::<usize, LoaderError>(LoaderError::ExpectedMultimodal),
            },
    {
        match params {
            AutoDeviceMapParams::Multimodal {
                max_batch_size,
                max_image_shape,
                max_num_images,
                ..
            } => {
                let shape: (usize, usize) = limited_shape(*max_image_shape, scaled);
                Ok(mistral3_vision_act(cfg, shape.0, shape.1, *max_batch_size, *max_num_images))
            },
            _ => Err(LoaderError::ExpectedMultimodal),
        }
    }

    /// The tensors by whose quantization the pack factors are known.
    pub fn pack_lookup(&self, cfg: &Mistral3Config) -> (r: PackLookup)
        ensures
            r.asks(
                seq!["language_model.model.embed_tokens.weight"@],
                "language_model.lm_head.weight"@,
                cfg.text_config.tie_word_embeddings,
            ),
    {
        let embed_tokens = vec!["language_model.model.embed_tokens.weight"];
        assert(literals(embed_tokens@) =~= seq!["language_model.model.embed_tokens.weight"@]);
        PackLookup {
            embed_tokens,
            lm_head: "language_model.lm_head.weight",
            tied: cfg.text_config.tie_word_embeddings,
        }
    }

    /// Bytes of what is not mapped to layers.
    pub fn non_mapped_size_in_bytes(
        &self,
        cfg: &Mistral3Config,
        dtype: DType,
        packs: PackFactors,
    ) -> (r: usize)
        requires
            mistral3_non_mapped_fits(*cfg, packs),
            word(mistral3_non_mapped_elems(*cfg, packs) * dtype.bytes()),
        ensures
            r == mistral3_non_mapped_elems(*cfg, packs) * dtype.bytes(),
    {
        let elems: usize = mistral3_non_mapped(cfg, packs);
        elems * dtype.size_in_bytes()
    }

    /// Bytes of each layer.
    pub fn layer_sizes_in_bytes(
        &self,
        cfg: &Mistral3Config,
        dtype: DType,
        weight_pack_factor: usize,
    ) -> (r: Vec<usize>)
        requires
            mistral3_layer_fits(*cfg, weight_pack_factor as int),
            word(mistral3_layer_elems(*cfg, weight_pack_factor as int) * dtype.bytes()),
        ensures
            r@.len() == cfg.text_config.num_hidden_layers,
            forall|i: int| 0 <= i < r@.len()
                ==> #[trigger] r@[i] == mistral3_layer_elems(
                    *cfg,
                    weight_pack_factor as int,
                ) * dtype.bytes(),
    {
        let elems: usize = mistral3_layer(cfg, weight_pack_factor);
        uniform(elems * dtype.size_in_bytes(), cfg.text_config.num_hidden_layers)
    }

    /// Number of layers.
    pub fn num_layers(&self, cfg: &Mistral3Config) -> (r: usize)
        ensures
            r == cfg.text_config.num_hidden_layers,
    {
        cfg.text_config.num_hidden_layers
    }

    /// What the paged cache needs to know of the model.
    pub fn model_config(&self, cfg: &Mistral3Config) -> (r: ModelConfigMetadata)
        ensures
            r == (ModelConfigMetadata {
                max_seq_len: cfg.text_config.max_position_embeddings,
                num_layers: cfg.text_config.num_hidden_layers,
                hidden_size: cfg.text_config.hidden_size,
                num_kv_heads: cfg.text_config.num_key_value_heads,
                num_attn_heads: cfg.text_config.num_attention_heads,
                sliding_window: cfg.text_config.sliding_window,
                k_head_dim: cfg.text_config.head_dim,
                v_head_dim: cfg.text_config.head_dim,
                kv_cache_layout: KvCacheLayout::Standard,
            }),
    {
        ModelConfigMetadata {
                max_seq_len: cfg.text_config.max_position_embeddings,
                num_layers: cfg.text_config.num_hidden_layers,
                hidden_size: cfg.text_config.hidden_size,
                num_kv_heads: cfg.text_config.num_key_value_heads,
                num_attn_heads: cfg.text_config.num_attention_heads,
                sliding_window: cfg.text_config.sliding_window,
                k_head_dim: cfg.text_config.head_dim,
                v_head_dim: cfg.text_config.head_dim,
                kv_cache_layout: KvCacheLayout::Standard,
        }
    }

    /// The parts that are not mapped to layers.
    pub fn non_mapped_sub_models(&self) -> (r: Option<Vec<NonMappedSubModel>>)
        ensures
            r matches Some(v) && v@ == seq![NonMappedSubModel::Vision],
    {
        Some(vec![NonMappedSubModel::Vision])
    }

    /// What the model reads and writes.
    pub fn modalities(&self) -> (r: Modalities)
        ensures
            r.reads(seq![SupportedModality::Text, SupportedModality::Vision]),
    {
        Modalities {
            input: vec![SupportedModality::Text, SupportedModality::Vision],
            output: vec![SupportedModality::Text],
        }
    }

    /// Whether rotary embeddings split a head in halves by default.
    pub fn is_gptx(&self) -> (r: bool)
        ensures
            r == true,
    {
        true
    }

    /// Whether the model runs with paged attention.
    pub fn supports_paged_attention(&self) -> (r: bool)
        ensures
            r == true,
    {
        true
    }

    /// Whether encoder outputs can be cached.
    pub fn supports_encoder_cache(&self) -> (r: bool)
        ensures
            r == true,
    {
        true
    }

    /// Whether prompt prefixes can be cached.
    pub fn supports_prefix_cacher(&self) -> (r: bool)
        ensures
            r == true,
    {
        true
    }

    /// Tensors that keep a higher precision when quantized.
    pub open spec fn promoted_isq_predicates_texts(&self) -> Seq<Seq<char>> {
        seq![
            r"^language_model\.model\.embed_tokens\.weight$"@,
        ] + seq![r"^language_model\.lm_head\.(weight|bias)$"@]
    }

    /// Tensors that keep a higher precision when quantized.
    pub fn promoted_isq_predicates(&self) -> (r: Vec<String>)
        ensures
            texts(r@) == self.promoted_isq_predicates_texts(),
    {
        let mut out: Vec<String> = Vec::new();
        push_pattern(&mut out, r"^language_model\.model\.embed_tokens\.weight$");
        push_pattern(&mut out, r"^language_model\.lm_head\.(weight|bias)$");
        assert(texts(out@) =~= self.promoted_isq_predicates_texts());
        out
    }

    /// Tensors that are quantized.
    pub open spec fn isq_layer_regexes_texts(&self) -> Seq<Seq<char>> {
        seq![LM_HEAD@] + family(
            ANY_LAYER@,
            attention_module_texts(),
            WEIGHT_OR_BIAS@,
        ) + family(ANY_LAYER@, mlp_module_texts(), WEIGHT_OR_BIAS@)
    }

    /// Tensors that are quantized.
    pub fn isq_layer_regexes(&self) -> (r: Vec<String>)
        ensures
            texts(r@) == self.isq_layer_regexes_texts(),
    {
        let mut out: Vec<String> = Vec::new();
        push_pattern(&mut out, LM_HEAD);
        push_family(&mut out, ANY_LAYER, &attention_modules(), WEIGHT_OR_BIAS);
        push_family(&mut out, ANY_LAYER, &mlp_modules(), WEIGHT_OR_BIAS);
        assert(texts(out@) =~= self.isq_layer_regexes_texts());
        out
    }

    /// Tensors that are quantized while they are loaded.
    pub open spec fn immediate_isq_predicates_texts(&self) -> Seq<Seq<char>> {
        seq![LM_HEAD@] + family(
            r"language_model\.model\.layers\.(\d+)\."@,
            attention_module_texts(),
            WEIGHT_OR_BIAS@,
        ) + family(r"language_model\.model\.layers\.(\d+)\."@, mlp_module_texts(), WEIGHT_OR_BIAS@)
    }

    /// Tensors that are quantized while they are loaded.
    pub fn immediate_isq_predicates(&self) -> (r: Vec<String>)
        ensures
            texts(r@) == self.immediate_isq_predicates_texts(),
    {
        let mut out: Vec<String> = Vec::new();
        push_pattern(&mut out, LM_HEAD);
        push_family(
            &mut out,
            r"language_model\.model\.layers\.(\d+)\.",
            &attention_modules(),
            WEIGHT_OR_BIAS,
        );
        push_family(
            &mut out,
            r"language_model\.model\.layers\.(\d+)\.",
            &mlp_modules(),
            WEIGHT_OR_BIAS,
        );
        assert(texts(out@) =~= self.immediate_isq_predicates_texts());
        out
    }
}

} // verus!
