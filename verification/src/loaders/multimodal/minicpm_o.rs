//! MiniCPM-O.

use vstd::prelude::*;

use crate::loaders::{
    AutoDeviceMapParams, KvCacheLayout, LoaderError, Modalities, ModelConfigMetadata, PackFactors, PackLookup,
    SupportedModality,
};
use crate::loaders::patterns::{
    attention_module_texts, attention_modules, family, literals, mlp_module_texts, mlp_modules,
    push_family, push_pattern, texts, WEIGHT_OR_BIAS,
};
use crate::loaders::sizes::{
    attention, decoder_layer, decoder_layer_elems, decoder_layer_fits, scores, scores_elems,
    scores_fits, siglip_vision, siglip_vision_elems, siglip_vision_fits, smaller, smaller_elems,
    square_patches, square_patches_elems, square_patches_fits, text_head,
    text_head_elems, text_head_fits, uniform, word,
};
use crate::tensor::{DType};
use crate::text::{repeat, repeated};
use crate::loaders::multimodal::SiglipConfig;

verus! {

/// What the sizes of the text model depend on.
#[derive(Debug, Clone, Copy, PartialEq, Eq, Structural)]
pub struct MiniCpmOTextConfig {
    pub hidden_size: usize,
    pub vocab_size: usize,
    pub num_hidden_layers: usize,
    pub num_attention_heads: usize,
    pub num_key_value_heads: usize,
    pub intermediate_size: usize,
    pub max_position_embeddings: usize,
    pub tie_word_embeddings: bool,
}

/// What the sizes depend on.
#[derive(Debug, Clone, Copy, PartialEq, Eq, Structural)]
pub struct MiniCpmOConfig {
    pub text_config: MiniCpmOTextConfig,
    pub vision_config: SiglipConfig,
}

/// Scores of a prompt chunk with its images.
pub open spec fn minicpmo_mapped_act_elems(
    cfg: MiniCpmOConfig,
    seq: int,
    batch: int,
    images: int,
    chunk: int,
) -> int {
    let heads = cfg.text_config.num_attention_heads as int;
    let image = cfg.vision_config.image_size as int;
    let patch = cfg.vision_config.patch_size as int;
    let patches = square_patches_elems(image, patch);
    let total = (patches + 1) * images + smaller_elems(seq, chunk);
    scores_elems(batch, heads, total, total)
}

/// Every step of `minicpmo_mapped_act` fits a machine word.
pub open spec fn minicpmo_mapped_act_fits(
    cfg: MiniCpmOConfig,
    seq: int,
    batch: int,
    images: int,
    chunk: int,
) -> bool {
    let heads = cfg.text_config.num_attention_heads as int;
    let image = cfg.vision_config.image_size as int;
    let patch = cfg.vision_config.patch_size as int;
    let patches = square_patches_elems(image, patch);
    let total = (patches + 1) * images + smaller_elems(seq, chunk);
    &&& square_patches_fits(image, patch)
    &&& word(patches + 1)
    &&& word((patches + 1) * images)
    &&& word((patches + 1) * images + smaller_elems(seq, chunk))
    &&& scores_fits(batch, heads, total, total)
}

/// Scores of a prompt chunk with its images.
pub fn minicpmo_mapped_act(
    cfg: &MiniCpmOConfig,
    seq: usize,
    batch: usize,
    images: usize,
    chunk: usize,
) -> (r: usize)
    requires
        minicpmo_mapped_act_fits(*cfg, seq as int, batch as int, images as int, chunk as int),
    ensures
        r == minicpmo_mapped_act_elems(*cfg, seq as int, batch as int, images as int, chunk as int),
{
    let heads: usize = cfg.text_config.num_attention_heads;
    let image: usize = cfg.vision_config.image_size;
    let patch: usize = cfg.vision_config.patch_size;
    let patches: usize = square_patches(image, patch);
    let total: usize = (patches + 1) * images + smaller(seq, chunk);
    scores(batch, heads, total, total)
}

/// Scores of the vision tower over the five slices of each image.
pub open spec fn minicpmo_vision_act_elems(cfg: MiniCpmOConfig, batch: int, images: int) -> int {
    let heads = cfg.vision_config.num_attention_heads as int;
    let image = cfg.vision_config.image_size as int;
    let patch = cfg.vision_config.patch_size as int;
    let patches = square_patches_elems(image, patch);
    let tokens = patches + 1;
    let items = batch * 5 * images;
    scores_elems(items, heads, tokens, tokens)
}

/// Every step of `minicpmo_vision_act` fits a machine word.
pub open spec fn minicpmo_vision_act_fits(cfg: MiniCpmOConfig, batch: int, images: int) -> bool {
    let heads = cfg.vision_config.num_attention_heads as int;
    let image = cfg.vision_config.image_size as int;
    let patch = cfg.vision_config.patch_size as int;
    let patches = square_patches_elems(image, patch);
    let tokens = patches + 1;
    let items = batch * 5 * images;
    &&& square_patches_fits(image, patch)
    &&& word(patches + 1)
    &&& word(batch * 5)
    &&& word(batch * 5 * images)
    &&& scores_fits(items, heads, tokens, tokens)
}

/// Scores of the vision tower over the five slices of each image.
pub fn minicpmo_vision_act(cfg: &MiniCpmOConfig, batch: usize, images: usize) -> (r: usize)
    requires
        minicpmo_vision_act_fits(*cfg, batch as int, images as int),
    ensures
        r == minicpmo_vision_act_elems(*cfg, batch as int, images as int),
{
    let heads: usize = cfg.vision_config.num_attention_heads;
    let image: usize = cfg.vision_config.image_size;
    let patch: usize = cfg.vision_config.patch_size;
    let patches: usize = square_patches(image, patch);
    let tokens: usize = patches + 1;
    let items: usize = batch * 5 * images;
    scores(items, heads, tokens, tokens)
}

/// What is not mapped to layers.
pub open spec fn minicpmo_non_mapped_elems(cfg: MiniCpmOConfig, packs: PackFactors) -> int {
    let hidden = cfg.text_config.hidden_size as int;
    let vocab = cfg.text_config.vocab_size as int;
    let embed_pack = packs.embed_tokens as int;
    let head_pack = packs.lm_head as int;
    let tied = cfg.text_config.tie_word_embeddings;
    let v_hidden = cfg.vision_config.hidden_size as int;
    let v_width = cfg.vision_config.intermediate_size as int;
    let channels = cfg.vision_config.num_channels as int;
    let image = cfg.vision_config.image_size as int;
    let patch = cfg.vision_config.patch_size as int;
    let v_layers = cfg.vision_config.num_hidden_layers as int;
    let text = text_head_elems(hidden, vocab, tied, embed_pack, head_pack);
    let vision = siglip_vision_elems(v_hidden, v_width, channels, image, patch, v_layers);
    text + vision
}

/// Every step of `minicpmo_non_mapped` fits a machine word.
pub open spec fn minicpmo_non_mapped_fits(cfg: MiniCpmOConfig, packs: PackFactors) -> bool {
    let hidden = cfg.text_config.hidden_size as int;
    let vocab = cfg.text_config.vocab_size as int;
    let embed_pack = packs.embed_tokens as int;
    let head_pack = packs.lm_head as int;
    let tied = cfg.text_config.tie_word_embeddings;
    let v_hidden = cfg.vision_config.hidden_size as int;
    let v_width = cfg.vision_config.intermediate_size as int;
    let channels = cfg.vision_config.num_channels as int;
    let image = cfg.vision_config.image_size as int;
    let patch = cfg.vision_config.patch_size as int;
    let v_layers = cfg.vision_config.num_hidden_layers as int;
    let text = text_head_elems(hidden, vocab, tied, embed_pack, head_pack);
    let vision = siglip_vision_elems(v_hidden, v_width, channels, image, patch, v_layers);
    &&& text_head_fits(hidden, vocab, tied, embed_pack, head_pack)
    &&& siglip_vision_fits(v_hidden, v_width, channels, image, patch, v_layers)
    &&& word(text + vision)
}

/// What is not mapped to layers.
pub fn minicpmo_non_mapped(cfg: &MiniCpmOConfig, packs: PackFactors) -> (r: usize)
    requires
        minicpmo_non_mapped_fits(*cfg, packs),
    ensures
        r == minicpmo_non_mapped_elems(*cfg, packs),
{
    let hidden: usize = cfg.text_config.hidden_size;
    let vocab: usize = cfg.text_config.vocab_size;
    let embed_pack: usize = packs.embed_tokens;
    let head_pack: usize = packs.lm_head;
    let tied: bool = cfg.text_config.tie_word_embeddings;
    let v_hidden: usize = cfg.vision_config.hidden_size;
    let v_width: usize = cfg.vision_config.intermediate_size;
    let channels: usize = cfg.vision_config.num_channels;
    let image: usize = cfg.vision_config.image_size;
    let patch: usize = cfg.vision_config.patch_size;
    let v_layers: usize = cfg.vision_config.num_hidden_layers;
    let text: usize = text_head(hidden, vocab, tied, embed_pack, head_pack);
    let vision: usize = siglip_vision(v_hidden, v_width, channels, image, patch, v_layers);
    text + vision
}

/// A decoder layer.
pub open spec fn minicpmo_layer_elems(cfg: MiniCpmOConfig, pack: int) -> int {
    let hidden = cfg.text_config.hidden_size as int;
    let heads = cfg.text_config.num_attention_heads as int;
    let kv_heads = cfg.text_config.num_key_value_heads as int;
    let width = cfg.text_config.intermediate_size as int;
    let size_q = hidden / heads * heads;
    let size_kv = hidden / heads * kv_heads;
    decoder_layer_elems(hidden, size_q, size_kv, width, pack)
}

/// Every step of `minicpmo_layer` fits a machine word.
pub open spec fn minicpmo_layer_fits(cfg: MiniCpmOConfig, pack: int) -> bool {
    let hidden = cfg.text_config.hidden_size as int;
    let heads = cfg.text_config.num_attention_heads as int;
    let kv_heads = cfg.text_config.num_key_value_heads as int;
    let width = cfg.text_config.intermediate_size as int;
    let size_q = hidden / heads * heads;
    let size_kv = hidden / heads * kv_heads;
    &&& heads > 0
    &&& word(hidden / heads * heads)
    &&& word(hidden / heads * kv_heads)
    &&& decoder_layer_fits(hidden, size_q, size_kv, width, pack)
}

/// A decoder layer.
pub fn minicpmo_layer(cfg: &MiniCpmOConfig, pack: usize) -> (r: usize)
    requires
        minicpmo_layer_fits(*cfg, pack as int),
    ensures
        r == minicpmo_layer_elems(*cfg, pack as int),
{
    let hidden: usize = cfg.text_config.hidden_size;
    let heads: usize = cfg.text_config.num_attention_heads;
    let kv_heads: usize = cfg.text_config.num_key_value_heads;
    let width: usize = cfg.text_config.intermediate_size;
    let size_q: usize = hidden / heads * heads;
    let size_kv: usize = hidden / heads * kv_heads;
    decoder_layer(hidden, size_q, size_kv, width, pack)
}

/// Marks the media of MiniCPM-O prompts.
pub struct MiniCpmOPrefixer;

impl MiniCpmOPrefixer {
    /// The prompt behind one mark for each image.
    pub fn prefix_image(&self, image_indexes: &Vec<usize>, prompt: &str) -> (r: String)
        ensures
            r@ == repeated("(<image>./</image>)"@, image_indexes@.len()) + prompt@,
    {
        let mut s: String = repeat("(<image>./</image>)", image_indexes.len());
        s.append(prompt);
        s
    }
}

/// Loader of MiniCPM-O models.
pub struct MiniCpmOLoader;

impl MiniCpmOLoader {
    /// Elements of the largest activation of a layer.
    pub fn mapped_max_act_size_elems(
        &self,
        cfg: &MiniCpmOConfig,
        params: &AutoDeviceMapParams,
        attention_chunk: usize,
    ) -> (r: Result<usize, LoaderError>)
        requires
            match *params {
                AutoDeviceMapParams::Multimodal {
                    max_seq_len,
                    max_batch_size,
                    max_num_images,
                    ..
                } => minicpmo_mapped_act_fits(
                    *cfg,
                    max_seq_len as int,
                    max_batch_size as int,
                    max_num_images as int,
                    attention_chunk as int,
                ),
                _ => true,
            },
        ensures
            match *params {
                AutoDeviceMapParams::Multimodal {
                    max_seq_len,
                    max_batch_size,
                    max_num_images,
                    ..
                } => r matches Ok(n) && n == minicpmo_mapped_act_elems(
                    *cfg,
                    max_seq_len as int,
                    max_batch_size as int,
                    max_num_images as int,
                    attention_chunk as int,
                ),
                _ => r == Err::<usize, LoaderError>(LoaderError::ExpectedMultimodal),
            },
    {
        match params {
            AutoDeviceMapParams::Multimodal {
                max_seq_len,
                max_batch_size,
                max_num_images,
                ..
            } => Ok(
                minicpmo_mapped_act(
                    cfg,
                    *max_seq_len,
                    *max_batch_size,
                    *max_num_images,
                    attention_chunk,
                ),
            ),
            _ => Err(LoaderError::ExpectedMultimodal),
        }
    }

    /// Elements of the largest activation outside the layers.
    pub fn non_mapped_max_act_size_elems(
        &self,
        cfg: &MiniCpmOConfig,
        params: &AutoDeviceMapParams,
    ) -> (r: Result<usize, LoaderError>)
        requires
            match *params {
                AutoDeviceMapParams::Multimodal {
                    max_batch_size,
                    max_num_images,
                    ..
                } => minicpmo_vision_act_fits(
                    *cfg,
                    max_batch_size as int,
                    max_num_images as int,
                ),
                _ => true,
            },
        ensures
            match *params {
                AutoDeviceMapParams::Multimodal {
                    max_batch_size,
                    max_num_images,
                    ..
                } => r matches Ok(n) && n == minicpmo_vision_act_elems(
                    *cfg,
                    max_batch_size as int,
                    max_num_images as int,
                ),
                _ => r == Err::<usize, LoaderError>(LoaderError::ExpectedMultimodal),
            },
    {
        match params {
            AutoDeviceMapParams::Multimodal { max_batch_size, max_num_images, .. } => Ok(
                minicpmo_vision_act(cfg, *max_batch_size, *max_num_images),
            ),
            _ => Err(LoaderError::ExpectedMultimodal),
        }
    }

    /// The tensors by whose quantization the pack factors are known.
    pub fn pack_lookup(&self, cfg: &MiniCpmOConfig) -> (r: PackLookup)
        ensures
            r.asks(
                seq!["llm.model.embed_tokens.weight"@],
                "llm.lm_head.weight"@,
                cfg.text_config.tie_word_embeddings,
            ),
    {
        let embed_tokens = vec!["llm.model.embed_tokens.weight"];
        assert(literals(embed_tokens@) =~= seq!["llm.model.embed_tokens.weight"@]);
        PackLookup {
            embed_tokens,
            lm_head: "llm.lm_head.weight",
            tied: cfg.text_config.tie_word_embeddings,
        }
    }

    /// Bytes of what is not mapped to layers.
    pub fn non_mapped_size_in_bytes(
        &self,
        cfg: &MiniCpmOConfig,
        dtype: DType,
        packs: PackFactors,
    ) -> (r: usize)
        requires
            minicpmo_non_mapped_fits(*cfg, packs),
            word(minicpmo_non_mapped_elems(*cfg, packs) * dtype.bytes()),
        ensures
            r == minicpmo_non_mapped_elems(*cfg, packs) * dtype.bytes(),
    {
        let elems: usize = minicpmo_non_mapped(cfg, packs);
        elems * dtype.size_in_bytes()
    }

    /// Bytes of each layer.
    pub fn layer_sizes_in_bytes(
        &self,
        cfg: &MiniCpmOConfig,
        dtype: DType,
        weight_pack_factor: usize,
    ) -> (r: Vec<usize>)
        requires
            minicpmo_layer_fits(*cfg, weight_pack_factor as int),
            word(minicpmo_layer_elems(*cfg, weight_pack_factor as int) * dtype.bytes()),
        ensures
            r@.len() == cfg.text_config.num_hidden_layers,
            forall|i: int| 0 <= i < r@.len()
                ==> #[trigger] r@[i] == minicpmo_layer_elems(
                    *cfg,
                    weight_pack_factor as int,
                ) * dtype.bytes(),
    {
        let elems: usize = minicpmo_layer(cfg, weight_pack_factor);
        uniform(elems * dtype.size_in_bytes(), cfg.text_config.num_hidden_layers)
    }

    /// Number of layers.
    pub fn num_layers(&self, cfg: &MiniCpmOConfig) -> (r: usize)
        ensures
            r == cfg.text_config.num_hidden_layers,
    {
        cfg.text_config.num_hidden_layers
    }

    /// What the paged cache needs to know of the model.
    pub fn model_config(&self, cfg: &MiniCpmOConfig) -> (r: ModelConfigMetadata)
        requires
            cfg.text_config.num_attention_heads > 0,
        ensures
            r == (ModelConfigMetadata {
                max_seq_len: cfg.text_config.max_position_embeddings,
                num_layers: cfg.text_config.num_hidden_layers,
                hidden_size: cfg.text_config.hidden_size,
                num_kv_heads: cfg.text_config.num_key_value_heads,
                num_attn_heads: cfg.text_config.num_attention_heads,
                sliding_window: None,
                k_head_dim: cfg.text_config.hidden_size / cfg.text_config.num_attention_heads,
                v_head_dim: cfg.text_config.hidden_size / cfg.text_config.num_attention_heads,
                kv_cache_layout: KvCacheLayout::Standard,
            }),
    {
        ModelConfigMetadata {
                max_seq_len: cfg.text_config.max_position_embeddings,
                num_layers: cfg.text_config.num_hidden_layers,
                hidden_size: cfg.text_config.hidden_size,
                num_kv_heads: cfg.text_config.num_key_value_heads,
                num_attn_heads: cfg.text_config.num_attention_heads,
                sliding_window: None,
                k_head_dim: cfg.text_config.hidden_size / cfg.text_config.num_attention_heads,
                v_head_dim: cfg.text_config.hidden_size / cfg.text_config.num_attention_heads,
                kv_cache_layout: KvCacheLayout::Standard,
        }
    }

    /// What the model reads and writes.
    pub fn modalities(&self) -> (r: Modalities)
        ensures
            r.reads(seq![SupportedModality::Text, SupportedModality::Vision]),
    {
        Modalities {
            input: vec![SupportedModality::Text, SupportedModality::Vision],
            output: vec![SupportedModality::Text],
        }
    }

    /// Whether rotary embeddings split a head in halves by default.
    pub fn is_gptx(&self) -> (r: bool)
        ensures
            r == true,
    {
        true
    }

    /// Whether the model runs with paged attention.
    pub fn supports_paged_attention(&self) -> (r: bool)
        ensures
            r == true,
    {
        true
    }

    /// Whether encoder outputs can be cached.
    pub fn supports_encoder_cache(&self) -> (r: bool)
        ensures
            r == true,
    {
        true
    }

    /// Whether prompt prefixes can be cached.
    pub fn supports_prefix_cacher(&self) -> (r: bool)
        ensures
            r == false,
    {
        false
    }

    /// Tensors that keep a higher precision when quantized.
    pub open spec fn promoted_isq_predicates_texts(&self) -> Seq<Seq<char>> {
        seq![r"^llm\.model\.embed_tokens\.weight$"@] + seq![r"^llm\.lm_head\.(weight|bias)$"@]
    }

    /// Tensors that keep a higher precision when quantized.
    pub fn promoted_isq_predicates(&self) -> (r: Vec<String>)
        ensures
            texts(r@) == self.promoted_isq_predicates_texts(),
    {
        let mut out: Vec<String> = Vec::new();
        push_pattern(&mut out, r"^llm\.model\.embed_tokens\.weight$");
        push_pattern(&mut out, r"^llm\.lm_head\.(weight|bias)$");
        assert(texts(out@) =~= self.promoted_isq_predicates_texts());
        out
    }

    /// Tensors that are quantized.
    pub open spec fn isq_layer_regexes_texts(&self) -> Seq<Seq<char>> {
        seq![r"llm.lm_head\.(weight|bias)$"@] + family(
            r"llm.layers\.(\d+)\."@,
            attention_module_texts(),
            WEIGHT_OR_BIAS@,
        ) + family(r"llm.layers\.(\d+)\."@, mlp_module_texts(), WEIGHT_OR_BIAS@)
    }

    /// Tensors that are quantized.
    pub fn isq_layer_regexes(&self) -> (r: Vec<String>)
        ensures
            texts(r@) == self.isq_layer_regexes_texts(),
    {
        let mut out: Vec<String> = Vec::new();
        push_pattern(&mut out, r"llm.lm_head\.(weight|bias)$");
        push_family(&mut out, r"llm.layers\.(\d+)\.", &attention_modules(), WEIGHT_OR_BIAS);
        push_family(&mut out, r"llm.layers\.(\d+)\.", &mlp_modules(), WEIGHT_OR_BIAS);
        assert(texts(out@) =~= self.isq_layer_regexes_texts());
        out
    }

    /// Tensors that are quantized while they are loaded: those that are quantized.
    pub fn immediate_isq_predicates(&self) -> (r: Vec<String>)
        ensures
            texts(r@) == self.isq_layer_regexes_texts(),
    {
        self.isq_layer_regexes()
    }
}

} // verus!
