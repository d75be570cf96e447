//! Llama Vision.

use vstd::prelude::*;

use crate::loaders::{
    AutoDeviceMapParams, KvCacheLayout, LoaderError, Modalities, ModelConfigMetadata,
    NonMappedSubModel, PackFactors, PackLookup, SupportedModality,
};
use crate::loaders::patterns::{
    ANY_LAYER, WEIGHT_OR_BIAS, attention_module_texts, attention_modules, family, literals,
    mlp_module_texts, mlp_modules, push_family, push_pattern, texts,
};
use crate::loaders::sizes::{
    attention, decoder_layer, decoder_layer_elems, decoder_layer_fits, larger, larger_elems,
    patch_conv, patch_conv_elems, patch_conv_fits, scores, scores_elems, scores_fits,
    smaller, smaller_elems, square_patches, square_patches_elems, square_patches_fits,
    word,
};
use crate::lists::{contains_index};
use crate::tensor::{DType};
use crate::text::{decimal, push_decimal, repeat, repeated};

verus! {

/// What the sizes of the text model depend on.
#[derive(Debug, Clone, Copy, PartialEq, Eq, Structural)]
pub struct MLlamaTextConfig {
    pub hidden_size: usize,
    pub vocab_size: usize,
    pub num_hidden_layers: usize,
    pub num_attention_heads: usize,
    pub num_key_value_heads: usize,
    pub intermediate_size: usize,
    pub max_position_embeddings: usize,
    pub tie_word_embeddings: bool,
}

/// What the sizes of the vision tower depend on.
#[derive(Debug, Clone, Copy, PartialEq, Eq, Structural)]
pub struct MLlamaVisionConfig {
    pub hidden_size: usize,
    pub intermediate_size: usize,
    pub num_hidden_layers: usize,
    pub num_attention_heads: usize,
    pub num_channels: usize,
    pub image_size: usize,
    pub patch_size: usize,
    pub max_num_tiles: usize,
    pub max_aspect_ratio_id: usize,
    pub num_global_layers: usize,
}

/// What the sizes depend on.
#[derive(Debug, Clone, Copy, PartialEq, Eq, Structural)]
pub struct MLlamaConfig {
    pub text_config: MLlamaTextConfig,
    pub vision_config: MLlamaVisionConfig,
}

/// Tokens of an image: the patches of each tile and its class token, padded to a
/// multiple of eight.
pub open spec fn vllama_image_tokens_elems(cfg: MLlamaVisionConfig) -> int {
    let image = cfg.image_size as int;
    let patch = cfg.patch_size as int;
    let tiles = cfg.max_num_tiles as int;
    let patches = square_patches_elems(image, patch) + 1;
    let padding = (8 - patches % 8) % 8;
    tiles * (patches + padding)
}

/// Every step of `vllama_image_tokens` fits a machine word.
pub open spec fn vllama_image_tokens_fits(cfg: MLlamaVisionConfig) -> bool {
    let image = cfg.image_size as int;
    let patch = cfg.patch_size as int;
    let tiles = cfg.max_num_tiles as int;
    let patches = square_patches_elems(image, patch) + 1;
    let padding = (8 - patches % 8) % 8;
    &&& square_patches_fits(image, patch)
    &&& word(square_patches_elems(image, patch) + 1)
    &&& 8 >= patches % 8
    &&& word(patches + padding)
    &&& word(tiles * (patches + padding))
}

/// Tokens of an image: the patches of each tile and its class token, padded to a
/// multiple of eight.
pub fn vllama_image_tokens(cfg: &MLlamaVisionConfig) -> (r: usize)
    requires
        vllama_image_tokens_fits(*cfg),
    ensures
        r == vllama_image_tokens_elems(*cfg),
{
    let image: usize = cfg.image_size;
    let patch: usize = cfg.patch_size;
    let tiles: usize = cfg.max_num_tiles;
    let patches: usize = square_patches(image, patch) + 1;
    let padding: usize = (8 - patches % 8) % 8;
    tiles * (patches + padding)
}

/// The larger of the scores of a prompt chunk and of all images.
pub open spec fn vllama_mapped_act_elems(
    cfg: MLlamaConfig,
    seq: int,
    batch: int,
    images: int,
    chunk: int,
) -> int {
    let heads = cfg.text_config.num_attention_heads as int;
    let tokens = vllama_image_tokens_elems(cfg.vision_config);
    let image_seq = tokens * images;
    let cross = scores_elems(batch, heads, image_seq, image_seq);
    let queries = smaller_elems(seq, chunk);
    let own = batch * heads * (queries * queries);
    larger_elems(own, cross)
}

/// Every step of `vllama_mapped_act` fits a machine word.
pub open spec fn vllama_mapped_act_fits(
    cfg: MLlamaConfig,
    seq: int,
    batch: int,
    images: int,
    chunk: int,
) -> bool {
    let heads = cfg.text_config.num_attention_heads as int;
    let tokens = vllama_image_tokens_elems(cfg.vision_config);
    let image_seq = tokens * images;
    let queries = smaller_elems(seq, chunk);
    &&& vllama_image_tokens_fits(cfg.vision_config)
    &&& word(tokens * images)
    &&& scores_fits(batch, heads, image_seq, image_seq)
    &&& word(batch * heads)
    &&& word(queries * queries)
    &&& word(batch * heads * (queries * queries))
}

/// The larger of the scores of a prompt chunk and of all images.
pub fn vllama_mapped_act(
    cfg: &MLlamaConfig,
    seq: usize,
    batch: usize,
    images: usize,
    chunk: usize,
) -> (r: usize)
    requires
        vllama_mapped_act_fits(*cfg, seq as int, batch as int, images as int, chunk as int),
    ensures
        r == vllama_mapped_act_elems(*cfg, seq as int, batch as int, images as int, chunk as int),
{
    let heads: usize = cfg.text_config.num_attention_heads;
    let tokens: usize = vllama_image_tokens(&cfg.vision_config);
    let image_seq: usize = tokens * images;
    let cross: usize = scores(batch, heads, image_seq, image_seq);
    let queries: usize = smaller(seq, chunk);
    let own: usize = batch * heads * (queries * queries);
    larger(own, cross)
}

/// Scores of the vision tower.
pub open spec fn vllama_vision_act_elems(cfg: MLlamaConfig, batch: int, images: int) -> int {
    let heads = cfg.vision_config.num_attention_heads as int;
    let tokens = vllama_image_tokens_elems(cfg.vision_config);
    let items = batch * images;
    scores_elems(items, heads, tokens, tokens)
}

/// Every step of `vllama_vision_act` fits a machine word.
pub open spec fn vllama_vision_act_fits(cfg: MLlamaConfig, batch: int, images: int) -> bool {
    let heads = cfg.vision_config.num_attention_heads as int;
    let tokens = vllama_image_tokens_elems(cfg.vision_config);
    let items = batch * images;
    &&& vllama_image_tokens_fits(cfg.vision_config)
    &&& word(batch * images)
    &&& scores_fits(items, heads, tokens, tokens)
}

/// Scores of the vision tower.
pub fn vllama_vision_act(cfg: &MLlamaConfig, batch: usize, images: usize) -> (r: usize)
    requires
        vllama_vision_act_fits(*cfg, batch as int, images as int),
    ensures
        r == vllama_vision_act_elems(*cfg, batch as int, images as int),
{
    let heads: usize = cfg.vision_config.num_attention_heads;
    let tokens: usize = vllama_image_tokens(&cfg.vision_config);
    let items: usize = batch * images;
    scores(items, heads, tokens, tokens)
}

/// The position embeddings of the patches and of the tiles.
pub open spec fn vllama_positions_elems(cfg: MLlamaVisionConfig) -> int {
    let hidden = cfg.hidden_size as int;
    let image = cfg.image_size as int;
    let patch = cfg.patch_size as int;
    let tiles = cfg.max_num_tiles as int;
    let ratio = cfg.max_aspect_ratio_id as int;
    let patches = square_patches_elems(image, patch) + 1;
    let embedding = patches * hidden;
    let tile_embedding = (ratio + 1) * (tiles * patches * hidden);
    let pre_tile = (ratio + 1) * (tiles * hidden);
    embedding + tile_embedding + pre_tile + pre_tile
}

/// Every step of `vllama_positions` fits a machine word.
pub open spec fn vllama_positions_fits(cfg: MLlamaVisionConfig) -> bool {
    let hidden = cfg.hidden_size as int;
    let image = cfg.image_size as int;
    let patch = cfg.patch_size as int;
    let tiles = cfg.max_num_tiles as int;
    let ratio = cfg.max_aspect_ratio_id as int;
    let patches = square_patches_elems(image, patch) + 1;
    let embedding = patches * hidden;
    let tile_embedding = (ratio + 1) * (tiles * patches * hidden);
    let pre_tile = (ratio + 1) * (tiles * hidden);
    &&& square_patches_fits(image, patch)
    &&& word(square_patches_elems(image, patch) + 1)
    &&& word(patches * hidden)
    &&& word(ratio + 1)
    &&& word(tiles * patches)
    &&& word(tiles * patches * hidden)
    &&& word((ratio + 1) * (tiles * patches * hidden))
    &&& word(tiles * hidden)
    &&& word((ratio + 1) * (tiles * hidden))
    &&& word(embedding + tile_embedding + pre_tile + pre_tile)
}

/// The position embeddings of the patches and of the tiles.
pub fn vllama_positions(cfg: &MLlamaVisionConfig) -> (r: usize)
    requires
        vllama_positions_fits(*cfg),
    ensures
        r == vllama_positions_elems(*cfg),
{
    let hidden: usize = cfg.hidden_size;
    let image: usize = cfg.image_size;
    let patch: usize = cfg.patch_size;
    let tiles: usize = cfg.max_num_tiles;
    let ratio: usize = cfg.max_aspect_ratio_id;
    let patches: usize = square_patches(image, patch) + 1;
    let embedding: usize = patches * hidden;
    let tile_embedding: usize = (ratio + 1) * (tiles * patches * hidden);
    let pre_tile: usize = (ratio + 1) * (tiles * hidden);
    embedding + tile_embedding + pre_tile + pre_tile
}

/// A layer of the vision tower.
pub open spec fn vllama_encoder_layer_elems(cfg: MLlamaVisionConfig, pack: int) -> int {
    let hidden = cfg.hidden_size as int;
    let heads = cfg.num_attention_heads as int;
    let width = cfg.intermediate_size as int;
    let norm = hidden + hidden;
    let head = hidden / heads;
    let proj = hidden * heads * head / pack;
    let fc1 = hidden * width / pack + width;
    let fc2 = width * hidden / pack + hidden;
    norm + norm + proj + proj + proj + proj + fc1 + fc2
}

/// Every step of `vllama_encoder_layer` fits a machine word.
pub open spec fn vllama_encoder_layer_fits(cfg: MLlamaVisionConfig, pack: int) -> bool {
    let hidden = cfg.hidden_size as int;
    let heads = cfg.num_attention_heads as int;
    let width = cfg.intermediate_size as int;
    let norm = hidden + hidden;
    let head = hidden / heads;
    let proj = hidden * heads * head / pack;
    let fc1 = hidden * width / pack + width;
    let fc2 = width * hidden / pack + hidden;
    &&& word(hidden + hidden)
    &&& heads > 0
    &&& word(hidden * heads)
    &&& word(hidden * heads * head)
    &&& pack > 0
    &&& word(hidden * width)
    &&& word(hidden * width / pack + width)
    &&& word(width * hidden)
    &&& word(width * hidden / pack + hidden)
    &&& word(norm + norm + proj + proj + proj + proj + fc1 + fc2)
}

/// A layer of the vision tower.
pub fn vllama_encoder_layer(cfg: &MLlamaVisionConfig, pack: usize) -> (r: usize)
    requires
        vllama_encoder_layer_fits(*cfg, pack as int),
    ensures
        r == vllama_encoder_layer_elems(*cfg, pack as int),
{
    let hidden: usize = cfg.hidden_size;
    let heads: usize = cfg.num_attention_heads;
    let width: usize = cfg.intermediate_size;
    let norm: usize = hidden + hidden;
    let head: usize = hidden / heads;
    let proj: usize = hidden * heads * head / pack;
    let fc1: usize = hidden * width / pack + width;
    let fc2: usize = width * hidden / pack + hidden;
    norm + norm + proj + proj + proj + proj + fc1 + fc2
}

/// The vision tower.
pub open spec fn vllama_vision_elems(cfg: MLlamaVisionConfig, pack: int) -> int {
    let channels = cfg.num_channels as int;
    let hidden = cfg.hidden_size as int;
    let patch = cfg.patch_size as int;
    let local = cfg.num_hidden_layers as int;
    let globals = cfg.num_global_layers as int;
    let patch_embedding = patch_conv_elems(channels, hidden, patch);
    let positions = vllama_positions_elems(cfg);
    let layer = vllama_encoder_layer_elems(cfg, pack);
    patch_embedding + hidden + positions + hidden + hidden + layer * (local + globals)
}

/// Every step of `vllama_vision` fits a machine word.
pub open spec fn vllama_vision_fits(cfg: MLlamaVisionConfig, pack: int) -> bool {
    let channels = cfg.num_channels as int;
    let hidden = cfg.hidden_size as int;
    let patch = cfg.patch_size as int;
    let local = cfg.num_hidden_layers as int;
    let globals = cfg.num_global_layers as int;
    let patch_embedding = patch_conv_elems(channels, hidden, patch);
    let positions = vllama_positions_elems(cfg);
    let layer = vllama_encoder_layer_elems(cfg, pack);
    &&& patch_conv_fits(channels, hidden, patch)
    &&& vllama_positions_fits(cfg)
    &&& vllama_encoder_layer_fits(cfg, pack)
    &&& word(local + globals)
    &&& word(layer * (local + globals))
    &&& word(patch_embedding + hidden + positions + hidden + hidden + layer * (local + globals))
}

/// The vision tower.
pub fn vllama_vision(cfg: &MLlamaVisionConfig, pack: usize) -> (r: usize)
    requires
        vllama_vision_fits(*cfg, pack as int),
    ensures
        r == vllama_vision_elems(*cfg, pack as int),
{
    let channels: usize = cfg.num_channels;
    let hidden: usize = cfg.hidden_size;
    let patch: usize = cfg.patch_size;
    let local: usize = cfg.num_hidden_layers;
    let globals: usize = cfg.num_global_layers;
    let patch_embedding: usize = patch_conv(channels, hidden, patch);
    let positions: usize = vllama_positions(cfg);
    let layer: usize = vllama_encoder_layer(cfg, pack);
    patch_embedding + hidden + positions + hidden + hidden + layer * (local + globals)
}

/// What is not mapped to layers. The embeddings hold eight tokens beyond the
/// vocabulary.
pub open spec fn vllama_non_mapped_elems(cfg: MLlamaConfig, packs: PackFactors) -> int {
    let hidden = cfg.text_config.hidden_size as int;
    let vocab = cfg.text_config.vocab_size as int;
    let embed_pack = packs.embed_tokens as int;
    let head_pack = packs.lm_head as int;
    let pack = packs.weight as int;
    let tied = cfg.text_config.tie_word_embeddings;
    let embed_tokens = hidden * (vocab + 8) / embed_pack;
    let lm_head = if tied { 0 } else { hidden * vocab / head_pack };
    let text = embed_tokens + lm_head + hidden;
    let vision = vllama_vision_elems(cfg.vision_config, pack);
    text + vision
}

/// Every step of `vllama_non_mapped` fits a machine word.
pub open spec fn vllama_non_mapped_fits(cfg: MLlamaConfig, packs: PackFactors) -> bool {
    let hidden = cfg.text_config.hidden_size as int;
    let vocab = cfg.text_config.vocab_size as int;
    let embed_pack = packs.embed_tokens as int;
    let head_pack = packs.lm_head as int;
    let pack = packs.weight as int;
    let tied = cfg.text_config.tie_word_embeddings;
    let embed_tokens = hidden * (vocab + 8) / embed_pack;
    let lm_head = if tied { 0 } else { hidden * vocab / head_pack };
    let text = embed_tokens + lm_head + hidden;
    let vision = vllama_vision_elems(cfg.vision_config, pack);
    &&& word(vocab + 8)
    &&& word(hidden * (vocab + 8))
    &&& embed_pack > 0
    &&& !tied ==> word(hidden * vocab)
    &&& !tied ==> head_pack > 0
    &&& word(embed_tokens + lm_head + hidden)
    &&& vllama_vision_fits(cfg.vision_config, pack)
    &&& word(text + vision)
}

/// What is not mapped to layers. The embeddings hold eight tokens beyond the
/// vocabulary.
pub fn vllama_non_mapped(cfg: &MLlamaConfig, packs: PackFactors) -> (r: usize)
    requires
        vllama_non_mapped_fits(*cfg, packs),
    ensures
        r == vllama_non_mapped_elems(*cfg, packs),
{
    let hidden: usize = cfg.text_config.hidden_size;
    let vocab: usize = cfg.text_config.vocab_size;
    let embed_pack: usize = packs.embed_tokens;
    let head_pack: usize = packs.lm_head;
    let pack: usize = packs.weight;
    let tied: bool = cfg.text_config.tie_word_embeddings;
    let embed_tokens: usize = hidden * (vocab + 8) / embed_pack;
    let lm_head: usize = if tied { 0 } else { hidden * vocab / head_pack };
    let text: usize = embed_tokens + lm_head + hidden;
    let vision: usize = vllama_vision(&cfg.vision_config, pack);
    text + vision
}

/// A decoder layer. One with cross attention is not quantized.
pub open spec fn vllama_layer_elems(cfg: MLlamaConfig, cross: bool, pack: int) -> int {
    let hidden = cfg.text_config.hidden_size as int;
    let heads = cfg.text_config.num_attention_heads as int;
    let kv_heads = cfg.text_config.num_key_value_heads as int;
    let width = cfg.text_config.intermediate_size as int;
    let size_q = hidden / heads * heads;
    let size_kv = hidden / heads * kv_heads;
    let packed = if cross { 1 } else { pack };
    decoder_layer_elems(hidden, size_q, size_kv, width, packed)
}

/// Every step of `vllama_layer` fits a machine word.
pub open spec fn vllama_layer_fits(cfg: MLlamaConfig, cross: bool, pack: int) -> bool {
    let hidden = cfg.text_config.hidden_size as int;
    let heads = cfg.text_config.num_attention_heads as int;
    let kv_heads = cfg.text_config.num_key_value_heads as int;
    let width = cfg.text_config.intermediate_size as int;
    let size_q = hidden / heads * heads;
    let size_kv = hidden / heads * kv_heads;
    let packed = if cross { 1 } else { pack };
    &&& heads > 0
    &&& word(hidden / heads * heads)
    &&& word(hidden / heads * kv_heads)
    &&& decoder_layer_fits(hidden, size_q, size_kv, width, packed)
}

/// A decoder layer. One with cross attention is not quantized.
pub fn vllama_layer(cfg: &MLlamaConfig, cross: bool, pack: usize) -> (r: usize)
    requires
        vllama_layer_fits(*cfg, cross, pack as int),
    ensures
        r == vllama_layer_elems(*cfg, cross, pack as int),
{
    let hidden: usize = cfg.text_config.hidden_size;
    let heads: usize = cfg.text_config.num_attention_heads;
    let kv_heads: usize = cfg.text_config.num_key_value_heads;
    let width: usize = cfg.text_config.intermediate_size;
    let size_q: usize = hidden / heads * heads;
    let size_kv: usize = hidden / heads * kv_heads;
    let packed: usize = if cross { 1 } else { pack };
    decoder_layer(hidden, size_q, size_kv, width, packed)
}

/// The modules of a text layer that are quantized.
pub open spec fn text_module_texts() -> Seq<Seq<char>> {
    attention_module_texts() + mlp_module_texts()
}

/// The prefix of the modules of one text layer.
pub open spec fn text_layer_prefix(layer: nat) -> Seq<char> {
    r"language_model.model.layers\."@ + decimal(layer) + r"\."@
}

/// The patterns of the first `n` text layers, but for those with cross
/// attention.
pub open spec fn text_isq_texts(cross_attention_layers: Seq<usize>, n: nat) -> Seq<Seq<char>>
    decreases n,
{
    if n == 0 {
        Seq::empty()
    } else {
        let before = text_isq_texts(cross_attention_layers, (n - 1) as nat);
        if cross_attention_layers.contains((n - 1) as usize) {
            before
        } else {
            before + family(text_layer_prefix((n - 1) as nat), text_module_texts(), WEIGHT_OR_BIAS@)
        }
    }
}

/// No pattern is listed where every layer has cross attention, and each other
/// layer adds seven.
pub proof fn law_text_isq_count(cross_attention_layers: Seq<usize>, n: nat)
    requires
        n <= usize::MAX,
    ensures
        text_isq_texts(cross_attention_layers, n).len() == 7 * Set::new(
            |i: int| 0 <= i < n && !cross_attention_layers.contains(i as usize),
        ).len(),
    decreases n,
{
    let listed = |m: nat| Set::new(|i: int| 0 <= i < m && !cross_attention_layers.contains(i as usize));
    vstd::set_lib::lemma_int_range(0, n as int);
    vstd::set_lib::lemma_len_subset(listed(n), vstd::set_lib::set_int_range(0, n as int));
    if n == 0 {
        assert(listed(n) =~= Set::<int>::empty());
    } else {
        law_text_isq_count(cross_attention_layers, (n - 1) as nat);
        if cross_attention_layers.contains((n - 1) as usize) {
            assert(listed(n) =~= listed((n - 1) as nat));
        } else {
            vstd::set_lib::lemma_int_range(0, n - 1);
            vstd::set_lib::lemma_len_subset(
                listed((n - 1) as nat),
                vstd::set_lib::set_int_range(0, n - 1),
            );
            assert(listed(n) =~= listed((n - 1) as nat).insert(n - 1));
        }
    }
}

/// Marks the media of Llama Vision prompts.
pub struct VLlamaPrefixer;

impl VLlamaPrefixer {
    /// The prompt behind one mark for each image.
    pub fn prefix_image(&self, image_indexes: &Vec<usize>, prompt: &str) -> (r: String)
        ensures
            r@ == repeated("<|image|>"@, image_indexes@.len()) + prompt@,
    {
        let mut s: String = repeat("<|image|>", image_indexes.len());
        s.append(prompt);
        s
    }
}

/// Loader of Llama Vision models.
pub struct VLlamaLoader;

impl VLlamaLoader {
    /// Elements of the largest activation of a layer.
    pub fn mapped_max_act_size_elems(
        &self,
        cfg: &MLlamaConfig,
        params: &AutoDeviceMapParams,
        attention_chunk: usize,
    ) -> (r: Result<usize, LoaderError>)
        requires
            match *params {
                AutoDeviceMapParams::Multimodal {
                    max_seq_len,
                    max_batch_size,
                    max_num_images,
                    ..
                } => vllama_mapped_act_fits(
                    *cfg,
                    max_seq_len as int,
                    max_batch_size as int,
                    max_num_images as int,
                    attention_chunk as int,
                ),
                _ => true,
            },
        ensures
            match *params {
                AutoDeviceMapParams::Multimodal {
                    max_seq_len,
                    max_batch_size,
                    max_num_images,
                    ..
                } => r matches Ok(n) && n == vllama_mapped_act_elems(
                    *cfg,
                    max_seq_len as int,
                    max_batch_size as int,
                    max_num_images as int,
                    attention_chunk as int,
                ),
                _ => r == Err::<usize, LoaderError>(LoaderError::ExpectedMultimodal),
            },
    {
        match params {
            AutoDeviceMapParams::Multimodal {
                max_seq_len,
                max_batch_size,
                max_num_images,
                ..
            } => Ok(
                vllama_mapped_act(
                    cfg,
                    *max_seq_len,
                    *max_batch_size,
                    *max_num_images,
                    attention_chunk,
                ),
            ),
            _ => Err(LoaderError::ExpectedMultimodal),
        }
    }

    /// Elements of the largest activation outside the layers.
    pub fn non_mapped_max_act_size_elems(
        &self,
        cfg: &MLlamaConfig,
        params: &AutoDeviceMapParams,
    ) -> (r: Result<usize, LoaderError>)
        requires
            match *params {
                AutoDeviceMapParams::Multimodal {
                    max_batch_size,
                    max_num_images,
                    ..
                } => vllama_vision_act_fits(
                    *cfg,
                    max_batch_size as int,
                    max_num_images as int,
                ),
                _ => true,
            },
        ensures
            match *params {
                AutoDeviceMapParams::Multimodal {
                    max_batch_size,
                    max_num_images,
                    ..
                } => r matches Ok(n) && n == vllama_vision_act_elems(
                    *cfg,
                    max_batch_size as int,
                    max_num_images as int,
                ),
                _ => r == Err::<usize, LoaderError>(LoaderError::ExpectedMultimodal),
            },
    {
        match params {
            AutoDeviceMapParams::Multimodal { max_batch_size, max_num_images, .. } => Ok(
                vllama_vision_act(cfg, *max_batch_size, *max_num_images),
            ),
            _ => Err(LoaderError::ExpectedMultimodal),
        }
    }

    /// The tensors by whose quantization the pack factors are known.
    pub fn pack_lookup(&self, cfg: &MLlamaConfig) -> (r: PackLookup)
        ensures
            r.asks(
                seq!["language_model.model.embed_tokens.weight"@],
                "language_model.lm_head.weight"@,
                cfg.text_config.tie_word_embeddings,
            ),
    {
        let embed_tokens = vec!["language_model.model.embed_tokens.weight"];
        assert(literals(embed_tokens@) =~= seq!["language_model.model.embed_tokens.weight"@]);
        PackLookup {
            embed_tokens,
            lm_head: "language_model.lm_head.weight",
            tied: cfg.text_config.tie_word_embeddings,
        }
    }

    /// Bytes of what is not mapped to layers.
    pub fn non_mapped_size_in_bytes(
        &self,
        cfg: &MLlamaConfig,
        dtype: DType,
        packs: PackFactors,
    ) -> (r: usize)
        requires
            vllama_non_mapped_fits(*cfg, packs),
            word(vllama_non_mapped_elems(*cfg, packs) * dtype.bytes()),
        ensures
            r == vllama_non_mapped_elems(*cfg, packs) * dtype.bytes(),
    {
        let elems: usize = vllama_non_mapped(cfg, packs);
        elems * dtype.size_in_bytes()
    }

    /// Bytes of each layer. Those listed have cross attention.
    pub fn layer_sizes_in_bytes(
        &self,
        cfg: &MLlamaConfig,
        cross_attention_layers: &Vec<usize>,
        dtype: DType,
        weight_pack_factor: usize,
    ) -> (r: Vec<usize>)
        requires
            forall|i: int| 0 <= i < cfg.text_config.num_hidden_layers
                ==> #[trigger] vllama_layer_fits(
                    *cfg,
                    cross_attention_layers@.contains(i as usize),
                    weight_pack_factor as int,
                )
                    && word(
                        vllama_layer_elems(
                            *cfg,
                            cross_attention_layers@.contains(i as usize),
                            weight_pack_factor as int,
                        ) * dtype.bytes(),
                    ),
        ensures
            r@.len() == cfg.text_config.num_hidden_layers,
            forall|i: int| 0 <= i < r@.len()
                ==> #[trigger] r@[i] == vllama_layer_elems(
                    *cfg,
                    cross_attention_layers@.contains(i as usize),
                    weight_pack_factor as int,
                ) * dtype.bytes(),
    {
        let n: usize = cfg.text_config.num_hidden_layers;
        let mut r: Vec<usize> = Vec::with_capacity(n);
        let mut i: usize = 0;
        while i < n
            invariant
                i <= n == cfg.text_config.num_hidden_layers,
                r@.len() == i,
                forall|j: int| 0 <= j < cfg.text_config.num_hidden_layers
                    ==> #[trigger] vllama_layer_fits(
                        *cfg,
                        cross_attention_layers@.contains(j as usize),
                        weight_pack_factor as int,
                    )
                        && word(
                            vllama_layer_elems(
                                *cfg,
                                cross_attention_layers@.contains(j as usize),
                                weight_pack_factor as int,
                            ) * dtype.bytes(),
                        ),
                forall|j: int| 0 <= j < i
                    ==> #[trigger] r@[j] == vllama_layer_elems(
                        *cfg,
                        cross_attention_layers@.contains(j as usize),
                        weight_pack_factor as int,
                    ) * dtype.bytes(),
            decreases n - i,
        {
            let listed: bool = contains_index(cross_attention_layers, i);
            assert(
                vllama_layer_fits(
                    *cfg,
                    cross_attention_layers@.contains(i as int as usize),
                    weight_pack_factor as int,
                )
            );
            let elems: usize = vllama_layer(cfg, listed, weight_pack_factor);
            r.push(elems * dtype.size_in_bytes());
            i += 1;
        }
        r
    }

    /// Number of layers.
    pub fn num_layers(&self, cfg: &MLlamaConfig) -> (r: usize)
        ensures
            r == cfg.text_config.num_hidden_layers,
    {
        cfg.text_config.num_hidden_layers
    }

    /// What the paged cache needs to know of the model.
    pub fn model_config(&self, cfg: &MLlamaConfig) -> (r: ModelConfigMetadata)
        requires
            cfg.text_config.num_attention_heads > 0,
        ensures
            r == (ModelConfigMetadata {
                max_seq_len: cfg.text_config.max_position_embeddings,
                num_layers: cfg.text_config.num_hidden_layers,
                hidden_size: cfg.text_config.hidden_size,
                num_kv_heads: cfg.text_config.num_key_value_heads,
                num_attn_heads: cfg.text_config.num_attention_heads,
                sliding_window: None,
                k_head_dim: cfg.text_config.hidden_size / cfg.text_config.num_attention_heads,
                v_head_dim: cfg.text_config.hidden_size / cfg.text_config.num_attention_heads,
                kv_cache_layout: KvCacheLayout::Standard,
            }),
    {
        ModelConfigMetadata {
                max_seq_len: cfg.text_config.max_position_embeddings,
                num_layers: cfg.text_config.num_hidden_layers,
                hidden_size: cfg.text_config.hidden_size,
                num_kv_heads: cfg.text_config.num_key_value_heads,
                num_attn_heads: cfg.text_config.num_attention_heads,
                sliding_window: None,
                k_head_dim: cfg.text_config.hidden_size / cfg.text_config.num_attention_heads,
                v_head_dim: cfg.text_config.hidden_size / cfg.text_config.num_attention_heads,
                kv_cache_layout: KvCacheLayout::Standard,
        }
    }

    /// The parts that are not mapped to layers.
    pub fn non_mapped_sub_models(&self) -> (r: Option<Vec<NonMappedSubModel>>)
        ensures
            r matches Some(v) && v@ == seq![NonMappedSubModel::Vision],
    {
        Some(vec![NonMappedSubModel::Vision])
    }

    /// What the model reads and writes.
    pub fn modalities(&self) -> (r: Modalities)
        ensures
            r.reads(seq![SupportedModality::Text, SupportedModality::Vision]),
    {
        Modalities {
            input: vec![SupportedModality::Text, SupportedModality::Vision],
            output: vec![SupportedModality::Text],
        }
    }

    /// Whether rotary embeddings split a head in halves by default.
    pub fn is_gptx(&self) -> (r: bool)
        ensures
            r == true,
    {
        true
    }

    /// Whether the model runs with paged attention.
    pub fn supports_paged_attention(&self) -> (r: bool)
        ensures
            r == true,
    {
        true
    }

    /// Whether encoder outputs can be cached.
    pub fn supports_encoder_cache(&self) -> (r: bool)
        ensures
            r == true,
    {
        true
    }

    /// Whether prompt prefixes can be cached.
    pub fn supports_prefix_cacher(&self) -> (r: bool)
        ensures
            r == false,
    {
        false
    }

    /// Tensors that keep a higher precision when quantized.
    pub open spec fn promoted_isq_predicates_texts(&self) -> Seq<Seq<char>> {
        seq![
            r"^language_model\.model\.embed_tokens\.weight$"@,
        ] + seq![r"^language_model\.lm_head\.(weight|bias)$"@]
    }

    /// Tensors that keep a higher precision when quantized.
    pub fn promoted_isq_predicates(&self) -> (r: Vec<String>)
        ensures
            texts(r@) == self.promoted_isq_predicates_texts(),
    {
        let mut out: Vec<String> = Vec::new();
        push_pattern(&mut out, r"^language_model\.model\.embed_tokens\.weight$");
        push_pattern(&mut out, r"^language_model\.lm_head\.(weight|bias)$");
        assert(texts(out@) =~= self.promoted_isq_predicates_texts());
        out
    }

    /// Tensors of the vision tower that are quantized.
    pub open spec fn vision_isq_regexes_texts(&self) -> Seq<Seq<char>> {
        family(
            r"vision_model.transformer.layers\.(\d+)\."@,
            attention_module_texts(),
            WEIGHT_OR_BIAS@,
        ) + family(
            r"vision_model.global_transformer.layers\.(\d+)\."@,
            attention_module_texts(),
            WEIGHT_OR_BIAS@,
        ) + family(
                ANY_LAYER@,
                seq![
                    r"mlp\.fc1"@,
                    r"mlp\.fc2"@,
                ],
                WEIGHT_OR_BIAS@,
            )
    }

    /// Tensors of the vision tower that are quantized.
    pub fn vision_isq_regexes(&self) -> (r: Vec<String>)
        ensures
            texts(r@) == self.vision_isq_regexes_texts(),
    {
        let mut out: Vec<String> = Vec::new();
        push_family(
            &mut out,
            r"vision_model.transformer.layers\.(\d+)\.",
            &attention_modules(),
            WEIGHT_OR_BIAS,
        );
        push_family(
            &mut out,
            r"vision_model.global_transformer.layers\.(\d+)\.",
            &attention_modules(),
            WEIGHT_OR_BIAS,
        );
        let list0 = vec![
            r"mlp\.fc1",
            r"mlp\.fc2",
        ];
        assert(literals(list0@) =~= seq![r"mlp\.fc1"@, r"mlp\.fc2"@]);
        push_family(&mut out, ANY_LAYER, &list0, WEIGHT_OR_BIAS);
        assert(texts(out@) =~= self.vision_isq_regexes_texts());
        out
    }

    /// Tensors that are quantized: those of the text layers without cross attention,
    /// layer by layer, then those of the vision tower.
    pub open spec fn isq_layer_regexes_texts(
        &self,
        cfg: MLlamaConfig,
        cross_attention_layers: Seq<usize>,
    ) -> Seq<Seq<char>> {
        text_isq_texts(
            cross_attention_layers,
            cfg.text_config.num_hidden_layers as nat,
        ) + self.vision_isq_regexes_texts()
    }

    /// Tensors that are quantized.
    pub fn isq_layer_regexes(
        &self,
        cfg: &MLlamaConfig,
        cross_attention_layers: &Vec<usize>,
    ) -> (r: Vec<String>)
        ensures
            texts(r@) == self.isq_layer_regexes_texts(*cfg, cross_attention_layers@),
    {
        let n: usize = cfg.text_config.num_hidden_layers;
        let mut modules = attention_modules();
        let mut mlp = mlp_modules();
        let ghost attention_part = modules@;
        let ghost mlp_part = mlp@;
        modules.append(&mut mlp);
        assert(literals(modules@) =~= literals(attention_part) + literals(mlp_part));
        let mut out: Vec<String> = Vec::new();
        let mut i: usize = 0;
        assert(texts(out@) =~= text_isq_texts(cross_attention_layers@, 0));
        while i < n
            invariant
                i <= n,
                literals(modules@) == text_module_texts(),
                texts(out@) == text_isq_texts(cross_attention_layers@, i as nat),
            decreases n - i,
        {
            if !contains_index(cross_attention_layers, i) {
                let mut prefix: String = r"language_model.model.layers\.".to_owned();
                push_decimal(&mut prefix, i);
                prefix.append(r"\.");
                push_family(&mut out, prefix.as_str(), &modules, WEIGHT_OR_BIAS);
            }
            i += 1;
        }
        let mut vision: Vec<String> = self.vision_isq_regexes();
        let ghost text_part = out@;
        let ghost vision_part = vision@;
        out.append(&mut vision);
        assert(texts(out@) =~= texts(text_part) + texts(vision_part));
        out
    }

    /// Tensors that are quantized while they are loaded: those that are quantized.
    pub fn immediate_isq_predicates(
        &self,
        cfg: &MLlamaConfig,
        cross_attention_layers: &Vec<usize>,
    ) -> (r: Vec<String>)
        ensures
            texts(r@) == self.isq_layer_regexes_texts(*cfg, cross_attention_layers@),
    {
        self.isq_layer_regexes(cfg, cross_attention_layers)
    }
}

} // verus!
