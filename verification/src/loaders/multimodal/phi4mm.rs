//! Phi-4-multimodal.

use vstd::prelude::*;

use crate::loaders::{
    AutoDeviceMapParams, KvCacheLayout, LoaderError, Modalities, ModelConfigMetadata,
    NonMappedSubModel, PackFactors, PackLookup, SupportedModality,
};
use crate::loaders::patterns::{
    ANY_LAYER, LM_HEAD, ROOT_LM_HEAD, WEIGHT_OR_BIAS, family, literals, push_family, push_pattern,
    texts,
};
use crate::loaders::sizes::{
    attention, biased_linear, biased_linear_elems, biased_linear_fits, ceil_quotient,
    ceil_quotient_elems, ceil_quotient_fits, scores, scores_elems, scores_fits, siglip_vision,
    siglip_vision_elems, siglip_vision_fits, smaller, smaller_elems, square_patches,
    square_patches_elems, square_patches_fits, text_head, text_head_elems, text_head_fits, uniform,
    word,
};
use crate::tensor::{DType};
use crate::text::{decimal, push_decimal, same_text};
use crate::loaders::multimodal::SiglipConfig;

verus! {

/// What the sizes depend on, but for the vision tower.
#[derive(Debug, Clone, Copy, PartialEq, Eq, Structural)]
pub struct Phi4MMConfig {
    pub hidden_size: usize,
    pub vocab_size: usize,
    pub num_hidden_layers: usize,
    pub num_attention_heads: usize,
    pub num_key_value_heads: usize,
    pub head_dim: usize,
    pub intermediate_size: usize,
    pub max_position_embeddings: usize,
    pub tie_word_embeddings: bool,
    pub sliding_window: Option<usize>,
}

/// How image features enter the text model. What the configuration leaves out
/// is the linear kind, without learned separators and without tiling.
pub struct Phi4ImageEmbed {
    pub projection_cls: Option<String>,
    pub use_hd_transform: Option<bool>,
    pub with_learnable_separator: Option<bool>,
}

/// The kinds of projections of image features.
#[derive(Debug, Clone, Copy, PartialEq, Eq, Structural)]
pub enum Projection {
    Linear,
    /// Two layers, on features of four neighbouring patches.
    TiledMlp,
    /// Two layers.
    Mlp,
}

impl Phi4ImageEmbed {
    /// The name of the kind of projection.
    pub open spec fn class(self) -> Seq<char> {
        match self.projection_cls {
            Some(s) => s@,
            None => "linear"@,
        }
    }

    /// The kind of projection, where it is known.
    pub open spec fn projection(self) -> Option<Projection> {
        if self.class() == "linear"@ {
            Some(Projection::Linear)
        } else if self.class() == "mlp"@ {
            if self.use_hd_transform == Some(true) {
                Some(Projection::TiledMlp)
            } else {
                Some(Projection::Mlp)
            }
        } else {
            None
        }
    }

    /// Whether separators are learned.
    pub open spec fn separated(self) -> bool {
        self.with_learnable_separator == Some(true)
    }

    /// The kind of projection.
    pub fn read_projection(&self) -> (r: Result<Projection, LoaderError>)
        ensures
            match self.projection() {
                Some(p) => r == Ok::<Projection, LoaderError>(p),
                None => r matches Err(LoaderError::ProjectionClass(s)) && s@ == self.class(),
            },
    {
        let class: String = match &self.projection_cls {
            Some(s) => s.clone(),
            None => "linear".to_owned(),
        };
        if same_text(class.as_str(), "linear") {
            Ok(Projection::Linear)
        } else if same_text(class.as_str(), "mlp") {
            match self.use_hd_transform {
                Some(true) => Ok(Projection::TiledMlp),
                _ => Ok(Projection::Mlp),
            }
        } else {
            Err(LoaderError::ProjectionClass(class))
        }
    }
}

/// Scores of a prompt chunk with its images.
pub open spec fn phi4_mapped_act_elems(
    cfg: Phi4MMConfig,
    vision: SiglipConfig,
    seq: int,
    batch: int,
    images: int,
    chunk: int,
) -> int {
    let heads = cfg.num_attention_heads as int;
    let image = vision.image_size as int;
    let patch = vision.patch_size as int;
    let patches = square_patches_elems(image, patch);
    let total = (patches + 1) * images + smaller_elems(seq, chunk);
    scores_elems(batch, heads, total, total)
}

/// Every step of `phi4_mapped_act` fits a machine word.
pub open spec fn phi4_mapped_act_fits(
    cfg: Phi4MMConfig,
    vision: SiglipConfig,
    seq: int,
    batch: int,
    images: int,
    chunk: int,
) -> bool {
    let heads = cfg.num_attention_heads as int;
    let image = vision.image_size as int;
    let patch = vision.patch_size as int;
    let patches = square_patches_elems(image, patch);
    let total = (patches + 1) * images + smaller_elems(seq, chunk);
    &&& square_patches_fits(image, patch)
    &&& word(patches + 1)
    &&& word((patches + 1) * images)
    &&& word((patches + 1) * images + smaller_elems(seq, chunk))
    &&& scores_fits(batch, heads, total, total)
}

/// Scores of a prompt chunk with its images.
pub fn phi4_mapped_act(
    cfg: &Phi4MMConfig,
    vision: &SiglipConfig,
    seq: usize,
    batch: usize,
    images: usize,
    chunk: usize,
) -> (r: usize)
    requires
        phi4_mapped_act_fits(*cfg, *vision, seq as int, batch as int, images as int, chunk as int),
    ensures
        r == phi4_mapped_act_elems(
            *cfg,
            *vision,
            seq as int,
            batch as int,
            images as int,
            chunk as int,
        ),
{
    let heads: usize = cfg.num_attention_heads;
    let image: usize = vision.image_size;
    let patch: usize = vision.patch_size;
    let patches: usize = square_patches(image, patch);
    let total: usize = (patches + 1) * images + smaller(seq, chunk);
    scores(batch, heads, total, total)
}

/// Scores, queries, keys and values of the vision tower over the crops of an image:
/// one for each square of the base resolution, and one of the whole.
pub open spec fn phi4_vision_act_elems(
    vision: SiglipConfig,
    base_resolution: int,
    batch: int,
    height: int,
    width: int,
    images: int,
) -> int {
    let heads = vision.num_attention_heads as int;
    let hidden = vision.hidden_size as int;
    let image = vision.image_size as int;
    let patch = vision.patch_size as int;
    let tokens = square_patches_elems(image, patch) + 1;
    let crops = batch
        * (ceil_quotient_elems(height, base_resolution) * ceil_quotient_elems(width, base_resolution) + 1);
    let attn = scores_elems(crops * images, heads, tokens, tokens);
    let qkv = 3 * (crops * heads * tokens * (hidden / heads));
    attn + qkv
}

/// Every step of `phi4_vision_act` fits a machine word.
pub open spec fn phi4_vision_act_fits(
    vision: SiglipConfig,
    base_resolution: int,
    batch: int,
    height: int,
    width: int,
    images: int,
) -> bool {
    let heads = vision.num_attention_heads as int;
    let hidden = vision.hidden_size as int;
    let image = vision.image_size as int;
    let patch = vision.patch_size as int;
    let tokens = square_patches_elems(image, patch) + 1;
    let crops = batch
        * (ceil_quotient_elems(height, base_resolution) * ceil_quotient_elems(width, base_resolution) + 1);
    let attn = scores_elems(crops * images, heads, tokens, tokens);
    let qkv = 3 * (crops * heads * tokens * (hidden / heads));
    &&& square_patches_fits(image, patch)
    &&& word(square_patches_elems(image, patch) + 1)
    &&& ceil_quotient_fits(height, base_resolution)
    &&& ceil_quotient_fits(width, base_resolution)
    &&& word(
        ceil_quotient_elems(height, base_resolution) * ceil_quotient_elems(width, base_resolution),
    )
    &&& word(
        ceil_quotient_elems(
            height,
            base_resolution,
        ) * ceil_quotient_elems(width, base_resolution) + 1,
    )
    &&& word(
        batch
            * (ceil_quotient_elems(height, base_resolution) * ceil_quotient_elems(width, base_resolution) + 1),
    )
    &&& word(crops * images)
    &&& scores_fits(crops * images, heads, tokens, tokens)
    &&& word(crops * heads)
    &&& word(crops * heads * tokens)
    &&& heads > 0
    &&& word(crops * heads * tokens * (hidden / heads))
    &&& word(3 * (crops * heads * tokens * (hidden / heads)))
    &&& word(attn + qkv)
}

/// Scores, queries, keys and values of the vision tower over the crops of an image:
/// one for each square of the base resolution, and one of the whole.
pub fn phi4_vision_act(
    vision: &SiglipConfig,
    base_resolution: usize,
    batch: usize,
    height: usize,
    width: usize,
    images: usize,
) -> (r: usize)
    requires
        phi4_vision_act_fits(
            *vision,
            base_resolution as int,
            batch as int,
            height as int,
            width as int,
            images as int,
        ),
    ensures
        r == phi4_vision_act_elems(
            *vision,
            base_resolution as int,
            batch as int,
            height as int,
            width as int,
            images as int,
        ),
{
    let heads: usize = vision.num_attention_heads;
    let hidden: usize = vision.hidden_size;
    let image: usize = vision.image_size;
    let patch: usize = vision.patch_size;
    let tokens: usize = square_patches(image, patch) + 1;
    let crops: usize = batch
        * (ceil_quotient(height, base_resolution) * ceil_quotient(width, base_resolution) + 1);
    let attn: usize = scores(crops * images, heads, tokens, tokens);
    let qkv: usize = 3 * (crops * heads * tokens * (hidden / heads));
    attn + qkv
}

/// What turns images into embeddings: the projection, the separators and the vision
/// tower.
pub open spec fn phi4_image_embed_elems(
    cfg: Phi4MMConfig,
    vision: SiglipConfig,
    kind: Projection,
    separated: bool,
) -> int {
    let hidden = cfg.hidden_size as int;
    let dim = vision.hidden_size as int;
    let v_width = vision.intermediate_size as int;
    let channels = vision.num_channels as int;
    let image = vision.image_size as int;
    let patch = vision.patch_size as int;
    let layers = vision.num_hidden_layers as int;
    let proj = match kind {
        Projection::Linear => biased_linear_elems(dim, hidden),
        Projection::TiledMlp => biased_linear_elems(dim * 4, hidden)
            + biased_linear_elems(hidden, hidden),
        Projection::Mlp => biased_linear_elems(dim, hidden) + biased_linear_elems(hidden, hidden),
    };
    let separator = if separated { dim * 4 } else { 0 };
    let tower = siglip_vision_elems(dim, v_width, channels, image, patch, layers);
    proj + separator + separator + tower
}

/// Every step of `phi4_image_embed` fits a machine word.
pub open spec fn phi4_image_embed_fits(
    cfg: Phi4MMConfig,
    vision: SiglipConfig,
    kind: Projection,
    separated: bool,
) -> bool {
    let hidden = cfg.hidden_size as int;
    let dim = vision.hidden_size as int;
    let v_width = vision.intermediate_size as int;
    let channels = vision.num_channels as int;
    let image = vision.image_size as int;
    let patch = vision.patch_size as int;
    let layers = vision.num_hidden_layers as int;
    let proj = match kind {
        Projection::Linear => biased_linear_elems(dim, hidden),
        Projection::TiledMlp => biased_linear_elems(dim * 4, hidden)
            + biased_linear_elems(hidden, hidden),
        Projection::Mlp => biased_linear_elems(dim, hidden) + biased_linear_elems(hidden, hidden),
    };
    let separator = if separated { dim * 4 } else { 0 };
    let tower = siglip_vision_elems(dim, v_width, channels, image, patch, layers);
    &&& kind != Projection::TiledMlp ==> biased_linear_fits(dim, hidden)
    &&& kind == Projection::TiledMlp ==> word(dim * 4) && biased_linear_fits(dim * 4, hidden)
    &&& kind != Projection::Linear ==> biased_linear_fits(hidden, hidden)
    &&& word(proj)
    &&& separated ==> word(dim * 4)
    &&& siglip_vision_fits(dim, v_width, channels, image, patch, layers)
    &&& word(proj + separator + separator + tower)
}

/// What turns images into embeddings: the projection, the separators and the vision
/// tower.
pub fn phi4_image_embed(
    cfg: &Phi4MMConfig,
    vision: &SiglipConfig,
    kind: Projection,
    separated: bool,
) -> (r: usize)
    requires
        phi4_image_embed_fits(*cfg, *vision, kind, separated),
    ensures
        r == phi4_image_embed_elems(*cfg, *vision, kind, separated),
{
    let hidden: usize = cfg.hidden_size;
    let dim: usize = vision.hidden_size;
    let v_width: usize = vision.intermediate_size;
    let channels: usize = vision.num_channels;
    let image: usize = vision.image_size;
    let patch: usize = vision.patch_size;
    let layers: usize = vision.num_hidden_layers;
    let proj: usize = match kind {
        Projection::Linear => biased_linear(dim, hidden),
        Projection::TiledMlp => biased_linear(dim * 4, hidden) + biased_linear(hidden, hidden),
        Projection::Mlp => biased_linear(dim, hidden) + biased_linear(hidden, hidden),
    };
    let separator: usize = if separated { dim * 4 } else { 0 };
    let tower: usize = siglip_vision(dim, v_width, channels, image, patch, layers);
    proj + separator + separator + tower
}

/// Token embeddings, output head and final norm.
pub open spec fn phi4_text_elems(cfg: Phi4MMConfig, packs: PackFactors) -> int {
    let hidden = cfg.hidden_size as int;
    let vocab = cfg.vocab_size as int;
    let embed_pack = packs.embed_tokens as int;
    let head_pack = packs.lm_head as int;
    let tied = cfg.tie_word_embeddings;
    text_head_elems(hidden, vocab, tied, embed_pack, head_pack)
}

/// Every step of `phi4_text` fits a machine word.
pub open spec fn phi4_text_fits(cfg: Phi4MMConfig, packs: PackFactors) -> bool {
    let hidden = cfg.hidden_size as int;
    let vocab = cfg.vocab_size as int;
    let embed_pack = packs.embed_tokens as int;
    let head_pack = packs.lm_head as int;
    let tied = cfg.tie_word_embeddings;
    &&& text_head_fits(hidden, vocab, tied, embed_pack, head_pack)
}

/// Token embeddings, output head and final norm.
pub fn phi4_text(cfg: &Phi4MMConfig, packs: PackFactors) -> (r: usize)
    requires
        phi4_text_fits(*cfg, packs),
    ensures
        r == phi4_text_elems(*cfg, packs),
{
    let hidden: usize = cfg.hidden_size;
    let vocab: usize = cfg.vocab_size;
    let embed_pack: usize = packs.embed_tokens;
    let head_pack: usize = packs.lm_head;
    let tied: bool = cfg.tie_word_embeddings;
    text_head(hidden, vocab, tied, embed_pack, head_pack)
}

/// Elements of what is not mapped to layers: nothing where images are embedded
/// by an unknown kind of projection.
pub open spec fn phi4_non_mapped_elems(
    cfg: Phi4MMConfig,
    image: Option<Phi4ImageEmbed>,
    vision: SiglipConfig,
    packs: PackFactors,
) -> Option<int> {
    match image {
        None => Some(phi4_text_elems(cfg, packs)),
        Some(embed) => match embed.projection() {
            Some(kind) => Some(
                phi4_text_elems(cfg, packs) + phi4_image_embed_elems(
                    cfg,
                    vision,
                    kind,
                    embed.separated(),
                ),
            ),
            None => None,
        },
    }
}

/// Every step of the count fits a machine word.
pub open spec fn phi4_non_mapped_fits(
    cfg: Phi4MMConfig,
    image: Option<Phi4ImageEmbed>,
    vision: SiglipConfig,
    packs: PackFactors,
    bytes: nat,
) -> bool {
    &&& phi4_text_fits(cfg, packs)
    &&& image matches Some(embed)
        ==> (embed.projection() matches Some(kind) ==> phi4_image_embed_fits(cfg, vision, kind, embed.separated()))
    &&& phi4_non_mapped_elems(cfg, image, vision, packs) matches Some(n)
        ==> word(n) && word(n * bytes)
}

/// A decoder layer with joined projections.
pub open spec fn phi4_layer_elems(cfg: Phi4MMConfig, pack: int) -> int {
    let hidden = cfg.hidden_size as int;
    let heads = cfg.num_attention_heads as int;
    let kv_heads = cfg.num_key_value_heads as int;
    let head = cfg.head_dim as int;
    let width = cfg.intermediate_size as int;
    let op_size = heads * head + 2 * kv_heads * head;
    let qkv_proj = hidden * op_size / pack;
    let o_proj = heads * head * hidden / pack;
    let gate_up_proj = hidden * (2 * width) / pack;
    let down_proj = hidden * width / pack;
    hidden + hidden + qkv_proj + o_proj + gate_up_proj + down_proj
}

/// Every step of `phi4_layer` fits a machine word.
pub open spec fn phi4_layer_fits(cfg: Phi4MMConfig, pack: int) -> bool {
    let hidden = cfg.hidden_size as int;
    let heads = cfg.num_attention_heads as int;
    let kv_heads = cfg.num_key_value_heads as int;
    let head = cfg.head_dim as int;
    let width = cfg.intermediate_size as int;
    let op_size = heads * head + 2 * kv_heads * head;
    let qkv_proj = hidden * op_size / pack;
    let o_proj = heads * head * hidden / pack;
    let gate_up_proj = hidden * (2 * width) / pack;
    let down_proj = hidden * width / pack;
    &&& word(heads * head)
    &&& word(2 * kv_heads)
    &&& word(2 * kv_heads * head)
    &&& word(heads * head + 2 * kv_heads * head)
    &&& word(hidden * op_size)
    &&& pack > 0
    &&& word(heads * head * hidden)
    &&& word(2 * width)
    &&& word(hidden * (2 * width))
    &&& word(hidden * width)
    &&& word(hidden + hidden + qkv_proj + o_proj + gate_up_proj + down_proj)
}

/// A decoder layer with joined projections.
pub fn phi4_layer(cfg: &Phi4MMConfig, pack: usize) -> (r: usize)
    requires
        phi4_layer_fits(*cfg, pack as int),
    ensures
        r == phi4_layer_elems(*cfg, pack as int),
{
    let hidden: usize = cfg.hidden_size;
    let heads: usize = cfg.num_attention_heads;
    let kv_heads: usize = cfg.num_key_value_heads;
    let head: usize = cfg.head_dim;
    let width: usize = cfg.intermediate_size;
    let op_size: usize = heads * head + 2 * kv_heads * head;
    let qkv_proj: usize = hidden * op_size / pack;
    let o_proj: usize = heads * head * hidden / pack;
    let gate_up_proj: usize = hidden * (2 * width) / pack;
    let down_proj: usize = hidden * width / pack;
    hidden + hidden + qkv_proj + o_proj + gate_up_proj + down_proj
}

/// Marks numbered from one.
pub open spec fn numbered_marks(open: Seq<char>, indexes: Seq<usize>) -> Seq<char>
    decreases indexes.len(),
{
    if indexes.len() == 0 {
        Seq::empty()
    } else {
        numbered_marks(
            open,
            indexes.drop_last(),
        ) + (open + decimal((indexes.last() + 1) as nat) + "|>"@)
    }
}

fn mark_all(open: &str, indexes: &Vec<usize>, prompt: &str) -> (r: String)
    requires
        forall|i: int| 0 <= i < indexes@.len() ==> #[trigger] indexes@[i] < usize::MAX,
    ensures
        r@ == numbered_marks(open@, indexes@) + prompt@,
{
    let n: usize = indexes.len();
    let mut s: String = String::new();
    let mut i: usize = 0;
    assert(s@ =~= numbered_marks(open@, indexes@.take(0)));
    while i < n
        invariant
            i <= n == indexes@.len(),
            forall|j: int| 0 <= j < indexes@.len() ==> #[trigger] indexes@[j] < usize::MAX,
            s@ == numbered_marks(open@, indexes@.take(i as int)),
        decreases n - i,
    {
        assert(indexes@[i as int] < usize::MAX);
        let ghost before = s@;
        s.append(open);
        push_decimal(&mut s, indexes[i] + 1);
        s.append("|>");
        assert(indexes@.take(i + 1).drop_last() =~= indexes@.take(i as int));
        assert(s@ =~= before + (open@ + decimal((indexes@[i as int] + 1) as nat) + "|>"@));
        i += 1;
    }
    assert(indexes@.take(n as int) =~= indexes@);
    s.append(prompt);
    s
}

/// Marks the media of Phi-4-multimodal prompts.
pub struct Phi4MMPrefixer;

impl Phi4MMPrefixer {
    /// The prompt behind a mark for each image. Images are counted from zero, marks
    /// from one.
    pub fn prefix_image(&self, image_indexes: &Vec<usize>, prompt: &str) -> (r: String)
        requires
            forall|i: int| 0 <= i < image_indexes@.len()
                ==> #[trigger] image_indexes@[i] < usize::MAX,
        ensures
            r@ == numbered_marks("<|image_"@, image_indexes@) + prompt@,
    {
        mark_all("<|image_", image_indexes, prompt)
    }

    /// The prompt behind a mark for each audio clip.
    pub fn prefix_audio(&self, audio_indexes: &Vec<usize>, prompt: &str) -> (r: String)
        requires
            forall|i: int| 0 <= i < audio_indexes@.len()
                ==> #[trigger] audio_indexes@[i] < usize::MAX,
        ensures
            r@ == numbered_marks("<|audio_"@, audio_indexes@) + prompt@,
    {
        mark_all("<|audio_", audio_indexes, prompt)
    }
}

/// Loader of Phi-4-multimodal models.
pub struct Phi4MMLoader;

impl Phi4MMLoader {
    /// Elements of the largest activation of a layer.
    pub fn mapped_max_act_size_elems(
        &self,
        cfg: &Phi4MMConfig,
        vision: &SiglipConfig,
        params: &AutoDeviceMapParams,
        attention_chunk: usize,
    ) -> (r: Result<usize, LoaderError>)
        requires
            match *params {
                AutoDeviceMapParams::Multimodal {
                    max_seq_len,
                    max_batch_size,
                    max_num_images,
                    ..
                } => phi4_mapped_act_fits(
                    *cfg,
                    *vision,
                    max_seq_len as int,
                    max_batch_size as int,
                    max_num_images as int,
                    attention_chunk as int,
                ),
                _ => true,
            },
        ensures
            match *params {
                AutoDeviceMapParams::Multimodal {
                    max_seq_len,
                    max_batch_size,
                    max_num_images,
                    ..
                } => r matches Ok(n) && n == phi4_mapped_act_elems(
                    *cfg,
                    *vision,
                    max_seq_len as int,
                    max_batch_size as int,
                    max_num_images as int,
                    attention_chunk as int,
                ),
                _ => r == Err::<usize, LoaderError>(LoaderError::ExpectedMultimodal),
            },
    {
        match params {
            AutoDeviceMapParams::Multimodal {
                max_seq_len,
                max_batch_size,
                max_num_images,
                ..
            } => Ok(
                phi4_mapped_act(
                    cfg,
                    vision,
                    *max_seq_len,
                    *max_batch_size,
                    *max_num_images,
                    attention_chunk,
                ),
            ),
            _ => Err(LoaderError::ExpectedMultimodal),
        }
    }

    /// Elements of the largest activation outside the layers.
    pub fn non_mapped_max_act_size_elems(
        &self,
        vision: &SiglipConfig,
        base_resolution: usize,
        params: &AutoDeviceMapParams,
    ) -> (r: Result<usize, LoaderError>)
        requires
            match *params {
                AutoDeviceMapParams::Multimodal {
                    max_batch_size,
                    max_image_shape,
                    max_num_images,
                    ..
                } => phi4_vision_act_fits(
                    *vision,
                    base_resolution as int,
                    max_batch_size as int,
                    max_image_shape.0 as int,
                    max_image_shape.1 as int,
                    max_num_images as int,
                ),
                _ => true,
            },
        ensures
            match *params {
                AutoDeviceMapParams::Multimodal {
                    max_batch_size,
                    max_image_shape,
                    max_num_images,
                    ..
                } => r matches Ok(n) && n == phi4_vision_act_elems(
                    *vision,
                    base_resolution as int,
                    max_batch_size as int,
                    max_image_shape.0 as int,
                    max_image_shape.1 as int,
                    max_num_images as int,
                ),
                _ => r == Err::<usize, LoaderError>(LoaderError::ExpectedMultimodal),
            },
    {
        match params {
            AutoDeviceMapParams::Multimodal {
                max_batch_size,
                max_image_shape,
                max_num_images,
                ..
            } => Ok(
                phi4_vision_act(
                    vision,
                    base_resolution,
                    *max_batch_size,
                    max_image_shape.0,
                    max_image_shape.1,
                    *max_num_images,
                ),
            ),
            _ => Err(LoaderError::ExpectedMultimodal),
        }
    }

    /// The tensors by whose quantization the pack factors are known.
    pub fn pack_lookup(&self, cfg: &Phi4MMConfig) -> (r: PackLookup)
        ensures
            r.asks(
                seq!["model.embed_tokens.weight"@],
                "lm_head.weight"@,
                cfg.tie_word_embeddings,
            ),
    {
        let embed_tokens = vec!["model.embed_tokens.weight"];
        assert(literals(embed_tokens@) =~= seq!["model.embed_tokens.weight"@]);
        PackLookup { embed_tokens, lm_head: "lm_head.weight", tied: cfg.tie_word_embeddings }
    }

    /// Bytes of what is not mapped to layers.
    pub fn non_mapped_size_in_bytes(
        &self,
        cfg: &Phi4MMConfig,
        image_embd_layer: &Option<Phi4ImageEmbed>,
        vision: &SiglipConfig,
        dtype: DType,
        packs: PackFactors,
    ) -> (r: Result<usize, LoaderError>)
        requires
            phi4_non_mapped_fits(*cfg, *image_embd_layer, *vision, packs, dtype.bytes()),
        ensures
            match phi4_non_mapped_elems(*cfg, *image_embd_layer, *vision, packs) {
                Some(n) => r matches Ok(size) && size == n * dtype.bytes(),
                None => r matches Err(
                    LoaderError::ProjectionClass(s),
                ) && s@ == image_embd_layer->0.class(),
            },
    {
        let text: usize = phi4_text(cfg, packs);
        let elems: usize = match image_embd_layer {
            None => text,
            Some(embed) => match embed.read_projection() {
                Ok(kind) => {
                    let separated: bool = match embed.with_learnable_separator {
                        Some(true) => true,
                        _ => false,
                    };
                    text + phi4_image_embed(cfg, vision, kind, separated)
                },
                Err(e) => {
                    return Err(e);
                },
            },
        };
        Ok(elems * dtype.size_in_bytes())
    }

    /// Bytes of each layer.
    pub fn layer_sizes_in_bytes(
        &self,
        cfg: &Phi4MMConfig,
        dtype: DType,
        weight_pack_factor: usize,
    ) -> (r: Vec<usize>)
        requires
            phi4_layer_fits(*cfg, weight_pack_factor as int),
            word(phi4_layer_elems(*cfg, weight_pack_factor as int) * dtype.bytes()),
        ensures
            r@.len() == cfg.num_hidden_layers,
            forall|i: int| 0 <= i < r@.len()
                ==> #[trigger] r@[i] == phi4_layer_elems(
                    *cfg,
                    weight_pack_factor as int,
                ) * dtype.bytes(),
    {
        let elems: usize = phi4_layer(cfg, weight_pack_factor);
        uniform(elems * dtype.size_in_bytes(), cfg.num_hidden_layers)
    }

    /// Number of layers.
    pub fn num_layers(&self, cfg: &Phi4MMConfig) -> (r: usize)
        ensures
            r == cfg.num_hidden_layers,
    {
        cfg.num_hidden_layers
    }

    /// What the paged cache needs to know of the model.
    pub fn model_config(&self, cfg: &Phi4MMConfig) -> (r: ModelConfigMetadata)
        ensures
            r == (ModelConfigMetadata {
                max_seq_len: cfg.max_position_embeddings,
                num_layers: cfg.num_hidden_layers,
                hidden_size: cfg.hidden_size,
                num_kv_heads: cfg.num_key_value_heads,
                num_attn_heads: cfg.num_attention_heads,
                sliding_window: cfg.sliding_window,
                k_head_dim: cfg.head_dim,
                v_head_dim: cfg.head_dim,
                kv_cache_layout: KvCacheLayout::Standard,
            }),
    {
        ModelConfigMetadata {
                max_seq_len: cfg.max_position_embeddings,
                num_layers: cfg.num_hidden_layers,
                hidden_size: cfg.hidden_size,
                num_kv_heads: cfg.num_key_value_heads,
                num_attn_heads: cfg.num_attention_heads,
                sliding_window: cfg.sliding_window,
                k_head_dim: cfg.head_dim,
                v_head_dim: cfg.head_dim,
                kv_cache_layout: KvCacheLayout::Standard,
        }
    }

    /// The parts that are not mapped to layers.
    pub fn non_mapped_sub_models(&self) -> (r: Option<Vec<NonMappedSubModel>>)
        ensures
            r matches Some(v) && v@ == seq![NonMappedSubModel::Vision, NonMappedSubModel::Audio],
    {
        Some(vec![NonMappedSubModel::Vision, NonMappedSubModel::Audio])
    }

    /// What the model reads and writes.
    pub fn modalities(&self) -> (r: Modalities)
        ensures
            r.reads(
                seq![SupportedModality::Text, SupportedModality::Vision, SupportedModality::Audio],
            ),
    {
        Modalities {
            input: vec![
                SupportedModality::Text,
                SupportedModality::Vision,
                SupportedModality::Audio,
            ],
            output: vec![SupportedModality::Text],
        }
    }

    /// Whether rotary embeddings split a head in halves by default.
    pub fn is_gptx(&self) -> (r: bool)
        ensures
            r == true,
    {
        true
    }

    /// Whether the model runs with paged attention.
    pub fn supports_paged_attention(&self) -> (r: bool)
        ensures
            r == true,
    {
        true
    }

    /// Whether encoder outputs can be cached.
    pub fn supports_encoder_cache(&self) -> (r: bool)
        ensures
            r == true,
    {
        true
    }

    /// Whether prompt prefixes can be cached.
    pub fn supports_prefix_cacher(&self) -> (r: bool)
        ensures
            r == true,
    {
        true
    }

    /// Tensors that keep a higher precision when quantized.
    pub open spec fn promoted_isq_predicates_texts(&self) -> Seq<Seq<char>> {
        seq![r"^model\.embed_tokens\.weight$"@] + seq![ROOT_LM_HEAD@]
    }

    /// Tensors that keep a higher precision when quantized.
    pub fn promoted_isq_predicates(&self) -> (r: Vec<String>)
        ensures
            texts(r@) == self.promoted_isq_predicates_texts(),
    {
        let mut out: Vec<String> = Vec::new();
        push_pattern(&mut out, r"^model\.embed_tokens\.weight$");
        push_pattern(&mut out, ROOT_LM_HEAD);
        assert(texts(out@) =~= self.promoted_isq_predicates_texts());
        out
    }

    /// Tensors that are quantized.
    pub open spec fn isq_layer_regexes_texts(&self) -> Seq<Seq<char>> {
        seq![LM_HEAD@] + family(
                ANY_LAYER@,
                seq![
                    r"self_attn\.qkv_proj"@,
                    r"self_attn\.o_proj"@,
                    r"mlp\.gate_up_proj"@,
                    r"mlp\.down_proj"@,
                ],
                WEIGHT_OR_BIAS@,
            )
    }

    /// Tensors that are quantized.
    pub fn isq_layer_regexes(&self) -> (r: Vec<String>)
        ensures
            texts(r@) == self.isq_layer_regexes_texts(),
    {
        let mut out: Vec<String> = Vec::new();
        push_pattern(&mut out, LM_HEAD);
        let list0 = vec![
            r"self_attn\.qkv_proj",
            r"self_attn\.o_proj",
            r"mlp\.gate_up_proj",
            r"mlp\.down_proj",
        ];
        assert(
            literals(list0@) =~= seq![
                r"self_attn\.qkv_proj"@,
                r"self_attn\.o_proj"@,
                r"mlp\.gate_up_proj"@,
                r"mlp\.down_proj"@,
            ]
        );
        push_family(&mut out, ANY_LAYER, &list0, WEIGHT_OR_BIAS);
        assert(texts(out@) =~= self.isq_layer_regexes_texts());
        out
    }

    /// Tensors that are quantized while they are loaded: those that are quantized.
    pub fn immediate_isq_predicates(&self) -> (r: Vec<String>)
        ensures
            texts(r@) == self.isq_layer_regexes_texts(),
    {
        self.isq_layer_regexes()
    }
}

} // verus!
