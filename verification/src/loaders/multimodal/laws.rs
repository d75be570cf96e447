//! What the sizes of multimodal models follow from.

use vstd::arithmetic::mul::lemma_mul_is_associative;
use vstd::prelude::*;

use crate::loaders::multimodal::diffusion_gemma::{
    diffusion_attention_elems, diffusion_experts_elems, diffusion_layer_elems,
    diffusion_mapped_act_elems, diffusion_non_mapped_act_elems, diffusion_text_elems,
    diffusion_vision_elems, or_zero, vision_dtype, vision_tokens, DiffusionGemmaConfig,
    DiffusionTextConfig, DiffusionVisionConfig,
};
use crate::loaders::multimodal::lfm2vl::{
    lfm2vl_attention_elems, lfm2vl_conv_elems, lfm2vl_layer_elems, lfm2vl_mapped_act_elems,
    lfm2vl_non_mapped_elems, lfm2vl_projector_elems, lfm2vl_vision_act_elems, lfm2vl_vision_elems,
    max_crops_per_image_elems, max_image_seq_len_elems, max_num_patches_elems, Lfm2VlConfig,
    Lfm2VlTextConfig, Lfm2VlVisionConfig,
};
use crate::loaders::multimodal::minicpm_o::{
    minicpmo_layer_elems, minicpmo_mapped_act_elems, minicpmo_non_mapped_elems,
    minicpmo_vision_act_elems, MiniCpmOConfig,
};
use crate::loaders::multimodal::mistral3::{
    mistral3_image_tokens_elems, mistral3_layer_elems, mistral3_mapped_act_elems,
    mistral3_non_mapped_elems, mistral3_vision_act_elems, mistral3_vision_layer_elems,
    Mistral3Config, Mistral3VisionConfig,
};
use crate::loaders::multimodal::muse_glimmer::{
    muse_glimmer_layer_elems, muse_glimmer_mapped_act_elems, muse_glimmer_non_mapped_elems,
    muse_glimmer_vision_act_elems, muse_glimmer_vision_elems, MuseGlimmerConfig,
    MuseGlimmerVisionConfig,
};
use crate::loaders::multimodal::phi4mm::{
    phi4_image_embed_elems, phi4_layer_elems, phi4_mapped_act_elems, phi4_non_mapped_elems,
    phi4_text_elems, phi4_vision_act_elems, Phi4ImageEmbed, Phi4MMConfig, Projection,
};
use crate::loaders::multimodal::qwen2vl::{
    qwen2vl_encoder_layer_elems, qwen2vl_layer_elems, qwen2vl_mapped_act_elems,
    qwen2vl_merger_elems, qwen2vl_non_mapped_elems, qwen2vl_vision_act_elems, qwen2vl_vision_elems,
    Qwen2VLConfig, Qwen2VLVisionConfig,
};
use crate::loaders::multimodal::qwen3_5_moe::{
    qwen3_5_experts_elems, qwen3_5_full_elems, qwen3_5_linear_elems, qwen3_5_moe_layer_elems,
    qwen3_5_moe_mapped_act_elems, qwen3_5_moe_non_mapped_elems, Qwen3_5MoeConfig,
    Qwen3_5MoeTextConfig,
};
use crate::loaders::multimodal::qwen3vl::{
    qwen3vl_layer_elems, qwen3vl_mapped_act_elems, qwen3vl_merger_elems, qwen3vl_non_mapped_elems,
    qwen3vl_vision_act_elems, qwen3vl_vision_elems, Qwen3VLConfig, Qwen3VLVisionConfig,
};
use crate::loaders::multimodal::vllama::{
    vllama_encoder_layer_elems, vllama_image_tokens_elems, vllama_layer_elems,
    vllama_mapped_act_elems, vllama_non_mapped_elems, vllama_positions_elems,
    vllama_vision_act_elems, vllama_vision_elems, MLlamaConfig, MLlamaVisionConfig,
};
use crate::loaders::multimodal::vllama4::{
    vllama4_encoder_layer_elems, vllama4_experts_elems, vllama4_layer_elems,
    vllama4_mapped_act_elems, vllama4_non_mapped_elems, vllama4_vision_act_elems,
    vllama4_vision_elems, Llama4Config, Llama4VisionConfig, ProcessedPixels,
};
use crate::loaders::multimodal::voxtral::{
    voxtral_encoder_act_elems, voxtral_encoder_elems, voxtral_layer_elems,
    voxtral_mapped_act_elems, voxtral_non_mapped_elems, VoxtralConfig, VoxtralEncoderConfig,
};
use crate::loaders::multimodal::{clip_vit_elems, ClipConfig, SiglipConfig};
use crate::loaders::normal::lfm2::Lfm2LayerType;
use crate::loaders::normal::qwen3_next::LayerType;
use crate::loaders::sizes::{
    attention_elems, ceil_quotient_elems, gated_mlp_elems, law_attention_is_packed_whole,
    law_gated_blocks_are_packed_whole, law_words_have_rows, lemma_packed, lemma_quotient,
    patch_conv_elems, siglip_vision_elems, square_patches_elems, text_head_elems, vit_layer_elems,
};
use crate::loaders::PackFactors;
use crate::ops::law_rounding_up_is_enough;
use crate::tensor::DType;

verus! {

/// A head has as many rows, in and out, as it has channels; queries and keys have a norm each.
#[verifier::rlimit(40)]
pub proof fn law_lfm2vl_heads_cost(cfg: Lfm2VlTextConfig, more: Lfm2VlTextConfig)
    by (nonlinear_arith)
    ensures
        more == (Lfm2VlTextConfig { num_attention_heads: more.num_attention_heads, ..cfg })
            ==> lfm2vl_attention_elems(more, 1) - lfm2vl_attention_elems(cfg, 1)
            == (2 * cfg.hidden_size * cfg.head_dim)
            * (more.num_attention_heads - cfg.num_attention_heads),
        more == (Lfm2VlTextConfig { num_key_value_heads: more.num_key_value_heads, ..cfg })
            ==> lfm2vl_attention_elems(more, 1) - lfm2vl_attention_elems(cfg, 1)
            == (2 * cfg.hidden_size * cfg.head_dim)
            * (more.num_key_value_heads - cfg.num_key_value_heads),
        cfg.num_attention_heads == 0 && cfg.num_key_value_heads == 0
            ==> lfm2vl_attention_elems(cfg, 1) == 2 * cfg.head_dim,
{
}

/// A convolution has three projections in, one out, and its taps; biases go with all of them.
#[verifier::rlimit(40)]
pub proof fn law_lfm2vl_convolutions_cost(cfg: Lfm2VlTextConfig, more: Lfm2VlTextConfig)
    by (nonlinear_arith)
    ensures
        more == (Lfm2VlTextConfig { conv_l_cache: more.conv_l_cache, ..cfg })
            ==> lfm2vl_conv_elems(more, 1) - lfm2vl_conv_elems(cfg, 1)
            == (cfg.hidden_size) * (more.conv_l_cache - cfg.conv_l_cache),
        cfg.conv_l_cache == 0
            ==> lfm2vl_conv_elems(cfg, 1)
            == 4 * cfg.hidden_size * cfg.hidden_size
            + (if cfg.conv_bias { 5 * cfg.hidden_size } else { 0 }),
{
}

/// Packing divides the projections evenly, and neither norms, taps nor biases.
pub proof fn law_lfm2vl_packs_projections(cfg: Lfm2VlTextConfig, pack: int, k: int)
    requires
        pack > 0,
        cfg.hidden_size == pack * k,
    ensures
        pack * (lfm2vl_attention_elems(cfg, pack) - 2 * cfg.head_dim) == lfm2vl_attention_elems(
            cfg,
            1,
        ) - 2 * cfg.head_dim,
        ({
            let rest = cfg.hidden_size * cfg.conv_l_cache + (if cfg.conv_bias {
                5 * cfg.hidden_size
            } else {
                0
            });
            pack * (lfm2vl_conv_elems(cfg, pack) - rest) == lfm2vl_conv_elems(cfg, 1) - rest
        }),
{
    let h = cfg.hidden_size as int;
    let (q, kv) = (cfg.num_attention_heads * cfg.head_dim, cfg.num_key_value_heads * cfg.head_dim);
    lemma_packed(h, q + kv * 2 + q, pack, k);
    assert(h * q + h * kv * 2 + q * h == h * (q + kv * 2 + q)) by (nonlinear_arith);
    lemma_packed(h, 3 * h + h, pack, k);
    assert(h * 3 * h + h * h == h * (3 * h + h)) by (nonlinear_arith);
}

/// An image counts as much as its tokens; each query of a chunk is scored against each of its keys,
/// by each head.
pub proof fn law_lfm2vl_images_count_as_tokens(cfg: Lfm2VlConfig, seq: int, batch: int,
    images: int, chunk: int)
    requires
        0 <= seq,
        0 <= chunk,
    ensures
        seq <= chunk ==> lfm2vl_mapped_act_elems(cfg, seq, batch, images, chunk)
            == lfm2vl_mapped_act_elems(cfg, seq, batch, images, seq),
        chunk <= seq ==> lfm2vl_mapped_act_elems(cfg, seq, batch, images, chunk)
            == lfm2vl_mapped_act_elems(cfg, chunk, batch, images, chunk),
        ({
            let all = seq + max_image_seq_len_elems(cfg) * images;
            lfm2vl_mapped_act_elems(cfg, seq, batch, images, seq)
                == lfm2vl_mapped_act_elems(cfg, all, batch, 0, all)
        }),
        lfm2vl_mapped_act_elems(cfg, seq + 1, batch, 0, seq + 1)
            - lfm2vl_mapped_act_elems(cfg, seq, batch, 0, seq)
            == batch * cfg.text_config.num_attention_heads * (2 * seq + 1),
        lfm2vl_mapped_act_elems(cfg, 0, batch, 0, 0) == 0,
{
    let n = batch * cfg.text_config.num_attention_heads;
    let tokens = max_image_seq_len_elems(cfg);
    assert(tokens * 0 == 0) by (nonlinear_arith);
    assert(n * (seq + 1) * (seq + 1) - n * seq * seq == n * (2 * seq + 1)) by (nonlinear_arith);
    assert(n * 0 * 0 == 0) by (nonlinear_arith);
}

/// A tile has one token for each square of `downsample_factor` patches a side, where squares that
/// stand out count whole. A split image has the tokens of all tiles, and those of the whole where
/// it is shown too; else it has those of the whole.
pub proof fn law_lfm2vl_tiles_have_tokens(cfg: Lfm2VlConfig) -> (side: int)
    requires
        cfg.downsample_factor > 0,
        cfg.encoder_patch_size > 0,
    ensures
        !cfg.do_image_splitting ==> max_image_seq_len_elems(cfg) == cfg.max_image_tokens,
        cfg.do_image_splitting ==> max_image_seq_len_elems(cfg) == cfg.max_tiles * (side * side)
            + (if cfg.use_thumbnail {
            cfg.max_image_tokens as int
        } else {
            0
        }),
        cfg.tile_size / cfg.encoder_patch_size <= cfg.downsample_factor * side,
        cfg.tile_size >= cfg.encoder_patch_size ==> cfg.downsample_factor * (side - 1)
            < cfg.tile_size / cfg.encoder_patch_size,
        max_crops_per_image_elems(cfg) == (if cfg.do_image_splitting {
            cfg.max_tiles + (if cfg.use_thumbnail {
                1int
            } else {
                0
            })
        } else {
            1
        }),
        max_num_patches_elems(cfg) >= cfg.max_image_tokens * (cfg.downsample_factor
            * cfg.downsample_factor),
        cfg.do_image_splitting ==> max_num_patches_elems(cfg) >= square_patches_elems(
            cfg.tile_size as int,
            cfg.encoder_patch_size as int,
        ),
        max_num_patches_elems(cfg) == cfg.max_image_tokens * (cfg.downsample_factor
            * cfg.downsample_factor) || (cfg.do_image_splitting && max_num_patches_elems(cfg)
            == square_patches_elems(cfg.tile_size as int, cfg.encoder_patch_size as int)),
{
    let patches = cfg.tile_size as int / cfg.encoder_patch_size as int;
    let factor = cfg.downsample_factor as int;
    lemma_quotient(cfg.tile_size as int, cfg.encoder_patch_size as int);
    assert(patches >= 0) by (nonlinear_arith)
        requires
            patches == cfg.tile_size as int / cfg.encoder_patch_size as int,
            cfg.encoder_patch_size > 0,
    ;
    assert(cfg.tile_size >= cfg.encoder_patch_size ==> patches > 0) by (nonlinear_arith)
        requires
            patches == cfg.tile_size as int / cfg.encoder_patch_size as int,
            cfg.encoder_patch_size > 0,
    ;
    law_rounding_up_is_enough(patches as nat, factor as nat);
    let side = ceil_quotient_elems(patches, factor);
    assert(factor * (side - 1) == (side - 1) * factor && factor * side == side * factor)
        by (nonlinear_arith);
    side
}

/// A vision model needs room for its scores and for its states, whichever is more.
pub proof fn law_lfm2vl_vision_has_room(cfg: Lfm2VlConfig, batch: int, images: int)
    ensures
        ({
            let items = batch * (images * max_crops_per_image_elems(cfg));
            let patches = max_num_patches_elems(cfg);
            let r = lfm2vl_vision_act_elems(cfg, batch, images);
            &&& r >= items * cfg.vision_config.num_attention_heads * patches * patches
            &&& r >= items * patches * cfg.vision_config.hidden_size || items * patches < 0
            &&& r >= items * patches * cfg.vision_config.intermediate_size || items * patches < 0
            &&& r == items * cfg.vision_config.num_attention_heads * patches * patches || r == items
                * patches * cfg.vision_config.hidden_size || r == items * patches
                * cfg.vision_config.intermediate_size
        }),
{
    let n = batch * (images * max_crops_per_image_elems(cfg)) * max_num_patches_elems(cfg);
    let (a, b) = (cfg.vision_config.hidden_size as int, cfg.vision_config.intermediate_size as int);
    if n >= 0 {
        assert(a <= b ==> n * a <= n * b) by (nonlinear_arith)
            requires
                n >= 0,
        ;
        assert(b <= a ==> n * b <= n * a) by (nonlinear_arith)
            requires
                n >= 0,
        ;
    }
}

/// A patch has a position; a channel of the pixels a weight for each pixel of a patch and each
/// output; an inner channel of a layer a row in, a row out and a bias. A layer has four square
/// projections and two norms, all with biases.
pub proof fn law_lfm2vl_vision_costs(cfg: Lfm2VlVisionConfig, more: Lfm2VlVisionConfig)
    ensures
        more == (Lfm2VlVisionConfig { num_patches: more.num_patches, ..cfg })
            ==> lfm2vl_vision_elems(more) - lfm2vl_vision_elems(cfg)
            == (cfg.hidden_size) * (more.num_patches - cfg.num_patches),
        more == (Lfm2VlVisionConfig { num_channels: more.num_channels, ..cfg })
            ==> lfm2vl_vision_elems(more) - lfm2vl_vision_elems(cfg)
            == (cfg.patch_size * cfg.patch_size * cfg.hidden_size)
            * (more.num_channels - cfg.num_channels),
        more == (Lfm2VlVisionConfig { intermediate_size: more.intermediate_size, ..cfg })
            ==> lfm2vl_vision_elems(more) - lfm2vl_vision_elems(cfg)
            == (cfg.num_hidden_layers * (2 * cfg.hidden_size + 1))
            * (more.intermediate_size - cfg.intermediate_size),
        cfg.num_patches == 0 && cfg.num_channels == 0 && cfg.intermediate_size == 0
            ==> lfm2vl_vision_elems(cfg)
            == 3 * cfg.hidden_size
            + cfg.num_hidden_layers
            * (4 * cfg.hidden_size * (cfg.hidden_size + 1) + 5 * cfg.hidden_size),
{
    assert(more == (Lfm2VlVisionConfig { num_patches: more.num_patches, ..cfg })
        ==> lfm2vl_vision_elems(more) - lfm2vl_vision_elems(cfg)
        == (cfg.hidden_size) * (more.num_patches - cfg.num_patches)) by (nonlinear_arith);
    if more == (Lfm2VlVisionConfig { num_channels: more.num_channels, ..cfg }) {
        let (a, b) = (cfg.num_channels as int, more.num_channels as int);
        let (p, h) = (cfg.patch_size as int, cfg.hidden_size as int);
        assert(b * p * p * h - a * p * p * h == (p * p * h) * (b - a)) by (nonlinear_arith);
    }
    if more == (Lfm2VlVisionConfig { intermediate_size: more.intermediate_size, ..cfg }) {
        let (a, b) = (cfg.intermediate_size as int, more.intermediate_size as int);
        let (n, h) = (cfg.num_hidden_layers as int, cfg.hidden_size as int);
        let (attn, norms) = (4 * (h * h + h), 4 * h);
        let x = attn + (h * a + a + a * h + h) + norms;
        let y = attn + (h * b + b + b * h + h) + norms;
        assert(n * y - n * x == (n * (2 * h + 1)) * (b - a)) by (nonlinear_arith)
            requires
                x == attn + (h * a + a + a * h + h) + norms,
                y == attn + (h * b + b + b * h + h) + norms,
        ;
    }
    assert(cfg.num_patches == 0 && cfg.num_channels == 0 && cfg.intermediate_size == 0
        ==> lfm2vl_vision_elems(cfg)
        == 3 * cfg.hidden_size
        + cfg.num_hidden_layers
        * (4 * cfg.hidden_size * (cfg.hidden_size + 1)
        + 5 * cfg.hidden_size)) by (nonlinear_arith);
}

/// The projector has a row in and a row out for each inner channel; a bias goes with each channel
/// that comes out of a projection, and the norm has two weights for each channel that goes in.
#[verifier::rlimit(40)]
pub proof fn law_lfm2vl_projectors_cost(cfg: Lfm2VlConfig)
    by (nonlinear_arith)
    ensures
        lfm2vl_projector_elems(cfg, 1) == cfg.projector_hidden_size * (
        cfg.vision_config.hidden_size * (cfg.downsample_factor * cfg.downsample_factor)
            + cfg.text_config.hidden_size) + (if cfg.projector_bias {
            cfg.projector_hidden_size + cfg.text_config.hidden_size
        } else {
            0
        }) + (if cfg.projector_use_layernorm {
            2 * cfg.vision_config.hidden_size * (cfg.downsample_factor * cfg.downsample_factor)
        } else {
            0
        }),
{
}

/// Packing divides the projections evenly, and neither biases nor the norm.
pub proof fn law_lfm2vl_packs_the_projector(cfg: Lfm2VlConfig, pack: int, k: int)
    requires
        pack > 0,
        cfg.projector_hidden_size == pack * k,
    ensures
        ({
            let rest = (if cfg.projector_bias {
                cfg.projector_hidden_size + cfg.text_config.hidden_size
            } else {
                0
            }) + (if cfg.projector_use_layernorm {
                2 * (cfg.vision_config.hidden_size * (cfg.downsample_factor
                    * cfg.downsample_factor))
            } else {
                0
            });
            pack * (lfm2vl_projector_elems(cfg, pack) - rest) == lfm2vl_projector_elems(cfg, 1)
                - rest
        }),
{
    let w = cfg.projector_hidden_size as int;
    let x = cfg.vision_config.hidden_size * (cfg.downsample_factor * cfg.downsample_factor);
    let y = cfg.text_config.hidden_size as int;
    lemma_packed(w, x, pack, k);
    lemma_packed(w, y, pack, k);
    let (a, b) = (k * x, k * y);
    assert(pack * (a + b) == pack * a + pack * b) by (nonlinear_arith);
}

/// A layer is its operator, a gated block, and a norm in front of each. Packing divides the block
/// evenly.
pub proof fn law_lfm2vl_layers_have_two_norms(
    cfg: Lfm2VlConfig,
    kind: Lfm2LayerType,
    pack: int,
    k: int,
)
    requires
        pack > 0,
        cfg.text_config.hidden_size == pack * k,
    ensures
        ({
            let block = lfm2vl_layer_elems(cfg, kind, pack) - 2 * cfg.text_config.hidden_size - (
            if kind == Lfm2LayerType::Attention {
                lfm2vl_attention_elems(cfg.text_config, pack)
            } else {
                lfm2vl_conv_elems(cfg.text_config, pack)
            });
            pack * block == gated_mlp_elems(
                cfg.text_config.hidden_size as int,
                cfg.text_config.intermediate_size as int,
                1,
            )
        }),
{
    let h = cfg.text_config.hidden_size as int;
    let w = cfg.text_config.intermediate_size as int;
    lemma_packed(h, 3 * w, pack, k);
    assert(3 * h * w == h * (3 * w) && h * w + h * w + h * w == h * (3 * w)) by (nonlinear_arith);
}

/// Words have rows in the embeddings and, unless they are tied, in the output head.
pub proof fn law_lfm2vl_words_have_rows(cfg: Lfm2VlConfig, packs: PackFactors) -> (rows: (int, int))
    requires
        packs.embed_tokens > 0,
        packs.lm_head > 0,
    ensures
        lfm2vl_non_mapped_elems(cfg, packs) - lfm2vl_vision_elems(cfg.vision_config)
            - lfm2vl_projector_elems(cfg, packs.weight as int)
            == rows.0 + rows.1 + cfg.text_config.hidden_size,
        packs.embed_tokens * rows.0
            <= cfg.text_config.hidden_size * cfg.text_config.vocab_size
            < packs.embed_tokens * (rows.0 + 1),
        cfg.text_config.tie_word_embeddings ==> rows.1 == 0,
        !cfg.text_config.tie_word_embeddings
            ==> packs.lm_head * rows.1
            <= cfg.text_config.hidden_size * cfg.text_config.vocab_size
            < packs.lm_head * (rows.1 + 1),
{
    law_words_have_rows(
        cfg.text_config.hidden_size as int,
        cfg.text_config.vocab_size as int,
        cfg.text_config.tie_word_embeddings,
        packs.embed_tokens as int,
        packs.lm_head as int,
    )
}

/// An image counts as much as its tokens; each query of a chunk is scored against each of its keys,
/// by each head.
pub proof fn law_minicpmo_images_count_as_tokens(cfg: MiniCpmOConfig, seq: int, batch: int,
    images: int, chunk: int)
    requires
        0 <= seq,
        0 <= chunk,
    ensures
        seq <= chunk ==> minicpmo_mapped_act_elems(cfg, seq, batch, images, chunk)
            == minicpmo_mapped_act_elems(cfg, seq, batch, images, seq),
        chunk <= seq ==> minicpmo_mapped_act_elems(cfg, seq, batch, images, chunk)
            == minicpmo_mapped_act_elems(cfg, chunk, batch, images, chunk),
        ({
            let all = seq
                + (square_patches_elems(cfg.vision_config.image_size as int,
                cfg.vision_config.patch_size as int) + 1) * images;
            minicpmo_mapped_act_elems(cfg, seq, batch, images, seq)
                == minicpmo_mapped_act_elems(cfg, all, batch, 0, all)
        }),
        minicpmo_mapped_act_elems(cfg, seq + 1, batch, 0, seq + 1)
            - minicpmo_mapped_act_elems(cfg, seq, batch, 0, seq)
            == batch * cfg.text_config.num_attention_heads * (2 * seq + 1),
        minicpmo_mapped_act_elems(cfg, 0, batch, 0, 0) == 0,
{
    let n = batch * cfg.text_config.num_attention_heads;
    let tokens = (square_patches_elems(cfg.vision_config.image_size as int,
        cfg.vision_config.patch_size as int) + 1);
    assert(tokens * 0 == 0) by (nonlinear_arith);
    assert(n * (seq + 1) * (seq + 1) - n * seq * seq == n * (2 * seq + 1)) by (nonlinear_arith);
    assert(n * 0 * 0 == 0) by (nonlinear_arith);
}

/// An image counts as much as its tokens; each query of a chunk is scored against each of its keys,
/// by each head.
pub proof fn law_phi4_images_count_as_tokens(cfg: Phi4MMConfig, seq: int, batch: int, images: int,
    chunk: int, vision: SiglipConfig)
    requires
        0 <= seq,
        0 <= chunk,
    ensures
        seq <= chunk ==> phi4_mapped_act_elems(cfg, vision, seq, batch, images, chunk)
            == phi4_mapped_act_elems(cfg, vision, seq, batch, images, seq),
        chunk <= seq ==> phi4_mapped_act_elems(cfg, vision, seq, batch, images, chunk)
            == phi4_mapped_act_elems(cfg, vision, chunk, batch, images, chunk),
        ({
            let all = seq
                + (square_patches_elems(vision.image_size as int, vision.patch_size as int) + 1)
                * images;
            phi4_mapped_act_elems(cfg, vision, seq, batch, images, seq)
                == phi4_mapped_act_elems(cfg, vision, all, batch, 0, all)
        }),
        phi4_mapped_act_elems(cfg, vision, seq + 1, batch, 0, seq + 1)
            - phi4_mapped_act_elems(cfg, vision, seq, batch, 0, seq)
            == batch * cfg.num_attention_heads * (2 * seq + 1),
        phi4_mapped_act_elems(cfg, vision, 0, batch, 0, 0) == 0,
{
    let n = batch * cfg.num_attention_heads;
    let tokens = (square_patches_elems(vision.image_size as int, vision.patch_size as int) + 1);
    assert(tokens * 0 == 0) by (nonlinear_arith);
    assert(n * (seq + 1) * (seq + 1) - n * seq * seq == n * (2 * seq + 1)) by (nonlinear_arith);
    assert(n * 0 * 0 == 0) by (nonlinear_arith);
}

/// Every image of every item of a batch costs the same. It is cut into five slices.
#[verifier::rlimit(40)]
pub proof fn law_minicpmo_vision_scores_slices(cfg: MiniCpmOConfig, batch: int, images: int)
    by (nonlinear_arith)
    ensures
        minicpmo_vision_act_elems(cfg, batch, images)
            == batch * images * minicpmo_vision_act_elems(cfg, 1, 1),
        minicpmo_vision_act_elems(cfg, 1, 1)
            == 5 * cfg.vision_config.num_attention_heads
            * (square_patches_elems(cfg.vision_config.image_size as int,
            cfg.vision_config.patch_size as int) + 1)
            * (square_patches_elems(cfg.vision_config.image_size as int,
            cfg.vision_config.patch_size as int) + 1),
{
}

/// Words have rows in the embeddings and, unless they are tied, in the output head.
pub proof fn law_minicpmo_words_have_rows(cfg: MiniCpmOConfig,
    packs: PackFactors) -> (rows: (int, int))
    requires
        packs.embed_tokens > 0,
        packs.lm_head > 0,
    ensures
        minicpmo_non_mapped_elems(cfg, packs)
            - siglip_vision_elems(cfg.vision_config.hidden_size as int,
            cfg.vision_config.intermediate_size as int, cfg.vision_config.num_channels as int,
            cfg.vision_config.image_size as int, cfg.vision_config.patch_size as int,
            cfg.vision_config.num_hidden_layers as int)
            == rows.0 + rows.1 + cfg.text_config.hidden_size,
        packs.embed_tokens * rows.0
            <= cfg.text_config.hidden_size * cfg.text_config.vocab_size
            < packs.embed_tokens * (rows.0 + 1),
        cfg.text_config.tie_word_embeddings ==> rows.1 == 0,
        !cfg.text_config.tie_word_embeddings
            ==> packs.lm_head * rows.1
            <= cfg.text_config.hidden_size * cfg.text_config.vocab_size
            < packs.lm_head * (rows.1 + 1),
{
    law_words_have_rows(
        cfg.text_config.hidden_size as int,
        cfg.text_config.vocab_size as int,
        cfg.text_config.tie_word_embeddings,
        packs.embed_tokens as int,
        packs.lm_head as int,
    )
}

/// Heads share the width of the model; queries and the output have as many channels as all heads,
/// keys and values as many as theirs. Packing divides all but the two norms evenly.
pub proof fn law_minicpmo_layers_cost(cfg: MiniCpmOConfig, pack: int, k: int, head: int)
    requires
        pack > 0,
        cfg.text_config.hidden_size == pack * k,
        cfg.text_config.num_attention_heads > 0,
        cfg.text_config.hidden_size == head * cfg.text_config.num_attention_heads,
    ensures
        ({
            let rest = 2 * cfg.text_config.hidden_size + 0int;
            pack * (minicpmo_layer_elems(cfg, pack) - rest)
                == cfg.text_config.hidden_size
                * (2 * cfg.text_config.hidden_size
                + 2 * head * cfg.text_config.num_key_value_heads
                + 3 * cfg.text_config.intermediate_size)
        }),
{
    let h = cfg.text_config.hidden_size as int;
    let n = cfg.text_config.num_attention_heads as int;
    let kv = head * cfg.text_config.num_key_value_heads;
    let w = cfg.text_config.intermediate_size as int;
    assert(head * n == n * head) by (nonlinear_arith);
    vstd::arithmetic::div_mod::lemma_div_multiples_vanish(head, n);
    law_attention_is_packed_whole(h, h, kv, pack, k);
    law_gated_blocks_are_packed_whole(h, w, pack, k);
    let (a, b) = (attention_elems(h, h, kv, pack), gated_mlp_elems(h, w, pack));
    assert(pack * (a + b) == pack * a + pack * b) by (nonlinear_arith);
    assert(h * h + h * kv + h * kv + h * h + (h * w + h * w + h * w)
        == h * (2 * h + 2 * kv + 3 * w)) by (nonlinear_arith);
    assert(2 * head * cfg.text_config.num_key_value_heads == 2 * kv) by (nonlinear_arith)
        requires
            kv == head * cfg.text_config.num_key_value_heads,
    ;
}

/// Heads share the width of the model; queries and the output have as many channels as all heads,
/// keys and values as many as theirs. Packing divides all but the two norms evenly.
pub proof fn law_mistral3_layers_cost(cfg: Mistral3Config, pack: int, k: int, head: int)
    requires
        pack > 0,
        cfg.text_config.hidden_size == pack * k,
        cfg.text_config.num_attention_heads > 0,
        cfg.text_config.hidden_size == head * cfg.text_config.num_attention_heads,
    ensures
        ({
            let rest = 2 * cfg.text_config.hidden_size + 0int;
            pack * (mistral3_layer_elems(cfg, pack) - rest)
                == cfg.text_config.hidden_size
                * (2 * cfg.text_config.hidden_size
                + 2 * head * cfg.text_config.num_key_value_heads
                + 3 * cfg.text_config.intermediate_size)
        }),
{
    let h = cfg.text_config.hidden_size as int;
    let n = cfg.text_config.num_attention_heads as int;
    let kv = head * cfg.text_config.num_key_value_heads;
    let w = cfg.text_config.intermediate_size as int;
    assert(head * n == n * head) by (nonlinear_arith);
    vstd::arithmetic::div_mod::lemma_div_multiples_vanish(head, n);
    law_attention_is_packed_whole(h, h, kv, pack, k);
    law_gated_blocks_are_packed_whole(h, w, pack, k);
    let (a, b) = (attention_elems(h, h, kv, pack), gated_mlp_elems(h, w, pack));
    assert(pack * (a + b) == pack * a + pack * b) by (nonlinear_arith);
    assert(h * h + h * kv + h * kv + h * h + (h * w + h * w + h * w)
        == h * (2 * h + 2 * kv + 3 * w)) by (nonlinear_arith);
    assert(2 * head * cfg.text_config.num_key_value_heads == 2 * kv) by (nonlinear_arith)
        requires
            kv == head * cfg.text_config.num_key_value_heads,
    ;
}

/// Heads share the width of the model; queries and the output have as many channels as all heads,
/// keys and values as many as theirs. Packing divides all but the two norms evenly.
pub proof fn law_qwen2vl_layers_cost(cfg: Qwen2VLConfig, pack: int, k: int, head: int)
    requires
        pack > 0,
        cfg.hidden_size == pack * k,
        cfg.num_attention_heads > 0,
        cfg.hidden_size == head * cfg.num_attention_heads,
    ensures
        ({
            let rest = 2 * cfg.hidden_size + (cfg.hidden_size + 2 * head * cfg.num_key_value_heads);
            pack * (qwen2vl_layer_elems(cfg, pack) - rest)
                == cfg.hidden_size
                * (2 * cfg.hidden_size + 2 * head * cfg.num_key_value_heads
                + 3 * cfg.intermediate_size)
        }),
{
    let h = cfg.hidden_size as int;
    let n = cfg.num_attention_heads as int;
    let kv = head * cfg.num_key_value_heads;
    let w = cfg.intermediate_size as int;
    assert(head * n == n * head) by (nonlinear_arith);
    vstd::arithmetic::div_mod::lemma_div_multiples_vanish(head, n);
    law_attention_is_packed_whole(h, h, kv, pack, k);
    law_gated_blocks_are_packed_whole(h, w, pack, k);
    let (a, b) = (attention_elems(h, h, kv, pack), gated_mlp_elems(h, w, pack));
    assert(pack * (a + b) == pack * a + pack * b) by (nonlinear_arith);
    assert(h * h + h * kv + h * kv + h * h + (h * w + h * w + h * w)
        == h * (2 * h + 2 * kv + 3 * w)) by (nonlinear_arith);
    assert(2 * head * cfg.num_key_value_heads == 2 * kv) by (nonlinear_arith)
        requires
            kv == head * cfg.num_key_value_heads,
    ;
}

/// Heads share the width of the model; queries and the output have as many channels as all heads,
/// keys and values as many as theirs. Packing divides all but the two norms evenly.
pub proof fn law_vllama_layers_cost(cfg: MLlamaConfig, pack: int, k: int, head: int)
    requires
        pack > 0,
        cfg.text_config.hidden_size == pack * k,
        cfg.text_config.num_attention_heads > 0,
        cfg.text_config.hidden_size == head * cfg.text_config.num_attention_heads,
    ensures
        ({
            let rest = 2 * cfg.text_config.hidden_size + 0int;
            pack * (vllama_layer_elems(cfg, false, pack) - rest)
                == cfg.text_config.hidden_size
                * (2 * cfg.text_config.hidden_size
                + 2 * head * cfg.text_config.num_key_value_heads
                + 3 * cfg.text_config.intermediate_size)
        }),
{
    let h = cfg.text_config.hidden_size as int;
    let n = cfg.text_config.num_attention_heads as int;
    let kv = head * cfg.text_config.num_key_value_heads;
    let w = cfg.text_config.intermediate_size as int;
    assert(head * n == n * head) by (nonlinear_arith);
    vstd::arithmetic::div_mod::lemma_div_multiples_vanish(head, n);
    law_attention_is_packed_whole(h, h, kv, pack, k);
    law_gated_blocks_are_packed_whole(h, w, pack, k);
    let (a, b) = (attention_elems(h, h, kv, pack), gated_mlp_elems(h, w, pack));
    assert(pack * (a + b) == pack * a + pack * b) by (nonlinear_arith);
    assert(h * h + h * kv + h * kv + h * h + (h * w + h * w + h * w)
        == h * (2 * h + 2 * kv + 3 * w)) by (nonlinear_arith);
    assert(2 * head * cfg.text_config.num_key_value_heads == 2 * kv) by (nonlinear_arith)
        requires
            kv == head * cfg.text_config.num_key_value_heads,
    ;
}

/// A layer that looks at images is never packed.
pub proof fn law_vllama_cross_layers_are_not_packed(cfg: MLlamaConfig, pack: int)
    ensures
        vllama_layer_elems(cfg, true, pack) == vllama_layer_elems(cfg, false, 1),
{
}

/// An image is padded to whole patches, and each row of patches ends in a break.
pub proof fn law_mistral3_rows_end_in_breaks(height: int, width: int,
    patch: int) -> (grid: (int, int))
    requires
        height > 0,
        width > 0,
        patch > 0,
    ensures
        mistral3_image_tokens_elems(height, width, patch) == grid.0 * (grid.1 + 1),
        patch * (grid.0 - 1) < height <= patch * grid.0,
        patch * (grid.1 - 1) < width <= patch * grid.1,
{
    lemma_quotient(height - 1, patch);
    lemma_quotient(width - 1, patch);
    let rows = (height - 1) / patch + 1;
    let cols = (width - 1) / patch + 1;
    vstd::arithmetic::div_mod::lemma_div_multiples_vanish(rows, patch);
    vstd::arithmetic::div_mod::lemma_div_multiples_vanish(cols, patch);
    assert(rows * patch == patch * rows && cols * patch == patch * cols && (cols + 1) * rows == rows
        * (cols + 1)) by (nonlinear_arith);
    (rows, cols)
}

/// An image counts as much as its tokens; each query of a chunk is scored against each of its keys,
/// by each head.
pub proof fn law_mistral3_images_count_as_tokens(cfg: Mistral3Config, seq: int, batch: int,
    images: int, chunk: int, height: int, width: int)
    requires
        0 <= seq,
        0 <= chunk,
    ensures
        seq <= chunk ==> mistral3_mapped_act_elems(cfg, height, width, seq, batch, images, chunk)
            == mistral3_mapped_act_elems(cfg, height, width, seq, batch, images, seq),
        chunk <= seq ==> mistral3_mapped_act_elems(cfg, height, width, seq, batch, images, chunk)
            == mistral3_mapped_act_elems(cfg, height, width, chunk, batch, images, chunk),
        ({
            let all = seq
                + mistral3_image_tokens_elems(height, width, cfg.vision_config.patch_size as int)
                * images;
            mistral3_mapped_act_elems(cfg, height, width, seq, batch, images, seq)
                == mistral3_mapped_act_elems(cfg, height, width, all, batch, 0, all)
        }),
        mistral3_mapped_act_elems(cfg, height, width, seq + 1, batch, 0, seq + 1)
            - mistral3_mapped_act_elems(cfg, height, width, seq, batch, 0, seq)
            == batch * cfg.text_config.num_attention_heads * (2 * seq + 1),
        mistral3_mapped_act_elems(cfg, height, width, 0, batch, 0, 0) == 0,
{
    let n = batch * cfg.text_config.num_attention_heads;
    let tokens = mistral3_image_tokens_elems(height, width, cfg.vision_config.patch_size as int);
    assert(tokens * 0 == 0) by (nonlinear_arith);
    assert(n * (seq + 1) * (seq + 1) - n * seq * seq == n * (2 * seq + 1)) by (nonlinear_arith);
    assert(n * 0 * 0 == 0) by (nonlinear_arith);
}

/// Every image of every item of a batch costs the same.
#[verifier::rlimit(40)]
pub proof fn law_mistral3_vision_scores_images(cfg: Mistral3Config, batch: int, images: int,
    height: int, width: int)
    by (nonlinear_arith)
    ensures
        mistral3_vision_act_elems(cfg, height, width, batch, images)
            == batch * images * mistral3_vision_act_elems(cfg, height, width, 1, 1),
        mistral3_vision_act_elems(cfg, height, width, 1, 1)
            == cfg.vision_config.num_attention_heads
            * mistral3_image_tokens_elems(height, width, cfg.vision_config.patch_size as int)
            * mistral3_image_tokens_elems(height, width,
            cfg.vision_config.patch_size as int),
{
}

/// A layer of the vision tower has four square projections, three rows for each inner channel, and
/// two norms.
#[verifier::rlimit(40)]
pub proof fn law_mistral3_vision_layers_cost(hidden: int, width: int)
    by (nonlinear_arith)
    ensures
        mistral3_vision_layer_elems(hidden, width) == 4 * hidden * hidden + 3 * hidden * width + 2
            * hidden,
{
}

/// The vision tower is its layers, its kernel and a norm.
pub proof fn law_mistral3_vision_costs(cfg: Mistral3Config, more: Mistral3Config,
    packs: PackFactors)
    requires
        more == (Mistral3Config {
            vision_config: Mistral3VisionConfig {
                num_hidden_layers: more.vision_config.num_hidden_layers,
                num_channels: more.vision_config.num_channels,
                ..cfg.vision_config
            },
            ..cfg
        }),
    ensures
        ({
            let v = cfg.vision_config;
            mistral3_non_mapped_elems(more, packs) - mistral3_non_mapped_elems(cfg, packs) == (
            more.vision_config.num_hidden_layers - v.num_hidden_layers)
                * mistral3_vision_layer_elems(v.hidden_size as int, v.intermediate_size as int) + (
            more.vision_config.num_channels - v.num_channels) * (v.hidden_size * v.patch_size
                * v.patch_size * v.patch_size)
        }),
        cfg.vision_config.num_hidden_layers == 0 && cfg.vision_config.num_channels == 0
            ==> mistral3_non_mapped_elems(cfg, packs) == cfg.vision_config.hidden_size
            + text_head_elems(
            cfg.text_config.hidden_size as int,
            cfg.text_config.vocab_size as int,
            cfg.text_config.tie_word_embeddings,
            packs.embed_tokens as int,
            packs.lm_head as int,
        ),
{
    let v = cfg.vision_config;
    let (h, p) = (v.hidden_size as int, v.patch_size as int);
    let layer = mistral3_vision_layer_elems(h, v.intermediate_size as int);
    let (a, b) = (v.num_channels as int, more.vision_config.num_channels as int);
    let (m, n) = (v.num_hidden_layers as int, more.vision_config.num_hidden_layers as int);
    assert(b * h * p * p * p - a * h * p * p * p == (b - a) * (h * p * p * p)) by (nonlinear_arith);
    assert(layer * n - layer * m == (n - m) * layer) by (nonlinear_arith);
    assert(0 * h * p * p * p == 0 && layer * 0 == 0) by (nonlinear_arith);
}

/// A layer has four square projections with biases and two norms; each of its inner channels has a
/// row in, a row out and a bias, and the outputs have biases. A channel of the pixels has a weight
/// for each pixel of a patch and each output.
pub proof fn law_clip_towers_cost(cfg: ClipConfig, more: ClipConfig)
    requires
        more == (ClipConfig {
            num_hidden_layers: more.num_hidden_layers,
            num_channels: more.num_channels,
            ..cfg
        }),
    ensures
        clip_vit_elems(more) - clip_vit_elems(cfg) == (4 * cfg.hidden_size * (cfg.hidden_size + 1)
            + (2 * cfg.hidden_size + 1) * cfg.intermediate_size + 3 * cfg.hidden_size) * (
        more.num_hidden_layers - cfg.num_hidden_layers) + (cfg.hidden_size * cfg.patch_size
            * cfg.patch_size) * (more.num_channels - cfg.num_channels),
        cfg.num_hidden_layers == 0 && cfg.num_channels == 0 ==> clip_vit_elems(cfg) == 3
            * cfg.hidden_size + (square_patches_elems(
            cfg.image_size as int,
            cfg.patch_size as int,
        ) + 1) * (cfg.hidden_size + 1),
{
    let (h, w, p) = (cfg.hidden_size as int, cfg.intermediate_size as int, cfg.patch_size as int);
    let (a, b) = (cfg.num_hidden_layers as int, more.num_hidden_layers as int);
    let (x, y) = (cfg.num_channels as int, more.num_channels as int);
    let proj = h * h + h;
    let layer = h + h + proj + proj + proj + proj + (h * w + w) + (w * h + h);
    assert(layer == 4 * h * (h + 1) + (2 * h + 1) * w + 3 * h) by (nonlinear_arith)
        requires
            proj == h * h + h,
            layer == h + h + proj + proj + proj + proj + (h * w + w) + (w * h + h),
    ;
    assert(b * layer - a * layer == layer * (b - a)) by (nonlinear_arith);
    lemma_mul_is_associative(x, h, p);
    lemma_mul_is_associative(x, h * p, p);
    lemma_mul_is_associative(y, h, p);
    lemma_mul_is_associative(y, h * p, p);
    let c = h * p * p;
    assert(y * c - x * c == c * (y - x)) by (nonlinear_arith);
    let places = square_patches_elems(cfg.image_size as int, p) + 1;
    assert(places + places * h == places * (h + 1)) by (nonlinear_arith);
    assert(0 * layer == 0 && 0 * c == 0) by (nonlinear_arith);
}

/// Squares of `merge_size` patches a side are one token each, and count as text; each query of a
/// chunk is scored against every token, by each head.
pub proof fn law_muse_glimmer_images_count_as_tokens(
    cfg: MuseGlimmerConfig,
    seq: int,
    batch: int,
    height: int,
    width: int,
    images: int,
    chunk: int,
)
    requires
        0 <= seq,
        0 <= chunk,
    ensures
        ({
            let side = cfg.vision_config.patch_size as int;
            let merge = cfg.vision_config.merge_size as int;
            let all = seq + height / side / merge * (width / side / merge) * images;
            let r = muse_glimmer_mapped_act_elems(cfg, seq, batch, height, width, images, chunk);
            &&& r == muse_glimmer_mapped_act_elems(cfg, all, batch, height, width, 0, chunk)
            &&& all <= chunk ==> r == batch * cfg.text_config.num_attention_heads * all * all
            &&& chunk <= all ==> r == batch * cfg.text_config.num_attention_heads * chunk * all
        }),
{
    let side = cfg.vision_config.patch_size as int;
    let merge = cfg.vision_config.merge_size as int;
    let tokens = height / side / merge * (width / side / merge);
    assert(tokens * 0 == 0) by (nonlinear_arith);
}

/// A vision model needs room for its scores and for its states, whichever is more.
pub proof fn law_muse_glimmer_vision_has_room(
    cfg: MuseGlimmerConfig,
    batch: int,
    height: int,
    width: int,
    images: int,
)
    requires
        0 <= batch,
        0 <= images,
        0 <= height,
        0 <= width,
        cfg.vision_config.patch_size > 0,
    ensures
        ({
            let v = cfg.vision_config;
            let patches = height / v.patch_size as int * (width / v.patch_size as int);
            let items = batch * images;
            let r = muse_glimmer_vision_act_elems(cfg, batch, height, width, images);
            &&& r >= items * v.num_attention_heads * patches * patches
            &&& r >= items * patches * v.hidden_size
            &&& r >= items * patches * v.intermediate_size
            &&& r == items * v.num_attention_heads * patches * patches || r == items * patches
                * v.hidden_size || r == items * patches * v.intermediate_size
        }),
{
    let v = cfg.vision_config;
    let (p, q) = (height / v.patch_size as int, width / v.patch_size as int);
    assert(p >= 0 && q >= 0) by (nonlinear_arith)
        requires
            p == height / v.patch_size as int,
            q == width / v.patch_size as int,
            0 <= height,
            0 <= width,
            v.patch_size > 0,
    ;
    let n = batch * images * (p * q);
    assert(n >= 0) by (nonlinear_arith)
        requires
            n == batch * images * (p * q),
            batch >= 0,
            images >= 0,
            p >= 0,
            q >= 0,
    ;
    let (a, b) = (v.hidden_size as int, v.intermediate_size as int);
    assert((a <= b ==> n * a <= n * b) && (b <= a ==> n * b <= n * a)) by (nonlinear_arith)
        requires
            n >= 0,
    ;
}

/// A head has as many rows as it has channels: a query head its queries, its gate and its way out,
/// one of keys and values two. A gated block has three rows for each inner channel, and there are
/// four norms. Packing divides all projections evenly.
pub proof fn law_muse_glimmer_layers_cost(cfg: MuseGlimmerConfig, pack: int, k: int)
    requires
        pack > 0,
        cfg.text_config.hidden_size == pack * k,
    ensures
        ({
            let t = cfg.text_config;
            let q = t.num_attention_heads * t.head_dim;
            let kv = t.num_key_value_heads * t.head_dim;
            let rest = 4 * t.hidden_size + (if t.attention_bias {
                q + 2 * kv + t.hidden_size
            } else {
                0
            });
            pack * (muse_glimmer_layer_elems(cfg, pack) - rest) == t.hidden_size * (3 * q + 2 * kv
                + 3 * t.intermediate_size)
        }),
{
    let t = cfg.text_config;
    let h = t.hidden_size as int;
    let q = t.num_attention_heads * t.head_dim;
    let kv = t.num_key_value_heads * t.head_dim;
    let w = t.intermediate_size as int;
    lemma_packed(h, q * 3 + kv * 2, pack, k);
    assert(h * q * 3 + h * kv * 2 == h * (q * 3 + kv * 2)) by (nonlinear_arith);
    lemma_packed(h, 3 * w, pack, k);
    assert(3 * h * w == h * (3 * w)) by (nonlinear_arith);
    let (a, b) = (k * (q * 3 + kv * 2), k * (3 * w));
    assert(pack * (a + b) == pack * a + pack * b) by (nonlinear_arith);
    assert(h * (q * 3 + kv * 2) + h * (3 * w) == h * (3 * q + 2 * kv + 3 * w)) by (nonlinear_arith);
}

/// Words have rows in the embeddings and, unless they are tied, in the output head.
pub proof fn law_muse_glimmer_words_have_rows(cfg: MuseGlimmerConfig,
    packs: PackFactors) -> (rows: (int, int))
    requires
        packs.embed_tokens > 0,
        packs.lm_head > 0,
    ensures
        muse_glimmer_non_mapped_elems(cfg, packs) - muse_glimmer_vision_elems(cfg)
            == rows.0 + rows.1 + cfg.text_config.hidden_size,
        packs.embed_tokens * rows.0
            <= cfg.text_config.hidden_size * cfg.text_config.vocab_size
            < packs.embed_tokens * (rows.0 + 1),
        cfg.text_config.tie_word_embeddings ==> rows.1 == 0,
        !cfg.text_config.tie_word_embeddings
            ==> packs.lm_head * rows.1
            <= cfg.text_config.hidden_size * cfg.text_config.vocab_size
            < packs.lm_head * (rows.1 + 1),
{
    law_words_have_rows(
        cfg.text_config.hidden_size as int,
        cfg.text_config.vocab_size as int,
        cfg.text_config.tie_word_embeddings,
        packs.embed_tokens as int,
        packs.lm_head as int,
    )
}

/// A layer has four square projections, two norms with biases and biases of its projections; each
/// of its inner channels has a row in, a row out and a bias. Each place of the grid has a
/// position.
pub proof fn law_muse_glimmer_vision_costs(cfg: MuseGlimmerConfig, more: MuseGlimmerConfig)
    ensures
        more == (MuseGlimmerConfig {
            vision_config: MuseGlimmerVisionConfig {
                num_hidden_layers: more.vision_config.num_hidden_layers,
                ..cfg.vision_config
            },
            ..cfg
        }) ==> muse_glimmer_vision_elems(more) - muse_glimmer_vision_elems(cfg)
            == (4 * cfg.vision_config.hidden_size * cfg.vision_config.hidden_size
            + (2 * cfg.vision_config.hidden_size + 1) * cfg.vision_config.intermediate_size
            + 9 * cfg.vision_config.hidden_size)
            * (more.vision_config.num_hidden_layers
            - cfg.vision_config.num_hidden_layers),
        more == (MuseGlimmerConfig {
            vision_config: MuseGlimmerVisionConfig {
                pos_emb_height: more.vision_config.pos_emb_height,
                ..cfg.vision_config
            },
            ..cfg
        }) ==> muse_glimmer_vision_elems(more) - muse_glimmer_vision_elems(cfg)
            == (cfg.vision_config.pos_emb_width * cfg.vision_config.hidden_size)
            * (more.vision_config.pos_emb_height - cfg.vision_config.pos_emb_height),
        more == (MuseGlimmerConfig {
            vision_config: MuseGlimmerVisionConfig {
                patch_temporal: more.vision_config.patch_temporal,
                ..cfg.vision_config
            },
            ..cfg
        }) ==> muse_glimmer_vision_elems(more) - muse_glimmer_vision_elems(cfg)
            == (3 * cfg.vision_config.hidden_size * cfg.vision_config.patch_size
            * cfg.vision_config.patch_size)
            * (more.vision_config.patch_temporal - cfg.vision_config.patch_temporal),
        cfg.vision_config.num_hidden_layers == 0 && cfg.vision_config.pos_emb_height
            == 0 && cfg.vision_config.patch_temporal == 0
            ==> muse_glimmer_vision_elems(cfg)
            == 4 * cfg.vision_config.hidden_size
            + cfg.projector_hidden_size
            * (cfg.out_hidden_size + cfg.projector_hidden_size
            + cfg.text_config.hidden_size),
{
    assert(more == (MuseGlimmerConfig {
        vision_config: MuseGlimmerVisionConfig {
            num_hidden_layers: more.vision_config.num_hidden_layers,
            ..cfg.vision_config
        },
        ..cfg
    }) ==> muse_glimmer_vision_elems(more) - muse_glimmer_vision_elems(cfg)
        == (4 * cfg.vision_config.hidden_size * cfg.vision_config.hidden_size
        + (2 * cfg.vision_config.hidden_size + 1) * cfg.vision_config.intermediate_size
        + 9 * cfg.vision_config.hidden_size)
        * (more.vision_config.num_hidden_layers
        - cfg.vision_config.num_hidden_layers)) by (nonlinear_arith);
    assert(more == (MuseGlimmerConfig {
        vision_config: MuseGlimmerVisionConfig {
            pos_emb_height: more.vision_config.pos_emb_height,
            ..cfg.vision_config
        },
        ..cfg
    }) ==> muse_glimmer_vision_elems(more) - muse_glimmer_vision_elems(cfg)
        == (cfg.vision_config.pos_emb_width * cfg.vision_config.hidden_size)
        * (more.vision_config.pos_emb_height
        - cfg.vision_config.pos_emb_height)) by (nonlinear_arith);
    assert(more == (MuseGlimmerConfig {
        vision_config: MuseGlimmerVisionConfig {
            patch_temporal: more.vision_config.patch_temporal,
            ..cfg.vision_config
        },
        ..cfg
    }) ==> muse_glimmer_vision_elems(more) - muse_glimmer_vision_elems(cfg)
        == (3 * cfg.vision_config.hidden_size * cfg.vision_config.patch_size
        * cfg.vision_config.patch_size)
        * (more.vision_config.patch_temporal
        - cfg.vision_config.patch_temporal)) by (nonlinear_arith);
    assert(cfg.vision_config.num_hidden_layers == 0 && cfg.vision_config.pos_emb_height
        == 0 && cfg.vision_config.patch_temporal == 0
        ==> muse_glimmer_vision_elems(cfg)
        == 4 * cfg.vision_config.hidden_size
        + cfg.projector_hidden_size
        * (cfg.out_hidden_size + cfg.projector_hidden_size
        + cfg.text_config.hidden_size)) by (nonlinear_arith);
}

/// A layer has a fused projection of queries, keys and values, a way out, a fused gate and up
/// projection, a way down, and two norms. Packing divides the projections evenly.
pub proof fn law_phi4_layers_cost(cfg: Phi4MMConfig, pack: int, k: int)
    requires
        pack > 0,
        cfg.hidden_size == pack * k,
    ensures
        pack * (phi4_layer_elems(cfg, pack) - 2 * cfg.hidden_size) == cfg.hidden_size * (2
            * cfg.head_dim * (cfg.num_attention_heads + cfg.num_key_value_heads) + 3
            * cfg.intermediate_size),
{
    let h = cfg.hidden_size as int;
    let (n, m, d, w) = (
        cfg.num_attention_heads as int,
        cfg.num_key_value_heads as int,
        cfg.head_dim as int,
        cfg.intermediate_size as int,
    );
    let op = n * d + 2 * m * d;
    lemma_packed(h, op, pack, k);
    lemma_packed(h, n * d, pack, k);
    lemma_packed(h, 2 * w, pack, k);
    lemma_packed(h, w, pack, k);
    let (a, b, c, e) = (k * op, k * (n * d), k * (2 * w), k * w);
    assert(pack * (a + b + c + e)
        == pack * a + pack * b + pack * c + pack * e) by (nonlinear_arith);
    assert(h * op + h * (n * d) + h * (2 * w) + h * w == h * (2 * d * (n + m) + 3 * w))
        by (nonlinear_arith)
        requires
            op == n * d + 2 * m * d,
    ;
}

/// The image embedding has a separator at each of two places, where it has them, and a projection:
/// of one step, of two steps, or of two steps that takes four patches at once.
#[verifier::rlimit(40)]
pub proof fn law_phi4_projections_cost(cfg: Phi4MMConfig, vision: SiglipConfig, kind: Projection)
    by (nonlinear_arith)
    ensures
        ({
            let f = |kind: Projection, separated: bool|
                phi4_image_embed_elems(cfg, vision, kind, separated);
            &&& f(kind, true) - f(kind, false) == 8 * vision.hidden_size
            &&& f(Projection::Mlp, false) - f(Projection::Linear, false) == cfg.hidden_size * (
            cfg.hidden_size + 1)
            &&& f(Projection::TiledMlp, false) - f(Projection::Mlp, false) == 3 * vision.hidden_size
                * cfg.hidden_size
            &&& f(Projection::Linear, false) - siglip_vision_elems(
                vision.hidden_size as int,
                vision.intermediate_size as int,
                vision.num_channels as int,
                vision.image_size as int,
                vision.patch_size as int,
                vision.num_hidden_layers as int,
            ) == (vision.hidden_size + 1) * cfg.hidden_size
        }),
{
}

/// An image costs its embedding, and text that has none nothing; a projection of another kind is
/// refused.
pub proof fn law_phi4_images_come_on_top(
    cfg: Phi4MMConfig,
    image: Phi4ImageEmbed,
    vision: SiglipConfig,
    packs: PackFactors,
)
    ensures
        phi4_non_mapped_elems(cfg, None, vision, packs) == Some(phi4_text_elems(cfg, packs)),
        phi4_non_mapped_elems(cfg, Some(image), vision, packs) is None <==> !(image.projection_cls
            is None || image.projection_cls->0@ == "linear"@ || image.projection_cls->0@
            == "mlp"@),
        image.projection_cls is None ==> phi4_non_mapped_elems(cfg, Some(image), vision, packs)
            == Some(
            phi4_text_elems(cfg, packs) + phi4_image_embed_elems(
                cfg,
                vision,
                Projection::Linear,
                image.with_learnable_separator == Some(true),
            ),
        ),
{
}

/// Words have rows in the embeddings and, unless they are tied, in the output head.
pub proof fn law_phi4_words_have_rows(cfg: Phi4MMConfig, packs: PackFactors) -> (rows: (int, int))
    requires
        packs.embed_tokens > 0,
        packs.lm_head > 0,
    ensures
        phi4_text_elems(cfg, packs) == rows.0 + rows.1 + cfg.hidden_size,
        packs.embed_tokens * rows.0
            <= cfg.hidden_size * cfg.vocab_size < packs.embed_tokens * (rows.0 + 1),
        cfg.tie_word_embeddings ==> rows.1 == 0,
        !cfg.tie_word_embeddings
            ==> packs.lm_head * rows.1
            <= cfg.hidden_size * cfg.vocab_size < packs.lm_head * (rows.1 + 1),
{
    law_words_have_rows(
        cfg.hidden_size as int,
        cfg.vocab_size as int,
        cfg.tie_word_embeddings,
        packs.embed_tokens as int,
        packs.lm_head as int,
    )
}

/// Every crop of every item is scored, and its queries, keys and values are held.
pub proof fn law_phi4_vision_scores_crops(
    vision: SiglipConfig,
    base: int,
    batch: int,
    height: int,
    width: int,
    images: int,
) -> (grid: (int, int))
    requires
        base > 0,
        height > 0,
        width > 0,
    ensures
        base * (grid.0 - 1) < height <= base * grid.0,
        base * (grid.1 - 1) < width <= base * grid.1,
        ({
            let tokens = square_patches_elems(vision.image_size as int, vision.patch_size as int)
                + 1;
            let crops = batch * (grid.0 * grid.1 + 1);
            let heads = vision.num_attention_heads as int;
            phi4_vision_act_elems(vision, base, batch, height, width, images) == crops * heads
                * tokens * (images * tokens + 3 * (vision.hidden_size as int / heads))
        }),
{
    law_rounding_up_is_enough(height as nat, base as nat);
    law_rounding_up_is_enough(width as nat, base as nat);
    let (a, b) = (ceil_quotient_elems(height, base), ceil_quotient_elems(width, base));
    assert(base * (a - 1) == (a - 1) * base && base * a == a * base && base * (b - 1) == (b - 1)
        * base && base * b == b * base) by (nonlinear_arith);
    let t = square_patches_elems(vision.image_size as int, vision.patch_size as int) + 1;
    let crops = batch * (a * b + 1);
    let heads = vision.num_attention_heads as int;
    let d = vision.hidden_size as int / heads;
    assert(crops * images * heads * t * t + 3 * (crops * heads * t * d) == crops * heads * t * (
    images * t + 3 * d)) by (nonlinear_arith);
    (a, b)
}

/// An image counts as much as its tokens; each query of a chunk is scored against each of its keys,
/// by each head.
pub proof fn law_qwen2vl_images_count_as_tokens(cfg: Qwen2VLConfig, seq: int, batch: int,
    images: int, chunk: int, height: int, width: int)
    requires
        0 <= seq,
        0 <= chunk,
    ensures
        seq <= chunk ==> qwen2vl_mapped_act_elems(cfg, seq, batch, height, width, images, chunk)
            == qwen2vl_mapped_act_elems(cfg, seq, batch, height, width, images, seq),
        chunk <= seq ==> qwen2vl_mapped_act_elems(cfg, seq, batch, height, width, images, chunk)
            == qwen2vl_mapped_act_elems(cfg, chunk, batch, height, width, images, chunk),
        ({
            let all = seq
                + (height / cfg.vision_config.patch_size as int / cfg.vision_config.spatial_merge_size as int
                * (width / cfg.vision_config.patch_size as int / cfg.vision_config.spatial_merge_size as int))
                * images;
            qwen2vl_mapped_act_elems(cfg, seq, batch, height, width, images, seq)
                == qwen2vl_mapped_act_elems(cfg, all, batch, height, width, 0, all)
        }),
        qwen2vl_mapped_act_elems(cfg, seq + 1, batch, height, width, 0, seq + 1)
            - qwen2vl_mapped_act_elems(cfg, seq, batch, height, width, 0, seq)
            == batch * cfg.num_attention_heads * (2 * seq + 1),
        qwen2vl_mapped_act_elems(cfg, 0, batch, height, width, 0, 0) == 0,
{
    let n = batch * cfg.num_attention_heads;
    let tokens = (height / cfg.vision_config.patch_size as int / cfg.vision_config.spatial_merge_size as int
        * (width / cfg.vision_config.patch_size as int / cfg.vision_config.spatial_merge_size as int));
    assert(tokens * 0 == 0) by (nonlinear_arith);
    assert(n * (seq + 1) * (seq + 1) - n * seq * seq == n * (2 * seq + 1)) by (nonlinear_arith);
    assert(n * 0 * 0 == 0) by (nonlinear_arith);
}

/// An image counts as much as its tokens; each query of a chunk is scored against each of its keys,
/// by each head.
pub proof fn law_qwen3vl_images_count_as_tokens(cfg: Qwen3VLConfig, seq: int, batch: int,
    images: int, chunk: int, height: int, width: int)
    requires
        0 <= seq,
        0 <= chunk,
    ensures
        seq <= chunk ==> qwen3vl_mapped_act_elems(cfg, seq, batch, height, width, images, chunk)
            == qwen3vl_mapped_act_elems(cfg, seq, batch, height, width, images, seq),
        chunk <= seq ==> qwen3vl_mapped_act_elems(cfg, seq, batch, height, width, images, chunk)
            == qwen3vl_mapped_act_elems(cfg, chunk, batch, height, width, images, chunk),
        ({
            let all = seq
                + (height / cfg.vision_config.patch_size as int / cfg.vision_config.spatial_merge_size as int
                * (width / cfg.vision_config.patch_size as int / cfg.vision_config.spatial_merge_size as int))
                * images;
            qwen3vl_mapped_act_elems(cfg, seq, batch, height, width, images, seq)
                == qwen3vl_mapped_act_elems(cfg, all, batch, height, width, 0, all)
        }),
        qwen3vl_mapped_act_elems(cfg, seq + 1, batch, height, width, 0, seq + 1)
            - qwen3vl_mapped_act_elems(cfg, seq, batch, height, width, 0, seq)
            == batch * cfg.text_config.num_attention_heads * (2 * seq + 1),
        qwen3vl_mapped_act_elems(cfg, 0, batch, height, width, 0, 0) == 0,
{
    let n = batch * cfg.text_config.num_attention_heads;
    let tokens = (height / cfg.vision_config.patch_size as int / cfg.vision_config.spatial_merge_size as int
        * (width / cfg.vision_config.patch_size as int / cfg.vision_config.spatial_merge_size as int));
    assert(tokens * 0 == 0) by (nonlinear_arith);
    assert(n * (seq + 1) * (seq + 1) - n * seq * seq == n * (2 * seq + 1)) by (nonlinear_arith);
    assert(n * 0 * 0 == 0) by (nonlinear_arith);
}

/// An image counts as much as its tokens; each query of a chunk is scored against each of its keys,
/// by each head.
pub proof fn law_qwen3_5_moe_images_count_as_tokens(cfg: Qwen3_5MoeConfig, seq: int, batch: int,
    images: int, chunk: int, height: int, width: int)
    requires
        0 <= seq,
        0 <= chunk,
    ensures
        seq <= chunk ==> qwen3_5_moe_mapped_act_elems(cfg, seq, batch, height, width, images,
            chunk) == qwen3_5_moe_mapped_act_elems(cfg, seq, batch, height, width, images, seq),
        chunk <= seq ==> qwen3_5_moe_mapped_act_elems(cfg, seq, batch, height, width, images,
            chunk) == qwen3_5_moe_mapped_act_elems(cfg, chunk, batch, height, width, images, chunk),
        ({
            let all = seq
                + (height / cfg.vision_config.patch_size as int / cfg.vision_config.spatial_merge_size as int
                * (width / cfg.vision_config.patch_size as int / cfg.vision_config.spatial_merge_size as int))
                * images;
            qwen3_5_moe_mapped_act_elems(cfg, seq, batch, height, width, images, seq)
                == qwen3_5_moe_mapped_act_elems(cfg, all, batch, height, width, 0, all)
        }),
        qwen3_5_moe_mapped_act_elems(cfg, seq + 1, batch, height, width, 0, seq + 1)
            - qwen3_5_moe_mapped_act_elems(cfg, seq, batch, height, width, 0, seq)
            == batch * cfg.text_config.num_attention_heads * (2 * seq + 1),
        qwen3_5_moe_mapped_act_elems(cfg, 0, batch, height, width, 0, 0) == 0,
{
    let n = batch * cfg.text_config.num_attention_heads;
    let tokens = (height / cfg.vision_config.patch_size as int / cfg.vision_config.spatial_merge_size as int
        * (width / cfg.vision_config.patch_size as int / cfg.vision_config.spatial_merge_size as int));
    assert(tokens * 0 == 0) by (nonlinear_arith);
    assert(n * (seq + 1) * (seq + 1) - n * seq * seq == n * (2 * seq + 1)) by (nonlinear_arith);
    assert(n * 0 * 0 == 0) by (nonlinear_arith);
}

/// Every image of every item of a batch costs the same.
#[verifier::rlimit(40)]
pub proof fn law_qwen2vl_vision_scores_patches(cfg: Qwen2VLConfig, batch: int, images: int,
    height: int, width: int)
    by (nonlinear_arith)
    ensures
        qwen2vl_vision_act_elems(cfg, batch, height, width, images)
            == batch * images * qwen2vl_vision_act_elems(cfg, 1, height, width, 1),
        qwen2vl_vision_act_elems(cfg, 1, height, width, 1)
            == cfg.vision_config.num_heads
            * (height / cfg.vision_config.patch_size as int
            * (width / cfg.vision_config.patch_size as int))
            * (height / cfg.vision_config.patch_size as int
            * (width / cfg.vision_config.patch_size as int)),
{
}

/// Every image of every item of a batch costs the same.
#[verifier::rlimit(40)]
pub proof fn law_qwen3vl_vision_scores_patches(cfg: Qwen3VLVisionConfig, batch: int, images: int,
    height: int, width: int)
    by (nonlinear_arith)
    ensures
        qwen3vl_vision_act_elems(cfg, batch, height, width, images)
            == batch * images * qwen3vl_vision_act_elems(cfg, 1, height, width, 1),
        qwen3vl_vision_act_elems(cfg, 1, height, width, 1)
            == cfg.num_heads * (height / cfg.patch_size as int * (width / cfg.patch_size as int))
            * (height / cfg.patch_size as int * (width / cfg.patch_size as int)),
{
}

/// A layer has four square projections and two norms, all with biases; each of its inner channels
/// has a row in, a row out and a bias.
#[verifier::rlimit(40)]
pub proof fn law_qwen2vl_layers_of_vision_cost(cfg: Qwen2VLVisionConfig, more: Qwen2VLVisionConfig)
    by (nonlinear_arith)
    ensures
        more == (Qwen2VLVisionConfig { mlp_hidden_dim: more.mlp_hidden_dim, ..cfg })
            ==> qwen2vl_encoder_layer_elems(more) - qwen2vl_encoder_layer_elems(cfg)
            == (2 * cfg.embed_dim + 1) * (more.mlp_hidden_dim - cfg.mlp_hidden_dim),
        cfg.mlp_hidden_dim == 0
            ==> qwen2vl_encoder_layer_elems(cfg)
            == 4 * cfg.embed_dim * (cfg.embed_dim + 1) + 5 * cfg.embed_dim,
{
}

/// Squares of `spatial_merge_size` patches a side are merged: their channels are mixed among each
/// other, then projected, with biases both times, behind a norm of each patch.
#[verifier::rlimit(40)]
pub proof fn law_qwen_mergers_cost(a: Qwen2VLVisionConfig, b: Qwen3VLVisionConfig)
    by (nonlinear_arith)
    ensures
        ({
            let n = a.embed_dim * (a.spatial_merge_size * a.spatial_merge_size);
            qwen2vl_merger_elems(a) == (n + 1) * (n + a.hidden_size) + 2
                * a.embed_dim
        }),
        ({
            let n = b.hidden_size * (b.spatial_merge_size * b.spatial_merge_size);
            qwen3vl_merger_elems(b) == (n + 1) * (n + b.out_hidden_size)
        }),
{
}

/// The vision tower is its merger, its layers, and a kernel with a weight for each pixel, channel,
/// frame and output.
#[verifier::rlimit(40)]
pub proof fn law_qwen2vl_vision_costs(cfg: Qwen2VLVisionConfig)
    by (nonlinear_arith)
    ensures
        qwen2vl_vision_elems(cfg) - qwen2vl_merger_elems(cfg) - cfg.depth
            * qwen2vl_encoder_layer_elems(cfg) == cfg.temporal_patch_size * patch_conv_elems(
            cfg.in_channels as int,
            cfg.embed_dim as int,
            cfg.patch_size as int,
        ),
{
}

/// A layer has four square projections and two norms, all with biases; each of its inner channels
/// has a row in, a row out and a bias. A position has a row. Each merger of inner states has a
/// norm of what it merges.
pub proof fn law_qwen3vl_vision_costs(cfg: Qwen3VLVisionConfig, more: Qwen3VLVisionConfig)
    ensures
        more == (Qwen3VLVisionConfig { depth: more.depth, ..cfg })
            ==> qwen3vl_vision_elems(more) - qwen3vl_vision_elems(cfg)
            == (4 * cfg.hidden_size * (cfg.hidden_size + 1) + 5 * cfg.hidden_size
            + (2 * cfg.hidden_size + 1) * cfg.intermediate_size) * (more.depth - cfg.depth),
        more == (Qwen3VLVisionConfig { num_position_embeddings: more.num_position_embeddings,
            ..cfg }) ==> qwen3vl_vision_elems(more) - qwen3vl_vision_elems(cfg)
            == (cfg.hidden_size) * (more.num_position_embeddings - cfg.num_position_embeddings),
        more == (Qwen3VLVisionConfig { num_deepstack_mergers: more.num_deepstack_mergers, ..cfg })
            ==> qwen3vl_vision_elems(more) - qwen3vl_vision_elems(cfg)
            == (qwen3vl_merger_elems(cfg)
            + 2 * cfg.hidden_size * (cfg.spatial_merge_size * cfg.spatial_merge_size))
            * (more.num_deepstack_mergers - cfg.num_deepstack_mergers),
        more == (Qwen3VLVisionConfig { in_chans: more.in_chans, ..cfg })
            ==> qwen3vl_vision_elems(more) - qwen3vl_vision_elems(cfg)
            == (cfg.hidden_size * cfg.temporal_patch_size * cfg.patch_size * cfg.patch_size)
            * (more.in_chans - cfg.in_chans),
        cfg.depth == 0 && cfg.num_position_embeddings == 0 && cfg.num_deepstack_mergers
            == 0 && cfg.in_chans == 0
            ==> qwen3vl_vision_elems(cfg) == qwen3vl_merger_elems(cfg) + 3 * cfg.hidden_size,
{
    assert(more == (Qwen3VLVisionConfig { depth: more.depth, ..cfg })
        ==> qwen3vl_vision_elems(more) - qwen3vl_vision_elems(cfg)
        == (4 * cfg.hidden_size * (cfg.hidden_size + 1) + 5 * cfg.hidden_size
        + (2 * cfg.hidden_size + 1) * cfg.intermediate_size)
        * (more.depth - cfg.depth)) by (nonlinear_arith);
    assert(more == (Qwen3VLVisionConfig { num_position_embeddings: more.num_position_embeddings,
        ..cfg }) ==> qwen3vl_vision_elems(more) - qwen3vl_vision_elems(cfg)
        == (cfg.hidden_size)
        * (more.num_position_embeddings
        - cfg.num_position_embeddings)) by (nonlinear_arith);
    assert(more == (Qwen3VLVisionConfig { num_deepstack_mergers: more.num_deepstack_mergers,
        ..cfg }) ==> qwen3vl_vision_elems(more) - qwen3vl_vision_elems(cfg)
        == (qwen3vl_merger_elems(cfg)
        + 2 * cfg.hidden_size * (cfg.spatial_merge_size * cfg.spatial_merge_size))
        * (more.num_deepstack_mergers
        - cfg.num_deepstack_mergers)) by (nonlinear_arith);
    if more == (Qwen3VLVisionConfig { in_chans: more.in_chans, ..cfg }) {
        let (a, b) = (cfg.in_chans as int, more.in_chans as int);
        let (h, t, p) = (
            cfg.hidden_size as int,
            cfg.temporal_patch_size as int,
            cfg.patch_size as int,
        );
        lemma_mul_is_associative(a, h, t);
        lemma_mul_is_associative(a, h * t, p);
        lemma_mul_is_associative(a, h * t * p, p);
        lemma_mul_is_associative(b, h, t);
        lemma_mul_is_associative(b, h * t, p);
        lemma_mul_is_associative(b, h * t * p, p);
        let c = h * t * p * p;
        assert(b * c - a * c == c * (b - a)) by (nonlinear_arith);
    }
    assert(cfg.depth == 0 && cfg.num_position_embeddings == 0 && cfg.num_deepstack_mergers
        == 0 && cfg.in_chans == 0
        ==> qwen3vl_vision_elems(cfg)
        == qwen3vl_merger_elems(cfg) + 3 * cfg.hidden_size) by (nonlinear_arith);
}

/// Words have rows in the embeddings and, unless they are tied, in the output head.
pub proof fn law_qwen2vl_words_have_rows(cfg: Qwen2VLConfig,
    packs: PackFactors) -> (rows: (int, int))
    requires
        packs.embed_tokens > 0,
        packs.lm_head > 0,
    ensures
        qwen2vl_non_mapped_elems(cfg, packs) - qwen2vl_vision_elems(cfg.vision_config)
            == rows.0 + rows.1 + cfg.hidden_size,
        packs.embed_tokens * rows.0
            <= cfg.hidden_size * cfg.vocab_size < packs.embed_tokens * (rows.0 + 1),
        cfg.tie_word_embeddings ==> rows.1 == 0,
        !cfg.tie_word_embeddings
            ==> packs.lm_head * rows.1
            <= cfg.hidden_size * cfg.vocab_size < packs.lm_head * (rows.1 + 1),
{
    law_words_have_rows(
        cfg.hidden_size as int,
        cfg.vocab_size as int,
        cfg.tie_word_embeddings,
        packs.embed_tokens as int,
        packs.lm_head as int,
    )
}

/// Words have rows in the embeddings and, unless they are tied, in the output head.
pub proof fn law_qwen3vl_words_have_rows(cfg: Qwen3VLConfig,
    packs: PackFactors) -> (rows: (int, int))
    requires
        packs.embed_tokens > 0,
        packs.lm_head > 0,
    ensures
        qwen3vl_non_mapped_elems(cfg, packs) - qwen3vl_vision_elems(cfg.vision_config)
            == rows.0 + rows.1 + cfg.text_config.hidden_size,
        packs.embed_tokens * rows.0
            <= cfg.text_config.hidden_size * cfg.text_config.vocab_size
            < packs.embed_tokens * (rows.0 + 1),
        cfg.tie_word_embeddings ==> rows.1 == 0,
        !cfg.tie_word_embeddings
            ==> packs.lm_head * rows.1
            <= cfg.text_config.hidden_size * cfg.text_config.vocab_size
            < packs.lm_head * (rows.1 + 1),
{
    law_words_have_rows(
        cfg.text_config.hidden_size as int,
        cfg.text_config.vocab_size as int,
        cfg.tie_word_embeddings,
        packs.embed_tokens as int,
        packs.lm_head as int,
    )
}

/// Words have rows in the embeddings and, unless they are tied, in the output head.
pub proof fn law_qwen3_5_moe_words_have_rows(cfg: Qwen3_5MoeConfig,
    packs: PackFactors) -> (rows: (int, int))
    requires
        packs.embed_tokens > 0,
        packs.lm_head > 0,
    ensures
        qwen3_5_moe_non_mapped_elems(cfg, packs) - qwen3vl_vision_elems(cfg.vision_config)
            == rows.0 + rows.1 + cfg.text_config.hidden_size,
        packs.embed_tokens * rows.0
            <= cfg.text_config.hidden_size * cfg.text_config.vocab_size
            < packs.embed_tokens * (rows.0 + 1),
        cfg.tie_word_embeddings ==> rows.1 == 0,
        !cfg.tie_word_embeddings
            ==> packs.lm_head * rows.1
            <= cfg.text_config.hidden_size * cfg.text_config.vocab_size
            < packs.lm_head * (rows.1 + 1),
{
    law_words_have_rows(
        cfg.text_config.hidden_size as int,
        cfg.text_config.vocab_size as int,
        cfg.tie_word_embeddings,
        packs.embed_tokens as int,
        packs.lm_head as int,
    )
}

/// A head has as many rows, in and out, as it has channels; a gated block has three rows for each
/// inner channel. Two norms of the model's width and two of a head's are not packed.
pub proof fn law_qwen3vl_layers_cost(cfg: Qwen3VLConfig, pack: int, k: int)
    requires
        pack > 0,
        cfg.text_config.hidden_size == pack * k,
    ensures
        ({
            let t = cfg.text_config;
            pack * (qwen3vl_layer_elems(cfg, pack) - 2 * t.hidden_size - 2 * t.head_dim)
                == t.hidden_size * (2 * t.head_dim * (t.num_attention_heads
                + t.num_key_value_heads) + 3 * t.intermediate_size)
        }),
{
    let t = cfg.text_config;
    let h = t.hidden_size as int;
    let (d, n, m, w) = (
        t.head_dim as int,
        t.num_attention_heads as int,
        t.num_key_value_heads as int,
        t.intermediate_size as int,
    );
    law_attention_is_packed_whole(h, d * n, d * m, pack, k);
    law_gated_blocks_are_packed_whole(h, w, pack, k);
    let (a, b) = (attention_elems(h, d * n, d * m, pack), gated_mlp_elems(h, w, pack));
    assert(pack * (a + b) == pack * a + pack * b) by (nonlinear_arith);
    let (x, y, z) = (h * (d * n), h * (d * m), h * w);
    assert(x + y + y + x + (z + z + z) == h * (2 * d * (n + m) + 3 * w)) by (nonlinear_arith)
        requires
            x == h * (d * n),
            y == h * (d * m),
            z == h * w,
    ;
}

/// A query head has its queries and its gate as rows in, and rows out; a head of keys and values
/// two. Queries and keys have a norm each.
#[verifier::rlimit(40)]
pub proof fn law_qwen3_5_heads_cost(cfg: Qwen3_5MoeTextConfig, more: Qwen3_5MoeTextConfig)
    by (nonlinear_arith)
    ensures
        more == (Qwen3_5MoeTextConfig { num_attention_heads: more.num_attention_heads, ..cfg })
            ==> qwen3_5_full_elems(more, 1) - qwen3_5_full_elems(cfg, 1)
            == (3 * cfg.hidden_size * cfg.head_dim)
            * (more.num_attention_heads - cfg.num_attention_heads),
        more == (Qwen3_5MoeTextConfig { num_key_value_heads: more.num_key_value_heads, ..cfg })
            ==> qwen3_5_full_elems(more, 1) - qwen3_5_full_elems(cfg, 1)
            == (2 * cfg.hidden_size * cfg.head_dim)
            * (more.num_key_value_heads - cfg.num_key_value_heads),
        cfg.num_attention_heads == 0 && cfg.num_key_value_heads == 0
            ==> qwen3_5_full_elems(cfg, 1) == 2 * cfg.head_dim,
{
}

/// A convolved channel has a row and its taps; a value channel a row in and one out; a value head
/// two rows and two numbers. The norm has a weight for each channel of a head.
#[verifier::rlimit(40)]
pub proof fn law_qwen3_5_linear_attention_costs(cfg: Qwen3_5MoeTextConfig,
    more: Qwen3_5MoeTextConfig)
    by (nonlinear_arith)
    ensures
        more == (Qwen3_5MoeTextConfig { linear_conv_dim: more.linear_conv_dim, ..cfg })
            ==> qwen3_5_linear_elems(more, 1) - qwen3_5_linear_elems(cfg, 1)
            == (cfg.hidden_size + cfg.linear_conv_kernel_dim)
            * (more.linear_conv_dim - cfg.linear_conv_dim),
        more == (Qwen3_5MoeTextConfig { linear_value_dim: more.linear_value_dim, ..cfg })
            ==> qwen3_5_linear_elems(more, 1) - qwen3_5_linear_elems(cfg, 1)
            == (2 * cfg.hidden_size) * (more.linear_value_dim - cfg.linear_value_dim),
        more == (Qwen3_5MoeTextConfig { linear_num_value_heads: more.linear_num_value_heads,
            ..cfg }) ==> qwen3_5_linear_elems(more, 1) - qwen3_5_linear_elems(cfg, 1)
            == (2 * cfg.hidden_size + 2)
            * (more.linear_num_value_heads - cfg.linear_num_value_heads),
        cfg.linear_conv_dim == 0 && cfg.linear_value_dim == 0 && cfg.linear_num_value_heads == 0
            ==> qwen3_5_linear_elems(cfg, 1) == cfg.linear_value_head_dim,
{
}

/// An expert has a row to be routed by and three rows for each inner channel; the shared one has a
/// row of its own to be weighed by.
#[verifier::rlimit(40)]
pub proof fn law_qwen3_5_experts_cost(cfg: Qwen3_5MoeTextConfig, more: Qwen3_5MoeTextConfig)
    by (nonlinear_arith)
    ensures
        more == (Qwen3_5MoeTextConfig { num_experts: more.num_experts, ..cfg })
            ==> qwen3_5_experts_elems(more, 1) - qwen3_5_experts_elems(cfg, 1)
            == (cfg.hidden_size + 3 * cfg.hidden_size * cfg.moe_intermediate_size)
            * (more.num_experts - cfg.num_experts),
        more == (Qwen3_5MoeTextConfig { shared_expert_intermediate_size: more.shared_expert_intermediate_size,
            ..cfg }) ==> qwen3_5_experts_elems(more, 1) - qwen3_5_experts_elems(cfg, 1)
            == (3 * cfg.hidden_size)
            * (more.shared_expert_intermediate_size - cfg.shared_expert_intermediate_size),
        cfg.num_experts == 0 && cfg.shared_expert_intermediate_size == 0
            ==> qwen3_5_experts_elems(cfg, 1) == cfg.hidden_size,
{
}

/// A layer is attention of its kind, experts, and a norm in front of each.
pub proof fn law_qwen3_5_layers_have_two_norms(cfg: Qwen3_5MoeConfig, kind: LayerType, pack: int)
    ensures
        qwen3_5_moe_layer_elems(cfg, kind, pack) - qwen3_5_experts_elems(cfg.text_config, pack) - (
        if kind == LayerType::FullAttention {
            qwen3_5_full_elems(cfg.text_config, pack)
        } else {
            qwen3_5_linear_elems(cfg.text_config, pack)
        }) == 2 * cfg.text_config.hidden_size,
{
}

/// Packing divides the projections evenly, but neither norms, taps nor what experts are routed by.
pub proof fn law_qwen3_5_packs_projections(cfg: Qwen3_5MoeTextConfig, pack: int, k: int)
    requires
        pack > 0,
        cfg.hidden_size == pack * k,
    ensures
        pack * (qwen3_5_full_elems(cfg, pack) - 2 * cfg.head_dim) == qwen3_5_full_elems(cfg, 1) - 2
            * cfg.head_dim,
        ({
            let rest = cfg.linear_conv_dim * cfg.linear_conv_kernel_dim + 2
                * cfg.linear_num_value_heads + cfg.linear_value_head_dim;
            pack * (qwen3_5_linear_elems(cfg, pack) - rest) == qwen3_5_linear_elems(cfg, 1) - rest
        }),
        ({
            let rest = cfg.hidden_size * (cfg.num_experts + 1);
            pack * (qwen3_5_experts_elems(cfg, pack) - rest) == qwen3_5_experts_elems(cfg, 1) - rest
        }),
{
    let h = cfg.hidden_size as int;
    let q = cfg.head_dim * cfg.num_attention_heads;
    let kv = cfg.head_dim * cfg.num_key_value_heads;
    lemma_packed(h, q * 2, pack, k);
    assert(h * q * 2 == h * (q * 2)) by (nonlinear_arith);
    lemma_packed(h, kv, pack, k);
    lemma_packed(h, q, pack, k);
    let (a, b, c) = (k * (q * 2), k * kv, k * q);
    assert(pack * (a + b + b + c) == pack * a + pack * b + pack * b + pack * c)
        by (nonlinear_arith);
    let (x, y, z) = (
        cfg.linear_conv_dim as int,
        cfg.linear_value_dim as int,
        cfg.linear_num_value_heads * 2,
    );
    lemma_packed(h, x, pack, k);
    lemma_packed(h, y, pack, k);
    lemma_packed(h, z, pack, k);
    let (d, e, f) = (k * x, k * y, k * z);
    assert(pack * (d + e + f + e) == pack * d + pack * e + pack * f + pack * e)
        by (nonlinear_arith);
    let n = cfg.num_experts as int;
    law_gated_blocks_are_packed_whole(h, cfg.moe_intermediate_size as int, pack, k);
    law_gated_blocks_are_packed_whole(h, cfg.shared_expert_intermediate_size as int, pack, k);
    let u = gated_mlp_elems(h, cfg.moe_intermediate_size as int, pack);
    let v = gated_mlp_elems(h, cfg.shared_expert_intermediate_size as int, pack);
    assert(pack * (u * n + v) == (pack * u) * n + pack * v) by (nonlinear_arith);
    assert(h * (n + 1) == h * n + h) by (nonlinear_arith);
}

/// The patches of a tile, with one for its class, are filled up to a multiple of eight, and no
/// further.
pub proof fn law_vllama_tiles_are_filled_up(cfg: MLlamaVisionConfig) -> (n: int)
    ensures
        vllama_image_tokens_elems(cfg) == cfg.max_num_tiles * n,
        n % 8 == 0,
        ({
            let patches = square_patches_elems(cfg.image_size as int, cfg.patch_size as int) + 1;
            patches <= n < patches + 8
        }),
{
    let patches = square_patches_elems(cfg.image_size as int, cfg.patch_size as int) + 1;
    patches + (8 - patches % 8) % 8
}

/// A text chunk is scored against itself, and an image against itself; the greater needs the room.
pub proof fn law_vllama_scores_text_and_images(
    cfg: MLlamaConfig,
    seq: int,
    batch: int,
    images: int,
    chunk: int,
)
    ensures
        ({
            let n = batch * cfg.text_config.num_attention_heads;
            let q = if seq <= chunk {
                seq
            } else {
                chunk
            };
            let t = vllama_image_tokens_elems(cfg.vision_config) * images;
            let r = vllama_mapped_act_elems(cfg, seq, batch, images, chunk);
            &&& r >= n * (q * q) && r >= n * t * t
            &&& r == n * (q * q) || r == n * t * t
        }),
{
}

/// Every image of every item of a batch costs the same.
#[verifier::rlimit(40)]
pub proof fn law_vllama_vision_scores_tiles(cfg: MLlamaConfig, batch: int, images: int)
    by (nonlinear_arith)
    ensures
        vllama_vision_act_elems(cfg, batch, images)
            == batch * images * vllama_vision_act_elems(cfg, 1, 1),
        vllama_vision_act_elems(cfg, 1, 1)
            == cfg.vision_config.num_attention_heads
            * vllama_image_tokens_elems(cfg.vision_config)
            * vllama_image_tokens_elems(cfg.vision_config),
{
}

/// A patch has a position, and one in each tile for each aspect ratio, of which none is one; a tile
/// has an embedding in front and one behind for each.
#[verifier::rlimit(40)]
pub proof fn law_vllama_positions_cost(cfg: MLlamaVisionConfig)
    by (nonlinear_arith)
    ensures
        ({
            let patches = square_patches_elems(cfg.image_size as int, cfg.patch_size as int) + 1;
            vllama_positions_elems(cfg) == cfg.hidden_size * (patches + (cfg.max_aspect_ratio_id
                + 1) * cfg.max_num_tiles * (patches + 2))
        }),
{
}

/// A layer has four projections from and to all heads and two norms with biases; each of its inner
/// channels has a row in, a row out and a bias, and the outputs have biases.
pub proof fn law_vllama_layers_of_vision_cost(cfg: MLlamaVisionConfig, pack: int, k: int, head: int)
    requires
        pack > 0,
        cfg.hidden_size == pack * k,
        cfg.num_attention_heads > 0,
        cfg.hidden_size == head * cfg.num_attention_heads,
    ensures
        ({
            let rest = 5 * cfg.hidden_size + cfg.intermediate_size;
            pack * (vllama_encoder_layer_elems(cfg, pack) - rest) == cfg.hidden_size * (4
                * cfg.hidden_size + 2 * cfg.intermediate_size)
        }),
{
    let h = cfg.hidden_size as int;
    let n = cfg.num_attention_heads as int;
    let w = cfg.intermediate_size as int;
    assert(head * n == n * head) by (nonlinear_arith);
    vstd::arithmetic::div_mod::lemma_div_multiples_vanish(head, n);
    lemma_packed(h, h, pack, k);
    assert(h * n * head == h * h) by (nonlinear_arith)
        requires
            h == head * n,
    ;
    lemma_packed(h, w, pack, k);
    let (a, b) = (k * h, k * w);
    assert(pack * (a + a + a + a + b + b) == pack * a + pack * a + pack * a + pack * a + pack * b
        + pack * b) by (nonlinear_arith);
    assert(h * h + h * h + h * h + h * h + h * w + h * w == h * (4 * h + 2 * w))
        by (nonlinear_arith);
}

/// The vision tower is its layers, both kinds alike, its positions, its kernel, and three rows.
#[verifier::rlimit(40)]
pub proof fn law_vllama_vision_costs(cfg: MLlamaVisionConfig, pack: int)
    by (nonlinear_arith)
    ensures
        vllama_vision_elems(cfg, pack) - vllama_positions_elems(cfg) - patch_conv_elems(
            cfg.num_channels as int,
            cfg.hidden_size as int,
            cfg.patch_size as int,
        ) - 3 * cfg.hidden_size == cfg.num_hidden_layers * vllama_encoder_layer_elems(cfg, pack)
            + cfg.num_global_layers * vllama_encoder_layer_elems(cfg, pack),
{
}

/// Words have rows in the embeddings, and so have eight more; they have rows in the output head,
/// unless they are tied, which the eight have not.
pub proof fn law_vllama_words_have_rows(cfg: MLlamaConfig, packs: PackFactors) -> (rows: (int, int))
    requires
        packs.embed_tokens > 0,
        packs.lm_head > 0,
    ensures
        vllama_non_mapped_elems(cfg, packs) - vllama_vision_elems(
            cfg.vision_config,
            packs.weight as int,
        ) == rows.0 + rows.1 + cfg.text_config.hidden_size,
        packs.embed_tokens * rows.0 <= cfg.text_config.hidden_size * (cfg.text_config.vocab_size
            + 8) < packs.embed_tokens * (rows.0 + 1),
        cfg.text_config.tie_word_embeddings ==> rows.1 == 0,
        !cfg.text_config.tie_word_embeddings ==> packs.lm_head * rows.1
            <= cfg.text_config.hidden_size * cfg.text_config.vocab_size < packs.lm_head * (rows.1
            + 1),
{
    let h = cfg.text_config.hidden_size as int;
    let v = cfg.text_config.vocab_size as int;
    lemma_quotient(h * (v + 8), packs.embed_tokens as int);
    lemma_quotient(h * v, packs.lm_head as int);
    (
        h * (v + 8) / packs.embed_tokens as int,
        if cfg.text_config.tie_word_embeddings {
            0
        } else {
            h * v / packs.lm_head as int
        },
    )
}

/// A chunk of pixels has one token for each `downsample_ratio` patches; a prompt has those of all
/// chunks of the batch, and they count as text.
pub proof fn law_vllama4_images_count_as_tokens(
    cfg: Llama4Config,
    pixels: ProcessedPixels,
    none: ProcessedPixels,
    seq: int,
    batch: int,
    chunk: int,
)
    requires
        0 <= seq,
        0 <= chunk,
        none == (ProcessedPixels { batch: 0, ..pixels }),
    ensures
        ({
            let side = pixels.patch_size as int;
            let tokens = pixels.height as int / side * (pixels.width as int / side)
                / pixels.downsample_ratio as int;
            let all = (if seq <= chunk {
                seq
            } else {
                chunk
            }) + tokens * (pixels.batch * batch);
            vllama4_mapped_act_elems(cfg, pixels, seq, batch, chunk) == vllama4_mapped_act_elems(
                cfg,
                none,
                all,
                batch,
                all,
            )
        }),
        vllama4_mapped_act_elems(cfg, none, seq + 1, batch, seq + 1) - vllama4_mapped_act_elems(
            cfg,
            none,
            seq,
            batch,
            seq,
        ) == batch * cfg.text_config.num_attention_heads * (2 * seq + 1),
        vllama4_mapped_act_elems(cfg, none, 0, batch, 0) == 0,
{
    let n = batch * cfg.text_config.num_attention_heads;
    let side = pixels.patch_size as int;
    let tokens = pixels.height as int / side * (pixels.width as int / side)
        / pixels.downsample_ratio as int;
    assert(0 * batch == 0 && tokens * 0 == 0 && n * 0 * 0 == 0) by (nonlinear_arith);
    assert(n * (seq + 1) * (seq + 1) - n * seq * seq == n * (2 * seq + 1)) by (nonlinear_arith);
}

/// Every chunk of every item of the batch is scored alike.
#[verifier::rlimit(40)]
pub proof fn law_vllama4_vision_scores_chunks(cfg: Llama4Config, pixels: ProcessedPixels,
    batch: int)
    by (nonlinear_arith)
    ensures
        vllama4_vision_act_elems(cfg, pixels, batch) == batch * (pixels.batch * batch) * (
        cfg.vision_config.num_attention_heads * cfg.vision_config.num_patches
            * cfg.vision_config.num_patches),
{
}

/// A layer has four projections from and to all heads and two norms, all with biases; each of its
/// inner channels has a row in, a row out and a bias.
pub proof fn law_vllama4_layers_of_vision_cost(cfg: Llama4VisionConfig, head: int)
    requires
        cfg.num_attention_heads > 0,
        cfg.hidden_size == head * cfg.num_attention_heads,
    ensures
        vllama4_encoder_layer_elems(cfg) == vit_layer_elems(
            cfg.hidden_size as int,
            cfg.intermediate_size as int,
        ),
{
    let h = cfg.hidden_size as int;
    let n = cfg.num_attention_heads as int;
    assert(head * n == n * head) by (nonlinear_arith);
    vstd::arithmetic::div_mod::lemma_div_multiples_vanish(head, n);
    assert(h * n * head == h * h) by (nonlinear_arith)
        requires
            h == head * n,
    ;
}

/// The vision tower is its layers, a position for each patch, a kernel, a projector of two steps,
/// and three rows.
pub proof fn law_vllama4_vision_costs(cfg: Llama4VisionConfig, more: Llama4VisionConfig)
    ensures
        more == (Llama4VisionConfig { num_hidden_layers: more.num_hidden_layers, ..cfg })
            ==> vllama4_vision_elems(more) - vllama4_vision_elems(cfg)
            == (vllama4_encoder_layer_elems(cfg))
            * (more.num_hidden_layers - cfg.num_hidden_layers),
        more == (Llama4VisionConfig { num_patches: more.num_patches, ..cfg })
            ==> vllama4_vision_elems(more) - vllama4_vision_elems(cfg)
            == (cfg.hidden_size) * (more.num_patches - cfg.num_patches),
        more == (Llama4VisionConfig { num_channels: more.num_channels, ..cfg })
            ==> vllama4_vision_elems(more) - vllama4_vision_elems(cfg)
            == (cfg.patch_size * cfg.patch_size * cfg.hidden_size)
            * (more.num_channels - cfg.num_channels),
        more == (Llama4VisionConfig { projector_output_dim: more.projector_output_dim, ..cfg })
            ==> vllama4_vision_elems(more) - vllama4_vision_elems(cfg)
            == (cfg.projector_input_dim)
            * (more.projector_output_dim - cfg.projector_output_dim),
        cfg.num_hidden_layers == 0 && cfg.num_patches == 0 && cfg.num_channels
            == 0 && cfg.projector_output_dim == 0
            ==> vllama4_vision_elems(cfg)
            == 3 * cfg.hidden_size + cfg.intermediate_size * cfg.projector_input_dim,
{
    assert(more == (Llama4VisionConfig { num_hidden_layers: more.num_hidden_layers, ..cfg })
        ==> vllama4_vision_elems(more) - vllama4_vision_elems(cfg)
        == (vllama4_encoder_layer_elems(cfg))
        * (more.num_hidden_layers - cfg.num_hidden_layers)) by (nonlinear_arith);
    assert(more == (Llama4VisionConfig { num_patches: more.num_patches, ..cfg })
        ==> vllama4_vision_elems(more) - vllama4_vision_elems(cfg)
        == (cfg.hidden_size) * (more.num_patches - cfg.num_patches)) by (nonlinear_arith);
    if more == (Llama4VisionConfig { num_channels: more.num_channels, ..cfg }) {
        let (a, b) = (cfg.num_channels as int, more.num_channels as int);
        let (p, h) = (cfg.patch_size as int, cfg.hidden_size as int);
        assert(b * p * p * h - a * p * p * h == (p * p * h) * (b - a)) by (nonlinear_arith);
    }
    assert(more == (Llama4VisionConfig { projector_output_dim: more.projector_output_dim, ..cfg })
        ==> vllama4_vision_elems(more) - vllama4_vision_elems(cfg)
        == (cfg.projector_input_dim)
        * (more.projector_output_dim - cfg.projector_output_dim)) by (nonlinear_arith);
    assert(cfg.num_hidden_layers == 0 && cfg.num_patches == 0 && cfg.num_channels
        == 0 && cfg.projector_output_dim == 0
        ==> vllama4_vision_elems(cfg)
        == 3 * cfg.hidden_size
        + cfg.intermediate_size * cfg.projector_input_dim) by (nonlinear_arith);
}

/// A layer is attention, its experts or a gated block, and two norms. Each inner channel of an
/// expert has three rows. Packing divides the experts evenly.
pub proof fn law_vllama4_layers_cost(cfg: Llama4Config, pack: int, k: int, head: int)
    requires
        pack > 0,
        cfg.text_config.hidden_size == pack * k,
        cfg.text_config.num_attention_heads > 0,
        cfg.text_config.hidden_size == head * cfg.text_config.num_attention_heads,
    ensures
        ({
            let t = cfg.text_config;
            pack * vllama4_experts_elems(t, pack) == 3 * t.num_local_experts * t.hidden_size
                * t.intermediate_size
        }),
        ({
            let t = cfg.text_config;
            let rest = 2 * t.hidden_size + attention_elems(
                t.hidden_size as int,
                t.hidden_size as int,
                head * t.num_key_value_heads,
                pack,
            );
            &&& vllama4_layer_elems(cfg, true, pack) == rest + vllama4_experts_elems(t, pack)
            &&& vllama4_layer_elems(cfg, false, pack) == rest + gated_mlp_elems(
                t.hidden_size as int,
                t.intermediate_size_mlp as int,
                pack,
            )
        }),
{
    let t = cfg.text_config;
    let h = t.hidden_size as int;
    let n = t.num_attention_heads as int;
    assert(head * n == n * head) by (nonlinear_arith);
    vstd::arithmetic::div_mod::lemma_div_multiples_vanish(head, n);
    let (e, w) = (t.num_local_experts as int, t.intermediate_size as int);
    lemma_packed(h, e * w, pack, k);
    assert(e * h * w == h * (e * w) && e * w * h == h * (e * w)) by (nonlinear_arith);
    let a = k * (e * w);
    assert(pack * (a + a + a) == pack * a + pack * a + pack * a) by (nonlinear_arith);
    assert(3 * e * h * w == 3 * (e * h * w)) by (nonlinear_arith);
}

/// Words have rows in the embeddings and, unless they are tied, in the output head.
pub proof fn law_vllama4_words_have_rows(cfg: Llama4Config,
    packs: PackFactors) -> (rows: (int, int))
    requires
        packs.embed_tokens > 0,
        packs.lm_head > 0,
    ensures
        vllama4_non_mapped_elems(cfg, packs) - vllama4_vision_elems(cfg.vision_config)
            == rows.0 + rows.1 + cfg.text_config.hidden_size,
        packs.embed_tokens * rows.0
            <= cfg.text_config.hidden_size * cfg.text_config.vocab_size
            < packs.embed_tokens * (rows.0 + 1),
        cfg.text_config.tie_word_embeddings ==> rows.1 == 0,
        !cfg.text_config.tie_word_embeddings
            ==> packs.lm_head * rows.1
            <= cfg.text_config.hidden_size * cfg.text_config.vocab_size
            < packs.lm_head * (rows.1 + 1),
{
    law_words_have_rows(
        cfg.text_config.hidden_size as int,
        cfg.text_config.vocab_size as int,
        cfg.text_config.tie_word_embeddings,
        packs.embed_tokens as int,
        packs.lm_head as int,
    )
}

/// Audio counts as three hundred and seventy-five tokens; each query of a chunk is scored against
/// each of its keys, by each head.
pub proof fn law_voxtral_audio_counts_as_tokens(cfg: VoxtralConfig, seq: int, batch: int,
    chunk: int)
    requires
        0 <= seq,
        0 <= chunk,
    ensures
        seq <= chunk ==> voxtral_mapped_act_elems(cfg, seq, batch, chunk)
            == voxtral_mapped_act_elems(cfg, seq, batch, seq),
        chunk <= seq ==> voxtral_mapped_act_elems(cfg, seq, batch, chunk)
            == voxtral_mapped_act_elems(cfg, chunk, batch, chunk),
        voxtral_mapped_act_elems(cfg, seq + 1, batch, seq + 1) - voxtral_mapped_act_elems(
            cfg,
            seq,
            batch,
            seq,
        ) == batch * cfg.n_heads * (2 * (seq + 375) + 1),
        voxtral_mapped_act_elems(cfg, 0, batch, 0) == batch * cfg.n_heads * 375 * 375,
        voxtral_encoder_act_elems(cfg, batch) == batch * cfg.encoder.n_heads * 3000 * 3000,
{
    let n = batch * cfg.n_heads;
    let t = seq + 375;
    assert(n * (t + 1) * (t + 1) - n * t * t == n * (2 * t + 1)) by (nonlinear_arith);
}

/// A layer has four square projections, three rows for each inner channel, and two norms; a mel
/// band has three taps for each output. The adapter takes several frames at once, in two steps
/// with biases.
#[verifier::rlimit(40)]
pub proof fn law_voxtral_encoders_cost(cfg: VoxtralConfig, more: VoxtralConfig)
    by (nonlinear_arith)
    ensures
        more == (VoxtralConfig {
            encoder: VoxtralEncoderConfig {
                n_layers: more.encoder.n_layers,
                ..cfg.encoder
            },
            ..cfg
        }) ==> voxtral_encoder_elems(more) - voxtral_encoder_elems(cfg)
            == (4 * cfg.encoder.dim * cfg.encoder.dim
            + 3 * cfg.encoder.dim * cfg.encoder.hidden_dim + 2 * cfg.encoder.dim)
            * (more.encoder.n_layers - cfg.encoder.n_layers),
        more == (VoxtralConfig {
            encoder: VoxtralEncoderConfig {
                num_mel_bins: more.encoder.num_mel_bins,
                ..cfg.encoder
            },
            ..cfg
        }) ==> voxtral_encoder_elems(more) - voxtral_encoder_elems(cfg)
            == (3 * cfg.encoder.dim) * (more.encoder.num_mel_bins - cfg.encoder.num_mel_bins),
        more == (VoxtralConfig {
            encoder: VoxtralEncoderConfig {
                downsample_factor: more.encoder.downsample_factor,
                ..cfg.encoder
            },
            ..cfg
        }) ==> voxtral_encoder_elems(more) - voxtral_encoder_elems(cfg)
            == (cfg.encoder.dim * cfg.dim)
            * (more.encoder.downsample_factor - cfg.encoder.downsample_factor),
        cfg.encoder.n_layers == 0 && cfg.encoder.num_mel_bins
            == 0 && cfg.encoder.downsample_factor == 0
            ==> voxtral_encoder_elems(cfg)
            == 3 * cfg.encoder.dim * cfg.encoder.dim + 3 * cfg.encoder.dim
            + cfg.dim * (cfg.dim + 2),
{
}

/// Words have rows in the embeddings and, unless they are tied, in the output head.
pub proof fn law_voxtral_words_have_rows(cfg: VoxtralConfig,
    packs: PackFactors) -> (rows: (int, int))
    requires
        packs.embed_tokens > 0,
        packs.lm_head > 0,
    ensures
        voxtral_non_mapped_elems(cfg, packs) - voxtral_encoder_elems(cfg) == rows.0 + rows.1,
        packs.embed_tokens * rows.0 <= cfg.vocab_size * cfg.dim < packs.embed_tokens * (rows.0 + 1),
        cfg.tied_embeddings ==> rows.1 == 0,
        !cfg.tied_embeddings ==> packs.lm_head * rows.1 <= cfg.vocab_size * cfg.dim < packs.lm_head
            * (rows.1 + 1),
{
    let n = cfg.vocab_size * cfg.dim;
    lemma_quotient(n, packs.embed_tokens as int);
    lemma_quotient(n, packs.lm_head as int);
    (
        n / packs.embed_tokens as int,
        if cfg.tied_embeddings {
            0
        } else {
            n / packs.lm_head as int
        },
    )
}

/// A head has as many rows, in and out, as it has channels; a gated block has three rows for each
/// inner channel, and there are two norms. Packing divides the projections evenly.
pub proof fn law_voxtral_layers_cost(cfg: VoxtralConfig, pack: int, k: int)
    requires
        pack > 0,
        cfg.dim == pack * k,
    ensures
        pack * (voxtral_layer_elems(cfg, pack) - 2 * cfg.dim) == cfg.dim * (2 * cfg.head_dim * (
        cfg.n_heads + cfg.n_kv_heads) + 3 * cfg.hidden_dim),
{
    let d = cfg.dim as int;
    let (n, m, h, w) = (
        cfg.n_heads as int,
        cfg.n_kv_heads as int,
        cfg.head_dim as int,
        cfg.hidden_dim as int,
    );
    let x = 2 * h * (n + m);
    lemma_packed(d, x, pack, k);
    assert(d * n * h + d * m * h + d * m * h + n * h * d == d * x) by (nonlinear_arith)
        requires
            x == 2 * h * (n + m),
    ;
    lemma_packed(d, 3 * w, pack, k);
    assert(d * w + w * d + d * w == d * (3 * w)) by (nonlinear_arith);
    let (a, b) = (k * x, k * (3 * w));
    assert(pack * (a + b) == pack * a + pack * b) by (nonlinear_arith);
    assert(d * x + d * (3 * w) == d * (x + 3 * w)) by (nonlinear_arith);
}

/// A model that sees has as many tokens for an image as it is told, and else two hundred and
/// eighty; one that does not has none. They count as text.
pub proof fn law_diffusion_images_count_as_tokens(
    cfg: DiffusionGemmaConfig,
    seq: int,
    batch: int,
    images: int,
)
    ensures
        ({
            let tokens = if cfg.vision_config is None {
                0
            } else if cfg.vision_soft_tokens_per_image is Some {
                cfg.vision_soft_tokens_per_image->0 as int
            } else {
                280
            };
            diffusion_mapped_act_elems(cfg, seq, batch, images) == diffusion_mapped_act_elems(
                cfg,
                seq + tokens * images,
                batch,
                0,
            )
        }),
        diffusion_mapped_act_elems(cfg, seq + 1, batch, 0) - diffusion_mapped_act_elems(
            cfg,
            seq,
            batch,
            0,
        ) == batch * cfg.text_config.num_attention_heads * (2 * seq + 1),
        diffusion_mapped_act_elems(cfg, 0, batch, 0) == 0,
{
    let n = batch * cfg.text_config.num_attention_heads;
    let tokens = vision_tokens(cfg);
    assert(tokens * 0 == 0 && n * 0 * 0 == 0) by (nonlinear_arith);
    assert(n * (seq + 1) * (seq + 1) - n * seq * seq == n * (2 * seq + 1)) by (nonlinear_arith);
}

/// Four rows of scores of all words are held for each place of the canvas; a model that sees needs
/// room for the scores and the states of its patches too, whichever is more.
pub proof fn law_diffusion_has_room(cfg: DiffusionGemmaConfig, batch: int, images: int)
    requires
        0 <= batch,
        0 <= images,
    ensures
        ({
            let r = diffusion_non_mapped_act_elems(cfg, batch, images);
            let canvas = 4 * cfg.canvas_length * cfg.text_config.vocab_size;
            &&& r >= canvas
            &&& cfg.vision_config is None ==> r == canvas
            &&& cfg.vision_config matches Some(v) ==> ({
                let patches = v.default_output_length * v.pooling_kernel_size
                    * v.pooling_kernel_size;
                let items = batch * images;
                &&& r >= items * v.num_attention_heads * patches * patches
                &&& r >= items * patches * v.hidden_size
                &&& r >= items * patches * v.intermediate_size
                &&& r == canvas || r == items * v.num_attention_heads * patches * patches || r
                    == items * patches * v.hidden_size || r == items * patches
                    * v.intermediate_size
            })
        }),
{
    let canvas = 4 * cfg.canvas_length * cfg.text_config.vocab_size;
    assert(canvas >= 0) by (nonlinear_arith)
        requires
            canvas == 4 * cfg.canvas_length * cfg.text_config.vocab_size,
    ;
    if let Some(v) = cfg.vision_config {
        let patches = v.default_output_length * v.pooling_kernel_size * v.pooling_kernel_size;
        let n = batch * images * patches;
        assert(n >= 0) by (nonlinear_arith)
            requires
                n == batch * images * patches,
                patches == v.default_output_length * v.pooling_kernel_size * v.pooling_kernel_size,
                batch >= 0,
                images >= 0,
        ;
        let (a, b) = (v.hidden_size as int, v.intermediate_size as int);
        assert((a <= b ==> n * a <= n * b) && (b <= a ==> n * b <= n * a)) by (nonlinear_arith)
            requires
                n >= 0,
        ;
    }
}

/// Words have rows in the embeddings, which are not packed where they are the output head too, and
/// else in an output head of their own. A gated block and a norm condition the model on itself.
pub proof fn law_diffusion_words_have_rows(cfg: DiffusionGemmaConfig,
    packs: PackFactors) -> (rows: (
    int,
    int,
))
    requires
        packs.embed_tokens > 0,
        packs.lm_head > 0,
    ensures
        ({
            let t = cfg.text_config;
            let words = t.hidden_size * t.vocab_size;
            &&& diffusion_text_elems(cfg, packs) == rows.0 + rows.1 + t.hidden_size * (2 + 3
                * t.intermediate_size)
            &&& t.tie_word_embeddings ==> rows.0 == words && rows.1 == 0
            &&& !t.tie_word_embeddings ==> packs.embed_tokens * rows.0 <= words
                < packs.embed_tokens * (rows.0 + 1)
            &&& !t.tie_word_embeddings ==> packs.lm_head * rows.1 <= words < packs.lm_head * (rows.1
                + 1)
        }),
{
    let t = cfg.text_config;
    let (h, w) = (t.hidden_size as int, t.intermediate_size as int);
    let n = h * t.vocab_size;
    lemma_quotient(n, packs.embed_tokens as int);
    lemma_quotient(n, packs.lm_head as int);
    assert(h + (3 * h * w + h) == h * (2 + 3 * w)) by (nonlinear_arith);
    if t.tie_word_embeddings {
        (n, 0)
    } else {
        (n / packs.embed_tokens as int, n / packs.lm_head as int)
    }
}

/// A layer has three rows for each inner channel, rows in and out for each head, four norms of its
/// width and two of a head. Each axis has as many positions as it is told; what is seen is
/// projected to the text.
pub proof fn law_diffusion_vision_costs(cfg: DiffusionVisionConfig, more: DiffusionVisionConfig,
    text: int)
    ensures
        more == (DiffusionVisionConfig { num_hidden_layers: more.num_hidden_layers, ..cfg })
            ==> diffusion_vision_elems(more, text) - diffusion_vision_elems(cfg, text)
            == (cfg.hidden_size * cfg.head_dim
            * (cfg.num_attention_heads + 3 * cfg.num_key_value_heads)
            + 3 * cfg.hidden_size * cfg.intermediate_size + 2 * cfg.head_dim
            + 4 * cfg.hidden_size)
            * (more.num_hidden_layers - cfg.num_hidden_layers),
        more == (DiffusionVisionConfig { position_embedding_size: more.position_embedding_size,
            ..cfg }) ==> diffusion_vision_elems(more, text) - diffusion_vision_elems(cfg, text)
            == (2 * cfg.hidden_size)
            * (more.position_embedding_size - cfg.position_embedding_size),
        cfg.num_hidden_layers == 0 && cfg.position_embedding_size == 0
            ==> diffusion_vision_elems(cfg, text)
            == cfg.hidden_size * (3 * cfg.patch_size * cfg.patch_size + text),
{
    if more == (DiffusionVisionConfig { num_hidden_layers: more.num_hidden_layers, ..cfg }) {
        let (a, b) = (cfg.num_hidden_layers as int, more.num_hidden_layers as int);
        let (h, d, w) = (
            cfg.hidden_size as int,
            cfg.head_dim as int,
            cfg.intermediate_size as int,
        );
        let (n, m) = (cfg.num_attention_heads as int, cfg.num_key_value_heads as int);
        let layer = h * n * d + 3 * (h * m * d) + 2 * (h * w) + w * h + (2 * d + 4 * h);
        assert(layer == h * d * (n + 3 * m) + 3 * h * w + 2 * d + 4 * h) by (nonlinear_arith)
            requires
                layer == h * n * d + 3 * (h * m * d) + 2 * (h * w) + w * h + (2 * d + 4 * h),
        ;
        assert(b * layer - a * layer == layer * (b - a)) by (nonlinear_arith);
    }
    assert(more == (DiffusionVisionConfig { position_embedding_size: more.position_embedding_size,
        ..cfg }) ==> diffusion_vision_elems(more, text) - diffusion_vision_elems(cfg, text)
        == (2 * cfg.hidden_size)
        * (more.position_embedding_size
        - cfg.position_embedding_size)) by (nonlinear_arith);
    assert(cfg.num_hidden_layers == 0 && cfg.position_embedding_size == 0
        ==> diffusion_vision_elems(cfg, text)
        == cfg.hidden_size * (3 * cfg.patch_size * cfg.patch_size + text)) by (nonlinear_arith);
}

/// A layer that looks at everything may have heads of another width and number, and none of values
/// where these are the keys; queries and keys have a norm each.
pub proof fn law_diffusion_attention_costs(cfg: DiffusionTextConfig)
    ensures
        ({
            let h = cfg.hidden_size;
            let own = cfg.num_key_value_heads as int;
            let all = if cfg.num_global_key_value_heads is Some {
                cfg.num_global_key_value_heads->0 as int
            } else {
                own
            };
            &&& diffusion_attention_elems(cfg, true) == 2 * cfg.head_dim * (h * (
            cfg.num_attention_heads + own) + 1)
            &&& diffusion_attention_elems(cfg, false) == cfg.global_head_dim * (h * (2
                * cfg.num_attention_heads + (if cfg.attention_k_eq_v {
                1int
            } else {
                2
            }) * all) + 2)
        }),
{
    let (h, n) = (cfg.hidden_size as int, cfg.num_attention_heads as int);
    let own = cfg.num_key_value_heads as int;
    let all = if cfg.num_global_key_value_heads is Some {
        cfg.num_global_key_value_heads->0 as int
    } else {
        own
    };
    let (d, g) = (cfg.head_dim as int, cfg.global_head_dim as int);
    assert(h * n * d + h * own * d + n * d * h + h * own * d + 2 * d == 2 * d * (h * (n + own) + 1))
        by (nonlinear_arith);
    assert(h * n * g + h * all * g + n * g * h + 0 + 2 * g == g * (h * (2 * n + 1 * all) + 2))
        by (nonlinear_arith);
    assert(h * n * g + h * all * g + n * g * h + h * all * g + 2 * g == g * (h * (2 * n + 2 * all)
        + 2)) by (nonlinear_arith);
}

/// An expert has three rows for each inner channel, a row to be routed by and a scale; three norms
/// and a scale of the model's width come with them. A layer is attention, a gated block, four
/// norms, two numbers, and experts where it has them.
pub proof fn law_diffusion_layers_cost(cfg: DiffusionGemmaConfig, sliding: bool)
    ensures
        ({
            let t = cfg.text_config;
            let experts = if t.num_experts is Some {
                t.num_experts->0 as int
            } else {
                0
            };
            let width = if t.expert_intermediate_size is Some {
                t.expert_intermediate_size->0 as int
            } else {
                0
            };
            &&& diffusion_experts_elems(t) == experts * (3 * t.hidden_size * width + t.hidden_size
                + 1) + 4 * t.hidden_size
            &&& diffusion_layer_elems(cfg, sliding) - diffusion_attention_elems(t, sliding)
                == t.hidden_size * (3 * t.intermediate_size + 4) + 2 + (if t.enable_moe_block {
                diffusion_experts_elems(t)
            } else {
                0
            })
        }),
{
    let t = cfg.text_config;
    let h = t.hidden_size as int;
    let w = t.intermediate_size as int;
    let e = or_zero(t.num_experts);
    let x = or_zero(t.expert_intermediate_size);
    assert(e * h * x * 2 + e * x * h + e + e * h + h + 3 * h == e * (3 * h * x + h + 1) + 4 * h)
        by (nonlinear_arith);
    assert(3 * h * w + (4 * h + 2) == h * (3 * w + 4) + 2) by (nonlinear_arith);
}

/// Images are not computed in half precision, and everything else is left as it is.
pub proof fn law_vision_is_not_computed_in_half_precision(dtype: DType)
    ensures
        vision_dtype(dtype) != DType::F16,
        dtype != DType::F16 ==> vision_dtype(dtype) == dtype,
        dtype == DType::F16 ==> vision_dtype(dtype).bytes() == 2 * dtype.bytes(),
{
}

} // verus!
