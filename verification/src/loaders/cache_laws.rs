//! What loaders tell the cache, where they place tensors, and what they answer.

use vstd::prelude::*;

use crate::loaders::json::{incremental_cache, limited_config};
use crate::loaders::multimodal::diffusion_gemma::{
    diffusion_attention_elems, diffusion_text_elems, diffusion_vision_elems, diffusion_vision_part,
    DiffusionGemmaConfig, DiffusionGemmaLoader, DiffusionTextConfig,
};
use crate::loaders::multimodal::laws::law_diffusion_attention_costs;
use crate::loaders::multimodal::lfm2vl::{
    lfm2vl_attention_elems, Lfm2VlConfig, Lfm2VlLoader, Lfm2VlTextConfig,
};
use crate::loaders::multimodal::minicpm_o::{
    minicpmo_layer_elems, MiniCpmOConfig, MiniCpmOLoader, MiniCpmOTextConfig,
};
use crate::loaders::multimodal::mistral3::{
    mistral3_layer_elems, mistral3_shape, Mistral3Config, Mistral3Loader, Mistral3TextConfig,
};
use crate::loaders::multimodal::muse_glimmer::{
    muse_glimmer_layer_elems, MuseGlimmerConfig, MuseGlimmerLoader, MuseGlimmerTextConfig,
};
use crate::loaders::multimodal::phi4mm::{
    numbered_marks, phi4_layer_elems, phi4_non_mapped_elems, phi4_text_elems, Phi4ImageEmbed,
    Phi4MMConfig, Phi4MMLoader,
};
use crate::loaders::multimodal::qwen2vl::{qwen2vl_layer_elems, Qwen2VLConfig, Qwen2VLLoader};
use crate::loaders::multimodal::qwen3_5_moe::{
    qwen3_5_full_elems, Qwen3_5MoeConfig, Qwen3_5MoeLoader, Qwen3_5MoeTextConfig,
};
use crate::loaders::multimodal::qwen3vl::{
    qwen3vl_layer_elems, Qwen3VLConfig, Qwen3VLLoader, Qwen3VLTextConfig,
};
use crate::loaders::multimodal::vllama::{
    vllama_layer_elems, MLlamaConfig, MLlamaTextConfig, VLlamaLoader,
};
use crate::loaders::multimodal::vllama4::{
    vllama4_layer_elems, Llama4Config, Llama4TextConfig, VLlama4Loader,
};
use crate::loaders::multimodal::voxtral::{voxtral_layer_elems, VoxtralConfig, VoxtralLoader};
use crate::loaders::multimodal::SiglipConfig;
use crate::loaders::normal::deepseek3::{
    block_patterns, deepseek3_attention_elems, deepseek3_q_elems, expert_patterns, is_moe_layer,
    DeepSeekV3Config, DeepSeekV3Loader,
};
use crate::loaders::normal::granite::{
    granite_attention_elems, GraniteConfig, GraniteMoeHybridLoader,
};
use crate::loaders::normal::laws::law_deepseek3_attention_costs;
use crate::loaders::normal::lfm2::{lfm2_attention_elems, Lfm2Config, Lfm2Loader};
use crate::loaders::normal::qwen3_next::{
    qwen3_next_full_elems, LayerType, Qwen3NextConfig, Qwen3NextLoader,
};
use crate::loaders::placement::{
    bounded_place, clamped_place, digits_value, index_value, DeviceForLoadTensor,
};
use crate::loaders::sizes::{decoder_layer_elems, lemma_quotient, word};
use crate::loaders::{
    is_gptx_for, runtime_config, LoaderError, ModelConfigMetadata, PackFactors, RopePairing,
};
use crate::tensor::DType;
use crate::text::decimal;

verus! {

/// The cache holds as many layers as the model has, and keys and values of the heads that its
/// projections have; how long prompts may be changes nothing but that.
pub proof fn law_granite_cache_matches_the_layers(
    loader: GraniteMoeHybridLoader,
    cfg: GraniteConfig,
    more: GraniteConfig,
    r: ModelConfigMetadata,
    q: ModelConfigMetadata,
    layers: usize,
)
    requires
        call_ensures(GraniteMoeHybridLoader::model_config, (&loader, &cfg), r),
        call_ensures(GraniteMoeHybridLoader::model_config, (&loader, &more), q),
        call_ensures(GraniteMoeHybridLoader::num_layers, (&loader, &cfg), layers),
        more == (GraniteConfig { max_position_embeddings: more.max_position_embeddings, ..cfg }),
    ensures
        r.num_layers == layers,
        q == (ModelConfigMetadata { max_seq_len: q.max_seq_len, ..r }),
        r.max_seq_len == cfg.max_position_embeddings,
        granite_attention_elems(cfg, 1) == 2 * r.hidden_size * (r.num_attn_heads * r.k_head_dim
            + r.num_kv_heads * r.v_head_dim),
{
    let h = r.hidden_size as int;
    let (n, m) = (r.num_attn_heads as int, r.num_kv_heads as int);
    let d = r.k_head_dim as int;
    assert(h * (d * n) + h * (d * m) + h * (d * m) + h * (d * n) == 2 * h * (n * d + m * d))
        by (nonlinear_arith);
}

/// The cache holds as many layers as the model has, and keys and values of the heads that its
/// projections have; how long prompts may be changes nothing but that.
pub proof fn law_lfm2_cache_matches_the_layers(
    loader: Lfm2Loader,
    cfg: Lfm2Config,
    more: Lfm2Config,
    r: ModelConfigMetadata,
    q: ModelConfigMetadata,
    layers: usize,
)
    requires
        call_ensures(Lfm2Loader::model_config, (&loader, &cfg), r),
        call_ensures(Lfm2Loader::model_config, (&loader, &more), q),
        call_ensures(Lfm2Loader::num_layers, (&loader, &cfg), layers),
        more == (Lfm2Config { max_position_embeddings: more.max_position_embeddings, ..cfg }),
    ensures
        r.num_layers == layers,
        q == (ModelConfigMetadata { max_seq_len: q.max_seq_len, ..r }),
        r.max_seq_len == cfg.max_position_embeddings,
        lfm2_attention_elems(cfg, 1) == 2 * r.hidden_size * (r.num_attn_heads * r.k_head_dim
            + r.num_kv_heads * r.v_head_dim) + r.k_head_dim + r.v_head_dim,
{
    let h = r.hidden_size as int;
    let (n, m) = (r.num_attn_heads as int, r.num_kv_heads as int);
    let d = r.k_head_dim as int;
    assert(h * (n * d) + h * (m * d) * 2 + n * d * h == 2 * h * (n * d + m * d))
        by (nonlinear_arith);
}

/// The cache holds as many layers as the model has, and keys and values of the heads that its
/// projections have; how long prompts may be changes nothing but that.
pub proof fn law_lfm2vl_cache_matches_the_layers(
    loader: Lfm2VlLoader,
    cfg: Lfm2VlConfig,
    more: Lfm2VlConfig,
    r: ModelConfigMetadata,
    q: ModelConfigMetadata,
    layers: usize,
)
    requires
        call_ensures(Lfm2VlLoader::model_config, (&loader, &cfg), r),
        call_ensures(Lfm2VlLoader::model_config, (&loader, &more), q),
        call_ensures(Lfm2VlLoader::num_layers, (&loader, &cfg), layers),
        more == (Lfm2VlConfig {
            text_config: Lfm2VlTextConfig {
                max_position_embeddings: more.text_config.max_position_embeddings,
                ..cfg.text_config
            },
            ..cfg
        }),
    ensures
        r.num_layers == layers,
        q == (ModelConfigMetadata { max_seq_len: q.max_seq_len, ..r }),
        r.max_seq_len == cfg.text_config.max_position_embeddings,
        lfm2vl_attention_elems(cfg.text_config, 1) == 2 * r.hidden_size * (r.num_attn_heads * r.k_head_dim
            + r.num_kv_heads * r.v_head_dim) + r.k_head_dim + r.v_head_dim,
{
    let h = r.hidden_size as int;
    let (n, m) = (r.num_attn_heads as int, r.num_kv_heads as int);
    let d = r.k_head_dim as int;
    assert(h * (n * d) + h * (m * d) * 2 + n * d * h == 2 * h * (n * d + m * d))
        by (nonlinear_arith);
}

/// The cache holds as many layers as the model has, and keys and values of the heads that its
/// projections have; how long prompts may be changes nothing but that.
pub proof fn law_qwen3_next_cache_matches_the_layers(
    loader: Qwen3NextLoader,
    cfg: Qwen3NextConfig,
    more: Qwen3NextConfig,
    r: ModelConfigMetadata,
    q: ModelConfigMetadata,
    layers: usize,
)
    requires
        call_ensures(Qwen3NextLoader::model_config, (&loader, &cfg), r),
        call_ensures(Qwen3NextLoader::model_config, (&loader, &more), q),
        call_ensures(Qwen3NextLoader::num_layers, (&loader, &cfg), layers),
        more == (Qwen3NextConfig { max_position_embeddings: more.max_position_embeddings, ..cfg }),
    ensures
        r.num_layers == layers,
        q == (ModelConfigMetadata { max_seq_len: q.max_seq_len, ..r }),
        r.max_seq_len == cfg.max_position_embeddings,
        qwen3_next_full_elems(cfg, 1) == r.hidden_size * (3 * r.num_attn_heads * r.k_head_dim + 2
            * r.num_kv_heads * r.v_head_dim) + r.k_head_dim + r.v_head_dim,
{
    let h = r.hidden_size as int;
    let (n, m) = (r.num_attn_heads as int, r.num_kv_heads as int);
    let d = r.k_head_dim as int;
    assert(h * (d * n) * 2 + h * (d * m) + h * (d * m) + d * n * h == h * (3 * n * d + 2 * m * d))
        by (nonlinear_arith);
}

/// The cache holds as many layers as the model has, and keys and values of the heads that its
/// projections have; how long prompts may be changes nothing but that.
pub proof fn law_qwen3_5_moe_cache_matches_the_layers(
    loader: Qwen3_5MoeLoader,
    cfg: Qwen3_5MoeConfig,
    more: Qwen3_5MoeConfig,
    r: ModelConfigMetadata,
    q: ModelConfigMetadata,
    layers: usize,
)
    requires
        call_ensures(Qwen3_5MoeLoader::model_config, (&loader, &cfg), r),
        call_ensures(Qwen3_5MoeLoader::model_config, (&loader, &more), q),
        call_ensures(Qwen3_5MoeLoader::num_layers, (&loader, &cfg), layers),
        more == (Qwen3_5MoeConfig {
            text_config: Qwen3_5MoeTextConfig {
                max_position_embeddings: more.text_config.max_position_embeddings,
                ..cfg.text_config
            },
            ..cfg
        }),
    ensures
        r.num_layers == layers,
        q == (ModelConfigMetadata { max_seq_len: q.max_seq_len, ..r }),
        r.max_seq_len == cfg.text_config.max_position_embeddings,
        qwen3_5_full_elems(cfg.text_config, 1) == r.hidden_size * (3 * r.num_attn_heads * r.k_head_dim + 2
            * r.num_kv_heads * r.v_head_dim) + r.k_head_dim + r.v_head_dim,
{
    let h = r.hidden_size as int;
    let (n, m) = (r.num_attn_heads as int, r.num_kv_heads as int);
    let d = r.k_head_dim as int;
    assert(h * (d * n) * 2 + h * (d * m) + h * (d * m) + d * n * h == h * (3 * n * d + 2 * m * d))
        by (nonlinear_arith);
}

/// The cache holds as many layers as the model has, and keys and values of the heads that its
/// projections have; how long prompts may be changes nothing but that.
pub proof fn law_deepseek3_cache_matches_the_layers(
    loader: DeepSeekV3Loader,
    cfg: DeepSeekV3Config,
    more: DeepSeekV3Config,
    r: ModelConfigMetadata,
    q: ModelConfigMetadata,
    layers: usize,
)
    requires
        call_ensures(DeepSeekV3Loader::model_config, (&loader, &cfg), r),
        call_ensures(DeepSeekV3Loader::model_config, (&loader, &more), q),
        call_ensures(DeepSeekV3Loader::num_layers, (&loader, &cfg), layers),
        more == (DeepSeekV3Config { max_position_embeddings: more.max_position_embeddings, ..cfg }),
        word(cfg.qk_rope_head_dim + cfg.qk_nope_head_dim),
    ensures
        r.num_layers == layers,
        q == (ModelConfigMetadata { max_seq_len: q.max_seq_len, ..r }),
        r.max_seq_len == cfg.max_position_embeddings,
        r.num_kv_heads == r.num_attn_heads,
        r.k_head_dim - cfg.qk_nope_head_dim == cfg.qk_rope_head_dim,
        deepseek3_attention_elems(cfg, 1) - deepseek3_q_elems(cfg) == cfg.kv_lora_rank * (1
            + r.hidden_size + r.num_kv_heads * (cfg.q_head_dim - cfg.qk_rope_head_dim
            + r.v_head_dim)) + r.hidden_size * (cfg.qk_rope_head_dim + r.num_attn_heads
            * r.v_head_dim) + (if cfg.attention_bias {
            cfg.kv_lora_rank + cfg.qk_rope_head_dim + r.hidden_size
        } else {
            0
        }),
{
    let h = r.hidden_size as int;
    let (n, m) = (r.num_attn_heads as int, r.num_kv_heads as int);
    let d = r.k_head_dim as int;
    law_deepseek3_attention_costs(cfg);
}

/// The cache holds as many layers as the model has, and keys and values of the heads that its
/// projections have; how long prompts may be changes nothing but that.
pub proof fn law_minicpmo_cache_matches_the_layers(
    loader: MiniCpmOLoader,
    cfg: MiniCpmOConfig,
    more: MiniCpmOConfig,
    r: ModelConfigMetadata,
    q: ModelConfigMetadata,
    layers: usize,
)
    requires
        call_ensures(MiniCpmOLoader::model_config, (&loader, &cfg), r),
        call_ensures(MiniCpmOLoader::model_config, (&loader, &more), q),
        call_ensures(MiniCpmOLoader::num_layers, (&loader, &cfg), layers),
        more == (MiniCpmOConfig {
            text_config: MiniCpmOTextConfig {
                max_position_embeddings: more.text_config.max_position_embeddings,
                ..cfg.text_config
            },
            ..cfg
        }),
        cfg.text_config.num_attention_heads > 0,
    ensures
        r.num_layers == layers,
        q == (ModelConfigMetadata { max_seq_len: q.max_seq_len, ..r }),
        r.max_seq_len == cfg.text_config.max_position_embeddings,
        r.k_head_dim * r.num_attn_heads <= r.hidden_size,
        r.hidden_size < (r.k_head_dim + 1) * r.num_attn_heads,
        minicpmo_layer_elems(cfg, 1) == 2 * r.hidden_size + 2 * r.hidden_size * (r.num_attn_heads
            * r.k_head_dim + r.num_kv_heads * r.v_head_dim) + 3 * r.hidden_size
            * cfg.text_config.intermediate_size,
{
    let h = r.hidden_size as int;
    let (n, m) = (r.num_attn_heads as int, r.num_kv_heads as int);
    let d = r.k_head_dim as int;
    let w = cfg.text_config.intermediate_size as int;
    lemma_quotient(h, n);
    assert(d * n == n * d && (d + 1) * n == n * (d + 1)) by (nonlinear_arith);
    assert(h * (d * n) + h * (d * m) + h * (d * m) + h * (d * n) + (h * w + h * w + h * w) == 2 * h
        * (n * d + m * d) + 3 * h * w) by (nonlinear_arith);
}

/// The cache holds as many layers as the model has, and keys and values of the heads that its
/// projections have; how long prompts may be changes nothing but that.
pub proof fn law_qwen2vl_cache_matches_the_layers(
    loader: Qwen2VLLoader,
    cfg: Qwen2VLConfig,
    more: Qwen2VLConfig,
    r: ModelConfigMetadata,
    q: ModelConfigMetadata,
    layers: usize,
)
    requires
        call_ensures(Qwen2VLLoader::model_config, (&loader, &cfg), r),
        call_ensures(Qwen2VLLoader::model_config, (&loader, &more), q),
        call_ensures(Qwen2VLLoader::num_layers, (&loader, &cfg), layers),
        more == (Qwen2VLConfig { max_position_embeddings: more.max_position_embeddings, ..cfg }),
        cfg.num_attention_heads > 0,
    ensures
        r.num_layers == layers,
        q == (ModelConfigMetadata { max_seq_len: q.max_seq_len, ..r }),
        r.max_seq_len == cfg.max_position_embeddings,
        r.k_head_dim * r.num_attn_heads <= r.hidden_size,
        r.hidden_size < (r.k_head_dim + 1) * r.num_attn_heads,
        qwen2vl_layer_elems(cfg, 1) == 2 * r.hidden_size + 2 * r.hidden_size * (r.num_attn_heads
            * r.k_head_dim + r.num_kv_heads * r.v_head_dim) + 3 * r.hidden_size
            * cfg.intermediate_size + r.num_attn_heads * r.k_head_dim + 2
            * r.num_kv_heads * r.v_head_dim,
{
    let h = r.hidden_size as int;
    let (n, m) = (r.num_attn_heads as int, r.num_kv_heads as int);
    let d = r.k_head_dim as int;
    let w = cfg.intermediate_size as int;
    lemma_quotient(h, n);
    assert(d * n == n * d && (d + 1) * n == n * (d + 1)) by (nonlinear_arith);
    assert(h * (d * n) + h * (d * m) + h * (d * m) + h * (d * n) + (h * w + h * w + h * w) == 2 * h
        * (n * d + m * d) + 3 * h * w) by (nonlinear_arith);
    assert(d * n + d * m + d * m == n * d + 2 * m * d) by (nonlinear_arith);
}

/// The cache holds as many layers as the model has, and keys and values of the heads that its
/// projections have; how long prompts may be changes nothing but that.
pub proof fn law_vllama_cache_matches_the_layers(
    loader: VLlamaLoader,
    cfg: MLlamaConfig,
    more: MLlamaConfig,
    r: ModelConfigMetadata,
    q: ModelConfigMetadata,
    layers: usize,
)
    requires
        call_ensures(VLlamaLoader::model_config, (&loader, &cfg), r),
        call_ensures(VLlamaLoader::model_config, (&loader, &more), q),
        call_ensures(VLlamaLoader::num_layers, (&loader, &cfg), layers),
        more == (MLlamaConfig {
            text_config: MLlamaTextConfig {
                max_position_embeddings: more.text_config.max_position_embeddings,
                ..cfg.text_config
            },
            ..cfg
        }),
        cfg.text_config.num_attention_heads > 0,
    ensures
        r.num_layers == layers,
        q == (ModelConfigMetadata { max_seq_len: q.max_seq_len, ..r }),
        r.max_seq_len == cfg.text_config.max_position_embeddings,
        r.k_head_dim * r.num_attn_heads <= r.hidden_size,
        r.hidden_size < (r.k_head_dim + 1) * r.num_attn_heads,
        vllama_layer_elems(cfg, false, 1) == 2 * r.hidden_size + 2 * r.hidden_size * (r.num_attn_heads
            * r.k_head_dim + r.num_kv_heads * r.v_head_dim) + 3 * r.hidden_size
            * cfg.text_config.intermediate_size,
{
    let h = r.hidden_size as int;
    let (n, m) = (r.num_attn_heads as int, r.num_kv_heads as int);
    let d = r.k_head_dim as int;
    let w = cfg.text_config.intermediate_size as int;
    lemma_quotient(h, n);
    assert(d * n == n * d && (d + 1) * n == n * (d + 1)) by (nonlinear_arith);
    assert(h * (d * n) + h * (d * m) + h * (d * m) + h * (d * n) + (h * w + h * w + h * w) == 2 * h
        * (n * d + m * d) + 3 * h * w) by (nonlinear_arith);
}

/// The cache holds as many layers as the model has, and keys and values of the heads that its
/// projections have; how long prompts may be changes nothing but that.
pub proof fn law_vllama4_cache_matches_the_layers(
    loader: VLlama4Loader,
    cfg: Llama4Config,
    more: Llama4Config,
    r: ModelConfigMetadata,
    q: ModelConfigMetadata,
    layers: usize,
)
    requires
        call_ensures(VLlama4Loader::model_config, (&loader, &cfg), r),
        call_ensures(VLlama4Loader::model_config, (&loader, &more), q),
        call_ensures(VLlama4Loader::num_layers, (&loader, &cfg), layers),
        more == (Llama4Config {
            text_config: Llama4TextConfig {
                max_position_embeddings: more.text_config.max_position_embeddings,
                ..cfg.text_config
            },
            ..cfg
        }),
        cfg.text_config.num_attention_heads > 0,
    ensures
        r.num_layers == layers,
        q == (ModelConfigMetadata { max_seq_len: q.max_seq_len, ..r }),
        r.max_seq_len == cfg.text_config.max_position_embeddings,
        r.k_head_dim * r.num_attn_heads <= r.hidden_size,
        r.hidden_size < (r.k_head_dim + 1) * r.num_attn_heads,
        vllama4_layer_elems(cfg, false, 1) == 2 * r.hidden_size + 2 * r.hidden_size * (r.num_attn_heads
            * r.k_head_dim + r.num_kv_heads * r.v_head_dim) + 3 * r.hidden_size
            * cfg.text_config.intermediate_size_mlp,
{
    let h = r.hidden_size as int;
    let (n, m) = (r.num_attn_heads as int, r.num_kv_heads as int);
    let d = r.k_head_dim as int;
    let w = cfg.text_config.intermediate_size_mlp as int;
    lemma_quotient(h, n);
    assert(d * n == n * d && (d + 1) * n == n * (d + 1)) by (nonlinear_arith);
    assert(h * (d * n) + h * (d * m) + h * (d * m) + h * (d * n) + (h * w + h * w + h * w) == 2 * h
        * (n * d + m * d) + 3 * h * w) by (nonlinear_arith);
}

/// The cache holds as many layers as the model has, and keys and values of the heads that its
/// projections have; how long prompts may be changes nothing but that.
pub proof fn law_mistral3_cache_matches_the_layers(
    loader: Mistral3Loader,
    cfg: Mistral3Config,
    more: Mistral3Config,
    r: ModelConfigMetadata,
    q: ModelConfigMetadata,
    layers: usize,
)
    requires
        call_ensures(Mistral3Loader::model_config, (&loader, &cfg), r),
        call_ensures(Mistral3Loader::model_config, (&loader, &more), q),
        call_ensures(Mistral3Loader::num_layers, (&loader, &cfg), layers),
        more == (Mistral3Config {
            text_config: Mistral3TextConfig {
                max_position_embeddings: more.text_config.max_position_embeddings,
                ..cfg.text_config
            },
            ..cfg
        }),
    ensures
        r.num_layers == layers,
        q == (ModelConfigMetadata { max_seq_len: q.max_seq_len, ..r }),
        r.max_seq_len == cfg.text_config.max_position_embeddings,
        r.k_head_dim == r.v_head_dim,
        r.v_head_dim == cfg.text_config.head_dim,
        mistral3_layer_elems(cfg, 1) == decoder_layer_elems(
            r.hidden_size as int,
            r.hidden_size as int / r.num_attn_heads as int * r.num_attn_heads,
            r.hidden_size as int / r.num_attn_heads as int * r.num_kv_heads,
            cfg.text_config.intermediate_size as int,
            1,
        ),
{
    let h = r.hidden_size as int;
    let (n, m) = (r.num_attn_heads as int, r.num_kv_heads as int);
    let d = r.k_head_dim as int;
}

/// The cache holds as many layers as the model has, and keys and values of the heads that its
/// projections have; how long prompts may be changes nothing but that.
pub proof fn law_muse_glimmer_cache_matches_the_layers(
    loader: MuseGlimmerLoader,
    cfg: MuseGlimmerConfig,
    more: MuseGlimmerConfig,
    r: ModelConfigMetadata,
    q: ModelConfigMetadata,
    layers: usize,
)
    requires
        call_ensures(MuseGlimmerLoader::model_config, (&loader, &cfg), r),
        call_ensures(MuseGlimmerLoader::model_config, (&loader, &more), q),
        call_ensures(MuseGlimmerLoader::num_layers, (&loader, &cfg), layers),
        more == (MuseGlimmerConfig {
            text_config: MuseGlimmerTextConfig {
                max_position_embeddings: more.text_config.max_position_embeddings,
                ..cfg.text_config
            },
            ..cfg
        }),
    ensures
        r.num_layers == layers,
        q == (ModelConfigMetadata { max_seq_len: q.max_seq_len, ..r }),
        r.max_seq_len == cfg.text_config.max_position_embeddings,
        muse_glimmer_layer_elems(cfg, 1) == r.hidden_size * (3 * (r.num_attn_heads * r.k_head_dim)
            + 2 * (r.num_kv_heads * r.v_head_dim) + 3 * cfg.text_config.intermediate_size + 4) + (
        if cfg.text_config.attention_bias {
            r.num_attn_heads * r.k_head_dim + 2 * (r.num_kv_heads * r.v_head_dim) + r.hidden_size
        } else {
            0
        }),
{
    let h = r.hidden_size as int;
    let (n, m) = (r.num_attn_heads as int, r.num_kv_heads as int);
    let d = r.k_head_dim as int;
    let w = cfg.text_config.intermediate_size as int;
    let (a, b) = (n * d, m * d);
    assert(h * a * 3 + h * b * 2 + 3 * h * w + 4 * h == h * (3 * a + 2 * b + 3 * w + 4))
        by (nonlinear_arith);
}

/// The cache holds as many layers as the model has, and keys and values of the heads that its
/// projections have; how long prompts may be changes nothing but that.
pub proof fn law_phi4_cache_matches_the_layers(
    loader: Phi4MMLoader,
    cfg: Phi4MMConfig,
    more: Phi4MMConfig,
    r: ModelConfigMetadata,
    q: ModelConfigMetadata,
    layers: usize,
)
    requires
        call_ensures(Phi4MMLoader::model_config, (&loader, &cfg), r),
        call_ensures(Phi4MMLoader::model_config, (&loader, &more), q),
        call_ensures(Phi4MMLoader::num_layers, (&loader, &cfg), layers),
        more == (Phi4MMConfig { max_position_embeddings: more.max_position_embeddings, ..cfg }),
    ensures
        r.num_layers == layers,
        q == (ModelConfigMetadata { max_seq_len: q.max_seq_len, ..r }),
        r.max_seq_len == cfg.max_position_embeddings,
        phi4_layer_elems(cfg, 1) == 2 * r.hidden_size + 2 * r.hidden_size * (r.num_attn_heads
            * r.k_head_dim + r.num_kv_heads * r.v_head_dim) + 3 * r.hidden_size
            * cfg.intermediate_size,
{
    let h = r.hidden_size as int;
    let (n, m) = (r.num_attn_heads as int, r.num_kv_heads as int);
    let d = r.k_head_dim as int;
    let w = cfg.intermediate_size as int;
    assert(h * (n * d + 2 * m * d) + n * d * h + h * (2 * w) + h * w == 2 * h * (n * d + m * d) + 3
        * h * w) by (nonlinear_arith);
}

/// The cache holds as many layers as the model has, and keys and values of the heads that its
/// projections have; how long prompts may be changes nothing but that.
pub proof fn law_qwen3vl_cache_matches_the_layers(
    loader: Qwen3VLLoader,
    cfg: Qwen3VLConfig,
    more: Qwen3VLConfig,
    r: ModelConfigMetadata,
    q: ModelConfigMetadata,
    layers: usize,
)
    requires
        call_ensures(Qwen3VLLoader::model_config, (&loader, &cfg), r),
        call_ensures(Qwen3VLLoader::model_config, (&loader, &more), q),
        call_ensures(Qwen3VLLoader::num_layers, (&loader, &cfg), layers),
        more == (Qwen3VLConfig {
            text_config: Qwen3VLTextConfig {
                max_position_embeddings: more.text_config.max_position_embeddings,
                ..cfg.text_config
            },
            ..cfg
        }),
    ensures
        r.num_layers == layers,
        q == (ModelConfigMetadata { max_seq_len: q.max_seq_len, ..r }),
        r.max_seq_len == cfg.text_config.max_position_embeddings,
        qwen3vl_layer_elems(cfg, 1) == 2 * r.hidden_size + 2 * r.hidden_size * (r.num_attn_heads
            * r.k_head_dim + r.num_kv_heads * r.v_head_dim) + 3 * r.hidden_size
            * cfg.text_config.intermediate_size + r.k_head_dim + r.v_head_dim,
{
    let h = r.hidden_size as int;
    let (n, m) = (r.num_attn_heads as int, r.num_kv_heads as int);
    let d = r.k_head_dim as int;
    let w = cfg.text_config.intermediate_size as int;
    assert(h * (d * n) + h * (d * m) + h * (d * m) + h * (d * n) + (h * w + h * w + h * w) == 2 * h
        * (n * d + m * d) + 3 * h * w) by (nonlinear_arith);
}

/// The cache holds as many layers as the model has, and keys and values of the heads that its
/// projections have; how long prompts may be changes nothing but that.
pub proof fn law_voxtral_cache_matches_the_layers(
    loader: VoxtralLoader,
    cfg: VoxtralConfig,
    more: VoxtralConfig,
    r: ModelConfigMetadata,
    q: ModelConfigMetadata,
    layers: usize,
)
    requires
        call_ensures(VoxtralLoader::model_config, (&loader, &cfg), r),
        call_ensures(VoxtralLoader::model_config, (&loader, &more), q),
        call_ensures(VoxtralLoader::num_layers, (&loader, &cfg), layers),
        more == (VoxtralConfig { model_max_length: more.model_max_length, ..cfg }),
    ensures
        r.num_layers == layers,
        q == (ModelConfigMetadata { max_seq_len: q.max_seq_len, ..r }),
        r.max_seq_len == cfg.model_max_length,
        voxtral_layer_elems(cfg, 1) == 2 * r.hidden_size + 2 * r.hidden_size * (r.num_attn_heads
            * r.k_head_dim + r.num_kv_heads * r.v_head_dim) + 3 * r.hidden_size * cfg.hidden_dim,
{
    let h = r.hidden_size as int;
    let (n, m) = (r.num_attn_heads as int, r.num_kv_heads as int);
    let d = r.k_head_dim as int;
    let w = cfg.hidden_dim as int;
    let (x, y) = (n * d, m * d);
    assert(h * n * d == h * x && n * d * h == h * x && h * m * d == h * y) by (nonlinear_arith)
        requires
            x == n * d,
            y == m * d,
    ;
    assert(h * x + h * y + h * y + h * x + (h * w + w * h + h * w) == 2 * h * (x + y) + 3 * h * w)
        by (nonlinear_arith);
}

/// The cache holds as many layers as the model has, and keys and values of the heads that its
/// projections have; how long prompts may be changes nothing but that.
pub proof fn law_diffusion_cache_matches_the_layers(
    loader: DiffusionGemmaLoader,
    cfg: DiffusionGemmaConfig,
    more: DiffusionGemmaConfig,
    r: ModelConfigMetadata,
    q: ModelConfigMetadata,
    layers: usize,
)
    requires
        call_ensures(DiffusionGemmaLoader::model_config, (&loader, &cfg), r),
        call_ensures(DiffusionGemmaLoader::model_config, (&loader, &more), q),
        call_ensures(DiffusionGemmaLoader::num_layers, (&loader, &cfg), layers),
        more == (DiffusionGemmaConfig {
            text_config: DiffusionTextConfig {
                max_position_embeddings: more.text_config.max_position_embeddings,
                ..cfg.text_config
            },
            ..cfg
        }),
    ensures
        r.num_layers == layers,
        q == (ModelConfigMetadata { max_seq_len: q.max_seq_len, ..r }),
        r.max_seq_len == cfg.text_config.max_position_embeddings,
        r.k_head_dim == r.v_head_dim,
        diffusion_attention_elems(cfg.text_config, true) == 2 * cfg.text_config.head_dim * (
        r.hidden_size * (r.num_attn_heads + r.num_kv_heads) + 1),
        cfg.text_config.num_global_key_value_heads is None && !cfg.text_config.attention_k_eq_v
            ==> diffusion_attention_elems(cfg.text_config, false) == r.k_head_dim * (r.hidden_size
            * (2 * r.num_attn_heads + 2 * r.num_kv_heads) + 2),
{
    let h = r.hidden_size as int;
    let (n, m) = (r.num_attn_heads as int, r.num_kv_heads as int);
    let d = r.k_head_dim as int;
    law_diffusion_attention_costs(cfg.text_config);
}

/// A number that is written out is read as that number, and so no two numbers are written alike.
pub proof fn law_written_indices_are_read_back(n: nat)
    ensures
        digits_value(decimal(n)) == Some(n),
        decimal(n).len() > 0,
        n <= usize::MAX ==> index_value(decimal(n)) == Some(n),
        n > usize::MAX ==> index_value(decimal(n)) is None,
    decreases n,
{
    let s = decimal(n);
    if n < 10 {
        assert(s.drop_last() =~= Seq::<char>::empty());
        assert(digits_value(s.drop_last()) == Some(0nat));
    } else {
        law_written_indices_are_read_back(n / 10);
        assert(s.drop_last() =~= decimal(n / 10));
    }
}

/// A tensor that names one of the layers is loaded with it. One that names a layer beyond them is
/// loaded behind the last, or on the base device where only layers count; so is one that names
/// none.
pub proof fn law_tensors_go_with_their_layer(layer: nat, num_layers: usize, text: Seq<char>)
    ensures
        layer < num_layers ==> clamped_place(Some(Some(decimal(layer))), num_layers)
            == DeviceForLoadTensor::Idx(layer as usize) && bounded_place(
            Some(Some(decimal(layer))),
            num_layers,
        ) == DeviceForLoadTensor::Idx(layer as usize),
        num_layers <= layer <= usize::MAX ==> clamped_place(
            Some(Some(decimal(layer))),
            num_layers,
        ) == DeviceForLoadTensor::Idx(num_layers) && bounded_place(
            Some(Some(decimal(layer))),
            num_layers,
        ) == DeviceForLoadTensor::Base,
        digits_value(text) is None || text.len() == 0 ==> clamped_place(
            Some(Some(text)),
            num_layers,
        ) == DeviceForLoadTensor::Base && bounded_place(Some(Some(text)), num_layers)
            == DeviceForLoadTensor::Base,
        clamped_place(Some(None), num_layers) == DeviceForLoadTensor::Base,
        bounded_place(None, num_layers) == DeviceForLoadTensor::Base,
{
    law_written_indices_are_read_back(layer);
}

/// The marks of two lists of images in a row are those of one list in the other's front; each
/// mark holds the number of its image, counted from one.
pub proof fn law_marks_are_numbered(open: Seq<char>, a: Seq<usize>, b: Seq<usize>, n: usize)
    ensures
        numbered_marks(open, a + b) == numbered_marks(open, a) + numbered_marks(open, b),
        n < usize::MAX ==> numbered_marks(open, seq![n]) == open + decimal((n + 1) as nat) + "|>"@,
    decreases b.len(),
{
    assert(seq![n].drop_last() =~= Seq::<usize>::empty());
    assert(numbered_marks(open, seq![n].drop_last()) =~= Seq::<char>::empty());
    assert(numbered_marks(open, seq![n]) =~= open + decimal((n + 1) as nat) + "|>"@);
    if b.len() == 0 {
        assert(a + b =~= a);
        assert(numbered_marks(open, a) + numbered_marks(open, b) =~= numbered_marks(open, a));
    } else {
        law_marks_are_numbered(open, a, b.drop_last(), n);
        assert((a + b).drop_last() =~= a + b.drop_last());
        assert(numbered_marks(open, a + b) =~= numbered_marks(open, a) + numbered_marks(open, b));
    }
}

/// What the loading metadata says of rotary embeddings is what counts, then the configuration, then
/// the habit of the model.
pub proof fn law_loaded_pairings_come_first(
    loaded: Option<RopePairing>,
    configured: Option<RopePairing>,
    other: Option<RopePairing>,
    habit: bool,
    r: bool,
    q: bool,
)
    requires
        call_ensures(is_gptx_for, (loaded, configured, habit), r),
        call_ensures(is_gptx_for, (loaded, other, !habit), q),
    ensures
        loaded is Some ==> r == q && (r <==> loaded == Some(RopePairing::HalfSplit)),
        loaded is None && configured is Some && configured == other ==> r == q && (r <==> configured
            == Some(RopePairing::HalfSplit)),
        loaded is None && configured is None && other is None ==> r != q && r == habit,
{
}

/// Only attention in both directions everywhere rules out a cache that grows by tokens.
pub proof fn law_caches_grow_unless_all_is_seen(s: String, none: bool, some: bool)
    requires
        call_ensures(incremental_cache, (None::<String>,), none),
        call_ensures(incremental_cache, (Some(s),), some),
    ensures
        none,
        some <==> s@ != "all"@,
{
}

/// A changed configuration is answered as it is; a missing table and a document that cannot be read
/// are refused for what they are.
pub proof fn law_changed_configurations_are_answered(
    changed: Result<Option<String>, String>,
    r: Result<String, LoaderError>,
)
    requires
        call_ensures(limited_config, (changed,), r),
    ensures
        r is Ok <==> (changed matches Ok(Some(_))),
        changed matches Ok(Some(s)) ==> (r matches Ok(t) && t@ == s@),
        changed matches Ok(None) ==> r == Err::<String, LoaderError>(
            LoaderError::MissingTextConfig,
        ),
        changed matches Err(e) ==> (r matches Err(LoaderError::Config(m)) && m@ == e@),
{
}

/// A loader that cannot limit the length of its model refuses a limit, and keeps the configuration
/// without one.
pub proof fn law_limits_are_refused_as_asked(
    config: &str,
    n: usize,
    limited: Result<&str, LoaderError>,
    free: Result<&str, LoaderError>,
)
    requires
        call_ensures(runtime_config, (config, Some(n)), limited),
        call_ensures(runtime_config, (config, None::<usize>), free),
    ensures
        limited == Err::<&str, LoaderError>(LoaderError::MaxModelLen(n)),
        free == Ok::<&str, LoaderError>(config),
{
}

/// Just the layers with full attention keep keys and values in the paged cache.
pub proof fn law_full_attention_is_paged(
    loader: Qwen3_5MoeLoader,
    layers: Vec<LayerType>,
    r: Vec<bool>,
    i: int,
)
    requires
        call_ensures(Qwen3_5MoeLoader::paged_layers, (&loader, &layers), r),
        0 <= i < layers@.len(),
    ensures
        r@.len() == layers@.len(),
        r@[i] <==> layers@[i] == LayerType::FullAttention,
{
}

/// What is quantized of the experts alone is quantized of all tensors too.
pub proof fn law_granite_expert_patterns_are_among_all(loader: GraniteMoeHybridLoader, i: int)
    requires
        0 <= i < loader.isq_layer_regexes_moqe_texts().len(),
    ensures
        loader.isq_layer_regexes_texts().contains(loader.isq_layer_regexes_moqe_texts()[i]),
        loader.isq_layer_regexes_texts().len() == 9,
{
    let (all, some) = (loader.isq_layer_regexes_texts(), loader.isq_layer_regexes_moqe_texts());
    assert(all[8] == some[0]);
}

/// What is quantized of the experts alone is quantized of all tensors too.
pub proof fn law_lfm2_expert_patterns_are_among_all(loader: Lfm2Loader, i: int)
    requires
        0 <= i < loader.isq_layer_regexes_moqe_texts().len(),
    ensures
        loader.isq_layer_regexes_texts().contains(loader.isq_layer_regexes_moqe_texts()[i]),
        loader.isq_layer_regexes_moqe_texts().len() == 4,
        loader.isq_layer_regexes_texts().len() == 14,
{
    let (all, some) = (loader.isq_layer_regexes_texts(), loader.isq_layer_regexes_moqe_texts());
    assert(all[10] == some[0] && all[11] == some[1] && all[12] == some[2] && all[13] == some[3]);
}

/// What is quantized of the experts alone is quantized of all tensors too.
pub proof fn law_qwen3_next_expert_patterns_are_among_all(loader: Qwen3NextLoader, i: int)
    requires
        0 <= i < loader.isq_layer_regexes_moqe_texts().len(),
    ensures
        loader.isq_layer_regexes_texts().contains(loader.isq_layer_regexes_moqe_texts()[i]),
        loader.isq_layer_regexes_moqe_texts().len() == 2,
        loader.isq_layer_regexes_texts().len() == 10,
{
    let (all, some) = (loader.isq_layer_regexes_texts(), loader.isq_layer_regexes_moqe_texts());
    assert(all[7] == some[0] && all[8] == some[1]);
}

/// A size is that of the elements: twice as much in single precision as in half. A projection of an
/// unknown kind is refused by its name.
pub proof fn law_phi4_sizes_follow_the_type(
    loader: Phi4MMLoader,
    cfg: Phi4MMConfig,
    image: Option<Phi4ImageEmbed>,
    vision: SiglipConfig,
    packs: PackFactors,
    wide: Result<usize, LoaderError>,
    half: Result<usize, LoaderError>,
)
    requires
        call_ensures(
            Phi4MMLoader::non_mapped_size_in_bytes,
            (&loader, &cfg, &image, &vision, DType::F32, packs),
            wide,
        ),
        call_ensures(
            Phi4MMLoader::non_mapped_size_in_bytes,
            (&loader, &cfg, &image, &vision, DType::BF16, packs),
            half,
        ),
    ensures
        image is None ==> half is Ok && half->Ok_0 == 2 * phi4_text_elems(cfg, packs),
        half is Ok <==> wide is Ok,
        half is Ok ==> wide->Ok_0 == 2 * half->Ok_0,
        half matches Err(e) ==> (e matches LoaderError::ProjectionClass(name)
            && image->0.projection_cls is Some && name@ == image->0.projection_cls->0@),
{
    if let Some(n) = phi4_non_mapped_elems(cfg, image, vision, packs) {
        let (w, h) = (DType::F32.bytes() as int, DType::BF16.bytes() as int);
        assert(w == 4 && h == 2);
        assert(n * w == 4 * n && n * h == 2 * n) by (nonlinear_arith)
            requires
                w == 4,
                h == 2,
        ;
    }
}

/// What a model sees with is as wide in half precision as in single; the text is not.
pub proof fn law_diffusion_sizes_follow_the_type(
    loader: DiffusionGemmaLoader,
    cfg: DiffusionGemmaConfig,
    packs: PackFactors,
    wide: usize,
    half: usize,
    brain: usize,
)
    requires
        call_ensures(
            DiffusionGemmaLoader::non_mapped_size_in_bytes,
            (&loader, &cfg, DType::F32, packs),
            wide,
        ),
        call_ensures(
            DiffusionGemmaLoader::non_mapped_size_in_bytes,
            (&loader, &cfg, DType::F16, packs),
            half,
        ),
        call_ensures(
            DiffusionGemmaLoader::non_mapped_size_in_bytes,
            (&loader, &cfg, DType::BF16, packs),
            brain,
        ),
    ensures
        wide == 2 * brain,
        wide - half == 2 * diffusion_text_elems(cfg, packs),
        cfg.vision_config is None ==> half == brain,
        cfg.vision_config matches Some(v) ==> half - brain == 2 * diffusion_vision_elems(
            v,
            cfg.text_config.hidden_size as int,
        ),
{
    let (w, h, b) = (
        DType::F32.bytes() as int,
        DType::F16.bytes() as int,
        DType::BF16.bytes() as int,
    );
    assert(w == 4 && h == 2 && b == 2);
    let (t, v) = (diffusion_text_elems(cfg, packs), diffusion_vision_part(cfg));
    assert(t * w == 4 * t && t * h == 2 * t && t * b == 2 * t) by (nonlinear_arith)
        requires
            w == 4,
            h == 2,
            b == 2,
    ;
    assert(v * w == 4 * v && v * b == 2 * v) by (nonlinear_arith)
        requires
            w == 4,
            b == 2,
    ;
}

/// An image is scaled where a side is too long, and else it is taken as it is.
pub proof fn law_long_images_are_scaled(shape: (usize, usize), scaled: (usize, usize))
    ensures
        shape.0 <= 1540 && shape.1 <= 1540 ==> mistral3_shape(shape, scaled) == shape,
        shape.0 > 1540 || shape.1 > 1540 ==> mistral3_shape(shape, scaled) == scaled,
{
}

/// The experts of a layer have three patterns each, and all of them name the layer; a layer without
/// experts has three.
pub proof fn law_deepseek3_blocks_have_three_patterns_each(
    cfg: DeepSeekV3Config,
    layer: int,
    n: nat,
)
    ensures
        expert_patterns(layer, n).len() == 3 * n,
        block_patterns(cfg, layer).len() == (if is_moe_layer(cfg, layer) {
            3 * cfg.n_routed_experts->0 + (if cfg.n_shared_experts is Some {
                3int
            } else {
                0
            })
        } else {
            3
        }),
    decreases n,
{
    if n > 0 {
        law_deepseek3_blocks_have_three_patterns_each(cfg, layer, (n - 1) as nat);
    }
    if is_moe_layer(cfg, layer) {
        lemma_expert_patterns(layer, cfg.n_routed_experts->0 as nat);
    }
}

proof fn lemma_expert_patterns(layer: int, n: nat)
    ensures
        expert_patterns(layer, n).len() == 3 * n,
    decreases n,
{
    if n > 0 {
        lemma_expert_patterns(layer, (n - 1) as nat);
    }
}

} // verus!
