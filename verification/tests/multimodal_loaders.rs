use inference::loaders::{
    AutoDeviceMapParams, KvCacheLayout, LoaderError, ModelConfigMetadata, NonMappedSubModel,
    PackFactors, PackLookup, SupportedModality,
};
use inference::loaders::multimodal::{
    ClipConfig, SiglipConfig, get_clip_vit_num_elems,
};
use inference::loaders::multimodal::diffusion_gemma::{
    BidirectionalAttention, DiffusionGemmaConfig, DiffusionGemmaLoader, DiffusionTextConfig,
    DiffusionVisionConfig,
};
use inference::loaders::multimodal::lfm2vl::{
    Lfm2VlConfig, Lfm2VlLoader, Lfm2VlPrefixer, Lfm2VlTextConfig, Lfm2VlVisionConfig,
    max_crops_per_image, max_image_seq_len, max_num_patches,
};
use inference::loaders::multimodal::minicpm_o::{
    MiniCpmOConfig, MiniCpmOLoader, MiniCpmOPrefixer, MiniCpmOTextConfig,
};
use inference::loaders::multimodal::mistral3::{
    Mistral3Config, Mistral3Loader, Mistral3Prefixer, Mistral3TextConfig, Mistral3VisionConfig,
    limited_shape, mistral3_image_tokens,
};
use inference::loaders::multimodal::muse_glimmer::{
    MuseGlimmerConfig, MuseGlimmerLoader, MuseGlimmerPrefixer, MuseGlimmerTextConfig,
    MuseGlimmerVisionConfig,
};
use inference::loaders::multimodal::phi4mm::{
    Phi4ImageEmbed, Phi4MMConfig, Phi4MMLoader, Phi4MMPrefixer, Projection,
};
use inference::loaders::multimodal::qwen2vl::{
    Qwen2VLConfig, Qwen2VLLoader, Qwen2VLPrefixer, Qwen2VLVisionConfig,
};
use inference::loaders::multimodal::qwen3_5_moe::{
    Qwen3_5MoeConfig, Qwen3_5MoeLoader, Qwen3_5MoePrefixer, Qwen3_5MoeTextConfig,
};
use inference::loaders::multimodal::qwen3vl::{
    Qwen3VLConfig, Qwen3VLLoader, Qwen3VLPrefixer, Qwen3VLTextConfig, Qwen3VLVisionConfig,
};
use inference::loaders::multimodal::vllama::{
    MLlamaConfig, MLlamaTextConfig, MLlamaVisionConfig, VLlamaLoader, VLlamaPrefixer,
    vllama_image_tokens,
};
use inference::loaders::multimodal::vllama4::{
    Llama4Config, Llama4TextConfig, Llama4VisionConfig, ProcessedPixels, VLlama4Loader,
    VLlama4Prefixer,
};
use inference::loaders::multimodal::voxtral::{
    VoxtralConfig, VoxtralEncoderConfig, VoxtralLoader, VoxtralPrefixer,
};
use inference::loaders::normal::lfm2::Lfm2LayerType;
use inference::loaders::normal::qwen3_next::LayerType;
use inference::loaders::patterns::compile_patterns;
use inference::tensor::DType;

fn diffusion_gemma_config() -> DiffusionGemmaConfig {
    DiffusionGemmaConfig {
        text_config: DiffusionTextConfig {
            hidden_size: 10,
            vocab_size: 13,
            num_hidden_layers: 2,
            num_attention_heads: 3,
            num_key_value_heads: 4,
            intermediate_size: 9,
            max_position_embeddings: 99,
            head_dim: 5,
            global_head_dim: 8,
            num_global_key_value_heads: Some(2),
            attention_k_eq_v: true,
            enable_moe_block: true,
            num_experts: Some(3),
            expert_intermediate_size: Some(6),
            sliding_window: 17,
            tie_word_embeddings: true,
            bidirectional_attention: BidirectionalAttention::Vision,
        },
        vision_config: Some(DiffusionVisionConfig {
            hidden_size: 6,
            intermediate_size: 7,
            num_hidden_layers: 2,
            num_attention_heads: 3,
            num_key_value_heads: 2,
            head_dim: 5,
            patch_size: 4,
            position_embedding_size: 11,
            pooling_kernel_size: 2,
            default_output_length: 3,
        }),
        vision_soft_tokens_per_image: None,
        canvas_length: 5,
    }
}

#[test]
fn diffusion_gemma_activations() {
    let cfg = diffusion_gemma_config();
    let params = AutoDeviceMapParams::Multimodal {
        max_seq_len: 9,
        max_batch_size: 2,
        max_image_shape: (58, 86),
        max_num_images: 3,
    };
    let other = AutoDeviceMapParams::Text { max_seq_len: 9, max_batch_size: 2 };
    let mapped = DiffusionGemmaLoader.mapped_max_act_size_elems(&cfg, &params);
    assert!(matches!(mapped, Ok(4324806)));
    let mapped = DiffusionGemmaLoader.mapped_max_act_size_elems(&cfg, &other);
    assert!(matches!(mapped, Err(LoaderError::ExpectedMultimodal)));
    let other_act = DiffusionGemmaLoader.non_mapped_max_act_size_elems(&cfg, &params);
    assert!(matches!(other_act, Ok(2592)));
    let other_act = DiffusionGemmaLoader.non_mapped_max_act_size_elems(&cfg, &other);
    assert!(matches!(other_act, Err(LoaderError::ExpectedMultimodal)));
}

#[test]
fn diffusion_gemma_sizes() {
    let cfg = diffusion_gemma_config();
    let packs = PackFactors { embed_tokens: 2, lm_head: 3, weight: 4 };
    assert_eq!(DiffusionGemmaLoader.non_mapped_size_in_bytes(&cfg, DType::F16, packs), 6200);
    let kinds = vec!["sliding_attention".to_string(), "full_attention".to_string()];
    let layers = DiffusionGemmaLoader.layer_sizes_in_bytes(&cfg, &kinds, DType::F16, 4);
    assert_eq!(layers, vec![817, 790]);
}

#[test]
fn diffusion_gemma_model_config() {
    let cfg = diffusion_gemma_config();
    assert_eq!(DiffusionGemmaLoader.num_layers(&cfg), 2);
    assert_eq!(
        DiffusionGemmaLoader.model_config(&cfg),
        ModelConfigMetadata {
            max_seq_len: 99,
            num_layers: 2,
            hidden_size: 10,
            num_kv_heads: 4,
            num_attn_heads: 3,
            sliding_window: Some(17),
            k_head_dim: 8,
            v_head_dim: 8,
            kv_cache_layout: KvCacheLayout::Standard,
        }
    );
    assert!(DiffusionGemmaLoader.is_gptx());
    let kinds = DiffusionGemmaLoader.modalities(&cfg);
    assert_eq!(kinds.input, vec![SupportedModality::Text, SupportedModality::Vision]);
    assert_eq!(DiffusionGemmaLoader.non_mapped_sub_models(), Some(vec![NonMappedSubModel::Vision]));
}

#[test]
fn diffusion_gemma_without_vision() {
    let mut cfg = diffusion_gemma_config();
    cfg.vision_config = None;
    cfg.text_config.tie_word_embeddings = false;
    let params = AutoDeviceMapParams::Multimodal {
        max_seq_len: 9,
        max_batch_size: 2,
        max_image_shape: (58, 86),
        max_num_images: 3,
    };
    let mapped = DiffusionGemmaLoader.mapped_max_act_size_elems(&cfg, &params);
    assert!(matches!(mapped, Ok(486)));
    let other_act = DiffusionGemmaLoader.non_mapped_max_act_size_elems(&cfg, &params);
    assert!(matches!(other_act, Ok(260)));
    let packs = PackFactors { embed_tokens: 2, lm_head: 3, weight: 4 };
    assert_eq!(DiffusionGemmaLoader.non_mapped_size_in_bytes(&cfg, DType::BF16, packs), 796);
    assert_eq!(DiffusionGemmaLoader.modalities(&cfg).input, vec![SupportedModality::Text]);
    let text = |mode: &str| format!(
        "{{\"text_config\":{{\"use_bidirectional_attention\":\"{mode}\"}}}}",
    );
    assert!(DiffusionGemmaLoader.supports_paged_attention(&text("vision")));
    assert!(!DiffusionGemmaLoader.supports_paged_attention(&text("all")));
    assert!(DiffusionGemmaLoader.supports_prefix_cacher(&text("vision")));
    assert!(!DiffusionGemmaLoader.supports_prefix_cacher(&text("all")));
}

#[test]
fn diffusion_gemma_patterns() {
    let patterns = DiffusionGemmaLoader.promoted_isq_predicates();
    assert_eq!(
        patterns,
        vec![
            r"^model\.decoder\.embed_tokens\.weight$",
            r"^model\.decoder\.lm_head\.(weight|bias)$",
        ]
    );
    assert!(compile_patterns(&patterns).is_ok());
    let patterns = DiffusionGemmaLoader.isq_layer_regexes();
    assert_eq!(
        patterns,
        vec![
            r"lm_head\.(weight|bias)$",
            r"layers\.(\d+)\.self_attn\.q_proj\.(weight|bias)$",
            r"layers\.(\d+)\.self_attn\.k_proj\.(weight|bias)$",
            r"layers\.(\d+)\.self_attn\.v_proj\.(weight|bias)$",
            r"layers\.(\d+)\.self_attn\.o_proj\.(weight|bias)$",
            r"layers\.(\d+)\.mlp\.gate_proj\.(weight|bias)$",
            r"layers\.(\d+)\.mlp\.up_proj\.(weight|bias)$",
            r"layers\.(\d+)\.mlp\.down_proj\.(weight|bias)$",
            r"layers\.(\d+)\.moe\.gate_up_proj\.weight$",
            r"layers\.(\d+)\.moe\.down_proj\.weight$",
            r"layers\.(\d+)\.experts\.gate_up_proj\.weight$",
            r"layers\.(\d+)\.experts\.down_proj\.weight$",
        ]
    );
    assert!(compile_patterns(&patterns).is_ok());
    let patterns = DiffusionGemmaLoader.immediate_isq_predicates();
    assert_eq!(
        patterns,
        vec![
            r"lm_head\.(weight|bias)$",
            r"model\.decoder\.layers\.(\d+)\.self_attn\.q_proj\.(weight|bias)$",
            r"model\.decoder\.layers\.(\d+)\.self_attn\.k_proj\.(weight|bias)$",
            r"model\.decoder\.layers\.(\d+)\.self_attn\.v_proj\.(weight|bias)$",
            r"model\.decoder\.layers\.(\d+)\.self_attn\.o_proj\.(weight|bias)$",
            r"model\.decoder\.layers\.(\d+)\.mlp\.gate_proj\.(weight|bias)$",
            r"model\.decoder\.layers\.(\d+)\.mlp\.up_proj\.(weight|bias)$",
            r"model\.decoder\.layers\.(\d+)\.mlp\.down_proj\.(weight|bias)$",
            r"model\.decoder\.layers\.(\d+)\.moe\.gate_up_proj\.weight$",
            r"model\.decoder\.layers\.(\d+)\.moe\.down_proj\.weight$",
            r"model\.decoder\.layers\.(\d+)\.experts\.gate_up_proj\.weight$",
            r"model\.decoder\.layers\.(\d+)\.experts\.down_proj\.weight$",
        ]
    );
    assert!(compile_patterns(&patterns).is_ok());
}

fn lfm2vl_config() -> Lfm2VlConfig {
    Lfm2VlConfig {
        text_config: Lfm2VlTextConfig {
            hidden_size: 10,
            vocab_size: 13,
            num_hidden_layers: 2,
            num_attention_heads: 3,
            num_key_value_heads: 2,
            head_dim: 5,
            intermediate_size: 7,
            max_position_embeddings: 99,
            conv_l_cache: 3,
            conv_bias: false,
            tie_word_embeddings: false,
        },
        vision_config: Lfm2VlVisionConfig {
            hidden_size: 6,
            intermediate_size: 7,
            num_hidden_layers: 2,
            num_attention_heads: 3,
            num_channels: 3,
            patch_size: 4,
            num_patches: 11,
        },
        tile_size: 20,
        encoder_patch_size: 4,
        downsample_factor: 2,
        max_tiles: 3,
        max_image_tokens: 5,
        do_image_splitting: true,
        use_thumbnail: true,
        projector_hidden_size: 8,
        projector_bias: true,
        projector_use_layernorm: true,
    }
}

#[test]
fn lfm2vl_activations() {
    let cfg = lfm2vl_config();
    let params = AutoDeviceMapParams::Multimodal {
        max_seq_len: 9,
        max_batch_size: 2,
        max_image_shape: (58, 86),
        max_num_images: 3,
    };
    let other = AutoDeviceMapParams::Text { max_seq_len: 9, max_batch_size: 2 };
    let mapped = Lfm2VlLoader.mapped_max_act_size_elems(&cfg, &params, 5);
    assert!(matches!(mapped, Ok(61206)));
    let mapped = Lfm2VlLoader.mapped_max_act_size_elems(&cfg, &other, 5);
    assert!(matches!(mapped, Err(LoaderError::ExpectedMultimodal)));
    let other_act = Lfm2VlLoader.non_mapped_max_act_size_elems(&cfg, &params);
    assert!(matches!(other_act, Ok(45000)));
    let other_act = Lfm2VlLoader.non_mapped_max_act_size_elems(&cfg, &other);
    assert!(matches!(other_act, Err(LoaderError::ExpectedMultimodal)));
}

#[test]
fn lfm2vl_sizes() {
    let cfg = lfm2vl_config();
    let packs = PackFactors { embed_tokens: 2, lm_head: 3, weight: 4 };
    assert_eq!(Lfm2VlLoader.non_mapped_size_in_bytes(&cfg, DType::F16, packs), 2404);
    let kinds = vec![Lfm2LayerType::Attention, Lfm2LayerType::Conv];
    let layers = Lfm2VlLoader.layer_sizes_in_bytes(&cfg, &kinds, DType::F16, 4);
    assert_eq!(layers, vec![414, 404]);
}

#[test]
fn lfm2vl_model_config() {
    let cfg = lfm2vl_config();
    assert_eq!(Lfm2VlLoader.num_layers(&cfg), 2);
    assert_eq!(
        Lfm2VlLoader.model_config(&cfg),
        ModelConfigMetadata {
            max_seq_len: 99,
            num_layers: 2,
            hidden_size: 10,
            num_kv_heads: 2,
            num_attn_heads: 3,
            sliding_window: None,
            k_head_dim: 5,
            v_head_dim: 5,
            kv_cache_layout: KvCacheLayout::Standard,
        }
    );
    assert_eq!(Lfm2VlLoader.is_gptx(), true);
    assert_eq!(Lfm2VlLoader.supports_paged_attention(), true);
    assert_eq!(Lfm2VlLoader.supports_encoder_cache(), false);
    assert_eq!(Lfm2VlLoader.supports_prefix_cacher(), true);
    let kinds = Lfm2VlLoader.modalities();
    assert_eq!(kinds.input, vec![SupportedModality::Text, SupportedModality::Vision]);
    assert_eq!(kinds.output, vec![SupportedModality::Text]);
    assert_eq!(Lfm2VlLoader.non_mapped_sub_models(), Some(vec![NonMappedSubModel::Vision]));
}

#[test]
fn lfm2vl_image_limits() {
    let mut cfg = lfm2vl_config();
    assert_eq!(max_image_seq_len(&cfg), 32);
    assert_eq!(max_num_patches(&cfg), 25);
    assert_eq!(max_crops_per_image(&cfg), 4);
    cfg.use_thumbnail = false;
    assert_eq!(max_image_seq_len(&cfg), 27);
    assert_eq!(max_crops_per_image(&cfg), 3);
    cfg.do_image_splitting = false;
    assert_eq!(max_image_seq_len(&cfg), 5);
    assert_eq!(max_num_patches(&cfg), 20);
    assert_eq!(max_crops_per_image(&cfg), 1);
}

#[test]
fn lfm2vl_patterns() {
    let patterns = Lfm2VlLoader.promoted_isq_predicates();
    assert_eq!(
        patterns,
        vec![
            r"^model\.language_model\.embed_tokens\.weight$",
            r"^lm_head\.(weight|bias)$",
        ]
    );
    assert!(compile_patterns(&patterns).is_ok());
    let patterns = Lfm2VlLoader.isq_layer_regexes();
    assert_eq!(
        patterns,
        vec![
            r"lm_head\.(weight|bias)$",
            r"(model\.)?language_model\.layers\.(\d+)\.self_attn\.q_proj\.(weight|bias)$",
            r"(model\.)?language_model\.layers\.(\d+)\.self_attn\.k_proj\.(weight|bias)$",
            r"(model\.)?language_model\.layers\.(\d+)\.self_attn\.v_proj\.(weight|bias)$",
            r"(model\.)?language_model\.layers\.(\d+)\.self_attn\.out_proj\.(weight|bias)$",
            r"(model\.)?language_model\.layers\.(\d+)\.conv\.in_proj\.(weight|bias)$",
            r"(model\.)?language_model\.layers\.(\d+)\.conv\.out_proj\.(weight|bias)$",
            r"(model\.)?language_model\.layers\.(\d+)\.feed_forward\.w1\.(weight|bias)$",
            r"(model\.)?language_model\.layers\.(\d+)\.feed_forward\.w2\.(weight|bias)$",
            r"(model\.)?language_model\.layers\.(\d+)\.feed_forward\.w3\.(weight|bias)$",
            r"model\.multi_modal_projector\.linear_1\.(weight|bias)$",
            r"model\.multi_modal_projector\.linear_2\.(weight|bias)$",
        ]
    );
    assert!(compile_patterns(&patterns).is_ok());
    let patterns = Lfm2VlLoader.immediate_isq_predicates();
    assert_eq!(
        patterns,
        vec![
            r"lm_head\.(weight|bias)$",
            r"(model\.)?language_model\.layers\.(\d+)\.self_attn\.q_proj\.(weight|bias)$",
            r"(model\.)?language_model\.layers\.(\d+)\.self_attn\.k_proj\.(weight|bias)$",
            r"(model\.)?language_model\.layers\.(\d+)\.self_attn\.v_proj\.(weight|bias)$",
            r"(model\.)?language_model\.layers\.(\d+)\.self_attn\.out_proj\.(weight|bias)$",
            r"(model\.)?language_model\.layers\.(\d+)\.conv\.in_proj\.(weight|bias)$",
            r"(model\.)?language_model\.layers\.(\d+)\.conv\.out_proj\.(weight|bias)$",
            r"(model\.)?language_model\.layers\.(\d+)\.feed_forward\.w1\.(weight|bias)$",
            r"(model\.)?language_model\.layers\.(\d+)\.feed_forward\.w2\.(weight|bias)$",
            r"(model\.)?language_model\.layers\.(\d+)\.feed_forward\.w3\.(weight|bias)$",
            r"model\.multi_modal_projector\.linear_1\.(weight|bias)$",
            r"model\.multi_modal_projector\.linear_2\.(weight|bias)$",
        ]
    );
    assert!(compile_patterns(&patterns).is_ok());
}

fn minicpm_o_config() -> MiniCpmOConfig {
    MiniCpmOConfig {
        text_config: MiniCpmOTextConfig {
            hidden_size: 10,
            vocab_size: 13,
            num_hidden_layers: 2,
            num_attention_heads: 3,
            num_key_value_heads: 2,
            intermediate_size: 7,
            max_position_embeddings: 99,
            tie_word_embeddings: true,
        },
        vision_config: SiglipConfig {
            hidden_size: 6,
            intermediate_size: 7,
            num_hidden_layers: 2,
            num_attention_heads: 3,
            num_channels: 3,
            image_size: 21,
            patch_size: 4,
        },
    }
}

#[test]
fn minicpm_o_activations() {
    let cfg = minicpm_o_config();
    let params = AutoDeviceMapParams::Multimodal {
        max_seq_len: 9,
        max_batch_size: 2,
        max_image_shape: (58, 86),
        max_num_images: 3,
    };
    let other = AutoDeviceMapParams::Text { max_seq_len: 9, max_batch_size: 2 };
    let mapped = MiniCpmOLoader.mapped_max_act_size_elems(&cfg, &params, 5);
    assert!(matches!(mapped, Ok(41334)));
    let mapped = MiniCpmOLoader.mapped_max_act_size_elems(&cfg, &other, 5);
    assert!(matches!(mapped, Err(LoaderError::ExpectedMultimodal)));
    let other_act = MiniCpmOLoader.non_mapped_max_act_size_elems(&cfg, &params);
    assert!(matches!(other_act, Ok(60840)));
    let other_act = MiniCpmOLoader.non_mapped_max_act_size_elems(&cfg, &other);
    assert!(matches!(other_act, Err(LoaderError::ExpectedMultimodal)));
}

#[test]
fn minicpm_o_sizes() {
    let cfg = minicpm_o_config();
    let packs = PackFactors { embed_tokens: 2, lm_head: 3, weight: 4 };
    assert_eq!(MiniCpmOLoader.non_mapped_size_in_bytes(&cfg, DType::F16, packs), 2194);
    let layers = MiniCpmOLoader.layer_sizes_in_bytes(&cfg, DType::F16, 4);
    assert_eq!(layers, vec![290, 290]);
}

#[test]
fn minicpm_o_model_config() {
    let cfg = minicpm_o_config();
    assert_eq!(MiniCpmOLoader.num_layers(&cfg), 2);
    assert_eq!(
        MiniCpmOLoader.model_config(&cfg),
        ModelConfigMetadata {
            max_seq_len: 99,
            num_layers: 2,
            hidden_size: 10,
            num_kv_heads: 2,
            num_attn_heads: 3,
            sliding_window: None,
            k_head_dim: 3,
            v_head_dim: 3,
            kv_cache_layout: KvCacheLayout::Standard,
        }
    );
    assert_eq!(MiniCpmOLoader.is_gptx(), true);
    assert_eq!(MiniCpmOLoader.supports_paged_attention(), true);
    assert_eq!(MiniCpmOLoader.supports_encoder_cache(), true);
    assert_eq!(MiniCpmOLoader.supports_prefix_cacher(), false);
    let kinds = MiniCpmOLoader.modalities();
    assert_eq!(kinds.input, vec![SupportedModality::Text, SupportedModality::Vision]);
    assert_eq!(kinds.output, vec![SupportedModality::Text]);
}

#[test]
fn minicpm_o_patterns() {
    let patterns = MiniCpmOLoader.promoted_isq_predicates();
    assert_eq!(
        patterns,
        vec![
            r"^llm\.model\.embed_tokens\.weight$",
            r"^llm\.lm_head\.(weight|bias)$",
        ]
    );
    assert!(compile_patterns(&patterns).is_ok());
    let patterns = MiniCpmOLoader.isq_layer_regexes();
    assert_eq!(
        patterns,
        vec![
            r"llm.lm_head\.(weight|bias)$",
            r"llm.layers\.(\d+)\.self_attn\.q_proj\.(weight|bias)$",
            r"llm.layers\.(\d+)\.self_attn\.k_proj\.(weight|bias)$",
            r"llm.layers\.(\d+)\.self_attn\.v_proj\.(weight|bias)$",
            r"llm.layers\.(\d+)\.self_attn\.o_proj\.(weight|bias)$",
            r"llm.layers\.(\d+)\.mlp\.gate_proj\.(weight|bias)$",
            r"llm.layers\.(\d+)\.mlp\.up_proj\.(weight|bias)$",
            r"llm.layers\.(\d+)\.mlp\.down_proj\.(weight|bias)$",
        ]
    );
    assert!(compile_patterns(&patterns).is_ok());
    let patterns = MiniCpmOLoader.immediate_isq_predicates();
    assert_eq!(
        patterns,
        vec![
            r"llm.lm_head\.(weight|bias)$",
            r"llm.layers\.(\d+)\.self_attn\.q_proj\.(weight|bias)$",
            r"llm.layers\.(\d+)\.self_attn\.k_proj\.(weight|bias)$",
            r"llm.layers\.(\d+)\.self_attn\.v_proj\.(weight|bias)$",
            r"llm.layers\.(\d+)\.self_attn\.o_proj\.(weight|bias)$",
            r"llm.layers\.(\d+)\.mlp\.gate_proj\.(weight|bias)$",
            r"llm.layers\.(\d+)\.mlp\.up_proj\.(weight|bias)$",
            r"llm.layers\.(\d+)\.mlp\.down_proj\.(weight|bias)$",
        ]
    );
    assert!(compile_patterns(&patterns).is_ok());
}

fn mistral3_config() -> Mistral3Config {
    Mistral3Config {
        text_config: Mistral3TextConfig {
            hidden_size: 10,
            vocab_size: 13,
            num_hidden_layers: 2,
            num_attention_heads: 3,
            num_key_value_heads: 2,
            intermediate_size: 7,
            max_position_embeddings: 99,
            head_dim: 5,
            tie_word_embeddings: false,
            sliding_window: Some(17),
        },
        vision_config: Mistral3VisionConfig {
            hidden_size: 6,
            intermediate_size: 7,
            num_hidden_layers: 2,
            num_attention_heads: 3,
            num_channels: 3,
            patch_size: 4,
        },
    }
}

#[test]
fn mistral3_activations() {
    let cfg = mistral3_config();
    let params = AutoDeviceMapParams::Multimodal {
        max_seq_len: 9,
        max_batch_size: 2,
        max_image_shape: (58, 86),
        max_num_images: 3,
    };
    let other = AutoDeviceMapParams::Text { max_seq_len: 9, max_batch_size: 2 };
    let mapped = Mistral3Loader.mapped_max_act_size_elems(&cfg, (1, 1), &params, 5);
    assert!(matches!(mapped, Ok(6489600)));
    let mapped = Mistral3Loader.mapped_max_act_size_elems(&cfg, (1, 1), &other, 5);
    assert!(matches!(mapped, Err(LoaderError::ExpectedMultimodal)));
    let other_act = Mistral3Loader.non_mapped_max_act_size_elems(&cfg, (1, 1), &params);
    assert!(matches!(other_act, Ok(2142450)));
    let other_act = Mistral3Loader.non_mapped_max_act_size_elems(&cfg, (1, 1), &other);
    assert!(matches!(other_act, Err(LoaderError::ExpectedMultimodal)));
}

#[test]
fn mistral3_sizes() {
    let cfg = mistral3_config();
    let packs = PackFactors { embed_tokens: 2, lm_head: 3, weight: 4 };
    assert_eq!(Mistral3Loader.non_mapped_size_in_bytes(&cfg, DType::F16, packs), 3680);
    let layers = Mistral3Loader.layer_sizes_in_bytes(&cfg, DType::F16, 4);
    assert_eq!(layers, vec![290, 290]);
}

#[test]
fn mistral3_model_config() {
    let cfg = mistral3_config();
    assert_eq!(Mistral3Loader.num_layers(&cfg), 2);
    assert_eq!(
        Mistral3Loader.model_config(&cfg),
        ModelConfigMetadata {
            max_seq_len: 99,
            num_layers: 2,
            hidden_size: 10,
            num_kv_heads: 2,
            num_attn_heads: 3,
            sliding_window: Some(17),
            k_head_dim: 5,
            v_head_dim: 5,
            kv_cache_layout: KvCacheLayout::Standard,
        }
    );
    assert_eq!(Mistral3Loader.is_gptx(), true);
    assert_eq!(Mistral3Loader.supports_paged_attention(), true);
    assert_eq!(Mistral3Loader.supports_encoder_cache(), true);
    assert_eq!(Mistral3Loader.supports_prefix_cacher(), true);
    let kinds = Mistral3Loader.modalities();
    assert_eq!(kinds.input, vec![SupportedModality::Text, SupportedModality::Vision]);
    assert_eq!(kinds.output, vec![SupportedModality::Text]);
    assert_eq!(Mistral3Loader.non_mapped_sub_models(), Some(vec![NonMappedSubModel::Vision]));
}

#[test]
fn mistral3_scales_long_images_down() {
    let cfg = mistral3_config();
    assert_eq!(limited_shape((1540, 1540), (7, 8)), (1540, 1540));
    assert_eq!(limited_shape((1541, 1540), (7, 8)), (7, 8));
    assert_eq!(limited_shape((3, 1541), (7, 8)), (7, 8));
    assert_eq!(mistral3_image_tokens(58, 86, 4), 345);
    let params = AutoDeviceMapParams::Multimodal {
        max_seq_len: 9,
        max_batch_size: 2,
        max_image_shape: (3080, 1540),
        max_num_images: 1,
    };
    let mapped = Mistral3Loader.mapped_max_act_size_elems(&cfg, (1540, 770), &params, 5);
    assert!(matches!(mapped, Ok(33476058150)));
    let other_act = Mistral3Loader.non_mapped_max_act_size_elems(&cfg, (1540, 770), &params);
    assert!(matches!(other_act, Ok(33471576600)));
}

#[test]
fn mistral3_patterns() {
    let patterns = Mistral3Loader.promoted_isq_predicates();
    assert_eq!(
        patterns,
        vec![
            r"^language_model\.model\.embed_tokens\.weight$",
            r"^language_model\.lm_head\.(weight|bias)$",
        ]
    );
    assert!(compile_patterns(&patterns).is_ok());
    let patterns = Mistral3Loader.isq_layer_regexes();
    assert_eq!(
        patterns,
        vec![
            r"lm_head\.(weight|bias)$",
            r"layers\.(\d+)\.self_attn\.q_proj\.(weight|bias)$",
            r"layers\.(\d+)\.self_attn\.k_proj\.(weight|bias)$",
            r"layers\.(\d+)\.self_attn\.v_proj\.(weight|bias)$",
            r"layers\.(\d+)\.self_attn\.o_proj\.(weight|bias)$",
            r"layers\.(\d+)\.mlp\.gate_proj\.(weight|bias)$",
            r"layers\.(\d+)\.mlp\.up_proj\.(weight|bias)$",
            r"layers\.(\d+)\.mlp\.down_proj\.(weight|bias)$",
        ]
    );
    assert!(compile_patterns(&patterns).is_ok());
    let patterns = Mistral3Loader.immediate_isq_predicates();
    assert_eq!(
        patterns,
        vec![
            r"lm_head\.(weight|bias)$",
            r"language_model\.model\.layers\.(\d+)\.self_attn\.q_proj\.(weight|bias)$",
            r"language_model\.model\.layers\.(\d+)\.self_attn\.k_proj\.(weight|bias)$",
            r"language_model\.model\.layers\.(\d+)\.self_attn\.v_proj\.(weight|bias)$",
            r"language_model\.model\.layers\.(\d+)\.self_attn\.o_proj\.(weight|bias)$",
            r"language_model\.model\.layers\.(\d+)\.mlp\.gate_proj\.(weight|bias)$",
            r"language_model\.model\.layers\.(\d+)\.mlp\.up_proj\.(weight|bias)$",
            r"language_model\.model\.layers\.(\d+)\.mlp\.down_proj\.(weight|bias)$",
        ]
    );
    assert!(compile_patterns(&patterns).is_ok());
}

fn muse_glimmer_config() -> MuseGlimmerConfig {
    MuseGlimmerConfig {
        text_config: MuseGlimmerTextConfig {
            hidden_size: 10,
            vocab_size: 13,
            num_hidden_layers: 2,
            num_attention_heads: 3,
            num_key_value_heads: 2,
            intermediate_size: 7,
            max_position_embeddings: 99,
            head_dim: 5,
            attention_bias: true,
            tie_word_embeddings: false,
        },
        vision_config: MuseGlimmerVisionConfig {
            hidden_size: 6,
            intermediate_size: 7,
            num_hidden_layers: 2,
            num_attention_heads: 3,
            patch_size: 4,
            patch_temporal: 2,
            merge_size: 2,
            pos_emb_height: 5,
            pos_emb_width: 8,
        },
        out_hidden_size: 11,
        projector_hidden_size: 9,
        gguf_collapsed_temporal: false,
    }
}

#[test]
fn muse_glimmer_activations() {
    let cfg = muse_glimmer_config();
    let params = AutoDeviceMapParams::Multimodal {
        max_seq_len: 9,
        max_batch_size: 2,
        max_image_shape: (58, 86),
        max_num_images: 3,
    };
    let other = AutoDeviceMapParams::Text { max_seq_len: 9, max_batch_size: 2 };
    let mapped = MuseGlimmerLoader.mapped_max_act_size_elems(&cfg, &params, 5);
    assert!(matches!(mapped, Ok(6570)));
    let mapped = MuseGlimmerLoader.mapped_max_act_size_elems(&cfg, &other, 5);
    assert!(matches!(mapped, Err(LoaderError::ExpectedMultimodal)));
    let other_act = MuseGlimmerLoader.non_mapped_max_act_size_elems(&cfg, &params);
    assert!(matches!(other_act, Ok(1555848)));
    let other_act = MuseGlimmerLoader.non_mapped_max_act_size_elems(&cfg, &other);
    assert!(matches!(other_act, Err(LoaderError::ExpectedMultimodal)));
}

#[test]
fn muse_glimmer_sizes() {
    let cfg = muse_glimmer_config();
    let packs = PackFactors { embed_tokens: 2, lm_head: 3, weight: 4 };
    assert_eq!(MuseGlimmerLoader.non_mapped_size_in_bytes(&cfg, DType::F16, packs), 3612);
    let layers = MuseGlimmerLoader.layer_sizes_in_bytes(&cfg, DType::F16, 4);
    assert_eq!(layers, vec![598, 598]);
}

#[test]
fn muse_glimmer_model_config() {
    let cfg = muse_glimmer_config();
    assert_eq!(MuseGlimmerLoader.num_layers(&cfg), 2);
    assert_eq!(
        MuseGlimmerLoader.model_config(&cfg),
        ModelConfigMetadata {
            max_seq_len: 99,
            num_layers: 2,
            hidden_size: 10,
            num_kv_heads: 2,
            num_attn_heads: 3,
            sliding_window: None,
            k_head_dim: 5,
            v_head_dim: 5,
            kv_cache_layout: KvCacheLayout::Standard,
        }
    );
    assert!(MuseGlimmerLoader.is_gptx());
    assert!(MuseGlimmerLoader.supports_paged_attention());
    assert!(MuseGlimmerLoader.supports_encoder_cache());
    assert!(MuseGlimmerLoader.supports_prefix_cacher());
    let kinds = MuseGlimmerLoader.modalities(&cfg);
    assert_eq!(
        kinds.input,
        vec![SupportedModality::Text, SupportedModality::Vision, SupportedModality::Video],
    );
    let still = MuseGlimmerConfig { gguf_collapsed_temporal: true, ..cfg };
    let kinds = MuseGlimmerLoader.modalities(&still);
    assert_eq!(kinds.input, vec![SupportedModality::Text, SupportedModality::Vision]);
    assert_eq!(MuseGlimmerLoader.non_mapped_sub_models(), Some(vec![NonMappedSubModel::Vision]));
}

#[test]
fn muse_glimmer_patterns() {
    let patterns = MuseGlimmerLoader.promoted_isq_predicates();
    assert_eq!(
        patterns,
        vec![
            r"^model\.language_model\.embed_tokens\.weight$",
            r"^lm_head\.(weight|bias)$",
        ]
    );
    assert!(compile_patterns(&patterns).is_ok());
    let patterns = MuseGlimmerLoader.isq_layer_regexes();
    assert_eq!(
        patterns,
        vec![
            r"^lm_head\.(weight|bias)$",
            r"^model\.language_model\.layers\.(\d+)\.self_attn\.(q_proj|k_proj|v_proj|o_proj|gate_proj)\.(weight|bias)$",
            r"^model\.language_model\.layers\.(\d+)\.mlp\.(gate_proj|up_proj|down_proj)\.(weight|bias)$",
        ]
    );
    assert!(compile_patterns(&patterns).is_ok());
    let patterns = MuseGlimmerLoader.immediate_isq_predicates();
    assert_eq!(
        patterns,
        vec![
            r"^lm_head\.(weight|bias)$",
            r"^model\.language_model\.layers\.(\d+)\.self_attn\.(q_proj|k_proj|v_proj|o_proj|gate_proj)\.(weight|bias)$",
            r"^model\.language_model\.layers\.(\d+)\.mlp\.(gate_proj|up_proj|down_proj)\.(weight|bias)$",
        ]
    );
    assert!(compile_patterns(&patterns).is_ok());
}

fn phi4mm_config() -> Phi4MMConfig {
    Phi4MMConfig {
        hidden_size: 10,
        vocab_size: 13,
        num_hidden_layers: 2,
        num_attention_heads: 3,
        num_key_value_heads: 2,
        head_dim: 5,
        intermediate_size: 7,
        max_position_embeddings: 99,
        tie_word_embeddings: false,
        sliding_window: None,
    }
}

#[test]
fn phi4mm_activations() {
    let cfg = phi4mm_config();
    let vision = siglip_config();
    let embed = Some(
        Phi4ImageEmbed {
            projection_cls: None,
            use_hd_transform: None,
            with_learnable_separator: None,
        },
    );
    assert!(embed.is_some());
    let params = AutoDeviceMapParams::Multimodal {
        max_seq_len: 9,
        max_batch_size: 2,
        max_image_shape: (58, 86),
        max_num_images: 3,
    };
    let other = AutoDeviceMapParams::Text { max_seq_len: 9, max_batch_size: 2 };
    let mapped = Phi4MMLoader.mapped_max_act_size_elems(&cfg, &vision, &params, 5);
    assert!(matches!(mapped, Ok(41334)));
    let mapped = Phi4MMLoader.mapped_max_act_size_elems(&cfg, &vision, &other, 5);
    assert!(matches!(mapped, Err(LoaderError::ExpectedMultimodal)));
    let other_act = Phi4MMLoader.non_mapped_max_act_size_elems(&vision, 20, &params);
    assert!(matches!(other_act, Ok(209664)));
    let other_act = Phi4MMLoader.non_mapped_max_act_size_elems(&vision, 20, &other);
    assert!(matches!(other_act, Err(LoaderError::ExpectedMultimodal)));
}

#[test]
fn phi4mm_sizes() {
    let cfg = phi4mm_config();
    let vision = siglip_config();
    let embed = Some(
        Phi4ImageEmbed {
            projection_cls: None,
            use_hd_transform: None,
            with_learnable_separator: None,
        },
    );
    assert!(embed.is_some());
    let packs = PackFactors { embed_tokens: 2, lm_head: 3, weight: 4 };
    let bytes = Phi4MMLoader.non_mapped_size_in_bytes(&cfg, &embed, &vision, DType::F16, packs);
    assert!(matches!(bytes, Ok(2420)));
    let layers = Phi4MMLoader.layer_sizes_in_bytes(&cfg, DType::F16, 4);
    assert_eq!(layers, vec![392, 392]);
}

#[test]
fn phi4mm_model_config() {
    let cfg = phi4mm_config();
    assert_eq!(Phi4MMLoader.num_layers(&cfg), 2);
    assert_eq!(
        Phi4MMLoader.model_config(&cfg),
        ModelConfigMetadata {
            max_seq_len: 99,
            num_layers: 2,
            hidden_size: 10,
            num_kv_heads: 2,
            num_attn_heads: 3,
            sliding_window: None,
            k_head_dim: 5,
            v_head_dim: 5,
            kv_cache_layout: KvCacheLayout::Standard,
        }
    );
    assert_eq!(Phi4MMLoader.is_gptx(), true);
    assert_eq!(Phi4MMLoader.supports_paged_attention(), true);
    assert_eq!(Phi4MMLoader.supports_encoder_cache(), true);
    assert_eq!(Phi4MMLoader.supports_prefix_cacher(), true);
    let kinds = Phi4MMLoader.modalities();
    assert_eq!(
        kinds.input,
        vec![SupportedModality::Text, SupportedModality::Vision, SupportedModality::Audio],
    );
    assert_eq!(kinds.output, vec![SupportedModality::Text]);
    assert_eq!(
        Phi4MMLoader.non_mapped_sub_models(),
        Some(vec![NonMappedSubModel::Vision, NonMappedSubModel::Audio]),
    );
}

fn siglip_config() -> SiglipConfig {
    SiglipConfig {
        hidden_size: 6,
        intermediate_size: 7,
        num_hidden_layers: 2,
        num_attention_heads: 3,
        num_channels: 3,
        image_size: 21,
        patch_size: 4,
    }
}

#[test]
fn phi4mm_projections() {
    let cfg = phi4mm_config();
    let vision = siglip_config();
    let packs = PackFactors { embed_tokens: 2, lm_head: 3, weight: 4 };
    let embed = |class: &str, hd: bool, separated: bool| {
        Some(Phi4ImageEmbed {
            projection_cls: Some(class.to_string()),
            use_hd_transform: Some(hd),
            with_learnable_separator: Some(separated),
        })
    };
    let bytes = |embed: &Option<Phi4ImageEmbed>| {
        Phi4MMLoader.non_mapped_size_in_bytes(&cfg, embed, &vision, DType::F16, packs)
    };
    assert!(matches!(bytes(&None), Ok(236)));
    assert!(matches!(bytes(&embed("linear", true, false)), Ok(2420)));
    assert!(matches!(bytes(&embed("mlp", true, false)), Ok(3000)));
    assert!(matches!(bytes(&embed("mlp", false, true)), Ok(2736)));
    match bytes(&embed("conv", false, false)) {
        Err(e) => assert_eq!(e.message(), "projection_cls=`conv` not implemented."),
        Ok(_) => panic!("an unknown projection was accepted"),
    }
    let read = embed("mlp", true, false).unwrap().read_projection();
    assert!(matches!(read, Ok(Projection::TiledMlp)));
}

#[test]
fn phi4mm_patterns() {
    let patterns = Phi4MMLoader.promoted_isq_predicates();
    assert_eq!(
        patterns,
        vec![
            r"^model\.embed_tokens\.weight$",
            r"^lm_head\.(weight|bias)$",
        ]
    );
    assert!(compile_patterns(&patterns).is_ok());
    let patterns = Phi4MMLoader.isq_layer_regexes();
    assert_eq!(
        patterns,
        vec![
            r"lm_head\.(weight|bias)$",
            r"layers\.(\d+)\.self_attn\.qkv_proj\.(weight|bias)$",
            r"layers\.(\d+)\.self_attn\.o_proj\.(weight|bias)$",
            r"layers\.(\d+)\.mlp\.gate_up_proj\.(weight|bias)$",
            r"layers\.(\d+)\.mlp\.down_proj\.(weight|bias)$",
        ]
    );
    assert!(compile_patterns(&patterns).is_ok());
    let patterns = Phi4MMLoader.immediate_isq_predicates();
    assert_eq!(
        patterns,
        vec![
            r"lm_head\.(weight|bias)$",
            r"layers\.(\d+)\.self_attn\.qkv_proj\.(weight|bias)$",
            r"layers\.(\d+)\.self_attn\.o_proj\.(weight|bias)$",
            r"layers\.(\d+)\.mlp\.gate_up_proj\.(weight|bias)$",
            r"layers\.(\d+)\.mlp\.down_proj\.(weight|bias)$",
        ]
    );
    assert!(compile_patterns(&patterns).is_ok());
}

fn qwen2vl_config() -> Qwen2VLConfig {
    Qwen2VLConfig {
        hidden_size: 10,
        vocab_size: 13,
        num_hidden_layers: 2,
        num_attention_heads: 3,
        num_key_value_heads: 2,
        intermediate_size: 7,
        max_position_embeddings: 99,
        tie_word_embeddings: true,
        sliding_window: Some(17),
        vision_config: Qwen2VLVisionConfig {
            embed_dim: 6,
            hidden_size: 10,
            depth: 2,
            num_heads: 3,
            in_channels: 3,
            patch_size: 4,
            temporal_patch_size: 2,
            spatial_merge_size: 2,
            mlp_hidden_dim: 15,
        },
    }
}

#[test]
fn qwen2vl_activations() {
    let cfg = qwen2vl_config();
    let params = AutoDeviceMapParams::Multimodal {
        max_seq_len: 9,
        max_batch_size: 2,
        max_image_shape: (58, 86),
        max_num_images: 3,
    };
    let other = AutoDeviceMapParams::Text { max_seq_len: 9, max_batch_size: 2 };
    let mapped = Qwen2VLLoader.mapped_max_act_size_elems(&cfg, &params, 5);
    assert!(matches!(mapped, Ok(277350)));
    let mapped = Qwen2VLLoader.mapped_max_act_size_elems(&cfg, &other, 5);
    assert!(matches!(mapped, Err(LoaderError::ExpectedMultimodal)));
    let other_act = Qwen2VLLoader.non_mapped_max_act_size_elems(&cfg, &params);
    assert!(matches!(other_act, Ok(1555848)));
    let other_act = Qwen2VLLoader.non_mapped_max_act_size_elems(&cfg, &other);
    assert!(matches!(other_act, Err(LoaderError::ExpectedMultimodal)));
}

#[test]
fn qwen2vl_sizes() {
    let cfg = qwen2vl_config();
    let packs = PackFactors { embed_tokens: 2, lm_head: 3, weight: 4 };
    assert_eq!(Qwen2VLLoader.non_mapped_size_in_bytes(&cfg, DType::F16, packs), 4598);
    let layers = Qwen2VLLoader.layer_sizes_in_bytes(&cfg, DType::F16, 4);
    assert_eq!(layers, vec![332, 332]);
}

#[test]
fn qwen2vl_model_config() {
    let cfg = qwen2vl_config();
    assert_eq!(Qwen2VLLoader.num_layers(&cfg), 2);
    assert_eq!(
        Qwen2VLLoader.model_config(&cfg),
        ModelConfigMetadata {
            max_seq_len: 99,
            num_layers: 2,
            hidden_size: 10,
            num_kv_heads: 2,
            num_attn_heads: 3,
            sliding_window: Some(17),
            k_head_dim: 3,
            v_head_dim: 3,
            kv_cache_layout: KvCacheLayout::Standard,
        }
    );
    assert_eq!(Qwen2VLLoader.is_gptx(), true);
    assert_eq!(Qwen2VLLoader.supports_paged_attention(), true);
    assert_eq!(Qwen2VLLoader.supports_encoder_cache(), true);
    assert_eq!(Qwen2VLLoader.supports_prefix_cacher(), false);
    let kinds = Qwen2VLLoader.modalities();
    assert_eq!(kinds.input, vec![SupportedModality::Text, SupportedModality::Vision]);
    assert_eq!(kinds.output, vec![SupportedModality::Text]);
    assert_eq!(Qwen2VLLoader.non_mapped_sub_models(), Some(vec![NonMappedSubModel::Vision]));
}

#[test]
fn qwen2vl_patterns() {
    let patterns = Qwen2VLLoader.promoted_isq_predicates();
    assert_eq!(
        patterns,
        vec![
            r"^(model|language_model\.model)\.embed_tokens\.weight$",
            r"^lm_head\.(weight|bias)$",
        ]
    );
    assert!(compile_patterns(&patterns).is_ok());
    let patterns = Qwen2VLLoader.isq_layer_regexes();
    assert_eq!(
        patterns,
        vec![
            r"lm_head\.(weight|bias)$",
            r"layers\.(\d+)\.self_attn\.q_proj\.(weight|bias)$",
            r"layers\.(\d+)\.self_attn\.k_proj\.(weight|bias)$",
            r"layers\.(\d+)\.self_attn\.v_proj\.(weight|bias)$",
            r"layers\.(\d+)\.self_attn\.o_proj\.(weight|bias)$",
            r"layers\.(\d+)\.mlp\.gate_proj\.(weight|bias)$",
            r"layers\.(\d+)\.mlp\.up_proj\.(weight|bias)$",
            r"layers\.(\d+)\.mlp\.down_proj\.(weight|bias)$",
        ]
    );
    assert!(compile_patterns(&patterns).is_ok());
    let patterns = Qwen2VLLoader.immediate_isq_predicates();
    assert_eq!(
        patterns,
        vec![
            r"lm_head\.(weight|bias)$",
            r"layers\.(\d+)\.self_attn\.q_proj\.(weight|bias)$",
            r"layers\.(\d+)\.self_attn\.k_proj\.(weight|bias)$",
            r"layers\.(\d+)\.self_attn\.v_proj\.(weight|bias)$",
            r"layers\.(\d+)\.self_attn\.o_proj\.(weight|bias)$",
            r"layers\.(\d+)\.mlp\.gate_proj\.(weight|bias)$",
            r"layers\.(\d+)\.mlp\.up_proj\.(weight|bias)$",
            r"layers\.(\d+)\.mlp\.down_proj\.(weight|bias)$",
        ]
    );
    assert!(compile_patterns(&patterns).is_ok());
}

fn qwen3vl_config() -> Qwen3VLConfig {
    Qwen3VLConfig {
        text_config: Qwen3VLTextConfig {
            hidden_size: 10,
            vocab_size: 13,
            num_hidden_layers: 2,
            num_attention_heads: 3,
            num_key_value_heads: 2,
            intermediate_size: 7,
            max_position_embeddings: 99,
            head_dim: 5,
            sliding_window: None,
        },
        vision_config: Qwen3VLVisionConfig {
            hidden_size: 6,
            out_hidden_size: 10,
            intermediate_size: 7,
            depth: 2,
            num_heads: 3,
            in_chans: 3,
            patch_size: 4,
            temporal_patch_size: 2,
            spatial_merge_size: 2,
            num_position_embeddings: 11,
            num_deepstack_mergers: 3,
        },
        tie_word_embeddings: false,
    }
}

#[test]
fn qwen3vl_activations() {
    let cfg = qwen3vl_config();
    let params = AutoDeviceMapParams::Multimodal {
        max_seq_len: 9,
        max_batch_size: 2,
        max_image_shape: (58, 86),
        max_num_images: 3,
    };
    let other = AutoDeviceMapParams::Text { max_seq_len: 9, max_batch_size: 2 };
    let mapped = Qwen3VLLoader.mapped_max_act_size_elems(&cfg, &params, 5);
    assert!(matches!(mapped, Ok(277350)));
    let mapped = Qwen3VLLoader.mapped_max_act_size_elems(&cfg, &other, 5);
    assert!(matches!(mapped, Err(LoaderError::ExpectedMultimodal)));
    let other_act = Qwen3VLLoader.non_mapped_max_act_size_elems(&cfg, &params);
    assert!(matches!(other_act, Ok(1555848)));
    let other_act = Qwen3VLLoader.non_mapped_max_act_size_elems(&cfg, &other);
    assert!(matches!(other_act, Err(LoaderError::ExpectedMultimodal)));
}

#[test]
fn qwen3vl_sizes() {
    let cfg = qwen3vl_config();
    let packs = PackFactors { embed_tokens: 2, lm_head: 3, weight: 4 };
    assert_eq!(Qwen3VLLoader.non_mapped_size_in_bytes(&cfg, DType::F16, packs), 9800);
    let layers = Qwen3VLLoader.layer_sizes_in_bytes(&cfg, DType::F16, 4);
    assert_eq!(layers, vec![410, 410]);
}

#[test]
fn qwen3vl_model_config() {
    let cfg = qwen3vl_config();
    assert_eq!(Qwen3VLLoader.num_layers(&cfg), 2);
    assert_eq!(
        Qwen3VLLoader.model_config(&cfg),
        ModelConfigMetadata {
            max_seq_len: 99,
            num_layers: 2,
            hidden_size: 10,
            num_kv_heads: 2,
            num_attn_heads: 3,
            sliding_window: None,
            k_head_dim: 5,
            v_head_dim: 5,
            kv_cache_layout: KvCacheLayout::Standard,
        }
    );
    assert_eq!(Qwen3VLLoader.is_gptx(), true);
    assert_eq!(Qwen3VLLoader.supports_paged_attention(), true);
    assert_eq!(Qwen3VLLoader.supports_encoder_cache(), true);
    assert_eq!(Qwen3VLLoader.supports_prefix_cacher(), true);
    let kinds = Qwen3VLLoader.modalities();
    assert_eq!(
        kinds.input,
        vec![SupportedModality::Text, SupportedModality::Vision, SupportedModality::Video],
    );
    assert_eq!(kinds.output, vec![SupportedModality::Text]);
    assert_eq!(Qwen3VLLoader.non_mapped_sub_models(), Some(vec![NonMappedSubModel::Vision]));
}

#[test]
fn qwen3vl_patterns() {
    let patterns = Qwen3VLLoader.promoted_isq_predicates();
    assert_eq!(
        patterns,
        vec![
            r"^(language_model\.model|model\.language_model)\.embed_tokens\.weight$",
            r"^lm_head\.(weight|bias)$",
        ]
    );
    assert!(compile_patterns(&patterns).is_ok());
    let patterns = Qwen3VLLoader.isq_layer_regexes();
    assert_eq!(
        patterns,
        vec![
            r"lm_head\.(weight|bias)$",
            r"^(language_model\.model|model\.language_model)\.layers\.(\d+)\.self_attn\.q_proj\.(weight|bias)$",
            r"^(language_model\.model|model\.language_model)\.layers\.(\d+)\.self_attn\.k_proj\.(weight|bias)$",
            r"^(language_model\.model|model\.language_model)\.layers\.(\d+)\.self_attn\.v_proj\.(weight|bias)$",
            r"^(language_model\.model|model\.language_model)\.layers\.(\d+)\.self_attn\.o_proj\.(weight|bias)$",
            r"^(language_model\.model|model\.language_model)\.layers\.(\d+)\.mlp\.gate_proj\.(weight|bias)$",
            r"^(language_model\.model|model\.language_model)\.layers\.(\d+)\.mlp\.up_proj\.(weight|bias)$",
            r"^(language_model\.model|model\.language_model)\.layers\.(\d+)\.mlp\.down_proj\.(weight|bias)$",
        ]
    );
    assert!(compile_patterns(&patterns).is_ok());
    let patterns = Qwen3VLLoader.immediate_isq_predicates();
    assert_eq!(
        patterns,
        vec![
            r"lm_head\.(weight|bias)$",
            r"^(language_model\.model|model\.language_model)\.layers\.(\d+)\.self_attn\.q_proj\.(weight|bias)$",
            r"^(language_model\.model|model\.language_model)\.layers\.(\d+)\.self_attn\.k_proj\.(weight|bias)$",
            r"^(language_model\.model|model\.language_model)\.layers\.(\d+)\.self_attn\.v_proj\.(weight|bias)$",
            r"^(language_model\.model|model\.language_model)\.layers\.(\d+)\.self_attn\.o_proj\.(weight|bias)$",
            r"^(language_model\.model|model\.language_model)\.layers\.(\d+)\.mlp\.gate_proj\.(weight|bias)$",
            r"^(language_model\.model|model\.language_model)\.layers\.(\d+)\.mlp\.up_proj\.(weight|bias)$",
            r"^(language_model\.model|model\.language_model)\.layers\.(\d+)\.mlp\.down_proj\.(weight|bias)$",
        ]
    );
    assert!(compile_patterns(&patterns).is_ok());
}

fn qwen3_5_moe_config() -> Qwen3_5MoeConfig {
    Qwen3_5MoeConfig {
        text_config: Qwen3_5MoeTextConfig {
            hidden_size: 10,
            vocab_size: 13,
            num_hidden_layers: 2,
            num_attention_heads: 3,
            num_key_value_heads: 2,
            head_dim: 5,
            max_position_embeddings: 99,
            num_experts: 6,
            moe_intermediate_size: 11,
            shared_expert_intermediate_size: 12,
            linear_value_dim: 8,
            linear_conv_dim: 20,
            linear_conv_kernel_dim: 4,
            linear_num_value_heads: 7,
            linear_value_head_dim: 9,
        },
        vision_config: Qwen3VLVisionConfig {
            hidden_size: 6,
            out_hidden_size: 10,
            intermediate_size: 7,
            depth: 2,
            num_heads: 3,
            in_chans: 3,
            patch_size: 4,
            temporal_patch_size: 2,
            spatial_merge_size: 2,
            num_position_embeddings: 11,
            num_deepstack_mergers: 3,
        },
        tie_word_embeddings: true,
    }
}

#[test]
fn qwen3_5_moe_activations() {
    let cfg = qwen3_5_moe_config();
    let params = AutoDeviceMapParams::Multimodal {
        max_seq_len: 9,
        max_batch_size: 2,
        max_image_shape: (58, 86),
        max_num_images: 3,
    };
    let other = AutoDeviceMapParams::Text { max_seq_len: 9, max_batch_size: 2 };
    let mapped = Qwen3_5MoeLoader.mapped_max_act_size_elems(&cfg, &params, 5);
    assert!(matches!(mapped, Ok(277350)));
    let mapped = Qwen3_5MoeLoader.mapped_max_act_size_elems(&cfg, &other, 5);
    assert!(matches!(mapped, Err(LoaderError::ExpectedMultimodal)));
    let other_act = Qwen3_5MoeLoader.non_mapped_max_act_size_elems(&cfg, &params);
    assert!(matches!(other_act, Ok(1555848)));
    let other_act = Qwen3_5MoeLoader.non_mapped_max_act_size_elems(&cfg, &other);
    assert!(matches!(other_act, Err(LoaderError::ExpectedMultimodal)));
}

#[test]
fn qwen3_5_moe_sizes() {
    let cfg = qwen3_5_moe_config();
    let packs = PackFactors { embed_tokens: 2, lm_head: 3, weight: 4 };
    assert_eq!(Qwen3_5MoeLoader.non_mapped_size_in_bytes(&cfg, DType::F16, packs), 9714);
    let kinds = vec![LayerType::FullAttention, LayerType::LinearAttention];
    assert_eq!(Qwen3_5MoeLoader.paged_layers(&kinds), vec![true, false]);
    let layers = Qwen3_5MoeLoader.layer_sizes_in_bytes(&cfg, &kinds, DType::F16, 4);
    assert_eq!(layers, vec![1676, 1788]);
}

#[test]
fn qwen3_5_moe_model_config() {
    let cfg = qwen3_5_moe_config();
    assert_eq!(Qwen3_5MoeLoader.num_layers(&cfg), 2);
    assert_eq!(
        Qwen3_5MoeLoader.model_config(&cfg),
        ModelConfigMetadata {
            max_seq_len: 99,
            num_layers: 2,
            hidden_size: 10,
            num_kv_heads: 2,
            num_attn_heads: 3,
            sliding_window: None,
            k_head_dim: 5,
            v_head_dim: 5,
            kv_cache_layout: KvCacheLayout::Standard,
        }
    );
    assert_eq!(Qwen3_5MoeLoader.is_gptx(), true);
    assert_eq!(Qwen3_5MoeLoader.supports_paged_attention(), true);
    assert_eq!(Qwen3_5MoeLoader.supports_encoder_cache(), true);
    assert_eq!(Qwen3_5MoeLoader.supports_prefix_cacher(), true);
    let kinds = Qwen3_5MoeLoader.modalities();
    assert_eq!(
        kinds.input,
        vec![SupportedModality::Text, SupportedModality::Vision, SupportedModality::Video],
    );
    assert_eq!(kinds.output, vec![SupportedModality::Text]);
    assert_eq!(Qwen3_5MoeLoader.non_mapped_sub_models(), Some(vec![NonMappedSubModel::Vision]));
}

#[test]
fn qwen3_5_moe_patterns() {
    let patterns = Qwen3_5MoeLoader.promoted_isq_predicates();
    assert_eq!(
        patterns,
        vec![
            r"^(language_model\.model|model\.language_model)\.embed_tokens\.weight$",
            r"^lm_head\.(weight|bias)$",
        ]
    );
    assert!(compile_patterns(&patterns).is_ok());
    let patterns = Qwen3_5MoeLoader.isq_layer_regexes();
    assert_eq!(
        patterns,
        vec![
            r"lm_head\.(weight|bias)$",
            r"^(language_model\.model|model\.language_model)\.layers\.(\d+)\.self_attn\.q_proj\.(weight|bias)$",
            r"^(language_model\.model|model\.language_model)\.layers\.(\d+)\.self_attn\.k_proj\.(weight|bias)$",
            r"^(language_model\.model|model\.language_model)\.layers\.(\d+)\.self_attn\.v_proj\.(weight|bias)$",
            r"^(language_model\.model|model\.language_model)\.layers\.(\d+)\.self_attn\.o_proj\.(weight|bias)$",
            r"^(language_model\.model|model\.language_model)\.layers\.(\d+)\.linear_attn\.in_proj_qkv\.(weight|bias)$",
            r"^(language_model\.model|model\.language_model)\.layers\.(\d+)\.linear_attn\.in_proj_z\.(weight|bias)$",
            r"^(language_model\.model|model\.language_model)\.layers\.(\d+)\.linear_attn\.in_proj_b\.(weight|bias)$",
            r"^(language_model\.model|model\.language_model)\.layers\.(\d+)\.linear_attn\.in_proj_a\.(weight|bias)$",
            r"^(language_model\.model|model\.language_model)\.layers\.(\d+)\.linear_attn\.out_proj\.(weight|bias)$",
            r"^(language_model\.model|model\.language_model)\.layers\.(\d+)\.mlp\.experts\.(\d+)\.gate_proj\.(weight|bias)$",
            r"^(language_model\.model|model\.language_model)\.layers\.(\d+)\.mlp\.experts\.(\d+)\.up_proj\.(weight|bias)$",
            r"^(language_model\.model|model\.language_model)\.layers\.(\d+)\.mlp\.experts\.(\d+)\.down_proj\.(weight|bias)$",
            r"^(language_model\.model|model\.language_model)\.layers\.(\d+)\.mlp\.experts\.(gate_proj|up_proj|down_proj)\.weight$",
            r"^(language_model\.model|model\.language_model)\.layers\.(\d+)\.mlp\.experts\.gate_up_proj\.weight$",
            r"^(language_model\.model|model\.language_model)\.layers\.(\d+)\.mlp\.experts\.down_proj\.weight$",
            r"^(language_model\.model|model\.language_model)\.layers\.(\d+)\.mlp\.shared_expert\.gate_proj\.(weight|bias)$",
            r"^(language_model\.model|model\.language_model)\.layers\.(\d+)\.mlp\.shared_expert\.up_proj\.(weight|bias)$",
            r"^(language_model\.model|model\.language_model)\.layers\.(\d+)\.mlp\.shared_expert\.down_proj\.(weight|bias)$",
        ]
    );
    assert!(compile_patterns(&patterns).is_ok());
    let patterns = Qwen3_5MoeLoader.immediate_isq_predicates();
    assert_eq!(
        patterns,
        vec![
            r"lm_head\.(weight|bias)$",
            r"^(language_model\.model|model\.language_model)\.layers\.(\d+)\.self_attn\.q_proj\.(weight|bias)$",
            r"^(language_model\.model|model\.language_model)\.layers\.(\d+)\.self_attn\.k_proj\.(weight|bias)$",
            r"^(language_model\.model|model\.language_model)\.layers\.(\d+)\.self_attn\.v_proj\.(weight|bias)$",
            r"^(language_model\.model|model\.language_model)\.layers\.(\d+)\.self_attn\.o_proj\.(weight|bias)$",
            r"^(language_model\.model|model\.language_model)\.layers\.(\d+)\.linear_attn\.in_proj_qkv\.(weight|bias)$",
            r"^(language_model\.model|model\.language_model)\.layers\.(\d+)\.linear_attn\.in_proj_z\.(weight|bias)$",
            r"^(language_model\.model|model\.language_model)\.layers\.(\d+)\.linear_attn\.in_proj_b\.(weight|bias)$",
            r"^(language_model\.model|model\.language_model)\.layers\.(\d+)\.linear_attn\.in_proj_a\.(weight|bias)$",
            r"^(language_model\.model|model\.language_model)\.layers\.(\d+)\.linear_attn\.out_proj\.(weight|bias)$",
            r"^(language_model\.model|model\.language_model)\.layers\.(\d+)\.mlp\.experts\.(\d+)\.gate_proj\.(weight|bias)$",
            r"^(language_model\.model|model\.language_model)\.layers\.(\d+)\.mlp\.experts\.(\d+)\.up_proj\.(weight|bias)$",
            r"^(language_model\.model|model\.language_model)\.layers\.(\d+)\.mlp\.experts\.(\d+)\.down_proj\.(weight|bias)$",
            r"^(language_model\.model|model\.language_model)\.layers\.(\d+)\.mlp\.experts\.(gate_proj|up_proj|down_proj)\.weight$",
            r"^(language_model\.model|model\.language_model)\.layers\.(\d+)\.mlp\.experts\.gate_up_proj\.weight$",
            r"^(language_model\.model|model\.language_model)\.layers\.(\d+)\.mlp\.experts\.down_proj\.weight$",
            r"^(language_model\.model|model\.language_model)\.layers\.(\d+)\.mlp\.shared_expert\.gate_proj\.(weight|bias)$",
            r"^(language_model\.model|model\.language_model)\.layers\.(\d+)\.mlp\.shared_expert\.up_proj\.(weight|bias)$",
            r"^(language_model\.model|model\.language_model)\.layers\.(\d+)\.mlp\.shared_expert\.down_proj\.(weight|bias)$",
        ]
    );
    assert!(compile_patterns(&patterns).is_ok());
    let patterns = Qwen3_5MoeLoader.isq_layer_regexes_moqe();
    assert_eq!(
        patterns,
        vec![
            r"^(language_model\.model|model\.language_model)\.layers\.(\d+)\.mlp\.experts\.(\d+)\.gate_proj\.(weight|bias)$",
            r"^(language_model\.model|model\.language_model)\.layers\.(\d+)\.mlp\.experts\.(\d+)\.up_proj\.(weight|bias)$",
            r"^(language_model\.model|model\.language_model)\.layers\.(\d+)\.mlp\.experts\.(\d+)\.down_proj\.(weight|bias)$",
            r"^(language_model\.model|model\.language_model)\.layers\.(\d+)\.mlp\.experts\.(gate_proj|up_proj|down_proj)\.weight$",
            r"^(language_model\.model|model\.language_model)\.layers\.(\d+)\.mlp\.experts\.gate_up_proj\.weight$",
            r"^(language_model\.model|model\.language_model)\.layers\.(\d+)\.mlp\.experts\.down_proj\.weight$",
        ]
    );
    assert!(compile_patterns(&patterns).is_ok());
    let patterns = Qwen3_5MoeLoader.immediate_isq_predicates_moqe();
    assert_eq!(
        patterns,
        vec![
            r"^(language_model\.model|model\.language_model)\.layers\.(\d+)\.mlp\.experts\.(\d+)\.gate_proj\.(weight|bias)$",
            r"^(language_model\.model|model\.language_model)\.layers\.(\d+)\.mlp\.experts\.(\d+)\.up_proj\.(weight|bias)$",
            r"^(language_model\.model|model\.language_model)\.layers\.(\d+)\.mlp\.experts\.(\d+)\.down_proj\.(weight|bias)$",
            r"^(language_model\.model|model\.language_model)\.layers\.(\d+)\.mlp\.experts\.(gate_proj|up_proj|down_proj)\.weight$",
            r"^(language_model\.model|model\.language_model)\.layers\.(\d+)\.mlp\.experts\.gate_up_proj\.weight$",
            r"^(language_model\.model|model\.language_model)\.layers\.(\d+)\.mlp\.experts\.down_proj\.weight$",
        ]
    );
    assert!(compile_patterns(&patterns).is_ok());
}

fn vllama_config() -> MLlamaConfig {
    MLlamaConfig {
        text_config: MLlamaTextConfig {
            hidden_size: 10,
            vocab_size: 13,
            num_hidden_layers: 3,
            num_attention_heads: 3,
            num_key_value_heads: 2,
            intermediate_size: 7,
            max_position_embeddings: 99,
            tie_word_embeddings: false,
        },
        vision_config: MLlamaVisionConfig {
            hidden_size: 6,
            intermediate_size: 7,
            num_hidden_layers: 2,
            num_attention_heads: 4,
            num_channels: 3,
            image_size: 21,
            patch_size: 4,
            max_num_tiles: 3,
            max_aspect_ratio_id: 5,
            num_global_layers: 4,
        },
    }
}

#[test]
fn vllama_activations() {
    let cfg = vllama_config();
    let params = AutoDeviceMapParams::Multimodal {
        max_seq_len: 9,
        max_batch_size: 2,
        max_image_shape: (58, 86),
        max_num_images: 3,
    };
    let other = AutoDeviceMapParams::Text { max_seq_len: 9, max_batch_size: 2 };
    let mapped = VLlamaLoader.mapped_max_act_size_elems(&cfg, &params, 5);
    assert!(matches!(mapped, Ok(497664)));
    let mapped = VLlamaLoader.mapped_max_act_size_elems(&cfg, &other, 5);
    assert!(matches!(mapped, Err(LoaderError::ExpectedMultimodal)));
    let other_act = VLlamaLoader.non_mapped_max_act_size_elems(&cfg, &params);
    assert!(matches!(other_act, Ok(221184)));
    let other_act = VLlamaLoader.non_mapped_max_act_size_elems(&cfg, &other);
    assert!(matches!(other_act, Err(LoaderError::ExpectedMultimodal)));
}

#[test]
fn vllama_sizes() {
    let cfg = vllama_config();
    let packs = PackFactors { embed_tokens: 2, lm_head: 3, weight: 4 };
    assert_eq!(VLlamaLoader.non_mapped_size_in_bytes(&cfg, DType::F16, packs), 8260);
    let cross = vec![1];
    let layers = VLlamaLoader.layer_sizes_in_bytes(&cfg, &cross, DType::F16, 4);
    assert_eq!(layers, vec![290, 1060, 290]);
}

#[test]
fn vllama_model_config() {
    let cfg = vllama_config();
    assert_eq!(VLlamaLoader.num_layers(&cfg), 3);
    assert_eq!(
        VLlamaLoader.model_config(&cfg),
        ModelConfigMetadata {
            max_seq_len: 99,
            num_layers: 3,
            hidden_size: 10,
            num_kv_heads: 2,
            num_attn_heads: 3,
            sliding_window: None,
            k_head_dim: 3,
            v_head_dim: 3,
            kv_cache_layout: KvCacheLayout::Standard,
        }
    );
    assert_eq!(VLlamaLoader.is_gptx(), true);
    assert_eq!(VLlamaLoader.supports_paged_attention(), true);
    assert_eq!(VLlamaLoader.supports_encoder_cache(), true);
    assert_eq!(VLlamaLoader.supports_prefix_cacher(), false);
    let kinds = VLlamaLoader.modalities();
    assert_eq!(kinds.input, vec![SupportedModality::Text, SupportedModality::Vision]);
    assert_eq!(kinds.output, vec![SupportedModality::Text]);
    assert_eq!(VLlamaLoader.non_mapped_sub_models(), Some(vec![NonMappedSubModel::Vision]));
}

#[test]
fn vllama_layer_patterns() {
    let cfg = vllama_config();
    assert_eq!(vllama_image_tokens(&cfg.vision_config), 96);
    let cross = vec![1];
    let patterns = VLlamaLoader.isq_layer_regexes(&cfg, &cross);
    assert_eq!(
        patterns,
        vec![
            r"language_model.model.layers\.0\.self_attn\.q_proj\.(weight|bias)$",
            r"language_model.model.layers\.0\.self_attn\.k_proj\.(weight|bias)$",
            r"language_model.model.layers\.0\.self_attn\.v_proj\.(weight|bias)$",
            r"language_model.model.layers\.0\.self_attn\.o_proj\.(weight|bias)$",
            r"language_model.model.layers\.0\.mlp\.gate_proj\.(weight|bias)$",
            r"language_model.model.layers\.0\.mlp\.up_proj\.(weight|bias)$",
            r"language_model.model.layers\.0\.mlp\.down_proj\.(weight|bias)$",
            r"language_model.model.layers\.2\.self_attn\.q_proj\.(weight|bias)$",
            r"language_model.model.layers\.2\.self_attn\.k_proj\.(weight|bias)$",
            r"language_model.model.layers\.2\.self_attn\.v_proj\.(weight|bias)$",
            r"language_model.model.layers\.2\.self_attn\.o_proj\.(weight|bias)$",
            r"language_model.model.layers\.2\.mlp\.gate_proj\.(weight|bias)$",
            r"language_model.model.layers\.2\.mlp\.up_proj\.(weight|bias)$",
            r"language_model.model.layers\.2\.mlp\.down_proj\.(weight|bias)$",
            r"vision_model.transformer.layers\.(\d+)\.self_attn\.q_proj\.(weight|bias)$",
            r"vision_model.transformer.layers\.(\d+)\.self_attn\.k_proj\.(weight|bias)$",
            r"vision_model.transformer.layers\.(\d+)\.self_attn\.v_proj\.(weight|bias)$",
            r"vision_model.transformer.layers\.(\d+)\.self_attn\.o_proj\.(weight|bias)$",
            r"vision_model.global_transformer.layers\.(\d+)\.self_attn\.q_proj\.(weight|bias)$",
            r"vision_model.global_transformer.layers\.(\d+)\.self_attn\.k_proj\.(weight|bias)$",
            r"vision_model.global_transformer.layers\.(\d+)\.self_attn\.v_proj\.(weight|bias)$",
            r"vision_model.global_transformer.layers\.(\d+)\.self_attn\.o_proj\.(weight|bias)$",
            r"layers\.(\d+)\.mlp\.fc1\.(weight|bias)$",
            r"layers\.(\d+)\.mlp\.fc2\.(weight|bias)$",
        ]
    );
    assert_eq!(VLlamaLoader.immediate_isq_predicates(&cfg, &cross), patterns);
    assert!(compile_patterns(&patterns).is_ok());
}

#[test]
fn vllama_patterns() {
    let patterns = VLlamaLoader.promoted_isq_predicates();
    assert_eq!(
        patterns,
        vec![
            r"^language_model\.model\.embed_tokens\.weight$",
            r"^language_model\.lm_head\.(weight|bias)$",
        ]
    );
    assert!(compile_patterns(&patterns).is_ok());
}

fn vllama4_config() -> Llama4Config {
    Llama4Config {
        text_config: Llama4TextConfig {
            hidden_size: 10,
            vocab_size: 13,
            num_hidden_layers: 2,
            num_attention_heads: 3,
            num_key_value_heads: 2,
            intermediate_size: 7,
            max_position_embeddings: 99,
            intermediate_size_mlp: 8,
            num_local_experts: 5,
            attention_chunk_size: 33,
            tie_word_embeddings: false,
        },
        vision_config: Llama4VisionConfig {
            hidden_size: 6,
            intermediate_size: 7,
            num_hidden_layers: 2,
            num_attention_heads: 3,
            num_channels: 3,
            patch_size: 4,
            num_patches: 11,
            projector_input_dim: 9,
            projector_output_dim: 12,
        },
    }
}

#[test]
fn vllama4_activations() {
    let cfg = vllama4_config();
    let pixels = ProcessedPixels {
        batch: 5,
        height: 336,
        width: 352,
        patch_size: 14,
        downsample_ratio: 4,
    };
    assert_eq!(VLlama4Loader.run_dummy_processing(&pixels, 2), (10, 1500));
    let params = AutoDeviceMapParams::Multimodal {
        max_seq_len: 9,
        max_batch_size: 2,
        max_image_shape: (58, 86),
        max_num_images: 3,
    };
    let other = AutoDeviceMapParams::Text { max_seq_len: 9, max_batch_size: 2 };
    let mapped = VLlama4Loader.mapped_max_act_size_elems(&cfg, &pixels, &params, 5);
    assert!(matches!(mapped, Ok(13590150)));
    let mapped = VLlama4Loader.mapped_max_act_size_elems(&cfg, &pixels, &other, 5);
    assert!(matches!(mapped, Err(LoaderError::ExpectedMultimodal)));
    let other_act = VLlama4Loader.non_mapped_max_act_size_elems(&cfg, &pixels, &params);
    assert!(matches!(other_act, Ok(7260)));
    let other_act = VLlama4Loader.non_mapped_max_act_size_elems(&cfg, &pixels, &other);
    assert!(matches!(other_act, Err(LoaderError::ExpectedMultimodal)));
}

#[test]
fn vllama4_sizes() {
    let cfg = vllama4_config();
    let pixels = ProcessedPixels {
        batch: 5,
        height: 336,
        width: 352,
        patch_size: 14,
        downsample_ratio: 4,
    };
    assert_eq!(VLlama4Loader.run_dummy_processing(&pixels, 2), (10, 1500));
    let packs = PackFactors { embed_tokens: 2, lm_head: 3, weight: 4 };
    assert_eq!(VLlama4Loader.non_mapped_size_in_bytes(&cfg, DType::F16, packs), 2478);
    let moe = vec![1];
    let layers = VLlama4Loader.layer_sizes_in_bytes(&cfg, &moe, DType::F16, 4);
    assert_eq!(layers, vec![308, 710]);
}

#[test]
fn vllama4_model_config() {
    let cfg = vllama4_config();
    assert_eq!(VLlama4Loader.num_layers(&cfg), 2);
    assert_eq!(
        VLlama4Loader.model_config(&cfg),
        ModelConfigMetadata {
            max_seq_len: 99,
            num_layers: 2,
            hidden_size: 10,
            num_kv_heads: 2,
            num_attn_heads: 3,
            sliding_window: Some(33),
            k_head_dim: 3,
            v_head_dim: 3,
            kv_cache_layout: KvCacheLayout::StandardNoFlashInfer,
        }
    );
    assert_eq!(VLlama4Loader.is_gptx(), false);
    assert_eq!(VLlama4Loader.supports_paged_attention(), true);
    assert_eq!(VLlama4Loader.supports_encoder_cache(), true);
    assert_eq!(VLlama4Loader.supports_prefix_cacher(), false);
    let kinds = VLlama4Loader.modalities();
    assert_eq!(kinds.input, vec![SupportedModality::Text, SupportedModality::Vision]);
    assert_eq!(kinds.output, vec![SupportedModality::Text]);
    assert_eq!(VLlama4Loader.non_mapped_sub_models(), Some(vec![NonMappedSubModel::Vision]));
}

#[test]
fn vllama4_patterns() {
    let patterns = VLlama4Loader.promoted_isq_predicates();
    assert_eq!(
        patterns,
        vec![
            r"^language_model\.model\.embed_tokens\.weight$",
            r"^language_model\.lm_head\.(weight|bias)$",
        ]
    );
    assert!(compile_patterns(&patterns).is_ok());
    let patterns = VLlama4Loader.isq_layer_regexes();
    assert_eq!(
        patterns,
        vec![
            r"lm_head\.(weight|bias)$",
            r"layers\.(\d+)\.self_attn\.q_proj\.(weight|bias)$",
            r"layers\.(\d+)\.self_attn\.k_proj\.(weight|bias)$",
            r"layers\.(\d+)\.self_attn\.v_proj\.(weight|bias)$",
            r"layers\.(\d+)\.self_attn\.o_proj\.(weight|bias)$",
            r"layers\.(\d+)\.feed_forward\.experts\.gate_up_proj\.(weight|bias)$",
            r"layers\.(\d+)\.feed_forward\.experts\.gate_proj\.(weight|bias)$",
            r"layers\.(\d+)\.feed_forward\.experts\.up_proj\.(weight|bias)$",
            r"layers\.(\d+)\.feed_forward\.experts\.down_proj\.(weight|bias)$",
            r"layers\.(\d+)\.feed_forward\.router\.(weight|bias)$",
            r"layers\.(\d+)\.feed_forward\.shared_expert\.gate_proj\.(weight|bias)$",
            r"layers\.(\d+)\.feed_forward\.shared_expert\.up_proj\.(weight|bias)$",
            r"layers\.(\d+)\.feed_forward\.shared_expert\.down_proj\.(weight|bias)$",
            r"layers\.(\d+)\.feed_forward\.gate_proj\.(weight|bias)$",
            r"layers\.(\d+)\.feed_forward\.up_proj\.(weight|bias)$",
            r"layers\.(\d+)\.feed_forward\.down_proj\.(weight|bias)$",
        ]
    );
    assert!(compile_patterns(&patterns).is_ok());
    let patterns = VLlama4Loader.immediate_isq_predicates();
    assert_eq!(
        patterns,
        vec![
            r"lm_head\.(weight|bias)$",
            r"language_model\.model\.layers\.(\d+)\.self_attn\.q_proj\.(weight|bias)$",
            r"language_model\.model\.layers\.(\d+)\.self_attn\.k_proj\.(weight|bias)$",
            r"language_model\.model\.layers\.(\d+)\.self_attn\.v_proj\.(weight|bias)$",
            r"language_model\.model\.layers\.(\d+)\.self_attn\.o_proj\.(weight|bias)$",
            r"language_model\.model\.layers\.(\d+)\.feed_forward\.experts\.(\d+)\.gate_up_proj\.(weight|bias)$",
            r"language_model\.model\.layers\.(\d+)\.feed_forward\.experts\.(\d+)\.gate_proj\.(weight|bias)$",
            r"language_model\.model\.layers\.(\d+)\.feed_forward\.experts\.(\d+)\.up_proj\.(weight|bias)$",
            r"language_model\.model\.layers\.(\d+)\.feed_forward\.experts\.(\d+)\.down_proj\.(weight|bias)$",
            r"language_model\.model\.layers\.(\d+)\.feed_forward\.experts\.(gate_proj|up_proj|down_proj)\.weight$",
            r"language_model\.model\.layers\.(\d+)\.feed_forward\.router\.(weight|bias)$",
            r"language_model\.model\.layers\.(\d+)\.feed_forward\.shared_expert\.gate_proj\.(weight|bias)$",
            r"language_model\.model\.layers\.(\d+)\.feed_forward\.shared_expert\.up_proj\.(weight|bias)$",
            r"language_model\.model\.layers\.(\d+)\.feed_forward\.shared_expert\.down_proj\.(weight|bias)$",
            r"language_model\.model\.layers\.(\d+)\.feed_forward\.gate_proj\.(weight|bias)$",
            r"language_model\.model\.layers\.(\d+)\.feed_forward\.up_proj\.(weight|bias)$",
            r"language_model\.model\.layers\.(\d+)\.feed_forward\.down_proj\.(weight|bias)$",
        ]
    );
    assert!(compile_patterns(&patterns).is_ok());
}

fn voxtral_config() -> VoxtralConfig {
    VoxtralConfig {
        dim: 10,
        hidden_dim: 9,
        n_layers: 2,
        n_heads: 3,
        n_kv_heads: 2,
        head_dim: 5,
        vocab_size: 13,
        model_max_length: 99,
        tied_embeddings: false,
        sliding_window: Some(17),
        encoder: VoxtralEncoderConfig {
            dim: 6,
            hidden_dim: 7,
            n_layers: 2,
            n_heads: 3,
            num_mel_bins: 8,
            downsample_factor: 4,
        },
    }
}

#[test]
fn voxtral_activations() {
    let cfg = voxtral_config();
    let params = AutoDeviceMapParams::Multimodal {
        max_seq_len: 9,
        max_batch_size: 2,
        max_image_shape: (58, 86),
        max_num_images: 3,
    };
    let other = AutoDeviceMapParams::Text { max_seq_len: 9, max_batch_size: 2 };
    let mapped = VoxtralLoader.mapped_max_act_size_elems(&cfg, &params, 5);
    assert!(matches!(mapped, Ok(866400)));
    let mapped = VoxtralLoader.mapped_max_act_size_elems(&cfg, &other, 5);
    assert!(matches!(mapped, Err(LoaderError::ExpectedMultimodal)));
    let other_act = VoxtralLoader.non_mapped_max_act_size_elems(&cfg, &params);
    assert!(matches!(other_act, Ok(54000000)));
    let other_act = VoxtralLoader.non_mapped_max_act_size_elems(&cfg, &other);
    assert!(matches!(other_act, Err(LoaderError::ExpectedMultimodal)));
}

#[test]
fn voxtral_sizes() {
    let cfg = voxtral_config();
    let packs = PackFactors { embed_tokens: 2, lm_head: 3, weight: 4 };
    assert_eq!(VoxtralLoader.non_mapped_size_in_bytes(&cfg, DType::F16, packs), 2604);
    let layers = VoxtralLoader.layer_sizes_in_bytes(&cfg, DType::F16, 4);
    assert_eq!(layers, vec![424, 424]);
}

#[test]
fn voxtral_model_config() {
    let cfg = voxtral_config();
    assert_eq!(VoxtralLoader.num_layers(&cfg), 2);
    assert_eq!(
        VoxtralLoader.model_config(&cfg),
        ModelConfigMetadata {
            max_seq_len: 99,
            num_layers: 2,
            hidden_size: 10,
            num_kv_heads: 2,
            num_attn_heads: 3,
            sliding_window: Some(17),
            k_head_dim: 5,
            v_head_dim: 5,
            kv_cache_layout: KvCacheLayout::Standard,
        }
    );
    assert_eq!(VoxtralLoader.is_gptx(), true);
    assert_eq!(VoxtralLoader.supports_paged_attention(), true);
    assert_eq!(VoxtralLoader.supports_encoder_cache(), false);
    assert_eq!(VoxtralLoader.supports_prefix_cacher(), true);
    let kinds = VoxtralLoader.modalities();
    assert_eq!(kinds.input, vec![SupportedModality::Text, SupportedModality::Audio]);
    assert_eq!(kinds.output, vec![SupportedModality::Text]);
}

#[test]
fn voxtral_patterns() {
    let patterns = VoxtralLoader.promoted_isq_predicates();
    assert_eq!(
        patterns,
        vec![
            r"^mm_streams_embeddings\.embedding_module\.tok_embeddings\.weight$",
            r"^output\.(weight|bias)$",
        ]
    );
    assert!(compile_patterns(&patterns).is_ok());
    let patterns = VoxtralLoader.isq_layer_regexes();
    assert_eq!(
        patterns,
        vec![
            r"lm_head\.(weight|bias)$",
            r"^output\.(weight|bias)$",
            r"layers\.(\d+)\.attention\.wq\.(weight|bias)$",
            r"layers\.(\d+)\.attention\.wk\.(weight|bias)$",
            r"layers\.(\d+)\.attention\.wv\.(weight|bias)$",
            r"layers\.(\d+)\.attention\.wo\.(weight|bias)$",
            r"layers\.(\d+)\.feed_forward\.w1\.(weight|bias)$",
            r"layers\.(\d+)\.feed_forward\.w3\.(weight|bias)$",
            r"layers\.(\d+)\.feed_forward\.w2\.(weight|bias)$",
        ]
    );
    assert!(compile_patterns(&patterns).is_ok());
    let patterns = VoxtralLoader.immediate_isq_predicates();
    assert_eq!(
        patterns,
        vec![
            r"tok_embeddings\.(weight|bias)$",
            r"^output\.(weight|bias)$",
            r"layers\.(\d+)\.attention\.wq\.(weight|bias)$",
            r"layers\.(\d+)\.attention\.wk\.(weight|bias)$",
            r"layers\.(\d+)\.attention\.wv\.(weight|bias)$",
            r"layers\.(\d+)\.attention\.wo\.(weight|bias)$",
            r"layers\.(\d+)\.feed_forward\.w1\.(weight|bias)$",
            r"layers\.(\d+)\.feed_forward\.w3\.(weight|bias)$",
            r"layers\.(\d+)\.feed_forward\.w2\.(weight|bias)$",
        ]
    );
    assert!(compile_patterns(&patterns).is_ok());
}

#[test]
fn clip_elements() {
    let cfg = ClipConfig {
        hidden_size: 6,
        intermediate_size: 7,
        num_hidden_layers: 2,
        num_channels: 3,
        image_size: 21,
        patch_size: 4,
    };
    assert_eq!(get_clip_vit_num_elems(&cfg), 1042);
}

#[test]
fn prompt_prefixes() {
    let images = vec![0, 1];
    assert_eq!(Lfm2VlPrefixer.prefix_image(&images, "hi"), "hi");
    assert_eq!(Mistral3Prefixer.prefix_image(&images, "hi"), "hi");
    assert_eq!(MuseGlimmerPrefixer.prefix_image(&images, "hi"), "hi");
    assert_eq!(Qwen3_5MoePrefixer.prefix_image(&images, "hi"), "hi");
    assert_eq!(Qwen3VLPrefixer.prefix_image(&images, "hi"), "hi");
    assert_eq!(VoxtralPrefixer.prefix_image(&images, "hi"), "hi");
    assert_eq!(
        MiniCpmOPrefixer.prefix_image(&images, "hi"),
        "(<image>./</image>)(<image>./</image>)hi",
    );
    assert_eq!(Phi4MMPrefixer.prefix_image(&images, "hi"), "<|image_1|><|image_2|>hi");
    assert_eq!(Phi4MMPrefixer.prefix_audio(&images, "hi"), "<|audio_1|><|audio_2|>hi");
    assert_eq!(
        Qwen2VLPrefixer.prefix_image("<s>", "<p>", "<e>", &images, "hi"),
        "<s><p><e><s><p><e>hi",
    );
    assert_eq!(VLlamaPrefixer.prefix_image(&images, "hi"), "<|image|><|image|>hi");
    assert_eq!(VLlama4Prefixer.prefix_image("<i>", &images, "hi"), "<i><i>hi");
}

#[test]
fn diffusion_gemma_processor() {
    let mut cfg = diffusion_gemma_config();
    let with = DiffusionGemmaLoader.get_processor(&cfg);
    let vision = cfg.vision_config.unwrap();
    assert!(with.supports_images && !with.supports_audio && !with.is_unified);
    assert_eq!(with.patch_size, vision.patch_size);
    assert_eq!(with.pooling_kernel_size, vision.pooling_kernel_size);
    assert_eq!(with.default_output_length, vision.default_output_length);
    assert_eq!(with.decode_window, Some(cfg.canvas_length));
    assert_eq!(with.raw_audio_frame_size, None);
    assert_eq!(with.bidirectional_attention, BidirectionalAttention::Vision);
    assert!(with.vision_attention_on_full_layers);
    cfg.vision_config = None;
    let without = DiffusionGemmaLoader.get_processor(&cfg);
    assert!(!without.supports_images);
    assert_eq!((without.patch_size, without.pooling_kernel_size), (16, 1));
    assert_eq!(without.default_output_length, 0);
}

#[test]
fn pack_factors_are_looked_up() {
    let asked = |r: PackLookup| (r.embed_tokens, r.lm_head, r.tied);
    let nested = "model.language_model.embed_tokens.weight";
    let plain = "language_model.model.embed_tokens.weight";
    let head = "lm_head.weight";
    let cfg = qwen3_5_moe_config();
    let r = asked(Qwen3_5MoeLoader.pack_lookup(&cfg));
    assert_eq!(r, (vec![plain, nested], head, cfg.tie_word_embeddings));
    let cfg = qwen3vl_config();
    let r = asked(Qwen3VLLoader.pack_lookup(&cfg));
    assert_eq!(r, (vec![plain, nested], head, cfg.tie_word_embeddings));
    let cfg = qwen2vl_config();
    let r = asked(Qwen2VLLoader.pack_lookup(&cfg));
    let bare = "model.embed_tokens.weight";
    assert_eq!(r, (vec![bare, plain], head, cfg.tie_word_embeddings));
    let cfg = lfm2vl_config();
    let r = asked(Lfm2VlLoader.pack_lookup(&cfg));
    assert_eq!(r, (vec![nested], head, cfg.text_config.tie_word_embeddings));
    let cfg = muse_glimmer_config();
    let r = asked(MuseGlimmerLoader.pack_lookup(&cfg));
    assert_eq!(r, (vec![nested], head, cfg.text_config.tie_word_embeddings));
    let cfg = phi4mm_config();
    let r = asked(Phi4MMLoader.pack_lookup(&cfg));
    assert_eq!(r, (vec![bare], head, cfg.tie_word_embeddings));
    let long_head = "language_model.lm_head.weight";
    let cfg = mistral3_config();
    let r = asked(Mistral3Loader.pack_lookup(&cfg));
    assert_eq!(r, (vec![plain], long_head, cfg.text_config.tie_word_embeddings));
    let cfg = vllama_config();
    let r = asked(VLlamaLoader.pack_lookup(&cfg));
    assert_eq!(r, (vec![plain], long_head, cfg.text_config.tie_word_embeddings));
    let cfg = vllama4_config();
    let r = asked(VLlama4Loader.pack_lookup(&cfg));
    assert_eq!(r, (vec![plain], long_head, cfg.text_config.tie_word_embeddings));
    let cfg = minicpm_o_config();
    let r = asked(MiniCpmOLoader.pack_lookup(&cfg));
    let llm = "llm.model.embed_tokens.weight";
    assert_eq!(r, (vec![llm], "llm.lm_head.weight", cfg.text_config.tie_word_embeddings));
    let cfg = diffusion_gemma_config();
    let r = asked(DiffusionGemmaLoader.pack_lookup(&cfg));
    let decoder = vec!["model.decoder.embed_tokens.weight"];
    let tied = cfg.text_config.tie_word_embeddings;
    assert_eq!(r, (decoder, "model.decoder.lm_head.weight", tied));
    let cfg = voxtral_config();
    let r = asked(VoxtralLoader.pack_lookup(&cfg));
    let streams = vec!["mm_streams_embeddings.embedding_module.tok_embeddings.weight"];
    assert_eq!(r, (streams, "output.weight", cfg.tied_embeddings));
}

#[test]
fn expert_patterns_are_among_all() {
    let all = Qwen3_5MoeLoader.isq_layer_regexes();
    let experts = Qwen3_5MoeLoader.isq_layer_regexes_moqe();
    assert_eq!(all[10..16], experts[..]);
    let experts = compile_patterns(&experts).ok().unwrap();
    let matched = |name: &str| experts.iter().any(|r| r.is_match(name));
    assert!(matched("model.language_model.layers.3.mlp.experts.7.up_proj.weight"));
    assert!(matched("language_model.model.layers.3.mlp.experts.gate_up_proj.weight"));
    assert!(!matched("model.language_model.layers.3.mlp.shared_expert.up_proj.weight"));
    assert!(!matched("model.language_model.layers.3.self_attn.q_proj.weight"));
    assert!(!matched("model.language_model.layers.3.linear_attn.in_proj_z.weight"));
    assert!(!matched("lm_head.weight"));
}

#[test]
fn voxtral_templates() {
    let template = VoxtralLoader.default_chat_template().unwrap();
    assert!(template.starts_with("{{ bos_token }}{% for message in messages %}"));
    assert!(template.contains("{{ '[INST] ' + message['content'] + ' [/INST]' }}"));
    assert!(template.ends_with("{% endif %}{% endfor %}"));
    let marks = ("<s>".to_string(), "</s>".to_string());
    assert_eq!(VoxtralLoader.default_bos_eos(), Some(marks));
}
