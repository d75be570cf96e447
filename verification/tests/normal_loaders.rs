use inference::loaders::{
    AutoDeviceMapParams, KvCacheLayout, LoaderError, ModelConfigMetadata, PackFactors,
};
use inference::loaders::normal::deepseek3::{
    DeepSeekV3Config, DeepSeekV3Loader,
};
use inference::loaders::normal::granite::{
    GraniteConfig, GraniteLayerType, GraniteMoeHybridLoader,
};
use inference::loaders::normal::lfm2::{
    FeedForwardType, Lfm2Config, Lfm2Layer, Lfm2LayerType, Lfm2Loader,
};
use inference::loaders::normal::qwen3_next::{
    LayerType, Qwen3NextConfig, Qwen3NextLoader,
};
use inference::loaders::patterns::compile_patterns;
use inference::tensor::DType;

fn granite_config() -> GraniteConfig {
    GraniteConfig {
        hidden_size: 10,
        vocab_size: 13,
        tie_word_embeddings: false,
        num_hidden_layers: 2,
        num_attention_heads: 3,
        num_key_value_heads: 2,
        head_dim: 5,
        intermediate_size: 7,
        max_position_embeddings: 99,
        num_local_experts: 3,
        shared_intermediate_size: Some(11),
        dense_intermediate_size: 17,
        mamba_intermediate_size: 19,
        mamba_conv_dim: 23,
        mamba_n_heads: 6,
        mamba_d_conv: 4,
        mamba_proj_bias: true,
        mamba_conv_bias: false,
    }
}

#[test]
fn granite_activations() {
    let cfg = granite_config();
    let params = AutoDeviceMapParams::Text { max_seq_len: 9, max_batch_size: 2 };
    let other = AutoDeviceMapParams::Multimodal {
        max_seq_len: 9,
        max_batch_size: 2,
        max_image_shape: (58, 86),
        max_num_images: 3,
    };
    let mapped = GraniteMoeHybridLoader.mapped_max_act_size_elems(&cfg, &params, 5);
    assert!(matches!(mapped, Ok(150)));
    let mapped = GraniteMoeHybridLoader.mapped_max_act_size_elems(&cfg, &other, 5);
    assert!(matches!(mapped, Err(LoaderError::ExpectedText)));
    assert_eq!(GraniteMoeHybridLoader.non_mapped_max_act_size_elems(), 0);
}

#[test]
fn granite_sizes() {
    let cfg = granite_config();
    let packs = PackFactors { embed_tokens: 2, lm_head: 3, weight: 4 };
    assert_eq!(GraniteMoeHybridLoader.non_mapped_size_in_bytes(&cfg, DType::F16, packs), 236);
    let kinds = vec![GraniteLayerType::Attention, GraniteLayerType::Mamba];
    let layers = GraniteMoeHybridLoader.layer_sizes_in_bytes(&cfg, &kinds, DType::F16, 4);
    assert_eq!(layers, vec![1772, 3238]);
}

#[test]
fn granite_model_config() {
    let cfg = granite_config();
    assert_eq!(GraniteMoeHybridLoader.num_layers(&cfg), 2);
    assert_eq!(
        GraniteMoeHybridLoader.model_config(&cfg),
        ModelConfigMetadata {
            max_seq_len: 99,
            num_layers: 2,
            hidden_size: 10,
            num_kv_heads: 2,
            num_attn_heads: 3,
            sliding_window: None,
            k_head_dim: 5,
            v_head_dim: 5,
            kv_cache_layout: KvCacheLayout::Standard,
        }
    );
    assert!(GraniteMoeHybridLoader.is_gptx());
    assert!(GraniteMoeHybridLoader.supports_paged_attention());
    let refused = GraniteMoeHybridLoader.load_xlora();
    assert!(matches!(refused, Err(LoaderError::GraniteXLora)));
}

#[test]
fn granite_dense_layers_have_one_feed_forward() {
    let mut cfg = granite_config();
    cfg.num_local_experts = 0;
    cfg.shared_intermediate_size = None;
    cfg.tie_word_embeddings = true;
    let kinds = vec![GraniteLayerType::Mamba, GraniteLayerType::Attention];
    let layers = GraniteMoeHybridLoader.layer_sizes_in_bytes(&cfg, &kinds, DType::F16, 4);
    assert_eq!(layers, vec![2008, 542]);
    let packs = PackFactors { embed_tokens: 2, lm_head: 3, weight: 4 };
    assert_eq!(GraniteMoeHybridLoader.non_mapped_size_in_bytes(&cfg, DType::F32, packs), 300);
}

#[test]
fn granite_patterns() {
    let patterns = GraniteMoeHybridLoader.promoted_isq_predicates();
    assert_eq!(
        patterns,
        vec![
            r"^model\.embed_tokens\.weight$",
            r"^lm_head\.(weight|bias)$",
        ]
    );
    assert!(compile_patterns(&patterns).is_ok());
    let patterns = GraniteMoeHybridLoader.isq_layer_regexes();
    assert_eq!(
        patterns,
        vec![
            r"lm_head\.(weight|bias)$",
            r"layers\.(\d+)\.self_attn\.q_proj\.(weight|bias)$",
            r"layers\.(\d+)\.self_attn\.k_proj\.(weight|bias)$",
            r"layers\.(\d+)\.self_attn\.v_proj\.(weight|bias)$",
            r"layers\.(\d+)\.self_attn\.o_proj\.(weight|bias)$",
            r"layers\.(\d+)\.mamba\.(in_proj|out_proj)\.(weight|bias)$",
            r"layers\.(\d+)\.shared_mlp\.input_linear\.(weight|bias)$",
            r"layers\.(\d+)\.shared_mlp\.output_linear\.(weight|bias)$",
            r"layers\.(\d+)\.block_sparse_moe\.(input_linear|output_linear)\.weight$",
        ]
    );
    assert!(compile_patterns(&patterns).is_ok());
    let patterns = GraniteMoeHybridLoader.immediate_isq_predicates();
    assert_eq!(
        patterns,
        vec![
            r"lm_head\.(weight|bias)$",
            r"layers\.(\d+)\.self_attn\.q_proj\.(weight|bias)$",
            r"layers\.(\d+)\.self_attn\.k_proj\.(weight|bias)$",
            r"layers\.(\d+)\.self_attn\.v_proj\.(weight|bias)$",
            r"layers\.(\d+)\.self_attn\.o_proj\.(weight|bias)$",
            r"layers\.(\d+)\.mamba\.(in_proj|out_proj)\.(weight|bias)$",
            r"layers\.(\d+)\.shared_mlp\.input_linear\.(weight|bias)$",
            r"layers\.(\d+)\.shared_mlp\.output_linear\.(weight|bias)$",
            r"layers\.(\d+)\.block_sparse_moe\.(input_linear|output_linear)\.weight$",
        ]
    );
    assert!(compile_patterns(&patterns).is_ok());
    let patterns = GraniteMoeHybridLoader.isq_layer_regexes_moqe();
    assert_eq!(
        patterns,
        vec![
            r"layers\.(\d+)\.block_sparse_moe\.(input_linear|output_linear)\.weight$",
        ]
    );
    assert!(compile_patterns(&patterns).is_ok());
    let patterns = GraniteMoeHybridLoader.immediate_isq_predicates_moqe();
    assert_eq!(
        patterns,
        vec![
            r"layers\.(\d+)\.block_sparse_moe\.(input_linear|output_linear)\.weight$",
        ]
    );
    assert!(compile_patterns(&patterns).is_ok());
}

fn lfm2_config() -> Lfm2Config {
    Lfm2Config {
        hidden_size: 10,
        vocab_size: 13,
        tie_word_embeddings: true,
        num_hidden_layers: 4,
        num_attention_heads: 3,
        num_key_value_heads: 2,
        head_dim: 5,
        intermediate_size: 7,
        max_position_embeddings: 99,
        num_experts: 6,
        use_expert_bias: true,
        moe_intermediate_size: 9,
        conv_l_cache: 3,
        conv_bias: true,
    }
}

#[test]
fn lfm2_activations() {
    let cfg = lfm2_config();
    let params = AutoDeviceMapParams::Text { max_seq_len: 9, max_batch_size: 2 };
    let other = AutoDeviceMapParams::Multimodal {
        max_seq_len: 9,
        max_batch_size: 2,
        max_image_shape: (58, 86),
        max_num_images: 3,
    };
    let mapped = Lfm2Loader.mapped_max_act_size_elems(&cfg, &params, 5);
    assert!(matches!(mapped, Ok(150)));
    let mapped = Lfm2Loader.mapped_max_act_size_elems(&cfg, &other, 5);
    assert!(matches!(mapped, Err(LoaderError::ExpectedText)));
    assert_eq!(Lfm2Loader.non_mapped_max_act_size_elems(), 0);
}

#[test]
fn lfm2_sizes() {
    let cfg = lfm2_config();
    let packs = PackFactors { embed_tokens: 2, lm_head: 3, weight: 4 };
    assert_eq!(Lfm2Loader.non_mapped_size_in_bytes(&cfg, DType::F16, packs), 150);
    let kind = |operator, feed_forward| Lfm2Layer { operator, feed_forward };
    let kinds = vec![
        kind(Lfm2LayerType::Attention, FeedForwardType::Dense),
        kind(Lfm2LayerType::Attention, FeedForwardType::Moe),
        kind(Lfm2LayerType::Conv, FeedForwardType::Dense),
        kind(Lfm2LayerType::Conv, FeedForwardType::Moe),
    ];
    let layers = Lfm2Loader.layer_sizes_in_bytes(&cfg, &kinds, DType::F16, 4);
    assert_eq!(layers, vec![414, 1252, 504, 1342]);
}

#[test]
fn lfm2_model_config() {
    let cfg = lfm2_config();
    assert_eq!(Lfm2Loader.num_layers(&cfg), 4);
    assert_eq!(
        Lfm2Loader.model_config(&cfg),
        ModelConfigMetadata {
            max_seq_len: 99,
            num_layers: 4,
            hidden_size: 10,
            num_kv_heads: 2,
            num_attn_heads: 3,
            sliding_window: None,
            k_head_dim: 5,
            v_head_dim: 5,
            kv_cache_layout: KvCacheLayout::Standard,
        }
    );
    assert!(Lfm2Loader.is_gptx());
    assert!(Lfm2Loader.supports_paged_attention());
    assert!(matches!(Lfm2Loader.load_xlora(), Err(LoaderError::Lfm2XLora)));
}

#[test]
fn lfm2_patterns() {
    let patterns = Lfm2Loader.promoted_isq_predicates();
    assert_eq!(
        patterns,
        vec![
            r"^model\.embed_tokens\.weight$",
            r"^lm_head\.(weight|bias)$",
        ]
    );
    assert!(compile_patterns(&patterns).is_ok());
    let patterns = Lfm2Loader.isq_layer_regexes();
    assert_eq!(
        patterns,
        vec![
            r"lm_head\.(weight|bias)$",
            r"layers\.(\d+)\.self_attn\.q_proj\.(weight|bias)$",
            r"layers\.(\d+)\.self_attn\.k_proj\.(weight|bias)$",
            r"layers\.(\d+)\.self_attn\.v_proj\.(weight|bias)$",
            r"layers\.(\d+)\.self_attn\.out_proj\.(weight|bias)$",
            r"layers\.(\d+)\.conv\.in_proj\.(weight|bias)$",
            r"layers\.(\d+)\.conv\.out_proj\.(weight|bias)$",
            r"layers\.(\d+)\.feed_forward\.w1\.(weight|bias)$",
            r"layers\.(\d+)\.feed_forward\.w2\.(weight|bias)$",
            r"layers\.(\d+)\.feed_forward\.w3\.(weight|bias)$",
            r"layers\.(\d+)\.feed_forward\.experts\.(\d+)\.w1\.(weight|bias)$",
            r"layers\.(\d+)\.feed_forward\.experts\.(\d+)\.w2\.(weight|bias)$",
            r"layers\.(\d+)\.feed_forward\.experts\.(\d+)\.w3\.(weight|bias)$",
            r"layers\.(\d+)\.feed_forward\.experts\.(gate_proj|up_proj|down_proj)\.weight$",
        ]
    );
    assert!(compile_patterns(&patterns).is_ok());
    let patterns = Lfm2Loader.immediate_isq_predicates();
    assert_eq!(
        patterns,
        vec![
            r"lm_head\.(weight|bias)$",
            r"layers\.(\d+)\.self_attn\.q_proj\.(weight|bias)$",
            r"layers\.(\d+)\.self_attn\.k_proj\.(weight|bias)$",
            r"layers\.(\d+)\.self_attn\.v_proj\.(weight|bias)$",
            r"layers\.(\d+)\.self_attn\.out_proj\.(weight|bias)$",
            r"layers\.(\d+)\.conv\.in_proj\.(weight|bias)$",
            r"layers\.(\d+)\.conv\.out_proj\.(weight|bias)$",
            r"layers\.(\d+)\.feed_forward\.w1\.(weight|bias)$",
            r"layers\.(\d+)\.feed_forward\.w2\.(weight|bias)$",
            r"layers\.(\d+)\.feed_forward\.w3\.(weight|bias)$",
            r"layers\.(\d+)\.feed_forward\.experts\.(\d+)\.w1\.(weight|bias)$",
            r"layers\.(\d+)\.feed_forward\.experts\.(\d+)\.w2\.(weight|bias)$",
            r"layers\.(\d+)\.feed_forward\.experts\.(\d+)\.w3\.(weight|bias)$",
            r"layers\.(\d+)\.feed_forward\.experts\.(gate_proj|up_proj|down_proj)\.weight$",
        ]
    );
    assert!(compile_patterns(&patterns).is_ok());
    let patterns = Lfm2Loader.isq_layer_regexes_moqe();
    assert_eq!(
        patterns,
        vec![
            r"layers\.(\d+)\.feed_forward\.experts\.(\d+)\.w1\.(weight|bias)$",
            r"layers\.(\d+)\.feed_forward\.experts\.(\d+)\.w2\.(weight|bias)$",
            r"layers\.(\d+)\.feed_forward\.experts\.(\d+)\.w3\.(weight|bias)$",
            r"layers\.(\d+)\.feed_forward\.experts\.(gate_proj|up_proj|down_proj)\.weight$",
        ]
    );
    assert!(compile_patterns(&patterns).is_ok());
    let patterns = Lfm2Loader.immediate_isq_predicates_moqe();
    assert_eq!(
        patterns,
        vec![
            r"layers\.(\d+)\.feed_forward\.experts\.(\d+)\.w1\.(weight|bias)$",
            r"layers\.(\d+)\.feed_forward\.experts\.(\d+)\.w2\.(weight|bias)$",
            r"layers\.(\d+)\.feed_forward\.experts\.(\d+)\.w3\.(weight|bias)$",
            r"layers\.(\d+)\.feed_forward\.experts\.(gate_proj|up_proj|down_proj)\.weight$",
        ]
    );
    assert!(compile_patterns(&patterns).is_ok());
}

fn qwen3_next_config() -> Qwen3NextConfig {
    Qwen3NextConfig {
        hidden_size: 10,
        vocab_size: 13,
        tie_word_embeddings: false,
        num_hidden_layers: 2,
        num_attention_heads: 3,
        num_key_value_heads: 2,
        head_dim: 5,
        max_position_embeddings: 99,
        linear_key_dim: 6,
        linear_value_dim: 8,
        linear_conv_dim: 20,
        linear_conv_kernel_dim: 4,
        linear_num_value_heads: 7,
        linear_value_head_dim: 9,
        num_experts: 6,
        moe_intermediate_size: 11,
        shared_expert_intermediate_size: 12,
    }
}

#[test]
fn qwen3_next_activations() {
    let cfg = qwen3_next_config();
    let params = AutoDeviceMapParams::Text { max_seq_len: 9, max_batch_size: 2 };
    let other = AutoDeviceMapParams::Multimodal {
        max_seq_len: 9,
        max_batch_size: 2,
        max_image_shape: (58, 86),
        max_num_images: 3,
    };
    let mapped = Qwen3NextLoader.mapped_max_act_size_elems(&cfg, &params, 5);
    assert!(matches!(mapped, Ok(150)));
    let mapped = Qwen3NextLoader.mapped_max_act_size_elems(&cfg, &other, 5);
    assert!(matches!(mapped, Err(LoaderError::ExpectedText)));
    assert_eq!(Qwen3NextLoader.non_mapped_max_act_size_elems(), 0);
}

#[test]
fn qwen3_next_sizes() {
    let cfg = qwen3_next_config();
    let packs = PackFactors { embed_tokens: 2, lm_head: 3, weight: 4 };
    assert_eq!(Qwen3NextLoader.non_mapped_size_in_bytes(&cfg, DType::F16, packs), 236);
    let kinds = vec![LayerType::FullAttention, LayerType::LinearAttention];
    let layers = Qwen3NextLoader.layer_sizes_in_bytes(&cfg, &kinds, DType::F16, 4);
    assert_eq!(layers, vec![1674, 1786]);
}

#[test]
fn qwen3_next_model_config() {
    let cfg = qwen3_next_config();
    assert_eq!(Qwen3NextLoader.num_layers(&cfg), 2);
    assert_eq!(
        Qwen3NextLoader.model_config(&cfg),
        ModelConfigMetadata {
            max_seq_len: 99,
            num_layers: 2,
            hidden_size: 10,
            num_kv_heads: 2,
            num_attn_heads: 3,
            sliding_window: None,
            k_head_dim: 5,
            v_head_dim: 5,
            kv_cache_layout: KvCacheLayout::Standard,
        }
    );
    assert!(Qwen3NextLoader.is_gptx());
    assert!(Qwen3NextLoader.supports_paged_attention());
    assert!(matches!(Qwen3NextLoader.load_xlora(), Err(LoaderError::Qwen3NextXLora)));
}

#[test]
fn qwen3_next_patterns() {
    let patterns = Qwen3NextLoader.promoted_isq_predicates();
    assert_eq!(
        patterns,
        vec![
            r"^model\.embed_tokens\.weight$",
            r"^lm_head\.(weight|bias)$",
        ]
    );
    assert!(compile_patterns(&patterns).is_ok());
    let patterns = Qwen3NextLoader.isq_layer_regexes();
    assert_eq!(
        patterns,
        vec![
            r"lm_head\.(weight|bias)$",
            r"layers\.(\d+)\.self_attn\.q_proj\.(weight|bias)$",
            r"layers\.(\d+)\.self_attn\.k_proj\.(weight|bias)$",
            r"layers\.(\d+)\.self_attn\.v_proj\.(weight|bias)$",
            r"layers\.(\d+)\.self_attn\.o_proj\.(weight|bias)$",
            r"layers\.(\d+)\.linear_attn\.(in_proj_qkvz|in_proj_qkv|in_proj_z|in_proj_ba|in_proj_b|in_proj_a)\.(weight|bias)$",
            r"layers\.(\d+)\.linear_attn\.out_proj\.(weight|bias)$",
            r"layers\.(\d+)\.mlp\.experts\.(\d+)\.(gate_proj|up_proj|down_proj)\.(weight|bias)$",
            r"layers\.(\d+)\.mlp\.experts\.(gate_proj|up_proj|down_proj)\.weight$",
            r"layers\.(\d+)\.mlp\.shared_expert\.(gate_proj|up_proj|down_proj)\.(weight|bias)$",
        ]
    );
    assert!(compile_patterns(&patterns).is_ok());
    let patterns = Qwen3NextLoader.immediate_isq_predicates();
    assert_eq!(
        patterns,
        vec![
            r"lm_head\.(weight|bias)$",
            r"layers\.(\d+)\.self_attn\.q_proj\.(weight|bias)$",
            r"layers\.(\d+)\.self_attn\.k_proj\.(weight|bias)$",
            r"layers\.(\d+)\.self_attn\.v_proj\.(weight|bias)$",
            r"layers\.(\d+)\.self_attn\.o_proj\.(weight|bias)$",
            r"layers\.(\d+)\.linear_attn\.(in_proj_qkvz|in_proj_qkv|in_proj_z|in_proj_ba|in_proj_b|in_proj_a)\.(weight|bias)$",
            r"layers\.(\d+)\.linear_attn\.out_proj\.(weight|bias)$",
            r"layers\.(\d+)\.mlp\.experts\.(\d+)\.(gate_proj|up_proj|down_proj)\.(weight|bias)$",
            r"layers\.(\d+)\.mlp\.experts\.(gate_proj|up_proj|down_proj)\.weight$",
            r"layers\.(\d+)\.mlp\.shared_expert\.(gate_proj|up_proj|down_proj)\.(weight|bias)$",
        ]
    );
    assert!(compile_patterns(&patterns).is_ok());
    let patterns = Qwen3NextLoader.isq_layer_regexes_moqe();
    assert_eq!(
        patterns,
        vec![
            r"layers\.(\d+)\.mlp\.experts\.(\d+)\.(gate_proj|up_proj|down_proj)\.(weight|bias)$",
            r"layers\.(\d+)\.mlp\.experts\.(gate_proj|up_proj|down_proj)\.weight$",
        ]
    );
    assert!(compile_patterns(&patterns).is_ok());
    let patterns = Qwen3NextLoader.immediate_isq_predicates_moqe();
    assert_eq!(
        patterns,
        vec![
            r"layers\.(\d+)\.mlp\.experts\.(\d+)\.(gate_proj|up_proj|down_proj)\.(weight|bias)$",
            r"layers\.(\d+)\.mlp\.experts\.(gate_proj|up_proj|down_proj)\.weight$",
        ]
    );
    assert!(compile_patterns(&patterns).is_ok());
}

fn deepseek3_config() -> DeepSeekV3Config {
    DeepSeekV3Config {
        hidden_size: 10,
        vocab_size: 13,
        tie_word_embeddings: false,
        num_hidden_layers: 4,
        num_attention_heads: 3,
        intermediate_size: 7,
        moe_intermediate_size: 5,
        n_routed_experts: Some(2),
        n_shared_experts: Some(3),
        first_k_dense_replace: 1,
        moe_layer_freq: 2,
        q_lora_rank: Some(6),
        kv_lora_rank: 8,
        q_head_dim: 9,
        qk_rope_head_dim: 4,
        qk_nope_head_dim: 5,
        v_head_dim: 11,
        attention_bias: true,
        max_position_embeddings: 99,
    }
}

#[test]
fn deepseek3_activations() {
    let cfg = deepseek3_config();
    let params = AutoDeviceMapParams::Text { max_seq_len: 9, max_batch_size: 2 };
    let other = AutoDeviceMapParams::Multimodal {
        max_seq_len: 9,
        max_batch_size: 2,
        max_image_shape: (58, 86),
        max_num_images: 3,
    };
    let mapped = DeepSeekV3Loader.mapped_max_act_size_elems(&cfg, &params, 5);
    assert!(matches!(mapped, Ok(150)));
    let mapped = DeepSeekV3Loader.mapped_max_act_size_elems(&cfg, &other, 5);
    assert!(matches!(mapped, Err(LoaderError::ExpectedText)));
    assert_eq!(DeepSeekV3Loader.non_mapped_max_act_size_elems(), 0);
}

#[test]
fn deepseek3_sizes() {
    let cfg = deepseek3_config();
    let packs = PackFactors { embed_tokens: 2, lm_head: 3, weight: 4 };
    assert_eq!(DeepSeekV3Loader.non_mapped_size_in_bytes(&cfg, DType::F16, packs), 236);
    let layers = DeepSeekV3Loader.layer_sizes_in_bytes(&cfg, DType::F16, 4);
    assert_eq!(layers, vec![1074, 1074, 1468, 1074]);
}

#[test]
fn deepseek3_model_config() {
    let cfg = deepseek3_config();
    assert_eq!(DeepSeekV3Loader.num_layers(&cfg), 4);
    assert_eq!(
        DeepSeekV3Loader.model_config(&cfg),
        ModelConfigMetadata {
            max_seq_len: 99,
            num_layers: 4,
            hidden_size: 10,
            num_kv_heads: 3,
            num_attn_heads: 3,
            sliding_window: None,
            k_head_dim: 9,
            v_head_dim: 11,
            kv_cache_layout: KvCacheLayout::Standard,
        }
    );
    assert!(DeepSeekV3Loader.is_gptx());
    assert!(DeepSeekV3Loader.supports_paged_attention());
}

#[test]
fn deepseek3_without_options() {
    let mut cfg = deepseek3_config();
    cfg.q_lora_rank = None;
    cfg.n_shared_experts = None;
    cfg.attention_bias = false;
    let layers = DeepSeekV3Loader.layer_sizes_in_bytes(&cfg, DType::F16, 4);
    assert_eq!(layers, vec![1114, 1114, 1196, 1114]);
    cfg.n_routed_experts = None;
    let layers = DeepSeekV3Loader.layer_sizes_in_bytes(&cfg, DType::F16, 4);
    assert_eq!(layers, vec![1114, 1114, 1114, 1114]);
}

#[test]
fn deepseek3_patterns() {
    let patterns = DeepSeekV3Loader.promoted_isq_predicates();
    assert_eq!(
        patterns,
        vec![
            r"^model\.embed_tokens\.weight$",
            r"^lm_head\.(weight|bias)$",
        ]
    );
    assert!(compile_patterns(&patterns).is_ok());
    let patterns = DeepSeekV3Loader.isq_layer_regexes_moqe();
    assert_eq!(
        patterns,
        vec![
            r"layers\.(\d+)\.mlp\.experts\.(\d+)\.(gate_proj|up_proj|down_proj)\.(weight|bias)$",
            r"layers\.(\d+)\.mlp\.experts\.(gate_proj|up_proj|down_proj)\.weight$",
        ]
    );
    assert!(compile_patterns(&patterns).is_ok());
    let patterns = DeepSeekV3Loader.immediate_isq_predicates_moqe();
    assert_eq!(
        patterns,
        vec![
            r"layers\.(\d+)\.mlp\.experts\.(\d+)\.(gate_proj|up_proj|down_proj)\.(weight|bias)$",
            r"layers\.(\d+)\.mlp\.experts\.(gate_proj|up_proj|down_proj)\.weight$",
        ]
    );
    assert!(compile_patterns(&patterns).is_ok());
}

#[test]
fn deepseek3_layer_patterns() {
    let mut cfg = deepseek3_config();
    let patterns = DeepSeekV3Loader.isq_layer_regexes(&cfg);
    assert_eq!(
        patterns,
        vec![
            r"lm_head\.(weight|bias)$",
            r"layers\.(\d+)\.self_attn\.kv_a_proj_with_mqa\.(weight|bias)$",
            r"layers\.(\d+)\.self_attn\.(kv_b|k_b|v_b)_proj\.(weight|bias)$",
            r"layers\.(\d+)\.self_attn\.o_proj\.(weight|bias)$",
            r"layers\.(\d+)\.mlp\.experts\.(gate_proj|up_proj|down_proj)\.weight$",
            r"layers\.(\d+)\.self_attn\.q_a_proj\.(weight|bias)$",
            r"layers\.(\d+)\.self_attn\.q_b_proj\.(weight|bias)$",
            r"layers\.0\.mlp\.gate_proj\.(weight|bias)$",
            r"layers.0.mlp\.up_proj\.(weight|bias)$",
            r"layers\.0\.mlp\.down_proj\.(weight|bias)$",
            r"layers\.1\.mlp\.gate_proj\.(weight|bias)$",
            r"layers.1.mlp\.up_proj\.(weight|bias)$",
            r"layers\.1\.mlp\.down_proj\.(weight|bias)$",
            r"layers\.2\.mlp\.experts\.0\.gate_proj\.(weight|bias)$",
            r"layers\.2\.mlp\.experts\.0\.up_proj\.(weight|bias)$",
            r"layers\.2\.mlp\.experts\.0\.down_proj\.(weight|bias)$",
            r"layers\.2\.mlp\.experts\.1\.gate_proj\.(weight|bias)$",
            r"layers\.2\.mlp\.experts\.1\.up_proj\.(weight|bias)$",
            r"layers\.2\.mlp\.experts\.1\.down_proj\.(weight|bias)$",
            r"layers\.2\.mlp\.shared_experts\.gate_proj\.(weight|bias)$",
            r"layers\.2\.mlp\.shared_experts\.up_proj\.(weight|bias)$",
            r"layers\.2\.mlp\.shared_experts\.down_proj\.(weight|bias)$",
            r"layers\.3\.mlp\.gate_proj\.(weight|bias)$",
            r"layers.3.mlp\.up_proj\.(weight|bias)$",
            r"layers\.3\.mlp\.down_proj\.(weight|bias)$",
        ]
    );
    assert_eq!(DeepSeekV3Loader.immediate_isq_predicates(&cfg), patterns);
    assert!(compile_patterns(&patterns).is_ok());
    cfg.q_lora_rank = None;
    cfg.n_shared_experts = None;
    cfg.num_hidden_layers = 3;
    assert_eq!(
        DeepSeekV3Loader.isq_layer_regexes(&cfg),
        vec![
            r"lm_head\.(weight|bias)$",
            r"layers\.(\d+)\.self_attn\.kv_a_proj_with_mqa\.(weight|bias)$",
            r"layers\.(\d+)\.self_attn\.(kv_b|k_b|v_b)_proj\.(weight|bias)$",
            r"layers\.(\d+)\.self_attn\.o_proj\.(weight|bias)$",
            r"layers\.(\d+)\.mlp\.experts\.(gate_proj|up_proj|down_proj)\.weight$",
            r"layers\.(\d+)\.self_attn\.q_proj\.(weight|bias)$",
            r"layers\.0\.mlp\.gate_proj\.(weight|bias)$",
            r"layers.0.mlp\.up_proj\.(weight|bias)$",
            r"layers\.0\.mlp\.down_proj\.(weight|bias)$",
            r"layers\.1\.mlp\.gate_proj\.(weight|bias)$",
            r"layers.1.mlp\.up_proj\.(weight|bias)$",
            r"layers\.1\.mlp\.down_proj\.(weight|bias)$",
            r"layers\.2\.mlp\.experts\.0\.gate_proj\.(weight|bias)$",
            r"layers\.2\.mlp\.experts\.0\.up_proj\.(weight|bias)$",
            r"layers\.2\.mlp\.experts\.0\.down_proj\.(weight|bias)$",
            r"layers\.2\.mlp\.experts\.1\.gate_proj\.(weight|bias)$",
            r"layers\.2\.mlp\.experts\.1\.up_proj\.(weight|bias)$",
            r"layers\.2\.mlp\.experts\.1\.down_proj\.(weight|bias)$",
        ]
    );
}

#[test]
fn pack_factors_of_text_models_are_looked_up() {
    let (embed, head) = (vec!["model.embed_tokens.weight"], "lm_head.weight");
    let cfg = granite_config();
    let r = GraniteMoeHybridLoader.pack_lookup(&cfg);
    assert_eq!((&r.embed_tokens, r.lm_head, r.tied), (&embed, head, cfg.tie_word_embeddings));
    let cfg = lfm2_config();
    let r = Lfm2Loader.pack_lookup(&cfg);
    assert_eq!((&r.embed_tokens, r.lm_head, r.tied), (&embed, head, cfg.tie_word_embeddings));
    let cfg = qwen3_next_config();
    let r = Qwen3NextLoader.pack_lookup(&cfg);
    assert_eq!((&r.embed_tokens, r.lm_head, r.tied), (&embed, head, cfg.tie_word_embeddings));
    let cfg = deepseek3_config();
    let r = DeepSeekV3Loader.pack_lookup(&cfg);
    assert_eq!((&r.embed_tokens, r.lm_head, r.tied), (&embed, head, cfg.tie_word_embeddings));
}
