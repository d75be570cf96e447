use inference::loaders::json::{
    incremental_cache, limited_config, supports_gemma4_incremental_cache,
};
use inference::loaders::multimodal::muse_glimmer::MuseGlimmerLoader;
use inference::loaders::multimodal::qwen3vl::qwen3_video_sampling;
use inference::loaders::names::{MultimodalLoaderType, NormalLoaderType};
use inference::loaders::normal::auto::AutoNormalLoader;
use inference::loaders::patterns::compile_patterns;
use inference::loaders::placement::{
    get_device_for_nested_tensor, get_device_for_rooted_tensor, get_device_for_tensor,
    parse_index, place_bounded, place_clamped, DeviceForLoadTensor,
};
use inference::loaders::{
    is_gptx_for, multimodal_runtime_config, runtime_config, LoaderError, RopePairing,
};

const NORMAL: [(&str, &str, NormalLoaderType); 26] = [
    ("MistralForCausalLM", "mistral", NormalLoaderType::Mistral),
    ("MixtralForCausalLM", "mixtral", NormalLoaderType::Mixtral),
    ("GemmaForCausalLM", "gemma", NormalLoaderType::Gemma),
    ("Gemma2ForCausalLM", "gemma2", NormalLoaderType::Gemma2),
    ("PhiForCausalLM", "phi2", NormalLoaderType::Phi2),
    ("Phi3ForCausalLM", "phi3", NormalLoaderType::Phi3),
    ("LlamaForCausalLM", "llama", NormalLoaderType::Llama),
    ("Qwen2ForCausalLM", "qwen2", NormalLoaderType::Qwen2),
    ("Starcoder2ForCausalLM", "starcoder2", NormalLoaderType::Starcoder2),
    ("PhiMoEForCausalLM", "phi3.5moe", NormalLoaderType::Phi3_5MoE),
    ("DeepseekV2ForCausalLM", "deepseekv2", NormalLoaderType::DeepSeekV2),
    ("DeepseekV3ForCausalLM", "deepseekv3", NormalLoaderType::DeepSeekV3),
    ("Qwen3ForCausalLM", "qwen3", NormalLoaderType::Qwen3),
    ("Glm4ForCausalLM", "glm4", NormalLoaderType::GLM4),
    ("Glm4MoeLiteForCausalLM", "glm4moelite", NormalLoaderType::GLM4MoeLite),
    ("Glm4MoeForCausalLM", "glm4moe", NormalLoaderType::GLM4Moe),
    ("Qwen3MoeForCausalLM", "qwen3moe", NormalLoaderType::Qwen3Moe),
    ("SmolLM3ForCausalLM", "smollm3", NormalLoaderType::SmolLm3),
    ("GraniteMoeHybridForCausalLM", "granitemoehybrid", NormalLoaderType::GraniteMoeHybrid),
    ("GptOssForCausalLM", "gpt_oss", NormalLoaderType::GptOss),
    ("HunYuanDenseV1ForCausalLM", "hunyuanv1dense", NormalLoaderType::HunYuanDenseV1),
    ("HunYuanMoEV1ForCausalLM", "hunyuanv1moe", NormalLoaderType::HunYuanMoEV1),
    ("Qwen3NextForCausalLM", "qwen3next", NormalLoaderType::Qwen3Next),
    ("Qwen3_5ForCausalLM", "qwen3_5", NormalLoaderType::Qwen3_5),
    ("Lfm2ForCausalLM", "lfm2", NormalLoaderType::Lfm2),
    ("Lfm2MoeForCausalLM", "lfm2_moe", NormalLoaderType::Lfm2Moe),
];

#[test]
fn normal_names_read_back() {
    for (class, name, t) in NORMAL {
        assert!(matches!(NormalLoaderType::from_causal_lm_name(class), Ok(x) if x == t));
        assert!(matches!(NormalLoaderType::from_str(name), Ok(x) if x == t));
        assert_eq!(t.causal_lm_name(), class);
        assert_eq!(t.name(), name);
    }
    let unknown = NormalLoaderType::from_causal_lm_name("Nope").err().unwrap();
    assert_eq!(
        unknown.message(),
        "Unsupported Hugging Face Transformers -CausalLM model class `Nope`. Please raise an issue."
    );
    let unknown = NormalLoaderType::from_str("nope").err().unwrap().message();
    assert!(
        unknown.starts_with("Unknown architecture `nope`. Possible architectures: `mistral`, "),
    );
    assert!(unknown.ends_with("`lfm2`, `lfm2_moe`."));
}

#[test]
fn automatic_loader() {
    let names = |v: &[&str]| v.iter().map(|s| s.to_string()).collect::<Vec<String>>();
    let found = AutoNormalLoader::get_loader(&names(&["LlamaForCausalLM"]));
    assert!(matches!(found, Ok(NormalLoaderType::Llama)));
    let shared = AutoNormalLoader::get_loader(&names(&["Lfm2MoeForCausalLM"]));
    assert!(matches!(shared, Ok(NormalLoaderType::Lfm2)));
    let none = AutoNormalLoader::get_loader(&names(&[])).err().unwrap();
    assert_eq!(none.message(), "Expected to have one name for `architectures` config field.");
    assert!(AutoNormalLoader::get_loader(&names(&["A", "B"])).is_err());
    let unknown = AutoNormalLoader::get_loader(&names(&["A"]));
    assert!(matches!(unknown, Err(LoaderError::UnsupportedClass(s)) if s == "A"));
    assert_eq!(AutoNormalLoader.non_mapped_max_act_size_elems(), 0);
}

const MULTIMODAL: [(&str, &str, MultimodalLoaderType); 24] = [
    ("Phi3VForCausalLM", "phi3v", MultimodalLoaderType::Phi3V),
    ("Idefics2ForConditionalGeneration", "idefics2", MultimodalLoaderType::Idefics2),
    ("LlavaNextForConditionalGeneration", "llava_next", MultimodalLoaderType::LLaVANext),
    ("LlavaForConditionalGeneration", "llava", MultimodalLoaderType::LLaVA),
    ("Lfm2VlForConditionalGeneration", "lfm2vl", MultimodalLoaderType::Lfm2Vl),
    ("MllamaForConditionalGeneration", "vllama", MultimodalLoaderType::VLlama),
    ("Qwen2VLForConditionalGeneration", "qwen2vl", MultimodalLoaderType::Qwen2VL),
    ("Idefics3ForConditionalGeneration", "idefics3", MultimodalLoaderType::Idefics3),
    ("MiniCPMO", "minicpmo", MultimodalLoaderType::MiniCpmO),
    ("Phi4MMForCausalLM", "phi4mm", MultimodalLoaderType::Phi4MM),
    ("Qwen2_5_VLForConditionalGeneration", "qwen2_5vl", MultimodalLoaderType::Qwen2_5VL),
    ("Gemma3ForConditionalGeneration", "gemma3", MultimodalLoaderType::Gemma3),
    ("Mistral3ForConditionalGeneration", "mistral3", MultimodalLoaderType::Mistral3),
    ("Llama4ForConditionalGeneration", "llama4", MultimodalLoaderType::Llama4),
    ("Gemma3nForConditionalGeneration", "gemma3n", MultimodalLoaderType::Gemma3n),
    ("Gemma4ForConditionalGeneration", "gemma4", MultimodalLoaderType::Gemma4),
    ("MuseGlimmerForConditionalGeneration", "muse_glimmer", MultimodalLoaderType::MuseGlimmer),
    ("DiffusionGemmaForBlockDiffusion", "diffusiongemma", MultimodalLoaderType::DiffusionGemma),
    ("PaddleOCRVLForConditionalGeneration", "paddleocr_vl", MultimodalLoaderType::PaddleOcrVl),
    ("Qwen3VLForConditionalGeneration", "qwen3vl", MultimodalLoaderType::Qwen3VL),
    ("Qwen3VLMoeForConditionalGeneration", "qwen3vlmoe", MultimodalLoaderType::Qwen3VLMoE),
    ("Qwen3_5ForConditionalGeneration", "qwen3_5", MultimodalLoaderType::Qwen3_5),
    ("Qwen3_5MoeForConditionalGeneration", "qwen3_5moe", MultimodalLoaderType::Qwen3_5Moe),
    ("VoxtralRealtimeForConditionalGeneration", "voxtral", MultimodalLoaderType::Voxtral),
];

#[test]
fn multimodal_names_read_back() {
    for (class, name, t) in MULTIMODAL {
        assert!(matches!(MultimodalLoaderType::from_causal_lm_name(class), Ok(x) if x == t));
        assert!(matches!(MultimodalLoaderType::from_str(name), Ok(x) if x == t));
        assert_eq!(t.name(), name);
    }
    let gemma3 = MultimodalLoaderType::from_causal_lm_name("Gemma3ForCausalLM");
    assert!(matches!(gemma3, Ok(MultimodalLoaderType::Gemma3)));
    let gemma4 = [
        "Gemma4ForCausalLM",
        "Gemma4UnifiedForConditionalGeneration",
        "Gemma4UnifiedForCausalLM",
    ];
    // With these, as many classes as are accepted.
    assert_eq!(MULTIMODAL.len() + 1 + gemma4.len(), 28);
    for class in gemma4 {
        let gemma4 = MultimodalLoaderType::from_causal_lm_name(class);
        assert!(matches!(gemma4, Ok(MultimodalLoaderType::Gemma4)));
    }
    assert!(matches!(MultimodalLoaderType::from_str("lfm2_vl"), Ok(MultimodalLoaderType::Lfm2Vl)));
    let glimmer = MultimodalLoaderType::from_str("museglimmer");
    assert!(matches!(glimmer, Ok(MultimodalLoaderType::MuseGlimmer)));
    assert!(MultimodalLoaderType::from_causal_lm_name("Nope").is_err());
    let unknown = MultimodalLoaderType::from_str("nope").err().unwrap().message();
    assert!(unknown.starts_with("Unknown architecture `nope`. Possible architectures: `phi3v`, "));
}

#[test]
fn no_class_is_both_normal_and_multimodal() {
    for (class, _, _) in NORMAL {
        assert!(MultimodalLoaderType::from_causal_lm_name(class).is_err());
    }
    for (class, _, _) in MULTIMODAL {
        assert!(NormalLoaderType::from_causal_lm_name(class).is_err());
    }
    for class in ["Gemma3ForCausalLM", "Gemma4ForCausalLM", "Gemma4UnifiedForCausalLM"] {
        assert!(NormalLoaderType::from_causal_lm_name(class).is_err());
    }
}

#[test]
fn tensors_go_to_their_layers() {
    let at = |name: &str| get_device_for_tensor(name, 4, false);
    assert_eq!(at("model.layers.2.mlp.weight"), DeviceForLoadTensor::Idx(2));
    assert_eq!(at("model.layers.9.mlp.weight"), DeviceForLoadTensor::Idx(4));
    assert_eq!(at("model.norm.weight"), DeviceForLoadTensor::Base);
    assert_eq!(at("model.layers.99999999999999999999.w"), DeviceForLoadTensor::Base);
    let quantizing = get_device_for_tensor("model.layers.2.mlp.weight", 4, true);
    assert_eq!(quantizing, DeviceForLoadTensor::Base);
    let nested = |name: &str| get_device_for_nested_tensor(name, 4, false);
    assert_eq!(nested("x.model.language_model.layers.3.w"), DeviceForLoadTensor::Idx(3));
    assert_eq!(nested("model.layers.3.w"), DeviceForLoadTensor::Base);
    let rooted = |name: &str| get_device_for_rooted_tensor(name, 4, false);
    assert_eq!(rooted("model.language_model.layers.3.w"), DeviceForLoadTensor::Idx(3));
    assert_eq!(rooted("x.model.language_model.layers.3.w"), DeviceForLoadTensor::Base);
    assert_eq!(rooted("model.language_model.layers.4.w"), DeviceForLoadTensor::Base);
}

#[test]
fn layer_indices() {
    assert_eq!(parse_index("0"), Some(0));
    assert_eq!(parse_index("0042"), Some(42));
    assert_eq!(parse_index(""), None);
    assert_eq!(parse_index("4x"), None);
    assert_eq!(parse_index("+4"), None);
    assert_eq!(parse_index(&usize::MAX.to_string()), Some(usize::MAX));
    assert_eq!(parse_index(&format!("{}0", usize::MAX)), None);
    let group = |s: &str| Some(Some(s.to_string()));
    assert_eq!(place_clamped(group("7"), 3), DeviceForLoadTensor::Idx(3));
    assert_eq!(place_clamped(group("x"), 3), DeviceForLoadTensor::Base);
    assert_eq!(place_clamped(None, 3), DeviceForLoadTensor::Base);
    assert_eq!(place_clamped(Some(None), 3), DeviceForLoadTensor::Base);
    assert_eq!(place_bounded(group("2"), 3), DeviceForLoadTensor::Idx(2));
    assert_eq!(place_bounded(group("3"), 3), DeviceForLoadTensor::Base);
}

#[test]
fn patterns_compile_and_match() {
    let patterns = vec![r"layers\.(\d+)\.mlp\.up_proj\.(weight|bias)$".to_string()];
    let compiled = compile_patterns(&patterns).ok().unwrap();
    assert_eq!(compiled.len(), 1);
    assert!(compiled[0].is_match("model.layers.17.mlp.up_proj.weight"));
    assert!(!compiled[0].is_match("model.layers.17.mlp.up_proj.scale"));
    let broken = vec!["ok".to_string(), "(".to_string(), "[".to_string()];
    let Err(LoaderError::Pattern(message)) = compile_patterns(&broken) else {
        panic!("a broken pattern compiles");
    };
    assert_eq!(message, regex::Regex::new("(").unwrap_err().to_string());
}

#[test]
fn bidirectional_attention_rules_the_cache_out() {
    let config = |mode: &str| {
        format!("{{\"text_config\":{{\"use_bidirectional_attention\":{mode}}}}}")
    };
    assert!(!supports_gemma4_incremental_cache(&config("\"all\"")));
    assert!(supports_gemma4_incremental_cache(&config("\"vision\"")));
    assert!(supports_gemma4_incremental_cache(&config("null")));
    assert!(supports_gemma4_incremental_cache("{}"));
    assert!(supports_gemma4_incremental_cache("not a document"));
    assert!(!incremental_cache(Some("all".to_string())));
    assert!(incremental_cache(Some("ALL".to_string())));
    assert!(incremental_cache(None));
}

#[test]
fn length_limits() {
    assert!(matches!(runtime_config("c", None), Ok("c")));
    let refused = runtime_config("c", Some(8)).err().unwrap();
    assert_eq!(refused.message(), "max_model_len=8 is not supported by this model loader");
    assert!(matches!(multimodal_runtime_config("c", None), Ok("c")));
    let refused = multimodal_runtime_config("c", Some(8)).err().unwrap();
    assert_eq!(refused.message(), "max_model_len=8 is not supported by this multimodal loader");
    let config = "{\"text_config\":{\"max_position_embeddings\":100},\"x\":1}";
    let run = |config: &str, limit| MuseGlimmerLoader.runtime_config(config, Ok(100), limit);
    assert!(matches!(run(config, None), Ok(s) if s == config));
    assert!(matches!(run(config, Some(100)), Ok(s) if s == config));
    let limited = run(config, Some(40)).ok().unwrap();
    assert_eq!(limited, "{\"text_config\":{\"max_position_embeddings\":40},\"x\":1}");
    let zero = run(config, Some(0)).err().unwrap();
    assert_eq!(zero.message(), "max_model_len must be greater than zero");
    let missing = run("{}", Some(40)).err().unwrap();
    assert_eq!(missing.message(), "Muse-Glimmer config is missing text_config");
    assert!(matches!(run("{", Some(40)), Err(LoaderError::Config(_))));
    let unread = MuseGlimmerLoader.runtime_config(config, Err("no".to_string()), Some(40));
    assert!(matches!(unread, Err(LoaderError::Config(s)) if s == "no"));
    assert!(matches!(limited_config(Ok(Some("d".to_string()))), Ok(s) if s == "d"));
    assert!(matches!(limited_config(Ok(None)), Err(LoaderError::MissingTextConfig)));
}

#[test]
fn rotary_pairing() {
    assert!(is_gptx_for(None, None, true));
    assert!(!is_gptx_for(None, None, false));
    assert!(!is_gptx_for(None, Some(RopePairing::Adjacent), true));
    assert!(is_gptx_for(Some(RopePairing::HalfSplit), Some(RopePairing::Adjacent), false));
    assert!(!is_gptx_for(Some(RopePairing::Adjacent), Some(RopePairing::HalfSplit), true));
}

#[test]
fn messages_of_refusals() {
    let texts = [
        (LoaderError::ExpectedText, "Expected text AutoDeviceMapParams for this model!"),
        (
            LoaderError::ExpectedMultimodal,
            "Expected multimodal AutoDeviceMapParams for this model!",
        ),
        (LoaderError::GraniteXLora, "GraniteMoeHybrid does not support X-LoRA"),
        (LoaderError::Lfm2XLora, "LFM2 does not support X-LoRA"),
        (LoaderError::Qwen3NextXLora, "Qwen3Next does not support X-LoRA"),
        (LoaderError::Pattern("p".to_string()), "p"),
    ];
    for (e, text) in texts {
        assert_eq!(e.message(), text);
    }
}

#[test]
fn video_sampling() {
    let sampling = qwen3_video_sampling();
    assert_eq!((sampling.fps, sampling.min_frames, sampling.max_frames), (2, 4, 768));
}

#[test]
fn model_types_of_configurations() {
    assert_eq!(NormalLoaderType::Phi2.model_type_name(), "phi");
    assert_eq!(NormalLoaderType::Phi3_5MoE.model_type_name(), "phimoe");
    assert_eq!(NormalLoaderType::Qwen3_5.model_type_name(), "qwen3_5_text");
    assert_eq!(NormalLoaderType::HunYuanDenseV1.model_type_name(), "hunyuan_v1_dense");
    assert_eq!(NormalLoaderType::Lfm2Moe.model_type_name(), "lfm2_moe");
}
