//! The names under which model architectures are known.

use vstd::prelude::*;

use crate::loaders::LoaderError;
use crate::text::same_text;

verus! {

/// The architecture to load the normal model as.
#[derive(Debug, Clone, Copy, PartialEq, Eq, Structural)]
pub enum NormalLoaderType {
    Mistral,
    Gemma,
    Mixtral,
    Llama,
    Phi2,
    Phi3,
    Qwen2,
    Gemma2,
    Starcoder2,
    Phi3_5MoE,
    DeepSeekV2,
    DeepSeekV3,
    Qwen3,
    GLM4,
    GLM4MoeLite,
    GLM4Moe,
    Qwen3Moe,
    SmolLm3,
    GraniteMoeHybrid,
    GptOss,
    HunYuanDenseV1,
    HunYuanMoEV1,
    Qwen3Next,
    Qwen3_5,
    Lfm2,
    Lfm2Moe,
}

impl NormalLoaderType {
    /// The Hugging Face Transformers model class.
    pub open spec fn causal_lm_text(self) -> Seq<char> {
        match self {
            NormalLoaderType::Mistral => "MistralForCausalLM"@,
            NormalLoaderType::Gemma => "GemmaForCausalLM"@,
            NormalLoaderType::Mixtral => "MixtralForCausalLM"@,
            NormalLoaderType::Llama => "LlamaForCausalLM"@,
            NormalLoaderType::Phi2 => "PhiForCausalLM"@,
            NormalLoaderType::Phi3 => "Phi3ForCausalLM"@,
            NormalLoaderType::Qwen2 => "Qwen2ForCausalLM"@,
            NormalLoaderType::Gemma2 => "Gemma2ForCausalLM"@,
            NormalLoaderType::Starcoder2 => "Starcoder2ForCausalLM"@,
            NormalLoaderType::Phi3_5MoE => "PhiMoEForCausalLM"@,
            NormalLoaderType::DeepSeekV2 => "DeepseekV2ForCausalLM"@,
            NormalLoaderType::DeepSeekV3 => "DeepseekV3ForCausalLM"@,
            NormalLoaderType::Qwen3 => "Qwen3ForCausalLM"@,
            NormalLoaderType::GLM4 => "Glm4ForCausalLM"@,
            NormalLoaderType::GLM4MoeLite => "Glm4MoeLiteForCausalLM"@,
            NormalLoaderType::GLM4Moe => "Glm4MoeForCausalLM"@,
            NormalLoaderType::Qwen3Moe => "Qwen3MoeForCausalLM"@,
            NormalLoaderType::SmolLm3 => "SmolLM3ForCausalLM"@,
            NormalLoaderType::GraniteMoeHybrid => "GraniteMoeHybridForCausalLM"@,
            NormalLoaderType::GptOss => "GptOssForCausalLM"@,
            NormalLoaderType::HunYuanDenseV1 => "HunYuanDenseV1ForCausalLM"@,
            NormalLoaderType::HunYuanMoEV1 => "HunYuanMoEV1ForCausalLM"@,
            NormalLoaderType::Qwen3Next => "Qwen3NextForCausalLM"@,
            NormalLoaderType::Qwen3_5 => "Qwen3_5ForCausalLM"@,
            NormalLoaderType::Lfm2 => "Lfm2ForCausalLM"@,
            NormalLoaderType::Lfm2Moe => "Lfm2MoeForCausalLM"@,
        }
    }

    /// The Hugging Face Transformers model class.
    pub fn causal_lm_name(&self) -> (r: &'static str)
        ensures
            r@ == self.causal_lm_text(),
    {
        match self {
            NormalLoaderType::Mistral => "MistralForCausalLM",
            NormalLoaderType::Gemma => "GemmaForCausalLM",
            NormalLoaderType::Mixtral => "MixtralForCausalLM",
            NormalLoaderType::Llama => "LlamaForCausalLM",
            NormalLoaderType::Phi2 => "PhiForCausalLM",
            NormalLoaderType::Phi3 => "Phi3ForCausalLM",
            NormalLoaderType::Qwen2 => "Qwen2ForCausalLM",
            NormalLoaderType::Gemma2 => "Gemma2ForCausalLM",
            NormalLoaderType::Starcoder2 => "Starcoder2ForCausalLM",
            NormalLoaderType::Phi3_5MoE => "PhiMoEForCausalLM",
            NormalLoaderType::DeepSeekV2 => "DeepseekV2ForCausalLM",
            NormalLoaderType::DeepSeekV3 => "DeepseekV3ForCausalLM",
            NormalLoaderType::Qwen3 => "Qwen3ForCausalLM",
            NormalLoaderType::GLM4 => "Glm4ForCausalLM",
            NormalLoaderType::GLM4MoeLite => "Glm4MoeLiteForCausalLM",
            NormalLoaderType::GLM4Moe => "Glm4MoeForCausalLM",
            NormalLoaderType::Qwen3Moe => "Qwen3MoeForCausalLM",
            NormalLoaderType::SmolLm3 => "SmolLM3ForCausalLM",
            NormalLoaderType::GraniteMoeHybrid => "GraniteMoeHybridForCausalLM",
            NormalLoaderType::GptOss => "GptOssForCausalLM",
            NormalLoaderType::HunYuanDenseV1 => "HunYuanDenseV1ForCausalLM",
            NormalLoaderType::HunYuanMoEV1 => "HunYuanMoEV1ForCausalLM",
            NormalLoaderType::Qwen3Next => "Qwen3NextForCausalLM",
            NormalLoaderType::Qwen3_5 => "Qwen3_5ForCausalLM",
            NormalLoaderType::Lfm2 => "Lfm2ForCausalLM",
            NormalLoaderType::Lfm2Moe => "Lfm2MoeForCausalLM",
        }
    }

    /// The `model_type` of a configuration.
    pub open spec fn model_type_text(self) -> Seq<char> {
        match self {
            NormalLoaderType::Mistral => "mistral"@,
            NormalLoaderType::Gemma => "gemma"@,
            NormalLoaderType::Mixtral => "mixtral"@,
            NormalLoaderType::Llama => "llama"@,
            NormalLoaderType::Phi2 => "phi"@,
            NormalLoaderType::Phi3 => "phi3"@,
            NormalLoaderType::Qwen2 => "qwen2"@,
            NormalLoaderType::Gemma2 => "gemma2"@,
            NormalLoaderType::Starcoder2 => "starcoder2"@,
            NormalLoaderType::Phi3_5MoE => "phimoe"@,
            NormalLoaderType::DeepSeekV2 => "deepseek_v2"@,
            NormalLoaderType::DeepSeekV3 => "deepseek_v3"@,
            NormalLoaderType::Qwen3 => "qwen3"@,
            NormalLoaderType::GLM4 => "glm4"@,
            NormalLoaderType::GLM4MoeLite => "glm4_moe_lite"@,
            NormalLoaderType::GLM4Moe => "glm4_moe"@,
            NormalLoaderType::Qwen3Moe => "qwen3_moe"@,
            NormalLoaderType::SmolLm3 => "smollm3"@,
            NormalLoaderType::GraniteMoeHybrid => "granitemoehybrid"@,
            NormalLoaderType::GptOss => "gpt_oss"@,
            NormalLoaderType::HunYuanDenseV1 => "hunyuan_v1_dense"@,
            NormalLoaderType::HunYuanMoEV1 => "hunyuan_v1_moe"@,
            NormalLoaderType::Qwen3Next => "qwen3_next"@,
            NormalLoaderType::Qwen3_5 => "qwen3_5_text"@,
            NormalLoaderType::Lfm2 => "lfm2"@,
            NormalLoaderType::Lfm2Moe => "lfm2_moe"@,
        }
    }

    /// The `model_type` of a configuration.
    pub fn model_type_name(&self) -> (r: &'static str)
        ensures
            r@ == self.model_type_text(),
    {
        match self {
            NormalLoaderType::Mistral => "mistral",
            NormalLoaderType::Gemma => "gemma",
            NormalLoaderType::Mixtral => "mixtral",
            NormalLoaderType::Llama => "llama",
            NormalLoaderType::Phi2 => "phi",
            NormalLoaderType::Phi3 => "phi3",
            NormalLoaderType::Qwen2 => "qwen2",
            NormalLoaderType::Gemma2 => "gemma2",
            NormalLoaderType::Starcoder2 => "starcoder2",
            NormalLoaderType::Phi3_5MoE => "phimoe",
            NormalLoaderType::DeepSeekV2 => "deepseek_v2",
            NormalLoaderType::DeepSeekV3 => "deepseek_v3",
            NormalLoaderType::Qwen3 => "qwen3",
            NormalLoaderType::GLM4 => "glm4",
            NormalLoaderType::GLM4MoeLite => "glm4_moe_lite",
            NormalLoaderType::GLM4Moe => "glm4_moe",
            NormalLoaderType::Qwen3Moe => "qwen3_moe",
            NormalLoaderType::SmolLm3 => "smollm3",
            NormalLoaderType::GraniteMoeHybrid => "granitemoehybrid",
            NormalLoaderType::GptOss => "gpt_oss",
            NormalLoaderType::HunYuanDenseV1 => "hunyuan_v1_dense",
            NormalLoaderType::HunYuanMoEV1 => "hunyuan_v1_moe",
            NormalLoaderType::Qwen3Next => "qwen3_next",
            NormalLoaderType::Qwen3_5 => "qwen3_5_text",
            NormalLoaderType::Lfm2 => "lfm2",
            NormalLoaderType::Lfm2Moe => "lfm2_moe",
        }
    }

    /// The name of the architecture.
    pub open spec fn display_text(self) -> Seq<char> {
        match self {
            NormalLoaderType::Mistral => "mistral"@,
            NormalLoaderType::Gemma => "gemma"@,
            NormalLoaderType::Mixtral => "mixtral"@,
            NormalLoaderType::Llama => "llama"@,
            NormalLoaderType::Phi2 => "phi2"@,
            NormalLoaderType::Phi3 => "phi3"@,
            NormalLoaderType::Qwen2 => "qwen2"@,
            NormalLoaderType::Gemma2 => "gemma2"@,
            NormalLoaderType::Starcoder2 => "starcoder2"@,
            NormalLoaderType::Phi3_5MoE => "phi3.5moe"@,
            NormalLoaderType::DeepSeekV2 => "deepseekv2"@,
            NormalLoaderType::DeepSeekV3 => "deepseekv3"@,
            NormalLoaderType::Qwen3 => "qwen3"@,
            NormalLoaderType::GLM4 => "glm4"@,
            NormalLoaderType::GLM4MoeLite => "glm4moelite"@,
            NormalLoaderType::GLM4Moe => "glm4moe"@,
            NormalLoaderType::Qwen3Moe => "qwen3moe"@,
            NormalLoaderType::SmolLm3 => "smollm3"@,
            NormalLoaderType::GraniteMoeHybrid => "granitemoehybrid"@,
            NormalLoaderType::GptOss => "gpt_oss"@,
            NormalLoaderType::HunYuanDenseV1 => "hunyuanv1dense"@,
            NormalLoaderType::HunYuanMoEV1 => "hunyuanv1moe"@,
            NormalLoaderType::Qwen3Next => "qwen3next"@,
            NormalLoaderType::Qwen3_5 => "qwen3_5"@,
            NormalLoaderType::Lfm2 => "lfm2"@,
            NormalLoaderType::Lfm2Moe => "lfm2_moe"@,
        }
    }

    /// The name of the architecture.
    pub fn name(&self) -> (r: &'static str)
        ensures
            r@ == self.display_text(),
    {
        match self {
            NormalLoaderType::Mistral => "mistral",
            NormalLoaderType::Gemma => "gemma",
            NormalLoaderType::Mixtral => "mixtral",
            NormalLoaderType::Llama => "llama",
            NormalLoaderType::Phi2 => "phi2",
            NormalLoaderType::Phi3 => "phi3",
            NormalLoaderType::Qwen2 => "qwen2",
            NormalLoaderType::Gemma2 => "gemma2",
            NormalLoaderType::Starcoder2 => "starcoder2",
            NormalLoaderType::Phi3_5MoE => "phi3.5moe",
            NormalLoaderType::DeepSeekV2 => "deepseekv2",
            NormalLoaderType::DeepSeekV3 => "deepseekv3",
            NormalLoaderType::Qwen3 => "qwen3",
            NormalLoaderType::GLM4 => "glm4",
            NormalLoaderType::GLM4MoeLite => "glm4moelite",
            NormalLoaderType::GLM4Moe => "glm4moe",
            NormalLoaderType::Qwen3Moe => "qwen3moe",
            NormalLoaderType::SmolLm3 => "smollm3",
            NormalLoaderType::GraniteMoeHybrid => "granitemoehybrid",
            NormalLoaderType::GptOss => "gpt_oss",
            NormalLoaderType::HunYuanDenseV1 => "hunyuanv1dense",
            NormalLoaderType::HunYuanMoEV1 => "hunyuanv1moe",
            NormalLoaderType::Qwen3Next => "qwen3next",
            NormalLoaderType::Qwen3_5 => "qwen3_5",
            NormalLoaderType::Lfm2 => "lfm2",
            NormalLoaderType::Lfm2Moe => "lfm2_moe",
        }
    }

    /// The architecture whose model class has the given name.
    pub fn from_causal_lm_name(name: &str) -> (r: Result<Self, LoaderError>)
        ensures
            match r {
                Ok(t) => t.causal_lm_text() == name@,
                Err(e) => {
                    &&& e matches LoaderError::UnsupportedClass(n)
                    &&& n@ == name@
                    &&& forall|t: NormalLoaderType| #[trigger] t.causal_lm_text() != name@
                },
            },
    {
        if same_text(name, "MistralForCausalLM") {
            return Ok(NormalLoaderType::Mistral);
        }
        if same_text(name, "MixtralForCausalLM") {
            return Ok(NormalLoaderType::Mixtral);
        }
        if same_text(name, "GemmaForCausalLM") {
            return Ok(NormalLoaderType::Gemma);
        }
        if same_text(name, "Gemma2ForCausalLM") {
            return Ok(NormalLoaderType::Gemma2);
        }
        if same_text(name, "PhiForCausalLM") {
            return Ok(NormalLoaderType::Phi2);
        }
        if same_text(name, "Phi3ForCausalLM") {
            return Ok(NormalLoaderType::Phi3);
        }
        if same_text(name, "LlamaForCausalLM") {
            return Ok(NormalLoaderType::Llama);
        }
        if same_text(name, "Qwen2ForCausalLM") {
            return Ok(NormalLoaderType::Qwen2);
        }
        if same_text(name, "Starcoder2ForCausalLM") {
            return Ok(NormalLoaderType::Starcoder2);
        }
        if same_text(name, "PhiMoEForCausalLM") {
            return Ok(NormalLoaderType::Phi3_5MoE);
        }
        if same_text(name, "DeepseekV2ForCausalLM") {
            return Ok(NormalLoaderType::DeepSeekV2);
        }
        if same_text(name, "DeepseekV3ForCausalLM") {
            return Ok(NormalLoaderType::DeepSeekV3);
        }
        if same_text(name, "Qwen3ForCausalLM") {
            return Ok(NormalLoaderType::Qwen3);
        }
        if same_text(name, "Glm4ForCausalLM") {
            return Ok(NormalLoaderType::GLM4);
        }
        if same_text(name, "Glm4MoeLiteForCausalLM") {
            return Ok(NormalLoaderType::GLM4MoeLite);
        }
        if same_text(name, "Glm4MoeForCausalLM") {
            return Ok(NormalLoaderType::GLM4Moe);
        }
        if same_text(name, "Qwen3MoeForCausalLM") {
            return Ok(NormalLoaderType::Qwen3Moe);
        }
        if same_text(name, "SmolLM3ForCausalLM") {
            return Ok(NormalLoaderType::SmolLm3);
        }
        if same_text(name, "GraniteMoeHybridForCausalLM") {
            return Ok(NormalLoaderType::GraniteMoeHybrid);
        }
        if same_text(name, "GptOssForCausalLM") {
            return Ok(NormalLoaderType::GptOss);
        }
        if same_text(name, "HunYuanDenseV1ForCausalLM") {
            return Ok(NormalLoaderType::HunYuanDenseV1);
        }
        if same_text(name, "HunYuanMoEV1ForCausalLM") {
            return Ok(NormalLoaderType::HunYuanMoEV1);
        }
        if same_text(name, "Qwen3NextForCausalLM") {
            return Ok(NormalLoaderType::Qwen3Next);
        }
        if same_text(name, "Qwen3_5ForCausalLM") {
            return Ok(NormalLoaderType::Qwen3_5);
        }
        if same_text(name, "Lfm2ForCausalLM") {
            return Ok(NormalLoaderType::Lfm2);
        }
        if same_text(name, "Lfm2MoeForCausalLM") {
            return Ok(NormalLoaderType::Lfm2Moe);
        }
        Err(LoaderError::UnsupportedClass(name.to_owned()))
    }

    /// The architecture of the given name.
    pub fn from_str(s: &str) -> (r: Result<Self, LoaderError>)
        ensures
            match r {
                Ok(t) => t.display_text() == s@,
                Err(e) => {
                    &&& e matches LoaderError::UnknownArchitecture(n)
                    &&& n@ == s@
                    &&& forall|t: NormalLoaderType| #[trigger] t.display_text() != s@
                },
            },
    {
        if same_text(s, "mistral") {
            return Ok(NormalLoaderType::Mistral);
        }
        if same_text(s, "gemma") {
            return Ok(NormalLoaderType::Gemma);
        }
        if same_text(s, "mixtral") {
            return Ok(NormalLoaderType::Mixtral);
        }
        if same_text(s, "llama") {
            return Ok(NormalLoaderType::Llama);
        }
        if same_text(s, "phi2") {
            return Ok(NormalLoaderType::Phi2);
        }
        if same_text(s, "phi3") {
            return Ok(NormalLoaderType::Phi3);
        }
        if same_text(s, "qwen2") {
            return Ok(NormalLoaderType::Qwen2);
        }
        if same_text(s, "gemma2") {
            return Ok(NormalLoaderType::Gemma2);
        }
        if same_text(s, "starcoder2") {
            return Ok(NormalLoaderType::Starcoder2);
        }
        if same_text(s, "phi3.5moe") {
            return Ok(NormalLoaderType::Phi3_5MoE);
        }
        if same_text(s, "deepseekv2") {
            return Ok(NormalLoaderType::DeepSeekV2);
        }
        if same_text(s, "deepseekv3") {
            return Ok(NormalLoaderType::DeepSeekV3);
        }
        if same_text(s, "qwen3") {
            return Ok(NormalLoaderType::Qwen3);
        }
        if same_text(s, "glm4") {
            return Ok(NormalLoaderType::GLM4);
        }
        if same_text(s, "glm4moelite") {
            return Ok(NormalLoaderType::GLM4MoeLite);
        }
        if same_text(s, "glm4moe") {
            return Ok(NormalLoaderType::GLM4Moe);
        }
        if same_text(s, "qwen3moe") {
            return Ok(NormalLoaderType::Qwen3Moe);
        }
        if same_text(s, "smollm3") {
            return Ok(NormalLoaderType::SmolLm3);
        }
        if same_text(s, "granitemoehybrid") {
            return Ok(NormalLoaderType::GraniteMoeHybrid);
        }
        if same_text(s, "gpt_oss") {
            return Ok(NormalLoaderType::GptOss);
        }
        if same_text(s, "hunyuanv1dense") {
            return Ok(NormalLoaderType::HunYuanDenseV1);
        }
        if same_text(s, "hunyuanv1moe") {
            return Ok(NormalLoaderType::HunYuanMoEV1);
        }
        if same_text(s, "qwen3next") {
            return Ok(NormalLoaderType::Qwen3Next);
        }
        if same_text(s, "qwen3_5") {
            return Ok(NormalLoaderType::Qwen3_5);
        }
        if same_text(s, "lfm2") {
            return Ok(NormalLoaderType::Lfm2);
        }
        if same_text(s, "lfm2_moe") {
            return Ok(NormalLoaderType::Lfm2Moe);
        }
        Err(LoaderError::UnknownArchitecture(s.to_owned()))
    }
}

/// Different architectures have different model classes, so a class is read back
/// as the architecture that has it.
pub proof fn law_causal_lm_names_differ(a: NormalLoaderType, b: NormalLoaderType)
    requires
        a.causal_lm_text() == b.causal_lm_text(),
    ensures
        a == b,
{
    reveal_strlit("MistralForCausalLM");
    assert(
        "MistralForCausalLM"@.len() == 18 && "MistralForCausalLM"@[1] == 'i'
            && "MistralForCausalLM"@[2] == 's' && "MistralForCausalLM"@[4] == 'r'
            && "MistralForCausalLM"@[9] == 'r'
    );
    reveal_strlit("GemmaForCausalLM");
    assert(
        "GemmaForCausalLM"@.len() == 16 && "GemmaForCausalLM"@[1] == 'e'
            && "GemmaForCausalLM"@[2] == 'm' && "GemmaForCausalLM"@[4] == 'a'
            && "GemmaForCausalLM"@[9] == 'a'
    );
    reveal_strlit("MixtralForCausalLM");
    assert(
        "MixtralForCausalLM"@.len() == 18 && "MixtralForCausalLM"@[1] == 'i'
            && "MixtralForCausalLM"@[2] == 'x' && "MixtralForCausalLM"@[4] == 'r'
            && "MixtralForCausalLM"@[9] == 'r'
    );
    reveal_strlit("LlamaForCausalLM");
    assert(
        "LlamaForCausalLM"@.len() == 16 && "LlamaForCausalLM"@[1] == 'l'
            && "LlamaForCausalLM"@[2] == 'a' && "LlamaForCausalLM"@[4] == 'a'
            && "LlamaForCausalLM"@[9] == 'a'
    );
    reveal_strlit("PhiForCausalLM");
    assert(
        "PhiForCausalLM"@.len() == 14 && "PhiForCausalLM"@[1] == 'h' && "PhiForCausalLM"@[2] == 'i'
            && "PhiForCausalLM"@[4] == 'o' && "PhiForCausalLM"@[9] == 's'
    );
    reveal_strlit("Phi3ForCausalLM");
    assert(
        "Phi3ForCausalLM"@.len() == 15 && "Phi3ForCausalLM"@[1] == 'h'
            && "Phi3ForCausalLM"@[2] == 'i' && "Phi3ForCausalLM"@[4] == 'F'
            && "Phi3ForCausalLM"@[9] == 'u'
    );
    reveal_strlit("Qwen2ForCausalLM");
    assert(
        "Qwen2ForCausalLM"@.len() == 16 && "Qwen2ForCausalLM"@[1] == 'w'
            && "Qwen2ForCausalLM"@[2] == 'e' && "Qwen2ForCausalLM"@[4] == '2'
            && "Qwen2ForCausalLM"@[9] == 'a'
    );
    reveal_strlit("Gemma2ForCausalLM");
    assert(
        "Gemma2ForCausalLM"@.len() == 17 && "Gemma2ForCausalLM"@[1] == 'e'
            && "Gemma2ForCausalLM"@[2] == 'm' && "Gemma2ForCausalLM"@[4] == 'a'
            && "Gemma2ForCausalLM"@[9] == 'C'
    );
    reveal_strlit("Starcoder2ForCausalLM");
    assert(
        "Starcoder2ForCausalLM"@.len() == 21 && "Starcoder2ForCausalLM"@[1] == 't'
            && "Starcoder2ForCausalLM"@[2] == 'a' && "Starcoder2ForCausalLM"@[4] == 'c'
            && "Starcoder2ForCausalLM"@[9] == '2'
    );
    reveal_strlit("PhiMoEForCausalLM");
    assert(
        "PhiMoEForCausalLM"@.len() == 17 && "PhiMoEForCausalLM"@[1] == 'h'
            && "PhiMoEForCausalLM"@[2] == 'i' && "PhiMoEForCausalLM"@[4] == 'o'
            && "PhiMoEForCausalLM"@[9] == 'C'
    );
    reveal_strlit("DeepseekV2ForCausalLM");
    assert(
        "DeepseekV2ForCausalLM"@.len() == 21 && "DeepseekV2ForCausalLM"@[1] == 'e'
            && "DeepseekV2ForCausalLM"@[2] == 'e' && "DeepseekV2ForCausalLM"@[4] == 's'
            && "DeepseekV2ForCausalLM"@[9] == '2'
    );
    reveal_strlit("DeepseekV3ForCausalLM");
    assert(
        "DeepseekV3ForCausalLM"@.len() == 21 && "DeepseekV3ForCausalLM"@[1] == 'e'
            && "DeepseekV3ForCausalLM"@[2] == 'e' && "DeepseekV3ForCausalLM"@[4] == 's'
            && "DeepseekV3ForCausalLM"@[9] == '3'
    );
    reveal_strlit("Qwen3ForCausalLM");
    assert(
        "Qwen3ForCausalLM"@.len() == 16 && "Qwen3ForCausalLM"@[1] == 'w'
            && "Qwen3ForCausalLM"@[2] == 'e' && "Qwen3ForCausalLM"@[4] == '3'
            && "Qwen3ForCausalLM"@[9] == 'a'
    );
    reveal_strlit("Glm4ForCausalLM");
    assert(
        "Glm4ForCausalLM"@.len() == 15 && "Glm4ForCausalLM"@[1] == 'l'
            && "Glm4ForCausalLM"@[2] == 'm' && "Glm4ForCausalLM"@[4] == 'F'
            && "Glm4ForCausalLM"@[9] == 'u'
    );
    reveal_strlit("Glm4MoeLiteForCausalLM");
    assert(
        "Glm4MoeLiteForCausalLM"@.len() == 22 && "Glm4MoeLiteForCausalLM"@[1] == 'l'
            && "Glm4MoeLiteForCausalLM"@[2] == 'm' && "Glm4MoeLiteForCausalLM"@[4] == 'M'
            && "Glm4MoeLiteForCausalLM"@[9] == 't'
    );
    reveal_strlit("Glm4MoeForCausalLM");
    assert(
        "Glm4MoeForCausalLM"@.len() == 18 && "Glm4MoeForCausalLM"@[1] == 'l'
            && "Glm4MoeForCausalLM"@[2] == 'm' && "Glm4MoeForCausalLM"@[4] == 'M'
            && "Glm4MoeForCausalLM"@[9] == 'r'
    );
    reveal_strlit("Qwen3MoeForCausalLM");
    assert(
        "Qwen3MoeForCausalLM"@.len() == 19 && "Qwen3MoeForCausalLM"@[1] == 'w'
            && "Qwen3MoeForCausalLM"@[2] == 'e' && "Qwen3MoeForCausalLM"@[4] == '3'
            && "Qwen3MoeForCausalLM"@[9] == 'o'
    );
    reveal_strlit("SmolLM3ForCausalLM");
    assert(
        "SmolLM3ForCausalLM"@.len() == 18 && "SmolLM3ForCausalLM"@[1] == 'm'
            && "SmolLM3ForCausalLM"@[2] == 'o' && "SmolLM3ForCausalLM"@[4] == 'L'
            && "SmolLM3ForCausalLM"@[9] == 'r'
    );
    reveal_strlit("GraniteMoeHybridForCausalLM");
    assert(
        "GraniteMoeHybridForCausalLM"@.len() == 27 && "GraniteMoeHybridForCausalLM"@[1] == 'r'
            && "GraniteMoeHybridForCausalLM"@[2] == 'a' && "GraniteMoeHybridForCausalLM"@[4] == 'i'
            && "GraniteMoeHybridForCausalLM"@[9] == 'e'
    );
    reveal_strlit("GptOssForCausalLM");
    assert(
        "GptOssForCausalLM"@.len() == 17 && "GptOssForCausalLM"@[1] == 'p'
            && "GptOssForCausalLM"@[2] == 't' && "GptOssForCausalLM"@[4] == 's'
            && "GptOssForCausalLM"@[9] == 'C'
    );
    reveal_strlit("HunYuanDenseV1ForCausalLM");
    assert(
        "HunYuanDenseV1ForCausalLM"@.len() == 25 && "HunYuanDenseV1ForCausalLM"@[1] == 'u'
            && "HunYuanDenseV1ForCausalLM"@[2] == 'n' && "HunYuanDenseV1ForCausalLM"@[4] == 'u'
            && "HunYuanDenseV1ForCausalLM"@[9] == 'n'
    );
    reveal_strlit("HunYuanMoEV1ForCausalLM");
    assert(
        "HunYuanMoEV1ForCausalLM"@.len() == 23 && "HunYuanMoEV1ForCausalLM"@[1] == 'u'
            && "HunYuanMoEV1ForCausalLM"@[2] == 'n' && "HunYuanMoEV1ForCausalLM"@[4] == 'u'
            && "HunYuanMoEV1ForCausalLM"@[9] == 'E'
    );
    reveal_strlit("Qwen3NextForCausalLM");
    assert(
        "Qwen3NextForCausalLM"@.len() == 20 && "Qwen3NextForCausalLM"@[1] == 'w'
            && "Qwen3NextForCausalLM"@[2] == 'e' && "Qwen3NextForCausalLM"@[4] == '3'
            && "Qwen3NextForCausalLM"@[9] == 'F'
    );
    reveal_strlit("Qwen3_5ForCausalLM");
    assert(
        "Qwen3_5ForCausalLM"@.len() == 18 && "Qwen3_5ForCausalLM"@[1] == 'w'
            && "Qwen3_5ForCausalLM"@[2] == 'e' && "Qwen3_5ForCausalLM"@[4] == '3'
            && "Qwen3_5ForCausalLM"@[9] == 'r'
    );
    reveal_strlit("Lfm2ForCausalLM");
    assert(
        "Lfm2ForCausalLM"@.len() == 15 && "Lfm2ForCausalLM"@[1] == 'f'
            && "Lfm2ForCausalLM"@[2] == 'm' && "Lfm2ForCausalLM"@[4] == 'F'
            && "Lfm2ForCausalLM"@[9] == 'u'
    );
    reveal_strlit("Lfm2MoeForCausalLM");
    assert(
        "Lfm2MoeForCausalLM"@.len() == 18 && "Lfm2MoeForCausalLM"@[1] == 'f'
            && "Lfm2MoeForCausalLM"@[2] == 'm' && "Lfm2MoeForCausalLM"@[4] == 'M'
            && "Lfm2MoeForCausalLM"@[9] == 'r'
    );
}

/// The model classes of the text architectures.
pub open spec fn causal_lm_names() -> Seq<Seq<char>> {
    seq![
        "MistralForCausalLM"@,
        "GemmaForCausalLM"@,
        "MixtralForCausalLM"@,
        "LlamaForCausalLM"@,
        "PhiForCausalLM"@,
        "Phi3ForCausalLM"@,
        "Qwen2ForCausalLM"@,
        "Gemma2ForCausalLM"@,
        "Starcoder2ForCausalLM"@,
        "PhiMoEForCausalLM"@,
        "DeepseekV2ForCausalLM"@,
        "DeepseekV3ForCausalLM"@,
        "Qwen3ForCausalLM"@,
        "Glm4ForCausalLM"@,
        "Glm4MoeLiteForCausalLM"@,
        "Glm4MoeForCausalLM"@,
        "Qwen3MoeForCausalLM"@,
        "SmolLM3ForCausalLM"@,
        "GraniteMoeHybridForCausalLM"@,
        "GptOssForCausalLM"@,
        "HunYuanDenseV1ForCausalLM"@,
        "HunYuanMoEV1ForCausalLM"@,
        "Qwen3NextForCausalLM"@,
        "Qwen3_5ForCausalLM"@,
        "Lfm2ForCausalLM"@,
        "Lfm2MoeForCausalLM"@,
    ]
}

/// The architectures with those classes.
pub open spec fn causal_lm_owners() -> Seq<NormalLoaderType> {
    seq![
        NormalLoaderType::Mistral,
        NormalLoaderType::Gemma,
        NormalLoaderType::Mixtral,
        NormalLoaderType::Llama,
        NormalLoaderType::Phi2,
        NormalLoaderType::Phi3,
        NormalLoaderType::Qwen2,
        NormalLoaderType::Gemma2,
        NormalLoaderType::Starcoder2,
        NormalLoaderType::Phi3_5MoE,
        NormalLoaderType::DeepSeekV2,
        NormalLoaderType::DeepSeekV3,
        NormalLoaderType::Qwen3,
        NormalLoaderType::GLM4,
        NormalLoaderType::GLM4MoeLite,
        NormalLoaderType::GLM4Moe,
        NormalLoaderType::Qwen3Moe,
        NormalLoaderType::SmolLm3,
        NormalLoaderType::GraniteMoeHybrid,
        NormalLoaderType::GptOss,
        NormalLoaderType::HunYuanDenseV1,
        NormalLoaderType::HunYuanMoEV1,
        NormalLoaderType::Qwen3Next,
        NormalLoaderType::Qwen3_5,
        NormalLoaderType::Lfm2,
        NormalLoaderType::Lfm2Moe,
    ]
}

/// The classes of the list, all different, are those that are accepted, and no others. Every
/// architecture has one.
pub proof fn law_causal_lm_names_are_known()
    ensures
        causal_lm_names().len() == causal_lm_owners().len() == 26,
        causal_lm_names().no_duplicates(),
        causal_lm_owners().no_duplicates(),
        forall|name: Seq<char>|
            causal_lm_names().contains(name) <==> exists|t: NormalLoaderType| #[trigger]
                t.causal_lm_text() == name,
        forall|i: int|
            0 <= i < 26 ==> (#[trigger] causal_lm_owners()[i]).causal_lm_text()
                == causal_lm_names()[i],
        forall|t: NormalLoaderType| causal_lm_owners().contains(t),
{
    let names = causal_lm_names();
    let owners = causal_lm_owners();
    assert forall|i: int| 0 <= i < 26 implies (#[trigger] owners[i]).causal_lm_text()
        == names[i] by {
        assert(owners[0].causal_lm_text() == names[0]);
        assert(owners[1].causal_lm_text() == names[1]);
        assert(owners[2].causal_lm_text() == names[2]);
        assert(owners[3].causal_lm_text() == names[3]);
        assert(owners[4].causal_lm_text() == names[4]);
        assert(owners[5].causal_lm_text() == names[5]);
        assert(owners[6].causal_lm_text() == names[6]);
        assert(owners[7].causal_lm_text() == names[7]);
        assert(owners[8].causal_lm_text() == names[8]);
        assert(owners[9].causal_lm_text() == names[9]);
        assert(owners[10].causal_lm_text() == names[10]);
        assert(owners[11].causal_lm_text() == names[11]);
        assert(owners[12].causal_lm_text() == names[12]);
        assert(owners[13].causal_lm_text() == names[13]);
        assert(owners[14].causal_lm_text() == names[14]);
        assert(owners[15].causal_lm_text() == names[15]);
        assert(owners[16].causal_lm_text() == names[16]);
        assert(owners[17].causal_lm_text() == names[17]);
        assert(owners[18].causal_lm_text() == names[18]);
        assert(owners[19].causal_lm_text() == names[19]);
        assert(owners[20].causal_lm_text() == names[20]);
        assert(owners[21].causal_lm_text() == names[21]);
        assert(owners[22].causal_lm_text() == names[22]);
        assert(owners[23].causal_lm_text() == names[23]);
        assert(owners[24].causal_lm_text() == names[24]);
        assert(owners[25].causal_lm_text() == names[25]);
    }
    assert forall|t: NormalLoaderType| owners.contains(t) by {
        match t {
            NormalLoaderType::Mistral => {
                assert(owners[0] == t);
            },
            NormalLoaderType::Gemma => {
                assert(owners[1] == t);
            },
            NormalLoaderType::Mixtral => {
                assert(owners[2] == t);
            },
            NormalLoaderType::Llama => {
                assert(owners[3] == t);
            },
            NormalLoaderType::Phi2 => {
                assert(owners[4] == t);
            },
            NormalLoaderType::Phi3 => {
                assert(owners[5] == t);
            },
            NormalLoaderType::Qwen2 => {
                assert(owners[6] == t);
            },
            NormalLoaderType::Gemma2 => {
                assert(owners[7] == t);
            },
            NormalLoaderType::Starcoder2 => {
                assert(owners[8] == t);
            },
            NormalLoaderType::Phi3_5MoE => {
                assert(owners[9] == t);
            },
            NormalLoaderType::DeepSeekV2 => {
                assert(owners[10] == t);
            },
            NormalLoaderType::DeepSeekV3 => {
                assert(owners[11] == t);
            },
            NormalLoaderType::Qwen3 => {
                assert(owners[12] == t);
            },
            NormalLoaderType::GLM4 => {
                assert(owners[13] == t);
            },
            NormalLoaderType::GLM4MoeLite => {
                assert(owners[14] == t);
            },
            NormalLoaderType::GLM4Moe => {
                assert(owners[15] == t);
            },
            NormalLoaderType::Qwen3Moe => {
                assert(owners[16] == t);
            },
            NormalLoaderType::SmolLm3 => {
                assert(owners[17] == t);
            },
            NormalLoaderType::GraniteMoeHybrid => {
                assert(owners[18] == t);
            },
            NormalLoaderType::GptOss => {
                assert(owners[19] == t);
            },
            NormalLoaderType::HunYuanDenseV1 => {
                assert(owners[20] == t);
            },
            NormalLoaderType::HunYuanMoEV1 => {
                assert(owners[21] == t);
            },
            NormalLoaderType::Qwen3Next => {
                assert(owners[22] == t);
            },
            NormalLoaderType::Qwen3_5 => {
                assert(owners[23] == t);
            },
            NormalLoaderType::Lfm2 => {
                assert(owners[24] == t);
            },
            NormalLoaderType::Lfm2Moe => {
                assert(owners[25] == t);
            },
        }
    }
    assert forall|name: Seq<char>| names.contains(name) implies exists|t: NormalLoaderType|
        #[trigger] t.causal_lm_text() == name by {
        let i = choose|i: int| 0 <= i < names.len() && names[i] == name;
        assert(owners[i].causal_lm_text() == name);
    }
    assert forall|name: Seq<char>|
        (exists|t: NormalLoaderType| #[trigger] t.causal_lm_text() == name) implies names.contains(
        name,
    ) by {
        let t = choose|t: NormalLoaderType| #[trigger] t.causal_lm_text() == name;
        assert(owners.contains(t));
        let i = choose|i: int| 0 <= i < owners.len() && owners[i] == t;
        assert(names[i] == name);
    }
    assert forall|i: int, j: int| 0 <= i < j < 26 implies names[i] != names[j] by {
        assert(owners[i].causal_lm_text() == names[i] && owners[j].causal_lm_text() == names[j]);
        if names[i] == names[j] {
            law_causal_lm_names_differ(owners[i], owners[j]);
        }
    }
}

/// Different architectures have different names, so a name is read back as the
/// architecture that has it.
pub proof fn law_normal_names_differ(a: NormalLoaderType, b: NormalLoaderType)
    requires
        a.display_text() == b.display_text(),
    ensures
        a == b,
{
    reveal_strlit("gemma");
    assert(
        "gemma"@.len() == 5 && "gemma"@[1] == 'e' && "gemma"@[2] == 'm' && "gemma"@[3] == 'm'
            && "gemma"@[4] == 'a'
    );
    reveal_strlit("gemma2");
    assert(
        "gemma2"@.len() == 6 && "gemma2"@[1] == 'e' && "gemma2"@[2] == 'm' && "gemma2"@[3] == 'm'
            && "gemma2"@[4] == 'a'
    );
    reveal_strlit("llama");
    assert(
        "llama"@.len() == 5 && "llama"@[1] == 'l' && "llama"@[2] == 'a' && "llama"@[3] == 'm'
            && "llama"@[4] == 'a'
    );
    reveal_strlit("mistral");
    assert(
        "mistral"@.len() == 7 && "mistral"@[1] == 'i' && "mistral"@[2] == 's'
            && "mistral"@[3] == 't' && "mistral"@[4] == 'r'
    );
    reveal_strlit("mixtral");
    assert(
        "mixtral"@.len() == 7 && "mixtral"@[1] == 'i' && "mixtral"@[2] == 'x'
            && "mixtral"@[3] == 't' && "mixtral"@[4] == 'r'
    );
    reveal_strlit("phi2");
    assert("phi2"@.len() == 4 && "phi2"@[1] == 'h' && "phi2"@[2] == 'i' && "phi2"@[3] == '2');
    reveal_strlit("phi3");
    assert("phi3"@.len() == 4 && "phi3"@[1] == 'h' && "phi3"@[2] == 'i' && "phi3"@[3] == '3');
    reveal_strlit("phi3.5moe");
    assert(
        "phi3.5moe"@.len() == 9 && "phi3.5moe"@[1] == 'h' && "phi3.5moe"@[2] == 'i'
            && "phi3.5moe"@[3] == '3' && "phi3.5moe"@[4] == '.'
    );
    reveal_strlit("qwen2");
    assert(
        "qwen2"@.len() == 5 && "qwen2"@[1] == 'w' && "qwen2"@[2] == 'e' && "qwen2"@[3] == 'n'
            && "qwen2"@[4] == '2'
    );
    reveal_strlit("starcoder2");
    assert(
        "starcoder2"@.len() == 10 && "starcoder2"@[1] == 't' && "starcoder2"@[2] == 'a'
            && "starcoder2"@[3] == 'r' && "starcoder2"@[4] == 'c' && "starcoder2"@[9] == '2'
    );
    reveal_strlit("deepseekv2");
    assert(
        "deepseekv2"@.len() == 10 && "deepseekv2"@[1] == 'e' && "deepseekv2"@[2] == 'e'
            && "deepseekv2"@[3] == 'p' && "deepseekv2"@[4] == 's' && "deepseekv2"@[9] == '2'
    );
    reveal_strlit("deepseekv3");
    assert(
        "deepseekv3"@.len() == 10 && "deepseekv3"@[1] == 'e' && "deepseekv3"@[2] == 'e'
            && "deepseekv3"@[3] == 'p' && "deepseekv3"@[4] == 's' && "deepseekv3"@[9] == '3'
    );
    reveal_strlit("qwen3");
    assert(
        "qwen3"@.len() == 5 && "qwen3"@[1] == 'w' && "qwen3"@[2] == 'e' && "qwen3"@[3] == 'n'
            && "qwen3"@[4] == '3'
    );
    reveal_strlit("glm4");
    assert("glm4"@.len() == 4 && "glm4"@[1] == 'l' && "glm4"@[2] == 'm' && "glm4"@[3] == '4');
    reveal_strlit("glm4moelite");
    assert(
        "glm4moelite"@.len() == 11 && "glm4moelite"@[1] == 'l' && "glm4moelite"@[2] == 'm'
            && "glm4moelite"@[3] == '4' && "glm4moelite"@[4] == 'm' && "glm4moelite"@[9] == 't'
    );
    reveal_strlit("glm4moe");
    assert(
        "glm4moe"@.len() == 7 && "glm4moe"@[1] == 'l' && "glm4moe"@[2] == 'm'
            && "glm4moe"@[3] == '4' && "glm4moe"@[4] == 'm'
    );
    reveal_strlit("qwen3moe");
    assert(
        "qwen3moe"@.len() == 8 && "qwen3moe"@[1] == 'w' && "qwen3moe"@[2] == 'e'
            && "qwen3moe"@[3] == 'n' && "qwen3moe"@[4] == '3'
    );
    reveal_strlit("smollm3");
    assert(
        "smollm3"@.len() == 7 && "smollm3"@[1] == 'm' && "smollm3"@[2] == 'o'
            && "smollm3"@[3] == 'l' && "smollm3"@[4] == 'l'
    );
    reveal_strlit("granitemoehybrid");
    assert(
        "granitemoehybrid"@.len() == 16 && "granitemoehybrid"@[1] == 'r'
            && "granitemoehybrid"@[2] == 'a' && "granitemoehybrid"@[3] == 'n'
            && "granitemoehybrid"@[4] == 'i' && "granitemoehybrid"@[9] == 'e'
    );
    reveal_strlit("gpt_oss");
    assert(
        "gpt_oss"@.len() == 7 && "gpt_oss"@[1] == 'p' && "gpt_oss"@[2] == 't'
            && "gpt_oss"@[3] == '_' && "gpt_oss"@[4] == 'o'
    );
    reveal_strlit("hunyuanv1dense");
    assert(
        "hunyuanv1dense"@.len() == 14 && "hunyuanv1dense"@[1] == 'u' && "hunyuanv1dense"@[2] == 'n'
            && "hunyuanv1dense"@[3] == 'y' && "hunyuanv1dense"@[4] == 'u'
            && "hunyuanv1dense"@[9] == 'd'
    );
    reveal_strlit("hunyuanv1moe");
    assert(
        "hunyuanv1moe"@.len() == 12 && "hunyuanv1moe"@[1] == 'u' && "hunyuanv1moe"@[2] == 'n'
            && "hunyuanv1moe"@[3] == 'y' && "hunyuanv1moe"@[4] == 'u' && "hunyuanv1moe"@[9] == 'm'
    );
    reveal_strlit("qwen3next");
    assert(
        "qwen3next"@.len() == 9 && "qwen3next"@[1] == 'w' && "qwen3next"@[2] == 'e'
            && "qwen3next"@[3] == 'n' && "qwen3next"@[4] == '3'
    );
    reveal_strlit("qwen3_5");
    assert(
        "qwen3_5"@.len() == 7 && "qwen3_5"@[1] == 'w' && "qwen3_5"@[2] == 'e'
            && "qwen3_5"@[3] == 'n' && "qwen3_5"@[4] == '3'
    );
    reveal_strlit("lfm2");
    assert("lfm2"@.len() == 4 && "lfm2"@[1] == 'f' && "lfm2"@[2] == 'm' && "lfm2"@[3] == '2');
    reveal_strlit("lfm2_moe");
    assert(
        "lfm2_moe"@.len() == 8 && "lfm2_moe"@[1] == 'f' && "lfm2_moe"@[2] == 'm'
            && "lfm2_moe"@[3] == '2' && "lfm2_moe"@[4] == '_'
    );
}

/// The architecture to load the multimodal model as.
#[derive(Debug, Clone, Copy, PartialEq, Eq, Structural)]
pub enum MultimodalLoaderType {
    Phi3V,
    Idefics2,
    LLaVANext,
    LLaVA,
    Lfm2Vl,
    VLlama,
    Qwen2VL,
    Idefics3,
    MiniCpmO,
    Phi4MM,
    Qwen2_5VL,
    Gemma3,
    Mistral3,
    Llama4,
    Gemma3n,
    Qwen3VL,
    Qwen3VLMoE,
    Qwen3_5,
    Qwen3_5Moe,
    Voxtral,
    Gemma4,
    MuseGlimmer,
    DiffusionGemma,
    PaddleOcrVl,
}

impl MultimodalLoaderType {
    /// The name of the architecture.
    pub open spec fn display_text(self) -> Seq<char> {
        match self {
            MultimodalLoaderType::Phi3V => "phi3v"@,
            MultimodalLoaderType::Idefics2 => "idefics2"@,
            MultimodalLoaderType::LLaVANext => "llava_next"@,
            MultimodalLoaderType::LLaVA => "llava"@,
            MultimodalLoaderType::Lfm2Vl => "lfm2vl"@,
            MultimodalLoaderType::VLlama => "vllama"@,
            MultimodalLoaderType::Qwen2VL => "qwen2vl"@,
            MultimodalLoaderType::Idefics3 => "idefics3"@,
            MultimodalLoaderType::MiniCpmO => "minicpmo"@,
            MultimodalLoaderType::Phi4MM => "phi4mm"@,
            MultimodalLoaderType::Qwen2_5VL => "qwen2_5vl"@,
            MultimodalLoaderType::Gemma3 => "gemma3"@,
            MultimodalLoaderType::Mistral3 => "mistral3"@,
            MultimodalLoaderType::Llama4 => "llama4"@,
            MultimodalLoaderType::Gemma3n => "gemma3n"@,
            MultimodalLoaderType::Qwen3VL => "qwen3vl"@,
            MultimodalLoaderType::Qwen3VLMoE => "qwen3vlmoe"@,
            MultimodalLoaderType::Qwen3_5 => "qwen3_5"@,
            MultimodalLoaderType::Qwen3_5Moe => "qwen3_5moe"@,
            MultimodalLoaderType::Voxtral => "voxtral"@,
            MultimodalLoaderType::Gemma4 => "gemma4"@,
            MultimodalLoaderType::MuseGlimmer => "muse_glimmer"@,
            MultimodalLoaderType::DiffusionGemma => "diffusiongemma"@,
            MultimodalLoaderType::PaddleOcrVl => "paddleocr_vl"@,
        }
    }

    /// The name of the architecture.
    pub fn name(&self) -> (r: &'static str)
        ensures
            r@ == self.display_text(),
    {
        match self {
            MultimodalLoaderType::Phi3V => "phi3v",
            MultimodalLoaderType::Idefics2 => "idefics2",
            MultimodalLoaderType::LLaVANext => "llava_next",
            MultimodalLoaderType::LLaVA => "llava",
            MultimodalLoaderType::Lfm2Vl => "lfm2vl",
            MultimodalLoaderType::VLlama => "vllama",
            MultimodalLoaderType::Qwen2VL => "qwen2vl",
            MultimodalLoaderType::Idefics3 => "idefics3",
            MultimodalLoaderType::MiniCpmO => "minicpmo",
            MultimodalLoaderType::Phi4MM => "phi4mm",
            MultimodalLoaderType::Qwen2_5VL => "qwen2_5vl",
            MultimodalLoaderType::Gemma3 => "gemma3",
            MultimodalLoaderType::Mistral3 => "mistral3",
            MultimodalLoaderType::Llama4 => "llama4",
            MultimodalLoaderType::Gemma3n => "gemma3n",
            MultimodalLoaderType::Qwen3VL => "qwen3vl",
            MultimodalLoaderType::Qwen3VLMoE => "qwen3vlmoe",
            MultimodalLoaderType::Qwen3_5 => "qwen3_5",
            MultimodalLoaderType::Qwen3_5Moe => "qwen3_5moe",
            MultimodalLoaderType::Voxtral => "voxtral",
            MultimodalLoaderType::Gemma4 => "gemma4",
            MultimodalLoaderType::MuseGlimmer => "muse_glimmer",
            MultimodalLoaderType::DiffusionGemma => "diffusiongemma",
            MultimodalLoaderType::PaddleOcrVl => "paddleocr_vl",
        }
    }

    /// The Hugging Face Transformers model classes of the architecture.
    pub open spec fn has_class(self, name: Seq<char>) -> bool {
        match self {
            MultimodalLoaderType::Phi3V => name == "Phi3VForCausalLM"@,
            MultimodalLoaderType::Idefics2 => name == "Idefics2ForConditionalGeneration"@,
            MultimodalLoaderType::LLaVANext => name == "LlavaNextForConditionalGeneration"@,
            MultimodalLoaderType::LLaVA => name == "LlavaForConditionalGeneration"@,
            MultimodalLoaderType::Lfm2Vl => name == "Lfm2VlForConditionalGeneration"@,
            MultimodalLoaderType::VLlama => name == "MllamaForConditionalGeneration"@,
            MultimodalLoaderType::Qwen2VL => name == "Qwen2VLForConditionalGeneration"@,
            MultimodalLoaderType::Idefics3 => name == "Idefics3ForConditionalGeneration"@,
            MultimodalLoaderType::MiniCpmO => name == "MiniCPMO"@,
            MultimodalLoaderType::Phi4MM => name == "Phi4MMForCausalLM"@,
            MultimodalLoaderType::Qwen2_5VL => name == "Qwen2_5_VLForConditionalGeneration"@,
            MultimodalLoaderType::Gemma3 => name == "Gemma3ForConditionalGeneration"@
                || name == "Gemma3ForCausalLM"@,
            MultimodalLoaderType::Mistral3 => name == "Mistral3ForConditionalGeneration"@,
            MultimodalLoaderType::Llama4 => name == "Llama4ForConditionalGeneration"@,
            MultimodalLoaderType::Gemma3n => name == "Gemma3nForConditionalGeneration"@,
            MultimodalLoaderType::Gemma4 => name == "Gemma4ForConditionalGeneration"@
                || name == "Gemma4ForCausalLM"@ || name == "Gemma4UnifiedForConditionalGeneration"@
                || name == "Gemma4UnifiedForCausalLM"@,
            MultimodalLoaderType::MuseGlimmer => name == "MuseGlimmerForConditionalGeneration"@,
            MultimodalLoaderType::DiffusionGemma => name == "DiffusionGemmaForBlockDiffusion"@,
            MultimodalLoaderType::PaddleOcrVl => name == "PaddleOCRVLForConditionalGeneration"@,
            MultimodalLoaderType::Qwen3VL => name == "Qwen3VLForConditionalGeneration"@,
            MultimodalLoaderType::Qwen3VLMoE => name == "Qwen3VLMoeForConditionalGeneration"@,
            MultimodalLoaderType::Qwen3_5 => name == "Qwen3_5ForConditionalGeneration"@,
            MultimodalLoaderType::Qwen3_5Moe => name == "Qwen3_5MoeForConditionalGeneration"@,
            MultimodalLoaderType::Voxtral => name == "VoxtralRealtimeForConditionalGeneration"@,
        }
    }

    /// The names that are read as the architecture.
    pub open spec fn is_called(self, name: Seq<char>) -> bool {
        match self {
            MultimodalLoaderType::Phi3V => name == "phi3v"@,
            MultimodalLoaderType::Idefics2 => name == "idefics2"@,
            MultimodalLoaderType::LLaVANext => name == "llava_next"@,
            MultimodalLoaderType::LLaVA => name == "llava"@,
            MultimodalLoaderType::Lfm2Vl => name == "lfm2vl"@ || name == "lfm2_vl"@,
            MultimodalLoaderType::VLlama => name == "vllama"@,
            MultimodalLoaderType::Qwen2VL => name == "qwen2vl"@,
            MultimodalLoaderType::Idefics3 => name == "idefics3"@,
            MultimodalLoaderType::MiniCpmO => name == "minicpmo"@,
            MultimodalLoaderType::Phi4MM => name == "phi4mm"@,
            MultimodalLoaderType::Qwen2_5VL => name == "qwen2_5vl"@,
            MultimodalLoaderType::Gemma3 => name == "gemma3"@,
            MultimodalLoaderType::Mistral3 => name == "mistral3"@,
            MultimodalLoaderType::Llama4 => name == "llama4"@,
            MultimodalLoaderType::Gemma3n => name == "gemma3n"@,
            MultimodalLoaderType::Gemma4 => name == "gemma4"@,
            MultimodalLoaderType::MuseGlimmer => name == "muse_glimmer"@ || name == "museglimmer"@,
            MultimodalLoaderType::DiffusionGemma => name == "diffusiongemma"@,
            MultimodalLoaderType::PaddleOcrVl => name == "paddleocr_vl"@,
            MultimodalLoaderType::Qwen3VL => name == "qwen3vl"@,
            MultimodalLoaderType::Qwen3VLMoE => name == "qwen3vlmoe"@,
            MultimodalLoaderType::Qwen3_5 => name == "qwen3_5"@,
            MultimodalLoaderType::Qwen3_5Moe => name == "qwen3_5moe"@,
            MultimodalLoaderType::Voxtral => name == "voxtral"@,
        }
    }

    /// The architecture that has a model class of the given name.
    pub fn from_causal_lm_name(name: &str) -> (r: Result<Self, LoaderError>)
        ensures
            match r {
                Ok(t) => t.has_class(name@),
                Err(e) => {
                    &&& e matches LoaderError::UnsupportedClass(n)
                    &&& n@ == name@
                    &&& forall|t: MultimodalLoaderType| !#[trigger] t.has_class(name@)
                },
            },
    {
        if same_text(name, "Phi3VForCausalLM") {
            return Ok(MultimodalLoaderType::Phi3V);
        }
        if same_text(name, "Idefics2ForConditionalGeneration") {
            return Ok(MultimodalLoaderType::Idefics2);
        }
        if same_text(name, "LlavaNextForConditionalGeneration") {
            return Ok(MultimodalLoaderType::LLaVANext);
        }
        if same_text(name, "LlavaForConditionalGeneration") {
            return Ok(MultimodalLoaderType::LLaVA);
        }
        if same_text(name, "Lfm2VlForConditionalGeneration") {
            return Ok(MultimodalLoaderType::Lfm2Vl);
        }
        if same_text(name, "MllamaForConditionalGeneration") {
            return Ok(MultimodalLoaderType::VLlama);
        }
        if same_text(name, "Qwen2VLForConditionalGeneration") {
            return Ok(MultimodalLoaderType::Qwen2VL);
        }
        if same_text(name, "Idefics3ForConditionalGeneration") {
            return Ok(MultimodalLoaderType::Idefics3);
        }
        if same_text(name, "MiniCPMO") {
            return Ok(MultimodalLoaderType::MiniCpmO);
        }
        if same_text(name, "Phi4MMForCausalLM") {
            return Ok(MultimodalLoaderType::Phi4MM);
        }
        if same_text(name, "Qwen2_5_VLForConditionalGeneration") {
            return Ok(MultimodalLoaderType::Qwen2_5VL);
        }
        if same_text(
            name,
            "Gemma3ForConditionalGeneration",
        ) || same_text(name, "Gemma3ForCausalLM") {
            return Ok(MultimodalLoaderType::Gemma3);
        }
        if same_text(name, "Mistral3ForConditionalGeneration") {
            return Ok(MultimodalLoaderType::Mistral3);
        }
        if same_text(name, "Llama4ForConditionalGeneration") {
            return Ok(MultimodalLoaderType::Llama4);
        }
        if same_text(name, "Gemma3nForConditionalGeneration") {
            return Ok(MultimodalLoaderType::Gemma3n);
        }
        if same_text(
            name,
            "Gemma4ForConditionalGeneration",
        ) || same_text(name, "Gemma4ForCausalLM") || same_text(
            name,
            "Gemma4UnifiedForConditionalGeneration",
        ) || same_text(name, "Gemma4UnifiedForCausalLM") {
            return Ok(MultimodalLoaderType::Gemma4);
        }
        if same_text(name, "MuseGlimmerForConditionalGeneration") {
            return Ok(MultimodalLoaderType::MuseGlimmer);
        }
        if same_text(name, "DiffusionGemmaForBlockDiffusion") {
            return Ok(MultimodalLoaderType::DiffusionGemma);
        }
        if same_text(name, "PaddleOCRVLForConditionalGeneration") {
            return Ok(MultimodalLoaderType::PaddleOcrVl);
        }
        if same_text(name, "Qwen3VLForConditionalGeneration") {
            return Ok(MultimodalLoaderType::Qwen3VL);
        }
        if same_text(name, "Qwen3VLMoeForConditionalGeneration") {
            return Ok(MultimodalLoaderType::Qwen3VLMoE);
        }
        if same_text(name, "Qwen3_5ForConditionalGeneration") {
            return Ok(MultimodalLoaderType::Qwen3_5);
        }
        if same_text(name, "Qwen3_5MoeForConditionalGeneration") {
            return Ok(MultimodalLoaderType::Qwen3_5Moe);
        }
        if same_text(name, "VoxtralRealtimeForConditionalGeneration") {
            return Ok(MultimodalLoaderType::Voxtral);
        }
        Err(LoaderError::UnsupportedClass(name.to_owned()))
    }

    /// The architecture of the given name.
    pub fn from_str(s: &str) -> (r: Result<Self, LoaderError>)
        ensures
            match r {
                Ok(t) => t.is_called(s@),
                Err(e) => {
                    &&& e matches LoaderError::UnknownMultimodalArchitecture(n)
                    &&& n@ == s@
                    &&& forall|t: MultimodalLoaderType| !#[trigger] t.is_called(s@)
                },
            },
    {
        if same_text(s, "phi3v") {
            return Ok(MultimodalLoaderType::Phi3V);
        }
        if same_text(s, "idefics2") {
            return Ok(MultimodalLoaderType::Idefics2);
        }
        if same_text(s, "llava_next") {
            return Ok(MultimodalLoaderType::LLaVANext);
        }
        if same_text(s, "llava") {
            return Ok(MultimodalLoaderType::LLaVA);
        }
        if same_text(s, "lfm2vl") || same_text(s, "lfm2_vl") {
            return Ok(MultimodalLoaderType::Lfm2Vl);
        }
        if same_text(s, "vllama") {
            return Ok(MultimodalLoaderType::VLlama);
        }
        if same_text(s, "qwen2vl") {
            return Ok(MultimodalLoaderType::Qwen2VL);
        }
        if same_text(s, "idefics3") {
            return Ok(MultimodalLoaderType::Idefics3);
        }
        if same_text(s, "minicpmo") {
            return Ok(MultimodalLoaderType::MiniCpmO);
        }
        if same_text(s, "phi4mm") {
            return Ok(MultimodalLoaderType::Phi4MM);
        }
        if same_text(s, "qwen2_5vl") {
            return Ok(MultimodalLoaderType::Qwen2_5VL);
        }
        if same_text(s, "gemma3") {
            return Ok(MultimodalLoaderType::Gemma3);
        }
        if same_text(s, "mistral3") {
            return Ok(MultimodalLoaderType::Mistral3);
        }
        if same_text(s, "llama4") {
            return Ok(MultimodalLoaderType::Llama4);
        }
        if same_text(s, "gemma3n") {
            return Ok(MultimodalLoaderType::Gemma3n);
        }
        if same_text(s, "gemma4") {
            return Ok(MultimodalLoaderType::Gemma4);
        }
        if same_text(s, "muse_glimmer") || same_text(s, "museglimmer") {
            return Ok(MultimodalLoaderType::MuseGlimmer);
        }
        if same_text(s, "diffusiongemma") {
            return Ok(MultimodalLoaderType::DiffusionGemma);
        }
        if same_text(s, "paddleocr_vl") {
            return Ok(MultimodalLoaderType::PaddleOcrVl);
        }
        if same_text(s, "qwen3vl") {
            return Ok(MultimodalLoaderType::Qwen3VL);
        }
        if same_text(s, "qwen3vlmoe") {
            return Ok(MultimodalLoaderType::Qwen3VLMoE);
        }
        if same_text(s, "qwen3_5") {
            return Ok(MultimodalLoaderType::Qwen3_5);
        }
        if same_text(s, "qwen3_5moe") {
            return Ok(MultimodalLoaderType::Qwen3_5Moe);
        }
        if same_text(s, "voxtral") {
            return Ok(MultimodalLoaderType::Voxtral);
        }
        Err(LoaderError::UnknownMultimodalArchitecture(s.to_owned()))
    }
}

/// No model class belongs to two multimodal architectures.
pub proof fn law_multimodal_classes_differ(
    a: MultimodalLoaderType,
    b: MultimodalLoaderType,
    name: Seq<char>,
)
    requires
        a.has_class(name),
        b.has_class(name),
    ensures
        a == b,
{
    reveal_strlit("Phi3VForCausalLM");
    assert(
        "Phi3VForCausalLM"@.len() == 16 && "Phi3VForCausalLM"@[5] == 'F'
            && "Phi3VForCausalLM"@[4] == 'V' && "Phi3VForCausalLM"@[0] == 'P'
            && "Phi3VForCausalLM"@[7] == 'r'
    );
    reveal_strlit("Idefics2ForConditionalGeneration");
    assert(
        "Idefics2ForConditionalGeneration"@.len() == 32
            && "Idefics2ForConditionalGeneration"@[5] == 'c'
            && "Idefics2ForConditionalGeneration"@[4] == 'i'
            && "Idefics2ForConditionalGeneration"@[0] == 'I'
            && "Idefics2ForConditionalGeneration"@[7] == '2'
    );
    reveal_strlit("LlavaNextForConditionalGeneration");
    assert(
        "LlavaNextForConditionalGeneration"@.len() == 33
            && "LlavaNextForConditionalGeneration"@[5] == 'N'
            && "LlavaNextForConditionalGeneration"@[4] == 'a'
            && "LlavaNextForConditionalGeneration"@[0] == 'L'
            && "LlavaNextForConditionalGeneration"@[7] == 'x'
    );
    reveal_strlit("LlavaForConditionalGeneration");
    assert(
        "LlavaForConditionalGeneration"@.len() == 29 && "LlavaForConditionalGeneration"@[5] == 'F'
            && "LlavaForConditionalGeneration"@[4] == 'a'
            && "LlavaForConditionalGeneration"@[0] == 'L'
            && "LlavaForConditionalGeneration"@[7] == 'r'
    );
    reveal_strlit("Lfm2VlForConditionalGeneration");
    assert(
        "Lfm2VlForConditionalGeneration"@.len() == 30 && "Lfm2VlForConditionalGeneration"@[5] == 'l'
            && "Lfm2VlForConditionalGeneration"@[4] == 'V'
            && "Lfm2VlForConditionalGeneration"@[0] == 'L'
            && "Lfm2VlForConditionalGeneration"@[7] == 'o'
    );
    reveal_strlit("MllamaForConditionalGeneration");
    assert(
        "MllamaForConditionalGeneration"@.len() == 30 && "MllamaForConditionalGeneration"@[5] == 'a'
            && "MllamaForConditionalGeneration"@[4] == 'm'
            && "MllamaForConditionalGeneration"@[0] == 'M'
            && "MllamaForConditionalGeneration"@[7] == 'o'
    );
    reveal_strlit("Qwen2VLForConditionalGeneration");
    assert(
        "Qwen2VLForConditionalGeneration"@.len() == 31
            && "Qwen2VLForConditionalGeneration"@[5] == 'V'
            && "Qwen2VLForConditionalGeneration"@[4] == '2'
            && "Qwen2VLForConditionalGeneration"@[0] == 'Q'
            && "Qwen2VLForConditionalGeneration"@[7] == 'F'
    );
    reveal_strlit("Idefics3ForConditionalGeneration");
    assert(
        "Idefics3ForConditionalGeneration"@.len() == 32
            && "Idefics3ForConditionalGeneration"@[5] == 'c'
            && "Idefics3ForConditionalGeneration"@[4] == 'i'
            && "Idefics3ForConditionalGeneration"@[0] == 'I'
            && "Idefics3ForConditionalGeneration"@[7] == '3'
    );
    reveal_strlit("MiniCPMO");
    assert(
        "MiniCPMO"@.len() == 8 && "MiniCPMO"@[5] == 'P' && "MiniCPMO"@[4] == 'C'
            && "MiniCPMO"@[0] == 'M' && "MiniCPMO"@[7] == 'O'
    );
    reveal_strlit("Phi4MMForCausalLM");
    assert(
        "Phi4MMForCausalLM"@.len() == 17 && "Phi4MMForCausalLM"@[5] == 'M'
            && "Phi4MMForCausalLM"@[4] == 'M' && "Phi4MMForCausalLM"@[0] == 'P'
            && "Phi4MMForCausalLM"@[7] == 'o'
    );
    reveal_strlit("Qwen2_5_VLForConditionalGeneration");
    assert(
        "Qwen2_5_VLForConditionalGeneration"@.len() == 34
            && "Qwen2_5_VLForConditionalGeneration"@[5] == '_'
            && "Qwen2_5_VLForConditionalGeneration"@[4] == '2'
            && "Qwen2_5_VLForConditionalGeneration"@[0] == 'Q'
            && "Qwen2_5_VLForConditionalGeneration"@[7] == '_'
    );
    reveal_strlit("Gemma3ForConditionalGeneration");
    assert(
        "Gemma3ForConditionalGeneration"@.len() == 30 && "Gemma3ForConditionalGeneration"@[5] == '3'
            && "Gemma3ForConditionalGeneration"@[4] == 'a'
            && "Gemma3ForConditionalGeneration"@[0] == 'G'
            && "Gemma3ForConditionalGeneration"@[7] == 'o'
    );
    reveal_strlit("Gemma3ForCausalLM");
    assert(
        "Gemma3ForCausalLM"@.len() == 17 && "Gemma3ForCausalLM"@[5] == '3'
            && "Gemma3ForCausalLM"@[4] == 'a' && "Gemma3ForCausalLM"@[0] == 'G'
            && "Gemma3ForCausalLM"@[7] == 'o'
    );
    reveal_strlit("Mistral3ForConditionalGeneration");
    assert(
        "Mistral3ForConditionalGeneration"@.len() == 32
            && "Mistral3ForConditionalGeneration"@[5] == 'a'
            && "Mistral3ForConditionalGeneration"@[4] == 'r'
            && "Mistral3ForConditionalGeneration"@[0] == 'M'
            && "Mistral3ForConditionalGeneration"@[7] == '3'
    );
    reveal_strlit("Llama4ForConditionalGeneration");
    assert(
        "Llama4ForConditionalGeneration"@.len() == 30 && "Llama4ForConditionalGeneration"@[5] == '4'
            && "Llama4ForConditionalGeneration"@[4] == 'a'
            && "Llama4ForConditionalGeneration"@[0] == 'L'
            && "Llama4ForConditionalGeneration"@[7] == 'o'
    );
    reveal_strlit("Gemma3nForConditionalGeneration");
    assert(
        "Gemma3nForConditionalGeneration"@.len() == 31
            && "Gemma3nForConditionalGeneration"@[5] == '3'
            && "Gemma3nForConditionalGeneration"@[4] == 'a'
            && "Gemma3nForConditionalGeneration"@[0] == 'G'
            && "Gemma3nForConditionalGeneration"@[7] == 'F'
    );
    reveal_strlit("Gemma4ForConditionalGeneration");
    assert(
        "Gemma4ForConditionalGeneration"@.len() == 30 && "Gemma4ForConditionalGeneration"@[5] == '4'
            && "Gemma4ForConditionalGeneration"@[4] == 'a'
            && "Gemma4ForConditionalGeneration"@[0] == 'G'
            && "Gemma4ForConditionalGeneration"@[7] == 'o'
    );
    reveal_strlit("Gemma4ForCausalLM");
    assert(
        "Gemma4ForCausalLM"@.len() == 17 && "Gemma4ForCausalLM"@[5] == '4'
            && "Gemma4ForCausalLM"@[4] == 'a' && "Gemma4ForCausalLM"@[0] == 'G'
            && "Gemma4ForCausalLM"@[7] == 'o'
    );
    reveal_strlit("Gemma4UnifiedForConditionalGeneration");
    assert(
        "Gemma4UnifiedForConditionalGeneration"@.len() == 37
            && "Gemma4UnifiedForConditionalGeneration"@[5] == '4'
            && "Gemma4UnifiedForConditionalGeneration"@[4] == 'a'
            && "Gemma4UnifiedForConditionalGeneration"@[0] == 'G'
            && "Gemma4UnifiedForConditionalGeneration"@[7] == 'n'
    );
    reveal_strlit("Gemma4UnifiedForCausalLM");
    assert(
        "Gemma4UnifiedForCausalLM"@.len() == 24 && "Gemma4UnifiedForCausalLM"@[5] == '4'
            && "Gemma4UnifiedForCausalLM"@[4] == 'a' && "Gemma4UnifiedForCausalLM"@[0] == 'G'
            && "Gemma4UnifiedForCausalLM"@[7] == 'n'
    );
    reveal_strlit("MuseGlimmerForConditionalGeneration");
    assert(
        "MuseGlimmerForConditionalGeneration"@.len() == 35
            && "MuseGlimmerForConditionalGeneration"@[5] == 'l'
            && "MuseGlimmerForConditionalGeneration"@[4] == 'G'
            && "MuseGlimmerForConditionalGeneration"@[0] == 'M'
            && "MuseGlimmerForConditionalGeneration"@[7] == 'm'
    );
    reveal_strlit("DiffusionGemmaForBlockDiffusion");
    assert(
        "DiffusionGemmaForBlockDiffusion"@.len() == 31
            && "DiffusionGemmaForBlockDiffusion"@[5] == 's'
            && "DiffusionGemmaForBlockDiffusion"@[4] == 'u'
            && "DiffusionGemmaForBlockDiffusion"@[0] == 'D'
            && "DiffusionGemmaForBlockDiffusion"@[7] == 'o'
    );
    reveal_strlit("PaddleOCRVLForConditionalGeneration");
    assert(
        "PaddleOCRVLForConditionalGeneration"@.len() == 35
            && "PaddleOCRVLForConditionalGeneration"@[5] == 'e'
            && "PaddleOCRVLForConditionalGeneration"@[4] == 'l'
            && "PaddleOCRVLForConditionalGeneration"@[0] == 'P'
            && "PaddleOCRVLForConditionalGeneration"@[7] == 'C'
    );
    reveal_strlit("Qwen3VLForConditionalGeneration");
    assert(
        "Qwen3VLForConditionalGeneration"@.len() == 31
            && "Qwen3VLForConditionalGeneration"@[5] == 'V'
            && "Qwen3VLForConditionalGeneration"@[4] == '3'
            && "Qwen3VLForConditionalGeneration"@[0] == 'Q'
            && "Qwen3VLForConditionalGeneration"@[7] == 'F'
    );
    reveal_strlit("Qwen3VLMoeForConditionalGeneration");
    assert(
        "Qwen3VLMoeForConditionalGeneration"@.len() == 34
            && "Qwen3VLMoeForConditionalGeneration"@[5] == 'V'
            && "Qwen3VLMoeForConditionalGeneration"@[4] == '3'
            && "Qwen3VLMoeForConditionalGeneration"@[0] == 'Q'
            && "Qwen3VLMoeForConditionalGeneration"@[7] == 'M'
    );
    reveal_strlit("Qwen3_5ForConditionalGeneration");
    assert(
        "Qwen3_5ForConditionalGeneration"@.len() == 31
            && "Qwen3_5ForConditionalGeneration"@[5] == '_'
            && "Qwen3_5ForConditionalGeneration"@[4] == '3'
            && "Qwen3_5ForConditionalGeneration"@[0] == 'Q'
            && "Qwen3_5ForConditionalGeneration"@[7] == 'F'
    );
    reveal_strlit("Qwen3_5MoeForConditionalGeneration");
    assert(
        "Qwen3_5MoeForConditionalGeneration"@.len() == 34
            && "Qwen3_5MoeForConditionalGeneration"@[5] == '_'
            && "Qwen3_5MoeForConditionalGeneration"@[4] == '3'
            && "Qwen3_5MoeForConditionalGeneration"@[0] == 'Q'
            && "Qwen3_5MoeForConditionalGeneration"@[7] == 'M'
    );
    reveal_strlit("VoxtralRealtimeForConditionalGeneration");
    assert(
        "VoxtralRealtimeForConditionalGeneration"@.len() == 39
            && "VoxtralRealtimeForConditionalGeneration"@[5] == 'a'
            && "VoxtralRealtimeForConditionalGeneration"@[4] == 'r'
            && "VoxtralRealtimeForConditionalGeneration"@[0] == 'V'
            && "VoxtralRealtimeForConditionalGeneration"@[7] == 'R'
    );
}

/// No model class belongs both to a normal architecture and to a multimodal one.
pub proof fn law_normal_and_multimodal_classes_differ(
    a: NormalLoaderType,
    b: MultimodalLoaderType,
)
    ensures
        !b.has_class(a.causal_lm_text()),
{
    reveal_strlit("MistralForCausalLM");
    assert("MistralForCausalLM"@.len() == 18);
    reveal_strlit("GemmaForCausalLM");
    assert(
        "GemmaForCausalLM"@.len() == 16 && "GemmaForCausalLM"@[3] == 'm'
            && "GemmaForCausalLM"@[5] == 'F'
    );
    reveal_strlit("MixtralForCausalLM");
    assert("MixtralForCausalLM"@.len() == 18);
    reveal_strlit("LlamaForCausalLM");
    assert(
        "LlamaForCausalLM"@.len() == 16 && "LlamaForCausalLM"@[3] == 'm'
            && "LlamaForCausalLM"@[5] == 'F'
    );
    reveal_strlit("PhiForCausalLM");
    assert("PhiForCausalLM"@.len() == 14);
    reveal_strlit("Phi3ForCausalLM");
    assert("Phi3ForCausalLM"@.len() == 15);
    reveal_strlit("Qwen2ForCausalLM");
    assert(
        "Qwen2ForCausalLM"@.len() == 16 && "Qwen2ForCausalLM"@[3] == 'n'
            && "Qwen2ForCausalLM"@[5] == 'F'
    );
    reveal_strlit("Gemma2ForCausalLM");
    assert(
        "Gemma2ForCausalLM"@.len() == 17 && "Gemma2ForCausalLM"@[3] == 'm'
            && "Gemma2ForCausalLM"@[5] == '2'
    );
    reveal_strlit("Starcoder2ForCausalLM");
    assert("Starcoder2ForCausalLM"@.len() == 21);
    reveal_strlit("PhiMoEForCausalLM");
    assert(
        "PhiMoEForCausalLM"@.len() == 17 && "PhiMoEForCausalLM"@[3] == 'M'
            && "PhiMoEForCausalLM"@[5] == 'E'
    );
    reveal_strlit("DeepseekV2ForCausalLM");
    assert("DeepseekV2ForCausalLM"@.len() == 21);
    reveal_strlit("DeepseekV3ForCausalLM");
    assert("DeepseekV3ForCausalLM"@.len() == 21);
    reveal_strlit("Qwen3ForCausalLM");
    assert(
        "Qwen3ForCausalLM"@.len() == 16 && "Qwen3ForCausalLM"@[3] == 'n'
            && "Qwen3ForCausalLM"@[5] == 'F'
    );
    reveal_strlit("Glm4ForCausalLM");
    assert("Glm4ForCausalLM"@.len() == 15);
    reveal_strlit("Glm4MoeLiteForCausalLM");
    assert("Glm4MoeLiteForCausalLM"@.len() == 22);
    reveal_strlit("Glm4MoeForCausalLM");
    assert("Glm4MoeForCausalLM"@.len() == 18);
    reveal_strlit("Qwen3MoeForCausalLM");
    assert("Qwen3MoeForCausalLM"@.len() == 19);
    reveal_strlit("SmolLM3ForCausalLM");
    assert("SmolLM3ForCausalLM"@.len() == 18);
    reveal_strlit("GraniteMoeHybridForCausalLM");
    assert("GraniteMoeHybridForCausalLM"@.len() == 27);
    reveal_strlit("GptOssForCausalLM");
    assert(
        "GptOssForCausalLM"@.len() == 17 && "GptOssForCausalLM"@[3] == 'O'
            && "GptOssForCausalLM"@[5] == 's'
    );
    reveal_strlit("HunYuanDenseV1ForCausalLM");
    assert("HunYuanDenseV1ForCausalLM"@.len() == 25);
    reveal_strlit("HunYuanMoEV1ForCausalLM");
    assert("HunYuanMoEV1ForCausalLM"@.len() == 23);
    reveal_strlit("Qwen3NextForCausalLM");
    assert("Qwen3NextForCausalLM"@.len() == 20);
    reveal_strlit("Qwen3_5ForCausalLM");
    assert("Qwen3_5ForCausalLM"@.len() == 18);
    reveal_strlit("Lfm2ForCausalLM");
    assert("Lfm2ForCausalLM"@.len() == 15);
    reveal_strlit("Lfm2MoeForCausalLM");
    assert("Lfm2MoeForCausalLM"@.len() == 18);
    reveal_strlit("Phi3VForCausalLM");
    assert(
        "Phi3VForCausalLM"@.len() == 16 && "Phi3VForCausalLM"@[3] == '3'
            && "Phi3VForCausalLM"@[5] == 'F'
    );
    reveal_strlit("Idefics2ForConditionalGeneration");
    assert("Idefics2ForConditionalGeneration"@.len() == 32);
    reveal_strlit("LlavaNextForConditionalGeneration");
    assert("LlavaNextForConditionalGeneration"@.len() == 33);
    reveal_strlit("LlavaForConditionalGeneration");
    assert("LlavaForConditionalGeneration"@.len() == 29);
    reveal_strlit("Lfm2VlForConditionalGeneration");
    assert("Lfm2VlForConditionalGeneration"@.len() == 30);
    reveal_strlit("MllamaForConditionalGeneration");
    assert("MllamaForConditionalGeneration"@.len() == 30);
    reveal_strlit("Qwen2VLForConditionalGeneration");
    assert("Qwen2VLForConditionalGeneration"@.len() == 31);
    reveal_strlit("Idefics3ForConditionalGeneration");
    assert("Idefics3ForConditionalGeneration"@.len() == 32);
    reveal_strlit("MiniCPMO");
    assert("MiniCPMO"@.len() == 8);
    reveal_strlit("Phi4MMForCausalLM");
    assert(
        "Phi4MMForCausalLM"@.len() == 17 && "Phi4MMForCausalLM"@[3] == '4'
            && "Phi4MMForCausalLM"@[5] == 'M'
    );
    reveal_strlit("Qwen2_5_VLForConditionalGeneration");
    assert("Qwen2_5_VLForConditionalGeneration"@.len() == 34);
    reveal_strlit("Gemma3ForConditionalGeneration");
    assert("Gemma3ForConditionalGeneration"@.len() == 30);
    reveal_strlit("Gemma3ForCausalLM");
    assert(
        "Gemma3ForCausalLM"@.len() == 17 && "Gemma3ForCausalLM"@[3] == 'm'
            && "Gemma3ForCausalLM"@[5] == '3'
    );
    reveal_strlit("Mistral3ForConditionalGeneration");
    assert("Mistral3ForConditionalGeneration"@.len() == 32);
    reveal_strlit("Llama4ForConditionalGeneration");
    assert("Llama4ForConditionalGeneration"@.len() == 30);
    reveal_strlit("Gemma3nForConditionalGeneration");
    assert("Gemma3nForConditionalGeneration"@.len() == 31);
    reveal_strlit("Gemma4ForConditionalGeneration");
    assert("Gemma4ForConditionalGeneration"@.len() == 30);
    reveal_strlit("Gemma4ForCausalLM");
    assert(
        "Gemma4ForCausalLM"@.len() == 17 && "Gemma4ForCausalLM"@[3] == 'm'
            && "Gemma4ForCausalLM"@[5] == '4'
    );
    reveal_strlit("Gemma4UnifiedForConditionalGeneration");
    assert("Gemma4UnifiedForConditionalGeneration"@.len() == 37);
    reveal_strlit("Gemma4UnifiedForCausalLM");
    assert("Gemma4UnifiedForCausalLM"@.len() == 24);
    reveal_strlit("MuseGlimmerForConditionalGeneration");
    assert("MuseGlimmerForConditionalGeneration"@.len() == 35);
    reveal_strlit("DiffusionGemmaForBlockDiffusion");
    assert("DiffusionGemmaForBlockDiffusion"@.len() == 31);
    reveal_strlit("PaddleOCRVLForConditionalGeneration");
    assert("PaddleOCRVLForConditionalGeneration"@.len() == 35);
    reveal_strlit("Qwen3VLForConditionalGeneration");
    assert("Qwen3VLForConditionalGeneration"@.len() == 31);
    reveal_strlit("Qwen3VLMoeForConditionalGeneration");
    assert("Qwen3VLMoeForConditionalGeneration"@.len() == 34);
    reveal_strlit("Qwen3_5ForConditionalGeneration");
    assert("Qwen3_5ForConditionalGeneration"@.len() == 31);
    reveal_strlit("Qwen3_5MoeForConditionalGeneration");
    assert("Qwen3_5MoeForConditionalGeneration"@.len() == 34);
    reveal_strlit("VoxtralRealtimeForConditionalGeneration");
    assert("VoxtralRealtimeForConditionalGeneration"@.len() == 39);
}

/// The model classes that some multimodal architecture has.
pub open spec fn multimodal_classes() -> Seq<Seq<char>> {
    seq![
        "Phi3VForCausalLM"@,
        "Idefics2ForConditionalGeneration"@,
        "LlavaNextForConditionalGeneration"@,
        "LlavaForConditionalGeneration"@,
        "Lfm2VlForConditionalGeneration"@,
        "MllamaForConditionalGeneration"@,
        "Qwen2VLForConditionalGeneration"@,
        "Idefics3ForConditionalGeneration"@,
        "MiniCPMO"@,
        "Phi4MMForCausalLM"@,
        "Qwen2_5_VLForConditionalGeneration"@,
        "Gemma3ForConditionalGeneration"@,
        "Gemma3ForCausalLM"@,
        "Mistral3ForConditionalGeneration"@,
        "Llama4ForConditionalGeneration"@,
        "Gemma3nForConditionalGeneration"@,
        "Gemma4ForConditionalGeneration"@,
        "Gemma4ForCausalLM"@,
        "Gemma4UnifiedForConditionalGeneration"@,
        "Gemma4UnifiedForCausalLM"@,
        "MuseGlimmerForConditionalGeneration"@,
        "DiffusionGemmaForBlockDiffusion"@,
        "PaddleOCRVLForConditionalGeneration"@,
        "Qwen3VLForConditionalGeneration"@,
        "Qwen3VLMoeForConditionalGeneration"@,
        "Qwen3_5ForConditionalGeneration"@,
        "Qwen3_5MoeForConditionalGeneration"@,
        "VoxtralRealtimeForConditionalGeneration"@,
    ]
}

/// The architecture of each of those classes.
pub open spec fn multimodal_class_owners() -> Seq<MultimodalLoaderType> {
    seq![
        MultimodalLoaderType::Phi3V,
        MultimodalLoaderType::Idefics2,
        MultimodalLoaderType::LLaVANext,
        MultimodalLoaderType::LLaVA,
        MultimodalLoaderType::Lfm2Vl,
        MultimodalLoaderType::VLlama,
        MultimodalLoaderType::Qwen2VL,
        MultimodalLoaderType::Idefics3,
        MultimodalLoaderType::MiniCpmO,
        MultimodalLoaderType::Phi4MM,
        MultimodalLoaderType::Qwen2_5VL,
        MultimodalLoaderType::Gemma3,
        MultimodalLoaderType::Gemma3,
        MultimodalLoaderType::Mistral3,
        MultimodalLoaderType::Llama4,
        MultimodalLoaderType::Gemma3n,
        MultimodalLoaderType::Gemma4,
        MultimodalLoaderType::Gemma4,
        MultimodalLoaderType::Gemma4,
        MultimodalLoaderType::Gemma4,
        MultimodalLoaderType::MuseGlimmer,
        MultimodalLoaderType::DiffusionGemma,
        MultimodalLoaderType::PaddleOcrVl,
        MultimodalLoaderType::Qwen3VL,
        MultimodalLoaderType::Qwen3VLMoE,
        MultimodalLoaderType::Qwen3_5,
        MultimodalLoaderType::Qwen3_5Moe,
        MultimodalLoaderType::Voxtral,
    ]
}

/// The classes of the list, all different, are those that are accepted, and no others. Every
/// architecture has one, and only two have more: one has two, and one four.
pub proof fn law_multimodal_classes_are_known()
    ensures
        multimodal_classes().len() == 28,
        multimodal_class_owners().len() == 28,
        multimodal_classes().no_duplicates(),
        forall|name: Seq<char>|
            multimodal_classes().contains(name) <==> exists|t: MultimodalLoaderType| #[trigger]
                t.has_class(name),
        forall|i: int|
            0 <= i < 28 ==> (#[trigger] multimodal_class_owners()[i]).has_class(
                multimodal_classes()[i],
            ),
        forall|t: MultimodalLoaderType| multimodal_class_owners().contains(t),
        forall|i: int, j: int|
            0 <= i < j < 28 && #[trigger] multimodal_class_owners()[i]
                == #[trigger] multimodal_class_owners()[j] ==> (multimodal_class_owners()[i]
                == MultimodalLoaderType::Gemma3 && i == 11 && j == 12) || (
            multimodal_class_owners()[i] == MultimodalLoaderType::Gemma4 && 16 <= i < j < 20),
{
    let names = multimodal_classes();
    let owners = multimodal_class_owners();
    assert forall|i: int| 0 <= i < 28 implies (#[trigger] owners[i]).has_class(names[i]) by {
        assert(owners[0].has_class(names[0]));
        assert(owners[1].has_class(names[1]));
        assert(owners[2].has_class(names[2]));
        assert(owners[3].has_class(names[3]));
        assert(owners[4].has_class(names[4]));
        assert(owners[5].has_class(names[5]));
        assert(owners[6].has_class(names[6]));
        assert(owners[7].has_class(names[7]));
        assert(owners[8].has_class(names[8]));
        assert(owners[9].has_class(names[9]));
        assert(owners[10].has_class(names[10]));
        assert(owners[11].has_class(names[11]));
        assert(owners[12].has_class(names[12]));
        assert(owners[13].has_class(names[13]));
        assert(owners[14].has_class(names[14]));
        assert(owners[15].has_class(names[15]));
        assert(owners[16].has_class(names[16]));
        assert(owners[17].has_class(names[17]));
        assert(owners[18].has_class(names[18]));
        assert(owners[19].has_class(names[19]));
        assert(owners[20].has_class(names[20]));
        assert(owners[21].has_class(names[21]));
        assert(owners[22].has_class(names[22]));
        assert(owners[23].has_class(names[23]));
        assert(owners[24].has_class(names[24]));
        assert(owners[25].has_class(names[25]));
        assert(owners[26].has_class(names[26]));
        assert(owners[27].has_class(names[27]));
    }
    assert forall|t: MultimodalLoaderType| owners.contains(t) by {
        match t {
            MultimodalLoaderType::Phi3V => {
                assert(owners[0] == t);
            },
            MultimodalLoaderType::Idefics2 => {
                assert(owners[1] == t);
            },
            MultimodalLoaderType::LLaVANext => {
                assert(owners[2] == t);
            },
            MultimodalLoaderType::LLaVA => {
                assert(owners[3] == t);
            },
            MultimodalLoaderType::Lfm2Vl => {
                assert(owners[4] == t);
            },
            MultimodalLoaderType::VLlama => {
                assert(owners[5] == t);
            },
            MultimodalLoaderType::Qwen2VL => {
                assert(owners[6] == t);
            },
            MultimodalLoaderType::Idefics3 => {
                assert(owners[7] == t);
            },
            MultimodalLoaderType::MiniCpmO => {
                assert(owners[8] == t);
            },
            MultimodalLoaderType::Phi4MM => {
                assert(owners[9] == t);
            },
            MultimodalLoaderType::Qwen2_5VL => {
                assert(owners[10] == t);
            },
            MultimodalLoaderType::Gemma3 => {
                assert(owners[11] == t);
            },
            MultimodalLoaderType::Mistral3 => {
                assert(owners[13] == t);
            },
            MultimodalLoaderType::Llama4 => {
                assert(owners[14] == t);
            },
            MultimodalLoaderType::Gemma3n => {
                assert(owners[15] == t);
            },
            MultimodalLoaderType::Gemma4 => {
                assert(owners[16] == t);
            },
            MultimodalLoaderType::MuseGlimmer => {
                assert(owners[20] == t);
            },
            MultimodalLoaderType::DiffusionGemma => {
                assert(owners[21] == t);
            },
            MultimodalLoaderType::PaddleOcrVl => {
                assert(owners[22] == t);
            },
            MultimodalLoaderType::Qwen3VL => {
                assert(owners[23] == t);
            },
            MultimodalLoaderType::Qwen3VLMoE => {
                assert(owners[24] == t);
            },
            MultimodalLoaderType::Qwen3_5 => {
                assert(owners[25] == t);
            },
            MultimodalLoaderType::Qwen3_5Moe => {
                assert(owners[26] == t);
            },
            MultimodalLoaderType::Voxtral => {
                assert(owners[27] == t);
            },
        }
    }
    assert forall|name: Seq<char>| names.contains(name) implies exists|t: MultimodalLoaderType|
        #[trigger] t.has_class(name) by {
        let i = choose|i: int| 0 <= i < names.len() && names[i] == name;
        assert(owners[i].has_class(name));
    }
    assert forall|name: Seq<char>|
        (exists|t: MultimodalLoaderType| #[trigger] t.has_class(name)) implies names.contains(
        name,
    ) by {
        let t = choose|t: MultimodalLoaderType| #[trigger] t.has_class(name);
        lemma_class_is_listed(t, name);
    }
    assert forall|i: int, j: int| 0 <= i < j < 28 implies names[i] != names[j] by {
        assert(owners[i].has_class(names[i]) && owners[j].has_class(names[j]));
        if names[i] == names[j] {
            law_multimodal_classes_differ(owners[i], owners[j], names[i]);
            reveal_strlit("Gemma3ForConditionalGeneration");
            reveal_strlit("Gemma3ForCausalLM");
            reveal_strlit("Gemma4ForConditionalGeneration");
            reveal_strlit("Gemma4ForCausalLM");
            reveal_strlit("Gemma4UnifiedForConditionalGeneration");
            reveal_strlit("Gemma4UnifiedForCausalLM");
            assert(owners[i] == owners[j]);
            assert((i == 11 && j == 12) || 16 <= i < j < 20);
            assert(names[11].len() == 30 && names[12].len() == 17);
            assert(names[16].len() == 30 && names[17].len() == 17);
            assert(names[18].len() == 37 && names[19].len() == 24);
        }
    }
}

proof fn lemma_class_is_listed(t: MultimodalLoaderType, name: Seq<char>)
    requires
        t.has_class(name),
    ensures
        multimodal_classes().contains(name),
{
    let names = multimodal_classes();
    assert(names[0] == "Phi3VForCausalLM"@);
    assert(names[1] == "Idefics2ForConditionalGeneration"@);
    assert(names[2] == "LlavaNextForConditionalGeneration"@);
    assert(names[3] == "LlavaForConditionalGeneration"@);
    assert(names[4] == "Lfm2VlForConditionalGeneration"@);
    assert(names[5] == "MllamaForConditionalGeneration"@);
    assert(names[6] == "Qwen2VLForConditionalGeneration"@);
    assert(names[7] == "Idefics3ForConditionalGeneration"@);
    assert(names[8] == "MiniCPMO"@);
    assert(names[9] == "Phi4MMForCausalLM"@);
    assert(names[10] == "Qwen2_5_VLForConditionalGeneration"@);
    assert(names[11] == "Gemma3ForConditionalGeneration"@);
    assert(names[12] == "Gemma3ForCausalLM"@);
    assert(names[13] == "Mistral3ForConditionalGeneration"@);
    assert(names[14] == "Llama4ForConditionalGeneration"@);
    assert(names[15] == "Gemma3nForConditionalGeneration"@);
    assert(names[16] == "Gemma4ForConditionalGeneration"@);
    assert(names[17] == "Gemma4ForCausalLM"@);
    assert(names[18] == "Gemma4UnifiedForConditionalGeneration"@);
    assert(names[19] == "Gemma4UnifiedForCausalLM"@);
    assert(names[20] == "MuseGlimmerForConditionalGeneration"@);
    assert(names[21] == "DiffusionGemmaForBlockDiffusion"@);
    assert(names[22] == "PaddleOCRVLForConditionalGeneration"@);
    assert(names[23] == "Qwen3VLForConditionalGeneration"@);
    assert(names[24] == "Qwen3VLMoeForConditionalGeneration"@);
    assert(names[25] == "Qwen3_5ForConditionalGeneration"@);
    assert(names[26] == "Qwen3_5MoeForConditionalGeneration"@);
    assert(names[27] == "VoxtralRealtimeForConditionalGeneration"@);
}

/// No name is read as two multimodal architectures.
pub proof fn law_multimodal_names_differ(
    a: MultimodalLoaderType,
    b: MultimodalLoaderType,
    name: Seq<char>,
)
    requires
        a.is_called(name),
        b.is_called(name),
    ensures
        a == b,
{
    reveal_strlit("phi3v");
    assert("phi3v"@.len() == 5 && "phi3v"@[3] == '3' && "phi3v"@[0] == 'p' && "phi3v"@[4] == 'v');
    reveal_strlit("idefics2");
    assert(
        "idefics2"@.len() == 8 && "idefics2"@[3] == 'f' && "idefics2"@[5] == 'c'
            && "idefics2"@[0] == 'i' && "idefics2"@[4] == 'i' && "idefics2"@[7] == '2'
    );
    reveal_strlit("llava_next");
    assert(
        "llava_next"@.len() == 10 && "llava_next"@[3] == 'v' && "llava_next"@[5] == '_'
            && "llava_next"@[0] == 'l' && "llava_next"@[4] == 'a' && "llava_next"@[7] == 'e'
    );
    reveal_strlit("llava");
    assert("llava"@.len() == 5 && "llava"@[3] == 'v' && "llava"@[0] == 'l' && "llava"@[4] == 'a');
    reveal_strlit("lfm2vl");
    assert(
        "lfm2vl"@.len() == 6 && "lfm2vl"@[3] == '2' && "lfm2vl"@[5] == 'l' && "lfm2vl"@[0] == 'l'
            && "lfm2vl"@[4] == 'v'
    );
    reveal_strlit("lfm2_vl");
    assert(
        "lfm2_vl"@.len() == 7 && "lfm2_vl"@[3] == '2' && "lfm2_vl"@[5] == 'v'
            && "lfm2_vl"@[0] == 'l' && "lfm2_vl"@[4] == '_'
    );
    reveal_strlit("vllama");
    assert(
        "vllama"@.len() == 6 && "vllama"@[3] == 'a' && "vllama"@[5] == 'a' && "vllama"@[0] == 'v'
            && "vllama"@[4] == 'm'
    );
    reveal_strlit("qwen2vl");
    assert(
        "qwen2vl"@.len() == 7 && "qwen2vl"@[3] == 'n' && "qwen2vl"@[5] == 'v'
            && "qwen2vl"@[0] == 'q' && "qwen2vl"@[4] == '2'
    );
    reveal_strlit("idefics3");
    assert(
        "idefics3"@.len() == 8 && "idefics3"@[3] == 'f' && "idefics3"@[5] == 'c'
            && "idefics3"@[0] == 'i' && "idefics3"@[4] == 'i' && "idefics3"@[7] == '3'
    );
    reveal_strlit("minicpmo");
    assert(
        "minicpmo"@.len() == 8 && "minicpmo"@[3] == 'i' && "minicpmo"@[5] == 'p'
            && "minicpmo"@[0] == 'm' && "minicpmo"@[4] == 'c' && "minicpmo"@[7] == 'o'
    );
    reveal_strlit("phi4mm");
    assert(
        "phi4mm"@.len() == 6 && "phi4mm"@[3] == '4' && "phi4mm"@[5] == 'm' && "phi4mm"@[0] == 'p'
            && "phi4mm"@[4] == 'm'
    );
    reveal_strlit("qwen2_5vl");
    assert(
        "qwen2_5vl"@.len() == 9 && "qwen2_5vl"@[3] == 'n' && "qwen2_5vl"@[5] == '_'
            && "qwen2_5vl"@[0] == 'q' && "qwen2_5vl"@[4] == '2' && "qwen2_5vl"@[7] == 'v'
    );
    reveal_strlit("gemma3");
    assert(
        "gemma3"@.len() == 6 && "gemma3"@[3] == 'm' && "gemma3"@[5] == '3' && "gemma3"@[0] == 'g'
            && "gemma3"@[4] == 'a'
    );
    reveal_strlit("mistral3");
    assert(
        "mistral3"@.len() == 8 && "mistral3"@[3] == 't' && "mistral3"@[5] == 'a'
            && "mistral3"@[0] == 'm' && "mistral3"@[4] == 'r' && "mistral3"@[7] == '3'
    );
    reveal_strlit("llama4");
    assert(
        "llama4"@.len() == 6 && "llama4"@[3] == 'm' && "llama4"@[5] == '4' && "llama4"@[0] == 'l'
            && "llama4"@[4] == 'a'
    );
    reveal_strlit("gemma3n");
    assert(
        "gemma3n"@.len() == 7 && "gemma3n"@[3] == 'm' && "gemma3n"@[5] == '3'
            && "gemma3n"@[0] == 'g' && "gemma3n"@[4] == 'a'
    );
    reveal_strlit("gemma4");
    assert(
        "gemma4"@.len() == 6 && "gemma4"@[3] == 'm' && "gemma4"@[5] == '4' && "gemma4"@[0] == 'g'
            && "gemma4"@[4] == 'a'
    );
    reveal_strlit("muse_glimmer");
    assert(
        "muse_glimmer"@.len() == 12 && "muse_glimmer"@[3] == 'e' && "muse_glimmer"@[5] == 'g'
            && "muse_glimmer"@[0] == 'm' && "muse_glimmer"@[4] == '_' && "muse_glimmer"@[7] == 'i'
    );
    reveal_strlit("museglimmer");
    assert(
        "museglimmer"@.len() == 11 && "museglimmer"@[3] == 'e' && "museglimmer"@[5] == 'l'
            && "museglimmer"@[0] == 'm' && "museglimmer"@[4] == 'g' && "museglimmer"@[7] == 'm'
    );
    reveal_strlit("diffusiongemma");
    assert(
        "diffusiongemma"@.len() == 14 && "diffusiongemma"@[3] == 'f' && "diffusiongemma"@[5] == 's'
            && "diffusiongemma"@[0] == 'd' && "diffusiongemma"@[4] == 'u'
            && "diffusiongemma"@[7] == 'o'
    );
    reveal_strlit("paddleocr_vl");
    assert(
        "paddleocr_vl"@.len() == 12 && "paddleocr_vl"@[3] == 'd' && "paddleocr_vl"@[5] == 'e'
            && "paddleocr_vl"@[0] == 'p' && "paddleocr_vl"@[4] == 'l' && "paddleocr_vl"@[7] == 'c'
    );
    reveal_strlit("qwen3vl");
    assert(
        "qwen3vl"@.len() == 7 && "qwen3vl"@[3] == 'n' && "qwen3vl"@[5] == 'v'
            && "qwen3vl"@[0] == 'q' && "qwen3vl"@[4] == '3'
    );
    reveal_strlit("qwen3vlmoe");
    assert(
        "qwen3vlmoe"@.len() == 10 && "qwen3vlmoe"@[3] == 'n' && "qwen3vlmoe"@[5] == 'v'
            && "qwen3vlmoe"@[0] == 'q' && "qwen3vlmoe"@[4] == '3' && "qwen3vlmoe"@[7] == 'm'
    );
    reveal_strlit("qwen3_5");
    assert(
        "qwen3_5"@.len() == 7 && "qwen3_5"@[3] == 'n' && "qwen3_5"@[5] == '_'
            && "qwen3_5"@[0] == 'q' && "qwen3_5"@[4] == '3'
    );
    reveal_strlit("qwen3_5moe");
    assert(
        "qwen3_5moe"@.len() == 10 && "qwen3_5moe"@[3] == 'n' && "qwen3_5moe"@[5] == '_'
            && "qwen3_5moe"@[0] == 'q' && "qwen3_5moe"@[4] == '3' && "qwen3_5moe"@[7] == 'm'
    );
    reveal_strlit("voxtral");
    assert(
        "voxtral"@.len() == 7 && "voxtral"@[3] == 't' && "voxtral"@[5] == 'a'
            && "voxtral"@[0] == 'v' && "voxtral"@[4] == 'r'
    );
}

/// The name that an architecture is shown under is read back as it.
pub proof fn law_multimodal_name_is_read_back(t: MultimodalLoaderType)
    ensures
        t.is_called(t.display_text()),
{
}

/// Different architectures have different model types.
pub proof fn law_model_types_differ(a: NormalLoaderType, b: NormalLoaderType)
    requires
        a.model_type_text() == b.model_type_text(),
    ensures
        a == b,
{
    reveal_strlit("mistral");
    assert("mistral"@.len() == 7 && "mistral"@[0] == 'm' && "mistral"@[2] == 's');
    reveal_strlit("gemma");
    assert("gemma"@.len() == 5 && "gemma"@[0] == 'g');
    reveal_strlit("mixtral");
    assert("mixtral"@.len() == 7 && "mixtral"@[0] == 'm' && "mixtral"@[2] == 'x');
    reveal_strlit("llama");
    assert("llama"@.len() == 5 && "llama"@[0] == 'l');
    reveal_strlit("phi");
    assert("phi"@.len() == 3);
    reveal_strlit("phi3");
    assert("phi3"@.len() == 4 && "phi3"@[0] == 'p');
    reveal_strlit("qwen2");
    assert("qwen2"@.len() == 5 && "qwen2"@[0] == 'q' && "qwen2"@[4] == '2');
    reveal_strlit("gemma2");
    assert("gemma2"@.len() == 6 && "gemma2"@[0] == 'g');
    reveal_strlit("starcoder2");
    assert("starcoder2"@.len() == 10 && "starcoder2"@[0] == 's');
    reveal_strlit("phimoe");
    assert("phimoe"@.len() == 6 && "phimoe"@[0] == 'p');
    reveal_strlit("deepseek_v2");
    assert("deepseek_v2"@.len() == 11 && "deepseek_v2"@[10] == '2');
    reveal_strlit("deepseek_v3");
    assert("deepseek_v3"@.len() == 11 && "deepseek_v3"@[10] == '3');
    reveal_strlit("qwen3");
    assert("qwen3"@.len() == 5 && "qwen3"@[0] == 'q' && "qwen3"@[4] == '3');
    reveal_strlit("glm4");
    assert("glm4"@.len() == 4 && "glm4"@[0] == 'g');
    reveal_strlit("glm4_moe_lite");
    assert("glm4_moe_lite"@.len() == 13);
    reveal_strlit("glm4_moe");
    assert("glm4_moe"@.len() == 8 && "glm4_moe"@[0] == 'g');
    reveal_strlit("qwen3_moe");
    assert("qwen3_moe"@.len() == 9);
    reveal_strlit("smollm3");
    assert("smollm3"@.len() == 7 && "smollm3"@[0] == 's');
    reveal_strlit("granitemoehybrid");
    assert("granitemoehybrid"@.len() == 16 && "granitemoehybrid"@[0] == 'g');
    reveal_strlit("gpt_oss");
    assert("gpt_oss"@.len() == 7 && "gpt_oss"@[0] == 'g');
    reveal_strlit("hunyuan_v1_dense");
    assert("hunyuan_v1_dense"@.len() == 16 && "hunyuan_v1_dense"@[0] == 'h');
    reveal_strlit("hunyuan_v1_moe");
    assert("hunyuan_v1_moe"@.len() == 14);
    reveal_strlit("qwen3_next");
    assert("qwen3_next"@.len() == 10 && "qwen3_next"@[0] == 'q');
    reveal_strlit("qwen3_5_text");
    assert("qwen3_5_text"@.len() == 12);
    reveal_strlit("lfm2");
    assert("lfm2"@.len() == 4 && "lfm2"@[0] == 'l');
    reveal_strlit("lfm2_moe");
    assert("lfm2_moe"@.len() == 8 && "lfm2_moe"@[0] == 'l');
}

} // verus!
