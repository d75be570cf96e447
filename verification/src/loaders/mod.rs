//! What a model loader decides from a configuration alone: names, sizes, the
//! layers that tensors belong to, and which tensors may be quantized.

use vstd::prelude::*;

use crate::text::{decimal, push_decimal};

pub mod byte_laws;
pub mod cache_laws;
pub mod json;
pub mod multimodal;
pub mod names;
pub mod normal;
pub mod patterns;
pub mod placement;
pub mod sizes;

verus! {

/// Why a loader refuses.
pub enum LoaderError {
    /// No architecture has a model class of this name.
    UnsupportedClass(String),
    /// No normal architecture has this name.
    UnknownArchitecture(String),
    /// No multimodal architecture has this name.
    UnknownMultimodalArchitecture(String),
    /// The configuration does not name exactly one architecture.
    ArchitectureCount,
    /// The device map parameters are not those of a text model.
    ExpectedText,
    /// The device map parameters are not those of a multimodal model.
    ExpectedMultimodal,
    /// The loader cannot limit the length of its model.
    MaxModelLen(usize),
    /// The multimodal loader cannot limit the length of its model.
    MaxModelLenMultimodal(usize),
    /// A model of no length was asked for.
    MaxModelLenZero,
    /// The configuration has no text model.
    MissingTextConfig,
    /// The configuration cannot be read.
    Config(String),
    /// The model has no X-LoRA variant.
    GraniteXLora,
    /// The model has no X-LoRA variant.
    Lfm2XLora,
    /// The model has no X-LoRA variant.
    Qwen3NextXLora,
    /// The image projection is of an unknown kind.
    ProjectionClass(String),
    /// A tensor name pattern is malformed.
    Pattern(String),
}

impl LoaderError {
    /// The message of a refusal.
    pub open spec fn text(self) -> Seq<char> {
        match self {
            LoaderError::UnsupportedClass(x) => "Unsupported Hugging Face Transformers -CausalLM model class `"@
                + x@ + "`. Please raise an issue."@,
            LoaderError::UnknownArchitecture(x) => "Unknown architecture `"@ + x@
                + "`. Possible architectures: `mistral`, `gemma`, `mixtral`, `llama`, `phi2`, `phi3`, `qwen2`, `gemma2`, `starcoder2`, `phi3.5moe`, `deepseekv2`, `deepseekv3`, `qwen3`, `glm4`, `glm4moelite`, `glm4moe`, `qwen3moe`, `smollm3`, `granitemoehybrid`, `gpt_oss`, `hunyuanv1dense`, `hunyuanv1moe`, `qwen3next`, `qwen3_5`, `lfm2`, `lfm2_moe`."@,
            LoaderError::UnknownMultimodalArchitecture(x) => "Unknown architecture `"@ + x@
                + "`. Possible architectures: `phi3v`, `idefics2`, `llava_next`, `llava`, `lfm2vl`, `vllama`, `qwen2vl`, `idefics3`, `minicpmo`, `phi4mm`, `qwen2_5vl`, `gemma3`, `mistral3`, `llama4`, `gemma3n`, `gemma4`, `muse_glimmer`, `qwen3vl`, `qwen3vlmoe`, `qwen3_5`, `qwen3_5moe`, `voxtral`, `diffusiongemma`, `paddleocr_vl`."@,
            LoaderError::ArchitectureCount => "Expected to have one name for `architectures` config field."@,
            LoaderError::ExpectedText => "Expected text AutoDeviceMapParams for this model!"@,
            LoaderError::ExpectedMultimodal => "Expected multimodal AutoDeviceMapParams for this model!"@,
            LoaderError::MaxModelLen(x) => "max_model_len="@ + decimal(x as nat)
                + " is not supported by this model loader"@,
            LoaderError::MaxModelLenMultimodal(x) => "max_model_len="@ + decimal(x as nat)
                + " is not supported by this multimodal loader"@,
            LoaderError::MaxModelLenZero => "max_model_len must be greater than zero"@,
            LoaderError::MissingTextConfig => "Muse-Glimmer config is missing text_config"@,
            LoaderError::Config(x) => x@,
            LoaderError::GraniteXLora => "GraniteMoeHybrid does not support X-LoRA"@,
            LoaderError::Lfm2XLora => "LFM2 does not support X-LoRA"@,
            LoaderError::Qwen3NextXLora => "Qwen3Next does not support X-LoRA"@,
            LoaderError::ProjectionClass(x) => "projection_cls=`"@ + x@ + "` not implemented."@,
            LoaderError::Pattern(x) => x@,
        }
    }

    /// The message of a refusal.
    pub fn message(&self) -> (r: String)
        ensures
            r@ == self.text(),
    {
        match self {
            LoaderError::UnsupportedClass(x) => {
                let mut s: String = "Unsupported Hugging Face Transformers -CausalLM model class `".to_owned();
                s.append(x.as_str());
                s.append("`. Please raise an issue.");
                s
            },
            LoaderError::UnknownArchitecture(x) => {
                let mut s: String = "Unknown architecture `".to_owned();
                s.append(x.as_str());
                s.append(
                    "`. Possible architectures: `mistral`, `gemma`, `mixtral`, `llama`, `phi2`, `phi3`, `qwen2`, `gemma2`, `starcoder2`, `phi3.5moe`, `deepseekv2`, `deepseekv3`, `qwen3`, `glm4`, `glm4moelite`, `glm4moe`, `qwen3moe`, `smollm3`, `granitemoehybrid`, `gpt_oss`, `hunyuanv1dense`, `hunyuanv1moe`, `qwen3next`, `qwen3_5`, `lfm2`, `lfm2_moe`.",
                );
                s
            },
            LoaderError::UnknownMultimodalArchitecture(x) => {
                let mut s: String = "Unknown architecture `".to_owned();
                s.append(x.as_str());
                s.append(
                    "`. Possible architectures: `phi3v`, `idefics2`, `llava_next`, `llava`, `lfm2vl`, `vllama`, `qwen2vl`, `idefics3`, `minicpmo`, `phi4mm`, `qwen2_5vl`, `gemma3`, `mistral3`, `llama4`, `gemma3n`, `gemma4`, `muse_glimmer`, `qwen3vl`, `qwen3vlmoe`, `qwen3_5`, `qwen3_5moe`, `voxtral`, `diffusiongemma`, `paddleocr_vl`.",
                );
                s
            },
            LoaderError::ArchitectureCount => "Expected to have one name for `architectures` config field.".to_owned(),
            LoaderError::ExpectedText => "Expected text AutoDeviceMapParams for this model!".to_owned(),
            LoaderError::ExpectedMultimodal => "Expected multimodal AutoDeviceMapParams for this model!".to_owned(),
            LoaderError::MaxModelLen(x) => {
                let mut s: String = "max_model_len=".to_owned();
                push_decimal(&mut s, *x);
                s.append(" is not supported by this model loader");
                s
            },
            LoaderError::MaxModelLenMultimodal(x) => {
                let mut s: String = "max_model_len=".to_owned();
                push_decimal(&mut s, *x);
                s.append(" is not supported by this multimodal loader");
                s
            },
            LoaderError::MaxModelLenZero => "max_model_len must be greater than zero".to_owned(),
            LoaderError::MissingTextConfig => "Muse-Glimmer config is missing text_config".to_owned(),
            LoaderError::Config(x) => x.clone(),
            LoaderError::GraniteXLora => "GraniteMoeHybrid does not support X-LoRA".to_owned(),
            LoaderError::Lfm2XLora => "LFM2 does not support X-LoRA".to_owned(),
            LoaderError::Qwen3NextXLora => "Qwen3Next does not support X-LoRA".to_owned(),
            LoaderError::ProjectionClass(x) => {
                let mut s: String = "projection_cls=`".to_owned();
                s.append(x.as_str());
                s.append("` not implemented.");
                s
            },
            LoaderError::Pattern(x) => x.clone(),
        }
    }
}

/// The workload that a device map has to leave room for.
#[derive(Debug, Clone, Copy)]
pub enum AutoDeviceMapParams {
    Text { max_seq_len: usize, max_batch_size: usize },
    Multimodal {
        max_seq_len: usize,
        max_batch_size: usize,
        max_image_shape: (usize, usize),
        max_num_images: usize,
    },
}

/// How many elements of a quantized weight share a stored one, for the token
/// embeddings, the output head, and all other weights.
#[derive(Debug, Clone, Copy, PartialEq, Eq, Structural)]
pub struct PackFactors {
    pub embed_tokens: usize,
    pub lm_head: usize,
    pub weight: usize,
}

impl PackFactors {
    /// A packed weight stores something.
    pub open spec fn wf(self) -> bool {
        self.embed_tokens > 0 && self.lm_head > 0 && self.weight > 0
    }
}

/// What the pack factors of a quantized checkpoint are looked up by: the names that the
/// token embeddings may have, the name of the output head, and whether the two are one.
#[derive(Debug)]
pub struct PackLookup {
    pub embed_tokens: Vec<&'static str>,
    pub lm_head: &'static str,
    pub tied: bool,
}

impl PackLookup {
    /// The lookup is by those names.
    pub open spec fn asks(self, embed: Seq<Seq<char>>, head: Seq<char>, tied: bool) -> bool {
        &&& crate::loaders::patterns::literals(self.embed_tokens@) == embed
        &&& self.lm_head@ == head
        &&& self.tied == tied
    }
}

/// How keys and values lie in the paged cache.
#[derive(Debug, Clone, Copy, PartialEq, Eq, Structural)]
pub enum KvCacheLayout {
    Standard,
    StandardNoFlashInfer,
}

/// What the paged cache needs to know of a model.
#[derive(Debug, Clone, Copy, PartialEq, Eq, Structural)]
pub struct ModelConfigMetadata {
    pub max_seq_len: usize,
    pub num_layers: usize,
    pub hidden_size: usize,
    pub num_kv_heads: usize,
    pub num_attn_heads: usize,
    pub sliding_window: Option<usize>,
    pub k_head_dim: usize,
    pub v_head_dim: usize,
    pub kv_cache_layout: KvCacheLayout,
}

/// A kind of input or output.
#[derive(Debug, Clone, Copy, PartialEq, Eq, Structural)]
pub enum SupportedModality {
    Text,
    Vision,
    Audio,
    Video,
}

/// What a model reads and writes.
pub struct Modalities {
    pub input: Vec<SupportedModality>,
    pub output: Vec<SupportedModality>,
}

impl Modalities {
    /// The model reads the given kinds and writes text.
    pub open spec fn reads(&self, kinds: Seq<SupportedModality>) -> bool {
        self.input@ =~= kinds && self.output@ =~= seq![SupportedModality::Text]
    }
}

/// A part of a model that is not mapped to layers.
#[derive(Debug, Clone, Copy, PartialEq, Eq, Structural)]
pub enum NonMappedSubModel {
    Vision,
    Audio,
}

/// How rotary embeddings pair the coordinates of a head.
#[derive(Debug, Clone, Copy, PartialEq, Eq, Structural)]
pub enum RopePairing {
    Adjacent,
    HalfSplit,
}

/// Whether rotary embeddings split a head in halves: what the loading metadata
/// says comes first, then what the configuration says, then the model's habit.
pub fn is_gptx_for(
    loaded: Option<RopePairing>,
    configured: Option<RopePairing>,
    habit: bool,
) -> (r: bool)
    ensures
        r == match (loaded, configured) {
            (Some(pairing), _) => pairing == RopePairing::HalfSplit,
            (None, Some(pairing)) => pairing == RopePairing::HalfSplit,
            (None, None) => habit,
        },
{
    match loaded {
        Some(RopePairing::Adjacent) => false,
        Some(RopePairing::HalfSplit) => true,
        None => match configured {
            Some(RopePairing::Adjacent) => false,
            Some(RopePairing::HalfSplit) => true,
            None => habit,
        },
    }
}

/// The configuration that a loader without a length limit runs with: the given
/// one, unless a limit was asked for.
pub fn runtime_config<'a>(config: &'a str, max_model_len: Option<usize>) -> (r: Result<
    &'a str,
    LoaderError,
>)
    ensures
        match max_model_len {
            Some(n) => r == Err::<&'a str, LoaderError>(LoaderError::MaxModelLen(n)),
            None => r == Ok::<&'a str, LoaderError>(config),
        },
{
    if let Some(max_model_len) = max_model_len {
        return Err(LoaderError::MaxModelLen(max_model_len));
    }
    Ok(config)
}

/// The same for a multimodal loader.
pub fn multimodal_runtime_config<'a>(config: &'a str, max_model_len: Option<usize>) -> (r: Result<
    &'a str,
    LoaderError,
>)
    ensures
        match max_model_len {
            Some(n) => r == Err::<&'a str, LoaderError>(LoaderError::MaxModelLenMultimodal(n)),
            None => r == Ok::<&'a str, LoaderError>(config),
        },
{
    if let Some(max_model_len) = max_model_len {
        return Err(LoaderError::MaxModelLenMultimodal(max_model_len));
    }
    Ok(config)
}

} // verus!
