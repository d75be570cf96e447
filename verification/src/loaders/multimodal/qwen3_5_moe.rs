//! Qwen3.5 MoE (gated linear and full attention).

use vstd::prelude::*;

use crate::loaders::{
    AutoDeviceMapParams, KvCacheLayout, LoaderError, Modalities, ModelConfigMetadata,
    NonMappedSubModel, PackFactors, PackLookup, SupportedModality,
};
use crate::loaders::patterns::{
    LM_HEAD, ROOT_LM_HEAD, WEIGHT_OR_BIAS, attention_module_texts, attention_modules, family,
    literals, push_family, push_pattern, texts,
};
use crate::loaders::sizes::{
    attention, gated_mlp, gated_mlp_elems, gated_mlp_fits, scores, scores_elems, scores_fits,
    smaller, smaller_elems, text_head, text_head_elems, text_head_fits, word,
};
use crate::tensor::{DType};
use crate::loaders::multimodal::qwen3vl::{
    qwen3vl_image_tokens, qwen3vl_image_tokens_elems, qwen3vl_image_tokens_fits, qwen3vl_vision,
    qwen3vl_vision_act, qwen3vl_vision_act_elems, qwen3vl_vision_act_fits, qwen3vl_vision_elems,
    qwen3vl_vision_fits, Qwen3VLVisionConfig,
};
use crate::loaders::normal::qwen3_next::LayerType;

verus! {

/// What the sizes of the text model depend on.
#[derive(Debug, Clone, Copy, PartialEq, Eq, Structural)]
pub struct Qwen3_5MoeTextConfig {
    pub hidden_size: usize,
    pub vocab_size: usize,
    pub num_hidden_layers: usize,
    pub num_attention_heads: usize,
    pub num_key_value_heads: usize,
    pub head_dim: usize,
    pub max_position_embeddings: usize,
    pub num_experts: usize,
    pub moe_intermediate_size: usize,
    pub shared_expert_intermediate_size: usize,
    pub linear_value_dim: usize,
    pub linear_conv_dim: usize,
    pub linear_conv_kernel_dim: usize,
    pub linear_num_value_heads: usize,
    pub linear_value_head_dim: usize,
}

/// What the sizes depend on.
#[derive(Debug, Clone, Copy, PartialEq, Eq, Structural)]
pub struct Qwen3_5MoeConfig {
    pub text_config: Qwen3_5MoeTextConfig,
    pub vision_config: Qwen3VLVisionConfig,
    pub tie_word_embeddings: bool,
}

/// Scores of a prompt chunk with its images.
pub open spec fn qwen3_5_moe_mapped_act_elems(
    cfg: Qwen3_5MoeConfig,
    seq: int,
    batch: int,
    height: int,
    width: int,
    images: int,
    chunk: int,
) -> int {
    let heads = cfg.text_config.num_attention_heads as int;
    let tokens = qwen3vl_image_tokens_elems(cfg.vision_config, height, width, images);
    let total = tokens + smaller_elems(seq, chunk);
    scores_elems(batch, heads, total, total)
}

/// Every step of `qwen3_5_moe_mapped_act` fits a machine word.
pub open spec fn qwen3_5_moe_mapped_act_fits(
    cfg: Qwen3_5MoeConfig,
    seq: int,
    batch: int,
    height: int,
    width: int,
    images: int,
    chunk: int,
) -> bool {
    let heads = cfg.text_config.num_attention_heads as int;
    let tokens = qwen3vl_image_tokens_elems(cfg.vision_config, height, width, images);
    let total = tokens + smaller_elems(seq, chunk);
    &&& qwen3vl_image_tokens_fits(cfg.vision_config, height, width, images)
    &&& word(tokens + smaller_elems(seq, chunk))
    &&& scores_fits(batch, heads, total, total)
}

/// Scores of a prompt chunk with its images.
pub fn qwen3_5_moe_mapped_act(
    cfg: &Qwen3_5MoeConfig,
    seq: usize,
    batch: usize,
    height: usize,
    width: usize,
    images: usize,
    chunk: usize,
) -> (r: usize)
    requires
        qwen3_5_moe_mapped_act_fits(
            *cfg,
            seq as int,
            batch as int,
            height as int,
            width as int,
            images as int,
            chunk as int,
        ),
    ensures
        r == qwen3_5_moe_mapped_act_elems(
            *cfg,
            seq as int,
            batch as int,
            height as int,
            width as int,
            images as int,
            chunk as int,
        ),
{
    let heads: usize = cfg.text_config.num_attention_heads;
    let tokens: usize = qwen3vl_image_tokens(&cfg.vision_config, height, width, images);
    let total: usize = tokens + smaller(seq, chunk);
    scores(batch, heads, total, total)
}

/// What is not mapped to layers.
pub open spec fn qwen3_5_moe_non_mapped_elems(cfg: Qwen3_5MoeConfig, packs: PackFactors) -> int {
    let hidden = cfg.text_config.hidden_size as int;
    let vocab = cfg.text_config.vocab_size as int;
    let embed_pack = packs.embed_tokens as int;
    let head_pack = packs.lm_head as int;
    let tied = cfg.tie_word_embeddings;
    let text = text_head_elems(hidden, vocab, tied, embed_pack, head_pack);
    let vision = qwen3vl_vision_elems(cfg.vision_config);
    text + vision
}

/// Every step of `qwen3_5_moe_non_mapped` fits a machine word.
pub open spec fn qwen3_5_moe_non_mapped_fits(cfg: Qwen3_5MoeConfig, packs: PackFactors) -> bool {
    let hidden = cfg.text_config.hidden_size as int;
    let vocab = cfg.text_config.vocab_size as int;
    let embed_pack = packs.embed_tokens as int;
    let head_pack = packs.lm_head as int;
    let tied = cfg.tie_word_embeddings;
    let text = text_head_elems(hidden, vocab, tied, embed_pack, head_pack);
    let vision = qwen3vl_vision_elems(cfg.vision_config);
    &&& text_head_fits(hidden, vocab, tied, embed_pack, head_pack)
    &&& qwen3vl_vision_fits(cfg.vision_config)
    &&& word(text + vision)
}

/// What is not mapped to layers.
pub fn qwen3_5_moe_non_mapped(cfg: &Qwen3_5MoeConfig, packs: PackFactors) -> (r: usize)
    requires
        qwen3_5_moe_non_mapped_fits(*cfg, packs),
    ensures
        r == qwen3_5_moe_non_mapped_elems(*cfg, packs),
{
    let hidden: usize = cfg.text_config.hidden_size;
    let vocab: usize = cfg.text_config.vocab_size;
    let embed_pack: usize = packs.embed_tokens;
    let head_pack: usize = packs.lm_head;
    let tied: bool = cfg.tie_word_embeddings;
    let text: usize = text_head(hidden, vocab, tied, embed_pack, head_pack);
    let vision: usize = qwen3vl_vision(&cfg.vision_config);
    text + vision
}

/// Full attention with gated queries.
pub open spec fn qwen3_5_full_elems(cfg: Qwen3_5MoeTextConfig, pack: int) -> int {
    let hidden = cfg.hidden_size as int;
    let head = cfg.head_dim as int;
    let heads = cfg.num_attention_heads as int;
    let kv_heads = cfg.num_key_value_heads as int;
    let size_q = head * heads;
    let size_kv = head * kv_heads;
    let q_proj = hidden * size_q * 2 / pack;
    let kv_proj = hidden * size_kv / pack;
    let o_proj = size_q * hidden / pack;
    q_proj + kv_proj + kv_proj + o_proj + head + head
}

/// Every step of `qwen3_5_full` fits a machine word.
pub open spec fn qwen3_5_full_fits(cfg: Qwen3_5MoeTextConfig, pack: int) -> bool {
    let hidden = cfg.hidden_size as int;
    let head = cfg.head_dim as int;
    let heads = cfg.num_attention_heads as int;
    let kv_heads = cfg.num_key_value_heads as int;
    let size_q = head * heads;
    let size_kv = head * kv_heads;
    let q_proj = hidden * size_q * 2 / pack;
    let kv_proj = hidden * size_kv / pack;
    let o_proj = size_q * hidden / pack;
    &&& word(head * heads)
    &&& word(head * kv_heads)
    &&& word(hidden * size_q)
    &&& word(hidden * size_q * 2)
    &&& pack > 0
    &&& word(hidden * size_kv)
    &&& word(size_q * hidden)
    &&& word(q_proj + kv_proj + kv_proj + o_proj + head + head)
}

/// Full attention with gated queries.
pub fn qwen3_5_full(cfg: &Qwen3_5MoeTextConfig, pack: usize) -> (r: usize)
    requires
        qwen3_5_full_fits(*cfg, pack as int),
    ensures
        r == qwen3_5_full_elems(*cfg, pack as int),
{
    let hidden: usize = cfg.hidden_size;
    let head: usize = cfg.head_dim;
    let heads: usize = cfg.num_attention_heads;
    let kv_heads: usize = cfg.num_key_value_heads;
    let size_q: usize = head * heads;
    let size_kv: usize = head * kv_heads;
    let q_proj: usize = hidden * size_q * 2 / pack;
    let kv_proj: usize = hidden * size_kv / pack;
    let o_proj: usize = size_q * hidden / pack;
    q_proj + kv_proj + kv_proj + o_proj + head + head
}

/// Gated linear attention.
pub open spec fn qwen3_5_linear_elems(cfg: Qwen3_5MoeTextConfig, pack: int) -> int {
    let hidden = cfg.hidden_size as int;
    let value = cfg.linear_value_dim as int;
    let conv = cfg.linear_conv_dim as int;
    let kernel = cfg.linear_conv_kernel_dim as int;
    let value_heads = cfg.linear_num_value_heads as int;
    let value_head = cfg.linear_value_head_dim as int;
    let in_proj_qkv = hidden * conv / pack;
    let in_proj_z = hidden * value / pack;
    let in_proj_ba = hidden * (value_heads * 2) / pack;
    let out_proj = value * hidden / pack;
    let conv1d = conv * kernel;
    in_proj_qkv + in_proj_z + in_proj_ba + out_proj + conv1d + value_heads + value_heads
        + value_head
}

/// Every step of `qwen3_5_linear` fits a machine word.
pub open spec fn qwen3_5_linear_fits(cfg: Qwen3_5MoeTextConfig, pack: int) -> bool {
    let hidden = cfg.hidden_size as int;
    let value = cfg.linear_value_dim as int;
    let conv = cfg.linear_conv_dim as int;
    let kernel = cfg.linear_conv_kernel_dim as int;
    let value_heads = cfg.linear_num_value_heads as int;
    let value_head = cfg.linear_value_head_dim as int;
    let in_proj_qkv = hidden * conv / pack;
    let in_proj_z = hidden * value / pack;
    let in_proj_ba = hidden * (value_heads * 2) / pack;
    let out_proj = value * hidden / pack;
    let conv1d = conv * kernel;
    &&& word(hidden * conv)
    &&& pack > 0
    &&& word(hidden * value)
    &&& word(value_heads * 2)
    &&& word(hidden * (value_heads * 2))
    &&& word(value * hidden)
    &&& word(conv * kernel)
    &&& word(
        in_proj_qkv + in_proj_z + in_proj_ba + out_proj + conv1d + value_heads + value_heads
            + value_head,
    )
}

/// Gated linear attention.
pub fn qwen3_5_linear(cfg: &Qwen3_5MoeTextConfig, pack: usize) -> (r: usize)
    requires
        qwen3_5_linear_fits(*cfg, pack as int),
    ensures
        r == qwen3_5_linear_elems(*cfg, pack as int),
{
    let hidden: usize = cfg.hidden_size;
    let value: usize = cfg.linear_value_dim;
    let conv: usize = cfg.linear_conv_dim;
    let kernel: usize = cfg.linear_conv_kernel_dim;
    let value_heads: usize = cfg.linear_num_value_heads;
    let value_head: usize = cfg.linear_value_head_dim;
    let in_proj_qkv: usize = hidden * conv / pack;
    let in_proj_z: usize = hidden * value / pack;
    let in_proj_ba: usize = hidden * (value_heads * 2) / pack;
    let out_proj: usize = value * hidden / pack;
    let conv1d: usize = conv * kernel;
    in_proj_qkv + in_proj_z + in_proj_ba + out_proj + conv1d + value_heads + value_heads
        + value_head
}

/// The routed experts, the shared expert and their gates.
pub open spec fn qwen3_5_experts_elems(cfg: Qwen3_5MoeTextConfig, pack: int) -> int {
    let hidden = cfg.hidden_size as int;
    let experts = cfg.num_experts as int;
    let width = cfg.moe_intermediate_size as int;
    let shared_width = cfg.shared_expert_intermediate_size as int;
    let gate = hidden * experts;
    let per_expert = gated_mlp_elems(hidden, width, pack);
    let shared_expert = gated_mlp_elems(hidden, shared_width, pack);
    gate + per_expert * experts + shared_expert + hidden
}

/// Every step of `qwen3_5_experts` fits a machine word.
pub open spec fn qwen3_5_experts_fits(cfg: Qwen3_5MoeTextConfig, pack: int) -> bool {
    let hidden = cfg.hidden_size as int;
    let experts = cfg.num_experts as int;
    let width = cfg.moe_intermediate_size as int;
    let shared_width = cfg.shared_expert_intermediate_size as int;
    let gate = hidden * experts;
    let per_expert = gated_mlp_elems(hidden, width, pack);
    let shared_expert = gated_mlp_elems(hidden, shared_width, pack);
    &&& word(hidden * experts)
    &&& gated_mlp_fits(hidden, width, pack)
    &&& gated_mlp_fits(hidden, shared_width, pack)
    &&& word(per_expert * experts)
    &&& word(gate + per_expert * experts + shared_expert + hidden)
}

/// The routed experts, the shared expert and their gates.
pub fn qwen3_5_experts(cfg: &Qwen3_5MoeTextConfig, pack: usize) -> (r: usize)
    requires
        qwen3_5_experts_fits(*cfg, pack as int),
    ensures
        r == qwen3_5_experts_elems(*cfg, pack as int),
{
    let hidden: usize = cfg.hidden_size;
    let experts: usize = cfg.num_experts;
    let width: usize = cfg.moe_intermediate_size;
    let shared_width: usize = cfg.shared_expert_intermediate_size;
    let gate: usize = hidden * experts;
    let per_expert: usize = gated_mlp(hidden, width, pack);
    let shared_expert: usize = gated_mlp(hidden, shared_width, pack);
    gate + per_expert * experts + shared_expert + hidden
}

/// A layer of the given kind, with its experts.
pub open spec fn qwen3_5_moe_layer_elems(cfg: Qwen3_5MoeConfig, kind: LayerType, pack: int) -> int {
    let hidden = cfg.text_config.hidden_size as int;
    let text = cfg.text_config;
    let attn = match kind {
        LayerType::FullAttention => qwen3_5_full_elems(text, pack),
        LayerType::LinearAttention => qwen3_5_linear_elems(text, pack),
    };
    let moe = qwen3_5_experts_elems(text, pack);
    hidden + hidden + attn + moe
}

/// Every step of `qwen3_5_moe_layer` fits a machine word.
pub open spec fn qwen3_5_moe_layer_fits(cfg: Qwen3_5MoeConfig, kind: LayerType, pack: int) -> bool {
    let hidden = cfg.text_config.hidden_size as int;
    let text = cfg.text_config;
    let attn = match kind {
        LayerType::FullAttention => qwen3_5_full_elems(text, pack),
        LayerType::LinearAttention => qwen3_5_linear_elems(text, pack),
    };
    let moe = qwen3_5_experts_elems(text, pack);
    &&& kind == LayerType::FullAttention ==> qwen3_5_full_fits(text, pack)
    &&& kind == LayerType::LinearAttention ==> qwen3_5_linear_fits(text, pack)
    &&& qwen3_5_experts_fits(text, pack)
    &&& word(hidden + hidden + attn + moe)
}

/// A layer of the given kind, with its experts.
pub fn qwen3_5_moe_layer(cfg: &Qwen3_5MoeConfig, kind: LayerType, pack: usize) -> (r: usize)
    requires
        qwen3_5_moe_layer_fits(*cfg, kind, pack as int),
    ensures
        r == qwen3_5_moe_layer_elems(*cfg, kind, pack as int),
{
    let hidden: usize = cfg.text_config.hidden_size;
    let text = &cfg.text_config;
    let attn: usize = match kind {
        LayerType::FullAttention => qwen3_5_full(text, pack),
        LayerType::LinearAttention => qwen3_5_linear(text, pack),
    };
    let moe: usize = qwen3_5_experts(text, pack);
    hidden + hidden + attn + moe
}

/// Marks the media of Qwen3.5 MoE (gated linear and full attention) prompts.
pub struct Qwen3_5MoePrefixer;

impl Qwen3_5MoePrefixer {
    /// The prompt with its image marks: the chat template sets them.
    pub fn prefix_image(&self, image_indexes: &Vec<usize>, prompt: &str) -> (r: String)
        ensures
            r@ == prompt@,
    {
        prompt.to_owned()
    }
}

/// Loader of Qwen3.5 MoE (gated linear and full attention) models.
pub struct Qwen3_5MoeLoader;

impl Qwen3_5MoeLoader {
    /// Elements of the largest activation of a layer.
    pub fn mapped_max_act_size_elems(
        &self,
        cfg: &Qwen3_5MoeConfig,
        params: &AutoDeviceMapParams,
        attention_chunk: usize,
    ) -> (r: Result<usize, LoaderError>)
        requires
            match *params {
                AutoDeviceMapParams::Multimodal {
                    max_seq_len,
                    max_batch_size,
                    max_image_shape,
                    max_num_images,
                } => qwen3_5_moe_mapped_act_fits(
                    *cfg,
                    max_seq_len as int,
                    max_batch_size as int,
                    max_image_shape.0 as int,
                    max_image_shape.1 as int,
                    max_num_images as int,
                    attention_chunk as int,
                ),
                _ => true,
            },
        ensures
            match *params {
                AutoDeviceMapParams::Multimodal {
                    max_seq_len,
                    max_batch_size,
                    max_image_shape,
                    max_num_images,
                } => r matches Ok(n) && n == qwen3_5_moe_mapped_act_elems(
                    *cfg,
                    max_seq_len as int,
                    max_batch_size as int,
                    max_image_shape.0 as int,
                    max_image_shape.1 as int,
                    max_num_images as int,
                    attention_chunk as int,
                ),
                _ => r == Err::<usize, LoaderError>(LoaderError::ExpectedMultimodal),
            },
    {
        match params {
            AutoDeviceMapParams::Multimodal {
                max_seq_len,
                max_batch_size,
                max_image_shape,
                max_num_images,
            } => Ok(
                qwen3_5_moe_mapped_act(
                    cfg,
                    *max_seq_len,
                    *max_batch_size,
                    max_image_shape.0,
                    max_image_shape.1,
                    *max_num_images,
                    attention_chunk,
                ),
            ),
            _ => Err(LoaderError::ExpectedMultimodal),
        }
    }

    /// Elements of the largest activation outside the layers.
    pub fn non_mapped_max_act_size_elems(
        &self,
        cfg: &Qwen3_5MoeConfig,
        params: &AutoDeviceMapParams,
    ) -> (r: Result<usize, LoaderError>)
        requires
            match *params {
                AutoDeviceMapParams::Multimodal {
                    max_batch_size,
                    max_image_shape,
                    max_num_images,
                    ..
                } => qwen3vl_vision_act_fits(
                    cfg.vision_config,
                    max_batch_size as int,
                    max_image_shape.0 as int,
                    max_image_shape.1 as int,
                    max_num_images as int,
                ),
                _ => true,
            },
        ensures
            match *params {
                AutoDeviceMapParams::Multimodal {
                    max_batch_size,
                    max_image_shape,
                    max_num_images,
                    ..
                } => r matches Ok(n) && n == qwen3vl_vision_act_elems(
                    cfg.vision_config,
                    max_batch_size as int,
                    max_image_shape.0 as int,
                    max_image_shape.1 as int,
                    max_num_images as int,
                ),
                _ => r == Err::<usize, LoaderError>(LoaderError::ExpectedMultimodal),
            },
    {
        match params {
            AutoDeviceMapParams::Multimodal {
                max_batch_size,
                max_image_shape,
                max_num_images,
                ..
            } => Ok(
                qwen3vl_vision_act(
                    &cfg.vision_config,
                    *max_batch_size,
                    max_image_shape.0,
                    max_image_shape.1,
                    *max_num_images,
                ),
            ),
            _ => Err(LoaderError::ExpectedMultimodal),
        }
    }

    /// The tensors by whose quantization the pack factors are known.
    pub fn pack_lookup(&self, cfg: &Qwen3_5MoeConfig) -> (r: PackLookup)
        ensures
            r.asks(
                seq![
                    "language_model.model.embed_tokens.weight"@,
                    "model.language_model.embed_tokens.weight"@,
                ],
                "lm_head.weight"@,
                cfg.tie_word_embeddings,
            ),
    {
        let embed_tokens = vec![
            "language_model.model.embed_tokens.weight",
            "model.language_model.embed_tokens.weight",
        ];
        assert(literals(embed_tokens@) =~= seq![
            "language_model.model.embed_tokens.weight"@,
            "model.language_model.embed_tokens.weight"@,
        ]);
        PackLookup { embed_tokens, lm_head: "lm_head.weight", tied: cfg.tie_word_embeddings }
    }

    /// Bytes of what is not mapped to layers.
    pub fn non_mapped_size_in_bytes(
        &self,
        cfg: &Qwen3_5MoeConfig,
        dtype: DType,
        packs: PackFactors,
    ) -> (r: usize)
        requires
            qwen3_5_moe_non_mapped_fits(*cfg, packs),
            word(qwen3_5_moe_non_mapped_elems(*cfg, packs) * dtype.bytes()),
        ensures
            r == qwen3_5_moe_non_mapped_elems(*cfg, packs) * dtype.bytes(),
    {
        let elems: usize = qwen3_5_moe_non_mapped(cfg, packs);
        elems * dtype.size_in_bytes()
    }

    /// Bytes of each layer, by the kinds of the layers.
    pub fn layer_sizes_in_bytes(
        &self,
        cfg: &Qwen3_5MoeConfig,
        layers: &Vec<LayerType>,
        dtype: DType,
        weight_pack_factor: usize,
    ) -> (r: Vec<usize>)
        requires
            forall|i: int| 0 <= i < layers@.len()
                ==> qwen3_5_moe_layer_fits(*cfg, #[trigger] layers@[i], weight_pack_factor as int)
                && word(
                    qwen3_5_moe_layer_elems(
                        *cfg,
                        layers@[i],
                        weight_pack_factor as int,
                    ) * dtype.bytes(),
                ),
        ensures
            r@.len() == layers@.len(),
            forall|i: int| 0 <= i < r@.len()
                ==> #[trigger] r@[i] == qwen3_5_moe_layer_elems(
                    *cfg,
                    layers@[i],
                    weight_pack_factor as int,
                ) * dtype.bytes(),
    {
        let n: usize = layers.len();
        let mut r: Vec<usize> = Vec::with_capacity(n);
        let mut i: usize = 0;
        while i < n
            invariant
                i <= n == layers@.len(),
                r@.len() == i,
                forall|j: int| 0 <= j < layers@.len()
                    ==> qwen3_5_moe_layer_fits(
                        *cfg,
                        #[trigger] layers@[j],
                        weight_pack_factor as int,
                    )
                    && word(
                        qwen3_5_moe_layer_elems(
                            *cfg,
                            layers@[j],
                            weight_pack_factor as int,
                        ) * dtype.bytes(),
                    ),
                forall|j: int| 0 <= j < i
                    ==> #[trigger] r@[j] == qwen3_5_moe_layer_elems(
                        *cfg,
                        layers@[j],
                        weight_pack_factor as int,
                    ) * dtype.bytes(),
            decreases n - i,
        {
            assert(qwen3_5_moe_layer_fits(*cfg, layers@[i as int], weight_pack_factor as int));
            let elems: usize = qwen3_5_moe_layer(cfg, layers[i], weight_pack_factor);
            r.push(elems * dtype.size_in_bytes());
            i += 1;
        }
        r
    }

    /// Number of layers.
    pub fn num_layers(&self, cfg: &Qwen3_5MoeConfig) -> (r: usize)
        ensures
            r == cfg.text_config.num_hidden_layers,
    {
        cfg.text_config.num_hidden_layers
    }

    /// What the paged cache needs to know of the model.
    pub fn model_config(&self, cfg: &Qwen3_5MoeConfig) -> (r: ModelConfigMetadata)
        ensures
            r == (ModelConfigMetadata {
                max_seq_len: cfg.text_config.max_position_embeddings,
                num_layers: cfg.text_config.num_hidden_layers,
                hidden_size: cfg.text_config.hidden_size,
                num_kv_heads: cfg.text_config.num_key_value_heads,
                num_attn_heads: cfg.text_config.num_attention_heads,
                sliding_window: None,
                k_head_dim: cfg.text_config.head_dim,
                v_head_dim: cfg.text_config.head_dim,
                kv_cache_layout: KvCacheLayout::Standard,
            }),
    {
        ModelConfigMetadata {
                max_seq_len: cfg.text_config.max_position_embeddings,
                num_layers: cfg.text_config.num_hidden_layers,
                hidden_size: cfg.text_config.hidden_size,
                num_kv_heads: cfg.text_config.num_key_value_heads,
                num_attn_heads: cfg.text_config.num_attention_heads,
                sliding_window: None,
                k_head_dim: cfg.text_config.head_dim,
                v_head_dim: cfg.text_config.head_dim,
                kv_cache_layout: KvCacheLayout::Standard,
        }
    }

    /// Which layers keep keys and values in the paged cache: those with full
    /// attention.
    pub fn paged_layers(&self, layers: &Vec<LayerType>) -> (r: Vec<bool>)
        ensures
            r@ == Seq::new(layers@.len(), |i: int| layers@[i] == LayerType::FullAttention),
    {
        let n: usize = layers.len();
        let mut r: Vec<bool> = Vec::with_capacity(n);
        let mut i: usize = 0;
        while i < n
            invariant
                i <= n == layers@.len(),
                r@ == Seq::new(i as nat, |j: int| layers@[j] == LayerType::FullAttention),
            decreases n - i,
        {
            r.push(matches!(layers[i], LayerType::FullAttention));
            i += 1;
            assert(r@ =~= Seq::new(i as nat, |j: int| layers@[j] == LayerType::FullAttention));
        }
        r
    }

    /// The parts that are not mapped to layers.
    pub fn non_mapped_sub_models(&self) -> (r: Option<Vec<NonMappedSubModel>>)
        ensures
            r matches Some(v) && v@ == seq![NonMappedSubModel::Vision],
    {
        Some(vec![NonMappedSubModel::Vision])
    }

    /// What the model reads and writes.
    pub fn modalities(&self) -> (r: Modalities)
        ensures
            r.reads(
                seq![SupportedModality::Text, SupportedModality::Vision, SupportedModality::Video],
            ),
    {
        Modalities {
            input: vec![
                SupportedModality::Text,
                SupportedModality::Vision,
                SupportedModality::Video,
            ],
            output: vec![SupportedModality::Text],
        }
    }

    /// Whether rotary embeddings split a head in halves by default.
    pub fn is_gptx(&self) -> (r: bool)
        ensures
            r == true,
    {
        true
    }

    /// Whether the model runs with paged attention.
    pub fn supports_paged_attention(&self) -> (r: bool)
        ensures
            r == true,
    {
        true
    }

    /// Whether encoder outputs can be cached.
    pub fn supports_encoder_cache(&self) -> (r: bool)
        ensures
            r == true,
    {
        true
    }

    /// Whether prompt prefixes can be cached.
    pub fn supports_prefix_cacher(&self) -> (r: bool)
        ensures
            r == true,
    {
        true
    }

    /// Tensors that keep a higher precision when quantized.
    pub open spec fn promoted_isq_predicates_texts(&self) -> Seq<Seq<char>> {
        seq![
            r"^(language_model\.model|model\.language_model)\.embed_tokens\.weight$"@,
        ] + seq![ROOT_LM_HEAD@]
    }

    /// Tensors that keep a higher precision when quantized.
    pub fn promoted_isq_predicates(&self) -> (r: Vec<String>)
        ensures
            texts(r@) == self.promoted_isq_predicates_texts(),
    {
        let mut out: Vec<String> = Vec::new();
        push_pattern(
            &mut out,
            r"^(language_model\.model|model\.language_model)\.embed_tokens\.weight$",
        );
        push_pattern(&mut out, ROOT_LM_HEAD);
        assert(texts(out@) =~= self.promoted_isq_predicates_texts());
        out
    }

    /// Tensors that are quantized.
    pub open spec fn isq_layer_regexes_texts(&self) -> Seq<Seq<char>> {
        seq![LM_HEAD@] + family(
            r"^(language_model\.model|model\.language_model)\.layers\.(\d+)\."@,
            attention_module_texts(),
            WEIGHT_OR_BIAS@,
        ) + family(
                r"^(language_model\.model|model\.language_model)\.layers\.(\d+)\."@,
                seq![
                    r"linear_attn\.in_proj_qkv"@,
                    r"linear_attn\.in_proj_z"@,
                    r"linear_attn\.in_proj_b"@,
                    r"linear_attn\.in_proj_a"@,
                    r"linear_attn\.out_proj"@,
                    r"mlp\.experts\.(\d+)\.gate_proj"@,
                    r"mlp\.experts\.(\d+)\.up_proj"@,
                    r"mlp\.experts\.(\d+)\.down_proj"@,
                ],
                WEIGHT_OR_BIAS@,
            ) + family(
                r"^(language_model\.model|model\.language_model)\.layers\.(\d+)\."@,
                seq![
                    r"mlp\.experts\.(gate_proj|up_proj|down_proj)"@,
                    r"mlp\.experts\.gate_up_proj"@,
                    r"mlp\.experts\.down_proj"@,
                ],
                r"\.weight$"@,
            ) + family(
                r"^(language_model\.model|model\.language_model)\.layers\.(\d+)\."@,
                seq![
                    r"mlp\.shared_expert\.gate_proj"@,
                    r"mlp\.shared_expert\.up_proj"@,
                    r"mlp\.shared_expert\.down_proj"@,
                ],
                WEIGHT_OR_BIAS@,
            )
    }

    /// Tensors that are quantized.
    pub fn isq_layer_regexes(&self) -> (r: Vec<String>)
        ensures
            texts(r@) == self.isq_layer_regexes_texts(),
    {
        let mut out: Vec<String> = Vec::new();
        push_pattern(&mut out, LM_HEAD);
        push_family(
            &mut out,
            r"^(language_model\.model|model\.language_model)\.layers\.(\d+)\.",
            &attention_modules(),
            WEIGHT_OR_BIAS,
        );
        let list0 = vec![
            r"linear_attn\.in_proj_qkv",
            r"linear_attn\.in_proj_z",
            r"linear_attn\.in_proj_b",
            r"linear_attn\.in_proj_a",
            r"linear_attn\.out_proj",
            r"mlp\.experts\.(\d+)\.gate_proj",
            r"mlp\.experts\.(\d+)\.up_proj",
            r"mlp\.experts\.(\d+)\.down_proj",
        ];
        assert(
            literals(list0@) =~= seq![
                r"linear_attn\.in_proj_qkv"@,
                r"linear_attn\.in_proj_z"@,
                r"linear_attn\.in_proj_b"@,
                r"linear_attn\.in_proj_a"@,
                r"linear_attn\.out_proj"@,
                r"mlp\.experts\.(\d+)\.gate_proj"@,
                r"mlp\.experts\.(\d+)\.up_proj"@,
                r"mlp\.experts\.(\d+)\.down_proj"@,
            ]
        );
        push_family(
            &mut out,
            r"^(language_model\.model|model\.language_model)\.layers\.(\d+)\.",
            &list0,
            WEIGHT_OR_BIAS,
        );
        let list1 = vec![
            r"mlp\.experts\.(gate_proj|up_proj|down_proj)",
            r"mlp\.experts\.gate_up_proj",
            r"mlp\.experts\.down_proj",
        ];
        assert(
            literals(list1@) =~= seq![
                r"mlp\.experts\.(gate_proj|up_proj|down_proj)"@,
                r"mlp\.experts\.gate_up_proj"@,
                r"mlp\.experts\.down_proj"@,
            ]
        );
        push_family(
            &mut out,
            r"^(language_model\.model|model\.language_model)\.layers\.(\d+)\.",
            &list1,
            r"\.weight$",
        );
        let list2 = vec![
            r"mlp\.shared_expert\.gate_proj",
            r"mlp\.shared_expert\.up_proj",
            r"mlp\.shared_expert\.down_proj",
        ];
        assert(
            literals(list2@) =~= seq![
                r"mlp\.shared_expert\.gate_proj"@,
                r"mlp\.shared_expert\.up_proj"@,
                r"mlp\.shared_expert\.down_proj"@,
            ]
        );
        push_family(
            &mut out,
            r"^(language_model\.model|model\.language_model)\.layers\.(\d+)\.",
            &list2,
            WEIGHT_OR_BIAS,
        );
        assert(texts(out@) =~= self.isq_layer_regexes_texts());
        out
    }

    /// Tensors that are quantized while they are loaded: those that are quantized.
    pub fn immediate_isq_predicates(&self) -> (r: Vec<String>)
        ensures
            texts(r@) == self.isq_layer_regexes_texts(),
    {
        self.isq_layer_regexes()
    }

    /// Expert tensors that are quantized.
    pub open spec fn isq_layer_regexes_moqe_texts(&self) -> Seq<Seq<char>> {
        family(
                r"^(language_model\.model|model\.language_model)\.layers\.(\d+)\."@,
                seq![
                    r"mlp\.experts\.(\d+)\.gate_proj"@,
                    r"mlp\.experts\.(\d+)\.up_proj"@,
                    r"mlp\.experts\.(\d+)\.down_proj"@,
                ],
                WEIGHT_OR_BIAS@,
            ) + family(
                r"^(language_model\.model|model\.language_model)\.layers\.(\d+)\."@,
                seq![
                    r"mlp\.experts\.(gate_proj|up_proj|down_proj)"@,
                    r"mlp\.experts\.gate_up_proj"@,
                    r"mlp\.experts\.down_proj"@,
                ],
                r"\.weight$"@,
            )
    }

    /// Expert tensors that are quantized.
    pub fn isq_layer_regexes_moqe(&self) -> (r: Vec<String>)
        ensures
            texts(r@) == self.isq_layer_regexes_moqe_texts(),
    {
        let mut out: Vec<String> = Vec::new();
        let list0 = vec![
            r"mlp\.experts\.(\d+)\.gate_proj",
            r"mlp\.experts\.(\d+)\.up_proj",
            r"mlp\.experts\.(\d+)\.down_proj",
        ];
        assert(
            literals(list0@) =~= seq![
                r"mlp\.experts\.(\d+)\.gate_proj"@,
                r"mlp\.experts\.(\d+)\.up_proj"@,
                r"mlp\.experts\.(\d+)\.down_proj"@,
            ]
        );
        push_family(
            &mut out,
            r"^(language_model\.model|model\.language_model)\.layers\.(\d+)\.",
            &list0,
            WEIGHT_OR_BIAS,
        );
        let list1 = vec![
            r"mlp\.experts\.(gate_proj|up_proj|down_proj)",
            r"mlp\.experts\.gate_up_proj",
            r"mlp\.experts\.down_proj",
        ];
        assert(
            literals(list1@) =~= seq![
                r"mlp\.experts\.(gate_proj|up_proj|down_proj)"@,
                r"mlp\.experts\.gate_up_proj"@,
                r"mlp\.experts\.down_proj"@,
            ]
        );
        push_family(
            &mut out,
            r"^(language_model\.model|model\.language_model)\.layers\.(\d+)\.",
            &list1,
            r"\.weight$",
        );
        assert(texts(out@) =~= self.isq_layer_regexes_moqe_texts());
        out
    }

    /// Expert tensors that are quantized while they are loaded.
    pub fn immediate_isq_predicates_moqe(&self) -> (r: Vec<String>)
        ensures
            texts(r@) == self.isq_layer_regexes_moqe_texts(),
    {
        self.isq_layer_regexes_moqe()
    }
}

/// Where the pattern of an expert tensor stands among those of all tensors that are
/// quantized.
pub open spec fn expert_place(i: int) -> int {
    10 + i
}

/// The expert patterns are a stretch of all patterns: what one of them matches is quantized
/// anyway. In front of them stand those of the output head and of attention, behind them
/// those of the shared expert, and each of them is for the experts of a layer.
pub proof fn law_expert_patterns_are_among_all(loader: Qwen3_5MoeLoader)
    ensures
        ({
            let all = loader.isq_layer_regexes_texts();
            let experts = loader.isq_layer_regexes_moqe_texts();
            &&& experts.len() == 6
            &&& all.len() == 19
            &&& experts == all.subrange(expert_place(0), expert_place(6))
            &&& forall|i: int| 0 <= i < 6 ==> experts[i] == #[trigger] all[expert_place(i)]
            &&& forall|i: int|
                0 <= i < 6 ==> (r"^(language_model\.model|model\.language_model)\.layers\.(\d+)\."@
                    + r"mlp\.experts\."@).is_prefix_of(#[trigger] experts[i])
        }),
{
    let all = loader.isq_layer_regexes_texts();
    let experts = loader.isq_layer_regexes_moqe_texts();
    let layer = r"^(language_model\.model|model\.language_model)\.layers\.(\d+)\."@;
    assert(experts =~= all.subrange(expert_place(0), expert_place(6)));
    assert forall|i: int| 0 <= i < 6 implies (layer + r"mlp\.experts\."@).is_prefix_of(
        #[trigger] experts[i],
    ) by {
        reveal_strlit(r"mlp\.experts\.");
        reveal_strlit(r"mlp\.experts\.(\d+)\.gate_proj");
        reveal_strlit(r"mlp\.experts\.(\d+)\.up_proj");
        reveal_strlit(r"mlp\.experts\.(\d+)\.down_proj");
        reveal_strlit(r"mlp\.experts\.(gate_proj|up_proj|down_proj)");
        reveal_strlit(r"mlp\.experts\.gate_up_proj");
        reveal_strlit(r"mlp\.experts\.down_proj");
        let start = layer + r"mlp\.experts\."@;
        assert(start =~= experts[i].subrange(0, start.len() as int));
    }
}

} // verus!
