//! Qwen3Next (Qwen3-Coder-Next).

use vstd::prelude::*;

use crate::loaders::{
    AutoDeviceMapParams, KvCacheLayout, LoaderError, ModelConfigMetadata, PackFactors, PackLookup,
};
use crate::loaders::patterns::{
    ANY_LAYER, LM_HEAD, ROOT_LM_HEAD, WEIGHT_OR_BIAS, attention_module_texts, attention_modules,
    family, literals, push_family, push_pattern, push_patterns, texts,
};
use crate::loaders::sizes::{
    smaller, smaller_elems, text_head, text_head_elems, text_head_fits,
    word,
};
use crate::tensor::{DType};

verus! {

/// What a layer mixes tokens with.
#[derive(Debug, Clone, Copy, PartialEq, Eq, Structural)]
pub enum LayerType {
    FullAttention,
    LinearAttention,
}

/// What the sizes depend on.
#[derive(Debug, Clone, Copy, PartialEq, Eq, Structural)]
pub struct Qwen3NextConfig {
    pub hidden_size: usize,
    pub vocab_size: usize,
    pub tie_word_embeddings: bool,
    pub num_hidden_layers: usize,
    pub num_attention_heads: usize,
    pub num_key_value_heads: usize,
    pub head_dim: usize,
    pub max_position_embeddings: usize,
    pub linear_key_dim: usize,
    pub linear_value_dim: usize,
    pub linear_conv_dim: usize,
    pub linear_conv_kernel_dim: usize,
    pub linear_num_value_heads: usize,
    pub linear_value_head_dim: usize,
    pub num_experts: usize,
    pub moe_intermediate_size: usize,
    pub shared_expert_intermediate_size: usize,
}

/// Scores of a prompt chunk.
pub open spec fn qwen3_next_mapped_act_elems(
    cfg: Qwen3NextConfig,
    seq: int,
    batch: int,
    chunk: int,
) -> int {
    let heads = cfg.num_attention_heads as int;
    let queries = smaller_elems(seq, chunk);
    batch * heads * (queries * queries)
}

/// Every step of `qwen3_next_mapped_act` fits a machine word.
pub open spec fn qwen3_next_mapped_act_fits(
    cfg: Qwen3NextConfig,
    seq: int,
    batch: int,
    chunk: int,
) -> bool {
    let heads = cfg.num_attention_heads as int;
    let queries = smaller_elems(seq, chunk);
    &&& word(batch * heads)
    &&& word(queries * queries)
    &&& word(batch * heads * (queries * queries))
}

/// Scores of a prompt chunk.
pub fn qwen3_next_mapped_act(
    cfg: &Qwen3NextConfig,
    seq: usize,
    batch: usize,
    chunk: usize,
) -> (r: usize)
    requires
        qwen3_next_mapped_act_fits(*cfg, seq as int, batch as int, chunk as int),
    ensures
        r == qwen3_next_mapped_act_elems(*cfg, seq as int, batch as int, chunk as int),
{
    let heads: usize = cfg.num_attention_heads;
    let queries: usize = smaller(seq, chunk);
    batch * heads * (queries * queries)
}

/// Token embeddings, output head and final norm.
pub open spec fn qwen3_next_non_mapped_elems(cfg: Qwen3NextConfig, packs: PackFactors) -> int {
    let hidden = cfg.hidden_size as int;
    let vocab = cfg.vocab_size as int;
    let embed_pack = packs.embed_tokens as int;
    let head_pack = packs.lm_head as int;
    let tied = cfg.tie_word_embeddings;
    text_head_elems(hidden, vocab, tied, embed_pack, head_pack)
}

/// Every step of `qwen3_next_non_mapped` fits a machine word.
pub open spec fn qwen3_next_non_mapped_fits(cfg: Qwen3NextConfig, packs: PackFactors) -> bool {
    let hidden = cfg.hidden_size as int;
    let vocab = cfg.vocab_size as int;
    let embed_pack = packs.embed_tokens as int;
    let head_pack = packs.lm_head as int;
    let tied = cfg.tie_word_embeddings;
    &&& text_head_fits(hidden, vocab, tied, embed_pack, head_pack)
}

/// Token embeddings, output head and final norm.
pub fn qwen3_next_non_mapped(cfg: &Qwen3NextConfig, packs: PackFactors) -> (r: usize)
    requires
        qwen3_next_non_mapped_fits(*cfg, packs),
    ensures
        r == qwen3_next_non_mapped_elems(*cfg, packs),
{
    let hidden: usize = cfg.hidden_size;
    let vocab: usize = cfg.vocab_size;
    let embed_pack: usize = packs.embed_tokens;
    let head_pack: usize = packs.lm_head;
    let tied: bool = cfg.tie_word_embeddings;
    text_head(hidden, vocab, tied, embed_pack, head_pack)
}

/// Full attention with gated queries.
pub open spec fn qwen3_next_full_elems(cfg: Qwen3NextConfig, pack: int) -> int {
    let hidden = cfg.hidden_size as int;
    let head = cfg.head_dim as int;
    let heads = cfg.num_attention_heads as int;
    let kv_heads = cfg.num_key_value_heads as int;
    let q_dim = head * heads;
    let kv_dim = head * kv_heads;
    let q_proj = hidden * q_dim * 2 / pack;
    let kv_proj = hidden * kv_dim / pack;
    let o_proj = q_dim * hidden / pack;
    q_proj + kv_proj + kv_proj + o_proj + head + head
}

/// Every step of `qwen3_next_full` fits a machine word.
pub open spec fn qwen3_next_full_fits(cfg: Qwen3NextConfig, pack: int) -> bool {
    let hidden = cfg.hidden_size as int;
    let head = cfg.head_dim as int;
    let heads = cfg.num_attention_heads as int;
    let kv_heads = cfg.num_key_value_heads as int;
    let q_dim = head * heads;
    let kv_dim = head * kv_heads;
    let q_proj = hidden * q_dim * 2 / pack;
    let kv_proj = hidden * kv_dim / pack;
    let o_proj = q_dim * hidden / pack;
    &&& word(head * heads)
    &&& word(head * kv_heads)
    &&& word(hidden * q_dim)
    &&& word(hidden * q_dim * 2)
    &&& pack > 0
    &&& word(hidden * kv_dim)
    &&& word(q_dim * hidden)
    &&& word(q_proj + kv_proj + kv_proj + o_proj + head + head)
}

/// Full attention with gated queries.
pub fn qwen3_next_full(cfg: &Qwen3NextConfig, pack: usize) -> (r: usize)
    requires
        qwen3_next_full_fits(*cfg, pack as int),
    ensures
        r == qwen3_next_full_elems(*cfg, pack as int),
{
    let hidden: usize = cfg.hidden_size;
    let head: usize = cfg.head_dim;
    let heads: usize = cfg.num_attention_heads;
    let kv_heads: usize = cfg.num_key_value_heads;
    let q_dim: usize = head * heads;
    let kv_dim: usize = head * kv_heads;
    let q_proj: usize = hidden * q_dim * 2 / pack;
    let kv_proj: usize = hidden * kv_dim / pack;
    let o_proj: usize = q_dim * hidden / pack;
    q_proj + kv_proj + kv_proj + o_proj + head + head
}

/// Linear attention.
pub open spec fn qwen3_next_linear_elems(cfg: Qwen3NextConfig, pack: int) -> int {
    let hidden = cfg.hidden_size as int;
    let key = cfg.linear_key_dim as int;
    let value = cfg.linear_value_dim as int;
    let conv = cfg.linear_conv_dim as int;
    let kernel = cfg.linear_conv_kernel_dim as int;
    let value_heads = cfg.linear_num_value_heads as int;
    let value_head = cfg.linear_value_head_dim as int;
    let in_proj_qkvz = hidden * (key * 2 + value * 2) / pack;
    let in_proj_ba = hidden * (value_heads * 2) / pack;
    let out_proj = value * hidden / pack;
    let conv1d = conv * kernel;
    in_proj_qkvz + in_proj_ba + out_proj + conv1d + value_heads + value_heads + value_head
}

/// Every step of `qwen3_next_linear` fits a machine word.
pub open spec fn qwen3_next_linear_fits(cfg: Qwen3NextConfig, pack: int) -> bool {
    let hidden = cfg.hidden_size as int;
    let key = cfg.linear_key_dim as int;
    let value = cfg.linear_value_dim as int;
    let conv = cfg.linear_conv_dim as int;
    let kernel = cfg.linear_conv_kernel_dim as int;
    let value_heads = cfg.linear_num_value_heads as int;
    let value_head = cfg.linear_value_head_dim as int;
    let in_proj_qkvz = hidden * (key * 2 + value * 2) / pack;
    let in_proj_ba = hidden * (value_heads * 2) / pack;
    let out_proj = value * hidden / pack;
    let conv1d = conv * kernel;
    &&& word(key * 2)
    &&& word(value * 2)
    &&& word(key * 2 + value * 2)
    &&& word(hidden * (key * 2 + value * 2))
    &&& pack > 0
    &&& word(value_heads * 2)
    &&& word(hidden * (value_heads * 2))
    &&& word(value * hidden)
    &&& word(conv * kernel)
    &&& word(in_proj_qkvz + in_proj_ba + out_proj + conv1d + value_heads + value_heads + value_head)
}

/// Linear attention.
pub fn qwen3_next_linear(cfg: &Qwen3NextConfig, pack: usize) -> (r: usize)
    requires
        qwen3_next_linear_fits(*cfg, pack as int),
    ensures
        r == qwen3_next_linear_elems(*cfg, pack as int),
{
    let hidden: usize = cfg.hidden_size;
    let key: usize = cfg.linear_key_dim;
    let value: usize = cfg.linear_value_dim;
    let conv: usize = cfg.linear_conv_dim;
    let kernel: usize = cfg.linear_conv_kernel_dim;
    let value_heads: usize = cfg.linear_num_value_heads;
    let value_head: usize = cfg.linear_value_head_dim;
    let in_proj_qkvz: usize = hidden * (key * 2 + value * 2) / pack;
    let in_proj_ba: usize = hidden * (value_heads * 2) / pack;
    let out_proj: usize = value * hidden / pack;
    let conv1d: usize = conv * kernel;
    in_proj_qkvz + in_proj_ba + out_proj + conv1d + value_heads + value_heads + value_head
}

/// A layer of the given kind, with its experts.
pub open spec fn qwen3_next_layer_elems(cfg: Qwen3NextConfig, kind: LayerType, pack: int) -> int {
    let hidden = cfg.hidden_size as int;
    let experts = cfg.num_experts as int;
    let width = cfg.moe_intermediate_size as int;
    let shared_width = cfg.shared_expert_intermediate_size as int;
    let attn = match kind {
        LayerType::FullAttention => qwen3_next_full_elems(cfg, pack),
        LayerType::LinearAttention => qwen3_next_linear_elems(cfg, pack),
    };
    let moe_gate = hidden * experts;
    let shared_expert = 3 * hidden * shared_width / pack;
    let routed_experts = experts * 3 * hidden * width / pack;
    hidden + hidden + attn + moe_gate + shared_expert + routed_experts
}

/// Every step of `qwen3_next_layer` fits a machine word.
pub open spec fn qwen3_next_layer_fits(cfg: Qwen3NextConfig, kind: LayerType, pack: int) -> bool {
    let hidden = cfg.hidden_size as int;
    let experts = cfg.num_experts as int;
    let width = cfg.moe_intermediate_size as int;
    let shared_width = cfg.shared_expert_intermediate_size as int;
    let attn = match kind {
        LayerType::FullAttention => qwen3_next_full_elems(cfg, pack),
        LayerType::LinearAttention => qwen3_next_linear_elems(cfg, pack),
    };
    let moe_gate = hidden * experts;
    let shared_expert = 3 * hidden * shared_width / pack;
    let routed_experts = experts * 3 * hidden * width / pack;
    &&& kind == LayerType::FullAttention ==> qwen3_next_full_fits(cfg, pack)
    &&& kind == LayerType::LinearAttention ==> qwen3_next_linear_fits(cfg, pack)
    &&& word(hidden * experts)
    &&& word(3 * hidden)
    &&& word(3 * hidden * shared_width)
    &&& pack > 0
    &&& word(experts * 3)
    &&& word(experts * 3 * hidden)
    &&& word(experts * 3 * hidden * width)
    &&& word(hidden + hidden + attn + moe_gate + shared_expert + routed_experts)
}

/// A layer of the given kind, with its experts.
pub fn qwen3_next_layer(cfg: &Qwen3NextConfig, kind: LayerType, pack: usize) -> (r: usize)
    requires
        qwen3_next_layer_fits(*cfg, kind, pack as int),
    ensures
        r == qwen3_next_layer_elems(*cfg, kind, pack as int),
{
    let hidden: usize = cfg.hidden_size;
    let experts: usize = cfg.num_experts;
    let width: usize = cfg.moe_intermediate_size;
    let shared_width: usize = cfg.shared_expert_intermediate_size;
    let attn: usize = match kind {
        LayerType::FullAttention => qwen3_next_full(cfg, pack),
        LayerType::LinearAttention => qwen3_next_linear(cfg, pack),
    };
    let moe_gate: usize = hidden * experts;
    let shared_expert: usize = 3 * hidden * shared_width / pack;
    let routed_experts: usize = experts * 3 * hidden * width / pack;
    hidden + hidden + attn + moe_gate + shared_expert + routed_experts
}

/// Loader of Qwen3Next (Qwen3-Coder-Next) models.
pub struct Qwen3NextLoader;

impl Qwen3NextLoader {
    /// Elements of the largest activation of a layer.
    pub fn mapped_max_act_size_elems(
        &self,
        cfg: &Qwen3NextConfig,
        params: &AutoDeviceMapParams,
        attention_chunk: usize,
    ) -> (r: Result<usize, LoaderError>)
        requires
            match *params {
                AutoDeviceMapParams::Text {
                    max_seq_len,
                    max_batch_size,
                } => qwen3_next_mapped_act_fits(
                    *cfg,
                    max_seq_len as int,
                    max_batch_size as int,
                    attention_chunk as int,
                ),
                _ => true,
            },
        ensures
            match *params {
                AutoDeviceMapParams::Text {
                    max_seq_len,
                    max_batch_size,
                } => r matches Ok(n) && n == qwen3_next_mapped_act_elems(
                    *cfg,
                    max_seq_len as int,
                    max_batch_size as int,
                    attention_chunk as int,
                ),
                _ => r == Err::<usize, LoaderError>(LoaderError::ExpectedText),
            },
    {
        match params {
            AutoDeviceMapParams::Text { max_seq_len, max_batch_size } => Ok(
                qwen3_next_mapped_act(cfg, *max_seq_len, *max_batch_size, attention_chunk),
            ),
            _ => Err(LoaderError::ExpectedText),
        }
    }

    /// Elements of the largest activation outside the layers: there is none.
    pub fn non_mapped_max_act_size_elems(&self) -> (r: usize)
        ensures
            r == 0,
    {
        0
    }

    /// The tensors by whose quantization the pack factors are known.
    pub fn pack_lookup(&self, cfg: &Qwen3NextConfig) -> (r: PackLookup)
        ensures
            r.asks(
                seq!["model.embed_tokens.weight"@],
                "lm_head.weight"@,
                cfg.tie_word_embeddings,
            ),
    {
        let embed_tokens = vec!["model.embed_tokens.weight"];
        assert(literals(embed_tokens@) =~= seq!["model.embed_tokens.weight"@]);
        PackLookup { embed_tokens, lm_head: "lm_head.weight", tied: cfg.tie_word_embeddings }
    }

    /// Bytes of what is not mapped to layers.
    pub fn non_mapped_size_in_bytes(
        &self,
        cfg: &Qwen3NextConfig,
        dtype: DType,
        packs: PackFactors,
    ) -> (r: usize)
        requires
            qwen3_next_non_mapped_fits(*cfg, packs),
            word(qwen3_next_non_mapped_elems(*cfg, packs) * dtype.bytes()),
        ensures
            r == qwen3_next_non_mapped_elems(*cfg, packs) * dtype.bytes(),
    {
        let elems: usize = qwen3_next_non_mapped(cfg, packs);
        elems * dtype.size_in_bytes()
    }

    /// Bytes of each layer, by the kinds of the layers.
    pub fn layer_sizes_in_bytes(
        &self,
        cfg: &Qwen3NextConfig,
        layers: &Vec<LayerType>,
        dtype: DType,
        weight_pack_factor: usize,
    ) -> (r: Vec<usize>)
        requires
            forall|i: int| 0 <= i < layers@.len()
                ==> qwen3_next_layer_fits(*cfg, #[trigger] layers@[i], weight_pack_factor as int)
                && word(
                    qwen3_next_layer_elems(
                        *cfg,
                        layers@[i],
                        weight_pack_factor as int,
                    ) * dtype.bytes(),
                ),
        ensures
            r@.len() == layers@.len(),
            forall|i: int| 0 <= i < r@.len()
                ==> #[trigger] r@[i] == qwen3_next_layer_elems(
                    *cfg,
                    layers@[i],
                    weight_pack_factor as int,
                ) * dtype.bytes(),
    {
        let n: usize = layers.len();
        let mut r: Vec<usize> = Vec::with_capacity(n);
        let mut i: usize = 0;
        while i < n
            invariant
                i <= n == layers@.len(),
                r@.len() == i,
                forall|j: int| 0 <= j < layers@.len()
                    ==> qwen3_next_layer_fits(
                        *cfg,
                        #[trigger] layers@[j],
                        weight_pack_factor as int,
                    )
                    && word(
                        qwen3_next_layer_elems(
                            *cfg,
                            layers@[j],
                            weight_pack_factor as int,
                        ) * dtype.bytes(),
                    ),
                forall|j: int| 0 <= j < i
                    ==> #[trigger] r@[j] == qwen3_next_layer_elems(
                        *cfg,
                        layers@[j],
                        weight_pack_factor as int,
                    ) * dtype.bytes(),
            decreases n - i,
        {
            assert(qwen3_next_layer_fits(*cfg, layers@[i as int], weight_pack_factor as int));
            let elems: usize = qwen3_next_layer(cfg, layers[i], weight_pack_factor);
            r.push(elems * dtype.size_in_bytes());
            i += 1;
        }
        r
    }

    /// Number of layers.
    pub fn num_layers(&self, cfg: &Qwen3NextConfig) -> (r: usize)
        ensures
            r == cfg.num_hidden_layers,
    {
        cfg.num_hidden_layers
    }

    /// What the paged cache needs to know of the model.
    pub fn model_config(&self, cfg: &Qwen3NextConfig) -> (r: ModelConfigMetadata)
        ensures
            r == (ModelConfigMetadata {
                max_seq_len: cfg.max_position_embeddings,
                num_layers: cfg.num_hidden_layers,
                hidden_size: cfg.hidden_size,
                num_kv_heads: cfg.num_key_value_heads,
                num_attn_heads: cfg.num_attention_heads,
                sliding_window: None,
                k_head_dim: cfg.head_dim,
                v_head_dim: cfg.head_dim,
                kv_cache_layout: KvCacheLayout::Standard,
            }),
    {
        ModelConfigMetadata {
                max_seq_len: cfg.max_position_embeddings,
                num_layers: cfg.num_hidden_layers,
                hidden_size: cfg.hidden_size,
                num_kv_heads: cfg.num_key_value_heads,
                num_attn_heads: cfg.num_attention_heads,
                sliding_window: None,
                k_head_dim: cfg.head_dim,
                v_head_dim: cfg.head_dim,
                kv_cache_layout: KvCacheLayout::Standard,
        }
    }

    /// Whether rotary embeddings split a head in halves by default.
    pub fn is_gptx(&self) -> (r: bool)
        ensures
            r == true,
    {
        true
    }

    /// Whether the model runs with paged attention.
    pub fn supports_paged_attention(&self) -> (r: bool)
        ensures
            r == true,
    {
        true
    }

    /// The model has no X-LoRA variant.
    pub fn load_xlora(&self) -> (r: Result<(), LoaderError>)
        ensures
            r == Err::<(), LoaderError>(LoaderError::Qwen3NextXLora),
    {
        Err(LoaderError::Qwen3NextXLora)
    }

    /// Tensors that keep a higher precision when quantized.
    pub open spec fn promoted_isq_predicates_texts(&self) -> Seq<Seq<char>> {
        seq![r"^model\.embed_tokens\.weight$"@] + seq![ROOT_LM_HEAD@]
    }

    /// Tensors that keep a higher precision when quantized.
    pub fn promoted_isq_predicates(&self) -> (r: Vec<String>)
        ensures
            texts(r@) == self.promoted_isq_predicates_texts(),
    {
        let mut out: Vec<String> = Vec::new();
        push_pattern(&mut out, r"^model\.embed_tokens\.weight$");
        push_pattern(&mut out, ROOT_LM_HEAD);
        assert(texts(out@) =~= self.promoted_isq_predicates_texts());
        out
    }

    /// Tensors that are quantized.
    pub open spec fn isq_layer_regexes_texts(&self) -> Seq<Seq<char>> {
        seq![LM_HEAD@] + family(ANY_LAYER@, attention_module_texts(), WEIGHT_OR_BIAS@) + seq![
                r"layers\.(\d+)\.linear_attn\.(in_proj_qkvz|in_proj_qkv|in_proj_z|in_proj_ba|in_proj_b|in_proj_a)\.(weight|bias)$"@,
                r"layers\.(\d+)\.linear_attn\.out_proj\.(weight|bias)$"@,
                r"layers\.(\d+)\.mlp\.experts\.(\d+)\.(gate_proj|up_proj|down_proj)\.(weight|bias)$"@,
                r"layers\.(\d+)\.mlp\.experts\.(gate_proj|up_proj|down_proj)\.weight$"@,
                r"layers\.(\d+)\.mlp\.shared_expert\.(gate_proj|up_proj|down_proj)\.(weight|bias)$"@,
            ]
    }

    /// Tensors that are quantized.
    pub fn isq_layer_regexes(&self) -> (r: Vec<String>)
        ensures
            texts(r@) == self.isq_layer_regexes_texts(),
    {
        let mut out: Vec<String> = Vec::new();
        push_pattern(&mut out, LM_HEAD);
        push_family(&mut out, ANY_LAYER, &attention_modules(), WEIGHT_OR_BIAS);
        let list0 = vec![
            r"layers\.(\d+)\.linear_attn\.(in_proj_qkvz|in_proj_qkv|in_proj_z|in_proj_ba|in_proj_b|in_proj_a)\.(weight|bias)$",
            r"layers\.(\d+)\.linear_attn\.out_proj\.(weight|bias)$",
            r"layers\.(\d+)\.mlp\.experts\.(\d+)\.(gate_proj|up_proj|down_proj)\.(weight|bias)$",
            r"layers\.(\d+)\.mlp\.experts\.(gate_proj|up_proj|down_proj)\.weight$",
            r"layers\.(\d+)\.mlp\.shared_expert\.(gate_proj|up_proj|down_proj)\.(weight|bias)$",
        ];
        assert(
            literals(list0@) =~= seq![
                r"layers\.(\d+)\.linear_attn\.(in_proj_qkvz|in_proj_qkv|in_proj_z|in_proj_ba|in_proj_b|in_proj_a)\.(weight|bias)$"@,
                r"layers\.(\d+)\.linear_attn\.out_proj\.(weight|bias)$"@,
                r"layers\.(\d+)\.mlp\.experts\.(\d+)\.(gate_proj|up_proj|down_proj)\.(weight|bias)$"@,
                r"layers\.(\d+)\.mlp\.experts\.(gate_proj|up_proj|down_proj)\.weight$"@,
                r"layers\.(\d+)\.mlp\.shared_expert\.(gate_proj|up_proj|down_proj)\.(weight|bias)$"@,
            ]
        );
        push_patterns(&mut out, &list0);
        assert(texts(out@) =~= self.isq_layer_regexes_texts());
        out
    }

    /// Tensors that are quantized while they are loaded: those that are quantized.
    pub fn immediate_isq_predicates(&self) -> (r: Vec<String>)
        ensures
            texts(r@) == self.isq_layer_regexes_texts(),
    {
        self.isq_layer_regexes()
    }

    /// Expert tensors that are quantized.
    pub open spec fn isq_layer_regexes_moqe_texts(&self) -> Seq<Seq<char>> {
        seq![
                r"layers\.(\d+)\.mlp\.experts\.(\d+)\.(gate_proj|up_proj|down_proj)\.(weight|bias)$"@,
                r"layers\.(\d+)\.mlp\.experts\.(gate_proj|up_proj|down_proj)\.weight$"@,
            ]
    }

    /// Expert tensors that are quantized.
    pub fn isq_layer_regexes_moqe(&self) -> (r: Vec<String>)
        ensures
            texts(r@) == self.isq_layer_regexes_moqe_texts(),
    {
        let mut out: Vec<String> = Vec::new();
        let list0 = vec![
            r"layers\.(\d+)\.mlp\.experts\.(\d+)\.(gate_proj|up_proj|down_proj)\.(weight|bias)$",
            r"layers\.(\d+)\.mlp\.experts\.(gate_proj|up_proj|down_proj)\.weight$",
        ];
        assert(
            literals(list0@) =~= seq![
                r"layers\.(\d+)\.mlp\.experts\.(\d+)\.(gate_proj|up_proj|down_proj)\.(weight|bias)$"@,
                r"layers\.(\d+)\.mlp\.experts\.(gate_proj|up_proj|down_proj)\.weight$"@,
            ]
        );
        push_patterns(&mut out, &list0);
        assert(texts(out@) =~= self.isq_layer_regexes_moqe_texts());
        out
    }

    /// Expert tensors that are quantized while they are loaded.
    pub fn immediate_isq_predicates_moqe(&self) -> (r: Vec<String>)
        ensures
            texts(r@) == self.isq_layer_regexes_moqe_texts(),
    {
        self.isq_layer_regexes_moqe()
    }
}

} // verus!
