//! LFM2 (hybrid attention and short convolution).

use vstd::prelude::*;

use crate::loaders::{
    AutoDeviceMapParams, KvCacheLayout, LoaderError, ModelConfigMetadata, PackFactors, PackLookup,
};
use crate::loaders::patterns::{
    ANY_LAYER, LM_HEAD, ROOT_LM_HEAD, WEIGHT_OR_BIAS, family, literals, push_family, push_pattern,
    texts,
};
use crate::loaders::sizes::{
    smaller, smaller_elems, text_head, text_head_elems, text_head_fits,
    word,
};
use crate::tensor::{DType};

verus! {

/// What a layer mixes tokens with.
#[derive(Debug, Clone, Copy, PartialEq, Eq, Structural)]
pub enum Lfm2LayerType {
    Attention,
    Conv,
}

/// The feed-forward block of a layer.
#[derive(Debug, Clone, Copy, PartialEq, Eq, Structural)]
pub enum FeedForwardType {
    Dense,
    Moe,
}

/// A layer by its two blocks.
#[derive(Debug, Clone, Copy, PartialEq, Eq, Structural)]
pub struct Lfm2Layer {
    pub operator: Lfm2LayerType,
    pub feed_forward: FeedForwardType,
}

/// What the sizes depend on.
#[derive(Debug, Clone, Copy, PartialEq, Eq, Structural)]
pub struct Lfm2Config {
    pub hidden_size: usize,
    pub vocab_size: usize,
    pub tie_word_embeddings: bool,
    pub num_hidden_layers: usize,
    pub num_attention_heads: usize,
    pub num_key_value_heads: usize,
    pub head_dim: usize,
    pub intermediate_size: usize,
    pub max_position_embeddings: usize,
    pub num_experts: usize,
    pub use_expert_bias: bool,
    pub moe_intermediate_size: usize,
    pub conv_l_cache: usize,
    pub conv_bias: bool,
}

/// Scores of a prompt chunk.
pub open spec fn lfm2_mapped_act_elems(cfg: Lfm2Config, seq: int, batch: int, chunk: int) -> int {
    let heads = cfg.num_attention_heads as int;
    let queries = smaller_elems(seq, chunk);
    batch * heads * (queries * queries)
}

/// Every step of `lfm2_mapped_act` fits a machine word.
pub open spec fn lfm2_mapped_act_fits(cfg: Lfm2Config, seq: int, batch: int, chunk: int) -> bool {
    let heads = cfg.num_attention_heads as int;
    let queries = smaller_elems(seq, chunk);
    &&& word(batch * heads)
    &&& word(queries * queries)
    &&& word(batch * heads * (queries * queries))
}

/// Scores of a prompt chunk.
pub fn lfm2_mapped_act(cfg: &Lfm2Config, seq: usize, batch: usize, chunk: usize) -> (r: usize)
    requires
        lfm2_mapped_act_fits(*cfg, seq as int, batch as int, chunk as int),
    ensures
        r == lfm2_mapped_act_elems(*cfg, seq as int, batch as int, chunk as int),
{
    let heads: usize = cfg.num_attention_heads;
    let queries: usize = smaller(seq, chunk);
    batch * heads * (queries * queries)
}

/// Token embeddings, output head and final norm.
pub open spec fn lfm2_non_mapped_elems(cfg: Lfm2Config, packs: PackFactors) -> int {
    let hidden = cfg.hidden_size as int;
    let vocab = cfg.vocab_size as int;
    let embed_pack = packs.embed_tokens as int;
    let head_pack = packs.lm_head as int;
    let tied = cfg.tie_word_embeddings;
    text_head_elems(hidden, vocab, tied, embed_pack, head_pack)
}

/// Every step of `lfm2_non_mapped` fits a machine word.
pub open spec fn lfm2_non_mapped_fits(cfg: Lfm2Config, packs: PackFactors) -> bool {
    let hidden = cfg.hidden_size as int;
    let vocab = cfg.vocab_size as int;
    let embed_pack = packs.embed_tokens as int;
    let head_pack = packs.lm_head as int;
    let tied = cfg.tie_word_embeddings;
    &&& text_head_fits(hidden, vocab, tied, embed_pack, head_pack)
}

/// Token embeddings, output head and final norm.
pub fn lfm2_non_mapped(cfg: &Lfm2Config, packs: PackFactors) -> (r: usize)
    requires
        lfm2_non_mapped_fits(*cfg, packs),
    ensures
        r == lfm2_non_mapped_elems(*cfg, packs),
{
    let hidden: usize = cfg.hidden_size;
    let vocab: usize = cfg.vocab_size;
    let embed_pack: usize = packs.embed_tokens;
    let head_pack: usize = packs.lm_head;
    let tied: bool = cfg.tie_word_embeddings;
    text_head(hidden, vocab, tied, embed_pack, head_pack)
}

/// A dense feed-forward block.
pub open spec fn lfm2_dense_elems(cfg: Lfm2Config, pack: int) -> int {
    let hidden = cfg.hidden_size as int;
    let width = cfg.intermediate_size as int;
    3 * hidden * width / pack
}

/// Every step of `lfm2_dense` fits a machine word.
pub open spec fn lfm2_dense_fits(cfg: Lfm2Config, pack: int) -> bool {
    let hidden = cfg.hidden_size as int;
    let width = cfg.intermediate_size as int;
    &&& word(3 * hidden)
    &&& word(3 * hidden * width)
    &&& pack > 0
}

/// A dense feed-forward block.
pub fn lfm2_dense(cfg: &Lfm2Config, pack: usize) -> (r: usize)
    requires
        lfm2_dense_fits(*cfg, pack as int),
    ensures
        r == lfm2_dense_elems(*cfg, pack as int),
{
    let hidden: usize = cfg.hidden_size;
    let width: usize = cfg.intermediate_size;
    3 * hidden * width / pack
}

/// A block of routed experts.
pub open spec fn lfm2_moe_elems(cfg: Lfm2Config, pack: int) -> int {
    let hidden = cfg.hidden_size as int;
    let experts = cfg.num_experts as int;
    let width = cfg.moe_intermediate_size as int;
    let biased = cfg.use_expert_bias;
    let gate = hidden * experts;
    let expert_bias = if biased { experts } else { 0 };
    let weights = 3 * experts * hidden * width / pack;
    gate + expert_bias + weights
}

/// Every step of `lfm2_moe` fits a machine word.
pub open spec fn lfm2_moe_fits(cfg: Lfm2Config, pack: int) -> bool {
    let hidden = cfg.hidden_size as int;
    let experts = cfg.num_experts as int;
    let width = cfg.moe_intermediate_size as int;
    let biased = cfg.use_expert_bias;
    let gate = hidden * experts;
    let expert_bias = if biased { experts } else { 0 };
    let weights = 3 * experts * hidden * width / pack;
    &&& word(hidden * experts)
    &&& word(3 * experts)
    &&& word(3 * experts * hidden)
    &&& word(3 * experts * hidden * width)
    &&& pack > 0
    &&& word(gate + expert_bias + weights)
}

/// A block of routed experts.
pub fn lfm2_moe(cfg: &Lfm2Config, pack: usize) -> (r: usize)
    requires
        lfm2_moe_fits(*cfg, pack as int),
    ensures
        r == lfm2_moe_elems(*cfg, pack as int),
{
    let hidden: usize = cfg.hidden_size;
    let experts: usize = cfg.num_experts;
    let width: usize = cfg.moe_intermediate_size;
    let biased: bool = cfg.use_expert_bias;
    let gate: usize = hidden * experts;
    let expert_bias: usize = if biased { experts } else { 0 };
    let weights: usize = 3 * experts * hidden * width / pack;
    gate + expert_bias + weights
}

/// The attention of a layer.
pub open spec fn lfm2_attention_elems(cfg: Lfm2Config, pack: int) -> int {
    let hidden = cfg.hidden_size as int;
    let head = cfg.head_dim as int;
    let heads = cfg.num_attention_heads as int;
    let kv_heads = cfg.num_key_value_heads as int;
    let q_dim = heads * head;
    let kv_dim = kv_heads * head;
    let projections = (hidden * q_dim + hidden * kv_dim * 2 + q_dim * hidden) / pack;
    projections + 2 * head
}

/// Every step of `lfm2_attention` fits a machine word.
pub open spec fn lfm2_attention_fits(cfg: Lfm2Config, pack: int) -> bool {
    let hidden = cfg.hidden_size as int;
    let head = cfg.head_dim as int;
    let heads = cfg.num_attention_heads as int;
    let kv_heads = cfg.num_key_value_heads as int;
    let q_dim = heads * head;
    let kv_dim = kv_heads * head;
    let projections = (hidden * q_dim + hidden * kv_dim * 2 + q_dim * hidden) / pack;
    &&& word(heads * head)
    &&& word(kv_heads * head)
    &&& word(hidden * q_dim)
    &&& word(hidden * kv_dim)
    &&& word(hidden * kv_dim * 2)
    &&& word(q_dim * hidden)
    &&& word(hidden * q_dim + hidden * kv_dim * 2 + q_dim * hidden)
    &&& pack > 0
    &&& word(2 * head)
    &&& word(projections + 2 * head)
}

/// The attention of a layer.
pub fn lfm2_attention(cfg: &Lfm2Config, pack: usize) -> (r: usize)
    requires
        lfm2_attention_fits(*cfg, pack as int),
    ensures
        r == lfm2_attention_elems(*cfg, pack as int),
{
    let hidden: usize = cfg.hidden_size;
    let head: usize = cfg.head_dim;
    let heads: usize = cfg.num_attention_heads;
    let kv_heads: usize = cfg.num_key_value_heads;
    let q_dim: usize = heads * head;
    let kv_dim: usize = kv_heads * head;
    let projections: usize = (hidden * q_dim + hidden * kv_dim * 2 + q_dim * hidden) / pack;
    projections + 2 * head
}

/// The short convolution of a layer.
pub open spec fn lfm2_conv_elems(cfg: Lfm2Config, pack: int) -> int {
    let hidden = cfg.hidden_size as int;
    let cache = cfg.conv_l_cache as int;
    let biased = cfg.conv_bias;
    let projections = (hidden * 3 * hidden + hidden * hidden) / pack;
    let conv = hidden * cache;
    let bias = if biased { 5 * hidden } else { 0 };
    projections + conv + bias
}

/// Every step of `lfm2_conv` fits a machine word.
pub open spec fn lfm2_conv_fits(cfg: Lfm2Config, pack: int) -> bool {
    let hidden = cfg.hidden_size as int;
    let cache = cfg.conv_l_cache as int;
    let biased = cfg.conv_bias;
    let projections = (hidden * 3 * hidden + hidden * hidden) / pack;
    let conv = hidden * cache;
    let bias = if biased { 5 * hidden } else { 0 };
    &&& word(hidden * 3)
    &&& word(hidden * 3 * hidden)
    &&& word(hidden * hidden)
    &&& word(hidden * 3 * hidden + hidden * hidden)
    &&& pack > 0
    &&& word(hidden * cache)
    &&& biased ==> word(5 * hidden)
    &&& word(projections + conv + bias)
}

/// The short convolution of a layer.
pub fn lfm2_conv(cfg: &Lfm2Config, pack: usize) -> (r: usize)
    requires
        lfm2_conv_fits(*cfg, pack as int),
    ensures
        r == lfm2_conv_elems(*cfg, pack as int),
{
    let hidden: usize = cfg.hidden_size;
    let cache: usize = cfg.conv_l_cache;
    let biased: bool = cfg.conv_bias;
    let projections: usize = (hidden * 3 * hidden + hidden * hidden) / pack;
    let conv: usize = hidden * cache;
    let bias: usize = if biased { 5 * hidden } else { 0 };
    projections + conv + bias
}

/// A layer of the given blocks.
pub open spec fn lfm2_layer_elems(cfg: Lfm2Config, kind: Lfm2Layer, pack: int) -> int {
    let hidden = cfg.hidden_size as int;
    let operator = match kind.operator {
        Lfm2LayerType::Attention => lfm2_attention_elems(cfg, pack),
        Lfm2LayerType::Conv => lfm2_conv_elems(cfg, pack),
    };
    let feed_forward = match kind.feed_forward {
        FeedForwardType::Dense => lfm2_dense_elems(cfg, pack),
        FeedForwardType::Moe => lfm2_moe_elems(cfg, pack),
    };
    hidden + hidden + operator + feed_forward
}

/// Every step of `lfm2_layer` fits a machine word.
pub open spec fn lfm2_layer_fits(cfg: Lfm2Config, kind: Lfm2Layer, pack: int) -> bool {
    let hidden = cfg.hidden_size as int;
    let operator = match kind.operator {
        Lfm2LayerType::Attention => lfm2_attention_elems(cfg, pack),
        Lfm2LayerType::Conv => lfm2_conv_elems(cfg, pack),
    };
    let feed_forward = match kind.feed_forward {
        FeedForwardType::Dense => lfm2_dense_elems(cfg, pack),
        FeedForwardType::Moe => lfm2_moe_elems(cfg, pack),
    };
    &&& kind.operator == Lfm2LayerType::Attention ==> lfm2_attention_fits(cfg, pack)
    &&& kind.operator == Lfm2LayerType::Conv ==> lfm2_conv_fits(cfg, pack)
    &&& kind.feed_forward == FeedForwardType::Dense ==> lfm2_dense_fits(cfg, pack)
    &&& kind.feed_forward == FeedForwardType::Moe ==> lfm2_moe_fits(cfg, pack)
    &&& word(hidden + hidden + operator + feed_forward)
}

/// A layer of the given blocks.
pub fn lfm2_layer(cfg: &Lfm2Config, kind: Lfm2Layer, pack: usize) -> (r: usize)
    requires
        lfm2_layer_fits(*cfg, kind, pack as int),
    ensures
        r == lfm2_layer_elems(*cfg, kind, pack as int),
{
    let hidden: usize = cfg.hidden_size;
    let operator: usize = match kind.operator {
        Lfm2LayerType::Attention => lfm2_attention(cfg, pack),
        Lfm2LayerType::Conv => lfm2_conv(cfg, pack),
    };
    let feed_forward: usize = match kind.feed_forward {
        FeedForwardType::Dense => lfm2_dense(cfg, pack),
        FeedForwardType::Moe => lfm2_moe(cfg, pack),
    };
    hidden + hidden + operator + feed_forward
}

/// Loader of LFM2 (hybrid attention and short convolution) models.
pub struct Lfm2Loader;

impl Lfm2Loader {
    /// Elements of the largest activation of a layer.
    pub fn mapped_max_act_size_elems(
        &self,
        cfg: &Lfm2Config,
        params: &AutoDeviceMapParams,
        attention_chunk: usize,
    ) -> (r: Result<usize, LoaderError>)
        requires
            match *params {
                AutoDeviceMapParams::Text { max_seq_len, max_batch_size } => lfm2_mapped_act_fits(
                    *cfg,
                    max_seq_len as int,
                    max_batch_size as int,
                    attention_chunk as int,
                ),
                _ => true,
            },
        ensures
            match *params {
                AutoDeviceMapParams::Text {
                    max_seq_len,
                    max_batch_size,
                } => r matches Ok(n) && n == lfm2_mapped_act_elems(
                    *cfg,
                    max_seq_len as int,
                    max_batch_size as int,
                    attention_chunk as int,
                ),
                _ => r == Err::<usize, LoaderError>(LoaderError::ExpectedText),
            },
    {
        match params {
            AutoDeviceMapParams::Text { max_seq_len, max_batch_size } => Ok(
                lfm2_mapped_act(cfg, *max_seq_len, *max_batch_size, attention_chunk),
            ),
            _ => Err(LoaderError::ExpectedText),
        }
    }

    /// Elements of the largest activation outside the layers: there is none.
    pub fn non_mapped_max_act_size_elems(&self) -> (r: usize)
        ensures
            r == 0,
    {
        0
    }

    /// The tensors by whose quantization the pack factors are known.
    pub fn pack_lookup(&self, cfg: &Lfm2Config) -> (r: PackLookup)
        ensures
            r.asks(
                seq!["model.embed_tokens.weight"@],
                "lm_head.weight"@,
                cfg.tie_word_embeddings,
            ),
    {
        let embed_tokens = vec!["model.embed_tokens.weight"];
        assert(literals(embed_tokens@) =~= seq!["model.embed_tokens.weight"@]);
        PackLookup { embed_tokens, lm_head: "lm_head.weight", tied: cfg.tie_word_embeddings }
    }

    /// Bytes of what is not mapped to layers.
    pub fn non_mapped_size_in_bytes(
        &self,
        cfg: &Lfm2Config,
        dtype: DType,
        packs: PackFactors,
    ) -> (r: usize)
        requires
            lfm2_non_mapped_fits(*cfg, packs),
            word(lfm2_non_mapped_elems(*cfg, packs) * dtype.bytes()),
        ensures
            r == lfm2_non_mapped_elems(*cfg, packs) * dtype.bytes(),
    {
        let elems: usize = lfm2_non_mapped(cfg, packs);
        elems * dtype.size_in_bytes()
    }

    /// Bytes of each layer, by the kinds of the layers.
    pub fn layer_sizes_in_bytes(
        &self,
        cfg: &Lfm2Config,
        layers: &Vec<Lfm2Layer>,
        dtype: DType,
        weight_pack_factor: usize,
    ) -> (r: Vec<usize>)
        requires
            forall|i: int| 0 <= i < layers@.len()
                ==> lfm2_layer_fits(*cfg, #[trigger] layers@[i], weight_pack_factor as int)
                && word(
                    lfm2_layer_elems(*cfg, layers@[i], weight_pack_factor as int) * dtype.bytes(),
                ),
        ensures
            r@.len() == layers@.len(),
            forall|i: int| 0 <= i < r@.len()
                ==> #[trigger] r@[i] == lfm2_layer_elems(
                    *cfg,
                    layers@[i],
                    weight_pack_factor as int,
                ) * dtype.bytes(),
    {
        let n: usize = layers.len();
        let mut r: Vec<usize> = Vec::with_capacity(n);
        let mut i: usize = 0;
        while i < n
            invariant
                i <= n == layers@.len(),
                r@.len() == i,
                forall|j: int| 0 <= j < layers@.len()
                    ==> lfm2_layer_fits(*cfg, #[trigger] layers@[j], weight_pack_factor as int)
                    && word(
                        lfm2_layer_elems(
                            *cfg,
                            layers@[j],
                            weight_pack_factor as int,
                        ) * dtype.bytes(),
                    ),
                forall|j: int| 0 <= j < i
                    ==> #[trigger] r@[j] == lfm2_layer_elems(
                        *cfg,
                        layers@[j],
                        weight_pack_factor as int,
                    ) * dtype.bytes(),
            decreases n - i,
        {
            assert(lfm2_layer_fits(*cfg, layers@[i as int], weight_pack_factor as int));
            let elems: usize = lfm2_layer(cfg, layers[i], weight_pack_factor);
            r.push(elems * dtype.size_in_bytes());
            i += 1;
        }
        r
    }

    /// Number of layers.
    pub fn num_layers(&self, cfg: &Lfm2Config) -> (r: usize)
        ensures
            r == cfg.num_hidden_layers,
    {
        cfg.num_hidden_layers
    }

    /// What the paged cache needs to know of the model.
    pub fn model_config(&self, cfg: &Lfm2Config) -> (r: ModelConfigMetadata)
        ensures
            r == (ModelConfigMetadata {
                max_seq_len: cfg.max_position_embeddings,
                num_layers: cfg.num_hidden_layers,
                hidden_size: cfg.hidden_size,
                num_kv_heads: cfg.num_key_value_heads,
                num_attn_heads: cfg.num_attention_heads,
                sliding_window: None,
                k_head_dim: cfg.head_dim,
                v_head_dim: cfg.head_dim,
                kv_cache_layout: KvCacheLayout::Standard,
            }),
    {
        ModelConfigMetadata {
                max_seq_len: cfg.max_position_embeddings,
                num_layers: cfg.num_hidden_layers,
                hidden_size: cfg.hidden_size,
                num_kv_heads: cfg.num_key_value_heads,
                num_attn_heads: cfg.num_attention_heads,
                sliding_window: None,
                k_head_dim: cfg.head_dim,
                v_head_dim: cfg.head_dim,
                kv_cache_layout: KvCacheLayout::Standard,
        }
    }

    /// Whether rotary embeddings split a head in halves by default.
    pub fn is_gptx(&self) -> (r: bool)
        ensures
            r == true,
    {
        true
    }

    /// Whether the model runs with paged attention.
    pub fn supports_paged_attention(&self) -> (r: bool)
        ensures
            r == true,
    {
        true
    }

    /// The model has no X-LoRA variant.
    pub fn load_xlora(&self) -> (r: Result<(), LoaderError>)
        ensures
            r == Err::<(), LoaderError>(LoaderError::Lfm2XLora),
    {
        Err(LoaderError::Lfm2XLora)
    }

    /// Tensors that keep a higher precision when quantized.
    pub open spec fn promoted_isq_predicates_texts(&self) -> Seq<Seq<char>> {
        seq![r"^model\.embed_tokens\.weight$"@] + seq![ROOT_LM_HEAD@]
    }

    /// Tensors that keep a higher precision when quantized.
    pub fn promoted_isq_predicates(&self) -> (r: Vec<String>)
        ensures
            texts(r@) == self.promoted_isq_predicates_texts(),
    {
        let mut out: Vec<String> = Vec::new();
        push_pattern(&mut out, r"^model\.embed_tokens\.weight$");
        push_pattern(&mut out, ROOT_LM_HEAD);
        assert(texts(out@) =~= self.promoted_isq_predicates_texts());
        out
    }

    /// Tensors that are quantized.
    pub open spec fn isq_layer_regexes_texts(&self) -> Seq<Seq<char>> {
        seq![LM_HEAD@] + family(
                ANY_LAYER@,
                seq![
                    r"self_attn\.q_proj"@,
                    r"self_attn\.k_proj"@,
                    r"self_attn\.v_proj"@,
                    r"self_attn\.out_proj"@,
                    r"conv\.in_proj"@,
                    r"conv\.out_proj"@,
                    r"feed_forward\.w1"@,
                    r"feed_forward\.w2"@,
                    r"feed_forward\.w3"@,
                    r"feed_forward\.experts\.(\d+)\.w1"@,
                    r"feed_forward\.experts\.(\d+)\.w2"@,
                    r"feed_forward\.experts\.(\d+)\.w3"@,
                ],
                WEIGHT_OR_BIAS@,
            ) + seq![
                r"layers\.(\d+)\.feed_forward\.experts\.(gate_proj|up_proj|down_proj)\.weight$"@,
            ]
    }

    /// Tensors that are quantized.
    pub fn isq_layer_regexes(&self) -> (r: Vec<String>)
        ensures
            texts(r@) == self.isq_layer_regexes_texts(),
    {
        let mut out: Vec<String> = Vec::new();
        push_pattern(&mut out, LM_HEAD);
        let list0 = vec![
            r"self_attn\.q_proj",
            r"self_attn\.k_proj",
            r"self_attn\.v_proj",
            r"self_attn\.out_proj",
            r"conv\.in_proj",
            r"conv\.out_proj",
            r"feed_forward\.w1",
            r"feed_forward\.w2",
            r"feed_forward\.w3",
            r"feed_forward\.experts\.(\d+)\.w1",
            r"feed_forward\.experts\.(\d+)\.w2",
            r"feed_forward\.experts\.(\d+)\.w3",
        ];
        assert(
            literals(list0@) =~= seq![
                r"self_attn\.q_proj"@,
                r"self_attn\.k_proj"@,
                r"self_attn\.v_proj"@,
                r"self_attn\.out_proj"@,
                r"conv\.in_proj"@,
                r"conv\.out_proj"@,
                r"feed_forward\.w1"@,
                r"feed_forward\.w2"@,
                r"feed_forward\.w3"@,
                r"feed_forward\.experts\.(\d+)\.w1"@,
                r"feed_forward\.experts\.(\d+)\.w2"@,
                r"feed_forward\.experts\.(\d+)\.w3"@,
            ]
        );
        push_family(&mut out, ANY_LAYER, &list0, WEIGHT_OR_BIAS);
        push_pattern(
            &mut out,
            r"layers\.(\d+)\.feed_forward\.experts\.(gate_proj|up_proj|down_proj)\.weight$",
        );
        assert(texts(out@) =~= self.isq_layer_regexes_texts());
        out
    }

    /// Tensors that are quantized while they are loaded: those that are quantized.
    pub fn immediate_isq_predicates(&self) -> (r: Vec<String>)
        ensures
            texts(r@) == self.isq_layer_regexes_texts(),
    {
        self.isq_layer_regexes()
    }

    /// Expert tensors that are quantized.
    pub open spec fn isq_layer_regexes_moqe_texts(&self) -> Seq<Seq<char>> {
        family(
                ANY_LAYER@,
                seq![
                    r"feed_forward\.experts\.(\d+)\.w1"@,
                    r"feed_forward\.experts\.(\d+)\.w2"@,
                    r"feed_forward\.experts\.(\d+)\.w3"@,
                ],
                WEIGHT_OR_BIAS@,
            ) + seq![
                r"layers\.(\d+)\.feed_forward\.experts\.(gate_proj|up_proj|down_proj)\.weight$"@,
            ]
    }

    /// Expert tensors that are quantized.
    pub fn isq_layer_regexes_moqe(&self) -> (r: Vec<String>)
        ensures
            texts(r@) == self.isq_layer_regexes_moqe_texts(),
    {
        let mut out: Vec<String> = Vec::new();
        let list0 = vec![
            r"feed_forward\.experts\.(\d+)\.w1",
            r"feed_forward\.experts\.(\d+)\.w2",
            r"feed_forward\.experts\.(\d+)\.w3",
        ];
        assert(
            literals(list0@) =~= seq![
                r"feed_forward\.experts\.(\d+)\.w1"@,
                r"feed_forward\.experts\.(\d+)\.w2"@,
                r"feed_forward\.experts\.(\d+)\.w3"@,
            ]
        );
        push_family(&mut out, ANY_LAYER, &list0, WEIGHT_OR_BIAS);
        push_pattern(
            &mut out,
            r"layers\.(\d+)\.feed_forward\.experts\.(gate_proj|up_proj|down_proj)\.weight$",
        );
        assert(texts(out@) =~= self.isq_layer_regexes_moqe_texts());
        out
    }

    /// Expert tensors that are quantized while they are loaded.
    pub fn immediate_isq_predicates_moqe(&self) -> (r: Vec<String>)
        ensures
            texts(r@) == self.isq_layer_regexes_moqe_texts(),
    {
        self.isq_layer_regexes_moqe()
    }
}

} // verus!
