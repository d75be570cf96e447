//! GraniteMoeHybrid (IBM Granite 4.0).

use vstd::prelude::*;

use crate::loaders::{
    AutoDeviceMapParams, KvCacheLayout, LoaderError, ModelConfigMetadata, PackFactors, PackLookup,
};
use crate::loaders::patterns::{
    ANY_LAYER, LM_HEAD, ROOT_LM_HEAD, WEIGHT_OR_BIAS, attention_module_texts, attention_modules,
    family, literals, push_family, push_pattern, push_patterns, texts,
};
use crate::loaders::sizes::{
    attention, attention_elems, attention_fits, smaller, smaller_elems, text_head,
    text_head_elems, text_head_fits, word,
};
use crate::tensor::{DType};

verus! {

/// What a layer mixes tokens with.
#[derive(Debug, Clone, Copy, PartialEq, Eq, Structural)]
pub enum GraniteLayerType {
    Attention,
    Mamba,
}

/// What the sizes depend on.
#[derive(Debug, Clone, Copy, PartialEq, Eq, Structural)]
pub struct GraniteConfig {
    pub hidden_size: usize,
    pub vocab_size: usize,
    pub tie_word_embeddings: bool,
    pub num_hidden_layers: usize,
    pub num_attention_heads: usize,
    pub num_key_value_heads: usize,
    pub head_dim: usize,
    pub intermediate_size: usize,
    pub max_position_embeddings: usize,
    pub num_local_experts: usize,
    pub shared_intermediate_size: Option<usize>,
    pub dense_intermediate_size: usize,
    pub mamba_intermediate_size: usize,
    pub mamba_conv_dim: usize,
    pub mamba_n_heads: usize,
    pub mamba_d_conv: usize,
    pub mamba_proj_bias: bool,
    pub mamba_conv_bias: bool,
}

/// Scores of a prompt chunk.
pub open spec fn granite_mapped_act_elems(
    cfg: GraniteConfig,
    seq: int,
    batch: int,
    chunk: int,
) -> int {
    let heads = cfg.num_attention_heads as int;
    let queries = smaller_elems(seq, chunk);
    batch * heads * (queries * queries)
}

/// Every step of `granite_mapped_act` fits a machine word.
pub open spec fn granite_mapped_act_fits(
    cfg: GraniteConfig,
    seq: int,
    batch: int,
    chunk: int,
) -> bool {
    let heads = cfg.num_attention_heads as int;
    let queries = smaller_elems(seq, chunk);
    &&& word(batch * heads)
    &&& word(queries * queries)
    &&& word(batch * heads * (queries * queries))
}

/// Scores of a prompt chunk.
pub fn granite_mapped_act(cfg: &GraniteConfig, seq: usize, batch: usize, chunk: usize) -> (r: usize)
    requires
        granite_mapped_act_fits(*cfg, seq as int, batch as int, chunk as int),
    ensures
        r == granite_mapped_act_elems(*cfg, seq as int, batch as int, chunk as int),
{
    let heads: usize = cfg.num_attention_heads;
    let queries: usize = smaller(seq, chunk);
    batch * heads * (queries * queries)
}

/// Token embeddings, output head and final norm.
pub open spec fn granite_non_mapped_elems(cfg: GraniteConfig, packs: PackFactors) -> int {
    let hidden = cfg.hidden_size as int;
    let vocab = cfg.vocab_size as int;
    let embed_pack = packs.embed_tokens as int;
    let head_pack = packs.lm_head as int;
    let tied = cfg.tie_word_embeddings;
    text_head_elems(hidden, vocab, tied, embed_pack, head_pack)
}

/// Every step of `granite_non_mapped` fits a machine word.
pub open spec fn granite_non_mapped_fits(cfg: GraniteConfig, packs: PackFactors) -> bool {
    let hidden = cfg.hidden_size as int;
    let vocab = cfg.vocab_size as int;
    let embed_pack = packs.embed_tokens as int;
    let head_pack = packs.lm_head as int;
    let tied = cfg.tie_word_embeddings;
    &&& text_head_fits(hidden, vocab, tied, embed_pack, head_pack)
}

/// Token embeddings, output head and final norm.
pub fn granite_non_mapped(cfg: &GraniteConfig, packs: PackFactors) -> (r: usize)
    requires
        granite_non_mapped_fits(*cfg, packs),
    ensures
        r == granite_non_mapped_elems(*cfg, packs),
{
    let hidden: usize = cfg.hidden_size;
    let vocab: usize = cfg.vocab_size;
    let embed_pack: usize = packs.embed_tokens;
    let head_pack: usize = packs.lm_head;
    let tied: bool = cfg.tie_word_embeddings;
    text_head(hidden, vocab, tied, embed_pack, head_pack)
}

/// The attention of a layer.
pub open spec fn granite_attention_elems(cfg: GraniteConfig, pack: int) -> int {
    let hidden = cfg.hidden_size as int;
    let head = cfg.head_dim as int;
    let heads = cfg.num_attention_heads as int;
    let kv_heads = cfg.num_key_value_heads as int;
    let size_q = head * heads;
    let size_kv = head * kv_heads;
    attention_elems(hidden, size_q, size_kv, pack)
}

/// Every step of `granite_attention` fits a machine word.
pub open spec fn granite_attention_fits(cfg: GraniteConfig, pack: int) -> bool {
    let hidden = cfg.hidden_size as int;
    let head = cfg.head_dim as int;
    let heads = cfg.num_attention_heads as int;
    let kv_heads = cfg.num_key_value_heads as int;
    let size_q = head * heads;
    let size_kv = head * kv_heads;
    &&& word(head * heads)
    &&& word(head * kv_heads)
    &&& attention_fits(hidden, size_q, size_kv, pack)
}

/// The attention of a layer.
pub fn granite_attention(cfg: &GraniteConfig, pack: usize) -> (r: usize)
    requires
        granite_attention_fits(*cfg, pack as int),
    ensures
        r == granite_attention_elems(*cfg, pack as int),
{
    let hidden: usize = cfg.hidden_size;
    let head: usize = cfg.head_dim;
    let heads: usize = cfg.num_attention_heads;
    let kv_heads: usize = cfg.num_key_value_heads;
    let size_q: usize = head * heads;
    let size_kv: usize = head * kv_heads;
    attention(hidden, size_q, size_kv, pack)
}

/// The state space mixer of a layer.
pub open spec fn granite_mamba_elems(cfg: GraniteConfig) -> int {
    let hidden = cfg.hidden_size as int;
    let inner = cfg.mamba_intermediate_size as int;
    let conv = cfg.mamba_conv_dim as int;
    let heads = cfg.mamba_n_heads as int;
    let d_conv = cfg.mamba_d_conv as int;
    let proj_bias = cfg.mamba_proj_bias;
    let conv_bias = cfg.mamba_conv_bias;
    let projection = inner + conv + heads;
    let in_proj = projection * hidden + (if proj_bias { projection } else { 0 });
    let conv1d = conv * d_conv + (if conv_bias { conv } else { 0 });
    let state = heads * 3;
    let out_proj = hidden * inner + (if proj_bias { hidden } else { 0 });
    in_proj + conv1d + state + inner + out_proj
}

/// Every step of `granite_mamba` fits a machine word.
pub open spec fn granite_mamba_fits(cfg: GraniteConfig) -> bool {
    let hidden = cfg.hidden_size as int;
    let inner = cfg.mamba_intermediate_size as int;
    let conv = cfg.mamba_conv_dim as int;
    let heads = cfg.mamba_n_heads as int;
    let d_conv = cfg.mamba_d_conv as int;
    let proj_bias = cfg.mamba_proj_bias;
    let conv_bias = cfg.mamba_conv_bias;
    let projection = inner + conv + heads;
    let in_proj = projection * hidden + (if proj_bias { projection } else { 0 });
    let conv1d = conv * d_conv + (if conv_bias { conv } else { 0 });
    let state = heads * 3;
    let out_proj = hidden * inner + (if proj_bias { hidden } else { 0 });
    &&& word(inner + conv + heads)
    &&& word(projection * hidden)
    &&& word(projection * hidden + (if proj_bias { projection } else { 0 }))
    &&& word(conv * d_conv)
    &&& word(conv * d_conv + (if conv_bias { conv } else { 0 }))
    &&& word(heads * 3)
    &&& word(hidden * inner)
    &&& word(hidden * inner + (if proj_bias { hidden } else { 0 }))
    &&& word(in_proj + conv1d + state + inner + out_proj)
}

/// The state space mixer of a layer.
pub fn granite_mamba(cfg: &GraniteConfig) -> (r: usize)
    requires
        granite_mamba_fits(*cfg),
    ensures
        r == granite_mamba_elems(*cfg),
{
    let hidden: usize = cfg.hidden_size;
    let inner: usize = cfg.mamba_intermediate_size;
    let conv: usize = cfg.mamba_conv_dim;
    let heads: usize = cfg.mamba_n_heads;
    let d_conv: usize = cfg.mamba_d_conv;
    let proj_bias: bool = cfg.mamba_proj_bias;
    let conv_bias: bool = cfg.mamba_conv_bias;
    let projection: usize = inner + conv + heads;
    let in_proj: usize = projection * hidden + (if proj_bias { projection } else { 0 });
    let conv1d: usize = conv * d_conv + (if conv_bias { conv } else { 0 });
    let state: usize = heads * 3;
    let out_proj: usize = hidden * inner + (if proj_bias { hidden } else { 0 });
    in_proj + conv1d + state + inner + out_proj
}

/// The width of the shared feed-forward block. A model without routed experts
/// always has one.
pub open spec fn granite_shared_width(cfg: GraniteConfig) -> int {
    if cfg.num_local_experts == 0 {
        cfg.dense_intermediate_size as int
    } else {
        match cfg.shared_intermediate_size {
            Some(n) => n as int,
            None => 0,
        }
    }
}

fn shared_width(cfg: &GraniteConfig) -> (r: usize)
    ensures
        r == granite_shared_width(*cfg),
{
    if cfg.num_local_experts == 0 {
        cfg.dense_intermediate_size
    } else {
        match cfg.shared_intermediate_size {
            Some(n) => n,
            None => 0,
        }
    }
}

/// What every layer has: norms, the shared block and the routed experts.
pub open spec fn granite_common_elems(cfg: GraniteConfig, pack: int) -> int {
    let hidden = cfg.hidden_size as int;
    let experts = cfg.num_local_experts as int;
    let width = cfg.intermediate_size as int;
    let shared = granite_shared_width(cfg);
    let shared_mlp = hidden * shared * 2 / pack + shared * hidden / pack;
    let routed = if experts > 0 {
        experts * hidden + experts * width * 2 * hidden + experts * hidden * width
    } else {
        0
    };
    hidden * 2 + shared_mlp + routed
}

/// Every step of `granite_common` fits a machine word.
pub open spec fn granite_common_fits(cfg: GraniteConfig, pack: int) -> bool {
    let hidden = cfg.hidden_size as int;
    let experts = cfg.num_local_experts as int;
    let width = cfg.intermediate_size as int;
    let shared = granite_shared_width(cfg);
    let shared_mlp = hidden * shared * 2 / pack + shared * hidden / pack;
    let routed = if experts > 0 {
        experts * hidden + experts * width * 2 * hidden + experts * hidden * width
    } else {
        0
    };
    &&& word(hidden * shared)
    &&& word(hidden * shared * 2)
    &&& pack > 0
    &&& word(shared * hidden)
    &&& word(hidden * shared * 2 / pack + shared * hidden / pack)
    &&& (experts > 0) ==> word(experts * hidden)
    &&& (experts > 0) ==> word(experts * width)
    &&& (experts > 0) ==> word(experts * width * 2)
    &&& (experts > 0) ==> word(experts * width * 2 * hidden)
    &&& (experts > 0) ==> word(experts * hidden * width)
    &&& (experts > 0)
        ==> word(experts * hidden + experts * width * 2 * hidden + experts * hidden * width)
    &&& word(hidden * 2)
    &&& word(hidden * 2 + shared_mlp + routed)
}

/// What every layer has: norms, the shared block and the routed experts.
pub fn granite_common(cfg: &GraniteConfig, pack: usize) -> (r: usize)
    requires
        granite_common_fits(*cfg, pack as int),
    ensures
        r == granite_common_elems(*cfg, pack as int),
{
    let hidden: usize = cfg.hidden_size;
    let experts: usize = cfg.num_local_experts;
    let width: usize = cfg.intermediate_size;
    let shared: usize = shared_width(cfg);
    let shared_mlp: usize = hidden * shared * 2 / pack + shared * hidden / pack;
    let routed: usize = if experts > 0 {
        experts * hidden + experts * width * 2 * hidden + experts * hidden * width
    } else {
        0
    };
    hidden * 2 + shared_mlp + routed
}

/// A layer of the given kind.
pub open spec fn granite_layer_elems(cfg: GraniteConfig, kind: GraniteLayerType, pack: int) -> int {
    let common = granite_common_elems(cfg, pack);
    let operator = match kind {
        GraniteLayerType::Attention => granite_attention_elems(cfg, pack),
        GraniteLayerType::Mamba => granite_mamba_elems(cfg),
    };
    common + operator
}

/// Every step of `granite_layer` fits a machine word.
pub open spec fn granite_layer_fits(cfg: GraniteConfig, kind: GraniteLayerType, pack: int) -> bool {
    let common = granite_common_elems(cfg, pack);
    let operator = match kind {
        GraniteLayerType::Attention => granite_attention_elems(cfg, pack),
        GraniteLayerType::Mamba => granite_mamba_elems(cfg),
    };
    &&& granite_common_fits(cfg, pack)
    &&& kind == GraniteLayerType::Attention ==> granite_attention_fits(cfg, pack)
    &&& kind == GraniteLayerType::Mamba ==> granite_mamba_fits(cfg)
    &&& word(common + operator)
}

/// A layer of the given kind.
pub fn granite_layer(cfg: &GraniteConfig, kind: GraniteLayerType, pack: usize) -> (r: usize)
    requires
        granite_layer_fits(*cfg, kind, pack as int),
    ensures
        r == granite_layer_elems(*cfg, kind, pack as int),
{
    let common: usize = granite_common(cfg, pack);
    let operator: usize = match kind {
        GraniteLayerType::Attention => granite_attention(cfg, pack),
        GraniteLayerType::Mamba => granite_mamba(cfg),
    };
    common + operator
}

/// Loader of GraniteMoeHybrid (IBM Granite 4.0) models.
pub struct GraniteMoeHybridLoader;

impl GraniteMoeHybridLoader {
    /// Elements of the largest activation of a layer.
    pub fn mapped_max_act_size_elems(
        &self,
        cfg: &GraniteConfig,
        params: &AutoDeviceMapParams,
        attention_chunk: usize,
    ) -> (r: Result<usize, LoaderError>)
        requires
            match *params {
                AutoDeviceMapParams::Text {
                    max_seq_len,
                    max_batch_size,
                } => granite_mapped_act_fits(
                    *cfg,
                    max_seq_len as int,
                    max_batch_size as int,
                    attention_chunk as int,
                ),
                _ => true,
            },
        ensures
            match *params {
                AutoDeviceMapParams::Text {
                    max_seq_len,
                    max_batch_size,
                } => r matches Ok(n) && n == granite_mapped_act_elems(
                    *cfg,
                    max_seq_len as int,
                    max_batch_size as int,
                    attention_chunk as int,
                ),
                _ => r == Err::<usize, LoaderError>(LoaderError::ExpectedText),
            },
    {
        match params {
            AutoDeviceMapParams::Text { max_seq_len, max_batch_size } => Ok(
                granite_mapped_act(cfg, *max_seq_len, *max_batch_size, attention_chunk),
            ),
            _ => Err(LoaderError::ExpectedText),
        }
    }

    /// Elements of the largest activation outside the layers: there is none.
    pub fn non_mapped_max_act_size_elems(&self) -> (r: usize)
        ensures
            r == 0,
    {
        0
    }

    /// The tensors by whose quantization the pack factors are known.
    pub fn pack_lookup(&self, cfg: &GraniteConfig) -> (r: PackLookup)
        ensures
            r.asks(
                seq!["model.embed_tokens.weight"@],
                "lm_head.weight"@,
                cfg.tie_word_embeddings,
            ),
    {
        let embed_tokens = vec!["model.embed_tokens.weight"];
        assert(literals(embed_tokens@) =~= seq!["model.embed_tokens.weight"@]);
        PackLookup { embed_tokens, lm_head: "lm_head.weight", tied: cfg.tie_word_embeddings }
    }

    /// Bytes of what is not mapped to layers.
    pub fn non_mapped_size_in_bytes(
        &self,
        cfg: &GraniteConfig,
        dtype: DType,
        packs: PackFactors,
    ) -> (r: usize)
        requires
            granite_non_mapped_fits(*cfg, packs),
            word(granite_non_mapped_elems(*cfg, packs) * dtype.bytes()),
        ensures
            r == granite_non_mapped_elems(*cfg, packs) * dtype.bytes(),
    {
        let elems: usize = granite_non_mapped(cfg, packs);
        elems * dtype.size_in_bytes()
    }

    /// Bytes of each layer, by the kinds of the layers.
    pub fn layer_sizes_in_bytes(
        &self,
        cfg: &GraniteConfig,
        layers: &Vec<GraniteLayerType>,
        dtype: DType,
        weight_pack_factor: usize,
    ) -> (r: Vec<usize>)
        requires
            forall|i: int| 0 <= i < layers@.len()
                ==> granite_layer_fits(*cfg, #[trigger] layers@[i], weight_pack_factor as int)
                && word(
                    granite_layer_elems(
                        *cfg,
                        layers@[i],
                        weight_pack_factor as int,
                    ) * dtype.bytes(),
                ),
        ensures
            r@.len() == layers@.len(),
            forall|i: int| 0 <= i < r@.len()
                ==> #[trigger] r@[i] == granite_layer_elems(
                    *cfg,
                    layers@[i],
                    weight_pack_factor as int,
                ) * dtype.bytes(),
    {
        let n: usize = layers.len();
        let mut r: Vec<usize> = Vec::with_capacity(n);
        let mut i: usize = 0;
        while i < n
            invariant
                i <= n == layers@.len(),
                r@.len() == i,
                forall|j: int| 0 <= j < layers@.len()
                    ==> granite_layer_fits(*cfg, #[trigger] layers@[j], weight_pack_factor as int)
                    && word(
                        granite_layer_elems(
                            *cfg,
                            layers@[j],
                            weight_pack_factor as int,
                        ) * dtype.bytes(),
                    ),
                forall|j: int| 0 <= j < i
                    ==> #[trigger] r@[j] == granite_layer_elems(
                        *cfg,
                        layers@[j],
                        weight_pack_factor as int,
                    ) * dtype.bytes(),
            decreases n - i,
        {
            assert(granite_layer_fits(*cfg, layers@[i as int], weight_pack_factor as int));
            let elems: usize = granite_layer(cfg, layers[i], weight_pack_factor);
            r.push(elems * dtype.size_in_bytes());
            i += 1;
        }
        r
    }

    /// Number of layers.
    pub fn num_layers(&self, cfg: &GraniteConfig) -> (r: usize)
        ensures
            r == cfg.num_hidden_layers,
    {
        cfg.num_hidden_layers
    }

    /// What the paged cache needs to know of the model.
    pub fn model_config(&self, cfg: &GraniteConfig) -> (r: ModelConfigMetadata)
        ensures
            r == (ModelConfigMetadata {
                max_seq_len: cfg.max_position_embeddings,
                num_layers: cfg.num_hidden_layers,
                hidden_size: cfg.hidden_size,
                num_kv_heads: cfg.num_key_value_heads,
                num_attn_heads: cfg.num_attention_heads,
                sliding_window: None,
                k_head_dim: cfg.head_dim,
                v_head_dim: cfg.head_dim,
                kv_cache_layout: KvCacheLayout::Standard,
            }),
    {
        ModelConfigMetadata {
                max_seq_len: cfg.max_position_embeddings,
                num_layers: cfg.num_hidden_layers,
                hidden_size: cfg.hidden_size,
                num_kv_heads: cfg.num_key_value_heads,
                num_attn_heads: cfg.num_attention_heads,
                sliding_window: None,
                k_head_dim: cfg.head_dim,
                v_head_dim: cfg.head_dim,
                kv_cache_layout: KvCacheLayout::Standard,
        }
    }

    /// Whether rotary embeddings split a head in halves by default.
    pub fn is_gptx(&self) -> (r: bool)
        ensures
            r == true,
    {
        true
    }

    /// Whether the model runs with paged attention.
    pub fn supports_paged_attention(&self) -> (r: bool)
        ensures
            r == true,
    {
        true
    }

    /// The model has no X-LoRA variant.
    pub fn load_xlora(&self) -> (r: Result<(), LoaderError>)
        ensures
            r == Err::<(), LoaderError>(LoaderError::GraniteXLora),
    {
        Err(LoaderError::GraniteXLora)
    }

    /// Tensors that keep a higher precision when quantized.
    pub open spec fn promoted_isq_predicates_texts(&self) -> Seq<Seq<char>> {
        seq![r"^model\.embed_tokens\.weight$"@] + seq![ROOT_LM_HEAD@]
    }

    /// Tensors that keep a higher precision when quantized.
    pub fn promoted_isq_predicates(&self) -> (r: Vec<String>)
        ensures
            texts(r@) == self.promoted_isq_predicates_texts(),
    {
        let mut out: Vec<String> = Vec::new();
        push_pattern(&mut out, r"^model\.embed_tokens\.weight$");
        push_pattern(&mut out, ROOT_LM_HEAD);
        assert(texts(out@) =~= self.promoted_isq_predicates_texts());
        out
    }

    /// Tensors that are quantized.
    pub open spec fn isq_layer_regexes_texts(&self) -> Seq<Seq<char>> {
        seq![LM_HEAD@] + family(ANY_LAYER@, attention_module_texts(), WEIGHT_OR_BIAS@) + seq![
                r"layers\.(\d+)\.mamba\.(in_proj|out_proj)\.(weight|bias)$"@,
                r"layers\.(\d+)\.shared_mlp\.input_linear\.(weight|bias)$"@,
                r"layers\.(\d+)\.shared_mlp\.output_linear\.(weight|bias)$"@,
                r"layers\.(\d+)\.block_sparse_moe\.(input_linear|output_linear)\.weight$"@,
            ]
    }

    /// Tensors that are quantized.
    pub fn isq_layer_regexes(&self) -> (r: Vec<String>)
        ensures
            texts(r@) == self.isq_layer_regexes_texts(),
    {
        let mut out: Vec<String> = Vec::new();
        push_pattern(&mut out, LM_HEAD);
        push_family(&mut out, ANY_LAYER, &attention_modules(), WEIGHT_OR_BIAS);
        let list0 = vec![
            r"layers\.(\d+)\.mamba\.(in_proj|out_proj)\.(weight|bias)$",
            r"layers\.(\d+)\.shared_mlp\.input_linear\.(weight|bias)$",
            r"layers\.(\d+)\.shared_mlp\.output_linear\.(weight|bias)$",
            r"layers\.(\d+)\.block_sparse_moe\.(input_linear|output_linear)\.weight$",
        ];
        assert(
            literals(list0@) =~= seq![
                r"layers\.(\d+)\.mamba\.(in_proj|out_proj)\.(weight|bias)$"@,
                r"layers\.(\d+)\.shared_mlp\.input_linear\.(weight|bias)$"@,
                r"layers\.(\d+)\.shared_mlp\.output_linear\.(weight|bias)$"@,
                r"layers\.(\d+)\.block_sparse_moe\.(input_linear|output_linear)\.weight$"@,
            ]
        );
        push_patterns(&mut out, &list0);
        assert(texts(out@) =~= self.isq_layer_regexes_texts());
        out
    }

    /// Tensors that are quantized while they are loaded: those that are quantized.
    pub fn immediate_isq_predicates(&self) -> (r: Vec<String>)
        ensures
            texts(r@) == self.isq_layer_regexes_texts(),
    {
        self.isq_layer_regexes()
    }

    /// Expert tensors that are quantized.
    pub open spec fn isq_layer_regexes_moqe_texts(&self) -> Seq<Seq<char>> {
        seq![r"layers\.(\d+)\.block_sparse_moe\.(input_linear|output_linear)\.weight$"@]
    }

    /// Expert tensors that are quantized.
    pub fn isq_layer_regexes_moqe(&self) -> (r: Vec<String>)
        ensures
            texts(r@) == self.isq_layer_regexes_moqe_texts(),
    {
        let mut out: Vec<String> = Vec::new();
        push_pattern(
            &mut out,
            r"layers\.(\d+)\.block_sparse_moe\.(input_linear|output_linear)\.weight$",
        );
        assert(texts(out@) =~= self.isq_layer_regexes_moqe_texts());
        out
    }

    /// Expert tensors that are quantized while they are loaded.
    pub fn immediate_isq_predicates_moqe(&self) -> (r: Vec<String>)
        ensures
            texts(r@) == self.isq_layer_regexes_moqe_texts(),
    {
        self.isq_layer_regexes_moqe()
    }
}

} // verus!
