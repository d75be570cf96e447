//! DeepSeekV3.

use vstd::prelude::*;

use crate::loaders::{
    AutoDeviceMapParams, KvCacheLayout, LoaderError, ModelConfigMetadata, PackFactors, PackLookup,
};
use crate::loaders::patterns::{
    LM_HEAD, ROOT_LM_HEAD, WEIGHT_OR_BIAS, literals, push_pattern, push_patterns, texts,
};
use crate::loaders::sizes::{
    attention, gated_mlp, gated_mlp_elems, gated_mlp_fits, smaller, smaller_elems, text_head,
    text_head_elems, text_head_fits, word,
};
use crate::tensor::{DType};
use crate::text::{decimal, push_decimal};

verus! {

/// What the sizes depend on.
#[derive(Debug, Clone, Copy, PartialEq, Eq, Structural)]
pub struct DeepSeekV3Config {
    pub hidden_size: usize,
    pub vocab_size: usize,
    pub tie_word_embeddings: bool,
    pub num_hidden_layers: usize,
    pub num_attention_heads: usize,
    pub intermediate_size: usize,
    pub moe_intermediate_size: usize,
    pub n_routed_experts: Option<usize>,
    pub n_shared_experts: Option<usize>,
    pub first_k_dense_replace: usize,
    pub moe_layer_freq: usize,
    pub q_lora_rank: Option<usize>,
    pub kv_lora_rank: usize,
    pub q_head_dim: usize,
    pub qk_rope_head_dim: usize,
    pub qk_nope_head_dim: usize,
    pub v_head_dim: usize,
    pub attention_bias: bool,
    pub max_position_embeddings: usize,
}

/// Scores of a prompt chunk.
pub open spec fn deepseek3_mapped_act_elems(
    cfg: DeepSeekV3Config,
    seq: int,
    batch: int,
    chunk: int,
) -> int {
    let heads = cfg.num_attention_heads as int;
    let queries = smaller_elems(seq, chunk);
    batch * heads * (queries * queries)
}

/// Every step of `deepseek3_mapped_act` fits a machine word.
pub open spec fn deepseek3_mapped_act_fits(
    cfg: DeepSeekV3Config,
    seq: int,
    batch: int,
    chunk: int,
) -> bool {
    let heads = cfg.num_attention_heads as int;
    let queries = smaller_elems(seq, chunk);
    &&& word(batch * heads)
    &&& word(queries * queries)
    &&& word(batch * heads * (queries * queries))
}

/// Scores of a prompt chunk.
pub fn deepseek3_mapped_act(
    cfg: &DeepSeekV3Config,
    seq: usize,
    batch: usize,
    chunk: usize,
) -> (r: usize)
    requires
        deepseek3_mapped_act_fits(*cfg, seq as int, batch as int, chunk as int),
    ensures
        r == deepseek3_mapped_act_elems(*cfg, seq as int, batch as int, chunk as int),
{
    let heads: usize = cfg.num_attention_heads;
    let queries: usize = smaller(seq, chunk);
    batch * heads * (queries * queries)
}

/// Token embeddings, output head and final norm.
pub open spec fn deepseek3_non_mapped_elems(cfg: DeepSeekV3Config, packs: PackFactors) -> int {
    let hidden = cfg.hidden_size as int;
    let vocab = cfg.vocab_size as int;
    let embed_pack = packs.embed_tokens as int;
    let head_pack = packs.lm_head as int;
    let tied = cfg.tie_word_embeddings;
    text_head_elems(hidden, vocab, tied, embed_pack, head_pack)
}

/// Every step of `deepseek3_non_mapped` fits a machine word.
pub open spec fn deepseek3_non_mapped_fits(cfg: DeepSeekV3Config, packs: PackFactors) -> bool {
    let hidden = cfg.hidden_size as int;
    let vocab = cfg.vocab_size as int;
    let embed_pack = packs.embed_tokens as int;
    let head_pack = packs.lm_head as int;
    let tied = cfg.tie_word_embeddings;
    &&& text_head_fits(hidden, vocab, tied, embed_pack, head_pack)
}

/// Token embeddings, output head and final norm.
pub fn deepseek3_non_mapped(cfg: &DeepSeekV3Config, packs: PackFactors) -> (r: usize)
    requires
        deepseek3_non_mapped_fits(*cfg, packs),
    ensures
        r == deepseek3_non_mapped_elems(*cfg, packs),
{
    let hidden: usize = cfg.hidden_size;
    let vocab: usize = cfg.vocab_size;
    let embed_pack: usize = packs.embed_tokens;
    let head_pack: usize = packs.lm_head;
    let tied: bool = cfg.tie_word_embeddings;
    text_head(hidden, vocab, tied, embed_pack, head_pack)
}

/// The number in an option, or none.
pub open spec fn or_zero(n: Option<usize>) -> int {
    match n {
        Some(n) => n as int,
        None => 0,
    }
}

fn unwrap_or_zero(n: Option<usize>) -> (r: usize)
    ensures
        r == or_zero(n),
{
    match n {
        Some(n) => n,
        None => 0,
    }
}

/// The query projection, of low rank where the configuration gives a rank.
pub open spec fn deepseek3_q_elems(cfg: DeepSeekV3Config) -> int {
    let hidden = cfg.hidden_size as int;
    let heads = cfg.num_attention_heads as int;
    let q_head = cfg.q_head_dim as int;
    let rank = or_zero(cfg.q_lora_rank);
    let low_rank = cfg.q_lora_rank is Some;
    if low_rank { hidden * rank + rank + heads * q_head * rank } else { heads * q_head * hidden }
}

/// Every step of `deepseek3_q` fits a machine word.
pub open spec fn deepseek3_q_fits(cfg: DeepSeekV3Config) -> bool {
    let hidden = cfg.hidden_size as int;
    let heads = cfg.num_attention_heads as int;
    let q_head = cfg.q_head_dim as int;
    let rank = or_zero(cfg.q_lora_rank);
    let low_rank = cfg.q_lora_rank is Some;
    &&& low_rank ==> word(hidden * rank)
    &&& low_rank ==> word(heads * q_head)
    &&& low_rank ==> word(heads * q_head * rank)
    &&& low_rank ==> word(hidden * rank + rank + heads * q_head * rank)
    &&& !low_rank ==> word(heads * q_head)
    &&& !low_rank ==> word(heads * q_head * hidden)
}

/// The query projection, of low rank where the configuration gives a rank.
pub fn deepseek3_q(cfg: &DeepSeekV3Config) -> (r: usize)
    requires
        deepseek3_q_fits(*cfg),
    ensures
        r == deepseek3_q_elems(*cfg),
{
    let hidden: usize = cfg.hidden_size;
    let heads: usize = cfg.num_attention_heads;
    let q_head: usize = cfg.q_head_dim;
    let rank: usize = unwrap_or_zero(cfg.q_lora_rank);
    let low_rank: bool = cfg.q_lora_rank.is_some();
    if low_rank { hidden * rank + rank + heads * q_head * rank } else { heads * q_head * hidden }
}

/// The latent attention of a layer.
pub open spec fn deepseek3_attention_elems(cfg: DeepSeekV3Config, pack: int) -> int {
    let hidden = cfg.hidden_size as int;
    let heads = cfg.num_attention_heads as int;
    let q_head = cfg.q_head_dim as int;
    let kv_rank = cfg.kv_lora_rank as int;
    let rope = cfg.qk_rope_head_dim as int;
    let v_head = cfg.v_head_dim as int;
    let biased = cfg.attention_bias;
    let q_proj = deepseek3_q_elems(cfg);
    let kv_a_proj_with_mqa = hidden * (kv_rank + rope) / pack
        + (if biased { kv_rank + rope } else { 0 });
    let kv_b_proj = kv_rank * heads * (q_head - rope + v_head) / pack;
    let o_proj = heads * v_head * hidden / pack + (if biased { hidden } else { 0 });
    q_proj + kv_rank + kv_a_proj_with_mqa + kv_b_proj + o_proj
}

/// Every step of `deepseek3_attention` fits a machine word.
pub open spec fn deepseek3_attention_fits(cfg: DeepSeekV3Config, pack: int) -> bool {
    let hidden = cfg.hidden_size as int;
    let heads = cfg.num_attention_heads as int;
    let q_head = cfg.q_head_dim as int;
    let kv_rank = cfg.kv_lora_rank as int;
    let rope = cfg.qk_rope_head_dim as int;
    let v_head = cfg.v_head_dim as int;
    let biased = cfg.attention_bias;
    let q_proj = deepseek3_q_elems(cfg);
    let kv_a_proj_with_mqa = hidden * (kv_rank + rope) / pack
        + (if biased { kv_rank + rope } else { 0 });
    let kv_b_proj = kv_rank * heads * (q_head - rope + v_head) / pack;
    let o_proj = heads * v_head * hidden / pack + (if biased { hidden } else { 0 });
    &&& deepseek3_q_fits(cfg)
    &&& word(kv_rank + rope)
    &&& word(hidden * (kv_rank + rope))
    &&& pack > 0
    &&& biased ==> word(kv_rank + rope)
    &&& word(hidden * (kv_rank + rope) / pack + (if biased { kv_rank + rope } else { 0 }))
    &&& word(kv_rank * heads)
    &&& q_head >= rope
    &&& word(q_head - rope + v_head)
    &&& word(kv_rank * heads * (q_head - rope + v_head))
    &&& word(heads * v_head)
    &&& word(heads * v_head * hidden)
    &&& word(heads * v_head * hidden / pack + (if biased { hidden } else { 0 }))
    &&& word(q_proj + kv_rank + kv_a_proj_with_mqa + kv_b_proj + o_proj)
}

/// The latent attention of a layer.
pub fn deepseek3_attention(cfg: &DeepSeekV3Config, pack: usize) -> (r: usize)
    requires
        deepseek3_attention_fits(*cfg, pack as int),
    ensures
        r == deepseek3_attention_elems(*cfg, pack as int),
{
    let hidden: usize = cfg.hidden_size;
    let heads: usize = cfg.num_attention_heads;
    let q_head: usize = cfg.q_head_dim;
    let kv_rank: usize = cfg.kv_lora_rank;
    let rope: usize = cfg.qk_rope_head_dim;
    let v_head: usize = cfg.v_head_dim;
    let biased: bool = cfg.attention_bias;
    let q_proj: usize = deepseek3_q(cfg);
    let kv_a_proj_with_mqa: usize = hidden * (kv_rank + rope) / pack
        + (if biased { kv_rank + rope } else { 0 });
    let kv_b_proj: usize = kv_rank * heads * (q_head - rope + v_head) / pack;
    let o_proj: usize = heads * v_head * hidden / pack + (if biased { hidden } else { 0 });
    q_proj + kv_rank + kv_a_proj_with_mqa + kv_b_proj + o_proj
}

/// The routed and shared experts of a layer, with their router.
pub open spec fn deepseek3_experts_elems(cfg: DeepSeekV3Config, pack: int) -> int {
    let hidden = cfg.hidden_size as int;
    let width = cfg.moe_intermediate_size as int;
    let shared_width = cfg.intermediate_size as int;
    let routed = or_zero(cfg.n_routed_experts);
    let shared = or_zero(cfg.n_shared_experts);
    let proj = hidden * width / pack * routed;
    let shared_proj = hidden * (shared_width * shared) / pack;
    proj + proj + proj + (shared_proj + shared_proj + shared_proj) + routed * hidden
}

/// Every step of `deepseek3_experts` fits a machine word.
pub open spec fn deepseek3_experts_fits(cfg: DeepSeekV3Config, pack: int) -> bool {
    let hidden = cfg.hidden_size as int;
    let width = cfg.moe_intermediate_size as int;
    let shared_width = cfg.intermediate_size as int;
    let routed = or_zero(cfg.n_routed_experts);
    let shared = or_zero(cfg.n_shared_experts);
    let proj = hidden * width / pack * routed;
    let shared_proj = hidden * (shared_width * shared) / pack;
    &&& word(hidden * width)
    &&& pack > 0
    &&& word(hidden * width / pack * routed)
    &&& word(shared_width * shared)
    &&& word(hidden * (shared_width * shared))
    &&& word(shared_proj + shared_proj + shared_proj)
    &&& word(routed * hidden)
    &&& word(proj + proj + proj + (shared_proj + shared_proj + shared_proj) + routed * hidden)
}

/// The routed and shared experts of a layer, with their router.
pub fn deepseek3_experts(cfg: &DeepSeekV3Config, pack: usize) -> (r: usize)
    requires
        deepseek3_experts_fits(*cfg, pack as int),
    ensures
        r == deepseek3_experts_elems(*cfg, pack as int),
{
    let hidden: usize = cfg.hidden_size;
    let width: usize = cfg.moe_intermediate_size;
    let shared_width: usize = cfg.intermediate_size;
    let routed: usize = unwrap_or_zero(cfg.n_routed_experts);
    let shared: usize = unwrap_or_zero(cfg.n_shared_experts);
    let proj: usize = hidden * width / pack * routed;
    let shared_proj: usize = hidden * (shared_width * shared) / pack;
    proj + proj + proj + (shared_proj + shared_proj + shared_proj) + routed * hidden
}

/// The layer routes tokens to experts: there are experts, the leading dense
/// layers are over, and the layer is one of every `moe_layer_freq`.
pub open spec fn is_moe_layer(cfg: DeepSeekV3Config, layer: int) -> bool {
    &&& cfg.n_routed_experts is Some
    &&& layer >= cfg.first_k_dense_replace
    &&& layer % (cfg.moe_layer_freq as int) == 0
}

/// The layers that may hold experts can be counted.
pub open spec fn moe_layers_counted(cfg: DeepSeekV3Config, layer: int) -> bool {
    cfg.n_routed_experts is Some && layer >= cfg.first_k_dense_replace ==> cfg.moe_layer_freq > 0
}

fn moe_layer(cfg: &DeepSeekV3Config, layer: usize) -> (r: bool)
    requires
        moe_layers_counted(*cfg, layer as int),
    ensures
        r == is_moe_layer(*cfg, layer as int),
{
    cfg.n_routed_experts.is_some() && layer >= cfg.first_k_dense_replace && layer
        % cfg.moe_layer_freq == 0
}

/// The layer of an index.
pub open spec fn deepseek3_layer_elems(cfg: DeepSeekV3Config, layer: int, pack: int) -> int {
    let hidden = cfg.hidden_size as int;
    let width = cfg.intermediate_size as int;
    let routes = is_moe_layer(cfg, layer);
    let attn = deepseek3_attention_elems(cfg, pack);
    let block = if routes {
        deepseek3_experts_elems(cfg, pack)
    } else {
        gated_mlp_elems(hidden, width, pack)
    };
    hidden + hidden + attn + block
}

/// Every step of `deepseek3_layer` fits a machine word.
pub open spec fn deepseek3_layer_fits(cfg: DeepSeekV3Config, layer: int, pack: int) -> bool {
    let hidden = cfg.hidden_size as int;
    let width = cfg.intermediate_size as int;
    let routes = is_moe_layer(cfg, layer);
    let attn = deepseek3_attention_elems(cfg, pack);
    let block = if routes {
        deepseek3_experts_elems(cfg, pack)
    } else {
        gated_mlp_elems(hidden, width, pack)
    };
    &&& moe_layers_counted(cfg, layer)
    &&& deepseek3_attention_fits(cfg, pack)
    &&& routes ==> deepseek3_experts_fits(cfg, pack)
    &&& !routes ==> gated_mlp_fits(hidden, width, pack)
    &&& word(hidden + hidden + attn + block)
}

/// The layer of an index.
pub fn deepseek3_layer(cfg: &DeepSeekV3Config, layer: usize, pack: usize) -> (r: usize)
    requires
        deepseek3_layer_fits(*cfg, layer as int, pack as int),
    ensures
        r == deepseek3_layer_elems(*cfg, layer as int, pack as int),
{
    let hidden: usize = cfg.hidden_size;
    let width: usize = cfg.intermediate_size;
    let routes: bool = moe_layer(cfg, layer);
    let attn: usize = deepseek3_attention(cfg, pack);
    let block: usize = if routes {
        deepseek3_experts(cfg, pack)
    } else {
        gated_mlp(hidden, width, pack)
    };
    hidden + hidden + attn + block
}

/// Every step of every layer's size fits a machine word.
pub open spec fn deepseek3_layers_fit(cfg: DeepSeekV3Config, dtype: DType, pack: int) -> bool {
    forall|i: int|
        0 <= i < cfg.num_hidden_layers ==> #[trigger] deepseek3_layer_fits(cfg, i, pack) && word(
            deepseek3_layer_elems(cfg, i, pack) * dtype.bytes(),
        )
}

/// The pattern of a projection in the layer of an index.
pub open spec fn layer_pattern(layer: int, module: Seq<char>) -> Seq<char> {
    r"layers\."@ + decimal(layer as nat) + module + WEIGHT_OR_BIAS@
}

/// The pattern of a projection of an expert.
pub open spec fn expert_pattern(layer: int, expert: int, module: Seq<char>) -> Seq<char> {
    r"layers\."@ + decimal(layer as nat) + r"\.mlp\.experts\."@ + decimal(expert as nat) + module
        + WEIGHT_OR_BIAS@
}

/// The patterns of the first `n` experts of a layer.
pub open spec fn expert_patterns(layer: int, n: nat) -> Seq<Seq<char>>
    decreases n,
{
    if n == 0 {
        Seq::empty()
    } else {
        expert_patterns(layer, (n - 1) as nat) + seq![
            expert_pattern(layer, n - 1, r"\.gate_proj"@),
            expert_pattern(layer, n - 1, r"\.up_proj"@),
            expert_pattern(layer, n - 1, r"\.down_proj"@),
        ]
    }
}

/// The patterns of the feed-forward block of a layer.
pub open spec fn block_patterns(cfg: DeepSeekV3Config, layer: int) -> Seq<Seq<char>> {
    if is_moe_layer(cfg, layer) {
        let shared = if cfg.n_shared_experts is Some {
            seq![
                layer_pattern(layer, r"\.mlp\.shared_experts\.gate_proj"@),
                layer_pattern(layer, r"\.mlp\.shared_experts\.up_proj"@),
                layer_pattern(layer, r"\.mlp\.shared_experts\.down_proj"@),
            ]
        } else {
            Seq::empty()
        };
        expert_patterns(layer, or_zero(cfg.n_routed_experts) as nat) + shared
    } else {
        seq![
            layer_pattern(layer, r"\.mlp\.gate_proj"@),
            r"layers."@ + decimal(layer as nat) + r".mlp\.up_proj"@ + WEIGHT_OR_BIAS@,
            layer_pattern(layer, r"\.mlp\.down_proj"@),
        ]
    }
}

/// The patterns of the feed-forward blocks of the first `n` layers.
pub open spec fn blocks_patterns(cfg: DeepSeekV3Config, n: nat) -> Seq<Seq<char>>
    decreases n,
{
    if n == 0 {
        Seq::empty()
    } else {
        blocks_patterns(cfg, (n - 1) as nat) + block_patterns(cfg, n - 1)
    }
}

fn push_layer_pattern(out: &mut Vec<String>, layer: usize, module: &str)
    ensures
        texts(final(out)@) == texts(old(out)@).push(layer_pattern(layer as int, module@)),
{
    let mut s: String = r"layers\.".to_owned();
    push_decimal(&mut s, layer);
    s.append(module);
    s.append(WEIGHT_OR_BIAS);
    push_pattern(out, s.as_str());
}

fn push_expert_pattern(out: &mut Vec<String>, layer: usize, expert: usize, module: &str)
    ensures
        texts(final(out)@) == texts(old(out)@).push(
            expert_pattern(layer as int, expert as int, module@),
        ),
{
    let mut s: String = r"layers\.".to_owned();
    push_decimal(&mut s, layer);
    s.append(r"\.mlp\.experts\.");
    push_decimal(&mut s, expert);
    s.append(module);
    s.append(WEIGHT_OR_BIAS);
    push_pattern(out, s.as_str());
}

fn push_block_patterns(out: &mut Vec<String>, cfg: &DeepSeekV3Config, layer: usize)
    requires
        moe_layers_counted(*cfg, layer as int),
    ensures
        texts(final(out)@) == texts(old(out)@) + block_patterns(*cfg, layer as int),
{
    let ghost base = texts(out@);
    if moe_layer(cfg, layer) {
        let n: usize = unwrap_or_zero(cfg.n_routed_experts);
        let mut i: usize = 0;
        assert(texts(out@) =~= base + expert_patterns(layer as int, 0));
        while i < n
            invariant
                i <= n,
                texts(out@) == base + expert_patterns(layer as int, i as nat),
            decreases n - i,
        {
            push_expert_pattern(out, layer, i, r"\.gate_proj");
            push_expert_pattern(out, layer, i, r"\.up_proj");
            push_expert_pattern(out, layer, i, r"\.down_proj");
            i += 1;
            assert(texts(out@) =~= base + expert_patterns(layer as int, i as nat));
        }
        if cfg.n_shared_experts.is_some() {
            push_layer_pattern(out, layer, r"\.mlp\.shared_experts\.gate_proj");
            push_layer_pattern(out, layer, r"\.mlp\.shared_experts\.up_proj");
            push_layer_pattern(out, layer, r"\.mlp\.shared_experts\.down_proj");
        }
        assert(texts(out@) =~= base + block_patterns(*cfg, layer as int));
    } else {
        push_layer_pattern(out, layer, r"\.mlp\.gate_proj");
        let mut s: String = r"layers.".to_owned();
        push_decimal(&mut s, layer);
        s.append(r".mlp\.up_proj");
        s.append(WEIGHT_OR_BIAS);
        push_pattern(out, s.as_str());
        push_layer_pattern(out, layer, r"\.mlp\.down_proj");
        assert(texts(out@) =~= base + block_patterns(*cfg, layer as int));
    }
}

/// Loader of DeepSeekV3 models.
pub struct DeepSeekV3Loader;

impl DeepSeekV3Loader {
    /// Elements of the largest activation of a layer.
    pub fn mapped_max_act_size_elems(
        &self,
        cfg: &DeepSeekV3Config,
        params: &AutoDeviceMapParams,
        attention_chunk: usize,
    ) -> (r: Result<usize, LoaderError>)
        requires
            match *params {
                AutoDeviceMapParams::Text {
                    max_seq_len,
                    max_batch_size,
                } => deepseek3_mapped_act_fits(
                    *cfg,
                    max_seq_len as int,
                    max_batch_size as int,
                    attention_chunk as int,
                ),
                _ => true,
            },
        ensures
            match *params {
                AutoDeviceMapParams::Text {
                    max_seq_len,
                    max_batch_size,
                } => r matches Ok(n) && n == deepseek3_mapped_act_elems(
                    *cfg,
                    max_seq_len as int,
                    max_batch_size as int,
                    attention_chunk as int,
                ),
                _ => r == Err::<usize, LoaderError>(LoaderError::ExpectedText),
            },
    {
        match params {
            AutoDeviceMapParams::Text { max_seq_len, max_batch_size } => Ok(
                deepseek3_mapped_act(cfg, *max_seq_len, *max_batch_size, attention_chunk),
            ),
            _ => Err(LoaderError::ExpectedText),
        }
    }

    /// Elements of the largest activation outside the layers: there is none.
    pub fn non_mapped_max_act_size_elems(&self) -> (r: usize)
        ensures
            r == 0,
    {
        0
    }

    /// The tensors by whose quantization the pack factors are known.
    pub fn pack_lookup(&self, cfg: &DeepSeekV3Config) -> (r: PackLookup)
        ensures
            r.asks(
                seq!["model.embed_tokens.weight"@],
                "lm_head.weight"@,
                cfg.tie_word_embeddings,
            ),
    {
        let embed_tokens = vec!["model.embed_tokens.weight"];
        assert(literals(embed_tokens@) =~= seq!["model.embed_tokens.weight"@]);
        PackLookup { embed_tokens, lm_head: "lm_head.weight", tied: cfg.tie_word_embeddings }
    }

    /// Bytes of what is not mapped to layers.
    pub fn non_mapped_size_in_bytes(
        &self,
        cfg: &DeepSeekV3Config,
        dtype: DType,
        packs: PackFactors,
    ) -> (r: usize)
        requires
            deepseek3_non_mapped_fits(*cfg, packs),
            word(deepseek3_non_mapped_elems(*cfg, packs) * dtype.bytes()),
        ensures
            r == deepseek3_non_mapped_elems(*cfg, packs) * dtype.bytes(),
    {
        let elems: usize = deepseek3_non_mapped(cfg, packs);
        elems * dtype.size_in_bytes()
    }

    /// Bytes of each layer.
    pub fn layer_sizes_in_bytes(
        &self,
        cfg: &DeepSeekV3Config,
        dtype: DType,
        weight_pack_factor: usize,
    ) -> (r: Vec<usize>)
        requires
            deepseek3_layers_fit(*cfg, dtype, weight_pack_factor as int),
        ensures
            r@.len() == cfg.num_hidden_layers,
            forall|i: int| 0 <= i < r@.len()
                ==> #[trigger] r@[i] == deepseek3_layer_elems(
                    *cfg,
                    i,
                    weight_pack_factor as int,
                ) * dtype.bytes(),
    {
        let n: usize = cfg.num_hidden_layers;
        let mut r: Vec<usize> = Vec::with_capacity(n);
        let mut i: usize = 0;
        while i < n
            invariant
                i <= n == cfg.num_hidden_layers,
                r@.len() == i,
                deepseek3_layers_fit(*cfg, dtype, weight_pack_factor as int),
                forall|j: int| 0 <= j < i
                    ==> #[trigger] r@[j] == deepseek3_layer_elems(
                        *cfg,
                        j,
                        weight_pack_factor as int,
                    ) * dtype.bytes(),
            decreases n - i,
        {
            assert(deepseek3_layer_fits(*cfg, i as int, weight_pack_factor as int));
            let elems: usize = deepseek3_layer(cfg, i, weight_pack_factor);
            r.push(elems * dtype.size_in_bytes());
            i += 1;
        }
        r
    }

    /// Number of layers.
    pub fn num_layers(&self, cfg: &DeepSeekV3Config) -> (r: usize)
        ensures
            r == cfg.num_hidden_layers,
    {
        cfg.num_hidden_layers
    }

    /// What the paged cache needs to know of the model.
    pub fn model_config(&self, cfg: &DeepSeekV3Config) -> (r: ModelConfigMetadata)
        requires
            word(cfg.qk_rope_head_dim + cfg.qk_nope_head_dim),
        ensures
            r == (ModelConfigMetadata {
                max_seq_len: cfg.max_position_embeddings,
                num_layers: cfg.num_hidden_layers,
                hidden_size: cfg.hidden_size,
                num_kv_heads: cfg.num_attention_heads,
                num_attn_heads: cfg.num_attention_heads,
                sliding_window: None,
                k_head_dim: (cfg.qk_rope_head_dim + cfg.qk_nope_head_dim) as usize,
                v_head_dim: cfg.v_head_dim,
                kv_cache_layout: KvCacheLayout::Standard,
            }),
    {
        ModelConfigMetadata {
                max_seq_len: cfg.max_position_embeddings,
                num_layers: cfg.num_hidden_layers,
                hidden_size: cfg.hidden_size,
                num_kv_heads: cfg.num_attention_heads,
                num_attn_heads: cfg.num_attention_heads,
                sliding_window: None,
                k_head_dim: cfg.qk_rope_head_dim + cfg.qk_nope_head_dim,
                v_head_dim: cfg.v_head_dim,
                kv_cache_layout: KvCacheLayout::Standard,
        }
    }

    /// Whether rotary embeddings split a head in halves by default.
    pub fn is_gptx(&self) -> (r: bool)
        ensures
            r == true,
    {
        true
    }

    /// Whether the model runs with paged attention.
    pub fn supports_paged_attention(&self) -> (r: bool)
        ensures
            r == true,
    {
        true
    }

    /// Tensors that keep a higher precision when quantized.
    pub open spec fn promoted_isq_predicates_texts(&self) -> Seq<Seq<char>> {
        seq![r"^model\.embed_tokens\.weight$"@] + seq![ROOT_LM_HEAD@]
    }

    /// Tensors that keep a higher precision when quantized.
    pub fn promoted_isq_predicates(&self) -> (r: Vec<String>)
        ensures
            texts(r@) == self.promoted_isq_predicates_texts(),
    {
        let mut out: Vec<String> = Vec::new();
        push_pattern(&mut out, r"^model\.embed_tokens\.weight$");
        push_pattern(&mut out, ROOT_LM_HEAD);
        assert(texts(out@) =~= self.promoted_isq_predicates_texts());
        out
    }

    /// Tensors that are quantized: the projections of attention, then those of each
    /// layer's feed-forward block.
    pub open spec fn isq_layer_regexes_texts(&self, cfg: DeepSeekV3Config) -> Seq<Seq<char>> {
        let common = seq![
            LM_HEAD@,
            r"layers\.(\d+)\.self_attn\.kv_a_proj_with_mqa\.(weight|bias)$"@,
            r"layers\.(\d+)\.self_attn\.(kv_b|k_b|v_b)_proj\.(weight|bias)$"@,
            r"layers\.(\d+)\.self_attn\.o_proj\.(weight|bias)$"@,
            r"layers\.(\d+)\.mlp\.experts\.(gate_proj|up_proj|down_proj)\.weight$"@,
        ];
        let queries = if cfg.q_lora_rank is Some {
            seq![
                r"layers\.(\d+)\.self_attn\.q_a_proj\.(weight|bias)$"@,
                r"layers\.(\d+)\.self_attn\.q_b_proj\.(weight|bias)$"@,
            ]
        } else {
            seq![r"layers\.(\d+)\.self_attn\.q_proj\.(weight|bias)$"@]
        };
        common + queries + blocks_patterns(cfg, cfg.num_hidden_layers as nat)
    }

    /// Tensors that are quantized.
    pub fn isq_layer_regexes(&self, cfg: &DeepSeekV3Config) -> (r: Vec<String>)
        requires
            moe_layers_counted(*cfg, cfg.num_hidden_layers - 1),
        ensures
            texts(r@) == self.isq_layer_regexes_texts(*cfg),
    {
        let mut out: Vec<String> = Vec::new();
        push_pattern(&mut out, LM_HEAD);
        push_pattern(&mut out, r"layers\.(\d+)\.self_attn\.kv_a_proj_with_mqa\.(weight|bias)$");
        push_pattern(&mut out, r"layers\.(\d+)\.self_attn\.(kv_b|k_b|v_b)_proj\.(weight|bias)$");
        push_pattern(&mut out, r"layers\.(\d+)\.self_attn\.o_proj\.(weight|bias)$");
        push_pattern(
            &mut out,
            r"layers\.(\d+)\.mlp\.experts\.(gate_proj|up_proj|down_proj)\.weight$",
        );
        if cfg.q_lora_rank.is_some() {
            push_pattern(&mut out, r"layers\.(\d+)\.self_attn\.q_a_proj\.(weight|bias)$");
            push_pattern(&mut out, r"layers\.(\d+)\.self_attn\.q_b_proj\.(weight|bias)$");
        } else {
            push_pattern(&mut out, r"layers\.(\d+)\.self_attn\.q_proj\.(weight|bias)$");
        }
        let ghost base = texts(out@);
        let n: usize = cfg.num_hidden_layers;
        let mut i: usize = 0;
        assert(texts(out@) =~= base + blocks_patterns(*cfg, 0));
        while i < n
            invariant
                i <= n == cfg.num_hidden_layers,
                moe_layers_counted(*cfg, n - 1),
                texts(out@) == base + blocks_patterns(*cfg, i as nat),
            decreases n - i,
        {
            push_block_patterns(&mut out, cfg, i);
            i += 1;
            assert(texts(out@) =~= base + blocks_patterns(*cfg, i as nat));
        }
        assert(texts(out@) =~= self.isq_layer_regexes_texts(*cfg));
        out
    }

    /// Tensors that are quantized while they are loaded: those that are quantized.
    pub fn immediate_isq_predicates(&self, cfg: &DeepSeekV3Config) -> (r: Vec<String>)
        requires
            moe_layers_counted(*cfg, cfg.num_hidden_layers - 1),
        ensures
            texts(r@) == self.isq_layer_regexes_texts(*cfg),
    {
        self.isq_layer_regexes(cfg)
    }

    /// Expert tensors that are quantized.
    pub open spec fn isq_layer_regexes_moqe_texts(&self) -> Seq<Seq<char>> {
        seq![
                r"layers\.(\d+)\.mlp\.experts\.(\d+)\.(gate_proj|up_proj|down_proj)\.(weight|bias)$"@,
                r"layers\.(\d+)\.mlp\.experts\.(gate_proj|up_proj|down_proj)\.weight$"@,
            ]
    }

    /// Expert tensors that are quantized.
    pub fn isq_layer_regexes_moqe(&self) -> (r: Vec<String>)
        ensures
            texts(r@) == self.isq_layer_regexes_moqe_texts(),
    {
        let mut out: Vec<String> = Vec::new();
        let list0 = vec![
            r"layers\.(\d+)\.mlp\.experts\.(\d+)\.(gate_proj|up_proj|down_proj)\.(weight|bias)$",
            r"layers\.(\d+)\.mlp\.experts\.(gate_proj|up_proj|down_proj)\.weight$",
        ];
        assert(
            literals(list0@) =~= seq![
                r"layers\.(\d+)\.mlp\.experts\.(\d+)\.(gate_proj|up_proj|down_proj)\.(weight|bias)$"@,
                r"layers\.(\d+)\.mlp\.experts\.(gate_proj|up_proj|down_proj)\.weight$"@,
            ]
        );
        push_patterns(&mut out, &list0);
        assert(texts(out@) =~= self.isq_layer_regexes_moqe_texts());
        out
    }

    /// Expert tensors that are quantized while they are loaded.
    pub fn immediate_isq_predicates_moqe(&self) -> (r: Vec<String>)
        ensures
            texts(r@) == self.isq_layer_regexes_moqe_texts(),
    {
        self.isq_layer_regexes_moqe()
    }
}

} // verus!
