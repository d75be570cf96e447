//! What the sizes of text models follow from.

use vstd::prelude::*;

use crate::loaders::normal::deepseek3::{
    deepseek3_attention_elems, deepseek3_experts_elems, deepseek3_layer_elems,
    deepseek3_mapped_act_elems, deepseek3_non_mapped_elems, deepseek3_q_elems, is_moe_layer,
    or_zero, DeepSeekV3Config,
};
use crate::loaders::normal::granite::{
    granite_attention_elems, granite_common_elems, granite_layer_elems, granite_mamba_elems,
    granite_mapped_act_elems, granite_non_mapped_elems, granite_shared_width, GraniteConfig,
    GraniteLayerType,
};
use crate::loaders::normal::lfm2::{
    lfm2_attention_elems, lfm2_conv_elems, lfm2_dense_elems, lfm2_layer_elems,
    lfm2_mapped_act_elems, lfm2_moe_elems, lfm2_non_mapped_elems, FeedForwardType, Lfm2Config,
    Lfm2Layer, Lfm2LayerType,
};
use crate::loaders::normal::qwen3_next::{
    qwen3_next_full_elems, qwen3_next_layer_elems, qwen3_next_linear_elems,
    qwen3_next_mapped_act_elems, qwen3_next_non_mapped_elems, LayerType, Qwen3NextConfig,
};
use crate::loaders::sizes::{
    gated_mlp_elems, law_attention_is_packed_whole, law_words_have_rows, lemma_packed,
};
use crate::loaders::PackFactors;

verus! {

/// Each query of a chunk is scored against each of its keys, by each head; a prompt that is shorter
/// than a chunk is one.
pub proof fn law_granite_scores_a_chunk(cfg: GraniteConfig, seq: int, batch: int, chunk: int)
    requires
        0 <= seq,
        0 <= chunk,
    ensures
        seq <= chunk ==> granite_mapped_act_elems(cfg, seq, batch, chunk)
            == granite_mapped_act_elems(cfg, seq, batch, seq),
        chunk <= seq ==> granite_mapped_act_elems(cfg, seq, batch, chunk)
            == granite_mapped_act_elems(cfg, chunk, batch, chunk),
        granite_mapped_act_elems(cfg, seq + 1, batch, seq + 1)
            - granite_mapped_act_elems(cfg, seq, batch, seq)
            == batch * cfg.num_attention_heads * (2 * seq + 1),
        granite_mapped_act_elems(cfg, 0, batch, 0) == 0,
{
    let n = batch * cfg.num_attention_heads;
    assert(n * ((seq + 1) * (seq + 1)) - n * (seq * seq) == n * (2 * seq + 1)) by (nonlinear_arith);
    assert(n * (0int * 0) == 0) by (nonlinear_arith);
}

/// Words have rows in the embeddings and, unless they are tied, in the output head.
pub proof fn law_granite_words_have_rows(cfg: GraniteConfig,
    packs: PackFactors) -> (rows: (int, int))
    requires
        packs.embed_tokens > 0,
        packs.lm_head > 0,
    ensures
        granite_non_mapped_elems(cfg, packs) == rows.0 + rows.1 + cfg.hidden_size,
        packs.embed_tokens * rows.0
            <= cfg.hidden_size * cfg.vocab_size < packs.embed_tokens * (rows.0 + 1),
        cfg.tie_word_embeddings ==> rows.1 == 0,
        !cfg.tie_word_embeddings
            ==> packs.lm_head * rows.1
            <= cfg.hidden_size * cfg.vocab_size < packs.lm_head * (rows.1 + 1),
{
    law_words_have_rows(
        cfg.hidden_size as int,
        cfg.vocab_size as int,
        cfg.tie_word_embeddings,
        packs.embed_tokens as int,
        packs.lm_head as int,
    )
}

/// Each query of a chunk is scored against each of its keys, by each head; a prompt that is shorter
/// than a chunk is one.
pub proof fn law_deepseek3_scores_a_chunk(cfg: DeepSeekV3Config, seq: int, batch: int, chunk: int)
    requires
        0 <= seq,
        0 <= chunk,
    ensures
        seq <= chunk ==> deepseek3_mapped_act_elems(cfg, seq, batch, chunk)
            == deepseek3_mapped_act_elems(cfg, seq, batch, seq),
        chunk <= seq ==> deepseek3_mapped_act_elems(cfg, seq, batch, chunk)
            == deepseek3_mapped_act_elems(cfg, chunk, batch, chunk),
        deepseek3_mapped_act_elems(cfg, seq + 1, batch, seq + 1)
            - deepseek3_mapped_act_elems(cfg, seq, batch, seq)
            == batch * cfg.num_attention_heads * (2 * seq + 1),
        deepseek3_mapped_act_elems(cfg, 0, batch, 0) == 0,
{
    let n = batch * cfg.num_attention_heads;
    assert(n * ((seq + 1) * (seq + 1)) - n * (seq * seq) == n * (2 * seq + 1)) by (nonlinear_arith);
    assert(n * (0int * 0) == 0) by (nonlinear_arith);
}

/// Words have rows in the embeddings and, unless they are tied, in the output head.
pub proof fn law_deepseek3_words_have_rows(cfg: DeepSeekV3Config,
    packs: PackFactors) -> (rows: (int, int))
    requires
        packs.embed_tokens > 0,
        packs.lm_head > 0,
    ensures
        deepseek3_non_mapped_elems(cfg, packs) == rows.0 + rows.1 + cfg.hidden_size,
        packs.embed_tokens * rows.0
            <= cfg.hidden_size * cfg.vocab_size < packs.embed_tokens * (rows.0 + 1),
        cfg.tie_word_embeddings ==> rows.1 == 0,
        !cfg.tie_word_embeddings
            ==> packs.lm_head * rows.1
            <= cfg.hidden_size * cfg.vocab_size < packs.lm_head * (rows.1 + 1),
{
    law_words_have_rows(
        cfg.hidden_size as int,
        cfg.vocab_size as int,
        cfg.tie_word_embeddings,
        packs.embed_tokens as int,
        packs.lm_head as int,
    )
}

/// Each query of a chunk is scored against each of its keys, by each head; a prompt that is shorter
/// than a chunk is one.
pub proof fn law_lfm2_scores_a_chunk(cfg: Lfm2Config, seq: int, batch: int, chunk: int)
    requires
        0 <= seq,
        0 <= chunk,
    ensures
        seq <= chunk ==> lfm2_mapped_act_elems(cfg, seq, batch, chunk)
            == lfm2_mapped_act_elems(cfg, seq, batch, seq),
        chunk <= seq ==> lfm2_mapped_act_elems(cfg, seq, batch, chunk)
            == lfm2_mapped_act_elems(cfg, chunk, batch, chunk),
        lfm2_mapped_act_elems(cfg, seq + 1, batch, seq + 1)
            - lfm2_mapped_act_elems(cfg, seq, batch, seq)
            == batch * cfg.num_attention_heads * (2 * seq + 1),
        lfm2_mapped_act_elems(cfg, 0, batch, 0) == 0,
{
    let n = batch * cfg.num_attention_heads;
    assert(n * ((seq + 1) * (seq + 1)) - n * (seq * seq) == n * (2 * seq + 1)) by (nonlinear_arith);
    assert(n * (0int * 0) == 0) by (nonlinear_arith);
}

/// Words have rows in the embeddings and, unless they are tied, in the output head.
pub proof fn law_lfm2_words_have_rows(cfg: Lfm2Config, packs: PackFactors) -> (rows: (int, int))
    requires
        packs.embed_tokens > 0,
        packs.lm_head > 0,
    ensures
        lfm2_non_mapped_elems(cfg, packs) == rows.0 + rows.1 + cfg.hidden_size,
        packs.embed_tokens * rows.0
            <= cfg.hidden_size * cfg.vocab_size < packs.embed_tokens * (rows.0 + 1),
        cfg.tie_word_embeddings ==> rows.1 == 0,
        !cfg.tie_word_embeddings
            ==> packs.lm_head * rows.1
            <= cfg.hidden_size * cfg.vocab_size < packs.lm_head * (rows.1 + 1),
{
    law_words_have_rows(
        cfg.hidden_size as int,
        cfg.vocab_size as int,
        cfg.tie_word_embeddings,
        packs.embed_tokens as int,
        packs.lm_head as int,
    )
}

/// Each query of a chunk is scored against each of its keys, by each head; a prompt that is shorter
/// than a chunk is one.
pub proof fn law_qwen3_next_scores_a_chunk(cfg: Qwen3NextConfig, seq: int, batch: int, chunk: int)
    requires
        0 <= seq,
        0 <= chunk,
    ensures
        seq <= chunk ==> qwen3_next_mapped_act_elems(cfg, seq, batch, chunk)
            == qwen3_next_mapped_act_elems(cfg, seq, batch, seq),
        chunk <= seq ==> qwen3_next_mapped_act_elems(cfg, seq, batch, chunk)
            == qwen3_next_mapped_act_elems(cfg, chunk, batch, chunk),
        qwen3_next_mapped_act_elems(cfg, seq + 1, batch, seq + 1)
            - qwen3_next_mapped_act_elems(cfg, seq, batch, seq)
            == batch * cfg.num_attention_heads * (2 * seq + 1),
        qwen3_next_mapped_act_elems(cfg, 0, batch, 0) == 0,
{
    let n = batch * cfg.num_attention_heads;
    assert(n * ((seq + 1) * (seq + 1)) - n * (seq * seq) == n * (2 * seq + 1)) by (nonlinear_arith);
    assert(n * (0int * 0) == 0) by (nonlinear_arith);
}

/// Words have rows in the embeddings and, unless they are tied, in the output head.
pub proof fn law_qwen3_next_words_have_rows(cfg: Qwen3NextConfig,
    packs: PackFactors) -> (rows: (int, int))
    requires
        packs.embed_tokens > 0,
        packs.lm_head > 0,
    ensures
        qwen3_next_non_mapped_elems(cfg, packs) == rows.0 + rows.1 + cfg.hidden_size,
        packs.embed_tokens * rows.0
            <= cfg.hidden_size * cfg.vocab_size < packs.embed_tokens * (rows.0 + 1),
        cfg.tie_word_embeddings ==> rows.1 == 0,
        !cfg.tie_word_embeddings
            ==> packs.lm_head * rows.1
            <= cfg.hidden_size * cfg.vocab_size < packs.lm_head * (rows.1 + 1),
{
    law_words_have_rows(
        cfg.hidden_size as int,
        cfg.vocab_size as int,
        cfg.tie_word_embeddings,
        packs.embed_tokens as int,
        packs.lm_head as int,
    )
}

/// A head has as many rows of the model's width, in and out, as it has channels, be it a query
/// head or one of keys and values.
#[verifier::rlimit(40)]
pub proof fn law_granite_heads_cost(cfg: GraniteConfig, more: GraniteConfig)
    by (nonlinear_arith)
    ensures
        more == (GraniteConfig { num_attention_heads: more.num_attention_heads, ..cfg })
            ==> granite_attention_elems(more, 1) - granite_attention_elems(cfg, 1)
            == (2 * cfg.hidden_size * cfg.head_dim)
            * (more.num_attention_heads - cfg.num_attention_heads),
        more == (GraniteConfig { num_key_value_heads: more.num_key_value_heads, ..cfg })
            ==> granite_attention_elems(more, 1) - granite_attention_elems(cfg, 1)
            == (2 * cfg.hidden_size * cfg.head_dim)
            * (more.num_key_value_heads - cfg.num_key_value_heads),
        cfg.num_attention_heads == 0 && cfg.num_key_value_heads == 0
            ==> granite_attention_elems(cfg, 1) == 0,
{
}

/// An inner channel of a state space mixer has a row in, a row out and a weight of the norm; a
/// convolved channel has a row and its taps; a head has a row and three numbers. Biases come on
/// top.
#[verifier::rlimit(40)]
pub proof fn law_granite_mixers_cost(cfg: GraniteConfig, more: GraniteConfig)
    by (nonlinear_arith)
    ensures
        more == (GraniteConfig { mamba_intermediate_size: more.mamba_intermediate_size, ..cfg })
            ==> granite_mamba_elems(more) - granite_mamba_elems(cfg)
            == (2 * cfg.hidden_size + 1 + (if cfg.mamba_proj_bias { 1int } else { 0 }))
            * (more.mamba_intermediate_size - cfg.mamba_intermediate_size),
        more == (GraniteConfig { mamba_conv_dim: more.mamba_conv_dim, ..cfg })
            ==> granite_mamba_elems(more) - granite_mamba_elems(cfg)
            == (cfg.hidden_size + cfg.mamba_d_conv
            + (if cfg.mamba_proj_bias { 1int } else { 0 })
            + (if cfg.mamba_conv_bias { 1int } else { 0 }))
            * (more.mamba_conv_dim - cfg.mamba_conv_dim),
        more == (GraniteConfig { mamba_n_heads: more.mamba_n_heads, ..cfg })
            ==> granite_mamba_elems(more) - granite_mamba_elems(cfg)
            == (cfg.hidden_size + 3 + (if cfg.mamba_proj_bias { 1int } else { 0 }))
            * (more.mamba_n_heads - cfg.mamba_n_heads),
        cfg.mamba_intermediate_size == 0 && cfg.mamba_conv_dim == 0 && cfg.mamba_n_heads == 0
            ==> granite_mamba_elems(cfg)
            == (if cfg.mamba_proj_bias { cfg.hidden_size as int } else { 0 }),
{
}

/// An expert has a row to be routed by, and each of its inner channels three rows. The shared
/// block has three rows for each inner channel; it is as wide as a dense block where there are no
/// experts. Two norms are left.
#[verifier::rlimit(40)]
pub proof fn law_granite_experts_cost(cfg: GraniteConfig, more: GraniteConfig)
    by (nonlinear_arith)
    ensures
        more == (GraniteConfig { num_local_experts: more.num_local_experts, ..cfg })
            && cfg.num_local_experts > 0 && more.num_local_experts > 0
            ==> granite_common_elems(more, 1) - granite_common_elems(cfg, 1)
            == (cfg.hidden_size + 3 * cfg.hidden_size * cfg.intermediate_size)
            * (more.num_local_experts - cfg.num_local_experts),
        more == (GraniteConfig { intermediate_size: more.intermediate_size, ..cfg })
            ==> granite_common_elems(more, 1) - granite_common_elems(cfg, 1)
            == (3 * cfg.hidden_size * cfg.num_local_experts)
            * (more.intermediate_size - cfg.intermediate_size),
        more == (GraniteConfig { dense_intermediate_size: more.dense_intermediate_size, ..cfg })
            && cfg.num_local_experts == 0
            ==> granite_common_elems(more, 1) - granite_common_elems(cfg, 1)
            == (3 * cfg.hidden_size)
            * (more.dense_intermediate_size - cfg.dense_intermediate_size),
        more == (GraniteConfig { dense_intermediate_size: more.dense_intermediate_size, ..cfg })
            && cfg.num_local_experts > 0
            ==> granite_common_elems(more, 1) - granite_common_elems(cfg, 1)
            == (0int) * (more.dense_intermediate_size - cfg.dense_intermediate_size),
        cfg.num_local_experts == 0 && cfg.dense_intermediate_size == 0
            ==> granite_common_elems(cfg, 1) == 2 * cfg.hidden_size,
        cfg.num_local_experts > 0 && cfg.intermediate_size
            == 0 && cfg.shared_intermediate_size is None
            ==> granite_common_elems(cfg, 1)
            == 2 * cfg.hidden_size + cfg.hidden_size * cfg.num_local_experts,
        cfg.num_local_experts > 0 && cfg.intermediate_size
            == 0 && cfg.shared_intermediate_size is Some
            ==> granite_common_elems(cfg, 1)
            == 2 * cfg.hidden_size + cfg.hidden_size * cfg.num_local_experts
            + 3 * cfg.hidden_size * (cfg.shared_intermediate_size->0),
{
}

/// Packing divides attention evenly, and of the rest the shared block alone.
pub proof fn law_granite_packs_projections(cfg: GraniteConfig, bare: GraniteConfig, pack: int,
    k: int)
    requires
        pack > 0,
        cfg.hidden_size == pack * k,
        bare == (GraniteConfig { dense_intermediate_size: 0, shared_intermediate_size: None,
            ..cfg }),
    ensures
        pack * granite_attention_elems(cfg, pack) == granite_attention_elems(cfg, 1),
        pack * (granite_common_elems(cfg, pack) - granite_common_elems(bare, pack))
            == granite_common_elems(cfg, 1) - granite_common_elems(bare, 1),
        granite_common_elems(bare, pack) == granite_common_elems(bare, 1),
{
    let hidden = cfg.hidden_size as int;
    let size_q = cfg.head_dim * cfg.num_attention_heads;
    let size_kv = cfg.head_dim * cfg.num_key_value_heads;
    law_attention_is_packed_whole(hidden, size_q, size_kv, pack, k);
    let shared = granite_shared_width(cfg);
    lemma_packed(hidden, shared * 2, pack, k);
    lemma_packed(hidden, shared, pack, k);
    lemma_packed(hidden, 0, pack, k);
    assert(hidden * shared * 2 == hidden * (shared * 2)) by (nonlinear_arith);
    let (x, y) = (k * (shared * 2), k * shared);
    assert(pack * (x + y) == pack * x + pack * y) by (nonlinear_arith);
    assert(hidden * 0 * 2 == 0 && 0 * hidden == 0 && k * 0 == 0) by (nonlinear_arith);
}

/// Layers differ in what they mix tokens with, and in nothing else.
pub proof fn law_granite_layers_share_the_rest(cfg: GraniteConfig, pack: int)
    ensures
        granite_layer_elems(cfg, GraniteLayerType::Attention, pack) - granite_attention_elems(
            cfg,
            pack,
        ) == granite_common_elems(cfg, pack),
        granite_layer_elems(cfg, GraniteLayerType::Mamba, pack) - granite_mamba_elems(cfg)
            == granite_common_elems(cfg, pack),
{
}

/// Queries come through a narrow projection of their rank and its norm, where they have one, and
/// else straight from the model.
#[verifier::rlimit(40)]
pub proof fn law_deepseek3_queries_cost(cfg: DeepSeekV3Config, more: DeepSeekV3Config)
    by (nonlinear_arith)
    ensures
        more == (DeepSeekV3Config { num_attention_heads: more.num_attention_heads, ..cfg })
            && cfg.q_lora_rank is None
            ==> deepseek3_q_elems(more) - deepseek3_q_elems(cfg)
            == (cfg.q_head_dim * cfg.hidden_size)
            * (more.num_attention_heads - cfg.num_attention_heads),
        more == (DeepSeekV3Config { num_attention_heads: more.num_attention_heads, ..cfg })
            && cfg.q_lora_rank is Some
            ==> deepseek3_q_elems(more) - deepseek3_q_elems(cfg)
            == (cfg.q_head_dim * (cfg.q_lora_rank->0))
            * (more.num_attention_heads - cfg.num_attention_heads),
        cfg.num_attention_heads == 0 && cfg.q_lora_rank is None ==> deepseek3_q_elems(cfg) == 0,
        cfg.num_attention_heads == 0 && cfg.q_lora_rank is Some
            ==> deepseek3_q_elems(cfg) == (cfg.q_lora_rank->0) * (cfg.hidden_size + 1),
{
}

/// Each channel that keys and values are narrowed to has a row in, a weight of the norm, and one
/// weight for each unrotated key channel and value channel of each head. A rotated key channel has
/// a row in, and each value channel of each head a row out. Biases go with the projections from
/// and to the model.
pub proof fn law_deepseek3_attention_costs(cfg: DeepSeekV3Config)
    ensures
        deepseek3_attention_elems(cfg, 1) - deepseek3_q_elems(cfg) == cfg.kv_lora_rank * (1
            + cfg.hidden_size + cfg.num_attention_heads * (cfg.q_head_dim - cfg.qk_rope_head_dim
            + cfg.v_head_dim)) + cfg.hidden_size * (cfg.qk_rope_head_dim + cfg.num_attention_heads
            * cfg.v_head_dim) + (if cfg.attention_bias {
            cfg.kv_lora_rank + cfg.qk_rope_head_dim + cfg.hidden_size
        } else {
            0
        }),
{
    let h = cfg.hidden_size as int;
    let r = cfg.kv_lora_rank as int;
    let (n, rope, v) = (
        cfg.num_attention_heads as int,
        cfg.qk_rope_head_dim as int,
        cfg.v_head_dim as int,
    );
    let out = cfg.q_head_dim - rope + v;
    assert(r + h * (r + rope) + r * n * out + n * v * h == r * (1 + h + n * out) + h * (rope + n
        * v)) by (nonlinear_arith);
}

/// A routed expert has a row to be routed by, and each of its inner channels three rows; each
/// inner channel of the shared experts has three rows.
pub proof fn law_deepseek3_experts_cost(cfg: DeepSeekV3Config, routed: int, shared: int)
    requires
        cfg.n_routed_experts is Some ==> routed == cfg.n_routed_experts->0,
        cfg.n_routed_experts is None ==> routed == 0,
        cfg.n_shared_experts is Some ==> shared == cfg.n_shared_experts->0,
        cfg.n_shared_experts is None ==> shared == 0,
    ensures
        deepseek3_experts_elems(cfg, 1) == cfg.hidden_size * (routed * (3
            * cfg.moe_intermediate_size + 1) + shared * (3 * cfg.intermediate_size)),
{
    let h = cfg.hidden_size as int;
    let w = cfg.moe_intermediate_size as int;
    let s = cfg.intermediate_size as int;
    let (a, b) = (h * w * routed, h * (s * shared));
    assert(a + a + a + (b + b + b) + routed * h == h * (routed * (3 * w + 1) + shared * (3 * s)))
        by (nonlinear_arith)
        requires
            a == h * w * routed,
            b == h * (s * shared),
    ;
}

/// A layer is attention, experts or a gated block, and two norms. The layers in front have no
/// experts; behind them every one in `moe_layer_freq` has.
pub proof fn law_deepseek3_layers_take_turns(cfg: DeepSeekV3Config, layer: int, pack: int)
    requires
        cfg.moe_layer_freq > 0,
        layer >= 0,
    ensures
        deepseek3_layer_elems(cfg, layer, pack) - deepseek3_attention_elems(cfg, pack) == 2
            * cfg.hidden_size + (if is_moe_layer(cfg, layer) {
            deepseek3_experts_elems(cfg, pack)
        } else {
            gated_mlp_elems(cfg.hidden_size as int, cfg.intermediate_size as int, pack)
        }),
        layer < cfg.first_k_dense_replace ==> !is_moe_layer(cfg, layer),
        cfg.n_routed_experts is None ==> !is_moe_layer(cfg, layer),
        is_moe_layer(cfg, layer) ==> is_moe_layer(cfg, layer + cfg.moe_layer_freq),
        is_moe_layer(cfg, layer) ==> forall|n: int|
            layer < n < layer + cfg.moe_layer_freq ==> !#[trigger] is_moe_layer(cfg, n),
        cfg.n_routed_experts is Some && cfg.first_k_dense_replace == 0 ==> is_moe_layer(cfg, 0),
{
    let f = cfg.moe_layer_freq as int;
    vstd::arithmetic::div_mod::lemma_mod_add_multiples_vanish(layer, f);
    vstd::arithmetic::div_mod::lemma_small_mod(0, f as nat);
    assert forall|n: int| is_moe_layer(cfg, layer) && layer < n < layer + f implies !#[trigger]
        is_moe_layer(cfg, n) by {
        vstd::arithmetic::div_mod::lemma_fundamental_div_mod(layer, f);
        vstd::arithmetic::div_mod::lemma_fundamental_div_mod(n, f);
        let (a, b) = (layer / f, n / f);
        assert(n % f != 0) by (nonlinear_arith)
            requires
                layer == f * a,
                n == f * b + n % f,
                layer < n < layer + f,
                f > 0,
        ;
    }
}

/// Packing divides the projections evenly, and neither queries, norms nor biases.
pub proof fn law_deepseek3_packs_projections(cfg: DeepSeekV3Config, pack: int, k: int, m: int)
    requires
        pack > 0,
        cfg.hidden_size == pack * k,
        cfg.kv_lora_rank == pack * m,
    ensures
        ({
            let rest = deepseek3_q_elems(cfg) + cfg.kv_lora_rank + (if cfg.attention_bias {
                cfg.kv_lora_rank + cfg.qk_rope_head_dim + cfg.hidden_size
            } else {
                0
            });
            pack * (deepseek3_attention_elems(cfg, pack) - rest) == deepseek3_attention_elems(
                cfg,
                1,
            ) - rest
        }),
        pack * (deepseek3_experts_elems(cfg, pack) - or_zero(cfg.n_routed_experts)
            * cfg.hidden_size) == deepseek3_experts_elems(cfg, 1) - or_zero(cfg.n_routed_experts)
            * cfg.hidden_size,
{
    let h = cfg.hidden_size as int;
    let rank = cfg.kv_lora_rank as int;
    let a_out = rank + cfg.qk_rope_head_dim;
    let heads = cfg.num_attention_heads as int;
    let b_out = cfg.q_head_dim - cfg.qk_rope_head_dim + cfg.v_head_dim;
    lemma_packed(h, a_out, pack, k);
    lemma_packed(rank, heads * b_out, pack, m);
    assert(rank * heads * b_out == rank * (heads * b_out)) by (nonlinear_arith);
    lemma_packed(h, heads * cfg.v_head_dim, pack, k);
    let (x, y, z) = (k * a_out, m * (heads * b_out), k * (heads * cfg.v_head_dim));
    assert(pack * (x + y + z) == pack * x + pack * y + pack * z) by (nonlinear_arith);
    let routed = or_zero(cfg.n_routed_experts);
    let shared = or_zero(cfg.n_shared_experts);
    let width = cfg.moe_intermediate_size as int;
    let all = cfg.intermediate_size * shared;
    lemma_packed(h, width, pack, k);
    lemma_packed(h, all, pack, k);
    let (u, v) = (k * width, k * all);
    assert(pack * (u * routed + u * routed + u * routed + (v + v + v)) == (pack * u) * routed + (
    pack * u) * routed + (pack * u) * routed + (pack * v + pack * v + pack * v))
        by (nonlinear_arith);
}

/// A head has as many rows, in and out, as it has channels; queries and keys have a norm each.
#[verifier::rlimit(40)]
pub proof fn law_lfm2_heads_cost(cfg: Lfm2Config, more: Lfm2Config)
    by (nonlinear_arith)
    ensures
        more == (Lfm2Config { num_attention_heads: more.num_attention_heads, ..cfg })
            ==> lfm2_attention_elems(more, 1) - lfm2_attention_elems(cfg, 1)
            == (2 * cfg.hidden_size * cfg.head_dim)
            * (more.num_attention_heads - cfg.num_attention_heads),
        more == (Lfm2Config { num_key_value_heads: more.num_key_value_heads, ..cfg })
            ==> lfm2_attention_elems(more, 1) - lfm2_attention_elems(cfg, 1)
            == (2 * cfg.hidden_size * cfg.head_dim)
            * (more.num_key_value_heads - cfg.num_key_value_heads),
        cfg.num_attention_heads == 0 && cfg.num_key_value_heads == 0
            ==> lfm2_attention_elems(cfg, 1) == 2 * cfg.head_dim,
{
}

/// A convolution has three projections in, one out, and its taps; biases go with all of them.
#[verifier::rlimit(40)]
pub proof fn law_lfm2_convolutions_cost(cfg: Lfm2Config, more: Lfm2Config)
    by (nonlinear_arith)
    ensures
        more == (Lfm2Config { conv_l_cache: more.conv_l_cache, ..cfg })
            ==> lfm2_conv_elems(more, 1) - lfm2_conv_elems(cfg, 1)
            == (cfg.hidden_size) * (more.conv_l_cache - cfg.conv_l_cache),
        cfg.conv_l_cache == 0
            ==> lfm2_conv_elems(cfg, 1)
            == 4 * cfg.hidden_size * cfg.hidden_size
            + (if cfg.conv_bias { 5 * cfg.hidden_size } else { 0 }),
{
}

/// Packing divides the projections evenly, and neither norms, taps nor biases.
pub proof fn law_lfm2_packs_projections(cfg: Lfm2Config, pack: int, k: int)
    requires
        pack > 0,
        cfg.hidden_size == pack * k,
    ensures
        pack * (lfm2_attention_elems(cfg, pack) - 2 * cfg.head_dim) == lfm2_attention_elems(
            cfg,
            1,
        ) - 2 * cfg.head_dim,
        ({
            let rest = cfg.hidden_size * cfg.conv_l_cache + (if cfg.conv_bias {
                5 * cfg.hidden_size
            } else {
                0
            });
            pack * (lfm2_conv_elems(cfg, pack) - rest) == lfm2_conv_elems(cfg, 1) - rest
        }),
{
    let h = cfg.hidden_size as int;
    let (q, kv) = (cfg.num_attention_heads * cfg.head_dim, cfg.num_key_value_heads * cfg.head_dim);
    lemma_packed(h, q + kv * 2 + q, pack, k);
    assert(h * q + h * kv * 2 + q * h == h * (q + kv * 2 + q)) by (nonlinear_arith);
    lemma_packed(h, 3 * h + h, pack, k);
    assert(h * 3 * h + h * h == h * (3 * h + h)) by (nonlinear_arith);
}

/// A dense block has three rows for each inner channel; an expert a row to be routed by, perhaps a
/// bias, and three rows for each inner channel.
#[verifier::rlimit(40)]
pub proof fn law_lfm2_blocks_cost(cfg: Lfm2Config)
    by (nonlinear_arith)
    ensures
        lfm2_dense_elems(cfg, 1) == gated_mlp_elems(
            cfg.hidden_size as int,
            cfg.intermediate_size as int,
            1,
        ),
        lfm2_moe_elems(cfg, 1) == cfg.num_experts * (cfg.hidden_size + gated_mlp_elems(
            cfg.hidden_size as int,
            cfg.moe_intermediate_size as int,
            1,
        ) + (if cfg.use_expert_bias {
            1int
        } else {
            0
        })),
{
}

/// Packing divides the blocks evenly, but not what experts are routed by.
pub proof fn law_lfm2_packs_blocks(cfg: Lfm2Config, pack: int, k: int)
    requires
        pack > 0,
        cfg.hidden_size == pack * k,
    ensures
        pack * lfm2_dense_elems(cfg, pack) == lfm2_dense_elems(cfg, 1),
        ({
            let rest = cfg.hidden_size * cfg.num_experts + (if cfg.use_expert_bias {
                cfg.num_experts as int
            } else {
                0
            });
            pack * (lfm2_moe_elems(cfg, pack) - rest) == lfm2_moe_elems(cfg, 1) - rest
        }),
{
    let h = cfg.hidden_size as int;
    let (w, x, n) = (
        cfg.intermediate_size as int,
        cfg.moe_intermediate_size as int,
        cfg.num_experts as int,
    );
    lemma_packed(h, 3 * w, pack, k);
    assert(3 * h * w == h * (3 * w)) by (nonlinear_arith);
    lemma_packed(h, 3 * n * x, pack, k);
    assert(3 * n * h * x == h * (3 * n * x)) by (nonlinear_arith);
}

/// A layer is its operator, its block, and a norm in front of each.
pub proof fn law_lfm2_layers_have_two_norms(cfg: Lfm2Config, kind: Lfm2Layer, pack: int)
    ensures
        lfm2_layer_elems(cfg, kind, pack) == 2 * cfg.hidden_size + (if kind.operator
            == Lfm2LayerType::Attention {
            lfm2_attention_elems(cfg, pack)
        } else {
            lfm2_conv_elems(cfg, pack)
        }) + (if kind.feed_forward == FeedForwardType::Moe {
            lfm2_moe_elems(cfg, pack)
        } else {
            lfm2_dense_elems(cfg, pack)
        }),
{
}

/// A query head has its queries and its gate as rows in, and rows out; a head of keys and values
/// two. Queries and keys have a norm each.
#[verifier::rlimit(40)]
pub proof fn law_qwen3_next_heads_cost(cfg: Qwen3NextConfig, more: Qwen3NextConfig)
    by (nonlinear_arith)
    ensures
        more == (Qwen3NextConfig { num_attention_heads: more.num_attention_heads, ..cfg })
            ==> qwen3_next_full_elems(more, 1) - qwen3_next_full_elems(cfg, 1)
            == (3 * cfg.hidden_size * cfg.head_dim)
            * (more.num_attention_heads - cfg.num_attention_heads),
        more == (Qwen3NextConfig { num_key_value_heads: more.num_key_value_heads, ..cfg })
            ==> qwen3_next_full_elems(more, 1) - qwen3_next_full_elems(cfg, 1)
            == (2 * cfg.hidden_size * cfg.head_dim)
            * (more.num_key_value_heads - cfg.num_key_value_heads),
        cfg.num_attention_heads == 0 && cfg.num_key_value_heads == 0
            ==> qwen3_next_full_elems(cfg, 1) == 2 * cfg.head_dim,
{
}

/// A key channel has two rows; a value channel two in and one out; a convolved channel its taps; a
/// value head two rows and two numbers. The norm has a weight for each channel of a head.
#[verifier::rlimit(40)]
pub proof fn law_qwen3_next_linear_attention_costs(cfg: Qwen3NextConfig, more: Qwen3NextConfig)
    by (nonlinear_arith)
    ensures
        more == (Qwen3NextConfig { linear_key_dim: more.linear_key_dim, ..cfg })
            ==> qwen3_next_linear_elems(more, 1) - qwen3_next_linear_elems(cfg, 1)
            == (2 * cfg.hidden_size) * (more.linear_key_dim - cfg.linear_key_dim),
        more == (Qwen3NextConfig { linear_value_dim: more.linear_value_dim, ..cfg })
            ==> qwen3_next_linear_elems(more, 1) - qwen3_next_linear_elems(cfg, 1)
            == (3 * cfg.hidden_size) * (more.linear_value_dim - cfg.linear_value_dim),
        more == (Qwen3NextConfig { linear_conv_dim: more.linear_conv_dim, ..cfg })
            ==> qwen3_next_linear_elems(more, 1) - qwen3_next_linear_elems(cfg, 1)
            == (cfg.linear_conv_kernel_dim) * (more.linear_conv_dim - cfg.linear_conv_dim),
        more == (Qwen3NextConfig { linear_num_value_heads: more.linear_num_value_heads, ..cfg })
            ==> qwen3_next_linear_elems(more, 1) - qwen3_next_linear_elems(cfg, 1)
            == (2 * cfg.hidden_size + 2)
            * (more.linear_num_value_heads - cfg.linear_num_value_heads),
        more == (Qwen3NextConfig { linear_value_head_dim: more.linear_value_head_dim, ..cfg })
            ==> qwen3_next_linear_elems(more, 1) - qwen3_next_linear_elems(cfg, 1)
            == (1) * (more.linear_value_head_dim - cfg.linear_value_head_dim),
        cfg.linear_key_dim == 0 && cfg.linear_value_dim == 0 && cfg.linear_conv_dim
            == 0 && cfg.linear_num_value_heads == 0
            ==> qwen3_next_linear_elems(cfg, 1) == cfg.linear_value_head_dim,
{
}

/// A layer is attention of its kind, two norms, and experts: an expert has a row to be routed by,
/// and three rows for each inner channel; so has the shared one.
#[verifier::rlimit(40)]
pub proof fn law_qwen3_next_layers_cost(cfg: Qwen3NextConfig, kind: LayerType)
    by (nonlinear_arith)
    ensures
        qwen3_next_layer_elems(cfg, kind, 1) - (if kind == LayerType::FullAttention {
            qwen3_next_full_elems(cfg, 1)
        } else {
            qwen3_next_linear_elems(cfg, 1)
        }) == cfg.hidden_size * (2 + cfg.num_experts * (1 + 3 * cfg.moe_intermediate_size) + 3
            * cfg.shared_expert_intermediate_size),
{
}

/// Packing divides the projections evenly, but neither norms, taps nor what experts are routed by.
pub proof fn law_qwen3_next_packs_projections(
    cfg: Qwen3NextConfig,
    kind: LayerType,
    pack: int,
    k: int,
)
    requires
        pack > 0,
        cfg.hidden_size == pack * k,
    ensures
        ({
            let rest = cfg.hidden_size * (2 + cfg.num_experts) + (if kind
                == LayerType::FullAttention {
                2 * cfg.head_dim
            } else {
                cfg.linear_conv_dim * cfg.linear_conv_kernel_dim + 2 * cfg.linear_num_value_heads
                    + cfg.linear_value_head_dim
            });
            pack * (qwen3_next_layer_elems(cfg, kind, pack) - rest) == qwen3_next_layer_elems(
                cfg,
                kind,
                1,
            ) - rest
        }),
{
    let h = cfg.hidden_size as int;
    let (w, s, n) = (
        cfg.moe_intermediate_size as int,
        cfg.shared_expert_intermediate_size as int,
        cfg.num_experts as int,
    );
    lemma_packed(h, 3 * s, pack, k);
    assert(3 * h * s == h * (3 * s)) by (nonlinear_arith);
    lemma_packed(h, n * 3 * w, pack, k);
    assert(n * 3 * h * w == h * (n * 3 * w)) by (nonlinear_arith);
    assert(h * (2 + n) == h + h + h * n) by (nonlinear_arith);
    let (e, f) = (k * (3 * s), k * (n * 3 * w));
    if kind == LayerType::FullAttention {
        let q = cfg.head_dim * cfg.num_attention_heads;
        let kv = cfg.head_dim * cfg.num_key_value_heads;
        lemma_packed(h, q * 2, pack, k);
        assert(h * q * 2 == h * (q * 2)) by (nonlinear_arith);
        lemma_packed(h, kv, pack, k);
        lemma_packed(h, q, pack, k);
        let (a, b, c) = (k * (q * 2), k * kv, k * q);
        assert(pack * (a + b + b + c + e + f) == pack * a + pack * b + pack * b + pack * c + pack
            * e + pack * f) by (nonlinear_arith);
    } else {
        let x = cfg.linear_key_dim * 2 + cfg.linear_value_dim * 2;
        let y = cfg.linear_num_value_heads * 2;
        let z = cfg.linear_value_dim as int;
        lemma_packed(h, x, pack, k);
        lemma_packed(h, y, pack, k);
        lemma_packed(h, z, pack, k);
        let (a, b, c) = (k * x, k * y, k * z);
        assert(pack * (a + b + c + e + f) == pack * a + pack * b + pack * c + pack * e + pack * f)
            by (nonlinear_arith);
    }
}

} // verus!
