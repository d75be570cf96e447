//! Voxtral.

use vstd::prelude::*;

use crate::loaders::{
    AutoDeviceMapParams, KvCacheLayout, LoaderError, Modalities, ModelConfigMetadata, PackFactors, PackLookup,
    SupportedModality,
};
use crate::loaders::patterns::{
    ANY_LAYER, LM_HEAD, WEIGHT_OR_BIAS, family, literals, push_family, push_pattern, texts,
};
use crate::loaders::sizes::{
    attention, scores, scores_elems, scores_fits, smaller, smaller_elems, uniform,
    word,
};
use crate::tensor::{DType};

verus! {

/// What the sizes of the audio encoder depend on.
#[derive(Debug, Clone, Copy, PartialEq, Eq, Structural)]
pub struct VoxtralEncoderConfig {
    pub dim: usize,
    pub hidden_dim: usize,
    pub n_layers: usize,
    pub n_heads: usize,
    pub num_mel_bins: usize,
    pub downsample_factor: usize,
}

/// What the sizes depend on.
#[derive(Debug, Clone, Copy, PartialEq, Eq, Structural)]
pub struct VoxtralConfig {
    pub dim: usize,
    pub hidden_dim: usize,
    pub n_layers: usize,
    pub n_heads: usize,
    pub n_kv_heads: usize,
    pub head_dim: usize,
    pub vocab_size: usize,
    pub model_max_length: usize,
    pub tied_embeddings: bool,
    pub sliding_window: Option<usize>,
    pub encoder: VoxtralEncoderConfig,
}

/// Scores of a prompt chunk behind the tokens of half a minute of audio.
pub open spec fn voxtral_mapped_act_elems(
    cfg: VoxtralConfig,
    seq: int,
    batch: int,
    chunk: int,
) -> int {
    let heads = cfg.n_heads as int;
    let total = 375 + smaller_elems(seq, chunk);
    scores_elems(batch, heads, total, total)
}

/// Every step of `voxtral_mapped_act` fits a machine word.
pub open spec fn voxtral_mapped_act_fits(
    cfg: VoxtralConfig,
    seq: int,
    batch: int,
    chunk: int,
) -> bool {
    let heads = cfg.n_heads as int;
    let total = 375 + smaller_elems(seq, chunk);
    &&& word(375 + smaller_elems(seq, chunk))
    &&& scores_fits(batch, heads, total, total)
}

/// Scores of a prompt chunk behind the tokens of half a minute of audio.
pub fn voxtral_mapped_act(cfg: &VoxtralConfig, seq: usize, batch: usize, chunk: usize) -> (r: usize)
    requires
        voxtral_mapped_act_fits(*cfg, seq as int, batch as int, chunk as int),
    ensures
        r == voxtral_mapped_act_elems(*cfg, seq as int, batch as int, chunk as int),
{
    let heads: usize = cfg.n_heads;
    let total: usize = 375 + smaller(seq, chunk);
    scores(batch, heads, total, total)
}

/// Scores of the audio encoder over the frames of half a minute.
pub open spec fn voxtral_encoder_act_elems(cfg: VoxtralConfig, batch: int) -> int {
    let heads = cfg.encoder.n_heads as int;
    scores_elems(batch, heads, 3000, 3000)
}

/// Every step of `voxtral_encoder_act` fits a machine word.
pub open spec fn voxtral_encoder_act_fits(cfg: VoxtralConfig, batch: int) -> bool {
    let heads = cfg.encoder.n_heads as int;
    &&& scores_fits(batch, heads, 3000, 3000)
}

/// Scores of the audio encoder over the frames of half a minute.
pub fn voxtral_encoder_act(cfg: &VoxtralConfig, batch: usize) -> (r: usize)
    requires
        voxtral_encoder_act_fits(*cfg, batch as int),
    ensures
        r == voxtral_encoder_act_elems(*cfg, batch as int),
{
    let heads: usize = cfg.encoder.n_heads;
    scores(batch, heads, 3000, 3000)
}

/// The audio encoder and the adapter to the text model.
pub open spec fn voxtral_encoder_elems(cfg: VoxtralConfig) -> int {
    let dim = cfg.encoder.dim as int;
    let mels = cfg.encoder.num_mel_bins as int;
    let hidden = cfg.encoder.hidden_dim as int;
    let layers = cfg.encoder.n_layers as int;
    let factor = cfg.encoder.downsample_factor as int;
    let out = cfg.dim as int;
    let conv1 = dim * mels * 3 + dim;
    let conv2 = dim * dim * 3 + dim;
    let attn = 4 * dim * dim;
    let mlp = 3 * dim * hidden;
    let norms = 2 * dim;
    let enc_layers = layers * (attn + mlp + norms);
    let adapter_in = dim * factor;
    let adapter = adapter_in * out + out + out * out + out;
    conv1 + conv2 + enc_layers + dim + adapter
}

/// Every step of `voxtral_encoder` fits a machine word.
pub open spec fn voxtral_encoder_fits(cfg: VoxtralConfig) -> bool {
    let dim = cfg.encoder.dim as int;
    let mels = cfg.encoder.num_mel_bins as int;
    let hidden = cfg.encoder.hidden_dim as int;
    let layers = cfg.encoder.n_layers as int;
    let factor = cfg.encoder.downsample_factor as int;
    let out = cfg.dim as int;
    let conv1 = dim * mels * 3 + dim;
    let conv2 = dim * dim * 3 + dim;
    let attn = 4 * dim * dim;
    let mlp = 3 * dim * hidden;
    let norms = 2 * dim;
    let enc_layers = layers * (attn + mlp + norms);
    let adapter_in = dim * factor;
    let adapter = adapter_in * out + out + out * out + out;
    &&& word(dim * mels)
    &&& word(dim * mels * 3)
    &&& word(dim * mels * 3 + dim)
    &&& word(dim * dim)
    &&& word(dim * dim * 3)
    &&& word(dim * dim * 3 + dim)
    &&& word(4 * dim)
    &&& word(4 * dim * dim)
    &&& word(3 * dim)
    &&& word(3 * dim * hidden)
    &&& word(2 * dim)
    &&& word(attn + mlp + norms)
    &&& word(layers * (attn + mlp + norms))
    &&& word(dim * factor)
    &&& word(adapter_in * out)
    &&& word(out * out)
    &&& word(adapter_in * out + out + out * out + out)
    &&& word(conv1 + conv2 + enc_layers + dim + adapter)
}

/// The audio encoder and the adapter to the text model.
pub fn voxtral_encoder(cfg: &VoxtralConfig) -> (r: usize)
    requires
        voxtral_encoder_fits(*cfg),
    ensures
        r == voxtral_encoder_elems(*cfg),
{
    let dim: usize = cfg.encoder.dim;
    let mels: usize = cfg.encoder.num_mel_bins;
    let hidden: usize = cfg.encoder.hidden_dim;
    let layers: usize = cfg.encoder.n_layers;
    let factor: usize = cfg.encoder.downsample_factor;
    let out: usize = cfg.dim;
    let conv1: usize = dim * mels * 3 + dim;
    let conv2: usize = dim * dim * 3 + dim;
    let attn: usize = 4 * dim * dim;
    let mlp: usize = 3 * dim * hidden;
    let norms: usize = 2 * dim;
    let enc_layers: usize = layers * (attn + mlp + norms);
    let adapter_in: usize = dim * factor;
    let adapter: usize = adapter_in * out + out + out * out + out;
    conv1 + conv2 + enc_layers + dim + adapter
}

/// What is not mapped to layers.
pub open spec fn voxtral_non_mapped_elems(cfg: VoxtralConfig, packs: PackFactors) -> int {
    let vocab = cfg.vocab_size as int;
    let dim = cfg.dim as int;
    let embed_pack = packs.embed_tokens as int;
    let head_pack = packs.lm_head as int;
    let tied = cfg.tied_embeddings;
    let encoder = voxtral_encoder_elems(cfg);
    let embeddings = vocab * dim / embed_pack;
    let output = if tied { 0 } else { vocab * dim / head_pack };
    encoder + embeddings + output
}

/// Every step of `voxtral_non_mapped` fits a machine word.
pub open spec fn voxtral_non_mapped_fits(cfg: VoxtralConfig, packs: PackFactors) -> bool {
    let vocab = cfg.vocab_size as int;
    let dim = cfg.dim as int;
    let embed_pack = packs.embed_tokens as int;
    let head_pack = packs.lm_head as int;
    let tied = cfg.tied_embeddings;
    let encoder = voxtral_encoder_elems(cfg);
    let embeddings = vocab * dim / embed_pack;
    let output = if tied { 0 } else { vocab * dim / head_pack };
    &&& voxtral_encoder_fits(cfg)
    &&& word(vocab * dim)
    &&& embed_pack > 0
    &&& !tied ==> word(vocab * dim)
    &&& !tied ==> head_pack > 0
    &&& word(encoder + embeddings + output)
}

/// What is not mapped to layers.
pub fn voxtral_non_mapped(cfg: &VoxtralConfig, packs: PackFactors) -> (r: usize)
    requires
        voxtral_non_mapped_fits(*cfg, packs),
    ensures
        r == voxtral_non_mapped_elems(*cfg, packs),
{
    let vocab: usize = cfg.vocab_size;
    let dim: usize = cfg.dim;
    let embed_pack: usize = packs.embed_tokens;
    let head_pack: usize = packs.lm_head;
    let tied: bool = cfg.tied_embeddings;
    let encoder: usize = voxtral_encoder(cfg);
    let embeddings: usize = vocab * dim / embed_pack;
    let output: usize = if tied { 0 } else { vocab * dim / head_pack };
    encoder + embeddings + output
}

/// A decoder layer.
pub open spec fn voxtral_layer_elems(cfg: VoxtralConfig, pack: int) -> int {
    let dim = cfg.dim as int;
    let heads = cfg.n_heads as int;
    let kv_heads = cfg.n_kv_heads as int;
    let head = cfg.head_dim as int;
    let hidden = cfg.hidden_dim as int;
    let attn = (dim * heads * head + dim * kv_heads * head + dim * kv_heads * head + heads * head * dim) / pack;
    let mlp = (dim * hidden + hidden * dim + dim * hidden) / pack;
    let norms = 2 * dim;
    attn + mlp + norms
}

/// Every step of `voxtral_layer` fits a machine word.
pub open spec fn voxtral_layer_fits(cfg: VoxtralConfig, pack: int) -> bool {
    let dim = cfg.dim as int;
    let heads = cfg.n_heads as int;
    let kv_heads = cfg.n_kv_heads as int;
    let head = cfg.head_dim as int;
    let hidden = cfg.hidden_dim as int;
    let attn = (dim * heads * head + dim * kv_heads * head + dim * kv_heads * head + heads * head * dim) / pack;
    let mlp = (dim * hidden + hidden * dim + dim * hidden) / pack;
    let norms = 2 * dim;
    &&& word(dim * heads)
    &&& word(dim * heads * head)
    &&& word(dim * kv_heads)
    &&& word(dim * kv_heads * head)
    &&& word(heads * head)
    &&& word(heads * head * dim)
    &&& word(
        dim * heads * head + dim * kv_heads * head + dim * kv_heads * head + heads * head * dim,
    )
    &&& pack > 0
    &&& word(dim * hidden)
    &&& word(hidden * dim)
    &&& word(dim * hidden + hidden * dim + dim * hidden)
    &&& word(2 * dim)
    &&& word(attn + mlp + norms)
}

/// A decoder layer.
pub fn voxtral_layer(cfg: &VoxtralConfig, pack: usize) -> (r: usize)
    requires
        voxtral_layer_fits(*cfg, pack as int),
    ensures
        r == voxtral_layer_elems(*cfg, pack as int),
{
    let dim: usize = cfg.dim;
    let heads: usize = cfg.n_heads;
    let kv_heads: usize = cfg.n_kv_heads;
    let head: usize = cfg.head_dim;
    let hidden: usize = cfg.hidden_dim;
    let attn: usize = (dim * heads * head + dim * kv_heads * head + dim * kv_heads * head + heads * head * dim) / pack;
    let mlp: usize = (dim * hidden + hidden * dim + dim * hidden) / pack;
    let norms: usize = 2 * dim;
    attn + mlp + norms
}

/// Marks the media of Voxtral prompts.
pub struct VoxtralPrefixer;

impl VoxtralPrefixer {
    /// The prompt with its image marks: the chat template sets them.
    pub fn prefix_image(&self, image_indexes: &Vec<usize>, prompt: &str) -> (r: String)
        ensures
            r@ == prompt@,
    {
        prompt.to_owned()
    }
}

/// Loader of Voxtral models.
pub struct VoxtralLoader;

impl VoxtralLoader {
    /// Elements of the largest activation of a layer.
    pub fn mapped_max_act_size_elems(
        &self,
        cfg: &VoxtralConfig,
        params: &AutoDeviceMapParams,
        attention_chunk: usize,
    ) -> (r: Result<usize, LoaderError>)
        requires
            match *params {
                AutoDeviceMapParams::Multimodal {
                    max_seq_len,
                    max_batch_size,
                    ..
                } => voxtral_mapped_act_fits(
                    *cfg,
                    max_seq_len as int,
                    max_batch_size as int,
                    attention_chunk as int,
                ),
                _ => true,
            },
        ensures
            match *params {
                AutoDeviceMapParams::Multimodal {
                    max_seq_len,
                    max_batch_size,
                    ..
                } => r matches Ok(n) && n == voxtral_mapped_act_elems(
                    *cfg,
                    max_seq_len as int,
                    max_batch_size as int,
                    attention_chunk as int,
                ),
                _ => r == Err::<usize, LoaderError>(LoaderError::ExpectedMultimodal),
            },
    {
        match params {
            AutoDeviceMapParams::Multimodal { max_seq_len, max_batch_size, .. } => Ok(
                voxtral_mapped_act(cfg, *max_seq_len, *max_batch_size, attention_chunk),
            ),
            _ => Err(LoaderError::ExpectedMultimodal),
        }
    }

    /// Elements of the largest activation outside the layers.
    pub fn non_mapped_max_act_size_elems(
        &self,
        cfg: &VoxtralConfig,
        params: &AutoDeviceMapParams,
    ) -> (r: Result<usize, LoaderError>)
        requires
            match *params {
                AutoDeviceMapParams::Multimodal { max_batch_size, .. } => voxtral_encoder_act_fits(
                    *cfg,
                    max_batch_size as int,
                ),
                _ => true,
            },
        ensures
            match *params {
                AutoDeviceMapParams::Multimodal {
                    max_batch_size,
                    ..
                } => r matches Ok(n) && n == voxtral_encoder_act_elems(
                    *cfg,
                    max_batch_size as int,
                ),
                _ => r == Err::<usize, LoaderError>(LoaderError::ExpectedMultimodal),
            },
    {
        match params {
            AutoDeviceMapParams::Multimodal { max_batch_size, .. } => Ok(
                voxtral_encoder_act(cfg, *max_batch_size),
            ),
            _ => Err(LoaderError::ExpectedMultimodal),
        }
    }

    /// The tensors by whose quantization the pack factors are known.
    pub fn pack_lookup(&self, cfg: &VoxtralConfig) -> (r: PackLookup)
        ensures
            r.asks(
                seq!["mm_streams_embeddings.embedding_module.tok_embeddings.weight"@],
                "output.weight"@,
                cfg.tied_embeddings,
            ),
    {
        let embed_tokens = vec!["mm_streams_embeddings.embedding_module.tok_embeddings.weight"];
        assert(literals(embed_tokens@) =~= seq!["mm_streams_embeddings.embedding_module.tok_embeddings.weight"@]);
        PackLookup { embed_tokens, lm_head: "output.weight", tied: cfg.tied_embeddings }
    }

    /// Bytes of what is not mapped to layers.
    pub fn non_mapped_size_in_bytes(
        &self,
        cfg: &VoxtralConfig,
        dtype: DType,
        packs: PackFactors,
    ) -> (r: usize)
        requires
            voxtral_non_mapped_fits(*cfg, packs),
            word(voxtral_non_mapped_elems(*cfg, packs) * dtype.bytes()),
        ensures
            r == voxtral_non_mapped_elems(*cfg, packs) * dtype.bytes(),
    {
        let elems: usize = voxtral_non_mapped(cfg, packs);
        elems * dtype.size_in_bytes()
    }

    /// Bytes of each layer.
    pub fn layer_sizes_in_bytes(
        &self,
        cfg: &VoxtralConfig,
        dtype: DType,
        weight_pack_factor: usize,
    ) -> (r: Vec<usize>)
        requires
            voxtral_layer_fits(*cfg, weight_pack_factor as int),
            word(voxtral_layer_elems(*cfg, weight_pack_factor as int) * dtype.bytes()),
        ensures
            r@.len() == cfg.n_layers,
            forall|i: int| 0 <= i < r@.len()
                ==> #[trigger] r@[i] == voxtral_layer_elems(
                    *cfg,
                    weight_pack_factor as int,
                ) * dtype.bytes(),
    {
        let elems: usize = voxtral_layer(cfg, weight_pack_factor);
        uniform(elems * dtype.size_in_bytes(), cfg.n_layers)
    }

    /// Number of layers.
    pub fn num_layers(&self, cfg: &VoxtralConfig) -> (r: usize)
        ensures
            r == cfg.n_layers,
    {
        cfg.n_layers
    }

    /// What the paged cache needs to know of the model.
    pub fn model_config(&self, cfg: &VoxtralConfig) -> (r: ModelConfigMetadata)
        ensures
            r == (ModelConfigMetadata {
                max_seq_len: cfg.model_max_length,
                num_layers: cfg.n_layers,
                hidden_size: cfg.dim,
                num_kv_heads: cfg.n_kv_heads,
                num_attn_heads: cfg.n_heads,
                sliding_window: cfg.sliding_window,
                k_head_dim: cfg.head_dim,
                v_head_dim: cfg.head_dim,
                kv_cache_layout: KvCacheLayout::Standard,
            }),
    {
        ModelConfigMetadata {
                max_seq_len: cfg.model_max_length,
                num_layers: cfg.n_layers,
                hidden_size: cfg.dim,
                num_kv_heads: cfg.n_kv_heads,
                num_attn_heads: cfg.n_heads,
                sliding_window: cfg.sliding_window,
                k_head_dim: cfg.head_dim,
                v_head_dim: cfg.head_dim,
                kv_cache_layout: KvCacheLayout::Standard,
        }
    }

    /// What the model reads and writes.
    pub fn modalities(&self) -> (r: Modalities)
        ensures
            r.reads(seq![SupportedModality::Text, SupportedModality::Audio]),
    {
        Modalities {
            input: vec![SupportedModality::Text, SupportedModality::Audio],
            output: vec![SupportedModality::Text],
        }
    }

    /// Whether rotary embeddings split a head in halves by default.
    pub fn is_gptx(&self) -> (r: bool)
        ensures
            r == true,
    {
        true
    }

    /// Whether the model runs with paged attention.
    pub fn supports_paged_attention(&self) -> (r: bool)
        ensures
            r == true,
    {
        true
    }

    /// Whether encoder outputs can be cached.
    pub fn supports_encoder_cache(&self) -> (r: bool)
        ensures
            r == false,
    {
        false
    }

    /// Whether prompt prefixes can be cached.
    pub fn supports_prefix_cacher(&self) -> (r: bool)
        ensures
            r == true,
    {
        true
    }

    /// Tensors that keep a higher precision when quantized.
    pub open spec fn promoted_isq_predicates_texts(&self) -> Seq<Seq<char>> {
        seq![
            r"^mm_streams_embeddings\.embedding_module\.tok_embeddings\.weight$"@,
        ] + seq![r"^output\.(weight|bias)$"@]
    }

    /// Tensors that keep a higher precision when quantized.
    pub fn promoted_isq_predicates(&self) -> (r: Vec<String>)
        ensures
            texts(r@) == self.promoted_isq_predicates_texts(),
    {
        let mut out: Vec<String> = Vec::new();
        push_pattern(
            &mut out,
            r"^mm_streams_embeddings\.embedding_module\.tok_embeddings\.weight$",
        );
        push_pattern(&mut out, r"^output\.(weight|bias)$");
        assert(texts(out@) =~= self.promoted_isq_predicates_texts());
        out
    }

    /// Tensors that are quantized.
    pub open spec fn isq_layer_regexes_texts(&self) -> Seq<Seq<char>> {
        seq![LM_HEAD@] + seq![r"^output\.(weight|bias)$"@] + family(
                ANY_LAYER@,
                seq![
                    r"attention\.wq"@,
                    r"attention\.wk"@,
                    r"attention\.wv"@,
                    r"attention\.wo"@,
                    r"feed_forward\.w1"@,
                    r"feed_forward\.w3"@,
                    r"feed_forward\.w2"@,
                ],
                WEIGHT_OR_BIAS@,
            )
    }

    /// Tensors that are quantized.
    pub fn isq_layer_regexes(&self) -> (r: Vec<String>)
        ensures
            texts(r@) == self.isq_layer_regexes_texts(),
    {
        let mut out: Vec<String> = Vec::new();
        push_pattern(&mut out, LM_HEAD);
        push_pattern(&mut out, r"^output\.(weight|bias)$");
        let list0 = vec![
            r"attention\.wq",
            r"attention\.wk",
            r"attention\.wv",
            r"attention\.wo",
            r"feed_forward\.w1",
            r"feed_forward\.w3",
            r"feed_forward\.w2",
        ];
        assert(
            literals(list0@) =~= seq![
                r"attention\.wq"@,
                r"attention\.wk"@,
                r"attention\.wv"@,
                r"attention\.wo"@,
                r"feed_forward\.w1"@,
                r"feed_forward\.w3"@,
                r"feed_forward\.w2"@,
            ]
        );
        push_family(&mut out, ANY_LAYER, &list0, WEIGHT_OR_BIAS);
        assert(texts(out@) =~= self.isq_layer_regexes_texts());
        out
    }

    /// Tensors that are quantized while they are loaded.
    pub open spec fn immediate_isq_predicates_texts(&self) -> Seq<Seq<char>> {
        seq![r"tok_embeddings\.(weight|bias)$"@] + seq![r"^output\.(weight|bias)$"@] + family(
                ANY_LAYER@,
                seq![
                    r"attention\.wq"@,
                    r"attention\.wk"@,
                    r"attention\.wv"@,
                    r"attention\.wo"@,
                    r"feed_forward\.w1"@,
                    r"feed_forward\.w3"@,
                    r"feed_forward\.w2"@,
                ],
                WEIGHT_OR_BIAS@,
            )
    }

    /// Tensors that are quantized while they are loaded.
    pub fn immediate_isq_predicates(&self) -> (r: Vec<String>)
        ensures
            texts(r@) == self.immediate_isq_predicates_texts(),
    {
        let mut out: Vec<String> = Vec::new();
        push_pattern(&mut out, r"tok_embeddings\.(weight|bias)$");
        push_pattern(&mut out, r"^output\.(weight|bias)$");
        let list0 = vec![
            r"attention\.wq",
            r"attention\.wk",
            r"attention\.wv",
            r"attention\.wo",
            r"feed_forward\.w1",
            r"feed_forward\.w3",
            r"feed_forward\.w2",
        ];
        assert(
            literals(list0@) =~= seq![
                r"attention\.wq"@,
                r"attention\.wk"@,
                r"attention\.wv"@,
                r"attention\.wo"@,
                r"feed_forward\.w1"@,
                r"feed_forward\.w3"@,
                r"feed_forward\.w2"@,
            ]
        );
        push_family(&mut out, ANY_LAYER, &list0, WEIGHT_OR_BIAS);
        assert(texts(out@) =~= self.immediate_isq_predicates_texts());
        out
    }

    /// The chat template of a checkpoint that has none: turns of user and assistant
    /// between instruction marks.
    pub fn default_chat_template(&self) -> (r: Option<String>)
        ensures
            r matches Some(s)
                && s@
                    == "{{ bos_token }}{% for message in messages %}{% if (message['role'] == 'user') != (loop.index0 % 2 == 0) %}{{ raise_exception('Conversation roles must alternate user/assistant/user/assistant/...') }}{% endif %}{% if message['role'] == 'user' %}{{ '[INST] ' + message['content'] + ' [/INST]' }}{% elif message['role'] == 'assistant' %}{{ message['content'] + eos_token + ' ' }}{% else %}{{ raise_exception('Only user and assistant roles are supported!') }}{% endif %}{% endfor %}"@,
    {
        Some(
            "{{ bos_token }}{% for message in messages %}{% if (message['role'] == 'user') != (loop.index0 % 2 == 0) %}{{ raise_exception('Conversation roles must alternate user/assistant/user/assistant/...') }}{% endif %}{% if message['role'] == 'user' %}{{ '[INST] ' + message['content'] + ' [/INST]' }}{% elif message['role'] == 'assistant' %}{{ message['content'] + eos_token + ' ' }}{% else %}{{ raise_exception('Only user and assistant roles are supported!') }}{% endif %}{% endfor %}".to_owned(),
        )
    }

    /// The texts of the first and the last token of a checkpoint that names none.
    pub fn default_bos_eos(&self) -> (r: Option<(String, String)>)
        ensures
            r matches Some((bos, eos)) && bos@ == "<s>"@ && eos@ == "</s>"@,
    {
        Some(("<s>".to_owned(), "</s>".to_owned()))
    }
}

} // verus!
