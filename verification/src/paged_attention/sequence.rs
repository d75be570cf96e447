//! Sequences as the scheduler sees them.

use vstd::prelude::*;

use crate::paged_attention::block_hash::{MultiModalFeature, MultimodalKind};
use crate::paged_attention::prompt_plan::PromptInfo;

verus! {

/// Why a sequence is done.
#[derive(Debug, Clone, Copy, PartialEq, Eq, Structural)]
pub enum StopReason {
    Eos,
    Length,
    Canceled,
}

/// Where a sequence is in its life.
#[derive(Debug, Clone, Copy, PartialEq, Eq, Structural)]
pub enum SequenceState {
    Waiting,
    RunningPrompt,
    RunningCompletion,
    Done(StopReason),
    Error,
    /// The sequence can never be served.
    FinishedIgnored,
}

impl SequenceState {
    /// Whether the sequence needs nothing more.
    pub open spec fn finished(self) -> bool {
        match self {
            SequenceState::Done(_) => true,
            SequenceState::Error => true,
            SequenceState::FinishedIgnored => true,
            _ => false,
        }
    }

    /// Whether the sequence needs nothing more.
    pub fn is_finished(&self) -> (r: bool)
        ensures
            r == self.finished(),
    {
        match self {
            SequenceState::Done(_) => true,
            SequenceState::Error => true,
            SequenceState::FinishedIgnored => true,
            _ => false,
        }
    }
}

/// What marks text alone.
pub const TEXT_MODALITY: u8 = 0;

/// What marks images.
pub const IMAGE_MODALITY: u8 = 1;

/// What marks audio.
pub const AUDIO_MODALITY: u8 = 2;

/// What marks video.
pub const VIDEO_MODALITY: u8 = 4;

/// The tokens that are computed again after a cache hit.
#[derive(Debug, Clone, Copy, PartialEq, Eq, Structural)]
pub enum SpeculativePrefixReplay {
    Nothing,
    /// So many at the end of the prompt.
    Suffix(usize),
}

impl SpeculativePrefixReplay {
    /// How many tokens.
    pub open spec fn count(self) -> usize {
        match self {
            SpeculativePrefixReplay::Nothing => 0,
            SpeculativePrefixReplay::Suffix(n) => n,
        }
    }

    fn tokens(self) -> (r: usize)
        ensures
            r == self.count(),
    {
        match self {
            SpeculativePrefixReplay::Nothing => 0,
            SpeculativePrefixReplay::Suffix(n) => n,
        }
    }
}

/// When tokens are computed again after a cache hit.
#[derive(Debug, Clone, Copy, PartialEq, Eq, Structural)]
pub struct SpeculativePrefixCheckpointPolicy {
    pub replay: SpeculativePrefixReplay,
    /// Whether text alone needs nothing again.
    pub text_is_exempt: bool,
}

impl SpeculativePrefixCheckpointPolicy {
    pub fn new(replay: SpeculativePrefixReplay, text_is_exempt: bool) -> (r: Self)
        ensures
            r.replay == replay,
            r.text_is_exempt == text_is_exempt,
    {
        SpeculativePrefixCheckpointPolicy { replay, text_is_exempt }
    }

    /// What is computed again for the given kinds of media.
    pub open spec fn replays(self, signature: u8) -> SpeculativePrefixReplay {
        if self.text_is_exempt && signature == TEXT_MODALITY {
            SpeculativePrefixReplay::Nothing
        } else {
            self.replay
        }
    }

    /// What is computed again for the given kinds of media.
    pub fn replay_for(&self, signature: u8) -> (r: SpeculativePrefixReplay)
        ensures
            r == self.replays(signature),
    {
        if self.text_is_exempt && signature == TEXT_MODALITY {
            SpeculativePrefixReplay::Nothing
        } else {
            self.replay
        }
    }
}

impl Default for SpeculativePrefixCheckpointPolicy {
    /// Nothing is computed again.
    fn default() -> (r: Self)
        ensures
            r.replay == SpeculativePrefixReplay::Nothing,
            !r.text_is_exempt,
    {
        SpeculativePrefixCheckpointPolicy {
            replay: SpeculativePrefixReplay::Nothing,
            text_is_exempt: false,
        }
    }
}

/// A sequence: a prompt and what was generated behind it.
#[derive(Debug, Clone)]
pub struct Sequence {
    pub id: usize,
    pub tokens: Vec<u32>,
    pub state: SequenceState,
    /// The tokens that came out of the cache.
    pub prefix_cache_len: usize,
    /// The tokens whose keys and values are there.
    pub num_computed_tokens: usize,
    /// The slot of the state that the sequence carries, where it has one.
    pub recurrent_state_idx: Option<usize>,
    pub return_raw_logits: bool,
    pub mm_features: Vec<MultiModalFeature>,
    /// Media that are not tokens yet.
    pub images: usize,
    pub audios: usize,
    pub videos: usize,
    /// Changes whenever earlier tokens may have changed.
    pub block_hash_revision: usize,
    /// Tokens that were guessed for the next step.
    pub staged_speculative: Vec<u32>,
    /// Whether a cache hit of the sequence was counted.
    pub prefix_hit_counted: bool,
}

/// Whether a feature of a kind is among the first `n`.
pub open spec fn has_kind(features: Seq<MultiModalFeature>, kind: MultimodalKind, n: int) -> bool {
    exists|i: int| 0 <= i < n && (#[trigger] features[i]).kind == kind
}

fn find_kind(features: &Vec<MultiModalFeature>, kind: MultimodalKind) -> (r: bool)
    ensures
        r == has_kind(features@, kind, features@.len() as int),
{
    let n: usize = features.len();
    let mut i: usize = 0;
    while i < n
        invariant
            i <= n == features@.len(),
            !has_kind(features@, kind, i as int),
        decreases n - i,
    {
        if features[i].kind == kind {
            assert(features@[i as int].kind == kind);
            return true;
        }
        i += 1;
    }
    false
}

impl Sequence {
    /// The number of tokens.
    pub open spec fn length(self) -> nat {
        self.tokens@.len()
    }

    /// Whether there are media of a kind, as tokens or not yet.
    pub open spec fn has_media(self, kind: MultimodalKind) -> bool {
        (match kind {
            MultimodalKind::Image => self.images > 0,
            MultimodalKind::Audio => self.audios > 0,
            MultimodalKind::Video => self.videos > 0,
        }) || has_kind(self.mm_features@, kind, self.mm_features@.len() as int)
    }

    /// The kinds of media in the sequence.
    pub open spec fn signature(self) -> u8 {
        ((if self.has_media(MultimodalKind::Image) {
            IMAGE_MODALITY as int
        } else {
            0
        }) + (if self.has_media(MultimodalKind::Audio) {
            AUDIO_MODALITY as int
        } else {
            0
        }) + (if self.has_media(MultimodalKind::Video) {
            VIDEO_MODALITY as int
        } else {
            0
        })) as u8
    }

    /// The first token that is still to be computed.
    pub open spec fn frontier(self) -> usize {
        let reached = if self.prefix_cache_len > self.num_computed_tokens {
            self.prefix_cache_len
        } else {
            self.num_computed_tokens
        };
        if reached < self.length() {
            reached
        } else {
            self.length() as usize
        }
    }

    /// What planning needs to know of the sequence.
    pub open spec fn prompt(self, policy: SpeculativePrefixCheckpointPolicy) -> PromptInfo {
        PromptInfo {
            id: self.id,
            start: self.frontier(),
            len: self.length() as usize,
            signature: self.signature(),
            raw_logits: self.return_raw_logits,
            has_features: self.mm_features@.len() > 0,
            media_pending: self.mm_features@.len() == 0 && (self.images > 0 || self.audios > 0
                || self.videos > 0),
            replay: policy.replays(self.signature()).count(),
        }
    }

    /// A sequence that waits for its prompt to be computed.
    pub fn new_waiting(
        tokens: Vec<u32>,
        id: usize,
        images: usize,
        audios: usize,
        videos: usize,
    ) -> (r:
        Sequence)
        ensures
            r.id == id,
            r.tokens@ == tokens@,
            r.state == SequenceState::Waiting,
            r.prefix_cache_len == 0,
            r.num_computed_tokens == 0,
            r.recurrent_state_idx is None,
            !r.return_raw_logits,
            r.mm_features@.len() == 0,
            r.images == images,
            r.audios == audios,
            r.videos == videos,
            r.block_hash_revision == 0,
            r.staged_speculative@.len() == 0,
            !r.prefix_hit_counted,
    {
        Sequence {
            id,
            tokens,
            state: SequenceState::Waiting,
            prefix_cache_len: 0,
            num_computed_tokens: 0,
            recurrent_state_idx: None,
            return_raw_logits: false,
            mm_features: Vec::new(),
            images,
            audios,
            videos,
            block_hash_revision: 0,
            staged_speculative: Vec::new(),
            prefix_hit_counted: false,
        }
    }

    pub fn id(&self) -> (r: usize)
        ensures
            r == self.id,
    {
        self.id
    }

    pub fn len(&self) -> (r: usize)
        ensures
            r == self.length(),
    {
        self.tokens.len()
    }

    pub fn getstate(&self) -> (r: SequenceState)
        ensures
            r == self.state,
    {
        self.state
    }

    pub fn set_state(&mut self, state: SequenceState)
        ensures
            *final(self) == (Sequence { state, ..*old(self) }),
    {
        self.state = state;
    }

    pub fn set_num_computed_tokens(&mut self, n: usize)
        ensures
            *final(self) == (Sequence { num_computed_tokens: n, ..*old(self) }),
    {
        self.num_computed_tokens = n;
    }

    pub fn set_prefix_cache_len(&mut self, n: usize)
        ensures
            *final(self) == (Sequence { prefix_cache_len: n, ..*old(self) }),
    {
        self.prefix_cache_len = n;
    }

    pub fn set_recurrent_state_idx(&mut self, idx: Option<usize>)
        ensures
            *final(self) == (Sequence { recurrent_state_idx: idx, ..*old(self) }),
    {
        self.recurrent_state_idx = idx;
    }

    pub fn set_mm_features(&mut self, features: Vec<MultiModalFeature>)
        ensures
            *final(self) == (Sequence { mm_features: features, ..*old(self) }),
    {
        self.mm_features = features;
    }

    pub fn set_staged_speculative(&mut self, tokens: Vec<u32>)
        ensures
            *final(self) == (Sequence { staged_speculative: tokens, ..*old(self) }),
    {
        self.staged_speculative = tokens;
    }

    pub fn active_staged_speculative_len(&self) -> (r: usize)
        ensures
            r == self.staged_speculative@.len(),
    {
        self.staged_speculative.len()
    }

    /// Adds a generated token. Earlier tokens stay as they are.
    pub fn add_token(&mut self, token: u32)
        ensures
            final(self).tokens@ == old(self).tokens@.push(token),
            *final(self) == (Sequence { tokens: final(self).tokens, ..*old(self) }),
    {
        self.tokens.push(token);
    }

    /// Puts other tokens in place of all tokens.
    pub fn set_toks_and_reallocate(&mut self, tokens: Vec<u32>)
        requires
            old(self).block_hash_revision < usize::MAX,
        ensures
            *final(self) == (Sequence {
                tokens,
                block_hash_revision: (old(self).block_hash_revision + 1) as usize,
                ..*old(self)
            }),
    {
        self.tokens = tokens;
        self.block_hash_revision = self.block_hash_revision + 1;
    }

    /// Takes the images that are not tokens yet.
    pub fn take_images(&mut self) -> (r: usize)
        ensures
            r == old(self).images,
            *final(self) == (Sequence { images: 0, ..*old(self) }),
    {
        let n: usize = self.images;
        self.images = 0;
        n
    }

    /// Whether there are images that are not tokens yet.
    pub fn has_images(&self) -> (r: bool)
        ensures
            r == (self.images > 0),
    {
        self.images > 0
    }

    /// Whether the prompt is being computed.
    pub fn is_prompt(&self) -> (r: bool)
        ensures
            r == (self.state == SequenceState::RunningPrompt),
    {
        matches!(self.state, SequenceState::RunningPrompt)
    }

    /// Whether tokens are being generated.
    pub fn is_completion(&self) -> (r: bool)
        ensures
            r == (self.state == SequenceState::RunningCompletion),
    {
        matches!(self.state, SequenceState::RunningCompletion)
    }

    /// The first token that is still to be computed.
    pub fn next_token(&self) -> (r: usize)
        ensures
            r == self.frontier(),
            r <= self.length(),
    {
        let reached: usize = if self.prefix_cache_len > self.num_computed_tokens {
            self.prefix_cache_len
        } else {
            self.num_computed_tokens
        };
        let n: usize = self.tokens.len();
        if reached < n {
            reached
        } else {
            n
        }
    }

    /// What planning needs to know of the sequence.
    pub fn prompt_info(&self, policy: &SpeculativePrefixCheckpointPolicy) -> (r: PromptInfo)
        ensures
            r == self.prompt(*policy),
            r.wf(),
    {
        let signature: u8 = modality_signature(self);
        let start: usize = self.next_token();
        PromptInfo {
            id: self.id,
            start,
            len: self.tokens.len(),
            signature,
            raw_logits: self.return_raw_logits,
            has_features: self.mm_features.len() > 0,
            media_pending: self.mm_features.len() == 0 && (self.images > 0 || self.audios > 0
                || self.videos > 0),
            replay: policy.replay_for(signature).tokens(),
        }
    }
}

/// The kinds of media in a sequence. Media that have become tokens count on.
pub fn modality_signature(seq: &Sequence) -> (r: u8)
    ensures
        r == seq.signature(),
{
    let image: u8 = if seq.images > 0 || find_kind(&seq.mm_features, MultimodalKind::Image) {
        IMAGE_MODALITY
    } else {
        0
    };
    let audio: u8 = if seq.audios > 0 || find_kind(&seq.mm_features, MultimodalKind::Audio) {
        AUDIO_MODALITY
    } else {
        0
    };
    let video: u8 = if seq.videos > 0 || find_kind(&seq.mm_features, MultimodalKind::Video) {
        VIDEO_MODALITY
    } else {
        0
    };
    image + audio + video
}

/// The kinds of media that a signature marks, each by a mark of its own: images, audio and
/// video, as tokens or not yet. Text alone has none.
pub proof fn law_signatures_mark_the_media(seq: Sequence)
    ensures
        seq.signature() < 8,
        seq.signature() == 0 <==> seq.images == 0 && seq.audios == 0 && seq.videos == 0
            && seq.mm_features@.len() == 0,
        seq.signature() as int % 2 == 1 <==> seq.images > 0 || exists|i: int|
            0 <= i < seq.mm_features@.len() && (#[trigger] seq.mm_features@[i]).kind
                == MultimodalKind::Image,
        seq.signature() as int / 2 % 2 == 1 <==> seq.audios > 0 || exists|i: int|
            0 <= i < seq.mm_features@.len() && (#[trigger] seq.mm_features@[i]).kind
                == MultimodalKind::Audio,
        seq.signature() as int / 4 == 1 <==> seq.videos > 0 || exists|i: int|
            0 <= i < seq.mm_features@.len() && (#[trigger] seq.mm_features@[i]).kind
                == MultimodalKind::Video,
{
    if seq.mm_features@.len() > 0 {
        let f = seq.mm_features@[0];
        assert(has_kind(seq.mm_features@, f.kind, seq.mm_features@.len() as int));
    }
}

/// Nothing is computed twice and nothing is left out: a token counts as computed exactly where
/// it came out of the cache or was computed.
pub proof fn law_frontier_is_what_is_computed(seq: Sequence, t: int)
    requires
        0 <= t < seq.length(),
    ensures
        t < seq.frontier() <==> t < seq.prefix_cache_len || t < seq.num_computed_tokens,
        seq.frontier() <= seq.length(),
{
    let n = seq.tokens.len();
    assert(n == seq.tokens@.len());
}

/// What planning sees of a sequence is what holds of it: its tokens, what is computed of them,
/// and whether media wait to be turned into tokens. Media that have become tokens do not.
pub proof fn law_planning_sees_the_sequence(
    seq: &Sequence,
    policy: &SpeculativePrefixCheckpointPolicy,
    r: PromptInfo,
)
    requires
        call_ensures(Sequence::prompt_info, (seq, policy), r),
    ensures
        r.id == seq.id,
        r.len == seq.tokens@.len(),
        r.start <= r.len,
        r.raw_logits == seq.return_raw_logits,
        r.has_features <==> seq.mm_features@.len() > 0,
        r.media_pending <==> seq.mm_features@.len() == 0 && (seq.images > 0 || seq.audios > 0
            || seq.videos > 0),
        r.media_pending ==> r.signature != 0 && !r.has_features,
        r.signature == seq.signature(),
        policy.replay == SpeculativePrefixReplay::Nothing ==> r.replay == 0,
        policy.replay matches SpeculativePrefixReplay::Suffix(n) ==> r.replay == (if
        policy.text_is_exempt && seq.images == 0 && seq.audios == 0 && seq.videos == 0
            && seq.mm_features@.len() == 0 {
            0
        } else {
            n
        }),
{
    law_signatures_mark_the_media(*seq);
    let n = seq.tokens.len();
    assert(n == seq.tokens@.len());
}

/// A sequence that waits or runs is not finished, and every other one is.
pub proof fn law_only_waiting_and_running_sequences_go_on(state: SequenceState)
    ensures
        state.finished() <==> state != SequenceState::Waiting && state
            != SequenceState::RunningPrompt && state != SequenceState::RunningCompletion,
{
}

} // verus!
