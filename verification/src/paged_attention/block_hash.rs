//! Hashes of full token blocks. The hash of a block covers its tokens, the media in them
//! and everything before it.

use vstd::prelude::*;

verus! {

/// The hash of a block and of all blocks before it.
pub type BlockHash = u64;

/// What stands before the first block.
pub const HASH_SEED: u64 = 0xcbf2_9ce4_8422_2325;

/// The multiplier of the hash.
pub const HASH_PRIME: u64 = 0x0000_0100_0000_01b3;

/// A kind of media.
#[derive(Debug, Clone, Copy, PartialEq, Eq, Structural)]
pub enum MultimodalKind {
    Image,
    Audio,
    Video,
}

impl MultimodalKind {
    /// The word that stands for the kind in a hash.
    pub open spec fn word(self) -> u64 {
        match self {
            MultimodalKind::Image => 1,
            MultimodalKind::Audio => 2,
            MultimodalKind::Video => 3,
        }
    }

    fn hash_word(self) -> (r: u64)
        ensures
            r == self.word(),
    {
        match self {
            MultimodalKind::Image => 1,
            MultimodalKind::Audio => 2,
            MultimodalKind::Video => 3,
        }
    }
}

/// How the tokens of a media item attend to each other.
#[derive(Debug, Clone, Copy, PartialEq, Eq, Structural)]
pub enum MultimodalAttentionPolicy {
    Causal,
    Bidirectional,
}

/// A run of items: the first, and the one behind the last.
#[derive(Debug, Clone, Copy, PartialEq, Eq, Structural)]
pub struct ItemRange {
    pub start: usize,
    pub end: usize,
}

/// Tokens of a prompt that stand for media.
#[derive(Debug, Clone)]
pub struct MultiModalFeature {
    pub kind: MultimodalKind,
    /// Which of the items of its kind.
    pub item_range: ItemRange,
    /// The hashes of those items.
    pub hashes: Vec<u64>,
    /// The first token.
    pub offset: usize,
    /// The number of tokens.
    pub length: usize,
    pub attention_policy: MultimodalAttentionPolicy,
    /// Whether a prompt may be cut inside.
    pub splittable: bool,
}

impl MultiModalFeature {
    /// Whether some of the tokens lie in `lo..hi`.
    pub open spec fn touches(self, lo: int, hi: int) -> bool {
        self.offset < hi && lo < self.offset + self.length
    }

    /// What the feature adds to the hash of a block that it touches.
    pub open spec fn words(self) -> Seq<u64> {
        seq![self.kind.word(), self.offset as u64] + self.hashes@
    }
}

/// One step of the hash.
pub open spec fn mix(h: u64, word: u64) -> u64 {
    let x = (h ^ word).wrapping_mul(HASH_PRIME);
    x ^ (x >> 32)
}

fn mix_word(h: u64, word: u64) -> (r: u64)
    ensures
        r == mix(h, word),
{
    let x: u64 = (h ^ word).wrapping_mul(HASH_PRIME);
    x ^ (x >> 32)
}

/// All steps of the hash.
pub open spec fn mix_all(h: u64, words: Seq<u64>) -> u64
    decreases words.len(),
{
    if words.len() == 0 {
        h
    } else {
        mix(mix_all(h, words.drop_last()), words.last())
    }
}

proof fn lemma_mix_all_adds(h: u64, a: Seq<u64>, b: Seq<u64>)
    ensures
        mix_all(h, a + b) == mix_all(mix_all(h, a), b),
    decreases b.len(),
{
    if b.len() == 0 {
        assert(a + b =~= a);
    } else {
        assert((a + b).drop_last() =~= a + b.drop_last());
        lemma_mix_all_adds(h, a, b.drop_last());
    }
}

fn mix_words(h: u64, words: &Vec<u64>) -> (r: u64)
    ensures
        r == mix_all(h, words@),
{
    let n: usize = words.len();
    let mut r: u64 = h;
    let mut i: usize = 0;
    while i < n
        invariant
            i <= n == words@.len(),
            r == mix_all(h, words@.take(i as int)),
        decreases n - i,
    {
        r = mix_word(r, words[i]);
        i += 1;
        assert(words@.take(i as int).drop_last() =~= words@.take(i - 1));
    }
    assert(words@.take(n as int) =~= words@);
    r
}

/// The words of a run of tokens.
pub open spec fn token_words(tokens: Seq<u32>) -> Seq<u64> {
    Seq::new(tokens.len(), |i: int| tokens[i] as u64)
}

/// The words of the features that touch `lo..hi`, in order.
pub open spec fn feature_words(features: Seq<MultiModalFeature>, lo: int, hi: int) -> Seq<u64>
    decreases features.len(),
{
    if features.len() == 0 {
        Seq::empty()
    } else {
        let before = feature_words(features.drop_last(), lo, hi);
        if features.last().touches(lo, hi) {
            before + features.last().words()
        } else {
            before
        }
    }
}

/// What block `i` adds to its hash: its tokens, the media in it, and the keys
/// that all blocks share.
pub open spec fn block_words(
    tokens: Seq<u32>,
    block_size: int,
    features: Seq<MultiModalFeature>,
    extra: Seq<u64>,
    i: int,
) -> Seq<u64> {
    token_words(tokens.subrange(i * block_size, (i + 1) * block_size)) + feature_words(
        features,
        i * block_size,
        (i + 1) * block_size,
    ) + extra
}

/// The hash that a block behind the given ones starts from.
pub open spec fn parent_hash(hashes: Seq<u64>) -> u64 {
    if hashes.len() == 0 {
        HASH_SEED
    } else {
        hashes.last()
    }
}

/// Hashes continued to `n` blocks.
pub open spec fn extended(
    hashes: Seq<u64>,
    tokens: Seq<u32>,
    block_size: int,
    features: Seq<MultiModalFeature>,
    extra: Seq<u64>,
    n: int,
) -> Seq<u64>
    decreases n - hashes.len(),
{
    if hashes.len() >= n {
        hashes
    } else {
        let words = block_words(tokens, block_size, features, extra, hashes.len() as int);
        extended(
            hashes.push(mix_all(parent_hash(hashes), words)),
            tokens,
            block_size,
            features,
            extra,
            n,
        )
    }
}

/// The hashes of the full blocks of a token list.
pub open spec fn block_hashes(
    tokens: Seq<u32>,
    block_size: int,
    features: Seq<MultiModalFeature>,
    extra: Seq<u64>,
) -> Seq<u64> {
    extended(Seq::empty(), tokens, block_size, features, extra, tokens.len() as int / block_size)
}

/// Continued hashes keep those that they continue, and there are as many as
/// asked for.
pub proof fn lemma_extended_keeps(
    hashes: Seq<u64>,
    tokens: Seq<u32>,
    block_size: int,
    features: Seq<MultiModalFeature>,
    extra: Seq<u64>,
    n: int,
)
    ensures
        ({
            let r = extended(hashes, tokens, block_size, features, extra, n);
            &&& r.len() == if hashes.len() >= n { hashes.len() as int } else { n }
            &&& forall|i: int| 0 <= i < hashes.len() ==> r[i] == hashes[i]
        }),
    decreases n - hashes.len(),
{
    if hashes.len() < n {
        let words = block_words(tokens, block_size, features, extra, hashes.len() as int);
        let next = hashes.push(mix_all(parent_hash(hashes), words));
        lemma_extended_keeps(next, tokens, block_size, features, extra, n);
        assert(forall|i: int| 0 <= i < hashes.len() ==> next[i] == hashes[i]);
    }
}

proof fn lemma_extended_in_steps(
    hashes: Seq<u64>,
    tokens: Seq<u32>,
    longer: Seq<u32>,
    block_size: int,
    features: Seq<MultiModalFeature>,
    extra: Seq<u64>,
    m: int,
    n: int,
)
    requires
        block_size > 0,
        0 <= m <= n,
        m * block_size <= tokens.len() <= longer.len(),
        longer.take(tokens.len() as int) == tokens,
    ensures
        extended(
            extended(hashes, tokens, block_size, features, extra, m),
            longer,
            block_size,
            features,
            extra,
            n,
        ) == extended(hashes, longer, block_size, features, extra, n),
    decreases m - hashes.len(),
{
    if hashes.len() < m {
        let i = hashes.len() as int;
        assert(0 <= i * block_size && (i + 1) * block_size <= m * block_size) by (nonlinear_arith)
            requires
                0 <= i < m,
                block_size > 0,
        ;
        assert((i + 1) * block_size == i * block_size + block_size) by (nonlinear_arith);
        assert(tokens.subrange(i * block_size, (i + 1) * block_size) =~= longer.subrange(
            i * block_size,
            (i + 1) * block_size,
        )) by {
            assert(forall|k: int| 0 <= k < tokens.len() ==> longer.take(tokens.len() as int)[k] == longer[k]);
        }
        let words = block_words(tokens, block_size, features, extra, i);
        let next = hashes.push(mix_all(parent_hash(hashes), words));
        lemma_extended_in_steps(next, tokens, longer, block_size, features, extra, m, n);
    }
}

/// Hashes of a prefix, continued over the whole list, are the hashes of the
/// whole list.
pub proof fn law_hashes_can_be_appended(
    tokens: Seq<u32>,
    longer: Seq<u32>,
    block_size: int,
    features: Seq<MultiModalFeature>,
    extra: Seq<u64>,
)
    requires
        block_size > 0,
        tokens.len() <= longer.len(),
        longer.take(tokens.len() as int) == tokens,
    ensures
        extended(
            block_hashes(tokens, block_size, features, extra),
            longer,
            block_size,
            features,
            extra,
            longer.len() as int / block_size,
        ) == block_hashes(longer, block_size, features, extra),
{
    let m = tokens.len() as int / block_size;
    let n = longer.len() as int / block_size;
    assert(m <= n && m * block_size <= tokens.len() && 0 <= m) by (nonlinear_arith)
        requires
            block_size > 0,
            m == tokens.len() as int / block_size,
            n == longer.len() as int / block_size,
            0 <= tokens.len() <= longer.len(),
    ;
    lemma_extended_in_steps(Seq::empty(), tokens, longer, block_size, features, extra, m, n);
}

/// One hash for each full block.
pub proof fn law_one_hash_per_block(
    tokens: Seq<u32>,
    block_size: int,
    features: Seq<MultiModalFeature>,
    extra: Seq<u64>,
)
    requires
        block_size > 0,
    ensures
        block_hashes(tokens, block_size, features, extra).len() == tokens.len() as int / block_size,
{
    assert(tokens.len() as int / block_size >= 0) by (nonlinear_arith)
        requires
            block_size > 0,
            tokens.len() >= 0,
    ;
    lemma_extended_keeps(
        Seq::empty(),
        tokens,
        block_size,
        features,
        extra,
        tokens.len() as int / block_size,
    );
}

/// Every feature ends within a machine word.
pub open spec fn features_fit(features: Seq<MultiModalFeature>) -> bool {
    forall|i: int|
        0 <= i < features.len() ==> (#[trigger] features[i]).offset + features[i].length
            <= usize::MAX
}

fn mix_features(h: u64, features: &Vec<MultiModalFeature>, lo: usize, hi: usize) -> (r: u64)
    requires
        features_fit(features@),
    ensures
        r == mix_all(h, feature_words(features@, lo as int, hi as int)),
{
    let n: usize = features.len();
    let mut r: u64 = h;
    let mut i: usize = 0;
    assert(features@.take(0) =~= Seq::<MultiModalFeature>::empty());
    while i < n
        invariant
            i <= n == features@.len(),
            features_fit(features@),
            r == mix_all(h, feature_words(features@.take(i as int), lo as int, hi as int)),
        decreases n - i,
    {
        let f = &features[i];
        let ghost before = feature_words(features@.take(i as int), lo as int, hi as int);
        assert(features@.take(i + 1).drop_last() =~= features@.take(i as int));
        assert(features@[i as int].offset + features@[i as int].length <= usize::MAX);
        if f.offset < hi && lo < f.offset + f.length {
            let ghost start = r;
            r = mix_word(r, f.kind.hash_word());
            r = mix_word(r, f.offset as u64);
            proof {
                let pair = seq![f.kind.word(), f.offset as u64];
                assert(pair.drop_last() =~= seq![f.kind.word()]);
                assert(pair.drop_last().drop_last() =~= Seq::<u64>::empty());
                assert(mix_all(start, pair.drop_last().drop_last()) == start);
                assert(mix_all(start, pair.drop_last()) == mix(start, f.kind.word()));
                assert(r == mix_all(start, pair));
                lemma_mix_all_adds(start, pair, f.hashes@);
                lemma_mix_all_adds(h, before, f.words());
            }
            r = mix_words(r, &f.hashes);
        }
        i += 1;
    }
    assert(features@.take(n as int) =~= features@);
    r
}

fn mix_tokens(h: u64, tokens: &Vec<u32>, lo: usize, hi: usize) -> (r: u64)
    requires
        lo <= hi <= tokens@.len(),
    ensures
        r == mix_all(h, token_words(tokens@.subrange(lo as int, hi as int))),
{
    let mut r: u64 = h;
    let mut i: usize = lo;
    let ghost all = token_words(tokens@.subrange(lo as int, hi as int));
    assert(all.take(0) =~= Seq::<u64>::empty());
    while i < hi
        invariant
            lo <= i <= hi <= tokens@.len(),
            all == token_words(tokens@.subrange(lo as int, hi as int)),
            r == mix_all(h, all.take(i - lo)),
        decreases hi - i,
    {
        r = mix_word(r, tokens[i] as u64);
        i += 1;
        assert(all.take(i - lo).drop_last() =~= all.take(i - lo - 1));
    }
    assert(all.take(hi - lo) =~= all);
    r
}

/// Continues hashes over all full blocks of a token list.
pub fn extend_block_hashes(
    hashes: &mut Vec<u64>,
    tokens: &Vec<u32>,
    block_size: usize,
    features: &Vec<MultiModalFeature>,
    extra: &Vec<u64>,
)
    requires
        block_size > 0,
        features_fit(features@),
    ensures
        final(hashes)@ == extended(
            old(hashes)@,
            tokens@,
            block_size as int,
            features@,
            extra@,
            tokens@.len() as int / block_size as int,
        ),
{
    let total: usize = tokens.len();
    let n: usize = total / block_size;
    while hashes.len() < n
        invariant
            block_size > 0,
            total == tokens@.len(),
            features_fit(features@),
            n == tokens@.len() as int / block_size as int,
            extended(hashes@, tokens@, block_size as int, features@, extra@, n as int) == extended(
                old(hashes)@,
                tokens@,
                block_size as int,
                features@,
                extra@,
                n as int,
            ),
        decreases n - hashes.len(),
    {
        let i: usize = hashes.len();
        assert(0 <= i * block_size && (i + 1) * block_size <= tokens@.len() && (i + 1) * block_size
            == i * block_size + block_size) by (nonlinear_arith)
            requires
                0 <= i < n,
                block_size > 0,
                n == tokens@.len() as int / block_size as int,
        ;
        let lo: usize = i * block_size;
        let hi: usize = lo + block_size;
        let parent: u64 = if i == 0 {
            HASH_SEED
        } else {
            hashes[i - 1]
        };
        let a: u64 = mix_tokens(parent, tokens, lo, hi);
        let b: u64 = mix_features(a, features, lo, hi);
        let c: u64 = mix_words(b, extra);
        proof {
            let x = token_words(tokens@.subrange(lo as int, hi as int));
            let y = feature_words(features@, lo as int, hi as int);
            lemma_mix_all_adds(parent, x, y);
            lemma_mix_all_adds(parent, x + y, extra@);
        }
        hashes.push(c);
    }
}

/// The hashes of the full blocks of a token list.
pub fn compute_block_hashes(
    tokens: &Vec<u32>,
    block_size: usize,
    features: &Vec<MultiModalFeature>,
    extra: &Vec<u64>,
) -> (r: Vec<BlockHash>)
    requires
        block_size > 0,
        features_fit(features@),
    ensures
        r@ == block_hashes(tokens@, block_size as int, features@, extra@),
{
    let mut hashes: Vec<u64> = Vec::new();
    extend_block_hashes(&mut hashes, tokens, block_size, features, extra);
    hashes
}

/// Whether a cut of a prompt goes through a feature that cannot be split.
pub open spec fn cuts(features: Seq<MultiModalFeature>, at: int) -> bool {
    exists|i: int|
        0 <= i < features.len() && !(#[trigger] features[i]).splittable && features[i].offset < at
            && at < features[i].offset + features[i].length
}

/// The most of `n` blocks whose end cuts no feature.
pub open spec fn uncut_blocks(features: Seq<MultiModalFeature>, n: int, block_size: int) -> int
    decreases n,
{
    if n <= 0 || !cuts(features, n * block_size) {
        n
    } else {
        uncut_blocks(features, n - 1, block_size)
    }
}

/// A boundary that cuts no feature, where all later ones do, is the last such.
pub proof fn lemma_uncut(features: Seq<MultiModalFeature>, n: int, block_size: int, r: int)
    requires
        block_size > 0,
        0 <= n,
        0 <= r <= n * block_size,
        r % block_size == 0,
        !cuts(features, r),
        forall|at: int|
            r < at <= n * block_size && at % block_size == 0 ==> #[trigger] cuts(features, at),
    ensures
        r == uncut_blocks(features, n, block_size) * block_size,
        0 <= uncut_blocks(features, n, block_size) <= n,
    decreases n,
{
    let end = n * block_size;
    assert(end % block_size == 0) by (nonlinear_arith)
        requires
            end == n * block_size,
            block_size > 0,
    ;
    if n == 0 {
        assert(0 * block_size == 0);
    } else if r < end {
        assert(cuts(features, end));
        assert(r <= (n - 1) * block_size) by (nonlinear_arith)
            requires
                r < n * block_size,
                r % block_size == 0,
                block_size > 0,
        ;
        assert((n - 1) * block_size <= end) by (nonlinear_arith)
            requires
                end == n * block_size,
                block_size > 0,
        ;
        lemma_uncut(features, n - 1, block_size, r);
    }
}

/// Shortens a cached prefix to the last block boundary that cuts no feature.
pub fn clamp_cached_tokens(
    features: &Vec<MultiModalFeature>,
    cached: usize,
    block_size: usize,
) -> (r:
    usize)
    requires
        block_size > 0,
        features_fit(features@),
        cached as int % block_size as int == 0,
    ensures
        r <= cached,
        r as int % block_size as int == 0,
        !cuts(features@, r as int),
        forall|at: int|
            r < at <= cached && at % block_size as int == 0 ==> #[trigger] cuts(features@, at),
{
    let mut r: usize = cached;
    loop
        invariant
            block_size > 0,
            features_fit(features@),
            r <= cached,
            r as int % block_size as int == 0,
            forall|at: int|
                r < at <= cached && at % block_size as int == 0 ==> #[trigger] cuts(features@, at),
        ensures
            r <= cached,
            r as int % block_size as int == 0,
            !cuts(features@, r as int),
            forall|at: int|
                r < at <= cached && at % block_size as int == 0 ==> #[trigger] cuts(features@, at),
        decreases r,
    {
        let n: usize = features.len();
        let mut i: usize = 0;
        let mut found: bool = false;
        while i < n && !found
            invariant
                i <= n == features@.len(),
                features_fit(features@),
                !found ==> forall|j: int|
                    0 <= j < i ==> (#[trigger] features@[j]).splittable || features@[j].offset >= r
                        || r >= features@[j].offset + features@[j].length,
                found ==> i < n && !features@[i as int].splittable && features@[i as int].offset < r
                    && r < features@[i as int].offset + features@[i as int].length,
            decreases (n - i) + (if found { 0int } else { 1int }),
        {
            let f = &features[i];
            assert(features@[i as int].offset + features@[i as int].length <= usize::MAX);
            if !f.splittable && f.offset < r && r < f.offset + f.length {
                found = true;
            } else {
                i += 1;
            }
        }
        if !found {
            break;
        }
        let offset: usize = features[i].offset;
        proof {
            let b = block_size as int;
            let o = offset as int;
            assert(0 <= o / b * b <= o && o < o / b * b + b && (o / b * b) % b == 0)
                by (nonlinear_arith)
                requires
                    b > 0,
                    o >= 0,
            ;
        }
        let lower: usize = offset / block_size * block_size;
        proof {
            let b = block_size as int;
            assert forall|at: int| lower < at <= cached && at % b == 0 implies #[trigger] cuts(
                features@,
                at,
            ) by {
                if at <= r {
                    assert(at >= lower + b) by (nonlinear_arith)
                        requires
                            b > 0,
                            lower as int % b == 0,
                            at % b == 0,
                            lower < at,
                    ;
                    assert(features@[i as int].offset < at);
                }
            }
        }
        r = lower;
    }
    r
}

/// The words of tokens determine the tokens: none stands for two.
pub proof fn law_words_determine_the_tokens(a: Seq<u32>, b: Seq<u32>)
    requires
        token_words(a) == token_words(b),
    ensures
        a == b,
{
    assert(token_words(a).len() == a.len() && token_words(b).len() == b.len());
    assert forall|i: int| 0 <= i < a.len() implies a[i] == b[i] by {
        assert(token_words(a)[i] == a[i] as u64 && token_words(b)[i] == b[i] as u64);
    }
    assert(a =~= b);
}

/// What enters the hash of a block determines its tokens, given its media and keys, and its
/// keys, given its tokens and media.
pub proof fn law_block_words_determine_the_block(
    a: Seq<u32>,
    b: Seq<u32>,
    block_size: int,
    features: Seq<MultiModalFeature>,
    keys: Seq<u64>,
    others: Seq<u64>,
    i: int,
)
    requires
        block_size > 0,
        0 <= i,
        (i + 1) * block_size <= a.len(),
        (i + 1) * block_size <= b.len(),
        block_words(a, block_size, features, keys, i) == block_words(
            b,
            block_size,
            features,
            others,
            i,
        ),
    ensures
        keys.len() == others.len(),
        forall|t: int| i * block_size <= t < (i + 1) * block_size ==> #[trigger] a[t] == b[t],
        keys == others,
{
    lemma_block_bounds(i, block_size);
    let (lo, hi) = (i * block_size, (i + 1) * block_size);
    let (x, y) = (token_words(a.subrange(lo, hi)), token_words(b.subrange(lo, hi)));
    let media = feature_words(features, lo, hi);
    let (p, q) = (
        block_words(a, block_size, features, keys, i),
        block_words(b, block_size, features, others, i),
    );
    assert(x.len() == block_size && y.len() == block_size);
    assert(p.len() == block_size + media.len() + keys.len());
    assert(q.len() == block_size + media.len() + others.len());
    assert forall|t: int| lo <= t < hi implies #[trigger] a[t] == b[t] by {
        assert(p[t - lo] == x[t - lo] && q[t - lo] == y[t - lo]);
        assert(a.subrange(lo, hi)[t - lo] == a[t] && b.subrange(lo, hi)[t - lo] == b[t]);
    }
    assert forall|t: int| 0 <= t < keys.len() implies keys[t] == others[t] by {
        assert(p[block_size + media.len() + t] == keys[t]);
        assert(q[block_size + media.len() + t] == others[t]);
    }
    assert(keys =~= others);
}

proof fn lemma_block_bounds(i: int, block_size: int)
    requires
        0 <= i,
        block_size > 0,
    ensures
        0 <= i * block_size,
        (i + 1) * block_size == i * block_size + block_size,
{
    assert(0 <= i * block_size && (i + 1) * block_size == i * block_size + block_size)
        by (nonlinear_arith)
        requires
            0 <= i,
            block_size > 0,
    ;
}

/// What a feature adds to a hash determines its kind, where it begins and its items.
pub proof fn law_words_determine_the_media(f: MultiModalFeature, g: MultiModalFeature)
    requires
        f.words() == g.words(),
    ensures
        f.kind == g.kind,
        f.offset == g.offset,
        f.hashes@ == g.hashes@,
{
    let (x, y) = (f.words(), g.words());
    assert(x[0] == f.kind.word() && y[0] == g.kind.word());
    assert(x[1] == f.offset as u64 && y[1] == g.offset as u64);
    assert(x.len() == 2 + f.hashes@.len() && y.len() == 2 + g.hashes@.len());
    assert forall|t: int| 0 <= t < f.hashes@.len() implies f.hashes@[t] == g.hashes@[t] by {
        assert(x[2 + t] == f.hashes@[t] && y[2 + t] == g.hashes@[t]);
    }
    assert(f.hashes@ =~= g.hashes@);
}

/// A block is hashed with the media that have tokens in it, and with no others.
pub proof fn law_media_count_where_they_stand(
    features: Seq<MultiModalFeature>,
    f: MultiModalFeature,
    lo: int,
    hi: int,
)
    requires
        lo < hi,
        f.length > 0,
    ensures
        (exists|t: int| #[trigger] within(t, lo, hi) && f.offset <= t < f.offset + f.length)
            ==> feature_words(features.push(f), lo, hi) == feature_words(features, lo, hi)
            + f.words(),
        !(exists|t: int| #[trigger] within(t, lo, hi) && f.offset <= t < f.offset + f.length)
            ==> feature_words(features.push(f), lo, hi) == feature_words(features, lo, hi),
{
    assert(features.push(f).drop_last() =~= features);
    if f.touches(lo, hi) {
        let t = if lo < f.offset {
            f.offset as int
        } else {
            lo
        };
        assert(within(t, lo, hi));
    }
}

/// A token lies in `lo..hi`.
pub open spec fn within(t: int, lo: int, hi: int) -> bool {
    lo <= t < hi
}

/// A step of the hash tells words apart, and what was before.
pub proof fn law_mixing_tells_apart(h: u64, g: u64, a: u64, b: u64)
    ensures
        a != b ==> mix(h, a) != mix(h, b),
        h != g ==> mix(h, a) != mix(g, a),
{
    lemma_step_tells_apart(h ^ a, h ^ b);
    lemma_step_tells_apart(h ^ a, g ^ a);
    assert(a != b ==> h ^ a != h ^ b) by (bit_vector);
    assert(h != g ==> h ^ a != g ^ a) by (bit_vector);
}

proof fn lemma_step_tells_apart(x: u64, y: u64)
    ensures
        x != y ==> ({
            let p = x.wrapping_mul(HASH_PRIME);
            let q = y.wrapping_mul(HASH_PRIME);
            p ^ (p >> 32) != q ^ (q >> 32)
        }),
{
    let p = x.wrapping_mul(HASH_PRIME);
    let q = y.wrapping_mul(HASH_PRIME);
    assert(p != q ==> p ^ (p >> 32) != q ^ (q >> 32)) by (bit_vector);
    if p == q {
        lemma_multiplying_tells_apart(x as int, y as int);
    }
}

/// The multiplier is odd, so that it can be divided out again.
proof fn lemma_multiplying_tells_apart(x: int, y: int)
    requires
        0 <= x <= u64::MAX,
        0 <= y <= u64::MAX,
        (x * HASH_PRIME) % 0x1_0000_0000_0000_0000 == (y * HASH_PRIME) % 0x1_0000_0000_0000_0000,
    ensures
        x == y,
{
    let m: int = 0x1_0000_0000_0000_0000;
    let inverse: int = 14886173955864302971;
    let d = x - y;
    let (a, b) = (x * HASH_PRIME, y * HASH_PRIME);
    let k = a / m - b / m;
    assert(a == m * (a / m) + a % m && b == m * (b / m) + b % m) by (nonlinear_arith)
        requires
            m > 0,
    ;
    assert(m * (a / m) - m * (b / m) == m * k) by (nonlinear_arith)
        requires
            k == a / m - b / m,
    ;
    assert(d * HASH_PRIME == m * k);
    assert(HASH_PRIME * inverse == 1 + m * 887285111055);
    let e = k * inverse - d * 887285111055;
    assert(d == m * e) by (nonlinear_arith)
        requires
            d * HASH_PRIME == m * k,
            HASH_PRIME * inverse == 1 + m * 887285111055,
            e == k * inverse - d * 887285111055,
    {
        assert((d * HASH_PRIME) * inverse == d * (HASH_PRIME * inverse));
        assert(d * (1 + m * 887285111055) == d + m * (d * 887285111055));
        assert((m * k) * inverse == m * (k * inverse));
        assert(m * (k * inverse - d * 887285111055) == m * (k * inverse) - m * (d * 887285111055));
    }
    assert(e == 0) by (nonlinear_arith)
        requires
            d == m * e,
            -m < d < m,
            m > 0,
    ;
}

/// Words that differ in one place give different hashes.
proof fn lemma_one_word_tells_apart(h: u64, x: Seq<u64>, y: Seq<u64>, at: int)
    requires
        x.len() == y.len(),
        0 <= at < x.len(),
        x[at] != y[at],
        forall|i: int| 0 <= i < x.len() && i != at ==> x[i] == y[i],
    ensures
        mix_all(h, x) != mix_all(h, y),
    decreases x.len(),
{
    let (a, b) = (mix_all(h, x.drop_last()), mix_all(h, y.drop_last()));
    if at == x.len() - 1 {
        assert(x.drop_last() =~= y.drop_last());
        law_mixing_tells_apart(a, a, x.last(), y.last());
    } else {
        lemma_one_word_tells_apart(h, x.drop_last(), y.drop_last(), at);
        law_mixing_tells_apart(a, b, x.last(), x.last());
    }
}

/// The same words after different ones give different hashes.
proof fn lemma_what_was_before_tells_apart(g: u64, h: u64, words: Seq<u64>)
    requires
        g != h,
    ensures
        mix_all(g, words) != mix_all(h, words),
    decreases words.len(),
{
    if words.len() > 0 {
        let head = words.drop_last();
        lemma_what_was_before_tells_apart(g, h, head);
        law_mixing_tells_apart(mix_all(g, head), mix_all(h, head), words.last(), words.last());
    }
}

/// Each hash continues the one before it, and the first one the seed.
proof fn lemma_hash_at(
    hashes: Seq<u64>,
    tokens: Seq<u32>,
    block_size: int,
    features: Seq<MultiModalFeature>,
    extra: Seq<u64>,
    n: int,
    i: int,
)
    requires
        hashes.len() <= i < n,
    ensures
        ({
            let r = extended(hashes, tokens, block_size, features, extra, n);
            r.len() == n && r[i] == mix_all(
                if i == 0 {
                    HASH_SEED
                } else {
                    r[i - 1]
                },
                block_words(tokens, block_size, features, extra, i),
            )
        }),
    decreases n - hashes.len(),
{
    let words = block_words(tokens, block_size, features, extra, hashes.len() as int);
    let next = hashes.push(mix_all(parent_hash(hashes), words));
    lemma_extended_keeps(next, tokens, block_size, features, extra, n);
    if i == hashes.len() {
        let r = extended(next, tokens, block_size, features, extra, n);
        assert(r[i] == next[i]);
        if i > 0 {
            assert(r[i - 1] == next[i - 1]);
        }
    } else {
        lemma_hash_at(next, tokens, block_size, features, extra, n, i);
    }
}

/// Each hash of a token list continues the one before it.
proof fn lemma_block_hash_at(
    tokens: Seq<u32>,
    block_size: int,
    features: Seq<MultiModalFeature>,
    extra: Seq<u64>,
    i: int,
)
    requires
        block_size > 0,
        0 <= i,
        (i + 1) * block_size <= tokens.len(),
    ensures
        ({
            let r = block_hashes(tokens, block_size, features, extra);
            i < r.len() && r[i] == mix_all(
                if i == 0 {
                    HASH_SEED
                } else {
                    r[i - 1]
                },
                block_words(tokens, block_size, features, extra, i),
            )
        }),
{
    let n = tokens.len() as int / block_size;
    assert(i < n) by (nonlinear_arith)
        requires
            block_size > 0,
            (i + 1) * block_size <= tokens.len(),
            n == tokens.len() as int / block_size,
    ;
    lemma_hash_at(Seq::empty(), tokens, block_size, features, extra, n, i);
}

/// Blocks of the same tokens behind the same blocks have the same hashes: what comes after them
/// does not matter.
pub proof fn law_common_prefixes_share_their_hashes(
    a: Seq<u32>,
    b: Seq<u32>,
    block_size: int,
    features: Seq<MultiModalFeature>,
    extra: Seq<u64>,
    i: int,
)
    requires
        block_size > 0,
        0 <= i,
        (i + 1) * block_size <= a.len(),
        (i + 1) * block_size <= b.len(),
        forall|t: int| 0 <= t < (i + 1) * block_size ==> a[t] == b[t],
    ensures
        block_hashes(a, block_size, features, extra)[i] == block_hashes(
            b,
            block_size,
            features,
            extra,
        )[i],
    decreases i,
{
    lemma_block_bounds(i, block_size);
    lemma_block_hash_at(a, block_size, features, extra, i);
    lemma_block_hash_at(b, block_size, features, extra, i);
    assert(a.subrange(i * block_size, (i + 1) * block_size) =~= b.subrange(
        i * block_size,
        (i + 1) * block_size,
    ));
    if i > 0 {
        law_common_prefixes_share_their_hashes(a, b, block_size, features, extra, i - 1);
    }
}

/// Another token gives its block another hash, and all blocks behind it; the blocks before it
/// keep theirs.
pub proof fn law_another_token_gives_other_hashes(
    a: Seq<u32>,
    b: Seq<u32>,
    block_size: int,
    features: Seq<MultiModalFeature>,
    extra: Seq<u64>,
    at: int,
    i: int,
)
    requires
        block_size > 0,
        a.len() == b.len(),
        0 <= at < a.len(),
        a[at] != b[at],
        forall|t: int| 0 <= t < a.len() && t != at ==> a[t] == b[t],
        0 <= i,
        (i + 1) * block_size <= a.len(),
    ensures
        (block_hashes(a, block_size, features, extra)[i] == block_hashes(
            b,
            block_size,
            features,
            extra,
        )[i]) == ((i + 1) * block_size <= at),
    decreases i,
{
    lemma_block_bounds(i, block_size);
    let (lo, hi) = (i * block_size, (i + 1) * block_size);
    if hi <= at {
        law_common_prefixes_share_their_hashes(a, b, block_size, features, extra, i);
    } else {
        lemma_block_hash_at(a, block_size, features, extra, i);
        lemma_block_hash_at(b, block_size, features, extra, i);
        let (x, y) = (
            block_words(a, block_size, features, extra, i),
            block_words(b, block_size, features, extra, i),
        );
        let (p, q) = (a.subrange(lo, hi), b.subrange(lo, hi));
        if lo <= at {
            assert forall|t: int| 0 <= t < x.len() && t != at - lo implies x[t] == y[t] by {
                if t < block_size {
                    assert(p[t] == a[lo + t] && q[t] == b[lo + t]);
                    assert(x[t] == token_words(p)[t] && y[t] == token_words(q)[t]);
                }
            }
            assert(p[at - lo] == a[at] && q[at - lo] == b[at]);
            assert(x[at - lo] == token_words(p)[at - lo]);
            assert(y[at - lo] == token_words(q)[at - lo]);
            if i > 0 {
                assert(i * block_size == (i - 1 + 1) * block_size);
                law_common_prefixes_share_their_hashes(a, b, block_size, features, extra, i - 1);
            }
            let before = if i == 0 {
                HASH_SEED
            } else {
                block_hashes(a, block_size, features, extra)[i - 1]
            };
            lemma_one_word_tells_apart(before, x, y, at - lo);
        } else {
            assert(i > 0) by {
                if i == 0 {
                    assert(0 * block_size == 0);
                }
            }
            assert(p =~= q);
            assert(i * block_size == (i - 1 + 1) * block_size);
            law_another_token_gives_other_hashes(a, b, block_size, features, extra, at, i - 1);
            lemma_what_was_before_tells_apart(
                block_hashes(a, block_size, features, extra)[i - 1],
                block_hashes(b, block_size, features, extra)[i - 1],
                x,
            );
        }
    }
}

/// Another key gives the first block of the same tokens another hash.
pub proof fn law_another_key_gives_another_hash(
    tokens: Seq<u32>,
    block_size: int,
    features: Seq<MultiModalFeature>,
    keys: Seq<u64>,
    others: Seq<u64>,
    at: int,
)
    requires
        0 < block_size <= tokens.len(),
        keys.len() == others.len(),
        0 <= at < keys.len(),
        keys[at] != others[at],
        forall|t: int| 0 <= t < keys.len() && t != at ==> keys[t] == others[t],
    ensures
        block_hashes(tokens, block_size, features, keys)[0] != block_hashes(
            tokens,
            block_size,
            features,
            others,
        )[0],
{
    assert((0 + 1) * block_size == block_size && 0 * block_size == 0) by (nonlinear_arith);
    lemma_block_hash_at(tokens, block_size, features, keys, 0);
    lemma_block_hash_at(tokens, block_size, features, others, 0);
    let (x, y) = (
        block_words(tokens, block_size, features, keys, 0),
        block_words(tokens, block_size, features, others, 0),
    );
    let head = x.len() - keys.len();
    assert(head >= 0 && y.len() == x.len());
    assert(forall|t: int| 0 <= t < head ==> x[t] == y[t]);
    assert(forall|t: int| head <= t < x.len() ==> x[t] == keys[t - head]);
    assert(forall|t: int| head <= t < x.len() ==> y[t] == others[t - head]);
    lemma_one_word_tells_apart(HASH_SEED, x, y, head + at);
}

/// Two lists of media that differ in the hash of one item.
pub open spec fn differ_in_an_item(
    a: Seq<MultiModalFeature>,
    b: Seq<MultiModalFeature>,
    j: int,
    at: int,
) -> bool {
    &&& a.len() == b.len()
    &&& 0 <= j < a.len()
    &&& forall|i: int| 0 <= i < a.len() && i != j ==> a[i] == b[i]
    &&& a[j].kind == b[j].kind && a[j].offset == b[j].offset && a[j].length == b[j].length
    &&& a[j].hashes@.len() == b[j].hashes@.len()
    &&& 0 <= at < a[j].hashes@.len()
    &&& a[j].hashes@[at] != b[j].hashes@[at]
    &&& forall|t: int|
        0 <= t < a[j].hashes@.len() && t != at ==> a[j].hashes@[t] == b[j].hashes@[t]
}

proof fn lemma_one_item(
    a: Seq<MultiModalFeature>,
    b: Seq<MultiModalFeature>,
    j: int,
    at: int,
    lo: int,
    hi: int,
) -> (w: int)
    requires
        differ_in_an_item(a, b, j, at),
        a[j].touches(lo, hi),
    ensures
        ({
            let (x, y) = (feature_words(a, lo, hi), feature_words(b, lo, hi));
            &&& x.len() == y.len()
            &&& 0 <= w < x.len()
            &&& x[w] != y[w]
            &&& forall|t: int| 0 <= t < x.len() && t != w ==> x[t] == y[t]
        }),
    decreases a.len(),
{
    let (p, q) = (a.drop_last(), b.drop_last());
    if j == a.len() - 1 {
        assert(p =~= q);
        let head = feature_words(p, lo, hi);
        let (f, g) = (a[j].words(), b[j].words());
        assert(forall|t: int| 2 <= t < f.len() ==> f[t] == a[j].hashes@[t - 2]);
        assert(forall|t: int| 2 <= t < g.len() ==> g[t] == b[j].hashes@[t - 2]);
        assert(f[0] == g[0] && f[1] == g[1]);
        let (x, y) = (feature_words(a, lo, hi), feature_words(b, lo, hi));
        assert(x == head + f && y == head + g);
        let w = head.len() + 2 + at;
        assert(x[w] == f[2 + at] && y[w] == g[2 + at]);
        assert forall|t: int| 0 <= t < x.len() && t != w implies x[t] == y[t] by {
            if t >= head.len() {
                assert(x[t] == f[t - head.len()] && y[t] == g[t - head.len()]);
            }
        }
        w
    } else {
        assert(differ_in_an_item(p, q, j, at)) by {
            assert(p[j] == a[j] && q[j] == b[j]);
            assert forall|i: int| 0 <= i < p.len() && i != j implies p[i] == q[i] by {
                assert(a[i] == b[i]);
            }
        }
        assert(p[j] == a[j]);
        let w = lemma_one_item(p, q, j, at, lo, hi);
        assert(a.last() == a[a.len() - 1] && b.last() == b[a.len() - 1]);
        assert(a[a.len() - 1] == b[a.len() - 1]);
        w
    }
}

/// Another picture behind the same tokens gives the first block that it stands in another hash.
pub proof fn law_another_item_gives_another_hash(
    tokens: Seq<u32>,
    block_size: int,
    a: Seq<MultiModalFeature>,
    b: Seq<MultiModalFeature>,
    extra: Seq<u64>,
    j: int,
    at: int,
    i: int,
)
    requires
        block_size > 0,
        0 <= i,
        (i + 1) * block_size <= tokens.len(),
        differ_in_an_item(a, b, j, at),
        a[j].length > 0,
        i * block_size <= a[j].offset < (i + 1) * block_size,
    ensures
        block_hashes(tokens, block_size, a, extra)[i] != block_hashes(
            tokens,
            block_size,
            b,
            extra,
        )[i],
{
    lemma_block_bounds(i, block_size);
    let (lo, hi) = (i * block_size, (i + 1) * block_size);
    lemma_block_hash_at(tokens, block_size, a, extra, i);
    lemma_block_hash_at(tokens, block_size, b, extra, i);
    if i > 0 {
        assert(i * block_size == (i - 1 + 1) * block_size);
        lemma_media_behind(tokens, block_size, a, b, extra, j, at, i - 1);
    }
    let before = if i == 0 {
        HASH_SEED
    } else {
        block_hashes(tokens, block_size, a, extra)[i - 1]
    };
    let w = lemma_one_item(a, b, j, at, lo, hi);
    let (x, y) = (
        block_words(tokens, block_size, a, extra, i),
        block_words(tokens, block_size, b, extra, i),
    );
    let (fx, fy) = (feature_words(a, lo, hi), feature_words(b, lo, hi));
    let head = token_words(tokens.subrange(lo, hi));
    assert(x == head + fx + extra && y == head + fy + extra);
    assert(x[head.len() + w] == fx[w] && y[head.len() + w] == fy[w]);
    assert forall|t: int| 0 <= t < x.len() && t != head.len() + w implies x[t] == y[t] by {
        if head.len() <= t < head.len() + fx.len() {
            assert(x[t] == fx[t - head.len()] && y[t] == fy[t - head.len()]);
        }
    }
    lemma_one_word_tells_apart(before, x, y, head.len() + w);
}

/// Blocks before the first token of an item do not depend on it.
proof fn lemma_media_behind(
    tokens: Seq<u32>,
    block_size: int,
    a: Seq<MultiModalFeature>,
    b: Seq<MultiModalFeature>,
    extra: Seq<u64>,
    j: int,
    at: int,
    i: int,
)
    requires
        block_size > 0,
        0 <= i,
        (i + 1) * block_size <= tokens.len(),
        differ_in_an_item(a, b, j, at),
        (i + 1) * block_size <= a[j].offset,
    ensures
        block_hashes(tokens, block_size, a, extra)[i] == block_hashes(
            tokens,
            block_size,
            b,
            extra,
        )[i],
    decreases i,
{
    lemma_block_bounds(i, block_size);
    lemma_block_hash_at(tokens, block_size, a, extra, i);
    lemma_block_hash_at(tokens, block_size, b, extra, i);
    lemma_same_words(a, b, j, i * block_size, (i + 1) * block_size);
    if i > 0 {
        assert(i * block_size == (i - 1 + 1) * block_size);
        lemma_media_behind(tokens, block_size, a, b, extra, j, at, i - 1);
    }
}

proof fn lemma_same_words(
    a: Seq<MultiModalFeature>,
    b: Seq<MultiModalFeature>,
    j: int,
    lo: int,
    hi: int,
)
    requires
        a.len() == b.len(),
        0 <= j < a.len(),
        forall|i: int| 0 <= i < a.len() && i != j ==> a[i] == b[i],
        hi <= a[j].offset,
        a[j].offset == b[j].offset,
    ensures
        feature_words(a, lo, hi) == feature_words(b, lo, hi),
    decreases a.len(),
{
    let (p, q) = (a.drop_last(), b.drop_last());
    if j == a.len() - 1 {
        assert(p =~= q);
    } else {
        assert forall|i: int| 0 <= i < p.len() && i != j implies p[i] == q[i] by {
            assert(a[i] == b[i]);
        }
        lemma_same_words(p, q, j, lo, hi);
        assert(a[a.len() - 1] == b[a.len() - 1]);
    }
}

} // verus!
