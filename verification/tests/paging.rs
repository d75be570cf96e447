use inference::lists::contains_index;
use inference::paged_attention::block_hash::{
    clamp_cached_tokens, compute_block_hashes, extend_block_hashes, ItemRange, MultiModalFeature,
    MultimodalAttentionPolicy, MultimodalKind,
};
use inference::paged_attention::decode_plan::{plan_step, DecodeConfig, DecodeRow};
use inference::paged_attention::kv_cache_manager::KvCacheManager;
use inference::paged_attention::prompt_plan::{
    is_compatible, plan_batch, rotate, PlanConfig, PromptChunk, PromptInfo,
};
use inference::paged_attention::sequence::{
    modality_signature, Sequence, SequenceState, SpeculativePrefixCheckpointPolicy,
    SpeculativePrefixReplay, StopReason,
};

fn feature(kind: MultimodalKind, hash: u64, offset: usize, length: usize) -> MultiModalFeature {
    MultiModalFeature {
        kind,
        item_range: ItemRange { start: 0, end: 1 },
        hashes: vec![hash],
        offset,
        length,
        attention_policy: MultimodalAttentionPolicy::Causal,
        splittable: false,
    }
}

fn one_step(h: u64, word: u64) -> u64 {
    let x = (h ^ word).wrapping_mul(0x0000_0100_0000_01b3);
    x ^ (x >> 32)
}

#[test]
fn hashes_follow_the_tokens() {
    let none: Vec<MultiModalFeature> = vec![];
    let hashes = compute_block_hashes(&vec![1, 2, 3, 4, 5], 2, &none, &vec![]);
    let first = one_step(one_step(0xcbf2_9ce4_8422_2325, 1), 2);
    let second = one_step(one_step(first, 3), 4);
    assert_eq!(hashes, vec![first, second]);
    let keyed = compute_block_hashes(&vec![1, 2], 2, &none, &vec![9]);
    assert_eq!(keyed, vec![one_step(first, 9)]);
    let mut grown = compute_block_hashes(&vec![1, 2, 3], 2, &none, &vec![]);
    assert_eq!(grown, vec![first]);
    extend_block_hashes(&mut grown, &vec![1, 2, 3, 4, 5], 2, &none, &vec![]);
    assert_eq!(grown, hashes);
}

#[test]
fn media_change_the_hashes_of_their_blocks() {
    let tokens = vec![1, 2, 3, 4, 5, 6];
    let plain = compute_block_hashes(&tokens, 2, &vec![], &vec![]);
    let image = feature(MultimodalKind::Image, 77, 2, 2);
    let with_image = compute_block_hashes(&tokens, 2, &vec![image], &vec![]);
    assert_eq!(with_image[0], plain[0]);
    let block = one_step(one_step(one_step(one_step(one_step(plain[0], 3), 4), 1), 2), 77);
    assert_eq!(with_image[1], block);
    assert_ne!(with_image[2], plain[2]);
    let other = feature(MultimodalKind::Image, 78, 2, 2);
    assert_ne!(compute_block_hashes(&tokens, 2, &vec![other], &vec![])[1], block);
    let audio = feature(MultimodalKind::Audio, 77, 2, 2);
    assert_ne!(compute_block_hashes(&tokens, 2, &vec![audio], &vec![])[1], block);
}

#[test]
fn cached_prefixes_cut_no_media() {
    let image = feature(MultimodalKind::Image, 7, 6, 5);
    assert_eq!(clamp_cached_tokens(&vec![image.clone()], 8, 4), 4);
    assert_eq!(clamp_cached_tokens(&vec![image.clone()], 12, 4), 12);
    assert_eq!(clamp_cached_tokens(&vec![image.clone()], 4, 4), 4);
    let splittable = MultiModalFeature { splittable: true, ..image.clone() };
    assert_eq!(clamp_cached_tokens(&vec![splittable], 8, 4), 8);
    // A boundary that leaves one feature whole may cut the one before it.
    let before = feature(MultimodalKind::Audio, 7, 1, 5);
    assert_eq!(clamp_cached_tokens(&vec![image, before], 8, 4), 0);
}

#[test]
fn blocks_are_handed_out_and_taken_back() {
    let mut kv = KvCacheManager::new(4, 6);
    assert_eq!((kv.capacity(), kv.block_size(), kv.num_free_blocks()), (5, 4, 5));
    assert_eq!(kv.allocate_slots(7, 9, &vec![]), Some(vec![1, 2, 3]));
    assert_eq!(kv.get_block_ids(7), Some(vec![1, 2, 3]));
    assert_eq!((kv.num_blocks_for_request(7), kv.num_active_blocks()), (3, 3));
    assert_eq!(kv.allocate_slots(7, 12, &vec![]), Some(vec![]));
    assert_eq!(kv.allocate_slots(8, 12, &vec![]), None);
    assert!(!kv.has_request(8));
    assert_eq!(kv.num_free_blocks(), 2);
    assert!(kv.can_allocate_slots(8, 8, &vec![]));
    assert!(!kv.can_allocate_slots(8, 9, &vec![]));
    assert!(kv.has_room_for(8));
    assert!(!kv.has_room_for(9));
    assert!(!kv.needs_more_than_there_is(20));
    assert!(kv.needs_more_than_there_is(21));
    kv.free(7);
    assert_eq!(kv.get_block_ids(7), None);
    // Blocks come back last first, behind those that were free.
    assert_eq!(kv.allocate_slots(9, 20, &vec![]), Some(vec![4, 5, 3, 2, 1]));
}

#[test]
fn reserved_blocks_stay_for_their_request() {
    let mut kv = KvCacheManager::new(4, 6);
    assert_eq!(kv.allocate_slots(1, 4, &vec![]), Some(vec![1]));
    assert!(kv.reserve_slots(1, 16));
    assert_eq!(kv.num_reserved_blocks(), 3);
    assert_eq!(kv.allocate_slots(2, 8, &vec![]), None);
    assert_eq!(kv.allocate_slots(2, 4, &vec![]), Some(vec![2]));
    assert!(!kv.reserve_slots(2, 8));
    assert!(!kv.reserve_slots(3, 4));
    assert_eq!(kv.allocate_slots(1, 16, &vec![]), Some(vec![3, 4, 5]));
    assert_eq!(kv.num_reserved_blocks(), 0);
}

#[test]
fn cached_blocks_are_found_again() {
    let mut kv = KvCacheManager::new(4, 6);
    kv.allocate_slots(1, 9, &vec![]);
    kv.cache_blocks(1, &vec![10, 20, 30], 9);
    assert_eq!(kv.num_cached_blocks(1), 2);
    let found = kv.get_computed_blocks(&vec![10, 20, 30], 12);
    assert_eq!((found.block_ids, found.num_computed_tokens), (vec![1, 2], 8));
    // The last token of a prompt is always computed.
    let found = kv.get_computed_blocks(&vec![10, 20], 8);
    assert_eq!((found.block_ids, found.num_computed_tokens), (vec![1], 4));
    let found = kv.get_computed_blocks(&vec![99, 20], 12);
    assert_eq!((found.block_ids, found.num_computed_tokens), (vec![], 0));
    kv.free(1);
    let found = kv.get_computed_blocks(&vec![10, 20, 30], 12);
    assert_eq!(found.block_ids, vec![1, 2]);
    assert_eq!(kv.allocate_slots(2, 12, &found.block_ids), Some(vec![4]));
    assert_eq!(kv.get_block_ids(2), Some(vec![1, 2, 4]));
    assert_eq!(kv.num_cached_blocks(2), 2);
    // Two requests may hold the same block.
    assert_eq!(kv.allocate_slots(3, 8, &vec![1, 2]), Some(vec![]));
    kv.free(2);
    assert_eq!(kv.get_block_ids(3), Some(vec![1, 2]));
    assert_eq!(kv.num_active_blocks(), 2);
    // A block that is handed out anew loses its hash.
    kv.free(3);
    kv.allocate_slots(4, 20, &vec![]);
    assert_eq!(kv.get_computed_blocks(&vec![10, 20], 12).num_computed_tokens, 0);
}

#[test]
fn blocks_cached_bit_by_bit_are_found_again() {
    let mut kv = KvCacheManager::new(4, 6);
    kv.allocate_slots(1, 12, &vec![]);
    kv.cache_blocks(1, &vec![10], 4);
    kv.cache_blocks(1, &vec![10, 20, 30], 12);
    assert_eq!(kv.num_cached_blocks(1), 3);
    kv.free(1);
    assert_eq!(kv.get_computed_blocks(&vec![10, 20, 30], 13).block_ids, vec![1, 2, 3]);
}

fn prompt(id: usize, start: usize, len: usize) -> PromptInfo {
    PromptInfo {
        id,
        start,
        len,
        signature: 0,
        raw_logits: false,
        has_features: false,
        media_pending: false,
        replay: 0,
    }
}

fn plan() -> PlanConfig {
    PlanConfig {
        budget: 10,
        quantum: 4,
        max_num_seqs: 4,
        block_size: 4,
        mixed: false,
        visible_chunks: true,
        aligned: false,
        prefix_caching: false,
        packed: false,
        recurrent: false,
        uniform: false,
        uniform_media: false,
    }
}

#[test]
fn prompts_share_a_budget() {
    let batch = plan_batch(&plan(), &vec![prompt(1, 0, 20), prompt(2, 0, 12), prompt(3, 0, 50)]);
    assert_eq!(batch.scheduled, vec![1, 2]);
    assert_eq!(batch.chunk_size, Some(5));
    assert_eq!(
        batch.chunks,
        Some(vec![PromptChunk { start: 0, end: 5 }, PromptChunk { start: 0, end: 5 }])
    );
    assert_eq!(batch.next, Some(3));
    let none = plan_batch(&plan(), &vec![]);
    assert!(none.scheduled.is_empty() && none.chunk_size.is_none() && none.next.is_none());
}

#[test]
fn prompts_that_cannot_be_cut_go_alone() {
    let whole = PromptInfo { raw_logits: true, ..prompt(1, 0, 20) };
    assert!(whole.is_atomic());
    let batch = plan_batch(&plan(), &vec![whole, prompt(2, 0, 20)]);
    assert_eq!(batch.scheduled, vec![1]);
    assert_eq!((batch.chunk_size, batch.chunks, batch.next), (None, None, Some(2)));
}

#[test]
fn parts_end_at_block_boundaries() {
    let cfg = PlanConfig { aligned: true, ..plan() };
    let batch = plan_batch(&cfg, &vec![prompt(1, 0, 30)]);
    assert_eq!(batch.chunks, Some(vec![PromptChunk { start: 0, end: 8 }]));
    let last = plan_batch(&cfg, &vec![prompt(1, 24, 30)]);
    assert_eq!(last.chunks, Some(vec![PromptChunk { start: 24, end: 30 }]));
    let cached = PlanConfig { prefix_caching: true, ..cfg };
    let batch = plan_batch(&cached, &vec![prompt(1, 20, 30)]);
    assert_eq!(batch.chunks, Some(vec![PromptChunk { start: 20, end: 28 }]));
}

#[test]
fn compatible_prompts() {
    let cfg = plan();
    let one = prompt(1, 0, 20);
    assert!(is_compatible(&cfg, &one, &prompt(2, 0, 40)));
    assert!(!is_compatible(&cfg, &one, &prompt(2, 0, 41)));
    assert!(!is_compatible(&cfg, &one, &prompt(2, 1, 20)));
    assert!(is_compatible(&PlanConfig { packed: true, ..cfg }, &one, &prompt(2, 0, 41)));
    assert!(!is_compatible(&PlanConfig { uniform: true, ..cfg }, &one, &prompt(2, 0, 21)));
    let image = PromptInfo { signature: 1, ..prompt(2, 0, 20) };
    assert!(is_compatible(&cfg, &one, &image));
    assert!(!is_compatible(&PlanConfig { uniform_media: true, ..cfg }, &one, &image));
    let raw = PromptInfo { raw_logits: true, ..prompt(2, 0, 20) };
    assert!(!is_compatible(&cfg, &one, &raw));
}

#[test]
fn prompts_take_turns() {
    let prompts = vec![prompt(1, 0, 2), prompt(2, 0, 2), prompt(3, 0, 2)];
    let ids = |next| rotate(&prompts, next).iter().map(|p| p.id).collect::<Vec<usize>>();
    assert_eq!(ids(Some(2)), vec![2, 3, 1]);
    assert_eq!(ids(Some(9)), vec![1, 2, 3]);
    assert_eq!(ids(None), vec![1, 2, 3]);
}

#[test]
fn decode_steps_stay_within_the_budget() {
    let row = |id, staged| DecodeRow { id, staged };
    let cfg = DecodeConfig { budget: 6, max_num_seqs: 3 };
    let rows = vec![row(1, 0), row(2, 2), row(3, 0), row(4, 0), row(5, 0)];
    let step = plan_step(&cfg, &rows, 0);
    assert_eq!((step.ids, step.next_cursor), (vec![1, 3, 4], 1));
    let step = plan_step(&cfg, &rows, 1);
    assert_eq!((step.ids, step.next_cursor), (vec![2], 2));
    let step = plan_step(&cfg, &rows, 3);
    assert_eq!((step.ids, step.next_cursor), (vec![4, 5, 1], 1));
    // One row alone may exceed the budget.
    let step = plan_step(&cfg, &vec![row(1, usize::MAX), row(2, 1)], 7);
    assert_eq!((step.ids, step.next_cursor), (vec![1], 1));
    assert!(plan_step(&cfg, &vec![], 0).ids.is_empty());
}

#[test]
fn sequences_know_their_media() {
    let mut seq = Sequence::new_waiting(vec![1, 2, 3], 4, 1, 0, 2);
    assert_eq!((seq.id(), seq.len()), (4, 3));
    assert!(matches!(seq.getstate(), SequenceState::Waiting));
    assert_eq!(modality_signature(&seq), 1 + 4);
    assert!(seq.has_images());
    assert_eq!(seq.take_images(), 1);
    assert!(!seq.has_images());
    assert_eq!(modality_signature(&seq), 4);
    seq.set_mm_features(vec![feature(MultimodalKind::Audio, 1, 0, 2)]);
    assert_eq!(modality_signature(&seq), 2 + 4);
    seq.set_state(SequenceState::Done(StopReason::Eos));
    assert!(seq.getstate().is_finished());
    assert!(!seq.is_prompt() && !seq.is_completion());
    seq.set_num_computed_tokens(2);
    seq.set_prefix_cache_len(9);
    assert_eq!(seq.next_token(), 3);
}

#[test]
fn replays_of_text_can_be_exempt() {
    let policy = SpeculativePrefixCheckpointPolicy::new(SpeculativePrefixReplay::Suffix(3), true);
    assert!(matches!(policy.replay_for(0), SpeculativePrefixReplay::Nothing));
    assert!(matches!(policy.replay_for(1), SpeculativePrefixReplay::Suffix(3)));
    let seq = Sequence::new_waiting(vec![1, 2, 3], 4, 1, 0, 0);
    let info = seq.prompt_info(&policy);
    assert_eq!((info.replay, info.len, info.start), (3, 3, 0));
    assert!(info.media_pending);
    let info = seq.prompt_info(&SpeculativePrefixCheckpointPolicy::default());
    assert_eq!(info.replay, 0);
}

#[test]
fn list_membership() {
    assert!(contains_index(&vec![3, 1, 2], 1));
    assert!(!contains_index(&vec![3, 1, 2], 4));
    assert!(!contains_index(&vec![], 0));
}
