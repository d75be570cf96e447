//! Paged attention: hashes of token blocks, the block pool behind the key and
//! value cache, and the scheduler that shares it between sequences.

pub mod block_hash;
pub mod call_laws;
pub mod decode_plan;
pub mod kv_cache_manager;
pub mod kv_laws;
pub mod prompt_laws;
pub mod prompt_plan;
pub mod scheduler;
pub mod sequence;
