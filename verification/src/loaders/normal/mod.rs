//! Text models.

pub mod auto;
pub mod deepseek3;
pub mod granite;
pub mod laws;
pub mod lfm2;
pub mod qwen3_next;
