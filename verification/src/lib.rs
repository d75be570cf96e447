//! Planning core of an inference engine: what has to be decided before any
//! tensor is touched, with the decisions proved.

pub mod axes;
pub mod ffi;
pub mod layout;
pub mod lists;
pub mod loaders;
pub mod ops;
pub mod paddleocr_vl;
pub mod paged_attention;
pub mod tensor;
pub mod text;
