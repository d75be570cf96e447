//! The vision-language model PaddleOCR-VL: its images, its connector and the shape of
//! its decoder.

pub mod connector;
pub mod laws;
pub mod preprocess;
pub mod text;
