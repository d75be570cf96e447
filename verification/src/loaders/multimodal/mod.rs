//! Models that read images, audio or video besides text.

use vstd::prelude::*;

use crate::loaders::sizes::{
    biased_linear, biased_linear_elems, biased_linear_fits, patch_conv, patch_conv_elems,
    patch_conv_fits, square_patches, square_patches_elems, square_patches_fits, word,
};

pub mod diffusion_gemma;
pub mod laws;
pub mod lfm2vl;
pub mod minicpm_o;
pub mod mistral3;
pub mod muse_glimmer;
pub mod phi4mm;
pub mod qwen2vl;
pub mod qwen3_5_moe;
pub mod qwen3vl;
pub mod vllama;
pub mod vllama4;
pub mod voxtral;

verus! {

/// What the sizes of a SigLIP vision tower depend on.
#[derive(Debug, Clone, Copy, PartialEq, Eq, Structural)]
pub struct SiglipConfig {
    pub hidden_size: usize,
    pub intermediate_size: usize,
    pub num_hidden_layers: usize,
    pub num_attention_heads: usize,
    pub num_channels: usize,
    pub image_size: usize,
    pub patch_size: usize,
}

/// What the size of a CLIP vision tower depends on.
#[derive(Debug, Clone, Copy, PartialEq, Eq, Structural)]
pub struct ClipConfig {
    pub hidden_size: usize,
    pub intermediate_size: usize,
    pub num_hidden_layers: usize,
    pub num_channels: usize,
    pub image_size: usize,
    pub patch_size: usize,
}

/// A CLIP vision tower.
pub open spec fn clip_vit_elems(cfg: ClipConfig) -> int {
    let hidden = cfg.hidden_size as int;
    let width = cfg.intermediate_size as int;
    let layers = cfg.num_hidden_layers as int;
    let channels = cfg.num_channels as int;
    let image = cfg.image_size as int;
    let patch = cfg.patch_size as int;
    let patches = square_patches_elems(image, patch);
    let positions = patches + 1;
    let position_embedding = positions * hidden;
    let patch_embedding = patch_conv_elems(channels, hidden, patch);
    let proj = biased_linear_elems(hidden, hidden);
    let fc1 = biased_linear_elems(hidden, width);
    let fc2 = biased_linear_elems(width, hidden);
    let layer = hidden + hidden + proj + proj + proj + proj + fc1 + fc2;
    hidden + hidden + hidden + positions + position_embedding + patch_embedding + layers * layer
}

/// Every step of `clip_vit` fits a machine word.
pub open spec fn clip_vit_fits(cfg: ClipConfig) -> bool {
    let hidden = cfg.hidden_size as int;
    let width = cfg.intermediate_size as int;
    let layers = cfg.num_hidden_layers as int;
    let channels = cfg.num_channels as int;
    let image = cfg.image_size as int;
    let patch = cfg.patch_size as int;
    let patches = square_patches_elems(image, patch);
    let positions = patches + 1;
    let position_embedding = positions * hidden;
    let patch_embedding = patch_conv_elems(channels, hidden, patch);
    let proj = biased_linear_elems(hidden, hidden);
    let fc1 = biased_linear_elems(hidden, width);
    let fc2 = biased_linear_elems(width, hidden);
    let layer = hidden + hidden + proj + proj + proj + proj + fc1 + fc2;
    &&& square_patches_fits(image, patch)
    &&& word(patches + 1)
    &&& word(positions * hidden)
    &&& patch_conv_fits(channels, hidden, patch)
    &&& biased_linear_fits(hidden, hidden)
    &&& biased_linear_fits(hidden, width)
    &&& biased_linear_fits(width, hidden)
    &&& word(hidden + hidden + proj + proj + proj + proj + fc1 + fc2)
    &&& word(layers * layer)
    &&& word(
        hidden + hidden + hidden + positions + position_embedding + patch_embedding
            + layers * layer,
    )
}

/// A CLIP vision tower.
pub fn get_clip_vit_num_elems(cfg: &ClipConfig) -> (r: usize)
    requires
        clip_vit_fits(*cfg),
    ensures
        r == clip_vit_elems(*cfg),
{
    let hidden: usize = cfg.hidden_size;
    let width: usize = cfg.intermediate_size;
    let layers: usize = cfg.num_hidden_layers;
    let channels: usize = cfg.num_channels;
    let image: usize = cfg.image_size;
    let patch: usize = cfg.patch_size;
    let patches: usize = square_patches(image, patch);
    let positions: usize = patches + 1;
    let position_embedding: usize = positions * hidden;
    let patch_embedding: usize = patch_conv(channels, hidden, patch);
    let proj: usize = biased_linear(hidden, hidden);
    let fc1: usize = biased_linear(hidden, width);
    let fc2: usize = biased_linear(width, hidden);
    let layer: usize = hidden + hidden + proj + proj + proj + proj + fc1 + fc2;
    hidden + hidden + hidden + positions + position_embedding + patch_embedding + layers * layer
}

} // verus!
