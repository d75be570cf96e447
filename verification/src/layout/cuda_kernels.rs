//! The kernels for CUDA devices: their names, and the text that is compiled.

use vstd::prelude::*;

use crate::text::{decimal, push_decimal};

verus! {

/// The module that holds the kernels.
pub const MODULE: &'static str = "inference_layout";

/// Depthwise convolution.
pub const DEPTHWISE: &'static str = "depthwise_conv2d_f32";

/// Columns of a dense convolution.
pub const IM2COL: &'static str = "im2col_cols_last_f32";

/// The box of each mask.
pub const MASK_TO_BOX: &'static str = "mask_to_box_f32";

/// Threads per block of the mask kernel; also the size of what they share.
pub const MASK_TO_BOX_BLOCK: u32 = 256;

/// Deformable attention over several levels.
pub const MS_DEFORM_ATTN: &'static str = "ms_deform_attn_f32";

/// The text that is compiled: the block size, and the kernels.
pub fn kernel_source(kernels: &str) -> (r: String)
    ensures
        r@ == "#define MASK_TO_BOX_BLOCK "@ + decimal(MASK_TO_BOX_BLOCK as nat) + "\n"@ + kernels@,
{
    let mut text: String = "#define MASK_TO_BOX_BLOCK ".to_string();
    push_decimal(&mut text, MASK_TO_BOX_BLOCK as usize);
    text.append("\n");
    text.append(kernels);
    text
}

/// The text of a failed compilation.
pub fn compilation_failed(detail: &str) -> (r: String)
    ensures
        r@ == "nvrtc layout kernels: "@ + detail@,
{
    let mut text: String = "nvrtc layout kernels: ".to_string();
    text.append(detail);
    text
}

} // verus!
