//! Direct convolution on the CPU for page layout models: how inputs and weights
//! are laid out, and which part of the work each task does.

use vstd::prelude::*;

pub mod conv;
pub mod cuda_kernels;
pub mod laws;
pub mod pack;
pub mod planes;
pub mod pool;
pub mod sums;
pub mod vectors;

verus! {

/// Output channels per register tile.
pub const OC_T: usize = 4;

/// Numbers per vector.
pub const LANES: usize = 8;

/// Vectors of pixels per register tile.
pub const MAX_XV: usize = 3;

/// What tail vectors may read past the last phase plane.
pub const SLACK: usize = 40;

/// Output columns per cache segment: two full register tiles.
pub const SEG_W: usize = 48;

/// Input numbers that one channel block may touch per segment.
pub const L1_INPUT_FLOATS: usize = 6144;

/// The smallest channel block.
pub const MIN_IC_BLOCK: usize = 4;

/// Pixels per task of a pointwise convolution.
pub const PW_CHUNK: usize = 192;

/// Weights that the tiles of one task may use.
pub const L2_WEIGHT_FLOATS: usize = 32768;

/// An activation that is applied as an output is stored.
#[derive(Debug, Clone, Copy, PartialEq, Eq, Structural)]
pub enum Act {
    Identity,
    Relu,
    Silu,
}

/// An activation of a model, as far as it matters here.
#[derive(Debug, Clone, Copy, PartialEq, Eq, Structural)]
pub enum Activation {
    Relu,
    Silu,
    Other,
}

impl Act {
    /// The activation that can be applied as an output is stored, if it can.
    pub fn from_candle(act: Option<Activation>) -> (r: Option<Act>)
        ensures
            r == (match act {
                None => Some(Act::Identity),
                Some(Activation::Relu) => Some(Act::Relu),
                Some(Activation::Silu) => Some(Act::Silu),
                Some(Activation::Other) => None,
            }),
    {
        match act {
            None => Some(Act::Identity),
            Some(Activation::Relu) => Some(Act::Relu),
            Some(Activation::Silu) => Some(Act::Silu),
            Some(Activation::Other) => None,
        }
    }
}

} // verus!
