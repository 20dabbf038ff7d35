//! Dimensions and constants of the model.
//!
//! Floating-point constants are given as the bit patterns of double-precision
//! numbers.

use vstd::prelude::*;

verus! {

/// The autoregressive backbone.
#[derive(Clone, Copy, Debug, PartialEq, Eq)]
pub struct TtsBackboneConfig {
    pub n_layers: usize,
    pub d_model: usize,
    pub n_heads: usize,
    pub n_kv_heads: usize,
    pub head_dim: usize,
    pub norm_eps: u64,
    pub rope_theta: u64,
}

/// The flow-matching transformer.
#[derive(Clone, Copy, Debug, PartialEq, Eq)]
pub struct FmTransformerConfig {
    pub n_layers: usize,
    pub dim: usize,
    pub n_heads: usize,
    pub n_kv_heads: usize,
    pub head_dim: usize,
    pub norm_eps: u64,
    pub rope_theta: u64,
}

/// The codec decoder.
#[derive(Clone, Copy, Debug, PartialEq, Eq)]
pub struct CodecDecoderConfig {
    pub layers_per_block: usize,
    pub sliding_windows: [usize; 4],
    pub n_heads: usize,
    pub head_dim: usize,
    pub norm_eps: u64,
}

impl TtsBackboneConfig {
    /// The backbone of the 4B model.
    pub open spec fn standard() -> TtsBackboneConfig {
        TtsBackboneConfig {
            n_layers: 26,
            d_model: 3072,
            n_heads: 32,
            n_kv_heads: 8,
            head_dim: 128,
            // 1e-5
            norm_eps: 0x3EE4_F8B5_88E3_68F1,
            // 1e6
            rope_theta: 0x412E_8480_0000_0000,
        }
    }
}

impl Default for TtsBackboneConfig {
    fn default() -> (r: Self)
        ensures
            r == Self::standard(),
    {
        TtsBackboneConfig {
            n_layers: 26,
            d_model: 3072,
            n_heads: 32,
            n_kv_heads: 8,
            head_dim: 128,
            norm_eps: 0x3EE4_F8B5_88E3_68F1,
            rope_theta: 0x412E_8480_0000_0000,
        }
    }
}

impl FmTransformerConfig {
    /// The flow-matching transformer of the 4B model.
    pub open spec fn standard() -> FmTransformerConfig {
        FmTransformerConfig {
            n_layers: 3,
            dim: 3072,
            n_heads: 32,
            n_kv_heads: 8,
            head_dim: 128,
            // 1e-5
            norm_eps: 0x3EE4_F8B5_88E3_68F1,
            // 1e4
            rope_theta: 0x40C3_8800_0000_0000,
        }
    }
}

impl Default for FmTransformerConfig {
    fn default() -> (r: Self)
        ensures
            r == Self::standard(),
    {
        FmTransformerConfig {
            n_layers: 3,
            dim: 3072,
            n_heads: 32,
            n_kv_heads: 8,
            head_dim: 128,
            norm_eps: 0x3EE4_F8B5_88E3_68F1,
            rope_theta: 0x40C3_8800_0000_0000,
        }
    }
}

impl CodecDecoderConfig {
    /// The codec decoder of the 4B model: the attention windows double from
    /// block to block, as the sampling rate does.
    pub open spec fn standard() -> CodecDecoderConfig {
        CodecDecoderConfig {
            layers_per_block: 2,
            sliding_windows: [2, 4, 8, 16],
            n_heads: 8,
            head_dim: 128,
            // 1e-2
            norm_eps: 0x3F84_7AE1_47AE_147B,
        }
    }
}

impl Default for CodecDecoderConfig {
    fn default() -> (r: Self)
        ensures
            r == Self::standard(),
    {
        CodecDecoderConfig {
            layers_per_block: 2,
            sliding_windows: [2, 4, 8, 16],
            n_heads: 8,
            head_dim: 128,
            norm_eps: 0x3F84_7AE1_47AE_147B,
        }
    }
}

} // verus!
