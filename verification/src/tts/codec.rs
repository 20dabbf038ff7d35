//! The codec decoder, which turns codes into audio.

use vstd::prelude::*;

use crate::gguf::floats::FloatTensor;
use crate::gguf::model::{Linear, RmsNorm, SwiGLU};

verus! {

/// A causal convolution.
pub struct CausalConv1d {
    pub weight: FloatTensor,
    pub stride: usize,
}

/// A causal transposed convolution.
pub struct CausalConvTranspose1d {
    pub weight: FloatTensor,
    pub stride: usize,
}

/// A learned factor for each channel.
pub struct LayerScale {
    pub weight: FloatTensor,
}

/// Normalization of queries and keys.
pub struct QkNorm {
    pub q_norm: FloatTensor,
    pub k_norm: FloatTensor,
    pub n_heads: usize,
    pub head_dim: usize,
}

/// Attention within a sliding window.
pub struct CodecAttention {
    pub wq: Linear,
    pub wk: Linear,
    pub wv: Linear,
    pub wo: Linear,
    pub qk_norm: QkNorm,
    pub n_heads: usize,
    pub head_dim: usize,
    pub sliding_window: usize,
}

/// A transformer layer of the codec.
pub struct CodecTransformerLayer {
    pub attention_norm: RmsNorm,
    pub attention: CodecAttention,
    pub attention_scale: LayerScale,
    pub ffn_norm: RmsNorm,
    pub ffn: SwiGLU,
    pub ffn_scale: LayerScale,
}

/// The codebook of the vector quantizer: sums of embeddings, and how many each of
/// them is the sum of, as the bit patterns of 32-bit floats.
pub struct VqCodebook {
    pub embedding_sum: Vec<u32>,
    pub cluster_usage: Vec<u32>,
    pub n_entries: usize,
    pub embed_dim: usize,
}

/// The codec decoder.
pub struct CodecDecoder {
    pub input_conv: CausalConv1d,
    pub transformer_groups: Vec<Vec<CodecTransformerLayer>>,
    pub upsample_convs: Vec<CausalConvTranspose1d>,
    pub output_conv: CausalConv1d,
    pub vq_codebook: VqCodebook,
}

} // verus!
