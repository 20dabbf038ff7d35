//! Building blocks of transformers, with their weights.
//!
//! Floating-point parameters are the bit patterns of double-precision numbers.

use vstd::prelude::*;

use crate::gguf::floats::FloatTensor;
use crate::gguf::linear::{fused_gate_up, fused_qkv, Q4FusedGateUp, Q4FusedQKV, Q4Linear};
use crate::gguf::reader::GgmlDtype;

verus! {

/// Root-mean-square normalization.
pub struct RmsNorm {
    pub weight: FloatTensor,
    pub eps: u64,
}

/// Rotary position embedding for sequences of up to `max_seq_len` positions.
#[derive(Clone, Copy, Debug, PartialEq, Eq, Structural)]
pub struct RoPE {
    pub head_dim: usize,
    pub max_seq_len: usize,
    pub theta: u64,
}

/// Sinusoidal embedding of a point in time.
#[derive(Clone, Copy, Debug, PartialEq, Eq, Structural)]
pub struct TimeEmbedding {
    pub dim: usize,
}

/// A linear layer without a bias; the weights are `[out_features, in_features]`.
pub struct Linear {
    pub weight: FloatTensor,
}

/// Attention with grouped queries and quantized projections.
pub struct Q4Attention {
    pub wq: Q4Linear,
    pub wk: Q4Linear,
    pub wv: Q4Linear,
    pub wo: Q4Linear,
    pub fused_qkv: Option<Q4FusedQKV>,
    pub n_heads: usize,
    pub n_kv_heads: usize,
    pub head_dim: usize,
    pub sliding_window: Option<usize>,
}

impl Q4Attention {
    /// `self` is `old` with its projections fused, if they can be.
    pub open spec fn is_fused(self, old: Q4Attention) -> bool {
        &&& self == Q4Attention { fused_qkv: self.fused_qkv, ..old }
        &&& match self.fused_qkv {
            Some(f) => fused_qkv(old.wq@.weights, old.wk@.weights, old.wv@.weights) == Some(f@),
            None => fused_qkv(old.wq@.weights, old.wk@.weights, old.wv@.weights) is None,
        }
    }

    /// Fuses the projections of queries, keys and values, if they can be.
    pub fn fuse_projections(&mut self)
        ensures
            final(self).is_fused(*old(self)),
    {
        self.fused_qkv = Q4FusedQKV::fuse(
            self.wq.weights(),
            self.wk.weights(),
            self.wv.weights(),
        );
    }
}

/// A SwiGLU feed-forward layer with quantized projections.
pub struct Q4FeedForward {
    pub w1: Q4Linear,
    pub w2: Q4Linear,
    pub w3: Q4Linear,
    pub fused_gate_up: Option<Q4FusedGateUp>,
}

impl Q4FeedForward {
    /// `self` is `old` with its projections fused, if they can be.
    pub open spec fn is_fused(self, old: Q4FeedForward) -> bool {
        &&& self == Q4FeedForward { fused_gate_up: self.fused_gate_up, ..old }
        &&& match self.fused_gate_up {
            Some(f) => fused_gate_up(old.w1@.weights, old.w3@.weights) == Some(f@),
            None => fused_gate_up(old.w1@.weights, old.w3@.weights) is None,
        }
    }

    /// Fuses the projections `w1` and `w3`, which share their input, if they can be.
    pub fn fuse_projections(&mut self)
        ensures
            final(self).is_fused(*old(self)),
    {
        self.fused_gate_up = Q4FusedGateUp::fuse(self.w1.weights(), self.w3.weights());
    }
}

/// A SwiGLU feed-forward layer.
pub struct SwiGLU {
    pub w1: Linear,
    pub w2: Linear,
    pub w3: Linear,
}

/// The token embeddings.
pub enum TokEmbedStore {
    /// As floating-point numbers.
    F32(FloatTensor),
    /// As quantized blocks: one copy for the output projection, and one from
    /// which single rows are looked up.
    Q4 { lm_head: Q4Linear, cpu_bytes: Vec<u8>, quant_dtype: GgmlDtype },
}

} // verus!
