//! The backbone and the flow-matching transformer, with quantized weights.

use vstd::prelude::*;

use crate::gguf::floats::FloatTensor;
use crate::gguf::linear::Q4Linear;
use crate::gguf::model::{
    Linear, Q4Attention, Q4FeedForward, RmsNorm, RoPE, TimeEmbedding, TokEmbedStore,
};
use crate::tts::config::{FmTransformerConfig, TtsBackboneConfig};

verus! {

/// A decoder layer of the backbone.
pub struct Q4TtsDecoderLayer {
    pub attention_norm: RmsNorm,
    pub attention: Q4Attention,
    pub ffn_norm: RmsNorm,
    pub ffn: Q4FeedForward,
}

impl Q4TtsDecoderLayer {
    /// `self` is `old` with its projections fused, as far as they can be.
    pub open spec fn is_fused(self, old: Q4TtsDecoderLayer) -> bool {
        &&& self.attention_norm == old.attention_norm
        &&& self.attention.is_fused(old.attention)
        &&& self.ffn_norm == old.ffn_norm
        &&& self.ffn.is_fused(old.ffn)
    }
}

/// A layer of the flow-matching transformer.
pub struct Q4FmLayer {
    pub attention_norm: RmsNorm,
    pub attention: Q4Attention,
    pub ffn_norm: RmsNorm,
    pub ffn: Q4FeedForward,
}

/// The autoregressive backbone.
pub struct Q4TtsBackbone {
    pub layers: Vec<Q4TtsDecoderLayer>,
    pub norm: RmsNorm,
    pub tok_embeddings: TokEmbedStore,
    pub audio_codebook_embeddings: FloatTensor,
    pub rope: RoPE,
    pub config: TtsBackboneConfig,
}

impl Q4TtsBackbone {
    /// The number of decoder layers.
    pub fn n_layers(&self) -> (r: usize)
        ensures
            r == self.layers@.len(),
    {
        self.layers.len()
    }

    /// Fuses the projections of every layer, so that decoding takes fewer products.
    pub fn fuse_projections(&mut self)
        ensures
            *final(self) == (Q4TtsBackbone { layers: final(self).layers, ..*old(self) }),
            final(self).layers@.len() == old(self).layers@.len(),
            forall|i: int|
                0 <= i < old(self).layers@.len() ==> (#[trigger] final(self).layers@[i]).is_fused(
                    old(self).layers@[i],
                ),
    {
        let mut i: usize = 0;
        while i < self.layers.len()
            invariant
                i <= self.layers@.len(),
                *self == (Q4TtsBackbone { layers: self.layers, ..*old(self) }),
                self.layers@.len() == old(self).layers@.len(),
                forall|j: int|
                    0 <= j < i ==> (#[trigger] self.layers@[j]).is_fused(old(self).layers@[j]),
                forall|j: int|
                    i <= j < self.layers@.len() ==> #[trigger] self.layers@[j]
                        == old(self).layers@[j],
            decreases self.layers@.len() - i,
        {
            let layer: &mut Q4TtsDecoderLayer = &mut self.layers[i];
            layer.attention.fuse_projections();
            layer.ffn.fuse_projections();
            i = i + 1;
        }
    }

    /// The width of the residual stream.
    pub fn d_model(&self) -> (r: usize)
        ensures
            r == self.config.d_model,
    {
        self.config.d_model
    }
}

/// The flow-matching transformer.
pub struct Q4FmTransformer {
    pub time_embedding: TimeEmbedding,
    pub rope: RoPE,
    pub layers: Vec<Q4FmLayer>,
    pub llm_projection: Q4Linear,
    pub time_projection: Q4Linear,
    pub input_projection: Linear,
    pub semantic_codebook_output: Q4Linear,
    pub acoustic_codebook_output: Linear,
    pub norm: RmsNorm,
    pub config: FmTransformerConfig,
}

impl Q4FmTransformer {
    /// The configuration.
    pub fn config(&self) -> (r: &FmTransformerConfig)
        ensures
            *r == self.config,
    {
        &self.config
    }
}

} // verus!
