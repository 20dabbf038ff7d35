//! What was being loaded when an error came up.

use vstd::prelude::*;

use crate::gguf::names::{decimal, joined, numbered};

verus! {

/// What was being loaded when an error came up.
#[derive(Clone, Copy, Debug, PartialEq, Eq, Structural)]
pub enum Context {
    BackboneLayer { index: usize },
    AudioCodebook,
    LlmProjection,
    TimeProjection,
    InputProjection,
    SemanticCodebookOutput,
    AcousticCodebookOutput,
    FmLayer { index: usize },
    FmNorm,
    InputConv,
    TransformerBlock { block: usize, layer: usize },
    UpsampleConv { block: usize },
    OutputConv,
    Wq,
    Wk,
    Wv,
    Wo,
    QNorm,
    KNorm,
    AttentionScale,
    FfnScale,
    AttentionNorm,
    FfnNorm,
    EmbeddingSum,
    ClusterUsage,
}

impl Context {
    /// The wording.
    pub open spec fn text(self) -> Seq<char> {
        match self {
            Context::BackboneLayer { index } => "Failed to load backbone layer "@ + decimal(
                index as nat,
            ),
            Context::AudioCodebook => "Loading audio codebook embeddings"@,
            Context::LlmProjection => "loading llm_projection"@,
            Context::TimeProjection => "loading time_projection"@,
            Context::InputProjection => "loading input_projection"@,
            Context::SemanticCodebookOutput => "loading semantic_codebook_output"@,
            Context::AcousticCodebookOutput => "loading acoustic_codebook_output"@,
            Context::FmLayer { index } => "loading FM layer "@ + decimal(index as nat),
            Context::FmNorm => "loading FM norm"@,
            Context::InputConv => "Loading input conv weight"@,
            Context::TransformerBlock { block, layer } => "Loading transformer block "@ + decimal(
                block as nat,
            ) + " layer "@ + decimal(layer as nat),
            Context::UpsampleConv { block } => "Loading upsample conv (block "@ + decimal(
                block as nat,
            ) + ")"@,
            Context::OutputConv => "Loading output conv"@,
            Context::Wq => "Loading wq"@,
            Context::Wk => "Loading wk"@,
            Context::Wv => "Loading wv"@,
            Context::Wo => "Loading wo"@,
            Context::QNorm => "Loading q_norm"@,
            Context::KNorm => "Loading k_norm"@,
            Context::AttentionScale => "Loading attention_scale"@,
            Context::FfnScale => "Loading ffn_scale"@,
            Context::AttentionNorm => "Loading attention_norm"@,
            Context::FfnNorm => "Loading ffn_norm"@,
            Context::EmbeddingSum => "Reading VQ embedding_sum bytes"@,
            Context::ClusterUsage => "Reading VQ cluster_usage bytes"@,
        }
    }

    /// What was being loaded.
    pub fn message(&self) -> (r: String)
        ensures
            r@ == self.text(),
    {
        match *self {
            Context::BackboneLayer { index } => numbered("Failed to load backbone layer ", index),
            Context::AudioCodebook => "Loading audio codebook embeddings".to_owned(),
            Context::LlmProjection => "loading llm_projection".to_owned(),
            Context::TimeProjection => "loading time_projection".to_owned(),
            Context::InputProjection => "loading input_projection".to_owned(),
            Context::SemanticCodebookOutput => "loading semantic_codebook_output".to_owned(),
            Context::AcousticCodebookOutput => "loading acoustic_codebook_output".to_owned(),
            Context::FmLayer { index } => numbered("loading FM layer ", index),
            Context::FmNorm => "loading FM norm".to_owned(),
            Context::InputConv => "Loading input conv weight".to_owned(),
            Context::TransformerBlock { block, layer } => {
                let s: String = numbered("Loading transformer block ", block);
                let s: String = joined(s.as_str(), " layer ");
                numbered(s.as_str(), layer)
            },
            Context::UpsampleConv { block } => {
                let s: String = numbered("Loading upsample conv (block ", block);
                joined(s.as_str(), ")")
            },
            Context::OutputConv => "Loading output conv".to_owned(),
            Context::Wq => "Loading wq".to_owned(),
            Context::Wk => "Loading wk".to_owned(),
            Context::Wv => "Loading wv".to_owned(),
            Context::Wo => "Loading wo".to_owned(),
            Context::QNorm => "Loading q_norm".to_owned(),
            Context::KNorm => "Loading k_norm".to_owned(),
            Context::AttentionScale => "Loading attention_scale".to_owned(),
            Context::FfnScale => "Loading ffn_scale".to_owned(),
            Context::AttentionNorm => "Loading attention_norm".to_owned(),
            Context::FfnNorm => "Loading ffn_norm".to_owned(),
            Context::EmbeddingSum => "Reading VQ embedding_sum bytes".to_owned(),
            Context::ClusterUsage => "Reading VQ cluster_usage bytes".to_owned(),
        }
    }
}

} // verus!
