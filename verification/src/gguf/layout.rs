//! Which tensors of a file make up the model, and as what they are wanted.
//!
//! For each component there is the list of its tensors, in the order in which they
//! are loaded, and what the component is when all of them load.

use vstd::prelude::*;

use crate::gguf::context::Context;
use crate::gguf::floats::singles;
use crate::gguf::linear::Q4Linear;
use crate::gguf::loader::{shape_of, within, Purpose, Slot};
use crate::gguf::model::{Linear, Q4Attention, Q4FeedForward, RmsNorm, RoPE, TimeEmbedding};
use crate::gguf::names::decimal;
use crate::gguf::reader::GgufFile;
use crate::gguf::tts_model::{Q4FmLayer, Q4FmTransformer, Q4TtsBackbone, Q4TtsDecoderLayer};
use crate::tts::codec::{CausalConvTranspose1d, CodecDecoder, CodecTransformerLayer, VqCodebook};
use crate::tts::config::{CodecDecoderConfig, FmTransformerConfig, TtsBackboneConfig};

verus! {

/// A tensor that is wanted as a part of nothing else.
pub open spec fn plain(name: Seq<char>, purpose: Purpose) -> Slot {
    Slot { name, purpose, context: Seq::empty() }
}

/// A tensor that is wanted as floats.
pub open spec fn floats(name: Seq<char>, rank: usize) -> Slot {
    plain(name, Purpose::Floats { rank })
}

/// A tensor that is wanted as a quantized matrix.
pub open spec fn quantized(name: Seq<char>) -> Slot {
    plain(name, Purpose::Quantized)
}

impl RmsNorm {
    pub open spec fn loaded_from(self, file: GgufFile, name: Seq<char>, eps: u64) -> bool {
        &&& self.weight@ == file.float_value(name)
        &&& self.eps == eps
    }
}

impl Linear {
    pub open spec fn loaded_from(self, file: GgufFile, name: Seq<char>) -> bool {
        self.weight@ == file.float_value(name)
    }
}

impl Q4Linear {
    pub open spec fn loaded_from(self, file: GgufFile, name: Seq<char>) -> bool {
        &&& self@.weights == file.quantized_value(name)
        &&& self@.bias is None
    }
}

// ---- Decoder layers of the backbone and of the flow-matching transformer ----

/// The tensors of a decoder layer.
pub open spec fn decoder_layer_slots(prefix: Seq<char>) -> Seq<Slot> {
    seq![
        floats(prefix + ".attention_norm.weight"@, 1),
        quantized(prefix + ".attention.wq.weight"@),
        quantized(prefix + ".attention.wk.weight"@),
        quantized(prefix + ".attention.wv.weight"@),
        quantized(prefix + ".attention.wo.weight"@),
        floats(prefix + ".ffn_norm.weight"@, 1),
        quantized(prefix + ".feed_forward.w1.weight"@),
        quantized(prefix + ".feed_forward.w2.weight"@),
        quantized(prefix + ".feed_forward.w3.weight"@),
    ]
}

/// Where decoder layers stand.
pub enum Tower {
    Backbone,
    FlowMatching,
}

impl Tower {
    /// What stands before the number of a layer in the names of its tensors.
    pub open spec fn prefix(self) -> Seq<char> {
        match self {
            Tower::Backbone => "layers."@,
            Tower::FlowMatching => "acoustic_transformer.layers."@,
        }
    }

    /// The tensors of layer number `i`.
    pub open spec fn layer_slots(self, i: nat) -> Seq<Slot> {
        decoder_layer_slots(self.prefix() + decimal(i))
    }

    /// What is being loaded with layer number `i`.
    pub open spec fn layer_context(self, i: nat) -> Context {
        match self {
            Tower::Backbone => Context::BackboneLayer { index: i as usize },
            Tower::FlowMatching => Context::FmLayer { index: i as usize },
        }
    }

    /// The tensors of the first `n` layers.
    pub open spec fn slots(self, n: nat) -> Seq<Slot>
        decreases n,
    {
        if n == 0 {
            Seq::empty()
        } else {
            self.slots((n - 1) as nat) + within(
                self.layer_context((n - 1) as nat),
                self.layer_slots((n - 1) as nat),
            )
        }
    }
}

impl Q4Attention {
    pub open spec fn loaded_from(
        self,
        file: GgufFile,
        prefix: Seq<char>,
        n_heads: usize,
        n_kv_heads: usize,
        head_dim: usize,
    ) -> bool {
        &&& self.wq.loaded_from(file, prefix + ".attention.wq.weight"@)
        &&& self.wk.loaded_from(file, prefix + ".attention.wk.weight"@)
        &&& self.wv.loaded_from(file, prefix + ".attention.wv.weight"@)
        &&& self.wo.loaded_from(file, prefix + ".attention.wo.weight"@)
        &&& self.fused_qkv is None
        &&& self.n_heads == n_heads
        &&& self.n_kv_heads == n_kv_heads
        &&& self.head_dim == head_dim
        &&& self.sliding_window is None
    }
}

impl Q4FeedForward {
    pub open spec fn loaded_from(self, file: GgufFile, prefix: Seq<char>) -> bool {
        &&& self.w1.loaded_from(file, prefix + ".feed_forward.w1.weight"@)
        &&& self.w2.loaded_from(file, prefix + ".feed_forward.w2.weight"@)
        &&& self.w3.loaded_from(file, prefix + ".feed_forward.w3.weight"@)
        &&& self.fused_gate_up is None
    }
}

impl Q4TtsDecoderLayer {
    pub open spec fn loaded_from(
        self,
        file: GgufFile,
        prefix: Seq<char>,
        config: TtsBackboneConfig,
    ) -> bool {
        &&& self.attention_norm.loaded_from(
            file,
            prefix + ".attention_norm.weight"@,
            config.norm_eps,
        )
        &&& self.attention.loaded_from(
            file,
            prefix,
            config.n_heads,
            config.n_kv_heads,
            config.head_dim,
        )
        &&& self.ffn_norm.loaded_from(file, prefix + ".ffn_norm.weight"@, config.norm_eps)
        &&& self.ffn.loaded_from(file, prefix)
    }
}

impl Q4FmLayer {
    pub open spec fn loaded_from(
        self,
        file: GgufFile,
        prefix: Seq<char>,
        config: FmTransformerConfig,
    ) -> bool {
        &&& self.attention_norm.loaded_from(
            file,
            prefix + ".attention_norm.weight"@,
            config.norm_eps,
        )
        &&& self.attention.loaded_from(
            file,
            prefix,
            config.n_heads,
            config.n_kv_heads,
            config.head_dim,
        )
        &&& self.ffn_norm.loaded_from(file, prefix + ".ffn_norm.weight"@, config.norm_eps)
        &&& self.ffn.loaded_from(file, prefix)
    }
}

// ---- Backbone ----

/// The tensors of the backbone's layers and of its final norm.
pub open spec fn backbone_slots(config: TtsBackboneConfig) -> Seq<Slot> {
    Tower::Backbone.slots(config.n_layers as nat) + seq![floats("norm.weight"@, 1)]
}

/// The layers of the backbone.
pub open spec fn backbone_layers_from(
    layers: Seq<Q4TtsDecoderLayer>,
    file: GgufFile,
    config: TtsBackboneConfig,
) -> bool {
    &&& layers.len() == config.n_layers
    &&& forall|i: int|
        0 <= i < layers.len() ==> (#[trigger] layers[i]).loaded_from(
            file,
            "layers."@ + decimal(i as nat),
            config,
        )
}

/// The rotary embedding of the backbone.
pub open spec fn backbone_rope(config: TtsBackboneConfig) -> RoPE {
    RoPE { head_dim: config.head_dim, max_seq_len: 131_072, theta: config.rope_theta }
}

/// The layers, the rotary embedding and the final norm of the backbone.
pub open spec fn backbone_from(
    layers: Seq<Q4TtsDecoderLayer>,
    rope: RoPE,
    norm: RmsNorm,
    file: GgufFile,
    config: TtsBackboneConfig,
) -> bool {
    &&& backbone_layers_from(layers, file, config)
    &&& rope == backbone_rope(config)
    &&& norm.loaded_from(file, "norm.weight"@, config.norm_eps)
}

// ---- Embeddings ----

/// The tensor that holds the token embeddings.
pub open spec fn tok_embeddings_name() -> Seq<char> {
    "mm_audio_embeddings.tok_embeddings.weight"@
}

/// The token embeddings, as floats.
pub open spec fn tok_embeddings_slot() -> Slot {
    plain(tok_embeddings_name(), Purpose::TokenTable)
}

/// The tensor that holds the embeddings of audio codes.
pub open spec fn audio_codebook_name() -> Seq<char> {
    "mm_audio_embeddings.audio_codebook_embeddings.embeddings.weight"@
}

/// The embeddings of audio codes.
pub open spec fn audio_codebook_slot() -> Slot {
    floats(audio_codebook_name(), 2).part_of(Context::AudioCodebook)
}

impl Q4TtsBackbone {
    /// The backbone that `file` holds, whatever form its token embeddings have.
    pub open spec fn loaded_from(self, file: GgufFile) -> bool {
        &&& self.config == TtsBackboneConfig::standard()
        &&& backbone_from(self.layers@, self.rope, self.norm, file, self.config)
        &&& self.audio_codebook_embeddings@ == file.float_value(audio_codebook_name())
    }
}

// ---- Flow-matching transformer ----

/// The projections of the flow-matching transformer.
pub open spec fn fm_projection_slots() -> Seq<Slot> {
    seq![
        quantized("acoustic_transformer.llm_projection.weight"@).part_of(Context::LlmProjection),
        quantized("acoustic_transformer.time_projection.weight"@).part_of(Context::TimeProjection),
        floats("acoustic_transformer.input_projection.weight"@, 2).part_of(
            Context::InputProjection,
        ),
        quantized("acoustic_transformer.semantic_codebook_output.weight"@).part_of(
            Context::SemanticCodebookOutput,
        ),
        floats("acoustic_transformer.acoustic_codebook_output.weight"@, 2).part_of(
            Context::AcousticCodebookOutput,
        ),
    ]
}

/// The final norm of the flow-matching transformer.
pub open spec fn fm_norm_slot() -> Slot {
    floats("acoustic_transformer.norm.weight"@, 1).part_of(Context::FmNorm)
}

/// The tensors of the flow-matching transformer.
pub open spec fn fm_slots(config: FmTransformerConfig) -> Seq<Slot> {
    fm_projection_slots() + Tower::FlowMatching.slots(config.n_layers as nat) + seq![fm_norm_slot()]
}

/// The layers of the flow-matching transformer.
pub open spec fn fm_layers_from(
    layers: Seq<Q4FmLayer>,
    file: GgufFile,
    config: FmTransformerConfig,
) -> bool {
    &&& layers.len() == config.n_layers
    &&& forall|i: int|
        0 <= i < layers.len() ==> (#[trigger] layers[i]).loaded_from(
            file,
            "acoustic_transformer.layers."@ + decimal(i as nat),
            config,
        )
}

impl Q4FmTransformer {
    pub open spec fn loaded_from(self, file: GgufFile, config: FmTransformerConfig) -> bool {
        &&& self.time_embedding == (TimeEmbedding { dim: config.dim })
        &&& self.rope == (RoPE {
            head_dim: config.head_dim,
            max_seq_len: 16,
            theta: config.rope_theta,
        })
        &&& fm_layers_from(self.layers@, file, config)
        &&& self.llm_projection.loaded_from(file, "acoustic_transformer.llm_projection.weight"@)
        &&& self.time_projection.loaded_from(file, "acoustic_transformer.time_projection.weight"@)
        &&& self.input_projection.loaded_from(file, "acoustic_transformer.input_projection.weight"@)
        &&& self.semantic_codebook_output.loaded_from(
            file,
            "acoustic_transformer.semantic_codebook_output.weight"@,
        )
        &&& self.acoustic_codebook_output.loaded_from(
            file,
            "acoustic_transformer.acoustic_codebook_output.weight"@,
        )
        &&& self.norm.loaded_from(file, "acoustic_transformer.norm.weight"@, config.norm_eps)
        &&& self.config == config
    }
}

// ---- Codec decoder ----

/// The tensors of a transformer layer of the codec.
pub open spec fn codec_layer_slots(prefix: Seq<char>) -> Seq<Slot> {
    seq![
        floats(prefix + ".attention.wq.weight"@, 2).part_of(Context::Wq),
        floats(prefix + ".attention.wk.weight"@, 2).part_of(Context::Wk),
        floats(prefix + ".attention.wv.weight"@, 2).part_of(Context::Wv),
        floats(prefix + ".attention.wo.weight"@, 2).part_of(Context::Wo),
        floats(prefix + ".attention.q_norm.weight"@, 1).part_of(Context::QNorm),
        floats(prefix + ".attention.k_norm.weight"@, 1).part_of(Context::KNorm),
        floats(prefix + ".attention_scale"@, 1).part_of(Context::AttentionScale),
        floats(prefix + ".ffn_scale"@, 1).part_of(Context::FfnScale),
        floats(prefix + ".attention_norm.weight"@, 1).part_of(Context::AttentionNorm),
        floats(prefix + ".ffn_norm.weight"@, 1).part_of(Context::FfnNorm),
        floats(prefix + ".feed_forward.w1.weight"@, 2),
        floats(prefix + ".feed_forward.w2.weight"@, 2),
        floats(prefix + ".feed_forward.w3.weight"@, 2),
    ]
}

impl CodecTransformerLayer {
    pub open spec fn loaded_from(
        self,
        file: GgufFile,
        prefix: Seq<char>,
        config: CodecDecoderConfig,
        sliding_window: usize,
    ) -> bool {
        &&& self.attention.wq.loaded_from(file, prefix + ".attention.wq.weight"@)
        &&& self.attention.wk.loaded_from(file, prefix + ".attention.wk.weight"@)
        &&& self.attention.wv.loaded_from(file, prefix + ".attention.wv.weight"@)
        &&& self.attention.wo.loaded_from(file, prefix + ".attention.wo.weight"@)
        &&& self.attention.qk_norm.q_norm@ == file.float_value(
            prefix + ".attention.q_norm.weight"@,
        )
        &&& self.attention.qk_norm.k_norm@ == file.float_value(
            prefix + ".attention.k_norm.weight"@,
        )
        &&& self.attention.qk_norm.n_heads == config.n_heads
        &&& self.attention.qk_norm.head_dim == config.head_dim
        &&& self.attention.n_heads == config.n_heads
        &&& self.attention.head_dim == config.head_dim
        &&& self.attention.sliding_window == sliding_window
        &&& self.attention_scale.weight@ == file.float_value(prefix + ".attention_scale"@)
        &&& self.ffn_scale.weight@ == file.float_value(prefix + ".ffn_scale"@)
        &&& self.attention_norm.loaded_from(
            file,
            prefix + ".attention_norm.weight"@,
            config.norm_eps,
        )
        &&& self.ffn_norm.loaded_from(file, prefix + ".ffn_norm.weight"@, config.norm_eps)
        &&& self.ffn.w1.loaded_from(file, prefix + ".feed_forward.w1.weight"@)
        &&& self.ffn.w2.loaded_from(file, prefix + ".feed_forward.w2.weight"@)
        &&& self.ffn.w3.loaded_from(file, prefix + ".feed_forward.w3.weight"@)
    }
}

/// The name of block number `block` of the codec decoder.
pub open spec fn codec_block(block: nat) -> Seq<char> {
    "audio_tokenizer.decoder_blocks."@ + decimal(block)
}

/// The name of layer number `layer` of transformer group number `group`: the groups
/// are the blocks 1, 3, 5 and 7.
pub open spec fn codec_layer_prefix(group: nat, layer: nat) -> Seq<char> {
    codec_block(2 * group + 1) + ".layers."@ + decimal(layer)
}

/// What is being loaded with layer number `layer` of transformer group number `group`.
pub open spec fn codec_layer_context(group: nat, layer: nat) -> Context {
    Context::TransformerBlock { block: (2 * group + 1) as usize, layer: layer as usize }
}

/// The tensors of the first `n` layers of a transformer group.
pub open spec fn codec_group_slots(group: nat, n: nat) -> Seq<Slot>
    decreases n,
{
    if n == 0 {
        Seq::empty()
    } else {
        codec_group_slots(group, (n - 1) as nat) + within(
            codec_layer_context(group, (n - 1) as nat),
            codec_layer_slots(codec_layer_prefix(group, (n - 1) as nat)),
        )
    }
}

/// The tensors of the first `n` transformer groups.
pub open spec fn codec_groups_slots(n: nat, config: CodecDecoderConfig) -> Seq<Slot>
    decreases n,
{
    if n == 0 {
        Seq::empty()
    } else {
        codec_groups_slots((n - 1) as nat, config) + codec_group_slots(
            (n - 1) as nat,
            config.layers_per_block as nat,
        )
    }
}

/// The name of the weights of upsampling convolution number `i`: the convolutions
/// are the blocks 2, 4 and 6.
pub open spec fn upsample_name(i: nat) -> Seq<char> {
    codec_block(2 * i + 2) + ".conv.weight"@
}

/// Upsampling convolution number `i`.
pub open spec fn upsample_slot(i: nat) -> Slot {
    floats(upsample_name(i), 3).part_of(Context::UpsampleConv { block: (2 * i + 2) as usize })
}

/// The first `n` upsampling convolutions.
pub open spec fn upsample_slots(n: nat) -> Seq<Slot> {
    Seq::new(n, |i: int| upsample_slot(i as nat))
}

/// The tensor that holds the sums of embeddings of the vector quantizer.
pub open spec fn codebook_entries_name() -> Seq<char> {
    "audio_tokenizer.quantizer.semantic_codebook.embedding_sum"@
}

/// The tensor that says how many embeddings each of the sums holds.
pub open spec fn codebook_usage_name() -> Seq<char> {
    "audio_tokenizer.quantizer.semantic_codebook.cluster_usage"@
}

/// The tensors of the vector quantizer.
pub open spec fn codebook_slots() -> Seq<Slot> {
    seq![
        plain(codebook_entries_name(), Purpose::Present),
        plain(codebook_entries_name(), Purpose::Bytes).part_of(Context::EmbeddingSum),
        plain(codebook_usage_name(), Purpose::Bytes).part_of(Context::ClusterUsage),
        plain(codebook_entries_name(), Purpose::CodebookEntries),
        plain(
            codebook_usage_name(),
            Purpose::CodebookUsage { entries: codebook_entries_name() },
        ),
    ]
}

impl VqCodebook {
    pub open spec fn loaded_from(self, file: GgufFile) -> bool {
        let shape = shape_of(file.entry(codebook_entries_name())->0);
        &&& self.embedding_sum@ == singles(file.data(codebook_entries_name())->Ok_0)
        &&& self.cluster_usage@ == singles(file.data(codebook_usage_name())->Ok_0)
        &&& self.n_entries == shape[0]
        &&& self.embed_dim == shape[1]
        &&& self.embedding_sum@.len() == self.n_entries * self.embed_dim
        &&& self.cluster_usage@.len() == self.n_entries
    }
}

/// The first convolution of the codec decoder.
pub open spec fn input_conv_slot() -> Slot {
    floats("audio_tokenizer.decoder_blocks.0.conv.weight"@, 3).part_of(Context::InputConv)
}

/// The last convolution of the codec decoder.
pub open spec fn output_conv_slot() -> Slot {
    floats("audio_tokenizer.output_proj.conv.weight"@, 3).part_of(Context::OutputConv)
}

/// The tensors of the codec decoder.
pub open spec fn codec_slots(config: CodecDecoderConfig) -> Seq<Slot> {
    seq![input_conv_slot()] + codec_groups_slots(4, config) + upsample_slots(3)
        + seq![output_conv_slot()] + codebook_slots()
}

/// The first layers of a transformer group of the codec.
pub open spec fn codec_group_from(
    layers: Seq<CodecTransformerLayer>,
    file: GgufFile,
    group: nat,
    config: CodecDecoderConfig,
) -> bool {
    forall|i: int|
        0 <= i < layers.len() ==> (#[trigger] layers[i]).loaded_from(
            file,
            codec_layer_prefix(group, i as nat),
            config,
            config.sliding_windows[group as int],
        )
}

/// The first transformer groups of the codec.
pub open spec fn codec_groups_from(
    groups: Seq<Vec<CodecTransformerLayer>>,
    file: GgufFile,
    config: CodecDecoderConfig,
) -> bool {
    forall|g: int|
        0 <= g < groups.len() ==> {
            &&& (#[trigger] groups[g])@.len() == config.layers_per_block
            &&& codec_group_from(groups[g]@, file, g as nat, config)
        }
}

/// The first upsampling convolutions of the codec.
pub open spec fn upsample_from(convs: Seq<CausalConvTranspose1d>, file: GgufFile) -> bool {
    forall|i: int|
        0 <= i < convs.len() ==> {
            &&& (#[trigger] convs[i]).weight@ == file.float_value(upsample_name(i as nat))
            &&& convs[i].stride == 2
        }
}

impl CodecDecoder {
    pub open spec fn loaded_from(self, file: GgufFile, config: CodecDecoderConfig) -> bool {
        &&& self.input_conv.weight@ == file.float_value(
            "audio_tokenizer.decoder_blocks.0.conv.weight"@,
        )
        &&& self.input_conv.stride == 1
        &&& self.transformer_groups@.len() == 4
        &&& codec_groups_from(self.transformer_groups@, file, config)
        &&& self.upsample_convs@.len() == 3
        &&& upsample_from(self.upsample_convs@, file)
        &&& self.output_conv.weight@ == file.float_value(
            "audio_tokenizer.output_proj.conv.weight"@,
        )
        &&& self.output_conv.stride == 1
        &&& self.vq_codebook.loaded_from(file)
    }
}

// ---- The whole model ----

/// What every way of loading the model needs besides the token embeddings.
pub open spec fn common_slots() -> Seq<Slot> {
    backbone_slots(TtsBackboneConfig::standard()) + seq![audio_codebook_slot()] + fm_slots(
        FmTransformerConfig::standard(),
    ) + codec_slots(CodecDecoderConfig::standard())
}

/// The tensors of the model, with the token embeddings as floats.
pub open spec fn model_slots() -> Seq<Slot> {
    seq![tok_embeddings_slot()] + common_slots()
}

/// The tensors of the model, with the token embeddings as they are stored.
pub open spec fn deferred_slots() -> Seq<Slot> {
    seq![plain(tok_embeddings_name(), Purpose::Bytes)] + common_slots() + seq![
        plain(tok_embeddings_name(), Purpose::Matrix),
    ]
}

} // verus!
