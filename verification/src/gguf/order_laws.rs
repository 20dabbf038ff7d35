//! In which order the tensors of a model are loaded, and what each of them is wanted for.

use vstd::prelude::*;

use crate::gguf::context::Context;
use crate::gguf::layout::{
    backbone_slots, codebook_slots, codec_group_slots, codec_groups_slots, codec_layer_slots,
    codec_slots, decoder_layer_slots, deferred_slots, fm_projection_slots, fm_slots, model_slots,
    upsample_slots, Tower,
};
use crate::gguf::loader::{Purpose, Slot};
use crate::gguf::names::decimal;
use crate::tts::config::{CodecDecoderConfig, FmTransformerConfig, TtsBackboneConfig};

verus! {

/// The tensors of a decoder layer, in their order.
pub proof fn law_decoder_layer_order(prefix: Seq<char>)
    ensures
        decoder_layer_slots(prefix).len() == 9,
        decoder_layer_slots(prefix)[0].name == prefix + ".attention_norm.weight"@,
        decoder_layer_slots(prefix)[0].purpose == (Purpose::Floats { rank: 1 }),
        decoder_layer_slots(prefix)[0].context == Seq::<Context>::empty(),
        decoder_layer_slots(prefix)[1].name == prefix + ".attention.wq.weight"@,
        decoder_layer_slots(prefix)[1].purpose == Purpose::Quantized,
        decoder_layer_slots(prefix)[1].context == Seq::<Context>::empty(),
        decoder_layer_slots(prefix)[2].name == prefix + ".attention.wk.weight"@,
        decoder_layer_slots(prefix)[2].purpose == Purpose::Quantized,
        decoder_layer_slots(prefix)[2].context == Seq::<Context>::empty(),
        decoder_layer_slots(prefix)[3].name == prefix + ".attention.wv.weight"@,
        decoder_layer_slots(prefix)[3].purpose == Purpose::Quantized,
        decoder_layer_slots(prefix)[3].context == Seq::<Context>::empty(),
        decoder_layer_slots(prefix)[4].name == prefix + ".attention.wo.weight"@,
        decoder_layer_slots(prefix)[4].purpose == Purpose::Quantized,
        decoder_layer_slots(prefix)[4].context == Seq::<Context>::empty(),
        decoder_layer_slots(prefix)[5].name == prefix + ".ffn_norm.weight"@,
        decoder_layer_slots(prefix)[5].purpose == (Purpose::Floats { rank: 1 }),
        decoder_layer_slots(prefix)[5].context == Seq::<Context>::empty(),
        decoder_layer_slots(prefix)[6].name == prefix + ".feed_forward.w1.weight"@,
        decoder_layer_slots(prefix)[6].purpose == Purpose::Quantized,
        decoder_layer_slots(prefix)[6].context == Seq::<Context>::empty(),
        decoder_layer_slots(prefix)[7].name == prefix + ".feed_forward.w2.weight"@,
        decoder_layer_slots(prefix)[7].purpose == Purpose::Quantized,
        decoder_layer_slots(prefix)[7].context == Seq::<Context>::empty(),
        decoder_layer_slots(prefix)[8].name == prefix + ".feed_forward.w3.weight"@,
        decoder_layer_slots(prefix)[8].purpose == Purpose::Quantized,
        decoder_layer_slots(prefix)[8].context == Seq::<Context>::empty(),
{
    assert(decoder_layer_slots(prefix)[0].context =~= Seq::<Context>::empty());
    assert(decoder_layer_slots(prefix)[1].context =~= Seq::<Context>::empty());
    assert(decoder_layer_slots(prefix)[2].context =~= Seq::<Context>::empty());
    assert(decoder_layer_slots(prefix)[3].context =~= Seq::<Context>::empty());
    assert(decoder_layer_slots(prefix)[4].context =~= Seq::<Context>::empty());
    assert(decoder_layer_slots(prefix)[5].context =~= Seq::<Context>::empty());
    assert(decoder_layer_slots(prefix)[6].context =~= Seq::<Context>::empty());
    assert(decoder_layer_slots(prefix)[7].context =~= Seq::<Context>::empty());
    assert(decoder_layer_slots(prefix)[8].context =~= Seq::<Context>::empty());
}

/// The tensors of a transformer layer of the codec, in their order.
pub proof fn law_codec_layer_order(prefix: Seq<char>)
    ensures
        codec_layer_slots(prefix).len() == 13,
        codec_layer_slots(prefix)[0].name == prefix + ".attention.wq.weight"@,
        codec_layer_slots(prefix)[0].purpose == (Purpose::Floats { rank: 2 }),
        codec_layer_slots(prefix)[0].context == seq![Context::Wq],
        codec_layer_slots(prefix)[1].name == prefix + ".attention.wk.weight"@,
        codec_layer_slots(prefix)[1].purpose == (Purpose::Floats { rank: 2 }),
        codec_layer_slots(prefix)[1].context == seq![Context::Wk],
        codec_layer_slots(prefix)[2].name == prefix + ".attention.wv.weight"@,
        codec_layer_slots(prefix)[2].purpose == (Purpose::Floats { rank: 2 }),
        codec_layer_slots(prefix)[2].context == seq![Context::Wv],
        codec_layer_slots(prefix)[3].name == prefix + ".attention.wo.weight"@,
        codec_layer_slots(prefix)[3].purpose == (Purpose::Floats { rank: 2 }),
        codec_layer_slots(prefix)[3].context == seq![Context::Wo],
        codec_layer_slots(prefix)[4].name == prefix + ".attention.q_norm.weight"@,
        codec_layer_slots(prefix)[4].purpose == (Purpose::Floats { rank: 1 }),
        codec_layer_slots(prefix)[4].context == seq![Context::QNorm],
        codec_layer_slots(prefix)[5].name == prefix + ".attention.k_norm.weight"@,
        codec_layer_slots(prefix)[5].purpose == (Purpose::Floats { rank: 1 }),
        codec_layer_slots(prefix)[5].context == seq![Context::KNorm],
        codec_layer_slots(prefix)[6].name == prefix + ".attention_scale"@,
        codec_layer_slots(prefix)[6].purpose == (Purpose::Floats { rank: 1 }),
        codec_layer_slots(prefix)[6].context == seq![Context::AttentionScale],
        codec_layer_slots(prefix)[7].name == prefix + ".ffn_scale"@,
        codec_layer_slots(prefix)[7].purpose == (Purpose::Floats { rank: 1 }),
        codec_layer_slots(prefix)[7].context == seq![Context::FfnScale],
        codec_layer_slots(prefix)[8].name == prefix + ".attention_norm.weight"@,
        codec_layer_slots(prefix)[8].purpose == (Purpose::Floats { rank: 1 }),
        codec_layer_slots(prefix)[8].context == seq![Context::AttentionNorm],
        codec_layer_slots(prefix)[9].name == prefix + ".ffn_norm.weight"@,
        codec_layer_slots(prefix)[9].purpose == (Purpose::Floats { rank: 1 }),
        codec_layer_slots(prefix)[9].context == seq![Context::FfnNorm],
        codec_layer_slots(prefix)[10].name == prefix + ".feed_forward.w1.weight"@,
        codec_layer_slots(prefix)[10].purpose == (Purpose::Floats { rank: 2 }),
        codec_layer_slots(prefix)[10].context == Seq::<Context>::empty(),
        codec_layer_slots(prefix)[11].name == prefix + ".feed_forward.w2.weight"@,
        codec_layer_slots(prefix)[11].purpose == (Purpose::Floats { rank: 2 }),
        codec_layer_slots(prefix)[11].context == Seq::<Context>::empty(),
        codec_layer_slots(prefix)[12].name == prefix + ".feed_forward.w3.weight"@,
        codec_layer_slots(prefix)[12].purpose == (Purpose::Floats { rank: 2 }),
        codec_layer_slots(prefix)[12].context == Seq::<Context>::empty(),
{
    assert(codec_layer_slots(prefix)[0].context =~= seq![Context::Wq]);
    assert(codec_layer_slots(prefix)[1].context =~= seq![Context::Wk]);
    assert(codec_layer_slots(prefix)[2].context =~= seq![Context::Wv]);
    assert(codec_layer_slots(prefix)[3].context =~= seq![Context::Wo]);
    assert(codec_layer_slots(prefix)[4].context =~= seq![Context::QNorm]);
    assert(codec_layer_slots(prefix)[5].context =~= seq![Context::KNorm]);
    assert(codec_layer_slots(prefix)[6].context =~= seq![Context::AttentionScale]);
    assert(codec_layer_slots(prefix)[7].context =~= seq![Context::FfnScale]);
    assert(codec_layer_slots(prefix)[8].context =~= seq![Context::AttentionNorm]);
    assert(codec_layer_slots(prefix)[9].context =~= seq![Context::FfnNorm]);
    assert(codec_layer_slots(prefix)[10].context =~= Seq::<Context>::empty());
    assert(codec_layer_slots(prefix)[11].context =~= Seq::<Context>::empty());
    assert(codec_layer_slots(prefix)[12].context =~= Seq::<Context>::empty());
}

/// The projections of the flow-matching transformer, in their order.
pub proof fn law_fm_projection_order()
    ensures
        fm_projection_slots().len() == 5,
        fm_projection_slots()[0].name == "acoustic_transformer.llm_projection.weight"@,
        fm_projection_slots()[0].purpose == Purpose::Quantized,
        fm_projection_slots()[0].context == seq![Context::LlmProjection],
        fm_projection_slots()[1].name == "acoustic_transformer.time_projection.weight"@,
        fm_projection_slots()[1].purpose == Purpose::Quantized,
        fm_projection_slots()[1].context == seq![Context::TimeProjection],
        fm_projection_slots()[2].name == "acoustic_transformer.input_projection.weight"@,
        fm_projection_slots()[2].purpose == (Purpose::Floats { rank: 2 }),
        fm_projection_slots()[2].context == seq![Context::InputProjection],
        fm_projection_slots()[3].name == "acoustic_transformer.semantic_codebook_output.weight"@,
        fm_projection_slots()[3].purpose == Purpose::Quantized,
        fm_projection_slots()[3].context == seq![Context::SemanticCodebookOutput],
        fm_projection_slots()[4].name == "acoustic_transformer.acoustic_codebook_output.weight"@,
        fm_projection_slots()[4].purpose == (Purpose::Floats { rank: 2 }),
        fm_projection_slots()[4].context == seq![Context::AcousticCodebookOutput],
{
    assert(fm_projection_slots()[0].context =~= seq![Context::LlmProjection]);
    assert(fm_projection_slots()[1].context =~= seq![Context::TimeProjection]);
    assert(fm_projection_slots()[2].context =~= seq![Context::InputProjection]);
    assert(fm_projection_slots()[3].context =~= seq![Context::SemanticCodebookOutput]);
    assert(fm_projection_slots()[4].context =~= seq![Context::AcousticCodebookOutput]);
}

/// The tensors of the codebook, in the order in which they are looked at.
pub proof fn law_codebook_order()
    ensures
        codebook_slots().len() == 5,
        codebook_slots()[0].name == "audio_tokenizer.quantizer.semantic_codebook.embedding_sum"@,
        codebook_slots()[0].purpose == Purpose::Present,
        codebook_slots()[0].context == Seq::<Context>::empty(),
        codebook_slots()[1].name == "audio_tokenizer.quantizer.semantic_codebook.embedding_sum"@,
        codebook_slots()[1].purpose == Purpose::Bytes,
        codebook_slots()[1].context == seq![Context::EmbeddingSum],
        codebook_slots()[2].name == "audio_tokenizer.quantizer.semantic_codebook.cluster_usage"@,
        codebook_slots()[2].purpose == Purpose::Bytes,
        codebook_slots()[2].context == seq![Context::ClusterUsage],
        codebook_slots()[3].name == "audio_tokenizer.quantizer.semantic_codebook.embedding_sum"@,
        codebook_slots()[3].purpose == Purpose::CodebookEntries,
        codebook_slots()[3].context == Seq::<Context>::empty(),
        codebook_slots()[4].name == "audio_tokenizer.quantizer.semantic_codebook.cluster_usage"@,
        codebook_slots()[4].purpose == (Purpose::CodebookUsage {
            entries: "audio_tokenizer.quantizer.semantic_codebook.embedding_sum"@,
        }),
        codebook_slots()[4].context == Seq::<Context>::empty(),
{
    assert(codebook_slots()[0].context =~= Seq::<Context>::empty());
    assert(codebook_slots()[1].context =~= seq![Context::EmbeddingSum]);
    assert(codebook_slots()[2].context =~= seq![Context::ClusterUsage]);
    assert(codebook_slots()[3].context =~= Seq::<Context>::empty());
    assert(codebook_slots()[4].context =~= Seq::<Context>::empty());
}

/// The layers of a tower follow one another, each with the tensors of a decoder layer of
/// its number, and are named by that number in an error.
pub proof fn law_tower_order(tower: Tower, n: nat, k: int)
    requires
        n < usize::MAX,
        0 <= k < 9,
    ensures
        tower.slots(0).len() == 0,
        tower.slots(n).len() == 9 * n,
        tower.slots(n + 1).len() == 9 * n + 9,
        tower.slots(n + 1).take(9 * n as int) == tower.slots(n),
        tower.slots(n + 1)[9 * n + k].name == decoder_layer_slots(
            (if tower is Backbone {
                "layers."@
            } else {
                "acoustic_transformer.layers."@
            }) + decimal(n),
        )[k].name,
        tower.slots(n + 1)[9 * n + k].purpose == decoder_layer_slots(
            tower.prefix() + decimal(n),
        )[k].purpose,
        tower is Backbone ==> tower.slots(n + 1)[9 * n + k].context == seq![
            Context::BackboneLayer { index: n as usize },
        ],
        tower is FlowMatching ==> tower.slots(n + 1)[9 * n + k].context == seq![
            Context::FmLayer { index: n as usize },
        ],
{
    lemma_tower_len(tower, n);
    law_decoder_layer_order(tower.prefix() + decimal(n));
    let more = tower.slots(n + 1);
    assert(more.take(9 * n as int) =~= tower.slots(n));
    let slot = tower.layer_slots(n)[k];
    assert(more[9 * n + k] == slot.part_of(tower.layer_context(n)));
    assert(slot.context =~= Seq::<Context>::empty());
    assert(more[9 * n + k].context =~= seq![tower.layer_context(n)]);
}

/// Each decoder layer has nine tensors.
proof fn lemma_tower_len(tower: Tower, n: nat)
    ensures
        tower.slots(n).len() == 9 * n,
    decreases n,
{
    if n > 0 {
        lemma_tower_len(tower, (n - 1) as nat);
    }
}

/// The backbone is its layers and then its norm; the flow-matching transformer is its
/// projections, its layers and then its norm; the codec is its first convolution, its four
/// transformer groups, its three convolutions that double the rate, its last convolution
/// and then its codebook.
pub proof fn law_component_order(
    backbone: TtsBackboneConfig,
    fm: FmTransformerConfig,
    codec: CodecDecoderConfig,
)
    ensures
        backbone_slots(backbone) == Tower::Backbone.slots(backbone.n_layers as nat) + seq![
            Slot {
                name: "norm.weight"@,
                purpose: Purpose::Floats { rank: 1 },
                context: Seq::empty(),
            },
        ],
        fm_slots(fm) == fm_projection_slots() + Tower::FlowMatching.slots(fm.n_layers as nat)
            + seq![
            Slot {
                name: "acoustic_transformer.norm.weight"@,
                purpose: Purpose::Floats { rank: 1 },
                context: seq![Context::FmNorm],
            },
        ],
        codec_slots(codec) == seq![
            Slot {
                name: "audio_tokenizer.decoder_blocks.0.conv.weight"@,
                purpose: Purpose::Floats { rank: 3 },
                context: seq![Context::InputConv],
            },
        ] + codec_groups_slots(4, codec) + upsample_slots(3) + seq![
            Slot {
                name: "audio_tokenizer.output_proj.conv.weight"@,
                purpose: Purpose::Floats { rank: 3 },
                context: seq![Context::OutputConv],
            },
        ] + codebook_slots(),
        upsample_slots(3).len() == 3,
        forall|i: int|
            0 <= i < 3 ==> #[trigger] upsample_slots(3)[i] == (Slot {
                name: "audio_tokenizer.decoder_blocks."@ + decimal((2 * i + 2) as nat)
                    + ".conv.weight"@,
                purpose: Purpose::Floats { rank: 3 },
                context: seq![Context::UpsampleConv { block: (2 * i + 2) as usize }],
            }),
{
    assert(seq![Context::FmNorm] + Seq::empty() =~= seq![Context::FmNorm]);
    assert(seq![Context::InputConv] + Seq::empty() =~= seq![Context::InputConv]);
    assert(seq![Context::OutputConv] + Seq::empty() =~= seq![Context::OutputConv]);
    assert forall|i: int| 0 <= i < 3 implies #[trigger] upsample_slots(3)[i] == (Slot {
        name: "audio_tokenizer.decoder_blocks."@ + decimal((2 * i + 2) as nat) + ".conv.weight"@,
        purpose: Purpose::Floats { rank: 3 },
        context: seq![Context::UpsampleConv { block: (2 * i + 2) as usize }],
    }) by {
        let c = Context::UpsampleConv { block: (2 * i + 2) as usize };
        assert(seq![c] + Seq::empty() =~= seq![c]);
    }
}

/// A model is its token embeddings, its backbone, the embeddings of audio codes, its
/// flow-matching transformer and then its codec. If the token embeddings are deferred, their
/// bytes are read first and their shape is looked at last.
pub proof fn law_model_order()
    ensures
        ({
            let rest = backbone_slots(TtsBackboneConfig::standard()) + seq![
                Slot {
                    name: "mm_audio_embeddings.audio_codebook_embeddings.embeddings.weight"@,
                    purpose: Purpose::Floats { rank: 2 },
                    context: seq![Context::AudioCodebook],
                },
            ] + fm_slots(FmTransformerConfig::standard()) + codec_slots(
                CodecDecoderConfig::standard(),
            );
            &&& model_slots() == seq![
                Slot {
                    name: "mm_audio_embeddings.tok_embeddings.weight"@,
                    purpose: Purpose::TokenTable,
                    context: Seq::empty(),
                },
            ] + rest
            &&& deferred_slots() == seq![
                Slot {
                    name: "mm_audio_embeddings.tok_embeddings.weight"@,
                    purpose: Purpose::Bytes,
                    context: Seq::empty(),
                },
            ] + rest + seq![
                Slot {
                    name: "mm_audio_embeddings.tok_embeddings.weight"@,
                    purpose: Purpose::Matrix,
                    context: Seq::empty(),
                },
            ]
        }),
{
    assert(seq![Context::AudioCodebook] + Seq::empty() =~= seq![Context::AudioCodebook]);
}

/// The layers of a codec group follow one another, each with the tensors of a codec layer of
/// its block and its number, and are named by these in an error; the groups follow one
/// another.
pub proof fn law_codec_group_order(config: CodecDecoderConfig, g: nat, l: nat, k: int)
    requires
        2 * g + 1 <= usize::MAX,
        l < usize::MAX,
        0 <= k < 13,
    ensures
        codec_group_slots(g, 0).len() == 0,
        codec_group_slots(g, l).len() == 13 * l,
        codec_group_slots(g, l + 1).len() == 13 * l + 13,
        codec_group_slots(g, l + 1).take(13 * l as int) == codec_group_slots(g, l),
        ({
            let prefix = "audio_tokenizer.decoder_blocks."@ + decimal(2 * g + 1) + ".layers."@
                + decimal(l);
            let slot = codec_group_slots(g, l + 1)[13 * l + k];
            &&& slot.name == codec_layer_slots(prefix)[k].name
            &&& slot.purpose == codec_layer_slots(prefix)[k].purpose
            &&& slot.context == seq![
                Context::TransformerBlock { block: (2 * g + 1) as usize, layer: l as usize },
            ] + codec_layer_slots(prefix)[k].context
        }),
        codec_groups_slots(0, config).len() == 0,
        codec_groups_slots(g + 1, config) == codec_groups_slots(g, config) + codec_group_slots(
            g,
            config.layers_per_block as nat,
        ),
{
    lemma_group_len(g, l);
    let more = codec_group_slots(g, l + 1);
    assert(more.take(13 * l as int) =~= codec_group_slots(g, l));
}

/// Each layer of the codec has thirteen tensors.
proof fn lemma_group_len(g: nat, l: nat)
    ensures
        codec_group_slots(g, l).len() == 13 * l,
    decreases l,
{
    if l > 0 {
        lemma_group_len(g, (l - 1) as nat);
    }
}

/// The dimensions of the model.
pub proof fn law_standard_dimensions()
    ensures
        TtsBackboneConfig::standard().n_layers == 26,
        TtsBackboneConfig::standard().d_model == 3072,
        TtsBackboneConfig::standard().n_heads == 32,
        TtsBackboneConfig::standard().n_kv_heads == 8,
        TtsBackboneConfig::standard().head_dim == 128,
        FmTransformerConfig::standard().n_layers == 3,
        FmTransformerConfig::standard().dim == TtsBackboneConfig::standard().d_model,
        FmTransformerConfig::standard().n_heads == TtsBackboneConfig::standard().n_heads,
        FmTransformerConfig::standard().n_kv_heads == TtsBackboneConfig::standard().n_kv_heads,
        FmTransformerConfig::standard().head_dim == TtsBackboneConfig::standard().head_dim,
        FmTransformerConfig::standard().norm_eps == TtsBackboneConfig::standard().norm_eps,
        CodecDecoderConfig::standard().layers_per_block == 2,
        CodecDecoderConfig::standard().n_heads == 8,
        CodecDecoderConfig::standard().head_dim == 128,
        CodecDecoderConfig::standard().sliding_windows[0] == 2,
        forall|g: int|
            0 <= g < 3 ==> (#[trigger] CodecDecoderConfig::standard().sliding_windows[g + 1]) == 2
                * CodecDecoderConfig::standard().sliding_windows[g],
{
}

} // verus!
