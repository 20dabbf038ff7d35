//! Which tensor of a file each weight of a loaded model is.

use vstd::prelude::*;

use crate::gguf::block_laws::law_elements_of_bytes;
use crate::gguf::error_laws::{lemma_group_at, lemma_groups_at, lemma_tower_at};
use crate::gguf::floats::{law_words_in_order, singles, FloatsView};
use crate::gguf::layout::{
    audio_codebook_slot, backbone_from, backbone_slots, codebook_entries_name, codebook_slots,
    codebook_usage_name, codec_group_slots, codec_groups_slots, codec_layer_context,
    codec_layer_prefix, codec_layer_slots, codec_slots, common_slots, decoder_layer_slots,
    deferred_slots, fm_norm_slot, fm_projection_slots, fm_slots, input_conv_slot, model_slots,
    output_conv_slot, plain, tok_embeddings_name, tok_embeddings_slot, upsample_slot,
    upsample_slots, Tower,
};
use crate::gguf::loader::{
    law_floats_are_stored, law_matrix_is_stored, lemma_all_load_both, lemma_loads_within, within,
    Purpose, Slot,
};
use crate::gguf::model::{RmsNorm, RoPE, TokEmbedStore};
use crate::gguf::names::decimal;
use crate::gguf::reader::{GgmlDtype, GgufFile, TensorError};
use crate::gguf::tts_loader::Q4TtsModelParts;
use crate::gguf::tts_model::{Q4FmLayer, Q4FmTransformer, Q4TtsBackbone, Q4TtsDecoderLayer};
use crate::tts::codec::{CodecDecoder, CodecTransformerLayer, VqCodebook};
use crate::tts::config::{CodecDecoderConfig, FmTransformerConfig, TtsBackboneConfig};

verus! {

/// The tensors of a decoder layer load.
proof fn lemma_decoder_layer_stored(file: GgufFile, prefix: Seq<char>)
    requires
        file.all_load(decoder_layer_slots(prefix)),
    ensures
        file.stores_floats(
            prefix + ".attention_norm.weight"@,
            file.float_value(prefix + ".attention_norm.weight"@),
        ),
        file.stores_matrix(
            prefix + ".attention.wq.weight"@,
            file.quantized_value(prefix + ".attention.wq.weight"@),
        ),
        file.stores_matrix(
            prefix + ".attention.wk.weight"@,
            file.quantized_value(prefix + ".attention.wk.weight"@),
        ),
        file.stores_matrix(
            prefix + ".attention.wv.weight"@,
            file.quantized_value(prefix + ".attention.wv.weight"@),
        ),
        file.stores_matrix(
            prefix + ".attention.wo.weight"@,
            file.quantized_value(prefix + ".attention.wo.weight"@),
        ),
        file.stores_floats(
            prefix + ".ffn_norm.weight"@,
            file.float_value(prefix + ".ffn_norm.weight"@),
        ),
        file.stores_matrix(
            prefix + ".feed_forward.w1.weight"@,
            file.quantized_value(prefix + ".feed_forward.w1.weight"@),
        ),
        file.stores_matrix(
            prefix + ".feed_forward.w2.weight"@,
            file.quantized_value(prefix + ".feed_forward.w2.weight"@),
        ),
        file.stores_matrix(
            prefix + ".feed_forward.w3.weight"@,
            file.quantized_value(prefix + ".feed_forward.w3.weight"@),
        ),
{
    let slots = decoder_layer_slots(prefix);
    assert(file.failure(slots[0]) is None);
    law_floats_are_stored(file, prefix + ".attention_norm.weight"@, 1);
    assert(file.failure(slots[1]) is None);
    law_matrix_is_stored(file, prefix + ".attention.wq.weight"@);
    assert(file.failure(slots[2]) is None);
    law_matrix_is_stored(file, prefix + ".attention.wk.weight"@);
    assert(file.failure(slots[3]) is None);
    law_matrix_is_stored(file, prefix + ".attention.wv.weight"@);
    assert(file.failure(slots[4]) is None);
    law_matrix_is_stored(file, prefix + ".attention.wo.weight"@);
    assert(file.failure(slots[5]) is None);
    law_floats_are_stored(file, prefix + ".ffn_norm.weight"@, 1);
    assert(file.failure(slots[6]) is None);
    law_matrix_is_stored(file, prefix + ".feed_forward.w1.weight"@);
    assert(file.failure(slots[7]) is None);
    law_matrix_is_stored(file, prefix + ".feed_forward.w2.weight"@);
    assert(file.failure(slots[8]) is None);
    law_matrix_is_stored(file, prefix + ".feed_forward.w3.weight"@);
}

/// Each weight of a layer of the backbone is the tensor that the file stores under the
/// layer's name and the name of the weight.
pub proof fn law_decoder_layer_fields(
    file: GgufFile,
    prefix: Seq<char>,
    config: TtsBackboneConfig,
    l: Q4TtsDecoderLayer,
)
    requires
        file.all_load(decoder_layer_slots(prefix)),
        l.loaded_from(file, prefix, config),
    ensures
        file.stores_floats(prefix + ".attention_norm.weight"@, l.attention_norm.weight@),
        file.stores_matrix(prefix + ".attention.wq.weight"@, l.attention.wq@.weights),
        l.attention.wq@.bias is None,
        file.stores_matrix(prefix + ".attention.wk.weight"@, l.attention.wk@.weights),
        l.attention.wk@.bias is None,
        file.stores_matrix(prefix + ".attention.wv.weight"@, l.attention.wv@.weights),
        l.attention.wv@.bias is None,
        file.stores_matrix(prefix + ".attention.wo.weight"@, l.attention.wo@.weights),
        l.attention.wo@.bias is None,
        file.stores_floats(prefix + ".ffn_norm.weight"@, l.ffn_norm.weight@),
        file.stores_matrix(prefix + ".feed_forward.w1.weight"@, l.ffn.w1@.weights),
        l.ffn.w1@.bias is None,
        file.stores_matrix(prefix + ".feed_forward.w2.weight"@, l.ffn.w2@.weights),
        l.ffn.w2@.bias is None,
        file.stores_matrix(prefix + ".feed_forward.w3.weight"@, l.ffn.w3@.weights),
        l.ffn.w3@.bias is None,
        l.attention_norm.eps == config.norm_eps,
        l.ffn_norm.eps == config.norm_eps,
        l.attention.n_heads == config.n_heads,
        l.attention.n_kv_heads == config.n_kv_heads,
        l.attention.head_dim == config.head_dim,
        l.attention.sliding_window is None,
        l.attention.fused_qkv is None,
        l.ffn.fused_gate_up is None,
{
    lemma_decoder_layer_stored(file, prefix);
}

/// Each weight of a layer of the flow-matching transformer is the tensor that the file
/// stores under the layer's name and the name of the weight.
pub proof fn law_fm_layer_fields(
    file: GgufFile,
    prefix: Seq<char>,
    config: FmTransformerConfig,
    l: Q4FmLayer,
)
    requires
        file.all_load(decoder_layer_slots(prefix)),
        l.loaded_from(file, prefix, config),
    ensures
        file.stores_floats(prefix + ".attention_norm.weight"@, l.attention_norm.weight@),
        file.stores_matrix(prefix + ".attention.wq.weight"@, l.attention.wq@.weights),
        l.attention.wq@.bias is None,
        file.stores_matrix(prefix + ".attention.wk.weight"@, l.attention.wk@.weights),
        l.attention.wk@.bias is None,
        file.stores_matrix(prefix + ".attention.wv.weight"@, l.attention.wv@.weights),
        l.attention.wv@.bias is None,
        file.stores_matrix(prefix + ".attention.wo.weight"@, l.attention.wo@.weights),
        l.attention.wo@.bias is None,
        file.stores_floats(prefix + ".ffn_norm.weight"@, l.ffn_norm.weight@),
        file.stores_matrix(prefix + ".feed_forward.w1.weight"@, l.ffn.w1@.weights),
        l.ffn.w1@.bias is None,
        file.stores_matrix(prefix + ".feed_forward.w2.weight"@, l.ffn.w2@.weights),
        l.ffn.w2@.bias is None,
        file.stores_matrix(prefix + ".feed_forward.w3.weight"@, l.ffn.w3@.weights),
        l.ffn.w3@.bias is None,
        l.attention_norm.eps == config.norm_eps,
        l.ffn_norm.eps == config.norm_eps,
        l.attention.n_heads == config.n_heads,
        l.attention.n_kv_heads == config.n_kv_heads,
        l.attention.head_dim == config.head_dim,
        l.attention.sliding_window is None,
        l.attention.fused_qkv is None,
        l.ffn.fused_gate_up is None,
{
    lemma_decoder_layer_stored(file, prefix);
}

/// A layer loads if all layers load that it stands among.
proof fn lemma_layer_among(
    file: GgufFile,
    front: Seq<Slot>,
    tower: Tower,
    i: nat,
    n: nat,
    back: Seq<Slot>,
)
    requires
        i < n,
        file.all_load(front + tower.slots(n) + back),
    ensures
        file.all_load(tower.layer_slots(i)),
{
    let rest = lemma_tower_at(front, tower, i, n, back);
    let part = within(tower.layer_context(i), tower.layer_slots(i));
    lemma_all_load_both(file, front + tower.slots(i) + part, rest);
    lemma_all_load_both(file, front + tower.slots(i), part);
    lemma_loads_within(file, tower.layer_context(i), tower.layer_slots(i));
}

/// Each weight of layer number `i` of the backbone is the tensor that the file stores under
/// that number and the name of the weight; the final norm is stored as `norm.weight`.
pub proof fn law_backbone_fields(
    file: GgufFile,
    config: TtsBackboneConfig,
    layers: Seq<Q4TtsDecoderLayer>,
    rope: RoPE,
    norm: RmsNorm,
    i: int,
)
    requires
        file.all_load(backbone_slots(config)),
        backbone_from(layers, rope, norm, file, config),
        0 <= i < layers.len(),
    ensures
        layers.len() == config.n_layers,
        rope.head_dim == config.head_dim,
        rope.max_seq_len == 131_072,
        rope.theta == config.rope_theta,
        file.stores_floats("norm.weight"@, norm.weight@),
        norm.eps == config.norm_eps,
        file.stores_floats(
            "layers."@ + decimal(i as nat) + ".attention_norm.weight"@,
            layers[i].attention_norm.weight@,
        ),
        file.stores_matrix(
            "layers."@ + decimal(i as nat) + ".attention.wq.weight"@,
            layers[i].attention.wq@.weights,
        ),
        layers[i].attention.wq@.bias is None,
        file.stores_matrix(
            "layers."@ + decimal(i as nat) + ".attention.wk.weight"@,
            layers[i].attention.wk@.weights,
        ),
        layers[i].attention.wk@.bias is None,
        file.stores_matrix(
            "layers."@ + decimal(i as nat) + ".attention.wv.weight"@,
            layers[i].attention.wv@.weights,
        ),
        layers[i].attention.wv@.bias is None,
        file.stores_matrix(
            "layers."@ + decimal(i as nat) + ".attention.wo.weight"@,
            layers[i].attention.wo@.weights,
        ),
        layers[i].attention.wo@.bias is None,
        file.stores_floats(
            "layers."@ + decimal(i as nat) + ".ffn_norm.weight"@,
            layers[i].ffn_norm.weight@,
        ),
        file.stores_matrix(
            "layers."@ + decimal(i as nat) + ".feed_forward.w1.weight"@,
            layers[i].ffn.w1@.weights,
        ),
        layers[i].ffn.w1@.bias is None,
        file.stores_matrix(
            "layers."@ + decimal(i as nat) + ".feed_forward.w2.weight"@,
            layers[i].ffn.w2@.weights,
        ),
        layers[i].ffn.w2@.bias is None,
        file.stores_matrix(
            "layers."@ + decimal(i as nat) + ".feed_forward.w3.weight"@,
            layers[i].ffn.w3@.weights,
        ),
        layers[i].ffn.w3@.bias is None,
        layers[i].attention_norm.eps == config.norm_eps,
        layers[i].ffn_norm.eps == config.norm_eps,
        layers[i].attention.n_heads == config.n_heads,
        layers[i].attention.n_kv_heads == config.n_kv_heads,
        layers[i].attention.head_dim == config.head_dim,
        layers[i].attention.sliding_window is None,
        layers[i].attention.fused_qkv is None,
        layers[i].ffn.fused_gate_up is None,
{
    let tower = Tower::Backbone;
    let n = config.n_layers as nat;
    let none = Seq::<Slot>::empty();
    let back = backbone_slots(config).skip(tower.slots(n).len() as int);
    assert(backbone_slots(config) =~= none + tower.slots(n) + back);
    lemma_layer_among(file, none, tower, i as nat, n, back);
    assert(layers[i].loaded_from(file, "layers."@ + decimal(i as nat), config));
    law_decoder_layer_fields(file, "layers."@ + decimal(i as nat), config, layers[i]);
    law_backbone_norm(file, config, layers, rope, norm);
}

/// The final norm of the backbone is stored as `norm.weight`.
pub proof fn law_backbone_norm(
    file: GgufFile,
    config: TtsBackboneConfig,
    layers: Seq<Q4TtsDecoderLayer>,
    rope: RoPE,
    norm: RmsNorm,
)
    requires
        file.all_load(backbone_slots(config)),
        backbone_from(layers, rope, norm, file, config),
    ensures
        layers.len() == config.n_layers,
        rope.head_dim == config.head_dim,
        rope.max_seq_len == 131_072,
        rope.theta == config.rope_theta,
        file.stores_floats("norm.weight"@, norm.weight@),
        norm.eps == config.norm_eps,
{
    let slots = backbone_slots(config);
    let last = slots.len() - 1;
    assert(file.failure(slots[last]) is None);
    law_floats_are_stored(file, "norm.weight"@, 1);
}

/// Each weight of the flow-matching transformer is the tensor that the file stores under
/// the name of the weight.
pub proof fn law_fm_fields(file: GgufFile, config: FmTransformerConfig, fm: Q4FmTransformer)
    requires
        file.all_load(fm_slots(config)),
        fm.loaded_from(file, config),
    ensures
        file.stores_matrix(
            "acoustic_transformer.llm_projection.weight"@,
            fm.llm_projection@.weights,
        ),
        fm.llm_projection@.bias is None,
        file.stores_matrix(
            "acoustic_transformer.time_projection.weight"@,
            fm.time_projection@.weights,
        ),
        fm.time_projection@.bias is None,
        file.stores_floats(
            "acoustic_transformer.input_projection.weight"@,
            fm.input_projection.weight@,
        ),
        file.stores_matrix(
            "acoustic_transformer.semantic_codebook_output.weight"@,
            fm.semantic_codebook_output@.weights,
        ),
        fm.semantic_codebook_output@.bias is None,
        file.stores_floats(
            "acoustic_transformer.acoustic_codebook_output.weight"@,
            fm.acoustic_codebook_output.weight@,
        ),
        file.stores_floats("acoustic_transformer.norm.weight"@, fm.norm.weight@),
        fm.norm.eps == config.norm_eps,
        fm.layers@.len() == config.n_layers,
        fm.time_embedding.dim == config.dim,
        fm.rope.head_dim == config.head_dim,
        fm.rope.max_seq_len == 16,
        fm.rope.theta == config.rope_theta,
        fm.config == config,
{
    let slots = fm_slots(config);
    let projections = fm_projection_slots();
    let layers = Tower::FlowMatching.slots(config.n_layers as nat);
    lemma_all_load_both(file, projections + layers, seq![fm_norm_slot()]);
    lemma_all_load_both(file, projections, layers);
    assert(seq![fm_norm_slot()][0] == fm_norm_slot());
    assert(file.failure(fm_norm_slot()) is None);
    law_floats_are_stored(file, "acoustic_transformer.norm.weight"@, 1);
    assert(file.failure(projections[0]) is None);
    law_matrix_is_stored(file, "acoustic_transformer.llm_projection.weight"@);
    assert(file.failure(projections[1]) is None);
    law_matrix_is_stored(file, "acoustic_transformer.time_projection.weight"@);
    assert(file.failure(projections[2]) is None);
    law_floats_are_stored(file, "acoustic_transformer.input_projection.weight"@, 2);
    assert(file.failure(projections[3]) is None);
    law_matrix_is_stored(file, "acoustic_transformer.semantic_codebook_output.weight"@);
    assert(file.failure(projections[4]) is None);
    law_floats_are_stored(file, "acoustic_transformer.acoustic_codebook_output.weight"@, 2);
}

/// Each weight of layer number `i` of the flow-matching transformer is the tensor that the
/// file stores under that number and the name of the weight.
pub proof fn law_fm_layers_fields(
    file: GgufFile,
    config: FmTransformerConfig,
    fm: Q4FmTransformer,
    i: int,
)
    requires
        file.all_load(fm_slots(config)),
        fm.loaded_from(file, config),
        0 <= i < fm.layers@.len(),
    ensures
        file.stores_floats(
            "acoustic_transformer.layers."@ + decimal(i as nat) + ".attention_norm.weight"@,
            fm.layers@[i].attention_norm.weight@,
        ),
        file.stores_matrix(
            "acoustic_transformer.layers."@ + decimal(i as nat) + ".attention.wq.weight"@,
            fm.layers@[i].attention.wq@.weights,
        ),
        fm.layers@[i].attention.wq@.bias is None,
        file.stores_matrix(
            "acoustic_transformer.layers."@ + decimal(i as nat) + ".attention.wk.weight"@,
            fm.layers@[i].attention.wk@.weights,
        ),
        fm.layers@[i].attention.wk@.bias is None,
        file.stores_matrix(
            "acoustic_transformer.layers."@ + decimal(i as nat) + ".attention.wv.weight"@,
            fm.layers@[i].attention.wv@.weights,
        ),
        fm.layers@[i].attention.wv@.bias is None,
        file.stores_matrix(
            "acoustic_transformer.layers."@ + decimal(i as nat) + ".attention.wo.weight"@,
            fm.layers@[i].attention.wo@.weights,
        ),
        fm.layers@[i].attention.wo@.bias is None,
        file.stores_floats(
            "acoustic_transformer.layers."@ + decimal(i as nat) + ".ffn_norm.weight"@,
            fm.layers@[i].ffn_norm.weight@,
        ),
        file.stores_matrix(
            "acoustic_transformer.layers."@ + decimal(i as nat) + ".feed_forward.w1.weight"@,
            fm.layers@[i].ffn.w1@.weights,
        ),
        fm.layers@[i].ffn.w1@.bias is None,
        file.stores_matrix(
            "acoustic_transformer.layers."@ + decimal(i as nat) + ".feed_forward.w2.weight"@,
            fm.layers@[i].ffn.w2@.weights,
        ),
        fm.layers@[i].ffn.w2@.bias is None,
        file.stores_matrix(
            "acoustic_transformer.layers."@ + decimal(i as nat) + ".feed_forward.w3.weight"@,
            fm.layers@[i].ffn.w3@.weights,
        ),
        fm.layers@[i].ffn.w3@.bias is None,
        fm.layers@[i].attention_norm.eps == config.norm_eps,
        fm.layers@[i].ffn_norm.eps == config.norm_eps,
        fm.layers@[i].attention.n_heads == config.n_heads,
        fm.layers@[i].attention.n_kv_heads == config.n_kv_heads,
        fm.layers@[i].attention.head_dim == config.head_dim,
        fm.layers@[i].attention.sliding_window is None,
        fm.layers@[i].attention.fused_qkv is None,
        fm.layers@[i].ffn.fused_gate_up is None,
{
    let tower = Tower::FlowMatching;
    let prefix = "acoustic_transformer.layers."@ + decimal(i as nat);
    lemma_layer_among(
        file,
        fm_projection_slots(),
        tower,
        i as nat,
        config.n_layers as nat,
        seq![fm_norm_slot()],
    );
    assert(fm.layers@[i].loaded_from(file, prefix, config));
    law_fm_layer_fields(file, prefix, config, fm.layers@[i]);
}

/// Each weight of a transformer layer of the codec is the tensor that the file stores under
/// the layer's name and the name of the weight.
pub proof fn law_codec_layer_fields(
    file: GgufFile,
    prefix: Seq<char>,
    config: CodecDecoderConfig,
    sliding_window: usize,
    l: CodecTransformerLayer,
)
    requires
        file.all_load(codec_layer_slots(prefix)),
        l.loaded_from(file, prefix, config, sliding_window),
    ensures
        file.stores_floats(prefix + ".attention.wq.weight"@, l.attention.wq.weight@),
        file.stores_floats(prefix + ".attention.wk.weight"@, l.attention.wk.weight@),
        file.stores_floats(prefix + ".attention.wv.weight"@, l.attention.wv.weight@),
        file.stores_floats(prefix + ".attention.wo.weight"@, l.attention.wo.weight@),
        file.stores_floats(prefix + ".attention.q_norm.weight"@, l.attention.qk_norm.q_norm@),
        file.stores_floats(prefix + ".attention.k_norm.weight"@, l.attention.qk_norm.k_norm@),
        file.stores_floats(prefix + ".attention_scale"@, l.attention_scale.weight@),
        file.stores_floats(prefix + ".ffn_scale"@, l.ffn_scale.weight@),
        file.stores_floats(prefix + ".attention_norm.weight"@, l.attention_norm.weight@),
        file.stores_floats(prefix + ".ffn_norm.weight"@, l.ffn_norm.weight@),
        file.stores_floats(prefix + ".feed_forward.w1.weight"@, l.ffn.w1.weight@),
        file.stores_floats(prefix + ".feed_forward.w2.weight"@, l.ffn.w2.weight@),
        file.stores_floats(prefix + ".feed_forward.w3.weight"@, l.ffn.w3.weight@),
        l.attention_norm.eps == config.norm_eps,
        l.ffn_norm.eps == config.norm_eps,
        l.attention.n_heads == config.n_heads,
        l.attention.head_dim == config.head_dim,
        l.attention.qk_norm.n_heads == config.n_heads,
        l.attention.qk_norm.head_dim == config.head_dim,
        l.attention.sliding_window == sliding_window,
{
    let slots = codec_layer_slots(prefix);
    assert(file.failure(slots[0]) is None);
    law_floats_are_stored(file, prefix + ".attention.wq.weight"@, 2);
    assert(file.failure(slots[1]) is None);
    law_floats_are_stored(file, prefix + ".attention.wk.weight"@, 2);
    assert(file.failure(slots[2]) is None);
    law_floats_are_stored(file, prefix + ".attention.wv.weight"@, 2);
    assert(file.failure(slots[3]) is None);
    law_floats_are_stored(file, prefix + ".attention.wo.weight"@, 2);
    assert(file.failure(slots[4]) is None);
    law_floats_are_stored(file, prefix + ".attention.q_norm.weight"@, 1);
    assert(file.failure(slots[5]) is None);
    law_floats_are_stored(file, prefix + ".attention.k_norm.weight"@, 1);
    assert(file.failure(slots[6]) is None);
    law_floats_are_stored(file, prefix + ".attention_scale"@, 1);
    assert(file.failure(slots[7]) is None);
    law_floats_are_stored(file, prefix + ".ffn_scale"@, 1);
    assert(file.failure(slots[8]) is None);
    law_floats_are_stored(file, prefix + ".attention_norm.weight"@, 1);
    assert(file.failure(slots[9]) is None);
    law_floats_are_stored(file, prefix + ".ffn_norm.weight"@, 1);
    assert(file.failure(slots[10]) is None);
    law_floats_are_stored(file, prefix + ".feed_forward.w1.weight"@, 2);
    assert(file.failure(slots[11]) is None);
    law_floats_are_stored(file, prefix + ".feed_forward.w2.weight"@, 2);
    assert(file.failure(slots[12]) is None);
    law_floats_are_stored(file, prefix + ".feed_forward.w3.weight"@, 2);
}

/// Each weight of layer `l` of group `g` of the codec is the tensor that the file stores
/// under the numbers of the block, which is `2 * g + 1`, and of the layer, and the name of
/// the weight.
pub proof fn law_codec_groups_fields(
    file: GgufFile,
    config: CodecDecoderConfig,
    codec: CodecDecoder,
    g: nat,
    l: nat,
)
    requires
        file.all_load(codec_slots(config)),
        codec.loaded_from(file, config),
        g < 4,
        l < config.layers_per_block,
    ensures
        codec.transformer_groups@.len() == 4,
        codec.transformer_groups@[g as int]@.len() == config.layers_per_block,
        ({
            let prefix = "audio_tokenizer.decoder_blocks."@ + decimal(2 * g + 1) + ".layers."@
                + decimal(l);
            let layer = codec.transformer_groups@[g as int]@[l as int];
            &&& file.stores_floats(prefix + ".attention.wq.weight"@, layer.attention.wq.weight@)
            &&& file.stores_floats(prefix + ".attention.wk.weight"@, layer.attention.wk.weight@)
            &&& file.stores_floats(prefix + ".attention.wv.weight"@, layer.attention.wv.weight@)
            &&& file.stores_floats(prefix + ".attention.wo.weight"@, layer.attention.wo.weight@)
            &&& file.stores_floats(
                prefix + ".attention.q_norm.weight"@,
                layer.attention.qk_norm.q_norm@,
            )
            &&& file.stores_floats(
                prefix + ".attention.k_norm.weight"@,
                layer.attention.qk_norm.k_norm@,
            )
            &&& file.stores_floats(prefix + ".attention_scale"@, layer.attention_scale.weight@)
            &&& file.stores_floats(prefix + ".ffn_scale"@, layer.ffn_scale.weight@)
            &&& file.stores_floats(prefix + ".attention_norm.weight"@, layer.attention_norm.weight@)
            &&& file.stores_floats(prefix + ".ffn_norm.weight"@, layer.ffn_norm.weight@)
            &&& file.stores_floats(prefix + ".feed_forward.w1.weight"@, layer.ffn.w1.weight@)
            &&& file.stores_floats(prefix + ".feed_forward.w2.weight"@, layer.ffn.w2.weight@)
            &&& file.stores_floats(prefix + ".feed_forward.w3.weight"@, layer.ffn.w3.weight@)
            &&& layer.attention_norm.eps == config.norm_eps
            &&& layer.ffn_norm.eps == config.norm_eps
            &&& layer.attention.n_heads == config.n_heads
            &&& layer.attention.head_dim == config.head_dim
            &&& layer.attention.qk_norm.n_heads == config.n_heads
            &&& layer.attention.qk_norm.head_dim == config.head_dim
            &&& layer.attention.sliding_window == config.sliding_windows[g as int]
        }),
{
    let n = config.layers_per_block as nat;
    let prefix = codec_layer_prefix(g, l);
    let all = codec_groups_slots(4, config);
    let back = upsample_slots(3) + seq![output_conv_slot()] + codebook_slots();
    assert(codec_slots(config) =~= seq![input_conv_slot()] + all + back);
    lemma_all_load_both(file, seq![input_conv_slot()] + all, back);
    lemma_all_load_both(file, seq![input_conv_slot()], all);
    let rest = lemma_groups_at(g, config);
    let group = codec_group_slots(g, n);
    lemma_all_load_both(file, codec_groups_slots(g, config) + group, rest);
    lemma_all_load_both(file, codec_groups_slots(g, config), group);
    let more = lemma_group_at(g, l, n);
    let part = codec_layer_slots(codec_layer_prefix(g, l));
    let wrapped = within(codec_layer_context(g, l), part);
    lemma_all_load_both(file, codec_group_slots(g, l) + wrapped, more);
    lemma_all_load_both(file, codec_group_slots(g, l), wrapped);
    lemma_loads_within(file, codec_layer_context(g, l), part);
    let layer = codec.transformer_groups@[g as int]@[l as int];
    assert(layer.loaded_from(file, prefix, config, config.sliding_windows[g as int]));
    law_codec_layer_fields(file, prefix, config, config.sliding_windows[g as int], layer);
}

/// Each convolution of the codec is the tensor that the file stores under its name: the
/// first one as block 0, those that double the rate as blocks 2, 4 and 6, and the last one
/// as the output projection.
pub proof fn law_codec_fields(file: GgufFile, config: CodecDecoderConfig, codec: CodecDecoder)
    requires
        file.all_load(codec_slots(config)),
        codec.loaded_from(file, config),
    ensures
        file.stores_floats(
            "audio_tokenizer.decoder_blocks.0.conv.weight"@,
            codec.input_conv.weight@,
        ),
        codec.input_conv.stride == 1,
        codec.upsample_convs@.len() == 3,
        forall|i: int|
            0 <= i < 3 ==> file.stores_floats(
                "audio_tokenizer.decoder_blocks."@ + decimal((2 * i + 2) as nat) + ".conv.weight"@,
                (#[trigger] codec.upsample_convs@[i]).weight@,
            ) && codec.upsample_convs@[i].stride == 2,
        file.stores_floats(
            "audio_tokenizer.output_proj.conv.weight"@,
            codec.output_conv.weight@,
        ),
        codec.output_conv.stride == 1,
        codec.transformer_groups@.len() == 4,
        file.all_load(codebook_slots()),
        codec.vq_codebook.loaded_from(file),
{
    let s1 = seq![input_conv_slot()];
    let s2 = codec_groups_slots(4, config);
    let s3 = upsample_slots(3);
    let s4 = seq![output_conv_slot()];
    let s5 = codebook_slots();
    lemma_all_load_both(file, s1 + s2 + s3 + s4, s5);
    lemma_all_load_both(file, s1 + s2 + s3, s4);
    lemma_all_load_both(file, s1 + s2, s3);
    lemma_all_load_both(file, s1, s2);
    assert(s1[0] == input_conv_slot() && s4[0] == output_conv_slot());
    assert(file.failure(input_conv_slot()) is None);
    assert(file.failure(output_conv_slot()) is None);
    law_floats_are_stored(file, "audio_tokenizer.decoder_blocks.0.conv.weight"@, 3);
    law_floats_are_stored(file, "audio_tokenizer.output_proj.conv.weight"@, 3);
    assert forall|i: int| 0 <= i < 3 implies file.stores_floats(
        "audio_tokenizer.decoder_blocks."@ + decimal((2 * i + 2) as nat) + ".conv.weight"@,
        (#[trigger] codec.upsample_convs@[i]).weight@,
    ) && codec.upsample_convs@[i].stride == 2 by {
        assert(s3[i] == upsample_slot(i as nat));
        assert(file.failure(s3[i]) is None);
        law_floats_are_stored(
            file,
            "audio_tokenizer.decoder_blocks."@ + decimal((2 * i + 2) as nat) + ".conv.weight"@,
            3,
        );
    }
}

/// Component `c` of entry `r` of the codebook is word number `r * embed_dim + c` of the
/// tensor of sums, and the uses of entry `r` are word number `r` of the tensor of uses. The
/// entries are the dimension of the sums that varies slowest.
pub proof fn law_codebook_fields(file: GgufFile, codebook: VqCodebook)
    requires
        file.all_load(codebook_slots()),
        codebook.loaded_from(file),
    ensures
        ({
            let sums = file.data(
                "audio_tokenizer.quantizer.semantic_codebook.embedding_sum"@,
            )->Ok_0;
            let uses = file.data(
                "audio_tokenizer.quantizer.semantic_codebook.cluster_usage"@,
            )->Ok_0;
            let entry = file.entry(
                "audio_tokenizer.quantizer.semantic_codebook.embedding_sum"@,
            )->0;
            let n = codebook.n_entries as int;
            let dim = codebook.embed_dim as int;
            &&& entry.dims.len() == 2
            &&& n == entry.dims[1]
            &&& dim == entry.dims[0]
            &&& codebook.embedding_sum@.len() == n * dim
            &&& codebook.cluster_usage@.len() == n
            &&& 4 * (n * dim) <= sums.len()
            &&& 4 * n <= uses.len()
            &&& forall|r: int, c: int|
                #![trigger codebook.embedding_sum@[r * dim + c]]
                0 <= r < n && 0 <= c < dim ==> codebook.embedding_sum@[r * dim + c] == sums[4 * (r
                    * dim + c)] + 0x100 * sums[4 * (r * dim + c) + 1] + 0x1_0000 * sums[4 * (r * dim
                    + c) + 2] + 0x100_0000 * sums[4 * (r * dim + c) + 3]
            &&& forall|r: int|
                0 <= r < n ==> #[trigger] codebook.cluster_usage@[r] == uses[4 * r] + 0x100
                    * uses[4 * r + 1] + 0x1_0000 * uses[4 * r + 2] + 0x100_0000 * uses[4 * r + 3]
        }),
{
    let slots = codebook_slots();
    assert(file.failure(slots[1]) is None);
    assert(file.failure(slots[2]) is None);
    assert(file.failure(slots[3]) is None);
    assert(file.failure(slots[4]) is None);
    let sums = file.data(codebook_entries_name())->Ok_0;
    let uses = file.data(codebook_usage_name())->Ok_0;
    let n = codebook.n_entries as int;
    let dim = codebook.embed_dim as int;
    law_words_in_order(sums);
    law_words_in_order(uses);
    assert forall|r: int, c: int|
        #![trigger codebook.embedding_sum@[r * dim + c]]
        0 <= r < n && 0 <= c < dim implies codebook.embedding_sum@[r * dim + c] == sums[4 * (r * dim
        + c)] + 0x100 * sums[4 * (r * dim + c) + 1] + 0x1_0000 * sums[4 * (r * dim + c) + 2]
        + 0x100_0000 * sums[4 * (r * dim + c) + 3] by {
        let i = r * dim + c;
        assert(0 <= i < n * dim) by (nonlinear_arith)
            requires
                0 <= r < n,
                0 <= c < dim,
                i == r * dim + c,
        ;
        assert(codebook.embedding_sum@[i] == singles(sums)[i]);
    }
}

/// The token embeddings are what the file stores under their name: words if it stores
/// floats, and the elements of its blocks, row after row, if it stores blocks.
pub proof fn law_token_table(file: GgufFile, name: Seq<char>)
    requires
        file.table_failure(name) is None,
    ensures
        ({
            let t = file.table_value(name);
            let entry = file.entry(name)->0;
            let bytes = file.data(name)->Ok_0;
            &&& file.entry(name) is Some
            &&& file.data(name) is Ok
            &&& entry.dtype == GgmlDtype::F32 || entry.dtype == GgmlDtype::F16
                ==> file.stores_floats(name, t)
            &&& entry.dtype == GgmlDtype::Q4_0 || entry.dtype == GgmlDtype::Q8_0 ==> {
                &&& entry.dims.len() >= 2
                &&& t.shape == seq![
                    entry.dims[entry.dims.len() - 1],
                    entry.dims[entry.dims.len() - 2],
                ]
                &&& t.values matches FloatsView::Scaled(v)
                &&& v.len() == t.shape[0] * t.shape[1]
                &&& forall|b: int, i: int|
                    #![trigger bytes[18 * b + 2 + i]]
                    entry.dtype == GgmlDtype::Q4_0 && 0 <= b && 32 * b + 32 <= v.len() && 0 <= i
                        < 16 ==> {
                        &&& v[32 * b + i].quant == bytes[18 * b + 2 + i] as int % 16 - 8
                        &&& v[32 * b + 16 + i].quant == bytes[18 * b + 2 + i] as int / 16 - 8
                        &&& v[32 * b + i].scale == bytes[18 * b] + 0x100 * bytes[18 * b + 1]
                        &&& v[32 * b + 16 + i].scale == bytes[18 * b] + 0x100 * bytes[18 * b + 1]
                    }
                &&& forall|b: int, i: int|
                    #![trigger bytes[34 * b + 2 + i]]
                    entry.dtype == GgmlDtype::Q8_0 && 0 <= b && 32 * b + 32 <= v.len() && 0 <= i
                        < 32 ==> {
                        &&& bytes[34 * b + 2 + i] < 128 ==> v[32 * b + i].quant == bytes[34 * b + 2
                            + i]
                        &&& bytes[34 * b + 2 + i] >= 128 ==> v[32 * b + i].quant == bytes[34 * b + 2
                            + i] - 256
                        &&& v[32 * b + i].scale == bytes[34 * b] + 0x100 * bytes[34 * b + 1]
                    }
            }
        }),
{
    let entry = file.entry(name)->0;
    if entry.dtype == GgmlDtype::F32 || entry.dtype == GgmlDtype::F16 {
        law_floats_are_stored(file, name, 2);
    } else {
        let shape = entry.dims.reverse();
        let v = file.table_value(name).values->Scaled_0;
        law_elements_of_bytes(
            file.data(name)->Ok_0,
            entry.dtype,
            shape[0] as nat * shape[1] as nat,
            v,
        );
    }
}

/// The embeddings of audio codes are stored under their name, and the parts of the model
/// load if the whole does.
pub proof fn law_model_parts_load(file: GgufFile)
    ensures
        file.all_load(model_slots()) ==> file.table_failure(
            "mm_audio_embeddings.tok_embeddings.weight"@,
        ) is None && file.all_load(common_slots()),
        file.all_load(deferred_slots()) ==> file.data(
            "mm_audio_embeddings.tok_embeddings.weight"@,
        ) is Ok && file.all_load(common_slots()),
        file.all_load(common_slots()) ==> {
            &&& file.all_load(backbone_slots(TtsBackboneConfig::standard()))
            &&& file.all_load(fm_slots(FmTransformerConfig::standard()))
            &&& file.all_load(codec_slots(CodecDecoderConfig::standard()))
            &&& file.stores_floats(
                "mm_audio_embeddings.audio_codebook_embeddings.embeddings.weight"@,
                file.float_value(
                    "mm_audio_embeddings.audio_codebook_embeddings.embeddings.weight"@,
                ),
            )
        },
{
    let s1 = backbone_slots(TtsBackboneConfig::standard());
    let s2 = seq![audio_codebook_slot()];
    let s3 = fm_slots(FmTransformerConfig::standard());
    let s4 = codec_slots(CodecDecoderConfig::standard());
    lemma_all_load_both(file, s1 + s2 + s3, s4);
    lemma_all_load_both(file, s1 + s2, s3);
    lemma_all_load_both(file, s1, s2);
    assert(s2[0] == audio_codebook_slot());
    if file.all_load(common_slots()) {
        assert(file.failure(audio_codebook_slot()) is None);
        law_floats_are_stored(
            file,
            "mm_audio_embeddings.audio_codebook_embeddings.embeddings.weight"@,
            2,
        );
    }
    let table = seq![tok_embeddings_slot()];
    let bytes = seq![plain(tok_embeddings_name(), Purpose::Bytes)];
    let matrix = seq![plain(tok_embeddings_name(), Purpose::Matrix)];
    lemma_all_load_both(file, table, common_slots());
    lemma_all_load_both(file, bytes, common_slots());
    lemma_all_load_both(file, bytes + common_slots(), matrix);
    assert(table[0] == tok_embeddings_slot());
    assert(bytes[0] == plain(tok_embeddings_name(), Purpose::Bytes));
    if file.all_load(model_slots()) {
        assert(file.failure(table[0]) is None);
    }
    if file.all_load(deferred_slots()) {
        assert(file.failure(bytes[0]) is None);
    }
}

/// A model that was loaded at once has the weights that the file stores under their names.
pub proof fn law_loaded_fields(file: GgufFile, backbone: Q4TtsBackbone)
    requires
        file.all_load(model_slots()),
        backbone.loaded_from(file),
    ensures
        backbone.config == TtsBackboneConfig::standard(),
        backbone.layers@.len() == 26,
        file.all_load(backbone_slots(backbone.config)),
        backbone_from(backbone.layers@, backbone.rope, backbone.norm, file, backbone.config),
        backbone.rope.max_seq_len == 131_072,
        file.stores_floats("norm.weight"@, backbone.norm.weight@),
        file.stores_floats(
            "mm_audio_embeddings.audio_codebook_embeddings.embeddings.weight"@,
            backbone.audio_codebook_embeddings@,
        ),
{
    law_model_parts_load(file);
    law_backbone_norm(
        file,
        backbone.config,
        backbone.layers@,
        backbone.rope,
        backbone.norm,
    );
}

/// A model that was finalized has the weights that the file stores under their names, and
/// the token embeddings as the stored blocks, once for the output projection and once for
/// lookups.
pub proof fn law_finalized_fields(
    file: GgufFile,
    parts: Q4TtsModelParts,
    backbone: Q4TtsBackbone,
    fm: Q4FmTransformer,
    codec: CodecDecoder,
    i: int,
)
    requires
        file.all_load(deferred_slots()),
        parts.loaded_from(file),
        parts.finalize_failure() is None,
        parts.assembled(backbone, fm, codec),
        backbone.layers@.len() == parts.backbone_layers@.len(),
        forall|k: int|
            0 <= k < backbone.layers@.len() ==> (#[trigger] backbone.layers@[k]).is_fused(
                parts.backbone_layers@[k],
            ),
        0 <= i < backbone.layers@.len(),
    ensures
        backbone.layers@.len() == backbone.config.n_layers,
        backbone.config == TtsBackboneConfig::standard(),
        file.stores_floats("norm.weight"@, backbone.norm.weight@),
        file.stores_floats(
            "mm_audio_embeddings.audio_codebook_embeddings.embeddings.weight"@,
            backbone.audio_codebook_embeddings@,
        ),
        backbone.rope.max_seq_len == 131_072,
        backbone.tok_embeddings matches TokEmbedStore::Q4 { lm_head, cpu_bytes, quant_dtype } && {
            &&& file.stores_matrix(
                "mm_audio_embeddings.tok_embeddings.weight"@,
                lm_head@.weights,
            )
            &&& lm_head@.bias is None
            &&& cpu_bytes@ == lm_head@.weights.raw
            &&& quant_dtype == file.entry("mm_audio_embeddings.tok_embeddings.weight"@)->0.dtype
            &&& lm_head@.weights.dtype == quant_dtype
            &&& lm_head@.weights.valid()
        },
        file.stores_floats(
            "layers."@ + decimal(i as nat) + ".attention_norm.weight"@,
            backbone.layers@[i].attention_norm.weight@,
        ),
        file.stores_floats(
            "layers."@ + decimal(i as nat) + ".ffn_norm.weight"@,
            backbone.layers@[i].ffn_norm.weight@,
        ),
        file.stores_matrix(
            "layers."@ + decimal(i as nat) + ".attention.wq.weight"@,
            backbone.layers@[i].attention.wq@.weights,
        ),
        file.stores_matrix(
            "layers."@ + decimal(i as nat) + ".attention.wk.weight"@,
            backbone.layers@[i].attention.wk@.weights,
        ),
        file.stores_matrix(
            "layers."@ + decimal(i as nat) + ".attention.wv.weight"@,
            backbone.layers@[i].attention.wv@.weights,
        ),
        file.stores_matrix(
            "layers."@ + decimal(i as nat) + ".attention.wo.weight"@,
            backbone.layers@[i].attention.wo@.weights,
        ),
        file.stores_matrix(
            "layers."@ + decimal(i as nat) + ".feed_forward.w1.weight"@,
            backbone.layers@[i].ffn.w1@.weights,
        ),
        file.stores_matrix(
            "layers."@ + decimal(i as nat) + ".feed_forward.w2.weight"@,
            backbone.layers@[i].ffn.w2@.weights,
        ),
        file.stores_matrix(
            "layers."@ + decimal(i as nat) + ".feed_forward.w3.weight"@,
            backbone.layers@[i].ffn.w3@.weights,
        ),
        fm.loaded_from(file, FmTransformerConfig::standard()),
        codec.loaded_from(file, CodecDecoderConfig::standard()),
{
    law_model_parts_load(file);
    law_backbone_fields(
        file,
        parts.config,
        parts.backbone_layers@,
        parts.backbone_rope,
        parts.backbone_norm,
        i,
    );
    assert(backbone.layers@[i].is_fused(parts.backbone_layers@[i]));
    lemma_table_rank(file);
}

/// Deferred token embeddings have two dimensions or more.
proof fn lemma_table_rank(file: GgufFile)
    requires
        file.all_load(deferred_slots()),
    ensures
        file.entry("mm_audio_embeddings.tok_embeddings.weight"@) matches Some(e) && e.dims.len()
            >= 2,
{
    let slots = deferred_slots();
    let last = slots.len() - 1;
    assert(slots[last] == plain(tok_embeddings_name(), Purpose::Matrix));
    assert(file.failure(slots[last]) is None);
}

/// The second phase succeeds exactly if the token embeddings are blocks that fill the
/// matrix, and their sizes are machine numbers.
pub proof fn law_when_finalize_succeeds(parts: Q4TtsModelParts, count: nat)
    requires
        count == parts.tok_embed_shape[0] * parts.tok_embed_shape[1],
    ensures
        parts.tok_embed_dtype == GgmlDtype::Q4_0 ==> (parts.finalize_failure() is None <==> count
            <= usize::MAX && count % 32 == 0 && parts.tok_embed_q4_bytes@.len() == 18 * (count / 32)
            && 18 * (count / 32) <= usize::MAX),
        parts.tok_embed_dtype == GgmlDtype::Q8_0 ==> (parts.finalize_failure() is None <==> count
            <= usize::MAX && count % 32 == 0 && parts.tok_embed_q4_bytes@.len() == 34 * (count / 32)
            && 34 * (count / 32) <= usize::MAX),
        parts.tok_embed_dtype == GgmlDtype::F32 || parts.tok_embed_dtype == GgmlDtype::F16
            ==> parts.finalize_failure() is Some,
        count > usize::MAX ==> parts.finalize_failure() == Some(TensorError::TooLarge),
{
}

} // verus!
