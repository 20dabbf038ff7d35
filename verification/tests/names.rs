use voxtral_mini_realtime::gguf::names::{joined, numbered};
use voxtral_mini_realtime::tts::config::{
    CodecDecoderConfig, FmTransformerConfig, TtsBackboneConfig,
};

#[test]
fn test_q4_tts_model_loader_tensor_names() {
    let config = TtsBackboneConfig::default();
    assert_eq!(config.n_layers, 26);

    // Backbone layer names
    let prefix = numbered("layers.", 0);
    assert_eq!(prefix, "layers.0");
    assert_eq!(
        joined(&prefix, ".attention_norm.weight"),
        "layers.0.attention_norm.weight"
    );
    assert_eq!(
        joined(&prefix, ".attention.wq.weight"),
        "layers.0.attention.wq.weight"
    );
    assert_eq!(
        joined(&prefix, ".feed_forward.w1.weight"),
        "layers.0.feed_forward.w1.weight"
    );

    // FM layer names
    let fm_prefix = numbered("acoustic_transformer.layers.", 0);
    assert_eq!(fm_prefix, "acoustic_transformer.layers.0");
    assert_eq!(
        joined(&fm_prefix, ".attention_norm.weight"),
        "acoustic_transformer.layers.0.attention_norm.weight"
    );
    assert_eq!(
        joined(&fm_prefix, ".attention.wq.weight"),
        "acoustic_transformer.layers.0.attention.wq.weight"
    );

    // FM projection names
    assert_eq!(
        joined("acoustic_transformer", ".llm_projection.weight"),
        "acoustic_transformer.llm_projection.weight"
    );
    assert_eq!(
        joined("acoustic_transformer", ".input_projection.weight"),
        "acoustic_transformer.input_projection.weight"
    );

    // Codec names
    let block = numbered("audio_tokenizer.decoder_blocks.", 0);
    assert_eq!(
        joined(&block, ".conv.weight"),
        "audio_tokenizer.decoder_blocks.0.conv.weight"
    );
    let block = numbered("audio_tokenizer.decoder_blocks.", 1);
    let layer = numbered(&joined(&block, ".layers."), 0);
    assert_eq!(
        joined(&layer, ".attention.wq.weight"),
        "audio_tokenizer.decoder_blocks.1.layers.0.attention.wq.weight"
    );
}

#[test]
fn numbers_are_written_in_decimal() {
    assert_eq!(numbered("", 0), "0");
    assert_eq!(numbered("x", 9), "x9");
    assert_eq!(numbered("x", 10), "x10");
    assert_eq!(numbered("layers.", 25), "layers.25");
    assert_eq!(numbered("", usize::MAX), usize::MAX.to_string());
    for n in 0..1000 {
        assert_eq!(numbered("n", n), format!("n{n}"));
    }
}

#[test]
fn layers_have_their_own_names() {
    let a = joined(&numbered("layers.", 1), ".attention.wq.weight");
    let b = joined(&numbered("layers.", 11), ".attention.wq.weight");
    let c = joined(&numbered("layers.", 1), "");
    assert_ne!(a, b);
    assert_ne!(b, c);
}

#[test]
fn floating_point_constants_are_bit_patterns() {
    let backbone = TtsBackboneConfig::default();
    assert_eq!(f64::from_bits(backbone.norm_eps), 1e-5);
    assert_eq!(f64::from_bits(backbone.rope_theta), 1e6);
    assert_eq!(backbone.d_model, 3072);
    assert_eq!((backbone.n_heads, backbone.n_kv_heads, backbone.head_dim), (32, 8, 128));

    let fm = FmTransformerConfig::default();
    assert_eq!(f64::from_bits(fm.norm_eps), 1e-5);
    assert_eq!(f64::from_bits(fm.rope_theta), 1e4);
    assert_eq!(fm.n_layers, 3);

    let codec = CodecDecoderConfig::default();
    assert_eq!(f64::from_bits(codec.norm_eps), 1e-2);
    assert_eq!(codec.layers_per_block, 2);
    assert_eq!(codec.sliding_windows, [2, 4, 8, 16]);
}
