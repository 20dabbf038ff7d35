use voxtral_mini_realtime::gguf::floats::FloatBits;
use voxtral_mini_realtime::gguf::loader::LoadError;
use voxtral_mini_realtime::gguf::model::TokEmbedStore;
use voxtral_mini_realtime::gguf::reader::{GgmlDtype, GgufError, TensorError};
use voxtral_mini_realtime::gguf::tensor::QuantError;
use voxtral_mini_realtime::gguf::tts_loader::Q4TtsModelLoader;
use voxtral_mini_realtime::gguf::tts_model::Q4TtsDecoderLayer;
use voxtral_mini_realtime::tts::config::{CodecDecoderConfig, TtsBackboneConfig};

const TOK: &str = "mm_audio_embeddings.tok_embeddings.weight";
const AUDIO: &str = "mm_audio_embeddings.audio_codebook_embeddings.embeddings.weight";
const ENTRIES: &str = "audio_tokenizer.quantizer.semantic_codebook.embedding_sum";
const USAGE: &str = "audio_tokenizer.quantizer.semantic_codebook.cluster_usage";

struct Entry {
    name: String,
    dims: Vec<u64>,
    code: u32,
    data: Vec<u8>,
}

/// The tensors of a model in which every matrix is as small as it can be. The bytes
/// of a tensor tell its place in the list.
struct Model {
    entries: Vec<Entry>,
}

impl Model {
    fn push(&mut self, name: &str, dims: &[u64], code: u32, len: usize) {
        let mark = self.entries.len() as u8;
        self.entries.push(Entry {
            name: name.to_string(),
            dims: dims.to_vec(),
            code,
            data: vec![mark; len],
        });
    }

    fn floats(&mut self, name: &str, rank: usize) {
        self.push(name, &vec![1; rank], 0, 4);
    }

    fn quantized(&mut self, name: &str) {
        self.push(name, &[32, 1], 2, 18);
    }

    fn decoder_layer(&mut self, prefix: &str) {
        self.floats(&format!("{prefix}.attention_norm.weight"), 1);
        for w in ["wq", "wk", "wv", "wo"] {
            self.quantized(&format!("{prefix}.attention.{w}.weight"));
        }
        self.floats(&format!("{prefix}.ffn_norm.weight"), 1);
        for w in ["w1", "w2", "w3"] {
            self.quantized(&format!("{prefix}.feed_forward.{w}.weight"));
        }
    }

    fn codec_layer(&mut self, prefix: &str) {
        for w in ["wq", "wk", "wv", "wo"] {
            self.floats(&format!("{prefix}.attention.{w}.weight"), 2);
        }
        for w in ["q_norm", "k_norm"] {
            self.floats(&format!("{prefix}.attention.{w}.weight"), 1);
        }
        for w in ["attention_scale", "ffn_scale", "attention_norm.weight", "ffn_norm.weight"] {
            self.floats(&format!("{prefix}.{w}"), 1);
        }
        for w in ["w1", "w2", "w3"] {
            self.floats(&format!("{prefix}.feed_forward.{w}.weight"), 2);
        }
    }

    fn new() -> Model {
        let mut m = Model { entries: Vec::new() };
        m.quantized(TOK);
        for i in 0..26 {
            m.decoder_layer(&format!("layers.{i}"));
        }
        m.floats("norm.weight", 1);
        m.floats(AUDIO, 2);
        m.quantized("acoustic_transformer.llm_projection.weight");
        m.quantized("acoustic_transformer.time_projection.weight");
        m.floats("acoustic_transformer.input_projection.weight", 2);
        m.quantized("acoustic_transformer.semantic_codebook_output.weight");
        m.floats("acoustic_transformer.acoustic_codebook_output.weight", 2);
        for i in 0..3 {
            m.decoder_layer(&format!("acoustic_transformer.layers.{i}"));
        }
        m.floats("acoustic_transformer.norm.weight", 1);
        m.floats("audio_tokenizer.decoder_blocks.0.conv.weight", 3);
        for block in [1, 3, 5, 7] {
            for layer in 0..2 {
                m.codec_layer(&format!("audio_tokenizer.decoder_blocks.{block}.layers.{layer}"));
            }
        }
        for block in [2, 4, 6] {
            m.floats(&format!("audio_tokenizer.decoder_blocks.{block}.conv.weight"), 3);
        }
        m.floats("audio_tokenizer.output_proj.conv.weight", 3);
        m.push(ENTRIES, &[2, 3], 0, 24);
        m.push(USAGE, &[3], 0, 12);
        m
    }

    fn index(&self, name: &str) -> usize {
        self.entries.iter().position(|e| e.name == name).unwrap()
    }

    fn entry(&mut self, name: &str) -> &mut Entry {
        let i = self.index(name);
        &mut self.entries[i]
    }

    fn without(mut self, name: &str) -> Model {
        let i = self.index(name);
        self.entries.remove(i);
        self
    }

    /// The byte that fills the tensor `name`.
    fn mark(&self, name: &str) -> u8 {
        self.entries[self.index(name)].data[0]
    }

    fn file(&self) -> Vec<u8> {
        let mut out = b"GGUF".to_vec();
        out.extend_from_slice(&3u32.to_le_bytes());
        out.extend_from_slice(&(self.entries.len() as u64).to_le_bytes());
        out.extend_from_slice(&0u64.to_le_bytes());
        let mut data: Vec<u8> = Vec::new();
        for e in &self.entries {
            while data.len() % 32 != 0 {
                data.push(0);
            }
            out.extend_from_slice(&(e.name.len() as u64).to_le_bytes());
            out.extend_from_slice(e.name.as_bytes());
            out.extend_from_slice(&(e.dims.len() as u32).to_le_bytes());
            for d in &e.dims {
                out.extend_from_slice(&d.to_le_bytes());
            }
            out.extend_from_slice(&e.code.to_le_bytes());
            out.extend_from_slice(&(data.len() as u64).to_le_bytes());
            data.extend_from_slice(&e.data);
        }
        while out.len() % 32 != 0 {
            out.push(0);
        }
        out.extend_from_slice(&data);
        out
    }
}

fn word(mark: u8) -> u32 {
    u32::from_le_bytes([mark; 4])
}

fn is_single(values: &FloatBits, mark: u8) -> bool {
    matches!(values, FloatBits::Single(v) if v == &vec![word(mark)])
}

fn load_error_of(model: &Model) -> LoadError {
    let bytes = model.file();
    let loader = Q4TtsModelLoader::from_bytes(&bytes).unwrap();
    loader.load().err().unwrap()
}

fn deferred_error_of(model: &Model) -> LoadError {
    let bytes = model.file();
    let loader = Q4TtsModelLoader::from_bytes(&bytes).unwrap();
    loader.load_deferred().err().unwrap()
}

#[test]
fn whole_model_loads_from_bytes() {
    let model = Model::new();
    let bytes = model.file();
    let loader = Q4TtsModelLoader::from_bytes(&bytes).unwrap();
    assert_eq!(loader.reader().version(), 3);
    assert_eq!(loader.reader().tensor_count(), model.entries.len());
    let (backbone, fm, codec) = loader.load().unwrap();
    assert_eq!(backbone.n_layers(), 26);
    assert_eq!(backbone.d_model(), 3072);
    assert_eq!(fm.config().n_layers, 3);

    assert_eq!(backbone.rope.max_seq_len, 131_072);
    assert_eq!(f64::from_bits(backbone.rope.theta), 1e6);
    assert!(is_single(&backbone.norm.weight.values, model.mark("norm.weight")));
    assert!(is_single(&backbone.audio_codebook_embeddings.values, model.mark(AUDIO)));
    for (i, layer) in backbone.layers.iter().enumerate() {
        let mark = model.mark(&format!("layers.{i}.attention.wk.weight"));
        assert_eq!(&layer.attention.wk.weights().image()[..18], &[mark; 18]);
        let mark = model.mark(&format!("layers.{i}.feed_forward.w3.weight"));
        assert_eq!(&layer.ffn.w3.weights().image()[..18], &[mark; 18]);
        let mark = model.mark(&format!("layers.{i}.ffn_norm.weight"));
        assert!(is_single(&layer.ffn_norm.weight.values, mark));
        assert_eq!(layer.attention.n_heads, 32);
        assert_eq!(layer.attention.sliding_window, None);
        assert!(layer.attention.fused_qkv.is_none());
    }

    assert_eq!(fm.layers.len(), 3);
    assert_eq!(fm.rope.max_seq_len, 16);
    assert_eq!(f64::from_bits(fm.rope.theta), 1e4);
    assert_eq!(fm.time_embedding.dim, 3072);
    let mark = model.mark("acoustic_transformer.layers.2.attention.wo.weight");
    assert_eq!(&fm.layers[2].attention.wo.weights().image()[..18], &[mark; 18]);
    let mark = model.mark("acoustic_transformer.input_projection.weight");
    assert!(is_single(&fm.input_projection.weight.values, mark));

    assert_eq!(codec.transformer_groups.len(), 4);
    for (g, group) in codec.transformer_groups.iter().enumerate() {
        assert_eq!(group.len(), 2);
        for (i, layer) in group.iter().enumerate() {
            let name = format!(
                "audio_tokenizer.decoder_blocks.{}.layers.{i}.attention.k_norm.weight",
                2 * g + 1
            );
            assert!(is_single(&layer.attention.qk_norm.k_norm.values, model.mark(&name)));
            assert_eq!(layer.attention.sliding_window, [2, 4, 8, 16][g]);
        }
    }
    assert_eq!(codec.upsample_convs.len(), 3);
    for (i, conv) in codec.upsample_convs.iter().enumerate() {
        let name = format!("audio_tokenizer.decoder_blocks.{}.conv.weight", 2 * i + 2);
        assert!(is_single(&conv.weight.values, model.mark(&name)));
        assert_eq!(conv.stride, 2);
        assert_eq!(conv.weight.shape, vec![1, 1, 1]);
    }
    assert_eq!(codec.input_conv.stride, 1);
    assert_eq!(codec.output_conv.stride, 1);
    assert_eq!(codec.vq_codebook.n_entries, 3);
    assert_eq!(codec.vq_codebook.embed_dim, 2);
    assert_eq!(codec.vq_codebook.embedding_sum, vec![word(model.mark(ENTRIES)); 6]);
    assert_eq!(codec.vq_codebook.cluster_usage, vec![word(model.mark(USAGE)); 3]);
}

#[test]
fn test_q4_tts_model_loader_from_file() {
    let file = Model::new().file();
    let loader = Q4TtsModelLoader::from_bytes(&file).unwrap();
    let (backbone, fm, _codec) = loader.load().unwrap();

    assert_eq!(backbone.n_layers(), 26);
    assert_eq!(backbone.d_model(), 3072);
    assert_eq!(fm.config().n_layers, 3);
}

#[test]
fn fusing_twice_changes_nothing() {
    let file = Model::new().file();
    let loader = Q4TtsModelLoader::from_bytes(&file).unwrap();
    let (mut backbone, _, _) = loader.load_deferred().unwrap().finalize().unwrap();
    let image = |layer: &Q4TtsDecoderLayer| {
        layer.attention.fused_qkv.as_ref().unwrap().weights().image().to_vec()
    };
    let once: Vec<Vec<u8>> = backbone.layers.iter().map(image).collect();
    backbone.fuse_projections();
    let twice: Vec<Vec<u8>> = backbone.layers.iter().map(image).collect();
    assert_eq!(once, twice);
}

#[test]
fn token_embeddings_load_in_every_form() {
    let mut model = Model::new();
    model.entry(TOK).data = [0x00, 0x3C].iter().copied().chain((0..16).map(|_| 0x9Fu8)).collect();
    let bytes = model.file();
    let loader = Q4TtsModelLoader::from_bytes(&bytes).unwrap();
    let table = loader.load_tok_embeddings().unwrap();
    assert_eq!(table.shape, vec![1, 32]);
    match table.values {
        FloatBits::Scaled(v) => {
            assert_eq!((v[0].scale, v[0].quant), (0x3C00, 7));
            assert_eq!((v[16].scale, v[16].quant), (0x3C00, 1));
            assert_eq!(v.len(), 32);
        }
        _ => panic!("not dequantized"),
    }

    let e = model.entry(TOK);
    e.code = 8;
    e.data = vec![0xFF; 34];
    let bytes = model.file();
    let (backbone, _, _) = Q4TtsModelLoader::from_bytes(&bytes).unwrap().load().unwrap();
    match backbone.tok_embeddings {
        TokEmbedStore::F32(t) => match t.values {
            FloatBits::Scaled(v) => assert!(v.iter().all(|x| x.quant == -1 && x.scale == 0xFFFF)),
            _ => panic!("not dequantized"),
        },
        _ => panic!("not as floats"),
    }

    let e = model.entry(TOK);
    e.code = 1;
    e.dims = vec![2, 1];
    e.data = vec![0, 0x3C, 0, 0x40];
    let bytes = model.file();
    let loader = Q4TtsModelLoader::from_bytes(&bytes).unwrap();
    let table = loader.load_tok_embeddings().unwrap();
    assert_eq!(table.shape, vec![1, 2]);
    assert!(matches!(&table.values, FloatBits::Half(v) if v == &vec![0x3C00, 0x4000]));
}

#[test]
fn shards_load_like_the_whole_file() {
    let model = Model::new();
    let bytes = model.file();
    let shards: Vec<Vec<u8>> = bytes.chunks(1000).map(|c| c.to_vec()).collect();
    let loader = Q4TtsModelLoader::from_shards(shards).unwrap();
    let (backbone, _, codec) = loader.load().unwrap();
    let mark = model.mark("layers.25.attention.wq.weight");
    assert_eq!(&backbone.layers[25].attention.wq.weights().image()[..18], &[mark; 18]);
    assert_eq!(codec.vq_codebook.embedding_sum, vec![word(model.mark(ENTRIES)); 6]);
    assert_eq!(Q4TtsModelLoader::from_shards(vec![]).err(), Some(GgufError::Truncated));
}

#[test]
fn bad_bytes_are_refused() {
    assert_eq!(Q4TtsModelLoader::from_bytes(b"GGUX0000").err(), Some(GgufError::BadMagic));
}

#[test]
fn two_phases_give_the_same_model() {
    let model = Model::new();
    let bytes = model.file();
    let loader = Q4TtsModelLoader::from_bytes(&bytes).unwrap();
    let parts = loader.load_deferred().unwrap();
    assert_eq!(parts.tok_embed_shape, [1, 32]);
    assert_eq!(parts.tok_embed_dtype, GgmlDtype::Q4_0);
    assert_eq!(parts.tok_embed_q4_bytes, vec![model.mark(TOK); 18]);
    assert_eq!(parts.config, TtsBackboneConfig::default());
    let (backbone, fm, codec) = parts.finalize().unwrap();
    assert_eq!(backbone.n_layers(), 26);
    assert_eq!(fm.layers.len(), 3);
    assert_eq!(codec.transformer_groups.len(), 4);

    let (at_once, _, _) = loader.load().unwrap();
    for (a, b) in backbone.layers.iter().zip(&at_once.layers) {
        assert_eq!(a.attention.wq.weights().image(), b.attention.wq.weights().image());
        assert_eq!(a.ffn.w2.weights().image(), b.ffn.w2.weights().image());
    }
    let table = match at_once.tok_embeddings {
        TokEmbedStore::F32(t) => t,
        _ => panic!("not as floats"),
    };
    match &backbone.tok_embeddings {
        TokEmbedStore::Q4 { lm_head, cpu_bytes, quant_dtype } => {
            assert_eq!(cpu_bytes, &vec![model.mark(TOK); 18]);
            assert_eq!(*quant_dtype, GgmlDtype::Q4_0);
            assert!(lm_head.bias().is_none());
            let values = lm_head.weights().dequantize(lm_head.weights().image());
            assert!(matches!(&table.values, FloatBits::Scaled(v) if v == &values));
        }
        _ => panic!("not quantized"),
    }
}

#[test]
fn finalizing_fuses_the_projections() {
    let model = Model::new();
    let bytes = model.file();
    let loader = Q4TtsModelLoader::from_bytes(&bytes).unwrap();
    let (backbone, _, _) = loader.load_deferred().unwrap().finalize().unwrap();
    for (i, layer) in backbone.layers.iter().enumerate() {
        let fused = layer.attention.fused_qkv.as_ref().unwrap();
        let mut expected = Vec::new();
        for w in ["wq", "wk", "wv"] {
            let mark = model.mark(&format!("layers.{i}.attention.{w}.weight"));
            expected.extend_from_slice(&[mark; 18]);
        }
        assert_eq!(fused.weights().read_bytes(fused.weights().image()), expected);
        let fused = layer.ffn.fused_gate_up.as_ref().unwrap();
        assert_eq!(fused.weights().shape(), [2, 32]);
    }

    let (plain, _, _) = loader.load_deferred().unwrap().assemble().unwrap();
    assert!(plain.layers.iter().all(|l| l.attention.fused_qkv.is_none()));
    assert!(plain.layers.iter().all(|l| l.ffn.fused_gate_up.is_none()));
}

#[test]
fn unlike_projections_stay_apart() {
    let mut model = Model::new();
    let e = model.entry("layers.3.attention.wv.weight");
    e.code = 8;
    e.data = vec![1; 34];
    let bytes = model.file();
    let loader = Q4TtsModelLoader::from_bytes(&bytes).unwrap();
    let (backbone, _, _) = loader.load_deferred().unwrap().finalize().unwrap();
    assert!(backbone.layers[3].attention.fused_qkv.is_none());
    assert!(backbone.layers[2].attention.fused_qkv.is_some());
    assert!(backbone.layers[3].ffn.fused_gate_up.is_some());
}

#[test]
fn token_embeddings_as_floats_cannot_be_finalized() {
    let mut model = Model::new();
    let e = model.entry(TOK);
    e.code = 0;
    e.data = vec![0; 128];
    let bytes = model.file();
    let loader = Q4TtsModelLoader::from_bytes(&bytes).unwrap();
    assert!(loader.load().is_ok());
    let e = loader.load_deferred().unwrap().finalize().err().unwrap();
    let error = QuantError::UnsupportedDtype { dtype: GgmlDtype::F32 };
    assert_eq!(e, TensorError::Quant { error });
}

#[test]
fn oversized_token_embeddings_cannot_be_finalized() {
    let bytes = Model::new().file();
    let loader = Q4TtsModelLoader::from_bytes(&bytes).unwrap();
    let mut parts = loader.load_deferred().unwrap();
    parts.tok_embed_shape = [usize::MAX, 2];
    assert_eq!(parts.finalize().err(), Some(TensorError::TooLarge));
    let mut parts = loader.load_deferred().unwrap();
    parts.tok_embed_q4_bytes.push(0);
    let error = QuantError::ByteCount {
        dtype: GgmlDtype::Q4_0,
        expected: 18,
        num_blocks: 1,
        got: 19,
    };
    assert_eq!(parts.finalize().err(), Some(TensorError::Quant { error }));
}

#[test]
fn every_tensor_is_needed() {
    let names: Vec<String> = Model::new().entries.iter().map(|e| e.name.clone()).collect();
    for name in names {
        let model = Model::new().without(&name);
        let e = load_error_of(&model);
        assert_eq!(e.name, name);
        assert_eq!(e.error, TensorError::Missing);
        let e = deferred_error_of(&model);
        assert_eq!(e.name, name);
        assert_eq!(e.error, TensorError::Missing);
    }
}

/// The texts of an error, the outermost first.
fn texts(e: &LoadError) -> Vec<String> {
    let mut out = Vec::new();
    while let Some(text) = e.cause(out.len()) {
        out.push(text);
    }
    out
}

/// The texts of the error that comes up if the tensor `name` is missing.
fn texts_without(name: &str) -> Vec<String> {
    let model = Model::new().without(name);
    let e = load_error_of(&model);
    assert_eq!(texts(&e), texts(&deferred_error_of(&model)));
    let all = texts(&e);
    assert_eq!(e.message(), all[0]);
    assert_eq!(all.last().unwrap(), &format!("Tensor '{name}' not found"));
    all[..all.len() - 1].to_vec()
}

#[test]
fn failures_in_the_backbone_name_the_layer() {
    for i in [0, 9, 10, 25] {
        for part in ["attention_norm", "attention.wv", "ffn_norm", "feed_forward.w3"] {
            let found = texts_without(&format!("layers.{i}.{part}.weight"));
            assert_eq!(found, vec![format!("Failed to load backbone layer {i}")]);
        }
    }
    assert!(texts_without("norm.weight").is_empty());
    assert!(texts_without(TOK).is_empty());
    assert_eq!(texts_without(AUDIO), vec!["Loading audio codebook embeddings"]);
}

#[test]
fn failures_in_the_flow_matching_transformer_name_the_part() {
    for part in [
        "llm_projection",
        "time_projection",
        "input_projection",
        "semantic_codebook_output",
        "acoustic_codebook_output",
    ] {
        let found = texts_without(&format!("acoustic_transformer.{part}.weight"));
        assert_eq!(found, vec![format!("loading {part}")]);
    }
    for i in 0..3 {
        let found = texts_without(&format!("acoustic_transformer.layers.{i}.attention.wq.weight"));
        assert_eq!(found, vec![format!("loading FM layer {i}")]);
    }
    assert_eq!(texts_without("acoustic_transformer.norm.weight"), vec!["loading FM norm"]);
}

#[test]
fn failures_in_the_codec_name_the_part() {
    let block = "audio_tokenizer.decoder_blocks";
    assert_eq!(texts_without(&format!("{block}.0.conv.weight")), vec!["Loading input conv weight"]);
    for (name, part) in [
        ("attention.wq.weight", "wq"),
        ("attention.wk.weight", "wk"),
        ("attention.wv.weight", "wv"),
        ("attention.wo.weight", "wo"),
        ("attention.q_norm.weight", "q_norm"),
        ("attention.k_norm.weight", "k_norm"),
        ("attention_scale", "attention_scale"),
        ("ffn_scale", "ffn_scale"),
        ("attention_norm.weight", "attention_norm"),
        ("ffn_norm.weight", "ffn_norm"),
    ] {
        for (b, l) in [(1, 0), (7, 1)] {
            assert_eq!(
                texts_without(&format!("{block}.{b}.layers.{l}.{name}")),
                vec![format!("Loading transformer block {b} layer {l}"), format!("Loading {part}")]
            );
        }
    }
    for w in ["w1", "w2", "w3"] {
        assert_eq!(
            texts_without(&format!("{block}.3.layers.1.feed_forward.{w}.weight")),
            vec!["Loading transformer block 3 layer 1"]
        );
    }
    for b in [2, 4, 6] {
        assert_eq!(
            texts_without(&format!("{block}.{b}.conv.weight")),
            vec![format!("Loading upsample conv (block {b})")]
        );
    }
    assert_eq!(
        texts_without("audio_tokenizer.output_proj.conv.weight"),
        vec!["Loading output conv"]
    );
}

#[test]
fn failures_in_the_codebook_name_what_is_read() {
    assert!(texts_without(ENTRIES).is_empty());
    assert_eq!(texts_without(USAGE), vec!["Reading VQ cluster_usage bytes"]);

    let mut model = Model::new();
    model.entry(ENTRIES).dims = vec![1 << 30, 1 << 10];
    let e = load_error_of(&model);
    assert_eq!(
        texts(&e),
        vec![
            "Reading VQ embedding_sum bytes".to_string(),
            format!("Tensor '{ENTRIES}': data ends too early"),
        ]
    );
}

#[test]
fn a_codec_with_only_its_first_convolution_fails_at_the_first_layer() {
    let mut model = Model { entries: Vec::new() };
    model.floats("audio_tokenizer.decoder_blocks.0.conv.weight", 3);
    let bytes = model.file();
    let loader = Q4TtsModelLoader::from_bytes(&bytes).unwrap();
    let e = loader.load_codec(&CodecDecoderConfig::default()).err().unwrap();
    assert_eq!(e.message(), "Loading transformer block 1 layer 0");
    assert_eq!(e.cause(1).unwrap(), "Loading wq");
    let wq = "audio_tokenizer.decoder_blocks.1.layers.0.attention.wq.weight";
    assert_eq!(e.cause(2).unwrap(), format!("Tensor '{wq}' not found"));
    assert_eq!(e.cause(3), None);
}

#[test]
fn a_layer_alone_fails_without_its_number() {
    let model = Model::new().without("layers.3.attention.wk.weight");
    let bytes = model.file();
    let loader = Q4TtsModelLoader::from_bytes(&bytes).unwrap();
    let e = loader.load_backbone_layer(3, &TtsBackboneConfig::default()).err().unwrap();
    assert!(e.context.is_empty());
    assert_eq!(e.message(), "Tensor 'layers.3.attention.wk.weight' not found");
    let outer = loader.load_backbone(&TtsBackboneConfig::default()).err().unwrap();
    assert_eq!(outer.message(), "Failed to load backbone layer 3");
    assert_eq!(outer.cause(1), Some(e.message()));
}

#[test]
fn the_first_failure_is_reported() {
    let model = Model::new()
        .without("audio_tokenizer.output_proj.conv.weight")
        .without("layers.7.attention.wv.weight")
        .without("layers.7.feed_forward.w2.weight");
    assert_eq!(load_error_of(&model).name, "layers.7.attention.wv.weight");
    assert_eq!(deferred_error_of(&model).name, "layers.7.attention.wv.weight");
    let model = model.without(TOK);
    assert_eq!(load_error_of(&model).name, TOK);
}

#[test]
fn flat_token_embeddings_are_refused() {
    let mut model = Model::new();
    model.entry(TOK).dims = vec![32];
    let e = load_error_of(&model);
    assert_eq!((e.name.as_str(), e.error), (TOK, TensorError::TooFewDims { found: 1 }));
    let e = deferred_error_of(&model);
    assert_eq!((e.name.as_str(), e.error), (TOK, TensorError::TooFewDims { found: 1 }));
    // The dimensions are looked at last.
    let model = model.without("norm.weight");
    assert_eq!(deferred_error_of(&model).name, "norm.weight");
}

#[test]
fn wrong_kinds_of_tensors_are_refused() {
    let mut model = Model::new();
    model.entry("acoustic_transformer.norm.weight").dims = vec![1, 1];
    let e = load_error_of(&model);
    assert_eq!(e.name, "acoustic_transformer.norm.weight");
    assert_eq!(e.error, TensorError::Rank { expected: 1, found: 2 });

    let mut model = Model::new();
    let e = model.entry("acoustic_transformer.layers.1.feed_forward.w1.weight");
    e.code = 0;
    e.data = vec![0; 128];
    let e = load_error_of(&model);
    let error = QuantError::UnsupportedDtype { dtype: GgmlDtype::F32 };
    assert_eq!(e.error, TensorError::Quant { error });

    let mut model = Model::new();
    let e = model.entry("audio_tokenizer.decoder_blocks.5.layers.1.ffn_scale");
    e.code = 2;
    e.dims = vec![32];
    e.data = vec![0; 18];
    let e = load_error_of(&model);
    assert_eq!(e.error, TensorError::NotFloat { dtype: GgmlDtype::Q4_0 });
}

#[test]
fn codebook_sizes_must_agree() {
    let mut model = Model::new();
    let e = model.entry(USAGE);
    e.dims = vec![2];
    e.data = vec![0; 8];
    let e = load_error_of(&model);
    assert_eq!(e.name, USAGE);
    assert_eq!(e.error, TensorError::Count { expected: 3, found: 2 });

    let mut model = Model::new();
    let e = model.entry(ENTRIES);
    e.code = 1;
    e.data = vec![0; 12];
    let e = load_error_of(&model);
    assert_eq!(e.name, ENTRIES);
    assert_eq!(e.error, TensorError::Count { expected: 6, found: 3 });

    let mut model = Model::new();
    model.entry(ENTRIES).dims = vec![2, 3, 1];
    let e = load_error_of(&model);
    assert_eq!(e.error, TensorError::Rank { expected: 2, found: 3 });
}

#[test]
fn parts_of_the_model_load_alone() {
    let model = Model::new().without(TOK).without("norm.weight");
    let bytes = model.file();
    let loader = Q4TtsModelLoader::from_bytes(&bytes).unwrap();
    let mut config = TtsBackboneConfig::default();
    config.n_heads = 5;
    let layer = loader.load_backbone_layer(25, &config).unwrap();
    assert_eq!(layer.attention.n_heads, 5);
    let e = loader.load_backbone_layer(26, &config).err().unwrap();
    assert_eq!(e.name, "layers.26.attention_norm.weight");
    let e = loader.load_backbone(&config).err().unwrap();
    assert_eq!(e.name, "norm.weight");
    assert!(loader.load_audio_codebook_embeddings().is_ok());
    assert_eq!(loader.load_vq_codebook().unwrap().n_entries, 3);
}
