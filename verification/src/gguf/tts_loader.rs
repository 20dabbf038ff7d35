//! Loading of the text-to-speech model from a GGUF file.
//!
//! Everything is read from a file that is held in memory, in one piece or in
//! shards. The token embeddings can be loaded as floats, or be left in their
//! quantized form until the file itself has been dropped.

use vstd::prelude::*;

use crate::gguf::bytes::{joined as joined_shards, ByteSource, ShardedCursor, SliceCursor};
use crate::gguf::context::Context;
use crate::gguf::field_laws::{
    law_backbone_norm, law_codebook_fields, law_codec_fields, law_codec_layer_fields,
    law_decoder_layer_fields, law_fm_fields, law_fm_layer_fields, law_loaded_fields,
    law_model_parts_load,
};
use crate::gguf::floats::{decode_singles, FloatBits, FloatTensor};
use crate::gguf::layout::{
    audio_codebook_name, audio_codebook_slot, backbone_from, backbone_rope, backbone_slots,
    codebook_slots, codec_block, codec_group_from, codec_group_slots, codec_groups_from,
    codec_groups_slots, codec_layer_context, codec_layer_prefix, codec_layer_slots, codec_slots,
    common_slots, decoder_layer_slots, deferred_slots, floats, fm_norm_slot, fm_projection_slots,
    fm_slots, input_conv_slot, model_slots, output_conv_slot, plain, quantized,
    tok_embeddings_name, tok_embeddings_slot, upsample_from, upsample_name, upsample_slots, Tower,
};
use crate::gguf::linear::Q4Linear;
use crate::gguf::loader::{
    gguf_load_f32_tensor, gguf_load_q4_linear, gguf_load_rms_norm, lemma_all_load_both,
    lemma_fails_behind, lemma_fails_in_front, lemma_fails_next, lemma_fails_within,
    lemma_loads_all, lemma_loads_next, lemma_loads_none, lemma_loads_within, load_error,
    reverse_gguf_dims, shape_of, within, LoadError, Purpose, Slot,
};
use crate::gguf::model::{
    Linear, Q4Attention, Q4FeedForward, RmsNorm, RoPE, SwiGLU, TimeEmbedding, TokEmbedStore,
};
use crate::gguf::names::{decimal, joined, numbered};
use crate::gguf::reader::{
    decode, lemma_matrix_count, GgmlDtype, GgufError, GgufFile, GgufReader, TensorError, TensorInfo,
};
use crate::gguf::tensor::{
    decode_elements, matrix_fits, quant_failure, quant_fits, Q4Tensor, QuantView, ScaledInt,
};
use crate::gguf::tts_model::{Q4FmLayer, Q4FmTransformer, Q4TtsBackbone, Q4TtsDecoderLayer};
use crate::tts::codec::{
    CausalConv1d, CausalConvTranspose1d, CodecAttention, CodecDecoder, CodecTransformerLayer,
    LayerScale, QkNorm, VqCodebook,
};
use crate::tts::config::{CodecDecoderConfig, FmTransformerConfig, TtsBackboneConfig};

verus! {

/// What every way of loading the model needs besides the token embeddings.
struct CommonParts {
    layers: Vec<Q4TtsDecoderLayer>,
    rope: RoPE,
    norm: RmsNorm,
    audio_codebook_embeddings: FloatTensor,
    fm: Q4FmTransformer,
    codec: CodecDecoder,
    config: TtsBackboneConfig,
}

impl CommonParts {
    spec fn loaded_from(self, file: GgufFile) -> bool {
        &&& self.config == TtsBackboneConfig::standard()
        &&& backbone_from(self.layers@, self.rope, self.norm, file, self.config)
        &&& self.audio_codebook_embeddings@ == file.float_value(audio_codebook_name())
        &&& self.fm.loaded_from(file, FmTransformerConfig::standard())
        &&& self.codec.loaded_from(file, CodecDecoderConfig::standard())
    }
}

/// All model components, with the token embeddings still in their quantized form.
///
/// They come from [`Q4TtsModelLoader::load_deferred`], and allow the memory of the
/// file to be freed before the embedding table is set up.
pub struct Q4TtsModelParts {
    pub backbone_layers: Vec<Q4TtsDecoderLayer>,
    pub backbone_rope: RoPE,
    pub backbone_norm: RmsNorm,
    pub audio_codebook_embeddings: FloatTensor,
    pub fm: Q4FmTransformer,
    pub codec: CodecDecoder,
    pub tok_embed_q4_bytes: Vec<u8>,
    pub tok_embed_shape: [usize; 2],
    pub tok_embed_dtype: GgmlDtype,
    pub config: TtsBackboneConfig,
}

impl Q4TtsModelParts {
    /// The parts of the model that `file` holds.
    pub open spec fn loaded_from(self, file: GgufFile) -> bool {
        let entry = file.entry(tok_embeddings_name())->0;
        &&& self.config == TtsBackboneConfig::standard()
        &&& backbone_from(
            self.backbone_layers@,
            self.backbone_rope,
            self.backbone_norm,
            file,
            self.config,
        )
        &&& self.audio_codebook_embeddings@ == file.float_value(audio_codebook_name())
        &&& self.fm.loaded_from(file, FmTransformerConfig::standard())
        &&& self.codec.loaded_from(file, CodecDecoderConfig::standard())
        &&& file.data(tok_embeddings_name()) == Ok::<_, TensorError>(self.tok_embed_q4_bytes@)
        &&& self.tok_embed_shape[0] == shape_of(entry)[0]
        &&& self.tok_embed_shape[1] == shape_of(entry)[1]
        &&& self.tok_embed_dtype == entry.dtype
    }

    /// The token embeddings as a quantized matrix.
    pub open spec fn tok_embeddings(self) -> QuantView {
        QuantView {
            raw: self.tok_embed_q4_bytes@,
            rows: self.tok_embed_shape[0] as nat,
            cols: self.tok_embed_shape[1] as nat,
            dtype: self.tok_embed_dtype,
        }
    }

    /// What keeps the token embeddings from being a quantized matrix.
    pub open spec fn finalize_failure(self) -> Option<TensorError> {
        let t = self.tok_embeddings();
        if !quant_fits(t.rows, t.cols, t.dtype) {
            Some(TensorError::TooLarge)
        } else {
            match quant_failure(t.raw.len(), t.rows, t.cols, t.dtype) {
                Some(error) => Some(TensorError::Quant { error }),
                None => None,
            }
        }
    }

    /// Whether these are the model components, besides the layers of the backbone.
    pub open spec fn assembled(
        self,
        backbone: Q4TtsBackbone,
        fm: Q4FmTransformer,
        codec: CodecDecoder,
    ) -> bool {
        &&& backbone.norm == self.backbone_norm
        &&& backbone.tok_embeddings matches TokEmbedStore::Q4 { lm_head, cpu_bytes, quant_dtype }
            && lm_head@.weights == self.tok_embeddings() && lm_head@.bias is None && cpu_bytes
            == self.tok_embed_q4_bytes && quant_dtype == self.tok_embed_dtype
        &&& backbone.audio_codebook_embeddings == self.audio_codebook_embeddings
        &&& backbone.rope == self.backbone_rope
        &&& backbone.config == self.config
        &&& fm == self.fm
        &&& codec == self.codec
    }

    /// Assemble the final model components with quantized token embeddings.
    ///
    /// Keeps one copy of the embeddings for the output projection, and one for row
    /// lookups. The projections of the backbone are left as they are.
    pub fn assemble(self) -> (r: Result<
        (Q4TtsBackbone, Q4FmTransformer, CodecDecoder),
        TensorError,
    >)
        ensures
            match r {
                Ok((backbone, fm, codec)) => self.finalize_failure() is None && self.assembled(
                    backbone,
                    fm,
                    codec,
                ) && backbone.layers == self.backbone_layers,
                Err(e) => self.finalize_failure() == Some(e),
            },
    {
        if !matrix_fits(self.tok_embed_shape[0], self.tok_embed_shape[1], self.tok_embed_dtype) {
            return Err(TensorError::TooLarge);
        }
        let tok_embed_q4: Q4Tensor = match Q4Tensor::from_quantized_bytes(
            self.tok_embed_q4_bytes.as_slice(),
            self.tok_embed_shape,
            self.tok_embed_dtype,
        ) {
            Ok(t) => t,
            Err(error) => {
                return Err(TensorError::Quant { error });
            },
        };
        let quant_dtype: GgmlDtype = tok_embed_q4.dtype();
        let tok_embeddings: TokEmbedStore = TokEmbedStore::Q4 {
            lm_head: Q4Linear::new(tok_embed_q4, None),
            cpu_bytes: self.tok_embed_q4_bytes,
            quant_dtype,
        };
        let backbone: Q4TtsBackbone = Q4TtsBackbone {
            layers: self.backbone_layers,
            norm: self.backbone_norm,
            tok_embeddings,
            audio_codebook_embeddings: self.audio_codebook_embeddings,
            rope: self.backbone_rope,
            config: self.config,
        };
        Ok((backbone, self.fm, self.codec))
    }

    /// Assemble the final model components with quantized token embeddings, and fuse
    /// the projections of the backbone for faster decoding (one-time cost).
    pub fn finalize(self) -> (r: Result<
        (Q4TtsBackbone, Q4FmTransformer, CodecDecoder),
        TensorError,
    >)
        ensures
            match r {
                Ok((backbone, fm, codec)) => {
                    &&& self.finalize_failure() is None
                    &&& self.assembled(backbone, fm, codec)
                    &&& backbone.layers@.len() == self.backbone_layers@.len()
                    &&& forall|i: int|
                        0 <= i < backbone.layers@.len() ==> (
                        #[trigger] backbone.layers@[i]).is_fused(self.backbone_layers@[i])
                },
                Err(e) => self.finalize_failure() == Some(e),
            },
    {
        match self.assemble() {
            Ok((backbone, fm, codec)) => {
                let mut fused: Q4TtsBackbone = backbone;
                fused.fuse_projections();
                Ok((fused, fm, codec))
            },
            Err(e) => Err(e),
        }
    }
}

/// Loads a quantized text-to-speech model from a GGUF file.
pub struct Q4TtsModelLoader<R: ByteSource> {
    reader: GgufReader<R>,
}

impl<R: ByteSource> View for Q4TtsModelLoader<R> {
    type V = GgufFile;

    closed spec fn view(&self) -> GgufFile {
        self.reader@
    }
}

impl<'a> Q4TtsModelLoader<SliceCursor<'a>> {
    /// Open a GGUF file from in-memory bytes.
    pub fn from_bytes(bytes: &'a [u8]) -> (r: Result<Self, GgufError>)
        ensures
            match r {
                Ok(loader) => decode(bytes@) == Ok::<_, GgufError>(loader@),
                Err(e) => decode(bytes@) == Err::<GgufFile, _>(e),
            },
    {
        match GgufReader::from_bytes(bytes) {
            Ok(reader) => Ok(Q4TtsModelLoader { reader }),
            Err(e) => Err(e),
        }
    }
}

impl Q4TtsModelLoader<ShardedCursor> {
    /// Open a GGUF file from multiple shards.
    pub fn from_shards(shards: Vec<Vec<u8>>) -> (r: Result<Self, GgufError>)
        ensures
            match r {
                Ok(loader) => decode(joined_shards(shards@)) == Ok::<_, GgufError>(loader@),
                Err(e) => decode(joined_shards(shards@)) == Err::<GgufFile, _>(e),
            },
    {
        match GgufReader::open(ShardedCursor::new(shards)) {
            Ok(reader) => Ok(Q4TtsModelLoader { reader }),
            Err(e) => Err(e),
        }
    }
}

/// The parts that decoder layers of the backbone and of the flow-matching
/// transformer have in common.
struct DecoderParts {
    attention_norm: RmsNorm,
    attention: Q4Attention,
    ffn_norm: RmsNorm,
    ffn: Q4FeedForward,
}

impl DecoderParts {
    spec fn loaded_from(
        self,
        file: GgufFile,
        prefix: Seq<char>,
        n_heads: usize,
        n_kv_heads: usize,
        head_dim: usize,
        norm_eps: u64,
    ) -> bool {
        &&& self.attention_norm.loaded_from(file, prefix + ".attention_norm.weight"@, norm_eps)
        &&& self.attention.loaded_from(file, prefix, n_heads, n_kv_heads, head_dim)
        &&& self.ffn_norm.loaded_from(file, prefix + ".ffn_norm.weight"@, norm_eps)
        &&& self.ffn.loaded_from(file, prefix)
    }
}

/// Whether the first `k` tensors of `slots` load, and the next one is `slot`, wanted as
/// a part of `context`.
spec fn is_next(
    file: GgufFile,
    slots: Seq<Slot>,
    k: int,
    slot: Slot,
    context: Option<Context>,
) -> bool {
    &&& 0 <= k < slots.len()
    &&& file.all_load(slots.take(k))
    &&& slots[k] == match context {
        Some(c) => slot.part_of(c),
        None => slot,
    }
}

/// The error, which came up while `context` was being loaded.
fn in_context(error: LoadError, context: Option<Context>) -> (r: LoadError)
    ensures
        match context {
            Some(c) => r.wraps(c, error),
            None => r == error,
        },
{
    match context {
        Some(c) => error.within(c),
        None => error,
    }
}

impl<R: ByteSource> Q4TtsModelLoader<R> {
    /// The file.
    pub fn reader(&self) -> (r: &GgufReader<R>)
        ensures
            r@ == self@,
    {
        &self.reader
    }

    /// Loads tensor number `k` of `slots`, which is wanted as floats.
    fn floats_slot(
        &self,
        name: &str,
        rank: usize,
        context: Option<Context>,
        Ghost(slots): Ghost<Seq<Slot>>,
        Ghost(k): Ghost<int>,
    ) -> (r: Result<FloatTensor, LoadError>)
        requires
            is_next(self@, slots, k, floats(name@, rank), context),
        ensures
            match r {
                Ok(t) => self@.all_load(slots.take(k + 1)) && t@ == self@.float_value(name@),
                Err(e) => self@.fails_first(slots, e),
            },
    {
        match gguf_load_f32_tensor(&self.reader, name, rank) {
            Ok(t) => {
                proof {
                    lemma_loads_next(self@, slots, k);
                }
                Ok(t)
            },
            Err(error) => {
                let e: LoadError = in_context(error, context);
                proof {
                    lemma_fails_next(self@, slots, k, e);
                }
                Err(e)
            },
        }
    }

    /// Loads tensor number `k` of `slots`, which holds the weights of a normalization layer.
    fn norm_slot(
        &self,
        name: &str,
        eps: u64,
        context: Option<Context>,
        Ghost(slots): Ghost<Seq<Slot>>,
        Ghost(k): Ghost<int>,
    ) -> (r: Result<RmsNorm, LoadError>)
        requires
            is_next(self@, slots, k, floats(name@, 1), context),
        ensures
            match r {
                Ok(t) => self@.all_load(slots.take(k + 1)) && t.loaded_from(self@, name@, eps),
                Err(e) => self@.fails_first(slots, e),
            },
    {
        match gguf_load_rms_norm(&self.reader, name, eps) {
            Ok(t) => {
                proof {
                    lemma_loads_next(self@, slots, k);
                }
                Ok(t)
            },
            Err(error) => {
                let e: LoadError = in_context(error, context);
                proof {
                    lemma_fails_next(self@, slots, k, e);
                }
                Err(e)
            },
        }
    }

    /// Loads tensor number `k` of `slots`, which holds the weights of a linear layer.
    fn linear_slot(
        &self,
        name: &str,
        context: Option<Context>,
        Ghost(slots): Ghost<Seq<Slot>>,
        Ghost(k): Ghost<int>,
    ) -> (r: Result<Linear, LoadError>)
        requires
            is_next(self@, slots, k, floats(name@, 2), context),
        ensures
            match r {
                Ok(t) => self@.all_load(slots.take(k + 1)) && t.loaded_from(self@, name@),
                Err(e) => self@.fails_first(slots, e),
            },
    {
        match self.floats_slot(name, 2, context, Ghost(slots), Ghost(k)) {
            Ok(weight) => Ok(Linear { weight }),
            Err(e) => Err(e),
        }
    }

    /// Loads tensor number `k` of `slots`, which is wanted as a quantized linear layer.
    fn q4_slot(
        &self,
        name: &str,
        context: Option<Context>,
        Ghost(slots): Ghost<Seq<Slot>>,
        Ghost(k): Ghost<int>,
    ) -> (r: Result<Q4Linear, LoadError>)
        requires
            is_next(self@, slots, k, quantized(name@), context),
        ensures
            match r {
                Ok(t) => self@.all_load(slots.take(k + 1)) && t.loaded_from(self@, name@),
                Err(e) => self@.fails_first(slots, e),
            },
    {
        match gguf_load_q4_linear(&self.reader, name) {
            Ok(t) => {
                proof {
                    lemma_loads_next(self@, slots, k);
                }
                Ok(t)
            },
            Err(error) => {
                let e: LoadError = in_context(error, context);
                proof {
                    lemma_fails_next(self@, slots, k, e);
                }
                Err(e)
            },
        }
    }

    /// Loads a decoder layer.
    fn load_decoder_parts(
        &self,
        prefix: &str,
        n_heads: usize,
        n_kv_heads: usize,
        head_dim: usize,
        norm_eps: u64,
    ) -> (r: Result<DecoderParts, LoadError>)
        ensures
            match r {
                Ok(p) => self@.all_load(decoder_layer_slots(prefix@)) && p.loaded_from(
                    self@,
                    prefix@,
                    n_heads,
                    n_kv_heads,
                    head_dim,
                    norm_eps,
                ),
                Err(e) => self@.fails_first(decoder_layer_slots(prefix@), e),
            },
    {
        let ghost slots = decoder_layer_slots(prefix@);
        let attention_norm: RmsNorm = self.norm_slot(
            joined(prefix, ".attention_norm.weight").as_str(),
            norm_eps,
            None,
            Ghost(slots),
            Ghost(0),
        )?;
        let wq: Q4Linear = self.q4_slot(
            joined(prefix, ".attention.wq.weight").as_str(),
            None,
            Ghost(slots),
            Ghost(1),
        )?;
        let wk: Q4Linear = self.q4_slot(
            joined(prefix, ".attention.wk.weight").as_str(),
            None,
            Ghost(slots),
            Ghost(2),
        )?;
        let wv: Q4Linear = self.q4_slot(
            joined(prefix, ".attention.wv.weight").as_str(),
            None,
            Ghost(slots),
            Ghost(3),
        )?;
        let wo: Q4Linear = self.q4_slot(
            joined(prefix, ".attention.wo.weight").as_str(),
            None,
            Ghost(slots),
            Ghost(4),
        )?;
        let attention: Q4Attention = Q4Attention {
            wq,
            wk,
            wv,
            wo,
            fused_qkv: None,
            n_heads,
            n_kv_heads,
            head_dim,
            sliding_window: None,
        };
        let ffn_norm: RmsNorm = self.norm_slot(
            joined(prefix, ".ffn_norm.weight").as_str(),
            norm_eps,
            None,
            Ghost(slots),
            Ghost(5),
        )?;
        let w1: Q4Linear = self.q4_slot(
            joined(prefix, ".feed_forward.w1.weight").as_str(),
            None,
            Ghost(slots),
            Ghost(6),
        )?;
        let w2: Q4Linear = self.q4_slot(
            joined(prefix, ".feed_forward.w2.weight").as_str(),
            None,
            Ghost(slots),
            Ghost(7),
        )?;
        let w3: Q4Linear = self.q4_slot(
            joined(prefix, ".feed_forward.w3.weight").as_str(),
            None,
            Ghost(slots),
            Ghost(8),
        )?;
        let ffn: Q4FeedForward = Q4FeedForward { w1, w2, w3, fused_gate_up: None };
        proof {
            lemma_loads_all(self@, slots);
        }
        Ok(DecoderParts { attention_norm, attention, ffn_norm, ffn })
    }

    /// Load a single backbone decoder layer.
    pub fn load_backbone_layer(&self, layer_idx: usize, config: &TtsBackboneConfig) -> (r: Result<
        Q4TtsDecoderLayer,
        LoadError,
    >)
        ensures
            ({
                let prefix = "layers."@ + decimal(layer_idx as nat);
                match r {
                    Ok(l) => {
                        &&& self@.all_load(decoder_layer_slots(prefix))
                        &&& l.loaded_from(self@, prefix, *config)
                        &&& self@.stores_floats(
                            prefix + ".attention_norm.weight"@,
                            l.attention_norm.weight@,
                        )
                        &&& self@.stores_matrix(
                            prefix + ".attention.wq.weight"@,
                            l.attention.wq@.weights,
                        )
                        &&& l.attention.wq@.bias is None
                        &&& self@.stores_matrix(
                            prefix + ".attention.wk.weight"@,
                            l.attention.wk@.weights,
                        )
                        &&& l.attention.wk@.bias is None
                        &&& self@.stores_matrix(
                            prefix + ".attention.wv.weight"@,
                            l.attention.wv@.weights,
                        )
                        &&& l.attention.wv@.bias is None
                        &&& self@.stores_matrix(
                            prefix + ".attention.wo.weight"@,
                            l.attention.wo@.weights,
                        )
                        &&& l.attention.wo@.bias is None
                        &&& self@.stores_floats(prefix + ".ffn_norm.weight"@, l.ffn_norm.weight@)
                        &&& self@.stores_matrix(
                            prefix + ".feed_forward.w1.weight"@,
                            l.ffn.w1@.weights,
                        )
                        &&& l.ffn.w1@.bias is None
                        &&& self@.stores_matrix(
                            prefix + ".feed_forward.w2.weight"@,
                            l.ffn.w2@.weights,
                        )
                        &&& l.ffn.w2@.bias is None
                        &&& self@.stores_matrix(
                            prefix + ".feed_forward.w3.weight"@,
                            l.ffn.w3@.weights,
                        )
                        &&& l.ffn.w3@.bias is None
                        &&& l.attention_norm.eps == config.norm_eps
                        &&& l.ffn_norm.eps == config.norm_eps
                        &&& l.attention.n_heads == config.n_heads
                        &&& l.attention.n_kv_heads == config.n_kv_heads
                        &&& l.attention.head_dim == config.head_dim
                        &&& l.attention.sliding_window is None
                        &&& l.attention.fused_qkv is None
                        &&& l.ffn.fused_gate_up is None
                    },
                    Err(e) => self@.fails_first(decoder_layer_slots(prefix), e),
                }
            }),
    {
        let prefix: String = numbered("layers.", layer_idx);
        match self.load_decoder_parts(
            prefix.as_str(),
            config.n_heads,
            config.n_kv_heads,
            config.head_dim,
            config.norm_eps,
        ) {
            Ok(p) => {
                let layer: Q4TtsDecoderLayer = Q4TtsDecoderLayer {
                    attention_norm: p.attention_norm,
                    attention: p.attention,
                    ffn_norm: p.ffn_norm,
                    ffn: p.ffn,
                };
                proof {
                    law_decoder_layer_fields(self@, prefix@, *config, layer);
                }
                Ok(layer)
            },
            Err(e) => Err(e),
        }
    }

    /// Load a single layer of the flow-matching transformer.
    pub fn load_fm_layer(&self, layer_idx: usize, config: &FmTransformerConfig) -> (r: Result<
        Q4FmLayer,
        LoadError,
    >)
        ensures
            ({
                let prefix = "acoustic_transformer.layers."@ + decimal(layer_idx as nat);
                match r {
                    Ok(l) => {
                        &&& self@.all_load(decoder_layer_slots(prefix))
                        &&& l.loaded_from(self@, prefix, *config)
                        &&& self@.stores_floats(
                            prefix + ".attention_norm.weight"@,
                            l.attention_norm.weight@,
                        )
                        &&& self@.stores_matrix(
                            prefix + ".attention.wq.weight"@,
                            l.attention.wq@.weights,
                        )
                        &&& l.attention.wq@.bias is None
                        &&& self@.stores_matrix(
                            prefix + ".attention.wk.weight"@,
                            l.attention.wk@.weights,
                        )
                        &&& l.attention.wk@.bias is None
                        &&& self@.stores_matrix(
                            prefix + ".attention.wv.weight"@,
                            l.attention.wv@.weights,
                        )
                        &&& l.attention.wv@.bias is None
                        &&& self@.stores_matrix(
                            prefix + ".attention.wo.weight"@,
                            l.attention.wo@.weights,
                        )
                        &&& l.attention.wo@.bias is None
                        &&& self@.stores_floats(prefix + ".ffn_norm.weight"@, l.ffn_norm.weight@)
                        &&& self@.stores_matrix(
                            prefix + ".feed_forward.w1.weight"@,
                            l.ffn.w1@.weights,
                        )
                        &&& l.ffn.w1@.bias is None
                        &&& self@.stores_matrix(
                            prefix + ".feed_forward.w2.weight"@,
                            l.ffn.w2@.weights,
                        )
                        &&& l.ffn.w2@.bias is None
                        &&& self@.stores_matrix(
                            prefix + ".feed_forward.w3.weight"@,
                            l.ffn.w3@.weights,
                        )
                        &&& l.ffn.w3@.bias is None
                        &&& l.attention_norm.eps == config.norm_eps
                        &&& l.ffn_norm.eps == config.norm_eps
                        &&& l.attention.n_heads == config.n_heads
                        &&& l.attention.n_kv_heads == config.n_kv_heads
                        &&& l.attention.head_dim == config.head_dim
                        &&& l.attention.sliding_window is None
                        &&& l.attention.fused_qkv is None
                        &&& l.ffn.fused_gate_up is None
                    },
                    Err(e) => self@.fails_first(decoder_layer_slots(prefix), e),
                }
            }),
    {
        let prefix: String = numbered("acoustic_transformer.layers.", layer_idx);
        match self.load_decoder_parts(
            prefix.as_str(),
            config.n_heads,
            config.n_kv_heads,
            config.head_dim,
            config.norm_eps,
        ) {
            Ok(p) => {
                let layer: Q4FmLayer = Q4FmLayer {
                    attention_norm: p.attention_norm,
                    attention: p.attention,
                    ffn_norm: p.ffn_norm,
                    ffn: p.ffn,
                };
                proof {
                    law_fm_layer_fields(self@, prefix@, *config, layer);
                }
                Ok(layer)
            },
            Err(e) => Err(e),
        }
    }

    /// Load backbone layers, rotary embedding, and final norm.
    pub fn load_backbone(&self, config: &TtsBackboneConfig) -> (r: Result<
        (Vec<Q4TtsDecoderLayer>, RoPE, RmsNorm),
        LoadError,
    >)
        ensures
            match r {
                Ok((layers, rope, norm)) => {
                    &&& self@.all_load(backbone_slots(*config))
                    &&& backbone_from(layers@, rope, norm, self@, *config)
                    &&& layers@.len() == config.n_layers
                    &&& self@.stores_floats("norm.weight"@, norm.weight@)
                    &&& norm.eps == config.norm_eps
                    &&& rope.head_dim == config.head_dim
                    &&& rope.max_seq_len == 131_072
                    &&& rope.theta == config.rope_theta
                },
                Err(e) => self@.fails_first(backbone_slots(*config), e),
            },
    {
        let ghost file = self@;
        let ghost n = config.n_layers as nat;
        let ghost front = Tower::Backbone.slots(n);
        let ghost back = seq![floats("norm.weight"@, 1)];
        let rope: RoPE = RoPE {
            head_dim: config.head_dim,
            max_seq_len: 131_072,
            theta: config.rope_theta,
        };
        let mut layers: Vec<Q4TtsDecoderLayer> = Vec::with_capacity(config.n_layers);
        let mut i: usize = 0;
        while i < config.n_layers
            invariant
                i <= config.n_layers,
                n == config.n_layers,
                file == self@,
                front == Tower::Backbone.slots(n),
                back == seq![floats("norm.weight"@, 1)],
                file.all_load(Tower::Backbone.slots(i as nat)),
                layers@.len() == i,
                forall|j: int|
                    0 <= j < i ==> (#[trigger] layers@[j]).loaded_from(
                        file,
                        "layers."@ + decimal(j as nat),
                        *config,
                    ),
            decreases config.n_layers - i,
        {
            match self.load_backbone_layer(i, config) {
                Ok(layer) => {
                    layers.push(layer);
                },
                Err(error) => {
                    let e: LoadError = error.within(Context::BackboneLayer { index: i });
                    proof {
                        lemma_layer_fails(file, Tower::Backbone, i as nat, n, error, e);
                        lemma_fails_in_front(file, front, back, e);
                    }
                    return Err(e);
                },
            }
            proof {
                lemma_layer_loads(file, Tower::Backbone, i as nat);
            }
            i = i + 1;
        }
        let norm: RmsNorm = match self.norm_slot(
            "norm.weight",
            config.norm_eps,
            None,
            Ghost(back),
            Ghost(0),
        ) {
            Ok(t) => t,
            Err(e) => {
                proof {
                    lemma_fails_behind(file, front, back, e);
                }
                return Err(e);
            },
        };
        proof {
            lemma_loads_all(file, back);
            lemma_all_load_both(file, front, back);
        }
        proof {
            law_backbone_norm(file, *config, layers@, rope, norm);
        }
        Ok((layers, rope, norm))
    }

    /// Load the flow-matching transformer.
    pub fn load_fm_transformer(&self, config: &FmTransformerConfig) -> (r: Result<
        Q4FmTransformer,
        LoadError,
    >)
        ensures
            match r {
                Ok(fm) => {
                    &&& self@.all_load(fm_slots(*config))
                    &&& fm.loaded_from(self@, *config)
                    &&& self@.stores_matrix(
                        "acoustic_transformer.llm_projection.weight"@,
                        fm.llm_projection@.weights,
                    )
                    &&& fm.llm_projection@.bias is None
                    &&& self@.stores_matrix(
                        "acoustic_transformer.time_projection.weight"@,
                        fm.time_projection@.weights,
                    )
                    &&& fm.time_projection@.bias is None
                    &&& self@.stores_floats(
                        "acoustic_transformer.input_projection.weight"@,
                        fm.input_projection.weight@,
                    )
                    &&& self@.stores_matrix(
                        "acoustic_transformer.semantic_codebook_output.weight"@,
                        fm.semantic_codebook_output@.weights,
                    )
                    &&& fm.semantic_codebook_output@.bias is None
                    &&& self@.stores_floats(
                        "acoustic_transformer.acoustic_codebook_output.weight"@,
                        fm.acoustic_codebook_output.weight@,
                    )
                    &&& self@.stores_floats("acoustic_transformer.norm.weight"@, fm.norm.weight@)
                    &&& fm.norm.eps == config.norm_eps
                    &&& fm.layers@.len() == config.n_layers
                    &&& fm.time_embedding.dim == config.dim
                    &&& fm.rope.head_dim == config.head_dim
                    &&& fm.rope.max_seq_len == 16
                    &&& fm.rope.theta == config.rope_theta
                    &&& fm.config == *config
                },
                Err(e) => self@.fails_first(fm_slots(*config), e),
            },
    {
        let ghost file = self@;
        let ghost n = config.n_layers as nat;
        let ghost first = fm_projection_slots();
        let ghost second = Tower::FlowMatching.slots(n);
        let ghost third = seq![fm_norm_slot()];
        let (llm, time, input, semantic, acoustic): (
            Q4Linear,
            Q4Linear,
            Linear,
            Q4Linear,
            Linear,
        ) = match self.load_fm_projections() {
            Ok(t) => t,
            Err(e) => {
                proof {
                    lemma_fails_in_front(file, first, second, e);
                    lemma_fails_in_front(file, first + second, third, e);
                }
                return Err(e);
            },
        };
        let mut layers: Vec<Q4FmLayer> = Vec::with_capacity(config.n_layers);
        let mut i: usize = 0;
        while i < config.n_layers
            invariant
                i <= config.n_layers,
                n == config.n_layers,
                file == self@,
                first == fm_projection_slots(),
                second == Tower::FlowMatching.slots(n),
                third == seq![fm_norm_slot()],
                file.all_load(first),
                file.all_load(Tower::FlowMatching.slots(i as nat)),
                layers@.len() == i,
                forall|j: int|
                    0 <= j < i ==> (#[trigger] layers@[j]).loaded_from(
                        file,
                        "acoustic_transformer.layers."@ + decimal(j as nat),
                        *config,
                    ),
            decreases config.n_layers - i,
        {
            match self.load_fm_layer(i, config) {
                Ok(layer) => {
                    layers.push(layer);
                },
                Err(error) => {
                    let e: LoadError = error.within(Context::FmLayer { index: i });
                    proof {
                        lemma_layer_fails(file, Tower::FlowMatching, i as nat, n, error, e);
                        lemma_fails_behind(file, first, second, e);
                        lemma_fails_in_front(file, first + second, third, e);
                    }
                    return Err(e);
                },
            }
            proof {
                lemma_layer_loads(file, Tower::FlowMatching, i as nat);
            }
            i = i + 1;
        }
        proof {
            lemma_all_load_both(file, first, second);
        }
        let norm: RmsNorm = match self.norm_slot(
            "acoustic_transformer.norm.weight",
            config.norm_eps,
            Some(Context::FmNorm),
            Ghost(third),
            Ghost(0),
        ) {
            Ok(t) => t,
            Err(e) => {
                proof {
                    lemma_fails_behind(file, first + second, third, e);
                }
                return Err(e);
            },
        };
        proof {
            lemma_loads_all(file, third);
            lemma_all_load_both(file, first + second, third);
        }
        let rope: RoPE = RoPE {
            head_dim: config.head_dim,
            max_seq_len: 16,
            theta: config.rope_theta,
        };
        let time_embedding: TimeEmbedding = TimeEmbedding { dim: config.dim };
        let fm: Q4FmTransformer = Q4FmTransformer {
            time_embedding,
            rope,
            layers,
            llm_projection: llm,
            time_projection: time,
            input_projection: input,
            semantic_codebook_output: semantic,
            acoustic_codebook_output: acoustic,
            norm,
            config: *config,
        };
        proof {
            law_fm_fields(file, *config, fm);
        }
        Ok(fm)
    }

    /// Load the projections of the flow-matching transformer.
    fn load_fm_projections(&self) -> (r: Result<
        (Q4Linear, Q4Linear, Linear, Q4Linear, Linear),
        LoadError,
    >)
        ensures
            match r {
                Ok((llm, time, input, semantic, acoustic)) => {
                    &&& self@.all_load(fm_projection_slots())
                    &&& llm.loaded_from(self@, "acoustic_transformer.llm_projection.weight"@)
                    &&& time.loaded_from(self@, "acoustic_transformer.time_projection.weight"@)
                    &&& input.loaded_from(self@, "acoustic_transformer.input_projection.weight"@)
                    &&& semantic.loaded_from(
                        self@,
                        "acoustic_transformer.semantic_codebook_output.weight"@,
                    )
                    &&& acoustic.loaded_from(
                        self@,
                        "acoustic_transformer.acoustic_codebook_output.weight"@,
                    )
                },
                Err(e) => self@.fails_first(fm_projection_slots(), e),
            },
    {
        let ghost slots = fm_projection_slots();
        let llm: Q4Linear = self.q4_slot(
            "acoustic_transformer.llm_projection.weight",
            Some(Context::LlmProjection),
            Ghost(slots),
            Ghost(0),
        )?;
        let time: Q4Linear = self.q4_slot(
            "acoustic_transformer.time_projection.weight",
            Some(Context::TimeProjection),
            Ghost(slots),
            Ghost(1),
        )?;
        let input: Linear = self.linear_slot(
            "acoustic_transformer.input_projection.weight",
            Some(Context::InputProjection),
            Ghost(slots),
            Ghost(2),
        )?;
        let semantic: Q4Linear = self.q4_slot(
            "acoustic_transformer.semantic_codebook_output.weight",
            Some(Context::SemanticCodebookOutput),
            Ghost(slots),
            Ghost(3),
        )?;
        let acoustic: Linear = self.linear_slot(
            "acoustic_transformer.acoustic_codebook_output.weight",
            Some(Context::AcousticCodebookOutput),
            Ghost(slots),
            Ghost(4),
        )?;
        proof {
            lemma_loads_all(self@, slots);
        }
        Ok((llm, time, input, semantic, acoustic))
    }

    /// Load audio codebook embeddings.
    pub fn load_audio_codebook_embeddings(&self) -> (r: Result<FloatTensor, LoadError>)
        ensures
            match r {
                Ok(t) => {
                    &&& self@.failure(audio_codebook_slot()) is None
                    &&& t@ == self@.float_value(audio_codebook_name())
                    &&& self@.stores_floats(
                        "mm_audio_embeddings.audio_codebook_embeddings.embeddings.weight"@,
                        t@,
                    )
                },
                Err(e) => self@.fails_at(seq![audio_codebook_slot()], 0, e),
            },
    {
        match gguf_load_f32_tensor(
            &self.reader,
            "mm_audio_embeddings.audio_codebook_embeddings.embeddings.weight",
            2,
        ) {
            Ok(t) => Ok(t),
            Err(error) => Err(error.within(Context::AudioCodebook)),
        }
    }

    /// Load a single codec transformer layer.
    pub fn load_codec_transformer_layer(
        &self,
        prefix: &str,
        config: &CodecDecoderConfig,
        sliding_window: usize,
    ) -> (r: Result<CodecTransformerLayer, LoadError>)
        ensures
            match r {
                Ok(l) => {
                    &&& self@.all_load(codec_layer_slots(prefix@))
                    &&& l.loaded_from(self@, prefix@, *config, sliding_window)
                    &&& self@.stores_floats(
                        prefix@ + ".attention.wq.weight"@,
                        l.attention.wq.weight@,
                    )
                    &&& self@.stores_floats(
                        prefix@ + ".attention.wk.weight"@,
                        l.attention.wk.weight@,
                    )
                    &&& self@.stores_floats(
                        prefix@ + ".attention.wv.weight"@,
                        l.attention.wv.weight@,
                    )
                    &&& self@.stores_floats(
                        prefix@ + ".attention.wo.weight"@,
                        l.attention.wo.weight@,
                    )
                    &&& self@.stores_floats(
                        prefix@ + ".attention.q_norm.weight"@,
                        l.attention.qk_norm.q_norm@,
                    )
                    &&& self@.stores_floats(
                        prefix@ + ".attention.k_norm.weight"@,
                        l.attention.qk_norm.k_norm@,
                    )
                    &&& self@.stores_floats(
                        prefix@ + ".attention_scale"@,
                        l.attention_scale.weight@,
                    )
                    &&& self@.stores_floats(prefix@ + ".ffn_scale"@, l.ffn_scale.weight@)
                    &&& self@.stores_floats(
                        prefix@ + ".attention_norm.weight"@,
                        l.attention_norm.weight@,
                    )
                    &&& self@.stores_floats(prefix@ + ".ffn_norm.weight"@, l.ffn_norm.weight@)
                    &&& self@.stores_floats(prefix@ + ".feed_forward.w1.weight"@, l.ffn.w1.weight@)
                    &&& self@.stores_floats(prefix@ + ".feed_forward.w2.weight"@, l.ffn.w2.weight@)
                    &&& self@.stores_floats(prefix@ + ".feed_forward.w3.weight"@, l.ffn.w3.weight@)
                    &&& l.attention_norm.eps == config.norm_eps
                    &&& l.ffn_norm.eps == config.norm_eps
                    &&& l.attention.n_heads == config.n_heads
                    &&& l.attention.head_dim == config.head_dim
                    &&& l.attention.qk_norm.n_heads == config.n_heads
                    &&& l.attention.qk_norm.head_dim == config.head_dim
                    &&& l.attention.sliding_window == sliding_window
                },
                Err(e) => self@.fails_first(codec_layer_slots(prefix@), e),
            },
    {
        let ghost slots = codec_layer_slots(prefix@);
        let wq: Linear = self.linear_slot(
            joined(prefix, ".attention.wq.weight").as_str(),
            Some(Context::Wq),
            Ghost(slots),
            Ghost(0),
        )?;
        let wk: Linear = self.linear_slot(
            joined(prefix, ".attention.wk.weight").as_str(),
            Some(Context::Wk),
            Ghost(slots),
            Ghost(1),
        )?;
        let wv: Linear = self.linear_slot(
            joined(prefix, ".attention.wv.weight").as_str(),
            Some(Context::Wv),
            Ghost(slots),
            Ghost(2),
        )?;
        let wo: Linear = self.linear_slot(
            joined(prefix, ".attention.wo.weight").as_str(),
            Some(Context::Wo),
            Ghost(slots),
            Ghost(3),
        )?;
        let q_norm: FloatTensor = self.floats_slot(
            joined(prefix, ".attention.q_norm.weight").as_str(),
            1,
            Some(Context::QNorm),
            Ghost(slots),
            Ghost(4),
        )?;
        let k_norm: FloatTensor = self.floats_slot(
            joined(prefix, ".attention.k_norm.weight").as_str(),
            1,
            Some(Context::KNorm),
            Ghost(slots),
            Ghost(5),
        )?;
        let qk_norm: QkNorm = QkNorm {
            q_norm,
            k_norm,
            n_heads: config.n_heads,
            head_dim: config.head_dim,
        };
        let attention: CodecAttention = CodecAttention {
            wq,
            wk,
            wv,
            wo,
            qk_norm,
            n_heads: config.n_heads,
            head_dim: config.head_dim,
            sliding_window,
        };
        let attention_factors: FloatTensor = self.floats_slot(
            joined(prefix, ".attention_scale").as_str(),
            1,
            Some(Context::AttentionScale),
            Ghost(slots),
            Ghost(6),
        )?;
        let ffn_factors: FloatTensor = self.floats_slot(
            joined(prefix, ".ffn_scale").as_str(),
            1,
            Some(Context::FfnScale),
            Ghost(slots),
            Ghost(7),
        )?;
        let attention_scale: LayerScale = LayerScale { weight: attention_factors };
        let ffn_scale: LayerScale = LayerScale { weight: ffn_factors };
        let attention_norm: RmsNorm = self.norm_slot(
            joined(prefix, ".attention_norm.weight").as_str(),
            config.norm_eps,
            Some(Context::AttentionNorm),
            Ghost(slots),
            Ghost(8),
        )?;
        let ffn_norm: RmsNorm = self.norm_slot(
            joined(prefix, ".ffn_norm.weight").as_str(),
            config.norm_eps,
            Some(Context::FfnNorm),
            Ghost(slots),
            Ghost(9),
        )?;
        let w1: Linear = self.linear_slot(
            joined(prefix, ".feed_forward.w1.weight").as_str(),
            None,
            Ghost(slots),
            Ghost(10),
        )?;
        let w2: Linear = self.linear_slot(
            joined(prefix, ".feed_forward.w2.weight").as_str(),
            None,
            Ghost(slots),
            Ghost(11),
        )?;
        let w3: Linear = self.linear_slot(
            joined(prefix, ".feed_forward.w3.weight").as_str(),
            None,
            Ghost(slots),
            Ghost(12),
        )?;
        let ffn: SwiGLU = SwiGLU { w1, w2, w3 };
        proof {
            lemma_loads_all(self@, slots);
        }
        let layer: CodecTransformerLayer = CodecTransformerLayer {
            attention_norm,
            attention,
            attention_scale,
            ffn_norm,
            ffn,
            ffn_scale,
        };
        proof {
            law_codec_layer_fields(self@, prefix@, *config, sliding_window, layer);
        }
        Ok(layer)
    }

    /// Load a transformer group of the codec.
    fn load_codec_group(&self, group: usize, config: &CodecDecoderConfig) -> (r: Result<
        Vec<CodecTransformerLayer>,
        LoadError,
    >)
        requires
            group < 4,
        ensures
            match r {
                Ok(v) => {
                    &&& self@.all_load(
                        codec_group_slots(group as nat, config.layers_per_block as nat),
                    )
                    &&& v@.len() == config.layers_per_block
                    &&& codec_group_from(v@, self@, group as nat, *config)
                },
                Err(e) => self@.fails_first(
                    codec_group_slots(group as nat, config.layers_per_block as nat),
                    e,
                ),
            },
    {
        let ghost file = self@;
        let ghost n = config.layers_per_block as nat;
        let block: String = numbered("audio_tokenizer.decoder_blocks.", 2 * group + 1);
        let stem: String = joined(block.as_str(), ".layers.");
        let sliding_window: usize = config.sliding_windows[group];
        let mut layers: Vec<CodecTransformerLayer> = Vec::with_capacity(config.layers_per_block);
        let mut i: usize = 0;
        while i < config.layers_per_block
            invariant
                i <= config.layers_per_block,
                n == config.layers_per_block,
                file == self@,
                group < 4,
                stem@ == codec_block((2 * group + 1) as nat) + ".layers."@,
                sliding_window == config.sliding_windows[group as int],
                file.all_load(codec_group_slots(group as nat, i as nat)),
                layers@.len() == i,
                codec_group_from(layers@, file, group as nat, *config),
            decreases config.layers_per_block - i,
        {
            let prefix: String = numbered(stem.as_str(), i);
            let ghost before = layers@;
            match self.load_codec_transformer_layer(prefix.as_str(), config, sliding_window) {
                Ok(layer) => {
                    layers.push(layer);
                },
                Err(error) => {
                    let e: LoadError = error.within(
                        Context::TransformerBlock { block: 2 * group + 1, layer: i },
                    );
                    proof {
                        lemma_codec_layer_fails(file, group as nat, i as nat, n, error, e);
                    }
                    return Err(e);
                },
            }
            proof {
                lemma_codec_layer_loads(file, group as nat, i as nat);
                assert forall|j: int| 0 <= j < layers@.len() implies (
                #[trigger] layers@[j]).loaded_from(
                    file,
                    codec_layer_prefix(group as nat, j as nat),
                    *config,
                    config.sliding_windows[group as int],
                ) by {
                    if j < i {
                        assert(layers@[j] == before[j]);
                    }
                }
            }
            i = i + 1;
        }
        Ok(layers)
    }

    /// Load the codec decoder (all floats, pre-fused weight norms).
    pub fn load_codec(&self, config: &CodecDecoderConfig) -> (r: Result<CodecDecoder, LoadError>)
        ensures
            match r {
                Ok(c) => {
                    &&& self@.all_load(codec_slots(*config))
                    &&& c.loaded_from(self@, *config)
                    &&& self@.stores_floats(
                        "audio_tokenizer.decoder_blocks.0.conv.weight"@,
                        c.input_conv.weight@,
                    )
                    &&& c.input_conv.stride == 1
                    &&& c.upsample_convs@.len() == 3
                    &&& forall|i: int|
                        0 <= i < 3 ==> self@.stores_floats(
                            "audio_tokenizer.decoder_blocks."@ + decimal((2 * i + 2) as nat)
                                + ".conv.weight"@,
                            (#[trigger] c.upsample_convs@[i]).weight@,
                        ) && c.upsample_convs@[i].stride == 2
                    &&& self@.stores_floats(
                        "audio_tokenizer.output_proj.conv.weight"@,
                        c.output_conv.weight@,
                    )
                    &&& c.output_conv.stride == 1
                    &&& c.transformer_groups@.len() == 4
                },
                Err(e) => self@.fails_first(codec_slots(*config), e),
            },
    {
        let ghost file = self@;
        let ghost s1 = seq![input_conv_slot()];
        let ghost s2 = codec_groups_slots(4, *config);
        let ghost s3 = upsample_slots(3);
        let ghost s4 = seq![output_conv_slot()];
        let ghost s5 = codebook_slots();
        let input_conv: CausalConv1d = match self.floats_slot(
            "audio_tokenizer.decoder_blocks.0.conv.weight",
            3,
            Some(Context::InputConv),
            Ghost(s1),
            Ghost(0),
        ) {
            Ok(weight) => CausalConv1d { weight, stride: 1 },
            Err(e) => {
                proof {
                    lemma_fails_in_front(file, s1, s2, e);
                    lemma_fails_in_front(file, s1 + s2, s3, e);
                    lemma_fails_in_front(file, s1 + s2 + s3, s4, e);
                    lemma_fails_in_front(file, s1 + s2 + s3 + s4, s5, e);
                }
                return Err(e);
            },
        };
        proof {
            lemma_loads_all(file, s1);
        }
        let transformer_groups: Vec<Vec<CodecTransformerLayer>> = match self.load_codec_groups(
            config,
        ) {
            Ok(t) => t,
            Err(e) => {
                proof {
                    lemma_fails_behind(file, s1, s2, e);
                    lemma_fails_in_front(file, s1 + s2, s3, e);
                    lemma_fails_in_front(file, s1 + s2 + s3, s4, e);
                    lemma_fails_in_front(file, s1 + s2 + s3 + s4, s5, e);
                }
                return Err(e);
            },
        };
        proof {
            lemma_all_load_both(file, s1, s2);
        }
        let upsample_convs: Vec<CausalConvTranspose1d> = match self.load_upsample_convs() {
            Ok(t) => t,
            Err(e) => {
                proof {
                    lemma_fails_behind(file, s1 + s2, s3, e);
                    lemma_fails_in_front(file, s1 + s2 + s3, s4, e);
                    lemma_fails_in_front(file, s1 + s2 + s3 + s4, s5, e);
                }
                return Err(e);
            },
        };
        proof {
            lemma_all_load_both(file, s1 + s2, s3);
        }
        let output_conv: CausalConv1d = match self.floats_slot(
            "audio_tokenizer.output_proj.conv.weight",
            3,
            Some(Context::OutputConv),
            Ghost(s4),
            Ghost(0),
        ) {
            Ok(weight) => CausalConv1d { weight, stride: 1 },
            Err(e) => {
                proof {
                    lemma_fails_behind(file, s1 + s2 + s3, s4, e);
                    lemma_fails_in_front(file, s1 + s2 + s3 + s4, s5, e);
                }
                return Err(e);
            },
        };
        proof {
            lemma_loads_all(file, s4);
            lemma_all_load_both(file, s1 + s2 + s3, s4);
        }
        let vq_codebook: VqCodebook = match self.load_vq_codebook() {
            Ok(t) => t,
            Err(e) => {
                proof {
                    lemma_fails_behind(file, s1 + s2 + s3 + s4, s5, e);
                }
                return Err(e);
            },
        };
        proof {
            lemma_all_load_both(file, s1 + s2 + s3 + s4, s5);
        }
        let codec: CodecDecoder = CodecDecoder {
            input_conv,
            transformer_groups,
            upsample_convs,
            output_conv,
            vq_codebook,
        };
        proof {
            law_codec_fields(file, *config, codec);
        }
        Ok(codec)
    }

    /// Load the transformer groups of the codec.
    fn load_codec_groups(&self, config: &CodecDecoderConfig) -> (r: Result<
        Vec<Vec<CodecTransformerLayer>>,
        LoadError,
    >)
        ensures
            match r {
                Ok(v) => self@.all_load(codec_groups_slots(4, *config)) && v@.len() == 4
                    && codec_groups_from(v@, self@, *config),
                Err(e) => self@.fails_first(codec_groups_slots(4, *config), e),
            },
    {
        let ghost file = self@;
        let mut groups: Vec<Vec<CodecTransformerLayer>> = Vec::with_capacity(4);
        let mut g: usize = 0;
        while g < 4
            invariant
                g <= 4,
                file == self@,
                file.all_load(codec_groups_slots(g as nat, *config)),
                groups@.len() == g,
                codec_groups_from(groups@, file, *config),
            decreases 4 - g,
        {
            let ghost before = groups@;
            match self.load_codec_group(g, config) {
                Ok(layers) => {
                    groups.push(layers);
                },
                Err(e) => {
                    proof {
                        lemma_codec_group_fails(file, g as nat, *config, e);
                    }
                    return Err(e);
                },
            }
            proof {
                lemma_all_load_both(
                    file,
                    codec_groups_slots(g as nat, *config),
                    codec_group_slots(g as nat, config.layers_per_block as nat),
                );
                assert forall|j: int| 0 <= j < groups@.len() implies {
                    &&& (#[trigger] groups@[j])@.len() == config.layers_per_block
                    &&& codec_group_from(groups@[j]@, file, j as nat, *config)
                } by {
                    if j < g {
                        assert(groups@[j] == before[j]);
                    }
                }
            }
            g = g + 1;
        }
        Ok(groups)
    }

    /// Load the upsampling convolutions of the codec.
    fn load_upsample_convs(&self) -> (r: Result<Vec<CausalConvTranspose1d>, LoadError>)
        ensures
            match r {
                Ok(v) => self@.all_load(upsample_slots(3)) && v@.len() == 3 && upsample_from(
                    v@,
                    self@,
                ),
                Err(e) => self@.fails_first(upsample_slots(3), e),
            },
    {
        let ghost file = self@;
        let ghost slots = upsample_slots(3);
        proof {
            lemma_loads_none(file, slots);
        }
        let mut convs: Vec<CausalConvTranspose1d> = Vec::with_capacity(3);
        let mut i: usize = 0;
        while i < 3
            invariant
                i <= 3,
                file == self@,
                slots == upsample_slots(3),
                file.all_load(slots.take(i as int)),
                convs@.len() == i,
                upsample_from(convs@, file),
            decreases 3 - i,
        {
            let block: String = numbered("audio_tokenizer.decoder_blocks.", 2 * i + 2);
            let ghost before = convs@;
            match self.floats_slot(
                joined(block.as_str(), ".conv.weight").as_str(),
                3,
                Some(Context::UpsampleConv { block: 2 * i + 2 }),
                Ghost(slots),
                Ghost(i as int),
            ) {
                Ok(weight) => {
                    convs.push(CausalConvTranspose1d { weight, stride: 2 });
                },
                Err(e) => {
                    return Err(e);
                },
            }
            proof {
                assert forall|j: int| 0 <= j < convs@.len() implies {
                    &&& (#[trigger] convs@[j]).weight@ == file.float_value(
                        upsample_name(j as nat),
                    )
                    &&& convs@[j].stride == 2
                } by {
                    if j < i {
                        assert(convs@[j] == before[j]);
                    }
                }
            }
            i = i + 1;
        }
        proof {
            lemma_loads_all(file, slots);
        }
        Ok(convs)
    }

    /// Load the codebook of the vector quantizer.
    pub fn load_vq_codebook(&self) -> (r: Result<VqCodebook, LoadError>)
        ensures
            match r {
                Ok(codebook) => {
                    let sums = self@.data(
                        "audio_tokenizer.quantizer.semantic_codebook.embedding_sum"@,
                    )->Ok_0;
                    let uses = self@.data(
                        "audio_tokenizer.quantizer.semantic_codebook.cluster_usage"@,
                    )->Ok_0;
                    let entry = self@.entry(
                        "audio_tokenizer.quantizer.semantic_codebook.embedding_sum"@,
                    )->0;
                    let n = codebook.n_entries as int;
                    let dim = codebook.embed_dim as int;
                    &&& self@.all_load(codebook_slots())
                    &&& codebook.loaded_from(self@)
                    &&& entry.dims.len() == 2
                    &&& n == entry.dims[1]
                    &&& dim == entry.dims[0]
                    &&& codebook.embedding_sum@.len() == n * dim
                    &&& codebook.cluster_usage@.len() == n
                    &&& forall|r: int, c: int|
                        #![trigger codebook.embedding_sum@[r * dim + c]]
                        0 <= r < n && 0 <= c < dim ==> codebook.embedding_sum@[r * dim + c]
                            == sums[4 * (r * dim + c)] + 0x100 * sums[4 * (r * dim + c) + 1]
                            + 0x1_0000 * sums[4 * (r * dim + c) + 2] + 0x100_0000 * sums[4 * (r
                            * dim + c) + 3]
                    &&& forall|r: int|
                        0 <= r < n ==> #[trigger] codebook.cluster_usage@[r] == uses[4 * r] + 0x100
                            * uses[4 * r + 1] + 0x1_0000 * uses[4 * r + 2] + 0x100_0000 * uses[4 * r
                            + 3]
                },
                Err(e) => self@.fails_first(codebook_slots(), e),
            },
    {
        let embed_name: &str = "audio_tokenizer.quantizer.semantic_codebook.embedding_sum";
        let usage_name: &str = "audio_tokenizer.quantizer.semantic_codebook.cluster_usage";
        let ghost file = self@;
        let ghost slots = codebook_slots();
        proof {
            lemma_loads_none(file, slots);
        }
        let embed_info: &TensorInfo = match self.reader.tensor_info(embed_name) {
            Some(t) => t,
            None => {
                let e: LoadError = load_error(embed_name, TensorError::Missing);
                proof {
                    lemma_fails_next(file, slots, 0, e);
                }
                return Err(e);
            },
        };
        proof {
            lemma_loads_next(file, slots, 0);
        }
        let embed_bytes: Vec<u8> = match self.reader.tensor_data(embed_name) {
            Ok(t) => t,
            Err(error) => {
                let e: LoadError = load_error(embed_name, error).within(Context::EmbeddingSum);
                proof {
                    lemma_fails_next(file, slots, 1, e);
                }
                return Err(e);
            },
        };
        proof {
            lemma_loads_next(file, slots, 1);
        }
        let usage_bytes: Vec<u8> = match self.reader.tensor_data(usage_name) {
            Ok(t) => t,
            Err(error) => {
                let e: LoadError = load_error(usage_name, error).within(Context::ClusterUsage);
                proof {
                    lemma_fails_next(file, slots, 2, e);
                }
                return Err(e);
            },
        };
        proof {
            lemma_loads_next(file, slots, 2);
        }
        let embed_shape: Vec<usize> = reverse_gguf_dims(embed_info.shape());
        let embedding_sum: Vec<u32> = decode_singles(embed_bytes.as_slice());
        let cluster_usage: Vec<u32> = decode_singles(usage_bytes.as_slice());
        if embed_shape.len() != 2 {
            let e: LoadError = load_error(
                embed_name,
                TensorError::Rank { expected: 2, found: embed_shape.len() },
            );
            proof {
                lemma_fails_next(file, slots, 3, e);
            }
            return Err(e);
        }
        let n_entries: usize = embed_shape[0];
        let embed_dim: usize = embed_shape[1];
        proof {
            lemma_matrix_count(embed_info@.dims);
        }
        let expected: usize = n_entries * embed_dim;
        if embedding_sum.len() != expected {
            let e: LoadError = load_error(
                embed_name,
                TensorError::Count { expected, found: embedding_sum.len() },
            );
            proof {
                lemma_fails_next(file, slots, 3, e);
            }
            return Err(e);
        }
        proof {
            lemma_loads_next(file, slots, 3);
        }
        if cluster_usage.len() != n_entries {
            let e: LoadError = load_error(
                usage_name,
                TensorError::Count { expected: n_entries, found: cluster_usage.len() },
            );
            proof {
                lemma_fails_next(file, slots, 4, e);
            }
            return Err(e);
        }
        proof {
            lemma_loads_next(file, slots, 4);
            lemma_loads_all(file, slots);
        }
        let codebook: VqCodebook = VqCodebook {
            embedding_sum,
            cluster_usage,
            n_entries,
            embed_dim,
        };
        proof {
            law_codebook_fields(file, codebook);
        }
        Ok(codebook)
    }

    /// Load token embeddings, dequantized where they are quantized.
    pub fn load_tok_embeddings(&self) -> (r: Result<FloatTensor, LoadError>)
        ensures
            match r {
                Ok(t) => self@.table_failure(tok_embeddings_name()) is None && t@
                    == self@.table_value(tok_embeddings_name()),
                Err(e) => self@.fails_at(seq![tok_embeddings_slot()], 0, e),
            },
    {
        let name: &str = "mm_audio_embeddings.tok_embeddings.weight";
        let info: &TensorInfo = match self.reader.tensor_info(name) {
            Some(t) => t,
            None => {
                return Err(load_error(name, TensorError::Missing));
            },
        };
        let dtype: GgmlDtype = info.dtype();
        match dtype {
            GgmlDtype::Q4_0 | GgmlDtype::Q8_0 => {
                let bytes: Vec<u8> = match self.reader.tensor_data(name) {
                    Ok(t) => t,
                    Err(error) => {
                        return Err(load_error(name, error));
                    },
                };
                let shape: Vec<usize> = reverse_gguf_dims(info.shape());
                if shape.len() < 2 {
                    return Err(load_error(name, TensorError::TooFewDims { found: shape.len() }));
                }
                let count: usize = match shape[0].checked_mul(shape[1]) {
                    Some(n) => n,
                    None => {
                        return Err(load_error(name, TensorError::TooLarge));
                    },
                };
                if count % 32 != 0 {
                    return Err(load_error(name, TensorError::PartialBlock));
                }
                let block_bytes: u128 = if dtype == GgmlDtype::Q4_0 {
                    18
                } else {
                    34
                };
                if (count / 32) as u128 * block_bytes > bytes.len() as u128 {
                    return Err(load_error(name, TensorError::Truncated));
                }
                let values: Vec<ScaledInt> = decode_elements(bytes.as_slice(), dtype, count);
                let mut table_shape: Vec<usize> = Vec::new();
                table_shape.push(shape[0]);
                table_shape.push(shape[1]);
                assert(table_shape@ =~= seq![shape@[0], shape@[1]]);
                Ok(FloatTensor { shape: table_shape, values: FloatBits::Scaled(values) })
            },
            _ => gguf_load_f32_tensor(&self.reader, name, 2),
        }
    }

    /// Load what every way of loading the model needs besides the token embeddings.
    fn load_common(&self) -> (r: Result<CommonParts, LoadError>)
        ensures
            match r {
                Ok(p) => self@.all_load(common_slots()) && p.loaded_from(self@),
                Err(e) => self@.fails_first(common_slots(), e),
            },
    {
        let ghost file = self@;
        let config: TtsBackboneConfig = TtsBackboneConfig::default();
        let fm_config: FmTransformerConfig = FmTransformerConfig::default();
        let codec_config: CodecDecoderConfig = CodecDecoderConfig::default();
        let ghost s1 = backbone_slots(config);
        let ghost s2 = seq![audio_codebook_slot()];
        let ghost s3 = fm_slots(fm_config);
        let ghost s4 = codec_slots(codec_config);
        let (layers, rope, norm): (Vec<Q4TtsDecoderLayer>, RoPE, RmsNorm) =
            match self.load_backbone(&config) {
            Ok(t) => t,
            Err(e) => {
                proof {
                    lemma_fails_in_front(file, s1, s2, e);
                    lemma_fails_in_front(file, s1 + s2, s3, e);
                    lemma_fails_in_front(file, s1 + s2 + s3, s4, e);
                }
                return Err(e);
            },
        };
        let audio_codebook_embeddings: FloatTensor = match self.load_audio_codebook_embeddings() {
            Ok(t) => t,
            Err(e) => {
                proof {
                    lemma_fails_single(file, s2, e);
                    lemma_fails_behind(file, s1, s2, e);
                    lemma_fails_in_front(file, s1 + s2, s3, e);
                    lemma_fails_in_front(file, s1 + s2 + s3, s4, e);
                }
                return Err(e);
            },
        };
        proof {
            lemma_all_load_both(file, s1, s2);
        }
        let fm: Q4FmTransformer = match self.load_fm_transformer(&fm_config) {
            Ok(t) => t,
            Err(e) => {
                proof {
                    lemma_fails_behind(file, s1 + s2, s3, e);
                    lemma_fails_in_front(file, s1 + s2 + s3, s4, e);
                }
                return Err(e);
            },
        };
        proof {
            lemma_all_load_both(file, s1 + s2, s3);
        }
        let codec: CodecDecoder = match self.load_codec(&codec_config) {
            Ok(t) => t,
            Err(e) => {
                proof {
                    lemma_fails_behind(file, s1 + s2 + s3, s4, e);
                }
                return Err(e);
            },
        };
        proof {
            lemma_all_load_both(file, s1 + s2 + s3, s4);
        }
        Ok(
            CommonParts { layers, rope, norm, audio_codebook_embeddings, fm, codec, config },
        )
    }

    /// Load the complete model, with the token embeddings as floats.
    pub fn load(&self) -> (r: Result<(Q4TtsBackbone, Q4FmTransformer, CodecDecoder), LoadError>)
        ensures
            match r {
                Ok((backbone, fm, codec)) => {
                    &&& self@.all_load(model_slots())
                    &&& backbone.loaded_from(self@)
                    &&& backbone.layers@.len() == 26
                    &&& backbone.config == TtsBackboneConfig::standard()
                    &&& self@.stores_floats("norm.weight"@, backbone.norm.weight@)
                    &&& self@.stores_floats(
                        "mm_audio_embeddings.audio_codebook_embeddings.embeddings.weight"@,
                        backbone.audio_codebook_embeddings@,
                    )
                    &&& backbone.tok_embeddings matches TokEmbedStore::F32(t) && t@
                        == self@.table_value("mm_audio_embeddings.tok_embeddings.weight"@)
                    &&& fm.layers@.len() == 3
                    &&& codec.transformer_groups@.len() == 4
                    &&& fm.loaded_from(self@, FmTransformerConfig::standard())
                    &&& codec.loaded_from(self@, CodecDecoderConfig::standard())
                },
                Err(e) => self@.fails_first(model_slots(), e),
            },
    {
        let ghost file = self@;
        let ghost first = seq![tok_embeddings_slot()];
        let tok_embeddings: FloatTensor = match self.load_tok_embeddings() {
            Ok(t) => t,
            Err(e) => {
                proof {
                    lemma_fails_single(file, first, e);
                    lemma_fails_in_front(file, first, common_slots(), e);
                }
                return Err(e);
            },
        };
        let parts: CommonParts = match self.load_common() {
            Ok(t) => t,
            Err(e) => {
                proof {
                    lemma_fails_behind(file, first, common_slots(), e);
                }
                return Err(e);
            },
        };
        proof {
            lemma_all_load_both(file, first, common_slots());
        }
        let backbone: Q4TtsBackbone = Q4TtsBackbone {
            layers: parts.layers,
            norm: parts.norm,
            tok_embeddings: TokEmbedStore::F32(tok_embeddings),
            audio_codebook_embeddings: parts.audio_codebook_embeddings,
            rope: parts.rope,
            config: parts.config,
        };
        proof {
            law_loaded_fields(file, backbone);
        }
        Ok((backbone, parts.fm, parts.codec))
    }

    /// Load model components without dequantizing token embeddings.
    ///
    /// Returns [`Q4TtsModelParts`] for two-phase loading.
    pub fn load_deferred(&self) -> (r: Result<Q4TtsModelParts, LoadError>)
        ensures
            match r {
                Ok(parts) => {
                    let entry = self@.entry("mm_audio_embeddings.tok_embeddings.weight"@)->0;
                    let rank = entry.dims.len();
                    &&& self@.all_load(deferred_slots())
                    &&& parts.loaded_from(self@)
                    &&& self@.data("mm_audio_embeddings.tok_embeddings.weight"@) == Ok::<
                        _,
                        TensorError,
                    >(parts.tok_embed_q4_bytes@)
                    &&& rank >= 2
                    &&& parts.tok_embed_shape[0] == entry.dims[rank - 1]
                    &&& parts.tok_embed_shape[1] == entry.dims[rank - 2]
                    &&& parts.tok_embed_dtype == entry.dtype
                    &&& parts.config == TtsBackboneConfig::standard()
                    &&& parts.backbone_layers@.len() == 26
                    &&& parts.backbone_rope.max_seq_len == 131_072
                    &&& self@.stores_floats("norm.weight"@, parts.backbone_norm.weight@)
                    &&& self@.stores_floats(
                        "mm_audio_embeddings.audio_codebook_embeddings.embeddings.weight"@,
                        parts.audio_codebook_embeddings@,
                    )
                },
                Err(e) => self@.fails_first(deferred_slots(), e),
            },
    {
        let ghost file = self@;
        let ghost first = seq![plain(tok_embeddings_name(), Purpose::Bytes)];
        let ghost last = seq![plain(tok_embeddings_name(), Purpose::Matrix)];
        let tok_name: &str = "mm_audio_embeddings.tok_embeddings.weight";
        let tok_embed_q4_bytes: Vec<u8> = match self.reader.tensor_data(tok_name) {
            Ok(t) => t,
            Err(error) => {
                let e: LoadError = load_error(tok_name, error);
                proof {
                    lemma_fails_single(file, first, e);
                    lemma_fails_in_front(file, first, common_slots(), e);
                    lemma_fails_in_front(file, first + common_slots(), last, e);
                }
                return Err(e);
            },
        };
        let parts: CommonParts = match self.load_common() {
            Ok(t) => t,
            Err(e) => {
                proof {
                    lemma_fails_behind(file, first, common_slots(), e);
                    lemma_fails_in_front(file, first + common_slots(), last, e);
                }
                return Err(e);
            },
        };
        proof {
            lemma_all_load_both(file, first, common_slots());
        }
        let tok_info: &TensorInfo = match self.reader.tensor_info(tok_name) {
            Some(t) => t,
            None => {
                let e: LoadError = load_error(tok_name, TensorError::Missing);
                proof {
                    lemma_fails_single(file, last, e);
                    lemma_fails_behind(file, first + common_slots(), last, e);
                }
                return Err(e);
            },
        };
        let tok_shape: Vec<usize> = reverse_gguf_dims(tok_info.shape());
        if tok_shape.len() < 2 {
            let e: LoadError = load_error(
                tok_name,
                TensorError::TooFewDims { found: tok_shape.len() },
            );
            proof {
                lemma_fails_single(file, last, e);
                lemma_fails_behind(file, first + common_slots(), last, e);
            }
            return Err(e);
        }
        proof {
            lemma_all_load_both(file, first + common_slots(), last);
        }
        let deferred: Q4TtsModelParts = Q4TtsModelParts {
            backbone_layers: parts.layers,
            backbone_rope: parts.rope,
            backbone_norm: parts.norm,
            audio_codebook_embeddings: parts.audio_codebook_embeddings,
            fm: parts.fm,
            codec: parts.codec,
            tok_embed_q4_bytes,
            tok_embed_shape: [tok_shape[0], tok_shape[1]],
            tok_embed_dtype: tok_info.dtype(),
            config: parts.config,
        };
        proof {
            law_model_parts_load(file);
            law_backbone_norm(
                file,
                deferred.config,
                deferred.backbone_layers@,
                deferred.backbone_rope,
                deferred.backbone_norm,
            );
        }
        Ok(deferred)
    }
}

/// Decoder layer number `i` loads after those before it.
proof fn lemma_layer_loads(file: GgufFile, tower: Tower, i: nat)
    requires
        file.all_load(tower.slots(i)),
        file.all_load(tower.layer_slots(i)),
    ensures
        file.all_load(tower.slots(i + 1)),
{
    lemma_loads_within(file, tower.layer_context(i), tower.layer_slots(i));
    lemma_all_load_both(
        file,
        tower.slots(i),
        within(tower.layer_context(i), tower.layer_slots(i)),
    );
}

/// A failure among the first `i` decoder layers is one among the first `n`.
proof fn lemma_more_layers_fail(file: GgufFile, tower: Tower, i: nat, n: nat, e: LoadError)
    requires
        i <= n,
        file.fails_first(tower.slots(i), e),
    ensures
        file.fails_first(tower.slots(n), e),
    decreases n - i,
{
    if i < n {
        lemma_fails_in_front(
            file,
            tower.slots(i),
            within(tower.layer_context(i), tower.layer_slots(i)),
            e,
        );
        lemma_more_layers_fail(file, tower, i + 1, n, e);
    }
}

/// Decoder layer number `i` does not load, but those before it do.
proof fn lemma_layer_fails(
    file: GgufFile,
    tower: Tower,
    i: nat,
    n: nat,
    inner: LoadError,
    e: LoadError,
)
    requires
        i < n,
        file.all_load(tower.slots(i)),
        file.fails_first(tower.layer_slots(i), inner),
        e.wraps(tower.layer_context(i), inner),
    ensures
        file.fails_first(tower.slots(n), e),
{
    let parts = within(tower.layer_context(i), tower.layer_slots(i));
    lemma_fails_within(file, tower.layer_context(i), tower.layer_slots(i), inner, e);
    lemma_fails_behind(file, tower.slots(i), parts, e);
    lemma_more_layers_fail(file, tower, i + 1, n, e);
}

/// The only tensor of a list does not load.
proof fn lemma_fails_single(file: GgufFile, slots: Seq<Slot>, e: LoadError)
    requires
        slots.len() == 1,
        file.fails_at(slots, 0, e),
    ensures
        file.fails_first(slots, e),
{
    lemma_loads_none(file, slots);
    lemma_fails_next(file, slots, 0, e);
}

/// Layer number `i` of a codec group, as a part of the codec.
spec fn codec_layer_parts(group: nat, i: nat) -> Seq<Slot> {
    within(codec_layer_context(group, i), codec_layer_slots(codec_layer_prefix(group, i)))
}

/// Layer number `i` of a codec group loads after those before it.
proof fn lemma_codec_layer_loads(file: GgufFile, group: nat, i: nat)
    requires
        file.all_load(codec_group_slots(group, i)),
        file.all_load(codec_layer_slots(codec_layer_prefix(group, i))),
    ensures
        file.all_load(codec_group_slots(group, i + 1)),
{
    lemma_loads_within(
        file,
        codec_layer_context(group, i),
        codec_layer_slots(codec_layer_prefix(group, i)),
    );
    lemma_all_load_both(file, codec_group_slots(group, i), codec_layer_parts(group, i));
}

/// A failure among the first `i` layers of a codec group is one among the first `n`.
proof fn lemma_more_codec_layers_fail(file: GgufFile, group: nat, i: nat, n: nat, e: LoadError)
    requires
        i <= n,
        file.fails_first(codec_group_slots(group, i), e),
    ensures
        file.fails_first(codec_group_slots(group, n), e),
    decreases n - i,
{
    if i < n {
        lemma_fails_in_front(
            file,
            codec_group_slots(group, i),
            codec_layer_parts(group, i),
            e,
        );
        lemma_more_codec_layers_fail(file, group, i + 1, n, e);
    }
}

/// Layer number `i` of a codec group does not load, but those before it do.
proof fn lemma_codec_layer_fails(
    file: GgufFile,
    group: nat,
    i: nat,
    n: nat,
    inner: LoadError,
    e: LoadError,
)
    requires
        i < n,
        file.all_load(codec_group_slots(group, i)),
        file.fails_first(codec_layer_slots(codec_layer_prefix(group, i)), inner),
        e.wraps(codec_layer_context(group, i), inner),
    ensures
        file.fails_first(codec_group_slots(group, n), e),
{
    lemma_fails_within(
        file,
        codec_layer_context(group, i),
        codec_layer_slots(codec_layer_prefix(group, i)),
        inner,
        e,
    );
    lemma_fails_behind(file, codec_group_slots(group, i), codec_layer_parts(group, i), e);
    lemma_more_codec_layers_fail(file, group, i + 1, n, e);
}

/// A failure among the first `g` codec groups is one among all of them.
proof fn lemma_more_codec_groups_fail(
    file: GgufFile,
    g: nat,
    config: CodecDecoderConfig,
    e: LoadError,
)
    requires
        g <= 4,
        file.fails_first(codec_groups_slots(g, config), e),
    ensures
        file.fails_first(codec_groups_slots(4, config), e),
    decreases 4 - g,
{
    if g < 4 {
        lemma_fails_in_front(
            file,
            codec_groups_slots(g, config),
            codec_group_slots(g, config.layers_per_block as nat),
            e,
        );
        lemma_more_codec_groups_fail(file, g + 1, config, e);
    }
}

/// Codec group number `g` does not load, but those before it do.
proof fn lemma_codec_group_fails(
    file: GgufFile,
    g: nat,
    config: CodecDecoderConfig,
    e: LoadError,
)
    requires
        g < 4,
        file.all_load(codec_groups_slots(g, config)),
        file.fails_first(codec_group_slots(g, config.layers_per_block as nat), e),
    ensures
        file.fails_first(codec_groups_slots(4, config), e),
{
    lemma_fails_behind(
        file,
        codec_groups_slots(g, config),
        codec_group_slots(g, config.layers_per_block as nat),
        e,
    );
    lemma_more_codec_groups_fail(file, g + 1, config, e);
}

} // verus!
