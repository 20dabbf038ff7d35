# voxtral_mini_realtime

Verified loading of GGUF-quantized speech synthesis weights.

The library reads a GGUF file that is held in memory, in one piece or in shards,
and turns it into the weights of a text-to-speech model: an autoregressive backbone,
a flow-matching transformer and a codec decoder. Matrices are stored in Q4_0 or Q8_0
blocks. Floating-point numbers travel through the library as bit patterns.

- `src/gguf/bytes.rs`, `reader.rs`: byte sources and the file format.
- `src/gguf/tensor.rs`, `linear.rs`, `floats.rs`: quantized matrices, linear layers
  and their fused forms, tensors of floats.
- `src/gguf/layout.rs`: which tensors make up the model.
- `src/gguf/loader.rs`, `tts_loader.rs`: loading of single tensors and of the model.
- `src/gguf/context.rs`, `messages.rs`: how errors read.
- `src/gguf/laws.rs`, `product_laws.rs`, `error_laws.rs`, `written.rs`: what holds of the
  library as a whole.
- `src/tts/`: the codec decoder and the dimensions of the model.
- `app/`: files, GPU buffers and floating point.

| Block | Bytes | Elements | Layout |
|---|---|---|---|
| Q4_0 | 18 | 32 | 16-bit float scale, then two elements in each byte |
| Q8_0 | 34 | 32 | 16-bit float scale, then one signed byte per element |
