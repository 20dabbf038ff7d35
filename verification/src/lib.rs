//! Loading of GGUF-quantized speech synthesis weights.
//!
//! The library reads a GGUF file that is held in memory, in one piece or in
//! shards, checks it, and turns it into the weights of a text-to-speech model:
//! the autoregressive backbone, the flow-matching transformer and the codec
//! decoder. Floating-point numbers travel through it as bit patterns.

pub mod gguf;
pub mod tts;
