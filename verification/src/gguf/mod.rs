//! The GGUF file format and the weights that are read from it.

pub mod block_laws;
pub mod bytes;
pub mod context;
pub mod error_laws;
pub mod field_laws;
pub mod file_laws;
pub mod floats;
pub mod laws;
pub mod layout;
pub mod linear;
pub mod loader;
pub mod messages;
pub mod metadata_laws;
pub mod model;
pub mod names;
pub mod order_laws;
pub mod product_laws;
pub mod reader;
pub mod tensor;
pub mod tts_loader;
pub mod tts_model;
pub mod written;
