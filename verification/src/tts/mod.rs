//! Parts of the text-to-speech model that do not depend on the file format.

pub mod codec;
pub mod config;
