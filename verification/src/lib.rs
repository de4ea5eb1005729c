//! Local inference engine core: GGUF metadata, configuration, generation control, prefix
//! caching and the request model of the chat API.
pub mod api;
pub mod config;
pub mod error;
pub mod float;
pub mod gguf;
pub mod ids;
pub mod inference;
pub mod model;
pub mod render;
pub mod session;
pub mod tensor;
pub mod text;
pub mod tokenizer;
pub mod types;
