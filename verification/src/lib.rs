//! Prompt shaping and directive parsing for the Minc text-shim model provider.

pub mod text;
pub mod truncate;
pub mod sanitize;
pub mod types;
pub mod json;
pub mod directive;
pub mod transcript;
pub mod request;
pub mod response;
pub mod models;
pub mod grammar;
