//! Translation between the Responses API that Codex speaks and the Chat Completions API
//! of Xiaomi MiMo, with the request flow around the provider call.
pub mod json;
pub mod text;
pub mod registry;
pub mod tools;
pub mod error;
pub mod content;
pub mod reasoning;
pub mod convert;
pub mod ids;
pub mod usage;
pub mod respond;
pub mod sse;
pub mod models;
pub mod store;
pub mod service;
pub mod wire;
