//! ferox-ai: a shared interface for talking to LLM providers, with an
//! OpenAI-compatible adapter.
pub mod cli;
pub mod error;
pub mod gateway;
pub mod models;
pub mod openai_compatible;
pub mod settings;
pub mod text;

pub use gateway::Gateway;
