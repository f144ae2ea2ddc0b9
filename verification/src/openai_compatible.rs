//! The OpenAI-compatible chat completions adapter.
pub mod client;
pub mod errors;
pub mod mapping;
pub mod models;
pub mod sse;
pub mod stream;

pub use client::{OpenAiCompatibleClient, OpenAiCompatibleClientBuilder};
pub use errors::{ClientBuildError, OpenAiClientError};
