//! An OpenAI-compatible gateway in front of LLM backends: authentication,
//! per-key rate limiting, request translation, stream translation and
//! per-key usage tracking.
pub mod models;
pub mod keyed;
pub mod auth;
pub mod providers;
pub mod stream;
pub mod tracking;
pub mod stats;
pub mod rate_limit;
