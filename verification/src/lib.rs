//! A gateway core that routes OpenAI-style requests across several providers.

pub mod config;
pub mod handlers;
pub mod json;
pub mod listing;
pub mod mapping;
pub mod middleware;
pub mod reply;
pub mod resolve;
pub mod text;
pub mod upstream;
