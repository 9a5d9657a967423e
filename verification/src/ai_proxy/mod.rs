//! The AI proxy dispatcher: provider targets, request translation between
//! the OpenAI and Anthropic wire formats, fallback and context propagation.

pub mod providers;
pub mod config;
pub mod dispatch;
pub mod tools;
pub mod chat_completion;
pub mod transport;
pub mod responses;
pub mod models;
