//! Verified core of a small line-based chat client: conversation history
//! with alternating speaker roles, deterministic prompt assembly, JSON
//! request framing, reply trimming, and a transcript-logging decorator.
//! Network and file I/O live outside this crate; the logic here is proved.

pub mod chat;
pub mod config;
pub mod prompt;
pub mod request;
pub mod text;
pub mod transcript;

pub use chat::{AIResponse, Chat, ChatError, ChatWithAI, Choice, CompletionRequest, Transport};
pub use transcript::ReportingToFile;
