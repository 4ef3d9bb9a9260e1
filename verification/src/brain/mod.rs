//! A hardware-agnostic intent framework for voice assistants.
//!
//! This is the seam between a language model deciding what to do and a device
//! doing it. It knows no device and no content provider.

pub mod client;
pub mod error;
pub mod registry;
pub mod run;
pub mod traits;

pub use client::{
    ChatMessage, ChatResponse, ClientConfig, LlmClient, ToolCall, DEFAULT_API_BASE, DEFAULT_MODEL,
};
pub use error::BrainErr;
pub use registry::{Tool, ToolRegistry};
pub use run::{Agent, AgentConfig, DEFAULT_SYSTEM_PROMPT};
pub use traits::{Playable, Track, Utterance};
