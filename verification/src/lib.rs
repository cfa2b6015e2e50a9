//! Backend core of a desktop writing assistant: it frames chat-completion
//! requests for a language-model provider, classifies the provider's
//! responses, turns raw reply text into structured timeline events, and owns
//! the versioned project document that the surrounding application persists.

pub mod text;
pub mod timeline;
pub mod client;
pub mod store;
pub mod encode;
