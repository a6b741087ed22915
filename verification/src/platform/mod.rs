//! Platforms: the message model and the adapters' protocol logic.
pub mod event;
pub mod message;
pub mod manager;
pub mod message_chain;
pub mod metadata;
pub mod sources;
pub mod traits;
