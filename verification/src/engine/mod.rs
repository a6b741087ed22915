//! The bot's core: the message pipeline, the in-flight message set of the event
//! bus, and the start-up decisions of the lifecycle.
pub mod event_bus;
pub mod lifecycle;
pub mod pipeline;
