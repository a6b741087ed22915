//! Shared utilities: errors and the log buffer.
pub mod error;
pub mod logging;
