//! AstrBot's core logic: message model, platform adapters' protocol logic, LLM
//! provider bookkeeping, configuration, and the dashboard's access rules.
pub mod api;
pub mod assoc;
pub mod config;
pub mod engine;
mod entropy;
pub mod json;
pub mod platform;
pub mod text;
pub mod utils;
pub mod plugin;
pub mod provider;
