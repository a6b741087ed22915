//! The personal WeChat (iLink bot) adapter.
pub mod adapter;
pub mod cache;
pub mod client;
pub mod crypto;
pub mod event;
