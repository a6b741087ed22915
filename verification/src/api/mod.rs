//! The dashboard API's own rules: login throttling and credentials, which
//! requests need a token, and the shapes of its answers.
pub mod auth;
pub mod frontend;
pub mod replies;
