//! The error type shared by the library.
use vstd::prelude::*;

use crate::text::{push_str, string_from};

verus! {

/// What went wrong, with a description.
#[derive(Debug, Clone)]
pub enum AstrBotError {
    Config(String),
    Io(String),
    Serde(String),
    Network(String),
    Provider(String),
    Platform(String),
    Database(String),
    Plugin(String),
    NotFound(String),
    Custom(String),
}

/// The text an error is displayed as.
pub open spec fn error_text(e: AstrBotError) -> Seq<char> {
    match e {
        AstrBotError::Config(s) => "Configuration error: "@ + s@,
        AstrBotError::Io(s) => "IO error: "@ + s@,
        AstrBotError::Serde(s) => "Serialization error: "@ + s@,
        AstrBotError::Network(s) => "Network error: "@ + s@,
        AstrBotError::Provider(s) => "Provider error: "@ + s@,
        AstrBotError::Platform(s) => "Platform error: "@ + s@,
        AstrBotError::Database(s) => "Database error: "@ + s@,
        AstrBotError::Plugin(s) => "Plugin error: "@ + s@,
        AstrBotError::NotFound(s) => "Not found: "@ + s@,
        AstrBotError::Custom(s) => s@,
    }
}

impl AstrBotError {
    /// The text this error is displayed as.
    pub fn message(&self) -> (r: String)
        ensures
            r@ == error_text(*self),
    {
        let (prefix, body): (&str, &String) = match self {
            AstrBotError::Config(s) => ("Configuration error: ", s),
            AstrBotError::Io(s) => ("IO error: ", s),
            AstrBotError::Serde(s) => ("Serialization error: ", s),
            AstrBotError::Network(s) => ("Network error: ", s),
            AstrBotError::Provider(s) => ("Provider error: ", s),
            AstrBotError::Platform(s) => ("Platform error: ", s),
            AstrBotError::Database(s) => ("Database error: ", s),
            AstrBotError::Plugin(s) => ("Plugin error: ", s),
            AstrBotError::NotFound(s) => ("Not found: ", s),
            AstrBotError::Custom(s) => {
                return s.clone();
            },
        };
        let mut m = string_from(prefix);
        push_str(&mut m, body.as_str());
        m
    }
}

} // verus!
