//! LLM providers: request and response entities, the registry, and the
//! OpenAI-compatible chat provider's request logic.
pub mod entities;
pub mod manager;
pub mod openai_compat;
pub mod traits;
