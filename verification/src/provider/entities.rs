//! What is sent to and received from LLM providers.
use vstd::prelude::*;

use crate::json::JsonValue;
use crate::text::string_from;

verus! {

/// What a provider does.
#[derive(Debug, Clone, Copy, PartialEq, Eq, Structural)]
#[non_exhaustive]
pub enum ProviderType {
    ChatCompletion,
    SpeechToText,
    TextToSpeech,
    Embedding,
    Rerank,
}

/// The name a provider type is known by.
pub open spec fn provider_type_name(t: ProviderType) -> Seq<char> {
    match t {
        ProviderType::ChatCompletion => "chat_completion"@,
        ProviderType::SpeechToText => "speech_to_text"@,
        ProviderType::TextToSpeech => "text_to_speech"@,
        ProviderType::Embedding => "embedding"@,
        ProviderType::Rerank => "rerank"@,
    }
}

impl ProviderType {
    pub fn as_str(&self) -> (r: &'static str)
        ensures
            r@ == provider_type_name(*self),
    {
        match self {
            ProviderType::ChatCompletion => "chat_completion",
            ProviderType::SpeechToText => "speech_to_text",
            ProviderType::TextToSpeech => "text_to_speech",
            ProviderType::Embedding => "embedding",
            ProviderType::Rerank => "rerank",
        }
    }
}

/// What identifies a provider instance.
#[derive(Debug, Clone)]
pub struct ProviderMeta {
    pub id: String,
    pub model: Option<String>,
    pub provider_type: String,
    pub provider_kind: ProviderType,
}

/// Tokens used by one request.
#[derive(Debug, Clone, Copy)]
pub struct TokenUsage {
    pub input_other: u32,
    pub input_cached: u32,
    pub output: u32,
}

impl Default for TokenUsage {
    fn default() -> (r: TokenUsage)
        ensures
            r.input_other == 0 && r.input_cached == 0 && r.output == 0,
    {
        TokenUsage { input_other: 0, input_cached: 0, output: 0 }
    }
}

impl TokenUsage {
    /// All tokens, input and output.
    pub fn total(&self) -> (r: u64)
        ensures
            r == self.input_other + self.input_cached + self.output,
    {
        (self.input_other as u64) + (self.input_cached as u64) + (self.output as u64)
    }

    /// All input tokens, cached or not.
    pub fn input(&self) -> (r: u64)
        ensures
            r == self.input_other + self.input_cached,
    {
        (self.input_other as u64) + (self.input_cached as u64)
    }
}

/// A provider's answer.
#[derive(Debug, Clone)]
pub struct LLMResponse {
    pub role: String,
    pub completion_text: String,
    pub reasoning_content: Option<String>,
    pub is_chunk: bool,
    pub usage: Option<TokenUsage>,
}

impl LLMResponse {
    /// A complete assistant answer with text `completion_text`.
    pub fn text(completion_text: &str) -> (r: LLMResponse)
        ensures
            r.role@ == "assistant"@,
            r.completion_text@ == completion_text@,
            r.reasoning_content is None,
            !r.is_chunk,
            r.usage is None,
    {
        LLMResponse {
            role: string_from("assistant"),
            completion_text: string_from(completion_text),
            reasoning_content: None,
            is_chunk: false,
            usage: None,
        }
    }
}

/// A request to a provider.
#[derive(Debug)]
pub struct ProviderRequest {
    pub prompt: Option<String>,
    pub system_prompt: Option<String>,
    pub contexts: Vec<JsonValue>,
    pub model: Option<String>,
    pub stream: bool,
}

impl Default for ProviderRequest {
    fn default() -> (r: ProviderRequest)
        ensures
            r.prompt is None,
            r.system_prompt is None,
            r.contexts@.len() == 0,
            r.model is None,
            !r.stream,
    {
        ProviderRequest { prompt: None, system_prompt: None, contexts: Vec::new(), model: None, stream: false }
    }
}

impl ProviderRequest {
    /// A request asking `prompt` and nothing else.
    pub fn prompt(prompt: &str) -> (r: ProviderRequest)
        ensures
            r.prompt matches Some(p) && p@ == prompt@,
            r.system_prompt is None,
            r.contexts@.len() == 0,
            r.model is None,
            !r.stream,
    {
        ProviderRequest {
            prompt: Some(string_from(prompt)),
            system_prompt: None,
            contexts: Vec::new(),
            model: None,
            stream: false,
        }
    }
}

} // verus!
