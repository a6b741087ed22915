//! The trait an LLM provider implements.
use vstd::prelude::*;

use crate::provider::entities::{ProviderMeta, ProviderType};
use crate::provider::openai_compat::OpenAICompatProvider;

verus! {

/// An LLM provider as the registry sees it: what it is. Chatting with it is
/// asynchronous and belongs to the host that drives it.
pub trait Provider {
    fn meta(&self) -> ProviderMeta;
}

impl Provider for OpenAICompatProvider {
    fn meta(&self) -> (r: ProviderMeta)
        ensures
            r.id@ == self.provider_id@,
            r.model matches Some(m) && m@ == self.model@,
            r.provider_type@ == "openai_chat_completion"@,
            r.provider_kind == ProviderType::ChatCompletion,
    {
        OpenAICompatProvider::meta(self)
    }
}

} // verus!
