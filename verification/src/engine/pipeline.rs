//! What the pipeline does with one incoming message: whether to answer it, on
//! which platform, with what request, and what reply an answer becomes.
use vstd::prelude::*;

use crate::platform::event::AstrMessageEvent;
use crate::platform::message_chain::{MessageChain, MessageComponent};
use crate::provider::entities::{LLMResponse, ProviderRequest};
use crate::provider::manager::{find_id, lemma_find_id, ProviderManager};
use crate::text::{push_str, str_eq, string_from};
use crate::utils::error::{error_text, AstrBotError};

verus! {

/// The platforms replies can go out on, each under its id.
pub struct Pipeline<P> {
    pub platforms: Vec<(String, P)>,
}

/// Why a message gets no answer.
#[derive(Debug, Clone, Copy, PartialEq, Eq, Structural)]
pub enum SkipReason {
    /// The message has no text.
    EmptyMessage,
    /// No platform is registered under the id the message came from.
    UnknownPlatform,
    /// No provider is in use.
    NoProvider,
}

/// What to do with a message.
#[derive(Debug)]
pub enum PipelineStep {
    Skip(SkipReason),
    /// Ask the provider in use `request`, and send the reply to `session_id` on
    /// the platform at `platform_index`.
    Ask { platform_index: usize, session_id: String, request: ProviderRequest },
}

/// The text a failed request is answered with, before the error's own text.
pub open spec fn apology_prefix() -> Seq<char> {
    "抱歉，我遇到了一个错误："@
}

/// The text of the reply to a provider's answer.
pub open spec fn reply_text(result: Result<LLMResponse, AstrBotError>) -> Seq<char> {
    match result {
        Ok(resp) => resp.completion_text@,
        Err(e) => apology_prefix() + error_text(e),
    }
}

/// `request` asks `text` and nothing else.
pub open spec fn prompt_only(request: ProviderRequest, text: Seq<char>) -> bool {
    &&& request.prompt matches Some(p) && p@ == text
    &&& request.system_prompt is None
    &&& request.contexts@.len() == 0
    &&& request.model is None
    &&& !request.stream
}

impl<P> Pipeline<P> {
    /// The ids of the platforms, in order.
    pub open spec fn ids(&self) -> Seq<Seq<char>> {
        Seq::new(self.platforms@.len(), |i: int| self.platforms@[i].0@)
    }

    pub fn new(platforms: Vec<(String, P)>) -> (r: Pipeline<P>)
        ensures
            r.platforms@ == platforms@,
    {
        Pipeline { platforms }
    }

    /// The position of the first platform registered under `id`.
    pub fn platform_index(&self, id: &str) -> (r: Option<usize>)
        ensures
            match r {
                Some(i) => i < self.platforms@.len() && find_id(self.ids(), id@) == i as int,
                None => find_id(self.ids(), id@) < 0,
            },
    {
        proof {
            lemma_find_id(self.ids(), id@);
        }
        let mut i: usize = 0;
        while i < self.platforms.len()
            invariant
                i <= self.platforms@.len(),
                -1 <= find_id(self.ids(), id@) < self.ids().len(),
                find_id(self.ids(), id@) >= 0 ==> self.ids()[find_id(self.ids(), id@)] == id@,
                find_id(self.ids(), id@) >= 0 ==> forall|j: int|
                    0 <= j < find_id(self.ids(), id@) ==> self.ids()[j] != id@,
                find_id(self.ids(), id@) < 0 ==> forall|j: int| 0 <= j < self.ids().len() ==> self.ids()[j] != id@,
                forall|j: int| 0 <= j < i ==> self.ids()[j] != id@,
            decreases self.platforms.len() - i,
        {
            if str_eq(self.platforms[i].0.as_str(), id) {
                assert(self.ids()[i as int] == id@);
                return Some(i);
            }
            i = i + 1;
        }
        None
    }

    /// Decides what to do with `event`: a message without text, from a platform
    /// not registered here, or arriving while no provider is in use gets no
    /// answer; otherwise its text is asked of the provider in use and the answer
    /// goes back to the message's session on the platform it came from.
    pub fn plan<Q>(&self, providers: &ProviderManager<Q>, event: &AstrMessageEvent) -> (r: PipelineStep)
        ensures
            event.message_str@.len() == 0 ==> r == PipelineStep::Skip(SkipReason::EmptyMessage),
            event.message_str@.len() > 0 && find_id(self.ids(), event.platform_meta.id@) < 0
                ==> r == PipelineStep::Skip(SkipReason::UnknownPlatform),
            event.message_str@.len() > 0 && find_id(self.ids(), event.platform_meta.id@) >= 0
                && !providers.in_use() ==> r == PipelineStep::Skip(SkipReason::NoProvider),
            event.message_str@.len() > 0 && find_id(self.ids(), event.platform_meta.id@) >= 0
                && providers.in_use() ==> (r matches PipelineStep::Ask { platform_index, session_id, request }
                && platform_index as int == find_id(self.ids(), event.platform_meta.id@)
                && session_id@ == event.session_id@
                && prompt_only(request, event.message_str@)),
    {
        let text = event.get_message_str();
        if text.is_empty() {
            return PipelineStep::Skip(SkipReason::EmptyMessage);
        }
        let platform_index = match self.platform_index(event.get_platform_id()) {
            Some(i) => i,
            None => {
                return PipelineStep::Skip(SkipReason::UnknownPlatform);
            },
        };
        if providers.get_using_provider().is_none() {
            return PipelineStep::Skip(SkipReason::NoProvider);
        }
        PipelineStep::Ask {
            platform_index,
            session_id: string_from(event.session_id.as_str()),
            request: ProviderRequest::prompt(text),
        }
    }

    /// The reply to a provider's answer: its text, or an apology followed by the
    /// error.
    pub fn reply_chain(result: &Result<LLMResponse, AstrBotError>) -> (r: MessageChain)
        ensures
            r.chain@.len() == 1,
            r.chain@[0] is Plain,
            r.text_of() == reply_text(*result),
    {
        match result {
            Ok(resp) => MessageChain::text(resp.completion_text.as_str()),
            Err(e) => {
                let mut t = string_from("抱歉，我遇到了一个错误：");
                let m = e.message();
                push_str(&mut t, m.as_str());
                MessageChain::text(t.as_str())
            },
        }
    }
}

} // verus!
