//! The OpenAI-compatible chat provider: request shaping, the retry policy, and
//! reading answers.
use vstd::prelude::*;

use crate::json::{json_array, json_clone, json_object, members_view, values_view, Json, JsonValue};
use crate::provider::entities::{LLMResponse, ProviderMeta, ProviderRequest, ProviderType, TokenUsage};
use crate::text::{push_str, string_from, trim_end_char, trim_end_matches_char};
use crate::utils::error::AstrBotError;

verus! {

/// Where and as whom an OpenAI-compatible API is called; the HTTP client itself
/// lives with the caller.
#[derive(Debug)]
pub struct OpenAICompatProvider {
    pub base_url: String,
    pub authorization: String,
    pub model: String,
    pub provider_id: String,
    pub max_attempts: u32,
}

/// `{"role": role, "content": content}`.
pub open spec fn chat_message(role: Seq<char>, content: Seq<char>) -> Json {
    Json::Object(seq![("role"@, Json::Str(role)), ("content"@, Json::Str(content))])
}

/// The chat messages of a request: the system prompt (when non-empty), the context
/// entries that are objects, then the prompt (when given).
pub open spec fn request_messages(system_prompt: Option<Seq<char>>, contexts: Seq<Json>, prompt: Option<Seq<char>>) -> Seq<Json> {
    let head = match system_prompt {
        Some(s) => if s.len() > 0 {
            seq![chat_message("system"@, s)]
        } else {
            Seq::empty()
        },
        None => Seq::empty(),
    };
    let mid = contexts.filter(|c: Json| c is Object);
    let tail = match prompt {
        Some(p) => seq![chat_message("user"@, p)],
        None => Seq::empty(),
    };
    head + mid + tail
}

/// Law: the messages of a request are the system message (if any), then the
/// messages its contexts give, then the user prompt (if any); the contexts of two
/// runs give the messages of the first run followed by those of the second; and
/// one context gives itself when it is an object and nothing otherwise. So every
/// object context is sent, in order, and nothing else comes from the contexts.
pub proof fn lemma_request_messages_parts(
    system_prompt: Option<Seq<char>>,
    a: Seq<Json>,
    b: Seq<Json>,
    c: Json,
    prompt: Option<Seq<char>>,
)
    ensures
        request_messages(system_prompt, a, prompt) == request_messages(system_prompt, Seq::empty(), None)
            + request_messages(None, a, None) + request_messages(None, Seq::empty(), prompt),
        request_messages(None, a + b, None) == request_messages(None, a, None) + request_messages(None, b, None),
        request_messages(None, seq![c], None) == (if c is Object {
            seq![c]
        } else {
            Seq::<Json>::empty()
        }),
        request_messages(None, a, None).len() <= a.len(),
        request_messages(None, Seq::empty(), prompt) == match prompt {
            Some(p) => seq![chat_message("user"@, p)],
            None => Seq::<Json>::empty(),
        },
        request_messages(system_prompt, Seq::empty(), None) == match system_prompt {
            Some(s) => if s.len() > 0 {
                seq![chat_message("system"@, s)]
            } else {
                Seq::<Json>::empty()
            },
            None => Seq::<Json>::empty(),
        },
{
    let pred = |x: Json| x is Object;
    reveal_with_fuel(Seq::<Json>::filter, 1);
    let e = Seq::<Json>::empty();
    assert(e.filter(pred) =~= e);
    Seq::filter_distributes_over_add(a, b, pred);
    e.lemma_filter_push(c, pred);
    assert(e.push(c) =~= seq![c]);
    a.filter_lemma(pred);
    lemma_filter_len_le(a, pred);
    assert(request_messages(None, a + b, None) =~= (a + b).filter(pred));
    assert(request_messages(None, a, None) =~= a.filter(pred));
    assert(request_messages(None, b, None) =~= b.filter(pred));
    assert(request_messages(None, seq![c], None) =~= seq![c].filter(pred));
    assert(request_messages(None, e, prompt) =~= match prompt {
        Some(p) => seq![chat_message("user"@, p)],
        None => Seq::<Json>::empty(),
    });
    assert(request_messages(system_prompt, e, None) =~= match system_prompt {
        Some(s) => if s.len() > 0 {
            seq![chat_message("system"@, s)]
        } else {
            Seq::<Json>::empty()
        },
        None => Seq::<Json>::empty(),
    });
    assert(request_messages(system_prompt, a, prompt) =~= request_messages(system_prompt, e, None)
        + request_messages(None, a, None) + request_messages(None, e, prompt));
}

/// A filtered sequence is no longer than the sequence.
proof fn lemma_filter_len_le(s: Seq<Json>, pred: spec_fn(Json) -> bool)
    ensures
        s.filter(pred).len() <= s.len(),
    decreases s.len(),
{
    if s.len() > 0 {
        lemma_filter_len_le(s.drop_last(), pred);
        s.drop_last().lemma_filter_push(s.last(), pred);
        assert(s.drop_last().push(s.last()) =~= s);
    } else {
        reveal_with_fuel(Seq::<Json>::filter, 1);
    }
}

/// The view of an optional string.
pub open spec fn opt_view(o: Option<String>) -> Option<Seq<char>> {
    match o {
        Some(s) => Some(s@),
        None => None,
    }
}

/// The body of a chat completion request.
pub open spec fn completion_body(model: Seq<char>, messages: Seq<Json>) -> Json {
    Json::Object(seq![("model"@, Json::Str(model)), ("messages"@, Json::Array(messages)), ("stream"@, Json::Bool(false))])
}

/// The choice a completion answered with.
#[derive(Debug)]
pub struct ChatChoice {
    pub role: String,
    pub content: Option<String>,
    pub reasoning_content: Option<String>,
}

/// What one request attempt came to.
#[derive(Debug)]
pub enum AttemptOutcome {
    /// The server answered 4xx, with this status text and body.
    ClientError { status: String, body: String },
    /// The server answered with another non-success status.
    ServerError { status: String, body: String },
    /// The answer parsed; its first choice (if any) and its token counts (if any):
    /// prompt tokens, completion tokens, cached tokens.
    Completed { choice: Option<ChatChoice>, usage: Option<(u32, u32, Option<u32>)> },
    /// The answer did not parse, with this message.
    ParseError(String),
    /// The request did not complete, with this message.
    Transport(String),
}

/// Where a sequence of attempts stands: how many were made, and the last error.
#[derive(Debug)]
pub struct ChatRetry {
    pub attempt: u32,
    pub last_error: Option<String>,
}

/// `2^n`.
pub open spec fn pow2(n: nat) -> nat
    decreases n,
{
    if n == 0 {
        1
    } else {
        2 * pow2((n - 1) as nat)
    }
}

/// The token usage reported by a completion: uncached input is the prompt tokens
/// less the cached ones (not below zero).
pub open spec fn usage_spec(prompt: u32, completion: u32, cached: Option<u32>) -> TokenUsage {
    let c: int = match cached {
        Some(c) => c as int,
        None => 0,
    };
    TokenUsage {
        input_other: (if prompt >= c { prompt - c } else { 0 }) as u32,
        input_cached: c as u32,
        output: completion,
    }
}

impl ChatRetry {
    pub fn new() -> (r: ChatRetry)
        ensures
            r.attempt == 0,
            r.last_error is None,
    {
        ChatRetry { attempt: 0, last_error: None }
    }
}

impl OpenAICompatProvider {
    /// A provider calling `base_url` (without trailing slashes) with `api_key` as
    /// bearer token, asking `model`, trying each request up to three times.
    pub fn new(provider_id: &str, base_url: &str, api_key: &str, model: &str) -> (r: OpenAICompatProvider)
        ensures
            r.base_url@ == trim_end_char(base_url@, '/'),
            r.authorization@ == "Bearer "@ + api_key@,
            r.model@ == model@,
            r.provider_id@ == provider_id@,
            r.max_attempts == 3,
    {
        let mut authorization = string_from("Bearer ");
        push_str(&mut authorization, api_key);
        OpenAICompatProvider {
            base_url: trim_end_matches_char(base_url, '/'),
            authorization,
            model: string_from(model),
            provider_id: string_from(provider_id),
            max_attempts: 3,
        }
    }

    /// The provider's identity: its id and model, as an OpenAI-compatible chat
    /// completion provider.
    pub fn meta(&self) -> (r: ProviderMeta)
        ensures
            r.id@ == self.provider_id@,
            r.model matches Some(m) && m@ == self.model@,
            r.provider_type@ == "openai_chat_completion"@,
            r.provider_kind == ProviderType::ChatCompletion,
    {
        ProviderMeta {
            id: self.provider_id.clone(),
            model: Some(self.model.clone()),
            provider_type: string_from("openai_chat_completion"),
            provider_kind: ProviderType::ChatCompletion,
        }
    }

    /// The chat messages of a request.
    pub fn build_messages(&self, req: &ProviderRequest) -> (r: Vec<JsonValue>)
        ensures
            values_view(r@) == request_messages(
                opt_view(req.system_prompt),
                values_view(req.contexts@),
                opt_view(req.prompt),
            ),
    {
        let mut messages: Vec<JsonValue> = Vec::new();
        match &req.system_prompt {
            Some(sp) => {
                if !sp.as_str().is_empty() {
                    messages.push(role_message("system", sp.as_str()));
                }
            },
            None => {},
        }
        let ghost head = values_view(messages@);
        let ghost ctx = values_view(req.contexts@);
        let mut i: usize = 0;
        while i < req.contexts.len()
            invariant
                i <= req.contexts@.len(),
                ctx == values_view(req.contexts@),
                values_view(messages@) == head + ctx.take(i as int).filter(|c: Json| c is Object),
            decreases req.contexts.len() - i,
        {
            let ghost before = values_view(messages@);
            proof {
                reveal_with_fuel(Seq::<Json>::filter, 1);
                assert(ctx.take(i + 1).drop_last() =~= ctx.take(i as int));
            }
            if req.contexts[i].is_object() {
                messages.push(json_clone(&req.contexts[i]));
                assert(values_view(messages@) =~= before.push(ctx[i as int]));
            } else {
                assert(values_view(messages@) =~= before);
            }
            i = i + 1;
        }
        assert(ctx.take(req.contexts@.len() as int) =~= ctx);
        let ghost mid = values_view(messages@);
        match &req.prompt {
            Some(p) => {
                messages.push(role_message("user", p.as_str()));
                assert(values_view(messages@) =~= mid + seq![chat_message("user"@, p@)]);
            },
            None => {
                assert(values_view(messages@) =~= mid + Seq::<Json>::empty());
            },
        }
        proof {
            reveal_strlit("system");
            reveal_strlit("user");
        }
        messages
    }

    /// The URL chat completions are posted to.
    pub fn completion_url(&self) -> (r: String)
        ensures
            r@ == self.base_url@ + "/v1/chat/completions"@,
    {
        let mut u = self.base_url.clone();
        push_str(&mut u, "/v1/chat/completions");
        u
    }

    /// The body of the completion request for `req`: its model (else the
    /// provider's), its messages, not streamed.
    pub fn request_body(&self, req: &ProviderRequest) -> (r: JsonValue)
        ensures
            r@ == completion_body(
                match req.model {
                    Some(m) => m@,
                    None => self.model@,
                },
                request_messages(opt_view(req.system_prompt), values_view(req.contexts@), opt_view(req.prompt)),
            ),
    {
        let model = match &req.model {
            Some(m) => m.clone(),
            None => self.model.clone(),
        };
        let messages = self.build_messages(req);
        let ghost mv = values_view(messages@);
        let ghost model_v = model@;
        let mut m: Vec<(String, JsonValue)> = Vec::new();
        m.push((string_from("model"), JsonValue::Str(model)));
        m.push((string_from("messages"), json_array(messages)));
        m.push((string_from("stream"), JsonValue::Bool(false)));
        assert(members_view(m@) =~= completion_body(model_v, mv)->Object_0);
        json_object(m)
    }

    /// How long to wait before attempt number `attempt` (counting from zero): no
    /// wait before the first, then `1000 * 2^attempt` milliseconds.
    pub fn retry_delay_ms(attempt: u32) -> (r: Option<u64>)
        requires
            1000 * pow2(attempt as nat) <= u64::MAX,
        ensures
            attempt == 0 ==> r is None,
            attempt > 0 ==> r == Some((1000 * pow2(attempt as nat)) as u64),
    {
        if attempt == 0 {
            return None;
        }
        let mut d: u64 = 1000;
        let mut i: u32 = 0;
        while i < attempt
            invariant
                i <= attempt,
                1000 * pow2(attempt as nat) <= u64::MAX,
                d == 1000 * pow2(i as nat),
            decreases attempt - i,
        {
            proof {
                lemma_pow2_mono((i + 1) as nat, attempt as nat);
                assert(pow2((i + 1) as nat) == 2 * pow2(i as nat));
                assert(1000 * pow2((i + 1) as nat) == 2 * (1000 * pow2(i as nat))) by (nonlinear_arith)
                    requires
                        pow2((i + 1) as nat) == 2 * pow2(i as nat),
                ;
            }
            d = d * 2;
            i = i + 1;
        }
        Some(d)
    }

    /// Takes the outcome of one attempt: success or a client error ends the
    /// request; other failures are remembered and retried until `max_attempts`
    /// attempts were made, after which the last failure is the answer.
    pub fn record_attempt(&self, st: &mut ChatRetry, outcome: AttemptOutcome) -> (r: Option<Result<LLMResponse, AstrBotError>>)
        requires
            old(st).attempt < self.max_attempts,
        ensures
            r is None ==> final(st).attempt == old(st).attempt + 1 && final(st).attempt < self.max_attempts,
            match outcome {
                AttemptOutcome::ClientError { status, body } => (r matches Some(Err(AstrBotError::Provider(m)))
                    && m@ == "API error "@ + status@ + ": "@ + body@),
                AttemptOutcome::Completed { choice: Some(c), usage } => (r matches Some(Ok(resp))
                    && resp.role@ == c.role@
                    && resp.completion_text@ == match c.content {
                        Some(t) => t@,
                        None => Seq::empty(),
                    }
                    && resp.reasoning_content == c.reasoning_content
                    && !resp.is_chunk
                    && resp.usage == match usage {
                        Some((p, o, cached)) => Some(usage_spec(p, o, cached)),
                        None => None,
                    }),
                _ => {
                    let err = match outcome {
                        AttemptOutcome::ServerError { status, body } => "HTTP "@ + status@ + ": "@ + body@,
                        AttemptOutcome::Completed { .. } => "No choices in response"@,
                        AttemptOutcome::ParseError(e) => "Parse error: "@ + e@,
                        AttemptOutcome::Transport(e) => e@,
                        _ => Seq::empty(),
                    };
                    &&& final(st).last_error matches Some(le) && le@ == err
                    &&& if old(st).attempt + 1 < self.max_attempts {
                        r is None
                    } else {
                        r matches Some(Err(AstrBotError::Provider(m))) && m@ == err
                    }
                },
            },
    {
        let err = match outcome {
            AttemptOutcome::ClientError { status, body } => {
                let mut m = string_from("API error ");
                push_str(&mut m, status.as_str());
                push_str(&mut m, ": ");
                push_str(&mut m, body.as_str());
                return Some(Err(AstrBotError::Provider(m)));
            },
            AttemptOutcome::Completed { choice: Some(c), usage } => {
                let completion_text = match c.content {
                    Some(t) => t,
                    None => String::new(),
                };
                let usage = match usage {
                    Some((p, o, cached)) => Some(usage_from_counts(p, o, cached)),
                    None => None,
                };
                return Some(
                    Ok(
                        LLMResponse {
                            role: c.role,
                            completion_text,
                            reasoning_content: c.reasoning_content,
                            is_chunk: false,
                            usage,
                        },
                    ),
                );
            },
            AttemptOutcome::ServerError { status, body } => {
                let mut m = string_from("HTTP ");
                push_str(&mut m, status.as_str());
                push_str(&mut m, ": ");
                push_str(&mut m, body.as_str());
                m
            },
            AttemptOutcome::Completed { choice: None, usage: _ } => string_from("No choices in response"),
            AttemptOutcome::ParseError(e) => {
                let mut m = string_from("Parse error: ");
                push_str(&mut m, e.as_str());
                m
            },
            AttemptOutcome::Transport(e) => e,
        };
        st.attempt = st.attempt + 1;
        st.last_error = Some(err.clone());
        if st.attempt < self.max_attempts {
            None
        } else {
            Some(Err(AstrBotError::Provider(err)))
        }
    }
}

/// `{"role": role, "content": content}`.
fn role_message(role: &str, content: &str) -> (r: JsonValue)
    ensures
        r@ == chat_message(role@, content@),
{
    let mut m: Vec<(String, JsonValue)> = Vec::new();
    m.push((string_from("role"), JsonValue::string(role)));
    m.push((string_from("content"), JsonValue::string(content)));
    assert(members_view(m@) =~= chat_message(role@, content@)->Object_0);
    json_object(m)
}

/// The token usage a completion reports.
pub fn usage_from_counts(prompt_tokens: u32, completion_tokens: u32, cached_tokens: Option<u32>) -> (r: TokenUsage)
    ensures
        r == usage_spec(prompt_tokens, completion_tokens, cached_tokens),
{
    let cached: u32 = match cached_tokens {
        Some(c) => c,
        None => 0,
    };
    let other: u32 = if prompt_tokens >= cached { prompt_tokens - cached } else { 0 };
    TokenUsage { input_other: other, input_cached: cached, output: completion_tokens }
}

/// What an HTTP status alone decides about an attempt: a client error (4xx) or
/// another status outside 2xx ends it with that status and body; a success leaves
/// it to the body (`None`).
pub fn status_outcome(status: u16, status_text: String, body: String) -> (r: Option<AttemptOutcome>)
    ensures
        400 <= status <= 499 ==> (r matches Some(AttemptOutcome::ClientError { status: s, body: b })
            && s@ == status_text@ && b@ == body@),
        !(400 <= status <= 499) && !(200 <= status <= 299) ==> (r matches Some(
            AttemptOutcome::ServerError { status: s, body: b },
        ) && s@ == status_text@ && b@ == body@),
        200 <= status <= 299 ==> r is None,
{
    if 400 <= status && status <= 499 {
        Some(AttemptOutcome::ClientError { status: status_text, body })
    } else if !(200 <= status && status <= 299) {
        Some(AttemptOutcome::ServerError { status: status_text, body })
    } else {
        None
    }
}

// ---------------------------------------------------------------------------
// Reading a completion response
// ---------------------------------------------------------------------------

/// An optional text member: absent or null is `None`, a string is its text;
/// anything else does not read (outer `None`).
pub open spec fn read_opt_text(j: Option<Json>) -> Option<Option<Seq<char>>> {
    match j {
        None => Some(None),
        Some(Json::Null) => Some(None),
        Some(Json::Str(t)) => Some(Some(t)),
        Some(_) => None,
    }
}

/// A token count member that defaults to zero when absent.
pub open spec fn read_count(j: Option<Json>) -> Option<u32> {
    match j {
        None => Some(0u32),
        Some(Json::Int(n)) => if 0 <= n <= u32::MAX {
            Some(n as u32)
        } else {
            None
        },
        Some(_) => None,
    }
}

/// An optional token count member: absent or null is `None`.
pub open spec fn read_opt_count(j: Option<Json>) -> Option<Option<u32>> {
    match j {
        None => Some(None),
        Some(Json::Null) => Some(None),
        Some(Json::Int(n)) => if 0 <= n <= u32::MAX {
            Some(Some(n as u32))
        } else {
            None
        },
        Some(_) => None,
    }
}

/// A choice: its message's role (required), content and reasoning (optional).
pub open spec fn read_choice(c: Json) -> Option<(Seq<char>, Option<Seq<char>>, Option<Seq<char>>)> {
    match c.get("message"@) {
        Some(m) => match (m.get_str("role"@), read_opt_text(m.get("content"@)), read_opt_text(m.get("reasoning_content"@))) {
            (Some(role), Some(content), Some(reasoning)) => if m is Object {
                Some((role, content, reasoning))
            } else {
                None
            },
            _ => None,
        },
        None => None,
    }
}

/// The usage member: absent or null is `None`; an object gives the prompt and
/// completion counts (zero when absent) and the cached count.
pub open spec fn read_usage(u: Option<Json>) -> Option<Option<(u32, u32, Option<u32>)>> {
    match u {
        None => Some(None),
        Some(Json::Null) => Some(None),
        Some(Json::Object(_)) => {
            let v = u.unwrap();
            match (read_count(v.get("prompt_tokens"@)), read_count(v.get("completion_tokens"@)), read_opt_count(v.get("cached_tokens"@))) {
                (Some(p), Some(o), Some(c)) => Some(Some((p, o, c))),
                _ => None,
            }
        },
        Some(_) => None,
    }
}

/// The choices member: absent is none; otherwise an array.
pub open spec fn read_choices(j: Option<Json>) -> Option<Seq<Json>> {
    match j {
        None => Some(Seq::empty()),
        Some(Json::Array(cs)) => Some(cs),
        Some(_) => None,
    }
}

/// What a completion response body says: its first choice (if any) and its usage,
/// or why it does not read. The body must be an object with a string `id`; every
/// choice must read, though only the first is used.
pub open spec fn read_completion_spec(body: Json) -> Result<
    (Option<(Seq<char>, Option<Seq<char>>, Option<Seq<char>>)>, Option<(u32, u32, Option<u32>)>),
    Seq<char>,
> {
    if body.get_str("id"@) is None {
        Err("missing or invalid field `id`"@)
    } else {
        match read_choices(body.get("choices"@)) {
            None => Err("invalid type for field `choices`"@),
            Some(cs) => if exists|i: int| 0 <= i < cs.len() && (#[trigger] read_choice(cs[i])) is None {
                Err("invalid choice in `choices`"@)
            } else {
                match read_usage(body.get("usage"@)) {
                    None => Err("invalid field `usage`"@),
                    Some(u) => Ok((if cs.len() > 0 { read_choice(cs[0]) } else { None }, u)),
                }
            },
        }
    }
}

fn opt_text_of(j: Option<&JsonValue>) -> (r: Result<Option<String>, ()>)
    ensures
        match read_opt_text(match j {
            Some(v) => Some(v@),
            None => None,
        }) {
            None => r is Err,
            Some(None) => r == Ok::<Option<String>, ()>(None),
            Some(Some(t)) => r matches Ok(Some(x)) && x@ == t,
        },
{
    match j {
        None => Ok(None),
        Some(JsonValue::Null) => Ok(None),
        Some(JsonValue::Str(t)) => Ok(Some(t.clone())),
        Some(_) => Err(()),
    }
}

fn count_of(j: Option<&JsonValue>, absent_is_zero: bool) -> (r: Result<Option<u32>, ()>)
    ensures
        absent_is_zero ==> match read_count(match j {
            Some(v) => Some(v@),
            None => None,
        }) {
            None => r is Err,
            Some(n) => r == Ok::<Option<u32>, ()>(Some(n)),
        },
        !absent_is_zero ==> match read_opt_count(match j {
            Some(v) => Some(v@),
            None => None,
        }) {
            None => r is Err,
            Some(n) => r == Ok::<Option<u32>, ()>(n),
        },
{
    match j {
        None => if absent_is_zero {
            Ok(Some(0))
        } else {
            Ok(None)
        },
        Some(JsonValue::Null) => if absent_is_zero {
            Err(())
        } else {
            Ok(None)
        },
        Some(JsonValue::Int(n)) => if 0 <= *n && *n <= 4294967295i64 {
            Ok(Some(*n as u32))
        } else {
            Err(())
        },
        Some(_) => Err(()),
    }
}

fn choice_of(c: &JsonValue) -> (r: Option<ChatChoice>)
    ensures
        match read_choice(c@) {
            None => r is None,
            Some((role, content, reasoning)) => r matches Some(ch) && ch.role@ == role
                && opt_view(ch.content) == content && opt_view(ch.reasoning_content) == reasoning,
        },
{
    let m = match c.get("message") {
        Some(m) => m,
        None => {
            return None;
        },
    };
    if !m.is_object() {
        return None;
    }
    let role = match m.get_str("role") {
        Some(r) => r,
        None => {
            return None;
        },
    };
    let content = match opt_text_of(m.get("content")) {
        Ok(t) => t,
        Err(_) => {
            return None;
        },
    };
    let reasoning_content = match opt_text_of(m.get("reasoning_content")) {
        Ok(t) => t,
        Err(_) => {
            return None;
        },
    };
    Some(ChatChoice { role, content, reasoning_content })
}

/// Reads a completion response body into the outcome of the attempt: the first
/// choice and the usage, or a parse error saying what did not read.
pub fn completion_outcome(body: &JsonValue) -> (r: AttemptOutcome)
    ensures
        match read_completion_spec(body@) {
            Err(e) => r matches AttemptOutcome::ParseError(m) && m@ == e,
            Ok((choice, usage)) => r matches AttemptOutcome::Completed { choice: c, usage: u } && u == usage
                && match choice {
                    None => c is None,
                    Some((role, content, reasoning)) => c matches Some(ch) && ch.role@ == role
                        && opt_view(ch.content) == content && opt_view(ch.reasoning_content) == reasoning,
                },
        },
{
    if body.get_str("id").is_none() {
        return AttemptOutcome::ParseError(string_from("missing or invalid field `id`"));
    }
    let empty: Vec<JsonValue> = Vec::new();
    let choices: &Vec<JsonValue> = match body.get("choices") {
        None => &empty,
        Some(JsonValue::Array(cs)) => cs,
        Some(_) => {
            return AttemptOutcome::ParseError(string_from("invalid type for field `choices`"));
        },
    };
    let ghost cs = values_view(choices@);
    proof {
        match body@.get("choices"@) {
            Some(Json::Array(a)) => {
                assert(a =~= cs);
            },
            _ => {
                assert(cs =~= Seq::<Json>::empty());
            },
        }
    }
    assert(read_choices(body@.get("choices"@)) == Some(cs));
    let mut first: Option<ChatChoice> = None;
    let mut i: usize = 0;
    while i < choices.len()
        invariant
            i <= choices@.len(),
            cs == values_view(choices@),
            body@.get_str("id"@) is Some,
            read_choices(body@.get("choices"@)) == Some(cs),
            forall|k: int| 0 <= k < i ==> (#[trigger] read_choice(cs[k])) is Some,
            i == 0 ==> first is None,
            i > 0 ==> match read_choice(cs[0]) {
                Some((role, content, reasoning)) => first matches Some(ch) && ch.role@ == role
                    && opt_view(ch.content) == content && opt_view(ch.reasoning_content) == reasoning,
                None => false,
            },
        decreases choices.len() - i,
    {
        match choice_of(&choices[i]) {
            Some(ch) => {
                assert(read_choice(cs[i as int]) is Some);
                if i == 0 {
                    first = Some(ch);
                }
            },
            None => {
                assert(0 <= i < cs.len() && read_choice(cs[i as int]) is None);
                return AttemptOutcome::ParseError(string_from("invalid choice in `choices`"));
            },
        }
        i = i + 1;
    }
    let usage = match body.get("usage") {
        None => None,
        Some(JsonValue::Null) => None,
        Some(u) => {
            if !u.is_object() {
                return AttemptOutcome::ParseError(string_from("invalid field `usage`"));
            }
            let p = match count_of(u.get("prompt_tokens"), true) {
                Ok(Some(n)) => n,
                _ => {
                    return AttemptOutcome::ParseError(string_from("invalid field `usage`"));
                },
            };
            let o = match count_of(u.get("completion_tokens"), true) {
                Ok(Some(n)) => n,
                _ => {
                    return AttemptOutcome::ParseError(string_from("invalid field `usage`"));
                },
            };
            let c = match count_of(u.get("cached_tokens"), false) {
                Ok(n) => n,
                Err(_) => {
                    return AttemptOutcome::ParseError(string_from("invalid field `usage`"));
                },
            };
            Some((p, o, c))
        },
    };
    AttemptOutcome::Completed { choice: first, usage }
}

/// `2^n` grows with `n`.
pub proof fn lemma_pow2_mono(a: nat, b: nat)
    requires
        a <= b,
    ensures
        pow2(a) <= pow2(b),
    decreases b,
{
    if a < b {
        lemma_pow2_mono(a, (b - 1) as nat);
    }
}

} // verus!
