//! The values that go to and come from a provider.
use vstd::prelude::*;

use crate::json::{Json, JsonView};
use crate::text::{clone_opt, opt_text};

verus! {

/// A call of a tool that a model asks for.
#[derive(Debug, PartialEq)]
pub struct ToolCall {
    pub id: String,
    pub name: String,
    pub arguments: Json,
}

pub struct ToolCallView {
    pub id: Seq<char>,
    pub name: Seq<char>,
    pub arguments: JsonView,
}

impl View for ToolCall {
    type V = ToolCallView;

    open spec fn view(&self) -> ToolCallView {
        ToolCallView { id: self.id@, name: self.name@, arguments: self.arguments@ }
    }
}

pub open spec fn call_views(s: Seq<ToolCall>) -> Seq<ToolCallView> {
    Seq::new(s.len(), |i: int| s[i]@)
}

impl Clone for ToolCall {
    fn clone(&self) -> (r: Self)
        ensures
            r@ == self@,
    {
        ToolCall {
            id: self.id.clone(),
            name: self.name.clone(),
            arguments: self.arguments.clone(),
        }
    }
}

/// One message of a request.
#[derive(Debug, PartialEq)]
pub struct Message {
    pub role: String,
    pub content: String,
    pub tool_calls: Vec<ToolCall>,
    pub tool_call_id: Option<String>,
    pub name: Option<String>,
}

pub struct MessageView {
    pub role: Seq<char>,
    pub content: Seq<char>,
    pub tool_calls: Seq<ToolCallView>,
    pub tool_call_id: Option<Seq<char>>,
    pub name: Option<Seq<char>>,
}

impl View for Message {
    type V = MessageView;

    open spec fn view(&self) -> MessageView {
        MessageView {
            role: self.role@,
            content: self.content@,
            tool_calls: call_views(self.tool_calls@),
            tool_call_id: opt_text(self.tool_call_id),
            name: opt_text(self.name),
        }
    }
}

pub open spec fn message_views(s: Seq<Message>) -> Seq<MessageView> {
    Seq::new(s.len(), |i: int| s[i]@)
}

fn clone_calls(calls: &Vec<ToolCall>) -> (r: Vec<ToolCall>)
    ensures
        call_views(r@) == call_views(calls@),
{
    let mut r: Vec<ToolCall> = Vec::new();
    let mut i: usize = 0;
    while i < calls.len()
        invariant
            i <= calls@.len(),
            r@.len() == i,
            forall|j: int| 0 <= j < i ==> #[trigger] r@[j]@ == calls@[j]@,
        decreases calls@.len() - i,
    {
        r.push(calls[i].clone());
        i += 1;
    }
    assert(call_views(r@) =~= call_views(calls@));
    r
}

impl Clone for Message {
    fn clone(&self) -> (r: Self)
        ensures
            r@ == self@,
    {
        Message {
            role: self.role.clone(),
            content: self.content.clone(),
            tool_calls: clone_calls(&self.tool_calls),
            tool_call_id: clone_opt(&self.tool_call_id),
            name: clone_opt(&self.name),
        }
    }
}

/// Where the right to call a provider comes from.
#[derive(Debug, PartialEq)]
pub enum AuthContext {
    NoAuth,
    ApiKey { provider: String, key: String },
    BearerToken { token: String },
    AwsSignature {
        access_key_id: String,
        secret_access_key: String,
        session_token: Option<String>,
    },
    AzureToken { api_key: String },
}

pub enum AuthView {
    NoAuth,
    ApiKey { provider: Seq<char>, key: Seq<char> },
    BearerToken { token: Seq<char> },
    AwsSignature {
        access_key_id: Seq<char>,
        secret_access_key: Seq<char>,
        session_token: Option<Seq<char>>,
    },
    AzureToken { api_key: Seq<char> },
}

impl View for AuthContext {
    type V = AuthView;

    open spec fn view(&self) -> AuthView {
        match self {
            AuthContext::NoAuth => AuthView::NoAuth,
            AuthContext::ApiKey { provider, key } => AuthView::ApiKey {
                provider: provider@,
                key: key@,
            },
            AuthContext::BearerToken { token } => AuthView::BearerToken { token: token@ },
            AuthContext::AwsSignature { access_key_id, secret_access_key, session_token } => {
                AuthView::AwsSignature {
                    access_key_id: access_key_id@,
                    secret_access_key: secret_access_key@,
                    session_token: opt_text(*session_token),
                }
            },
            AuthContext::AzureToken { api_key } => AuthView::AzureToken { api_key: api_key@ },
        }
    }
}

impl Clone for AuthContext {
    fn clone(&self) -> (r: Self)
        ensures
            r@ == self@,
    {
        match self {
            AuthContext::NoAuth => AuthContext::NoAuth,
            AuthContext::ApiKey { provider, key } => AuthContext::ApiKey {
                provider: provider.clone(),
                key: key.clone(),
            },
            AuthContext::BearerToken { token } => AuthContext::BearerToken {
                token: token.clone(),
            },
            AuthContext::AwsSignature { access_key_id, secret_access_key, session_token } => {
                AuthContext::AwsSignature {
                    access_key_id: access_key_id.clone(),
                    secret_access_key: secret_access_key.clone(),
                    session_token: clone_opt(session_token),
                }
            },
            AuthContext::AzureToken { api_key } => AuthContext::AzureToken {
                api_key: api_key.clone(),
            },
        }
    }
}

/// A tool that a model may ask for.
#[derive(Debug, PartialEq)]
pub struct ToolDefinition {
    pub name: String,
    pub description: String,
    pub input_schema: Json,
}

pub struct ToolDefinitionView {
    pub name: Seq<char>,
    pub description: Seq<char>,
    pub input_schema: JsonView,
}

impl View for ToolDefinition {
    type V = ToolDefinitionView;

    open spec fn view(&self) -> ToolDefinitionView {
        ToolDefinitionView {
            name: self.name@,
            description: self.description@,
            input_schema: self.input_schema@,
        }
    }
}

impl Clone for ToolDefinition {
    fn clone(&self) -> (r: Self)
        ensures
            r@ == self@,
    {
        ToolDefinition {
            name: self.name.clone(),
            description: self.description.clone(),
            input_schema: self.input_schema.clone(),
        }
    }
}

pub open spec fn tool_views(s: Seq<ToolDefinition>) -> Seq<ToolDefinitionView> {
    Seq::new(s.len(), |i: int| s[i]@)
}

pub(crate) fn clone_tools(tools: &Vec<ToolDefinition>) -> (r: Vec<ToolDefinition>)
    ensures
        tool_views(r@) == tool_views(tools@),
{
    let mut r: Vec<ToolDefinition> = Vec::new();
    let mut i: usize = 0;
    while i < tools.len()
        invariant
            i <= tools@.len(),
            r@.len() == i,
            forall|j: int| 0 <= j < i ==> #[trigger] r@[j]@ == tools@[j]@,
        decreases tools@.len() - i,
    {
        r.push(tools[i].clone());
        i += 1;
    }
    assert(tool_views(r@) =~= tool_views(tools@));
    r
}

/// Hints that travel with each request to a model.
#[derive(Debug, Clone, Copy, PartialEq, Eq, Structural)]
pub struct RequestOptions {
    pub max_retries_hint: Option<u32>,
    pub timeout_ms_hint: Option<u64>,
}

/// What a model is asked, and with which credentials.
#[derive(Debug, PartialEq)]
pub struct GenerateRequest {
    pub model: String,
    pub messages: Vec<Message>,
    pub tools: Vec<ToolDefinition>,
    pub stream: bool,
    pub auth_context: AuthContext,
    pub options: RequestOptions,
}

pub struct GenerateRequestView {
    pub model: Seq<char>,
    pub messages: Seq<MessageView>,
    pub tools: Seq<ToolDefinitionView>,
    pub stream: bool,
    pub auth: AuthView,
    pub options: RequestOptions,
}

impl View for GenerateRequest {
    type V = GenerateRequestView;

    open spec fn view(&self) -> GenerateRequestView {
        GenerateRequestView {
            model: self.model@,
            messages: message_views(self.messages@),
            tools: tool_views(self.tools@),
            stream: self.stream,
            auth: self.auth_context@,
            options: self.options,
        }
    }
}

impl GenerateRequest {
    /// The request as another model is asked it.
    pub fn for_model(&self, model: &str) -> (r: Self)
        ensures
            r@ == (GenerateRequestView { model: model@, ..self@ }),
    {
        let mut messages: Vec<Message> = Vec::new();
        let mut i: usize = 0;
        while i < self.messages.len()
            invariant
                i <= self.messages@.len(),
                messages@.len() == i,
                forall|j: int| 0 <= j < i ==> #[trigger] messages@[j]@ == self.messages@[j]@,
            decreases self.messages@.len() - i,
        {
            messages.push(self.messages[i].clone());
            i += 1;
        }
        assert(message_views(messages@) =~= message_views(self.messages@));
        GenerateRequest {
            model: model.to_owned(),
            messages,
            tools: clone_tools(&self.tools),
            stream: self.stream,
            auth_context: self.auth_context.clone(),
            options: self.options,
        }
    }
}

impl Clone for GenerateRequest {
    fn clone(&self) -> (r: Self)
        ensures
            r@ == self@,
    {
        self.for_model(self.model.as_str())
    }
}

#[derive(Debug, Clone, Copy, PartialEq, Eq, Structural)]
pub enum ProviderErrorCode {
    Authentication,
    BadRequest,
    ContextOverflow,
    ContentFiltered,
    ServerError,
    Timeout,
    StreamInterrupted,
    UnsupportedModel,
    CircuitOpen,
}

/// Why a provider call failed, and whether it is worth another attempt.
#[derive(Debug, PartialEq, Eq)]
pub struct ProviderError {
    pub code: ProviderErrorCode,
    pub message: String,
    pub retryable: bool,
}

pub struct ProviderErrorView {
    pub code: ProviderErrorCode,
    pub message: Seq<char>,
    pub retryable: bool,
}

impl View for ProviderError {
    type V = ProviderErrorView;

    open spec fn view(&self) -> ProviderErrorView {
        ProviderErrorView {
            code: self.code,
            message: self.message@,
            retryable: self.retryable,
        }
    }
}

impl Clone for ProviderError {
    fn clone(&self) -> (r: Self)
        ensures
            r@ == self@,
    {
        ProviderError {
            code: self.code,
            message: self.message.clone(),
            retryable: self.retryable,
        }
    }
}

/// Errors that may pass by themselves, so that another attempt is worth it.
pub open spec fn passing_error(code: ProviderErrorCode) -> bool {
    match code {
        ProviderErrorCode::ServerError
        | ProviderErrorCode::Timeout
        | ProviderErrorCode::StreamInterrupted => true,
        _ => false,
    }
}

impl ProviderError {
    /// An error of this kind, worth another attempt if such errors may pass.
    pub fn new(code: ProviderErrorCode, message: &str) -> (e: Self)
        ensures
            e@ == (ProviderErrorView { code, message: message@, retryable: passing_error(code) }),
    {
        ProviderError {
            code,
            message: message.to_owned(),
            retryable: match code {
                ProviderErrorCode::ServerError
                | ProviderErrorCode::Timeout
                | ProviderErrorCode::StreamInterrupted => true,
                _ => false,
            },
        }
    }

    pub fn is_retryable(&self) -> (b: bool)
        ensures
            b == self@.retryable,
    {
        self.retryable
    }
}

/// A fragment of a tool call.
#[derive(Debug, Clone, PartialEq, Eq)]
pub struct ToolCallDelta {
    pub index: usize,
    pub id: Option<String>,
    pub name: Option<String>,
    pub partial_json: Option<String>,
}

#[derive(Debug, Clone, PartialEq, Eq)]
pub struct TokenUsage {
    pub prompt_tokens: u64,
    pub completion_tokens: u64,
    pub total_tokens: u64,
    pub cache_creation_input_tokens: Option<u64>,
    pub cache_read_input_tokens: Option<u64>,
    pub reasoning_tokens: Option<u64>,
}

#[derive(Debug, Clone, Copy, PartialEq, Eq, Structural)]
pub enum FinishReason {
    Stop,
    ToolCalls,
    Length,
    ContentFilter,
}

/// What a provider streams back.
#[derive(Debug, PartialEq)]
pub enum StreamEvent {
    TextDelta(String),
    ThinkingDelta(String),
    ToolCallDelta(ToolCallDelta),
    ToolCall(ToolCall),
    Usage(TokenUsage),
    Finished(FinishReason),
    Error(ProviderError),
}

/// The whole answer of a provider that does not stream.
#[derive(Debug, PartialEq)]
pub struct GenerateResponse {
    pub content: String,
    pub finish_reason: String,
    pub usage: TokenUsage,
}

pub struct ToolCallDeltaView {
    pub index: nat,
    pub id: Option<Seq<char>>,
    pub name: Option<Seq<char>>,
    pub partial_json: Option<Seq<char>>,
}

impl View for ToolCallDelta {
    type V = ToolCallDeltaView;

    open spec fn view(&self) -> ToolCallDeltaView {
        ToolCallDeltaView {
            index: self.index as nat,
            id: opt_text(self.id),
            name: opt_text(self.name),
            partial_json: opt_text(self.partial_json),
        }
    }
}

pub enum StreamEventView {
    TextDelta(Seq<char>),
    ThinkingDelta(Seq<char>),
    ToolCallDelta(ToolCallDeltaView),
    ToolCall(ToolCallView),
    Usage(TokenUsage),
    Finished(FinishReason),
    Error(ProviderErrorView),
}

impl View for StreamEvent {
    type V = StreamEventView;

    open spec fn view(&self) -> StreamEventView {
        match self {
            StreamEvent::TextDelta(s) => StreamEventView::TextDelta(s@),
            StreamEvent::ThinkingDelta(s) => StreamEventView::ThinkingDelta(s@),
            StreamEvent::ToolCallDelta(d) => StreamEventView::ToolCallDelta(d@),
            StreamEvent::ToolCall(c) => StreamEventView::ToolCall(c@),
            StreamEvent::Usage(u) => StreamEventView::Usage(*u),
            StreamEvent::Finished(r) => StreamEventView::Finished(*r),
            StreamEvent::Error(e) => StreamEventView::Error(e@),
        }
    }
}

pub open spec fn stream_item(r: Result<StreamEvent, ProviderError>) -> Result<
    StreamEventView,
    ProviderErrorView,
> {
    match r {
        Ok(e) => Ok(e@),
        Err(e) => Err(e@),
    }
}

pub open spec fn stream_views(s: Seq<Result<StreamEvent, ProviderError>>) -> Seq<
    Result<StreamEventView, ProviderErrorView>,
> {
    Seq::new(s.len(), |i: int| stream_item(s[i]))
}

impl Clone for StreamEvent {
    fn clone(&self) -> (r: Self)
        ensures
            r@ == self@,
    {
        match self {
            StreamEvent::TextDelta(s) => StreamEvent::TextDelta(s.clone()),
            StreamEvent::ThinkingDelta(s) => StreamEvent::ThinkingDelta(s.clone()),
            StreamEvent::ToolCallDelta(d) => StreamEvent::ToolCallDelta(
                ToolCallDelta {
                    index: d.index,
                    id: clone_opt(&d.id),
                    name: clone_opt(&d.name),
                    partial_json: clone_opt(&d.partial_json),
                },
            ),
            StreamEvent::ToolCall(c) => StreamEvent::ToolCall(c.clone()),
            StreamEvent::Usage(u) => StreamEvent::Usage(
                TokenUsage {
                    prompt_tokens: u.prompt_tokens,
                    completion_tokens: u.completion_tokens,
                    total_tokens: u.total_tokens,
                    cache_creation_input_tokens: u.cache_creation_input_tokens,
                    cache_read_input_tokens: u.cache_read_input_tokens,
                    reasoning_tokens: u.reasoning_tokens,
                },
            ),
            StreamEvent::Finished(r) => StreamEvent::Finished(*r),
            StreamEvent::Error(e) => StreamEvent::Error(e.clone()),
        }
    }
}

/// The error that a streamed event stands for, if it stands for one.
pub open spec fn event_error(e: Result<StreamEvent, ProviderError>) -> Option<ProviderErrorView> {
    match e {
        Ok(StreamEvent::Error(error)) => Some(error@),
        Err(error) => Some(error@),
        _ => None,
    }
}

/// The first error in a stream.
pub open spec fn first_error(
    events: Seq<Result<StreamEvent, ProviderError>>,
    from: int,
) -> Option<ProviderErrorView>
    decreases events.len() - from,
{
    if from >= events.len() {
        None
    } else if event_error(events[from]) is Some {
        event_error(events[from])
    } else {
        first_error(events, from + 1)
    }
}

/// A stream as it is, unless an error came in it: then that error.
pub fn normalize_stream(events: Vec<Result<StreamEvent, ProviderError>>) -> (r: Result<
    Vec<Result<StreamEvent, ProviderError>>,
    ProviderError,
>)
    ensures
        match r {
            Ok(same) => same@ == events@ && first_error(events@, 0) is None,
            Err(e) => first_error(events@, 0) == Some(e@),
        },
{
    let mut i: usize = 0;
    while i < events.len()
        invariant
            i <= events@.len(),
            first_error(events@, 0) == first_error(events@, i as int),
        decreases events@.len() - i,
    {
        match &events[i] {
            Ok(StreamEvent::Error(error)) => {
                return Err(error.clone());
            },
            Err(error) => {
                return Err(error.clone());
            },
            _ => {},
        }
        i += 1;
    }
    Ok(events)
}

} // verus!
