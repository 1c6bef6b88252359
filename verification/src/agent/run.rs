//! One run of an agent, as a machine: the caller performs what the machine asks
//! for, model calls and tool calls among it, and hands back what came of it.
use vstd::prelude::*;

use crate::agent::escalation::{EscalationView, ToolFailureLoopEscalation};
use crate::context::ActiveContextMessageView;
use crate::json::{Json, JsonView};
use crate::llm::types::{
    call_views, stream_item, AuthContext, FinishReason, MessageView, ProviderError,
    ProviderErrorView, RequestOptions, StreamEvent, StreamEventView, ToolCall, ToolCallDelta, ToolCallDeltaView,
    ToolCallView,
};
use crate::text::{opt_text, same_text};

verus! {

/// Who runs, on what task, and within which limits.
#[derive(Debug)]
pub struct AgentConfig {
    pub agent_id: String,
    pub session_id: String,
    pub task_id: String,
    pub task_content: String,
    pub model: String,
    pub auth_context: AuthContext,
    pub max_rounds: u32,
    pub round_timeout_ms: u64,
    pub heartbeat_interval_ms: u64,
    pub context_retain_last: usize,
    pub agent_name: String,
    pub request_options: RequestOptions,
}

impl Default for AgentConfig {
    fn default() -> (c: Self)
        ensures
            c.agent_id@ == Seq::<char>::empty(),
            c.session_id@ == Seq::<char>::empty(),
            c.task_id@ == Seq::<char>::empty(),
            c.task_content@ == Seq::<char>::empty(),
            c.agent_name@ == Seq::<char>::empty(),
            c.model@ == "mock/model"@,
            c.auth_context is NoAuth,
            c.max_rounds == 20,
            c.round_timeout_ms == 60_000,
            c.heartbeat_interval_ms == 5_000,
            c.context_retain_last == 20,
            c.request_options == (RequestOptions { max_retries_hint: None, timeout_ms_hint: None }),
    {
        AgentConfig {
            agent_id: String::new(),
            session_id: String::new(),
            task_id: String::new(),
            task_content: String::new(),
            model: "mock/model".to_owned(),
            auth_context: AuthContext::NoAuth,
            max_rounds: 20,
            round_timeout_ms: 60_000,
            heartbeat_interval_ms: 5_000,
            context_retain_last: 20,
            agent_name: String::new(),
            request_options: RequestOptions { max_retries_hint: None, timeout_ms_hint: None },
        }
    }
}

/// Instructions for a running agent.
#[derive(Debug, Clone, Copy, PartialEq, Eq)]
pub enum AgentCommand {
    Cancel,
    Interrupt,
}

/// A message of the conversation as it is kept between runs.
#[derive(Debug, Clone, PartialEq, Eq)]
pub struct AgentContextMessage {
    pub role: String,
    pub content: String,
    pub tool_call_id: Option<String>,
}

impl View for AgentContextMessage {
    type V = ActiveContextMessageView;

    open spec fn view(&self) -> ActiveContextMessageView {
        ActiveContextMessageView {
            role: self.role@,
            content: self.content@,
            tool_call_id: opt_text(self.tool_call_id),
        }
    }
}

pub open spec fn stored_views(s: Seq<AgentContextMessage>) -> Seq<ActiveContextMessageView> {
    Seq::new(s.len(), |i: int| s[i]@)
}

/// What came of a tool call.
#[derive(Debug)]
pub struct ToolResult {
    pub success: bool,
    pub output: Json,
    pub error: Option<String>,
}

pub struct ToolResultView {
    pub success: bool,
    pub output: JsonView,
    pub error: Option<Seq<char>>,
}

impl View for ToolResult {
    type V = ToolResultView;

    open spec fn view(&self) -> ToolResultView {
        ToolResultView {
            success: self.success,
            output: self.output@,
            error: opt_text(self.error),
        }
    }
}

/// Keeps the conversations of agents between runs.
pub trait AgentContextStore {
    fn load_messages(&self, session_id: &str, agent_id: &str) -> Vec<AgentContextMessage>;

    fn append_message(
        &self,
        session_id: &str,
        agent_id: &str,
        agent_name: &str,
        message: &AgentContextMessage,
    );

    fn save_active_projection(
        &self,
        session_id: &str,
        agent_id: &str,
        original_message_count: usize,
        active_message_count: usize,
    );
}

/// Performs tool calls.
pub trait AgentToolExecutor {
    fn execute_tool(&self, session_id: &str, agent_id: &str, tool_call: &ToolCall) -> ToolResult;
}

/// What a run reports.
#[derive(Debug)]
pub enum AgentEvent {
    Started { agent_id: String },
    ToolCallInitiated { agent_id: String, tool_call: ToolCall },
    ToolCallCompleted { agent_id: String, tool_call_id: String, result: Json },
    LlmRoundCompleted { agent_id: String, assistant_message: String },
    ToolFailureLoopEscalated { agent_id: String, escalation: ToolFailureLoopEscalation },
    Completed { agent_id: String, result: Json },
    Crashed { agent_id: String, error: String },
    Heartbeat { agent_id: String, at_ms: u64 },
}

pub enum AgentEventView {
    Started { agent_id: Seq<char> },
    ToolCallInitiated { agent_id: Seq<char>, tool_call: ToolCallView },
    ToolCallCompleted { agent_id: Seq<char>, tool_call_id: Seq<char>, result: JsonView },
    LlmRoundCompleted { agent_id: Seq<char>, assistant_message: Seq<char> },
    ToolFailureLoopEscalated { agent_id: Seq<char>, escalation: EscalationView },
    Completed { agent_id: Seq<char>, result: JsonView },
    Crashed { agent_id: Seq<char>, error: Seq<char> },
    Heartbeat { agent_id: Seq<char>, at_ms: u64 },
}

impl View for AgentEvent {
    type V = AgentEventView;

    open spec fn view(&self) -> AgentEventView {
        match self {
            AgentEvent::Started { agent_id } => AgentEventView::Started { agent_id: agent_id@ },
            AgentEvent::ToolCallInitiated { agent_id, tool_call } =>
                AgentEventView::ToolCallInitiated {
                    agent_id: agent_id@,
                    tool_call: tool_call@,
                },
            AgentEvent::ToolCallCompleted { agent_id, tool_call_id, result } =>
                AgentEventView::ToolCallCompleted {
                    agent_id: agent_id@,
                    tool_call_id: tool_call_id@,
                    result: result@,
                },
            AgentEvent::LlmRoundCompleted { agent_id, assistant_message } =>
                AgentEventView::LlmRoundCompleted {
                    agent_id: agent_id@,
                    assistant_message: assistant_message@,
                },
            AgentEvent::ToolFailureLoopEscalated { agent_id, escalation } =>
                AgentEventView::ToolFailureLoopEscalated {
                    agent_id: agent_id@,
                    escalation: escalation@,
                },
            AgentEvent::Completed { agent_id, result } => AgentEventView::Completed {
                agent_id: agent_id@,
                result: result@,
            },
            AgentEvent::Crashed { agent_id, error } => AgentEventView::Crashed {
                agent_id: agent_id@,
                error: error@,
            },
            AgentEvent::Heartbeat { agent_id, at_ms } => AgentEventView::Heartbeat {
                agent_id: agent_id@,
                at_ms: *at_ms,
            },
        }
    }
}

/// The event ends the run.
pub open spec fn ends_run(e: AgentEventView) -> bool {
    e is Completed || e is Crashed
}

impl AgentEvent {
    /// Whether the event ends the run.
    pub fn is_terminal(&self) -> (b: bool)
        ensures
            b == ends_run(self@),
    {
        match self {
            AgentEvent::Completed { .. } | AgentEvent::Crashed { .. } => true,
            _ => false,
        }
    }
}

/// What the caller has to do, in the order given: report an event, or keep a
/// message where the conversation is kept.
#[derive(Debug)]
pub enum AgentEffect {
    Emit(AgentEvent),
    Remember(AgentContextMessage),
}

pub enum AgentEffectView {
    Emit(AgentEventView),
    Remember(ActiveContextMessageView),
}

impl View for AgentEffect {
    type V = AgentEffectView;

    open spec fn view(&self) -> AgentEffectView {
        match self {
            AgentEffect::Emit(e) => AgentEffectView::Emit(e@),
            AgentEffect::Remember(m) => AgentEffectView::Remember(m@),
        }
    }
}

pub open spec fn effect_views(s: Seq<AgentEffect>) -> Seq<AgentEffectView> {
    Seq::new(s.len(), |i: int| s[i]@)
}

/// A piece of what a model streams back: text, a tool call, or the tool calls that
/// were put together from fragments.
#[derive(Debug)]
pub enum StreamPiece {
    Text(String),
    Call(ToolCall),
    Assembled(Vec<ToolCall>),
}

pub enum StreamPieceView {
    Text(Seq<char>),
    Call(ToolCallView),
    Assembled(Seq<ToolCallView>),
}

impl View for StreamPiece {
    type V = StreamPieceView;

    open spec fn view(&self) -> StreamPieceView {
        match self {
            StreamPiece::Text(s) => StreamPieceView::Text(s@),
            StreamPiece::Call(c) => StreamPieceView::Call(c@),
            StreamPiece::Assembled(cs) => StreamPieceView::Assembled(call_views(cs@)),
        }
    }
}

pub open spec fn piece_views(s: Seq<StreamPiece>) -> Seq<StreamPieceView> {
    Seq::new(s.len(), |i: int| s[i]@)
}

/// The text of a round: all pieces of text, one behind the other.
pub open spec fn streamed_text(pieces: Seq<StreamPieceView>) -> Seq<char>
    decreases pieces.len(),
{
    if pieces.len() == 0 {
        Seq::empty()
    } else {
        let before = streamed_text(pieces.drop_last());
        match pieces.last() {
            StreamPieceView::Text(s) => before + s,
            _ => before,
        }
    }
}

/// The tool calls of a round, in the order in which they came.
pub open spec fn streamed_calls(pieces: Seq<StreamPieceView>) -> Seq<ToolCallView>
    decreases pieces.len(),
{
    if pieces.len() == 0 {
        Seq::empty()
    } else {
        let before = streamed_calls(pieces.drop_last());
        match pieces.last() {
            StreamPieceView::Text(_) => before,
            StreamPieceView::Call(c) => before.push(c),
            StreamPieceView::Assembled(cs) => before + cs,
        }
    }
}

/// One of the calls has this id.
pub open spec fn has_call(calls: Seq<ToolCallView>, id: Seq<char>) -> bool {
    exists|i: int| 0 <= i < calls.len() && (#[trigger] calls[i]).id == id
}

/// The calls without those whose id came before.
pub open spec fn first_of_each(calls: Seq<ToolCallView>) -> Seq<ToolCallView>
    decreases calls.len(),
{
    if calls.len() == 0 {
        Seq::empty()
    } else {
        let before = first_of_each(calls.drop_last());
        if has_call(before, calls.last().id) {
            before
        } else {
            before.push(calls.last())
        }
    }
}

/// What an event of a model's stream adds to the answer of a round.
#[derive(Debug)]
pub enum RoundInput {
    /// A piece of the answer.
    Piece(StreamPiece),
    /// A fragment of a tool call, to be put together with others.
    Fragment(ToolCallDelta),
    /// The fragments that came by now make up tool calls.
    Assemble,
    /// Nothing.
    Nothing,
    /// The answer has failed.
    Failed(ProviderError),
}

pub enum RoundInputView {
    Piece(StreamPieceView),
    Fragment(ToolCallDeltaView),
    Assemble,
    Nothing,
    Failed(ProviderErrorView),
}

impl View for RoundInput {
    type V = RoundInputView;

    open spec fn view(&self) -> RoundInputView {
        match self {
            RoundInput::Piece(p) => RoundInputView::Piece(p@),
            RoundInput::Fragment(d) => RoundInputView::Fragment(d@),
            RoundInput::Assemble => RoundInputView::Assemble,
            RoundInput::Nothing => RoundInputView::Nothing,
            RoundInput::Failed(e) => RoundInputView::Failed(e@),
        }
    }
}

/// What an event adds: text and whole tool calls are pieces, fragments are kept until
/// the stream has come to its tool calls, thoughts and usage add nothing.
pub open spec fn round_input(event: Result<StreamEventView, ProviderErrorView>) -> RoundInputView {
    match event {
        Ok(StreamEventView::TextDelta(s)) => RoundInputView::Piece(StreamPieceView::Text(s)),
        Ok(StreamEventView::ToolCall(c)) => RoundInputView::Piece(StreamPieceView::Call(c)),
        Ok(StreamEventView::ToolCallDelta(d)) => RoundInputView::Fragment(d),
        Ok(StreamEventView::Finished(reason)) => if reason == FinishReason::ToolCalls {
            RoundInputView::Assemble
        } else {
            RoundInputView::Nothing
        },
        Ok(StreamEventView::ThinkingDelta(_)) => RoundInputView::Nothing,
        Ok(StreamEventView::Usage(_)) => RoundInputView::Nothing,
        Ok(StreamEventView::Error(e)) => RoundInputView::Failed(e),
        Err(e) => RoundInputView::Failed(e),
    }
}

pub fn take_event(event: Result<StreamEvent, ProviderError>) -> (r: RoundInput)
    ensures
        r@ == round_input(stream_item(event)),
{
    match event {
        Ok(StreamEvent::TextDelta(s)) => RoundInput::Piece(StreamPiece::Text(s)),
        Ok(StreamEvent::ToolCall(c)) => RoundInput::Piece(StreamPiece::Call(c)),
        Ok(StreamEvent::ToolCallDelta(d)) => RoundInput::Fragment(d),
        Ok(StreamEvent::Finished(reason)) => match reason {
            FinishReason::ToolCalls => RoundInput::Assemble,
            _ => RoundInput::Nothing,
        },
        Ok(StreamEvent::ThinkingDelta(_)) => RoundInput::Nothing,
        Ok(StreamEvent::Usage(_)) => RoundInput::Nothing,
        Ok(StreamEvent::Error(e)) => RoundInput::Failed(e),
        Err(e) => RoundInput::Failed(e),
    }
}

/// It is time for a sign of life so long after the last one.
pub open spec fn sign_is_due(elapsed_ns: nat, interval_ms: nat) -> bool {
    elapsed_ns >= interval_ms * 1_000_000
}

/// Whether it is time for a sign of life.
pub fn heartbeat_due(elapsed_ns: u128, interval_ms: u64) -> (b: bool)
    ensures
        b == sign_is_due(elapsed_ns as nat, interval_ms as nat),
        b == (elapsed_ns >= interval_ms * 1_000_000),
{
    elapsed_ns >= interval_ms as u128 * 1_000_000
}

/// What a model answered in one round.
#[derive(Debug)]
pub struct RoundOutput {
    pub text: String,
    pub tool_calls: Vec<ToolCall>,
}

/// Puts a streamed answer together.
pub fn collect_round(pieces: Vec<StreamPiece>) -> (r: RoundOutput)
    ensures
        r.text@ == streamed_text(piece_views(pieces@)),
        call_views(r.tool_calls@) == streamed_calls(piece_views(pieces@)),
{
    let ghost views = piece_views(pieces@);
    let mut text = String::new();
    let mut calls: Vec<ToolCall> = Vec::new();
    let mut i: usize = 0;
    assert(views.take(0) =~= Seq::<StreamPieceView>::empty());
    assert(call_views(calls@) =~= Seq::<ToolCallView>::empty());
    while i < pieces.len()
        invariant
            i <= pieces@.len(),
            views == piece_views(pieces@),
            text@ == streamed_text(views.take(i as int)),
            call_views(calls@) == streamed_calls(views.take(i as int)),
        decreases pieces@.len() - i,
    {
        let ghost before = call_views(calls@);
        assert(views.take(i + 1).drop_last() =~= views.take(i as int));
        match &pieces[i] {
            StreamPiece::Text(s) => {
                text.append(s.as_str());
            },
            StreamPiece::Call(c) => {
                calls.push(c.clone());
                assert(call_views(calls@) =~= before.push(c@));
            },
            StreamPiece::Assembled(cs) => {
                append_calls(&mut calls, cs);
            },
        }
        i += 1;
    }
    assert(views.take(i as int) =~= views);
    RoundOutput { text, tool_calls: calls }
}

fn append_calls(calls: &mut Vec<ToolCall>, more: &Vec<ToolCall>)
    ensures
        call_views(final(calls)@) == call_views(old(calls)@) + call_views(more@),
{
    let ghost before = call_views(calls@);
    let ghost added = call_views(more@);
    let mut i: usize = 0;
    assert(call_views(calls@) =~= before + added.take(0));
    while i < more.len()
        invariant
            i <= more@.len(),
            added == call_views(more@),
            call_views(calls@) == before + added.take(i as int),
        decreases more@.len() - i,
    {
        let c = more[i].clone();
        let ghost here = call_views(calls@);
        let ghost view = c@;
        calls.push(c);
        assert(call_views(calls@) =~= here.push(view));
        i += 1;
        assert(call_views(calls@) =~= before + added.take(i as int));
    }
    assert(added.take(i as int) =~= added);
}

/// Keeps the first call of each id.
pub fn dedupe_tool_calls(tool_calls: &mut Vec<ToolCall>)
    ensures
        call_views(final(tool_calls)@) == first_of_each(call_views(old(tool_calls)@)),
{
    let ghost all = call_views(tool_calls@);
    let mut kept: Vec<ToolCall> = Vec::new();
    let mut i: usize = 0;
    assert(all.take(0) =~= Seq::<ToolCallView>::empty());
    assert(call_views(kept@) =~= Seq::<ToolCallView>::empty());
    while i < tool_calls.len()
        invariant
            i <= tool_calls@.len(),
            all == call_views(tool_calls@),
            call_views(kept@) == first_of_each(all.take(i as int)),
        decreases tool_calls@.len() - i,
    {
        let ghost before = call_views(kept@);
        assert(all.take(i + 1).drop_last() =~= all.take(i as int));
        match find_call(&kept, tool_calls[i].id.as_str()) {
            Some(k) => {
                assert(before[k as int].id == all[i as int].id);
            },
            None => {
                kept.push(tool_calls[i].clone());
                assert(call_views(kept@) =~= before.push(all[i as int]));
            },
        }
        i += 1;
    }
    assert(all.take(i as int) =~= all);
    *tool_calls = kept;
}

/// The place of the first call with this id.
pub open spec fn call_index(calls: Seq<ToolCallView>, id: Seq<char>, from: int) -> Option<int>
    decreases calls.len() - from,
{
    if from >= calls.len() {
        None
    } else if calls[from].id == id {
        Some(from)
    } else {
        call_index(calls, id, from + 1)
    }
}

pub(crate) fn find_call(calls: &Vec<ToolCall>, id: &str) -> (r: Option<usize>)
    ensures
        match r {
            Some(i) => i < calls@.len() && calls@[i as int].id@ == id@ && call_index(
                call_views(calls@),
                id@,
                0,
            ) == Some(i as int),
            None => !has_call(call_views(calls@), id@) && call_index(
                call_views(calls@),
                id@,
                0,
            ) is None,
        },
{
    let ghost views = call_views(calls@);
    let mut i: usize = 0;
    while i < calls.len()
        invariant
            i <= calls@.len(),
            views == call_views(calls@),
            call_index(views, id@, 0) == call_index(views, id@, i as int),
            forall|j: int| 0 <= j < i ==> (#[trigger] views[j]).id != id@,
        decreases calls@.len() - i,
    {
        if same_text(calls[i].id.as_str(), id) {
            return Some(i);
        }
        i += 1;
    }
    None
}

/// The call that a message answers, where it is known.
pub open spec fn answered_call(
    m: ActiveContextMessageView,
    history: Seq<ToolCallView>,
) -> Option<ToolCallView> {
    match m.tool_call_id {
        Some(id) => match call_index(history, id, 0) {
            Some(i) => Some(history[i]),
            None => None,
        },
        None => None,
    }
}

/// One message of the conversation in a request: the answer of a tool follows the
/// call it answers.
pub open spec fn request_part(
    m: ActiveContextMessageView,
    history: Seq<ToolCallView>,
) -> Seq<MessageView> {
    let call = answered_call(m, history);
    let message = MessageView {
        role: m.role,
        content: m.content,
        tool_calls: Seq::empty(),
        tool_call_id: m.tool_call_id,
        name: match call {
            Some(c) => Some(c.name),
            None => None,
        },
    };
    if m.role == "tool"@ && call is Some {
        seq![
            MessageView {
                role: "assistant"@,
                content: Seq::empty(),
                tool_calls: seq![call->0],
                tool_call_id: None,
                name: None,
            },
            message,
        ]
    } else {
        seq![message]
    }
}

/// The messages of a request.
pub open spec fn request_messages(
    conversation: Seq<ActiveContextMessageView>,
    history: Seq<ToolCallView>,
) -> Seq<MessageView>
    decreases conversation.len(),
{
    if conversation.len() == 0 {
        Seq::empty()
    } else {
        request_messages(conversation.drop_last(), history) + request_part(
            conversation.last(),
            history,
        )
    }
}

/// What the events of a stream add to the answer: texts and whole calls are pieces of it as
/// they are, fragments are kept to be put together when the calls are complete, an error is
/// the end of it, and anything else adds nothing.
pub proof fn law_what_the_events_of_a_stream_add(
    text: Seq<char>,
    call: ToolCallView,
    delta: ToolCallDeltaView,
    reason: FinishReason,
    e: ProviderErrorView,
)
    ensures
        round_input(Ok(StreamEventView::TextDelta(text))) == RoundInputView::Piece(
            StreamPieceView::Text(text),
        ),
        round_input(Ok(StreamEventView::ToolCall(call))) == RoundInputView::Piece(
            StreamPieceView::Call(call),
        ),
        round_input(Ok(StreamEventView::ToolCallDelta(delta))) == RoundInputView::Fragment(delta),
        round_input(Ok(StreamEventView::Finished(reason))) is Assemble <==> reason
            == FinishReason::ToolCalls,
        round_input(Ok(StreamEventView::Finished(reason))) is Nothing <==> reason
            != FinishReason::ToolCalls,
        round_input(Ok(StreamEventView::ThinkingDelta(text))) is Nothing,
        round_input(Ok(StreamEventView::Error(e))) == RoundInputView::Failed(e),
        round_input(Err(e)) == RoundInputView::Failed(e),
{
}

/// A run ends by being completed or by crashing, and by nothing else.
pub proof fn law_which_events_end_a_run(e: AgentEventView)
    ensures
        match e {
            AgentEventView::Completed { .. } => ends_run(e),
            AgentEventView::Crashed { .. } => ends_run(e),
            _ => !ends_run(e),
        },
{
}

/// A sign of life is due as soon as the interval has passed, and stays due.
pub proof fn law_when_a_sign_of_life_is_due(elapsed_ns: nat, later_ns: nat, interval_ms: nat)
    ensures
        sign_is_due(interval_ms * 1_000_000, interval_ms),
        elapsed_ns + 1 == interval_ms * 1_000_000 ==> !sign_is_due(elapsed_ns, interval_ms),
        sign_is_due(elapsed_ns, interval_ms) && elapsed_ns <= later_ns ==> sign_is_due(
            later_ns,
            interval_ms,
        ),
{
}

} // verus!
