//! The loop of an agent: rounds of one model call and the tool calls that it asks
//! for, until there is an answer or the rounds are used up.
use vstd::prelude::*;

use crate::agent::escalation::{escalation_of, Caller, ToolFailureLoopEscalation};
use crate::agent::failure::{args_fingerprint, failure_args_fingerprint, failure_kind};
use crate::agent::failure_guard::{
    decision_on, failure_loop_error, format_tool_failure_loop_error, recorded, without_call,
    Failure, GuardView, ToolFailureLoopGuard, ToolFailureLoopGuardOptions,
};
use crate::agent::run::{
    dedupe_tool_calls, effect_views, ends_run, find_call, first_of_each, heartbeat_due,
    request_messages, request_part, stored_views, AgentConfig, AgentContextMessage, AgentEffect, AgentEffectView,
    AgentEvent, AgentEventView, RoundOutput, ToolResult, ToolResultView,
};
use crate::agent::tool_loop::{
    looping, observed, opt_str, truthy, DetectorView, ToolLoopDetector, ToolLoopDetectorOptions,
};
use crate::context::{
    active_views, projection_of, ActiveContextMessage, ActiveContextMessageView, ContextManager,
    ConversationMessageView,
};
use crate::json::{
    json_get, json_opt_text, json_to_string, json_written, Json, JsonNumber, JsonView,
};
use crate::llm::types::{
    call_views, clone_tools, message_views, tool_views, AuthView, GenerateRequest,
    GenerateRequestView, Message, MessageView, RequestOptions, ToolCall, ToolCallView,
    ToolDefinition, ToolDefinitionView,
};
use crate::text::{
    clone_opt, decimal, decimal_string, opt_text, part_before, same_text, text_before,
};

verus! {

/// Where a run stands.
#[derive(Debug, Clone, Copy, PartialEq, Eq, Structural)]
pub enum RunPhase {
    /// Not started.
    Ready,
    /// Between two rounds.
    Idle,
    /// A request is with the model.
    AwaitingModel,
    /// The tool calls of the round are being worked off.
    ExecutingTools,
    /// A tool call is being performed.
    AwaitingTool,
    /// Finished.
    Over,
}

/// Everything that decides how a run goes on.
pub struct RunView {
    pub agent_id: Seq<char>,
    pub session_id: Seq<char>,
    pub task_id: Seq<char>,
    pub task_content: Seq<char>,
    pub agent_name: Seq<char>,
    pub max_rounds: nat,
    pub retain_last: nat,
    /// The model that is asked in each round, and what goes with each request.
    pub model: Seq<char>,
    pub auth: AuthView,
    pub tools: Seq<ToolDefinitionView>,
    pub max_retries_hint: Option<u32>,
    pub timeout_ms: u64,
    pub heartbeat_interval_ms: u64,
    pub messages: Seq<ConversationMessageView>,
    pub history: Seq<ToolCallView>,
    pub round: nat,
    pub pending: Seq<ToolCallView>,
    pub answer: Seq<char>,
    pub detector: DetectorView,
    pub guard: GuardView,
    pub phase: RunPhase,
}

impl RunView {
    pub open spec fn wf(self) -> bool {
        &&& self.guard.wf()
        &&& self.round <= self.max_rounds
        &&& self.detector.streak + self.max_rounds <= usize::MAX + self.round + (if self.phase
            == RunPhase::ExecutingTools || self.phase == RunPhase::AwaitingTool || self.phase
            == RunPhase::Over {
            1int
        } else {
            0int
        })
        &&& (self.phase == RunPhase::AwaitingModel || self.phase == RunPhase::ExecutingTools
            || self.phase == RunPhase::AwaitingTool) ==> self.round < self.max_rounds
        &&& self.phase == RunPhase::AwaitingTool ==> self.pending.len() > 0
    }

    /// The agent whose calls the guard reports.
    pub open spec fn caller(self) -> Caller {
        Caller {
            session_id: self.session_id,
            agent_id: self.agent_id,
            agent_name: self.agent_name,
            task_id: self.task_id,
        }
    }
}

/// The conversation with one more message.
pub open spec fn said(
    messages: Seq<ConversationMessageView>,
    m: ActiveContextMessageView,
) -> Seq<ConversationMessageView> {
    messages.push(
        ConversationMessageView {
            id: (messages.len() + 1) as u64,
            role: m.role,
            content: m.content,
            tool_call_id: m.tool_call_id,
        },
    )
}

/// The conversation that stored messages stand for.
pub open spec fn resumed(stored: Seq<ActiveContextMessageView>) -> Seq<ConversationMessageView>
    decreases stored.len(),
{
    if stored.len() == 0 {
        Seq::empty()
    } else {
        said(resumed(stored.drop_last()), stored.last())
    }
}

pub open spec fn plain_message(role: Seq<char>, content: Seq<char>) -> ActiveContextMessageView {
    ActiveContextMessageView { role, content, tool_call_id: None }
}

/// A run that resumes the stored conversation, or begins one with its task.
pub open spec fn started(
    s: RunView,
    stored: Seq<ActiveContextMessageView>,
) -> (RunView, Seq<AgentEffectView>) {
    let task = plain_message("user"@, s.task_content);
    let event = AgentEffectView::Emit(AgentEventView::Started { agent_id: s.agent_id });
    if stored.len() == 0 {
        (
            RunView { messages: said(Seq::empty(), task), phase: RunPhase::Idle, ..s },
            seq![event, AgentEffectView::Remember(task)],
        )
    } else {
        (RunView { messages: resumed(stored), phase: RunPhase::Idle, ..s }, seq![event])
    }
}

pub open spec fn rounds_used_up_result() -> JsonView {
    JsonView::Object(seq![("error"@, JsonView::String("max_rounds_exceeded"@))])
}

/// What the beginning of a round asks of the caller.
#[derive(Debug)]
pub enum RoundStart {
    /// Ask the model. `original_message_count` is the length of the whole
    /// conversation, of which the messages of the request are the shortened one.
    Ask { request: GenerateRequest, original_message_count: usize },
    /// The run is over, with this event.
    Finished(AgentEvent),
}

pub enum RoundStartView {
    Ask { request: GenerateRequestView, original_message_count: nat },
    Finished(AgentEventView),
}

impl View for RoundStart {
    type V = RoundStartView;

    open spec fn view(&self) -> RoundStartView {
        match self {
            RoundStart::Ask { request, original_message_count } => RoundStartView::Ask {
                request: request@,
                original_message_count: *original_message_count as nat,
            },
            RoundStart::Finished(e) => RoundStartView::Finished(e@),
        }
    }
}

/// The request of a round: the configured model is asked with the configured
/// credentials, tools and hints, what was said by now, and for a stream.
pub open spec fn round_request(s: RunView) -> GenerateRequestView {
    GenerateRequestView {
        model: s.model,
        messages: request_messages(projection_of(s.messages, s.retain_last), s.history),
        tools: s.tools,
        stream: true,
        auth: s.auth,
        options: RequestOptions {
            max_retries_hint: s.max_retries_hint,
            timeout_ms_hint: Some(s.timeout_ms),
        },
    }
}

/// The beginning of a round: the run ends when the rounds are used up or a command
/// stops it, else the model is asked.
pub open spec fn round_begun(s: RunView, cancelled: bool) -> (RunView, RoundStartView) {
    if s.round >= s.max_rounds {
        (
            RunView { phase: RunPhase::Over, ..s },
            RoundStartView::Finished(
                AgentEventView::Completed {
                    agent_id: s.agent_id,
                    result: rounds_used_up_result(),
                },
            ),
        )
    } else if cancelled {
        (
            RunView { phase: RunPhase::Over, ..s },
            RoundStartView::Finished(
                AgentEventView::Crashed {
                    agent_id: s.agent_id,
                    error: "Cancelled by command"@,
                },
            ),
        )
    } else {
        (
            RunView { phase: RunPhase::AwaitingModel, ..s },
            RoundStartView::Ask {
                request: round_request(s),
                original_message_count: s.messages.len(),
            },
        )
    }
}

/// What an agent is told that keeps asking for the same calls.
pub open spec fn loop_warning(signature: Option<Seq<char>>, streak: nat) -> Seq<char> {
    let tool = text_before(
        match signature {
            Some(s) => s,
            None => "<unknown>"@,
        },
        "::"@,
    );
    "\u{26a0}\u{fe0f} [tool-loop guard] You have called `"@ + tool
        + "` with the exact same arguments "@ + decimal(streak)
        + " times in a row, which usually means the strategy is stuck. Try: 1) change the arguments (different path/pattern/query), 2) switch to a different tool, or 3) conclude with what you already know. Next call must use new arguments, a different tool, or produce a final answer."@
}

/// What the model answered: a text and tool calls, or an error message.
pub enum AnswerView {
    Answer { text: Seq<char>, calls: Seq<ToolCallView> },
    Failed { message: Seq<char> },
}

pub open spec fn answer_result(text: Seq<char>, rounds: nat) -> JsonView {
    JsonView::Object(
        seq![
            ("answer"@, JsonView::String(text)),
            ("rounds"@, JsonView::Number(JsonNumber::Unsigned(rounds as u64))),
        ],
    )
}

/// The answer of the model: a failure or an answer without tool calls ends the
/// run; calls that repeat those of the rounds before are not performed, but
/// answered by a warning; other calls are to be performed.
pub open spec fn round_answered(s: RunView, a: AnswerView) -> (RunView, Seq<AgentEffectView>) {
    match a {
        AnswerView::Failed { message } => (
            RunView { phase: RunPhase::Over, ..s },
            seq![
                AgentEffectView::Emit(
                    AgentEventView::Crashed {
                        agent_id: s.agent_id,
                        error: "LLM stream error on round "@ + decimal(s.round) + ": "@ + message,
                    },
                ),
            ],
        ),
        AnswerView::Answer { text, calls } => {
            let distinct = first_of_each(calls);
            let spoken = plain_message("assistant"@, text);
            let effects = seq![
                AgentEffectView::Emit(
                    AgentEventView::LlmRoundCompleted {
                        agent_id: s.agent_id,
                        assistant_message: text,
                    },
                ),
                AgentEffectView::Remember(spoken),
            ];
            let t = RunView { messages: said(s.messages, spoken), answer: text, ..s };
            let detector = observed(s.detector, distinct);
            if distinct.len() == 0 {
                (
                    RunView { phase: RunPhase::Over, ..t },
                    effects.push(
                        AgentEffectView::Emit(
                            AgentEventView::Completed {
                                agent_id: s.agent_id,
                                result: answer_result(text, s.round + 1),
                            },
                        ),
                    ),
                )
            } else if looping(detector) {
                let warning = plain_message(
                    "system"@,
                    loop_warning(detector.last_signature, detector.streak),
                );
                (
                    RunView {
                        messages: said(t.messages, warning),
                        detector: DetectorView { last_signature: None, streak: 0, ..detector },
                        round: s.round + 1,
                        phase: RunPhase::Idle,
                        ..t
                    },
                    effects.push(AgentEffectView::Remember(warning)),
                )
            } else {
                (
                    RunView { detector, pending: distinct, phase: RunPhase::ExecutingTools, ..t },
                    effects,
                )
            }
        },
    }
}

/// What the next tool call asks of the caller.
#[derive(Debug)]
pub enum CallStep {
    /// All calls of the round are done.
    RoundDone,
    /// Report the call and perform it.
    Execute { initiated: AgentEvent, call: ToolCall },
    /// The call was the final answer: report both events, the run is over.
    Finished { initiated: AgentEvent, completed: AgentEvent },
}

pub enum CallStepView {
    RoundDone,
    Execute { initiated: AgentEventView, call: ToolCallView },
    Finished { initiated: AgentEventView, completed: AgentEventView },
}

impl View for CallStep {
    type V = CallStepView;

    open spec fn view(&self) -> CallStepView {
        match self {
            CallStep::RoundDone => CallStepView::RoundDone,
            CallStep::Execute { initiated, call } => CallStepView::Execute {
                initiated: initiated@,
                call: call@,
            },
            CallStep::Finished { initiated, completed } => CallStepView::Finished {
                initiated: initiated@,
                completed: completed@,
            },
        }
    }
}

/// The next tool call of the round.
pub open spec fn call_begun(s: RunView) -> (RunView, CallStepView) {
    if s.pending.len() == 0 {
        (RunView { round: s.round + 1, phase: RunPhase::Idle, ..s }, CallStepView::RoundDone)
    } else {
        let call = s.pending[0];
        let initiated = AgentEventView::ToolCallInitiated { agent_id: s.agent_id, tool_call: call };
        let t = RunView { history: s.history.push(call), ..s };
        if call.name == "attempt_completion"@ {
            (
                RunView { phase: RunPhase::Over, ..t },
                CallStepView::Finished {
                    initiated,
                    completed: AgentEventView::Completed {
                        agent_id: s.agent_id,
                        result: match json_get(call.arguments, "result"@) {
                            Some(v) => v,
                            None => JsonView::String(s.answer),
                        },
                    },
                },
            )
        } else {
            (
                RunView { phase: RunPhase::AwaitingTool, ..t },
                CallStepView::Execute { initiated, call },
            )
        }
    }
}

/// The failure that a tool result reports.
pub open spec fn failure_of(call: ToolCallView, error: Option<Seq<char>>) -> Failure {
    let text = match error {
        Some(e) => e,
        None => Seq::empty(),
    };
    Failure {
        tool: call.name,
        hash: args_fingerprint(call.arguments),
        kind: failure_kind(text),
        code: Seq::empty(),
        text,
    }
}

/// The value that the model is shown for a tool result, with the report that goes
/// out before it where the guard trips just now over the state of the session.
pub open spec fn shown_result(s: RunView, r: ToolResultView) -> (JsonView, Seq<AgentEffectView>) {
    let call = s.pending[0];
    if r.success {
        (r.output, Seq::empty())
    } else {
        let f = failure_of(call, r.error);
        let d = decision_on(s.guard, f);
        if d.tripped {
            (
                JsonView::Object(
                    seq![("error"@, JsonView::String(failure_loop_error(call.name, d)))],
                ),
                if d.just_tripped && d.requires_escalation {
                    seq![
                        AgentEffectView::Emit(
                            AgentEventView::ToolFailureLoopEscalated {
                                agent_id: s.agent_id,
                                escalation: escalation_of(
                                    d,
                                    s.caller(),
                                    call.name,
                                    s.guard.threshold,
                                    text_before(f.text, "\n\nLLM_RECOVERY="@),
                                ),
                            },
                        ),
                    ]
                } else {
                    Seq::empty()
                },
            )
        } else {
            (JsonView::Object(seq![("error"@, json_opt_text(r.error))]), Seq::empty())
        }
    }
}

/// The guard after a tool result: a success clears what stood against the call, a
/// failure is counted.
pub open spec fn guard_after(s: RunView, r: ToolResultView) -> GuardView {
    let call = s.pending[0];
    if r.success {
        GuardView {
            records: without_call(s.guard.records, call.name, args_fingerprint(call.arguments)),
            ..s.guard
        }
    } else {
        recorded(s.guard, failure_of(call, r.error))
    }
}

/// The result can be taken: it is a success, or the guard can record the failure.
pub open spec fn can_finish(s: RunView, r: ToolResultView) -> bool {
    let f = failure_of(s.pending[0], r.error);
    r.success || s.guard.can_record(f.tool, f.hash, f.kind)
}

/// The result of the tool call: it is reported, and enters the conversation.
pub open spec fn call_finished(s: RunView, r: ToolResultView) -> (RunView, Seq<AgentEffectView>) {
    let call = s.pending[0];
    let (value, reports) = shown_result(s, r);
    let heard = ActiveContextMessageView {
        role: "tool"@,
        content: json_written(value),
        tool_call_id: Some(call.id),
    };
    (
        RunView {
            messages: said(s.messages, heard),
            guard: guard_after(s, r),
            pending: s.pending.drop_first(),
            phase: RunPhase::ExecutingTools,
            ..s
        },
        reports + seq![
            AgentEffectView::Emit(
                AgentEventView::ToolCallCompleted {
                    agent_id: s.agent_id,
                    tool_call_id: call.id,
                    result: value,
                },
            ),
            AgentEffectView::Remember(heard),
        ],
    )
}

/// The run of one agent.
#[derive(Debug)]
pub struct AgentLoop {
    config: AgentConfig,
    tools: Vec<ToolDefinition>,
    agent_name: String,
    context: ContextManager,
    history: Vec<ToolCall>,
    round: u32,
    pending: Vec<ToolCall>,
    answer: String,
    tool_loop_detector: ToolLoopDetector,
    tool_failure_loop_guard: ToolFailureLoopGuard,
    phase: RunPhase,
}

impl View for AgentLoop {
    type V = RunView;

    closed spec fn view(&self) -> RunView {
        RunView {
            agent_id: self.config.agent_id@,
            session_id: self.config.session_id@,
            task_id: self.config.task_id@,
            task_content: self.config.task_content@,
            agent_name: self.agent_name@,
            max_rounds: self.config.max_rounds as nat,
            retain_last: self.config.context_retain_last as nat,
            model: self.config.model@,
            auth: self.config.auth_context@,
            tools: tool_views(self.tools@),
            max_retries_hint: self.config.request_options.max_retries_hint,
            timeout_ms: request_timeout(self.config),
            heartbeat_interval_ms: self.config.heartbeat_interval_ms,
            messages: self.context@,
            history: call_views(self.history@),
            round: self.round as nat,
            pending: call_views(self.pending@),
            answer: self.answer@,
            detector: self.tool_loop_detector@,
            guard: self.tool_failure_loop_guard@,
            phase: self.phase,
        }
    }
}

fn context_message(role: &str, content: &str, tool_call_id: Option<String>) -> (m:
    AgentContextMessage)
    ensures
        m@ == (ActiveContextMessageView {
            role: role@,
            content: content@,
            tool_call_id: opt_text(tool_call_id),
        }),
{
    AgentContextMessage { role: role.to_owned(), content: content.to_owned(), tool_call_id }
}

/// The time for an answer: as the options say, or as it is set for a round.
pub open spec fn request_timeout(config: AgentConfig) -> u64 {
    match config.request_options.timeout_ms_hint {
        Some(ms) => ms,
        None => config.round_timeout_ms,
    }
}

/// What the environment says of the guards of an agent: the values of the variables
/// [`TOOL_LOOP_DETECTOR_VARIABLE`] and [`TOOL_FAILURE_LOOP_GUARD_VARIABLE`], where they
/// are set.
#[derive(Debug)]
pub struct GuardEnvironment {
    pub tool_loop_detector: Option<String>,
    pub tool_failure_loop_guard: Option<String>,
}

pub struct GuardEnvironmentView {
    pub tool_loop_detector: Option<Seq<char>>,
    pub tool_failure_loop_guard: Option<Seq<char>>,
}

impl View for GuardEnvironment {
    type V = GuardEnvironmentView;

    open spec fn view(&self) -> GuardEnvironmentView {
        GuardEnvironmentView {
            tool_loop_detector: opt_text(self.tool_loop_detector),
            tool_failure_loop_guard: opt_text(self.tool_failure_loop_guard),
        }
    }
}

fn opt_as_str(o: &Option<String>) -> (r: Option<&str>)
    ensures
        opt_str(r) == opt_text(*o),
{
    match o {
        Some(s) => Some(s.as_str()),
        None => None,
    }
}

/// A run that has not started, with the guards that the environment switches on.
pub open spec fn fresh_run(
    config: AgentConfig,
    tools: Seq<ToolDefinitionView>,
    env: GuardEnvironmentView,
) -> RunView {
    RunView {
        agent_id: config.agent_id@,
        session_id: config.session_id@,
        task_id: config.task_id@,
        task_content: config.task_content@,
        agent_name: if config.agent_name@.len() == 0 {
            config.agent_id@
        } else {
            config.agent_name@
        },
        max_rounds: config.max_rounds as nat,
        retain_last: config.context_retain_last as nat,
        model: config.model@,
        auth: config.auth_context@,
        tools,
        max_retries_hint: config.request_options.max_retries_hint,
        timeout_ms: request_timeout(config),
        heartbeat_interval_ms: config.heartbeat_interval_ms,
        messages: Seq::empty(),
        history: Seq::empty(),
        round: 0,
        pending: Seq::empty(),
        answer: Seq::empty(),
        detector: DetectorView {
            enabled: truthy(env.tool_loop_detector),
            threshold: 4,
            last_signature: None,
            streak: 0,
        },
        guard: GuardView {
            enabled: truthy(env.tool_failure_loop_guard),
            threshold: 3,
            max_keys: 256,
            records: Seq::empty(),
        },
        phase: RunPhase::Ready,
    }
}

impl AgentLoop {
    /// The messages of the conversation are numbered from 1.
    pub closed spec fn context_wf(self) -> bool {
        self.context.wf()
    }

    pub open spec fn wf(self) -> bool {
        self@.wf() && self.context_wf()
    }

    /// A run that has not started, of an agent that may use these tools, with the guards
    /// that the environment switches on.
    pub fn new(config: AgentConfig, tools: Vec<ToolDefinition>, env: &GuardEnvironment) -> (l: Self)
        ensures
            l.wf(),
            l@ == fresh_run(config, tool_views(tools@), env@),
    {
        let agent_name = if config.agent_name.as_str().is_empty() {
            config.agent_id.clone()
        } else {
            config.agent_name.clone()
        };
        let l = AgentLoop {
            config,
            tools,
            agent_name,
            context: ContextManager::new(),
            history: Vec::new(),
            round: 0,
            pending: Vec::new(),
            answer: String::new(),
            tool_loop_detector: ToolLoopDetector::new(
                ToolLoopDetectorOptions::default(),
                opt_as_str(&env.tool_loop_detector),
            ),
            tool_failure_loop_guard: ToolFailureLoopGuard::new(
                ToolFailureLoopGuardOptions::default(),
                opt_as_str(&env.tool_failure_loop_guard),
            ),
            phase: RunPhase::Ready,
        };
        assert(l@.history =~= Seq::<ToolCallView>::empty());
        assert(l@.pending =~= Seq::<ToolCallView>::empty());
        assert(l@.answer =~= Seq::<char>::empty());
        l
    }

    pub fn with_tool_loop_detector(self, detector: ToolLoopDetector) -> (l: Self)
        requires
            self.wf(),
            detector@.streak + self@.max_rounds <= usize::MAX,
        ensures
            l.wf(),
            l@ == (RunView { detector: detector@, ..self@ }),
    {
        let mut l = self;
        l.tool_loop_detector = detector;
        l
    }

    pub fn with_tool_failure_loop_guard(self, guard: ToolFailureLoopGuard) -> (l: Self)
        requires
            self.wf(),
            guard.wf(),
        ensures
            l.wf(),
            l@ == (RunView { guard: guard@, ..self@ }),
    {
        let mut l = self;
        l.tool_failure_loop_guard = guard;
        l
    }

    pub fn phase(&self) -> (p: RunPhase)
        ensures
            p == self@.phase,
    {
        self.phase
    }

    pub fn agent_name(&self) -> (s: &str)
        ensures
            s@ == self@.agent_name,
    {
        self.agent_name.as_str()
    }

    /// Whether it is time for a sign of life, so long after the last one.
    pub fn heartbeat_due(&self, elapsed_ns: u128) -> (b: bool)
        ensures
            b == (elapsed_ns >= self@.heartbeat_interval_ms * 1_000_000),
    {
        heartbeat_due(elapsed_ns, self.config.heartbeat_interval_ms)
    }

    /// Starts the run with the conversation that was kept for the agent.
    pub fn start(&mut self, stored: Vec<AgentContextMessage>) -> (effects: Vec<AgentEffect>)
        requires
            old(self).wf(),
            old(self)@.phase == RunPhase::Ready,
            old(self)@.messages.len() == 0,
            stored@.len() < u64::MAX,
        ensures
            final(self).wf(),
            (final(self)@, effect_views(effects@)) == started(old(self)@, stored_views(stored@)),
    {
        let ghost before = self@;
        let ghost views = stored_views(stored@);
        let mut effects: Vec<AgentEffect> = Vec::new();
        effects.push(AgentEffect::Emit(AgentEvent::Started { agent_id: self.config.agent_id.clone() }));
        let mut i: usize = 0;
        assert(views.take(0) =~= Seq::<ActiveContextMessageView>::empty());
        assert(self@.messages =~= resumed(views.take(0)));
        while i < stored.len()
            invariant
                i <= stored@.len() < u64::MAX,
                views == stored_views(stored@),
                self.wf(),
                self@ == (RunView { messages: resumed(views.take(i as int)), ..before }),
                resumed(views.take(i as int)).len() == i,
            decreases stored@.len() - i,
        {
            assert(views.take(i + 1).drop_last() =~= views.take(i as int));
            let _ = self.context.append(
                stored[i].role.as_str(),
                stored[i].content.as_str(),
                clone_opt(&stored[i].tool_call_id),
            );
            i += 1;
        }
        assert(views.take(i as int) =~= views);
        if stored.len() == 0 {
            let message = context_message("user", self.config.task_content.as_str(), None);
            let _ = self.context.append("user", self.config.task_content.as_str(), None);
            effects.push(AgentEffect::Remember(message));
        }
        self.phase = RunPhase::Idle;
        proof {
            let (after, expected) = started(before, views);
            assert(self@.messages =~= after.messages);
            assert(effect_views(effects@) =~= expected);
        }
        effects
    }

    /// Begins the next round; `cancelled` says that a command to stop has come.
    pub fn begin_round(&mut self, cancelled: bool) -> (r: RoundStart)
        requires
            old(self).wf(),
            old(self)@.phase == RunPhase::Idle,
        ensures
            final(self).wf(),
            (final(self)@, r@) == round_begun(old(self)@, cancelled),
    {
        if self.round >= self.config.max_rounds {
            self.phase = RunPhase::Over;
            let result = Json::object().with("error", Json::text("max_rounds_exceeded"));
            assert(result@->Object_0 =~= rounds_used_up_result()->Object_0);
            return RoundStart::Finished(
                AgentEvent::Completed { agent_id: self.config.agent_id.clone(), result },
            );
        }
        if cancelled {
            self.phase = RunPhase::Over;
            return RoundStart::Finished(
                AgentEvent::Crashed {
                    agent_id: self.config.agent_id.clone(),
                    error: "Cancelled by command".to_owned(),
                },
            );
        }
        self.phase = RunPhase::AwaitingModel;
        let projection = self.context.active_projection(self.config.context_retain_last);
        let messages = build_messages(&projection, &self.history);
        let timeout_ms: u64 = match self.config.request_options.timeout_ms_hint {
            Some(ms) => ms,
            None => self.config.round_timeout_ms,
        };
        RoundStart::Ask {
            request: GenerateRequest {
                model: self.config.model.clone(),
                messages,
                tools: clone_tools(&self.tools),
                stream: true,
                auth_context: self.config.auth_context.clone(),
                options: RequestOptions {
                    max_retries_hint: self.config.request_options.max_retries_hint,
                    timeout_ms_hint: Some(timeout_ms),
                },
            },
            original_message_count: self.context.replay().len(),
        }
    }
}

/// What the model answered.
pub open spec fn answer_view(outcome: Result<RoundOutput, String>) -> AnswerView {
    match outcome {
        Ok(o) => AnswerView::Answer { text: o.text@, calls: call_views(o.tool_calls@) },
        Err(message) => AnswerView::Failed { message: message@ },
    }
}

impl AgentLoop {
    /// Takes the answer of the model, or the message of the error it failed with.
    pub fn finish_round(&mut self, outcome: Result<RoundOutput, String>) -> (effects: Vec<
        AgentEffect,
    >)
        requires
            old(self).wf(),
            old(self)@.phase == RunPhase::AwaitingModel,
            old(self)@.messages.len() + 1 < u64::MAX,
        ensures
            final(self).wf(),
            (final(self)@, effect_views(effects@)) == round_answered(
                old(self)@,
                answer_view(outcome),
            ),
    {
        let ghost before = self@;
        let mut effects: Vec<AgentEffect> = Vec::new();
        let output = match outcome {
            Err(message) => {
                self.phase = RunPhase::Over;
                let mut error = "LLM stream error on round ".to_owned();
                let round = decimal_string(self.round as u64);
                error.append(round.as_str());
                error.append(": ");
                error.append(message.as_str());
                effects.push(
                    AgentEffect::Emit(
                        AgentEvent::Crashed { agent_id: self.config.agent_id.clone(), error },
                    ),
                );
                proof {
                    let (_, expected) = round_answered(
                        before,
                        AnswerView::Failed { message: message@ },
                    );
                    assert(effect_views(effects@) =~= expected);
                }
                return effects;
            },
            Ok(output) => output,
        };
        let ghost a = answer_view(Ok(output));
        let mut calls = output.tool_calls;
        dedupe_tool_calls(&mut calls);
        let ghost distinct = call_views(calls@);
        let text = output.text;
        effects.push(
            AgentEffect::Emit(
                AgentEvent::LlmRoundCompleted {
                    agent_id: self.config.agent_id.clone(),
                    assistant_message: text.clone(),
                },
            ),
        );
        effects.push(AgentEffect::Remember(context_message("assistant", text.as_str(), None)));
        let _ = self.context.append("assistant", text.as_str(), None);
        if calls.len() == 0 {
            let result = Json::object().with("answer", Json::text(text.as_str())).with(
                "rounds",
                Json::number(self.round as u64 + 1),
            );
            assert(result@->Object_0 =~= answer_result(text@, before.round + 1)->Object_0);
            self.answer = text;
            self.phase = RunPhase::Over;
            effects.push(
                AgentEffect::Emit(
                    AgentEvent::Completed { agent_id: self.config.agent_id.clone(), result },
                ),
            );
            proof {
                let (after, expected) = round_answered(before, a);
                assert(effect_views(effects@) =~= expected);
                assert(self@ == after);
            }
            return effects;
        }
        self.answer = text;
        self.tool_loop_detector.observe(&calls);
        if self.tool_loop_detector.is_looping() {
            let warning = self.loop_warning_text();
            let _ = self.context.append("system", warning.as_str(), None);
            effects.push(AgentEffect::Remember(context_message("system", warning.as_str(), None)));
            self.tool_loop_detector.reset();
            self.round = self.round + 1;
            self.phase = RunPhase::Idle;
            proof {
                let (after, expected) = round_answered(before, a);
                assert(effect_views(effects@) =~= expected);
                assert(self@.messages =~= after.messages);
            }
            return effects;
        }
        self.pending = calls;
        self.phase = RunPhase::ExecutingTools;
        proof {
            let (after, expected) = round_answered(before, a);
            assert(effect_views(effects@) =~= expected);
            assert(self@ == after);
        }
        effects
    }

    fn loop_warning_text(&self) -> (s: String)
        ensures
            s@ == loop_warning(self@.detector.last_signature, self@.detector.streak),
    {
        let signature = match self.tool_loop_detector.current_signature() {
            Some(s) => s.to_owned(),
            None => "<unknown>".to_owned(),
        };
        let tool = part_before(signature.as_str(), "::");
        let mut s = "\u{26a0}\u{fe0f} [tool-loop guard] You have called `".to_owned();
        s.append(tool.as_str());
        s.append("` with the exact same arguments ");
        let streak = decimal_string(self.tool_loop_detector.consecutive_count() as u64);
        s.append(streak.as_str());
        s.append(
            " times in a row, which usually means the strategy is stuck. Try: 1) change the arguments (different path/pattern/query), 2) switch to a different tool, or 3) conclude with what you already know. Next call must use new arguments, a different tool, or produce a final answer.",
        );
        s
    }

    /// Takes up the next tool call of the round.
    pub fn next_call(&mut self) -> (step: CallStep)
        requires
            old(self).wf(),
            old(self)@.phase == RunPhase::ExecutingTools,
        ensures
            final(self).wf(),
            (final(self)@, step@) == call_begun(old(self)@),
    {
        let ghost before = self@;
        if self.pending.len() == 0 {
            self.round = self.round + 1;
            self.phase = RunPhase::Idle;
            return CallStep::RoundDone;
        }
        let call = self.pending[0].clone();
        let ghost view = call@;
        assert(view == before.pending[0]);
        let initiated = AgentEvent::ToolCallInitiated {
            agent_id: self.config.agent_id.clone(),
            tool_call: call.clone(),
        };
        self.history.push(call.clone());
        assert(self@.history =~= before.history.push(view));
        if same_text(call.name.as_str(), "attempt_completion") {
            let result = match call.arguments.get("result") {
                Some(v) => v.clone(),
                None => Json::text(self.answer.as_str()),
            };
            self.phase = RunPhase::Over;
            return CallStep::Finished {
                initiated,
                completed: AgentEvent::Completed {
                    agent_id: self.config.agent_id.clone(),
                    result,
                },
            };
        }
        self.phase = RunPhase::AwaitingTool;
        CallStep::Execute { initiated, call }
    }

    /// [`AgentLoop::finish_call`], unless the call has failed and the guard cannot count
    /// one more of these failures: then nothing changes.
    pub fn try_finish_call(&mut self, result: ToolResult) -> (effects: Option<Vec<AgentEffect>>)
        requires
            old(self).wf(),
            old(self)@.phase == RunPhase::AwaitingTool,
            old(self)@.messages.len() < u64::MAX,
        ensures
            final(self).wf(),
            if can_finish(old(self)@, result@) {
                &&& effects is Some
                &&& (final(self)@, effect_views(effects->0@)) == call_finished(
                    old(self)@,
                    result@,
                )
            } else {
                final(self)@ == old(self)@ && effects is None
            },
    {
        if !result.success {
            let call = self.pending[0].clone();
            let hash = failure_args_fingerprint(&call.arguments);
            let error_text = match &result.error {
                Some(e) => e.clone(),
                None => String::new(),
            };
            assert(error_text@ == failure_of(self@.pending[0], result@.error).text);
            if !self.tool_failure_loop_guard.can_record(
                call.name.as_str(),
                hash.as_str(),
                error_text.as_str(),
            ) {
                return None;
            }
        }
        Some(self.finish_call(result))
    }

    /// Takes the result of the tool call.
    pub fn finish_call(&mut self, result: ToolResult) -> (effects: Vec<AgentEffect>)
        requires
            old(self).wf(),
            old(self)@.phase == RunPhase::AwaitingTool,
            old(self)@.messages.len() < u64::MAX,
            can_finish(old(self)@, result@),
        ensures
            final(self).wf(),
            (final(self)@, effect_views(effects@)) == call_finished(old(self)@, result@),
    {
        let ghost before = self@;
        let ghost outcome = result@;
        let mut effects: Vec<AgentEffect> = Vec::new();
        let call = self.pending[0].clone();
        assert(call@ == before.pending[0]);
        let value = if result.success {
            self.tool_failure_loop_guard.clear_on_success(call.name.as_str(), &call.arguments);
            result.output
        } else {
            self.failed_value(&call, &result.error, &mut effects)
        };
        assert(value@ == shown_result(before, outcome).0);
        assert(effect_views(effects@) =~= shown_result(before, outcome).1);
        let ghost reports = effect_views(effects@);
        let content = json_to_string(&value);
        effects.push(
            AgentEffect::Emit(
                AgentEvent::ToolCallCompleted {
                    agent_id: self.config.agent_id.clone(),
                    tool_call_id: call.id.clone(),
                    result: value,
                },
            ),
        );
        let _ = self.context.append("tool", content.as_str(), Some(call.id.clone()));
        effects.push(
            AgentEffect::Remember(
                context_message("tool", content.as_str(), Some(call.id.clone())),
            ),
        );
        let _ = self.pending.remove(0);
        self.phase = RunPhase::ExecutingTools;
        proof {
            let (after, expected) = call_finished(before, outcome);
            assert(effect_views(effects@) =~= expected);
            assert(self@.pending =~= after.pending);
            assert(self@ == after);
        }
        effects
    }

    /// Counts a failed call and gives the value that the model is shown for it.
    fn failed_value(
        &mut self,
        call: &ToolCall,
        error: &Option<String>,
        effects: &mut Vec<AgentEffect>,
    ) -> (value: Json)
        requires
            old(self).wf(),
            old(self)@.phase == RunPhase::AwaitingTool,
            call@ == old(self)@.pending[0],
            ({
                let f = failure_of(call@, opt_text(*error));
                old(self)@.guard.can_record(f.tool, f.hash, f.kind)
            }),
            old(effects)@.len() == 0,
        ensures
            final(self).wf(),
            ({
                let r = ToolResultView {
                    success: false,
                    output: JsonView::Null,
                    error: opt_text(*error),
                };
                &&& final(self)@ == (RunView { guard: guard_after(old(self)@, r), ..old(self)@ })
                &&& (value@, effect_views(final(effects)@)) == shown_result(old(self)@, r)
            }),
    {
        let ghost before = self@;
        let error_text = match error {
            Some(e) => e.clone(),
            None => String::new(),
        };
        assert(error_text@ == failure_of(call@, opt_text(*error)).text);
        proof {
            reveal_strlit("");
            assert(""@ =~= Seq::<char>::empty());
        }
        let decision = self.tool_failure_loop_guard.record(
            call.name.as_str(),
            &call.arguments,
            "",
            error_text.as_str(),
        );
        assert(effect_views(effects@) =~= Seq::<AgentEffectView>::empty());
        if decision.tripped {
            if decision.just_tripped && decision.requires_escalation {
                let last_error_message = part_before(error_text.as_str(), "\n\nLLM_RECOVERY=");
                let escalation = ToolFailureLoopEscalation::from_tripped(
                    &decision,
                    self.config.session_id.as_str(),
                    self.config.agent_id.as_str(),
                    self.agent_name.as_str(),
                    self.config.task_id.as_str(),
                    call.name.as_str(),
                    self.tool_failure_loop_guard.threshold(),
                    last_error_message.as_str(),
                );
                effects.push(
                    AgentEffect::Emit(
                        AgentEvent::ToolFailureLoopEscalated {
                            agent_id: self.config.agent_id.clone(),
                            escalation,
                        },
                    ),
                );
                proof {
                    let r = ToolResultView {
                        success: false,
                        output: JsonView::Null,
                        error: opt_text(*error),
                    };
                    assert(effect_views(effects@) =~= shown_result(before, r).1);
                }
            }
            let message = format_tool_failure_loop_error(call.name.as_str(), &decision);
            let value = Json::object().with("error", Json::text(message.as_str()));
            assert(value@->Object_0 =~= seq![
                ("error"@, JsonView::String(failure_loop_error(call@.name, decision@))),
            ]);
            value
        } else {
            let value = Json::object().with("error", Json::opt_text(error));
            assert(value@->Object_0 =~= seq![("error"@, json_opt_text(opt_text(*error)))]);
            value
        }
    }
}

/// The messages of a request.
fn build_messages(conversation: &Vec<ActiveContextMessage>, history: &Vec<ToolCall>) -> (r: Vec<
    Message,
>)
    ensures
        message_views(r@) == request_messages(active_views(conversation@), call_views(history@)),
{
    let ghost views = active_views(conversation@);
    let ghost calls = call_views(history@);
    let mut r: Vec<Message> = Vec::new();
    let mut i: usize = 0;
    assert(views.take(0) =~= Seq::<ActiveContextMessageView>::empty());
    assert(message_views(r@) =~= Seq::<MessageView>::empty());
    while i < conversation.len()
        invariant
            i <= conversation@.len(),
            views == active_views(conversation@),
            calls == call_views(history@),
            message_views(r@) == request_messages(views.take(i as int), calls),
        decreases conversation@.len() - i,
    {
        assert(views.take(i + 1).drop_last() =~= views.take(i as int));
        let ghost before = message_views(r@);
        let m = &conversation[i];
        let found: Option<usize> = match &m.tool_call_id {
            Some(id) => find_call(history, id.as_str()),
            None => None,
        };
        if same_text(m.role.as_str(), "tool") {
            if let Some(k) = found {
                let mut tool_calls: Vec<ToolCall> = Vec::new();
                tool_calls.push(history[k].clone());
                assert(call_views(tool_calls@) =~= seq![calls[k as int]]);
                r.push(
                    Message {
                        role: "assistant".to_owned(),
                        content: String::new(),
                        tool_calls,
                        tool_call_id: None,
                        name: None,
                    },
                );
            }
        }
        let name = match found {
            Some(k) => Some(history[k].name.clone()),
            None => None,
        };
        let no_calls: Vec<ToolCall> = Vec::new();
        assert(call_views(no_calls@) =~= Seq::<ToolCallView>::empty());
        r.push(
            Message {
                role: m.role.clone(),
                content: m.content.clone(),
                tool_calls: no_calls,
                tool_call_id: clone_opt(&m.tool_call_id),
                name,
            },
        );
        assert(message_views(r@) =~= before + request_part(views[i as int], calls));
        i += 1;
    }
    assert(views.take(i as int) =~= views);
    r
}

/// An effect that reports the end of the run.
pub open spec fn is_end(e: AgentEffectView) -> bool {
    match e {
        AgentEffectView::Emit(event) => ends_run(event),
        AgentEffectView::Remember(_) => false,
    }
}

/// A run reports its end exactly when it is over, and once: the step that ends it
/// reports so with its last effect and with no other, and no other step does.
pub proof fn law_the_end_is_reported_once(
    s: RunView,
    stored: Seq<ActiveContextMessageView>,
    cancelled: bool,
    a: AnswerView,
    r: ToolResultView,
)
    ensures
        forall|i: int| 0 <= i < started(s, stored).1.len() ==> !is_end(started(s, stored).1[i]),
        match round_begun(s, cancelled) {
            (t, RoundStartView::Finished(e)) => t.phase == RunPhase::Over && ends_run(e),
            (t, RoundStartView::Ask { .. }) => t.phase != RunPhase::Over,
        },
        ({
            let (t, effects) = round_answered(s, a);
            &&& effects.len() > 0
            &&& is_end(effects.last()) <==> t.phase == RunPhase::Over
            &&& forall|i: int| 0 <= i < effects.len() - 1 ==> !is_end(#[trigger] effects[i])
        }),
        match call_begun(s) {
            (t, CallStepView::Finished { initiated, completed }) => t.phase == RunPhase::Over
                && !ends_run(initiated) && ends_run(completed),
            (t, CallStepView::Execute { initiated, .. }) => t.phase != RunPhase::Over && !ends_run(
                initiated,
            ),
            (t, CallStepView::RoundDone) => t.phase != RunPhase::Over,
        },
        ({
            let (t, effects) = call_finished(s, r);
            &&& t.phase != RunPhase::Over
            &&& forall|i: int| 0 <= i < effects.len() ==> !is_end(#[trigger] effects[i])
        }),
{
    let (_, effects) = call_finished(s, r);
    let reports = shown_result(s, r).1;
    assert forall|i: int| 0 <= i < effects.len() implies !is_end(#[trigger] effects[i]) by {
        if i < reports.len() {
            assert(effects[i] == reports[i]);
        } else if i == reports.len() {
        } else {
            assert(i == reports.len() + 1);
        }
    }
}

/// With the guard off, a failed call is shown to the model as it failed, and
/// nothing is reported or counted.
pub proof fn law_disabled_guard_shows_the_failure(s: RunView, r: ToolResultView)
    requires
        !s.guard.enabled,
        !r.success,
    ensures
        shown_result(s, r).0 == JsonView::Object(seq![("error"@, json_opt_text(r.error))]),
        shown_result(s, r).1.len() == 0,
        guard_after(s, r) == s.guard,
{
}

/// A report goes out only over the state of the session, and only when the guard
/// trips just now.
pub proof fn law_reports_only_at_a_fresh_state_trip(s: RunView, r: ToolResultView)
    ensures
        shown_result(s, r).1.len() > 0 <==> {
            let d = decision_on(s.guard, failure_of(s.pending[0], r.error));
            !r.success && d.just_tripped && d.requires_escalation
        },
{
}

/// With the detector off, calls are always performed.
pub proof fn law_disabled_detector_never_skips(s: RunView, text: Seq<char>, calls: Seq<ToolCallView>)
    requires
        !s.detector.enabled,
        first_of_each(calls).len() > 0,
    ensures
        round_answered(s, AnswerView::Answer { text, calls }).0.phase == RunPhase::ExecutingTools,
        round_answered(s, AnswerView::Answer { text, calls }).0.pending == first_of_each(calls),
{
}

/// Nothing that was said is forgotten: each step keeps the conversation and adds
/// to its end at most.
pub proof fn law_conversation_only_grows(
    s: RunView,
    cancelled: bool,
    a: AnswerView,
    r: ToolResultView,
)
    ensures
        round_begun(s, cancelled).0.messages == s.messages,
        s.messages.is_prefix_of(round_answered(s, a).0.messages),
        call_begun(s).0.messages == s.messages,
        s.messages.is_prefix_of(call_finished(s, r).0.messages),
{
    let m = round_answered(s, a).0.messages;
    assert(m.subrange(0, s.messages.len() as int) =~= s.messages);
    let n = call_finished(s, r).0.messages;
    assert(n.subrange(0, s.messages.len() as int) =~= s.messages);
}

/// Each round asks the configured model with the configured credentials, tools and
/// hints, and no step changes them.
pub proof fn law_the_request_follows_the_configuration(
    config: AgentConfig,
    tools: Seq<ToolDefinitionView>,
    env: GuardEnvironmentView,
    s: RunView,
    stored: Seq<ActiveContextMessageView>,
    cancelled: bool,
    a: AnswerView,
    r: ToolResultView,
)
    requires
        asks_as_configured(s, config, tools),
    ensures
        asks_as_configured(fresh_run(config, tools, env), config, tools),
        asks_as_configured(started(s, stored).0, config, tools),
        asks_as_configured(round_begun(s, cancelled).0, config, tools),
        asks_as_configured(round_answered(s, a).0, config, tools),
        asks_as_configured(call_begun(s).0, config, tools),
        asks_as_configured(call_finished(s, r).0, config, tools),
{
}

/// What a run in this state asks is what its configuration says.
pub open spec fn asks_as_configured(
    s: RunView,
    config: AgentConfig,
    tools: Seq<ToolDefinitionView>,
) -> bool {
    let request = round_request(s);
    &&& request.model == config.model@
    &&& request.tools == tools
    &&& request.stream
    &&& request.auth == config.auth_context@
    &&& request.options.max_retries_hint == config.request_options.max_retries_hint
    &&& request.options.timeout_ms_hint == Some(request_timeout(config))
}

/// A round in which a call is skipped or all calls are done counts against the
/// limit, so a run asks the model at most as often as the limit says.
pub proof fn law_rounds_are_used_up(s: RunView, a: AnswerView)
    ensures
        s.round >= s.max_rounds ==> round_begun(s, false).0.phase == RunPhase::Over,
        round_answered(s, a).0.phase == RunPhase::Idle ==> round_answered(s, a).0.round == s.round
            + 1,
        call_begun(s).0.phase == RunPhase::Idle ==> call_begun(s).0.round == s.round + 1,
{
}

} // verus!
