//! Providers that run as processes of their own: one request goes in, and the answer
//! or a stream of events comes out, line by line.
use vstd::prelude::*;

use crate::llm::registry::{listed, supports_listed_model};
use crate::llm::router::own_error;
use crate::llm::types::{ProviderError, ProviderErrorCode, ProviderErrorView};
use crate::output::{first_line, first_line_or, full_lines, response_lines};
use crate::text::{
    chars_of, clone_opt, clone_texts, contains_text, foreign_to, lemma_no_text_across_marker,
    lossy_string, lossy_text, opt_text, text_contains, texts,
    trim_string, trimmed, utf8_fault, utf8_string,
};

verus! {

/// How much of an output is kept.
pub const EXTERNAL_PROCESS_OUTPUT_LIMIT: usize = 1_048_576;

/// How to run a provider, and which models it serves.
#[derive(Debug)]
pub struct ExternalProcessProvider {
    provider_id: String,
    supported_models: Vec<String>,
    program: String,
    args: Vec<String>,
    cwd: Option<String>,
    default_timeout_ms: u64,
}

pub struct ExternalView {
    pub provider_id: Seq<char>,
    pub models: Seq<Seq<char>>,
    pub program: Seq<char>,
    pub args: Seq<Seq<char>>,
    pub cwd: Option<Seq<char>>,
    pub default_timeout_ms: u64,
}

impl View for ExternalProcessProvider {
    type V = ExternalView;

    closed spec fn view(&self) -> ExternalView {
        ExternalView {
            provider_id: self.provider_id@,
            models: texts(self.supported_models@),
            program: self.program@,
            args: texts(self.args@),
            cwd: opt_text(self.cwd),
            default_timeout_ms: self.default_timeout_ms,
        }
    }
}

impl Clone for ExternalProcessProvider {
    fn clone(&self) -> (r: Self)
        ensures
            r@ == self@,
    {
        ExternalProcessProvider {
            provider_id: self.provider_id.clone(),
            supported_models: clone_texts(&self.supported_models),
            program: self.program.clone(),
            args: clone_texts(&self.args),
            cwd: clone_opt(&self.cwd),
            default_timeout_ms: self.default_timeout_ms,
        }
    }
}

impl ExternalProcessProvider {
    /// A provider that serves every model and has thirty seconds for an answer.
    pub fn new(provider_id: &str, program: &str) -> (p: Self)
        ensures
            p@ == (ExternalView {
                provider_id: provider_id@,
                models: Seq::empty(),
                program: program@,
                args: Seq::empty(),
                cwd: None,
                default_timeout_ms: 30_000,
            }),
    {
        let p = ExternalProcessProvider {
            provider_id: provider_id.to_owned(),
            supported_models: Vec::new(),
            program: program.to_owned(),
            args: Vec::new(),
            cwd: None,
            default_timeout_ms: 30_000,
        };
        assert(p@.models =~= Seq::empty());
        assert(p@.args =~= Seq::empty());
        p
    }

    pub fn with_args(self, args: Vec<String>) -> (p: Self)
        ensures
            p@ == (ExternalView { args: texts(args@), ..self@ }),
    {
        let mut p = self;
        p.args = args;
        p
    }

    /// The provider, serving these models alone; every model if there are none.
    pub fn with_models(self, models: Vec<String>) -> (p: Self)
        ensures
            p@ == (ExternalView { models: texts(models@), ..self@ }),
    {
        let mut p = self;
        p.supported_models = models;
        p
    }

    pub fn with_cwd(self, cwd: &str) -> (p: Self)
        ensures
            p@ == (ExternalView { cwd: Some(cwd@), ..self@ }),
    {
        let mut p = self;
        p.cwd = Some(cwd.to_owned());
        p
    }

    pub fn with_timeout_ms(self, timeout_ms: u64) -> (p: Self)
        ensures
            p@ == (ExternalView { default_timeout_ms: timeout_ms, ..self@ }),
    {
        let mut p = self;
        p.default_timeout_ms = timeout_ms;
        p
    }

    pub fn provider_id(&self) -> (s: &str)
        ensures
            s@ == self@.provider_id,
    {
        self.provider_id.as_str()
    }

    pub fn supports_model(&self, model_id: &str) -> (b: bool)
        ensures
            b == listed(self@.models, model_id@),
    {
        supports_listed_model(&self.supported_models, model_id)
    }

    pub fn program(&self) -> (s: &str)
        ensures
            s@ == self@.program,
    {
        self.program.as_str()
    }

    pub fn args(&self) -> (a: &[String])
        ensures
            texts(a@) == self@.args,
    {
        self.args.as_slice()
    }

    /// The directory to run in: the current one unless another was set.
    pub fn cwd(&self) -> (s: String)
        ensures
            s@ == match self@.cwd {
                Some(cwd) => cwd,
                None => "."@,
            },
    {
        match clone_opt(&self.cwd) {
            Some(cwd) => cwd,
            None => ".".to_owned(),
        }
    }

    /// The time for an answer: as the request asks, or as the provider has it.
    pub fn timeout_ms(&self, hint: Option<u64>) -> (t: u64)
        ensures
            t == match hint {
                Some(t) => t,
                None => self@.default_timeout_ms,
            },
    {
        match hint {
            Some(t) => t,
            None => self.default_timeout_ms,
        }
    }
}

/// What is said of a process that failed: its status, and the first line of its error
/// output unless that is blank or may hold a key.
pub open spec fn exit_message(status: Seq<char>, stderr: Seq<char>) -> Seq<char> {
    let line = trimmed(first_line(stderr, ""@));
    if line.len() == 0 || contains_text(line, "sk-"@) {
        "provider executor exited with status "@ + status
    } else {
        "provider executor exited with status "@ + status + ": "@ + line
    }
}

/// What is said of a process that failed, given its error output as text.
pub fn exit_message_of(status: &str, stderr: &str) -> (s: String)
    ensures
        s@ == exit_message(status@, stderr@),
{
    let line = trim_string(first_line_or(stderr, "").as_str());
    let mut s = "provider executor exited with status ".to_owned();
    s.append(status);
    if line.as_str().is_empty() {
        return s;
    }
    let hidden = text_contains(&chars_of(line.as_str()), &chars_of("sk-"));
    if !hidden {
        s.append(": ");
        s.append(line.as_str());
    }
    s
}

/// What is said of a process that failed, given its error output.
pub fn provider_exit_message(status: &str, stderr: &[u8]) -> (s: String)
    ensures
        s@ == exit_message(status@, lossy_text(stderr@)),
{
    exit_message_of(status, lossy_string(stderr).as_str())
}

/// A key in the error output of a process is not shown: unless it is in the status,
/// the mark of a key does not stand in the message.
pub proof fn law_exit_messages_show_no_key(status: Seq<char>, stderr: Seq<char>)
    requires
        !contains_text(status, "sk-"@),
    ensures
        !contains_text(exit_message(status, stderr), "sk-"@),
{
    let key = "sk-"@;
    let head = "provider executor exited with status "@;
    let line = trimmed(first_line(stderr, ""@));
    reveal_strlit("sk-");
    reveal_strlit(": ");
    reveal_strlit("provider executor exited with status ");
    assert(!contains_text(head, key)) by {
        if contains_text(head, key) {
            let i = choose|i: int| crate::text::occurs_at(head, key, i);
            assert(head.subrange(i, i + 3)[2] == '-');
            assert(head[i + 2] == '-');
        }
    }
    assert(!contains_text(head + status, key)) by {
        if contains_text(head + status, key) {
            let i = choose|i: int| crate::text::occurs_at(head + status, key, i);
            let n = head.len() as int;
            let s = head + status;
            if i + 3 <= n {
                assert(head.subrange(i, i + 3) =~= s.subrange(i, i + 3));
                assert(crate::text::occurs_at(head, key, i));
            } else if i >= n {
                assert(status.subrange(i - n, i - n + 3) =~= s.subrange(i, i + 3));
                assert(crate::text::occurs_at(status, key, i - n));
            } else {
                assert(s.subrange(i, i + 3)[n - 1 - i] == ' ');
                assert(key[n - 1 - i] == ' ');
            }
        }
    }
    if line.len() > 0 && !contains_text(line, key) {
        assert(!contains_text(": "@, key)) by {
            if contains_text(": "@, key) {
                let i = choose|i: int| crate::text::occurs_at(": "@, key, i);
            }
        }
        assert(foreign_to(key, ": "@));
        lemma_no_text_across_marker(head + status, ": "@, line, key);
    }
}

/// The error of a text before which a message is set.
pub open spec fn stage_error(
    code: ProviderErrorCode,
    stage: Seq<char>,
    message: Seq<char>,
) -> ProviderErrorView {
    own_error(code, stage + message)
}

fn stage_failed(code: ProviderErrorCode, stage: &str, message: &str) -> (e: ProviderError)
    ensures
        e@ == stage_error(code, stage@, message@),
{
    let mut s = stage.to_owned();
    s.append(message);
    ProviderError::new(code, s.as_str())
}

/// The line of the output that is the answer: the first that is not blank.
pub fn response_line(stdout: &str) -> (r: Result<String, ProviderError>)
    ensures
        match r {
            Ok(line) => full_lines(stdout@).len() > 0 && line@ == full_lines(stdout@)[0],
            Err(e) => full_lines(stdout@).len() == 0 && e@ == own_error(
                ProviderErrorCode::StreamInterrupted,
                "provider executor emitted no response"@,
            ),
        },
{
    let lines = response_lines(stdout);
    assert(texts(lines@).len() == lines@.len());
    if lines.len() == 0 {
        return Err(
            ProviderError::new(
                ProviderErrorCode::StreamInterrupted,
                "provider executor emitted no response",
            ),
        );
    }
    assert(texts(lines@)[0] == lines@[0]@);
    Ok(lines[0].clone())
}

/// The error for an answer that cannot be read.
pub fn response_decode_error(message: &str) -> (e: ProviderError)
    ensures
        e@ == stage_error(
            ProviderErrorCode::StreamInterrupted,
            "provider response decode failed: "@,
            message@,
        ),
{
    stage_failed(
        ProviderErrorCode::StreamInterrupted,
        "provider response decode failed: ",
        message,
    )
}

/// The error for an event that cannot be read.
pub fn event_decode_error(message: &str) -> (e: ProviderError)
    ensures
        e@ == stage_error(
            ProviderErrorCode::StreamInterrupted,
            "provider stream event decode failed: "@,
            message@,
        ),
{
    stage_failed(
        ProviderErrorCode::StreamInterrupted,
        "provider stream event decode failed: ",
        message,
    )
}

/// How far a call has come.
#[derive(Debug)]
pub enum CallPhase {
    /// The process is to be started.
    Starting,
    /// The request is to be written.
    Sending,
    /// The whole answer is awaited.
    Waiting,
    /// Lines are read; whether an event came by now.
    Reading { emitted: bool },
    /// The output is closed and the exit is awaited.
    Closing { emitted: bool },
    /// The process was killed; what is left of it is to be collected.
    Stopping,
    /// The process has exited; what is left of it is to be collected.
    Ending { success: bool, status: String, emitted: bool },
    /// There is nothing more to do.
    Over,
}

pub enum CallPhaseView {
    Starting,
    Sending,
    Waiting,
    Reading { emitted: bool },
    Closing { emitted: bool },
    Stopping,
    Ending { success: bool, status: Seq<char>, emitted: bool },
    Over,
}

impl View for CallPhase {
    type V = CallPhaseView;

    open spec fn view(&self) -> CallPhaseView {
        match self {
            CallPhase::Starting => CallPhaseView::Starting,
            CallPhase::Sending => CallPhaseView::Sending,
            CallPhase::Waiting => CallPhaseView::Waiting,
            CallPhase::Reading { emitted } => CallPhaseView::Reading { emitted: *emitted },
            CallPhase::Closing { emitted } => CallPhaseView::Closing { emitted: *emitted },
            CallPhase::Stopping => CallPhaseView::Stopping,
            CallPhase::Ending { success, status, emitted } => CallPhaseView::Ending {
                success: *success,
                status: status@,
                emitted: *emitted,
            },
            CallPhase::Over => CallPhaseView::Over,
        }
    }
}

/// What has become of the work that was asked for.
#[derive(Debug)]
pub enum CallEvent {
    NotStarted { message: String },
    Started,
    /// The request could not be turned into text.
    NotEncoded { message: String },
    NotSent { message: String },
    Sent,
    /// The process has no output to read from.
    NoOutput,
    /// A line of the output came.
    Line { text: String },
    /// The event was handed on, and taken.
    Taken,
    /// The event was handed on, and refused.
    Refused { error: ProviderError },
    ReadFailed { message: String },
    /// No line came in time.
    Quiet,
    /// The output has come to its end.
    Closed,
    /// How long the call has taken.
    Looked { elapsed_ns: u128 },
    WaitFailed { message: String },
    /// The process did not exit in time.
    StillRunning,
    Exited { success: bool, status: String },
    Collected { stdout: Vec<u8>, stderr: Vec<u8> },
}

/// The work that a call needs next.
#[derive(Debug)]
pub enum CallAction {
    /// Write the request.
    Send,
    /// Receive a line, for at most ten milliseconds.
    Receive,
    /// Read the event in the line that came, and hand it on.
    Emit,
    /// See how long the call has taken.
    Look,
    /// Wait for the process to exit for at most this time.
    Wait { at_most_ns: u128 },
    /// Kill the process with all that it has started, and collect its output.
    Kill,
    /// Collect the output.
    Collect,
    /// The call is over, with the output of the process.
    Finish(Result<String, ProviderError>),
    /// The event does not belong here.
    Ignore,
}

pub enum CallActionView {
    Send,
    Receive,
    Emit,
    Look,
    Wait { at_most_ns: u128 },
    Kill,
    Collect,
    Finish(Result<Seq<char>, ProviderErrorView>),
    Ignore,
}

impl View for CallAction {
    type V = CallActionView;

    open spec fn view(&self) -> CallActionView {
        match self {
            CallAction::Send => CallActionView::Send,
            CallAction::Receive => CallActionView::Receive,
            CallAction::Emit => CallActionView::Emit,
            CallAction::Look => CallActionView::Look,
            CallAction::Wait { at_most_ns } => CallActionView::Wait { at_most_ns: *at_most_ns },
            CallAction::Kill => CallActionView::Kill,
            CallAction::Collect => CallActionView::Collect,
            CallAction::Finish(Ok(s)) => CallActionView::Finish(Ok(s@)),
            CallAction::Finish(Err(e)) => CallActionView::Finish(Err(e@)),
            CallAction::Ignore => CallActionView::Ignore,
        }
    }
}

pub open spec fn call_failed(error: ProviderErrorView) -> (CallPhaseView, CallActionView) {
    (CallPhaseView::Over, CallActionView::Finish(Err(error)))
}

pub open spec fn timeout_error() -> ProviderErrorView {
    own_error(ProviderErrorCode::Timeout, "provider executor timeout"@)
}

/// The steps that both kinds of call have in common: until the request is sent, and
/// from the exit of the process. `sent` is what comes after the request was sent.
pub open spec fn common_step(
    phase: CallPhaseView,
    event: CallEvent,
    sent: (CallPhaseView, CallActionView),
) -> (CallPhaseView, CallActionView) {
    match (phase, event) {
        (CallPhaseView::Starting, CallEvent::NotStarted { message }) => call_failed(
            stage_error(
                ProviderErrorCode::ServerError,
                "provider executor spawn failed: "@,
                message@,
            ),
        ),
        (CallPhaseView::Starting, CallEvent::Started) => (
            CallPhaseView::Sending,
            CallActionView::Send,
        ),
        (CallPhaseView::Sending, CallEvent::NotEncoded { message }) => call_failed(
            stage_error(
                ProviderErrorCode::BadRequest,
                "provider request serialization failed: "@,
                message@,
            ),
        ),
        (CallPhaseView::Sending, CallEvent::NotSent { message }) => call_failed(
            stage_error(
                ProviderErrorCode::ServerError,
                "provider request write failed: "@,
                message@,
            ),
        ),
        (CallPhaseView::Sending, CallEvent::Sent) => sent,
        (CallPhaseView::Waiting, CallEvent::WaitFailed { message }) => call_failed(
            stage_error(
                ProviderErrorCode::ServerError,
                "provider executor wait failed: "@,
                message@,
            ),
        ),
        (CallPhaseView::Waiting, CallEvent::StillRunning) => (
            CallPhaseView::Stopping,
            CallActionView::Kill,
        ),
        (CallPhaseView::Stopping, CallEvent::Collected { .. }) => call_failed(timeout_error()),
        _ => (phase, CallActionView::Ignore),
    }
}

/// What a call for a whole answer does next.
pub open spec fn answer_step(timeout_ms: u64, phase: CallPhaseView, event: CallEvent) -> (
    CallPhaseView,
    CallActionView,
) {
    match (phase, event) {
        (CallPhaseView::Waiting, CallEvent::Exited { success, status }) => (
            CallPhaseView::Ending { success, status: status@, emitted: true },
            CallActionView::Collect,
        ),
        (CallPhaseView::Ending { success, status, .. }, CallEvent::Collected { stdout, stderr }) =>
            if !success {
                call_failed(
                    own_error(
                        ProviderErrorCode::ServerError,
                        exit_message(status, lossy_text(stderr@)),
                    ),
                )
            } else if vstd::utf8::valid_utf8(stdout@) {
                (
                    CallPhaseView::Over,
                    CallActionView::Finish(Ok(vstd::utf8::decode_utf8(stdout@))),
                )
            } else {
                call_failed(
                    stage_error(
                        ProviderErrorCode::StreamInterrupted,
                        "provider executor emitted non-utf8 stdout: "@,
                        utf8_fault(stdout@),
                    ),
                )
            },
        _ => common_step(
            phase,
            event,
            (
                CallPhaseView::Waiting,
                CallActionView::Wait { at_most_ns: (timeout_ms * 1_000_000) as u128 },
            ),
        ),
    }
}

/// What a call that streams does next.
pub open spec fn stream_step(timeout_ms: u64, phase: CallPhaseView, event: CallEvent) -> (
    CallPhaseView,
    CallActionView,
) {
    match (phase, event) {
        (CallPhaseView::Reading { emitted: false }, CallEvent::NoOutput) => call_failed(
            own_error(
                ProviderErrorCode::ServerError,
                "provider executor stdout unavailable"@,
            ),
        ),
        (CallPhaseView::Reading { emitted }, CallEvent::Line { text }) => if trimmed(text@).len()
            == 0 {
            (phase, CallActionView::Receive)
        } else {
            (CallPhaseView::Reading { emitted: true }, CallActionView::Emit)
        },
        (CallPhaseView::Reading { .. }, CallEvent::Taken) => (phase, CallActionView::Look),
        (CallPhaseView::Reading { .. }, CallEvent::Refused { error }) => call_failed(error@),
        (CallPhaseView::Reading { .. }, CallEvent::ReadFailed { message }) => call_failed(
            stage_error(
                ProviderErrorCode::StreamInterrupted,
                "provider stdout read failed: "@,
                message@,
            ),
        ),
        (CallPhaseView::Reading { .. }, CallEvent::Quiet) => (phase, CallActionView::Look),
        (CallPhaseView::Reading { .. }, CallEvent::Looked { elapsed_ns }) => if elapsed_ns
            > timeout_ms * 1_000_000 {
            (CallPhaseView::Stopping, CallActionView::Kill)
        } else {
            (phase, CallActionView::Receive)
        },
        (CallPhaseView::Reading { emitted }, CallEvent::Closed) => (
            CallPhaseView::Closing { emitted },
            CallActionView::Look,
        ),
        (CallPhaseView::Closing { .. }, CallEvent::Looked { elapsed_ns }) => (
            phase,
            CallActionView::Wait {
                at_most_ns: if elapsed_ns >= timeout_ms * 1_000_000 {
                    0
                } else {
                    (timeout_ms * 1_000_000 - elapsed_ns) as u128
                },
            },
        ),
        (CallPhaseView::Closing { .. }, CallEvent::WaitFailed { message }) => call_failed(
            stage_error(
                ProviderErrorCode::ServerError,
                "provider executor wait failed: "@,
                message@,
            ),
        ),
        (CallPhaseView::Closing { .. }, CallEvent::StillRunning) => (
            CallPhaseView::Stopping,
            CallActionView::Kill,
        ),
        (CallPhaseView::Closing { emitted }, CallEvent::Exited { success, status }) => (
            CallPhaseView::Ending { success, status: status@, emitted },
            CallActionView::Collect,
        ),
        (
            CallPhaseView::Ending { success, status, emitted },
            CallEvent::Collected { stdout, stderr },
        ) => if !success {
            call_failed(
                own_error(
                    ProviderErrorCode::ServerError,
                    exit_message(status, lossy_text(stderr@)),
                ),
            )
        } else if !emitted {
            call_failed(
                own_error(
                    ProviderErrorCode::StreamInterrupted,
                    "provider executor emitted no stream events"@,
                ),
            )
        } else {
            (CallPhaseView::Over, CallActionView::Finish(Ok(Seq::empty())))
        },
        _ => common_step(
            phase,
            event,
            (CallPhaseView::Reading { emitted: false }, CallActionView::Receive),
        ),
    }
}

/// What a call of either kind does next.
pub open spec fn call_step(
    streams: bool,
    timeout_ms: u64,
    phase: CallPhaseView,
    event: CallEvent,
) -> (CallPhaseView, CallActionView) {
    if streams {
        stream_step(timeout_ms, phase, event)
    } else {
        answer_step(timeout_ms, phase, event)
    }
}

/// A call of a provider that runs as a process.
#[derive(Debug)]
pub struct ProviderCall {
    streams: bool,
    timeout_ms: u64,
    phase: CallPhase,
}

impl ProviderCall {
    pub closed spec fn for_stream(self) -> bool {
        self.streams
    }

    pub closed spec fn timeout(self) -> u64 {
        self.timeout_ms
    }

    pub closed spec fn stage(self) -> CallPhaseView {
        self.phase@
    }

    /// A call for a whole answer, whose process is to be started.
    pub fn answer(timeout_ms: u64) -> (c: Self)
        ensures
            !c.for_stream(),
            c.timeout() == timeout_ms,
            c.stage() == CallPhaseView::Starting,
    {
        ProviderCall { streams: false, timeout_ms, phase: CallPhase::Starting }
    }

    /// A call that streams, whose process is to be started.
    pub fn stream(timeout_ms: u64) -> (c: Self)
        ensures
            c.for_stream(),
            c.timeout() == timeout_ms,
            c.stage() == CallPhaseView::Starting,
    {
        ProviderCall { streams: true, timeout_ms, phase: CallPhase::Starting }
    }

    /// Takes in what has become of the last action and says what to do next.
    pub fn step(&mut self, event: CallEvent) -> (a: CallAction)
        ensures
            final(self).for_stream() == old(self).for_stream(),
            final(self).timeout() == old(self).timeout(),
            (final(self).stage(), a@) == call_step(
                old(self).for_stream(),
                old(self).timeout(),
                old(self).stage(),
                event,
            ),
    {
        let mut phase = CallPhase::Over;
        std::mem::swap(&mut phase, &mut self.phase);
        let (next, action) = if self.streams {
            stream_next(self.timeout_ms, phase, event)
        } else {
            answer_next(self.timeout_ms, phase, event)
        };
        self.phase = next;
        action
    }
}

fn common_next(phase: CallPhase, event: CallEvent, sent: (CallPhase, CallAction)) -> (r: (
    CallPhase,
    CallAction,
))
    ensures
        (r.0@, r.1@) == common_step(phase@, event, (sent.0@, sent.1@)),
{
    match (phase, event) {
        (CallPhase::Starting, CallEvent::NotStarted { message }) => (
            CallPhase::Over,
            CallAction::Finish(
                Err(
                    stage_failed(
                        ProviderErrorCode::ServerError,
                        "provider executor spawn failed: ",
                        message.as_str(),
                    ),
                ),
            ),
        ),
        (CallPhase::Starting, CallEvent::Started) => (CallPhase::Sending, CallAction::Send),
        (CallPhase::Sending, CallEvent::NotEncoded { message }) => (
            CallPhase::Over,
            CallAction::Finish(
                Err(
                    stage_failed(
                        ProviderErrorCode::BadRequest,
                        "provider request serialization failed: ",
                        message.as_str(),
                    ),
                ),
            ),
        ),
        (CallPhase::Sending, CallEvent::NotSent { message }) => (
            CallPhase::Over,
            CallAction::Finish(
                Err(
                    stage_failed(
                        ProviderErrorCode::ServerError,
                        "provider request write failed: ",
                        message.as_str(),
                    ),
                ),
            ),
        ),
        (CallPhase::Sending, CallEvent::Sent) => sent,
        (CallPhase::Waiting, CallEvent::WaitFailed { message }) => wait_failed(message.as_str()),
        (CallPhase::Waiting, CallEvent::StillRunning) => (CallPhase::Stopping, CallAction::Kill),
        (CallPhase::Stopping, CallEvent::Collected { stdout: _, stderr: _ }) => (
            CallPhase::Over,
            CallAction::Finish(
                Err(ProviderError::new(ProviderErrorCode::Timeout, "provider executor timeout")),
            ),
        ),
        (phase, _) => (phase, CallAction::Ignore),
    }
}

fn wait_failed(message: &str) -> (r: (CallPhase, CallAction))
    ensures
        (r.0@, r.1@) == call_failed(
            stage_error(
                ProviderErrorCode::ServerError,
                "provider executor wait failed: "@,
                message@,
            ),
        ),
{
    (
        CallPhase::Over,
        CallAction::Finish(
            Err(
                stage_failed(
                    ProviderErrorCode::ServerError,
                    "provider executor wait failed: ",
                    message,
                ),
            ),
        ),
    )
}

fn exit_failed(status: &str, stderr: &[u8]) -> (r: (CallPhase, CallAction))
    ensures
        (r.0@, r.1@) == call_failed(
            own_error(
                ProviderErrorCode::ServerError,
                exit_message(status@, lossy_text(stderr@)),
            ),
        ),
{
    (
        CallPhase::Over,
        CallAction::Finish(
            Err(
                ProviderError::new(
                    ProviderErrorCode::ServerError,
                    provider_exit_message(status, stderr).as_str(),
                ),
            ),
        ),
    )
}

fn answer_next(timeout_ms: u64, phase: CallPhase, event: CallEvent) -> (r: (CallPhase, CallAction))
    ensures
        (r.0@, r.1@) == answer_step(timeout_ms, phase@, event),
{
    match (phase, event) {
        (CallPhase::Waiting, CallEvent::Exited { success, status }) => (
            CallPhase::Ending { success, status, emitted: true },
            CallAction::Collect,
        ),
        (
            CallPhase::Ending { success, status, emitted: _ },
            CallEvent::Collected { stdout, stderr },
        ) => {
            if !success {
                return exit_failed(status.as_str(), &stderr);
            }
            match utf8_string(stdout) {
                Ok(text) => (CallPhase::Over, CallAction::Finish(Ok(text))),
                Err(message) => (
                    CallPhase::Over,
                    CallAction::Finish(
                        Err(
                            stage_failed(
                                ProviderErrorCode::StreamInterrupted,
                                "provider executor emitted non-utf8 stdout: ",
                                message.as_str(),
                            ),
                        ),
                    ),
                ),
            }
        },
        (phase, event) => common_next(
            phase,
            event,
            (CallPhase::Waiting, CallAction::Wait { at_most_ns: timeout_ms as u128 * 1_000_000 }),
        ),
    }
}

fn stream_next(timeout_ms: u64, phase: CallPhase, event: CallEvent) -> (r: (CallPhase, CallAction))
    ensures
        (r.0@, r.1@) == stream_step(timeout_ms, phase@, event),
{
    let timeout_ns: u128 = timeout_ms as u128 * 1_000_000;
    match (phase, event) {
        (CallPhase::Reading { emitted: false }, CallEvent::NoOutput) => (
            CallPhase::Over,
            CallAction::Finish(
                Err(
                    ProviderError::new(
                        ProviderErrorCode::ServerError,
                        "provider executor stdout unavailable",
                    ),
                ),
            ),
        ),
        (CallPhase::Reading { emitted }, CallEvent::Line { text }) => {
            let line = trim_string(text.as_str());
            if line.as_str().is_empty() {
                (CallPhase::Reading { emitted }, CallAction::Receive)
            } else {
                (CallPhase::Reading { emitted: true }, CallAction::Emit)
            }
        },
        (CallPhase::Reading { emitted }, CallEvent::Taken) => (
            CallPhase::Reading { emitted },
            CallAction::Look,
        ),
        (CallPhase::Reading { emitted: _ }, CallEvent::Refused { error }) => (
            CallPhase::Over,
            CallAction::Finish(Err(error)),
        ),
        (CallPhase::Reading { emitted: _ }, CallEvent::ReadFailed { message }) => (
            CallPhase::Over,
            CallAction::Finish(
                Err(
                    stage_failed(
                        ProviderErrorCode::StreamInterrupted,
                        "provider stdout read failed: ",
                        message.as_str(),
                    ),
                ),
            ),
        ),
        (CallPhase::Reading { emitted }, CallEvent::Quiet) => (
            CallPhase::Reading { emitted },
            CallAction::Look,
        ),
        (CallPhase::Reading { emitted }, CallEvent::Looked { elapsed_ns }) => {
            if elapsed_ns > timeout_ns {
                (CallPhase::Stopping, CallAction::Kill)
            } else {
                (CallPhase::Reading { emitted }, CallAction::Receive)
            }
        },
        (CallPhase::Reading { emitted }, CallEvent::Closed) => (
            CallPhase::Closing { emitted },
            CallAction::Look,
        ),
        (CallPhase::Closing { emitted }, CallEvent::Looked { elapsed_ns }) => (
            CallPhase::Closing { emitted },
            CallAction::Wait {
                at_most_ns: if elapsed_ns >= timeout_ns {
                    0
                } else {
                    timeout_ns - elapsed_ns
                },
            },
        ),
        (CallPhase::Closing { emitted: _ }, CallEvent::WaitFailed { message }) => wait_failed(
            message.as_str(),
        ),
        (CallPhase::Closing { emitted: _ }, CallEvent::StillRunning) => (
            CallPhase::Stopping,
            CallAction::Kill,
        ),
        (CallPhase::Closing { emitted }, CallEvent::Exited { success, status }) => (
            CallPhase::Ending { success, status, emitted },
            CallAction::Collect,
        ),
        (
            CallPhase::Ending { success, status, emitted },
            CallEvent::Collected { stdout: _, stderr },
        ) => {
            if !success {
                return exit_failed(status.as_str(), &stderr);
            }
            if !emitted {
                return (
                    CallPhase::Over,
                    CallAction::Finish(
                        Err(
                            ProviderError::new(
                                ProviderErrorCode::StreamInterrupted,
                                "provider executor emitted no stream events",
                            ),
                        ),
                    ),
                );
            }
            let nothing = String::new();
            assert(nothing@ =~= Seq::empty());
            (CallPhase::Over, CallAction::Finish(Ok(nothing)))
        },
        (phase, event) => common_next(
            phase,
            event,
            (CallPhase::Reading { emitted: false }, CallAction::Receive),
        ),
    }
}

/// A call that is over stays over, and its end is told once.
pub proof fn law_a_call_ends_once(
    streams: bool,
    timeout_ms: u64,
    phase: CallPhaseView,
    event: CallEvent,
)
    ensures
        ({
            let (next, action) = call_step(streams, timeout_ms, phase, event);
            &&& (action is Finish) ==> !(phase is Over) && next is Over
            &&& !(phase is Over) && next is Over ==> action is Finish
            &&& phase is Over ==> next is Over && action is Ignore
        }),
{
}

/// A process that does not exit in time is killed, and the call ends with a timeout
/// that is worth another attempt.
pub proof fn law_a_slow_process_is_killed(
    streams: bool,
    timeout_ms: u64,
    phase: CallPhaseView,
    collected: CallEvent,
)
    requires
        if streams {
            phase is Closing
        } else {
            phase is Waiting
        },
        collected is Collected,
    ensures
        ({
            let (stopping, action) = call_step(
                streams,
                timeout_ms,
                phase,
                CallEvent::StillRunning,
            );
            &&& action is Kill
            &&& call_step(streams, timeout_ms, stopping, collected) == call_failed(timeout_error())
            &&& timeout_error().retryable
        }),
{
}

/// A stream ends well only after an event was handed on.
pub proof fn law_a_stream_is_not_empty(timeout_ms: u64, phase: CallPhaseView, event: CallEvent)
    ensures
        match stream_step(timeout_ms, phase, event).1 {
            CallActionView::Finish(Ok(_)) => phase is Ending && phase->Ending_emitted,
            _ => true,
        },
        match stream_step(timeout_ms, phase, event).0 {
            CallPhaseView::Reading { emitted: true } => phase == (CallPhaseView::Reading {
                emitted: true,
            }) || stream_step(timeout_ms, phase, event).1 is Emit,
            _ => true,
        },
{
}

/// A call for a whole answer, from its start to its end: the request is sent, the process
/// has the time that it is given, and what it wrote is the answer. A process that failed is
/// reported as an error of the server that names its status.
pub proof fn law_a_call_gives_what_the_process_wrote(
    timeout_ms: u64,
    exited: CallEvent,
    collected: CallEvent,
)
    requires
        exited is Exited,
        collected is Collected,
    ensures
        answer_step(timeout_ms, CallPhaseView::Starting, CallEvent::Started) == (
            CallPhaseView::Sending,
            CallActionView::Send,
        ),
        answer_step(timeout_ms, CallPhaseView::Sending, CallEvent::Sent) == (
            CallPhaseView::Waiting,
            CallActionView::Wait { at_most_ns: (timeout_ms * 1_000_000) as u128 },
        ),
        ({
            let (ending, action) = answer_step(timeout_ms, CallPhaseView::Waiting, exited);
            let (over, end) = answer_step(timeout_ms, ending, collected);
            &&& action is Collect
            &&& over is Over
            &&& end is Finish
            &&& exited->success && vstd::utf8::valid_utf8(collected->stdout@) ==> end
                == CallActionView::Finish(Ok(vstd::utf8::decode_utf8(collected->stdout@)))
            &&& exited->success && !vstd::utf8::valid_utf8(collected->stdout@) ==> match end {
                CallActionView::Finish(Err(e)) => e.code == ProviderErrorCode::StreamInterrupted
                    && e.retryable,
                _ => false,
            }
            &&& !exited->success ==> match end {
                CallActionView::Finish(Err(e)) => e.code == ProviderErrorCode::ServerError
                    && e.retryable && contains_text(e.message, exited->status@),
                _ => false,
            }
        }),
{
    if !exited->success {
        lemma_exit_message_names_the_status(exited->status@, lossy_text(collected->stderr@));
    }
}

proof fn lemma_exit_message_names_the_status(status: Seq<char>, stderr: Seq<char>)
    ensures
        contains_text(exit_message(status, stderr), status),
{
    let head = "provider executor exited with status "@;
    let line = trimmed(first_line(stderr, ""@));
    let message = exit_message(status, stderr);
    let rest = if line.len() == 0 || contains_text(line, "sk-"@) {
        Seq::empty()
    } else {
        ": "@ + line
    };
    crate::text::lemma_contains_middle(head, status, rest);
    assert(message =~= head + status + rest);
}

/// What is said of a process that failed ends with the first line of its error output,
/// where that is not blank and may be shown.
pub proof fn law_the_error_output_is_shown(status: Seq<char>, stderr: Seq<char>)
    ensures
        ({
            let line = trimmed(first_line(stderr, ""@));
            line.len() > 0 && !contains_text(line, "sk-"@) ==> line.is_suffix_of(
                exit_message(status, stderr),
            )
        }),
        contains_text(exit_message(status, stderr), status),
{
    lemma_exit_message_names_the_status(status, stderr);
    let line = trimmed(first_line(stderr, ""@));
    let m = exit_message(status, stderr);
    if line.len() > 0 && !contains_text(line, "sk-"@) {
        assert(m.subrange(m.len() - line.len(), m.len() as int) =~= line);
    }
}

/// A stream, line by line: each line that is not blank is handed on, a blank one is passed
/// over, and after each the time is looked at; when it is used up the process is killed.
pub proof fn law_each_line_of_a_stream_is_handed_on(
    timeout_ms: u64,
    emitted: bool,
    line: CallEvent,
    elapsed_ns: u128,
)
    requires
        line is Line,
    ensures
        stream_step(timeout_ms, CallPhaseView::Sending, CallEvent::Sent) == (
            CallPhaseView::Reading { emitted: false },
            CallActionView::Receive,
        ),
        ({
            let reading = CallPhaseView::Reading { emitted };
            let (next, action) = stream_step(timeout_ms, reading, line);
            &&& trimmed(line->text@).len() > 0 ==> action is Emit && next
                == CallPhaseView::Reading { emitted: true }
            &&& trimmed(line->text@).len() == 0 ==> action is Receive && next == reading
            &&& stream_step(timeout_ms, reading, CallEvent::Taken) == (
                reading,
                CallActionView::Look,
            )
            &&& stream_step(timeout_ms, reading, CallEvent::Quiet) == (
                reading,
                CallActionView::Look,
            )
            &&& elapsed_ns <= timeout_ms * 1_000_000 ==> stream_step(
                timeout_ms,
                reading,
                CallEvent::Looked { elapsed_ns },
            ) == (reading, CallActionView::Receive)
            &&& elapsed_ns > timeout_ms * 1_000_000 ==> stream_step(
                timeout_ms,
                reading,
                CallEvent::Looked { elapsed_ns },
            ).1 is Kill
        }),
{
}

/// The end of a stream: the process has the rest of the time to exit; the call has
/// succeeded if it exits well and anything was handed on.
pub proof fn law_how_a_stream_ends(
    timeout_ms: u64,
    emitted: bool,
    exited: CallEvent,
    collected: CallEvent,
    elapsed_ns: u128,
)
    requires
        exited is Exited,
        collected is Collected,
    ensures
        ({
            let (closing, action) = stream_step(
                timeout_ms,
                CallPhaseView::Reading { emitted },
                CallEvent::Closed,
            );
            let (waiting, wait) = stream_step(
                timeout_ms,
                closing,
                CallEvent::Looked { elapsed_ns },
            );
            let (ending, collect) = stream_step(timeout_ms, waiting, exited);
            let (over, end) = stream_step(timeout_ms, ending, collected);
            &&& action is Look
            &&& match wait {
                CallActionView::Wait { at_most_ns } => {
                    &&& elapsed_ns < timeout_ms * 1_000_000 ==> at_most_ns + elapsed_ns
                        == timeout_ms * 1_000_000
                    &&& elapsed_ns >= timeout_ms * 1_000_000 ==> at_most_ns == 0
                },
                _ => false,
            }
            &&& collect is Collect
            &&& over is Over
            &&& match end {
                CallActionView::Finish(Ok(_)) => exited->success && emitted,
                CallActionView::Finish(Err(e)) => {
                    &&& !exited->success ==> e.code == ProviderErrorCode::ServerError
                    &&& exited->success ==> !emitted && e.code
                        == ProviderErrorCode::StreamInterrupted
                },
                _ => false,
            }
        }),
{
}

/// How calls fail before and while the process runs: what comes from outside is in the
/// message, a request that cannot be written down is not tried again, and a process that
/// takes too long ends as a timeout.
pub proof fn law_how_calls_fail(streams: bool, timeout_ms: u64, event: CallEvent, collected: CallEvent)
    requires
        collected is Collected,
    ensures
        match event {
            CallEvent::NotStarted { message } => match call_step(
                streams,
                timeout_ms,
                CallPhaseView::Starting,
                event,
            ) {
                (CallPhaseView::Over, CallActionView::Finish(Err(e))) => e.code
                    == ProviderErrorCode::ServerError && message@.is_suffix_of(e.message),
                _ => false,
            },
            CallEvent::NotEncoded { message } => match call_step(
                streams,
                timeout_ms,
                CallPhaseView::Sending,
                event,
            ) {
                (CallPhaseView::Over, CallActionView::Finish(Err(e))) => e.code
                    == ProviderErrorCode::BadRequest && !e.retryable && message@.is_suffix_of(
                    e.message,
                ),
                _ => false,
            },
            CallEvent::NotSent { message } => match call_step(
                streams,
                timeout_ms,
                CallPhaseView::Sending,
                event,
            ) {
                (CallPhaseView::Over, CallActionView::Finish(Err(e))) => e.code
                    == ProviderErrorCode::ServerError && message@.is_suffix_of(e.message),
                _ => false,
            },
            CallEvent::Refused { error } => streams ==> forall|emitted: bool|
                #![trigger call_step(
                    streams,
                    timeout_ms,
                    CallPhaseView::Reading { emitted },
                    event,
                )]
                call_step(streams, timeout_ms, CallPhaseView::Reading { emitted }, event) == (
                    CallPhaseView::Over,
                    CallActionView::Finish(Err(error@)),
                ),
            _ => true,
        },
        call_step(streams, timeout_ms, CallPhaseView::Waiting, CallEvent::StillRunning).1 is Kill
            || streams,
        match call_step(streams, timeout_ms, CallPhaseView::Stopping, collected) {
            (CallPhaseView::Over, CallActionView::Finish(Err(e))) => e.code
                == ProviderErrorCode::Timeout && e.retryable,
            _ => false,
        },
{
    match event {
        CallEvent::NotStarted { message } => {
            lemma_ends_with("provider executor spawn failed: "@, message@);
        },
        CallEvent::NotEncoded { message } => {
            lemma_ends_with("provider request serialization failed: "@, message@);
        },
        CallEvent::NotSent { message } => {
            lemma_ends_with("provider request write failed: "@, message@);
        },
        _ => {},
    }
}

proof fn lemma_ends_with(a: Seq<char>, b: Seq<char>)
    ensures
        b.is_suffix_of(a + b),
{
    let s = a + b;
    assert(s.subrange(s.len() - b.len(), s.len() as int) =~= b);
}

/// A failure tells at which stage the call failed, and what was reported there.
pub proof fn law_failures_tell_their_stage(
    code: ProviderErrorCode,
    stage: Seq<char>,
    message: Seq<char>,
)
    ensures
        stage_error(code, stage, message).code == code,
        stage_error(code, stage, message).message.len() == stage.len() + message.len(),
        stage.is_prefix_of(stage_error(code, stage, message).message),
        message.is_suffix_of(stage_error(code, stage, message).message),
{
    let whole = stage_error(code, stage, message).message;
    assert(whole.subrange(0, stage.len() as int) =~= stage);
    assert(whole.subrange(whole.len() - message.len(), whole.len() as int) =~= message);
}

} // verus!
