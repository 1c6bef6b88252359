//! Bridges to tool servers that speak JSON over their standard streams: a bridge that
//! is run for one request, and servers that stay and answer request after request.
use vstd::prelude::*;

use crate::json::{
    json_from_str, json_integer, json_read, json_to_string, json_written, lemma_shows, read_view,
    shows, Json, JsonNumber, JsonView,
};
use crate::output::{first_line, first_line_or};
use crate::process::{exit_code, exit_code_of, ProcessMark, ProcessMarkView};
use crate::text::{lossy_string, lossy_text, trim_string, trimmed};

verus! {

#[derive(Debug, Clone)]
pub struct McpBridgeRequest {
    pub bridge_id: String,
    pub program: String,
    pub args: Vec<String>,
    pub cwd: Option<String>,
    pub payload: Json,
    pub timeout_ms: u64,
}

#[derive(Debug, Clone, PartialEq, Eq)]
pub enum McpBridgeError {
    MissingProgram,
    SpawnFailed(String),
    WriteFailed(String),
    Timeout,
    Failed(String),
    InvalidJson(String),
}

pub enum McpErrorView {
    MissingProgram,
    SpawnFailed(Seq<char>),
    WriteFailed(Seq<char>),
    Timeout,
    Failed(Seq<char>),
    InvalidJson(Seq<char>),
}

impl View for McpBridgeError {
    type V = McpErrorView;

    open spec fn view(&self) -> McpErrorView {
        match self {
            McpBridgeError::MissingProgram => McpErrorView::MissingProgram,
            McpBridgeError::SpawnFailed(s) => McpErrorView::SpawnFailed(s@),
            McpBridgeError::WriteFailed(s) => McpErrorView::WriteFailed(s@),
            McpBridgeError::Timeout => McpErrorView::Timeout,
            McpBridgeError::Failed(s) => McpErrorView::Failed(s@),
            McpBridgeError::InvalidJson(s) => McpErrorView::InvalidJson(s@),
        }
    }
}

/// What a server that was started has answered.
#[derive(Debug)]
pub struct McpServerStartResult {
    pub initialized: Json,
    pub tools_response: Json,
}

/// An object with the kind of an error.
pub open spec fn kind_json(kind: Seq<char>) -> JsonView {
    JsonView::Object(seq![("kind"@, JsonView::String(kind))])
}

pub open spec fn error_kind(error: McpErrorView) -> Seq<char> {
    match error {
        McpErrorView::MissingProgram => "missing_program"@,
        McpErrorView::SpawnFailed(_) => "spawn_failed"@,
        McpErrorView::WriteFailed(_) => "write_failed"@,
        McpErrorView::Timeout => "timeout"@,
        McpErrorView::Failed(_) => "failed"@,
        McpErrorView::InvalidJson(_) => "invalid_json"@,
    }
}

/// The kind of an error, for callers that act on it; its message is left out.
pub fn mcp_error_payload(error: &McpBridgeError) -> (v: Json)
    ensures
        v@ == kind_json(error_kind(error@)),
{
    let kind = match error {
        McpBridgeError::MissingProgram => "missing_program",
        McpBridgeError::SpawnFailed(_) => "spawn_failed",
        McpBridgeError::WriteFailed(_) => "write_failed",
        McpBridgeError::Timeout => "timeout",
        McpBridgeError::Failed(_) => "failed",
        McpBridgeError::InvalidJson(_) => "invalid_json",
    };
    let v = Json::object().with("kind", Json::text(kind));
    assert(v@->Object_0 =~= kind_json(error_kind(error@))->Object_0);
    v
}

pub open spec fn error_message(error: McpErrorView) -> Seq<char> {
    match error {
        McpErrorView::MissingProgram => "MCP bridge program is missing"@,
        McpErrorView::SpawnFailed(m) => "MCP bridge spawn failed: "@ + m,
        McpErrorView::WriteFailed(m) => "MCP bridge write failed: "@ + m,
        McpErrorView::Timeout => "MCP bridge timed out"@,
        McpErrorView::Failed(m) => "MCP bridge failed: "@ + m,
        McpErrorView::InvalidJson(m) => "MCP bridge returned invalid JSON: "@ + m,
    }
}

fn prefixed(prefix: &str, message: &str) -> (s: String)
    ensures
        s@ == prefix@ + message@,
{
    let mut s = prefix.to_owned();
    s.append(message);
    s
}

pub fn mcp_error_message(error: &McpBridgeError) -> (s: String)
    ensures
        s@ == error_message(error@),
{
    match error {
        McpBridgeError::MissingProgram => "MCP bridge program is missing".to_owned(),
        McpBridgeError::SpawnFailed(m) => prefixed("MCP bridge spawn failed: ", m.as_str()),
        McpBridgeError::WriteFailed(m) => prefixed("MCP bridge write failed: ", m.as_str()),
        McpBridgeError::Timeout => "MCP bridge timed out".to_owned(),
        McpBridgeError::Failed(m) => prefixed("MCP bridge failed: ", m.as_str()),
        McpBridgeError::InvalidJson(m) => prefixed(
            "MCP bridge returned invalid JSON: ",
            m.as_str(),
        ),
    }
}

/// What a text says as JSON, given what was read from the text without the white
/// space around it.
pub open spec fn decoded(read: Result<JsonView, Seq<char>>) -> Result<JsonView, McpErrorView> {
    match read {
        Ok(v) => Ok(v),
        Err(m) => Err(McpErrorView::InvalidJson(m)),
    }
}

/// The view of what an exchange gives.
pub open spec fn reply_view(r: Result<Json, McpBridgeError>) -> Result<JsonView, McpErrorView> {
    match r {
        Ok(v) => Ok(v@),
        Err(e) => Err(e@),
    }
}

/// An answer that was read, or that cannot be read.
pub fn decode_reply(read: Result<Json, String>) -> (r: Result<Json, McpBridgeError>)
    ensures
        reply_view(r) == decoded(read_view(read)),
{
    match read {
        Ok(v) => Ok(v),
        Err(m) => Err(McpBridgeError::InvalidJson(m)),
    }
}

/// The line in which a request is sent.
pub fn request_line(payload: &Json) -> (s: String)
    ensures
        s@ == json_written(payload@) + "\n"@,
{
    let mut s = json_to_string(payload);
    s.append("\n");
    s
}

/// How far a bridge that is run for one request has come.
#[derive(Debug, Clone, Copy, PartialEq, Eq, Structural)]
pub enum BridgePhase {
    /// The process is to be started.
    Starting,
    /// The process is to be noted.
    Noting,
    /// The request is to be written.
    Sending,
    /// The exit is awaited.
    Waiting,
    /// The process is to be killed.
    Stopping,
    /// The output is to be collected.
    Collecting,
    /// There is nothing more to do.
    Over,
}

/// What has become of the work that was asked for.
#[derive(Debug)]
pub enum BridgeEvent {
    NotStarted { message: String },
    Started,
    NotNoted { message: String },
    Noted,
    NotSent { message: String },
    Sent,
    WaitFailed { message: String },
    StillRunning,
    Exited,
    Killed,
    NotCollected { message: String },
    Collected { success: bool, code: Option<i32>, stdout: Vec<u8>, stderr: Vec<u8> },
}

/// The work that a bridge needs next.
#[derive(Debug)]
pub enum BridgeAction {
    Start,
    Note,
    /// Write this line to the process and close its input.
    Send { line: String },
    /// Wait for the process to exit for at most this time.
    Wait { at_most_ms: u64 },
    Kill,
    Collect,
    /// The bridge is done: what it gives, and what is noted of its process.
    Finish { result: Result<Json, McpBridgeError>, mark: ProcessMark },
    /// The event does not belong here.
    Ignore,
}

pub enum BridgeActionView {
    Start,
    Note,
    Send { line: Seq<char> },
    Wait { at_most_ms: u64 },
    Kill,
    Collect,
    Finish { result: Result<JsonView, McpErrorView>, mark: ProcessMarkView },
    Ignore,
}

impl View for BridgeAction {
    type V = BridgeActionView;

    open spec fn view(&self) -> BridgeActionView {
        match self {
            BridgeAction::Start => BridgeActionView::Start,
            BridgeAction::Note => BridgeActionView::Note,
            BridgeAction::Send { line } => BridgeActionView::Send { line: line@ },
            BridgeAction::Wait { at_most_ms } => BridgeActionView::Wait { at_most_ms: *at_most_ms },
            BridgeAction::Kill => BridgeActionView::Kill,
            BridgeAction::Collect => BridgeActionView::Collect,
            BridgeAction::Finish { result, mark } => BridgeActionView::Finish {
                result: reply_view(*result),
                mark: mark@,
            },
            BridgeAction::Ignore => BridgeActionView::Ignore,
        }
    }
}

/// What a bridge gives back of an answer.
pub open spec fn bridge_json(bridge_id: Seq<char>, code: i32, response: JsonView) -> JsonView {
    JsonView::Object(
        seq![
            ("bridge_id"@, JsonView::String(bridge_id)),
            ("exit_code"@, json_integer(code as i64)),
            ("response"@, response),
        ],
    )
}

pub open spec fn bridge_failed(error: McpErrorView, mark: ProcessMarkView) -> (
    BridgePhase,
    BridgeActionView,
) {
    (BridgePhase::Over, BridgeActionView::Finish { result: Err(error), mark })
}

/// What comes of the output of a process, given what was read from its standard
/// output and the text of its error output.
pub open spec fn bridge_outcome(
    bridge_id: Seq<char>,
    success: bool,
    code: Option<i32>,
    read: Result<JsonView, Seq<char>>,
    stderr: Seq<char>,
) -> (Result<JsonView, McpErrorView>, ProcessMarkView) {
    if success {
        (
            match decoded(read) {
                Ok(response) => Ok(bridge_json(bridge_id, exit_code(code), response)),
                Err(e) => Err(e),
            },
            ProcessMarkView::Completed(exit_code(code)),
        )
    } else {
        let line = first_line(stderr, "mcp bridge failed"@);
        (Err(McpErrorView::Failed(line)), ProcessMarkView::Failed(line))
    }
}

pub fn bridge_result(
    bridge_id: &str,
    success: bool,
    code: Option<i32>,
    read: Result<Json, String>,
    stderr: &str,
) -> (r: (Result<Json, McpBridgeError>, ProcessMark))
    ensures
        (reply_view(r.0), r.1@) == bridge_outcome(
            bridge_id@,
            success,
            code,
            read_view(read),
            stderr@,
        ),
{
    if success {
        let exit: i32 = exit_code_of(code);
        let mark = ProcessMark::Completed(exit);
        match decode_reply(read) {
            Ok(response) => {
                let v = Json::object().with("bridge_id", Json::text(bridge_id)).with(
                    "exit_code",
                    Json::integer(exit as i64),
                ).with("response", response);
                assert(v@->Object_0 =~= bridge_json(bridge_id@, exit, response@)->Object_0);
                (Ok(v), mark)
            },
            Err(e) => (Err(e), mark),
        }
    } else {
        let line = first_line_or(stderr, "mcp bridge failed");
        (Err(McpBridgeError::Failed(line.clone())), ProcessMark::Failed(line))
    }
}

/// What a bridge does next.
pub open spec fn bridge_step(
    bridge_id: Seq<char>,
    line: Seq<char>,
    timeout_ms: u64,
    phase: BridgePhase,
    event: BridgeEvent,
) -> (BridgePhase, BridgeActionView) {
    match (phase, event) {
        (BridgePhase::Starting, BridgeEvent::NotStarted { message }) => bridge_failed(
            McpErrorView::SpawnFailed(message@),
            ProcessMarkView::Untouched,
        ),
        (BridgePhase::Starting, BridgeEvent::Started) => (
            BridgePhase::Noting,
            BridgeActionView::Note,
        ),
        (BridgePhase::Noting, BridgeEvent::NotNoted { message }) => bridge_failed(
            McpErrorView::SpawnFailed(message@),
            ProcessMarkView::Untouched,
        ),
        (BridgePhase::Noting, BridgeEvent::Noted) => (
            BridgePhase::Sending,
            BridgeActionView::Send { line },
        ),
        (BridgePhase::Sending, BridgeEvent::NotSent { message }) => bridge_failed(
            McpErrorView::WriteFailed(message@),
            ProcessMarkView::Untouched,
        ),
        (BridgePhase::Sending, BridgeEvent::Sent) => (
            BridgePhase::Waiting,
            BridgeActionView::Wait { at_most_ms: timeout_ms },
        ),
        (BridgePhase::Waiting, BridgeEvent::WaitFailed { message }) => bridge_failed(
            McpErrorView::Failed(message@),
            ProcessMarkView::Failed(error_message(McpErrorView::Failed(message@))),
        ),
        (BridgePhase::Waiting, BridgeEvent::StillRunning) => (
            BridgePhase::Stopping,
            BridgeActionView::Kill,
        ),
        (BridgePhase::Stopping, BridgeEvent::Killed) => bridge_failed(
            McpErrorView::Timeout,
            ProcessMarkView::Failed(error_message(McpErrorView::Timeout)),
        ),
        (BridgePhase::Waiting, BridgeEvent::Exited) => (
            BridgePhase::Collecting,
            BridgeActionView::Collect,
        ),
        (BridgePhase::Collecting, BridgeEvent::NotCollected { message }) => bridge_failed(
            McpErrorView::Failed(message@),
            ProcessMarkView::Untouched,
        ),
        (BridgePhase::Collecting, BridgeEvent::Collected { success, code, stdout, stderr }) => {
            let (result, mark) = bridge_outcome(
                bridge_id,
                success,
                code,
                json_read(trimmed(lossy_text(stdout@))),
                lossy_text(stderr@),
            );
            (BridgePhase::Over, BridgeActionView::Finish { result, mark })
        },
        _ => (phase, BridgeActionView::Ignore),
    }
}

/// A bridge that is run for one request.
#[derive(Debug)]
pub struct McpBridgeRunner {
    bridge_id: String,
    line: String,
    timeout_ms: u64,
    phase: BridgePhase,
}

impl McpBridgeRunner {
    pub closed spec fn id(self) -> Seq<char> {
        self.bridge_id@
    }

    pub closed spec fn input(self) -> Seq<char> {
        self.line@
    }

    pub closed spec fn timeout(self) -> u64 {
        self.timeout_ms
    }

    pub closed spec fn stage(self) -> BridgePhase {
        self.phase
    }

    /// A bridge for a request, whose process is to be started; refused if the request
    /// names no program.
    pub fn invoke(request: &McpBridgeRequest) -> (r: Result<Self, McpBridgeError>)
        ensures
            match r {
                Ok(run) => {
                    &&& request.program@.len() > 0
                    &&& run.id() == request.bridge_id@
                    &&& run.input() == json_written(request.payload@) + "\n"@
                    &&& run.timeout() == request.timeout_ms
                    &&& run.stage() == BridgePhase::Starting
                },
                Err(e) => request.program@.len() == 0 && e@ == McpErrorView::MissingProgram,
            },
    {
        if request.program.as_str().is_empty() {
            return Err(McpBridgeError::MissingProgram);
        }
        Ok(
            McpBridgeRunner {
                bridge_id: request.bridge_id.clone(),
                line: request_line(&request.payload),
                timeout_ms: request.timeout_ms,
                phase: BridgePhase::Starting,
            },
        )
    }

    /// Takes in what has become of the last action and says what to do next.
    pub fn step(&mut self, event: BridgeEvent) -> (a: BridgeAction)
        ensures
            final(self).id() == old(self).id(),
            final(self).input() == old(self).input(),
            final(self).timeout() == old(self).timeout(),
            (final(self).stage(), a@) == bridge_step(
                old(self).id(),
                old(self).input(),
                old(self).timeout(),
                old(self).stage(),
                event,
            ),
    {
        match (self.phase, event) {
            (BridgePhase::Starting, BridgeEvent::NotStarted { message }) => {
                self.phase = BridgePhase::Over;
                BridgeAction::Finish {
                    result: Err(McpBridgeError::SpawnFailed(message)),
                    mark: ProcessMark::Untouched,
                }
            },
            (BridgePhase::Starting, BridgeEvent::Started) => {
                self.phase = BridgePhase::Noting;
                BridgeAction::Note
            },
            (BridgePhase::Noting, BridgeEvent::NotNoted { message }) => {
                self.phase = BridgePhase::Over;
                BridgeAction::Finish {
                    result: Err(McpBridgeError::SpawnFailed(message)),
                    mark: ProcessMark::Untouched,
                }
            },
            (BridgePhase::Noting, BridgeEvent::Noted) => {
                self.phase = BridgePhase::Sending;
                BridgeAction::Send { line: self.line.clone() }
            },
            (BridgePhase::Sending, BridgeEvent::NotSent { message }) => {
                self.phase = BridgePhase::Over;
                BridgeAction::Finish {
                    result: Err(McpBridgeError::WriteFailed(message)),
                    mark: ProcessMark::Untouched,
                }
            },
            (BridgePhase::Sending, BridgeEvent::Sent) => {
                self.phase = BridgePhase::Waiting;
                BridgeAction::Wait { at_most_ms: self.timeout_ms }
            },
            (BridgePhase::Waiting, BridgeEvent::WaitFailed { message }) => {
                self.phase = BridgePhase::Over;
                let error = McpBridgeError::Failed(message);
                let note = mcp_error_message(&error);
                BridgeAction::Finish { result: Err(error), mark: ProcessMark::Failed(note) }
            },
            (BridgePhase::Waiting, BridgeEvent::StillRunning) => {
                self.phase = BridgePhase::Stopping;
                BridgeAction::Kill
            },
            (BridgePhase::Stopping, BridgeEvent::Killed) => {
                self.phase = BridgePhase::Over;
                let error = McpBridgeError::Timeout;
                let note = mcp_error_message(&error);
                BridgeAction::Finish { result: Err(error), mark: ProcessMark::Failed(note) }
            },
            (BridgePhase::Waiting, BridgeEvent::Exited) => {
                self.phase = BridgePhase::Collecting;
                BridgeAction::Collect
            },
            (BridgePhase::Collecting, BridgeEvent::NotCollected { message }) => {
                self.phase = BridgePhase::Over;
                BridgeAction::Finish {
                    result: Err(McpBridgeError::Failed(message)),
                    mark: ProcessMark::Untouched,
                }
            },
            (
                BridgePhase::Collecting,
                BridgeEvent::Collected { success, code, stdout, stderr },
            ) => {
                self.phase = BridgePhase::Over;
                let text = lossy_string(&stdout);
                let (result, mark) = bridge_result(
                    self.bridge_id.as_str(),
                    success,
                    code,
                    json_from_str(trim_string(text.as_str()).as_str()),
                    lossy_string(&stderr).as_str(),
                );
                BridgeAction::Finish { result, mark }
            },
            _ => BridgeAction::Ignore,
        }
    }
}

/// A bridge that is done stays done, and gives its result once.
pub proof fn law_a_bridge_ends_once(
    bridge_id: Seq<char>,
    line: Seq<char>,
    timeout_ms: u64,
    phase: BridgePhase,
    event: BridgeEvent,
)
    ensures
        ({
            let (next, action) = bridge_step(bridge_id, line, timeout_ms, phase, event);
            &&& (action is Finish) ==> !(phase is Over) && next is Over
            &&& !(phase is Over) && next is Over ==> action is Finish
            &&& phase is Over ==> next is Over && action is Ignore
        }),
{
}

/// What came back from a server after a line was sent to it.
#[derive(Debug)]
pub enum ExchangeEvent {
    NotSent { message: String },
    Line { text: String },
    ReadFailed { message: String },
    /// Nothing came in time.
    Quiet,
    /// The output has come to its end.
    Closed,
}

/// What an exchange gives, given what was read from the line that came.
pub open spec fn exchanged(event: ExchangeEvent, read: Result<JsonView, Seq<char>>) -> Result<
    JsonView,
    McpErrorView,
> {
    match event {
        ExchangeEvent::NotSent { message } => Err(McpErrorView::WriteFailed(message@)),
        ExchangeEvent::Line { .. } => decoded(read),
        ExchangeEvent::ReadFailed { message } => Err(McpErrorView::Failed(message@)),
        ExchangeEvent::Quiet => Err(McpErrorView::Timeout),
        ExchangeEvent::Closed => Err(McpErrorView::Failed("MCP server stdout closed"@)),
    }
}

/// What is read from the line of an exchange, without the white space around it.
pub open spec fn line_read(event: ExchangeEvent) -> Result<JsonView, Seq<char>> {
    match event {
        ExchangeEvent::Line { text } => json_read(trimmed(text@)),
        _ => Ok(JsonView::Null),
    }
}

/// What an exchange with a server gives.
pub fn exchange_result(event: ExchangeEvent) -> (r: Result<Json, McpBridgeError>)
    ensures
        reply_view(r) == exchanged(event, line_read(event)),
{
    match event {
        ExchangeEvent::NotSent { message } => Err(McpBridgeError::WriteFailed(message)),
        ExchangeEvent::Line { text } => decode_reply(
            json_from_str(trim_string(text.as_str()).as_str()),
        ),
        ExchangeEvent::ReadFailed { message } => Err(McpBridgeError::Failed(message)),
        ExchangeEvent::Quiet => Err(McpBridgeError::Timeout),
        ExchangeEvent::Closed => Err(
            McpBridgeError::Failed("MCP server stdout closed".to_owned()),
        ),
    }
}

/// A server that fails in this way is stopped.
pub open spec fn stops_server(error: McpErrorView) -> bool {
    error is Timeout || error is Failed || error is WriteFailed
}

/// The reason for which a server that stays is stopped after a call, if it is.
pub open spec fn stop_reason(reply: Result<JsonView, McpErrorView>) -> Option<Seq<char>> {
    match reply {
        Ok(_) => None,
        Err(e) => if stops_server(e) {
            Some(error_message(e))
        } else {
            None
        },
    }
}

/// A call of a server that runs: what it gives, and the reason to stop the server.
pub fn call_result(event: ExchangeEvent) -> (r: (Result<Json, McpBridgeError>, Option<String>))
    ensures
        reply_view(r.0) == exchanged(event, line_read(event)),
        crate::text::opt_text(r.1) == stop_reason(exchanged(event, line_read(event))),
{
    let result = exchange_result(event);
    let reason = stop_reason_of(&result);
    (result, reason)
}

pub fn stop_reason_of(result: &Result<Json, McpBridgeError>) -> (r: Option<String>)
    ensures
        crate::text::opt_text(r) == stop_reason(reply_view(*result)),
{
    match result {
        Ok(_) => None,
        Err(e) => match e {
            McpBridgeError::Timeout
            | McpBridgeError::Failed(_)
            | McpBridgeError::WriteFailed(_) => Some(mcp_error_message(e)),
            McpBridgeError::MissingProgram
            | McpBridgeError::SpawnFailed(_)
            | McpBridgeError::InvalidJson(_) => None,
        },
    }
}

/// A call of a server that does not run.
pub fn not_running_error() -> (e: McpBridgeError)
    ensures
        e@ == McpErrorView::Failed("MCP server is not running"@),
{
    McpBridgeError::Failed("MCP server is not running".to_owned())
}

/// The request that asks a server for its tools.
pub open spec fn tools_list_json() -> JsonView {
    JsonView::Object(
        seq![
            ("id"@, JsonView::Number(JsonNumber::Unsigned(2))),
            ("jsonrpc"@, JsonView::String("2.0"@)),
            ("method"@, JsonView::String("tools/list"@)),
        ],
    )
}

pub fn tools_list_request() -> (v: Json)
    ensures
        v@ == tools_list_json(),
{
    let v = Json::object().with("id", Json::number(2)).with("jsonrpc", Json::text("2.0")).with(
        "method",
        Json::text("tools/list"),
    );
    assert(v@->Object_0 =~= tools_list_json()->Object_0);
    v
}

/// How far the start of a server has come.
#[derive(Debug)]
pub enum StartPhase {
    /// An old server of the same name is to be stopped and the new one started.
    Starting,
    /// The server is to answer the first request.
    Greeting,
    /// The server is to list its tools.
    Listing { initialized: Json },
    /// There is nothing more to do.
    Over,
}

pub enum StartPhaseView {
    Starting,
    Greeting,
    Listing { initialized: JsonView },
    Over,
}

impl View for StartPhase {
    type V = StartPhaseView;

    open spec fn view(&self) -> StartPhaseView {
        match self {
            StartPhase::Starting => StartPhaseView::Starting,
            StartPhase::Greeting => StartPhaseView::Greeting,
            StartPhase::Listing { initialized } => StartPhaseView::Listing {
                initialized: initialized@,
            },
            StartPhase::Over => StartPhaseView::Over,
        }
    }
}

/// What has become of the work that was asked for.
#[derive(Debug)]
pub enum StartEvent {
    /// The server was not started; why.
    NotStarted { message: String },
    /// The server runs, but has no input to write to.
    NoStdin,
    NoStdout,
    Started,
    /// What came back for the line that was sent.
    Exchanged(ExchangeEvent),
}

/// The work that the start of a server needs next.
#[derive(Debug)]
pub enum StartAction {
    /// Send this line to the server and receive one.
    Exchange { line: String },
    /// The server was not started; what is noted of its process.
    Refuse { error: McpBridgeError, mark: ProcessMark },
    /// Stop the server, note this reason, and give back the error.
    Abandon { error: McpBridgeError, note: String },
    /// Keep the server.
    Keep(McpServerStartResult),
    /// The event does not belong here.
    Ignore,
}

pub enum StartActionView {
    Exchange { line: Seq<char> },
    Refuse { error: McpErrorView, mark: ProcessMarkView },
    Abandon { error: McpErrorView, note: Seq<char> },
    Keep { initialized: JsonView, tools_response: JsonView },
    Ignore,
}

impl View for StartAction {
    type V = StartActionView;

    open spec fn view(&self) -> StartActionView {
        match self {
            StartAction::Exchange { line } => StartActionView::Exchange { line: line@ },
            StartAction::Refuse { error, mark } => StartActionView::Refuse {
                error: error@,
                mark: mark@,
            },
            StartAction::Abandon { error, note } => StartActionView::Abandon {
                error: error@,
                note: note@,
            },
            StartAction::Keep(r) => StartActionView::Keep {
                initialized: r.initialized@,
                tools_response: r.tools_response@,
            },
            StartAction::Ignore => StartActionView::Ignore,
        }
    }
}

pub open spec fn abandoned(error: McpErrorView) -> (StartPhaseView, StartActionView) {
    (StartPhaseView::Over, StartActionView::Abandon { error, note: error_message(error) })
}

/// A process that cannot be talked to is noted as failed.
pub open spec fn unusable(message: Seq<char>) -> (StartPhaseView, StartActionView) {
    (
        StartPhaseView::Over,
        StartActionView::Refuse {
            error: McpErrorView::SpawnFailed(message),
            mark: ProcessMarkView::Failed(message),
        },
    )
}

/// What the start of a server does next; `greeting` is the line of the first request.
pub open spec fn start_step(greeting: Seq<char>, phase: StartPhaseView, event: StartEvent) -> (
    StartPhaseView,
    StartActionView,
) {
    match (phase, event) {
        (StartPhaseView::Starting, StartEvent::NotStarted { message }) => (
            StartPhaseView::Over,
            StartActionView::Refuse {
                error: McpErrorView::SpawnFailed(message@),
                mark: ProcessMarkView::Untouched,
            },
        ),
        (StartPhaseView::Starting, StartEvent::NoStdin) => unusable("mcp stdin unavailable"@),
        (StartPhaseView::Starting, StartEvent::NoStdout) => unusable("mcp stdout unavailable"@),
        (StartPhaseView::Starting, StartEvent::Started) => (
            StartPhaseView::Greeting,
            StartActionView::Exchange { line: greeting },
        ),
        (StartPhaseView::Greeting, StartEvent::Exchanged(event)) => match exchanged(
            event,
            line_read(event),
        ) {
            Ok(v) => (
                StartPhaseView::Listing { initialized: v },
                StartActionView::Exchange { line: json_written(tools_list_json()) + "\n"@ },
            ),
            Err(e) => abandoned(e),
        },
        (StartPhaseView::Listing { initialized }, StartEvent::Exchanged(event)) => match exchanged(
            event,
            line_read(event),
        ) {
            Ok(v) => (
                StartPhaseView::Over,
                StartActionView::Keep { initialized, tools_response: v },
            ),
            Err(e) => abandoned(e),
        },
        _ => (phase, StartActionView::Ignore),
    }
}

/// The start of a server that stays.
#[derive(Debug)]
pub struct McpServerStart {
    greeting: String,
    phase: StartPhase,
}

impl McpServerStart {
    pub closed spec fn first_line(self) -> Seq<char> {
        self.greeting@
    }

    pub closed spec fn stage(self) -> StartPhaseView {
        self.phase@
    }

    /// The start of the server of a request; refused if the request names no program.
    pub fn start_server(request: &McpBridgeRequest) -> (r: Result<Self, McpBridgeError>)
        ensures
            match r {
                Ok(start) => {
                    &&& request.program@.len() > 0
                    &&& start.first_line() == json_written(request.payload@) + "\n"@
                    &&& start.stage() == StartPhaseView::Starting
                },
                Err(e) => request.program@.len() == 0 && e@ == McpErrorView::MissingProgram,
            },
    {
        if request.program.as_str().is_empty() {
            return Err(McpBridgeError::MissingProgram);
        }
        Ok(
            McpServerStart {
                greeting: request_line(&request.payload),
                phase: StartPhase::Starting,
            },
        )
    }

    /// Takes in what has become of the last action and says what to do next.
    pub fn step(&mut self, event: StartEvent) -> (a: StartAction)
        ensures
            final(self).first_line() == old(self).first_line(),
            (final(self).stage(), a@) == start_step(
                old(self).first_line(),
                old(self).stage(),
                event,
            ),
    {
        let mut phase = StartPhase::Over;
        std::mem::swap(&mut phase, &mut self.phase);
        match (phase, event) {
            (StartPhase::Starting, StartEvent::NotStarted { message }) => StartAction::Refuse {
                error: McpBridgeError::SpawnFailed(message),
                mark: ProcessMark::Untouched,
            },
            (StartPhase::Starting, StartEvent::NoStdin) => StartAction::Refuse {
                error: McpBridgeError::SpawnFailed("mcp stdin unavailable".to_owned()),
                mark: ProcessMark::Failed("mcp stdin unavailable".to_owned()),
            },
            (StartPhase::Starting, StartEvent::NoStdout) => StartAction::Refuse {
                error: McpBridgeError::SpawnFailed("mcp stdout unavailable".to_owned()),
                mark: ProcessMark::Failed("mcp stdout unavailable".to_owned()),
            },
            (StartPhase::Starting, StartEvent::Started) => {
                self.phase = StartPhase::Greeting;
                StartAction::Exchange { line: self.greeting.clone() }
            },
            (StartPhase::Greeting, StartEvent::Exchanged(event)) => match exchange_result(event) {
                Ok(v) => {
                    self.phase = StartPhase::Listing { initialized: v };
                    StartAction::Exchange { line: request_line(&tools_list_request()) }
                },
                Err(error) => {
                    let note = mcp_error_message(&error);
                    StartAction::Abandon { error, note }
                },
            },
            (StartPhase::Listing { initialized }, StartEvent::Exchanged(event)) => {
                match exchange_result(event) {
                    Ok(v) => StartAction::Keep(
                        McpServerStartResult { initialized, tools_response: v },
                    ),
                    Err(error) => {
                        let note = mcp_error_message(&error);
                        StartAction::Abandon { error, note }
                    },
                }
            },
            (phase, _) => {
                self.phase = phase;
                StartAction::Ignore
            },
        }
    }
}

/// A server is kept only after it has answered the first request and listed its tools;
/// an answer that fails leaves no server behind.
pub proof fn law_only_servers_that_answer_are_kept(
    greeting: Seq<char>,
    phase: StartPhaseView,
    event: StartEvent,
)
    ensures
        ({
            let (next, action) = start_step(greeting, phase, event);
            &&& (action is Keep) ==> phase is Listing && event is Exchanged && next is Over
                && action->initialized == phase->initialized
            &&& (phase is Greeting || phase is Listing) && next is Over ==> action is Keep
                || action is Abandon
        }),
{
}

/// A bridge, from its start to its end: the request is sent as one line, the process has its
/// time, and what it wrote, read as JSON, is the answer, with its exit code. One that fails
/// gives the first line of its error output; one whose answer is no JSON, why it is none.
pub proof fn law_a_bridge_gives_the_answer(
    bridge_id: Seq<char>,
    line: Seq<char>,
    timeout_ms: u64,
    collected: BridgeEvent,
    v: JsonView,
    fault: Seq<char>,
)
    requires
        collected is Collected,
    ensures
        bridge_step(bridge_id, line, timeout_ms, BridgePhase::Noting, BridgeEvent::Noted) == (
            BridgePhase::Sending,
            BridgeActionView::Send { line },
        ),
        bridge_step(bridge_id, line, timeout_ms, BridgePhase::Sending, BridgeEvent::Sent) == (
            BridgePhase::Waiting,
            BridgeActionView::Wait { at_most_ms: timeout_ms },
        ),
        bridge_step(bridge_id, line, timeout_ms, BridgePhase::Waiting, BridgeEvent::Exited) == (
            BridgePhase::Collecting,
            BridgeActionView::Collect,
        ),
        bridge_step(
            bridge_id,
            line,
            timeout_ms,
            BridgePhase::Waiting,
            BridgeEvent::StillRunning,
        ).1 is Kill,
        match bridge_step(
            bridge_id,
            line,
            timeout_ms,
            BridgePhase::Stopping,
            BridgeEvent::Killed,
        ) {
            (over, BridgeActionView::Finish { result, mark }) => over == BridgePhase::Over
                && result == Err::<JsonView, McpErrorView>(McpErrorView::Timeout) && mark is Failed,
            _ => false,
        },
        match bridge_step(bridge_id, line, timeout_ms, BridgePhase::Collecting, collected) {
            (over, BridgeActionView::Finish { result, mark }) => {
                let read = json_read(trimmed(lossy_text(collected->stdout@)));
                &&& over == BridgePhase::Over
                &&& collected->success && read == Ok::<JsonView, Seq<char>>(v) ==> result is Ok
                    && shows(result->Ok_0, "response"@, v) && shows(
                    result->Ok_0,
                    "bridge_id"@,
                    JsonView::String(bridge_id),
                ) && result->Ok_0->Object_0.len() == 3 && mark is Completed
                &&& collected->success && read == Err::<JsonView, Seq<char>>(fault) ==> result
                    == Err::<JsonView, McpErrorView>(McpErrorView::InvalidJson(fault))
                &&& !collected->success ==> match result {
                    Err(McpErrorView::Failed(m)) => {
                        &&& m == first_line(lossy_text(collected->stderr@), "mcp bridge failed"@)
                        &&& mark == ProcessMarkView::Failed(m)
                    },
                    _ => false,
                }
            },
            _ => false,
        },
{
    let read = json_read(trimmed(lossy_text(collected->stdout@)));
    if collected->success && read == Ok::<JsonView, Seq<char>>(v) {
        let r = bridge_outcome(
            bridge_id,
            true,
            collected->code,
            read,
            lossy_text(collected->stderr@),
        ).0->Ok_0;
        lemma_shows(r, 0);
        lemma_shows(r, 2);
    }
}

/// A start of a server, step by step: it is greeted, what it answers is kept, it is asked for
/// its tools, and both answers are given back. What a line says is read without the white
/// space around it.
pub proof fn law_a_server_is_greeted_and_asked_for_its_tools(
    greeting: Seq<char>,
    first: ExchangeEvent,
    second: ExchangeEvent,
    a: JsonView,
    b: JsonView,
)
    requires
        first is Line,
        second is Line,
        json_read(trimmed(first->text@)) == Ok::<JsonView, Seq<char>>(a),
        json_read(trimmed(second->text@)) == Ok::<JsonView, Seq<char>>(b),
    ensures
        start_step(greeting, StartPhaseView::Starting, StartEvent::Started) == (
            StartPhaseView::Greeting,
            StartActionView::Exchange { line: greeting },
        ),
        ({
            let (listing, ask) = start_step(
                greeting,
                StartPhaseView::Greeting,
                StartEvent::Exchanged(first),
            );
            let (over, keep) = start_step(greeting, listing, StartEvent::Exchanged(second));
            &&& ask is Exchange
            &&& over is Over
            &&& keep == (StartActionView::Keep { initialized: a, tools_response: b })
        }),
        shows(tools_list_json(), "method"@, JsonView::String("tools/list"@)),
        shows(tools_list_json(), "jsonrpc"@, JsonView::String("2.0"@)),
{
    lemma_shows(tools_list_json(), 1);
    lemma_shows(tools_list_json(), 2);
}

/// What an exchange gives, by what came: the value that the line says, or an error that
/// tells why there is none. A server that fell silent, failed or took no input is stopped,
/// for the reason that is reported; one that wrote something else than JSON is not.
pub proof fn law_what_an_exchange_gives(event: ExchangeEvent, v: JsonView, m: Seq<char>)
    ensures
        match event {
            ExchangeEvent::NotSent { message } => exchanged(event, line_read(event)) == Err::<
                JsonView,
                McpErrorView,
            >(McpErrorView::WriteFailed(message@)),
            ExchangeEvent::Line { text } => {
                &&& json_read(trimmed(text@)) == Ok::<JsonView, Seq<char>>(v) ==> exchanged(
                    event,
                    line_read(event),
                ) == Ok::<JsonView, McpErrorView>(v)
                &&& json_read(trimmed(text@)) == Err::<JsonView, Seq<char>>(m) ==> exchanged(
                    event,
                    line_read(event),
                ) == Err::<JsonView, McpErrorView>(McpErrorView::InvalidJson(m))
            },
            ExchangeEvent::ReadFailed { message } => exchanged(event, line_read(event)) == Err::<
                JsonView,
                McpErrorView,
            >(McpErrorView::Failed(message@)),
            ExchangeEvent::Quiet => exchanged(event, line_read(event)) == Err::<
                JsonView,
                McpErrorView,
            >(McpErrorView::Timeout),
            ExchangeEvent::Closed => exchanged(event, line_read(event)) is Err,
        },
        stop_reason(Ok(v)) is None,
        stop_reason(Err(McpErrorView::InvalidJson(m))) is None,
        stop_reason(Err(McpErrorView::Timeout)) == Some(error_message(McpErrorView::Timeout)),
        stop_reason(Err(McpErrorView::Failed(m))) == Some(error_message(McpErrorView::Failed(m))),
        stop_reason(Err(McpErrorView::WriteFailed(m))) == Some(
            error_message(McpErrorView::WriteFailed(m)),
        ),
        m.is_suffix_of(error_message(McpErrorView::Failed(m))),
        m.is_suffix_of(error_message(McpErrorView::WriteFailed(m))),
        m.is_suffix_of(error_message(McpErrorView::SpawnFailed(m))),
        m.is_suffix_of(error_message(McpErrorView::InvalidJson(m))),
{
    lemma_message_ends_with("MCP bridge failed: "@, m);
    lemma_message_ends_with("MCP bridge write failed: "@, m);
    lemma_message_ends_with("MCP bridge spawn failed: "@, m);
    lemma_message_ends_with("MCP bridge returned invalid JSON: "@, m);
}

proof fn lemma_message_ends_with(a: Seq<char>, m: Seq<char>)
    ensures
        m.is_suffix_of(a + m),
{
    let s = a + m;
    assert(s.subrange(s.len() - m.len(), s.len() as int) =~= m);
}

/// The kinds of errors as callers see them.
pub proof fn law_how_errors_are_told(m: Seq<char>)
    ensures
        error_kind(McpErrorView::MissingProgram) == "missing_program"@,
        error_kind(McpErrorView::SpawnFailed(m)) == "spawn_failed"@,
        error_kind(McpErrorView::WriteFailed(m)) == "write_failed"@,
        error_kind(McpErrorView::Timeout) == "timeout"@,
        error_kind(McpErrorView::Failed(m)) == "failed"@,
        error_kind(McpErrorView::InvalidJson(m)) == "invalid_json"@,
        shows(kind_json(m), "kind"@, JsonView::String(m)),
        kind_json(m)->Object_0.len() == 1,
{
    lemma_shows(kind_json(m), 0);
}

} // verus!
