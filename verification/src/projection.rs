//! What a client that connects is told: the events it missed, or the whole state.
use vstd::prelude::*;

use crate::event_log::{
    events_after, gap_message, gap_message_text, law_replay_is_complete_and_ordered, log_wf,
    LogView, MAX_REPLAY_EVENTS,
};
use crate::json::{
    json_from_str, json_integer, json_opt_text, json_read, json_views, lemma_shows, read_view,
    shows, Json, JsonNumber, JsonView,
};
use crate::protocol::event::{clone_events, event_views, EventEnvelope, EventView};
use crate::protocol::snapshot::{SnapshotEnvelope, SnapshotView};
use crate::protocol::types::{EventSeq, Generation, Timestamp};
use crate::text::{decimal, decimal_string, opt_text};

verus! {

/// How many items of each kind a snapshot lists at most.
pub const SNAPSHOT_COLLECTION_LIMIT: i64 = 500;

/// What a client that connects is told.
#[derive(Debug)]
pub enum ConnectResult {
    /// The events that the client missed.
    Delta { events: Vec<EventEnvelope>, latest_seq: EventSeq },
    /// The client has to ask for the whole state.
    SnapshotRequired { message: String, latest_seq: EventSeq },
}

pub enum ConnectResultView {
    Delta { events: Seq<EventView>, latest_seq: u64 },
    SnapshotRequired { message: Seq<char>, latest_seq: u64 },
}

impl View for ConnectResult {
    type V = ConnectResultView;

    open spec fn view(&self) -> ConnectResultView {
        match self {
            ConnectResult::Delta { events, latest_seq } => ConnectResultView::Delta {
                events: event_views(events@),
                latest_seq: *latest_seq,
            },
            ConnectResult::SnapshotRequired { message, latest_seq } => {
                ConnectResultView::SnapshotRequired { message: message@, latest_seq: *latest_seq }
            },
        }
    }
}

impl Clone for ConnectResult {
    fn clone(&self) -> (r: Self)
        ensures
            r@ == self@,
    {
        match self {
            ConnectResult::Delta { events, latest_seq } => ConnectResult::Delta {
                events: clone_events(events),
                latest_seq: *latest_seq,
            },
            ConnectResult::SnapshotRequired { message, latest_seq } => {
                ConnectResult::SnapshotRequired {
                    message: message.clone(),
                    latest_seq: *latest_seq,
                }
            },
        }
    }
}

/// Why the events that a client missed cannot be sent one by one, if they cannot: the
/// client is ahead of the log, or the events are dropped, or they are too many.
pub open spec fn snapshot_reason(cursor_seq: u64, latest_seq: u64, compacted_seq: u64) -> Option<
    Seq<char>,
> {
    if cursor_seq > latest_seq {
        Some(
            "Client cursor seq "@ + decimal(cursor_seq as nat) + " is ahead of server latest seq "@
                + decimal(latest_seq as nat) + ". Request full snapshot."@,
        )
    } else if cursor_seq < compacted_seq {
        Some(
            "Cursor seq "@ + decimal(cursor_seq as nat) + " is before compacted seq "@ + decimal(
                compacted_seq as nat,
            ) + ". Request full snapshot."@,
        )
    } else if latest_seq - cursor_seq > 100 {
        Some(gap_message((latest_seq - cursor_seq) as nat))
    } else {
        None
    }
}

fn two_number_message(a: &str, m: u64, b: &str, n: u64, c: &str) -> (s: String)
    ensures
        s@ == a@ + decimal(m as nat) + b@ + decimal(n as nat) + c@,
{
    let mut s = a.to_owned();
    let x = decimal_string(m);
    s.append(x.as_str());
    s.append(b);
    let y = decimal_string(n);
    s.append(y.as_str());
    s.append(c);
    s
}

/// Why a client at `cursor_seq` needs a snapshot, if it does.
pub fn needs_snapshot(cursor_seq: u64, latest_seq: u64, compacted_seq: u64) -> (r: Option<String>)
    ensures
        opt_text(r) == snapshot_reason(cursor_seq, latest_seq, compacted_seq),
{
    if cursor_seq > latest_seq {
        return Some(
            two_number_message(
                "Client cursor seq ",
                cursor_seq,
                " is ahead of server latest seq ",
                latest_seq,
                ". Request full snapshot.",
            ),
        );
    }
    if cursor_seq < compacted_seq {
        return Some(
            two_number_message(
                "Cursor seq ",
                cursor_seq,
                " is before compacted seq ",
                compacted_seq,
                ". Request full snapshot.",
            ),
        );
    }
    let gap: u64 = latest_seq.saturating_sub(cursor_seq);
    if gap > MAX_REPLAY_EVENTS {
        return Some(gap_message_text(gap));
    }
    None
}

/// What a client at `cursor_seq` is told that missed the events `missed`.
pub open spec fn connect_answer(
    cursor_seq: u64,
    latest_seq: u64,
    compacted_seq: u64,
    missed: Seq<EventView>,
) -> ConnectResultView {
    match snapshot_reason(cursor_seq, latest_seq, compacted_seq) {
        Some(message) => ConnectResultView::SnapshotRequired { message, latest_seq },
        None => ConnectResultView::Delta { events: missed, latest_seq },
    }
}

/// The answer to a client at `cursor_seq`; `missed` are the events behind it, as far as
/// they were read.
pub fn connect(
    cursor_seq: u64,
    latest_seq: u64,
    compacted_seq: u64,
    missed: Vec<EventEnvelope>,
) -> (r: ConnectResult)
    ensures
        r@ == connect_answer(cursor_seq, latest_seq, compacted_seq, event_views(missed@)),
        match (r, snapshot_reason(cursor_seq, latest_seq, compacted_seq)) {
            (ConnectResult::SnapshotRequired { message, latest_seq: l }, Some(reason)) => message@
                == reason && l == latest_seq,
            (ConnectResult::Delta { events, latest_seq: l }, None) => events@ == missed@ && l
                == latest_seq,
            _ => false,
        },
{
    match needs_snapshot(cursor_seq, latest_seq, compacted_seq) {
        Some(message) => ConnectResult::SnapshotRequired { message, latest_seq },
        None => ConnectResult::Delta { events: missed, latest_seq },
    }
}

/// A client that needs no snapshot gets every event that it missed in one page.
pub proof fn law_a_delta_is_complete(log: LogView, cursor_seq: u64)
    requires
        log_wf(log),
        snapshot_reason(cursor_seq, log.meta.last_seq, log.meta.compacted_seq) is None,
    ensures
        events_after(log, cursor_seq).len() == log.meta.last_seq - cursor_seq,
        events_after(log, cursor_seq).len() <= 100,
{
    law_replay_is_complete_and_ordered(log, cursor_seq);
}

/// The value that was read, or another one where nothing could be read.
pub open spec fn read_or(read: Result<JsonView, Seq<char>>, otherwise: JsonView) -> JsonView {
    match read {
        Ok(v) => v,
        Err(_) => otherwise,
    }
}

pub fn value_or(read: Result<Json, String>, otherwise: Json) -> (r: Json)
    ensures
        r@ == read_or(read_view(read), otherwise@),
{
    match read {
        Ok(v) => v,
        Err(_) => otherwise,
    }
}

/// The value that a text stands for, or an empty object where it is no JSON.
pub open spec fn parsed_or_empty(text: Seq<char>) -> JsonView {
    read_or(json_read(text), JsonView::Object(Seq::empty()))
}

fn parse_or_empty(text: &str) -> (r: Json)
    ensures
        r@ == parsed_or_empty(text@),
{
    value_or(json_from_str(text), Json::object())
}

pub open spec fn json_opt_integer(n: Option<i64>) -> JsonView {
    match n {
        Some(n) => json_integer(n),
        None => JsonView::Null,
    }
}

pub fn opt_integer(n: Option<i64>) -> (r: Json)
    ensures
        r@ == json_opt_integer(n),
{
    match n {
        Some(n) => Json::integer(n),
        None => Json::Null,
    }
}

/// A request for permission that waits for an answer.
#[derive(Debug)]
pub struct PermissionRow {
    pub args_json: String,
    pub created_at: i64,
    pub mode: String,
    pub id: String,
    pub tool_name: String,
}

pub open spec fn permission_json(r: PermissionRow) -> JsonView {
    JsonView::Object(
        seq![
            ("args"@, parsed_or_empty(r.args_json@)),
            ("created_at"@, json_integer(r.created_at)),
            ("mode"@, JsonView::String(r.mode@)),
            ("permission_request_id"@, JsonView::String(r.id@)),
            ("tool_name"@, JsonView::String(r.tool_name@)),
        ],
    )
}

fn permission_to_json(r: &PermissionRow) -> (v: Json)
    ensures
        v@ == permission_json(*r),
{
    let v = Json::object()
        .with("args", parse_or_empty(r.args_json.as_str()))
        .with("created_at", Json::integer(r.created_at))
        .with("mode", Json::text(r.mode.as_str()))
        .with("permission_request_id", Json::text(r.id.as_str()))
        .with("tool_name", Json::text(r.tool_name.as_str()));
    assert(v@->Object_0 =~= permission_json(*r)->Object_0);
    v
}

fn permission_list(rows: &Vec<PermissionRow>) -> (v: Json)
    ensures
        v@ == JsonView::Array(Seq::new(rows@.len(), |i: int| permission_json(rows@[i]))),
{
    let mut items: Vec<Json> = Vec::new();
    let mut i: usize = 0;
    while i < rows.len()
        invariant
            i <= rows@.len(),
            items@.len() == i,
            forall|j: int| 0 <= j < i ==> #[trigger] items@[j]@ == permission_json(rows@[j]),
        decreases rows@.len() - i,
    {
        items.push(permission_to_json(&rows[i]));
        i += 1;
    }
    assert(json_views(items@) =~= Seq::new(rows@.len(), |i: int| permission_json(rows@[i])));
    Json::list(items)
}

/// A task.
#[derive(Debug)]
pub struct TaskRow {
    pub agent_type: String,
    pub assigned_agent: String,
    pub created_at: Json,
    pub description: String,
    pub status: String,
    pub subject: String,
    pub id: String,
    pub updated_at: Json,
}

pub open spec fn task_json(r: TaskRow) -> JsonView {
    JsonView::Object(
        seq![
            ("agent_type"@, JsonView::String(r.agent_type@)),
            ("assigned_agent"@, JsonView::String(r.assigned_agent@)),
            ("created_at"@, r.created_at@),
            ("description"@, JsonView::String(r.description@)),
            ("status"@, JsonView::String(r.status@)),
            ("subject"@, JsonView::String(r.subject@)),
            ("task_id"@, JsonView::String(r.id@)),
            ("updated_at"@, r.updated_at@),
        ],
    )
}

fn task_to_json(r: &TaskRow) -> (v: Json)
    ensures
        v@ == task_json(*r),
{
    let v = Json::object()
        .with("agent_type", Json::text(r.agent_type.as_str()))
        .with("assigned_agent", Json::text(r.assigned_agent.as_str()))
        .with("created_at", r.created_at.clone())
        .with("description", Json::text(r.description.as_str()))
        .with("status", Json::text(r.status.as_str()))
        .with("subject", Json::text(r.subject.as_str()))
        .with("task_id", Json::text(r.id.as_str()))
        .with("updated_at", r.updated_at.clone());
    assert(v@->Object_0 =~= task_json(*r)->Object_0);
    v
}

fn task_list(rows: &Vec<TaskRow>) -> (v: Json)
    ensures
        v@ == JsonView::Array(Seq::new(rows@.len(), |i: int| task_json(rows@[i]))),
{
    let mut items: Vec<Json> = Vec::new();
    let mut i: usize = 0;
    while i < rows.len()
        invariant
            i <= rows@.len(),
            items@.len() == i,
            forall|j: int| 0 <= j < i ==> #[trigger] items@[j]@ == task_json(rows@[j]),
        decreases rows@.len() - i,
    {
        items.push(task_to_json(&rows[i]));
        i += 1;
    }
    assert(json_views(items@) =~= Seq::new(rows@.len(), |i: int| task_json(rows@[i])));
    Json::list(items)
}

/// An agent.
#[derive(Debug)]
pub struct AgentRow {
    pub agent_id: String,
    pub agent_name: String,
    pub agent_role: String,
    pub iteration: i64,
    pub status: String,
    pub task_id: String,
    pub timestamp: Json,
}

pub open spec fn agent_json(r: AgentRow) -> JsonView {
    JsonView::Object(
        seq![
            ("agent_id"@, JsonView::String(r.agent_id@)),
            ("agent_name"@, JsonView::String(r.agent_name@)),
            ("agent_role"@, JsonView::String(r.agent_role@)),
            ("iteration"@, json_integer(r.iteration)),
            ("status"@, JsonView::String(r.status@)),
            ("task_id"@, JsonView::String(r.task_id@)),
            ("timestamp"@, r.timestamp@),
        ],
    )
}

fn agent_to_json(r: &AgentRow) -> (v: Json)
    ensures
        v@ == agent_json(*r),
{
    let v = Json::object()
        .with("agent_id", Json::text(r.agent_id.as_str()))
        .with("agent_name", Json::text(r.agent_name.as_str()))
        .with("agent_role", Json::text(r.agent_role.as_str()))
        .with("iteration", Json::integer(r.iteration))
        .with("status", Json::text(r.status.as_str()))
        .with("task_id", Json::text(r.task_id.as_str()))
        .with("timestamp", r.timestamp.clone());
    assert(v@->Object_0 =~= agent_json(*r)->Object_0);
    v
}

fn agent_list(rows: &Vec<AgentRow>) -> (v: Json)
    ensures
        v@ == JsonView::Array(Seq::new(rows@.len(), |i: int| agent_json(rows@[i]))),
{
    let mut items: Vec<Json> = Vec::new();
    let mut i: usize = 0;
    while i < rows.len()
        invariant
            i <= rows@.len(),
            items@.len() == i,
            forall|j: int| 0 <= j < i ==> #[trigger] items@[j]@ == agent_json(rows@[j]),
        decreases rows@.len() - i,
    {
        items.push(agent_to_json(&rows[i]));
        i += 1;
    }
    assert(json_views(items@) =~= Seq::new(rows@.len(), |i: int| agent_json(rows@[i])));
    Json::list(items)
}

/// A run of a workflow.
#[derive(Debug)]
pub struct WorkflowRow {
    pub end_time: Option<i64>,
    pub error: Option<String>,
    pub id: String,
    pub start_time: i64,
    pub status: String,
    pub workflow_id: String,
}

pub open spec fn workflow_json(r: WorkflowRow) -> JsonView {
    JsonView::Object(
        seq![
            ("end_time"@, json_opt_integer(r.end_time)),
            ("error"@, json_opt_text(opt_text(r.error))),
            ("execution_id"@, JsonView::String(r.id@)),
            ("start_time"@, json_integer(r.start_time)),
            ("status"@, JsonView::String(r.status@)),
            ("workflow_id"@, JsonView::String(r.workflow_id@)),
        ],
    )
}

fn workflow_to_json(r: &WorkflowRow) -> (v: Json)
    ensures
        v@ == workflow_json(*r),
{
    let v = Json::object()
        .with("end_time", opt_integer(r.end_time))
        .with("error", Json::opt_text(&r.error))
        .with("execution_id", Json::text(r.id.as_str()))
        .with("start_time", Json::integer(r.start_time))
        .with("status", Json::text(r.status.as_str()))
        .with("workflow_id", Json::text(r.workflow_id.as_str()));
    assert(v@->Object_0 =~= workflow_json(*r)->Object_0);
    v
}

fn workflow_list(rows: &Vec<WorkflowRow>) -> (v: Json)
    ensures
        v@ == JsonView::Array(Seq::new(rows@.len(), |i: int| workflow_json(rows@[i]))),
{
    let mut items: Vec<Json> = Vec::new();
    let mut i: usize = 0;
    while i < rows.len()
        invariant
            i <= rows@.len(),
            items@.len() == i,
            forall|j: int| 0 <= j < i ==> #[trigger] items@[j]@ == workflow_json(rows@[j]),
        decreases rows@.len() - i,
    {
        items.push(workflow_to_json(&rows[i]));
        i += 1;
    }
    assert(json_views(items@) =~= Seq::new(rows@.len(), |i: int| workflow_json(rows@[i])));
    Json::list(items)
}

/// A tool call, without its arguments and its result.
#[derive(Debug)]
pub struct ToolCallRow {
    pub completed_at: Option<i64>,
    pub error: Option<String>,
    pub started_at: i64,
    pub status: String,
    pub id: String,
    pub tool_name: String,
    pub tool_type: String,
}

pub open spec fn tool_call_json(r: ToolCallRow) -> JsonView {
    JsonView::Object(
        seq![
            ("completed_at"@, json_opt_integer(r.completed_at)),
            ("error"@, json_opt_text(opt_text(r.error))),
            ("started_at"@, json_integer(r.started_at)),
            ("status"@, JsonView::String(r.status@)),
            ("tool_call_id"@, JsonView::String(r.id@)),
            ("tool_name"@, JsonView::String(r.tool_name@)),
            ("tool_type"@, JsonView::String(r.tool_type@)),
        ],
    )
}

fn tool_call_to_json(r: &ToolCallRow) -> (v: Json)
    ensures
        v@ == tool_call_json(*r),
{
    let v = Json::object()
        .with("completed_at", opt_integer(r.completed_at))
        .with("error", Json::opt_text(&r.error))
        .with("started_at", Json::integer(r.started_at))
        .with("status", Json::text(r.status.as_str()))
        .with("tool_call_id", Json::text(r.id.as_str()))
        .with("tool_name", Json::text(r.tool_name.as_str()))
        .with("tool_type", Json::text(r.tool_type.as_str()));
    assert(v@->Object_0 =~= tool_call_json(*r)->Object_0);
    v
}

fn tool_call_list(rows: &Vec<ToolCallRow>) -> (v: Json)
    ensures
        v@ == JsonView::Array(Seq::new(rows@.len(), |i: int| tool_call_json(rows@[i]))),
{
    let mut items: Vec<Json> = Vec::new();
    let mut i: usize = 0;
    while i < rows.len()
        invariant
            i <= rows@.len(),
            items@.len() == i,
            forall|j: int| 0 <= j < i ==> #[trigger] items@[j]@ == tool_call_json(rows@[j]),
        decreases rows@.len() - i,
    {
        items.push(tool_call_to_json(&rows[i]));
        i += 1;
    }
    assert(json_views(items@) =~= Seq::new(rows@.len(), |i: int| tool_call_json(rows@[i])));
    Json::list(items)
}

/// What was read of a session.
#[derive(Debug)]
pub struct SessionRows {
    pub status: Option<String>,
    pub permission_mode: Option<String>,
    pub pending_permissions: Vec<PermissionRow>,
    pub active_context: Option<String>,
    pub tasks: Vec<TaskRow>,
    pub agents: Vec<AgentRow>,
    pub workflows: Vec<WorkflowRow>,
    pub tool_calls: Vec<ToolCallRow>,
}

/// The active context, where one was kept and is JSON.
pub open spec fn active_context_json(text: Option<Seq<char>>) -> JsonView {
    match text {
        Some(t) => read_or(json_read(t), JsonView::Null),
        None => JsonView::Null,
    }
}

fn active_context_value(text: &Option<String>) -> (r: Json)
    ensures
        r@ == active_context_json(opt_text(*text)),
{
    match text {
        Some(t) => value_or(json_from_str(t.as_str()), Json::Null),
        None => Json::Null,
    }
}

/// What a snapshot leaves out.
pub open spec fn redaction_note() -> JsonView {
    JsonView::Object(
        seq![
            ("auth_context"@, JsonView::String("omitted"@)),
            ("message_bodies"@, JsonView::String("omitted"@)),
            ("tool_args"@, JsonView::String("omitted"@)),
            ("tool_results"@, JsonView::String("omitted"@)),
        ],
    )
}

/// The part of a snapshot from which views of any kind are built.
pub open spec fn headless_projection(rows: SessionRows) -> JsonView {
    JsonView::Object(
        seq![
            (
                "agents"@,
                JsonView::Array(
                    Seq::new(rows.agents@.len(), |i: int| agent_json(rows.agents@[i])),
                ),
            ),
            ("boundary"@, JsonView::String("rust-core-headless"@)),
            ("collection_limit"@, json_integer(500)),
            ("redaction"@, redaction_note()),
            (
                "tasks"@,
                JsonView::Array(Seq::new(rows.tasks@.len(), |i: int| task_json(rows.tasks@[i]))),
            ),
            (
                "tool_calls"@,
                JsonView::Array(
                    Seq::new(
                        rows.tool_calls@.len(),
                        |i: int| tool_call_json(rows.tool_calls@[i]),
                    ),
                ),
            ),
            (
                "workflows"@,
                JsonView::Array(
                    Seq::new(rows.workflows@.len(), |i: int| workflow_json(rows.workflows@[i])),
                ),
            ),
        ],
    )
}

pub open spec fn or_default(text: Option<Seq<char>>, default_text: Seq<char>) -> Seq<char> {
    match text {
        Some(t) => t,
        None => default_text,
    }
}

/// The payload of a snapshot.
pub open spec fn snapshot_payload(rows: SessionRows, latest_seq: u64, generation: u64) -> JsonView {
    JsonView::Object(
        seq![
            ("active_context"@, active_context_json(opt_text(rows.active_context))),
            ("generation"@, JsonView::Number(JsonNumber::Unsigned(generation))),
            ("headless_projection"@, headless_projection(rows)),
            (
                "pending_permissions"@,
                JsonView::Array(
                    Seq::new(
                        rows.pending_permissions@.len(),
                        |i: int| permission_json(rows.pending_permissions@[i]),
                    ),
                ),
            ),
            (
                "permission_mode"@,
                JsonView::String(or_default(opt_text(rows.permission_mode), "strict"@)),
            ),
            ("snapshot_seq"@, JsonView::Number(JsonNumber::Unsigned(latest_seq))),
        ],
    )
}

fn text_or(text: &Option<String>, default_text: &str) -> (s: String)
    ensures
        s@ == or_default(opt_text(*text), default_text@),
{
    match text {
        Some(t) => t.clone(),
        None => default_text.to_owned(),
    }
}

fn redaction_note_value() -> (r: Json)
    ensures
        r@ == redaction_note(),
{
    let r = Json::object().with("auth_context", Json::text("omitted")).with(
        "message_bodies",
        Json::text("omitted"),
    ).with("tool_args", Json::text("omitted")).with("tool_results", Json::text("omitted"));
    assert(r@->Object_0 =~= redaction_note()->Object_0);
    r
}

fn headless_projection_value(rows: &SessionRows) -> (r: Json)
    ensures
        r@ == headless_projection(*rows),
{
    let r = Json::object().with("agents", agent_list(&rows.agents)).with(
        "boundary",
        Json::text("rust-core-headless"),
    ).with("collection_limit", Json::integer(SNAPSHOT_COLLECTION_LIMIT)).with(
        "redaction",
        redaction_note_value(),
    ).with("tasks", task_list(&rows.tasks)).with(
        "tool_calls",
        tool_call_list(&rows.tool_calls),
    ).with("workflows", workflow_list(&rows.workflows));
    assert(r@->Object_0 =~= headless_projection(*rows)->Object_0);
    r
}

/// The snapshot of a session.
pub open spec fn snapshot_of(
    session_id: Seq<char>,
    latest_seq: u64,
    generation: u64,
    rows: SessionRows,
    created_at: i64,
) -> SnapshotView {
    SnapshotView {
        snapshot_id: None,
        session_id,
        generation,
        last_seq: latest_seq,
        status: or_default(opt_text(rows.status), "unknown"@),
        payload: snapshot_payload(rows, latest_seq, generation),
        created_at,
    }
}

/// The snapshot of a session from what was read of it. A session that is not known has
/// the status `unknown`, and one without a mode is strict.
pub fn build_snapshot(
    session_id: &str,
    latest_seq: EventSeq,
    generation: Generation,
    rows: &SessionRows,
    created_at: Timestamp,
) -> (s: SnapshotEnvelope)
    ensures
        s@ == snapshot_of(session_id@, latest_seq, generation, *rows, created_at),
        s.snapshot_id is None,
        s.session_id@ == session_id@,
        s.generation == generation,
        s.last_seq == latest_seq,
        s.status@ == or_default(opt_text(rows.status), "unknown"@),
        s.payload@ == snapshot_payload(*rows, latest_seq, generation),
        s.created_at == created_at,
{
    let mode = text_or(&rows.permission_mode, "strict");
    let payload = Json::object().with(
        "active_context",
        active_context_value(&rows.active_context),
    ).with("generation", Json::number(generation)).with(
        "headless_projection",
        headless_projection_value(rows),
    ).with("pending_permissions", permission_list(&rows.pending_permissions)).with(
        "permission_mode",
        Json::text(mode.as_str()),
    ).with("snapshot_seq", Json::number(latest_seq));
    assert(payload@->Object_0 =~= snapshot_payload(*rows, latest_seq, generation)->Object_0);
    SnapshotEnvelope {
        snapshot_id: None,
        session_id: session_id.to_owned(),
        generation,
        last_seq: latest_seq,
        status: text_or(&rows.status, "unknown"),
        payload,
        created_at,
    }
}

/// A pending permission is shown with the arguments that its stored text reads as, or
/// with none where it is no JSON, and with what it is about.
pub proof fn law_a_permission_shows_its_arguments(r: PermissionRow, v: JsonView)
    ensures
        json_read(r.args_json@) == Ok::<JsonView, Seq<char>>(v) ==> shows(
            permission_json(r),
            "args"@,
            v,
        ),
        json_read(r.args_json@) is Err ==> shows(
            permission_json(r),
            "args"@,
            JsonView::Object(Seq::empty()),
        ),
        shows(permission_json(r), "created_at"@, json_integer(r.created_at)),
        shows(permission_json(r), "mode"@, JsonView::String(r.mode@)),
        shows(permission_json(r), "permission_request_id"@, JsonView::String(r.id@)),
        shows(permission_json(r), "tool_name"@, JsonView::String(r.tool_name@)),
        permission_json(r)->Object_0.len() == 5,
{
    lemma_shows(permission_json(r), 0);
    lemma_shows(permission_json(r), 1);
    lemma_shows(permission_json(r), 2);
    lemma_shows(permission_json(r), 3);
    lemma_shows(permission_json(r), 4);
}

/// A task is shown with all that was read of it.
pub proof fn law_task_rows_are_shown(r: TaskRow)
    ensures
        shows(task_json(r), "agent_type"@, JsonView::String(r.agent_type@)),
        shows(task_json(r), "assigned_agent"@, JsonView::String(r.assigned_agent@)),
        shows(task_json(r), "created_at"@, r.created_at@),
        shows(task_json(r), "description"@, JsonView::String(r.description@)),
        shows(task_json(r), "status"@, JsonView::String(r.status@)),
        shows(task_json(r), "subject"@, JsonView::String(r.subject@)),
        shows(task_json(r), "task_id"@, JsonView::String(r.id@)),
        shows(task_json(r), "updated_at"@, r.updated_at@),
        task_json(r)->Object_0.len() == 8,
{
    lemma_shows(task_json(r), 0);
    lemma_shows(task_json(r), 1);
    lemma_shows(task_json(r), 2);
    lemma_shows(task_json(r), 3);
    lemma_shows(task_json(r), 4);
    lemma_shows(task_json(r), 5);
    lemma_shows(task_json(r), 6);
    lemma_shows(task_json(r), 7);
}

/// An agent is shown with all that was read of it.
pub proof fn law_agent_rows_are_shown(r: AgentRow)
    ensures
        shows(agent_json(r), "agent_id"@, JsonView::String(r.agent_id@)),
        shows(agent_json(r), "agent_name"@, JsonView::String(r.agent_name@)),
        shows(agent_json(r), "agent_role"@, JsonView::String(r.agent_role@)),
        shows(agent_json(r), "iteration"@, json_integer(r.iteration)),
        shows(agent_json(r), "status"@, JsonView::String(r.status@)),
        shows(agent_json(r), "task_id"@, JsonView::String(r.task_id@)),
        shows(agent_json(r), "timestamp"@, r.timestamp@),
        agent_json(r)->Object_0.len() == 7,
{
    lemma_shows(agent_json(r), 0);
    lemma_shows(agent_json(r), 1);
    lemma_shows(agent_json(r), 2);
    lemma_shows(agent_json(r), 3);
    lemma_shows(agent_json(r), 4);
    lemma_shows(agent_json(r), 5);
    lemma_shows(agent_json(r), 6);
}

/// The run of a workflow is shown with all that was read of it.
pub proof fn law_workflow_rows_are_shown(r: WorkflowRow)
    ensures
        shows(workflow_json(r), "end_time"@, match r.end_time {
            Some(n) => json_integer(n),
            None => JsonView::Null,
        }),
        shows(workflow_json(r), "error"@, match r.error {
            Some(s) => JsonView::String(s@),
            None => JsonView::Null,
        }),
        shows(workflow_json(r), "execution_id"@, JsonView::String(r.id@)),
        shows(workflow_json(r), "start_time"@, json_integer(r.start_time)),
        shows(workflow_json(r), "status"@, JsonView::String(r.status@)),
        shows(workflow_json(r), "workflow_id"@, JsonView::String(r.workflow_id@)),
        workflow_json(r)->Object_0.len() == 6,
{
    lemma_shows(workflow_json(r), 0);
    lemma_shows(workflow_json(r), 1);
    lemma_shows(workflow_json(r), 2);
    lemma_shows(workflow_json(r), 3);
    lemma_shows(workflow_json(r), 4);
    lemma_shows(workflow_json(r), 5);
}

/// A tool call is shown with all that was read of it, and with nothing else.
pub proof fn law_tool_call_rows_are_shown(r: ToolCallRow)
    ensures
        shows(tool_call_json(r), "completed_at"@, match r.completed_at {
            Some(n) => json_integer(n),
            None => JsonView::Null,
        }),
        shows(tool_call_json(r), "error"@, match r.error {
            Some(s) => JsonView::String(s@),
            None => JsonView::Null,
        }),
        shows(tool_call_json(r), "started_at"@, json_integer(r.started_at)),
        shows(tool_call_json(r), "status"@, JsonView::String(r.status@)),
        shows(tool_call_json(r), "tool_call_id"@, JsonView::String(r.id@)),
        shows(tool_call_json(r), "tool_name"@, JsonView::String(r.tool_name@)),
        shows(tool_call_json(r), "tool_type"@, JsonView::String(r.tool_type@)),
        tool_call_json(r)->Object_0.len() == 7,
{
    lemma_shows(tool_call_json(r), 0);
    lemma_shows(tool_call_json(r), 1);
    lemma_shows(tool_call_json(r), 2);
    lemma_shows(tool_call_json(r), 3);
    lemma_shows(tool_call_json(r), 4);
    lemma_shows(tool_call_json(r), 5);
    lemma_shows(tool_call_json(r), 6);
}

/// A snapshot shows the session: its numbers, its mode, the context that was kept of it,
/// and each pending permission, task, agent, workflow and tool call that was read, all of
/// them and in the order in which they were read.
pub proof fn law_a_snapshot_shows_the_session(
    rows: SessionRows,
    latest_seq: u64,
    generation: u64,
    v: JsonView,
)
    ensures
        ({
            let p = snapshot_payload(rows, latest_seq, generation);
            let h = headless_projection(rows);
            &&& shows(p, "snapshot_seq"@, JsonView::Number(JsonNumber::Unsigned(latest_seq)))
            &&& shows(p, "generation"@, JsonView::Number(JsonNumber::Unsigned(generation)))
            &&& shows(p, "headless_projection"@, h)
            &&& rows.permission_mode is Some ==> shows(
                p,
                "permission_mode"@,
                JsonView::String(rows.permission_mode->0@),
            )
            &&& rows.permission_mode is None ==> shows(
                p,
                "permission_mode"@,
                JsonView::String("strict"@),
            )
            &&& rows.active_context is Some && json_read(rows.active_context->0@) == Ok::<
                JsonView,
                Seq<char>,
            >(v) ==> shows(p, "active_context"@, v)
            &&& rows.active_context is None || json_read(rows.active_context->0@) is Err ==> shows(
                p,
                "active_context"@,
                JsonView::Null,
            )
            &&& exists|a: Seq<JsonView>|
                #![trigger shows(p, "pending_permissions"@, JsonView::Array(a))]
                shows(p, "pending_permissions"@, JsonView::Array(a)) && a.len()
                    == rows.pending_permissions@.len() && forall|i: int|
                    0 <= i < a.len() ==> #[trigger] a[i] == permission_json(
                        rows.pending_permissions@[i],
                    )
            &&& exists|a: Seq<JsonView>|
                #![trigger shows(h, "tasks"@, JsonView::Array(a))]
                shows(h, "tasks"@, JsonView::Array(a)) && a.len() == rows.tasks@.len()
                    && forall|i: int|
                    0 <= i < a.len() ==> #[trigger] a[i] == task_json(rows.tasks@[i])
            &&& exists|a: Seq<JsonView>|
                #![trigger shows(h, "agents"@, JsonView::Array(a))]
                shows(h, "agents"@, JsonView::Array(a)) && a.len() == rows.agents@.len()
                    && forall|i: int|
                    0 <= i < a.len() ==> #[trigger] a[i] == agent_json(rows.agents@[i])
            &&& exists|a: Seq<JsonView>|
                #![trigger shows(h, "workflows"@, JsonView::Array(a))]
                shows(h, "workflows"@, JsonView::Array(a)) && a.len() == rows.workflows@.len()
                    && forall|i: int|
                    0 <= i < a.len() ==> #[trigger] a[i] == workflow_json(rows.workflows@[i])
            &&& exists|a: Seq<JsonView>|
                #![trigger shows(h, "tool_calls"@, JsonView::Array(a))]
                shows(h, "tool_calls"@, JsonView::Array(a)) && a.len() == rows.tool_calls@.len()
                    && forall|i: int|
                    0 <= i < a.len() ==> #[trigger] a[i] == tool_call_json(rows.tool_calls@[i])
            &&& shows(h, "collection_limit"@, JsonView::Number(JsonNumber::Unsigned(500)))
            &&& shows(h, "boundary"@, JsonView::String("rust-core-headless"@))
        }),
{
    let p = snapshot_payload(rows, latest_seq, generation);
    let h = headless_projection(rows);
    lemma_shows(p, 0);
    lemma_shows(p, 1);
    lemma_shows(p, 2);
    lemma_shows(p, 3);
    lemma_shows(p, 4);
    lemma_shows(p, 5);
    lemma_shows(h, 0);
    lemma_shows(h, 1);
    lemma_shows(h, 2);
    lemma_shows(h, 4);
    lemma_shows(h, 5);
    lemma_shows(h, 6);
    assert(shows(p, "pending_permissions"@, JsonView::Array(p->Object_0[3].1->Array_0)));
    assert(shows(h, "agents"@, JsonView::Array(h->Object_0[0].1->Array_0)));
    assert(shows(h, "tasks"@, JsonView::Array(h->Object_0[4].1->Array_0)));
    assert(shows(h, "tool_calls"@, JsonView::Array(h->Object_0[5].1->Array_0)));
    assert(shows(h, "workflows"@, JsonView::Array(h->Object_0[6].1->Array_0)));
}

/// A client gets the events that it missed exactly if it is not ahead of the log, none of
/// them was dropped, and they are no more than a hundred.
pub proof fn law_when_a_client_gets_events(cursor_seq: u64, latest_seq: u64, compacted_seq: u64)
    ensures
        snapshot_reason(cursor_seq, latest_seq, compacted_seq) is None <==> cursor_seq
            <= latest_seq && compacted_seq <= cursor_seq && latest_seq <= cursor_seq + 100,
{
}

/// A client that can be served event by event gets the events that it missed, all of them
/// and as they are, with the number of the last one; any other is told to ask for a
/// snapshot.
pub proof fn law_what_a_client_is_told(
    log: LogView,
    cursor_seq: u64,
)
    requires
        log_wf(log),
    ensures
        ({
            let missed = events_after(log, cursor_seq);
            let last = log.meta.last_seq;
            match connect_answer(cursor_seq, last, log.meta.compacted_seq, missed) {
                ConnectResultView::Delta { events, latest_seq } => {
                    &&& cursor_seq <= last && log.meta.compacted_seq <= cursor_seq && last
                        <= cursor_seq + 100
                    &&& latest_seq == last
                    &&& events.len() == last - cursor_seq
                    &&& forall|i: int|
                        0 <= i < events.len() ==> (#[trigger] events[i]).seq == cursor_seq + 1 + i
                            && log.events.contains(events[i])
                },
                ConnectResultView::SnapshotRequired { message, latest_seq } => {
                    &&& latest_seq == last
                    &&& cursor_seq > last || cursor_seq < log.meta.compacted_seq || last
                        > cursor_seq + 100
                },
            }
        }),
{
    let last = log.meta.last_seq;
    if snapshot_reason(cursor_seq, last, log.meta.compacted_seq) is None {
        law_replay_is_complete_and_ordered(log, cursor_seq);
        let events = events_after(log, cursor_seq);
        let k = cursor_seq - log.meta.compacted_seq;
        assert forall|i: int| 0 <= i < events.len() implies log.events.contains(
            #[trigger] events[i],
        ) by {
            assert(events[i] == log.events[k + i]);
        }
    }
}

/// A snapshot is that of its session at its number and generation, with the status that was
/// read, or `unknown` where there is none.
pub proof fn law_a_snapshot_is_that_of_its_session(
    session_id: Seq<char>,
    latest_seq: u64,
    generation: u64,
    rows: SessionRows,
    created_at: i64,
)
    ensures
        ({
            let s = snapshot_of(session_id, latest_seq, generation, rows, created_at);
            &&& s.session_id == session_id
            &&& s.last_seq == latest_seq
            &&& s.generation == generation
            &&& s.created_at == created_at
            &&& s.payload == snapshot_payload(rows, latest_seq, generation)
            &&& rows.status is Some ==> s.status == rows.status->0@
            &&& rows.status is None ==> s.status == "unknown"@
            &&& s.snapshot_id is None
        }),
{
}

/// The note on what is left out names credentials, message bodies, arguments and results of
/// tools, each as left out, and nothing else.
pub proof fn law_what_is_left_out_is_named(name: Seq<char>, value: JsonView)
    ensures
        shows(redaction_note(), name, value) <==> value == JsonView::String("omitted"@) && (name
            == "auth_context"@ || name == "message_bodies"@ || name == "tool_args"@ || name
            == "tool_results"@),
{
    lemma_shows(redaction_note(), 0);
    lemma_shows(redaction_note(), 1);
    lemma_shows(redaction_note(), 2);
    lemma_shows(redaction_note(), 3);
    if shows(redaction_note(), name, value) {
        let members = redaction_note()->Object_0;
        let i = choose|i: int| 0 <= i < members.len() && members[i] == (name, value);
        assert(i == 0 || i == 1 || i == 2 || i == 3);
    }
}

} // verus!
