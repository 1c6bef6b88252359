use std::collections::HashMap;

use lingxiao_core::event_log::{
    append, compact, event_to_row, replay_page, row_to_envelope, sid, EventLogMeta, EventRow,
    ReplayBatch, MAX_REPLAY_EVENTS,
};
use lingxiao_core::json::Json;
use lingxiao_core::projection::{
    build_snapshot, connect, needs_snapshot, value_or, AgentRow, ConnectResult, PermissionRow,
    SessionRows, TaskRow, ToolCallRow, WorkflowRow, SNAPSHOT_COLLECTION_LIMIT,
};
use lingxiao_core::protocol::actor::{Actor, ActorKind};
use lingxiao_core::protocol::event::EventEnvelope;
use lingxiao_core::protocol::snapshot::SnapshotEnvelope;

/// A log whose rows are kept in memory.
struct EventLog {
    rows: Vec<EventRow>,
    metas: HashMap<String, EventLogMeta>,
}

impl EventLog {
    fn new() -> Self {
        EventLog { rows: Vec::new(), metas: HashMap::new() }
    }

    fn meta(&self, session: &str) -> EventLogMeta {
        self.metas.get(session).copied().unwrap_or_default()
    }

    fn existing(&self, event_id: &str) -> Option<EventEnvelope> {
        self.rows
            .iter()
            .find(|r| r.event_id == event_id)
            .map(|r| row_to_envelope(r.clone()).unwrap())
    }

    fn append(&mut self, event: EventEnvelope) -> EventEnvelope {
        let session = sid(&event.session_id).to_string();
        let (event, meta, written) =
            append(self.meta(&session), self.existing(&event.event_id), event);
        if written {
            self.rows.push(event_to_row(&event));
        }
        self.metas.insert(session, meta);
        event
    }

    fn compact(&mut self, session: &str, through: u64) {
        let (limit, meta) = compact(self.meta(session), through);
        self.rows.retain(|r| r.session_id != session || r.seq > limit);
        self.metas.insert(session.to_string(), meta);
    }

    fn connect(&self, session: &str, last_known_seq: u64) -> ConnectResult {
        let meta = self.meta(session);
        let missed = self.replay(session, last_known_seq, MAX_REPLAY_EVENTS).events;
        connect(last_known_seq, meta.last_seq, meta.compacted_seq, missed)
    }

    fn snapshot(&self, session: &str, rows: &SessionRows) -> SnapshotEnvelope {
        let meta = self.meta(session);
        build_snapshot(session, meta.last_seq, meta.current_generation, rows, 7)
    }

    fn replay(&self, session: &str, after: u64, limit: u64) -> ReplayBatch {
        let events = self
            .rows
            .iter()
            .filter(|r| r.session_id == session && r.seq > after)
            .take(limit as usize + 1)
            .map(|r| row_to_envelope(r.clone()).unwrap())
            .collect();
        replay_page(events, limit)
    }
}

fn make_event(session_id: &str, event_type: &str, generation: u64, seq_hint: u64) -> EventEnvelope {
    EventEnvelope {
        event_id: format!("evt_{}_{}_{}", session_id, seq_hint, event_type.replace('.', "_")),
        session_id: Some(session_id.into()),
        seq: seq_hint,
        generation,
        event_type: event_type.into(),
        source: Actor::new(ActorKind::System),
        payload: Json::object().with("ts", Json::number(seq_hint)),
        occurred_at: 1719000000000 + seq_hint as i64,
        causation_id: None,
        correlation_id: None,
    }
}

fn append_n(log: &mut EventLog, session_id: &str, n: u64, generation: u64) {
    for i in 1..=n {
        let event = make_event(session_id, "test.event", generation, i);
        log.append(event);
    }
}


fn no_rows(status: Option<&str>) -> SessionRows {
    SessionRows {
        status: status.map(|s| s.to_string()),
        permission_mode: None,
        pending_permissions: Vec::new(),
        active_context: None,
        tasks: Vec::new(),
        agents: Vec::new(),
        workflows: Vec::new(),
        tool_calls: Vec::new(),
    }
}

fn at<'a>(v: &'a Json, path: &[&str]) -> &'a Json {
    let mut v = v;
    for part in path {
        v = match v {
            Json::Array(items) => &items[part.parse::<usize>().unwrap()],
            other => other.get(part).unwrap(),
        };
    }
    v
}

#[test]
fn test_snapshot_contains_headless_projection_without_tool_payloads() {
    let mut rows = no_rows(Some("active"));
    rows.tasks.push(TaskRow {
        agent_type: "general".into(),
        assigned_agent: "agent-1".into(),
        created_at: Json::parse("1.0").unwrap(),
        description: "Description".into(),
        status: "created".into(),
        subject: "Subject".into(),
        id: "task-1".into(),
        updated_at: Json::parse("2.0").unwrap(),
    });
    rows.agents.push(AgentRow {
        agent_id: "agent-1".into(),
        agent_name: "Agent".into(),
        agent_role: "worker".into(),
        iteration: 3,
        status: "running".into(),
        task_id: "task-1".into(),
        timestamp: Json::parse("4.0").unwrap(),
    });
    rows.tool_calls.push(ToolCallRow {
        completed_at: Some(6),
        error: None,
        started_at: 5,
        status: "completed".into(),
        id: "tc-1".into(),
        tool_name: "file_read".into(),
        tool_type: "native".into(),
    });
    let snapshot = EventLog::new().snapshot("sess-projection", &rows);
    let projection = snapshot.payload.get("headless_projection").unwrap();
    assert_eq!(at(projection, &["boundary"]).as_str(), Some("rust-core-headless"));
    assert_eq!(*at(projection, &["collection_limit"]), Json::integer(SNAPSHOT_COLLECTION_LIMIT));
    assert_eq!(at(projection, &["tasks", "0", "task_id"]).as_str(), Some("task-1"));
    assert_eq!(at(projection, &["agents", "0", "agent_id"]).as_str(), Some("agent-1"));
    assert_eq!(at(projection, &["tool_calls", "0", "tool_call_id"]).as_str(), Some("tc-1"));
    assert!(at(projection, &["tool_calls", "0"]).get("args_json").is_none());
    assert!(at(projection, &["tool_calls", "0"]).get("result_json").is_none());
    assert_eq!(at(projection, &["redaction", "tool_args"]).as_str(), Some("omitted"));
}

#[test]
fn test_gs022_reconnect_delta() {
    let mut log = EventLog::new();
    append_n(&mut log, "sess-gs022", 8, 1);
    match log.connect("sess-gs022", 5) {
        ConnectResult::Delta { events, latest_seq } => {
            assert_eq!(events.len(), 3);
            assert_eq!(events[0].seq, 6);
            assert_eq!(events[1].seq, 7);
            assert_eq!(events[2].seq, 8);
            assert_eq!(latest_seq, 8);
        }
        other => panic!("Expected Delta, got {other:?}"),
    }
}

#[test]
fn test_gs022_reconnect_no_delta_when_caught_up() {
    let mut log = EventLog::new();
    append_n(&mut log, "sess-gs022b", 8, 1);
    match log.connect("sess-gs022b", 8) {
        ConnectResult::Delta { events, latest_seq } => {
            assert!(events.is_empty());
            assert_eq!(latest_seq, 8);
        }
        other => panic!("Expected Delta, got {other:?}"),
    }
}

#[test]
fn test_gs023_gap_too_large_returns_snapshot_required() {
    let mut log = EventLog::new();
    append_n(&mut log, "sess-gs023", 200, 1);
    match log.connect("sess-gs023", 50) {
        ConnectResult::SnapshotRequired { message, latest_seq } => {
            assert!(message.contains("Gap too large"));
            assert_eq!(latest_seq, 200);
        }
        other => panic!("Expected SnapshotRequired, got {other:?}"),
    }
}

#[test]
fn test_gs023_snapshot_contains_required_fields() {
    let mut log = EventLog::new();
    append_n(&mut log, "sess-gs023b", 200, 1);
    let snap = log.snapshot("sess-gs023b", &no_rows(Some("active")));
    assert_eq!(snap.session_id, "sess-gs023b");
    assert_eq!(snap.last_seq, 200);
    assert_eq!(snap.generation, 1);
    assert_eq!(snap.status, "active");
    assert_eq!(*snap.payload.get("snapshot_seq").unwrap(), Json::number(200));
    assert_eq!(*snap.payload.get("generation").unwrap(), Json::number(1));
}

#[test]
fn test_cursor_ahead_of_server_returns_snapshot_required() {
    let mut log = EventLog::new();
    append_n(&mut log, "sess-ahead", 10, 1);
    match log.connect("sess-ahead", 99) {
        ConnectResult::SnapshotRequired { message, latest_seq } => {
            assert!(message.contains("ahead of server"), "{message}");
            assert_eq!(latest_seq, 10);
        }
        other => panic!("Expected SnapshotRequired, got {other:?}"),
    }
}

#[test]
fn test_cursor_before_compacted_seq_returns_snapshot_required() {
    let mut log = EventLog::new();
    append_n(&mut log, "sess-compacted", 10, 1);
    log.compact("sess-compacted", 5);
    match log.connect("sess-compacted", 4) {
        ConnectResult::SnapshotRequired { message, latest_seq } => {
            assert!(message.contains("compacted seq"));
            assert_eq!(latest_seq, 10);
        }
        other => panic!("Expected SnapshotRequired, got {other:?}"),
    }
}

#[test]
fn test_snapshot_session_not_found_returns_unknown_status() {
    let mut log = EventLog::new();
    append_n(&mut log, "sess-ghost", 5, 1);
    let snap = log.snapshot("sess-ghost", &no_rows(None));
    assert_eq!(snap.session_id, "sess-ghost");
    assert_eq!(snap.last_seq, 5);
    assert_eq!(snap.generation, 1);
    assert_eq!(snap.status, "unknown");
}

#[test]
fn test_snapshot_status_reads_from_sessions_table() {
    let mut log = EventLog::new();
    append_n(&mut log, "sess-status", 3, 1);
    let snap = log.snapshot("sess-status", &no_rows(Some("completed")));
    assert_eq!(snap.status, "completed");
    assert_eq!(snap.last_seq, 3);
}

#[test]
fn test_event_log_replay_ordering_preserved() {
    let mut log = EventLog::new();
    append_n(&mut log, "sess-order", 5, 1);
    let batch = log.replay("sess-order", 0, 100);
    for i in 0..batch.events.len().saturating_sub(1) {
        assert!(
            batch.events[i].seq < batch.events[i + 1].seq,
            "Events must be in ascending seq order"
        );
    }
}

#[test]
fn test_a_delta_holds_every_missed_event() {
    let mut log = EventLog::new();
    append_n(&mut log, "s", 150, 1);
    match log.connect("s", 50) {
        ConnectResult::Delta { events, .. } => assert_eq!(events.len(), 100),
        other => panic!("Expected Delta, got {other:?}"),
    }
    assert!(matches!(log.connect("s", 49), ConnectResult::SnapshotRequired { .. }));
}

#[test]
fn test_reasons_for_a_snapshot() {
    assert_eq!(
        needs_snapshot(12, 7, 0).unwrap(),
        "Client cursor seq 12 is ahead of server latest seq 7. Request full snapshot."
    );
    assert_eq!(
        needs_snapshot(2, 7, 3).unwrap(),
        "Cursor seq 2 is before compacted seq 3. Request full snapshot."
    );
    assert_eq!(needs_snapshot(3, 7, 3), None);
}

#[test]
fn test_other_parts_of_a_snapshot() {
    let mut rows = no_rows(Some("active"));
    rows.permission_mode = Some("dev".into());
    rows.active_context = Some(r#"{"k":[1]}"#.into());
    rows.pending_permissions.push(PermissionRow {
        args_json: "not json".into(),
        created_at: 9,
        mode: "strict".into(),
        id: "p-1".into(),
        tool_name: "shell".into(),
    });
    rows.workflows.push(WorkflowRow {
        end_time: None,
        error: None,
        id: "x-1".into(),
        start_time: -3,
        status: "paused".into(),
        workflow_id: "w-1".into(),
    });
    let text = EventLog::new().snapshot("s", &rows).payload.to_text();
    assert!(text.contains(r#""active_context":{"k":[1]}"#), "{text}");
    assert!(text.contains(
        r#"{"args":{},"created_at":9,"mode":"strict","permission_request_id":"p-1","tool_name":"shell"}"#
    ), "{text}");
    assert!(text.contains(
        r#"{"end_time":null,"error":null,"execution_id":"x-1","start_time":-3,"status":"paused","workflow_id":"w-1"}"#
    ), "{text}");
}

#[test]
fn test_what_cannot_be_read_is_replaced() {
    assert_eq!(value_or(Ok(Json::number(4)), Json::Null), Json::number(4));
    assert_eq!(value_or(Err("no".into()), Json::object()), Json::object());
}
