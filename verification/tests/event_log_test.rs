use std::collections::HashMap;

use lingxiao_core::event_log::{
    append, append_with_generation_check, check_gap, compact, event_to_row, replay_page,
    row_to_envelope, row_with_payload_to_envelope, sid, AppendOutcome, EventLogMeta, EventRow,
    ReplayBatch, ReplayResult, RowError,
};
use lingxiao_core::json::Json;
use lingxiao_core::protocol::actor::{
    actor_kind_from_json, actor_kind_from_str, actor_kind_to_str, Actor, ActorKind,
};
use lingxiao_core::protocol::event::EventEnvelope;
use lingxiao_core::redact::{redact_event_payload, redact_secret_text};

fn json(text: &str) -> Json {
    Json::parse(text).unwrap()
}

/// A log whose rows are kept in memory.
struct EventLog {
    rows: Vec<EventRow>,
    metas: HashMap<String, EventLogMeta>,
}

impl EventLog {
    fn new() -> Self {
        EventLog { rows: Vec::new(), metas: HashMap::new() }
    }

    fn meta(&self, session: &str) -> EventLogMeta {
        self.metas.get(session).copied().unwrap_or_default()
    }

    fn existing(&self, event_id: &str) -> Option<EventEnvelope> {
        self.rows
            .iter()
            .find(|r| r.event_id == event_id)
            .map(|r| row_to_envelope(r.clone()).unwrap())
    }

    fn append(&mut self, event: EventEnvelope) -> EventEnvelope {
        let session = sid(&event.session_id).to_string();
        let (event, meta, written) =
            append(self.meta(&session), self.existing(&event.event_id), event);
        if written {
            self.rows.push(event_to_row(&event));
        }
        self.metas.insert(session, meta);
        event
    }

    fn append_with_generation_check(&mut self, event: EventEnvelope) -> AppendOutcome {
        let session = sid(&event.session_id).to_string();
        let (outcome, meta) = append_with_generation_check(
            self.meta(&session),
            self.existing(&event.event_id),
            event,
        );
        match &outcome {
            AppendOutcome::Accepted(e) | AppendOutcome::Rejected(e) => {
                self.rows.push(event_to_row(e));
            }
            AppendOutcome::Duplicate(_) => {}
        }
        self.metas.insert(session, meta);
        outcome
    }

    fn replay(&self, session: &str, after: u64, limit: u64) -> ReplayBatch {
        let events = self
            .rows
            .iter()
            .filter(|r| r.session_id == session && r.seq > after)
            .take(limit as usize + 1)
            .map(|r| row_to_envelope(r.clone()).unwrap())
            .collect();
        replay_page(events, limit)
    }

    fn latest_seq(&self, session: &str) -> u64 {
        self.meta(session).last_seq
    }

    fn current_generation(&self, session: &str) -> u64 {
        self.meta(session).current_generation
    }
}

fn make_event(session_id: &str, event_type: &str, generation: u64, seq_hint: u64) -> EventEnvelope {
    EventEnvelope {
        event_id: format!("evt_{}_{}_{}", session_id, seq_hint, event_type.replace('.', "_")),
        session_id: Some(session_id.into()),
        seq: seq_hint,
        generation,
        event_type: event_type.into(),
        source: Actor::new(ActorKind::System),
        payload: Json::object().with("ts", Json::number(seq_hint)),
        occurred_at: 1719000000000 + seq_hint as i64,
        causation_id: None,
        correlation_id: None,
    }
}

fn append_n(log: &mut EventLog, session_id: &str, n: u64, generation: u64) {
    for i in 1..=n {
        let event = make_event(session_id, "test.event", generation, i);
        log.append(event);
    }
}

#[test]
fn test_gs020_replay_full_range() {
    let mut log = EventLog::new();
    append_n(&mut log, "sess-gs020a", 10, 1);

    let batch = log.replay("sess-gs020a", 5, 100);

    assert_eq!(batch.events.len(), 5);
    assert!(!batch.has_more);
    assert_eq!(batch.events[0].seq, 6);
    assert_eq!(batch.events[1].seq, 7);
    assert_eq!(batch.events[2].seq, 8);
    assert_eq!(batch.events[3].seq, 9);
    assert_eq!(batch.events[4].seq, 10);
}

#[test]
fn test_gs020_replay_paginated() {
    let mut log = EventLog::new();
    append_n(&mut log, "sess-gs020b", 10, 1);

    let batch = log.replay("sess-gs020b", 5, 2);

    assert_eq!(batch.events.len(), 2);
    assert_eq!(batch.events[0].seq, 6);
    assert_eq!(batch.events[1].seq, 7);
    assert!(batch.has_more);
}

#[test]
fn test_gs020_replay_empty_range() {
    let mut log = EventLog::new();
    append_n(&mut log, "sess-gs020c", 10, 1);

    let batch = log.replay("sess-gs020c", 10, 100);

    assert!(batch.events.is_empty());
    assert!(!batch.has_more);
}

#[test]
fn test_gs020_replay_cross_session_independence() {
    let mut log = EventLog::new();
    append_n(&mut log, "sess-a", 5, 1);
    append_n(&mut log, "sess-b", 3, 1);

    let batch_a = log.replay("sess-a", 2, 100);
    assert_eq!(batch_a.events.len(), 3);
    assert_eq!(batch_a.events[0].seq, 3);

    let batch_b = log.replay("sess-b", 1, 100);
    assert_eq!(batch_b.events.len(), 2);
    assert_eq!(batch_b.events[0].seq, 2);
}

#[test]
fn test_gs021_late_generation_rejected() {
    let mut log = EventLog::new();
    let ev1 = make_event("sess-gs021", "test.first", 1, 1);
    log.append(ev1);

    let ev2 = make_event("sess-gs021", "test.bump", 2, 2);
    let outcome = log.append_with_generation_check(ev2);
    assert!(matches!(outcome, AppendOutcome::Accepted(_)));

    assert_eq!(log.current_generation("sess-gs021"), 2);

    let late = make_event("sess-gs021", "test.late", 1, 99);
    let outcome = log.append_with_generation_check(late);

    match outcome {
        AppendOutcome::Rejected(event) => {
            assert_eq!(event.generation, 1);
            assert_eq!(event.seq, 3);
        }
        other => panic!("Expected Rejected, got {:?}", other),
    }

    assert_eq!(log.current_generation("sess-gs021"), 2);
}

#[test]
fn test_gs021_same_generation_accepted() {
    let mut log = EventLog::new();
    let ev1 = make_event("sess-gs021b", "test.first", 1, 1);
    log.append(ev1);

    let ev2 = make_event("sess-gs021b", "test.second", 1, 2);
    let outcome = log.append_with_generation_check(ev2);
    assert!(matches!(outcome, AppendOutcome::Accepted(_)));
}

#[test]
fn test_gs021_newer_generation_bumps_and_accepted() {
    let mut log = EventLog::new();
    let ev1 = make_event("sess-gs021c", "test.first", 1, 1);
    log.append(ev1);

    let ev2 = make_event("sess-gs021c", "test.newgen", 3, 2);
    let outcome = log.append_with_generation_check(ev2);
    assert!(matches!(outcome, AppendOutcome::Accepted(_)));
    assert_eq!(log.current_generation("sess-gs021c"), 3);
}

#[test]
fn test_duplicate_event_id_append() {
    let mut log = EventLog::new();
    let ev = make_event("sess-dup", "test.event", 1, 1);
    let first = log.append(ev);
    assert_eq!(first.seq, 1);

    let dup = make_event("sess-dup", "test.event", 1, 1);
    let second = log.append(dup);
    assert_eq!(second.seq, 1);

    let batch = log.replay("sess-dup", 0, 100);
    assert_eq!(batch.events.len(), 1);
}

#[test]
fn test_duplicate_event_id_generation_check() {
    let mut log = EventLog::new();
    let ev = make_event("sess-dup-gen", "test.event", 1, 1);
    let outcome = log.append_with_generation_check(ev);
    assert!(matches!(outcome, AppendOutcome::Accepted(_)));

    let dup = make_event("sess-dup-gen", "test.event", 1, 1);
    let outcome = log.append_with_generation_check(dup);
    assert!(matches!(outcome, AppendOutcome::Duplicate(_)));

    let batch = log.replay("sess-dup-gen", 0, 100);
    assert_eq!(batch.events.len(), 1);
}

#[test]
fn test_append_and_latest_seq() {
    let mut log = EventLog::new();
    assert_eq!(log.latest_seq("no-such-session"), 0);

    let ev = make_event("sess-edge", "test.first", 1, 1);
    log.append(ev);
    assert_eq!(log.latest_seq("sess-edge"), 1);

    let ev2 = make_event("sess-edge", "test.second", 1, 2);
    log.append(ev2);
    assert_eq!(log.latest_seq("sess-edge"), 2);
}

#[test]
fn test_seq_assignment_starts_at_1() {
    let mut log = EventLog::new();
    let ev = make_event("sess-seq1", "test.event", 1, 999);
    let appended = log.append(ev);
    assert_eq!(appended.seq, 1);
}

#[test]
fn test_seq_monotonic_per_session() {
    let mut log = EventLog::new();
    for i in 0..5 {
        let ev = make_event("sess-mon", "test.event", 1, i);
        let appended = log.append(ev);
        assert_eq!(appended.seq, i + 1, "seq must be 1-based monotonic");
    }
}

#[test]
fn test_session_id_none_uses_empty_string() {
    let mut log = EventLog::new();
    let ev = EventEnvelope {
        event_id: "evt_none_session".into(),
        session_id: None,
        seq: 0,
        generation: 1,
        event_type: "daemon.event".into(),
        source: Actor::new(ActorKind::System),
        payload: json(r#"{"key": "val"}"#),
        occurred_at: 1719000000000,
        causation_id: None,
        correlation_id: None,
    };
    let appended = log.append(ev);
    assert_eq!(appended.seq, 1);
    let batch = log.replay("", 0, 100);
    assert_eq!(batch.events.len(), 1);
}

#[test]
fn test_source_kind_stored_as_snake_case() {
    let mut log = EventLog::new();
    let ev = EventEnvelope {
        event_id: "evt_source_kind".into(),
        session_id: Some("sess-sk".into()),
        seq: 0,
        generation: 1,
        event_type: "test.source_kind".into(),
        source: Actor::new(ActorKind::User),
        payload: json(r#"{}"#),
        occurred_at: 1000,
        causation_id: None,
        correlation_id: None,
    };
    log.append(ev);

    let sk = log.rows.iter().find(|r| r.event_id == "evt_source_kind").unwrap().source_kind.clone();
    assert_eq!(sk, "user");
}

#[test]
fn test_source_id_roundtrip() {
    let mut log = EventLog::new();
    let ev = EventEnvelope {
        event_id: "evt_source_id".into(),
        session_id: Some("sess-sid".into()),
        seq: 0,
        generation: 1,
        event_type: "test.source_id".into(),
        source: Actor::with_id(ActorKind::Agent, "agent-001"),
        payload: json(r#"{}"#),
        occurred_at: 1000,
        causation_id: None,
        correlation_id: None,
    };
    log.append(ev);

    let batch = log.replay("sess-sid", 0, 10);
    assert_eq!(batch.events[0].source.id.as_deref(), Some("agent-001"));
}

#[test]
fn test_causation_correlation_roundtrip() {
    let mut log = EventLog::new();
    let mut ev = make_event("sess-cc", "test.cc", 1, 1);
    ev.causation_id = Some("evt_parent".into());
    ev.correlation_id = Some("req-001".into());
    log.append(ev);

    let batch = log.replay("sess-cc", 0, 10);
    assert_eq!(batch.events[0].causation_id.as_deref(), Some("evt_parent"));
    assert_eq!(batch.events[0].correlation_id.as_deref(), Some("req-001"));
}

#[test]
fn test_check_gap_small() {
    let result = check_gap(50, 60);
    assert!(matches!(result, ReplayResult::Events(_)));
}

#[test]
fn test_check_gap_large() {
    let result = check_gap(50, 200);
    assert!(matches!(result, ReplayResult::SnapshotRequired { .. }));
}

#[test]
fn test_check_gap_zero() {
    let result = check_gap(100, 100);
    assert!(matches!(result, ReplayResult::Events(_)));
}

#[test]
fn test_secrets_do_not_reach_the_rows() {
    let mut e = make_event("s", "t", 1, 1);
    e.payload = json(
        r#"{"b":["key sk-abc123, then","Authorization: Bearer tok.en; x"],"a":{"sk-name":"AKIA77 x"}}"#,
    );
    let row = event_to_row(&e);
    assert_eq!(
        row.payload,
        r#"{"a":{"sk-name":"[redacted] x"},"b":["key [redacted], then","Authorization: Bearer [redacted]; x"]}"#
    );
    let back = row_to_envelope(row).unwrap();
    assert_eq!(back.event_id, e.event_id);
    assert_eq!(back.payload, json(
        r#"{"a":{"sk-name":"[redacted] x"},"b":["key [redacted], then","Authorization: Bearer [redacted]; x"]}"#,
    ));
}

#[test]
fn test_redaction_of_texts() {
    assert_eq!(redact_secret_text("no secret"), "no secret");
    assert_eq!(redact_secret_text("sk-ant-api03-x\"y"), "[redacted]\"y");
    assert_eq!(redact_secret_text("(ASIAXYZ)"), "([redacted])");
    assert_eq!(redact_secret_text("BEARER   abc def"), "Bearer   [redacted] def");
    assert_eq!(redact_secret_text("forbearer abc"), "forbearer abc");
    assert_eq!(redact_secret_text("bearer"), "Bearer");
    assert_eq!(redact_secret_text("bearer ,x"), "Bearer ,x");
    assert_eq!(redact_secret_text("\u{e9}bearer t\u{3000}u"), "\u{e9}Bearer [redacted]\u{3000}u");
    assert_eq!(redact_event_payload(&json("[1,null,true]")), json("[1,null,true]"));
}

#[test]
fn test_rows_that_cannot_be_read() {
    let mut row = event_to_row(&make_event("s", "t", 1, 1));
    row.payload = "{".into();
    assert!(matches!(row_to_envelope(row), Err(RowError::Payload(m)) if m.contains("EOF")));
    let mut row = event_to_row(&make_event("s", "t", 1, 1));
    row.source_kind = "martian".into();
    assert!(matches!(
        row_with_payload_to_envelope(row, Json::Null),
        Err(RowError::SourceKind(k)) if k == "martian"
    ));
    for column in ["", "User", "us\\q", "a\"b", "user\n"] {
        assert_eq!(actor_kind_from_str(column), None);
    }
}

#[test]
fn test_source_kinds_are_read_back() {
    for kind in [
        ActorKind::System,
        ActorKind::User,
        ActorKind::Agent,
        ActorKind::Tool,
        ActorKind::Sidecar,
        ActorKind::Runtime,
    ] {
        assert_eq!(actor_kind_from_str(actor_kind_to_str(kind)), Some(kind));
    }
    assert_eq!(actor_kind_from_str("\\u0075ser"), Some(ActorKind::User));
    assert_eq!(actor_kind_from_json(&Ok(Json::text("tool"))), Some(ActorKind::Tool));
    assert_eq!(actor_kind_from_json(&Ok(Json::Null)), None);
    assert_eq!(actor_kind_from_json(&Err("no".into())), None);
}

#[test]
fn test_compaction_never_goes_back_nor_ahead() {
    let meta = EventLogMeta { last_seq: 10, current_generation: 2, compacted_seq: 4 };
    assert_eq!(compact(meta, 7).0, 7);
    assert_eq!(compact(meta, 7).1.compacted_seq, 7);
    assert_eq!(compact(meta, 3).1.compacted_seq, 4);
    assert_eq!(compact(meta, 99).0, 10);
    assert_eq!(compact(meta, 99).1, EventLogMeta { compacted_seq: 10, ..meta });
}

#[test]
fn test_gap_message() {
    match check_gap(50, 200) {
        ReplayResult::SnapshotRequired { message } => {
            assert_eq!(message, "Gap too large (150 > 100). Request full snapshot.");
        }
        other => panic!("unexpected {other:?}"),
    }
    assert!(matches!(check_gap(0, 100), ReplayResult::Events(_)));
    assert!(matches!(check_gap(0, 101), ReplayResult::SnapshotRequired { .. }));
}
