use lingxiao_core::blackboard::Blackboard;
use lingxiao_core::bus::{Message, MessageBus, Priority};
use lingxiao_core::context::ContextManager;
use lingxiao_core::daemon::{
    build_info, command_text, daemon_info, malformed_line_response, parse_command,
    parse_flag_value, parse_serve_db_path, request_id_in, try_extract_request_id, DaemonCommand,
    DAEMON_NAME, DAEMON_VERSION,
};
use lingxiao_core::json::Json;
use lingxiao_core::leader::{LeaderOrchestrator, LeaderPlanError};
use lingxiao_core::permission::{Mode, PermissionRequest};
use lingxiao_core::protocol::actor::{Actor, ActorKind};
use lingxiao_core::protocol::command::CommandResponse;
use lingxiao_core::protocol::error::{CoreError, ErrorCode};
use lingxiao_core::protocol::event::EventEnvelope;
use lingxiao_core::schedule::Scheduler;
use lingxiao_core::session::SessionStatus;
use lingxiao_core::state::TransitionError;
use lingxiao_core::task::TaskStatus;
use lingxiao_core::{core_info, NAME, VERSION};

#[test]
fn test_core_info() {
    let info = core_info();
    assert!(info.contains(NAME));
    assert!(info.contains(VERSION));
    assert_eq!(info, "lingxiao-core v0.1.0");
}

#[test]
fn test_version_constants() {
    assert_eq!(VERSION, "0.1.0");
    assert_eq!(NAME, "lingxiao-core");
}

#[test]
fn test_transition_error_display() {
    let err = TransitionError::Invalid { from: "a".into(), to: "b".into() };
    assert_eq!(err.to_string(), "Invalid transition: \"a\" -> \"b\"");
}

#[test]
fn test_transition_error_quotes_and_names_terminal_states() {
    let err = TransitionError::Terminal { state: "do\"ne\n".into() };
    assert_eq!(err.to_string(), "Terminal state: \"do\\\"ne\\n\"");
}

#[test]
fn test_session_transitions() {
    assert!(SessionStatus::Created.can_transition_to(SessionStatus::Active));
    assert!(SessionStatus::Active.can_transition_to(SessionStatus::Completed));
    assert!(!SessionStatus::Completed.can_transition_to(SessionStatus::Active));
}

#[test]
fn test_terminal_states() {
    assert!(SessionStatus::Completed.is_terminal());
    assert!(SessionStatus::Failed.is_terminal());
    assert!(SessionStatus::Deleted.is_terminal());
    assert!(!SessionStatus::Active.is_terminal());
}

#[test]
fn test_task_transitions() {
    assert!(TaskStatus::Dispatchable.can_transition_to(TaskStatus::Running));
    assert!(TaskStatus::Blocked.can_transition_to(TaskStatus::Dispatchable));
    assert!(TaskStatus::Running.can_transition_to(TaskStatus::Blocked));
    assert!(TaskStatus::Running.can_transition_to(TaskStatus::Terminal));
    assert!(!TaskStatus::Terminal.can_transition_to(TaskStatus::Running));
}

#[test]
fn test_redispatch() {
    assert!(TaskStatus::Running.can_transition_to(TaskStatus::Dispatchable));
}

#[test]
fn test_mode_default() {
    let req = PermissionRequest {
        request_id: "test".into(),
        tool_name: "shell".into(),
        mode: Mode::Strict,
    };
    assert_eq!(req.mode, Mode::Strict);
}

#[test]
fn test_blackboard_creation() {
    let _b = Blackboard::new();
}

#[test]
fn test_leader_creation() {
    let _leader = LeaderOrchestrator::new();
}

#[test]
fn test_p4_leader_plans_from_objective() {
    let plan = LeaderOrchestrator::new()
        .plan_from_objective("Implement durable workflow execution. Then verify it.")
        .unwrap();
    assert_eq!(plan.tasks.len(), 1);
    assert_eq!(plan.tasks[0].subject, "Implement durable workflow execution");
}

fn task(a: &str, x: &str, b: &str, y: &str, c: &str, z: &str) -> Json {
    Json::object().with(a, Json::text(x)).with(b, Json::text(y)).with(c, Json::text(z))
}

#[test]
fn test_p4_leader_normalizes_task_values() {
    let plan = LeaderOrchestrator::new()
        .normalize_task_values(&[
            task("id", "t1", "title", "Build", "body", "Do it"),
            task("task_id", "t2", "subject", "Verify", "description", "Test it"),
        ])
        .unwrap();
    assert_eq!(plan.tasks.len(), 2);
    assert_eq!(plan.tasks[0].task_id.as_deref(), Some("t1"));
    assert_eq!(plan.tasks[0].subject, "Build");
    assert_eq!(plan.tasks[1].description, "Test it");
}

#[test]
fn test_leader_refuses_an_empty_objective() {
    let err = LeaderOrchestrator::new().plan_from_objective("  \n ").unwrap_err();
    assert!(matches!(err, LeaderPlanError::EmptyObjective));
}

#[test]
fn test_scheduler_creation() {
    let _s = Scheduler::new();
}

#[test]
fn test_scheduler_next_run_common_specs() {
    assert_eq!(Scheduler::next_run_after("@hourly", 1_000), Some(3_601_000));
    assert_eq!(Scheduler::next_run_after("every 5m", 0), Some(300_000));
    assert_eq!(Scheduler::next_run_after("*/15 * * * *", 0), Some(900_000));
    assert_eq!(Scheduler::next_run_after("@once", 0), None);
}

#[test]
fn test_scheduler_next_run_standard_cron_fields() {
    assert_eq!(Scheduler::next_run_after("5 * * * *", 0), Some(300_000));
    assert_eq!(Scheduler::next_run_after("0 1 * * *", 0), Some(60 * 60 * 1000));
    assert_eq!(
        Scheduler::next_run_after("10,20 2-3 * * *", 0),
        Some((2 * 60 + 10) * 60 * 1000)
    );
}

#[test]
fn test_scheduler_next_run_weekday_cron() {
    assert_eq!(Scheduler::next_run_after("0 0 * * 5", 0), Some(24 * 60 * 60 * 1000));
    assert_eq!(Scheduler::next_run_after("0 0 * * 7", 0), Some(3 * 24 * 60 * 60 * 1000));
}

#[test]
fn test_scheduler_knows_leap_days_and_other_specs() {
    // 1972-02-29 is day 789.
    assert_eq!(Scheduler::next_run_after("0 0 29 2 *", 0), Some(789 * 86_400_000));
    // 2024-02-29 12:30, from 2024-02-28.
    assert_eq!(
        Scheduler::next_run_after("30 12 29 2 *", 1_709_078_400_000),
        Some(1_709_209_800_000)
    );
    assert_eq!(Scheduler::next_run_after("@daily", 5), Some(86_400_005));
    assert_eq!(Scheduler::next_run_after("@weekly", 0), Some(604_800_000));
    assert_eq!(Scheduler::next_run_after("every:2h", 0), Some(7_200_000));
    assert_eq!(Scheduler::next_run_after("EVERY 3 d", 1), Some(259_200_001));
    assert_eq!(Scheduler::next_run_after("0 0 31 2 *", 0), None);
    assert_eq!(Scheduler::next_run_after("60 * * * *", 0), None);
    assert_eq!(Scheduler::next_run_after("*/0 * * * *", 0), None);
    assert_eq!(Scheduler::next_run_after("every 5x", 0), None);
    assert_eq!(Scheduler::next_run_after("every 10s", u64::MAX), Some(u64::MAX));
    assert_eq!(Scheduler::next_run_after("* * * * *", 59_999), Some(60_000));
    assert_eq!(Scheduler::next_run_after("* * * * *", 60_000), Some(120_000));
}

fn message(id: &str, priority: Priority) -> Message {
    Message {
        from: "leader".into(),
        to: "agent".into(),
        priority,
        content: id.as_bytes().to_vec(),
    }
}

#[test]
fn test_priority_ordering() {
    assert!(Priority::P0 < Priority::P1);
    assert!(Priority::P1 < Priority::P2);
    assert!(Priority::P2 < Priority::P3);
}

#[test]
fn test_gs031_priority_delivery() {
    let mut bus = MessageBus::with_capacity(10);
    bus.publish(message("p3-first", Priority::P3)).unwrap();
    bus.publish(message("p1-second", Priority::P1)).unwrap();
    bus.publish(message("p0-third", Priority::P0)).unwrap();
    bus.publish(message("p2-fourth", Priority::P2)).unwrap();

    assert_eq!(bus.pop_next().unwrap().content, b"p0-third");
    assert_eq!(bus.pop_next().unwrap().content, b"p1-second");
    assert_eq!(bus.pop_next().unwrap().content, b"p2-fourth");
    assert_eq!(bus.pop_next().unwrap().content, b"p3-first");
    assert!(bus.is_empty());
}

#[test]
fn test_bus_keeps_the_order_within_a_priority() {
    let mut bus = MessageBus::with_capacity(10);
    bus.publish(message("a", Priority::P2)).unwrap();
    bus.publish(message("b", Priority::P2)).unwrap();
    bus.publish(message("c", Priority::P1)).unwrap();
    assert_eq!(bus.len(), 3);
    assert_eq!(bus.pop_next().unwrap().content, b"c");
    assert_eq!(bus.pop_next().unwrap().content, b"a");
    assert_eq!(bus.pop_next().unwrap().content, b"b");
    assert!(bus.pop_next().is_none());
}

#[test]
fn test_gs031_backpressure_to_dead_letter() {
    let mut bus = MessageBus::with_capacity(1);
    bus.publish(message("first", Priority::P1)).unwrap();
    let err = bus.publish(message("overflow", Priority::P0)).unwrap_err();

    assert_eq!(err.reason, "backpressure_capacity_exceeded");
    assert_eq!(bus.dead_letters().len(), 1);
    assert_eq!(bus.dead_letters()[0].message.content, b"overflow");
}

#[test]
fn test_gs032_explicit_dead_letter() {
    let mut bus = MessageBus::new();
    bus.reject(message("bad", Priority::P0), "handler_failed");

    assert_eq!(bus.dead_letters().len(), 1);
    assert_eq!(bus.dead_letters()[0].reason, "handler_failed");
    assert_eq!(bus.dead_letters()[0].message.content, b"bad");
}

#[test]
fn test_dead_letters_are_bounded() {
    let mut bus = MessageBus::with_capacity(2);
    bus.reject(message("old", Priority::P0), "failed");
    bus.reject(message("middle", Priority::P0), "failed");
    bus.reject(message("new", Priority::P0), "failed");

    assert_eq!(bus.dead_letters().len(), 2);
    assert_eq!(bus.dead_letters()[0].message.content, b"middle");
    assert_eq!(bus.dead_letters()[1].message.content, b"new");
}

#[test]
fn test_context_manager_creation() {
    let cm = ContextManager::new();
    assert!(cm.replay().is_empty());
}

#[test]
fn test_gs033_message_replay_preserves_order() {
    let mut cm = ContextManager::new();
    cm.append("user", "first", None);
    cm.append("assistant", "second", None);
    cm.append("tool", "third", Some("tool-call-1".into()));

    let replay = cm.replay();
    assert_eq!(replay.len(), 3);
    assert_eq!(replay[0].content, "first");
    assert_eq!(replay[1].content, "second");
    assert_eq!(replay[2].tool_call_id.as_deref(), Some("tool-call-1"));
}

#[test]
fn test_gs034_compaction_does_not_delete_original_facts() {
    let mut cm = ContextManager::new();
    cm.append("user", "fact A", None);
    cm.append("assistant", "fact B", None);
    cm.append("user", "recent C", None);

    let compacted = cm.compact(1);
    assert!(compacted.summary.contains("fact A"));
    assert!(compacted.summary.contains("fact B"));
    assert_eq!(compacted.retained_message_ids, vec![3]);
    assert_eq!(compacted.original_message_count, 3);

    let replay = cm.replay();
    assert_eq!(replay.len(), 3);
    assert_eq!(replay[0].content, "fact A");
    assert_eq!(replay[1].content, "fact B");
    assert_eq!(replay[2].content, "recent C");
}

#[test]
fn test_active_projection_reduces_window_and_preserves_facts_in_summary() {
    let mut cm = ContextManager::new();
    cm.append("user", "fact A", None);
    cm.append("assistant", "fact B", None);
    cm.append("user", "recent C", None);

    let projection = cm.active_projection(1);
    assert_eq!(projection.len(), 2);
    assert_eq!(projection[0].role, "system");
    assert!(projection[0].content.contains("fact A"));
    assert!(projection[0].content.contains("fact B"));
    assert_eq!(projection[1].content, "recent C");
    assert_eq!(cm.replay().len(), 3);
}

#[test]
fn test_error_code_display() {
    assert_eq!(ErrorCode::SessionNotFound.to_string(), "SessionNotFound");
    assert_eq!(ErrorCode::Internal.to_string(), "Internal");
}

#[test]
fn test_internal_errors_are_worth_another_attempt() {
    let err = CoreError::internal("db connection failed");
    assert!(err.retryable);
    assert_eq!(err.code, ErrorCode::Internal);
    let err = CoreError::session_not_found("sess-001");
    assert_eq!(err.code, ErrorCode::SessionNotFound);
    assert!(err.message.contains("sess-001"));
    assert!(!err.retryable);
}

#[test]
fn test_copies_of_responses_keep_their_contents() {
    let event = EventEnvelope {
        event_id: "evt".into(),
        session_id: Some("sess".into()),
        seq: 7,
        generation: 1,
        event_type: "t".into(),
        source: Actor::with_id(ActorKind::Agent, "a"),
        payload: Json::number(3),
        occurred_at: 9,
        causation_id: None,
        correlation_id: Some("req".into()),
    };
    let done = CommandResponse::with_event("req".into(), event, Some(Json::text("ok")));
    let copy = done.clone();
    assert_eq!(format!("{copy:?}"), format!("{done:?}"));
    assert_eq!(copy.latest_seq, Some(7));
    assert_eq!(copy.events[0].source, Actor::with_id(ActorKind::Agent, "a"));
    let failed = CommandResponse::err("req".into(), CoreError::internal("down"));
    assert_eq!(failed.clone().error.unwrap().message, failed.error.unwrap().message);
}

#[test]
fn test_daemon_info() {
    let info = daemon_info();
    assert!(info.contains(DAEMON_NAME));
    assert!(info.contains(DAEMON_VERSION));
}

#[test]
fn test_build_info_names_the_compiler() {
    assert_eq!(build_info(None), "lingxiao-core-daemon v0.1.0 (rustc unknown)");
    assert_eq!(build_info(Some("1.80")), "lingxiao-core-daemon v0.1.0 (rustc 1.80)");
}

#[test]
fn test_daemon_name_constant() {
    assert_eq!(DAEMON_NAME, "lingxiao-core-daemon");
}

#[test]
fn test_parse_serve_db_path_found() {
    let args: Vec<String> = vec![
        "lingxiao-core-daemon".into(),
        "serve".into(),
        "--db".into(),
        "/tmp/test.db".into(),
    ];
    assert_eq!(parse_serve_db_path(&args), Some("/tmp/test.db".into()));
}

#[test]
fn test_parse_serve_db_path_missing_flag() {
    let args: Vec<String> = vec!["lingxiao-core-daemon".into(), "serve".into()];
    assert_eq!(parse_serve_db_path(&args), None);
}

#[test]
fn test_parse_serve_db_path_missing_value() {
    let args: Vec<String> = vec!["lingxiao-core-daemon".into(), "serve".into(), "--db".into()];
    assert_eq!(parse_serve_db_path(&args), None);
}

#[test]
fn test_parse_runtime_config_path_found() {
    let args: Vec<String> = vec![
        "lingxiao-core-daemon".into(),
        "serve".into(),
        "--db".into(),
        "/tmp/test.db".into(),
        "--runtime-config".into(),
        "/tmp/runtime.json".into(),
    ];
    assert_eq!(parse_flag_value(&args, "--runtime-config"), Some("/tmp/runtime.json".into()));
}

#[test]
fn test_try_extract_request_id_from_valid_json() {
    let line = r#"{"request_id":"req-001","method":"session.create","params":{},"actor":{"kind":"user"},"submitted_at":1000}"#;
    assert_eq!(try_extract_request_id(line), "req-001");
}

#[test]
fn test_try_extract_request_id_fallback_on_garbage() {
    assert_eq!(try_extract_request_id("not json at all"), "invalid-json");
}

#[test]
fn test_try_extract_request_id_fallback_on_json_without_request_id() {
    let line = r#"{"foo":"bar"}"#;
    assert_eq!(try_extract_request_id(line), "invalid-json");
}

#[test]
fn test_request_id_has_to_be_a_text() {
    assert_eq!(try_extract_request_id(r#"{"request_id":7}"#), "invalid-json");
    assert_eq!(request_id_in(None), "invalid-json");
    let v = Json::object().with("request_id", Json::text("r"));
    assert_eq!(request_id_in(Some(&v)), "r");
}

#[test]
fn test_malformed_lines_are_answered() {
    let r = malformed_line_response(r#"{"request_id":"r-9"}"#);
    assert_eq!(r.request_id, "r-9");
    assert!(!r.success);
    let e = r.error.unwrap();
    assert_eq!(e.code, ErrorCode::Serialization);
    assert_eq!(e.message, "Malformed command JSON");
    assert_eq!(command_text("  \t"), None);
    assert_eq!(command_text(" {} \n"), Some("{}".to_string()));
}

fn args(list: &[&str]) -> Vec<String> {
    list.iter().map(|s| s.to_string()).collect()
}

#[test]
fn test_commands_of_the_daemon() {
    assert!(matches!(parse_command(&args(&["d", "version"])), DaemonCommand::Version));
    assert!(matches!(parse_command(&args(&["d", "-V"])), DaemonCommand::Version));
    assert!(matches!(parse_command(&args(&["d"])), DaemonCommand::Help));
    assert!(matches!(parse_command(&args(&["d", "--help"])), DaemonCommand::Help));
    assert!(matches!(parse_command(&args(&["d", "serve"])), DaemonCommand::MissingDbPath));
}
