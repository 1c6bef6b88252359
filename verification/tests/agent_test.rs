use lingxiao_core::agent::agent_loop::{AgentLoop, CallStep, GuardEnvironment, RoundStart, RunPhase};
use lingxiao_core::agent::escalation::ToolFailureLoopEscalation;
use lingxiao_core::agent::failure::ToolFailureErrorKind;
use lingxiao_core::agent::failure_guard::{ToolFailureLoopGuard, ToolFailureLoopGuardOptions};
use lingxiao_core::agent::pool::{stale_message, AgentPool};
use lingxiao_core::agent::run::{
    collect_round, dedupe_tool_calls, heartbeat_due, take_event, AgentConfig, AgentContextMessage,
    AgentEffect, AgentEvent, RoundInput, StreamPiece, ToolResult,
};
use lingxiao_core::agent::tool_loop::{ToolLoopDetector, ToolLoopDetectorOptions};
use lingxiao_core::json::Json;
use lingxiao_core::llm::types::{
    AuthContext, FinishReason, GenerateRequest, ProviderError, ProviderErrorCode, RequestOptions,
    StreamEvent, ToolCall, ToolCallDelta, ToolDefinition,
};

fn json(text: &str) -> Json {
    Json::parse(text).unwrap()
}

fn call(id: &str, name: &str, arguments: &str) -> ToolCall {
    ToolCall { id: id.into(), name: name.into(), arguments: json(arguments) }
}

fn ok(output: &str) -> ToolResult {
    ToolResult { success: true, output: json(output), error: None }
}

fn err(message: &str) -> ToolResult {
    ToolResult { success: false, output: Json::Null, error: Some(message.into()) }
}

/// The tools that an agent is offered.
fn offered() -> Vec<ToolDefinition> {
    ["file_read", "list_dir", "shell", "attempt_completion"]
        .iter()
        .map(|name| ToolDefinition {
            name: name.to_string(),
            description: format!("Does {name}"),
            input_schema: json(r#"{"type":"object"}"#),
        })
        .collect()
}

fn environment(detector: Option<&str>, guard: Option<&str>) -> GuardEnvironment {
    GuardEnvironment {
        tool_loop_detector: detector.map(String::from),
        tool_failure_loop_guard: guard.map(String::from),
    }
}

fn agent_loop(config: AgentConfig) -> AgentLoop {
    AgentLoop::new(config, offered(), &environment(None, None))
}

/// Runs an agent to its end against a scripted model and scripted tools.
fn run(
    mut agent: AgentLoop,
    mut model: impl FnMut(usize, &GenerateRequest) -> Vec<StreamPiece>,
    mut tools: impl FnMut(&ToolCall) -> ToolResult,
) -> Vec<AgentEvent> {
    let mut events = Vec::new();
    let mut asked = 0;
    let report = |events: &mut Vec<AgentEvent>, effects: Vec<AgentEffect>| {
        for effect in effects {
            if let AgentEffect::Emit(event) = effect {
                events.push(event);
            }
        }
    };
    let effects = agent.start(Vec::new());
    report(&mut events, effects);
    loop {
        match agent.begin_round(false) {
            RoundStart::Finished(event) => {
                events.push(event);
                return events;
            }
            RoundStart::Ask { request, .. } => {
                let pieces = model(asked, &request);
                asked += 1;
                let effects = agent.finish_round(Ok(collect_round(pieces)));
                report(&mut events, effects);
            }
        }
        if agent.phase() == RunPhase::Over {
            return events;
        }
        while agent.phase() == RunPhase::ExecutingTools {
            match agent.next_call() {
                CallStep::RoundDone => {}
                CallStep::Finished { initiated, completed } => {
                    events.push(initiated);
                    events.push(completed);
                    return events;
                }
                CallStep::Execute { initiated, call } => {
                    events.push(initiated);
                    let result = tools(&call);
                    let effects = agent.try_finish_call(result).unwrap();
                    report(&mut events, effects);
                }
            }
        }
    }
}

fn config(agent: &str, session: &str, task: &str, content: &str, rounds: u32) -> AgentConfig {
    AgentConfig {
        agent_id: agent.into(),
        session_id: session.into(),
        task_id: task.into(),
        task_content: content.into(),
        max_rounds: rounds,
        ..Default::default()
    }
}

fn guard(enabled: bool, threshold: usize) -> ToolFailureLoopGuard {
    let enabled = Some(enabled);
    let options = ToolFailureLoopGuardOptions { enabled, threshold, ..Default::default() };
    ToolFailureLoopGuard::new(options, None)
}

fn detector(enabled: bool, threshold: usize) -> ToolLoopDetector {
    ToolLoopDetector::new(ToolLoopDetectorOptions { enabled: Some(enabled), threshold }, None)
}

fn results(events: &[AgentEvent]) -> Vec<&Json> {
    events
        .iter()
        .filter_map(|e| match e {
            AgentEvent::ToolCallCompleted { result, .. } => Some(result),
            _ => None,
        })
        .collect()
}

fn error_of(v: &Json) -> &str {
    v.get("error").and_then(|e| e.as_str()).unwrap_or("")
}

fn tripped(events: &[AgentEvent]) -> usize {
    results(events).iter().filter(|r| error_of(r).contains("TOOL_FAILURE_LOOP_TRIPPED")).count()
}

fn collect_escalations(events: &[AgentEvent]) -> Vec<&ToolFailureLoopEscalation> {
    events
        .iter()
        .filter_map(|e| match e {
            AgentEvent::ToolFailureLoopEscalated { escalation, .. } => Some(escalation),
            _ => None,
        })
        .collect()
}

fn rounds_used_up(events: &[AgentEvent]) -> bool {
    events.iter().any(|e| {
        matches!(e, AgentEvent::Completed { result, .. } if error_of(result) == "max_rounds_exceeded")
    })
}

fn failing_model(_: usize, _: &GenerateRequest) -> Vec<StreamPiece> {
    vec![
        StreamPiece::Text("trying shell".into()),
        StreamPiece::Call(call("fail-call", "shell", r#"{"command":"ls"}"#)),
    ]
}

fn always_failing(_: &ToolCall) -> ToolResult {
    err("permission denied: requires permission grant 'shell'")
}

#[test]
fn test_p4_agent_loop_completes() {
    let events = run(
        agent_loop(config("agent-1", "sess-1", "task-1", "Write a hello world", 20)),
        |_, _| vec![StreamPiece::Text("Hello, ".into()), StreamPiece::Text("world!".into())],
        |_| ok("null"),
    );
    assert!(events.iter().any(|e| matches!(e, AgentEvent::Started { .. })));
    assert!(events.iter().any(|e| matches!(e, AgentEvent::Completed { .. })));
    match events.last().unwrap() {
        AgentEvent::Completed { agent_id, result } => {
            assert_eq!(agent_id, "agent-1");
            assert_eq!(result.get("answer").unwrap().as_str(), Some("Hello, world!"));
            assert_eq!(*result.get("rounds").unwrap(), Json::number(1));
        }
        other => panic!("unexpected {other:?}"),
    }
}

#[test]
fn test_p4_agent_loop_tool_observe_final_e2e() {
    let events = run(
        agent_loop(config("agent-e2e", "sess-e2e", "task-e2e", "Read the file and report.", 3)),
        |round, request| {
            if round == 0 {
                vec![StreamPiece::Call(call("read-call", "file_read", r#"{"path":"a.txt"}"#))]
            } else {
                assert!(request.messages.last().unwrap().content.contains("agent observed this"));
                vec![StreamPiece::Text("verified file content".into())]
            }
        },
        |c| {
            assert_eq!(c.name, "file_read");
            ok(r#"{"content":"agent observed this"}"#)
        },
    );
    assert!(events.iter().any(|e| matches!(
        e,
        AgentEvent::ToolCallInitiated { tool_call, .. } if tool_call.name == "file_read"
    )));
    assert!(events.iter().any(|e| matches!(
        e,
        AgentEvent::ToolCallCompleted { result, .. }
            if result.get("content").unwrap().as_str() == Some("agent observed this")
    )));
    assert!(events.iter().any(|e| matches!(
        e,
        AgentEvent::Completed { result, .. }
            if result.get("answer").unwrap().as_str() == Some("verified file content")
    )));
}

#[test]
fn test_p4_agent_loop_uses_active_context_projection() {
    let mut seen: Vec<Vec<(String, String, Vec<String>)>> = Vec::new();
    let mut seen_tools: Vec<Vec<String>> = Vec::new();
    let mut c = config("agent-context", "sess-context", "task-context", "original user fact", 2);
    c.context_retain_last = 1;
    let events = run(
        agent_loop(c),
        |round, request| {
            seen_tools.push(request.tools.iter().map(|tool| tool.name.clone()).collect());
            seen.push(
                request
                    .messages
                    .iter()
                    .map(|m| {
                        (
                            m.role.clone(),
                            m.content.clone(),
                            m.tool_calls.iter().map(|t| t.name.clone()).collect(),
                        )
                    })
                    .collect(),
            );
            if round == 0 {
                vec![
                    StreamPiece::Text("need observation".into()),
                    StreamPiece::Call(call("observe-call", "list_dir", r#"{"path":"/tmp"}"#)),
                ]
            } else {
                vec![StreamPiece::Text("done".into())]
            }
        },
        |_| ok("[]"),
    );
    assert!(events.iter().any(|event| matches!(event, AgentEvent::Completed { .. })));
    assert_eq!(seen.len(), 2);
    assert_eq!(seen[0].len(), 1);
    assert_eq!(seen[0][0].1, "original user fact");
    assert_eq!(seen[1].len(), 3);
    assert_eq!(seen[1][0].0, "system");
    assert!(seen[1][0].1.contains("original user fact"));
    assert!(seen[1][0].1.contains("need observation"));
    assert_eq!(seen[1][1].0, "assistant");
    assert_eq!(seen[1][1].2[0], "list_dir");
    assert_eq!(seen[1][2].0, "tool");
    assert_eq!(seen_tools.len(), 2);
    assert!(seen_tools[0].contains(&"file_read".to_string()));
    assert!(seen_tools[0].contains(&"attempt_completion".to_string()));
}

#[test]
fn test_p4_agent_pool_rejects_over_max_parallel() {
    let mut pool = AgentPool::with_max_parallel(0);
    assert!(pool.spawn("pool-agent-over-capacity", 0).is_err());
    assert_eq!(pool.active_count(), 0);
}

#[test]
fn test_p4_agent_pool_spawn_and_cancel() {
    let mut pool = AgentPool::new();
    pool.spawn("pool-agent-1", 0).unwrap();
    assert_eq!(pool.active_count(), 1);
    assert!(pool.spawn("pool-agent-1", 0).is_err());
    assert!(pool.cancel("pool-agent-1"));
    assert!(!pool.cancel("pool-agent-2"));
}

#[test]
fn test_p4_agent_pool_removes_completed_agents() {
    let mut pool = AgentPool::new();
    pool.spawn("pool-agent-complete", 0).unwrap();
    pool.observe(&AgentEvent::Started { agent_id: "pool-agent-complete".into() });
    assert_eq!(pool.active_count(), 1);
    pool.observe(&AgentEvent::Completed {
        agent_id: "pool-agent-complete".into(),
        result: Json::Null,
    });
    assert_eq!(pool.active_count(), 0);
}

#[test]
fn test_p4_agent_heartbeat_staleness() {
    let mut pool = AgentPool::new();
    pool.spawn("stale-agent", 0).unwrap();
    let stale = pool.stale_agents(1_700_000_000_000, 5_000);
    assert_eq!(stale, vec!["stale-agent".to_string()]);
}

#[test]
fn test_p4_agent_heartbeat_monitor_crashes_and_removes_stale_agent() {
    let mut pool = AgentPool::new();
    pool.spawn("stale-agent", 0).unwrap();
    assert_eq!(pool.take_stale(1_700_000_000_000, 5), vec!["stale-agent".to_string()]);
    assert_eq!(stale_message(5), "heartbeat stale for more than 5ms");
    assert_eq!(pool.active_count(), 0);
    assert!(!pool.cancel("stale-agent"));
}

#[test]
fn test_agents_that_give_signs_of_life_stay() {
    let mut pool = AgentPool::new();
    pool.spawn("stale-agent", 0).unwrap();
    pool.spawn("live-agent", 0).unwrap();
    pool.observe(&AgentEvent::Heartbeat { agent_id: "live-agent".into(), at_ms: 99 });
    assert_eq!(pool.take_stale(100, 1), vec!["stale-agent".to_string()]);
    assert_eq!(pool.active_count(), 1);
    assert!(pool.take_stale(100, 1).is_empty());
}

#[test]
fn test_p4_agent_loop_delta_only_stream_executes_tool() {
    let events = run(
        agent_loop(config(
            "agent-delta-only",
            "sess-delta-only",
            "task-delta-only",
            "Read the file using only delta events.",
            3,
        )),
        |round, _| {
            if round == 0 {
                vec![StreamPiece::Assembled(vec![call(
                    "delta-call-1",
                    "file_read",
                    r#"{"path":"f"}"#,
                )])]
            } else {
                vec![StreamPiece::Text("delta-only verified".into())]
            }
        },
        |_| ok(r#"{"content":"delta read content"}"#),
    );
    assert!(events.iter().any(|e| matches!(
        e,
        AgentEvent::ToolCallInitiated { tool_call, .. } if tool_call.name == "file_read"
    )));
    assert!(events.iter().any(|e| matches!(e, AgentEvent::ToolCallCompleted { .. })));
}

fn looping_model(_: usize, _: &GenerateRequest) -> Vec<StreamPiece> {
    vec![
        StreamPiece::Text("reading again".into()),
        StreamPiece::Call(call("loop-read", "file_read", r#"{"path":"p"}"#)),
    ]
}

#[test]
fn test_agent_loop_tool_loop_guard_skips_looping_round_and_injects_system_prompt() {
    let mut asked = 0;
    let mut warned = false;
    let events = run(
        agent_loop(config(
            "agent-loop-guard",
            "sess-loop-guard",
            "task-loop-guard",
            "Read the file repeatedly.",
            4,
        ))
        .with_tool_loop_detector(detector(true, 2)),
        |round, request| {
            asked += 1;
            warned = warned
                || request.messages.iter().any(|m| {
                    m.role == "system"
                        && m.content.contains("`file_read` with the exact same arguments 2 times")
                });
            looping_model(round, request)
        },
        |_| ok(r#"{"content":"content"}"#),
    );
    let initiated =
        events.iter().filter(|e| matches!(e, AgentEvent::ToolCallInitiated { .. })).count();
    assert_eq!(asked, 4);
    assert_eq!(initiated, 2);
    assert!(warned);
    assert!(rounds_used_up(&events));
}

#[test]
fn test_agent_loop_tool_loop_guard_disabled_does_not_skip() {
    let events = run(
        agent_loop(config(
            "agent-loop-disabled",
            "sess-loop-disabled",
            "task-loop-disabled",
            "Read the file repeatedly.",
            3,
        ))
        .with_tool_loop_detector(detector(false, 2)),
        looping_model,
        |_| ok(r#"{"content":"content"}"#),
    );
    let initiated =
        events.iter().filter(|e| matches!(e, AgentEvent::ToolCallInitiated { .. })).count();
    assert_eq!(initiated, 3);
}

#[test]
fn test_agent_loop_failure_guard_surfaces_tripped_error_after_threshold() {
    let events = run(
        agent_loop(config(
            "agent-failure-guard",
            "sess-failure-guard",
            "task-failure-guard",
            "Run the same shell call.",
            5,
        ))
        .with_tool_failure_loop_guard(guard(true, 3)),
        failing_model,
        always_failing,
    );
    assert_eq!(results(&events).len(), 5);
    assert_eq!(tripped(&events), 3);
    assert!(rounds_used_up(&events));
}

#[test]
fn test_agent_loop_failure_guard_disabled_surfaces_raw_failure() {
    let events = run(
        agent_loop(config(
            "agent-failure-disabled",
            "sess-failure-disabled",
            "task-failure-disabled",
            "Run the same shell call.",
            3,
        ))
        .with_tool_failure_loop_guard(guard(false, 2)),
        failing_model,
        always_failing,
    );
    assert_eq!(results(&events).len(), 3);
    for r in results(&events) {
        assert!(!error_of(r).contains("TOOL_FAILURE_LOOP_TRIPPED"));
        assert!(error_of(r).contains("permission denied"));
    }
}

#[test]
fn test_agent_loop_failure_guard_emits_escalation_signal_on_state_error() {
    let events = run(
        agent_loop(config(
            "agent-escalation",
            "sess-escalation",
            "task-escalation",
            "Run the same shell call.",
            5,
        ))
        .with_tool_failure_loop_guard(guard(true, 3)),
        failing_model,
        always_failing,
    );
    let escalations = collect_escalations(&events);
    assert_eq!(escalations.len(), 1);
    let esc = escalations[0];
    assert_eq!(esc.agent_id, "agent-escalation");
    assert_eq!(esc.session_id, "sess-escalation");
    assert_eq!(esc.tool_name, "shell");
    assert_eq!(esc.error_kind, ToolFailureErrorKind::Permission);
    assert!(esc.requires_escalation);
    assert_eq!(esc.count, 3);
    assert_eq!(esc.threshold, 3);
    assert!(esc.last_error_message.contains("permission denied"));
}

#[test]
fn test_agent_loop_failure_guard_no_escalation_on_non_state_trip() {
    let events = run(
        agent_loop(config(
            "agent-timeout-trip",
            "sess-timeout-trip",
            "task-timeout-trip",
            "Run the same shell call.",
            3,
        ))
        .with_tool_failure_loop_guard(guard(true, 2)),
        failing_model,
        |_| err("shell command timed out after 30000ms"),
    );
    assert!(tripped(&events) > 0);
    assert!(collect_escalations(&events).is_empty());
}

#[test]
fn test_agent_loop_failure_guard_disabled_emits_no_escalation() {
    let events = run(
        agent_loop(config(
            "agent-disabled-esc",
            "sess-disabled-esc",
            "task-disabled-esc",
            "Run the same shell call.",
            3,
        ))
        .with_tool_failure_loop_guard(guard(false, 2)),
        failing_model,
        always_failing,
    );
    assert!(collect_escalations(&events).is_empty());
}

#[test]
fn test_agent_loop_failure_guard_success_clears_no_escalation() {
    let mut performed = 0;
    let events = run(
        agent_loop(config(
            "agent-success-clear",
            "sess-success-clear",
            "task-success-clear",
            "Run the same shell call.",
            5,
        ))
        .with_tool_failure_loop_guard(guard(true, 3)),
        failing_model,
        |c| {
            performed += 1;
            if performed <= 1 {
                always_failing(c)
            } else {
                ok(r#"{"content":"ok"}"#)
            }
        },
    );
    assert!(collect_escalations(&events).is_empty());
    assert_eq!(tripped(&events), 0);
}

#[test]
fn test_a_failed_model_call_ends_the_run() {
    let mut agent = agent_loop(config("a", "s", "t", "do", 2));
    agent.start(Vec::new());
    assert!(matches!(agent.begin_round(false), RoundStart::Ask { .. }));
    let effects = agent.finish_round(Err("no route".into()));
    assert_eq!(effects.len(), 1);
    match &effects[0] {
        AgentEffect::Emit(AgentEvent::Crashed { error, .. }) => {
            assert_eq!(error, "LLM stream error on round 0: no route");
        }
        other => panic!("unexpected {other:?}"),
    }
    assert_eq!(agent.phase(), RunPhase::Over);
}

#[test]
fn test_commands_stop_a_run_between_rounds() {
    let mut agent = agent_loop(config("a", "s", "t", "do", 2));
    agent.start(Vec::new());
    match agent.begin_round(true) {
        RoundStart::Finished(AgentEvent::Crashed { error, .. }) => {
            assert_eq!(error, "Cancelled by command");
        }
        other => panic!("unexpected {other:?}"),
    }
}

#[test]
fn test_a_stored_conversation_is_resumed() {
    let mut agent = agent_loop(config("a", "s", "t", "do", 2));
    let stored = vec![
        AgentContextMessage { role: "user".into(), content: "before".into(), tool_call_id: None },
        AgentContextMessage { role: "assistant".into(), content: "yes".into(), tool_call_id: None },
    ];
    assert_eq!(agent.start(stored).len(), 1);
    match agent.begin_round(false) {
        RoundStart::Ask { request, original_message_count } => {
            assert_eq!(original_message_count, 2);
            assert_eq!(request.messages[0].content, "before");
            assert_eq!(request.options.timeout_ms_hint, Some(60_000));
        }
        other => panic!("unexpected {other:?}"),
    }
}

#[test]
fn test_each_request_follows_the_configuration() {
    let mut c = config("a", "s", "t", "do", 2);
    c.model = "some/model".into();
    c.auth_context = AuthContext::BearerToken { token: "secret".into() };
    c.request_options = RequestOptions { max_retries_hint: Some(7), timeout_ms_hint: Some(1) };
    c.round_timeout_ms = 90_000;
    let mut asked = 0;
    run(
        agent_loop(c),
        |round, request| {
            asked += 1;
            assert_eq!(request.model, "some/model");
            assert_eq!(request.auth_context, AuthContext::BearerToken { token: "secret".into() });
            assert_eq!(request.tools, offered());
            assert!(request.stream);
            assert_eq!(
                request.options,
                RequestOptions { max_retries_hint: Some(7), timeout_ms_hint: Some(1) }
            );
            if round == 0 {
                vec![StreamPiece::Call(call("c", "list_dir", "{}"))]
            } else {
                vec![StreamPiece::Text("done".into())]
            }
        },
        |_| ok("[]"),
    );
    assert_eq!(asked, 2);
}

#[test]
fn test_the_environment_switches_the_guards_on() {
    let rounds = || config("a", "s", "t", "do", 5);
    let count = |agent: AgentLoop| {
        let mut performed = 0;
        let events = run(agent, failing_model, |_| {
            performed += 1;
            err("permission denied: requires permission grant 'shell'")
        });
        (performed, tripped(&events))
    };
    let with = |detector, guard| {
        count(AgentLoop::new(rounds(), offered(), &environment(detector, guard)))
    };
    assert_eq!(with(None, None), (5, 0));
    assert_eq!(with(Some("off"), Some("0")), (5, 0));
    assert_eq!(with(Some("on"), None), (4, 0));
    assert_eq!(with(None, Some("true")), (5, 3));
}

#[test]
fn test_completion_is_a_call_of_its_own() {
    let events = run(
        agent_loop(config("a", "s", "t", "do", 2)),
        |_, _| {
            vec![
                StreamPiece::Text("thinking".into()),
                StreamPiece::Call(call("c1", "attempt_completion", r#"{"result":"all done"}"#)),
            ]
        },
        |_| panic!("not to be performed"),
    );
    match events.last().unwrap() {
        AgentEvent::Completed { result, .. } => assert_eq!(result.as_str(), Some("all done")),
        other => panic!("unexpected {other:?}"),
    }
    assert!(events.last().unwrap().is_terminal());
}

#[test]
fn test_calls_with_the_same_id_are_one_call() {
    let mut calls = vec![call("x", "a", "1"), call("y", "b", "2"), call("x", "c", "3")];
    dedupe_tool_calls(&mut calls);
    assert_eq!(calls.len(), 2);
    assert_eq!(calls[0].name, "a");
    assert_eq!(calls[1].name, "b");
}

#[test]
fn test_what_an_event_adds_to_a_round() {
    let delta = ToolCallDelta { index: 1, id: None, name: None, partial_json: Some("{".into()) };
    let error = || ProviderError::new(ProviderErrorCode::Timeout, "late");
    assert!(matches!(
        take_event(Ok(StreamEvent::TextDelta("t".into()))),
        RoundInput::Piece(StreamPiece::Text(t)) if t == "t"
    ));
    assert!(matches!(
        take_event(Ok(StreamEvent::ToolCall(call("i", "n", "{}")))),
        RoundInput::Piece(StreamPiece::Call(c)) if c.id == "i"
    ));
    assert!(matches!(
        take_event(Ok(StreamEvent::ToolCallDelta(delta))),
        RoundInput::Fragment(d) if d.index == 1
    ));
    assert!(matches!(
        take_event(Ok(StreamEvent::Finished(FinishReason::ToolCalls))),
        RoundInput::Assemble
    ));
    assert!(matches!(
        take_event(Ok(StreamEvent::Finished(FinishReason::Stop))),
        RoundInput::Nothing
    ));
    assert!(matches!(
        take_event(Ok(StreamEvent::ThinkingDelta("t".into()))),
        RoundInput::Nothing
    ));
    assert!(matches!(
        take_event(Ok(StreamEvent::Error(error()))),
        RoundInput::Failed(e) if e.message == "late"
    ));
    assert!(matches!(take_event(Err(error())), RoundInput::Failed(_)));
}

#[test]
fn test_signs_of_life_are_due_by_the_interval() {
    assert!(!heartbeat_due(4_999_999, 5));
    assert!(heartbeat_due(5_000_000, 5));
    assert!(heartbeat_due(0, 0));
    let mut c = config("a", "s", "t", "do", 2);
    c.heartbeat_interval_ms = 5;
    let agent = agent_loop(c);
    assert!(!agent.heartbeat_due(4_999_999));
    assert!(agent.heartbeat_due(5_000_000));
}
