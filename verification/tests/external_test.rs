use lingxiao_core::llm::external::{
    event_decode_error, exit_message_of, provider_exit_message, response_decode_error,
    response_line, CallAction, CallEvent, ExternalProcessProvider, ProviderCall,
};
use lingxiao_core::llm::types::{ProviderError, ProviderErrorCode};
use lingxiao_core::protocol::actor::ActorKind;
use lingxiao_core::runtime_config::{
    background_tick, configure_providers, configure_router, tick_commands, tick_pause_ms,
    LlmProviderConfig, RuntimeConfig, SidecarConfig,
};

fn collected(out: &[u8], err: &[u8]) -> CallEvent {
    CallEvent::Collected { stdout: out.to_vec(), stderr: err.to_vec() }
}

fn exited(success: bool) -> CallEvent {
    CallEvent::Exited { success, status: if success { "0" } else { "exit status: 2" }.into() }
}

fn finished(action: CallAction) -> Result<String, ProviderError> {
    match action {
        CallAction::Finish(r) => r,
        other => panic!("unexpected {other:?}"),
    }
}

fn waiting(timeout_ms: u64) -> ProviderCall {
    let mut call = ProviderCall::answer(timeout_ms);
    assert!(matches!(call.step(CallEvent::Started), CallAction::Send));
    match call.step(CallEvent::Sent) {
        CallAction::Wait { at_most_ns } => {
            assert_eq!(at_most_ns, timeout_ms as u128 * 1_000_000);
        }
        other => panic!("unexpected {other:?}"),
    }
    call
}

fn reading(timeout_ms: u64) -> ProviderCall {
    let mut call = ProviderCall::stream(timeout_ms);
    assert!(matches!(call.step(CallEvent::Started), CallAction::Send));
    assert!(matches!(call.step(CallEvent::Sent), CallAction::Receive));
    call
}

#[test]
fn test_external_process_provider_non_stream_roundtrip() {
    let mut call = waiting(30_000);
    assert!(matches!(call.step(exited(true)), CallAction::Collect));
    let stdout = finished(call.step(collected(b"\n  \n{\"content\":\"external response\"}\nx\n", b"")));
    let line = response_line(&stdout.unwrap()).unwrap();
    assert_eq!(line, "{\"content\":\"external response\"}");
}

#[test]
fn test_external_process_provider_stream_roundtrip() {
    let mut call = reading(30_000);
    for text in ["\"plan\"", "\"hello\""] {
        assert!(matches!(
            call.step(CallEvent::Line { text: text.into() }),
            CallAction::Emit
        ));
        assert!(matches!(call.step(CallEvent::Taken), CallAction::Look));
        assert!(matches!(call.step(CallEvent::Looked { elapsed_ns: 5 }), CallAction::Receive));
    }
    assert!(matches!(call.step(CallEvent::Line { text: "  ".into() }), CallAction::Receive));
    assert!(matches!(call.step(CallEvent::Quiet), CallAction::Look));
    assert!(matches!(call.step(CallEvent::Looked { elapsed_ns: 6 }), CallAction::Receive));
    assert!(matches!(call.step(CallEvent::Closed), CallAction::Look));
    match call.step(CallEvent::Looked { elapsed_ns: 1_000_000 }) {
        CallAction::Wait { at_most_ns } => assert_eq!(at_most_ns, 29_999_000_000),
        other => panic!("unexpected {other:?}"),
    }
    assert!(matches!(call.step(exited(true)), CallAction::Collect));
    assert!(finished(call.step(collected(b"", b""))).is_ok());
}

#[test]
fn test_external_process_provider_timeout() {
    let mut call = waiting(50);
    assert!(matches!(call.step(CallEvent::StillRunning), CallAction::Kill));
    let err = finished(call.step(collected(b"", b""))).unwrap_err();
    assert_eq!(err.code, ProviderErrorCode::Timeout);
    assert_eq!(err.message, "provider executor timeout");
    assert!(err.retryable);

    let mut call = reading(50);
    assert!(matches!(call.step(CallEvent::Quiet), CallAction::Look));
    assert!(matches!(call.step(CallEvent::Looked { elapsed_ns: 50_000_001 }), CallAction::Kill));
    let err = finished(call.step(collected(b"", b""))).unwrap_err();
    assert_eq!(err.code, ProviderErrorCode::Timeout);
}

#[test]
fn test_external_process_provider_error_does_not_leak_stderr_secret() {
    let mut call = waiting(50);
    call.step(exited(false));
    let err = finished(call.step(collected(b"", b"failed with sk-core-secret\n"))).unwrap_err();
    assert_eq!(err.code, ProviderErrorCode::ServerError);
    assert!(!err.message.contains("sk-core-secret"));
    assert!(!format!("{err:?}").contains("sk-core-secret"));
    assert_eq!(err.message, "provider executor exited with status exit status: 2");
}

#[test]
fn test_messages_of_failed_processes() {
    assert_eq!(
        provider_exit_message("1", b"  boom \nsk-later"),
        "provider executor exited with status 1: boom"
    );
    assert_eq!(provider_exit_message("1", b"\nboom"), "provider executor exited with status 1");
    assert_eq!(exit_message_of("9", "x sk- y"), "provider executor exited with status 9");
    assert_eq!(
        provider_exit_message("1", b"bad \xff"),
        "provider executor exited with status 1: bad \u{fffd}"
    );
}

#[test]
fn test_other_ends_of_a_call() {
    let cases = [
        (
            CallEvent::NotStarted { message: "m".into() },
            ProviderErrorCode::ServerError,
            "provider executor spawn failed: m",
        ),
    ];
    for (event, code, message) in cases {
        let err = finished(ProviderCall::answer(1).step(event)).unwrap_err();
        assert_eq!(err.code, code);
        assert_eq!(err.message, message);
    }
    let mut call = ProviderCall::stream(1);
    call.step(CallEvent::Started);
    let err = finished(call.step(CallEvent::NotEncoded { message: "m".into() })).unwrap_err();
    assert_eq!(err.code, ProviderErrorCode::BadRequest);
    assert_eq!(err.message, "provider request serialization failed: m");
    let mut call = ProviderCall::stream(1);
    call.step(CallEvent::Started);
    let err = finished(call.step(CallEvent::NotSent { message: "m".into() })).unwrap_err();
    assert_eq!(err.message, "provider request write failed: m");

    let err = finished(reading(1).step(CallEvent::NoOutput)).unwrap_err();
    assert_eq!(err.message, "provider executor stdout unavailable");
    let err =
        finished(reading(1).step(CallEvent::ReadFailed { message: "m".into() })).unwrap_err();
    assert_eq!(err.code, ProviderErrorCode::StreamInterrupted);
    assert_eq!(err.message, "provider stdout read failed: m");

    let mut call = reading(1);
    call.step(CallEvent::Line { text: "x".into() });
    let refusal = ProviderError::new(ProviderErrorCode::ContentFiltered, "no");
    let err = finished(call.step(CallEvent::Refused { error: refusal })).unwrap_err();
    assert_eq!(err.code, ProviderErrorCode::ContentFiltered);

    let mut call = reading(1);
    call.step(CallEvent::Closed);
    call.step(CallEvent::Looked { elapsed_ns: 9_000_000 });
    call.step(exited(true));
    let err = finished(call.step(collected(b"", b""))).unwrap_err();
    assert_eq!(err.message, "provider executor emitted no stream events");

    let mut call = waiting(1);
    call.step(exited(true));
    let err = finished(call.step(collected(b"a\xff", b""))).unwrap_err();
    assert_eq!(err.code, ProviderErrorCode::StreamInterrupted);
    assert_eq!(
        err.message,
        "provider executor emitted non-utf8 stdout: invalid utf-8 sequence of 1 bytes from index 1"
    );

    let err = finished(waiting(1).step(CallEvent::WaitFailed { message: "m".into() })).unwrap_err();
    assert_eq!(err.message, "provider executor wait failed: m");
    let err = response_line(" \n").unwrap_err();
    assert_eq!(err.message, "provider executor emitted no response");
    assert_eq!(response_decode_error("m").message, "provider response decode failed: m");
    assert_eq!(event_decode_error("m").message, "provider stream event decode failed: m");
}

#[test]
fn test_configuration_of_an_external_provider() {
    let p = ExternalProcessProvider::new("ext", "prog");
    assert_eq!(p.provider_id(), "ext");
    assert_eq!(p.program(), "prog");
    assert_eq!(p.cwd(), ".");
    assert!(p.supports_model("anything"));
    assert_eq!(p.timeout_ms(None), 30_000);
    assert_eq!(p.timeout_ms(Some(4)), 4);
    let p = p
        .with_args(vec!["-a".into()])
        .with_models(vec!["m".into()])
        .with_cwd("/w")
        .with_timeout_ms(9);
    assert_eq!(p.args(), ["-a".to_string()]);
    assert_eq!(p.cwd(), "/w");
    assert!(p.supports_model("m"));
    assert!(!p.supports_model("n"));
    assert_eq!(p.timeout_ms(None), 9);
}

fn provider(id: &str, program: &str, model: &str) -> LlmProviderConfig {
    LlmProviderConfig {
        provider_id: id.into(),
        program: program.into(),
        args: Vec::new(),
        models: vec![model.into()],
        cwd: None,
        timeout_ms: None,
        unit_cost: Some(2),
        context_window: Some(1024),
        supports_tools: Some(false),
        supports_streaming: Some(true),
    }
}

#[test]
fn test_a_provider_is_run_as_its_last_configuration_says() {
    let c = configure_providers(&vec![
        provider("a", "one", "m1"),
        provider("b", "two", "m2"),
        provider("a", "three", "m3"),
    ]);
    assert_eq!(c.registry.provider_count(), 2);
    assert_eq!(c.providers.len(), 2);
    assert_eq!(c.registry.provider_id(0), "a");
    assert_eq!(c.providers[0].program(), "three");
    assert_eq!(c.providers[1].program(), "two");
    let m = c.registry.model_metadata("a", "m1").unwrap();
    assert_eq!(m.context_window, Some(1024));
    assert_eq!(m.unit_cost, Some(2));
    assert!(!m.supports_tools);
    assert!(m.supports_streaming);
    assert!(!m.vision_declared);
    assert!(c.registry.model_metadata("a", "m2").is_none());
}

#[test]
fn test_what_a_configuration_sets_up() {
    let mut config = RuntimeConfig::default();
    assert!(configure_router(&config).llm.is_none());
    assert_eq!(background_tick(&config), None);
    config.background_schedule_tick_ms = Some(0);
    assert_eq!(background_tick(&config), None);
    config.background_schedule_tick_ms = Some(25);
    assert_eq!(background_tick(&config), Some(25));
    config.llm_providers.push(provider("external", "p", "external/model"));
    config.sidecars.push(SidecarConfig {
        tool_name: "t".into(),
        program: "q".into(),
        args: vec!["-v".into()],
        cwd: Some("/d".into()),
    });
    let setup = configure_router(&config);
    let (router, providers) = setup.llm.unwrap();
    assert_eq!(router.registry().provider_id(0), "external");
    assert_eq!(providers[0].program(), "p");
    assert_eq!(setup.sidecars[0].0, "t");
    assert_eq!(setup.sidecars[0].1.program, "q");
    assert_eq!(setup.sidecars[0].1.args, vec!["-v".to_string()]);
    assert_eq!(setup.sidecars[0].1.cwd.as_deref(), Some("/d"));
}

#[test]
fn test_commands_of_a_tick() {
    let (sweep, fire) = tick_commands(1700);
    assert_eq!(sweep.request_id, "retention-sweep-1700");
    assert_eq!(sweep.method, "retention.sweep");
    assert_eq!(fire.request_id, "schedule-tick-1700");
    assert_eq!(fire.method, "schedule.fire_due");
    assert_eq!(fire.actor.kind, ActorKind::System);
    assert_eq!(fire.actor.id.as_deref(), Some("schedule-ticker"));
    assert_eq!(fire.submitted_at, 1700);
    assert_eq!(fire.params.to_text(), "{}");
    assert_eq!(tick_commands(i64::MIN).0.request_id, "retention-sweep--9223372036854775808");
    assert_eq!(tick_pause_ms(0), 1);
    assert_eq!(tick_pause_ms(7), 7);
}
