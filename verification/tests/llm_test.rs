use std::collections::VecDeque;

use lingxiao_core::json::Json;
use lingxiao_core::llm::breaker::CircuitBreaker;
use lingxiao_core::llm::capability::{KnownModel, ModelsDevRegistry};
use lingxiao_core::llm::mock::MockLlmProvider;
use lingxiao_core::llm::registry::{ModelRoutingMetadata, ProviderRegistry};
use lingxiao_core::llm::retry::{RetryConfig, RetryDecision};
use lingxiao_core::llm::router::{LlmRouter, RouteStep};
use lingxiao_core::llm::secrets::redact_error_for_request;
use lingxiao_core::llm::tokens::{estimate_request_tokens, estimate_text_tokens};
use lingxiao_core::llm::types::{
    AuthContext, FinishReason, GenerateRequest, Message, ProviderError,
    ProviderErrorCode, RequestOptions, StreamEvent, TokenUsage, ToolCall, ToolCallDelta,
    ToolDefinition,
};

type Stream = Vec<Result<StreamEvent, ProviderError>>;
type StreamResult = Result<Stream, ProviderError>;

/// A provider that answers by plan, and then by the standard script.
struct Planned {
    id: &'static str,
    models: Vec<&'static str>,
    outcomes: VecDeque<StreamResult>,
    calls: u32,
}

fn planned(id: &'static str, models: &[&'static str], outcomes: Vec<StreamResult>) -> Planned {
    Planned { id, models: models.to_vec(), outcomes: outcomes.into(), calls: 0 }
}

fn error(code: ProviderErrorCode, message: &str) -> StreamResult {
    Err(ProviderError::new(code, message))
}

struct Request {
    model: &'static str,
    text: &'static str,
    tools: usize,
    image: bool,
    auth: AuthContext,
}

impl Request {
    fn whole(self) -> GenerateRequest {
        let tool = |i: usize| ToolDefinition {
            name: format!("tool-{i}"),
            description: String::new(),
            input_schema: Json::object(),
        };
        GenerateRequest {
            model: self.model.into(),
            messages: vec![Message {
                role: "user".into(),
                content: self.text.into(),
                tool_calls: vec![],
                tool_call_id: None,
                name: None,
            }],
            tools: (0..self.tools).map(tool).collect(),
            stream: true,
            auth_context: self.auth,
            options: RequestOptions { max_retries_hint: None, timeout_ms_hint: None },
        }
    }
}

fn request(model: &'static str) -> Request {
    Request { model, text: "test", tools: 0, image: false, auth: AuthContext::NoAuth }
}

fn image_request(model: &'static str) -> Request {
    Request { image: true, text: "", ..request(model) }
}

/// Routes a request to planned providers, without waiting between attempts.
fn route(
    router: &mut LlmRouter,
    providers: &mut [Planned],
    request: Request,
    vision: impl Fn(&str) -> Option<bool>,
    now_ms: u64,
) -> StreamResult {
    let image = request.image;
    let mut way = router.begin_route(request.whole(), image);
    let mut model = way.next_model().unwrap();
    let supports = |providers: &[Planned], model: &str| -> Vec<bool> {
        providers.iter().map(|p| p.models.is_empty() || p.models.contains(&model)).collect()
    };
    let listed = supports(providers, &model);
    let mut step = router.choose_provider(&mut way, &listed, vision(&model), now_ms);
    loop {
        step = match step {
            RouteStep::NextModel => {
                model = way.next_model().unwrap_or_default();
                let listed = supports(providers, &model);
                router.choose_provider(&mut way, &listed, vision(&model), now_ms)
            }
            RouteStep::Call { provider, request } => {
                assert_eq!(request.model, model);
                let p = &mut providers[provider];
                p.calls += 1;
                let streamed = p
                    .outcomes
                    .pop_front()
                    .unwrap_or_else(|| Ok(MockLlmProvider::standard_stream()));
                router.finish_attempt(&mut way, streamed, now_ms)
            }
            RouteStep::Wait { .. } => router.resume(&mut way, now_ms),
            RouteStep::Deliver { events } => return Ok(events),
            RouteStep::Failed(e) => return Err(e),
        };
    }
}

fn unknown(_: &str) -> Option<bool> {
    None
}

fn registry_of(providers: &[Planned]) -> ProviderRegistry {
    let mut registry = ProviderRegistry::new();
    for p in providers {
        registry.register(p.id);
    }
    registry
}

fn no_delay(max_retries: u32) -> RetryConfig {
    RetryConfig { max_retries, base_delay_ms: 0, max_delay_ms: 0 }
}

/// An integer that orders as the cost of a million tokens each way does.
fn cost(input: f64, output: f64) -> i64 {
    ((input + output) * 1000.0) as i64
}

#[test]
fn test_model_routing_metadata_prefers_lower_cost_provider() {
    let mut p = [
        planned("expensive", &["shared/model"], vec![]),
        planned("cheap", &["shared/model"], vec![]),
    ];
    let mut registry = registry_of(&p);
    registry.register_model_metadata(
        ModelRoutingMetadata::new("expensive", "shared/model").with_unit_cost(cost(10.0, 20.0)),
    );
    registry.register_model_metadata(
        ModelRoutingMetadata::new("cheap", "shared/model").with_unit_cost(cost(1.0, 2.0)),
    );
    let mut router = LlmRouter::new(registry);
    route(&mut router, &mut p, request("shared/model"), unknown, 0).unwrap();
    assert_eq!(p[1].calls, 1);
    assert_eq!(p[0].calls, 0);
}

#[test]
fn test_model_routing_metadata_filters_tool_incompatible_provider() {
    let mut p = [
        planned("text-only", &["shared/model"], vec![]),
        planned("tool-capable", &["shared/model"], vec![]),
    ];
    let mut registry = registry_of(&p);
    registry.register_model_metadata(
        ModelRoutingMetadata::new("text-only", "shared/model")
            .with_unit_cost(cost(1.0, 1.0))
            .with_tool_support(false),
    );
    registry.register_model_metadata(
        ModelRoutingMetadata::new("tool-capable", "shared/model").with_unit_cost(cost(5.0, 5.0)),
    );
    let mut router = LlmRouter::new(registry);
    let r = Request { tools: 1, ..request("shared/model") };
    route(&mut router, &mut p, r, unknown, 0).unwrap();
    assert_eq!(p[1].calls, 1);
    assert_eq!(p[0].calls, 0);
}

#[test]
fn test_model_routing_metadata_filters_stream_incompatible_provider() {
    let mut p = [
        planned("blocking-only", &["shared/model"], vec![]),
        planned("streaming", &["shared/model"], vec![]),
    ];
    let mut registry = registry_of(&p);
    registry.register_model_metadata(
        ModelRoutingMetadata::new("blocking-only", "shared/model")
            .with_unit_cost(cost(1.0, 1.0))
            .with_streaming_support(false),
    );
    registry.register_model_metadata(
        ModelRoutingMetadata::new("streaming", "shared/model").with_unit_cost(cost(5.0, 5.0)),
    );
    let mut router = LlmRouter::new(registry);
    route(&mut router, &mut p, request("shared/model"), unknown, 0).unwrap();
    assert_eq!(p[1].calls, 1);
    assert_eq!(p[0].calls, 0);
}

#[test]
fn test_model_routing_metadata_filters_vision_incompatible_provider_for_image_request() {
    let mut p = [
        planned("text-only", &["shared/model"], vec![]),
        planned("vision-capable", &["shared/model"], vec![]),
    ];
    let mut registry = registry_of(&p);
    registry.register_model_metadata(
        ModelRoutingMetadata::new("text-only", "shared/model")
            .with_unit_cost(cost(1.0, 1.0))
            .with_vision_support(false),
    );
    registry.register_model_metadata(
        ModelRoutingMetadata::new("vision-capable", "shared/model").with_unit_cost(cost(5.0, 5.0)),
    );
    let mut router = LlmRouter::new(registry);
    route(&mut router, &mut p, image_request("shared/model"), unknown, 0).unwrap();
    assert_eq!(p[1].calls, 1);
    assert_eq!(p[0].calls, 0);
}

#[test]
fn test_model_routing_vision_request_returns_clear_error_when_no_vision_provider() {
    let mut p = [planned("text-only", &["shared/model"], vec![])];
    let mut registry = registry_of(&p);
    registry.register_model_metadata(
        ModelRoutingMetadata::new("text-only", "shared/model")
            .with_unit_cost(cost(1.0, 1.0))
            .with_vision_support(false),
    );
    let mut router = LlmRouter::new(registry);
    let err = route(&mut router, &mut p, image_request("shared/model"), unknown, 0).unwrap_err();
    assert_eq!(err.code, ProviderErrorCode::UnsupportedModel);
    assert!(err.message.contains("vision"), "error should name vision: got {}", err.message);
    assert_eq!(p[0].calls, 0);
}

#[test]
fn test_model_routing_vision_gate_does_not_affect_plain_text_request() {
    let mut p = [planned("text-only", &["shared/model"], vec![])];
    let mut registry = registry_of(&p);
    registry.register_model_metadata(
        ModelRoutingMetadata::new("text-only", "shared/model")
            .with_unit_cost(cost(1.0, 1.0))
            .with_vision_support(false),
    );
    let mut router = LlmRouter::new(registry);
    route(&mut router, &mut p, request("shared/model"), unknown, 0).unwrap();
    assert_eq!(p[0].calls, 1);
}

#[test]
fn test_model_routing_vision_default_true_keeps_unconfigured_provider() {
    let mut p = [planned("unconfigured", &["shared/model"], vec![])];
    let mut router = LlmRouter::new(registry_of(&p));
    route(&mut router, &mut p, image_request("shared/model"), unknown, 0).unwrap();
    assert_eq!(p[0].calls, 1);
}

#[test]
fn test_capability_registry_vision_explicit_false_overrides_registry_true() {
    let mut p = [planned("declared-text-only", &["shared/model"], vec![])];
    let mut registry = registry_of(&p);
    registry.register_model_metadata(
        ModelRoutingMetadata::new("declared-text-only", "shared/model").with_vision_support(false),
    );
    let mut router = LlmRouter::new(registry);
    let vision = |m: &str| (m == "shared/model").then_some(true);
    let err = route(&mut router, &mut p, image_request("shared/model"), vision, 0).unwrap_err();
    assert_eq!(err.code, ProviderErrorCode::UnsupportedModel);
    assert!(err.message.contains("vision"), "got: {}", err.message);
    assert_eq!(p[0].calls, 0);
}

#[test]
fn test_capability_registry_vision_false_filters_out_image_request() {
    let mut p = [planned("undeclared", &["text-only-model"], vec![])];
    let mut registry = registry_of(&p);
    registry.register_model_metadata(
        ModelRoutingMetadata::new("undeclared", "text-only-model").with_unit_cost(cost(1.0, 1.0)),
    );
    let mut router = LlmRouter::new(registry);
    let vision = |m: &str| (m == "text-only-model").then_some(false);
    let err = route(&mut router, &mut p, image_request("text-only-model"), vision, 0).unwrap_err();
    assert_eq!(err.code, ProviderErrorCode::UnsupportedModel);
    assert!(err.message.contains("vision"), "got: {}", err.message);
    assert_eq!(p[0].calls, 0);
}

#[test]
fn test_capability_registry_vision_true_routes_image_request() {
    let mut p = [planned("undeclared-vision", &["vision-model"], vec![])];
    let mut router = LlmRouter::new(registry_of(&p));
    let vision = |m: &str| (m == "vision-model").then_some(true);
    route(&mut router, &mut p, image_request("vision-model"), vision, 0).unwrap();
    assert_eq!(p[0].calls, 1);
}

#[test]
fn test_capability_registry_miss_keeps_optimistic_default_true() {
    let mut p = [planned("unknown-model-provider", &["some/novel-model"], vec![])];
    let mut router = LlmRouter::new(registry_of(&p));
    let vision = |m: &str| (m == "other-model").then_some(false);
    route(&mut router, &mut p, image_request("some/novel-model"), vision, 0).unwrap();
    assert_eq!(p[0].calls, 1);
}

#[test]
fn test_capability_registry_does_not_affect_plain_text_request() {
    let mut p = [planned("text-ok", &["text-only-model"], vec![])];
    let mut router = LlmRouter::new(registry_of(&p));
    let vision = |m: &str| (m == "text-only-model").then_some(false);
    route(&mut router, &mut p, request("text-only-model"), vision, 0).unwrap();
    assert_eq!(p[0].calls, 1);
}

#[test]
fn test_capability_registry_vision_false_does_not_affect_routing_without_registry() {
    let mut p = [planned("no-registry", &["shared/model"], vec![])];
    let mut registry = registry_of(&p);
    registry.register_model_metadata(
        ModelRoutingMetadata::new("no-registry", "shared/model").with_unit_cost(cost(1.0, 1.0)),
    );
    let mut router = LlmRouter::new(registry);
    route(&mut router, &mut p, image_request("shared/model"), unknown, 0).unwrap();
    assert_eq!(p[0].calls, 1);
}

fn known(key: &str, attachment: Option<bool>, inputs: &[&str]) -> KnownModel {
    KnownModel {
        key: key.into(),
        attachment,
        input_modalities: inputs.iter().map(|s| s.to_string()).collect(),
    }
}

#[test]
fn test_known_models_are_found_by_name_and_by_prefix() {
    let registry = ModelsDevRegistry::from_models(&vec![
        known("Vision-Large-4", Some(true), &["text"]),
        known("text-embedding-3-large", Some(false), &["text"]),
        known("gpt-5", None, &["text", "IMAGE"]),
        known("gpt", None, &["text"]),
        known("both", Some(false), &[]),
        known("BOTH", None, &["image"]),
        known("both", None, &[]),
    ]);
    assert_eq!(registry.vision_for("vision-large-4"), Some(true));
    assert_eq!(registry.vision_for("text-embedding-3-large"), Some(false));
    assert_eq!(registry.vision_for("definitely-not-a-real-model-xyz"), None);
    assert_eq!(registry.vision_for("gpt-5"), Some(true));
    assert_eq!(registry.vision_for("gpt-5-deployment-alias-12345"), Some(true));
    assert_eq!(registry.vision_for(" GPT-4 "), Some(false));
    assert_eq!(registry.vision_for("both"), Some(true));
    assert_eq!(registry.vision_for("  "), None);
    assert_eq!(ModelsDevRegistry::from_models(&Vec::new()).vision_for("gpt-5"), None);
}

#[test]
fn test_model_context_window_rejects_before_provider_call() {
    let mut p = [planned("limited", &["limited/model"], vec![])];
    let mut registry = registry_of(&p);
    registry.register_model_metadata(
        ModelRoutingMetadata::new("limited", "limited/model").with_context_window(4),
    );
    let mut router = LlmRouter::new(registry);
    let r = Request {
        text: "this prompt is intentionally larger than the tiny window",
        ..request("limited/model")
    };
    let err = route(&mut router, &mut p, r, unknown, 0).unwrap_err();
    assert_eq!(err.code, ProviderErrorCode::ContextOverflow);
    assert_eq!(p[0].calls, 0);
}

#[test]
fn test_p2_retry_succeeds_after_transient_failures() {
    let mut p = [planned(
        "mock",
        &["mock/model"],
        vec![
            error(ProviderErrorCode::ServerError, "upstream 500"),
            error(ProviderErrorCode::Timeout, "request timed out"),
            Ok(MockLlmProvider::standard_stream()),
        ],
    )];
    let mut router = LlmRouter::new(registry_of(&p)).with_retry_config(no_delay(3));
    let result = route(&mut router, &mut p, request("mock/model"), unknown, 0);
    assert!(result.is_ok(), "Should succeed after retries");
    assert_eq!(p[0].calls, 3);
}

#[test]
fn test_p2_stream_event_error_triggers_retry_and_circuit_accounting() {
    let mut p = [planned(
        "mock",
        &["mock/model"],
        vec![
            Ok(vec![Ok(StreamEvent::Error(ProviderError::new(
                ProviderErrorCode::ServerError,
                "stream 500",
            )))]),
            Ok(MockLlmProvider::standard_stream()),
        ],
    )];
    let mut router = LlmRouter::new(registry_of(&p)).with_retry_config(no_delay(1));
    let events = route(&mut router, &mut p, request("mock/model"), unknown, 0).unwrap();
    assert!(events.iter().any(|event| matches!(event, Ok(StreamEvent::TextDelta(_)))));
    assert_eq!(p[0].calls, 2);
}

#[test]
fn test_p2_retry_stops_on_non_retryable() {
    let mut p = [planned("mock", &["mock/model"], vec![])];
    let mut router = LlmRouter::new(registry_of(&p)).with_retry_config(RetryConfig {
        max_retries: 5,
        base_delay_ms: 1,
        max_delay_ms: 10,
    });
    let result = route(&mut router, &mut p, request("nonexistent/model"), unknown, 0);
    assert!(result.is_err());
    let err = result.unwrap_err();
    assert_eq!(err.code, ProviderErrorCode::UnsupportedModel);
}

#[test]
fn test_p2_retry_stops_on_auth_and_bad_request_without_fallback() {
    for code in [ProviderErrorCode::Authentication, ProviderErrorCode::BadRequest] {
        let mut p = [
            planned("primary", &["primary/model"], vec![error(code, "terminal provider error")]),
            planned("fallback", &["fallback/model"], vec![]),
        ];
        let mut router = LlmRouter::new(registry_of(&p))
            .with_fallback_chain("primary/model", vec!["fallback/model".into()])
            .with_retry_config(no_delay(5));
        let err = route(&mut router, &mut p, request("primary/model"), unknown, 0).unwrap_err();
        assert_eq!(err.code, code);
        assert_eq!(p[0].calls, 1);
        assert_eq!(p[1].calls, 0);
    }
}

#[test]
fn test_p2_circuit_breaker_opens_and_resets() {
    let mut breaker = CircuitBreaker::new(5, 15_000);
    for _ in 0..5 {
        breaker.record_failure(1_000);
    }
    assert!(breaker.is_open(1_000), "Circuit should be open after 5 failures");
    breaker.reset();
    assert!(!breaker.is_open(1_000), "Circuit should be closed after reset");
}

#[test]
fn test_p2_circuit_breaker_resets_after_timeout_and_manual_reset() {
    let mut breaker = CircuitBreaker::new(2, 20);
    breaker.record_failure(1_000);
    breaker.record_failure(1_000);
    assert!(breaker.is_open(1_000), "Circuit should open at threshold");
    assert!(!breaker.is_open(1_025), "Circuit should allow a probe after reset timeout");
    breaker.record_failure(1_025);
    assert!(breaker.is_open(1_025), "Circuit should reopen after failed half-open probe");
    breaker.reset();
    assert!(!breaker.is_open(1_025), "Manual reset should close circuit");
}

#[test]
fn test_p2_fallback_uses_secondary_on_retry_exhausted() {
    let mut p = [
        planned(
            "primary",
            &["primary/model"],
            vec![
                error(ProviderErrorCode::ServerError, "upstream 500"),
                error(ProviderErrorCode::ServerError, "upstream 500 again"),
            ],
        ),
        planned("fallback", &["fallback/model"], vec![]),
    ];
    let mut router = LlmRouter::new(registry_of(&p))
        .with_fallback_chain("primary/model", vec!["fallback/model".into()])
        .with_retry_config(no_delay(1));
    let result = route(&mut router, &mut p, request("primary/model"), unknown, 0);
    assert!(result.is_ok(), "Should fallback to secondary after retry budget is exhausted");
    assert_eq!(p[0].calls, 2);
    assert_eq!(p[1].calls, 1);
}

#[test]
fn test_p2_fallback_uses_secondary_on_circuit_open() {
    let failures =
        (0..5).map(|_| error(ProviderErrorCode::ServerError, "upstream 500")).collect();
    let mut p = [
        planned("primary", &["primary/model"], failures),
        planned("fallback", &["fallback/model"], vec![]),
    ];
    let mut router = LlmRouter::new(registry_of(&p))
        .with_fallback_chain("primary/model", vec!["fallback/model".into()])
        .with_retry_config(RetryConfig { max_retries: 0, base_delay_ms: 1, max_delay_ms: 10 });
    for _ in 0..5 {
        route(&mut router, &mut p, request("primary/model"), unknown, 1_000).unwrap();
    }
    assert_eq!(p[0].calls, 5);
    let result = route(&mut router, &mut p, request("primary/model"), unknown, 1_000);
    assert!(result.is_ok(), "Should fallback to secondary when primary circuit is open");
    assert_eq!(p[0].calls, 5);
    assert_eq!(p[1].calls, 6);
    let health = router.provider_health_snapshots(1_000);
    assert_eq!(health[0].provider_id, "fallback");
    assert!(!health[0].circuit_open);
    assert_eq!(health[1].provider_id, "primary");
    assert_eq!(health[1].failure_count, 5);
    assert!(health[1].circuit_open);
}

#[test]
fn test_p2_fallback_errors_do_not_leak_auth_secrets() {
    let mut p = [planned(
        "primary",
        &["primary/model"],
        vec![error(ProviderErrorCode::ServerError, "upstream echoed sk-router-secret")],
    )];
    let mut router = LlmRouter::new(registry_of(&p)).with_retry_config(no_delay(0));
    let r = Request {
        auth: AuthContext::ApiKey { provider: "primary".into(), key: "sk-router-secret".into() },
        ..request("primary/model")
    };
    let err = route(&mut router, &mut p, r, unknown, 0).unwrap_err();
    assert_eq!(err.code, ProviderErrorCode::ServerError);
    assert!(!err.message.contains("sk-router-secret"));
    assert!(!format!("{err:?}").contains("sk-router-secret"));
    assert!(err.message.contains("<redacted>"));
}

#[test]
fn test_mock_provider_stream_order_gs019() {
    let events = MockLlmProvider::new("mock").generate_stream();
    assert!(matches!(&events[0], Ok(StreamEvent::ThinkingDelta(_))));
    assert!(matches!(&events[1], Ok(StreamEvent::TextDelta(_))));
    assert!(matches!(&events[2], Ok(StreamEvent::TextDelta(_))));
    assert!(matches!(&events[3], Ok(StreamEvent::ToolCallDelta(_))));
    assert!(matches!(&events[4], Ok(StreamEvent::ToolCall(_))));
    assert!(matches!(&events[5], Ok(StreamEvent::Usage(_))));
    assert!(matches!(&events[6], Ok(StreamEvent::Finished(_))));
}

#[test]
fn test_mock_provider_non_stream() {
    let response = MockLlmProvider::new("mock").generate();
    assert_eq!(response.content, "Mock response");
    assert_eq!(response.finish_reason, "stop");
}

#[test]
fn test_provider_registry_roundtrip() {
    let provider = MockLlmProvider::new("mock").with_models(vec!["mock/model".into()]);
    let mut registry = ProviderRegistry::new();
    let place = registry.register(provider.provider_id());
    let resolved =
        registry.resolve(&[provider.supports_model("mock/model")]).expect("should resolve model");
    assert_eq!(resolved, place);
    assert_eq!(registry.provider_id(resolved), "mock");
    assert!(provider.supports_model("mock/model"));
    assert!(registry.resolve(&[provider.supports_model("unknown/model")]).is_none());
}

#[test]
fn test_llm_router_routes_to_correct_provider() {
    let mut p = [planned("mock", &["mock/model"], vec![])];
    let mut router = LlmRouter::new(registry_of(&p));
    let events = route(&mut router, &mut p, request("mock/model"), unknown, 0)
        .expect("routing should succeed");
    assert!(!events.is_empty());
}

#[test]
fn test_llm_router_unsupported_model_error() {
    let mut router = LlmRouter::new(ProviderRegistry::new());
    let result = route(&mut router, &mut [], request("no-such-model"), unknown, 0);
    assert!(result.is_err());
    assert_eq!(result.unwrap_err().code, ProviderErrorCode::UnsupportedModel);
}

#[test]
fn test_mock_provider_custom_stream() {
    let events = vec![
        Ok(StreamEvent::TextDelta("custom".into())),
        Ok(StreamEvent::Finished(FinishReason::Stop)),
    ];
    let result = MockLlmProvider::new("custom").with_stream(events).generate_stream();
    assert_eq!(result.len(), 2);
    assert!(matches!(&result[0], Ok(StreamEvent::TextDelta(t)) if t == "custom"));
}

#[test]
fn test_stream_events_are_not_durable_events_gs019() {
    let durable_substrings = ["call_started", "call_finished", "usage_reported"];
    let events = [
        StreamEvent::TextDelta("".into()),
        StreamEvent::ThinkingDelta("".into()),
        StreamEvent::ToolCallDelta(ToolCallDelta {
            index: 0,
            id: None,
            name: None,
            partial_json: None,
        }),
        StreamEvent::ToolCall(ToolCall {
            id: "".into(),
            name: "".into(),
            arguments: Json::Null,
        }),
        StreamEvent::Usage(TokenUsage {
            prompt_tokens: 0,
            completion_tokens: 0,
            total_tokens: 0,
            cache_creation_input_tokens: None,
            cache_read_input_tokens: None,
            reasoning_tokens: None,
        }),
        StreamEvent::Finished(FinishReason::Stop),
    ];
    for ev in &events {
        let debug = format!("{:?}", ev);
        for sub in &durable_substrings {
            assert!(
                !debug.contains(sub),
                "StreamEvent '{debug}' should not contain durable substring '{sub}'"
            );
        }
    }
}

#[test]
fn test_mock_provider_does_not_read_env() {
    let response = MockLlmProvider::new("mock").generate();
    assert_eq!(response.content, "Mock response");
}

#[test]
fn test_backoff_doubles_up_to_the_limit() {
    let config = RetryConfig::default();
    let delays: Vec<u64> = (0..7).map(|n| config.backoff(n)).collect();
    assert_eq!(delays, vec![500, 1000, 2000, 4000, 8000, 8000, 8000]);
    assert_eq!(config.backoff(u32::MAX), 8000);
    assert_eq!(no_delay(3).backoff(5), 0);
    assert_eq!(config.after_failure(0, true), RetryDecision::Wait { at_most_ms: 500 });
    assert_eq!(config.after_failure(3, true), RetryDecision::GiveUp);
    assert_eq!(config.after_failure(0, false), RetryDecision::GiveUp);
}

#[test]
fn test_a_success_closes_the_breaker() {
    let mut breaker = CircuitBreaker::new(2, 10);
    breaker.record_failure(5);
    breaker.record_success();
    breaker.record_failure(6);
    assert!(!breaker.is_open(6));
    assert_eq!(breaker.snapshot(6).failure_count, 1);
}

#[test]
fn test_a_fallback_is_asked_the_same() {
    let mut router = LlmRouter::new(registry_of(&[planned("p", &[], vec![])]))
        .with_fallback_chain("a/b", vec!["c/d".to_string()])
        .with_retry_config(no_delay(5));
    let auth = AuthContext::ApiKey { provider: "p".into(), key: "k".into() };
    let mut whole = Request { auth, text: "abcdefgh", tools: 2, ..request("a/b") }.whole();
    whole.options.max_retries_hint = Some(0);
    let mut way = router.begin_route(whole.clone(), false);
    match router.choose_provider(&mut way, &[true], None, 0) {
        RouteStep::Call { provider: 0, request } => assert_eq!(request, whole),
        other => panic!("unexpected {other:?}"),
    }
    let late = ProviderError::new(ProviderErrorCode::Timeout, "late");
    assert!(matches!(router.finish_attempt(&mut way, Err(late), 0), RouteStep::NextModel));
    match router.choose_provider(&mut way, &[true], None, 0) {
        RouteStep::Call { provider: 0, request } => {
            assert_eq!(request, GenerateRequest { model: "c/d".into(), ..whole });
        }
        other => panic!("unexpected {other:?}"),
    }
    let events = || vec![Ok(StreamEvent::TextDelta("x".into()))];
    match router.finish_attempt(&mut way, Ok(events()), 0) {
        RouteStep::Deliver { events: delivered } => assert_eq!(delivered, events()),
        other => panic!("unexpected {other:?}"),
    }
}

#[test]
fn test_token_estimates() {
    assert_eq!(estimate_text_tokens(""), 1);
    assert_eq!(estimate_text_tokens("abcd"), 1);
    assert_eq!(estimate_text_tokens("abcde"), 2);
    assert_eq!(estimate_text_tokens("a b c d"), 4);
    assert_eq!(estimate_request_tokens(&vec![], 0), 1);
    assert_eq!(estimate_request_tokens(&vec!["abcdefgh".into(), "x".into()], 2), 27);
}

#[test]
fn test_secrets_of_every_kind_are_redacted() {
    let e = || ProviderError::new(ProviderErrorCode::ServerError, "t0k then t0k, s3c and id1");
    let bearer = AuthContext::BearerToken { token: "t0k".into() };
    assert_eq!(
        redact_error_for_request(e(), &bearer).message,
        "<redacted> then <redacted>, s3c and id1"
    );
    let none = redact_error_for_request(e(), &AuthContext::NoAuth);
    assert_eq!(none.message, "t0k then t0k, s3c and id1");
    let azure = AuthContext::AzureToken { api_key: "".into() };
    assert_eq!(redact_error_for_request(e(), &azure).message, "t0k then t0k, s3c and id1");
}
