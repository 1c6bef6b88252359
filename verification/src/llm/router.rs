//! Routing a request: which provider is called, what happens when the call fails,
//! and which model comes next. The caller performs the calls and the waiting.
use vstd::prelude::*;

use crate::llm::breaker::{breaker_failed, breaker_open, breaker_succeeded, CircuitBreaker};
use crate::llm::registry::{
    can_serve, is_choice, known_metadata, ProviderRegistry, RegistryView, RequestNeeds,
};
use crate::llm::retry::{retry_decision, RetryConfig, RetryDecision};
use crate::llm::secrets::{auth_secret_values, auth_secrets, redact_error, redacted};
use crate::llm::tokens::{estimate_request_tokens, request_tokens};
use crate::llm::types::{
    first_error, message_views, normalize_stream, passing_error, GenerateRequest,
    GenerateRequestView, Message, MessageView, ProviderError, ProviderErrorCode,
    ProviderErrorView, StreamEvent,
};
use crate::str_map::StrMap;
use crate::text::{decimal, decimal_string, opt_text, texts};
use crate::text_order::{sort_strings, sorted_texts};

verus! {

/// The texts of messages.
pub open spec fn message_texts(messages: Seq<MessageView>) -> Seq<Seq<char>> {
    Seq::new(messages.len(), |i: int| messages[i].content)
}

fn contents_of(messages: &Vec<Message>) -> (r: Vec<String>)
    ensures
        texts(r@) == message_texts(message_views(messages@)),
{
    let mut r: Vec<String> = Vec::new();
    let mut i: usize = 0;
    while i < messages.len()
        invariant
            i <= messages@.len(),
            r@.len() == i,
            forall|j: int| 0 <= j < i ==> #[trigger] r@[j]@ == messages@[j].content@,
        decreases messages@.len() - i,
    {
        r.push(messages[i].content.clone());
        i += 1;
    }
    assert(texts(r@) =~= message_texts(message_views(messages@)));
    r
}

#[derive(Debug, Clone, Copy, PartialEq, Eq, Structural)]
pub enum RoutePhase {
    /// The next model of the chain is to be looked at.
    Choosing,
    /// A provider is being called.
    Calling,
    /// The caller waits before the next attempt.
    Waiting,
    /// The request was answered or has failed.
    Finished,
}

/// A request on its way.
#[derive(Debug)]
pub struct Route {
    request: GenerateRequest,
    chain: Vec<String>,
    position: usize,
    attempt: u32,
    retry: RetryConfig,
    needs: RequestNeeds,
    estimated_tokens: u64,
    secrets: Vec<String>,
    last_error: ProviderError,
    provider: usize,
    phase: RoutePhase,
}

pub struct RouteView {
    pub request: GenerateRequestView,
    pub chain: Seq<Seq<char>>,
    pub position: nat,
    pub attempt: nat,
    pub retry: RetryConfig,
    pub needs: RequestNeeds,
    pub estimated_tokens: u64,
    pub secrets: Seq<Seq<char>>,
    pub last_error: ProviderErrorView,
    pub provider: nat,
    pub phase: RoutePhase,
}

impl View for Route {
    type V = RouteView;

    closed spec fn view(&self) -> RouteView {
        RouteView {
            request: self.request@,
            chain: texts(self.chain@),
            position: self.position as nat,
            attempt: self.attempt as nat,
            retry: self.retry,
            needs: self.needs,
            estimated_tokens: self.estimated_tokens,
            secrets: texts(self.secrets@),
            last_error: self.last_error@,
            provider: self.provider as nat,
            phase: self.phase,
        }
    }
}

impl Route {
    /// The model of the chain that is looked at; none behind the last one.
    pub fn next_model(&self) -> (m: Option<String>)
        ensures
            opt_text(m) == if self@.position < self@.chain.len() {
                Some(self@.chain[self@.position as int])
            } else {
                None
            },
    {
        if self.position < self.chain.len() {
            assert(texts(self.chain@)[self.position as int] == self.chain@[self.position as int]@);
            Some(self.chain[self.position].clone())
        } else {
            None
        }
    }
}

/// What the caller has to do next.
#[derive(Debug)]
pub enum RouteStep {
    /// Go on with the next model of the chain.
    NextModel,
    /// Call this provider with this request.
    Call { provider: usize, request: GenerateRequest },
    /// Wait for a random time of at most this length.
    Wait { at_most_ms: u64 },
    /// The call has succeeded: hand its events on.
    Deliver { events: Vec<Result<StreamEvent, ProviderError>> },
    /// The request has failed.
    Failed(ProviderError),
}

pub enum RouteStepView {
    NextModel,
    Call { provider: nat, request: GenerateRequestView },
    Wait { at_most_ms: u64 },
    Deliver { events: Seq<Result<StreamEvent, ProviderError>> },
    Failed(ProviderErrorView),
}

impl View for RouteStep {
    type V = RouteStepView;

    open spec fn view(&self) -> RouteStepView {
        match self {
            RouteStep::NextModel => RouteStepView::NextModel,
            RouteStep::Call { provider, request } => RouteStepView::Call {
                provider: *provider as nat,
                request: request@,
            },
            RouteStep::Wait { at_most_ms } => RouteStepView::Wait { at_most_ms: *at_most_ms },
            RouteStep::Deliver { events } => RouteStepView::Deliver { events: events@ },
            RouteStep::Failed(e) => RouteStepView::Failed(e@),
        }
    }
}

/// The state of a provider as it is reported.
#[derive(Debug, Clone, PartialEq, Eq)]
pub struct ProviderHealthSnapshot {
    pub provider_id: String,
    pub failure_count: u32,
    pub last_failure_ms: u64,
    pub circuit_open: bool,
}

/// The providers, how calls to them are retried, and what replaces a model that no
/// provider answers for.
#[derive(Debug)]
pub struct LlmRouter {
    registry: ProviderRegistry,
    retry_config: RetryConfig,
    circuit_breakers: Vec<CircuitBreaker>,
    fallback_models: StrMap<Vec<String>>,
}

pub struct RouterView {
    pub registry: RegistryView,
    pub retry_config: RetryConfig,
    pub breakers: Seq<CircuitBreaker>,
    pub fallbacks: Map<Seq<char>, Vec<String>>,
}

impl View for LlmRouter {
    type V = RouterView;

    closed spec fn view(&self) -> RouterView {
        RouterView {
            registry: self.registry@,
            retry_config: self.retry_config,
            breakers: self.circuit_breakers@,
            fallbacks: self.fallback_models@,
        }
    }
}

impl RouterView {
    /// Each provider has a breaker.
    pub open spec fn wf(self) -> bool {
        self.breakers.len() == self.registry.order.len() && self.registry.order.no_duplicates()
    }
}

pub open spec fn own_error(code: ProviderErrorCode, message: Seq<char>) -> ProviderErrorView {
    ProviderErrorView { code, message, retryable: passing_error(code) }
}

pub open spec fn no_provider_found(model: Seq<char>) -> ProviderErrorView {
    own_error(
        ProviderErrorCode::UnsupportedModel,
        "No provider found for model '"@ + model + "'"@,
    )
}

pub open spec fn no_provider(model: Seq<char>) -> ProviderErrorView {
    own_error(ProviderErrorCode::UnsupportedModel, "No provider for model '"@ + model + "'"@)
}

pub open spec fn no_vision(model: Seq<char>) -> ProviderErrorView {
    own_error(
        ProviderErrorCode::UnsupportedModel,
        "Model '"@ + model
            + "' does not support vision input; no vision-capable provider is registered for an image-bearing request"@,
    )
}

pub open spec fn circuit_open(provider: Seq<char>) -> ProviderErrorView {
    own_error(
        ProviderErrorCode::CircuitOpen,
        "Circuit breaker open for provider '"@ + provider + "'"@,
    )
}

pub open spec fn context_overflow(tokens: u64, window: u32, model: Seq<char>) -> ProviderErrorView {
    own_error(
        ProviderErrorCode::ContextOverflow,
        "Request estimated at "@ + decimal(tokens as nat) + " tokens exceeds context window "@
            + decimal(window as nat) + " for model '"@ + model + "'"@,
    )
}

pub open spec fn hushed(e: ProviderErrorView, secrets: Seq<Seq<char>>) -> ProviderErrorView {
    ProviderErrorView { message: redacted(e.message, secrets), ..e }
}

/// The router with these models, in this order, to replace `primary`.
pub open spec fn with_fallbacks(
    r: RouterView,
    primary: Seq<char>,
    fallbacks: Vec<String>,
) -> RouterView {
    RouterView { fallbacks: r.fallbacks.insert(primary, fallbacks), ..r }
}

/// The models that are tried for a model: the model itself, then its fallbacks.
pub open spec fn model_chain(r: RouterView, model: Seq<char>) -> Seq<Seq<char>> {
    seq![model] + if r.fallbacks.contains_key(model) {
        texts(r.fallbacks[model]@)
    } else {
        Seq::empty()
    }
}

/// The way of a request at its beginning; `vision` says whether it holds images.
pub open spec fn route_begun(r: RouterView, q: GenerateRequestView, vision: bool) -> RouteView {
    RouteView {
        request: q,
        chain: model_chain(r, q.model),
        position: 0,
        attempt: 0,
        retry: RetryConfig {
            max_retries: match q.options.max_retries_hint {
                Some(n) => n,
                None => r.retry_config.max_retries,
            },
            ..r.retry_config
        },
        needs: RequestNeeds { tools: q.tools.len() > 0, streaming: q.stream, vision },
        estimated_tokens: request_tokens(message_texts(q.messages), q.tools.len()) as u64,
        secrets: auth_secrets(q.auth),
        last_error: no_provider_found(q.model),
        provider: 0,
        phase: RoutePhase::Choosing,
    }
}

/// What the model that is looked at is asked: the request, with that model in place of
/// the first one.
pub open spec fn asked_of(t: RouteView) -> GenerateRequestView {
    GenerateRequestView { model: t.chain[t.position as int], ..t.request }
}

/// The way goes on with the next model; `e` is what stopped this one.
pub open spec fn moved_on(t: RouteView, e: ProviderErrorView) -> (RouteView, RouteStepView) {
    (
        RouteView { last_error: e, position: t.position + 1, phase: RoutePhase::Choosing, ..t },
        RouteStepView::NextModel,
    )
}

pub open spec fn failed(t: RouteView, e: ProviderErrorView) -> (RouteView, RouteStepView) {
    (RouteView { phase: RoutePhase::Finished, ..t }, RouteStepView::Failed(e))
}

/// What is known of the window of the model at provider `p`.
pub open spec fn window_of(r: RouterView, p: int, model: Seq<char>) -> Option<u32> {
    match known_metadata(r.registry.metadata, r.registry.order[p], model) {
        Some(m) => m.context_window,
        None => None,
    }
}

/// Looking at the next model with the chosen provider `p`, if there is one: a
/// request that does not fit the model fails; a model without a provider, or whose
/// provider is held back, is passed over.
pub open spec fn chosen(
    r: RouterView,
    t: RouteView,
    p: Option<int>,
    serves_without_vision: bool,
    now_ms: u64,
) -> (RouteView, RouteStepView) {
    let model = t.chain[t.position as int];
    match p {
        None => if t.needs.vision && serves_without_vision {
            moved_on(t, no_vision(model))
        } else {
            moved_on(t, no_provider(model))
        },
        Some(p) => {
            let window = window_of(r, p, model);
            if window is Some && t.estimated_tokens > window->0 {
                failed(
                    t,
                    hushed(context_overflow(t.estimated_tokens, window->0, model), t.secrets),
                )
            } else if breaker_open(r.breakers[p], now_ms) {
                moved_on(t, circuit_open(r.registry.order[p]))
            } else {
                (
                    RouteView { provider: p as nat, attempt: 0, phase: RoutePhase::Calling, ..t },
                    RouteStepView::Call { provider: p as nat, request: asked_of(t) },
                )
            }
        },
    }
}

/// The attempts at this model end with the error `e`. An error that is not worth
/// another attempt ends the request; a held back provider or exhausted attempts
/// lead to the next model.
pub open spec fn given_up(t: RouteView, e: ProviderErrorView) -> (RouteView, RouteStepView) {
    if e.code == ProviderErrorCode::CircuitOpen || e.retryable {
        moved_on(t, hushed(e, t.secrets))
    } else {
        failed(t, hushed(e, t.secrets))
    }
}

/// What comes of a call: the events that it streamed, unless it has failed or an error
/// came among them.
pub open spec fn call_outcome(
    streamed: Result<Vec<Result<StreamEvent, ProviderError>>, ProviderError>,
) -> Result<Seq<Result<StreamEvent, ProviderError>>, ProviderErrorView> {
    match streamed {
        Err(e) => Err(e@),
        Ok(events) => match first_error(events@, 0) {
            Some(e) => Err(e),
            None => Ok(events@),
        },
    }
}

/// What follows a call.
pub open spec fn attempt_finished(
    t: RouteView,
    outcome: Result<Seq<Result<StreamEvent, ProviderError>>, ProviderErrorView>,
) -> (RouteView, RouteStepView) {
    match outcome {
        Ok(events) => (
            RouteView { phase: RoutePhase::Finished, ..t },
            RouteStepView::Deliver { events },
        ),
        Err(e) => match retry_decision(t.retry, t.attempt, e.retryable) {
            RetryDecision::Wait { at_most_ms } => (
                RouteView { attempt: t.attempt + 1, phase: RoutePhase::Waiting, ..t },
                RouteStepView::Wait { at_most_ms },
            ),
            RetryDecision::GiveUp => given_up(t, e),
        },
    }
}

/// What a call does to the breaker of its provider: a success closes it, a failure
/// that may pass counts, any other leaves it.
pub open spec fn breaker_after(
    b: CircuitBreaker,
    outcome: Result<Seq<Result<StreamEvent, ProviderError>>, ProviderErrorView>,
    now_ms: u64,
) -> CircuitBreaker {
    match outcome {
        Ok(_) => breaker_succeeded(b),
        Err(e) => if e.retryable {
            breaker_failed(b, now_ms)
        } else {
            b
        },
    }
}

/// After the wait: the provider is called again, unless it is held back by now.
pub open spec fn resumed_route(r: RouterView, t: RouteView, now_ms: u64) -> (
    RouteView,
    RouteStepView,
) {
    if breaker_open(r.breakers[t.provider as int], now_ms) {
        given_up(t, circuit_open(r.registry.order[t.provider as int]))
    } else {
        (
            RouteView { phase: RoutePhase::Calling, ..t },
            RouteStepView::Call { provider: t.provider, request: asked_of(t) },
        )
    }
}

/// A way that belongs to this router: while a model is tried there is one, with its
/// provider, and no more attempts than allowed were made.
pub open spec fn on_its_way(r: RouterView, t: RouteView) -> bool {
    &&& t.position <= t.chain.len()
    &&& t.chain.len() <= usize::MAX
    &&& (t.phase == RoutePhase::Calling || t.phase == RoutePhase::Waiting) ==> t.position
        < t.chain.len() && t.provider < r.registry.order.len()
    &&& t.attempt <= t.retry.max_retries
}

fn own(code: ProviderErrorCode, before: &str, name: &str, after: &str) -> (e: ProviderError)
    ensures
        e@ == own_error(code, before@ + name@ + after@),
{
    let mut message = before.to_owned();
    message.append(name);
    message.append(after);
    ProviderError::new(code, message.as_str())
}

/// A router that has not routed anything: the usual retries, closed breakers, and no
/// fallbacks.
pub open spec fn fresh_router(registry: RegistryView) -> RouterView {
    RouterView {
        registry,
        retry_config: RetryConfig { max_retries: 3, base_delay_ms: 500, max_delay_ms: 8000 },
        breakers: Seq::new(registry.order.len(), |i: int| fresh_breaker()),
        fallbacks: Map::empty(),
    }
}

impl LlmRouter {
    pub open spec fn wf(self) -> bool {
        self@.wf()
    }

    /// A router for these providers, each with a breaker that opens at five
    /// failures for fifteen seconds.
    pub fn new(registry: ProviderRegistry) -> (r: Self)
        requires
            registry.wf(),
        ensures
            r.wf(),
            r@ == fresh_router(registry@),
    {
        let mut breakers: Vec<CircuitBreaker> = Vec::new();
        let n: usize = registry.provider_count();
        let mut i: usize = 0;
        while i < n
            invariant
                i <= n,
                breakers@ == Seq::new(i as nat, |j: int| fresh_breaker()),
            decreases n - i,
        {
            breakers.push(CircuitBreaker::new(5, 15_000));
            i += 1;
            assert(breakers@ =~= Seq::new(i as nat, |j: int| fresh_breaker()));
        }
        assert(breakers@ =~= Seq::new(registry@.order.len(), |i: int| fresh_breaker()));
        LlmRouter {
            registry,
            retry_config: RetryConfig::default(),
            circuit_breakers: breakers,
            fallback_models: StrMap::new(),
        }
    }

    pub fn with_retry_config(self, config: RetryConfig) -> (r: Self)
        requires
            self.wf(),
        ensures
            r.wf(),
            r@ == (RouterView { retry_config: config, ..self@ }),
    {
        let mut r = self;
        r.retry_config = config;
        r
    }

    /// Sets the models that replace `primary`, in this order.
    pub fn with_fallback_chain(self, primary: &str, fallbacks: Vec<String>) -> (r: Self)
        requires
            self.wf(),
        ensures
            r.wf(),
            r@ == with_fallbacks(self@, primary@, fallbacks),
            r@ == (RouterView { fallbacks: self@.fallbacks.insert(primary@, fallbacks), ..self@ }),
    {
        let mut r = self;
        r.fallback_models.insert(primary, fallbacks);
        r
    }

    pub fn registry(&self) -> (r: &ProviderRegistry)
        ensures
            r@ == self@.registry,
    {
        &self.registry
    }

    /// Begins the way of a request; `vision` says whether it holds images.
    pub fn begin_route(&self, request: GenerateRequest, vision: bool) -> (t: Route)
        requires
            self.wf(),
            model_chain(self@, request@.model).len() <= usize::MAX,
            request_tokens(message_texts(request@.messages), request@.tools.len()) <= u64::MAX,
        ensures
            t@ == route_begun(self@, request@, vision),
            on_its_way(self@, t@),
    {
        let ghost model = request.model@;
        let mut chain: Vec<String> = Vec::new();
        chain.push(request.model.clone());
        let last_error = own(
            ProviderErrorCode::UnsupportedModel,
            "No provider found for model '",
            request.model.as_str(),
            "'",
        );
        assert(texts(chain@) =~= seq![model]);
        match self.fallback_models.get(request.model.as_str()) {
            Some(fallbacks) => {
                let mut i: usize = 0;
                assert(texts(chain@) =~= seq![model] + texts(fallbacks@).take(0));
                while i < fallbacks.len()
                    invariant
                        i <= fallbacks@.len(),
                        texts(chain@) == seq![model] + texts(fallbacks@).take(i as int),
                    decreases fallbacks@.len() - i,
                {
                    let ghost before = texts(chain@);
                    chain.push(fallbacks[i].clone());
                    i += 1;
                    assert(texts(chain@) =~= before.push(fallbacks@[i - 1]@));
                    assert(texts(chain@) =~= seq![model] + texts(fallbacks@).take(i as int));
                }
                assert(texts(fallbacks@).take(i as int) =~= texts(fallbacks@));
            },
            None => {
                assert(texts(chain@) =~= seq![model] + Seq::<Seq<char>>::empty());
            },
        }
        let contents = contents_of(&request.messages);
        Route {
            chain,
            position: 0,
            attempt: 0,
            retry: RetryConfig {
                max_retries: match request.options.max_retries_hint {
                    Some(n) => n,
                    None => self.retry_config.max_retries,
                },
                base_delay_ms: self.retry_config.base_delay_ms,
                max_delay_ms: self.retry_config.max_delay_ms,
            },
            needs: RequestNeeds {
                tools: request.tools.len() > 0,
                streaming: request.stream,
                vision,
            },
            estimated_tokens: estimate_request_tokens(&contents, request.tools.len()),
            secrets: auth_secret_values(&request.auth_context),
            last_error,
            provider: 0,
            phase: RoutePhase::Choosing,
            request,
        }
    }

    /// Looks at the next model of the chain. `supports` says of each provider
    /// whether it serves that model, `known_vision` whether the model is known to
    /// accept images.
    pub fn choose_provider(
        &self,
        route: &mut Route,
        supports: &[bool],
        known_vision: Option<bool>,
        now_ms: u64,
    ) -> (step: RouteStep)
        requires
            self.wf(),
            on_its_way(self@, old(route)@),
            old(route)@.phase == RoutePhase::Choosing,
            supports@.len() == self@.registry.order.len(),
        ensures
            on_its_way(self@, final(route)@),
            if old(route)@.position >= old(route)@.chain.len() {
                (final(route)@, step@) == failed(old(route)@, old(route)@.last_error)
            } else {
                let model = old(route)@.chain[old(route)@.position as int];
                let needs = old(route)@.needs;
                &&& (exists|p: int|
                    #[trigger] is_choice(
                        self@.registry,
                        p,
                        supports@,
                        model,
                        needs,
                        known_vision,
                    ) && (final(route)@, step@) == chosen(
                        self@,
                        old(route)@,
                        Some(p),
                        true,
                        now_ms,
                    )) || ((forall|p: int|
                    !#[trigger] can_serve(
                        self@.registry,
                        p,
                        supports@,
                        model,
                        needs,
                        known_vision,
                    )) && (final(route)@, step@) == chosen(
                    self@,
                    old(route)@,
                    None,
                    exists|p: int|
                        #[trigger] can_serve(
                            self@.registry,
                            p,
                            supports@,
                            model,
                            RequestNeeds { vision: false, ..needs },
                            known_vision,
                        ),
                    now_ms,
                ))
            },
    {
        let ghost before = route@;
        if route.position >= route.chain.len() {
            route.phase = RoutePhase::Finished;
            return RouteStep::Failed(route.last_error.clone());
        }
        let model = route.chain[route.position].clone();
        assert(model@ == before.chain[before.position as int]);
        match self.registry.resolve_for_request(
            model.as_str(),
            supports,
            route.needs,
            known_vision,
        ) {
            None => {
                let without = self.registry.resolve_for_request(
                    model.as_str(),
                    supports,
                    RequestNeeds {
                        tools: route.needs.tools,
                        streaming: route.needs.streaming,
                        vision: false,
                    },
                    known_vision,
                );
                if route.needs.vision && without.is_some() {
                    route.last_error = own(
                        ProviderErrorCode::UnsupportedModel,
                        "Model '",
                        model.as_str(),
                        "' does not support vision input; no vision-capable provider is registered for an image-bearing request",
                    );
                } else {
                    route.last_error = own(
                        ProviderErrorCode::UnsupportedModel,
                        "No provider for model '",
                        model.as_str(),
                        "'",
                    );
                }
                route.position = route.position + 1;
                RouteStep::NextModel
            },
            Some(p) => {
                assert(is_choice(
                    self@.registry,
                    p as int,
                    supports@,
                    model@,
                    before.needs,
                    known_vision,
                ));
                let provider = self.registry.provider_id(p);
                let window: Option<u32> = match self.registry.model_metadata(
                    provider,
                    model.as_str(),
                ) {
                    Some(m) => m.context_window,
                    None => None,
                };
                assert(window == window_of(self@, p as int, model@));
                if let Some(w) = window {
                    if route.estimated_tokens > w as u64 {
                        route.phase = RoutePhase::Finished;
                        let mut message = "Request estimated at ".to_owned();
                        let tokens = decimal_string(route.estimated_tokens);
                        message.append(tokens.as_str());
                        message.append(" tokens exceeds context window ");
                        let window_text = decimal_string(w as u64);
                        message.append(window_text.as_str());
                        message.append(" for model '");
                        message.append(model.as_str());
                        message.append("'");
                        let error = ProviderError::new(
                            ProviderErrorCode::ContextOverflow,
                            message.as_str(),
                        );
                        return RouteStep::Failed(redact_error(error, &route.secrets));
                    }
                }
                if self.circuit_breakers[p].is_open(now_ms) {
                    route.last_error = own(
                        ProviderErrorCode::CircuitOpen,
                        "Circuit breaker open for provider '",
                        provider,
                        "'",
                    );
                    route.position = route.position + 1;
                    return RouteStep::NextModel;
                }
                route.provider = p;
                route.attempt = 0;
                route.phase = RoutePhase::Calling;
                let request = route.request.for_model(model.as_str());
                RouteStep::Call { provider: p, request }
            },
        }
    }

    /// Takes what a call has streamed, or the error that it failed with.
    pub fn finish_attempt(
        &mut self,
        route: &mut Route,
        streamed: Result<Vec<Result<StreamEvent, ProviderError>>, ProviderError>,
        now_ms: u64,
    ) -> (step: RouteStep)
        requires
            old(self).wf(),
            on_its_way(old(self)@, old(route)@),
            old(route)@.phase == RoutePhase::Calling,
        ensures
            final(self).wf(),
            on_its_way(final(self)@, final(route)@),
            (final(route)@, step@) == attempt_finished(old(route)@, call_outcome(streamed)),
            final(self)@ == (RouterView {
                breakers: old(self)@.breakers.update(
                    old(route)@.provider as int,
                    breaker_after(
                        old(self)@.breakers[old(route)@.provider as int],
                        call_outcome(streamed),
                        now_ms,
                    ),
                ),
                ..old(self)@
            }),
    {
        let p: usize = route.provider;
        let ghost before = self@;
        let mut breaker = self.circuit_breakers[p];
        let outcome = match streamed {
            Ok(events) => normalize_stream(events),
            Err(e) => Err(e),
        };
        match &outcome {
            Ok(_) => {
                breaker.record_success();
            },
            Err(e) => {
                if e.is_retryable() {
                    breaker.record_failure(now_ms);
                }
            },
        }
        self.circuit_breakers[p] = breaker;
        match outcome {
            Ok(events) => {
                route.phase = RoutePhase::Finished;
                RouteStep::Deliver { events }
            },
            Err(e) => match route.retry.after_failure(route.attempt, e.is_retryable()) {
                RetryDecision::Wait { at_most_ms } => {
                    route.attempt = route.attempt + 1;
                    route.phase = RoutePhase::Waiting;
                    RouteStep::Wait { at_most_ms }
                },
                RetryDecision::GiveUp => give_up(route, e),
            },
        }
    }

    /// Goes on after the wait.
    pub fn resume(&self, route: &mut Route, now_ms: u64) -> (step: RouteStep)
        requires
            self.wf(),
            on_its_way(self@, old(route)@),
            old(route)@.phase == RoutePhase::Waiting,
        ensures
            on_its_way(self@, final(route)@),
            (final(route)@, step@) == resumed_route(self@, old(route)@, now_ms),
    {
        if self.circuit_breakers[route.provider].is_open(now_ms) {
            let error = own(
                ProviderErrorCode::CircuitOpen,
                "Circuit breaker open for provider '",
                self.registry.provider_id(route.provider),
                "'",
            );
            give_up(route, error)
        } else {
            route.phase = RoutePhase::Calling;
            RouteStep::Call {
                provider: route.provider,
                request: route.request.for_model(route.chain[route.position].as_str()),
            }
        }
    }

    /// The state of all providers, by their names in alphabetical order.
    pub fn provider_health_snapshots(&self, now_ms: u64) -> (r: Vec<ProviderHealthSnapshot>)
        requires
            self.wf(),
        ensures
            r@.len() == self@.registry.order.len(),
            forall|i: int|
                0 <= i < r@.len() ==> (#[trigger] r@[i]).provider_id@ == sorted_texts(
                    self@.registry.order,
                )[i],
            forall|i: int, p: int|
                0 <= i < r@.len() && 0 <= p < self@.registry.order.len()
                    && (#[trigger] r@[i]).provider_id@ == #[trigger] self@.registry.order[p]
                    ==> {
                    let b = self@.breakers[p];
                    &&& r@[i].failure_count == b.failure_count
                    &&& r@[i].last_failure_ms == b.last_failure_ms
                    &&& r@[i].circuit_open == breaker_open(b, now_ms)
                },
    {
        let mut names: Vec<String> = Vec::new();
        let n: usize = self.registry.provider_count();
        let mut i: usize = 0;
        while i < n
            invariant
                i <= n,
                n == self@.registry.order.len(),
                names@.len() == i,
                forall|j: int| 0 <= j < i ==> #[trigger] names@[j]@ == self@.registry.order[j],
            decreases n - i,
        {
            names.push(self.registry.provider_id(i).to_owned());
            i += 1;
        }
        assert(texts(names@) =~= self@.registry.order);
        let sorted = sort_strings(names);
        proof {
            crate::text_order::lemma_sorted_texts(self@.registry.order);
        }
        let mut r: Vec<ProviderHealthSnapshot> = Vec::new();
        let mut i: usize = 0;
        while i < sorted.len()
            invariant
                i <= sorted@.len(),
                self.wf(),
                sorted@.len() == self@.registry.order.len(),
                texts(sorted@) == sorted_texts(self@.registry.order),
                forall|x: Seq<char>|
                    self@.registry.order.contains(x) <==> #[trigger] sorted_texts(
                        self@.registry.order,
                    ).contains(x),
                r@.len() == i,
                forall|k: int|
                    0 <= k < r@.len() ==> (#[trigger] r@[k]).provider_id@ == sorted_texts(
                        self@.registry.order,
                    )[k],
                forall|k: int, p: int|
                    0 <= k < r@.len() && 0 <= p < self@.registry.order.len()
                        && (#[trigger] r@[k]).provider_id@ == #[trigger] self@.registry.order[p]
                        ==> {
                        let b = self@.breakers[p];
                        &&& r@[k].failure_count == b.failure_count
                        &&& r@[k].last_failure_ms == b.last_failure_ms
                        &&& r@[k].circuit_open == breaker_open(b, now_ms)
                    },
            decreases sorted@.len() - i,
        {
            let ghost name = sorted@[i as int]@;
            assert(texts(sorted@)[i as int] == name);
            match self.registry.position(sorted[i].as_str()) {
                Some(p) => {
                    let s = self.circuit_breakers[p].snapshot(now_ms);
                    r.push(
                        ProviderHealthSnapshot {
                            provider_id: sorted[i].clone(),
                            failure_count: s.failure_count,
                            last_failure_ms: s.last_failure_ms,
                            circuit_open: s.circuit_open,
                        },
                    );
                },
                None => {
                    assert(sorted_texts(self@.registry.order).contains(name));
                    assert(false);
                },
            }
            i += 1;
        }
        r
    }
}

pub open spec fn fresh_breaker() -> CircuitBreaker {
    CircuitBreaker {
        failure_count: 0,
        last_failure_ms: 0,
        threshold: 5,
        reset_timeout_ms: 15_000,
    }
}

fn give_up(route: &mut Route, e: ProviderError) -> (step: RouteStep)
    requires
        old(route)@.position < old(route)@.chain.len(),
        old(route)@.chain.len() <= usize::MAX,
    ensures
        (final(route)@, step@) == given_up(old(route)@, e@),
{
    let passing = e.is_retryable();
    let held_back = e.code == ProviderErrorCode::CircuitOpen;
    let error = redact_error(e, &route.secrets);
    if held_back || passing {
        route.last_error = error;
        route.position = route.position + 1;
        route.phase = RoutePhase::Choosing;
        RouteStep::NextModel
    } else {
        route.phase = RoutePhase::Finished;
        RouteStep::Failed(error)
    }
}

/// A provider whose breaker is open is not called.
pub proof fn law_held_back_providers_are_not_called(
    r: RouterView,
    t: RouteView,
    p: Option<int>,
    w: bool,
    now_ms: u64,
)
    requires
        p is Some ==> 0 <= p->0,
    ensures
        match chosen(r, t, p, w, now_ms).1 {
            RouteStepView::Call { provider, .. } => !breaker_open(
                r.breakers[provider as int],
                now_ms,
            ),
            _ => true,
        },
        match resumed_route(r, t, now_ms).1 {
            RouteStepView::Call { provider, .. } => !breaker_open(
                r.breakers[provider as int],
                now_ms,
            ),
            _ => true,
        },
{
}

/// An error that is not worth another attempt ends the request at once, without a
/// fallback, and opens no breaker; the error is handed on without credentials.
pub proof fn law_final_errors_end_the_request(
    t: RouteView,
    e: ProviderErrorView,
    b: CircuitBreaker,
    now_ms: u64,
)
    requires
        !e.retryable,
        e.code != ProviderErrorCode::CircuitOpen,
    ensures
        attempt_finished(t, Err(e)) == failed(t, hushed(e, t.secrets)),
        breaker_after(b, Err(e), now_ms) == b,
{
}

/// Each provider that is called is asked what the caller asked, of the model whose turn it
/// is.
pub proof fn law_every_model_is_asked_the_same(
    r: RouterView,
    q: GenerateRequestView,
    vision: bool,
    t: RouteView,
    p: Option<int>,
    w: bool,
    outcome: Result<Seq<Result<StreamEvent, ProviderError>>, ProviderErrorView>,
    now_ms: u64,
)
    requires
        t.request == q,
    ensures
        route_begun(r, q, vision).request == q,
        chosen(r, t, p, w, now_ms).0.request == q,
        attempt_finished(t, outcome).0.request == q,
        resumed_route(r, t, now_ms).0.request == q,
        match chosen(r, t, p, w, now_ms).1 {
            RouteStepView::Call { request, .. } => request == (GenerateRequestView {
                model: t.chain[t.position as int],
                ..q
            }),
            _ => true,
        },
        match resumed_route(r, t, now_ms).1 {
            RouteStepView::Call { request, .. } => request == (GenerateRequestView {
                model: t.chain[t.position as int],
                ..q
            }),
            _ => true,
        },
{
}

/// What is delivered is what the call that succeeded has streamed, event by event, and
/// the provider's breaker is closed by it. A stream in which an error came is not
/// delivered.
pub proof fn law_delivered_events_are_those_of_the_call(
    t: RouteView,
    events: Vec<Result<StreamEvent, ProviderError>>,
    b: CircuitBreaker,
    now_ms: u64,
)
    ensures
        ({
            let outcome = call_outcome(Ok(events));
            let step = attempt_finished(t, outcome).1;
            if first_error(events@, 0) is None {
                step == RouteStepView::Deliver { events: events@ } && breaker_after(
                    b,
                    outcome,
                    now_ms,
                ) == breaker_succeeded(b)
            } else {
                !(step is Deliver)
            }
        }),
{
}

/// Each model is called at most once more than retries are allowed, and the next
/// model of the chain has all its attempts again.
pub proof fn law_every_model_has_its_own_attempts(
    r: RouterView,
    t: RouteView,
    e: ProviderErrorView,
    p: int,
    now_ms: u64,
)
    requires
        e.retryable,
        on_its_way(r, t),
    ensures
        t.attempt < t.retry.max_retries ==> attempt_finished(t, Err(e)).1 is Wait,
        t.attempt == t.retry.max_retries ==> attempt_finished(t, Err(e)) == moved_on(
            t,
            hushed(e, t.secrets),
        ),
        chosen(r, t, Some(p), true, now_ms).1 is Call ==> chosen(
            r,
            t,
            Some(p),
            true,
            now_ms,
        ).0.attempt == 0,
{
}

} // verus!
