//! What holds of requests on their way to a model.
use vstd::prelude::*;

use crate::llm::breaker::{breaker_open, CircuitBreaker};
use crate::llm::capability::{accepts_images, lists_model, lists_vision, KnownModel};
use crate::llm::registry::{
    can_serve, is_choice, known_metadata, listed, MetadataView, RegistryView, RequestNeeds,
};
use crate::llm::retry::{backoff_ms, power_of_two, retry_decision, RetryConfig, RetryDecision};
use crate::llm::router::{
    attempt_finished, breaker_after, chosen, fresh_router, hushed, message_texts, model_chain, resumed_route,
    route_begun, with_fallbacks, RoutePhase, RouteStepView, RouteView, RouterView,
};
use crate::llm::secrets::{auth_secrets, redacted};
use crate::llm::tokens::{messages_tokens, request_tokens, text_tokens};
use crate::llm::types::{
    event_error, first_error, passing_error, AuthView, GenerateRequestView, ProviderError,
    ProviderErrorCode, ProviderErrorView, StreamEvent,
};
use crate::text::{contains_text, lemma_contains_middle, lower_text, words};
use crate::text_laws::law_replacing_goes_from_left_to_right;

verus! {

/// The models that are tried for a request are the model asked for and behind it every
/// fallback that was configured for it, all of them and in the configured order; other
/// models keep their own. A model without fallbacks is tried alone.
pub proof fn law_every_fallback_is_tried_in_order(
    r: RouterView,
    model: Seq<char>,
    fallbacks: Vec<String>,
    other: Seq<char>,
)
    ensures
        ({
            let chain = model_chain(with_fallbacks(r, model, fallbacks), model);
            &&& chain.len() == fallbacks@.len() + 1
            &&& chain[0] == model
            &&& forall|i: int|
                #![trigger chain[i + 1]]
                0 <= i < fallbacks@.len() ==> chain[i + 1] == fallbacks@[i]@
        }),
        other != model ==> model_chain(with_fallbacks(r, model, fallbacks), other)
            == model_chain(r, other),
        !r.fallbacks.contains_key(model) ==> model_chain(r, model) == seq![model],
        r.fallbacks.contains_key(model) ==> {
            let chain = model_chain(r, model);
            &&& chain.len() == r.fallbacks[model]@.len() + 1
            &&& chain[0] == model
            &&& forall|i: int|
                #![trigger chain[i + 1]]
                0 <= i < r.fallbacks[model]@.len() ==> chain[i + 1] == r.fallbacks[model]@[i]@
        },
{
    assert(seq![model] + Seq::<Seq<char>>::empty() =~= seq![model]);
}

/// The way of a request begins at the first model of its chain, with what the request
/// itself needs: tools if it offers some, streaming if it streams. Its own limit of
/// retries wins over the configured one.
pub proof fn law_how_a_way_begins(r: RouterView, q: GenerateRequestView, vision: bool)
    ensures
        ({
            let t = route_begun(r, q, vision);
            &&& t.request == q
            &&& t.chain == model_chain(r, q.model)
            &&& t.position == 0
            &&& t.attempt == 0
            &&& t.phase == RoutePhase::Choosing
            &&& t.needs.tools <==> q.tools.len() > 0
            &&& t.needs.streaming == q.stream
            &&& t.needs.vision == vision
            &&& t.secrets == auth_secrets(q.auth)
            &&& t.retry.base_delay_ms == r.retry_config.base_delay_ms
            &&& t.retry.max_delay_ms == r.retry_config.max_delay_ms
            &&& q.options.max_retries_hint is Some ==> t.retry.max_retries
                == q.options.max_retries_hint->0
            &&& q.options.max_retries_hint is None ==> t.retry.max_retries
                == r.retry_config.max_retries
            &&& t.last_error.code == ProviderErrorCode::UnsupportedModel
        }),
        message_texts(q.messages).len() == q.messages.len(),
        forall|i: int|
            0 <= i < q.messages.len() ==> #[trigger] message_texts(q.messages)[i]
                == q.messages[i].content,
{
}

/// The models of a chain are tried one by one: every step either stays with a model or goes
/// on to the very next one, and changes neither the chain nor what is asked for. A model
/// without a provider, or whose provider is held back, is passed over; a request that is
/// too long fails; any other is given to the provider.
pub proof fn law_how_a_model_is_looked_at(
    r: RouterView,
    t: RouteView,
    p: Option<int>,
    w: bool,
    now_ms: u64,
)
    requires
        p is Some ==> 0 <= p->0,
    ensures
        ({
            let (u, step) = chosen(r, t, p, w, now_ms);
            &&& u.chain == t.chain
            &&& u.request == t.request
            &&& u.needs == t.needs
            &&& u.retry == t.retry
            &&& u.secrets == t.secrets
            &&& match step {
                RouteStepView::NextModel => {
                    &&& p is None || breaker_open(r.breakers[p->0], now_ms)
                    &&& u.position == t.position + 1
                    &&& u.phase == RoutePhase::Choosing
                    &&& p is None ==> u.last_error.code == ProviderErrorCode::UnsupportedModel
                        && !u.last_error.retryable
                    &&& p is Some ==> u.last_error.code == ProviderErrorCode::CircuitOpen
                },
                RouteStepView::Call { provider, request } => {
                    &&& p == Some(provider as int)
                    &&& u.position == t.position
                    &&& u.provider == provider
                    &&& u.attempt == 0
                    &&& u.phase == RoutePhase::Calling
                    &&& request.model == t.chain[t.position as int]
                    &&& request.messages == t.request.messages
                    &&& request.tools == t.request.tools
                    &&& request.auth == t.request.auth
                    &&& request.options == t.request.options
                    &&& request.stream == t.request.stream
                },
                RouteStepView::Failed(e) => {
                    &&& p is Some
                    &&& e.code == ProviderErrorCode::ContextOverflow
                    &&& u.phase == RoutePhase::Finished
                    &&& match known_metadata(
                        r.registry.metadata,
                        r.registry.order[p->0],
                        t.chain[t.position as int],
                    ) {
                        Some(m) => m.context_window is Some && t.estimated_tokens
                            > m.context_window->0,
                        None => false,
                    }
                },
                _ => false,
            }
        }),
{
}

/// What follows a call: its events are delivered; or, if the error may pass, the same
/// provider is called again after a wait, as often as retries are allowed, and then the
/// very next model is tried; any other error ends the request.
pub proof fn law_what_follows_a_call(t: RouteView, e: ProviderErrorView)
    ensures
        ({
            let (u, step) = attempt_finished(t, Err(e));
            &&& u.chain == t.chain
            &&& u.request == t.request
            &&& u.retry == t.retry
            &&& match step {
                RouteStepView::Wait { at_most_ms } => {
                    &&& e.retryable && t.attempt < t.retry.max_retries
                    &&& u.attempt == t.attempt + 1
                    &&& u.position == t.position
                    &&& u.provider == t.provider
                    &&& u.phase == RoutePhase::Waiting
                    &&& at_most_ms <= t.retry.max_delay_ms
                },
                RouteStepView::NextModel => {
                    &&& e.code == ProviderErrorCode::CircuitOpen || (e.retryable && t.attempt
                        >= t.retry.max_retries)
                    &&& u.position == t.position + 1
                    &&& u.phase == RoutePhase::Choosing
                    &&& u.last_error.code == e.code
                    &&& u.last_error.message == redacted(e.message, t.secrets)
                },
                RouteStepView::Failed(f) => {
                    &&& !e.retryable && e.code != ProviderErrorCode::CircuitOpen
                    &&& f.code == e.code
                    &&& f.message == redacted(e.message, t.secrets)
                    &&& u.phase == RoutePhase::Finished
                },
                _ => false,
            }
        }),
{
    crate::llm::retry::law_backoff_grows_to_the_limit(t.retry, t.attempt, t.attempt);
}

/// After a wait the same provider is asked the same again, unless it is held back by now.
pub proof fn law_what_follows_a_wait(r: RouterView, t: RouteView, now_ms: u64)
    ensures
        ({
            let (u, step) = resumed_route(r, t, now_ms);
            if breaker_open(r.breakers[t.provider as int], now_ms) {
                step is NextModel && u.position == t.position + 1 && u.last_error.code
                    == ProviderErrorCode::CircuitOpen
            } else {
                &&& u == (RouteView { phase: RoutePhase::Calling, ..t })
                &&& match step {
                    RouteStepView::Call { provider, request } => provider == t.provider
                        && request.model == t.chain[t.position as int] && request.messages
                        == t.request.messages && request.tools == t.request.tools,
                    _ => false,
                }
            }
        }),
{
}

/// A failure that may pass counts against the provider and keeps its time, a success
/// forgets all of them, and any other failure changes nothing; no call changes the
/// settings.
pub proof fn law_what_a_call_does_to_the_breaker(
    b: CircuitBreaker,
    events: Seq<Result<StreamEvent, ProviderError>>,
    e: ProviderErrorView,
    now_ms: u64,
)
    requires
        b.failure_count < u32::MAX,
    ensures
        ({
            let after = breaker_after(b, Err(e), now_ms);
            &&& after.threshold == b.threshold && after.reset_timeout_ms == b.reset_timeout_ms
            &&& e.retryable ==> after.failure_count == b.failure_count + 1
                && after.last_failure_ms == now_ms
            &&& !e.retryable ==> after == b
        }),
        ({
            let after = breaker_after(b, Ok(events), now_ms);
            &&& after.threshold == b.threshold && after.reset_timeout_ms == b.reset_timeout_ms
            &&& after.failure_count == 0
            &&& after.last_failure_ms == b.last_failure_ms
        }),
        breaker_open(b, now_ms) <==> b.failure_count >= b.threshold && b.reset_timeout_ms > 0
            && now_ms < b.last_failure_ms + b.reset_timeout_ms,
{
}

/// A failed attempt is repeated exactly if the error may pass and retries are left. The
/// wait is at most the base delay at first, and twice as long each time, up to the limit.
pub proof fn law_waits_double_up_to_the_limit(c: RetryConfig, attempt: nat, retryable: bool)
    ensures
        match retry_decision(c, attempt, retryable) {
            RetryDecision::Wait { at_most_ms } => retryable && attempt < c.max_retries
                && at_most_ms == backoff_ms(c, attempt),
            RetryDecision::GiveUp => !retryable || attempt >= c.max_retries,
        },
        backoff_ms(c, 0) == if c.base_delay_ms <= c.max_delay_ms {
            c.base_delay_ms as nat
        } else {
            c.max_delay_ms as nat
        },
        backoff_ms(c, attempt + 1) == if 2 * backoff_ms(c, attempt) <= c.max_delay_ms {
            2 * backoff_ms(c, attempt)
        } else {
            c.max_delay_ms as nat
        },
{
    crate::llm::retry::law_backoff_grows_to_the_limit(c, attempt, attempt + 1);
    assert(power_of_two(0) == 1);
    let x = c.base_delay_ms * power_of_two(attempt);
    assert(c.base_delay_ms * power_of_two(attempt + 1) == 2 * x) by (nonlinear_arith)
        requires
            power_of_two(attempt + 1) == 2 * power_of_two(attempt),
            x == c.base_delay_ms * power_of_two(attempt),
    ;
}

/// Errors of the server, of time and of broken streams may pass; all others stay.
pub proof fn law_which_errors_may_pass(code: ProviderErrorCode)
    ensures
        passing_error(code) <==> code == ProviderErrorCode::ServerError || code
            == ProviderErrorCode::Timeout || code == ProviderErrorCode::StreamInterrupted,
{
}

/// The error of a stream is the first one in it, however it came; a stream without one has
/// none.
pub proof fn law_a_stream_fails_with_its_first_error(
    events: Seq<Result<StreamEvent, ProviderError>>,
    i: int,
)
    requires
        0 <= i <= events.len(),
        forall|j: int|
            #![trigger events[j]]
            0 <= j < i ==> !(events[j] is Err) && !(events[j] is Ok && events[j]->Ok_0 is Error),
    ensures
        i == events.len() ==> first_error(events, 0) is None,
        i < events.len() && events[i] is Err ==> first_error(events, 0) == Some(
            events[i]->Err_0@,
        ),
        i < events.len() && events[i] is Ok ==> match events[i]->Ok_0 {
            StreamEvent::Error(e) => first_error(events, 0) == Some(e@),
            _ => true,
        },
{
    lemma_first_error(events, i, 0);
}

proof fn lemma_first_error(events: Seq<Result<StreamEvent, ProviderError>>, i: int, from: int)
    requires
        0 <= from <= i <= events.len(),
        forall|j: int|
            #![trigger events[j]]
            0 <= j < i ==> !(events[j] is Err) && !(events[j] is Ok && events[j]->Ok_0 is Error),
    ensures
        first_error(events, from) == first_error(events, i),
    decreases i - from,
{
    if from < i {
        assert(event_error(events[from]) is None);
        lemma_first_error(events, i, from + 1);
    }
}

/// What was registered last of a model at a provider is what is known of it; what is
/// registered of others does not matter.
pub proof fn law_what_was_registered_last_is_known(
    metadata: Seq<MetadataView>,
    m: MetadataView,
    provider: Seq<char>,
    model: Seq<char>,
)
    ensures
        known_metadata(Seq::empty(), provider, model) is None,
        m.provider_id == provider && m.model_id == model ==> known_metadata(
            metadata.push(m),
            provider,
            model,
        ) == Some(m),
        m.provider_id != provider || m.model_id != model ==> known_metadata(
            metadata.push(m),
            provider,
            model,
        ) == known_metadata(metadata, provider, model),
{
    assert(metadata.push(m).drop_last() =~= metadata);
}

/// A provider can take a request exactly if it serves the model and is not known to lack
/// what the request needs.
pub proof fn law_who_can_serve(
    r: RegistryView,
    i: int,
    supports: Seq<bool>,
    model: Seq<char>,
    needs: RequestNeeds,
    known_vision: Option<bool>,
)
    requires
        0 <= i < r.order.len(),
    ensures
        ({
            let m = known_metadata(r.metadata, r.order[i], model);
            let declared = m is Some && m->0.vision_declared;
            can_serve(r, i, supports, model, needs, known_vision) <==> {
                &&& supports[i]
                &&& !(needs.tools && m is Some && !m->0.supports_tools)
                &&& !(needs.streaming && m is Some && !m->0.supports_streaming)
                &&& !(needs.vision && declared && !m->0.supports_vision)
                &&& !(needs.vision && !declared && known_vision == Some(false))
            }
        }),
{
}

/// The provider that is chosen can take the request; no other that can take it is known to
/// cost less; of those that cost the same, or of which nothing is known, it was registered
/// first; and one whose cost is known comes before one whose cost is not.
pub proof fn law_the_cheapest_provider_is_chosen(
    r: RegistryView,
    i: int,
    j: int,
    supports: Seq<bool>,
    model: Seq<char>,
    needs: RequestNeeds,
    known_vision: Option<bool>,
)
    requires
        is_choice(r, i, supports, model, needs, known_vision),
        can_serve(r, j, supports, model, needs, known_vision),
    ensures
        can_serve(r, i, supports, model, needs, known_vision),
        0 <= i < r.order.len(),
        ({
            let a = known_metadata(r.metadata, r.order[i], model);
            let b = known_metadata(r.metadata, r.order[j], model);
            let known = |m: Option<MetadataView>| m is Some && m->0.unit_cost is Some;
            &&& known(a) && known(b) ==> a->0.unit_cost->0 <= b->0.unit_cost->0
            &&& known(a) && known(b) && a->0.unit_cost->0 == b->0.unit_cost->0 ==> i <= j
            &&& !known(a) && !known(b) ==> i <= j
            &&& !known(a) && known(b) ==> b->0.unit_cost->0 >= 9_218_868_437_227_405_311i64
        }),
{
}

/// A provider that lists no models serves every model; one that lists some, those alone.
pub proof fn law_which_models_a_provider_serves(models: Seq<Seq<char>>, model: Seq<char>)
    ensures
        listed(Seq::empty(), model),
        models.len() > 0 ==> (listed(models, model) <==> exists|i: int|
            0 <= i < models.len() && #[trigger] models[i] == model),
{
}

/// A model is known as soon as one entry is about it, and accepts images as soon as one of
/// those entries says so, by taking attachments or by naming images among its inputs.
pub proof fn law_the_richer_entry_wins(models: Seq<KnownModel>, m: KnownModel, key: Seq<char>)
    ensures
        !lists_model(Seq::empty(), key),
        !lists_vision(Seq::empty(), key),
        lists_model(models.push(m), key) <==> lists_model(models, key) || lower_text(m.key@) == key,
        lists_vision(models.push(m), key) <==> lists_vision(models, key) || (lower_text(m.key@)
            == key && (m.attachment == Some(true) || exists|i: int|
            0 <= i < m.input_modalities@.len() && lower_text(#[trigger] m.input_modalities@[i]@)
                == "image"@)),
{
    let longer = models.push(m);
    assert(longer[models.len() as int] == m);
    if lists_model(models, key) {
        let i = choose|i: int|
            0 <= i < models.len() && lower_text((#[trigger] models[i]).key@) == key;
        assert(longer[i] == models[i]);
    }
    if lists_model(longer, key) {
        let i = choose|i: int|
            0 <= i < longer.len() && lower_text((#[trigger] longer[i]).key@) == key;
        if i < models.len() {
            assert(longer[i] == models[i]);
        }
    }
    if lists_vision(models, key) {
        let i = choose|i: int|
            0 <= i < models.len() && lower_text((#[trigger] models[i]).key@) == key
                && accepts_images(models[i]);
        assert(longer[i] == models[i]);
    }
    if lists_vision(longer, key) {
        let i = choose|i: int|
            0 <= i < longer.len() && lower_text((#[trigger] longer[i]).key@) == key
                && accepts_images(longer[i]);
        if i < models.len() {
            assert(longer[i] == models[i]);
        }
    }
}

/// Every credential of a request is one of its secrets.
pub proof fn law_every_credential_is_a_secret(
    a: Seq<char>,
    b: Seq<char>,
    c: Seq<char>,
    provider: Seq<char>,
)
    ensures
        auth_secrets(AuthView::NoAuth).len() == 0,
        auth_secrets(AuthView::ApiKey { provider, key: a }).contains(a),
        auth_secrets(AuthView::BearerToken { token: a }).contains(a),
        auth_secrets(AuthView::AzureToken { api_key: a }).contains(a),
        ({
            let s = auth_secrets(
                AuthView::AwsSignature {
                    access_key_id: a,
                    secret_access_key: b,
                    session_token: Some(c),
                },
            );
            s.contains(a) && s.contains(b) && s.contains(c)
        }),
        ({
            let s = auth_secrets(
                AuthView::AwsSignature {
                    access_key_id: a,
                    secret_access_key: b,
                    session_token: None,
                },
            );
            s.contains(a) && s.contains(b)
        }),
{
    assert(auth_secrets(AuthView::ApiKey { provider, key: a })[0] == a);
    assert(auth_secrets(AuthView::BearerToken { token: a })[0] == a);
    assert(auth_secrets(AuthView::AzureToken { api_key: a })[0] == a);
    let s = auth_secrets(
        AuthView::AwsSignature { access_key_id: a, secret_access_key: b, session_token: Some(c) },
    );
    assert(s[0] == a && s[1] == b && s[2] == c);
    let s = auth_secrets(
        AuthView::AwsSignature { access_key_id: a, secret_access_key: b, session_token: None },
    );
    assert(s[0] == a && s[1] == b);
}

/// A message that repeats no secret is handed on as it is, and an error keeps its kind
/// whatever its message.
pub proof fn law_harmless_errors_are_handed_on(e: ProviderErrorView, secrets: Seq<Seq<char>>)
    ensures
        (forall|i: int|
            0 <= i < secrets.len() ==> (#[trigger] secrets[i]).len() == 0 || !contains_text(
                e.message,
                secrets[i],
            )) ==> hushed(e, secrets) == e,
        hushed(e, secrets).code == e.code,
        hushed(e, secrets).retryable == e.retryable,
    decreases secrets.len(),
{
    if forall|i: int|
        0 <= i < secrets.len() ==> (#[trigger] secrets[i]).len() == 0 || !contains_text(
            e.message,
            secrets[i],
        ) {
        if secrets.len() > 0 {
            let front = secrets.drop_last();
            assert forall|i: int| 0 <= i < front.len() implies (#[trigger] front[i]).len() == 0
                || !contains_text(e.message, front[i]) by {
                assert(front[i] == secrets[i]);
            }
            law_harmless_errors_are_handed_on(e, front);
            assert(hushed(e, front).message == e.message);
            let last = secrets[secrets.len() - 1];
            if last.len() > 0 {
                law_replacing_goes_from_left_to_right(e.message, last, "<redacted>"@, 0);
            }
        }
    }
}

/// The tokens of a text are at least one, one for each word and one for four characters
/// begun, and no more than the largest of these.
pub proof fn law_tokens_of_a_text(s: Seq<char>)
    ensures
        text_tokens(s) >= 1,
        text_tokens(s) >= words(s).len(),
        4 * text_tokens(s) >= s.len(),
        text_tokens(s) == 1 || text_tokens(s) == words(s).len() || 4 * text_tokens(s) < s.len() + 4,
{
}

/// One more message adds the tokens of its text and four, one more tool eight; a request
/// has at least one.
pub proof fn law_tokens_of_a_request(messages: Seq<Seq<char>>, m: Seq<char>, tools: nat)
    ensures
        request_tokens(Seq::empty(), 0) == 1,
        request_tokens(messages.push(m), tools) == messages_tokens(messages) + text_tokens(m) + 4
            + 8 * tools,
        request_tokens(messages.push(m), tools + 1) == request_tokens(messages.push(m), tools) + 8,
        messages_tokens(Seq::empty()) == 0,
        messages_tokens(messages.push(m)) == messages_tokens(messages) + text_tokens(m) + 4,
{
    assert(messages.push(m).drop_last() =~= messages);
}

/// A router begins with a closed breaker for each provider, which opens at five failures for
/// fifteen seconds, with three retries, and without fallbacks.
pub proof fn law_how_a_router_begins(registry: RegistryView, i: int)
    ensures
        ({
            let r = fresh_router(registry);
            &&& r.registry == registry
            &&& r.breakers.len() == registry.order.len()
            &&& 0 <= i < r.breakers.len() ==> r.breakers[i].failure_count == 0
                && r.breakers[i].threshold == 5 && r.breakers[i].reset_timeout_ms == 15_000
            &&& r.retry_config.max_retries == 3 && r.retry_config.base_delay_ms == 500
                && r.retry_config.max_delay_ms == 8000
            &&& !r.fallbacks.contains_key(Seq::empty()) && r.fallbacks.dom().len() == 0
        }),
{
}

/// The error with which a model is passed over names the model or the provider.
pub proof fn law_errors_name_the_model(
    r: RouterView,
    t: RouteView,
    p: Option<int>,
    w: bool,
    now_ms: u64,
)
    requires
        p is Some ==> 0 <= p->0,
    ensures
        match chosen(r, t, p, w, now_ms).1 {
            RouteStepView::NextModel => if p is None {
                contains_text(
                    chosen(r, t, p, w, now_ms).0.last_error.message,
                    t.chain[t.position as int],
                )
            } else {
                contains_text(
                    chosen(r, t, p, w, now_ms).0.last_error.message,
                    r.registry.order[p->0],
                )
            },
            _ => true,
        },
{
    let model = t.chain[t.position as int];
    if p is None {
        let a = "Model '"@;
        let b = "' does not support vision input; no vision-capable provider is registered for an image-bearing request"@;
        lemma_contains_middle(a, model, b);
        lemma_contains_middle("No provider for model '"@, model, "'"@);
    } else {
        lemma_contains_middle(
            "Circuit breaker open for provider '"@,
            r.registry.order[p->0],
            "'"@,
        );
    }
}

/// A model is called exactly if it has a provider, the request fits what is known of its
/// window and its provider is not held back; a request that does not fit is refused, whether
/// or not the provider is held back.
pub proof fn law_when_a_model_is_called(
    r: RouterView,
    t: RouteView,
    p: int,
    w: bool,
    now_ms: u64,
)
    requires
        0 <= p,
    ensures
        ({
            let model = t.chain[t.position as int];
            let known = known_metadata(r.registry.metadata, r.registry.order[p], model);
            let too_large = known is Some && known->0.context_window is Some
                && t.estimated_tokens > known->0.context_window->0;
            let step = chosen(r, t, Some(p), w, now_ms).1;
            &&& step is Failed <==> too_large
            &&& step is NextModel <==> !too_large && breaker_open(r.breakers[p], now_ms)
            &&& step is Call <==> !too_large && !breaker_open(r.breakers[p], now_ms)
            &&& chosen(r, t, None, w, now_ms).1 is NextModel
        }),
{
}

} // verus!
