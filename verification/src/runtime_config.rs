//! What an operator configures: the providers and tools that run as processes, and how
//! often schedules are looked at.
use vstd::prelude::*;

use crate::json::{Json, JsonView};
use crate::llm::external::{ExternalProcessProvider, ExternalView};
use crate::llm::registry::{MetadataView, ModelRoutingMetadata, ProviderRegistry, RegistryView};
use crate::llm::router::{fresh_router, LlmRouter};
use crate::protocol::actor::{Actor, ActorKind};
use crate::protocol::command::CommandEnvelope;
use crate::sidecar::SidecarCommand;
use crate::text::{clone_opt, clone_texts, decimal, opt_text, push_decimal, texts};

verus! {

/// A provider that runs as a process, with what its models cost and can do.
#[derive(Debug, Clone)]
pub struct LlmProviderConfig {
    pub provider_id: String,
    pub program: String,
    pub args: Vec<String>,
    pub models: Vec<String>,
    pub cwd: Option<String>,
    pub timeout_ms: Option<u64>,
    /// An integer that orders as the cost does, where the whole cost is known.
    pub unit_cost: Option<i64>,
    pub context_window: Option<u32>,
    pub supports_tools: Option<bool>,
    pub supports_streaming: Option<bool>,
}

#[derive(Debug, Clone)]
pub struct SidecarConfig {
    pub tool_name: String,
    pub program: String,
    pub args: Vec<String>,
    pub cwd: Option<String>,
}

#[derive(Debug, Clone)]
pub struct RuntimeConfig {
    pub llm_providers: Vec<LlmProviderConfig>,
    pub sidecars: Vec<SidecarConfig>,
    pub background_schedule_tick_ms: Option<u64>,
}

impl Default for RuntimeConfig {
    fn default() -> (c: Self)
        ensures
            c.llm_providers@.len() == 0,
            c.sidecars@.len() == 0,
            c.background_schedule_tick_ms is None,
    {
        RuntimeConfig {
            llm_providers: Vec::new(),
            sidecars: Vec::new(),
            background_schedule_tick_ms: None,
        }
    }
}

/// A flag that is taken to be set unless it says otherwise.
pub open spec fn unless_denied(flag: Option<bool>) -> bool {
    match flag {
        Some(b) => b,
        None => true,
    }
}

/// What a configuration says of a model of its provider.
pub open spec fn configured_model(c: LlmProviderConfig, model: Seq<char>) -> MetadataView {
    MetadataView {
        provider_id: c.provider_id@,
        model_id: model,
        unit_cost: c.unit_cost,
        context_window: c.context_window,
        supports_tools: unless_denied(c.supports_tools),
        supports_streaming: unless_denied(c.supports_streaming),
        supports_vision: true,
        vision_declared: false,
    }
}

pub open spec fn configured_models(c: LlmProviderConfig) -> Seq<MetadataView> {
    Seq::new(c.models@.len(), |i: int| configured_model(c, c.models@[i]@))
}

/// The provider that a configuration describes: thirty seconds for an answer unless it
/// says otherwise.
pub open spec fn configured_provider(c: LlmProviderConfig) -> ExternalView {
    ExternalView {
        provider_id: c.provider_id@,
        models: texts(c.models@),
        program: c.program@,
        args: texts(c.args@),
        cwd: opt_text(c.cwd),
        default_timeout_ms: match c.timeout_ms {
            Some(t) => t,
            None => 30_000,
        },
    }
}

/// Providers that are registered, each at its place.
pub struct ConfiguredView {
    pub registry: RegistryView,
    pub providers: Seq<ExternalView>,
}

/// The providers of a list of configurations. A provider keeps the place at which it was
/// first configured; how it is run is what its last configuration says.
pub open spec fn configured(configs: Seq<LlmProviderConfig>) -> ConfiguredView
    decreases configs.len(),
{
    if configs.len() == 0 {
        ConfiguredView {
            registry: RegistryView { order: Seq::empty(), metadata: Seq::empty() },
            providers: Seq::empty(),
        }
    } else {
        let before = configured(configs.drop_last());
        let c = configs.last();
        let order = before.registry.order;
        let known = order.contains(c.provider_id@);
        ConfiguredView {
            registry: RegistryView {
                order: if known {
                    order
                } else {
                    order.push(c.provider_id@)
                },
                metadata: before.registry.metadata + configured_models(c),
            },
            providers: if known {
                before.providers.update(
                    order.index_of(c.provider_id@),
                    configured_provider(c),
                )
            } else {
                before.providers.push(configured_provider(c))
            },
        }
    }
}

pub open spec fn external_views(providers: Seq<ExternalProcessProvider>) -> Seq<ExternalView> {
    Seq::new(providers.len(), |i: int| providers[i]@)
}

impl LlmProviderConfig {
    /// The provider that this configuration describes.
    pub fn provider(&self) -> (p: ExternalProcessProvider)
        ensures
            p@ == configured_provider(*self),
    {
        let mut p = ExternalProcessProvider::new(
            self.provider_id.as_str(),
            self.program.as_str(),
        ).with_args(clone_texts(&self.args)).with_models(clone_texts(&self.models));
        if let Some(cwd) = clone_opt(&self.cwd) {
            p = p.with_cwd(cwd.as_str());
        }
        if let Some(timeout_ms) = self.timeout_ms {
            p = p.with_timeout_ms(timeout_ms);
        }
        p
    }

    /// What this configuration says of a model.
    pub fn model_metadata(&self, model: &str) -> (m: ModelRoutingMetadata)
        ensures
            m@ == configured_model(*self, model@),
    {
        let mut m = ModelRoutingMetadata::new(self.provider_id.as_str(), model);
        if let Some(unit_cost) = self.unit_cost {
            m = m.with_unit_cost(unit_cost);
        }
        if let Some(context_window) = self.context_window {
            m = m.with_context_window(context_window);
        }
        if let Some(supports_tools) = self.supports_tools {
            m = m.with_tool_support(supports_tools);
        }
        if let Some(supports_streaming) = self.supports_streaming {
            m = m.with_streaming_support(supports_streaming);
        }
        m
    }
}

/// Providers that are registered, each at its place.
#[derive(Debug)]
pub struct ConfiguredProviders {
    pub registry: ProviderRegistry,
    pub providers: Vec<ExternalProcessProvider>,
}

impl View for ConfiguredProviders {
    type V = ConfiguredView;

    open spec fn view(&self) -> ConfiguredView {
        ConfiguredView {
            registry: self.registry@,
            providers: external_views(self.providers@),
        }
    }
}

/// Registers the providers of a list of configurations.
pub fn configure_providers(configs: &Vec<LlmProviderConfig>) -> (r: ConfiguredProviders)
    ensures
        r.registry.wf(),
        r@ == configured(configs@),
        r.providers@.len() == r.registry@.order.len(),
{
    let mut registry = ProviderRegistry::new();
    let mut providers: Vec<ExternalProcessProvider> = Vec::new();
    let mut n: usize = 0;
    proof {
        assert(external_views(providers@) =~= Seq::empty());
        assert(configs@.take(0) =~= Seq::<LlmProviderConfig>::empty());
    }
    while n < configs.len()
        invariant
            n <= configs@.len(),
            registry.wf(),
            registry@ == configured(configs@.take(n as int)).registry,
            external_views(providers@) == configured(configs@.take(n as int)).providers,
            providers@.len() == registry@.order.len(),
        decreases configs@.len() - n,
    {
        let c = &configs[n];
        let ghost before = configured(configs@.take(n as int));
        let ghost order = registry@.order;
        let ghost metadata = registry@.metadata;
        let ghost views = external_views(providers@);
        proof {
            assert(configs@.take(n + 1).drop_last() =~= configs@.take(n as int));
            assert(configs@.take(n + 1).last() == *c);
        }
        let provider = c.provider();
        let count: usize = providers.len();
        let place: usize = registry.register(c.provider_id.as_str());
        if place < count {
            proof {
                assert(order.contains(c.provider_id@)) by {
                    if !order.contains(c.provider_id@) {
                        assert(registry@.order[place as int] == order[place as int]);
                    }
                }
                assert(order[place as int] == c.provider_id@);
                let at = order.index_of(c.provider_id@);
                assert(order[at] == c.provider_id@);
                assert(at == place);
            }
            providers.set(place, provider);
            assert(external_views(providers@) =~= views.update(place as int, provider@));
        } else {
            assert(!order.contains(c.provider_id@));
            providers.push(provider);
            assert(external_views(providers@) =~= views.push(provider@));
        }
        let mut m: usize = 0;
        let ghost new_order = registry@.order;
        assert(configured_models(*c).take(0) =~= Seq::<MetadataView>::empty());
        assert(metadata + Seq::<MetadataView>::empty() =~= metadata);
        while m < c.models.len()
            invariant
                m <= c.models@.len(),
                registry.wf(),
                registry@.order == new_order,
                registry@.metadata == metadata + configured_models(*c).take(m as int),
            decreases c.models@.len() - m,
        {
            registry.register_model_metadata(c.model_metadata(c.models[m].as_str()));
            assert(metadata + configured_models(*c).take(m + 1) =~= (metadata + configured_models(
                *c,
            ).take(m as int)).push(configured_models(*c)[m as int]));
            m += 1;
        }
        assert(configured_models(*c).take(m as int) =~= configured_models(*c));
        n += 1;
    }
    assert(configs@.take(n as int) =~= configs@);
    ConfiguredProviders { registry, providers }
}

/// What a configuration sets up: a router where it names providers, and the commands
/// of the tools that run as processes.
#[derive(Debug)]
pub struct RouterSetup {
    pub llm: Option<(LlmRouter, Vec<ExternalProcessProvider>)>,
    pub sidecars: Vec<(String, SidecarCommand)>,
}

/// The tool and the command that a configuration names.
pub open spec fn names_tool(c: SidecarConfig, tool: (String, SidecarCommand)) -> bool {
    &&& tool.0@ == c.tool_name@
    &&& tool.1.program@ == c.program@
    &&& texts(tool.1.args@) == texts(c.args@)
    &&& opt_text(tool.1.cwd) == opt_text(c.cwd)
}

/// Sets up what a configuration names.
pub fn configure_router(config: &RuntimeConfig) -> (r: RouterSetup)
    ensures
        match r.llm {
            Some((router, providers)) => {
                &&& config.llm_providers@.len() > 0
                &&& router.wf()
                &&& router@ == fresh_router(configured(config.llm_providers@).registry)
                &&& external_views(providers@) == configured(config.llm_providers@).providers
            },
            None => config.llm_providers@.len() == 0,
        },
        r.sidecars@.len() == config.sidecars@.len(),
        forall|i: int|
            0 <= i < r.sidecars@.len() ==> names_tool(
                config.sidecars@[i],
                #[trigger] r.sidecars@[i],
            ),
{
    let llm = if config.llm_providers.len() > 0 {
        let c = configure_providers(&config.llm_providers);
        let router = LlmRouter::new(c.registry);
        Some((router, c.providers))
    } else {
        None
    };
    let mut sidecars: Vec<(String, SidecarCommand)> = Vec::new();
    let mut i: usize = 0;
    while i < config.sidecars.len()
        invariant
            i <= config.sidecars@.len(),
            sidecars@.len() == i,
            forall|j: int|
                0 <= j < i ==> names_tool(config.sidecars@[j], #[trigger] sidecars@[j]),
        decreases config.sidecars@.len() - i,
    {
        let c = &config.sidecars[i];
        let tool = (
            c.tool_name.clone(),
            SidecarCommand {
                program: c.program.clone(),
                args: clone_texts(&c.args),
                cwd: clone_opt(&c.cwd),
            },
        );
        assert(names_tool(config.sidecars@[i as int], tool));
        sidecars.push(tool);
        i += 1;
    }
    RouterSetup { llm, sidecars }
}

/// How often schedules are looked at in the background; never if no time is set.
pub fn background_tick(config: &RuntimeConfig) -> (r: Option<u64>)
    ensures
        r == match config.background_schedule_tick_ms {
            Some(t) if t > 0 => Some(t),
            _ => None,
        },
{
    match config.background_schedule_tick_ms {
        Some(t) if t > 0 => Some(t),
        _ => None,
    }
}

/// A time in decimal, with a sign if it is negative.
pub open spec fn time_text(t: i64) -> Seq<char> {
    if t < 0 {
        "-"@ + decimal((-t) as nat)
    } else {
        decimal(t as nat)
    }
}

fn push_time(s: &mut String, t: i64)
    ensures
        final(s)@ == old(s)@ + time_text(t),
{
    let ghost before = s@;
    if t < 0 {
        s.append("-");
        let n: u64 = (0 - t as i128) as u64;
        push_decimal(s, n);
        assert(s@ =~= before + time_text(t));
    } else {
        push_decimal(s, t as u64);
    }
}

/// A command that the ticker of schedules gives at a time.
pub open spec fn is_tick_command(
    c: CommandEnvelope,
    prefix: Seq<char>,
    method: Seq<char>,
    at: i64,
) -> bool {
    &&& c.request_id@ == prefix + time_text(at)
    &&& c.method@ == method
    &&& c.params@ == JsonView::Object(Seq::empty())
    &&& c.actor.kind == ActorKind::System
    &&& opt_text(c.actor.id) == Some("schedule-ticker"@)
    &&& c.session_id is None
    &&& c.idempotency_key is None
    &&& c.submitted_at == at
}

fn tick_command(prefix: &str, method: &str, at: i64) -> (c: CommandEnvelope)
    ensures
        is_tick_command(c, prefix@, method@, at),
{
    let mut request_id = prefix.to_owned();
    push_time(&mut request_id, at);
    CommandEnvelope {
        request_id,
        method: method.to_owned(),
        params: Json::object(),
        actor: Actor::with_id(ActorKind::System, "schedule-ticker"),
        session_id: None,
        idempotency_key: None,
        submitted_at: at,
    }
}

/// The commands of one tick: first what is outdated is swept out, then what is due is
/// started.
pub fn tick_commands(at: i64) -> (r: (CommandEnvelope, CommandEnvelope))
    ensures
        is_tick_command(r.0, "retention-sweep-"@, "retention.sweep"@, at),
        is_tick_command(r.1, "schedule-tick-"@, "schedule.fire_due"@, at),
{
    (
        tick_command("retention-sweep-", "retention.sweep", at),
        tick_command("schedule-tick-", "schedule.fire_due", at),
    )
}

/// The pause between two ticks: never none.
pub fn tick_pause_ms(interval_ms: u64) -> (p: u64)
    ensures
        p == if interval_ms == 0 {
            1
        } else {
            interval_ms
        },
{
    if interval_ms == 0 {
        1
    } else {
        interval_ms
    }
}

/// Each configured provider is registered once, and run as its last configuration says.
pub proof fn law_every_configured_provider_is_registered(configs: Seq<LlmProviderConfig>, i: int)
    requires
        0 <= i < configs.len(),
    ensures
        configured(configs).registry.order.no_duplicates(),
        configured(configs).providers.len() == configured(configs).registry.order.len(),
        configured(configs).registry.order.contains(configs[i].provider_id@),
        (forall|j: int| i < j < configs.len() ==> (#[trigger] configs[j]).provider_id@
            != configs[i].provider_id@) ==> configured(configs).providers[configured(
            configs,
        ).registry.order.index_of(configs[i].provider_id@)] == configured_provider(configs[i]),
    decreases configs.len(),
{
    let c = configs.last();
    let rest = configs.drop_last();
    let before = configured(rest);
    let order = before.registry.order;
    let id = configs[i].provider_id@;
    lemma_configured(rest);
    lemma_configured(configs);
    let now = configured(configs).registry.order;
    let at_last = now.index_of(c.provider_id@);
    if i < configs.len() - 1 {
        law_every_configured_provider_is_registered(rest, i);
        assert(rest[i] == configs[i]);
        let was = order.index_of(id);
        assert(order[was] == id);
        assert(now[was] == id);
        let place = now.index_of(id);
        assert(now[place] == id);
        assert(place == was);
        if forall|j: int| i < j < configs.len() ==> (#[trigger] configs[j]).provider_id@ != id {
            assert(configs[configs.len() - 1].provider_id@ != id);
            assert forall|j: int| i < j < rest.len() implies (#[trigger] rest[j]).provider_id@
                != id by {
                assert(rest[j] == configs[j]);
            }
            if order.contains(c.provider_id@) {
                let p = order.index_of(c.provider_id@);
                assert(order[p] == c.provider_id@);
                assert(p != was);
            }
        }
    } else {
        assert(now.contains(id)) by {
            if order.contains(id) {
            } else {
                assert(now[order.len() as int] == id);
            }
        }
        let place = now.index_of(id);
        assert(now[place] == id);
        if order.contains(id) {
        } else {
            assert(now[order.len() as int] == id);
            assert(place == order.len());
        }
    }
}

proof fn lemma_configured(configs: Seq<LlmProviderConfig>)
    ensures
        configured(configs).registry.order.no_duplicates(),
        configured(configs).providers.len() == configured(configs).registry.order.len(),
    decreases configs.len(),
{
    if configs.len() > 0 {
        lemma_configured(configs.drop_last());
    }
}

/// A provider is run as it is configured: its program with its arguments, in its directory,
/// for its models, and with its time, or thirty seconds where none is set.
pub proof fn law_a_provider_is_run_as_configured(c: LlmProviderConfig, model: Seq<char>)
    ensures
        ({
            let p = configured_provider(c);
            &&& p.provider_id == c.provider_id@
            &&& p.program == c.program@
            &&& p.args == texts(c.args@)
            &&& p.models == texts(c.models@)
            &&& c.cwd is Some ==> p.cwd == Some(c.cwd->0@)
            &&& c.cwd is None ==> p.cwd is None
            &&& c.timeout_ms is Some ==> p.default_timeout_ms == c.timeout_ms->0
            &&& c.timeout_ms is None ==> p.default_timeout_ms == 30_000
        }),
        ({
            let m = configured_model(c, model);
            &&& m.provider_id == c.provider_id@
            &&& m.model_id == model
            &&& m.unit_cost == c.unit_cost
            &&& m.context_window == c.context_window
            &&& m.supports_tools <==> c.supports_tools != Some(false)
            &&& m.supports_streaming <==> c.supports_streaming != Some(false)
            &&& !m.vision_declared
        }),
{
}

/// One more configuration adds what it says of each of its models, behind what was known; a
/// provider that was not configured before comes last, and any other keeps its place.
pub proof fn law_configurations_are_added_one_by_one(
    configs: Seq<LlmProviderConfig>,
    c: LlmProviderConfig,
    i: int,
)
    ensures
        ({
            let before = configured(configs);
            let after = configured(configs.push(c));
            let n = before.registry.metadata.len();
            &&& after.registry.metadata.len() == n + c.models@.len()
            &&& after.registry.metadata.take(n as int) == before.registry.metadata
            &&& 0 <= i < c.models@.len() ==> after.registry.metadata[n + i] == configured_model(
                c,
                c.models@[i]@,
            )
            &&& before.registry.order.is_prefix_of(after.registry.order)
            &&& before.registry.order.contains(c.provider_id@) ==> after.registry.order
                == before.registry.order
            &&& !before.registry.order.contains(c.provider_id@) ==> after.registry.order
                == before.registry.order.push(c.provider_id@) && after.providers.last()
                == configured_provider(c)
        }),
        configured(Seq::empty()).registry.order.len() == 0,
        configured(Seq::empty()).providers.len() == 0,
{
    let before = configured(configs);
    let after = configured(configs.push(c));
    assert(configs.push(c).drop_last() =~= configs);
    let n = before.registry.metadata.len() as int;
    assert(after.registry.metadata.take(n) =~= before.registry.metadata);
    assert(after.registry.order.subrange(0, before.registry.order.len() as int)
        =~= before.registry.order);
}

/// A time is written with its sign and its digits, so that different times have different
/// texts before the epoch and behind it.
pub proof fn law_times_are_written_with_their_sign(t: i64)
    ensures
        t >= 0 ==> time_text(t) == decimal(t as nat),
        t < 0 ==> time_text(t) == "-"@ + decimal((-t) as nat),
{
}

/// The commands of a tick are those of the system, given by the ticker at its time.
pub proof fn law_what_a_tick_commands(
    c: CommandEnvelope,
    prefix: Seq<char>,
    method: Seq<char>,
    at: i64,
)
    requires
        is_tick_command(c, prefix, method, at),
    ensures
        c.method@ == method,
        prefix.is_prefix_of(c.request_id@),
        c.submitted_at == at,
        c.actor@.kind == ActorKind::System,
        c.actor@.id == Some("schedule-ticker"@),
        c.session_id is None && c.idempotency_key is None,
{
    assert(c.request_id@.subrange(0, prefix.len() as int) =~= prefix);
}

/// A tool is run as it is configured.
pub proof fn law_a_tool_is_run_as_configured(c: SidecarConfig, tool: (String, SidecarCommand))
    requires
        names_tool(c, tool),
    ensures
        tool.0@ == c.tool_name@,
        tool.1.program@ == c.program@,
        texts(tool.1.args@) == texts(c.args@),
        c.cwd is Some <==> tool.1.cwd is Some,
        c.cwd is Some ==> tool.1.cwd->0@ == c.cwd->0@,
{
}

} // verus!
