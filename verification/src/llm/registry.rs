//! Which provider serves a model.
use vstd::prelude::*;

use crate::text::{same_text, texts};

verus! {

/// What is known of a model at one provider.
///
/// Costs are ordered, never added up here: `unit_cost` is an integer that orders as
/// the cost does.
#[derive(Debug, PartialEq)]
pub struct ModelRoutingMetadata {
    pub provider_id: String,
    pub model_id: String,
    pub unit_cost: Option<i64>,
    pub context_window: Option<u32>,
    pub supports_tools: bool,
    pub supports_streaming: bool,
    pub supports_vision: bool,
    /// Whether `supports_vision` was set on purpose.
    pub vision_declared: bool,
}

pub struct MetadataView {
    pub provider_id: Seq<char>,
    pub model_id: Seq<char>,
    pub unit_cost: Option<i64>,
    pub context_window: Option<u32>,
    pub supports_tools: bool,
    pub supports_streaming: bool,
    pub supports_vision: bool,
    pub vision_declared: bool,
}

impl View for ModelRoutingMetadata {
    type V = MetadataView;

    open spec fn view(&self) -> MetadataView {
        MetadataView {
            provider_id: self.provider_id@,
            model_id: self.model_id@,
            unit_cost: self.unit_cost,
            context_window: self.context_window,
            supports_tools: self.supports_tools,
            supports_streaming: self.supports_streaming,
            supports_vision: self.supports_vision,
            vision_declared: self.vision_declared,
        }
    }
}

impl Clone for ModelRoutingMetadata {
    fn clone(&self) -> (r: Self)
        ensures
            r@ == self@,
    {
        ModelRoutingMetadata {
            provider_id: self.provider_id.clone(),
            model_id: self.model_id.clone(),
            unit_cost: self.unit_cost,
            context_window: self.context_window,
            supports_tools: self.supports_tools,
            supports_streaming: self.supports_streaming,
            supports_vision: self.supports_vision,
            vision_declared: self.vision_declared,
        }
    }
}

impl ModelRoutingMetadata {
    /// Nothing is known: the model is expected to be able to do everything.
    pub fn new(provider_id: &str, model_id: &str) -> (m: Self)
        ensures
            m@ == (MetadataView {
                provider_id: provider_id@,
                model_id: model_id@,
                unit_cost: None,
                context_window: None,
                supports_tools: true,
                supports_streaming: true,
                supports_vision: true,
                vision_declared: false,
            }),
    {
        ModelRoutingMetadata {
            provider_id: provider_id.to_owned(),
            model_id: model_id.to_owned(),
            unit_cost: None,
            context_window: None,
            supports_tools: true,
            supports_streaming: true,
            supports_vision: true,
            vision_declared: false,
        }
    }

    pub fn with_unit_cost(self, unit_cost: i64) -> (m: Self)
        ensures
            m@ == (MetadataView { unit_cost: Some(unit_cost), ..self@ }),
    {
        let mut m = self;
        m.unit_cost = Some(unit_cost);
        m
    }

    pub fn with_context_window(self, context_window: u32) -> (m: Self)
        ensures
            m@ == (MetadataView { context_window: Some(context_window), ..self@ }),
    {
        let mut m = self;
        m.context_window = Some(context_window);
        m
    }

    pub fn with_tool_support(self, supports_tools: bool) -> (m: Self)
        ensures
            m@ == (MetadataView { supports_tools, ..self@ }),
    {
        let mut m = self;
        m.supports_tools = supports_tools;
        m
    }

    pub fn with_streaming_support(self, supports_streaming: bool) -> (m: Self)
        ensures
            m@ == (MetadataView { supports_streaming, ..self@ }),
    {
        let mut m = self;
        m.supports_streaming = supports_streaming;
        m
    }

    pub fn with_vision_support(self, supports_vision: bool) -> (m: Self)
        ensures
            m@ == (MetadataView { supports_vision, vision_declared: true, ..self@ }),
    {
        let mut m = self;
        m.supports_vision = supports_vision;
        m.vision_declared = true;
        m
    }
}

pub open spec fn metadata_views(s: Seq<ModelRoutingMetadata>) -> Seq<MetadataView> {
    Seq::new(s.len(), |i: int| s[i]@)
}

/// What a request needs of a provider.
#[derive(Debug, Clone, Copy, PartialEq, Eq, Structural)]
pub struct RequestNeeds {
    pub tools: bool,
    pub streaming: bool,
    pub vision: bool,
}

/// The providers in the order of their registration, and what is known of models.
#[derive(Debug)]
pub struct ProviderRegistry {
    provider_order: Vec<String>,
    model_metadata: Vec<ModelRoutingMetadata>,
}

pub struct RegistryView {
    pub order: Seq<Seq<char>>,
    pub metadata: Seq<MetadataView>,
}

impl View for ProviderRegistry {
    type V = RegistryView;

    closed spec fn view(&self) -> RegistryView {
        RegistryView {
            order: texts(self.provider_order@),
            metadata: metadata_views(self.model_metadata@),
        }
    }
}

/// What is known of the model at the provider: what was registered last.
pub open spec fn known_metadata(
    metadata: Seq<MetadataView>,
    provider: Seq<char>,
    model: Seq<char>,
) -> Option<MetadataView>
    decreases metadata.len(),
{
    if metadata.len() == 0 {
        None
    } else if metadata.last().provider_id == provider && metadata.last().model_id == model {
        Some(metadata.last())
    } else {
        known_metadata(metadata.drop_last(), provider, model)
    }
}

/// The provider accepts images for the model: by a declaration, else by what is
/// generally known of the model, else it is expected to.
pub open spec fn vision_supported(
    r: RegistryView,
    provider: Seq<char>,
    model: Seq<char>,
    known_vision: Option<bool>,
) -> bool {
    match known_metadata(r.metadata, provider, model) {
        Some(m) if m.vision_declared => m.supports_vision,
        _ => match known_vision {
            Some(v) => v,
            None => true,
        },
    }
}

/// The provider can take a request for the model.
pub open spec fn can_serve(
    r: RegistryView,
    i: int,
    supports: Seq<bool>,
    model: Seq<char>,
    needs: RequestNeeds,
    known_vision: Option<bool>,
) -> bool {
    let m = known_metadata(r.metadata, r.order[i], model);
    &&& 0 <= i < r.order.len()
    &&& supports[i]
    &&& needs.tools && m is Some ==> m->0.supports_tools
    &&& needs.streaming && m is Some ==> m->0.supports_streaming
    &&& needs.vision ==> vision_supported(r, r.order[i], model, known_vision)
}

/// The cost that stands for an unknown one: that of the largest finite number.
pub const UNKNOWN_COST: i64 = 9_218_868_437_227_405_311;

pub open spec fn serving_cost(r: RegistryView, i: int, model: Seq<char>) -> i64 {
    match known_metadata(r.metadata, r.order[i], model) {
        Some(m) => match m.unit_cost {
            Some(c) => c,
            None => UNKNOWN_COST,
        },
        None => UNKNOWN_COST,
    }
}

/// Provider `i` is the choice for a request: no other that can take it costs less,
/// and of those that cost the same it was registered first.
pub open spec fn is_choice(
    r: RegistryView,
    i: int,
    supports: Seq<bool>,
    model: Seq<char>,
    needs: RequestNeeds,
    known_vision: Option<bool>,
) -> bool {
    &&& can_serve(r, i, supports, model, needs, known_vision)
    &&& forall|j: int|
        #[trigger] can_serve(r, j, supports, model, needs, known_vision) ==> if j < i {
            serving_cost(r, j, model) > serving_cost(r, i, model)
        } else {
            serving_cost(r, j, model) >= serving_cost(r, i, model)
        }
}

/// The providers in the order of their registration, after one was registered.
pub open spec fn with_provider(order: Seq<Seq<char>>, id: Seq<char>) -> Seq<Seq<char>> {
    if order.contains(id) {
        order
    } else {
        order.push(id)
    }
}

impl ProviderRegistry {
    /// No provider is registered twice.
    pub open spec fn wf(self) -> bool {
        self@.order.no_duplicates()
    }

    pub fn new() -> (r: Self)
        ensures
            r.wf(),
            r@ == (RegistryView { order: Seq::empty(), metadata: Seq::empty() }),
    {
        let r = ProviderRegistry { provider_order: Vec::new(), model_metadata: Vec::new() };
        assert(r@.order =~= Seq::<Seq<char>>::empty());
        assert(r@.metadata =~= Seq::<MetadataView>::empty());
        r
    }

    /// Registers a provider; one that is registered keeps its place. Returns its
    /// place.
    pub fn register(&mut self, provider_id: &str) -> (i: usize)
        requires
            old(self).wf(),
        ensures
            final(self).wf(),
            i < final(self)@.order.len(),
            final(self)@.order[i as int] == provider_id@,
            final(self)@.metadata == old(self)@.metadata,
            final(self)@.order == with_provider(old(self)@.order, provider_id@),
            final(self)@.order == if old(self)@.order.contains(provider_id@) {
                old(self)@.order
            } else {
                old(self)@.order.push(provider_id@)
            },
    {
        let ghost before = self@.order;
        match self.position(provider_id) {
            Some(i) => {
                assert(before[i as int] == provider_id@);
                i
            },
            None => {
                let i: usize = self.provider_order.len();
                self.provider_order.push(provider_id.to_owned());
                assert(self@.order =~= before.push(provider_id@));
                i
            },
        }
    }

    /// The place of a provider.
    pub fn position(&self, provider_id: &str) -> (r: Option<usize>)
        ensures
            match r {
                Some(i) => i < self@.order.len() && self@.order[i as int] == provider_id@,
                None => !self@.order.contains(provider_id@),
            },
    {
        let mut i: usize = 0;
        while i < self.provider_order.len()
            invariant
                i <= self.provider_order@.len(),
                forall|j: int| 0 <= j < i ==> #[trigger] self@.order[j] != provider_id@,
            decreases self.provider_order@.len() - i,
        {
            if same_text(self.provider_order[i].as_str(), provider_id) {
                return Some(i);
            }
            i += 1;
        }
        None
    }

    pub fn provider_count(&self) -> (n: usize)
        ensures
            n == self@.order.len(),
    {
        self.provider_order.len()
    }

    pub fn provider_id(&self, i: usize) -> (s: &str)
        requires
            i < self@.order.len(),
        ensures
            s@ == self@.order[i as int],
    {
        self.provider_order[i].as_str()
    }

    pub fn register_model_metadata(&mut self, metadata: ModelRoutingMetadata)
        requires
            old(self).wf(),
        ensures
            final(self).wf(),
            final(self)@ == (RegistryView {
                metadata: old(self)@.metadata.push(metadata@),
                ..old(self)@
            }),
    {
        let ghost before = self@.metadata;
        let ghost view = metadata@;
        self.model_metadata.push(metadata);
        assert(self@.metadata =~= before.push(view));
    }

    pub fn model_metadata(&self, provider_id: &str, model_id: &str) -> (r: Option<
        &ModelRoutingMetadata,
    >)
        ensures
            match r {
                Some(m) => known_metadata(self@.metadata, provider_id@, model_id@) == Some(m@),
                None => known_metadata(self@.metadata, provider_id@, model_id@) is None,
            },
    {
        let ghost views = self@.metadata;
        let mut n: usize = self.model_metadata.len();
        assert(views.take(n as int) =~= views);
        while n > 0
            invariant
                n <= self.model_metadata@.len(),
                views == metadata_views(self.model_metadata@),
                known_metadata(views, provider_id@, model_id@) == known_metadata(
                    views.take(n as int),
                    provider_id@,
                    model_id@,
                ),
            decreases n,
        {
            let m = &self.model_metadata[n - 1];
            if same_text(m.provider_id.as_str(), provider_id) && same_text(
                m.model_id.as_str(),
                model_id,
            ) {
                return Some(m);
            }
            assert(views.take(n as int).drop_last() =~= views.take(n - 1));
            n -= 1;
        }
        None
    }

    /// The first provider that serves the model; `supports` says of each provider
    /// whether it does.
    pub fn resolve(&self, supports: &[bool]) -> (r: Option<usize>)
        requires
            supports@.len() == self@.order.len(),
        ensures
            match r {
                Some(i) => i < supports@.len() && supports@[i as int] && forall|j: int|
                    0 <= j < i ==> !supports@[j],
                None => forall|j: int| 0 <= j < supports@.len() ==> !supports@[j],
            },
    {
        let mut i: usize = 0;
        while i < supports.len()
            invariant
                i <= supports@.len(),
                forall|j: int| 0 <= j < i ==> !supports@[j],
            decreases supports@.len() - i,
        {
            if supports[i] {
                return Some(i);
            }
            i += 1;
        }
        None
    }

    pub fn provider_supports_vision(
        &self,
        provider_id: &str,
        model_id: &str,
        known_vision: Option<bool>,
    ) -> (b: bool)
        ensures
            b == vision_supported(self@, provider_id@, model_id@, known_vision),
    {
        match self.model_metadata(provider_id, model_id) {
            Some(m) if m.vision_declared => m.supports_vision,
            _ => match known_vision {
                Some(v) => v,
                None => true,
            },
        }
    }

    fn serves(
        &self,
        i: usize,
        supports: &[bool],
        model_id: &str,
        needs: RequestNeeds,
        known_vision: Option<bool>,
    ) -> (b: bool)
        requires
            i < self@.order.len(),
            supports@.len() == self@.order.len(),
        ensures
            b == can_serve(self@, i as int, supports@, model_id@, needs, known_vision),
    {
        if !supports[i] {
            return false;
        }
        let provider = self.provider_order[i].as_str();
        assert(provider@ == self@.order[i as int]);
        let (tools, streaming) = match self.model_metadata(provider, model_id) {
            Some(m) => (m.supports_tools, m.supports_streaming),
            None => (true, true),
        };
        (!needs.tools || tools) && (!needs.streaming || streaming) && (!needs.vision
            || self.provider_supports_vision(provider, model_id, known_vision))
    }

    fn cost(&self, i: usize, model_id: &str) -> (c: i64)
        requires
            i < self@.order.len(),
        ensures
            c == serving_cost(self@, i as int, model_id@),
    {
        let provider = self.provider_order[i].as_str();
        assert(provider@ == self@.order[i as int]);
        match self.model_metadata(provider, model_id) {
            Some(m) => match m.unit_cost {
                Some(c) => c,
                None => UNKNOWN_COST,
            },
            None => UNKNOWN_COST,
        }
    }

    /// The provider that a request for the model goes to. `supports` says of each
    /// provider whether it serves the model, `known_vision` whether the model is
    /// generally known to accept images.
    pub fn resolve_for_request(
        &self,
        model_id: &str,
        supports: &[bool],
        needs: RequestNeeds,
        known_vision: Option<bool>,
    ) -> (r: Option<usize>)
        requires
            supports@.len() == self@.order.len(),
        ensures
            match r {
                Some(i) => is_choice(self@, i as int, supports@, model_id@, needs, known_vision),
                None => forall|j: int|
                    !#[trigger] can_serve(self@, j, supports@, model_id@, needs, known_vision),
            },
    {
        let mut best: Option<usize> = None;
        let mut i: usize = 0;
        while i < self.provider_order.len()
            invariant
                i <= self.provider_order@.len(),
                supports@.len() == self@.order.len(),
                self@.order.len() == self.provider_order@.len(),
                match best {
                    Some(b) => b < i && can_serve(
                        self@,
                        b as int,
                        supports@,
                        model_id@,
                        needs,
                        known_vision,
                    ) && forall|j: int|
                        0 <= j < i && #[trigger] can_serve(
                            self@,
                            j,
                            supports@,
                            model_id@,
                            needs,
                            known_vision,
                        ) ==> if j < b {
                            serving_cost(self@, j, model_id@) > serving_cost(
                                self@,
                                b as int,
                                model_id@,
                            )
                        } else {
                            serving_cost(self@, j, model_id@) >= serving_cost(
                                self@,
                                b as int,
                                model_id@,
                            )
                        },
                    None => forall|j: int|
                        0 <= j < i ==> !#[trigger] can_serve(
                            self@,
                            j,
                            supports@,
                            model_id@,
                            needs,
                            known_vision,
                        ),
                },
            decreases self.provider_order@.len() - i,
        {
            if self.serves(i, supports, model_id, needs, known_vision) {
                let better = match best {
                    Some(b) => self.cost(i, model_id) < self.cost(b, model_id),
                    None => true,
                };
                if better {
                    best = Some(i);
                }
            }
            i += 1;
        }
        best
    }
}

impl Default for ProviderRegistry {
    fn default() -> (r: Self)
        ensures
            r.wf(),
            r@ == (RegistryView { order: Seq::empty(), metadata: Seq::empty() }),
    {
        Self::new()
    }
}

/// A provider with a list of models serves those on it; without a list, any.
pub open spec fn listed(models: Seq<Seq<char>>, model: Seq<char>) -> bool {
    models.len() == 0 || models.contains(model)
}

pub fn supports_listed_model(models: &Vec<String>, model_id: &str) -> (b: bool)
    ensures
        b == listed(texts(models@), model_id@),
{
    let ghost all = texts(models@);
    if models.len() == 0 {
        return true;
    }
    let mut i: usize = 0;
    while i < models.len()
        invariant
            i <= models@.len(),
            all == texts(models@),
            forall|j: int| 0 <= j < i ==> all[j] != model_id@,
        decreases models@.len() - i,
    {
        if same_text(models[i].as_str(), model_id) {
            assert(all[i as int] == model_id@);
            return true;
        }
        i += 1;
    }
    false
}

/// A declaration wins over what is generally known of a model, and that over the
/// expectation; a request without images is not held back over them.
pub proof fn law_vision_precedence(
    r: RegistryView,
    i: int,
    supports: Seq<bool>,
    model: Seq<char>,
    needs: RequestNeeds,
    known_vision: Option<bool>,
)
    requires
        0 <= i < r.order.len(),
        needs.vision,
    ensures
        ({
            let m = known_metadata(r.metadata, r.order[i], model);
            &&& m is Some && m->0.vision_declared && !m->0.supports_vision ==> !can_serve(
                r,
                i,
                supports,
                model,
                needs,
                known_vision,
            )
            &&& (m is None || !m->0.vision_declared) && known_vision == Some(false) ==> !can_serve(
                r,
                i,
                supports,
                model,
                needs,
                known_vision,
            )
            &&& known_vision != Some(false) && (m is None || !m->0.vision_declared) ==> (can_serve(
                r,
                i,
                supports,
                model,
                needs,
                known_vision,
            ) <==> can_serve(
                r,
                i,
                supports,
                model,
                RequestNeeds { vision: false, ..needs },
                known_vision,
            ))
        }),
{
}

/// A provider that is registered is there, once; every other keeps its place.
pub proof fn law_providers_keep_their_places(order: Seq<Seq<char>>, id: Seq<char>)
    requires
        order.no_duplicates(),
    ensures
        with_provider(order, id).contains(id),
        with_provider(order, id).no_duplicates(),
        order.is_prefix_of(with_provider(order, id)),
        with_provider(order, id).len() <= order.len() + 1,
{
    let after = with_provider(order, id);
    assert(after.subrange(0, order.len() as int) =~= order);
    if !order.contains(id) {
        assert(after[order.len() as int] == id);
    }
}

} // verus!
