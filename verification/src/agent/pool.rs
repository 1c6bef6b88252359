//! Which agents are running, and which of them have fallen silent.
use vstd::prelude::*;

use crate::agent::run::{AgentEvent, AgentEventView};
use crate::str_map::{lemma_pairs_map, StrMap};
use crate::text::{decimal, decimal_string, texts};

verus! {

/// The running agents with the time of their last sign of life, and how many may
/// run at a time.
#[derive(Debug)]
pub struct AgentPool {
    agents: StrMap<u64>,
    max_parallel: usize,
}

pub struct PoolView {
    pub agents: Map<Seq<char>, u64>,
    pub max_parallel: nat,
}

impl View for AgentPool {
    type V = PoolView;

    closed spec fn view(&self) -> PoolView {
        PoolView { agents: self.agents@, max_parallel: self.max_parallel as nat }
    }
}

impl PoolView {
    /// No more agents run than may.
    pub open spec fn wf(self) -> bool {
        self.agents.dom().finite() && self.agents.dom().len() <= self.max_parallel
    }
}

/// Nothing was heard of an agent for more than `timeout_ms`.
pub open spec fn is_stale(last_heartbeat_ms: u64, now_ms: u64, timeout_ms: u64) -> bool {
    now_ms - last_heartbeat_ms > timeout_ms
}

/// The running agents after an event: a sign of life is noted, and an agent that
/// has finished leaves.
pub open spec fn agents_after(agents: Map<Seq<char>, u64>, e: AgentEventView) -> Map<
    Seq<char>,
    u64,
> {
    match e {
        AgentEventView::Heartbeat { agent_id, at_ms } => if agents.contains_key(agent_id) {
            agents.insert(agent_id, at_ms)
        } else {
            agents
        },
        AgentEventView::Completed { agent_id, .. } => agents.remove(agent_id),
        AgentEventView::Crashed { agent_id, .. } => agents.remove(agent_id),
        _ => agents,
    }
}

/// The pool after an agent asked to be admitted, and whether it was.
pub open spec fn spawned(p: PoolView, id: Seq<char>, now_ms: u64) -> (PoolView, bool) {
    if p.agents.contains_key(id) || p.agents.dom().len() >= p.max_parallel {
        (p, false)
    } else {
        (PoolView { agents: p.agents.insert(id, now_ms), ..p }, true)
    }
}

/// `ids` names each agent that is stale, once.
pub open spec fn names_stale(
    ids: Seq<Seq<char>>,
    agents: Map<Seq<char>, u64>,
    now_ms: u64,
    timeout_ms: u64,
) -> bool {
    &&& ids.no_duplicates()
    &&& forall|id: Seq<char>|
        #[trigger] ids.contains(id) <==> agents.contains_key(id) && is_stale(
            agents[id],
            now_ms,
            timeout_ms,
        )
}

impl AgentPool {
    pub open spec fn wf(self) -> bool {
        self@.wf()
    }

    pub fn new() -> (p: Self)
        ensures
            p.wf(),
            p@ == (PoolView { agents: Map::empty(), max_parallel: usize::MAX as nat }),
    {
        Self::with_max_parallel(usize::MAX)
    }

    pub fn with_max_parallel(max_parallel: usize) -> (p: Self)
        ensures
            p.wf(),
            p@ == (PoolView { agents: Map::empty(), max_parallel: max_parallel as nat }),
    {
        AgentPool { agents: StrMap::new(), max_parallel }
    }

    /// Admits an agent, unless it is running or too many are.
    pub fn spawn(&mut self, agent_id: &str, now_ms: u64) -> (r: Result<(), String>)
        requires
            old(self).wf(),
            old(self)@.agents.dom().len() < usize::MAX,
        ensures
            final(self).wf(),
            (final(self)@, r is Ok) == spawned(old(self)@, agent_id@, now_ms),
            match r {
                Ok(_) => {
                    &&& !old(self)@.agents.contains_key(agent_id@)
                    &&& old(self)@.agents.dom().len() < old(self)@.max_parallel
                    &&& final(self)@ == (PoolView {
                        agents: old(self)@.agents.insert(agent_id@, now_ms),
                        ..old(self)@
                    })
                },
                Err(message) => {
                    &&& final(self)@ == old(self)@
                    &&& if old(self)@.agents.contains_key(agent_id@) {
                        message@ == "Agent already active: "@ + agent_id@
                    } else {
                        &&& old(self)@.agents.dom().len() >= old(self)@.max_parallel
                        &&& message@ == "Max parallel agents exceeded: requested "@ + decimal(
                            old(self)@.agents.dom().len() + 1,
                        ) + ", available "@ + decimal(old(self)@.max_parallel)
                    }
                },
            },
    {
        if self.agents.contains_key(agent_id) {
            let mut message = "Agent already active: ".to_owned();
            message.append(agent_id);
            return Err(message);
        }
        let running: usize = self.agents.len();
        if running >= self.max_parallel {
            let mut message = "Max parallel agents exceeded: requested ".to_owned();
            let requested = decimal_string(running as u64 + 1);
            message.append(requested.as_str());
            message.append(", available ");
            let available = decimal_string(self.max_parallel as u64);
            message.append(available.as_str());
            return Err(message);
        }
        self.agents.insert(agent_id, now_ms);
        Ok(())
    }

    /// Whether the agent is running, so that a command can reach it.
    pub fn cancel(&self, agent_id: &str) -> (b: bool)
        ensures
            b == self@.agents.contains_key(agent_id@),
    {
        self.agents.contains_key(agent_id)
    }

    pub fn remove(&mut self, agent_id: &str)
        requires
            old(self).wf(),
        ensures
            final(self).wf(),
            final(self)@ == (PoolView {
                agents: old(self)@.agents.remove(agent_id@),
                ..old(self)@
            }),
    {
        proof {
            let before = self@.agents.dom();
            if before.contains(agent_id@) {
                assert(before.remove(agent_id@).len() == before.len() - 1);
            } else {
                assert(before.remove(agent_id@) =~= before);
            }
        }
        let _ = self.agents.remove(agent_id);
    }

    pub fn record_heartbeat(&mut self, agent_id: &str, at_ms: u64)
        requires
            old(self).wf(),
        ensures
            final(self).wf(),
            final(self)@ == (PoolView {
                agents: if old(self)@.agents.contains_key(agent_id@) {
                    old(self)@.agents.insert(agent_id@, at_ms)
                } else {
                    old(self)@.agents
                },
                ..old(self)@
            }),
    {
        if self.agents.contains_key(agent_id) {
            self.agents.insert(agent_id, at_ms);
        }
    }

    /// Takes note of an event that an agent reported.
    pub fn observe(&mut self, event: &AgentEvent)
        requires
            old(self).wf(),
        ensures
            final(self).wf(),
            final(self)@ == (PoolView {
                agents: agents_after(old(self)@.agents, event@),
                ..old(self)@
            }),
    {
        match event {
            AgentEvent::Heartbeat { agent_id, at_ms } => {
                self.record_heartbeat(agent_id.as_str(), *at_ms);
            },
            AgentEvent::Completed { agent_id, .. } => {
                self.remove(agent_id.as_str());
            },
            AgentEvent::Crashed { agent_id, .. } => {
                self.remove(agent_id.as_str());
            },
            _ => {},
        }
    }

    /// The agents of which nothing was heard for more than `timeout_ms`.
    pub fn stale_agents(&self, now_ms: u64, timeout_ms: u64) -> (ids: Vec<String>)
        ensures
            names_stale(texts(ids@), self@.agents, now_ms, timeout_ms),
    {
        let entries = self.agents.entries();
        let ghost pairs = entries@;
        let mut ids: Vec<String> = Vec::new();
        let ghost mut places: Seq<int> = Seq::empty();
        let mut i: usize = 0;
        while i < entries.len()
            invariant
                i <= entries@.len(),
                pairs == entries@,
                places.len() == ids@.len(),
                forall|j: int|
                    0 <= j < places.len() ==> 0 <= #[trigger] places[j] < i && ids@[j]@
                        == pairs[places[j]].0@ && is_stale(
                        pairs[places[j]].1,
                        now_ms,
                        timeout_ms,
                    ),
                forall|j: int, k: int|
                    0 <= j < k < places.len() ==> #[trigger] places[j] < #[trigger] places[k],
                forall|m: int|
                    0 <= m < i && is_stale((#[trigger] pairs[m]).1, now_ms, timeout_ms)
                        ==> places.contains(m),
            decreases entries@.len() - i,
        {
            let ghost before = places;
            if now_ms.saturating_sub(entries[i].1) > timeout_ms {
                ids.push(entries[i].0.clone());
                proof {
                    places = places.push(i as int);
                    assert(places[before.len() as int] == i);
                    assert forall|m: int|
                        0 <= m <= i && is_stale(
                            (#[trigger] pairs[m]).1,
                            now_ms,
                            timeout_ms,
                        ) implies places.contains(m) by {
                        if m < i {
                            let j = choose|j: int| 0 <= j < before.len() && before[j] == m;
                            assert(places[j] == m);
                        } else {
                            assert(places[before.len() as int] == m);
                        }
                    }
                }
            }
            i += 1;
        }
        proof {
            lemma_pairs_map(pairs);
            let names = texts(ids@);
            assert forall|j: int, k: int| 0 <= j < names.len() && 0 <= k < names.len() && j
                != k implies names[j] != names[k] by {
                assert(places[j] != places[k]);
                assert(pairs[places[j]].0@ != pairs[places[k]].0@);
            }
            assert forall|id: Seq<char>|
                #[trigger] names.contains(id) <==> self@.agents.contains_key(id) && is_stale(
                    self@.agents[id],
                    now_ms,
                    timeout_ms,
                ) by {
                if names.contains(id) {
                    let j = choose|j: int| 0 <= j < names.len() && names[j] == id;
                    assert(pairs[places[j]].0@ == id);
                }
                if self@.agents.contains_key(id) && is_stale(self@.agents[id], now_ms, timeout_ms) {
                    let m = choose|m: int| 0 <= m < pairs.len() && (#[trigger] pairs[m]).0@ == id;
                    assert(places.contains(m));
                    let j = choose|j: int| 0 <= j < places.len() && places[j] == m;
                    assert(names[j] == id);
                }
            }
        }
        ids
    }

    /// Removes the stale agents and names them.
    pub fn take_stale(&mut self, now_ms: u64, timeout_ms: u64) -> (ids: Vec<String>)
        requires
            old(self).wf(),
        ensures
            final(self).wf(),
            names_stale(texts(ids@), old(self)@.agents, now_ms, timeout_ms),
            final(self)@.max_parallel == old(self)@.max_parallel,
            final(self)@.agents == old(self)@.agents.remove_keys(texts(ids@).to_set()),
    {
        let ids = self.stale_agents(now_ms, timeout_ms);
        let ghost before = self@.agents;
        let ghost names = texts(ids@);
        let mut i: usize = 0;
        assert(self@.agents =~= before.remove_keys(names.take(0).to_set()));
        while i < ids.len()
            invariant
                i <= ids@.len(),
                names == texts(ids@),
                self.wf(),
                self@.max_parallel == old(self)@.max_parallel,
                self@.agents == before.remove_keys(names.take(i as int).to_set()),
            decreases ids@.len() - i,
        {
            self.remove(ids[i].as_str());
            proof {
                assert(names.take(i + 1) =~= names.take(i as int).push(names[i as int]));
                assert(self@.agents =~= before.remove_keys(names.take(i + 1).to_set())) by {
                    assert forall|k: Seq<char>|
                        names.take(i + 1).to_set().contains(k) <==> names.take(
                            i as int,
                        ).to_set().contains(k) || k == names[i as int] by {
                        if names.take(i + 1).to_set().contains(k) {
                            let a = names.take(i + 1);
                            let j = choose|j: int| 0 <= j < a.len() && a[j] == k;
                            if j < i {
                                assert(names.take(i as int)[j] == k);
                            }
                        }
                        if names.take(i as int).to_set().contains(k) {
                            let a = names.take(i as int);
                            let j = choose|j: int| 0 <= j < a.len() && a[j] == k;
                            assert(names.take(i + 1)[j] == k);
                        }
                        if k == names[i as int] {
                            assert(names.take(i + 1)[i as int] == k);
                        }
                    }
                }
            }
            i += 1;
        }
        assert(names.take(i as int) =~= names);
        ids
    }

    pub fn active_count(&self) -> (n: usize)
        ensures
            n == self@.agents.dom().len(),
    {
        self.agents.len()
    }
}

/// What is reported of an agent that has fallen silent.
pub fn stale_message(timeout_ms: u64) -> (s: String)
    ensures
        s@ == "heartbeat stale for more than "@ + decimal(timeout_ms as nat) + "ms"@,
{
    let mut s = "heartbeat stale for more than ".to_owned();
    let ms = decimal_string(timeout_ms);
    s.append(ms.as_str());
    s.append("ms");
    s
}

/// After the stale agents were removed, none is stale.
pub proof fn law_no_stale_agent_stays(
    agents: Map<Seq<char>, u64>,
    ids: Seq<Seq<char>>,
    now_ms: u64,
    timeout_ms: u64,
    id: Seq<char>,
)
    requires
        names_stale(ids, agents, now_ms, timeout_ms),
        agents.remove_keys(ids.to_set()).contains_key(id),
    ensures
        !is_stale(agents[id], now_ms, timeout_ms),
{
    if is_stale(agents[id], now_ms, timeout_ms) {
        assert(ids.contains(id));
    }
}

/// An agent is admitted exactly if it is not running and there is room; it runs then, heard
/// of just now, and nothing else changes. At no time do more agents run than may.
pub proof fn law_agents_are_admitted_while_there_is_room(
    p: PoolView,
    id: Seq<char>,
    other: Seq<char>,
    now_ms: u64,
)
    requires
        p.wf(),
    ensures
        ({
            let (q, admitted) = spawned(p, id, now_ms);
            &&& admitted <==> !p.agents.contains_key(id) && p.agents.dom().len() < p.max_parallel
            &&& q.max_parallel == p.max_parallel
            &&& q.agents.dom().len() <= q.max_parallel
            &&& admitted ==> q.agents.contains_key(id) && q.agents[id] == now_ms
                && q.agents.dom().len() == p.agents.dom().len() + 1
            &&& !admitted ==> q == p
            &&& other != id ==> (q.agents.contains_key(other) <==> p.agents.contains_key(other))
            &&& other != id && p.agents.contains_key(other) ==> q.agents[other] == p.agents[other]
        }),
{
}

/// An agent that has finished, well or not, no longer runs; a sign of life of one that runs
/// is kept with its time; no event makes an agent run, and none touches the others.
pub proof fn law_what_an_event_does_to_the_agents(
    agents: Map<Seq<char>, u64>,
    id: Seq<char>,
    other: Seq<char>,
    at_ms: u64,
    result: crate::json::JsonView,
    error: Seq<char>,
)
    ensures
        !agents_after(agents, AgentEventView::Completed { agent_id: id, result }).contains_key(id),
        !agents_after(agents, AgentEventView::Crashed { agent_id: id, error }).contains_key(id),
        agents.contains_key(id) ==> agents_after(
            agents,
            AgentEventView::Heartbeat { agent_id: id, at_ms },
        )[id] == at_ms,
        !agents.contains_key(id) ==> agents_after(
            agents,
            AgentEventView::Heartbeat { agent_id: id, at_ms },
        ) == agents,
        agents_after(agents, AgentEventView::Started { agent_id: id }) == agents,
        other != id ==> {
            let done = agents_after(agents, AgentEventView::Completed { agent_id: id, result });
            let crashed = agents_after(agents, AgentEventView::Crashed { agent_id: id, error });
            let heard = agents_after(agents, AgentEventView::Heartbeat { agent_id: id, at_ms });
            &&& done.contains_key(other) <==> agents.contains_key(other)
            &&& crashed.contains_key(other) <==> agents.contains_key(other)
            &&& heard.contains_key(other) <==> agents.contains_key(other)
            &&& agents.contains_key(other) ==> done[other] == agents[other] && crashed[other]
                == agents[other] && heard[other] == agents[other]
        },
{
}

/// An agent is stale exactly if more time than allowed has passed since it was heard of.
pub proof fn law_when_an_agent_is_stale(last_heartbeat_ms: u64, now_ms: u64, timeout_ms: u64)
    ensures
        is_stale(last_heartbeat_ms, now_ms, timeout_ms) <==> now_ms > last_heartbeat_ms
            + timeout_ms,
{
}

} // verus!
