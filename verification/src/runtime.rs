//! Admission control: how many sidecars, workers and tools may run, and how many
//! tokens and file bytes may be spent, with reservations held until they are
//! committed or released.
use vstd::prelude::*;

use crate::str_map::{
    amount, amount_of, lemma_map_total_insert, lemma_map_total_remove, map_total, StrMap,
};

verus! {

#[derive(Debug, Clone, Copy, PartialEq, Eq, Structural)]
pub enum ResourceKind {
    Sidecar,
    Tool,
    Worker,
    Memory,
    Token,
    FileWrite,
}

#[derive(Debug, PartialEq, Eq, Structural)]
pub struct RuntimeBudget {
    pub max_sidecars: u32,
    pub max_workers: u32,
    pub max_memory_mb: u64,
    pub max_tokens: u64,
    pub max_file_write_bytes: u64,
    pub max_tool_concurrency: u32,
}

impl Clone for RuntimeBudget {
    fn clone(&self) -> (r: Self)
        ensures
            r == *self,
    {
        RuntimeBudget {
            max_sidecars: self.max_sidecars,
            max_workers: self.max_workers,
            max_memory_mb: self.max_memory_mb,
            max_tokens: self.max_tokens,
            max_file_write_bytes: self.max_file_write_bytes,
            max_tool_concurrency: self.max_tool_concurrency,
        }
    }
}

pub open spec fn default_budget() -> RuntimeBudget {
    RuntimeBudget {
        max_sidecars: 3,
        max_workers: 8,
        max_memory_mb: 512,
        max_tokens: 100_000,
        max_file_write_bytes: 52_428_800,
        max_tool_concurrency: 32,
    }
}

impl Default for RuntimeBudget {
    fn default() -> (b: Self)
        ensures
            b == default_budget(),
    {
        RuntimeBudget {
            max_sidecars: 3,
            max_workers: 8,
            max_memory_mb: 512,
            max_tokens: 100_000,
            max_file_write_bytes: 50 * 1024 * 1024,
            max_tool_concurrency: 32,
        }
    }
}

#[derive(Debug, PartialEq, Eq, Structural)]
pub struct RuntimeUsage {
    pub active_sidecars: u32,
    pub active_workers: u32,
    pub active_tools: u32,
    pub memory_mb: u64,
    pub tokens: u64,
    pub file_write_bytes: u64,
}

impl Clone for RuntimeUsage {
    fn clone(&self) -> (r: Self)
        ensures
            r == *self,
    {
        RuntimeUsage {
            active_sidecars: self.active_sidecars,
            active_workers: self.active_workers,
            active_tools: self.active_tools,
            memory_mb: self.memory_mb,
            tokens: self.tokens,
            file_write_bytes: self.file_write_bytes,
        }
    }
}

impl Default for RuntimeUsage {
    fn default() -> (u: Self)
        ensures
            u == no_usage(),
    {
        RuntimeUsage {
            active_sidecars: 0,
            active_workers: 0,
            active_tools: 0,
            memory_mb: 0,
            tokens: 0,
            file_write_bytes: 0,
        }
    }
}

pub open spec fn no_usage() -> RuntimeUsage {
    RuntimeUsage {
        active_sidecars: 0,
        active_workers: 0,
        active_tools: 0,
        memory_mb: 0,
        tokens: 0,
        file_write_bytes: 0,
    }
}

#[derive(Debug, Clone, PartialEq, Eq, Structural)]
pub struct BudgetExceeded {
    pub resource: ResourceKind,
    pub requested: u64,
    pub available: u64,
}

#[derive(Debug, Clone, PartialEq, Eq)]
pub struct SidecarReservation {
    pub token: String,
    pub memory_mb: u64,
}

/// What a [`RuntimeManager`] knows: the budget, what is in use, who holds what,
/// and what each agent has spent and may spend.
pub struct RuntimeState {
    pub budget: RuntimeBudget,
    pub usage: RuntimeUsage,
    pub sidecars: Map<Seq<char>, u64>,
    pub workers: Map<Seq<char>, ()>,
    pub tools: Map<Seq<char>, ()>,
    pub token_reservations: Map<Seq<char>, u64>,
    pub file_write_reservations: Map<Seq<char>, u64>,
    pub agent_token_usage: Map<Seq<char>, u64>,
    pub agent_token_budgets: Map<Seq<char>, u64>,
    pub agent_token_reservations: Map<Seq<char>, (String, u64)>,
}

impl RuntimeState {
    /// The tokens that are reserved and not yet committed.
    pub open spec fn reserved_tokens(self) -> nat {
        map_total(self.token_reservations, amount())
    }

    /// The file bytes that are reserved and not yet committed.
    pub open spec fn reserved_file_write_bytes(self) -> nat {
        map_total(self.file_write_reservations, amount())
    }

    /// The tokens that `agent` has reserved and not yet committed.
    pub open spec fn reserved_agent_tokens(self, agent: Seq<char>) -> nat {
        map_total(self.agent_token_reservations, amount_of(agent))
    }

    /// The tokens that `agent` has spent.
    pub open spec fn agent_usage(self, agent: Seq<char>) -> u64 {
        if self.agent_token_usage.contains_key(agent) {
            self.agent_token_usage[agent]
        } else {
            0
        }
    }

    /// The memory that the sidecars hold.
    pub open spec fn held_memory_mb(self) -> nat {
        map_total(self.sidecars, amount())
    }

    /// What is counted as active covers what is held. Each worker is counted once; a
    /// sidecar or a tool that was acquired under a name in use is counted again.
    pub open spec fn counts_cover_holders(self) -> bool {
        &&& self.sidecars.dom().finite()
        &&& self.workers.dom().finite()
        &&& self.tools.dom().finite()
        &&& self.sidecars.dom().len() <= self.usage.active_sidecars
        &&& self.held_memory_mb() <= self.usage.memory_mb
        &&& self.workers.dom().len() == self.usage.active_workers
        &&& self.tools.dom().len() <= self.usage.active_tools
    }

    /// What holds at any time: all concurrency limits and the memory limit are
    /// kept, no more is reserved than the budget has, and what is held is counted.
    pub open spec fn within_budget(self) -> bool {
        &&& self.counts_cover_holders()
        &&& self.usage.active_sidecars <= self.budget.max_sidecars
        &&& self.usage.active_workers <= self.budget.max_workers
        &&& self.usage.active_tools <= self.budget.max_tool_concurrency
        &&& self.usage.memory_mb <= self.budget.max_memory_mb
        &&& self.reserved_tokens() <= self.budget.max_tokens
        &&& self.reserved_file_write_bytes() <= self.budget.max_file_write_bytes
        &&& self.token_reservations.dom().finite()
        &&& self.file_write_reservations.dom().finite()
        &&& self.agent_token_reservations.dom().finite()
    }
}

/// The answer to a request that would bring the spent total to `requested`.
pub open spec fn admission(
    resource: ResourceKind,
    requested: int,
    available: u64,
) -> Result<(), BudgetExceeded> {
    if requested > available {
        Err(BudgetExceeded { resource, requested: requested as u64, available })
    } else {
        Ok(())
    }
}

#[derive(Debug)]
pub struct RuntimeManager {
    budget: RuntimeBudget,
    usage: RuntimeUsage,
    sidecars: StrMap<u64>,
    workers: StrMap<()>,
    tools: StrMap<()>,
    token_reservations: StrMap<u64>,
    file_write_reservations: StrMap<u64>,
    agent_token_usage: StrMap<u64>,
    agent_token_budgets: StrMap<u64>,
    agent_token_reservations: StrMap<(String, u64)>,
}

impl View for RuntimeManager {
    type V = RuntimeState;

    closed spec fn view(&self) -> RuntimeState {
        RuntimeState {
            budget: self.budget,
            usage: self.usage,
            sidecars: self.sidecars@,
            workers: self.workers@,
            tools: self.tools@,
            token_reservations: self.token_reservations@,
            file_write_reservations: self.file_write_reservations@,
            agent_token_usage: self.agent_token_usage@,
            agent_token_budgets: self.agent_token_budgets@,
            agent_token_reservations: self.agent_token_reservations@,
        }
    }
}

impl Clone for RuntimeManager {
    fn clone(&self) -> (r: Self)
        ensures
            r@ == self@,
    {
        RuntimeManager {
            budget: self.budget.clone(),
            usage: self.usage.clone(),
            sidecars: self.sidecars.copied(),
            workers: self.workers.copied(),
            tools: self.tools.copied(),
            token_reservations: self.token_reservations.copied(),
            file_write_reservations: self.file_write_reservations.copied(),
            agent_token_usage: self.agent_token_usage.copied(),
            agent_token_budgets: self.agent_token_budgets.copied(),
            agent_token_reservations: self.agent_token_reservations.copied_amounts(),
        }
    }
}

impl RuntimeManager {
    pub open spec fn wf(self) -> bool {
        self@.within_budget()
    }

    pub fn new() -> (m: Self)
        ensures
            m.wf(),
            m@ == fresh_state(default_budget()),
    {
        Self::with_budget(RuntimeBudget::default())
    }

    pub fn with_budget(budget: RuntimeBudget) -> (m: Self)
        ensures
            m.wf(),
            m@ == fresh_state(budget),
    {
        RuntimeManager {
            budget,
            usage: RuntimeUsage::default(),
            sidecars: StrMap::new(),
            workers: StrMap::new(),
            tools: StrMap::new(),
            token_reservations: StrMap::new(),
            file_write_reservations: StrMap::new(),
            agent_token_usage: StrMap::new(),
            agent_token_budgets: StrMap::new(),
            agent_token_reservations: StrMap::new(),
        }
    }

    pub fn usage(&self) -> (u: &RuntimeUsage)
        ensures
            *u == self@.usage,
    {
        &self.usage
    }

    pub fn budget(&self) -> (b: &RuntimeBudget)
        ensures
            *b == self@.budget,
    {
        &self.budget
    }

    /// Admits a sidecar that needs `memory_mb`, if one more sidecar and that much
    /// more memory fit.
    pub fn try_acquire_sidecar(&mut self, token: &str, memory_mb: u64) -> (r: Result<
        SidecarReservation,
        BudgetExceeded,
    >)
        requires
            old(self).wf(),
            old(self)@.usage.active_sidecars < old(self)@.budget.max_sidecars ==> old(
                self,
            )@.usage.memory_mb + memory_mb <= u64::MAX,
        ensures
            final(self).wf(),
            (final(self)@, r is Ok) == sidecar_asked(old(self)@, token@, memory_mb),
            match r {
                Ok(reservation) => {
                    &&& old(self)@.usage.active_sidecars < old(self)@.budget.max_sidecars
                    &&& old(self)@.usage.memory_mb + memory_mb <= old(self)@.budget.max_memory_mb
                    &&& reservation.token@ == token@
                    &&& reservation.memory_mb == memory_mb
                    &&& final(self)@ == sidecar_acquired(old(self)@, token@, memory_mb)
                },
                Err(e) => {
                    &&& final(self)@ == old(self)@
                    &&& if old(self)@.usage.active_sidecars >= old(self)@.budget.max_sidecars {
                        e == (BudgetExceeded {
                            resource: ResourceKind::Sidecar,
                            requested: (old(self)@.usage.active_sidecars + 1) as u64,
                            available: old(self)@.budget.max_sidecars as u64,
                        })
                    } else {
                        &&& old(self)@.usage.memory_mb + memory_mb > old(self)@.budget.max_memory_mb
                        &&& e == (BudgetExceeded {
                            resource: ResourceKind::Memory,
                            requested: (old(self)@.usage.memory_mb + memory_mb) as u64,
                            available: old(self)@.budget.max_memory_mb,
                        })
                    }
                },
            },
    {
        if self.usage.active_sidecars >= self.budget.max_sidecars {
            return Err(
                BudgetExceeded {
                    resource: ResourceKind::Sidecar,
                    requested: self.usage.active_sidecars as u64 + 1,
                    available: self.budget.max_sidecars as u64,
                },
            );
        }
        if self.usage.memory_mb + memory_mb > self.budget.max_memory_mb {
            return Err(
                BudgetExceeded {
                    resource: ResourceKind::Memory,
                    requested: self.usage.memory_mb + memory_mb,
                    available: self.budget.max_memory_mb,
                },
            );
        }
        let reservation = SidecarReservation { token: token.to_owned(), memory_mb };
        self.usage.active_sidecars = self.usage.active_sidecars + 1;
        self.usage.memory_mb = self.usage.memory_mb + memory_mb;
        proof {
            lemma_map_total_insert(self.sidecars@, token@, memory_mb, amount());
        }
        self.sidecars.insert(token, memory_mb);
        Ok(reservation)
    }

    /// Gives back what the sidecar `token` holds; false if it holds nothing.
    pub fn release_sidecar(&mut self, token: &str) -> (released: bool)
        requires
            old(self).wf(),
        ensures
            final(self).wf(),
            released == old(self)@.sidecars.contains_key(token@),
            final(self)@ == if released {
                sidecar_released(old(self)@, token@)
            } else {
                old(self)@
            },
    {
        proof {
            if self@.sidecars.contains_key(token@) {
                lemma_map_total_remove(self@.sidecars, token@, amount());
            }
        }
        match self.sidecars.remove(token) {
            None => false,
            Some(memory_mb) => {
                self.usage.active_sidecars = self.usage.active_sidecars.saturating_sub(1);
                self.usage.memory_mb = self.usage.memory_mb.saturating_sub(memory_mb);
                true
            },
        }
    }

    /// Admits the worker `token`, if it is admitted already or one more fits.
    pub fn try_acquire_worker(&mut self, token: &str) -> (r: Result<String, BudgetExceeded>)
        requires
            old(self).wf(),
        ensures
            final(self).wf(),
            (final(self)@, r is Ok) == worker_asked(old(self)@, token@),
            match r {
                Ok(t) => {
                    &&& t@ == token@
                    &&& if old(self)@.workers.contains_key(token@) {
                        final(self)@ == old(self)@
                    } else {
                        &&& old(self)@.usage.active_workers < old(self)@.budget.max_workers
                        &&& final(self)@ == worker_acquired(old(self)@, token@)
                    }
                },
                Err(e) => {
                    &&& !old(self)@.workers.contains_key(token@)
                    &&& old(self)@.usage.active_workers >= old(self)@.budget.max_workers
                    &&& final(self)@ == old(self)@
                    &&& e == (BudgetExceeded {
                        resource: ResourceKind::Worker,
                        requested: (old(self)@.usage.active_workers + 1) as u64,
                        available: old(self)@.budget.max_workers as u64,
                    })
                },
            },
    {
        if self.workers.contains_key(token) {
            return Ok(token.to_owned());
        }
        if self.usage.active_workers >= self.budget.max_workers {
            return Err(
                BudgetExceeded {
                    resource: ResourceKind::Worker,
                    requested: self.usage.active_workers as u64 + 1,
                    available: self.budget.max_workers as u64,
                },
            );
        }
        self.usage.active_workers = self.usage.active_workers + 1;
        self.workers.insert(token, ());
        Ok(token.to_owned())
    }

    pub fn release_worker(&mut self, token: &str) -> (released: bool)
        requires
            old(self).wf(),
        ensures
            final(self).wf(),
            released == old(self)@.workers.contains_key(token@),
            final(self)@ == if released {
                worker_released(old(self)@, token@)
            } else {
                old(self)@
            },
    {
        if self.workers.remove(token).is_none() {
            return false;
        }
        self.usage.active_workers = self.usage.active_workers.saturating_sub(1);
        true
    }

    /// Admits a tool call, if one more fits.
    pub fn try_acquire_tool(&mut self, token: &str) -> (r: Result<String, BudgetExceeded>)
        requires
            old(self).wf(),
        ensures
            final(self).wf(),
            (final(self)@, r is Ok) == tool_asked(old(self)@, token@),
            match r {
                Ok(t) => {
                    &&& t@ == token@
                    &&& old(self)@.usage.active_tools < old(self)@.budget.max_tool_concurrency
                    &&& final(self)@ == tool_acquired(old(self)@, token@)
                },
                Err(e) => {
                    &&& old(self)@.usage.active_tools >= old(self)@.budget.max_tool_concurrency
                    &&& final(self)@ == old(self)@
                    &&& e == (BudgetExceeded {
                        resource: ResourceKind::Tool,
                        requested: (old(self)@.usage.active_tools + 1) as u64,
                        available: old(self)@.budget.max_tool_concurrency as u64,
                    })
                },
            },
    {
        if self.usage.active_tools >= self.budget.max_tool_concurrency {
            return Err(
                BudgetExceeded {
                    resource: ResourceKind::Tool,
                    requested: self.usage.active_tools as u64 + 1,
                    available: self.budget.max_tool_concurrency as u64,
                },
            );
        }
        self.usage.active_tools = self.usage.active_tools + 1;
        self.tools.insert(token, ());
        Ok(token.to_owned())
    }

    pub fn release_tool(&mut self, token: &str) -> (released: bool)
        requires
            old(self).wf(),
        ensures
            final(self).wf(),
            released == old(self)@.tools.contains_key(token@),
            final(self)@ == if released {
                tool_released(old(self)@, token@)
            } else {
                old(self)@
            },
    {
        if self.tools.remove(token).is_none() {
            return false;
        }
        self.usage.active_tools = self.usage.active_tools.saturating_sub(1);
        true
    }

    /// Whether `next_cost` more tokens fit beside `current` spent ones and all
    /// reservations.
    pub fn check_token_budget(&self, current: u64, next_cost: u64) -> (r: Result<
        (),
        BudgetExceeded,
    >)
        requires
            self.wf(),
            current + self@.reserved_tokens() + next_cost <= u64::MAX,
        ensures
            r == admission(
                ResourceKind::Token,
                current + self@.reserved_tokens() + next_cost,
                self@.budget.max_tokens,
            ),
    {
        let reserved: u64 = self.reserved_tokens();
        if current + reserved + next_cost > self.budget.max_tokens {
            Err(
                BudgetExceeded {
                    resource: ResourceKind::Token,
                    requested: current + reserved + next_cost,
                    available: self.budget.max_tokens,
                },
            )
        } else {
            Ok(())
        }
    }

    /// Reserves `tokens` under the name `token`, in place of what was reserved
    /// under that name before.
    pub fn try_reserve_tokens(&mut self, token: &str, tokens: u64) -> (r: Result<
        String,
        BudgetExceeded,
    >)
        requires
            old(self).wf(),
            old(self)@.usage.tokens + old(self)@.reserved_tokens() + tokens <= u64::MAX,
        ensures
            final(self).wf(),
            (final(self)@, r is Ok) == tokens_asked(old(self)@, token@, tokens),
            match admission(
                ResourceKind::Token,
                old(self)@.usage.tokens + old(self)@.reserved_tokens() + tokens,
                old(self)@.budget.max_tokens,
            ) {
                Ok(_) => {
                    &&& r is Ok
                    &&& r->Ok_0@ == token@
                    &&& final(self)@ == (RuntimeState {
                        token_reservations: old(self)@.token_reservations.insert(token@, tokens),
                        ..old(self)@
                    })
                },
                Err(e) => r == Err::<String, BudgetExceeded>(e) && final(self)@ == old(self)@,
            },
    {
        match self.check_token_budget(self.usage.tokens, tokens) {
            Err(e) => Err(e),
            Ok(_) => {
                proof {
                    lemma_map_total_insert(
                        self@.token_reservations,
                        token@,
                        tokens,
                        amount(),
                    );
                }
                self.token_reservations.insert(token, tokens);
                Ok(token.to_owned())
            },
        }
    }

    pub fn release_token_reservation(&mut self, token: &str) -> (released: bool)
        requires
            old(self).wf(),
        ensures
            final(self).wf(),
            released == old(self)@.token_reservations.contains_key(token@),
            final(self)@ == token_reservation_dropped(old(self)@, token@),
    {
        proof {
            lemma_drop_token_reservation(self@, token@);
        }
        self.token_reservations.remove(token).is_some()
    }

    /// Turns the reservation `token` into spent tokens.
    pub fn commit_token_reservation(&mut self, token: &str) -> (committed: bool)
        requires
            old(self).wf(),
        ensures
            final(self).wf(),
            committed == old(self)@.token_reservations.contains_key(token@),
            final(self)@ == if committed {
                tokens_committed(
                    token_reservation_dropped(old(self)@, token@),
                    old(self)@.token_reservations[token@],
                )
            } else {
                old(self)@
            },
    {
        proof {
            lemma_drop_token_reservation(self@, token@);
        }
        match self.token_reservations.remove(token) {
            None => false,
            Some(tokens) => {
                self.commit_tokens(tokens);
                true
            },
        }
    }

    /// Ends the reservation `token` with `actual_tokens` spent.
    pub fn commit_token_reservation_actual(&mut self, token: &str, actual_tokens: u64) -> (committed:
        bool)
        requires
            old(self).wf(),
        ensures
            final(self).wf(),
            committed == old(self)@.token_reservations.contains_key(token@),
            final(self)@ == if committed {
                tokens_committed(token_reservation_dropped(old(self)@, token@), actual_tokens)
            } else {
                old(self)@
            },
    {
        proof {
            lemma_drop_token_reservation(self@, token@);
        }
        if self.token_reservations.remove(token).is_none() {
            return false;
        }
        self.commit_tokens(actual_tokens);
        true
    }

    pub fn set_agent_token_budget(&mut self, agent_id: &str, max_tokens: u64)
        requires
            old(self).wf(),
        ensures
            final(self).wf(),
            final(self)@ == (RuntimeState {
                agent_token_budgets: old(self)@.agent_token_budgets.insert(agent_id@, max_tokens),
                ..old(self)@
            }),
    {
        self.agent_token_budgets.insert(agent_id, max_tokens);
    }

    pub fn agent_token_usage(&self, agent_id: &str) -> (tokens: u64)
        ensures
            tokens == self@.agent_usage(agent_id@),
    {
        match self.agent_token_usage.get(agent_id) {
            Some(tokens) => *tokens,
            None => 0,
        }
    }

    /// Whether `next_cost` more tokens fit into the budget of the agent; an agent
    /// without a budget of its own may spend any number.
    pub fn check_agent_token_budget(&self, agent_id: &str, next_cost: u64) -> (r: Result<
        (),
        BudgetExceeded,
    >)
        requires
            self@.agent_token_budgets.contains_key(agent_id@) ==> self@.agent_usage(agent_id@)
                + self@.reserved_agent_tokens(agent_id@) + next_cost <= u64::MAX,
        ensures
            r == agent_admission(self@, agent_id@, next_cost),
    {
        let max_tokens: u64 = match self.agent_token_budgets.get(agent_id) {
            Some(max_tokens) => *max_tokens,
            None => {
                return Ok(());
            },
        };
        let current: u64 = self.agent_token_usage(agent_id);
        let reserved: u64 = self.reserved_agent_tokens(agent_id);
        if current + reserved + next_cost > max_tokens {
            Err(
                BudgetExceeded {
                    resource: ResourceKind::Token,
                    requested: current + reserved + next_cost,
                    available: max_tokens,
                },
            )
        } else {
            Ok(())
        }
    }

    /// Reserves `tokens` for the agent under the name `token`. Nothing is kept for
    /// a nameless agent or an empty reservation.
    pub fn try_reserve_agent_tokens(&mut self, token: &str, agent_id: &str, tokens: u64) -> (r:
        Result<String, BudgetExceeded>)
        requires
            old(self).wf(),
            old(self)@.agent_token_budgets.contains_key(agent_id@) ==> old(self)@.agent_usage(
                agent_id@,
            ) + old(self)@.reserved_agent_tokens(agent_id@) + tokens <= u64::MAX,
        ensures
            final(self).wf(),
            match agent_admission(old(self)@, agent_id@, tokens) {
                Ok(_) => {
                    &&& r is Ok
                    &&& r->Ok_0@ == token@
                    &&& if agent_id@.len() > 0 && tokens > 0 {
                        exists|owner: String|
                            #![trigger owner@]
                            owner@ == agent_id@ && final(self)@ == (RuntimeState {
                                agent_token_reservations: old(
                                    self,
                                )@.agent_token_reservations.insert(token@, (owner, tokens)),
                                ..old(self)@
                            })
                    } else {
                        final(self)@ == old(self)@
                    }
                },
                Err(e) => r == Err::<String, BudgetExceeded>(e) && final(self)@ == old(self)@,
            },
    {
        match self.check_agent_token_budget(agent_id, tokens) {
            Err(e) => Err(e),
            Ok(_) => {
                if !agent_id.is_empty() && tokens > 0 {
                    let owner = agent_id.to_owned();
                    self.agent_token_reservations.insert(token, (owner, tokens));
                }
                Ok(token.to_owned())
            },
        }
    }

    pub fn release_agent_token_reservation(&mut self, token: &str) -> (released: bool)
        requires
            old(self).wf(),
        ensures
            final(self).wf(),
            released == old(self)@.agent_token_reservations.contains_key(token@),
            final(self)@ == agent_reservation_dropped(old(self)@, token@),
    {
        self.agent_token_reservations.remove(token).is_some()
    }

    pub fn commit_agent_token_reservation(&mut self, token: &str) -> (committed: bool)
        requires
            old(self).wf(),
        ensures
            final(self).wf(),
            committed == old(self)@.agent_token_reservations.contains_key(token@),
            final(self)@ == if committed {
                agent_tokens_committed(
                    agent_reservation_dropped(old(self)@, token@),
                    old(self)@.agent_token_reservations[token@].0@,
                    old(self)@.agent_token_reservations[token@].1,
                )
            } else {
                old(self)@
            },
    {
        match self.agent_token_reservations.remove(token) {
            None => false,
            Some((agent_id, tokens)) => {
                self.commit_agent_tokens(agent_id.as_str(), tokens);
                true
            },
        }
    }

    pub fn commit_agent_token_reservation_actual(
        &mut self,
        token: &str,
        actual_tokens: u64,
    ) -> (committed: bool)
        requires
            old(self).wf(),
        ensures
            final(self).wf(),
            committed == old(self)@.agent_token_reservations.contains_key(token@),
            final(self)@ == if committed {
                agent_tokens_committed(
                    agent_reservation_dropped(old(self)@, token@),
                    old(self)@.agent_token_reservations[token@].0@,
                    actual_tokens,
                )
            } else {
                old(self)@
            },
    {
        match self.agent_token_reservations.remove(token) {
            None => false,
            Some((agent_id, _)) => {
                self.commit_agent_tokens(agent_id.as_str(), actual_tokens);
                true
            },
        }
    }

    /// Whether `bytes` more fit beside the written ones and all reservations.
    pub fn check_file_write(&self, bytes: u64) -> (r: Result<(), BudgetExceeded>)
        requires
            self.wf(),
            self@.usage.file_write_bytes + self@.reserved_file_write_bytes() + bytes <= u64::MAX,
        ensures
            r == admission(
                ResourceKind::FileWrite,
                self@.usage.file_write_bytes + self@.reserved_file_write_bytes() + bytes,
                self@.budget.max_file_write_bytes,
            ),
    {
        let reserved: u64 = self.reserved_file_write_bytes();
        if self.usage.file_write_bytes + reserved + bytes > self.budget.max_file_write_bytes {
            Err(
                BudgetExceeded {
                    resource: ResourceKind::FileWrite,
                    requested: self.usage.file_write_bytes + reserved + bytes,
                    available: self.budget.max_file_write_bytes,
                },
            )
        } else {
            Ok(())
        }
    }

    pub fn try_reserve_file_write(&mut self, token: &str, bytes: u64) -> (r: Result<
        String,
        BudgetExceeded,
    >)
        requires
            old(self).wf(),
            old(self)@.usage.file_write_bytes + old(self)@.reserved_file_write_bytes() + bytes
                <= u64::MAX,
        ensures
            final(self).wf(),
            (final(self)@, r is Ok) == file_write_asked(old(self)@, token@, bytes),
            match admission(
                ResourceKind::FileWrite,
                old(self)@.usage.file_write_bytes + old(self)@.reserved_file_write_bytes() + bytes,
                old(self)@.budget.max_file_write_bytes,
            ) {
                Ok(_) => {
                    &&& r is Ok
                    &&& r->Ok_0@ == token@
                    &&& final(self)@ == (RuntimeState {
                        file_write_reservations: old(self)@.file_write_reservations.insert(
                            token@,
                            bytes,
                        ),
                        ..old(self)@
                    })
                },
                Err(e) => r == Err::<String, BudgetExceeded>(e) && final(self)@ == old(self)@,
            },
    {
        match self.check_file_write(bytes) {
            Err(e) => Err(e),
            Ok(_) => {
                proof {
                    lemma_map_total_insert(
                        self@.file_write_reservations,
                        token@,
                        bytes,
                        amount(),
                    );
                }
                self.file_write_reservations.insert(token, bytes);
                Ok(token.to_owned())
            },
        }
    }

    pub fn release_file_write_reservation(&mut self, token: &str) -> (released: bool)
        requires
            old(self).wf(),
        ensures
            final(self).wf(),
            released == old(self)@.file_write_reservations.contains_key(token@),
            final(self)@ == file_reservation_dropped(old(self)@, token@),
    {
        proof {
            lemma_drop_file_reservation(self@, token@);
        }
        self.file_write_reservations.remove(token).is_some()
    }

    pub fn commit_file_write_reservation(&mut self, token: &str) -> (committed: bool)
        requires
            old(self).wf(),
        ensures
            final(self).wf(),
            committed == old(self)@.file_write_reservations.contains_key(token@),
            final(self)@ == if committed {
                file_write_committed(
                    file_reservation_dropped(old(self)@, token@),
                    old(self)@.file_write_reservations[token@],
                )
            } else {
                old(self)@
            },
    {
        proof {
            lemma_drop_file_reservation(self@, token@);
        }
        match self.file_write_reservations.remove(token) {
            None => false,
            Some(bytes) => {
                self.commit_file_write(bytes);
                true
            },
        }
    }

    /// Counts `tokens` as spent.
    pub fn commit_tokens(&mut self, tokens: u64)
        requires
            old(self).wf(),
        ensures
            final(self).wf(),
            final(self)@ == tokens_committed(old(self)@, tokens),
    {
        self.usage.tokens = self.usage.tokens.saturating_add(tokens);
    }

    /// Counts `tokens` as spent by the agent; a nameless agent is not accounted for.
    pub fn commit_agent_tokens(&mut self, agent_id: &str, tokens: u64)
        requires
            old(self).wf(),
        ensures
            final(self).wf(),
            final(self)@ == agent_tokens_committed(old(self)@, agent_id@, tokens),
    {
        if agent_id.is_empty() {
            return;
        }
        let current: u64 = self.agent_token_usage(agent_id);
        self.agent_token_usage.insert(agent_id, current.saturating_add(tokens));
    }

    /// Counts `bytes` as written.
    pub fn commit_file_write(&mut self, bytes: u64)
        requires
            old(self).wf(),
        ensures
            final(self).wf(),
            final(self)@ == file_write_committed(old(self)@, bytes),
    {
        self.usage.file_write_bytes = self.usage.file_write_bytes.saturating_add(bytes);
    }

    fn reserved_tokens(&self) -> (sum: u64)
        requires
            self@.reserved_tokens() <= u64::MAX,
        ensures
            sum == self@.reserved_tokens(),
    {
        self.token_reservations.total()
    }

    fn reserved_agent_tokens(&self, agent_id: &str) -> (sum: u64)
        requires
            self@.reserved_agent_tokens(agent_id@) <= u64::MAX,
        ensures
            sum == self@.reserved_agent_tokens(agent_id@),
    {
        self.agent_token_reservations.total_of(agent_id)
    }

    fn reserved_file_write_bytes(&self) -> (sum: u64)
        requires
            self@.reserved_file_write_bytes() <= u64::MAX,
        ensures
            sum == self@.reserved_file_write_bytes(),
    {
        self.file_write_reservations.total()
    }
}

impl Default for RuntimeManager {
    fn default() -> (m: Self)
        ensures
            m.wf(),
            m@ == fresh_state(default_budget()),
    {
        Self::new()
    }
}

/// The state of a manager that nobody has asked for anything yet.
pub open spec fn fresh_state(budget: RuntimeBudget) -> RuntimeState {
    RuntimeState {
        budget,
        usage: no_usage(),
        sidecars: Map::empty(),
        workers: Map::empty(),
        tools: Map::empty(),
        token_reservations: Map::empty(),
        file_write_reservations: Map::empty(),
        agent_token_usage: Map::empty(),
        agent_token_budgets: Map::empty(),
        agent_token_reservations: Map::empty(),
    }
}

/// `a - b`, or 0 where `b` is larger.
pub open spec fn monus(a: int, b: int) -> int {
    if a >= b {
        a - b
    } else {
        0
    }
}

/// `a + b`, or the largest `u64` where the sum is larger.
pub open spec fn capped_sum(a: u64, b: u64) -> u64 {
    if a + b > u64::MAX {
        u64::MAX
    } else {
        (a + b) as u64
    }
}

pub open spec fn sidecar_acquired(s: RuntimeState, token: Seq<char>, memory_mb: u64) -> RuntimeState {
    RuntimeState {
        usage: RuntimeUsage {
            active_sidecars: (s.usage.active_sidecars + 1) as u32,
            memory_mb: (s.usage.memory_mb + memory_mb) as u64,
            ..s.usage
        },
        sidecars: s.sidecars.insert(token, memory_mb),
        ..s
    }
}

/// The state after a sidecar asked to be admitted, and whether it was.
pub open spec fn sidecar_asked(s: RuntimeState, token: Seq<char>, memory_mb: u64) -> (
    RuntimeState,
    bool,
) {
    if s.usage.active_sidecars < s.budget.max_sidecars && s.usage.memory_mb + memory_mb
        <= s.budget.max_memory_mb {
        (sidecar_acquired(s, token, memory_mb), true)
    } else {
        (s, false)
    }
}

/// The state after a worker asked to be admitted, and whether it was.
pub open spec fn worker_asked(s: RuntimeState, token: Seq<char>) -> (RuntimeState, bool) {
    if s.workers.contains_key(token) {
        (s, true)
    } else if s.usage.active_workers < s.budget.max_workers {
        (worker_acquired(s, token), true)
    } else {
        (s, false)
    }
}

/// The state after a tool call asked to be admitted, and whether it was.
pub open spec fn tool_asked(s: RuntimeState, token: Seq<char>) -> (RuntimeState, bool) {
    if s.usage.active_tools < s.budget.max_tool_concurrency {
        (tool_acquired(s, token), true)
    } else {
        (s, false)
    }
}

/// The state after tokens were asked for, and whether they were reserved.
pub open spec fn tokens_asked(s: RuntimeState, token: Seq<char>, tokens: u64) -> (
    RuntimeState,
    bool,
) {
    if s.usage.tokens + s.reserved_tokens() + tokens <= s.budget.max_tokens {
        (
            RuntimeState { token_reservations: s.token_reservations.insert(token, tokens), ..s },
            true,
        )
    } else {
        (s, false)
    }
}

/// The state after file bytes were asked for, and whether they were reserved.
pub open spec fn file_write_asked(s: RuntimeState, token: Seq<char>, bytes: u64) -> (
    RuntimeState,
    bool,
) {
    if s.usage.file_write_bytes + s.reserved_file_write_bytes() + bytes
        <= s.budget.max_file_write_bytes {
        (
            RuntimeState {
                file_write_reservations: s.file_write_reservations.insert(token, bytes),
                ..s
            },
            true,
        )
    } else {
        (s, false)
    }
}

pub open spec fn sidecar_released(s: RuntimeState, token: Seq<char>) -> RuntimeState {
    RuntimeState {
        usage: RuntimeUsage {
            active_sidecars: monus(s.usage.active_sidecars as int, 1) as u32,
            memory_mb: monus(s.usage.memory_mb as int, s.sidecars[token] as int) as u64,
            ..s.usage
        },
        sidecars: s.sidecars.remove(token),
        ..s
    }
}

pub open spec fn worker_acquired(s: RuntimeState, token: Seq<char>) -> RuntimeState {
    RuntimeState {
        usage: RuntimeUsage { active_workers: (s.usage.active_workers + 1) as u32, ..s.usage },
        workers: s.workers.insert(token, ()),
        ..s
    }
}

pub open spec fn worker_released(s: RuntimeState, token: Seq<char>) -> RuntimeState {
    RuntimeState {
        usage: RuntimeUsage {
            active_workers: monus(s.usage.active_workers as int, 1) as u32,
            ..s.usage
        },
        workers: s.workers.remove(token),
        ..s
    }
}

pub open spec fn tool_acquired(s: RuntimeState, token: Seq<char>) -> RuntimeState {
    RuntimeState {
        usage: RuntimeUsage { active_tools: (s.usage.active_tools + 1) as u32, ..s.usage },
        tools: s.tools.insert(token, ()),
        ..s
    }
}

pub open spec fn tool_released(s: RuntimeState, token: Seq<char>) -> RuntimeState {
    RuntimeState {
        usage: RuntimeUsage {
            active_tools: monus(s.usage.active_tools as int, 1) as u32,
            ..s.usage
        },
        tools: s.tools.remove(token),
        ..s
    }
}

pub open spec fn token_reservation_dropped(s: RuntimeState, token: Seq<char>) -> RuntimeState {
    RuntimeState { token_reservations: s.token_reservations.remove(token), ..s }
}

pub open spec fn file_reservation_dropped(s: RuntimeState, token: Seq<char>) -> RuntimeState {
    RuntimeState { file_write_reservations: s.file_write_reservations.remove(token), ..s }
}

pub open spec fn agent_reservation_dropped(s: RuntimeState, token: Seq<char>) -> RuntimeState {
    RuntimeState { agent_token_reservations: s.agent_token_reservations.remove(token), ..s }
}

pub open spec fn tokens_committed(s: RuntimeState, tokens: u64) -> RuntimeState {
    RuntimeState {
        usage: RuntimeUsage { tokens: capped_sum(s.usage.tokens, tokens), ..s.usage },
        ..s
    }
}

pub open spec fn file_write_committed(s: RuntimeState, bytes: u64) -> RuntimeState {
    RuntimeState {
        usage: RuntimeUsage {
            file_write_bytes: capped_sum(s.usage.file_write_bytes, bytes),
            ..s.usage
        },
        ..s
    }
}

pub open spec fn agent_tokens_committed(
    s: RuntimeState,
    agent: Seq<char>,
    tokens: u64,
) -> RuntimeState {
    if agent.len() == 0 {
        s
    } else {
        RuntimeState {
            agent_token_usage: s.agent_token_usage.insert(
                agent,
                capped_sum(s.agent_usage(agent), tokens),
            ),
            ..s
        }
    }
}

/// The answer to an agent that asks for `next_cost` tokens.
pub open spec fn agent_admission(s: RuntimeState, agent: Seq<char>, next_cost: u64) -> Result<
    (),
    BudgetExceeded,
> {
    if s.agent_token_budgets.contains_key(agent) {
        admission(
            ResourceKind::Token,
            s.agent_usage(agent) + s.reserved_agent_tokens(agent) + next_cost,
            s.agent_token_budgets[agent],
        )
    } else {
        Ok(())
    }
}

proof fn lemma_drop_token_reservation(s: RuntimeState, token: Seq<char>)
    requires
        s.within_budget(),
    ensures
        token_reservation_dropped(s, token).within_budget(),
        !s.token_reservations.contains_key(token) ==> token_reservation_dropped(s, token) == s,
{
    if s.token_reservations.contains_key(token) {
        lemma_map_total_remove(s.token_reservations, token, amount());
    } else {
        assert(s.token_reservations.remove(token) =~= s.token_reservations);
    }
}

proof fn lemma_drop_file_reservation(s: RuntimeState, token: Seq<char>)
    requires
        s.within_budget(),
    ensures
        file_reservation_dropped(s, token).within_budget(),
        !s.file_write_reservations.contains_key(token) ==> file_reservation_dropped(s, token) == s,
{
    if s.file_write_reservations.contains_key(token) {
        lemma_map_total_remove(s.file_write_reservations, token, amount());
    } else {
        assert(s.file_write_reservations.remove(token) =~= s.file_write_reservations);
    }
}

/// Whatever has been reserved, a further admitted reservation keeps the spent
/// and the reserved tokens together within the token budget.
pub proof fn law_reservations_never_overspend_tokens(s: RuntimeState, token: Seq<char>, tokens: u64)
    requires
        s.within_budget(),
        admission(
            ResourceKind::Token,
            s.usage.tokens + s.reserved_tokens() + tokens,
            s.budget.max_tokens,
        ) is Ok,
    ensures
        s.usage.tokens + (RuntimeState {
            token_reservations: s.token_reservations.insert(token, tokens),
            ..s
        }).reserved_tokens() <= s.budget.max_tokens,
{
    lemma_map_total_insert(s.token_reservations, token, tokens, amount());
}

/// The same for file bytes.
pub proof fn law_reservations_never_overspend_file_bytes(
    s: RuntimeState,
    token: Seq<char>,
    bytes: u64,
)
    requires
        s.within_budget(),
        admission(
            ResourceKind::FileWrite,
            s.usage.file_write_bytes + s.reserved_file_write_bytes() + bytes,
            s.budget.max_file_write_bytes,
        ) is Ok,
    ensures
        s.usage.file_write_bytes + (RuntimeState {
            file_write_reservations: s.file_write_reservations.insert(token, bytes),
            ..s
        }).reserved_file_write_bytes() <= s.budget.max_file_write_bytes,
{
    lemma_map_total_insert(s.file_write_reservations, token, bytes, amount());
}

/// Releasing what was acquired under a new name restores the state.
pub proof fn law_release_undoes_acquire(s: RuntimeState, token: Seq<char>, memory_mb: u64)
    requires
        s.within_budget(),
    ensures
        !s.sidecars.contains_key(token) && s.usage.active_sidecars < u32::MAX && s.usage.memory_mb
            + memory_mb <= u64::MAX ==> sidecar_released(
            sidecar_acquired(s, token, memory_mb),
            token,
        ) == s,
        !s.workers.contains_key(token) && s.usage.active_workers < u32::MAX ==> worker_released(
            worker_acquired(s, token),
            token,
        ) == s,
        !s.tools.contains_key(token) && s.usage.active_tools < u32::MAX ==> tool_released(
            tool_acquired(s, token),
            token,
        ) == s,
{
    if !s.sidecars.contains_key(token) {
        assert(s.sidecars.insert(token, memory_mb).remove(token) =~= s.sidecars);
    }
    if !s.workers.contains_key(token) {
        assert(s.workers.insert(token, ()).remove(token) =~= s.workers);
    }
    if !s.tools.contains_key(token) {
        assert(s.tools.insert(token, ()).remove(token) =~= s.tools);
    }
}

/// Releasing a reservation made under a new name restores the state.
pub proof fn law_release_undoes_reservation(s: RuntimeState, token: Seq<char>, tokens: u64)
    requires
        !s.token_reservations.contains_key(token),
    ensures
        token_reservation_dropped(
            (RuntimeState {
                token_reservations: s.token_reservations.insert(token, tokens),
                ..s
            }),
            token,
        ) == s,
{
    assert(s.token_reservations.insert(token, tokens).remove(token) =~= s.token_reservations);
}

/// Committing a reservation moves its tokens from reserved to spent: as long as
/// the sum fits, what is spent and reserved together stays the same.
pub proof fn law_commit_moves_reserved_tokens(s: RuntimeState, token: Seq<char>)
    requires
        s.within_budget(),
        s.token_reservations.contains_key(token),
        s.usage.tokens + s.token_reservations[token] <= u64::MAX,
    ensures
        ({
            let t = tokens_committed(
                token_reservation_dropped(s, token),
                s.token_reservations[token],
            );
            t.usage.tokens + t.reserved_tokens() == s.usage.tokens + s.reserved_tokens()
        }),
{
    lemma_map_total_remove(s.token_reservations, token, amount());
}

/// A sidecar is admitted exactly if one more of them and its memory fit. It holds its
/// memory then and is counted; nothing else changes, and nothing at all if it is refused.
pub proof fn law_sidecars_are_admitted_while_they_fit(
    s: RuntimeState,
    token: Seq<char>,
    memory_mb: u64,
    other: Seq<char>,
)
    requires
        s.within_budget(),
    ensures
        ({
            let (t, admitted) = sidecar_asked(s, token, memory_mb);
            &&& admitted <==> s.usage.active_sidecars < s.budget.max_sidecars && s.usage.memory_mb
                + memory_mb <= s.budget.max_memory_mb
            &&& t.budget == s.budget
            &&& t.usage.active_sidecars <= s.budget.max_sidecars
            &&& t.usage.memory_mb <= s.budget.max_memory_mb
            &&& admitted ==> t.usage.active_sidecars == s.usage.active_sidecars + 1
                && t.usage.memory_mb == s.usage.memory_mb + memory_mb && t.sidecars.contains_key(
                token,
            ) && t.sidecars[token] == memory_mb && t.workers == s.workers && t.tools == s.tools
                && t.usage.active_workers == s.usage.active_workers && t.usage.active_tools
                == s.usage.active_tools && t.usage.tokens == s.usage.tokens
            &&& !admitted ==> t == s
            &&& other != token ==> (t.sidecars.contains_key(other) <==> s.sidecars.contains_key(
                other,
            ))
            &&& other != token && s.sidecars.contains_key(other) ==> t.sidecars[other]
                == s.sidecars[other]
        }),
{
}

/// A worker is admitted exactly if it is admitted already or one more fits, and is counted
/// once; a tool call is admitted exactly if one more fits.
pub proof fn law_workers_and_tools_are_admitted_while_they_fit(s: RuntimeState, token: Seq<char>)
    requires
        s.within_budget(),
    ensures
        ({
            let (t, admitted) = worker_asked(s, token);
            &&& admitted <==> s.workers.contains_key(token) || s.usage.active_workers
                < s.budget.max_workers
            &&& t.usage.active_workers <= s.budget.max_workers
            &&& admitted ==> t.workers.contains_key(token)
            &&& admitted && s.workers.contains_key(token) ==> t == s
            &&& admitted && !s.workers.contains_key(token) ==> t.usage.active_workers
                == s.usage.active_workers + 1 && t.sidecars == s.sidecars && t.tools == s.tools
            &&& !admitted ==> t == s
        }),
        ({
            let (t, admitted) = tool_asked(s, token);
            &&& admitted <==> s.usage.active_tools < s.budget.max_tool_concurrency
            &&& t.usage.active_tools <= s.budget.max_tool_concurrency
            &&& admitted ==> t.tools.contains_key(token) && t.usage.active_tools
                == s.usage.active_tools + 1 && t.workers == s.workers && t.sidecars == s.sidecars
            &&& !admitted ==> t == s
        }),
{
}

/// What is released is no longer held, gives back its count and its memory, and leaves
/// everything else.
pub proof fn law_releasing_gives_back_what_was_held(s: RuntimeState, token: Seq<char>)
    requires
        s.within_budget(),
    ensures
        s.sidecars.contains_key(token) && s.usage.active_sidecars > 0 && s.sidecars[token]
            <= s.usage.memory_mb ==> {
            let t = sidecar_released(s, token);
            !t.sidecars.contains_key(token) && t.usage.active_sidecars + 1
                == s.usage.active_sidecars && t.usage.memory_mb + s.sidecars[token]
                == s.usage.memory_mb && t.workers == s.workers && t.tools == s.tools
        },
        s.workers.contains_key(token) && s.usage.active_workers > 0 ==> {
            let t = worker_released(s, token);
            !t.workers.contains_key(token) && t.usage.active_workers + 1 == s.usage.active_workers
                && t.sidecars == s.sidecars && t.tools == s.tools
        },
        s.tools.contains_key(token) && s.usage.active_tools > 0 ==> {
            let t = tool_released(s, token);
            !t.tools.contains_key(token) && t.usage.active_tools + 1 == s.usage.active_tools
                && t.sidecars == s.sidecars && t.workers == s.workers
        },
{
}

/// Tokens are reserved exactly if they fit beside what is spent and reserved, in place of
/// what was reserved under that name; file bytes likewise.
pub proof fn law_reservations_are_made_while_they_fit(s: RuntimeState, token: Seq<char>, n: u64)
    requires
        s.within_budget(),
    ensures
        ({
            let (t, reserved) = tokens_asked(s, token, n);
            &&& reserved <==> s.usage.tokens + s.reserved_tokens() + n <= s.budget.max_tokens
            &&& t.usage == s.usage
            &&& reserved && !s.token_reservations.contains_key(token) ==> t.reserved_tokens()
                == s.reserved_tokens() + n
            &&& reserved && s.token_reservations.contains_key(token) ==> t.reserved_tokens()
                + s.token_reservations[token] == s.reserved_tokens() + n
            &&& reserved ==> t.token_reservations[token] == n && t.file_write_reservations
                == s.file_write_reservations
            &&& !reserved ==> t == s
        }),
        ({
            let (t, reserved) = file_write_asked(s, token, n);
            &&& reserved <==> s.usage.file_write_bytes + s.reserved_file_write_bytes() + n
                <= s.budget.max_file_write_bytes
            &&& t.usage == s.usage
            &&& reserved && !s.file_write_reservations.contains_key(token)
                ==> t.reserved_file_write_bytes() == s.reserved_file_write_bytes() + n
            &&& reserved ==> t.file_write_reservations[token] == n && t.token_reservations
                == s.token_reservations
            &&& !reserved ==> t == s
        }),
{
    lemma_map_total_insert(s.token_reservations, token, n, amount());
    lemma_map_total_insert(s.file_write_reservations, token, n, amount());
}

/// A request for more is refused exactly if it would pass the limit, with what was asked
/// for and what there is; an agent without a budget of its own is never refused.
pub proof fn law_when_a_request_is_refused(
    resource: ResourceKind,
    requested: int,
    available: u64,
    s: RuntimeState,
    agent: Seq<char>,
    next_cost: u64,
)
    requires
        0 <= requested <= u64::MAX,
    ensures
        match admission(resource, requested, available) {
            Ok(_) => requested <= available,
            Err(e) => requested > available && e.resource == resource && e.requested == requested
                && e.available == available,
        },
        agent_admission(s, agent, next_cost) is Err <==> s.agent_token_budgets.contains_key(agent)
            && s.agent_usage(agent) + s.reserved_agent_tokens(agent) + next_cost
            > s.agent_token_budgets[agent],
{
}

/// What is spent is added up, as far as the largest number reaches: for all agents together
/// and for the agent that spent it, and for no other.
pub proof fn law_spending_is_added_up(
    s: RuntimeState,
    agent: Seq<char>,
    other: Seq<char>,
    n: u64,
)
    ensures
        s.usage.tokens + n <= u64::MAX ==> tokens_committed(s, n).usage.tokens == s.usage.tokens + n,
        s.usage.file_write_bytes + n <= u64::MAX ==> file_write_committed(
            s,
            n,
        ).usage.file_write_bytes == s.usage.file_write_bytes + n,
        tokens_committed(s, n).usage.tokens >= s.usage.tokens,
        file_write_committed(s, n).usage.file_write_bytes >= s.usage.file_write_bytes,
        tokens_committed(s, n).token_reservations == s.token_reservations,
        agent.len() > 0 && s.agent_usage(agent) + n <= u64::MAX ==> agent_tokens_committed(
            s,
            agent,
            n,
        ).agent_usage(agent) == s.agent_usage(agent) + n,
        other != agent ==> agent_tokens_committed(s, agent, n).agent_usage(other) == s.agent_usage(
            other,
        ),
        agent.len() == 0 ==> agent_tokens_committed(s, agent, n) == s,
{
}

/// A reservation of an agent counts for that agent alone, with its amount.
pub proof fn law_reservations_count_for_their_agent(
    s: RuntimeState,
    token: Seq<char>,
    owner: String,
    n: u64,
    other: Seq<char>,
)
    requires
        s.within_budget(),
        !s.agent_token_reservations.contains_key(token),
    ensures
        ({
            let t = RuntimeState {
                agent_token_reservations: s.agent_token_reservations.insert(token, (owner, n)),
                ..s
            };
            &&& t.reserved_agent_tokens(owner@) == s.reserved_agent_tokens(owner@) + n
            &&& other != owner@ ==> t.reserved_agent_tokens(other) == s.reserved_agent_tokens(other)
            &&& agent_reservation_dropped(t, token) == s
        }),
{
    lemma_map_total_insert(s.agent_token_reservations, token, (owner, n), amount_of(owner@));
    lemma_map_total_insert(s.agent_token_reservations, token, (owner, n), amount_of(other));
    assert(s.agent_token_reservations.insert(token, (owner, n)).remove(token)
        =~= s.agent_token_reservations);
}

/// A runtime begins with nothing in use and nobody holding anything.
pub proof fn law_how_a_runtime_begins(budget: RuntimeBudget)
    ensures
        ({
            let s = fresh_state(budget);
            &&& s.budget == budget
            &&& s.usage.active_sidecars == 0 && s.usage.active_workers == 0
                && s.usage.active_tools == 0 && s.usage.memory_mb == 0 && s.usage.tokens == 0
                && s.usage.file_write_bytes == 0
            &&& s.sidecars.dom().len() == 0 && s.workers.dom().len() == 0 && s.tools.dom().len()
                == 0
            &&& s.reserved_tokens() == 0
            &&& s.reserved_file_write_bytes() == 0
        }),
        ({
            let b = default_budget();
            &&& b.max_sidecars == 3 && b.max_workers == 8 && b.max_tool_concurrency == 32
            &&& b.max_memory_mb == 512 && b.max_tokens == 100_000
            &&& b.max_file_write_bytes == 50 * 1024 * 1024
        }),
{
}

/// Releasing a reservation of file bytes, or turning it into written ones, ends it.
pub proof fn law_file_reservations_end(s: RuntimeState, token: Seq<char>, bytes: u64)
    requires
        s.within_budget(),
        s.file_write_reservations.contains_key(token),
    ensures
        !file_reservation_dropped(s, token).file_write_reservations.contains_key(token),
        file_reservation_dropped(s, token).reserved_file_write_bytes()
            + s.file_write_reservations[token] == s.reserved_file_write_bytes(),
        file_reservation_dropped(s, token).usage == s.usage,
        !token_reservation_dropped(s, token).token_reservations.contains_key(token),
{
    lemma_map_total_remove(s.file_write_reservations, token, amount());
}

} // verus!
