//! The states of an agent.
use vstd::prelude::*;

verus! {

#[derive(Debug, Clone, Copy, PartialEq, Eq, Structural)]
pub enum AgentStatus {
    Starting,
    Running,
    Stopped,
}

/// The transitions an agent can make: forward to its end, and from there back to a
/// new start.
pub open spec fn agent_transition(from: AgentStatus, to: AgentStatus) -> bool {
    match from {
        AgentStatus::Starting => to == AgentStatus::Running || to == AgentStatus::Stopped,
        AgentStatus::Running => to == AgentStatus::Stopped,
        AgentStatus::Stopped => to == AgentStatus::Starting,
    }
}

impl AgentStatus {
    pub fn is_terminal(self) -> (b: bool)
        ensures
            b == (self == AgentStatus::Stopped),
    {
        self == AgentStatus::Stopped
    }

    pub fn can_transition_to(self, to: Self) -> (b: bool)
        ensures
            b == agent_transition(self, to),
    {
        matches!(
            (self, to),
            (AgentStatus::Starting, AgentStatus::Running | AgentStatus::Stopped)
                | (AgentStatus::Running, AgentStatus::Stopped)
                | (AgentStatus::Stopped, AgentStatus::Starting)
        )
    }
}

/// No agent stays where it is by a transition, and a stopped one can only start
/// again.
pub proof fn law_stopped_agents_only_restart(from: AgentStatus, to: AgentStatus)
    ensures
        !agent_transition(from, from),
        agent_transition(AgentStatus::Stopped, to) ==> to == AgentStatus::Starting,
{
}

/// The transitions of an agent, all of them.
pub proof fn law_how_agents_change(from: AgentStatus, to: AgentStatus)
    ensures
        agent_transition(from, to) <==> (from == AgentStatus::Starting && to
            == AgentStatus::Running) || (from == AgentStatus::Starting && to
            == AgentStatus::Stopped) || (from == AgentStatus::Running && to
            == AgentStatus::Stopped) || (from == AgentStatus::Stopped && to
            == AgentStatus::Starting),
{
}

} // verus!
