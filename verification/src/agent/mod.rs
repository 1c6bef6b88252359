//! Agents: the loop that alternates model rounds and tool calls, and the guards
//! that keep it from going round in circles.
pub mod agent_loop;
pub mod escalation;
pub mod failure;
pub mod failure_guard;
pub mod laws;
pub mod pool;
pub mod run;
pub mod status;
pub mod tool_loop;
