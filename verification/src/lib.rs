//! The core of a system in which agents work on tasks: sessions and their event logs,
//! the loop of an agent with its guards, routing to language models, budgets and
//! schedules. Everything that is decided is decided here; what touches processes,
//! files, clocks and the store is done by the program around it.
use vstd::prelude::*;

pub mod agent;
pub mod blackboard;
pub mod bus;
pub mod calendar;
pub mod context;
pub mod daemon;
pub mod document_tools;
pub mod event_log;
pub mod json;
pub mod json_equality;
pub mod leader;
pub mod llm;
pub mod mcp_bridge;
pub mod output;
pub mod permission;
pub mod persistence;
pub mod process;
pub mod projection;
pub mod protocol;
pub mod redact;
pub mod repl;
pub mod runtime;
pub mod runtime_config;
pub mod schedule;
pub mod schedule_laws;
pub mod session;
pub mod sidecar;
pub mod state;
pub mod str_map;
pub mod task;
pub mod terminal;
pub mod text;
pub mod text_laws;
pub mod text_order;
pub mod view_laws;

verus! {

pub const VERSION: &'static str = "0.1.0";

pub const NAME: &'static str = "lingxiao-core";

/// The name and the version of the core.
pub fn core_info() -> (s: String)
    ensures
        s@ == NAME@ + " v"@ + VERSION@,
{
    let mut s = NAME.to_owned();
    s.append(" v");
    s.append(VERSION);
    s
}

} // verus!
