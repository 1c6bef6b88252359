//! The envelopes in which commands, events and snapshots travel.
pub mod actor;
pub mod command;
pub mod error;
pub mod event;
pub mod snapshot;
pub mod types;
