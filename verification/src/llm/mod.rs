//! Calling language models: the values that go to and come from a provider, which
//! provider serves a model, and how failed calls are retried.
pub mod breaker;
pub mod capability;
pub mod external;
pub mod laws;
pub mod mock;
pub mod registry;
pub mod retry;
pub mod router;
pub mod secrets;
pub mod tokens;
pub mod types;
