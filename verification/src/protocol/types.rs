//! Names for the plain values in envelopes.
use vstd::prelude::*;

verus! {

/// Milliseconds since the epoch.
pub type Timestamp = i64;

pub type SessionId = String;

pub type RequestId = String;

pub type EventId = String;

pub type SnapshotId = String;

pub type IdempotencyKey = String;

/// The number of an event within its session, counted from 1.
pub type EventSeq = u64;

pub type Generation = u64;

/// What a client that reconnects has seen.
#[derive(Debug, Clone)]
pub struct ReplayCursor {
    pub session_id: SessionId,
    pub last_known_seq: EventSeq,
    pub generation: Option<Generation>,
}

} // verus!
