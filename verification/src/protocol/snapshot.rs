//! Snapshots.
use vstd::prelude::*;

use crate::json::{Json, JsonView};
use crate::protocol::types::{EventSeq, Generation, SessionId, SnapshotId, Timestamp};
use crate::text::{clone_opt, opt_text};

verus! {

/// The state of a session at one point.
#[derive(Debug)]
pub struct SnapshotEnvelope {
    pub snapshot_id: Option<SnapshotId>,
    pub session_id: SessionId,
    pub generation: Generation,
    pub last_seq: EventSeq,
    pub status: String,
    pub payload: Json,
    pub created_at: Timestamp,
}

pub struct SnapshotView {
    pub snapshot_id: Option<Seq<char>>,
    pub session_id: Seq<char>,
    pub generation: u64,
    pub last_seq: u64,
    pub status: Seq<char>,
    pub payload: JsonView,
    pub created_at: i64,
}

impl View for SnapshotEnvelope {
    type V = SnapshotView;

    open spec fn view(&self) -> SnapshotView {
        SnapshotView {
            snapshot_id: opt_text(self.snapshot_id),
            session_id: self.session_id@,
            generation: self.generation,
            last_seq: self.last_seq,
            status: self.status@,
            payload: self.payload@,
            created_at: self.created_at,
        }
    }
}

impl Clone for SnapshotEnvelope {
    fn clone(&self) -> (r: Self)
        ensures
            r@ == self@,
    {
        SnapshotEnvelope {
            snapshot_id: clone_opt(&self.snapshot_id),
            session_id: self.session_id.clone(),
            generation: self.generation,
            last_seq: self.last_seq,
            status: self.status.clone(),
            payload: self.payload.clone(),
            created_at: self.created_at,
        }
    }
}

} // verus!
