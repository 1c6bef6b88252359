//! Events.
use vstd::prelude::*;

use crate::json::{Json, JsonView};
use crate::protocol::actor::{Actor, ActorView};
use crate::protocol::types::{EventId, EventSeq, Generation, RequestId, SessionId, Timestamp};
use crate::text::{clone_opt, opt_text};

verus! {

/// What has happened in a session.
#[derive(Debug)]
pub struct EventEnvelope {
    pub event_id: EventId,
    pub session_id: Option<SessionId>,
    pub seq: EventSeq,
    pub generation: Generation,
    pub event_type: String,
    pub source: Actor,
    pub payload: Json,
    pub occurred_at: Timestamp,
    pub causation_id: Option<EventId>,
    pub correlation_id: Option<RequestId>,
}

pub struct EventView {
    pub event_id: Seq<char>,
    pub session_id: Option<Seq<char>>,
    pub seq: u64,
    pub generation: u64,
    pub event_type: Seq<char>,
    pub source: ActorView,
    pub payload: JsonView,
    pub occurred_at: i64,
    pub causation_id: Option<Seq<char>>,
    pub correlation_id: Option<Seq<char>>,
}

impl View for EventEnvelope {
    type V = EventView;

    open spec fn view(&self) -> EventView {
        EventView {
            event_id: self.event_id@,
            session_id: opt_text(self.session_id),
            seq: self.seq,
            generation: self.generation,
            event_type: self.event_type@,
            source: self.source@,
            payload: self.payload@,
            occurred_at: self.occurred_at,
            causation_id: opt_text(self.causation_id),
            correlation_id: opt_text(self.correlation_id),
        }
    }
}

impl Clone for EventEnvelope {
    fn clone(&self) -> (r: Self)
        ensures
            r@ == self@,
    {
        EventEnvelope {
            event_id: self.event_id.clone(),
            session_id: clone_opt(&self.session_id),
            seq: self.seq,
            generation: self.generation,
            event_type: self.event_type.clone(),
            source: self.source.clone(),
            payload: self.payload.clone(),
            occurred_at: self.occurred_at,
            causation_id: clone_opt(&self.causation_id),
            correlation_id: clone_opt(&self.correlation_id),
        }
    }
}

pub open spec fn event_views(events: Seq<EventEnvelope>) -> Seq<EventView> {
    Seq::new(events.len(), |i: int| events[i]@)
}

pub(crate) fn clone_events(events: &Vec<EventEnvelope>) -> (r: Vec<EventEnvelope>)
    ensures
        event_views(r@) == event_views(events@),
{
    let mut r: Vec<EventEnvelope> = Vec::new();
    let mut i: usize = 0;
    while i < events.len()
        invariant
            i <= events@.len(),
            r@.len() == i,
            forall|j: int| 0 <= j < i ==> #[trigger] r@[j]@ == events@[j]@,
        decreases events@.len() - i,
    {
        r.push(events[i].clone());
        i += 1;
    }
    assert(event_views(r@) =~= event_views(events@));
    r
}

} // verus!
