//! Commands and their responses.
use vstd::prelude::*;

use crate::json::{clone_opt_json, opt_json, Json, JsonView};
use crate::protocol::actor::{Actor, ActorView};
use crate::protocol::error::{CoreError, CoreErrorView};
use crate::protocol::event::{clone_events, event_views, EventEnvelope, EventView};
use crate::protocol::types::{EventSeq, IdempotencyKey, RequestId, SessionId, Timestamp};
use crate::text::{clone_opt, opt_text};

verus! {

#[derive(Debug)]
pub struct CommandEnvelope {
    pub request_id: RequestId,
    pub method: String,
    pub params: Json,
    pub actor: Actor,
    pub session_id: Option<SessionId>,
    pub idempotency_key: Option<IdempotencyKey>,
    pub submitted_at: Timestamp,
}

pub struct CommandView {
    pub request_id: Seq<char>,
    pub method: Seq<char>,
    pub params: JsonView,
    pub actor: ActorView,
    pub session_id: Option<Seq<char>>,
    pub idempotency_key: Option<Seq<char>>,
    pub submitted_at: i64,
}

impl View for CommandEnvelope {
    type V = CommandView;

    open spec fn view(&self) -> CommandView {
        CommandView {
            request_id: self.request_id@,
            method: self.method@,
            params: self.params@,
            actor: self.actor@,
            session_id: opt_text(self.session_id),
            idempotency_key: opt_text(self.idempotency_key),
            submitted_at: self.submitted_at,
        }
    }
}

impl Clone for CommandEnvelope {
    fn clone(&self) -> (r: Self)
        ensures
            r@ == self@,
    {
        CommandEnvelope {
            request_id: self.request_id.clone(),
            method: self.method.clone(),
            params: self.params.clone(),
            actor: self.actor.clone(),
            session_id: clone_opt(&self.session_id),
            idempotency_key: clone_opt(&self.idempotency_key),
            submitted_at: self.submitted_at,
        }
    }
}

#[derive(Debug)]
pub struct CommandResponse {
    pub request_id: RequestId,
    pub success: bool,
    pub result: Option<Json>,
    pub error: Option<CoreError>,
    pub events: Vec<EventEnvelope>,
    pub latest_seq: Option<EventSeq>,
}

pub struct ResponseView {
    pub request_id: Seq<char>,
    pub success: bool,
    pub result: Option<JsonView>,
    pub error: Option<CoreErrorView>,
    pub events: Seq<EventView>,
    pub latest_seq: Option<u64>,
}

impl View for CommandResponse {
    type V = ResponseView;

    open spec fn view(&self) -> ResponseView {
        ResponseView {
            request_id: self.request_id@,
            success: self.success,
            result: opt_json(self.result),
            error: match self.error {
                Some(e) => Some(e@),
                None => None,
            },
            events: event_views(self.events@),
            latest_seq: self.latest_seq,
        }
    }
}

impl Clone for CommandResponse {
    fn clone(&self) -> (r: Self)
        ensures
            r@ == self@,
    {
        let error = match &self.error {
            Some(e) => Some(e.clone()),
            None => None,
        };
        CommandResponse {
            request_id: self.request_id.clone(),
            success: self.success,
            result: clone_opt_json(&self.result),
            error,
            events: clone_events(&self.events),
            latest_seq: self.latest_seq,
        }
    }
}

impl CommandResponse {
    pub fn ok(request_id: RequestId, result: Option<Json>, latest_seq: Option<EventSeq>) -> (r: Self)
        ensures
            r.request_id == request_id,
            r.success,
            r.result == result,
            r.error is None,
            r.events@.len() == 0,
            r.latest_seq == latest_seq,
    {
        CommandResponse {
            request_id,
            success: true,
            result,
            error: None,
            events: Vec::new(),
            latest_seq,
        }
    }

    /// The response to a command that caused `event`.
    pub fn with_event(request_id: RequestId, event: EventEnvelope, result: Option<Json>) -> (r: Self)
        ensures
            r.request_id == request_id,
            r.success,
            r.result == result,
            r.error is None,
            r.events@ == seq![event],
            r.latest_seq == Some(event.seq),
    {
        let latest_seq = Some(event.seq);
        let mut events: Vec<EventEnvelope> = Vec::new();
        events.push(event);
        assert(events@ =~= seq![event]);
        CommandResponse { request_id, success: true, result, error: None, events, latest_seq }
    }

    pub fn err(request_id: RequestId, error: CoreError) -> (r: Self)
        ensures
            r.request_id == request_id,
            !r.success,
            r.result is None,
            r.error == Some(error),
            r.events@.len() == 0,
            r.latest_seq is None,
    {
        CommandResponse {
            request_id,
            success: false,
            result: None,
            error: Some(error),
            events: Vec::new(),
            latest_seq: None,
        }
    }
}

} // verus!
