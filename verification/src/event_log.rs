//! The event log of a session: which number an event gets, whether it still counts,
//! what is stored of it, and what a reader gets back. The rows themselves are kept
//! elsewhere; here is decided what to write and what has been read.
use vstd::prelude::*;

use crate::json::{
    json_canonical, json_depth, json_from_str, json_read, json_to_string, json_written, list_depth,
    members_depth, reads_as, Json, JsonView,
};
use crate::protocol::actor::{
    actor_kind_from_str, actor_kind_to_str, kind_wire_name, law_a_stored_kind_is_read_back,
    stored_kind, Actor, ActorKind, ActorView,
};
use crate::protocol::event::{clone_events, event_views, EventEnvelope, EventView};
use crate::redact::{redact_event_payload, redacted_items, redacted_members, redacted_payload};
use crate::runtime::monus;
use crate::text::{clone_opt, contains_text, decimal, decimal_string, opt_text};

verus! {

/// How many events a client may have missed to get them one by one.
pub const MAX_REPLAY_EVENTS: u64 = 100;

/// The place of a reader in the log of a session.
#[derive(Debug, Clone)]
pub struct Cursor {
    pub session_id: String,
    pub last_known_seq: u64,
}

impl Cursor {
    pub fn new(session_id: &str, last_known_seq: u64) -> (c: Self)
        ensures
            c.session_id@ == session_id@,
            c.last_known_seq == last_known_seq,
    {
        Cursor { session_id: session_id.to_owned(), last_known_seq }
    }
}

#[derive(Debug)]
pub enum ReplayResult {
    Events(Vec<EventEnvelope>),
    SnapshotRequired { message: String },
}

pub enum ReplayResultView {
    Events(Seq<EventView>),
    SnapshotRequired { message: Seq<char> },
}

impl View for ReplayResult {
    type V = ReplayResultView;

    open spec fn view(&self) -> ReplayResultView {
        match self {
            ReplayResult::Events(events) => ReplayResultView::Events(event_views(events@)),
            ReplayResult::SnapshotRequired { message } => ReplayResultView::SnapshotRequired {
                message: message@,
            },
        }
    }
}

impl Clone for ReplayResult {
    fn clone(&self) -> (r: Self)
        ensures
            r@ == self@,
    {
        match self {
            ReplayResult::Events(events) => ReplayResult::Events(clone_events(events)),
            ReplayResult::SnapshotRequired { message } => ReplayResult::SnapshotRequired {
                message: message.clone(),
            },
        }
    }
}

/// What is said when too many events were missed.
pub open spec fn gap_message(gap: nat) -> Seq<char> {
    "Gap too large ("@ + decimal(gap) + " > "@ + decimal(100) + "). Request full snapshot."@
}

pub(crate) fn gap_message_text(gap: u64) -> (s: String)
    ensures
        s@ == gap_message(gap as nat),
{
    let mut s = "Gap too large (".to_owned();
    let n = decimal_string(gap);
    s.append(n.as_str());
    s.append(" > ");
    let limit = decimal_string(MAX_REPLAY_EVENTS);
    s.append(limit.as_str());
    s.append("). Request full snapshot.");
    s
}

/// What a reader at `cursor_seq` is told: to be served event by event, or, when too many
/// were missed, to ask for a snapshot.
pub open spec fn gap_answer(cursor_seq: u64, latest_seq: u64) -> ReplayResultView {
    if latest_seq - cursor_seq > 100 {
        ReplayResultView::SnapshotRequired {
            message: gap_message((latest_seq - cursor_seq) as nat),
        }
    } else {
        ReplayResultView::Events(Seq::empty())
    }
}

/// Whether a reader at `cursor_seq` can be served event by event.
pub fn check_gap(cursor_seq: u64, latest_seq: u64) -> (r: ReplayResult)
    ensures
        r@ == gap_answer(cursor_seq, latest_seq),
        match r {
            ReplayResult::SnapshotRequired { message } => latest_seq - cursor_seq > 100 && message@
                == gap_message((latest_seq - cursor_seq) as nat),
            ReplayResult::Events(events) => latest_seq - cursor_seq <= 100 && events@.len() == 0,
        },
{
    let gap: u64 = latest_seq.saturating_sub(cursor_seq);
    if gap > MAX_REPLAY_EVENTS {
        ReplayResult::SnapshotRequired { message: gap_message_text(gap) }
    } else {
        let r = ReplayResult::Events(Vec::new());
        assert(r@->Events_0 =~= Seq::<EventView>::empty());
        r
    }
}

/// What the log keeps of a session beside its events: the last number given, the
/// generation that counts, and the number up to which events were dropped.
#[derive(Debug, Clone, Copy, PartialEq, Eq, Structural)]
pub struct EventLogMeta {
    pub last_seq: u64,
    pub current_generation: u64,
    pub compacted_seq: u64,
}

impl Default for EventLogMeta {
    fn default() -> (m: Self)
        ensures
            m == (EventLogMeta { last_seq: 0, current_generation: 1, compacted_seq: 0 }),
    {
        EventLogMeta { last_seq: 0, current_generation: 1, compacted_seq: 0 }
    }
}

/// What came of appending an event.
#[derive(Debug)]
pub enum AppendOutcome {
    /// The event was written and counts.
    Accepted(EventEnvelope),
    /// The event was written, but it is of a generation that is over and does not
    /// count.
    Rejected(EventEnvelope),
    /// An event of this id was there; nothing was written.
    Duplicate(EventEnvelope),
}

pub enum AppendOutcomeView {
    Accepted(EventView),
    Rejected(EventView),
    Duplicate(EventView),
}

impl View for AppendOutcome {
    type V = AppendOutcomeView;

    open spec fn view(&self) -> AppendOutcomeView {
        match self {
            AppendOutcome::Accepted(e) => AppendOutcomeView::Accepted(e@),
            AppendOutcome::Rejected(e) => AppendOutcomeView::Rejected(e@),
            AppendOutcome::Duplicate(e) => AppendOutcomeView::Duplicate(e@),
        }
    }
}

impl Clone for AppendOutcome {
    fn clone(&self) -> (r: Self)
        ensures
            r@ == self@,
    {
        match self {
            AppendOutcome::Accepted(e) => AppendOutcome::Accepted(e.clone()),
            AppendOutcome::Rejected(e) => AppendOutcome::Rejected(e.clone()),
            AppendOutcome::Duplicate(e) => AppendOutcome::Duplicate(e.clone()),
        }
    }
}

/// The event with the next number of its session.
pub open spec fn numbered(meta: EventLogMeta, e: EventView) -> EventView {
    EventView { seq: (meta.last_seq + 1) as u64, ..e }
}

pub open spec fn opt_event(e: Option<EventEnvelope>) -> Option<EventView> {
    match e {
        Some(e) => Some(e@),
        None => None,
    }
}

/// The event that appending hands back, the state of the session, and whether the event
/// is to be written.
pub open spec fn append_outcome(meta: EventLogMeta, existing: Option<EventView>, e: EventView) -> (
    EventView,
    EventLogMeta,
    bool,
) {
    match existing {
        Some(old_event) => (old_event, meta, false),
        None => (
            numbered(meta, e),
            EventLogMeta { last_seq: (meta.last_seq + 1) as u64, ..meta },
            true,
        ),
    }
}

/// Appending an event: one whose id is there already (`existing`) is handed back,
/// any other gets the next number. Returns the event to hand back, the new state of
/// the session, and whether the event is to be written.
pub fn append(meta: EventLogMeta, existing: Option<EventEnvelope>, event: EventEnvelope) -> (r: (
    EventEnvelope,
    EventLogMeta,
    bool,
))
    requires
        existing is None ==> meta.last_seq < u64::MAX,
    ensures
        (r.0@, r.1, r.2) == append_outcome(meta, opt_event(existing), event@),
        match opt_event(existing) {
            Some(e) => r.0@ == e && r.1 == meta && !r.2,
            None => r.0@ == numbered(meta, event@) && r.1 == (EventLogMeta {
                last_seq: (meta.last_seq + 1) as u64,
                ..meta
            }) && r.2,
        },
        existing is None ==> r.0@ == (EventView { seq: r.0@.seq, ..event@ }),
{
    match existing {
        Some(e) => (e, meta, false),
        None => {
            let mut event = event;
            let mut meta = meta;
            meta.last_seq = meta.last_seq + 1;
            event.seq = meta.last_seq;
            (event, meta, true)
        },
    }
}

/// The outcome of appending with the generations checked.
pub open spec fn gated(meta: EventLogMeta, existing: Option<EventView>, e: EventView) -> (
    AppendOutcomeView,
    EventLogMeta,
) {
    match existing {
        Some(old_event) => (AppendOutcomeView::Duplicate(old_event), meta),
        None => {
            let next = EventLogMeta { last_seq: (meta.last_seq + 1) as u64, ..meta };
            if e.generation < meta.current_generation {
                (AppendOutcomeView::Rejected(numbered(meta, e)), next)
            } else {
                (
                    AppendOutcomeView::Accepted(numbered(meta, e)),
                    EventLogMeta { current_generation: e.generation, ..next },
                )
            }
        },
    }
}

/// Appending an event with the generations checked: an event of an older generation
/// is written but does not count, one of a newer generation begins it.
pub fn append_with_generation_check(
    meta: EventLogMeta,
    existing: Option<EventEnvelope>,
    event: EventEnvelope,
) -> (r: (AppendOutcome, EventLogMeta))
    requires
        existing is None ==> meta.last_seq < u64::MAX,
    ensures
        (r.0@, r.1) == gated(meta, opt_event(existing), event@),
{
    match existing {
        Some(e) => (AppendOutcome::Duplicate(e), meta),
        None => {
            let mut event = event;
            let mut next = meta;
            next.last_seq = meta.last_seq + 1;
            event.seq = next.last_seq;
            if event.generation >= meta.current_generation {
                if event.generation > meta.current_generation {
                    next.current_generation = event.generation;
                }
                (AppendOutcome::Accepted(event), next)
            } else {
                (AppendOutcome::Rejected(event), next)
            }
        },
    }
}

/// A page of events.
#[derive(Debug)]
pub struct ReplayBatch {
    pub events: Vec<EventEnvelope>,
    pub has_more: bool,
}

pub struct ReplayBatchView {
    pub events: Seq<EventView>,
    pub has_more: bool,
}

impl View for ReplayBatch {
    type V = ReplayBatchView;

    open spec fn view(&self) -> ReplayBatchView {
        ReplayBatchView { events: event_views(self.events@), has_more: self.has_more }
    }
}

impl Clone for ReplayBatch {
    fn clone(&self) -> (r: Self)
        ensures
            r@ == self@,
    {
        ReplayBatch { events: clone_events(&self.events), has_more: self.has_more }
    }
}

/// The page of at most `limit` events at the beginning of `events`.
pub open spec fn page_of(events: Seq<EventView>, limit: nat) -> ReplayBatchView {
    ReplayBatchView {
        events: if events.len() > limit {
            events.take(limit as int)
        } else {
            events
        },
        has_more: events.len() > limit,
    }
}

/// Makes a page of at most `limit` events out of what was read when one more than
/// that was asked for.
pub fn replay_page(events: Vec<EventEnvelope>, limit: u64) -> (r: ReplayBatch)
    ensures
        r@ == page_of(event_views(events@), limit as nat),
        r.has_more == (events@.len() > limit),
        r.events@ == if events@.len() > limit {
            events@.take(limit as int)
        } else {
            events@
        },
{
    let mut events = events;
    let ghost all = events@;
    let has_more = events.len() as u64 > limit;
    if has_more {
        events.truncate(limit as usize);
        assert(events@ =~= all.take(limit as int));
        assert(event_views(events@) =~= event_views(all).take(limit as int));
    }
    ReplayBatch { events, has_more }
}

/// The number up to which rows are deleted when the events up to `through` are dropped,
/// and the state of the session behind it.
pub open spec fn compaction(meta: EventLogMeta, through: u64) -> (u64, EventLogMeta) {
    let bounded = if through <= meta.last_seq {
        through
    } else {
        meta.last_seq
    };
    (
        bounded,
        EventLogMeta {
            compacted_seq: if meta.compacted_seq >= bounded {
                meta.compacted_seq
            } else {
                bounded
            },
            ..meta
        },
    )
}

/// Dropping the events up to `compact_through_seq`, of which no more than were given
/// are dropped. Returns the number up to which rows are to be deleted, and the new
/// state of the session.
pub fn compact(meta: EventLogMeta, compact_through_seq: u64) -> (r: (u64, EventLogMeta))
    ensures
        r == compaction(meta, compact_through_seq),
        r.0 == if compact_through_seq <= meta.last_seq {
            compact_through_seq
        } else {
            meta.last_seq
        },
        r.1 == (EventLogMeta {
            compacted_seq: if meta.compacted_seq >= r.0 {
                meta.compacted_seq
            } else {
                r.0
            },
            ..meta
        }),
{
    let bounded: u64 = if compact_through_seq <= meta.last_seq {
        compact_through_seq
    } else {
        meta.last_seq
    };
    let mut next = meta;
    if bounded > next.compacted_seq {
        next.compacted_seq = bounded;
    }
    (bounded, next)
}

/// The session as it stands in a row: nothing for an event outside sessions.
pub open spec fn session_column(session_id: Option<Seq<char>>) -> Seq<char> {
    match session_id {
        Some(s) => s,
        None => Seq::empty(),
    }
}

pub fn sid(session_id: &Option<String>) -> (s: &str)
    ensures
        s@ == session_column(opt_text(*session_id)),
{
    match session_id {
        Some(s) => s.as_str(),
        None => {
            proof {
                reveal_strlit("");
                assert(""@ =~= Seq::<char>::empty());
            }
            ""
        },
    }
}

/// A row of the log.
#[derive(Debug, Clone)]
pub struct EventRow {
    pub event_id: String,
    pub session_id: String,
    pub seq: u64,
    pub generation: u64,
    pub event_type: String,
    pub source_kind: String,
    pub source_id: Option<String>,
    pub payload: String,
    pub occurred_at: i64,
    pub causation_id: Option<String>,
    pub correlation_id: Option<String>,
}

pub struct EventRowView {
    pub event_id: Seq<char>,
    pub session_id: Seq<char>,
    pub seq: u64,
    pub generation: u64,
    pub event_type: Seq<char>,
    pub source_kind: Seq<char>,
    pub source_id: Option<Seq<char>>,
    pub payload: Seq<char>,
    pub occurred_at: i64,
    pub causation_id: Option<Seq<char>>,
    pub correlation_id: Option<Seq<char>>,
}

impl View for EventRow {
    type V = EventRowView;

    open spec fn view(&self) -> EventRowView {
        EventRowView {
            event_id: self.event_id@,
            session_id: self.session_id@,
            seq: self.seq,
            generation: self.generation,
            event_type: self.event_type@,
            source_kind: self.source_kind@,
            source_id: opt_text(self.source_id),
            payload: self.payload@,
            occurred_at: self.occurred_at,
            causation_id: opt_text(self.causation_id),
            correlation_id: opt_text(self.correlation_id),
        }
    }
}

/// The row that is written for an event, with this text for its payload.
pub open spec fn row_with_payload(e: EventView, payload: Seq<char>) -> EventRowView {
    EventRowView {
        event_id: e.event_id,
        session_id: session_column(e.session_id),
        seq: e.seq,
        generation: e.generation,
        event_type: e.event_type,
        source_kind: kind_wire_name(e.source.kind),
        source_id: e.source.id,
        payload,
        occurred_at: e.occurred_at,
        causation_id: e.causation_id,
        correlation_id: e.correlation_id,
    }
}

/// The row that is written for an event: secrets in its payload are not.
pub open spec fn row_of(e: EventView) -> EventRowView {
    row_with_payload(e, json_written(redacted_payload(e.payload)))
}

/// The row of an event with this text for its payload.
pub fn event_row_with_payload(event: &EventEnvelope, payload: String) -> (r: EventRow)
    ensures
        r@ == row_with_payload(event@, payload@),
{
    EventRow {
        event_id: event.event_id.clone(),
        session_id: sid(&event.session_id).to_owned(),
        seq: event.seq,
        generation: event.generation,
        event_type: event.event_type.clone(),
        source_kind: actor_kind_to_str(event.source.kind).to_owned(),
        source_id: clone_opt(&event.source.id),
        payload,
        occurred_at: event.occurred_at,
        causation_id: clone_opt(&event.causation_id),
        correlation_id: clone_opt(&event.correlation_id),
    }
}

/// The row that is written for an event. A payload that JSON text can carry (its
/// numbers integers, the names in each object ascending, nested no deeper than is
/// read) is read back from the row as it was written.
pub fn event_to_row(event: &EventEnvelope) -> (r: EventRow)
    ensures
        r@ == row_of(event@),
        json_canonical(event@.payload) && json_depth(event@.payload) <= 127 ==> reads_as(
            r@.payload,
            redacted_payload(event@.payload),
        ),
{
    proof {
        if json_canonical(event@.payload) {
            lemma_redaction_keeps_canonical(event@.payload);
        }
        lemma_redaction_keeps_depth(event@.payload);
    }
    let kept = redact_event_payload(&event.payload);
    let payload = json_to_string(&kept);
    event_row_with_payload(event, payload)
}

/// Why a row cannot be read.
#[derive(Debug, PartialEq, Eq)]
pub enum RowError {
    /// The payload is no JSON; the message of the reader.
    Payload(String),
    /// The kind of the source is unknown.
    SourceKind(String),
}

/// The event that a row stands for, given the payload that was read from it.
pub open spec fn event_of_row(r: EventRowView, payload: JsonView, kind: ActorKind) -> EventView {
    EventView {
        event_id: r.event_id,
        session_id: if r.session_id.len() == 0 {
            None
        } else {
            Some(r.session_id)
        },
        seq: r.seq,
        generation: r.generation,
        event_type: r.event_type,
        source: ActorView { kind, id: r.source_id },
        payload,
        occurred_at: r.occurred_at,
        causation_id: r.causation_id,
        correlation_id: r.correlation_id,
    }
}

/// Reads a row: the payload first, then the kind of the source.
pub fn row_to_envelope(row: EventRow) -> (r: Result<EventEnvelope, RowError>)
    ensures
        match (json_read(row@.payload), r) {
            (Err(message), Err(RowError::Payload(m))) => m@ == message,
            (Ok(payload), _) => row_outcome(row@, payload, r),
            _ => false,
        },
{
    match json_from_str(row.payload.as_str()) {
        Err(message) => Err(RowError::Payload(message)),
        Ok(payload) => row_with_payload_to_envelope(row, payload),
    }
}

/// What becomes of a row whose payload was read.
pub open spec fn row_outcome(
    row: EventRowView,
    payload: JsonView,
    r: Result<EventEnvelope, RowError>,
) -> bool {
    match (stored_kind(row.source_kind), r) {
        (Some(kind), Ok(e)) => e@ == event_of_row(row, payload, kind),
        (None, Err(RowError::SourceKind(name))) => name@ == row.source_kind,
        _ => false,
    }
}

/// Reads a row whose payload has been read.
pub fn row_with_payload_to_envelope(row: EventRow, payload: Json) -> (r: Result<
    EventEnvelope,
    RowError,
>)
    ensures
        row_outcome(row@, payload@, r),
{
    match actor_kind_from_str(row.source_kind.as_str()) {
        None => Err(RowError::SourceKind(row.source_kind)),
        Some(kind) => {
            let session_id = if row.session_id.as_str().is_empty() {
                None
            } else {
                Some(row.session_id)
            };
            let e = EventEnvelope {
                event_id: row.event_id,
                session_id,
                seq: row.seq,
                generation: row.generation,
                event_type: row.event_type,
                source: Actor { kind, id: row.source_id },
                payload,
                occurred_at: row.occurred_at,
                causation_id: row.causation_id,
                correlation_id: row.correlation_id,
            };
            Ok(e)
        },
    }
}

proof fn lemma_redaction_keeps_canonical(v: JsonView)
    requires
        json_canonical(v),
    ensures
        json_canonical(redacted_payload(v)),
    decreases v,
{
    match v {
        JsonView::Array(items) => {
            let kept = redacted_items(items);
            assert forall|i: int| 0 <= i < kept.len() implies json_canonical(
                #[trigger] kept[i],
            ) by {
                assert(json_canonical(items[i]));
                lemma_redaction_keeps_canonical(items[i]);
            }
        },
        JsonView::Object(members) => {
            let kept = redacted_members(members);
            assert forall|i: int| 0 <= i < kept.len() implies json_canonical(
                (#[trigger] kept[i]).1,
            ) by {
                assert(json_canonical(members[i].1));
                lemma_redaction_keeps_canonical(members[i].1);
            }
            assert forall|i: int, j: int| 0 <= i < j < kept.len() implies
                crate::text_order::not_after((#[trigger] kept[i]).0, (#[trigger] kept[j]).0)
                && kept[i].0 != kept[j].0 by {
                assert(kept[i].0 == members[i].0 && kept[j].0 == members[j].0);
            }
        },
        _ => {},
    }
}

proof fn lemma_redaction_keeps_depth(v: JsonView)
    ensures
        json_depth(redacted_payload(v)) == json_depth(v),
    decreases v, 0int,
{
    match v {
        JsonView::Array(items) => {
            lemma_redaction_keeps_list_depth(items, items.len() as int);
            assert(items.take(items.len() as int) =~= items);
            assert(redacted_items(items).take(items.len() as int) =~= redacted_items(items));
        },
        JsonView::Object(members) => {
            lemma_redaction_keeps_members_depth(members, members.len() as int);
            assert(members.take(members.len() as int) =~= members);
            assert(redacted_members(members).take(members.len() as int) =~= redacted_members(
                members,
            ));
        },
        _ => {},
    }
}

proof fn lemma_redaction_keeps_list_depth(items: Seq<JsonView>, n: int)
    requires
        0 <= n <= items.len(),
    ensures
        list_depth(redacted_items(items).take(n)) == list_depth(items.take(n)),
    decreases items, n,
{
    let kept = redacted_items(items);
    if n > 0 {
        lemma_redaction_keeps_list_depth(items, n - 1);
        lemma_redaction_keeps_depth(items[n - 1]);
        assert(items.take(n).drop_last() =~= items.take(n - 1));
        assert(kept.take(n).drop_last() =~= kept.take(n - 1));
    }
}

proof fn lemma_redaction_keeps_members_depth(members: Seq<(Seq<char>, JsonView)>, n: int)
    requires
        0 <= n <= members.len(),
    ensures
        members_depth(redacted_members(members).take(n)) == members_depth(members.take(n)),
    decreases members, n,
{
    let kept = redacted_members(members);
    if n > 0 {
        lemma_redaction_keeps_members_depth(members, n - 1);
        lemma_redaction_keeps_depth(members[n - 1].1);
        assert(members.take(n).drop_last() =~= members.take(n - 1));
        assert(kept.take(n).drop_last() =~= kept.take(n - 1));
    }
}

/// What is read back of an event: the event itself, without the secrets in its
/// payload. (A session without a name is read back as none.)
pub open spec fn read_back(e: EventView) -> EventView {
    EventView {
        payload: redacted_payload(e.payload),
        session_id: if session_column(e.session_id).len() == 0 {
            None
        } else {
            e.session_id
        },
        ..e
    }
}

/// Writing an event and reading its row gives the event back, without the secrets in
/// its payload. `row` is the row that was written, whose payload text is read as what
/// was written into it (see [`event_to_row`]), and `r` what reading it gave.
pub proof fn law_stored_events_are_read_back(
    e: EventView,
    row: EventRowView,
    r: Result<EventEnvelope, RowError>,
)
    ensures
        ({
            &&& row == row_of(e)
            &&& reads_as(row.payload, redacted_payload(e.payload))
            &&& match json_read(row.payload) {
                Ok(payload) => row_outcome(row, payload, r),
                Err(_) => true,
            }
        }) ==> r is Ok && r->Ok_0@ == read_back(e),
{
    let payload = redacted_payload(e.payload);
    if row == row_of(e) && reads_as(row.payload, payload) && row_outcome(row, payload, r) {
        law_a_stored_kind_is_read_back(e.source.kind);
    }
}

/// The log of a session: its events in the order of their numbers, and its state.
pub struct LogView {
    pub events: Seq<EventView>,
    pub meta: EventLogMeta,
}

/// What holds of a log at any time: the events that were not dropped are all there,
/// each with the next number, and no id occurs twice.
pub open spec fn log_wf(log: LogView) -> bool {
    &&& log.meta.compacted_seq <= log.meta.last_seq
    &&& log.events.len() == log.meta.last_seq - log.meta.compacted_seq
    &&& forall|i: int|
        0 <= i < log.events.len() ==> (#[trigger] log.events[i]).seq == log.meta.compacted_seq + 1
            + i
    &&& forall|i: int, j: int|
        0 <= i < j < log.events.len() ==> (#[trigger] log.events[i]).event_id != (
        #[trigger] log.events[j]).event_id
}

/// The event of this id, where it is in the log.
pub open spec fn event_with_id(log: LogView, id: Seq<char>) -> Option<EventView> {
    if exists|i: int| 0 <= i < log.events.len() && (#[trigger] log.events[i]).event_id == id {
        Some(
            log.events[choose|i: int|
                0 <= i < log.events.len() && (#[trigger] log.events[i]).event_id == id],
        )
    } else {
        None
    }
}

/// The log after an event was appended with the generations checked.
pub open spec fn appended(log: LogView, e: EventView) -> LogView {
    let existing = event_with_id(log, e.event_id);
    LogView {
        events: if existing is Some {
            log.events
        } else {
            log.events.push(numbered(log.meta, e))
        },
        meta: gated(log.meta, existing, e).1,
    }
}

/// The log after the events up to `through` were dropped.
pub open spec fn compacted(log: LogView, through: u64) -> LogView {
    let bounded: int = if through <= log.meta.last_seq {
        through as int
    } else {
        log.meta.last_seq as int
    };
    let dropped = monus(bounded, log.meta.compacted_seq as int);
    LogView {
        events: log.events.skip(dropped),
        meta: EventLogMeta {
            compacted_seq: if log.meta.compacted_seq >= bounded {
                log.meta.compacted_seq
            } else {
                bounded as u64
            },
            ..log.meta
        },
    }
}

/// The events behind number `from`.
pub open spec fn events_after(log: LogView, from: u64) -> Seq<EventView> {
    log.events.filter(|e: EventView| e.seq > from)
}

/// A log stays in order whatever is appended: numbers begin at 1 and ascend by one,
/// and an event that comes again changes nothing.
pub proof fn law_append_keeps_the_log(log: LogView, e: EventView)
    requires
        log_wf(log),
        log.meta.last_seq < u64::MAX,
    ensures
        log_wf(appended(log, e)),
        event_with_id(log, e.event_id) is Some ==> appended(log, e) == log,
        event_with_id(log, e.event_id) is None ==> appended(log, e).events.last().seq
            == log.meta.last_seq + 1,
{
    let after = appended(log, e);
    assert forall|i: int| 0 <= i < after.events.len() implies (#[trigger] after.events[i]).seq
        == after.meta.compacted_seq + 1 + i by {
        if i < log.events.len() {
            assert(after.events[i] == log.events[i]);
        }
    }
    assert forall|i: int, j: int| 0 <= i < j < after.events.len() implies (
    #[trigger] after.events[i]).event_id != (#[trigger] after.events[j]).event_id by {
        assert(after.events[i] == log.events[i]);
        if j < log.events.len() {
            assert(after.events[j] == log.events[j]);
        }
    }
}

/// The generation of a session never goes back, and an event counts exactly if its
/// generation is not over.
pub proof fn law_generations_never_go_back(
    meta: EventLogMeta,
    existing: Option<EventView>,
    e: EventView,
)
    ensures
        gated(meta, existing, e).1.current_generation >= meta.current_generation,
        gated(meta, existing, e).0 is Rejected <==> existing is None && e.generation
            < meta.current_generation,
        gated(meta, existing, e).0 is Accepted ==> gated(meta, existing, e).1.current_generation
            == e.generation,
{
}

/// Dropping events keeps the log in order and what is behind the dropped part.
pub proof fn law_compaction_keeps_the_rest(log: LogView, through: u64)
    requires
        log_wf(log),
    ensures
        log_wf(compacted(log, through)),
        compacted(log, through).meta.last_seq == log.meta.last_seq,
        forall|i: int|
            0 <= i < log.events.len() && (#[trigger] log.events[i]).seq
                > compacted(log, through).meta.compacted_seq ==> compacted(
                log,
                through,
            ).events.contains(log.events[i]),
{
    let after = compacted(log, through);
    let dropped = log.events.len() - after.events.len();
    assert(0 <= dropped <= log.events.len());
    assert forall|i: int| 0 <= i < after.events.len() implies (#[trigger] after.events[i]).seq
        == after.meta.compacted_seq + 1 + i by {
        assert(after.events[i] == log.events[dropped + i]);
    }
    assert forall|i: int, j: int| 0 <= i < j < after.events.len() implies (
    #[trigger] after.events[i]).event_id != (#[trigger] after.events[j]).event_id by {
        assert(after.events[i] == log.events[dropped + i]);
        assert(after.events[j] == log.events[dropped + j]);
    }
    assert forall|i: int|
        0 <= i < log.events.len() && (#[trigger] log.events[i]).seq
            > after.meta.compacted_seq implies after.events.contains(log.events[i]) by {
        assert(after.events[i - dropped] == log.events[i]);
    }
}

/// A reader at `from`, not before the dropped part, gets every later event, in the
/// order of their numbers.
pub proof fn law_replay_is_complete_and_ordered(log: LogView, from: u64)
    requires
        log_wf(log),
        log.meta.compacted_seq <= from <= log.meta.last_seq,
    ensures
        events_after(log, from) == log.events.skip(from - log.meta.compacted_seq),
        events_after(log, from).len() == log.meta.last_seq - from,
        forall|i: int|
            0 <= i < events_after(log, from).len() ==> (#[trigger] events_after(log, from)[i]).seq
                == from + 1 + i,
{
    let k = from - log.meta.compacted_seq;
    lemma_filter_suffix(log.events, log.meta.compacted_seq as int, from as int);
    assert forall|i: int| 0 <= i < log.events.skip(k).len() implies (
    #[trigger] log.events.skip(k)[i]).seq == from + 1 + i by {
        assert(log.events.skip(k)[i] == log.events[k + i]);
    }
}

proof fn lemma_filter_suffix(events: Seq<EventView>, base: int, from: int)
    requires
        forall|i: int|
            0 <= i < events.len() ==> (#[trigger] events[i]).seq == base + 1 + i,
        base <= from <= base + events.len(),
    ensures
        events.filter(|e: EventView| e.seq > from) == events.skip(from - base),
    decreases events.len(),
{
    reveal(Seq::filter);
    let p = |e: EventView| e.seq > from;
    if events.len() > 0 {
        let front = events.drop_last();
        assert forall|i: int| 0 <= i < front.len() implies (#[trigger] front[i]).seq == base + 1
            + i by {
            assert(front[i] == events[i]);
        }
        if from < base + events.len() {
            lemma_filter_suffix(front, base, from);
            assert(p(events.last()));
            assert(events.skip(from - base) =~= front.skip(from - base).push(events.last()));
        } else {
            assert(!p(events.last()));
            lemma_filter_suffix_empty(front, base, from);
            assert(events.skip(from - base) =~= Seq::<EventView>::empty());
        }
    } else {
        assert(events.skip(from - base) =~= events.filter(p));
    }
}

proof fn lemma_filter_suffix_empty(events: Seq<EventView>, base: int, from: int)
    requires
        forall|i: int|
            0 <= i < events.len() ==> (#[trigger] events[i]).seq == base + 1 + i,
        base + events.len() <= from,
    ensures
        events.filter(|e: EventView| e.seq > from) == Seq::<EventView>::empty(),
    decreases events.len(),
{
    reveal(Seq::filter);
    let p = |e: EventView| e.seq > from;
    if events.len() > 0 {
        let front = events.drop_last();
        assert forall|i: int| 0 <= i < front.len() implies (#[trigger] front[i]).seq == base + 1
            + i by {
            assert(front[i] == events[i]);
        }
        lemma_filter_suffix_empty(front, base, from);
        assert(!p(events.last()));
    } else {
        assert(events.filter(p) =~= Seq::<EventView>::empty());
    }
}

/// Two events differ in their numbers at most.
pub open spec fn same_but_number(a: EventView, b: EventView) -> bool {
    &&& a.event_id == b.event_id
    &&& a.session_id == b.session_id
    &&& a.generation == b.generation
    &&& a.event_type == b.event_type
    &&& a.source.kind == b.source.kind
    &&& a.source.id == b.source.id
    &&& a.payload == b.payload
    &&& a.occurred_at == b.occurred_at
    &&& a.causation_id == b.causation_id
    &&& a.correlation_id == b.correlation_id
}

/// Appending hands back, and has written, the event that was given, with the next number
/// and otherwise unchanged; one that was there already is handed back as it is, and
/// nothing is written. With the generations checked the same holds, whether the event
/// counts or not.
pub proof fn law_appending_changes_the_number_alone(
    meta: EventLogMeta,
    existing: Option<EventView>,
    e: EventView,
)
    requires
        meta.last_seq < u64::MAX,
    ensures
        ({
            let (handed_back, next, written) = append_outcome(meta, existing, e);
            &&& written == (existing is None)
            &&& next.compacted_seq == meta.compacted_seq
            &&& next.current_generation == meta.current_generation
            &&& match existing {
                Some(there) => handed_back == there && next == meta,
                None => {
                    &&& same_but_number(handed_back, e)
                    &&& handed_back.seq == meta.last_seq + 1
                    &&& next.last_seq == meta.last_seq + 1
                },
            }
        }),
        ({
            let (outcome, next) = gated(meta, existing, e);
            &&& next.compacted_seq == meta.compacted_seq
            &&& match outcome {
                AppendOutcomeView::Duplicate(there) => existing == Some(there) && next == meta,
                AppendOutcomeView::Accepted(kept) => {
                    &&& existing is None
                    &&& e.generation >= meta.current_generation
                    &&& same_but_number(kept, e)
                    &&& kept.seq == meta.last_seq + 1
                    &&& next.last_seq == meta.last_seq + 1
                    &&& next.current_generation == e.generation
                },
                AppendOutcomeView::Rejected(kept) => {
                    &&& existing is None
                    &&& e.generation < meta.current_generation
                    &&& same_but_number(kept, e)
                    &&& kept.seq == meta.last_seq + 1
                    &&& next.last_seq == meta.last_seq + 1
                    &&& next.current_generation == meta.current_generation
                },
            }
        }),
{
}

/// What was appended is replayed: a reader that has not seen a new event gets it, as it
/// was given, behind all the others, which stay as they are.
pub proof fn law_appended_events_are_replayed(log: LogView, e: EventView, from: u64)
    requires
        log_wf(log),
        log.meta.last_seq < u64::MAX,
        log.meta.compacted_seq <= from <= log.meta.last_seq,
        forall|i: int|
            0 <= i < log.events.len() ==> (#[trigger] log.events[i]).event_id != e.event_id,
    ensures
        ({
            let before = events_after(log, from);
            let after = events_after(appended(log, e), from);
            &&& after.len() == before.len() + 1
            &&& after.drop_last() == before
            &&& same_but_number(after.last(), e)
            &&& after.last().seq == log.meta.last_seq + 1
        }),
{
    let grown = appended(log, e);
    law_append_keeps_the_log(log, e);
    law_replay_is_complete_and_ordered(log, from);
    law_replay_is_complete_and_ordered(grown, from);
    let k = from - log.meta.compacted_seq;
    assert(grown.events == log.events.push(numbered(log.meta, e)));
    assert(grown.events.skip(k).drop_last() =~= log.events.skip(k));
}

/// A reader is served event by event exactly if it missed no more than a hundred.
pub proof fn law_small_gaps_are_served(cursor_seq: u64, latest_seq: u64)
    ensures
        gap_answer(cursor_seq, latest_seq) is SnapshotRequired <==> latest_seq > cursor_seq + 100,
        gap_answer(cursor_seq, latest_seq) is Events ==> gap_answer(
            cursor_seq,
            latest_seq,
        )->Events_0.len() == 0,
{
}

/// Pages follow each other without a gap: the first page is the beginning of what is there,
/// full where there is more, and there is more exactly if something is left.
pub proof fn law_pages_are_full_and_in_order(events: Seq<EventView>, limit: nat)
    ensures
        ({
            let page = page_of(events, limit);
            &&& page.events + events.skip(page.events.len() as int) == events
            &&& page.events.len() <= limit
            &&& page.has_more <==> page.events.len() < events.len()
            &&& page.has_more ==> page.events.len() == limit
        }),
{
    let page = page_of(events, limit);
    assert(page.events + events.skip(page.events.len() as int) =~= events);
}

/// Dropping events never goes back, never beyond the last event, and reaches as far as it
/// is told within these bounds; nothing else of the session changes.
pub proof fn law_compaction_reaches_as_far_as_told(meta: EventLogMeta, through: u64)
    requires
        meta.compacted_seq <= meta.last_seq,
    ensures
        ({
            let (deleted, next) = compaction(meta, through);
            &&& next.last_seq == meta.last_seq
            &&& next.current_generation == meta.current_generation
            &&& next.compacted_seq >= meta.compacted_seq
            &&& next.compacted_seq <= meta.last_seq
            &&& deleted <= next.compacted_seq
            &&& through <= meta.last_seq ==> deleted == through
            &&& through > meta.last_seq ==> deleted == meta.last_seq
            &&& meta.compacted_seq <= through <= meta.last_seq ==> next.compacted_seq == through
            &&& through < meta.compacted_seq ==> next == meta
        }),
{
}

/// Dropping events from a log does to its state what it does to a session, and the log
/// holds exactly the events behind the dropped part then.
pub proof fn law_compaction_drops_what_it_says(log: LogView, through: u64, e: EventView)
    requires
        log_wf(log),
    ensures
        compacted(log, through).meta == compaction(log.meta, through).1,
        compacted(log, through).events.contains(e) <==> log.events.contains(e) && e.seq
            > compaction(log.meta, through).1.compacted_seq,
{
    let after = compacted(log, through);
    let dropped = log.events.len() - after.events.len();
    law_compaction_keeps_the_rest(log, through);
    if after.events.contains(e) {
        let i = choose|i: int| 0 <= i < after.events.len() && after.events[i] == e;
        assert(log.events[dropped + i] == e);
    }
    if log.events.contains(e) && e.seq > after.meta.compacted_seq {
        let i = choose|i: int| 0 <= i < log.events.len() && log.events[i] == e;
        assert(log.events[i].seq > after.meta.compacted_seq);
    }
}

/// What is read back of an event is the event, but for secrets in its payload: every
/// other part of it is as it was written.
pub proof fn law_reading_back_keeps_the_event(e: EventView)
    ensures
        ({
            let back = read_back(e);
            &&& same_but_number(EventView { payload: e.payload, session_id: e.session_id, ..back }, e)
            &&& back.seq == e.seq
            &&& back.payload == redacted_payload(e.payload)
            &&& e.session_id is Some && e.session_id->0.len() > 0 ==> back.session_id
                == e.session_id
            &&& e.session_id is None || e.session_id->0.len() == 0 ==> back.session_id is None
        }),
{
}

/// What is said of a gap names its size.
pub proof fn law_the_gap_message_names_the_gap(gap: nat)
    ensures
        contains_text(gap_message(gap), decimal(gap)),
        contains_text(gap_message(gap), decimal(100)),
{
    let a = "Gap too large ("@;
    let b = " > "@;
    let c = "). Request full snapshot."@;
    crate::text::lemma_contains_middle(a, decimal(gap), b + decimal(100) + c);
    assert(a + decimal(gap) + (b + decimal(100) + c) =~= gap_message(gap));
    crate::text::lemma_contains_middle(a + decimal(gap) + b, decimal(100), c);
}

} // verus!
