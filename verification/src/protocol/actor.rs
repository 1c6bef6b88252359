//! Who or what causes a command or an event.
use vstd::prelude::*;

use crate::json::{json_from_str, json_read, read_view, Json, JsonView};
use crate::text::{opt_text, same_text};

verus! {

#[derive(Debug, Clone, Copy, PartialEq, Eq, Structural)]
pub enum ActorKind {
    System,
    User,
    Agent,
    Tool,
    Sidecar,
    Runtime,
}

/// The name of a kind as it is written in envelopes and in the event log.
pub open spec fn kind_wire_name(k: ActorKind) -> Seq<char> {
    match k {
        ActorKind::System => "system"@,
        ActorKind::User => "user"@,
        ActorKind::Agent => "agent"@,
        ActorKind::Tool => "tool"@,
        ActorKind::Sidecar => "sidecar"@,
        ActorKind::Runtime => "runtime"@,
    }
}

/// The name of a kind as it is shown.
pub open spec fn kind_display_name(k: ActorKind) -> Seq<char> {
    match k {
        ActorKind::System => "System"@,
        ActorKind::User => "User"@,
        ActorKind::Agent => "Agent"@,
        ActorKind::Tool => "Tool"@,
        ActorKind::Sidecar => "Sidecar"@,
        ActorKind::Runtime => "Runtime"@,
    }
}

impl ActorKind {
    pub fn display_name(self) -> (s: &'static str)
        ensures
            s@ == kind_display_name(self),
    {
        match self {
            ActorKind::System => "System",
            ActorKind::User => "User",
            ActorKind::Agent => "Agent",
            ActorKind::Tool => "Tool",
            ActorKind::Sidecar => "Sidecar",
            ActorKind::Runtime => "Runtime",
        }
    }
}

#[derive(Debug, PartialEq, Eq)]
pub struct Actor {
    pub kind: ActorKind,
    pub id: Option<String>,
}

pub struct ActorView {
    pub kind: ActorKind,
    pub id: Option<Seq<char>>,
}

impl View for Actor {
    type V = ActorView;

    open spec fn view(&self) -> ActorView {
        ActorView { kind: self.kind, id: opt_text(self.id) }
    }
}

impl Clone for Actor {
    fn clone(&self) -> (r: Self)
        ensures
            r@ == self@,
    {
        Actor { kind: self.kind, id: crate::text::clone_opt(&self.id) }
    }
}

impl Actor {
    pub fn new(kind: ActorKind) -> (a: Self)
        ensures
            a@ == (ActorView { kind, id: None }),
    {
        Actor { kind, id: None }
    }

    pub fn with_id(kind: ActorKind, id: &str) -> (a: Self)
        ensures
            a@ == (ActorView { kind, id: Some(id@) }),
    {
        Actor { kind, id: Some(id.to_owned()) }
    }

    /// The actor as it is shown: the kind, with the id in brackets where there is one.
    pub fn to_string(&self) -> (s: String)
        ensures
            s@ == match self@.id {
                Some(id) => kind_display_name(self@.kind) + "("@ + id + ")"@,
                None => kind_display_name(self@.kind),
            },
    {
        let mut s = self.kind.display_name().to_owned();
        match &self.id {
            Some(id) => {
                s.append("(");
                s.append(id.as_str());
                s.append(")");
            },
            None => {},
        }
        s
    }
}

/// The kind as it is written in the event log.
pub fn actor_kind_to_str(kind: ActorKind) -> (s: &'static str)
    ensures
        s@ == kind_wire_name(kind),
{
    match kind {
        ActorKind::System => "system",
        ActorKind::User => "user",
        ActorKind::Agent => "agent",
        ActorKind::Tool => "tool",
        ActorKind::Sidecar => "sidecar",
        ActorKind::Runtime => "runtime",
    }
}

/// The kind that a name stands for.
pub open spec fn kind_of_name(name: Seq<char>) -> Option<ActorKind> {
    if name == "system"@ {
        Some(ActorKind::System)
    } else if name == "user"@ {
        Some(ActorKind::User)
    } else if name == "agent"@ {
        Some(ActorKind::Agent)
    } else if name == "tool"@ {
        Some(ActorKind::Tool)
    } else if name == "sidecar"@ {
        Some(ActorKind::Sidecar)
    } else if name == "runtime"@ {
        Some(ActorKind::Runtime)
    } else {
        None
    }
}

fn find_kind(name: &str) -> (r: Option<ActorKind>)
    ensures
        r == kind_of_name(name@),
{
    if same_text(name, "system") {
        Some(ActorKind::System)
    } else if same_text(name, "user") {
        Some(ActorKind::User)
    } else if same_text(name, "agent") {
        Some(ActorKind::Agent)
    } else if same_text(name, "tool") {
        Some(ActorKind::Tool)
    } else if same_text(name, "sidecar") {
        Some(ActorKind::Sidecar)
    } else if same_text(name, "runtime") {
        Some(ActorKind::Runtime)
    } else {
        None
    }
}

/// The kind that a JSON value names, given what reading its text gave.
pub open spec fn kind_of_json(read: Result<JsonView, Seq<char>>) -> Option<ActorKind> {
    match read {
        Ok(JsonView::String(name)) => kind_of_name(name),
        _ => None,
    }
}

pub fn actor_kind_from_json(read: &Result<Json, String>) -> (r: Option<ActorKind>)
    ensures
        r == kind_of_json(read_view(*read)),
{
    match read {
        Ok(Json::String(name)) => find_kind(name.as_str()),
        _ => None,
    }
}

/// The kind that a column of the event log stands for. A column holds what stands
/// between the quotes of a JSON text: a name as it is, or one in which characters are
/// escaped.
pub open spec fn stored_kind(s: Seq<char>) -> Option<ActorKind> {
    match kind_of_name(s) {
        Some(kind) => Some(kind),
        None => kind_of_json(json_read("\""@ + s + "\""@)),
    }
}

/// The kind that a column of the event log stands for.
pub fn actor_kind_from_str(s: &str) -> (r: Option<ActorKind>)
    ensures
        r == stored_kind(s@),
{
    match find_kind(s) {
        Some(kind) => Some(kind),
        None => {
            let mut text = "\"".to_owned();
            text.append(s);
            text.append("\"");
            let read = json_from_str(text.as_str());
            actor_kind_from_json(&read)
        },
    }
}

/// The column that is written for a kind is read as that kind.
pub proof fn law_a_stored_kind_is_read_back(kind: ActorKind)
    ensures
        stored_kind(kind_wire_name(kind)) == Some(kind),
{
    law_kind_names_are_distinct(kind, ActorKind::System);
    law_kind_names_are_distinct(kind, ActorKind::User);
    law_kind_names_are_distinct(kind, ActorKind::Agent);
    law_kind_names_are_distinct(kind, ActorKind::Tool);
    law_kind_names_are_distinct(kind, ActorKind::Sidecar);
}

/// The names are told apart, so that a kind can be read back.
pub proof fn law_kind_names_are_distinct(a: ActorKind, b: ActorKind)
    ensures
        kind_wire_name(a) == kind_wire_name(b) ==> a == b,
{
    reveal_strlit("system");
    reveal_strlit("user");
    reveal_strlit("agent");
    reveal_strlit("tool");
    reveal_strlit("sidecar");
    reveal_strlit("runtime");
    if kind_wire_name(a) == kind_wire_name(b) {
        assert(kind_wire_name(a).len() == kind_wire_name(b).len());
        assert(kind_wire_name(a)[0] == kind_wire_name(b)[0]);
        assert(kind_wire_name(a)[1] == kind_wire_name(b)[1]);
    }
}

/// The names of the kinds of actors, as they are stored and as they are shown.
pub proof fn law_how_actors_are_named(k: ActorKind)
    ensures
        k == ActorKind::System ==> kind_wire_name(k) == "system"@ && kind_display_name(k) == "System"@,
        k == ActorKind::User ==> kind_wire_name(k) == "user"@ && kind_display_name(k) == "User"@,
        k == ActorKind::Agent ==> kind_wire_name(k) == "agent"@ && kind_display_name(k) == "Agent"@,
        k == ActorKind::Tool ==> kind_wire_name(k) == "tool"@ && kind_display_name(k) == "Tool"@,
        k == ActorKind::Sidecar ==> kind_wire_name(k) == "sidecar"@ && kind_display_name(k) == "Sidecar"@,
        k == ActorKind::Runtime ==> kind_wire_name(k) == "runtime"@ && kind_display_name(k) == "Runtime"@,
{
}

} // verus!
