//! What is reported when a guard trips, and the standard answer to such a report.
use vstd::prelude::*;

use crate::agent::failure::{kind_name, ToolFailureErrorKind};
use crate::agent::failure_guard::{DecisionView, LoopGuardDecision};
use crate::json::{lemma_shows, shows, Json, JsonNumber, JsonView};
use crate::text::{lower_string, lower_text, opt_text, same_text};

verus! {

/// A report that a call keeps failing because of the state of the session. It
/// carries the fingerprint of the arguments, never the arguments.
#[derive(Debug)]
pub struct ToolFailureLoopEscalation {
    pub session_id: String,
    pub agent_id: String,
    pub agent_name: String,
    pub task_id: String,
    pub tool_name: String,
    pub args_hash: String,
    pub error_kind: ToolFailureErrorKind,
    pub error_code: String,
    pub count: usize,
    pub threshold: usize,
    pub requires_escalation: bool,
    pub last_error_message: String,
}

pub struct EscalationView {
    pub session_id: Seq<char>,
    pub agent_id: Seq<char>,
    pub agent_name: Seq<char>,
    pub task_id: Seq<char>,
    pub tool_name: Seq<char>,
    pub args_hash: Seq<char>,
    pub error_kind: ToolFailureErrorKind,
    pub error_code: Seq<char>,
    pub count: nat,
    pub threshold: nat,
    pub requires_escalation: bool,
    pub last_error_message: Seq<char>,
}

impl View for ToolFailureLoopEscalation {
    type V = EscalationView;

    open spec fn view(&self) -> EscalationView {
        EscalationView {
            session_id: self.session_id@,
            agent_id: self.agent_id@,
            agent_name: self.agent_name@,
            task_id: self.task_id@,
            tool_name: self.tool_name@,
            args_hash: self.args_hash@,
            error_kind: self.error_kind,
            error_code: self.error_code@,
            count: self.count as nat,
            threshold: self.threshold as nat,
            requires_escalation: self.requires_escalation,
            last_error_message: self.last_error_message@,
        }
    }
}

impl Clone for ToolFailureLoopEscalation {
    fn clone(&self) -> (r: Self)
        ensures
            r@ == self@,
    {
        ToolFailureLoopEscalation {
            session_id: self.session_id.clone(),
            agent_id: self.agent_id.clone(),
            agent_name: self.agent_name.clone(),
            task_id: self.task_id.clone(),
            tool_name: self.tool_name.clone(),
            args_hash: self.args_hash.clone(),
            error_kind: self.error_kind,
            error_code: self.error_code.clone(),
            count: self.count,
            threshold: self.threshold,
            requires_escalation: self.requires_escalation,
            last_error_message: self.last_error_message.clone(),
        }
    }
}

/// Whose call failed.
pub struct Caller {
    pub session_id: Seq<char>,
    pub agent_id: Seq<char>,
    pub agent_name: Seq<char>,
    pub task_id: Seq<char>,
}

/// The report about a decision of a guard.
pub open spec fn escalation_of(
    d: DecisionView,
    caller: Caller,
    tool_name: Seq<char>,
    threshold: nat,
    last_error_message: Seq<char>,
) -> EscalationView {
    EscalationView {
        session_id: caller.session_id,
        agent_id: caller.agent_id,
        agent_name: caller.agent_name,
        task_id: caller.task_id,
        tool_name,
        args_hash: d.signature.args_hash,
        error_kind: d.error_kind,
        error_code: d.signature.error_code,
        count: d.count,
        threshold,
        requires_escalation: d.requires_escalation,
        last_error_message,
    }
}

/// A report as JSON.
pub open spec fn escalation_json(e: EscalationView) -> JsonView {
    JsonView::Object(
        seq![
            ("agent_id"@, JsonView::String(e.agent_id)),
            ("agent_name"@, JsonView::String(e.agent_name)),
            ("args_hash"@, JsonView::String(e.args_hash)),
            ("count"@, JsonView::Number(JsonNumber::Unsigned(e.count as u64))),
            ("error_code"@, JsonView::String(e.error_code)),
            ("error_kind"@, JsonView::String(kind_name(e.error_kind))),
            ("last_error_message"@, JsonView::String(e.last_error_message)),
            ("requires_escalation"@, JsonView::Bool(e.requires_escalation)),
            ("session_id"@, JsonView::String(e.session_id)),
            ("task_id"@, JsonView::String(e.task_id)),
            ("threshold"@, JsonView::Number(JsonNumber::Unsigned(e.threshold as u64))),
            ("tool_name"@, JsonView::String(e.tool_name)),
        ],
    )
}

impl ToolFailureLoopEscalation {
    /// The report about a decision that has tripped.
    pub fn from_tripped(
        decision: &LoopGuardDecision,
        session_id: &str,
        agent_id: &str,
        agent_name: &str,
        task_id: &str,
        tool_name: &str,
        threshold: usize,
        last_error_message: &str,
    ) -> (e: Self)
        ensures
            e@ == escalation_of(
                decision@,
                (Caller {
                    session_id: session_id@,
                    agent_id: agent_id@,
                    agent_name: agent_name@,
                    task_id: task_id@,
                }),
                tool_name@,
                threshold as nat,
                last_error_message@,
            ),
    {
        ToolFailureLoopEscalation {
            session_id: session_id.to_owned(),
            agent_id: agent_id.to_owned(),
            agent_name: agent_name.to_owned(),
            task_id: task_id.to_owned(),
            tool_name: tool_name.to_owned(),
            args_hash: decision.signature.args_hash.clone(),
            error_kind: decision.error_kind,
            error_code: decision.signature.error_code.clone(),
            count: decision.count,
            threshold,
            requires_escalation: decision.requires_escalation,
            last_error_message: last_error_message.to_owned(),
        }
    }

    /// Whether the report is worth a signal.
    pub fn warrants_signal(&self) -> (b: bool)
        ensures
            b == self@.requires_escalation,
    {
        self.requires_escalation
    }

    /// The report as JSON.
    pub fn to_json(&self) -> (r: Json)
        ensures
            r@ == escalation_json(self@),
    {
        let r = Json::object().with("agent_id", Json::text(self.agent_id.as_str())).with(
            "agent_name",
            Json::text(self.agent_name.as_str()),
        ).with("args_hash", Json::text(self.args_hash.as_str())).with(
            "count",
            Json::number(self.count as u64),
        ).with("error_code", Json::text(self.error_code.as_str())).with(
            "error_kind",
            Json::text(self.error_kind.as_str()),
        ).with("last_error_message", Json::text(self.last_error_message.as_str())).with(
            "requires_escalation",
            Json::Bool(self.requires_escalation),
        ).with("session_id", Json::text(self.session_id.as_str())).with(
            "task_id",
            Json::text(self.task_id.as_str()),
        ).with("threshold", Json::number(self.threshold as u64)).with(
            "tool_name",
            Json::text(self.tool_name.as_str()),
        );
        assert(r@->Object_0 =~= escalation_json(self@)->Object_0);
        r
    }
}

/// The answer to an escalation.
#[derive(Debug, Clone, Copy, PartialEq, Eq, Structural)]
pub enum EscalationAction {
    /// Widen the permission mode and let the call be tried again.
    Approved,
    /// Trying again cannot help.
    Rejected,
    /// Somebody has to judge.
    Interactive,
}

pub open spec fn action_name(a: EscalationAction) -> Seq<char> {
    match a {
        EscalationAction::Approved => "approved"@,
        EscalationAction::Rejected => "rejected"@,
        EscalationAction::Interactive => "interactive"@,
    }
}

impl EscalationAction {
    pub fn as_decision_str(self) -> (s: &'static str)
        ensures
            s@ == action_name(self),
    {
        match self {
            EscalationAction::Approved => "approved",
            EscalationAction::Rejected => "rejected",
            EscalationAction::Interactive => "interactive",
        }
    }
}

#[derive(Debug, Clone, PartialEq, Eq)]
pub struct EscalationAutoResponse {
    pub action: EscalationAction,
    /// The name of the action.
    pub decision: &'static str,
    /// Why this action.
    pub reason: &'static str,
    pub error_kind: ToolFailureErrorKind,
}

/// The standard answer to a failure of this kind.
pub open spec fn standard_action(kind: ToolFailureErrorKind) -> EscalationAction {
    match kind {
        ToolFailureErrorKind::Permission
        | ToolFailureErrorKind::Network => EscalationAction::Approved,
        ToolFailureErrorKind::Sandbox
        | ToolFailureErrorKind::Mode
        | ToolFailureErrorKind::WriteScope
        | ToolFailureErrorKind::Schema => EscalationAction::Rejected,
        _ => EscalationAction::Interactive,
    }
}

pub open spec fn standard_reason(kind: ToolFailureErrorKind) -> Seq<char> {
    match kind {
        ToolFailureErrorKind::Permission
        | ToolFailureErrorKind::Network =>
            "permission/network failure: auto-escalate permission mode and approve retry"@,
        ToolFailureErrorKind::Sandbox =>
            "sandbox failure: reject; environment issue, retry cannot fix"@,
        ToolFailureErrorKind::Mode
        | ToolFailureErrorKind::WriteScope
        | ToolFailureErrorKind::Schema =>
            "mode/write_scope/schema failure: reject; retry needs mode change or different args"@,
        _ => "non-state/transient failure: interactive; surface for human or Leader judgement"@,
    }
}

/// The permission mode that an answer leads to, where it changes it.
pub open spec fn mode_after(action: EscalationAction, from_mode: Seq<char>) -> Option<Seq<char>> {
    if action != EscalationAction::Approved {
        None
    } else if lower_text(from_mode) == "yolo"@ {
        Some("yolo"@)
    } else {
        Some("networked"@)
    }
}

impl EscalationAutoResponse {
    /// The permission mode that an approval leads to from `from_mode`; no other
    /// answer changes the mode.
    pub fn target_mode(&self, from_mode: &str) -> (m: Option<String>)
        ensures
            opt_text(m) == mode_after(self.action, from_mode@),
            match m {
                Some(mode) => self.action == EscalationAction::Approved && mode@ == if lower_text(
                    from_mode@,
                ) == "yolo"@ {
                    "yolo"@
                } else {
                    "networked"@
                },
                None => self.action != EscalationAction::Approved,
            },
    {
        match self.action {
            EscalationAction::Approved => {
                let lower = lower_string(from_mode);
                if same_text(lower.as_str(), "yolo") {
                    Some("yolo".to_owned())
                } else {
                    Some("networked".to_owned())
                }
            },
            EscalationAction::Rejected | EscalationAction::Interactive => None,
        }
    }

    /// The answer as JSON.
    pub fn to_json(&self) -> (r: Json)
        ensures
            r@ == JsonView::Object(
                seq![
                    ("action"@, JsonView::String(action_name(self.action))),
                    ("decision"@, JsonView::String(self.decision@)),
                    ("error_kind"@, JsonView::String(kind_name(self.error_kind))),
                    ("reason"@, JsonView::String(self.reason@)),
                ],
            ),
    {
        let r = Json::object().with("action", Json::text(self.action.as_decision_str())).with(
            "decision",
            Json::text(self.decision),
        ).with("error_kind", Json::text(self.error_kind.as_str())).with(
            "reason",
            Json::text(self.reason),
        );
        assert(r@->Object_0 =~= seq![
            ("action"@, JsonView::String(action_name(self.action))),
            ("decision"@, JsonView::String(self.decision@)),
            ("error_kind"@, JsonView::String(kind_name(self.error_kind))),
            ("reason"@, JsonView::String(self.reason@)),
        ]);
        r
    }
}

/// The standard answer to an escalation.
pub fn escalation_auto_response(error_kind: ToolFailureErrorKind) -> (r: EscalationAutoResponse)
    ensures
        r.action == standard_action(error_kind),
        r.decision@ == action_name(r.action),
        r.reason@ == standard_reason(error_kind),
        r.error_kind == error_kind,
{
    match error_kind {
        ToolFailureErrorKind::Permission
        | ToolFailureErrorKind::Network => EscalationAutoResponse {
            action: EscalationAction::Approved,
            decision: EscalationAction::Approved.as_decision_str(),
            reason: "permission/network failure: auto-escalate permission mode and approve retry",
            error_kind,
        },
        ToolFailureErrorKind::Sandbox => EscalationAutoResponse {
            action: EscalationAction::Rejected,
            decision: EscalationAction::Rejected.as_decision_str(),
            reason: "sandbox failure: reject; environment issue, retry cannot fix",
            error_kind,
        },
        ToolFailureErrorKind::Mode
        | ToolFailureErrorKind::WriteScope
        | ToolFailureErrorKind::Schema => EscalationAutoResponse {
            action: EscalationAction::Rejected,
            decision: EscalationAction::Rejected.as_decision_str(),
            reason:
                "mode/write_scope/schema failure: reject; retry needs mode change or different args",
            error_kind,
        },
        ToolFailureErrorKind::Execution
        | ToolFailureErrorKind::Timeout
        | ToolFailureErrorKind::Aborted
        | ToolFailureErrorKind::Precondition
        | ToolFailureErrorKind::Other => EscalationAutoResponse {
            action: EscalationAction::Interactive,
            decision: EscalationAction::Interactive.as_decision_str(),
            reason:
                "non-state/transient failure: interactive; surface for human or Leader judgement",
            error_kind,
        },
    }
}

/// A failure that the state of the session causes is never left to somebody's
/// judgement, and any other always is.
pub proof fn law_state_errors_are_decided(kind: ToolFailureErrorKind)
    ensures
        crate::agent::failure::state_error(kind) <==> standard_action(kind)
            != EscalationAction::Interactive,
{
}

/// Which failures are answered how: lack of permission or network is approved, what trying
/// again cannot help is rejected, anything else is left to somebody's judgement.
pub proof fn law_how_failures_are_answered(kind: ToolFailureErrorKind)
    ensures
        standard_action(kind) == EscalationAction::Approved <==> kind
            == ToolFailureErrorKind::Permission || kind == ToolFailureErrorKind::Network,
        standard_action(kind) == EscalationAction::Rejected <==> kind
            == ToolFailureErrorKind::Sandbox || kind == ToolFailureErrorKind::Mode || kind
            == ToolFailureErrorKind::WriteScope || kind == ToolFailureErrorKind::Schema,
        standard_action(kind) == EscalationAction::Interactive <==> kind
            == ToolFailureErrorKind::Execution || kind == ToolFailureErrorKind::Timeout || kind
            == ToolFailureErrorKind::Aborted || kind == ToolFailureErrorKind::Precondition || kind
            == ToolFailureErrorKind::Other,
{
}

/// Only an approval changes the permission mode: it stays the widest where it is, and
/// becomes the networked one from any other.
pub proof fn law_only_approvals_change_the_mode(action: EscalationAction, from_mode: Seq<char>)
    ensures
        mode_after(action, from_mode) is Some <==> action == EscalationAction::Approved,
        action == EscalationAction::Approved && lower_text(from_mode) == "yolo"@ ==> mode_after(
            action,
            from_mode,
        ) == Some("yolo"@),
        action == EscalationAction::Approved && lower_text(from_mode) != "yolo"@ ==> mode_after(
            action,
            from_mode,
        ) == Some("networked"@),
{
}

/// A report says whose call failed, how, how often, and why the guard tripped; written as
/// JSON it says the same.
pub proof fn law_a_report_says_what_failed(
    d: DecisionView,
    caller: Caller,
    tool_name: Seq<char>,
    threshold: nat,
    message: Seq<char>,
)
    ensures
        ({
            let e = escalation_of(d, caller, tool_name, threshold, message);
            let v = escalation_json(e);
            &&& e.session_id == caller.session_id && e.agent_id == caller.agent_id
                && e.agent_name == caller.agent_name && e.task_id == caller.task_id
            &&& e.tool_name == tool_name && e.threshold == threshold && e.last_error_message
                == message
            &&& e.args_hash == d.signature.args_hash && e.error_code == d.signature.error_code
            &&& e.error_kind == d.error_kind && e.count == d.count && e.requires_escalation
                == d.requires_escalation
            &&& shows(v, "agent_id"@, JsonView::String(caller.agent_id))
            &&& shows(v, "agent_name"@, JsonView::String(caller.agent_name))
            &&& shows(v, "session_id"@, JsonView::String(caller.session_id))
            &&& shows(v, "task_id"@, JsonView::String(caller.task_id))
            &&& shows(v, "tool_name"@, JsonView::String(tool_name))
            &&& shows(v, "args_hash"@, JsonView::String(d.signature.args_hash))
            &&& shows(v, "count"@, JsonView::Number(JsonNumber::Unsigned(d.count as u64)))
            &&& shows(v, "last_error_message"@, JsonView::String(message))
            &&& shows(v, "requires_escalation"@, JsonView::Bool(d.requires_escalation))
            &&& shows(v, "threshold"@, JsonView::Number(JsonNumber::Unsigned(threshold as u64)))
            &&& shows(v, "error_kind"@, JsonView::String(kind_name(d.error_kind)))
            &&& shows(v, "error_code"@, JsonView::String(d.signature.error_code))
            &&& v->Object_0.len() == 12
        }),
{
    let v = escalation_json(escalation_of(d, caller, tool_name, threshold, message));
    lemma_shows(v, 0);
    lemma_shows(v, 1);
    lemma_shows(v, 2);
    lemma_shows(v, 3);
    lemma_shows(v, 4);
    lemma_shows(v, 5);
    lemma_shows(v, 6);
    lemma_shows(v, 7);
    lemma_shows(v, 8);
    lemma_shows(v, 9);
    lemma_shows(v, 10);
    lemma_shows(v, 11);
}

/// The names of the answers to escalations.
pub proof fn law_how_answers_are_named(action: EscalationAction)
    ensures
        action == EscalationAction::Approved ==> action_name(action) == "approved"@,
        action == EscalationAction::Rejected ==> action_name(action) == "rejected"@,
        action == EscalationAction::Interactive ==> action_name(action) == "interactive"@,
{
}

/// Every failure is answered with the reason for the answer; it names what is done with it.
pub proof fn law_every_answer_has_its_reason(kind: ToolFailureErrorKind)
    ensures
        kind == ToolFailureErrorKind::Permission || kind == ToolFailureErrorKind::Network
            ==> standard_reason(kind)
            == "permission/network failure: auto-escalate permission mode and approve retry"@,
        kind == ToolFailureErrorKind::Sandbox ==> standard_reason(kind)
            == "sandbox failure: reject; environment issue, retry cannot fix"@,
        kind == ToolFailureErrorKind::Mode || kind == ToolFailureErrorKind::WriteScope || kind
            == ToolFailureErrorKind::Schema ==> standard_reason(kind)
            == "mode/write_scope/schema failure: reject; retry needs mode change or different args"@,
        standard_action(kind) == EscalationAction::Interactive ==> standard_reason(kind)
            == "non-state/transient failure: interactive; surface for human or Leader judgement"@,
{
}

} // verus!
