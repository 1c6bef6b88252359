//! The states of a session.
use vstd::prelude::*;

verus! {

#[derive(Debug, Clone, Copy, PartialEq, Eq, Structural)]
pub enum SessionStatus {
    Created,
    Active,
    Interrupted,
    Completed,
    Failed,
    Deleted,
}

/// The session has come to its end.
pub open spec fn session_over(s: SessionStatus) -> bool {
    s == SessionStatus::Completed || s == SessionStatus::Failed || s == SessionStatus::Deleted
}

/// The transitions a session can make.
pub open spec fn session_transition(from: SessionStatus, to: SessionStatus) -> bool {
    match from {
        SessionStatus::Created => to == SessionStatus::Active,
        SessionStatus::Active => to == SessionStatus::Interrupted || to == SessionStatus::Completed
            || to == SessionStatus::Failed,
        SessionStatus::Interrupted => to == SessionStatus::Active,
        SessionStatus::Completed | SessionStatus::Failed => to == SessionStatus::Deleted,
        SessionStatus::Deleted => false,
    }
}

impl SessionStatus {
    pub fn is_terminal(self) -> (b: bool)
        ensures
            b == session_over(self),
    {
        matches!(self, SessionStatus::Completed | SessionStatus::Failed | SessionStatus::Deleted)
    }

    pub fn can_transition_to(self, to: Self) -> (b: bool)
        ensures
            b == session_transition(self, to),
    {
        matches!(
            (self, to),
            (SessionStatus::Created, SessionStatus::Active)
                | (SessionStatus::Active, SessionStatus::Interrupted)
                | (SessionStatus::Interrupted, SessionStatus::Active)
                | (SessionStatus::Active, SessionStatus::Completed)
                | (SessionStatus::Active, SessionStatus::Failed)
                | (SessionStatus::Completed | SessionStatus::Failed, SessionStatus::Deleted)
        )
    }
}

/// A session that is over stays over: all it can still become is deleted.
pub proof fn law_an_ended_session_stays_ended(from: SessionStatus, to: SessionStatus)
    requires
        session_over(from),
        session_transition(from, to),
    ensures
        session_over(to),
        to == SessionStatus::Deleted,
{
}

/// The transitions of a session, all of them, and which of its states are its end.
pub proof fn law_how_sessions_change(from: SessionStatus, to: SessionStatus)
    ensures
        session_transition(from, to) <==> (from == SessionStatus::Created && to
            == SessionStatus::Active) || (from == SessionStatus::Active && to
            == SessionStatus::Interrupted) || (from == SessionStatus::Interrupted && to
            == SessionStatus::Active) || (from == SessionStatus::Active && to
            == SessionStatus::Completed) || (from == SessionStatus::Active && to
            == SessionStatus::Failed) || (from == SessionStatus::Completed && to
            == SessionStatus::Deleted) || (from == SessionStatus::Failed && to
            == SessionStatus::Deleted),
        !session_over(from) <==> from == SessionStatus::Created || from == SessionStatus::Active
            || from == SessionStatus::Interrupted,
{
}

} // verus!
