//! State machines.
use vstd::prelude::*;

verus! {

/// Something that is in one of several states and moves between them by events.
pub trait StateMachine: Sized {
    type State;

    type Event;

    fn current_state(&self) -> Self::State;

    fn apply(&mut self, event: Self::Event) -> Result<(), TransitionError>;

    fn can_transition(from: Self::State, to: Self::State) -> bool;
}

#[derive(Debug, Clone, PartialEq, Eq)]
pub enum TransitionError {
    Invalid { from: String, to: String },
    Terminal { state: String },
}

/// A text in quotation marks, with the escapes of Rust's debug output.
pub uninterp spec fn quoted(s: Seq<char>) -> Seq<char>;

/// The debug output of `str`: the text in quotation marks with escapes, a function of
/// the text alone.
#[verifier::external_body]
fn quote(s: &str) -> (r: String)
    ensures
        r@ == quoted(s@),
{
    format!("{:?}", s)
}

impl TransitionError {
    pub fn to_string(&self) -> (s: String)
        ensures
            s@ == match self {
                TransitionError::Invalid { from, to } => "Invalid transition: "@ + quoted(from@)
                    + " -> "@ + quoted(to@),
                TransitionError::Terminal { state } => "Terminal state: "@ + quoted(state@),
            },
    {
        match self {
            TransitionError::Invalid { from, to } => {
                let a = quote(from.as_str());
                let b = quote(to.as_str());
                invalid_transition_text(a.as_str(), b.as_str())
            },
            TransitionError::Terminal { state } => {
                let a = quote(state.as_str());
                terminal_state_text(a.as_str())
            },
        }
    }
}

/// The message about a transition between two states, given as they are shown.
pub fn invalid_transition_text(from: &str, to: &str) -> (s: String)
    ensures
        s@ == "Invalid transition: "@ + from@ + " -> "@ + to@,
{
    let mut s = "Invalid transition: ".to_owned();
    s.append(from);
    s.append(" -> ");
    s.append(to);
    s
}

/// The message about a state that is the end, given as it is shown.
pub fn terminal_state_text(state: &str) -> (s: String)
    ensures
        s@ == "Terminal state: "@ + state@,
{
    let mut s = "Terminal state: ".to_owned();
    s.append(state);
    s
}

} // verus!
