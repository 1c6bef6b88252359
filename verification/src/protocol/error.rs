//! Errors that are reported to callers.
use vstd::prelude::*;

use crate::json::{clone_opt_json, opt_json, Json, JsonView};

verus! {

#[derive(Debug, Clone, Copy, PartialEq, Eq, Structural)]
pub enum ErrorCode {
    SessionNotFound,
    SessionAlreadyTerminal,
    TaskNotFound,
    TaskAlreadyTerminal,
    InvalidTransition,
    PermissionDenied,
    ToolNotFound,
    ToolAlreadyTerminal,
    Internal,
    Serialization,
}

pub open spec fn code_name(c: ErrorCode) -> Seq<char> {
    match c {
        ErrorCode::SessionNotFound => "SessionNotFound"@,
        ErrorCode::SessionAlreadyTerminal => "SessionAlreadyTerminal"@,
        ErrorCode::TaskNotFound => "TaskNotFound"@,
        ErrorCode::TaskAlreadyTerminal => "TaskAlreadyTerminal"@,
        ErrorCode::InvalidTransition => "InvalidTransition"@,
        ErrorCode::PermissionDenied => "PermissionDenied"@,
        ErrorCode::ToolNotFound => "ToolNotFound"@,
        ErrorCode::ToolAlreadyTerminal => "ToolAlreadyTerminal"@,
        ErrorCode::Internal => "Internal"@,
        ErrorCode::Serialization => "Serialization"@,
    }
}

impl ErrorCode {
    pub fn to_string(&self) -> (s: String)
        ensures
            s@ == code_name(*self),
    {
        match self {
            ErrorCode::SessionNotFound => "SessionNotFound".to_owned(),
            ErrorCode::SessionAlreadyTerminal => "SessionAlreadyTerminal".to_owned(),
            ErrorCode::TaskNotFound => "TaskNotFound".to_owned(),
            ErrorCode::TaskAlreadyTerminal => "TaskAlreadyTerminal".to_owned(),
            ErrorCode::InvalidTransition => "InvalidTransition".to_owned(),
            ErrorCode::PermissionDenied => "PermissionDenied".to_owned(),
            ErrorCode::ToolNotFound => "ToolNotFound".to_owned(),
            ErrorCode::ToolAlreadyTerminal => "ToolAlreadyTerminal".to_owned(),
            ErrorCode::Internal => "Internal".to_owned(),
            ErrorCode::Serialization => "Serialization".to_owned(),
        }
    }
}

/// An error with a stable code, a message for people, optional details, and whether
/// the same request may succeed later.
#[derive(Debug)]
pub struct CoreError {
    pub code: ErrorCode,
    pub message: String,
    pub details: Option<Json>,
    pub retryable: bool,
}

pub struct CoreErrorView {
    pub code: ErrorCode,
    pub message: Seq<char>,
    pub details: Option<JsonView>,
    pub retryable: bool,
}

impl View for CoreError {
    type V = CoreErrorView;

    open spec fn view(&self) -> CoreErrorView {
        CoreErrorView {
            code: self.code,
            message: self.message@,
            details: opt_json(self.details),
            retryable: self.retryable,
        }
    }
}

impl Clone for CoreError {
    fn clone(&self) -> (r: Self)
        ensures
            r@ == self@,
    {
        CoreError {
            code: self.code,
            message: self.message.clone(),
            details: clone_opt_json(&self.details),
            retryable: self.retryable,
        }
    }
}

pub open spec fn plain_error(code: ErrorCode, message: Seq<char>) -> CoreErrorView {
    CoreErrorView { code, message, details: None, retryable: false }
}

fn joined_error(code: ErrorCode, before: &str, name: &str) -> (e: CoreError)
    ensures
        e@ == plain_error(code, before@ + name@),
{
    let mut message = before.to_owned();
    message.append(name);
    CoreError { code, message, details: None, retryable: false }
}

impl CoreError {
    pub fn new(code: ErrorCode, message: &str) -> (e: Self)
        ensures
            e@ == plain_error(code, message@),
    {
        CoreError { code, message: message.to_owned(), details: None, retryable: false }
    }

    pub fn with_details(code: ErrorCode, message: &str, details: Json, retryable: bool) -> (e: Self)
        ensures
            e@ == (CoreErrorView {
                code,
                message: message@,
                details: Some(details@),
                retryable,
            }),
    {
        CoreError { code, message: message.to_owned(), details: Some(details), retryable }
    }

    pub fn session_not_found(id: &str) -> (e: Self)
        ensures
            e@ == plain_error(ErrorCode::SessionNotFound, "Session not found: "@ + id@),
    {
        joined_error(ErrorCode::SessionNotFound, "Session not found: ", id)
    }

    pub fn session_already_terminal(id: &str) -> (e: Self)
        ensures
            e@ == plain_error(
                ErrorCode::SessionAlreadyTerminal,
                "Session already terminal: "@ + id@,
            ),
    {
        joined_error(ErrorCode::SessionAlreadyTerminal, "Session already terminal: ", id)
    }

    pub fn task_not_found(id: &str) -> (e: Self)
        ensures
            e@ == plain_error(ErrorCode::TaskNotFound, "Task not found: "@ + id@),
    {
        joined_error(ErrorCode::TaskNotFound, "Task not found: ", id)
    }

    pub fn task_already_terminal(id: &str) -> (e: Self)
        ensures
            e@ == plain_error(ErrorCode::TaskAlreadyTerminal, "Task already terminal: "@ + id@),
    {
        joined_error(ErrorCode::TaskAlreadyTerminal, "Task already terminal: ", id)
    }

    pub fn invalid_transition(from: &str, to: &str) -> (e: Self)
        ensures
            e@ == plain_error(
                ErrorCode::InvalidTransition,
                "Invalid transition: "@ + from@ + " -> "@ + to@,
            ),
    {
        let mut message = "Invalid transition: ".to_owned();
        message.append(from);
        message.append(" -> ");
        message.append(to);
        CoreError {
            code: ErrorCode::InvalidTransition,
            message,
            details: None,
            retryable: false,
        }
    }

    pub fn permission_denied(reason: &str) -> (e: Self)
        ensures
            e@ == plain_error(ErrorCode::PermissionDenied, reason@),
    {
        Self::new(ErrorCode::PermissionDenied, reason)
    }

    pub fn tool_not_found(name: &str) -> (e: Self)
        ensures
            e@ == plain_error(ErrorCode::ToolNotFound, "Tool not found: "@ + name@),
    {
        joined_error(ErrorCode::ToolNotFound, "Tool not found: ", name)
    }

    /// An error of the system itself: the same request may succeed later.
    pub fn internal(msg: &str) -> (e: Self)
        ensures
            e@ == (CoreErrorView {
                code: ErrorCode::Internal,
                message: msg@,
                details: None,
                retryable: true,
            }),
    {
        CoreError {
            code: ErrorCode::Internal,
            message: msg.to_owned(),
            details: None,
            retryable: true,
        }
    }

    pub fn serialization(msg: &str) -> (e: Self)
        ensures
            e@ == plain_error(ErrorCode::Serialization, msg@),
    {
        Self::new(ErrorCode::Serialization, msg)
    }

    pub fn to_string(&self) -> (s: String)
        ensures
            s@ == "["@ + code_name(self@.code) + "] "@ + self@.message,
    {
        let mut s = "[".to_owned();
        let code = self.code.to_string();
        s.append(code.as_str());
        s.append("] ");
        s.append(self.message.as_str());
        s
    }
}

/// An error has the code and the message that it is made with, and is not worth another
/// attempt unless that is said.
pub proof fn law_an_error_says_what_it_is_made_with(code: ErrorCode, message: Seq<char>)
    ensures
        plain_error(code, message).code == code,
        plain_error(code, message).message == message,
        plain_error(code, message).details is None,
        !plain_error(code, message).retryable,
{
}

/// The names of the codes of errors.
pub proof fn law_how_codes_are_named(c: ErrorCode)
    ensures
        c == ErrorCode::SessionNotFound ==> code_name(c) == "SessionNotFound"@,
        c == ErrorCode::SessionAlreadyTerminal ==> code_name(c) == "SessionAlreadyTerminal"@,
        c == ErrorCode::TaskNotFound ==> code_name(c) == "TaskNotFound"@,
        c == ErrorCode::TaskAlreadyTerminal ==> code_name(c) == "TaskAlreadyTerminal"@,
        c == ErrorCode::InvalidTransition ==> code_name(c) == "InvalidTransition"@,
        c == ErrorCode::PermissionDenied ==> code_name(c) == "PermissionDenied"@,
        c == ErrorCode::ToolNotFound ==> code_name(c) == "ToolNotFound"@,
        c == ErrorCode::ToolAlreadyTerminal ==> code_name(c) == "ToolAlreadyTerminal"@,
        c == ErrorCode::Internal ==> code_name(c) == "Internal"@,
        c == ErrorCode::Serialization ==> code_name(c) == "Serialization"@,
{
}

} // verus!
