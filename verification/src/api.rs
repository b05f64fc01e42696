use vstd::prelude::*;
use crate::codes::CodesResponse;

verus! {

/// Whether an answer reports success or failure.
#[derive(Debug, Clone, Copy, PartialEq, Eq, Structural)]
pub enum ResponseStatus {
    Success,
    Failure,
}

impl ResponseStatus {
    /// The status in snake case, as clients see it.
    pub fn as_ref(&self) -> (text: &'static str)
        ensures
            text@ == (match *self {
                ResponseStatus::Success => "success"@,
                ResponseStatus::Failure => "failure"@,
            }),
    {
        match self {
            ResponseStatus::Success => "success",
            ResponseStatus::Failure => "failure",
        }
    }
}

/// The body of every JSON answer of the server.
#[derive(Debug, Clone, PartialEq, Eq)]
pub struct ResponseGeneric {
    pub code: Option<CodesResponse>,
    pub message: Option<String>,
    pub status: ResponseStatus,
}

/// The message that an answer carries for an optional message: the message
/// itself, or the empty text.
pub open spec fn message_or_empty(message: Option<String>) -> Seq<char> {
    match message {
        Some(m) => m@,
        None => Seq::empty(),
    }
}

impl ResponseGeneric {
    /// Builds an answer; its message is always present, empty when none is given.
    pub fn new(status: ResponseStatus, code: Option<CodesResponse>, message: Option<String>) -> (res: Self)
        ensures
            res.status == status,
            res.code == code,
            res.message is Some,
            res.message->0@ == message_or_empty(message),
    {
        let msg = match message {
            Some(x) => x,
            None => String::new(),
        };
        ResponseGeneric { code, status, message: Some(msg) }
    }
}

} // verus!
