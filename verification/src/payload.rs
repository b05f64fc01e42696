use vstd::prelude::*;
use vstd::string::StringExecFns;

verus! {

/// An error about a request body that the server could not accept.
#[derive(Debug, Clone)]
pub struct ErrorPayload {
    message: String,
}

impl View for ErrorPayload {
    type V = Seq<char>;

    /// The message that the error was made with.
    closed spec fn view(&self) -> Seq<char> {
        self.message@
    }
}

/// The text shown for a payload error with message `message`.
pub open spec fn payload_error_text(message: Seq<char>) -> Seq<char> {
    "Invalid payload: "@ + message
}

impl ErrorPayload {
    /// Makes a payload error that carries `message`.
    pub fn new(message: &str) -> (res: Self)
        ensures
            res@ == message@,
    {
        ErrorPayload { message: message.to_owned() }
    }

    /// The error as text: `Invalid payload: ` followed by its message.
    pub fn to_string(&self) -> (res: String)
        ensures
            res@ == payload_error_text(self@),
    {
        let res = String::from_str("Invalid payload: ");
        res.concat(self.message.as_str())
    }
}

} // verus!
