use vstd::prelude::*;

verus! {

/// The application codes carried in every JSON answer.
#[derive(Debug, Clone, Copy, PartialEq, Eq, Structural)]
pub enum CodesResponse {
    GenericOrUnknown,
    Overloaded,
    Timeout,
    TemplateAskama,
    DatabaseOperations,
    ValidationError,
    OK,
}

/// The numeric text of each code.
pub open spec fn code_text(code: CodesResponse) -> Seq<char> {
    match code {
        CodesResponse::GenericOrUnknown => "10000"@,
        CodesResponse::Overloaded => "10001"@,
        CodesResponse::Timeout => "10003"@,
        CodesResponse::TemplateAskama => "11000"@,
        CodesResponse::DatabaseOperations => "11001"@,
        CodesResponse::ValidationError => "11002"@,
        CodesResponse::OK => "200"@,
    }
}

impl CodesResponse {
    /// The code as the text that clients see.
    pub fn as_ref(&self) -> (text: &'static str)
        ensures
            text@ == code_text(*self),
    {
        match self {
            CodesResponse::GenericOrUnknown => "10000",
            CodesResponse::Overloaded => "10001",
            CodesResponse::Timeout => "10003",
            CodesResponse::TemplateAskama => "11000",
            CodesResponse::DatabaseOperations => "11001",
            CodesResponse::ValidationError => "11002",
            CodesResponse::OK => "200",
        }
    }
}

} // verus!
