use vstd::prelude::*;
use vstd::string::StringExecFns;
use crate::api::{ResponseGeneric, ResponseStatus};
use crate::codes::CodesResponse;
use crate::payload::{ErrorPayload, payload_error_text};
use crate::text::{lemma_newlines_as_commas_one_line, newlines_as_commas, replace_newlines};

verus! {

/// HTTP status 400.
pub const STATUS_BAD_REQUEST: u16 = 400;
/// HTTP status 408.
pub const STATUS_REQUEST_TIMEOUT: u16 = 408;
/// HTTP status 500.
pub const STATUS_INTERNAL_SERVER_ERROR: u16 = 500;
/// HTTP status 503.
pub const STATUS_SERVICE_UNAVAILABLE: u16 = 503;

/// Every error that a request handler can end in. Each variant but
/// `Payload` holds the text of the error that caused it.
#[derive(Debug, Clone)]
pub enum ErrorsAll {
    AxumFormRejection(String),
    ChannelsKanal(String),
    DatabaseOperations(String),
    Generic(String),
    Payload(ErrorPayload),
    ValidationError(String),
    Threading(String),
}

/// The text of an error: that of the error it wraps.
pub open spec fn error_text(e: ErrorsAll) -> Seq<char> {
    match e {
        ErrorsAll::AxumFormRejection(m) => m@,
        ErrorsAll::ChannelsKanal(m) => m@,
        ErrorsAll::DatabaseOperations(m) => m@,
        ErrorsAll::Generic(m) => m@,
        ErrorsAll::Payload(p) => payload_error_text(p@),
        ErrorsAll::ValidationError(m) => m@,
        ErrorsAll::Threading(m) => m@,
    }
}

/// The message for an input that failed validation: the error's text in
/// brackets after `Input validation error: `, on one line.
pub open spec fn validation_message(text: Seq<char>) -> Seq<char> {
    newlines_as_commas("Input validation error: ["@ + text + "]"@)
}

/// The HTTP status with which an error is answered.
pub open spec fn error_status(e: ErrorsAll) -> u16 {
    match e {
        ErrorsAll::AxumFormRejection(_) => 400,
        ErrorsAll::Payload(_) => 400,
        ErrorsAll::ValidationError(_) => 400,
        _ => 500,
    }
}

/// The application code with which an error is answered.
pub open spec fn error_code(e: ErrorsAll) -> CodesResponse {
    match e {
        ErrorsAll::AxumFormRejection(_) => CodesResponse::TemplateAskama,
        ErrorsAll::ChannelsKanal(_) => CodesResponse::TemplateAskama,
        ErrorsAll::DatabaseOperations(_) => CodesResponse::DatabaseOperations,
        ErrorsAll::ValidationError(_) => CodesResponse::TemplateAskama,
        _ => CodesResponse::GenericOrUnknown,
    }
}

/// The message with which an error is answered.
pub open spec fn error_message(e: ErrorsAll) -> Seq<char> {
    match e {
        ErrorsAll::AxumFormRejection(_) => validation_message(error_text(e)),
        ErrorsAll::ValidationError(_) => validation_message(error_text(e)),
        _ => error_text(e),
    }
}

impl ErrorsAll {
    /// The error as text: that of the error it wraps.
    pub fn to_string(&self) -> (res: String)
        ensures
            res@ == error_text(*self),
    {
        match self {
            ErrorsAll::AxumFormRejection(m) => m.clone(),
            ErrorsAll::ChannelsKanal(m) => m.clone(),
            ErrorsAll::DatabaseOperations(m) => m.clone(),
            ErrorsAll::Generic(m) => m.clone(),
            ErrorsAll::Payload(p) => p.to_string(),
            ErrorsAll::ValidationError(m) => m.clone(),
            ErrorsAll::Threading(m) => m.clone(),
        }
    }

    /// The answer to an error: its HTTP status and a failure body with its
    /// code and message.
    pub fn into_response(self) -> (res: (u16, ResponseGeneric))
        ensures
            res.0 == error_status(self),
            res.1.status == ResponseStatus::Failure,
            res.1.code == Some(error_code(self)),
            res.1.message is Some,
            res.1.message->0@ == error_message(self),
    {
        let text = self.to_string();
        match self {
            ErrorsAll::AxumFormRejection(_) | ErrorsAll::ValidationError(_) => {
                let framed = String::from_str("Input validation error: [").concat(text.as_str()).concat("]");
                let message = replace_newlines(framed.as_str());
                (
                    STATUS_BAD_REQUEST,
                    ResponseGeneric::new(ResponseStatus::Failure, Some(CodesResponse::TemplateAskama), Some(message)),
                )
            },
            ErrorsAll::ChannelsKanal(_) => (
                STATUS_INTERNAL_SERVER_ERROR,
                ResponseGeneric::new(ResponseStatus::Failure, Some(CodesResponse::TemplateAskama), Some(text)),
            ),
            ErrorsAll::DatabaseOperations(_) => (
                STATUS_INTERNAL_SERVER_ERROR,
                ResponseGeneric::new(ResponseStatus::Failure, Some(CodesResponse::DatabaseOperations), Some(text)),
            ),
            ErrorsAll::Payload(_) => (
                STATUS_BAD_REQUEST,
                ResponseGeneric::new(ResponseStatus::Failure, Some(CodesResponse::GenericOrUnknown), Some(text)),
            ),
            ErrorsAll::Generic(_) | ErrorsAll::Threading(_) => (
                STATUS_INTERNAL_SERVER_ERROR,
                ResponseGeneric::new(ResponseStatus::Failure, Some(CodesResponse::GenericOrUnknown), Some(text)),
            ),
        }
    }
}

/// The answer to an input that failed validation is one line, whatever the
/// error's text.
pub proof fn lemma_validation_message_one_line(text: Seq<char>)
    ensures
        forall|i: int| 0 <= i < validation_message(text).len() ==> #[trigger] validation_message(text)[i] != '\n',
{
    lemma_newlines_as_commas_one_line("Input validation error: ["@ + text + "]"@);
}

/// Errors that the client caused (a rejected form, a bad payload, a failed
/// validation) are answered with 400, all others with 500; every error
/// answer reports failure.
pub proof fn lemma_client_errors_are_bad_requests(e: ErrorsAll)
    ensures
        error_status(e) == 400 <==> (e is AxumFormRejection || e is Payload || e is ValidationError),
        error_status(e) == 500 <==> !(e is AxumFormRejection || e is Payload || e is ValidationError),
{
}

} // verus!
