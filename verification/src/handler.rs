use vstd::prelude::*;
use vstd::string::StringExecFns;
use crate::api::{ResponseGeneric, ResponseStatus};
use crate::codes::CodesResponse;
use crate::errors::{STATUS_INTERNAL_SERVER_ERROR, STATUS_REQUEST_TIMEOUT, STATUS_SERVICE_UNAVAILABLE};

verus! {

/// What the service stack can fail with: a request that took too long, a
/// server that sheds load, or any other error, with its text.
#[derive(Debug, Clone)]
pub enum ServiceError {
    Elapsed,
    Overloaded,
    Other(String),
}

/// Answers the errors of the service stack.
pub struct Handler {}

/// The HTTP status for a service error.
pub open spec fn service_error_status(e: ServiceError) -> u16 {
    match e {
        ServiceError::Elapsed => 408,
        ServiceError::Overloaded => 503,
        ServiceError::Other(_) => 500,
    }
}

/// The application code for a service error.
pub open spec fn service_error_code(e: ServiceError) -> CodesResponse {
    match e {
        ServiceError::Elapsed => CodesResponse::Timeout,
        ServiceError::Overloaded => CodesResponse::Overloaded,
        ServiceError::Other(_) => CodesResponse::GenericOrUnknown,
    }
}

/// The message for a service error.
pub open spec fn service_error_message(e: ServiceError) -> Seq<char> {
    match e {
        ServiceError::Elapsed => "request timed out"@,
        ServiceError::Overloaded => "service is overloaded, try again later"@,
        ServiceError::Other(m) => "Unhandled internal error: "@ + m@,
    }
}

impl Handler {
    /// The answer to an error of the service stack: its HTTP status and a
    /// failure body with its code and message.
    pub fn handler_error(error: ServiceError) -> (res: (u16, ResponseGeneric))
        ensures
            res.0 == service_error_status(error),
            res.1.status == ResponseStatus::Failure,
            res.1.code == Some(service_error_code(error)),
            res.1.message is Some,
            res.1.message->0@ == service_error_message(error),
    {
        match error {
            ServiceError::Elapsed => (
                STATUS_REQUEST_TIMEOUT,
                ResponseGeneric::new(
                    ResponseStatus::Failure,
                    Some(CodesResponse::Timeout),
                    Some(String::from_str("request timed out")),
                ),
            ),
            ServiceError::Overloaded => (
                STATUS_SERVICE_UNAVAILABLE,
                ResponseGeneric::new(
                    ResponseStatus::Failure,
                    Some(CodesResponse::Overloaded),
                    Some(String::from_str("service is overloaded, try again later")),
                ),
            ),
            ServiceError::Other(m) => {
                let message = String::from_str("Unhandled internal error: ").concat(m.as_str());
                (
                    STATUS_INTERNAL_SERVER_ERROR,
                    ResponseGeneric::new(ResponseStatus::Failure, Some(CodesResponse::GenericOrUnknown), Some(message)),
                )
            },
        }
    }
}

} // verus!
