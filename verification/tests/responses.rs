use this_app::api::{ResponseGeneric, ResponseStatus};
use this_app::codes::CodesResponse;
use this_app::errors::ErrorsAll;
use this_app::handler::{Handler, ServiceError};
use this_app::payload::ErrorPayload;

#[test]
fn codes_have_their_numbers() {
    assert_eq!(CodesResponse::GenericOrUnknown.as_ref(), "10000");
    assert_eq!(CodesResponse::Overloaded.as_ref(), "10001");
    assert_eq!(CodesResponse::Timeout.as_ref(), "10003");
    assert_eq!(CodesResponse::TemplateAskama.as_ref(), "11000");
    assert_eq!(CodesResponse::DatabaseOperations.as_ref(), "11001");
    assert_eq!(CodesResponse::ValidationError.as_ref(), "11002");
    assert_eq!(CodesResponse::OK.as_ref(), "200");
}

#[test]
fn statuses_are_snake_case() {
    assert_eq!(ResponseStatus::Success.as_ref(), "success");
    assert_eq!(ResponseStatus::Failure.as_ref(), "failure");
}

#[test]
fn response_keeps_its_message() {
    let r = ResponseGeneric::new(ResponseStatus::Success, Some(CodesResponse::OK), Some("done".to_string()));
    assert_eq!(r.status, ResponseStatus::Success);
    assert_eq!(r.code, Some(CodesResponse::OK));
    assert_eq!(r.message, Some("done".to_string()));
}

#[test]
fn response_without_message_has_empty_one() {
    let r = ResponseGeneric::new(ResponseStatus::Failure, None, None);
    assert_eq!(r.code, None);
    assert_eq!(r.message, Some(String::new()));
}

#[test]
fn payload_error_text() {
    let p = ErrorPayload::new("missing field `name`");
    assert_eq!(p.to_string(), "Invalid payload: missing field `name`");
}

fn answer(e: ErrorsAll) -> (u16, ResponseGeneric) {
    e.into_response()
}

#[test]
fn form_rejection_is_bad_request_on_one_line() {
    let (status, body) = answer(ErrorsAll::AxumFormRejection("first\nsecond".to_string()));
    assert_eq!(status, 400);
    assert_eq!(body.status, ResponseStatus::Failure);
    assert_eq!(body.code, Some(CodesResponse::TemplateAskama));
    assert_eq!(body.message.unwrap(), "Input validation error: [first, second]");
}

#[test]
fn validation_error_is_bad_request() {
    let (status, body) = answer(ErrorsAll::ValidationError("name: too short\nage: too low".to_string()));
    assert_eq!(status, 400);
    assert_eq!(body.code, Some(CodesResponse::TemplateAskama));
    assert_eq!(body.message.unwrap(), "Input validation error: [name: too short, age: too low]");
}

#[test]
fn channel_error_is_internal() {
    let (status, body) = answer(ErrorsAll::ChannelsKanal("send to a closed channel".to_string()));
    assert_eq!(status, 500);
    assert_eq!(body.code, Some(CodesResponse::TemplateAskama));
    assert_eq!(body.message.unwrap(), "send to a closed channel");
}

#[test]
fn database_error_is_internal() {
    let (status, body) = answer(ErrorsAll::DatabaseOperations("connection refused".to_string()));
    assert_eq!(status, 500);
    assert_eq!(body.code, Some(CodesResponse::DatabaseOperations));
    assert_eq!(body.message.unwrap(), "connection refused");
}

#[test]
fn generic_error_is_internal() {
    let (status, body) = answer(ErrorsAll::Generic("boom\nagain".to_string()));
    assert_eq!(status, 500);
    assert_eq!(body.code, Some(CodesResponse::GenericOrUnknown));
    assert_eq!(body.message.unwrap(), "boom\nagain");
}

#[test]
fn payload_error_is_bad_request() {
    let (status, body) = answer(ErrorsAll::Payload(ErrorPayload::new("bad json")));
    assert_eq!(status, 400);
    assert_eq!(body.code, Some(CodesResponse::GenericOrUnknown));
    assert_eq!(body.message.unwrap(), "Invalid payload: bad json");
}

#[test]
fn threading_error_is_internal() {
    let (status, body) = answer(ErrorsAll::Threading("task 3 panicked".to_string()));
    assert_eq!(status, 500);
    assert_eq!(body.code, Some(CodesResponse::GenericOrUnknown));
    assert_eq!(body.message.unwrap(), "task 3 panicked");
}

#[test]
fn errors_show_what_they_wrap() {
    assert_eq!(ErrorsAll::Generic("x".to_string()).to_string(), "x");
    assert_eq!(ErrorsAll::Payload(ErrorPayload::new("y")).to_string(), "Invalid payload: y");
}

#[test]
fn timeout_is_request_timeout() {
    let (status, body) = Handler::handler_error(ServiceError::Elapsed);
    assert_eq!(status, 408);
    assert_eq!(body.code, Some(CodesResponse::Timeout));
    assert_eq!(body.message.unwrap(), "request timed out");
}

#[test]
fn overload_is_service_unavailable() {
    let (status, body) = Handler::handler_error(ServiceError::Overloaded);
    assert_eq!(status, 503);
    assert_eq!(body.code, Some(CodesResponse::Overloaded));
    assert_eq!(body.message.unwrap(), "service is overloaded, try again later");
}

#[test]
fn other_service_error_is_internal() {
    let (status, body) = Handler::handler_error(ServiceError::Other("disk full".to_string()));
    assert_eq!(status, 500);
    assert_eq!(body.status, ResponseStatus::Failure);
    assert_eq!(body.code, Some(CodesResponse::GenericOrUnknown));
    assert_eq!(body.message.unwrap(), "Unhandled internal error: disk full");
}
