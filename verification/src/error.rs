//! What the API answers when a request fails.
use vstd::prelude::*;

use crate::payload::{string, text_member, Member};

verus! {

/// Why a request to the API failed.
#[derive(Debug)]
pub enum ApiError {
    Unauthorized,
    Forbidden,
    BadRequest(String),
    NotFound(String),
    Conflict(String),
    PayloadTooLarge(String),
    ServiceUnavailable(String),
    Internal(String),
}

/// The model of an error.
pub enum ErrorView {
    Unauthorized,
    Forbidden,
    BadRequest(Seq<char>),
    NotFound(Seq<char>),
    Conflict(Seq<char>),
    PayloadTooLarge(Seq<char>),
    ServiceUnavailable(Seq<char>),
    Internal(Seq<char>),
}

impl View for ApiError {
    type V = ErrorView;

    open spec fn view(&self) -> ErrorView {
        match self {
            ApiError::Unauthorized => ErrorView::Unauthorized,
            ApiError::Forbidden => ErrorView::Forbidden,
            ApiError::BadRequest(message) => ErrorView::BadRequest(message@),
            ApiError::NotFound(message) => ErrorView::NotFound(message@),
            ApiError::Conflict(message) => ErrorView::Conflict(message@),
            ApiError::PayloadTooLarge(message) => ErrorView::PayloadTooLarge(message@),
            ApiError::ServiceUnavailable(message) => ErrorView::ServiceUnavailable(message@),
            ApiError::Internal(message) => ErrorView::Internal(message@),
        }
    }
}

/// The result of a request to the API.
pub type ApiResult<T> = Result<T, ApiError>;

/// The message of an error, for those who run the system.
pub open spec fn error_text(error: ErrorView) -> Seq<char> {
    match error {
        ErrorView::Unauthorized => "authentication required"@,
        ErrorView::Forbidden => "forbidden"@,
        ErrorView::BadRequest(message) => message,
        ErrorView::NotFound(message) => message,
        ErrorView::Conflict(message) => message,
        ErrorView::PayloadTooLarge(message) => message,
        ErrorView::ServiceUnavailable(message) => message,
        ErrorView::Internal(message) => message,
    }
}

/// The answer to a failed request: a status and a message. What went wrong
/// inside is not told.
pub open spec fn error_answer(error: ErrorView) -> (u16, Seq<char>) {
    match error {
        ErrorView::Unauthorized => (401, "authentication required"@),
        ErrorView::Forbidden => (403, "forbidden"@),
        ErrorView::BadRequest(message) => (400, message),
        ErrorView::NotFound(message) => (404, message),
        ErrorView::Conflict(message) => (409, message),
        ErrorView::PayloadTooLarge(message) => (413, message),
        ErrorView::ServiceUnavailable(message) => (503, message),
        ErrorView::Internal(_) => (500, "GridOps could not complete the request."@),
    }
}

/// A result that fails exactly with the given error, and succeeds without one.
pub open spec fn fails_as(result: Result<(), ApiError>, error: Option<ErrorView>) -> bool {
    match error {
        Some(expected) => result is Err && result->Err_0@ == expected,
        None => result is Ok,
    }
}

impl ApiError {
    /// The message of the error, for those who run the system.
    pub fn message(&self) -> (r: String)
        ensures
            r@ == error_text(self@),
    {
        match self {
            ApiError::Unauthorized => "authentication required".to_owned(),
            ApiError::Forbidden => "forbidden".to_owned(),
            ApiError::BadRequest(message) => message.clone(),
            ApiError::NotFound(message) => message.clone(),
            ApiError::Conflict(message) => message.clone(),
            ApiError::PayloadTooLarge(message) => message.clone(),
            ApiError::ServiceUnavailable(message) => message.clone(),
            ApiError::Internal(message) => message.clone(),
        }
    }

    /// The answer to a failed request.
    pub fn into_response(self) -> (r: (u16, String))
        ensures
            (r.0, r.1@) == error_answer(self@),
    {
        match self {
            ApiError::Unauthorized => (401, "authentication required".to_owned()),
            ApiError::Forbidden => (403, "forbidden".to_owned()),
            ApiError::BadRequest(message) => (400, message),
            ApiError::NotFound(message) => (404, message),
            ApiError::Conflict(message) => (409, message),
            ApiError::PayloadTooLarge(message) => (413, message),
            ApiError::ServiceUnavailable(message) => (503, message),
            ApiError::Internal(_) => (500, "GridOps could not complete the request.".to_owned()),
        }
    }

    /// The error for an answer of the runner manager that is no success, with
    /// the message among the members of its body where it has one.
    pub fn from_manager(status: u16, status_text: &str, answer: &[Member]) -> (r: ApiError)
        ensures
            ({
                let text = match text_member(answer@, "error"@) {
                    Some(message) => message,
                    None => "Runner manager request failed ("@ + status_text@ + ")."@,
                };
                r@ == if status == 404 {
                    ErrorView::NotFound(text)
                } else if status == 409 || status == 429 {
                    ErrorView::Conflict(text)
                } else {
                    ErrorView::ServiceUnavailable(text)
                }
            }),
    {
        let text: String = match string(answer, "error") {
            Some(message) => message.to_owned(),
            None => crate::text::concat3("Runner manager request failed (", status_text, ")."),
        };
        if status == 404 {
            ApiError::NotFound(text)
        } else if status == 409 || status == 429 {
            ApiError::Conflict(text)
        } else {
            ApiError::ServiceUnavailable(text)
        }
    }
}

/// What goes wrong inside is never part of an answer.
pub proof fn internal_details_are_not_answered(a: Seq<char>, b: Seq<char>)
    ensures
        error_answer(ErrorView::Internal(a)) == error_answer(ErrorView::Internal(b)),
{
}

/// Each error is answered with the status of its reason and with its message.
pub proof fn errors_have_the_status_of_their_reason(message: Seq<char>)
    ensures
        error_answer(ErrorView::Unauthorized) == (401u16, "authentication required"@),
        error_answer(ErrorView::Forbidden) == (403u16, "forbidden"@),
        error_answer(ErrorView::BadRequest(message)) == (400u16, message),
        error_answer(ErrorView::NotFound(message)) == (404u16, message),
        error_answer(ErrorView::Conflict(message)) == (409u16, message),
        error_answer(ErrorView::PayloadTooLarge(message)) == (413u16, message),
        error_answer(ErrorView::ServiceUnavailable(message)) == (503u16, message),
        error_answer(ErrorView::Internal(message)) == (
            500u16,
            "GridOps could not complete the request."@,
        ),
        error_text(ErrorView::Internal(message)) == message,
        error_text(ErrorView::Conflict(message)) == message,
{
}

/// A result fails as expected exactly if it fails with the error that is expected, and succeeds
/// where none is.
pub proof fn results_fail_as_expected(result: Result<(), ApiError>, error: ErrorView)
    ensures
        fails_as(result, None) <==> result is Ok,
        fails_as(result, Some(error)) <==> result is Err && result->Err_0@ == error,
{
}

}
