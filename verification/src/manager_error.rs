//! What the runner manager answers when a request fails.
use vstd::prelude::*;

verus! {

/// Why a request to the runner manager failed.
#[derive(Debug)]
pub enum ManagerError {
    Unauthorized,
    Forbidden(String),
    BadRequest(String),
    Conflict(String),
    Guardrail { code: &'static str, message: String },
    NotFound(String),
    Upstream { status: u16, code: String, message: String },
    Internal(String),
}

/// The model of a manager's error.
pub enum ManagerErrorView {
    Unauthorized,
    Forbidden(Seq<char>),
    BadRequest(Seq<char>),
    Conflict(Seq<char>),
    Guardrail { code: Seq<char>, message: Seq<char> },
    NotFound(Seq<char>),
    Upstream { status: u16, code: Seq<char>, message: Seq<char> },
    Internal(Seq<char>),
}

impl View for ManagerError {
    type V = ManagerErrorView;

    open spec fn view(&self) -> ManagerErrorView {
        match self {
            ManagerError::Unauthorized => ManagerErrorView::Unauthorized,
            ManagerError::Forbidden(message) => ManagerErrorView::Forbidden(message@),
            ManagerError::BadRequest(message) => ManagerErrorView::BadRequest(message@),
            ManagerError::Conflict(message) => ManagerErrorView::Conflict(message@),
            ManagerError::Guardrail { code, message } => ManagerErrorView::Guardrail {
                code: code@,
                message: message@,
            },
            ManagerError::NotFound(message) => ManagerErrorView::NotFound(message@),
            ManagerError::Upstream { status, code, message } => ManagerErrorView::Upstream {
                status: *status,
                code: code@,
                message: message@,
            },
            ManagerError::Internal(message) => ManagerErrorView::Internal(message@),
        }
    }
}

/// The answer to a failed request: a status, a code and a message. What went
/// wrong inside is not told.
pub open spec fn answer(error: ManagerErrorView) -> (u16, Seq<char>, Seq<char>) {
    match error {
        ManagerErrorView::Unauthorized => (401, "unauthorized"@, "Unauthorized"@),
        ManagerErrorView::Forbidden(message) => (403, "forbidden"@, message),
        ManagerErrorView::BadRequest(message) => (400, "bad_request"@, message),
        ManagerErrorView::Conflict(message) => (409, "conflict"@, message),
        ManagerErrorView::Guardrail { code, message } => (429, code, message),
        ManagerErrorView::NotFound(message) => (404, "not_found"@, message),
        ManagerErrorView::Upstream { status, code, message } => (status, code, message),
        ManagerErrorView::Internal(_) => (
            500,
            "internal_error"@,
            "Runner manager request failed."@,
        ),
    }
}

impl ManagerError {
    /// The answer to a failed request.
    pub fn into_response(self) -> (r: (u16, String, String))
        ensures
            (r.0, r.1@, r.2@) == answer(self@),
    {
        match self {
            ManagerError::Unauthorized => (
                401,
                "unauthorized".to_owned(),
                "Unauthorized".to_owned(),
            ),
            ManagerError::Forbidden(message) => (403, "forbidden".to_owned(), message),
            ManagerError::BadRequest(message) => (400, "bad_request".to_owned(), message),
            ManagerError::Conflict(message) => (409, "conflict".to_owned(), message),
            ManagerError::Guardrail { code, message } => (429, code.to_owned(), message),
            ManagerError::NotFound(message) => (404, "not_found".to_owned(), message),
            ManagerError::Upstream { status, code, message } => (status, code, message),
            ManagerError::Internal(_) => (
                500,
                "internal_error".to_owned(),
                "Runner manager request failed.".to_owned(),
            ),
        }
    }

    /// The error for an answer of the Docker daemon, by its status where there
    /// was one.
    pub fn from_docker(status: Option<u16>, message: &str) -> (r: ManagerError)
        ensures
            r@ == if status == Some(404u16) {
                ManagerErrorView::NotFound("Managed runner container was not found."@)
            } else if status == Some(409u16) {
                ManagerErrorView::Conflict(message@)
            } else {
                ManagerErrorView::Internal(message@)
            },
    {
        match status {
            Some(404) => ManagerError::NotFound(
                "Managed runner container was not found.".to_owned(),
            ),
            Some(409) => ManagerError::Conflict(message.to_owned()),
            _ => ManagerError::Internal(message.to_owned()),
        }
    }
}

/// Each error is answered with the status and the code of its reason; a guardrail and an answer
/// of another service have their own codes; and of what went wrong inside nothing is told.
pub proof fn failures_have_the_status_of_their_reason(
    status: u16,
    code: Seq<char>,
    message: Seq<char>,
    other: Seq<char>,
)
    ensures
        answer(ManagerErrorView::Unauthorized) == (401u16, "unauthorized"@, "Unauthorized"@),
        answer(ManagerErrorView::Forbidden(message)) == (403u16, "forbidden"@, message),
        answer(ManagerErrorView::BadRequest(message)) == (400u16, "bad_request"@, message),
        answer(ManagerErrorView::Conflict(message)) == (409u16, "conflict"@, message),
        answer(ManagerErrorView::NotFound(message)) == (404u16, "not_found"@, message),
        answer(ManagerErrorView::Guardrail { code, message }) == (429u16, code, message),
        answer(ManagerErrorView::Upstream { status, code, message }) == (status, code, message),
        answer(ManagerErrorView::Internal(message)) == answer(ManagerErrorView::Internal(other)),
        answer(ManagerErrorView::Internal(message)) == (
            500u16,
            "internal_error"@,
            "Runner manager request failed."@,
        ),
{
}

}
