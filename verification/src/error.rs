//! What a request to the speech service can fail with.
use crate::text;
use vstd::prelude::*;

verus! {

/// A failed request, with the message for the caller.
#[derive(Debug)]
pub enum ApiError {
    BadRequest(String),
    Conflict(String),
    NotFound(String),
    ServiceUnavailable(String),
    Internal(String),
}

/// The class of a failure.
#[derive(Clone, Copy, Debug, PartialEq, Eq, Structural)]
pub enum ErrorKind {
    BadRequest,
    Conflict,
    NotFound,
    ServiceUnavailable,
    Internal,
}

/// The name of a class of failures in an answer.
pub open spec fn code_of(kind: ErrorKind) -> Seq<char> {
    match kind {
        ErrorKind::BadRequest => "bad_request"@,
        ErrorKind::Conflict => "conflict"@,
        ErrorKind::NotFound => "not_found"@,
        ErrorKind::ServiceUnavailable => "service_unavailable"@,
        ErrorKind::Internal => "internal_error"@,
    }
}

/// The HTTP status of a class of failures.
pub open spec fn status_of(kind: ErrorKind) -> u16 {
    match kind {
        ErrorKind::BadRequest => 400,
        ErrorKind::Conflict => 409,
        ErrorKind::NotFound => 404,
        ErrorKind::ServiceUnavailable => 503,
        ErrorKind::Internal => 500,
    }
}

impl ApiError {
    /// The class of the failure.
    pub open spec fn kind(self) -> ErrorKind {
        match self {
            ApiError::BadRequest(_) => ErrorKind::BadRequest,
            ApiError::Conflict(_) => ErrorKind::Conflict,
            ApiError::NotFound(_) => ErrorKind::NotFound,
            ApiError::ServiceUnavailable(_) => ErrorKind::ServiceUnavailable,
            ApiError::Internal(_) => ErrorKind::Internal,
        }
    }

    /// The message.
    pub open spec fn text(self) -> Seq<char> {
        match self {
            ApiError::BadRequest(m) => m@,
            ApiError::Conflict(m) => m@,
            ApiError::NotFound(m) => m@,
            ApiError::ServiceUnavailable(m) => m@,
            ApiError::Internal(m) => m@,
        }
    }

    /// The failure has this class and this message.
    pub open spec fn says(self, kind: ErrorKind, text: Seq<char>) -> bool {
        self.kind() == kind && self.text() == text
    }

    /// The name of the class in an answer.
    pub fn code(&self) -> (r: &'static str)
        ensures
            r@ == code_of(self.kind()),
    {
        match self {
            ApiError::BadRequest(_) => "bad_request",
            ApiError::Conflict(_) => "conflict",
            ApiError::NotFound(_) => "not_found",
            ApiError::ServiceUnavailable(_) => "service_unavailable",
            ApiError::Internal(_) => "internal_error",
        }
    }

    /// The HTTP status of the answer.
    pub fn status(&self) -> (r: u16)
        ensures
            r == status_of(self.kind()),
    {
        match self {
            ApiError::BadRequest(_) => 400,
            ApiError::Conflict(_) => 409,
            ApiError::NotFound(_) => 404,
            ApiError::ServiceUnavailable(_) => 503,
            ApiError::Internal(_) => 500,
        }
    }

    /// The message for the caller.
    pub fn message(&self) -> (r: String)
        ensures
            r@ == self.text(),
    {
        match self {
            ApiError::BadRequest(m) => m.clone(),
            ApiError::Conflict(m) => m.clone(),
            ApiError::NotFound(m) => m.clone(),
            ApiError::ServiceUnavailable(m) => m.clone(),
            ApiError::Internal(m) => m.clone(),
        }
    }
}

/// A bad request with this message.
pub fn bad_request(m: &str) -> (r: ApiError)
    ensures
        r.says(ErrorKind::BadRequest, m@),
{
    ApiError::BadRequest(text::owned(m))
}

/// An unavailable service with this message.
pub fn unavailable(m: &str) -> (r: ApiError)
    ensures
        r.says(ErrorKind::ServiceUnavailable, m@),
{
    ApiError::ServiceUnavailable(text::owned(m))
}

/// An internal failure with this message.
pub fn internal(m: &str) -> (r: ApiError)
    ensures
        r.says(ErrorKind::Internal, m@),
{
    ApiError::Internal(text::owned(m))
}

/// The HTTP status and the name in an answer tell the same class: two failures have the same
/// status exactly when they have the same name.
pub proof fn status_and_code_agree(a: ErrorKind, b: ErrorKind)
    ensures
        (status_of(a) == status_of(b)) == (a == b),
        (code_of(a) == code_of(b)) == (a == b),
{
    reveal_strlit("bad_request");
    reveal_strlit("conflict");
    reveal_strlit("not_found");
    reveal_strlit("service_unavailable");
    reveal_strlit("internal_error");
    assert(code_of(ErrorKind::BadRequest).len() == 11);
    assert(code_of(ErrorKind::Conflict).len() == 8);
    assert(code_of(ErrorKind::NotFound).len() == 9);
    assert(code_of(ErrorKind::ServiceUnavailable).len() == 19);
    assert(code_of(ErrorKind::Internal).len() == 14);
}

/// A failure has its own class and its own message, and no other: what it says tells both.
pub proof fn a_failure_says_its_message(m: String, kind: ErrorKind, t: Seq<char>)
    ensures
        ApiError::BadRequest(m).says(kind, t) <==> kind == ErrorKind::BadRequest && t == m@,
        ApiError::Conflict(m).says(kind, t) <==> kind == ErrorKind::Conflict && t == m@,
        ApiError::NotFound(m).says(kind, t) <==> kind == ErrorKind::NotFound && t == m@,
        ApiError::ServiceUnavailable(m).says(kind, t) <==> kind == ErrorKind::ServiceUnavailable && t
            == m@,
        ApiError::Internal(m).says(kind, t) <==> kind == ErrorKind::Internal && t == m@,
{
}

/// The classes of failures have the statuses that HTTP has for them.
pub proof fn failures_have_their_statuses()
    ensures
        status_of(ErrorKind::BadRequest) == 400,
        status_of(ErrorKind::Conflict) == 409,
        status_of(ErrorKind::NotFound) == 404,
        status_of(ErrorKind::ServiceUnavailable) == 503,
        status_of(ErrorKind::Internal) == 500,
{
}

} // verus!
