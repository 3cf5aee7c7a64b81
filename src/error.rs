//! The error taxonomy of the service, and how each error is shown to a client.
use vstd::prelude::*;

verus! {

/// An error of a request, with its detailed message.
#[derive(Debug)]
pub enum AppError {
    DatabaseError(String),
    ValidationError(String),
    NotFound(String),
    Unauthorized(String),
    Forbidden(String),
    Conflict(String),
    InternalServerError(String),
    BadRequest(String),
}

impl AppError {
    pub open spec fn detail(&self) -> Seq<char> {
        match self {
            AppError::DatabaseError(m) => m@,
            AppError::ValidationError(m) => m@,
            AppError::NotFound(m) => m@,
            AppError::Unauthorized(m) => m@,
            AppError::Forbidden(m) => m@,
            AppError::Conflict(m) => m@,
            AppError::InternalServerError(m) => m@,
            AppError::BadRequest(m) => m@,
        }
    }

    /// Store and unexpected failures: logged with their detail, shown generically.
    pub open spec fn is_internal(&self) -> bool {
        self is DatabaseError || self is InternalServerError
    }

    pub open spec fn spec_status_code(&self) -> u16 {
        match self {
            AppError::DatabaseError(_) => 500,
            AppError::ValidationError(_) => 400,
            AppError::NotFound(_) => 404,
            AppError::Unauthorized(_) => 401,
            AppError::Forbidden(_) => 403,
            AppError::Conflict(_) => 409,
            AppError::InternalServerError(_) => 500,
            AppError::BadRequest(_) => 400,
        }
    }

    /// The HTTP status that answers the error.
    pub fn status_code(&self) -> (r: u16)
        ensures
            r == self.spec_status_code(),
    {
        match self {
            AppError::DatabaseError(_) => 500,
            AppError::ValidationError(_) => 400,
            AppError::NotFound(_) => 404,
            AppError::Unauthorized(_) => 401,
            AppError::Forbidden(_) => 403,
            AppError::Conflict(_) => 409,
            AppError::InternalServerError(_) => 500,
            AppError::BadRequest(_) => 400,
        }
    }

    /// The message a client sees: the detail, except for internal errors,
    /// whose detail is never shown.
    pub fn client_message(&self) -> (r: String)
        ensures
            self.is_internal() ==> r@ == "Internal server error"@,
            !self.is_internal() ==> r@ == self.detail(),
    {
        match self {
            AppError::DatabaseError(_) => String::from_str("Internal server error"),
            AppError::InternalServerError(_) => String::from_str("Internal server error"),
            AppError::ValidationError(m) => m.clone(),
            AppError::NotFound(m) => m.clone(),
            AppError::Unauthorized(m) => m.clone(),
            AppError::Forbidden(m) => m.clone(),
            AppError::Conflict(m) => m.clone(),
            AppError::BadRequest(m) => m.clone(),
        }
    }

    pub open spec fn heading(&self) -> Seq<char> {
        match self {
            AppError::DatabaseError(_) => "Database error: "@,
            AppError::ValidationError(_) => "Validation error: "@,
            AppError::NotFound(_) => "Not found: "@,
            AppError::Unauthorized(_) => "Unauthorized: "@,
            AppError::Forbidden(_) => "Forbidden: "@,
            AppError::Conflict(_) => "Conflict: "@,
            AppError::InternalServerError(_) => "Internal server error: "@,
            AppError::BadRequest(_) => "Bad request: "@,
        }
    }

    /// The full text of the error, for logs: its kind, then its detail.
    pub fn describe(&self) -> (r: String)
        ensures
            r@ == self.heading() + self.detail(),
    {
        match self {
            AppError::DatabaseError(m) => String::from_str("Database error: ").concat(m.as_str()),
            AppError::ValidationError(m) => String::from_str("Validation error: ").concat(
                m.as_str(),
            ),
            AppError::NotFound(m) => String::from_str("Not found: ").concat(m.as_str()),
            AppError::Unauthorized(m) => String::from_str("Unauthorized: ").concat(m.as_str()),
            AppError::Forbidden(m) => String::from_str("Forbidden: ").concat(m.as_str()),
            AppError::Conflict(m) => String::from_str("Conflict: ").concat(m.as_str()),
            AppError::InternalServerError(m) => String::from_str("Internal server error: ").concat(
                m.as_str(),
            ),
            AppError::BadRequest(m) => String::from_str("Bad request: ").concat(m.as_str()),
        }
    }
}

/// `e` is a `BadRequest` with detail `msg`.
pub open spec fn is_bad_request(e: AppError, msg: Seq<char>) -> bool {
    e matches AppError::BadRequest(m) && m@ == msg
}

/// `e` is a `ValidationError` with detail `msg`.
pub open spec fn is_validation_error(e: AppError, msg: Seq<char>) -> bool {
    e matches AppError::ValidationError(m) && m@ == msg
}

/// `e` is an `InternalServerError` with detail `msg`.
pub open spec fn is_internal_error(e: AppError, msg: Seq<char>) -> bool {
    e matches AppError::InternalServerError(m) && m@ == msg
}

pub fn bad_request(msg: &str) -> (e: AppError)
    ensures
        is_bad_request(e, msg@),
{
    AppError::BadRequest(String::from_str(msg))
}

pub fn validation_error(msg: &str) -> (e: AppError)
    ensures
        is_validation_error(e, msg@),
{
    AppError::ValidationError(String::from_str(msg))
}

pub fn internal_error(msg: &str) -> (e: AppError)
    ensures
        is_internal_error(e, msg@),
{
    AppError::InternalServerError(String::from_str(msg))
}

/// The error of a sum, difference, product or quotient that overflows.
pub fn overflow() -> (e: AppError)
    ensures
        is_internal_error(e, "Arithmetic overflow"@),
{
    internal_error("Arithmetic overflow")
}

} // verus!
