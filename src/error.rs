//! The error kinds shared by the store and the rule engines.
use vstd::prelude::*;

verus! {

/// Every failure surfaces as one of these kinds.
#[derive(Debug, Clone)]
pub enum AppError {
    /// Missing, invalid or expired credential, or an identity that no longer exists.
    Unauthorized,
    /// Authenticated, but lacking the role or membership.
    Forbidden,
    /// The referenced entity is absent.
    NotFound,
    /// Malformed input, with a description.
    BadRequest(String),
    /// A uniqueness violation, with a description.
    Conflict(String),
    /// An unclassified storage or cryptographic failure.
    Internal,
}

pub type AppResult<T> = Result<T, AppError>;

/// An error of kind BadRequest.
pub open spec fn is_bad_request<T>(r: AppResult<T>) -> bool {
    r matches Err(AppError::BadRequest(_))
}

/// An error of kind Conflict.
pub open spec fn is_conflict<T>(r: AppResult<T>) -> bool {
    r matches Err(AppError::Conflict(_))
}

pub fn bad_request(msg: &str) -> (r: AppError)
    ensures
        r matches AppError::BadRequest(m) && m@ == msg@,
{
    AppError::BadRequest(String::from_str(msg))
}

pub fn conflict(msg: &str) -> (r: AppError)
    ensures
        r matches AppError::Conflict(m) && m@ == msg@,
{
    AppError::Conflict(String::from_str(msg))
}

} // verus!
