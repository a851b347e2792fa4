//! The errors that a request can end in, and the HTTP status each maps to.
use vstd::prelude::*;

verus! {

/// Why a request failed.
#[derive(Debug)]
pub enum AppError {
    /// A database error, held as its message.
    Sqlx(String),
    NotFound(String),
    BadRequest(String),
    Internal(String),
}

pub type AppResult<T> = Result<T, AppError>;

/// The HTTP status code that answers `e`.
pub open spec fn status_code_of(e: AppError) -> u16 {
    match e {
        AppError::NotFound(_) => 404,
        AppError::BadRequest(_) => 400,
        AppError::Sqlx(_) => 500,
        AppError::Internal(_) => 500,
    }
}

/// The message carried by `e`.
pub open spec fn message_of(e: AppError) -> Seq<char> {
    match e {
        AppError::NotFound(m) => m@,
        AppError::BadRequest(m) => m@,
        AppError::Sqlx(m) => m@,
        AppError::Internal(m) => m@,
    }
}

impl AppError {
    /// The HTTP status code of the response: 404 for a missing record,
    /// 400 for a bad request, 500 otherwise.
    pub fn status_code(&self) -> (r: u16)
        ensures
            r == status_code_of(*self),
    {
        match self {
            AppError::NotFound(_) => 404,
            AppError::BadRequest(_) => 400,
            AppError::Sqlx(_) => 500,
            AppError::Internal(_) => 500,
        }
    }

    /// The message that the response's `error` field carries.
    pub fn message(&self) -> (r: String)
        ensures
            r@ == message_of(*self),
    {
        match self {
            AppError::NotFound(m) => m.clone(),
            AppError::BadRequest(m) => m.clone(),
            AppError::Sqlx(m) => m.clone(),
            AppError::Internal(m) => m.clone(),
        }
    }
}

} // verus!
