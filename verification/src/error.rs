//! The errors the API answers with, and their HTTP status codes.
use vstd::prelude::*;

verus! {

/// `reqwest::Error`, a failed request to Plex.
#[verifier::external_type_specification]
#[verifier::external_body]
pub struct ExReqwestError(reqwest::Error);

/// `sqlx::Error`, a failed database operation.
#[verifier::external_type_specification]
#[verifier::external_body]
pub struct ExSqlxError(sqlx::Error);

/// Why an API call failed.
pub enum ApiError {
    PlexRequestFailed(reqwest::Error),
    DbError(sqlx::Error),
    NotFound(String),
    /// The request carries no signed-in user.
    Unauthorized(String),
}

impl ApiError {
    /// The HTTP status code of the answer: 404 for what is not found, 401
    /// without a signed-in user, 500 for a failure of Plex or of the
    /// database.
    pub open spec fn status_of(&self) -> u16 {
        match self {
            ApiError::NotFound(_) => 404,
            ApiError::Unauthorized(_) => 401,
            _ => 500,
        }
    }

    /// The HTTP status code of the answer.
    pub fn status_code(&self) -> (r: u16)
        ensures
            r == self.status_of(),
    {
        match self {
            ApiError::PlexRequestFailed(_) => 500,
            ApiError::DbError(_) => 500,
            ApiError::NotFound(_) => 404,
            ApiError::Unauthorized(_) => 401,
        }
    }

    /// The message of an answer that carries its own text.
    pub fn message(&self) -> (r: Option<&str>)
        ensures
            match self {
                ApiError::NotFound(m) => r is Some && r->0@ == m@,
                ApiError::Unauthorized(m) => r is Some && r->0@ == m@,
                _ => r is None,
            },
    {
        match self {
            ApiError::NotFound(m) => Some(m.as_str()),
            ApiError::Unauthorized(m) => Some(m.as_str()),
            _ => None,
        }
    }
}

} // verus!
