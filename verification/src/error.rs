//! The application's error type and the HTTP reply each error becomes.
use vstd::prelude::*;
use crate::llm::{LlmError, llm_error_message};

verus! {

/// What can go wrong while serving a request.
#[derive(Debug)]
pub enum AppError {
    /// A message for the user.
    Message(String),
    NotFound,
    Unauthorized,
    /// A database failure; holds the database's description of it.
    Sqlx(String),
    /// A template failure; holds the template engine's description of it.
    Askama(String),
    Llm(LlmError),
}

/// The text of each error.
pub open spec fn app_error_message(e: AppError) -> Seq<char> {
    match e {
        AppError::Message(m) => m@,
        AppError::NotFound => "not found"@,
        AppError::Unauthorized => "unauthorized"@,
        AppError::Sqlx(d) => d@,
        AppError::Askama(d) => d@,
        AppError::Llm(l) => llm_error_message(l),
    }
}

/// What the user is told when the server itself failed.
pub open spec fn server_failure_text() -> Seq<char> {
    "Something went wrong. Please try again."@
}

/// The HTTP status and body each error is answered with.
pub open spec fn reply_of(e: AppError) -> (u16, Seq<char>) {
    match e {
        AppError::NotFound => (404, "Not found"@),
        AppError::Unauthorized => (401, "Unauthorized"@),
        AppError::Message(m) => (400, m@),
        AppError::Sqlx(_) => (500, server_failure_text()),
        AppError::Askama(_) => (500, server_failure_text()),
        AppError::Llm(l) => (502, llm_error_message(l)),
    }
}

impl AppError {
    /// An error that shows `message` to the user.
    pub fn msg(message: String) -> (r: Self)
        ensures
            r == AppError::Message(message),
    {
        AppError::Message(message)
    }

    /// The text of this error.
    pub fn message(&self) -> (r: String)
        ensures
            r@ == app_error_message(*self),
    {
        match self {
            AppError::Message(m) => m.clone(),
            AppError::NotFound => "not found".to_string(),
            AppError::Unauthorized => "unauthorized".to_string(),
            AppError::Sqlx(d) => d.clone(),
            AppError::Askama(d) => d.clone(),
            AppError::Llm(l) => l.message(),
        }
    }

    /// The HTTP status code and body this error is answered with.
    /// Database and template failures are not described to the user.
    pub fn reply(&self) -> (r: (u16, String))
        ensures
            r.0 == reply_of(*self).0,
            r.1@ == reply_of(*self).1,
    {
        match self {
            AppError::NotFound => (404, "Not found".to_string()),
            AppError::Unauthorized => (401, "Unauthorized".to_string()),
            AppError::Message(m) => (400, m.clone()),
            AppError::Sqlx(_) => (500, "Something went wrong. Please try again.".to_string()),
            AppError::Askama(_) => (500, "Something went wrong. Please try again.".to_string()),
            AppError::Llm(l) => (502, l.message()),
        }
    }
}

} // verus!
