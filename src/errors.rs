//! Error types of the library.

use vstd::prelude::*;

verus! {

/// An error returned to a client of the ingestion endpoint.
#[derive(Debug)]
pub enum ApplicationError {
    /// A failure of the service itself; the text is kept for the log only.
    Unknown(String),
    /// The request's payload was rejected; the text is sent back.
    InvalidPayload(String),
}

impl ApplicationError {
    /// The HTTP status code of the response for this error.
    pub fn status_code(&self) -> (r: u16)
        ensures
            r == (match self {
                ApplicationError::InvalidPayload(_) => 400u16,
                ApplicationError::Unknown(_) => 500u16,
            }),
    {
        match self {
            ApplicationError::InvalidPayload(_) => 400,
            ApplicationError::Unknown(_) => 500,
        }
    }

    /// The body of the response for this error: the rejection text, or a
    /// fixed message that reveals nothing of an internal failure.
    pub fn response_body(&self) -> (r: String)
        ensures
            match self {
                ApplicationError::InvalidPayload(e) => r@ == e@,
                ApplicationError::Unknown(_) => r@ == "Internal Server Error"@,
            },
    {
        match self {
            ApplicationError::InvalidPayload(e) => e.clone(),
            ApplicationError::Unknown(_) => String::from_str("Internal Server Error"),
        }
    }
}

/// Why one export attempt, or one of its steps, failed.
#[derive(Debug)]
pub enum ExportError {
    /// Required configuration is absent or empty.
    Config(String),
    /// The credential exchange was answered with a non-success status.
    Auth { status: u16, body: String },
    /// The columnar batch could not be encoded.
    Serialization,
    /// The upload of an object was answered with a non-success status.
    Upload { status: u16, body: String },
}

/// Whether an HTTP status is a success (2xx).
pub open spec fn is_success(status: u16) -> bool {
    200 <= status <= 299
}

/// The outcome of a token-exchange answer: an authentication error carrying
/// the status and body unless the status is a success.
pub fn check_exchange_status(status: u16, body: String) -> (r: Result<(), ExportError>)
    ensures
        is_success(status) <==> r is Ok,
        r matches Err(e) ==> e == (ExportError::Auth { status, body }),
{
    if 200 <= status && status <= 299 {
        Ok(())
    } else {
        Err(ExportError::Auth { status, body })
    }
}

/// The outcome of an upload answer: an upload error carrying the status and
/// body unless the status is a success.
pub fn check_upload_status(status: u16, body: String) -> (r: Result<(), ExportError>)
    ensures
        is_success(status) <==> r is Ok,
        r matches Err(e) ==> e == (ExportError::Upload { status, body }),
{
    if 200 <= status && status <= 299 {
        Ok(())
    } else {
        Err(ExportError::Upload { status, body })
    }
}

} // verus!
