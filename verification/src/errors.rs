//! The error taxonomy: what a forwarding call can fail with, what a request
//! can fail with overall, and how each failure is presented to the external
//! client.

use vstd::prelude::*;

verus! {

/// The class of an error status a peer answered with.
#[derive(Debug, Clone, Copy, PartialEq, Eq, Structural)]
pub enum StatusKind {
    /// The peer holds no live entry for the key.
    NotFound,
    /// The peer rejected the request as malformed.
    InvalidArgument,
    /// The peer is unreachable or its transport is down.
    Unavailable,
    /// Any other error status.
    Other,
}

/// What a forwarding call against a peer can fail with.
#[derive(Debug)]
pub enum RpcClientError {
    /// No channel to the peer could be established or used.
    Transport(String),
    /// The peer answered the call with an error status.
    Status(StatusKind, String),
    /// The peer's reply did not parse as a structured value.
    Json(String),
}

/// What a client-facing request can fail with.
#[derive(Debug)]
pub enum AppError {
    /// The key is absent or already expired.
    KeyNotFound,
    /// The request itself is malformed.
    InvalidInput(String),
    /// Talking to the owning peer failed.
    RpcError(RpcClientError),
    /// Any other failure.
    InternalError(String),
}

impl AppError {
    /// The HTTP status the error is reported with: 404 for a missing key,
    /// 400 for malformed input, 500 for anything internal.
    pub fn http_status(&self) -> (r: u16)
        ensures
            r == match self {
                AppError::KeyNotFound => 404u16,
                AppError::InvalidInput(_) => 400u16,
                AppError::RpcError(_) => 500u16,
                AppError::InternalError(_) => 500u16,
            },
    {
        match self {
            AppError::KeyNotFound => 404,
            AppError::InvalidInput(_) => 400,
            AppError::RpcError(_) => 500,
            AppError::InternalError(_) => 500,
        }
    }

    /// The message the external client may see: invalid input echoes its
    /// cause, internal failures hide their detail, a missing key has no
    /// body.
    pub fn public_message(&self) -> (r: Option<String>)
        ensures
            match self {
                AppError::KeyNotFound => r is None,
                AppError::InvalidInput(m) => r matches Some(s) && s@ == m@,
                AppError::RpcError(_) => r matches Some(s) && s@
                    == "Internal cluster communication failed"@,
                AppError::InternalError(_) => r matches Some(s) && s@
                    == "An internal error occurred"@,
            },
    {
        match self {
            AppError::KeyNotFound => None,
            AppError::InvalidInput(m) => Some(m.clone()),
            AppError::RpcError(_) => Some("Internal cluster communication failed".to_owned()),
            AppError::InternalError(_) => Some("An internal error occurred".to_owned()),
        }
    }
}

} // verus!
