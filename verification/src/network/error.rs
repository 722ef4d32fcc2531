//! The errors a handler can answer with, and what each looks like on the
//! wire.
//!
//! Every 403 carries the same body (`forbidden`) so that a sender cannot tell
//! a ban from an unknown origin, a refused approval or a device id clash;
//! both 422 causes share `unprocessable`. Reasons never reach the body.
use vstd::prelude::*;

verus! {

/// A handler's refusal.
#[derive(Debug, Clone, PartialEq, Eq)]
pub enum NetworkError {
    /// 400: malformed request (the reason is for the log only).
    BadRequest(String),
    /// 403: the origin is not a known peer.
    NotInPeers,
    /// 403: the origin is banned.
    Banned,
    /// 403: the user refused the approval.
    UserRejected,
    /// 403: the device id is this device's own.
    DeviceIdConflict,
    /// 408: nobody decided on the approval in time.
    ApprovalTimeout,
    /// 413: the body or the file is too large.
    PayloadTooLarge,
    /// 422: decryption failed.
    DecryptFailed,
    /// 422: the plaintext size differs from the declared one.
    SizeMismatch,
    /// 429: handshake rate limit.
    RateLimited,
    /// 500: unrecoverable internal error (the reason is for the log only).
    Internal(String),
}

/// The HTTP status of each error.
pub open spec fn status_spec(e: NetworkError) -> u16 {
    match e {
        NetworkError::BadRequest(_) => 400,
        NetworkError::NotInPeers | NetworkError::Banned | NetworkError::UserRejected
        | NetworkError::DeviceIdConflict => 403,
        NetworkError::ApprovalTimeout => 408,
        NetworkError::PayloadTooLarge => 413,
        NetworkError::DecryptFailed | NetworkError::SizeMismatch => 422,
        NetworkError::RateLimited => 429,
        NetworkError::Internal(_) => 500,
    }
}

/// The body sent for each status.
pub open spec fn body_for_status(status: u16) -> Seq<char> {
    if status == 400 {
        "invalid request"@
    } else if status == 403 {
        "forbidden"@
    } else if status == 408 {
        "approval timeout"@
    } else if status == 413 {
        "payload too large"@
    } else if status == 422 {
        "unprocessable"@
    } else if status == 429 {
        "too many requests"@
    } else {
        "internal error"@
    }
}

/// The `kind` field of an error's log line; the two 422 causes share one.
pub open spec fn log_kind_spec(e: NetworkError) -> Seq<char> {
    match e {
        NetworkError::BadRequest(_) => "bad_request"@,
        NetworkError::NotInPeers => "not_in_peers"@,
        NetworkError::Banned => "banned"@,
        NetworkError::UserRejected => "user_rejected"@,
        NetworkError::DeviceIdConflict => "device_id_conflict"@,
        NetworkError::ApprovalTimeout => "approval_timeout"@,
        NetworkError::PayloadTooLarge => "payload_too_large"@,
        NetworkError::DecryptFailed | NetworkError::SizeMismatch => "decrypt_or_size_mismatch"@,
        NetworkError::RateLimited => "rate_limited"@,
        NetworkError::Internal(_) => "internal"@,
    }
}

/// The log line written for an error: its target, its level, its `kind` and,
/// for a 400 or a 500, its reason. Only the log sees the reason; the reply
/// never does.
#[derive(Debug)]
pub struct ErrorLogRecord {
    /// `network::error`.
    pub target: &'static str,
    /// Error level (the internal error) rather than warning level.
    pub is_error: bool,
    pub kind: &'static str,
    pub reason: Option<String>,
}

impl NetworkError {
    /// The HTTP status code.
    pub fn status_code(&self) -> (r: u16)
        ensures
            r == status_spec(*self),
    {
        match self {
            NetworkError::BadRequest(_) => 400,
            NetworkError::NotInPeers | NetworkError::Banned | NetworkError::UserRejected
            | NetworkError::DeviceIdConflict => 403,
            NetworkError::ApprovalTimeout => 408,
            NetworkError::PayloadTooLarge => 413,
            NetworkError::DecryptFailed | NetworkError::SizeMismatch => 422,
            NetworkError::RateLimited => 429,
            NetworkError::Internal(_) => 500,
        }
    }

    /// The response body: a fixed text per status, never the reason.
    pub fn body(&self) -> (r: &'static str)
        ensures
            r@ == body_for_status(status_spec(*self)),
    {
        match self {
            NetworkError::BadRequest(_) => "invalid request",
            NetworkError::NotInPeers | NetworkError::Banned | NetworkError::UserRejected
            | NetworkError::DeviceIdConflict => "forbidden",
            NetworkError::ApprovalTimeout => "approval timeout",
            NetworkError::PayloadTooLarge => "payload too large",
            NetworkError::DecryptFailed | NetworkError::SizeMismatch => "unprocessable",
            NetworkError::RateLimited => "too many requests",
            NetworkError::Internal(_) => "internal error",
        }
    }

    /// The `kind` field of the error's log line; the two 422 causes share one.
    pub fn log_kind(&self) -> (r: &'static str)
        ensures
            r@ == log_kind_spec(*self),
    {
        match self {
            NetworkError::BadRequest(_) => "bad_request",
            NetworkError::NotInPeers => "not_in_peers",
            NetworkError::Banned => "banned",
            NetworkError::UserRejected => "user_rejected",
            NetworkError::DeviceIdConflict => "device_id_conflict",
            NetworkError::ApprovalTimeout => "approval_timeout",
            NetworkError::PayloadTooLarge => "payload_too_large",
            NetworkError::DecryptFailed => "decrypt_or_size_mismatch",
            NetworkError::SizeMismatch => "decrypt_or_size_mismatch",
            NetworkError::RateLimited => "rate_limited",
            NetworkError::Internal(_) => "internal",
        }
    }

    /// The reason logged with the error (400 and 500 only).
    pub fn log_reason(&self) -> (r: Option<&String>)
        ensures
            match *self {
                NetworkError::BadRequest(s) => r == Some(&s),
                NetworkError::Internal(s) => r == Some(&s),
                _ => r is None,
            },
    {
        match self {
            NetworkError::BadRequest(s) => Some(s),
            NetworkError::Internal(s) => Some(s),
            _ => None,
        }
    }

    /// Is the error logged at error level (the internal error) rather than
    /// warning level?
    pub fn logs_as_error(&self) -> (r: bool)
        ensures
            r == (*self is Internal),
    {
        match self {
            NetworkError::Internal(_) => true,
            _ => false,
        }
    }

    /// The log line for this error (see `ErrorLogRecord`).
    pub fn log(&self) -> (r: ErrorLogRecord)
        ensures
            r.target@ == "network::error"@,
            r.is_error == (*self is Internal),
            r.kind@ == log_kind_spec(*self),
            match *self {
                NetworkError::BadRequest(s) => r.reason == Some(s),
                NetworkError::Internal(s) => r.reason == Some(s),
                _ => r.reason is None,
            },
    {
        let reason = match self.log_reason() {
            Some(s) => Some(s.clone()),
            None => None,
        };
        ErrorLogRecord { target: "network::error", is_error: self.logs_as_error(), kind: self.log_kind(), reason }
    }
}

/// Two errors with the same status have the same body: in particular every
/// refusal answered 403 looks the same to the sender.
pub proof fn lemma_same_status_same_body(a: NetworkError, b: NetworkError)
    requires
        status_spec(a) == status_spec(b),
    ensures
        body_for_status(status_spec(a)) == body_for_status(status_spec(b)),
{
}

} // verus!
