//! Two-kinded error model of the gateway.
//!
//! An `Internal` error is an infrastructure fault (store unreachable,
//! malformed configuration): its text is for the server log only and the
//! caller is shown a fixed generic message with status 500. A `Response`
//! error is a deliberate user-facing outcome carrying an explicit status
//! code and a safe message, rendered verbatim. Bearer credentials are never
//! interpolated into either.

use vstd::prelude::*;

verus! {

pub const STATUS_OK: u16 = 200;
pub const STATUS_UNAUTHORIZED: u16 = 401;
pub const STATUS_FORBIDDEN: u16 = 403;
pub const STATUS_INTERNAL_SERVER_ERROR: u16 = 500;
pub const STATUS_BAD_GATEWAY: u16 = 502;

/// A user-facing outcome: an HTTP status code and a safe message.
#[derive(Debug)]
pub struct ApiError {
    pub code: u16,
    pub detail: String,
}

/// Either an infrastructure fault (rendered generically) or a deliberate
/// user-facing outcome (rendered verbatim).
#[derive(Debug)]
pub enum AppError {
    Internal(String),
    Response(ApiError),
}

/// Holds when `e` is the user-facing outcome with exactly this status code
/// and message.
pub open spec fn is_response(e: &AppError, code: u16, detail: Seq<char>) -> bool {
    &&& e matches AppError::Response(a)
    &&& a.code == code
    &&& a.detail@ == detail
}

/// Holds when `r` failed with exactly this user-facing status and message.
pub open spec fn result_is_response<T>(r: Result<T, AppError>, code: u16, detail: Seq<char>) -> bool {
    r matches Err(e) && is_response(&e, code, detail)
}

/// Holds when `r` failed with an infrastructure fault.
pub open spec fn result_is_internal<T>(r: Result<T, AppError>) -> bool {
    r matches Err(e) && e matches AppError::Internal(_)
}

impl AppError {
    /// A user-facing outcome with the given status and message.
    pub fn response(code: u16, detail: String) -> (r: AppError)
        ensures
            is_response(&r, code, detail@),
    {
        AppError::Response(ApiError { code, detail })
    }

    /// An infrastructure fault; `msg` is for the server log only.
    pub fn internal(msg: String) -> (r: AppError)
        ensures
            r matches AppError::Internal(m) && m@ == msg@,
    {
        AppError::Internal(msg)
    }

    /// The status code and body text shown to the caller. An `Internal`
    /// error is collapsed to 500 with a fixed message, so its raw text never
    /// reaches the client; a `Response` error is rendered verbatim.
    pub fn into_response(self) -> (r: (u16, String))
        ensures
            self matches AppError::Internal(_) ==> r.0 == STATUS_INTERNAL_SERVER_ERROR
                && r.1@ == "Something went wrong."@,
            self matches AppError::Response(a) ==> r.0 == a.code && r.1@ == a.detail@,
    {
        match self {
            AppError::Internal(_) => (
                STATUS_INTERNAL_SERVER_ERROR,
                "Something went wrong.".to_owned(),
            ),
            AppError::Response(a) => (a.code, a.detail),
        }
    }
}

} // verus!
