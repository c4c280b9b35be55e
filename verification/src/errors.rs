//! The error taxonomy every ceremony operation reports through.

use vstd::prelude::*;

verus! {

/// Why a ceremony operation was refused.
///
/// - `BadRequest`: malformed input, or a missing/expired ceremony.  The two
///   are deliberately indistinguishable so a caller cannot probe which
///   accounts have a ceremony in flight.
/// - `Conflict`: the username is already taken.
/// - `NotFound`: the account does not exist (surfaced only before an
///   authentication ceremony starts), or a registration ceremony is absent.
/// - `ProtocolFailure`: the cryptographic verification failed, or the
///   response's signature counter did not advance.
/// - `Internal`: a storage or serialization failure unrelated to the caller's
///   input.
#[derive(Clone, Copy, PartialEq, Eq, Structural, Debug)]
pub enum AppError {
    BadRequest,
    Conflict,
    NotFound,
    ProtocolFailure,
    Internal,
}

impl AppError {
    /// The HTTP status this error maps to at the transport layer.
    pub open spec fn spec_status_code(self) -> u16 {
        match self {
            AppError::BadRequest => 400,
            AppError::Conflict => 409,
            AppError::NotFound => 404,
            AppError::ProtocolFailure => 401,
            AppError::Internal => 500,
        }
    }

    /// The HTTP status this error maps to at the transport layer.
    pub fn status_code(&self) -> (code: u16)
        ensures
            code == self.spec_status_code(),
    {
        match self {
            AppError::BadRequest => 400,
            AppError::Conflict => 409,
            AppError::NotFound => 404,
            AppError::ProtocolFailure => 401,
            AppError::Internal => 500,
        }
    }

    /// A short caller-facing message; no internal state leaks through it.
    pub open spec fn spec_message(self) -> Seq<char> {
        match self {
            AppError::BadRequest => "invalid or expired request"@,
            AppError::Conflict => "username already exists"@,
            AppError::NotFound => "not found"@,
            AppError::ProtocolFailure => "authentication failed"@,
            AppError::Internal => "internal error"@,
        }
    }

    /// A short caller-facing message; no internal state leaks through it.
    pub fn message(&self) -> (r: &'static str)
        ensures
            r@ == self.spec_message(),
    {
        match self {
            AppError::BadRequest => "invalid or expired request",
            AppError::Conflict => "username already exists",
            AppError::NotFound => "not found",
            AppError::ProtocolFailure => "authentication failed",
            AppError::Internal => "internal error",
        }
    }
}

} // verus!
