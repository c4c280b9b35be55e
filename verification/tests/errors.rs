//! The error taxonomy's caller-facing mapping.

use passkey_ceremony::errors::AppError;

#[test]
fn status_codes_follow_the_taxonomy() {
    assert_eq!(AppError::BadRequest.status_code(), 400);
    assert_eq!(AppError::ProtocolFailure.status_code(), 401);
    assert_eq!(AppError::NotFound.status_code(), 404);
    assert_eq!(AppError::Conflict.status_code(), 409);
    assert_eq!(AppError::Internal.status_code(), 500);
}

#[test]
fn messages_are_short_and_generic() {
    // No internal state beyond a generic phrase is ever exposed.
    for e in [
        AppError::BadRequest,
        AppError::Conflict,
        AppError::NotFound,
        AppError::ProtocolFailure,
        AppError::Internal,
    ] {
        assert!(!e.message().is_empty());
        assert!(e.message().len() < 40);
    }
}
