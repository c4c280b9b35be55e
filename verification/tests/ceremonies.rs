//! End-to-end ceremony flows against the real verification engine.

use passkey_ceremony::errors::AppError;
use passkey_ceremony::model::CeremonyKind;
use passkey_ceremony::orchestrator::{
    CeremonyOrchestrator, CreateAccountRequest, LoginAccountRequest, LoginCompleteRequest,
    RegisterCompleteRequest,
};
use webauthn_rs::prelude::{PublicKeyCredential, RegisterPublicKeyCredential, Url};
use webauthn_rs::WebauthnBuilder;

fn new_orchestrator() -> CeremonyOrchestrator {
    let rp_origin = Url::parse("https://localhost:8443").expect("origin");
    let webauthn = WebauthnBuilder::new("localhost", &rp_origin)
        .expect("builder")
        .build()
        .expect("webauthn");
    CeremonyOrchestrator::new(webauthn)
}

fn alice_request() -> CreateAccountRequest {
    CreateAccountRequest {
        username: "alice".to_string(),
        email: "alice@example.com".to_string(),
        display_name: "Alice".to_string(),
    }
}

/// A syntactically valid attestation whose cryptographic content is garbage:
/// it parses, but the engine must refuse it.
fn junk_attestation() -> RegisterPublicKeyCredential {
    serde_json::from_str(
        r#"{"id":"AAAA","rawId":"AAAA","response":{"attestationObject":"AAAA","clientDataJSON":"AAAA"},"type":"public-key"}"#,
    )
    .expect("attestation shape")
}

/// A syntactically valid assertion whose cryptographic content is garbage.
fn junk_assertion() -> PublicKeyCredential {
    serde_json::from_str(
        r#"{"id":"AAAA","rawId":"AAAA","response":{"authenticatorData":"AAAA","clientDataJSON":"AAAA","signature":"AAAA","userHandle":null},"type":"public-key"}"#,
    )
    .expect("assertion shape")
}

#[test]
fn register_begin_issues_challenge_and_state() {
    let mut orch = new_orchestrator();
    let r = orch.begin_registration(&alice_request(), 1_000);
    assert!(r.is_ok());
    let account = orch
        .store
        .find_account_by_username(&"alice".to_string())
        .expect("account row");
    assert_eq!(account.username, "alice");
    assert_eq!(account.email, "alice@example.com");
    let ceremony = orch
        .store
        .find_active_ceremony(account.id, 1_000)
        .expect("ceremony row");
    assert_eq!(ceremony.kind, CeremonyKind::Registration);
    assert_eq!(ceremony.created_at, 1_000);
}

#[test]
fn duplicate_username_conflicts() {
    let mut orch = new_orchestrator();
    assert!(orch.begin_registration(&alice_request(), 1_000).is_ok());
    let second = orch.begin_registration(&alice_request(), 1_001);
    assert!(matches!(second, Err(AppError::Conflict)));
    assert_eq!(orch.store.account_count(), 1);
}

#[test]
fn whitespace_usernames_are_trimmed() {
    let mut orch = new_orchestrator();
    let padded = CreateAccountRequest {
        username: "  alice \n".to_string(),
        email: "alice@example.com".to_string(),
        display_name: "Alice".to_string(),
    };
    assert!(orch.begin_registration(&padded, 1_000).is_ok());
    assert!(orch
        .store
        .find_account_by_username(&"alice".to_string())
        .is_some());
    // The same username with other padding is the same username.
    let second = orch.begin_registration(&alice_request(), 1_001);
    assert!(matches!(second, Err(AppError::Conflict)));
}

#[test]
fn empty_username_bad_request() {
    let mut orch = new_orchestrator();
    let blank = CreateAccountRequest {
        username: "   ".to_string(),
        email: "a@example.com".to_string(),
        display_name: "A".to_string(),
    };
    assert!(matches!(
        orch.begin_registration(&blank, 1_000),
        Err(AppError::BadRequest)
    ));
    let login = LoginAccountRequest {
        username: "".to_string(),
    };
    assert!(matches!(
        orch.begin_authentication(&login, 1_000),
        Err(AppError::BadRequest)
    ));
    assert_eq!(orch.store.account_count(), 0);
}

#[test]
fn registration_round_trip_records_one_credential() {
    let mut orch = new_orchestrator();
    assert!(orch.begin_registration(&alice_request(), 1_000).is_ok());
    let account = orch
        .store
        .find_account_by_username(&"alice".to_string())
        .expect("account row");
    let done = orch.record_registration_success(
        &"alice".to_string(),
        vec![1, 2, 3],
        vec![9, 9, 9],
        1_010,
    );
    assert!(done.is_ok());
    let creds = orch.store.find_credentials_by_account(account.id);
    assert_eq!(creds.len(), 1);
    assert_eq!(creds[0].credential_id, vec![1, 2, 3]);
    assert_eq!(creds[0].signature_counter, 0);
    // The ceremony was consumed: the same completion cannot run twice.
    assert!(orch.store.find_active_ceremony(account.id, 1_010).is_none());
    let again = orch.complete_registration(
        &RegisterCompleteRequest {
            username: "alice".to_string(),
            credential: junk_attestation(),
        },
        1_010,
    );
    assert!(matches!(again, Err(AppError::NotFound)));
}

#[test]
fn registering_same_credential_id_twice_refused() {
    let mut orch = new_orchestrator();
    assert!(orch.begin_registration(&alice_request(), 1_000).is_ok());
    assert!(orch
        .record_registration_success(&"alice".to_string(), vec![1], vec![7], 1_001)
        .is_ok());
    let dup = orch.record_registration_success(&"alice".to_string(), vec![1], vec![8], 1_002);
    assert!(matches!(dup, Err(AppError::ProtocolFailure)));
}

#[test]
fn complete_registration_unknown_user_not_found() {
    let mut orch = new_orchestrator();
    let r = orch.complete_registration(
        &RegisterCompleteRequest {
            username: "ghost".to_string(),
            credential: junk_attestation(),
        },
        1_000,
    );
    assert!(matches!(r, Err(AppError::NotFound)));
}

#[test]
fn garbage_attestation_is_protocol_failure_and_keeps_ceremony() {
    let mut orch = new_orchestrator();
    assert!(orch.begin_registration(&alice_request(), 1_000).is_ok());
    let account = orch
        .store
        .find_account_by_username(&"alice".to_string())
        .expect("account row");
    let r = orch.complete_registration(
        &RegisterCompleteRequest {
            username: "alice".to_string(),
            credential: junk_attestation(),
        },
        1_100,
    );
    assert!(matches!(r, Err(AppError::ProtocolFailure)));
    // The still-valid challenge survives a failed verification: the caller
    // may retry.
    assert!(orch.store.find_active_ceremony(account.id, 1_100).is_some());
}

#[test]
fn corrupt_registration_context_is_internal() {
    let mut orch = new_orchestrator();
    assert!(orch.begin_registration(&alice_request(), 1_000).is_ok());
    let account = orch
        .store
        .find_account_by_username(&"alice".to_string())
        .expect("account row");
    // Overwrite the stored context with bytes that cannot decode: the
    // completion must report the corruption as Internal, not as a
    // verification failure, and touch nothing.
    assert!(orch
        .store
        .upsert_ceremony(passkey_ceremony::store::CeremonyRow {
            account_id: account.id,
            kind: CeremonyKind::Registration,
            context: vec![0xff, 0x00, 0x01],
            created_at: 1_000,
        })
        .is_ok());
    let r = orch.complete_registration(
        &RegisterCompleteRequest {
            username: "alice".to_string(),
            credential: junk_attestation(),
        },
        1_100,
    );
    assert!(matches!(r, Err(AppError::Internal)));
    // The (corrupt) ceremony row is still there, untouched.
    assert!(orch.store.find_active_ceremony(account.id, 1_100).is_some());
}

#[test]
fn corrupt_authentication_context_is_internal() {
    let mut orch = new_orchestrator();
    assert!(orch.begin_registration(&alice_request(), 1_000).is_ok());
    let account = orch
        .store
        .find_account_by_username(&"alice".to_string())
        .expect("account row");
    assert!(orch
        .store
        .upsert_ceremony(passkey_ceremony::store::CeremonyRow {
            account_id: account.id,
            kind: CeremonyKind::Authentication,
            context: vec![0xff, 0x00, 0x01],
            created_at: 1_000,
        })
        .is_ok());
    let r = orch.complete_authentication(
        &LoginCompleteRequest {
            username: "alice".to_string(),
            credential: junk_assertion(),
        },
        1_100,
    );
    assert!(matches!(r, Err(AppError::Internal)));
    assert!(orch.store.find_active_ceremony(account.id, 1_100).is_some());
}

#[test]
fn expired_registration_ceremony_not_found() {
    let mut orch = new_orchestrator();
    assert!(orch.begin_registration(&alice_request(), 1_000).is_ok());
    // At exactly five minutes the ceremony has expired; the error class is
    // the same as for a ceremony that never began.
    let r = orch.complete_registration(
        &RegisterCompleteRequest {
            username: "alice".to_string(),
            credential: junk_attestation(),
        },
        1_300,
    );
    assert!(matches!(r, Err(AppError::NotFound)));
}

#[test]
fn expiry_boundary_read_back() {
    let mut orch = new_orchestrator();
    assert!(orch.begin_registration(&alice_request(), 1_000).is_ok());
    let account = orch
        .store
        .find_account_by_username(&"alice".to_string())
        .expect("account row");
    assert!(orch.store.find_active_ceremony(account.id, 1_299).is_some());
    assert!(orch.store.find_active_ceremony(account.id, 1_300).is_none());
}

#[test]
fn login_unknown_user_not_found() {
    let mut orch = new_orchestrator();
    let r = orch.begin_authentication(
        &LoginAccountRequest {
            username: "ghost".to_string(),
        },
        1_000,
    );
    assert!(matches!(r, Err(AppError::NotFound)));
}

#[test]
fn login_without_credentials_bad_request() {
    let mut orch = new_orchestrator();
    assert!(orch.begin_registration(&alice_request(), 1_000).is_ok());
    let r = orch.begin_authentication(
        &LoginAccountRequest {
            username: "alice".to_string(),
        },
        1_001,
    );
    assert!(matches!(r, Err(AppError::BadRequest)));
}

fn register_alice_with_credential(orch: &mut CeremonyOrchestrator) -> u128 {
    assert!(orch.begin_registration(&alice_request(), 1_000).is_ok());
    assert!(orch
        .record_registration_success(&"alice".to_string(), vec![1, 2, 3], vec![9], 1_001)
        .is_ok());
    orch.store
        .find_account_by_username(&"alice".to_string())
        .expect("account row")
        .id
}

#[test]
fn login_begin_without_decodable_passkey_bad_request() {
    let mut orch = new_orchestrator();
    let _ = register_alice_with_credential(&mut orch);
    // The stored key material here is not a decodable passkey (only the real
    // engine can mint one), so the account is unverifiable and refused — the
    // same answer as for an account with no credential rows at all.
    let r = orch.begin_authentication(
        &LoginAccountRequest {
            username: "alice".to_string(),
        },
        1_002,
    );
    assert!(matches!(r, Err(AppError::BadRequest)));
}

#[test]
fn counter_not_advancing_is_protocol_failure() {
    let mut orch = new_orchestrator();
    let account_id = register_alice_with_credential(&mut orch);
    let cred_id = vec![1, 2, 3];
    // The stored counter starts at zero: a reported counter of zero did not
    // advance and is refused without touching storage.
    let r = orch.record_authentication_success(&"alice".to_string(), &cred_id, 0, 1_002);
    assert!(matches!(r, Err(AppError::ProtocolFailure)));
    assert_eq!(
        orch.store.find_credential_counter(account_id, &cred_id),
        Some(0)
    );
}

#[test]
fn advancing_counter_updates_and_profile_returned() {
    let mut orch = new_orchestrator();
    let account_id = register_alice_with_credential(&mut orch);
    let cred_id = vec![1, 2, 3];
    let profile = orch
        .record_authentication_success(&"alice".to_string(), &cred_id, 5, 1_002)
        .expect("verified authentication");
    assert_eq!(profile.username, "alice");
    assert_eq!(profile.email, "alice@example.com");
    assert_eq!(profile.display_name, "Alice");
    assert_eq!(
        orch.store.find_credential_counter(account_id, &cred_id),
        Some(5)
    );
}

#[test]
fn replayed_counter_rejected_after_success() {
    let mut orch = new_orchestrator();
    let account_id = register_alice_with_credential(&mut orch);
    let cred_id = vec![1, 2, 3];
    assert!(orch
        .record_authentication_success(&"alice".to_string(), &cred_id, 5, 1_002)
        .is_ok());
    // The ceremony was consumed...
    assert!(orch.store.find_active_ceremony(account_id, 1_002).is_none());
    // ...and the same verdict applied again is a replay: refused.
    let replay = orch.record_authentication_success(&"alice".to_string(), &cred_id, 5, 1_003);
    assert!(matches!(replay, Err(AppError::ProtocolFailure)));
    assert_eq!(
        orch.store.find_credential_counter(account_id, &cred_id),
        Some(5)
    );
}

#[test]
fn unknown_credential_id_is_protocol_failure() {
    let mut orch = new_orchestrator();
    let _ = register_alice_with_credential(&mut orch);
    let r = orch.record_authentication_success(&"alice".to_string(), &vec![7, 7], 5, 1_002);
    assert!(matches!(r, Err(AppError::ProtocolFailure)));
}

#[test]
fn complete_authentication_without_ceremony_bad_request() {
    let mut orch = new_orchestrator();
    let _ = register_alice_with_credential(&mut orch);
    // No authentication ceremony is in flight (and the registration one was
    // consumed), so completion is refused before any cryptography runs.
    let r = orch.complete_authentication(
        &LoginCompleteRequest {
            username: "alice".to_string(),
            credential: junk_assertion(),
        },
        1_002,
    );
    assert!(matches!(r, Err(AppError::BadRequest)));
}

#[test]
fn complete_authentication_unknown_user_bad_request() {
    let mut orch = new_orchestrator();
    // Unlike the registration path, the authentication completion never says
    // whether the user exists: everything is the one BadRequest class.
    let r = orch.complete_authentication(
        &LoginCompleteRequest {
            username: "ghost".to_string(),
            credential: junk_assertion(),
        },
        1_000,
    );
    assert!(matches!(r, Err(AppError::BadRequest)));
}

#[test]
fn wrong_kind_ceremony_bad_request() {
    let mut orch = new_orchestrator();
    // A registration ceremony is in flight; an authentication completion
    // must not consume or use it.
    assert!(orch.begin_registration(&alice_request(), 1_000).is_ok());
    let r = orch.complete_authentication(
        &LoginCompleteRequest {
            username: "alice".to_string(),
            credential: junk_assertion(),
        },
        1_001,
    );
    assert!(matches!(r, Err(AppError::BadRequest)));
}
