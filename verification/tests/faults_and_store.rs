//! Partial-failure behaviour: compensation, retained ceremonies, and the
//! single-ceremony-per-account rule, driven through injected storage faults.

use passkey_ceremony::errors::AppError;
use passkey_ceremony::model::{CeremonyKind, StoreOp};
use passkey_ceremony::orchestrator::{CeremonyOrchestrator, CreateAccountRequest};
use passkey_ceremony::store::{Account, CeremonyRow, CredentialStore};
use webauthn_rs::prelude::Url;
use webauthn_rs::WebauthnBuilder;

fn new_orchestrator() -> CeremonyOrchestrator {
    let rp_origin = Url::parse("https://localhost:8443").expect("origin");
    let webauthn = WebauthnBuilder::new("localhost", &rp_origin)
        .expect("builder")
        .build()
        .expect("webauthn");
    CeremonyOrchestrator::new(webauthn)
}

fn alice_request() -> CreateAccountRequest {
    CreateAccountRequest {
        username: "alice".to_string(),
        email: "alice@example.com".to_string(),
        display_name: "Alice".to_string(),
    }
}

#[test]
fn compensation_removes_account_after_ceremony_write_failure() {
    let mut orch = new_orchestrator();
    orch.store.inject_fault(StoreOp::InsertCeremony);
    let r = orch.begin_registration(&alice_request(), 1_000);
    assert!(matches!(r, Err(AppError::Internal)));
    // The ceremony write failed right after the account write; the
    // compensating delete ran, so no orphan identity survives.
    assert_eq!(orch.store.account_count(), 0);
    assert_eq!(orch.store.ceremony_count(), 0);
    assert!(orch
        .store
        .find_account_by_username(&"alice".to_string())
        .is_none());
    // Once storage is healthy again the same registration goes through.
    orch.store.clear_faults();
    assert!(orch.begin_registration(&alice_request(), 1_001).is_ok());
}

#[test]
fn failed_compensation_leaves_orphan_account() {
    let mut orch = new_orchestrator();
    orch.store.inject_fault(StoreOp::InsertCeremony);
    orch.store.inject_fault(StoreOp::DeleteAccount);
    let r = orch.begin_registration(&alice_request(), 1_000);
    assert!(matches!(r, Err(AppError::Internal)));
    // The compensating delete failed too: hygiene degrades (the orphan row
    // stays) but no ceremony state exists for it.
    assert_eq!(orch.store.account_count(), 1);
    assert_eq!(orch.store.ceremony_count(), 0);
}

#[test]
fn account_write_failure_is_internal_and_writes_nothing() {
    let mut orch = new_orchestrator();
    orch.store.inject_fault(StoreOp::InsertAccount);
    let r = orch.begin_registration(&alice_request(), 1_000);
    assert!(matches!(r, Err(AppError::Internal)));
    assert_eq!(orch.store.account_count(), 0);
    assert_eq!(orch.store.ceremony_count(), 0);
}

#[test]
fn credential_write_failure_keeps_ceremony_for_retry() {
    let mut orch = new_orchestrator();
    assert!(orch.begin_registration(&alice_request(), 1_000).is_ok());
    let account = orch
        .store
        .find_account_by_username(&"alice".to_string())
        .expect("account row");
    orch.store.inject_fault(StoreOp::InsertCredential);
    let r = orch.record_registration_success(&"alice".to_string(), vec![1], vec![7], 1_001);
    assert!(matches!(r, Err(AppError::Internal)));
    // Registration did not complete: the ceremony stays, the caller retries.
    assert!(orch.store.find_active_ceremony(account.id, 1_001).is_some());
    assert_eq!(orch.store.find_credentials_by_account(account.id).len(), 0);
    orch.store.clear_faults();
    assert!(orch
        .record_registration_success(&"alice".to_string(), vec![1], vec![7], 1_002)
        .is_ok());
    assert_eq!(orch.store.find_credentials_by_account(account.id).len(), 1);
}

#[test]
fn ceremony_delete_failure_is_nonfatal() {
    let mut orch = new_orchestrator();
    assert!(orch.begin_registration(&alice_request(), 1_000).is_ok());
    let account = orch
        .store
        .find_account_by_username(&"alice".to_string())
        .expect("account row");
    orch.store.inject_fault(StoreOp::DeleteCeremony);
    // The credential is durable, so the registration still succeeds; only
    // the consuming delete failed and the stale ceremony ages out.
    assert!(orch
        .record_registration_success(&"alice".to_string(), vec![1], vec![7], 1_001)
        .is_ok());
    assert_eq!(orch.store.find_credentials_by_account(account.id).len(), 1);
    assert!(orch.store.find_active_ceremony(account.id, 1_001).is_some());
    assert!(orch.store.find_active_ceremony(account.id, 1_300).is_none());
}

#[test]
fn counter_update_failure_is_internal_and_changes_nothing() {
    let mut orch = new_orchestrator();
    assert!(orch.begin_registration(&alice_request(), 1_000).is_ok());
    assert!(orch
        .record_registration_success(&"alice".to_string(), vec![1], vec![7], 1_001)
        .is_ok());
    let account = orch
        .store
        .find_account_by_username(&"alice".to_string())
        .expect("account row");
    orch.store.inject_fault(StoreOp::UpdateCounter);
    let r = orch.record_authentication_success(&"alice".to_string(), &vec![1], 5, 1_002);
    assert!(matches!(r, Err(AppError::Internal)));
    assert_eq!(
        orch.store.find_credential_counter(account.id, &vec![1]),
        Some(0)
    );
    orch.store.clear_faults();
    assert!(orch
        .record_authentication_success(&"alice".to_string(), &vec![1], 5, 1_003)
        .is_ok());
    assert_eq!(
        orch.store.find_credential_counter(account.id, &vec![1]),
        Some(5)
    );
}

#[test]
fn second_ceremony_replaces_first_for_same_account() {
    let mut store = CredentialStore::new();
    assert!(store
        .insert_account(Account {
            id: 7,
            username: "bob".to_string(),
            email: "bob@example.com".to_string(),
            display_name: "Bob".to_string(),
        })
        .is_ok());
    assert!(store
        .upsert_ceremony(CeremonyRow {
            account_id: 7,
            kind: CeremonyKind::Authentication,
            context: vec![1, 1, 1],
            created_at: 1_000,
        })
        .is_ok());
    assert!(store
        .upsert_ceremony(CeremonyRow {
            account_id: 7,
            kind: CeremonyKind::Authentication,
            context: vec![2, 2, 2],
            created_at: 1_005,
        })
        .is_ok());
    // Only the most recent challenge is live: the first context is gone.
    assert_eq!(store.ceremony_count(), 1);
    let live = store.find_active_ceremony(7, 1_005).expect("live ceremony");
    assert_eq!(live.context, vec![2, 2, 2]);
    assert_eq!(live.created_at, 1_005);
}

#[test]
fn ceremonies_are_independent_across_accounts() {
    let mut store = CredentialStore::new();
    for (id, name) in [(1u128, "ann"), (2u128, "ben")] {
        assert!(store
            .insert_account(Account {
                id,
                username: name.to_string(),
                email: format!("{}@example.com", name),
                display_name: name.to_string(),
            })
            .is_ok());
        assert!(store
            .upsert_ceremony(CeremonyRow {
                account_id: id,
                kind: CeremonyKind::Registration,
                context: vec![id as u8],
                created_at: 1_000,
            })
            .is_ok());
    }
    assert_eq!(store.ceremony_count(), 2);
    assert!(store.delete_ceremony(1).is_ok());
    assert_eq!(store.ceremony_count(), 1);
    assert!(store.find_active_ceremony(1, 1_001).is_none());
    assert!(store.find_active_ceremony(2, 1_001).is_some());
}
