//! The ceremony orchestrator: the four operations a relying party exposes.
//!
//! Each operation re-reads authoritative state from the credential store,
//! consults the verification engine through the trusted boundary in
//! [`crate::engine`], and then moves the store along one of the transitions
//! of [`crate::model`].  The contracts say exactly which transition, for
//! every outcome the engine can produce.

use vstd::prelude::*;
use webauthn_rs::Webauthn;
use webauthn_rs::prelude::{
    CreationChallengeResponse, Passkey, PublicKeyCredential, RegisterPublicKeyCredential,
    RequestChallengeResponse,
};
use crate::errors::AppError;
use crate::engine;
use crate::model::{
    AccountModel, CeremonyKind, CredentialModel, StoreModel, account_for, apply_authentication,
    begin_authentication_gate, begin_registration_gate, ceremonies_without, ceremony_index,
    credentials_of, has_account, has_account_id, has_ceremony, lookup_ceremony,
    record_authentication_start, record_registration_finish, started_registration,
};
use crate::store::{Account, CeremonyRow, CredentialStore, StoredCredential};
use crate::text::{trim_spaces, trimmed};

verus! {

/// What a caller supplies to begin a registration ceremony.
pub struct CreateAccountRequest {
    pub username: String,
    pub email: String,
    pub display_name: String,
}

/// What a caller supplies to begin an authentication ceremony.
pub struct LoginAccountRequest {
    pub username: String,
}

/// What a caller supplies to complete a registration ceremony: the
/// authenticator's signed attestation for the issued challenge.
pub struct RegisterCompleteRequest {
    pub username: String,
    pub credential: RegisterPublicKeyCredential,
}

/// What a caller supplies to complete an authentication ceremony: the
/// authenticator's signed assertion for the issued challenge.
pub struct LoginCompleteRequest {
    pub username: String,
    pub credential: PublicKeyCredential,
}

/// The authenticated account's public profile.
pub struct UserInfo {
    pub username: String,
    pub email: String,
    pub display_name: String,
}

/// The orchestrator: the verification engine configuration and the store it
/// mediates, passed in as explicit dependencies.
pub struct CeremonyOrchestrator {
    pub webauthn: Webauthn,
    pub store: CredentialStore,
}

/// Everything `complete_registration` does, as one function of the store,
/// the engine configuration, and the caller's response: the ceremony lookup,
/// the decoding of the stored context, the engine's verdict on the
/// attestation, the serialization of the new passkey, and the storage step.
/// The operation's contract equates its result and final store with this
/// function, so success is owed exactly where this says `Ok`.
pub open spec fn registration_completion(
    s: StoreModel,
    webauthn: Webauthn,
    credential: RegisterPublicKeyCredential,
    username: Seq<char>,
    now: u64,
) -> (StoreModel, Result<(), AppError>) {
    match lookup_ceremony(s, username, CeremonyKind::Registration, now) {
        Err(e) => (s, Err(e)),
        Ok(c) => match engine::decoded_reg_context(c.context) {
            None => (s, Err(AppError::Internal)),
            Some(state) => match engine::registration_verdict(webauthn, credential, state) {
                None => (s, Err(AppError::ProtocolFailure)),
                Some(passkey) => match engine::passkey_encoding(passkey) {
                    None => (s, Err(AppError::Internal)),
                    Some(public_key) => record_registration_finish(
                        s,
                        account_for(s, username).id,
                        engine::passkey_id_of(passkey),
                        public_key,
                        now,
                    ),
                },
            },
        },
    }
}

/// Everything `complete_authentication` does, as one function of the store,
/// the engine configuration, and the caller's response: the ceremony lookup,
/// the decoding of the stored context, the engine's verdict on the
/// assertion, and the counter-checking storage step.  The operation's
/// contract equates its result and final store with this function, so
/// success is owed exactly where this says `Ok`.
pub open spec fn authentication_completion(
    s: StoreModel,
    webauthn: Webauthn,
    credential: PublicKeyCredential,
    username: Seq<char>,
    now: u64,
) -> (StoreModel, Result<AccountModel, AppError>) {
    match lookup_ceremony(s, username, CeremonyKind::Authentication, now) {
        Err(e) => (s, Err(e)),
        Ok(c) => match engine::decoded_auth_context(c.context) {
            None => (s, Err(AppError::Internal)),
            Some(state) => match engine::authentication_verdict(webauthn, credential, state) {
                None => (s, Err(AppError::ProtocolFailure)),
                Some(verdict) => apply_authentication(s, username, verdict.0, verdict.1, now),
            },
        },
    }
}

/// Whether none of the account's stored credential rows decodes into a
/// passkey.  Such an account cannot be verified against anything, so
/// `begin_authentication` refuses it the same way as one with no credential
/// rows at all.
pub open spec fn no_stored_passkey_decodes(s: StoreModel, account_id: u128) -> bool {
    forall|k: int|
        0 <= k < credentials_of(s, account_id).len() ==> (#[trigger] engine::decoded_passkey(
            credentials_of(s, account_id)[k].public_key,
        )) is None
}

impl CeremonyOrchestrator {
    /// A fresh orchestrator over an empty store.
    pub fn new(webauthn: Webauthn) -> (r: Self)
        ensures
            r.store.wf(),
            r.store@.accounts == Seq::<AccountModel>::empty(),
            r.store@.credentials == Seq::<CredentialModel>::empty(),
            r.store@.ceremonies == Seq::<crate::model::CeremonyModel>::empty(),
            r.store@.faults == crate::model::no_faults(),
    {
        CeremonyOrchestrator { webauthn, store: CredentialStore::new() }
    }

    /// Begin a registration ceremony: reject an empty or taken username,
    /// allocate a fresh account id, obtain a challenge from the engine, and
    /// persist the account together with its registration ceremony — or
    /// neither, when the ceremony write fails and the account is compensated
    /// away.  The caller receives the challenge, never the raw context.
    pub fn begin_registration(&mut self, req: &CreateAccountRequest, now: u64) -> (r: Result<
        CreationChallengeResponse,
        AppError,
    >)
        requires
            old(self).store.wf(),
        ensures
            final(self).store.wf(),
            final(self).webauthn == old(self).webauthn,
            final(self).store@.faults == old(self).store@.faults,
            (match begin_registration_gate(old(self).store@, req.username@) {
                Some(e) => r is Err && r->Err_0 == e && final(self).store@ == old(self).store@,
                None => (match r {
                    Ok(_) => exists|id: u128, context: Seq<u8>|
                        #![trigger started_registration(
                            old(self).store@,
                            trimmed(req.username@),
                            req.email@,
                            req.display_name@,
                            id,
                            context,
                            now,
                        )]
                        {
                            let step = started_registration(
                                old(self).store@,
                                trimmed(req.username@),
                                req.email@,
                                req.display_name@,
                                id,
                                context,
                                now,
                            );
                            &&& !has_account_id(old(self).store@, id)
                            &&& step.1 is Ok
                            &&& final(self).store@ == step.0
                        },
                    Err(e) => {
                        &&& e == AppError::Internal
                        &&& final(self).store@.credentials == old(self).store@.credentials
                        &&& final(self).store@.ceremonies == old(self).store@.ceremonies
                        &&& (final(self).store@.accounts == old(self).store@.accounts || (old(
                            self,
                        ).store@.faults.insert_ceremony && old(self).store@.faults.delete_account
                            && exists|id: u128, context: Seq<u8>|
                            #![trigger started_registration(
                                old(self).store@,
                                trimmed(req.username@),
                                req.email@,
                                req.display_name@,
                                id,
                                context,
                                now,
                            )]
                            {
                                let step = started_registration(
                                    old(self).store@,
                                    trimmed(req.username@),
                                    req.email@,
                                    req.display_name@,
                                    id,
                                    context,
                                    now,
                                );
                                &&& !has_account_id(old(self).store@, id)
                                &&& step.1 is Err
                                &&& final(self).store@ == step.0
                            }))
                    },
                }),
            }),
    {
        let ghost s0 = self.store@;
        let ghost t = trimmed(req.username@);
        let username = trim_spaces(req.username.as_str());
        if username.as_str().is_empty() {
            return Err(AppError::BadRequest);
        }
        if self.store.find_account_by_username(&username).is_some() {
            return Err(AppError::Conflict);
        }
        let id = engine::fresh_account_id();
        if self.store.account_id_in_use(id) {
            return Err(AppError::Internal);
        }
        let started = engine::start_registration(
            &self.webauthn,
            id,
            username.as_str(),
            req.display_name.as_str(),
        );
        let (challenge, reg_state) = match started {
            Ok(pair) => pair,
            Err(_) => {
                return Err(AppError::Internal);
            },
        };
        let context = match engine::encode_registration_state(&reg_state) {
            Ok(blob) => blob,
            Err(_) => {
                return Err(AppError::Internal);
            },
        };
        let ghost ctxm = context@;
        let account = Account {
            id,
            username,
            email: req.email.clone(),
            display_name: req.display_name.clone(),
        };
        let ghost acctm = account@;
        proof {
            assert(acctm == (AccountModel {
                id,
                username: t,
                email: req.email@,
                display_name: req.display_name@,
            }));
        }
        if self.store.insert_account(account).is_err() {
            return Err(AppError::Internal);
        }
        let ghost mid = self.store@;
        let row = CeremonyRow {
            account_id: id,
            kind: CeremonyKind::Registration,
            context,
            created_at: now,
        };
        let ghost rowm = row@;
        proof {
            assert(has_account_id(mid, id)) by {
                assert(mid.accounts[s0.accounts.len() as int].id == id);
            }
            assert(!has_ceremony(mid, id)) by {
                if has_ceremony(mid, id) {
                    let k = ceremony_index(mid, id);
                    assert(mid.ceremonies[k].account_id == id);
                    assert(s0.ceremonies[k].account_id == id);
                    assert(has_account_id(s0, s0.ceremonies[k].account_id));
                }
            }
        }
        match self.store.upsert_ceremony(row) {
            Ok(_) => {
                proof {
                    let step = started_registration(
                        s0,
                        t,
                        req.email@,
                        req.display_name@,
                        id,
                        ctxm,
                        now,
                    );
                    assert(ceremonies_without(mid, id) == mid.ceremonies);
                    assert(self.store@.ceremonies == s0.ceremonies.push(rowm));
                    assert(self.store@ == step.0);
                    assert(step.1 is Ok);
                }
                Ok(challenge)
            },
            Err(_) => {
                // The ceremony write failed after the account write:
                // compensate by deleting the just-created account, so no
                // orphan identity survives a failed ceremony start.  The
                // compensating delete itself failing is non-fatal.
                proof {
                    assert forall|k: int|
                        0 <= k < mid.ceremonies.len() implies (
                    #[trigger] mid.ceremonies[k]).account_id != id by {
                        if mid.ceremonies[k].account_id == id {
                            assert(has_ceremony(mid, id));
                        }
                    }
                    assert forall|k: int|
                        0 <= k < mid.credentials.len() implies (
                    #[trigger] mid.credentials[k]).account_id != id by {
                        assert(has_account_id(s0, s0.credentials[k].account_id));
                    }
                }
                let compensated = self.store.delete_account(id);
                proof {
                    let step = started_registration(
                        s0,
                        t,
                        req.email@,
                        req.display_name@,
                        id,
                        ctxm,
                        now,
                    );
                    if compensated is Ok {
                        let g = crate::model::account_id_index(mid, id);
                        assert(0 <= g < mid.accounts.len() && mid.accounts[g].id == id);
                        if g < s0.accounts.len() {
                            assert(s0.accounts[g].id == id);
                            assert(false);
                        }
                        assert(g == s0.accounts.len());
                        mid.accounts.remove_ensures(g);
                        assert(mid.accounts.remove(g) =~= s0.accounts);
                        assert(self.store@ == s0);
                    } else {
                        assert(self.store@ == mid);
                        assert(step.1 is Err);
                        assert(self.store@ == step.0);
                    }
                }
                Err(AppError::Internal)
            },
        }
    }

    /// Persist the credential a verified registration produced and consume
    /// the ceremony: the storage half of `complete_registration`, after the
    /// engine's verdict.  Public so this half can be driven directly with any
    /// credential id and key material the engine could report.
    pub fn record_registration_success(
        &mut self,
        username: &String,
        credential_id: Vec<u8>,
        public_key: Vec<u8>,
        now: u64,
    ) -> (r: Result<(), AppError>)
        requires
            old(self).store.wf(),
        ensures
            final(self).store.wf(),
            final(self).webauthn == old(self).webauthn,
            !has_account(old(self).store@, username@) ==> r is Err && r->Err_0
                == AppError::NotFound && final(self).store@ == old(self).store@,
            has_account(old(self).store@, username@) ==> ({
                let step = record_registration_finish(
                    old(self).store@,
                    account_for(old(self).store@, username@).id,
                    credential_id@,
                    public_key@,
                    now,
                );
                final(self).store@ == step.0 && r == step.1
            }),
    {
        let ghost s0 = self.store@;
        let account = match self.store.find_account_by_username(username) {
            Some(a) => a,
            None => {
                return Err(AppError::NotFound);
            },
        };
        let ghost aid = account@.id;
        if self.store.credential_exists(account.id, &credential_id) {
            return Err(AppError::ProtocolFailure);
        }
        let ghost cim = credential_id@;
        let ghost pkm = public_key@;
        proof {
            assert(has_account_id(s0, aid)) by {
                assert(s0.accounts[crate::model::account_index(s0, username@)].id == aid);
            }
        }
        let cred = StoredCredential {
            account_id: account.id,
            credential_id,
            public_key,
            signature_counter: 0,
            created_at: now,
        };
        if self.store.insert_credential(cred).is_err() {
            return Err(AppError::Internal);
        }
        let ghost mid = self.store@;
        // Consuming the ceremony can fail; that is non-fatal, the credential
        // is already durable and the stale ceremony ages out.
        let _ = self.store.delete_ceremony(account.id);
        proof {
            let step = record_registration_finish(s0, aid, cim, pkm, now);
            if s0.faults.delete_ceremony {
                assert(self.store@ == step.0);
            } else {
                assert(self.store@ == (StoreModel {
                    ceremonies: ceremonies_without(mid, aid),
                    ..mid
                }));
                assert(self.store@ == step.0);
            }
        }
        Ok(())
    }

    /// Complete a registration ceremony: read the account's registration
    /// ceremony (absent, expired, or wrong-kind state is reported as
    /// `NotFound`, never distinguishing which), replay the stored context to
    /// the engine with the authenticator's attestation, and on a verified
    /// response persist the new credential and consume the ceremony.  Any
    /// verification failure leaves the ceremony untouched, so the caller may
    /// retry against the still-valid challenge.
    pub fn complete_registration(&mut self, req: &RegisterCompleteRequest, now: u64) -> (r:
        Result<(), AppError>)
        requires
            old(self).store.wf(),
        ensures
            final(self).store.wf(),
            final(self).webauthn == old(self).webauthn,
            ({
                let out = registration_completion(
                    old(self).store@,
                    old(self).webauthn,
                    req.credential,
                    trimmed(req.username@),
                    now,
                );
                final(self).store@ == out.0 && r == out.1
            }),
    {
        let ghost s0 = self.store@;
        let ghost t = trimmed(req.username@);
        let username = trim_spaces(req.username.as_str());
        let account = match self.store.find_account_by_username(&username) {
            Some(a) => a,
            None => {
                return Err(AppError::NotFound);
            },
        };
        let ceremony = match self.store.find_active_ceremony(account.id, now) {
            Some(c) => c,
            None => {
                return Err(AppError::NotFound);
            },
        };
        if ceremony.kind != CeremonyKind::Registration {
            return Err(AppError::NotFound);
        }
        let reg_state = match engine::decode_registration_state(&ceremony.context) {
            Ok(state) => state,
            Err(_) => {
                return Err(AppError::Internal);
            },
        };
        let passkey = match engine::finish_registration(&self.webauthn, &req.credential, &reg_state)
            {
            Ok(p) => p,
            Err(_) => {
                return Err(AppError::ProtocolFailure);
            },
        };
        let credential_id = engine::passkey_credential_id(&passkey);
        let public_key = match engine::encode_passkey(&passkey) {
            Ok(blob) => blob,
            Err(_) => {
                return Err(AppError::Internal);
            },
        };
        let ghost cim = credential_id@;
        let ghost pkm = public_key@;
        let out = self.record_registration_success(&username, credential_id, public_key, now);
        proof {
            let pipe = registration_completion(s0, old(self).webauthn, req.credential, t, now);
            let step = record_registration_finish(s0, account_for(s0, t).id, cim, pkm, now);
            assert(pipe == step);
            assert(out == step.1);
        }
        out
    }

    /// Apply the engine's verdict on an authentication response: the storage
    /// half of `complete_authentication`.  The reported credential must be
    /// one of the account's and its reported signature counter must be
    /// strictly greater than the stored one; on success the counter advances,
    /// the ceremony is consumed, and the account's public profile is
    /// returned.  Public so this half can be driven directly with any
    /// (credential id, counter) pair the engine could report.
    pub fn record_authentication_success(
        &mut self,
        username: &String,
        credential_id: &Vec<u8>,
        reported_counter: u32,
        now: u64,
    ) -> (r: Result<UserInfo, AppError>)
        requires
            old(self).store.wf(),
        ensures
            final(self).store.wf(),
            final(self).webauthn == old(self).webauthn,
            !has_account(old(self).store@, username@) ==> r is Err && r->Err_0
                == AppError::NotFound && final(self).store@ == old(self).store@,
            has_account(old(self).store@, username@) ==> ({
                let step = apply_authentication(
                    old(self).store@,
                    username@,
                    credential_id@,
                    reported_counter,
                    now,
                );
                &&& final(self).store@ == step.0
                &&& (match r {
                    Ok(p) => step.1 is Ok && p.username@ == step.1->Ok_0.username && p.email@
                        == step.1->Ok_0.email && p.display_name@ == step.1->Ok_0.display_name,
                    Err(e) => step.1 is Err && e == step.1->Err_0,
                })
            }),
    {
        let ghost s0 = self.store@;
        let account = match self.store.find_account_by_username(username) {
            Some(a) => a,
            None => {
                return Err(AppError::NotFound);
            },
        };
        let ghost aid = account@.id;
        let stored_counter = match self.store.find_credential_counter(account.id, &credential_id) {
            Some(c) => c,
            None => {
                return Err(AppError::ProtocolFailure);
            },
        };
        if reported_counter <= stored_counter {
            // A counter that did not advance may mean a cloned authenticator:
            // refuse and leave the ceremony in place.
            return Err(AppError::ProtocolFailure);
        }
        if self.store.update_credential_counter(account.id, &credential_id, reported_counter)
            .is_err() {
            return Err(AppError::Internal);
        }
        let ghost mid = self.store@;
        let _ = self.store.delete_ceremony(account.id);
        proof {
            let step = apply_authentication(s0, username@, credential_id@, reported_counter, now);
            if s0.faults.delete_ceremony {
                assert(self.store@ == step.0);
            } else {
                assert(self.store@ == (StoreModel {
                    ceremonies: ceremonies_without(mid, aid),
                    ..mid
                }));
                assert(self.store@ == step.0);
            }
        }
        Ok(UserInfo {
            username: account.username,
            email: account.email,
            display_name: account.display_name,
        })
    }

    /// Complete an authentication ceremony: read the account's authentication
    /// ceremony, enforcing the validity window at read time (an expired or
    /// absent ceremony is `BadRequest`, never distinguishing which), replay
    /// the stored context to the engine with the signed assertion, and let
    /// the store act on what the engine decided: the signature counter must
    /// advance strictly, and on success it does while the ceremony row goes
    /// away and the account's profile comes back.  Every failure leaves the
    /// store untouched.
    pub fn complete_authentication(&mut self, req: &LoginCompleteRequest, now: u64) -> (r: Result<
        UserInfo,
        AppError,
    >)
        requires
            old(self).store.wf(),
        ensures
            final(self).store.wf(),
            final(self).webauthn == old(self).webauthn,
            ({
                let out = authentication_completion(
                    old(self).store@,
                    old(self).webauthn,
                    req.credential,
                    trimmed(req.username@),
                    now,
                );
                &&& final(self).store@ == out.0
                &&& (match r {
                    Ok(p) => out.1 is Ok && p.username@ == out.1->Ok_0.username && p.email@
                        == out.1->Ok_0.email && p.display_name@ == out.1->Ok_0.display_name,
                    Err(e) => out.1 is Err && e == out.1->Err_0,
                })
            }),
    {
        let ghost s0 = self.store@;
        let ghost t = trimmed(req.username@);
        let username = trim_spaces(req.username.as_str());
        let account = match self.store.find_account_by_username(&username) {
            Some(a) => a,
            None => {
                return Err(AppError::BadRequest);
            },
        };
        let ceremony = match self.store.find_active_ceremony(account.id, now) {
            Some(c) => c,
            None => {
                return Err(AppError::BadRequest);
            },
        };
        if ceremony.kind != CeremonyKind::Authentication {
            return Err(AppError::BadRequest);
        }
        let auth_state = match engine::decode_authentication_state(&ceremony.context) {
            Ok(state) => state,
            Err(_) => {
                return Err(AppError::Internal);
            },
        };
        let verdict = engine::finish_authentication(&self.webauthn, &req.credential, &auth_state);
        let (credential_id, reported_counter) = match verdict {
            Ok(pair) => pair,
            Err(_) => {
                return Err(AppError::ProtocolFailure);
            },
        };
        let ghost cim = credential_id@;
        let out = self.record_authentication_success(
            &username,
            &credential_id,
            reported_counter,
            now,
        );
        proof {
            let pipe = authentication_completion(s0, old(self).webauthn, req.credential, t, now);
            let step = apply_authentication(s0, t, cim, reported_counter, now);
            assert(pipe == step);
        }
        out
    }

    /// Begin an authentication ceremony: the account must exist and have at
    /// least one registered credential; the engine issues a challenge bound
    /// to the full credential set, and the stored ceremony replaces any prior
    /// one for this account, so only the most recent challenge can ever
    /// complete.
    pub fn begin_authentication(&mut self, req: &LoginAccountRequest, now: u64) -> (r: Result<
        RequestChallengeResponse,
        AppError,
    >)
        requires
            old(self).store.wf(),
        ensures
            final(self).store.wf(),
            final(self).webauthn == old(self).webauthn,
            final(self).store@.faults == old(self).store@.faults,
            (match begin_authentication_gate(old(self).store@, req.username@) {
                Some(e) => r is Err && r->Err_0 == e && final(self).store@ == old(self).store@,
                None => (match r {
                    Ok(_) => exists|context: Seq<u8>|
                        #![trigger record_authentication_start(
                            old(self).store@,
                            account_for(old(self).store@, trimmed(req.username@)).id,
                            context,
                            now,
                        )]
                        {
                            let step = record_authentication_start(
                                old(self).store@,
                                account_for(old(self).store@, trimmed(req.username@)).id,
                                context,
                                now,
                            );
                            step.1 is Ok && final(self).store@ == step.0
                        },
                    Err(e) => final(self).store@ == old(self).store@ && (e == AppError::Internal
                        || e == AppError::BadRequest) && ((e == AppError::BadRequest)
                        <==> no_stored_passkey_decodes(
                        old(self).store@,
                        account_for(old(self).store@, trimmed(req.username@)).id,
                    )),
                }),
            }),
    {
        let ghost s0 = self.store@;
        let ghost t = trimmed(req.username@);
        let username = trim_spaces(req.username.as_str());
        if username.as_str().is_empty() {
            return Err(AppError::BadRequest);
        }
        let account = match self.store.find_account_by_username(&username) {
            Some(a) => a,
            None => {
                return Err(AppError::NotFound);
            },
        };
        let rows = self.store.find_credentials_by_account(account.id);
        if rows.len() == 0 {
            proof {
                assert(credentials_of(s0, account_for(s0, t).id).len() == 0);
            }
            return Err(AppError::BadRequest);
        }
        let ghost aid = account@.id;
        let mut passkeys: Vec<Passkey> = Vec::new();
        let row_count = rows.len();
        let mut i: usize = 0;
        while i < row_count
            invariant
                i <= row_count,
                row_count == rows@.len(),
                (passkeys@.len() == 0) <==> (forall|k: int|
                    0 <= k < i ==> (#[trigger] engine::decoded_passkey(
                        rows@[k]@.public_key,
                    )) is None),
            decreases row_count - i,
        {
            // A blob that no longer decodes is skipped; the account may still
            // authenticate with its other credentials.
            proof {
                assert(rows@[i as int]@.public_key == rows@[i as int].public_key@);
            }
            match engine::decode_passkey(&rows[i].public_key) {
                Ok(p) => {
                    proof {
                        assert(!(engine::decoded_passkey(rows@[i as int]@.public_key) is None));
                    }
                    passkeys.push(p);
                },
                Err(_) => {
                    proof {
                        assert(engine::decoded_passkey(rows@[i as int]@.public_key) is None);
                    }
                },
            }
            i = i + 1;
        }
        if passkeys.len() == 0 {
            proof {
                assert forall|k: int|
                    0 <= k < credentials_of(s0, aid).len() implies (
                #[trigger] engine::decoded_passkey(
                    credentials_of(s0, aid)[k].public_key,
                )) is None by {
                    assert(credentials_of(s0, aid)[k] == rows@[k]@);
                    assert(engine::decoded_passkey(rows@[k]@.public_key) is None);
                }
                assert(no_stored_passkey_decodes(s0, account_for(s0, t).id));
            }
            return Err(AppError::BadRequest);
        }
        proof {
            // At least one stored blob decodes, so any later refusal is a
            // storage or engine failure, never the unverifiable-account one.
            assert(!(forall|k: int|
                0 <= k < rows@.len() ==> (#[trigger] engine::decoded_passkey(
                    rows@[k]@.public_key,
                )) is None));
            let k0 = choose|k: int|
                0 <= k < rows@.len() && !((#[trigger] engine::decoded_passkey(
                    rows@[k]@.public_key,
                )) is None);
            assert(credentials_of(s0, aid)[k0] == rows@[k0]@);
            assert(!no_stored_passkey_decodes(s0, account_for(s0, t).id));
        }
        let started = engine::start_authentication(&self.webauthn, &passkeys);
        let (challenge, auth_state) = match started {
            Ok(pair) => pair,
            Err(_) => {
                return Err(AppError::Internal);
            },
        };
        let context = match engine::encode_authentication_state(&auth_state) {
            Ok(blob) => blob,
            Err(_) => {
                return Err(AppError::Internal);
            },
        };
        let ghost ctxm = context@;
        proof {
            assert(has_account_id(s0, account@.id)) by {
                assert(s0.accounts[crate::model::account_index(s0, t)].id == account@.id);
            }
        }
        let row = CeremonyRow {
            account_id: account.id,
            kind: CeremonyKind::Authentication,
            context,
            created_at: now,
        };
        let ghost rowm = row@;
        match self.store.upsert_ceremony(row) {
            Ok(_) => {
                proof {
                    let step = record_authentication_start(s0, account_for(s0, t).id, ctxm, now);
                    assert(step.1 is Ok && self.store@ == step.0);
                }
                Ok(challenge)
            },
            Err(_) => Err(AppError::Internal),
        }
    }

}

} // verus!
