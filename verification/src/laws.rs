//! The protocol's guarantees, stated and proved over the transition model.
//!
//! Each law quantifies over every store state and every value the
//! verification engine could report, and is stated over the same transition
//! functions that the orchestrator's contracts pin its executable code to:
//! what holds here holds of the running operations by composition of
//! contracts.

use vstd::prelude::*;
use crate::errors::AppError;
use crate::model::{
    AccountModel, CeremonyKind, CeremonyModel, CredentialModel, StoreModel, account_for,
    account_index,
    apply_authentication, begin_registration_gate, ceremonies_without, ceremony_for,
    ceremony_index, credential_for, credential_index, credentials_of, fresh_at, has_account,
    has_account_id, has_ceremony, has_credential, lemma_account_lookup_same,
    lemma_ceremonies_without, lemma_ceremony_lookup_same, lemma_matching_credentials_empty,
    lemma_matching_credentials_push, lemma_wf_insert_account, lemma_wf_insert_credential,
    lemma_wf_update_credential, lemma_wf_upsert_ceremony, lookup_ceremony,
    missing_ceremony_error, no_faults, record_authentication_start, record_registration_finish,
    record_registration_start, started_registration, wf_model, CEREMONY_TTL_SECS,
};
use crate::text::trimmed;
use crate::engine;
use crate::orchestrator::{authentication_completion, registration_completion};
use webauthn_rs::Webauthn;
use webauthn_rs::prelude::{PublicKeyCredential, RegisterPublicKeyCredential};

verus! {

/// Registering a username makes it unavailable: once a registration has
/// started for a (trimmed) username, a second `begin_registration` with the
/// same raw username is gated with `Conflict` — and a gated call, by the
/// orchestrator's contract, leaves the store exactly as it was, so no second
/// account row can ever appear.
pub proof fn law_duplicate_username(
    s: StoreModel,
    raw: Seq<char>,
    email: Seq<char>,
    display_name: Seq<char>,
    id: u128,
    context: Seq<u8>,
    now: u64,
)
    requires
        begin_registration_gate(s, raw) is None,
        started_registration(s, trimmed(raw), email, display_name, id, context, now).1 is Ok,
    ensures
        begin_registration_gate(
            started_registration(s, trimmed(raw), email, display_name, id, context, now).0,
            raw,
        ) == Some(AppError::Conflict),
{
    let s1 = started_registration(s, trimmed(raw), email, display_name, id, context, now).0;
    assert(s1.accounts[s.accounts.len() as int].username == trimmed(raw));
    assert(has_account(s1, trimmed(raw)));
}

/// Compensation: when the ceremony write is due to fail right after the
/// account write (and the compensating delete itself is healthy), a
/// registration start reports `Internal` and leaves the store exactly
/// unchanged — no orphan account row survives the failed ceremony start.
pub proof fn law_compensation(s: StoreModel, acct: AccountModel, context: Seq<u8>, now: u64)
    requires
        !s.faults.insert_account,
        s.faults.insert_ceremony,
        !s.faults.delete_account,
    ensures
        record_registration_start(s, acct, context, now).1 == Err::<(), AppError>(
            AppError::Internal,
        ),
        record_registration_start(s, acct, context, now).0 == s,
        !has_account(s, acct.username) ==> !has_account(
            record_registration_start(s, acct, context, now).0,
            acct.username,
        ),
{
}

/// Expiry: a ceremony row older than the validity window is rejected by the
/// completion lookup with exactly the same error, and exactly the same
/// store-indistinguishable answer, as a row that never existed.
pub proof fn law_expiry(s: StoreModel, username: Seq<char>, kind: CeremonyKind, now: u64)
    requires
        wf_model(s),
        has_account(s, username),
        has_ceremony(s, account_for(s, username).id),
        !fresh_at(ceremony_for(s, account_for(s, username).id).created_at, now),
    ensures
        lookup_ceremony(s, username, kind, now) == Err::<CeremonyModel, AppError>(
            missing_ceremony_error(kind),
        ),
        lookup_ceremony(s, username, kind, now) == lookup_ceremony(
            StoreModel { ceremonies: ceremonies_without(s, account_for(s, username).id), ..s },
            username,
            kind,
            now,
        ),
{
    let aid = account_for(s, username).id;
    let s1 = StoreModel { ceremonies: ceremonies_without(s, aid), ..s };
    lemma_ceremonies_without(s, aid);
    assert(!has_ceremony(s1, aid)) by {
        if has_ceremony(s1, aid) {
            let k = ceremony_index(s1, aid);
            assert(s1.ceremonies[k].account_id == aid);
        }
    }
    lemma_account_lookup_same(s, s1, username);
}

/// Counter monotonicity: an authentication verdict whose reported signature
/// counter is not strictly greater than the stored counter is rejected with
/// `ProtocolFailure` and changes nothing in the store.
pub proof fn law_counter_monotonicity(
    s: StoreModel,
    username: Seq<char>,
    credential_id: Seq<u8>,
    reported_counter: u32,
    now: u64,
)
    requires
        has_credential(s, account_for(s, username).id, credential_id),
        reported_counter <= credential_for(
            s,
            account_for(s, username).id,
            credential_id,
        ).signature_counter,
    ensures
        apply_authentication(s, username, credential_id, reported_counter, now).1 == Err::<
            AccountModel,
            AppError,
        >(AppError::ProtocolFailure),
        apply_authentication(s, username, credential_id, reported_counter, now).0 == s,
{
}

/// No replay: once an authentication verdict has been applied successfully,
/// applying the very same verdict again fails with `ProtocolFailure` (the
/// stored counter has caught up with the reported one), and when the
/// consuming delete was healthy the account's ceremony row is gone
/// altogether, so the completion lookup already rejects the attempt.
pub proof fn law_no_replay(
    s: StoreModel,
    username: Seq<char>,
    credential_id: Seq<u8>,
    reported_counter: u32,
    now: u64,
    now2: u64,
)
    requires
        wf_model(s),
        has_account(s, username),
        apply_authentication(s, username, credential_id, reported_counter, now).1 is Ok,
    ensures
        ({
            let s1 = apply_authentication(s, username, credential_id, reported_counter, now).0;
            apply_authentication(s1, username, credential_id, reported_counter, now2).1 == Err::<
                AccountModel,
                AppError,
            >(AppError::ProtocolFailure)
        }),
        !s.faults.delete_ceremony ==> lookup_ceremony(
            apply_authentication(s, username, credential_id, reported_counter, now).0,
            username,
            CeremonyKind::Authentication,
            now2,
        ) is Err,
{
    let aid = account_for(s, username).id;
    let idx = credential_index(s, aid, credential_id);
    let updated = CredentialModel {
        signature_counter: reported_counter,
        ..credential_for(s, aid, credential_id)
    };
    let sm = StoreModel { credentials: s.credentials.update(idx, updated), ..s };
    let s1 = apply_authentication(s, username, credential_id, reported_counter, now).0;
    lemma_wf_update_credential(s, idx, updated);
    assert(wf_model(sm));
    lemma_account_lookup_same(s, s1, username);
    assert(account_for(s1, username).id == aid);
    assert(sm.credentials[idx].account_id == aid && sm.credentials[idx].credential_id
        == credential_id);
    assert(has_credential(sm, aid, credential_id));
    let j = credential_index(sm, aid, credential_id);
    assert(0 <= j < sm.credentials.len() && sm.credentials[j].account_id == aid
        && sm.credentials[j].credential_id == credential_id);
    if j != idx {
        assert(false);
    }
    assert(credential_for(sm, aid, credential_id).signature_counter == reported_counter);
    assert(s1.credentials == sm.credentials);
    assert(has_credential(s1, aid, credential_id)) by {
        assert(s1.credentials[idx].account_id == aid && s1.credentials[idx].credential_id
            == credential_id);
    }
    let j1 = credential_index(s1, aid, credential_id);
    assert(0 <= j1 < s1.credentials.len() && s1.credentials[j1].account_id == aid
        && s1.credentials[j1].credential_id == credential_id);
    if j1 != idx {
        assert(false);
    }
    assert(credential_for(s1, aid, credential_id).signature_counter == reported_counter);
    if !s.faults.delete_ceremony {
        lemma_ceremonies_without(sm, aid);
        assert(!has_ceremony(s1, aid)) by {
            if has_ceremony(s1, aid) {
                let k = ceremony_index(s1, aid);
                assert(s1.ceremonies[k].account_id == aid);
                assert(ceremonies_without(sm, aid)[k].account_id != aid);
            }
        }
    }
}

/// Last begin wins: when two authentication ceremonies are begun for the
/// same account before either completes, the store holds exactly one
/// ceremony row for the account, carrying the second context and timestamp.
/// A completion replays only this stored context to the engine, so only a
/// response signed for the second challenge can verify; one signed for the
/// first is checked against the second context and fails.
pub proof fn law_last_begin_wins(
    s: StoreModel,
    account_id: u128,
    ctx1: Seq<u8>,
    now1: u64,
    ctx2: Seq<u8>,
    now2: u64,
)
    requires
        wf_model(s),
        has_account_id(s, account_id),
        !s.faults.insert_ceremony,
    ensures
        ({
            let s1 = record_authentication_start(s, account_id, ctx1, now1).0;
            let s2 = record_authentication_start(s1, account_id, ctx2, now2).0;
            &&& record_authentication_start(s, account_id, ctx1, now1).1 is Ok
            &&& record_authentication_start(s1, account_id, ctx2, now2).1 is Ok
            &&& has_ceremony(s2, account_id)
            &&& ceremony_for(s2, account_id) == (CeremonyModel {
                account_id,
                kind: CeremonyKind::Authentication,
                context: ctx2,
                created_at: now2,
            })
        }),
{
    let c1 = CeremonyModel {
        account_id,
        kind: CeremonyKind::Authentication,
        context: ctx1,
        created_at: now1,
    };
    let c2 = CeremonyModel {
        account_id,
        kind: CeremonyKind::Authentication,
        context: ctx2,
        created_at: now2,
    };
    let s1 = record_authentication_start(s, account_id, ctx1, now1).0;
    let s2 = record_authentication_start(s1, account_id, ctx2, now2).0;
    lemma_wf_upsert_ceremony(s, c1);
    assert(wf_model(s1));
    lemma_ceremonies_without(s1, account_id);
    let last = s2.ceremonies.len() - 1;
    assert(s2.ceremonies[last] == c2);
    assert(has_ceremony(s2, account_id));
    let k = ceremony_index(s2, account_id);
    assert(0 <= k < s2.ceremonies.len() && s2.ceremonies[k].account_id == account_id);
    if k != last {
        assert(ceremonies_without(s1, account_id)[k].account_id != account_id);
        assert(false);
    }
}

/// Round trip: on a healthy store, beginning a registration for a free
/// username and completing it within the validity window succeeds, creates
/// exactly one credential for the new account, and consumes the ceremony, so
/// the same completion cannot succeed a second time.
pub proof fn law_registration_round_trip(
    s: StoreModel,
    raw: Seq<char>,
    email: Seq<char>,
    display_name: Seq<char>,
    id: u128,
    context: Seq<u8>,
    credential_id: Seq<u8>,
    public_key: Seq<u8>,
    now: u64,
    now2: u64,
)
    requires
        wf_model(s),
        s.faults == no_faults(),
        begin_registration_gate(s, raw) is None,
        !has_account_id(s, id),
        now <= now2 < now + CEREMONY_TTL_SECS,
    ensures
        ({
            let t = trimmed(raw);
            let step1 = started_registration(s, t, email, display_name, id, context, now);
            let s1 = step1.0;
            let step2 = record_registration_finish(
                s1,
                account_for(s1, t).id,
                credential_id,
                public_key,
                now2,
            );
            &&& step1.1 is Ok
            &&& lookup_ceremony(s1, t, CeremonyKind::Registration, now2) is Ok
            &&& account_for(s1, t).id == id
            &&& step2.1 is Ok
            &&& credentials_of(step2.0, id).len() == 1
            &&& lookup_ceremony(step2.0, t, CeremonyKind::Registration, now2) is Err
        }),
{
    let t = trimmed(raw);
    let acct = AccountModel { id, username: t, email, display_name };
    let cer = CeremonyModel {
        account_id: id,
        kind: CeremonyKind::Registration,
        context,
        created_at: now,
    };
    let step1 = started_registration(s, t, email, display_name, id, context, now);
    let s1 = step1.0;
    assert(s1 == (StoreModel {
        accounts: s.accounts.push(acct),
        ceremonies: s.ceremonies.push(cer),
        ..s
    }));

    // The new store is well-formed: fresh username and id, fresh ceremony.
    let sa = StoreModel { accounts: s.accounts.push(acct), ..s };
    lemma_wf_insert_account(s, acct);
    assert(wf_model(sa));
    assert(!has_ceremony(sa, id)) by {
        if has_ceremony(sa, id) {
            let k = ceremony_index(sa, id);
            assert(s.ceremonies[k].account_id == id);
            assert(has_account_id(s, s.ceremonies[k].account_id));
        }
    }
    assert(has_account_id(sa, id)) by {
        assert(sa.accounts[s.accounts.len() as int].id == id);
    }
    lemma_wf_upsert_ceremony(sa, cer);
    assert(ceremonies_without(sa, id) == sa.ceremonies);
    assert(wf_model(s1)) by {
        assert(s1 == (StoreModel { ceremonies: ceremonies_without(sa, id).push(cer), ..sa }));
    }

    // The lookup finds exactly the ceremony the begin step wrote.
    let li = s.accounts.len() as int;
    assert(s1.accounts[li].username == t);
    assert(has_account(s1, t));
    let ai = account_index(s1, t);
    assert(0 <= ai < s1.accounts.len() && s1.accounts[ai].username == t);
    if ai != li {
        assert(false);
    }
    assert(account_for(s1, t).id == id);
    let lc = s.ceremonies.len() as int;
    assert(s1.ceremonies[lc].account_id == id);
    assert(has_ceremony(s1, id));
    let ci = ceremony_index(s1, id);
    assert(0 <= ci < s1.ceremonies.len() && s1.ceremonies[ci].account_id == id);
    if ci != lc {
        assert(false);
    }
    assert(ceremony_for(s1, id) == cer);
    assert(fresh_at(now, now2));
    assert(lookup_ceremony(s1, t, CeremonyKind::Registration, now2) == Ok::<
        CeremonyModel,
        AppError,
    >(cer));

    // The finish step succeeds: the fresh account cannot already own a
    // credential, and no write is due to fail.
    assert(!has_credential(s1, id, credential_id)) by {
        if has_credential(s1, id, credential_id) {
            let k = credential_index(s1, id, credential_id);
            assert(s.credentials[k].account_id == id);
            assert(has_account_id(s, s.credentials[k].account_id));
        }
    }
    let step2 = record_registration_finish(s1, id, credential_id, public_key, now2);
    assert(step2.1 is Ok);
    let cred = CredentialModel {
        account_id: id,
        credential_id,
        public_key,
        signature_counter: 0,
        created_at: now2,
    };
    let sm = StoreModel { credentials: s1.credentials.push(cred), ..s1 };
    let s2 = step2.0;
    assert(s2 == (StoreModel { ceremonies: ceremonies_without(sm, id), ..sm }));

    // Exactly one credential belongs to the new account.
    assert(credentials_of(s2, id).len() == 1) by {
        assert forall|k: int|
            0 <= k < s.credentials.len() implies (#[trigger] s.credentials[k]).account_id
            != id by {
            assert(has_account_id(s, s.credentials[k].account_id));
        }
        lemma_matching_credentials_empty(s.credentials, id);
        lemma_matching_credentials_push(s.credentials, cred, id);
        assert(s2.credentials == s.credentials.push(cred));
    }

    // The ceremony was consumed, so the lookup now refuses the username.
    lemma_wf_insert_credential(s1, cred);
    assert(wf_model(sm));
    lemma_ceremonies_without(sm, id);
    assert(!has_ceremony(s2, id)) by {
        if has_ceremony(s2, id) {
            let k = ceremony_index(s2, id);
            assert(s2.ceremonies[k].account_id == id);
            assert(ceremonies_without(sm, id)[k].account_id != id);
        }
    }
    lemma_account_lookup_same(s1, s2, t);
    assert(account_for(s2, t).id == id);
    assert(lookup_ceremony(s2, t, CeremonyKind::Registration, now2) is Err);
}


/// No replay, at the whole completion: once `complete_authentication` has
/// succeeded, running the very same completion again — same engine
/// configuration, same signed response, same username — fails, whatever the
/// second call's clock reads.  Either the consumed ceremony row is gone, or
/// (when only its delete failed) the retained context yields the same
/// verdict and the stored counter, having caught up, refuses it.
pub proof fn law_no_replay_completion(
    s: StoreModel,
    webauthn: Webauthn,
    credential: PublicKeyCredential,
    username: Seq<char>,
    now: u64,
    now2: u64,
)
    requires
        wf_model(s),
        authentication_completion(s, webauthn, credential, username, now).1 is Ok,
    ensures
        ({
            let s1 = authentication_completion(s, webauthn, credential, username, now).0;
            authentication_completion(s1, webauthn, credential, username, now2).1 is Err
        }),
{
    let out1 = authentication_completion(s, webauthn, credential, username, now);
    let s1 = out1.0;
    let lk = lookup_ceremony(s, username, CeremonyKind::Authentication, now);
    assert(lk is Ok);
    assert(has_account(s, username));
    let c = lk->Ok_0;
    assert(engine::decoded_auth_context(c.context) is Some);
    let st = engine::decoded_auth_context(c.context)->Some_0;
    assert(engine::authentication_verdict(webauthn, credential, st) is Some);
    let v = engine::authentication_verdict(webauthn, credential, st)->Some_0;
    assert(apply_authentication(s, username, v.0, v.1, now).1 is Ok);
    assert(s1 == apply_authentication(s, username, v.0, v.1, now).0);
    law_no_replay(s, username, v.0, v.1, now, now2);
    let lk2 = lookup_ceremony(s1, username, CeremonyKind::Authentication, now2);
    if lk2 is Ok {
        // The row survived, so only the consuming delete can have failed.
        assert(s.faults.delete_ceremony);
        assert(s1.ceremonies == s.ceremonies);
        lemma_account_lookup_same(s, s1, username);
        let aid = account_for(s, username).id;
        lemma_ceremony_lookup_same(s, s1, aid);
        let c2 = lk2->Ok_0;
        assert(c2 == ceremony_for(s1, aid));
        assert(c == ceremony_for(s, aid));
        assert(c2 == c);
        assert(authentication_completion(s1, webauthn, credential, username, now2).1
            == apply_authentication(s1, username, v.0, v.1, now2).1);
    }
}

/// The registration round trip completes exactly once: when
/// `complete_registration` has succeeded (and the consuming delete was
/// healthy), running the very same completion again finds no registration
/// ceremony and fails `NotFound`, changing nothing.
pub proof fn law_registration_completes_once(
    s: StoreModel,
    webauthn: Webauthn,
    credential: RegisterPublicKeyCredential,
    username: Seq<char>,
    now: u64,
    now2: u64,
)
    requires
        wf_model(s),
        !s.faults.delete_ceremony,
        registration_completion(s, webauthn, credential, username, now).1 is Ok,
    ensures
        ({
            let s1 = registration_completion(s, webauthn, credential, username, now).0;
            registration_completion(s1, webauthn, credential, username, now2) == (
                s1,
                Err::<(), AppError>(AppError::NotFound),
            )
        }),
{
    let out1 = registration_completion(s, webauthn, credential, username, now);
    let s1 = out1.0;
    let lk = lookup_ceremony(s, username, CeremonyKind::Registration, now);
    assert(lk is Ok);
    assert(has_account(s, username));
    let aid = account_for(s, username).id;
    assert(engine::decoded_reg_context(lk->Ok_0.context) is Some);
    let st = engine::decoded_reg_context(lk->Ok_0.context)->Some_0;
    assert(engine::registration_verdict(webauthn, credential, st) is Some);
    let p = engine::registration_verdict(webauthn, credential, st)->Some_0;
    assert(engine::passkey_encoding(p) is Some);
    let pk = engine::passkey_encoding(p)->Some_0;
    let cid = engine::passkey_id_of(p);
    let step = record_registration_finish(s, aid, cid, pk, now);
    assert(out1 == step);
    assert(step.1 is Ok);
    assert(!has_credential(s, aid, cid));
    let cred = CredentialModel {
        account_id: aid,
        credential_id: cid,
        public_key: pk,
        signature_counter: 0,
        created_at: now,
    };
    let sm = StoreModel { credentials: s.credentials.push(cred), ..s };
    assert(s1 == (StoreModel { ceremonies: ceremonies_without(sm, aid), ..sm }));
    assert(has_account_id(s, aid)) by {
        assert(s.accounts[account_index(s, username)].id == aid);
    }
    lemma_wf_insert_credential(s, cred);
    assert(wf_model(sm));
    lemma_ceremonies_without(sm, aid);
    assert(!has_ceremony(s1, aid)) by {
        if has_ceremony(s1, aid) {
            let k = ceremony_index(s1, aid);
            assert(s1.ceremonies[k].account_id == aid);
            assert(ceremonies_without(sm, aid)[k].account_id != aid);
        }
    }
    lemma_account_lookup_same(s, s1, username);
    assert(account_for(s1, username).id == aid);
    assert(lookup_ceremony(s1, username, CeremonyKind::Registration, now2) == Err::<
        CeremonyModel,
        AppError,
    >(AppError::NotFound));
}

} // verus!
