//! The trusted boundary around the cryptographic verification engine and the
//! ceremony-state codec.
//!
//! The WebAuthn signature mathematics live in the `webauthn_rs` crate and the
//! context blobs are serialized with `serde_json`; both are opaque to the
//! verifier.  Each function here wraps exactly one outside call.  The
//! challenge-issuing calls draw randomness, so nothing is promised of their
//! results.  The completion-side calls — decoding a stored context and
//! verifying a signed response against it — are functions of their arguments
//! alone: their results are given names below, so the orchestrator's
//! contracts can say exactly when success is owed, while what a name stands
//! for on given values stays the outside crate's verdict.

use vstd::prelude::*;
use webauthn_rs::Webauthn;
use webauthn_rs::prelude::{
    CreationChallengeResponse, Passkey, PasskeyAuthentication, PasskeyRegistration,
    PublicKeyCredential, RegisterPublicKeyCredential, RequestChallengeResponse, WebauthnError,
};

verus! {

#[verifier::external_type_specification]
#[verifier::external_body]
pub struct ExWebauthn(Webauthn);

#[verifier::external_type_specification]
#[verifier::external_body]
pub struct ExCreationChallengeResponse(CreationChallengeResponse);

#[verifier::external_type_specification]
#[verifier::external_body]
pub struct ExRequestChallengeResponse(RequestChallengeResponse);

#[verifier::external_type_specification]
#[verifier::external_body]
pub struct ExPasskeyRegistration(PasskeyRegistration);

#[verifier::external_type_specification]
#[verifier::external_body]
pub struct ExPasskeyAuthentication(PasskeyAuthentication);

#[verifier::external_type_specification]
#[verifier::external_body]
pub struct ExPasskey(Passkey);

#[verifier::external_type_specification]
#[verifier::external_body]
pub struct ExRegisterPublicKeyCredential(RegisterPublicKeyCredential);

#[verifier::external_type_specification]
#[verifier::external_body]
pub struct ExPublicKeyCredential(PublicKeyCredential);

#[verifier::external_type_specification]
#[verifier::external_body]
pub struct ExWebauthnError(WebauthnError);

#[verifier::external_type_specification]
#[verifier::external_body]
pub struct ExSerdeJsonError(serde_json::Error);


/// The registration context `serde_json::from_slice` reads out of a stored
/// blob, or `None` when the blob does not decode.  Decoding is a function of
/// the bytes alone.
pub uninterp spec fn decoded_reg_context(blob: Seq<u8>) -> Option<PasskeyRegistration>;

/// The authentication context `serde_json::from_slice` reads out of a stored
/// blob, or `None` when the blob does not decode.
pub uninterp spec fn decoded_auth_context(blob: Seq<u8>) -> Option<PasskeyAuthentication>;

/// The passkey `serde_json::from_slice` reads out of a stored credential
/// row's key material, or `None` when the blob does not decode.
pub uninterp spec fn decoded_passkey(blob: Seq<u8>) -> Option<Passkey>;

/// The bytes `serde_json::to_vec` produces for a passkey, or `None` when
/// serialization fails.
pub uninterp spec fn passkey_encoding(passkey: Passkey) -> Option<Seq<u8>>;

/// The credential id a passkey answers to, as `Passkey::cred_id` reports it.
pub uninterp spec fn passkey_id_of(passkey: Passkey) -> Seq<u8>;

/// The verdict of `Webauthn::finish_passkey_registration`: the new passkey
/// when the attestation verifies against the registration context, `None`
/// when it does not.  Verification consults no clock and no randomness, so
/// the verdict is a function of the three arguments alone.
pub uninterp spec fn registration_verdict(
    webauthn: Webauthn,
    credential: RegisterPublicKeyCredential,
    state: PasskeyRegistration,
) -> Option<Passkey>;

/// The verdict of `Webauthn::finish_passkey_authentication`: the signing
/// credential's id and its reported signature counter when the assertion
/// verifies against the authentication context, `None` when it does not.
/// Verification consults no clock and no randomness, so the verdict is a
/// function of the three arguments alone.
pub uninterp spec fn authentication_verdict(
    webauthn: Webauthn,
    credential: PublicKeyCredential,
    state: PasskeyAuthentication,
) -> Option<(Seq<u8>, u32)>;

/// Relies on `uuid::Uuid::new_v4`: a freshly generated random account id.
/// The value is random, so nothing is promised of it; the caller checks it
/// against the store for collisions.
#[verifier::external_body]
pub(crate) fn fresh_account_id() -> u128 {
    uuid::Uuid::new_v4().as_u128()
}

/// Relies on `webauthn_rs::Webauthn::start_passkey_registration`: produces a
/// (challenge, registration context) pair scoped to this user.  The challenge
/// is random, so nothing is promised of the result.
#[verifier::external_body]
pub(crate) fn start_registration(
    webauthn: &Webauthn,
    account_id: u128,
    username: &str,
    display_name: &str,
) -> Result<(CreationChallengeResponse, PasskeyRegistration), WebauthnError> {
    webauthn.start_passkey_registration(
        uuid::Uuid::from_u128(account_id),
        username,
        display_name,
        None,
    )
}

/// Relies on `webauthn_rs::Webauthn::finish_passkey_registration`: verifies
/// the authenticator's attestation against the stored registration context
/// and, exactly when [`registration_verdict`] is `Some`, yields that passkey.
#[verifier::external_body]
pub(crate) fn finish_registration(
    webauthn: &Webauthn,
    credential: &RegisterPublicKeyCredential,
    state: &PasskeyRegistration,
) -> (r: Result<Passkey, WebauthnError>)
    ensures
        r is Ok <==> registration_verdict(*webauthn, *credential, *state) is Some,
        r is Ok ==> r->Ok_0 == registration_verdict(*webauthn, *credential, *state)->Some_0,
{
    webauthn.finish_passkey_registration(credential, state)
}

/// Relies on `webauthn_rs::Webauthn::start_passkey_authentication`: produces
/// a (challenge, authentication context) pair bound to the account's
/// registered passkeys.  The challenge is random, so nothing is promised of
/// the result.
#[verifier::external_body]
pub(crate) fn start_authentication(
    webauthn: &Webauthn,
    credentials: &Vec<Passkey>,
) -> Result<(RequestChallengeResponse, PasskeyAuthentication), WebauthnError> {
    webauthn.start_passkey_authentication(credentials.as_slice())
}

/// Relies on `webauthn_rs::Webauthn::finish_passkey_authentication`: verifies
/// the signed assertion against the stored authentication context and,
/// exactly when [`authentication_verdict`] is `Some`, reports that verdict's
/// credential id and signature counter.  The orchestrator validates both
/// values against the store afterwards.
#[verifier::external_body]
pub(crate) fn finish_authentication(
    webauthn: &Webauthn,
    credential: &PublicKeyCredential,
    state: &PasskeyAuthentication,
) -> (r: Result<(Vec<u8>, u32), WebauthnError>)
    ensures
        r is Ok <==> authentication_verdict(*webauthn, *credential, *state) is Some,
        r is Ok ==> r->Ok_0.0@ == authentication_verdict(*webauthn, *credential, *state)->Some_0.0
            && r->Ok_0.1 == authentication_verdict(*webauthn, *credential, *state)->Some_0.1,
{
    webauthn.finish_passkey_authentication(credential, state).map(
        |res| (res.cred_id().to_vec(), res.counter()),
    )
}

/// Relies on `webauthn_rs::prelude::Passkey::cred_id`: the credential id this
/// passkey answers to, as plain bytes — a function of the passkey alone.
#[verifier::external_body]
pub(crate) fn passkey_credential_id(passkey: &Passkey) -> (r: Vec<u8>)
    ensures
        r@ == passkey_id_of(*passkey),
{
    passkey.cred_id().to_vec()
}

/// Relies on `serde_json::to_vec`: the registration context serialized for
/// storage between the two registration phases.
#[verifier::external_body]
pub(crate) fn encode_registration_state(state: &PasskeyRegistration) -> Result<
    Vec<u8>,
    serde_json::Error,
> {
    serde_json::to_vec(state)
}

/// Relies on `serde_json::from_slice`: the stored registration context read
/// back; fails exactly on a blob that does not decode.
#[verifier::external_body]
pub(crate) fn decode_registration_state(blob: &Vec<u8>) -> (r: Result<
    PasskeyRegistration,
    serde_json::Error,
>)
    ensures
        r is Ok <==> decoded_reg_context(blob@) is Some,
        r is Ok ==> r->Ok_0 == decoded_reg_context(blob@)->Some_0,
{
    serde_json::from_slice(blob)
}

/// Relies on `serde_json::to_vec`: the authentication context serialized for
/// storage between the two authentication phases.
#[verifier::external_body]
pub(crate) fn encode_authentication_state(state: &PasskeyAuthentication) -> Result<
    Vec<u8>,
    serde_json::Error,
> {
    serde_json::to_vec(state)
}

/// Relies on `serde_json::from_slice`: the stored authentication context read
/// back; fails exactly on a blob that does not decode.
#[verifier::external_body]
pub(crate) fn decode_authentication_state(blob: &Vec<u8>) -> (r: Result<
    PasskeyAuthentication,
    serde_json::Error,
>)
    ensures
        r is Ok <==> decoded_auth_context(blob@) is Some,
        r is Ok ==> r->Ok_0 == decoded_auth_context(blob@)->Some_0,
{
    serde_json::from_slice(blob)
}

/// Relies on `serde_json::to_vec`: a registered passkey serialized into the
/// public-key material column of its credential row — a function of the
/// passkey alone.
#[verifier::external_body]
pub(crate) fn encode_passkey(passkey: &Passkey) -> (r: Result<Vec<u8>, serde_json::Error>)
    ensures
        r is Ok <==> passkey_encoding(*passkey) is Some,
        r is Ok ==> r->Ok_0@ == passkey_encoding(*passkey)->Some_0,
{
    serde_json::to_vec(passkey)
}

/// Relies on `serde_json::from_slice`: a stored passkey read back from its
/// credential row; fails exactly on a blob that does not decode.
#[verifier::external_body]
pub(crate) fn decode_passkey(blob: &Vec<u8>) -> (r: Result<Passkey, serde_json::Error>)
    ensures
        r is Ok <==> decoded_passkey(blob@) is Some,
        r is Ok ==> r->Ok_0 == decoded_passkey(blob@)->Some_0,
{
    serde_json::from_slice(blob)
}

} // verus!
