//! A verified ceremony orchestrator for passkey (public-key) authentication.
//!
//! A relying party issues a one-time cryptographic challenge, an authenticator
//! signs it, and the server verifies the signature against a previously
//! registered public key.  This crate drives the two-phase registration and
//! authentication protocols, keeps the ephemeral challenge state between the
//! phases, and enforces the anti-replay and expiry invariants the protocol
//! needs.  The cryptographic verification itself is delegated to the
//! `webauthn_rs` crate through a small trusted boundary; everything the
//! orchestrator decides — uniqueness of usernames, the single-active-ceremony
//! rule, the five-minute validity window, the strictly increasing signature
//! counter, and compensation after partial storage failures — is verified.

pub mod errors;
pub mod model;
pub mod store;
pub mod text;
pub mod engine;
pub mod orchestrator;
pub mod laws;
