//! A password-protected vault for one-time-password seeds.
//!
//! The crate covers the two subsystems where a subtle bug silently breaks
//! security: the authenticated container codec (password-based key
//! derivation plus AEAD encryption of the secret map, with format
//! versioning and tamper detection) and the OTP code engine (bit-exact
//! derivation of six-digit codes under the TOTP, HOTP and MOTP variants).
//! File handling, prompting and serialization of the on-disk document are
//! left to the surrounding application.

pub mod crypto;
pub mod errors;
pub mod models;
pub mod otp;
pub mod record;
pub mod store;
pub mod text;
