//! The error taxonomy of the vault.

use vstd::prelude::*;

verus! {

/// Every failure the vault can report. Authentication and format failures
/// are kept distinct internally so programmatic callers can react, even
/// though an interactive front end may show one generic message for both.
#[derive(Clone, Copy, Debug, PartialEq, Eq, Structural)]
pub enum VaultError {
    /// Wrong password or tampered container; retrying with the correct
    /// password is the recovery.
    Authentication,
    /// The container's embedded format-version byte is not the supported
    /// value (or the decrypted plaintext is empty); fatal for that file.
    UnsupportedFormat,
    /// A stored seed is not valid unpadded RFC 4648 base32 text.
    InvalidSecretEncoding,
    /// Two successive clock readings disagreed by more than the tolerance
    /// window; the local clock is judged unreliable.
    ClockSkew,
    /// The system clock could not be read at all.
    TimeSource,
    /// An algorithm tag outside the supported set was named.
    UnsupportedAlgorithm,
    /// Another invocation holds the vault file; transient, retry later.
    ConcurrentAccess,
    /// A disk or permission failure outside the codec itself.
    StorageIO,
}

impl VaultError {
    /// A short stable description, for display by the application.
    pub fn message(&self) -> (r: &'static str)
        ensures
            r@ == self.message_spec(),
    {
        match self {
            VaultError::Authentication => "decryption failed, password incorrect or data corrupted",
            VaultError::UnsupportedFormat => "unsupported data format version",
            VaultError::InvalidSecretEncoding => "invalid base32 secret encoding",
            VaultError::ClockSkew => "system clock appears to be out of sync",
            VaultError::TimeSource => "system clock could not be read",
            VaultError::UnsupportedAlgorithm => "unsupported one-time-password algorithm",
            VaultError::ConcurrentAccess => "another instance is accessing the vault",
            VaultError::StorageIO => "storage failure while accessing the vault",
        }
    }

    /// The description `message` returns, as a sequence of characters.
    pub open spec fn message_spec(&self) -> Seq<char> {
        match self {
            VaultError::Authentication => "decryption failed, password incorrect or data corrupted"@,
            VaultError::UnsupportedFormat => "unsupported data format version"@,
            VaultError::InvalidSecretEncoding => "invalid base32 secret encoding"@,
            VaultError::ClockSkew => "system clock appears to be out of sync"@,
            VaultError::TimeSource => "system clock could not be read"@,
            VaultError::UnsupportedAlgorithm => "unsupported one-time-password algorithm"@,
            VaultError::ConcurrentAccess => "another instance is accessing the vault"@,
            VaultError::StorageIO => "storage failure while accessing the vault"@,
        }
    }
}

} // verus!
