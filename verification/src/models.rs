//! The vault's data model: the algorithm tag, one stored service secret,
//! and the encrypted on-disk container.

use vstd::prelude::*;

verus! {

/// The three supported one-time-password algorithm variants. A closed
/// enum: any other tag is rejected where tags are parsed.
#[derive(Clone, Copy, Debug, PartialEq, Eq, Structural)]
pub enum AuthType {
    Totp,
    Hotp,
    Motp,
}

/// One stored service secret: the unique service name, the seed as
/// unpadded base32 text, the algorithm variant, and, for HOTP only, the
/// moving counter.
#[derive(Clone, Debug)]
pub struct Secret {
    pub name: String,
    pub secret: String,
    pub auth_type: AuthType,
    pub counter: Option<u64>,
}

/// The mathematical content of one stored secret.
pub struct SecretData {
    pub name: Seq<char>,
    pub secret: Seq<char>,
    pub auth_type: AuthType,
    pub counter: Option<u64>,
}

impl View for Secret {
    type V = SecretData;

    open spec fn view(&self) -> SecretData {
        SecretData {
            name: self.name@,
            secret: self.secret@,
            auth_type: self.auth_type,
            counter: self.counter,
        }
    }
}

impl Secret {
    /// The record invariant: the name and seed are non-empty and the
    /// counter is present exactly when the algorithm is HOTP.
    pub open spec fn wf(&self) -> bool {
        self.name@.len() > 0 && self.secret@.len() > 0 && (self.counter is Some <==> self.auth_type
            == AuthType::Hotp)
    }
}

/// The encrypted container as persisted: a fresh random salt, a fresh
/// random nonce, and the AEAD ciphertext of the versioned payload. The
/// salt doubles as associated data of the ciphertext, so neither can be
/// swapped independently without detection.
#[derive(Clone, Debug)]
pub struct EncryptedData {
    pub nonce: Vec<u8>,
    pub ciphertext: Vec<u8>,
    pub salt: Vec<u8>,
}

impl EncryptedData {
    /// The container shape: 16 salt bytes and 12 nonce bytes.
    pub open spec fn wf(&self) -> bool {
        self.salt@.len() == 16 && self.nonce@.len() == 12
    }
}

} // verus!
