//! The authenticated container codec: password-based key derivation and
//! AEAD sealing of the versioned payload.
//!
//! The key derivation and cipher primitives come from outside crates
//! behind trusted wrappers; the format versioning, the binding of salt to
//! ciphertext, the scrubbing discipline and the round-trip behaviour are
//! verified here. Every container carries a fresh random salt and nonce,
//! and the salt doubles as associated data, so a ciphertext cannot be
//! transplanted onto a different salt without failing authentication.

use vstd::prelude::*;

use crate::errors::VaultError;
use crate::models::EncryptedData;
use crate::text::extend_bytes;
use vstd::string::StringSliceAdditionalSpecFns;

verus! {

broadcast use vstd::array::group_array_axioms;

/// The single supported container format version.
pub const FORMAT_VERSION: u8 = 1;

/// What argon2 derives with the fixed parameters used here (Argon2id,
/// version 0x13, 64 MiB memory, 4 iterations, 4 lanes, 32-byte output): a
/// function of the password and salt alone.
pub uninterp spec fn argon2id_key_of(password: Seq<char>, salt: Seq<u8>) -> Seq<u8>;

/// What Aes256Gcm produces when sealing `msg` under `key` and `nonce`
/// with associated data `aad`: a function of the four arguments alone.
pub uninterp spec fn aes_gcm_sealed(key: Seq<u8>, nonce: Seq<u8>, aad: Seq<u8>, msg: Seq<u8>) -> Seq<u8>;

/// What Aes256Gcm returns when opening `ct` under `key` and `nonce` with
/// associated data `aad`: the sealed plaintext when authentication
/// passes, nothing when it fails.
pub uninterp spec fn aes_gcm_opened(key: Seq<u8>, nonce: Seq<u8>, aad: Seq<u8>, ct: Seq<u8>) -> Option<Seq<u8>>;

/// Relies on argon2's hash_password_into with Argon2id, version 0x13,
/// 64 MiB memory cost, 4 iterations, parallelism 4 and 32-byte output:
/// deterministic in the password and salt. Within the admitted salt and
/// password lengths the call has no error path, so the key is returned
/// directly. The parameters trade sub-second interactive unlock against
/// offline brute force of a human password.
#[verifier::external_body]
pub fn derive_key(password: &str, salt: &[u8]) -> (r: [u8; 32])
    requires
        8 <= salt@.len() < 0x100000000,
        password.spec_bytes().len() < 0x100000000,
    ensures
        r@ == argon2id_key_of(password@, salt@),
{
    let params = argon2::Params::new(64 * 1024, 4, 4, Some(32)).expect("parameters are in range");
    let argon = argon2::Argon2::new(argon2::Algorithm::Argon2id, argon2::Version::V0x13, params);
    let mut key = [0u8; 32];
    argon.hash_password_into(password.as_bytes(), salt, &mut key).expect("salt length is in range");
    key
}

/// Relies on Aes256Gcm::encrypt: seals `msg` under `key` and `nonce`
/// with associated data `aad`, appending the 16-byte tag; opening the
/// result with the same key, nonce and associated data returns exactly
/// `msg`. Fails only when the plaintext or the associated data exceed
/// the cipher's 2^36-byte limit.
#[verifier::external_body]
fn aes_gcm_seal(key: &[u8], nonce: &[u8], aad: &[u8], msg: &[u8]) -> (r: Option<Vec<u8>>)
    requires
        key@.len() == 32,
        nonce@.len() == 12,
    ensures
        r matches Some(c) ==> c@ == aes_gcm_sealed(key@, nonce@, aad@, msg@) && c@.len() == msg@.len()
            + 16 && aes_gcm_opened(key@, nonce@, aad@, c@) == Some(msg@),
        msg@.len() <= 0x1000000000 && aad@.len() <= 0x1000000000 ==> r is Some,
{
    let cipher = match <aes_gcm::Aes256Gcm as aes_gcm::KeyInit>::new_from_slice(key) {
        Ok(c) => c,
        Err(_) => return None,
    };
    let nonce = aes_gcm::Nonce::from_slice(nonce);
    <aes_gcm::Aes256Gcm as aes_gcm::aead::Aead>::encrypt(
        &cipher,
        nonce,
        aes_gcm::aead::Payload { msg, aad },
    ).ok()
}

/// Relies on Aes256Gcm::decrypt: opens `ct` under `key` and `nonce` with
/// associated data `aad`, returning the plaintext exactly when
/// authentication passes; tampering with any of the four yields nothing.
#[verifier::external_body]
fn aes_gcm_open(key: &[u8], nonce: &[u8], aad: &[u8], ct: &[u8]) -> (r: Option<Vec<u8>>)
    requires
        key@.len() == 32,
        nonce@.len() == 12,
    ensures
        r is Some <==> aes_gcm_opened(key@, nonce@, aad@, ct@) is Some,
        r matches Some(p) ==> aes_gcm_opened(key@, nonce@, aad@, ct@) == Some(p@) && p@.len() + 16
            == ct@.len(),
{
    let cipher = match <aes_gcm::Aes256Gcm as aes_gcm::KeyInit>::new_from_slice(key) {
        Ok(c) => c,
        Err(_) => return None,
    };
    let nonce = aes_gcm::Nonce::from_slice(nonce);
    <aes_gcm::Aes256Gcm as aes_gcm::aead::Aead>::decrypt(
        &cipher,
        nonce,
        aes_gcm::aead::Payload { msg: ct, aad },
    ).ok()
}

/// Relies on rand::random: 16 bytes from the thread-local CSPRNG, for a
/// fresh salt. Nothing is promised of the values.
#[verifier::external_body]
fn random_salt() -> (r: Vec<u8>)
    ensures
        r@.len() == 16,
{
    rand::random::<[u8; 16]>().to_vec()
}

/// Relies on rand::random: 12 bytes from the thread-local CSPRNG, for a
/// fresh nonce. Nothing is promised of the values.
#[verifier::external_body]
fn random_nonce() -> (r: Vec<u8>)
    ensures
        r@.len() == 12,
{
    rand::random::<[u8; 12]>().to_vec()
}

/// Overwrites derived key material with zeros. Called on every exit path
/// that has held a key.
pub fn secure_erase(data: &mut [u8; 32])
    ensures
        forall|i: int| 0 <= i < 32 ==> final(data)@[i] == 0u8,
{
    let mut i: usize = 0;
    while i < 32
        invariant
            i <= 32,
            forall|j: int| 0 <= j < i ==> data@[j] == 0u8,
        decreases 32 - i,
    {
        data[i] = 0u8;
        i += 1;
    }
}

/// The versioned plaintext: the format-version byte followed by the
/// payload.
pub open spec fn versioned(payload: Seq<u8>) -> Seq<u8> {
    seq![FORMAT_VERSION] + payload
}

/// What checking and stripping the version byte yields: the payload when
/// the plaintext is non-empty and carries the supported version byte,
/// and a format failure otherwise.
pub open spec fn parse_versioned_spec(p: Seq<u8>) -> Result<Seq<u8>, VaultError> {
    if p.len() == 0 {
        Err(VaultError::UnsupportedFormat)
    } else if p[0] != FORMAT_VERSION {
        Err(VaultError::UnsupportedFormat)
    } else {
        Ok(p.drop_first())
    }
}

/// Prepends the format-version byte to a payload.
pub fn frame_payload(data: &[u8]) -> (r: Vec<u8>)
    ensures
        r@ == versioned(data@),
{
    let mut v: Vec<u8> = Vec::new();
    v.push(FORMAT_VERSION);
    extend_bytes(&mut v, data);
    proof {
        assert(v@ =~= versioned(data@));
    }
    v
}

/// Checks the version byte of a decrypted plaintext and strips it.
pub fn parse_versioned(p: &[u8]) -> (r: Result<Vec<u8>, VaultError>)
    ensures
        match r {
            Ok(v) => parse_versioned_spec(p@) == Ok::<Seq<u8>, VaultError>(v@),
            Err(e) => parse_versioned_spec(p@) == Err::<Seq<u8>, VaultError>(e),
        },
{
    if p.len() == 0 {
        return Err(VaultError::UnsupportedFormat);
    }
    if p[0] != FORMAT_VERSION {
        return Err(VaultError::UnsupportedFormat);
    }
    let (_, rest) = p.split_at(1);
    let mut v: Vec<u8> = Vec::new();
    extend_bytes(&mut v, rest);
    proof {
        assert(v@ =~= p@.drop_first());
    }
    Ok(v)
}

/// Version framing inverts: checking and stripping the version byte of a
/// freshly framed payload hands the payload back.
pub proof fn lemma_versioned_round_trip(p: Seq<u8>)
    ensures
        parse_versioned_spec(versioned(p)) == Ok::<Seq<u8>, VaultError>(p),
{
    assert(versioned(p).drop_first() =~= p);
}

/// The key a container's salt derives from a password.
pub open spec fn container_key(ed: EncryptedData, password: Seq<char>) -> Seq<u8> {
    argon2id_key_of(password, ed.salt@)
}

/// What decrypting a container with a password yields: an authentication
/// failure when the AEAD rejects (wrong password, corrupted bytes, or
/// swapped salt or nonce), a format failure when the plaintext is empty
/// or carries an unsupported version byte, and the payload otherwise.
pub open spec fn decrypt_spec(ed: EncryptedData, password: Seq<char>) -> Result<Seq<u8>, VaultError> {
    match aes_gcm_opened(container_key(ed, password), ed.nonce@, ed.salt@, ed.ciphertext@) {
        None => Err(VaultError::Authentication),
        Some(p) => parse_versioned_spec(p),
    }
}

/// Encrypts a payload under a password: fresh random salt and nonce, a
/// key derived from the password and salt, and the versioned plaintext
/// sealed with the salt as associated data. Never fails for payloads the
/// cipher admits, and the container it returns decrypts, under the same
/// password, to exactly the payload.
pub fn encrypt_data(data: &[u8], password: &str) -> (r: Result<EncryptedData, VaultError>)
    requires
        data@.len() < 0x1000000000,
        password.spec_bytes().len() < 0x100000000,
    ensures
        r is Ok,
        r matches Ok(ed) ==> ed.wf() && ed.ciphertext@.len() == data@.len() + 17
            && ed.ciphertext@ == aes_gcm_sealed(
            argon2id_key_of(password@, ed.salt@),
            ed.nonce@,
            ed.salt@,
            versioned(data@),
        ) && decrypt_spec(ed, password@) == Ok::<Seq<u8>, VaultError>(data@),
{
    let salt = random_salt();
    let mut key = derive_key(password, salt.as_slice());
    let nonce = random_nonce();
    let plaintext = frame_payload(data);
    let sealed = aes_gcm_seal(
        key.as_slice(),
        nonce.as_slice(),
        salt.as_slice(),
        plaintext.as_slice(),
    );
    secure_erase(&mut key);
    match sealed {
        Some(ciphertext) => {
            let ed = EncryptedData { nonce, ciphertext, salt };
            proof {
                lemma_versioned_round_trip(data@);
            }
            Ok(ed)
        },
        None => Err(VaultError::StorageIO),
    }
}

/// Decrypts a container with a password: derives the key from the
/// container's salt, opens the ciphertext with the salt as associated
/// data, then checks and strips the version byte. The result is exactly
/// `decrypt_spec`; authentication and format failures stay distinct. Key
/// material is scrubbed before the plaintext is examined.
pub fn decrypt_data(encrypted: &EncryptedData, password: &str) -> (r: Result<Vec<u8>, VaultError>)
    requires
        encrypted.wf(),
        password.spec_bytes().len() < 0x100000000,
    ensures
        match r {
            Ok(v) => decrypt_spec(*encrypted, password@) == Ok::<Seq<u8>, VaultError>(v@),
            Err(e) => decrypt_spec(*encrypted, password@) == Err::<Seq<u8>, VaultError>(e),
        },
{
    let mut key = derive_key(password, encrypted.salt.as_slice());
    let opened = aes_gcm_open(
        key.as_slice(),
        encrypted.nonce.as_slice(),
        encrypted.salt.as_slice(),
        encrypted.ciphertext.as_slice(),
    );
    secure_erase(&mut key);
    match opened {
        None => Err(VaultError::Authentication),
        Some(plaintext) => parse_versioned(plaintext.as_slice()),
    }
}

/// Format guard: whatever the password, a container whose decrypted
/// plaintext is empty or carries a version byte other than the supported
/// one fails with the format failure, not with an authentication failure
/// and never with a payload.
pub proof fn lemma_format_guard(ed: EncryptedData, password: Seq<char>, p: Seq<u8>)
    requires
        aes_gcm_opened(container_key(ed, password), ed.nonce@, ed.salt@, ed.ciphertext@) == Some(p),
        p.len() == 0 || p[0] != FORMAT_VERSION,
    ensures
        decrypt_spec(ed, password) == Err::<Seq<u8>, VaultError>(VaultError::UnsupportedFormat),
{
}

} // verus!
