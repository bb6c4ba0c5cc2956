use otpguard::crypto::{decrypt_data, derive_key, encrypt_data, frame_payload, parse_versioned};
use otpguard::errors::VaultError;

#[test]
fn container_round_trip() {
    let payload = b"service secrets payload";
    let ed = encrypt_data(payload, "correct horse").unwrap();
    assert_eq!(ed.salt.len(), 16);
    assert_eq!(ed.nonce.len(), 12);
    assert_eq!(ed.ciphertext.len(), payload.len() + 1 + 16);
    let back = decrypt_data(&ed, "correct horse").unwrap();
    assert_eq!(back, payload);
}

#[test]
fn container_round_trip_empty_payload() {
    let ed = encrypt_data(b"", "pw for empty").unwrap();
    let back = decrypt_data(&ed, "pw for empty").unwrap();
    assert_eq!(back, Vec::<u8>::new());
}

#[test]
fn wrong_password_fails_authentication() {
    let ed = encrypt_data(b"data", "password one").unwrap();
    let r = decrypt_data(&ed, "password two");
    assert_eq!(r, Err(VaultError::Authentication));
}

#[test]
fn tampered_ciphertext_fails_authentication() {
    let mut ed = encrypt_data(b"data", "a password").unwrap();
    ed.ciphertext[0] ^= 0x01;
    let r = decrypt_data(&ed, "a password");
    assert_eq!(r, Err(VaultError::Authentication));
}

#[test]
fn tampered_nonce_fails_authentication() {
    let mut ed = encrypt_data(b"data", "a password").unwrap();
    ed.nonce[5] ^= 0x80;
    let r = decrypt_data(&ed, "a password");
    assert_eq!(r, Err(VaultError::Authentication));
}

#[test]
fn tampered_salt_fails_authentication() {
    let mut ed = encrypt_data(b"data", "a password").unwrap();
    ed.salt[15] ^= 0x40;
    let r = decrypt_data(&ed, "a password");
    assert_eq!(r, Err(VaultError::Authentication));
}

#[test]
fn version_framing_round_trips() {
    let framed = frame_payload(b"abc");
    assert_eq!(framed, vec![1u8, b'a', b'b', b'c']);
    let back = parse_versioned(&framed).unwrap();
    assert_eq!(back, b"abc".to_vec());
}

#[test]
fn unsupported_version_byte_is_a_format_error() {
    let r = parse_versioned(&[2u8, 10, 20]);
    assert_eq!(r, Err(VaultError::UnsupportedFormat));
    let r = parse_versioned(&[0u8]);
    assert_eq!(r, Err(VaultError::UnsupportedFormat));
}

#[test]
fn empty_plaintext_is_a_format_error() {
    let r = parse_versioned(&[]);
    assert_eq!(r, Err(VaultError::UnsupportedFormat));
}

#[test]
fn key_derivation_is_deterministic() {
    let salt = [7u8; 16];
    let k1 = derive_key("a stable password", &salt);
    let k2 = derive_key("a stable password", &salt);
    assert_eq!(k1, k2);
    let other_salt = [8u8; 16];
    let k3 = derive_key("a stable password", &other_salt);
    assert_ne!(k1, k3);
}

#[test]
fn every_save_uses_fresh_salt_and_nonce() {
    let a = encrypt_data(b"x", "same password").unwrap();
    let b = encrypt_data(b"x", "same password").unwrap();
    assert_ne!(a.salt, b.salt);
    assert_ne!(a.nonce, b.nonce);
}

#[test]
fn error_messages_are_stable_and_nonempty() {
    let all = [
        VaultError::Authentication,
        VaultError::UnsupportedFormat,
        VaultError::InvalidSecretEncoding,
        VaultError::ClockSkew,
        VaultError::TimeSource,
        VaultError::UnsupportedAlgorithm,
        VaultError::ConcurrentAccess,
        VaultError::StorageIO,
    ];
    for e in all.iter() {
        assert!(!e.message().is_empty());
    }
    assert_eq!(
        VaultError::Authentication.message(),
        "decryption failed, password incorrect or data corrupted"
    );
}
