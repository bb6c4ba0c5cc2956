use otpguard::errors::VaultError;
use otpguard::models::{AuthType, Secret};
use otpguard::otp::{
    generate_code, generate_hotp, generate_motp_at, generate_totp, generate_totp_at,
    judge_clock_readings,
};
use sha2::Digest;

// The RFC 6238 test seed: ASCII "12345678901234567890" in base32.
const SEED: &str = "GEZDGNBVGY3TQOJQGEZDGNBVGY3TQOJQ";

#[test]
fn hotp_rfc4226_vectors() {
    let expected = [
        "755224", "287082", "359152", "969429", "338314", "254676", "287922", "162583", "399871",
        "520489",
    ];
    for (counter, want) in expected.iter().enumerate() {
        let got = generate_hotp(SEED, counter as u64).unwrap();
        assert_eq!(&got, want);
    }
}

#[test]
fn totp_rfc6238_vectors() {
    // The published eight-digit SHA-1 codes, reduced to the six digits
    // this engine renders.
    let cases: [(u64, &str); 6] = [
        (59, "287082"),
        (1111111109, "081804"),
        (1111111111, "050471"),
        (1234567890, "005924"),
        (2000000000, "279037"),
        (20000000000, "353130"),
    ];
    for (time, want) in cases.iter() {
        let got = generate_totp_at(SEED, *time).unwrap();
        assert_eq!(&got, want);
    }
}

#[test]
fn hotp_deterministic() {
    let a = generate_hotp(SEED, 7).unwrap();
    let b = generate_hotp(SEED, 7).unwrap();
    assert_eq!(a, b);
    // Adjacent counters are computed independently; for this seed the
    // codes differ.
    let c = generate_hotp(SEED, 8).unwrap();
    assert_ne!(a, c);
}

#[test]
fn hotp_rejects_invalid_base32() {
    let r = generate_hotp("not!base32", 0);
    assert_eq!(r, Err(VaultError::InvalidSecretEncoding));
    let r = generate_totp_at("1111", 59);
    assert_eq!(r, Err(VaultError::InvalidSecretEncoding));
}

#[test]
fn base32_decoding_is_case_insensitive() {
    let upper = generate_hotp("JBSWY3DPEHPK3PXP", 3).unwrap();
    let lower = generate_hotp("jbswy3dpehpk3pxp", 3).unwrap();
    assert_eq!(upper, lower);
}

#[test]
fn motp_matches_direct_computation() {
    let secret = "motpsecret";
    let time: u64 = 1234567890;
    let mut h = sha2::Sha256::new();
    h.update(secret.as_bytes());
    h.update(format!("{:x}", time / 10).as_bytes());
    let d = h.finalize();
    let value = ((d[0] as u64) << 16) | ((d[1] as u64) << 8) | (d[2] as u64);
    let expected = format!("{:06x}", value);
    assert_eq!(generate_motp_at(secret, time), expected);
}

#[test]
fn motp_is_hex_and_six_chars() {
    let code = generate_motp_at("seed", 99999999);
    assert_eq!(code.len(), 6);
    assert!(code.chars().all(|c| c.is_ascii_digit() || ('a'..='f').contains(&c)));
}

#[test]
fn clock_readings_within_five_minutes_pass() {
    assert_eq!(judge_clock_readings(1000, 1000), Ok(()));
    assert_eq!(judge_clock_readings(1000, 1300), Ok(()));
    assert_eq!(judge_clock_readings(1300, 1000), Ok(()));
}

#[test]
fn clock_readings_further_apart_are_skew() {
    assert_eq!(judge_clock_readings(1000, 1301), Err(VaultError::ClockSkew));
    assert_eq!(judge_clock_readings(1301, 1000), Err(VaultError::ClockSkew));
    assert_eq!(judge_clock_readings(0, u64::MAX), Err(VaultError::ClockSkew));
}

#[test]
fn totp_live_clock_produces_six_digits() {
    let code = generate_totp(SEED).unwrap();
    assert_eq!(code.len(), 6);
    assert!(code.chars().all(|c| c.is_ascii_digit()));
}

#[test]
fn generate_code_dispatches_by_algorithm() {
    let hotp = Secret {
        name: String::from("svc"),
        secret: String::from(SEED),
        auth_type: AuthType::Hotp,
        counter: Some(5),
    };
    assert_eq!(generate_code(&hotp).unwrap(), generate_hotp(SEED, 5).unwrap());

    // A missing HOTP counter counts as zero.
    let hotp_none = Secret {
        name: String::from("svc"),
        secret: String::from(SEED),
        auth_type: AuthType::Hotp,
        counter: None,
    };
    assert_eq!(generate_code(&hotp_none).unwrap(), generate_hotp(SEED, 0).unwrap());

    let totp = Secret {
        name: String::from("svc"),
        secret: String::from(SEED),
        auth_type: AuthType::Totp,
        counter: None,
    };
    let code = generate_code(&totp).unwrap();
    assert_eq!(code.len(), 6);
}
