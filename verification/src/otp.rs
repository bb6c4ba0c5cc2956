//! The OTP code engine: bit-exact derivation of six-digit codes from a
//! shared secret under the TOTP, HOTP and MOTP variants.
//!
//! The engine is pure computation over the secret and a counter or time
//! step. The HMAC and digest primitives come from outside crates behind
//! trusted wrappers whose results are named, uninterpreted functions of
//! their inputs; everything from the digest onward — dynamic truncation,
//! decimal and hexadecimal rendering, dispatch — is verified here.

use vstd::prelude::*;

use crate::errors::VaultError;
use crate::models::{AuthType, Secret};
use crate::text::{
    decimal6_chars, decimal6_string, hex6_chars, hex6_string, hex_chars, hex_string, u64_be_bytes,
    u64_be_vec,
};
use hmac::Mac;
use sha2::Digest;

verus! {

/// What base32::decode returns for RFC 4648 text without padding: the
/// decoded bytes, or nothing when the text is not valid base32.
pub uninterp spec fn base32_decode_of(s: Seq<char>) -> Option<Seq<u8>>;

/// The SHA-1 HMAC of `msg` under `key`: twenty bytes, a function of the
/// two arguments alone.
pub uninterp spec fn hmac_sha1_of(key: Seq<u8>, msg: Seq<u8>) -> Seq<u8>;

/// The SHA-256 digest of `data`: thirty-two bytes, a function of the
/// argument alone.
pub uninterp spec fn sha256_of(data: Seq<u8>) -> Seq<u8>;

/// Relies on base32::decode with the unpadded RFC 4648 alphabet: the
/// result is a function of the text alone, present exactly when the text
/// decodes.
#[verifier::external_body]
fn base32_decode(s: &str) -> (r: Option<Vec<u8>>)
    ensures
        r is Some <==> base32_decode_of(s@) is Some,
        r matches Some(v) ==> base32_decode_of(s@) == Some(v@),
{
    base32::decode(base32::Alphabet::RFC4648 { padding: false }, s)
}

/// Relies on Hmac<Sha1>: computes the SHA-1 HMAC, twenty bytes. Key setup
/// accepts keys of any length.
#[verifier::external_body]
fn hmac_sha1(key: &[u8], msg: &[u8]) -> (r: Vec<u8>)
    ensures
        r@ == hmac_sha1_of(key@, msg@),
        r@.len() == 20,
{
    let mut mac = <hmac::Hmac<sha1::Sha1> as hmac::digest::KeyInit>::new_from_slice(key)
        .expect("any key length is accepted");
    mac.update(msg);
    mac.finalize().into_bytes().to_vec()
}

/// Relies on sha2::Sha256: computes the SHA-256 digest, thirty-two bytes.
#[verifier::external_body]
fn sha256(data: &[u8]) -> (r: Vec<u8>)
    ensures
        r@ == sha256_of(data@),
        r@.len() == 32,
{
    let mut hasher = sha2::Sha256::new();
    hasher.update(data);
    hasher.finalize().to_vec()
}

/// Relies on SystemTime::now and duration_since: the seconds since the
/// Unix epoch, or nothing when the clock reads before the epoch. The
/// value is nondeterministic, so nothing is promised of it.
#[verifier::external_body]
fn unix_time_now() -> Option<u64> {
    std::time::SystemTime::now().duration_since(std::time::UNIX_EPOCH).ok().map(|d| d.as_secs())
}

/// RFC 4226 dynamic truncation: the low nibble of the last digest byte
/// picks an offset; four bytes there, with the top bit cleared, read as a
/// big-endian 31-bit integer.
pub open spec fn truncated_value(mac: Seq<u8>) -> u32
    recommends
        mac.len() == 20,
{
    let offset = (mac[19] & 0xf) as int;
    ((mac[offset] & 0x7f) as u32) << 24 | (mac[offset + 1] as u32) << 16 | (mac[offset + 2]
        as u32) << 8 | (mac[offset + 3] as u32)
}

/// The six decimal digits an HMAC digest truncates to.
pub open spec fn code_from_mac(mac: Seq<u8>) -> Seq<char> {
    decimal6_chars(truncated_value(mac) % 1000000)
}

/// The HOTP code for a decoded seed and a counter value.
pub open spec fn hotp_code(key: Seq<u8>, counter: u64) -> Seq<char> {
    code_from_mac(hmac_sha1_of(key, u64_be_bytes(counter)))
}

/// The TOTP code for a decoded seed at a given Unix time: HOTP over the
/// thirty-second time step.
pub open spec fn totp_code(key: Seq<u8>, now: u64) -> Seq<char> {
    hotp_code(key, now / 30)
}

/// The MOTP code for a seed at a given Unix time: SHA-256 over the seed's
/// UTF-8 bytes followed by the shortest lower-case hex rendering of the
/// ten-second time step, with the first three digest bytes rendered as
/// six lower-case hex digits.
pub open spec fn motp_code(secret: Seq<char>, now: u64) -> Seq<char> {
    let input = vstd::utf8::encode_utf8(secret) + vstd::utf8::encode_utf8(hex_chars(now / 10));
    let digest = sha256_of(input);
    hex6_chars(
        (digest[0] as u32) << 16 | (digest[1] as u32) << 8 | (digest[2] as u32),
    )
}

/// Computes the six-digit decimal code for one HMAC input.
fn compute_otp_code(key: &[u8], msg: &[u8]) -> (r: String)
    ensures
        r@ == code_from_mac(hmac_sha1_of(key@, msg@)),
{
    let mac = hmac_sha1(key, msg);
    let last: u8 = mac[19];
    let offset = (last & 0xf) as usize;
    proof {
        assert(last & 0xf < 16) by (bit_vector);
    }
    let code: u32 = ((mac[offset] & 0x7f) as u32) << 24 | (mac[offset + 1] as u32) << 16 | (mac[
        offset + 2] as u32) << 8 | (mac[offset + 3] as u32);
    decimal6_string(code % 1000000)
}

/// How far apart two clock readings lie, in seconds.
pub open spec fn reading_gap(t1: u64, t2: u64) -> u64 {
    if t2 > t1 {
        (t2 - t1) as u64
    } else {
        (t1 - t2) as u64
    }
}

/// The clock self-consistency rule: two readings taken in close
/// succession pass exactly when they agree within five minutes; a larger
/// gap is a clock jump and fails with the skew error.
pub fn judge_clock_readings(t1: u64, t2: u64) -> (r: Result<(), VaultError>)
    ensures
        r is Ok <==> reading_gap(t1, t2) <= 300,
        r matches Err(e) ==> e == VaultError::ClockSkew,
{
    let diff = if t2 > t1 {
        t2 - t1
    } else {
        t1 - t2
    };
    if diff > 5 * 60 {
        Err(VaultError::ClockSkew)
    } else {
        Ok(())
    }
}

/// Reads the clock twice and applies the self-consistency rule: a
/// best-effort local guard, not a substitute for real time
/// synchronisation. The readings stay inside, so this contract can only
/// name the failures; `judge_clock_readings` carries the rule itself.
pub fn check_time_sync() -> (r: Result<(), VaultError>)
    ensures
        r matches Err(e) ==> e == VaultError::TimeSource || e == VaultError::ClockSkew,
{
    let t1 = match unix_time_now() {
        Some(t) => t,
        None => return Err(VaultError::TimeSource),
    };
    let t2 = match unix_time_now() {
        Some(t) => t,
        None => return Err(VaultError::TimeSource),
    };
    judge_clock_readings(t1, t2)
}

/// The TOTP code for `secret` at the given Unix time, in seconds.
pub fn generate_totp_at(secret: &str, now: u64) -> (r: Result<String, VaultError>)
    ensures
        match r {
            Ok(c) => base32_decode_of(secret@) matches Some(k) && c@ == totp_code(k, now),
            Err(e) => e == VaultError::InvalidSecretEncoding && base32_decode_of(secret@) is None,
        },
{
    let decoded = match base32_decode(secret) {
        Some(d) => d,
        None => return Err(VaultError::InvalidSecretEncoding),
    };
    let msg = u64_be_vec(now / 30);
    Ok(compute_otp_code(decoded.as_slice(), msg.as_slice()))
}

/// The TOTP code for `secret` at the current time, after the clock
/// self-consistency guard.
pub fn generate_totp(secret: &str) -> (r: Result<String, VaultError>)
    ensures
        match r {
            Ok(c) => base32_decode_of(secret@) matches Some(k) && (exists|t: u64|
                c@ == totp_code(k, t)),
            Err(e) => e == VaultError::TimeSource || e == VaultError::ClockSkew || (e
                == VaultError::InvalidSecretEncoding && base32_decode_of(secret@) is None),
        },
{
    match check_time_sync() {
        Ok(()) => (),
        Err(e) => return Err(e),
    }
    let now = match unix_time_now() {
        Some(t) => t,
        None => return Err(VaultError::TimeSource),
    };
    match generate_totp_at(secret, now) {
        Ok(c) => {
            proof {
                let k = base32_decode_of(secret@)->Some_0;
                assert(c@ == totp_code(k, now));
            }
            Ok(c)
        },
        Err(e) => Err(e),
    }
}

/// The HOTP code for `secret` and the given counter value. Deterministic:
/// the result is a function of the two arguments alone, so two calls with
/// identical inputs return identical codes. The caller owns counter
/// persistence; this function never changes counter state.
pub fn generate_hotp(secret: &str, counter: u64) -> (r: Result<String, VaultError>)
    ensures
        match r {
            Ok(c) => base32_decode_of(secret@) matches Some(k) && c@ == hotp_code(k, counter),
            Err(e) => e == VaultError::InvalidSecretEncoding && base32_decode_of(secret@) is None,
        },
{
    let decoded = match base32_decode(secret) {
        Some(d) => d,
        None => return Err(VaultError::InvalidSecretEncoding),
    };
    let msg = u64_be_vec(counter);
    Ok(compute_otp_code(decoded.as_slice(), msg.as_slice()))
}

/// Determinism of HOTP: the code is a function of the seed and counter
/// alone, so two successful generations with identical inputs return
/// identical codes. Each call still computes its code independently
/// through the HMAC construction; nothing is promised about distinct
/// counters.
pub proof fn lemma_hotp_deterministic(seed: Seq<char>, counter: u64, c1: Seq<char>, c2: Seq<char>)
    requires
        base32_decode_of(seed) matches Some(k1) && c1 == hotp_code(k1, counter),
        base32_decode_of(seed) matches Some(k2) && c2 == hotp_code(k2, counter),
    ensures
        c1 == c2,
{
}

/// The MOTP code for `secret` at the given Unix time, in seconds. MOTP
/// reads the seed as raw text, not base32, and renders hexadecimal
/// digits: a protocol difference from TOTP/HOTP, not an inconsistency.
pub fn generate_motp_at(secret: &str, now: u64) -> (r: String)
    ensures
        r@ == motp_code(secret@, now),
{
    let hex = hex_string(now / 10);
    let mut input: Vec<u8> = secret.as_bytes_vec();
    crate::text::extend_bytes(&mut input, hex.as_str().as_bytes());
    let digest = sha256(input.as_slice());
    let v: u32 = (digest[0] as u32) << 16 | (digest[1] as u32) << 8 | (digest[2] as u32);
    proof {
        let a = digest@[0];
        let b = digest@[1];
        let c = digest@[2];
        assert((a as u32) << 16 | (b as u32) << 8 | (c as u32) < 0x1000000) by (bit_vector);
    }
    hex6_string(v)
}

/// The MOTP code for `secret` at the current time.
pub fn generate_motp(secret: &str) -> (r: Result<String, VaultError>)
    ensures
        match r {
            Ok(c) => exists|t: u64| c@ == motp_code(secret@, t),
            Err(e) => e == VaultError::TimeSource,
        },
{
    let now = match unix_time_now() {
        Some(t) => t,
        None => return Err(VaultError::TimeSource),
    };
    let code = generate_motp_at(secret, now);
    proof {
        assert(code@ == motp_code(secret@, now));
    }
    Ok(code)
}

/// Generates the code for one stored record, dispatching on its
/// algorithm variant. A missing HOTP counter counts as zero.
pub fn generate_code(secret: &Secret) -> (r: Result<String, VaultError>)
    ensures
        match secret.auth_type {
            AuthType::Totp => match r {
                Ok(c) => base32_decode_of(secret.secret@) matches Some(k) && (exists|t: u64|
                    c@ == totp_code(k, t)),
                Err(e) => e == VaultError::TimeSource || e == VaultError::ClockSkew || (e
                    == VaultError::InvalidSecretEncoding && base32_decode_of(secret.secret@)
                    is None),
            },
            AuthType::Hotp => match r {
                Ok(c) => base32_decode_of(secret.secret@) matches Some(k) && c@ == hotp_code(
                    k,
                    match secret.counter {
                        Some(n) => n,
                        None => 0,
                    },
                ),
                Err(e) => e == VaultError::InvalidSecretEncoding && base32_decode_of(
                    secret.secret@,
                ) is None,
            },
            AuthType::Motp => match r {
                Ok(c) => exists|t: u64| c@ == motp_code(secret.secret@, t),
                Err(e) => e == VaultError::TimeSource,
            },
        },
{
    match secret.auth_type {
        AuthType::Totp => generate_totp(secret.secret.as_str()),
        AuthType::Hotp => {
            let counter = match secret.counter {
                Some(n) => n,
                None => 0,
            };
            generate_hotp(secret.secret.as_str(), counter)
        },
        AuthType::Motp => generate_motp(secret.secret.as_str()),
    }
}

} // verus!
