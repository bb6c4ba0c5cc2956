//! Building and validating stored records from plain values.
//!
//! URL tokenization is a collaborator's job; what arrives here are the
//! already-extracted parts — algorithm tag, service name, seed text and
//! counter text — and this module enforces the record invariants on
//! them: a supported tag, non-empty name and seed, and a counter exactly
//! when the algorithm is HOTP. The password strength policy lives here
//! too.

use vstd::prelude::*;

use crate::models::{AuthType, Secret};
use crate::text::str_eq;
use vstd::string::StringSliceAdditionalSpecFns;

verus! {

/// Why a password was rejected.
#[derive(Clone, Copy, Debug, PartialEq, Eq, Structural)]
pub enum PasswordError {
    /// The password is empty.
    Empty,
    /// Fewer than eight bytes.
    TooShort,
    /// No upper-case letter, no lower-case letter, or no decimal digit.
    MissingClasses,
}

/// Why record parts were rejected.
#[derive(Clone, Copy, Debug, PartialEq, Eq, Structural)]
pub enum RecordError {
    /// The algorithm tag is outside the supported set.
    UnsupportedAlgorithm,
    /// The service name is empty.
    EmptyName,
    /// No seed was given.
    MissingSecret,
    /// The seed text is empty.
    EmptySecret,
    /// HOTP needs a counter and none was given.
    MissingCounter,
    /// The counter text is not an unsigned 64-bit decimal number.
    InvalidCounter,
}

/// What char::is_uppercase reports: a function of the character alone.
pub uninterp spec fn char_is_uppercase(c: char) -> bool;

/// What char::is_lowercase reports: a function of the character alone.
pub uninterp spec fn char_is_lowercase(c: char) -> bool;

/// Relies on char::is_uppercase for the Unicode upper-case property.
#[verifier::external_body]
fn is_uppercase_char(c: char) -> (r: bool)
    ensures
        r == char_is_uppercase(c),
{
    c.is_uppercase()
}

/// Relies on char::is_lowercase for the Unicode lower-case property.
#[verifier::external_body]
fn is_lowercase_char(c: char) -> (r: bool)
    ensures
        r == char_is_lowercase(c),
{
    c.is_lowercase()
}

/// An ASCII decimal digit.
pub open spec fn is_dec_digit(c: char) -> bool {
    48 <= c as u32 <= 57
}

/// A password passes the policy when it has at least eight bytes and
/// holds an upper-case letter, a lower-case letter and a decimal digit.
pub open spec fn password_acceptable(pw: &str) -> bool {
    &&& pw.spec_bytes().len() >= 8
    &&& exists|i: int| 0 <= i < pw@.len() && char_is_uppercase(#[trigger] pw@[i])
    &&& exists|i: int| 0 <= i < pw@.len() && char_is_lowercase(#[trigger] pw@[i])
    &&& exists|i: int| 0 <= i < pw@.len() && is_dec_digit(#[trigger] pw@[i])
}

/// Checks the password strength policy, reporting the first rule the
/// password breaks: emptiness, then byte length, then character
/// classes.
pub fn validate_password(password: &str) -> (r: Result<(), PasswordError>)
    ensures
        match r {
            Ok(()) => password_acceptable(password),
            Err(e) => match e {
                PasswordError::Empty => password@.len() == 0,
                PasswordError::TooShort => password@.len() > 0 && password.spec_bytes().len() < 8,
                PasswordError::MissingClasses => !password_acceptable(password),
            },
        },
{
    if password.unicode_len() == 0 {
        return Err(PasswordError::Empty);
    }
    if password.as_bytes().len() < 8 {
        return Err(PasswordError::TooShort);
    }
    let n = password.unicode_len();
    let mut has_upper = false;
    let mut has_lower = false;
    let mut has_digit = false;
    let mut i: usize = 0;
    while i < n
        invariant
            n == password@.len(),
            i <= n,
            has_upper == exists|j: int| 0 <= j < i && char_is_uppercase(#[trigger] password@[j]),
            has_lower == exists|j: int| 0 <= j < i && char_is_lowercase(#[trigger] password@[j]),
            has_digit == exists|j: int| 0 <= j < i && is_dec_digit(#[trigger] password@[j]),
        decreases n - i,
    {
        let c = password.get_char(i);
        if is_uppercase_char(c) {
            has_upper = true;
        }
        if is_lowercase_char(c) {
            has_lower = true;
        }
        let code = c as u32;
        if 48 <= code && code <= 57 {
            has_digit = true;
        }
        i += 1;
    }
    if has_upper && has_lower && has_digit {
        Ok(())
    } else {
        Err(PasswordError::MissingClasses)
    }
}

/// The algorithm variant a lower-case tag names.
pub open spec fn auth_type_of_tag(s: Seq<char>) -> Option<AuthType> {
    if s == "totp"@ {
        Some(AuthType::Totp)
    } else if s == "hotp"@ {
        Some(AuthType::Hotp)
    } else if s == "motp"@ {
        Some(AuthType::Motp)
    } else {
        None
    }
}

/// Resolves a lower-case algorithm tag; any other tag is unsupported.
pub fn auth_type_from_str(s: &str) -> (r: Option<AuthType>)
    ensures
        r == auth_type_of_tag(s@),
{
    if str_eq(s, "totp") {
        Some(AuthType::Totp)
    } else if str_eq(s, "hotp") {
        Some(AuthType::Hotp)
    } else if str_eq(s, "motp") {
        Some(AuthType::Motp)
    } else {
        None
    }
}

/// The number a sequence of decimal digits denotes, most significant
/// first.
pub open spec fn digits_value(s: Seq<char>) -> int
    decreases s.len(),
{
    if s.len() == 0 {
        0
    } else {
        digits_value(s.drop_last()) * 10 + (s.last() as u32 - 48)
    }
}

/// Every character is an ASCII decimal digit.
pub open spec fn all_dec_digits(s: Seq<char>) -> bool {
    forall|i: int| 0 <= i < s.len() ==> is_dec_digit(s[i])
}

/// The digit part of decimal text: everything after an optional leading
/// plus sign.
pub open spec fn decimal_digits_of(s: Seq<char>) -> Seq<char> {
    if s.len() > 0 && s[0] == '+' {
        s.drop_first()
    } else {
        s
    }
}

/// What parsing unsigned decimal text yields: the denoted number when
/// the text is an optional plus sign followed by at least one digit and
/// the number fits in 64 bits; nothing otherwise. Exactly the texts
/// str::parse::<u64> accepts.
pub open spec fn u64_decimal_spec(s: Seq<char>) -> Option<u64> {
    let digits = decimal_digits_of(s);
    if digits.len() == 0 || !all_dec_digits(digits) || digits_value(digits) > u64::MAX {
        None
    } else {
        Some(digits_value(digits) as u64)
    }
}

proof fn lemma_digits_value_nonneg(s: Seq<char>)
    requires
        all_dec_digits(s),
    ensures
        digits_value(s) >= 0,
    decreases s.len(),
{
    if s.len() > 0 {
        assert(all_dec_digits(s.drop_last())) by {
            assert(forall|k: int| 0 <= k < s.len() - 1 ==> s.drop_last()[k] == s[k]);
        }
        lemma_digits_value_nonneg(s.drop_last());
    }
}

/// Once a prefix already denotes more than the 64-bit maximum, the whole
/// text does too: appending any character multiplies by ten first.
proof fn lemma_digits_value_overflow(s: Seq<char>, k: int)
    requires
        0 <= k <= s.len(),
        digits_value(s.subrange(0, k)) > u64::MAX,
    ensures
        digits_value(s) > u64::MAX,
    decreases s.len() - k,
{
    if k < s.len() {
        let v = digits_value(s.subrange(0, k));
        let t = s.subrange(0, k + 1);
        assert(t.drop_last() =~= s.subrange(0, k));
        assert(digits_value(t) == v * 10 + (t.last() as u32 - 48));
        assert(v * 10 == v + v * 9);
        assert(v * 9 >= 9 * (u64::MAX + 1)) by (nonlinear_arith)
            requires
                v > u64::MAX,
        ;
        lemma_digits_value_overflow(s, k + 1);
    } else {
        assert(s.subrange(0, k) =~= s);
    }
}

/// Parses unsigned 64-bit decimal text: an optional plus sign, then
/// digits; rejects empty digits, other characters and overflow.
pub fn parse_u64(s: &str) -> (r: Option<u64>)
    ensures
        r == u64_decimal_spec(s@),
{
    let n = s.unicode_len();
    let start: usize = if n > 0 && s.get_char(0) == '+' {
        1
    } else {
        0
    };
    let ghost digits = decimal_digits_of(s@);
    proof {
        assert(digits =~= s@.subrange(start as int, s@.len() as int));
    }
    if n == start {
        return None;
    }
    let mut acc: u64 = 0;
    let mut i: usize = start;
    while i < n
        invariant
            n == s@.len(),
            start <= i <= n,
            digits == decimal_digits_of(s@),
            digits == s@.subrange(start as int, s@.len() as int),
            all_dec_digits(digits.subrange(0, i - start)),
            acc == digits_value(digits.subrange(0, i - start)),
        decreases n - i,
    {
        let c = s.get_char(i);
        let code = c as u32;
        if code < 48 || code > 57 {
            proof {
                assert(digits[i - start] == c);
                assert(!all_dec_digits(digits));
            }
            return None;
        }
        let d = (code - 48) as u64;
        let next = match acc.checked_mul(10) {
            Some(m) => m.checked_add(d),
            None => None,
        };
        proof {
            assert(digits.subrange(0, i + 1 - start).drop_last() =~= digits.subrange(
                0,
                i - start,
            ));
            assert(digits.subrange(0, i + 1 - start).last() == c);
        }
        match next {
            Some(v) => {
                acc = v;
            },
            None => {
                proof {
                    assert(digits_value(digits.subrange(0, i + 1 - start)) > u64::MAX);
                    lemma_digits_value_overflow(digits, i + 1 - start);
                }
                return None;
            },
        }
        i += 1;
    }
    proof {
        assert(digits.subrange(0, n - start) =~= digits);
    }
    Some(acc)
}

/// Builds a stored record from extracted parts: a lower-case algorithm
/// tag, the service name, the seed text, and, for HOTP, the counter
/// text. Checks run in this order: tag, name, seed presence, seed
/// emptiness, counter presence, counter shape. The record returned
/// satisfies the record invariant: counter present exactly for HOTP.
pub fn build_secret_record(
    kind: &str,
    name: String,
    seed: Option<String>,
    counter_text: Option<&str>,
) -> (r: Result<Secret, RecordError>)
    ensures
        match r {
            Ok(s) => {
                &&& s.wf()
                &&& auth_type_of_tag(kind@) == Some(s.auth_type)
                &&& s.name@ == name@ && name@.len() > 0
                &&& seed matches Some(sd) && s.secret@ == sd@ && sd@.len() > 0
                &&& (s.auth_type == AuthType::Hotp ==> (counter_text matches Some(t)
                    && u64_decimal_spec(t@) == Some(s.counter->Some_0)))
                &&& (s.auth_type != AuthType::Hotp ==> s.counter is None)
            },
            Err(e) => match e {
                RecordError::UnsupportedAlgorithm => auth_type_of_tag(kind@) is None,
                RecordError::EmptyName => auth_type_of_tag(kind@) is Some && name@.len() == 0,
                RecordError::MissingSecret => auth_type_of_tag(kind@) is Some && name@.len() > 0
                    && seed is None,
                RecordError::EmptySecret => auth_type_of_tag(kind@) is Some && name@.len() > 0
                    && (seed matches Some(sd) && sd@.len() == 0),
                RecordError::MissingCounter => auth_type_of_tag(kind@) == Some(AuthType::Hotp)
                    && name@.len() > 0 && (seed matches Some(sd) && sd@.len() > 0)
                    && counter_text is None,
                RecordError::InvalidCounter => auth_type_of_tag(kind@) == Some(AuthType::Hotp)
                    && name@.len() > 0 && (seed matches Some(sd) && sd@.len() > 0) && (counter_text
                    matches Some(t) && u64_decimal_spec(t@) is None),
            },
        },
{
    let auth_type = match auth_type_from_str(kind) {
        Some(a) => a,
        None => return Err(RecordError::UnsupportedAlgorithm),
    };
    if name.as_str().unicode_len() == 0 {
        return Err(RecordError::EmptyName);
    }
    let seed = match seed {
        Some(sd) => sd,
        None => return Err(RecordError::MissingSecret),
    };
    if seed.as_str().unicode_len() == 0 {
        return Err(RecordError::EmptySecret);
    }
    let counter: Option<u64> = match auth_type {
        AuthType::Hotp => {
            let t = match counter_text {
                Some(t) => t,
                None => return Err(RecordError::MissingCounter),
            };
            match parse_u64(t) {
                Some(v) => Some(v),
                None => return Err(RecordError::InvalidCounter),
            }
        },
        _ => None,
    };
    Ok(Secret { name, secret: seed, auth_type, counter })
}

} // verus!
