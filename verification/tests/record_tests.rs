use otpguard::models::AuthType;
use otpguard::record::{
    auth_type_from_str, build_secret_record, parse_u64, validate_password, PasswordError,
    RecordError,
};

#[test]
fn password_policy_accepts_strong_passwords() {
    assert_eq!(validate_password("Str0ngPass!"), Ok(()));
}

#[test]
fn password_policy_rejects_weak_passwords() {
    assert_eq!(validate_password(""), Err(PasswordError::Empty));
    assert_eq!(validate_password("Ab1"), Err(PasswordError::TooShort));
    assert_eq!(validate_password("alllowercase1"), Err(PasswordError::MissingClasses));
    assert_eq!(validate_password("ALLUPPERCASE1"), Err(PasswordError::MissingClasses));
    assert_eq!(validate_password("NoDigitsHere"), Err(PasswordError::MissingClasses));
}

#[test]
fn decimal_parsing_matches_std() {
    assert_eq!(parse_u64("0"), Some(0));
    assert_eq!(parse_u64("42"), Some(42));
    assert_eq!(parse_u64("+7"), Some(7));
    assert_eq!(parse_u64("18446744073709551615"), Some(u64::MAX));
    assert_eq!(parse_u64("18446744073709551616"), None);
    assert_eq!(parse_u64(""), None);
    assert_eq!(parse_u64("+"), None);
    assert_eq!(parse_u64("12a"), None);
    assert_eq!(parse_u64("-1"), None);
    for text in ["0", "42", "+7", "18446744073709551615", "18446744073709551616", "", "+", "12a", "-1"] {
        assert_eq!(parse_u64(text), text.parse::<u64>().ok());
    }
}

#[test]
fn algorithm_tags_resolve_exactly() {
    assert_eq!(auth_type_from_str("totp"), Some(AuthType::Totp));
    assert_eq!(auth_type_from_str("hotp"), Some(AuthType::Hotp));
    assert_eq!(auth_type_from_str("motp"), Some(AuthType::Motp));
    assert_eq!(auth_type_from_str("TOTP"), None);
    assert_eq!(auth_type_from_str("ocra"), None);
}

#[test]
fn building_a_hotp_record_needs_a_counter() {
    let r = build_secret_record(
        "hotp",
        String::from("github"),
        Some(String::from("JBSWY3DPEHPK3PXP")),
        Some("0"),
    )
    .unwrap();
    assert_eq!(r.auth_type, AuthType::Hotp);
    assert_eq!(r.counter, Some(0));

    let r = build_secret_record(
        "hotp",
        String::from("github"),
        Some(String::from("JBSWY3DPEHPK3PXP")),
        None,
    );
    assert_eq!(r.unwrap_err(), RecordError::MissingCounter);

    let r = build_secret_record(
        "hotp",
        String::from("github"),
        Some(String::from("JBSWY3DPEHPK3PXP")),
        Some("ten"),
    );
    assert_eq!(r.unwrap_err(), RecordError::InvalidCounter);
}

#[test]
fn building_a_totp_record_carries_no_counter() {
    let r = build_secret_record(
        "totp",
        String::from("mail"),
        Some(String::from("JBSWY3DPEHPK3PXP")),
        Some("5"),
    )
    .unwrap();
    assert_eq!(r.auth_type, AuthType::Totp);
    assert_eq!(r.counter, None);
}

#[test]
fn building_rejects_bad_parts() {
    let seed = || Some(String::from("JBSWY3DPEHPK3PXP"));
    let r = build_secret_record("ocra", String::from("svc"), seed(), None);
    assert_eq!(r.unwrap_err(), RecordError::UnsupportedAlgorithm);
    let r = build_secret_record("totp", String::new(), seed(), None);
    assert_eq!(r.unwrap_err(), RecordError::EmptyName);
    let r = build_secret_record("totp", String::from("svc"), None, None);
    assert_eq!(r.unwrap_err(), RecordError::MissingSecret);
    let r = build_secret_record("totp", String::from("svc"), Some(String::new()), None);
    assert_eq!(r.unwrap_err(), RecordError::EmptySecret);
}
