use otpguard::crypto::{decrypt_data, encrypt_data};
use otpguard::models::{AuthType, Secret};
use otpguard::otp::{generate_code, generate_hotp};
use otpguard::record::validate_password;
use otpguard::store::SecretStore;

// The full life of one vault: set a password, add an HOTP service,
// generate a code, advance the counter as owed, persist the store as an
// encrypted container and read it back.
#[test]
fn hotp_counter_advances_across_a_reload() {
    let password = "Str0ngPass!";
    assert_eq!(validate_password(password), Ok(()));

    let mut store = SecretStore::new();
    store.insert(Secret {
        name: String::from("github"),
        secret: String::from("JBSWY3DPEHPK3PXP"),
        auth_type: AuthType::Hotp,
        counter: Some(0),
    });

    let code = generate_code(store.get("github").unwrap()).unwrap();
    assert_eq!(code, generate_hotp("JBSWY3DPEHPK3PXP", 0).unwrap());
    store.bump_counter("github");
    assert_eq!(store.get("github").unwrap().counter, Some(1));

    // Persist a serialized image of the store and reload it: the
    // container must hand back the very bytes, counter value included.
    let mut payload = Vec::new();
    for s in store.entries().iter() {
        payload.extend_from_slice(s.name.as_bytes());
        payload.push(b'\t');
        payload.extend_from_slice(s.secret.as_bytes());
        payload.push(b'\t');
        payload.extend_from_slice(format!("{:?}", s.counter).as_bytes());
        payload.push(b'\n');
    }
    let container = encrypt_data(&payload, password).unwrap();
    let reloaded = decrypt_data(&container, password).unwrap();
    assert_eq!(reloaded, payload);
    let text = String::from_utf8(reloaded).unwrap();
    assert_eq!(text, "github\tJBSWY3DPEHPK3PXP\tSome(1)\n");
}
