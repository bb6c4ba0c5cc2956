use otpguard::models::{AuthType, Secret};
use otpguard::store::SecretStore;

fn record(name: &str, seed: &str, auth_type: AuthType, counter: Option<u64>) -> Secret {
    Secret { name: String::from(name), secret: String::from(seed), auth_type, counter }
}

#[test]
fn insert_get_and_contains() {
    let mut store = SecretStore::new();
    assert!(store.entries().is_empty());
    store.insert(record("github", "JBSWY3DPEHPK3PXP", AuthType::Hotp, Some(0)));
    assert!(store.contains("github"));
    assert!(!store.contains("gitlab"));
    let s = store.get("github").unwrap();
    assert_eq!(s.name, "github");
    assert_eq!(s.secret, "JBSWY3DPEHPK3PXP");
    assert_eq!(s.counter, Some(0));
}

#[test]
fn insert_replaces_record_with_equal_name() {
    let mut store = SecretStore::new();
    store.insert(record("svc", "SEEDONE1", AuthType::Totp, None));
    store.insert(record("svc", "SEEDTWO2", AuthType::Totp, None));
    assert_eq!(store.entries().len(), 1);
    assert_eq!(store.get("svc").unwrap().secret, "SEEDTWO2");
}

#[test]
fn remove_deletes_the_record() {
    let mut store = SecretStore::new();
    store.insert(record("a", "SEEDA", AuthType::Totp, None));
    store.insert(record("b", "SEEDB", AuthType::Totp, None));
    assert!(store.remove("a"));
    assert!(!store.contains("a"));
    assert!(store.contains("b"));
    assert_eq!(store.entries().len(), 1);
}

#[test]
fn removing_missing_name_leaves_store_identical() {
    let mut store = SecretStore::new();
    store.insert(record("kept", "SEEDK", AuthType::Hotp, Some(4)));
    let before: Vec<(String, String, Option<u64>)> = store
        .entries()
        .iter()
        .map(|s| (s.name.clone(), s.secret.clone(), s.counter))
        .collect();
    assert!(!store.remove("no such service"));
    let after: Vec<(String, String, Option<u64>)> = store
        .entries()
        .iter()
        .map(|s| (s.name.clone(), s.secret.clone(), s.counter))
        .collect();
    assert_eq!(before, after);
}

#[test]
fn rename_moves_the_record_under_the_new_key() {
    let mut store = SecretStore::new();
    store.insert(record("old", "SEEDR", AuthType::Hotp, Some(9)));
    assert!(store.rename("old", "new"));
    assert!(!store.contains("old"));
    let s = store.get("new").unwrap();
    assert_eq!(s.name, "new");
    assert_eq!(s.secret, "SEEDR");
    assert_eq!(s.counter, Some(9));
    assert_eq!(store.entries().len(), 1);
}

#[test]
fn rename_of_missing_name_is_a_no_op() {
    let mut store = SecretStore::new();
    store.insert(record("kept", "SEEDK", AuthType::Totp, None));
    assert!(!store.rename("absent", "elsewhere"));
    assert!(store.contains("kept"));
    assert!(!store.contains("elsewhere"));
}

#[test]
fn bump_counter_advances_hotp_by_one() {
    let mut store = SecretStore::new();
    store.insert(record("svc", "SEEDH", AuthType::Hotp, Some(41)));
    store.bump_counter("svc");
    assert_eq!(store.get("svc").unwrap().counter, Some(42));
}

#[test]
fn bump_counter_saturates_at_the_maximum() {
    let mut store = SecretStore::new();
    store.insert(record("svc", "SEEDH", AuthType::Hotp, Some(u64::MAX)));
    store.bump_counter("svc");
    assert_eq!(store.get("svc").unwrap().counter, Some(u64::MAX));
}

#[test]
fn bump_counter_leaves_totp_and_missing_names_alone() {
    let mut store = SecretStore::new();
    store.insert(record("t", "SEEDT", AuthType::Totp, None));
    store.bump_counter("t");
    assert_eq!(store.get("t").unwrap().counter, None);
    store.bump_counter("absent");
    assert_eq!(store.entries().len(), 1);
}
