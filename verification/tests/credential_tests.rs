use simplsource::credential::{drop_pair, keys_distinct, lookup, put_pair, CredentialError, CredentialStore, SealedFile};

const ID: u128 = 0x67e5_5044_10b1_426f_9247_bb68_0e5f_e0c8;

#[test]
fn store_and_load_secret_without_keyring() {
    let store = CredentialStore::new("/tmp/simplsource-test-dir", false);
    assert!(!store.uses_keyring());
    let mut entries: Vec<(String, String)> = Vec::new();
    CredentialStore::store_encrypted(&mut entries, ID, "s3cr3t");
    let plain = serde_json::to_vec(&entries).unwrap();
    let file = store.seal_file(&plain).expect("store");
    let opened = store.open_file(Some(&file)).expect("get").expect("some");
    let back: Vec<(String, String)> = serde_json::from_slice(&opened).unwrap();
    assert_eq!(CredentialStore::load_encrypted(&back, ID), Some("s3cr3t".to_string()));
}

#[test]
fn store_keeps_other_secrets_and_overwrites_own() {
    let other: u128 = 7;
    let mut entries: Vec<(String, String)> = Vec::new();
    CredentialStore::store_encrypted(&mut entries, ID, "one");
    CredentialStore::store_encrypted(&mut entries, other, "two");
    CredentialStore::store_encrypted(&mut entries, ID, "three");
    assert_eq!(entries.len(), 2);
    assert_eq!(CredentialStore::load_encrypted(&entries, ID), Some("three".to_string()));
    assert_eq!(CredentialStore::load_encrypted(&entries, other), Some("two".to_string()));
}

#[test]
fn delete_forgets_only_that_secret() {
    let mut entries: Vec<(String, String)> = Vec::new();
    CredentialStore::store_encrypted(&mut entries, ID, "one");
    CredentialStore::store_encrypted(&mut entries, 1, "two");
    CredentialStore::delete_encrypted(&mut entries, ID);
    assert_eq!(CredentialStore::load_encrypted(&entries, ID), None);
    assert_eq!(CredentialStore::load_encrypted(&entries, 1), Some("two".to_string()));
    CredentialStore::delete_encrypted(&mut entries, 99);
    assert_eq!(entries.len(), 1);
}

#[test]
fn no_file_or_empty_ciphertext_means_no_payload() {
    let store = CredentialStore::new("/data", true);
    assert!(store.uses_keyring());
    assert!(store.open_file(None).unwrap().is_none());
    let empty = SealedFile { nonce: String::new(), ciphertext: String::new() };
    assert!(store.open_file(Some(&empty)).unwrap().is_none());
}

#[test]
fn another_directory_cannot_open_the_file() {
    let a = CredentialStore::new("/data/a", false);
    let b = CredentialStore::new("/data/b", false);
    let f = a.seal_file(b"payload").unwrap();
    assert_eq!(a.open_file(Some(&f)).unwrap(), Some(b"payload".to_vec()));
    assert!(matches!(b.open_file(Some(&f)), Err(CredentialError::Read(_))));
}

#[test]
fn malformed_files_are_read_errors() {
    let s = CredentialStore::new("/data", false);
    let bad = SealedFile { nonce: "!!".into(), ciphertext: "AAAA".into() };
    let e = s.open_file(Some(&bad)).unwrap_err();
    assert!(e.describe().starts_with("failed to read secrets: "));
    let short = SealedFile { nonce: "AAAA".into(), ciphertext: "AAAA".into() };
    match s.open_file(Some(&short)) {
        Err(CredentialError::Read(m)) => assert_eq!(m, "invalid nonce length"),
        other => panic!("expected a read error, got {:?}", other),
    }
}

#[test]
fn sealing_hides_the_payload_under_fresh_nonces() {
    let s = CredentialStore::new("/data", false);
    let a = s.seal_file(b"s3cr3t").unwrap();
    let b = s.seal_file(b"s3cr3t").unwrap();
    assert_eq!(a.nonce.len(), 16);
    assert!(!a.ciphertext.contains("s3cr3t"));
    assert_ne!((a.nonce.clone(), a.ciphertext.clone()), (b.nonce, b.ciphertext));
}

#[test]
fn keyring_account_and_paths() {
    assert_eq!(CredentialStore::keyring_key(ID), "conn-67e55044-10b1-426f-9247-bb680e5fe0c8");
    assert_eq!(CredentialStore::service_name(), "com.simplsource.app");
    let s = CredentialStore::new("/data", false);
    assert_eq!(s.secrets_path(), "/data/secrets.enc.json");
    assert_eq!(s.derive_key().len(), 32);
    assert_ne!(s.derive_key(), CredentialStore::new("/other", false).derive_key());
}

#[test]
fn error_descriptions() {
    assert_eq!(CredentialError::Write("x".into()).describe(), "failed to write secrets: x");
    assert_eq!(CredentialError::NotFound.describe(), "secret not found");
}

#[test]
fn pairs_behave_as_a_map() {
    let mut p: Vec<(String, String)> = Vec::new();
    put_pair(&mut p, "a".into(), "1".into());
    put_pair(&mut p, "b".into(), "2".into());
    put_pair(&mut p, "a".into(), "3".into());
    assert_eq!(lookup(&p, "a"), Some("3".to_string()));
    assert_eq!(lookup(&p, "b"), Some("2".to_string()));
    assert_eq!(p.len(), 2);
    assert!(keys_distinct(&p));
    drop_pair(&mut p, "a");
    assert_eq!(lookup(&p, "a"), None);
    assert_eq!(lookup(&p, "b"), Some("2".to_string()));
    assert!(!keys_distinct(&vec![("k".to_string(), "1".to_string()), ("k".to_string(), "2".to_string())]));
}
