use password_manager::encryption::{CryptoError, EncryptionManager};
use password_manager::manager::{Locked, PasswordEntry, PasswordManager, Unlocked, VaultError};

fn entry(username: &str, password: &str) -> PasswordEntry {
    PasswordEntry {
        username: username.to_string(),
        password: password.to_string(),
    }
}

#[test]
fn should_succeed() {
    let manager = PasswordManager::new("balls");
    let mut manager = manager.unlock().unwrap();

    let entry = PasswordEntry {
        username: "user".to_string(),
        password: "pass".to_string(),
    };
    manager.add_password(entry.clone()).unwrap();

    let entries = manager.list_passwords().unwrap();
    assert_eq!(entries[0], entry);
    let _ = manager.lock();
}

#[test]
fn one_entry_lists_as_exactly_that_entry() {
    let mut vault = PasswordManager::new("balls").unlock().unwrap();
    assert_eq!(vault.add_password(entry("user", "pass")), Ok(()));
    assert_eq!(vault.list_passwords(), Ok(vec![entry("user", "pass")]));
    let _locked: PasswordManager<Locked> = vault.lock();
}

#[test]
fn new_vault_lists_nothing() {
    let vault = PasswordManager::new(String::from("master")).unlock().unwrap();
    assert_eq!(vault.list_passwords(), Ok(vec![]));
}

#[test]
fn unlock_always_succeeds() {
    assert!(PasswordManager::new("").unlock().is_some());
    assert!(PasswordManager::new("balls").unlock().is_some());
}

#[test]
fn entries_list_in_the_order_of_the_adds() {
    let added = vec![
        entry("alice", "wonderland"),
        entry("bob", "builder"),
        entry("", ""),
        entry("alice", "wonderland"),
        entry("zoë", "pässwörd ✓ 密码"),
        entry("bob", ""),
    ];
    let mut vault = PasswordManager::new("balls").unlock().unwrap();
    for (count, one) in added.iter().enumerate() {
        assert_eq!(vault.list_passwords().unwrap(), added[..count].to_vec());
        vault.add_password(one.clone()).unwrap();
    }
    assert_eq!(vault.list_passwords(), Ok(added));
}

#[test]
fn listing_does_not_change_the_vault() {
    let mut vault = PasswordManager::new("balls").unlock().unwrap();
    vault.add_password(entry("user", "pass")).unwrap();
    let first = vault.list_passwords().unwrap();
    let second = vault.list_passwords().unwrap();
    assert_eq!(first, second);
    assert_eq!(second, vec![entry("user", "pass")]);
}

#[test]
fn lock_then_unlock_keeps_every_entry() {
    let mut vault = PasswordManager::new("balls").unlock().unwrap();
    vault.add_password(entry("user", "pass")).unwrap();
    vault.add_password(entry("other", "secret")).unwrap();
    let locked = vault.lock();
    let mut vault: PasswordManager<Unlocked> = locked.unlock().unwrap();
    assert_eq!(
        vault.list_passwords(),
        Ok(vec![entry("user", "pass"), entry("other", "secret")])
    );
    vault.add_password(entry("third", "3")).unwrap();
    let vault = vault.lock().unlock().unwrap().lock().unlock().unwrap();
    assert_eq!(
        vault.list_passwords(),
        Ok(vec![
            entry("user", "pass"),
            entry("other", "secret"),
            entry("third", "3")
        ])
    );
}

#[test]
fn unlock_then_lock_of_an_empty_vault() {
    let locked = PasswordManager::new("balls");
    let locked = locked.unlock().unwrap().lock();
    assert_eq!(locked.unlock().unwrap().list_passwords(), Ok(vec![]));
}

#[test]
fn vault_with_a_given_cipher() {
    let cipher = EncryptionManager::from_key_and_nonce([1u8; 32], [2u8; 12]);
    let mut vault = PasswordManager::with_cipher("balls".to_string(), cipher)
        .unlock()
        .unwrap();
    assert_eq!(vault.list_passwords(), Ok(vec![]));
    vault.add_password(entry("user", "pass")).unwrap();
    assert_eq!(vault.list_passwords(), Ok(vec![entry("user", "pass")]));
}

#[test]
fn long_texts_are_stored() {
    let long = "x".repeat(200_000);
    let mut vault = PasswordManager::new("balls").unlock().unwrap();
    vault.add_password(entry(&long, "pass")).unwrap();
    vault.add_password(entry("user", &long)).unwrap();
    assert_eq!(
        vault.list_passwords(),
        Ok(vec![entry(&long, "pass"), entry("user", &long)])
    );
}

#[test]
fn entry_from_utf8_bytes() {
    assert_eq!(
        PasswordEntry::from_utf8(b"user".to_vec(), b"pass".to_vec()),
        Ok(entry("user", "pass"))
    );
    assert_eq!(PasswordEntry::from_utf8(vec![], vec![]), Ok(entry("", "")));
    assert_eq!(
        PasswordEntry::from_utf8("zoë".as_bytes().to_vec(), vec![0xe5, 0xaf, 0x86]),
        Ok(entry("zoë", "密"))
    );
}

#[test]
fn entry_from_bytes_that_are_not_utf8() {
    assert_eq!(
        PasswordEntry::from_utf8(vec![0xff], b"pass".to_vec()),
        Err(VaultError::Encoding)
    );
    assert_eq!(
        PasswordEntry::from_utf8(b"user".to_vec(), vec![0xc3]),
        Err(VaultError::Encoding)
    );
    assert_eq!(
        PasswordEntry::from_utf8(vec![0xc0, 0x80], vec![0xed, 0xa0, 0x80]),
        Err(VaultError::Encoding)
    );
}

#[test]
fn cipher_failure_becomes_a_vault_error() {
    assert_eq!(VaultError::from(CryptoError), VaultError::Crypto(CryptoError));
    assert_ne!(VaultError::from(CryptoError), VaultError::Encoding);
    let manager = EncryptionManager::new();
    let failure = manager.decrypt(&vec![0u8; 16]).map_err(VaultError::from);
    assert_eq!(failure, Err(VaultError::Crypto(CryptoError)));
}
