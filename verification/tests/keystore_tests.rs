use nekoton::errors::KeyStoreError;
use nekoton::keystore::{
    snapshot_well_formed, ChangeKeyPassword, ExportKey, ExportedKey, KeyPassword, KeyStore,
    KeyStoreEntry, MasterKeyParams, MemoryStore, NewKey, RejectingStore, SecretMaterial,
    StoredKey, VaultStore,
};
use nekoton::signer::{MnemonicType, SignerKind};

fn fresh_vault() -> KeyStore<MemoryStore> {
    KeyStore::load(MemoryStore::new()).unwrap()
}

fn phrase() -> Vec<u8> {
    b"valley cruel oyster kit repair icon van stage cruise hungry rent tiny".to_vec()
}

fn import_master(
    vault: &mut KeyStore<MemoryStore>,
    name: &str,
    phrase: Vec<u8>,
    password: &[u8],
) -> Result<KeyStoreEntry, KeyStoreError> {
    vault.add_key(
        &name.as_bytes().to_vec(),
        NewKey::MasterKey {
            params: MasterKeyParams::Import { phrase },
            password: password.to_vec(),
        },
    )
}

#[test]
fn repeated_import_same_phrase_collides() {
    let mut vault = fresh_vault();
    let first = import_master(&mut vault, "main", phrase(), b"pw1").unwrap();
    assert_eq!(first.signer_kind, SignerKind::MasterKey);
    assert_eq!(first.public_key.len(), 32);

    // same derivation inputs, different name and password: same public key,
    // so the second import is rejected
    let second = import_master(&mut vault, "other", phrase(), b"pw2");
    assert_eq!(second.unwrap_err(), KeyStoreError::KeyAlreadyExists);
}

#[test]
fn import_is_deterministic_across_vaults() {
    let mut vault1 = fresh_vault();
    let mut vault2 = fresh_vault();
    let e1 = import_master(&mut vault1, "a", phrase(), b"pw1").unwrap();
    let e2 = import_master(&mut vault2, "b", phrase(), b"zzz").unwrap();
    assert_eq!(e1.public_key, e2.public_key);
}

#[test]
fn derive_repeated_account_collides() {
    let mut vault = fresh_vault();
    import_master(&mut vault, "main", phrase(), b"pw1").unwrap();
    let derived = vault
        .add_key(
            &b"child".to_vec(),
            NewKey::MasterKey {
                params: MasterKeyParams::Derive { account_id: 3 },
                password: b"pw1".to_vec(),
            },
        )
        .unwrap();
    assert_eq!(derived.signer_kind, SignerKind::MasterKey);

    let again = vault.add_key(
        &b"child2".to_vec(),
        NewKey::MasterKey {
            params: MasterKeyParams::Derive { account_id: 3 },
            password: b"pw1".to_vec(),
        },
    );
    assert_eq!(again.unwrap_err(), KeyStoreError::KeyAlreadyExists);
}

#[test]
fn derive_without_master_is_key_not_found() {
    let mut vault = fresh_vault();
    let r = vault.add_key(
        &b"child".to_vec(),
        NewKey::MasterKey {
            params: MasterKeyParams::Derive { account_id: 0 },
            password: b"pw1".to_vec(),
        },
    );
    assert_eq!(r.unwrap_err(), KeyStoreError::KeyNotFound);
}

#[test]
fn derive_with_wrong_password_is_rejected() {
    let mut vault = fresh_vault();
    import_master(&mut vault, "main", phrase(), b"pw1").unwrap();
    let r = vault.add_key(
        &b"child".to_vec(),
        NewKey::MasterKey {
            params: MasterKeyParams::Derive { account_id: 1 },
            password: b"wrong".to_vec(),
        },
    );
    assert_eq!(r.unwrap_err(), KeyStoreError::WrongCredential);
}

#[test]
fn export_roundtrips_master_phrase() {
    let mut vault = fresh_vault();
    let entry = import_master(&mut vault, "main", phrase(), b"pw1").unwrap();

    let exported = vault
        .export_key(&ExportKey::MasterKey { password: b"pw1".to_vec() })
        .unwrap();
    let recovered = match exported {
        ExportedKey::MasterKey { phrase } => phrase,
        _ => panic!("unexpected export shape"),
    };
    assert_eq!(recovered, phrase());

    // re-importing the exported material reproduces the same public key
    let mut vault2 = fresh_vault();
    let reimported = import_master(&mut vault2, "copy", recovered, b"new-pw").unwrap();
    assert_eq!(reimported.public_key, entry.public_key);
}

#[test]
fn export_roundtrips_encrypted_phrase() {
    let mut vault = fresh_vault();
    let entry = vault
        .add_key(
            &b"imported".to_vec(),
            NewKey::EncryptedKey {
                phrase: phrase(),
                mnemonic_type: MnemonicType::Labs { account_id: 0 },
                password: b"pw1".to_vec(),
            },
        )
        .unwrap();
    assert_eq!(entry.signer_kind, SignerKind::EncryptedKey);

    let exported = vault
        .export_key(&ExportKey::EncryptedKey {
            public_key: entry.public_key.clone(),
            password: b"pw1".to_vec(),
        })
        .unwrap();
    let (recovered, mt) = match exported {
        ExportedKey::EncryptedKey { phrase, mnemonic_type } => (phrase, mnemonic_type),
        _ => panic!("unexpected export shape"),
    };
    assert_eq!(recovered, phrase());
    assert_eq!(mt, MnemonicType::Labs { account_id: 0 });

    let mut vault2 = fresh_vault();
    let reimported = vault2
        .add_key(
            &b"copy".to_vec(),
            NewKey::EncryptedKey {
                phrase: recovered,
                mnemonic_type: mt,
                password: b"other".to_vec(),
            },
        )
        .unwrap();
    assert_eq!(reimported.public_key, entry.public_key);
}

#[test]
fn sign_with_wrong_credential_never_signs() {
    let mut vault = fresh_vault();
    let entry = import_master(&mut vault, "main", phrase(), b"pw1").unwrap();
    let hash = vec![7u8; 32];

    let r = vault.sign(
        &hash,
        &KeyPassword::MasterKey {
            public_key: entry.public_key.clone(),
            password: b"wrong".to_vec(),
        },
    );
    assert_eq!(r.unwrap_err(), KeyStoreError::WrongCredential);

    let ok = vault
        .sign(
            &hash,
            &KeyPassword::MasterKey {
                public_key: entry.public_key.clone(),
                password: b"pw1".to_vec(),
            },
        )
        .unwrap();
    assert_eq!(ok.len(), 64);

    // signing is deterministic and never mutates the vault
    let again = vault
        .sign(
            &hash,
            &KeyPassword::MasterKey {
                public_key: entry.public_key,
                password: b"pw1".to_vec(),
            },
        )
        .unwrap();
    assert_eq!(ok, again);
}

#[test]
fn sign_unknown_key_is_key_not_found() {
    let vault = fresh_vault();
    let r = vault.sign(
        &vec![1u8; 32],
        &KeyPassword::MasterKey { public_key: vec![9u8; 32], password: b"pw".to_vec() },
    );
    assert_eq!(r.unwrap_err(), KeyStoreError::KeyNotFound);
}

#[test]
fn sign_under_wrong_scheme_is_key_not_found() {
    let mut vault = fresh_vault();
    let entry = import_master(&mut vault, "main", phrase(), b"pw1").unwrap();
    // the key belongs to the derived scheme; asking the encrypted scheme fails
    let r = vault.sign(
        &vec![1u8; 32],
        &KeyPassword::EncryptedKey { public_key: entry.public_key, password: b"pw1".to_vec() },
    );
    assert_eq!(r.unwrap_err(), KeyStoreError::KeyNotFound);
}

#[test]
fn remove_twice_fails_second_time() {
    let mut vault = fresh_vault();
    let entry = import_master(&mut vault, "main", phrase(), b"pw1").unwrap();
    vault.remove_key(&entry.public_key).unwrap();
    let r = vault.remove_key(&entry.public_key);
    assert_eq!(r.unwrap_err(), KeyStoreError::KeyNotFound);
}

#[test]
fn clear_then_list_is_empty() {
    let mut vault = fresh_vault();
    import_master(&mut vault, "main", phrase(), b"pw1").unwrap();
    vault
        .add_key(
            &b"enc".to_vec(),
            NewKey::EncryptedKey {
                phrase: b"other phrase entirely".to_vec(),
                mnemonic_type: MnemonicType::Legacy,
                password: b"pw".to_vec(),
            },
        )
        .unwrap();
    assert_eq!(vault.get_stored_keys().len(), 2);
    vault.clear().unwrap();
    assert!(vault.get_stored_keys().is_empty());
    // clearing an empty vault stays fine
    vault.clear().unwrap();
    assert!(vault.get_stored_keys().is_empty());
}

#[test]
fn change_password_scenario() {
    // vault with a derived-scheme key for account 0 under a phrase and "pw1"
    let mut vault = fresh_vault();
    let entry = import_master(&mut vault, "main", phrase(), b"pw1").unwrap();
    let hash = vec![3u8; 32];

    vault
        .change_key_password(ChangeKeyPassword::MasterKey {
            old_password: b"pw1".to_vec(),
            new_password: b"pw2".to_vec(),
        })
        .unwrap();

    // export with "pw2" returns the phrase; export with "pw1" is rejected
    let exported = vault
        .export_key(&ExportKey::MasterKey { password: b"pw2".to_vec() })
        .unwrap();
    match exported {
        ExportedKey::MasterKey { phrase: p } => assert_eq!(p, phrase()),
        _ => panic!("unexpected export shape"),
    }
    let stale = vault.export_key(&ExportKey::MasterKey { password: b"pw1".to_vec() });
    assert_eq!(stale.unwrap_err(), KeyStoreError::WrongCredential);

    // signing follows the same switch: old fails, new succeeds
    let old = vault.sign(
        &hash,
        &KeyPassword::MasterKey {
            public_key: entry.public_key.clone(),
            password: b"pw1".to_vec(),
        },
    );
    assert_eq!(old.unwrap_err(), KeyStoreError::WrongCredential);
    let fresh = vault.sign(
        &hash,
        &KeyPassword::MasterKey { public_key: entry.public_key, password: b"pw2".to_vec() },
    );
    assert!(fresh.is_ok());
}

#[test]
fn change_encrypted_password_by_public_key() {
    let mut vault = fresh_vault();
    let entry = vault
        .add_key(
            &b"enc".to_vec(),
            NewKey::EncryptedKey {
                phrase: phrase(),
                mnemonic_type: MnemonicType::Legacy,
                password: b"pw1".to_vec(),
            },
        )
        .unwrap();

    vault
        .change_key_password(ChangeKeyPassword::EncryptedKey {
            public_key: entry.public_key.clone(),
            old_password: b"pw1".to_vec(),
            new_password: b"pw2".to_vec(),
        })
        .unwrap();

    let hash = vec![5u8; 32];
    let old = vault.sign(
        &hash,
        &KeyPassword::EncryptedKey {
            public_key: entry.public_key.clone(),
            password: b"pw1".to_vec(),
        },
    );
    assert_eq!(old.unwrap_err(), KeyStoreError::WrongCredential);
    let fresh = vault.sign(
        &hash,
        &KeyPassword::EncryptedKey { public_key: entry.public_key, password: b"pw2".to_vec() },
    );
    assert!(fresh.is_ok());
}

#[test]
fn change_master_password_wrong_old_is_rejected() {
    let mut vault = fresh_vault();
    import_master(&mut vault, "main", phrase(), b"pw1").unwrap();
    let r = vault.change_key_password(ChangeKeyPassword::MasterKey {
        old_password: b"bad".to_vec(),
        new_password: b"pw2".to_vec(),
    });
    assert_eq!(r.unwrap_err(), KeyStoreError::WrongCredential);
    // the old credential still works
    let exported = vault.export_key(&ExportKey::MasterKey { password: b"pw1".to_vec() });
    assert!(exported.is_ok());
}

#[test]
fn store_failure_rolls_back() {
    let mut vault: KeyStore<RejectingStore> = KeyStore::load(RejectingStore::new()).unwrap();
    let r = import_master_rejecting(&mut vault);
    assert_eq!(r.unwrap_err(), KeyStoreError::StoreFailed);
    assert!(vault.get_stored_keys().is_empty());
}

fn import_master_rejecting(
    vault: &mut KeyStore<RejectingStore>,
) -> Result<KeyStoreEntry, KeyStoreError> {
    vault.add_key(
        &b"main".to_vec(),
        NewKey::MasterKey {
            params: MasterKeyParams::Import { phrase: phrase() },
            password: b"pw1".to_vec(),
        },
    )
}

#[test]
fn corrupt_snapshot_is_store_failed() {
    // two records sharing one public key: the snapshot is corrupt
    let record = |name: &[u8]| StoredKey {
        name: name.to_vec(),
        public_key: vec![1u8; 32],
        secret: SecretMaterial::Encrypted {
            phrase_ct: vec![2u8, 3u8],
            verifier: b"pw".to_vec(),
            mnemonic_type: MnemonicType::Legacy,
        },
    };
    let store = MemoryStore::with_snapshot(vec![record(b"a"), record(b"b")]);
    let r = KeyStore::load(store);
    assert!(matches!(r, Err(KeyStoreError::StoreFailed)));
}

#[test]
fn listed_entries_keep_insertion_order() {
    let mut vault = fresh_vault();
    import_master(&mut vault, "first", phrase(), b"pw1").unwrap();
    vault
        .add_key(
            &b"second".to_vec(),
            NewKey::EncryptedKey {
                phrase: b"a different mnemonic phrase".to_vec(),
                mnemonic_type: MnemonicType::Labs { account_id: 7 },
                password: b"pw".to_vec(),
            },
        )
        .unwrap();
    let entries = vault.get_stored_keys();
    assert_eq!(entries.len(), 2);
    assert_eq!(entries[0].name, b"first".to_vec());
    assert_eq!(entries[0].signer_kind, SignerKind::MasterKey);
    assert_eq!(entries[1].name, b"second".to_vec());
    assert_eq!(entries[1].signer_kind, SignerKind::EncryptedKey);
    assert_ne!(entries[0].public_key, entries[1].public_key);
}

#[test]
fn public_key_hex_is_lowercase_two_digits_per_byte() {
    let entry = KeyStoreEntry {
        name: b"probe".to_vec(),
        public_key: vec![0u8, 255u8, 16u8, 10u8],
        signer_kind: SignerKind::EncryptedKey,
    };
    assert_eq!(entry.public_key_hex(), "00ff100a");
}

#[test]
fn vault_entry_hex_has_sixty_four_digits() {
    let mut vault = fresh_vault();
    let entry = import_master(&mut vault, "main", phrase(), b"pw1").unwrap();
    let hex = entry.public_key_hex();
    assert_eq!(hex.len(), 64);
    assert!(hex.chars().all(|c| c.is_ascii_hexdigit() && !c.is_ascii_uppercase()));
}

fn handmade_record(name: &[u8], pk_fill: u8) -> StoredKey {
    StoredKey {
        name: name.to_vec(),
        public_key: vec![pk_fill; 32],
        secret: SecretMaterial::Encrypted {
            phrase_ct: vec![2u8, 3u8],
            verifier: b"pw".to_vec(),
            mnemonic_type: MnemonicType::Legacy,
        },
    }
}

#[test]
fn snapshot_validation_spots_collisions() {
    assert!(snapshot_well_formed(&vec![handmade_record(b"a", 1), handmade_record(b"b", 2)]));
    assert!(!snapshot_well_formed(&vec![handmade_record(b"a", 1), handmade_record(b"b", 1)]));
}

#[test]
fn valid_snapshot_loads_and_lists() {
    let store = MemoryStore::with_snapshot(vec![
        handmade_record(b"a", 1),
        handmade_record(b"b", 2),
    ]);
    let vault = KeyStore::load(store).unwrap();
    let entries = vault.get_stored_keys();
    assert_eq!(entries.len(), 2);
    assert_eq!(entries[0].name, b"a".to_vec());
    assert_eq!(entries[1].public_key, vec![2u8; 32]);
}

#[test]
fn from_snapshot_adopts_exactly_the_records() {
    let records = vec![handmade_record(b"a", 1), handmade_record(b"b", 2)];
    let vault = KeyStore::from_snapshot(records, MemoryStore::new()).unwrap();
    let entries = vault.get_stored_keys();
    assert_eq!(entries.len(), 2);
    assert_eq!(entries[0].name, b"a".to_vec());
    assert_eq!(entries[0].public_key, vec![1u8; 32]);
    assert_eq!(entries[1].name, b"b".to_vec());

    let colliding = vec![handmade_record(b"a", 1), handmade_record(b"b", 1)];
    let refused = KeyStore::from_snapshot(colliding, MemoryStore::new());
    assert!(matches!(refused, Err(KeyStoreError::StoreFailed)));
}

#[test]
fn persist_then_load_is_the_identity() {
    let records = vec![handmade_record(b"left", 3), handmade_record(b"right", 4)];
    let mut store = MemoryStore::new();
    assert!(store.save_snapshot(&records));
    let vault = KeyStore::load(store).unwrap();
    let entries = vault.get_stored_keys();
    assert_eq!(entries.len(), 2);
    assert_eq!(entries[0].name, b"left".to_vec());
    assert_eq!(entries[0].public_key, vec![3u8; 32]);
    assert_eq!(entries[1].name, b"right".to_vec());
    assert_eq!(entries[1].public_key, vec![4u8; 32]);
}
