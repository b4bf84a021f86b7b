use nekoton::crypto::{child_secret, mask_bytes, mix_bytes, public_of, sign_with_secret};
use nekoton::signer::{
    compute_derived_public_key, compute_encrypted_public_key, signer_name, MnemonicType,
    SignerKind,
};

#[test]
fn masking_is_involutive() {
    let data = b"some secret phrase".to_vec();
    let password = b"hunter2".to_vec();
    let masked = mask_bytes(&data, &password);
    assert_eq!(masked.len(), data.len());
    assert_ne!(masked, data);
    let unmasked = mask_bytes(&masked, &password);
    assert_eq!(unmasked, data);
}

#[test]
fn masking_with_another_password_does_not_recover() {
    let data = b"some secret phrase".to_vec();
    let masked = mask_bytes(&data, &b"pw1".to_vec());
    let wrong = mask_bytes(&masked, &b"pw2".to_vec());
    assert_ne!(wrong, data);
}

#[test]
fn mixing_is_deterministic_with_requested_length() {
    let data = b"input".to_vec();
    let a = mix_bytes(2, &data, 32);
    let b = mix_bytes(2, &data, 32);
    assert_eq!(a, b);
    assert_eq!(a.len(), 32);
    // a different seed yields a different stream
    let c = mix_bytes(3, &data, 32);
    assert_ne!(a, c);
    // the first bytes do not depend on how many are requested
    let long = mix_bytes(2, &data, 64);
    assert_eq!(&long[..32], &a[..]);
}

#[test]
fn distinct_accounts_have_distinct_keys() {
    let phrase = b"valley cruel oyster kit repair icon van stage cruise hungry rent tiny"
        .to_vec();
    let pk0 = compute_derived_public_key(&phrase, 0);
    let pk1 = compute_derived_public_key(&phrase, 1);
    assert_eq!(pk0.len(), 32);
    assert_ne!(pk0, pk1);
    // and the derivation only depends on phrase and account index
    assert_eq!(pk0, compute_derived_public_key(&phrase, 0));
}

#[test]
fn encrypted_scheme_keys_differ_by_mnemonic_type() {
    let phrase = b"valley cruel oyster kit repair icon van stage cruise hungry rent tiny"
        .to_vec();
    let labs = compute_encrypted_public_key(&phrase, MnemonicType::Labs { account_id: 0 });
    let legacy = compute_encrypted_public_key(&phrase, MnemonicType::Legacy);
    assert_ne!(labs, legacy);
}

#[test]
fn signatures_bind_secret_and_hash() {
    let phrase = b"a phrase".to_vec();
    let secret = child_secret(&phrase, 0);
    assert_eq!(secret.len(), 32);
    assert_eq!(public_of(&secret).len(), 32);

    let h1 = vec![1u8; 32];
    let h2 = vec![2u8; 32];
    let s1 = sign_with_secret(&secret, &h1);
    assert_eq!(s1.len(), 64);
    assert_eq!(s1, sign_with_secret(&secret, &h1));
    assert_ne!(s1, sign_with_secret(&secret, &h2));
    let other = child_secret(&phrase, 1);
    assert_ne!(s1, sign_with_secret(&other, &h1));
}

#[test]
fn signer_names_match_the_registry_tags() {
    assert_eq!(signer_name(SignerKind::MasterKey), "master_key");
    assert_eq!(signer_name(SignerKind::EncryptedKey), "encrypted_key");
}
