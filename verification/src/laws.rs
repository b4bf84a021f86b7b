//! Vault-wide laws, proved once over the transition functions that the
//! vault's operations refine.

use vstd::prelude::*;

use crate::crypto::{lemma_mask_involutive, spec_credential_tag, spec_mask};
use crate::errors::KeyStoreError;
use crate::keystore::{
    add_encrypted_spec, add_master_derive_spec, add_master_import_spec,
    change_encrypted_password_spec, change_master_password_spec, credential_ok, entries_spec,
    export_encrypted_spec, export_master_spec, find_index, find_kind, lemma_find_index,
    lemma_find_index_is, lemma_find_kind, lemma_find_kind_is, phrase_ct_of, pks_unique,
    rekey_encrypted, rekey_master, remove_key_spec, secret_kind, sign_spec, stored_phrase,
    EntryModel, KeyModel, SecretModel,
};
use crate::signer::{derived_public_key, encrypted_public_key, MnemonicType, SignerKind};

verus! {

/// A record as the schemes create it under `password`: its public key is
/// the one its phrase — recovered by unmasking with that password —
/// derives. The password itself is never stored, so consistency is a
/// relation between a record and the credential that opens it.
pub open spec fn entry_consistent(k: KeyModel, password: Seq<u8>) -> bool {
    match k.secret {
        SecretModel::Derived { account_id, phrase_ct, .. } => k.public_key
            == derived_public_key(spec_mask(phrase_ct, password), account_id),
        SecretModel::Encrypted { phrase_ct, mnemonic_type, .. } => k.public_key
            == encrypted_public_key(spec_mask(phrase_ct, password), mnemonic_type),
    }
}

/// Law: every entry a creation transition adds is consistent under the
/// password it was created with — the secret it stores decrypts, under
/// that password, to the phrase its public key was derived from — and the
/// entry's verifier accepts exactly that password's credential tag.
pub proof fn lemma_add_creates_consistent(
    s: Seq<KeyModel>,
    name: Seq<u8>,
    phrase: Seq<u8>,
    account_id: u16,
    mnemonic_type: MnemonicType,
    password: Seq<u8>,
)
    ensures
        (add_master_import_spec(s, name, phrase, password) matches Ok(p) ==> entry_consistent(
            p.1,
            password,
        ) && credential_ok(p.1.secret, password)),
        (add_master_derive_spec(s, name, account_id, password) matches Ok(p) ==> entry_consistent(
            p.1,
            password,
        ) && credential_ok(p.1.secret, password)),
        (add_encrypted_spec(s, name, phrase, mnemonic_type, password) matches Ok(p)
            ==> entry_consistent(p.1, password) && credential_ok(p.1.secret, password)),
{
    lemma_mask_involutive(phrase, password);
    let mi = find_kind(s, SignerKind::MasterKey);
    if mi >= 0 {
        lemma_find_kind(s, SignerKind::MasterKey);
        let master_phrase = stored_phrase(s[mi].secret, password);
        lemma_mask_involutive(master_phrase, password);
    }
}

/// Law: re-credentialing preserves consistency. A record consistent under
/// the old password is, after either scheme's password change, consistent
/// under the new one — the re-encrypted secret still decrypts, under the
/// new credential, to the phrase its public key was derived from.
pub proof fn lemma_rekey_preserves_consistent(k: KeyModel, old_pw: Seq<u8>, new_pw: Seq<u8>)
    requires
        entry_consistent(k, old_pw),
    ensures
        k.secret is Derived ==> entry_consistent(rekey_master(k, old_pw, new_pw), new_pw)
            && credential_ok(rekey_master(k, old_pw, new_pw).secret, new_pw),
        k.secret is Encrypted ==> entry_consistent(rekey_encrypted(k, old_pw, new_pw), new_pw)
            && credential_ok(rekey_encrypted(k, old_pw, new_pw).secret, new_pw),
{
    lemma_mask_involutive(spec_mask(phrase_ct_of(k.secret), old_pw), new_pw);
}

/// Law: derivation is deterministic. The same phrase always yields the same
/// public key, whatever the state, the name or the password an import runs
/// under; and importing the same phrase into the state the first import
/// produced fails with `KeyAlreadyExists`.
pub proof fn lemma_import_deterministic(
    s1: Seq<KeyModel>,
    name1: Seq<u8>,
    pw1: Seq<u8>,
    s2: Seq<KeyModel>,
    name2: Seq<u8>,
    pw2: Seq<u8>,
    phrase: Seq<u8>,
)
    ensures
        (add_master_import_spec(s1, name1, phrase, pw1) matches Ok(p1) ==> (
        add_master_import_spec(s2, name2, phrase, pw2) matches Ok(p2) ==> p1.1.public_key
            == p2.1.public_key)),
        (add_master_import_spec(s1, name1, phrase, pw1) matches Ok(p)
            ==> add_master_import_spec(p.0, name2, phrase, pw2) == Err::<
            (Seq<KeyModel>, KeyModel),
            KeyStoreError,
        >(KeyStoreError::KeyAlreadyExists)),
{
    let pk = derived_public_key(phrase, 0);
    match add_master_import_spec(s1, name1, phrase, pw1) {
        Ok(p) => {
            lemma_find_index(p.0, pk);
            if find_index(p.0, pk) == -1 {
                assert(p.0[s1.len() as int].public_key == pk);
                assert(false);
            }
        },
        Err(_) => {
        },
    }
}

/// Law: deriving the same account index twice yields the same public key,
/// and the second derivation fails with `KeyAlreadyExists`.
pub proof fn lemma_derive_repeated_collides(
    s: Seq<KeyModel>,
    name1: Seq<u8>,
    name2: Seq<u8>,
    account_id: u16,
    password: Seq<u8>,
)
    ensures
        (add_master_derive_spec(s, name1, account_id, password) matches Ok(p)
            ==> add_master_derive_spec(p.0, name2, account_id, password) == Err::<
            (Seq<KeyModel>, KeyModel),
            KeyStoreError,
        >(KeyStoreError::KeyAlreadyExists)),
{
    match add_master_derive_spec(s, name1, account_id, password) {
        Ok(p) => {
            let mi = find_kind(s, SignerKind::MasterKey);
            lemma_find_kind(s, SignerKind::MasterKey);
            let phrase = stored_phrase(s[mi].secret, password);
            let pk = derived_public_key(phrase, account_id);
            // the master entry keeps its place after the push
            assert(p.0[mi] == s[mi]);
            assert forall|j: int| 0 <= j < mi implies secret_kind(p.0[j].secret)
                != SignerKind::MasterKey by {
                assert(p.0[j] == s[j]);
            }
            lemma_find_kind_is(p.0, SignerKind::MasterKey, mi);
            // the freshly derived key collides
            lemma_find_index(p.0, pk);
            if find_index(p.0, pk) == -1 {
                assert(p.0[s.len() as int].public_key == pk);
                assert(false);
            }
        },
        Err(_) => {
        },
    }
}

/// Law: exported master material round-trips. Exporting the derived scheme
/// under the password its first entry is consistent with yields that
/// entry's phrase; the phrase derives the entry's own public key at the
/// entry's account index; and importing it into an empty vault reproduces
/// the public key whenever the entry sits at account index 0.
pub proof fn lemma_export_reimport_master(
    s: Seq<KeyModel>,
    password: Seq<u8>,
    name2: Seq<u8>,
    pw2: Seq<u8>,
)
    requires
        ({
            let mi = find_kind(s, SignerKind::MasterKey);
            &&& mi >= 0
            &&& entry_consistent(s[mi], password)
            &&& credential_ok(s[mi].secret, password)
        }),
    ensures
        ({
            let mi = find_kind(s, SignerKind::MasterKey);
            let phrase = stored_phrase(s[mi].secret, password);
            &&& export_master_spec(s, password) == Ok::<Seq<u8>, KeyStoreError>(phrase)
            &&& (s[mi].secret matches SecretModel::Derived { account_id, .. }
                ==> derived_public_key(phrase, account_id) == s[mi].public_key)
            &&& (add_master_import_spec(Seq::empty(), name2, phrase, pw2) matches Ok(p) && (
            s[mi].secret matches SecretModel::Derived { account_id, .. } && account_id == 0
                ==> p.1.public_key == s[mi].public_key))
        }),
{
    let mi = find_kind(s, SignerKind::MasterKey);
    lemma_find_kind(s, SignerKind::MasterKey);
}

/// Law: exported encrypted material round-trips. Exporting an encrypted
/// entry under the password it is consistent with yields its phrase and
/// mnemonic type, and importing them into an empty vault reproduces the
/// entry's public key.
pub proof fn lemma_export_reimport_encrypted(
    s: Seq<KeyModel>,
    pk: Seq<u8>,
    password: Seq<u8>,
    name2: Seq<u8>,
    pw2: Seq<u8>,
)
    requires
        ({
            let i = find_index(s, pk);
            &&& i >= 0
            &&& secret_kind(s[i].secret) == SignerKind::EncryptedKey
            &&& entry_consistent(s[i], password)
            &&& credential_ok(s[i].secret, password)
        }),
    ensures
        ({
            let i = find_index(s, pk);
            let phrase = stored_phrase(s[i].secret, password);
            &&& (s[i].secret matches SecretModel::Encrypted { mnemonic_type, .. } ==> {
                &&& export_encrypted_spec(s, pk, password) == Ok::<
                    (Seq<u8>, MnemonicType),
                    KeyStoreError,
                >((phrase, mnemonic_type))
                &&& encrypted_public_key(phrase, mnemonic_type) == s[i].public_key
                &&& (add_encrypted_spec(Seq::empty(), name2, phrase, mnemonic_type, pw2)
                    matches Ok(p) && p.1.public_key == s[i].public_key)
            })
        }),
{
    let i = find_index(s, pk);
    lemma_find_index(s, pk);
}

/// Law: a present key with the wrong credential always answers
/// `WrongCredential` to a signature request — it never signs.
pub proof fn lemma_sign_wrong_credential(
    s: Seq<KeyModel>,
    kind: SignerKind,
    pk: Seq<u8>,
    password: Seq<u8>,
    hash: Seq<u8>,
)
    requires
        ({
            let i = find_index(s, pk);
            &&& i >= 0
            &&& secret_kind(s[i].secret) == kind
            &&& !credential_ok(s[i].secret, password)
        }),
    ensures
        sign_spec(s, kind, pk, password, hash) == Err::<Seq<u8>, KeyStoreError>(
            KeyStoreError::WrongCredential,
        ),
{
    lemma_find_index(s, pk);
}

/// Law: removing a key twice fails the second time with `KeyNotFound`.
pub proof fn lemma_remove_twice(s: Seq<KeyModel>, pk: Seq<u8>)
    requires
        pks_unique(s),
    ensures
        (remove_key_spec(s, pk) matches Ok(s2) ==> remove_key_spec(s2, pk) == Err::<
            Seq<KeyModel>,
            KeyStoreError,
        >(KeyStoreError::KeyNotFound)),
{
    match remove_key_spec(s, pk) {
        Ok(s2) => {
            let i = find_index(s, pk);
            lemma_find_index(s, pk);
            lemma_find_index(s2, pk);
            let r2 = find_index(s2, pk);
            if r2 >= 0 {
                let orig = if r2 < i {
                    r2
                } else {
                    r2 + 1
                };
                assert(s2[r2] == s[orig]);
                assert(s[orig].public_key == s[i].public_key);
                assert(false);
            }
        },
        Err(_) => {
        },
    }
}

/// Law: an emptied vault lists no entries.
pub proof fn lemma_entries_of_empty()
    ensures
        entries_spec(Seq::<KeyModel>::empty()) == Seq::<EntryModel>::empty(),
{
    assert(entries_spec(Seq::<KeyModel>::empty()) =~= Seq::<EntryModel>::empty());
}

/// Law: after an encrypted entry's password changes from `old_pw` to
/// `new_pw`, signing with `old_pw` fails with `WrongCredential` and signing
/// with `new_pw` succeeds. The change transition is one step, and the
/// vault's operation applies it atomically with respect to persistence, so
/// no state exists in which both or neither password works. The law asks
/// that the two passwords' credential tags differ: tags are 32-byte
/// images of passwords of any length, so distinct passwords with one tag
/// exist by counting, and on such a pair the old password still opens the
/// entry.
pub proof fn lemma_change_encrypted_then_sign(
    s: Seq<KeyModel>,
    pk: Seq<u8>,
    old_pw: Seq<u8>,
    new_pw: Seq<u8>,
    hash: Seq<u8>,
)
    requires
        pks_unique(s),
        spec_credential_tag(old_pw) != spec_credential_tag(new_pw),
    ensures
        (change_encrypted_password_spec(s, pk, old_pw, new_pw) matches Ok(s2) ==> {
            &&& sign_spec(s2, SignerKind::EncryptedKey, pk, old_pw, hash) == Err::<
                Seq<u8>,
                KeyStoreError,
            >(KeyStoreError::WrongCredential)
            &&& sign_spec(s2, SignerKind::EncryptedKey, pk, new_pw, hash) is Ok
        }),
{
    match change_encrypted_password_spec(s, pk, old_pw, new_pw) {
        Ok(s2) => {
            let i = find_index(s, pk);
            lemma_find_index(s, pk);
            assert forall|j: int| 0 <= j < i implies s2[j].public_key != pk by {
                assert(s2[j] == s[j]);
            }
            assert(s2[i].public_key == pk);
            lemma_find_index_is(s2, pk, i);
        },
        Err(_) => {
        },
    }
}

/// Law: after the derived scheme's password changes from `old_pw` to
/// `new_pw`, signing with any derived key under `old_pw` fails with
/// `WrongCredential` and signing under `new_pw` succeeds — under the same
/// distinct-tags premise as the encrypted variant.
pub proof fn lemma_change_master_then_sign(
    s: Seq<KeyModel>,
    pk: Seq<u8>,
    old_pw: Seq<u8>,
    new_pw: Seq<u8>,
    hash: Seq<u8>,
)
    requires
        pks_unique(s),
        spec_credential_tag(old_pw) != spec_credential_tag(new_pw),
        ({
            let i = find_index(s, pk);
            i >= 0 && secret_kind(s[i].secret) == SignerKind::MasterKey
        }),
    ensures
        (change_master_password_spec(s, old_pw, new_pw) matches Ok(s2) ==> {
            &&& sign_spec(s2, SignerKind::MasterKey, pk, old_pw, hash) == Err::<
                Seq<u8>,
                KeyStoreError,
            >(KeyStoreError::WrongCredential)
            &&& sign_spec(s2, SignerKind::MasterKey, pk, new_pw, hash) is Ok
        }),
{
    match change_master_password_spec(s, old_pw, new_pw) {
        Ok(s2) => {
            let i = find_index(s, pk);
            lemma_find_index(s, pk);
            assert forall|j: int| 0 <= j < i implies s2[j].public_key != pk by {
                assert(s2[j] == rekey_master(s[j], old_pw, new_pw));
            }
            assert(s2[i] == rekey_master(s[i], old_pw, new_pw));
            lemma_find_index_is(s2, pk, i);
        },
        Err(_) => {
        },
    }
}

} // verus!
