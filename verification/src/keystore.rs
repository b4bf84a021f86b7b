//! The key vault: stored entries, their mathematical model, and the
//! create / sign / export / change-password / remove / list operations.
//!
//! Every operation is specified against a pure transition function over the
//! vault's model, a sequence of `KeyModel` records. Mutating operations
//! first change the in-memory state, then persist the new snapshot through
//! the external store; if persisting fails they roll back, so the vault
//! never reports a state it did not persist.

use vstd::prelude::*;

use crate::crypto::{credential_tag, spec_child_secret, spec_credential_tag, spec_mask, spec_sign};
use crate::errors::KeyStoreError;
use crate::signer::{
    compute_derived_public_key, compute_encrypted_public_key, compute_encrypted_secret,
    derived_public_key, encrypted_public_key, encrypted_secret, MnemonicType, SignerKind,
};

verus! {

// ---------------------------------------------------------------------------
// Stored records and their model
// ---------------------------------------------------------------------------

/// Strategy-private secret material of one stored key, encrypted at rest:
/// the mnemonic phrase masked under the key's password, beside the
/// password's credential tag. Neither field reveals the password itself.
pub enum SecretMaterial {
    /// Owned by the derived scheme.
    Derived { account_id: u16, phrase_ct: Vec<u8>, verifier: Vec<u8> },
    /// Owned by the encrypted scheme.
    Encrypted { phrase_ct: Vec<u8>, verifier: Vec<u8>, mnemonic_type: MnemonicType },
}

/// One persisted vault record: display name, unique public key, and the
/// owning scheme's secret material.
pub struct StoredKey {
    pub name: Vec<u8>,
    pub public_key: Vec<u8>,
    pub secret: SecretMaterial,
}

/// Model of `SecretMaterial`.
pub ghost enum SecretModel {
    Derived { account_id: u16, phrase_ct: Seq<u8>, verifier: Seq<u8> },
    Encrypted { phrase_ct: Seq<u8>, verifier: Seq<u8>, mnemonic_type: MnemonicType },
}

/// Model of one stored record.
pub ghost struct KeyModel {
    pub name: Seq<u8>,
    pub public_key: Seq<u8>,
    pub secret: SecretModel,
}

impl View for SecretMaterial {
    type V = SecretModel;

    open spec fn view(&self) -> SecretModel {
        match self {
            SecretMaterial::Derived { account_id, phrase_ct, verifier } => (SecretModel::Derived {
                account_id: *account_id,
                phrase_ct: phrase_ct@,
                verifier: verifier@,
            }),
            SecretMaterial::Encrypted { phrase_ct, verifier, mnemonic_type } => (
            SecretModel::Encrypted {
                phrase_ct: phrase_ct@,
                verifier: verifier@,
                mnemonic_type: *mnemonic_type,
            }),
        }
    }
}

impl View for StoredKey {
    type V = KeyModel;

    open spec fn view(&self) -> KeyModel {
        KeyModel { name: self.name@, public_key: self.public_key@, secret: self.secret@ }
    }
}

/// The model of a whole snapshot.
pub open spec fn models(keys: Seq<StoredKey>) -> Seq<KeyModel> {
    Seq::new(keys.len(), |i: int| keys[i]@)
}

/// Which scheme owns a secret.
pub open spec fn secret_kind(s: SecretModel) -> SignerKind {
    match s {
        SecretModel::Derived { .. } => SignerKind::MasterKey,
        SecretModel::Encrypted { .. } => SignerKind::EncryptedKey,
    }
}

/// The stored credential verifier of a secret.
pub open spec fn verifier_of(s: SecretModel) -> Seq<u8> {
    match s {
        SecretModel::Derived { verifier, .. } => verifier,
        SecretModel::Encrypted { verifier, .. } => verifier,
    }
}

/// The masked phrase of a secret.
pub open spec fn phrase_ct_of(s: SecretModel) -> Seq<u8> {
    match s {
        SecretModel::Derived { phrase_ct, .. } => phrase_ct,
        SecretModel::Encrypted { phrase_ct, .. } => phrase_ct,
    }
}

/// Whether the owning scheme accepts the supplied password for this
/// secret: the stored verifier must be the password's credential tag. No
/// snapshot ever holds a password itself.
pub open spec fn credential_ok(s: SecretModel, password: Seq<u8>) -> bool {
    verifier_of(s) == spec_credential_tag(password)
}

/// The phrase a secret yields under a password.
pub open spec fn stored_phrase(s: SecretModel, password: Seq<u8>) -> Seq<u8> {
    spec_mask(phrase_ct_of(s), password)
}

/// The signing secret a stored record yields under a password.
pub open spec fn signing_secret(s: SecretModel, password: Seq<u8>) -> Seq<u8> {
    match s {
        SecretModel::Derived { account_id, .. } => spec_child_secret(
            stored_phrase(s, password),
            account_id,
        ),
        SecretModel::Encrypted { mnemonic_type, .. } => encrypted_secret(
            stored_phrase(s, password),
            mnemonic_type,
        ),
    }
}

// ---------------------------------------------------------------------------
// Public metadata
// ---------------------------------------------------------------------------

/// Public metadata of one entry: everything a caller may see. Secret
/// material never leaves the owning scheme through this type.
#[derive(Debug)]
pub struct KeyStoreEntry {
    pub name: Vec<u8>,
    pub public_key: Vec<u8>,
    pub signer_kind: SignerKind,
}

/// Model of `KeyStoreEntry`.
pub ghost struct EntryModel {
    pub name: Seq<u8>,
    pub public_key: Seq<u8>,
    pub signer_kind: SignerKind,
}

impl View for KeyStoreEntry {
    type V = EntryModel;

    open spec fn view(&self) -> EntryModel {
        EntryModel {
            name: self.name@,
            public_key: self.public_key@,
            signer_kind: self.signer_kind,
        }
    }
}

impl KeyStoreEntry {
    /// The display form of the public key: its lowercase hex digits.
    pub fn public_key_hex(&self) -> (r: String)
        ensures
            r@ == crate::hexfmt::spec_hex(self.public_key@),
    {
        crate::hexfmt::hex_encode(&self.public_key)
    }
}

/// The public metadata of a stored record.
pub open spec fn meta_of(k: KeyModel) -> EntryModel {
    EntryModel { name: k.name, public_key: k.public_key, signer_kind: secret_kind(k.secret) }
}

/// The metadata of a whole vault state, in insertion order.
pub open spec fn entries_spec(s: Seq<KeyModel>) -> Seq<EntryModel> {
    Seq::new(s.len(), |i: int| meta_of(s[i]))
}

// ---------------------------------------------------------------------------
// Operation inputs
// ---------------------------------------------------------------------------

/// Parameters of a derived-scheme creation.
pub enum MasterKeyParams {
    /// Import a master phrase; the entry is created at account index 0.
    Import { phrase: Vec<u8> },
    /// Derive one more child key from the already imported master phrase.
    Derive { account_id: u16 },
}

/// Input of `add_key`.
pub enum NewKey {
    MasterKey { params: MasterKeyParams, password: Vec<u8> },
    EncryptedKey { phrase: Vec<u8>, mnemonic_type: MnemonicType, password: Vec<u8> },
}

/// Input of `change_key_password`.
pub enum ChangeKeyPassword {
    /// Re-credential every derived-scheme entry at once.
    MasterKey { old_password: Vec<u8>, new_password: Vec<u8> },
    /// Re-credential one encrypted-scheme entry.
    EncryptedKey { public_key: Vec<u8>, old_password: Vec<u8>, new_password: Vec<u8> },
}

/// Input of `export_key`.
pub enum ExportKey {
    MasterKey { password: Vec<u8> },
    EncryptedKey { public_key: Vec<u8>, password: Vec<u8> },
}

/// Output of `export_key`: recoverable secret material.
#[derive(Debug)]
pub enum ExportedKey {
    MasterKey { phrase: Vec<u8> },
    EncryptedKey { phrase: Vec<u8>, mnemonic_type: MnemonicType },
}

/// Credential of `sign`.
pub enum KeyPassword {
    MasterKey { public_key: Vec<u8>, password: Vec<u8> },
    EncryptedKey { public_key: Vec<u8>, password: Vec<u8> },
}

// ---------------------------------------------------------------------------
// Lookup
// ---------------------------------------------------------------------------

/// Index of the first record with this public key, or -1.
pub open spec fn find_index(s: Seq<KeyModel>, pk: Seq<u8>) -> int
    decreases s.len(),
{
    if s.len() == 0 {
        -1
    } else if s[0].public_key == pk {
        0
    } else {
        let r = find_index(s.skip(1), pk);
        if r == -1 {
            -1
        } else {
            r + 1
        }
    }
}

/// Index of the first record owned by this scheme, or -1.
pub open spec fn find_kind(s: Seq<KeyModel>, kind: SignerKind) -> int
    decreases s.len(),
{
    if s.len() == 0 {
        -1
    } else if secret_kind(s[0].secret) == kind {
        0
    } else {
        let r = find_kind(s.skip(1), kind);
        if r == -1 {
            -1
        } else {
            r + 1
        }
    }
}

/// What `find_index` returns: the first hit, or -1 when there is none.
pub proof fn lemma_find_index(s: Seq<KeyModel>, pk: Seq<u8>)
    ensures
        -1 <= find_index(s, pk) < s.len(),
        find_index(s, pk) >= 0 ==> s[find_index(s, pk)].public_key == pk,
        find_index(s, pk) >= 0 ==> forall|j: int|
            0 <= j < find_index(s, pk) ==> s[j].public_key != pk,
        find_index(s, pk) == -1 ==> forall|j: int|
            0 <= j < s.len() ==> s[j].public_key != pk,
    decreases s.len(),
{
    if s.len() > 0 && s[0].public_key != pk {
        lemma_find_index(s.skip(1), pk);
        let r = find_index(s, pk);
        if r >= 0 {
            assert forall|j: int| 0 <= j < r implies s[j].public_key != pk by {
                if j > 0 {
                    assert(s.skip(1)[j - 1] == s[j]);
                }
            }
        } else {
            assert forall|j: int| 0 <= j < s.len() implies s[j].public_key != pk by {
                if j > 0 {
                    assert(s.skip(1)[j - 1] == s[j]);
                }
            }
        }
    }
}

/// A first hit determines `find_index`.
pub proof fn lemma_find_index_is(s: Seq<KeyModel>, pk: Seq<u8>, i: int)
    requires
        0 <= i < s.len(),
        s[i].public_key == pk,
        forall|j: int| 0 <= j < i ==> s[j].public_key != pk,
    ensures
        find_index(s, pk) == i,
    decreases i,
{
    if i > 0 {
        assert(s[0].public_key != pk);
        assert forall|j: int| 0 <= j < i - 1 implies s.skip(1)[j].public_key != pk by {
            assert(s.skip(1)[j] == s[j + 1]);
        }
        assert(s.skip(1)[i - 1] == s[i]);
        lemma_find_index_is(s.skip(1), pk, i - 1);
    }
}

/// What `find_kind` returns: the first hit, or -1 when there is none.
pub proof fn lemma_find_kind(s: Seq<KeyModel>, kind: SignerKind)
    ensures
        -1 <= find_kind(s, kind) < s.len(),
        find_kind(s, kind) >= 0 ==> secret_kind(s[find_kind(s, kind)].secret) == kind,
        find_kind(s, kind) >= 0 ==> forall|j: int|
            0 <= j < find_kind(s, kind) ==> secret_kind(s[j].secret) != kind,
        find_kind(s, kind) == -1 ==> forall|j: int|
            0 <= j < s.len() ==> secret_kind(s[j].secret) != kind,
    decreases s.len(),
{
    if s.len() > 0 && secret_kind(s[0].secret) != kind {
        lemma_find_kind(s.skip(1), kind);
        let r = find_kind(s, kind);
        if r >= 0 {
            assert forall|j: int| 0 <= j < r implies secret_kind(s[j].secret) != kind by {
                if j > 0 {
                    assert(s.skip(1)[j - 1] == s[j]);
                }
            }
        } else {
            assert forall|j: int| 0 <= j < s.len() implies secret_kind(s[j].secret) != kind by {
                if j > 0 {
                    assert(s.skip(1)[j - 1] == s[j]);
                }
            }
        }
    }
}

/// A first hit determines `find_kind`.
pub proof fn lemma_find_kind_is(s: Seq<KeyModel>, kind: SignerKind, i: int)
    requires
        0 <= i < s.len(),
        secret_kind(s[i].secret) == kind,
        forall|j: int| 0 <= j < i ==> secret_kind(s[j].secret) != kind,
    ensures
        find_kind(s, kind) == i,
    decreases i,
{
    if i > 0 {
        assert(secret_kind(s[0].secret) != kind);
        assert forall|j: int| 0 <= j < i - 1 implies secret_kind(s.skip(1)[j].secret) != kind by {
            assert(s.skip(1)[j] == s[j + 1]);
        }
        assert(s.skip(1)[i - 1] == s[i]);
        lemma_find_kind_is(s.skip(1), kind, i - 1);
    }
}

// ---------------------------------------------------------------------------
// Well-formedness
// ---------------------------------------------------------------------------

/// The vault's invariant: the public key is the primary key.
pub open spec fn pks_unique(s: Seq<KeyModel>) -> bool {
    forall|i: int, j: int|
        0 <= i < j < s.len() ==> s[i].public_key != s[j].public_key
}

// ---------------------------------------------------------------------------
// Transition functions: what each operation does to the model
// ---------------------------------------------------------------------------

/// Importing a master phrase: the derived scheme creates the child at
/// account index 0; a colliding public key is rejected.
pub open spec fn add_master_import_spec(
    s: Seq<KeyModel>,
    name: Seq<u8>,
    phrase: Seq<u8>,
    password: Seq<u8>,
) -> Result<(Seq<KeyModel>, KeyModel), KeyStoreError> {
    let pk = derived_public_key(phrase, 0);
    if find_index(s, pk) >= 0 {
        Err(KeyStoreError::KeyAlreadyExists)
    } else {
        let k = KeyModel {
            name: name,
            public_key: pk,
            secret: SecretModel::Derived {
                account_id: 0,
                phrase_ct: spec_mask(phrase, password),
                verifier: spec_credential_tag(password),
            },
        };
        Ok((s.push(k), k))
    }
}

/// Deriving one more child key: the earliest derived-scheme entry acts as
/// the master; its password gates the derivation.
pub open spec fn add_master_derive_spec(
    s: Seq<KeyModel>,
    name: Seq<u8>,
    account_id: u16,
    password: Seq<u8>,
) -> Result<(Seq<KeyModel>, KeyModel), KeyStoreError> {
    let mi = find_kind(s, SignerKind::MasterKey);
    if mi < 0 {
        Err(KeyStoreError::KeyNotFound)
    } else if !credential_ok(s[mi].secret, password) {
        Err(KeyStoreError::WrongCredential)
    } else {
        let phrase = stored_phrase(s[mi].secret, password);
        let pk = derived_public_key(phrase, account_id);
        if find_index(s, pk) >= 0 {
            Err(KeyStoreError::KeyAlreadyExists)
        } else {
            let k = KeyModel {
                name: name,
                public_key: pk,
                secret: SecretModel::Derived {
                    account_id: account_id,
                    phrase_ct: spec_mask(phrase, password),
                    verifier: spec_credential_tag(password),
                },
            };
            Ok((s.push(k), k))
        }
    }
}

/// Importing an encrypted-scheme phrase.
pub open spec fn add_encrypted_spec(
    s: Seq<KeyModel>,
    name: Seq<u8>,
    phrase: Seq<u8>,
    mnemonic_type: MnemonicType,
    password: Seq<u8>,
) -> Result<(Seq<KeyModel>, KeyModel), KeyStoreError> {
    let pk = encrypted_public_key(phrase, mnemonic_type);
    if find_index(s, pk) >= 0 {
        Err(KeyStoreError::KeyAlreadyExists)
    } else {
        let k = KeyModel {
            name: name,
            public_key: pk,
            secret: SecretModel::Encrypted {
                phrase_ct: spec_mask(phrase, password),
                verifier: spec_credential_tag(password),
                mnemonic_type: mnemonic_type,
            },
        };
        Ok((s.push(k), k))
    }
}

/// Signing: look the key up by public key under the scheme the credential
/// names, gate on the password, and sign the exact hash supplied. Signing
/// never mutates the vault.
pub open spec fn sign_spec(
    s: Seq<KeyModel>,
    kind: SignerKind,
    pk: Seq<u8>,
    password: Seq<u8>,
    hash: Seq<u8>,
) -> Result<Seq<u8>, KeyStoreError> {
    let i = find_index(s, pk);
    if i < 0 || secret_kind(s[i].secret) != kind {
        Err(KeyStoreError::KeyNotFound)
    } else if !credential_ok(s[i].secret, password) {
        Err(KeyStoreError::WrongCredential)
    } else {
        Ok(spec_sign(signing_secret(s[i].secret, password), hash))
    }
}

/// Exporting the master phrase of the derived scheme.
pub open spec fn export_master_spec(s: Seq<KeyModel>, password: Seq<u8>) -> Result<
    Seq<u8>,
    KeyStoreError,
> {
    let mi = find_kind(s, SignerKind::MasterKey);
    if mi < 0 {
        Err(KeyStoreError::KeyNotFound)
    } else if !credential_ok(s[mi].secret, password) {
        Err(KeyStoreError::WrongCredential)
    } else {
        Ok(stored_phrase(s[mi].secret, password))
    }
}

/// Exporting one encrypted-scheme phrase.
pub open spec fn export_encrypted_spec(
    s: Seq<KeyModel>,
    pk: Seq<u8>,
    password: Seq<u8>,
) -> Result<(Seq<u8>, MnemonicType), KeyStoreError> {
    let i = find_index(s, pk);
    if i < 0 || secret_kind(s[i].secret) != SignerKind::EncryptedKey {
        Err(KeyStoreError::KeyNotFound)
    } else if !credential_ok(s[i].secret, password) {
        Err(KeyStoreError::WrongCredential)
    } else {
        match s[i].secret {
            SecretModel::Encrypted { mnemonic_type, .. } => Ok(
                (stored_phrase(s[i].secret, password), mnemonic_type),
            ),
            SecretModel::Derived { .. } => Err(KeyStoreError::KeyNotFound),
        }
    }
}

/// Whether any derived-scheme entry exists.
pub open spec fn has_master(s: Seq<KeyModel>) -> bool {
    exists|i: int| 0 <= i < s.len() && secret_kind(s[i].secret) == SignerKind::MasterKey
}

/// Whether every derived-scheme entry accepts this password.
pub open spec fn masters_match(s: Seq<KeyModel>, password: Seq<u8>) -> bool {
    forall|i: int|
        0 <= i < s.len() && secret_kind(#[trigger] s[i].secret) == SignerKind::MasterKey
            ==> credential_ok(s[i].secret, password)
}

/// One record re-credentialed from `old_pw` to `new_pw` if the derived
/// scheme owns it, untouched otherwise.
pub open spec fn rekey_master(k: KeyModel, old_pw: Seq<u8>, new_pw: Seq<u8>) -> KeyModel {
    match k.secret {
        SecretModel::Derived { account_id, phrase_ct, .. } => KeyModel {
            name: k.name,
            public_key: k.public_key,
            secret: SecretModel::Derived {
                account_id: account_id,
                phrase_ct: spec_mask(spec_mask(phrase_ct, old_pw), new_pw),
                verifier: spec_credential_tag(new_pw),
            },
        },
        SecretModel::Encrypted { .. } => k,
    }
}

/// Re-credentialing the derived scheme: all of its entries at once, only if
/// the old password opens every one of them.
pub open spec fn change_master_password_spec(
    s: Seq<KeyModel>,
    old_pw: Seq<u8>,
    new_pw: Seq<u8>,
) -> Result<Seq<KeyModel>, KeyStoreError> {
    if !has_master(s) {
        Err(KeyStoreError::KeyNotFound)
    } else if !masters_match(s, old_pw) {
        Err(KeyStoreError::WrongCredential)
    } else {
        Ok(Seq::new(s.len(), |i: int| rekey_master(s[i], old_pw, new_pw)))
    }
}

/// One encrypted-scheme record re-credentialed.
pub open spec fn rekey_encrypted(k: KeyModel, old_pw: Seq<u8>, new_pw: Seq<u8>) -> KeyModel {
    match k.secret {
        SecretModel::Encrypted { phrase_ct, mnemonic_type, .. } => KeyModel {
            name: k.name,
            public_key: k.public_key,
            secret: SecretModel::Encrypted {
                phrase_ct: spec_mask(spec_mask(phrase_ct, old_pw), new_pw),
                verifier: spec_credential_tag(new_pw),
                mnemonic_type: mnemonic_type,
            },
        },
        SecretModel::Derived { .. } => k,
    }
}

/// Re-credentialing one encrypted-scheme entry.
pub open spec fn change_encrypted_password_spec(
    s: Seq<KeyModel>,
    pk: Seq<u8>,
    old_pw: Seq<u8>,
    new_pw: Seq<u8>,
) -> Result<Seq<KeyModel>, KeyStoreError> {
    let i = find_index(s, pk);
    if i < 0 || secret_kind(s[i].secret) != SignerKind::EncryptedKey {
        Err(KeyStoreError::KeyNotFound)
    } else if !credential_ok(s[i].secret, old_pw) {
        Err(KeyStoreError::WrongCredential)
    } else {
        Ok(s.update(i, rekey_encrypted(s[i], old_pw, new_pw)))
    }
}

/// Removing one entry by public key. Removing an absent key is an error,
/// not a no-op.
pub open spec fn remove_key_spec(s: Seq<KeyModel>, pk: Seq<u8>) -> Result<
    Seq<KeyModel>,
    KeyStoreError,
> {
    let i = find_index(s, pk);
    if i < 0 {
        Err(KeyStoreError::KeyNotFound)
    } else {
        Ok(s.remove(i))
    }
}

// ---------------------------------------------------------------------------
// Refinement shapes
// ---------------------------------------------------------------------------

/// How an entry-returning mutation refines its transition `t`: on success
/// the vault holds exactly the successor state and hands out the new
/// entry's metadata; on failure the state is untouched, and the error is
/// the transition's own unless persisting failed.
pub open spec fn add_refines(
    r: Result<KeyStoreEntry, KeyStoreError>,
    pre: Seq<KeyModel>,
    post: Seq<KeyModel>,
    t: Result<(Seq<KeyModel>, KeyModel), KeyStoreError>,
) -> bool {
    match r {
        Ok(entry) => t matches Ok(p) && post == p.0 && entry@ == meta_of(p.1),
        Err(e) => post == pre && (t matches Ok(_) ==> e == KeyStoreError::StoreFailed) && (
        t matches Err(e0) ==> e == e0),
    }
}

/// How a unit mutation refines its transition `t`.
pub open spec fn mutation_refines(
    r: Result<(), KeyStoreError>,
    pre: Seq<KeyModel>,
    post: Seq<KeyModel>,
    t: Result<Seq<KeyModel>, KeyStoreError>,
) -> bool {
    match r {
        Ok(u) => t matches Ok(s2) && post == s2,
        Err(e) => post == pre && (t matches Ok(_) ==> e == KeyStoreError::StoreFailed) && (
        t matches Err(e0) ==> e == e0),
    }
}

// ---------------------------------------------------------------------------
// Byte helpers
// ---------------------------------------------------------------------------

/// Compares two byte strings. Equal-length inputs are scanned to the end
/// whatever their content, so the comparison's running time reveals only
/// the length; credential verifiers are fixed-length tags, so comparing
/// them takes constant time.
pub fn bytes_eq(a: &Vec<u8>, b: &Vec<u8>) -> (r: bool)
    ensures
        r == (a@ == b@),
{
    if a.len() != b.len() {
        proof {
            assert(a@ != b@);
        }
        return false;
    }
    let mut diff: u8 = 0;
    let mut i: usize = 0;
    while i < a.len()
        invariant
            i <= a.len(),
            a.len() == b.len(),
            (diff == 0) <==> (forall|j: int| 0 <= j < i ==> a@[j] == b@[j]),
        decreases a.len() - i,
    {
        let x = a[i];
        let y = b[i];
        proof {
            assert((diff | (x ^ y)) == 0 <==> diff == 0 && x == y) by (bit_vector);
        }
        diff = diff | (x ^ y);
        i = i + 1;
    }
    if diff == 0 {
        proof {
            assert(a@ =~= b@);
        }
        true
    } else {
        proof {
            assert(a@ != b@);
        }
        false
    }
}

/// Copies a byte string.
pub fn copy_bytes(a: &Vec<u8>) -> (r: Vec<u8>)
    ensures
        r@ == a@,
{
    let mut out: Vec<u8> = Vec::new();
    let mut i: usize = 0;
    while i < a.len()
        invariant
            i <= a.len(),
            out@ == a@.take(i as int),
        decreases a.len() - i,
    {
        out.push(a[i]);
        proof {
            assert(a@.take(i + 1) =~= a@.take(i as int).push(a@[i as int]));
        }
        i = i + 1;
    }
    proof {
        assert(a@.take(a@.len() as int) =~= a@);
    }
    out
}

/// Copies one record's secret material.
fn copy_secret(s: &SecretMaterial) -> (r: SecretMaterial)
    ensures
        r@ == s@,
{
    match s {
        SecretMaterial::Derived { account_id, phrase_ct, verifier } => SecretMaterial::Derived {
            account_id: *account_id,
            phrase_ct: copy_bytes(phrase_ct),
            verifier: copy_bytes(verifier),
        },
        SecretMaterial::Encrypted { phrase_ct, verifier, mnemonic_type } => (
        SecretMaterial::Encrypted {
            phrase_ct: copy_bytes(phrase_ct),
            verifier: copy_bytes(verifier),
            mnemonic_type: *mnemonic_type,
        }),
    }
}

/// Copies one stored record.
fn copy_stored_key(k: &StoredKey) -> (r: StoredKey)
    ensures
        r@ == k@,
{
    StoredKey {
        name: copy_bytes(&k.name),
        public_key: copy_bytes(&k.public_key),
        secret: copy_secret(&k.secret),
    }
}

/// Which scheme owns a stored record.
fn kind_of_stored(k: &StoredKey) -> (r: SignerKind)
    ensures
        r == secret_kind(k@.secret),
{
    match &k.secret {
        SecretMaterial::Derived { .. } => SignerKind::MasterKey,
        SecretMaterial::Encrypted { .. } => SignerKind::EncryptedKey,
    }
}

// ---------------------------------------------------------------------------
// Lookup helpers
// ---------------------------------------------------------------------------

/// Finds the first record with this public key.
fn find_by_pk(keys: &Vec<StoredKey>, pk: &Vec<u8>) -> (r: Option<usize>)
    ensures
        match r {
            Some(i) => i < keys.len() && find_index(models(keys@), pk@) == i as int && models(
                keys@,
            )[i as int].public_key == pk@,
            None => find_index(models(keys@), pk@) == -1 && forall|j: int|
                0 <= j < keys.len() ==> models(keys@)[j].public_key != pk@,
        },
{
    let ghost s = models(keys@);
    let mut i: usize = 0;
    while i < keys.len()
        invariant
            i <= keys.len(),
            s == models(keys@),
            forall|j: int| 0 <= j < i ==> s[j].public_key != pk@,
        decreases keys.len() - i,
    {
        if bytes_eq(&keys[i].public_key, pk) {
            proof {
                assert(s[i as int] == keys@[i as int]@);
                lemma_find_index_is(s, pk@, i as int);
            }
            return Some(i);
        }
        proof {
            assert(s[i as int] == keys@[i as int]@);
        }
        i = i + 1;
    }
    proof {
        lemma_find_index(s, pk@);
    }
    None
}

/// Finds the first record owned by this scheme.
fn find_by_kind(keys: &Vec<StoredKey>, kind: SignerKind) -> (r: Option<usize>)
    ensures
        match r {
            Some(i) => i < keys.len() && find_kind(models(keys@), kind) == i as int && secret_kind(
                models(keys@)[i as int].secret,
            ) == kind,
            None => find_kind(models(keys@), kind) == -1 && forall|j: int|
                0 <= j < keys.len() ==> secret_kind(models(keys@)[j].secret) != kind,
        },
{
    let ghost s = models(keys@);
    let mut i: usize = 0;
    while i < keys.len()
        invariant
            i <= keys.len(),
            s == models(keys@),
            forall|j: int| 0 <= j < i ==> secret_kind(s[j].secret) != kind,
        decreases keys.len() - i,
    {
        if kind_of_stored(&keys[i]) == kind {
            proof {
                assert(s[i as int] == keys@[i as int]@);
                lemma_find_kind_is(s, kind, i as int);
            }
            return Some(i);
        }
        proof {
            assert(s[i as int] == keys@[i as int]@);
        }
        i = i + 1;
    }
    proof {
        lemma_find_kind(s, kind);
    }
    None
}

// ---------------------------------------------------------------------------
// The external store
// ---------------------------------------------------------------------------

/// The external persistent store the vault writes its snapshot through.
/// Both calls may fail; the vault surfaces such a failure as `StoreFailed`
/// after rolling its in-memory state back.
pub trait VaultStore {
    /// Reads the persisted snapshot; an empty vault is an empty snapshot.
    fn load_snapshot(&mut self) -> (r: Result<Vec<StoredKey>, ()>);

    /// Persists a snapshot.
    fn save_snapshot(&mut self, snapshot: &Vec<StoredKey>) -> (r: bool);
}

/// Copies a whole snapshot, record for record.
fn copy_snapshot(src: &Vec<StoredKey>) -> (out: Vec<StoredKey>)
    ensures
        models(out@) == models(src@),
{
    let mut out: Vec<StoredKey> = Vec::new();
    let mut i: usize = 0;
    while i < src.len()
        invariant
            i <= src.len(),
            out.len() == i,
            forall|j: int| 0 <= j < i ==> (#[trigger] out@[j])@ == src@[j]@,
        decreases src.len() - i,
    {
        out.push(copy_stored_key(&src[i]));
        i = i + 1;
    }
    proof {
        assert(models(out@) =~= models(src@));
    }
    out
}

/// An in-memory store that always succeeds. Its view is the model of the
/// snapshot it holds, so persist-then-load is provably the identity.
pub struct MemoryStore {
    snapshot: Vec<StoredKey>,
}

impl View for MemoryStore {
    type V = Seq<KeyModel>;

    closed spec fn view(&self) -> Seq<KeyModel> {
        models(self.snapshot@)
    }
}

impl MemoryStore {
    /// An empty in-memory store.
    pub fn new() -> (r: MemoryStore)
        ensures
            r@ == Seq::<KeyModel>::empty(),
    {
        let r = MemoryStore { snapshot: Vec::new() };
        proof {
            assert(r@ =~= Seq::<KeyModel>::empty());
        }
        r
    }

    /// An in-memory store seeded with a snapshot.
    pub fn with_snapshot(snapshot: Vec<StoredKey>) -> (r: MemoryStore)
        ensures
            r@ == models(snapshot@),
    {
        MemoryStore { snapshot }
    }
}

impl VaultStore for MemoryStore {
    fn load_snapshot(&mut self) -> (r: Result<Vec<StoredKey>, ()>)
        ensures
            final(self)@ == old(self)@,
            r matches Ok(k) ==> models(k@) == old(self)@,
            r is Ok,
    {
        Ok(copy_snapshot(&self.snapshot))
    }

    fn save_snapshot(&mut self, snapshot: &Vec<StoredKey>) -> (r: bool)
        ensures
            r == true,
            final(self)@ == models(snapshot@),
    {
        self.snapshot = copy_snapshot(snapshot);
        true
    }
}

/// A store whose writes always fail; it keeps nothing.
pub struct RejectingStore {}

impl RejectingStore {
    /// A store that rejects every write.
    pub fn new() -> (r: RejectingStore) {
        RejectingStore {  }
    }
}

impl VaultStore for RejectingStore {
    fn load_snapshot(&mut self) -> (r: Result<Vec<StoredKey>, ()>)
        ensures
            r matches Ok(k) ==> k@.len() == 0,
    {
        Ok(Vec::new())
    }

    fn save_snapshot(&mut self, snapshot: &Vec<StoredKey>) -> (r: bool)
        ensures
            r == false,
    {
        false
    }
}

// ---------------------------------------------------------------------------
// Invariant preservation
// ---------------------------------------------------------------------------

/// Appending a fresh public key keeps the keys unique.
pub proof fn lemma_push_unique(s: Seq<KeyModel>, k: KeyModel)
    requires
        pks_unique(s),
        find_index(s, k.public_key) == -1,
    ensures
        pks_unique(s.push(k)),
{
    lemma_find_index(s, k.public_key);
    assert forall|i: int, j: int| 0 <= i < j < s.push(k).len() implies s.push(k)[i].public_key
        != s.push(k)[j].public_key by {
        if j == s.len() {
            assert(s.push(k)[i] == s[i]);
            assert(s.push(k)[j] == k);
        } else {
            assert(s.push(k)[i] == s[i]);
            assert(s.push(k)[j] == s[j]);
        }
    }
}

/// A state with the same public key at every index keeps the keys unique.
pub proof fn lemma_pointwise_unique(s: Seq<KeyModel>, s2: Seq<KeyModel>)
    requires
        pks_unique(s),
        s2.len() == s.len(),
        forall|i: int| 0 <= i < s.len() ==> #[trigger] s2[i].public_key == s[i].public_key,
    ensures
        pks_unique(s2),
{
}

/// Removing an entry keeps the keys unique.
pub proof fn lemma_remove_unique(s: Seq<KeyModel>, i: int)
    requires
        pks_unique(s),
        0 <= i < s.len(),
    ensures
        pks_unique(s.remove(i)),
{
    assert forall|a: int, b: int| 0 <= a < b < s.remove(i).len() implies s.remove(i)[a].public_key
        != s.remove(i)[b].public_key by {
        let a0 = if a < i { a } else { a + 1 };
        let b0 = if b < i { b } else { b + 1 };
        assert(s.remove(i)[a] == s[a0]);
        assert(s.remove(i)[b] == s[b0]);
    }
}

// ---------------------------------------------------------------------------
// The vault
// ---------------------------------------------------------------------------

/// The key vault: the owned set of stored records and the external store
/// its snapshot is persisted through. Mutating operations take `&mut self`,
/// so they are mutually exclusive on one vault; read-only operations take
/// `&self` and read a consistent state.
pub struct KeyStore<S: VaultStore> {
    keys: Vec<StoredKey>,
    store: S,
}

impl<S: VaultStore> View for KeyStore<S> {
    type V = Seq<KeyModel>;

    closed spec fn view(&self) -> Seq<KeyModel> {
        models(self.keys@)
    }
}

/// How a signature request refines its transition `t`.
pub open spec fn sign_refines(
    r: Result<Vec<u8>, KeyStoreError>,
    t: Result<Seq<u8>, KeyStoreError>,
) -> bool {
    match r {
        Ok(sig) => t matches Ok(ts) && sig@ == ts,
        Err(e) => t == Err::<Seq<u8>, KeyStoreError>(e),
    }
}

/// How a master export refines its transition `t`.
pub open spec fn export_master_refines(
    r: Result<ExportedKey, KeyStoreError>,
    t: Result<Seq<u8>, KeyStoreError>,
) -> bool {
    match r {
        Ok(out) => t matches Ok(ph) && out matches ExportedKey::MasterKey { phrase }
            && phrase@ == ph,
        Err(e) => t == Err::<Seq<u8>, KeyStoreError>(e),
    }
}

/// How an encrypted export refines its transition `t`.
pub open spec fn export_encrypted_refines(
    r: Result<ExportedKey, KeyStoreError>,
    t: Result<(Seq<u8>, MnemonicType), KeyStoreError>,
) -> bool {
    match r {
        Ok(out) => t matches Ok(p) && out matches ExportedKey::EncryptedKey {
            phrase,
            mnemonic_type,
        } && phrase@ == p.0 && mnemonic_type == p.1,
        Err(e) => t == Err::<(Seq<u8>, MnemonicType), KeyStoreError>(e),
    }
}

/// The views of a list of public entries.
pub open spec fn entry_views(es: Seq<KeyStoreEntry>) -> Seq<EntryModel> {
    Seq::new(es.len(), |i: int| es[i]@)
}

/// Decides whether a snapshot keeps the vault's invariant: no two records
/// may share a public key. The vault runs every loaded snapshot — whatever
/// the external store handed back — through this check before adopting it.
pub fn snapshot_well_formed(keys: &Vec<StoredKey>) -> (r: bool)
    ensures
        r == pks_unique(models(keys@)),
{
    let ghost s = models(keys@);
    let mut i: usize = 0;
    while i < keys.len()
        invariant
            i <= keys.len(),
            s == models(keys@),
            forall|a: int, b: int| 0 <= a < b < keys.len() && a < i ==> s[a].public_key
                != s[b].public_key,
        decreases keys.len() - i,
    {
        let mut j: usize = i + 1;
        while j < keys.len()
            invariant
                i < j <= keys.len(),
                s == models(keys@),
                forall|b: int| i < b < j ==> s[i as int].public_key != s[b].public_key,
            decreases keys.len() - j,
        {
            if bytes_eq(&keys[i].public_key, &keys[j].public_key) {
                proof {
                    assert(s[i as int] == keys@[i as int]@);
                    assert(s[j as int] == keys@[j as int]@);
                    assert(!pks_unique(s));
                }
                return false;
            }
            j = j + 1;
        }
        i = i + 1;
    }
    true
}

impl<S: VaultStore> KeyStore<S> {
    /// The vault's invariant: public keys are unique.
    pub open spec fn wf(&self) -> bool {
        pks_unique(self@)
    }

    /// Builds a vault over `store` from a snapshot read out of it. The
    /// vault adopts exactly the given records — same entries, same
    /// insertion order — if and only if no two of them collide on a public
    /// key; a colliding snapshot is corrupt, and the persistence layer's
    /// error is surfaced instead of a partially loaded vault.
    pub fn from_snapshot(keys: Vec<StoredKey>, store: S) -> (r: Result<KeyStore<S>, KeyStoreError>)
        ensures
            r matches Ok(ks) ==> ks@ == models(keys@) && ks.wf(),
            r is Ok <==> pks_unique(models(keys@)),
            r matches Err(e) ==> e == KeyStoreError::StoreFailed,
    {
        if !snapshot_well_formed(&keys) {
            return Err(KeyStoreError::StoreFailed);
        }
        Ok(KeyStore { keys, store })
    }

    /// Reconstructs the vault from the store's persisted snapshot, exactly
    /// as `from_snapshot` says: whatever snapshot the store hands back is
    /// either adopted as-is or, if it cannot be read or collides on a
    /// public key, refused with `StoreFailed`.
    pub fn load(store: S) -> (r: Result<KeyStore<S>, KeyStoreError>)
        ensures
            r matches Ok(ks) ==> ks.wf(),
            r matches Err(e) ==> e == KeyStoreError::StoreFailed,
    {
        let mut store = store;
        match store.load_snapshot() {
            Ok(keys) => Self::from_snapshot(keys, store),
            Err(_) => Err(KeyStoreError::StoreFailed),
        }
    }

    /// Appends a record, persists, and rolls back if persisting fails.
    fn push_and_save(&mut self, sk: StoredKey) -> (r: Result<KeyStoreEntry, KeyStoreError>)
        ensures
            match r {
                Ok(entry) => final(self)@ == old(self)@.push(sk@) && entry@ == meta_of(sk@),
                Err(e) => e == KeyStoreError::StoreFailed && final(self)@ == old(self)@,
            },
    {
        let entry = KeyStoreEntry {
            name: copy_bytes(&sk.name),
            public_key: copy_bytes(&sk.public_key),
            signer_kind: kind_of_stored(&sk),
        };
        self.keys.push(sk);
        proof {
            assert(models(self.keys@) =~= models(old(self).keys@).push(sk@));
        }
        if !self.store.save_snapshot(&self.keys) {
            self.keys.pop();
            proof {
                assert(models(self.keys@) =~= models(old(self).keys@));
            }
            return Err(KeyStoreError::StoreFailed);
        }
        Ok(entry)
    }

    /// Validates the creation input against the chosen scheme, derives or
    /// imports the secret, rejects a colliding public key, persists, and
    /// returns the new entry's public metadata — never the secret.
    pub fn add_key(&mut self, name: &Vec<u8>, new_key: NewKey) -> (r: Result<
        KeyStoreEntry,
        KeyStoreError,
    >)
        requires
            old(self).wf(),
        ensures
            final(self).wf(),
            (new_key matches NewKey::MasterKey {
                params: MasterKeyParams::Import { phrase },
                password,
            } ==> add_refines(
                r,
                old(self)@,
                final(self)@,
                add_master_import_spec(old(self)@, name@, phrase@, password@),
            )),
            (new_key matches NewKey::MasterKey {
                params: MasterKeyParams::Derive { account_id },
                password,
            } ==> add_refines(
                r,
                old(self)@,
                final(self)@,
                add_master_derive_spec(old(self)@, name@, account_id, password@),
            )),
            (new_key matches NewKey::EncryptedKey { phrase, mnemonic_type, password }
                ==> add_refines(
                r,
                old(self)@,
                final(self)@,
                add_encrypted_spec(old(self)@, name@, phrase@, mnemonic_type, password@),
            )),
    {
        match new_key {
            NewKey::MasterKey { params: MasterKeyParams::Import { phrase }, password } => self
                .add_master_import(name, phrase, password),
            NewKey::MasterKey { params: MasterKeyParams::Derive { account_id }, password } => self
                .add_master_derive(name, account_id, password),
            NewKey::EncryptedKey { phrase, mnemonic_type, password } => self.add_encrypted(
                name,
                phrase,
                mnemonic_type,
                password,
            ),
        }
    }

    /// Imports a master phrase into the derived scheme.
    fn add_master_import(&mut self, name: &Vec<u8>, phrase: Vec<u8>, password: Vec<u8>) -> (r:
        Result<KeyStoreEntry, KeyStoreError>)
        requires
            old(self).wf(),
        ensures
            final(self).wf(),
            add_refines(
                r,
                old(self)@,
                final(self)@,
                add_master_import_spec(old(self)@, name@, phrase@, password@),
            ),
    {
        let ghost s0 = models(old(self).keys@);
        let pk = compute_derived_public_key(&phrase, 0);
        match find_by_pk(&self.keys, &pk) {
            Some(_) => Err(KeyStoreError::KeyAlreadyExists),
            None => {
                let ct = crate::crypto::mask_bytes(&phrase, &password);
                let sk = StoredKey {
                    name: copy_bytes(name),
                    public_key: pk,
                    secret: SecretMaterial::Derived {
                        account_id: 0,
                        phrase_ct: ct,
                        verifier: credential_tag(&password),
                    },
                };
                proof {
                    lemma_push_unique(s0, sk@);
                }
                self.push_and_save(sk)
            },
        }
    }

    /// Derives one more child key from the imported master phrase.
    fn add_master_derive(&mut self, name: &Vec<u8>, account_id: u16, password: Vec<u8>) -> (r:
        Result<KeyStoreEntry, KeyStoreError>)
        requires
            old(self).wf(),
        ensures
            final(self).wf(),
            add_refines(
                r,
                old(self)@,
                final(self)@,
                add_master_derive_spec(old(self)@, name@, account_id, password@),
            ),
    {
        let ghost s0 = models(old(self).keys@);
        let mi = match find_by_kind(&self.keys, SignerKind::MasterKey) {
            None => {
                return Err(KeyStoreError::KeyNotFound);
            },
            Some(i) => i,
        };
        proof {
            assert(s0[mi as int] == self.keys@[mi as int]@);
        }
        let offered = credential_tag(&password);
        let phrase = match &self.keys[mi].secret {
            SecretMaterial::Derived { phrase_ct, verifier, .. } => {
                if !bytes_eq(verifier, &offered) {
                    return Err(KeyStoreError::WrongCredential);
                }
                crate::crypto::mask_bytes(phrase_ct, &password)
            },
            SecretMaterial::Encrypted { .. } => {
                proof {
                    assert(false);
                }
                unreached()
            },
        };
        let pk = compute_derived_public_key(&phrase, account_id);
        match find_by_pk(&self.keys, &pk) {
            Some(_) => Err(KeyStoreError::KeyAlreadyExists),
            None => {
                let ct = crate::crypto::mask_bytes(&phrase, &password);
                let sk = StoredKey {
                    name: copy_bytes(name),
                    public_key: pk,
                    secret: SecretMaterial::Derived {
                        account_id: account_id,
                        phrase_ct: ct,
                        verifier: credential_tag(&password),
                    },
                };
                proof {
                    lemma_push_unique(s0, sk@);
                }
                self.push_and_save(sk)
            },
        }
    }

    /// Imports an encrypted-scheme phrase.
    fn add_encrypted(
        &mut self,
        name: &Vec<u8>,
        phrase: Vec<u8>,
        mnemonic_type: MnemonicType,
        password: Vec<u8>,
    ) -> (r: Result<KeyStoreEntry, KeyStoreError>)
        requires
            old(self).wf(),
        ensures
            final(self).wf(),
            add_refines(
                r,
                old(self)@,
                final(self)@,
                add_encrypted_spec(old(self)@, name@, phrase@, mnemonic_type, password@),
            ),
    {
        let ghost s0 = models(old(self).keys@);
        let pk = compute_encrypted_public_key(&phrase, mnemonic_type);
        match find_by_pk(&self.keys, &pk) {
            Some(_) => Err(KeyStoreError::KeyAlreadyExists),
            None => {
                let ct = crate::crypto::mask_bytes(&phrase, &password);
                let sk = StoredKey {
                    name: copy_bytes(name),
                    public_key: pk,
                    secret: SecretMaterial::Encrypted {
                        phrase_ct: ct,
                        verifier: credential_tag(&password),
                        mnemonic_type: mnemonic_type,
                    },
                };
                proof {
                    lemma_push_unique(s0, sk@);
                }
                self.push_and_save(sk)
            },
        }
    }

    /// Signs the exact hash supplied with the key the credential names.
    /// Signing never mutates vault state.
    pub fn sign(&self, message_hash: &Vec<u8>, key_password: &KeyPassword) -> (r: Result<
        Vec<u8>,
        KeyStoreError,
    >)
        ensures
            (*key_password matches KeyPassword::MasterKey { public_key, password }
                ==> sign_refines(
                r,
                sign_spec(self@, SignerKind::MasterKey, public_key@, password@, message_hash@),
            )),
            (*key_password matches KeyPassword::EncryptedKey { public_key, password }
                ==> sign_refines(
                r,
                sign_spec(self@, SignerKind::EncryptedKey, public_key@, password@, message_hash@),
            )),
    {
        let (kind, public_key, password) = match key_password {
            KeyPassword::MasterKey { public_key, password } => (
                SignerKind::MasterKey,
                public_key,
                password,
            ),
            KeyPassword::EncryptedKey { public_key, password } => (
                SignerKind::EncryptedKey,
                public_key,
                password,
            ),
        };
        let i = match find_by_pk(&self.keys, public_key) {
            None => {
                return Err(KeyStoreError::KeyNotFound);
            },
            Some(i) => i,
        };
        if kind_of_stored(&self.keys[i]) != kind {
            return Err(KeyStoreError::KeyNotFound);
        }
        let offered = credential_tag(password);
        match &self.keys[i].secret {
            SecretMaterial::Derived { account_id, phrase_ct, verifier } => {
                if !bytes_eq(verifier, &offered) {
                    return Err(KeyStoreError::WrongCredential);
                }
                let phrase = crate::crypto::mask_bytes(phrase_ct, password);
                let secret = crate::crypto::child_secret(&phrase, *account_id);
                Ok(crate::crypto::sign_with_secret(&secret, message_hash))
            },
            SecretMaterial::Encrypted { phrase_ct, verifier, mnemonic_type } => {
                if !bytes_eq(verifier, &offered) {
                    return Err(KeyStoreError::WrongCredential);
                }
                let phrase = crate::crypto::mask_bytes(phrase_ct, password);
                let secret = compute_encrypted_secret(&phrase, *mnemonic_type);
                Ok(crate::crypto::sign_with_secret(&secret, message_hash))
            },
        }
    }

    /// Returns recoverable secret material after credential verification.
    pub fn export_key(&self, export_key: &ExportKey) -> (r: Result<ExportedKey, KeyStoreError>)
        ensures
            (*export_key matches ExportKey::MasterKey { password } ==> export_master_refines(
                r,
                export_master_spec(self@, password@),
            )),
            (*export_key matches ExportKey::EncryptedKey { public_key, password }
                ==> export_encrypted_refines(
                r,
                export_encrypted_spec(self@, public_key@, password@),
            )),
    {
        match export_key {
            ExportKey::MasterKey { password } => {
                let mi = match find_by_kind(&self.keys, SignerKind::MasterKey) {
                    None => {
                        return Err(KeyStoreError::KeyNotFound);
                    },
                    Some(i) => i,
                };
                proof {
                    assert(models(self.keys@)[mi as int] == self.keys@[mi as int]@);
                }
                let offered = credential_tag(password);
                match &self.keys[mi].secret {
                    SecretMaterial::Derived { phrase_ct, verifier, .. } => {
                        if !bytes_eq(verifier, &offered) {
                            return Err(KeyStoreError::WrongCredential);
                        }
                        let phrase = crate::crypto::mask_bytes(phrase_ct, password);
                        Ok(ExportedKey::MasterKey { phrase })
                    },
                    SecretMaterial::Encrypted { .. } => {
                        proof {
                            assert(false);
                        }
                        unreached()
                    },
                }
            },
            ExportKey::EncryptedKey { public_key, password } => {
                let i = match find_by_pk(&self.keys, public_key) {
                    None => {
                        return Err(KeyStoreError::KeyNotFound);
                    },
                    Some(i) => i,
                };
                let offered = credential_tag(password);
                match &self.keys[i].secret {
                    SecretMaterial::Encrypted { phrase_ct, verifier, mnemonic_type } => {
                        if !bytes_eq(verifier, &offered) {
                            return Err(KeyStoreError::WrongCredential);
                        }
                        let phrase = crate::crypto::mask_bytes(phrase_ct, password);
                        Ok(ExportedKey::EncryptedKey { phrase, mnemonic_type: *mnemonic_type })
                    },
                    SecretMaterial::Derived { .. } => Err(KeyStoreError::KeyNotFound),
                }
            },
        }
    }

    /// Re-encrypts secret material under a new password: every derived
    /// entry at once, or one encrypted entry by public key. Atomic with
    /// respect to persistence — either the old credential still opens
    /// everything, or the new one does.
    pub fn change_key_password(&mut self, change_password: ChangeKeyPassword) -> (r: Result<
        (),
        KeyStoreError,
    >)
        requires
            old(self).wf(),
        ensures
            final(self).wf(),
            (change_password matches ChangeKeyPassword::MasterKey { old_password, new_password }
                ==> mutation_refines(
                r,
                old(self)@,
                final(self)@,
                change_master_password_spec(old(self)@, old_password@, new_password@),
            )),
            (change_password matches ChangeKeyPassword::EncryptedKey {
                public_key,
                old_password,
                new_password,
            } ==> mutation_refines(
                r,
                old(self)@,
                final(self)@,
                change_encrypted_password_spec(old(self)@, public_key@, old_password@, new_password@),
            )),
    {
        match change_password {
            ChangeKeyPassword::MasterKey { old_password, new_password } => self
                .change_master_password(old_password, new_password),
            ChangeKeyPassword::EncryptedKey { public_key, old_password, new_password } => self
                .change_encrypted_password(public_key, old_password, new_password),
        }
    }

    /// Replaces the whole record list, persists, and rolls back on failure.
    fn swap_and_save(&mut self, replacement: Vec<StoredKey>) -> (r: Result<(), KeyStoreError>)
        ensures
            match r {
                Ok(u) => final(self)@ == models(replacement@),
                Err(e) => e == KeyStoreError::StoreFailed && final(self)@ == old(self)@,
            },
    {
        let mut repl = replacement;
        core::mem::swap(&mut self.keys, &mut repl);
        if !self.store.save_snapshot(&self.keys) {
            core::mem::swap(&mut self.keys, &mut repl);
            return Err(KeyStoreError::StoreFailed);
        }
        Ok(())
    }

    /// Re-credentials every derived-scheme entry at once.
    fn change_master_password(&mut self, old_password: Vec<u8>, new_password: Vec<u8>) -> (r:
        Result<(), KeyStoreError>)
        requires
            old(self).wf(),
        ensures
            final(self).wf(),
            mutation_refines(
                r,
                old(self)@,
                final(self)@,
                change_master_password_spec(old(self)@, old_password@, new_password@),
            ),
    {
        let ghost s0 = models(old(self).keys@);
        let offered = credential_tag(&old_password);
        let mut i: usize = 0;
        let mut found = false;
        while i < self.keys.len()
            invariant
                i <= self.keys.len(),
                self.keys == old(self).keys,
                self.store == old(self).store,
                s0 == models(self.keys@),
                pks_unique(s0),
                offered@ == spec_credential_tag(old_password@),
                found <==> has_master(s0.take(i as int)),
                masters_match(s0.take(i as int), old_password@),
            decreases self.keys.len() - i,
        {
            proof {
                assert(s0[i as int] == self.keys@[i as int]@);
            }
            match &self.keys[i].secret {
                SecretMaterial::Derived { verifier, .. } => {
                    if !bytes_eq(verifier, &offered) {
                        proof {
                            assert(secret_kind(s0[i as int].secret) == SignerKind::MasterKey);
                            assert(has_master(s0));
                            assert(!masters_match(s0, old_password@));
                        }
                        return Err(KeyStoreError::WrongCredential);
                    }
                    found = true;
                    proof {
                        assert(s0.take(i + 1)[i as int] == s0[i as int]);
                    }
                },
                SecretMaterial::Encrypted { .. } => {
                },
            }
            proof {
                assert forall|j: int|
                    0 <= j < i + 1 && secret_kind(#[trigger] s0.take(i + 1)[j].secret)
                        == SignerKind::MasterKey implies credential_ok(
                    s0.take(i + 1)[j].secret,
                    old_password@,
                ) by {
                    assert(s0.take(i + 1)[j] == s0[j]);
                    if j < i {
                        assert(s0.take(i as int)[j] == s0[j]);
                    }
                }
                if !found {
                    assert forall|j: int| 0 <= j < i + 1 implies secret_kind(
                        #[trigger] s0.take(i + 1)[j].secret,
                    ) != SignerKind::MasterKey by {
                        assert(s0.take(i + 1)[j] == s0[j]);
                        if j < i {
                            assert(s0.take(i as int)[j] == s0[j]);
                        }
                    }
                } else {
                    if has_master(s0.take(i as int)) {
                        let w = choose|w: int|
                            0 <= w < i && secret_kind(s0.take(i as int)[w].secret)
                                == SignerKind::MasterKey;
                        assert(s0.take(i + 1)[w] == s0.take(i as int)[w]);
                    }
                }
            }
            i = i + 1;
        }
        proof {
            assert(s0.take(s0.len() as int) =~= s0);
        }
        if !found {
            return Err(KeyStoreError::KeyNotFound);
        }
        let ghost target = Seq::new(
            s0.len(),
            |j: int| rekey_master(s0[j], old_password@, new_password@),
        );
        let mut new_keys: Vec<StoredKey> = Vec::new();
        let mut i: usize = 0;
        while i < self.keys.len()
            invariant
                i <= self.keys.len(),
                self.keys == old(self).keys,
                self.store == old(self).store,
                s0 == models(self.keys@),
                pks_unique(s0),
                target == Seq::new(
                    s0.len(),
                    |j: int| rekey_master(s0[j], old_password@, new_password@),
                ),
                new_keys.len() == i,
                forall|j: int| 0 <= j < i ==> (#[trigger] new_keys@[j])@ == target[j],
            decreases self.keys.len() - i,
        {
            proof {
                assert(s0[i as int] == self.keys@[i as int]@);
            }
            let k = &self.keys[i];
            match &k.secret {
                SecretMaterial::Derived { account_id, phrase_ct, .. } => {
                    let phrase = crate::crypto::mask_bytes(phrase_ct, &old_password);
                    let ct2 = crate::crypto::mask_bytes(&phrase, &new_password);
                    new_keys.push(
                        StoredKey {
                            name: copy_bytes(&k.name),
                            public_key: copy_bytes(&k.public_key),
                            secret: SecretMaterial::Derived {
                                account_id: *account_id,
                                phrase_ct: ct2,
                                verifier: credential_tag(&new_password),
                            },
                        },
                    );
                },
                SecretMaterial::Encrypted { .. } => {
                    new_keys.push(copy_stored_key(k));
                },
            }
            i = i + 1;
        }
        proof {
            assert forall|j: int| 0 <= j < target.len() implies models(new_keys@)[j]
                == target[j] by {
                assert((new_keys@[j])@ == target[j]);
            }
            assert(models(new_keys@) =~= target);
            lemma_pointwise_unique(s0, target);
        }
        self.swap_and_save(new_keys)
    }

    /// Re-credentials one encrypted-scheme entry by public key.
    fn change_encrypted_password(
        &mut self,
        public_key: Vec<u8>,
        old_password: Vec<u8>,
        new_password: Vec<u8>,
    ) -> (r: Result<(), KeyStoreError>)
        requires
            old(self).wf(),
        ensures
            final(self).wf(),
            mutation_refines(
                r,
                old(self)@,
                final(self)@,
                change_encrypted_password_spec(old(self)@, public_key@, old_password@, new_password@),
            ),
    {
        let ghost s0 = models(old(self).keys@);
        let i = match find_by_pk(&self.keys, &public_key) {
            None => {
                return Err(KeyStoreError::KeyNotFound);
            },
            Some(i) => i,
        };
        proof {
            assert(s0[i as int] == self.keys@[i as int]@);
        }
        let new_entry = {
            let k = &self.keys[i];
            match &k.secret {
                SecretMaterial::Encrypted { phrase_ct, verifier, mnemonic_type } => {
                    if !bytes_eq(verifier, &credential_tag(&old_password)) {
                        return Err(KeyStoreError::WrongCredential);
                    }
                    let phrase = crate::crypto::mask_bytes(phrase_ct, &old_password);
                    let ct2 = crate::crypto::mask_bytes(&phrase, &new_password);
                    StoredKey {
                        name: copy_bytes(&k.name),
                        public_key: copy_bytes(&k.public_key),
                        secret: SecretMaterial::Encrypted {
                            phrase_ct: ct2,
                            verifier: credential_tag(&new_password),
                            mnemonic_type: *mnemonic_type,
                        },
                    }
                },
                SecretMaterial::Derived { .. } => {
                    return Err(KeyStoreError::KeyNotFound);
                },
            }
        };
        let ghost target = s0.update(
            i as int,
            rekey_encrypted(s0[i as int], old_password@, new_password@),
        );
        let mut new_keys: Vec<StoredKey> = Vec::new();
        let mut j: usize = 0;
        let mut replacement = Some(new_entry);
        while j < self.keys.len()
            invariant
                j <= self.keys.len(),
                i < self.keys.len(),
                self.keys == old(self).keys,
                self.store == old(self).store,
                s0 == models(self.keys@),
                pks_unique(s0),
                target == s0.update(
                    i as int,
                    rekey_encrypted(s0[i as int], old_password@, new_password@),
                ),
                new_keys.len() == j,
                forall|m: int| 0 <= m < j ==> (#[trigger] new_keys@[m])@ == target[m],
                j <= i ==> (replacement matches Some(e) && e@ == target[i as int]),
            decreases self.keys.len() - j,
        {
            proof {
                assert(s0[j as int] == self.keys@[j as int]@);
            }
            if j == i {
                match replacement {
                    Some(e) => {
                        new_keys.push(e);
                        replacement = None;
                    },
                    None => {
                        proof {
                            assert(false);
                        }
                    },
                }
            } else {
                new_keys.push(copy_stored_key(&self.keys[j]));
            }
            j = j + 1;
        }
        proof {
            assert forall|m: int| 0 <= m < target.len() implies models(new_keys@)[m]
                == target[m] by {
                assert((new_keys@[m])@ == target[m]);
            }
            assert(models(new_keys@) =~= target);
            lemma_pointwise_unique(s0, target);
        }
        self.swap_and_save(new_keys)
    }

    /// Deletes the entry with this public key; removing an absent key is an
    /// error, not a no-op.
    pub fn remove_key(&mut self, public_key: &Vec<u8>) -> (r: Result<(), KeyStoreError>)
        requires
            old(self).wf(),
        ensures
            final(self).wf(),
            mutation_refines(
                r,
                old(self)@,
                final(self)@,
                remove_key_spec(old(self)@, public_key@),
            ),
    {
        let ghost s0 = models(old(self).keys@);
        let i = match find_by_pk(&self.keys, public_key) {
            None => {
                return Err(KeyStoreError::KeyNotFound);
            },
            Some(i) => i,
        };
        let old_entry = self.keys.remove(i);
        proof {
            assert forall|j: int| 0 <= j < s0.remove(i as int).len() implies models(self.keys@)[j]
                == s0.remove(i as int)[j] by {
                if j < i {
                    assert(old(self).keys@.remove(i as int)[j] == old(self).keys@[j]);
                    assert(s0.remove(i as int)[j] == s0[j]);
                } else {
                    assert(old(self).keys@.remove(i as int)[j] == old(self).keys@[j + 1]);
                    assert(s0.remove(i as int)[j] == s0[j + 1]);
                }
            }
            assert(models(self.keys@) =~= s0.remove(i as int));
            lemma_remove_unique(s0, i as int);
        }
        if !self.store.save_snapshot(&self.keys) {
            self.keys.insert(i, old_entry);
            proof {
                assert forall|j: int| 0 <= j < s0.len() implies models(self.keys@)[j] == s0[j] by {
                }
                assert(models(self.keys@) =~= s0);
            }
            return Err(KeyStoreError::StoreFailed);
        }
        Ok(())
    }

    /// Removes all entries. The only way this fails is the store itself.
    pub fn clear(&mut self) -> (r: Result<(), KeyStoreError>)
        requires
            old(self).wf(),
        ensures
            final(self).wf(),
            r matches Ok(u) ==> final(self)@ == Seq::<KeyModel>::empty(),
            r matches Err(e) ==> e == KeyStoreError::StoreFailed && final(self)@ == old(self)@,
    {
        let mut new_keys: Vec<StoredKey> = Vec::new();
        core::mem::swap(&mut self.keys, &mut new_keys);
        proof {
            assert(models(self.keys@) =~= Seq::<KeyModel>::empty());
        }
        if !self.store.save_snapshot(&self.keys) {
            core::mem::swap(&mut self.keys, &mut new_keys);
            return Err(KeyStoreError::StoreFailed);
        }
        Ok(())
    }

    /// Returns the public metadata of every entry, in insertion order.
    pub fn get_stored_keys(&self) -> (r: Vec<KeyStoreEntry>)
        ensures
            entry_views(r@) == entries_spec(self@),
    {
        let mut out: Vec<KeyStoreEntry> = Vec::new();
        let mut i: usize = 0;
        while i < self.keys.len()
            invariant
                i <= self.keys.len(),
                out.len() == i,
                forall|j: int| 0 <= j < i ==> (#[trigger] out@[j])@ == meta_of(
                    models(self.keys@)[j],
                ),
            decreases self.keys.len() - i,
        {
            proof {
                assert(models(self.keys@)[i as int] == self.keys@[i as int]@);
            }
            let k = &self.keys[i];
            out.push(
                KeyStoreEntry {
                    name: copy_bytes(&k.name),
                    public_key: copy_bytes(&k.public_key),
                    signer_kind: kind_of_stored(k),
                },
            );
            i = i + 1;
        }
        proof {
            assert forall|j: int| 0 <= j < self.keys@.len() implies entry_views(out@)[j]
                == entries_spec(models(self.keys@))[j] by {
                assert((out@[j])@ == meta_of(models(self.keys@)[j]));
            }
            assert(entry_views(out@) =~= entries_spec(models(self.keys@)));
        }
        out
    }
}

} // verus!
