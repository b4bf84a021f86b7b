//! The closed set of signing schemes and their derivation rules.
//!
//! A signer kind tags which scheme owns a stored key: the derived scheme
//! turns one mnemonic phrase into many child keys by account index, the
//! encrypted scheme keeps one password-encrypted phrase per imported key.
//! The vault is agnostic to these rules; it only dispatches on the kind.

use vstd::prelude::*;

use crate::crypto::{account_bytes, spec_child_secret, spec_mix, spec_public_of};

verus! {

/// Tag identifying which scheme owns a stored key.
#[derive(Clone, Copy, Debug, PartialEq, Eq, Structural)]
pub enum SignerKind {
    /// The derived scheme: one master phrase, child keys by account index.
    MasterKey,
    /// The encrypted scheme: one password-encrypted phrase per key.
    EncryptedKey,
}

/// How a mnemonic phrase of the encrypted scheme is interpreted.
#[derive(Clone, Copy, Debug, PartialEq, Eq, Structural)]
pub enum MnemonicType {
    /// A twelve-word phrase addressed by an account index.
    Labs { account_id: u16 },
    /// A legacy twenty-four-word phrase.
    Legacy,
}

/// The display tag of a signer kind, as the vault registers it.
pub open spec fn spec_signer_name(kind: SignerKind) -> Seq<char> {
    match kind {
        SignerKind::MasterKey => "master_key"@,
        SignerKind::EncryptedKey => "encrypted_key"@,
    }
}

/// Returns the tag under which a signer kind is registered.
pub fn signer_name(kind: SignerKind) -> (r: &'static str)
    ensures
        r@ == spec_signer_name(kind),
{
    match kind {
        SignerKind::MasterKey => "master_key",
        SignerKind::EncryptedKey => "encrypted_key",
    }
}

/// The public key the derived scheme assigns to a phrase and account index.
pub open spec fn derived_public_key(phrase: Seq<u8>, account_id: u16) -> Seq<u8> {
    spec_public_of(spec_child_secret(phrase, account_id))
}

/// The signing secret of the encrypted scheme for a phrase.
pub open spec fn encrypted_secret(phrase: Seq<u8>, mnemonic_type: MnemonicType) -> Seq<u8> {
    match mnemonic_type {
        MnemonicType::Labs { account_id } => spec_mix(7, phrase + account_bytes(account_id), 32),
        MnemonicType::Legacy => spec_mix(11, phrase, 32),
    }
}

/// The public key the encrypted scheme assigns to a phrase.
pub open spec fn encrypted_public_key(phrase: Seq<u8>, mnemonic_type: MnemonicType) -> Seq<u8> {
    spec_public_of(encrypted_secret(phrase, mnemonic_type))
}

/// Computes the exec counterpart of `derived_public_key`.
pub fn compute_derived_public_key(phrase: &Vec<u8>, account_id: u16) -> (pk: Vec<u8>)
    ensures
        pk@ == derived_public_key(phrase@, account_id),
        pk.len() == 32,
{
    let secret = crate::crypto::child_secret(phrase, account_id);
    crate::crypto::public_of(&secret)
}

/// Computes the exec counterpart of `encrypted_secret`.
pub fn compute_encrypted_secret(phrase: &Vec<u8>, mnemonic_type: MnemonicType) -> (out: Vec<u8>)
    ensures
        out@ == encrypted_secret(phrase@, mnemonic_type),
        out.len() == 32,
{
    match mnemonic_type {
        MnemonicType::Labs { account_id } => crate::crypto::mix_phrase_account(
            7,
            phrase,
            account_id,
            32,
        ),
        MnemonicType::Legacy => crate::crypto::mix_bytes(11, phrase, 32),
    }
}

/// Computes the exec counterpart of `encrypted_public_key`.
pub fn compute_encrypted_public_key(phrase: &Vec<u8>, mnemonic_type: MnemonicType) -> (pk: Vec<u8>)
    ensures
        pk@ == encrypted_public_key(phrase@, mnemonic_type),
        pk.len() == 32,
{
    let secret = compute_encrypted_secret(phrase, mnemonic_type);
    crate::crypto::public_of(&secret)
}

} // verus!
