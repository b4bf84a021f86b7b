//! Deterministic key material primitives used by the signing schemes.
//!
//! Everything here is a pure function of its arguments: child-secret
//! derivation from a mnemonic phrase, the public key of a secret, signatures
//! over a message hash, and the involutive masking that keeps secret material
//! encrypted at rest under a password. All of it is built on one byte-mixing
//! core, `mix_bytes`, whose exact output is pinned down by `spec_mix`.

use vstd::prelude::*;

verus! {

/// Modulus of the 32-bit mixing state.
pub const STATE_MOD: u64 = 0x1_0000_0000;

/// One absorption step of the mixing state.
pub open spec fn mix_step(state: int, byte: int) -> int {
    (state * 131 + byte + 7) % 0x1_0000_0000
}

/// The state after absorbing `data` into `state`, front to back.
pub open spec fn absorb(state: int, data: Seq<u8>) -> int
    decreases data.len(),
{
    if data.len() == 0 {
        state
    } else {
        absorb(mix_step(state, data[0] as int), data.skip(1))
    }
}

/// One output step of the mixing state.
pub open spec fn squeeze_step(state: int) -> int {
    (state * 131 + 11) % 0x1_0000_0000
}

/// The state after `k` output steps from `state`.
pub open spec fn squeeze_state(state: int, k: nat) -> int
    decreases k,
{
    if k == 0 {
        state
    } else {
        squeeze_step(squeeze_state(state, (k - 1) as nat))
    }
}

/// `n` bytes mixed out of `seed` and `data`: the high byte of each output
/// state, so every output byte depends on the whole state. Byte `i` depends
/// only on the seed, the data and `i`, never on `n`.
pub open spec fn spec_mix(seed: int, data: Seq<u8>, n: nat) -> Seq<u8> {
    Seq::new(n, |i: int| (squeeze_state(absorb(seed, data), (i + 1) as nat) / 0x100_0000) as u8)
}

/// Absorbing one more byte at the back equals one more step on the
/// absorbed front.
pub proof fn lemma_absorb_push(state: int, data: Seq<u8>, b: u8)
    ensures
        absorb(state, data.push(b)) == mix_step(absorb(state, data), b as int),
    decreases data.len(),
{
    assert(data.push(b)[0] == if data.len() == 0 { b } else { data[0] });
    if data.len() == 0 {
        assert(data.push(b).skip(1) =~= Seq::<u8>::empty());
        assert(absorb(state, data.push(b)) == absorb(mix_step(state, b as int), data.push(b).skip(1)));
    } else {
        assert(data.push(b).skip(1) =~= data.skip(1).push(b));
        lemma_absorb_push(mix_step(state, data[0] as int), data.skip(1), b);
        assert(absorb(state, data.push(b)) == absorb(
            mix_step(state, data[0] as int),
            data.push(b).skip(1),
        ));
    }
}

/// Produces `n` bytes from `seed` and `data`, exactly as `spec_mix` says.
pub fn mix_bytes(seed: u64, data: &Vec<u8>, n: usize) -> (out: Vec<u8>)
    requires
        seed < 0x1_0000_0000,
    ensures
        out@ == spec_mix(seed as int, data@, n as nat),
        out.len() == n,
{
    let ghost seed0: int = seed as int;
    let mut state: u64 = seed;
    let mut i: usize = 0;
    while i < data.len()
        invariant
            i <= data.len(),
            state < 0x1_0000_0000,
            state == absorb(seed0, data@.take(i as int)),
        decreases data.len() - i,
    {
        let b = data[i];
        proof {
            lemma_absorb_push(seed0, data@.take(i as int), b);
            assert(data@.take(i + 1) =~= data@.take(i as int).push(b));
        }
        state = (state * 131 + (b as u64) + 7) % STATE_MOD;
        i = i + 1;
    }
    proof {
        assert(data@.take(data@.len() as int) =~= data@);
    }
    let ghost a0: int = absorb(seed0, data@);
    let mut out: Vec<u8> = Vec::new();
    let mut k: usize = 0;
    while k < n
        invariant
            k <= n,
            state < 0x1_0000_0000,
            state == squeeze_state(a0, k as nat),
            out.len() == k,
            forall|j: int|
                0 <= j < k ==> out@[j] == (squeeze_state(a0, (j + 1) as nat) / 0x100_0000) as u8,
        decreases n - k,
    {
        state = (state * 131 + 11) % STATE_MOD;
        out.push((state / 0x100_0000) as u8);
        k = k + 1;
    }
    proof {
        assert(out@ =~= spec_mix(seed as int, data@, n as nat));
    }
    out
}

/// The 32-byte child secret of a mnemonic phrase at an account index.
pub open spec fn spec_child_secret(phrase: Seq<u8>, account_id: u16) -> Seq<u8> {
    spec_mix(2, phrase + account_bytes(account_id), 32)
}

/// The two little-endian bytes of an account index.
pub open spec fn account_bytes(account_id: u16) -> Seq<u8> {
    seq![(account_id as int % 256) as u8, (account_id as int / 256) as u8]
}

/// The 32-byte public key of a secret.
pub open spec fn spec_public_of(secret: Seq<u8>) -> Seq<u8> {
    spec_mix(3, secret, 32)
}

/// The 64-byte signature of `secret` over `hash`.
pub open spec fn spec_sign(secret: Seq<u8>, hash: Seq<u8>) -> Seq<u8> {
    spec_mix(5, secret + hash, 64)
}

/// The keystream a password yields, byte `i` independent of `n`.
pub open spec fn spec_keystream(password: Seq<u8>, n: nat) -> Seq<u8> {
    spec_mix(13, password, n)
}

/// The stored credential verifier of a password: a 32-byte image of it
/// under the mixing core, so that snapshots never hold a password itself.
pub open spec fn spec_credential_tag(password: Seq<u8>) -> Seq<u8> {
    spec_mix(17, password, 32)
}

/// Computes the exec counterpart of `spec_credential_tag`.
pub fn credential_tag(password: &Vec<u8>) -> (t: Vec<u8>)
    ensures
        t@ == spec_credential_tag(password@),
        t.len() == 32,
{
    mix_bytes(17, password, 32)
}

/// `data` masked byte-for-byte with the password's keystream. Masking is
/// involutive: applying it twice with the same password restores the input.
pub open spec fn spec_mask(data: Seq<u8>, password: Seq<u8>) -> Seq<u8> {
    Seq::new(data.len(), |i: int| data[i] ^ spec_keystream(password, data.len())[i])
}

/// Masking twice with one password restores the data.
pub proof fn lemma_mask_involutive(data: Seq<u8>, password: Seq<u8>)
    ensures
        spec_mask(spec_mask(data, password), password) == data,
{
    let m1 = spec_mask(data, password);
    let m2 = spec_mask(m1, password);
    assert forall|i: int| 0 <= i < data.len() implies m2[i] == data[i] by {
        let k = spec_keystream(password, data.len())[i];
        let d = data[i];
        assert((d ^ k) ^ k == d) by (bit_vector);
    }
    assert(m2 =~= data);
}

/// Produces `n` bytes mixed out of a phrase followed by an account index.
pub fn mix_phrase_account(seed: u64, phrase: &Vec<u8>, account_id: u16, n: usize) -> (out: Vec<u8>)
    requires
        seed < 0x1_0000_0000,
    ensures
        out@ == spec_mix(seed as int, phrase@ + account_bytes(account_id), n as nat),
        out.len() == n,
{
    let mut data: Vec<u8> = Vec::new();
    let mut i: usize = 0;
    while i < phrase.len()
        invariant
            i <= phrase.len(),
            data@ == phrase@.take(i as int),
        decreases phrase.len() - i,
    {
        data.push(phrase[i]);
        proof {
            assert(phrase@.take(i + 1) =~= phrase@.take(i as int).push(phrase@[i as int]));
        }
        i = i + 1;
    }
    proof {
        assert(phrase@.take(phrase@.len() as int) =~= phrase@);
    }
    data.push((account_id % 256) as u8);
    data.push((account_id / 256) as u8);
    proof {
        assert(data@ =~= phrase@ + account_bytes(account_id));
    }
    mix_bytes(seed, &data, n)
}

/// Computes the exec counterpart of `spec_child_secret`.
pub fn child_secret(phrase: &Vec<u8>, account_id: u16) -> (out: Vec<u8>)
    ensures
        out@ == spec_child_secret(phrase@, account_id),
        out.len() == 32,
{
    mix_phrase_account(2, phrase, account_id, 32)
}

/// Computes the exec counterpart of `spec_public_of`.
pub fn public_of(secret: &Vec<u8>) -> (out: Vec<u8>)
    ensures
        out@ == spec_public_of(secret@),
        out.len() == 32,
{
    mix_bytes(3, secret, 32)
}

/// Computes the exec counterpart of `spec_sign`.
pub fn sign_with_secret(secret: &Vec<u8>, hash: &Vec<u8>) -> (out: Vec<u8>)
    ensures
        out@ == spec_sign(secret@, hash@),
        out.len() == 64,
{
    let mut data: Vec<u8> = Vec::new();
    let mut i: usize = 0;
    while i < secret.len()
        invariant
            i <= secret.len(),
            data@ == secret@.take(i as int),
        decreases secret.len() - i,
    {
        data.push(secret[i]);
        proof {
            assert(secret@.take(i + 1) =~= secret@.take(i as int).push(secret@[i as int]));
        }
        i = i + 1;
    }
    let mut j: usize = 0;
    while j < hash.len()
        invariant
            j <= hash.len(),
            data@ == secret@.take(secret@.len() as int) + hash@.take(j as int),
        decreases hash.len() - j,
    {
        data.push(hash[j]);
        proof {
            assert(hash@.take(j + 1) =~= hash@.take(j as int).push(hash@[j as int]));
            assert(secret@.take(secret@.len() as int) + hash@.take(j + 1) =~= (secret@.take(
                secret@.len() as int,
            ) + hash@.take(j as int)).push(hash@[j as int]));
        }
        j = j + 1;
    }
    proof {
        assert(secret@.take(secret@.len() as int) =~= secret@);
        assert(hash@.take(hash@.len() as int) =~= hash@);
        assert(data@ =~= secret@ + hash@);
    }
    mix_bytes(5, &data, 64)
}

/// Computes the exec counterpart of `spec_mask`.
pub fn mask_bytes(data: &Vec<u8>, password: &Vec<u8>) -> (out: Vec<u8>)
    ensures
        out@ == spec_mask(data@, password@),
        out.len() == data.len(),
{
    let ks = mix_bytes(13, password, data.len());
    let mut out: Vec<u8> = Vec::new();
    let mut i: usize = 0;
    while i < data.len()
        invariant
            i <= data.len(),
            ks@ == spec_keystream(password@, data@.len() as nat),
            out.len() == i,
            forall|j: int| 0 <= j < i ==> out@[j] == spec_mask(data@, password@)[j],
        decreases data.len() - i,
    {
        out.push(data[i] ^ ks[i]);
        i = i + 1;
    }
    proof {
        assert(out@ =~= spec_mask(data@, password@));
    }
    out
}

} // verus!
