//! Client-facing hybrid encryption layer.
//!
//! A client derives a key pair, performs a key exchange against the cluster
//! public key, and keys a symmetric field-element stream cipher with the
//! shared secret. Encryption adds a keystream element to each plaintext
//! element; decryption subtracts the same keystream, so a round trip under
//! the same key and nonce is the identity.

use vstd::prelude::*;
use crate::field::{
    fe_ok, sp_add, sp_sub, sp_mul, fe_add, fe_sub, fe_mul, FIELD_MODULUS,
    lemma_add_sub_cancel, lemma_key_exchange_swap,
};

verus! {

/// The fixed public base scalar of the key exchange: a public key is the
/// private scalar applied to this generator.
pub const KEY_GENERATOR: u64 = 1442695040888963407;

/// The keystream element at position `i` for a given key and nonce.
pub open spec fn keystream_at(key: u64, nonce: u64, i: int) -> u64 {
    let idx = (((i + 1) % (FIELD_MODULUS as int)) as u64);
    sp_add(sp_mul(key, sp_add(nonce, idx)), idx)
}

/// Element-wise encryption of a plaintext sequence under `key` and `nonce`.
pub open spec fn spec_encrypt(key: u64, nonce: u64, plaintext: Seq<u64>) -> Seq<u64> {
    Seq::new(plaintext.len(), |i: int| sp_add(plaintext[i], keystream_at(key, nonce, i)))
}

/// Element-wise decryption of a ciphertext sequence under `key` and `nonce`.
pub open spec fn spec_decrypt(key: u64, nonce: u64, ciphertext: Seq<u64>) -> Seq<u64> {
    Seq::new(ciphertext.len(), |i: int| sp_sub(ciphertext[i], keystream_at(key, nonce, i)))
}

/// Compute the keystream element at position `i`.
pub fn keystream_elem(key: u64, nonce: u64, i: u64) -> (r: u64)
    requires
        fe_ok(key),
        fe_ok(nonce),
        i < u64::MAX,
    ensures
        r == keystream_at(key, nonce, i as int),
        fe_ok(r),
{
    let idx = (i + 1) % FIELD_MODULUS;
    fe_add(fe_mul(key, fe_add(nonce, idx)), idx)
}

/// Derive the public key belonging to a private scalar.
pub fn get_public_key(private_key: u64) -> (r: u64)
    requires
        fe_ok(private_key),
    ensures
        r == sp_mul(private_key, KEY_GENERATOR),
        fe_ok(r),
{
    fe_mul(private_key, KEY_GENERATOR)
}

/// A symmetric field-element stream cipher keyed by a shared secret.
#[derive(Clone, Copy, PartialEq, Eq, Structural, Debug)]
pub struct Cipher {
    pub key: u64,
}

impl Cipher {
    /// Key the cipher on the client side: the shared secret is the client's
    /// private scalar applied to the cluster public key.
    pub fn new_with_client_from_key_pair(client_private_key: u64, cluster_public_key: u64) -> (r: Cipher)
        requires
            fe_ok(client_private_key),
            fe_ok(cluster_public_key),
        ensures
            r.key == sp_mul(client_private_key, cluster_public_key),
            fe_ok(r.key),
    {
        Cipher { key: fe_mul(client_private_key, cluster_public_key) }
    }

    /// Encrypt a sequence of field elements under a nonce. The result has the
    /// same length as the plaintext; the nonce must be fresh per encryption
    /// under one key, which is the caller's responsibility.
    pub fn encrypt(&self, plaintext: Vec<u64>, nonce: u64) -> (r: Vec<u64>)
        requires
            fe_ok(self.key),
            fe_ok(nonce),
            forall|i: int| 0 <= i < plaintext@.len() ==> fe_ok(#[trigger] plaintext@[i]),
        ensures
            r@ == spec_encrypt(self.key, nonce, plaintext@),
            forall|i: int| 0 <= i < r@.len() ==> fe_ok(#[trigger] r@[i]),
    {
        let mut out: Vec<u64> = Vec::new();
        let n = plaintext.len();
        for i in 0..n
            invariant
                n == plaintext@.len(),
                fe_ok(self.key),
                fe_ok(nonce),
                forall|j: int| 0 <= j < plaintext@.len() ==> fe_ok(#[trigger] plaintext@[j]),
                out@.len() == i,
                forall|j: int| 0 <= j < i ==> out@[j] == sp_add(plaintext@[j], keystream_at(self.key, nonce, j)),
                forall|j: int| 0 <= j < i ==> fe_ok(#[trigger] out@[j]),
        {
            let ks = keystream_elem(self.key, nonce, i as u64);
            out.push(fe_add(plaintext[i], ks));
        }
        proof {
            assert(out@ =~= spec_encrypt(self.key, nonce, plaintext@));
        }
        out
    }

    /// Decrypt a sequence of field elements under the nonce that accompanied
    /// the ciphertext: the exact inverse of `encrypt` for the same key.
    pub fn decrypt(&self, ciphertext: Vec<u64>, nonce: u64) -> (r: Vec<u64>)
        requires
            fe_ok(self.key),
            fe_ok(nonce),
            forall|i: int| 0 <= i < ciphertext@.len() ==> fe_ok(#[trigger] ciphertext@[i]),
        ensures
            r@ == spec_decrypt(self.key, nonce, ciphertext@),
            forall|i: int| 0 <= i < r@.len() ==> fe_ok(#[trigger] r@[i]),
    {
        let mut out: Vec<u64> = Vec::new();
        let n = ciphertext.len();
        for i in 0..n
            invariant
                n == ciphertext@.len(),
                fe_ok(self.key),
                fe_ok(nonce),
                forall|j: int| 0 <= j < ciphertext@.len() ==> fe_ok(#[trigger] ciphertext@[j]),
                out@.len() == i,
                forall|j: int| 0 <= j < i ==> out@[j] == sp_sub(ciphertext@[j], keystream_at(self.key, nonce, j)),
                forall|j: int| 0 <= j < i ==> fe_ok(#[trigger] out@[j]),
        {
            let ks = keystream_elem(self.key, nonce, i as u64);
            out.push(fe_sub(ciphertext[i], ks));
        }
        proof {
            assert(out@ =~= spec_decrypt(self.key, nonce, ciphertext@));
        }
        out
    }
}

/// Law: decryption inverts encryption. For any key, any nonce, and any
/// sequence of reduced field elements, decrypting the encryption under the
/// same key and nonce returns the plaintext exactly, element-wise.
pub proof fn lemma_encrypt_decrypt_roundtrip(key: u64, nonce: u64, plaintext: Seq<u64>)
    requires
        forall|i: int| 0 <= i < plaintext.len() ==> fe_ok(#[trigger] plaintext[i]),
    ensures
        spec_decrypt(key, nonce, spec_encrypt(key, nonce, plaintext)) == plaintext,
{
    let ct = spec_encrypt(key, nonce, plaintext);
    let rt = spec_decrypt(key, nonce, ct);
    assert forall|i: int| 0 <= i < plaintext.len() implies rt[i] == plaintext[i] by {
        lemma_add_sub_cancel(plaintext[i], keystream_at(key, nonce, i));
    }
    assert(rt =~= plaintext);
}

/// Law: both sides of the hybrid key exchange derive the same shared secret.
/// The client applies its private scalar to the cluster public key; the
/// cluster applies its collective secret to the client public key.
pub proof fn lemma_shared_secret_agreement(client_private: u64, cluster_secret: u64)
    ensures
        sp_mul(client_private, sp_mul(cluster_secret, KEY_GENERATOR))
            == sp_mul(cluster_secret, sp_mul(client_private, KEY_GENERATOR)),
{
    lemma_key_exchange_swap(client_private, cluster_secret, KEY_GENERATOR);
}

} // verus!
