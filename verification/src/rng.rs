//! Deterministic seeded randomness for reproducible protocol runs.
//!
//! The client's key material is drawn from a cryptographically-seedable
//! deterministic generator, so that a fixed seed reproduces the whole
//! protocol byte for byte.

use vstd::prelude::*;
use crate::field::{fe_ok, sp_reduce, fe_reduce};

verus! {

/// The word stream that the seeded generator produces: a function of the
/// 32-byte seed alone.
pub uninterp spec fn chacha_stream(seed: Seq<u8>) -> Seq<u64>;

/// Relies on rand_chacha's `ChaCha12Rng`: `from_seed` followed by repeated
/// `next_u64` calls yields a word stream that depends on the 32-byte seed
/// alone, reproducible across runs and machines.
#[verifier::external_body]
fn chacha_words(seed: &[u8; 32], count: usize) -> (r: Vec<u64>)
    ensures
        r@.len() == count as nat,
        forall|i: int| 0 <= i < count ==> r@[i] == chacha_stream(seed@)[i],
{
    let mut rng = <rand_chacha::ChaCha12Rng as rand_chacha::rand_core::SeedableRng>::from_seed(*seed);
    let mut out: Vec<u64> = Vec::with_capacity(count);
    for _ in 0..count {
        out.push(rand_chacha::rand_core::Rng::next_u64(&mut rng));
    }
    out
}

/// Derive the client's private key deterministically from a seed: the first
/// word of the seeded stream, reduced into the field.
pub fn derive_client_private_key(seed: &[u8; 32]) -> (r: u64)
    ensures
        r == sp_reduce(chacha_stream(seed@)[0]),
        fe_ok(r),
{
    let words = chacha_words(seed, 1);
    fe_reduce(words[0])
}

} // verus!
