//! Prime-field arithmetic for the engine.
//!
//! Every protocol value — key shares, ciphertexts, nonces, circuit wires —
//! is an element of the prime field of order `FIELD_MODULUS`, carried as a
//! `u64` strictly below the modulus.

use vstd::prelude::*;
use vstd::arithmetic::div_mod::{
    lemma_mod_bound, lemma_small_mod, lemma_fundamental_div_mod, lemma_mod_multiples_vanish,
    lemma_mul_mod_noop_general, lemma_add_mod_noop, lemma_add_mod_noop_right,
};
use vstd::arithmetic::mul::{
    lemma_mul_is_commutative, lemma_mul_is_associative, lemma_mul_is_distributive_add,
    lemma_mul_nonnegative,
};

verus! {

/// The field order: the Mersenne prime 2^61 - 1.
pub const FIELD_MODULUS: u64 = 2305843009213693951;

/// A `u64` carries a field element exactly when it is below the modulus.
pub open spec fn fe_ok(x: u64) -> bool {
    x < FIELD_MODULUS
}

/// Reduction of an arbitrary machine word into the field.
pub open spec fn sp_reduce(x: u64) -> u64 {
    (x % FIELD_MODULUS) as u64
}

/// Field addition.
pub open spec fn sp_add(a: u64, b: u64) -> u64 {
    (((a as int) + (b as int)) % (FIELD_MODULUS as int)) as u64
}

/// Field subtraction.
pub open spec fn sp_sub(a: u64, b: u64) -> u64 {
    (((a as int) - (b as int) + (FIELD_MODULUS as int)) % (FIELD_MODULUS as int)) as u64
}

/// Field multiplication.
pub open spec fn sp_mul(a: u64, b: u64) -> u64 {
    (((a as int) * (b as int)) % (FIELD_MODULUS as int)) as u64
}

pub broadcast proof fn lemma_sp_add_ok(a: u64, b: u64)
    ensures
        fe_ok(#[trigger] sp_add(a, b)),
{
    lemma_mod_bound((a as int) + (b as int), FIELD_MODULUS as int);
}

pub broadcast proof fn lemma_sp_sub_ok(a: u64, b: u64)
    ensures
        fe_ok(#[trigger] sp_sub(a, b)),
{
    lemma_mod_bound((a as int) - (b as int) + (FIELD_MODULUS as int), FIELD_MODULUS as int);
}

pub broadcast proof fn lemma_sp_mul_ok(a: u64, b: u64)
    ensures
        fe_ok(#[trigger] sp_mul(a, b)),
{
    lemma_mul_nonnegative(a as int, b as int);
    lemma_mod_bound((a as int) * (b as int), FIELD_MODULUS as int);
}

/// Reduce an arbitrary word into the field.
pub fn fe_reduce(x: u64) -> (r: u64)
    ensures
        r == sp_reduce(x),
        fe_ok(r),
{
    x % FIELD_MODULUS
}

/// Field addition on reduced elements.
pub fn fe_add(a: u64, b: u64) -> (r: u64)
    requires
        fe_ok(a),
        fe_ok(b),
    ensures
        r == sp_add(a, b),
        fe_ok(r),
{
    proof {
        lemma_sp_add_ok(a, b);
    }
    (a + b) % FIELD_MODULUS
}

/// Field subtraction on reduced elements.
pub fn fe_sub(a: u64, b: u64) -> (r: u64)
    requires
        fe_ok(a),
        fe_ok(b),
    ensures
        r == sp_sub(a, b),
        fe_ok(r),
{
    proof {
        lemma_sp_sub_ok(a, b);
    }
    (a + (FIELD_MODULUS - b)) % FIELD_MODULUS
}

/// Field multiplication on reduced elements.
pub fn fe_mul(a: u64, b: u64) -> (r: u64)
    requires
        fe_ok(a),
        fe_ok(b),
    ensures
        r == sp_mul(a, b),
        fe_ok(r),
{
    proof {
        assert((a as int) * (b as int) < 0x40000000000000000000000000000000int) by (nonlinear_arith)
            requires
                (a as int) < 0x2000000000000000int,
                0 <= a as int,
                (b as int) < 0x2000000000000000int,
                0 <= b as int;
        lemma_mul_nonnegative(a as int, b as int);
        lemma_sp_mul_ok(a, b);
    }
    let prod: u128 = (a as u128) * (b as u128);
    (prod % (FIELD_MODULUS as u128)) as u64
}

/// Adding `k` and then subtracting `k` returns a reduced element unchanged:
/// the cipher's decryption inverts its encryption exactly.
pub proof fn lemma_add_sub_cancel(x: u64, k: u64)
    requires
        fe_ok(x),
    ensures
        sp_sub(sp_add(x, k), k) == x,
{
    let p = FIELD_MODULUS as int;
    let s = ((x as int) + (k as int)) % p;
    lemma_fundamental_div_mod((x as int) + (k as int), p);
    let q = ((x as int) + (k as int)) / p;
    assert(s - (k as int) + p == p * (1 - q) + (x as int)) by {
        lemma_mul_is_distributive_add(p, 1, -q);
    }
    lemma_mod_multiples_vanish(1 - q, x as int, p);
    lemma_small_mod(x as nat, FIELD_MODULUS as nat);
}

/// Subtracting `s` from `v` and adding `s` back yields `v`: a share split
/// into a masked part and a correction recombines to the shared value.
pub proof fn lemma_sub_add_cancel(v: u64, s: u64)
    requires
        fe_ok(v),
    ensures
        sp_add(s, sp_sub(v, s)) == v,
{
    let p = FIELD_MODULUS as int;
    let d = (v as int) - (s as int) + p;
    lemma_fundamental_div_mod(d, p);
    let q = d / p;
    let r = d % p;
    assert((s as int) + r == p * (1 - q) + (v as int)) by {
        lemma_mul_is_distributive_add(p, 1, -q);
    }
    lemma_mod_multiples_vanish(1 - q, v as int, p);
    lemma_small_mod(v as nat, FIELD_MODULUS as nat);
}

/// Field addition is associative.
pub proof fn lemma_sp_add_assoc(a: u64, b: u64, c: u64)
    ensures
        sp_add(a, sp_add(b, c)) == sp_add(sp_add(a, b), c),
{
    let p = FIELD_MODULUS as int;
    lemma_add_mod_noop_right(a as int, (b as int) + (c as int), p);
    lemma_add_mod_noop_right(c as int, (a as int) + (b as int), p);
    lemma_mod_bound((b as int) + (c as int), p);
    lemma_mod_bound((a as int) + (b as int), p);
}

/// Zero is the identity of field addition on reduced elements.
pub proof fn lemma_sp_add_zero(x: u64)
    requires
        fe_ok(x),
    ensures
        sp_add(x, 0) == x,
        sp_add(0, x) == x,
{
    lemma_small_mod(x as nat, FIELD_MODULUS as nat);
}

/// Field multiplication is commutative.
pub proof fn lemma_sp_mul_comm(a: u64, b: u64)
    ensures
        sp_mul(a, b) == sp_mul(b, a),
{
    lemma_mul_is_commutative(a as int, b as int);
}

/// Field multiplication is associative.
pub proof fn lemma_sp_mul_assoc(a: u64, b: u64, c: u64)
    ensures
        sp_mul(a, sp_mul(b, c)) == sp_mul(sp_mul(a, b), c),
{
    let p = FIELD_MODULUS as int;
    let ai = a as int;
    let bi = b as int;
    let ci = c as int;
    lemma_mod_bound(bi * ci, p);
    lemma_mod_bound(ai * bi, p);
    assert(sp_mul(a, sp_mul(b, c)) as int == (ai * ((bi * ci) % p)) % p);
    lemma_mul_mod_noop_general(ai, bi * ci, p);
    assert((ai * ((bi * ci) % p)) % p == (ai * (bi * ci)) % p);
    lemma_mul_mod_noop_general(ai * bi, ci, p);
    assert((((ai * bi) % p) * ci) % p == ((ai * bi) * ci) % p);
    lemma_mul_is_associative(ai, bi, ci);
}

/// Scaling both orders of a two-sided key exchange agree: applying private
/// scalar `a` to the public value derived from `b` equals applying `b` to
/// the public value derived from `a`.
pub proof fn lemma_key_exchange_swap(a: u64, b: u64, g: u64)
    ensures
        sp_mul(a, sp_mul(b, g)) == sp_mul(b, sp_mul(a, g)),
{
    lemma_sp_mul_assoc(a, b, g);
    lemma_sp_mul_assoc(b, a, g);
    lemma_sp_mul_comm(a, b);
}

/// Field multiplication distributes over field addition.
pub proof fn lemma_sp_mul_distributes(a: u64, b: u64, c: u64)
    ensures
        sp_mul(sp_add(a, b), c) == sp_add(sp_mul(a, c), sp_mul(b, c)),
{
    let p = FIELD_MODULUS as int;
    let ai = a as int;
    let bi = b as int;
    let ci = c as int;
    lemma_mod_bound(ai + bi, p);
    lemma_mul_mod_noop_general(ai + bi, ci, p);
    assert((((ai + bi) % p) * ci) % p == ((ai + bi) * ci) % p);
    lemma_mul_is_distributive_add(ci, ai, bi);
    lemma_mul_is_commutative(ci, ai);
    lemma_mul_is_commutative(ci, bi);
    lemma_mul_is_commutative(ci, ai + bi);
    assert((ai + bi) * ci == ai * ci + bi * ci);
    lemma_add_mod_noop(ai * ci, bi * ci, p);
    assert((((ai * ci) % p) + ((bi * ci) % p)) % p == (ai * ci + bi * ci) % p);
}

/// Four summands under the field addition can be regrouped pairwise:
/// combining two element-wise share sums matches summing the combined shares.
pub proof fn lemma_sp_add_rearrange(x: u64, y: u64, z: u64, w: u64)
    ensures
        sp_add(sp_add(x, y), sp_add(z, w)) == sp_add(sp_add(x, z), sp_add(y, w)),
{
    let p = FIELD_MODULUS as int;
    lemma_add_mod_noop((x as int) + (y as int), (z as int) + (w as int), p);
    lemma_add_mod_noop((x as int) + (z as int), (y as int) + (w as int), p);
    lemma_mod_bound((x as int) + (y as int), p);
    lemma_mod_bound((z as int) + (w as int), p);
    lemma_mod_bound((x as int) + (z as int), p);
    lemma_mod_bound((y as int) + (w as int), p);
}

} // verus!
