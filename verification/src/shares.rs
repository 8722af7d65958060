//! Additive secret sharing over the field.
//!
//! A value is split into shares that sum to it modulo the field order; only
//! the full set of shares reconstructs the value. Share randomness is drawn
//! deterministically from the session identifier and round number, so a
//! fixed configuration reproduces the same shares.

use vstd::prelude::*;
use crate::field::{
    fe_ok, sp_add, sp_sub, fe_add, fe_sub, fe_reduce,
    lemma_sp_add_ok, lemma_sp_add_assoc, lemma_sp_add_zero, lemma_sub_add_cancel,
    lemma_sp_add_rearrange,
};
use crate::cipher::{keystream_at, keystream_elem};

verus! {

/// The field sum of a sequence of machine words.
pub open spec fn seq_sum(s: Seq<u64>) -> u64
    decreases s.len(),
{
    if s.len() == 0 {
        0u64
    } else {
        sp_add(seq_sum(s.drop_last()), s.last())
    }
}

pub proof fn lemma_seq_sum_push(s: Seq<u64>, x: u64)
    ensures
        seq_sum(s.push(x)) == sp_add(seq_sum(s), x),
{
    assert(s.push(x).drop_last() =~= s);
}

pub proof fn lemma_seq_sum_fe_ok(s: Seq<u64>)
    ensures
        fe_ok(seq_sum(s)),
    decreases s.len(),
{
    if s.len() > 0 {
        lemma_sp_add_ok(seq_sum(s.drop_last()), s.last());
    }
}

/// Law: combining share batches is order-independent — the sum of a
/// concatenation is the field sum of the parts' sums, so the two arrival
/// orders of two batches combine to the same value.
pub proof fn lemma_seq_sum_concat(a: Seq<u64>, b: Seq<u64>)
    ensures
        seq_sum(a + b) == sp_add(seq_sum(a), seq_sum(b)),
        seq_sum(a + b) == seq_sum(b + a),
    decreases b.len(),
{
    if b.len() == 0 {
        assert(a + b =~= a);
        assert(b + a =~= a);
        lemma_seq_sum_fe_ok(a);
        lemma_sp_add_zero(seq_sum(a));
    } else {
        lemma_seq_sum_concat(a, b.drop_last());
        assert((a + b).drop_last() =~= a + b.drop_last());
        assert((a + b).last() == b.last());
        lemma_sp_add_assoc(seq_sum(a), seq_sum(b.drop_last()), b.last());
        let c = b + a;
        lemma_concat_sum_swap(a, b);
    }
}

proof fn lemma_concat_sum_swap(a: Seq<u64>, b: Seq<u64>)
    ensures
        seq_sum(b + a) == sp_add(seq_sum(a), seq_sum(b)),
    decreases a.len(),
{
    if a.len() == 0 {
        assert(b + a =~= b);
        lemma_seq_sum_fe_ok(b);
        lemma_sp_add_zero(seq_sum(b));
    } else {
        lemma_concat_sum_swap(a.drop_last(), b);
        assert((b + a).drop_last() =~= b + a.drop_last());
        assert((b + a).last() == a.last());
        lemma_sp_add_assoc(seq_sum(a.drop_last()), seq_sum(b), a.last());
        lemma_sp_add_assoc(seq_sum(a.drop_last()), a.last(), seq_sum(b));
    }
}

/// The deterministic masking element for node `i` in a given session round.
pub open spec fn noise_at(session_id: u64, round: u64, i: int) -> u64 {
    keystream_at(crate::field::sp_reduce(session_id), crate::field::sp_reduce(round), i)
}

/// Compute the masking element for node `i` in a given session round.
pub fn noise_elem(session_id: u64, round: u64, i: usize) -> (r: u64)
    requires
        (i as u64) < u64::MAX,
    ensures
        r == noise_at(session_id, round, i as int),
        fe_ok(r),
{
    keystream_elem(fe_reduce(session_id), fe_reduce(round), i as u64)
}

/// The shares a value is split into: deterministic masks for all nodes but
/// the last, and a correction share that makes the field sum equal the value.
pub open spec fn spec_make_shares(value: u64, count: int, session_id: u64, round: u64) -> Seq<u64> {
    let noise = Seq::new((count - 1) as nat, |i: int| noise_at(session_id, round, i));
    noise.push(sp_sub(value, seq_sum(noise)))
}

/// Split `value` into `count` additive shares whose field sum is `value`.
pub fn make_shares(value: u64, count: usize, session_id: u64, round: u64) -> (r: Vec<u64>)
    requires
        fe_ok(value),
        count >= 1,
    ensures
        r@ == spec_make_shares(value, count as int, session_id, round),
        r@.len() == count as nat,
        forall|i: int| 0 <= i < r@.len() ==> fe_ok(#[trigger] r@[i]),
        seq_sum(r@) == value,
{
    let ghost gn = Seq::new((count - 1) as nat, |i: int| noise_at(session_id, round, i));
    let mut out: Vec<u64> = Vec::new();
    let mut acc: u64 = 0;
    let n = count - 1;
    proof {
        assert(out@ =~= gn.take(0));
    }
    for i in 0..n
        invariant
            n == count - 1,
            gn.len() == n as nat,
            gn == Seq::new((count - 1) as nat, |j: int| noise_at(session_id, round, j)),
            out@ == gn.take(i as int),
            acc == seq_sum(out@),
            fe_ok(acc),
            forall|j: int| 0 <= j < out@.len() ==> fe_ok(#[trigger] out@[j]),
    {
        let e = noise_elem(session_id, round, i);
        proof {
            lemma_seq_sum_push(out@, e);
            assert(gn.take(i + 1) =~= gn.take(i as int).push(gn[i as int]));
        }
        acc = fe_add(acc, e);
        out.push(e);
    }
    proof {
        assert(gn.take(n as int) =~= gn);
    }
    let last = fe_sub(value, acc);
    proof {
        lemma_seq_sum_push(out@, last);
        lemma_sub_add_cancel(value, acc);
    }
    out.push(last);
    out
}

/// Split every element of a batch into `count` additive shares, one share
/// vector per element, using the element's position as the round tag.
pub fn share_vector(values: &Vec<u64>, count: usize, session_id: u64) -> (r: Vec<Vec<u64>>)
    requires
        count >= 1,
        (values@.len() as int) <= u64::MAX,
        forall|i: int| 0 <= i < values@.len() ==> fe_ok(#[trigger] values@[i]),
    ensures
        r@.len() == values@.len(),
        forall|w: int| 0 <= w < r@.len() ==> (#[trigger] r@[w])@.len() == count,
        forall|w: int, i: int| 0 <= w < r@.len() && 0 <= i < count ==> fe_ok(
            #[trigger] r@[w]@[i],
        ),
        forall|w: int| 0 <= w < r@.len() ==> seq_sum((#[trigger] r@[w])@) == values@[w],
{
    let mut out: Vec<Vec<u64>> = Vec::new();
    let n = values.len();
    for j in 0..n
        invariant
            n == values@.len(),
            n as int <= u64::MAX,
            count >= 1,
            forall|i: int| 0 <= i < values@.len() ==> fe_ok(#[trigger] values@[i]),
            out@.len() == j,
            forall|w: int| 0 <= w < j ==> (#[trigger] out@[w])@.len() == count,
            forall|w: int, i: int| 0 <= w < j && 0 <= i < count ==> fe_ok(
                #[trigger] out@[w]@[i],
            ),
            forall|w: int| 0 <= w < j ==> seq_sum((#[trigger] out@[w])@) == values@[w],
    {
        out.push(make_shares(values[j], count, session_id, j as u64));
    }
    out
}

/// Reconstruct a shared value: the field sum of all its shares.
pub fn reconstruct(shares: &Vec<u64>) -> (r: u64)
    requires
        forall|i: int| 0 <= i < shares@.len() ==> fe_ok(#[trigger] shares@[i]),
    ensures
        r == seq_sum(shares@),
        fe_ok(r),
{
    let mut acc: u64 = 0;
    let n = shares.len();
    proof {
        assert(shares@.take(0) =~= Seq::<u64>::empty());
    }
    for i in 0..n
        invariant
            n == shares@.len(),
            forall|j: int| 0 <= j < shares@.len() ==> fe_ok(#[trigger] shares@[j]),
            acc == seq_sum(shares@.take(i as int)),
            fe_ok(acc),
    {
        proof {
            lemma_seq_sum_push(shares@.take(i as int), shares@[i as int]);
            assert(shares@.take(i + 1) =~= shares@.take(i as int).push(shares@[i as int]));
        }
        acc = fe_add(acc, shares[i]);
    }
    proof {
        assert(shares@.take(n as int) =~= shares@);
    }
    acc
}

/// Element-wise field addition of two share vectors: the local step of an
/// addition gate. The sum of the result shares is the field sum of the two
/// operands' share sums.
pub fn add_share_vectors(a: &Vec<u64>, b: &Vec<u64>) -> (r: Vec<u64>)
    requires
        a@.len() == b@.len(),
        forall|i: int| 0 <= i < a@.len() ==> fe_ok(#[trigger] a@[i]),
        forall|i: int| 0 <= i < b@.len() ==> fe_ok(#[trigger] b@[i]),
    ensures
        r@.len() == a@.len(),
        forall|i: int| 0 <= i < r@.len() ==> r@[i] == sp_add(a@[i], b@[i]),
        forall|i: int| 0 <= i < r@.len() ==> fe_ok(#[trigger] r@[i]),
        seq_sum(r@) == sp_add(seq_sum(a@), seq_sum(b@)),
{
    let mut out: Vec<u64> = Vec::new();
    let n = a.len();
    proof {
        assert(a@.take(0) =~= Seq::<u64>::empty());
        assert(b@.take(0) =~= Seq::<u64>::empty());
        assert(sp_add(0u64, 0u64) == 0u64) by {
            lemma_sp_add_zero(0u64);
        }
    }
    for i in 0..n
        invariant
            n == a@.len(),
            a@.len() == b@.len(),
            forall|j: int| 0 <= j < a@.len() ==> fe_ok(#[trigger] a@[j]),
            forall|j: int| 0 <= j < b@.len() ==> fe_ok(#[trigger] b@[j]),
            out@.len() == i,
            forall|j: int| 0 <= j < i ==> out@[j] == sp_add(a@[j], b@[j]),
            forall|j: int| 0 <= j < i ==> fe_ok(#[trigger] out@[j]),
            seq_sum(out@) == sp_add(seq_sum(a@.take(i as int)), seq_sum(b@.take(i as int))),
    {
        let e = fe_add(a[i], b[i]);
        proof {
            lemma_seq_sum_push(out@, e);
            lemma_seq_sum_push(a@.take(i as int), a@[i as int]);
            lemma_seq_sum_push(b@.take(i as int), b@[i as int]);
            assert(a@.take(i + 1) =~= a@.take(i as int).push(a@[i as int]));
            assert(b@.take(i + 1) =~= b@.take(i as int).push(b@[i as int]));
            lemma_sp_add_rearrange(
                seq_sum(a@.take(i as int)),
                seq_sum(b@.take(i as int)),
                a@[i as int],
                b@[i as int],
            );
        }
        out.push(e);
    }
    proof {
        assert(a@.take(n as int) =~= a@);
        assert(b@.take(n as int) =~= b@);
    }
    out
}

} // verus!
