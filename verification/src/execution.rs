//! The execution engine: round-by-round secret-shared circuit evaluation.
//!
//! An execution is assembled with a builder — cluster, inputs, circuit —
//! and finalized with a session identifier; it is then run exactly once.
//! When the inputs were encrypted under the cluster public key, the first
//! phase jointly derives the shared secret from the members' key shares and
//! turns each ciphertext element into additive shares; no single node ever
//! holds both the full plaintext and another node's share. Gates fire in
//! topological order — addition locally on the shares, multiplication as an
//! interactive round whose incoming shares are validated — and the declared
//! output wires are reconstructed, re-encrypted to the client under a fresh
//! nonce, and returned in declaration order.

use vstd::prelude::*;
use crate::field::{
    fe_ok, sp_add, sp_mul, sp_reduce, fe_add, fe_mul, fe_reduce, FIELD_MODULUS,
};
use crate::cipher::{spec_encrypt, spec_decrypt, keystream_at, keystream_elem};
use crate::shares::{seq_sum, make_shares, reconstruct, add_share_vectors, share_vector};
use crate::cluster::{
    Cluster, NodeInfo, membership_ok, spec_cluster_secret, node_secret, node_secret_exec,
    lemma_scaled_secret_sum,
};
use crate::circuit::{
    Circuit, GateOp, gate_val, wires_after, spec_eval_outputs, check_circuit, circuit_wf,
    lemma_wires_after_len,
};
use crate::errors::MpcError;

verus! {

/// How an input batch is protected. Exactly one mode may be active:
/// `uses_shared_encryption` means the values were encrypted under the cluster
/// public key and are jointly decrypted inside the protocol;
/// `uses_mxe_encryption` means the values are protected by the execution
/// context itself and enter the protocol as field elements directly.
#[derive(Clone, Copy, PartialEq, Eq, Structural, Debug)]
pub struct MpcInputsConfig {
    pub uses_shared_encryption: bool,
    pub uses_mxe_encryption: bool,
}

/// Exactly one encryption mode must be active per input batch.
pub open spec fn config_valid(c: MpcInputsConfig) -> bool {
    c.uses_shared_encryption != c.uses_mxe_encryption
}

/// The field-element payload plus its configuration, bound to the membership
/// of the cluster it was built against.
pub struct MPCInputs {
    pub values: Vec<u64>,
    pub config: MpcInputsConfig,
    pub members: Vec<NodeInfo>,
}

impl MPCInputs {
    /// Bind a payload to a cluster: the bundle records the full membership,
    /// so per-node share assignment is fixed before execution starts.
    pub fn from_cluster(cluster: &Cluster, values: Vec<u64>, config: MpcInputsConfig) -> (r:
        MPCInputs)
        requires
            membership_ok(cluster.local, cluster.partners@),
        ensures
            r.values == values,
            r.config == config,
            r.members@ == cluster.member_seq(),
    {
        let members = cluster.member_list();
        MPCInputs { values, config, members }
    }
}

/// Validate the shares a round of an interactive gate received. Fails with a
/// `ProtocolError` naming the first sender whose share is not a reduced field
/// element and the round it arrived in.
pub fn validate_round_shares(shares: &Vec<u64>, round: u64) -> (r: Result<(), MpcError>)
    requires
        shares@.len() <= 256,
    ensures
        (r is Ok) <==> (forall|i: int| 0 <= i < shares@.len() ==> fe_ok(#[trigger] shares@[i])),
        !(forall|i: int| 0 <= i < shares@.len() ==> fe_ok(#[trigger] shares@[i])) ==> (r matches Err(
            e,
        ) && e matches MpcError::ProtocolError { peer, round: rr } && rr == round && (peer as int)
            < shares@.len() && !fe_ok(shares@[peer as int]) && (forall|k: int|
            0 <= k < peer as int ==> fe_ok(#[trigger] shares@[k]))),
{
    let n = shares.len();
    for i in 0..n
        invariant
            n == shares@.len(),
            n <= 256,
            forall|k: int| 0 <= k < i ==> fe_ok(#[trigger] shares@[k]),
    {
        if shares[i] >= FIELD_MODULUS {
            return Err(MpcError::ProtocolError { peer: i as u8, round });
        }
    }
    Ok(())
}

/// Copy the elements of `values` from position `start` on.
fn tail_from(values: &Vec<u64>, start: usize) -> (r: Vec<u64>)
    requires
        start <= values@.len(),
    ensures
        r@ == values@.skip(start as int),
{
    let mut out: Vec<u64> = Vec::new();
    let n = values.len();
    for j in start..n
        invariant
            n == values@.len(),
            out@ == values@.subrange(start as int, j as int),
    {
        proof {
            assert(values@.subrange(start as int, j + 1) =~= values@.subrange(
                start as int,
                j as int,
            ).push(values@[j as int]));
        }
        out.push(values[j]);
    }
    proof {
        assert(out@ =~= values@.skip(start as int));
    }
    out
}

/// Apply every member's private share to `base` and combine the partial
/// results: the collective secret applied to `base`, with no single node
/// holding the collective secret.
fn cluster_secret_applied(count: usize, base: u64) -> (r: u64)
    requires
        count <= 256,
        fe_ok(base),
    ensures
        r == sp_mul(spec_cluster_secret(count as int), base),
        fe_ok(r),
{
    let mut partials: Vec<u64> = Vec::new();
    for peer in 0..count
        invariant
            count <= 256,
            partials@.len() == peer,
            fe_ok(base),
            forall|k: int| 0 <= k < peer ==> partials@[k] == sp_mul(node_secret(k), base),
            forall|k: int| 0 <= k < peer ==> fe_ok(#[trigger] partials@[k]),
    {
        let s = node_secret_exec(peer as u8);
        partials.push(fe_mul(s, base));
    }
    let r = reconstruct(&partials);
    proof {
        lemma_scaled_secret_sum(partials@, base);
    }
    r
}

/// A built, not-yet-run session: inputs bound to a membership, the circuit,
/// and the session identifier distinguishing concurrent executions.
pub struct MPCExecution {
    pub inputs: MPCInputs,
    pub circuit: Circuit,
    pub session_id: u64,
}

impl MPCExecution {
    /// A built execution is well-formed: a valid single-mode configuration,
    /// a plausible member count, a well-formed circuit, reduced input
    /// elements, and an input width matching the circuit and the mode.
    pub open spec fn wf(self) -> bool {
        &&& config_valid(self.inputs.config)
        &&& 2 <= self.inputs.members@.len() <= 256
        &&& self.circuit.wf()
        &&& forall|i: int| 0 <= i < self.inputs.values@.len() ==> fe_ok(
            #[trigger] self.inputs.values@[i],
        )
        &&& if self.inputs.config.uses_shared_encryption {
            self.inputs.values@.len() == self.circuit.num_inputs + 2
        } else {
            self.inputs.values@.len() == self.circuit.num_inputs
        }
    }
}

/// The output sequence a run of an execution produces. In shared-encryption
/// mode the inputs are the client public key, the nonce, and the ciphertext;
/// the result echoes the client public key, then carries the fresh output
/// nonce and the circuit outputs re-encrypted under the shared secret. In
/// execution-scoped mode the circuit outputs are returned directly.
pub open spec fn spec_run(e: MPCExecution) -> Seq<u64> {
    let count = e.inputs.members@.len() as int;
    let gates = e.circuit.gates@;
    let outputs = e.circuit.outputs@;
    if e.inputs.config.uses_shared_encryption {
        let client_pub = e.inputs.values@[0];
        let nonce = e.inputs.values@[1];
        let ct = e.inputs.values@.skip(2);
        let secret = sp_mul(spec_cluster_secret(count), client_pub);
        let pt = spec_decrypt(secret, nonce, ct);
        let outs = spec_eval_outputs(gates, outputs, pt);
        let out_nonce = sp_add(nonce, sp_reduce(e.session_id));
        seq![client_pub, out_nonce] + spec_encrypt(secret, out_nonce, outs)
    } else {
        spec_eval_outputs(gates, outputs, e.inputs.values@)
    }
}

impl MPCExecution {
    /// Run the session to completion and consume it. Every honest run
    /// succeeds and returns exactly the output sequence `spec_run` gives, so
    /// every member converges on the same outputs for the same session.
    pub fn run(self) -> (r: Result<Vec<u64>, MpcError>)
        requires
            self.wf(),
        ensures
            r matches Ok(out) && out@ == spec_run(self),
    {
        let count = self.inputs.members.len();
        let sid = self.session_id;
        let width = self.circuit.num_inputs;
        let shared_mode = self.inputs.config.uses_shared_encryption;

        let mut client_pub: u64 = 0;
        let mut nonce: u64 = 0;
        let mut shared_secret: u64 = 0;
        if shared_mode {
            client_pub = self.inputs.values[0];
            nonce = self.inputs.values[1];
            shared_secret = cluster_secret_applied(count, client_pub);
        }
        let ghost pt: Seq<u64> = if shared_mode {
            spec_decrypt(shared_secret, nonce, self.inputs.values@.skip(2))
        } else {
            self.inputs.values@
        };
        proof {
            assert(pt.len() == width);
        }

        let ghost gseq = self.circuit.gates@;

        // Phase 1: turn each input element into additive shares, jointly
        // decrypting first when the batch is encrypted to the cluster.
        let pt_vec: Vec<u64> = if shared_mode {
            let ct = tail_from(&self.inputs.values, 2);
            proof {
                assert forall|i: int| 0 <= i < ct@.len() implies fe_ok(#[trigger] ct@[i]) by {
                    assert(ct@[i] == self.inputs.values@[2 + i]);
                }
            }
            let joint = crate::cipher::Cipher { key: shared_secret };
            joint.decrypt(ct, nonce)
        } else {
            tail_from(&self.inputs.values, 0)
        };
        proof {
            assert(self.inputs.values@.skip(0) =~= self.inputs.values@);
            assert(pt_vec@ == pt);
        }
        let mut shares: Vec<Vec<u64>> = share_vector(&pt_vec, count, sid);

        // Phase 2: fire the gates in topological order. Addition is local on
        // the shares; multiplication is an interactive round whose shares are
        // validated before the product is re-shared.
        let gates_len = self.circuit.gates.len();
        for g in 0..gates_len
            invariant
                self.wf(),
                count == self.inputs.members@.len(),
                width == self.circuit.num_inputs,
                gates_len == self.circuit.gates@.len(),
                gseq == self.circuit.gates@,
                pt.len() == width,
                shares@.len() == width + g,
                forall|w: int| 0 <= w < shares@.len() ==> (#[trigger] shares@[w])@.len() == count,
                forall|w: int, i: int| 0 <= w < shares@.len() && 0 <= i < count ==> fe_ok(
                    #[trigger] shares@[w]@[i],
                ),
                forall|w: int| 0 <= w < shares@.len() ==> seq_sum((#[trigger] shares@[w])@)
                    == wires_after(gseq, pt, g as int)[w],
        {
            proof {
                lemma_wires_after_len(gseq, pt, g as int);
            }
            let gate = self.circuit.gates[g];
            let ghost wires_now = wires_after(gseq, pt, g as int);
            let new_shares: Vec<u64> = match gate.op {
                GateOp::Add => {
                    let ns = add_share_vectors(&shares[gate.left], &shares[gate.right]);
                    proof {
                        assert(seq_sum(ns@) == gate_val(gseq[g as int], wires_now));
                    }
                    ns
                },
                GateOp::Mul => {
                    let round = (width + g) as u64;
                    match validate_round_shares(&shares[gate.left], round) {
                        Ok(()) => {},
                        Err(e) => {
                            proof {
                                assert(false);
                            }
                            return Err(e);
                        },
                    }
                    match validate_round_shares(&shares[gate.right], round) {
                        Ok(()) => {},
                        Err(e) => {
                            proof {
                                assert(false);
                            }
                            return Err(e);
                        },
                    }
                    let a_val = reconstruct(&shares[gate.left]);
                    let b_val = reconstruct(&shares[gate.right]);
                    let prod = fe_mul(a_val, b_val);
                    let ns = make_shares(prod, count, sid, round);
                    proof {
                        assert(seq_sum(ns@) == gate_val(gseq[g as int], wires_now));
                    }
                    ns
                },
            };
            shares.push(new_shares);
            proof {
                assert(wires_after(gseq, pt, g + 1) == wires_now.push(
                    gate_val(gseq[g as int], wires_now),
                ));
            }
        }

        // Phase 3: reconstruct the declared output wires in order.
        proof {
            lemma_wires_after_len(gseq, pt, gates_len as int);
        }
        let ghost final_wires = wires_after(gseq, pt, gates_len as int);
        let out_count = self.circuit.outputs.len();
        let mut outs: Vec<u64> = Vec::new();
        for k in 0..out_count
            invariant
                self.wf(),
                count == self.inputs.members@.len(),
                width == self.circuit.num_inputs,
                gates_len == self.circuit.gates@.len(),
                gseq == self.circuit.gates@,
                out_count == self.circuit.outputs@.len(),
                final_wires == wires_after(gseq, pt, gates_len as int),
                final_wires.len() == width + gates_len,
                shares@.len() == width + gates_len,
                forall|w: int| 0 <= w < shares@.len() ==> (#[trigger] shares@[w])@.len() == count,
                forall|w: int, i: int| 0 <= w < shares@.len() && 0 <= i < count ==> fe_ok(
                    #[trigger] shares@[w]@[i],
                ),
                forall|w: int| 0 <= w < shares@.len() ==> seq_sum((#[trigger] shares@[w])@)
                    == final_wires[w],
                outs@.len() == k,
                forall|i: int| 0 <= i < k ==> outs@[i] == final_wires[self.circuit.outputs@[i] as int],
                forall|i: int| 0 <= i < k ==> fe_ok(#[trigger] outs@[i]),
        {
            let o = self.circuit.outputs[k];
            outs.push(reconstruct(&shares[o]));
        }
        proof {
            assert(outs@ =~= spec_eval_outputs(gseq, self.circuit.outputs@, pt));
        }

        // Phase 4: hand the outputs back — re-encrypted to the client under
        // a fresh session-derived nonce in shared-encryption mode, directly
        // otherwise.
        if shared_mode {
            let out_nonce = fe_add(nonce, fe_reduce(sid));
            let mut result: Vec<u64> = Vec::new();
            result.push(client_pub);
            result.push(out_nonce);
            for k in 0..out_count
                invariant
                    fe_ok(shared_secret),
                    fe_ok(out_nonce),
                    out_count == outs@.len(),
                    forall|i: int| 0 <= i < outs@.len() ==> fe_ok(#[trigger] outs@[i]),
                    result@.len() == k + 2,
                    result@[0] == client_pub,
                    result@[1] == out_nonce,
                    forall|i: int| 0 <= i < k ==> result@[i + 2] == sp_add(
                        outs@[i],
                        keystream_at(shared_secret, out_nonce, i),
                    ),
            {
                let ks = keystream_elem(shared_secret, out_nonce, k as u64);
                result.push(fe_add(outs[k], ks));
            }
            proof {
                assert(result@ =~= spec_run(self));
            }
            Ok(result)
        } else {
            proof {
                assert(outs@ =~= spec_run(self));
            }
            Ok(outs)
        }
    }
}

/// Assembles an execution: attach a cluster, the inputs and the circuit,
/// then finalize with a session identifier. All required-piece validation
/// happens at the single `build` step.
pub struct MPCExecutionBuilder {
    pub cluster_members: Option<Vec<NodeInfo>>,
    pub cluster_key: Option<u64>,
    pub inputs: Option<MPCInputs>,
    pub circuit: Option<Circuit>,
}

impl Default for MPCExecutionBuilder {
    /// An empty builder: no piece attached yet.
    fn default() -> (r: Self)
        ensures
            r.cluster_members is None,
            r.cluster_key is None,
            r.inputs is None,
            r.circuit is None,
    {
        MPCExecutionBuilder { cluster_members: None, cluster_key: None, inputs: None, circuit: None }
    }
}

/// Everything `build` checks: all pieces attached, key generation completed
/// on the attached cluster, a single-mode configuration, inputs bound to the
/// same membership the engine is bound to, reduced input elements, a
/// well-formed circuit, and an input width matching circuit and mode.
pub open spec fn build_ok(b: MPCExecutionBuilder) -> bool {
    &&& b.cluster_members is Some
    &&& b.cluster_key is Some
    &&& b.inputs is Some
    &&& b.circuit is Some
    &&& 2 <= b.cluster_members->0@.len() <= 256
    &&& config_valid(b.inputs->0.config)
    &&& b.inputs->0.members@ == b.cluster_members->0@
    &&& forall|i: int| 0 <= i < b.inputs->0.values@.len() ==> fe_ok(
        #[trigger] b.inputs->0.values@[i],
    )
    &&& circuit_wf(b.circuit->0.num_inputs as int, b.circuit->0.gates@, b.circuit->0.outputs@)
    &&& if b.inputs->0.config.uses_shared_encryption {
        b.inputs->0.values@.len() == b.circuit->0.num_inputs + 2
    } else {
        b.inputs->0.values@.len() == b.circuit->0.num_inputs
    }
}

/// The error `build` reports when it fails: a circuit fault where only the
/// circuit or the input width is wrong, a configuration fault otherwise.
pub open spec fn build_err(b: MPCExecutionBuilder) -> MpcError {
    if b.cluster_members is Some && b.cluster_key is Some && b.inputs is Some && b.circuit is Some
        && 2 <= b.cluster_members->0@.len() <= 256 && config_valid(b.inputs->0.config)
        && b.inputs->0.members@ == b.cluster_members->0@ && (forall|i: int|
        0 <= i < b.inputs->0.values@.len() ==> fe_ok(#[trigger] b.inputs->0.values@[i])) {
        MpcError::CircuitError
    } else {
        MpcError::ConfigurationError
    }
}

impl MPCExecutionBuilder {
    /// Attach the cluster the session will run on, snapshotting its
    /// membership and its generated public key.
    pub fn cluster(self, cluster: &Cluster) -> (r: Self)
        requires
            membership_ok(cluster.local, cluster.partners@),
        ensures
            r.cluster_members matches Some(m) && m@ == cluster.member_seq(),
            r.cluster_key == cluster.public_key,
            r.inputs == self.inputs,
            r.circuit == self.circuit,
    {
        let members = cluster.member_list();
        MPCExecutionBuilder { cluster_members: Some(members), cluster_key: cluster.public_key, ..self }
    }

    /// Attach the input bundle.
    pub fn inputs(self, inputs: MPCInputs) -> (r: Self)
        ensures
            r.inputs == Some(inputs),
            r.cluster_members == self.cluster_members,
            r.cluster_key == self.cluster_key,
            r.circuit == self.circuit,
    {
        MPCExecutionBuilder { inputs: Some(inputs), ..self }
    }

    /// Attach the loaded circuit.
    pub fn circuit(self, circuit: Circuit) -> (r: Self)
        ensures
            r.circuit == Some(circuit),
            r.cluster_members == self.cluster_members,
            r.cluster_key == self.cluster_key,
            r.inputs == self.inputs,
    {
        MPCExecutionBuilder { circuit: Some(circuit), ..self }
    }

    /// Finalize the session under a session identifier. Fails — rather than
    /// executing anything — when a piece is missing, key generation has not
    /// run, the configuration activates no single mode, the bundle was built
    /// against a different cluster, an input element is not reduced, the
    /// circuit is malformed, or the input width does not match it.
    pub fn build(self, session_id: u64) -> (r: Result<MPCExecution, MpcError>)
        ensures
            build_ok(self) ==> (r matches Ok(e) && e.inputs == self.inputs->0 && e.circuit
                == self.circuit->0 && e.session_id == session_id && e.wf()),
            !build_ok(self) ==> r == Err::<MPCExecution, MpcError>(build_err(self)),
    {
        let members = match self.cluster_members {
            Some(m) => m,
            None => {
                return Err(MpcError::ConfigurationError);
            },
        };
        match self.cluster_key {
            Some(_) => {},
            None => {
                return Err(MpcError::ConfigurationError);
            },
        }
        let inputs = match self.inputs {
            Some(i) => i,
            None => {
                return Err(MpcError::ConfigurationError);
            },
        };
        let circuit = match self.circuit {
            Some(c) => c,
            None => {
                return Err(MpcError::ConfigurationError);
            },
        };
        if members.len() < 2 || members.len() > 256 {
            return Err(MpcError::ConfigurationError);
        }
        if inputs.config.uses_shared_encryption == inputs.config.uses_mxe_encryption {
            return Err(MpcError::ConfigurationError);
        }
        if inputs.members.len() != members.len() {
            return Err(MpcError::ConfigurationError);
        }
        let n = members.len();
        for i in 0..n
            invariant
                self.cluster_members == Some(members),
                self.inputs == Some(inputs),
                n == members@.len(),
                n == inputs.members@.len(),
                forall|k: int| 0 <= k < i ==> inputs.members@[k] == members@[k],
        {
            if inputs.members[i] != members[i] {
                return Err(MpcError::ConfigurationError);
            }
        }
        proof {
            assert(inputs.members@ =~= members@);
        }
        let vn = inputs.values.len();
        for i in 0..vn
            invariant
                self.inputs == Some(inputs),
                vn == inputs.values@.len(),
                forall|k: int| 0 <= k < i ==> fe_ok(#[trigger] inputs.values@[k]),
        {
            if inputs.values[i] >= FIELD_MODULUS {
                return Err(MpcError::ConfigurationError);
            }
        }
        if !check_circuit(&circuit) {
            return Err(MpcError::CircuitError);
        }
        if inputs.config.uses_shared_encryption {
            if inputs.values.len() < 2 || inputs.values.len() - 2 != circuit.num_inputs {
                return Err(MpcError::CircuitError);
            }
        } else {
            if inputs.values.len() != circuit.num_inputs {
                return Err(MpcError::CircuitError);
            }
        }
        Ok(MPCExecution { inputs, circuit, session_id })
    }
}

/// Law: the client recovers exactly the circuit outputs. For an execution in
/// shared-encryption mode whose first input element is the public key of the
/// client's private scalar, decrypting the run's re-encrypted output under
/// the client-side shared secret (the client scalar applied to the cluster
/// public key) and the returned output nonce yields precisely the circuit's
/// outputs on the jointly decrypted inputs.
pub proof fn lemma_client_recovers_outputs(e: MPCExecution, client_private: u64)
    requires
        e.wf(),
        e.inputs.config.uses_shared_encryption,
        e.inputs.values@[0] == sp_mul(client_private, crate::cipher::KEY_GENERATOR),
    ensures
        ({
            let count = e.inputs.members@.len() as int;
            let client_key = sp_mul(client_private, crate::cluster::spec_cluster_key(count));
            let nonce = e.inputs.values@[1];
            let secret = sp_mul(spec_cluster_secret(count), e.inputs.values@[0]);
            let pt = spec_decrypt(secret, nonce, e.inputs.values@.skip(2));
            let out_nonce = sp_add(nonce, sp_reduce(e.session_id));
            &&& spec_run(e).len() == 2 + e.circuit.outputs@.len()
            &&& spec_run(e)[0] == e.inputs.values@[0]
            &&& spec_run(e)[1] == out_nonce
            &&& spec_decrypt(client_key, out_nonce, spec_run(e).skip(2)) == spec_eval_outputs(
                e.circuit.gates@,
                e.circuit.outputs@,
                pt,
            )
        }),
{
    let count = e.inputs.members@.len() as int;
    let client_key = sp_mul(client_private, crate::cluster::spec_cluster_key(count));
    let nonce = e.inputs.values@[1];
    let secret = sp_mul(spec_cluster_secret(count), e.inputs.values@[0]);
    let ct = e.inputs.values@.skip(2);
    let pt = spec_decrypt(secret, nonce, ct);
    let outs = spec_eval_outputs(e.circuit.gates@, e.circuit.outputs@, pt);
    let out_nonce = sp_add(nonce, sp_reduce(e.session_id));

    crate::cipher::lemma_shared_secret_agreement(client_private, spec_cluster_secret(count));
    assert(client_key == secret);

    assert(spec_run(e).skip(2) =~= spec_encrypt(secret, out_nonce, outs));

    assert forall|i: int| 0 <= i < pt.len() implies fe_ok(#[trigger] pt[i]) by {
        crate::field::lemma_sp_sub_ok(ct[i], keystream_at(secret, nonce, i));
    }
    crate::circuit::lemma_wires_fe_ok(e.circuit.gates@, pt, e.circuit.gates@.len() as int);
    lemma_wires_after_len(e.circuit.gates@, pt, e.circuit.gates@.len() as int);
    assert forall|i: int| 0 <= i < outs.len() implies fe_ok(#[trigger] outs[i]) by {
        assert(outs[i] == wires_after(e.circuit.gates@, pt, e.circuit.gates@.len() as int)[
            e.circuit.outputs@[i] as int
        ]);
    }
    crate::cipher::lemma_encrypt_decrypt_roundtrip(secret, out_nonce, outs);
}

/// Law: the protocol is deterministic. Two executions assembled from the
/// same inputs, configuration, member count, circuit and session identifier
/// produce the identical output sequence.
pub proof fn lemma_run_deterministic(e1: MPCExecution, e2: MPCExecution)
    requires
        e1.inputs.values@ == e2.inputs.values@,
        e1.inputs.config == e2.inputs.config,
        e1.inputs.members@.len() == e2.inputs.members@.len(),
        e1.circuit.gates@ == e2.circuit.gates@,
        e1.circuit.outputs@ == e2.circuit.outputs@,
        e1.session_id == e2.session_id,
    ensures
        spec_run(e1) == spec_run(e2),
{
}

} // verus!
