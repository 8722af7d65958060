//! Arithmetic circuits over field elements.
//!
//! A circuit is a fixed computation graph: wires `0..num_inputs` carry the
//! inputs, and each gate appends one wire computed from two earlier wires.
//! The declared output wires are read off in order after the last gate.

use vstd::prelude::*;
use crate::field::{sp_add, sp_mul};

verus! {

/// The operation a gate applies to its two operand wires.
#[derive(Clone, Copy, PartialEq, Eq, Structural, Debug)]
pub enum GateOp {
    Add,
    Mul,
}

/// One gate: an operation over two earlier wires.
#[derive(Clone, Copy, PartialEq, Eq, Structural, Debug)]
pub struct Gate {
    pub op: GateOp,
    pub left: usize,
    pub right: usize,
}

/// An immutable, loaded description of the computation graph, shared
/// identically by all nodes.
pub struct Circuit {
    pub num_inputs: usize,
    pub gates: Vec<Gate>,
    pub outputs: Vec<usize>,
}

/// Well-formedness: every gate reads only wires that exist before it, every
/// output wire exists, and the total wire count fits the machine.
pub open spec fn circuit_wf(num_inputs: int, gates: Seq<Gate>, outputs: Seq<usize>) -> bool {
    &&& num_inputs + gates.len() <= usize::MAX
    &&& forall|j: int| 0 <= j < gates.len() ==> (#[trigger] gates[j]).left < num_inputs + j
        && gates[j].right < num_inputs + j
    &&& forall|k: int| 0 <= k < outputs.len() ==> (#[trigger] outputs[k]) < num_inputs
        + gates.len()
}

impl Circuit {
    pub open spec fn wf(self) -> bool {
        circuit_wf(self.num_inputs as int, self.gates@, self.outputs@)
    }
}

/// The value a gate produces from the wires before it.
pub open spec fn gate_val(g: Gate, wires: Seq<u64>) -> u64 {
    match g.op {
        GateOp::Add => sp_add(wires[g.left as int], wires[g.right as int]),
        GateOp::Mul => sp_mul(wires[g.left as int], wires[g.right as int]),
    }
}

/// All wire values after the first `k` gates have fired: the inputs followed
/// by one appended value per gate, in gate order.
pub open spec fn wires_after(gates: Seq<Gate>, inputs: Seq<u64>, k: int) -> Seq<u64>
    decreases k,
{
    if k <= 0 {
        inputs
    } else {
        let w = wires_after(gates, inputs, k - 1);
        w.push(gate_val(gates[k - 1], w))
    }
}

pub proof fn lemma_wires_after_len(gates: Seq<Gate>, inputs: Seq<u64>, k: int)
    requires
        0 <= k,
    ensures
        wires_after(gates, inputs, k).len() == inputs.len() + k,
    decreases k,
{
    if k > 0 {
        lemma_wires_after_len(gates, inputs, k - 1);
    }
}

/// Every wire carries a reduced field element whenever the inputs do.
pub proof fn lemma_wires_fe_ok(gates: Seq<Gate>, inputs: Seq<u64>, k: int)
    requires
        0 <= k,
        forall|i: int| 0 <= i < inputs.len() ==> crate::field::fe_ok(#[trigger] inputs[i]),
    ensures
        forall|w: int| 0 <= w < wires_after(gates, inputs, k).len() ==> crate::field::fe_ok(
            #[trigger] wires_after(gates, inputs, k)[w],
        ),
    decreases k,
{
    if k > 0 {
        lemma_wires_fe_ok(gates, inputs, k - 1);
        let w = wires_after(gates, inputs, k - 1);
        let g = gates[k - 1];
        match g.op {
            GateOp::Add => {
                crate::field::lemma_sp_add_ok(w[g.left as int], w[g.right as int]);
            },
            GateOp::Mul => {
                crate::field::lemma_sp_mul_ok(w[g.left as int], w[g.right as int]);
            },
        }
    }
}

/// The circuit's declared outputs, in declaration order, for a given input
/// sequence.
pub open spec fn spec_eval_outputs(gates: Seq<Gate>, outputs: Seq<usize>, inputs: Seq<u64>) -> Seq<
    u64,
> {
    let w = wires_after(gates, inputs, gates.len() as int);
    Seq::new(outputs.len(), |i: int| w[outputs[i] as int])
}

/// Decide whether a circuit is well-formed: the fail-fast check run before
/// any protocol round.
pub fn check_circuit(circuit: &Circuit) -> (r: bool)
    ensures
        r == circuit.wf(),
{
    let n = circuit.gates.len();
    if circuit.num_inputs > usize::MAX - n {
        return false;
    }
    for j in 0..n
        invariant
            n == circuit.gates@.len(),
            circuit.num_inputs + n <= usize::MAX,
            forall|k: int| 0 <= k < j ==> (#[trigger] circuit.gates@[k]).left < circuit.num_inputs
                + k && circuit.gates@[k].right < circuit.num_inputs + k,
    {
        let g = circuit.gates[j];
        if g.left >= circuit.num_inputs + j || g.right >= circuit.num_inputs + j {
            return false;
        }
    }
    let m = circuit.outputs.len();
    for k in 0..m
        invariant
            n == circuit.gates@.len(),
            m == circuit.outputs@.len(),
            circuit.num_inputs + n <= usize::MAX,
            forall|j: int| 0 <= j < n ==> (#[trigger] circuit.gates@[j]).left < circuit.num_inputs
                + j && circuit.gates@[j].right < circuit.num_inputs + j,
            forall|i: int| 0 <= i < k ==> (#[trigger] circuit.outputs@[i]) < circuit.num_inputs
                + n,
    {
        if circuit.outputs[k] >= circuit.num_inputs + n {
            return false;
        }
    }
    true
}

} // verus!
