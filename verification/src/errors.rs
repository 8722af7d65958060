//! The error taxonomy of the engine.

use vstd::prelude::*;

verus! {

/// Why a cluster operation, a key-generation run, or an execution failed.
///
/// `ConfigurationError`: duplicate or non-contiguous peer numbers, conflicting
/// encryption-mode flags, or a bundle bound to a different cluster.
/// `ConnectivityError`: a member is unreachable at cluster construction.
/// `ProtocolError`: an invalid contribution or share from a partner, with the
/// partner and the protocol round it arrived in.
/// `CircuitError`: a malformed circuit or an input batch whose width does not
/// match the circuit.
#[derive(Clone, Copy, PartialEq, Eq, Structural, Debug)]
pub enum MpcError {
    ConfigurationError,
    ConnectivityError { peer: u8 },
    ProtocolError { peer: u8, round: u64 },
    CircuitError,
}

} // verus!
