//! A cluster-coordinated secure multi-party computation engine.
//!
//! A set of cooperating nodes jointly evaluates an arithmetic circuit over
//! secret-shared data: a client encrypts field-element inputs against a
//! collectively-held cluster public key, the cluster evaluates the circuit
//! without any single node holding the plaintext, and the client decrypts
//! the re-encrypted result locally.

pub mod field;
pub mod cipher;
pub mod shares;
pub mod rng;
pub mod errors;
pub mod cluster;
pub mod circuit;
pub mod execution;
