use vstd::prelude::*;

verus! {

/// A commit-graph object id: the 20 bytes of a SHA-1 object name, read as
/// big-endian words.
#[derive(Clone, Copy, Debug, PartialEq, Eq, Structural)]
pub struct Oid {
    pub hi: u64,
    pub mid: u64,
    pub lo: u32,
}

/// A peer of the network: the 32 bytes of its public key, read as big-endian
/// words.
#[derive(Clone, Copy, Debug, PartialEq, Eq, Structural)]
pub struct PeerId {
    pub k0: u64,
    pub k1: u64,
    pub k2: u64,
    pub k3: u64,
}

/// The identity of a person: the object id of its root identity document.
#[derive(Clone, Copy, Debug, PartialEq, Eq, Structural)]
pub struct Urn {
    pub id: Oid,
}

} // verus!
