//! The values that flow through the pipeline.

use vstd::prelude::*;
use crate::felt::Felt;

verus! {

/// The height of a block.
#[derive(Clone, Copy, Debug, PartialEq, Eq, Structural, PartialOrd, Ord, Hash)]
pub struct BlockNumber(pub u64);

impl BlockNumber {
    /// The height as an integer.
    pub open spec fn spec_get(&self) -> u64 {
        self.0
    }

    /// The height as an integer.
    #[verifier::when_used_as_spec(spec_get)]
    pub fn get(&self) -> (r: u64)
        ensures
            r == self.0,
    {
        self.0
    }
}

impl Default for BlockNumber {
    fn default() -> (r: BlockNumber)
        ensures
            r == BlockNumber(0),
    {
        BlockNumber(0)
    }
}

/// The identifier of a class: the digest of its structure.
#[derive(Clone, Copy, Debug, PartialEq, Eq, Hash)]
pub struct ClassHash(pub Felt);

/// The identifier of the compiled form of a Sierra class.
#[derive(Clone, Copy, Debug, PartialEq, Eq, Hash)]
pub struct CasmHash(pub Felt);

/// The identifier of a Sierra class, as the storage keys it.
#[derive(Clone, Copy, Debug, PartialEq, Eq, Hash)]
pub struct SierraHash(pub Felt);

/// Names the remote that supplied a blob.  It is carried along so that
/// misbehaviour can be attributed, and is never looked into or stored.
#[derive(Clone, Debug, PartialEq, Eq, Hash)]
pub struct PeerId(pub Vec<u8>);

/// A value together with the peer it came from.
#[derive(Clone, Debug, PartialEq, Eq)]
pub struct PeerData<T> {
    pub peer: PeerId,
    pub data: T,
}

impl<T> PeerData<T> {
    /// `data` as supplied by `peer`.
    pub fn new(peer: PeerId, data: T) -> (r: PeerData<T>)
        ensures
            r == (PeerData { peer, data }),
    {
        PeerData { peer, data }
    }
}

/// A class as a peer sent it: the transport says which of the two forms the
/// bytes are meant to be.
#[derive(Clone, Debug, PartialEq, Eq)]
pub enum P2PClassDefinition {
    Cairo { block_number: BlockNumber, definition: Vec<u8> },
    Sierra { block_number: BlockNumber, sierra_definition: Vec<u8> },
}

impl P2PClassDefinition {
    /// The block that the class arrived for.
    pub open spec fn block_number(&self) -> BlockNumber {
        match *self {
            P2PClassDefinition::Cairo { block_number, .. } => block_number,
            P2PClassDefinition::Sierra { block_number, .. } => block_number,
        }
    }

    /// The bytes as they were received.
    pub open spec fn bytes(&self) -> Seq<u8> {
        match *self {
            P2PClassDefinition::Cairo { definition, .. } => definition@,
            P2PClassDefinition::Sierra { sierra_definition, .. } => sierra_definition@,
        }
    }
}

/// The encoding of a class as it was received, kept so that exactly these bytes are
/// persisted.
#[derive(Clone, Debug, PartialEq, Eq)]
pub enum ClassDefinition {
    Cairo(Vec<u8>),
    Sierra(Vec<u8>),
}

impl ClassDefinition {
    /// The bytes as they were received.
    pub open spec fn bytes(&self) -> Seq<u8> {
        match *self {
            ClassDefinition::Cairo(d) => d@,
            ClassDefinition::Sierra(d) => d@,
        }
    }
}

/// A class whose hash is known.
#[derive(Clone, Debug, PartialEq, Eq)]
pub struct Class {
    pub block_number: BlockNumber,
    pub hash: ClassHash,
    pub definition: ClassDefinition,
}

/// A class in the form in which it is stored.
#[derive(Clone, Debug, PartialEq, Eq)]
pub struct CompiledClass {
    pub block_number: BlockNumber,
    pub hash: ClassHash,
    pub definition: CompiledClassDefinition,
}

/// What is stored of a class: a Cairo class as it was received, a Sierra
/// class as it was received together with its compiled form.
#[derive(Clone, Debug, PartialEq, Eq)]
pub enum CompiledClassDefinition {
    Cairo(Vec<u8>),
    Sierra { sierra_definition: Vec<u8>, casm_definition: Vec<u8> },
}

} // verus!
