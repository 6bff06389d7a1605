//! What can stop a sync attempt.

use vstd::prelude::*;
use crate::class::PeerId;

verus! {

/// A failure of a stage that handles one item at a time and does not know
/// which peer the item came from.
#[derive(Clone, Debug, PartialEq, Eq)]
pub enum SyncError2 {
    /// The blob does not have the structure of the form it claims to be.
    BadClassLayout,
    /// The hash of the class does not match the declared one.
    ClassHashMismatch,
    /// The hash of the class could not be computed.
    ClassHashComputation,
    /// The class is not declared at the block it arrived for.
    UnexpectedClass,
    /// A block's classes and its declarations do not match one to one.
    ClassDefinitionsDeclarationsMismatch,
    /// Neither the local compiler nor the gateway produced the compiled form.
    CompilationFailure,
    /// The storage holds no compiled-class hash for a Sierra class.
    MissingCompiledHashMapping,
    /// The storage has no header for a block of the range.
    MissingBlockHeader,
    /// The source of declarations ended while classes still arrived.
    ExpectationsExhausted,
    /// A batch to persist held no class.
    EmptyBatch,
    /// A storage operation failed.
    Storage,
}

/// A failure of a stage that knows the peer: failures that are the peer's
/// fault carry it, so that the caller can penalise or disconnect it.
#[derive(Clone, Debug, PartialEq, Eq)]
pub enum SyncError {
    BadClassLayout(PeerId),
    ClassHashMismatch(PeerId),
    ClassHashComputation(PeerId),
    UnexpectedClass(PeerId),
    ClassDefinitionsDeclarationsMismatch,
    CompilationFailure,
    MissingCompiledHashMapping,
    MissingBlockHeader,
    ExpectationsExhausted,
    EmptyBatch,
    Storage,
}

impl SyncError {
    /// The failure `error` of an item that `peer` supplied.
    pub open spec fn spec_from_v2(peer: PeerId, error: SyncError2) -> SyncError {
        match error {
            SyncError2::BadClassLayout => SyncError::BadClassLayout(peer),
            SyncError2::ClassHashMismatch => SyncError::ClassHashMismatch(peer),
            SyncError2::ClassHashComputation => SyncError::ClassHashComputation(peer),
            SyncError2::UnexpectedClass => SyncError::UnexpectedClass(peer),
            SyncError2::ClassDefinitionsDeclarationsMismatch => {
                SyncError::ClassDefinitionsDeclarationsMismatch
            },
            SyncError2::CompilationFailure => SyncError::CompilationFailure,
            SyncError2::MissingCompiledHashMapping => SyncError::MissingCompiledHashMapping,
            SyncError2::MissingBlockHeader => SyncError::MissingBlockHeader,
            SyncError2::ExpectationsExhausted => SyncError::ExpectationsExhausted,
            SyncError2::EmptyBatch => SyncError::EmptyBatch,
            SyncError2::Storage => SyncError::Storage,
        }
    }

    /// Attributes the failure of a per-item stage to the peer that supplied
    /// the item.
    #[verifier::when_used_as_spec(spec_from_v2)]
    pub fn from_v2(peer: PeerId, error: SyncError2) -> (r: SyncError)
        ensures
            r == SyncError::spec_from_v2(peer, error),
    {
        match error {
            SyncError2::BadClassLayout => SyncError::BadClassLayout(peer),
            SyncError2::ClassHashMismatch => SyncError::ClassHashMismatch(peer),
            SyncError2::ClassHashComputation => SyncError::ClassHashComputation(peer),
            SyncError2::UnexpectedClass => SyncError::UnexpectedClass(peer),
            SyncError2::ClassDefinitionsDeclarationsMismatch => {
                SyncError::ClassDefinitionsDeclarationsMismatch
            },
            SyncError2::CompilationFailure => SyncError::CompilationFailure,
            SyncError2::MissingCompiledHashMapping => SyncError::MissingCompiledHashMapping,
            SyncError2::MissingBlockHeader => SyncError::MissingBlockHeader,
            SyncError2::ExpectationsExhausted => SyncError::ExpectationsExhausted,
            SyncError2::EmptyBatch => SyncError::EmptyBatch,
            SyncError2::Storage => SyncError::Storage,
        }
    }

    /// The peer to hold responsible, if the failure is a peer's fault.
    pub fn peer(&self) -> (r: Option<&PeerId>)
        ensures
            r == match *self {
                SyncError::BadClassLayout(p) => Some(&p),
                SyncError::ClassHashMismatch(p) => Some(&p),
                SyncError::ClassHashComputation(p) => Some(&p),
                SyncError::UnexpectedClass(p) => Some(&p),
                _ => None,
            },
    {
        match self {
            SyncError::BadClassLayout(p) => Some(p),
            SyncError::ClassHashMismatch(p) => Some(p),
            SyncError::ClassHashComputation(p) => Some(p),
            SyncError::UnexpectedClass(p) => Some(p),
            _ => None,
        }
    }
}

} // verus!
