//! Attaching the class hash to a class.
//!
//! The digest itself is computed by the caller, from the parsed view of the
//! class (see [`Layout`](crate::layout::Layout)): a Cairo class from its ABI,
//! its program and its three lists of entry points, a Sierra class from its
//! ABI, its program, its version and its entry points.  The caller reports
//! the digest, or that it could not be computed, and this module builds the
//! hashed class or the error from it.

use vstd::prelude::*;
use crate::class::{Class, ClassHash, PeerData};
use crate::error::{SyncError, SyncError2};
use crate::layout::ClassWithLayout;

verus! {

/// The class `input` with the hash that was computed for it; an error where
/// the computation failed (`computed` is `None`).
pub open spec fn hashed(input: ClassWithLayout, computed: Option<ClassHash>) -> Result<
    Class,
    SyncError2,
> {
    match computed {
        Some(hash) => Ok(
            Class { block_number: input.block_number, hash, definition: input.definition },
        ),
        None => Err(SyncError2::ClassHashComputation),
    }
}

/// The same for a class that came from a peer: the peer stays with the class
/// and with the error.
pub open spec fn hashed_from_peer(
    input: PeerData<ClassWithLayout>,
    computed: Option<ClassHash>,
) -> Result<PeerData<Class>, SyncError> {
    match hashed(input.data, computed) {
        Ok(class) => Ok(PeerData { peer: input.peer, data: class }),
        Err(error) => Err(SyncError::spec_from_v2(input.peer, error)),
    }
}

/// The stage that attaches hashes, one class at a time.
pub struct ComputeHash;

impl ComputeHash {
    /// Attaches the computed hash to the class.  The parsed view has served
    /// its purpose and is dropped; block number and bytes are kept.
    pub fn map(&mut self, input: ClassWithLayout, computed: Option<ClassHash>) -> (r: Result<
        Class,
        SyncError2,
    >)
        ensures
            r == hashed(input, computed),
    {
        let ClassWithLayout { block_number, definition, layout: _ } = input;
        match computed {
            Some(hash) => Ok(Class { block_number, hash, definition }),
            None => Err(SyncError2::ClassHashComputation),
        }
    }
}

/// Attaches the computed hash to one class of a peer.
pub fn compute_hash0(peer_data: PeerData<ClassWithLayout>, computed: Option<ClassHash>) -> (r:
    Result<PeerData<Class>, SyncError>)
    ensures
        r == hashed_from_peer(peer_data, computed),
{
    let PeerData { peer, data } = peer_data;
    let mut stage = ComputeHash;
    match stage.map(data, computed) {
        Ok(class) => Ok(PeerData::new(peer, class)),
        Err(error) => Err(SyncError::from_v2(peer, error)),
    }
}

/// Holds the hash that was computed for a class against the hash under
/// which the class is declared.  A class with another hash is the fault of
/// the peer that sent it.
pub fn verify_hash(peer_data: PeerData<Class>, declared: &ClassHash) -> (r: Result<
    PeerData<Class>,
    SyncError,
>)
    ensures
        r == if peer_data.data.hash == *declared {
            Ok::<PeerData<Class>, SyncError>(peer_data)
        } else {
            Err(SyncError::ClassHashMismatch(peer_data.peer))
        },
{
    proof {
        crate::felt::Felt::lemma_view_injective(peer_data.data.hash.0, declared.0);
    }
    if peer_data.data.hash.0 == declared.0 {
        Ok(peer_data)
    } else {
        Err(SyncError::ClassHashMismatch(peer_data.peer))
    }
}

/// A class of a batch with the hash that was computed for it.
#[derive(Clone, Debug, PartialEq, Eq)]
pub struct HashInput {
    pub class: PeerData<ClassWithLayout>,
    pub computed: Option<ClassHash>,
}

impl HashInput {
    /// What the stage makes of this one class.
    pub open spec fn outcome(self) -> Result<PeerData<Class>, SyncError> {
        hashed_from_peer(self.class, self.computed)
    }
}

/// Attaches the hashes to a batch of classes.  The batch comes out in the
/// order in which it went in.  Where a hash could not be computed the batch
/// fails, with the peer of the first such class.
pub fn compute_hash(inputs: Vec<HashInput>) -> (r: Result<Vec<PeerData<Class>>, SyncError>)
    ensures
        match r {
            Ok(classes) => {
                &&& classes@.len() == inputs@.len()
                &&& forall|i: int|
                    0 <= i < inputs@.len() ==> inputs@[i].outcome() == Ok::<
                        PeerData<Class>,
                        SyncError,
                    >(#[trigger] classes@[i])
            },
            Err(error) => {
                exists|k: int|
                    {
                        &&& 0 <= k < inputs@.len()
                        &&& (#[trigger] inputs@[k]).outcome() == Err::<PeerData<Class>, SyncError>(
                            error,
                        )
                        &&& forall|j: int| 0 <= j < k ==> (#[trigger] inputs@[j]).outcome() is Ok
                    }
            },
        },
{
    let mut classes: Vec<PeerData<Class>> = Vec::new();
    for input in it: inputs
        invariant
            it.seq() == inputs@,
            classes@.len() == it.index(),
            forall|i: int|
                0 <= i < it.index() ==> inputs@[i].outcome() == Ok::<PeerData<Class>, SyncError>(
                    #[trigger] classes@[i],
                ),
    {
        let HashInput { class, computed } = input;
        match compute_hash0(class, computed) {
            Ok(hashed_class) => {
                classes.push(hashed_class);
            },
            Err(error) => {
                proof {
                    let k = it.index() as int;
                    assert(inputs@[k].outcome() == Err::<PeerData<Class>, SyncError>(error));
                    assert forall|j: int| 0 <= j < k implies (#[trigger] inputs@[j]).outcome()
                        is Ok by {
                        assert(inputs@[j].outcome() == Ok::<PeerData<Class>, SyncError>(
                            classes@[j],
                        ));
                    }
                }
                return Err(error);
            },
        }
    }
    Ok(classes)
}

} // verus!
