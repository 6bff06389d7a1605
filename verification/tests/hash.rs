use class_sync::class::{
    BlockNumber, Class, ClassDefinition, ClassHash, P2PClassDefinition, PeerData, PeerId,
};
use class_sync::error::{SyncError, SyncError2};
use class_sync::felt::Felt;
use class_sync::hash::{compute_hash, compute_hash0, verify_hash, ComputeHash, HashInput};
use class_sync::layout::{ClassWithLayout, VerifyLayout};

fn hash(n: u64) -> ClassHash {
    ClassHash(Felt::from_u64(n))
}

fn text(n: u64) -> String {
    format!(
        r#"{{"abi": {n}, "program": {{}}, "entry_points_by_type": {{"EXTERNAL": [], "L1_HANDLER": [], "CONSTRUCTOR": []}}}}"#
    )
}

fn checked(n: u64) -> ClassWithLayout {
    VerifyLayout
        .map(P2PClassDefinition::Cairo {
            block_number: BlockNumber(n),
            definition: text(n).into_bytes(),
        })
        .unwrap()
}

fn hashed(n: u64) -> Class {
    Class {
        block_number: BlockNumber(n),
        hash: hash(n),
        definition: ClassDefinition::Cairo(text(n).into_bytes()),
    }
}

fn input(peer: u8, n: u64, computed: Option<ClassHash>) -> HashInput {
    HashInput { class: PeerData::new(PeerId(vec![peer]), checked(n)), computed }
}

#[test]
fn hash_is_attached_to_the_class() {
    assert_eq!(ComputeHash.map(checked(5), Some(hash(5))), Ok(hashed(5)));
}

#[test]
fn failed_computation_is_an_error() {
    assert_eq!(ComputeHash.map(checked(5), None), Err(SyncError2::ClassHashComputation));
}

#[test]
fn class_of_a_peer_keeps_its_peer() {
    let peer = PeerId(vec![4, 2]);
    assert_eq!(
        compute_hash0(PeerData::new(peer.clone(), checked(5)), Some(hash(5))),
        Ok(PeerData::new(peer.clone(), hashed(5)))
    );
    assert_eq!(
        compute_hash0(PeerData::new(peer.clone(), checked(5)), None),
        Err(SyncError::ClassHashComputation(peer))
    );
}

#[test]
fn batch_keeps_its_order() {
    let outcome = compute_hash(vec![
        input(1, 3, Some(hash(3))),
        input(2, 1, Some(hash(1))),
        input(1, 2, Some(hash(2))),
    ]);
    assert_eq!(
        outcome,
        Ok(vec![
            PeerData::new(PeerId(vec![1]), hashed(3)),
            PeerData::new(PeerId(vec![2]), hashed(1)),
            PeerData::new(PeerId(vec![1]), hashed(2)),
        ])
    );
    assert_eq!(compute_hash(vec![]), Ok(vec![]));
}

#[test]
fn batch_fails_with_the_peer_of_the_first_failure() {
    let outcome = compute_hash(vec![
        input(1, 3, Some(hash(3))),
        input(2, 1, None),
        input(3, 2, None),
    ]);
    assert_eq!(outcome, Err(SyncError::ClassHashComputation(PeerId(vec![2]))));
}

#[test]
fn class_with_the_declared_hash_passes() {
    let peer = PeerId(vec![6]);
    assert_eq!(
        verify_hash(PeerData::new(peer.clone(), hashed(5)), &hash(5)),
        Ok(PeerData::new(peer, hashed(5)))
    );
}

#[test]
fn class_with_another_hash_is_the_fault_of_its_peer() {
    let peer = PeerId(vec![6]);
    assert_eq!(
        verify_hash(PeerData::new(peer.clone(), hashed(5)), &hash(4)),
        Err(SyncError::ClassHashMismatch(peer))
    );
}
