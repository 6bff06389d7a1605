use class_sync::class::PeerId;
use class_sync::error::{SyncError, SyncError2};

#[test]
fn failure_of_a_peer_names_the_peer() {
    let peer = PeerId(vec![1, 2]);
    assert_eq!(
        SyncError::from_v2(peer.clone(), SyncError2::BadClassLayout),
        SyncError::BadClassLayout(peer.clone())
    );
    assert_eq!(
        SyncError::from_v2(peer.clone(), SyncError2::ClassHashMismatch),
        SyncError::ClassHashMismatch(peer.clone())
    );
    assert_eq!(
        SyncError::from_v2(peer.clone(), SyncError2::ClassHashComputation),
        SyncError::ClassHashComputation(peer.clone())
    );
    assert_eq!(
        SyncError::from_v2(peer.clone(), SyncError2::UnexpectedClass),
        SyncError::UnexpectedClass(peer.clone())
    );
    assert_eq!(SyncError::UnexpectedClass(peer.clone()).peer(), Some(&peer));
    assert_eq!(SyncError::BadClassLayout(peer.clone()).peer(), Some(&peer));
}

#[test]
fn other_failures_name_no_peer() {
    let peer = PeerId(vec![1, 2]);
    let pairs = [
        (
            SyncError2::ClassDefinitionsDeclarationsMismatch,
            SyncError::ClassDefinitionsDeclarationsMismatch,
        ),
        (SyncError2::CompilationFailure, SyncError::CompilationFailure),
        (SyncError2::MissingCompiledHashMapping, SyncError::MissingCompiledHashMapping),
        (SyncError2::MissingBlockHeader, SyncError::MissingBlockHeader),
        (SyncError2::ExpectationsExhausted, SyncError::ExpectationsExhausted),
        (SyncError2::EmptyBatch, SyncError::EmptyBatch),
        (SyncError2::Storage, SyncError::Storage),
    ];
    for (plain, with_peer) in pairs {
        assert_eq!(SyncError::from_v2(peer.clone(), plain), with_peer);
        assert_eq!(with_peer.peer(), None);
    }
}
