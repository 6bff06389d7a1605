use class_sync::routes::{register_routes, Endpoint, RpcRouterBuilder, RpcVersion};

#[test]
fn routes_of_version_08() {
    let router = register_routes();
    assert_eq!(router.version(), RpcVersion::V08);
    assert_eq!(router.methods().len(), 34);
    assert_eq!(
        router.methods()[0],
        ("starknet_addDeclareTransaction", Endpoint::AddDeclareTransaction)
    );
    assert_eq!(router.methods()[5], ("starknet_call", Endpoint::Call));
    assert_eq!(router.methods()[29], ("starknet_specVersion", Endpoint::SpecVersion));
    assert_eq!(router.methods()[33], ("pathfinder_getProof", Endpoint::GetProof));
}

#[test]
fn every_name_is_registered_once() {
    let router = register_routes();
    let mut names: Vec<&str> = router.methods().iter().map(|method| method.0).collect();
    names.sort();
    names.dedup();
    assert_eq!(names.len(), 34);
}

#[test]
fn both_fee_estimates_share_an_endpoint() {
    let router = register_routes();
    let served_by = |name: &str| {
        router.methods().iter().find(|method| method.0 == name).map(|method| method.1)
    };
    assert_eq!(served_by("starknet_estimateFee"), Some(Endpoint::EstimateFee));
    assert_eq!(served_by("starknet_estimateMessageFee"), Some(Endpoint::EstimateFee));
    assert_eq!(served_by("starknet_getStorageProof"), Some(Endpoint::GetStorageProof));
    assert_eq!(served_by("starknet_subscribeEvents"), Some(Endpoint::SubscribeEvents));
    assert_eq!(served_by("starknet_unknown"), None);
}

#[test]
fn methods_are_registered_in_order() {
    let router = RpcRouterBuilder::new(RpcVersion::V07)
        .register("b", Endpoint::Call)
        .register("a", Endpoint::ChainId);
    assert_eq!(router.version(), RpcVersion::V07);
    assert_eq!(router.methods(), &vec![("b", Endpoint::Call), ("a", Endpoint::ChainId)]);
    assert!(RpcRouterBuilder::new(RpcVersion::V06).methods().is_empty());
}
