//! The JSON-RPC methods that version 0.8 of the API serves.

use vstd::prelude::*;

verus! {

/// A version of the JSON-RPC API.
#[derive(Clone, Copy, Debug, PartialEq, Eq, Structural, Hash)]
pub enum RpcVersion {
    V06,
    V07,
    V08,
}

/// What serves a method.
#[derive(Clone, Copy, Debug, PartialEq, Eq, Structural, Hash)]
pub enum Endpoint {
    AddDeclareTransaction,
    AddDeployAccountTransaction,
    AddInvokeTransaction,
    BlockHashAndNumber,
    BlockNumber,
    Call,
    ChainId,
    EstimateFee,
    GetBlockTransactionCount,
    GetBlockWithTxHashes,
    GetBlockWithTxs,
    GetClass,
    GetClassAt,
    GetClassHashAt,
    GetEvents,
    GetMessagesStatus,
    GetNonce,
    GetStateUpdate,
    GetStorageAt,
    GetStorageProof,
    GetTransactionByBlockIdAndIndex,
    GetTransactionByHash,
    GetTransactionStatus,
    SimulateTransactions,
    SubscribeNewHeads,
    SubscribePendingTransactions,
    SubscribeEvents,
    SubscribeTransactionStatus,
    /// Answers with the version of the specification, `0.8.0-rc0`.
    SpecVersion,
    Syncing,
    TraceBlockTransactions,
    TraceTransaction,
    GetProof,
}

/// A router in the making: the methods registered so far, in the order of
/// their registration.  No name has two methods registered under it.
#[derive(Debug)]
pub struct RpcRouterBuilder {
    version: RpcVersion,
    methods: Vec<(&'static str, Endpoint)>,
}

/// The name has a method registered under it.
pub open spec fn registered(methods: Seq<(&'static str, Endpoint)>, name: Seq<char>) -> bool {
    exists|i: int| 0 <= i < methods.len() && (#[trigger] methods[i]).0@ == name
}

/// No name has two methods registered under it.
pub open spec fn unambiguous(methods: Seq<(&'static str, Endpoint)>) -> bool {
    forall|i: int, j: int|
        0 <= i < j < methods.len() ==> (#[trigger] methods[i]).0@ != (#[trigger] methods[j]).0@
}

impl RpcRouterBuilder {
    #[verifier::type_invariant]
    spec fn no_name_twice(&self) -> bool {
        unambiguous(self.methods@)
    }

    /// The version of the API that the router serves.
    pub closed spec fn spec_version(&self) -> RpcVersion {
        self.version
    }

    /// The registered methods, in the order of their registration.
    pub closed spec fn spec_methods(&self) -> Seq<(&'static str, Endpoint)> {
        self.methods@
    }

    /// A builder without methods.
    pub fn new(version: RpcVersion) -> (r: RpcRouterBuilder)
        ensures
            r.spec_version() == version,
            r.spec_methods() == Seq::<(&'static str, Endpoint)>::empty(),
    {
        RpcRouterBuilder { version, methods: Vec::new() }
    }

    /// The version of the API that the router serves.
    #[verifier::when_used_as_spec(spec_version)]
    pub fn version(&self) -> (r: RpcVersion)
        ensures
            r == self.spec_version(),
    {
        self.version
    }

    /// The registered methods, in the order of their registration; no name
    /// comes twice.
    pub fn methods(&self) -> (r: &Vec<(&'static str, Endpoint)>)
        ensures
            r@ == self.spec_methods(),
            unambiguous(r@),
    {
        proof {
            use_type_invariant(self);
        }
        &self.methods
    }

    /// Registers a method under a name that is still free.
    pub fn register(self, method_name: &'static str, endpoint: Endpoint) -> (r: RpcRouterBuilder)
        requires
            !registered(self.spec_methods(), method_name@),
        ensures
            r.spec_version() == self.spec_version(),
            r.spec_methods() == self.spec_methods().push((method_name, endpoint)),
    {
        proof {
            use_type_invariant(&self);
        }
        let RpcRouterBuilder { version, mut methods } = self;
        methods.push((method_name, endpoint));
        proof {
            assert forall|i: int, j: int| 0 <= i < j < methods@.len() implies (
            #[trigger] methods@[i]).0@ != (#[trigger] methods@[j]).0@ by {
                if j == methods@.len() - 1 {
                    assert(self.methods@[i].0@ != method_name@);
                } else {
                    assert(self.methods@[i].0@ != self.methods@[j].0@);
                }
            }
        }
        RpcRouterBuilder { version, methods }
    }
}

/// What tells the names of the methods apart: the length of a name, its
/// character at position 12 and its last character.
pub open spec fn mark(name: Seq<char>) -> (nat, char, char) {
    (name.len(), name[12], name[name.len() - 1])
}

/// The names and endpoints of registered methods as mathematical values.
pub open spec fn routes_view(methods: Seq<(&'static str, Endpoint)>) -> Seq<(Seq<char>, Endpoint)> {
    Seq::new(methods.len(), |i: int| (methods[i].0@, methods[i].1))
}

/// The methods of version 0.8 of the API, in the order of their
/// registration.
pub open spec fn v08_routes() -> Seq<(Seq<char>, Endpoint)> {
    seq![
        ("starknet_addDeclareTransaction"@, Endpoint::AddDeclareTransaction),
        ("starknet_addDeployAccountTransaction"@, Endpoint::AddDeployAccountTransaction),
        ("starknet_addInvokeTransaction"@, Endpoint::AddInvokeTransaction),
        ("starknet_blockHashAndNumber"@, Endpoint::BlockHashAndNumber),
        ("starknet_blockNumber"@, Endpoint::BlockNumber),
        ("starknet_call"@, Endpoint::Call),
        ("starknet_chainId"@, Endpoint::ChainId),
        ("starknet_estimateFee"@, Endpoint::EstimateFee),
        ("starknet_estimateMessageFee"@, Endpoint::EstimateFee),
        ("starknet_getBlockTransactionCount"@, Endpoint::GetBlockTransactionCount),
        ("starknet_getBlockWithTxHashes"@, Endpoint::GetBlockWithTxHashes),
        ("starknet_getBlockWithTxs"@, Endpoint::GetBlockWithTxs),
        ("starknet_getClass"@, Endpoint::GetClass),
        ("starknet_getClassAt"@, Endpoint::GetClassAt),
        ("starknet_getClassHashAt"@, Endpoint::GetClassHashAt),
        ("starknet_getEvents"@, Endpoint::GetEvents),
        ("starknet_getMessagesStatus"@, Endpoint::GetMessagesStatus),
        ("starknet_getNonce"@, Endpoint::GetNonce),
        ("starknet_getStateUpdate"@, Endpoint::GetStateUpdate),
        ("starknet_getStorageAt"@, Endpoint::GetStorageAt),
        ("starknet_getStorageProof"@, Endpoint::GetStorageProof),
        ("starknet_getTransactionByBlockIdAndIndex"@, Endpoint::GetTransactionByBlockIdAndIndex),
        ("starknet_getTransactionByHash"@, Endpoint::GetTransactionByHash),
        ("starknet_getTransactionStatus"@, Endpoint::GetTransactionStatus),
        ("starknet_simulateTransactions"@, Endpoint::SimulateTransactions),
        ("starknet_subscribeNewHeads"@, Endpoint::SubscribeNewHeads),
        ("starknet_subscribePendingTransactions"@, Endpoint::SubscribePendingTransactions),
        ("starknet_subscribeEvents"@, Endpoint::SubscribeEvents),
        ("starknet_subscribeTransactionStatus"@, Endpoint::SubscribeTransactionStatus),
        ("starknet_specVersion"@, Endpoint::SpecVersion),
        ("starknet_syncing"@, Endpoint::Syncing),
        ("starknet_traceBlockTransactions"@, Endpoint::TraceBlockTransactions),
        ("starknet_traceTransaction"@, Endpoint::TraceTransaction),
        ("pathfinder_getProof"@, Endpoint::GetProof),
    ]
}

/// The router of version 0.8 of the API in the making: every method of
/// [`v08_routes`] under its name.
pub fn register_routes() -> (r: RpcRouterBuilder)
    ensures
        r.spec_version() == RpcVersion::V08,
        routes_view(r.spec_methods()) == v08_routes(),
{
    proof {
        reveal_strlit("starknet_addDeclareTransaction");
        assert(mark("starknet_addDeclareTransaction"@) == (30nat, 'D', 'n'));
        reveal_strlit("starknet_addDeployAccountTransaction");
        assert(mark("starknet_addDeployAccountTransaction"@) == (36nat, 'D', 'n'));
        reveal_strlit("starknet_addInvokeTransaction");
        assert(mark("starknet_addInvokeTransaction"@) == (29nat, 'I', 'n'));
        reveal_strlit("starknet_blockHashAndNumber");
        assert(mark("starknet_blockHashAndNumber"@) == (27nat, 'c', 'r'));
        reveal_strlit("starknet_blockNumber");
        assert(mark("starknet_blockNumber"@) == (20nat, 'c', 'r'));
        reveal_strlit("starknet_call");
        assert(mark("starknet_call"@) == (13nat, 'l', 'l'));
        reveal_strlit("starknet_chainId");
        assert(mark("starknet_chainId"@) == (16nat, 'i', 'd'));
        reveal_strlit("starknet_estimateFee");
        assert(mark("starknet_estimateFee"@) == (20nat, 'i', 'e'));
        reveal_strlit("starknet_estimateMessageFee");
        assert(mark("starknet_estimateMessageFee"@) == (27nat, 'i', 'e'));
        reveal_strlit("starknet_getBlockTransactionCount");
        assert(mark("starknet_getBlockTransactionCount"@) == (33nat, 'B', 't'));
        reveal_strlit("starknet_getBlockWithTxHashes");
        assert(mark("starknet_getBlockWithTxHashes"@) == (29nat, 'B', 's'));
        reveal_strlit("starknet_getBlockWithTxs");
        assert(mark("starknet_getBlockWithTxs"@) == (24nat, 'B', 's'));
        reveal_strlit("starknet_getClass");
        assert(mark("starknet_getClass"@) == (17nat, 'C', 's'));
        reveal_strlit("starknet_getClassAt");
        assert(mark("starknet_getClassAt"@) == (19nat, 'C', 't'));
        reveal_strlit("starknet_getClassHashAt");
        assert(mark("starknet_getClassHashAt"@) == (23nat, 'C', 't'));
        reveal_strlit("starknet_getEvents");
        assert(mark("starknet_getEvents"@) == (18nat, 'E', 's'));
        reveal_strlit("starknet_getMessagesStatus");
        assert(mark("starknet_getMessagesStatus"@) == (26nat, 'M', 's'));
        reveal_strlit("starknet_getNonce");
        assert(mark("starknet_getNonce"@) == (17nat, 'N', 'e'));
        reveal_strlit("starknet_getStateUpdate");
        assert(mark("starknet_getStateUpdate"@) == (23nat, 'S', 'e'));
        reveal_strlit("starknet_getStorageAt");
        assert(mark("starknet_getStorageAt"@) == (21nat, 'S', 't'));
        reveal_strlit("starknet_getStorageProof");
        assert(mark("starknet_getStorageProof"@) == (24nat, 'S', 'f'));
        reveal_strlit("starknet_getTransactionByBlockIdAndIndex");
        assert(mark("starknet_getTransactionByBlockIdAndIndex"@) == (40nat, 'T', 'x'));
        reveal_strlit("starknet_getTransactionByHash");
        assert(mark("starknet_getTransactionByHash"@) == (29nat, 'T', 'h'));
        reveal_strlit("starknet_getTransactionStatus");
        assert(mark("starknet_getTransactionStatus"@) == (29nat, 'T', 's'));
        reveal_strlit("starknet_simulateTransactions");
        assert(mark("starknet_simulateTransactions"@) == (29nat, 'u', 's'));
        reveal_strlit("starknet_subscribeNewHeads");
        assert(mark("starknet_subscribeNewHeads"@) == (26nat, 's', 's'));
        reveal_strlit("starknet_subscribePendingTransactions");
        assert(mark("starknet_subscribePendingTransactions"@) == (37nat, 's', 's'));
        reveal_strlit("starknet_subscribeEvents");
        assert(mark("starknet_subscribeEvents"@) == (24nat, 's', 's'));
        reveal_strlit("starknet_subscribeTransactionStatus");
        assert(mark("starknet_subscribeTransactionStatus"@) == (35nat, 's', 's'));
        reveal_strlit("starknet_specVersion");
        assert(mark("starknet_specVersion"@) == (20nat, 'c', 'n'));
        reveal_strlit("starknet_syncing");
        assert(mark("starknet_syncing"@) == (16nat, 'c', 'g'));
        reveal_strlit("starknet_traceBlockTransactions");
        assert(mark("starknet_traceBlockTransactions"@) == (31nat, 'c', 's'));
        reveal_strlit("starknet_traceTransaction");
        assert(mark("starknet_traceTransaction"@) == (25nat, 'c', 'n'));
        reveal_strlit("pathfinder_getProof");
        assert(mark("pathfinder_getProof"@) == (19nat, 'e', 'f'));
    }
    let r = RpcRouterBuilder::new(RpcVersion::V08)
        .register("starknet_addDeclareTransaction", Endpoint::AddDeclareTransaction)
        .register("starknet_addDeployAccountTransaction", Endpoint::AddDeployAccountTransaction)
        .register("starknet_addInvokeTransaction", Endpoint::AddInvokeTransaction)
        .register("starknet_blockHashAndNumber", Endpoint::BlockHashAndNumber)
        .register("starknet_blockNumber", Endpoint::BlockNumber)
        .register("starknet_call", Endpoint::Call)
        .register("starknet_chainId", Endpoint::ChainId)
        .register("starknet_estimateFee", Endpoint::EstimateFee)
        .register("starknet_estimateMessageFee", Endpoint::EstimateFee)
        .register("starknet_getBlockTransactionCount", Endpoint::GetBlockTransactionCount)
        .register("starknet_getBlockWithTxHashes", Endpoint::GetBlockWithTxHashes)
        .register("starknet_getBlockWithTxs", Endpoint::GetBlockWithTxs)
        .register("starknet_getClass", Endpoint::GetClass)
        .register("starknet_getClassAt", Endpoint::GetClassAt)
        .register("starknet_getClassHashAt", Endpoint::GetClassHashAt)
        .register("starknet_getEvents", Endpoint::GetEvents)
        .register("starknet_getMessagesStatus", Endpoint::GetMessagesStatus)
        .register("starknet_getNonce", Endpoint::GetNonce)
        .register("starknet_getStateUpdate", Endpoint::GetStateUpdate)
        .register("starknet_getStorageAt", Endpoint::GetStorageAt)
        .register("starknet_getStorageProof", Endpoint::GetStorageProof)
        .register("starknet_getTransactionByBlockIdAndIndex", Endpoint::GetTransactionByBlockIdAndIndex)
        .register("starknet_getTransactionByHash", Endpoint::GetTransactionByHash)
        .register("starknet_getTransactionStatus", Endpoint::GetTransactionStatus)
        .register("starknet_simulateTransactions", Endpoint::SimulateTransactions)
        .register("starknet_subscribeNewHeads", Endpoint::SubscribeNewHeads)
        .register("starknet_subscribePendingTransactions", Endpoint::SubscribePendingTransactions)
        .register("starknet_subscribeEvents", Endpoint::SubscribeEvents)
        .register("starknet_subscribeTransactionStatus", Endpoint::SubscribeTransactionStatus)
        .register("starknet_specVersion", Endpoint::SpecVersion)
        .register("starknet_syncing", Endpoint::Syncing)
        .register("starknet_traceBlockTransactions", Endpoint::TraceBlockTransactions)
        .register("starknet_traceTransaction", Endpoint::TraceTransaction)
        .register("pathfinder_getProof", Endpoint::GetProof);
    assert(routes_view(r.spec_methods()) =~= v08_routes());
    r
}

} // verus!
