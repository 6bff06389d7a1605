//! Persisting compiled classes inside one storage transaction.
//!
//! The storage is the caller's.  This module decides which operation comes
//! next and what an answer means: [`persist`] and [`Store::map`] hand out the
//! first request, and [`Store::resume`] turns the answer to a request into the
//! next request or into the outcome.  The caller opens the transaction on
//! [`StorageRequest::Begin`], performs every later request inside it, and
//! drops it uncommitted when the outcome is an error.

use vstd::prelude::*;
use std::collections::VecDeque;
use crate::class::{
    BlockNumber, CasmHash, Class, ClassDefinition, ClassHash, CompiledClass,
    CompiledClassDefinition, PeerData, SierraHash,
};
use crate::compile::compiled;
use crate::error::SyncError2;

verus! {

/// An operation that the caller performs on the storage.
#[derive(Clone, Debug, PartialEq, Eq)]
pub enum StorageRequest {
    /// Open a connection and, on it, the transaction that all later
    /// requests run in.
    Begin,
    /// Insert or replace the definition of a Cairo class.
    UpdateCairoClass { hash: ClassHash, definition: Vec<u8> },
    /// Look up the compiled-class hash recorded for a Sierra class.
    CasmHash { hash: ClassHash },
    /// Insert or replace the definition of a Sierra class and its compiled
    /// form.
    UpdateSierraClass {
        hash: SierraHash,
        sierra_definition: Vec<u8>,
        casm_hash: CasmHash,
        casm_definition: Vec<u8>,
    },
    /// Commit the transaction.
    Commit,
}

/// What the storage answered to a request.
#[derive(Clone, Copy, Debug, PartialEq, Eq)]
pub enum StorageReply {
    /// The operation was carried out.
    Done,
    /// The answer to a [`StorageRequest::CasmHash`].
    CasmHash(Option<CasmHash>),
    /// The storage reported an error.
    Failed,
}

/// What was last asked of the storage.
#[derive(Clone, Debug, PartialEq, Eq)]
pub enum Asked {
    /// An operation that is answered with [`StorageReply::Done`].
    Operation,
    /// The compiled-class hash of this Sierra class.
    CasmHash(CompiledClass),
    /// The commit.
    Commit,
}

/// Either the next request, with the machine that takes its answer, or the
/// outcome of the whole transaction.
#[derive(Debug)]
pub enum Step<M> {
    Request(StorageRequest, M),
    Finished(Result<BlockNumber, SyncError2>),
}

/// The state of a transaction between a request and its answer, as a
/// mathematical value.
pub struct StoreModel {
    /// The classes that no request was made for yet, in the order of the
    /// batch.
    pub pending: Seq<CompiledClass>,
    /// The request that is waiting for its answer.
    pub asked: Asked,
    /// The block number that the transaction reports once committed: the
    /// highest of the batch.
    pub tail: BlockNumber,
}

impl StoreModel {
    /// The request for the next pending class, or the commit when none is
    /// left.
    pub open spec fn proceed(pending: Seq<CompiledClass>, tail: BlockNumber) -> Step<StoreModel> {
        if pending.len() == 0 {
            Step::Request(StorageRequest::Commit, StoreModel { pending, asked: Asked::Commit, tail })
        } else {
            let class = pending[0];
            let rest = pending.subrange(1, pending.len() as int);
            match class.definition {
                CompiledClassDefinition::Cairo(definition) => Step::Request(
                    StorageRequest::UpdateCairoClass { hash: class.hash, definition },
                    StoreModel { pending: rest, asked: Asked::Operation, tail },
                ),
                CompiledClassDefinition::Sierra { .. } => Step::Request(
                    StorageRequest::CasmHash { hash: class.hash },
                    StoreModel { pending: rest, asked: Asked::CasmHash(class), tail },
                ),
            }
        }
    }

    /// The write of a Sierra class whose compiled-class hash is known.
    pub open spec fn sierra_update(class: CompiledClass, casm_hash: CasmHash) -> StorageRequest {
        match class.definition {
            CompiledClassDefinition::Sierra {
                sierra_definition,
                casm_definition,
            } => StorageRequest::UpdateSierraClass {
                hash: SierraHash(class.hash.0),
                sierra_definition,
                casm_hash,
                casm_definition,
            },
            CompiledClassDefinition::Cairo(definition) => StorageRequest::UpdateCairoClass {
                hash: class.hash,
                definition,
            },
        }
    }

    /// What follows when the storage answers `reply` to the request that is
    /// waiting.
    pub open spec fn resume(self, reply: StorageReply) -> Step<StoreModel> {
        match self.asked {
            Asked::Operation => match reply {
                StorageReply::Done => StoreModel::proceed(self.pending, self.tail),
                _ => Step::Finished(Err(SyncError2::Storage)),
            },
            Asked::CasmHash(class) => match reply {
                StorageReply::CasmHash(Some(casm_hash)) => Step::Request(
                    StoreModel::sierra_update(class, casm_hash),
                    StoreModel { pending: self.pending, asked: Asked::Operation, tail: self.tail },
                ),
                StorageReply::CasmHash(None) => Step::Finished(
                    Err(SyncError2::MissingCompiledHashMapping),
                ),
                _ => Step::Finished(Err(SyncError2::Storage)),
            },
            Asked::Commit => match reply {
                StorageReply::Done => Step::Finished(Ok(self.tail)),
                _ => Step::Finished(Err(SyncError2::Storage)),
            },
        }
    }

    /// The first step of a transaction that persists `classes`.
    pub open spec fn begin(classes: Seq<CompiledClass>) -> Step<StoreModel> {
        if classes.len() == 0 {
            Step::Finished(Err(SyncError2::EmptyBatch))
        } else {
            Step::Request(
                StorageRequest::Begin,
                StoreModel {
                    pending: classes,
                    asked: Asked::Operation,
                    tail: BlockNumber(highest(classes)),
                },
            )
        }
    }
}

/// The highest block number among the classes; 0 where there is no class.
pub open spec fn highest(classes: Seq<CompiledClass>) -> u64
    decreases classes.len(),
{
    if classes.len() == 0 {
        0
    } else {
        let before = highest(classes.drop_last());
        let last = classes.last().block_number.0;
        if before < last {
            last
        } else {
            before
        }
    }
}

/// The highest block number is the block number of one of the classes, and
/// no class has a higher one.
pub proof fn lemma_highest(classes: Seq<CompiledClass>)
    requires
        classes.len() > 0,
    ensures
        forall|i: int| 0 <= i < classes.len() ==> (#[trigger] classes[i]).block_number.0 <= highest(classes),
        exists|i: int| 0 <= i < classes.len() && (#[trigger] classes[i]).block_number.0 == highest(classes),
    decreases classes.len(),
{
    let before = classes.drop_last();
    if before.len() > 0 {
        lemma_highest(before);
        let k = choose|i: int|
            0 <= i < before.len() && (#[trigger] before[i]).block_number.0 == highest(before);
        assert(classes[k] == before[k]);
        assert forall|i: int| 0 <= i < classes.len() implies (#[trigger] classes[i]).block_number.0
            <= highest(classes) by {
            if i < before.len() {
                assert(classes[i] == before[i]);
            }
        }
        if highest(before) < classes.last().block_number.0 {
            assert(classes[classes.len() - 1].block_number.0 == highest(classes));
        } else {
            assert(classes[k].block_number.0 == highest(classes));
        }
    } else {
        assert(highest(before) == 0);
        assert(classes[0].block_number.0 == highest(classes));
    }
}

/// A storage transaction between a request and its answer.
#[derive(Debug)]
pub struct Store {
    pending: VecDeque<CompiledClass>,
    asked: Asked,
    tail: BlockNumber,
}

impl View for Store {
    type V = StoreModel;

    closed spec fn view(&self) -> StoreModel {
        StoreModel { pending: self.pending@, asked: self.asked, tail: self.tail }
    }
}

/// A step of the machine as a step of its model.
pub open spec fn step_view(step: Step<Store>) -> Step<StoreModel> {
    match step {
        Step::Request(request, store) => Step::Request(request, store@),
        Step::Finished(outcome) => Step::Finished(outcome),
    }
}

/// The classes of a batch without their peers.
pub open spec fn batch_classes(classes: Seq<PeerData<CompiledClass>>) -> Seq<CompiledClass> {
    Seq::new(classes.len(), |i: int| classes[i].data)
}

impl Store {
    fn proceed(mut pending: VecDeque<CompiledClass>, tail: BlockNumber) -> (r: Step<Store>)
        ensures
            step_view(r) == StoreModel::proceed(pending@, tail),
    {
        match pending.pop_front() {
            None => Step::Request(
                StorageRequest::Commit,
                Store { pending, asked: Asked::Commit, tail },
            ),
            Some(class) => match class.definition {
                CompiledClassDefinition::Cairo(definition) => Step::Request(
                    StorageRequest::UpdateCairoClass { hash: class.hash, definition },
                    Store { pending, asked: Asked::Operation, tail },
                ),
                CompiledClassDefinition::Sierra { .. } => Step::Request(
                    StorageRequest::CasmHash { hash: class.hash },
                    Store { pending, asked: Asked::CasmHash(class), tail },
                ),
            },
        }
    }

    /// Starts the transaction that persists one class.
    pub fn map(input: CompiledClass) -> (r: Step<Store>)
        ensures
            step_view(r) == StoreModel::begin(seq![input]),
    {
        let tail = input.block_number;
        let mut pending: VecDeque<CompiledClass> = VecDeque::new();
        pending.push_back(input);
        assert(pending@ =~= seq![input]);
        assert(highest(seq![input]) == input.block_number.0) by {
            reveal_with_fuel(highest, 2);
            assert(seq![input].drop_last() =~= Seq::<CompiledClass>::empty());
        }
        Step::Request(StorageRequest::Begin, Store { pending, asked: Asked::Operation, tail })
    }

    /// Takes the storage's answer to the request that was handed out with
    /// this machine.
    pub fn resume(self, reply: StorageReply) -> (r: Step<Store>)
        ensures
            step_view(r) == self@.resume(reply),
    {
        let Store { pending, asked, tail } = self;
        match asked {
            Asked::Operation => match reply {
                StorageReply::Done => Store::proceed(pending, tail),
                _ => Step::Finished(Err(SyncError2::Storage)),
            },
            Asked::CasmHash(class) => match reply {
                StorageReply::CasmHash(Some(casm_hash)) => {
                    let hash = SierraHash(class.hash.0);
                    let request = match class.definition {
                        CompiledClassDefinition::Sierra {
                            sierra_definition,
                            casm_definition,
                        } => StorageRequest::UpdateSierraClass {
                            hash,
                            sierra_definition,
                            casm_hash,
                            casm_definition,
                        },
                        CompiledClassDefinition::Cairo(definition) => {
                            StorageRequest::UpdateCairoClass { hash: class.hash, definition }
                        },
                    };
                    Step::Request(request, Store { pending, asked: Asked::Operation, tail })
                },
                StorageReply::CasmHash(None) => Step::Finished(
                    Err(SyncError2::MissingCompiledHashMapping),
                ),
                _ => Step::Finished(Err(SyncError2::Storage)),
            },
            Asked::Commit => match reply {
                StorageReply::Done => Step::Finished(Ok(tail)),
                _ => Step::Finished(Err(SyncError2::Storage)),
            },
        }
    }
}

/// Starts the transaction that persists a batch of classes, in the order of
/// the batch.  Once committed it reports the highest block number of the
/// batch.  An empty batch is an error and touches nothing.
pub fn persist(classes: Vec<PeerData<CompiledClass>>) -> (r: Step<Store>)
    ensures
        step_view(r) == StoreModel::begin(batch_classes(classes@)),
{
    let mut pending: VecDeque<CompiledClass> = VecDeque::new();
    let mut tail = BlockNumber(0);
    for class in it: classes
        invariant
            it.seq() == classes@,
            pending@ == batch_classes(classes@.subrange(0, it.index() as int)),
            tail.0 == highest(pending@),
    {
        let ghost before = pending@;
        if tail.0 < class.data.block_number.0 {
            tail = class.data.block_number;
        }
        pending.push_back(class.data);
        assert(pending@.drop_last() =~= before);
        assert(pending@ =~= batch_classes(classes@.subrange(0, it.index() + 1)));
    }
    assert(classes@.subrange(0, classes@.len() as int) =~= classes@);
    if pending.len() == 0 {
        Step::Finished(Err(SyncError2::EmptyBatch))
    } else {
        Step::Request(StorageRequest::Begin, Store { pending, asked: Asked::Operation, tail })
    }
}


/// What a transaction asked of the storage, and how it ended.
pub struct Trace {
    /// The requests in the order in which they were handed out.
    pub requests: Seq<StorageRequest>,
    /// The outcome, once the transaction has finished.
    pub outcome: Option<Result<BlockNumber, SyncError2>>,
}

/// The course of a transaction from `step` on when the storage answers the
/// requests with `replies`, one after the other.
pub open spec fn run(step: Step<StoreModel>, replies: Seq<StorageReply>) -> Trace
    decreases replies.len(),
{
    match step {
        Step::Finished(outcome) => Trace { requests: seq![], outcome: Some(outcome) },
        Step::Request(request, model) => if replies.len() == 0 {
            Trace { requests: seq![request], outcome: None }
        } else {
            let rest = run(model.resume(replies[0]), replies.subrange(1, replies.len() as int));
            Trace { requests: seq![request] + rest.requests, outcome: rest.outcome }
        },
    }
}

/// The request of a step is the commit exactly when the machine waits for
/// the answer to a commit.
pub open spec fn consistent(step: Step<StoreModel>) -> bool {
    match step {
        Step::Request(request, model) => (request is Commit) == (model.asked is Commit),
        Step::Finished(_) => true,
    }
}

/// The storage committed: it answered a commit with `Done`.
pub open spec fn committed(trace: Trace, replies: Seq<StorageReply>) -> bool {
    exists|i: int|
        0 <= i < trace.requests.len() && i < replies.len() && (#[trigger] trace.requests[i]) is Commit
            && replies[i] is Done
}

/// Every step that the machine takes is consistent.
pub proof fn lemma_steps_consistent(classes: Seq<CompiledClass>, model: StoreModel, reply: StorageReply)
    ensures
        consistent(StoreModel::begin(classes)),
        consistent(StoreModel::proceed(model.pending, model.tail)),
        consistent(model.resume(reply)),
{
}

/// From a consistent request on: a commit is the last request, and the
/// transaction ends in `Ok` exactly when the storage committed, then with the
/// block number that the machine holds.
pub proof fn lemma_run_commits_last(
    request: StorageRequest,
    model: StoreModel,
    replies: Seq<StorageReply>,
)
    requires
        consistent(Step::Request(request, model)),
    ensures
        ({
            let trace = run(Step::Request(request, model), replies);
            &&& forall|i: int|
                0 <= i < trace.requests.len() && (#[trigger] trace.requests[i]) is Commit ==> i
                    == trace.requests.len() - 1
            &&& 1 <= trace.requests.len() <= replies.len() + 1
            &&& trace.outcome is None <==> trace.requests.len() == replies.len() + 1
            &&& committed(trace, replies) <==> trace.outcome is Some && trace.outcome->0 is Ok
            &&& trace.outcome matches Some(Ok(block)) ==> block == model.tail
        }),
    decreases replies.len(),
{
    let trace = run(Step::Request(request, model), replies);
    if replies.len() > 0 {
        let next = model.resume(replies[0]);
        let rest_replies = replies.subrange(1, replies.len() as int);
        let rest = run(next, rest_replies);
        lemma_steps_consistent(seq![], model, replies[0]);
        assert(trace.requests =~= seq![request] + rest.requests);
        match next {
            Step::Finished(outcome) => {
                assert(trace.requests =~= seq![request]);
                if outcome is Ok {
                    assert(trace.requests[0] is Commit && replies[0] is Done);
                }
            },
            Step::Request(next_request, next_model) => {
                lemma_run_commits_last(next_request, next_model, rest_replies);
                assert forall|i: int|
                    0 <= i < trace.requests.len() && (#[trigger] trace.requests[i]) is Commit implies i
                    == trace.requests.len() - 1 by {
                    if i > 0 {
                        assert(trace.requests[i] == rest.requests[i - 1]);
                    }
                }
                if committed(rest, rest_replies) {
                    let i = choose|i: int|
                        0 <= i < rest.requests.len() && i < rest_replies.len() && (
                        #[trigger] rest.requests[i]) is Commit && rest_replies[i] is Done;
                    assert(trace.requests[i + 1] is Commit && replies[i + 1] is Done);
                }
                if committed(trace, replies) {
                    let i = choose|i: int|
                        0 <= i < trace.requests.len() && i < replies.len() && (
                        #[trigger] trace.requests[i]) is Commit && replies[i] is Done;
                    if i > 0 {
                        assert(rest.requests[i - 1] is Commit && rest_replies[i - 1] is Done);
                    }
                }
            },
        }
    }
}

/// A batch is persisted as a whole or not at all.  Whatever the storage
/// answers: if the transaction ends in an error, no commit went through, so
/// what was written inside the transaction is discarded with it; it ends in
/// `Ok` only after the commit went through, and then reports the highest
/// block number of the batch.  Nothing is asked of the storage after a
/// commit.
pub proof fn lemma_persist_is_atomic(classes: Seq<CompiledClass>, replies: Seq<StorageReply>)
    ensures
        ({
            let trace = run(StoreModel::begin(classes), replies);
            &&& trace.outcome matches Some(Err(_)) ==> !committed(trace, replies)
            &&& trace.outcome matches Some(Ok(block)) ==> {
                &&& committed(trace, replies)
                &&& forall|i: int|
                    0 <= i < classes.len() ==> (#[trigger] classes[i]).block_number.0 <= block.0
                &&& exists|i: int|
                    0 <= i < classes.len() && (#[trigger] classes[i]).block_number == block
            }
            &&& forall|i: int|
                0 <= i < trace.requests.len() && (#[trigger] trace.requests[i]) is Commit ==> i
                    == trace.requests.len() - 1
        }),
{
    match StoreModel::begin(classes) {
        Step::Finished(_) => {},
        Step::Request(request, model) => {
            lemma_run_commits_last(request, model, replies);
            lemma_highest(classes);
        },
    }
}

/// What a storage answers that carries every operation out and holds the
/// compiled-class hashes `casm_hashes`.
pub open spec fn answer(casm_hashes: Map<ClassHash, CasmHash>, request: StorageRequest) -> StorageReply {
    match request {
        StorageRequest::CasmHash { hash } => StorageReply::CasmHash(
            if casm_hashes.dom().contains(hash) {
                Some(casm_hashes[hash])
            } else {
                None
            },
        ),
        _ => StorageReply::Done,
    }
}

/// A bound on the number of requests that are still to come.
pub open spec fn requests_left(step: Step<StoreModel>) -> nat {
    match step {
        Step::Finished(_) => 0,
        Step::Request(_, model) => 2 * model.pending.len() + match model.asked {
            Asked::Commit => 1nat,
            Asked::Operation => 2nat,
            Asked::CasmHash(_) => 3nat,
        },
    }
}

/// The course of a transaction from `step` on against a storage that
/// carries every operation out and holds the compiled-class hashes
/// `casm_hashes`.
pub open spec fn served(step: Step<StoreModel>, casm_hashes: Map<ClassHash, CasmHash>) -> Trace
    decreases requests_left(step),
{
    match step {
        Step::Finished(outcome) => Trace { requests: seq![], outcome: Some(outcome) },
        Step::Request(request, model) => {
            let rest = served(model.resume(answer(casm_hashes, request)), casm_hashes);
            Trace { requests: seq![request] + rest.requests, outcome: rest.outcome }
        },
    }
}

/// What persisting `classes` comes to, class by class in the order of the
/// batch: a Cairo class is written; for a Sierra class the compiled-class
/// hash is looked up, and the class is written with it; the first Sierra
/// class without such a hash ends the transaction with an error; after the
/// last class the transaction is committed and reports `tail`.
pub open spec fn planned(
    classes: Seq<CompiledClass>,
    tail: BlockNumber,
    casm_hashes: Map<ClassHash, CasmHash>,
) -> Trace
    decreases classes.len(),
{
    if classes.len() == 0 {
        Trace { requests: seq![StorageRequest::Commit], outcome: Some(Ok(tail)) }
    } else {
        let class = classes[0];
        let rest = planned(classes.subrange(1, classes.len() as int), tail, casm_hashes);
        match class.definition {
            CompiledClassDefinition::Cairo(definition) => Trace {
                requests: seq![StorageRequest::UpdateCairoClass { hash: class.hash, definition }]
                    + rest.requests,
                outcome: rest.outcome,
            },
            CompiledClassDefinition::Sierra { sierra_definition, casm_definition } => {
                let lookup = StorageRequest::CasmHash { hash: class.hash };
                if casm_hashes.dom().contains(class.hash) {
                    Trace {
                        requests: seq![
                            lookup,
                            StorageRequest::UpdateSierraClass {
                                hash: SierraHash(class.hash.0),
                                sierra_definition,
                                casm_hash: casm_hashes[class.hash],
                                casm_definition,
                            },
                        ] + rest.requests,
                        outcome: rest.outcome,
                    }
                } else {
                    Trace {
                        requests: seq![lookup],
                        outcome: Some(Err(SyncError2::MissingCompiledHashMapping)),
                    }
                }
            },
        }
    }
}

/// Against a storage that carries every operation out, the machine asks
/// for the pending classes what [`planned`] says, and ends as it says.
pub proof fn lemma_served_as_planned(
    pending: Seq<CompiledClass>,
    tail: BlockNumber,
    casm_hashes: Map<ClassHash, CasmHash>,
)
    ensures
        served(StoreModel::proceed(pending, tail), casm_hashes) == planned(
            pending,
            tail,
            casm_hashes,
        ),
    decreases pending.len(),
{
    reveal_with_fuel(served, 3);
    let plan = planned(pending, tail, casm_hashes);
    let trace = served(StoreModel::proceed(pending, tail), casm_hashes);
    if pending.len() == 0 {
        assert(trace.requests =~= plan.requests);
    } else {
        let class = pending[0];
        let rest = pending.subrange(1, pending.len() as int);
        lemma_served_as_planned(rest, tail, casm_hashes);
        match class.definition {
            CompiledClassDefinition::Cairo(definition) => {
                assert(trace.requests =~= plan.requests);
            },
            CompiledClassDefinition::Sierra { sierra_definition, casm_definition } => {
                if casm_hashes.dom().contains(class.hash) {
                    let after_lookup = planned(rest, tail, casm_hashes);
                    assert(trace.requests =~= seq![
                        StorageRequest::CasmHash { hash: class.hash },
                        StoreModel::sierra_update(class, casm_hashes[class.hash]),
                    ] + after_lookup.requests);
                    assert(trace.requests =~= plan.requests);
                } else {
                    assert(trace.requests =~= plan.requests);
                }
            },
        }
    }
}

/// Against a storage that carries every operation out, persisting a batch
/// opens a transaction and then goes as [`planned`], reporting the highest
/// block number of the batch.
pub proof fn lemma_persist_as_planned(
    classes: Seq<CompiledClass>,
    casm_hashes: Map<ClassHash, CasmHash>,
)
    requires
        classes.len() > 0,
    ensures
        ({
            let trace = served(StoreModel::begin(classes), casm_hashes);
            let plan = planned(classes, BlockNumber(highest(classes)), casm_hashes);
            &&& trace.requests == seq![StorageRequest::Begin] + plan.requests
            &&& trace.outcome == plan.outcome
        }),
{
    reveal_with_fuel(served, 2);
    lemma_served_as_planned(classes, BlockNumber(highest(classes)), casm_hashes);
}

/// A Sierra class that the local compiler failed on is stored with the
/// bytes that the gateway returned, unchanged, under the compiled-class hash
/// that the storage holds for it.
pub proof fn lemma_fetched_casm_is_persisted(
    class: Class,
    sierra_definition: Vec<u8>,
    fetched: Vec<u8>,
    casm_hash: CasmHash,
)
    requires
        class.definition == ClassDefinition::Sierra(sierra_definition),
    ensures
        compiled(class, None, Some(fetched)) matches Ok(stored) && run(
            StoreModel::begin(seq![stored]),
            seq![
                StorageReply::Done,
                StorageReply::CasmHash(Some(casm_hash)),
                StorageReply::Done,
                StorageReply::Done,
            ],
        ) == (Trace {
            requests: seq![
                StorageRequest::Begin,
                StorageRequest::CasmHash { hash: class.hash },
                StorageRequest::UpdateSierraClass {
                    hash: SierraHash(class.hash.0),
                    sierra_definition,
                    casm_hash,
                    casm_definition: fetched,
                },
                StorageRequest::Commit,
            ],
            outcome: Some(Ok(class.block_number)),
        }),
{
    let stored = compiled(class, None, Some(fetched))->Ok_0;
    assert(highest(seq![stored]) == class.block_number.0) by {
        reveal_with_fuel(highest, 2);
        assert(seq![stored].drop_last() =~= Seq::<CompiledClass>::empty());
    }
    let r0 = seq![
        StorageReply::Done,
        StorageReply::CasmHash(Some(casm_hash)),
        StorageReply::Done,
        StorageReply::Done,
    ];
    let r1 = r0.subrange(1, 4);
    let r2 = r1.subrange(1, 3);
    let r3 = r2.subrange(1, 2);
    let r4 = r3.subrange(1, 1);
    let s0 = StoreModel::begin(seq![stored]);
    let s1 = s0->Request_1.resume(r0[0]);
    assert(seq![stored].subrange(1, 1) =~= Seq::<CompiledClass>::empty());
    let s2 = s1->Request_1.resume(r1[0]);
    let s3 = s2->Request_1.resume(r2[0]);
    let s4 = s3->Request_1.resume(r3[0]);
    assert(s4 == Step::<StoreModel>::Finished(Ok(class.block_number)));
    assert(run(s4, r4).requests =~= seq![]);
    assert(run(s3, r3).requests =~= seq![StorageRequest::Commit]);
    assert(run(s2, r2).requests =~= seq![s2->Request_0, StorageRequest::Commit]);
    assert(run(s1, r1).requests =~= seq![s1->Request_0, s2->Request_0, StorageRequest::Commit]);
    assert(run(s0, r0).requests =~= seq![
        StorageRequest::Begin,
        s1->Request_0,
        s2->Request_0,
        StorageRequest::Commit,
    ]);
}

} // verus!
