//! The stream of expected declarations: for every block of a range, in
//! ascending order, the classes that the block's header declares.  Blocks
//! that declare nothing are left out.
//!
//! The storage is the caller's.  [`ExpectedDeclarationsSource`] says which
//! block to query next and takes the answer.

use vstd::prelude::*;
use crate::class::{BlockNumber, ClassHash};
use crate::declared::{ClassHashSet, ExpectedDeclarations};
use crate::deque::into_deque;
use crate::error::SyncError;

verus! {

/// What the storage answered when asked which classes a block declares.
#[derive(Clone, Debug, PartialEq, Eq)]
pub enum Declared {
    /// The hashes of the declared classes.
    Classes(Vec<ClassHash>),
    /// The storage has no header for the block.
    NoHeader,
    /// The storage reported an error.
    Failed,
}

/// An item of the stream as a mathematical value.
pub type ExpectedView = Result<(BlockNumber, Set<ClassHash>), SyncError>;

/// An item of the stream as a mathematical value.
pub open spec fn expected_view(item: Result<ExpectedDeclarations, SyncError>) -> ExpectedView {
    match item {
        Ok(expected) => Ok((expected.block_number, expected.classes@)),
        Err(error) => Err(error),
    }
}

/// The stream for the blocks from `block` to `stop`, where `answers` holds
/// what the storage answers for these blocks, one after the other.  The
/// stream ends with the range, with the answers, or with the first block
/// for which the storage has no header or fails; it then ends with that
/// error.
pub open spec fn expected_stream(block: u64, stop: u64, answers: Seq<Declared>) -> Seq<
    ExpectedView,
>
    decreases answers.len(),
{
    if block > stop || answers.len() == 0 {
        seq![]
    } else {
        match answers[0] {
            Declared::Failed => seq![Err(SyncError::Storage)],
            Declared::NoHeader => seq![Err(SyncError::MissingBlockHeader)],
            Declared::Classes(hashes) => {
                let rest = if block == stop {
                    seq![]
                } else {
                    expected_stream((block + 1) as u64, stop, answers.drop_first())
                };
                if hashes@.to_set() == Set::<ClassHash>::empty() {
                    rest
                } else {
                    seq![Ok((BlockNumber(block), hashes@.to_set()))] + rest
                }
            },
        }
    }
}

/// The source between two queries, as a mathematical value: the blocks
/// that are still to be queried, if any.
pub struct SourceModel {
    pub next: u64,
    pub stop: u64,
    pub finished: bool,
}

/// The source between two queries.
#[derive(Clone, Copy, Debug, PartialEq, Eq)]
pub struct ExpectedDeclarationsSource {
    start: BlockNumber,
    stop: BlockNumber,
    finished: bool,
}

/// The source while it waits for the answer to a query.
#[derive(Debug)]
pub struct AwaitingDeclared(ExpectedDeclarationsSource);

/// What the source does next.
#[derive(Debug)]
pub enum Spawned {
    /// It asks which classes this block declares.
    Query(BlockNumber, AwaitingDeclared),
    /// It hands out the next item of the stream.
    Emit(Result<ExpectedDeclarations, SyncError>, ExpectedDeclarationsSource),
    /// The stream has ended.
    Finished,
}

impl View for ExpectedDeclarationsSource {
    type V = SourceModel;

    closed spec fn view(&self) -> SourceModel {
        SourceModel { next: self.start.0, stop: self.stop.0, finished: self.finished }
    }
}

impl View for AwaitingDeclared {
    type V = SourceModel;

    closed spec fn view(&self) -> SourceModel {
        self.0@
    }
}

impl SourceModel {
    /// Nothing is left to query.
    pub open spec fn exhausted(self) -> bool {
        self.finished || self.next > self.stop
    }

    /// The source after the block that it asked about.
    pub open spec fn advanced(self) -> SourceModel {
        if self.next == self.stop {
            SourceModel { finished: true, ..self }
        } else {
            SourceModel { next: (self.next + 1) as u64, ..self }
        }
    }

    /// What is still to leave, when `answers` holds what the storage
    /// answers from here on.
    pub open spec fn output(self, answers: Seq<Declared>) -> Seq<ExpectedView> {
        if self.exhausted() {
            seq![]
        } else {
            expected_stream(self.next, self.stop, answers)
        }
    }
}

impl ExpectedDeclarationsSource {
    /// The source for the blocks from `start` to `stop`, both included.
    pub fn new(start: BlockNumber, stop: BlockNumber) -> (r: ExpectedDeclarationsSource)
        ensures
            r@ == (SourceModel { next: start.0, stop: stop.0, finished: false }),
    {
        ExpectedDeclarationsSource { start, stop, finished: false }
    }

    /// Makes the next move: a query for the next block of the range, or
    /// the end of the stream once the range is worked off.
    pub fn spawn(self) -> (r: Spawned)
        ensures
            match r {
                Spawned::Query(block, waiting) => !self@.exhausted() && block.0 == self@.next
                    && waiting@ == self@,
                Spawned::Finished => self@.exhausted(),
                Spawned::Emit(..) => false,
            },
    {
        if self.finished || self.start.0 > self.stop.0 {
            Spawned::Finished
        } else {
            Spawned::Query(self.start, AwaitingDeclared(self))
        }
    }
}

impl AwaitingDeclared {
    #[verifier::type_invariant]
    spec fn has_asked(&self) -> bool {
        !self.0.finished && self.0.start.0 <= self.0.stop.0
    }

    /// Takes the storage's answer for the block that was asked about.  A
    /// block that declares classes gives an item of the stream; a block that
    /// declares none is passed over, and the source makes its next move at
    /// once; a missing header or a failure gives the error that ends the
    /// stream.
    pub fn provide(self, answer: Declared) -> (r: Spawned)
        ensures
            match answer {
                Declared::Failed => r matches Spawned::Emit(item, next) && item == Err::<
                    ExpectedDeclarations,
                    SyncError,
                >(SyncError::Storage) && next@.exhausted(),
                Declared::NoHeader => r matches Spawned::Emit(item, next) && item == Err::<
                    ExpectedDeclarations,
                    SyncError,
                >(SyncError::MissingBlockHeader) && next@.exhausted(),
                Declared::Classes(hashes) => if hashes@.to_set() == Set::<ClassHash>::empty() {
                    match r {
                        Spawned::Query(block, waiting) => !self@.advanced().exhausted()
                            && block.0 == self@.advanced().next && waiting@ == self@.advanced(),
                        Spawned::Finished => self@.advanced().exhausted(),
                        Spawned::Emit(..) => false,
                    }
                } else {
                    r matches Spawned::Emit(item, next) && expected_view(item) == Ok::<
                        (BlockNumber, Set<ClassHash>),
                        SyncError,
                    >((BlockNumber(self@.next), hashes@.to_set())) && next@ == self@.advanced()
                },
            },
    {
        proof {
            use_type_invariant(&self);
        }
        let ExpectedDeclarationsSource { start, stop, finished } = self.0;
        let ended = ExpectedDeclarationsSource { start, stop, finished: true };
        match answer {
            Declared::Failed => Spawned::Emit(Err(SyncError::Storage), ended),
            Declared::NoHeader => Spawned::Emit(Err(SyncError::MissingBlockHeader), ended),
            Declared::Classes(hashes) => {
                let next = if start.0 == stop.0 {
                    ended
                } else {
                    ExpectedDeclarationsSource {
                        start: BlockNumber(start.0 + 1),
                        stop,
                        finished: false,
                    }
                };
                let classes = ClassHashSet::from_vec(&hashes);
                if classes.is_empty() {
                    next.spawn()
                } else {
                    Spawned::Emit(Ok(ExpectedDeclarations { block_number: start, classes }), next)
                }
            },
        }
    }
}

/// What is still to leave after a move of the source, when `answers` holds
/// what the storage answers from here on.
pub open spec fn pending(step: Spawned, answers: Seq<Declared>) -> Seq<ExpectedView> {
    match step {
        Spawned::Finished => seq![],
        Spawned::Emit(item, next) => seq![expected_view(item)] + next@.output(answers),
        Spawned::Query(_, waiting) => waiting@.output(answers),
    }
}

/// The items of a stream as mathematical values.
pub open spec fn expected_views(items: Seq<Result<ExpectedDeclarations, SyncError>>) -> Seq<
    ExpectedView,
> {
    Seq::new(items.len(), |i: int| expected_view(items[i]))
}

/// The stream of expected declarations for the blocks from `start` to
/// `stop`, from the storage's answers for these blocks, see
/// [`expected_stream`].
pub fn expected_declarations_stream(start: BlockNumber, stop: BlockNumber, answers: Vec<Declared>) -> (r:
    Vec<Result<ExpectedDeclarations, SyncError>>)
    ensures
        expected_views(r@) == expected_stream(start.0, stop.0, answers@),
{
    let ghost whole = expected_stream(start.0, stop.0, answers@);
    let mut answers_left = into_deque(answers);
    let mut output: Vec<Result<ExpectedDeclarations, SyncError>> = Vec::new();
    let mut step = ExpectedDeclarationsSource::new(start, stop).spawn();
    loop
        invariant
            whole == expected_stream(start.0, stop.0, answers@),
            expected_views(output@) + pending(step, answers_left@) == whole,
        decreases answers_left@.len(), (if step is Emit { 1nat } else { 0nat }),
    {
        match step {
            Spawned::Finished => {
                assert(expected_views(output@) + Seq::<ExpectedView>::empty() =~= expected_views(
                    output@,
                ));
                return output;
            },
            Spawned::Emit(item, next) => {
                assert(expected_views(output@.push(item)) =~= expected_views(output@) + seq![
                    expected_view(item),
                ]);
                assert(expected_views(output@) + (seq![expected_view(item)] + next@.output(
                    answers_left@,
                )) =~= expected_views(output@) + seq![expected_view(item)] + next@.output(
                    answers_left@,
                ));
                output.push(item);
                step = next.spawn();
            },
            Spawned::Query(block, waiting) => {
                proof {
                    use_type_invariant(&waiting);
                }
                match answers_left.pop_front() {
                    None => {
                        assert(expected_views(output@) + Seq::<ExpectedView>::empty()
                            =~= expected_views(output@));
                        return output;
                    },
                    Some(answer) => {
                        step = waiting.provide(answer);
                    },
                }
            },
        }
    }
}

/// The stream names blocks of the range only, in strictly ascending order,
/// and no block that declares nothing; an error is its last item.
pub proof fn lemma_expected_stream_ascends(block: u64, stop: u64, answers: Seq<Declared>)
    ensures
        ({
            let stream = expected_stream(block, stop, answers);
            &&& forall|i: int|
                0 <= i < stream.len() && (#[trigger] stream[i]) is Ok ==> block
                    <= stream[i]->Ok_0.0.0 <= stop && stream[i]->Ok_0.1 != Set::<
                    ClassHash,
                >::empty()
            &&& forall|i: int, j: int|
                0 <= i < j < stream.len() && (#[trigger] stream[i]) is Ok && (
                #[trigger] stream[j]) is Ok ==> stream[i]->Ok_0.0.0 < stream[j]->Ok_0.0.0
            &&& forall|i: int|
                0 <= i < stream.len() && (#[trigger] stream[i]) is Err ==> i == stream.len() - 1
        }),
    decreases answers.len(),
{
    let stream = expected_stream(block, stop, answers);
    if block <= stop && answers.len() > 0 {
        match answers[0] {
            Declared::Classes(hashes) => {
                if block < stop {
                    let rest = expected_stream((block + 1) as u64, stop, answers.drop_first());
                    lemma_expected_stream_ascends((block + 1) as u64, stop, answers.drop_first());
                    if hashes@.to_set() != Set::<ClassHash>::empty() {
                        assert(stream =~= seq![
                            Ok::<(BlockNumber, Set<ClassHash>), SyncError>(
                                (BlockNumber(block), hashes@.to_set()),
                            ),
                        ] + rest);
                        assert forall|i: int| 0 < i < stream.len() implies #[trigger] stream[i]
                            == rest[i - 1] by {}
                    }
                }
            },
            _ => {},
        }
    }
}

} // verus!
