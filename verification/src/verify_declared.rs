//! Making sure that classes are declared at the blocks they arrive for.
//!
//! Two streams meet here.  The trusted one says, block by block in ascending
//! order, which classes are declared.  The other brings the classes that
//! peers sent, hashed, in chunks: the classes of a chunk share a block, and
//! the classes of a block may come in several chunks.  What leaves is a
//! stream of single classes, each declared at its block, that ends with the
//! first inconsistency.
//!
//! Reading the streams is the caller's work.  [`DeclarationMatcher`] says
//! which stream it needs the next item of and takes the item;
//! [`verify_declared_at`] does the same for streams that are at hand as a
//! whole.

use vstd::prelude::*;
use std::collections::VecDeque;
use crate::class::{BlockNumber, Class, ClassHash, PeerData};
use crate::declared::{ClassHashSet, ExpectedDeclarations};
use crate::deque::into_deque;
use crate::error::{SyncError, SyncError2};
use crate::expected::{expected_stream, expected_views, lemma_expected_stream_ascends, Declared};

verus! {

/// An item of the stream of expected declarations.
pub type Expected = Result<ExpectedDeclarations, SyncError>;

/// An item of the stream of classes: a chunk.
pub type Chunk = Result<Vec<PeerData<Class>>, SyncError>;

/// An item of the stream that leaves, and of the stream of classes once the
/// chunks are taken apart.
pub type Item = Result<PeerData<Class>, SyncError>;

/// The classes of a chunk as items of a stream.
pub open spec fn items_of(classes: Seq<PeerData<Class>>) -> Seq<Item> {
    Seq::new(classes.len(), |i: int| Ok(classes[i]))
}

/// The stream of classes without its chunk boundaries.
pub open spec fn flatten(chunks: Seq<Chunk>) -> Seq<Item>
    decreases chunks.len(),
{
    if chunks.len() == 0 {
        seq![]
    } else {
        (match chunks[0] {
            Ok(classes) => items_of(classes@),
            Err(error) => seq![Err(error)],
        }) + flatten(chunks.drop_first())
    }
}

/// What leaves when `declared` is what is still expected at block
/// `declared_at`, `expected` is the rest of the expected declarations and
/// `classes` the rest of the classes.
///
/// While nothing is expected, the next expected declarations are taken; the
/// output ends when there are none.  Else the next class is taken; the
/// output ends when there is none.  A class that is expected at its block
/// leaves, and is no longer expected.  Any other class ends the output with
/// an error that names its peer.  An error in either stream is passed on
/// and ends the output.
pub open spec fn matched(
    declared_at: BlockNumber,
    declared: Set<ClassHash>,
    expected: Seq<Expected>,
    classes: Seq<Item>,
) -> Seq<Item>
    decreases expected.len(), classes.len(),
{
    if declared == Set::<ClassHash>::empty() {
        if expected.len() == 0 {
            seq![]
        } else {
            match expected[0] {
                Err(error) => seq![Err(error)],
                Ok(next) => matched(
                    next.block_number,
                    next.classes@,
                    expected.drop_first(),
                    classes,
                ),
            }
        }
    } else if classes.len() == 0 {
        seq![]
    } else {
        match classes[0] {
            Err(error) => seq![Err(error)],
            Ok(class) => if class.data.block_number == declared_at && declared.contains(
                class.data.hash,
            ) {
                seq![Ok(class)] + matched(
                    declared_at,
                    declared.remove(class.data.hash),
                    expected,
                    classes.drop_first(),
                )
            } else {
                seq![Err(SyncError::UnexpectedClass(class.peer))]
            },
        }
    }
}

/// What leaves for two whole streams.
pub open spec fn verified(expected: Seq<Expected>, chunks: Seq<Chunk>) -> Seq<Item> {
    matched(BlockNumber(0), Set::<ClassHash>::empty(), expected, flatten(chunks))
}

/// Takes chunks of classes in and hands single classes out, in the order
/// of arrival.
#[derive(Debug)]
pub struct ClassDechunker(VecDeque<PeerData<Class>>);

impl View for ClassDechunker {
    type V = Seq<PeerData<Class>>;

    closed spec fn view(&self) -> Seq<PeerData<Class>> {
        self.0@
    }
}

impl ClassDechunker {
    /// A dechunker that holds no class.
    pub fn new() -> (r: ClassDechunker)
        ensures
            r@ == Seq::<PeerData<Class>>::empty(),
    {
        ClassDechunker(VecDeque::new())
    }

    /// Whether a chunk has to be taken in before a class can be handed out.
    pub fn is_empty(&self) -> (r: bool)
        ensures
            r == (self@.len() == 0),
    {
        self.0.len() == 0
    }

    /// Takes the classes of a chunk in, behind those that are waiting.
    pub fn extend(&mut self, chunk: Vec<PeerData<Class>>)
        ensures
            final(self)@ == old(self)@ + chunk@,
    {
        for class in it: chunk
            invariant
                it.seq() == chunk@,
                self@ == old(self)@ + chunk@.subrange(0, it.index() as int),
        {
            self.0.push_back(class);
            assert(self@ =~= old(self)@ + chunk@.subrange(0, it.index() + 1));
        }
        assert(chunk@.subrange(0, chunk@.len() as int) =~= chunk@);
    }

    /// Hands out the class that has waited longest.
    pub fn next(&mut self) -> (r: Option<PeerData<Class>>)
        ensures
            match r {
                Some(class) => old(self)@.len() > 0 && class == old(self)@[0] && final(self)@
                    == old(self)@.drop_first(),
                None => old(self)@.len() == 0 && final(self)@ == old(self)@,
            },
    {
        let r = self.0.pop_front();
        assert(r is Some ==> self@ =~= old(self)@.drop_first());
        r
    }
}

/// The state of the matcher as a mathematical value.
pub struct MatcherModel {
    /// The block of the expected declarations that are being worked off.
    pub declared_at: BlockNumber,
    /// What is still expected at that block.
    pub declared: Set<ClassHash>,
    /// The classes that were taken in and not yet looked at.
    pub queue: Seq<PeerData<Class>>,
    /// An error of one of the streams that has yet to leave.
    pub failure: Option<SyncError>,
    /// The output has ended.
    pub finished: bool,
}

/// What the matcher does next, as a mathematical value.
pub enum PollModel {
    NeedExpected(MatcherModel),
    NeedClasses(MatcherModel),
    Ready(Item, MatcherModel),
    Finished,
}

impl MatcherModel {
    /// The state before anything has arrived.
    pub open spec fn start() -> MatcherModel {
        MatcherModel {
            declared_at: BlockNumber(0),
            declared: Set::<ClassHash>::empty(),
            queue: Seq::<PeerData<Class>>::empty(),
            failure: None,
            finished: false,
        }
    }

    /// The next move.
    pub open spec fn poll(self) -> PollModel {
        if self.finished {
            PollModel::Finished
        } else if self.failure is Some {
            PollModel::Ready(
                Err(self.failure->0),
                MatcherModel { failure: None, finished: true, ..self },
            )
        } else if self.declared == Set::<ClassHash>::empty() {
            PollModel::NeedExpected(self)
        } else if self.queue.len() == 0 {
            PollModel::NeedClasses(self)
        } else {
            let class = self.queue[0];
            let queue = self.queue.drop_first();
            if class.data.block_number == self.declared_at && self.declared.contains(
                class.data.hash,
            ) {
                PollModel::Ready(
                    Ok(class),
                    MatcherModel { declared: self.declared.remove(class.data.hash), queue, ..self },
                )
            } else {
                PollModel::Ready(
                    Err(SyncError::UnexpectedClass(class.peer)),
                    MatcherModel { queue, finished: true, ..self },
                )
            }
        }
    }

    /// The state after the next item of the expected declarations has
    /// arrived (`None`: the stream has ended).
    pub open spec fn expected(self, item: Option<Expected>) -> MatcherModel {
        match item {
            None => MatcherModel { finished: true, ..self },
            Some(Err(error)) => MatcherModel { failure: Some(error), ..self },
            Some(Ok(next)) => MatcherModel {
                declared_at: next.block_number,
                declared: next.classes@,
                ..self
            },
        }
    }

    /// The state after the next chunk of classes has arrived (`None`: the
    /// stream has ended).
    pub open spec fn classes(self, item: Option<Chunk>) -> MatcherModel {
        match item {
            None => MatcherModel { finished: true, ..self },
            Some(Err(error)) => MatcherModel { failure: Some(error), ..self },
            Some(Ok(chunk)) => MatcherModel { queue: self.queue + chunk@, ..self },
        }
    }

    /// What is still to leave, when `expected` and `chunks` are what the two
    /// streams still hold.
    pub open spec fn output(self, expected: Seq<Expected>, chunks: Seq<Chunk>) -> Seq<Item> {
        if self.finished {
            seq![]
        } else if self.failure is Some {
            seq![Err(self.failure->0)]
        } else {
            matched(
                self.declared_at,
                self.declared,
                expected,
                items_of(self.queue) + flatten(chunks),
            )
        }
    }
}

/// The head of a stream, `None` at its end.
pub open spec fn head<T>(stream: Seq<T>) -> Option<T> {
    if stream.len() == 0 {
        None
    } else {
        Some(stream[0])
    }
}

/// The stream without its head.
pub open spec fn tail<T>(stream: Seq<T>) -> Seq<T> {
    if stream.len() == 0 {
        stream
    } else {
        stream.drop_first()
    }
}

/// One move of the matcher hands out the next item of the output, or takes
/// in the head of the stream that it asks for, and leaves the rest of the
/// output as it was.
pub proof fn lemma_poll_keeps_output(model: MatcherModel, expected: Seq<Expected>, chunks: Seq<Chunk>)
    ensures
        model.output(expected, chunks) == match model.poll() {
            PollModel::Finished => seq![],
            PollModel::Ready(item, next) => seq![item] + next.output(expected, chunks),
            PollModel::NeedExpected(waiting) => waiting.expected(head(expected)).output(
                tail(expected),
                chunks,
            ),
            PollModel::NeedClasses(waiting) => waiting.classes(head(chunks)).output(
                expected,
                tail(chunks),
            ),
        },
{
    let classes = items_of(model.queue) + flatten(chunks);
    match model.poll() {
        PollModel::Finished => {},
        PollModel::Ready(item, next) => {
            if model.failure is None {
                assert(classes[0] == Ok::<PeerData<Class>, SyncError>(model.queue[0]));
                assert(classes.drop_first() =~= items_of(model.queue.drop_first()) + flatten(
                    chunks,
                ));
            }
        },
        PollModel::NeedExpected(waiting) => {},
        PollModel::NeedClasses(waiting) => {
            assert(items_of(model.queue) =~= Seq::<Item>::empty());
            assert(classes =~= flatten(chunks));
            match head(chunks) {
                None => {},
                Some(Err(error)) => {
                    assert(flatten(chunks)[0] == Err::<PeerData<Class>, SyncError>(error));
                },
                Some(Ok(chunk)) => {
                    assert(model.queue + chunk@ =~= chunk@);
                },
            }
        },
    }
}

/// The matcher between two moves.
#[derive(Debug)]
pub struct DeclarationMatcher {
    declared_at: BlockNumber,
    declared: ClassHashSet,
    dechunker: ClassDechunker,
    failure: Option<SyncError>,
    finished: bool,
}

/// The matcher while it waits for the next expected declarations.
#[derive(Debug)]
pub struct AwaitingExpected(DeclarationMatcher);

/// The matcher while it waits for the next chunk of classes.
#[derive(Debug)]
pub struct AwaitingClasses(DeclarationMatcher);

/// What the matcher does next.
#[derive(Debug)]
pub enum Poll {
    /// It needs the next item of the stream of expected declarations.
    NeedExpected(AwaitingExpected),
    /// It needs the next item of the stream of classes.
    NeedClasses(AwaitingClasses),
    /// It hands out the next item of the output.
    Ready(Item, DeclarationMatcher),
    /// The output has ended.
    Finished,
}

impl View for DeclarationMatcher {
    type V = MatcherModel;

    closed spec fn view(&self) -> MatcherModel {
        MatcherModel {
            declared_at: self.declared_at,
            declared: self.declared@,
            queue: self.dechunker@,
            failure: self.failure,
            finished: self.finished,
        }
    }
}

impl View for AwaitingExpected {
    type V = MatcherModel;

    closed spec fn view(&self) -> MatcherModel {
        self.0@
    }
}

impl View for AwaitingClasses {
    type V = MatcherModel;

    closed spec fn view(&self) -> MatcherModel {
        self.0@
    }
}

impl View for Poll {
    type V = PollModel;

    open spec fn view(&self) -> PollModel {
        match *self {
            Poll::NeedExpected(waiting) => PollModel::NeedExpected(waiting@),
            Poll::NeedClasses(waiting) => PollModel::NeedClasses(waiting@),
            Poll::Ready(item, next) => PollModel::Ready(item, next@),
            Poll::Finished => PollModel::Finished,
        }
    }
}

impl DeclarationMatcher {
    /// A matcher that nothing has arrived at yet.
    pub fn new() -> (r: DeclarationMatcher)
        ensures
            r@ == MatcherModel::start(),
    {
        DeclarationMatcher {
            declared_at: BlockNumber(0),
            declared: ClassHashSet::new(),
            dechunker: ClassDechunker::new(),
            failure: None,
            finished: false,
        }
    }

    /// Makes the next move.
    pub fn poll(self) -> (r: Poll)
        ensures
            r@ == self@.poll(),
    {
        let DeclarationMatcher { declared_at, mut declared, mut dechunker, failure, finished } =
            self;
        if finished {
            return Poll::Finished;
        }
        match failure {
            Some(error) => {
                return Poll::Ready(
                    Err(error),
                    DeclarationMatcher {
                        declared_at,
                        declared,
                        dechunker,
                        failure: None,
                        finished: true,
                    },
                );
            },
            None => {},
        }
        if declared.is_empty() {
            return Poll::NeedExpected(
                AwaitingExpected(
                    DeclarationMatcher { declared_at, declared, dechunker, failure: None, finished },
                ),
            );
        }
        match dechunker.next() {
            None => Poll::NeedClasses(
                AwaitingClasses(
                    DeclarationMatcher { declared_at, declared, dechunker, failure: None, finished },
                ),
            ),
            Some(class) => {
                let ghost before = declared@;
                if class.data.block_number.0 == declared_at.0 && declared.remove(&class.data.hash) {
                    Poll::Ready(
                        Ok(class),
                        DeclarationMatcher {
                            declared_at,
                            declared,
                            dechunker,
                            failure: None,
                            finished,
                        },
                    )
                } else {
                    assert(declared@ =~= before);
                    let PeerData { peer, data: _ } = class;
                    Poll::Ready(
                        Err(SyncError::UnexpectedClass(peer)),
                        DeclarationMatcher {
                            declared_at,
                            declared,
                            dechunker,
                            failure: None,
                            finished: true,
                        },
                    )
                }
            },
        }
    }
}

impl AwaitingExpected {
    /// Takes the next item of the stream of expected declarations; `None`
    /// says that the stream has ended.
    pub fn provide(self, item: Option<Expected>) -> (r: DeclarationMatcher)
        ensures
            r@ == self@.expected(item),
    {
        let DeclarationMatcher { declared_at, declared, dechunker, failure, finished } = self.0;
        match item {
            None => DeclarationMatcher { declared_at, declared, dechunker, failure, finished: true },
            Some(Err(error)) => DeclarationMatcher {
                declared_at,
                declared,
                dechunker,
                failure: Some(error),
                finished,
            },
            Some(Ok(next)) => DeclarationMatcher {
                declared_at: next.block_number,
                declared: next.classes,
                dechunker,
                failure,
                finished,
            },
        }
    }
}

impl AwaitingClasses {
    /// Takes the next item of the stream of classes; `None` says that the
    /// stream has ended.
    pub fn provide(self, item: Option<Chunk>) -> (r: DeclarationMatcher)
        ensures
            r@ == self@.classes(item),
    {
        let DeclarationMatcher { declared_at, declared, mut dechunker, failure, finished } = self.0;
        match item {
            None => DeclarationMatcher { declared_at, declared, dechunker, failure, finished: true },
            Some(Err(error)) => DeclarationMatcher {
                declared_at,
                declared,
                dechunker,
                failure: Some(error),
                finished,
            },
            Some(Ok(chunk)) => {
                dechunker.extend(chunk);
                DeclarationMatcher { declared_at, declared, dechunker, failure, finished }
            },
        }
    }
}

/// How far the matcher is from its end, beside what the streams still hold.
pub open spec fn moves_left(model: MatcherModel) -> nat {
    if model.finished {
        0
    } else if model.failure is Some {
        1
    } else {
        2
    }
}

/// Matches two streams that are at hand as a whole: `expected` holds the
/// expected declarations in ascending order of their blocks, `classes` the
/// chunks of classes in the order of their arrival.  What comes back is
/// what leaves the matcher, see [`matched`]: the classes that are declared
/// at their blocks, in the order of arrival, up to the first inconsistency.
pub fn verify_declared_at(expected: Vec<Expected>, classes: Vec<Chunk>) -> (r: Vec<Item>)
    ensures
        r@ == verified(expected@, classes@),
{
    let ghost whole = verified(expected@, classes@);
    let mut expected_left = into_deque(expected);
    let mut classes_left = into_deque(classes);
    let mut output: Vec<Item> = Vec::new();
    let mut matcher = DeclarationMatcher::new();
    assert(items_of(matcher@.queue) + flatten(classes_left@) =~= flatten(classes_left@));
    loop
        invariant
            whole == verified(expected@, classes@),
            output@ + matcher@.output(expected_left@, classes_left@) == whole,
        decreases
                expected_left@.len(),
                classes_left@.len(),
                matcher@.queue.len(),
                moves_left(matcher@),
    {
        proof {
            lemma_poll_keeps_output(matcher@, expected_left@, classes_left@);
        }
        match matcher.poll() {
            Poll::Finished => {
                assert(output@ + Seq::<Item>::empty() =~= output@);
                return output;
            },
            Poll::Ready(item, next) => {
                assert(output@.push(item) + next@.output(expected_left@, classes_left@) =~= output@
                    + (seq![item] + next@.output(expected_left@, classes_left@)));
                output.push(item);
                matcher = next;
            },
            Poll::NeedExpected(waiting) => {
                let item = expected_left.pop_front();
                matcher = waiting.provide(item);
            },
            Poll::NeedClasses(waiting) => {
                let item = classes_left.pop_front();
                matcher = waiting.provide(item);
            },
        }
    }
}

/// The classes of some chunks, one chunk after the other.
pub open spec fn concat(parts: Seq<Vec<PeerData<Class>>>) -> Seq<PeerData<Class>>
    decreases parts.len(),
{
    if parts.len() == 0 {
        Seq::<PeerData<Class>>::empty()
    } else {
        parts[0]@ + concat(parts.drop_first())
    }
}

/// Chunks that arrived without an error.
pub open spec fn arrived(parts: Seq<Vec<PeerData<Class>>>) -> Seq<Chunk> {
    Seq::new(parts.len(), |i: int| Ok(parts[i]))
}

/// Taking the chunk boundaries out of two runs of chunks, one after the
/// other, is taking them out of each.
pub proof fn lemma_flatten_concat(a: Seq<Chunk>, b: Seq<Chunk>)
    ensures
        flatten(a + b) == flatten(a) + flatten(b),
    decreases a.len(),
{
    if a.len() == 0 {
        assert(a + b =~= b);
        assert(flatten(a) + flatten(b) =~= flatten(b));
    } else {
        lemma_flatten_concat(a.drop_first(), b);
        assert((a + b).drop_first() =~= a.drop_first() + b);
        assert((a + b)[0] == a[0]);
        let first = match a[0] {
            Ok(classes) => items_of(classes@),
            Err(error) => seq![Err(error)],
        };
        assert(first + (flatten(a.drop_first()) + flatten(b)) =~= (first + flatten(
            a.drop_first(),
        )) + flatten(b));
    }
}

/// Without their boundaries, chunks that arrived are their classes.
pub proof fn lemma_flatten_arrived(parts: Seq<Vec<PeerData<Class>>>)
    ensures
        flatten(arrived(parts)) == items_of(concat(parts)),
    decreases parts.len(),
{
    if parts.len() == 0 {
        assert(flatten(arrived(parts)) =~= items_of(concat(parts)));
    } else {
        lemma_flatten_arrived(parts.drop_first());
        assert(arrived(parts).drop_first() =~= arrived(parts.drop_first()));
        assert(items_of(parts[0]@) + items_of(concat(parts.drop_first())) =~= items_of(
            concat(parts),
        ));
    }
}

/// The output does not depend on how the classes are cut into chunks: where
/// the classes of `whole` arrive as the chunks `parts` instead, between the
/// same chunks before and after, the same items leave.
pub proof fn lemma_chunking_is_invisible(
    expected: Seq<Expected>,
    before: Seq<Chunk>,
    parts: Seq<Vec<PeerData<Class>>>,
    whole: Vec<PeerData<Class>>,
    after: Seq<Chunk>,
)
    requires
        concat(parts) == whole@,
    ensures
        verified(expected, before + arrived(parts) + after) == verified(
            expected,
            before + seq![Ok(whole)] + after,
        ),
{
    let one: Seq<Chunk> = seq![Ok(whole)];
    lemma_flatten_concat(before + arrived(parts), after);
    lemma_flatten_concat(before, arrived(parts));
    lemma_flatten_concat(before + one, after);
    lemma_flatten_concat(before, one);
    lemma_flatten_arrived(parts);
    assert(flatten(one) =~= items_of(whole@)) by {
        assert(one.drop_first() =~= Seq::<Chunk>::empty());
        assert(flatten(one.drop_first()) =~= Seq::<Item>::empty());
    }
}

/// Two streams of chunks that hold the same items in the same order give
/// the same output.
pub proof fn lemma_same_items_same_output(
    expected: Seq<Expected>,
    chunks: Seq<Chunk>,
    other: Seq<Chunk>,
)
    requires
        flatten(chunks) == flatten(other),
    ensures
        verified(expected, chunks) == verified(expected, other),
{
}

/// The expected declarations come in ascending order of their blocks.
pub open spec fn ascending(expected: Seq<Expected>) -> bool {
    forall|i: int, j: int|
        0 <= i < j < expected.len() && (#[trigger] expected[i]) is Ok && (
        #[trigger] expected[j]) is Ok ==> expected[i]->Ok_0.block_number.0
            <= expected[j]->Ok_0.block_number.0
}

/// The item declares the class at the block of the class.
pub open spec fn declares(item: Expected, class: Class) -> bool {
    item matches Ok(e) && e.block_number == class.block_number && e.classes@.contains(class.hash)
}

/// The class is expected: at the block that is being worked off, or by one
/// of the expected declarations that are to come.
pub open spec fn is_expected(
    declared_at: BlockNumber,
    declared: Set<ClassHash>,
    expected: Seq<Expected>,
    class: Class,
) -> bool {
    ||| class.block_number == declared_at && declared.contains(class.hash)
    ||| exists|k: int| 0 <= k < expected.len() && declares(#[trigger] expected[k], class)
}

/// Every class that leaves is declared at its block, the classes leave in
/// the order in which they arrived, none is passed over, and an error is the
/// last item that leaves.
pub proof fn lemma_output_is_declared_in_arrival_order(
    declared_at: BlockNumber,
    declared: Set<ClassHash>,
    expected: Seq<Expected>,
    classes: Seq<Item>,
)
    ensures
        ({
            let output = matched(declared_at, declared, expected, classes);
            &&& output.len() <= classes.len() + 1
            &&& forall|i: int|
                0 <= i < output.len() && (#[trigger] output[i]) is Ok ==> i < classes.len()
                    && output[i] == classes[i] && is_expected(
                    declared_at,
                    declared,
                    expected,
                    output[i]->Ok_0.data,
                )
            &&& forall|i: int|
                0 <= i < output.len() && (#[trigger] output[i]) is Err ==> i == output.len() - 1
        }),
    decreases expected.len(), classes.len(),
{
    let output = matched(declared_at, declared, expected, classes);
    if declared == Set::<ClassHash>::empty() {
        if expected.len() > 0 {
            match expected[0] {
                Err(error) => {},
                Ok(next) => {
                    let rest = expected.drop_first();
                    lemma_output_is_declared_in_arrival_order(
                        next.block_number,
                        next.classes@,
                        rest,
                        classes,
                    );
                    assert forall|i: int|
                        0 <= i < output.len() && (#[trigger] output[i]) is Ok implies is_expected(
                        declared_at,
                        declared,
                        expected,
                        output[i]->Ok_0.data,
                    ) by {
                        let class = output[i]->Ok_0.data;
                        if class.block_number == next.block_number && next.classes@.contains(
                            class.hash,
                        ) {
                            assert(declares(expected[0], class));
                        } else {
                            let k = choose|k: int|
                                0 <= k < rest.len() && declares(#[trigger] rest[k], class);
                            assert(expected[k + 1] == rest[k]);
                            assert(declares(expected[k + 1], class));
                        }
                    }
                },
            }
        }
    } else if classes.len() > 0 {
        match classes[0] {
            Err(error) => {},
            Ok(class) => {
                if class.data.block_number == declared_at && declared.contains(class.data.hash) {
                    let left = declared.remove(class.data.hash);
                    let rest = matched(declared_at, left, expected, classes.drop_first());
                    lemma_output_is_declared_in_arrival_order(
                        declared_at,
                        left,
                        expected,
                        classes.drop_first(),
                    );
                    assert(output =~= seq![Ok(class)] + rest);
                    assert forall|i: int|
                        0 <= i < output.len() && (#[trigger] output[i]) is Ok implies i
                        < classes.len() && output[i] == classes[i] && is_expected(
                        declared_at,
                        declared,
                        expected,
                        output[i]->Ok_0.data,
                    ) by {
                        if i > 0 {
                            assert(output[i] == rest[i - 1]);
                            assert(classes.drop_first()[i - 1] == classes[i]);
                        }
                    }
                    assert forall|i: int|
                        0 <= i < output.len() && (#[trigger] output[i]) is Err implies i
                        == output.len() - 1 by {
                        if i > 0 {
                            assert(output[i] == rest[i - 1]);
                        }
                    }
                }
            },
        }
    }
}

/// Where the expected declarations come in ascending order of their blocks,
/// starting at or after the block that is being worked off, the classes
/// that leave are at or after that block and in ascending order of their
/// blocks.
pub proof fn lemma_output_ascends(
    declared_at: BlockNumber,
    declared: Set<ClassHash>,
    expected: Seq<Expected>,
    classes: Seq<Item>,
)
    requires
        ascending(expected),
        declared != Set::<ClassHash>::empty() ==> forall|k: int|
            0 <= k < expected.len() && (#[trigger] expected[k]) is Ok ==> declared_at.0
                <= expected[k]->Ok_0.block_number.0,
    ensures
        ({
            let output = matched(declared_at, declared, expected, classes);
            &&& forall|i: int, j: int|
                0 <= i < j < output.len() && (#[trigger] output[i]) is Ok && (
                #[trigger] output[j]) is Ok ==> output[i]->Ok_0.data.block_number.0
                    <= output[j]->Ok_0.data.block_number.0
            &&& declared != Set::<ClassHash>::empty() ==> forall|i: int|
                0 <= i < output.len() && (#[trigger] output[i]) is Ok ==> declared_at.0
                    <= output[i]->Ok_0.data.block_number.0
        }),
    decreases expected.len(), classes.len(),
{
    let output = matched(declared_at, declared, expected, classes);
    if declared == Set::<ClassHash>::empty() {
        if expected.len() > 0 {
            match expected[0] {
                Err(error) => {},
                Ok(next) => {
                    let rest = expected.drop_first();
                    assert forall|i: int, j: int|
                        0 <= i < j < rest.len() && (#[trigger] rest[i]) is Ok && (
                        #[trigger] rest[j]) is Ok implies rest[i]->Ok_0.block_number.0
                        <= rest[j]->Ok_0.block_number.0 by {
                        assert(rest[i] == expected[i + 1] && rest[j] == expected[j + 1]);
                    }
                    assert forall|k: int| 0 <= k < rest.len() && (#[trigger] rest[k]) is Ok implies next.block_number.0
                        <= rest[k]->Ok_0.block_number.0 by {
                        assert(rest[k] == expected[k + 1]);
                        assert(expected[0] is Ok);
                    }
                    lemma_output_ascends(next.block_number, next.classes@, rest, classes);
                },
            }
        }
    } else if classes.len() > 0 {
        match classes[0] {
            Err(error) => {},
            Ok(class) => {
                if class.data.block_number == declared_at && declared.contains(class.data.hash) {
                    let left = declared.remove(class.data.hash);
                    let rest = matched(declared_at, left, expected, classes.drop_first());
                    lemma_output_ascends(declared_at, left, expected, classes.drop_first());
                    lemma_output_is_declared_in_arrival_order(
                        declared_at,
                        left,
                        expected,
                        classes.drop_first(),
                    );
                    assert(output =~= seq![Ok(class)] + rest);
                    assert forall|i: int|
                        0 <= i < rest.len() && (#[trigger] rest[i]) is Ok implies declared_at.0
                        <= rest[i]->Ok_0.data.block_number.0 by {
                        let c = rest[i]->Ok_0.data;
                        assert(is_expected(declared_at, left, expected, c));
                    }
                    assert forall|i: int, j: int|
                        0 <= i < j < output.len() && (#[trigger] output[i]) is Ok && (
                        #[trigger] output[j]) is Ok implies output[i]->Ok_0.data.block_number.0
                        <= output[j]->Ok_0.data.block_number.0 by {
                        assert(output[j] == rest[j - 1]);
                        if i > 0 {
                            assert(output[i] == rest[i - 1]);
                        }
                    }
                    assert forall|i: int|
                        0 <= i < output.len() && (#[trigger] output[i]) is Ok implies declared_at.0
                        <= output[i]->Ok_0.data.block_number.0 by {
                        if i > 0 {
                            assert(output[i] == rest[i - 1]);
                        }
                    }
                }
            },
        }
    }
}

/// The expected declarations without those that declare nothing.
pub open spec fn without_empty(expected: Seq<Expected>) -> Seq<Expected>
    decreases expected.len(),
{
    if expected.len() == 0 {
        expected
    } else {
        let rest = without_empty(expected.drop_first());
        if expected[0] matches Ok(e) && e.classes@ == Set::<ClassHash>::empty() {
            rest
        } else {
            seq![expected[0]] + rest
        }
    }
}

/// Expected declarations that declare nothing are passed over.
pub proof fn lemma_empty_blocks_are_skipped(
    declared_at: BlockNumber,
    declared: Set<ClassHash>,
    expected: Seq<Expected>,
    classes: Seq<Item>,
)
    ensures
        matched(declared_at, declared, expected, classes) == matched(
            declared_at,
            declared,
            without_empty(expected),
            classes,
        ),
    decreases expected.len(), classes.len(),
{
    let short = without_empty(expected);
    if declared == Set::<ClassHash>::empty() {
        if expected.len() > 0 {
            let rest = expected.drop_first();
            match expected[0] {
                Err(error) => {
                    assert(short[0] == expected[0]);
                },
                Ok(next) => {
                    lemma_empty_blocks_are_skipped(
                        next.block_number,
                        next.classes@,
                        rest,
                        classes,
                    );
                    if next.classes@ == Set::<ClassHash>::empty() {
                        assert(short == without_empty(rest));
                    } else {
                        assert(short[0] == expected[0]);
                        assert(short.drop_first() =~= without_empty(rest));
                    }
                },
            }
        }
    } else if classes.len() > 0 {
        match classes[0] {
            Err(error) => {},
            Ok(class) => {
                if class.data.block_number == declared_at && declared.contains(class.data.hash) {
                    lemma_empty_blocks_are_skipped(
                        declared_at,
                        declared.remove(class.data.hash),
                        expected,
                        classes.drop_first(),
                    );
                }
            },
        }
    }
}

/// Blocks that declare nothing make no difference: two streams of expected
/// declarations that differ only in such blocks give the same output.
pub proof fn lemma_empty_blocks_make_no_difference(
    expected: Seq<Expected>,
    other: Seq<Expected>,
    chunks: Seq<Chunk>,
)
    requires
        without_empty(expected) == without_empty(other),
    ensures
        verified(expected, chunks) == verified(other, chunks),
{
    let start = BlockNumber(0);
    let nothing = Set::<ClassHash>::empty();
    lemma_empty_blocks_are_skipped(start, nothing, expected, flatten(chunks));
    lemma_empty_blocks_are_skipped(start, nothing, other, flatten(chunks));
}

/// For streams whose expected declarations ascend by block: the classes
/// that leave are declared at their blocks, leave in ascending order of
/// their blocks and, within that, in the order in which they arrived.
pub proof fn lemma_output_is_ordered(expected: Seq<Expected>, chunks: Seq<Chunk>)
    requires
        ascending(expected),
    ensures
        ({
            let output = verified(expected, chunks);
            let arrival = flatten(chunks);
            &&& forall|i: int|
                0 <= i < output.len() && (#[trigger] output[i]) is Ok ==> i < arrival.len()
                    && output[i] == arrival[i]
            &&& forall|i: int, j: int|
                0 <= i < j < output.len() && (#[trigger] output[i]) is Ok && (
                #[trigger] output[j]) is Ok ==> output[i]->Ok_0.data.block_number.0
                    <= output[j]->Ok_0.data.block_number.0
            &&& forall|i: int|
                0 <= i < output.len() && (#[trigger] output[i]) is Ok ==> exists|k: int|
                    0 <= k < expected.len() && declares(
                        #[trigger] expected[k],
                        output[i]->Ok_0.data,
                    )
        }),
{
    let start = BlockNumber(0);
    let nothing = Set::<ClassHash>::empty();
    lemma_output_is_declared_in_arrival_order(start, nothing, expected, flatten(chunks));
    lemma_output_ascends(start, nothing, expected, flatten(chunks));
    let output = verified(expected, chunks);
    assert forall|i: int| 0 <= i < output.len() && (#[trigger] output[i]) is Ok implies exists|
        k: int,
    | 0 <= k < expected.len() && declares(#[trigger] expected[k], output[i]->Ok_0.data) by {
        assert(is_expected(start, nothing, expected, output[i]->Ok_0.data));
    }
}

/// What the source of expected declarations hands out is what the matcher
/// asks for: it ascends by block.  So the classes that leave the matcher
/// behind the source leave in ascending order of their blocks.
pub proof fn lemma_source_feeds_matcher(
    start: u64,
    stop: u64,
    answers: Seq<Declared>,
    expected: Seq<Expected>,
    chunks: Seq<Chunk>,
)
    requires
        expected_views(expected) == expected_stream(start, stop, answers),
    ensures
        ascending(expected),
        ({
            let output = verified(expected, chunks);
            forall|i: int, j: int|
                0 <= i < j < output.len() && (#[trigger] output[i]) is Ok && (
                #[trigger] output[j]) is Ok ==> output[i]->Ok_0.data.block_number.0
                    <= output[j]->Ok_0.data.block_number.0
        }),
{
    let stream = expected_stream(start, stop, answers);
    lemma_expected_stream_ascends(start, stop, answers);
    assert forall|i: int, j: int|
        0 <= i < j < expected.len() && (#[trigger] expected[i]) is Ok && (
        #[trigger] expected[j]) is Ok implies expected[i]->Ok_0.block_number.0
        <= expected[j]->Ok_0.block_number.0 by {
        assert(stream[i] == expected_views(expected)[i]);
        assert(stream[j] == expected_views(expected)[j]);
        assert(stream[i] is Ok && stream[j] is Ok);
    }
    lemma_output_is_ordered(expected, chunks);
}

/// The state of the stage [`VerifyDeclaredAt`] as a mathematical value.
pub struct StageModel {
    /// The block of the expected declarations that are being worked off.
    pub declared_at: BlockNumber,
    /// What is still expected at that block.
    pub declared: Set<ClassHash>,
    /// The expected declarations that were received and not yet looked at.
    pub source: Seq<ExpectedDeclarations>,
    /// Nothing more will be received.
    pub closed: bool,
}

impl StageModel {
    /// The state once the stage has made sure that something is expected:
    /// while nothing is, it takes the next expected declarations that it
    /// has received.
    pub open spec fn refilled(self) -> StageModel
        decreases self.source.len(),
    {
        if self.declared != Set::<ClassHash>::empty() || self.source.len() == 0 {
            self
        } else {
            (StageModel {
                declared_at: self.source[0].block_number,
                declared: self.source[0].classes@,
                source: self.source.drop_first(),
                closed: self.closed,
            }).refilled()
        }
    }

    /// The class is expected at its block.
    pub open spec fn expects(self, class: Class) -> bool {
        class.block_number == self.declared_at && self.declared.contains(class.hash)
    }
}

/// What the stage made of a class.
#[derive(Debug, PartialEq, Eq)]
pub enum Mapped {
    /// Nothing is expected, and more expected declarations may still be
    /// received: the class is handed back, to be tried again after that.
    Starved(Class),
    /// The class, where it is expected at its block; else the error.
    Done(Result<Class, SyncError2>),
}

/// The stage that checks, one class at a time, that the class is declared
/// at its block.  It receives the expected declarations on the side.
#[derive(Debug)]
pub struct VerifyDeclaredAt {
    expectation_source: VecDeque<ExpectedDeclarations>,
    closed: bool,
    current: ExpectedDeclarations,
}

impl View for VerifyDeclaredAt {
    type V = StageModel;

    closed spec fn view(&self) -> StageModel {
        StageModel {
            declared_at: self.current.block_number,
            declared: self.current.classes@,
            source: self.expectation_source@,
            closed: self.closed,
        }
    }
}

impl VerifyDeclaredAt {
    /// A stage that expects nothing and has received nothing.
    pub fn new() -> (r: VerifyDeclaredAt)
        ensures
            r@ == (StageModel {
                declared_at: BlockNumber(0),
                declared: Set::<ClassHash>::empty(),
                source: Seq::<ExpectedDeclarations>::empty(),
                closed: false,
            }),
    {
        VerifyDeclaredAt {
            expectation_source: VecDeque::new(),
            closed: false,
            current: ExpectedDeclarations::default(),
        }
    }

    /// Receives the next expected declarations; `None` says that there will
    /// be no more.  What arrives after that is dropped.
    pub fn receive(&mut self, expected: Option<ExpectedDeclarations>)
        ensures
            final(self)@ == match expected {
                Some(next) if !old(self)@.closed => StageModel {
                    source: old(self)@.source.push(next),
                    ..old(self)@
                },
                Some(_) => old(self)@,
                None => StageModel { closed: true, ..old(self)@ },
            },
    {
        match expected {
            Some(next) => {
                if !self.closed {
                    self.expectation_source.push_back(next);
                }
            },
            None => {
                self.closed = true;
            },
        }
    }

    /// Checks one class.  The class passes where it is expected at its
    /// block, and is then no longer expected.  Where nothing is expected
    /// and nothing more will be received, the expected declarations are
    /// exhausted; where more may be received, the class is handed back.
    pub fn map(&mut self, input: Class) -> (r: Mapped)
        ensures
            ({
                let ready = old(self)@.refilled();
                if ready.declared == Set::<ClassHash>::empty() {
                    &&& final(self)@ == ready
                    &&& r == if ready.closed {
                        Mapped::Done(Err(SyncError2::ExpectationsExhausted))
                    } else {
                        Mapped::Starved(input)
                    }
                } else if ready.expects(input) {
                    &&& final(self)@ == (StageModel {
                        declared: ready.declared.remove(input.hash),
                        ..ready
                    })
                    &&& r == Mapped::Done(Ok(input))
                } else {
                    &&& final(self)@ == ready
                    &&& r == Mapped::Done(Err(SyncError2::UnexpectedClass))
                }
            }),
    {
        while self.current.classes.is_empty() && self.expectation_source.len() > 0
            invariant
                self@.refilled() == old(self)@.refilled(),
            decreases self.expectation_source@.len(),
        {
            let ghost before = self@;
            match self.expectation_source.pop_front() {
                Some(expected) => {
                    self.current = expected;
                },
                None => {},
            }
            assert(self@.source =~= before.source.drop_first());
        }
        assert(self@.refilled() == self@);
        if self.current.classes.is_empty() {
            if self.closed {
                Mapped::Done(Err(SyncError2::ExpectationsExhausted))
            } else {
                Mapped::Starved(input)
            }
        } else if self.current.block_number.0 != input.block_number.0 {
            Mapped::Done(Err(SyncError2::UnexpectedClass))
        } else {
            let ghost before = self@;
            if self.current.classes.remove(&input.hash) {
                Mapped::Done(Ok(input))
            } else {
                assert(self@.declared =~= before.declared);
                Mapped::Done(Err(SyncError2::UnexpectedClass))
            }
        }
    }
}

} // verus!
