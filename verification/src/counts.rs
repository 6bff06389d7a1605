//! The stream of declared-class counts: for every block of a range, in
//! ascending order, the number of classes that the block declares.
//!
//! The counts are read from the storage in batches of consecutive blocks,
//! and handed out one by one; a batch is asked for only once the one before
//! it is handed out.  The storage is the caller's: [`CountStream`] says which
//! batch to read next and takes the answer.

use vstd::prelude::*;
use std::collections::VecDeque;
use crate::class::BlockNumber;
use crate::deque::into_deque;
use crate::error::SyncError;

verus! {

/// What the storage answered when asked for the counts of a batch.
#[derive(Clone, Debug, PartialEq, Eq)]
pub enum Counts {
    /// The counts of consecutive blocks, from the first block of the batch
    /// on.
    Batch(Vec<usize>),
    /// The storage reported an error.
    Failed,
}

/// Counts as items of the stream.
pub open spec fn counted(counts: Seq<usize>) -> Seq<Result<usize, SyncError>> {
    Seq::new(counts.len(), |i: int| Ok(counts[i]))
}

/// The stream of the counts of the blocks from `next` to `stop`, read in
/// batches of at most `batch_size` blocks, where `answers` holds what the
/// storage answers, batch by batch.  The stream ends with the range, with
/// the answers, or with an error at the first answer that is a failure,
/// holds no count, or holds more counts than were asked for.
pub open spec fn counts_stream(next: u64, stop: u64, batch_size: usize, answers: Seq<Counts>) -> Seq<
    Result<usize, SyncError>,
>
    decreases answers.len(),
{
    if next > stop || answers.len() == 0 {
        seq![]
    } else {
        let wanted = if stop - next + 1 < batch_size {
            stop - next + 1
        } else {
            batch_size as int
        };
        match answers[0] {
            Counts::Failed => seq![Err(SyncError::Storage)],
            Counts::Batch(counts) => if counts@.len() == 0 || counts@.len() > wanted {
                seq![Err(SyncError::Storage)]
            } else if next + counts@.len() > stop {
                counted(counts@)
            } else {
                counted(counts@) + counts_stream(
                    (next + counts@.len()) as u64,
                    stop,
                    batch_size,
                    answers.drop_first(),
                )
            },
        }
    }
}

/// The stream between two moves, as a mathematical value.
pub struct CountModel {
    /// The first block whose count was not read yet.
    pub next: u64,
    /// The last block of the range.
    pub stop: u64,
    /// The most blocks to read at once.
    pub batch_size: usize,
    /// The counts that were read and not yet handed out.
    pub batch: Seq<usize>,
    /// The counts of all blocks of the range were read.
    pub all_read: bool,
    /// The storage failed, which has yet to be reported.
    pub failed: bool,
    /// The stream has ended.
    pub finished: bool,
}

/// What the stream does next, as a mathematical value.
pub enum CountedModel {
    Read(BlockNumber, usize, CountModel),
    Emit(Result<usize, SyncError>, CountModel),
    Finished,
}

impl CountModel {
    /// The number of blocks to ask for: the batch size, or less where
    /// fewer blocks are left.
    pub open spec fn wanted(self) -> int {
        if self.stop - self.next + 1 < self.batch_size {
            self.stop - self.next + 1
        } else {
            self.batch_size as int
        }
    }

    /// The next move.
    pub open spec fn poll(self) -> CountedModel {
        if self.finished {
            CountedModel::Finished
        } else if self.batch.len() > 0 {
            CountedModel::Emit(
                Ok(self.batch[0]),
                CountModel { batch: self.batch.drop_first(), ..self },
            )
        } else if self.failed {
            CountedModel::Emit(Err(SyncError::Storage), CountModel { finished: true, ..self })
        } else if self.all_read || self.next > self.stop {
            CountedModel::Finished
        } else {
            CountedModel::Read(BlockNumber(self.next), self.wanted() as usize, self)
        }
    }

    /// What is still to leave, when `answers` holds what the storage
    /// answers from here on.
    pub open spec fn output(self, answers: Seq<Counts>) -> Seq<Result<usize, SyncError>> {
        if self.finished {
            seq![]
        } else {
            counted(self.batch) + if self.failed {
                seq![Err(SyncError::Storage)]
            } else if self.all_read {
                seq![]
            } else {
                counts_stream(self.next, self.stop, self.batch_size, answers)
            }
        }
    }

    /// The state after the storage has answered.  An answer without counts,
    /// or with more counts than were asked for, counts as a failure.
    pub open spec fn provided(self, answer: Counts) -> CountModel {
        match answer {
            Counts::Failed => CountModel { failed: true, ..self },
            Counts::Batch(counts) => if counts@.len() == 0 || counts@.len() > self.wanted() {
                CountModel { failed: true, ..self }
            } else if self.next + counts@.len() > self.stop {
                CountModel { batch: counts@, all_read: true, ..self }
            } else {
                CountModel { batch: counts@, next: (self.next + counts@.len()) as u64, ..self }
            },
        }
    }
}

/// The stream between two moves.
#[derive(Debug)]
pub struct CountStream {
    next: BlockNumber,
    stop: BlockNumber,
    batch_size: usize,
    batch: VecDeque<usize>,
    all_read: bool,
    failed: bool,
    finished: bool,
}

/// The stream while it waits for the counts of a batch.
#[derive(Debug)]
pub struct AwaitingCounts(CountStream);

/// What the stream does next.
#[derive(Debug)]
pub enum Counted {
    /// It asks for the counts of this many blocks, from this block on.
    Read(BlockNumber, usize, AwaitingCounts),
    /// It hands out the count of the next block, or the error that ends
    /// the stream.
    Emit(Result<usize, SyncError>, CountStream),
    /// The stream has ended.
    Finished,
}

impl View for CountStream {
    type V = CountModel;

    closed spec fn view(&self) -> CountModel {
        CountModel {
            next: self.next.0,
            stop: self.stop.0,
            batch_size: self.batch_size,
            batch: self.batch@,
            all_read: self.all_read,
            failed: self.failed,
            finished: self.finished,
        }
    }
}

impl View for AwaitingCounts {
    type V = CountModel;

    closed spec fn view(&self) -> CountModel {
        self.0@
    }
}

impl View for Counted {
    type V = CountedModel;

    open spec fn view(&self) -> CountedModel {
        match *self {
            Counted::Read(start, size, waiting) => CountedModel::Read(start, size, waiting@),
            Counted::Emit(item, next) => CountedModel::Emit(item, next@),
            Counted::Finished => CountedModel::Finished,
        }
    }
}

/// The stream of the counts of the blocks from `start` to `stop`, both
/// included, read in batches of at most `batch_size` blocks.
pub fn declared_class_counts_stream(start: BlockNumber, stop: BlockNumber, batch_size: usize) -> (r:
    CountStream)
    requires
        batch_size > 0,
    ensures
        r@ == (CountModel {
            next: start.0,
            stop: stop.0,
            batch_size,
            batch: Seq::<usize>::empty(),
            all_read: false,
            failed: false,
            finished: false,
        }),
{
    CountStream {
        next: start,
        stop,
        batch_size,
        batch: VecDeque::new(),
        all_read: false,
        failed: false,
        finished: false,
    }
}

impl CountStream {
    /// Makes the next move.
    pub fn poll(self) -> (r: Counted)
        ensures
            r@ == self@.poll(),
    {
        let CountStream { next, stop, batch_size, mut batch, all_read, failed, finished } = self;
        if finished {
            return Counted::Finished;
        }
        match batch.pop_front() {
            Some(count) => {
                assert(batch@ =~= self@.batch.drop_first());
                return Counted::Emit(
                    Ok(count),
                    CountStream { next, stop, batch_size, batch, all_read, failed, finished },
                );
            },
            None => {},
        }
        if failed {
            Counted::Emit(
                Err(SyncError::Storage),
                CountStream { next, stop, batch_size, batch, all_read, failed, finished: true },
            )
        } else if all_read || next.0 > stop.0 {
            Counted::Finished
        } else {
            let span: u64 = stop.0 - next.0;
            let wanted: usize = if span < batch_size as u64 {
                if span + 1 < batch_size as u64 {
                    (span + 1) as usize
                } else {
                    batch_size
                }
            } else {
                batch_size
            };
            Counted::Read(
                next,
                wanted,
                AwaitingCounts(
                    CountStream { next, stop, batch_size, batch, all_read, failed, finished },
                ),
            )
        }
    }
}

impl AwaitingCounts {
    #[verifier::type_invariant]
    spec fn has_asked(&self) -> bool {
        &&& self.0.next.0 <= self.0.stop.0
        &&& self.0.batch@.len() == 0
    }

    /// Takes the storage's answer for the batch that was asked for.
    pub fn provide(self, answer: Counts) -> (r: CountStream)
        ensures
            r@ == self@.provided(answer),
    {
        proof {
            use_type_invariant(&self);
        }
        let CountStream { next, stop, batch_size, batch, all_read, failed, finished } = self.0;
        match answer {
            Counts::Failed => CountStream {
                next,
                stop,
                batch_size,
                batch,
                all_read,
                failed: true,
                finished,
            },
            Counts::Batch(counts) => {
                let span: u64 = stop.0 - next.0;
                let got = counts.len();
                if got == 0 || got > batch_size || got as u64 > span && got as u64 - 1 > span {
                    CountStream { next, stop, batch_size, batch, all_read, failed: true, finished }
                } else {
                    let mut batch = batch;
                    let mut i: usize = 0;
                    while i < counts.len()
                        invariant
                            i <= counts@.len(),
                            batch@ == counts@.subrange(0, i as int),
                        decreases counts@.len() - i,
                    {
                        batch.push_back(counts[i]);
                        assert(batch@ =~= counts@.subrange(0, i + 1));
                        i += 1;
                    }
                    assert(batch@ =~= counts@);
                    if got as u64 > span {
                        CountStream {
                            next,
                            stop,
                            batch_size,
                            batch,
                            all_read: true,
                            failed,
                            finished,
                        }
                    } else {
                        CountStream {
                            next: BlockNumber(next.0 + got as u64),
                            stop,
                            batch_size,
                            batch,
                            all_read,
                            failed,
                            finished,
                        }
                    }
                }
            },
        }
    }
}

/// While blocks are left to read, the stream asks for at least one block
/// and for no more than a batch, and never for a block after the last one
/// of the range.
pub proof fn lemma_batches_stay_in_range(model: CountModel)
    requires
        model.batch_size > 0,
    ensures
        model.poll() matches CountedModel::Read(start, size, _) ==> {
            &&& start.0 == model.next
            &&& 1 <= size <= model.batch_size
            &&& model.next + size - 1 <= model.stop
        },
{
}

/// How far the stream is from its end, beside what it still holds and
/// what the storage still answers.
pub open spec fn moves_left(model: CountModel) -> nat {
    if model.finished {
        0
    } else {
        1
    }
}

/// One move of the stream hands out the next item, or takes in the
/// storage's next answer, and leaves the rest of the stream as it was.
pub proof fn lemma_poll_keeps_output(model: CountModel, answers: Seq<Counts>)
    requires
        answers.len() > 0,
    ensures
        model.output(answers) == match model.poll() {
            CountedModel::Finished => seq![],
            CountedModel::Emit(item, next) => seq![item] + next.output(answers),
            CountedModel::Read(_, _, waiting) => waiting.provided(answers[0]).output(
                answers.drop_first(),
            ),
        },
{
    match model.poll() {
        CountedModel::Finished => {
            assert(model.output(answers) =~= seq![]);
        },
        CountedModel::Emit(item, next) => {
            if model.batch.len() > 0 {
                assert(counted(model.batch) =~= seq![item] + counted(model.batch.drop_first()));
                assert(model.output(answers) =~= seq![item] + next.output(answers));
            } else {
                assert(model.output(answers) =~= seq![item] + next.output(answers));
            }
        },
        CountedModel::Read(_, _, waiting) => {
            assert(counted(model.batch) =~= Seq::<Result<usize, SyncError>>::empty());
            let after = waiting.provided(answers[0]);
            assert(model.output(answers) =~= after.output(answers.drop_first()));
        },
    }
}

/// The counts of the blocks from `start` to `stop`, read in batches of at
/// most `batch_size` blocks, from the storage's answers for these batches,
/// see [`counts_stream`].
pub fn count_stream(start: BlockNumber, stop: BlockNumber, batch_size: usize, answers: Vec<Counts>) -> (r:
    Vec<Result<usize, SyncError>>)
    requires
        batch_size > 0,
    ensures
        r@ == counts_stream(start.0, stop.0, batch_size, answers@),
{
    let ghost whole = counts_stream(start.0, stop.0, batch_size, answers@);
    let mut answers_left = into_deque(answers);
    let mut output: Vec<Result<usize, SyncError>> = Vec::new();
    let mut stream = declared_class_counts_stream(start, stop, batch_size);
    assert(counted(stream@.batch) + counts_stream(start.0, stop.0, batch_size, answers_left@)
        =~= whole);
    loop
        invariant
            whole == counts_stream(start.0, stop.0, batch_size, answers@),
            output@ + stream@.output(answers_left@) == whole,
        decreases answers_left@.len(), stream@.batch.len(), moves_left(stream@),
    {
        let ghost before = stream@;
        let ghost answers_before = answers_left@;
        match stream.poll() {
            Counted::Finished => {
                assert(before.output(answers_left@) =~= seq![]) by {
                    if !before.finished {
                        assert(counted(before.batch) =~= seq![]);
                    }
                }
                assert(output@ + Seq::<Result<usize, SyncError>>::empty() =~= output@);
                return output;
            },
            Counted::Emit(item, next) => {
                proof {
                    if before.batch.len() > 0 {
                        assert(counted(before.batch) =~= seq![item] + counted(
                            before.batch.drop_first(),
                        ));
                    }
                    assert(before.output(answers_left@) =~= seq![item] + next@.output(
                        answers_left@,
                    ));
                    assert(output@.push(item) + next@.output(answers_left@) =~= output@ + (seq![
                        item,
                    ] + next@.output(answers_left@)));
                }
                output.push(item);
                stream = next;
            },
            Counted::Read(_, _, waiting) => {
                match answers_left.pop_front() {
                    None => {
                        assert(before.output(answers_left@) =~= seq![]) by {
                            assert(counted(before.batch) =~= seq![]);
                        }
                        assert(output@ + Seq::<Result<usize, SyncError>>::empty() =~= output@);
                        return output;
                    },
                    Some(answer) => {
                        proof {
                            lemma_poll_keeps_output(before, answers_before);
                        }
                        stream = waiting.provide(answer);
                    },
                }
            },
        }
    }
}

/// The stream holds at most one count for every block of the range, and an
/// error is its last item.
pub proof fn lemma_one_count_per_block(next: u64, stop: u64, batch_size: usize, answers: Seq<Counts>)
    ensures
        ({
            let stream = counts_stream(next, stop, batch_size, answers);
            &&& forall|i: int|
                0 <= i < stream.len() && (#[trigger] stream[i]) is Err ==> i == stream.len() - 1
            &&& forall|i: int|
                0 <= i < stream.len() && (#[trigger] stream[i]) is Ok ==> next + i <= stop
        }),
    decreases answers.len(),
{
    let stream = counts_stream(next, stop, batch_size, answers);
    if next <= stop && answers.len() > 0 {
        match answers[0] {
            Counts::Failed => {},
            Counts::Batch(counts) => {
                let wanted = if stop - next + 1 < batch_size {
                    stop - next + 1
                } else {
                    batch_size as int
                };
                if counts@.len() == 0 || counts@.len() > wanted {
                } else if next + counts@.len() > stop {
                } else {
                    let after = (next + counts@.len()) as u64;
                    let rest = counts_stream(after, stop, batch_size, answers.drop_first());
                    lemma_one_count_per_block(after, stop, batch_size, answers.drop_first());
                    assert(stream =~= counted(counts@) + rest);
                    assert forall|i: int|
                        counts@.len() <= i < stream.len() implies #[trigger] stream[i] == rest[i
                        - counts@.len()] by {}
                }
            },
        }
    }
}

} // verus!
