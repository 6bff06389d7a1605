use class_sync::class::BlockNumber;
use class_sync::counts::{count_stream, declared_class_counts_stream, Counted, Counts};
use class_sync::error::SyncError;

/// Drives the stream against a storage that knows `counts` for the blocks
/// from `first` on, and notes what was read.
fn drive(
    first: u64,
    counts: &[usize],
    start: u64,
    stop: u64,
    batch_size: usize,
) -> (Vec<Result<usize, SyncError>>, Vec<(u64, usize)>) {
    let mut reads = Vec::new();
    let mut output = Vec::new();
    let mut stream = declared_class_counts_stream(BlockNumber(start), BlockNumber(stop), batch_size);
    loop {
        match stream.poll() {
            Counted::Read(from, size, waiting) => {
                reads.push((from.0, size));
                let skip = (from.0 - first) as usize;
                let batch: Vec<usize> = counts.iter().skip(skip).take(size).copied().collect();
                stream = waiting.provide(Counts::Batch(batch));
            }
            Counted::Emit(item, next) => {
                output.push(item);
                stream = next;
            }
            Counted::Finished => return (output, reads),
        }
    }
}

#[test]
fn one_count_per_block() {
    let (output, reads) = drive(10, &[1, 0, 2, 5, 0, 7, 3], 10, 16, 3);
    assert_eq!(output, vec![Ok(1), Ok(0), Ok(2), Ok(5), Ok(0), Ok(7), Ok(3)]);
    assert_eq!(reads, vec![(10, 3), (13, 3), (16, 1)]);
}

#[test]
fn batch_larger_than_the_range() {
    let (output, reads) = drive(0, &[4, 5, 6, 7], 1, 2, 100);
    assert_eq!(output, vec![Ok(5), Ok(6)]);
    assert_eq!(reads, vec![(1, 2)]);
}

#[test]
fn batch_of_one() {
    let (output, reads) = drive(0, &[4, 5, 6], 0, 2, 1);
    assert_eq!(output, vec![Ok(4), Ok(5), Ok(6)]);
    assert_eq!(reads, vec![(0, 1), (1, 1), (2, 1)]);
}

#[test]
fn empty_range_reads_nothing() {
    let (output, reads) = drive(0, &[4, 5, 6], 2, 1, 2);
    assert_eq!(output, vec![]);
    assert_eq!(reads, vec![]);
}

#[test]
fn range_at_the_end_of_the_numbers() {
    let (output, reads) = drive(u64::MAX - 1, &[8, 9], u64::MAX - 1, u64::MAX, 5);
    assert_eq!(output, vec![Ok(8), Ok(9)]);
    assert_eq!(reads, vec![(u64::MAX - 1, 2)]);
}

#[test]
fn storage_that_runs_dry_ends_the_stream_with_an_error() {
    let (output, reads) = drive(0, &[4, 5, 6], 0, 9, 2);
    assert_eq!(output, vec![Ok(4), Ok(5), Ok(6), Err(SyncError::Storage)]);
    assert_eq!(reads, vec![(0, 2), (2, 2), (3, 2)]);
}

#[test]
fn next_batch_is_read_only_after_the_last_count_left() {
    let stream = declared_class_counts_stream(BlockNumber(0), BlockNumber(3), 2);
    let Counted::Read(from, size, waiting) = stream.poll() else {
        panic!("the stream starts by reading");
    };
    assert_eq!((from, size), (BlockNumber(0), 2));
    let Counted::Emit(Ok(1), stream) = waiting.provide(Counts::Batch(vec![1, 2])).poll() else {
        panic!("the first count leaves");
    };
    let Counted::Emit(Ok(2), stream) = stream.poll() else {
        panic!("the second count leaves");
    };
    let Counted::Read(from, size, waiting) = stream.poll() else {
        panic!("the next batch is read");
    };
    assert_eq!((from, size), (BlockNumber(2), 2));
    let Counted::Emit(Ok(3), stream) = waiting.provide(Counts::Batch(vec![3])).poll() else {
        panic!("the third count leaves");
    };
    let Counted::Read(from, size, _) = stream.poll() else {
        panic!("the rest is read");
    };
    assert_eq!((from, size), (BlockNumber(3), 1));
}

#[test]
fn failure_of_the_storage_ends_the_stream() {
    let stream = declared_class_counts_stream(BlockNumber(0), BlockNumber(3), 2);
    let Counted::Read(_, _, waiting) = stream.poll() else {
        panic!("the stream starts by reading");
    };
    let Counted::Emit(item, stream) = waiting.provide(Counts::Failed).poll() else {
        panic!("the error leaves");
    };
    assert_eq!(item, Err(SyncError::Storage));
    assert!(matches!(stream.poll(), Counted::Finished));
}

#[test]
fn answer_with_too_many_counts_is_a_failure() {
    let stream = declared_class_counts_stream(BlockNumber(0), BlockNumber(3), 2);
    let Counted::Read(_, _, waiting) = stream.poll() else {
        panic!("the stream starts by reading");
    };
    let Counted::Emit(item, _) = waiting.provide(Counts::Batch(vec![1, 2, 3])).poll() else {
        panic!("the error leaves");
    };
    assert_eq!(item, Err(SyncError::Storage));
}

#[test]
fn counts_from_the_answers_of_the_storage() {
    let output = count_stream(
        BlockNumber(10),
        BlockNumber(16),
        3,
        vec![Counts::Batch(vec![1, 0, 2]), Counts::Batch(vec![5, 0, 7]), Counts::Batch(vec![3])],
    );
    assert_eq!(output, vec![Ok(1), Ok(0), Ok(2), Ok(5), Ok(0), Ok(7), Ok(3)]);
}

#[test]
fn short_batches_are_taken_as_they_come() {
    let output = count_stream(
        BlockNumber(0),
        BlockNumber(3),
        3,
        vec![
            Counts::Batch(vec![1]),
            Counts::Batch(vec![2, 3]),
            Counts::Batch(vec![4]),
            Counts::Batch(vec![5]),
        ],
    );
    assert_eq!(output, vec![Ok(1), Ok(2), Ok(3), Ok(4)]);
}

#[test]
fn answers_that_end_early_end_the_stream() {
    let output =
        count_stream(BlockNumber(0), BlockNumber(9), 2, vec![Counts::Batch(vec![1, 2])]);
    assert_eq!(output, vec![Ok(1), Ok(2)]);
    assert_eq!(count_stream(BlockNumber(0), BlockNumber(9), 2, vec![]), vec![]);
}

#[test]
fn bad_answer_ends_the_stream_with_an_error() {
    let output = count_stream(
        BlockNumber(0),
        BlockNumber(9),
        2,
        vec![Counts::Batch(vec![1, 2]), Counts::Failed, Counts::Batch(vec![3])],
    );
    assert_eq!(output, vec![Ok(1), Ok(2), Err(SyncError::Storage)]);
    let output = count_stream(BlockNumber(0), BlockNumber(9), 2, vec![Counts::Batch(vec![])]);
    assert_eq!(output, vec![Err(SyncError::Storage)]);
    let output =
        count_stream(BlockNumber(8), BlockNumber(9), 5, vec![Counts::Batch(vec![1, 2, 3])]);
    assert_eq!(output, vec![Err(SyncError::Storage)]);
}
