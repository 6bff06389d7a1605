use class_sync::class::{BlockNumber, ClassHash};
use class_sync::declared::ExpectedDeclarations;
use class_sync::error::SyncError;
use class_sync::expected::{
    expected_declarations_stream, Declared, ExpectedDeclarationsSource, Spawned,
};
use class_sync::felt::Felt;

fn hash(n: u64) -> ClassHash {
    ClassHash(Felt::from_u64(n))
}

fn classes(hashes: &[u64]) -> Declared {
    Declared::Classes(hashes.iter().map(|n| hash(*n)).collect())
}

/// The stream as blocks with their sorted hashes.
fn summary(
    stream: Vec<Result<ExpectedDeclarations, SyncError>>,
) -> Vec<Result<(u64, Vec<ClassHash>), SyncError>> {
    stream
        .into_iter()
        .map(|item| {
            item.map(|expected| {
                let mut hashes = expected.classes.to_vec();
                hashes.sort_by_key(|h| h.0 .0);
                (expected.block_number.0, hashes)
            })
        })
        .collect()
}

#[test]
fn blocks_with_declarations_are_listed_in_order() {
    let stream = expected_declarations_stream(
        BlockNumber(100),
        BlockNumber(102),
        vec![classes(&[1]), classes(&[]), classes(&[3, 2])],
    );
    assert_eq!(
        summary(stream),
        vec![Ok((100, vec![hash(1)])), Ok((102, vec![hash(2), hash(3)]))]
    );
}

#[test]
fn repeated_hash_is_declared_once() {
    let stream =
        expected_declarations_stream(BlockNumber(5), BlockNumber(5), vec![classes(&[4, 4, 4])]);
    assert_eq!(summary(stream), vec![Ok((5, vec![hash(4)]))]);
}

#[test]
fn range_of_one_block() {
    let stream = expected_declarations_stream(
        BlockNumber(u64::MAX),
        BlockNumber(u64::MAX),
        vec![classes(&[1]), classes(&[2])],
    );
    assert_eq!(summary(stream), vec![Ok((u64::MAX, vec![hash(1)]))]);
}

#[test]
fn empty_range_gives_nothing() {
    let stream = expected_declarations_stream(BlockNumber(3), BlockNumber(2), vec![classes(&[1])]);
    assert_eq!(summary(stream), vec![]);
    assert!(matches!(
        ExpectedDeclarationsSource::new(BlockNumber(3), BlockNumber(2)).spawn(),
        Spawned::Finished
    ));
}

#[test]
fn missing_header_ends_the_stream() {
    let stream = expected_declarations_stream(
        BlockNumber(1),
        BlockNumber(4),
        vec![classes(&[1]), Declared::NoHeader, classes(&[2]), classes(&[3])],
    );
    assert_eq!(summary(stream), vec![Ok((1, vec![hash(1)])), Err(SyncError::MissingBlockHeader)]);
}

#[test]
fn storage_failure_ends_the_stream() {
    let stream = expected_declarations_stream(
        BlockNumber(1),
        BlockNumber(4),
        vec![classes(&[]), Declared::Failed, classes(&[2])],
    );
    assert_eq!(summary(stream), vec![Err(SyncError::Storage)]);
}

#[test]
fn source_asks_block_by_block() {
    let mut asked = Vec::new();
    let mut emitted = Vec::new();
    let mut step = ExpectedDeclarationsSource::new(BlockNumber(7), BlockNumber(10)).spawn();
    loop {
        match step {
            Spawned::Query(block, waiting) => {
                asked.push(block.0);
                let answer = if block.0 % 2 == 0 { classes(&[block.0]) } else { classes(&[]) };
                step = waiting.provide(answer);
            }
            Spawned::Emit(item, next) => {
                emitted.push(item.unwrap().block_number.0);
                step = next.spawn();
            }
            Spawned::Finished => break,
        }
    }
    assert_eq!(asked, vec![7, 8, 9, 10]);
    assert_eq!(emitted, vec![8, 10]);
}

#[test]
fn source_asks_nothing_after_an_error() {
    let Spawned::Query(block, waiting) =
        ExpectedDeclarationsSource::new(BlockNumber(7), BlockNumber(10)).spawn()
    else {
        panic!("the first block is asked about");
    };
    assert_eq!(block, BlockNumber(7));
    let Spawned::Emit(item, next) = waiting.provide(Declared::NoHeader) else {
        panic!("the error leaves");
    };
    assert_eq!(item.unwrap_err(), SyncError::MissingBlockHeader);
    assert!(matches!(next.spawn(), Spawned::Finished));
}
