use class_sync::class::BlockNumber;
use class_sync::gap::next_missing;

#[test]
fn gap_below_the_head_is_reported() {
    assert_eq!(next_missing(Some(BlockNumber(5)), BlockNumber(9)), Some(BlockNumber(5)));
    assert_eq!(next_missing(Some(BlockNumber(0)), BlockNumber(9)), Some(BlockNumber(0)));
}

#[test]
fn gap_at_the_head_is_reported() {
    assert_eq!(next_missing(Some(BlockNumber(9)), BlockNumber(9)), Some(BlockNumber(9)));
    assert_eq!(next_missing(Some(BlockNumber(0)), BlockNumber(0)), Some(BlockNumber(0)));
}

#[test]
fn gap_above_the_head_does_not_count() {
    assert_eq!(next_missing(Some(BlockNumber(10)), BlockNumber(9)), None);
    assert_eq!(next_missing(Some(BlockNumber(u64::MAX)), BlockNumber(0)), None);
}

#[test]
fn no_gap_at_all() {
    assert_eq!(next_missing(None, BlockNumber(9)), None);
}
