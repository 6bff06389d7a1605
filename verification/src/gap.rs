//! Where a sync has to resume.

use vstd::prelude::*;
use crate::class::BlockNumber;

verus! {

/// The first block up to `head` that lacks a class definition, given the
/// first block of the whole chain that lacks one (`first_missing`, as the
/// storage reports it; `None`: no block does).  `None` says that every class
/// definition up to `head` is there.
pub fn next_missing(first_missing: Option<BlockNumber>, head: BlockNumber) -> (r: Option<
    BlockNumber,
>)
    ensures
        r == match first_missing {
            Some(block) if block.0 <= head.0 => Some(block),
            _ => None,
        },
{
    match first_missing {
        Some(block) => if block.0 <= head.0 {
            Some(block)
        } else {
            None
        },
        None => None,
    }
}

} // verus!
