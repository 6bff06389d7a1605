//! Turning a list into a queue.

use vstd::prelude::*;
use std::collections::VecDeque;

verus! {

/// The items of the list as a queue, the first item at the front.
pub(crate) fn into_deque<T>(items: Vec<T>) -> (r: VecDeque<T>)
    ensures
        r@ == items@,
{
    let mut r: VecDeque<T> = VecDeque::new();
    for item in it: items
        invariant
            it.seq() == items@,
            r@ == items@.subrange(0, it.index() as int),
    {
        r.push_back(item);
        assert(r@ =~= items@.subrange(0, it.index() + 1));
    }
    assert(items@.subrange(0, items@.len() as int) =~= items@);
    r
}

} // verus!
