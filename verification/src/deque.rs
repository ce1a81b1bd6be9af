//! Queues.

use std::collections::VecDeque;

use vstd::prelude::*;

verus! {

/// A queue of the given items, the first of them in front.
pub fn deque_of<T>(items: Vec<T>) -> (r: VecDeque<T>)
    ensures
        r@ == items@,
{
    let ghost all = items@;
    let mut items = items;
    let mut queue: VecDeque<T> = VecDeque::new();
    while items.len() > 0
        invariant
            items@ + queue@ == all,
        decreases items@.len(),
    {
        let ghost before = items@ + queue@;
        match items.pop() {
            Some(item) => {
                queue.push_front(item);
            },
            None => {},
        }
        assert(items@ + queue@ =~= before);
    }
    assert(queue@ =~= all);
    queue
}

} // verus!
