//! Searching lists.

use vstd::prelude::*;

verus! {

/// Whether a list holds an index.
pub fn contains_index(list: &Vec<usize>, index: usize) -> (r: bool)
    ensures
        r == list@.contains(index),
{
    let n: usize = list.len();
    let mut i: usize = 0;
    while i < n
        invariant
            i <= n == list@.len(),
            forall|j: int| 0 <= j < i ==> list@[j] != index,
        decreases n - i,
    {
        if list[i] == index {
            assert(list@[i as int] == index);
            return true;
        }
        i += 1;
    }
    false
}

} // verus!
