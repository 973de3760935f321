//! Small helpers on vectors.

use vstd::prelude::*;

verus! {

/// The items in reverse order.
pub(crate) fn reversed<T>(items: Vec<T>) -> (turned: Vec<T>)
    ensures
        turned@ == items@.reverse(),
{
    let ghost given = items@;
    let mut rest = items;
    let mut turned: Vec<T> = Vec::new();
    while rest.len() > 0
        invariant
            rest@.len() + turned@.len() == given.len(),
            rest@ == given.take(rest@.len() as int),
            forall|k: int| 0 <= k < turned@.len() ==> turned@[k] == given[given.len() - 1 - k],
        decreases rest@.len(),
    {
        let item = rest.pop().unwrap();
        turned.push(item);
    }
    assert(turned@ =~= given.reverse());
    turned
}

} // verus!
