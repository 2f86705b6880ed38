//! A helper for vectors whose elements are moved, not copied.

use vstd::prelude::*;

verus! {

/// Turns a vector around, so that its elements can be taken from the front
/// by popping.
pub fn reversed<T>(v: Vec<T>) -> (r: Vec<T>)
    ensures
        r@ == v@.reverse(),
{
    let mut rest = v;
    let mut out: Vec<T> = Vec::new();
    while rest.len() > 0
        invariant
            rest@ == v@.take(rest@.len() as int),
            rest@.len() <= v@.len(),
            out@.len() + rest@.len() == v@.len(),
            forall|j: int| 0 <= j < out@.len() ==> out@[j] == v@[v@.len() - 1 - j],
        decreases rest.len(),
    {
        match rest.pop() {
            Some(x) => {
                out.push(x);
            },
            None => {},
        }
        proof {
            assert(rest@ =~= v@.take(rest@.len() as int));
        }
    }
    proof {
        assert(out@ =~= v@.reverse());
    }
    out
}

} // verus!
