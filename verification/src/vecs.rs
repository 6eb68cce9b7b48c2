//! Moving the elements of a vector without copying them.

use vstd::prelude::*;

verus! {

/// The elements of `v` in reverse order.
pub fn reversed<T>(v: Vec<T>) -> (r: Vec<T>)
    ensures
        r@ == v@.reverse(),
{
    let ghost input = v@;
    let mut v = v;
    let mut r: Vec<T> = Vec::new();
    while v.len() > 0
        invariant
            r@ == input.subrange(v@.len() as int, input.len() as int).reverse(),
            v@ == input.take(v@.len() as int),
            v@.len() <= input.len(),
        decreases v@.len(),
    {
        let ghost n = v@.len();
        let x = v.pop().unwrap();
        r.push(x);
        assert(v@ =~= input.take(n - 1));
        assert(r@ =~= input.subrange(n - 1, input.len() as int).reverse());
    }
    assert(r@ =~= input.reverse());
    r
}

} // verus!
