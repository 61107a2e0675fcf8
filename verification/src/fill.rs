//! Full initialisation: writing one value into every element of a buffer,
//! the safe-to-read counterpart of sparse page-touching.

use vstd::prelude::*;

verus! {

/// Writes `x` into every element of `v`, keeping its length. After the call
/// the whole buffer is initialised and safe to read, element by element.
pub fn fill_all<T: Copy>(v: &mut Vec<T>, x: T)
    ensures
        final(v)@.len() == old(v)@.len(),
        forall|i: int| 0 <= i < final(v)@.len() ==> final(v)@[i] == x,
{
    let mut k: usize = 0;
    let n: usize = v.len();
    while k < n
        invariant
            n == v@.len(),
            v@.len() == old(v)@.len(),
            k <= n,
            forall|i: int| 0 <= i < k ==> v@[i] == x,
        decreases n - k,
    {
        v.set(k, x);
        k = k + 1;
    }
}

} // verus!
