//! Helpers on lists of squares.

use vstd::prelude::*;

verus! {

/// Whether `vec` holds the square `t`.
pub fn contains(vec: &Vec<(usize, usize)>, t: (usize, usize)) -> (r: bool)
    ensures
        r == vec@.contains(t),
{
    let mut k: usize = 0;
    while k < vec.len()
        invariant
            k <= vec.len(),
            forall|a: int| 0 <= a < k ==> vec@[a] != t,
        decreases vec.len() - k,
    {
        let e = vec[k];
        if e.0 == t.0 && e.1 == t.1 {
            return true;
        }
        k += 1;
    }
    false
}

/// Each square `(a, b)` of `vec` as the single number `10 * a + b`, so that
/// lists of squares can be sorted and compared.
pub fn normalize(vec: &Vec<(usize, usize)>) -> (ret: Vec<usize>)
    requires
        forall|k: int| 0 <= k < vec@.len() ==> (#[trigger] vec@[k]).0 * 10 + vec@[k].1 <= usize::MAX,
    ensures
        ret@.len() == vec@.len(),
        forall|k: int| 0 <= k < vec@.len() ==> #[trigger] ret@[k] == vec@[k].0 * 10 + vec@[k].1,
{
    let mut ret: Vec<usize> = Vec::new();
    let mut k: usize = 0;
    while k < vec.len()
        invariant
            k <= vec.len(),
            ret@.len() == k,
            forall|a: int|
                0 <= a < vec@.len() ==> (#[trigger] vec@[a]).0 * 10 + vec@[a].1 <= usize::MAX,
            forall|a: int| 0 <= a < k ==> #[trigger] ret@[a] == vec@[a].0 * 10 + vec@[a].1,
        decreases vec.len() - k,
    {
        let e = vec[k];
        ret.push(e.0 * 10 + e.1);
        k += 1;
    }
    ret
}

} // verus!
