//! Index ranges as vectors.

use vstd::prelude::*;

verus! {

/// The indices `0 .. length`, in order.
pub fn range(length: usize) -> (r: Vec<usize>)
    ensures
        r@.len() == length,
        forall|i: int| 0 <= i < length ==> #[trigger] r@[i] == i,
{
    let mut out: Vec<usize> = Vec::new();
    let mut i: usize = 0;
    while i < length
        invariant
            0 <= i <= length,
            out@.len() == i,
            forall|j: int| 0 <= j < i ==> #[trigger] out@[j] == j,
        decreases length - i,
    {
        out.push(i);
        i = i + 1;
    }
    out
}

/// The indices `from .. from + length`, in order.
pub fn range_from(length: usize, from: usize) -> (r: Vec<usize>)
    requires
        from + length <= usize::MAX,
    ensures
        r@.len() == length,
        forall|i: int| 0 <= i < length ==> #[trigger] r@[i] == from + i,
{
    let mut out: Vec<usize> = Vec::new();
    let mut i: usize = 0;
    while i < length
        invariant
            0 <= i <= length,
            from + length <= usize::MAX,
            out@.len() == i,
            forall|j: int| 0 <= j < i ==> #[trigger] out@[j] == from + j,
        decreases length - i,
    {
        out.push(from + i);
        i = i + 1;
    }
    out
}

} // verus!
