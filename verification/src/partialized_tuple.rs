//! Prefix tuples of a list: each non-empty prefix, shortest first.

use vstd::prelude::*;

verus! {

/// Produces every non-empty prefix of a list, shortest first: the result
/// has one entry per element, and entry `i` holds clones of the first
/// `i + 1` elements.
pub trait PartializedTuple<T: Clone>: Sized {
    /// The elements the prefixes are taken of.
    spec fn elems(&self) -> Seq<T>;

    fn get_partialized_tuples(&self) -> (r: Vec<Vec<T>>)
        ensures
            r@.len() == self.elems().len(),
            forall|i: int| 0 <= i < r@.len() ==> #[trigger] r@[i]@.len() == i + 1,
            forall|i: int, j: int|
                0 <= i < r@.len() && 0 <= j <= i ==> vstd::pervasive::cloned::<T>(
                    self.elems()[j],
                    #[trigger] r@[i]@[j],
                ),
    ;
}

impl<T: Clone> PartializedTuple<T> for Vec<T> {
    open spec fn elems(&self) -> Seq<T> {
        self@
    }

    fn get_partialized_tuples(&self) -> (r: Vec<Vec<T>>)
        ensures
            r@.len() == self@.len(),
            forall|i: int| 0 <= i < r@.len() ==> #[trigger] r@[i]@.len() == i + 1,
            forall|i: int, j: int|
                0 <= i < r@.len() && 0 <= j <= i ==> vstd::pervasive::cloned::<T>(
                    self@[j],
                    #[trigger] r@[i]@[j],
                ),
    {
        let mut out: Vec<Vec<T>> = Vec::new();
        let mut i: usize = 0;
        while i < self.len()
            invariant
                0 <= i <= self@.len(),
                out@.len() == i,
                forall|w: int| 0 <= w < i ==> #[trigger] out@[w]@.len() == w + 1,
                forall|w: int, j: int|
                    0 <= w < i && 0 <= j <= w ==> vstd::pervasive::cloned::<T>(
                        self@[j],
                        #[trigger] out@[w]@[j],
                    ),
            decreases self@.len() - i,
        {
            let row_count = self.len();
            let mut prefix: Vec<T> = Vec::new();
            let mut j: usize = 0;
            while j <= i
                invariant
                    0 <= j <= i + 1,
                    i < row_count,
                    row_count == self@.len(),
                    prefix@.len() == j,
                    forall|w: int|
                        0 <= w < j ==> vstd::pervasive::cloned::<T>(
                            self@[w],
                            #[trigger] prefix@[w],
                        ),
                decreases i + 1 - j,
            {
                prefix.push(self[j].clone());
                j = j + 1;
            }
            out.push(prefix);
            i = i + 1;
        }
        out
    }
}

} // verus!
