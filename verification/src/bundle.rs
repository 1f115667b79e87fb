//! Column bundles: the columns split into groups at each point where row
//! headers resume after ordinary columns, so that consecutive row-header
//! columns render as one grouped header.

use vstd::prelude::*;

verus! {

/// A column that knows whether it renders as a row header.
pub trait HasRowHeader: Sized {
    /// Whether this column renders as a row header.
    spec fn spec_is_row_header(&self) -> bool;

    fn is_row_header(&self) -> (r: bool)
        ensures
            r == self.spec_is_row_header(),
    ;
}

/// One group of columns: its row-header columns, its ordinary columns, and
/// how many columns stand before the group.
#[derive(Clone, Debug, PartialEq)]
pub struct ColumnBundle<T> {
    pub headers: Vec<T>,
    pub contents: Vec<T>,
    pub index_until: usize,
}

/// The views of a bundle list: each bundle's headers, contents and offset.
pub open spec fn bundles_view<T>(bs: Seq<ColumnBundle<T>>) -> Seq<(Seq<T>, Seq<T>, int)> {
    Seq::new(bs.len(), |i: int| (bs[i].headers@, bs[i].contents@, bs[i].index_until as int))
}

/// Number of columns in one bundle.
pub open spec fn spec_bundle_weight<T>(b: (Seq<T>, Seq<T>, int)) -> int {
    b.0.len() + b.1.len() as int
}

/// Number of columns in the first `k` bundles.
pub open spec fn spec_total_upto<T>(bs: Seq<(Seq<T>, Seq<T>, int)>, k: int) -> int
    decreases k,
{
    if k <= 0 {
        0
    } else {
        spec_total_upto(bs, k - 1) + spec_bundle_weight(bs[k - 1])
    }
}

/// Number of columns in all bundles.
pub open spec fn spec_total<T>(bs: Seq<(Seq<T>, Seq<T>, int)>) -> int {
    spec_total_upto(bs, bs.len() as int)
}

/// Column counts only read the bundles they count over.
proof fn lemma_total_agree<T>(a: Seq<(Seq<T>, Seq<T>, int)>, b: Seq<(Seq<T>, Seq<T>, int)>, k: int)
    requires
        forall|j: int| 0 <= j < k ==> a[j] == b[j],
    ensures
        spec_total_upto(a, k) == spec_total_upto(b, k),
    decreases k,
{
    if k > 0 {
        lemma_total_agree(a, b, k - 1);
    }
}

/// Column counts are nonnegative and grow with the prefix.
proof fn lemma_total_bounds<T>(bs: Seq<(Seq<T>, Seq<T>, int)>, k: int)
    requires
        0 <= k <= bs.len(),
    ensures
        0 <= spec_total_upto(bs, k) <= spec_total(bs),
    decreases bs.len() - k,
{
    lemma_total_nonneg(bs, k);
    if k < bs.len() {
        lemma_total_bounds(bs, k + 1);
    }
}

/// Column counts are nonnegative.
proof fn lemma_total_nonneg<T>(bs: Seq<(Seq<T>, Seq<T>, int)>, k: int)
    ensures
        0 <= spec_total_upto(bs, k),
    decreases k,
{
    if k > 0 {
        lemma_total_nonneg(bs, k - 1);
    }
}

/// One bundling step: a row-header column right after an ordinary column
/// opens a new bundle at the running column count; otherwise the column
/// joins the last bundle's headers or contents.
pub open spec fn spec_add_option<T: HasRowHeader>(
    acc: Seq<(Seq<T>, Seq<T>, int)>,
    x: T,
    before: Option<bool>,
) -> Seq<(Seq<T>, Seq<T>, int)>
    recommends
        acc.len() >= 1,
{
    let last = acc[acc.len() - 1];
    if x.spec_is_row_header() {
        if before == Some(false) {
            acc.push((seq![x], Seq::<T>::empty(), spec_total(acc)))
        } else {
            acc.update(acc.len() - 1, (last.0.push(x), last.1, last.2))
        }
    } else {
        acc.update(acc.len() - 1, (last.0, last.1.push(x), last.2))
    }
}

/// The bundles of the first `k` columns: one initial empty bundle, grown a
/// column at a time.
pub open spec fn spec_bundles<T: HasRowHeader>(options: Seq<T>, k: int) -> Seq<
    (Seq<T>, Seq<T>, int),
>
    decreases k,
{
    if k <= 0 {
        seq![(Seq::<T>::empty(), Seq::<T>::empty(), 0int)]
    } else {
        spec_add_option(
            spec_bundles(options, k - 1),
            options[k - 1],
            if k == 1 {
                None
            } else {
                Some(options[k - 2].spec_is_row_header())
            },
        )
    }
}

impl<T> ColumnBundle<T> {
    /// An empty bundle at offset 0.
    pub fn init() -> (r: Self)
        ensures
            r.headers@.len() == 0,
            r.contents@.len() == 0,
            r.index_until == 0,
    {
        Self { headers: Vec::new(), contents: Vec::new(), index_until: 0 }
    }

    /// Number of columns in all given bundles: where the next bundle would
    /// start.
    pub fn get_index_until(src: &[ColumnBundle<T>]) -> (r: usize)
        requires
            spec_total(bundles_view(src@)) <= usize::MAX,
        ensures
            r as int == spec_total(bundles_view(src@)),
    {
        let ghost bs = bundles_view(src@);
        let mut acc: usize = 0;
        let mut i: usize = 0;
        while i < src.len()
            invariant
                0 <= i <= src@.len(),
                bs == bundles_view(src@),
                spec_total(bs) <= usize::MAX,
                acc as int == spec_total_upto(bs, i as int),
            decreases src@.len() - i,
        {
            proof {
                lemma_total_bounds(bs, i + 1int);
                assert(bs[i as int].0.len() == src@[i as int].headers@.len());
                assert(bs[i as int].1.len() == src@[i as int].contents@.len());
            }
            let bundle = vstd::slice::slice_index_get(src, i);
            acc = acc + bundle.headers.len();
            acc = acc + bundle.contents.len();
            i = i + 1;
        }
        acc
    }
}

/// Splits the columns into bundles at each point where a row-header column
/// follows an ordinary one; consecutive row-header columns share a bundle.
pub fn get_column_bundles_par_row_header<T: HasRowHeader>(options: Vec<T>) -> (r: Vec<
    ColumnBundle<T>,
>)
    ensures
        bundles_view(r@) == spec_bundles(options@, options@.len() as int),
{
    let ghost full = options@;
    let mut remaining = options;
    let mut result: Vec<ColumnBundle<T>> = Vec::new();
    result.push(ColumnBundle::init());
    let mut before_is_header: Option<bool> = None;
    let mut i: usize = 0;
    let total_options = remaining.len();
    proof {
        assert(bundles_view(result@) =~~= spec_bundles(full, 0));
        let bv = bundles_view(result@);
        assert(spec_total_upto(bv, 1) == spec_total_upto(bv, 0) + spec_bundle_weight(bv[0]));
        assert(spec_bundle_weight(bv[0]) == 0);
        assert(spec_total(bv) == 0);
        assert(remaining@ =~= full.skip(0));
    }
    while remaining.len() > 0
        invariant
            0 <= i <= full.len(),
            total_options == full.len(),
            i + remaining@.len() == total_options,
            remaining@ == full.skip(i as int),
            result@.len() >= 1,
            bundles_view(result@) == spec_bundles(full, i as int),
            spec_total(bundles_view(result@)) == i as int,
            before_is_header == (if i == 0 {
                None
            } else {
                Some(full[i - 1].spec_is_row_header())
            }),
        decreases remaining@.len(),
    {
        proof {
            assert(full.skip(i as int).len() == full.len() - i);
        }
        let option = remaining.remove(0);
        proof {
            assert(option == full[i as int]);
            assert(remaining@ =~= full.skip(i + 1int));
        }
        let current = option.is_row_header();
        let ghost acc = bundles_view(result@);
        if current {
            let open_new = match before_is_header {
                Some(b) => !b,
                None => false,
            };
            if open_new {
                let index_until = ColumnBundle::get_index_until(result.as_slice());
                let mut headers: Vec<T> = Vec::new();
                headers.push(option);
                let bundle = ColumnBundle { headers, contents: Vec::new(), index_until };
                result.push(bundle);
                proof {
                    assert(bundles_view(result@) =~~= acc.push(
                        (seq![full[i as int]], Seq::<T>::empty(), spec_total(acc)),
                    ));
                    assert(bundles_view(result@) =~~= spec_bundles(full, i + 1int));
                    lemma_total_agree(bundles_view(result@), acc, acc.len() as int);
                }
            } else {
                let mut tail = result.pop().unwrap();
                tail.headers.push(option);
                result.push(tail);
                proof {
                    assert(bundles_view(result@) =~~= acc.update(
                        acc.len() - 1,
                        (acc[acc.len() - 1].0.push(full[i as int]), acc[acc.len() - 1].1, acc[acc.len()
                            - 1].2),
                    ));
                    assert(bundles_view(result@) =~~= spec_bundles(full, i + 1int));
                    lemma_total_agree(bundles_view(result@), acc, acc.len() - 1);
                }
            }
        } else {
            let mut tail = result.pop().unwrap();
            tail.contents.push(option);
            result.push(tail);
            proof {
                assert(bundles_view(result@) =~~= acc.update(
                    acc.len() - 1,
                    (acc[acc.len() - 1].0, acc[acc.len() - 1].1.push(full[i as int]), acc[acc.len()
                        - 1].2),
                ));
                assert(bundles_view(result@) =~~= spec_bundles(full, i + 1int));
                lemma_total_agree(bundles_view(result@), acc, acc.len() - 1);
            }
        }
        before_is_header = Some(current);
        i = i + 1;
        proof {
            let nb = bundles_view(result@);
            assert(spec_total_upto(nb, nb.len() as int) == i as int);
        }
    }
    proof {
        assert(full.skip(full.len() as int).len() == 0);
        assert(i as int == full.len());
    }
    result
}

} // verus!
