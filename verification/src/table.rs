//! Table orchestrator: composes the sort, pagination, focus, selection and
//! virtual-scroll engines into one consistent per-render view of the data,
//! and closes the index/ID translation cycle between them.

use vstd::prelude::*;
use crate::column::{get_column_option_map, ColumnOptionMap, RenderMap, RenderMapValue};
use crate::column_widths::ColumnWidthsState;
use crate::focus::{opt_id_view, FocusState};
use crate::order::Order;
use crate::pagination::{
    spec_offset, spec_page, PaginationState, UsePaginationParams, UsePaginationResult,
    use_pagination,
};
use crate::select::{ids_view, SelectionState};
use crate::sort::{
    comps_view, entries_view, sort, spec_active_passes, spec_before, spec_unique_keys, SortState,
};
use crate::virtual_scroll::{
    use_virtual_scroll, UseVirtualScrollParams, UseVirtualScrollResult, VirtualScrollState,
    MAX_CONTENT_LENGTH,
};

verus! {

/// A view row: a record together with its identity and its position in the
/// original array, in the sorted sequence, and within the current page.
#[derive(Clone, Debug, PartialEq, Eq, Hash)]
pub struct DataWithId<T> where T: Clone + core::hash::Hash + Eq {
    /// The record itself.
    pub get: T,
    /// Stable identity of the record.
    pub id: String,
    /// Position in the caller's original array.
    pub data_index: usize,
    /// Position in the sorted sequence, when the row has been sorted.
    pub render_index: Option<usize>,
    /// Position within the current page, when the row lies on it.
    pub local_index: Option<usize>,
}

/// Initial pagination settings.
#[derive(Clone, Debug)]
pub struct DefaultPagination {
    /// Rows per page; `None` disables pagination, showing every row.
    pub limit: Option<usize>,
    /// Whether the host may derive the limit from its container height.
    pub auto_limit: Option<bool>,
}

/// Decimal digit character of `d`, for `d` below ten.
pub open spec fn spec_digit(d: nat) -> char {
    if d == 0 {
        '0'
    } else if d == 1 {
        '1'
    } else if d == 2 {
        '2'
    } else if d == 3 {
        '3'
    } else if d == 4 {
        '4'
    } else if d == 5 {
        '5'
    } else if d == 6 {
        '6'
    } else if d == 7 {
        '7'
    } else if d == 8 {
        '8'
    } else {
        '9'
    }
}

/// Decimal representation of `n`, most significant digit first, without
/// leading zeros.
pub open spec fn spec_dec_str(n: nat) -> Seq<char>
    decreases n,
{
    if n < 10 {
        seq![spec_digit(n)]
    } else {
        spec_dec_str(n / 10).push(spec_digit(n % 10))
    }
}

/// ASCII code of the decimal digit character of `d`.
fn digit_byte(d: u64) -> (r: u8)
    requires
        d < 10,
    ensures
        r < 128,
        r as char == spec_digit(d as nat),
{
    if d == 0 {
        48
    } else if d == 1 {
        49
    } else if d == 2 {
        50
    } else if d == 3 {
        51
    } else if d == 4 {
        52
    } else if d == 5 {
        53
    } else if d == 6 {
        54
    } else if d == 7 {
        55
    } else if d == 8 {
        56
    } else {
        57
    }
}

/// Relies on `String::from_utf8`: bytes below 128 are ASCII and decode to
/// the characters with the same code points, in order.
#[verifier::external_body]
fn ascii_to_string(bytes: Vec<u8>) -> (r: String)
    requires
        forall|i: int| 0 <= i < bytes@.len() ==> bytes@[i] < 128,
    ensures
        r@.len() == bytes@.len(),
        forall|i: int| 0 <= i < bytes@.len() ==> r@[i] == bytes@[i] as char,
{
    String::from_utf8(bytes).unwrap_or_default()
}

/// The decimal string of `n`: the default row ID for raw index `n`.
pub fn dec_string(n: usize) -> (r: String)
    ensures
        r@ == spec_dec_str(n as nat),
{
    let mut digits: Vec<u8> = Vec::new();
    let mut m: u64 = n as u64;
    while m >= 10
        invariant
            forall|i: int| 0 <= i < digits@.len() ==> #[trigger] digits@[i] < 128,
            spec_dec_str(n as nat) == spec_dec_str(m as nat) + Seq::new(
                digits@.len(),
                |i: int| digits@[digits@.len() - 1 - i] as char,
            ),
        decreases m,
    {
        let ghost before = digits@;
        digits.push(digit_byte(m % 10));
        proof {
            let rev_before = Seq::new(before.len(), |i: int| before[before.len() - 1 - i] as char);
            let rev_after = Seq::new(
                digits@.len(),
                |i: int| digits@[digits@.len() - 1 - i] as char,
            );
            assert(rev_after =~= seq![spec_digit((m % 10) as nat)] + rev_before);
            assert(spec_dec_str((m / 10) as nat).push(spec_digit((m % 10) as nat)) + rev_before
                =~= spec_dec_str((m / 10) as nat) + rev_after);
        }
        m = m / 10;
    }
    let ghost before = digits@;
    digits.push(digit_byte(m));
    proof {
        let rev_before = Seq::new(before.len(), |i: int| before[before.len() - 1 - i] as char);
        let rev_after = Seq::new(digits@.len(), |i: int| digits@[digits@.len() - 1 - i] as char);
        assert(rev_after =~= seq![spec_digit(m as nat)] + rev_before);
        assert(spec_dec_str(m as nat) + rev_before =~= rev_after);
    }
    let mut out: Vec<u8> = Vec::new();
    let mut i: usize = digits.len();
    while i > 0
        invariant
            0 <= i <= digits@.len(),
            out@.len() == digits@.len() - i,
            forall|w: int| 0 <= w < digits@.len() ==> #[trigger] digits@[w] < 128,
            forall|w: int|
                0 <= w < out@.len() ==> #[trigger] out@[w] == digits@[digits@.len() - 1 - w],
        decreases i,
    {
        i = i - 1;
        out.push(digits[i]);
    }
    let s = ascii_to_string(out);
    proof {
        assert(s@ =~= spec_dec_str(n as nat));
    }
    s
}

/// The row IDs the table works with: the caller's, or the decimal string of
/// each raw index.
pub open spec fn spec_row_ids(data_len: nat, data_ids: Option<Vec<String>>) -> Seq<Seq<char>> {
    match data_ids {
        Some(v) => ids_view(v@),
        None => Seq::new(data_len, |i: int| spec_dec_str(i as nat)),
    }
}

/// Resolves the row IDs: the caller's when given, else the decimal string
/// of each raw index.
pub fn resolve_row_ids(data_len: usize, data_ids: &Option<Vec<String>>) -> (r: Vec<String>)
    requires
        match *data_ids {
            Some(ref v) => v@.len() == data_len,
            None => true,
        },
    ensures
        r@.len() == data_len,
        ids_view(r@) == spec_row_ids(data_len as nat, *data_ids),
{
    match data_ids {
        Some(v) => {
            let r = crate::select::clone_ids(v);
            proof {
                assert(ids_view(r@) =~= ids_view(v@));
            }
            r
        },
        None => {
            let mut out: Vec<String> = Vec::new();
            let mut i: usize = 0;
            while i < data_len
                invariant
                    0 <= i <= data_len,
                    out@.len() == i,
                    forall|j: int| 0 <= j < i ==> #[trigger] out@[j]@ == spec_dec_str(j as nat),
                decreases data_len - i,
            {
                out.push(dec_string(i));
                i = i + 1;
            }
            proof {
                assert(ids_view(out@) =~= Seq::new(data_len as nat, |i: int| spec_dec_str(i as nat)));
            }
            out
        },
    }
}

/// First position of `id` in `ids` at or after `k`, if it occurs.
pub open spec fn spec_first_index(ids: Seq<Seq<char>>, id: Seq<char>, k: int) -> Option<int>
    decreases ids.len() - k,
{
    if k < 0 || k >= ids.len() {
        None
    } else if ids[k] == id {
        Some(k)
    } else {
        spec_first_index(ids, id, k + 1)
    }
}

/// Builds the view rows for the sorted positions `start .. end`:
/// row `w` holds the record and ID at original index `perm[start + w]`,
/// render index `start + w`, and — when `local_from` is given — local index
/// `local_from + w`.
pub fn build_rows<T: Clone + core::hash::Hash + Eq>(
    data: &Vec<T>,
    ids: &Vec<String>,
    perm: &Vec<usize>,
    start: usize,
    end: usize,
    local_from: Option<usize>,
) -> (r: Vec<DataWithId<T>>)
    requires
        start <= end <= perm@.len(),
        ids@.len() == data@.len(),
        forall|i: int| 0 <= i < perm@.len() ==> #[trigger] perm@[i] < data@.len(),
        end <= usize::MAX - (match local_from {
            Some(b) => b,
            None => 0,
        }),
    ensures
        r@.len() == end - start,
        forall|w: int|
            0 <= w < r@.len() ==> #[trigger] r@[w].data_index == perm@[start + w],
        forall|w: int|
            0 <= w < r@.len() ==> #[trigger] r@[w].render_index == Some((start + w) as usize),
        forall|w: int|
            0 <= w < r@.len() ==> #[trigger] r@[w].local_index == (match local_from {
                Some(b) => Some((b + w) as usize),
                None => None::<usize>,
            }),
        forall|w: int|
            0 <= w < r@.len() ==> #[trigger] r@[w].id@ == ids_view(ids@)[perm@[start + w] as int],
        forall|w: int|
            0 <= w < r@.len() ==> vstd::pervasive::cloned::<T>(
                data@[perm@[start + w] as int],
                #[trigger] r@[w].get,
            ),
{
    let mut out: Vec<DataWithId<T>> = Vec::new();
    let mut w: usize = start;
    while w < end
        invariant
            start <= w <= end <= perm@.len(),
            ids@.len() == data@.len(),
            forall|i: int| 0 <= i < perm@.len() ==> #[trigger] perm@[i] < data@.len(),
            end <= usize::MAX - (match local_from {
                Some(b) => b,
                None => 0,
            }),
            out@.len() == w - start,
            forall|v: int|
                0 <= v < out@.len() ==> #[trigger] out@[v].data_index == perm@[start + v],
            forall|v: int|
                0 <= v < out@.len() ==> #[trigger] out@[v].render_index == Some(
                    (start + v) as usize,
                ),
            forall|v: int|
                0 <= v < out@.len() ==> #[trigger] out@[v].local_index == (match local_from {
                    Some(b) => Some((b + v) as usize),
                    None => None::<usize>,
                }),
            forall|v: int|
                0 <= v < out@.len() ==> #[trigger] out@[v].id@ == ids_view(ids@)[perm@[start
                    + v] as int],
            forall|v: int|
                0 <= v < out@.len() ==> vstd::pervasive::cloned::<T>(
                    data@[perm@[start + v] as int],
                    #[trigger] out@[v].get,
                ),
        decreases end - w,
    {
        let di = perm[w];
        let local_index = match local_from {
            Some(b) => Some(b + (w - start)),
            None => None,
        };
        let row = DataWithId {
            get: data[di].clone(),
            id: ids[di].clone(),
            data_index: di,
            render_index: Some(w),
            local_index,
        };
        out.push(row);
        proof {
            assert(ids_view(ids@)[di as int] == ids@[di as int]@);
        }
        w = w + 1;
    }
    out
}

/// IDs of the rows in sorted order: position `r` holds the ID of the row
/// with render index `r`.
pub fn sorted_ids_of(ids: &Vec<String>, perm: &Vec<usize>) -> (r: Vec<String>)
    requires
        forall|i: int| 0 <= i < perm@.len() ==> #[trigger] perm@[i] < ids@.len(),
    ensures
        r@.len() == perm@.len(),
        forall|w: int|
            0 <= w < r@.len() ==> #[trigger] ids_view(r@)[w] == ids_view(ids@)[perm@[w] as int],
{
    let mut out: Vec<String> = Vec::new();
    let mut w: usize = 0;
    while w < perm.len()
        invariant
            0 <= w <= perm@.len(),
            out@.len() == w,
            forall|i: int| 0 <= i < perm@.len() ==> #[trigger] perm@[i] < ids@.len(),
            forall|v: int|
                0 <= v < w ==> #[trigger] ids_view(out@)[v] == ids_view(ids@)[perm@[v] as int],
        decreases perm@.len() - w,
    {
        let ghost before = ids_view(out@);
        out.push(ids[perm[w]].clone());
        proof {
            assert(ids_view(out@) =~= before.push(ids@[perm@[w as int] as int]@));
            assert(ids_view(ids@)[perm@[w as int] as int] == ids@[perm@[w as int] as int]@);
        }
        w = w + 1;
    }
    out
}


/// The first-match search may start past any prefix that misses the ID.
pub proof fn lemma_first_index_skip(ids: Seq<Seq<char>>, id: Seq<char>, from: int, upto: int)
    requires
        0 <= from <= upto <= ids.len(),
        forall|j: int| from <= j < upto ==> ids[j] != id,
    ensures
        spec_first_index(ids, id, from) == spec_first_index(ids, id, upto),
    decreases upto - from,
{
    if from < upto {
        lemma_first_index_skip(ids, id, from + 1, upto);
    }
}

/// A successful first-match search lands in range, on the ID it sought.
pub proof fn lemma_first_index_bounds(ids: Seq<Seq<char>>, id: Seq<char>, k: int)
    ensures
        match spec_first_index(ids, id, k) {
            Some(i) => k <= i < ids.len() && ids[i] == id,
            None => true,
        },
    decreases ids.len() - k,
{
    if 0 <= k && k < ids.len() && ids[k] != id {
        lemma_first_index_bounds(ids, id, k + 1);
    }
}

/// Render index of the row carrying `id`, as `spec_first_index` gives it.
fn find_render_index(sorted_ids: &Vec<String>, id: &Option<String>) -> (r: Option<usize>)
    ensures
        match *id {
            Some(ref s) => match spec_first_index(ids_view(sorted_ids@), s@, 0) {
                Some(i) => r == Some(i as usize),
                None => r is None,
            },
            None => r is None,
        },
{
    match id {
        Some(s) => {
            let found = crate::select::index_of_id(sorted_ids, s);
            proof {
                let ids = ids_view(sorted_ids@);
                match found {
                    Some(i) => {
                        lemma_first_index_skip(ids, s@, 0, i as int);
                        assert(spec_first_index(ids, s@, i as int) == Some(i as int));
                    },
                    None => {
                        lemma_first_index_skip(ids, s@, 0, ids.len() as int);
                    },
                }
            }
            found
        },
        None => None,
    }
}

/// Options of `focus_by_id`.
#[derive(Clone)]
pub struct FocusByIdOptions {
    /// Suppress the scroll intent; false when absent.
    pub without_scroll: Option<bool>,
    /// Whether the focused row is also selected; `!select_many` when
    /// absent.
    pub with_select: Option<bool>,
}

impl Default for FocusByIdOptions {
    /// The documented defaults: scrolling on, selection decided by the
    /// `select_many` policy.
    fn default() -> (r: Self)
        ensures
            r.without_scroll == Some(false),
            r.with_select is None,
    {
        FocusByIdOptions { without_scroll: Some(false), with_select: None }
    }
}

/// Options of `focus_by_render_index`.
#[derive(Clone)]
pub struct FocusByRenderIndexOptions {
    /// Remember the index as the fallback even when no row carries it;
    /// false when absent.
    pub fallback: Option<bool>,
    /// Clamp the index into the valid range; `!fallback` when absent.
    pub molded: Option<bool>,
    /// Options handed on to `focus_by_id`.
    pub base: Option<FocusByIdOptions>,
}

impl Default for FocusByRenderIndexOptions {
    /// The documented defaults: no fallback, clamping decided by the
    /// fallback flag, base options defaulted.
    fn default() -> (r: Self)
        ensures
            r.fallback == Some(false),
            r.molded is None,
            r.base is None,
    {
        FocusByRenderIndexOptions { fallback: Some(false), molded: None, base: None }
    }
}

/// Options of `focus_by_local_index`.
#[derive(Clone)]
pub struct FocusByLocalIndexOptions {
    /// Clamp the index into the valid range; true when absent.
    pub molded: Option<bool>,
    /// Wrap an out-of-range index to 0 instead of clamping; false when
    /// absent.
    pub floor_overflow: Option<bool>,
    /// Options handed on to `focus_by_id`.
    pub base: Option<FocusByIdOptions>,
}

impl Default for FocusByLocalIndexOptions {
    /// The documented defaults: clamping on, no wrapping, base options
    /// defaulted.
    fn default() -> (r: Self)
        ensures
            r.molded == Some(true),
            r.floor_overflow == Some(false),
            r.base is None,
    {
        FocusByLocalIndexOptions { molded: Some(true), floor_overflow: Some(false), base: None }
    }
}

/// Per-table state: one instance of each engine, plus the table-wide
/// policies.
pub struct TableState {
    pub sort: SortState,
    pub selection: SelectionState,
    pub focus: FocusState,
    pub pagination: PaginationState,
    pub column_widths: ColumnWidthsState,
    pub virtual_scroll: VirtualScrollState,
    /// Whether more than one row may be selected.
    pub select_many: bool,
    /// Whether the host may derive the page limit from its container
    /// height.
    pub auto_limit: bool,
}

impl TableState {
    pub open spec fn wf(self) -> bool {
        &&& self.sort.wf()
        &&& self.selection.wf()
        &&& self.select_many == self.selection.select_many
    }

    /// What `focus_by_id` does, the fallback index aside: the focus moves
    /// to `next_id`, a scroll intent is recorded unless suppressed, the row
    /// is selected when asked for, and everything else stands.
    pub open spec fn spec_after_focus_by_id(
        self,
        new: TableState,
        next_id: Option<Seq<char>>,
        without_scroll: bool,
        with_select: bool,
    ) -> bool {
        &&& new.focus.view_id() == next_id
        &&& new.focus.active == self.focus.active
        &&& new.focus.scroll_reserved == (if without_scroll {
            self.focus.scroll_reserved
        } else {
            true
        })
        &&& opt_id_view(new.focus.init_id) == opt_id_view(self.focus.init_id)
        &&& (match next_id {
            Some(idv) => if with_select {
                new.selection.view_ids() == self.selection.spec_toggled_ids(idv, true)
            } else {
                new.selection.view_ids() == self.selection.view_ids()
            },
            None => new.selection.view_ids() == self.selection.view_ids(),
        })
        &&& new.selection.init_ids == self.selection.init_ids
        &&& new.selection.select_many == self.selection.select_many
        &&& new.selection.changeable == self.selection.changeable
        &&& new.selection.cancelable == self.selection.cancelable
        &&& new.sort == self.sort
        &&& new.pagination == self.pagination
        &&& new.column_widths == self.column_widths
        &&& new.virtual_scroll == self.virtual_scroll
        &&& new.select_many == self.select_many
        &&& new.auto_limit == self.auto_limit
    }

    /// Moves the focus to `next_id`. Unless scrolling is suppressed, a
    /// scroll intent is recorded. Unless selection is declined — by the
    /// option, or by its default when many rows may be selected — the
    /// focused row is also selected, before the focus commits: the two
    /// changes form one composite operation.
    pub fn focus_by_id(&mut self, next_id: Option<String>, options: FocusByIdOptions)
        requires
            old(self).wf(),
        ensures
            old(self).spec_after_focus_by_id(
                *final (self),
                opt_id_view(next_id),
                (match options.without_scroll {
                    Some(b) => b,
                    None => false,
                }),
                (match options.with_select {
                    Some(b) => b,
                    None => !old(self).select_many,
                }),
            ),
            final (self).focus.fallback_render_index == old(self).focus.fallback_render_index,
            final (self).wf(),
    {
        let without_scroll = match options.without_scroll {
            Some(b) => b,
            None => false,
        };
        let with_select = match options.with_select {
            Some(b) => b,
            None => !self.select_many,
        };
        if !without_scroll {
            self.focus.scroll_reserved = true;
        }
        if with_select {
            match &next_id {
                Some(id) => {
                    let _ = self.selection.set_by_id(id, true);
                },
                None => {},
            }
        }
        self.focus.set_id(next_id);
    }

    /// Moves the focus to the row at a render index. The index is clamped
    /// into `[0, max)` unless clamping is switched off; with the fallback
    /// flag the index is also remembered for later focus resolution. `max`
    /// is the number of rows in `sorted_ids`.
    pub fn focus_by_render_index(
        &mut self,
        raw: usize,
        options: FocusByRenderIndexOptions,
        sorted_ids: &Vec<String>,
    )
        requires
            old(self).wf(),
        ensures
            ({
                let fallback = (match options.fallback {
                    Some(b) => b,
                    None => false,
                });
                let molded = (match options.molded {
                    Some(b) => b,
                    None => !(match options.fallback {
                        Some(b) => b,
                        None => false,
                    }),
                });
                let nr = if molded {
                    crate::focus::spec_molded_index(0, raw as nat, sorted_ids@.len() as nat)
                } else {
                    raw as nat
                };
                let target = if nr < sorted_ids@.len() {
                    Some(ids_view(sorted_ids@)[nr as int])
                } else {
                    None::<Seq<char>>
                };
                let base = (match options.base {
                    Some(b) => b,
                    None => FocusByIdOptions { without_scroll: Some(false), with_select: None },
                });
                &&& old(self).spec_after_focus_by_id(
                    *final (self),
                    target,
                    (match base.without_scroll {
                        Some(b) => b,
                        None => false,
                    }),
                    (match base.with_select {
                        Some(b) => b,
                        None => !old(self).select_many,
                    }),
                )
                &&& final (self).focus.fallback_render_index as nat == (if fallback {
                    nr
                } else {
                    old(self).focus.fallback_render_index as nat
                })
            }),
            final (self).wf(),
    {
        let fallback = match options.fallback {
            Some(b) => b,
            None => false,
        };
        let molded = match options.molded {
            Some(b) => b,
            None => !fallback,
        };
        let nr = if molded {
            crate::focus::get_molded_index(0, raw, sorted_ids.len())
        } else {
            raw
        };
        if fallback {
            self.focus.set_fallback_render_index(Some(nr));
        }
        let next_id = if nr < sorted_ids.len() {
            Some(sorted_ids[nr].clone())
        } else {
            None
        };
        proof {
            if nr < sorted_ids@.len() {
                assert(ids_view(sorted_ids@)[nr as int] == sorted_ids@[nr as int]@);
            }
        }
        let base = match options.base {
            Some(b) => b,
            None => FocusByIdOptions { without_scroll: Some(false), with_select: None },
        };
        self.focus_by_id(next_id, base);
    }

    /// Moves the focus to the row at a local — within-page — index, given
    /// the IDs of the current page's rows. The index is clamped into
    /// `[0, max)` unless clamping is switched off; with the overflow flag
    /// an out-of-range index wraps to 0 instead.
    pub fn focus_by_local_index(
        &mut self,
        raw: Option<usize>,
        options: FocusByLocalIndexOptions,
        page_ids: &Vec<String>,
    )
        requires
            old(self).wf(),
        ensures
            ({
                let molded = (match options.molded {
                    Some(b) => b,
                    None => true,
                });
                let floor_overflow = (match options.floor_overflow {
                    Some(b) => b,
                    None => false,
                });
                let target = (match raw {
                    Some(rw) => {
                        let nl = if floor_overflow {
                            crate::focus::spec_overflow_floored_index(
                                rw as nat,
                                page_ids@.len() as nat,
                            )
                        } else if molded {
                            crate::focus::spec_molded_index(0, rw as nat, page_ids@.len() as nat)
                        } else {
                            rw as nat
                        };
                        if nl < page_ids@.len() {
                            Some(ids_view(page_ids@)[nl as int])
                        } else {
                            None::<Seq<char>>
                        }
                    },
                    None => None::<Seq<char>>,
                });
                let base = (match options.base {
                    Some(b) => b,
                    None => FocusByIdOptions { without_scroll: Some(false), with_select: None },
                });
                old(self).spec_after_focus_by_id(
                    *final (self),
                    target,
                    (match base.without_scroll {
                        Some(b) => b,
                        None => false,
                    }),
                    (match base.with_select {
                        Some(b) => b,
                        None => !old(self).select_many,
                    }),
                )
            }),
            final (self).focus.fallback_render_index == old(self).focus.fallback_render_index,
            final (self).wf(),
    {
        let molded = match options.molded {
            Some(b) => b,
            None => true,
        };
        let floor_overflow = match options.floor_overflow {
            Some(b) => b,
            None => false,
        };
        let next_id = match raw {
            Some(rw) => {
                let nl = if floor_overflow {
                    crate::focus::get_overflow_floored_index(rw, page_ids.len())
                } else if molded {
                    crate::focus::get_molded_index(0, rw, page_ids.len())
                } else {
                    rw
                };
                if nl < page_ids.len() {
                    proof {
                        assert(ids_view(page_ids@)[nl as int] == page_ids@[nl as int]@);
                    }
                    Some(page_ids[nl].clone())
                } else {
                    None
                }
            },
            None => None,
        };
        let base = match options.base {
            Some(b) => b,
            None => FocusByIdOptions { without_scroll: Some(false), with_select: None },
        };
        self.focus_by_id(next_id, base);
    }

    /// Changes the page by moving the focus: the focus lands on the next
    /// page at the same position within the page, so page and focus stay
    /// consistent. `limit` and `disabled` are the pagination numbers of the
    /// current render; a zero limit moves the focus to row 0.
    pub fn set_page(
        &mut self,
        next_page: usize,
        limit: usize,
        disabled: bool,
        sorted_ids: &Vec<String>,
    )
        requires
            old(self).wf(),
            (next_page + 1) * limit <= usize::MAX,
        ensures
            ({
                let prev_render = (match old(self).focus.view_id() {
                    Some(idv) => match spec_first_index(ids_view(sorted_ids@), idv, 0) {
                        Some(i) => i as nat,
                        None => old(self).focus.fallback_render_index as nat,
                    },
                    None => old(self).focus.fallback_render_index as nat,
                });
                let next_render: nat = if limit == 0 {
                    0
                } else {
                    (next_page * limit + (prev_render % (limit as nat))) as nat
                };
                let nr = crate::focus::spec_molded_index(0, next_render, sorted_ids@.len() as nat);
                let target = if nr < sorted_ids@.len() {
                    Some(ids_view(sorted_ids@)[nr as int])
                } else {
                    None::<Seq<char>>
                };
                &&& old(self).spec_after_focus_by_id(
                    *final (self),
                    target,
                    disabled,
                    !old(self).select_many,
                )
                &&& final (self).focus.fallback_render_index == old(
                    self,
                ).focus.fallback_render_index
            }),
            final (self).wf(),
    {
        let prev_render: usize = match find_render_index(sorted_ids, &self.focus.id) {
            Some(i) => i,
            None => self.focus.fallback_render_index,
        };
        let next_render: usize = if limit == 0 {
            0
        } else {
            proof {
                assert(next_page * limit + prev_render % limit < (next_page + 1) * limit)
                    by (nonlinear_arith)
                    requires
                        limit > 0,
                ;
            }
            next_page * limit + prev_render % limit
        };
        let total_rows = sorted_ids.len();
        proof {
            assert(ids_view(sorted_ids@).len() == total_rows as nat);
            match self.focus.view_id() {
                Some(idv) => lemma_first_index_bounds(ids_view(sorted_ids@), idv, 0),
                None => (),
            }
            let prev_spec = (match self.focus.view_id() {
                Some(idv) => match spec_first_index(ids_view(sorted_ids@), idv, 0) {
                    Some(i) => i as nat,
                    None => self.focus.fallback_render_index as nat,
                },
                None => self.focus.fallback_render_index as nat,
            });
            assert(prev_render as nat == prev_spec);
            let next_spec: nat = if limit == 0 {
                0
            } else {
                (next_page * limit + (prev_spec % (limit as nat))) as nat
            };
            assert(next_render as nat == next_spec);
        }
        self.focus_by_render_index(
            next_render,
            FocusByRenderIndexOptions {
                fallback: None,
                molded: None,
                base: Some(
                    FocusByIdOptions { without_scroll: Some(disabled), with_select: None },
                ),
            },
            sorted_ids,
        );
    }

    /// Resets every engine to its initial state.
    pub fn init(&mut self)
        requires
            old(self).wf(),
        ensures
            final (self).sort.view_entries() == entries_view(old(self).sort.init_entries@),
            final (self).selection.view_ids() == ids_view(old(self).selection.init_ids@),
            final (self).focus.view_id() == opt_id_view(old(self).focus.init_id),
            final (self).pagination.internal_limit == old(self).pagination.init_limit,
            final (self).column_widths.view_widths() == crate::column_widths::widths_view(
                old(self).column_widths.init_widths@,
            ),
    {
        self.sort.init();
        self.selection.init();
        self.focus.init();
        self.pagination.init();
        self.column_widths.init();
    }
}


// ------------------------------------------------------------------
// Keeping the selection across removed rows.

/// Predicate holding of the IDs that are not removed.
pub open spec fn spec_not_removed(removed: Seq<Seq<char>>) -> spec_fn(Seq<char>) -> bool {
    |x: Seq<char>| !crate::select::spec_id_in(removed, x)
}

/// Re-mapped selection after the removal, before the fallback: each
/// previously selected ID keeps itself when it survives, else falls to the
/// survivor at its old render position, else drops out.
pub open spec fn spec_kept_ids(
    prev: Seq<Seq<char>>,
    sorted: Seq<Seq<char>>,
    survivors: Seq<Seq<char>>,
    k: int,
) -> Seq<Seq<char>>
    decreases prev.len() - k,
{
    if k < 0 || k >= prev.len() {
        Seq::empty()
    } else {
        let rest = spec_kept_ids(prev, sorted, survivors, k + 1);
        let id = prev[k];
        if crate::select::spec_id_in(survivors, id) {
            seq![id] + rest
        } else {
            match spec_first_index(sorted, id, 0) {
                Some(pri) => if pri < survivors.len() {
                    seq![survivors[pri]] + rest
                } else {
                    rest
                },
                None => rest,
            }
        }
    }
}

/// The selection proposed after removing rows: the re-mapped selection,
/// falling back to the last surviving row when a previously non-empty
/// selection would otherwise vanish although rows survive.
pub open spec fn spec_keep_selection(
    prev: Seq<Seq<char>>,
    sorted: Seq<Seq<char>>,
    removed: Seq<Seq<char>>,
) -> Seq<Seq<char>> {
    let survivors = sorted.filter(spec_not_removed(removed));
    let kept = spec_kept_ids(prev, sorted, survivors, 0);
    if kept.len() == 0 && prev.len() > 0 && survivors.len() > 0 {
        seq![survivors.last()]
    } else {
        kept
    }
}

/// The IDs of the rows that survive the removal, in render order.
fn survivors_of(sorted_ids: &Vec<String>, removed_ids: &Vec<String>) -> (r: Vec<String>)
    ensures
        ids_view(r@) == ids_view(sorted_ids@).filter(
            spec_not_removed(ids_view(removed_ids@)),
        ),
{
    let ghost pred = spec_not_removed(ids_view(removed_ids@));
    let ghost full = ids_view(sorted_ids@);
    let mut out: Vec<String> = Vec::new();
    let mut i: usize = 0;
    proof {
        reveal_with_fuel(Seq::filter, 1);
        assert(full.take(0).filter(pred) =~= Seq::<Seq<char>>::empty());
        assert(ids_view(out@) =~= full.take(0).filter(pred));
    }
    while i < sorted_ids.len()
        invariant
            0 <= i <= sorted_ids@.len(),
            full == ids_view(sorted_ids@),
            pred == spec_not_removed(ids_view(removed_ids@)),
            ids_view(out@) == full.take(i as int).filter(pred),
        decreases sorted_ids@.len() - i,
    {
        let keep = !crate::select::ids_contain(removed_ids, &sorted_ids[i]);
        proof {
            assert(full[i as int] == sorted_ids@[i as int]@);
            reveal_with_fuel(Seq::filter, 2);
            let pre = full.take(i + 1int);
            assert(pre.drop_last() =~= full.take(i as int));
            assert(pre.last() == full[i as int]);
        }
        if keep {
            let ghost before = ids_view(out@);
            out.push(sorted_ids[i].clone());
            proof {
                assert(pred(full[i as int]));
                assert(ids_view(out@) =~= before.push(full[i as int]));
                assert(ids_view(out@) =~= full.take(i + 1int).filter(pred));
            }
        } else {
            proof {
                assert(!pred(full[i as int]));
                assert(ids_view(out@) =~= full.take(i + 1int).filter(pred));
            }
        }
        i = i + 1;
    }
    proof {
        assert(full.take(sorted_ids@.len() as int) =~= full);
    }
    out
}

impl TableState {
    /// Re-maps the selection after rows are removed: a selected row that
    /// survives stays selected; one that vanishes falls to the survivor at
    /// its old render position; and a selection that would vanish entirely
    /// falls back to the last surviving row. The result is committed
    /// through the selection policies.
    pub fn keep_select_by_removed_ids(
        &mut self,
        removed_ids: &Vec<String>,
        sorted_ids: &Vec<String>,
    )
        requires
            old(self).wf(),
        ensures
            final (self).selection.view_ids() == old(self).selection.spec_next_ids(
                spec_keep_selection(
                    old(self).selection.view_ids(),
                    ids_view(sorted_ids@),
                    ids_view(removed_ids@),
                ),
            ),
            final (self).selection.init_ids == old(self).selection.init_ids,
            final (self).selection.select_many == old(self).selection.select_many,
            final (self).selection.changeable == old(self).selection.changeable,
            final (self).selection.cancelable == old(self).selection.cancelable,
            final (self).sort == old(self).sort,
            final (self).focus == old(self).focus,
            final (self).pagination == old(self).pagination,
            final (self).column_widths == old(self).column_widths,
            final (self).virtual_scroll == old(self).virtual_scroll,
            final (self).select_many == old(self).select_many,
            final (self).auto_limit == old(self).auto_limit,
            final (self).wf(),
    {
        let ghost prev_view = self.selection.view_ids();
        let ghost sorted_view = ids_view(sorted_ids@);
        let ghost removed_view = ids_view(removed_ids@);
        let survivors = survivors_of(sorted_ids, removed_ids);
        let ghost surv_view = ids_view(survivors@);
        let prev = crate::select::clone_ids(&self.selection.ids);
        proof {
            assert(ids_view(prev@) =~= prev_view);
        }
        let mut next: Vec<String> = Vec::new();
        let mut k: usize = prev.len();
        proof {
            assert(spec_kept_ids(prev_view, sorted_view, surv_view, k as int) =~= Seq::<
                Seq<char>,
            >::empty());
            assert(ids_view(next@) =~= Seq::<Seq<char>>::empty());
        }
        while k > 0
            invariant
                0 <= k <= prev@.len(),
                prev_view == ids_view(prev@),
                sorted_view == ids_view(sorted_ids@),
                removed_view == ids_view(removed_ids@),
                surv_view == ids_view(survivors@),
                surv_view == sorted_view.filter(spec_not_removed(removed_view)),
                ids_view(next@) == spec_kept_ids(prev_view, sorted_view, surv_view, k as int),
            decreases k,
        {
            k = k - 1;
            let ghost before = ids_view(next@);
            let id = &prev[k];
            proof {
                assert(prev_view[k as int] == prev@[k as int]@);
            }
            if crate::select::ids_contain(&survivors, id) {
                next.insert(0, id.clone());
                proof {
                    assert(ids_view(next@) =~= seq![prev_view[k as int]] + before);
                }
            } else {
                match crate::select::index_of_id(sorted_ids, id) {
                    Some(pri) => {
                        proof {
                            lemma_first_index_skip(sorted_view, prev_view[k as int], 0, pri as int);
                            assert(spec_first_index(sorted_view, prev_view[k as int], 0) == Some(
                                pri as int,
                            ));
                        }
                        if pri < survivors.len() {
                            next.insert(0, survivors[pri].clone());
                            proof {
                                assert(surv_view[pri as int] == survivors@[pri as int]@);
                                assert(ids_view(next@) =~= seq![surv_view[pri as int]] + before);
                            }
                        }
                    },
                    None => {
                        proof {
                            lemma_first_index_skip(
                                sorted_view,
                                prev_view[k as int],
                                0,
                                sorted_view.len() as int,
                            );
                        }
                    },
                }
            }
        }
        let use_fallback = next.len() == 0 && prev.len() > 0 && survivors.len() > 0;
        let proposed = if use_fallback {
            let mut fb: Vec<String> = Vec::new();
            fb.push(survivors[survivors.len() - 1].clone());
            proof {
                assert(surv_view[surv_view.len() - 1] == survivors@[survivors@.len() - 1]@);
                assert(ids_view(fb@) =~= seq![surv_view.last()]);
            }
            fb
        } else {
            next
        };
        proof {
            assert(ids_view(proposed@) == spec_keep_selection(prev_view, sorted_view, removed_view));
        }
        let _ = self.selection.set_ids(proposed);
    }
}

// ------------------------------------------------------------------
// Building the table state from the construction parameters.

/// Construction parameters of a table.
pub struct UseTableParams<T: Clone + core::hash::Hash + Eq> {
    /// The records to display.
    pub data: Vec<T>,
    /// The caller's column declarations.
    pub render_map: RenderMap,
    /// Stable identity of each record, aligned with `data`; the decimal
    /// string of each raw index when absent.
    pub data_ids: Option<Vec<String>>,
    /// One rank vector per sortable column, standing for its ascending
    /// comparator: ascending rank order is ascending row order.
    pub sort_ranks: Vec<(String, Vec<u64>)>,
    /// Initial pagination settings; 10 rows per page with the automatic
    /// limit when absent.
    pub default_pagination: Option<DefaultPagination>,
    /// Initially focused ID.
    pub default_focus: Option<String>,
    /// Initial sort entries; the columns' declared initial directions when
    /// absent.
    pub default_sort: Option<Vec<(String, Order)>>,
    /// Whether selection is enabled; true when absent.
    pub selectable: Option<bool>,
    /// Whether several rows may be selected; false when absent.
    pub select_many: Option<bool>,
    /// Whether a selected row may be deselected; `select_many` when absent.
    pub select_cancelable: Option<bool>,
    /// Initially selected IDs.
    pub default_select: Option<Vec<String>>,
}

/// The sort entry each column contributes: its key and its declared initial
/// direction.
pub open spec fn spec_col_entries(m: Seq<(String, crate::column::ColumnOption)>) -> Seq<
    (Seq<char>, Order),
> {
    Seq::new(m.len(), |i: int| (m[i].0@, m[i].1.init_sort_order))
}

/// The initial direction each column declaration carries: none for a bare
/// label, the declared one — defaulted to none — for an options object.
pub open spec fn spec_init_order_of(v: RenderMapValue) -> Order {
    match v {
        RenderMapValue::Label(_) => Order::NoSort,
        RenderMapValue::Options(args) => match args.init_sort_order {
            Some(o) => o,
            None => Order::NoSort,
        },
    }
}

/// The sort entry each column declaration contributes.
pub open spec fn spec_render_init_entries(m: Seq<(String, RenderMapValue)>) -> Seq<
    (Seq<char>, Order),
> {
    Seq::new(m.len(), |i: int| (m[i].0@, spec_init_order_of(m[i].1)))
}

/// Predicate holding of the entries whose direction is active.
pub open spec fn spec_active_entry() -> spec_fn((Seq<char>, Order)) -> bool {
    |e: (Seq<char>, Order)| e.1 != Order::NoSort
}

/// The default sort entries: one per column whose declared initial
/// direction is active, in column order.
fn default_sort_entries(column_option_map: &ColumnOptionMap) -> (r: Vec<(String, Order)>)
    ensures
        entries_view(r@) == spec_col_entries(column_option_map@).filter(spec_active_entry()),
{
    let ghost full = spec_col_entries(column_option_map@);
    let ghost pred = spec_active_entry();
    let mut out: Vec<(String, Order)> = Vec::new();
    let mut i: usize = 0;
    proof {
        reveal_with_fuel(Seq::filter, 1);
        assert(full.take(0).filter(pred) =~= Seq::<(Seq<char>, Order)>::empty());
        assert(entries_view(out@) =~= full.take(0).filter(pred));
    }
    while i < column_option_map.len()
        invariant
            0 <= i <= column_option_map@.len(),
            full == spec_col_entries(column_option_map@),
            pred == spec_active_entry(),
            entries_view(out@) == full.take(i as int).filter(pred),
        decreases column_option_map@.len() - i,
    {
        let direction = column_option_map[i].1.init_sort_order;
        proof {
            assert(full[i as int] == (column_option_map@[i as int].0@, direction));
            reveal_with_fuel(Seq::filter, 2);
            let pre = full.take(i + 1int);
            assert(pre.drop_last() =~= full.take(i as int));
            assert(pre.last() == full[i as int]);
        }
        if !matches!(direction, Order::NoSort) {
            let ghost before = entries_view(out@);
            out.push((column_option_map[i].0.clone(), direction));
            proof {
                assert(pred(full[i as int]));
                assert(entries_view(out@) =~= before.push(full[i as int]));
                assert(entries_view(out@) =~= full.take(i + 1int).filter(pred));
            }
        } else {
            proof {
                assert(!pred(full[i as int]));
                assert(entries_view(out@) =~= full.take(i + 1int).filter(pred));
            }
        }
        i = i + 1;
    }
    proof {
        assert(full.take(column_option_map@.len() as int) =~= full);
    }
    out
}

/// Unique column keys in a render map.
pub open spec fn spec_unique_render_keys(m: Seq<(String, RenderMapValue)>) -> bool {
    forall|i: int, j: int| 0 <= i < j < m.len() ==> m[i].0@ != m[j].0@
}

impl TableState {
    /// Builds the initial table state: the sort entries from the explicit
    /// default or the columns' declared directions, the selection from the
    /// default IDs under the declared policies, the focus on the default
    /// ID, the page limit from the default pagination, the column widths
    /// from the column options, and no measured heights.
    pub fn from_params<T: Clone + core::hash::Hash + Eq>(params: &UseTableParams<T>) -> (r:
        TableState)
        requires
            spec_unique_render_keys(params.render_map@),
            match params.default_sort {
                Some(ref ds) => spec_unique_keys(entries_view(ds@)),
                None => true,
            },
        ensures
            r.wf(),
            r.sort.view_entries() == (match params.default_sort {
                Some(ref ds) => entries_view(ds@),
                None => spec_render_init_entries(params.render_map@).filter(spec_active_entry()),
            }),
            r.select_many == (match params.select_many {
                Some(b) => b,
                None => false,
            }),
            r.selection.select_many == r.select_many,
            r.selection.changeable == (match params.selectable {
                Some(b) => b,
                None => true,
            }),
            r.selection.cancelable == (match params.select_cancelable {
                Some(b) => b,
                None => r.select_many,
            }),
            r.selection.view_ids() == crate::select::spec_capped(
                r.select_many,
                (match params.default_select {
                    Some(ref ds) => ids_view(ds@),
                    None => Seq::<Seq<char>>::empty(),
                }),
            ),
            r.focus.view_id() == (match params.default_focus {
                Some(ref s) => Some(s@),
                None => None::<Seq<char>>,
            }),
            r.focus.active == false,
            r.focus.fallback_render_index == 0,
            r.pagination.init_limit == (match params.default_pagination {
                Some(ref dp) => match dp.limit {
                    Some(l) => l,
                    None => 10,
                },
                None => 10,
            }),
            r.pagination.internal_limit == r.pagination.init_limit,
            r.pagination.disabled is None,
            r.auto_limit == (match params.default_pagination {
                Some(ref dp) => match dp.auto_limit {
                    Some(b) => b,
                    None => true,
                },
                None => true,
            }),
    {
        let select_many = match params.select_many {
            Some(b) => b,
            None => false,
        };
        let selectable = match params.selectable {
            Some(b) => b,
            None => true,
        };
        let cancelable = match params.select_cancelable {
            Some(b) => b,
            None => select_many,
        };
        let (limit, auto_limit): (usize, bool) = match &params.default_pagination {
            Some(dp) => {
                let l = match dp.limit {
                    Some(l) => l,
                    None => 10,
                };
                let a = match dp.auto_limit {
                    Some(b) => b,
                    None => true,
                };
                (l, a)
            },
            None => (10, true),
        };
        let column_option_map = get_column_option_map(&params.render_map);
        let sort_state = match &params.default_sort {
            Some(ds) => {
                let cloned = crate::sort::clone_entries(ds);
                SortState::new(cloned)
            },
            None => {
                let entries = default_sort_entries(&column_option_map);
                proof {
                    assert(spec_col_entries(column_option_map@) =~= spec_render_init_entries(
                        params.render_map@,
                    ));
                    assert(spec_unique_keys(spec_col_entries(column_option_map@)));
                    crate::sort::lemma_filter_unique_keys(
                        spec_col_entries(column_option_map@),
                        spec_active_entry(),
                    );
                }
                SortState::new(entries)
            },
        };
        let default_select = match &params.default_select {
            Some(ds) => crate::select::clone_ids(ds),
            None => Vec::new(),
        };
        proof {
            match params.default_select {
                Some(ref ds) => {
                    assert(ids_view(default_select@) =~= ids_view(ds@));
                },
                None => {
                    assert(ids_view(default_select@) =~= Seq::<Seq<char>>::empty());
                },
            }
        }
        let selection = SelectionState::new(default_select, select_many, selectable, cancelable);
        let focus = FocusState::new(crate::focus::clone_opt_id(&params.default_focus));
        let pagination = PaginationState::new(limit, None);
        let column_widths = ColumnWidthsState::new(&column_option_map);
        let virtual_scroll = VirtualScrollState::new(0);
        TableState {
            sort: sort_state,
            selection,
            focus,
            pagination,
            column_widths,
            virtual_scroll,
            select_many,
            auto_limit,
        }
    }
}


// ------------------------------------------------------------------
// The per-render derivation.

/// Largest number of rows `use_table` accepts; keeps every index sum in
/// range whatever the word size.
pub const MAX_TABLE_ROWS: usize = 0x7FFF_FFFF;

/// Render indices of the selected rows, in selection order: the first
/// render position of each selected ID that resolves at all, from position
/// `k` of the selection on.
pub open spec fn spec_selected_indices(
    sel: Seq<Seq<char>>,
    rows_ids: Seq<Seq<char>>,
    k: int,
) -> Seq<int>
    decreases sel.len() - k,
{
    if k < 0 || k >= sel.len() {
        Seq::empty()
    } else {
        let rest = spec_selected_indices(sel, rows_ids, k + 1);
        match spec_first_index(rows_ids, sel[k], 0) {
            Some(i) => seq![i] + rest,
            None => rest,
        }
    }
}

/// The rows of the selected IDs, in selection order: for each selected ID
/// that resolves, the row at its first render position.
fn selected_rows<T: Clone + core::hash::Hash + Eq>(
    data: &Vec<T>,
    ids: &Vec<String>,
    perm: &Vec<usize>,
    sorted_ids: &Vec<String>,
    sel: &Vec<String>,
) -> (r: Vec<DataWithId<T>>)
    requires
        ids@.len() == data@.len(),
        sorted_ids@.len() == perm@.len(),
        forall|i: int| 0 <= i < perm@.len() ==> #[trigger] perm@[i] < data@.len(),
        forall|w: int|
            0 <= w < perm@.len() ==> #[trigger] ids_view(sorted_ids@)[w] == ids_view(
                ids@,
            )[perm@[w] as int],
    ensures
        ({
            let list = spec_selected_indices(ids_view(sel@), ids_view(sorted_ids@), 0);
            &&& r@.len() == list.len()
            &&& forall|w: int|
                0 <= w < r@.len() ==> 0 <= #[trigger] list[w] < perm@.len() && r@[w].data_index
                    == perm@[list[w]]
            &&& forall|w: int|
                0 <= w < r@.len() ==> #[trigger] r@[w].render_index == Some(list[w] as usize)
            &&& forall|w: int| 0 <= w < r@.len() ==> #[trigger] r@[w].local_index is None
            &&& forall|w: int|
                0 <= w < r@.len() ==> #[trigger] r@[w].id@ == ids_view(ids@)[perm@[list[w]] as int]
            &&& forall|w: int|
                0 <= w < r@.len() ==> vstd::pervasive::cloned::<T>(
                    data@[perm@[list[w]] as int],
                    #[trigger] r@[w].get,
                )
        }),
{
    let ghost sel_view = ids_view(sel@);
    let ghost rows_ids = ids_view(sorted_ids@);
    let mut out: Vec<DataWithId<T>> = Vec::new();
    let mut k: usize = sel.len();
    proof {
        assert(spec_selected_indices(sel_view, rows_ids, k as int) =~= Seq::<int>::empty());
    }
    while k > 0
        invariant
            0 <= k <= sel@.len(),
            sel_view == ids_view(sel@),
            rows_ids == ids_view(sorted_ids@),
            ids@.len() == data@.len(),
            sorted_ids@.len() == perm@.len(),
            forall|i: int| 0 <= i < perm@.len() ==> #[trigger] perm@[i] < data@.len(),
            forall|w: int|
                0 <= w < perm@.len() ==> #[trigger] ids_view(sorted_ids@)[w] == ids_view(
                    ids@,
                )[perm@[w] as int],
            ({
                let list = spec_selected_indices(sel_view, rows_ids, k as int);
                &&& out@.len() == list.len()
                &&& forall|w: int|
                    0 <= w < out@.len() ==> 0 <= #[trigger] list[w] < perm@.len()
                        && out@[w].data_index == perm@[list[w]]
                &&& forall|w: int|
                    0 <= w < out@.len() ==> #[trigger] out@[w].render_index == Some(
                        list[w] as usize,
                    )
                &&& forall|w: int| 0 <= w < out@.len() ==> #[trigger] out@[w].local_index is None
                &&& forall|w: int|
                    0 <= w < out@.len() ==> #[trigger] out@[w].id@ == ids_view(
                        ids@,
                    )[perm@[list[w]] as int]
                &&& forall|w: int|
                    0 <= w < out@.len() ==> vstd::pervasive::cloned::<T>(
                        data@[perm@[list[w]] as int],
                        #[trigger] out@[w].get,
                    )
            }),
        decreases k,
    {
        k = k - 1;
        proof {
            assert(sel_view[k as int] == sel@[k as int]@);
        }
        match crate::select::index_of_id(sorted_ids, &sel[k]) {
            Some(ri) => {
                proof {
                    lemma_first_index_skip(rows_ids, sel_view[k as int], 0, ri as int);
                    assert(spec_first_index(rows_ids, sel_view[k as int], 0) == Some(ri as int));
                }
                let di = perm[ri];
                let row = DataWithId {
                    get: data[di].clone(),
                    id: ids[di].clone(),
                    data_index: di,
                    render_index: Some(ri),
                    local_index: None,
                };
                out.insert(0, row);
                proof {
                    let list = spec_selected_indices(sel_view, rows_ids, k as int);
                    assert(list =~= seq![ri as int] + spec_selected_indices(
                        sel_view,
                        rows_ids,
                        k + 1int,
                    ));
                    assert(out@[0].id@ == ids@[di as int]@);
                    assert(ids_view(ids@)[di as int] == ids@[di as int]@);
                }
            },
            None => {
                proof {
                    lemma_first_index_skip(rows_ids, sel_view[k as int], 0, rows_ids.len() as int);
                }
            },
        }
    }
    out
}

/// Derived per-render view of the table.
pub struct UseTableResult<T: Clone + core::hash::Hash + Eq> {
    /// The rows actually handed to the renderer: the virtual-scroll window
    /// of the current page.
    pub virtualized_data: Vec<DataWithId<T>>,
    /// Number of records in the caller's array.
    pub data_length: usize,
    /// Whether several rows may be selected.
    pub select_many: bool,
    /// The normalized column options, in column order.
    pub column_option_map: ColumnOptionMap,
    /// Every row, in sorted order.
    pub sorted_data: Vec<DataWithId<T>>,
    /// The rows of the current page, in order.
    pub paginated_data: Vec<DataWithId<T>>,
    /// The rows of the selected IDs, most recently selected first.
    pub selected_data: Vec<DataWithId<T>>,
    /// The focused row, when the focused ID resolves.
    pub focused_data: Option<DataWithId<T>>,
    /// Render index of the focused row, when the focused ID resolves.
    pub focused_render_index: Option<usize>,
    /// The pagination numbers of this render.
    pub pagination: UsePaginationResult,
    /// The virtual-scroll window of this render, over the current page.
    pub virtual_scroll: UseVirtualScrollResult,
    /// The sort entries, first entry primary.
    pub sort_orders: Vec<(String, Order)>,
}

/// The limit override of one render: pagination is disabled — every row on
/// one page — when the default pagination declares no limit.
pub open spec fn spec_limit_override(dp: Option<DefaultPagination>, n: nat) -> Option<usize> {
    match dp {
        Some(d) => match d.limit {
            Some(_) => None,
            None => Some(n as usize),
        },
        None => None,
    }
}

/// Derives one render of the table from the construction parameters and the
/// current engine state, in the fixed order sort, focus resolution,
/// pagination, virtualization: the records are sorted into view rows, the
/// focused ID resolves to a render index, that index places the page, the
/// page is sliced, and the virtual-scroll window cuts the rendered rows out
/// of the page.
#[verifier::rlimit(100)]
pub fn use_table<T: Clone + core::hash::Hash + Eq>(
    params: &UseTableParams<T>,
    state: &TableState,
) -> (r: UseTableResult<T>)
    requires
        state.wf(),
        params.data@.len() <= MAX_TABLE_ROWS,
        match params.data_ids {
            Some(ref v) => v@.len() == params.data@.len(),
            None => true,
        },
    ensures
        ({
            let n = params.data@.len() as int;
            let row_ids = spec_row_ids(params.data@.len() as nat, params.data_ids);
            let passes = spec_active_passes(
                state.sort.view_entries(),
                comps_view(params.sort_ranks@),
                params.data@.len() as nat,
                0,
            );
            &&& r.data_length as int == n
            &&& r.select_many == state.select_many
            &&& r.sort_orders@.len() == state.sort.order_entries@.len()
            &&& entries_view(r.sort_orders@) == state.sort.view_entries()
            &&& r.column_option_map@.len() == params.render_map@.len()
            &&& (forall|i: int|
                0 <= i < r.column_option_map@.len() ==> #[trigger] r.column_option_map@[i].0@
                    == params.render_map@[i].0@)
            &&& (forall|i: int|
                0 <= i < r.column_option_map@.len() ==> crate::column::spec_option_matches(
                    params.render_map@[i].0@,
                    params.render_map@[i].1,
                    #[trigger] r.column_option_map@[i].1,
                ))
            &&& r.sorted_data@.len() == n
            &&& (forall|w: int|
                0 <= w < n ==> #[trigger] r.sorted_data@[w].data_index < n)
            &&& (forall|w: int, x: int|
                0 <= w < x < n ==> r.sorted_data@[w].data_index != r.sorted_data@[x].data_index)
            &&& (forall|w: int, x: int|
                0 <= w < x < n ==> crate::sort::spec_before(
                    passes,
                    #[trigger] r.sorted_data@[w].data_index as int,
                    #[trigger] r.sorted_data@[x].data_index as int,
                ))
            &&& (forall|w: int|
                0 <= w < n ==> #[trigger] r.sorted_data@[w].render_index == Some(w as usize))
            &&& (forall|w: int| 0 <= w < n ==> #[trigger] r.sorted_data@[w].local_index is None)
            &&& (forall|w: int|
                0 <= w < n ==> #[trigger] r.sorted_data@[w].id@ == row_ids[r.sorted_data@[w].data_index as int])
            &&& (forall|w: int|
                0 <= w < n ==> vstd::pervasive::cloned::<T>(
                    params.data@[r.sorted_data@[w].data_index as int],
                    #[trigger] r.sorted_data@[w].get,
                ))
        }),
        ({
            let n = params.data@.len() as int;
            let rows_ids = Seq::new(r.sorted_data@.len(), |w: int| r.sorted_data@[w].id@);
            let focused = (match state.focus.view_id() {
                Some(idv) => spec_first_index(rows_ids, idv, 0),
                None => None::<int>,
            });
            let limit = (match spec_limit_override(
                params.default_pagination,
                params.data@.len() as nat,
            ) {
                Some(d) => d as nat,
                None => state.pagination.internal_limit as nat,
            });
            let focused_nat = (match focused {
                Some(i) => i as nat,
                None => 0,
            });
            let offset = spec_offset(limit, focused_nat);
            let start: int = if offset <= n {
                offset as int
            } else {
                n
            };
            let end: int = if offset + limit <= n {
                (offset + limit) as int
            } else {
                n
            };
            &&& r.focused_render_index == (match focused {
                Some(i) => Some(i as usize),
                None => None::<usize>,
            })
            &&& r.pagination.limit as nat == limit
            &&& r.pagination.page as nat == spec_page(limit, focused_nat)
            &&& r.pagination.offset as nat == offset
            &&& r.pagination.min_page == 0
            &&& r.pagination.disabled == (spec_limit_override(
                params.default_pagination,
                params.data@.len() as nat,
            ) is Some)
            &&& r.paginated_data@.len() == end - start
            &&& (forall|l: int|
                0 <= l < r.paginated_data@.len() ==> #[trigger] r.paginated_data@[l].data_index
                    == r.sorted_data@[start + l].data_index)
            &&& (forall|l: int|
                0 <= l < r.paginated_data@.len() ==> #[trigger] r.paginated_data@[l].render_index
                    == Some((start + l) as usize))
            &&& (forall|l: int|
                0 <= l < r.paginated_data@.len() ==> #[trigger] r.paginated_data@[l].local_index
                    == Some(l as usize))
            &&& (forall|l: int|
                0 <= l < r.paginated_data@.len() ==> #[trigger] r.paginated_data@[l].id@
                    == r.sorted_data@[start + l].id@)
            &&& (forall|l: int|
                0 <= l < r.paginated_data@.len() ==> vstd::pervasive::cloned::<T>(
                    params.data@[r.paginated_data@[l].data_index as int],
                    #[trigger] r.paginated_data@[l].get,
                ))
            &&& r.virtual_scroll.content_length == r.paginated_data@.len()
            &&& ({
                let vstart = crate::virtual_scroll::spec_render_start(
                    r.virtual_scroll,
                    r.paginated_data@.len() as int,
                );
                let vend = crate::virtual_scroll::spec_render_end(
                    r.virtual_scroll,
                    r.paginated_data@.len() as int,
                );
                &&& r.virtualized_data@.len() == vend - vstart
                &&& (forall|v: int|
                    0 <= v < r.virtualized_data@.len() ==> #[trigger] r.virtualized_data@[v].data_index == r.sorted_data@[start + vstart + v].data_index)
                &&& (forall|v: int|
                    0 <= v < r.virtualized_data@.len() ==> #[trigger] r.virtualized_data@[v].render_index == Some((start + vstart + v) as usize))
                &&& (forall|v: int|
                    0 <= v < r.virtualized_data@.len() ==> #[trigger] r.virtualized_data@[v].local_index == Some((vstart + v) as usize))
                &&& (forall|v: int|
                    0 <= v < r.virtualized_data@.len() ==> #[trigger] r.virtualized_data@[v].id@
                        == r.sorted_data@[start + vstart + v].id@)
                &&& (forall|v: int|
                    0 <= v < r.virtualized_data@.len() ==> vstd::pervasive::cloned::<T>(
                        params.data@[r.virtualized_data@[v].data_index as int],
                        #[trigger] r.virtualized_data@[v].get,
                    ))
            })
            &&& ({
                let list = spec_selected_indices(state.selection.view_ids(), rows_ids, 0);
                &&& r.selected_data@.len() == list.len()
                &&& (forall|w: int|
                    0 <= w < r.selected_data@.len() ==> 0 <= #[trigger] list[w] < n
                        && r.selected_data@[w].data_index == r.sorted_data@[list[w]].data_index
                        && r.selected_data@[w].render_index == Some(list[w] as usize)
                        && r.selected_data@[w].id@ == r.sorted_data@[list[w]].id@)
            })
            &&& r.focused_data == (match r.focused_render_index {
                Some(_) => r.focused_data,
                None => None::<DataWithId<T>>,
            })
            &&& (match r.focused_render_index {
                Some(i) => r.focused_data is Some && r.focused_data.unwrap().data_index
                    == r.sorted_data@[i as int].data_index && r.focused_data.unwrap().render_index
                    == Some(i) && r.focused_data.unwrap().id@ == r.sorted_data@[i as int].id@,
                None => r.focused_data is None,
            })
        }),
{
    let n = params.data.len();
    let column_option_map = get_column_option_map(&params.render_map);
    let ids = resolve_row_ids(n, &params.data_ids);
    let perm = sort(&state.sort, &params.sort_ranks, n);
    let sorted_data = build_rows(&params.data, &ids, &perm, 0, n, None);
    let sorted_ids = sorted_ids_of(&ids, &perm);
    proof {
        assert(forall|w: int|
            0 <= w < n ==> #[trigger] ids_view(sorted_ids@)[w] == Seq::new(
                sorted_data@.len(),
                |v: int| sorted_data@[v].id@,
            )[w]);
        assert(ids_view(sorted_ids@) =~= Seq::new(
            sorted_data@.len(),
            |v: int| sorted_data@[v].id@,
        ));
    }
    let focused_render_index = find_render_index(&sorted_ids, &state.focus.id);
    let limit_override = match &params.default_pagination {
        Some(dp) => match dp.limit {
            Some(_) => None,
            None => Some(n),
        },
        None => None,
    };
    let pag_view = PaginationState {
        init_limit: state.pagination.init_limit,
        internal_limit: state.pagination.internal_limit,
        disabled: limit_override,
    };
    let pagination = use_pagination(
        &UsePaginationParams {
            init: state.pagination.init_limit,
            disabled: limit_override,
            focused_render_index,
        },
        &pag_view,
    );
    let start = if pagination.offset <= n {
        pagination.offset
    } else {
        n
    };
    let end = if pagination.limit <= n - start && pagination.offset <= n {
        start + pagination.limit
    } else {
        n
    };
    proof {
        assert(end as int == if pagination.offset as int + pagination.limit as int <= n as int {
            pagination.offset as int + pagination.limit as int
        } else {
            n as int
        });
    }
    let paginated_data = build_rows(&params.data, &ids, &perm, start, end, Some(0));
    let page_len = end - start;
    proof {
        assert(page_len <= n);
        assert(page_len + 4 <= crate::virtual_scroll::MAX_CONTENT_LENGTH);
    }
    let virtual_scroll = use_virtual_scroll(
        &UseVirtualScrollParams {
            default_content_height_px: 35,
            content_length: page_len,
            over_scan: Some(4),
            view_height_px: None,
        },
        &state.virtual_scroll,
    );
    let cap = page_len;
    let vend = if virtual_scroll.render_limit <= cap && virtual_scroll.render_offset <= cap
        - virtual_scroll.render_limit {
        virtual_scroll.render_offset + virtual_scroll.render_limit
    } else {
        cap
    };
    let vstart = if virtual_scroll.render_offset <= vend {
        virtual_scroll.render_offset
    } else {
        vend
    };
    proof {
        assert(vend as int == crate::virtual_scroll::spec_render_end(
            virtual_scroll,
            page_len as int,
        ));
        assert(vstart as int == crate::virtual_scroll::spec_render_start(
            virtual_scroll,
            page_len as int,
        ));
    }
    let virtualized_data = build_rows(
        &params.data,
        &ids,
        &perm,
        start + vstart,
        start + vend,
        Some(vstart),
    );
    let selected_data = selected_rows(&params.data, &ids, &perm, &sorted_ids, &self_selection_ids(
        state,
    ));
    proof {
        match state.focus.view_id() {
            Some(idv) => lemma_first_index_bounds(ids_view(sorted_ids@), idv, 0),
            None => (),
        }
    }
    let focused_data = match focused_render_index {
        Some(i) => {
            let di = perm[i];
            Some(
                DataWithId {
                    get: params.data[di].clone(),
                    id: ids[di].clone(),
                    data_index: di,
                    render_index: Some(i),
                    local_index: None,
                },
            )
        },
        None => None,
    };
    let sort_orders = crate::sort::clone_entries(&state.sort.order_entries);
    let select_many = state.select_many;
    UseTableResult {
        virtualized_data,
        data_length: n,
        select_many,
        column_option_map,
        sorted_data,
        paginated_data,
        selected_data,
        focused_data,
        focused_render_index,
        pagination,
        virtual_scroll,
        sort_orders,
    }
}

/// The currently selected IDs, cloned out of the state.
fn self_selection_ids(state: &TableState) -> (r: Vec<String>)
    ensures
        ids_view(r@) == state.selection.view_ids(),
{
    let r = crate::select::clone_ids(&state.selection.ids);
    proof {
        assert(ids_view(r@) =~= state.selection.view_ids());
    }
    r
}

} // verus!
