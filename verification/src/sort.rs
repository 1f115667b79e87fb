//! Sort engine. `SortState` keeps the ordered list of `(column key,
//! direction)` pairs — first entry primary, each key at most once — and
//! `sort_indices` turns the active directions into a permutation of row
//! indices: sorted by the first active column, ties decided by the next,
//! remaining ties left in the original row order (a stable sort).

use vstd::prelude::*;
use crate::order::Order;

verus! {

/// The views of the entries of a sort-state list.
pub open spec fn entries_view(s: Seq<(String, Order)>) -> Seq<(Seq<char>, Order)> {
    Seq::new(s.len(), |i: int| (s[i].0@, s[i].1))
}

/// Each key appears at most once.
pub open spec fn spec_unique_keys(entries: Seq<(Seq<char>, Order)>) -> bool {
    forall|i: int, j: int| 0 <= i < j < entries.len() ==> entries[i].0 != entries[j].0
}

/// Direction recorded for `key` at or after position `k`; `NoSort` when the
/// key does not occur.
pub open spec fn spec_order_of_from(
    entries: Seq<(Seq<char>, Order)>,
    key: Seq<char>,
    k: int,
) -> Order
    decreases entries.len() - k,
{
    if k < 0 || k >= entries.len() {
        Order::NoSort
    } else if entries[k].0 == key {
        entries[k].1
    } else {
        spec_order_of_from(entries, key, k + 1)
    }
}

/// Direction recorded for `key`; `NoSort` when the key does not occur.
pub open spec fn spec_order_of(entries: Seq<(Seq<char>, Order)>, key: Seq<char>) -> Order {
    spec_order_of_from(entries, key, 0)
}

/// Predicate holding of the entries whose key differs from `key`.
pub open spec fn spec_other_key(key: Seq<char>) -> spec_fn((Seq<char>, Order)) -> bool {
    |e: (Seq<char>, Order)| e.0 != key
}

/// Resets an entry's direction to `NoSort`.
pub open spec fn spec_reset_dir() -> spec_fn((Seq<char>, Order)) -> (Seq<char>, Order) {
    |e: (Seq<char>, Order)| (e.0, Order::NoSort)
}

/// Upsert that moves the pair to the front: the entry for `key` leads and
/// the other entries follow in their previous order.
pub open spec fn spec_set_order(
    entries: Seq<(Seq<char>, Order)>,
    key: Seq<char>,
    order: Order,
) -> Seq<(Seq<char>, Order)> {
    seq![(key, order)] + entries.filter(spec_other_key(key))
}

/// Like `spec_set_order`, but every other key's direction is reset to
/// `NoSort`: single-column sort mode.
pub open spec fn spec_set_order_once(
    entries: Seq<(Seq<char>, Order)>,
    key: Seq<char>,
    order: Order,
) -> Seq<(Seq<char>, Order)> {
    seq![(key, order)] + entries.filter(spec_other_key(key)).map_values(spec_reset_dir())
}

/// Every element of a filtered sequence occurs in the original.
pub proof fn lemma_filter_subset<A>(s: Seq<A>, pred: spec_fn(A) -> bool)
    ensures
        forall|i: int| 0 <= i < s.filter(pred).len() ==> s.contains(#[trigger] s.filter(pred)[i]),
    decreases s.len(),
{
    reveal(Seq::filter);
    if s.len() > 0 {
        let prefix = s.drop_last();
        lemma_filter_subset(prefix, pred);
        assert forall|i: int| 0 <= i < s.filter(pred).len() implies s.contains(
            #[trigger] s.filter(pred)[i],
        ) by {
            if pred(s.last()) {
                assert(s.filter(pred) == prefix.filter(pred).push(s.last()));
            } else {
                assert(s.filter(pred) == prefix.filter(pred));
            }
            if i < prefix.filter(pred).len() {
                assert(prefix.contains(prefix.filter(pred)[i]));
                let w = choose|w: int| 0 <= w < prefix.len() && prefix[w] == prefix.filter(pred)[i];
                assert(s[w] == s.filter(pred)[i]);
            } else {
                assert(s.filter(pred)[i] == s.last());
                assert(s[s.len() - 1] == s.last());
            }
        }
    }
}

/// Sort state: the ordered list of `(column key, direction)` pairs, first
/// entry primary, and the list that `init` restores.
pub struct SortState {
    pub order_entries: Vec<(String, Order)>,
    pub init_entries: Vec<(String, Order)>,
}

impl SortState {
    pub open spec fn view_entries(self) -> Seq<(Seq<char>, Order)> {
        entries_view(self.order_entries@)
    }

    /// Each column key appears at most once.
    pub open spec fn wf(self) -> bool {
        spec_unique_keys(self.view_entries())
    }

    /// Builds a sort state from the initial entries, which must not repeat a
    /// key.
    pub fn new(init_entries: Vec<(String, Order)>) -> (r: SortState)
        requires
            spec_unique_keys(entries_view(init_entries@)),
        ensures
            r.view_entries() == entries_view(init_entries@),
            entries_view(r.init_entries@) == entries_view(init_entries@),
            r.wf(),
    {
        let current = clone_entries(&init_entries);
        proof {
            assert(entries_view(current@) =~= entries_view(init_entries@));
        }
        SortState { order_entries: current, init_entries }
    }

    /// Direction currently recorded for `key`; `NoSort` when the key is not
    /// listed.
    pub fn order_of(&self, key: &String) -> (r: Order)
        ensures
            r == spec_order_of(self.view_entries(), key@),
    {
        let ghost entries = self.view_entries();
        let mut i: usize = 0;
        while i < self.order_entries.len()
            invariant
                0 <= i <= self.order_entries.len(),
                entries == self.view_entries(),
                spec_order_of(entries, key@) == spec_order_of_from(entries, key@, i as int),
            decreases self.order_entries.len() - i,
        {
            if self.order_entries[i].0.eq(key) {
                assert(entries[i as int].0 == key@);
                return self.order_entries[i].1;
            }
            assert(entries[i as int].0 != key@);
            i = i + 1;
        }
        Order::NoSort
    }

    /// Upserts the `(key, order)` pair and moves it to the front, making the
    /// key primary; the other entries keep their order and directions.
    pub fn set_order(&mut self, key: &String, order: Order)
        requires
            old(self).wf(),
        ensures
            final (self).view_entries() == spec_set_order(old(self).view_entries(), key@, order),
            final (self).init_entries == old(self).init_entries,
            final (self).wf(),
    {
        let next = upsert_front(&self.order_entries, key, order, false);
        proof {
            lemma_upsert_unique(self.view_entries(), key@, order, false);
        }
        self.order_entries = next;
    }

    /// Upserts the `(key, order)` pair at the front and resets every other
    /// key's direction to `NoSort`: single-column sort mode.
    pub fn set_order_once(&mut self, key: &String, order: Order)
        requires
            old(self).wf(),
        ensures
            final (self).view_entries() == spec_set_order_once(
                old(self).view_entries(),
                key@,
                order,
            ),
            final (self).init_entries == old(self).init_entries,
            final (self).wf(),
    {
        let next = upsert_front(&self.order_entries, key, order, true);
        proof {
            lemma_upsert_unique(self.view_entries(), key@, order, true);
        }
        self.order_entries = next;
    }

    /// Advances the direction of `key` one step in the cycle
    /// `none -> asc -> desc -> none` and makes the key primary.
    pub fn shift_order(&mut self, key: &String)
        requires
            old(self).wf(),
        ensures
            final (self).view_entries() == spec_set_order(
                old(self).view_entries(),
                key@,
                spec_order_of(old(self).view_entries(), key@).spec_next(),
            ),
            final (self).init_entries == old(self).init_entries,
            final (self).wf(),
    {
        let current = self.order_of(key);
        self.set_order(key, current.next());
    }

    /// Restores the initial entries.
    pub fn init(&mut self)
        ensures
            final (self).view_entries() == entries_view(old(self).init_entries@),
            final (self).init_entries == old(self).init_entries,
    {
        let next = clone_entries(&self.init_entries);
        proof {
            assert(entries_view(next@) =~= entries_view(self.init_entries@));
        }
        self.order_entries = next;
    }
}

/// Clones a list of entries; the view is unchanged.
pub fn clone_entries(entries: &Vec<(String, Order)>) -> (r: Vec<(String, Order)>)
    ensures
        entries_view(r@) == entries_view(entries@),
        r@.len() == entries@.len(),
{
    let mut out: Vec<(String, Order)> = Vec::new();
    let mut i: usize = 0;
    while i < entries.len()
        invariant
            0 <= i <= entries.len(),
            out@.len() == i,
            forall|j: int|
                0 <= j < i ==> entries_view(out@)[j] == #[trigger] entries_view(entries@)[j],
        decreases entries.len() - i,
    {
        let pair = (entries[i].0.clone(), entries[i].1);
        out.push(pair);
        i = i + 1;
    }
    proof {
        assert(entries_view(out@) =~= entries_view(entries@));
    }
    out
}

/// Builds `[(key, order)]` followed by the entries whose key differs, kept in
/// order; with `once` their directions are reset to `NoSort`.
fn upsert_front(entries: &Vec<(String, Order)>, key: &String, order: Order, once: bool) -> (r: Vec<
    (String, Order),
>)
    ensures
        !once ==> entries_view(r@) == spec_set_order(entries_view(entries@), key@, order),
        once ==> entries_view(r@) == spec_set_order_once(entries_view(entries@), key@, order),
{
    let ghost full = entries_view(entries@);
    let ghost pred = spec_other_key(key@);
    let mut out: Vec<(String, Order)> = Vec::new();
    out.push((key.clone(), order));
    let mut i: usize = 0;
    proof {
        reveal_with_fuel(Seq::filter, 1);
        assert(full.take(0).filter(pred) =~= Seq::<(Seq<char>, Order)>::empty());
        assert(entries_view(out@) =~= seq![(key@, order)]);
    }
    while i < entries.len()
        invariant
            0 <= i <= entries.len(),
            full == entries_view(entries@),
            pred == spec_other_key(key@),
            !once ==> entries_view(out@) == seq![(key@, order)] + full.take(i as int).filter(pred),
            once ==> entries_view(out@) == seq![(key@, order)] + full.take(i as int).filter(
                pred,
            ).map_values(spec_reset_dir()),
        decreases entries.len() - i,
    {
        let keep = !entries[i].0.eq(key);
        proof {
            reveal_with_fuel(Seq::filter, 2);
            let pre = full.take(i + 1int);
            assert(pre.drop_last() =~= full.take(i as int));
            assert(pre.last() == full[i as int]);
        }
        if keep {
            let direction = if once {
                Order::NoSort
            } else {
                entries[i].1
            };
            let ghost before_view = entries_view(out@);
            let cloned_key = entries[i].0.clone();
            proof {
                assert(cloned_key@ == full[i as int].0);
            }
            out.push((cloned_key, direction));
            proof {
                assert(pred(full[i as int]));
                assert(entries_view(out@) =~= before_view.push((full[i as int].0, direction)));
                if once {
                    assert(entries_view(out@) =~= seq![(key@, order)] + full.take(
                        i as int,
                    ).filter(pred).map_values(spec_reset_dir()).push(
                        (full[i as int].0, Order::NoSort),
                    ));
                    assert(full.take(i + 1int).filter(pred) == full.take(i as int).filter(
                        pred,
                    ).push(full[i as int]));
                    assert(full.take(i + 1int).filter(pred).map_values(spec_reset_dir()) =~= full.take(i as int).filter(pred).map_values(spec_reset_dir()).push((full[i as int].0, Order::NoSort)));
                    assert(entries_view(out@) =~= seq![(key@, order)] + full.take(
                        i + 1int,
                    ).filter(pred).map_values(spec_reset_dir()));
                } else {
                    assert(entries_view(out@) =~= seq![(key@, order)] + full.take(
                        i as int,
                    ).filter(pred).push(full[i as int]));
                    assert(entries_view(out@) =~= seq![(key@, order)] + full.take(
                        i + 1int,
                    ).filter(pred));
                }
            }
        } else {
            proof {
                assert(!pred(full[i as int]));
                assert(full.take(i + 1int).filter(pred) == full.take(i as int).filter(pred));
                if once {
                    assert(entries_view(out@) =~= seq![(key@, order)] + full.take(
                        i + 1int,
                    ).filter(pred).map_values(spec_reset_dir()));
                } else {
                    assert(entries_view(out@) =~= seq![(key@, order)] + full.take(
                        i + 1int,
                    ).filter(pred));
                }
            }
        }
        i = i + 1;
    }
    proof {
        assert(full.take(entries@.len() as int) =~= full);
    }
    out
}

/// An upsert to the front preserves key uniqueness.
proof fn lemma_upsert_unique(entries: Seq<(Seq<char>, Order)>, key: Seq<char>, order: Order, once: bool)
    requires
        spec_unique_keys(entries),
    ensures
        !once ==> spec_unique_keys(spec_set_order(entries, key, order)),
        once ==> spec_unique_keys(spec_set_order_once(entries, key, order)),
{
    let pred = spec_other_key(key);
    let kept = entries.filter(pred);
    lemma_filter_subset(entries, pred);
    broadcast use vstd::seq_lib::group_seq_properties;

    assert forall|i: int, j: int| 0 <= i < j < kept.len() implies kept[i].0 != kept[j].0 by {
        lemma_filter_distinct(entries, pred, i, j);
    }
    let once_kept = kept.map_values(spec_reset_dir());
    assert(forall|i: int| 0 <= i < kept.len() ==> pred(#[trigger] kept[i]));
    if once {
        let out = spec_set_order_once(entries, key, order);
        assert forall|i: int, j: int| 0 <= i < j < out.len() implies out[i].0 != out[j].0 by {
            if i == 0 {
                assert(out[j] == once_kept[j - 1]);
                assert(once_kept[j - 1].0 == kept[j - 1].0);
                assert(pred(kept[j - 1]));
            } else {
                assert(out[i].0 == kept[i - 1].0 && out[j].0 == kept[j - 1].0);
            }
        }
    } else {
        let out = spec_set_order(entries, key, order);
        assert forall|i: int, j: int| 0 <= i < j < out.len() implies out[i].0 != out[j].0 by {
            if i == 0 {
                assert(out[j] == kept[j - 1]);
                assert(pred(kept[j - 1]));
            } else {
                assert(out[i] == kept[i - 1] && out[j] == kept[j - 1]);
            }
        }
    }
}

/// Filtering preserves key uniqueness.
pub proof fn lemma_filter_unique_keys(
    entries: Seq<(Seq<char>, Order)>,
    pred: spec_fn((Seq<char>, Order)) -> bool,
)
    requires
        spec_unique_keys(entries),
    ensures
        spec_unique_keys(entries.filter(pred)),
{
    assert forall|i: int, j: int| 0 <= i < j < entries.filter(pred).len() implies entries.filter(
        pred,
    )[i].0 != entries.filter(pred)[j].0 by {
        lemma_filter_distinct(entries, pred, i, j);
    }
}

/// Distinct positions of a filtered sequence hold entries with distinct keys,
/// provided the original keys are unique.
proof fn lemma_filter_distinct(
    entries: Seq<(Seq<char>, Order)>,
    pred: spec_fn((Seq<char>, Order)) -> bool,
    i: int,
    j: int,
)
    requires
        spec_unique_keys(entries),
        0 <= i < j < entries.filter(pred).len(),
    ensures
        entries.filter(pred)[i].0 != entries.filter(pred)[j].0,
    decreases entries.len(),
{
    reveal(Seq::filter);
    if entries.len() > 0 {
        let prefix = entries.drop_last();
        assert(spec_unique_keys(prefix));
        if pred(entries.last()) {
            assert(entries.filter(pred) == prefix.filter(pred).push(entries.last()));
            if j < prefix.filter(pred).len() {
                lemma_filter_distinct(prefix, pred, i, j);
            } else {
                // `j` is the appended last entry; `i` lies in the filtered
                // prefix, whose entries occur in the prefix.
                lemma_filter_subset(prefix, pred);
                assert(prefix.contains(prefix.filter(pred)[i]));
                let w = choose|w: int|
                    0 <= w < prefix.len() && prefix[w] == prefix.filter(pred)[i];
                assert(entries[w] == entries.filter(pred)[i]);
                assert(entries[entries.len() - 1] == entries.last());
                assert(entries[w].0 != entries.last().0);
            }
        } else {
            assert(entries.filter(pred) == prefix.filter(pred));
            lemma_filter_distinct(prefix, pred, i, j);
        }
    }
}


// ------------------------------------------------------------------
// Sorting rows.
//
// A column's ascending comparator is represented by a rank vector: one
// integer per row, where ascending order of the rows under that column is
// ascending order of the ranks. A descending pass applies the same ranks
// with the comparison sign reversed. Rows are compared by the passes in
// list order — the first pass is primary — and rows equal under every pass
// keep their original relative order.

/// One sorting pass: the rank of each row under one column, and whether the
/// comparison sign is reversed.
pub struct SortPass {
    pub ranks: Vec<u64>,
    pub desc: bool,
}

/// The views of a list of passes.
pub open spec fn passes_view(s: Seq<SortPass>) -> Seq<(Seq<u64>, bool)> {
    Seq::new(s.len(), |i: int| (s[i].ranks@, s[i].desc))
}

/// Whether row `a` sorts strictly before row `b` under the passes from
/// position `k` on: the first pass whose ranks differ decides, with the
/// sign reversed for a descending pass.
pub open spec fn spec_lex_lt_from(ps: Seq<(Seq<u64>, bool)>, k: int, a: int, b: int) -> bool
    decreases ps.len() - k,
{
    if k < 0 || k >= ps.len() {
        false
    } else {
        let ra = ps[k].0[a];
        let rb = ps[k].0[b];
        if ra == rb {
            spec_lex_lt_from(ps, k + 1, a, b)
        } else if ps[k].1 {
            ra > rb
        } else {
            ra < rb
        }
    }
}

/// Whether row `a` sorts strictly before row `b` under the passes.
pub open spec fn spec_lex_lt(ps: Seq<(Seq<u64>, bool)>, a: int, b: int) -> bool {
    spec_lex_lt_from(ps, 0, a, b)
}

/// Whether rows `a` and `b` are equal under every pass.
pub open spec fn spec_lex_eq(ps: Seq<(Seq<u64>, bool)>, a: int, b: int) -> bool {
    forall|k: int| 0 <= k < ps.len() ==> #[trigger] ps[k].0[a] == ps[k].0[b]
}

/// The total strict order that the sort realizes: pass order first, original
/// row order among rows equal under every pass.
pub open spec fn spec_before(ps: Seq<(Seq<u64>, bool)>, a: int, b: int) -> bool {
    spec_lex_lt(ps, a, b) || (spec_lex_eq(ps, a, b) && a < b)
}

/// When neither row sorts strictly before the other, they are equal under
/// every pass from `k` on — and conversely.
proof fn lemma_lex_not_lt(ps: Seq<(Seq<u64>, bool)>, k: int, a: int, b: int)
    requires
        0 <= k,
    ensures
        (!spec_lex_lt_from(ps, k, a, b) && !spec_lex_lt_from(ps, k, b, a)) <==> (forall|j: int|
            k <= j < ps.len() ==> #[trigger] ps[j].0[a] == ps[j].0[b]),
    decreases ps.len() - k,
{
    if 0 <= k && k < ps.len() {
        lemma_lex_not_lt(ps, k + 1, a, b);
    }
}

/// Rows equal under every pass sort alike against any third row.
proof fn lemma_lex_eq_compat(ps: Seq<(Seq<u64>, bool)>, k: int, a: int, b: int, c: int)
    requires
        forall|j: int| 0 <= j < ps.len() ==> #[trigger] ps[j].0[a] == ps[j].0[b],
    ensures
        spec_lex_lt_from(ps, k, a, c) == spec_lex_lt_from(ps, k, b, c),
        spec_lex_lt_from(ps, k, c, a) == spec_lex_lt_from(ps, k, c, b),
    decreases ps.len() - k,
{
    if 0 <= k && k < ps.len() {
        lemma_lex_eq_compat(ps, k + 1, a, b, c);
    }
}

/// The strict pass order is transitive.
proof fn lemma_lex_lt_trans(ps: Seq<(Seq<u64>, bool)>, k: int, a: int, b: int, c: int)
    requires
        spec_lex_lt_from(ps, k, a, b),
        spec_lex_lt_from(ps, k, b, c),
    ensures
        spec_lex_lt_from(ps, k, a, c),
    decreases ps.len() - k,
{
    if 0 <= k && k < ps.len() {
        let ra = ps[k].0[a];
        let rb = ps[k].0[b];
        let rc = ps[k].0[c];
        if ra == rb && rb == rc {
            lemma_lex_lt_trans(ps, k + 1, a, b, c);
        }
    }
}

/// A row never sorts strictly before itself.
proof fn lemma_lex_lt_irrefl(ps: Seq<(Seq<u64>, bool)>, k: int, a: int)
    ensures
        !spec_lex_lt_from(ps, k, a, a),
    decreases ps.len() - k,
{
    if 0 <= k && k < ps.len() {
        lemma_lex_lt_irrefl(ps, k + 1, a);
    }
}

/// `spec_before` is a strict total order on distinct row indices.
pub proof fn lemma_before_total(ps: Seq<(Seq<u64>, bool)>, a: int, b: int)
    requires
        a != b,
    ensures
        spec_before(ps, a, b) || spec_before(ps, b, a),
        !(spec_before(ps, a, b) && spec_before(ps, b, a)),
{
    lemma_lex_not_lt(ps, 0, a, b);
    lemma_lex_not_lt(ps, 0, b, a);
    if !spec_lex_lt(ps, a, b) && !spec_lex_lt(ps, b, a) {
        assert(spec_lex_eq(ps, a, b));
        assert(spec_lex_eq(ps, b, a));
    }
    if spec_lex_lt(ps, a, b) && spec_lex_lt(ps, b, a) {
        lemma_lex_lt_trans(ps, 0, a, b, a);
        lemma_lex_lt_irrefl(ps, 0, a);
    }
    if spec_lex_lt(ps, a, b) && spec_lex_eq(ps, b, a) {
        lemma_lex_eq_compat(ps, 0, b, a, a);
        lemma_lex_lt_irrefl(ps, 0, a);
    }
    if spec_lex_lt(ps, b, a) && spec_lex_eq(ps, a, b) {
        lemma_lex_eq_compat(ps, 0, a, b, b);
        lemma_lex_lt_irrefl(ps, 0, b);
    }
}

/// `spec_before` is transitive.
pub proof fn lemma_before_trans(ps: Seq<(Seq<u64>, bool)>, a: int, b: int, c: int)
    requires
        spec_before(ps, a, b),
        spec_before(ps, b, c),
    ensures
        spec_before(ps, a, c),
{
    if spec_lex_lt(ps, a, b) {
        if spec_lex_lt(ps, b, c) {
            lemma_lex_lt_trans(ps, 0, a, b, c);
        } else {
            assert(spec_lex_eq(ps, b, c));
            lemma_lex_eq_compat(ps, 0, b, c, a);
        }
    } else {
        assert(spec_lex_eq(ps, a, b));
        if spec_lex_lt(ps, b, c) {
            lemma_lex_eq_compat(ps, 0, a, b, c);
        } else {
            assert(spec_lex_eq(ps, b, c));
        }
    }
}

/// Decides `spec_before` for two row indices.
fn exec_before(passes: &Vec<SortPass>, a: usize, b: usize) -> (r: bool)
    requires
        forall|i: int|
            0 <= i < passes@.len() ==> a < #[trigger] passes@[i].ranks@.len() && b
                < passes@[i].ranks@.len(),
    ensures
        r == spec_before(passes_view(passes@), a as int, b as int),
{
    let ghost ps = passes_view(passes@);
    let mut k: usize = 0;
    while k < passes.len()
        invariant
            0 <= k <= passes.len(),
            ps == passes_view(passes@),
            forall|i: int|
                0 <= i < passes@.len() ==> a < #[trigger] passes@[i].ranks@.len() && b
                    < passes@[i].ranks@.len(),
            forall|j: int| 0 <= j < k ==> #[trigger] ps[j].0[a as int] == ps[j].0[b as int],
            spec_lex_lt_from(ps, 0, a as int, b as int) == spec_lex_lt_from(
                ps,
                k as int,
                a as int,
                b as int,
            ),
            spec_lex_lt_from(ps, 0, b as int, a as int) == spec_lex_lt_from(
                ps,
                k as int,
                b as int,
                a as int,
            ),
        decreases passes.len() - k,
    {
        let ra = passes[k].ranks[a];
        let rb = passes[k].ranks[b];
        proof {
            assert(ps[k as int].0[a as int] == ra);
            assert(ps[k as int].0[b as int] == rb);
        }
        if ra != rb {
            let lt = if passes[k].desc {
                ra > rb
            } else {
                ra < rb
            };
            proof {
                assert(spec_lex_lt_from(ps, k as int, a as int, b as int) == lt);
            }
            return lt;
        }
        k = k + 1;
    }
    proof {
        assert(!spec_lex_lt_from(ps, passes@.len() as int, a as int, b as int));
        assert(!spec_lex_lt_from(ps, passes@.len() as int, b as int, a as int));
        assert(spec_lex_eq(ps, a as int, b as int));
    }
    a < b
}

/// Sorts the row indices `0 .. n` by the passes: the result lists each row
/// index below `n` exactly once, ordered by the first pass, ties decided by
/// the following passes, and rows equal under every pass kept in their
/// original relative order. This characterization determines the
/// permutation uniquely.
pub fn sort_indices(n: usize, passes: &Vec<SortPass>) -> (r: Vec<usize>)
    requires
        forall|i: int| 0 <= i < passes@.len() ==> #[trigger] passes@[i].ranks@.len() == n,
    ensures
        r@.len() == n,
        forall|i: int| 0 <= i < n ==> #[trigger] r@[i] < n,
        forall|i: int, j: int| 0 <= i < j < n ==> r@[i] != r@[j],
        forall|i: int, j: int|
            0 <= i < j < n ==> spec_before(passes_view(passes@), #[trigger] r@[i] as int, #[trigger] r@[j] as int),
{
    let ghost ps = passes_view(passes@);
    let mut perm: Vec<usize> = Vec::new();
    let mut v: usize = 0;
    while v < n
        invariant
            0 <= v <= n,
            perm@.len() == v,
            forall|i: int| 0 <= i < v ==> #[trigger] perm@[i] == i,
        decreases n - v,
    {
        perm.push(v);
        v = v + 1;
    }
    let mut i: usize = 1;
    while i < n
        invariant
            perm@.len() == n,
            1 <= i <= n || n <= 1,
            ps == passes_view(passes@),
            forall|w: int| 0 <= w < passes@.len() ==> #[trigger] passes@[w].ranks@.len() == n,
            forall|w: int| 0 <= w < n ==> #[trigger] perm@[w] < n,
            forall|w: int, x: int| 0 <= w < x < n ==> perm@[w] != perm@[x],
            forall|w: int, x: int|
                0 <= w < x < i ==> spec_before(ps, #[trigger] perm@[w] as int, #[trigger] perm@[x] as int),
        decreases n - i,
    {
        let mut j: usize = i;
        while j > 0
            invariant
                0 <= j <= i < n,
                perm@.len() == n,
                ps == passes_view(passes@),
                forall|w: int| 0 <= w < passes@.len() ==> #[trigger] passes@[w].ranks@.len() == n,
                forall|w: int| 0 <= w < n ==> #[trigger] perm@[w] < n,
                forall|w: int, x: int| 0 <= w < x < n ==> perm@[w] != perm@[x],
                forall|w: int, x: int|
                    0 <= w < x <= i && w != j && x != j ==> spec_before(
                        ps,
                        #[trigger] perm@[w] as int,
                        #[trigger] perm@[x] as int,
                    ),
                forall|x: int|
                    j < x <= i ==> spec_before(ps, perm@[j as int] as int, #[trigger] perm@[x] as int),
            ensures
                0 <= j <= i < n,
                perm@.len() == n,
                forall|w: int| 0 <= w < n ==> #[trigger] perm@[w] < n,
                forall|w: int, x: int| 0 <= w < x < n ==> perm@[w] != perm@[x],
                forall|w: int, x: int|
                    0 <= w < x <= i && w != j && x != j ==> spec_before(
                        ps,
                        #[trigger] perm@[w] as int,
                        #[trigger] perm@[x] as int,
                    ),
                forall|x: int|
                    j < x <= i ==> spec_before(ps, perm@[j as int] as int, #[trigger] perm@[x] as int),
                j == 0 || !spec_before(ps, perm@[j as int] as int, perm@[j - 1] as int),
            decreases j,
        {
            if !exec_before(passes, perm[j], perm[j - 1]) {
                break;
            }
            let moving = perm[j];
            let other = perm[j - 1];
            perm[j] = other;
            perm[j - 1] = moving;
            proof {
                let p = perm@;
                assert(p[j - 1] == moving && p[j as int] == other);
                assert forall|w: int, x: int|
                    0 <= w < x <= i && w != j - 1 && x != j - 1 implies spec_before(
                    ps,
                    #[trigger] p[w] as int,
                    #[trigger] p[x] as int,
                ) by {
                    if w == j {
                        // position j now holds the displaced neighbour
                        if x > j {
                            assert(spec_before(ps, other as int, p[x] as int));
                        }
                    } else if x == j {
                        assert(spec_before(ps, p[w] as int, other as int));
                    } else {
                        assert(spec_before(ps, p[w] as int, p[x] as int));
                    }
                }
            }
            j = j - 1;
        }
        proof {
            let p = perm@;
            if j > 0 {
                assert(!spec_before(ps, p[j as int] as int, p[j - 1] as int));
                assert(p[j - 1] != p[j as int]);
                lemma_before_total(ps, p[j - 1] as int, p[j as int] as int);
                assert(spec_before(ps, p[j - 1] as int, p[j as int] as int));
            }
            assert forall|w: int, x: int| 0 <= w < x <= i implies spec_before(
                ps,
                #[trigger] p[w] as int,
                #[trigger] p[x] as int,
            ) by {
                if w == j && x > j {
                    assert(spec_before(ps, p[w] as int, p[x] as int));
                } else if x == j {
                    // w < j: w <= j - 2 goes through the sorted neighbours
                    if w == j - 1 {
                        assert(spec_before(ps, p[w] as int, p[x] as int));
                    } else {
                        assert(spec_before(ps, p[w] as int, p[j - 1] as int));
                        assert(spec_before(ps, p[j - 1] as int, p[j as int] as int));
                        lemma_before_trans(ps, p[w] as int, p[j - 1] as int, p[j as int] as int);
                    }
                } else {
                    assert(spec_before(ps, p[w] as int, p[x] as int));
                }
            }
        }
        i = i + 1;
    }
    perm
}



// ------------------------------------------------------------------
// From the sort state to the passes, and applying the permutation.

/// Rank vector recorded for `key` in a comparator table, searched from
/// position `k` on: the first entry for that key, if any.
pub open spec fn spec_ranks_of_from(
    comps: Seq<(Seq<char>, Seq<u64>)>,
    key: Seq<char>,
    k: int,
) -> Option<Seq<u64>>
    decreases comps.len() - k,
{
    if k < 0 || k >= comps.len() {
        None
    } else if comps[k].0 == key {
        Some(comps[k].1)
    } else {
        spec_ranks_of_from(comps, key, k + 1)
    }
}

/// The views of a comparator table.
pub open spec fn comps_view(s: Seq<(String, Vec<u64>)>) -> Seq<(Seq<char>, Seq<u64>)> {
    Seq::new(s.len(), |i: int| (s[i].0@, s[i].1@))
}

/// The passes that a sort state and a comparator table give rise to, taken
/// from position `k` of the state on: one pass per active entry — direction
/// not `NoSort` — whose key has a rank vector of length `n` in the table;
/// the others are skipped.
pub open spec fn spec_active_passes(
    entries: Seq<(Seq<char>, Order)>,
    comps: Seq<(Seq<char>, Seq<u64>)>,
    n: nat,
    k: int,
) -> Seq<(Seq<u64>, bool)>
    decreases entries.len() - k,
{
    if k < 0 || k >= entries.len() {
        Seq::empty()
    } else {
        let rest = spec_active_passes(entries, comps, n, k + 1);
        if entries[k].1 == Order::NoSort {
            rest
        } else {
            match spec_ranks_of_from(comps, entries[k].0, 0) {
                Some(ranks) => if ranks.len() == n {
                    seq![(ranks, entries[k].1 == Order::Desc)] + rest
                } else {
                    rest
                },
                None => rest,
            }
        }
    }
}

/// Copies a rank vector.
fn clone_ranks(ranks: &Vec<u64>) -> (r: Vec<u64>)
    ensures
        r@ == ranks@,
{
    let mut out: Vec<u64> = Vec::new();
    let mut i: usize = 0;
    while i < ranks.len()
        invariant
            0 <= i <= ranks.len(),
            out@ =~= ranks@.take(i as int),
        decreases ranks.len() - i,
    {
        out.push(ranks[i]);
        proof {
            assert(out@ =~= ranks@.take(i + 1int));
        }
        i = i + 1;
    }
    proof {
        assert(ranks@.take(ranks@.len() as int) =~= ranks@);
    }
    out
}

/// Rank vector recorded for `key` in the comparator table, if any.
fn ranks_of<'a>(comparators: &'a Vec<(String, Vec<u64>)>, key: &String) -> (r: Option<&'a Vec<u64>>)
    ensures
        match r {
            Some(v) => spec_ranks_of_from(comps_view(comparators@), key@, 0) == Some(v@),
            None => spec_ranks_of_from(comps_view(comparators@), key@, 0) is None,
        },
{
    let ghost comps = comps_view(comparators@);
    let mut i: usize = 0;
    while i < comparators.len()
        invariant
            0 <= i <= comparators.len(),
            comps == comps_view(comparators@),
            spec_ranks_of_from(comps, key@, 0) == spec_ranks_of_from(comps, key@, i as int),
        decreases comparators.len() - i,
    {
        if comparators[i].0.eq(key) {
            assert(comps[i as int].0 == key@);
            return Some(&comparators[i].1);
        }
        assert(comps[i as int].0 != key@);
        i = i + 1;
    }
    None
}

/// Builds the passes for a sort state over a comparator table: one pass per
/// active entry whose key has a rank vector of length `n`, in the state's
/// order.
pub fn build_passes(
    state: &SortState,
    comparators: &Vec<(String, Vec<u64>)>,
    n: usize,
) -> (r: Vec<SortPass>)
    ensures
        passes_view(r@) == spec_active_passes(
            state.view_entries(),
            comps_view(comparators@),
            n as nat,
            0,
        ),
        forall|i: int| 0 <= i < r@.len() ==> #[trigger] r@[i].ranks@.len() == n,
{
    let ghost entries = state.view_entries();
    let ghost comps = comps_view(comparators@);
    let mut out: Vec<SortPass> = Vec::new();
    let mut i: usize = state.order_entries.len();
    proof {
        assert(spec_active_passes(entries, comps, n as nat, i as int) =~= Seq::<(
            Seq<u64>,
            bool,
        )>::empty());
        assert(passes_view(out@) =~= Seq::<(Seq<u64>, bool)>::empty());
    }
    while i > 0
        invariant
            0 <= i <= state.order_entries.len(),
            entries == state.view_entries(),
            comps == comps_view(comparators@),
            passes_view(out@) == spec_active_passes(entries, comps, n as nat, i as int),
            forall|w: int| 0 <= w < out@.len() ==> #[trigger] out@[w].ranks@.len() == n,
        decreases i,
    {
        i = i - 1;
        let direction = state.order_entries[i].1;
        if !matches!(direction, Order::NoSort) {
            match ranks_of(comparators, &state.order_entries[i].0) {
                Some(ranks) => {
                    if ranks.len() == n {
                        let pass = SortPass {
                            ranks: clone_ranks(ranks),
                            desc: matches!(direction, Order::Desc),
                        };
                        out.insert(0, pass);
                        proof {
                            assert(entries[i as int].0 == state.order_entries@[i as int].0@);
                            assert(passes_view(out@) =~= seq![
                                (ranks@, direction == Order::Desc),
                            ] + spec_active_passes(entries, comps, n as nat, i + 1int));
                        }
                    } else {
                        proof {
                            assert(passes_view(out@) == spec_active_passes(
                                entries,
                                comps,
                                n as nat,
                                i + 1int,
                            ));
                        }
                    }
                },
                None => {
                    proof {
                        assert(passes_view(out@) == spec_active_passes(
                            entries,
                            comps,
                            n as nat,
                            i + 1int,
                        ));
                    }
                },
            }
        }
    }
    out
}

/// Sorts the row indices `0 .. n` under a sort state and comparator table:
/// the permutation of `sort_indices` for the state's active passes.
pub fn sort(state: &SortState, comparators: &Vec<(String, Vec<u64>)>, n: usize) -> (r: Vec<usize>)
    ensures
        r@.len() == n,
        forall|i: int| 0 <= i < n ==> #[trigger] r@[i] < n,
        forall|i: int, j: int| 0 <= i < j < n ==> r@[i] != r@[j],
        forall|i: int, j: int|
            0 <= i < j < n ==> spec_before(
                spec_active_passes(state.view_entries(), comps_view(comparators@), n as nat, 0),
                #[trigger] r@[i] as int,
                #[trigger] r@[j] as int,
            ),
{
    let passes = build_passes(state, comparators, n);
    sort_indices(n, &passes)
}

/// Reorders `data` by a permutation of its indices: element `i` of the
/// result is the element of `data` at `perm[i]`. The input is not changed.
pub fn get_sorted_by_indices<T: Clone>(data: &Vec<T>, perm: &Vec<usize>) -> (r: Vec<T>)
    requires
        forall|i: int| 0 <= i < perm@.len() ==> #[trigger] perm@[i] < data@.len(),
    ensures
        r@.len() == perm@.len(),
        forall|i: int|
            0 <= i < perm@.len() ==> vstd::pervasive::cloned::<T>(
                data@[#[trigger] perm@[i] as int],
                r@[i],
            ),
{
    let mut out: Vec<T> = Vec::new();
    let mut i: usize = 0;
    while i < perm.len()
        invariant
            0 <= i <= perm.len(),
            out@.len() == i,
            forall|w: int| 0 <= w < perm@.len() ==> #[trigger] perm@[w] < data@.len(),
            forall|w: int|
                0 <= w < i ==> vstd::pervasive::cloned::<T>(
                    data@[#[trigger] perm@[w] as int],
                    out@[w],
                ),
        decreases perm.len() - i,
    {
        out.push(data[perm[i]].clone());
        i = i + 1;
    }
    out
}

// ------------------------------------------------------------------
// Laws of the sort engine.

/// The sort is stable: rows that the active passes cannot tell apart keep
/// their original relative order. `perm` is any permutation meeting the
/// order that `sort_indices` ensures; rows `perm[i]` and `perm[j]` equal
/// under every pass appear in ascending row order.
pub proof fn lemma_sort_stable(ps: Seq<(Seq<u64>, bool)>, perm: Seq<usize>, i: int, j: int)
    requires
        forall|w: int, x: int|
            0 <= w < x < perm.len() ==> spec_before(
                ps,
                #[trigger] perm[w] as int,
                #[trigger] perm[x] as int,
            ),
        0 <= i < j < perm.len(),
        spec_lex_eq(ps, perm[i] as int, perm[j] as int),
    ensures
        perm[i] < perm[j],
{
    assert(spec_before(ps, perm[i] as int, perm[j] as int));
    if spec_lex_lt(ps, perm[i] as int, perm[j] as int) {
        lemma_lex_eq_compat(ps, 0, perm[i] as int, perm[j] as int, perm[j] as int);
        lemma_lex_lt_irrefl(ps, 0, perm[j] as int);
    }
}

/// `set_order_once` leaves exactly one active column. The resulting list
/// starts with `(key, order)` and every other entry's direction is
/// `NoSort`; in particular, when `order` is active the active entries are
/// exactly `[(key, order)]`.
pub proof fn lemma_set_order_once_single(
    entries: Seq<(Seq<char>, Order)>,
    key: Seq<char>,
    order: Order,
)
    ensures
        spec_set_order_once(entries, key, order)[0] == (key, order),
        forall|i: int|
            1 <= i < spec_set_order_once(entries, key, order).len()
                ==> #[trigger] spec_set_order_once(entries, key, order)[i].1 == Order::NoSort,
        order != Order::NoSort ==> spec_set_order_once(entries, key, order).filter(
            |e: (Seq<char>, Order)| e.1 != Order::NoSort,
        ) =~= seq![(key, order)],
{
    let out = spec_set_order_once(entries, key, order);
    let tail = entries.filter(spec_other_key(key)).map_values(spec_reset_dir());
    assert(out =~= seq![(key, order)] + tail);
    assert forall|i: int| 1 <= i < out.len() implies #[trigger] out[i].1 == Order::NoSort by {
        assert(out[i] == tail[i - 1]);
        assert(tail[i - 1].1 == Order::NoSort);
    }
    if order != Order::NoSort {
        let active = |e: (Seq<char>, Order)| e.1 != Order::NoSort;
        lemma_all_inactive_filtered(tail, active);
        Seq::filter_distributes_over_add(seq![(key, order)], tail, active);
        reveal_with_fuel(Seq::filter, 2);
        assert(seq![(key, order)].drop_last() =~= Seq::<(Seq<char>, Order)>::empty());
        assert(seq![(key, order)].filter(active) =~= seq![(key, order)]);
        assert(out.filter(active) =~= seq![(key, order)]);
    }
}

/// A sequence with no active entry filters to nothing.
proof fn lemma_all_inactive_filtered(
    s: Seq<(Seq<char>, Order)>,
    active: spec_fn((Seq<char>, Order)) -> bool,
)
    requires
        forall|i: int| 0 <= i < s.len() ==> !active(#[trigger] s[i]),
    ensures
        s.filter(active) =~= Seq::<(Seq<char>, Order)>::empty(),
    decreases s.len(),
{
    reveal(Seq::filter);
    if s.len() > 0 {
        lemma_all_inactive_filtered(s.drop_last(), active);
    }
}

/// After an upsert, the key's recorded direction is the one upserted.
pub proof fn lemma_order_of_after_set(
    entries: Seq<(Seq<char>, Order)>,
    key: Seq<char>,
    order: Order,
)
    ensures
        spec_order_of(spec_set_order(entries, key, order), key) == order,
{
    let out = spec_set_order(entries, key, order);
    assert(out[0] == (key, order));
}

/// Shifting a column's direction three times returns it to where it began:
/// the cycle `none -> asc -> desc -> none` has period three, whatever else
/// the three upserts do to the list.
pub proof fn lemma_shift_order_cycles(entries: Seq<(Seq<char>, Order)>, key: Seq<char>)
    ensures
        ({
            let s1 = spec_set_order(entries, key, spec_order_of(entries, key).spec_next());
            let s2 = spec_set_order(s1, key, spec_order_of(s1, key).spec_next());
            let s3 = spec_set_order(s2, key, spec_order_of(s2, key).spec_next());
            spec_order_of(s3, key) == spec_order_of(entries, key)
        }),
{
    let o = spec_order_of(entries, key);
    let s1 = spec_set_order(entries, key, o.spec_next());
    lemma_order_of_after_set(entries, key, o.spec_next());
    let s2 = spec_set_order(s1, key, spec_order_of(s1, key).spec_next());
    lemma_order_of_after_set(s1, key, spec_order_of(s1, key).spec_next());
    let s3 = spec_set_order(s2, key, spec_order_of(s2, key).spec_next());
    lemma_order_of_after_set(s2, key, spec_order_of(s2, key).spec_next());
    crate::order::lemma_order_cycle(o);
}

} // verus!
