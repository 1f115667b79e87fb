//! Selection engine: an ordered list of record IDs, most recently selected
//! first, governed by three policies. `select_many` caps the selection at
//! one ID; `changeable` makes every setter a no-op when false; `cancelable`
//! forbids deselecting an already selected ID when false.

use vstd::prelude::*;

verus! {

/// The views of the IDs in a list, in order.
pub open spec fn ids_view(ids: Seq<String>) -> Seq<Seq<char>> {
    Seq::new(ids.len(), |i: int| ids[i]@)
}

/// Whether `id` occurs in `ids`.
pub open spec fn spec_id_in(ids: Seq<Seq<char>>, id: Seq<char>) -> bool {
    exists|i: int| 0 <= i < ids.len() && ids[i] == id
}

/// Caps a proposed selection at its first element when `select_many` is off.
pub open spec fn spec_capped(select_many: bool, ids: Seq<Seq<char>>) -> Seq<Seq<char>> {
    if select_many || ids.len() <= 1 {
        ids
    } else {
        ids.take(1)
    }
}

/// Outcome of a selection setter: whether a change hook vetoed the change.
pub struct SelectResult {
    pub default_prevented: bool,
}

/// Selection state and policies.
pub struct SelectionState {
    /// Selected IDs, most recently selected first.
    pub ids: Vec<String>,
    /// Selection restored by `init`.
    pub init_ids: Vec<String>,
    /// Whether more than one ID may be selected at a time.
    pub select_many: bool,
    /// Whether setters may change the selection at all.
    pub changeable: bool,
    /// Whether an already selected ID may be deselected.
    pub cancelable: bool,
}

impl SelectionState {
    pub open spec fn view_ids(self) -> Seq<Seq<char>> {
        ids_view(self.ids@)
    }

    /// At most one ID is selected while `select_many` is off.
    pub open spec fn wf(self) -> bool {
        !self.select_many ==> self.ids@.len() <= 1
    }

    /// What a proposal becomes once the policies are applied: nothing moves
    /// while `changeable` is off, and the proposal is capped at one ID while
    /// `select_many` is off.
    pub open spec fn spec_next_ids(self, proposed: Seq<Seq<char>>) -> Seq<Seq<char>> {
        if !self.changeable {
            self.view_ids()
        } else {
            spec_capped(self.select_many, proposed)
        }
    }

    /// What toggling `id` to `next_selected` leaves selected: no move when
    /// the membership already matches, none when deselection is asked for but
    /// `cancelable` is off; otherwise the ID enters at the front or every
    /// occurrence of it leaves, and the policies apply.
    pub open spec fn spec_toggled_ids(self, id: Seq<char>, next_selected: bool) -> Seq<Seq<char>> {
        let prev = spec_id_in(self.view_ids(), id);
        if prev == next_selected {
            self.view_ids()
        } else if !self.cancelable && prev {
            self.view_ids()
        } else if next_selected {
            self.spec_next_ids(seq![id] + self.view_ids())
        } else {
            self.spec_next_ids(self.view_ids().filter(|x: Seq<char>| x != id))
        }
    }

    /// Builds a selection; the initial IDs are capped by the `select_many`
    /// policy so that the state starts well formed.
    pub fn new(
        init_ids: Vec<String>,
        select_many: bool,
        changeable: bool,
        cancelable: bool,
    ) -> (r: SelectionState)
        ensures
            r.view_ids() == spec_capped(select_many, ids_view(init_ids@)),
            ids_view(r.init_ids@) == spec_capped(select_many, ids_view(init_ids@)),
            r.select_many == select_many,
            r.changeable == changeable,
            r.cancelable == cancelable,
            r.wf(),
    {
        let capped = cap_ids(select_many, init_ids);
        let init_copy = clone_ids(&capped);
        proof {
            assert(ids_view(init_copy@) =~= ids_view(capped@));
            assert(ids_view(capped@).len() == capped@.len());
            if !select_many {
                assert(spec_capped(select_many, ids_view(init_ids@)).len() <= 1);
            }
        }
        SelectionState { ids: capped, init_ids: init_copy, select_many, changeable, cancelable }
    }

    /// Whether `id` is currently selected.
    pub fn is_selected(&self, id: &String) -> (r: bool)
        ensures
            r == spec_id_in(self.view_ids(), id@),
    {
        ids_contain(&self.ids, id)
    }

    /// The selection that `set_ids` on this proposal would commit.
    pub fn preview_next_ids(&self, proposed: &Vec<String>) -> (r: Vec<String>)
        ensures
            ids_view(r@) == self.spec_next_ids(ids_view(proposed@)),
    {
        if !self.changeable {
            let r = clone_ids(&self.ids);
            proof {
                assert(ids_view(r@) =~= self.view_ids());
            }
            r
        } else {
            let copied = clone_ids(proposed);
            proof {
                assert(ids_view(copied@) =~= ids_view(proposed@));
            }
            cap_ids(self.select_many, copied)
        }
    }

    /// Replaces the selection by a proposal, under the policies.
    pub fn set_ids(&mut self, proposed: Vec<String>) -> (r: SelectResult)
        requires
            old(self).wf(),
        ensures
            final (self).view_ids() == old(self).spec_next_ids(ids_view(proposed@)),
            final (self).init_ids == old(self).init_ids,
            final (self).select_many == old(self).select_many,
            final (self).changeable == old(self).changeable,
            final (self).cancelable == old(self).cancelable,
            r.default_prevented == false,
            final (self).wf(),
    {
        self.set_ids_checked(proposed, false)
    }

    /// Replaces the selection by a proposal, where `prevented` is the answer
    /// of the caller's change hook: a vetoed change commits nothing. The hook
    /// is only consulted — so a veto only counts — when the call would change
    /// the selection.
    pub fn set_ids_checked(&mut self, proposed: Vec<String>, prevented: bool) -> (r: SelectResult)
        requires
            old(self).wf(),
        ensures
            ({
                let target = old(self).spec_next_ids(ids_view(proposed@));
                let would_change = old(self).changeable && target != old(self).view_ids();
                &&& r.default_prevented == (would_change && prevented)
                &&& final (self).view_ids() == if r.default_prevented {
                    old(self).view_ids()
                } else {
                    target
                }
            }),
            final (self).init_ids == old(self).init_ids,
            final (self).select_many == old(self).select_many,
            final (self).changeable == old(self).changeable,
            final (self).cancelable == old(self).cancelable,
            final (self).wf(),
    {
        let target = self.preview_next_ids(&proposed);
        let changed = self.changeable && !ids_equal(&target, &self.ids);
        let vetoed = changed && prevented;
        if !vetoed {
            proof {
                if !self.select_many {
                    assert(self.spec_next_ids(ids_view(proposed@)).len() <= 1);
                    assert(ids_view(target@).len() == target@.len());
                }
            }
            self.ids = target;
        }
        SelectResult { default_prevented: vetoed }
    }

    /// Toggles membership of one ID, under the policies; a newly selected ID
    /// enters at the front.
    pub fn set_by_id(&mut self, id: &String, next_selected: bool) -> (r: SelectResult)
        requires
            old(self).wf(),
        ensures
            final (self).view_ids() == old(self).spec_toggled_ids(id@, next_selected),
            final (self).init_ids == old(self).init_ids,
            final (self).select_many == old(self).select_many,
            final (self).changeable == old(self).changeable,
            final (self).cancelable == old(self).cancelable,
            r.default_prevented == false,
            final (self).wf(),
    {
        let prev = ids_contain(&self.ids, id);
        if prev == next_selected {
            return SelectResult { default_prevented: false };
        }
        if !self.cancelable && prev {
            return SelectResult { default_prevented: false };
        }
        if next_selected {
            let mut next = clone_ids(&self.ids);
            next.insert(0, id.clone());
            proof {
                assert(ids_view(next@) =~= seq![id@] + self.view_ids());
            }
            self.set_ids(next)
        } else {
            let next = remove_id(&self.ids, id);
            self.set_ids(next)
        }
    }

    /// Toggles membership of one ID directly. The `cancelable` policy still
    /// holds, but no change hook is consulted: this is the deliberately
    /// lower-ceremony path.
    pub fn toggle_by_id(&mut self, id: &String)
        requires
            old(self).wf(),
        ensures
            final (self).view_ids() == old(self).spec_toggled_ids(
                id@,
                !spec_id_in(old(self).view_ids(), id@),
            ),
            final (self).init_ids == old(self).init_ids,
            final (self).select_many == old(self).select_many,
            final (self).changeable == old(self).changeable,
            final (self).cancelable == old(self).cancelable,
            final (self).wf(),
    {
        let prev = ids_contain(&self.ids, id);
        let _ = self.set_by_id(id, !prev);
    }

    /// Clears the selection, under the policies.
    pub fn unset_all(&mut self)
        requires
            old(self).wf(),
        ensures
            final (self).view_ids() == old(self).spec_next_ids(Seq::<Seq<char>>::empty()),
            final (self).init_ids == old(self).init_ids,
            final (self).select_many == old(self).select_many,
            final (self).changeable == old(self).changeable,
            final (self).cancelable == old(self).cancelable,
            final (self).wf(),
    {
        let empty: Vec<String> = Vec::new();
        proof {
            assert(ids_view(empty@) =~= Seq::<Seq<char>>::empty());
        }
        let _ = self.set_ids(empty);
    }

    /// Restores the initial selection, regardless of the policies.
    pub fn init(&mut self)
        ensures
            final (self).view_ids() == ids_view(old(self).init_ids@),
            final (self).init_ids == old(self).init_ids,
            final (self).select_many == old(self).select_many,
            final (self).changeable == old(self).changeable,
            final (self).cancelable == old(self).cancelable,
    {
        let next = clone_ids(&self.init_ids);
        proof {
            assert(ids_view(next@) =~= ids_view(self.init_ids@));
        }
        self.ids = next;
    }
}

/// Clones a list of IDs element by element; the clones equal the originals.
pub fn clone_ids(ids: &Vec<String>) -> (r: Vec<String>)
    ensures
        r@ =~= ids@,
{
    let mut out: Vec<String> = Vec::new();
    let mut i: usize = 0;
    while i < ids.len()
        invariant
            0 <= i <= ids.len(),
            out@ =~= ids@.take(i as int),
        decreases ids.len() - i,
    {
        out.push(ids[i].clone());
        proof {
            assert(out@ =~= ids@.take(i + 1int));
        }
        i = i + 1;
    }
    proof {
        assert(ids@.take(ids@.len() as int) =~= ids@);
    }
    out
}

/// Whether `id` occurs in `ids`.
pub fn ids_contain(ids: &Vec<String>, id: &String) -> (r: bool)
    ensures
        r == spec_id_in(ids_view(ids@), id@),
{
    let mut i: usize = 0;
    while i < ids.len()
        invariant
            0 <= i <= ids.len(),
            forall|j: int| 0 <= j < i ==> ids_view(ids@)[j] != id@,
        decreases ids.len() - i,
    {
        if ids[i].eq(id) {
            assert(ids_view(ids@)[i as int] == id@);
            return true;
        }
        i = i + 1;
    }
    false
}

/// First index at which `id` occurs in `ids`, if it occurs at all.
pub fn index_of_id(ids: &Vec<String>, id: &String) -> (r: Option<usize>)
    ensures
        match r {
            Some(i) => i < ids@.len() && ids_view(ids@)[i as int] == id@ && (forall|j: int|
                0 <= j < i ==> ids_view(ids@)[j] != id@),
            None => !spec_id_in(ids_view(ids@), id@),
        },
{
    let mut i: usize = 0;
    while i < ids.len()
        invariant
            0 <= i <= ids.len(),
            forall|j: int| 0 <= j < i ==> ids_view(ids@)[j] != id@,
        decreases ids.len() - i,
    {
        if ids[i].eq(id) {
            assert(ids_view(ids@)[i as int] == id@);
            return Some(i);
        }
        i = i + 1;
    }
    None
}

/// Caps a list at its first element when `select_many` is off.
pub fn cap_ids(select_many: bool, ids: Vec<String>) -> (r: Vec<String>)
    ensures
        ids_view(r@) == spec_capped(select_many, ids_view(ids@)),
{
    if select_many || ids.len() <= 1 {
        ids
    } else {
        let mut out: Vec<String> = Vec::new();
        out.push(ids[0].clone());
        proof {
            assert(ids_view(out@) =~= ids_view(ids@).take(1));
        }
        out
    }
}

/// Removes every occurrence of `id` from `ids`.
pub fn remove_id(ids: &Vec<String>, id: &String) -> (r: Vec<String>)
    ensures
        ids_view(r@) == ids_view(ids@).filter(|x: Seq<char>| x != id@),
{
    let ghost pred = |x: Seq<char>| x != id@;
    let ghost full = ids_view(ids@);
    let mut out: Vec<String> = Vec::new();
    let mut i: usize = 0;
    proof {
        reveal_with_fuel(Seq::filter, 1);
        assert(full.take(0).filter(pred) =~= Seq::<Seq<char>>::empty());
        assert(ids_view(out@) =~= full.take(0).filter(pred));
    }
    while i < ids.len()
        invariant
            0 <= i <= ids.len(),
            full == ids_view(ids@),
            pred == (|x: Seq<char>| x != id@),
            ids_view(out@) == full.take(i as int).filter(pred),
        decreases ids.len() - i,
    {
        let keep = !ids[i].eq(id);
        proof {
            reveal_with_fuel(Seq::filter, 2);
            let pre = full.take(i + 1int);
            assert(pre.drop_last() =~= full.take(i as int));
            assert(pre.last() == full[i as int]);
        }
        if keep {
            out.push(ids[i].clone());
            proof {
                assert(pred(full[i as int]));
                assert(ids_view(out@) =~= full.take(i as int).filter(pred).push(full[i as int]));
                assert(ids_view(out@) =~= full.take(i + 1int).filter(pred));
            }
        } else {
            proof {
                assert(!pred(full[i as int]));
                assert(ids_view(out@) =~= full.take(i + 1int).filter(pred));
            }
        }
        i = i + 1;
    }
    proof {
        assert(full.take(ids@.len() as int) =~= full);
    }
    out
}

/// Whether two ID lists hold the same IDs in the same order.
pub fn ids_equal(a: &Vec<String>, b: &Vec<String>) -> (r: bool)
    ensures
        r == (ids_view(a@) == ids_view(b@)),
{
    if a.len() != b.len() {
        proof {
            assert(ids_view(a@).len() != ids_view(b@).len());
        }
        return false;
    }
    let mut i: usize = 0;
    while i < a.len()
        invariant
            0 <= i <= a.len(),
            a@.len() == b@.len(),
            forall|j: int| 0 <= j < i ==> ids_view(a@)[j] == ids_view(b@)[j],
        decreases a.len() - i,
    {
        if !a[i].eq(&b[i]) {
            assert(ids_view(a@)[i as int] != ids_view(b@)[i as int]);
            return false;
        }
        assert(ids_view(a@)[i as int] == ids_view(b@)[i as int]);
        i = i + 1;
    }
    proof {
        assert(ids_view(a@) =~= ids_view(b@));
    }
    true
}

} // verus!
