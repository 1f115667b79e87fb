//! Focus engine: tracks the identity of the one "current" record, an active
//! flag, and a fallback render index used when the focused ID no longer
//! resolves to a row.

use vstd::prelude::*;
use crate::select::{ids_view, index_of_id};

verus! {

/// `raw` clamped into `[min, max_plus_one)`; when the range is empty the
/// clamp target is `min`.
pub open spec fn spec_molded_index(min: nat, raw: nat, max_plus_one: nat) -> nat {
    if max_plus_one == 0 {
        min
    } else if raw >= max_plus_one {
        if min >= max_plus_one - 1 {
            min
        } else {
            (max_plus_one - 1) as nat
        }
    } else if raw <= min {
        min
    } else {
        raw
    }
}

/// `raw` when it lies below `max_plus_one`, else 0: an overflowing index
/// wraps to the start instead of clamping to the end.
pub open spec fn spec_overflow_floored_index(raw: nat, max_plus_one: nat) -> nat {
    if raw >= max_plus_one {
        0
    } else {
        raw
    }
}

/// Clamps `raw` into the valid index range `[min, max_plus_one)`.
pub fn get_molded_index(min: usize, raw: usize, max_plus_one: usize) -> (r: usize)
    ensures
        r as nat == spec_molded_index(min as nat, raw as nat, max_plus_one as nat),
{
    if max_plus_one == 0 {
        min
    } else {
        let upper = max_plus_one - 1;
        let capped = if raw < upper {
            raw
        } else {
            upper
        };
        if capped < min {
            min
        } else {
            capped
        }
    }
}

/// Wraps an out-of-range `raw` to 0 instead of clamping.
pub fn get_overflow_floored_index(raw: usize, max_plus_one: usize) -> (r: usize)
    ensures
        r as nat == spec_overflow_floored_index(raw as nat, max_plus_one as nat),
{
    if max_plus_one <= raw {
        0
    } else {
        raw
    }
}

/// Focus state.
pub struct FocusState {
    /// ID of the focused record, if any.
    pub id: Option<String>,
    /// Whether focus is active.
    pub active: bool,
    /// Render index to fall back to when `id` does not resolve.
    pub fallback_render_index: usize,
    /// Whether a scroll towards the focused row is pending.
    pub scroll_reserved: bool,
    /// ID restored by `init`.
    pub init_id: Option<String>,
}

/// The view of an optional ID.
pub open spec fn opt_id_view(id: Option<String>) -> Option<Seq<char>> {
    match id {
        Some(s) => Some(s@),
        None => None,
    }
}

impl FocusState {
    pub open spec fn view_id(self) -> Option<Seq<char>> {
        opt_id_view(self.id)
    }

    pub fn new(init_id: Option<String>) -> (r: FocusState)
        ensures
            r.view_id() == opt_id_view(init_id),
            opt_id_view(r.init_id) == opt_id_view(init_id),
            r.active == false,
            r.fallback_render_index == 0,
            r.scroll_reserved == false,
    {
        let current = clone_opt_id(&init_id);
        FocusState {
            id: current,
            active: false,
            fallback_render_index: 0,
            scroll_reserved: false,
            init_id,
        }
    }

    /// Replaces the focused ID.
    pub fn set_id(&mut self, next: Option<String>)
        ensures
            final (self).id == next,
            final (self).active == old(self).active,
            final (self).fallback_render_index == old(self).fallback_render_index,
            final (self).scroll_reserved == old(self).scroll_reserved,
            final (self).init_id == old(self).init_id,
    {
        self.id = next;
    }

    /// Replaces the active flag.
    pub fn set_active(&mut self, next: bool)
        ensures
            final (self).active == next,
            final (self).id == old(self).id,
            final (self).fallback_render_index == old(self).fallback_render_index,
            final (self).scroll_reserved == old(self).scroll_reserved,
            final (self).init_id == old(self).init_id,
    {
        self.active = next;
    }

    /// Remembers a render index to fall back to; an absent index resets the
    /// fallback to 0.
    pub fn set_fallback_render_index(&mut self, render_index: Option<usize>)
        ensures
            final (self).fallback_render_index == (match render_index {
                Some(i) => i,
                None => 0,
            }),
            final (self).id == old(self).id,
            final (self).active == old(self).active,
            final (self).scroll_reserved == old(self).scroll_reserved,
            final (self).init_id == old(self).init_id,
    {
        self.fallback_render_index = match render_index {
            Some(i) => i,
            None => 0,
        };
    }

    /// Restores the initial focus and drops any pending scroll.
    pub fn init(&mut self)
        ensures
            final (self).view_id() == opt_id_view(old(self).init_id),
            final (self).init_id == old(self).init_id,
            final (self).active == old(self).active,
            final (self).fallback_render_index == old(self).fallback_render_index,
            final (self).scroll_reserved == false,
    {
        let next = clone_opt_id(&self.init_id);
        self.id = next;
        self.scroll_reserved = false;
    }
}

/// Clones an optional ID; the view is unchanged.
pub fn clone_opt_id(id: &Option<String>) -> (r: Option<String>)
    ensures
        opt_id_view(r) == opt_id_view(*id),
{
    match id {
        Some(s) => Some(s.clone()),
        None => None,
    }
}

/// Render index of the row carrying `id` in the render-ordered ID list:
/// the first position holding that ID.
pub fn get_render_index_from_id(sorted_ids: &Vec<String>, id: &Option<String>) -> (r: Option<
    usize,
>)
    ensures
        match *id {
            Some(ref s) => match r {
                Some(i) => i < sorted_ids@.len() && ids_view(sorted_ids@)[i as int] == s@ && (
                forall|j: int| 0 <= j < i ==> ids_view(sorted_ids@)[j] != s@),
                None => forall|j: int|
                    0 <= j < sorted_ids@.len() ==> ids_view(sorted_ids@)[j] != s@,
            },
            None => r is None,
        },
{
    match id {
        Some(s) => index_of_id(sorted_ids, s),
        None => None,
    }
}

/// ID of the row at a render index, when the index is in range.
pub fn get_id_from_render_index(sorted_ids: &Vec<String>, render_index: Option<usize>) -> (r:
    Option<String>)
    ensures
        match render_index {
            Some(i) => if i < sorted_ids@.len() {
                opt_id_view(r) == Some(ids_view(sorted_ids@)[i as int])
            } else {
                r is None
            },
            None => r is None,
        },
{
    match render_index {
        Some(i) => {
            if i < sorted_ids.len() {
                Some(sorted_ids[i].clone())
            } else {
                None
            }
        },
        None => None,
    }
}

} // verus!
