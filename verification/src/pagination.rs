//! Pagination engine: maps the focused render index to a page, offset and
//! limit. Division by a zero limit is defined to yield page 0 and offset 0.

use vstd::prelude::*;

verus! {

/// Page for a focused render index: `floor(focused / limit)`, with a zero
/// limit yielding page 0.
pub open spec fn spec_page(limit: nat, focused: nat) -> nat {
    if limit == 0 {
        0
    } else {
        focused / limit
    }
}

/// Offset of the first render index on the page of `focused`.
pub open spec fn spec_offset(limit: nat, focused: nat) -> nat {
    spec_page(limit, focused) * limit
}

/// Pagination state. The limit in force is the disabled override when one is
/// set, else the internal limit.
pub struct PaginationState {
    /// Limit that `init` restores.
    pub init_limit: usize,
    /// Caller-settable limit.
    pub internal_limit: usize,
    /// External override; when set, pagination is "disabled" and the
    /// override wins over the internal limit.
    pub disabled: Option<usize>,
}

impl PaginationState {
    /// The limit in force.
    pub open spec fn spec_limit(self) -> nat {
        match self.disabled {
            Some(d) => d as nat,
            None => self.internal_limit as nat,
        }
    }

    pub fn new(init: usize, disabled: Option<usize>) -> (r: PaginationState)
        ensures
            r.init_limit == init,
            r.internal_limit == init,
            r.disabled == disabled,
    {
        PaginationState { init_limit: init, internal_limit: init, disabled }
    }

    pub fn limit(&self) -> (r: usize)
        ensures
            r as nat == self.spec_limit(),
    {
        match self.disabled {
            Some(d) => d,
            None => self.internal_limit,
        }
    }

    /// Replaces the internal limit. When the disabled override is set this is
    /// a no-op from the caller's perspective: the limit in force is unchanged.
    pub fn set_limit(&mut self, new_limit: usize)
        ensures
            final (self).internal_limit == new_limit,
            final (self).init_limit == old(self).init_limit,
            final (self).disabled == old(self).disabled,
            old(self).disabled is Some ==> final (self).spec_limit() == old(self).spec_limit(),
    {
        self.internal_limit = new_limit;
    }

    /// Restores the internal limit to the initial one.
    pub fn init(&mut self)
        ensures
            final (self).internal_limit == old(self).init_limit,
            final (self).init_limit == old(self).init_limit,
            final (self).disabled == old(self).disabled,
    {
        self.internal_limit = self.init_limit;
    }
}

/// Inputs of one pagination derivation.
pub struct UsePaginationParams {
    /// Initial (and internal) limit value.
    pub init: usize,
    /// Optional external limit override.
    pub disabled: Option<usize>,
    /// Render index of the focused row, if any; an absent focus counts as 0.
    pub focused_render_index: Option<usize>,
}

/// Derived pagination numbers for one render.
pub struct UsePaginationResult {
    /// Current page (0-based).
    pub page: usize,
    /// Minimum page, always 0.
    pub min_page: usize,
    /// Limit in force.
    pub limit: usize,
    /// Render index of the first row of the current page.
    pub offset: usize,
    /// Whether the external override is in force.
    pub disabled: bool,
}

/// Derives page, offset and limit from a limit configuration and the focused
/// render index.
pub fn use_pagination(params: &UsePaginationParams, state: &PaginationState) -> (r:
    UsePaginationResult)
    requires
        state.disabled == params.disabled,
    ensures
        r.limit as nat == state.spec_limit(),
        r.page as nat == spec_page(
            state.spec_limit(),
            (match params.focused_render_index {
                Some(i) => i as nat,
                None => 0,
            }),
        ),
        r.offset as nat == spec_offset(
            state.spec_limit(),
            (match params.focused_render_index {
                Some(i) => i as nat,
                None => 0,
            }),
        ),
        r.min_page == 0,
        r.disabled == (params.disabled is Some),
{
    let limit = state.limit();
    let focused: usize = match params.focused_render_index {
        Some(i) => i,
        None => 0,
    };
    let page: usize = if limit == 0 {
        0
    } else {
        focused / limit
    };
    let offset: usize = if limit == 0 {
        0
    } else {
        proof {
            assert(page * limit <= focused) by (nonlinear_arith)
                requires
                    limit > 0,
                    page == focused / limit,
            ;
        }
        page * limit
    };
    UsePaginationResult { page, min_page: 0, limit, offset, disabled: params.disabled.is_some() }
}

/// Last page for a maximal render index: `floor(max_index / limit)`, with a
/// zero limit yielding page 0.
pub fn max_page(limit: usize, max_render_index: usize) -> (r: usize)
    ensures
        r as nat == spec_page(limit as nat, max_render_index as nat),
{
    if limit == 0 {
        0
    } else {
        max_render_index / limit
    }
}

} // verus!
