//! Sort direction for a single column.

use vstd::prelude::*;

verus! {

/// Direction in which a column is sorted. `NoSort` means the column takes
/// no part in ordering.
#[derive(Clone, Copy, Debug, PartialEq, Eq, Structural)]
pub enum Order {
    NoSort,
    Asc,
    Desc,
}

pub type SortOrder = Order;

impl Order {
    /// Numeric tri-state index of this direction, used by the cycling shift.
    pub open spec fn spec_index_of(self) -> nat {
        match self {
            Order::NoSort => 0,
            Order::Asc => 1,
            Order::Desc => 2,
        }
    }

    /// Direction for a tri-state index, inverse of `spec_index_of` modulo 3.
    pub open spec fn spec_from_index(i: nat) -> Order {
        if i % 3 == 0 {
            Order::NoSort
        } else if i % 3 == 1 {
            Order::Asc
        } else {
            Order::Desc
        }
    }

    /// Successor in the cycle `none -> asc -> desc -> none`.
    pub open spec fn spec_next(self) -> Order {
        Order::spec_from_index(self.spec_index_of() + 1)
    }

    /// Parses `"none"`, `"asc"` or `"desc"`; anything else is rejected.
    pub fn from_str(s: &str) -> (r: Result<Order, ()>)
        ensures
            s@ == "asc"@ ==> r == Result::<Order, ()>::Ok(Order::Asc),
            s@ == "desc"@ ==> r == Result::<Order, ()>::Ok(Order::Desc),
            s@ == "none"@ ==> r == Result::<Order, ()>::Ok(Order::NoSort),
            s@ != "asc"@ && s@ != "desc"@ && s@ != "none"@ ==> r == Result::<Order, ()>::Err(()),
    {
        proof {
            reveal_strlit("asc");
            reveal_strlit("desc");
            reveal_strlit("none");
        }
        proof {
            assert(("asc"@).len() == 3);
            assert(("desc"@).len() == 4);
            assert(("none"@).len() == 4);
            assert(("desc"@)[0] == 'd');
            assert(("none"@)[0] == 'n');
            assert(("asc"@) != ("desc"@));
            assert(("desc"@) != ("none"@));
            assert(("asc"@) != ("none"@));
        }
        let owned = s.to_owned();
        if owned.eq(&"asc".to_owned()) {
            Ok(Order::Asc)
        } else if owned.eq(&"desc".to_owned()) {
            Ok(Order::Desc)
        } else if owned.eq(&"none".to_owned()) {
            Ok(Order::NoSort)
        } else {
            Err(())
        }
    }

    /// Canonical string form of this direction.
    pub fn to_str(&self) -> (r: &'static str)
        ensures
            *self == Order::NoSort ==> r@ == "none"@,
            *self == Order::Asc ==> r@ == "asc"@,
            *self == Order::Desc ==> r@ == "desc"@,
    {
        match self {
            Order::NoSort => "none",
            Order::Asc => "asc",
            Order::Desc => "desc",
        }
    }

    /// Advance one step in the cycle `none -> asc -> desc -> none`.
    pub fn next(self) -> (r: Order)
        ensures
            r == self.spec_next(),
    {
        match self {
            Order::NoSort => Order::Asc,
            Order::Asc => Order::Desc,
            Order::Desc => Order::NoSort,
        }
    }
}

/// The shift cycle has period three: three successive steps return any
/// direction to itself.
pub proof fn lemma_order_cycle(o: Order)
    ensures
        o.spec_next().spec_next().spec_next() == o,
{
}

} // verus!
