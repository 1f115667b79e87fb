//! Column-width state: the current width of each column — a CSS track
//! size, or `None` for an unset width — keyed by column key, initialized
//! from the normalized column options.

use vstd::prelude::*;
use crate::column::ColumnOptionMap;

verus! {

/// The views of a width list's entries.
pub open spec fn widths_view(s: Seq<(String, Option<String>)>) -> Seq<
    (Seq<char>, Option<Seq<char>>),
> {
    Seq::new(
        s.len(),
        |i: int|
            (
                s[i].0@,
                match s[i].1 {
                    Some(w) => Some(w@),
                    None => None,
                },
            ),
    )
}

/// Upsert into a width list: the first entry for `key` is replaced; a new
/// key is appended.
pub open spec fn spec_width_upsert(
    s: Seq<(Seq<char>, Option<Seq<char>>)>,
    key: Seq<char>,
    value: Option<Seq<char>>,
    at: int,
) -> Seq<(Seq<char>, Option<Seq<char>>)>
    decreases s.len() - at,
{
    if at < 0 || at >= s.len() {
        s.push((key, value))
    } else if s[at].0 == key {
        s.update(at, (key, value))
    } else {
        spec_width_upsert(s, key, value, at + 1)
    }
}

/// Column-width state.
pub struct ColumnWidthsState {
    /// Current width of each column.
    pub widths: Vec<(String, Option<String>)>,
    /// Widths restored by `init`: each column's initial width.
    pub init_widths: Vec<(String, Option<String>)>,
}

impl ColumnWidthsState {
    pub open spec fn view_widths(self) -> Seq<(Seq<char>, Option<Seq<char>>)> {
        widths_view(self.widths@)
    }

    /// Builds the width state from the normalized column options: each
    /// column starts at its declared initial width.
    pub fn new(column_option_map: &ColumnOptionMap) -> (r: ColumnWidthsState)
        ensures
            r.view_widths().len() == column_option_map@.len(),
            widths_view(r.init_widths@) == r.view_widths(),
            forall|i: int|
                0 <= i < column_option_map@.len() ==> #[trigger] r.view_widths()[i] == (
                column_option_map@[i].0@,
                Some(column_option_map@[i].1.init_column_width@),
                ),
    {
        let initial = widths_from_options(column_option_map);
        let current = clone_widths(&initial);
        ColumnWidthsState { widths: current, init_widths: initial }
    }

    /// Replaces the whole width state.
    pub fn set(&mut self, new_widths: Vec<(String, Option<String>)>)
        ensures
            final (self).view_widths() == widths_view(new_widths@),
            final (self).init_widths == old(self).init_widths,
    {
        self.widths = new_widths;
    }

    /// Replaces the width of one column, or records a width for a new key.
    pub fn set_by_key(&mut self, key: String, value: Option<String>)
        ensures
            final (self).view_widths() == spec_width_upsert(
                old(self).view_widths(),
                key@,
                match value {
                    Some(ref w) => Some(w@),
                    None => None,
                },
                0,
            ),
            final (self).init_widths == old(self).init_widths,
    {
        let next = width_upsert(&self.widths, key, value);
        self.widths = next;
    }

    /// Restores every column's initial width.
    pub fn init(&mut self)
        ensures
            final (self).view_widths() == widths_view(old(self).init_widths@),
            final (self).init_widths == old(self).init_widths,
    {
        let next = clone_widths(&self.init_widths);
        self.widths = next;
    }
}

/// The width list with the first entry for `key` replaced by `value`, or
/// with `(key, value)` appended when the key is new.
fn width_upsert(widths: &Vec<(String, Option<String>)>, key: String, value: Option<String>) -> (r:
    Vec<(String, Option<String>)>)
    ensures
        widths_view(r@) == spec_width_upsert(
            widths_view(widths@),
            key@,
            match value {
                Some(ref w) => Some(w@),
                None => None,
            },
            0,
        ),
{
    let ghost full = widths_view(widths@);
    let ghost value_view = match value {
        Some(ref w) => Some(w@),
        None => None,
    };
    let at = find_width_key(widths, &key);
    proof {
        match at {
            Some(pos) => {
                assert(spec_width_upsert(full, key@, value_view, 0) == spec_width_upsert(
                    full,
                    key@,
                    value_view,
                    pos as int,
                )) by {
                    lemma_width_upsert_skip(full, key@, value_view, pos as int);
                }
            },
            None => {
                assert(spec_width_upsert(full, key@, value_view, 0) == spec_width_upsert(
                    full,
                    key@,
                    value_view,
                    full.len() as int,
                )) by {
                    lemma_width_upsert_skip(full, key@, value_view, full.len() as int);
                }
            },
        }
    }
    let mut out = clone_widths(widths);
    match at {
        Some(pos) => {
            let ghost before = widths_view(out@);
            out[pos] = (key, value);
            proof {
                assert(widths_view(out@) =~= before.update(pos as int, (key@, value_view)));
                assert(spec_width_upsert(full, key@, value_view, pos as int) == full.update(
                    pos as int,
                    (key@, value_view),
                ));
            }
        },
        None => {
            let ghost before = widths_view(out@);
            out.push((key, value));
            proof {
                assert(widths_view(out@) =~= before.push((key@, value_view)));
                assert(spec_width_upsert(full, key@, value_view, widths@.len() as int)
                    == full.push((key@, value_view)));
            }
        },
    }
    out
}


/// First position of `key` in a width list, if it occurs.
fn find_width_key(widths: &Vec<(String, Option<String>)>, key: &String) -> (r: Option<usize>)
    ensures
        match r {
            Some(i) => i < widths@.len() && widths_view(widths@)[i as int].0 == key@ && (forall|
                j: int,
            |
                0 <= j < i ==> widths_view(widths@)[j].0 != key@),
            None => forall|j: int| 0 <= j < widths@.len() ==> widths_view(widths@)[j].0 != key@,
        },
{
    let mut i: usize = 0;
    while i < widths.len()
        invariant
            0 <= i <= widths@.len(),
            forall|j: int| 0 <= j < i ==> widths_view(widths@)[j].0 != key@,
        decreases widths@.len() - i,
    {
        if widths[i].0.eq(key) {
            assert(widths_view(widths@)[i as int].0 == key@);
            return Some(i);
        }
        assert(widths_view(widths@)[i as int].0 != key@);
        i = i + 1;
    }
    None
}

/// The upsert search may start past any prefix that misses the key.
proof fn lemma_width_upsert_skip(
    s: Seq<(Seq<char>, Option<Seq<char>>)>,
    key: Seq<char>,
    value: Option<Seq<char>>,
    upto: int,
)
    requires
        0 <= upto <= s.len(),
        forall|j: int| 0 <= j < upto ==> s[j].0 != key,
    ensures
        spec_width_upsert(s, key, value, 0) == spec_width_upsert(s, key, value, upto),
    decreases upto,
{
    if upto > 0 {
        lemma_width_upsert_skip_step(s, key, value, 0, upto);
    }
}

/// Unfolds the upsert search one position at a time across a missing
/// prefix.
proof fn lemma_width_upsert_skip_step(
    s: Seq<(Seq<char>, Option<Seq<char>>)>,
    key: Seq<char>,
    value: Option<Seq<char>>,
    from: int,
    upto: int,
)
    requires
        0 <= from <= upto <= s.len(),
        forall|j: int| 0 <= j < upto ==> s[j].0 != key,
    ensures
        spec_width_upsert(s, key, value, from) == spec_width_upsert(s, key, value, upto),
    decreases upto - from,
{
    if from < upto {
        lemma_width_upsert_skip_step(s, key, value, from + 1, upto);
    }
}

/// The initial width entry of every column, in column order.
fn widths_from_options(column_option_map: &ColumnOptionMap) -> (r: Vec<(String, Option<String>)>)
    ensures
        r@.len() == column_option_map@.len(),
        forall|i: int|
            0 <= i < r@.len() ==> #[trigger] widths_view(r@)[i] == (
            column_option_map@[i].0@,
            Some(column_option_map@[i].1.init_column_width@),
            ),
{
    let mut out: Vec<(String, Option<String>)> = Vec::new();
    let mut i: usize = 0;
    while i < column_option_map.len()
        invariant
            0 <= i <= column_option_map@.len(),
            out@.len() == i,
            forall|j: int|
                0 <= j < i ==> #[trigger] widths_view(out@)[j] == (
                column_option_map@[j].0@,
                Some(column_option_map@[j].1.init_column_width@),
                ),
        decreases column_option_map@.len() - i,
    {
        let ghost before = widths_view(out@);
        out.push(
            (column_option_map[i].0.clone(), Some(column_option_map[i].1.init_column_width.clone())),
        );
        proof {
            assert(widths_view(out@) =~= before.push(
                (column_option_map@[i as int].0@, Some(column_option_map@[i as int].1.init_column_width@)),
            ));
        }
        i = i + 1;
    }
    out
}

/// Clones a width list; the view is unchanged.
fn clone_widths(widths: &Vec<(String, Option<String>)>) -> (r: Vec<(String, Option<String>)>)
    ensures
        widths_view(r@) == widths_view(widths@),
        r@.len() == widths@.len(),
{
    let mut out: Vec<(String, Option<String>)> = Vec::new();
    let mut i: usize = 0;
    while i < widths.len()
        invariant
            0 <= i <= widths@.len(),
            out@.len() == i,
            forall|j: int| 0 <= j < i ==> #[trigger] widths_view(out@)[j] == widths_view(widths@)[j],
        decreases widths@.len() - i,
    {
        let ghost before = widths_view(out@);
        let value = match &widths[i].1 {
            Some(w) => Some(w.clone()),
            None => None,
        };
        out.push((widths[i].0.clone(), value));
        proof {
            assert(widths_view(out@) =~= before.push(widths_view(widths@)[i as int]));
        }
        i = i + 1;
    }
    proof {
        assert(widths_view(out@) =~= widths_view(widths@));
    }
    out
}

} // verus!
