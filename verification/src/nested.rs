//! Nested-structure utilities: paths to every leaf of a nested structure
//! of string-keyed objects and index-keyed lists.

use vstd::prelude::*;

verus! {

broadcast use vstd::std_specs::vec::group_vec_axioms;

/// One step of a path into a nested structure: an object key or a list
/// index.
#[derive(Debug, Clone, PartialEq)]
pub enum NestedKey {
    /// Key into a string-keyed object.
    String(String),
    /// Index into a list.
    Number(usize),
}

/// Full path to a value.
pub type NestedKeyPath = Vec<NestedKey>;

/// An ordered, string-keyed object.
#[derive(Debug, Clone, PartialEq)]
pub struct StrMap<T> {
    pub entries: Vec<(String, T)>,
}

/// Prefixes a path with one step.
pub open spec fn spec_prefix_with(step: NestedKey) -> spec_fn(Seq<NestedKey>) -> Seq<NestedKey> {
    |p: Seq<NestedKey>| seq![step] + p
}

/// Paths to every leaf of a nested structure. A leafless value — a
/// primitive — has no paths; a container contributes, for each entry, the
/// entry's own step prefixed to each of its value's paths, or the bare
/// step when the value is a leaf.
pub trait NestedKeyOf {
    /// The paths of this value, in entry order.
    spec fn spec_nested_keys(&self) -> Seq<Seq<NestedKey>>;

    fn get_nested_keys(&self) -> (r: Vec<NestedKeyPath>)
        ensures
            r@.len() == self.spec_nested_keys().len(),
            forall|i: int| 0 <= i < r@.len() ==> #[trigger] r@[i]@ == self.spec_nested_keys()[i],
    ;
}

impl NestedKeyOf for String {
    open spec fn spec_nested_keys(&self) -> Seq<Seq<NestedKey>> {
        Seq::empty()
    }

    fn get_nested_keys(&self) -> (r: Vec<NestedKeyPath>)
        ensures
            r@.len() == self.spec_nested_keys().len(),
            forall|i: int| 0 <= i < r@.len() ==> #[trigger] r@[i]@ == self.spec_nested_keys()[i],
    {
        Vec::new()
    }
}

impl NestedKeyOf for i32 {
    open spec fn spec_nested_keys(&self) -> Seq<Seq<NestedKey>> {
        Seq::empty()
    }

    fn get_nested_keys(&self) -> (r: Vec<NestedKeyPath>)
        ensures
            r@.len() == self.spec_nested_keys().len(),
            forall|i: int| 0 <= i < r@.len() ==> #[trigger] r@[i]@ == self.spec_nested_keys()[i],
    {
        Vec::new()
    }
}

impl NestedKeyOf for bool {
    open spec fn spec_nested_keys(&self) -> Seq<Seq<NestedKey>> {
        Seq::empty()
    }

    fn get_nested_keys(&self) -> (r: Vec<NestedKeyPath>)
        ensures
            r@.len() == self.spec_nested_keys().len(),
            forall|i: int| 0 <= i < r@.len() ==> #[trigger] r@[i]@ == self.spec_nested_keys()[i],
    {
        Vec::new()
    }
}

/// The paths one container entry contributes, given its step and its
/// value's own paths.
pub open spec fn spec_entry_paths(step: NestedKey, sub: Seq<Seq<NestedKey>>) -> Seq<
    Seq<NestedKey>,
> {
    if sub.len() == 0 {
        seq![seq![step]]
    } else {
        sub.map_values(spec_prefix_with(step))
    }
}

/// The paths of the first `k` entries of an object.
pub open spec fn spec_map_keys<T: NestedKeyOf>(entries: Seq<(String, T)>, k: int) -> Seq<
    Seq<NestedKey>,
>
    decreases k,
{
    if k <= 0 {
        Seq::empty()
    } else {
        spec_map_keys(entries, k - 1) + spec_entry_paths(
            NestedKey::String(entries[k - 1].0),
            entries[k - 1].1.spec_nested_keys(),
        )
    }
}

/// The paths of the first `k` elements of a list.
pub open spec fn spec_list_keys<T: NestedKeyOf>(elems: Seq<T>, k: int) -> Seq<Seq<NestedKey>>
    decreases k,
{
    if k <= 0 {
        Seq::empty()
    } else {
        spec_list_keys(elems, k - 1) + spec_entry_paths(
            NestedKey::Number((k - 1) as usize),
            elems[k - 1].spec_nested_keys(),
        )
    }
}

/// Appends the paths of one container entry, prefixing each of the given
/// sub-paths with the step, or the bare step when there are none.
fn push_entry_paths(
    out: &mut Vec<NestedKeyPath>,
    step: NestedKey,
    sub: Vec<NestedKeyPath>,
    Ghost(sub_spec): Ghost<Seq<Seq<NestedKey>>>,
) -> (nothing: ())
    requires
        sub@.len() == sub_spec.len(),
        forall|j: int| 0 <= j < sub@.len() ==> #[trigger] sub@[j]@ == sub_spec[j],
    ensures
        final (out)@.len() == old(out)@.len() + spec_entry_paths(step, sub_spec).len(),
        forall|w: int|
            0 <= w < old(out)@.len() ==> #[trigger] final (out)@[w] == old(out)@[w],
        forall|w: int|
            0 <= w < spec_entry_paths(step, sub_spec).len() ==> #[trigger] final (out)@[old(out)@.len()
                + w]@ == spec_entry_paths(step, sub_spec)[w],
{
    let ghost base = out@;
    if sub.len() == 0 {
        let mut path: NestedKeyPath = Vec::new();
        path.push(step);
        out.push(path);
        proof {
            assert(spec_entry_paths(step, sub_spec) =~= seq![seq![step]]);
            assert(out@[base.len() as int]@ =~= seq![step]);
        }
    } else {
        let mut remaining = sub;
        let mut j: usize = 0;
        let total = remaining.len();
        proof {
            assert(remaining@ =~= sub@.skip(0));
        }
        while remaining.len() > 0
            invariant
                0 <= j <= sub@.len(),
                total == sub@.len(),
                sub@.len() == sub_spec.len(),
                sub_spec.len() > 0,
                j + remaining@.len() == total,
                remaining@ == sub@.skip(j as int),
                forall|w: int| 0 <= w < sub@.len() ==> #[trigger] sub@[w]@ == sub_spec[w],
                out@.len() == base.len() + j,
                forall|w: int| 0 <= w < base.len() ==> #[trigger] out@[w] == base[w],
                forall|w: int|
                    0 <= w < j ==> #[trigger] out@[base.len() + w]@ == spec_entry_paths(
                        step,
                        sub_spec,
                    )[w],
            decreases remaining@.len(),
        {
            proof {
                assert(sub@.skip(j as int).len() == sub@.len() - j);
            }
            let mut path = remaining.remove(0);
            proof {
                assert(path == sub@[j as int]);
                assert(remaining@ =~= sub@.skip(j + 1int));
            }
            path.insert(0, step.clone_step());
            out.push(path);
            proof {
                assert(out@[base.len() + j as int]@ =~= seq![step] + sub_spec[j as int]);
                assert(spec_entry_paths(step, sub_spec)[j as int] == spec_prefix_with(step)(
                    sub_spec[j as int],
                ));
            }
            j = j + 1;
        }
    }
}

impl NestedKey {
    /// A copy equal to the step itself.
    fn clone_step(&self) -> (r: NestedKey)
        ensures
            r == *self,
    {
        match self {
            NestedKey::String(s) => NestedKey::String(s.clone()),
            NestedKey::Number(n) => NestedKey::Number(*n),
        }
    }
}

impl<T: NestedKeyOf> NestedKeyOf for StrMap<T> {
    open spec fn spec_nested_keys(&self) -> Seq<Seq<NestedKey>> {
        spec_map_keys(self.entries@, self.entries@.len() as int)
    }

    fn get_nested_keys(&self) -> (r: Vec<NestedKeyPath>)
        ensures
            r@.len() == self.spec_nested_keys().len(),
            forall|i: int| 0 <= i < r@.len() ==> #[trigger] r@[i]@ == self.spec_nested_keys()[i],
    {
        let mut out: Vec<NestedKeyPath> = Vec::new();
        let mut i: usize = 0;
        while i < self.entries.len()
            invariant
                0 <= i <= self.entries@.len(),
                out@.len() == spec_map_keys(self.entries@, i as int).len(),
                forall|w: int|
                    0 <= w < out@.len() ==> #[trigger] out@[w]@ == spec_map_keys(
                        self.entries@,
                        i as int,
                    )[w],
            decreases self.entries@.len() - i,
        {
            let sub = self.entries[i].1.get_nested_keys();
            let ghost sub_spec = self.entries@[i as int].1.spec_nested_keys();
            let step = NestedKey::String(self.entries[i].0.clone());
            proof {
                assert(step == NestedKey::String(self.entries@[i as int].0));
            }
            let ghost before_len = out@.len() as int;
            push_entry_paths(&mut out, step, sub, Ghost(sub_spec));
            proof {
                let stepg = NestedKey::String(self.entries@[i as int].0);
                assert(spec_map_keys(self.entries@, i + 1int) =~= spec_map_keys(
                    self.entries@,
                    i as int,
                ) + spec_entry_paths(stepg, sub_spec));
                assert forall|w: int| 0 <= w < out@.len() implies #[trigger] out@[w]@
                    == spec_map_keys(self.entries@, i + 1int)[w] by {
                    if w >= before_len {
                        assert(out@[before_len + (w - before_len)]@ == spec_entry_paths(
                            stepg,
                            sub_spec,
                        )[w - before_len]);
                    }
                }
            }
            i = i + 1;
        }
        out
    }
}

impl<T: NestedKeyOf> NestedKeyOf for Vec<T> {
    open spec fn spec_nested_keys(&self) -> Seq<Seq<NestedKey>> {
        spec_list_keys(self@, self@.len() as int)
    }

    fn get_nested_keys(&self) -> (r: Vec<NestedKeyPath>)
        ensures
            r@.len() == self.spec_nested_keys().len(),
            forall|i: int| 0 <= i < r@.len() ==> #[trigger] r@[i]@ == self.spec_nested_keys()[i],
    {
        let mut out: Vec<NestedKeyPath> = Vec::new();
        let mut i: usize = 0;
        while i < self.len()
            invariant
                0 <= i <= self@.len(),
                out@.len() == spec_list_keys(self@, i as int).len(),
                forall|w: int|
                    0 <= w < out@.len() ==> #[trigger] out@[w]@ == spec_list_keys(
                        self@,
                        i as int,
                    )[w],
            decreases self@.len() - i,
        {
            let sub = self[i].get_nested_keys();
            let ghost sub_spec = self@[i as int].spec_nested_keys();
            let step = NestedKey::Number(i);
            let ghost before_len = out@.len() as int;
            push_entry_paths(&mut out, step, sub, Ghost(sub_spec));
            proof {
                let stepg = NestedKey::Number(i);
                assert(spec_list_keys(self@, i + 1int) =~= spec_list_keys(self@, i as int)
                    + spec_entry_paths(stepg, sub_spec));
                assert forall|w: int| 0 <= w < out@.len() implies #[trigger] out@[w]@
                    == spec_list_keys(self@, i + 1int)[w] by {
                    if w >= before_len {
                        assert(out@[before_len + (w - before_len)]@ == spec_entry_paths(
                            stepg,
                            sub_spec,
                        )[w - before_len]);
                    }
                }
            }
            i = i + 1;
        }
        out
    }
}



// ------------------------------------------------------------------
// Nested values.

/// A nested value: a JSON-like tree of strings, whole numbers, booleans,
/// lists and ordered string-keyed objects.
#[derive(Debug, PartialEq)]
pub enum NestedValue {
    String(String),
    Number(i64),
    Bool(bool),
    Array(Vec<NestedValue>),
    Object(Vec<(String, NestedValue)>),
    Null,
}

/// The mathematical shape of a nested value: the same tree over sequences
/// and integers. Contracts about nested values speak of this shape.
pub enum ValueRep {
    Str(Seq<char>),
    Num(i64),
    Bool(bool),
    Arr(Seq<ValueRep>),
    Obj(Seq<(Seq<char>, ValueRep)>),
    Null,
}

/// The shape of a nested value.
pub open spec fn rep_of(v: NestedValue) -> ValueRep
    decreases v, 0int, 0int,
    via rep_of_decreases
{
    match v {
        NestedValue::String(s) => ValueRep::Str(s@),
        NestedValue::Number(n) => ValueRep::Num(n),
        NestedValue::Bool(b) => ValueRep::Bool(b),
        NestedValue::Null => ValueRep::Null,
        NestedValue::Array(arr) => ValueRep::Arr(reps_of_list(arr, 0)),
        NestedValue::Object(entries) => ValueRep::Obj(reps_of_obj(entries, 0)),
    }
}

/// The shapes of the list elements from position `k` on.
pub open spec fn reps_of_list(arr: Vec<NestedValue>, k: int) -> Seq<ValueRep>
    decreases arr, 1int, arr@.len() - k,
    via reps_of_list_decreases
{
    if k < 0 || k >= arr@.len() {
        Seq::empty()
    } else {
        seq![rep_of(arr@[k])] + reps_of_list(arr, k + 1)
    }
}

/// The shapes of the object entries from position `k` on.
pub open spec fn reps_of_obj(entries: Vec<(String, NestedValue)>, k: int) -> Seq<
    (Seq<char>, ValueRep),
>
    decreases entries, 1int, entries@.len() - k,
    via reps_of_obj_decreases
{
    if k < 0 || k >= entries@.len() {
        Seq::empty()
    } else {
        seq![(entries@[k].0@, rep_of(entries@[k].1))] + reps_of_obj(entries, k + 1)
    }
}

#[via_fn]
proof fn rep_of_decreases(v: NestedValue) {
    match v {
        NestedValue::Array(arr) => {
            assert(arr == v->Array_0);
            assert(decreases_to!(v => v->Array_0));
        },
        NestedValue::Object(entries) => {
            assert(entries == v->Object_0);
            assert(decreases_to!(v => v->Object_0));
        },
        _ => (),
    }
}

#[via_fn]
proof fn reps_of_list_decreases(arr: Vec<NestedValue>, k: int) {
    broadcast use vstd::std_specs::vec::group_vec_axioms;

    if 0 <= k < arr@.len() {
        assert(decreases_to!(arr => arr[k]));
    }
}

#[via_fn]
proof fn reps_of_obj_decreases(entries: Vec<(String, NestedValue)>, k: int) {
    broadcast use vstd::std_specs::vec::group_vec_axioms;

    if 0 <= k < entries@.len() {
        assert(decreases_to!(entries => entries[k]));
        assert(decreases_to!(entries[k] => entries[k].1));
    }
}


/// Shapes of list elements, read off position by position.
pub proof fn lemma_reps_of_list(arr: Vec<NestedValue>, k: int)
    requires
        0 <= k <= arr@.len(),
    ensures
        reps_of_list(arr, k).len() == arr@.len() - k,
        forall|w: int|
            0 <= w < arr@.len() - k ==> #[trigger] reps_of_list(arr, k)[w] == rep_of(
                arr@[k + w],
            ),
    decreases arr@.len() - k,
{
    if k < arr@.len() {
        lemma_reps_of_list(arr, k + 1);
    }
}

/// Shapes of object entries, read off position by position.
pub proof fn lemma_reps_of_obj(entries: Vec<(String, NestedValue)>, k: int)
    requires
        0 <= k <= entries@.len(),
    ensures
        reps_of_obj(entries, k).len() == entries@.len() - k,
        forall|w: int|
            0 <= w < entries@.len() - k ==> #[trigger] reps_of_obj(entries, k)[w] == (
            entries@[k + w].0@,
            rep_of(entries@[k + w].1),
            ),
    decreases entries@.len() - k,
{
    if k < entries@.len() {
        lemma_reps_of_obj(entries, k + 1);
    }
}

/// A copy with the same shape as the value itself.
pub fn clone_nested(v: &NestedValue) -> (r: NestedValue)
    ensures
        rep_of(r) == rep_of(*v),
    decreases *v,
{
    match v {
        NestedValue::String(s) => NestedValue::String(s.clone()),
        NestedValue::Number(n) => NestedValue::Number(*n),
        NestedValue::Bool(b) => NestedValue::Bool(*b),
        NestedValue::Null => NestedValue::Null,
        NestedValue::Array(arr) => {
            let mut out: Vec<NestedValue> = Vec::new();
            let mut i: usize = 0;
            while i < arr.len()
                invariant
                    *v == NestedValue::Array(*arr),
                    0 <= i <= arr@.len(),
                    out@.len() == i,
                    forall|w: int|
                        0 <= w < i ==> #[trigger] rep_of(out@[w]) == rep_of(arr@[w]),
                decreases arr@.len() - i,
            {
                proof {
                    broadcast use vstd::std_specs::vec::group_vec_axioms;

                    assert(*arr == (*v)->Array_0);
                    assert(decreases_to!(*v => (*v)->Array_0));
                    assert(decreases_to!(*arr => arr[i as int]));
                }
                out.push(clone_nested(&arr[i]));
                i = i + 1;
            }
            proof {
                lemma_reps_of_list(out, 0);
                lemma_reps_of_list(*arr, 0);
                assert(reps_of_list(out, 0) =~= reps_of_list(*arr, 0));
            }
            NestedValue::Array(out)
        },
        NestedValue::Object(entries) => {
            let mut out: Vec<(String, NestedValue)> = Vec::new();
            let mut i: usize = 0;
            while i < entries.len()
                invariant
                    *v == NestedValue::Object(*entries),
                    0 <= i <= entries@.len(),
                    out@.len() == i,
                    forall|w: int| 0 <= w < i ==> #[trigger] out@[w].0@ == entries@[w].0@,
                    forall|w: int|
                        0 <= w < i ==> #[trigger] rep_of(out@[w].1) == rep_of(entries@[w].1),
                decreases entries@.len() - i,
            {
                proof {
                    broadcast use vstd::std_specs::vec::group_vec_axioms;

                    assert(*entries == (*v)->Object_0);
                    assert(decreases_to!(*v => (*v)->Object_0));
                    assert(decreases_to!(*entries => entries[i as int]));
                    assert(decreases_to!(entries[i as int] => entries[i as int].1));
                }
                out.push((entries[i].0.clone(), clone_nested(&entries[i].1)));
                i = i + 1;
            }
            proof {
                lemma_reps_of_obj(out, 0);
                lemma_reps_of_obj(*entries, 0);
                assert(reps_of_obj(out, 0) =~= reps_of_obj(*entries, 0));
            }
            NestedValue::Object(out)
        },
    }
}


// ------------------------------------------------------------------
// Decimal list indices.

/// Whether `c` is a decimal digit.
pub open spec fn spec_is_digit(c: char) -> bool {
    48 <= c as int <= 57
}

/// Whether `s` is one or more decimal digits.
pub open spec fn spec_is_digits(s: Seq<char>) -> bool {
    s.len() > 0 && forall|i: int| 0 <= i < s.len() ==> spec_is_digit(#[trigger] s[i])
}

/// Numeric value of a digit string, most significant digit first.
pub open spec fn spec_dec_val(s: Seq<char>) -> int
    decreases s.len(),
{
    if s.len() == 0 {
        0
    } else {
        spec_dec_val(s.drop_last()) * 10 + (s.last() as int - 48)
    }
}

/// The list index a path step denotes: the value of its digits, when the
/// step is all digits and the value fits the machine.
pub open spec fn spec_parse_dec(s: Seq<char>) -> Option<int> {
    if spec_is_digits(s) && spec_dec_val(s) <= usize::MAX as int {
        Some(spec_dec_val(s))
    } else {
        None
    }
}

/// Digit strings have nonnegative values, growing with each digit.
proof fn lemma_dec_val_bounds(s: Seq<char>, i: int)
    requires
        0 <= i <= s.len(),
        forall|j: int| 0 <= j < s.len() ==> spec_is_digit(#[trigger] s[j]),
    ensures
        0 <= spec_dec_val(s.take(i)) <= spec_dec_val(s),
    decreases s.len() - i,
{
    if i == s.len() {
        assert(s.take(i) =~= s);
        lemma_dec_val_nonneg(s);
    } else {
        lemma_dec_val_bounds(s, i + 1);
        let shorter = s.take(i);
        let longer = s.take(i + 1);
        assert(longer.drop_last() =~= shorter);
        assert(longer.last() == s[i]);
        lemma_dec_val_nonneg(shorter);
        assert(spec_dec_val(shorter) * 10 >= spec_dec_val(shorter)) by (nonlinear_arith)
            requires
                spec_dec_val(shorter) >= 0,
        ;
    }
}

/// Digit strings have nonnegative values.
proof fn lemma_dec_val_nonneg(s: Seq<char>)
    requires
        forall|j: int| 0 <= j < s.len() ==> spec_is_digit(#[trigger] s[j]),
    ensures
        spec_dec_val(s) >= 0,
    decreases s.len(),
{
    if s.len() > 0 {
        assert(forall|j: int|
            0 <= j < s.drop_last().len() ==> spec_is_digit(#[trigger] s.drop_last()[j]));
        lemma_dec_val_nonneg(s.drop_last());
        assert(spec_dec_val(s.drop_last()) * 10 >= 0) by (nonlinear_arith)
            requires
                spec_dec_val(s.drop_last()) >= 0,
        ;
    }
}

/// Parses a path step as a list index: one or more decimal digits whose
/// value fits the machine; anything else is rejected.
pub fn parse_dec(s: &str) -> (r: Option<usize>)
    ensures
        match r {
            Some(i) => spec_parse_dec(s@) == Some(i as int),
            None => spec_parse_dec(s@) is None,
        },
{
    let len = s.unicode_len();
    if len == 0 {
        return None;
    }
    let mut acc: usize = 0;
    let mut i: usize = 0;
    while i < len
        invariant
            0 <= i <= len,
            len == s@.len(),
            forall|j: int| 0 <= j < i ==> spec_is_digit(#[trigger] s@[j]),
            acc as int == spec_dec_val(s@.take(i as int)),
        decreases len - i,
    {
        let c = s.get_char(i);
        let code = c as u32;
        if code < 48 || code > 57 {
            proof {
                assert(!spec_is_digit(s@[i as int]));
            }
            return None;
        }
        let d = (code - 48) as usize;
        proof {
            assert(s@.take(i + 1int).drop_last() =~= s@.take(i as int));
            assert(s@.take(i + 1int).last() == s@[i as int]);
        }
        if acc > (usize::MAX - d) / 10 {
            proof {
                assert(acc * 10 + d > usize::MAX) by (nonlinear_arith)
                    requires
                        acc > (usize::MAX - d) / 10,
                        d <= 9,
                ;
                assert(spec_dec_val(s@.take(i + 1int)) > usize::MAX as int);
                if spec_is_digits(s@) {
                    lemma_dec_val_bounds(s@, i + 1int);
                }
            }
            return None;
        }
        proof {
            assert(acc * 10 + d <= usize::MAX) by (nonlinear_arith)
                requires
                    acc <= (usize::MAX - d) / 10,
                    d <= 9,
                    acc >= 0,
            ;
        }
        acc = acc * 10 + d;
        i = i + 1;
    }
    proof {
        assert(s@.take(len as int) =~= s@);
        assert(spec_is_digits(s@));
    }
    Some(acc)
}

// ------------------------------------------------------------------
// Reading and writing nested values by a key path.

/// The views of the steps of a key path.
pub open spec fn spec_keys_view(keys: Seq<&str>) -> Seq<Seq<char>> {
    Seq::new(keys.len(), |i: int| keys[i]@)
}

/// Shape of the first object entry for `key` at or after position `k`.
pub open spec fn spec_obj_find(
    entries: Seq<(Seq<char>, ValueRep)>,
    key: Seq<char>,
    k: int,
) -> Option<int>
    decreases entries.len() - k,
{
    if k < 0 || k >= entries.len() {
        None
    } else if entries[k].0 == key {
        Some(k)
    } else {
        spec_obj_find(entries, key, k + 1)
    }
}

/// A successful entry search lands in range, on the key it sought.
pub proof fn lemma_obj_find_bounds(entries: Seq<(Seq<char>, ValueRep)>, key: Seq<char>, k: int)
    ensures
        match spec_obj_find(entries, key, k) {
            Some(j) => k <= j < entries.len() && entries[j].0 == key,
            None => true,
        },
    decreases entries.len() - k,
{
    if 0 <= k && k < entries.len() && entries[k].0 != key {
        lemma_obj_find_bounds(entries, key, k + 1);
    }
}

/// The entry search may start past any prefix that misses the key.
pub proof fn lemma_obj_find_skip(
    entries: Seq<(Seq<char>, ValueRep)>,
    key: Seq<char>,
    from: int,
    upto: int,
)
    requires
        0 <= from <= upto <= entries.len(),
        forall|j: int| from <= j < upto ==> entries[j].0 != key,
    ensures
        spec_obj_find(entries, key, from) == spec_obj_find(entries, key, upto),
    decreases upto - from,
{
    if from < upto {
        lemma_obj_find_skip(entries, key, from + 1, upto);
    }
}

/// The value a key path reaches from position `from` on: object steps
/// follow the first entry with the step's key, list steps follow the
/// decimal index, and any mismatch resolves to nothing.
pub open spec fn spec_get(rep: ValueRep, keys: Seq<Seq<char>>, from: int) -> Option<ValueRep>
    decreases keys.len() - from,
{
    if from < 0 || from >= keys.len() {
        Some(rep)
    } else {
        match rep {
            ValueRep::Obj(entries) => match spec_obj_find(entries, keys[from], 0) {
                Some(j) => spec_get(entries[j].1, keys, from + 1),
                None => None,
            },
            ValueRep::Arr(elems) => match spec_parse_dec(keys[from]) {
                Some(i) => if 0 <= i < elems.len() {
                    spec_get(elems[i], keys, from + 1)
                } else {
                    None
                },
                None => None,
            },
            _ => None,
        }
    }
}

/// Reading nested values by a key path; an unresolvable path yields
/// nothing.
pub trait NestedValueOf {
    fn get_nested_value(&self, keys: &[&str]) -> (r: Option<NestedValue>);
}

/// First position of an entry for `key` in an object's entries.
fn find_entry(entries: &Vec<(String, NestedValue)>, key: &str) -> (r: Option<usize>)
    ensures
        match r {
            Some(j) => j < entries@.len() && spec_obj_find(reps_of_obj(*entries, 0), key@, 0)
                == Some(j as int),
            None => spec_obj_find(reps_of_obj(*entries, 0), key@, 0) is None,
        },
{
    let owned = key.to_owned();
    let ghost reps = reps_of_obj(*entries, 0);
    proof {
        lemma_reps_of_obj(*entries, 0);
    }
    let mut j: usize = 0;
    while j < entries.len()
        invariant
            0 <= j <= entries@.len(),
            owned@ == key@,
            reps == reps_of_obj(*entries, 0),
            reps.len() == entries@.len(),
            forall|w: int| 0 <= w < entries@.len() ==> #[trigger] reps[w].0 == entries@[w].0@,
            forall|w: int| 0 <= w < j ==> #[trigger] reps[w].0 != key@,
        decreases entries@.len() - j,
    {
        if entries[j].0.eq(&owned) {
            proof {
                lemma_obj_find_skip(reps, key@, 0, j as int);
            }
            return Some(j);
        }
        j = j + 1;
    }
    proof {
        lemma_obj_find_skip(reps, key@, 0, entries@.len() as int);
    }
    None
}

impl NestedValueOf for NestedValue {
    /// The value the path reaches, copied out; nothing when the path does
    /// not resolve.
    fn get_nested_value(&self, keys: &[&str]) -> (r: Option<NestedValue>)
        ensures
            match r {
                Some(out) => spec_get(rep_of(*self), spec_keys_view(keys@), 0) == Some(
                    rep_of(out),
                ),
                None => spec_get(rep_of(*self), spec_keys_view(keys@), 0) is None,
            },
    {
        let ghost kv = spec_keys_view(keys@);
        let mut current: &NestedValue = self;
        let mut i: usize = 0;
        while i < keys.len()
            invariant
                0 <= i <= keys@.len(),
                kv == spec_keys_view(keys@),
                spec_get(rep_of(*self), kv, 0) == spec_get(rep_of(*current), kv, i as int),
            decreases keys@.len() - i,
        {
            let step = *vstd::slice::slice_index_get(keys, i);
            proof {
                assert(step@ == kv[i as int]);
            }
            match current {
                NestedValue::Object(entries) => {
                    proof {
                        lemma_reps_of_obj(*entries, 0);
                    }
                    match find_entry(entries, step) {
                        Some(j) => {
                            proof {
                                lemma_obj_find_bounds(reps_of_obj(*entries, 0), step@, 0);
                                assert(reps_of_obj(*entries, 0)[j as int].1 == rep_of(
                                    entries@[j as int].1,
                                ));
                            }
                            current = &entries[j].1;
                        },
                        None => {
                            return None;
                        },
                    }
                },
                NestedValue::Array(arr) => {
                    proof {
                        lemma_reps_of_list(*arr, 0);
                    }
                    match parse_dec(step) {
                        Some(idx) => {
                            if idx < arr.len() {
                                proof {
                                    assert(reps_of_list(*arr, 0)[idx as int] == rep_of(
                                        arr@[idx as int],
                                    ));
                                }
                                current = &arr[idx];
                            } else {
                                return None;
                            }
                        },
                        None => {
                            return None;
                        },
                    }
                },
                _ => {
                    return None;
                },
            }
            i = i + 1;
        }
        Some(clone_nested(current))
    }
}


/// What setting a value at a key path leaves behind, from position `from`
/// on, and whether the set took effect. Object steps follow or create the
/// entry with the step's key — intermediate objects are created as needed —
/// and list steps follow an existing decimal index; a type-mismatched or
/// out-of-range path leaves the value unchanged and reports failure.
pub open spec fn spec_set(
    rep: ValueRep,
    keys: Seq<Seq<char>>,
    from: int,
    value: ValueRep,
) -> (ValueRep, bool)
    decreases keys.len() - from,
{
    if from < 0 || from >= keys.len() {
        (value, true)
    } else {
        match rep {
            ValueRep::Obj(entries) => {
                let key = keys[from];
                match spec_obj_find(entries, key, 0) {
                    Some(j) => {
                        let inner = spec_set(entries[j].1, keys, from + 1, value);
                        if inner.1 {
                            (ValueRep::Obj(entries.update(j, (entries[j].0, inner.0))), true)
                        } else {
                            (ValueRep::Obj(entries), false)
                        }
                    },
                    None => {
                        let inner = spec_set(ValueRep::Obj(Seq::empty()), keys, from + 1, value);
                        if inner.1 {
                            (ValueRep::Obj(entries.push((key, inner.0))), true)
                        } else {
                            (ValueRep::Obj(entries), false)
                        }
                    },
                }
            },
            ValueRep::Arr(elems) => {
                match spec_parse_dec(keys[from]) {
                    Some(i) => if 0 <= i < elems.len() {
                        let inner = spec_set(elems[i], keys, from + 1, value);
                        if inner.1 {
                            (ValueRep::Arr(elems.update(i, inner.0)), true)
                        } else {
                            (ValueRep::Arr(elems), false)
                        }
                    } else {
                        (ValueRep::Arr(elems), false)
                    },
                    None => (ValueRep::Arr(elems), false),
                }
            },
            _ => (rep, false),
        }
    }
}

/// Setting nested values by a key path; intermediate objects are created
/// as necessary, and a type-mismatched path yields `false` and leaves the
/// value unchanged.
pub trait NestedValueSetter {
    fn set_nested_value(&mut self, keys: &[&str], value: NestedValue) -> (r: bool);
}

/// Performs the set on an owned value.
fn set_from(v: NestedValue, keys: &Vec<String>, from: usize, value: NestedValue) -> (r: (
    NestedValue,
    bool,
))
    ensures
        (rep_of(r.0), r.1) == spec_set(
            rep_of(v),
            crate::select::ids_view(keys@),
            from as int,
            rep_of(value),
        ),
    decreases keys@.len() - from,
{
    let ghost kv = crate::select::ids_view(keys@);
    let ghost value_rep = rep_of(value);
    if from >= keys.len() {
        return (value, true);
    }
    match v {
        NestedValue::Object(mut entries) => {
            proof {
                lemma_reps_of_obj(entries, 0);
            }
            let ghost reps = reps_of_obj(entries, 0);
            match find_entry(&entries, keys[from].as_str()) {
                Some(j) => {
                    proof {
                        lemma_obj_find_bounds(reps, kv[from as int], 0);
                    }
                    let (existing_key, child) = entries.remove(j);
                    let (new_child, ok) = set_from(child, keys, from + 1, value);
                    if ok {
                        entries.insert(j, (existing_key, new_child));
                        proof {
                            lemma_reps_of_obj(entries, 0);
                            assert(reps_of_obj(entries, 0) =~= reps.update(
                                j as int,
                                (reps[j as int].0, rep_of(new_child)),
                            ));
                        }
                        (NestedValue::Object(entries), true)
                    } else {
                        entries.insert(j, (existing_key, new_child));
                        proof {
                            lemma_reps_of_obj(entries, 0);
                            assert(reps_of_obj(entries, 0) =~= reps);
                        }
                        (NestedValue::Object(entries), false)
                    }
                },
                None => {
                    let fresh = NestedValue::Object(Vec::new());
                    proof {
                        assert(reps_of_obj(fresh->Object_0, 0) =~= Seq::<
                            (Seq<char>, ValueRep),
                        >::empty());
                    }
                    let (new_child, ok) = set_from(fresh, keys, from + 1, value);
                    if ok {
                        entries.push((keys[from].clone(), new_child));
                        proof {
                            lemma_reps_of_obj(entries, 0);
                            assert(reps_of_obj(entries, 0) =~= reps.push(
                                (kv[from as int], rep_of(new_child)),
                            ));
                        }
                        (NestedValue::Object(entries), true)
                    } else {
                        proof {
                            assert(reps_of_obj(entries, 0) =~= reps);
                        }
                        (NestedValue::Object(entries), false)
                    }
                },
            }
        },
        NestedValue::Array(mut arr) => {
            proof {
                lemma_reps_of_list(arr, 0);
            }
            let ghost reps = reps_of_list(arr, 0);
            match parse_dec(keys[from].as_str()) {
                Some(idx) => {
                    if idx < arr.len() {
                        let child = arr.remove(idx);
                        let (new_child, ok) = set_from(child, keys, from + 1, value);
                        if ok {
                            arr.insert(idx, new_child);
                            proof {
                                lemma_reps_of_list(arr, 0);
                                assert(reps_of_list(arr, 0) =~= reps.update(
                                    idx as int,
                                    rep_of(new_child),
                                ));
                            }
                            (NestedValue::Array(arr), true)
                        } else {
                            arr.insert(idx, new_child);
                            proof {
                                lemma_reps_of_list(arr, 0);
                                assert(reps_of_list(arr, 0) =~= reps);
                            }
                            (NestedValue::Array(arr), false)
                        }
                    } else {
                        proof {
                            assert(reps_of_list(arr, 0) =~= reps);
                        }
                        (NestedValue::Array(arr), false)
                    }
                },
                None => {
                    proof {
                        assert(reps_of_list(arr, 0) =~= reps);
                    }
                    (NestedValue::Array(arr), false)
                },
            }
        },
        other => (other, false),
    }
}

impl NestedValueSetter for NestedValue {
    /// Sets the value at the path; `false` and no change when the path
    /// cannot be followed.
    fn set_nested_value(&mut self, keys: &[&str], value: NestedValue) -> (r: bool)
        ensures
            (rep_of(*final (self)), r) == spec_set(
                rep_of(*old(self)),
                spec_keys_view(keys@),
                0,
                rep_of(value),
            ),
    {
        let mut owned_keys: Vec<String> = Vec::new();
        let mut i: usize = 0;
        while i < keys.len()
            invariant
                0 <= i <= keys@.len(),
                owned_keys@.len() == i,
                forall|j: int| 0 <= j < i ==> #[trigger] owned_keys@[j]@ == keys@[j]@,
            decreases keys@.len() - i,
        {
            let step = *vstd::slice::slice_index_get(keys, i);
            owned_keys.push(step.to_owned());
            i = i + 1;
        }
        proof {
            assert(crate::select::ids_view(owned_keys@) =~= spec_keys_view(keys@));
        }
        let mut taken = NestedValue::Null;
        core::mem::swap(self, &mut taken);
        let (next, ok) = set_from(taken, &owned_keys, 0, value);
        let mut next = next;
        core::mem::swap(self, &mut next);
        ok
    }
}


// ------------------------------------------------------------------
// Deep merge.

/// Deep merge of two shapes: objects merge key by key — entries of the
/// first operand in order, with values merged recursively where both sides
/// hold objects and taken from the second side otherwise, then the second
/// operand's new keys in order. A lone object wins over a non-object, and
/// two non-objects merge to the empty object.
pub open spec fn spec_merge_two(a: ValueRep, b: ValueRep) -> ValueRep
    decreases a, b, 0int,
{
    if a is Obj && b is Obj {
        ValueRep::Obj(
            spec_merge_entries(a->Obj_0, b->Obj_0, 0) + spec_new_entries(a->Obj_0, b->Obj_0, 0),
        )
    } else if a is Obj {
        a
    } else if b is Obj {
        b
    } else {
        ValueRep::Obj(Seq::empty())
    }
}

/// The first operand's entries from position `k` on, each merged with the
/// second operand's entry of the same key where one exists.
pub open spec fn spec_merge_entries(
    ae: Seq<(Seq<char>, ValueRep)>,
    be: Seq<(Seq<char>, ValueRep)>,
    k: int,
) -> Seq<(Seq<char>, ValueRep)>
    decreases ae, be, ae.len() - k + 1,
{
    if k < 0 || k >= ae.len() {
        Seq::empty()
    } else {
        let merged = match spec_obj_find(be, ae[k].0, 0) {
            Some(j) => if ae[k].1 is Obj && be[j].1 is Obj {
                spec_merge_two(ae[k].1, be[j].1)
            } else {
                be[j].1
            },
            None => ae[k].1,
        };
        seq![(ae[k].0, merged)] + spec_merge_entries(ae, be, k + 1)
    }
}

/// The second operand's entries from position `k` on whose key the first
/// operand does not hold, in order.
pub open spec fn spec_new_entries(
    ae: Seq<(Seq<char>, ValueRep)>,
    be: Seq<(Seq<char>, ValueRep)>,
    k: int,
) -> Seq<(Seq<char>, ValueRep)>
    decreases be.len() - k,
{
    if k < 0 || k >= be.len() {
        Seq::empty()
    } else if spec_obj_find(ae, be[k].0, 0) is None {
        seq![be[k]] + spec_new_entries(ae, be, k + 1)
    } else {
        spec_new_entries(ae, be, k + 1)
    }
}

/// Left fold of the deep merge over the shapes from position `k` on.
pub open spec fn spec_merge_fold(reps: Seq<ValueRep>, k: int, acc: ValueRep) -> ValueRep
    decreases reps.len() - k,
{
    if k < 0 || k >= reps.len() {
        acc
    } else {
        spec_merge_fold(reps, k + 1, spec_merge_two(acc, reps[k]))
    }
}

/// The prefix of the second operand's new entries: those among its first
/// `k` entries whose key the first operand does not hold.
pub open spec fn spec_new_entries_upto(
    ae: Seq<(Seq<char>, ValueRep)>,
    be: Seq<(Seq<char>, ValueRep)>,
    k: int,
) -> Seq<(Seq<char>, ValueRep)>
    decreases k,
{
    if k <= 0 {
        Seq::empty()
    } else if spec_obj_find(ae, be[k - 1].0, 0) is None {
        spec_new_entries_upto(ae, be, k - 1) + seq![be[k - 1]]
    } else {
        spec_new_entries_upto(ae, be, k - 1)
    }
}

/// The new entries are the same list whether collected from the front or
/// up to a position and onward.
proof fn lemma_new_entries_split(
    ae: Seq<(Seq<char>, ValueRep)>,
    be: Seq<(Seq<char>, ValueRep)>,
    k: int,
)
    requires
        0 <= k <= be.len(),
    ensures
        spec_new_entries_upto(ae, be, k) + spec_new_entries(ae, be, k) == spec_new_entries(
            ae,
            be,
            0,
        ),
    decreases k,
{
    if k == 0 {
        assert(spec_new_entries_upto(ae, be, 0) + spec_new_entries(ae, be, 0) =~= spec_new_entries(
            ae,
            be,
            0,
        ));
    } else {
        lemma_new_entries_split(ae, be, k - 1);
        if spec_obj_find(ae, be[k - 1].0, 0) is None {
            assert(spec_new_entries(ae, be, k - 1) =~= seq![be[k - 1]] + spec_new_entries(
                ae,
                be,
                k,
            ));
            assert(spec_new_entries_upto(ae, be, k) + spec_new_entries(ae, be, k)
                =~= spec_new_entries_upto(ae, be, k - 1) + spec_new_entries(ae, be, k - 1));
        } else {
            assert(spec_new_entries(ae, be, k - 1) == spec_new_entries(ae, be, k));
        }
    }
}

/// The merged entry the first operand's position `x` contributes.
pub open spec fn spec_merged_entry(
    ae: Seq<(Seq<char>, ValueRep)>,
    be: Seq<(Seq<char>, ValueRep)>,
    x: int,
) -> (Seq<char>, ValueRep) {
    let merged = match spec_obj_find(be, ae[x].0, 0) {
        Some(j) => if ae[x].1 is Obj && be[j].1 is Obj {
            spec_merge_two(ae[x].1, be[j].1)
        } else {
            be[j].1
        },
        None => ae[x].1,
    };
    (ae[x].0, merged)
}

/// Merged entries, read off position by position.
proof fn lemma_merge_entries_props(
    ae: Seq<(Seq<char>, ValueRep)>,
    be: Seq<(Seq<char>, ValueRep)>,
    k: int,
)
    requires
        0 <= k <= ae.len(),
    ensures
        spec_merge_entries(ae, be, k).len() == ae.len() - k,
        forall|w: int|
            0 <= w < ae.len() - k ==> #[trigger] spec_merge_entries(ae, be, k)[w]
                == spec_merged_entry(ae, be, k + w),
    decreases ae.len() - k,
{
    if k < ae.len() {
        lemma_merge_entries_props(ae, be, k + 1);
    }
}

/// A value's shape carries its constructor.
proof fn lemma_rep_constructor(v: NestedValue)
    ensures
        (rep_of(v) is Obj) == (v is Object),
        (rep_of(v) is Arr) == (v is Array),
{
}

/// Merges two nested values: objects merge deeply, with the later operand
/// winning key by key; anything else is replaced by the object among the
/// operands, or by the empty object when neither is one.
#[verifier::loop_isolation(false)]
pub fn merge_two(a: NestedValue, b: NestedValue) -> (r: NestedValue)
    ensures
        rep_of(r) == spec_merge_two(rep_of(a), rep_of(b)),
    decreases a,
{
    let ghost a0 = a;
    match (a, b) {
        (NestedValue::Object(ae), NestedValue::Object(be)) => {
            let ghost ae_vec = ae;
            let ghost areps = reps_of_obj(ae, 0);
            let ghost breps = reps_of_obj(be, 0);
            proof {
                lemma_reps_of_obj(ae, 0);
                lemma_reps_of_obj(be, 0);
                lemma_merge_entries_props(areps, breps, 0);
            }
            let mut a_keys: Vec<String> = Vec::new();
            let mut t: usize = 0;
            while t < ae.len()
                invariant
                    0 <= t <= ae@.len(),
                    a_keys@.len() == t,
                    areps == reps_of_obj(ae, 0),
                    areps.len() == ae@.len(),
                    forall|w: int|
                        0 <= w < ae@.len() ==> #[trigger] areps[w] == (
                        ae@[w].0@,
                        rep_of(ae@[w].1),
                        ),
                    forall|w: int| 0 <= w < t ==> #[trigger] a_keys@[w]@ == areps[w].0,
                decreases ae@.len() - t,
            {
                a_keys.push(ae[t].0.clone());
                t = t + 1;
            }
            let mut out: Vec<(String, NestedValue)> = Vec::new();
            let mut remaining = ae;
            let mut i: usize = 0;
            let total = remaining.len();
            proof {
                assert(remaining@ =~= ae_vec@.skip(0));
                assert(reps_of_obj(out, 0) =~= spec_merge_entries(areps, breps, 0).take(0));
            }
            while remaining.len() > 0
                invariant
                    a0 == NestedValue::Object(ae_vec),
                    0 <= i <= ae_vec@.len(),
                    total == ae_vec@.len(),
                    i + remaining@.len() == total,
                    remaining@ == ae_vec@.skip(i as int),
                    areps == reps_of_obj(ae_vec, 0),
                    breps == reps_of_obj(be, 0),
                    areps.len() == ae_vec@.len(),
                    forall|w: int|
                        0 <= w < ae_vec@.len() ==> #[trigger] areps[w] == (
                        ae_vec@[w].0@,
                        rep_of(ae_vec@[w].1),
                        ),
                    breps.len() == be@.len(),
                    forall|w: int|
                        0 <= w < be@.len() ==> #[trigger] breps[w] == (
                        be@[w].0@,
                        rep_of(be@[w].1),
                        ),
                    reps_of_obj(out, 0) == spec_merge_entries(areps, breps, 0).take(i as int),
                decreases remaining@.len(),
            {
                proof {
                    assert(ae_vec@.skip(i as int).len() == ae_vec@.len() - i);
                }
                let (key, av) = remaining.remove(0);
                proof {
                    assert((key, av) == ae_vec@[i as int]);
                    assert(remaining@ =~= ae_vec@.skip(i + 1int));
                    lemma_merge_entries_props(areps, breps, 0);
                }
                proof {
                    lemma_reps_of_obj(out, 0);
                }
                let ghost before = reps_of_obj(out, 0);
                let merged = match find_entry(&be, key.as_str()) {
                    Some(j) => {
                        proof {
                            lemma_obj_find_bounds(breps, key@, 0);
                        }
                        let bv = clone_nested(&be[j].1);
                        proof {
                            lemma_rep_constructor(av);
                            lemma_rep_constructor(bv);
                            lemma_rep_constructor(be@[j as int].1);
                        }
                        let both_objects = matches!(av, NestedValue::Object(_)) && matches!(
                            bv,
                            NestedValue::Object(_),
                        );
                        if both_objects {
                            proof {
                                broadcast use vstd::std_specs::vec::group_vec_axioms;

                                assert(a0->Object_0 == ae_vec);
                                assert(decreases_to!(a0 => a0->Object_0));
                                assert(decreases_to!(ae_vec => ae_vec[i as int]));
                                assert(decreases_to!(ae_vec[i as int] => ae_vec[i as int].1));
                                assert(decreases_to!(a0 => ae_vec[i as int].1));
                            }
                            merge_two(av, bv)
                        } else {
                            bv
                        }
                    },
                    None => av,
                };
                proof {
                    assert(rep_of(merged) == spec_merged_entry(areps, breps, i as int).1);
                }
                out.push((key, merged));
                proof {
                    lemma_reps_of_obj(out, 0);
                    assert(reps_of_obj(out, 0) =~= before.push(spec_merged_entry(
                        areps,
                        breps,
                        i as int,
                    )));
                    assert(reps_of_obj(out, 0) =~= spec_merge_entries(areps, breps, 0).take(
                        i + 1int,
                    ));
                }
                i = i + 1;
            }
            proof {
                assert(spec_merge_entries(areps, breps, 0).take(total as int)
                    =~= spec_merge_entries(areps, breps, 0));
                assert(reps_of_obj(out, 0) =~= spec_merge_entries(areps, breps, 0)
                    + spec_new_entries_upto(areps, breps, 0));
            }
            let mut b_remaining = be;
            let mut k: usize = 0;
            let b_total = b_remaining.len();
            while b_remaining.len() > 0
                invariant
                    0 <= k <= breps.len(),
                    b_total == breps.len(),
                    k + b_remaining@.len() == b_total,
                    forall|w: int|
                        0 <= w < b_remaining@.len() ==> (#[trigger] b_remaining@[w].0@, rep_of(
                            b_remaining@[w].1,
                        )) == breps[k + w],
                    areps.len() == a_keys@.len(),
                    forall|w: int| 0 <= w < a_keys@.len() ==> #[trigger] a_keys@[w]@ == areps[w].0,
                    reps_of_obj(out, 0) == spec_merge_entries(areps, breps, 0)
                        + spec_new_entries_upto(areps, breps, k as int),
                decreases b_remaining@.len(),
            {
                let (key, bv) = b_remaining.remove(0);
                proof {
                    assert((key@, rep_of(bv)) == breps[k as int]);
                }
                proof {
                    lemma_reps_of_obj(out, 0);
                }
                let ghost before = reps_of_obj(out, 0);
                match crate::select::index_of_id(&a_keys, &key) {
                    Some(j) => {
                        proof {
                            assert(crate::select::ids_view(a_keys@)[j as int] == a_keys@[j as int]@);
                            assert(areps[j as int].0 == key@);
                            assert forall|w: int| 0 <= w < j implies areps[w].0 != key@ by {
                                assert(crate::select::ids_view(a_keys@)[w] == a_keys@[w]@);
                            }
                            lemma_obj_find_skip(areps, key@, 0, j as int);
                            assert(spec_obj_find(areps, key@, 0) == Some(j as int));
                            assert(spec_new_entries_upto(areps, breps, k + 1int)
                                =~= spec_new_entries_upto(areps, breps, k as int));
                        }
                    },
                    None => {
                        proof {
                            assert forall|w: int| 0 <= w < areps.len() implies areps[w].0
                                != key@ by {
                                assert(crate::select::ids_view(a_keys@)[w] == a_keys@[w]@);
                            }
                            lemma_obj_find_skip(areps, key@, 0, areps.len() as int);
                            assert(spec_obj_find(areps, key@, 0) is None);
                        }
                        out.push((key, bv));
                        proof {
                            lemma_reps_of_obj(out, 0);
                            assert(reps_of_obj(out, 0) =~= before.push(breps[k as int]));
                            assert(spec_new_entries_upto(areps, breps, k + 1int)
                                =~= spec_new_entries_upto(areps, breps, k as int) + seq![
                                breps[k as int],
                            ]);
                            assert(reps_of_obj(out, 0) =~= spec_merge_entries(areps, breps, 0)
                                + spec_new_entries_upto(areps, breps, k + 1int));
                        }
                    },
                }
                k = k + 1;
            }
            proof {
                lemma_new_entries_split(areps, breps, breps.len() as int);
                assert(spec_new_entries(areps, breps, breps.len() as int) =~= Seq::<
                    (Seq<char>, ValueRep),
                >::empty());
                assert(spec_new_entries_upto(areps, breps, breps.len() as int)
                    =~= spec_new_entries(areps, breps, 0));
                lemma_reps_of_obj(out, 0);
            }
            NestedValue::Object(out)
        },
        (NestedValue::Object(ae), _other) => NestedValue::Object(ae),
        (_other, NestedValue::Object(be)) => NestedValue::Object(be),
        (_, _) => NestedValue::Object(Vec::new()),
    }
}


/// Merges nested values left to right: no value merges to `Null`, one
/// value stands alone, and more merge pairwise, objects deeply.
pub fn merge(objs: Vec<NestedValue>) -> (r: NestedValue)
    ensures
        objs@.len() == 0 ==> rep_of(r) == rep_of(NestedValue::Null),
        objs@.len() > 0 ==> rep_of(r) == spec_merge_fold(
            reps_of_list(objs, 0),
            1,
            reps_of_list(objs, 0)[0],
        ),
{
    let ghost all = reps_of_list(objs, 0);
    proof {
        lemma_reps_of_list(objs, 0);
    }
    let mut remaining = objs;
    if remaining.len() == 0 {
        return NestedValue::Null;
    }
    let total = remaining.len();
    let mut acc = remaining.remove(0);
    let mut k: usize = 1;
    proof {
        assert(rep_of(acc) == all[0]);
    }
    while remaining.len() > 0
        invariant
            1 <= k <= total,
            k + remaining@.len() == total,
            all.len() == total,
            forall|w: int|
                0 <= w < remaining@.len() ==> rep_of(#[trigger] remaining@[w]) == all[k + w],
            spec_merge_fold(all, 1, all[0]) == spec_merge_fold(all, k as int, rep_of(acc)),
        decreases remaining@.len(),
    {
        let next = remaining.remove(0);
        proof {
            assert(rep_of(next) == all[k as int]);
        }
        acc = merge_two(acc, next);
        k = k + 1;
    }
    acc
}


/// Deeply merges two objects' entries, key by key: the second operand wins
/// except where both sides hold objects, which merge recursively; the
/// second operand's new keys follow in order.
pub fn deep_merge_hashmaps(
    a: Vec<(String, NestedValue)>,
    b: Vec<(String, NestedValue)>,
) -> (r: Vec<(String, NestedValue)>)
    ensures
        reps_of_obj(r, 0) == spec_merge_entries(reps_of_obj(a, 0), reps_of_obj(b, 0), 0)
            + spec_new_entries(reps_of_obj(a, 0), reps_of_obj(b, 0), 0),
{
    let ghost areps = reps_of_obj(a, 0);
    let ghost breps = reps_of_obj(b, 0);
    let merged = merge_two(NestedValue::Object(a), NestedValue::Object(b));
    proof {
        lemma_rep_constructor(merged);
    }
    match merged {
        NestedValue::Object(entries) => entries,
        _ => {
            proof {
                assert(false);
            }
            Vec::new()
        },
    }
}

} // verus!
