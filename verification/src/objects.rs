//! Object utilities over ordered key-value lists: an "object" is a list of
//! entries whose order is the insertion order.

use vstd::prelude::*;

verus! {

/// Replaces the value of the first entry for `key`, or appends the entry
/// when the key is new.
pub open spec fn spec_obj_upsert<V>(
    s: Seq<(String, V)>,
    key: String,
    value: V,
    at: int,
) -> Seq<(String, V)>
    decreases s.len() - at,
{
    if at < 0 || at >= s.len() {
        s.push((key, value))
    } else if s[at].0@ == key@ {
        s.update(at, (key, value))
    } else {
        spec_obj_upsert(s, key, value, at + 1)
    }
}

/// Merge of a list of objects, later objects overriding earlier ones key by
/// key: the entries of `maps[..k]` upserted in order.
pub open spec fn spec_merged_objs<V>(maps: Seq<Vec<(String, V)>>, k: int) -> Seq<(String, V)>
    decreases k,
{
    if k <= 0 {
        Seq::empty()
    } else {
        spec_merged_entries(spec_merged_objs(maps, k - 1), maps[k - 1]@, 0)
    }
}

/// The entries of `entries[j..]` upserted into `acc`, in order.
pub open spec fn spec_merged_entries<V>(
    acc: Seq<(String, V)>,
    entries: Seq<(String, V)>,
    j: int,
) -> Seq<(String, V)>
    decreases entries.len() - j,
{
    if j < 0 || j >= entries.len() {
        acc
    } else {
        spec_merged_entries(
            spec_obj_upsert(acc, entries[j].0, entries[j].1, 0),
            entries,
            j + 1,
        )
    }
}

pub struct Objects;

impl Objects {
    /// The keys of an object, in order; the clones equal the originals.
    pub fn keys<V>(map: &Vec<(String, V)>) -> (r: Vec<String>)
        ensures
            r@.len() == map@.len(),
            forall|i: int| 0 <= i < r@.len() ==> #[trigger] r@[i] == map@[i].0,
    {
        let mut out: Vec<String> = Vec::new();
        let mut i: usize = 0;
        while i < map.len()
            invariant
                0 <= i <= map@.len(),
                out@.len() == i,
                forall|j: int| 0 <= j < i ==> #[trigger] out@[j] == map@[j].0,
            decreases map@.len() - i,
        {
            out.push(map[i].0.clone());
            i = i + 1;
        }
        out
    }

    /// The values of an object, in order.
    pub fn values<V: Clone>(map: &Vec<(String, V)>) -> (r: Vec<V>)
        ensures
            r@.len() == map@.len(),
            forall|i: int|
                0 <= i < r@.len() ==> vstd::pervasive::cloned::<V>(map@[i].1, #[trigger] r@[i]),
    {
        let mut out: Vec<V> = Vec::new();
        let mut i: usize = 0;
        while i < map.len()
            invariant
                0 <= i <= map@.len(),
                out@.len() == i,
                forall|j: int|
                    0 <= j < i ==> vstd::pervasive::cloned::<V>(map@[j].1, #[trigger] out@[j]),
            decreases map@.len() - i,
        {
            out.push(map[i].1.clone());
            i = i + 1;
        }
        out
    }

    /// The entries of an object, in order.
    pub fn entries<V: Clone>(map: &Vec<(String, V)>) -> (r: Vec<(String, V)>)
        ensures
            r@.len() == map@.len(),
            forall|i: int| 0 <= i < r@.len() ==> #[trigger] r@[i].0 == map@[i].0,
            forall|i: int|
                0 <= i < r@.len() ==> vstd::pervasive::cloned::<V>(map@[i].1, #[trigger] r@[i].1),
    {
        let mut out: Vec<(String, V)> = Vec::new();
        let mut i: usize = 0;
        while i < map.len()
            invariant
                0 <= i <= map@.len(),
                out@.len() == i,
                forall|j: int| 0 <= j < i ==> #[trigger] out@[j].0 == map@[j].0,
                forall|j: int|
                    0 <= j < i ==> vstd::pervasive::cloned::<V>(map@[j].1, #[trigger] out@[j].1),
            decreases map@.len() - i,
        {
            out.push((map[i].0.clone(), map[i].1.clone()));
            i = i + 1;
        }
        out
    }

    /// Builds an object from entries: each entry upserted in order, so a
    /// repeated key keeps its first position and its last value.
    pub fn from_entries<V>(entries: Vec<(String, V)>) -> (r: Vec<(String, V)>)
        ensures
            r@ == spec_merged_entries(Seq::<(String, V)>::empty(), entries@, 0),
    {
        let ghost full = entries@;
        let mut remaining = entries;
        let mut out: Vec<(String, V)> = Vec::new();
        let mut j: usize = 0;
        let total = remaining.len();
        proof {
            assert(remaining@ =~= full.skip(0));
            assert(out@ =~= Seq::<(String, V)>::empty());
        }
        while remaining.len() > 0
            invariant
                0 <= j <= full.len(),
                total == full.len(),
                j + remaining@.len() == total,
                remaining@ == full.skip(j as int),
                spec_merged_entries(Seq::<(String, V)>::empty(), full, 0)
                    == spec_merged_entries(out@, full, j as int),
            decreases remaining@.len(),
        {
            proof {
                assert(full.skip(j as int).len() == full.len() - j);
            }
            let (key, value) = remaining.remove(0);
            proof {
                assert((key, value) == full[j as int]);
                assert(remaining@ =~= full.skip(j + 1int));
            }
            out = obj_upsert(out, key, value);
            j = j + 1;
        }
        out
    }

    /// Looks up the value of the first entry for `key`.
    pub fn find<V: Clone>(map: &Vec<(String, V)>, key: &String) -> (r: Option<V>)
        ensures
            match r {
                Some(v) => exists|i: int|
                    0 <= i < map@.len() && #[trigger] map@[i].0@ == key@
                        && vstd::pervasive::cloned::<V>(map@[i].1, v),
                None => forall|i: int| 0 <= i < map@.len() ==> #[trigger] map@[i].0@ != key@,
            },
    {
        let mut i: usize = 0;
        while i < map.len()
            invariant
                0 <= i <= map@.len(),
                forall|j: int| 0 <= j < i ==> #[trigger] map@[j].0@ != key@,
            decreases map@.len() - i,
        {
            if map[i].0.eq(key) {
                return Some(map[i].1.clone());
            }
            i = i + 1;
        }
        None
    }

    /// Maps each entry to a new value; the keys and their order stand.
    pub fn map<V, R, F: Fn((&String, &V), usize) -> R>(
        map: &Vec<(String, V)>,
        mapper: F,
    ) -> (r: Vec<(String, R)>)
        requires
            forall|i: int|
                0 <= i < map@.len() ==> call_requires(mapper, ((&map@[i].0, &map@[i].1), i as usize)),
        ensures
            r@.len() == map@.len(),
            forall|i: int| 0 <= i < r@.len() ==> #[trigger] r@[i].0 == map@[i].0,
            forall|i: int|
                0 <= i < r@.len() ==> call_ensures(
                    mapper,
                    ((&map@[i].0, &map@[i].1), i as usize),
                    #[trigger] r@[i].1,
                ),
    {
        let mut out: Vec<(String, R)> = Vec::new();
        let mut i: usize = 0;
        while i < map.len()
            invariant
                0 <= i <= map@.len(),
                out@.len() == i,
                forall|j: int|
                    0 <= j < map@.len() ==> call_requires(
                        mapper,
                        ((&map@[j].0, &map@[j].1), j as usize),
                    ),
                forall|j: int| 0 <= j < i ==> #[trigger] out@[j].0 == map@[j].0,
                forall|j: int|
                    0 <= j < i ==> call_ensures(
                        mapper,
                        ((&map@[j].0, &map@[j].1), j as usize),
                        #[trigger] out@[j].1,
                    ),
            decreases map@.len() - i,
        {
            let mapped = mapper((&map[i].0, &map[i].1), i);
            out.push((map[i].0.clone(), mapped));
            i = i + 1;
        }
        out
    }

    /// Keeps the entries on which the predicate returned true, in order:
    /// some ascending choice of positions whose predicate call answered
    /// true yields exactly the kept entries.
    pub fn filter<V: Clone, F: Fn((&String, &V), usize) -> bool>(
        map: &Vec<(String, V)>,
        pred: F,
    ) -> (r: Vec<(String, V)>)
        requires
            forall|i: int|
                0 <= i < map@.len() ==> call_requires(pred, ((&map@[i].0, &map@[i].1), i as usize)),
        ensures
            r@.len() <= map@.len(),
            exists|picks: Seq<int>|
                {
                    &&& picks.len() == r@.len()
                    &&& (forall|w: int, x: int| 0 <= w < x < picks.len() ==> picks[w] < picks[x])
                    &&& (forall|w: int|
                        0 <= w < picks.len() ==> 0 <= #[trigger] picks[w] < map@.len())
                    &&& (forall|w: int|
                        0 <= w < picks.len() ==> r@[w].0 == map@[#[trigger] picks[w]].0
                            && vstd::pervasive::cloned::<V>(map@[picks[w]].1, r@[w].1)
                            && call_ensures(
                            pred,
                            ((&map@[picks[w]].0, &map@[picks[w]].1), picks[w] as usize),
                            true,
                        ))
                },
    {
        let mut out: Vec<(String, V)> = Vec::new();
        let ghost mut picks: Seq<int> = Seq::empty();
        let mut i: usize = 0;
        while i < map.len()
            invariant
                0 <= i <= map@.len(),
                out@.len() == picks.len(),
                out@.len() <= i,
                forall|j: int|
                    0 <= j < map@.len() ==> call_requires(
                        pred,
                        ((&map@[j].0, &map@[j].1), j as usize),
                    ),
                forall|w: int, x: int| 0 <= w < x < picks.len() ==> picks[w] < picks[x],
                forall|w: int| 0 <= w < picks.len() ==> 0 <= #[trigger] picks[w] < i,
                forall|w: int|
                    0 <= w < picks.len() ==> out@[w].0 == map@[#[trigger] picks[w]].0
                        && vstd::pervasive::cloned::<V>(map@[picks[w]].1, out@[w].1)
                        && call_ensures(
                        pred,
                        ((&map@[picks[w]].0, &map@[picks[w]].1), picks[w] as usize),
                        true,
                    ),
            decreases map@.len() - i,
        {
            if pred((&map[i].0, &map[i].1), i) {
                out.push((map[i].0.clone(), map[i].1.clone()));
                proof {
                    picks = picks.push(i as int);
                }
            }
            i = i + 1;
        }
        proof {
            assert(picks.len() == out@.len());
        }
        out
    }

    /// Unwraps an object of optional values: the object of the inner
    /// values when every value is present, nothing when any is absent.
    pub fn required<V: Clone>(map: &Vec<(String, Option<V>)>) -> (r: Option<Vec<(String, V)>>)
        ensures
            (r is Some) == (forall|i: int| 0 <= i < map@.len() ==> #[trigger] map@[i].1 is Some),
            match r {
                Some(out) => out@.len() == map@.len() && (forall|i: int|
                    0 <= i < map@.len() ==> #[trigger] out@[i].0 == map@[i].0) && (forall|i: int|
                    0 <= i < map@.len() ==> map@[i].1 is Some && vstd::pervasive::cloned::<V>(
                        map@[i].1.unwrap(),
                        #[trigger] out@[i].1,
                    )),
                None => true,
            },
    {
        let mut out: Vec<(String, V)> = Vec::new();
        let mut i: usize = 0;
        while i < map.len()
            invariant
                0 <= i <= map@.len(),
                out@.len() == i,
                forall|j: int| 0 <= j < i ==> #[trigger] map@[j].1 is Some,
                forall|j: int| 0 <= j < i ==> #[trigger] out@[j].0 == map@[j].0,
                forall|j: int|
                    0 <= j < i ==> map@[j].1 is Some && vstd::pervasive::cloned::<V>(
                        map@[j].1.unwrap(),
                        #[trigger] out@[j].1,
                    ),
            decreases map@.len() - i,
        {
            match &map[i].1 {
                Some(v) => {
                    out.push((map[i].0.clone(), v.clone()));
                },
                None => {
                    return None;
                },
            }
            i = i + 1;
        }
        Some(out)
    }
}

/// The object with the first entry for `key` replaced by `value`, or with
/// the entry appended when the key is new.
fn obj_upsert<V>(obj: Vec<(String, V)>, key: String, value: V) -> (r: Vec<(String, V)>)
    ensures
        r@ == spec_obj_upsert(obj@, key, value, 0),
{
    let ghost full = obj@;
    let mut at: Option<usize> = None;
    let mut i: usize = 0;
    while i < obj.len()
        invariant
            0 <= i <= obj@.len(),
            full == obj@,
            at is None ==> spec_obj_upsert(full, key, value, 0) == spec_obj_upsert(
                full,
                key,
                value,
                i as int,
            ),
            match at {
                Some(p) => p < obj@.len() && full[p as int].0@ == key@ && spec_obj_upsert(
                    full,
                    key,
                    value,
                    0,
                ) == full.update(p as int, (key, value)),
                None => true,
            },
            at is Some ==> i == obj@.len(),
        decreases obj@.len() - i + (if at is None {
            1int
        } else {
            0int
        }),
    {
        if obj[i].0.eq(&key) {
            proof {
                assert(full[i as int].0@ == key@);
            }
            at = Some(i);
            i = obj.len();
        } else {
            proof {
                assert(full[i as int].0@ != key@);
            }
            i = i + 1;
        }
    }
    let mut out = obj;
    match at {
        Some(p) => {
            out[p] = (key, value);
            proof {
                assert(out@ =~= full.update(p as int, (key, value)));
            }
        },
        None => {
            out.push((key, value));
            proof {
                assert(spec_obj_upsert(full, key, value, full.len() as int) == full.push(
                    (key, value),
                ));
            }
        },
    }
    out
}

/// Gets the mapped object of a key-value list: each entry's value passed
/// through the mapper, keys and order kept.
pub fn get_mapped_object<V, R, F: Fn((&String, &V), usize) -> R>(
    obj: &Vec<(String, V)>,
    mapper: F,
) -> (r: Vec<(String, R)>)
    requires
        forall|i: int|
            0 <= i < obj@.len() ==> call_requires(mapper, ((&obj@[i].0, &obj@[i].1), i as usize)),
    ensures
        r@.len() == obj@.len(),
        forall|i: int| 0 <= i < r@.len() ==> #[trigger] r@[i].0 == obj@[i].0,
        forall|i: int|
            0 <= i < r@.len() ==> call_ensures(
                mapper,
                ((&obj@[i].0, &obj@[i].1), i as usize),
                #[trigger] r@[i].1,
            ),
{
    Objects::map(obj, mapper)
}

/// Merges objects, later objects overriding earlier ones key by key.
pub fn merge_hashmaps<V>(maps: Vec<Vec<(String, V)>>) -> (r: Vec<(String, V)>)
    ensures
        r@ == spec_merged_objs(maps@, maps@.len() as int),
{
    let ghost all = maps@;
    let mut remaining = maps;
    let mut out: Vec<(String, V)> = Vec::new();
    let mut k: usize = 0;
    let total = remaining.len();
    proof {
        assert(remaining@ =~= all.skip(0));
        assert(out@ =~= spec_merged_objs(all, 0));
    }
    while remaining.len() > 0
        invariant
            0 <= k <= all.len(),
            total == all.len(),
            k + remaining@.len() == total,
            remaining@ == all.skip(k as int),
            out@ == spec_merged_objs(all, k as int),
        decreases remaining@.len(),
    {
        proof {
            assert(all.skip(k as int).len() == all.len() - k);
        }
        let entries = remaining.remove(0);
        proof {
            assert(entries == all[k as int]);
            assert(remaining@ =~= all.skip(k + 1int));
        }
        let ghost acc0 = out@;
        let ghost entry_seq = entries@;
        let mut inner = entries;
        let mut j: usize = 0;
        let inner_total = inner.len();
        proof {
            assert(inner@ =~= entry_seq.skip(0));
        }
        while inner.len() > 0
            invariant
                0 <= j <= entry_seq.len(),
                inner_total == entry_seq.len(),
                j + inner@.len() == inner_total,
                inner@ == entry_seq.skip(j as int),
                spec_merged_entries(acc0, entry_seq, 0) == spec_merged_entries(
                    out@,
                    entry_seq,
                    j as int,
                ),
            decreases inner@.len(),
        {
            proof {
                assert(entry_seq.skip(j as int).len() == entry_seq.len() - j);
            }
            let (key, value) = inner.remove(0);
            proof {
                assert((key, value) == entry_seq[j as int]);
                assert(inner@ =~= entry_seq.skip(j + 1int));
            }
            out = obj_upsert(out, key, value);
            j = j + 1;
        }
        proof {
            assert(out@ == spec_merged_entries(acc0, entry_seq, 0));
            assert(out@ == spec_merged_objs(all, k + 1int));
        }
        k = k + 1;
    }
    out
}

} // verus!
