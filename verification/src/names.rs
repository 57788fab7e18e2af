//! Values held under names, in the order in which they came: what stands
//! under a name, and what putting a value under a name does.
use vstd::prelude::*;

verus! {

/// What stands under `name` in `entries`: the value of the first pair that
/// bears the name.
pub open spec fn lookup<V>(entries: Seq<(Seq<char>, V)>, name: Seq<char>) -> Option<V>
    decreases entries.len(),
{
    if entries.len() == 0 {
        None
    } else if entries[0].0 == name {
        Some(entries[0].1)
    } else {
        lookup(entries.skip(1), name)
    }
}

/// Where `name` stands in `entries`: the index of the first pair that bears
/// the name.
pub open spec fn position<V>(entries: Seq<(Seq<char>, V)>, name: Seq<char>) -> Option<int>
    decreases entries.len(),
{
    if entries.len() == 0 {
        None
    } else if entries[0].0 == name {
        Some(0)
    } else {
        match position(entries.skip(1), name) {
            Some(i) => Some(i + 1),
            None => None,
        }
    }
}

/// `entries` with `value` under `name`: in the place of what stood under the
/// name, or at the end where nothing did.
pub open spec fn put<V>(entries: Seq<(Seq<char>, V)>, name: Seq<char>, value: V) -> Seq<
    (Seq<char>, V),
> {
    match position(entries, name) {
        Some(i) => entries.update(i, (name, value)),
        None => entries.push((name, value)),
    }
}

/// No two pairs of `entries` bear the same name.
pub open spec fn distinct_names<V>(entries: Seq<(Seq<char>, V)>) -> bool {
    forall|i: int, j: int|
        0 <= i < j < entries.len() ==> (#[trigger] entries[i]).0 != (#[trigger] entries[j]).0
}

/// What `position` and `lookup` find: the first pair that bears the name, or
/// nothing where no pair bears it.
pub proof fn lemma_position<V>(entries: Seq<(Seq<char>, V)>, name: Seq<char>)
    ensures
        match position(entries, name) {
            Some(i) => {
                &&& 0 <= i < entries.len()
                &&& entries[i].0 == name
                &&& forall|j: int| 0 <= j < i ==> (#[trigger] entries[j]).0 != name
                &&& lookup(entries, name) == Some(entries[i].1)
            },
            None => {
                &&& forall|j: int| 0 <= j < entries.len() ==> (#[trigger] entries[j]).0 != name
                &&& lookup(entries, name) is None
            },
        },
    decreases entries.len(),
{
    if entries.len() > 0 && entries[0].0 != name {
        let rest = entries.skip(1);
        lemma_position(rest, name);
        match position(rest, name) {
            Some(i) => {
                assert forall|j: int| 0 <= j < i + 1 implies (#[trigger] entries[j]).0 != name by {
                    if j > 0 {
                        assert(rest[j - 1] == entries[j]);
                    }
                }
                assert(rest[i] == entries[i + 1]);
            },
            None => {
                assert forall|j: int| 0 <= j < entries.len() implies (#[trigger] entries[j]).0
                    != name by {
                    if j > 0 {
                        assert(rest[j - 1] == entries[j]);
                    }
                }
            },
        }
    }
}

/// What stands under a name once a pair is added at the end: what stood
/// under it before, and the new value only where nothing did and the name is
/// that of the new pair.
pub proof fn lemma_lookup_push<V>(
    entries: Seq<(Seq<char>, V)>,
    name: Seq<char>,
    value: V,
    wanted: Seq<char>,
)
    ensures
        lookup(entries.push((name, value)), wanted) == match lookup(entries, wanted) {
            Some(found) => Some(found),
            None => if name == wanted {
                Some(value)
            } else {
                None
            },
        },
    decreases entries.len(),
{
    let longer = entries.push((name, value));
    if entries.len() == 0 {
        assert(longer[0] == (name, value));
        assert(longer.skip(1).len() == 0);
        assert(lookup(longer.skip(1), wanted) is None);
    } else {
        assert(longer[0] == entries[0]);
        assert(longer.skip(1) == entries.skip(1).push((name, value)));
        lemma_lookup_push(entries.skip(1), name, value, wanted);
        if entries[0].0 != wanted {
            assert(lookup(longer, wanted) == lookup(longer.skip(1), wanted));
            assert(lookup(entries, wanted) == lookup(entries.skip(1), wanted));
        }
    }
}

/// What stands under a name once the value of the first pair that bears
/// `name` is replaced.
pub proof fn lemma_lookup_update<V>(
    entries: Seq<(Seq<char>, V)>,
    at: int,
    name: Seq<char>,
    value: V,
    wanted: Seq<char>,
)
    requires
        0 <= at < entries.len(),
        entries[at].0 == name,
        forall|j: int| 0 <= j < at ==> (#[trigger] entries[j]).0 != name,
    ensures
        lookup(entries.update(at, (name, value)), wanted) == if name == wanted {
            Some(value)
        } else {
            lookup(entries, wanted)
        },
    decreases entries.len(),
{
    let updated = entries.update(at, (name, value));
    if at == 0 {
        assert(updated[0] == (name, value));
        assert(updated.skip(1) == entries.skip(1));
    } else {
        assert(updated[0] == entries[0]);
        assert(updated.skip(1) == entries.skip(1).update(at - 1, (name, value)));
        assert forall|j: int| 0 <= j < at - 1 implies (#[trigger] entries.skip(1)[j]).0
            != name by {
            assert(entries.skip(1)[j] == entries[j + 1]);
        }
        lemma_lookup_update(entries.skip(1), at - 1, name, value, wanted);
    }
}

/// What stands under a name once a value is put under `name`: the value
/// under `name` itself, and what stood there before under any other.
pub proof fn lemma_lookup_put<V>(
    entries: Seq<(Seq<char>, V)>,
    name: Seq<char>,
    value: V,
    wanted: Seq<char>,
)
    ensures
        lookup(put(entries, name, value), wanted) == if name == wanted {
            Some(value)
        } else {
            lookup(entries, wanted)
        },
{
    lemma_position(entries, name);
    match position(entries, name) {
        Some(at) => {
            lemma_lookup_update(entries, at, name, value, wanted);
        },
        None => {
            lemma_lookup_push(entries, name, value, wanted);
        },
    }
}

/// The first pair of `entries` that bears `name` stands at `at`.
pub proof fn lemma_position_at<V>(entries: Seq<(Seq<char>, V)>, name: Seq<char>, at: int)
    requires
        0 <= at < entries.len(),
        entries[at].0 == name,
        forall|j: int| 0 <= j < at ==> (#[trigger] entries[j]).0 != name,
    ensures
        position(entries, name) == Some(at),
        lookup(entries, name) == Some(entries[at].1),
{
    lemma_position(entries, name);
}

/// No pair of `entries` bears `name`.
pub proof fn lemma_position_none<V>(entries: Seq<(Seq<char>, V)>, name: Seq<char>)
    requires
        forall|j: int| 0 <= j < entries.len() ==> (#[trigger] entries[j]).0 != name,
    ensures
        position(entries, name) is None,
        lookup(entries, name) is None,
{
    lemma_position(entries, name);
}

/// What bears distinct names still does without its last pair.
pub proof fn lemma_distinct_drop_last<V>(entries: Seq<(Seq<char>, V)>)
    requires
        distinct_names(entries),
        entries.len() > 0,
    ensures
        distinct_names(entries.drop_last()),
        forall|j: int|
            0 <= j < entries.len() - 1 ==> (#[trigger] entries.drop_last()[j]).0
                != entries.last().0,
{
    let before = entries.drop_last();
    assert forall|i: int, j: int| 0 <= i < j < before.len() implies (#[trigger] before[i]).0
        != (#[trigger] before[j]).0 by {
        assert(before[i] == entries[i]);
        assert(before[j] == entries[j]);
    }
    assert forall|j: int| 0 <= j < entries.len() - 1 implies (#[trigger] before[j]).0
        != entries.last().0 by {
        assert(before[j] == entries[j]);
        assert(entries[j].0 != entries[entries.len() - 1].0);
    }
}

} // verus!
