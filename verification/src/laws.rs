//! What holds of every comparison and of every reconciliation, proved from
//! the definitions.  The laws come first, and what they rest on after them.
use crate::delta::{DeltaView, FileTimeDelta};
use crate::diff::{child_diff, children_diff, diff, dir_diff, time_delta};
use crate::effect::{cleared, cleared_children, copied, copied_children, idle, no_older};
use crate::entry::{children_wf, DirView, EntryView};
use crate::error::Error;
use crate::listing::Listing;
use crate::names::{
    distinct_names, lemma_distinct_drop_last, lemma_lookup_push, lemma_lookup_put, lemma_position,
    lemma_position_at, lookup, position,
};
use crate::path::path_join;
use crate::plan::{clear_plan, entries_clear_plan, OperationView};
use crate::update_plan;
use crate::visit::{lemma_dir_of_patternless, lemma_dir_of_wf, patternless, tree_of};
use vstd::prelude::*;

verus! {

/// Reflexivity: comparing a well-formed tree with itself finds no
/// difference, whatever the accuracy.  The times of its files must be known:
/// a file whose time is not known cannot be compared with anything.
pub proof fn lemma_diff_reflexive(tree: EntryView, accuracy: nat)
    requires
        tree.wf(),
        tree.timed(),
    ensures
        diff(tree, tree, accuracy) == Ok::<Option<DeltaView>, Error>(None),
    decreases tree, 1int,
{
    match tree {
        EntryView::Dir(dir) => {
            lemma_children_diff_reflexive(dir, dir.children.len() as int, accuracy);
            assert(dir.children.take(dir.children.len() as int) == dir.children);
        },
        EntryView::File(file) => {},
    }
}

/// The delta that is reached from `delta` by going down `names`, one
/// directory delta at a time; `None` where the way ends early or nothing is
/// recorded at its end.
pub open spec fn delta_at(delta: Option<DeltaView>, names: Seq<Seq<char>>) -> Option<DeltaView>
    decreases names.len(),
{
    if names.len() == 0 {
        delta
    } else {
        match delta {
            Some(DeltaView::Dir(dir)) => delta_at(dir.child(names[0]), names.skip(1)),
            _ => None,
        }
    }
}

/// Tolerance monotonicity: where a comparison reports a file as newer or
/// older, the comparison of the same trees with a larger accuracy reports
/// the same of it or nothing at all, never the opposite.  The file is named
/// by the way down to it from the root of the delta.
pub proof fn lemma_diff_monotone(
    source: EntryView,
    dest: EntryView,
    finer: nat,
    coarser: nat,
    names: Seq<Seq<char>>,
)
    requires
        source.wf(),
        finer <= coarser,
        diff(source, dest, finer) is Ok,
        delta_at(diff(source, dest, finer)->Ok_0, names) matches Some(DeltaView::File(_)),
    ensures
        diff(source, dest, coarser) is Ok,
        delta_at(diff(source, dest, coarser)->Ok_0, names) is None || delta_at(
            diff(source, dest, coarser)->Ok_0,
            names,
        ) == delta_at(diff(source, dest, finer)->Ok_0, names),
    decreases names.len(),
{
    lemma_diff_error_any_accuracy(source, dest, finer, coarser);
    let fine = diff(source, dest, finer)->Ok_0;
    let coarse = diff(source, dest, coarser)->Ok_0;
    if names.len() > 0 {
        let name = names[0];
        match (source, dest) {
            (EntryView::Dir(source), EntryView::Dir(dest)) => {
                lemma_children_diff_child(source.children, dest, finer, name);
                lemma_children_diff_child(source.children, dest, coarser, name);
                lemma_position(source.children, name);
                let rest = names.skip(1);
                assert(fine matches Some(DeltaView::Dir(_)));
                let fine_dir = fine->Some_0->Dir_0;
                assert(delta_at(fine, names) == delta_at(fine_dir.child(name), rest));
                assert(fine_dir.child(name) is Some) by {
                    if fine_dir.child(name) is None && rest.len() > 0 {
                        assert(delta_at(None, rest) is None);
                    }
                }
                assert(fine_dir.entries == children_diff(source.children, dest, finer)->Ok_0);
                let child = source.child(name)->Some_0;
                let at = position(source.children, name)->Some_0;
                assert(source.children[at].1 == child);
                match dest.child(name) {
                    Some(other) => {
                        if coarse is Some {
                            lemma_diff_monotone(child, other, finer, coarser, names.skip(1));
                        }
                    },
                    None => {
                        assert(delta_at(fine_dir.child(name), rest) is None) by {
                            if rest.len() > 0 {
                            }
                        }
                    },
                }
            },
            _ => {},
        }
    }
}

/// Asymmetry: where the directory `with` has a child under `name` and the
/// directory `without` has none, a comparison of `with` against `without`
/// that succeeds reports the child as not found, at its name under the path
/// of `without`; a comparison of `without` against `with` that succeeds
/// reports nothing under the name.
pub proof fn lemma_diff_asymmetric(
    with: DirView,
    without: DirView,
    name: Seq<char>,
    accuracy: nat,
)
    requires
        with.wf(),
        without.wf(),
        with.child(name) is Some,
        without.child(name) is None,
    ensures
        dir_diff(with, without, accuracy) matches Ok(found) ==> found matches Some(delta)
            && delta.child(name) == Some(
            DeltaView::NotFound {
                entry: with.child(name)->Some_0,
                path: path_join(without.path, name),
            },
        ),
        dir_diff(without, with, accuracy) matches Ok(Some(delta)) ==> delta.child(name) is None,
{
    if dir_diff(with, without, accuracy) is Ok {
        lemma_children_diff_child(with.children, without, accuracy, name);
        lemma_position(with.children, name);
    }
    if dir_diff(without, with, accuracy) is Ok {
        lemma_children_diff_child(without.children, with, accuracy, name);
    }
}

/// Idempotence of reconciliation: once the delta of a well-formed source
/// with a destination was cleared, nothing is left to do.  A second
/// comparison succeeds and reports at most files that are older in the
/// source, which are left alone; where the first comparison reported no such
/// file, the second reports nothing at all.  This holds where the
/// destination is well formed as it stands after the clearing, as every scan
/// leaves it, and where the times of the files of the source are known, as a
/// copy cannot be compared otherwise.
pub proof fn lemma_clear_idempotent(source: EntryView, dest: EntryView, accuracy: nat)
    requires
        source.wf(),
        source.timed(),
        diff(source, dest, accuracy) matches Ok(Some(delta)) && cleared(dest, delta).wf(),
    ensures
        diff(source, cleared(dest, diff(source, dest, accuracy)->Ok_0->Some_0), accuracy)
            matches Ok(again) && {
            &&& again matches Some(left) ==> idle(left) && clear_plan(left) == Seq::<
                OperationView,
            >::empty()
            &&& no_older(diff(source, dest, accuracy)->Ok_0->Some_0) ==> again is None
        },
    decreases source, 1int,
{
    let delta = diff(source, dest, accuracy)->Ok_0->Some_0;
    let after = cleared(dest, delta);
    match (source, dest) {
        (EntryView::Dir(source_dir), EntryView::Dir(dest_dir)) => {
            lemma_children_clear_idempotent(
                source_dir,
                dest_dir,
                source_dir.children.len() as int,
                accuracy,
            );
            assert(source_dir.children.take(source_dir.children.len() as int)
                == source_dir.children);
        },
        _ => {},
    }
    match diff(source, after, accuracy) {
        Ok(Some(left)) => {
            lemma_idle_clears_nothing(left);
        },
        _ => {},
    }
}

/// Updating a directory from itself takes no operation, provided the times
/// of its files are known.
pub proof fn lemma_update_reflexive(listing: Listing, accuracy: nat, ignore: bool)
    requires
        tree_of(listing, ignore) matches Ok(tree) && tree.timed(),
    ensures
        update_plan(listing, listing, accuracy, ignore) == Ok::<Seq<OperationView>, Error>(
            Seq::empty(),
        ),
{
    lemma_dir_of_wf(listing, ignore);
    lemma_diff_reflexive(tree_of(listing, ignore)->Ok_0, accuracy);
}

/// Where no directory on either side keeps a pattern, an update is the same
/// whether the ignore files are heeded or not.
pub proof fn lemma_update_patternless(source: Listing, dest: Listing, accuracy: nat)
    requires
        patternless(source),
        patternless(dest),
    ensures
        update_plan(source, dest, accuracy, true) == update_plan(source, dest, accuracy, false),
{
    lemma_dir_of_patternless(source);
    lemma_dir_of_patternless(dest);
}

/// Clearing takes nothing away: what the destination directory held under a
/// name before the delta was cleared, it holds under the name after it.
pub proof fn lemma_clear_keeps(source: DirView, dest: DirView, accuracy: nat, name: Seq<char>)
    requires
        source.wf(),
        dir_diff(source, dest, accuracy) matches Ok(Some(_)),
        dest.child(name) is Some,
    ensures
        cleared(
            EntryView::Dir(dest),
            DeltaView::Dir(dir_diff(source, dest, accuracy)->Ok_0->Some_0),
        )->Dir_0.child(name) is Some,
{
    let delta = dir_diff(source, dest, accuracy)->Ok_0->Some_0;
    lemma_children_diff_names(source.children, dest, accuracy);
    lemma_cleared_child(dest.children, delta.entries, name);
}

/// Clearing supplies what was missing: once the delta was cleared, the
/// destination directory holds something under every name under which the
/// source directory holds something.
pub proof fn lemma_clear_supplies(source: DirView, dest: DirView, accuracy: nat, name: Seq<char>)
    requires
        source.wf(),
        dir_diff(source, dest, accuracy) matches Ok(Some(_)),
        source.child(name) is Some,
    ensures
        cleared(
            EntryView::Dir(dest),
            DeltaView::Dir(dir_diff(source, dest, accuracy)->Ok_0->Some_0),
        )->Dir_0.child(name) is Some,
{
    let delta = dir_diff(source, dest, accuracy)->Ok_0->Some_0;
    lemma_children_diff_names(source.children, dest, accuracy);
    lemma_children_diff_child(source.children, dest, accuracy, name);
    lemma_cleared_child(dest.children, delta.entries, name);
    lemma_position(source.children, name);
}

/// Clearing a delta in which nothing is left to do takes no operation.
pub proof fn lemma_idle_clears_nothing(delta: DeltaView)
    requires
        idle(delta),
    ensures
        clear_plan(delta) == Seq::<OperationView>::empty(),
    decreases delta, 1int,
{
    match delta {
        DeltaView::Dir(dir) => {
            lemma_idle_entries_clear_nothing(dir.entries);
        },
        _ => {},
    }
}

/// A delta holds differences only: a comparison never reports a directory
/// without reporting something in it.
pub proof fn lemma_diff_differs(source: EntryView, dest: EntryView, accuracy: nat)
    ensures
        diff(source, dest, accuracy) matches Ok(Some(delta)) ==> delta.differs(),
    decreases source, 2int,
{
    match (source, dest) {
        (EntryView::Dir(source), EntryView::Dir(dest)) => {
            lemma_children_diff_differ(source.children, dest, accuracy);
        },
        _ => {},
    }
}

/// The delta of a well-formed directory holds no name twice: as the children
/// of the source stand under names of their own, so do the entries of the
/// delta, at every depth.
pub proof fn lemma_diff_keyed(source: EntryView, dest: EntryView, accuracy: nat)
    requires
        source is Dir ==> source.wf(),
    ensures
        diff(source, dest, accuracy) matches Ok(Some(delta)) ==> delta.keyed(),
    decreases source, 2int,
{
    match (source, dest) {
        (EntryView::Dir(source), EntryView::Dir(dest)) => {
            if children_diff(source.children, dest, accuracy) is Ok {
                lemma_children_diff_names(source.children, dest, accuracy);
                lemma_children_diff_keyed(source.children, dest, accuracy);
            }
        },
        _ => {},
    }
}

/// Whether a comparison fails, and with which error, does not depend on the
/// accuracy.
pub proof fn lemma_diff_error_any_accuracy(
    source: EntryView,
    dest: EntryView,
    accuracy: nat,
    other: nat,
)
    ensures
        match diff(source, dest, accuracy) {
            Ok(_) => diff(source, dest, other) is Ok,
            Err(error) => diff(source, dest, other) == Err::<Option<DeltaView>, Error>(error),
        },
    decreases source, 2int,
{
    match (source, dest) {
        (EntryView::Dir(source), EntryView::Dir(dest)) => {
            lemma_children_diff_error_any_accuracy(source.children, dest, accuracy, other);
        },
        _ => {},
    }
}

/// With a larger accuracy two times compare as they did or no longer differ;
/// they never compare the other way round.
pub proof fn lemma_time_delta_monotone(source: nat, dest: nat, finer: nat, coarser: nat)
    requires
        finer <= coarser,
    ensures
        time_delta(source, dest, coarser) is None || time_delta(source, dest, coarser)
            == time_delta(source, dest, finer),
{
}

/// Seen from the other side, newer is older and older is newer.
pub proof fn lemma_time_delta_swapped(source: nat, dest: nat, accuracy: nat)
    ensures
        time_delta(dest, source, accuracy) == match time_delta(source, dest, accuracy) {
            Some(FileTimeDelta::Newer) => Some(FileTimeDelta::Older),
            Some(FileTimeDelta::Older) => Some(FileTimeDelta::Newer),
            None => None,
        },
{
}

/// What the comparison of the children of a directory holds under a name,
/// where the names of the children are distinct: the delta of the child that
/// bears the name, if there is such a child and it differs.
pub proof fn lemma_children_diff_child(
    children: Seq<(Seq<char>, EntryView)>,
    dest: DirView,
    accuracy: nat,
    name: Seq<char>,
)
    requires
        distinct_names(children),
        children_diff(children, dest, accuracy) is Ok,
    ensures
        lookup(children, name) matches Some(child) ==> child_diff(name, child, dest, accuracy)
            is Ok,
        lookup(children_diff(children, dest, accuracy)->Ok_0, name) == match lookup(
            children,
            name,
        ) {
            Some(child) => child_diff(name, child, dest, accuracy)->Ok_0,
            None => None,
        },
    decreases children.len(),
{
    if children.len() > 0 {
        let before = children.drop_last();
        let last = children.last();
        let found = children_diff(before, dest, accuracy)->Ok_0;
        assert(children == before.push(last));
        lemma_distinct_drop_last(children);
        lemma_children_diff_child(before, dest, accuracy, name);
        lemma_lookup_push(before, last.0, last.1, name);
        lemma_position(before, name);
        match child_diff(last.0, last.1, dest, accuracy) {
            Ok(Some(delta)) => {
                lemma_lookup_push(found, last.0, delta, name);
            },
            _ => {},
        }
    }
}

/// The deltas of the children of a directory hold differences only.
pub proof fn lemma_children_diff_differ(
    children: Seq<(Seq<char>, EntryView)>,
    dest: DirView,
    accuracy: nat,
)
    ensures
        children_diff(children, dest, accuracy) matches Ok(found) ==> forall|i: int|
            0 <= i < found.len() ==> (#[trigger] found[i]).1.differs(),
    decreases children, 0int,
{
    if children.len() > 0 {
        let name = children.last().0;
        let child = children.last().1;
        lemma_children_diff_differ(children.drop_last(), dest, accuracy);
        match dest.child(name) {
            Some(other) => {
                lemma_diff_differs(child, other, accuracy);
            },
            None => {},
        }
        match children_diff(children, dest, accuracy) {
            Ok(found) => {
                let before = children_diff(children.drop_last(), dest, accuracy)->Ok_0;
                assert forall|i: int| 0 <= i < found.len() implies (#[trigger] found[i]).1.differs() by {
                    if i < before.len() {
                        assert(found[i] == before[i]);
                    } else {
                        assert(child_diff(name, child, dest, accuracy) == Ok::<
                            Option<DeltaView>,
                            Error,
                        >(Some(found[i].1)));
                    }
                }
            },
            Err(_) => {},
        }
    }
}

/// Comparing the first `count` children of a well-formed directory with the
/// directory itself finds no difference.
pub proof fn lemma_children_diff_reflexive(dir: DirView, count: int, accuracy: nat)
    requires
        dir.wf(),
        dir.timed(),
        0 <= count <= dir.children.len(),
    ensures
        children_diff(dir.children.take(count), dir, accuracy) == Ok::<
            Seq<(Seq<char>, DeltaView)>,
            Error,
        >(Seq::empty()),
    decreases dir, count,
{
    if count > 0 {
        let first = dir.children.take(count);
        let child = dir.children[count - 1];
        assert(first.drop_last() == dir.children.take(count - 1));
        assert(first.last() == child);
        lemma_children_diff_reflexive(dir, count - 1, accuracy);
        lemma_position_at(dir.children, child.0, count - 1);
        assert(dir.children[count - 1].1.timed());
        lemma_diff_reflexive(child.1, accuracy);
        assert(dir.child(child.0) == Some(child.1));
        assert(child_diff(child.0, child.1, dir, accuracy) == Ok::<Option<DeltaView>, Error>(None));
    } else {
        assert(dir.children.take(count).len() == 0);
    }
}

/// Whether the comparison of the children of a directory fails, and with
/// which error, does not depend on the accuracy.
pub proof fn lemma_children_diff_error_any_accuracy(
    children: Seq<(Seq<char>, EntryView)>,
    dest: DirView,
    accuracy: nat,
    other: nat,
)
    ensures
        match children_diff(children, dest, accuracy) {
            Ok(_) => children_diff(children, dest, other) is Ok,
            Err(error) => children_diff(children, dest, other) == Err::<
                Seq<(Seq<char>, DeltaView)>,
                Error,
            >(error),
        },
    decreases children, 0int,
{
    if children.len() > 0 {
        let name = children.last().0;
        let child = children.last().1;
        lemma_children_diff_error_any_accuracy(children.drop_last(), dest, accuracy, other);
        match dest.child(name) {
            Some(found) => {
                lemma_diff_error_any_accuracy(child, found, accuracy, other);
            },
            None => {},
        }
        assert(match child_diff(name, child, dest, accuracy) {
            Ok(_) => child_diff(name, child, dest, other) is Ok,
            Err(error) => child_diff(name, child, dest, other) == Err::<Option<DeltaView>, Error>(
                error,
            ),
        });
    }
}

/// The deltas of well-formed children hold no name twice at any depth.
pub proof fn lemma_children_diff_keyed(
    children: Seq<(Seq<char>, EntryView)>,
    dest: DirView,
    accuracy: nat,
)
    requires
        children_wf(children),
    ensures
        children_diff(children, dest, accuracy) matches Ok(found) ==> forall|i: int|
            0 <= i < found.len() ==> (#[trigger] found[i]).1.keyed(),
    decreases children, 0int,
{
    if children.len() > 0 {
        let name = children.last().0;
        let child = children.last().1;
        let rest = children.drop_last();
        lemma_distinct_drop_last(children);
        assert forall|i: int| 0 <= i < rest.len() implies {
            &&& (#[trigger] rest[i]).1.file_name() == Some(rest[i].0)
            &&& rest[i].1.wf()
        } by {
            assert(rest[i] == children[i]);
        }
        lemma_children_diff_keyed(rest, dest, accuracy);
        assert(children[children.len() - 1].1.wf());
        match dest.child(name) {
            Some(other) => {
                lemma_diff_keyed(child, other, accuracy);
            },
            None => {},
        }
        match children_diff(children, dest, accuracy) {
            Ok(found) => {
                let before = children_diff(rest, dest, accuracy)->Ok_0;
                assert forall|i: int| 0 <= i < found.len() implies (#[trigger] found[i]).1.keyed() by {
                    if i < before.len() {
                        assert(found[i] == before[i]);
                    } else {
                        assert(child_diff(name, child, dest, accuracy) == Ok::<
                            Option<DeltaView>,
                            Error,
                        >(Some(found[i].1)));
                    }
                }
            },
            Err(_) => {},
        }
    }
}

/// The deltas of children with distinct names bear distinct names.
pub proof fn lemma_children_diff_names(
    children: Seq<(Seq<char>, EntryView)>,
    dest: DirView,
    accuracy: nat,
)
    requires
        distinct_names(children),
        children_diff(children, dest, accuracy) is Ok,
    ensures
        distinct_names(children_diff(children, dest, accuracy)->Ok_0),
    decreases children.len(),
{
    if children.len() > 0 {
        let before = children.drop_last();
        let last = children.last();
        let found = children_diff(before, dest, accuracy)->Ok_0;
        lemma_distinct_drop_last(children);
        lemma_children_diff_names(before, dest, accuracy);
        lemma_children_diff_child(before, dest, accuracy, last.0);
        lemma_position(before, last.0);
        lemma_position(found, last.0);
        match child_diff(last.0, last.1, dest, accuracy) {
            Ok(Some(delta)) => {
                let all = found.push((last.0, delta));
                assert forall|i: int, j: int| 0 <= i < j < all.len() implies (#[trigger] all[i]).0
                    != (#[trigger] all[j]).0 by {
                    assert(all[i] == found[i]);
                    if j < found.len() {
                        assert(all[j] == found[j]);
                    }
                }
            },
            _ => {},
        }
    }
}

/// What stands under a name among copied children: the copy of what stood
/// under the name, at that name under the path.
pub proof fn lemma_copied_child(
    children: Seq<(Seq<char>, EntryView)>,
    path: Seq<char>,
    name: Seq<char>,
)
    ensures
        lookup(copied_children(children, path), name) == match lookup(children, name) {
            Some(entry) => Some(copied(entry, path_join(path, name))),
            None => None,
        },
    decreases children.len(),
{
    if children.len() > 0 {
        let before = children.drop_last();
        let last = children.last();
        assert(children == before.push(last));
        lemma_copied_child(before, path, name);
        lemma_lookup_push(before, last.0, last.1, name);
        lemma_lookup_push(
            copied_children(before, path),
            last.0,
            copied(last.1, path_join(path, last.0)),
            name,
        );
    }
}

/// A well-formed entry with known times does not differ from a well-formed
/// copy of itself.
pub proof fn lemma_diff_copied(entry: EntryView, path: Seq<char>, accuracy: nat)
    requires
        entry.wf(),
        entry.timed(),
        copied(entry, path).wf(),
    ensures
        diff(entry, copied(entry, path), accuracy) == Ok::<Option<DeltaView>, Error>(None),
    decreases entry, 1int,
{
    match entry {
        EntryView::Dir(dir) => {
            lemma_children_diff_copied(dir, path, dir.children.len() as int, accuracy);
            assert(dir.children.take(dir.children.len() as int) == dir.children);
        },
        EntryView::File(file) => {},
    }
}

/// The first `count` children of a well-formed directory do not differ from
/// a well-formed copy of the directory.
pub proof fn lemma_children_diff_copied(dir: DirView, path: Seq<char>, count: int, accuracy: nat)
    requires
        dir.wf(),
        dir.timed(),
        copied(EntryView::Dir(dir), path).wf(),
        0 <= count <= dir.children.len(),
    ensures
        children_diff(
            dir.children.take(count),
            copied(EntryView::Dir(dir), path)->Dir_0,
            accuracy,
        ) == Ok::<Seq<(Seq<char>, DeltaView)>, Error>(Seq::empty()),
    decreases dir, count,
{
    let copy = copied(EntryView::Dir(dir), path)->Dir_0;
    if count > 0 {
        let first = dir.children.take(count);
        let child = dir.children[count - 1];
        assert(first.drop_last() == dir.children.take(count - 1));
        assert(first.last() == child);
        lemma_children_diff_copied(dir, path, count - 1, accuracy);
        assert(dir.children[count - 1].1.timed());
        lemma_position_at(dir.children, child.0, count - 1);
        lemma_copied_child(dir.children, path, child.0);
        let place = path_join(path, child.0);
        assert(copy.child(child.0) == Some(copied(child.1, place)));
        lemma_position(copy.children, child.0);
        let at = position(copy.children, child.0)->Some_0;
        assert(copy.children[at].1 == copied(child.1, place));
        lemma_diff_copied(child.1, place, accuracy);
        assert(child_diff(child.0, child.1, copy, accuracy) == Ok::<Option<DeltaView>, Error>(
            None,
        ));
    } else {
        assert(dir.children.take(count).len() == 0);
    }
}

/// What stands under a name among cleared children, where the deltas bear
/// distinct names: the copy of what was not found, the cleared state of what
/// differed, and what stood there before where nothing was reported.
pub proof fn lemma_cleared_child(
    children: Seq<(Seq<char>, EntryView)>,
    entries: Seq<(Seq<char>, DeltaView)>,
    name: Seq<char>,
)
    requires
        distinct_names(entries),
    ensures
        lookup(cleared_children(children, entries), name) == match lookup(entries, name) {
            Some(DeltaView::NotFound { entry, path }) => Some(copied(entry, path)),
            Some(delta) => match lookup(children, name) {
                Some(old) => Some(cleared(old, delta)),
                None => None,
            },
            None => lookup(children, name),
        },
    decreases entries.len(),
{
    if entries.len() > 0 {
        let before = entries.drop_last();
        let last = entries.last();
        let so_far = cleared_children(children, before);
        assert(entries == before.push(last));
        lemma_distinct_drop_last(entries);
        lemma_cleared_child(children, before, name);
        lemma_cleared_child(children, before, last.0);
        lemma_lookup_push(before, last.0, last.1, name);
        lemma_position(before, name);
        lemma_position(before, last.0);
        match last.1 {
            DeltaView::NotFound { entry, path } => {
                lemma_lookup_put(so_far, last.0, copied(entry, path), name);
            },
            delta => match lookup(so_far, last.0) {
                Some(old) => {
                    lemma_lookup_put(so_far, last.0, cleared(old, delta), name);
                },
                None => {},
            },
        }
    }
}

/// Clearing entries in which nothing is left to do takes no operation.
pub proof fn lemma_idle_entries_clear_nothing(entries: Seq<(Seq<char>, DeltaView)>)
    requires
        forall|i: int| 0 <= i < entries.len() ==> idle((#[trigger] entries[i]).1),
    ensures
        entries_clear_plan(entries) == Seq::<OperationView>::empty(),
    decreases entries, 0int,
{
    if entries.len() > 0 {
        let before = entries.drop_last();
        assert forall|i: int| 0 <= i < before.len() implies idle((#[trigger] before[i]).1) by {
            assert(before[i] == entries[i]);
        }
        lemma_idle_entries_clear_nothing(before);
        assert(idle(entries[entries.len() - 1].1));
        lemma_idle_clears_nothing(entries.last().1);
    }
}

/// The first `count` children of a well-formed source directory, compared
/// with the destination directory as it stands once the delta of the two
/// was cleared, leave nothing to do.
pub proof fn lemma_children_clear_idempotent(
    source: DirView,
    dest: DirView,
    count: int,
    accuracy: nat,
)
    requires
        source.wf(),
        source.timed(),
        0 <= count <= source.children.len(),
        dir_diff(source, dest, accuracy) matches Ok(Some(delta)) && cleared(
            EntryView::Dir(dest),
            DeltaView::Dir(delta),
        ).wf(),
    ensures
        children_diff(
            source.children.take(count),
            cleared(
                EntryView::Dir(dest),
                DeltaView::Dir(dir_diff(source, dest, accuracy)->Ok_0->Some_0),
            )->Dir_0,
            accuracy,
        ) matches Ok(found) && {
            &&& forall|i: int| 0 <= i < found.len() ==> idle((#[trigger] found[i]).1)
            &&& no_older(DeltaView::Dir(dir_diff(source, dest, accuracy)->Ok_0->Some_0))
                ==> found.len() == 0
        },
    decreases source, count,
{
    let delta = dir_diff(source, dest, accuracy)->Ok_0->Some_0;
    let after = cleared(EntryView::Dir(dest), DeltaView::Dir(delta))->Dir_0;
    if count > 0 {
        let first = source.children.take(count);
        let name = source.children[count - 1].0;
        let child = source.children[count - 1].1;
        assert(source.children[count - 1].1.timed());
        assert(first.drop_last() == source.children.take(count - 1));
        assert(first.last() == source.children[count - 1]);
        lemma_children_clear_idempotent(source, dest, count - 1, accuracy);
        let before = children_diff(source.children.take(count - 1), after, accuracy)->Ok_0;
        lemma_position_at(source.children, name, count - 1);
        lemma_children_diff_child(source.children, dest, accuracy, name);
        lemma_children_diff_names(source.children, dest, accuracy);
        lemma_cleared_child(dest.children, delta.entries, name);
        lemma_position(after.children, name);
        lemma_position(delta.entries, name);
        match dest.child(name) {
            None => {
                let place = path_join(dest.path, name);
                assert(after.child(name) == Some(copied(child, place)));
                let at = position(after.children, name)->Some_0;
                assert(after.children[at].1 == copied(child, place));
                lemma_diff_copied(child, place, accuracy);
            },
            Some(other) => {
                match diff(child, other, accuracy)->Ok_0 {
                    Some(reported) => {
                        assert(after.child(name) == Some(cleared(other, reported)));
                        let at = position(after.children, name)->Some_0;
                        assert(after.children[at].1 == cleared(other, reported));
                        let among = position(delta.entries, name)->Some_0;
                        assert(delta.entries[among].1 == reported);
                        lemma_clear_idempotent(child, other, accuracy);
                    },
                    None => {
                        assert(after.child(name) == Some(other));
                    },
                }
            },
        }
        let again = child_diff(name, child, after, accuracy);
        assert(again matches Ok(left) && {
            &&& left matches Some(left) ==> idle(left)
            &&& no_older(DeltaView::Dir(delta)) ==> left is None
        });
        match again {
            Ok(Some(left)) => {
                let found = before.push((name, left));
                assert forall|i: int| 0 <= i < found.len() implies idle((#[trigger] found[i]).1) by {
                    if i < before.len() {
                        assert(found[i] == before[i]);
                    }
                }
            },
            _ => {},
        }
    } else {
        assert(source.children.take(count).len() == 0);
    }
}

} // verus!
