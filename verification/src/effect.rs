//! What the destination holds once a delta was cleared.
//!
//! The operations of a plan act on the file system, out of the reach of this
//! library.  This module says what a scan of the destination finds after they
//! were carried out one for one: every copy stands at the path it was copied
//! to, with the modification time of the file it was copied from.
use crate::delta::{DeltaView, FileTimeDelta};
use crate::entry::{DirView, EntryView, FileView};
use crate::names::{lookup, put};
use crate::path::path_join;
use vstd::prelude::*;

verus! {

/// The entry as it stands at `path` once it was copied there: a file with
/// the time of the file it was copied from; a directory with the copies of
/// its children, each at its name under `path`.
pub open spec fn copied(entry: EntryView, path: Seq<char>) -> EntryView
    decreases entry, 1int,
{
    match entry {
        EntryView::File(file) => EntryView::File(FileView { path, modified: file.modified }),
        EntryView::Dir(dir) => EntryView::Dir(
            DirView { path, children: copied_children(dir.children, path) },
        ),
    }
}

/// The children as they stand in the directory `path` once they were copied
/// there.
pub open spec fn copied_children(
    children: Seq<(Seq<char>, EntryView)>,
    path: Seq<char>,
) -> Seq<(Seq<char>, EntryView)>
    decreases children, 0int,
{
    if children.len() == 0 {
        Seq::empty()
    } else {
        copied_children(children.drop_last(), path).push(
            (children.last().0, copied(children.last().1, path_join(path, children.last().0))),
        )
    }
}

/// The destination entry `dest` as it stands once `delta`, its delta with a
/// source entry, was cleared: a file takes the time of a newer source and is
/// left alone otherwise; a directory has its entries cleared one by one.
pub open spec fn cleared(dest: EntryView, delta: DeltaView) -> EntryView
    decreases delta, 1int,
{
    match delta {
        DeltaView::File(delta) => if delta.diff == FileTimeDelta::Newer {
            EntryView::File(FileView { path: dest.path(), modified: delta.source.modified })
        } else {
            dest
        },
        DeltaView::Dir(delta) => match dest {
            EntryView::Dir(dir) => EntryView::Dir(
                DirView {
                    path: dir.path,
                    children: cleared_children(dir.children, delta.entries),
                },
            ),
            EntryView::File(_) => dest,
        },
        DeltaView::NotFound { .. } => dest,
    }
}

/// The children of a destination directory as they stand once `entries`,
/// the deltas of a source directory with it, were cleared: what was not
/// found stands under its name as a copy, and what differed stands cleared
/// in its place.
pub open spec fn cleared_children(
    children: Seq<(Seq<char>, EntryView)>,
    entries: Seq<(Seq<char>, DeltaView)>,
) -> Seq<(Seq<char>, EntryView)>
    decreases entries, 0int,
{
    if entries.len() == 0 {
        children
    } else {
        let before = cleared_children(children, entries.drop_last());
        let name = entries.last().0;
        match entries.last().1 {
            DeltaView::NotFound { entry, path } => put(before, name, copied(entry, path)),
            delta => match lookup(before, name) {
                Some(old) => put(before, name, cleared(old, delta)),
                None => before,
            },
        }
    }
}

/// Nothing is left to do for the delta: all it reports are files that are
/// older in the source than in the destination.
pub open spec fn idle(delta: DeltaView) -> bool
    decreases delta,
{
    match delta {
        DeltaView::File(delta) => delta.diff == FileTimeDelta::Older,
        DeltaView::Dir(delta) => forall|i: int|
            0 <= i < delta.entries.len() ==> idle((#[trigger] delta.entries[i]).1),
        DeltaView::NotFound { .. } => false,
    }
}

/// No file of the delta is older in the source than in the destination.
pub open spec fn no_older(delta: DeltaView) -> bool
    decreases delta,
{
    match delta {
        DeltaView::File(delta) => delta.diff != FileTimeDelta::Older,
        DeltaView::Dir(delta) => forall|i: int|
            0 <= i < delta.entries.len() ==> no_older((#[trigger] delta.entries[i]).1),
        DeltaView::NotFound { .. } => true,
    }
}

} // verus!
