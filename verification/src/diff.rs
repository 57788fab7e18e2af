//! The comparison of a source tree with a destination tree.
//!
//! The comparison goes from the source to the destination only: what the
//! destination has beyond the source is never looked at.
use crate::delta::{
    deltas_view, outcome_view, DeltaView, DirDelta, DirDeltaView, EntryDelta, FileDelta, FileDeltaView,
    FileTimeDelta,
};
use crate::entry::{DirEntry, DirView, Entry, EntryView, FileEntry, FileView};
use crate::error::Error;
use crate::laws::{lemma_diff_differs, lemma_diff_keyed};
use crate::names::lemma_position;
use crate::path::{file_name_of, join, path_file_name, path_join};
use crate::span::Span;
use vstd::prelude::*;

verus! {

/// How a source modified at `source` stands to a destination modified at
/// `dest`, all in nanoseconds: newer or older where the two lie further apart
/// than `accuracy`, and neither where they do not.
pub open spec fn time_delta(source: nat, dest: nat, accuracy: nat) -> Option<FileTimeDelta> {
    if source > dest && source - accuracy > dest {
        Some(FileTimeDelta::Newer)
    } else if dest > source && dest - accuracy > source {
        Some(FileTimeDelta::Older)
    } else {
        None
    }
}

/// The delta of two files: an error where one of the paths has no name or
/// the time of one of the files is not known, otherwise what their times
/// say.
pub open spec fn file_diff(source: FileView, dest: FileView, accuracy: nat) -> Result<
    Option<FileDeltaView>,
    Error,
> {
    if path_file_name(source.path) is None || path_file_name(dest.path) is None {
        Err(Error::FilenameError)
    } else if source.modified is None || dest.modified is None {
        Err(Error::ReadError)
    } else {
        match time_delta(source.modified->Some_0, dest.modified->Some_0, accuracy) {
            Some(diff) => Ok(Some(FileDeltaView { source, dest, diff })),
            None => Ok(None),
        }
    }
}

/// The delta of the child `child` of a source directory against the
/// directory `dest`.  Where the destination has nothing under `name`, the
/// whole child is reported as not found, with the path it would take in the
/// destination; where it has something, the two are compared.
pub open spec fn child_diff(
    name: Seq<char>,
    child: EntryView,
    dest: DirView,
    accuracy: nat,
) -> Result<Option<DeltaView>, Error>
    decreases child, 1int,
{
    match dest.child(name) {
        Some(other) => diff(child, other, accuracy),
        None => match child.file_name() {
            Some(file_name) => Ok(
                Some(DeltaView::NotFound { entry: child, path: path_join(dest.path, file_name) }),
            ),
            None => Err(Error::FilenameError),
        },
    }
}

/// The deltas of `children`, taken in their order against the directory
/// `dest`: one for each child that differs, under the child's name.  The
/// first child that cannot be compared fails the whole.
pub open spec fn children_diff(
    children: Seq<(Seq<char>, EntryView)>,
    dest: DirView,
    accuracy: nat,
) -> Result<Seq<(Seq<char>, DeltaView)>, Error>
    decreases children, 0int,
{
    if children.len() == 0 {
        Ok(Seq::empty())
    } else {
        match children_diff(children.drop_last(), dest, accuracy) {
            Err(error) => Err(error),
            Ok(found) => match child_diff(children.last().0, children.last().1, dest, accuracy) {
                Err(error) => Err(error),
                Ok(None) => Ok(found),
                Ok(Some(delta)) => Ok(found.push((children.last().0, delta))),
            },
        }
    }
}

/// The delta of two directories: nothing where no child of the source
/// differs.
pub open spec fn dir_diff(source: DirView, dest: DirView, accuracy: nat) -> Result<
    Option<DirDeltaView>,
    Error,
>
    decreases source, 0int,
{
    match children_diff(source.children, dest, accuracy) {
        Err(error) => Err(error),
        Ok(entries) => if entries.len() == 0 {
            Ok(None)
        } else {
            Ok(Some(DirDeltaView { source, dest, entries }))
        },
    }
}

/// The delta of the entry `source` against the entry `dest`, with times
/// compared to within `accuracy` nanoseconds.  A file cannot be compared
/// with a directory.
pub open spec fn diff(source: EntryView, dest: EntryView, accuracy: nat) -> Result<
    Option<DeltaView>,
    Error,
>
    decreases source, 0int,
{
    match (source, dest) {
        (EntryView::Dir(source), EntryView::Dir(dest)) => match dir_diff(source, dest, accuracy) {
            Ok(Some(delta)) => Ok(Some(DeltaView::Dir(delta))),
            Ok(None) => Ok(None),
            Err(error) => Err(error),
        },
        (EntryView::File(source), EntryView::File(dest)) => match file_diff(
            source,
            dest,
            accuracy,
        ) {
            Ok(Some(delta)) => Ok(Some(DeltaView::File(delta))),
            Ok(None) => Ok(None),
            Err(error) => Err(error),
        },
        _ => Err(Error::MismatchedEntryTypes),
    }
}

/// An error among the first children is the error of all of them.
pub proof fn lemma_children_diff_fails(
    children: Seq<(Seq<char>, EntryView)>,
    first: int,
    dest: DirView,
    accuracy: nat,
)
    requires
        0 <= first <= children.len(),
        children_diff(children.take(first), dest, accuracy) is Err,
    ensures
        children_diff(children, dest, accuracy) == children_diff(
            children.take(first),
            dest,
            accuracy,
        ),
    decreases children.len() - first,
{
    if first == children.len() {
        assert(children.take(first) == children);
    } else {
        assert(children.take(first + 1).drop_last() == children.take(first));
        lemma_children_diff_fails(children, first + 1, dest, accuracy);
    }
}

impl FileEntry {
    /// Compares the source and destination modified times taking into account
    /// the given accuracy.
    pub fn cmp_modified(source: Span, dest: Span, accuracy: &Span) -> (found: Option<
        FileTimeDelta,
    >)
        ensures
            found == time_delta(source@, dest@, accuracy@),
    {
        if source.exceeds(&dest, accuracy) {
            // source is newer
            Some(FileTimeDelta::Newer)
        } else if dest.exceeds(&source, accuracy) {
            // source is older (dest is newer)
            Some(FileTimeDelta::Older)
        } else {
            None
        }
    }

    /// Compares self with another file entry.  Fails with `FilenameError`
    /// where one of the two paths has no final component, and with
    /// `ReadError` where the time of one of the files is not known; gives no
    /// delta where the two files were modified within `accuracy` of each
    /// other.
    pub fn cmp<'a>(&'a self, other: &'a FileEntry, accuracy: &Span) -> (found: Result<
        Option<FileDelta<'a>>,
        Error,
    >)
        ensures
            outcome_view(found) == file_diff(self@, other@, accuracy@),
    {
        let name1 = file_name_of(self.path().as_str());
        let name2 = file_name_of(other.path().as_str());
        // check filenames
        match (name1, name2) {
            (Some(_), Some(_)) => {
                // check modification time
                match (self.modified(), other.modified()) {
                    (Some(t1), Some(t2)) => {
                        // compare timestamps
                        match FileEntry::cmp_modified(t1, t2, accuracy) {
                            Some(delta) => Ok(Some(FileDelta::new(self, other, delta))),
                            None => Ok(None),
                        }
                    },
                    _ => Err(Error::ReadError),
                }
            },
            _ => Err(Error::FilenameError),
        }
    }
}

impl DirEntry {
    /// Compares self with another directory entry and returns the delta:
    /// one entry for each child of self that the other directory lacks or
    /// holds in another state, and nothing at all where there is no such
    /// child.
    pub fn cmp<'a>(&'a self, other: &'a DirEntry, accuracy: &Span) -> (found: Result<
        Option<DirDelta<'a>>,
        Error,
    >)
        ensures
            outcome_view(found) == dir_diff(self@, other@, accuracy@),
            found matches Ok(Some(delta)) ==> DeltaView::Dir(delta@).differs(),
        decreases self@, 0int,
    {
        proof {
            use_type_invariant(self);
            lemma_diff_keyed(EntryView::Dir(self@), EntryView::Dir(other@), accuracy@);
            lemma_diff_differs(EntryView::Dir(self@), EntryView::Dir(other@), accuracy@);
        }
        let ghost children = self@.children;
        let ghost mut seen: int = 0;
        let mut entries: Vec<(&'a String, EntryDelta<'a>)> = Vec::new();
        let count = self.len();
        let mut i: usize = 0;
        assert(children.take(0) == Seq::<(Seq<char>, EntryView)>::empty());
        assert(deltas_view(entries@) == Seq::<(Seq<char>, DeltaView)>::empty());
        // compare each entry of the first directory with the content of
        // the second directory
        while i < count
            invariant
                i <= count,
                seen == i,
                count == children.len(),
                children == self@.children,
                children_diff(children.take(seen), other@, accuracy@) == Ok::<
                    Seq<(Seq<char>, DeltaView)>,
                    Error,
                >(deltas_view(entries@)),
            decreases count - i,
        {
            let name = self.name(i);
            let e1 = self.entry(i);
            proof {
                assert(children.take(seen + 1).drop_last() == children.take(seen));
                assert(children.take(seen + 1).last() == children[seen]);
                lemma_position(other@.children, name@);
            }
            let delta = match other.find(name) {
                Some(at) => e1.cmp(other.entry(at), accuracy),
                None => match e1.file_name() {
                    // the entry doesn't exist in the other directory
                    Ok(file_name) => Ok(
                        Some(
                            EntryDelta::NotFound {
                                entry: e1,
                                path: join(other.path().as_str(), file_name.as_str()),
                            },
                        ),
                    ),
                    Err(error) => Err(error),
                },
            };
            assert(outcome_view(delta) == child_diff(name@, e1@, other@, accuracy@));
            // check if there is a difference between the compared entries
            match delta {
                Ok(Some(delta)) => {
                    let ghost before = deltas_view(entries@);
                    entries.push((name, delta));
                    assert(deltas_view(entries@) == before.push((name@, delta@)));
                },
                Ok(None) => {},
                Err(error) => {
                    proof {
                        lemma_children_diff_fails(children, seen + 1, other@, accuracy@);
                    }
                    return Err(error);
                },
            }
            i += 1;
            proof {
                seen = seen + 1;
            }
        }
        assert(children.take(seen) == children);
        // if no entries have been stored it means the given directories have
        // no differences
        if entries.len() == 0 {
            Ok(None)
        } else {
            Ok(Some(DirDelta::new(self, other, entries)))
        }
    }
}

impl Entry {
    /// Compares self with another entry.  Fails with `MismatchedEntryTypes`
    /// where a file meets a directory.
    pub fn cmp<'a>(&'a self, other: &'a Entry, accuracy: &Span) -> (found: Result<
        Option<EntryDelta<'a>>,
        Error,
    >)
        ensures
            outcome_view(found) == diff(self@, other@, accuracy@),
            found matches Ok(Some(delta)) ==> delta@.keyed() && delta@.differs(),
        decreases self@, 1int,
    {
        match self {
            Entry::Dir(dir) => {
                proof {
                    use_type_invariant(dir);
                }
            },
            Entry::File(_) => {},
        }
        proof {
            lemma_diff_keyed(self@, other@, accuracy@);
            lemma_diff_differs(self@, other@, accuracy@);
        }
        match (self, other) {
            (Entry::Dir(dir1), Entry::Dir(dir2)) => match dir1.cmp(dir2, accuracy) {
                Ok(Some(delta)) => Ok(Some(EntryDelta::Dir(delta))),
                Ok(None) => Ok(None),
                Err(error) => Err(error),
            },
            (Entry::File(f1), Entry::File(f2)) => match f1.cmp(f2, accuracy) {
                Ok(Some(delta)) => Ok(Some(EntryDelta::File(delta))),
                Ok(None) => Ok(None),
                Err(error) => Err(error),
            },
            _ => Err(Error::MismatchedEntryTypes),
        }
    }
}

} // verus!
