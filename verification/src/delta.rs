//! What a comparison of two trees finds: for each name of the source, what
//! the destination lacks or holds in another state.
use crate::entry::{DirEntry, DirView, Entry, EntryView, FileEntry, FileView};
use crate::names::{distinct_names, lemma_position_at, lemma_position_none, lookup};
use crate::error::Error;
use vstd::prelude::*;

verus! {

/// How the source of a file comparison stands to the destination in time.
#[derive(Clone, Copy, Debug, PartialEq, Eq, Structural)]
pub enum FileTimeDelta {
    /// The source was modified before the destination.
    Older,
    /// The source was modified after the destination.
    Newer,
}

/// What a file delta stands for.
pub struct FileDeltaView {
    pub source: FileView,
    pub dest: FileView,
    pub diff: FileTimeDelta,
}

/// What a directory delta stands for: the two directories and, under the name
/// of each child of the source that differs, what the difference is.
pub struct DirDeltaView {
    pub source: DirView,
    pub dest: DirView,
    pub entries: Seq<(Seq<char>, DeltaView)>,
}

/// What an entry delta stands for.
pub enum DeltaView {
    /// Two directories differ in some of their children.
    Dir(DirDeltaView),
    /// Two files differ in time by more than the accuracy.
    File(FileDeltaView),
    /// The destination has nothing where the source has `entry`; `path` is
    /// the place that the entry would take in the destination.
    NotFound { entry: EntryView, path: Seq<char> },
}

impl DirDeltaView {
    /// The delta under `name`.
    pub open spec fn child(self, name: Seq<char>) -> Option<DeltaView> {
        lookup(self.entries, name)
    }
}

impl DeltaView {
    /// The delta reports differences only: every directory delta in it holds
    /// at least one entry.
    pub open spec fn differs(self) -> bool
        decreases self,
    {
        match self {
            DeltaView::Dir(delta) => {
                &&& delta.entries.len() > 0
                &&& forall|i: int|
                    0 <= i < delta.entries.len() ==> (#[trigger] delta.entries[i]).1.differs()
            },
            _ => true,
        }
    }
}

impl DeltaView {
    /// The entries of every directory delta in the delta stand under names
    /// of their own: no name is borne twice.
    pub open spec fn keyed(self) -> bool
        decreases self,
    {
        match self {
            DeltaView::Dir(delta) => {
                &&& distinct_names(delta.entries)
                &&& forall|i: int|
                    0 <= i < delta.entries.len() ==> (#[trigger] delta.entries[i]).1.keyed()
            },
            _ => true,
        }
    }
}

/// Represents the delta between the file entry it points to and the file
/// entry it has been compared to.
#[derive(Debug)]
pub struct FileDelta<'a> {
    source: &'a FileEntry,
    dest: &'a FileEntry,
    diff: FileTimeDelta,
}

/// Represents the delta between the directory entry it points to and the
/// directory entry it has been compared to.
#[derive(Debug)]
pub struct DirDelta<'a> {
    source: &'a DirEntry,
    dest: &'a DirEntry,
    entries: Vec<(&'a String, EntryDelta<'a>)>,
}

/// The delta between an entry of the source and what the destination has
/// under the same name.
#[derive(Debug)]
pub enum EntryDelta<'a> {
    Dir(DirDelta<'a>),
    File(FileDelta<'a>),
    /// `entry` was not found at `path`.
    NotFound { entry: &'a Entry, path: String },
}

/// What the outcome of a comparison stands for: the view of the delta where
/// there is one, and the error as it is.
pub open spec fn outcome_view<T: View>(outcome: Result<Option<T>, Error>) -> Result<
    Option<T::V>,
    Error,
> {
    match outcome {
        Ok(Some(delta)) => Ok(Some(delta@)),
        Ok(None) => Ok(None),
        Err(error) => Err(error),
    }
}

/// The deltas of `entries`, each under its name.
pub open spec fn deltas_view<'a>(entries: Seq<(&'a String, EntryDelta<'a>)>) -> Seq<
    (Seq<char>, DeltaView),
>
    decreases entries,
{
    Seq::new(
        entries.len(),
        |i: int|
            if 0 <= i < entries.len() {
                (entries[i].0@, entries[i].1.view())
            } else {
                arbitrary()
            },
    )
}

impl<'a> View for FileDelta<'a> {
    type V = FileDeltaView;

    closed spec fn view(&self) -> FileDeltaView {
        FileDeltaView { source: self.source@, dest: self.dest@, diff: self.diff }
    }
}

impl<'a> View for DirDelta<'a> {
    type V = DirDeltaView;

    closed spec fn view(&self) -> DirDeltaView
        decreases self,
    {
        DirDeltaView {
            source: self.source@,
            dest: self.dest@,
            entries: deltas_view(self.entries@),
        }
    }
}

impl<'a> View for EntryDelta<'a> {
    type V = DeltaView;

    open spec fn view(&self) -> DeltaView
        decreases self,
    {
        match self {
            EntryDelta::Dir(delta) => DeltaView::Dir(delta.view()),
            EntryDelta::File(delta) => DeltaView::File(delta.view()),
            EntryDelta::NotFound { entry, path } => DeltaView::NotFound {
                entry: entry@,
                path: path@,
            },
        }
    }
}

impl<'a> FileDelta<'a> {
    /// Creates a new file delta from the given entries.
    pub fn new(source: &'a FileEntry, dest: &'a FileEntry, diff: FileTimeDelta) -> (delta: Self)
        ensures
            delta@ == (FileDeltaView { source: source@, dest: dest@, diff }),
    {
        FileDelta { source, dest, diff }
    }

    /// Returns true only if the source is newer than destination.
    pub fn is_newer(&self) -> (newer: bool)
        ensures
            newer == (self@.diff == FileTimeDelta::Newer),
    {
        self.diff == FileTimeDelta::Newer
    }

    /// Gets how the source stands to the destination in time.
    pub fn diff(&self) -> (diff: FileTimeDelta)
        ensures
            diff == self@.diff,
    {
        self.diff
    }

    /// Gets the source file entry.
    pub fn source(&self) -> (source: &'a FileEntry)
        ensures
            source@ == self@.source,
    {
        self.source
    }

    /// Gets the destination file entry.
    pub fn destination(&self) -> (dest: &'a FileEntry)
        ensures
            dest@ == self@.dest,
    {
        self.dest
    }
}

impl<'a> DirDelta<'a> {
    /// Every directory delta holds its entries under names of their own, as
    /// a map does, and so does every directory delta in it.
    #[verifier::type_invariant]
    pub open spec fn inv(&self) -> bool {
        DeltaView::Dir(self@).keyed()
    }

    /// Creates a new directory difference from the given entries, which
    /// stand under names of their own.
    pub fn new(
        source: &'a DirEntry,
        dest: &'a DirEntry,
        entries: Vec<(&'a String, EntryDelta<'a>)>,
    ) -> (delta: Self)
        requires
            DeltaView::Dir(
                DirDeltaView { source: source@, dest: dest@, entries: deltas_view(entries@) },
            ).keyed(),
        ensures
            delta@ == (DirDeltaView {
                source: source@,
                dest: dest@,
                entries: deltas_view(entries@),
            }),
    {
        DirDelta { source, dest, entries }
    }

    /// Returns true only if there is no delta between the source and
    /// destination.
    pub fn is_none(&self) -> (none: bool)
        ensures
            none == (self@.entries.len() == 0),
    {
        self.entries.len() == 0
    }

    /// Gets the deltas of the directory entries, each with the name of the
    /// entry, in the order of the source.
    pub fn entries(&self) -> (entries: &Vec<(&'a String, EntryDelta<'a>)>)
        ensures
            deltas_view(entries@) == self@.entries,
    {
        &self.entries
    }

    /// Gets the source directory entry.
    pub fn source(&self) -> (source: &'a DirEntry)
        ensures
            source@ == self@.source,
    {
        self.source
    }

    /// Gets the destination directory entry.
    pub fn destination(&self) -> (dest: &'a DirEntry)
        ensures
            dest@ == self@.dest,
    {
        self.dest
    }

    /// The delta of the entry named `name`, if the entry differs.
    pub fn get(&self, name: &str) -> (delta: Option<&EntryDelta<'a>>)
        ensures
            match delta {
                Some(delta) => self@.child(name@) == Some(delta@),
                None => self@.child(name@) is None,
            },
    {
        let wanted = String::from_str(name);
        let ghost entries = self@.entries;
        let mut i: usize = 0;
        while i < self.entries.len()
            invariant
                i <= self.entries.len(),
                wanted@ == name@,
                entries == self@.entries,
                entries == deltas_view(self.entries@),
                forall|j: int| 0 <= j < i ==> (#[trigger] entries[j]).0 != name@,
            decreases self.entries.len() - i,
        {
            assert(entries[i as int] == (self.entries@[i as int].0@, self.entries@[i as int].1@));
            if *self.entries[i].0 == wanted {
                proof {
                    lemma_position_at(entries, name@, i as int);
                }
                return Some(&self.entries[i].1);
            }
            i += 1;
        }
        proof {
            lemma_position_none(entries, name@);
        }
        None
    }
}

} // verus!
