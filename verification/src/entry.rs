//! The tree of a directory as it is held in memory: files as leaves,
//! directories with their children by name.
use crate::error::Error;
use crate::names::{
    distinct_names, lemma_position, lemma_position_at, lemma_position_none, lookup, position, put,
};
use crate::path::{file_name_of, path_file_name};
use crate::span::Span;
use vstd::prelude::*;

verus! {

/// What a file entry stands for: the path of a regular file and the moment it
/// was last modified, in nanoseconds since the Unix epoch; `None` where the
/// file system would not tell.
pub struct FileView {
    pub path: Seq<char>,
    pub modified: Option<nat>,
}

/// What a directory entry stands for: the path of a directory and its
/// children, each under its name, in the order in which they were found.
pub struct DirView {
    pub path: Seq<char>,
    pub children: Seq<(Seq<char>, EntryView)>,
}

/// What an entry stands for.
pub enum EntryView {
    Dir(DirView),
    File(FileView),
}

impl FileView {
    /// The path of the file has a final component: its name.
    pub open spec fn wf(self) -> bool {
        path_file_name(self.path) is Some
    }
}

impl DirView {
    /// The child under `name`.
    pub open spec fn child(self, name: Seq<char>) -> Option<EntryView> {
        lookup(self.children, name)
    }

    /// The directory is as a scan of the file system leaves it: its children
    /// are well formed.
    pub open spec fn wf(self) -> bool
        decreases self, 1int,
    {
        children_wf(self.children)
    }

    /// The time of the last modification is known of every file below the
    /// directory.
    pub open spec fn timed(self) -> bool
        decreases self, 1int,
    {
        forall|i: int| 0 <= i < self.children.len() ==> (#[trigger] self.children[i]).1.timed()
    }
}

impl EntryView {
    /// The path of the entry.
    pub open spec fn path(self) -> Seq<char> {
        match self {
            EntryView::Dir(dir) => dir.path,
            EntryView::File(file) => file.path,
        }
    }

    /// The final component of the entry's path, if it has one.
    pub open spec fn file_name(self) -> Option<Seq<char>> {
        path_file_name(self.path())
    }

    /// The entry is as a scan of the file system leaves it: a file has a
    /// name, and a directory is well formed.
    pub open spec fn wf(self) -> bool
        decreases self, 0int,
    {
        match self {
            EntryView::Dir(dir) => dir.wf(),
            EntryView::File(file) => file.wf(),
        }
    }

    /// The time of the last modification is known of every file of the
    /// tree.
    pub open spec fn timed(self) -> bool
        decreases self, 0int,
    {
        match self {
            EntryView::File(file) => file.modified is Some,
            EntryView::Dir(dir) => dir.timed(),
        }
    }
}

/// The children are as a scan of the file system leaves them: no two bear the
/// same name, each stands under the final component of its own path, and
/// each is well formed in turn.
pub open spec fn children_wf(children: Seq<(Seq<char>, EntryView)>) -> bool
    decreases children, 0int,
{
    &&& distinct_names(children)
    &&& forall|i: int|
        0 <= i < children.len() ==> {
            &&& (#[trigger] children[i]).1.file_name() == Some(children[i].0)
            &&& children[i].1.wf()
        }
}

/// Well-formed children stay so when a well-formed entry is put under the
/// final component of its own path.
pub proof fn lemma_put_wf(children: Seq<(Seq<char>, EntryView)>, name: Seq<char>, entry: EntryView)
    requires
        children_wf(children),
        entry.wf(),
        entry.file_name() == Some(name),
    ensures
        children_wf(put(children, name, entry)),
{
    lemma_position(children, name);
    let after = put(children, name, entry);
    match position(children, name) {
        Some(at) => {
            assert forall|i: int, j: int| 0 <= i < j < after.len() implies (#[trigger] after[i]).0
                != (#[trigger] after[j]).0 by {
                assert(after[i].0 == children[i].0);
                assert(after[j].0 == children[j].0);
            }
            assert forall|i: int| 0 <= i < after.len() implies {
                &&& (#[trigger] after[i]).1.file_name() == Some(after[i].0)
                &&& after[i].1.wf()
            } by {
                if i != at {
                    assert(after[i] == children[i]);
                }
            }
        },
        None => {
            assert forall|i: int, j: int| 0 <= i < j < after.len() implies (#[trigger] after[i]).0
                != (#[trigger] after[j]).0 by {
                assert(after[i] == children[i]);
                if j < children.len() {
                    assert(after[j] == children[j]);
                }
            }
            assert forall|i: int| 0 <= i < after.len() implies {
                &&& (#[trigger] after[i]).1.file_name() == Some(after[i].0)
                &&& after[i].1.wf()
            } by {
                if i < children.len() {
                    assert(after[i] == children[i]);
                }
            }
        },
    }
}

/// The moment that a span counted from the Unix epoch stands for, in
/// nanoseconds.
pub open spec fn moment(modified: Option<Span>) -> Option<nat> {
    match modified {
        Some(modified) => Some(modified@),
        None => None,
    }
}

/// Represents a file entry.
#[derive(Debug)]
pub struct FileEntry {
    path: String,
    modified: Option<Span>,
}

/// Represents the structure of a directory entry.
#[derive(Debug)]
pub struct DirEntry {
    path: String,
    entries: Vec<(String, Entry)>,
}

/// One object of the file system: a directory or a file.
#[derive(Debug)]
pub enum Entry {
    Dir(DirEntry),
    File(FileEntry),
}

impl View for FileEntry {
    type V = FileView;

    closed spec fn view(&self) -> FileView {
        FileView { path: self.path@, modified: moment(self.modified) }
    }
}

/// What the children of a directory entry stand for, each under its name.
spec fn children_of(entries: Seq<(String, Entry)>) -> Seq<(Seq<char>, EntryView)>
    decreases entries,
{
    Seq::new(
        entries.len(),
        |i: int|
            if 0 <= i < entries.len() {
                (entries[i].0@, entries[i].1.view())
            } else {
                arbitrary()
            },
    )
}

impl View for DirEntry {
    type V = DirView;

    closed spec fn view(&self) -> DirView
        decreases self,
    {
        DirView { path: self.path@, children: children_of(self.entries@) }
    }
}

impl View for Entry {
    type V = EntryView;

    open spec fn view(&self) -> EntryView
        decreases self,
    {
        match self {
            Entry::Dir(dir) => EntryView::Dir(dir.view()),
            Entry::File(file) => EntryView::File(file.view()),
        }
    }
}

impl FileEntry {
    /// The file at `path`, last modified at `modified`.
    pub(crate) fn at(path: String, modified: Option<Span>) -> (file: FileEntry)
        ensures
            file@ == (FileView { path: path@, modified: moment(modified) }),
    {
        FileEntry { path, modified }
    }

    /// Gets the file path.
    pub fn path(&self) -> (path: &String)
        ensures
            path@ == self@.path,
    {
        &self.path
    }

    /// Gets the moment the file was last modified, counted from the Unix
    /// epoch, if it is known.
    pub fn modified(&self) -> (modified: Option<Span>)
        ensures
            moment(modified) == self@.modified,
    {
        self.modified
    }
}

impl DirEntry {
    /// Every directory entry is well formed: no two of its children bear the
    /// same name, each stands under the final component of its own path, and
    /// the same holds of every directory below it.
    #[verifier::type_invariant]
    pub open spec fn inv(&self) -> bool {
        self@.wf()
    }

    /// The directory at `path`, with nothing in it yet.
    pub(crate) fn empty(path: String) -> (dir: DirEntry)
        ensures
            dir@ == (DirView { path: path@, children: Seq::empty() }),
    {
        assert(children_of(Seq::<(String, Entry)>::empty()) =~= Seq::empty());
        DirEntry { path, entries: Vec::new() }
    }

    /// Gets the directory path.
    pub fn path(&self) -> (path: &String)
        ensures
            path@ == self@.path,
    {
        &self.path
    }

    /// The number of children.
    pub fn len(&self) -> (len: usize)
        ensures
            len == self@.children.len(),
    {
        self.entries.len()
    }

    /// The name of the child at `index`.
    pub fn name(&self, index: usize) -> (name: &String)
        requires
            index < self@.children.len(),
        ensures
            name@ == self@.children[index as int].0,
    {
        &self.entries[index].0
    }

    /// The child at `index`.
    pub fn entry(&self, index: usize) -> (entry: &Entry)
        requires
            index < self@.children.len(),
        ensures
            entry@ == self@.children[index as int].1,
    {
        &self.entries[index].1
    }

    /// Where the child named `name` stands, if there is one.
    pub fn find(&self, name: &String) -> (found: Option<usize>)
        ensures
            match found {
                Some(index) => position(self@.children, name@) == Some(index as int),
                None => position(self@.children, name@) is None,
            },
    {
        let mut i: usize = 0;
        while i < self.entries.len()
            invariant
                i <= self.entries.len(),
                self.entries.len() == self@.children.len(),
                forall|j: int| 0 <= j < i ==> (#[trigger] self@.children[j]).0 != name@,
            decreases self.entries.len() - i,
        {
            if self.entries[i].0 == *name {
                proof {
                    lemma_position_at(self@.children, name@, i as int);
                }
                return Some(i);
            }
            i += 1;
        }
        proof {
            lemma_position_none(self@.children, name@);
        }
        None
    }

    /// The child named `name`, if there is one.
    pub fn get(&self, name: &str) -> (entry: Option<&Entry>)
        ensures
            match entry {
                Some(entry) => self@.child(name@) == Some(entry@),
                None => self@.child(name@) is None,
            },
    {
        let name = String::from_str(name);
        proof {
            lemma_position(self@.children, name@);
        }
        match self.find(&name) {
            Some(index) => Some(&self.entries[index].1),
            None => None,
        }
    }

    /// Puts `entry` under `name`, the final component of its path: in the
    /// place of the child that bore the name, or after the other children
    /// where none did.
    pub(crate) fn insert(&mut self, name: String, entry: Entry)
        requires
            entry@.file_name() == Some(name@),
        ensures
            final(self)@ == (DirView {
                path: old(self)@.path,
                children: put(old(self)@.children, name@, entry@),
            }),
    {
        let ghost before = self@.children;
        let ghost held = self.entries@;
        match &entry {
            Entry::Dir(dir) => {
                proof {
                    use_type_invariant(dir);
                }
            },
            Entry::File(_) => {},
        }
        proof {
            use_type_invariant(&*self);
            lemma_position(before, name@);
            lemma_put_wf(before, name@, entry@);
        }
        let found = self.find(&name);
        // the children are taken out, changed and put back
        let mut entries: Vec<(String, Entry)> = Vec::new();
        assert(children_of(entries@) =~= Seq::empty());
        std::mem::swap(&mut self.entries, &mut entries);
        match found {
            Some(index) => {
                assert(children_of(held.update(index as int, (name, entry))) =~= before.update(
                    index as int,
                    (name@, entry@),
                ));
                entries[index] = (name, entry);
            },
            None => {
                assert(children_of(held.push((name, entry))) =~= before.push((name@, entry@)));
                entries.push((name, entry));
            },
        }
        std::mem::swap(&mut self.entries, &mut entries);
    }
}

impl Entry {
    /// Gets the path of the entry.
    pub fn path(&self) -> (path: &String)
        ensures
            path@ == self@.path(),
    {
        match self {
            Entry::Dir(dir) => dir.path(),
            Entry::File(file) => file.path(),
        }
    }

    /// Gets the filename of the entry: the final component of its path.
    /// Fails with `FilenameError` where the path has none.
    pub fn file_name(&self) -> (name: Result<String, Error>)
        ensures
            match name {
                Ok(name) => self@.file_name() == Some(name@),
                Err(error) => error == Error::FilenameError && self@.file_name() is None,
            },
    {
        match file_name_of(self.path().as_str()) {
            Some(name) => Ok(name),
            None => Err(Error::FilenameError),
        }
    }
}

} // verus!
