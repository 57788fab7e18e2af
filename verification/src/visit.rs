//! The tree builder: from what the file system said of a directory to the
//! tree of its entries, with what the ignore filter matches left out.
use crate::entry::{
    children_wf, lemma_put_wf, moment, DirEntry, DirView, Entry, EntryView, FileEntry, FileView,
};
use crate::error::Error;
use crate::filter::{kept_globs, lines_view, FilterView, IgnoreFilter};
use crate::listing::Listing;
use crate::names::{lemma_lookup_put, lookup, put};
use crate::path::{file_name_of, path_file_name};
use vstd::prelude::*;

verus! {

/// How far a visit came: the children found so far, and the error that
/// stopped it, if one did.
pub struct Visit {
    pub entries: Seq<(Seq<char>, EntryView)>,
    pub error: Option<Error>,
}

/// What a filter handed to a visit stands for.
pub open spec fn filter_view(filter: Option<&IgnoreFilter>) -> Option<FilterView> {
    match filter {
        Some(filter) => Some(filter@),
        None => None,
    }
}

/// The file entry of a listing: the listing must be that of a regular file.
pub open spec fn file_of(listing: Listing) -> Result<FileView, Error> {
    match listing {
        Listing::File { path, modified } => Ok(
            FileView { path: path@, modified: moment(modified) },
        ),
        _ => Err(Error::NotAFile),
    }
}

/// The entry of a listed directory or file: the tree built from the listing
/// of a directory, and the file of any other listing.
pub open spec fn entry_of(listed: Listing, ignore: bool) -> Result<EntryView, Error>
    decreases listed, 4int,
{
    if listed is Directory {
        tree_of(listed, ignore)
    } else {
        match file_of(listed) {
            Ok(file) => Ok(EntryView::File(file)),
            Err(error) => Err(error),
        }
    }
}

/// The visit of one listed child after `entries` were found.  A child that
/// the filter matches is passed over, and so is one that is neither a
/// directory nor a regular file.  Any other child must have a name, under
/// which its entry is put; a directory below has a filter of its own if this
/// directory has one.
pub open spec fn visit_one(
    entries: Seq<(Seq<char>, EntryView)>,
    listed: Listing,
    filter: Option<FilterView>,
) -> Visit
    decreases listed, 5int,
{
    if filter is Some && filter.unwrap().ignores(listed.spec_path(), listed is Directory) {
        Visit { entries, error: None }
    } else if listed is Other {
        Visit { entries, error: None }
    } else {
        match path_file_name(listed.spec_path()) {
            None => Visit { entries, error: Some(Error::FilenameError) },
            Some(name) => match entry_of(listed, filter is Some) {
                Ok(entry) => Visit { entries: put(entries, name, entry), error: None },
                Err(error) => Visit { entries, error: Some(error) },
            },
        }
    }
}

/// The visit of the listed children in their order after `entries` were
/// found.  It stops at the first child that fails.
pub open spec fn visit_all(
    entries: Seq<(Seq<char>, EntryView)>,
    listed: Seq<Listing>,
    filter: Option<FilterView>,
) -> Visit
    decreases listed, 0int,
{
    if listed.len() == 0 {
        Visit { entries, error: None }
    } else {
        let before = visit_all(entries, listed.drop_last(), filter);
        if before.error is Some {
            before
        } else {
            visit_one(before.entries, listed.last(), filter)
        }
    }
}

/// The visit of the directory that `listing` is of, after `entries` were
/// found.  A listing that holds no children, because it is of no directory
/// or because the directory could not be listed, fails with `ReadError`.
pub open spec fn visited(
    entries: Seq<(Seq<char>, EntryView)>,
    listing: Listing,
    filter: Option<FilterView>,
) -> Visit
    decreases listing, 1int,
{
    match listing {
        Listing::Directory { children: Some(children), .. } => visit_all(
            entries,
            children@,
            filter,
        ),
        _ => Visit { entries, error: Some(Error::ReadError) },
    }
}

/// The filter of the directory that `listing` is of: that of its ignore
/// file where `ignore` is set, and none where it is not.
pub open spec fn own_filter(listing: Listing, ignore: bool) -> Option<FilterView> {
    match listing {
        Listing::Directory { path, ignore_lines, .. } if ignore => Some(
            FilterView { root: path@, lines: lines_view(ignore_lines@) },
        ),
        _ => None,
    }
}

/// The directory entry built from `listing`.  With `ignore` set, the
/// children are filtered by the ignore file of the directory, and those of
/// each directory below it by that directory's own.
pub open spec fn dir_of(listing: Listing, ignore: bool) -> Result<DirView, Error>
    decreases listing, 2int,
{
    match listing {
        Listing::Directory { path, .. } => {
            let visit = visited(Seq::empty(), listing, own_filter(listing, ignore));
            match visit.error {
                Some(error) => Err(error),
                None => Ok(DirView { path: path@, children: visit.entries }),
            }
        },
        _ => Err(Error::NotADirectory),
    }
}

/// The entry built from the listing of a directory.
pub open spec fn tree_of(listing: Listing, ignore: bool) -> Result<EntryView, Error>
    decreases listing, 3int,
{
    match dir_of(listing, ignore) {
        Ok(dir) => Ok(EntryView::Dir(dir)),
        Err(error) => Err(error),
    }
}

/// What the outcome of building an entry stands for.
pub open spec fn built_view<T: View>(built: Result<T, Error>) -> Result<T::V, Error> {
    match built {
        Ok(entry) => Ok(entry@),
        Err(error) => Err(error),
    }
}

impl FileEntry {
    /// Creates a new file entry.  Fails with `NotAFile` where the listing is
    /// not that of a regular file.
    pub fn new(listing: &Listing) -> (built: Result<FileEntry, Error>)
        ensures
            built_view(built) == file_of(*listing),
    {
        match listing {
            Listing::File { path, modified } => Ok(FileEntry::at(path.clone(), *modified)),
            _ => Err(Error::NotAFile),
        }
    }
}

impl DirEntry {
    /// Creates a new directory entry by visiting it.  If the `ignore` flag is
    /// set, the lines of the ignore file of the directory are compiled to
    /// leave out all the files and folders they match.  Fails with
    /// `NotADirectory` where the listing is not that of a directory.
    pub fn new(listing: &Listing, ignore: bool) -> (built: Result<DirEntry, Error>)
        ensures
            built_view(built) == dir_of(*listing, ignore),
            built matches Ok(dir) ==> dir@.wf(),
        decreases listing, 2int,
    {
        match listing {
            Listing::Directory { path, children, ignore_lines } => {
                let mut entry = DirEntry::empty(path.clone());
                let filter = if ignore {
                    Some(IgnoreFilter::new(path.as_str(), ignore_lines))
                } else {
                    None
                };
                match entry.visit(listing, filter.as_ref()) {
                    Ok(()) => {
                        proof {
                            use_type_invariant(&entry);
                        }
                        Ok(entry)
                    },
                    Err(error) => Err(error),
                }
            },
            _ => Err(Error::NotADirectory),
        }
    }

    /// Visit and populate the directory entry from the listing of its
    /// directory.  The children that `filter` matches are left out.  What was
    /// found before an error stays in the entry.
    pub fn visit(&mut self, listing: &Listing, filter: Option<&IgnoreFilter>) -> (outcome: Result<
        (),
        Error,
    >)
        ensures
            final(self)@ == (DirView {
                path: old(self)@.path,
                children: visited(old(self)@.children, *listing, filter_view(filter)).entries,
            }),
            match outcome {
                Ok(()) => visited(old(self)@.children, *listing, filter_view(filter)).error is None,
                Err(error) => visited(old(self)@.children, *listing, filter_view(filter)).error
                    == Some(error),
            },
            final(self)@.wf(),
        decreases listing, 1int,
    {
        proof {
            use_type_invariant(&*self);
        }
        let children = match listing {
            Listing::Directory { children: Some(children), .. } => children,
            _ => {
                return Err(Error::ReadError);
            },
        };
        let ghost start = self@.children;
        let ghost rules = filter_view(filter);
        let mut i: usize = 0;
        assert(children@.take(0) == Seq::<Listing>::empty());
        while i < children.len()
            invariant
                i <= children.len(),
                *listing is Directory,
                listing->Directory_children == Some(*children),
                rules == filter_view(filter),
                self@.path == old(self)@.path,
                start == old(self)@.children,
                visit_all(start, children@.take(i as int), rules) == (Visit {
                    entries: self@.children,
                    error: None,
                }),
            decreases children.len() - i,
        {
            let child = &children[i];
            proof {
                assert(children@.take(i + 1).drop_last() == children@.take(i as int));
                assert(children@.take(i + 1).last() == *child);
            }
            let ignored = match filter {
                Some(filter) => filter.matches(child.path().as_str(), child.is_dir()),
                None => false,
            };
            let outcome: Result<(), Error> = if ignored || !(child.is_dir() || child.is_file()) {
                Ok(())
            } else {
                match file_name_of(child.path().as_str()) {
                    None => Err(Error::FilenameError),
                    Some(name) => {
                        let built = if child.is_dir() {
                            // dfs with recursion, carry ignore settings into sub-directory
                            Entry::directory(child, filter.is_some())
                        } else {
                            match FileEntry::new(child) {
                                Ok(file) => Ok(Entry::File(file)),
                                Err(error) => Err(error),
                            }
                        };
                        assert(built_view(built) == entry_of(*child, filter is Some));
                        match built {
                            Ok(entry) => {
                                self.insert(name, entry);
                                Ok(())
                            },
                            Err(error) => Err(error),
                        }
                    },
                }
            };
            assert(visit_one(
                visit_all(start, children@.take(i as int), rules).entries,
                *child,
                rules,
            ) == (Visit {
                entries: self@.children,
                error: match outcome {
                    Ok(()) => None,
                    Err(error) => Some(error),
                },
            }));
            match outcome {
                Ok(()) => {},
                Err(error) => {
                    proof {
                        lemma_visit_fails(start, children@, i + 1, rules);
                        use_type_invariant(&*self);
                    }
                    return Err(error);
                },
            }
            i += 1;
        }
        assert(children@.take(i as int) == children@);
        proof {
            use_type_invariant(&*self);
        }
        Ok(())
    }
}

/// Whether a visit with `filter` takes the listed child in under `name`: the
/// filter does not match the child, the child bears the name, and it is a
/// directory or a regular file.
pub open spec fn taken_in(listed: Listing, filter: Option<FilterView>, name: Seq<char>) -> bool {
    &&& !(filter is Some && filter.unwrap().ignores(listed.spec_path(), listed is Directory))
    &&& path_file_name(listed.spec_path()) == Some(name)
    &&& !(listed is Other)
}

/// What a visit leaves under a name stood there before or was listed under
/// the name and not matched by the filter: nothing that the filter matches
/// comes into a tree.
pub proof fn lemma_visit_all_listed(
    entries: Seq<(Seq<char>, EntryView)>,
    listed: Seq<Listing>,
    filter: Option<FilterView>,
    name: Seq<char>,
)
    requires
        lookup(visit_all(entries, listed, filter).entries, name) is Some,
    ensures
        lookup(entries, name) is Some || exists|i: int|
            0 <= i < listed.len() && taken_in(#[trigger] listed[i], filter, name),
    decreases listed.len(),
{
    if listed.len() > 0 {
        let before = visit_all(entries, listed.drop_last(), filter);
        let child = listed.last();
        if lookup(before.entries, name) is Some {
            lemma_visit_all_listed(entries, listed.drop_last(), filter, name);
            if lookup(entries, name) is None {
                let i = choose|i: int|
                    0 <= i < listed.drop_last().len() && taken_in(
                        #[trigger] listed.drop_last()[i],
                        filter,
                        name,
                    );
                assert(listed[i] == listed.drop_last()[i]);
            }
        } else {
            let after = visit_one(before.entries, child, filter);
            assert(before.error is None);
            assert(visit_all(entries, listed, filter) == after);
            assert(!(filter is Some && filter.unwrap().ignores(
                child.spec_path(),
                child is Directory,
            )));
            lemma_lookup_put(
                before.entries,
                path_file_name(child.spec_path())->Some_0,
                entry_of(child, filter is Some)->Ok_0,
                name,
            );
            assert(taken_in(listed[listed.len() - 1], filter, name));
        }
    }
}

/// What a visit that succeeds leaves under a name stood there before or was
/// taken in under the name, and all that stood there before or was taken in
/// is there after it, in whatever order the children were listed.
pub proof fn lemma_visit_all_taken_in(
    entries: Seq<(Seq<char>, EntryView)>,
    listed: Seq<Listing>,
    filter: Option<FilterView>,
    name: Seq<char>,
)
    requires
        visit_all(entries, listed, filter).error is None,
    ensures
        lookup(visit_all(entries, listed, filter).entries, name) is Some <==> lookup(
            entries,
            name,
        ) is Some || exists|i: int|
            0 <= i < listed.len() && taken_in(#[trigger] listed[i], filter, name),
    decreases listed.len(),
{
    if lookup(visit_all(entries, listed, filter).entries, name) is Some {
        lemma_visit_all_listed(entries, listed, filter, name);
    }
    if listed.len() > 0 {
        let rest = listed.drop_last();
        let before = visit_all(entries, rest, filter);
        let child = listed.last();
        let after = visit_one(before.entries, child, filter);
        assert(before.error is None);
        assert(visit_all(entries, listed, filter) == after);
        lemma_visit_all_taken_in(entries, rest, filter, name);
        if after.entries != before.entries {
            lemma_lookup_put(
                before.entries,
                path_file_name(child.spec_path())->Some_0,
                entry_of(child, filter is Some)->Ok_0,
                name,
            );
        }
        if exists|i: int| 0 <= i < listed.len() && taken_in(#[trigger] listed[i], filter, name) {
            let i = choose|i: int|
                0 <= i < listed.len() && taken_in(#[trigger] listed[i], filter, name);
            if i < rest.len() {
                assert(rest[i] == listed[i]);
                assert(taken_in(rest[i], filter, name));
                assert(lookup(before.entries, name) is Some);
            } else {
                assert(taken_in(child, filter, name));
                assert(after.entries == put(
                    before.entries,
                    name,
                    entry_of(child, filter is Some)->Ok_0,
                ));
                lemma_lookup_put(
                    before.entries,
                    name,
                    entry_of(child, filter is Some)->Ok_0,
                    name,
                );
            }
            assert(lookup(after.entries, name) is Some);
        }
    }
}

/// The children of a directory entry that is built from a listing are those
/// that were listed and taken in: a file that the filter of the directory
/// does not match stands in the tree under its name, and a name whose every
/// bearer the filter matches stands in no tree.
pub proof fn lemma_dir_of_children(listing: Listing, ignore: bool, name: Seq<char>)
    requires
        dir_of(listing, ignore) is Ok,
    ensures
        listing matches Listing::Directory { children: Some(children), .. } && (dir_of(
            listing,
            ignore,
        )->Ok_0.child(name) is Some <==> exists|i: int|
            0 <= i < children@.len() && taken_in(
                #[trigger] children@[i],
                own_filter(listing, ignore),
                name,
            )),
{
    match listing {
        Listing::Directory { children: Some(children), .. } => {
            lemma_visit_all_taken_in(Seq::empty(), children@, own_filter(listing, ignore), name);
        },
        _ => {},
    }
}

/// No directory of the listing keeps a pattern: none has an ignore file, or
/// no line of its ignore file is a pattern.
pub open spec fn patternless(listing: Listing) -> bool
    decreases listing,
{
    match listing {
        Listing::Directory { children, ignore_lines, .. } => {
            &&& kept_globs(lines_view(ignore_lines@)).len() == 0
            &&& children matches Some(children) ==> forall|i: int|
                0 <= i < children@.len() ==> patternless(#[trigger] children@[i])
        },
        _ => true,
    }
}

/// Where no directory keeps a pattern, the tree is the same whether the
/// ignore files are heeded or not: nothing is left out, and nothing fails on
/// account of an ignore file.
pub proof fn lemma_dir_of_patternless(listing: Listing)
    requires
        patternless(listing),
    ensures
        dir_of(listing, true) == dir_of(listing, false),
        tree_of(listing, true) == tree_of(listing, false),
    decreases listing, 2int,
{
    match listing {
        Listing::Directory { children: Some(children), .. } => {
            lemma_visit_all_patternless(
                Seq::empty(),
                children@,
                own_filter(listing, true)->Some_0,
            );
        },
        _ => {},
    }
}

/// A visit with a filter that keeps no pattern, of children below which no
/// directory keeps one, is the visit without a filter.
pub proof fn lemma_visit_all_patternless(
    entries: Seq<(Seq<char>, EntryView)>,
    listed: Seq<Listing>,
    filter: FilterView,
)
    requires
        filter.globs().len() == 0,
        forall|i: int| 0 <= i < listed.len() ==> patternless(#[trigger] listed[i]),
    ensures
        visit_all(entries, listed, Some(filter)) == visit_all(entries, listed, None),
    decreases listed, 0int,
{
    if listed.len() > 0 {
        let rest = listed.drop_last();
        assert forall|i: int| 0 <= i < rest.len() implies patternless(#[trigger] rest[i]) by {
            assert(rest[i] == listed[i]);
        }
        lemma_visit_all_patternless(entries, rest, filter);
        let child = listed.last();
        let before = visit_all(entries, rest, None);
        assert(patternless(listed[listed.len() - 1]));
        lemma_dir_of_patternless(child);
        assert(!filter.ignores(child.spec_path(), child is Directory));
        assert(entry_of(child, true) == entry_of(child, false));
        assert(visit_one(before.entries, child, Some(filter)) == visit_one(
            before.entries,
            child,
            None,
        ));
    }
}

/// A visit leaves well-formed children well formed, whether it fails or not.
pub proof fn lemma_visit_all_wf(
    entries: Seq<(Seq<char>, EntryView)>,
    listed: Seq<Listing>,
    filter: Option<FilterView>,
)
    requires
        children_wf(entries),
    ensures
        children_wf(visit_all(entries, listed, filter).entries),
    decreases listed, 0int,
{
    if listed.len() > 0 {
        lemma_visit_all_wf(entries, listed.drop_last(), filter);
        let before = visit_all(entries, listed.drop_last(), filter);
        if before.error is None {
            let child = listed.last();
            let after = visit_one(before.entries, child, filter);
            assert(visit_all(entries, listed, filter) == after);
            if after.entries != before.entries {
                let name = path_file_name(child.spec_path())->Some_0;
                let entry = entry_of(child, filter is Some)->Ok_0;
                if child is Directory {
                    lemma_dir_of_wf(child, filter is Some);
                }
                lemma_put_wf(before.entries, name, entry);
            }
        }
    }
}

/// Every directory entry that is built from a listing is well formed.
pub proof fn lemma_dir_of_wf(listing: Listing, ignore: bool)
    ensures
        dir_of(listing, ignore) matches Ok(dir) ==> dir.wf() && dir.path == listing.spec_path(),
    decreases listing, 2int,
{
    match listing {
        Listing::Directory { children: Some(children), .. } => {
            lemma_visit_all_wf(Seq::empty(), children@, own_filter(listing, ignore));
        },
        _ => {},
    }
}

/// A visit that failed among the first children is the visit of all of them.
pub proof fn lemma_visit_fails(
    entries: Seq<(Seq<char>, EntryView)>,
    listed: Seq<Listing>,
    first: int,
    filter: Option<FilterView>,
)
    requires
        0 <= first <= listed.len(),
        visit_all(entries, listed.take(first), filter).error is Some,
    ensures
        visit_all(entries, listed, filter) == visit_all(entries, listed.take(first), filter),
    decreases listed.len() - first,
{
    if first == listed.len() {
        assert(listed.take(first) == listed);
    } else {
        assert(listed.take(first + 1).drop_last() == listed.take(first));
        lemma_visit_fails(entries, listed, first + 1, filter);
    }
}

impl Entry {
    /// Creates a new entry that represents a directory and populates its
    /// entries by visiting it.
    pub fn directory(listing: &Listing, ignore: bool) -> (built: Result<Entry, Error>)
        ensures
            built_view(built) == tree_of(*listing, ignore),
            built matches Ok(entry) ==> entry@.wf(),
        decreases listing, 3int,
    {
        match DirEntry::new(listing, ignore) {
            Ok(dir) => Ok(Entry::Dir(dir)),
            Err(error) => Err(error),
        }
    }

    /// Creates a new entry that represents a directory and populates its
    /// entries by visiting it, with nothing left out.
    pub fn new_dir(listing: &Listing) -> (built: Result<Entry, Error>)
        ensures
            built_view(built) == tree_of(*listing, false),
            built matches Ok(entry) ==> entry@.wf(),
    {
        Entry::directory(listing, false)
    }
}

} // verus!
