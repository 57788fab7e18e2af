use bkup::{update, DirEntry, Entry, Error, FileEntry, Listing, Span};

fn accuracy() -> Span {
    Span::from_millis(2000)
}

fn file(path: &str, modified_ms: u64) -> Listing {
    Listing::File { path: path.to_string(), modified: Some(Span::from_millis(modified_ms)) }
}

fn dir(path: &str, children: Vec<Listing>) -> Listing {
    Listing::Directory {
        path: path.to_string(),
        children: Some(children),
        ignore_lines: Vec::new(),
    }
}

fn error_of<T>(outcome: Result<T, Error>) -> Error {
    match outcome {
        Ok(_) => panic!("an error was expected"),
        Err(error) => error,
    }
}

#[test]
fn root_that_is_no_directory_is_refused() {
    assert_eq!(error_of(DirEntry::new(&file("/source", 1), false)), Error::NotADirectory);
    let missing = Listing::Other { path: "/source".to_string() };
    assert_eq!(error_of(Entry::directory(&missing, true)), Error::NotADirectory);
    assert_eq!(error_of(Entry::new_dir(&missing)), Error::NotADirectory);
}

#[test]
fn file_entry_of_no_file_is_refused() {
    assert_eq!(error_of(FileEntry::new(&dir("/source", vec![]))), Error::NotAFile);
    let missing = Listing::Other { path: "/source/x".to_string() };
    assert_eq!(error_of(FileEntry::new(&missing)), Error::NotAFile);
}

#[test]
fn directory_that_cannot_be_listed_is_a_read_error() {
    let unlisted = Listing::Directory {
        path: "/source".to_string(),
        children: None,
        ignore_lines: Vec::new(),
    };
    assert_eq!(error_of(DirEntry::new(&unlisted, false)), Error::ReadError);
    let below = dir(
        "/source",
        vec![Listing::Directory {
            path: "/source/sub".to_string(),
            children: None,
            ignore_lines: Vec::new(),
        }],
    );
    assert_eq!(error_of(DirEntry::new(&below, false)), Error::ReadError);
}

#[test]
fn file_without_a_readable_time_cannot_be_compared() {
    let unread = Listing::File { path: "/source/x".to_string(), modified: None };
    let unread = FileEntry::new(&unread).expect("Cannot create FileEntry");
    assert_eq!(unread.modified(), None);
    let read = FileEntry::new(&file("/dest/x", 1)).expect("Cannot create FileEntry");
    assert_eq!(error_of(unread.cmp(&read, &accuracy())), Error::ReadError);
    assert_eq!(error_of(read.cmp(&unread, &accuracy())), Error::ReadError);
    assert_eq!(error_of(unread.cmp(&unread, &accuracy())), Error::ReadError);
}

#[test]
fn file_without_a_readable_time_is_copied_where_it_is_missing() {
    let source = dir(
        "/source",
        vec![Listing::File { path: "/source/x".to_string(), modified: None }, file("/source/y", 1)],
    );
    let plan = update(&source, &dir("/dest", vec![]), &accuracy(), false).expect("Cannot update");
    assert_eq!(plan.len(), 2);
    // it fails the comparison where the destination has it
    let dest = dir("/dest", vec![file("/dest/x", 1)]);
    assert_eq!(error_of(update(&source, &dest, &accuracy(), false)), Error::ReadError);
}

#[test]
fn a_missing_name_is_reported_before_a_missing_time() {
    let nameless = Listing::File { path: "/source/..".to_string(), modified: None };
    let nameless = FileEntry::new(&nameless).expect("Cannot create FileEntry");
    assert_eq!(error_of(nameless.cmp(&nameless, &accuracy())), Error::FilenameError);
}

#[test]
fn visit_of_no_directory_is_a_read_error() {
    let mut entry = DirEntry::new(&dir("/source", vec![]), false).expect("Cannot create DirEntry");
    assert_eq!(error_of(entry.visit(&file("/source", 1), None)), Error::ReadError);
    assert_eq!(entry.len(), 0);
}

#[test]
fn visit_keeps_what_it_found_before_an_error() {
    let mut entry = DirEntry::new(&dir("/source", vec![]), false).expect("Cannot create DirEntry");
    let listing = dir(
        "/source",
        vec![
            file("/source/a", 1),
            Listing::Directory {
                path: "/source/b".to_string(),
                children: None,
                ignore_lines: Vec::new(),
            },
            file("/source/c", 1),
        ],
    );
    assert_eq!(error_of(entry.visit(&listing, None)), Error::ReadError);
    assert_eq!(entry.len(), 1);
    assert_eq!(entry.name(0), "a");
}

#[test]
fn child_without_a_name_is_a_filename_error() {
    let listing = dir("/source", vec![file("/source/..", 1)]);
    assert_eq!(error_of(DirEntry::new(&listing, false)), Error::FilenameError);
    let listing = dir("/source", vec![dir("/", vec![])]);
    assert_eq!(error_of(DirEntry::new(&listing, false)), Error::FilenameError);
}

#[test]
fn entry_without_a_name_has_no_file_name() {
    let root = Entry::directory(&dir("/", vec![]), false).expect("Cannot create Entry");
    assert_eq!(error_of(root.file_name()), Error::FilenameError);
    let up = FileEntry::new(&file("/source/..", 1)).expect("Cannot create FileEntry");
    assert_eq!(error_of(Entry::File(up).file_name()), Error::FilenameError);
}

#[test]
fn files_without_names_cannot_be_compared() {
    let nameless = FileEntry::new(&file("/source/..", 1)).expect("Cannot create FileEntry");
    let named = FileEntry::new(&file("/source/x", 1)).expect("Cannot create FileEntry");
    assert_eq!(error_of(nameless.cmp(&named, &accuracy())), Error::FilenameError);
    assert_eq!(error_of(named.cmp(&nameless, &accuracy())), Error::FilenameError);
    assert!(named.cmp(&named, &accuracy()).expect("Cannot compare entries").is_none());
}

#[test]
fn file_cannot_be_compared_with_directory() {
    let source = Entry::directory(&dir("/source", vec![file("/source/x", 1)]), false)
        .expect("Cannot create Entry");
    let dest = Entry::directory(&dir("/dest", vec![dir("/dest/x", vec![])]), false)
        .expect("Cannot create Entry");
    assert_eq!(error_of(source.cmp(&dest, &accuracy())), Error::MismatchedEntryTypes);
    assert_eq!(error_of(dest.cmp(&source, &accuracy())), Error::MismatchedEntryTypes);

    let file = Entry::File(FileEntry::new(&file("/source/x", 1)).expect("Cannot create FileEntry"));
    assert_eq!(error_of(file.cmp(&dest, &accuracy())), Error::MismatchedEntryTypes);
    assert_eq!(error_of(dest.cmp(&file, &accuracy())), Error::MismatchedEntryTypes);
}

#[test]
fn mismatch_deep_in_the_tree_fails_the_whole_comparison() {
    let source = dir(
        "/source",
        vec![file("/source/a", 9000), dir("/source/d", vec![file("/source/d/x", 1)])],
    );
    let dest = dir("/dest", vec![dir("/dest/d", vec![dir("/dest/d/x", vec![])])]);
    assert_eq!(error_of(update(&source, &dest, &accuracy(), false)), Error::MismatchedEntryTypes);
}

#[test]
fn update_reports_the_error_of_the_source_first() {
    let good = dir("/good", vec![]);
    let no_dir = file("/file", 1);
    let unlisted = Listing::Directory {
        path: "/unlisted".to_string(),
        children: None,
        ignore_lines: Vec::new(),
    };
    assert_eq!(error_of(update(&no_dir, &unlisted, &accuracy(), false)), Error::NotADirectory);
    assert_eq!(error_of(update(&unlisted, &no_dir, &accuracy(), false)), Error::ReadError);
    assert_eq!(error_of(update(&good, &no_dir, &accuracy(), false)), Error::NotADirectory);
    assert_eq!(error_of(update(&unlisted, &good, &accuracy(), true)), Error::ReadError);
}

#[test]
fn every_error_has_its_message() {
    assert_eq!(Error::NotADirectory.message(), "The given directory does not exist");
    assert_eq!(Error::NotAFile.message(), "The given file does not exist");
    assert_eq!(Error::ReadError.message(), "Cannot read the directory or the file metadata");
    assert_eq!(Error::FilenameError.message(), "Cannot get the filename");
    assert_eq!(Error::CopyError.message(), "Cannot copy the entry");
    assert_eq!(
        Error::MismatchedEntryTypes.message(),
        "Cannot compare different type of entries!"
    );
}

#[test]
fn listing_says_what_it_is_of() {
    let listed = dir("/source", vec![]);
    assert_eq!(listed.path(), "/source");
    assert!(listed.is_dir());
    assert!(!listed.is_file());
    let listed = file("/source/x", 1);
    assert_eq!(listed.path(), "/source/x");
    assert!(!listed.is_dir());
    assert!(listed.is_file());
    let listed = Listing::Other { path: "/source/link".to_string() };
    assert_eq!(listed.path(), "/source/link");
    assert!(!listed.is_dir());
    assert!(!listed.is_file());
}

#[test]
fn what_is_neither_file_nor_directory_is_passed_over() {
    let listing = dir(
        "/source",
        vec![Listing::Other { path: "/source/link".to_string() }, file("/source/x", 1)],
    );
    let source = DirEntry::new(&listing, false).expect("Cannot create DirEntry");
    assert_eq!(source.len(), 1);
    assert!(source.get("link").is_none());
    assert!(source.get("x").is_some());
    // and its name is never asked for
    let listing = dir("/source", vec![Listing::Other { path: "/source/..".to_string() }]);
    let source = DirEntry::new(&listing, false).expect("Cannot create DirEntry");
    assert_eq!(source.len(), 0);
}

#[test]
fn a_name_that_is_listed_twice_stands_once() {
    let listing = dir("/source", vec![file("/source/x", 1), file("/source/y", 2), file("/source/x", 3)]);
    let source = DirEntry::new(&listing, false).expect("Cannot create DirEntry");
    assert_eq!(source.len(), 2);
    assert_eq!(source.name(0), "x");
    assert_eq!(source.name(1), "y");
    match source.entry(0) {
        Entry::File(file) => assert_eq!(file.modified(), Some(Span::from_millis(3))),
        Entry::Dir(_) => panic!("x is a file"),
    }
}
