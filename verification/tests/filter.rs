use bkup::{DirEntry, Entry, IgnoreFilter, Listing, Span, IGNORE_FILE_NAME};

fn lines(lines: &[&str]) -> Vec<String> {
    lines.iter().map(|line| line.to_string()).collect()
}

fn file(path: &str) -> Listing {
    Listing::File { path: path.to_string(), modified: Some(Span::from_millis(1)) }
}

fn dir(path: &str, children: Vec<Listing>, ignore_lines: &[&str]) -> Listing {
    Listing::Directory {
        path: path.to_string(),
        children: Some(children),
        ignore_lines: lines(ignore_lines),
    }
}

#[test]
fn ignore_file_has_the_well_known_name() {
    assert_eq!(IGNORE_FILE_NAME, ".gitignore");
}

#[test]
fn filter_without_lines_matches_nothing() {
    let filter = IgnoreFilter::new("/root", &lines(&[]));
    assert!(!filter.matches("/root/a.tmp", false));
    assert!(!filter.matches("/root/dir", true));
    assert!(!filter.matches("a.tmp", false));
}

#[test]
fn filter_matches_a_glob_anywhere_below_the_root() {
    let filter = IgnoreFilter::new("/root", &lines(&["*.tmp"]));
    assert!(filter.matches("/root/a.tmp", false));
    assert!(filter.matches("/root/sub/a.tmp", false));
    assert!(filter.matches("a.tmp", false));
    assert!(!filter.matches("/root/a.txt", false));
    assert!(!filter.matches("/root/a.tmp.txt", false));
}

#[test]
fn filter_lets_later_patterns_override_earlier_ones() {
    let filter = IgnoreFilter::new("/root", &lines(&["*.tmp", "!keep.tmp"]));
    assert!(filter.matches("/root/a.tmp", false));
    assert!(!filter.matches("/root/keep.tmp", false));

    let filter = IgnoreFilter::new("/root", &lines(&["!keep.tmp", "*.tmp"]));
    assert!(filter.matches("/root/keep.tmp", false));
}

#[test]
fn filter_matches_directory_patterns_on_directories_only() {
    let filter = IgnoreFilter::new("/root", &lines(&["build/"]));
    assert!(filter.matches("/root/build", true));
    assert!(!filter.matches("/root/build", false));
}

#[test]
fn filter_anchors_patterns_with_a_leading_slash_at_the_root() {
    let filter = IgnoreFilter::new("/root", &lines(&["/top.txt"]));
    assert!(filter.matches("/root/top.txt", false));
    assert!(!filter.matches("/root/sub/top.txt", false));
}

#[test]
fn filter_passes_over_comments_empty_lines_and_bad_patterns() {
    let filter = IgnoreFilter::new("/root", &lines(&["# *.txt", "", "a[", "{a,b", "*.log"]));
    assert!(!filter.matches("/root/a.txt", false));
    assert!(filter.matches("/root/a.log", false));
}

#[test]
fn filter_depends_on_its_root() {
    let filter = IgnoreFilter::new("/root", &lines(&["/sub/a.txt"]));
    assert!(filter.matches("/root/sub/a.txt", false));
    let filter = IgnoreFilter::new("/root/sub", &lines(&["/sub/a.txt"]));
    assert!(!filter.matches("/root/sub/a.txt", false));
}

#[test]
fn visit_leaves_out_what_the_filter_matches() {
    let listing = dir(
        "/source",
        vec![
            file("/source/a.tmp"),
            file("/source/a.txt"),
            dir("/source/cache", vec![file("/source/cache/x")], &[]),
            dir("/source/docs", vec![file("/source/docs/b.tmp"), file("/source/docs/b.txt")], &[]),
        ],
        &["*.tmp", "cache/"],
    );
    let source = DirEntry::new(&listing, true).expect("Cannot create DirEntry");
    assert_eq!(source.len(), 2);
    assert!(source.get("a.tmp").is_none());
    assert!(source.get("a.txt").is_some());
    assert!(source.get("cache").is_none());
    // the filter of a directory holds for its own children only: a directory
    // below has the filter of its own ignore file
    match source.get("docs").expect("docs is missing") {
        Entry::Dir(docs) => {
            assert_eq!(docs.len(), 2);
            assert!(docs.get("b.tmp").is_some());
            assert!(docs.get("b.txt").is_some());
        }
        Entry::File(_) => panic!("docs is a directory"),
    }
}

#[test]
fn visit_filters_each_directory_by_its_own_ignore_file() {
    let listing = dir(
        "/source",
        vec![dir(
            "/source/docs",
            vec![file("/source/docs/b.tmp"), file("/source/docs/b.txt")],
            &["*.tmp"],
        )],
        &[],
    );
    let source = DirEntry::new(&listing, true).expect("Cannot create DirEntry");
    match source.get("docs").expect("docs is missing") {
        Entry::Dir(docs) => {
            assert_eq!(docs.len(), 1);
            assert!(docs.get("b.tmp").is_none());
            assert!(docs.get("b.txt").is_some());
        }
        Entry::File(_) => panic!("docs is a directory"),
    }
}

#[test]
fn visit_without_ignore_keeps_everything() {
    let listing = dir("/source", vec![file("/source/a.tmp"), file("/source/a.txt")], &["*.tmp"]);
    let source = DirEntry::new(&listing, false).expect("Cannot create DirEntry");
    assert_eq!(source.len(), 2);
    assert!(source.get("a.tmp").is_some());
    let source = Entry::new_dir(&listing).expect("Cannot create Entry");
    match source {
        Entry::Dir(source) => assert_eq!(source.len(), 2),
        Entry::File(_) => panic!("the root is a directory"),
    }
}

#[test]
fn visit_does_not_look_into_what_is_ignored() {
    // the ignored directory could not be listed: that does not fail the
    // visit
    let listing = dir(
        "/source",
        vec![
            Listing::Directory {
                path: "/source/cache".to_string(),
                children: None,
                ignore_lines: Vec::new(),
            },
            file("/source/a.tmp"),
            file("/source/a.txt"),
        ],
        &["*.tmp", "cache/"],
    );
    let source = DirEntry::new(&listing, true).expect("Cannot create DirEntry");
    assert_eq!(source.len(), 1);
    assert_eq!(source.name(0), "a.txt");
}

#[test]
fn filter_takes_a_leading_dot_off_its_root() {
    let filter = IgnoreFilter::new("./root", &lines(&["/top.txt", "*.tmp"]));
    assert!(filter.matches("./root/top.txt", false));
    assert!(filter.matches("root/top.txt", false));
    assert!(!filter.matches("./root/sub/top.txt", false));
    assert!(filter.matches("./root/sub/a.tmp", false));
    let listing = dir("./root", vec![file("./root/top.txt"), file("./root/a.txt")], &["/top.txt"]);
    let root = DirEntry::new(&listing, true).expect("Cannot create DirEntry");
    assert_eq!(root.len(), 1);
    assert!(root.get("top.txt").is_none());
    assert!(root.get("a.txt").is_some());
}

#[test]
fn tree_without_patterns_is_the_same_with_and_without_ignore() {
    let listing = dir(
        "/source",
        vec![
            file("/source/a.tmp"),
            dir("/source/docs", vec![file("/source/docs/b.tmp")], &[]),
            dir("/source/notes", vec![file("/source/notes/c")], &["", "# only a comment"]),
        ],
        &["# *.tmp", ""],
    );
    let heeded = DirEntry::new(&listing, true).expect("Cannot create DirEntry");
    let unheeded = DirEntry::new(&listing, false).expect("Cannot create DirEntry");
    assert_eq!(heeded.len(), 3);
    assert_eq!(format!("{:?}", heeded), format!("{:?}", unheeded));
    let accuracy = Span::from_millis(0);
    assert!(heeded.cmp(&unheeded, &accuracy).expect("Cannot compare entries").is_none());
    assert!(unheeded.cmp(&heeded, &accuracy).expect("Cannot compare entries").is_none());
}

#[test]
fn what_passes_the_filter_is_in_the_tree_in_every_order() {
    let orders = [
        vec!["a.tmp", "a.txt", "b.tmp"],
        vec!["a.txt", "b.tmp", "a.tmp"],
        vec!["b.tmp", "a.tmp", "a.txt"],
    ];
    for order in orders {
        let children = order.iter().map(|name| file(&format!("/source/{}", name))).collect();
        let source = DirEntry::new(&dir("/source", children, &["*.tmp"]), true)
            .expect("Cannot create DirEntry");
        assert_eq!(source.len(), 1);
        assert!(source.get("a.txt").is_some());
        assert!(source.get("a.tmp").is_none());
        assert!(source.get("b.tmp").is_none());
    }
}
