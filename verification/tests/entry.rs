use bkup::{DirDelta, DirEntry, EntryDelta, FileEntry, FileTimeDelta, IgnoreFilter, Listing, Span};

/// The accuracy of every comparison in this file, in milliseconds.
const ACCURACY_MS: u64 = 2000;

fn accuracy() -> Span {
    Span::from_millis(ACCURACY_MS)
}

/// A stand-in for the file system: directories and empty files with the time
/// at which each was written.  Every write moves the clock on by a little
/// more than the accuracy, so that two writes never count as simultaneous.
struct Disk {
    now_ms: u64,
    step_ms: u64,
    dirs: Vec<String>,
    files: Vec<(String, u64)>,
}

impl Disk {
    fn new() -> Disk {
        Disk::with_step(ACCURACY_MS + 10)
    }

    /// A disk on which two writes lie `step_ms` milliseconds apart.
    fn with_step(step_ms: u64) -> Disk {
        Disk { now_ms: 1_000_000, step_ms, dirs: Vec::new(), files: Vec::new() }
    }

    fn create_dir(&mut self, root: &str, name: &str) -> String {
        let path = format!("{}/{}", root, name);
        self.dirs.push(path.clone());
        path
    }

    fn write_file(&mut self, root: &str, name: &str) -> String {
        let path = format!("{}/{}", root, name);
        self.now_ms += self.step_ms;
        let now = self.now_ms;
        match self.files.iter_mut().find(|file| file.0 == path) {
            Some(file) => file.1 = now,
            None => self.files.push((path.clone(), now)),
        }
        path
    }

    fn write_text(&mut self, root: &str, name: &str) -> String {
        self.write_file(root, name)
    }

    fn copy_file(&mut self, from: &str, to: &str) {
        let modified = self.files.iter().find(|file| file.0 == from).expect("no such file").1;
        match self.files.iter_mut().find(|file| file.0 == to) {
            Some(file) => file.1 = modified,
            None => self.files.push((to.to_string(), modified)),
        }
    }

    fn list(&self, path: &str, ignore_lines: &[&str]) -> Listing {
        if self.dirs.iter().any(|dir| dir == path) {
            let prefix = format!("{}/", path);
            let mut children = Vec::new();
            for dir in &self.dirs {
                if dir.starts_with(&prefix) && !dir[prefix.len()..].contains('/') {
                    children.push(self.list(dir, &[]));
                }
            }
            for file in &self.files {
                if file.0.starts_with(&prefix) && !file.0[prefix.len()..].contains('/') {
                    children.push(self.list(&file.0, &[]));
                }
            }
            Listing::Directory {
                path: path.to_string(),
                children: Some(children),
                ignore_lines: ignore_lines.iter().map(|line| line.to_string()).collect(),
            }
        } else if let Some(file) = self.files.iter().find(|file| file.0 == path) {
            Listing::File { path: path.to_string(), modified: Some(Span::from_millis(file.1)) }
        } else {
            Listing::Other { path: path.to_string() }
        }
    }

    fn dir_entry(&self, path: &str) -> DirEntry {
        DirEntry::new(&self.list(path, &[]), false).expect("Cannot create DirEntry")
    }

    fn file_entry(&self, path: &str) -> FileEntry {
        FileEntry::new(&self.list(path, &[])).expect("Cannot create FileEntry")
    }
}

/// Create the source and destination directories.
fn create_source_and_dest_dirs(disk: &mut Disk) -> (String, String) {
    let source = disk.create_dir("/tmp", "source");
    let dest = disk.create_dir("/tmp", "dest");
    (source, dest)
}

/// Asserts the given entry is marked as not found in the destination for
/// the given directory delta.
fn assert_entry_not_found_in_dest(delta: &DirDelta, entry_name: &str, count: usize) {
    assert_eq!(delta.entries().len(), count);
    let entry_delta = delta.get(entry_name).expect("Cannot get entry delta");
    match entry_delta {
        EntryDelta::NotFound { .. } => (),
        _ => panic!("Invalid delta"),
    }
}

/// Asserts that the given file is marked as found in the destination for
/// the given directory delta, and its time difference with the source file
/// is equal to the given one.
fn assert_delta_cmp_with_file(
    delta: &DirDelta,
    file_name: &str,
    file_cmp: FileTimeDelta,
    count: usize,
) {
    assert_eq!(delta.entries().len(), count);
    let entry_delta = delta.get(file_name).expect("Cannot get entry delta");
    match entry_delta {
        EntryDelta::File(delta) => assert!(delta.diff() == file_cmp),
        _ => panic!("Invalid delta"),
    }
}

/// Asserts that the given directory is marked as found in the destination
/// for the given directory delta.
fn assert_delta_cmp_with_dir(delta: &DirDelta, dir_name: &str, count: usize) {
    assert_eq!(delta.entries().len(), count);
    let entry_delta = delta.get(dir_name).expect("Cannot get entry delta");
    match entry_delta {
        EntryDelta::Dir(_) => (),
        _ => panic!("Invalid delta"),
    }
}

#[test]
fn entry_test_cmp_dir() {
    let mut disk = Disk::new();
    let (source_path, dest_path) = create_source_and_dest_dirs(&mut disk);
    let mut source = disk.dir_entry(&source_path);
    let mut dest = disk.dir_entry(&dest_path);

    // comparing an entry with itself should not show any difference
    let delta = source.cmp(&source, &accuracy()).expect("Cannot compare directory entries");
    assert!(delta.is_none());
    // both with no files, the two directories are the same
    let delta = source.cmp(&dest, &accuracy()).expect("Cannot compare directory entries");
    assert!(delta.is_none());

    // add one file to source
    let file1_name = "file1";
    disk.write_file(&source_path, file1_name);

    // file1 exists only on the source
    source.visit(&disk.list(&source_path, &[]), None).expect("Cannot visit source directory");
    {
        let delta = source
            .cmp(&dest, &accuracy())
            .expect("Cannot compare directory entries")
            .expect("Delta should be some");
        assert_entry_not_found_in_dest(&delta, file1_name, 1);

        // but the two folders are the same when seen from the destination
        // (no entry in destination is missing in source)
        let delta = dest.cmp(&source, &accuracy()).expect("Cannot compare directory entries");
        assert!(delta.is_none());
    }

    // add same file to destination
    disk.write_file(&dest_path, file1_name);

    // file 1 now exists in both directories
    dest.visit(&disk.list(&dest_path, &[]), None).expect("Cannot visit dest directory");
    {
        let delta = source
            .cmp(&dest, &accuracy())
            .expect("Cannot compare directory entries")
            .expect("Delta should be some");
        // file 1 in source is older
        assert_delta_cmp_with_file(&delta, file1_name, FileTimeDelta::Older, 1);
        let delta = dest
            .cmp(&source, &accuracy())
            .expect("Cannot compare directory entries")
            .expect("Delta should be some");
        // file 1 is newer in dest
        assert_delta_cmp_with_file(&delta, file1_name, FileTimeDelta::Newer, 1);
    }

    // add a new file in the destination directory
    let file2_name = "file2";
    disk.write_file(&dest_path, file2_name);
    {
        let delta = source
            .cmp(&dest, &accuracy())
            .expect("Cannot compare directory entries")
            .expect("Delta should be some");
        // only file 1 is seen from source an it is older than file 1 in dest
        assert_delta_cmp_with_file(&delta, file1_name, FileTimeDelta::Older, 1);
    }
    dest.visit(&disk.list(&dest_path, &[]), None).expect("Cannot visit dest directory");
    let delta = dest
        .cmp(&source, &accuracy())
        .expect("Cannot compare directory entries")
        .expect("Delta should be some");
    // dest has 2 files and file 1 is newer that file 1 in source
    assert_delta_cmp_with_file(&delta, file1_name, FileTimeDelta::Newer, 2);
    // file 2 only exist in dest
    assert_entry_not_found_in_dest(&delta, file2_name, 2);
}

#[test]
fn entries_test_cmp_dir() {
    // times are compared as they are, and two writes lie 10ms apart
    let exact = Span::from_millis(0);
    let mut disk = Disk::with_step(10);
    let (source_path, dest_path) = create_source_and_dest_dirs(&mut disk);
    let mut source = disk.dir_entry(&source_path);
    let mut dest = disk.dir_entry(&dest_path);

    // comparing an entry with itself should not show any difference
    let delta = source.cmp(&source, &exact).expect("Cannot compare directory entries");
    assert!(delta.is_none());
    // both with no files, the two directories are the same
    let delta = source.cmp(&dest, &exact).expect("Cannot compare directory entries");
    assert!(delta.is_none());

    // add one file to source
    let file1_name = "file1";
    disk.write_file(&source_path, file1_name);

    // file1 exists only on the source
    source.visit(&disk.list(&source_path, &[]), None).expect("Cannot visit source directory");
    {
        let delta = source
            .cmp(&dest, &exact)
            .expect("Cannot compare directory entries")
            .expect("Delta should be some");
        assert!(!delta.is_none());
        assert_entry_not_found_in_dest(&delta, file1_name, 1);

        // but the two folders are the same when seen from the destination
        // (no entry in destination is missing in source)
        let delta = dest.cmp(&source, &exact).expect("Cannot compare directory entries");
        assert!(delta.is_none());
    }

    // add same file to destination
    disk.write_file(&dest_path, file1_name);

    // file1 now exists in both directories
    dest.visit(&disk.list(&dest_path, &[]), None).expect("Cannot visit dest directory");
    {
        let delta = source
            .cmp(&dest, &exact)
            .expect("Cannot compare directory entries")
            .expect("Delta should be some");
        // file 1 in source is older
        assert!(!delta.is_none());
        assert_delta_cmp_with_file(&delta, file1_name, FileTimeDelta::Older, 1);
        let delta = dest
            .cmp(&source, &exact)
            .expect("Cannot compare directory entries")
            .expect("Delta should be some");
        // file 1 is newer in dest
        assert!(!delta.is_none());
        assert_delta_cmp_with_file(&delta, file1_name, FileTimeDelta::Newer, 1);
    }

    // add a new file in the destination directory
    let file2_name = "file2";
    disk.write_file(&dest_path, file2_name);
    {
        let delta = source
            .cmp(&dest, &exact)
            .expect("Cannot compare directory entries")
            .expect("Delta should be some");
        // only file 1 is seen from source an it is older than file 1 in dest
        assert!(!delta.is_none());
        assert_delta_cmp_with_file(&delta, file1_name, FileTimeDelta::Older, 1);
    }
    dest.visit(&disk.list(&dest_path, &[]), None).expect("Cannot visit dest directory");
    let delta = dest
        .cmp(&source, &exact)
        .expect("Cannot compare directory entries")
        .expect("Delta should be some");
    // dest has 2 files and file 1 is newer that file 1 in source
    assert!(!delta.is_none());
    assert_delta_cmp_with_file(&delta, file1_name, FileTimeDelta::Newer, 2);
    // file 2 only exist in dest
    assert_entry_not_found_in_dest(&delta, file2_name, 2);
}

#[test]
fn entry_test_cmp_sub_dir() {
    let mut disk = Disk::new();
    let (source_path, dest_path) = create_source_and_dest_dirs(&mut disk);
    let mut source = disk.dir_entry(&source_path);
    let mut dest = disk.dir_entry(&dest_path);

    // create subdirectory in source
    let dir1_name = "dir1";
    let source_dir1 = disk.create_dir(&source_path, dir1_name);

    // dir 1 only exists in source
    source.visit(&disk.list(&source_path, &[]), None).expect("Cannot visit source directory");
    {
        let delta = source
            .cmp(&dest, &accuracy())
            .expect("Cannot compare directory entries")
            .expect("Delta should be some");
        assert_entry_not_found_in_dest(&delta, dir1_name, 1);

        // but the two folders are the same when seen from the destination
        // (no entry in destination is missing in source)
        let delta = dest.cmp(&source, &accuracy()).expect("Cannot compare directory entries");
        assert!(delta.is_none());
    }

    // create dir1 in dest
    let dest_dir1 = disk.create_dir(&dest_path, dir1_name);

    // dir 1 exists both in source and destination
    source.visit(&disk.list(&source_path, &[]), None).expect("Cannot visit source directory");
    dest.visit(&disk.list(&dest_path, &[]), None).expect("Cannot visit dest directory");
    {
        let delta = source.cmp(&dest, &accuracy()).expect("Cannot compare directory entries");
        assert!(delta.is_none());
    }

    // create sub-dir in source
    let sub_dir1_name = "sub_dir1";
    let source_sub_dir1 = disk.create_dir(&source_dir1, sub_dir1_name);
    source.visit(&disk.list(&source_path, &[]), None).expect("Cannot visit source directory");
    {
        let delta = source
            .cmp(&dest, &accuracy())
            .expect("Cannot compare directory entries")
            .expect("Delta should be some");
        // source and dest are different because dir 1 is different since it
        // contains a sub-directory only in source
        assert_delta_cmp_with_dir(&delta, dir1_name, 1);

        // but the two folders are the same when seen from the destination
        // (no entry in destination is missing in source)
        let delta = dest.cmp(&source, &accuracy()).expect("Cannot compare directory entries");
        assert!(delta.is_none());
    }

    // create sub-dir in dest
    let dest_sub_dir1 = disk.create_dir(&dest_dir1, sub_dir1_name);
    dest.visit(&disk.list(&dest_path, &[]), None).expect("Cannot visit dest directory");
    {
        let delta = source.cmp(&dest, &accuracy()).expect("Cannot compare directory entries");
        // both source and dest contain the same entries
        assert!(delta.is_none());
    }

    // add file 1 to source sub-directory
    let file1_name = "file1";
    disk.write_file(&source_sub_dir1, file1_name);
    source.visit(&disk.list(&source_path, &[]), None).expect("Cannot visit source directory");
    {
        let delta = source
            .cmp(&dest, &accuracy())
            .expect("Cannot compare directory entries")
            .expect("Delta should be some");
        // source and dest are different because dir 1 is different since it
        // contains a sub-directory that has files only in source
        assert_delta_cmp_with_dir(&delta, dir1_name, 1);
    }

    // add file 1 and file 2 to dest sub directory and then file 2 to source,
    // so that file 1 is newer in source but file 2 is newer in dest
    let file2_name = "file2";
    disk.write_file(&dest_sub_dir1, file1_name);
    disk.write_file(&dest_sub_dir1, file2_name);
    disk.write_file(&source_sub_dir1, file2_name);
    source.visit(&disk.list(&source_path, &[]), None).expect("Cannot visit source directory");
    dest.visit(&disk.list(&dest_path, &[]), None).expect("Cannot visit dest directory");
    {
        let delta = source
            .cmp(&dest, &accuracy())
            .expect("Cannot compare directory entries")
            .expect("Delta should be some");
        // source and dest are different because the files contained in both
        // directories are the same but their timestamps are different
        assert_delta_cmp_with_dir(&delta, dir1_name, 1);
    }

    // compare the sub-directories with files
    let source_sub_dir1 = disk.dir_entry(&source_sub_dir1);
    let dest_sub_dir1 = disk.dir_entry(&dest_sub_dir1);

    // source vs dest
    let delta = source_sub_dir1
        .cmp(&dest_sub_dir1, &accuracy())
        .expect("Cannot compare directory entries")
        .expect("Delta should be some");
    assert_delta_cmp_with_file(&delta, file1_name, FileTimeDelta::Older, 2);
    assert_delta_cmp_with_file(&delta, file2_name, FileTimeDelta::Newer, 2);

    // dest vs source
    let delta = dest_sub_dir1
        .cmp(&source_sub_dir1, &accuracy())
        .expect("Cannot compare directory entries")
        .expect("Delta should be some");
    assert_delta_cmp_with_file(&delta, file1_name, FileTimeDelta::Newer, 2);
    assert_delta_cmp_with_file(&delta, file2_name, FileTimeDelta::Older, 2);
}

#[test]
fn entry_test_cmp_files() {
    let mut disk = Disk::new();
    // create older file
    let older = disk.write_file("/tmp", "older");
    let older_entry = disk.file_entry(&older);
    // create newer file
    let newer = disk.write_file("/tmp", "newer");
    let newer_entry = disk.file_entry(&newer);

    // compare entries
    let delta = older_entry
        .cmp(&newer_entry, &accuracy())
        .expect("Cannot compare entries")
        .expect("Delta should be some");
    assert_eq!(delta.diff(), FileTimeDelta::Older);
    let delta = older_entry.cmp(&older_entry, &accuracy()).expect("Cannot compare entries");
    assert!(delta.is_none());
    let delta = newer_entry
        .cmp(&older_entry, &accuracy())
        .expect("Cannot compare entries")
        .expect("Delta should be some");
    assert_eq!(delta.diff(), FileTimeDelta::Newer);
    let delta = newer_entry.cmp(&newer_entry, &accuracy()).expect("Cannot compare entries");
    assert!(delta.is_none());

    // create a copy of the older file
    let plan = older_entry.copy(&newer);
    assert_eq!(plan.len(), 1);
    disk.copy_file(&older, &newer);
    let copy = disk.file_entry(&newer);
    let delta = older_entry.cmp(&copy, &accuracy()).expect("Cannot compare entries");
    assert!(delta.is_none() || delta.unwrap().diff() == FileTimeDelta::Older);
    let delta = copy.cmp(&older_entry, &accuracy()).expect("Cannot compare entries");
    assert!(delta.is_none() || delta.unwrap().diff() == FileTimeDelta::Newer);
}

#[test]
fn test_entries_to_ignore() {
    let mut disk = Disk::new();
    let (source_path, dest_path) = create_source_and_dest_dirs(&mut disk);
    let mut source = disk.dir_entry(&source_path);
    let dest = disk.dir_entry(&dest_path);

    let ignore_filename = ".gitignore";
    let filename_to_ignore = "ignore.txt";

    // create .gitignore file in source directory
    disk.write_text(&source_path, ignore_filename);
    let ignore = IgnoreFilter::new(&source_path, &vec![filename_to_ignore.to_string()]);

    // add another file to source
    disk.write_file(&source_path, filename_to_ignore);

    // file1 exists only on the source but since it has to be ignored the
    // only difference must be the .gitignore file itself
    source
        .visit(&disk.list(&source_path, &[filename_to_ignore]), Some(&ignore))
        .expect("Cannot visit source directory");
    let delta = source
        .cmp(&dest, &accuracy())
        .expect("Cannot compare directory entries")
        .expect("Delta should be some");
    assert_entry_not_found_in_dest(&delta, ignore_filename, 1);
}
