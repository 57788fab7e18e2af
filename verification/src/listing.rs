//! What the file system said of a path when it was asked: the input from
//! which a tree is built.
use crate::span::Span;
use vstd::prelude::*;

verus! {

/// The answer of the file system for one path, taken once.  A tree is built
/// from it without going back to the file system.
#[derive(Debug)]
pub enum Listing {
    /// The path is a directory.
    Directory {
        path: String,
        /// What the directory holds; `None` where it could not be listed.
        children: Option<Vec<Listing>>,
        /// The lines of the ignore file that lies directly in the directory;
        /// none where there is no such file or it could not be read.
        ignore_lines: Vec<String>,
    },
    /// The path is a regular file.
    File {
        path: String,
        /// When the file was last modified, counted from the Unix epoch;
        /// `None` where that could not be read or lies before the epoch.
        modified: Option<Span>,
    },
    /// The path is neither: a symbolic link, a socket, a device.
    Other { path: String },
}

impl Listing {
    /// The path that was asked for.
    pub open spec fn spec_path(self) -> Seq<char> {
        match self {
            Listing::Directory { path, .. } => path@,
            Listing::File { path, .. } => path@,
            Listing::Other { path } => path@,
        }
    }

    /// The path that was asked for.
    pub fn path(&self) -> (path: &String)
        ensures
            path@ == self.spec_path(),
    {
        match self {
            Listing::Directory { path, .. } => path,
            Listing::File { path, .. } => path,
            Listing::Other { path } => path,
        }
    }

    /// Whether the path is a directory.
    pub fn is_dir(&self) -> (is_dir: bool)
        ensures
            is_dir == (self is Directory),
    {
        match self {
            Listing::Directory { .. } => true,
            _ => false,
        }
    }

    /// Whether the path is a regular file.
    pub fn is_file(&self) -> (is_file: bool)
        ensures
            is_file == (self is File),
    {
        match self {
            Listing::File { .. } => true,
            _ => false,
        }
    }
}

} // verus!
