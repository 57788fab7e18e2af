//! The ways in which building, comparing and updating trees can fail.
use vstd::prelude::*;

verus! {

/// Why a run was given up.  Every kind is fatal where it occurs: no partial
/// result is handed out.
#[derive(Clone, Copy, Debug, PartialEq, Eq, Structural)]
pub enum Error {
    /// A root is missing or is not a directory.
    NotADirectory,
    /// What was expected to be a regular file is none.
    NotAFile,
    /// A directory could not be listed, or the metadata of an entry could not
    /// be read.
    ReadError,
    /// A path has no final component.
    FilenameError,
    /// A file or a directory could not be copied.
    CopyError,
    /// A file was compared with a directory.
    MismatchedEntryTypes,
}

impl Error {
    /// A sentence for the user that says what went wrong.
    pub fn message(&self) -> (text: String)
        ensures
            text@ == self.message_spec(),
    {
        match self {
            Error::NotADirectory => String::from_str("The given directory does not exist"),
            Error::NotAFile => String::from_str("The given file does not exist"),
            Error::ReadError => String::from_str("Cannot read the directory or the file metadata"),
            Error::FilenameError => String::from_str("Cannot get the filename"),
            Error::CopyError => String::from_str("Cannot copy the entry"),
            Error::MismatchedEntryTypes => String::from_str(
                "Cannot compare different type of entries!",
            ),
        }
    }

    /// The text of [`Error::message`].
    pub open spec fn message_spec(&self) -> Seq<char> {
        match self {
            Error::NotADirectory => "The given directory does not exist"@,
            Error::NotAFile => "The given file does not exist"@,
            Error::ReadError => "Cannot read the directory or the file metadata"@,
            Error::FilenameError => "Cannot get the filename"@,
            Error::CopyError => "Cannot copy the entry"@,
            Error::MismatchedEntryTypes => "Cannot compare different type of entries!"@,
        }
    }
}

} // verus!
