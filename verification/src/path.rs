//! Paths, held as strings, and the two questions the library asks of
//! `std::path`: what the final component of a path is, and what a path
//! becomes when a name is joined to it.
use std::path::Path;
use vstd::prelude::*;

verus! {

/// The final component of `path`, as `std::path::Path::file_name` gives it for
/// the platform the library was built for; `None` where the path has none, as
/// when it ends in `..` or is a bare root.
pub uninterp spec fn path_file_name(path: Seq<char>) -> Option<Seq<char>>;

/// The path that `std::path::Path::join` gives for `base` and `name` on the
/// platform the library was built for.
pub uninterp spec fn path_join(base: Seq<char>, name: Seq<char>) -> Seq<char>;

/// Calls `std::path::Path::file_name` on `path`.
///
/// Taken on trust: the result is the final component that std finds in the
/// path, or `None` where it finds none.  The component of a path that is valid
/// UTF-8 is valid UTF-8 itself, so nothing is lost in turning it back into a
/// string.
#[verifier::external_body]
pub(crate) fn file_name_of(path: &str) -> (name: Option<String>)
    ensures
        name is Some == path_file_name(path@) is Some,
        name is Some ==> path_file_name(path@) == Some(name->0@),
{
    match Path::new(path).file_name() {
        Some(name) => Some(name.to_string_lossy().into_owned()),
        None => None,
    }
}

/// Calls `std::path::Path::join` on `base` with `name`.
///
/// Taken on trust: the result is the path that std forms from the two.  Both
/// are valid UTF-8, and so is what std forms from them.
#[verifier::external_body]
pub(crate) fn join(base: &str, name: &str) -> (joined: String)
    ensures
        joined@ == path_join(base@, name@),
{
    Path::new(base).join(name).to_string_lossy().into_owned()
}

} // verus!
