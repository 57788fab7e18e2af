//! The ignore filter: which paths of a directory are left out of its tree.
//!
//! The patterns are those of a gitignore file and are matched by the `ignore`
//! crate.  What a filter answers is stated over the directory and the lines
//! that it was built from.
use ignore::gitignore::{Gitignore, GitignoreBuilder};
use vstd::prelude::*;

verus! {

/// The name of the file, directly inside a directory, that lists the patterns
/// to ignore in it.
pub const IGNORE_FILE_NAME: &'static str = ".gitignore";

/// The matcher of the `ignore` crate.
#[verifier::external_type_specification]
#[verifier::external_body]
pub struct ExGitignore(Gitignore);

/// The builder of the matcher of the `ignore` crate.
#[verifier::external_type_specification]
#[verifier::external_body]
pub struct ExGitignoreBuilder(GitignoreBuilder);

/// What `GitignoreBuilder::new` keeps of the directory `root` that it is
/// given, on the platform the library was built for: it takes a leading `./`
/// off.
pub uninterp spec fn root_kept(root: Seq<char>) -> Seq<char>;

/// The directory that a builder holds: the one it matches paths against.
pub uninterp spec fn builder_root(builder: GitignoreBuilder) -> Seq<char>;

/// The patterns that a builder holds, in the order in which they were added,
/// each as the text that the builder kept of its line.
pub uninterp spec fn builder_globs(builder: GitignoreBuilder) -> Seq<Seq<char>>;

/// The directory that a matcher holds: that of the builder that it was
/// built from.
pub uninterp spec fn matcher_root(matcher: Gitignore) -> Seq<char>;

/// The patterns that a matcher holds: those of the builder that it was built
/// from.
pub uninterp spec fn matcher_globs(matcher: Gitignore) -> Seq<Seq<char>>;

/// The text that a builder with the options it is made with keeps of `line`
/// as a pattern; `None` for a line that it passes over, which is a comment,
/// an empty line, or a line that it cannot read as a pattern.
pub uninterp spec fn kept_glob(line: Seq<char>) -> Option<Seq<char>>;

/// Whether a matcher can be built from `globs`: whether the patterns,
/// compiled together, stay within the limits of the `ignore` crate.
pub uninterp spec fn gitignore_compiles(globs: Seq<Seq<char>>) -> bool;

/// Whether a matcher that holds the directory `root` and the patterns
/// `globs` says of `path` that it is to be ignored.  The rules are those of gitignore:
/// later patterns override earlier ones, a pattern that ends in a slash
/// matches directories only, and a pattern that starts with `!` takes a path
/// back in.
pub uninterp spec fn gitignore_verdict(
    root: Seq<char>,
    globs: Seq<Seq<char>>,
    path: Seq<char>,
    is_dir: bool,
) -> bool;

/// The lines of `lines` as sequences of characters.
pub open spec fn lines_view(lines: Seq<String>) -> Seq<Seq<char>> {
    lines.map_values(|line: String| line@)
}

/// The patterns that a builder keeps of `lines`, added in their order.
pub open spec fn kept_globs(lines: Seq<Seq<char>>) -> Seq<Seq<char>>
    decreases lines.len(),
{
    if lines.len() == 0 {
        Seq::empty()
    } else {
        match kept_glob(lines.last()) {
            Some(glob) => kept_globs(lines.drop_last()).push(glob),
            None => kept_globs(lines.drop_last()),
        }
    }
}

/// Calls `GitignoreBuilder::new` with `root`.
///
/// Taken on trust: the builder holds what the crate keeps of `root`, and no
/// pattern yet.
#[verifier::external_body]
fn new_builder(root: &str) -> (builder: GitignoreBuilder)
    ensures
        builder_root(builder) == root_kept(root@),
        builder_globs(builder) == Seq::<Seq<char>>::empty(),
{
    GitignoreBuilder::new(root)
}

/// Calls `GitignoreBuilder::add_line` with `line`, which is said to come from
/// no file.  The error of a line that is no pattern is dropped: such a line is
/// passed over.
///
/// Taken on trust: the builder holds the same directory as before; it holds
/// one pattern more where it keeps one of the line, after those it held, and
/// the same patterns where it passes the line over.
#[verifier::external_body]
fn add_line(builder: &mut GitignoreBuilder, line: &str)
    ensures
        builder_root(*final(builder)) == builder_root(*old(builder)),
        builder_globs(*final(builder)) == match kept_glob(line@) {
            Some(glob) => builder_globs(*old(builder)).push(glob),
            None => builder_globs(*old(builder)),
        },
{
    let _ = builder.add_line(None, line);
}

/// Calls `GitignoreBuilder::build`.
///
/// Taken on trust: whether the crate can build the matcher depends on the
/// patterns of the builder alone, and a matcher that it builds holds the
/// directory and the patterns of the builder.
#[verifier::external_body]
fn build_matcher(builder: &GitignoreBuilder) -> (matcher: Option<Gitignore>)
    ensures
        matcher is Some == gitignore_compiles(builder_globs(*builder)),
        matcher matches Some(built) ==> matcher_root(built) == builder_root(*builder)
            && matcher_globs(built) == builder_globs(*builder),
{
    match builder.build() {
        Ok(matcher) => Some(matcher),
        Err(_) => None,
    }
}

/// Calls `Gitignore::matched` with `path` and `is_dir`, and says whether the
/// answer is `Match::Ignore`.
///
/// Taken on trust: the answer depends on nothing but the directory and the
/// patterns of the matcher, the path and `is_dir`; and a matcher without
/// patterns ignores nothing.
#[verifier::external_body]
fn matched(matcher: &Gitignore, path: &str, is_dir: bool) -> (ignored: bool)
    ensures
        ignored == gitignore_verdict(
            matcher_root(*matcher),
            matcher_globs(*matcher),
            path@,
            is_dir,
        ),
        matcher_globs(*matcher).len() == 0 ==> !ignored,
{
    matcher.matched(path, is_dir).is_ignore()
}

/// What a filter stands for: the directory it was built for and the lines of
/// that directory's ignore file.
pub struct FilterView {
    pub root: Seq<char>,
    pub lines: Seq<Seq<char>>,
}

impl FilterView {
    /// The patterns of the filter: what is kept of its lines.
    pub open spec fn globs(self) -> Seq<Seq<char>> {
        kept_globs(self.lines)
    }

    /// Whether the filter leaves `path` out; `is_dir` says whether the path is
    /// a directory.  A filter without patterns leaves nothing out, and so do
    /// patterns that cannot be compiled into a matcher.
    pub open spec fn ignores(self, path: Seq<char>, is_dir: bool) -> bool {
        &&& self.globs().len() > 0
        &&& gitignore_compiles(self.globs())
        &&& gitignore_verdict(root_kept(self.root), self.globs(), path, is_dir)
    }
}

/// The filter of one directory: the patterns of its ignore file, compiled.
pub struct IgnoreFilter {
    /// What the filter was built from.
    origin: Ghost<FilterView>,
    /// The matcher; none where the patterns could not be compiled.
    matcher: Option<Gitignore>,
}

impl View for IgnoreFilter {
    type V = FilterView;

    closed spec fn view(&self) -> FilterView {
        self.origin@
    }
}

impl IgnoreFilter {
    /// The matcher holds what is kept of the root and of the lines that the
    /// filter was built from.
    #[verifier::type_invariant]
    closed spec fn wf(&self) -> bool {
        &&& self.matcher is Some == gitignore_compiles(self@.globs())
        &&& self.matcher matches Some(matcher) ==> matcher_root(matcher) == root_kept(
            self@.root,
        ) && matcher_globs(matcher) == self@.globs()
    }

    /// Builds the filter of the directory `root` from the lines of its ignore
    /// file.  A directory without such a file has no lines, and its filter
    /// matches nothing.  Loading is best effort: a line that is no pattern is
    /// passed over, and patterns that cannot be compiled together give a
    /// filter that matches nothing.
    pub fn new(root: &str, lines: &Vec<String>) -> (filter: IgnoreFilter)
        ensures
            filter@ == (FilterView { root: root@, lines: lines_view(lines@) }),
    {
        let mut builder = new_builder(root);
        let mut i: usize = 0;
        while i < lines.len()
            invariant
                i <= lines.len(),
                builder_root(builder) == root_kept(root@),
                builder_globs(builder) == kept_globs(lines_view(lines@.take(i as int))),
            decreases lines.len() - i,
        {
            add_line(&mut builder, lines[i].as_str());
            proof {
                let before = lines_view(lines@.take(i as int));
                let after = lines_view(lines@.take(i + 1));
                assert(lines@.take(i + 1) == lines@.take(i as int).push(lines@[i as int]));
                assert(after.drop_last() == before);
                assert(after.last() == lines@[i as int]@);
            }
            i += 1;
        }
        assert(lines@.take(i as int) == lines@);
        let matcher = build_matcher(&builder);
        IgnoreFilter {
            origin: Ghost(FilterView { root: root@, lines: lines_view(lines@) }),
            matcher,
        }
    }

    /// Whether `path` is to be left out of the tree; `is_dir` says whether
    /// the path is a directory.
    pub fn matches(&self, path: &str, is_dir: bool) -> (ignored: bool)
        ensures
            ignored == self@.ignores(path@, is_dir),
    {
        proof {
            use_type_invariant(self);
        }
        match &self.matcher {
            Some(matcher) => matched(matcher, path, is_dir),
            None => false,
        }
    }
}

} // verus!
