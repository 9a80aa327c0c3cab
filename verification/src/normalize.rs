//! The normal form of an argument: the text under which it is looked up among
//! the protected paths. Nothing here looks at a filesystem. Whoever does is
//! told by `resolution_target` which path to resolve, once it knows what lies
//! under the argument, and hands back what it found as a `PathStatus`.
//!
//! A symbolic link is judged by where it lies, not by what it points to: its
//! normal form is the canonical form of its directory, and behind it the
//! link's own name.

use crate::path::{
    file_name, file_name_of, is_absolute, is_plain_name, is_relative, join, joined,
    lemma_file_name_of_joined, parent, parent_of,
};
use vstd::prelude::*;
use vstd::string::*;

verus! {

/// What lies under a path, as the filesystem says when asked about the path
/// itself, without following a symbolic link.
#[derive(Debug, Clone, Copy, PartialEq, Eq, Structural)]
pub enum FileKind {
    /// Nothing is there, not even a symbolic link.
    Missing,
    /// A symbolic link is there.
    Symlink,
    /// Something else is there.
    Other,
}

/// What the filesystem says of an argument: what lies under it, and the
/// canonical form of the path that `resolution_target` names for it, or
/// nothing where it names none or the path could not be resolved.
#[derive(Debug, Clone, PartialEq, Eq)]
pub struct PathStatus {
    pub kind: FileKind,
    pub resolved: Option<String>,
}

/// A `PathStatus` with its text as a sequence of characters.
pub struct PathStatusView {
    pub kind: FileKind,
    pub resolved: Option<Seq<char>>,
}

impl View for PathStatus {
    type V = PathStatusView;

    open spec fn view(&self) -> PathStatusView {
        PathStatusView { kind: self.kind, resolved: self.resolved.deep_view() }
    }
}

/// The root of the filesystem.
pub open spec fn root() -> Seq<char> {
    seq!['/']
}

/// A path with its directory spelled out: a relative path is taken from `.`.
pub open spec fn explicit(path: Seq<char>) -> Seq<char> {
    if is_absolute(path) {
        path
    } else {
        joined(seq!['.'], path)
    }
}

/// The directory in which a link lies, as the path spells it: the parent of
/// the explicit path. None for a path without a parent.
pub open spec fn link_directory(path: Seq<char>) -> Option<Seq<char>> {
    parent_of(explicit(path))
}

/// The normal form of a link, given the canonical form of its directory:
/// the link's name behind that directory. A path without a parent lies in
/// the root. A path without a file name, one that ends in `..`, stands for
/// the directory above, or for the root where there is none above. None
/// where the directory is wanted and was not resolved.
pub open spec fn placed_link(path: Seq<char>, resolved: Option<Seq<char>>) -> Option<Seq<char>> {
    let directory = if link_directory(path) is Some {
        resolved
    } else {
        Some(root())
    };
    match directory {
        Some(dir) => match file_name_of(path) {
            Some(name) => Some(joined(dir, name)),
            None => match parent_of(dir) {
                Some(above) => Some(above),
                None => Some(root()),
            },
        },
        None => None,
    }
}

/// The path whose canonical form is wanted to tell the normal form of an
/// argument: none where nothing is there, the directory of a symbolic link,
/// and the argument itself for anything else.
pub open spec fn target_of(argument: Seq<char>, kind: FileKind) -> Option<Seq<char>> {
    match kind {
        FileKind::Missing => None,
        FileKind::Symlink => link_directory(argument),
        FileKind::Other => Some(argument),
    }
}

/// The normal form of an argument: the argument itself where nothing is
/// there or nothing could be resolved, the placed link for a symbolic link,
/// the canonical form for anything else.
pub open spec fn normalized(argument: Seq<char>, status: PathStatusView) -> Seq<char> {
    match status.kind {
        FileKind::Missing => argument,
        FileKind::Symlink => match placed_link(argument, status.resolved) {
            Some(placed) => placed,
            None => argument,
        },
        FileKind::Other => match status.resolved {
            Some(resolved) => resolved,
            None => argument,
        },
    }
}

/// Two ways of writing the path of one place have one normal form, once the
/// filesystem has resolved them to the same canonical form.
pub proof fn lemma_one_place_one_normal_form(
    first: Seq<char>,
    second: Seq<char>,
    canonical: Seq<char>,
)
    ensures
        normalized(first, PathStatusView { kind: FileKind::Other, resolved: Some(canonical) })
            == normalized(
            second,
            PathStatusView { kind: FileKind::Other, resolved: Some(canonical) },
        ),
{
}

/// A link that is named by a plain name behind some path has, as its normal
/// form, that name behind the canonical form of its directory. What the link
/// points to has no part in it.
pub proof fn lemma_link_lies_in_its_directory(
    base: Seq<char>,
    name: Seq<char>,
    directory: Seq<char>,
)
    requires
        is_plain_name(name),
    ensures
        normalized(
            joined(base, name),
            PathStatusView { kind: FileKind::Symlink, resolved: Some(directory) },
        ) == joined(directory, name),
{
    let path = joined(base, name);
    lemma_file_name_of_joined(base, name);
    if is_absolute(path) {
    } else {
        let front = seq!['.'].push('/') + path.subrange(0, path.len() - name.len());
        assert(path.subrange(path.len() - name.len(), path.len() as int) =~= name);
        assert(explicit(path) =~= joined(front, name));
        lemma_file_name_of_joined(front, name);
    }
}

/// The directory whose canonical form places a link: the parent of the path,
/// taken from `.` where the path is relative. None for a path without a
/// parent.
pub fn symlink_parent(path: &str) -> (dir: Option<String>)
    ensures
        dir.deep_view() == link_directory(path@),
{
    if is_relative(path) {
        proof {
            reveal_strlit(".");
            assert("."@ =~= seq!['.']);
        }
        let spelled: String = join(".", path);
        parent(spelled.as_str())
    } else {
        parent(path)
    }
}

/// The path to resolve for an argument, given what lies under it.
pub fn resolution_target(argument: &str, kind: FileKind) -> (target: Option<String>)
    ensures
        target.deep_view() == target_of(argument@, kind),
{
    match kind {
        FileKind::Missing => None,
        FileKind::Symlink => symlink_parent(argument),
        FileKind::Other => Some(String::from_str(argument)),
    }
}

/// The normal form of a symbolic link. `resolved` is the canonical form of
/// the directory that `symlink_parent` names for `path`, or nothing where it
/// names none or the directory could not be resolved.
pub fn symlink_canonicalize(path: &str, resolved: &Option<String>) -> (placed: Option<String>)
    ensures
        placed.deep_view() == placed_link(path@, resolved.deep_view()),
{
    proof {
        reveal_strlit("/");
        assert("/"@ =~= root());
    }
    let directory: String = if symlink_parent(path).is_some() {
        match resolved {
            Some(dir) => dir.clone(),
            None => {
                return None;
            },
        }
    } else {
        String::from_str("/")
    };
    match file_name(path) {
        Some(name) => Some(join(directory.as_str(), name.as_str())),
        None => match parent(directory.as_str()) {
            Some(above) => Some(above),
            None => Some(String::from_str("/")),
        },
    }
}

/// The normal form of an argument, given what the filesystem says of it.
pub fn normalize_path(argument: &str, status: &PathStatus) -> (normal: String)
    ensures
        normal@ == normalized(argument@, status@),
{
    match status.kind {
        FileKind::Missing => String::from_str(argument),
        FileKind::Symlink => match symlink_canonicalize(argument, &status.resolved) {
            Some(placed) => placed,
            None => String::from_str(argument),
        },
        FileKind::Other => match &status.resolved {
            Some(resolved) => resolved.clone(),
            None => String::from_str(argument),
        },
    }
}

} // verus!
