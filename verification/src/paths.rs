//! Local paths as lists of parts.
use std::path::{Component, Path, PathBuf, Prefix};
use vstd::prelude::*;
use crate::text::texts;

verus! {

/// `std::path::Path`, carried as an opaque value.
#[verifier::external_type_specification]
#[verifier::external_body]
pub struct ExPath(std::path::Path);

/// `std::path::PathBuf`, carried as an opaque value.
#[verifier::external_type_specification]
#[verifier::external_body]
pub struct ExPathBuf(std::path::PathBuf);

/// One component of a local path.
#[derive(Debug)]
pub enum PathPart {
    /// A drive such as `C:`.
    Disk(u8),
    /// A drive behind the verbatim marker, such as `\\?\C:`.
    VerbatimDisk(u8),
    /// A Windows prefix that names no drive.
    OtherPrefix,
    RootDir,
    CurDir,
    ParentDir,
    Normal(String),
    /// A component whose name is not Unicode.
    NotUnicode,
}

/// A path component with its name as a sequence of characters.
pub enum PartView {
    Disk(u8),
    VerbatimDisk(u8),
    OtherPrefix,
    RootDir,
    CurDir,
    ParentDir,
    Normal(Seq<char>),
    NotUnicode,
}

impl View for PathPart {
    type V = PartView;

    open spec fn view(&self) -> PartView {
        match self {
            PathPart::Disk(letter) => PartView::Disk(*letter),
            PathPart::VerbatimDisk(letter) => PartView::VerbatimDisk(*letter),
            PathPart::OtherPrefix => PartView::OtherPrefix,
            PathPart::RootDir => PartView::RootDir,
            PathPart::CurDir => PartView::CurDir,
            PathPart::ParentDir => PartView::ParentDir,
            PathPart::Normal(name) => PartView::Normal(name@),
            PathPart::NotUnicode => PartView::NotUnicode,
        }
    }
}

/// The views of a list of parts.
pub open spec fn part_views(parts: Seq<PathPart>) -> Seq<PartView> {
    parts.map_values(|p: PathPart| p@)
}

/// What a path holds: its components, as `Path::components` walks them.
pub uninterp spec fn components_of(p: &Path) -> Seq<PartView>;

/// The path that arises when the pieces are pushed one after the other onto
/// an empty path.
pub uninterp spec fn path_of(pieces: Seq<Seq<char>>) -> PathBuf;

/// The path that a path buffer holds.
pub uninterp spec fn path_in(b: &PathBuf) -> &Path;

/// A name that every platform takes for one plain component of a path.
pub open spec fn plain_part(name: Seq<char>) -> bool {
    &&& name.len() > 0
    &&& name != "."@
    &&& name != ".."@
    &&& !name.contains('/')
    &&& !name.contains('\\')
    &&& !name.contains(':')
}

/// A name that is one plain component of a path: on every platform, or by what
/// this platform makes of the path that consists of the name alone.
pub open spec fn one_part(name: Seq<char>) -> bool {
    plain_part(name) || components_of(path_in(&path_of(seq![name]))) == seq![
        PartView::Normal(name),
    ]
}

/// Each of the names is one plain component of a path.
pub open spec fn all_one_part(names: Seq<Seq<char>>) -> bool {
    forall|i: int| 0 <= i < names.len() ==> one_part(#[trigger] names[i])
}

/// The components of the path of the names below the root.
pub open spec fn rooted_parts(names: Seq<Seq<char>>) -> Seq<PartView> {
    seq![PartView::RootDir] + names.map_values(|n: Seq<char>| PartView::Normal(n))
}

/// The path ends in a component that can be taken off: not in a root or a
/// prefix.
pub open spec fn has_parent(parts: Seq<PartView>) -> bool {
    &&& parts.len() > 0
    &&& match parts.last() {
        PartView::Normal(_) => true,
        PartView::NotUnicode => true,
        PartView::CurDir => true,
        PartView::ParentDir => true,
        _ => false,
    }
}

/// `PathBuf::as_path` gives the path that the buffer holds.
pub assume_specification[ std::path::PathBuf::as_path ](b: &PathBuf) -> (r: &Path)
    ensures
        r == path_in(b),
;

/// Calls `Path::parent`.  The contract claims what is documented: the path
/// without its last component, unless it ends in a root or a prefix or is
/// empty.
#[verifier::external_body]
pub(crate) fn path_parent(p: &Path) -> (r: Option<PathBuf>)
    ensures
        match r {
            Some(d) => has_parent(components_of(p)) && components_of(path_in(&d)) == components_of(
                p,
            ).drop_last(),
            None => !has_parent(components_of(p)),
        },
{
    p.parent().map(Path::to_path_buf)
}

/// Calls `Path::components` and turns each component into a `PathPart`.  The
/// contract claims that the parts are the components of the path, in order;
/// how a path divides into components is the rule of the platform and is
/// left to the name.
#[verifier::external_body]
pub(crate) fn path_parts(p: &Path) -> (r: Vec<PathPart>)
    ensures
        part_views(r@) == components_of(p),
{
    p.components().map(|c| match c {
        Component::Prefix(prefix) => match prefix.kind() {
            Prefix::Disk(letter) => PathPart::Disk(letter),
            Prefix::VerbatimDisk(letter) => PathPart::VerbatimDisk(letter),
            _ => PathPart::OtherPrefix,
        },
        Component::RootDir => PathPart::RootDir,
        Component::CurDir => PathPart::CurDir,
        Component::ParentDir => PathPart::ParentDir,
        Component::Normal(name) => match name.to_str() {
            Some(s) => PathPart::Normal(s.to_string()),
            None => PathPart::NotUnicode,
        },
    }).collect()
}

/// Collects the pieces with `PathBuf::from_iter`, which pushes each of them
/// onto an empty path.  The contract claims that the path depends on the
/// pieces alone, and that names which are one plain component each, pushed onto
/// the root slash, are the components below the root.  How a push combines
/// other pieces is the rule of the platform and is left to the name.
#[verifier::external_body]
pub(crate) fn build_path(pieces: &Vec<String>) -> (r: PathBuf)
    ensures
        r == path_of(texts(pieces@)),
        texts(pieces@).len() > 0 && texts(pieces@)[0] == "/"@ && all_one_part(
            texts(pieces@).drop_first(),
        ) ==> components_of(path_in(&r)) == rooted_parts(texts(pieces@).drop_first()),
{
    pieces.iter().collect()
}

} // verus!
