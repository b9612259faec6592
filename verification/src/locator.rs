//! Where the package index of a repository is found.
//!
//! A locator names a mirror: an address to download from, or, when it starts
//! with `file:///`, a directory of this machine. Below a mirror the index of a
//! repository lies at `<repo>/os/<arch>/<repo>.db`. A local mirror of the
//! primary architecture is flat instead: its indexes lie directly in the
//! directory.

use vstd::prelude::*;
use crate::channel::{Arch, Repo};
use crate::text::{chars_of, spells};

verus! {

/// The place of one package index.
#[derive(Debug, PartialEq, Eq)]
pub enum IndexLocation {
    /// An address to download the index from.
    Remote { url: String },
    /// The path of the index on this machine.
    Local { path: String },
}

/// An index location as the contracts see it.
pub enum IndexLocationView {
    Remote { url: Seq<char> },
    Local { path: Seq<char> },
}

impl View for IndexLocation {
    type V = IndexLocationView;

    open spec fn view(&self) -> IndexLocationView {
        match self {
            IndexLocation::Remote { url } => IndexLocationView::Remote { url: url@ },
            IndexLocation::Local { path } => IndexLocationView::Local { path: path@ },
        }
    }
}

/// The locator names a directory of this machine.
pub open spec fn names_directory(locator: Seq<char>) -> bool {
    locator.len() >= 8 && locator.subrange(0, 8) == "file:///"@
}

/// The directory that a local locator names: what follows `file://`.
pub open spec fn directory_of(locator: Seq<char>) -> Seq<char> {
    locator.subrange(7, locator.len() as int)
}

/// The place of the index of `repo` below `mirror`, in the layout that the
/// mirrors share.
pub open spec fn nested_index(mirror: Seq<char>, arch: Arch, repo: Repo) -> Seq<char> {
    mirror + "/"@ + repo.name_text() + "/os/"@ + arch.tag_text() + "/"@ + repo.name_text() + ".db"@
}

/// The place of the index of `repo` directly in `directory`.
pub open spec fn flat_index(directory: Seq<char>, repo: Repo) -> Seq<char> {
    directory + "/"@ + repo.name_text() + ".db"@
}

/// The place of the index of `repo` as built for `arch`, for a locator.
pub open spec fn located(locator: Seq<char>, arch: Arch, repo: Repo) -> IndexLocationView {
    if names_directory(locator) {
        IndexLocationView::Local {
            path: match arch {
                Arch::X86 => flat_index(directory_of(locator), repo),
                Arch::Loong => nested_index(directory_of(locator), arch, repo),
            },
        }
    } else {
        IndexLocationView::Remote { url: nested_index(locator, arch, repo) }
    }
}

/// Tells whether a locator names a directory of this machine.
pub fn is_local(locator: &str) -> (r: bool)
    ensures
        r == names_directory(locator@),
{
    let chars = chars_of(locator);
    chars.len() >= 8 && spells(&chars, 0, 8, "file:///")
}

fn nested(mirror: &str, arch: Arch, repo: Repo) -> (r: String)
    ensures
        r@ == nested_index(mirror@, arch, repo),
{
    let mut r = String::from_str(mirror);
    r.append("/");
    r.append(repo.name());
    r.append("/os/");
    r.append(arch.tag());
    r.append("/");
    r.append(repo.name());
    r.append(".db");
    r
}

fn flat(directory: &str, repo: Repo) -> (r: String)
    ensures
        r@ == flat_index(directory@, repo),
{
    let mut r = String::from_str(directory);
    r.append("/");
    r.append(repo.name());
    r.append(".db");
    r
}

/// Finds the index of `repo` as built for `arch`.
pub fn index_location(locator: &str, arch: Arch, repo: Repo) -> (r: IndexLocation)
    ensures
        r@ == located(locator@, arch, repo),
{
    let chars = chars_of(locator);
    if chars.len() >= 8 && spells(&chars, 0, 8, "file:///") {
        let directory = locator.substring_char(7, chars.len());
        let path = match arch {
            Arch::X86 => flat(directory, repo),
            Arch::Loong => nested(directory, arch, repo),
        };
        IndexLocation::Local { path }
    } else {
        IndexLocation::Remote { url: nested(locator, arch, repo) }
    }
}

} // verus!
