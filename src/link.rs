//! The link to the current compiler: its state is recovered from the path
//! it points at, and activating a version rewrites it and checks it again.

use vstd::prelude::*;
use crate::layout::{decompose, decomposable, decomposition, entrypoint_of, LayoutError, ToolchainPath};
use crate::target::Target;
use crate::version::Version;

verus! {

/// What reading the link gave.
pub enum LinkRead {
    /// There is no link.
    Missing,
    /// Reading the link failed for another reason.
    Failed { reason: String },
    /// The link points at `path`; `is_file` says whether that is an existing regular file.
    Points { path: ToolchainPath, is_file: bool },
}

/// The link is present but not in a usable state.
#[derive(Debug)]
pub enum StateError {
    /// The link could not be read.
    ReadFailed { reason: String },
    /// The link points at something that is not an existing regular file.
    NotAFile { path: ToolchainPath },
    /// The link points at a path outside the layout.
    Unrecognised { path: ToolchainPath, error: LayoutError },
    /// Something other than a link stands where the link belongs.
    NotALink,
    /// After activation the link names another version.
    UnexpectedVersion { expected: Version, found: Version },
    /// After activation the link is missing.
    Vanished,
}

/// What resolving a read of the link gives: nothing when it is missing, the
/// version and platform of its target when that is a file of the layout,
/// an error otherwise.
pub open spec fn resolution(read: LinkRead, r: Result<Option<(Version, Target)>, StateError>) -> bool {
    match read {
        LinkRead::Missing => r == Ok::<Option<(Version, Target)>, StateError>(None),
        LinkRead::Failed { reason } => r matches Err(StateError::ReadFailed { reason: e }) && e@
            == reason@,
        LinkRead::Points { path, is_file } => if !is_file {
            r matches Err(StateError::NotAFile { path: p }) && p@ == path@
        } else if !decomposable(path@) {
            r matches Err(StateError::Unrecognised { path: p, error: _ }) && p@ == path@
        } else {
            r matches Ok(Some((v, t))) && decomposition(path@, Ok((v, t)))
        },
    }
}

/// The current compiler as the link shows it.
pub fn resolve(read: LinkRead) -> (r: Result<Option<(Version, Target)>, StateError>)
    ensures
        resolution(read, r),
{
    match read {
        LinkRead::Missing => Ok(None),
        LinkRead::Failed { reason } => Err(StateError::ReadFailed { reason }),
        LinkRead::Points { path, is_file } => {
            if !is_file {
                return Err(StateError::NotAFile { path });
            }
            match decompose(&path) {
                Ok(vt) => Ok(Some(vt)),
                Err(error) => Err(StateError::Unrecognised { path, error }),
            }
        },
    }
}

/// What stands where the link belongs.
#[derive(Debug, Clone, Copy, PartialEq, Eq, Structural)]
pub enum ExistingEntry {
    Absent,
    Link,
    Other,
}

/// Whether an old link has to be removed before the new one is made; an
/// entry that is not a link is never overwritten.
pub fn must_remove_before_link(existing: ExistingEntry) -> (r: Result<bool, StateError>)
    ensures
        match existing {
            ExistingEntry::Absent => r matches Ok(false),
            ExistingEntry::Link => r matches Ok(true),
            ExistingEntry::Other => r matches Err(StateError::NotALink),
        },
{
    match existing {
        ExistingEntry::Absent => Ok(false),
        ExistingEntry::Link => Ok(true),
        ExistingEntry::Other => Err(StateError::NotALink),
    }
}

/// Checks the link read again after activating `expected`: it must resolve
/// to that version.
pub fn confirm_activation(expected: Version, read: LinkRead) -> (r: Result<
    (Version, Target),
    StateError,
>)
    ensures
        match r {
            Ok((v, t)) => v == expected && resolution(read, Ok(Some((v, t)))),
            Err(_) => forall|t: Target| !resolution(read, Ok(Some((expected, t)))),
        },
{
    let ghost g = read;
    match resolve(read) {
        Ok(Some((v, t))) => {
            if v == expected {
                Ok((v, t))
            } else {
                proof {
                    assert forall|u: Target| !resolution(g, Ok(Some((expected, u)))) by {
                        if resolution(g, Ok(Some((expected, u)))) {
                            let p = g->path;
                            assert(decomposition(p@, Ok((expected, u))));
                            crate::version::lemma_version_text_injective(v, expected);
                        }
                    }
                }
                Err(StateError::UnexpectedVersion { expected, found: v })
            }
        },
        Ok(None) => Err(StateError::Vanished),
        Err(e) => Err(e),
    }
}

/// Once the link points at the compiler file of a version and platform,
/// resolving it gives exactly that version and platform.
pub proof fn law_resolve_after_activate(
    root: Seq<Seq<char>>,
    v: Version,
    t: Target,
    path: ToolchainPath,
    r: Result<Option<(Version, Target)>, StateError>,
)
    requires
        path@ == entrypoint_of(root, v, t),
        resolution(LinkRead::Points { path, is_file: true }, r),
    ensures
        r == Ok::<Option<(Version, Target)>, StateError>(Some((v, t))),
{
    if let Ok(Some((w, u))) = r {
        crate::layout::law_layout_round_trip(root, v, t, Ok((w, u)));
    } else {
        assert(decomposable(path@)) by {
            assert(path@[path@.len() - 2] == t.spec_name());
            assert(path@[path@.len() - 3] == v.text());
            assert(crate::version::is_version_text(v.text()));
        }
    }
}

/// A link to something that is not an existing file is an error, never the
/// absence of a compiler.
pub proof fn law_dangling_link_is_error(
    path: ToolchainPath,
    r: Result<Option<(Version, Target)>, StateError>,
)
    requires
        resolution(LinkRead::Points { path, is_file: false }, r),
    ensures
        r matches Err(StateError::NotAFile { .. }),
{
}

} // verus!
