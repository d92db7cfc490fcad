//! Build identity of the library: crate version and source revision.

use vstd::prelude::*;
use vstd::string::*;

verus! {

/// The crate version and the source revision the library was built from.
#[derive(Debug, Clone, Copy, PartialEq, Eq)]
pub struct BuildInfo {
    pub crate_version: &'static str,
    pub git_branch: &'static str,
    pub git_commit: &'static str,
    pub git_short_commit: &'static str,
    pub git_tag: Option<&'static str>,
}

/// `label (short)`: the form in which a version is shown.
pub open spec fn labelled(label: Seq<char>, short: Seq<char>) -> Seq<char> {
    label + " ("@ + short + ")"@
}

/// The version text of `info`: its tag when it has one, else its branch,
/// followed by the short commit in parentheses.
pub open spec fn spec_display_version(info: BuildInfo) -> Seq<char> {
    match info.git_tag {
        Some(tag) => labelled(tag@, info.git_short_commit@),
        None => labelled(info.git_branch@, info.git_short_commit@),
    }
}

impl BuildInfo {
    /// The version text, such as `v0.1.0 (abcdef012345)` or `main (abcdef012345)`.
    pub fn display_version(&self) -> (s: String)
        ensures
            s@ == spec_display_version(*self),
    {
        let label = match self.git_tag {
            Some(tag) => tag,
            None => self.git_branch,
        };
        let mut s = String::from_str(label);
        s.append(" (");
        s.append(self.git_short_commit);
        s.append(")");
        s
    }
}

/// Version of this crate.
pub const CRATE_VERSION: &'static str = "0.1.0";

/// What stands for revision data that could not be determined at build time.
pub const UNKNOWN_REVISION: &'static str = "unknown";

/// Build info from the raw revision values; an empty tag means "not on a tag".
pub fn build_info_from(
    crate_version: &'static str,
    git_branch: &'static str,
    git_commit: &'static str,
    git_short_commit: &'static str,
    git_tag: &'static str,
) -> (info: BuildInfo)
    ensures
        info.crate_version == crate_version,
        info.git_branch == git_branch,
        info.git_commit == git_commit,
        info.git_short_commit == git_short_commit,
        info.git_tag == (if git_tag@.len() == 0 { None } else { Some(git_tag) }),
{
    BuildInfo {
        crate_version,
        git_branch,
        git_commit,
        git_short_commit,
        git_tag: if git_tag.is_empty() {
            None
        } else {
            Some(git_tag)
        },
    }
}

/// The build info of this library. The revision is recorded as unknown: the
/// crate is built without access to its source repository.
pub fn build_info() -> (info: BuildInfo)
    ensures
        info.crate_version@ == CRATE_VERSION@,
        info.git_branch@ == UNKNOWN_REVISION@,
        info.git_commit@ == UNKNOWN_REVISION@,
        info.git_short_commit@ == UNKNOWN_REVISION@,
        info.git_tag is None,
{
    proof {
        reveal_strlit("");
    }
    build_info_from(CRATE_VERSION, UNKNOWN_REVISION, UNKNOWN_REVISION, UNKNOWN_REVISION, "")
}

/// The version text of this library.
pub fn version_string() -> (s: String)
    ensures
        s@ == labelled(UNKNOWN_REVISION@, UNKNOWN_REVISION@),
{
    build_info().display_version()
}

} // verus!
