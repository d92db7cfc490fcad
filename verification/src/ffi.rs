//! Records shaped for foreign-language bindings (Kotlin and the like).

use vstd::prelude::*;
use vstd::string::*;
use crate::dto::NoteDTO as CoreNoteDto;
use crate::version::{spec_display_version, BuildInfo as CoreBuildInfo};

verus! {

/// A note for bindings: the creation time is a signed 64-bit value.
#[derive(Debug, Clone)]
pub struct NoteDTO {
    pub id: String,
    pub content: String,
    pub tags: Vec<String>,
    pub created_at: i64,
}

impl From<CoreNoteDto> for NoteDTO {
    fn from(note: CoreNoteDto) -> (r: Self) {
        NoteDTO { id: note.id, content: note.content, tags: note.tags, created_at: note.created_at as i64 }
    }
}

impl vstd::std_specs::convert::FromSpecImpl<CoreNoteDto> for NoteDTO {
    open spec fn obeys_from_spec() -> bool {
        true
    }

    open spec fn from_spec(note: CoreNoteDto) -> Self {
        NoteDTO { id: note.id, content: note.content, tags: note.tags, created_at: note.created_at as i64 }
    }
}

/// Build info for bindings, with owned strings and the version text.
#[derive(Debug, Clone)]
pub struct BuildInfo {
    pub crate_version: String,
    pub git_branch: String,
    pub git_commit: String,
    pub git_short_commit: String,
    pub git_tag: Option<String>,
    pub display_version: String,
}

impl From<CoreBuildInfo> for BuildInfo {
    /// Converts the library's build info.
    fn from(info: CoreBuildInfo) -> (r: Self)
        ensures
            r.crate_version@ == info.crate_version@,
            r.git_branch@ == info.git_branch@,
            r.git_commit@ == info.git_commit@,
            r.git_short_commit@ == info.git_short_commit@,
            match info.git_tag {
                Some(t) => r.git_tag is Some && r.git_tag->0@ == t@,
                None => r.git_tag is None,
            },
            r.display_version@ == spec_display_version(info),
    {
        let display_version = info.display_version();
        BuildInfo {
            crate_version: String::from_str(info.crate_version),
            git_branch: String::from_str(info.git_branch),
            git_commit: String::from_str(info.git_commit),
            git_short_commit: String::from_str(info.git_short_commit),
            git_tag: match info.git_tag {
                Some(t) => Some(String::from_str(t)),
                None => None,
            },
            display_version,
        }
    }
}

/// The owned strings of a converted build info have no spec-level
/// constructor, so the conversion is not described by a spec function: the
/// `ensures` of `from` above states its result.
impl vstd::std_specs::convert::FromSpecImpl<CoreBuildInfo> for BuildInfo {
    open spec fn obeys_from_spec() -> bool {
        false
    }

    open spec fn from_spec(info: CoreBuildInfo) -> Self {
        vstd::pervasive::arbitrary()
    }
}

} // verus!
