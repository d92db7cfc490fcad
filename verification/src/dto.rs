//! The plain note record handed to front ends.

use vstd::prelude::*;

verus! {

/// A note as front ends see it.
#[derive(Debug, Clone)]
pub struct NoteDTO {
    /// The note id as a hyphenated lowercase UUID.
    pub id: String,
    pub content: String,
    /// The contents of the note's tags.
    pub tags: Vec<String>,
    /// Creation time in milliseconds since the Unix epoch.
    pub created_at: u64,
}

} // verus!
