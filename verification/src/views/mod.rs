//! Read-side views of the ledger: a single note with its neighbourhood,
//! and the timeline of recent notes.

pub mod ledger;
pub mod note_view;
pub mod timeline_view;
