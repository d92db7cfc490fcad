//! Synap: an append-only ledger of short notes ("thoughts"), linked into a
//! graph by reply and edit links, with a turn-based peer-to-peer sync protocol.
//!
//! The crate holds the parts of Synap that compute: hashtag extraction,
//! short-id prefix checks, database path resolution, build/version strings,
//! DTO conversions, note-graph navigation over a ledger snapshot, and the
//! sync protocol (framing, manifests, record diffing, de-duplication and the
//! two-role session state machine). Transport, storage and terminal output
//! are left to the application around it.

pub mod cli;
pub mod completions;
pub mod config;
pub mod dto;
pub mod ffi;
pub mod ids;
pub mod message;
pub mod revision;
pub mod search;
pub mod sync;
pub mod text;
pub mod theme;
pub mod version;
pub mod views;

use vstd::prelude::*;

verus! {

} // verus!
