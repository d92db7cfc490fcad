//! Peer-to-peer synchronization of two ledgers.
//!
//! The protocol is turn based: at every step one peer writes and the other
//! reads, so neither can block on a full transport buffer. Each peer sends
//! the keys it holds, asks for the keys it lacks, receives those records and
//! imports the ones it has not seen before.

pub mod protocol;
pub mod frame;
pub mod channel;
pub mod archive;
pub mod import;
pub mod session;
pub mod service;
pub mod collect;
pub mod store;
