//! The values exchanged by the sync protocol: record keys and records, the
//! messages, the configuration, the statistics and the errors.

use vstd::prelude::*;

verus! {

/// Version of the sync protocol that this library speaks.
pub const PROTOCOL_VERSION: u8 = 1;

/// Largest payload that one frame may carry (16 MiB).
pub const MAX_FRAME_SIZE: usize = 16 * 1024 * 1024;

/// Settings of a sync session.
#[derive(Debug, Clone, Copy, PartialEq, Eq, Structural)]
pub struct SyncConfig {
    /// Largest number of records sent in one `Records` message (0 counts as 1).
    pub max_records_per_message: usize,
}

impl Default for SyncConfig {
    fn default() -> (c: Self)
        ensures
            c.max_records_per_message == 1000,
    {
        SyncConfig { max_records_per_message: 1000 }
    }
}

/// What a finished sync session reports.
#[derive(Debug, Clone, Copy, PartialEq, Eq, Structural)]
pub struct SyncStats {
    pub records_sent: usize,
    pub records_received: usize,
    pub records_applied: usize,
    pub records_skipped: usize,
    pub bytes_sent: usize,
    pub bytes_received: usize,
    pub duration_ms: u64,
}

impl SyncStats {
    /// All counters at zero.
    pub open spec fn zero() -> SyncStats {
        SyncStats {
            records_sent: 0,
            records_received: 0,
            records_applied: 0,
            records_skipped: 0,
            bytes_sent: 0,
            bytes_received: 0,
            duration_ms: 0,
        }
    }

    /// Statistics with every counter at zero.
    pub fn new() -> (s: Self)
        ensures
            s == SyncStats::zero(),
    {
        SyncStats {
            records_sent: 0,
            records_received: 0,
            records_applied: 0,
            records_skipped: 0,
            bytes_sent: 0,
            bytes_received: 0,
            duration_ms: 0,
        }
    }
}

impl Default for SyncStats {
    fn default() -> (s: Self)
        ensures
            s == SyncStats::zero(),
    {
        SyncStats::new()
    }
}

/// A tag as the ledger exchanges it.
#[derive(Debug, Clone, PartialEq, Eq)]
pub struct TagSyncRecord {
    pub id: u128,
    pub content: String,
}

/// A note as the ledger exchanges it.
#[derive(Debug, Clone, PartialEq, Eq)]
pub struct NoteSyncRecord {
    pub id: u128,
    pub content: String,
    pub tags: Vec<u128>,
}

/// Identifies a record of the ledger: two records with the same key are the
/// same fact. Ids are the 128-bit values of the UUIDs.
#[derive(Debug, Clone, Copy, PartialEq, Eq, Structural, Hash)]
pub enum RecordKey {
    Tag(u128),
    Note(u128),
    ReplyLink { parent_id: u128, child_id: u128 },
    EditLink { previous_id: u128, next_id: u128 },
    NoteTombstone(u128),
}

/// One fact of the append-only ledger.
#[derive(Debug, Clone, PartialEq, Eq)]
pub enum SyncRecord {
    Tag(TagSyncRecord),
    Note(NoteSyncRecord),
    ReplyLink { parent_id: u128, child_id: u128 },
    EditLink { previous_id: u128, next_id: u128 },
    NoteTombstone { note_id: u128 },
}

/// The key of a record.
pub open spec fn spec_key(r: SyncRecord) -> RecordKey {
    match r {
        SyncRecord::Tag(t) => RecordKey::Tag(t.id),
        SyncRecord::Note(n) => RecordKey::Note(n.id),
        SyncRecord::ReplyLink { parent_id, child_id } => RecordKey::ReplyLink {
            parent_id,
            child_id,
        },
        SyncRecord::EditLink { previous_id, next_id } => RecordKey::EditLink {
            previous_id,
            next_id,
        },
        SyncRecord::NoteTombstone { note_id } => RecordKey::NoteTombstone(note_id),
    }
}

/// Key law: the key of a record carries the record's identity (the id of a
/// tag or a note, both ends of a reply or edit link, the note of a
/// tombstone), so two link or tombstone records share a key only when they
/// are the same record, and two tags or notes only when they have the same id.
pub proof fn lemma_key_identifies(r: SyncRecord, s: SyncRecord)
    ensures
        r is Tag ==> spec_key(r) == RecordKey::Tag(r->Tag_0.id),
        r is Note ==> spec_key(r) == RecordKey::Note(r->Note_0.id),
        r matches SyncRecord::ReplyLink { parent_id, child_id } ==> spec_key(r) == (RecordKey::ReplyLink {
            parent_id,
            child_id,
        }),
        r matches SyncRecord::EditLink { previous_id, next_id } ==> spec_key(r) == (RecordKey::EditLink {
            previous_id,
            next_id,
        }),
        r matches SyncRecord::NoteTombstone { note_id } ==> spec_key(r) == RecordKey::NoteTombstone(note_id),
        (r is ReplyLink || r is EditLink || r is NoteTombstone) && spec_key(r) == spec_key(s) ==> r == s,
        r is Tag && spec_key(r) == spec_key(s) ==> s is Tag && s->Tag_0.id == r->Tag_0.id,
        r is Note && spec_key(r) == spec_key(s) ==> s is Note && s->Note_0.id == r->Note_0.id,
{
}

/// The keys of a sequence of records, in the same order.
pub open spec fn keys_of(rs: Seq<SyncRecord>) -> Seq<RecordKey> {
    rs.map_values(|r: SyncRecord| spec_key(r))
}

impl SyncRecord {
    /// The key that identifies this record.
    pub fn key(&self) -> (k: RecordKey)
        ensures
            k == spec_key(*self),
    {
        match self {
            SyncRecord::Tag(record) => RecordKey::Tag(record.id),
            SyncRecord::Note(record) => RecordKey::Note(record.id),
            SyncRecord::ReplyLink { parent_id, child_id } => RecordKey::ReplyLink {
                parent_id: *parent_id,
                child_id: *child_id,
            },
            SyncRecord::EditLink { previous_id, next_id } => RecordKey::EditLink {
                previous_id: *previous_id,
                next_id: *next_id,
            },
            SyncRecord::NoteTombstone { note_id } => RecordKey::NoteTombstone(*note_id),
        }
    }
}

/// The value of a record: what it says, with its texts and id lists as
/// sequences.
pub enum RecordModel {
    Tag { id: u128, content: Seq<char> },
    Note { id: u128, content: Seq<char>, tags: Seq<u128> },
    ReplyLink { parent_id: u128, child_id: u128 },
    EditLink { previous_id: u128, next_id: u128 },
    NoteTombstone { note_id: u128 },
}

/// The value of a record.
pub open spec fn record_model(r: SyncRecord) -> RecordModel {
    match r {
        SyncRecord::Tag(t) => RecordModel::Tag { id: t.id, content: t.content@ },
        SyncRecord::Note(n) => RecordModel::Note { id: n.id, content: n.content@, tags: n.tags@ },
        SyncRecord::ReplyLink { parent_id, child_id } => RecordModel::ReplyLink { parent_id, child_id },
        SyncRecord::EditLink { previous_id, next_id } => RecordModel::EditLink { previous_id, next_id },
        SyncRecord::NoteTombstone { note_id } => RecordModel::NoteTombstone { note_id },
    }
}

/// The values of a sequence of records, in the same order.
pub open spec fn record_models(rs: Seq<SyncRecord>) -> Seq<RecordModel> {
    rs.map_values(|r: SyncRecord| record_model(r))
}

/// Position of a key in the order that the derived `Ord` of the key type
/// gives: first the variant, then the ids in field order (a UUID orders as
/// its big-endian 128-bit value).
pub open spec fn key_rank(k: RecordKey) -> (int, u128, u128) {
    match k {
        RecordKey::Tag(id) => (0, id, 0),
        RecordKey::Note(id) => (1, id, 0),
        RecordKey::ReplyLink { parent_id, child_id } => (2, parent_id, child_id),
        RecordKey::EditLink { previous_id, next_id } => (3, previous_id, next_id),
        RecordKey::NoteTombstone(id) => (4, id, 0),
    }
}

/// Strict order on record keys.
pub open spec fn key_lt(a: RecordKey, b: RecordKey) -> bool {
    let (ra, xa, ya) = key_rank(a);
    let (rb, xb, yb) = key_rank(b);
    ||| ra < rb
    ||| ra == rb && xa < xb
    ||| ra == rb && xa == xb && ya < yb
}

/// `a` comes no later than `b`.
pub open spec fn key_le(a: RecordKey, b: RecordKey) -> bool {
    !key_lt(b, a)
}

/// Keys ordered by `key_rank` coincide exactly when their ranks do.
pub proof fn lemma_key_rank_injective(a: RecordKey, b: RecordKey)
    ensures
        key_rank(a) == key_rank(b) <==> a == b,
        !key_lt(a, b) && !key_lt(b, a) <==> a == b,
{
}

/// Compares two keys in the order of `key_lt`.
pub fn key_less(a: &RecordKey, b: &RecordKey) -> (lt: bool)
    ensures
        lt == key_lt(*a, *b),
{
    let (ra, xa, ya) = rank(a);
    let (rb, xb, yb) = rank(b);
    ra < rb || (ra == rb && xa < xb) || (ra == rb && xa == xb && ya < yb)
}

fn rank(k: &RecordKey) -> (r: (u8, u128, u128))
    ensures
        r.0 as int == key_rank(*k).0,
        r.1 == key_rank(*k).1,
        r.2 == key_rank(*k).2,
{
    match k {
        RecordKey::Tag(id) => (0, *id, 0),
        RecordKey::Note(id) => (1, *id, 0),
        RecordKey::ReplyLink { parent_id, child_id } => (2, *parent_id, *child_id),
        RecordKey::EditLink { previous_id, next_id } => (3, *previous_id, *next_id),
        RecordKey::NoteTombstone(id) => (4, *id, 0),
    }
}

/// The messages of the sync protocol.
#[derive(Debug, Clone, PartialEq, Eq)]
pub enum SyncMessage {
    Hello { version: u8 },
    Manifest { keys: Vec<RecordKey> },
    Need { keys: Vec<RecordKey> },
    Records { records: Vec<SyncRecord> },
    RecordsDone,
    Done,
}

/// The kind of an I/O failure.
#[derive(Debug, Clone, Copy, PartialEq, Eq, Structural)]
pub enum IoErrorKind {
    /// A frame to send is too large.
    InvalidInput,
    /// A received frame is too large or does not decode.
    InvalidData,
    /// The channel ended in the middle of a frame.
    UnexpectedEof,
    /// Any other failure of the transport.
    Other,
}

/// The message that a session waited for when another one came.
#[derive(Debug, Clone, Copy, PartialEq, Eq, Structural)]
pub enum ExpectedMessage {
    Hello,
    Manifest,
    Need,
    RecordsOrRecordsDone,
    Done,
}

/// The name under which errors report an expectation.
pub open spec fn expected_name(e: ExpectedMessage) -> Seq<char> {
    match e {
        ExpectedMessage::Hello => "Hello"@,
        ExpectedMessage::Manifest => "Manifest"@,
        ExpectedMessage::Need => "Need"@,
        ExpectedMessage::RecordsOrRecordsDone => "Records or RecordsDone"@,
        ExpectedMessage::Done => "Done"@,
    }
}

impl ExpectedMessage {
    /// The name under which errors report this expectation.
    pub fn as_str(&self) -> (s: &'static str)
        ensures
            s@ == expected_name(*self),
    {
        match self {
            ExpectedMessage::Hello => "Hello",
            ExpectedMessage::Manifest => "Manifest",
            ExpectedMessage::Need => "Need",
            ExpectedMessage::RecordsOrRecordsDone => "Records or RecordsDone",
            ExpectedMessage::Done => "Done",
        }
    }
}

/// Why a sync session failed.
#[derive(Debug, Clone, PartialEq, Eq)]
pub enum SyncError {
    /// The transport failed, or a frame was too large or malformed.
    Io(IoErrorKind),
    /// The local ledger could not be read or written.
    Storage,
    /// The peer speaks another protocol version.
    ProtocolVersionMismatch { local: u8, remote: u8 },
    /// The peer sent a message out of turn.
    UnexpectedMessage { expected: ExpectedMessage, got: SyncMessage },
}

} // verus!
