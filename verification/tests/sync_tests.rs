use std::collections::{BTreeSet, VecDeque};
use synap::sync::archive::LocalArchive;
use synap::sync::channel::{read_frame, write_frame, LoggedChannel, SyncChannel};
use synap::sync::frame::{decode_frame, encode_frame, frame_length};
use synap::sync::import::plan_import;
use synap::sync::collect::collect_local_records;
use synap::sync::store::apply_plan;
use synap::views::ledger::{NoteReader, Tag};
use synap::sync::protocol::ExpectedMessage;
use synap::sync::protocol::{
    IoErrorKind, NoteSyncRecord, RecordKey, SyncConfig, SyncError, SyncMessage, SyncRecord, SyncStats,
    TagSyncRecord, MAX_FRAME_SIZE, PROTOCOL_VERSION,
};
use synap::sync::service::SyncService;
use synap::sync::session::{StepOutcome, SyncAction, SyncSession};

fn tag(id: u128, content: &str) -> SyncRecord {
    SyncRecord::Tag(TagSyncRecord { id, content: content.to_string() })
}

fn note(id: u128, content: &str, tags: Vec<u128>) -> SyncRecord {
    SyncRecord::Note(NoteSyncRecord { id, content: content.to_string(), tags })
}

#[test]
fn record_keys() {
    assert_eq!(tag(7, "t").key(), RecordKey::Tag(7));
    assert_eq!(note(9, "n", vec![7]).key(), RecordKey::Note(9));
    assert_eq!(
        SyncRecord::ReplyLink { parent_id: 1, child_id: 2 }.key(),
        RecordKey::ReplyLink { parent_id: 1, child_id: 2 }
    );
    assert_eq!(
        SyncRecord::EditLink { previous_id: 3, next_id: 4 }.key(),
        RecordKey::EditLink { previous_id: 3, next_id: 4 }
    );
    assert_eq!(SyncRecord::NoteTombstone { note_id: 5 }.key(), RecordKey::NoteTombstone(5));
}

#[test]
fn default_config_and_stats() {
    assert_eq!(SyncConfig::default().max_records_per_message, 1000);
    let s = SyncStats::default();
    assert_eq!(s.bytes_sent + s.bytes_received + s.records_sent + s.records_applied, 0);
}

#[test]
fn frame_layout_and_roundtrip() {
    let frame = encode_frame(&[1, 2, 3]).unwrap();
    assert_eq!(frame, vec![0, 0, 0, 3, 1, 2, 3]);
    let mut stream = frame.clone();
    stream.extend_from_slice(&[9, 9]);
    let (payload, used) = decode_frame(&stream).unwrap();
    assert_eq!(payload, vec![1, 2, 3]);
    assert_eq!(used, 7);
    let empty = encode_frame(&[]).unwrap();
    assert_eq!(empty, vec![0, 0, 0, 0]);
    assert_eq!(decode_frame(&empty).unwrap(), (vec![], 4));
}

#[test]
fn frame_size_limits() {
    let big = vec![0u8; MAX_FRAME_SIZE + 1];
    assert_eq!(encode_frame(&big).unwrap_err(), SyncError::Io(IoErrorKind::InvalidInput));
    assert_eq!(encode_frame(&big[..MAX_FRAME_SIZE]).unwrap().len(), MAX_FRAME_SIZE + 4);
    assert_eq!(frame_length([0x01, 0x00, 0x00, 0x00]), Ok(16 * 1024 * 1024));
    assert_eq!(frame_length([0x01, 0x00, 0x00, 0x01]).unwrap_err(), SyncError::Io(IoErrorKind::InvalidData));
    assert_eq!(decode_frame(&[0x01, 0x00, 0x00, 0x01]).unwrap_err(), SyncError::Io(IoErrorKind::InvalidData));
}

#[test]
fn frame_truncated() {
    assert_eq!(decode_frame(&[0, 0]).unwrap_err(), SyncError::Io(IoErrorKind::UnexpectedEof));
    assert_eq!(decode_frame(&[0, 0, 0, 5, 1, 2]).unwrap_err(), SyncError::Io(IoErrorKind::UnexpectedEof));
}

#[test]
fn archive_orders_records_and_lists_keys() {
    let archive = LocalArchive::new(vec![
        SyncRecord::NoteTombstone { note_id: 1 },
        note(5, "b", vec![]),
        tag(3, "x"),
        note(2, "a", vec![3]),
        tag(3, "x"),
    ]);
    let keys: Vec<RecordKey> = archive.records.iter().map(|r| r.key()).collect();
    assert_eq!(
        keys,
        vec![RecordKey::Tag(3), RecordKey::Tag(3), RecordKey::Note(2), RecordKey::Note(5), RecordKey::NoteTombstone(1)]
    );
    assert_eq!(archive.keys, vec![RecordKey::Tag(3), RecordKey::Note(2), RecordKey::Note(5), RecordKey::NoteTombstone(1)]);
    assert!(archive.contains_key(&RecordKey::Note(5)));
    assert!(!archive.contains_key(&RecordKey::Note(3)));
}

#[test]
fn archive_diff_and_selection() {
    let archive = LocalArchive::new(vec![tag(1, "a"), note(2, "n", vec![1])]);
    let remote = vec![RecordKey::Note(2), RecordKey::Note(4), RecordKey::Tag(9), RecordKey::Note(4)];
    assert_eq!(archive.missing_from(&remote), vec![RecordKey::Note(4), RecordKey::Tag(9), RecordKey::Note(4)]);
    let picked = archive.take_records_for(&vec![RecordKey::Note(2), RecordKey::Tag(7)]);
    assert_eq!(picked, vec![note(2, "n", vec![1])]);
}

#[test]
fn import_drops_repeated_keys() {
    let plan = plan_import(vec![
        note(2, "first", vec![]),
        tag(1, "t"),
        note(2, "second", vec![]),
        SyncRecord::ReplyLink { parent_id: 2, child_id: 3 },
        SyncRecord::EditLink { previous_id: 2, next_id: 4 },
        SyncRecord::NoteTombstone { note_id: 2 },
        tag(1, "t"),
    ]);
    assert_eq!(plan.unique, 5);
    assert_eq!(plan.skipped, 2);
    assert_eq!(plan.notes.len(), 1);
    assert_eq!(plan.notes[0].content, "first");
    assert_eq!(plan.tags.len(), 1);
    assert_eq!(plan.reply_links, vec![(2, 3)]);
    assert_eq!(plan.edit_links, vec![(2, 4)]);
    assert_eq!(plan.tombstones, vec![2]);
    let empty = plan_import(vec![]);
    assert!(empty.is_empty());
    assert_eq!(empty.skipped, 0);
}

/// Applies an import plan to a ledger held as a list of records.
fn apply(ledger: &mut Vec<SyncRecord>, plan: &synap::sync::import::ImportPlan) {
    for t in &plan.tags {
        ledger.push(SyncRecord::Tag(t.clone()));
    }
    for n in &plan.notes {
        ledger.push(SyncRecord::Note(n.clone()));
    }
    for (p, c) in &plan.reply_links {
        ledger.push(SyncRecord::ReplyLink { parent_id: *p, child_id: *c });
    }
    for (p, n) in &plan.edit_links {
        ledger.push(SyncRecord::EditLink { previous_id: *p, next_id: *n });
    }
    for id in &plan.tombstones {
        ledger.push(SyncRecord::NoteTombstone { note_id: *id });
    }
}

struct Peer {
    session: SyncSession,
    inbox: VecDeque<SyncMessage>,
    ledger: Vec<SyncRecord>,
    action: Option<SyncAction>,
    stats: Option<SyncStats>,
    error: Option<SyncError>,
}

impl Peer {
    fn new(session: SyncSession, ledger: Vec<SyncRecord>) -> Self {
        Peer { session, inbox: VecDeque::new(), ledger, action: None, stats: None, error: None }
    }

    fn done(&self) -> bool {
        self.stats.is_some() || self.error.is_some()
    }

    /// Performs one action if it can; returns whether it made progress.
    fn step(&mut self, outbox: &mut VecDeque<SyncMessage>) -> bool {
        if self.done() {
            return false;
        }
        if self.action.is_none() {
            self.action = Some(self.session.next_action());
        }
        let outcome = match self.action.take().unwrap() {
            SyncAction::Send(m) => {
                outbox.push_back(m);
                StepOutcome::Sent { bytes: 10 }
            }
            SyncAction::Receive => match self.inbox.pop_front() {
                Some(m) => StepOutcome::Received { message: m, bytes: 10 },
                None => {
                    self.action = Some(SyncAction::Receive);
                    return false;
                }
            },
            SyncAction::Apply(plan) => {
                apply(&mut self.ledger, &plan);
                StepOutcome::Applied
            }
            SyncAction::Close => StepOutcome::Closed { duration_ms: 5 },
            SyncAction::Finish(stats) => {
                self.stats = Some(stats);
                return true;
            }
        };
        if let Err(e) = self.session.record_outcome(outcome) {
            self.error = Some(e);
        }
        true
    }
}

fn run(a: &mut Peer, b: &mut Peer) {
    let mut rounds = 0;
    while !(a.done() && b.done()) {
        let mut to_b = VecDeque::new();
        let mut to_a = VecDeque::new();
        let pa = a.step(&mut to_b);
        b.inbox.extend(to_b);
        let pb = b.step(&mut to_a);
        a.inbox.extend(to_a);
        assert!(pa || pb || (a.done() && b.done()), "both peers are waiting");
        rounds += 1;
        assert!(rounds < 10_000);
    }
}

fn key_set(records: &[SyncRecord]) -> BTreeSet<String> {
    records.iter().map(|r| format!("{:?}", r.key())).collect()
}

#[test]
fn two_peers_converge() {
    let ledger_a = vec![tag(1, "rust"), note(10, "a", vec![1]), SyncRecord::ReplyLink { parent_id: 10, child_id: 11 }];
    let ledger_b = vec![tag(1, "rust"), note(11, "b", vec![]), SyncRecord::NoteTombstone { note_id: 12 }, note(12, "c", vec![])];
    let config = SyncConfig { max_records_per_message: 1 };
    let mut a = Peer::new(SyncService::new(ledger_a.clone(), config).sync_as_initiator(), ledger_a.clone());
    let mut b = Peer::new(SyncService::new(ledger_b.clone(), config).sync_as_responder(), ledger_b.clone());
    run(&mut a, &mut b);
    assert!(a.error.is_none() && b.error.is_none());
    let mut all = ledger_a.clone();
    all.extend(ledger_b.clone());
    assert_eq!(key_set(&a.ledger), key_set(&all));
    assert_eq!(key_set(&b.ledger), key_set(&all));
    let sa = a.stats.unwrap();
    let sb = b.stats.unwrap();
    assert_eq!(sa.records_sent, 2);
    assert_eq!(sb.records_received, 2);
    assert_eq!(sb.records_applied, 2);
    assert_eq!(sb.records_sent, 3);
    assert_eq!(sa.records_received, 3);
    assert_eq!(sa.records_applied, 3);
    assert_eq!(sa.records_skipped, 0);
    assert_eq!(sa.duration_ms, 5);
    // Hello, Manifest, Need, 2 batches + RecordsDone, Done from the initiator.
    assert_eq!(sa.bytes_sent, 7 * 10);
    assert_eq!(sb.bytes_received, 7 * 10);
}

#[test]
fn second_sync_transfers_nothing() {
    let ledger = vec![tag(1, "x"), note(2, "y", vec![1])];
    let config = SyncConfig::default();
    let mut a = Peer::new(SyncService::new(ledger.clone(), config).sync_as_initiator(), ledger.clone());
    let mut b = Peer::new(SyncService::new(ledger.clone(), config).sync_as_responder(), ledger.clone());
    run(&mut a, &mut b);
    let sa = a.stats.unwrap();
    let sb = b.stats.unwrap();
    assert_eq!(sa.records_sent + sa.records_received + sb.records_sent + sb.records_received, 0);
    assert_eq!(a.ledger.len(), 2);
    assert_eq!(b.ledger.len(), 2);
}

#[test]
fn version_mismatch_is_refused() {
    let mut s = SyncService::new(vec![], SyncConfig::default()).sync_as_responder();
    assert!(matches!(s.next_action(), SyncAction::Receive));
    let r = s.record_outcome(StepOutcome::Received { message: SyncMessage::Hello { version: 2 }, bytes: 6 });
    assert_eq!(r.unwrap_err(), SyncError::ProtocolVersionMismatch { local: PROTOCOL_VERSION, remote: 2 });
}

#[test]
fn out_of_turn_message_is_refused() {
    let mut s = SyncService::new(vec![], SyncConfig::default()).sync_as_initiator();
    match s.next_action() {
        SyncAction::Send(SyncMessage::Hello { version }) => assert_eq!(version, PROTOCOL_VERSION),
        _ => panic!("initiator must greet first"),
    }
    s.record_outcome(StepOutcome::Sent { bytes: 6 }).unwrap();
    assert!(matches!(s.next_action(), SyncAction::Receive));
    let r = s.record_outcome(StepOutcome::Received { message: SyncMessage::Done, bytes: 5 });
    match r.unwrap_err() {
        SyncError::UnexpectedMessage { expected, got } => {
            assert_eq!(expected.as_str(), "Hello");
            assert_eq!(got, SyncMessage::Done);
        }
        other => panic!("unexpected {:?}", other),
    }
}

#[test]
fn duplicates_in_incoming_records_are_skipped() {
    let mut s = SyncService::new(vec![], SyncConfig::default()).sync_as_responder();
    let script = vec![
        SyncMessage::Hello { version: PROTOCOL_VERSION },
        SyncMessage::Manifest { keys: vec![RecordKey::Tag(1)] },
        SyncMessage::Need { keys: vec![] },
        SyncMessage::Records { records: vec![tag(1, "a"), tag(1, "a")] },
        SyncMessage::RecordsDone,
        SyncMessage::Done,
    ];
    let mut incoming = script.into_iter();
    let mut sent = vec![];
    let mut applied = 0;
    loop {
        let outcome = match s.next_action() {
            SyncAction::Send(m) => {
                sent.push(m);
                StepOutcome::Sent { bytes: 1 }
            }
            SyncAction::Receive => StepOutcome::Received { message: incoming.next().unwrap(), bytes: 1 },
            SyncAction::Apply(plan) => {
                applied += plan.unique;
                StepOutcome::Applied
            }
            SyncAction::Close => StepOutcome::Closed { duration_ms: 0 },
            SyncAction::Finish(stats) => {
                assert_eq!(stats.records_applied, 1);
                assert_eq!(stats.records_skipped, 1);
                assert_eq!(stats.records_received, 2);
                break;
            }
        };
        s.record_outcome(outcome).unwrap();
    }
    assert_eq!(applied, 1);
    assert_eq!(
        sent,
        vec![
            SyncMessage::Hello { version: PROTOCOL_VERSION },
            SyncMessage::Manifest { keys: vec![] },
            SyncMessage::Need { keys: vec![RecordKey::Tag(1)] },
            SyncMessage::RecordsDone,
            SyncMessage::Done,
        ]
    );
}

fn ledger_note(id: u128, short: u8, content: &str, tags: Vec<u128>, deleted: bool) -> synap::views::ledger::Note {
    synap::views::ledger::Note { id, short_id: [short; 8], content: content.to_string(), tags, deleted }
}

fn ledger_links(id: u128, children: Vec<u128>, next_versions: Vec<u128>) -> synap::views::ledger::NoteLinks {
    synap::views::ledger::NoteLinks {
        id,
        parents: vec![],
        children,
        previous_versions: vec![],
        next_versions,
        other_versions: vec![],
    }
}

#[test]
fn collect_lists_tags_notes_links_then_tombstones() {
    let reader = NoteReader::new(
        vec![
            ledger_note(1, 1, "root", vec![50], false),
            ledger_note(2, 2, "reply", vec![], true),
            ledger_note(3, 3, "edited", vec![], false),
        ],
        vec![Tag { id: 50, content: "rust".to_string() }, Tag { id: 51, content: "go".to_string() }],
        vec![3, 1, 2],
        vec![ledger_links(1, vec![2], vec![3])],
    )
    .unwrap();
    let records = collect_local_records(&reader).unwrap();
    assert_eq!(
        records,
        vec![
            tag(50, "rust"),
            tag(51, "go"),
            note(3, "edited", vec![]),
            note(1, "root", vec![50]),
            SyncRecord::ReplyLink { parent_id: 1, child_id: 2 },
            SyncRecord::EditLink { previous_id: 1, next_id: 3 },
            note(2, "reply", vec![]),
            SyncRecord::NoteTombstone { note_id: 2 },
        ]
    );
}

#[test]
fn collect_refuses_unknown_note_in_time_order() {
    let reader = NoteReader::new(vec![ledger_note(1, 1, "a", vec![], false)], vec![], vec![1, 9], vec![]).unwrap();
    assert_eq!(collect_local_records(&reader), Err(SyncError::Storage));
}

#[test]
fn expectation_names() {

    assert_eq!(ExpectedMessage::Manifest.as_str(), "Manifest");
    assert_eq!(ExpectedMessage::Need.as_str(), "Need");
    assert_eq!(ExpectedMessage::RecordsOrRecordsDone.as_str(), "Records or RecordsDone");
    assert_eq!(ExpectedMessage::Done.as_str(), "Done");
}

/// A channel over a byte buffer: reads come from `input`, writes go to `out`.
struct MemChannel {
    input: Vec<u8>,
    pos: usize,
    out: Vec<u8>,
}

impl SyncChannel for MemChannel {
    fn write_all(&mut self, bytes: &[u8]) -> Result<(), SyncError> {
        self.out.extend_from_slice(bytes);
        Ok(())
    }

    fn read_exact(&mut self, n: usize) -> Result<Vec<u8>, SyncError> {
        if self.input.len() - self.pos < n {
            return Err(SyncError::Io(IoErrorKind::UnexpectedEof));
        }
        let v = self.input[self.pos..self.pos + n].to_vec();
        self.pos += n;
        Ok(v)
    }

    fn flush(&mut self) -> Result<(), SyncError> {
        Ok(())
    }
}

#[test]
fn frames_over_a_channel() {
    let mut ch = LoggedChannel::new(MemChannel { input: vec![0, 0, 0, 2, 7, 8, 9], pos: 0, out: vec![] });
    assert_eq!(write_frame(&mut ch, &[1, 2, 3]), Ok(7));
    assert_eq!(ch.inner.out, vec![0, 0, 0, 3, 1, 2, 3]);
    assert_eq!(read_frame(&mut ch), Ok((vec![7, 8], 6)));
    assert_eq!(ch.inner.pos, 6);
    assert_eq!(read_frame(&mut ch), Err(SyncError::Io(IoErrorKind::UnexpectedEof)));
}

#[test]
fn oversized_header_is_refused_before_the_payload() {
    let mut ch = LoggedChannel::new(MemChannel { input: vec![1, 0, 0, 1, 5], pos: 0, out: vec![] });
    assert_eq!(read_frame(&mut ch), Err(SyncError::Io(IoErrorKind::InvalidData)));
    assert_eq!(ch.inner.pos, 4);
    let big = vec![0u8; MAX_FRAME_SIZE + 1];
    assert_eq!(write_frame(&mut ch, &big), Err(SyncError::Io(IoErrorKind::InvalidInput)));
    assert!(ch.inner.out.is_empty());
}

#[test]
fn applying_a_plan_adds_new_keys_once() {
    let mut store = vec![tag(1, "rust"), note(10, "a", vec![1])];
    let received = vec![
        note(11, "b", vec![]),
        tag(1, "rust"),
        SyncRecord::ReplyLink { parent_id: 10, child_id: 11 },
        note(11, "b", vec![]),
        SyncRecord::NoteTombstone { note_id: 11 },
        tag(2, "go"),
    ];
    apply_plan(&mut store, plan_import(received.clone()));
    assert_eq!(
        store,
        vec![
            tag(1, "rust"),
            note(10, "a", vec![1]),
            tag(2, "go"),
            note(11, "b", vec![]),
            SyncRecord::ReplyLink { parent_id: 10, child_id: 11 },
            SyncRecord::NoteTombstone { note_id: 11 },
        ]
    );
    let once = store.clone();
    apply_plan(&mut store, plan_import(received));
    assert_eq!(store, once);
}
