//! Entry points of a sync, and the laws of the exchange as a whole.

use vstd::prelude::*;
use crate::sync::archive::{with_key, LocalArchive};
use crate::sync::import::{first_occurrences, lemma_first_occurrence_keys};
use crate::sync::protocol::{keys_of, spec_key, RecordKey, SyncConfig, SyncRecord, SyncStats};
use crate::sync::session::{Awaiting, SyncRole, SyncSession};

verus! {

broadcast use vstd::seq_lib::group_seq_properties;

/// Synchronization of the local ledger with one peer.
pub struct SyncService {
    pub config: SyncConfig,
    /// The local records, as the ledger listed them.
    pub archive: LocalArchive,
}

impl SyncService {
    /// A sync service over the records of the local ledger.
    pub fn new(local_records: Vec<SyncRecord>, config: SyncConfig) -> (s: SyncService)
        ensures
            s.config == config,
            s.archive.wf(),
            s.archive.records@.to_multiset() == local_records@.to_multiset(),
            forall|k: RecordKey| #[trigger] with_key(s.archive.records@, k) == with_key(local_records@, k),
    {
        SyncService { config, archive: LocalArchive::new(local_records) }
    }

    /// Starts a session on the side that opened the connection.
    pub fn sync_as_initiator(self) -> (s: SyncSession)
        requires
            self.archive.wf(),
        ensures
            s.wf(),
            s.role == SyncRole::Initiator,
            s.config == self.config,
            s.archive == self.archive,
            s.pos == 0,
            s.awaiting == Awaiting::Action,
            s.stats == SyncStats::zero(),
            !s.prepared,
            s.incoming@.len() == 0,
    {
        SyncSession::new(SyncRole::Initiator, self.archive, self.config)
    }

    /// Starts a session on the side that accepted the connection.
    pub fn sync_as_responder(self) -> (s: SyncSession)
        requires
            self.archive.wf(),
        ensures
            s.wf(),
            s.role == SyncRole::Responder,
            s.config == self.config,
            s.archive == self.archive,
            s.pos == 0,
            s.awaiting == Awaiting::Action,
            s.stats == SyncStats::zero(),
            !s.prepared,
            s.incoming@.len() == 0,
    {
        SyncSession::new(SyncRole::Responder, self.archive, self.config)
    }
}

/// The keys that a peer holding `mine` asks for after seeing `theirs`.
pub open spec fn needed(mine: Seq<RecordKey>, theirs: Seq<RecordKey>) -> Seq<RecordKey> {
    theirs.filter(|k: RecordKey| !mine.contains(k))
}

/// The records of `records` whose key is among `wanted`.
pub open spec fn selected(records: Seq<SyncRecord>, wanted: Seq<RecordKey>) -> Seq<SyncRecord> {
    records.filter(|r: SyncRecord| wanted.contains(spec_key(r)))
}

/// Exchange law: when a peer holding `b` sees the manifest of a peer holding
/// `a`, asks for what it lacks, and receives what `a` selects for that
/// request, it then holds every key of either side; and every record it
/// receives carries a key it lacked.
pub proof fn lemma_exchange_completes(a: LocalArchive, b: LocalArchive)
    requires
        a.wf(),
        b.wf(),
    ensures
        ({
            let sent = selected(a.records@, needed(b.keys@, a.keys@));
            &&& forall|k: RecordKey| (b.keys@.contains(k) || #[trigger] keys_of(sent).contains(k)) <==> (
                a.keys@.contains(k) || b.keys@.contains(k))
            &&& forall|i: int| 0 <= i < sent.len() ==> !b.keys@.contains(spec_key(#[trigger] sent[i]))
        }),
{
    let need = needed(b.keys@, a.keys@);
    let pn = |k: RecordKey| !b.keys@.contains(k);
    let pr = |r: SyncRecord| need.contains(spec_key(r));
    let sent = selected(a.records@, need);
    assert(sent == a.records@.filter(pr));
    assert(need == a.keys@.filter(pn));
    assert forall|k: RecordKey| (b.keys@.contains(k) || #[trigger] keys_of(sent).contains(k)) <==> (a.keys@.contains(k)
        || b.keys@.contains(k)) by {
        if keys_of(sent).contains(k) {
            let i = choose|i: int| 0 <= i < keys_of(sent).len() && keys_of(sent)[i] == k;
            assert(sent.contains(sent[i]));
            assert(a.records@.filter(pr).contains(sent[i]));
            a.records@.lemma_filter_contains_rev(pr, sent[i]);
            assert(need.contains(k));
            a.keys@.lemma_filter_contains_rev(pn, k);
        }
        if a.keys@.contains(k) && !b.keys@.contains(k) {
            assert(keys_of(a.records@).contains(k));
            let j = choose|j: int| 0 <= j < keys_of(a.records@).len() && keys_of(a.records@)[j] == k;
            let r = a.records@[j];
            assert(spec_key(r) == k);
            let w = choose|w: int| 0 <= w < a.keys@.len() && a.keys@[w] == k;
            a.keys@.lemma_filter_contains(pn, w);
            assert(need.contains(k));
            a.records@.lemma_filter_contains(pr, j);
            assert(sent.contains(r));
            let m = choose|m: int| 0 <= m < sent.len() && sent[m] == r;
            assert(keys_of(sent)[m] == k);
        }
    }
    assert forall|i: int| 0 <= i < sent.len() implies !b.keys@.contains(spec_key(#[trigger] sent[i])) by {
        assert(sent.contains(sent[i]));
        a.records@.lemma_filter_contains_rev(pr, sent[i]);
        a.keys@.lemma_filter_contains_rev(pn, spec_key(sent[i]));
    }
}

/// Idempotence law: a peer that already holds every key of the other side's
/// manifest asks for nothing, so a second sync right after a complete one
/// transfers no records.
pub proof fn lemma_nothing_needed_when_up_to_date(mine: Seq<RecordKey>, theirs: Seq<RecordKey>)
    requires
        forall|k: RecordKey| theirs.contains(k) ==> mine.contains(k),
    ensures
        needed(mine, theirs).len() == 0,
{
    let p = |k: RecordKey| !mine.contains(k);
    if needed(mine, theirs).len() > 0 {
        let k = needed(mine, theirs)[0];
        assert(theirs.filter(p).contains(k));
        theirs.lemma_filter_contains_rev(p, k);
    }
}

/// De-duplication law: the records a peer imports carry pairwise distinct
/// keys, and together exactly the keys it received.
pub proof fn lemma_import_keys_distinct(received: Seq<SyncRecord>)
    ensures
        forall|i: int, j: int| 0 <= i < j < first_occurrences(received).len() ==> spec_key(#[trigger] first_occurrences(received)[i])
            != spec_key(#[trigger] first_occurrences(received)[j]),
        forall|k: RecordKey| #[trigger] keys_of(first_occurrences(received)).contains(k) <==> keys_of(received).contains(k),
        first_occurrences(received).len() <= received.len(),
    decreases received.len(),
{
    lemma_first_occurrence_keys(received);
    if received.len() > 0 {
        let p = received.drop_last();
        let x = received.last();
        lemma_import_keys_distinct(p);
        let d = first_occurrences(p);
        assert(keys_of(received) =~= keys_of(p).push(spec_key(x)));
        assert(keys_of(d.push(x)) =~= keys_of(d).push(spec_key(x)));
        if !keys_of(p).contains(spec_key(x)) {
            let e = d.push(x);
            assert forall|i: int, j: int| 0 <= i < j < e.len() implies spec_key(#[trigger] e[i]) != spec_key(#[trigger] e[j]) by {
                if j == e.len() - 1 {
                    assert(keys_of(d)[i] == spec_key(e[i]));
                    assert(keys_of(d).contains(spec_key(e[i])));
                }
            }
        }
    }
}

/// Exchange law over two sessions: when session `b` has read the manifest
/// of session `a` (so its need list is what it lacks of `a`'s keys) and `a`
/// has read that need list, the records that `a` sends, together with what
/// `b` holds, carry exactly the keys of both sides, and each record sent
/// carries a key that `b` lacked.
pub proof fn lemma_sessions_exchange(a: SyncSession, b: SyncSession)
    requires
        a.wf(),
        b.wf(),
        b.need@ == needed(b.archive.keys@, a.archive.keys@),
        a.remote_need@ == b.need@,
    ensures
        forall|k: RecordKey| (b.archive.keys@.contains(k) || #[trigger] keys_of(a.requested()).contains(k)) <==> (
        a.archive.keys@.contains(k) || b.archive.keys@.contains(k)),
        forall|i: int| 0 <= i < a.requested().len() ==> !b.archive.keys@.contains(spec_key(#[trigger] a.requested()[i])),
{
    lemma_exchange_completes(a.archive, b.archive);
    assert(a.requested() =~= selected(a.archive.records@, needed(b.archive.keys@, a.archive.keys@)));
}

/// Idempotence law over two sessions: when session `b` already holds every
/// key of session `a`'s manifest, the need list it sends is empty, so `a`
/// sends no record.
pub proof fn lemma_sessions_up_to_date(a: SyncSession, b: SyncSession)
    requires
        a.wf(),
        b.wf(),
        forall|k: RecordKey| a.archive.keys@.contains(k) ==> b.archive.keys@.contains(k),
        b.need@ == needed(b.archive.keys@, a.archive.keys@),
        a.remote_need@ == b.need@,
    ensures
        b.need@.len() == 0,
        a.requested().len() == 0,
{
    lemma_nothing_needed_when_up_to_date(b.archive.keys@, a.archive.keys@);
    assert(a.requested() =~= Seq::<SyncRecord>::empty()) by {
        if a.requested().len() > 0 {
            let r = a.requested()[0];
            assert(a.requested().contains(r));
            a.archive.records@.lemma_filter_contains_rev(|x: SyncRecord| a.remote_need@.contains(spec_key(x)), r);
        }
    }
}

} // verus!
