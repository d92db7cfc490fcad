//! Writing imported records into the local ledger: the records of an import
//! plan are appended in the plan's order (tags, notes, reply links, edit
//! links, tombstones), each one only when the ledger holds no record with
//! its key. The laws of the whole exchange follow: a peer ends up with the
//! keys of both sides, and importing the same records again changes nothing.

use vstd::prelude::*;
use vstd::seq_lib::group_to_multiset_ensures;
use crate::sync::import::{
    edit_links_in, first_occurrences, lemma_first_occurrence_keys, notes_in, reply_links_in, tags_in, tombstones_in,
    ImportPlan,
};
use crate::sync::protocol::{keys_of, spec_key, NoteSyncRecord, RecordKey, SyncRecord, TagSyncRecord};
use crate::sync::service::{lemma_nothing_needed_when_up_to_date, lemma_sessions_exchange, needed};
use crate::sync::session::SyncSession;

verus! {

broadcast use vstd::seq_lib::group_seq_properties;

/// The records of an import, kind by kind, in the order they are written.
pub open spec fn records_by_kind(
    tags: Seq<TagSyncRecord>,
    notes: Seq<NoteSyncRecord>,
    reply_links: Seq<(u128, u128)>,
    edit_links: Seq<(u128, u128)>,
    tombstones: Seq<u128>,
) -> Seq<SyncRecord> {
    tags.map_values(|t: TagSyncRecord| SyncRecord::Tag(t)) + notes.map_values(|n: NoteSyncRecord| SyncRecord::Note(n))
        + reply_links.map_values(|l: (u128, u128)| SyncRecord::ReplyLink { parent_id: l.0, child_id: l.1 })
        + edit_links.map_values(|l: (u128, u128)| SyncRecord::EditLink { previous_id: l.0, next_id: l.1 })
        + tombstones.map_values(|id: u128| SyncRecord::NoteTombstone { note_id: id })
}

/// The records of `s` sorted by kind, each kind in order.
pub open spec fn sorted_by_kind(s: Seq<SyncRecord>) -> Seq<SyncRecord> {
    records_by_kind(tags_in(s), notes_in(s), reply_links_in(s), edit_links_in(s), tombstones_in(s))
}

impl ImportPlan {
    /// The records this plan writes, in the order it writes them.
    pub open spec fn records(&self) -> Seq<SyncRecord> {
        records_by_kind(self.tags@, self.notes@, self.reply_links@, self.edit_links@, self.tombstones@)
    }
}

/// `store` after appending each record of `rs` in turn, skipping a record
/// whose key the store already holds.
pub open spec fn append_new(store: Seq<SyncRecord>, rs: Seq<SyncRecord>) -> Seq<SyncRecord>
    decreases rs.len(),
{
    if rs.len() == 0 {
        store
    } else {
        let s = append_new(store, rs.drop_last());
        if keys_of(s).contains(spec_key(rs.last())) {
            s
        } else {
            s.push(rs.last())
        }
    }
}

/// Sorting by kind keeps every record, once.
proof fn lemma_sorted_by_kind_same_records(s: Seq<SyncRecord>)
    ensures
        sorted_by_kind(s).to_multiset() == s.to_multiset(),
    decreases s.len(),
{
    broadcast use group_to_multiset_ensures, vstd::seq_lib::lemma_multiset_commutative, vstd::multiset::group_multiset_axioms;

    if s.len() == 0 {
        assert(sorted_by_kind(s) =~= Seq::<SyncRecord>::empty());
    } else {
        let p = s.drop_last();
        let x = s.last();
        lemma_sorted_by_kind_same_records(p);
        assert(s =~= p.push(x));
        let a = tags_in(p).map_values(|t: TagSyncRecord| SyncRecord::Tag(t));
        let b = notes_in(p).map_values(|n: NoteSyncRecord| SyncRecord::Note(n));
        let c = reply_links_in(p).map_values(|l: (u128, u128)| SyncRecord::ReplyLink { parent_id: l.0, child_id: l.1 });
        let d = edit_links_in(p).map_values(|l: (u128, u128)| SyncRecord::EditLink { previous_id: l.0, next_id: l.1 });
        let e = tombstones_in(p).map_values(|id: u128| SyncRecord::NoteTombstone { note_id: id });
        assert(sorted_by_kind(p) == a + b + c + d + e);
        match x {
            SyncRecord::Tag(t) => {
                assert(sorted_by_kind(s) =~= a.push(x) + b + c + d + e);
            },
            SyncRecord::Note(n) => {
                assert(sorted_by_kind(s) =~= a + b.push(x) + c + d + e);
            },
            SyncRecord::ReplyLink { parent_id, child_id } => {
                assert(sorted_by_kind(s) =~= a + b + c.push(x) + d + e);
            },
            SyncRecord::EditLink { previous_id, next_id } => {
                assert(sorted_by_kind(s) =~= a + b + c + d.push(x) + e);
            },
            SyncRecord::NoteTombstone { note_id } => {
                assert(sorted_by_kind(s) =~= a + b + c + d + e.push(x));
            },
        }
        assert(sorted_by_kind(s).to_multiset() =~= sorted_by_kind(p).to_multiset().insert(x));
    }
}

/// Two sequences with the same records carry the same keys.
proof fn lemma_same_records_same_keys(a: Seq<SyncRecord>, b: Seq<SyncRecord>, k: RecordKey)
    requires
        a.to_multiset() == b.to_multiset(),
    ensures
        keys_of(a).contains(k) <==> keys_of(b).contains(k),
{
    a.to_multiset_ensures();
    b.to_multiset_ensures();
    if keys_of(a).contains(k) {
        let i = choose|i: int| 0 <= i < keys_of(a).len() && keys_of(a)[i] == k;
        assert(a.contains(a[i]));
        assert(a.to_multiset().count(a[i]) > 0);
        assert(b.to_multiset().count(a[i]) > 0);
        assert(b.contains(a[i]));
        let j = choose|j: int| 0 <= j < b.len() && b[j] == a[i];
        assert(keys_of(b)[j] == k);
    }
    if keys_of(b).contains(k) {
        let i = choose|i: int| 0 <= i < keys_of(b).len() && keys_of(b)[i] == k;
        assert(b.contains(b[i]));
        assert(b.to_multiset().count(b[i]) > 0);
        assert(a.to_multiset().count(b[i]) > 0);
        assert(a.contains(b[i]));
        let j = choose|j: int| 0 <= j < a.len() && a[j] == b[i];
        assert(keys_of(a)[j] == k);
    }
}

/// Appending new records keeps the store as a prefix, and the result holds
/// the keys of the store and of the records.
pub proof fn lemma_append_new_keys(store: Seq<SyncRecord>, rs: Seq<SyncRecord>)
    ensures
        forall|k: RecordKey| #[trigger] keys_of(append_new(store, rs)).contains(k) <==> (keys_of(store).contains(k)
            || keys_of(rs).contains(k)),
        append_new(store, rs).take(store.len() as int) == store,
        store.len() <= append_new(store, rs).len(),
    decreases rs.len(),
{
    if rs.len() > 0 {
        let p = rs.drop_last();
        let x = rs.last();
        lemma_append_new_keys(store, p);
        let s = append_new(store, p);
        assert(keys_of(rs) =~= keys_of(p).push(spec_key(x)));
        assert(keys_of(s.push(x)) =~= keys_of(s).push(spec_key(x)));
        assert(s.push(x).take(store.len() as int) =~= s.take(store.len() as int));
    }
}

/// Appending records whose keys the store already holds leaves it as it is.
pub proof fn lemma_append_known(store: Seq<SyncRecord>, rs: Seq<SyncRecord>)
    requires
        forall|i: int| 0 <= i < rs.len() ==> keys_of(store).contains(spec_key(#[trigger] rs[i])),
    ensures
        append_new(store, rs) == store,
    decreases rs.len(),
{
    if rs.len() > 0 {
        let p = rs.drop_last();
        assert forall|i: int| 0 <= i < p.len() implies keys_of(store).contains(spec_key(#[trigger] p[i])) by {
            assert(p[i] == rs[i]);
        }
        lemma_append_known(store, p);
        assert(keys_of(store).contains(spec_key(rs[rs.len() - 1])));
    }
}

/// Import law: after writing the plan of the records a peer received, its
/// ledger holds exactly the keys it held before and the keys it received.
pub proof fn lemma_import_keys(store: Seq<SyncRecord>, received: Seq<SyncRecord>, plan: ImportPlan)
    requires
        plan.plans(received),
    ensures
        forall|k: RecordKey| #[trigger] keys_of(append_new(store, plan.records())).contains(k) <==> (keys_of(
            store,
        ).contains(k) || keys_of(received).contains(k)),
{
    let firsts = first_occurrences(received);
    assert(plan.records() == sorted_by_kind(firsts));
    lemma_sorted_by_kind_same_records(firsts);
    lemma_first_occurrence_keys(received);
    lemma_append_new_keys(store, plan.records());
    assert forall|k: RecordKey| #[trigger] keys_of(append_new(store, plan.records())).contains(k) <==> (keys_of(
        store,
    ).contains(k) || keys_of(received).contains(k)) by {
        lemma_same_records_same_keys(plan.records(), firsts, k);
    }
}

/// Idempotence law: importing the same records a second time leaves the
/// ledger as the first import left it (and the plan, a function of the
/// records, reports the same counts).
pub proof fn lemma_import_twice(store: Seq<SyncRecord>, received: Seq<SyncRecord>, plan: ImportPlan)
    requires
        plan.plans(received),
    ensures
        append_new(append_new(store, plan.records()), plan.records()) == append_new(store, plan.records()),
{
    let once = append_new(store, plan.records());
    lemma_append_new_keys(store, plan.records());
    assert forall|i: int| 0 <= i < plan.records().len() implies keys_of(once).contains(
        spec_key(#[trigger] plan.records()[i]),
    ) by {
        assert(keys_of(plan.records())[i] == spec_key(plan.records()[i]));
    }
    lemma_append_known(once, plan.records());
}

/// Convergence law over two ledgers: when session `a` sends session `b`
/// every record `b` asked for after reading `a`'s manifest, and `b` writes
/// the plan of those records into its ledger (whose keys are those of its
/// archive), `b`'s ledger then holds exactly the keys of both sides.
pub proof fn lemma_ledgers_converge(a: SyncSession, b: SyncSession, store_b: Seq<SyncRecord>, plan: ImportPlan)
    requires
        a.wf(),
        b.wf(),
        b.need@ == needed(b.archive.keys@, a.archive.keys@),
        a.remote_need@ == b.need@,
        forall|k: RecordKey| #[trigger] keys_of(store_b).contains(k) <==> b.archive.keys@.contains(k),
        plan.plans(a.requested()),
    ensures
        forall|k: RecordKey| #[trigger] keys_of(append_new(store_b, plan.records())).contains(k) <==> (
        a.archive.keys@.contains(k) || b.archive.keys@.contains(k)),
{
    lemma_sessions_exchange(a, b);
    lemma_import_keys(store_b, a.requested(), plan);
}

/// Second-sync law: two ledgers that hold the same keys (as two peers do
/// after a complete sync) need nothing from each other, so a second sync
/// asks for no record on either side.
pub proof fn lemma_second_sync_idle(keys_a: Seq<RecordKey>, keys_b: Seq<RecordKey>)
    requires
        forall|k: RecordKey| keys_a.contains(k) <==> keys_b.contains(k),
    ensures
        needed(keys_a, keys_b).len() == 0,
        needed(keys_b, keys_a).len() == 0,
{
    lemma_nothing_needed_when_up_to_date(keys_a, keys_b);
    lemma_nothing_needed_when_up_to_date(keys_b, keys_a);
}

/// Appending one more record after a sequence is appending the longer
/// sequence.
proof fn lemma_append_one(start: Seq<SyncRecord>, t: Seq<SyncRecord>, r: SyncRecord)
    ensures
        append_new(append_new(start, t), seq![r]) == append_new(start, t.push(r)),
{
    assert(seq![r].drop_last() =~= Seq::<SyncRecord>::empty());
    assert(t.push(r).drop_last() =~= t);
    assert(append_new(append_new(start, t), Seq::<SyncRecord>::empty()) == append_new(start, t));
}

/// Whether the ledger holds a record with key `k`.
fn holds_key(store: &Vec<SyncRecord>, k: &RecordKey) -> (b: bool)
    ensures
        b == keys_of(store@).contains(*k),
{
    let mut i: usize = 0;
    while i < store.len()
        invariant
            i <= store@.len(),
            forall|j: int| 0 <= j < i ==> spec_key(#[trigger] store@[j]) != *k,
        decreases store@.len() - i,
    {
        if store[i].key() == *k {
            assert(keys_of(store@)[i as int] == *k);
            return true;
        }
        i = i + 1;
    }
    proof {
        if keys_of(store@).contains(*k) {
            let j = choose|j: int| 0 <= j < keys_of(store@).len() && keys_of(store@)[j] == *k;
            assert(spec_key(store@[j]) != *k);
        }
    }
    false
}

/// Appends `record` unless the ledger holds a record with its key.
pub fn append_record(store: &mut Vec<SyncRecord>, record: SyncRecord)
    ensures
        final(store)@ == append_new(old(store)@, seq![record]),
{
    assert(seq![record].drop_last() =~= Seq::<SyncRecord>::empty());
    assert(append_new(old(store)@, Seq::<SyncRecord>::empty()) == old(store)@);
    assert(seq![record].last() == record);
    let k = record.key();
    if !holds_key(store, &k) {
        store.push(record);
    }
}

/// The elements of `v` in reverse order.
fn reversed<T>(v: Vec<T>) -> (r: Vec<T>)
    ensures
        r@ == v@.reverse(),
{
    let ghost all = v@;
    let mut v = v;
    let mut r: Vec<T> = Vec::new();
    while v.len() > 0
        invariant
            v@.len() <= all.len(),
            v@ == all.take(v@.len() as int),
            r@ == all.skip(v@.len() as int).reverse(),
        decreases v.len(),
    {
        let ghost n = v@.len();
        let x = v.pop().unwrap();
        proof {
            assert(all.take(n - 1) =~= v@);
            assert(all.skip(n - 1) =~= seq![x] + all.skip(n as int));
            assert(all.skip(n - 1).reverse() =~= all.skip(n as int).reverse().push(x));
        }
        r.push(x);
    }
    assert(all.skip(0) =~= all);
    r
}

/// Writes the records of `plan` into the ledger, in the plan's order, each
/// one only when the ledger holds no record with its key.
pub fn apply_plan(store: &mut Vec<SyncRecord>, plan: ImportPlan)
    ensures
        final(store)@ == append_new(old(store)@, plan.records()),
{
    let ghost all = plan.records();
    let ghost start = store@;
    let ghost o1 = plan.tags@.len();
    let ghost o2 = o1 + plan.notes@.len();
    let ghost o3 = o2 + plan.reply_links@.len();
    let ghost o4 = o3 + plan.edit_links@.len();
    assert(all.take(0) =~= Seq::<SyncRecord>::empty());
    let ImportPlan { tags, notes, reply_links, edit_links, tombstones, unique: _, skipped: _ } = plan;
    let ghost src_tags = tags@;
    let mut rev = reversed(tags);
    assert(src_tags.reverse().take(src_tags.len() as int) =~= src_tags.reverse());
    while rev.len() > 0
        invariant
            rev@ == src_tags.reverse().take(rev@.len() as int),
            rev@.len() <= src_tags.len(),
            src_tags.len() <= all.len(),
            all == records_by_kind(plan.tags@, plan.notes@, plan.reply_links@, plan.edit_links@, plan.tombstones@),
            src_tags == plan.tags@,
            o1 == plan.tags@.len(),
            o2 == o1 + plan.notes@.len(),
            o3 == o2 + plan.reply_links@.len(),
            o4 == o3 + plan.edit_links@.len(),
            store@ == append_new(start, all.take(0 + src_tags.len() - rev@.len())),
        decreases rev.len(),
    {
        let ghost m = rev@.len();
        let x = rev.pop().unwrap();
        let ghost k = src_tags.len() - m;
        proof {
            assert(x == src_tags[k]);
            assert(rev@ =~= src_tags.reverse().take(m - 1));
            assert(all[0 + k] == SyncRecord::Tag(x));
            assert(all.take(0 + k + 1).drop_last() =~= all.take(0 + k));
            assert(seq![SyncRecord::Tag(x)].drop_last() =~= Seq::<SyncRecord>::empty());
        }
        let rec = SyncRecord::Tag(x);
        let ghost g = rec;
        append_record(store, rec);
        proof {
            lemma_append_one(start, all.take(0 + k), g);
            assert(all.take(0 + k).push(g) =~= all.take(0 + k + 1));
        }
    }
    let ghost src_notes = notes@;
    let mut rev = reversed(notes);
    assert(src_notes.reverse().take(src_notes.len() as int) =~= src_notes.reverse());
    while rev.len() > 0
        invariant
            rev@ == src_notes.reverse().take(rev@.len() as int),
            rev@.len() <= src_notes.len(),
            src_notes.len() <= all.len(),
            all == records_by_kind(plan.tags@, plan.notes@, plan.reply_links@, plan.edit_links@, plan.tombstones@),
            src_notes == plan.notes@,
            o1 == plan.tags@.len(),
            o2 == o1 + plan.notes@.len(),
            o3 == o2 + plan.reply_links@.len(),
            o4 == o3 + plan.edit_links@.len(),
            store@ == append_new(start, all.take(o1 + src_notes.len() - rev@.len())),
        decreases rev.len(),
    {
        let ghost m = rev@.len();
        let x = rev.pop().unwrap();
        let ghost k = src_notes.len() - m;
        proof {
            assert(x == src_notes[k]);
            assert(rev@ =~= src_notes.reverse().take(m - 1));
            assert(all[o1 + k] == SyncRecord::Note(x));
            assert(all.take(o1 + k + 1).drop_last() =~= all.take(o1 + k));
            assert(seq![SyncRecord::Note(x)].drop_last() =~= Seq::<SyncRecord>::empty());
        }
        let rec = SyncRecord::Note(x);
        let ghost g = rec;
        append_record(store, rec);
        proof {
            lemma_append_one(start, all.take(o1 + k), g);
            assert(all.take(o1 + k).push(g) =~= all.take(o1 + k + 1));
        }
    }
    let ghost src_reply_links = reply_links@;
    let mut rev = reversed(reply_links);
    assert(src_reply_links.reverse().take(src_reply_links.len() as int) =~= src_reply_links.reverse());
    while rev.len() > 0
        invariant
            rev@ == src_reply_links.reverse().take(rev@.len() as int),
            rev@.len() <= src_reply_links.len(),
            src_reply_links.len() <= all.len(),
            all == records_by_kind(plan.tags@, plan.notes@, plan.reply_links@, plan.edit_links@, plan.tombstones@),
            src_reply_links == plan.reply_links@,
            o1 == plan.tags@.len(),
            o2 == o1 + plan.notes@.len(),
            o3 == o2 + plan.reply_links@.len(),
            o4 == o3 + plan.edit_links@.len(),
            store@ == append_new(start, all.take(o2 + src_reply_links.len() - rev@.len())),
        decreases rev.len(),
    {
        let ghost m = rev@.len();
        let x = rev.pop().unwrap();
        let ghost k = src_reply_links.len() - m;
        proof {
            assert(x == src_reply_links[k]);
            assert(rev@ =~= src_reply_links.reverse().take(m - 1));
            assert(all[o2 + k] == SyncRecord::ReplyLink { parent_id: x.0, child_id: x.1 });
            assert(all.take(o2 + k + 1).drop_last() =~= all.take(o2 + k));
            assert(seq![SyncRecord::ReplyLink { parent_id: x.0, child_id: x.1 }].drop_last() =~= Seq::<SyncRecord>::empty());
        }
        let rec = SyncRecord::ReplyLink { parent_id: x.0, child_id: x.1 };
        let ghost g = rec;
        append_record(store, rec);
        proof {
            lemma_append_one(start, all.take(o2 + k), g);
            assert(all.take(o2 + k).push(g) =~= all.take(o2 + k + 1));
        }
    }
    let ghost src_edit_links = edit_links@;
    let mut rev = reversed(edit_links);
    assert(src_edit_links.reverse().take(src_edit_links.len() as int) =~= src_edit_links.reverse());
    while rev.len() > 0
        invariant
            rev@ == src_edit_links.reverse().take(rev@.len() as int),
            rev@.len() <= src_edit_links.len(),
            src_edit_links.len() <= all.len(),
            all == records_by_kind(plan.tags@, plan.notes@, plan.reply_links@, plan.edit_links@, plan.tombstones@),
            src_edit_links == plan.edit_links@,
            o1 == plan.tags@.len(),
            o2 == o1 + plan.notes@.len(),
            o3 == o2 + plan.reply_links@.len(),
            o4 == o3 + plan.edit_links@.len(),
            store@ == append_new(start, all.take(o3 + src_edit_links.len() - rev@.len())),
        decreases rev.len(),
    {
        let ghost m = rev@.len();
        let x = rev.pop().unwrap();
        let ghost k = src_edit_links.len() - m;
        proof {
            assert(x == src_edit_links[k]);
            assert(rev@ =~= src_edit_links.reverse().take(m - 1));
            assert(all[o3 + k] == SyncRecord::EditLink { previous_id: x.0, next_id: x.1 });
            assert(all.take(o3 + k + 1).drop_last() =~= all.take(o3 + k));
            assert(seq![SyncRecord::EditLink { previous_id: x.0, next_id: x.1 }].drop_last() =~= Seq::<SyncRecord>::empty());
        }
        let rec = SyncRecord::EditLink { previous_id: x.0, next_id: x.1 };
        let ghost g = rec;
        append_record(store, rec);
        proof {
            lemma_append_one(start, all.take(o3 + k), g);
            assert(all.take(o3 + k).push(g) =~= all.take(o3 + k + 1));
        }
    }
    let ghost src_tombstones = tombstones@;
    let mut rev = reversed(tombstones);
    assert(src_tombstones.reverse().take(src_tombstones.len() as int) =~= src_tombstones.reverse());
    while rev.len() > 0
        invariant
            rev@ == src_tombstones.reverse().take(rev@.len() as int),
            rev@.len() <= src_tombstones.len(),
            src_tombstones.len() <= all.len(),
            all == records_by_kind(plan.tags@, plan.notes@, plan.reply_links@, plan.edit_links@, plan.tombstones@),
            src_tombstones == plan.tombstones@,
            o1 == plan.tags@.len(),
            o2 == o1 + plan.notes@.len(),
            o3 == o2 + plan.reply_links@.len(),
            o4 == o3 + plan.edit_links@.len(),
            store@ == append_new(start, all.take(o4 + src_tombstones.len() - rev@.len())),
        decreases rev.len(),
    {
        let ghost m = rev@.len();
        let x = rev.pop().unwrap();
        let ghost k = src_tombstones.len() - m;
        proof {
            assert(x == src_tombstones[k]);
            assert(rev@ =~= src_tombstones.reverse().take(m - 1));
            assert(all[o4 + k] == SyncRecord::NoteTombstone { note_id: x });
            assert(all.take(o4 + k + 1).drop_last() =~= all.take(o4 + k));
            assert(seq![SyncRecord::NoteTombstone { note_id: x }].drop_last() =~= Seq::<SyncRecord>::empty());
        }
        let rec = SyncRecord::NoteTombstone { note_id: x };
        let ghost g = rec;
        append_record(store, rec);
        proof {
            lemma_append_one(start, all.take(o4 + k), g);
            assert(all.take(o4 + k).push(g) =~= all.take(o4 + k + 1));
        }
    }
    assert(all.take(all.len() as int) =~= all);
}

} // verus!
