//! What a peer does with the records it received: drop every record whose
//! key came earlier in the stream, and sort the rest by kind into the order
//! in which the ledger imports them (tags, notes, reply links, edit links,
//! tombstones).

use vstd::prelude::*;
use crate::sync::protocol::{keys_of, spec_key, NoteSyncRecord, RecordKey, SyncRecord, TagSyncRecord};

verus! {

broadcast use vstd::seq_lib::group_seq_properties;

/// The records of `s` whose key did not occur earlier in `s`, in order.
pub open spec fn first_occurrences(s: Seq<SyncRecord>) -> Seq<SyncRecord>
    decreases s.len(),
{
    if s.len() == 0 {
        Seq::empty()
    } else {
        let d = first_occurrences(s.drop_last());
        if keys_of(s.drop_last()).contains(spec_key(s.last())) {
            d
        } else {
            d.push(s.last())
        }
    }
}

/// The tag records of `s`, in order.
pub open spec fn tags_in(s: Seq<SyncRecord>) -> Seq<TagSyncRecord>
    decreases s.len(),
{
    if s.len() == 0 {
        Seq::empty()
    } else {
        let rest = tags_in(s.drop_last());
        match s.last() {
            SyncRecord::Tag(t) => rest.push(t),
            _ => rest,
        }
    }
}

/// The note records of `s`, in order.
pub open spec fn notes_in(s: Seq<SyncRecord>) -> Seq<NoteSyncRecord>
    decreases s.len(),
{
    if s.len() == 0 {
        Seq::empty()
    } else {
        let rest = notes_in(s.drop_last());
        match s.last() {
            SyncRecord::Note(n) => rest.push(n),
            _ => rest,
        }
    }
}

/// The reply links `(parent, child)` of `s`, in order.
pub open spec fn reply_links_in(s: Seq<SyncRecord>) -> Seq<(u128, u128)>
    decreases s.len(),
{
    if s.len() == 0 {
        Seq::empty()
    } else {
        let rest = reply_links_in(s.drop_last());
        match s.last() {
            SyncRecord::ReplyLink { parent_id, child_id } => rest.push((parent_id, child_id)),
            _ => rest,
        }
    }
}

/// The edit links `(previous, next)` of `s`, in order.
pub open spec fn edit_links_in(s: Seq<SyncRecord>) -> Seq<(u128, u128)>
    decreases s.len(),
{
    if s.len() == 0 {
        Seq::empty()
    } else {
        let rest = edit_links_in(s.drop_last());
        match s.last() {
            SyncRecord::EditLink { previous_id, next_id } => rest.push((previous_id, next_id)),
            _ => rest,
        }
    }
}

/// The tombstoned note ids of `s`, in order.
pub open spec fn tombstones_in(s: Seq<SyncRecord>) -> Seq<u128>
    decreases s.len(),
{
    if s.len() == 0 {
        Seq::empty()
    } else {
        let rest = tombstones_in(s.drop_last());
        match s.last() {
            SyncRecord::NoteTombstone { note_id } => rest.push(note_id),
            _ => rest,
        }
    }
}

/// The work of importing a batch of received records.
pub struct ImportPlan {
    pub tags: Vec<TagSyncRecord>,
    pub notes: Vec<NoteSyncRecord>,
    pub reply_links: Vec<(u128, u128)>,
    pub edit_links: Vec<(u128, u128)>,
    pub tombstones: Vec<u128>,
    /// Number of distinct keys received.
    pub unique: usize,
    /// Number of records dropped because their key came earlier.
    pub skipped: usize,
}

impl ImportPlan {
    /// The plan that `plan_import` makes of `records`.
    pub open spec fn plans(&self, records: Seq<SyncRecord>) -> bool {
        let firsts = first_occurrences(records);
        &&& self.unique == firsts.len()
        &&& self.skipped == records.len() - firsts.len()
        &&& self.tags@ == tags_in(firsts)
        &&& self.notes@ == notes_in(firsts)
        &&& self.reply_links@ == reply_links_in(firsts)
        &&& self.edit_links@ == edit_links_in(firsts)
        &&& self.tombstones@ == tombstones_in(firsts)
    }

    /// Whether the plan imports nothing.
    pub fn is_empty(&self) -> (b: bool)
        ensures
            b == (self.unique == 0),
    {
        self.unique == 0
    }
}

/// Every key of `s` is the key of one of its first occurrences, and back.
pub proof fn lemma_first_occurrence_keys(s: Seq<SyncRecord>)
    ensures
        forall|k: RecordKey| #[trigger] keys_of(first_occurrences(s)).contains(k) <==> keys_of(s).contains(k),
        first_occurrences(s).len() <= s.len(),
    decreases s.len(),
{
    if s.len() > 0 {
        let p = s.drop_last();
        lemma_first_occurrence_keys(p);
        assert(keys_of(s) =~= keys_of(p).push(spec_key(s.last())));
        let d = first_occurrences(p);
        assert(keys_of(d.push(s.last())) =~= keys_of(d).push(spec_key(s.last())));
    }
}

/// Drops repeated keys from `records` and sorts the rest by kind.
pub fn plan_import(records: Vec<SyncRecord>) -> (plan: ImportPlan)
    ensures
        plan.plans(records@),
{
    let ghost input = records@;
    let total = records.len();
    assert(input.len() == total);
    let mut seen: Vec<RecordKey> = Vec::new();
    let mut plan = ImportPlan {
        tags: Vec::new(),
        notes: Vec::new(),
        reply_links: Vec::new(),
        edit_links: Vec::new(),
        tombstones: Vec::new(),
        unique: 0,
        skipped: 0,
    };
    let mut rev: Vec<SyncRecord> = Vec::new();
    let mut src = records;
    while src.len() > 0
        invariant
            src@.len() + rev@.len() == input.len(),
            src@ == input.take(src@.len() as int),
            forall|j: int| 0 <= j < rev@.len() ==> #[trigger] rev@[j] == input[input.len() - 1 - j],
        decreases src.len(),
    {
        let ghost before = src@;
        let r = src.pop().unwrap();
        proof {
            assert(before =~= src@.push(r));
            assert(src@ =~= input.take(src@.len() as int));
        }
        rev.push(r);
    }
    let mut i: usize = 0;
    while rev.len() > 0
        invariant
            i + rev@.len() == input.len(),
            input.len() <= usize::MAX,
            forall|j: int| 0 <= j < rev@.len() ==> #[trigger] rev@[j] == input[input.len() - 1 - j],
            forall|k: RecordKey| #[trigger] seen@.contains(k) <==> keys_of(input.take(i as int)).contains(k),
            plan.plans(input.take(i as int)),
        decreases rev.len(),
    {
        let r = rev.pop().unwrap();
        let ghost p = input.take(i as int);
        proof {
            assert(r == input[i as int]);
            assert(input.take(i + 1) =~= p.push(r));
            assert(input.take(i + 1).drop_last() =~= p);
            assert(keys_of(p.push(r)) =~= keys_of(p).push(spec_key(r)));
            lemma_first_occurrence_keys(p);
        }
        let k = r.key();
        let mut found = false;
        let mut j: usize = 0;
        while j < seen.len()
            invariant
                j <= seen.len(),
                found == seen@.take(j as int).contains(k),
            decreases seen.len() - j,
        {
            proof {
                assert(seen@.take(j + 1) =~= seen@.take(j as int).push(seen@[j as int]));
            }
            if seen[j] == k {
                found = true;
            }
            j = j + 1;
        }
        proof {
            assert(seen@.take(seen.len() as int) =~= seen@);
        }
        proof {
            assert(input.take(i + 1).last() == r);
            assert(found == keys_of(p).contains(k));
        }
        let ghost d = first_occurrences(p);
        if found {
            plan.skipped = plan.skipped + 1;
            assert(first_occurrences(input.take(i + 1)) == d);
        } else {
            assert(first_occurrences(input.take(i + 1)) == d.push(r));
            assert(d.push(r).drop_last() =~= d);
            assert(d.push(r).last() == r);
            seen.push(k);
            plan.unique = plan.unique + 1;
            match r {
                SyncRecord::Tag(t) => plan.tags.push(t),
                SyncRecord::Note(n) => plan.notes.push(n),
                SyncRecord::ReplyLink { parent_id, child_id } => plan.reply_links.push((parent_id, child_id)),
                SyncRecord::EditLink { previous_id, next_id } => plan.edit_links.push((previous_id, next_id)),
                SyncRecord::NoteTombstone { note_id } => plan.tombstones.push(note_id),
            }
        }
        i = i + 1;
    }
    proof {
        assert(input.take(input.len() as int) =~= input);
    }
    plan
}

} // verus!
