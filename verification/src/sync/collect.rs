//! The records that the local ledger contributes to a sync: every tag, then
//! every note in creation order (each followed by its reply links to its
//! children and its edit links to its next versions), then a tombstone for
//! every deleted note.

use vstd::prelude::*;
use crate::sync::protocol::{record_models, NoteSyncRecord, RecordModel, SyncError, SyncRecord, TagSyncRecord};
use crate::views::ledger::{Note, NoteModel, NoteReader, Relation, Tag};

verus! {

broadcast use vstd::seq_lib::group_seq_properties;

/// The tag records of a tag table, in table order.
pub open spec fn tag_record_models(tags: Seq<Tag>) -> Seq<RecordModel> {
    tags.map_values(|t: Tag| RecordModel::Tag { id: t.id, content: t.content@ })
}

/// The records of one note: the note, a reply link to each child, and an
/// edit link to each next version.
pub open spec fn note_entry_models(n: NoteModel, children: Seq<u128>, next: Seq<u128>) -> Seq<RecordModel> {
    seq![RecordModel::Note { id: n.id, content: n.content, tags: n.tags }]
        + children.map_values(|c: u128| RecordModel::ReplyLink { parent_id: n.id, child_id: c })
        + next.map_values(|x: u128| RecordModel::EditLink { previous_id: n.id, next_id: x })
}

/// The records of the notes with ids `ids`, in that order.
pub open spec fn note_records_models(reader: NoteReader, ids: Seq<u128>) -> Seq<RecordModel>
    decreases ids.len(),
{
    if ids.len() == 0 {
        Seq::empty()
    } else {
        let id = ids.last();
        note_records_models(reader, ids.drop_last()) + note_entry_models(
            reader.note(id).unwrap(),
            reader.linked(id, Relation::Children),
            reader.linked(id, Relation::NextVersions),
        )
    }
}

/// A tombstone for each deleted note of a note table, in table order.
pub open spec fn tombstone_models(notes: Seq<Note>) -> Seq<RecordModel>
    decreases notes.len(),
{
    if notes.len() == 0 {
        Seq::empty()
    } else {
        let rest = tombstone_models(notes.drop_last());
        if notes.last().deleted {
            rest.push(RecordModel::NoteTombstone { note_id: notes.last().id })
        } else {
            rest
        }
    }
}

/// Every id of the creation order names a note of the snapshot.
pub open spec fn time_order_resolves(reader: NoteReader) -> bool {
    forall|i: int| 0 <= i < reader.time_order().len() ==> #[trigger] reader.note(reader.time_order()[i]) is Some
}

/// The records of the whole ledger, in the order they are collected.
pub open spec fn ledger_record_models(reader: NoteReader) -> Seq<RecordModel> {
    tag_record_models(reader.tags_seq()) + note_records_models(reader, reader.time_order()) + tombstone_models(
        reader.notes_seq(),
    )
}

/// Appends the records of one note.
fn push_note_entry(records: &mut Vec<SyncRecord>, note: &Note, children: &Vec<u128>, next: &Vec<u128>)
    ensures
        record_models(final(records)@) == record_models(old(records)@) + note_entry_models(note@, children@, next@),
{
    let ghost base = record_models(records@);
    let tags = note.tags.clone();
    assert(tags@ =~= note.tags@);
    records.push(SyncRecord::Note(NoteSyncRecord { id: note.id, content: note.content.clone(), tags }));
    let ghost head = base + seq![RecordModel::Note { id: note.id, content: note.content@, tags: note.tags@ }];
    assert(record_models(records@) =~= head);
    let mut c: usize = 0;
    while c < children.len()
        invariant
            c <= children@.len(),
            record_models(records@) == head + children@.take(c as int).map_values(
                |x: u128| RecordModel::ReplyLink { parent_id: note.id, child_id: x },
            ),
        decreases children@.len() - c,
    {
        let ghost before = records@;
        records.push(SyncRecord::ReplyLink { parent_id: note.id, child_id: children[c] });
        proof {
            assert(record_models(records@) =~= record_models(before).push(
                RecordModel::ReplyLink { parent_id: note.id, child_id: children@[c as int] },
            ));
            assert(children@.take(c + 1) =~= children@.take(c as int).push(children@[c as int]));
            assert(children@.take(c + 1).map_values(|x: u128| RecordModel::ReplyLink { parent_id: note.id, child_id: x })
                =~= children@.take(c as int).map_values(
                |x: u128| RecordModel::ReplyLink { parent_id: note.id, child_id: x },
            ).push(RecordModel::ReplyLink { parent_id: note.id, child_id: children@[c as int] }));
        }
        c = c + 1;
    }
    assert(children@.take(children@.len() as int) =~= children@);
    let ghost mid = record_models(records@);
    let mut x: usize = 0;
    while x < next.len()
        invariant
            x <= next@.len(),
            record_models(records@) == mid + next@.take(x as int).map_values(
                |y: u128| RecordModel::EditLink { previous_id: note.id, next_id: y },
            ),
        decreases next@.len() - x,
    {
        let ghost before = records@;
        records.push(SyncRecord::EditLink { previous_id: note.id, next_id: next[x] });
        proof {
            assert(record_models(records@) =~= record_models(before).push(
                RecordModel::EditLink { previous_id: note.id, next_id: next@[x as int] },
            ));
            assert(next@.take(x + 1) =~= next@.take(x as int).push(next@[x as int]));
            assert(next@.take(x + 1).map_values(|y: u128| RecordModel::EditLink { previous_id: note.id, next_id: y })
                =~= next@.take(x as int).map_values(
                |y: u128| RecordModel::EditLink { previous_id: note.id, next_id: y },
            ).push(RecordModel::EditLink { previous_id: note.id, next_id: next@[x as int] }));
        }
        x = x + 1;
    }
    assert(next@.take(next@.len() as int) =~= next@);
    assert(record_models(records@) =~= record_models(old(records)@) + note_entry_models(note@, children@, next@));
}

/// Lists the records of the local ledger for a sync: every tag, then every
/// note in creation order with its reply links (to its children) and edit
/// links (to its next versions), then a tombstone for every deleted note.
/// Fails with a storage error when the creation order names a note that the
/// snapshot does not hold.
pub fn collect_local_records(reader: &NoteReader) -> (r: Result<Vec<SyncRecord>, SyncError>)
    ensures
        match r {
            Ok(rs) => time_order_resolves(*reader) && record_models(rs@) == ledger_record_models(*reader),
            Err(e) => !time_order_resolves(*reader) && e is Storage,
        },
{
    let mut records: Vec<SyncRecord> = Vec::new();
    let tags = reader.all_tags();
    let mut i: usize = 0;
    while i < tags.len()
        invariant
            i <= tags@.len(),
            tags@ == reader.tags_seq(),
            record_models(records@) == tag_record_models(tags@.take(i as int)),
        decreases tags@.len() - i,
    {
        let ghost before = records@;
        records.push(SyncRecord::Tag(TagSyncRecord { id: tags[i].id, content: tags[i].content.clone() }));
        proof {
            assert(record_models(records@) =~= record_models(before).push(
                RecordModel::Tag { id: tags@[i as int].id, content: tags@[i as int].content@ },
            ));
            assert(tags@.take(i + 1) =~= tags@.take(i as int).push(tags@[i as int]));
            assert(tag_record_models(tags@.take(i + 1)) =~= tag_record_models(tags@.take(i as int)).push(
                RecordModel::Tag { id: tags@[i as int].id, content: tags@[i as int].content@ },
            ));
        }
        i = i + 1;
    }
    assert(tags@.take(tags@.len() as int) =~= tags@);
    let ghost tag_part = record_models(records@);
    let ids = reader.note_by_time();
    let mut j: usize = 0;
    while j < ids.len()
        invariant
            j <= ids@.len(),
            ids@ == reader.time_order(),
            tag_part == tag_record_models(reader.tags_seq()),
            forall|q: int| 0 <= q < j ==> #[trigger] reader.note(ids@[q]) is Some,
            record_models(records@) == tag_part + note_records_models(*reader, ids@.take(j as int)),
        decreases ids@.len() - j,
    {
        let id = ids[j];
        match reader.get_by_id(id) {
            None => {
                assert(!time_order_resolves(*reader)) by {
                    assert(reader.note(reader.time_order()[j as int]) is None);
                }
                return Err(SyncError::Storage);
            },
            Some(note) => {
                let children = reader.links_of(id, Relation::Children);
                let next = reader.links_of(id, Relation::NextVersions);
                let ghost before = record_models(records@);
                push_note_entry(&mut records, &note, &children, &next);
                proof {
                    assert(ids@.take(j + 1).drop_last() =~= ids@.take(j as int));
                    assert(ids@.take(j + 1).last() == id);
                    assert(note_records_models(*reader, ids@.take(j + 1)) == note_records_models(*reader, ids@.take(j as int))
                        + note_entry_models(note@, children@, next@));
                    assert(record_models(records@) =~= tag_part + note_records_models(*reader, ids@.take(j + 1)));
                }
            },
        }
        j = j + 1;
    }
    assert(ids@.take(ids@.len() as int) =~= ids@);
    let ghost note_part = record_models(records@);
    let notes = reader.all_notes();
    let mut k: usize = 0;
    while k < notes.len()
        invariant
            k <= notes@.len(),
            notes@ == reader.notes_seq(),
            record_models(records@) == note_part + tombstone_models(notes@.take(k as int)),
        decreases notes@.len() - k,
    {
        let ghost before = records@;
        proof {
            assert(notes@.take(k + 1).drop_last() =~= notes@.take(k as int));
        }
        if notes[k].deleted {
            records.push(SyncRecord::NoteTombstone { note_id: notes[k].id });
            proof {
                assert(record_models(records@) =~= record_models(before).push(
                    RecordModel::NoteTombstone { note_id: notes@[k as int].id },
                ));
            }
        }
        k = k + 1;
    }
    assert(notes@.take(notes@.len() as int) =~= notes@);
    Ok(records)
}

} // verus!
