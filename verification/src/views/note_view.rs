//! A note together with the snapshot it was read from, to walk its
//! neighbourhood: parents, children, versions and tags.

use vstd::prelude::*;
use vstd::string::*;
use crate::dto::NoteDTO;
use crate::ids::{millis_of, unix_millis, uuid_string, uuid_text, uuid_timestamp, uuid_unix_time, uuid_version};
use crate::views::ledger::{Note, NoteError, NoteModel, NoteReader, Relation, Tag};

verus! {

/// The live notes among `ids`, in order: a deleted note is skipped, an id
/// the snapshot lacks gives an error in its place.
pub open spec fn resolve(reader: NoteReader, ids: Seq<u128>) -> Seq<Result<NoteModel, NoteError>>
    decreases ids.len(),
{
    if ids.len() == 0 {
        Seq::empty()
    } else {
        let rest = resolve(reader, ids.drop_last());
        let id = ids.last();
        match reader.note(id) {
            Some(n) => if n.deleted { rest } else { rest.push(Ok(n)) },
            None => rest.push(Err(NoteError::IdNotFound { id })),
        }
    }
}

/// The contents of the tags `ids`, or the error for the first id the
/// snapshot lacks.
pub open spec fn tag_contents(reader: NoteReader, ids: Seq<u128>) -> Result<Seq<Seq<char>>, NoteError>
    decreases ids.len(),
{
    if ids.len() == 0 {
        Ok(Seq::empty())
    } else {
        match tag_contents(reader, ids.drop_last()) {
            Err(e) => Err(e),
            Ok(cs) => match reader.tag(ids.last()) {
                Some(c) => Ok(cs.push(c)),
                None => Err(NoteError::IdNotFound { id: ids.last() }),
            },
        }
    }
}

/// A note and the snapshot it belongs to.
pub struct NoteView<'a> {
    pub reader: &'a NoteReader,
    pub note: Note,
}

/// The note value carried by a view result.
pub open spec fn result_model(r: Result<NoteView, NoteError>) -> Result<NoteModel, NoteError> {
    match r {
        Ok(v) => Ok(v.note@),
        Err(e) => Err(e),
    }
}

/// The note values of a list of view results.
pub open spec fn result_models(rs: Seq<Result<NoteView, NoteError>>) -> Seq<Result<NoteModel, NoteError>> {
    rs.map_values(|r: Result<NoteView, NoteError>| result_model(r))
}

impl<'a> NoteView<'a> {
    /// The snapshot this view reads from.
    pub open spec fn source(&self) -> NoteReader {
        *self.reader
    }

    /// Every view among `rs` reads from `reader`.
    pub open spec fn all_from(rs: Seq<Result<NoteView<'a>, NoteError>>, reader: NoteReader) -> bool {
        forall|i: int| 0 <= i < rs.len() ==> (#[trigger] rs[i] matches Ok(v) ==> v.source() == reader)
    }

    /// A view of `note` in `reader`.
    pub fn new(reader: &'a NoteReader, note: Note) -> (v: Self)
        ensures
            v.source() == *reader,
            v.note == note,
    {
        NoteView { reader, note }
    }

    /// The view of the note with id `id`.
    pub fn from_id(reader: &'a NoteReader, id: u128) -> (r: Result<Self, NoteError>)
        ensures
            match r {
                Ok(v) => reader.note(id) == Some(v.note@) && v.source() == *reader,
                Err(e) => reader.note(id) is None && e == NoteError::IdNotFound { id },
            },
    {
        match reader.get_by_id(id) {
            Some(note) => Ok(Self::new(reader, note)),
            None => Err(NoteError::IdNotFound { id }),
        }
    }

    /// The view of the note with short id `id`.
    pub fn from_short_id(reader: &'a NoteReader, id: [u8; 8]) -> (r: Result<Self, NoteError>)
        ensures
            match r {
                Ok(v) => reader.note_by_short(id@) == Some(v.note@) && v.source() == *reader,
                Err(e) => reader.note_by_short(id@) is None && e == NoteError::ShortIdNotFound { id },
            },
    {
        match reader.get_by_short_id(id) {
            Some(note) => Ok(Self::new(reader, note)),
            None => Err(NoteError::ShortIdNotFound { id }),
        }
    }

    /// Views of the notes linked to this one under `rel`, skipping deleted ones.
    pub fn linked_views(&self, rel: Relation) -> (out: Vec<Result<NoteView<'a>, NoteError>>)
        ensures
            result_models(out@) == resolve(self.source(), self.source().linked(self.note.id, rel)),
            Self::all_from(out@, self.source()),
    {
        let ids = self.reader.links_of(self.note.get_id(), rel);
        views_of(self.reader, ids)
    }

    /// The notes this note replies to (deleted ones skipped).
    pub fn parents(&self) -> (out: Vec<Result<NoteView<'a>, NoteError>>)
        ensures
            result_models(out@) == resolve(self.source(), self.source().linked(self.note.id, Relation::Parents)),
            Self::all_from(out@, self.source()),
    {
        self.linked_views(Relation::Parents)
    }

    /// The notes that reply to this note (deleted ones skipped).
    pub fn children(&self) -> (out: Vec<Result<NoteView<'a>, NoteError>>)
        ensures
            result_models(out@) == resolve(self.source(), self.source().linked(self.note.id, Relation::Children)),
            Self::all_from(out@, self.source()),
    {
        self.linked_views(Relation::Children)
    }

    /// The earlier versions of this note (deleted ones skipped).
    pub fn history(&self) -> (out: Vec<Result<NoteView<'a>, NoteError>>)
        ensures
            result_models(out@) == resolve(self.source(), self.source().linked(self.note.id, Relation::PreviousVersions)),
            Self::all_from(out@, self.source()),
    {
        self.linked_views(Relation::PreviousVersions)
    }

    /// The later versions of this note (deleted ones skipped).
    pub fn next_version(&self) -> (out: Vec<Result<NoteView<'a>, NoteError>>)
        ensures
            result_models(out@) == resolve(self.source(), self.source().linked(self.note.id, Relation::NextVersions)),
            Self::all_from(out@, self.source()),
    {
        self.linked_views(Relation::NextVersions)
    }

    /// The other versions on this note's edit chain (deleted ones skipped).
    pub fn other_versions(&self) -> (out: Vec<Result<NoteView<'a>, NoteError>>)
        ensures
            result_models(out@) == resolve(self.source(), self.source().linked(self.note.id, Relation::OtherVersions)),
            Self::all_from(out@, self.source()),
    {
        self.linked_views(Relation::OtherVersions)
    }

    /// The tags of this note, in the note's order; an error for the first
    /// tag id the snapshot lacks.
    pub fn tags(&self) -> (r: Result<Vec<Tag>, NoteError>)
        ensures
            match r {
                Ok(ts) => tag_contents(self.source(), self.note.tags@) == Ok::<Seq<Seq<char>>, NoteError>(
                    ts@.map_values(|t: Tag| t.content@),
                ) && ts@.map_values(|t: Tag| t.id) == self.note.tags@,
                Err(e) => tag_contents(self.source(), self.note.tags@) == Err::<Seq<Seq<char>>, NoteError>(e),
            },
    {
        let ids = self.note.tags();
        let mut out: Vec<Tag> = Vec::new();
        let mut i: usize = 0;
        proof {
            assert(ids@.take(0) =~= Seq::<u128>::empty());
            assert(out@.map_values(|t: Tag| t.content@) =~= Seq::<Seq<char>>::empty());
            assert(out@.map_values(|t: Tag| t.id) =~= Seq::<u128>::empty());
        }
        while i < ids.len()
            invariant
                ids@ == self.note.tags@,
                i <= ids@.len(),
                tag_contents(self.source(), ids@.take(i as int)) == Ok::<Seq<Seq<char>>, NoteError>(
                    out@.map_values(|t: Tag| t.content@),
                ),
                out@.map_values(|t: Tag| t.id) == ids@.take(i as int),
            decreases ids@.len() - i,
        {
            let id = ids[i];
            proof {
                assert(ids@.take(i + 1).drop_last() =~= ids@.take(i as int));
                assert(ids@.take(i + 1).last() == id);
            }
            let ghost before = out@;
            match self.reader.get_tag_by_id(id) {
                Some(t) => {
                    out.push(t);
                    proof {
                        assert(out@.map_values(|t: Tag| t.content@) =~= before.map_values(|t: Tag| t.content@).push(t.content@));
                        assert(out@.map_values(|t: Tag| t.id) =~= before.map_values(|t: Tag| t.id).push(id));
                        assert(ids@.take(i + 1) =~= ids@.take(i as int).push(id));
                    }
                },
                None => {
                    proof {
                        lemma_tag_contents_error_persists(self.source(), ids@, i as int + 1);
                    }
                    return Err(NoteError::IdNotFound { id });
                },
            }
            i = i + 1;
        }
        proof {
            assert(ids@.take(ids@.len() as int) =~= ids@);
        }
        Ok(out)
    }

    /// The note as front ends see it: its id as text, its content, the
    /// contents of its tags and its creation time in milliseconds. Fails
    /// when a tag is missing, or when the id records no creation time.
    pub fn to_dto(&self) -> (r: Result<NoteDTO, NoteError>)
        ensures
            match tag_contents(self.source(), self.note.tags@) {
                Err(e) => r == Err::<NoteDTO, NoteError>(e),
                Ok(cs) => match uuid_unix_time(self.note.id) {
                    None => r == Err::<NoteDTO, NoteError>(NoteError::IdNotFound { id: self.note.id }),
                    Some(t) => match r {
                        Ok(dto) => dto.id@ == uuid_text(self.note.id) && dto.content@ == self.note.content@
                            && dto.tags@.map_values(|s: String| s@) == cs && dto.created_at == millis_of(t),
                        Err(_) => false,
                    },
                },
            },
    {
        let tags = match self.tags() {
            Ok(ts) => ts,
            Err(e) => return Err(e),
        };
        let mut names: Vec<String> = Vec::new();
        let mut i: usize = 0;
        while i < tags.len()
            invariant
                i <= tags@.len(),
                names@.map_values(|s: String| s@) == tags@.take(i as int).map_values(|t: Tag| t.content@),
            decreases tags@.len() - i,
        {
            let ghost before = names@;
            names.push(String::from_str(tags[i].get_content()));
            proof {
                assert(names@.map_values(|s: String| s@) =~= before.map_values(|s: String| s@).push(tags@[i as int].content@));
                assert(tags@.take(i + 1).map_values(|t: Tag| t.content@) =~= tags@.take(i as int).map_values(|t: Tag| t.content@).push(tags@[i as int].content@));
            }
            i = i + 1;
        }
        proof {
            assert(tags@.take(tags@.len() as int) =~= tags@);
        }
        let id = self.note.get_id();
        let time = match uuid_timestamp(id) {
            Some(t) => t,
            None => return Err(NoteError::IdNotFound { id }),
        };
        proof {
            if uuid_version(id) == 7 {
                assert((id >> 80u128) <= 0xFFFF_FFFF_FFFFu128) by (bit_vector);
            }
        }
        let created_at = unix_millis(time);
        Ok(NoteDTO { id: uuid_string(id), content: String::from_str(self.note.content()), tags: names, created_at })
    }

    /// The note of this view.
    pub fn get_note(&self) -> (n: &Note)
        ensures
            *n == self.note,
    {
        &self.note
    }
}

/// Views of the live notes among `ids`.
pub fn views_of<'a>(reader: &'a NoteReader, ids: Vec<u128>) -> (out: Vec<Result<NoteView<'a>, NoteError>>)
    ensures
        result_models(out@) == resolve(*reader, ids@),
        NoteView::all_from(out@, *reader),
{
    let mut out: Vec<Result<NoteView<'a>, NoteError>> = Vec::new();
    let mut i: usize = 0;
    while i < ids.len()
        invariant
            i <= ids@.len(),
            result_models(out@) == resolve(*reader, ids@.take(i as int)),
            NoteView::all_from(out@, *reader),
        decreases ids@.len() - i,
    {
        let id = ids[i];
        proof {
            assert(ids@.take(i + 1).drop_last() =~= ids@.take(i as int));
            assert(ids@.take(i + 1).last() == id);
        }
        let ghost before = out@;
        match reader.get_by_id(id) {
            Some(note) => {
                if !note.is_deleted() {
                    out.push(Ok(NoteView::new(reader, note)));
                    proof {
                        assert(result_models(out@) =~= result_models(before).push(result_model(out@.last())));
                    }
                }
            },
            None => {
                out.push(Err(NoteError::IdNotFound { id }));
                proof {
                    assert(result_models(out@) =~= result_models(before).push(result_model(out@.last())));
                }
            },
        }
        i = i + 1;
    }
    proof {
        assert(ids@.take(ids@.len() as int) =~= ids@);
    }
    out
}

/// Deleted notes never show: every note a view list yields is live, is the
/// note the snapshot holds for one of the listed ids, and the list has at
/// most one entry per listed id.
pub proof fn lemma_resolve_yields_live_notes(reader: NoteReader, ids: Seq<u128>)
    ensures
        resolve(reader, ids).len() <= ids.len(),
        forall|i: int| 0 <= i < resolve(reader, ids).len() ==> (#[trigger] resolve(reader, ids)[i] matches Ok(n) ==> !n.deleted
            && exists|j: int| 0 <= j < ids.len() && reader.note(#[trigger] ids[j]) == Some(n)),
    decreases ids.len(),
{
    if ids.len() > 0 {
        let p = ids.drop_last();
        lemma_resolve_yields_live_notes(reader, p);
        let r = resolve(reader, ids);
        let rp = resolve(reader, p);
        assert forall|i: int| 0 <= i < r.len() implies (#[trigger] r[i] matches Ok(n) ==> !n.deleted
            && exists|j: int| 0 <= j < ids.len() && reader.note(#[trigger] ids[j]) == Some(n)) by {
            if i < rp.len() {
                assert(r[i] == rp[i]);
                if let Ok(n) = rp[i] {
                    let j = choose|j: int| 0 <= j < p.len() && reader.note(#[trigger] p[j]) == Some(n);
                    assert(ids[j] == p[j]);
                }
            } else {
                if let Ok(n) = r[i] {
                    assert(reader.note(ids.last()) == Some(n));
                    assert(reader.note(ids[ids.len() - 1]) == Some(n));
                }
            }
        }
    }
}

/// Once the tag ids up to `i` fail to resolve, the whole list does too.
proof fn lemma_tag_contents_error_persists(reader: NoteReader, ids: Seq<u128>, i: int)
    requires
        0 <= i <= ids.len(),
        tag_contents(reader, ids.take(i)) is Err,
    ensures
        tag_contents(reader, ids) == tag_contents(reader, ids.take(i)),
    decreases ids.len() - i,
{
    if i < ids.len() {
        assert(ids.take(i + 1).drop_last() =~= ids.take(i));
        lemma_tag_contents_error_persists(reader, ids, i + 1);
    } else {
        assert(ids.take(i) =~= ids);
    }
}

} // verus!
