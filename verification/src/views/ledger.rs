//! A read snapshot of the ledger: the notes and tags it holds, the notes in
//! creation order, and for each note the ids it is linked to.

use vstd::prelude::*;

verus! {

/// A note of the ledger.
#[derive(Debug)]
pub struct Note {
    pub id: u128,
    pub short_id: [u8; 8],
    pub content: String,
    pub tags: Vec<u128>,
    pub deleted: bool,
}

/// The value of a note.
pub struct NoteModel {
    pub id: u128,
    pub short_id: Seq<u8>,
    pub content: Seq<char>,
    pub tags: Seq<u128>,
    pub deleted: bool,
}

impl View for Note {
    type V = NoteModel;

    open spec fn view(&self) -> NoteModel {
        NoteModel {
            id: self.id,
            short_id: self.short_id@,
            content: self.content@,
            tags: self.tags@,
            deleted: self.deleted,
        }
    }
}

impl Note {
    pub fn get_id(&self) -> (id: u128)
        ensures
            id == self.id,
    {
        self.id
    }

    pub fn content(&self) -> (c: &str)
        ensures
            c@ == self.content@,
    {
        self.content.as_str()
    }

    pub fn tags(&self) -> (t: &Vec<u128>)
        ensures
            t@ == self.tags@,
    {
        &self.tags
    }

    pub fn is_deleted(&self) -> (d: bool)
        ensures
            d == self.deleted,
    {
        self.deleted
    }

    /// A copy of this note.
    pub fn duplicate(&self) -> (n: Note)
        ensures
            n@ == self@,
    {
        let tags = self.tags.clone();
        assert(tags@ =~= self.tags@);
        Note {
            id: self.id,
            short_id: self.short_id,
            content: self.content.clone(),
            tags,
            deleted: self.deleted,
        }
    }
}

/// A tag of the ledger.
#[derive(Debug, Clone)]
pub struct Tag {
    pub id: u128,
    pub content: String,
}

impl Tag {
    pub fn get_content(&self) -> (c: &str)
        ensures
            c@ == self.content@,
    {
        self.content.as_str()
    }
}

/// The ids that a note is linked to.
#[derive(Debug, Clone)]
pub struct NoteLinks {
    pub id: u128,
    /// Notes that this note replies to.
    pub parents: Vec<u128>,
    /// Notes that reply to this note.
    pub children: Vec<u128>,
    /// Earlier versions in this note's edit chain.
    pub previous_versions: Vec<u128>,
    /// Later versions in this note's edit chain.
    pub next_versions: Vec<u128>,
    /// The other versions on this note's edit chain.
    pub other_versions: Vec<u128>,
}

/// Why a note could not be read.
#[derive(Debug, Clone, Copy, PartialEq, Eq)]
pub enum NoteError {
    IdNotFound { id: u128 },
    ShortIdNotFound { id: [u8; 8] },
}

fn same_short_id(a: &[u8; 8], b: &[u8; 8]) -> (same: bool)
    ensures
        same == (a@ == b@),
{
    let mut k: usize = 0;
    while k < 8
        invariant
            k <= 8,
            forall|m: int| 0 <= m < k ==> a@[m] == b@[m],
        decreases 8 - k,
    {
        if a[k] != b[k] {
            return false;
        }
        k = k + 1;
    }
    assert(a@ =~= b@);
    true
}

/// Which links of a note to follow.
#[derive(Debug, Clone, Copy, PartialEq, Eq, Structural)]
pub enum Relation {
    Parents,
    Children,
    PreviousVersions,
    NextVersions,
    OtherVersions,
}

/// The ids that `links` lists under `rel`.
pub open spec fn related(links: NoteLinks, rel: Relation) -> Seq<u128> {
    match rel {
        Relation::Parents => links.parents@,
        Relation::Children => links.children@,
        Relation::PreviousVersions => links.previous_versions@,
        Relation::NextVersions => links.next_versions@,
        Relation::OtherVersions => links.other_versions@,
    }
}

/// No two notes share an id or a short id, no two tags share an id, and no
/// note has two link entries: ids are the keys of the ledger's tables.
pub open spec fn keys_unique(notes: Seq<Note>, tags: Seq<Tag>, links: Seq<NoteLinks>) -> bool {
    &&& forall|i: int, j: int| 0 <= i < j < notes.len() ==> #[trigger] notes[i].id != #[trigger] notes[j].id
    &&& forall|i: int, j: int| 0 <= i < j < notes.len() ==> #[trigger] notes[i].short_id@ != #[trigger] notes[j].short_id@
    &&& forall|i: int, j: int| 0 <= i < j < tags.len() ==> #[trigger] tags[i].id != #[trigger] tags[j].id
    &&& forall|i: int, j: int| 0 <= i < j < links.len() ==> #[trigger] links[i].id != #[trigger] links[j].id
}

/// A consistent read snapshot of the ledger.
pub struct NoteReader {
    notes: Vec<Note>,
    tags: Vec<Tag>,
    by_time: Vec<u128>,
    links: Vec<NoteLinks>,
}

impl NoteReader {
    #[verifier::type_invariant]
    spec fn wf(&self) -> bool {
        keys_unique(self.notes@, self.tags@, self.links@)
    }

    /// The notes of the snapshot.
    pub closed spec fn notes_seq(&self) -> Seq<Note> {
        self.notes@
    }

    /// The tags of the snapshot.
    pub closed spec fn tags_seq(&self) -> Seq<Tag> {
        self.tags@
    }

    /// The link entries of the snapshot.
    pub closed spec fn links_seq(&self) -> Seq<NoteLinks> {
        self.links@
    }

    /// Note ids in creation order, oldest first.
    pub closed spec fn time_order(&self) -> Seq<u128> {
        self.by_time@
    }

    /// A snapshot of these tables, or `None` when a key repeats.
    pub fn new(notes: Vec<Note>, tags: Vec<Tag>, by_time: Vec<u128>, links: Vec<NoteLinks>) -> (r: Option<NoteReader>)
        ensures
            match r {
                Some(rd) => rd.notes_seq() == notes@ && rd.tags_seq() == tags@ && rd.links_seq() == links@
                    && rd.time_order() == by_time@,
                None => !keys_unique(notes@, tags@, links@),
            },
    {
        let mut i: usize = 0;
        while i < notes.len()
            invariant
                i <= notes@.len(),
                forall|a: int, b: int| 0 <= a < b < notes@.len() && a < i ==> #[trigger] notes@[a].id != #[trigger] notes@[b].id,
                forall|a: int, b: int| 0 <= a < b < notes@.len() && a < i ==> #[trigger] notes@[a].short_id@ != #[trigger] notes@[b].short_id@,
            decreases notes@.len() - i,
        {
            let mut j: usize = i + 1;
            while j < notes.len()
                invariant
                    i < notes@.len(),
                    i < j <= notes@.len(),
                    forall|b: int| i < b < j ==> notes@[i as int].id != #[trigger] notes@[b].id,
                    forall|b: int| i < b < j ==> notes@[i as int].short_id@ != #[trigger] notes@[b].short_id@,
                decreases notes@.len() - j,
            {
                if notes[i].id == notes[j].id {
                    return None;
                }
                if same_short_id(&notes[i].short_id, &notes[j].short_id) {
                    return None;
                }
                j = j + 1;
            }
            i = i + 1;
        }
        let mut i: usize = 0;
        while i < tags.len()
            invariant
                i <= tags@.len(),
                forall|a: int, b: int| 0 <= a < b < tags@.len() && a < i ==> #[trigger] tags@[a].id != #[trigger] tags@[b].id,
            decreases tags@.len() - i,
        {
            let mut j: usize = i + 1;
            while j < tags.len()
                invariant
                    i < tags@.len(),
                    i < j <= tags@.len(),
                    forall|b: int| i < b < j ==> tags@[i as int].id != #[trigger] tags@[b].id,
                decreases tags@.len() - j,
            {
                if tags[i].id == tags[j].id {
                    return None;
                }
                j = j + 1;
            }
            i = i + 1;
        }
        let mut i: usize = 0;
        while i < links.len()
            invariant
                i <= links@.len(),
                forall|a: int, b: int| 0 <= a < b < links@.len() && a < i ==> #[trigger] links@[a].id != #[trigger] links@[b].id,
            decreases links@.len() - i,
        {
            let mut j: usize = i + 1;
            while j < links.len()
                invariant
                    i < links@.len(),
                    i < j <= links@.len(),
                    forall|b: int| i < b < j ==> links@[i as int].id != #[trigger] links@[b].id,
                decreases links@.len() - j,
            {
                if links[i].id == links[j].id {
                    return None;
                }
                j = j + 1;
            }
            i = i + 1;
        }
        Some(NoteReader { notes, tags, by_time, links })
    }

    /// The note with id `id`, if the snapshot holds one.
    pub open spec fn note(&self, id: u128) -> Option<NoteModel> {
        if exists|i: int| 0 <= i < self.notes_seq().len() && #[trigger] self.notes_seq()[i].id == id {
            let i = choose|i: int| 0 <= i < self.notes_seq().len() && #[trigger] self.notes_seq()[i].id == id;
            Some(self.notes_seq()[i]@)
        } else {
            None
        }
    }

    /// The note with short id `sid`, if the snapshot holds one.
    pub open spec fn note_by_short(&self, sid: Seq<u8>) -> Option<NoteModel> {
        if exists|i: int| 0 <= i < self.notes_seq().len() && #[trigger] self.notes_seq()[i].short_id@ == sid {
            let i = choose|i: int| 0 <= i < self.notes_seq().len() && #[trigger] self.notes_seq()[i].short_id@ == sid;
            Some(self.notes_seq()[i]@)
        } else {
            None
        }
    }

    /// The content of the tag with id `id`, if the snapshot holds one.
    pub open spec fn tag(&self, id: u128) -> Option<Seq<char>> {
        if exists|i: int| 0 <= i < self.tags_seq().len() && #[trigger] self.tags_seq()[i].id == id {
            let i = choose|i: int| 0 <= i < self.tags_seq().len() && #[trigger] self.tags_seq()[i].id == id;
            Some(self.tags_seq()[i].content@)
        } else {
            None
        }
    }

    /// The ids linked to note `id` under `rel` (none when it has no entry).
    pub open spec fn linked(&self, id: u128, rel: Relation) -> Seq<u128> {
        if exists|i: int| 0 <= i < self.links_seq().len() && #[trigger] self.links_seq()[i].id == id {
            let i = choose|i: int| 0 <= i < self.links_seq().len() && #[trigger] self.links_seq()[i].id == id;
            related(self.links_seq()[i], rel)
        } else {
            Seq::empty()
        }
    }

    /// Link law: the ids a note is linked to are read from one link entry of
    /// that note, each relation from its own list: parents from `parents`,
    /// replies from `children`, history from `previous_versions`, later
    /// versions from `next_versions`, the rest of the chain from
    /// `other_versions`. A note without an entry is linked to nothing.
    pub proof fn lemma_linked_lists(&self, id: u128)
        ensures
            (exists|i: int| 0 <= i < self.links_seq().len() && #[trigger] self.links_seq()[i].id == id) ==> exists|i: int|
                0 <= i < self.links_seq().len() && #[trigger] self.links_seq()[i].id == id
                    && self.linked(id, Relation::Parents) == self.links_seq()[i].parents@
                    && self.linked(id, Relation::Children) == self.links_seq()[i].children@
                    && self.linked(id, Relation::PreviousVersions) == self.links_seq()[i].previous_versions@
                    && self.linked(id, Relation::NextVersions) == self.links_seq()[i].next_versions@
                    && self.linked(id, Relation::OtherVersions) == self.links_seq()[i].other_versions@,
            (forall|i: int| 0 <= i < self.links_seq().len() ==> #[trigger] self.links_seq()[i].id != id) ==> (
            self.linked(id, Relation::Parents).len() == 0 && self.linked(id, Relation::Children).len() == 0
                && self.linked(id, Relation::PreviousVersions).len() == 0
                && self.linked(id, Relation::NextVersions).len() == 0
                && self.linked(id, Relation::OtherVersions).len() == 0),
    {
        if exists|i: int| 0 <= i < self.links_seq().len() && #[trigger] self.links_seq()[i].id == id {
            let w = choose|i: int| 0 <= i < self.links_seq().len() && #[trigger] self.links_seq()[i].id == id;
            assert(self.links_seq()[w].id == id);
        }
    }

    /// Looks a note up by id.
    pub fn get_by_id(&self, id: u128) -> (n: Option<Note>)
        ensures
            match n {
                Some(n) => self.note(id) == Some(n@),
                None => self.note(id) is None,
            },
    {
        proof {
            use_type_invariant(self);
        }
        let mut i: usize = 0;
        while i < self.notes.len()
            invariant
                keys_unique(self.notes@, self.tags@, self.links@),
                i <= self.notes@.len(),
                forall|j: int| 0 <= j < i ==> #[trigger] self.notes@[j].id != id,
            decreases self.notes@.len() - i,
        {
            if self.notes[i].id == id {
                let n = self.notes[i].duplicate();
                proof {
                    assert(self.notes_seq()[i as int].id == id);
                    let w = choose|i: int| 0 <= i < self.notes_seq().len() && #[trigger] self.notes_seq()[i].id == id;
                    if w != i {
                        if w < i {
                            assert(self.notes@[w].id != self.notes@[i as int].id);
                        } else {
                            assert(self.notes@[i as int].id != self.notes@[w].id);
                        }
                    }
                }
                return Some(n);
            }
            i = i + 1;
        }
        None
    }

    /// Looks a note up by short id.
    pub fn get_by_short_id(&self, sid: [u8; 8]) -> (n: Option<Note>)
        ensures
            match n {
                Some(n) => self.note_by_short(sid@) == Some(n@),
                None => self.note_by_short(sid@) is None,
            },
    {
        proof {
            use_type_invariant(self);
        }
        let mut i: usize = 0;
        while i < self.notes.len()
            invariant
                keys_unique(self.notes@, self.tags@, self.links@),
                i <= self.notes@.len(),
                forall|j: int| 0 <= j < i ==> #[trigger] self.notes@[j].short_id@ != sid@,
            decreases self.notes@.len() - i,
        {
            let same = same_short_id(&self.notes[i].short_id, &sid);
            if same {
                let n = self.notes[i].duplicate();
                proof {
                    assert(self.notes_seq()[i as int].short_id@ == sid@);
                    let w = choose|i: int| 0 <= i < self.notes_seq().len() && #[trigger] self.notes_seq()[i].short_id@ == sid@;
                    if w != i {
                        if w < i {
                            assert(self.notes@[w].short_id@ != self.notes@[i as int].short_id@);
                        } else {
                            assert(self.notes@[i as int].short_id@ != self.notes@[w].short_id@);
                        }
                    }
                }
                return Some(n);
            }
            i = i + 1;
        }
        None
    }

    /// Looks a tag up by id.
    pub fn get_tag_by_id(&self, id: u128) -> (t: Option<Tag>)
        ensures
            match t {
                Some(t) => self.tag(id) == Some(t.content@) && t.id == id,
                None => self.tag(id) is None,
            },
    {
        proof {
            use_type_invariant(self);
        }
        let mut i: usize = 0;
        while i < self.tags.len()
            invariant
                keys_unique(self.notes@, self.tags@, self.links@),
                i <= self.tags@.len(),
                forall|j: int| 0 <= j < i ==> #[trigger] self.tags@[j].id != id,
            decreases self.tags@.len() - i,
        {
            if self.tags[i].id == id {
                let t = Tag { id, content: self.tags[i].content.clone() };
                proof {
                    assert(self.tags_seq()[i as int].id == id);
                    let w = choose|i: int| 0 <= i < self.tags_seq().len() && #[trigger] self.tags_seq()[i].id == id;
                    if w != i {
                        if w < i {
                            assert(self.tags@[w].id != self.tags@[i as int].id);
                        } else {
                            assert(self.tags@[i as int].id != self.tags@[w].id);
                        }
                    }
                }
                return Some(t);
            }
            i = i + 1;
        }
        None
    }

    /// The ids linked to note `id` under `rel`.
    pub fn links_of(&self, id: u128, rel: Relation) -> (ids: Vec<u128>)
        ensures
            ids@ == self.linked(id, rel),
    {
        proof {
            use_type_invariant(self);
        }
        let mut i: usize = 0;
        while i < self.links.len()
            invariant
                keys_unique(self.notes@, self.tags@, self.links@),
                i <= self.links@.len(),
                forall|j: int| 0 <= j < i ==> #[trigger] self.links@[j].id != id,
            decreases self.links@.len() - i,
        {
            if self.links[i].id == id {
                let l = &self.links[i];
                let ids = match rel {
                    Relation::Parents => l.parents.clone(),
                    Relation::Children => l.children.clone(),
                    Relation::PreviousVersions => l.previous_versions.clone(),
                    Relation::NextVersions => l.next_versions.clone(),
                    Relation::OtherVersions => l.other_versions.clone(),
                };
                proof {
                    assert(ids@ =~= related(*l, rel));
                    assert(self.links_seq()[i as int].id == id);
                    let w = choose|i: int| 0 <= i < self.links_seq().len() && #[trigger] self.links_seq()[i].id == id;
                    if w != i {
                        if w < i {
                            assert(self.links@[w].id != self.links@[i as int].id);
                        } else {
                            assert(self.links@[i as int].id != self.links@[w].id);
                        }
                    }
                }
                return ids;
            }
            i = i + 1;
        }
        Vec::new()
    }

    /// All notes of the snapshot, in table order.
    pub fn all_notes(&self) -> (notes: &Vec<Note>)
        ensures
            notes@ == self.notes_seq(),
    {
        &self.notes
    }

    /// All tags of the snapshot, in table order.
    pub fn all_tags(&self) -> (tags: &Vec<Tag>)
        ensures
            tags@ == self.tags_seq(),
    {
        &self.tags
    }

    /// Note ids in creation order, oldest first.
    pub fn note_by_time(&self) -> (ids: &Vec<u128>)
        ensures
            ids@ == self.time_order(),
    {
        &self.by_time
    }
}

} // verus!
