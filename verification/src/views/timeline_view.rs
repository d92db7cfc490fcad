//! The global timeline: the live notes, newest first.

use vstd::prelude::*;
use crate::views::ledger::{NoteError, NoteReader};
use crate::views::note_view::{resolve, result_models, views_of, NoteView};

verus! {

/// The timeline of one snapshot.
pub struct TimelineView<'a> {
    pub reader: &'a NoteReader,
}

impl<'a> TimelineView<'a> {
    /// The timeline of `reader`.
    pub fn new(reader: &'a NoteReader) -> (t: Self)
        ensures
            *t.reader == *reader,
    {
        TimelineView { reader }
    }

    /// The live notes from newest to oldest; a listed id the snapshot lacks
    /// gives an error in its place.
    pub fn recent(&self) -> (out: Vec<Result<NoteView<'a>, NoteError>>)
        ensures
            result_models(out@) == resolve(*self.reader, self.reader.time_order().reverse()),
            NoteView::all_from(out@, *self.reader),
    {
        let ids = self.reader.note_by_time();
        let mut newest_first: Vec<u128> = Vec::new();
        let mut i: usize = ids.len();
        while i > 0
            invariant
                i <= ids@.len(),
                newest_first@ == ids@.skip(i as int).reverse(),
            decreases i,
        {
            i = i - 1;
            let ghost before = newest_first@;
            newest_first.push(ids[i]);
            proof {
                assert(ids@.skip(i as int) =~= seq![ids@[i as int]] + ids@.skip(i + 1));
                assert(newest_first@ =~= ids@.skip(i as int).reverse());
            }
        }
        proof {
            assert(ids@.skip(0) =~= ids@);
        }
        views_of(self.reader, newest_first)
    }
}

} // verus!
