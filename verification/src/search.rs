//! What a searchable item offers to the search index.

use vstd::prelude::*;

verus! {

/// An item that the search index can hold: it has an id and a text to search.
pub trait Searchable: Clone + Send + Sync + 'static {
    /// The type of the item's primary key.
    type Id: Clone + Send + Sync + 'static;

    /// The item's primary key.
    fn get_id(&self) -> Self::Id;

    /// The plain text to index.
    fn get_search_text(&self) -> String;
}

} // verus!
