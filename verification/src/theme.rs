//! Light and dark themes of the desktop front end.

use vstd::prelude::*;

verus! {

/// Application theme.
#[derive(Debug, Clone, Copy, PartialEq, Eq, Structural)]
pub enum Theme {
    Light,
    Dark,
}

impl Theme {
    /// The other theme.
    pub open spec fn other(self) -> Theme {
        match self {
            Theme::Light => Theme::Dark,
            Theme::Dark => Theme::Light,
        }
    }

    /// Switches to the other theme.
    pub fn toggle(&mut self)
        ensures
            *final(self) == old(self).other(),
    {
        *self = match *self {
            Theme::Light => Theme::Dark,
            Theme::Dark => Theme::Light,
        };
    }
}

/// Toggling twice gives back the theme one started from.
pub proof fn lemma_toggle_twice(t: Theme)
    ensures
        t.other().other() == t,
        t.other() != t,
{
}

} // verus!
