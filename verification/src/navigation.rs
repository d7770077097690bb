//! Where a page goes when it is done: back in the history when there is one,
//! else to the index page, which replaces the current entry.

use vstd::prelude::*;

verus! {

/// A move of the router.
#[derive(Clone, Copy, Debug, PartialEq, Eq, Structural)]
pub enum NavAction {
    /// Go back one entry in the history.
    GoBack,
    /// Replace the current entry with the index page.
    ReplaceWithIndex,
}

/// The move that leaves a page: back when the history allows it, else the
/// index page in place of the current entry.
pub fn back_or_index(can_go_back: bool) -> (r: NavAction)
    ensures
        can_go_back ==> r == NavAction::GoBack,
        !can_go_back ==> r == NavAction::ReplaceWithIndex,
{
    if can_go_back {
        NavAction::GoBack
    } else {
        NavAction::ReplaceWithIndex
    }
}

} // verus!
