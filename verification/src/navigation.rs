//! Which story the detail view shows.

use vstd::prelude::*;

verus! {

/// The story whose detail view is open, if any.
///
/// The identifier is carried as a plain value: whether a story with that
/// identifier exists is for whoever fetches it to find out.
#[derive(Clone, Copy, Debug, PartialEq, Eq, Structural)]
pub enum Selection {
    /// The story list is showing.
    NoSelection,
    /// The detail view of the story with this identifier is showing.
    Selected(i64),
}

/// A navigation request.
#[derive(Clone, Copy, Debug, PartialEq, Eq, Structural)]
pub enum Navigation {
    /// Open the detail view of the story with this identifier.
    ToDetail(i64),
    /// Leave the detail view for the story list.
    Back,
}

impl Selection {
    /// The state that follows `self` when `request` is carried out.
    pub open spec fn after(self, request: Navigation) -> Selection {
        match request {
            Navigation::ToDetail(id) => Selection::Selected(id),
            Navigation::Back => Selection::NoSelection,
        }
    }

    /// The identifier of the selected story, if one is selected.
    pub open spec fn story(self) -> Option<i64> {
        match self {
            Selection::Selected(id) => Some(id),
            Selection::NoSelection => None,
        }
    }

    /// The state in which navigation starts: nothing is selected.
    pub fn new() -> (state: Selection)
        ensures
            state == Selection::NoSelection,
    {
        Selection::NoSelection
    }

    /// Carries out a navigation request.
    pub fn navigate(self, request: Navigation) -> (next: Selection)
        ensures
            next == self.after(request),
    {
        match request {
            Navigation::ToDetail(id) => Selection::Selected(id),
            Navigation::Back => Selection::NoSelection,
        }
    }

    /// Opens the detail view of story `id`.
    pub fn select(self, id: i64) -> (next: Selection)
        ensures
            next == Selection::Selected(id),
            next == self.after(Navigation::ToDetail(id)),
    {
        self.navigate(Navigation::ToDetail(id))
    }

    /// Goes back to the story list.
    pub fn back(self) -> (next: Selection)
        ensures
            next == Selection::NoSelection,
            next == self.after(Navigation::Back),
    {
        self.navigate(Navigation::Back)
    }

    /// The identifier of the selected story, if one is selected.
    pub fn selected_id(&self) -> (id: Option<i64>)
        ensures
            id == self.story(),
    {
        match self {
            Selection::Selected(id) => Some(*id),
            Selection::NoSelection => None,
        }
    }
}

} // verus!
