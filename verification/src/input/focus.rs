//! Which overlay or panel currently has input focus.

use vstd::prelude::*;
use crate::text::opt_str_eq;
use crate::input::keys::opt_string_view;

verus! {

/// Tracks which overlay/panel currently has input focus.
///
/// At most one element has focus at a time. Focus requires input capture
/// mode to be active; the tracker doesn't enforce this itself, the API layer
/// checks capture mode before routing input.
#[derive(Debug, Clone)]
pub struct FocusTracker {
    focused: Option<String>,
}

impl View for FocusTracker {
    type V = Option<Seq<char>>;

    closed spec fn view(&self) -> Option<Seq<char>> {
        opt_string_view(self.focused)
    }
}

/// Focus after `clear_if_focused(id)`.
pub open spec fn clear_if_focused_step(f: Option<Seq<char>>, id: Seq<char>) -> Option<Seq<char>> {
    if f == Some(id) {
        None
    } else {
        f
    }
}

impl FocusTracker {
    /// A tracker with nothing focused.
    pub fn new() -> (r: Self)
        ensures
            r@ is None,
    {
        FocusTracker { focused: None }
    }

    /// Set focus to a specific element by ID.
    pub fn focus(&mut self, id: String)
        ensures
            final(self)@ == Some(id@),
    {
        self.focused = Some(id);
    }

    /// Remove focus from any element.
    pub fn unfocus(&mut self)
        ensures
            final(self)@ is None,
    {
        self.focused = None;
    }

    /// Get the currently focused element's ID, if any.
    pub fn focused(&self) -> (r: Option<String>)
        ensures
            opt_string_view(r) == self@,
    {
        match &self.focused {
            Some(f) => Some(f.clone()),
            None => None,
        }
    }

    /// Clear focus only if the given ID currently has focus. Used when an
    /// element is deleted.
    pub fn clear_if_focused(&mut self, id: &str)
        ensures
            final(self)@ == clear_if_focused_step(old(self)@, id@),
    {
        if opt_str_eq(&self.focused, id) {
            self.focused = None;
        }
    }
}

impl Default for FocusTracker {
    fn default() -> (r: Self)
        ensures
            r@ is None,
    {
        Self::new()
    }
}

/// Deleting the focused element clears focus; deleting any other element
/// leaves focus where it was.
pub proof fn law_clear_only_the_focused(id: Seq<char>, other: Seq<char>)
    requires
        id != other,
    ensures
        clear_if_focused_step(Some(id), id) is None,
        clear_if_focused_step(Some(id), other) == Some(id),
        clear_if_focused_step(None, other) is None,
{
}

} // verus!
