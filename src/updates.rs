//! What an operation changed, so that a host can repaint minimally.

use vstd::prelude::*;

verus! {

/// Which observable facets of the editor changed in one operation.
#[derive(Debug, Default, Copy, Clone, PartialEq, Eq, Structural)]
pub struct Updates {
    /// The cursor moved.
    pub cursor_pos_changed: bool,
    /// The cursor changed its shape.
    pub cursor_shape_changed: bool,
    /// The viewport moved.
    pub viewport_pos_changed: bool,
    /// The viewport changed its size.
    pub viewport_size_changed: bool,
    /// The content of the plane changed.
    pub content_changed: bool,
}

impl Updates {
    /// The value reporting no change.
    pub open spec fn none() -> Updates {
        Updates {
            cursor_pos_changed: false,
            cursor_shape_changed: false,
            viewport_pos_changed: false,
            viewport_size_changed: false,
            content_changed: false,
        }
    }

    /// Creates a value reporting no change.
    pub fn new() -> (r: Updates)
        ensures
            r == Updates::none(),
    {
        Updates {
            cursor_pos_changed: false,
            cursor_shape_changed: false,
            viewport_pos_changed: false,
            viewport_size_changed: false,
            content_changed: false,
        }
    }

    /// Sets whether the cursor moved.
    pub fn with_cursor_pos(self, changed: bool) -> (r: Updates)
        ensures
            r == (Updates { cursor_pos_changed: changed, ..self }),
    {
        Updates { cursor_pos_changed: changed, ..self }
    }

    /// Sets whether the cursor shape changed.
    pub fn with_cursor_shape(self, changed: bool) -> (r: Updates)
        ensures
            r == (Updates { cursor_shape_changed: changed, ..self }),
    {
        Updates { cursor_shape_changed: changed, ..self }
    }

    /// Sets whether the viewport moved.
    pub fn with_viewport_pos(self, changed: bool) -> (r: Updates)
        ensures
            r == (Updates { viewport_pos_changed: changed, ..self }),
    {
        Updates { viewport_pos_changed: changed, ..self }
    }

    /// Sets whether the viewport size changed.
    pub fn with_viewport_size(self, changed: bool) -> (r: Updates)
        ensures
            r == (Updates { viewport_size_changed: changed, ..self }),
    {
        Updates { viewport_size_changed: changed, ..self }
    }

    /// Sets whether the content changed.
    pub fn with_content_changed(self, changed: bool) -> (r: Updates)
        ensures
            r == (Updates { content_changed: changed, ..self }),
    {
        Updates { content_changed: changed, ..self }
    }

    /// Returns whether the cursor moved.
    pub fn cursor_pos_changed(&self) -> (r: bool)
        ensures
            r == self.cursor_pos_changed,
    {
        self.cursor_pos_changed
    }

    /// Returns whether the cursor shape changed.
    pub fn cursor_shape_changed(&self) -> (r: bool)
        ensures
            r == self.cursor_shape_changed,
    {
        self.cursor_shape_changed
    }

    /// Returns whether the viewport moved.
    pub fn viewport_pos_changed(&self) -> (r: bool)
        ensures
            r == self.viewport_pos_changed,
    {
        self.viewport_pos_changed
    }

    /// Returns whether the viewport size changed.
    pub fn viewport_size_changed(&self) -> (r: bool)
        ensures
            r == self.viewport_size_changed,
    {
        self.viewport_size_changed
    }

    /// Returns whether the content changed.
    pub fn content_changed(&self) -> (r: bool)
        ensures
            r == self.content_changed,
    {
        self.content_changed
    }

    /// Returns the cursor and viewport flags as a tuple.
    pub fn get(&self) -> (r: (bool, bool, bool, bool))
        ensures
            r == (self.cursor_pos_changed, self.cursor_shape_changed, self.viewport_pos_changed,
                self.viewport_size_changed),
    {
        (self.cursor_pos_changed, self.cursor_shape_changed, self.viewport_pos_changed, self.viewport_size_changed)
    }

    /// When the cursor moved, whether the viewport changed as well;
    /// `None` when the cursor did not move.
    pub fn temporary(&self) -> (r: Option<bool>)
        ensures
            r == if self.cursor_pos_changed {
                Some(self.viewport_pos_changed || self.viewport_size_changed)
            } else {
                None
            },
    {
        if self.cursor_pos_changed {
            Some(self.viewport_pos_changed || self.viewport_size_changed)
        } else {
            None
        }
    }
}

} // verus!
