//! Cursor position and shape.

use vstd::prelude::*;

verus! {

/// Cursor shapes.
#[derive(Debug, Copy, Clone, PartialEq, Eq, Structural)]
pub enum CursorShape {
    /// A vertical caret between two glyphs; edits insert.
    Caret,
    /// A block covering a glyph; edits override.
    Block,
    /// An underscore under a glyph; edits override.
    UnderScore,
}

/// `v` moved by `d`, clamped to the range of `usize`.
pub open spec fn spec_offset(v: usize, d: int) -> usize {
    if v + d < 0 {
        0
    } else if v + d > usize::MAX {
        usize::MAX
    } else {
        (v + d) as usize
    }
}

/// The shape after toggling between caret and block.
pub open spec fn spec_toggle_caret_block(s: CursorShape) -> CursorShape {
    match s {
        CursorShape::Block => CursorShape::Caret,
        _ => CursorShape::Block,
    }
}

/// The shape after toggling between caret and underscore.
pub open spec fn spec_toggle_caret_under_score(s: CursorShape) -> CursorShape {
    match s {
        CursorShape::UnderScore => CursorShape::Caret,
        _ => CursorShape::UnderScore,
    }
}

/// Cursor position and shape.
#[derive(Debug, Copy, Clone, PartialEq, Eq, Structural)]
pub struct Cursor {
    /// Cursor shape.
    pub shape: CursorShape,
    /// Horizontal position (column).
    pub column: usize,
    /// Vertical position (row).
    pub row: usize,
}

impl Cursor {
    /// Creates a cursor.
    pub fn new(shape: CursorShape, column: usize, row: usize) -> (r: Cursor)
        ensures
            r == (Cursor { shape, column, row }),
    {
        Cursor { shape, column, row }
    }

    /// Returns the shape.
    pub fn shape(&self) -> (r: CursorShape)
        ensures
            r == self.shape,
    {
        self.shape
    }

    /// Returns the position as `(column, row)`.
    pub fn pos(&self) -> (r: (usize, usize))
        ensures
            r == (self.column, self.row),
    {
        (self.column, self.row)
    }

    /// Places the cursor at `(col, row)`.
    pub fn set(&mut self, col: usize, row: usize)
        ensures
            *final(self) == (Cursor { shape: old(self).shape, column: col, row }),
    {
        self.column = col;
        self.row = row;
    }

    /// Sets the column.
    pub fn set_col(&mut self, col: usize)
        ensures
            *final(self) == (Cursor { column: col, ..*old(self) }),
    {
        self.column = col;
    }

    /// Returns the column.
    pub fn col(&self) -> (r: usize)
        ensures
            r == self.column,
    {
        self.column
    }

    /// Moves right by `value` columns, saturating.
    pub fn inc_col(&mut self, value: usize)
        ensures
            *final(self) == (Cursor { column: spec_offset(old(self).column, value as int), ..*old(self) }),
    {
        self.column = self.column.saturating_add(value);
    }

    /// Moves left by `value` columns, saturating at zero.
    pub fn dec_col(&mut self, value: usize)
        ensures
            *final(self) == (Cursor {
                column: if old(self).column >= value { (old(self).column - value) as usize } else { 0 },
                ..*old(self)
            }),
    {
        self.column = self.column.saturating_sub(value);
    }

    /// Returns the row.
    pub fn row(&self) -> (r: usize)
        ensures
            r == self.row,
    {
        self.row
    }

    /// Sets the row.
    pub fn set_row(&mut self, row: usize)
        ensures
            *final(self) == (Cursor { row, ..*old(self) }),
    {
        self.row = row;
    }

    /// Moves down by `value` rows, saturating.
    pub fn inc_row(&mut self, value: usize)
        ensures
            *final(self) == (Cursor { row: spec_offset(old(self).row, value as int), ..*old(self) }),
    {
        self.row = self.row.saturating_add(value);
    }

    /// Moves up by `value` rows, saturating at zero.
    pub fn dec_row(&mut self, value: usize)
        ensures
            *final(self) == (Cursor {
                row: if old(self).row >= value { (old(self).row - value) as usize } else { 0 },
                ..*old(self)
            }),
    {
        self.row = self.row.saturating_sub(value);
    }

    /// The position `(column, row)` after moving by the given offsets,
    /// each coordinate clamped to the range of `usize`.
    pub fn offset(&self, column_offset: isize, row_offset: isize) -> (r: (usize, usize))
        ensures
            r == (spec_offset(self.column, column_offset as int), spec_offset(self.row, row_offset as int)),
    {
        (Self::offset_one(self.column, column_offset), Self::offset_one(self.row, row_offset))
    }

    fn offset_one(v: usize, d: isize) -> (r: usize)
        ensures
            r == spec_offset(v, d as int),
    {
        if d < 0 {
            let m: usize = if d == isize::MIN {
                (isize::MAX as usize) + 1
            } else {
                (-d) as usize
            };
            v.saturating_sub(m)
        } else {
            v.saturating_add(d as usize)
        }
    }

    /// Returns `true` when the shape is a caret.
    pub fn is_caret(&self) -> (r: bool)
        ensures
            r == (self.shape == CursorShape::Caret),
    {
        matches!(self.shape, CursorShape::Caret)
    }

    /// Returns `true` when the shape is a block.
    pub fn is_block(&self) -> (r: bool)
        ensures
            r == (self.shape == CursorShape::Block),
    {
        matches!(self.shape, CursorShape::Block)
    }

    /// Returns `true` when the shape is an underscore.
    pub fn is_under_score(&self) -> (r: bool)
        ensures
            r == (self.shape == CursorShape::UnderScore),
    {
        matches!(self.shape, CursorShape::UnderScore)
    }

    /// Returns `true` in insert mode, that is when the shape is a caret.
    pub fn insert_mode(&self) -> (r: bool)
        ensures
            r == (self.shape == CursorShape::Caret),
    {
        self.shape == CursorShape::Caret
    }

    /// Returns `true` in override mode, that is when the shape is not a caret.
    pub fn override_mode(&self) -> (r: bool)
        ensures
            r == (self.shape != CursorShape::Caret),
    {
        self.shape != CursorShape::Caret
    }

    /// Cycles the shape: caret, block, underscore, caret.
    pub fn toggle(&mut self) -> (r: CursorShape)
        ensures
            r == final(self).shape,
            final(self).shape == match old(self).shape {
                CursorShape::Caret => CursorShape::Block,
                CursorShape::Block => CursorShape::UnderScore,
                CursorShape::UnderScore => CursorShape::Caret,
            },
            final(self).column == old(self).column,
            final(self).row == old(self).row,
    {
        self.shape = match self.shape {
            CursorShape::Caret => CursorShape::Block,
            CursorShape::Block => CursorShape::UnderScore,
            CursorShape::UnderScore => CursorShape::Caret,
        };
        self.shape
    }

    /// Toggles between caret and block; an underscore becomes a block.
    /// Returns the new shape.
    pub fn toggle_caret_block(&mut self) -> (r: CursorShape)
        ensures
            r == final(self).shape,
            *final(self) == (Cursor { shape: spec_toggle_caret_block(old(self).shape), ..*old(self) }),
    {
        match self.shape {
            CursorShape::Caret | CursorShape::UnderScore => self.shape = CursorShape::Block,
            _ => self.shape = CursorShape::Caret,
        }
        self.shape
    }

    /// Toggles between caret and underscore; a block becomes an underscore.
    /// Returns the new shape.
    pub fn toggle_caret_under_score(&mut self) -> (r: CursorShape)
        ensures
            r == final(self).shape,
            *final(self) == (Cursor { shape: spec_toggle_caret_under_score(old(self).shape), ..*old(self) }),
    {
        match self.shape {
            CursorShape::Caret | CursorShape::Block => self.shape = CursorShape::UnderScore,
            _ => self.shape = CursorShape::Caret,
        }
        self.shape
    }
}

} // verus!
