//! Glyphs: a character of the drawing together with its attribute bits.

use vstd::prelude::*;

verus! {

/// `U+0020` Space.
pub const SPACE: char = '\u{0020}';

/// `U+2500` Box drawings light horizontal `─`.
pub const LIGHT_HORIZONTAL: char = '\u{2500}';

/// `U+2502` Box drawings light vertical `│`.
pub const LIGHT_VERTICAL: char = '\u{2502}';

/// `U+250C` Box drawings light down and right `┌`.
pub const LIGHT_DOWN_AND_RIGHT: char = '\u{250C}';

/// `U+2510` Box drawings light down and left `┐`.
pub const LIGHT_DOWN_AND_LEFT: char = '\u{2510}';

/// `U+2514` Box drawings light up and right `└`.
pub const LIGHT_UP_AND_RIGHT: char = '\u{2514}';

/// `U+2518` Box drawings light up and left `┘`.
pub const LIGHT_UP_AND_LEFT: char = '\u{2518}';

/// `U+251C` Box drawings light vertical and right `├`.
pub const LIGHT_VERTICAL_AND_RIGHT: char = '\u{251C}';

/// `U+2524` Box drawings light vertical and left `┤`.
pub const LIGHT_VERTICAL_AND_LEFT: char = '\u{2524}';

/// `U+252C` Box drawings light down and horizontal `┬`.
pub const LIGHT_DOWN_AND_HORIZONTAL: char = '\u{252C}';

/// `U+2534` Box drawings light up and horizontal `┴`.
pub const LIGHT_UP_AND_HORIZONTAL: char = '\u{2534}';

/// `U+253C` Box drawings light vertical and horizontal `┼`.
pub const LIGHT_VERTICAL_AND_HORIZONTAL: char = '\u{253C}';

/// `U+2550` Box drawings double horizontal `═`.
pub const DOUBLE_HORIZONTAL: char = '\u{2550}';

/// `U+2551` Box drawings double vertical `║`.
pub const DOUBLE_VERTICAL: char = '\u{2551}';

/// `U+255E` Box drawings vertical single and right double `╞`.
pub const VERTICAL_SINGLE_AND_RIGHT_DOUBLE: char = '\u{255E}';

/// `U+255F` Box drawings vertical double and right single `╟`.
pub const VERTICAL_DOUBLE_AND_RIGHT_SINGLE: char = '\u{255F}';

/// `U+2561` Box drawings vertical single and left double `╡`.
pub const VERTICAL_SINGLE_AND_LEFT_DOUBLE: char = '\u{2561}';

/// `U+2562` Box drawings vertical double and left single `╢`.
pub const VERTICAL_DOUBLE_AND_LEFT_SINGLE: char = '\u{2562}';

/// `U+2564` Box drawings down single and horizontal double `╤`.
pub const DOWN_SINGLE_AND_HORIZONTAL_DOUBLE: char = '\u{2564}';

/// `U+2565` Box drawings down double and horizontal single `╥`.
pub const DOWN_DOUBLE_AND_HORIZONTAL_SINGLE: char = '\u{2565}';

/// `U+2567` Box drawings up single and horizontal double `╧`.
pub const UP_SINGLE_AND_HORIZONTAL_DOUBLE: char = '\u{2567}';

/// `U+2568` Box drawings up double and horizontal single `╨`.
pub const UP_DOUBLE_AND_HORIZONTAL_SINGLE: char = '\u{2568}';

/// `U+256A` Box drawings vertical single and horizontal double `╪`.
pub const VERTICAL_SINGLE_AND_HORIZONTAL_DOUBLE: char = '\u{256A}';

/// `U+256B` Box drawings vertical double and horizontal single `╫`.
pub const VERTICAL_DOUBLE_AND_HORIZONTAL_SINGLE: char = '\u{256B}';

/// `U+256C` Box drawings double vertical and horizontal `╬`.
pub const DOUBLE_VERTICAL_AND_HORIZONTAL: char = '\u{256C}';

/// No attribute set.
pub const ATTRIBUTE_CLEAR: u8 = 0x0;

/// The glyph lies on the line where the information item cell joins the
/// body of the decision table, and the information item cell is narrower
/// than the body.
pub const ATTRIBUTE_JOIN: u8 = 0x01;

/// The glyph lies on the line where the information item cell joins the
/// body of the decision table, and both have the same width.
pub const ATTRIBUTE_FULL_JOIN: u8 = 0x02;

/// The box-drawing characters that make up a frame.
pub open spec fn spec_is_frame(c: char) -> bool {
    c == LIGHT_HORIZONTAL || c == LIGHT_VERTICAL || c == DOUBLE_HORIZONTAL || c == DOUBLE_VERTICAL
        || spec_is_crossing(c)
}

/// Frame characters that are neither a pure horizontal nor a pure vertical line.
pub open spec fn spec_is_crossing(c: char) -> bool {
    c == LIGHT_DOWN_AND_RIGHT || c == LIGHT_DOWN_AND_LEFT || c == LIGHT_UP_AND_RIGHT
        || c == LIGHT_UP_AND_LEFT || c == LIGHT_VERTICAL_AND_RIGHT || c == LIGHT_VERTICAL_AND_LEFT
        || c == LIGHT_DOWN_AND_HORIZONTAL || c == LIGHT_UP_AND_HORIZONTAL
        || c == LIGHT_VERTICAL_AND_HORIZONTAL || c == VERTICAL_SINGLE_AND_RIGHT_DOUBLE
        || c == VERTICAL_DOUBLE_AND_RIGHT_SINGLE || c == VERTICAL_SINGLE_AND_LEFT_DOUBLE
        || c == VERTICAL_DOUBLE_AND_LEFT_SINGLE || c == DOWN_SINGLE_AND_HORIZONTAL_DOUBLE
        || c == DOWN_DOUBLE_AND_HORIZONTAL_SINGLE || c == UP_SINGLE_AND_HORIZONTAL_DOUBLE
        || c == UP_DOUBLE_AND_HORIZONTAL_SINGLE || c == VERTICAL_SINGLE_AND_HORIZONTAL_DOUBLE
        || c == VERTICAL_DOUBLE_AND_HORIZONTAL_SINGLE || c == DOUBLE_VERTICAL_AND_HORIZONTAL
}

/// `│` or `║`.
pub open spec fn spec_is_vert_line(c: char) -> bool {
    c == LIGHT_VERTICAL || c == DOUBLE_VERTICAL
}

/// `─` or `═`.
pub open spec fn spec_is_horz_line(c: char) -> bool {
    c == LIGHT_HORIZONTAL || c == DOUBLE_HORIZONTAL
}

/// A vertical line or any crossing.
pub open spec fn spec_is_vert_line_or_crossing(c: char) -> bool {
    spec_is_vert_line(c) || spec_is_crossing(c)
}

/// A horizontal line or any crossing.
pub open spec fn spec_is_horz_line_or_crossing(c: char) -> bool {
    spec_is_horz_line(c) || spec_is_crossing(c)
}

/// Crossings that end a single horizontal stroke coming from the left.
pub open spec fn spec_is_single_vert_line_crossing_left(c: char) -> bool {
    c == LIGHT_VERTICAL_AND_HORIZONTAL || c == LIGHT_DOWN_AND_HORIZONTAL
        || c == LIGHT_UP_AND_HORIZONTAL || c == LIGHT_DOWN_AND_LEFT || c == LIGHT_UP_AND_LEFT
        || c == LIGHT_VERTICAL_AND_LEFT || c == DOWN_DOUBLE_AND_HORIZONTAL_SINGLE
        || c == UP_DOUBLE_AND_HORIZONTAL_SINGLE || c == VERTICAL_DOUBLE_AND_HORIZONTAL_SINGLE
        || c == VERTICAL_DOUBLE_AND_LEFT_SINGLE
}

/// Crossings that end a double horizontal stroke coming from the left.
pub open spec fn spec_is_double_vert_line_crossing_left(c: char) -> bool {
    c == VERTICAL_SINGLE_AND_HORIZONTAL_DOUBLE || c == DOUBLE_VERTICAL_AND_HORIZONTAL
        || c == VERTICAL_SINGLE_AND_LEFT_DOUBLE || c == DOWN_SINGLE_AND_HORIZONTAL_DOUBLE
        || c == UP_SINGLE_AND_HORIZONTAL_DOUBLE
}

/// Crossings that end a horizontal stroke coming from the left.
pub open spec fn spec_is_vert_line_crossing_left(c: char) -> bool {
    spec_is_single_vert_line_crossing_left(c) || spec_is_double_vert_line_crossing_left(c)
}

/// A vertical stroke seen from the left of the glyph: `│`, `├`, `║`, `╟`.
pub open spec fn spec_is_vert_line_left(c: char) -> bool {
    c == LIGHT_VERTICAL || c == LIGHT_VERTICAL_AND_RIGHT || c == DOUBLE_VERTICAL
        || c == VERTICAL_DOUBLE_AND_RIGHT_SINGLE
}

/// A vertical stroke seen from the right of the glyph: `│`, `┤`, `║`, `╢`.
pub open spec fn spec_is_vert_line_right(c: char) -> bool {
    c == LIGHT_VERTICAL || c == LIGHT_VERTICAL_AND_LEFT || c == DOUBLE_VERTICAL
        || c == VERTICAL_DOUBLE_AND_LEFT_SINGLE
}

/// The character that fills a new column placed just before `c`.
pub open spec fn spec_horz_fill(c: char) -> char {
    if spec_is_single_vert_line_crossing_left(c) {
        LIGHT_HORIZONTAL
    } else if spec_is_double_vert_line_crossing_left(c) {
        DOUBLE_HORIZONTAL
    } else {
        SPACE
    }
}

/// The join bit of an attribute byte.
pub open spec fn spec_has_join(a: u8) -> bool {
    a & ATTRIBUTE_JOIN == ATTRIBUTE_JOIN
}

/// The full-join bit of an attribute byte.
pub open spec fn spec_has_full_join(a: u8) -> bool {
    a & ATTRIBUTE_FULL_JOIN == ATTRIBUTE_FULL_JOIN
}

/// The glyph `g` marked as lying on a join line.
pub open spec fn spec_with_join(g: Char) -> Char {
    Char { ch: g.ch, attributes: (g.attributes | ATTRIBUTE_JOIN) & !ATTRIBUTE_FULL_JOIN }
}

/// The glyph `g` marked as lying on a full join line.
pub open spec fn spec_with_full_join(g: Char) -> Char {
    Char { ch: g.ch, attributes: (g.attributes | ATTRIBUTE_FULL_JOIN) & !ATTRIBUTE_JOIN }
}

/// A character with its attribute bits.
#[derive(Clone, Copy, Debug)]
pub struct Char {
    /// The Unicode character.
    pub ch: char,
    /// Attribute bits, see [ATTRIBUTE_JOIN] and [ATTRIBUTE_FULL_JOIN].
    pub attributes: u8,
}

impl PartialEq for Char {
    /// Two glyphs are equal when they show the same character.
    fn eq(&self, other: &Char) -> (r: bool)
        ensures
            r == (self.ch == other.ch),
    {
        self.ch == other.ch
    }
}

impl vstd::std_specs::cmp::PartialEqSpecImpl for Char {
    open spec fn obeys_eq_spec() -> bool {
        true
    }

    open spec fn eq_spec(&self, other: &Char) -> bool {
        self.ch == other.ch
    }
}

impl From<char> for Char {
    /// A glyph with no attribute set.
    fn from(ch: char) -> (r: Char)
        ensures
            r.ch == ch,
            r.attributes == ATTRIBUTE_CLEAR,
    {
        Char { ch, attributes: ATTRIBUTE_CLEAR }
    }
}

impl vstd::std_specs::convert::FromSpecImpl<char> for Char {
    open spec fn obeys_from_spec() -> bool {
        true
    }

    open spec fn from_spec(ch: char) -> Char {
        Char { ch, attributes: ATTRIBUTE_CLEAR }
    }
}

impl Char {
    /// Creates a glyph from a character and attribute bits.
    pub fn new(ch: char, attributes: u8) -> (r: Char)
        ensures
            r.ch == ch,
            r.attributes == attributes,
    {
        Char { ch, attributes }
    }

    /// Returns the character.
    pub fn char(&self) -> (r: char)
        ensures
            r == self.ch,
    {
        self.ch
    }

    /// Returns the attribute bits.
    pub fn attributes(&self) -> (r: u8)
        ensures
            r == self.attributes,
    {
        self.attributes
    }

    /// Replaces the character; the attributes stay.
    pub fn set_char(&mut self, ch: char)
        ensures
            final(self).ch == ch,
            final(self).attributes == old(self).attributes,
    {
        self.ch = ch;
    }

    /// The glyph that fills a new column placed just before this one:
    /// `─` before a crossing that ends a single horizontal stroke, `═` before one
    /// that ends a double stroke, a space otherwise. The attributes are kept.
    pub fn horz_fill(&self) -> (r: Char)
        ensures
            r.ch == spec_horz_fill(self.ch),
            r.attributes == self.attributes,
    {
        if self.is_single_vert_line_crossing_left() {
            Char::new(LIGHT_HORIZONTAL, self.attributes)
        } else if self.is_double_vert_line_crossing_left() {
            Char::new(DOUBLE_HORIZONTAL, self.attributes)
        } else {
            Char::new(SPACE, self.attributes)
        }
    }

    /// Returns `true` when the glyph lies on a join line.
    pub fn is_join(&self) -> (r: bool)
        ensures
            r == spec_has_join(self.attributes),
    {
        self.attributes & ATTRIBUTE_JOIN == ATTRIBUTE_JOIN
    }

    /// Marks the glyph as lying on a join line; this clears the full-join bit.
    pub fn set_join(&mut self)
        ensures
            *final(self) == spec_with_join(*old(self)),
            spec_has_join(final(self).attributes),
            !spec_has_full_join(final(self).attributes),
    {
        let b = self.attributes;
        let a = (b | ATTRIBUTE_JOIN) & !ATTRIBUTE_FULL_JOIN;
        assert((a & 1u8 == 1u8) && (a & 2u8 != 2u8)) by (bit_vector)
            requires a == (b | 1u8) & !2u8;
        self.attributes = a;
    }

    /// Clears the join bit; the full-join bit stays.
    pub fn clear_join(&mut self)
        ensures
            final(self).ch == old(self).ch,
            !spec_has_join(final(self).attributes),
            spec_has_full_join(final(self).attributes) == spec_has_full_join(old(self).attributes),
    {
        let b = self.attributes;
        let a = b & !ATTRIBUTE_JOIN;
        assert((a & 1u8 != 1u8) && ((a & 2u8 == 2u8) == (b & 2u8 == 2u8))) by (bit_vector)
            requires a == b & !1u8;
        self.attributes = a;
    }

    /// Returns `true` when the glyph lies on a full join line.
    pub fn is_full_join(&self) -> (r: bool)
        ensures
            r == spec_has_full_join(self.attributes),
    {
        self.attributes & ATTRIBUTE_FULL_JOIN == ATTRIBUTE_FULL_JOIN
    }

    /// Marks the glyph as lying on a full join line; this clears the join bit.
    pub fn set_full_join(&mut self)
        ensures
            *final(self) == spec_with_full_join(*old(self)),
            spec_has_full_join(final(self).attributes),
            !spec_has_join(final(self).attributes),
    {
        let b = self.attributes;
        let a = (b | ATTRIBUTE_FULL_JOIN) & !ATTRIBUTE_JOIN;
        assert((a & 2u8 == 2u8) && (a & 1u8 != 1u8)) by (bit_vector)
            requires a == (b | 2u8) & !1u8;
        self.attributes = a;
    }

    /// Clears the full-join bit; the join bit stays.
    pub fn clear_full_join(&mut self)
        ensures
            final(self).ch == old(self).ch,
            !spec_has_full_join(final(self).attributes),
            spec_has_join(final(self).attributes) == spec_has_join(old(self).attributes),
    {
        let b = self.attributes;
        let a = b & !ATTRIBUTE_FULL_JOIN;
        assert((a & 2u8 != 2u8) && ((a & 1u8 == 1u8) == (b & 1u8 == 1u8))) by (bit_vector)
            requires a == b & !2u8;
        self.attributes = a;
    }

    /// Checks whether the character is a box-drawing character of a frame.
    pub fn is_frame(&self) -> (r: bool)
        ensures
            r == spec_is_frame(self.ch),
    {
        let c = self.ch;
        c == LIGHT_HORIZONTAL || c == LIGHT_VERTICAL || c == DOUBLE_HORIZONTAL || c == DOUBLE_VERTICAL
            || self.is_crossing()
    }

    /// Checks whether the character is a crossing.
    pub fn is_crossing(&self) -> (r: bool)
        ensures
            r == spec_is_crossing(self.ch),
    {
        let c = self.ch;
        c == LIGHT_DOWN_AND_RIGHT || c == LIGHT_DOWN_AND_LEFT || c == LIGHT_UP_AND_RIGHT
            || c == LIGHT_UP_AND_LEFT || c == LIGHT_VERTICAL_AND_RIGHT || c == LIGHT_VERTICAL_AND_LEFT
            || c == LIGHT_DOWN_AND_HORIZONTAL || c == LIGHT_UP_AND_HORIZONTAL
            || c == LIGHT_VERTICAL_AND_HORIZONTAL || c == VERTICAL_SINGLE_AND_RIGHT_DOUBLE
            || c == VERTICAL_DOUBLE_AND_RIGHT_SINGLE || c == VERTICAL_SINGLE_AND_LEFT_DOUBLE
            || c == VERTICAL_DOUBLE_AND_LEFT_SINGLE || c == DOWN_SINGLE_AND_HORIZONTAL_DOUBLE
            || c == DOWN_DOUBLE_AND_HORIZONTAL_SINGLE || c == UP_SINGLE_AND_HORIZONTAL_DOUBLE
            || c == UP_DOUBLE_AND_HORIZONTAL_SINGLE || c == VERTICAL_SINGLE_AND_HORIZONTAL_DOUBLE
            || c == VERTICAL_DOUBLE_AND_HORIZONTAL_SINGLE || c == DOUBLE_VERTICAL_AND_HORIZONTAL
    }

    /// Checks whether the character is a vertical line, single or double.
    pub fn is_vert_line(&self) -> (r: bool)
        ensures
            r == spec_is_vert_line(self.ch),
    {
        self.ch == LIGHT_VERTICAL || self.ch == DOUBLE_VERTICAL
    }

    /// Checks whether the character is a vertical line or any crossing.
    pub fn is_vert_line_or_crossing(&self) -> (r: bool)
        ensures
            r == spec_is_vert_line_or_crossing(self.ch),
    {
        self.is_vert_line() || self.is_crossing()
    }

    /// Checks whether the character is a single vertical line.
    pub fn is_single_vert_line(&self) -> (r: bool)
        ensures
            r == (self.ch == LIGHT_VERTICAL),
    {
        self.ch == LIGHT_VERTICAL
    }

    /// Checks whether the character is a double vertical line.
    pub fn is_double_vert_line(&self) -> (r: bool)
        ensures
            r == (self.ch == DOUBLE_VERTICAL),
    {
        self.ch == DOUBLE_VERTICAL
    }

    /// Checks whether the character is a crossing that ends a single
    /// horizontal stroke coming from the left.
    pub fn is_single_vert_line_crossing_left(&self) -> (r: bool)
        ensures
            r == spec_is_single_vert_line_crossing_left(self.ch),
    {
        let c = self.ch;
        c == LIGHT_VERTICAL_AND_HORIZONTAL || c == LIGHT_DOWN_AND_HORIZONTAL
            || c == LIGHT_UP_AND_HORIZONTAL || c == LIGHT_DOWN_AND_LEFT || c == LIGHT_UP_AND_LEFT
            || c == LIGHT_VERTICAL_AND_LEFT || c == DOWN_DOUBLE_AND_HORIZONTAL_SINGLE
            || c == UP_DOUBLE_AND_HORIZONTAL_SINGLE || c == VERTICAL_DOUBLE_AND_HORIZONTAL_SINGLE
            || c == VERTICAL_DOUBLE_AND_LEFT_SINGLE
    }

    /// Checks whether the character is a crossing that ends a double
    /// horizontal stroke coming from the left.
    pub fn is_double_vert_line_crossing_left(&self) -> (r: bool)
        ensures
            r == spec_is_double_vert_line_crossing_left(self.ch),
    {
        let c = self.ch;
        c == VERTICAL_SINGLE_AND_HORIZONTAL_DOUBLE || c == DOUBLE_VERTICAL_AND_HORIZONTAL
            || c == VERTICAL_SINGLE_AND_LEFT_DOUBLE || c == DOWN_SINGLE_AND_HORIZONTAL_DOUBLE
            || c == UP_SINGLE_AND_HORIZONTAL_DOUBLE
    }

    /// Checks whether the character is a crossing that ends a horizontal
    /// stroke coming from the left.
    pub fn is_vert_line_crossing_left(&self) -> (r: bool)
        ensures
            r == spec_is_vert_line_crossing_left(self.ch),
    {
        self.is_single_vert_line_crossing_left() || self.is_double_vert_line_crossing_left()
    }

    /// Checks whether the character has a vertical stroke seen from its left side.
    pub fn is_vert_line_left(&self) -> (r: bool)
        ensures
            r == spec_is_vert_line_left(self.ch),
    {
        let c = self.ch;
        c == LIGHT_VERTICAL || c == LIGHT_VERTICAL_AND_RIGHT || c == DOUBLE_VERTICAL
            || c == VERTICAL_DOUBLE_AND_RIGHT_SINGLE
    }

    /// Checks whether the character has a vertical stroke seen from its right side.
    pub fn is_vert_line_right(&self) -> (r: bool)
        ensures
            r == spec_is_vert_line_right(self.ch),
    {
        let c = self.ch;
        c == LIGHT_VERTICAL || c == LIGHT_VERTICAL_AND_LEFT || c == DOUBLE_VERTICAL
            || c == VERTICAL_DOUBLE_AND_LEFT_SINGLE
    }

    /// Checks whether the character is a horizontal line, single or double.
    pub fn is_horz_line(&self) -> (r: bool)
        ensures
            r == spec_is_horz_line(self.ch),
    {
        self.ch == LIGHT_HORIZONTAL || self.ch == DOUBLE_HORIZONTAL
    }

    /// Checks whether the character is a horizontal line or any crossing.
    pub fn is_horz_line_or_crossing(&self) -> (r: bool)
        ensures
            r == spec_is_horz_line_or_crossing(self.ch),
    {
        self.is_horz_line() || self.is_crossing()
    }

    /// Checks whether the character is a space.
    pub fn is_space(&self) -> (r: bool)
        ensures
            r == (self.ch == SPACE),
    {
        self.ch == SPACE
    }
}

} // verus!
