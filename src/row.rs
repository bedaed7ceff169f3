//! A single row of glyphs and the edits made inside it.

use vstd::prelude::*;
use crate::characters::{
    spec_has_full_join, spec_has_join, spec_horz_fill, spec_is_frame, spec_is_horz_line,
    spec_is_vert_line_crossing_left, spec_is_vert_line_left, spec_is_vert_line_or_crossing,
    spec_is_vert_line_right, spec_with_join, Char, ATTRIBUTE_CLEAR, SPACE,
};

verus! {

/// `i` is the first index at or after `col` whose character satisfies `p`.
pub open spec fn is_first_from(s: Seq<Char>, col: int, i: int, p: spec_fn(char) -> bool) -> bool {
    &&& col <= i < s.len()
    &&& p(s[i].ch)
    &&& forall|j: int| col <= j < i ==> !p(#[trigger] s[j].ch)
}

/// The first index at or after `col` whose character satisfies `p`, if any.
pub open spec fn first_from(s: Seq<Char>, col: int, p: spec_fn(char) -> bool) -> Option<int> {
    if exists|i: int| is_first_from(s, col, i, p) {
        Some(choose|i: int| is_first_from(s, col, i, p))
    } else {
        None
    }
}

/// `i` is the last index before `col` whose character satisfies `p`.
pub open spec fn is_last_before(s: Seq<Char>, col: int, i: int, p: spec_fn(char) -> bool) -> bool {
    &&& 0 <= i < col
    &&& i < s.len()
    &&& p(s[i].ch)
    &&& forall|j: int| i < j < col && j < s.len() ==> !p(#[trigger] s[j].ch)
}

/// The last index before `col` whose character satisfies `p`, if any.
pub open spec fn last_before(s: Seq<Char>, col: int, p: spec_fn(char) -> bool) -> Option<int> {
    if exists|i: int| is_last_before(s, col, i, p) {
        Some(choose|i: int| is_last_before(s, col, i, p))
    } else {
        None
    }
}

pub proof fn lemma_first_from_unique(s: Seq<Char>, col: int, i: int, p: spec_fn(char) -> bool)
    requires
        is_first_from(s, col, i, p),
    ensures
        first_from(s, col, p) == Some(i),
{
    let k = choose|k: int| is_first_from(s, col, k, p);
    assert(is_first_from(s, col, k, p));
    if k < i {
        assert(!p(s[k].ch));
    } else if k > i {
        assert(!p(s[i].ch));
    }
}

pub proof fn lemma_first_from_none(s: Seq<Char>, col: int, p: spec_fn(char) -> bool)
    requires
        forall|j: int| col <= j < s.len() ==> !p(#[trigger] s[j].ch),
    ensures
        first_from(s, col, p) == None::<int>,
{
    if exists|i: int| is_first_from(s, col, i, p) {
        let k = choose|k: int| is_first_from(s, col, k, p);
        assert(!p(s[k].ch));
    }
}

pub proof fn lemma_last_before_unique(s: Seq<Char>, col: int, i: int, p: spec_fn(char) -> bool)
    requires
        is_last_before(s, col, i, p),
    ensures
        last_before(s, col, p) == Some(i),
{
    let k = choose|k: int| is_last_before(s, col, k, p);
    assert(is_last_before(s, col, k, p));
    if k < i {
        assert(!p(s[i].ch));
    } else if k > i {
        assert(!p(s[k].ch));
    }
}

pub proof fn lemma_last_before_none(s: Seq<Char>, col: int, p: spec_fn(char) -> bool)
    requires
        forall|j: int| 0 <= j < col && j < s.len() ==> !p(#[trigger] s[j].ch),
    ensures
        last_before(s, col, p) == None::<int>,
{
    if exists|i: int| is_last_before(s, col, i, p) {
        let k = choose|k: int| is_last_before(s, col, k, p);
        assert(!p(s[k].ch));
    }
}

/// Left vertical lines: `│`, `├`, `║`, `╟`.
pub open spec fn vll() -> spec_fn(char) -> bool {
    |c: char| spec_is_vert_line_left(c)
}

/// Right vertical lines: `│`, `┤`, `║`, `╢`.
pub open spec fn vlr() -> spec_fn(char) -> bool {
    |c: char| spec_is_vert_line_right(c)
}

/// Frame glyphs.
pub open spec fn frame() -> spec_fn(char) -> bool {
    |c: char| spec_is_frame(c)
}

/// Glyphs that are not part of a frame.
pub open spec fn non_frame() -> spec_fn(char) -> bool {
    |c: char| !spec_is_frame(c)
}

/// Vertical lines and crossings.
pub open spec fn vloc() -> spec_fn(char) -> bool {
    |c: char| spec_is_vert_line_or_crossing(c)
}

/// The index of the nearest left vertical line at or after `col`.
pub open spec fn spec_vert_line_right(s: Seq<Char>, col: int) -> Option<int> {
    first_from(s, col, vll())
}

/// The index of the nearest right vertical line before `col`.
pub open spec fn spec_vert_line_left(s: Seq<Char>, col: int) -> Option<int> {
    last_before(s, col, vlr())
}

/// The writable interior `(left, right)` of the cell around `col`.
pub open spec fn spec_cell_range(s: Seq<Char>, col: int) -> Option<(int, int)> {
    match (spec_vert_line_left(s, col), spec_vert_line_right(s, col)) {
        (Some(l), Some(r)) => Some((l + 1, if r >= 1 { r - 1 } else { 0 })),
        _ => None,
    }
}

/// The glyph that fills a new column before `c`, with the attributes of `c`.
pub open spec fn spec_fill_glyph(c: Char) -> Char {
    Char { ch: spec_horz_fill(c.ch), attributes: c.attributes }
}

/// One glyph inserted before the nearest vertical line or crossing at or
/// after `col`, filled to continue the stroke that reaches it from the left.
pub open spec fn spec_insert_fill(s: Seq<Char>, col: int) -> Seq<Char> {
    match first_from(s, col, vloc()) {
        Some(v) => s.insert(v, spec_fill_glyph(s[v])),
        None => s,
    }
}

/// Crossings ending a horizontal stroke from the left, and left vertical lines.
pub open spec fn line_ends() -> spec_fn(char) -> bool {
    |c: char| spec_is_vert_line_crossing_left(c) || spec_is_vert_line_left(c)
}

/// The column before the nearest crossing or left vertical line at or after
/// `col` is redundant in this row: a crossing that ends a horizontal stroke
/// (with a glyph before it, so that the row never becomes empty), or a left
/// vertical line after a space that is not the cell's only content.
pub open spec fn spec_is_vert_whitespace(s: Seq<Char>, col: int) -> bool {
    match first_from(s, col, line_ends()) {
        Some(v) => (spec_is_vert_line_crossing_left(s[v].ch) && v >= 1)
            || (v >= 2 && s[v - 1].ch == SPACE && !spec_is_frame(s[v - 2].ch)),
        None => false,
    }
}

/// The glyph before the nearest vertical line or crossing at or after `col` removed.
pub open spec fn spec_delete_whitespace(s: Seq<Char>, col: int) -> Seq<Char> {
    match first_from(s, col, vloc()) {
        Some(v) => if v >= 1 { s.remove(v - 1) } else { s },
        None => s,
    }
}

/// `[start, end]` rotated one place to the right, with `ch` written at `start`.
pub open spec fn spec_shift_text_right(s: Seq<Char>, start: int, end: int, ch: char) -> Seq<Char> {
    s.subrange(0, start) + seq![Char { ch, attributes: s[end].attributes }] + s.subrange(start, end)
        + s.subrange(end + 1, s.len() as int)
}

/// A space written at `start`, then `[start, end]` rotated one place to the left.
pub open spec fn spec_shift_text_left(s: Seq<Char>, start: int, end: int) -> Seq<Char> {
    s.subrange(0, start) + s.subrange(start + 1, end + 1) + seq![Char { ch: SPACE, attributes: s[start].attributes }]
        + s.subrange(end + 1, s.len() as int)
}

/// A glyph without attributes showing `c`.
pub open spec fn spec_plain_glyph(c: char) -> Char {
    Char { ch: c, attributes: ATTRIBUTE_CLEAR }
}

/// Glyphs without attributes showing the characters `cs`.
pub open spec fn spec_plain_glyphs(cs: Seq<char>) -> Seq<Char> {
    cs.map_values(|c: char| spec_plain_glyph(c))
}

/// Filling before a vertical line or crossing at `v` inserts at `v`.
pub proof fn lemma_insert_fill_at_line(s: Seq<Char>, v: int)
    requires
        0 <= v < s.len(),
        spec_is_vert_line_left(s[v].ch),
    ensures
        spec_insert_fill(s, v) == s.insert(v, spec_fill_glyph(s[v])),
{
    assert(is_first_from(s, v, v, vloc()));
    lemma_first_from_unique(s, v, v, vloc());
}

/// Filling never shortens a row.
pub proof fn lemma_insert_fill_len(s: Seq<Char>, col: int)
    requires
        0 <= col,
    ensures
        spec_insert_fill(s, col).len() >= s.len(),
{
    if first_from(s, col, vloc()) is Some {
        let v = first_from(s, col, vloc())->0;
        assert(is_first_from(s, col, v, vloc()));
        assert(spec_insert_fill(s, col) == s.insert(v, spec_fill_glyph(s[v])));
        assert(s.insert(v, spec_fill_glyph(s[v])).len() == s.len() + 1);
    }
}

/// Removing the glyph before a line never empties a row.
pub proof fn lemma_delete_whitespace_len(s: Seq<Char>, col: int)
    requires
        0 <= col,
        s.len() > 0,
    ensures
        spec_delete_whitespace(s, col).len() > 0,
{
    if first_from(s, col, vloc()) is Some {
        let v = first_from(s, col, vloc())->0;
        assert(is_first_from(s, col, v, vloc()));
    }
}

/// The characters shown by the glyphs `s`.
pub open spec fn spec_chars(s: Seq<Char>) -> Seq<char> {
    s.map_values(|g: Char| g.ch)
}

/// Relies on std's `String: FromIterator<char>`: the string holds the
/// characters in their order.
#[verifier::external_body]
pub(crate) fn string_from_chars(chars: &Vec<char>) -> (r: String)
    ensures
        r@ == chars@,
{
    chars.iter().collect()
}

/// The nearest left vertical line, when there is one, is the first from `col`.
pub proof fn lemma_vert_line_right_is_first(s: Seq<Char>, col: int)
    ensures
        spec_vert_line_right(s, col) matches Some(v) ==> is_first_from(s, col, v, vll()),
{
    if spec_vert_line_right(s, col) is Some {
        let v = spec_vert_line_right(s, col)->0;
        assert(exists|i: int| is_first_from(s, col, i, vll()));
    }
}

/// Shifting `ch` into a cell that ends in a space and shifting it out again
/// gives back the row; the cell's left vertical line stays the first one
/// after the inserted glyph.
pub proof fn lemma_shift_right_then_left(s: Seq<Char>, col: int, v: int, ch: char)
    requires
        0 <= col,
        is_first_from(s, col, v, vll()),
        col <= v - 1,
        s[v - 1].ch == SPACE,
    ensures
        spec_shift_text_right(s, col, v - 1, ch).len() == s.len(),
        spec_shift_text_right(s, col, v - 1, ch)[col].ch == ch,
        spec_vert_line_right(spec_shift_text_right(s, col, v - 1, ch), col + 1) == Some(v),
        spec_shift_text_left(spec_shift_text_right(s, col, v - 1, ch), col, v - 1) == s,
{
    let t = spec_shift_text_right(s, col, v - 1, ch);
    assert(t.len() == s.len());
    assert forall|k: int| col + 1 <= k < v implies !spec_is_vert_line_left(#[trigger] t[k].ch) by {
        assert(t[k] == s[k - 1]);
    }
    assert(t[v] == s[v]);
    assert(is_first_from(t, col + 1, v, vll()));
    lemma_first_from_unique(t, col + 1, v, vll());
    let back = spec_shift_text_left(t, col, v - 1);
    assert(back =~= s);
}

/// A single row of glyphs.
#[derive(Debug, Clone)]
pub struct Row {
    /// The glyphs, left to right.
    pub glyphs: Vec<Char>,
}

impl View for Row {
    type V = Seq<Char>;

    open spec fn view(&self) -> Seq<Char> {
        self.glyphs@
    }
}

impl PartialEq for Row {
    /// Two rows are equal when they show the same characters.
    fn eq(&self, other: &Row) -> (r: bool)
        ensures
            r == (spec_chars(self@) == spec_chars(other@)),
    {
        if self.glyphs.len() != other.glyphs.len() {
            proof {
                assert(spec_chars(self@).len() != spec_chars(other@).len());
            }
            return false;
        }
        let mut i: usize = 0;
        while i < self.glyphs.len()
            invariant
                self@.len() == other@.len(),
                i <= self@.len(),
                forall|k: int| 0 <= k < i ==> #[trigger] self@[k].ch == other@[k].ch,
            decreases self@.len() - i,
        {
            if self.glyphs[i].ch != other.glyphs[i].ch {
                proof {
                    assert(spec_chars(self@)[i as int] != spec_chars(other@)[i as int]);
                }
                return false;
            }
            i += 1;
        }
        assert(spec_chars(self@) =~= spec_chars(other@));
        true
    }
}

impl vstd::std_specs::cmp::PartialEqSpecImpl for Row {
    open spec fn obeys_eq_spec() -> bool {
        true
    }

    open spec fn eq_spec(&self, other: &Row) -> bool {
        spec_chars(self@) == spec_chars(other@)
    }
}

impl Row {
    /// The characters of the row as a string.
    pub fn text(&self) -> (r: String)
        ensures
            r@ == spec_chars(self@),
    {
        let mut chars: Vec<char> = Vec::with_capacity(self.glyphs.len());
        let mut i: usize = 0;
        while i < self.glyphs.len()
            invariant
                i <= self@.len(),
                chars@ == spec_chars(self@.subrange(0, i as int)),
            decreases self@.len() - i,
        {
            chars.push(self.glyphs[i].ch);
            i += 1;
            assert(chars@ =~= spec_chars(self@.subrange(0, i as int)));
        }
        assert(self@.subrange(0, i as int) =~= self@);
        string_from_chars(&chars)
    }

    /// A row of `width` copies of `ch`, without attributes.
    pub fn new(width: usize, ch: char) -> (r: Row)
        ensures
            r@ == Seq::new(width as nat, |i: int| Char { ch, attributes: ATTRIBUTE_CLEAR }),
    {
        let mut glyphs: Vec<Char> = Vec::with_capacity(width);
        let mut i: usize = 0;
        while i < width
            invariant
                i <= width,
                glyphs@ == Seq::new(i as nat, |k: int| Char { ch, attributes: ATTRIBUTE_CLEAR }),
            decreases width - i,
        {
            glyphs.push(Char::from(ch));
            i += 1;
            assert(glyphs@ =~= Seq::new(i as nat, |k: int| Char { ch, attributes: ATTRIBUTE_CLEAR }));
        }
        Row { glyphs }
    }

    /// A row showing the given characters, without attributes.
    pub fn from_chars(cs: &Vec<char>) -> (r: Row)
        ensures
            r@ == spec_plain_glyphs(cs@),
    {
        let mut glyphs: Vec<Char> = Vec::with_capacity(cs.len());
        let mut i: usize = 0;
        while i < cs.len()
            invariant
                i <= cs@.len(),
                glyphs@.len() == i,
                forall|k: int| 0 <= k < i ==> #[trigger] glyphs@[k] == spec_plain_glyph(cs@[k]),
            decreases cs.len() - i,
        {
            glyphs.push(Char::from(cs[i]));
            i += 1;
        }
        assert(glyphs@ =~= spec_plain_glyphs(cs@));
        Row { glyphs }
    }

    /// The number of glyphs.
    pub fn len(&self) -> (r: usize)
        ensures
            r == self@.len(),
    {
        self.glyphs.len()
    }

    /// Returns `true` when the row holds no glyph.
    pub fn is_empty(&self) -> (r: bool)
        ensures
            r == (self@.len() == 0),
    {
        self.glyphs.len() == 0
    }

    /// The glyph at `index`, if there is one.
    pub fn get(&self, index: usize) -> (r: Option<Char>)
        ensures
            r == if index < self@.len() { Some(self@[index as int]) } else { None::<Char> },
    {
        if index < self.glyphs.len() {
            Some(self.glyphs[index])
        } else {
            None
        }
    }

    /// Replaces the character at `index`; its attributes stay.
    pub fn set_char(&mut self, index: usize, ch: char)
        requires
            index < old(self)@.len(),
        ensures
            final(self)@ == old(self)@.update(index as int, Char { ch, attributes: old(self)@[index as int].attributes }),
    {
        self.glyphs[index].set_char(ch);
    }

    /// Returns `true` when the row is a join line (after its first glyph).
    pub fn is_join(&self) -> (r: bool)
        ensures
            r == (self@.len() > 0 && spec_has_join(self@[0].attributes)),
    {
        self.glyphs.len() > 0 && self.glyphs[0].is_join()
    }

    /// Returns `true` when the row is a full join line (after its first glyph).
    pub fn is_full_join(&self) -> (r: bool)
        ensures
            r == (self@.len() > 0 && spec_has_full_join(self@[0].attributes)),
    {
        self.glyphs.len() > 0 && self.glyphs[0].is_full_join()
    }

    /// Marks every glyph of the row as lying on a join line.
    pub fn set_join(&mut self)
        ensures
            final(self)@ == old(self)@.map_values(|g: Char| spec_with_join(g)),
    {
        let n = self.glyphs.len();
        let mut i: usize = 0;
        while i < n
            invariant
                i <= n,
                n == old(self)@.len(),
                self@.len() == n,
                forall|k: int| i <= k < n ==> #[trigger] self@[k] == old(self)@[k],
                forall|k: int| 0 <= k < i ==> #[trigger] self@[k] == spec_with_join(old(self)@[k]),
            decreases n - i,
        {
            self.glyphs[i].set_join();
            i += 1;
        }
        assert(self@ =~= old(self)@.map_values(|g: Char| spec_with_join(g)));
    }

    /// The index of the nearest left vertical line at or after `col_index`.
    pub fn search_vert_line_right(&self, col_index: usize) -> (r: Option<usize>)
        ensures
            match r {
                Some(i) => is_first_from(self@, col_index as int, i as int, vll()),
                None => forall|j: int| col_index <= j < self@.len() ==> !spec_is_vert_line_left(#[trigger] self@[j].ch),
            },
            r matches Some(i) ==> spec_vert_line_right(self@, col_index as int) == Some(i as int),
            r is None ==> spec_vert_line_right(self@, col_index as int) == None::<int>,
    {
        let mut i = col_index;
        while i < self.glyphs.len()
            invariant
                col_index <= i,
                forall|j: int| col_index <= j < i && j < self@.len() ==> !spec_is_vert_line_left(#[trigger] self@[j].ch),
            decreases self@.len() - i,
        {
            if self.glyphs[i].is_vert_line_left() {
                proof { lemma_first_from_unique(self@, col_index as int, i as int, vll()); }
                return Some(i);
            }
            i += 1;
        }
        proof { lemma_first_from_none(self@, col_index as int, vll()); }
        None
    }

    /// The index of the nearest right vertical line before `col_index`.
    pub fn search_vert_line_left(&self, col_index: usize) -> (r: Option<usize>)
        ensures
            match r {
                Some(i) => is_last_before(self@, col_index as int, i as int, vlr()),
                None => forall|j: int| 0 <= j < col_index && j < self@.len() ==> !spec_is_vert_line_right(#[trigger] self@[j].ch),
            },
            r matches Some(i) ==> spec_vert_line_left(self@, col_index as int) == Some(i as int),
            r is None ==> spec_vert_line_left(self@, col_index as int) == None::<int>,
    {
        let mut i = if col_index < self.glyphs.len() { col_index } else { self.glyphs.len() };
        while i > 0
            invariant
                i <= col_index,
                i <= self@.len(),
                forall|j: int| i <= j < col_index && j < self@.len() ==> !spec_is_vert_line_right(#[trigger] self@[j].ch),
            decreases i,
        {
            i -= 1;
            if self.glyphs[i].is_vert_line_right() {
                proof { lemma_last_before_unique(self@, col_index as int, i as int, vlr()); }
                return Some(i);
            }
        }
        proof { lemma_last_before_none(self@, col_index as int, vlr()); }
        None
    }

    /// The writable interior of the cell around `col_index`: one after the
    /// nearest right vertical line on the left, one before the nearest left
    /// vertical line on the right.
    pub fn cell_range(&self, col_index: usize) -> (r: Option<(usize, usize)>)
        ensures
            match r {
                Some((a, b)) => spec_cell_range(self@, col_index as int) == Some((a as int, b as int)),
                None => spec_cell_range(self@, col_index as int) == None::<(int, int)>,
            },
            r matches Some((a, b)) ==> 0 < a <= col_index && col_index <= b + 1 && b < self@.len(),
    {
        match (self.search_vert_line_left(col_index), self.search_vert_line_right(col_index)) {
            (Some(left_index), Some(right_index)) => Some((left_index + 1, right_index.saturating_sub(1))),
            _ => None,
        }
    }

    /// Returns `true` when every glyph in `[left_index, right_index]` is a space.
    pub fn is_empty_range(&self, left_index: usize, right_index: usize) -> (r: bool)
        requires
            right_index < self@.len(),
        ensures
            r == forall|j: int| left_index <= j <= right_index ==> #[trigger] self@[j].ch == SPACE,
    {
        let n = self.glyphs.len();
        let mut i = left_index;
        while i <= right_index
            invariant
                left_index <= i,
                right_index < self@.len(),
                n == self@.len(),
                forall|j: int| left_index <= j < i && j <= right_index ==> #[trigger] self@[j].ch == SPACE,
            decreases right_index + 1 - i,
        {
            if !self.glyphs[i].is_space() {
                return false;
            }
            i += 1;
        }
        true
    }

    /// Inserts a glyph before the nearest vertical line or crossing at or
    /// after `col_index`, continuing the stroke that reaches it from the left.
    pub fn insert_fill(&mut self, col_index: usize)
        ensures
            final(self)@ == spec_insert_fill(old(self)@, col_index as int),
    {
        let mut i = col_index;
        while i < self.glyphs.len()
            invariant
                col_index <= i,
                self@ == old(self)@,
                forall|j: int| col_index <= j < i && j < self@.len() ==> !spec_is_vert_line_or_crossing(#[trigger] self@[j].ch),
            decreases self@.len() - i,
        {
            if self.glyphs[i].is_vert_line_or_crossing() {
                proof { lemma_first_from_unique(self@, col_index as int, i as int, vloc()); }
                let fill = self.glyphs[i].horz_fill();
                self.glyphs.insert(i, fill);
                return;
            }
            i += 1;
        }
        proof { lemma_first_from_none(self@, col_index as int, vloc()); }
    }

    /// Returns `true` when the glyph before the nearest vertical line or
    /// crossing at or after `col_index` can be removed without breaking the
    /// frame (see [Row::delete_whitespace]).
    pub fn is_vert_whitespace(&self, col_index: usize) -> (r: bool)
        ensures
            r == spec_is_vert_whitespace(self@, col_index as int),
    {
        let mut i = col_index;
        while i < self.glyphs.len()
            invariant
                col_index <= i,
                forall|j: int| col_index <= j < i && j < self@.len() ==> !(#[trigger] line_ends()(self@[j].ch)),
            decreases self@.len() - i,
        {
            let chr = self.glyphs[i];
            if chr.is_vert_line_crossing_left() || chr.is_vert_line_left() {
                proof { lemma_first_from_unique(self@, col_index as int, i as int, line_ends()); }
                if chr.is_vert_line_crossing_left() && i >= 1 {
                    return true;
                }
                return i >= 2 && self.glyphs[i - 1].is_space() && !self.glyphs[i - 2].is_frame();
            }
            i += 1;
        }
        proof { lemma_first_from_none(self@, col_index as int, line_ends()); }
        false
    }

    /// Removes the glyph before the nearest vertical line or crossing at or
    /// after `col_index`.
    pub fn delete_whitespace(&mut self, col_index: usize)
        ensures
            final(self)@ == spec_delete_whitespace(old(self)@, col_index as int),
    {
        let mut i = col_index;
        while i < self.glyphs.len()
            invariant
                col_index <= i,
                self@ == old(self)@,
                forall|j: int| col_index <= j < i && j < self@.len() ==> !spec_is_vert_line_or_crossing(#[trigger] self@[j].ch),
            decreases self@.len() - i,
        {
            if self.glyphs[i].is_vert_line_or_crossing() {
                proof { lemma_first_from_unique(self@, col_index as int, i as int, vloc()); }
                if i >= 1 {
                    self.glyphs.remove(i - 1);
                }
                return;
            }
            i += 1;
        }
        proof { lemma_first_from_none(self@, col_index as int, vloc()); }
    }

    /// The index of the first glyph at or after `col` that is a frame glyph
    /// (`want_frame`) or that is not one.
    pub(crate) fn first_frame_from(&self, col: usize, want_frame: bool) -> (r: Option<usize>)
        ensures
            r matches Some(i) ==> col <= i < self@.len(),
            want_frame ==> match r {
                Some(i) => first_from(self@, col as int, frame()) == Some(i as int),
                None => first_from(self@, col as int, frame()) == None::<int>,
            },
            !want_frame ==> match r {
                Some(i) => first_from(self@, col as int, non_frame()) == Some(i as int),
                None => first_from(self@, col as int, non_frame()) == None::<int>,
            },
    {
        let ghost p = if want_frame { frame() } else { non_frame() };
        let mut i = col;
        while i < self.glyphs.len()
            invariant
                col <= i,
                p == if want_frame { frame() } else { non_frame() },
                forall|j: int| col <= j < i && j < self@.len() ==> !p(#[trigger] self@[j].ch),
            decreases self@.len() - i,
        {
            if self.glyphs[i].is_frame() == want_frame {
                proof { lemma_first_from_unique(self@, col as int, i as int, p); }
                return Some(i);
            }
            i += 1;
        }
        proof { lemma_first_from_none(self@, col as int, p); }
        None
    }

    /// The index of the last glyph before `col` that is a frame glyph
    /// (`want_frame`) or that is not one.
    pub(crate) fn last_frame_before(&self, col: usize, want_frame: bool) -> (r: Option<usize>)
        ensures
            r matches Some(i) ==> i < col && i < self@.len(),
            want_frame ==> match r {
                Some(i) => last_before(self@, col as int, frame()) == Some(i as int),
                None => last_before(self@, col as int, frame()) == None::<int>,
            },
            !want_frame ==> match r {
                Some(i) => last_before(self@, col as int, non_frame()) == Some(i as int),
                None => last_before(self@, col as int, non_frame()) == None::<int>,
            },
    {
        let ghost p = if want_frame { frame() } else { non_frame() };
        let mut i = if col < self.glyphs.len() { col } else { self.glyphs.len() };
        while i > 0
            invariant
                i <= col,
                i <= self@.len(),
                p == if want_frame { frame() } else { non_frame() },
                forall|j: int| i <= j < col && j < self@.len() ==> !p(#[trigger] self@[j].ch),
            decreases i,
        {
            i -= 1;
            if self.glyphs[i].is_frame() == want_frame {
                proof { lemma_last_before_unique(self@, col as int, i as int, p); }
                return Some(i);
            }
        }
        proof { lemma_last_before_none(self@, col as int, p); }
        None
    }

    /// Replaces the glyph at `index`.
    pub fn set_glyph(&mut self, index: usize, glyph: Char)
        requires
            index < old(self)@.len(),
        ensures
            final(self)@ == old(self)@.update(index as int, glyph),
    {
        self.glyphs[index] = glyph;
    }

    /// Rotates `[start_index, end_index]` one place to the right and writes
    /// `ch` at `start_index`.
    pub fn shift_text_right(&mut self, start_index: usize, end_index: usize, ch: char)
        requires
            start_index <= end_index < old(self)@.len(),
        ensures
            final(self)@ == spec_shift_text_right(old(self)@, start_index as int, end_index as int, ch),
    {
        let last = self.glyphs.remove(end_index);
        self.glyphs.insert(start_index, Char::new(ch, last.attributes));
        assert(self@ =~= spec_shift_text_right(old(self)@, start_index as int, end_index as int, ch));
    }

    /// Writes a space at `start_index` and rotates `[start_index, end_index]`
    /// one place to the left.
    pub fn shift_text_left(&mut self, start_index: usize, end_index: usize)
        requires
            start_index <= end_index < old(self)@.len(),
        ensures
            final(self)@ == spec_shift_text_left(old(self)@, start_index as int, end_index as int),
    {
        let first = self.glyphs.remove(start_index);
        self.glyphs.insert(end_index, Char::new(SPACE, first.attributes));
        assert(self@ =~= spec_shift_text_left(old(self)@, start_index as int, end_index as int));
    }
}

} // verus!
