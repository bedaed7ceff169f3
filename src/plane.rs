//! The plane: rows of glyphs, the cursor over them, and the navigation and
//! edit operations that keep the frame of the table intact.

use vstd::prelude::*;
use crate::characters::{
    spec_has_full_join, spec_has_join, spec_is_frame, spec_is_vert_line, spec_with_full_join, spec_with_join, spec_is_horz_line_or_crossing,
    spec_is_vert_line_left, Char, DOWN_DOUBLE_AND_HORIZONTAL_SINGLE, LIGHT_DOWN_AND_HORIZONTAL,
    LIGHT_DOWN_AND_LEFT, LIGHT_DOWN_AND_RIGHT, LIGHT_HORIZONTAL, LIGHT_UP_AND_HORIZONTAL,
    LIGHT_VERTICAL, LIGHT_VERTICAL_AND_HORIZONTAL, LIGHT_VERTICAL_AND_LEFT, SPACE,
    VERTICAL_DOUBLE_AND_HORIZONTAL_SINGLE,
};
use crate::cursor::{spec_offset, spec_toggle_caret_block, spec_toggle_caret_under_score, Cursor, CursorShape};
use crate::region::Region;
use crate::row::{
    first_from, frame, is_first_from, non_frame, is_last_before, last_before, lemma_first_from_none,
    lemma_first_from_unique, lemma_last_before_none, lemma_last_before_unique, spec_delete_whitespace,
    spec_insert_fill, spec_is_vert_whitespace, spec_plain_glyph, spec_plain_glyphs, spec_shift_text_left, spec_shift_text_right,
    spec_vert_line_right, spec_cell_range, Row,
};
use crate::text::{lemma_lines_nonempty, lines, spec_lines};

verus! {

/// The rows of glyphs held by a vector of rows.
pub open spec fn rows_of(v: Seq<Row>) -> Seq<Seq<Char>> {
    v.map_values(|r: Row| r@)
}

/// The length of the longest row.
pub open spec fn spec_max_len(rows: Seq<Seq<Char>>) -> nat
    decreases rows.len(),
{
    if rows.len() == 0 {
        0
    } else {
        let m = spec_max_len(rows.drop_last());
        if rows.last().len() > m { rows.last().len() } else { m }
    }
}

/// A legal cursor position: inside the frame, and for a caret on a
/// non-frame glyph or just left of a left vertical line, for a block or an
/// underscore on a non-frame glyph.
pub open spec fn spec_is_allowed(rows: Seq<Seq<Char>>, shape: CursorShape, col: int, row: int) -> bool {
    &&& 0 < row && row + 1 < rows.len()
    &&& 0 < col && col < rows[row].len()
    &&& if shape == CursorShape::Caret {
        !spec_is_frame(rows[row][col].ch) || spec_is_vert_line_left(rows[row][col].ch)
    } else {
        col + 1 < rows[row].len() && !spec_is_frame(rows[row][col].ch)
    }
}

/// The cursor moved by `(dc, dr)`, each coordinate clamped to `usize`.
pub open spec fn spec_moved(c: Cursor, dc: int, dr: int) -> Cursor {
    Cursor { column: spec_offset(c.column, dc), row: spec_offset(c.row, dr), ..c }
}

/// An arrow move: one step when that is legal, else two steps when that is
/// legal, else none.
pub open spec fn spec_arrow_move(rows: Seq<Seq<Char>>, c: Cursor, dc: int, dr: int) -> Option<Cursor> {
    let one = spec_moved(c, dc, dr);
    let two = spec_moved(c, 2 * dc, 2 * dr);
    if spec_is_allowed(rows, c.shape, one.column as int, one.row as int) {
        Some(one)
    } else if spec_is_allowed(rows, two.shape, two.column as int, two.row as int) {
        Some(two)
    } else {
        None
    }
}

/// The cursor row is strictly inside the frame and its column strictly
/// inside the row, so that the row has glyphs on both sides of it.
pub open spec fn spec_inner(rows: Seq<Seq<Char>>, c: Cursor) -> bool {
    &&& 0 < c.row && c.row + 1 < rows.len()
    &&& 0 < c.column && c.column < rows[c.row as int].len()
}

/// The column of the cell start: one right of the nearest frame glyph on the left.
pub open spec fn spec_cell_start(rows: Seq<Seq<Char>>, c: Cursor) -> Option<int> {
    if spec_inner(rows, c) {
        match last_before(rows[c.row as int], c.column as int, frame()) {
            Some(f) => Some(f + 1),
            None => None,
        }
    } else {
        None
    }
}

/// The column of the cell end: just before the nearest frame glyph at or
/// after the cursor for a caret, on the glyph before that frame glyph otherwise.
pub open spec fn spec_cell_end(rows: Seq<Seq<Char>>, c: Cursor) -> Option<int> {
    if spec_inner(rows, c) {
        match first_from(rows[c.row as int], c.column as int, frame()) {
            Some(f) => Some(if c.shape == CursorShape::Caret { f } else { f - 1 }),
            None => None,
        }
    } else {
        None
    }
}

/// A glyph at `(col, row)` that a vertical move may pass: not a horizontal
/// line or crossing, or a left vertical line.
pub open spec fn spec_passable(rows: Seq<Seq<Char>>, col: int, row: int) -> bool {
    &&& 0 <= row < rows.len()
    &&& 0 <= col < rows[row].len()
    &&& (!spec_is_horz_line_or_crossing(rows[row][col].ch) || spec_is_vert_line_left(rows[row][col].ch))
}

/// A row where a column move may stop: `(col, row)` is a legal position for `shape`.
pub open spec fn spec_col_stop(rows: Seq<Seq<Char>>, shape: CursorShape, col: int, row: int) -> bool {
    0 <= row && spec_is_allowed(rows, shape, col, row)
}

/// Row `k` has `┴`, `┼` or `╫` in column `col`.
pub open spec fn spec_join_candidate(rows: Seq<Seq<Char>>, col: int, k: int) -> bool {
    &&& 0 <= k < rows.len()
    &&& 0 <= col < rows[k].len()
    &&& (rows[k][col].ch == LIGHT_UP_AND_HORIZONTAL || rows[k][col].ch == LIGHT_VERTICAL_AND_HORIZONTAL
        || rows[k][col].ch == VERTICAL_DOUBLE_AND_HORIZONTAL_SINGLE)
}

/// The first row opens an information item cell: it starts with `┌` and ends with `┐`.
pub open spec fn spec_has_header(rows: Seq<Seq<Char>>) -> bool {
    rows.len() > 0 && rows[0].len() > 0 && rows[0][0].ch == LIGHT_DOWN_AND_RIGHT
        && rows[0].last().ch == LIGHT_DOWN_AND_LEFT
}

/// The row where the information item cell joins the body: the first row
/// with `┴`, `┼` or `╫` under the right end of the first row.
pub open spec fn spec_join_index(rows: Seq<Seq<Char>>) -> Option<int> {
    let col = rows[0].len() - 1;
    if spec_has_header(rows) && exists|k: int| spec_join_candidate(rows, col, k) {
        Some(choose|k: int| spec_join_candidate(rows, col, k)
            && forall|j: int| 0 <= j < k ==> !spec_join_candidate(rows, col, j))
    } else {
        None
    }
}

/// The rows that a text reads as, without attributes.
pub open spec fn spec_text_rows(s: Seq<char>) -> Seq<Seq<Char>> {
    spec_lines(s).map_values(|l: Seq<char>| spec_plain_glyphs(l))
}

/// Freshly read rows with their join row, if any, marked as such.
pub open spec fn spec_mark_join(rows: Seq<Seq<Char>>) -> Seq<Seq<Char>> {
    match spec_join_index(rows) {
        Some(j) => rows.update(j, rows[j].map_values(|g: Char| spec_with_join(g))),
        None => rows,
    }
}

/// Finds the join row of freshly read rows, see [spec_join_index].
fn join_index(content: &Vec<Row>) -> (r: Option<usize>)
    ensures
        match r {
            Some(k) => spec_join_index(rows_of(content@)) == Some(k as int),
            None => spec_join_index(rows_of(content@)) == None::<int>,
        },
        r matches Some(k) ==> k < content@.len(),
{
    let ghost rows = rows_of(content@);
    if content.len() == 0 || content[0].glyphs.len() == 0 {
        return None;
    }
    let first = &content[0].glyphs;
    if first[0].ch != LIGHT_DOWN_AND_RIGHT || first[first.len() - 1].ch != LIGHT_DOWN_AND_LEFT {
        return None;
    }
    let col = first.len() - 1;
    let mut k: usize = 0;
    while k < content.len()
        invariant
            rows == rows_of(content@),
            spec_has_header(rows),
            col == rows[0].len() - 1,
            k <= content@.len(),
            forall|j: int| 0 <= j < k ==> !spec_join_candidate(rows, col as int, j),
        decreases content@.len() - k,
    {
        let row = &content[k].glyphs;
        if col < row.len() {
            let ch = row[col].ch;
            if ch == LIGHT_UP_AND_HORIZONTAL || ch == LIGHT_VERTICAL_AND_HORIZONTAL
                || ch == VERTICAL_DOUBLE_AND_HORIZONTAL_SINGLE {
                proof {
                    assert(spec_join_candidate(rows, col as int, k as int));
                    let c = choose|c: int| spec_join_candidate(rows, col as int, c)
                        && forall|j: int| 0 <= j < c ==> !spec_join_candidate(rows, col as int, j);
                    if c < k {
                    } else if c > k {
                        assert(!spec_join_candidate(rows, col as int, k as int));
                    }
                }
                return Some(k);
            }
        }
        k += 1;
    }
    None
}


/// The row is a join line: its first glyph carries the join or full-join bit.
pub open spec fn spec_is_join_row(row: Seq<Char>) -> bool {
    row.len() > 0 && (spec_has_join(row[0].attributes) || spec_has_full_join(row[0].attributes))
}

/// The first join line and whether it is a full join line.
pub open spec fn spec_join_row_info(rows: Seq<Seq<Char>>) -> Option<(int, bool)> {
    if exists|k: int| 0 <= k < rows.len() && spec_is_join_row(rows[k]) {
        let k = choose|k: int| 0 <= k < rows.len() && spec_is_join_row(rows[k])
            && forall|j: int| 0 <= j < k ==> !spec_is_join_row(#[trigger] rows[j]);
        Some((k, spec_has_full_join(rows[k][0].attributes)))
    } else {
        None
    }
}

/// A glyph of the join line after it is adjusted to the glyph above: under
/// a single vertical line a crossing that continues it upwards (`─→┴`,
/// `┬→┼`, `┐→┤`, `╥→╫`), elsewhere one that does not (the reverse mapping).
pub open spec fn spec_join_char(c: char, under_line: bool) -> char {
    if under_line {
        if c == LIGHT_HORIZONTAL {
            LIGHT_UP_AND_HORIZONTAL
        } else if c == LIGHT_DOWN_AND_HORIZONTAL {
            LIGHT_VERTICAL_AND_HORIZONTAL
        } else if c == LIGHT_DOWN_AND_LEFT {
            LIGHT_VERTICAL_AND_LEFT
        } else if c == DOWN_DOUBLE_AND_HORIZONTAL_SINGLE {
            VERTICAL_DOUBLE_AND_HORIZONTAL_SINGLE
        } else {
            c
        }
    } else {
        if c == LIGHT_UP_AND_HORIZONTAL {
            LIGHT_HORIZONTAL
        } else if c == LIGHT_VERTICAL_AND_HORIZONTAL {
            LIGHT_DOWN_AND_HORIZONTAL
        } else if c == LIGHT_VERTICAL_AND_LEFT {
            LIGHT_DOWN_AND_LEFT
        } else if c == VERTICAL_DOUBLE_AND_HORIZONTAL_SINGLE {
            DOWN_DOUBLE_AND_HORIZONTAL_SINGLE
        } else {
            c
        }
    }
}

/// A join line glyph adjusted to the glyph above and marked as lying on a
/// join line (`full == false`) or a full join line.
pub open spec fn spec_joined_glyph(g: Char, under_line: bool, full: bool) -> Char {
    Char {
        ch: spec_join_char(g.ch, under_line),
        attributes: if full { spec_with_full_join(g).attributes } else { spec_with_join(g).attributes },
    }
}

/// The glyph above column `i` of the join line `j` is a single vertical line.
pub open spec fn spec_under_line(rows: Seq<Seq<Char>>, j: int, i: int) -> bool {
    let u = if j >= 1 { j - 1 } else { 0 };
    i < rows[u].len() && rows[u][i].ch == LIGHT_VERTICAL
}

/// The join line `j` marked and adjusted to the row above it; it is a full
/// join line when both rows have the same length.
pub open spec fn spec_update_join(rows: Seq<Seq<Char>>, info: Option<(int, bool)>) -> Seq<Seq<Char>> {
    match info {
        Some((j, _)) => if 0 <= j < rows.len() {
            let u = if j >= 1 { j - 1 } else { 0 };
            let full = rows[j].len() == rows[u].len();
            rows.update(j, Seq::new(rows[j].len(), |i: int| spec_joined_glyph(rows[j][i], spec_under_line(rows, j, i), full)))
        } else {
            rows
        },
        None => rows,
    }
}

/// Every glyph of the join line `j` fits the glyph above it.
pub open spec fn spec_join_coherent(rows: Seq<Seq<Char>>, j: int) -> bool {
    forall|i: int| 0 <= i < rows[j].len() ==> {
        let c = #[trigger] rows[j][i].ch;
        if i < rows[j - 1].len() && rows[j - 1][i].ch == LIGHT_VERTICAL {
            c != LIGHT_HORIZONTAL && c != LIGHT_DOWN_AND_HORIZONTAL && c != LIGHT_DOWN_AND_LEFT
                && c != DOWN_DOUBLE_AND_HORIZONTAL_SINGLE
        } else {
            c != LIGHT_UP_AND_HORIZONTAL && c != LIGHT_VERTICAL_AND_HORIZONTAL && c != LIGHT_VERTICAL_AND_LEFT
                && c != VERTICAL_DOUBLE_AND_HORIZONTAL_SINGLE
        }
    }
}

/// The rows a width change reaches: all of them without a join line; above
/// the join line only the rows above it unless it is a full join line; at or
/// below it the rows from it on.
pub open spec fn spec_fill_range(info: Option<(int, bool)>, r: int, n: int) -> (int, int) {
    match info {
        Some((j, full)) => if r < j {
            if full { (0, n) } else { (0, j) }
        } else {
            (j, n)
        },
        None => (0, n),
    }
}

/// Rows `[lo, hi)` each widened before their vertical line or crossing at or after `v`.
pub open spec fn spec_fill_rows(rows: Seq<Seq<Char>>, lo: int, hi: int, v: int) -> Seq<Seq<Char>> {
    Seq::new(rows.len(), |k: int| if lo <= k < hi { spec_insert_fill(rows[k], v) } else { rows[k] })
}

/// A caret at `col` may type: it stands on a glyph that is not a frame
/// glyph, or just left of a left vertical line.
pub open spec fn spec_caret_may_type(row: Seq<Char>, col: int) -> bool {
    col < row.len() && (!spec_is_frame(row[col].ch) || spec_is_vert_line_left(row[col].ch))
}

/// Row `r` is the join line, which typing must not change.
pub open spec fn spec_on_join_row(rows: Seq<Seq<Char>>, r: int) -> bool {
    spec_join_row_info(rows) matches Some((j, _)) && j == r
}

/// The cell of the cursor at `col` has a spare space just before its right
/// vertical line at `v` that is not the cell's only interior glyph.
pub open spec fn spec_spare_space(row: Seq<Char>, col: int, v: int) -> bool {
    v >= 2 && col <= v - 1 && row[v - 1].ch == SPACE && !spec_is_frame(row[v - 2].ch)
}

/// The rows and the cursor after inserting `ch` at the cursor, or `None`
/// when nothing is inserted: the cursor is on a frame glyph other than a
/// left vertical line, or on the join line, or no left vertical line is at
/// or right of it.
pub open spec fn spec_insert(rows: Seq<Seq<Char>>, cur: Cursor, ch: char) -> Option<(Seq<Seq<Char>>, Cursor)> {
    let r = cur.row as int;
    let col = cur.column as int;
    if r < rows.len() && spec_caret_may_type(rows[r], col) && !spec_on_join_row(rows, r)
        && spec_vert_line_right(rows[r], col) is Some {
        let v = spec_vert_line_right(rows[r], col)->0;
        let s = if v >= 1 { v - 1 } else { 0 };
        let moved = Cursor { column: (col + 1) as usize, ..cur };
        if spec_spare_space(rows[r], col, v) {
            Some((rows.update(r, spec_shift_text_right(rows[r], col, s, ch)), moved))
        } else {
            let info = spec_join_row_info(rows);
            let range = spec_fill_range(info, r, rows.len() as int);
            let filled = spec_fill_rows(rows, range.0, range.1, v);
            Some((spec_update_join(filled.update(r, spec_shift_text_right(filled[r], col, v, ch)), info), moved))
        }
    } else {
        None
    }
}

/// The rows and the cursor after overriding the glyph under the cursor with
/// `ch`, or `None` when that glyph is a frame glyph or the cursor is not left
/// of a left vertical line.
pub open spec fn spec_override(rows: Seq<Seq<Char>>, cur: Cursor, ch: char) -> Option<(Seq<Seq<Char>>, Cursor)> {
    let r = cur.row as int;
    let col = cur.column as int;
    if r < rows.len() && spec_vert_line_right(rows[r], col) is Some && col < spec_vert_line_right(rows[r], col)->0
        && !spec_is_frame(rows[r][col].ch) {
        let v = spec_vert_line_right(rows[r], col)->0;
        Some((
            rows.update(r, rows[r].update(col, Char { ch, attributes: rows[r][col].attributes })),
            if col + 1 < v { Cursor { column: (col + 1) as usize, ..cur } } else { cur },
        ))
    } else {
        None
    }
}


/// No row is empty.
pub open spec fn spec_nonempty(rows: Seq<Seq<Char>>) -> bool {
    forall|i: int| 0 <= i < rows.len() ==> (#[trigger] rows[i]).len() > 0
}

/// Every row in `[lo, hi)` has a removable glyph before its vertical line
/// or crossing at or after `col`.
pub open spec fn spec_all_ws(rows: Seq<Seq<Char>>, lo: int, hi: int, col: int) -> bool {
    forall|k: int| lo <= k < hi ==> spec_is_vert_whitespace(#[trigger] rows[k], col)
}

/// Rows `[lo, hi)` each with the glyph before their vertical line or
/// crossing at or after `col` removed.
pub open spec fn spec_delete_rows(rows: Seq<Seq<Char>>, lo: int, hi: int, col: int) -> Seq<Seq<Char>> {
    Seq::new(rows.len(), |k: int| if lo <= k < hi { spec_delete_whitespace(rows[k], col) } else { rows[k] })
}

/// After a deletion in row `r` at column `col`, with `V` the nearest left
/// vertical line at or after `col` in row `r`: in a region where every row
/// has a redundant glyph before its line or crossing at or after `V`, that
/// glyph goes, and the join line is adjusted. Without a join line the region
/// is all rows; with one, it is the rows on the cursor's side of the join
/// line, and with a full join line also, on its own, the other side.
pub open spec fn spec_remove_vertical_spaces(rows: Seq<Seq<Char>>, col: int, r: int) -> Seq<Seq<Char>> {
    let n = rows.len() as int;
    match spec_vert_line_right(rows[r], col) {
        None => rows,
        Some(v) => match spec_join_row_info(rows) {
            Some((j, full)) => {
                let own = if r < j { (0, j) } else { (j, n) };
                let other = if r < j { (j, n) } else { (0, j) };
                let first = if spec_all_ws(rows, own.0, own.1, v) { spec_delete_rows(rows, own.0, own.1, v) } else { rows };
                let second = if full && spec_all_ws(rows, other.0, other.1, v) {
                    spec_delete_rows(first, other.0, other.1, v)
                } else {
                    first
                };
                spec_update_join(second, Some((j, full)))
            },
            None => if spec_all_ws(rows, 0, n, v) { spec_delete_rows(rows, 0, n, v) } else { rows },
        },
    }
}

/// The rows and the cursor after deleting the glyph under the cursor, or
/// `None` when it is a frame glyph or has no left vertical line after it.
/// A block or underscore left on a frame glyph steps one column left.
pub open spec fn spec_delete_under(rows: Seq<Seq<Char>>, cur: Cursor) -> Option<(Seq<Seq<Char>>, Cursor)> {
    let r = cur.row as int;
    let col = cur.column as int;
    if r < rows.len() && col < rows[r].len() && !spec_is_frame(rows[r][col].ch)
        && spec_vert_line_right(rows[r], col) is Some {
        let v = spec_vert_line_right(rows[r], col)->0;
        let shifted = rows.update(r, spec_shift_text_left(rows[r], col, v - 1));
        let result = spec_remove_vertical_spaces(shifted, col, r);
        let on_frame = spec_glyph_at(result, col, r) matches Some(g) && spec_is_frame(g.ch);
        Some((result, if cur.shape != CursorShape::Caret && on_frame {
            Cursor { column: if col >= 1 { (col - 1) as usize } else { 0 }, ..cur }
        } else {
            cur
        }))
    } else {
        None
    }
}

/// The glyph before the cursor exists and is not a frame glyph.
pub open spec fn spec_text_before(rows: Seq<Seq<Char>>, cur: Cursor) -> bool {
    let r = cur.row as int;
    let d = if cur.column >= 1 { cur.column - 1 } else { 0 };
    r < rows.len() && d < rows[r].len() && !spec_is_frame(rows[r][d].ch)
}

/// The glyph before the cursor exists and is a frame glyph: the cursor is at
/// the start of its cell.
pub open spec fn spec_frame_before(rows: Seq<Seq<Char>>, cur: Cursor) -> bool {
    let r = cur.row as int;
    let d = if cur.column >= 1 { cur.column - 1 } else { 0 };
    r < rows.len() && d < rows[r].len() && spec_is_frame(rows[r][d].ch)
}

/// The rows and the cursor after deleting the glyph before the cursor
/// inside its cell, or `None` when nothing is deleted.
pub open spec fn spec_delete_before(rows: Seq<Seq<Char>>, cur: Cursor) -> Option<(Seq<Seq<Char>>, Cursor)> {
    let r = cur.row as int;
    let col = cur.column as int;
    let d = if col >= 1 { col - 1 } else { 0 };
    if spec_text_before(rows, cur) && spec_vert_line_right(rows[r], col) is Some {
        let v = spec_vert_line_right(rows[r], col)->0;
        let e = if v >= 1 { v - 1 } else { 0 };
        let shifted = rows.update(r, spec_shift_text_left(rows[r], d, e));
        Some((spec_remove_vertical_spaces(shifted, col, r), Cursor { column: d as usize, ..cur }))
    } else {
        None
    }
}


/// Row `k` has a horizontal line or crossing in column `col`.
pub open spec fn spec_horz_at(rows: Seq<Seq<Char>>, col: int, k: int) -> bool {
    0 <= k < rows.len() && 0 <= col < rows[k].len() && spec_is_horz_line_or_crossing(rows[k][col].ch)
}

/// The first row at or below `row` with a horizontal line or crossing in column `col`.
pub open spec fn spec_horz_down(rows: Seq<Seq<Char>>, col: int, row: int) -> Option<int> {
    if exists|k: int| row <= k && spec_horz_at(rows, col, k) {
        Some(choose|k: int| row <= k && spec_horz_at(rows, col, k)
            && forall|j: int| row <= j < k ==> !spec_horz_at(rows, col, j))
    } else {
        None
    }
}

/// The length of the text in `[l, r]` of `s`: up to its last non-space glyph.
pub open spec fn spec_text_len(s: Seq<Char>, l: int, r: int) -> int {
    if exists|k: int| l <= k <= r && s[k].ch != SPACE {
        (choose|k: int| l <= k <= r && s[k].ch != SPACE && forall|j: int| k < j <= r ==> s[j].ch == SPACE) - l + 1
    } else {
        0
    }
}

/// Backspace at the start of a cell joins the line with the one above: the
/// glyph above the cursor is not a frame glyph, the cursor is inside a cell
/// that the row above spans too, and both lines of text fit in the cell.
pub open spec fn spec_can_unsplit(rows: Seq<Seq<Char>>, cur: Cursor) -> bool {
    let r = cur.row as int;
    let col = cur.column as int;
    &&& 1 <= r < rows.len()
    &&& col < rows[r - 1].len()
    &&& !spec_is_frame(rows[r - 1][col].ch)
    &&& spec_cell_range(rows[r], col) matches Some((left, right)) && {
        &&& right < rows[r - 1].len()
        &&& right - left + 1 >= spec_text_len(rows[r - 1], left, right) + spec_text_len(rows[r], left, right)
    }
}

/// Glyph `p` of the line `above` after the text of `below` in `[left, left + tb)`
/// is appended to its own text of length `ta`.
pub open spec fn spec_appended_glyph(above: Seq<Char>, below: Seq<Char>, left: int, ta: int, tb: int, p: int) -> Char {
    if left + ta <= p < left + ta + tb {
        Char { ch: below[p - ta].ch, attributes: above[p].attributes }
    } else {
        above[p]
    }
}


/// The cursor row lies above a horizontal line or crossing in its column,
/// has a cell around the cursor, and the last line of that cell spans it;
/// when a row has to open, every column of the cursor row has a horizontal
/// line or crossing below.
pub open spec fn spec_can_split(rows: Seq<Seq<Char>>, cur: Cursor) -> bool {
    let r = cur.row as int;
    let col = cur.column as int;
    &&& r < rows.len()
    &&& spec_horz_down(rows, col, r) matches Some(h) && h > r
    &&& spec_cell_range(rows[r], col) matches Some((left, right)) && right < rows[spec_horz_down(rows, col, r)->0 - 1].len()
    &&& spec_split_grows(rows, cur) ==> forall|k: int| 0 <= k < rows[r].len() ==>
        (#[trigger] spec_horz_down(rows, k, spec_horz_down(rows, col, r)->0)) is Some
}

/// Splitting needs a new row: the last line of the cell is the cursor line,
/// or it holds text.
pub open spec fn spec_split_grows(rows: Seq<Seq<Char>>, cur: Cursor) -> bool {
    let r = cur.row as int;
    let h = spec_horz_down(rows, cur.column as int, r)->0;
    let (left, right) = spec_cell_range(rows[r], cur.column as int)->0;
    r == h - 1 || exists|i: int| left <= i <= right && #[trigger] rows[h - 1][i].ch != SPACE
}

/// `ch` written at `(col, row)` when that glyph exists; its attributes stay.
pub open spec fn spec_put(rows: Seq<Seq<Char>>, row: int, col: int, ch: char) -> Seq<Seq<Char>> {
    if 0 <= row < rows.len() && 0 <= col < rows[row].len() {
        rows.update(row, rows[row].update(col, Char { ch, attributes: rows[row][col].attributes }))
    } else {
        rows
    }
}

/// The character at `(col, from)` copied to `(col, to)` when both glyphs exist.
pub open spec fn spec_copy(rows: Seq<Seq<Char>>, from: int, to: int, col: int) -> Seq<Seq<Char>> {
    if 0 <= from < rows.len() && 0 <= col < rows[from].len() {
        spec_put(rows, to, col, rows[from][col].ch)
    } else {
        rows
    }
}

/// Every column `[0, w)` has a horizontal line or crossing at or below row `h`.
pub open spec fn spec_closed_below(rows: Seq<Seq<Char>>, h: int, w: int) -> bool {
    forall|k: int| 0 <= k < w ==> (#[trigger] spec_horz_down(rows, k, h)) is Some
}

/// Above row `t` in column `k` there is a space, a vertical line, or no glyph.
pub open spec fn spec_free_above(rows: Seq<Seq<Char>>, t: int, k: int) -> bool {
    t > 0 && (k >= rows[t - 1].len() || rows[t - 1][k].ch == SPACE || spec_is_vert_line(rows[t - 1][k].ch))
}

/// For each column `[0, w)`, the nearest horizontal line or crossing at or below row `h`.
pub open spec fn spec_tops(rows: Seq<Seq<Char>>, h: int, w: int) -> Seq<int> {
    Seq::new(w as nat, |k: int| spec_horz_down(rows, k, h)->0)
}

/// The strip just above the horizontal lines below the cursor is redundant:
/// every column of the cursor row has such a line, and above it a space or
/// a vertical line.
pub open spec fn spec_strip_redundant(rows: Seq<Seq<Char>>, cur: Cursor) -> bool {
    let r = cur.row as int;
    let h = spec_horz_down(rows, cur.column as int, r)->0;
    let w = rows[r].len() as int;
    &&& spec_horz_down(rows, cur.column as int, r) is Some
    &&& spec_closed_below(rows, h, w)
    &&& forall|k: int| 0 <= k < w ==> #[trigger] spec_free_above(rows, spec_tops(rows, h, w)[k], k)
}

/// The index of the first join line, zero without one.
pub open spec fn spec_join_row(rows: Seq<Seq<Char>>) -> int {
    match spec_join_row_info(rows) {
        Some((j, _)) => j,
        None => 0,
    }
}

/// The redundant strip lies just above the join line in every column.
pub open spec fn spec_strip_at_join(rows: Seq<Seq<Char>>, cur: Cursor) -> bool {
    let r = cur.row as int;
    let h = spec_horz_down(rows, cur.column as int, r)->0;
    let w = rows[r].len() as int;
    &&& w > 0
    &&& spec_join_row_info(rows) is Some
    &&& spec_join_row(rows) >= 1
    &&& forall|k: int| 0 <= k < w ==> #[trigger] spec_tops(rows, h, w)[k] == spec_join_row(rows)
}

/// Glyph `(i, k)` after each column `k < tops.len()` moves up one row from
/// just above row `tops[k]`.
pub open spec fn spec_shifted_glyph(rows: Seq<Seq<Char>>, tops: Seq<int>, i: int, k: int) -> Char {
    if k < tops.len() && tops[k] - 1 <= i && i + 1 < rows.len() && k < rows[i + 1].len() {
        Char { ch: rows[i + 1][k].ch, attributes: rows[i][k].attributes }
    } else {
        rows[i][k]
    }
}

/// Row `i` after the columns move up, see [spec_shifted_glyph].
pub open spec fn spec_shifted_row(rows: Seq<Seq<Char>>, tops: Seq<int>, i: int) -> Seq<Char> {
    Seq::new(rows[i].len(), |k: int| spec_shifted_glyph(rows, tops, i, k))
}

/// The rows after the redundant strip below the cursor is removed.
pub open spec fn spec_remove_strip(rows: Seq<Seq<Char>>, cur: Cursor) -> Seq<Seq<Char>> {
    let r = cur.row as int;
    let h = spec_horz_down(rows, cur.column as int, r)->0;
    let tops = spec_tops(rows, h, rows[r].len() as int);
    if spec_strip_at_join(rows, cur) {
        rows.remove(spec_join_row(rows) - 1)
    } else {
        Seq::new(rows.len(), |i: int| spec_shifted_row(rows, tops, i)).drop_last()
    }
}

/// The rows after the text of row `r` in `[left, left + tb)` is appended to
/// the text of row `r - 1` (of length `ta`) and cleared from row `r`.
pub open spec fn spec_joined_rows(rows: Seq<Seq<Char>>, r: int, left: int, ta: int, tb: int) -> Seq<Seq<Char>> {
    rows.update(r - 1, Seq::new(rows[r - 1].len(), |p: int| spec_appended_glyph(rows[r - 1], rows[r], left, ta, tb, p)))
        .update(r, Seq::new(rows[r].len(), |p: int| spec_cleared_glyph(rows[r], left, tb, p)))
}

/// Glyph `p` of `row` with `[left, left + tb)` cleared to spaces.
pub open spec fn spec_cleared_glyph(row: Seq<Char>, left: int, tb: int, p: int) -> Char {
    if left <= p < left + tb {
        Char { ch: SPACE, attributes: row[p].attributes }
    } else {
        row[p]
    }
}

/// Glyph `(i, k)` after columns `[lo, hi)` move up one row within rows
/// `[r, last]`, the last of them becoming a space.
pub open spec fn spec_lifted_glyph(rows: Seq<Seq<Char>>, lo: int, hi: int, r: int, last: int, i: int, k: int) -> Char {
    if lo <= k < hi && r <= i < last && k < rows[i + 1].len() {
        Char { ch: rows[i + 1][k].ch, attributes: rows[i][k].attributes }
    } else if lo <= k < hi && i == last {
        Char { ch: SPACE, attributes: rows[i][k].attributes }
    } else {
        rows[i][k]
    }
}

/// The rows after columns `[lo, hi)` move up, see [spec_lifted_glyph].
pub open spec fn spec_lifted_rows(rows: Seq<Seq<Char>>, lo: int, hi: int, r: int, last: int) -> Seq<Seq<Char>> {
    Seq::new(rows.len(), |i: int| Seq::new(rows[i].len(), |k: int| spec_lifted_glyph(rows, lo, hi, r, last, i, k)))
}

/// The rows after the line of the cursor is joined with the one above
/// (see [Plane::unsplit_line]), before a redundant strip is removed: when a
/// horizontal line or crossing closes the cell below the cursor, the rest of
/// the cell moves up one row.
pub open spec fn spec_unsplit_rows(rows: Seq<Seq<Char>>, cur: Cursor) -> Seq<Seq<Char>> {
    let r = cur.row as int;
    let c = cur.column as int;
    let (left, right) = spec_cell_range(rows[r], c)->0;
    let ta = spec_text_len(rows[r - 1], left, right);
    let tb = spec_text_len(rows[r], left, right);
    let joined = spec_joined_rows(rows, r, left, ta, tb);
    match spec_horz_down(rows, c, r) {
        Some(h) => if h > r { spec_lifted_rows(joined, left, right + 1, r, h - 1) } else { joined },
        None => joined,
    }
}

/// The rows after Backspace at the start of a cell joins the line with the
/// one above and a strip made redundant is removed.
pub open spec fn spec_unsplit_result(rows: Seq<Seq<Char>>, cur: Cursor) -> Seq<Seq<Char>> {
    if spec_strip_redundant(spec_unsplit_rows(rows, cur), cur) {
        spec_remove_strip(spec_unsplit_rows(rows, cur), cur)
    } else {
        spec_unsplit_rows(rows, cur)
    }
}

/// The cursor after Backspace at the start of a cell joins the line with
/// the one above: at the joint.
pub open spec fn spec_unsplit_cursor(rows: Seq<Seq<Char>>, cur: Cursor) -> Cursor {
    let (left, right) = spec_cell_range(rows[cur.row as int], cur.column as int)->0;
    Cursor {
        column: (left + spec_text_len(rows[cur.row - 1], left, right)) as usize,
        row: (cur.row - 1) as usize,
        ..cur
    }
}

/// The character that opens column `k` under row `j`: a frame glyph above
/// continues, anything else gives a space.
pub open spec fn spec_opening_char(rows: Seq<Seq<Char>>, j: int, k: int) -> char {
    if k < rows[j].len() && spec_is_frame(rows[j][k].ch) { rows[j][k].ch } else { SPACE }
}

/// Glyph `(i, k)` after each column `k < tops.len()` moves down one row from
/// row `tops[k]` to row `b` and opens at `tops[k]`.
pub open spec fn spec_opened_glyph(rows: Seq<Seq<Char>>, tops: Seq<int>, b: int, i: int, k: int) -> Char {
    if k < tops.len() && tops[k] < i <= b && k < rows[i - 1].len() {
        Char { ch: rows[i - 1][k].ch, attributes: rows[i][k].attributes }
    } else if k < tops.len() && i == tops[k] {
        Char { ch: spec_opening_char(rows, i - 1, k), attributes: rows[i][k].attributes }
    } else {
        rows[i][k]
    }
}

/// The rows after the columns open, see [spec_opened_glyph].
pub open spec fn spec_opened_rows(rows: Seq<Seq<Char>>, tops: Seq<int>, b: int) -> Seq<Seq<Char>> {
    Seq::new(rows.len(), |i: int| Seq::new(rows[i].len(), |k: int| spec_opened_glyph(rows, tops, b, i, k)))
}

/// A row of `w` spaces without attributes.
pub open spec fn spec_blank_row(w: int) -> Seq<Char> {
    Seq::new(w as nat, |k: int| spec_plain_glyph(SPACE))
}

/// The largest of `init` and the entries of `s`.
pub open spec fn spec_seq_max(s: Seq<int>, init: int) -> int
    decreases s.len(),
{
    if s.len() == 0 {
        init
    } else {
        let m = spec_seq_max(s.drop_last(), init);
        if s.last() > m { s.last() } else { m }
    }
}

/// Glyph `(i, k)` after columns `[lo, hi)` move down one row within rows
/// `(r + 1, last]`.
pub open spec fn spec_lowered_glyph(rows: Seq<Seq<Char>>, lo: int, hi: int, r: int, last: int, i: int, k: int) -> Char {
    if lo <= k < hi && r + 1 < i <= last && k < rows[i - 1].len() {
        Char { ch: rows[i - 1][k].ch, attributes: rows[i][k].attributes }
    } else {
        rows[i][k]
    }
}

/// The rows after columns `[lo, hi)` move down, see [spec_lowered_glyph].
pub open spec fn spec_lowered_rows(rows: Seq<Seq<Char>>, lo: int, hi: int, r: int, last: int) -> Seq<Seq<Char>> {
    Seq::new(rows.len(), |i: int| Seq::new(rows[i].len(), |k: int| spec_lowered_glyph(rows, lo, hi, r, last, i, k)))
}

/// Glyph `p` of row `r` after its text from column `c` to `right` moved out.
pub open spec fn spec_cut_glyph(row: Seq<Char>, c: int, right: int, p: int) -> Char {
    if c <= p <= right {
        Char { ch: SPACE, attributes: row[p].attributes }
    } else {
        row[p]
    }
}

/// Glyph `p` of the row below after the text of `row` from column `c` to
/// `right` moved to the start `left` of the cell.
pub open spec fn spec_pasted_glyph(row: Seq<Char>, below: Seq<Char>, c: int, left: int, right: int, p: int) -> Char {
    if left <= p <= right {
        Char { ch: if p - left <= right - c { row[c + p - left].ch } else { SPACE }, attributes: below[p].attributes }
    } else {
        below[p]
    }
}

/// The rows after the text of row `r` from column `c` to `right` moves to
/// the start `left` of the cell in row `r + 1`.
pub open spec fn spec_moved_text(rows: Seq<Seq<Char>>, r: int, c: int, left: int, right: int) -> Seq<Seq<Char>> {
    rows.update(r, Seq::new(rows[r].len(), |p: int| spec_cut_glyph(rows[r], c, right, p)))
        .update(r + 1, Seq::new(rows[r + 1].len(), |p: int| spec_pasted_glyph(rows[r], rows[r + 1], c, left, right, p)))
}

/// The rows after the line splits at the cursor (see [Plane::split_line]).
#[verifier::opaque]
pub open spec fn spec_split_rows(rows: Seq<Seq<Char>>, cur: Cursor) -> Seq<Seq<Char>> {
    let r = cur.row as int;
    let c = cur.column as int;
    let h = spec_horz_down(rows, c, r)->0;
    let (left, right) = spec_cell_range(rows[r], c)->0;
    let w = rows[r].len() as int;
    let tops = spec_tops(rows, h, w);
    let b = spec_seq_max(tops, h);
    let grows = spec_split_grows(rows, cur);
    let grown = if grows { spec_opened_rows(rows.insert(b, spec_blank_row(w)), tops, b) } else { rows };
    let last = if grows { h } else { h - 1 };
    spec_moved_text(spec_lowered_rows(grown, left, right + 1, r, last), r, c, left, right)
}

/// Edited text with a cursor.
pub struct Plane {
    /// The rows of glyphs.
    pub(crate) rows: Vec<Row>,
    /// Cursor position and shape.
    pub(crate) cursor: Cursor,
    /// The content region, computed when asked for and forgotten on edits.
    pub(crate) size: Option<Region>,
}

impl Plane {
    /// The rows of glyphs.
    pub open(crate) spec fn spec_rows(&self) -> Seq<Seq<Char>> {
        rows_of(self.rows@)
    }

    /// The cursor.
    pub open(crate) spec fn spec_cursor(&self) -> Cursor {
        self.cursor
    }

    /// The remembered content region.
    pub open(crate) spec fn spec_size(&self) -> Option<Region> {
        self.size
    }

    /// The rows as values of [Row].
    pub open(crate) spec fn spec_row_vec(&self) -> Seq<Row> {
        self.rows@
    }

    /// The content region: the longest row's length by the number of rows.
    pub open(crate) spec fn spec_region(&self) -> Region {
        Region { left: 0, top: 0, width: spec_max_len(self.spec_rows()) as usize, height: self.rows@.len() as usize }
    }

    /// No row is empty, and a remembered content region is up to date.
    pub open(crate) spec fn wf(&self) -> bool {
        &&& spec_nonempty(self.spec_rows())
        &&& (self.size matches Some(r) ==> r == self.spec_region())
    }

    /// The rows of a plane created from `text`.
    pub open spec fn new_rows(text: Seq<char>) -> Seq<Seq<Char>> {
        spec_mark_join(spec_text_rows(text))
    }

    /// The content region is not remembered.
    pub open(crate) spec fn spec_invalidated(&self) -> bool {
        self.size is None
    }

    fn rows_from_text(text: &str) -> (r: Vec<Row>)
        ensures
            rows_of(r@) == spec_text_rows(text@),
    {
        let parsed = lines(text);
        let ghost ls = spec_lines(text@);
        let mut rows: Vec<Row> = Vec::with_capacity(parsed.len());
        let mut i: usize = 0;
        while i < parsed.len()
            invariant
                i <= parsed@.len(),
                parsed@.map_values(|l: Vec<char>| l@) == ls,
                rows@.len() == i,
                forall|k: int| 0 <= k < i ==> (#[trigger] rows@[k])@ == spec_plain_glyphs(ls[k]),
            decreases parsed@.len() - i,
        {
            assert(parsed@.map_values(|l: Vec<char>| l@)[i as int] == parsed@[i as int]@);
            rows.push(Row::from_chars(&parsed[i]));
            i += 1;
        }
        proof {
            assert forall|k: int| 0 <= k < rows@.len() implies #[trigger] rows_of(rows@)[k] == spec_text_rows(text@)[k] by {
            }
            assert(rows_of(rows@) =~= spec_text_rows(text@));
        }
        rows
    }

    /// Creates a plane from text: blank lines are dropped, the other lines
    /// are trimmed of trailing white space and become rows. The cursor is a
    /// caret at `(1, 1)`. When the first row opens an information item cell
    /// (`┌` … `┐`), the first row with `┴`, `┼` or `╫` under its right end
    /// is marked as the join line.
    pub fn new(text: &str) -> (r: Plane)
        ensures
            r.wf(),
            r.spec_invalidated(),
            r.spec_cursor() == (Cursor { shape: CursorShape::Caret, column: 1, row: 1 }),
            r.spec_rows() == spec_mark_join(spec_text_rows(text@)),
    {
        let mut rows = Self::rows_from_text(text);
        let ghost plain = rows_of(rows@);
        if let Some(index) = join_index(&rows) {
            rows[index].set_join();
            assert(rows_of(rows@) =~= plain.update(index as int, plain[index as int].map_values(|g: Char| spec_with_join(g))));
        } else {
            assert(rows_of(rows@) =~= spec_mark_join(spec_text_rows(text@)));
        }
        let plane = Plane { rows, cursor: Cursor::new(CursorShape::Caret, 1, 1), size: None };
        proof {
            lemma_lines_nonempty(text@);
            assert forall|k: int| 0 <= k < plane.rows@.len() implies (#[trigger] plane.rows@[k])@.len() > 0 by {
                assert(rows_of(plane.rows@)[k] == plane.rows@[k]@);
                assert(plain[k].len() == spec_lines(text@)[k].len());
                assert(spec_lines(text@)[k].len() > 0);
            }
        }
        plane
    }
}


/// The glyph at `(col, row)`, if there is one.
pub open spec fn spec_glyph_at(rows: Seq<Seq<Char>>, col: int, row: int) -> Option<Char> {
    if 0 <= row < rows.len() && 0 <= col < rows[row].len() {
        Some(rows[row][col])
    } else {
        None
    }
}

/// The cursor after a shape change: a block or an underscore that would
/// cover a frame glyph steps one column left.
pub open spec fn spec_after_toggle(rows: Seq<Seq<Char>>, c: Cursor) -> Cursor {
    if c.shape != CursorShape::Caret && (spec_glyph_at(rows, c.column as int, c.row as int) matches Some(g)
        && spec_is_frame(g.ch)) {
        Cursor { column: if c.column >= 1 { (c.column - 1) as usize } else { 0 }, ..c }
    } else {
        c
    }
}

/// The top-most row at which a column move may stop in column `col`.
pub open spec fn spec_col_start_row(rows: Seq<Seq<Char>>, shape: CursorShape, col: int) -> Option<int> {
    if exists|k: int| spec_col_stop(rows, shape, col, k) {
        Some(choose|k: int| spec_col_stop(rows, shape, col, k)
            && forall|j: int| 0 <= j < k ==> !spec_col_stop(rows, shape, col, j))
    } else {
        None
    }
}

/// The bottom-most row at which a column move may stop in column `col`.
pub open spec fn spec_col_end_row(rows: Seq<Seq<Char>>, shape: CursorShape, col: int) -> Option<int> {
    if exists|k: int| spec_col_stop(rows, shape, col, k) {
        Some(choose|k: int| spec_col_stop(rows, shape, col, k)
            && forall|j: int| k < j < rows.len() ==> !spec_col_stop(rows, shape, col, j))
    } else {
        None
    }
}

impl Plane {
    /// The rows and the remembered content region are those of `o`.
    pub open(crate) spec fn same_text(&self, o: &Plane) -> bool {
        self.rows@ == o.rows@ && self.size == o.size
    }

    /// The outcome of an arrow move by `(dc, dr)` from `o` to `f`, reported by `r`.
    pub open(crate) spec fn spec_arrow_outcome(o: &Plane, f: &Plane, r: bool, dc: int, dr: int) -> bool {
        match spec_arrow_move(o.spec_rows(), o.cursor, dc, dr) {
            Some(c) => r && f.cursor == c,
            None => !r && f.cursor == o.cursor,
        }
    }

    /// Returns the rows.
    pub fn content(&self) -> (r: &[Row])
        ensures
            r@ == self.spec_row_vec(),
    {
        self.rows.as_slice()
    }

    /// Returns the content region `(0, 0, longest row, number of rows)`,
    /// computing it when it is not remembered.
    pub fn region(&mut self) -> (r: Region)
        requires
            old(self).wf(),
        ensures
            final(self).wf(),
            r == old(self).spec_region(),
            final(self).spec_row_vec() == old(self).spec_row_vec(),
            final(self).spec_cursor() == old(self).spec_cursor(),
            final(self).spec_size() == Some(r),
    {
        match self.size {
            Some(region) => region,
            None => {
                let mut width: usize = 0;
                let mut i: usize = 0;
                while i < self.rows.len()
                    invariant
                        i <= self.rows@.len(),
                        width == spec_max_len(self.spec_rows().subrange(0, i as int)),
                    decreases self.rows@.len() - i,
                {
                    proof {
                        assert(self.spec_rows().subrange(0, i + 1).drop_last() =~= self.spec_rows().subrange(0, i as int));
                    }
                    let len = self.rows[i].len();
                    if len > width {
                        width = len;
                    }
                    i += 1;
                }
                assert(self.spec_rows().subrange(0, i as int) =~= self.spec_rows());
                let region = Region::new(0, 0, width, self.rows.len());
                self.size = Some(region);
                region
            },
        }
    }

    /// Returns `true` when the content region is not remembered.
    pub fn is_invalidated_content_region(&self) -> (r: bool)
        ensures
            r == self.spec_size() is None,
    {
        self.size.is_none()
    }

    /// Returns the cursor.
    pub fn cursor(&self) -> (r: &Cursor)
        ensures
            *r == self.spec_cursor(),
    {
        &self.cursor
    }

    /// Returns the cursor position `(column, row)`.
    pub fn cursor_pos(&self) -> (r: (usize, usize))
        ensures
            r == (self.spec_cursor().column, self.spec_cursor().row),
    {
        self.cursor.pos()
    }

    /// Returns the cursor column.
    pub fn cursor_col(&self) -> (r: usize)
        ensures
            r == self.spec_cursor().column,
    {
        self.cursor.col()
    }

    /// Returns the glyph at `(col, row)`, if there is one.
    fn glyph_at(&self, col: usize, row: usize) -> (r: Option<Char>)
        ensures
            r == spec_glyph_at(self.spec_rows(), col as int, row as int),
    {
        if row < self.rows.len() && col < self.rows[row].glyphs.len() {
            Some(self.rows[row].glyphs[col])
        } else {
            None
        }
    }

    /// Returns the glyph under the cursor.
    pub fn cursor_char(&self) -> (r: Option<Char>)
        ensures
            r == spec_glyph_at(self.spec_rows(), self.spec_cursor().column as int, self.spec_cursor().row as int),
    {
        self.glyph_at(self.cursor.column, self.cursor.row)
    }

    /// Returns the glyph above the cursor.
    pub fn cursor_char_above(&self) -> (r: Option<Char>)
        ensures
            r == if self.spec_cursor().row > 0 {
                spec_glyph_at(self.spec_rows(), self.spec_cursor().column as int, self.spec_cursor().row - 1)
            } else {
                None::<Char>
            },
    {
        if self.cursor.row > 0 {
            self.glyph_at(self.cursor.column, self.cursor.row - 1)
        } else {
            None
        }
    }

    /// Returns `true` when the cursor moved by the offsets would stand on a
    /// legal position.
    fn is_allowed_position(&self, row_offset: isize, col_offset: isize) -> (r: bool)
        ensures
            r == spec_is_allowed(self.spec_rows(), self.spec_cursor().shape, spec_offset(self.spec_cursor().column, col_offset as int) as int,
                spec_offset(self.spec_cursor().row, row_offset as int) as int),
    {
        let (col, row) = self.cursor.offset(col_offset, row_offset);
        if row > 0 && row < self.rows.len() && row + 1 < self.rows.len() && col > 0 && col < self.rows[row].glyphs.len() {
            let chr = self.rows[row].glyphs[col];
            if self.cursor.is_caret() {
                return !chr.is_frame() || chr.is_vert_line_left();
            } else if col + 1 < self.rows[row].glyphs.len() {
                return !chr.is_frame();
            }
        }
        false
    }

    /// Moves the cursor one row up, or two when one is not legal.
    pub fn cursor_move_up(&mut self) -> (r: bool)
        requires
            old(self).wf(),
        ensures
            final(self).wf(),
            final(self).same_text(old(self)),
            Self::spec_arrow_outcome(old(self), final(self), r, 0, -1),
    {
        if self.is_allowed_position(-1, 0) {
            self.cursor.dec_row(1);
            return true;
        }
        if self.is_allowed_position(-2, 0) {
            self.cursor.dec_row(2);
            return true;
        }
        false
    }

    /// Moves the cursor one row down, or two when one is not legal.
    pub fn cursor_move_down(&mut self) -> (r: bool)
        requires
            old(self).wf(),
        ensures
            final(self).wf(),
            final(self).same_text(old(self)),
            Self::spec_arrow_outcome(old(self), final(self), r, 0, 1),
    {
        if self.is_allowed_position(1, 0) {
            self.cursor.inc_row(1);
            return true;
        }
        if self.is_allowed_position(2, 0) {
            self.cursor.inc_row(2);
            return true;
        }
        false
    }

    /// Moves the cursor one column left, or two when one is not legal.
    pub fn cursor_move_left(&mut self) -> (r: bool)
        requires
            old(self).wf(),
        ensures
            final(self).wf(),
            final(self).same_text(old(self)),
            Self::spec_arrow_outcome(old(self), final(self), r, -1, 0),
    {
        if self.is_allowed_position(0, -1) {
            self.cursor.dec_col(1);
            return true;
        }
        if self.is_allowed_position(0, -2) {
            self.cursor.dec_col(2);
            return true;
        }
        false
    }

    /// Moves the cursor one column right, or two when one is not legal.
    pub fn cursor_move_right(&mut self) -> (r: bool)
        requires
            old(self).wf(),
        ensures
            final(self).wf(),
            final(self).same_text(old(self)),
            Self::spec_arrow_outcome(old(self), final(self), r, 1, 0),
    {
        if self.is_allowed_position(0, 1) {
            self.cursor.inc_col(1);
            return true;
        }
        if self.is_allowed_position(0, 2) {
            self.cursor.inc_col(2);
            return true;
        }
        false
    }

    /// The cursor row when it lies strictly inside the frame.
    pub fn row(&self) -> (r: Option<&[Char]>)
        ensures
            match r {
                Some(s) => 0 < self.spec_cursor().row && self.spec_cursor().row + 1 < self.spec_row_vec().len()
                    && s@ == self.spec_rows()[self.spec_cursor().row as int],
                None => !(0 < self.spec_cursor().row && self.spec_cursor().row + 1 < self.spec_row_vec().len()),
            },
    {
        let row = self.cursor.row;
        if row > 0 && row < self.rows.len() && row + 1 < self.rows.len() {
            return Some(self.rows[row].glyphs.as_slice());
        }
        None
    }

    /// The glyphs of `row` left of the cursor, when the cursor column lies
    /// strictly inside it.
    pub fn before<'a>(&self, row: &'a [Char]) -> (r: Option<&'a [Char]>)
        ensures
            match r {
                Some(s) => 0 < self.spec_cursor().column < row@.len() && s@ == row@.subrange(0, self.spec_cursor().column as int),
                None => !(0 < self.spec_cursor().column < row@.len()),
            },
    {
        let col = self.cursor.column;
        if col > 0 && col < row.len() {
            return Some(&row[0..col]);
        }
        None
    }

    /// The glyphs of `row` from the cursor on, when the cursor column lies
    /// strictly inside it.
    pub fn after<'a>(&self, row: &'a [Char]) -> (r: Option<&'a [Char]>)
        ensures
            match r {
                Some(s) => 0 < self.spec_cursor().column < row@.len() && s@ == row@.subrange(self.spec_cursor().column as int, row@.len() as int),
                None => !(0 < self.spec_cursor().column < row@.len()),
            },
    {
        let col = self.cursor.column;
        if col > 0 && col < row.len() {
            return Some(&row[col..row.len()]);
        }
        None
    }

    /// Returns `true` when the cursor lies strictly inside the frame and its row.
    fn is_inner(&self) -> (r: bool)
        ensures
            r == spec_inner(self.spec_rows(), self.spec_cursor()),
    {
        let (col, row) = self.cursor.pos();
        row > 0 && row < self.rows.len() && row + 1 < self.rows.len() && col > 0 && col < self.rows[row].glyphs.len()
    }

    /// Places the cursor at the start of the current cell: one column right
    /// of the nearest frame glyph on its left.
    pub fn cursor_move_cell_start(&mut self) -> (r: bool)
        requires
            old(self).wf(),
        ensures
            final(self).wf(),
            final(self).same_text(old(self)),
            match spec_cell_start(old(self).spec_rows(), old(self).spec_cursor()) {
                Some(k) => r && final(self).spec_cursor() == (Cursor { column: k as usize, ..old(self).spec_cursor() }),
                None => !r && final(self).spec_cursor() == old(self).spec_cursor(),
            },
    {
        if !self.is_inner() {
            return false;
        }
        let row = self.cursor.row;
        match self.rows[row].last_frame_before(self.cursor.column, true) {
            Some(i) => {
                self.cursor.set_col(i + 1);
                true
            },
            None => false,
        }
    }

    /// Places the cursor at the end of the current cell: before the nearest
    /// frame glyph on its right for a caret, on the glyph before it otherwise.
    pub fn cursor_move_cell_end(&mut self) -> (r: bool)
        requires
            old(self).wf(),
        ensures
            final(self).wf(),
            final(self).same_text(old(self)),
            match spec_cell_end(old(self).spec_rows(), old(self).spec_cursor()) {
                Some(k) => r && final(self).spec_cursor() == (Cursor { column: k as usize, ..old(self).spec_cursor() }),
                None => !r && final(self).spec_cursor() == old(self).spec_cursor(),
            },
            r ==> final(self).spec_cursor().column < old(self).spec_rows()[old(self).spec_cursor().row as int].len(),
    {
        if !self.is_inner() {
            return false;
        }
        let col = self.cursor.column;
        let row = self.cursor.row;
        match self.rows[row].first_frame_from(col, true) {
            Some(i) => {
                let k = if self.cursor.is_caret() { i } else { i - 1 };
                self.cursor.set_col(k);
                true
            },
            None => false,
        }
    }

    /// Returns `true` when a vertical move may pass the glyph at `(col, row)`.
    fn is_passable(&self, col: usize, row: usize) -> (r: bool)
        ensures
            r == spec_passable(self.spec_rows(), col as int, row as int),
    {
        if row < self.rows.len() && col < self.rows[row].glyphs.len() {
            let chr = self.rows[row].glyphs[col];
            !chr.is_horz_line_or_crossing() || chr.is_vert_line_left()
        } else {
            false
        }
    }

    /// Moves the cursor up in its column while the glyph above is not a
    /// horizontal line or crossing (a left vertical line may be passed).
    pub fn cursor_move_cell_top(&mut self) -> (r: bool)
        requires
            old(self).wf(),
        ensures
            final(self).wf(),
            final(self).same_text(old(self)),
            final(self).spec_cursor().shape == old(self).spec_cursor().shape,
            final(self).spec_cursor().column == old(self).spec_cursor().column,
            final(self).spec_cursor().row <= old(self).spec_cursor().row,
            forall|k: int| final(self).spec_cursor().row <= k < old(self).spec_cursor().row ==>
                #[trigger] spec_passable(old(self).spec_rows(), old(self).spec_cursor().column as int, k),
            final(self).spec_cursor().row == 0 || !spec_passable(old(self).spec_rows(),
                old(self).spec_cursor().column as int, final(self).spec_cursor().row - 1),
            r == (final(self).spec_cursor().row != old(self).spec_cursor().row),
    {
        let col = self.cursor.column;
        let start = self.cursor.row;
        let mut row = start;
        while row > 0 && self.is_passable(col, row - 1)
            invariant
                row <= start,
                self.rows@ == old(self).rows@,
                self.size == old(self).size,
                self.cursor == old(self).cursor,
                forall|k: int| row <= k < start ==> #[trigger] spec_passable(self.spec_rows(), col as int, k),
            decreases row,
        {
            row -= 1;
        }
        self.cursor.set_row(row);
        row != start
    }

    /// Moves the cursor down in its column while the glyph below is not a
    /// horizontal line or crossing (a left vertical line may be passed).
    pub fn cursor_move_cell_bottom(&mut self) -> (r: bool)
        requires
            old(self).wf(),
        ensures
            final(self).wf(),
            final(self).same_text(old(self)),
            final(self).spec_cursor().shape == old(self).spec_cursor().shape,
            final(self).spec_cursor().column == old(self).spec_cursor().column,
            final(self).spec_cursor().row >= old(self).spec_cursor().row,
            forall|k: int| old(self).spec_cursor().row < k <= final(self).spec_cursor().row ==>
                #[trigger] spec_passable(old(self).spec_rows(), old(self).spec_cursor().column as int, k),
            !spec_passable(old(self).spec_rows(), old(self).spec_cursor().column as int,
                final(self).spec_cursor().row + 1),
            r == (final(self).spec_cursor().row != old(self).spec_cursor().row),
    {
        let col = self.cursor.column;
        let start = self.cursor.row;
        let mut row = start;
        while row < self.rows.len() && row + 1 < self.rows.len() && self.is_passable(col, row + 1)
            invariant
                row >= start,
                self.rows@ == old(self).rows@,
                self.size == old(self).size,
                self.cursor == old(self).cursor,
                forall|k: int| start < k <= row ==> #[trigger] spec_passable(self.spec_rows(), col as int, k),
            decreases self.rows@.len() - row,
        {
            row += 1;
        }
        self.cursor.set_row(row);
        row != start
    }

    /// Places the cursor on the first non-frame glyph of its row.
    pub fn cursor_move_row_start(&mut self) -> (r: bool)
        requires
            old(self).wf(),
        ensures
            final(self).wf(),
            final(self).same_text(old(self)),
            ({
                let c = old(self).spec_cursor();
                let rows = old(self).spec_rows();
                if 0 < c.row && c.row + 1 < rows.len() && first_from(rows[c.row as int], 0, non_frame()) is Some {
                    let p = first_from(rows[c.row as int], 0, non_frame())->0;
                    final(self).spec_cursor() == (Cursor { column: p as usize, ..c }) && r == (p != c.column)
                } else {
                    final(self).spec_cursor() == c && !r
                }
            }),
    {
        let row = self.cursor.row;
        if row > 0 && row < self.rows.len() && row + 1 < self.rows.len() {
            if let Some(p) = self.rows[row].first_frame_from(0, false) {
                let old_column = self.cursor.column;
                self.cursor.set_col(p);
                return p != old_column;
            }
        }
        false
    }

    /// Places the cursor at the end of the last non-frame glyph of its row:
    /// after it for a caret, on it otherwise.
    pub fn cursor_move_row_end(&mut self) -> (r: bool)
        requires
            old(self).wf(),
        ensures
            final(self).wf(),
            final(self).same_text(old(self)),
            ({
                let c = old(self).spec_cursor();
                let rows = old(self).spec_rows();
                if 0 < c.row && c.row + 1 < rows.len()
                    && last_before(rows[c.row as int], rows[c.row as int].len() as int, non_frame()) is Some {
                    let p = last_before(rows[c.row as int], rows[c.row as int].len() as int, non_frame())->0;
                    let k = if c.shape == CursorShape::Caret { p + 1 } else { p };
                    final(self).spec_cursor() == (Cursor { column: k as usize, ..c }) && r == (k != c.column)
                } else {
                    final(self).spec_cursor() == c && !r
                }
            }),
    {
        let row = self.cursor.row;
        if row > 0 && row < self.rows.len() && row + 1 < self.rows.len() {
            let len = self.rows[row].glyphs.len();
            if let Some(p) = self.rows[row].last_frame_before(len, false) {
                let old_column = self.cursor.column;
                let k = if self.cursor.is_caret() { p + 1 } else { p };
                self.cursor.set_col(k);
                return k != old_column;
            }
        }
        false
    }

    /// Returns `true` when a column move may stop at `(col, row)`: a legal
    /// position for the cursor's shape.
    fn is_col_stop(&self, col: usize, row: usize) -> (r: bool)
        ensures
            r == spec_col_stop(self.spec_rows(), self.cursor.shape, col as int, row as int),
    {
        if row > 0 && row < self.rows.len() && row + 1 < self.rows.len() && col > 0 && col < self.rows[row].glyphs.len() {
            let chr = self.rows[row].glyphs[col];
            if self.cursor.is_caret() {
                !chr.is_frame() || chr.is_vert_line_left()
            } else {
                col + 1 < self.rows[row].glyphs.len() && !chr.is_frame()
            }
        } else {
            false
        }
    }

    fn col_start_row(&self) -> (r: Option<usize>)
        ensures
            match r {
                Some(k) => spec_col_start_row(self.spec_rows(), self.cursor.shape, self.cursor.column as int) == Some(k as int),
                None => spec_col_start_row(self.spec_rows(), self.cursor.shape, self.cursor.column as int) == None::<int>,
            },
    {
        let col = self.cursor.column;
        let ghost rows = self.spec_rows();
        let ghost shape = self.cursor.shape;
        let mut k: usize = 0;
        while k < self.rows.len()
            invariant
                k <= self.rows@.len(),
                rows == self.spec_rows(),
                shape == self.cursor.shape,
                col == self.cursor.column,
                forall|j: int| 0 <= j < k ==> !spec_col_stop(rows, shape, col as int, j),
            decreases self.rows@.len() - k,
        {
            if self.is_col_stop(col, k) {
                proof {
                    assert(spec_col_stop(rows, shape, col as int, k as int));
                    let c = choose|c: int| spec_col_stop(rows, shape, col as int, c)
                        && forall|j: int| 0 <= j < c ==> !spec_col_stop(rows, shape, col as int, j);
                    if c < k {
                        assert(!spec_col_stop(rows, shape, col as int, c));
                    } else if c > k {
                        assert(!spec_col_stop(rows, shape, col as int, k as int));
                    }
                }
                return Some(k);
            }
            k += 1;
        }
        proof {
            if exists|c: int| spec_col_stop(rows, shape, col as int, c) {
                let c = choose|c: int| spec_col_stop(rows, shape, col as int, c);
                assert(!spec_col_stop(rows, shape, col as int, c));
            }
        }
        None
    }

    fn col_end_row(&self) -> (r: Option<usize>)
        ensures
            match r {
                Some(k) => spec_col_end_row(self.spec_rows(), self.cursor.shape, self.cursor.column as int) == Some(k as int),
                None => spec_col_end_row(self.spec_rows(), self.cursor.shape, self.cursor.column as int) == None::<int>,
            },
    {
        let col = self.cursor.column;
        let ghost rows = self.spec_rows();
        let ghost shape = self.cursor.shape;
        let mut k: usize = self.rows.len();
        while k > 0
            invariant
                k <= self.rows@.len(),
                rows == self.spec_rows(),
                shape == self.cursor.shape,
                col == self.cursor.column,
                forall|j: int| k <= j < rows.len() ==> !spec_col_stop(rows, shape, col as int, j),
            decreases k,
        {
            k -= 1;
            if self.is_col_stop(col, k) {
                proof {
                    assert(spec_col_stop(rows, shape, col as int, k as int));
                    let c = choose|c: int| spec_col_stop(rows, shape, col as int, c)
                        && forall|j: int| c < j < rows.len() ==> !spec_col_stop(rows, shape, col as int, j);
                    if c < k {
                        assert(!spec_col_stop(rows, shape, col as int, k as int));
                    } else if c > k {
                        assert(!spec_col_stop(rows, shape, col as int, c));
                    }
                }
                return Some(k);
            }
        }
        proof {
            if exists|c: int| spec_col_stop(rows, shape, col as int, c) {
                let c = choose|c: int| spec_col_stop(rows, shape, col as int, c);
                assert(!spec_col_stop(rows, shape, col as int, c));
            }
        }
        None
    }

    /// Places the cursor on the top-most row where its column is a legal position.
    pub fn cursor_move_col_start(&mut self)
        requires
            old(self).wf(),
        ensures
            final(self).wf(),
            final(self).same_text(old(self)),
            final(self).spec_cursor() == match spec_col_start_row(old(self).spec_rows(), old(self).spec_cursor().shape,
                old(self).spec_cursor().column as int) {
                Some(k) => Cursor { row: k as usize, ..old(self).spec_cursor() },
                None => old(self).spec_cursor(),
            },
    {
        if let Some(k) = self.col_start_row() {
            self.cursor.set_row(k);
        }
    }

    /// Places the cursor on the bottom-most row where its column is a legal position.
    pub fn cursor_move_col_end(&mut self)
        requires
            old(self).wf(),
        ensures
            final(self).wf(),
            final(self).same_text(old(self)),
            final(self).spec_cursor() == match spec_col_end_row(old(self).spec_rows(), old(self).spec_cursor().shape,
                old(self).spec_cursor().column as int) {
                Some(k) => Cursor { row: k as usize, ..old(self).spec_cursor() },
                None => old(self).spec_cursor(),
            },
    {
        if let Some(k) = self.col_end_row() {
            self.cursor.set_row(k);
        }
    }

    /// Moves to the end of the current cell, then on to the first non-frame
    /// glyph after it, when there is one.
    pub fn cursor_move_cell_next(&mut self) -> (r: bool)
        requires
            old(self).wf(),
        ensures
            final(self).wf(),
            final(self).same_text(old(self)),
            match spec_cell_end(old(self).spec_rows(), old(self).spec_cursor()) {
                Some(e) => r && final(self).spec_cursor() == (Cursor {
                    column: match first_from(old(self).spec_rows()[old(self).spec_cursor().row as int], e + 1, non_frame()) {
                        Some(h) => h as usize,
                        None => e as usize,
                    },
                    ..old(self).spec_cursor()
                }),
                None => !r && final(self).spec_cursor() == old(self).spec_cursor(),
            },
    {
        if self.cursor_move_cell_end() {
            let col = self.cursor.column;
            let row = self.cursor.row;
            assert(self.spec_rows()[row as int] == self.rows@[row as int]@);
            let len = self.rows[row].len();
            assert(col < len);
            if let Some(h) = self.rows[row].first_frame_from(col + 1, false) {
                self.cursor.set_col(h);
            }
            return true;
        }
        false
    }

    /// Moves to the start of the current cell, then on to the last non-frame
    /// glyph before it, when there is one: after it for a caret, on it otherwise.
    pub fn cursor_move_cell_prev(&mut self) -> (r: bool)
        requires
            old(self).wf(),
        ensures
            final(self).wf(),
            final(self).same_text(old(self)),
            match spec_cell_start(old(self).spec_rows(), old(self).spec_cursor()) {
                Some(b) => r && final(self).spec_cursor() == (Cursor {
                    column: match last_before(old(self).spec_rows()[old(self).spec_cursor().row as int], b, non_frame()) {
                        Some(g) => if old(self).spec_cursor().shape == CursorShape::Caret { (g + 1) as usize } else { g as usize },
                        None => b as usize,
                    },
                    ..old(self).spec_cursor()
                }),
                None => !r && final(self).spec_cursor() == old(self).spec_cursor(),
            },
    {
        if self.cursor_move_cell_start() {
            let col = self.cursor.column;
            let row = self.cursor.row;
            assert(self.spec_rows()[row as int] == self.rows@[row as int]@);
            if let Some(g) = self.rows[row].last_frame_before(col, false) {
                let k = if self.cursor.is_caret() { g + 1 } else { g };
                self.cursor.set_col(k);
            }
            return true;
        }
        false
    }

    /// Steps a block or underscore that covers a frame glyph one column left.
    fn step_off_frame(&mut self)
        requires
            old(self).wf(),
        ensures
            final(self).wf(),
            final(self).same_text(old(self)),
            final(self).spec_cursor() == spec_after_toggle(old(self).spec_rows(), old(self).spec_cursor()),
    {
        if !self.cursor.is_caret() {
            if let Some(chr) = self.cursor_char() {
                if chr.is_frame() {
                    self.cursor.dec_col(1);
                }
            }
        }
    }

    /// Toggles the cursor between caret and block (an underscore becomes a
    /// block); a block that would cover a frame glyph steps one column left.
    pub fn cursor_toggle_caret_block(&mut self)
        requires
            old(self).wf(),
        ensures
            final(self).wf(),
            final(self).same_text(old(self)),
            final(self).spec_cursor() == spec_after_toggle(old(self).spec_rows(),
                Cursor { shape: spec_toggle_caret_block(old(self).spec_cursor().shape), ..old(self).spec_cursor() }),
    {
        self.cursor.toggle_caret_block();
        self.step_off_frame();
    }

    /// Toggles the cursor between caret and underscore (a block becomes an
    /// underscore); an underscore that would cover a frame glyph steps one column left.
    pub fn cursor_toggle_caret_under_score(&mut self)
        requires
            old(self).wf(),
        ensures
            final(self).wf(),
            final(self).same_text(old(self)),
            final(self).spec_cursor() == spec_after_toggle(old(self).spec_rows(),
                Cursor { shape: spec_toggle_caret_under_score(old(self).spec_cursor().shape), ..old(self).spec_cursor() }),
    {
        self.cursor.toggle_caret_under_score();
        self.step_off_frame();
    }

    proof fn lemma_max_len_same_lengths(a: Seq<Seq<Char>>, b: Seq<Seq<Char>>)
        requires
            a.len() == b.len(),
            forall|i: int| 0 <= i < a.len() ==> (#[trigger] a[i]).len() == b[i].len(),
        ensures
            spec_max_len(a) == spec_max_len(b),
        decreases a.len(),
    {
        if a.len() > 0 {
            Self::lemma_max_len_same_lengths(a.drop_last(), b.drop_last());
        }
    }

    /// Finds the first join line and whether it is a full join line.
    fn join_row_info(&self) -> (r: Option<(usize, bool)>)
        ensures
            match r {
                Some((k, full)) => spec_join_row_info(self.spec_rows()) == Some((k as int, full)) && k < self.spec_rows().len(),
                None => spec_join_row_info(self.spec_rows()) == None::<(int, bool)>,
            },
    {
        let ghost rows = self.spec_rows();
        let mut k: usize = 0;
        while k < self.rows.len()
            invariant
                k <= rows.len(),
                rows == self.spec_rows(),
                forall|j: int| 0 <= j < k ==> !spec_is_join_row(#[trigger] rows[j]),
            decreases rows.len() - k,
        {
            assert(rows[k as int] == self.rows@[k as int]@);
            if self.rows[k].is_join() || self.rows[k].is_full_join() {
                proof {
                    assert(spec_is_join_row(rows[k as int]));
                    let c = choose|c: int| 0 <= c < rows.len() && spec_is_join_row(rows[c])
                        && forall|j: int| 0 <= j < c ==> !spec_is_join_row(#[trigger] rows[j]);
                    if c < k {
                        assert(!spec_is_join_row(rows[c]));
                    } else if c > k {
                        assert(!spec_is_join_row(rows[k as int]));
                    }
                }
                return Some((k, self.rows[k].is_full_join()));
            }
            k += 1;
        }
        proof {
            if exists|c: int| 0 <= c < rows.len() && spec_is_join_row(rows[c]) {
                let c = choose|c: int| 0 <= c < rows.len() && spec_is_join_row(rows[c]);
                assert(!spec_is_join_row(rows[c]));
            }
        }
        None
    }

    /// Marks the join line and adjusts its crossings to the row above it.
    fn update_joining_row(&mut self, info: Option<(usize, bool)>)
        ensures
            spec_nonempty(old(self).spec_rows()) ==> spec_nonempty(final(self).spec_rows()),
            final(self).spec_rows() == spec_update_join(old(self).spec_rows(), match info {
                Some((j, full)) => Some((j as int, full)),
                None => None::<(int, bool)>,
            }),
            final(self).spec_cursor() == old(self).spec_cursor(),
            final(self).spec_size() == old(self).spec_size(),
            final(self).spec_rows().len() == old(self).spec_rows().len(),
            forall|i: int| 0 <= i < final(self).spec_rows().len() ==>
                (#[trigger] final(self).spec_rows()[i]).len() == old(self).spec_rows()[i].len(),
    {
        let ghost rows = old(self).spec_rows();
        if let Some((j, _)) = info {
            if j < self.rows.len() {
                let u = if j >= 1 { j - 1 } else { 0 };
                let full = self.rows[j].len() == self.rows[u].len();
                let n = self.rows[j].len();
                let ghost target = Seq::new(rows[j as int].len(), |i: int| spec_joined_glyph(rows[j as int][i], spec_under_line(rows, j as int, i), full));
                let mut i: usize = 0;
                while i < n
                    invariant
                        j < self.rows@.len(),
                        u == if j >= 1 { j - 1 } else { 0 },
                        i <= n,
                        n == rows[j as int].len(),
                        self.cursor == old(self).cursor,
                        self.size == old(self).size,
                        self.rows@.len() == rows.len(),
                        forall|k: int| 0 <= k < rows.len() && k != j ==> #[trigger] self.rows@[k]@ == rows[k],
                        self.rows@[j as int]@.len() == n,
                        forall|k: int| 0 <= k < i ==> #[trigger] self.rows@[j as int]@[k] == target[k],
                        forall|k: int| i <= k < n ==> #[trigger] self.rows@[j as int]@[k] == rows[j as int][k],
                        rows == old(self).spec_rows(),
                        target == Seq::new(rows[j as int].len(), |i: int| spec_joined_glyph(rows[j as int][i], spec_under_line(rows, j as int, i), full)),
                        full == (rows[j as int].len() == rows[u as int].len()),
                    decreases n - i,
                {
                    let under = if u == j {
                        i < self.rows[u].glyphs.len() && self.rows[u].glyphs[i].ch == LIGHT_VERTICAL
                    } else {
                        i < self.rows[u].glyphs.len() && self.rows[u].glyphs[i].ch == LIGHT_VERTICAL
                    };
                    proof {
                        if u != j {
                            assert(self.rows@[u as int]@ == rows[u as int]);
                        }
                    }
                    let mut g = self.rows[j].glyphs[i];
                    if full {
                        g.set_full_join();
                    } else {
                        g.set_join();
                    }
                    let c = g.ch;
                    if under {
                        if c == LIGHT_HORIZONTAL {
                            g.set_char(LIGHT_UP_AND_HORIZONTAL);
                        } else if c == LIGHT_DOWN_AND_HORIZONTAL {
                            g.set_char(LIGHT_VERTICAL_AND_HORIZONTAL);
                        } else if c == LIGHT_DOWN_AND_LEFT {
                            g.set_char(LIGHT_VERTICAL_AND_LEFT);
                        } else if c == DOWN_DOUBLE_AND_HORIZONTAL_SINGLE {
                            g.set_char(VERTICAL_DOUBLE_AND_HORIZONTAL_SINGLE);
                        }
                    } else {
                        if c == LIGHT_UP_AND_HORIZONTAL {
                            g.set_char(LIGHT_HORIZONTAL);
                        } else if c == LIGHT_VERTICAL_AND_HORIZONTAL {
                            g.set_char(LIGHT_DOWN_AND_HORIZONTAL);
                        } else if c == LIGHT_VERTICAL_AND_LEFT {
                            g.set_char(LIGHT_DOWN_AND_LEFT);
                        } else if c == VERTICAL_DOUBLE_AND_HORIZONTAL_SINGLE {
                            g.set_char(DOWN_DOUBLE_AND_HORIZONTAL_SINGLE);
                        }
                    }
                    assert(g == target[i as int]);
                    self.rows[j].set_glyph(i, g);
                    i += 1;
                }
                proof {
                    assert(self.rows@[j as int]@ =~= target);
                    assert(self.spec_rows() =~= spec_update_join(rows, Some((j as int, true))));
                }
            }
        }
    }

    /// Inserts `ch` at a caret. Nothing happens when the caret stands on a
    /// frame glyph other than a left vertical line. When the cell has a
    /// space before its right vertical line that is not its only interior
    /// glyph, the text from the cursor on moves right into it; otherwise the
    /// column is widened in every row that the join line lets the change
    /// reach, and the join line is adjusted. The cursor moves one column
    /// right. Returns `false` when nothing is inserted.
    pub fn insert_char(&mut self, ch: char) -> (r: bool)
        requires
            old(self).wf(),
        ensures
            final(self).wf(),
            match spec_insert(old(self).spec_rows(), old(self).spec_cursor(), ch) {
                Some((rows, cur)) => r && final(self).spec_rows() == rows && final(self).spec_cursor() == cur,
                None => !r && final(self).same_text(old(self)) && final(self).spec_cursor() == old(self).spec_cursor(),
            },
    {
        let (col_index, row_index) = self.cursor.pos();
        if row_index >= self.rows.len() {
            return false;
        }
        let ghost rows = self.spec_rows();
        assert(rows[row_index as int] == self.rows@[row_index as int]@);
        if col_index >= self.rows[row_index].len() {
            return false;
        }
        let under = self.rows[row_index].glyphs[col_index];
        if under.is_frame() && !under.is_vert_line_left() {
            return false;
        }
        let join_row_info = self.join_row_info();
        if let Some((join_row_index, _)) = join_row_info {
            if join_row_index == row_index {
                return false;
            }
        }
        let vert_line_index = match self.rows[row_index].search_vert_line_right(col_index) {
            Some(v) => v,
            None => return false,
        };
        let row_len = self.rows[row_index].len();
        assert(col_index <= vert_line_index && vert_line_index < row_len);
        let space_index = if vert_line_index >= 1 { vert_line_index - 1 } else { 0 };
        if vert_line_index >= 2 && col_index <= space_index && self.rows[row_index].glyphs[space_index].is_space()
            && !self.rows[row_index].glyphs[space_index - 1].is_frame() {
            self.rows[row_index].shift_text_right(col_index, space_index, ch);
            self.cursor.inc_col(1);
            proof {
                assert(self.spec_rows() =~= rows.update(row_index as int, spec_shift_text_right(rows[row_index as int], col_index as int, space_index as int, ch)));
                Self::lemma_max_len_same_lengths(self.spec_rows(), rows);
                assert forall|i: int| 0 <= i < self.rows@.len() implies (#[trigger] self.rows@[i])@.len() > 0 by {
                    assert(self.rows@[i]@ == self.spec_rows()[i]);
                    assert(old(self).rows@[i]@ == rows[i]);
                }
            }
            return true;
        }
        let n = self.rows.len();
        let (lo, hi) = match join_row_info {
            Some((join_row_index, is_full)) => if row_index < join_row_index {
                if is_full { (0, n) } else { (0, join_row_index) }
            } else {
                (join_row_index, n)
            },
            None => (0, n),
        };
        self.size = None;
        let mut k: usize = lo;
        while k < hi
            invariant
                lo <= k <= hi <= n,
                n == rows.len(),
                self.rows@.len() == n,
                self.cursor == old(self).cursor,
                self.size is None,
                forall|i: int| 0 <= i < n ==> (#[trigger] self.spec_rows()[i]) == if lo <= i < k {
                    spec_insert_fill(rows[i], vert_line_index as int)
                } else {
                    rows[i]
                },
            decreases hi - k,
        {
            let ghost prev = self.spec_rows();
            assert(prev[k as int] == self.rows@[k as int]@);
            self.rows[k].insert_fill(vert_line_index);
            assert(self.spec_rows() =~= prev.update(k as int, spec_insert_fill(prev[k as int], vert_line_index as int)));
            k += 1;
        }
        let ghost info = match join_row_info {
            Some((j, full)) => Some((j as int, full)),
            None => None::<(int, bool)>,
        };
        proof {
            assert(spec_fill_range(info, row_index as int, n as int) == (lo as int, hi as int));
            assert(self.spec_rows() =~= spec_fill_rows(rows, lo as int, hi as int, vert_line_index as int));
            assert(lo <= row_index < hi);
            crate::row::lemma_insert_fill_at_line(rows[row_index as int], vert_line_index as int);
        }
        let ghost filled = self.spec_rows();
        assert(filled[row_index as int] == self.rows@[row_index as int]@);
        self.rows[row_index].shift_text_right(col_index, vert_line_index, ch);
        self.cursor.inc_col(1);
        assert(self.spec_rows() =~= filled.update(row_index as int, spec_shift_text_right(filled[row_index as int], col_index as int, vert_line_index as int, ch)));
        let ghost shifted = self.spec_rows();
        self.update_joining_row(join_row_info);
        proof {
            assert(self.spec_cursor() == Cursor { column: (col_index + 1) as usize, ..old(self).spec_cursor() });
            assert(self.spec_rows() == spec_update_join(shifted, info));
            assert(spec_vert_line_right(rows[row_index as int], col_index as int) == Some(vert_line_index as int));
            assert(spec_join_row_info(rows) == info);
            assert(spec_insert(rows, old(self).spec_cursor(), ch) == Some((self.spec_rows(), self.spec_cursor())));
            assert forall|i: int| 0 <= i < self.rows@.len() implies (#[trigger] self.rows@[i])@.len() > 0 by {
                assert(self.rows@[i]@ == self.spec_rows()[i]);
                assert(old(self).rows@[i]@ == rows[i]);
                assert(shifted[i].len() >= rows[i].len()) by {
                    crate::row::lemma_insert_fill_len(rows[i], vert_line_index as int);
                }
            }
        }
        true
    }

    /// Overrides the glyph under a block or underscore with `ch`, when it is
    /// left of the cell's right vertical line; the cursor moves one column
    /// right unless the line is next. Never widens the table.
    pub fn override_char(&mut self, ch: char) -> (r: bool)
        requires
            old(self).wf(),
        ensures
            final(self).wf(),
            match spec_override(old(self).spec_rows(), old(self).spec_cursor(), ch) {
                Some((rows, cur)) => r && final(self).spec_rows() == rows && final(self).spec_cursor() == cur
                    && final(self).spec_size() == old(self).spec_size(),
                None => !r && final(self).same_text(old(self)) && final(self).spec_cursor() == old(self).spec_cursor(),
            },
    {
        let (col_index, row_index) = self.cursor.pos();
        if row_index >= self.rows.len() {
            return false;
        }
        let ghost rows = self.spec_rows();
        assert(rows[row_index as int] == self.rows@[row_index as int]@);
        if let Some(vert_line_index) = self.rows[row_index].search_vert_line_right(col_index) {
            if col_index < vert_line_index && !self.rows[row_index].glyphs[col_index].is_frame() {
                self.rows[row_index].set_char(col_index, ch);
                if col_index + 1 < vert_line_index {
                    self.cursor.inc_col(1);
                }
                proof {
                    assert(self.spec_rows() =~= rows.update(row_index as int,
                        rows[row_index as int].update(col_index as int, Char { ch, attributes: rows[row_index as int][col_index as int].attributes })));
                    Self::lemma_max_len_same_lengths(self.spec_rows(), rows);
                    assert forall|i: int| 0 <= i < self.rows@.len() implies (#[trigger] self.rows@[i])@.len() > 0 by {
                        assert(self.rows@[i]@ == self.spec_rows()[i]);
                        assert(old(self).rows@[i]@ == rows[i]);
                    }
                }
                return true;
            }
        }
        false
    }

    fn all_vert_whitespace(&self, lo: usize, hi: usize, col: usize) -> (r: bool)
        requires
            hi <= self.spec_rows().len(),
        ensures
            r == spec_all_ws(self.spec_rows(), lo as int, hi as int, col as int),
    {
        let mut k = lo;
        while k < hi
            invariant
                lo <= k,
                hi <= self.spec_rows().len(),
                forall|i: int| lo <= i < k ==> spec_is_vert_whitespace(#[trigger] self.spec_rows()[i], col as int),
            decreases hi - k,
        {
            assert(self.spec_rows()[k as int] == self.rows@[k as int]@);
            if !self.rows[k].is_vert_whitespace(col) {
                return false;
            }
            k += 1;
        }
        true
    }

    fn delete_whitespace_rows(&mut self, lo: usize, hi: usize, col: usize)
        requires
            lo <= hi <= old(self).spec_rows().len(),
            spec_nonempty(old(self).spec_rows()),
        ensures
            spec_nonempty(final(self).spec_rows()),
            final(self).spec_rows() == spec_delete_rows(old(self).spec_rows(), lo as int, hi as int, col as int),
            final(self).spec_cursor() == old(self).spec_cursor(),
            final(self).spec_size() == old(self).spec_size(),
    {
        let ghost rows = self.spec_rows();
        let mut k = lo;
        while k < hi
            invariant
                lo <= k <= hi,
                hi <= rows.len(),
                self.spec_rows().len() == rows.len(),
                self.cursor == old(self).cursor,
                self.size == old(self).size,
                forall|i: int| 0 <= i < rows.len() ==> (#[trigger] self.spec_rows()[i]) == if lo <= i < k {
                    spec_delete_whitespace(rows[i], col as int)
                } else {
                    rows[i]
                },
            decreases hi - k,
        {
            let ghost prev = self.spec_rows();
            assert(prev[k as int] == self.rows@[k as int]@);
            self.rows[k].delete_whitespace(col);
            assert(self.spec_rows() =~= prev.update(k as int, spec_delete_whitespace(prev[k as int], col as int)));
            k += 1;
        }
        assert(self.spec_rows() =~= spec_delete_rows(rows, lo as int, hi as int, col as int));
        assert forall|i: int| 0 <= i < self.spec_rows().len() implies (#[trigger] self.spec_rows()[i]).len() > 0 by {
            if lo <= i < hi {
                crate::row::lemma_delete_whitespace_len(rows[i], col as int);
            }
        }
    }

    /// Removes a column that a deletion at `(col_index, row_index)` has
    /// made redundant, see [spec_remove_vertical_spaces].
    fn remove_vertical_spaces(&mut self, col_index: usize, row_index: usize)
        requires
            row_index < old(self).spec_rows().len(),
            spec_nonempty(old(self).spec_rows()),
        ensures
            spec_nonempty(final(self).spec_rows()),
            final(self).spec_rows().len() == old(self).spec_rows().len(),
            final(self).spec_rows() == spec_remove_vertical_spaces(old(self).spec_rows(), col_index as int, row_index as int),
            final(self).spec_cursor() == old(self).spec_cursor(),
            final(self).spec_size() == old(self).spec_size(),
    {
        let ghost rows = self.spec_rows();
        let n = self.rows.len();
        assert(rows[row_index as int] == self.rows@[row_index as int]@);
        let v = match self.rows[row_index].search_vert_line_right(col_index) {
            Some(v) => v,
            None => return,
        };
        let join_row_info = self.join_row_info();
        match join_row_info {
            Some((join_row_index, is_full)) => {
                let (own_lo, own_hi, other_lo, other_hi) = if row_index < join_row_index {
                    (0, join_row_index, join_row_index, n)
                } else {
                    (join_row_index, n, 0, join_row_index)
                };
                let own = self.all_vert_whitespace(own_lo, own_hi, v);
                let other = self.all_vert_whitespace(other_lo, other_hi, v);
                if own {
                    self.delete_whitespace_rows(own_lo, own_hi, v);
                }
                if is_full && other {
                    self.delete_whitespace_rows(other_lo, other_hi, v);
                }
                self.update_joining_row(join_row_info);
            },
            None => {
                if self.all_vert_whitespace(0, n, v) {
                    self.delete_whitespace_rows(0, n, v);
                }
            },
        }
    }

    /// Deletes the glyph under the cursor when it is not a frame glyph: the
    /// rest of the cell's text moves one column left, a column made
    /// redundant is removed, and a block or underscore left on a frame glyph
    /// steps one column left.
    pub fn delete_char_under_cursor(&mut self) -> (r: bool)
        requires
            old(self).wf(),
        ensures
            final(self).wf(),
            match spec_delete_under(old(self).spec_rows(), old(self).spec_cursor()) {
                Some((rows, cur)) => r && final(self).spec_rows() == rows && final(self).spec_cursor() == cur
                    && final(self).spec_invalidated(),
                None => !r && final(self).same_text(old(self)) && final(self).spec_cursor() == old(self).spec_cursor(),
            },
    {
        let (col_index, row_index) = self.cursor.pos();
        if row_index >= self.rows.len() || col_index >= self.rows[row_index].len() {
            return false;
        }
        let ghost rows = self.spec_rows();
        assert(rows[row_index as int] == self.rows@[row_index as int]@);
        if self.rows[row_index].glyphs[col_index].is_frame() {
            return false;
        }
        let vert_line_index = match self.rows[row_index].search_vert_line_right(col_index) {
            Some(v) => v,
            None => return false,
        };
        assert(vert_line_index != col_index);
        self.size = None;
        self.rows[row_index].shift_text_left(col_index, vert_line_index - 1);
        assert(self.spec_rows() =~= rows.update(row_index as int, spec_shift_text_left(rows[row_index as int], col_index as int, vert_line_index - 1)));
        self.remove_vertical_spaces(col_index, row_index);
        if !self.cursor.is_caret() {
            if let Some(chr) = self.cursor_char() {
                if chr.is_frame() {
                    self.cursor.dec_col(1);
                }
            }
        }
        true
    }

    /// The length of the text in `[left, right]` of row `row`: up to its
    /// last non-space glyph.
    fn text_len(&self, row: usize, left: usize, right: usize) -> (r: usize)
        requires
            row < self.spec_rows().len(),
            right < self.spec_rows()[row as int].len(),
            left <= right + 1,
        ensures
            r == spec_text_len(self.spec_rows()[row as int], left as int, right as int),
            r <= right + 1 - left,
    {
        let ghost s = self.spec_rows()[row as int];
        assert(s == self.rows@[row as int]@);
        let len = self.rows[row].len();
        assert(right < len);
        let mut k = right + 1;
        while k > left
            invariant
                left <= k <= right + 1,
                right < s.len(),
                s == self.rows@[row as int]@,
                row < self.rows@.len(),
                forall|j: int| k <= j <= right ==> #[trigger] s[j].ch == SPACE,
            decreases k,
        {
            if !self.rows[row].glyphs[k - 1].is_space() {
                proof {
                    let i = (k - 1) as int;
                    assert(left <= i <= right && s[i].ch != SPACE && forall|j: int| i < j <= right ==> s[j].ch == SPACE);
                    let c = choose|c: int| left <= c <= right && s[c].ch != SPACE && forall|j: int| c < j <= right ==> s[j].ch == SPACE;
                    if c < i {
                        assert(s[i].ch == SPACE);
                    } else if c > i {
                        assert(s[c].ch == SPACE);
                    }
                }
                return k - left;
            }
            k -= 1;
        }
        proof {
            if exists|c: int| left <= c <= right && s[c].ch != SPACE {
                let c = choose|c: int| left <= c <= right && s[c].ch != SPACE;
                assert(s[c].ch == SPACE);
            }
        }
        0
    }

    /// The first row at or below `row_index` with a horizontal line or
    /// crossing in column `col_index`.
    fn search_horizontal_line_or_crossing_down(&self, col_index: usize, row_index: usize) -> (r: Option<usize>)
        ensures
            match r {
                Some(k) => spec_horz_down(self.spec_rows(), col_index as int, row_index as int) == Some(k as int)
                    && row_index <= k < self.spec_rows().len(),
                None => spec_horz_down(self.spec_rows(), col_index as int, row_index as int) == None::<int>,
            },
    {
        let ghost rows = self.spec_rows();
        let mut k = row_index;
        while k < self.rows.len()
            invariant
                row_index <= k,
                rows == self.spec_rows(),
                forall|j: int| row_index <= j < k ==> !spec_horz_at(rows, col_index as int, j),
            decreases rows.len() - k,
        {
            assert(rows[k as int] == self.rows@[k as int]@);
            if col_index < self.rows[k].len() && self.rows[k].glyphs[col_index].is_horz_line_or_crossing() {
                proof {
                    let i = k as int;
                    assert(spec_horz_at(rows, col_index as int, i));
                    let c = choose|c: int| row_index <= c && spec_horz_at(rows, col_index as int, c)
                        && forall|j: int| row_index <= j < c ==> !spec_horz_at(rows, col_index as int, j);
                    if c < i {
                        assert(!spec_horz_at(rows, col_index as int, c));
                    } else if c > i {
                        assert(!spec_horz_at(rows, col_index as int, i));
                    }
                }
                return Some(k);
            }
            k += 1;
        }
        proof {
            if exists|c: int| row_index <= c && spec_horz_at(rows, col_index as int, c) {
                let c = choose|c: int| row_index <= c && spec_horz_at(rows, col_index as int, c);
                assert(!spec_horz_at(rows, col_index as int, c));
            }
        }
        None
    }

    /// Copies the character at `(col, from)` to `(col, to)` when both exist.
    fn copy_char(&mut self, from: usize, to: usize, col: usize)
        ensures
            final(self).spec_rows() == spec_copy(old(self).spec_rows(), from as int, to as int, col as int),
            final(self).spec_rows().len() == old(self).spec_rows().len(),
            forall|i: int| 0 <= i < old(self).spec_rows().len() ==>
                (#[trigger] final(self).spec_rows()[i]).len() == old(self).spec_rows()[i].len(),
            final(self).spec_cursor() == old(self).spec_cursor(),
            final(self).spec_size() == old(self).spec_size(),
    {
        if from < self.rows.len() && to < self.rows.len() && col < self.rows[from].len() && col < self.rows[to].len() {
            let ch = self.rows[from].glyphs[col].ch;
            let ghost prev = self.spec_rows();
            assert(prev[from as int] == self.rows@[from as int]@);
            assert(prev[to as int] == self.rows@[to as int]@);
            self.rows[to].set_char(col, ch);
            assert(self.spec_rows() =~= spec_copy(prev, from as int, to as int, col as int));
            assert forall|i: int| 0 <= i < prev.len() implies (#[trigger] self.spec_rows()[i]).len() == prev[i].len() by {
                assert(self.spec_rows()[i] == self.rows@[i]@);
            }
        }
    }

    /// Writes `ch` at `(col, row)` when that glyph exists.
    fn put_char(&mut self, row: usize, col: usize, ch: char)
        ensures
            final(self).spec_rows() == spec_put(old(self).spec_rows(), row as int, col as int, ch),
            final(self).spec_rows().len() == old(self).spec_rows().len(),
            forall|i: int| 0 <= i < old(self).spec_rows().len() ==>
                (#[trigger] final(self).spec_rows()[i]).len() == old(self).spec_rows()[i].len(),
            final(self).spec_cursor() == old(self).spec_cursor(),
            final(self).spec_size() == old(self).spec_size(),
    {
        if row < self.rows.len() && col < self.rows[row].len() {
            let ghost prev = self.spec_rows();
            assert(prev[row as int] == self.rows@[row as int]@);
            self.rows[row].set_char(col, ch);
            assert(self.spec_rows() =~= spec_put(prev, row as int, col as int, ch));
            assert forall|i: int| 0 <= i < prev.len() implies (#[trigger] self.spec_rows()[i]).len() == prev[i].len() by {
                assert(self.spec_rows()[i] == self.rows@[i]@);
            }
        }
    }

    /// Appends the text of row `row_index` in `[left_index, left_index + text_len_below)`
    /// to the text of the row above (of length `text_len_above`) and clears it.
    fn join_text(&mut self, row_index: usize, left_index: usize, right_index: usize, text_len_above: usize, text_len_below: usize)
        requires
            1 <= row_index < old(self).spec_rows().len(),
            right_index < old(self).spec_rows()[row_index as int].len(),
            right_index < old(self).spec_rows()[row_index - 1].len(),
            left_index + text_len_above + text_len_below <= right_index + 1,
        ensures
            final(self).spec_rows() == spec_joined_rows(old(self).spec_rows(), row_index as int, left_index as int,
                text_len_above as int, text_len_below as int),
            final(self).spec_cursor() == old(self).spec_cursor(),
            final(self).spec_size() == old(self).spec_size(),
    {
        let ghost rows = self.spec_rows();
        let ghost ta = text_len_above as int;
        let ghost tb = text_len_below as int;
        let ghost above = rows[row_index - 1];
        let ghost below = rows[row_index as int];
        let mut i: usize = 0;
        while i < text_len_below
            invariant
                self.spec_rows().len() == rows.len(),
                forall|k: int| 0 <= k < rows.len() ==> (#[trigger] self.spec_rows()[k]).len() == rows[k].len(),
                self.cursor == old(self).cursor,
                self.size == old(self).size,
                forall|k: int| 0 <= k < rows.len() && k != row_index - 1 && k != row_index ==> #[trigger] self.spec_rows()[k] == rows[k],
                row_index < rows.len(),
                row_index >= 1,
                i <= text_len_below,
                left_index + text_len_above + text_len_below <= right_index + 1,
                right_index < rows[row_index as int].len(),
                right_index < rows[row_index - 1].len(),
                above == rows[row_index - 1],
                below == rows[row_index as int],
                ta == text_len_above,
                tb == text_len_below,
                forall|p: int| 0 <= p < above.len() ==> #[trigger] self.spec_rows()[row_index - 1][p]
                    == spec_appended_glyph(above, below, left_index as int, ta, i as int, p),
                forall|p: int| 0 <= p < below.len() ==> #[trigger] self.spec_rows()[row_index as int][p]
                    == if left_index <= p < left_index + i { Char { ch: SPACE, attributes: below[p].attributes } } else { below[p] },
            decreases text_len_below - i,
        {
            let ghost pre = self.spec_rows();
            assert(pre[row_index as int][left_index + i] == below[left_index + i]);
            let ch = if left_index + i < self.rows[row_index].len() { self.rows[row_index].glyphs[left_index + i].ch } else { SPACE };
            assert(ch == below[left_index + i].ch);
            self.put_char(row_index - 1, left_index + text_len_above + i, ch);
            let ghost mid1 = self.spec_rows();
            assert(mid1[row_index as int] == pre[row_index as int]);
            self.put_char(row_index, left_index + i, SPACE);
            proof {
                let post = self.spec_rows();
                assert(post[row_index - 1] == mid1[row_index - 1]);
                assert forall|p: int| 0 <= p < above.len() implies #[trigger] post[row_index - 1][p]
                    == spec_appended_glyph(above, below, left_index as int, ta, i + 1, p) by {
                    if p != left_index + text_len_above + i {
                        assert(post[row_index - 1][p] == pre[row_index - 1][p]);
                    }
                }
                assert forall|p: int| 0 <= p < below.len() implies #[trigger] post[row_index as int][p]
                    == if left_index <= p < left_index + i + 1 { Char { ch: SPACE, attributes: below[p].attributes } } else { below[p] } by {
                    if p != left_index + i {
                        assert(post[row_index as int][p] == mid1[row_index as int][p]);
                    }
                }
                assert forall|k: int| 0 <= k < rows.len() && k != row_index - 1 && k != row_index implies #[trigger] post[k] == rows[k] by {
                    assert(post[k] == pre[k]);
                }
            }
            i += 1;
        }
        let ghost joined = spec_joined_rows(rows, row_index as int, left_index as int, ta, tb);
        proof {
            assert forall|k: int| 0 <= k < rows.len() implies #[trigger] self.spec_rows()[k] == joined[k] by {
                if k == row_index - 1 {
                    assert(self.spec_rows()[k] =~= joined[k]);
                } else if k == row_index {
                    assert(self.spec_rows()[k] =~= joined[k]);
                }
            }
            assert(self.spec_rows() =~= joined);
        }
    }

    /// Moves columns `[left_index, right_index]` up one row within rows
    /// `[row_index, last_row_index]`, the last of them becoming spaces.
    fn lift_cell(&mut self, left_index: usize, right_index: usize, row_index: usize, last_row_index: usize)
        requires
            row_index <= last_row_index < old(self).spec_rows().len(),
            right_index < usize::MAX,
            left_index <= right_index + 1,
        ensures
            final(self).spec_rows() == spec_lifted_rows(old(self).spec_rows(), left_index as int, right_index + 1,
                row_index as int, last_row_index as int),
            final(self).spec_cursor() == old(self).spec_cursor(),
            final(self).spec_size() == old(self).spec_size(),
    {
        let ghost rows = self.spec_rows();
        let ghost joined = rows;
        let end = right_index + 1;
        let mut ix_col = left_index;
        while ix_col < end
            invariant
                left_index <= ix_col <= end,
                end == right_index + 1,
                self.spec_rows().len() == rows.len(),
                joined.len() == rows.len(),
                forall|k: int| 0 <= k < rows.len() ==> (#[trigger] self.spec_rows()[k]).len() == rows[k].len(),
                forall|k: int| 0 <= k < rows.len() ==> (#[trigger] joined[k]).len() == rows[k].len(),
                forall|i: int, k: int| 0 <= i < rows.len() && 0 <= k < rows[i].len() ==>
                    #[trigger] self.spec_rows()[i][k] == spec_lifted_glyph(joined, left_index as int, ix_col as int, row_index as int, last_row_index as int, i, k),
                row_index <= last_row_index < rows.len(),
                self.cursor == old(self).cursor,
                self.size == old(self).size,
            decreases end - ix_col,
        {
            let mut ix_row = row_index;
            while ix_row < last_row_index
                invariant
                    row_index <= ix_row <= last_row_index < rows.len(),
                    left_index <= ix_col < end,
                    self.spec_rows().len() == rows.len(),
                    forall|k: int| 0 <= k < rows.len() ==> (#[trigger] self.spec_rows()[k]).len() == rows[k].len(),
                    forall|k: int| 0 <= k < rows.len() ==> (#[trigger] joined[k]).len() == rows[k].len(),
                    forall|i: int, k: int| 0 <= i < rows.len() && 0 <= k < rows[i].len() ==>
                        #[trigger] self.spec_rows()[i][k] == if k == ix_col && i < ix_row {
                            spec_lifted_glyph(joined, left_index as int, ix_col + 1, row_index as int, last_row_index as int, i, k)
                        } else {
                            spec_lifted_glyph(joined, left_index as int, ix_col as int, row_index as int, last_row_index as int, i, k)
                        },
                    self.cursor == old(self).cursor,
                    self.size == old(self).size,
                decreases last_row_index - ix_row,
            {
                let ghost pre = self.spec_rows();
                self.copy_char(ix_row + 1, ix_row, ix_col);
                proof {
                    let post = self.spec_rows();
                    assert forall|i: int, k: int| 0 <= i < rows.len() && 0 <= k < rows[i].len() implies
                        #[trigger] post[i][k] == if k == ix_col && i < ix_row + 1 {
                            spec_lifted_glyph(joined, left_index as int, ix_col + 1, row_index as int, last_row_index as int, i, k)
                        } else {
                            spec_lifted_glyph(joined, left_index as int, ix_col as int, row_index as int, last_row_index as int, i, k)
                        } by {
                        if i == ix_row && k == ix_col {
                            if k < rows[i + 1].len() {
                                assert(pre[i + 1][k] == joined[i + 1][k]);
                            }
                        } else {
                            assert(post[i][k] == pre[i][k]);
                        }
                    }
                }
                ix_row += 1;
            }
            let ghost pre = self.spec_rows();
            self.put_char(last_row_index, ix_col, SPACE);
            proof {
                let post = self.spec_rows();
                assert forall|i: int, k: int| 0 <= i < rows.len() && 0 <= k < rows[i].len() implies
                    #[trigger] post[i][k] == spec_lifted_glyph(joined, left_index as int, ix_col + 1, row_index as int, last_row_index as int, i, k) by {
                    if !(i == last_row_index && k == ix_col) {
                        assert(post[i][k] == pre[i][k]);
                    }
                }
            }
            ix_col += 1;
        }
        proof {
            let target = spec_lifted_rows(joined, left_index as int, end as int, row_index as int, last_row_index as int);
            assert forall|i: int| 0 <= i < rows.len() implies #[trigger] self.spec_rows()[i] == target[i] by {
                assert(self.spec_rows()[i] =~= target[i]);
            }
            assert(self.spec_rows() =~= target);
        }
    }

    /// Joins the line of the cursor with the line above, inside the current
    /// cell, when the glyph above the cursor is not a frame glyph and both
    /// texts fit: the text moves to the end of the line above, the rest of
    /// the cell moves up one row, a row left redundant is removed (see
    /// [Plane::remove_horizontal_whitespaces]) and the cursor goes to the
    /// joint. Returns `false`, changing nothing, otherwise.
    pub fn unsplit_line(&mut self) -> (r: bool)
        requires
            old(self).wf(),
        ensures
            final(self).wf(),
            r == spec_can_unsplit(old(self).spec_rows(), old(self).spec_cursor()),
            r ==> final(self).spec_cursor() == spec_unsplit_cursor(old(self).spec_rows(), old(self).spec_cursor()),
            r ==> final(self).spec_rows() == spec_unsplit_result(old(self).spec_rows(), old(self).spec_cursor()),
            final(self).spec_rows().len() == old(self).spec_rows().len()
                || final(self).spec_rows().len() + 1 == old(self).spec_rows().len(),
            !r ==> final(self).same_text(old(self)) && final(self).spec_cursor() == old(self).spec_cursor(),
    {
        let (col_index, row_index) = self.cursor.pos();
        if row_index == 0 || row_index >= self.rows.len() {
            return false;
        }
        let ghost rows = self.spec_rows();
        assert(rows[row_index as int] == self.rows@[row_index as int]@);
        assert(rows[row_index - 1] == self.rows@[row_index - 1]@);
        if col_index >= self.rows[row_index - 1].len() || self.rows[row_index - 1].glyphs[col_index].is_frame() {
            return false;
        }
        let (left_index, right_index) = match self.rows[row_index].cell_range(col_index) {
            Some(range) => range,
            None => return false,
        };
        if right_index >= self.rows[row_index - 1].len() {
            return false;
        }
        let text_len_above = self.text_len(row_index - 1, left_index, right_index);
        let text_len_below = self.text_len(row_index, left_index, right_index);
        if text_len_below > right_index + 1 - left_index - text_len_above {
            return false;
        }
        let closing = self.search_horizontal_line_or_crossing_down(col_index, row_index);
        let ghost ta = text_len_above as int;
        let ghost tb = text_len_below as int;
        self.size = None;
        self.join_text(row_index, left_index, right_index, text_len_above, text_len_below);
        let ghost joined = self.spec_rows();
        if let Some(horz_line_row_index) = closing {
            if horz_line_row_index > row_index {
                self.lift_cell(left_index, right_index, row_index, horz_line_row_index - 1);
            }
        }
        assert(self.spec_rows() == spec_unsplit_rows(rows, old(self).spec_cursor()));
        proof {
            assert forall|k: int| 0 <= k < self.spec_rows().len() implies (#[trigger] self.spec_rows()[k]).len() > 0 by {
                assert(joined[k].len() == rows[k].len());
                assert(self.spec_rows()[k].len() == joined[k].len());
            }
        }
        self.remove_horizontal_whitespaces();
        self.cursor.set(left_index + text_len_above, row_index - 1);
        true
    }

    /// Returns `true` when above each row `nearest[k]` in column `k` there is
    /// a space, a vertical line, or no glyph.
    fn strip_is_free(&self, nearest: &Vec<usize>) -> (r: bool)
        requires
            forall|k: int| 0 <= k < nearest@.len() ==> (#[trigger] nearest@[k]) < self.spec_rows().len(),
        ensures
            r == forall|k: int| 0 <= k < nearest@.len() ==> #[trigger] spec_free_above(self.spec_rows(), nearest@[k] as int, k),
    {
        let mut ix_col: usize = 0;
        while ix_col < nearest.len()
            invariant
                forall|k: int| 0 <= k < nearest@.len() ==> (#[trigger] nearest@[k]) < self.spec_rows().len(),
                forall|k: int| 0 <= k < ix_col ==> #[trigger] spec_free_above(self.spec_rows(), nearest@[k] as int, k),
                ix_col <= nearest@.len(),
            decreases nearest@.len() - ix_col,
        {
            let ix_row = nearest[ix_col];
            if ix_row == 0 {
                assert(!spec_free_above(self.spec_rows(), nearest@[ix_col as int] as int, ix_col as int));
                return false;
            }
            assert(self.spec_rows()[ix_row - 1] == self.rows@[ix_row - 1]@);
            if ix_col < self.rows[ix_row - 1].len() {
                let chr = self.rows[ix_row - 1].glyphs[ix_col];
                if !(chr.is_space() || chr.is_vert_line()) {
                    assert(!spec_free_above(self.spec_rows(), nearest@[ix_col as int] as int, ix_col as int));
                    return false;
                }
            }
            ix_col += 1;
        }
        true
    }

    /// Returns `true` when every entry of `nearest` is `j`.
    fn all_at(nearest: &Vec<usize>, j: usize) -> (r: bool)
        ensures
            r == forall|k: int| 0 <= k < nearest@.len() ==> #[trigger] nearest@[k] == j,
    {
        let mut k: usize = 0;
        while k < nearest.len()
            invariant
                k <= nearest@.len(),
                forall|m: int| 0 <= m < k ==> #[trigger] nearest@[m] == j,
            decreases nearest@.len() - k,
        {
            if nearest[k] != j {
                return false;
            }
            k += 1;
        }
        true
    }

    /// Moves each column `k` up one row from just above row `nearest[k]` on.
    fn shift_columns_up(&mut self, nearest: &Vec<usize>)
        requires
            forall|k: int| 0 <= k < nearest@.len() ==> 1 <= (#[trigger] nearest@[k]) < old(self).spec_rows().len(),
        ensures
            final(self).spec_rows() == Seq::new(old(self).spec_rows().len(), |i: int| spec_shifted_row(old(self).spec_rows(),
                nearest@.map_values(|t: usize| t as int), i)),
            final(self).spec_cursor() == old(self).spec_cursor(),
            final(self).spec_size() == old(self).spec_size(),
    {
        let ghost rows = self.spec_rows();
        let ghost all = nearest@.map_values(|t: usize| t as int);
        let n = self.rows.len();
        let w = nearest.len();
        let mut ix_col: usize = 0;
        while ix_col < w
            invariant
                ix_col <= w,
                w == nearest@.len(),
                n == rows.len(),
                all == nearest@.map_values(|t: usize| t as int),
                forall|k: int| 0 <= k < w ==> 1 <= (#[trigger] nearest@[k]) < rows.len(),
                self.spec_rows().len() == n,
                forall|i: int| 0 <= i < n ==> (#[trigger] self.spec_rows()[i]).len() == rows[i].len(),
                forall|i: int, k: int| 0 <= i < n && 0 <= k < rows[i].len() ==>
                    #[trigger] self.spec_rows()[i][k] == spec_shifted_glyph(rows, all.subrange(0, ix_col as int), i, k),
                self.cursor == old(self).cursor,
                self.size == old(self).size,
            decreases w - ix_col,
        {
            let top = nearest[ix_col];
            let ghost done = all.subrange(0, ix_col as int);
            let ghost next = all.subrange(0, ix_col + 1);
            assert(next[ix_col as int] == top as int);
            let mut ix_row = top - 1;
            while ix_row + 1 < n
                invariant
                    top - 1 <= ix_row < n,
                    n == rows.len(),
                    done.len() == ix_col,
                    next.len() == ix_col + 1,
                    next[ix_col as int] == top as int,
                    forall|k: int| 0 <= k < ix_col ==> #[trigger] next[k] == done[k],
                    self.spec_rows().len() == n,
                    forall|i: int| 0 <= i < n ==> (#[trigger] self.spec_rows()[i]).len() == rows[i].len(),
                    forall|i: int, k: int| 0 <= i < n && 0 <= k < rows[i].len() ==>
                        #[trigger] self.spec_rows()[i][k] == if k == ix_col && i < ix_row {
                            spec_shifted_glyph(rows, next, i, k)
                        } else {
                            spec_shifted_glyph(rows, done, i, k)
                        },
                    self.cursor == old(self).cursor,
                    self.size == old(self).size,
                decreases n - ix_row,
            {
                let ghost pre = self.spec_rows();
                self.copy_char(ix_row + 1, ix_row, ix_col);
                proof {
                    let post = self.spec_rows();
                    assert forall|i: int, k: int| 0 <= i < n && 0 <= k < rows[i].len() implies
                        #[trigger] post[i][k] == if k == ix_col && i < ix_row + 1 {
                            spec_shifted_glyph(rows, next, i, k)
                        } else {
                            spec_shifted_glyph(rows, done, i, k)
                        } by {
                        if i == ix_row && k == ix_col {
                            if k < rows[i + 1].len() {
                                assert(pre[i + 1][k] == rows[i + 1][k]);
                            }
                        } else {
                            assert(post[i][k] == pre[i][k]);
                        }
                    }
                }
                ix_row += 1;
            }
            proof {
                assert forall|i: int, k: int| 0 <= i < n && 0 <= k < rows[i].len() implies
                    #[trigger] self.spec_rows()[i][k] == spec_shifted_glyph(rows, next, i, k) by {
                    if k == ix_col && i >= ix_row {
                        assert(i + 1 >= n);
                    }
                }
            }
            ix_col += 1;
        }
        proof {
            assert(all.subrange(0, w as int) =~= all);
            let target = Seq::new(rows.len(), |i: int| spec_shifted_row(rows, all, i));
            assert forall|i: int| 0 <= i < n implies #[trigger] self.spec_rows()[i] == target[i] by {
                assert(self.spec_rows()[i] =~= spec_shifted_row(rows, all, i));
            }
            assert(self.spec_rows() =~= target);
        }
    }

    /// After lines were joined: when every column has, just above its nearest
    /// horizontal line or crossing at or below the cursor, a space or a
    /// vertical line, that strip is redundant and the table loses a row:
    /// the row above the join line when all those lines are the join line,
    /// otherwise each column moves up one row from the strip on and the
    /// last row goes. Returns `true` when a row was removed.
    #[verifier::rlimit(100)]
    fn remove_horizontal_whitespaces(&mut self) -> (r: bool)
        requires
            old(self).wf(),
            old(self).spec_invalidated(),
        ensures
            final(self).wf(),
            final(self).spec_invalidated(),
            final(self).spec_cursor() == old(self).spec_cursor(),
            r == spec_strip_redundant(old(self).spec_rows(), old(self).spec_cursor()),
            r ==> final(self).spec_rows() == spec_remove_strip(old(self).spec_rows(), old(self).spec_cursor()),
            r ==> final(self).spec_rows().len() + 1 == old(self).spec_rows().len(),
            !r ==> final(self).spec_rows() == old(self).spec_rows(),
            forall|k: int| 0 <= k < old(self).spec_cursor().row - 1 && k < final(self).spec_rows().len() ==>
                #[trigger] final(self).spec_rows()[k] == old(self).spec_rows()[k],
    {
        let ghost rows = self.spec_rows();
        let ghost cur = self.cursor;
        let (col_index, row_index) = self.cursor.pos();
        let horz_line_row_index = match self.search_horizontal_line_or_crossing_down(col_index, row_index) {
            Some(h) => h,
            None => return false,
        };
        assert(rows[row_index as int] == self.rows@[row_index as int]@);
        let row_width = self.rows[row_index].len();
        let ghost tops = spec_tops(rows, horz_line_row_index as int, row_width as int);
        let nearest = match self.column_tops(row_width, horz_line_row_index) {
            Some((found, _)) => found,
            None => return false,
        };
        proof {
            assert(nearest@.map_values(|t: usize| t as int) =~= tops);
            assert(spec_closed_below(rows, horz_line_row_index as int, row_width as int));
        }
        if !self.strip_is_free(&nearest) {
            proof {
                let k = choose|k: int| 0 <= k < nearest@.len() && !spec_free_above(rows, nearest@[k] as int, k);
                assert(tops[k] == nearest@[k] as int);
            }
            return false;
        }
        proof {
            assert forall|k: int| 0 <= k < row_width implies #[trigger] spec_free_above(rows, tops[k], k) by {
                assert(tops[k] == nearest@[k] as int);
            }
            assert forall|k: int| 0 <= k < row_width implies 1 <= (#[trigger] nearest@[k]) by {
                assert(spec_free_above(rows, nearest@[k] as int, k));
            }
        }
        let at_join = match self.join_row_info() {
            Some((join_row_index, _)) => join_row_index >= 1 && row_width > 0 && Self::all_at(&nearest, join_row_index),
            None => false,
        };
        proof {
            if at_join {
                assert forall|k: int| 0 <= k < row_width implies #[trigger] tops[k] == spec_join_row(rows) by {
                    assert(tops[k] == nearest@[k] as int);
                }
            }
            assert(spec_tops(rows, spec_horz_down(rows, cur.column as int, cur.row as int)->0, rows[cur.row as int].len() as int) == tops);
            if spec_strip_at_join(rows, cur) {
                assert forall|k: int| 0 <= k < row_width implies #[trigger] nearest@[k] == spec_join_row(rows) by {
                    assert(tops[k] == nearest@[k] as int);
                    assert(tops[k] == spec_join_row(rows));
                }
            }
            assert(at_join == spec_strip_at_join(rows, cur));
        }
        if at_join {
            let join_row_index = nearest[0];
            assert(join_row_index == spec_join_row(rows));
            self.rows.remove(join_row_index - 1);
            proof {
                assert(self.spec_rows() =~= rows.remove(join_row_index - 1));
                assert forall|k: int| 0 <= k < self.spec_rows().len() implies (#[trigger] self.spec_rows()[k]).len() > 0 by {
                    if k < join_row_index - 1 {
                        assert(self.spec_rows()[k] == rows[k]);
                    } else {
                        assert(self.spec_rows()[k] == rows[k + 1]);
                    }
                }
            }
            return true;
        }
        self.shift_columns_up(&nearest);
        let ghost shifted = self.spec_rows();
        self.rows.pop();
        proof {
            assert(self.spec_rows() =~= shifted.drop_last());
            assert forall|k: int| 0 <= k < self.spec_rows().len() implies (#[trigger] self.spec_rows()[k]).len() > 0 by {
                assert(shifted[k].len() == rows[k].len());
            }
            assert forall|k: int| 0 <= k < row_index - 1 && k < self.spec_rows().len() implies #[trigger] self.spec_rows()[k] == rows[k] by {
                assert(self.spec_rows()[k] =~= rows[k]);
            }
        }
        true
    }

    /// For each column `[0, width)`, the first row at or below `h` with a
    /// horizontal line or crossing in it, and the lowest of them; `None`
    /// when a column has none.
    fn column_tops(&self, width: usize, h: usize) -> (r: Option<(Vec<usize>, usize)>)
        requires
            h < self.spec_rows().len(),
        ensures
            match r {
                Some((tops, bottom)) => {
                    &&& tops@.len() == width
                    &&& h <= bottom < self.spec_rows().len()
                    &&& bottom == spec_seq_max(tops@.map_values(|t: usize| t as int), h as int)
                    &&& forall|k: int| 0 <= k < width ==> h <= (#[trigger] tops@[k]) <= bottom
                    &&& forall|k: int| 0 <= k < width ==> (#[trigger] spec_horz_down(self.spec_rows(), k, h as int)) == Some(tops@[k] as int)
                },
                None => exists|k: int| 0 <= k < width && (#[trigger] spec_horz_down(self.spec_rows(), k, h as int)) is None,
            },
    {
        let mut tops: Vec<usize> = Vec::with_capacity(width);
        let mut bottom: usize = h;
        let mut ix_col: usize = 0;
        while ix_col < width
            invariant
                tops@.len() == ix_col,
                ix_col <= width,
                h <= bottom < self.spec_rows().len(),
                bottom == spec_seq_max(tops@.map_values(|t: usize| t as int), h as int),
                forall|k: int| 0 <= k < ix_col ==> h <= (#[trigger] tops@[k]) <= bottom,
                forall|k: int| 0 <= k < ix_col ==> (#[trigger] spec_horz_down(self.spec_rows(), k, h as int)) == Some(tops@[k] as int),
            decreases width - ix_col,
        {
            match self.search_horizontal_line_or_crossing_down(ix_col, h) {
                Some(k) => {
                    let ghost before = tops@;
                    tops.push(k);
                    proof {
                        assert(tops@.map_values(|t: usize| t as int).drop_last() =~= before.map_values(|t: usize| t as int));
                        assert(tops@.map_values(|t: usize| t as int).last() == k as int);
                    }
                    if k > bottom {
                        bottom = k;
                    }
                },
                None => return None,
            }
            ix_col += 1;
        }
        Some((tops, bottom))
    }

    /// Opens a row for a split: a row of spaces goes in at `bottom`, and in
    /// each column `k` the rows from `tops[k]` move down one, the opened glyph
    /// continuing a frame glyph above it and being a space otherwise.
    fn open_row(&mut self, row_width: usize, tops: &Vec<usize>, bottom_row_index: usize, horz_line_row_index: usize)
        requires
            old(self).wf(),
            1 <= horz_line_row_index <= bottom_row_index < old(self).spec_rows().len(),
            tops@.len() == row_width,
            row_width > 0,
            forall|k: int| 0 <= k < row_width ==> horz_line_row_index <= (#[trigger] tops@[k]) <= bottom_row_index,
        ensures
            final(self).wf(),
            final(self).spec_invalidated(),
            final(self).spec_cursor() == old(self).spec_cursor(),
            final(self).spec_rows() == spec_opened_rows(
                old(self).spec_rows().insert(bottom_row_index as int, spec_blank_row(row_width as int)),
                tops@.map_values(|t: usize| t as int), bottom_row_index as int),
            final(self).spec_rows().len() == old(self).spec_rows().len() + 1,
            forall|k: int| 0 <= k < horz_line_row_index ==> #[trigger] final(self).spec_rows()[k] == old(self).spec_rows()[k],
    {
        let ghost rows = self.spec_rows();
        let ghost all = tops@.map_values(|t: usize| t as int);
        self.size = None;
        self.rows.insert(bottom_row_index, Row::new(row_width, SPACE));
        let ghost ins = self.spec_rows();
        assert(ins =~= rows.insert(bottom_row_index as int, spec_blank_row(row_width as int)));
        proof {
            assert forall|k: int| 0 <= k < ins.len() implies (#[trigger] ins[k]).len() > 0 by {
                if k < bottom_row_index {
                    assert(ins[k] == rows[k]);
                } else if k > bottom_row_index {
                    assert(ins[k] == rows[k - 1]);
                }
            }
        }
        let n = self.rows.len();
        let mut ix_col: usize = 0;
        while ix_col < row_width
            invariant
                ix_col <= row_width,
                tops@.len() == row_width,
                all == tops@.map_values(|t: usize| t as int),
                1 <= horz_line_row_index,
                forall|k: int| 0 <= k < row_width ==> horz_line_row_index <= (#[trigger] tops@[k]) <= bottom_row_index,
                bottom_row_index < n,
                n == ins.len(),
                self.spec_rows().len() == n,
                forall|i: int| 0 <= i < n ==> (#[trigger] self.spec_rows()[i]).len() == ins[i].len(),
                forall|i: int, k: int| 0 <= i < n && 0 <= k < ins[i].len() ==>
                    #[trigger] self.spec_rows()[i][k] == spec_opened_glyph(ins, all.subrange(0, ix_col as int), bottom_row_index as int, i, k),
                self.cursor == old(self).cursor,
                self.size is None,
                spec_nonempty(ins),
            decreases row_width - ix_col,
        {
            let top_row_index = tops[ix_col];
            let ghost done = all.subrange(0, ix_col as int);
            let ghost next = all.subrange(0, ix_col + 1);
            assert(next[ix_col as int] == top_row_index as int);
            let mut ix_row = bottom_row_index;
            while ix_row > top_row_index
                invariant
                    top_row_index <= ix_row <= bottom_row_index < n,
                    1 <= top_row_index,
                    done.len() == ix_col,
                    next.len() == ix_col + 1,
                    next[ix_col as int] == top_row_index as int,
                    forall|k: int| 0 <= k < ix_col ==> #[trigger] next[k] == done[k],
                    n == ins.len(),
                    self.spec_rows().len() == n,
                    forall|i: int| 0 <= i < n ==> (#[trigger] self.spec_rows()[i]).len() == ins[i].len(),
                    forall|i: int, k: int| 0 <= i < n && 0 <= k < ins[i].len() ==>
                        #[trigger] self.spec_rows()[i][k] == if k == ix_col && ix_row < i <= bottom_row_index {
                            spec_opened_glyph(ins, next, bottom_row_index as int, i, k)
                        } else {
                            spec_opened_glyph(ins, done, bottom_row_index as int, i, k)
                        },
                    self.cursor == old(self).cursor,
                    self.size is None,
                decreases ix_row,
            {
                let ghost pre = self.spec_rows();
                self.copy_char(ix_row - 1, ix_row, ix_col);
                proof {
                    let post = self.spec_rows();
                    assert forall|i: int, k: int| 0 <= i < n && 0 <= k < ins[i].len() implies
                        #[trigger] post[i][k] == if k == ix_col && ix_row - 1 < i <= bottom_row_index {
                            spec_opened_glyph(ins, next, bottom_row_index as int, i, k)
                        } else {
                            spec_opened_glyph(ins, done, bottom_row_index as int, i, k)
                        } by {
                        if i == ix_row && k == ix_col {
                            if k < ins[i - 1].len() {
                                assert(pre[i - 1][k] == ins[i - 1][k]);
                            }
                        } else {
                            assert(post[i][k] == pre[i][k]);
                        }
                    }
                }
                ix_row -= 1;
            }
            let ghost pre = self.spec_rows();
            assert(top_row_index - 1 < top_row_index);
            proof {
                if ix_col < ins[top_row_index - 1].len() {
                    assert(pre[top_row_index - 1][ix_col as int] == ins[top_row_index - 1][ix_col as int]);
                }
            }
            let ch = match self.glyph_at(ix_col, top_row_index - 1) {
                Some(chr) => if chr.is_frame() { chr.ch } else { SPACE },
                None => SPACE,
            };
            assert(ch == spec_opening_char(ins, top_row_index - 1, ix_col as int));
            self.put_char(top_row_index, ix_col, ch);
            proof {
                let post = self.spec_rows();
                assert forall|i: int, k: int| 0 <= i < n && 0 <= k < ins[i].len() implies
                    #[trigger] post[i][k] == spec_opened_glyph(ins, next, bottom_row_index as int, i, k) by {
                    if !(i == top_row_index && k == ix_col) {
                        assert(post[i][k] == pre[i][k]);
                    }
                }
            }
            ix_col += 1;
        }
        proof {
            assert(all.subrange(0, row_width as int) =~= all);
            let target = spec_opened_rows(ins, all, bottom_row_index as int);
            assert forall|i: int| 0 <= i < n implies #[trigger] self.spec_rows()[i] == target[i] by {
                assert(self.spec_rows()[i] =~= target[i]);
            }
            assert(self.spec_rows() =~= target);
            assert forall|k: int| 0 <= k < self.spec_rows().len() implies (#[trigger] self.spec_rows()[k]).len() > 0 by {
                assert(ins[k].len() > 0);
            }
            assert forall|k: int| 0 <= k < horz_line_row_index implies #[trigger] self.spec_rows()[k] == rows[k] by {
                assert(ins[k] == rows[k]);
                assert(self.spec_rows()[k] =~= ins[k]);
            }
        }
    }

    /// Backspace. Deletes the glyph before the cursor inside its cell: the
    /// rest of the cell's text moves one column left, the cursor follows and a
    /// column made redundant is removed. At the start of a cell the line is
    /// joined with the one above (see [Plane::unsplit_line]).
    pub fn delete_char_before_cursor(&mut self) -> (r: bool)
        requires
            old(self).wf(),
        ensures
            final(self).wf(),
            spec_nonempty(final(self).spec_rows()),
            final(self).spec_rows().len() == old(self).spec_rows().len()
                || final(self).spec_rows().len() + 1 == old(self).spec_rows().len(),
            spec_frame_before(old(self).spec_rows(), old(self).spec_cursor()) ==> (r == spec_can_unsplit(old(self).spec_rows(), old(self).spec_cursor())),
            spec_frame_before(old(self).spec_rows(), old(self).spec_cursor()) && r ==> final(self).spec_rows()
                == spec_unsplit_result(old(self).spec_rows(), old(self).spec_cursor())
                && final(self).spec_cursor() == spec_unsplit_cursor(old(self).spec_rows(), old(self).spec_cursor()),
            !spec_frame_before(old(self).spec_rows(), old(self).spec_cursor()) ==> match spec_delete_before(old(self).spec_rows(), old(self).spec_cursor()) {
                Some((rows, cur)) => r && final(self).spec_rows() == rows && final(self).spec_cursor() == cur
                    && final(self).spec_invalidated(),
                None => !r && final(self).same_text(old(self)) && final(self).spec_cursor() == old(self).spec_cursor(),
            },
            !r ==> final(self).same_text(old(self)) && final(self).spec_cursor() == old(self).spec_cursor(),
    {
        let (col_index, row_index) = self.cursor.pos();
        let delete_char_index = if col_index >= 1 { col_index - 1 } else { 0 };
        if row_index >= self.rows.len() || delete_char_index >= self.rows[row_index].len() {
            return false;
        }
        let ghost rows = self.spec_rows();
        assert(rows[row_index as int] == self.rows@[row_index as int]@);
        if self.rows[row_index].glyphs[delete_char_index].is_frame() {
            return self.unsplit_line();
        }
        let vert_line_index = match self.rows[row_index].search_vert_line_right(col_index) {
            Some(v) => v,
            None => return false,
        };
        let end_index = if vert_line_index >= 1 { vert_line_index - 1 } else { 0 };
        self.size = None;
        self.rows[row_index].shift_text_left(delete_char_index, end_index);
        assert(self.spec_rows() =~= rows.update(row_index as int, spec_shift_text_left(rows[row_index as int], delete_char_index as int, end_index as int)));
        self.cursor.dec_col(1);
        self.remove_vertical_spaces(col_index, row_index);
        true
    }

    /// Moves columns `[left_index, right_index]` down one row within rows
    /// `(row_index + 1, last_row_index]`.
    fn lower_cell(&mut self, left_index: usize, right_index: usize, row_index: usize, last_row_index: usize)
        requires
            last_row_index < old(self).spec_rows().len(),
            right_index < usize::MAX,
            row_index + 1 < usize::MAX,
            left_index <= right_index + 1,
        ensures
            final(self).spec_rows() == spec_lowered_rows(old(self).spec_rows(), left_index as int, right_index + 1,
                row_index as int, last_row_index as int),
            final(self).spec_rows().len() == old(self).spec_rows().len(),
            forall|k: int| 0 <= k < old(self).spec_rows().len() ==> (#[trigger] final(self).spec_rows()[k]).len() == old(self).spec_rows()[k].len(),
            forall|k: int| 0 <= k <= row_index + 1 && k < old(self).spec_rows().len() ==> #[trigger] final(self).spec_rows()[k] == old(self).spec_rows()[k],
            final(self).spec_cursor() == old(self).spec_cursor(),
            final(self).spec_size() == old(self).spec_size(),
    {
        let ghost rows = self.spec_rows();
        let end = right_index + 1;
        let mut ix_col = left_index;
        while ix_col < end
            invariant
                left_index <= ix_col <= end,
                end == right_index + 1,
                last_row_index < rows.len(),
                row_index + 1 < usize::MAX,
                self.spec_rows().len() == rows.len(),
                forall|k: int| 0 <= k < rows.len() ==> (#[trigger] self.spec_rows()[k]).len() == rows[k].len(),
                forall|i: int, k: int| 0 <= i < rows.len() && 0 <= k < rows[i].len() ==>
                    #[trigger] self.spec_rows()[i][k] == spec_lowered_glyph(rows, left_index as int, ix_col as int,
                        row_index as int, last_row_index as int, i, k),
                self.cursor == old(self).cursor,
                self.size == old(self).size,
            decreases end - ix_col,
        {
            let mut ix_row = last_row_index;
            while ix_row > row_index + 1
                invariant
                    ix_row <= last_row_index < rows.len(),
                    row_index + 1 < usize::MAX,
                    left_index <= ix_col < end,
                    self.spec_rows().len() == rows.len(),
                    forall|k: int| 0 <= k < rows.len() ==> (#[trigger] self.spec_rows()[k]).len() == rows[k].len(),
                    forall|i: int, k: int| 0 <= i < rows.len() && 0 <= k < rows[i].len() ==>
                        #[trigger] self.spec_rows()[i][k] == if k == ix_col && ix_row < i {
                            spec_lowered_glyph(rows, left_index as int, ix_col + 1, row_index as int, last_row_index as int, i, k)
                        } else {
                            spec_lowered_glyph(rows, left_index as int, ix_col as int, row_index as int, last_row_index as int, i, k)
                        },
                    self.cursor == old(self).cursor,
                    self.size == old(self).size,
                decreases ix_row,
            {
                let ghost pre = self.spec_rows();
                self.copy_char(ix_row - 1, ix_row, ix_col);
                proof {
                    let post = self.spec_rows();
                    assert forall|i: int, k: int| 0 <= i < rows.len() && 0 <= k < rows[i].len() implies
                        #[trigger] post[i][k] == if k == ix_col && ix_row - 1 < i {
                            spec_lowered_glyph(rows, left_index as int, ix_col + 1, row_index as int, last_row_index as int, i, k)
                        } else {
                            spec_lowered_glyph(rows, left_index as int, ix_col as int, row_index as int, last_row_index as int, i, k)
                        } by {
                        if i == ix_row && k == ix_col {
                            if k < rows[i - 1].len() {
                                assert(pre[i - 1][k] == rows[i - 1][k]);
                            }
                        } else {
                            assert(post[i][k] == pre[i][k]);
                        }
                    }
                }
                ix_row -= 1;
            }
            ix_col += 1;
        }
        proof {
            let target = spec_lowered_rows(rows, left_index as int, end as int, row_index as int, last_row_index as int);
            assert forall|i: int| 0 <= i < rows.len() implies #[trigger] self.spec_rows()[i] == target[i] by {
                assert(self.spec_rows()[i] =~= target[i]);
            }
            assert(self.spec_rows() =~= target);
            assert forall|k: int| 0 <= k <= row_index + 1 && k < rows.len() implies #[trigger] self.spec_rows()[k] == rows[k] by {
                assert(self.spec_rows()[k] =~= rows[k]);
            }
        }
    }

    /// Moves the text of row `row_index` from column `col_index` to
    /// `right_index` to the start `left_index` of the cell in the next row.
    fn move_text(&mut self, row_index: usize, col_index: usize, left_index: usize, right_index: usize)
        requires
            row_index + 1 < old(self).spec_rows().len(),
            left_index <= col_index <= right_index + 1,
            right_index < old(self).spec_rows()[row_index as int].len(),
            right_index < usize::MAX,
            row_index + 1 < usize::MAX,
        ensures
            final(self).spec_rows() == spec_moved_text(old(self).spec_rows(), row_index as int, col_index as int,
                left_index as int, right_index as int),
            final(self).spec_rows().len() == old(self).spec_rows().len(),
            forall|k: int| 0 <= k < old(self).spec_rows().len() ==> (#[trigger] final(self).spec_rows()[k]).len() == old(self).spec_rows()[k].len(),
            final(self).spec_cursor() == old(self).spec_cursor(),
            final(self).spec_size() == old(self).spec_size(),
    {
        let ghost rows = self.spec_rows();
        let ghost r = row_index as int;
        let end = right_index + 1;
        let mut ix_col = col_index;
        let mut ix_col_below = left_index;
        while ix_col < end
            invariant
                col_index <= ix_col <= end,
                end == right_index + 1,
                left_index <= col_index,
                ix_col_below - left_index == ix_col - col_index,
                right_index < rows[r].len(),
                r + 1 < rows.len(),
                r == row_index,
                row_index + 1 < usize::MAX,
                self.spec_rows().len() == rows.len(),
                forall|k: int| 0 <= k < rows.len() && k != r && k != r + 1 ==> #[trigger] self.spec_rows()[k] == rows[k],
                self.spec_rows()[r].len() == rows[r].len(),
                self.spec_rows()[r + 1].len() == rows[r + 1].len(),
                forall|p: int| 0 <= p < rows[r].len() ==> #[trigger] self.spec_rows()[r][p] == if col_index <= p < ix_col {
                    Char { ch: SPACE, attributes: rows[r][p].attributes }
                } else {
                    rows[r][p]
                },
                forall|p: int| 0 <= p < rows[r + 1].len() ==> #[trigger] self.spec_rows()[r + 1][p] == if left_index <= p < ix_col_below {
                    spec_pasted_glyph(rows[r], rows[r + 1], col_index as int, left_index as int, right_index as int, p)
                } else {
                    rows[r + 1][p]
                },
                self.cursor == old(self).cursor,
                self.size == old(self).size,
            decreases end - ix_col,
        {
            let ghost pre = self.spec_rows();
            assert(pre[r][ix_col as int] == rows[r][ix_col as int]);
            let ch = match self.glyph_at(ix_col, row_index) {
                Some(chr) => chr.ch,
                None => SPACE,
            };
            self.put_char(row_index + 1, ix_col_below, ch);
            let ghost mid1 = self.spec_rows();
            self.put_char(row_index, ix_col, SPACE);
            proof {
                let post = self.spec_rows();
                assert(post[r + 1] == mid1[r + 1]);
                assert forall|k: int| 0 <= k < rows.len() && k != r && k != r + 1 implies #[trigger] post[k] == rows[k] by {
                    assert(post[k] == pre[k]);
                }
                assert forall|p: int| 0 <= p < rows[r].len() implies #[trigger] post[r][p] == if col_index <= p < ix_col + 1 {
                    Char { ch: SPACE, attributes: rows[r][p].attributes }
                } else {
                    rows[r][p]
                } by {
                    if p != ix_col {
                        assert(post[r][p] == mid1[r][p]);
                        assert(mid1[r][p] == pre[r][p]);
                    }
                }
                assert forall|p: int| 0 <= p < rows[r + 1].len() implies #[trigger] post[r + 1][p] == if left_index <= p < ix_col_below + 1 {
                    spec_pasted_glyph(rows[r], rows[r + 1], col_index as int, left_index as int, right_index as int, p)
                } else {
                    rows[r + 1][p]
                } by {
                    if p != ix_col_below {
                        assert(mid1[r + 1][p] == pre[r + 1][p]);
                    } else {
                        assert(pre[r + 1][p] == rows[r + 1][p]);
                        assert(col_index + p - left_index == ix_col);
                    }
                }
            }
            ix_col += 1;
            ix_col_below += 1;
        }
        while ix_col_below < end
            invariant
                left_index + (end - col_index) <= ix_col_below,
                end == right_index + 1,
                left_index <= col_index <= end,
                right_index < rows[r].len(),
                r + 1 < rows.len(),
                r == row_index,
                row_index + 1 < usize::MAX,
                self.spec_rows().len() == rows.len(),
                forall|k: int| 0 <= k < rows.len() && k != r && k != r + 1 ==> #[trigger] self.spec_rows()[k] == rows[k],
                self.spec_rows()[r].len() == rows[r].len(),
                self.spec_rows()[r + 1].len() == rows[r + 1].len(),
                forall|p: int| 0 <= p < rows[r].len() ==> #[trigger] self.spec_rows()[r][p] == spec_cut_glyph(rows[r], col_index as int, right_index as int, p),
                forall|p: int| 0 <= p < rows[r + 1].len() ==> #[trigger] self.spec_rows()[r + 1][p] == if left_index <= p < ix_col_below {
                    spec_pasted_glyph(rows[r], rows[r + 1], col_index as int, left_index as int, right_index as int, p)
                } else {
                    rows[r + 1][p]
                },
                self.cursor == old(self).cursor,
                self.size == old(self).size,
            decreases end - ix_col_below,
        {
            let ghost pre = self.spec_rows();
            self.put_char(row_index + 1, ix_col_below, SPACE);
            proof {
                let post = self.spec_rows();
                assert(post[r] == pre[r]);
                assert forall|k: int| 0 <= k < rows.len() && k != r && k != r + 1 implies #[trigger] post[k] == rows[k] by {
                    assert(post[k] == pre[k]);
                }
                assert forall|p: int| 0 <= p < rows[r + 1].len() implies #[trigger] post[r + 1][p] == if left_index <= p < ix_col_below + 1 {
                    spec_pasted_glyph(rows[r], rows[r + 1], col_index as int, left_index as int, right_index as int, p)
                } else {
                    rows[r + 1][p]
                } by {
                    if p != ix_col_below {
                        assert(post[r + 1][p] == pre[r + 1][p]);
                    } else {
                        assert(pre[r + 1][p] == rows[r + 1][p]);
                        assert(left_index <= p <= right_index);
                        assert(p - left_index > right_index - col_index);
                        assert(post[r + 1][p] == (Char { ch: SPACE, attributes: pre[r + 1][p].attributes }));
                        assert(spec_pasted_glyph(rows[r], rows[r + 1], col_index as int, left_index as int, right_index as int, p)
                            == (Char { ch: SPACE, attributes: rows[r + 1][p].attributes }));
                    }
                }
            }
            ix_col_below += 1;
        }
        proof {
            let target = spec_moved_text(rows, r, col_index as int, left_index as int, right_index as int);
            assert forall|k: int| 0 <= k < rows.len() implies #[trigger] self.spec_rows()[k] == target[k] by {
                if k == r || k == r + 1 {
                    assert(self.spec_rows()[k] =~= target[k]);
                }
            }
            assert(self.spec_rows() =~= target);
        }
    }

    /// The edits of a split once it is decided: the row opens (with `grow`,
    /// the column tops and their lowest), the cell moves down one row below
    /// the cursor row, and the text right of the cursor moves down.
    fn finish_split(&mut self, row_index: usize, col_index: usize, left_index: usize, right_index: usize,
        horz_line_row_index: usize, grow: &Option<(Vec<usize>, usize)>)
        requires
            old(self).wf(),
            row_index < horz_line_row_index < old(self).spec_rows().len(),
            left_index <= col_index <= right_index + 1,
            right_index < old(self).spec_rows()[row_index as int].len(),
            grow matches Some((tops, b)) ==> {
                &&& tops@.len() == old(self).spec_rows()[row_index as int].len()
                &&& horz_line_row_index <= *b < old(self).spec_rows().len()
                &&& forall|k: int| 0 <= k < tops@.len() ==> horz_line_row_index <= (#[trigger] tops@[k]) <= *b
            },
        ensures
            final(self).wf(),
            final(self).spec_invalidated(),
            final(self).spec_cursor() == old(self).spec_cursor(),
            final(self).spec_rows().len() == old(self).spec_rows().len() + if grow is Some { 1int } else { 0int },
            final(self).spec_rows() == spec_moved_text(spec_lowered_rows(
                match grow {
                    Some((tops, b)) => spec_opened_rows(old(self).spec_rows().insert(*b as int,
                        spec_blank_row(old(self).spec_rows()[row_index as int].len() as int)),
                        tops@.map_values(|t: usize| t as int), *b as int),
                    None => old(self).spec_rows(),
                }, left_index as int, right_index + 1, row_index as int,
                if grow is Some { horz_line_row_index as int } else { horz_line_row_index - 1 }),
                row_index as int, col_index as int, left_index as int, right_index as int),
    {
        let ghost rows = self.spec_rows();
        let n = self.rows.len();
        let mut last_row_index = horz_line_row_index - 1;
        assert(rows[row_index as int] == self.rows@[row_index as int]@);
        let row_width = self.rows[row_index].len();
        assert(row_index + 1 < n && right_index < row_width);
        match grow {
            Some((tops, bottom_row_index)) => {
                self.open_row(row_width, tops, *bottom_row_index, horz_line_row_index);
                last_row_index += 1;
            },
            None => {
                self.size = None;
            },
        }
        let ghost grown = self.spec_rows();
        assert(grown[row_index as int] == rows[row_index as int]);
        self.lower_cell(left_index, right_index, row_index, last_row_index);
        let ghost lowered = self.spec_rows();
        self.move_text(row_index, col_index, left_index, right_index);
        proof {
            assert forall|k: int| 0 <= k < self.spec_rows().len() implies (#[trigger] self.spec_rows()[k]).len() > 0 by {
                assert(lowered[k].len() == grown[k].len());
            }
        }
    }

    /// Splits the line at the cursor inside its cell: the text right of the
    /// cursor moves to a new line below it. When the last line of the cell
    /// is taken (or is the cursor line) the table grows by one row, each
    /// column opening a row just above its next horizontal line. The
    /// cursor goes to the start of the new line.
    #[verifier::rlimit(100)]
    pub fn split_line(&mut self) -> (r: bool)
        requires
            old(self).wf(),
        ensures
            final(self).wf(),
            r == spec_can_split(old(self).spec_rows(), old(self).spec_cursor()),
            r ==> final(self).spec_rows() == spec_split_rows(old(self).spec_rows(), old(self).spec_cursor()),
            r ==> final(self).spec_cursor() == (Cursor {
                column: match spec_cell_range(old(self).spec_rows()[old(self).spec_cursor().row as int],
                    old(self).spec_cursor().column as int) {
                    Some((left, _)) => left as usize,
                    None => 0,
                },
                row: (old(self).spec_cursor().row + 1) as usize,
                ..old(self).spec_cursor()
            }),
            r ==> final(self).spec_invalidated(),
            r ==> final(self).spec_rows().len() == old(self).spec_rows().len()
                + if spec_split_grows(old(self).spec_rows(), old(self).spec_cursor()) { 1int } else { 0int },
            !r ==> final(self).same_text(old(self)) && final(self).spec_cursor() == old(self).spec_cursor(),
    {
        let (col_index, row_index) = self.cursor.pos();
        if row_index >= self.rows.len() {
            return false;
        }
        let ghost rows = self.spec_rows();
        let ghost cur = self.cursor;
        let horz_line_row_index = match self.search_horizontal_line_or_crossing_down(col_index, row_index) {
            Some(h) => h,
            None => return false,
        };
        if horz_line_row_index <= row_index {
            return false;
        }
        assert(rows[row_index as int] == self.rows@[row_index as int]@);
        let (left_index, right_index) = match self.rows[row_index].cell_range(col_index) {
            Some(range) => range,
            None => return false,
        };
        let last_row_index = horz_line_row_index - 1;
        assert(rows[last_row_index as int] == self.rows@[last_row_index as int]@);
        if right_index >= self.rows[last_row_index].len() {
            return false;
        }
        let is_empty = self.rows[last_row_index].is_empty_range(left_index, right_index);
        let row_width = self.rows[row_index].len();
        proof {
            let grows = spec_split_grows(rows, cur);
            if is_empty && row_index != last_row_index {
                if grows {
                    let i = choose|i: int| left_index <= i <= right_index && #[trigger] rows[last_row_index as int][i].ch != SPACE;
                    assert(rows[last_row_index as int][i].ch == SPACE);
                }
            }
            assert(grows == (!is_empty || row_index == last_row_index));
        }
        let ghost tops_int = spec_tops(rows, horz_line_row_index as int, row_width as int);
        let grow = if !is_empty || row_index == last_row_index {
            match self.column_tops(row_width, horz_line_row_index) {
                Some(found) => Some(found),
                None => {
                    assert(rows[row_index as int].len() == row_width);
                    return false;
                },
            }
        } else {
            None
        };
        proof {
            if let Some((tops, _)) = &grow {
                assert(tops@.map_values(|t: usize| t as int) =~= tops_int);
            }
        }
        self.finish_split(row_index, col_index, left_index, right_index, horz_line_row_index, &grow);
        self.cursor.set(left_index, row_index + 1);
        proof {
            reveal(spec_split_rows);
        }
        true
    }
}

} // verus!
