//! Properties that relate several operations, proved over their contracts.

use vstd::prelude::*;
use crate::characters::{spec_is_frame, spec_is_vert_line_left, Char, SPACE};
use crate::cursor::{spec_toggle_caret_block, Cursor, CursorShape};
use crate::plane::{
    spec_caret_may_type, spec_spare_space,
    spec_arrow_move, spec_delete_before, spec_insert, spec_is_allowed, spec_join_coherent, spec_join_row_info,
    spec_moved, spec_override, spec_remove_vertical_spaces, spec_update_join,
};
use crate::row::{is_first_from, lemma_first_from_unique, spec_shift_text_left, spec_shift_text_right,
    spec_vert_line_right, vll};

verus! {

/// Adjusting the join line `j` leaves it coherent with the row above: under
/// a single vertical line each of its glyphs continues that line upwards,
/// elsewhere none does.
pub proof fn law_update_join_coherent(rows: Seq<Seq<Char>>, j: int, full: bool)
    requires
        1 <= j < rows.len(),
    ensures
        spec_join_coherent(spec_update_join(rows, Some((j, full))), j),
{
    let res = spec_update_join(rows, Some((j, full)));
    assert(res[j - 1] == rows[j - 1]);
}

/// After a deletion, the join line is coherent with the row above it.
pub proof fn law_remove_vertical_spaces_join_coherent(rows: Seq<Seq<Char>>, col: int, r: int, j: int, full: bool)
    requires
        0 <= r < rows.len(),
        spec_vert_line_right(rows[r], col) is Some,
        spec_join_row_info(rows) == Some((j, full)),
        1 <= j < rows.len(),
    ensures
        spec_join_coherent(spec_remove_vertical_spaces(rows, col, r), j),
{
    let n = rows.len() as int;
    let v = spec_vert_line_right(rows[r], col)->0;
    let own = if r < j { (0, j) } else { (j, n) };
    let other = if r < j { (j, n) } else { (0, j) };
    let first = if crate::plane::spec_all_ws(rows, own.0, own.1, v) { crate::plane::spec_delete_rows(rows, own.0, own.1, v) } else { rows };
    let second = if full && crate::plane::spec_all_ws(rows, other.0, other.1, v) {
        crate::plane::spec_delete_rows(first, other.0, other.1, v)
    } else {
        first
    };
    assert(second.len() == rows.len());
    assert(spec_remove_vertical_spaces(rows, col, r) == spec_update_join(second, Some((j, full))));
    law_update_join_coherent(second, j, full);
}

/// Inserting into a full cell widens the table and leaves the join line
/// coherent with the row above it.
pub proof fn law_insert_join_coherent(rows: Seq<Seq<Char>>, cur: Cursor, ch: char, j: int, full: bool)
    requires
        (cur.row as int) < rows.len(),
        spec_caret_may_type(rows[cur.row as int], cur.column as int),
        (cur.row as int) != j,
        spec_vert_line_right(rows[cur.row as int], cur.column as int) matches Some(v)
            && !spec_spare_space(rows[cur.row as int], cur.column as int, v),
        spec_join_row_info(rows) == Some((j, full)),
        1 <= j < rows.len(),
    ensures
        spec_insert(rows, cur, ch) matches Some((res, _)) && spec_join_coherent(res, j),
{
    let r = cur.row as int;
    let col = cur.column as int;
    let v = spec_vert_line_right(rows[r], col)->0;
    let info = spec_join_row_info(rows);
    let range = crate::plane::spec_fill_range(info, r, rows.len() as int);
    let filled = crate::plane::spec_fill_rows(rows, range.0, range.1, v);
    let shifted = filled.update(r, spec_shift_text_right(filled[r], col, v, ch));
    let moved = Cursor { column: (col + 1) as usize, ..cur };
    assert(spec_insert(rows, cur, ch) == Some((spec_update_join(shifted, info), moved)));
    law_update_join_coherent(shifted, j, full);
}

/// Toggling between caret and block twice gives back a caret or a block.
/// (An underscore becomes a block, then a caret.)
pub proof fn law_toggle_caret_block_twice(s: CursorShape)
    requires
        s != CursorShape::UnderScore,
    ensures
        spec_toggle_caret_block(spec_toggle_caret_block(s)) == s,
{
}

/// An arrow move only ever lands on a legal position.
pub proof fn law_arrow_move_legal(rows: Seq<Seq<Char>>, c: Cursor, dc: int, dr: int)
    ensures
        spec_arrow_move(rows, c, dc, dr) matches Some(n) ==> spec_is_allowed(rows, n.shape, n.column as int, n.row as int),
{
}

/// From a legal position, a one-column move right followed by a move left
/// brings the cursor back.
pub proof fn law_right_then_left(rows: Seq<Seq<Char>>, c: Cursor)
    requires
        c.column < usize::MAX,
        spec_is_allowed(rows, c.shape, c.column as int, c.row as int),
        spec_is_allowed(rows, c.shape, c.column + 1, c.row as int),
    ensures
        spec_arrow_move(rows, c, 1, 0) == Some(spec_moved(c, 1, 0)),
        spec_arrow_move(rows, spec_moved(c, 1, 0), -1, 0) == Some(c),
{
    let one = spec_moved(c, 1, 0);
    assert(one.column == c.column + 1);
    assert(spec_moved(one, -1, 0) == c);
}

/// Overriding at a left vertical line changes nothing.
pub proof fn law_override_on_line(rows: Seq<Seq<Char>>, cur: Cursor, ch: char)
    requires
        (cur.row as int) < rows.len(),
        (cur.column as int) < rows[cur.row as int].len(),
        spec_is_vert_line_left(rows[cur.row as int][cur.column as int].ch),
    ensures
        spec_override(rows, cur, ch) is None,
{
    let s = rows[cur.row as int];
    let col = cur.column as int;
    assert(is_first_from(s, col, col, vll()));
    lemma_first_from_unique(s, col, col, vll());
}

/// Typing `ch` into a cell that has a spare space before its right vertical
/// line, then deleting it with Backspace, gives back the rows and the cursor,
/// provided the deletion finds no column to remove.
pub proof fn law_insert_then_delete(rows: Seq<Seq<Char>>, cur: Cursor, ch: char)
    requires
        (cur.row as int) < rows.len(),
        cur.column < usize::MAX,
        !spec_is_frame(ch),
        spec_caret_may_type(rows[cur.row as int], cur.column as int),
        !crate::plane::spec_on_join_row(rows, cur.row as int),
        spec_vert_line_right(rows[cur.row as int], cur.column as int) matches Some(v)
            && spec_spare_space(rows[cur.row as int], cur.column as int, v),
        spec_remove_vertical_spaces(rows, cur.column + 1, cur.row as int) == rows,
    ensures
        spec_insert(rows, cur, ch) matches Some((rows1, cur1)) && spec_delete_before(rows1, cur1) == Some((rows, cur)),
{
    let r = cur.row as int;
    let col = cur.column as int;
    let s = rows[r];
    let v = spec_vert_line_right(s, col)->0;
    crate::row::lemma_vert_line_right_is_first(s, col);
    crate::row::lemma_shift_right_then_left(s, col, v, ch);
    let t = spec_shift_text_right(s, col, v - 1, ch);
    let rows1 = rows.update(r, t);
    let cur1 = Cursor { column: (col + 1) as usize, ..cur };
    assert(spec_insert(rows, cur, ch) == Some((rows1, cur1)));
    assert(rows1[r] == t);
    assert(rows1.update(r, spec_shift_text_left(t, col, v - 1)) =~= rows);
    assert(crate::plane::spec_text_before(rows1, cur1));
    assert(spec_vert_line_right(rows1[r], cur1.column as int) == Some(v));
    assert((Cursor { column: col as usize, ..cur1 }) == cur);
    assert(spec_delete_before(rows1, cur1) == Some((rows, cur)));
}

} // verus!

verus! {

/// The glyph classes a caret may rest on survive the adjustment of a join line.
proof fn lemma_update_join_keeps_caret_glyphs(rows: Seq<Seq<Char>>, info: Option<(int, bool)>, row: int, col: int)
    requires
        0 <= row < rows.len(),
        0 <= col < rows[row].len(),
        !spec_is_frame(rows[row][col].ch) || spec_is_vert_line_left(rows[row][col].ch),
    ensures
        spec_update_join(rows, info).len() == rows.len(),
        spec_update_join(rows, info)[row].len() == rows[row].len(),
        !spec_is_frame(spec_update_join(rows, info)[row][col].ch) || spec_is_vert_line_left(spec_update_join(rows, info)[row][col].ch),
        forall|k: int| 0 <= k < rows.len() ==> (#[trigger] spec_update_join(rows, info)[k]).len() == rows[k].len(),
{
}

/// Inserting with a caret on a legal position leaves the caret on a legal position.
pub proof fn law_insert_keeps_caret_legal(rows: Seq<Seq<Char>>, cur: Cursor, ch: char)
    requires
        cur.shape == CursorShape::Caret,
        cur.column < usize::MAX,
        spec_is_allowed(rows, cur.shape, cur.column as int, cur.row as int),
        spec_insert(rows, cur, ch) is Some,
    ensures
        spec_insert(rows, cur, ch) matches Some((res, c)) && spec_is_allowed(res, c.shape, c.column as int, c.row as int),
{
    let r = cur.row as int;
    let col = cur.column as int;
    let s = rows[r];
    crate::row::lemma_vert_line_right_is_first(s, col);
    let v = spec_vert_line_right(s, col)->0;
    assert(is_first_from(s, col, v, vll()));
    assert(col < v ==> !spec_is_frame(s[col].ch));
    let sp = if v >= 1 { v - 1 } else { 0 };
    if col <= sp && rows[r][sp].ch == SPACE {
        let t = spec_shift_text_right(s, col, sp, ch);
        if col < sp {
            assert(t[col + 1] == s[col]);
        } else {
            assert(t[col + 1] == s[v]);
        }
    } else {
        let info = spec_join_row_info(rows);
        let range = crate::plane::spec_fill_range(info, r, rows.len() as int);
        let filled = crate::plane::spec_fill_rows(rows, range.0, range.1, v);
        assert(range.0 <= r < range.1);
        crate::row::lemma_insert_fill_at_line(s, v);
        let f = filled[r];
        assert(f == s.insert(v, crate::row::spec_fill_glyph(s[v])));
        let t = spec_shift_text_right(f, col, v, ch);
        let shifted = filled.update(r, t);
        assert(t.len() == s.len() + 1);
        if col < v {
            assert(t[col + 1] == f[col]);
            assert(f[col] == s[col]);
        } else {
            assert(t[col + 1] == f[col + 1]);
            assert(f[col + 1] == s[v]);
        }
        assert forall|k: int| 0 <= k < rows.len() implies (#[trigger] filled[k]).len() >= rows[k].len() by {
            if range.0 <= k < range.1 {
                crate::row::lemma_insert_fill_len(rows[k], v);
            }
        }
        lemma_update_join_keeps_caret_glyphs(shifted, info, r, col + 1);
    }
}

} // verus!

verus! {

/// Typing on a frame glyph changes nothing: a caret inserts only on a
/// non-frame glyph or just left of a left vertical line, a block or an
/// underscore overrides only a non-frame glyph.
pub proof fn law_typing_on_frame_changes_nothing(rows: Seq<Seq<Char>>, cur: Cursor, ch: char)
    requires
        (cur.row as int) < rows.len(),
        (cur.column as int) < rows[cur.row as int].len(),
        spec_is_frame(rows[cur.row as int][cur.column as int].ch),
    ensures
        spec_override(rows, cur, ch) is None,
        !spec_is_vert_line_left(rows[cur.row as int][cur.column as int].ch) ==> spec_insert(rows, cur, ch) is None,
{
}

} // verus!
