//! The controller: a plane, the viewport that follows its cursor, and the
//! [Updates] reported for each operation.

use vstd::prelude::*;
use crate::characters::Char;
use crate::cursor::{spec_toggle_caret_block, spec_toggle_caret_under_score, Cursor, CursorShape};
use crate::plane::{
    spec_after_toggle, spec_arrow_move, spec_can_split, spec_cell_end, spec_cell_start, spec_col_end_row,
    spec_col_start_row, spec_delete_under, spec_glyph_at, spec_insert, spec_override, Plane,
};
use crate::region::{sat_add, sat_sub, Region};
use crate::row::{first_from, last_before, non_frame, Row};
use crate::updates::Updates;

verus! {

/// The viewport after it follows the cursor at `(col, row)` with the given
/// margins, and whether it moved. The first direction that needs a shift
/// (left, right, up, down) is the only one applied.
pub open spec fn spec_follow(v: Region, col: usize, row: usize, left: usize, right: usize, top: usize, bottom: usize) -> (Region, bool) {
    if sat_sub(col, left) < v.left {
        (Region { left: sat_sub(col, left), ..v }, true)
    } else if sat_add(col, right) > v.spec_right() {
        (Region { left: sat_add(v.left, (sat_add(col, right) - v.spec_right()) as usize), ..v }, true)
    } else if sat_sub(row, top) < v.top {
        (Region { top: sat_sub(row, top), ..v }, true)
    } else if sat_add(row, bottom) > v.spec_bottom() {
        (Region { top: sat_add(v.top, (sat_add(row, bottom) - v.spec_bottom()) as usize), ..v }, true)
    } else {
        (v, false)
    }
}


/// An optional extension, zero when absent.
pub open spec fn spec_ext(e: Option<usize>) -> int {
    match e {
        Some(x) => x as int,
        None => 0,
    }
}

/// The number of rows of content in the viewport.
pub open spec fn spec_visible_rows(rows: Seq<Seq<Char>>, v: Region) -> int {
    if v.top < rows.len() {
        if rows.len() - v.top < v.height { rows.len() - v.top } else { v.height as int }
    } else {
        0
    }
}

/// The number of glyphs of viewport row `i` that show content.
pub open spec fn spec_visible_len(rows: Seq<Seq<Char>>, v: Region, i: int) -> int {
    let len = rows[v.top + i].len();
    if i < spec_visible_rows(rows, v) && v.left < len {
        if len - v.left < v.width { len - v.left } else { v.width as int }
    } else {
        0
    }
}

/// The number of cells reported for viewport row `i`.
pub open spec fn spec_row_cells_len(rows: Seq<Seq<Char>>, v: Region, fill: Option<Char>, ext_w: int, i: int) -> int {
    let count = spec_visible_len(rows, v, i);
    match fill {
        Some(_) => if i < spec_visible_rows(rows, v) {
            if count > v.width + ext_w { count } else { v.width + ext_w }
        } else {
            v.width as int
        },
        None => count,
    }
}

/// The number of viewport rows reported.
pub open spec fn spec_cells_rows(rows: Seq<Seq<Char>>, v: Region, fill: Option<Char>, ext_h: int) -> int {
    let vis = spec_visible_rows(rows, v);
    if fill is Some {
        if vis > v.height + ext_h { vis } else { v.height + ext_h }
    } else {
        vis
    }
}

/// Cell `k` of viewport row `i`: content while there is some, fill after.
pub open spec fn spec_cell(rows: Seq<Seq<Char>>, v: Region, fill: Option<Char>, i: int, k: int) -> (usize, usize, Char) {
    if k < spec_visible_len(rows, v, i) {
        (k as usize, i as usize, rows[v.top + i][v.left + k])
    } else {
        (k as usize, i as usize, fill->0)
    }
}

/// The cells of the first `m` viewport rows, row by row.
pub open spec fn spec_cells(rows: Seq<Seq<Char>>, v: Region, fill: Option<Char>, ext_w: int, ext_h: int, m: int) -> Seq<(usize, usize, Char)>
    decreases m,
{
    if m <= 0 {
        Seq::empty()
    } else {
        spec_cells(rows, v, fill, ext_w, ext_h, m - 1)
            + Seq::new(spec_row_cells_len(rows, v, fill, ext_w, m - 1) as nat, |k: int| spec_cell(rows, v, fill, m - 1, k))
    }
}

/// Handler of navigation and edit operations on a decision table.
pub struct Controller {
    /// The edited table.
    plane: Plane,
    /// The visible part of the plane.
    viewport: Region,
    margin_left: usize,
    margin_right: usize,
    margin_top: usize,
    margin_bottom: usize,
}

impl Controller {
    /// The plane.
    pub closed spec fn spec_plane(&self) -> Plane {
        self.plane
    }

    /// The rows of the plane.
    pub open spec fn spec_rows(&self) -> Seq<Seq<Char>> {
        self.spec_plane().spec_rows()
    }

    /// The cursor.
    pub open spec fn spec_cursor(&self) -> Cursor {
        self.spec_plane().spec_cursor()
    }

    /// The viewport.
    pub closed spec fn spec_viewport(&self) -> Region {
        self.viewport
    }

    /// The margins `(left, right, top, bottom)` kept around the cursor.
    pub closed spec fn spec_margins(&self) -> (usize, usize, usize, usize) {
        (self.margin_left, self.margin_right, self.margin_top, self.margin_bottom)
    }

    /// The plane is well formed; in particular no row is empty, which every
    /// operation keeps.
    pub open spec fn wf(&self) -> bool {
        &&& crate::plane::spec_nonempty(self.spec_rows())
        &&& self.spec_plane().wf()
    }

    /// The viewport of `f` followed its cursor from that of `o`, and `r`
    /// reports the change of the cursor and of the viewport, and `changed`
    /// as the content change.
    pub open spec fn spec_reported(o: &Controller, f: &Controller, r: Updates, changed: bool) -> bool {
        let c = f.spec_cursor();
        let m = o.spec_margins();
        let follow = spec_follow(o.spec_viewport(), c.column, c.row, m.0, m.1, m.2, m.3);
        &&& f.spec_viewport() == follow.0
        &&& f.spec_margins() == m
        &&& r == (Updates {
            cursor_pos_changed: c.column != o.spec_cursor().column || c.row != o.spec_cursor().row,
            cursor_shape_changed: c.shape != o.spec_cursor().shape,
            viewport_pos_changed: follow.1,
            viewport_size_changed: false,
            content_changed: changed,
        })
    }

    /// Nothing changed and nothing is reported.
    pub open spec fn spec_unchanged(o: &Controller, f: &Controller, r: Updates) -> bool {
        &&& f.spec_rows() == o.spec_rows()
        &&& f.spec_cursor() == o.spec_cursor()
        &&& f.spec_viewport() == o.spec_viewport()
        &&& f.spec_margins() == o.spec_margins()
        &&& r == Updates::none()
    }

    /// A cursor move to `target`, or none: reported as such.
    pub open spec fn spec_moved_to(o: &Controller, f: &Controller, r: Updates, target: Option<Cursor>) -> bool {
        match target {
            Some(c) => f.spec_rows() == o.spec_rows() && f.spec_cursor() == c && Self::spec_reported(o, f, r, false),
            None => Self::spec_unchanged(o, f, r),
        }
    }

    /// The outcome of [Controller::cursor_move_left] from `o` to `f`.
    pub open spec fn spec_move_left(o: &Controller, f: &Controller, r: Updates) -> bool {
        &&& Self::spec_moved_to(o, f, r, spec_arrow_move(o.spec_rows(), o.spec_cursor(), -1, 0))
    }

    /// The outcome of [Controller::cursor_move_right] from `o` to `f`.
    pub open spec fn spec_move_right(o: &Controller, f: &Controller, r: Updates) -> bool {
        &&& Self::spec_moved_to(o, f, r, spec_arrow_move(o.spec_rows(), o.spec_cursor(), 1, 0))
    }

    /// The outcome of [Controller::cursor_move_up] from `o` to `f`.
    pub open spec fn spec_move_up(o: &Controller, f: &Controller, r: Updates) -> bool {
        &&& Self::spec_moved_to(o, f, r, spec_arrow_move(o.spec_rows(), o.spec_cursor(), 0, -1))
    }

    /// The outcome of [Controller::cursor_move_down] from `o` to `f`.
    pub open spec fn spec_move_down(o: &Controller, f: &Controller, r: Updates) -> bool {
        &&& Self::spec_moved_to(o, f, r, spec_arrow_move(o.spec_rows(), o.spec_cursor(), 0, 1))
    }

    /// The outcome of [Controller::cursor_move_cell_start] from `o` to `f`.
    pub open spec fn spec_move_cell_start(o: &Controller, f: &Controller, r: Updates) -> bool {
        &&& Self::spec_moved_to(o, f, r, match spec_cell_start(o.spec_rows(), o.spec_cursor()) {
            Some(k) => Some(Cursor { column: k as usize, ..o.spec_cursor() }),
            None => None
        })
    }

    /// The outcome of [Controller::cursor_move_cell_end] from `o` to `f`.
    pub open spec fn spec_move_cell_end(o: &Controller, f: &Controller, r: Updates) -> bool {
        &&& Self::spec_moved_to(o, f, r, match spec_cell_end(o.spec_rows(), o.spec_cursor()) {
            Some(k) => Some(Cursor { column: k as usize, ..o.spec_cursor() }),
            None => None
        })
    }

    /// The outcome of [Controller::cursor_move_cell_top] from `o` to `f`.
    pub open spec fn spec_move_cell_top(o: &Controller, f: &Controller, r: Updates) -> bool {
        &&& f.spec_rows() == o.spec_rows()
        &&& f.spec_cursor().column == o.spec_cursor().column
        &&& f.spec_cursor().shape == o.spec_cursor().shape
        &&& f.spec_cursor().row <= o.spec_cursor().row
        &&& forall|k: int| f.spec_cursor().row <= k < o.spec_cursor().row ==>
            #[trigger] crate::plane::spec_passable(o.spec_rows(), o.spec_cursor().column as int, k)
        &&& f.spec_cursor().row == 0 || !crate::plane::spec_passable(o.spec_rows(),
            o.spec_cursor().column as int, f.spec_cursor().row - 1)
        &&& if f.spec_cursor().row != o.spec_cursor().row {
            Self::spec_reported(o, f, r, false)
        } else {
            Self::spec_unchanged(o, f, r)
        }
    }

    /// The outcome of [Controller::cursor_move_cell_bottom] from `o` to `f`.
    pub open spec fn spec_move_cell_bottom(o: &Controller, f: &Controller, r: Updates) -> bool {
        &&& f.spec_rows() == o.spec_rows()
        &&& f.spec_cursor().column == o.spec_cursor().column
        &&& f.spec_cursor().shape == o.spec_cursor().shape
        &&& f.spec_cursor().row >= o.spec_cursor().row
        &&& forall|k: int| o.spec_cursor().row < k <= f.spec_cursor().row ==>
            #[trigger] crate::plane::spec_passable(o.spec_rows(), o.spec_cursor().column as int, k)
        &&& !crate::plane::spec_passable(o.spec_rows(), o.spec_cursor().column as int,
            f.spec_cursor().row + 1)
        &&& if f.spec_cursor().row != o.spec_cursor().row {
            Self::spec_reported(o, f, r, false)
        } else {
            Self::spec_unchanged(o, f, r)
        }
    }

    /// The outcome of [Controller::cursor_move_cell_next] from `o` to `f`.
    pub open spec fn spec_move_cell_next(o: &Controller, f: &Controller, r: Updates) -> bool {
        &&& Self::spec_moved_to(o, f, r, match spec_cell_end(o.spec_rows(), o.spec_cursor()) {
            Some(e) => Some(Cursor {
                column: match first_from(o.spec_rows()[o.spec_cursor().row as int], e + 1, non_frame()) {
                    Some(h) => h as usize,
                    None => e as usize,
                },
                ..o.spec_cursor()
            }),
            None => None
        })
    }

    /// The outcome of [Controller::cursor_move_cell_prev] from `o` to `f`.
    pub open spec fn spec_move_cell_prev(o: &Controller, f: &Controller, r: Updates) -> bool {
        &&& Self::spec_moved_to(o, f, r, match spec_cell_start(o.spec_rows(), o.spec_cursor()) {
            Some(b) => Some(Cursor {
                column: match last_before(o.spec_rows()[o.spec_cursor().row as int], b, non_frame()) {
                    Some(g) => if o.spec_cursor().shape == CursorShape::Caret { (g + 1) as usize } else { g as usize },
                    None => b as usize,
                },
                ..o.spec_cursor()
            }),
            None => None
        })
    }

    /// The outcome of [Controller::cursor_move_row_start] from `o` to `f`.
    pub open spec fn spec_move_row_start(o: &Controller, f: &Controller, r: Updates) -> bool {
        &&& f.spec_rows() == o.spec_rows()
        &&& ({
            let c = o.spec_cursor();
            let rows = o.spec_rows();
            if 0 < c.row && c.row + 1 < rows.len() && first_from(rows[c.row as int], 0, non_frame()) is Some
                && first_from(rows[c.row as int], 0, non_frame())->0 != c.column {
                f.spec_cursor() == (Cursor { column: first_from(rows[c.row as int], 0, non_frame())->0 as usize, ..c })
                    && Self::spec_reported(o, f, r, false)
            } else {
                Self::spec_unchanged(o, f, r)
            }
        })
    }

    /// The outcome of [Controller::cursor_move_row_end] from `o` to `f`.
    pub open spec fn spec_move_row_end(o: &Controller, f: &Controller, r: Updates) -> bool {
        &&& f.spec_rows() == o.spec_rows()
        &&& ({
            let c = o.spec_cursor();
            let rows = o.spec_rows();
            let last = last_before(rows[c.row as int], rows[c.row as int].len() as int, non_frame());
            let k = if c.shape == CursorShape::Caret { last->0 + 1 } else { last->0 };
            if 0 < c.row && c.row + 1 < rows.len() && last is Some && k != c.column {
                f.spec_cursor() == (Cursor { column: k as usize, ..c })
                    && Self::spec_reported(o, f, r, false)
            } else {
                Self::spec_unchanged(o, f, r)
            }
        })
    }

    /// The outcome of [Controller::cursor_move_col_start] from `o` to `f`.
    pub open spec fn spec_move_col_start(o: &Controller, f: &Controller, r: Updates) -> bool {
        &&& f.spec_rows() == o.spec_rows()
        &&& f.spec_cursor() == match spec_col_start_row(o.spec_rows(), o.spec_cursor().shape,
            o.spec_cursor().column as int) {
            Some(k) => Cursor { row: k as usize, ..o.spec_cursor() },
            None => o.spec_cursor()
        }
        &&& if f.spec_cursor() != o.spec_cursor() {
            Self::spec_reported(o, f, r, false)
        } else {
            Self::spec_unchanged(o, f, r)
        }
    }

    /// The outcome of [Controller::cursor_move_col_end] from `o` to `f`.
    pub open spec fn spec_move_col_end(o: &Controller, f: &Controller, r: Updates) -> bool {
        &&& f.spec_rows() == o.spec_rows()
        &&& f.spec_cursor() == match spec_col_end_row(o.spec_rows(), o.spec_cursor().shape,
            o.spec_cursor().column as int) {
            Some(k) => Cursor { row: k as usize, ..o.spec_cursor() },
            None => o.spec_cursor()
        }
        &&& if f.spec_cursor() != o.spec_cursor() {
            Self::spec_reported(o, f, r, false)
        } else {
            Self::spec_unchanged(o, f, r)
        }
    }

    /// The outcome of [Controller::cursor_toggle_caret_block] from `o` to `f`.
    pub open spec fn spec_toggle_caret_block(o: &Controller, f: &Controller) -> bool {
        &&& f.spec_rows() == o.spec_rows()
        &&& f.spec_viewport() == o.spec_viewport()
        &&& f.spec_margins() == o.spec_margins()
        &&& f.spec_cursor() == spec_after_toggle(o.spec_rows(),
            Cursor { shape: spec_toggle_caret_block(o.spec_cursor().shape), ..o.spec_cursor() })
    }

    /// The outcome of [Controller::cursor_toggle_caret_under_score] from `o` to `f`.
    pub open spec fn spec_toggle_caret_under_score(o: &Controller, f: &Controller) -> bool {
        &&& f.spec_rows() == o.spec_rows()
        &&& f.spec_viewport() == o.spec_viewport()
        &&& f.spec_margins() == o.spec_margins()
        &&& f.spec_cursor() == spec_after_toggle(o.spec_rows(),
            Cursor { shape: spec_toggle_caret_under_score(o.spec_cursor().shape), ..o.spec_cursor() })
    }

    /// The outcome of [Controller::insert_char] from `o` to `f`.
    pub open spec fn spec_insert_char(o: &Controller, f: &Controller, r: Updates, ch: char) -> bool {
        &&& match (if o.spec_cursor().shape == CursorShape::Caret {
            spec_insert(o.spec_rows(), o.spec_cursor(), ch)
        } else {
            spec_override(o.spec_rows(), o.spec_cursor(), ch)
        }) {
            Some((rows, cur)) => f.spec_rows() == rows && f.spec_cursor() == cur
                && Self::spec_reported(o, f, r, true),
            None => Self::spec_unchanged(o, f, r)
        }
    }

    /// The outcome of [Controller::split_line] from `o` to `f`.
    pub open spec fn spec_split_line(o: &Controller, f: &Controller, r: Updates) -> bool {
        &&& r.content_changed == spec_can_split(o.spec_rows(), o.spec_cursor())
        &&& r.content_changed ==> f.spec_rows() == crate::plane::spec_split_rows(o.spec_rows(), o.spec_cursor())
            && Self::spec_reported(o, f, r, true)
        &&& !r.content_changed ==> Self::spec_unchanged(o, f, r)
    }

    /// The outcome of [Controller::delete_char_before_cursor] from `o` to `f`.
    pub open spec fn spec_delete_char_before_cursor(o: &Controller, f: &Controller, r: Updates) -> bool {
        &&& !crate::plane::spec_frame_before(o.spec_rows(), o.spec_cursor()) ==> match crate::plane::spec_delete_before(o.spec_rows(), o.spec_cursor()) {
            Some((rows, cur)) => f.spec_rows() == rows && f.spec_cursor() == cur,
            None => f.spec_rows() == o.spec_rows() && f.spec_cursor() == o.spec_cursor()
        }
        &&& crate::plane::spec_frame_before(o.spec_rows(), o.spec_cursor()) ==>
            r.content_changed == crate::plane::spec_can_unsplit(o.spec_rows(), o.spec_cursor())
        &&& crate::plane::spec_frame_before(o.spec_rows(), o.spec_cursor()) && r.content_changed ==>
            f.spec_rows() == crate::plane::spec_unsplit_result(o.spec_rows(), o.spec_cursor())
            && f.spec_cursor() == crate::plane::spec_unsplit_cursor(o.spec_rows(), o.spec_cursor())
        &&& r.content_changed ==> Self::spec_reported(o, f, r, true)
        &&& !r.content_changed ==> Self::spec_unchanged(o, f, r)
    }

    /// The outcome of [Controller::delete_char_under_cursor] from `o` to `f`.
    pub open spec fn spec_delete_char_under_cursor(o: &Controller, f: &Controller, r: Updates) -> bool {
        &&& match spec_delete_under(o.spec_rows(), o.spec_cursor()) {
            Some((rows, cur)) => f.spec_rows() == rows && f.spec_cursor() == cur
                && Self::spec_reported(o, f, r, true),
            None => Self::spec_unchanged(o, f, r)
        }
    }

    /// Creates a controller over the table read from `content` (see
    /// [Plane::new]); the viewport is the content region, the margins are 1
    /// left and top and 2 right and bottom.
    pub fn new(content: &str) -> (r: Controller)
        ensures
            r.wf(),
            r.spec_rows() == Plane::new_rows(content@),
            r.spec_cursor() == (Cursor { shape: CursorShape::Caret, column: 1, row: 1 }),
            r.spec_viewport() == (Region { left: 0, top: 0, width: crate::plane::spec_max_len(r.spec_rows()) as usize,
                height: r.spec_rows().len() as usize }),
            r.spec_margins() == (1usize, 2usize, 1usize, 2usize),
    {
        let mut plane = Plane::new(content);
        let viewport = plane.region();
        Controller { plane, viewport, margin_left: 1, margin_right: 2, margin_top: 1, margin_bottom: 2 }
    }

    /// Replaces the viewport with `(0, 0, width, height)`.
    pub fn with_viewport(self, width: usize, height: usize) -> (r: Controller)
        requires
            self.wf(),
        ensures
            r.wf(),
            r.spec_plane() == self.spec_plane(),
            r.spec_viewport() == (Region { left: 0, top: 0, width, height }),
            r.spec_margins() == self.spec_margins(),
    {
        Controller { viewport: Region::new(0, 0, width, height), ..self }
    }

    /// Replaces the margins kept around the cursor.
    pub fn with_margins(self, top: usize, right: usize, bottom: usize, left: usize) -> (r: Controller)
        requires
            self.wf(),
        ensures
            r.wf(),
            r.spec_plane() == self.spec_plane(),
            r.spec_viewport() == self.spec_viewport(),
            r.spec_margins() == (left, right, top, bottom),
    {
        Controller { margin_left: left, margin_right: right, margin_top: top, margin_bottom: bottom, ..self }
    }

    /// Returns the viewport.
    pub fn viewport(&self) -> (r: &Region)
        ensures
            *r == self.spec_viewport(),
    {
        &self.viewport
    }

    /// Returns the cursor.
    pub fn cursor(&self) -> (r: &Cursor)
        ensures
            *r == self.spec_cursor(),
    {
        self.plane.cursor()
    }

    /// Returns the rows.
    pub fn content(&self) -> (r: &[Row])
        ensures
            r@.map_values(|row: Row| row@) == self.spec_rows(),
    {
        self.plane.content()
    }

    /// Returns the content region `(0, 0, longest row, number of rows)`.
    pub fn content_region(&mut self) -> (r: Region)
        requires
            old(self).wf(),
        ensures
            final(self).wf(),
            r == (Region { left: 0, top: 0, width: crate::plane::spec_max_len(old(self).spec_rows()) as usize,
                height: old(self).spec_rows().len() as usize }),
            final(self).spec_rows() == old(self).spec_rows(),
            final(self).spec_cursor() == old(self).spec_cursor(),
            final(self).spec_viewport() == old(self).spec_viewport(),
            final(self).spec_margins() == old(self).spec_margins(),
    {
        self.plane.region()
    }

    /// Returns the character under the cursor.
    pub fn cursor_char(&self) -> (r: Option<char>)
        ensures
            r == match spec_glyph_at(self.spec_rows(), self.spec_cursor().column as int, self.spec_cursor().row as int) {
                Some(g) => Some(g.ch),
                None => None::<char>,
            },
    {
        match self.plane.cursor_char() {
            Some(chr) => Some(chr.ch),
            None => None,
        }
    }

    /// Lets the viewport follow the cursor and reports what changed since
    /// the cursor was `cursor_before`.
    fn updates(&mut self, cursor_before: Cursor, changed: bool) -> (r: Updates)
        ensures
            final(self).plane == old(self).plane,
            ({
                let c = old(self).spec_cursor();
                let m = old(self).spec_margins();
                let follow = spec_follow(old(self).spec_viewport(), c.column, c.row, m.0, m.1, m.2, m.3);
                &&& final(self).spec_viewport() == follow.0
                &&& final(self).spec_margins() == m
                &&& r == (Updates {
                    cursor_pos_changed: c.column != cursor_before.column || c.row != cursor_before.row,
                    cursor_shape_changed: c.shape != cursor_before.shape,
                    viewport_pos_changed: follow.1,
                    viewport_size_changed: false,
                    content_changed: changed,
                })
            }),
    {
        let cursor = *self.plane.cursor();
        let viewport_pos = self.viewport.shift_left_when_needed(cursor.column, self.margin_left)
            || self.viewport.shift_right_when_needed(cursor.column, self.margin_right)
            || self.viewport.shift_up_when_needed(cursor.row, self.margin_top)
            || self.viewport.shift_down_when_needed(cursor.row, self.margin_bottom);
        Updates {
            cursor_pos_changed: cursor.column != cursor_before.column || cursor.row != cursor_before.row,
            cursor_shape_changed: cursor.shape != cursor_before.shape,
            viewport_pos_changed: viewport_pos,
            viewport_size_changed: false,
            content_changed: changed,
        }
    }

    /// Resizes the viewport; it then follows the cursor. The updates report
    /// whether the size changed and whether the viewport moved.
    pub fn resize(&mut self, width: usize, height: usize) -> (r: Updates)
        requires
            old(self).wf(),
        ensures
            final(self).wf(),
            final(self).spec_plane() == old(self).spec_plane(),
            ({
                let c = old(self).spec_cursor();
                let m = old(self).spec_margins();
                let follow = spec_follow(Region { width, height, ..old(self).spec_viewport() }, c.column, c.row, m.0, m.1, m.2, m.3);
                &&& final(self).spec_viewport() == follow.0
                &&& r == (Updates {
                    cursor_pos_changed: false,
                    cursor_shape_changed: false,
                    viewport_pos_changed: follow.1,
                    viewport_size_changed: width != old(self).spec_viewport().width || height != old(self).spec_viewport().height,
                    content_changed: false,
                })
            }),
    {
        let cursor_before = *self.plane.cursor();
        let size_changed = width != self.viewport.width || height != self.viewport.height;
        self.viewport.resize(width, height);
        self.updates(cursor_before, false).with_viewport_size(size_changed)
    }

    /// Moves the cursor one column left, or two when one is not legal.
    pub fn cursor_move_left(&mut self) -> (r: Updates)
        requires
            old(self).wf(),
        ensures
            final(self).wf(),
            Self::spec_move_left(old(self), final(self), r),
    {
        let cursor_before = *self.plane.cursor();
        if self.plane.cursor_move_left() {
            self.updates(cursor_before, false)
        } else {
            Updates::new()
        }
    }

    /// Moves the cursor one column right, or two when one is not legal.
    pub fn cursor_move_right(&mut self) -> (r: Updates)
        requires
            old(self).wf(),
        ensures
            final(self).wf(),
            Self::spec_move_right(old(self), final(self), r),
    {
        let cursor_before = *self.plane.cursor();
        if self.plane.cursor_move_right() {
            self.updates(cursor_before, false)
        } else {
            Updates::new()
        }
    }

    /// Moves the cursor one row up, or two when one is not legal.
    pub fn cursor_move_up(&mut self) -> (r: Updates)
        requires
            old(self).wf(),
        ensures
            final(self).wf(),
            Self::spec_move_up(old(self), final(self), r),
    {
        let cursor_before = *self.plane.cursor();
        if self.plane.cursor_move_up() {
            self.updates(cursor_before, false)
        } else {
            Updates::new()
        }
    }

    /// Moves the cursor one row down, or two when one is not legal.
    pub fn cursor_move_down(&mut self) -> (r: Updates)
        requires
            old(self).wf(),
        ensures
            final(self).wf(),
            Self::spec_move_down(old(self), final(self), r),
    {
        let cursor_before = *self.plane.cursor();
        if self.plane.cursor_move_down() {
            self.updates(cursor_before, false)
        } else {
            Updates::new()
        }
    }

    /// Moves the cursor to the start of its cell.
    pub fn cursor_move_cell_start(&mut self) -> (r: Updates)
        requires
            old(self).wf(),
        ensures
            final(self).wf(),
            Self::spec_move_cell_start(old(self), final(self), r),
    {
        let cursor_before = *self.plane.cursor();
        if self.plane.cursor_move_cell_start() {
            self.updates(cursor_before, false)
        } else {
            Updates::new()
        }
    }

    /// Moves the cursor to the end of its cell.
    pub fn cursor_move_cell_end(&mut self) -> (r: Updates)
        requires
            old(self).wf(),
        ensures
            final(self).wf(),
            Self::spec_move_cell_end(old(self), final(self), r),
    {
        let cursor_before = *self.plane.cursor();
        if self.plane.cursor_move_cell_end() {
            self.updates(cursor_before, false)
        } else {
            Updates::new()
        }
    }

    /// Moves the cursor up to the top of its cell.
    pub fn cursor_move_cell_top(&mut self) -> (r: Updates)
        requires
            old(self).wf(),
        ensures
            final(self).wf(),
            Self::spec_move_cell_top(old(self), final(self), r),
    {
        let cursor_before = *self.plane.cursor();
        if self.plane.cursor_move_cell_top() {
            self.updates(cursor_before, false)
        } else {
            Updates::new()
        }
    }

    /// Moves the cursor down to the bottom of its cell.
    pub fn cursor_move_cell_bottom(&mut self) -> (r: Updates)
        requires
            old(self).wf(),
        ensures
            final(self).wf(),
            Self::spec_move_cell_bottom(old(self), final(self), r),
    {
        let cursor_before = *self.plane.cursor();
        if self.plane.cursor_move_cell_bottom() {
            self.updates(cursor_before, false)
        } else {
            Updates::new()
        }
    }

    /// Moves the cursor to the first non-frame glyph of the next cell.
    pub fn cursor_move_cell_next(&mut self) -> (r: Updates)
        requires
            old(self).wf(),
        ensures
            final(self).wf(),
            Self::spec_move_cell_next(old(self), final(self), r),
    {
        let cursor_before = *self.plane.cursor();
        if self.plane.cursor_move_cell_next() {
            self.updates(cursor_before, false)
        } else {
            Updates::new()
        }
    }

    /// Moves the cursor to the end of the previous cell.
    pub fn cursor_move_cell_prev(&mut self) -> (r: Updates)
        requires
            old(self).wf(),
        ensures
            final(self).wf(),
            Self::spec_move_cell_prev(old(self), final(self), r),
    {
        let cursor_before = *self.plane.cursor();
        if self.plane.cursor_move_cell_prev() {
            self.updates(cursor_before, false)
        } else {
            Updates::new()
        }
    }

    /// Moves the cursor to the first non-frame glyph of its row.
    pub fn cursor_move_row_start(&mut self) -> (r: Updates)
        requires
            old(self).wf(),
        ensures
            final(self).wf(),
            Self::spec_move_row_start(old(self), final(self), r),
    {
        let cursor_before = *self.plane.cursor();
        if self.plane.cursor_move_row_start() {
            self.updates(cursor_before, false)
        } else {
            Updates::new()
        }
    }

    /// Moves the cursor to the end of the last non-frame glyph of its row.
    pub fn cursor_move_row_end(&mut self) -> (r: Updates)
        requires
            old(self).wf(),
        ensures
            final(self).wf(),
            Self::spec_move_row_end(old(self), final(self), r),
    {
        let cursor_before = *self.plane.cursor();
        if self.plane.cursor_move_row_end() {
            self.updates(cursor_before, false)
        } else {
            Updates::new()
        }
    }

    /// Moves the cursor to the top-most row where its column may stop.
    pub fn cursor_move_col_start(&mut self) -> (r: Updates)
        requires
            old(self).wf(),
        ensures
            final(self).wf(),
            Self::spec_move_col_start(old(self), final(self), r),
    {
        let cursor_before = *self.plane.cursor();
        self.plane.cursor_move_col_start();
        if self.plane.cursor().row != cursor_before.row {
            self.updates(cursor_before, false)
        } else {
            Updates::new()
        }
    }

    /// Moves the cursor to the bottom-most row where its column may stop.
    pub fn cursor_move_col_end(&mut self) -> (r: Updates)
        requires
            old(self).wf(),
        ensures
            final(self).wf(),
            Self::spec_move_col_end(old(self), final(self), r),
    {
        let cursor_before = *self.plane.cursor();
        self.plane.cursor_move_col_end();
        if self.plane.cursor().row != cursor_before.row {
            self.updates(cursor_before, false)
        } else {
            Updates::new()
        }
    }

    /// Toggles the cursor between caret and block (see [Plane::cursor_toggle_caret_block]).
    pub fn cursor_toggle_caret_block(&mut self)
        requires
            old(self).wf(),
        ensures
            final(self).wf(),
            Self::spec_toggle_caret_block(old(self), final(self)),
    {
        self.plane.cursor_toggle_caret_block();
    }

    /// Toggles the cursor between caret and underscore (see [Plane::cursor_toggle_caret_under_score]).
    pub fn cursor_toggle_caret_under_score(&mut self)
        requires
            old(self).wf(),
        ensures
            final(self).wf(),
            Self::spec_toggle_caret_under_score(old(self), final(self)),
    {
        self.plane.cursor_toggle_caret_under_score();
    }

    /// Types `ch`: inserted with a caret (see [Plane::insert_char]), written
    /// over the glyph under a block or underscore (see [Plane::override_char]).
    pub fn insert_char(&mut self, ch: char) -> (r: Updates)
        requires
            old(self).wf(),
        ensures
            final(self).wf(),
            Self::spec_insert_char(old(self), final(self), r, ch),
    {
        let cursor_before = *self.plane.cursor();
        let changed = if cursor_before.insert_mode() {
            self.plane.insert_char(ch)
        } else {
            self.plane.override_char(ch)
        };
        if changed {
            self.updates(cursor_before, true)
        } else {
            Updates::new()
        }
    }

    /// Splits the line at the cursor (see [Plane::split_line]).
    #[verifier::rlimit(50)]
    pub fn split_line(&mut self) -> (r: Updates)
        requires
            old(self).wf(),
        ensures
            final(self).wf(),
            Self::spec_split_line(old(self), final(self), r),
    {
        let cursor_before = *self.plane.cursor();
        if self.plane.split_line() {
            self.updates(cursor_before, true)
        } else {
            Updates::new()
        }
    }

    /// Backspace (see [Plane::delete_char_before_cursor]).
    pub fn delete_char_before_cursor(&mut self) -> (r: Updates)
        requires
            old(self).wf(),
        ensures
            final(self).wf(),
            Self::spec_delete_char_before_cursor(old(self), final(self), r),
    {
        let cursor_before = *self.plane.cursor();
        if self.plane.delete_char_before_cursor() {
            self.updates(cursor_before, true)
        } else {
            Updates::new()
        }
    }

    /// Delete (see [Plane::delete_char_under_cursor]).
    pub fn delete_char_under_cursor(&mut self) -> (r: Updates)
        requires
            old(self).wf(),
        ensures
            final(self).wf(),
            Self::spec_delete_char_under_cursor(old(self), final(self), r),
    {
        let cursor_before = *self.plane.cursor();
        if self.plane.delete_char_under_cursor() {
            self.updates(cursor_before, true)
        } else {
            Updates::new()
        }
    }


    /// The visible cells, row by row, as `(column, row, glyph)` in viewport
    /// coordinates: the glyphs of the rows clipped by the viewport; with
    /// `fill`, each of those rows completed with the fill glyph up to the
    /// viewport width plus `ext_width`, then rows of fill glyphs as wide as
    /// the viewport up to its height plus `ext_height`.
    pub fn visible_cells(&self, fill: Option<Char>, ext_width: Option<usize>, ext_height: Option<usize>) -> (r: Vec<(usize, usize, Char)>)
        requires
            self.spec_viewport().width + spec_ext(ext_width) <= usize::MAX,
            self.spec_viewport().height + spec_ext(ext_height) <= usize::MAX,
        ensures
            r@ == spec_cells(self.spec_rows(), self.spec_viewport(), fill, spec_ext(ext_width), spec_ext(ext_height),
                spec_cells_rows(self.spec_rows(), self.spec_viewport(), fill, spec_ext(ext_height))),
    {
        let left = self.viewport.left;
        let top = self.viewport.top;
        let width = self.viewport.width;
        let height = self.viewport.height;
        let ext_w: usize = match ext_width { Some(e) => e, None => 0 };
        let ext_h: usize = match ext_height { Some(e) => e, None => 0 };
        let ghost rows = self.spec_rows();
        let ghost v = self.viewport;
        let ghost total = spec_cells_rows(rows, v, fill, ext_h as int);
        let n = self.plane.content().len();
        let visible_rows: usize = if top < n { if n - top < height { n - top } else { height } } else { 0 };
        let all_rows: usize = if fill.is_some() { if visible_rows > height + ext_h { visible_rows } else { height + ext_h } } else { visible_rows };
        assert(all_rows == total);
        let mut out: Vec<(usize, usize, Char)> = Vec::new();
        let mut i: usize = 0;
        while i < all_rows
            invariant
                i <= all_rows,
                all_rows == total,
                rows == self.spec_rows(),
                v == self.viewport,
                left == v.left && top == v.top && width == v.width && height == v.height,
                ext_w == spec_ext(ext_width),
                ext_h == spec_ext(ext_height),
                n == rows.len(),
                visible_rows == spec_visible_rows(rows, v),
                width + ext_w <= usize::MAX,
                out@ == spec_cells(rows, v, fill, ext_w as int, ext_h as int, i as int),
            decreases all_rows - i,
        {
            let ghost before = out@;
            let count = if i < visible_rows {
                let row = &self.plane.content()[top + i];
                assert(row@ == rows[top + i]);
                let len = row.glyphs.len();
                let vis: usize = if left < len { if len - left < width { len - left } else { width } } else { 0 };
                let mut j: usize = 0;
                while j < vis
                    invariant
                        j <= vis,
                        vis == spec_visible_len(rows, v, i as int),
                        len == row@.len(),
                        vis == 0 || left + vis <= len,
                        row@ == rows[top + i],
                        left == v.left && top == v.top,
                        i < visible_rows,
                        visible_rows == spec_visible_rows(rows, v),
                        out@ == before + Seq::new(j as nat, |k: int| spec_cell(rows, v, fill, i as int, k)),
                    decreases vis - j,
                {
                    out.push((j, i, row.glyphs[left + j]));
                    j += 1;
                    assert(out@ =~= before + Seq::new(j as nat, |k: int| spec_cell(rows, v, fill, i as int, k)));
                }
                vis
            } else {
                0
            };
            let row_total: usize = match fill {
                Some(_) => if i < visible_rows { if count > width + ext_w { count } else { width + ext_w } } else { width },
                None => count,
            };
            assert(row_total == spec_row_cells_len(rows, v, fill, ext_w as int, i as int));
            let mut j: usize = count;
            while j < row_total
                invariant
                    count <= j <= row_total,
                    count == spec_visible_len(rows, v, i as int),
                    count < row_total ==> fill is Some,
                    out@ == before + Seq::new(j as nat, |k: int| spec_cell(rows, v, fill, i as int, k)),
                decreases row_total - j,
            {
                if let Some(chr) = fill {
                    out.push((j, i, chr));
                }
                j += 1;
                assert(out@ =~= before + Seq::new(j as nat, |k: int| spec_cell(rows, v, fill, i as int, k)));
            }
            i += 1;
            assert(out@ =~= spec_cells(rows, v, fill, ext_w as int, ext_h as int, i as int));
        }
        out
    }

    /// Calls `f(column, row, glyph)` for each visible cell, in the order of
    /// [Controller::visible_cells].
    pub fn visit_visible_content<F: Fn(usize, usize, &Char)>(&self, f: F, fill: Option<Char>, ext_width: Option<usize>, ext_height: Option<usize>)
        requires
            forall|c: usize, r: usize, g: &Char| #[trigger] f.requires((c, r, g)),
            self.spec_viewport().width + spec_ext(ext_width) <= usize::MAX,
            self.spec_viewport().height + spec_ext(ext_height) <= usize::MAX,
    {
        let cells = self.visible_cells(fill, ext_width, ext_height);
        let mut k: usize = 0;
        while k < cells.len()
            invariant
                forall|c: usize, r: usize, g: &Char| #[trigger] f.requires((c, r, g)),
            decreases cells@.len() - k,
        {
            let (c, r, g) = cells[k];
            f(c, r, &g);
            k += 1;
        }
    }
}

} // verus!
