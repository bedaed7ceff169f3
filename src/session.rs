//! An editing session: the decisions an interactive host makes for each
//! key or resize event, without the terminal itself.

use vstd::prelude::*;
use crate::controller::Controller;
use crate::region::Region;
use crate::updates::Updates;

verus! {

/// Terminal width below which the screen is locked.
pub const MINIMAL_TERMINAL_WIDTH: usize = 40;

/// Terminal height below which the screen is locked.
pub const MINIMAL_TERMINAL_HEIGHT: usize = 10;

/// An input event.
#[derive(Debug, Copy, Clone, PartialEq, Eq)]
pub enum Trigger {
    AltLeft,
    AltInsert,
    Backspace,
    CtrlEnd,
    CtrlHome,
    CtrlInsert,
    CtrlPageDown,
    CtrlPageUp,
    Delete,
    Down,
    End,
    Exit,
    Enter,
    F1,
    Home,
    Insert,
    Left,
    PageDown,
    PageUp,
    Right,
    Up,
    ShiftEnd,
    ShiftHome,
    ShiftInsert,
    ShiftLeft,
    ShiftPageDown,
    ShiftPageUp,
    ShiftTab,
    Tab,
    Char(char),
    Resize(usize, usize),
}

/// What the host has to show after an event.
#[derive(Debug, Copy, Clone, PartialEq, Eq, Structural)]
pub enum Effect {
    /// Nothing.
    Nothing,
    /// Leave the editor.
    Exit,
    /// The terminal is too small: show that the screen is locked.
    Squeezed,
    /// Show the whole viewport again; `clear` first when the screen was locked.
    Repaint { clear: bool },
    /// Move the terminal cursor only.
    MoveCursor,
    /// Change the shape of the terminal cursor and move it.
    ChangeShape,
    /// Show the help.
    Help,
}

/// What the host shows for the updates of an operation: the viewport again
/// when it moved or the content changed, else the cursor when it moved.
pub open spec fn spec_effect_of(u: Updates) -> Effect {
    if u.viewport_pos_changed || u.content_changed {
        Effect::Repaint { clear: false }
    } else if u.cursor_pos_changed {
        Effect::MoveCursor
    } else {
        Effect::Nothing
    }
}

/// The outcome of a key from `o` to `f` in an unlocked session: the key's
/// controller operation, and what the host shows for its updates.
pub open spec fn spec_unlocked_step(o: Controller, f: Controller, t: Trigger, r: Effect) -> bool {
    match t {
        Trigger::AltInsert => Controller::spec_toggle_caret_under_score(&o, &f) && r == Effect::ChangeShape,
        Trigger::Insert => Controller::spec_toggle_caret_block(&o, &f) && r == Effect::ChangeShape,
        Trigger::Backspace => exists|u: Updates| Controller::spec_delete_char_before_cursor(&o, &f, u) && r == #[trigger] spec_effect_of(u),
        Trigger::Delete => exists|u: Updates| Controller::spec_delete_char_under_cursor(&o, &f, u) && r == #[trigger] spec_effect_of(u),
        Trigger::Char(ch) => exists|u: Updates| Controller::spec_insert_char(&o, &f, u, ch) && r == #[trigger] spec_effect_of(u),
        Trigger::Enter => exists|u: Updates| Controller::spec_split_line(&o, &f, u) && r == #[trigger] spec_effect_of(u),
        Trigger::CtrlEnd | Trigger::ShiftEnd => exists|u: Updates| Controller::spec_move_row_end(&o, &f, u) && r == #[trigger] spec_effect_of(u),
        Trigger::CtrlHome | Trigger::ShiftHome => exists|u: Updates| Controller::spec_move_row_start(&o, &f, u) && r == #[trigger] spec_effect_of(u),
        Trigger::CtrlPageDown => exists|u: Updates| Controller::spec_move_col_end(&o, &f, u) && r == #[trigger] spec_effect_of(u),
        Trigger::CtrlPageUp => exists|u: Updates| Controller::spec_move_col_start(&o, &f, u) && r == #[trigger] spec_effect_of(u),
        Trigger::Down => exists|u: Updates| Controller::spec_move_down(&o, &f, u) && r == #[trigger] spec_effect_of(u),
        Trigger::Up => exists|u: Updates| Controller::spec_move_up(&o, &f, u) && r == #[trigger] spec_effect_of(u),
        Trigger::Left => exists|u: Updates| Controller::spec_move_left(&o, &f, u) && r == #[trigger] spec_effect_of(u),
        Trigger::Right => exists|u: Updates| Controller::spec_move_right(&o, &f, u) && r == #[trigger] spec_effect_of(u),
        Trigger::End => exists|u: Updates| Controller::spec_move_cell_end(&o, &f, u) && r == #[trigger] spec_effect_of(u),
        Trigger::Home => exists|u: Updates| Controller::spec_move_cell_start(&o, &f, u) && r == #[trigger] spec_effect_of(u),
        Trigger::PageDown => exists|u: Updates| Controller::spec_move_cell_bottom(&o, &f, u) && r == #[trigger] spec_effect_of(u),
        Trigger::PageUp => exists|u: Updates| Controller::spec_move_cell_top(&o, &f, u) && r == #[trigger] spec_effect_of(u),
        Trigger::Tab => exists|u: Updates| Controller::spec_move_cell_next(&o, &f, u) && r == #[trigger] spec_effect_of(u),
        Trigger::ShiftTab => exists|u: Updates| Controller::spec_move_cell_prev(&o, &f, u) && r == #[trigger] spec_effect_of(u),
        Trigger::F1 => f == o && r == Effect::Help,
        _ => f == o && r == Effect::Nothing,
    }
}

/// An editing session over a controller.
pub struct Session {
    controller: Controller,
    locked: bool,
}

impl Session {
    /// The controller.
    pub closed spec fn spec_controller(&self) -> Controller {
        self.controller
    }

    /// The screen is locked because the terminal is too small.
    pub closed spec fn spec_locked(&self) -> bool {
        self.locked
    }

    /// The controller is well formed.
    pub open spec fn wf(&self) -> bool {
        self.spec_controller().wf()
    }

    /// Starts a session over the table read from `text`; the screen is
    /// locked until the first resize tells the terminal size.
    pub fn new(text: &str) -> (r: Session)
        ensures
            r.wf(),
            r.spec_locked(),
            r.spec_controller().spec_rows() == crate::plane::Plane::new_rows(text@),
    {
        Session { controller: Controller::new(text), locked: true }
    }

    /// The controller.
    pub fn controller(&self) -> (r: &Controller)
        ensures
            *r == self.spec_controller(),
    {
        &self.controller
    }

    /// Returns `true` while the screen is locked.
    pub fn is_locked(&self) -> (r: bool)
        ensures
            r == self.spec_locked(),
    {
        self.locked
    }

    fn effect_of(updates: Updates) -> (r: Effect)
        ensures
            r == spec_effect_of(updates),
    {
        if updates.viewport_pos_changed || updates.content_changed {
            Effect::Repaint { clear: false }
        } else if updates.cursor_pos_changed {
            Effect::MoveCursor
        } else {
            Effect::Nothing
        }
    }

    /// The outcome of [Session::resize] from `o` to `f`.
    pub open spec fn spec_resized(o: &Session, f: &Session, width: usize, height: usize, r: Effect) -> bool {
        &&& f.spec_controller().spec_rows() == o.spec_controller().spec_rows()
        &&& f.spec_controller().spec_cursor() == o.spec_controller().spec_cursor()
        &&& if width < MINIMAL_TERMINAL_WIDTH || height < MINIMAL_TERMINAL_HEIGHT {
            &&& f.spec_locked()
            &&& r == Effect::Squeezed
            &&& f.spec_controller().spec_viewport().width == if width > MINIMAL_TERMINAL_WIDTH { width } else { MINIMAL_TERMINAL_WIDTH }
            &&& f.spec_controller().spec_viewport().height == if height > MINIMAL_TERMINAL_HEIGHT { height } else { MINIMAL_TERMINAL_HEIGHT }
        } else {
            &&& !f.spec_locked()
            &&& r == (Effect::Repaint { clear: o.spec_locked() })
            &&& f.spec_controller().spec_viewport().width == width
            &&& f.spec_controller().spec_viewport().height == height
        }
    }

    /// Adapts to a terminal of `width` by `height`: below the minimal size
    /// the viewport takes the minimal size and the screen locks; otherwise
    /// the viewport takes the size and the screen unlocks.
    pub fn resize(&mut self, width: usize, height: usize) -> (r: Effect)
        requires
            old(self).wf(),
        ensures
            final(self).wf(),
            Self::spec_resized(old(self), final(self), width, height, r),
    {
        if width < MINIMAL_TERMINAL_WIDTH || height < MINIMAL_TERMINAL_HEIGHT {
            let w = if width > MINIMAL_TERMINAL_WIDTH { width } else { MINIMAL_TERMINAL_WIDTH };
            let h = if height > MINIMAL_TERMINAL_HEIGHT { height } else { MINIMAL_TERMINAL_HEIGHT };
            self.controller.resize(w, h);
            self.locked = true;
            Effect::Squeezed
        } else {
            let was_locked = self.locked;
            self.controller.resize(width, height);
            self.locked = false;
            Effect::Repaint { clear: was_locked }
        }
    }

    /// Handles one event. `Exit` always leaves. While the screen is locked
    /// only a resize is handled. Otherwise each key runs its operation: arrows
    /// move, Home/End go to the cell start/end, Ctrl-Home/Ctrl-End to the row
    /// start/end (Shift-Home/Shift-End as well), Ctrl-PageUp/Ctrl-PageDown to the column start/end,
    /// PageUp/PageDown to the cell top/bottom, Tab/Shift-Tab to the next and
    /// previous cell, Insert and Alt-Insert toggle the cursor shape, Enter
    /// splits the line, Backspace and Delete delete, a character is typed;
    /// a resize keeps one terminal row for the host.
    pub fn step(&mut self, trigger: Trigger) -> (r: Effect)
        requires
            old(self).wf(),
        ensures
            final(self).wf(),
            trigger == Trigger::Exit ==> r == Effect::Exit && final(self).spec_controller() == old(self).spec_controller(),
            old(self).spec_locked() && trigger != Trigger::Exit && !(trigger is Resize) ==> r == Effect::Nothing
                && final(self).spec_controller() == old(self).spec_controller() && final(self).spec_locked(),
            trigger matches Trigger::Resize(w, h) ==> Self::spec_resized(old(self), final(self), w,
                if old(self).spec_locked() || h == 0 { h } else { (h - 1) as usize }, r),
            !old(self).spec_locked() && trigger != Trigger::Exit && !(trigger is Resize) ==> !final(self).spec_locked()
                && spec_unlocked_step(old(self).spec_controller(), final(self).spec_controller(), trigger, r),
    {
        if let Trigger::Exit = trigger {
            return Effect::Exit;
        }
        if self.locked {
            if let Trigger::Resize(width, height) = trigger {
                return self.resize(width, height);
            }
            return Effect::Nothing;
        }
        match trigger {
            Trigger::AltInsert => {
                self.controller.cursor_toggle_caret_under_score();
                Effect::ChangeShape
            },
            Trigger::Insert => {
                self.controller.cursor_toggle_caret_block();
                Effect::ChangeShape
            },
            Trigger::Backspace => Self::effect_of(self.controller.delete_char_before_cursor()),
            Trigger::Delete => Self::effect_of(self.controller.delete_char_under_cursor()),
            Trigger::Char(ch) => Self::effect_of(self.controller.insert_char(ch)),
            Trigger::Enter => Self::effect_of(self.controller.split_line()),
            Trigger::CtrlEnd | Trigger::ShiftEnd => Self::effect_of(self.controller.cursor_move_row_end()),
            Trigger::CtrlHome | Trigger::ShiftHome => Self::effect_of(self.controller.cursor_move_row_start()),
            Trigger::CtrlPageDown => Self::effect_of(self.controller.cursor_move_col_end()),
            Trigger::CtrlPageUp => Self::effect_of(self.controller.cursor_move_col_start()),
            Trigger::Down => Self::effect_of(self.controller.cursor_move_down()),
            Trigger::Up => Self::effect_of(self.controller.cursor_move_up()),
            Trigger::Left => Self::effect_of(self.controller.cursor_move_left()),
            Trigger::Right => Self::effect_of(self.controller.cursor_move_right()),
            Trigger::End => Self::effect_of(self.controller.cursor_move_cell_end()),
            Trigger::Home => Self::effect_of(self.controller.cursor_move_cell_start()),
            Trigger::PageDown => Self::effect_of(self.controller.cursor_move_cell_bottom()),
            Trigger::PageUp => Self::effect_of(self.controller.cursor_move_cell_top()),
            Trigger::Tab => Self::effect_of(self.controller.cursor_move_cell_next()),
            Trigger::ShiftTab => Self::effect_of(self.controller.cursor_move_cell_prev()),
            Trigger::F1 => Effect::Help,
            Trigger::Resize(width, height) => self.resize(width, if height >= 1 { height - 1 } else { 0 }),
            _ => Effect::Nothing,
        }
    }
}

} // verus!
