//! Tracking whether the terminal is large enough to show the editor.

use vstd::prelude::*;

verus! {

/// Minimal terminal width.
pub const MIN_TERMINAL_WIDTH: usize = 30;

/// Minimal terminal height.
pub const MIN_TERMINAL_HEIGHT: usize = 10;

/// The terminal size state, with its last transition.
#[derive(Copy, Clone, Debug, PartialEq, Eq, Structural)]
pub enum SizeStateChange {
    /// Large enough, and it was before.
    Normal,
    /// Too small, and it was before.
    Small,
    /// Has just become large enough.
    IntoNormal,
    /// Has just become too small.
    IntoSmall,
}

/// The size is below the minimum in one of its dimensions.
pub open spec fn spec_is_small(width: usize, height: usize) -> bool {
    width < MIN_TERMINAL_WIDTH || height < MIN_TERMINAL_HEIGHT
}

/// The state after a resize to a size that is small or not.
pub open spec fn spec_next(change: SizeStateChange, small: bool) -> SizeStateChange {
    if small {
        match change {
            SizeStateChange::Small | SizeStateChange::IntoSmall => SizeStateChange::Small,
            _ => SizeStateChange::IntoSmall,
        }
    } else {
        match change {
            SizeStateChange::Normal | SizeStateChange::IntoNormal => SizeStateChange::Normal,
            _ => SizeStateChange::IntoNormal,
        }
    }
}

/// Tracks the terminal size against its minimum.
pub struct SizeState {
    /// The last transition.
    pub change: SizeStateChange,
}

impl SizeState {
    /// The state for the initial size: just become small or normal.
    pub fn new(width: usize, height: usize) -> (r: SizeState)
        ensures
            r.change == if spec_is_small(width, height) { SizeStateChange::IntoSmall } else { SizeStateChange::IntoNormal },
    {
        SizeState {
            change: if width < MIN_TERMINAL_WIDTH || height < MIN_TERMINAL_HEIGHT {
                SizeStateChange::IntoSmall
            } else {
                SizeStateChange::IntoNormal
            },
        }
    }

    /// Records a resize.
    pub fn resize(&mut self, width: usize, height: usize)
        ensures
            final(self).change == spec_next(old(self).change, spec_is_small(width, height)),
    {
        self.change = if width < MIN_TERMINAL_WIDTH || height < MIN_TERMINAL_HEIGHT {
            match self.change {
                SizeStateChange::Small => SizeStateChange::Small,
                SizeStateChange::IntoSmall => SizeStateChange::Small,
                _ => SizeStateChange::IntoSmall,
            }
        } else {
            match self.change {
                SizeStateChange::Normal => SizeStateChange::Normal,
                SizeStateChange::IntoNormal => SizeStateChange::Normal,
                _ => SizeStateChange::IntoNormal,
            }
        };
    }

    /// Returns the last transition.
    pub fn change(&self) -> (r: SizeStateChange)
        ensures
            r == self.change,
    {
        self.change
    }
}

} // verus!
