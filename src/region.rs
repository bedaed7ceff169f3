//! Rectangular regions of the plane.

use vstd::prelude::*;

verus! {

/// `a + b`, saturating at `usize::MAX`.
pub open spec fn sat_add(a: usize, b: usize) -> usize {
    if a + b > usize::MAX { usize::MAX } else { (a + b) as usize }
}

/// `a - b`, saturating at zero.
pub open spec fn sat_sub(a: usize, b: usize) -> usize {
    if a >= b { (a - b) as usize } else { 0 }
}

/// The decimal digits of `n`.
pub open spec fn spec_decimal(n: nat) -> Seq<char>
    decreases n,
{
    if n < 10 {
        seq![spec_digit(n)]
    } else {
        spec_decimal(n / 10) + seq![spec_digit(n % 10)]
    }
}

/// The decimal digit for `d < 10`.
pub open spec fn spec_digit(d: nat) -> char {
    if d == 0 { '0' } else if d == 1 { '1' } else if d == 2 { '2' } else if d == 3 { '3' } else if d == 4 { '4' }
    else if d == 5 { '5' } else if d == 6 { '6' } else if d == 7 { '7' } else if d == 8 { '8' } else { '9' }
}

/// `(left, top, width, height)` written with decimal numbers.
pub open spec fn spec_rect_text(l: usize, t: usize, w: usize, h: usize) -> Seq<char> {
    seq!['('] + spec_decimal(l as nat) + seq![',', ' '] + spec_decimal(t as nat) + seq![',', ' ']
        + spec_decimal(w as nat) + seq![',', ' '] + spec_decimal(h as nat) + seq![')']
}

/// The decimal digit for `d < 10`.
fn digit(d: usize) -> (r: char)
    requires
        d < 10,
    ensures
        r == spec_digit(d as nat),
{
    if d == 0 { '0' } else if d == 1 { '1' } else if d == 2 { '2' } else if d == 3 { '3' } else if d == 4 { '4' }
    else if d == 5 { '5' } else if d == 6 { '6' } else if d == 7 { '7' } else if d == 8 { '8' } else { '9' }
}

/// Appends the decimal digits of `n` to `out`.
fn push_decimal(out: &mut Vec<char>, n: usize)
    ensures
        final(out)@ == old(out)@ + spec_decimal(n as nat),
    decreases n,
{
    if n < 10 {
        out.push(digit(n));
        assert(out@ =~= old(out)@ + spec_decimal(n as nat));
    } else {
        push_decimal(out, n / 10);
        out.push(digit(n % 10));
        assert(out@ =~= old(out)@ + spec_decimal(n as nat));
    }
}

/// Rectangular region: the left and top coordinates and the size.
#[derive(Debug, Default, Copy, Clone, PartialEq, Eq, Structural)]
pub struct Region {
    /// Left coordinate.
    pub left: usize,
    /// Top coordinate.
    pub top: usize,
    /// Width.
    pub width: usize,
    /// Height.
    pub height: usize,
}

impl Region {
    /// The right-most column, `left + width - 1` (saturating).
    pub open spec fn spec_right(&self) -> usize {
        sat_add(self.left, sat_sub(self.width, 1))
    }

    /// The bottom-most row, `top + height - 1` (saturating).
    pub open spec fn spec_bottom(&self) -> usize {
        sat_add(self.top, sat_sub(self.height, 1))
    }

    /// Creates a region.
    pub fn new(left: usize, top: usize, width: usize, height: usize) -> (r: Region)
        ensures
            r == (Region { left, top, width, height }),
    {
        Region { left, top, width, height }
    }

    /// The region written as `(left, top, width, height)`.
    pub fn to_string(&self) -> (r: String)
        ensures
            r@ == spec_rect_text(self.left, self.top, self.width, self.height),
    {
        let mut chars: Vec<char> = Vec::new();
        chars.push('(');
        push_decimal(&mut chars, self.left);
        chars.push(',');
        chars.push(' ');
        push_decimal(&mut chars, self.top);
        chars.push(',');
        chars.push(' ');
        push_decimal(&mut chars, self.width);
        chars.push(',');
        chars.push(' ');
        push_decimal(&mut chars, self.height);
        chars.push(')');
        assert(chars@ =~= spec_rect_text(self.left, self.top, self.width, self.height));
        crate::row::string_from_chars(&chars)
    }

    /// Returns the left coordinate.
    pub fn left(&self) -> (r: usize)
        ensures
            r == self.left,
    {
        self.left
    }

    /// Returns the right coordinate.
    pub fn right(&self) -> (r: usize)
        ensures
            r == self.spec_right(),
    {
        self.left.saturating_add(self.width.saturating_sub(1))
    }

    /// Returns the top coordinate.
    pub fn top(&self) -> (r: usize)
        ensures
            r == self.top,
    {
        self.top
    }

    /// Returns the bottom coordinate.
    pub fn bottom(&self) -> (r: usize)
        ensures
            r == self.spec_bottom(),
    {
        self.top.saturating_add(self.height.saturating_sub(1))
    }

    /// Returns the width.
    pub fn width(&self) -> (r: usize)
        ensures
            r == self.width,
    {
        self.width
    }

    /// Returns the height.
    pub fn height(&self) -> (r: usize)
        ensures
            r == self.height,
    {
        self.height
    }

    /// Returns `(left, top)`.
    pub fn offset(&self) -> (r: (usize, usize))
        ensures
            r == (self.left, self.top),
    {
        (self.left, self.top)
    }

    /// Returns `(width, height)`.
    pub fn size(&self) -> (r: (usize, usize))
        ensures
            r == (self.width, self.height),
    {
        (self.width, self.height)
    }

    /// Returns `(left, top, width, height)`.
    pub fn rect(&self) -> (r: (usize, usize, usize, usize))
        ensures
            r == (self.left, self.top, self.width, self.height),
    {
        (self.left, self.top, self.width, self.height)
    }

    /// Sets a new size; the position stays.
    pub fn resize(&mut self, width: usize, height: usize)
        ensures
            *final(self) == (Region { width, height, ..*old(self) }),
    {
        self.width = width;
        self.height = height;
    }

    /// The intersection of two regions: the larger left and top, the smaller
    /// right and bottom. Disjoint regions give a width or height of zero.
    pub fn clip(&self, other: &Region) -> (r: Region)
        ensures
            r.left == if other.left > self.left { other.left } else { self.left },
            r.top == if other.top > self.top { other.top } else { self.top },
            ({
                let right = if other.spec_right() < self.spec_right() { other.spec_right() } else { self.spec_right() };
                r.width == if right >= r.left { sat_add(sat_sub(right, r.left), 1) } else { 0 }
            }),
            ({
                let bottom = if other.spec_bottom() < self.spec_bottom() { other.spec_bottom() } else { self.spec_bottom() };
                r.height == if bottom >= r.top { sat_add(sat_sub(bottom, r.top), 1) } else { 0 }
            }),
    {
        let left = if other.left() > self.left() { other.left() } else { self.left() };
        let top = if other.top() > self.top() { other.top() } else { self.top() };
        let right = if other.right() < self.right() { other.right() } else { self.right() };
        let bottom = if other.bottom() < self.bottom() { other.bottom() } else { self.bottom() };
        let width = if right >= left { (right - left).saturating_add(1) } else { 0 };
        let height = if bottom >= top { (bottom - top).saturating_add(1) } else { 0 };
        Region { left, top, width, height }
    }

    /// Shifts the region left so that `column - margin` is visible.
    /// Returns `true` when it moved.
    pub fn shift_left_when_needed(&mut self, column: usize, margin: usize) -> (r: bool)
        ensures
            r == (sat_sub(column, margin) < old(self).left),
            *final(self) == if r {
                Region { left: sat_sub(column, margin), ..*old(self) }
            } else {
                *old(self)
            },
    {
        let column_needed = column.saturating_sub(margin);
        if column_needed < self.left {
            self.left = column_needed;
            return true;
        }
        false
    }

    /// Shifts the region right so that `column + margin` is visible.
    /// Returns `true` when it moved.
    pub fn shift_right_when_needed(&mut self, column: usize, margin: usize) -> (r: bool)
        ensures
            r == (sat_add(column, margin) > old(self).spec_right()),
            *final(self) == if r {
                Region {
                    left: sat_add(old(self).left, (sat_add(column, margin) - old(self).spec_right()) as usize),
                    ..*old(self)
                }
            } else {
                *old(self)
            },
    {
        let column_needed = column.saturating_add(margin);
        let right = self.right();
        if column_needed > right {
            self.left = self.left.saturating_add(column_needed - right);
            return true;
        }
        false
    }

    /// Shifts the region up so that `row - margin` is visible.
    /// Returns `true` when it moved.
    pub fn shift_up_when_needed(&mut self, row: usize, margin: usize) -> (r: bool)
        ensures
            r == (sat_sub(row, margin) < old(self).top),
            *final(self) == if r {
                Region { top: sat_sub(row, margin), ..*old(self) }
            } else {
                *old(self)
            },
    {
        let row_needed = row.saturating_sub(margin);
        if row_needed < self.top {
            self.top = row_needed;
            return true;
        }
        false
    }

    /// Shifts the region down so that `row + margin` is visible.
    /// Returns `true` when it moved.
    pub fn shift_down_when_needed(&mut self, row: usize, margin: usize) -> (r: bool)
        ensures
            r == (sat_add(row, margin) > old(self).spec_bottom()),
            *final(self) == if r {
                Region {
                    top: sat_add(old(self).top, (sat_add(row, margin) - old(self).spec_bottom()) as usize),
                    ..*old(self)
                }
            } else {
                *old(self)
            },
    {
        let row_needed = row.saturating_add(margin);
        let bottom = self.bottom();
        if row_needed > bottom {
            self.top = self.top.saturating_add(row_needed - bottom);
            return true;
        }
        false
    }
}

} // verus!
