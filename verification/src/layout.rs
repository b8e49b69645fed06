//! Rectangles of terminal cells.

use vstd::prelude::*;

verus! {

/// A rectangle of cells on the screen: the column and row of its top left
/// cell, and its size.
#[derive(Clone, Copy, Debug, PartialEq, Eq, Hash, Structural)]
pub struct Rect {
    pub x: u16,
    pub y: u16,
    pub width: u16,
    pub height: u16,
}

impl Rect {
    /// Whether the columns and rows of the rectangle can all be numbered in
    /// 16 bits.
    pub open spec fn in_range(self) -> bool {
        self.x + self.width <= u16::MAX && self.y + self.height <= u16::MAX
    }

    /// The rectangle at `(x, y)` of the size given, cut down to the part
    /// whose columns and rows can be numbered in 16 bits.
    pub open spec fn clamped(x: u16, y: u16, width: u16, height: u16) -> Rect {
        Rect {
            x,
            y,
            width: if width > u16::MAX - x {
                (u16::MAX - x) as u16
            } else {
                width
            },
            height: if height > u16::MAX - y {
                (u16::MAX - y) as u16
            } else {
                height
            },
        }
    }

    /// The rectangle at `(x, y)` of the size given, cut down to the part
    /// whose columns and rows can be numbered in 16 bits.
    pub fn new(x: u16, y: u16, width: u16, height: u16) -> (r: Rect)
        ensures
            r == Rect::clamped(x, y, width, height),
            r.in_range(),
    {
        let max_width: u16 = u16::MAX - x;
        let max_height: u16 = u16::MAX - y;
        let width: u16 = if width > max_width { max_width } else { width };
        let height: u16 = if height > max_height { max_height } else { height };
        Rect { x, y, width, height }
    }
}

} // verus!
