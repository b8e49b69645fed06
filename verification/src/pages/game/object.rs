//! What the things of the game have in common: a size, a place on the
//! canvas, and layers of glyphs; and the geometry that follows from them.
//!
//! The canvas has its origin at the bottom left, and rows count upwards. A
//! thing stands at the cell of its bottom left corner. The screen has its
//! origin at the top left, and rows count downwards.

use vstd::prelude::*;
use crate::layout::Rect;
use crate::style::Color;

verus! {

/// The side of a thing on which another one touches it, or `Apart` where
/// none does.
#[derive(Clone, Copy, Debug, PartialEq, Eq, Structural)]
pub enum CollisionType {
    Apart,
    Left,
    Right,
    Top,
    Bottom,
}

/// The columns and rows that a thing covers, first and last of each.
#[derive(Clone, Copy, Debug, PartialEq, Eq, Structural)]
pub struct BoundingBox {
    pub left: i64,
    pub right: i64,
    pub bottom: i64,
    pub top: i64,
}

/// Whether the ranges of integers from `l1` to `r1` and from `l2` to `r2`,
/// ends included, have an integer in common.
pub open spec fn intervals_meet(l1: int, r1: int, l2: int, r2: int) -> bool {
    l1 <= r1 && l2 <= r2 && l1 <= r2 && l2 <= r1
}

impl BoundingBox {
    /// Whether the box covers no cell.
    pub open spec fn is_empty(self) -> bool {
        self.right < self.left || self.top < self.bottom
    }

    /// Whether the box covers the cell in column `col` and row `row`.
    pub open spec fn covers(self, col: int, row: int) -> bool {
        self.left <= col <= self.right && self.bottom <= row <= self.top
    }

    /// Whether the two boxes cover a cell in common.
    pub open spec fn overlaps(self, other: BoundingBox) -> bool {
        intervals_meet(self.left as int, self.right as int, other.left as int, other.right as int)
            && intervals_meet(
            self.bottom as int,
            self.top as int,
            other.bottom as int,
            other.top as int,
        )
    }

    /// The side of `self` on which `other` touches it: the side whose column
    /// or row is also the facing one of `other`, where the two boxes share
    /// cells of it. The left side is looked at first, then the right one,
    /// the bottom and the top. A box that covers no cell touches nothing.
    pub open spec fn side_of(self, other: BoundingBox) -> CollisionType {
        let rows_meet = intervals_meet(
            self.bottom as int,
            self.top as int,
            other.bottom as int,
            other.top as int,
        );
        let columns_meet = intervals_meet(
            self.left as int,
            self.right as int,
            other.left as int,
            other.right as int,
        );
        if self.left == other.right && rows_meet && columns_meet {
            CollisionType::Left
        } else if self.right == other.left && rows_meet && columns_meet {
            CollisionType::Right
        } else if self.bottom == other.top && columns_meet && rows_meet {
            CollisionType::Bottom
        } else if self.top == other.bottom && columns_meet && rows_meet {
            CollisionType::Top
        } else {
            CollisionType::Apart
        }
    }

    /// The box of a canvas of the size of `canvas`.
    pub open spec fn of_canvas(canvas: Rect) -> BoundingBox {
        BoundingBox {
            left: 0,
            right: (canvas.width - 1) as i64,
            bottom: 0,
            top: (canvas.height - 1) as i64,
        }
    }
}

/// Two boxes overlap exactly when some cell lies in both.
pub proof fn lemma_overlaps_common_cell(a: BoundingBox, b: BoundingBox)
    ensures
        a.overlaps(b) <==> exists|col: int, row: int| a.covers(col, row) && b.covers(col, row),
{
    if a.overlaps(b) {
        let col = if a.left >= b.left { a.left as int } else { b.left as int };
        let row = if a.bottom >= b.bottom { a.bottom as int } else { b.bottom as int };
        assert(a.covers(col, row) && b.covers(col, row));
    }
}

/// Overlap does not depend on which box is asked.
pub proof fn lemma_overlaps_symmetric(a: BoundingBox, b: BoundingBox)
    ensures
        a.overlaps(b) == b.overlaps(a),
{
}

/// A box that covers no cell overlaps none and touches none.
pub proof fn lemma_empty_box(a: BoundingBox, b: BoundingBox)
    requires
        a.is_empty() || b.is_empty(),
    ensures
        !a.overlaps(b),
        a.side_of(b) == CollisionType::Apart,
{
}

/// Whether the ranges from `l1` to `r1` and from `l2` to `r2` are not
/// apart: neither ends before the other begins. Of two ranges that are not
/// empty this says that they have an integer in common.
pub fn interval_sec(l1: i64, r1: i64, l2: i64, r2: i64) -> (b: bool)
    ensures
        b == !(r1 < l2 || l1 > r2),
        l1 <= r1 && l2 <= r2 ==> b == intervals_meet(l1 as int, r1 as int, l2 as int, r2 as int),
{
    !(r1 < l2 || l1 > r2)
}

/// A thing of the game as a value: its size in cells, the cell of its bottom
/// left corner on the canvas, its layers of rows of glyphs from top to
/// bottom, and the colour of each layer.
pub struct EntityView {
    pub width: u16,
    pub height: u16,
    pub x: i32,
    pub y: i32,
    pub layers: Seq<Seq<Seq<char>>>,
    pub colors: Seq<Option<Color>>,
}

/// The length of the longest of `rows`.
pub open spec fn longest_row(rows: Seq<Seq<char>>) -> nat
    decreases rows.len(),
{
    if rows.len() == 0 {
        0
    } else {
        let rest = longest_row(rows.drop_last());
        if rows.last().len() > rest {
            rows.last().len()
        } else {
            rest
        }
    }
}

/// The length of the longest row of `layers`.
pub open spec fn widest(layers: Seq<Seq<Seq<char>>>) -> nat
    decreases layers.len(),
{
    if layers.len() == 0 {
        0
    } else {
        let rest = widest(layers.drop_last());
        if longest_row(layers.last()) > rest {
            longest_row(layers.last())
        } else {
            rest
        }
    }
}

/// The number of rows of the layer of `layers` that has the most.
pub open spec fn tallest(layers: Seq<Seq<Seq<char>>>) -> nat
    decreases layers.len(),
{
    if layers.len() == 0 {
        0
    } else {
        let rest = tallest(layers.drop_last());
        if layers.last().len() > rest {
            layers.last().len()
        } else {
            rest
        }
    }
}

/// `n`, or the largest size that has a number where `n` is larger.
pub open spec fn size_of(n: nat) -> u16 {
    if n > u16::MAX {
        u16::MAX
    } else {
        n as u16
    }
}

impl EntityView {
    /// Whether the size is that of the layers, and each layer has its colour.
    pub open spec fn well_formed(self) -> bool {
        &&& self.width == size_of(widest(self.layers))
        &&& self.height == size_of(tallest(self.layers))
        &&& self.layers.len() == self.colors.len()
    }

    /// The columns and rows that the thing covers on the canvas.
    pub open spec fn bounds(self) -> BoundingBox {
        BoundingBox {
            left: self.x as i64,
            right: (self.x + self.width - 1) as i64,
            bottom: self.y as i64,
            top: (self.y + self.height - 1) as i64,
        }
    }

    /// Whether the two things cover a cell in common.
    pub open spec fn overlaps(self, other: EntityView) -> bool {
        self.bounds().overlaps(other.bounds())
    }

    /// The side of `self` on which `other` touches it.
    pub open spec fn side_of(self, other: EntityView) -> CollisionType {
        self.bounds().side_of(other.bounds())
    }

    /// Whether the thing covers a cell of a canvas of the size of `canvas`.
    pub open spec fn visible_in(self, canvas: Rect) -> bool {
        self.bounds().overlaps(BoundingBox::of_canvas(canvas))
    }

    /// The column and row on the screen of the top left cell of the thing,
    /// where the canvas is shown in the rectangle `canvas` of the screen.
    pub open spec fn screen_pos(self, canvas: Rect) -> (i64, i64) {
        (
            (self.x + canvas.x) as i64,
            (canvas.height - 1 - (self.y + self.height - 1) + canvas.y) as i64,
        )
    }

    /// The same thing with its corner at the cell `(x, y)`.
    pub open spec fn at(self, x: i32, y: i32) -> EntityView {
        EntityView { x, y, ..self }
    }
}

/// What a thing of the game offers.
pub trait Object {
    /// The thing as a value.
    spec fn entity(&self) -> EntityView;

    /// Width and height in cells.
    fn get_size(&self) -> (size: (u16, u16))
        ensures
            size == (self.entity().width, self.entity().height),
    ;

    /// The cell of the bottom left corner.
    fn get_pos(&self) -> (pos: (i32, i32))
        ensures
            pos == (self.entity().x, self.entity().y),
    ;

    /// Moves the bottom left corner to the cell `(x, y)`.
    fn set_pos(&mut self, x: u16, y: u16)
        ensures
            final(self).entity() == old(self).entity().at(x as i32, y as i32),
    ;

    /// The rows of glyphs of each layer, from top to bottom.
    fn get_layers(&self) -> (layers: Vec<Vec<String>>)
        ensures
            layers.deep_view() == self.entity().layers,
    ;

    /// The colour of each layer.
    fn get_colors(&self) -> (colors: Vec<Option<Color>>)
        ensures
            colors@ == self.entity().colors,
    ;

    /// The columns and rows that the thing covers on the canvas.
    fn bounding_box(&self) -> (b: BoundingBox)
        ensures
            b == self.entity().bounds(),
    {
        let (width, height) = self.get_size();
        let (x, y) = self.get_pos();
        BoundingBox {
            left: x as i64,
            right: x as i64 + width as i64 - 1,
            bottom: y as i64,
            top: y as i64 + height as i64 - 1,
        }
    }

    /// Whether the thing covers a cell of a canvas of the size of `canvas`.
    fn visible(&self, canvas: Rect) -> (b: bool)
        ensures
            b == self.entity().visible_in(canvas),
    {
        let b = self.bounding_box();
        let canvas_width: i64 = canvas.width as i64;
        let canvas_height: i64 = canvas.height as i64;
        canvas_width > 0 && canvas_height > 0 && b.left <= b.right && b.bottom <= b.top && b.right
            >= 0 && b.left < canvas_width && b.top >= 0 && b.bottom < canvas_height
    }

    /// The column and row on the screen of the top left cell of the thing,
    /// where the canvas is shown in the rectangle `canvas` of the screen.
    fn transform_pos(&self, canvas: Rect) -> (p: (i64, i64))
        ensures
            p == self.entity().screen_pos(canvas),
    {
        let canvas_height: i64 = canvas.height as i64;
        let canvas_x: i64 = canvas.x as i64;
        let canvas_y: i64 = canvas.y as i64;
        let (_, height) = self.get_size();
        let (x, y) = self.get_pos();
        let top: i64 = height as i64 - 1 + y as i64;
        let row: i64 = canvas_height - (1 + top);
        (x as i64 + canvas_x, row + canvas_y)
    }
}

impl BoundingBox {
    /// Whether the two boxes cover a cell in common.
    pub fn meets(&self, other: &BoundingBox) -> (b: bool)
        ensures
            b == self.overlaps(*other),
    {
        self.left <= self.right && self.bottom <= self.top && other.left <= other.right
            && other.bottom <= other.top && interval_sec(
            self.bottom,
            self.top,
            other.bottom,
            other.top,
        ) && interval_sec(self.left, self.right, other.left, other.right)
    }

    /// The side of `self` on which `other` touches it.
    pub fn touching_side(&self, other: &BoundingBox) -> (side: CollisionType)
        ensures
            side == self.side_of(*other),
    {
        if !(self.left <= self.right && self.bottom <= self.top && other.left <= other.right
            && other.bottom <= other.top) {
            return CollisionType::Apart;
        }
        let rows_meet = interval_sec(self.bottom, self.top, other.bottom, other.top);
        let columns_meet = interval_sec(self.left, self.right, other.left, other.right);
        if self.left == other.right && rows_meet {
            CollisionType::Left
        } else if self.right == other.left && rows_meet {
            CollisionType::Right
        } else if self.bottom == other.top && columns_meet {
            CollisionType::Bottom
        } else if self.top == other.bottom && columns_meet {
            CollisionType::Top
        } else {
            CollisionType::Apart
        }
    }
}

/// Whether the two things cover a cell in common.
pub fn collides_with<A: Object, B: Object>(this: &A, other: &B) -> (b: bool)
    ensures
        b == this.entity().overlaps(other.entity()),
{
    let a = this.bounding_box();
    let o = other.bounding_box();
    a.meets(&o)
}

/// The side of `this` on which `other` touches it.
pub fn get_collision<A: Object, B: Object>(this: &A, other: &B) -> (side: CollisionType)
    ensures
        side == this.entity().side_of(other.entity()),
{
    let a = this.bounding_box();
    let o = other.bounding_box();
    a.touching_side(&o)
}

/// Whether one thing overlaps another does not depend on which is asked.
pub proof fn lemma_overlap_symmetry(a: EntityView, b: EntityView)
    ensures
        a.overlaps(b) == b.overlaps(a),
{
}

/// A thing that stands further left than its own width from the left edge
/// of the canvas is not visible.
pub proof fn lemma_left_of_canvas_invisible(e: EntityView, canvas: Rect)
    requires
        e.x < -e.width,
    ensures
        !e.visible_in(canvas),
{
}

/// A thing without glyphs is not visible and overlaps nothing.
pub proof fn lemma_zero_sized(e: EntityView, other: EntityView, canvas: Rect)
    requires
        e.width == 0 || e.height == 0,
    ensures
        !e.visible_in(canvas),
        !e.overlaps(other),
        !other.overlaps(e),
{
}

/// Rows that are all of one length have that length as their longest.
pub proof fn lemma_longest_row_uniform(rows: Seq<Seq<char>>, width: nat)
    requires
        rows.len() >= 1,
        forall|i: int| 0 <= i < rows.len() ==> (#[trigger] rows[i]).len() == width,
    ensures
        longest_row(rows) == width,
    decreases rows.len(),
{
    if rows.len() > 1 {
        let init = rows.drop_last();
        assert forall|i: int| 0 <= i < init.len() implies (#[trigger] init[i]).len() == width by {
            assert(init[i] == rows[i]);
        }
        lemma_longest_row_uniform(init, width);
    } else {
        assert(rows.drop_last().len() == 0);
        assert(longest_row(rows.drop_last()) == 0);
    }
}

/// A thing of one layer is as wide as the longest row of the layer and as
/// high as the layer has rows.
pub proof fn lemma_single_layer(rows: Seq<Seq<char>>)
    ensures
        widest(seq![rows]) == longest_row(rows),
        tallest(seq![rows]) == rows.len(),
{
    assert(seq![rows].drop_last() =~= Seq::<Seq<Seq<char>>>::empty());
    assert(seq![rows].last() == rows);
    assert(widest(seq![rows].drop_last()) == 0);
    assert(tallest(seq![rows].drop_last()) == 0);
}

} // verus!
