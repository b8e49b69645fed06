//! From the canvas to the screen: where a thing is shown, and which of its
//! glyphs are.
//!
//! The canvas is shown in a rectangle of the screen. A thing that lies
//! partly outside the canvas is shown in part: the rows and columns of its
//! layers that fall outside are cut off, and the place and size of what is
//! left are given with it.

use vstd::prelude::*;
use vstd::string::*;
use crate::layout::Rect;
use crate::pages::game::object::{EntityView, Object};
use crate::style::Color;

verus! {

/// The part of a thing that the screen shows: its layers of rows of glyphs,
/// the colour of each layer, and the rectangle of the screen that it fills.
#[derive(Debug)]
pub struct Sprite {
    pub layers: Vec<Vec<String>>,
    pub colors: Vec<Option<Color>>,
    pub area: Rect,
    /// Whether the white space of every layer but the first is left out, so
    /// that the layers below show through.
    pub ignore_whitespace: bool,
}

/// A sprite as a value.
pub struct SpriteView {
    pub layers: Seq<Seq<Seq<char>>>,
    pub colors: Seq<Option<Color>>,
    pub area: Rect,
    pub ignore_whitespace: bool,
}

impl View for Sprite {
    type V = SpriteView;

    open spec fn view(&self) -> SpriteView {
        SpriteView {
            layers: self.layers.deep_view(),
            colors: self.colors@,
            area: self.area,
            ignore_whitespace: self.ignore_whitespace,
        }
    }
}

/// The larger of `a` and `b`.
pub open spec fn max_of(a: int, b: int) -> int {
    if a >= b {
        a
    } else {
        b
    }
}

/// The smaller of `a` and `b`.
pub open spec fn min_of(a: int, b: int) -> int {
    if a <= b {
        a
    } else {
        b
    }
}

/// Of the `len` cells that begin at `start`, the first that lies in the
/// range from `low` up to, not including, `high`, counted from `start`.
pub open spec fn clip_begin(start: int, low: int) -> int {
    max_of(low - start, 0)
}

/// Of the `len` cells that begin at `start`, the one after the last that
/// lies in the range from `low` up to, not including, `high`, counted from
/// `start`.
pub open spec fn clip_end(start: int, len: int, high: int) -> int {
    len - max_of(start + len - high, 0)
}

/// The glyphs of `row` from column `begin` up to, not including, column
/// `end`, as far as the row has them.
pub open spec fn clipped_row(row: Seq<char>, begin: int, end: int) -> Seq<char> {
    row.subrange(min_of(begin, row.len() as int), min_of(end, row.len() as int))
}

/// The rows of `rows` from row `row_begin` up to, not including, `row_end`,
/// as far as there are rows, each cut to the columns from `col_begin` up to,
/// not including, `col_end`.
pub open spec fn clipped_layer(
    rows: Seq<Seq<char>>,
    col_begin: int,
    col_end: int,
    row_begin: int,
    row_end: int,
) -> Seq<Seq<char>> {
    rows.subrange(
        min_of(row_begin, rows.len() as int),
        min_of(row_end, rows.len() as int),
    ).map_values(|row: Seq<char>| clipped_row(row, col_begin, col_end))
}

impl EntityView {
    /// The first column of the thing that the rectangle `canvas` of the
    /// screen shows, counted from the left of the thing.
    pub open spec fn col_begin(self, canvas: Rect) -> int {
        clip_begin(self.screen_pos(canvas).0 as int, canvas.x as int)
    }

    /// The column after the last one that is shown.
    pub open spec fn col_end(self, canvas: Rect) -> int {
        clip_end(self.screen_pos(canvas).0 as int, self.width as int, canvas.x + canvas.width)
    }

    /// The first row of the thing that is shown, counted from its top.
    pub open spec fn row_begin(self, canvas: Rect) -> int {
        clip_begin(self.screen_pos(canvas).1 as int, canvas.y as int)
    }

    /// The row after the last one that is shown.
    pub open spec fn row_end(self, canvas: Rect) -> int {
        clip_end(self.screen_pos(canvas).1 as int, self.height as int, canvas.y + canvas.height)
    }

    /// Whether the rectangle `canvas` of the screen shows a cell of the
    /// thing.
    pub open spec fn shown(self, canvas: Rect) -> bool {
        self.col_begin(canvas) < self.col_end(canvas) && self.row_begin(canvas) < self.row_end(
            canvas,
        )
    }

    /// What the rectangle `canvas` of the screen shows of the thing, if it
    /// shows any of it: each layer cut to the rows and columns that fall
    /// inside, and the rectangle of these, with white space kept.
    pub open spec fn clipped(self, canvas: Rect) -> Option<SpriteView> {
        if self.shown(canvas) {
            Some(
                SpriteView {
                    layers: self.layers.map_values(
                        |rows: Seq<Seq<char>>|
                            clipped_layer(
                                rows,
                                self.col_begin(canvas),
                                self.col_end(canvas),
                                self.row_begin(canvas),
                                self.row_end(canvas),
                            ),
                    ),
                    colors: self.colors,
                    area: Rect {
                        x: (self.screen_pos(canvas).0 + self.col_begin(canvas)) as u16,
                        y: (self.screen_pos(canvas).1 + self.row_begin(canvas)) as u16,
                        width: (self.col_end(canvas) - self.col_begin(canvas)) as u16,
                        height: (self.row_end(canvas) - self.row_begin(canvas)) as u16,
                    },
                    ignore_whitespace: false,
                },
            )
        } else {
            None
        }
    }
}

/// What is shown of a thing lies inside the canvas and inside the thing.
pub proof fn lemma_clipped_inside(e: EntityView, canvas: Rect)
    requires
        canvas.in_range(),
        e.shown(canvas),
    ensures
        ({
            let area = e.clipped(canvas)->0.area;
            &&& canvas.x <= area.x
            &&& area.x + area.width <= canvas.x + canvas.width
            &&& canvas.y <= area.y
            &&& area.y + area.height <= canvas.y + canvas.height
            &&& 1 <= area.width <= e.width
            &&& 1 <= area.height <= e.height
        }),
{
}

/// A thing is shown on the screen exactly when it is visible on the canvas.
pub proof fn lemma_shown_iff_visible(e: EntityView, canvas: Rect)
    ensures
        e.shown(canvas) == e.visible_in(canvas),
{
}

/// A thing that lies inside the canvas is shown whole.
pub proof fn lemma_inside_shown_whole(e: EntityView, canvas: Rect)
    requires
        e.width >= 1,
        e.height >= 1,
        0 <= e.x,
        e.x + e.width <= canvas.width,
        0 <= e.y,
        e.y + e.height <= canvas.height,
    ensures
        e.shown(canvas),
        e.col_begin(canvas) == 0,
        e.col_end(canvas) == e.width,
        e.row_begin(canvas) == 0,
        e.row_end(canvas) == e.height,
{
}

/// The glyphs of `row` from column `begin` up to, not including, `end`.
fn clip_row(row: &String, begin: usize, end: usize) -> (r: String)
    requires
        begin <= end,
    ensures
        r@ == clipped_row(row@, begin as int, end as int),
{
    let len = row.as_str().unicode_len();
    let from = if begin < len { begin } else { len };
    let to = if end < len { end } else { len };
    row.as_str().substring_char(from, to).to_owned()
}

/// The rows of `rows` from `row_begin` up to, not including, `row_end`, each
/// cut to the columns from `col_begin` up to, not including, `col_end`.
fn clip_layer(
    rows: &Vec<String>,
    col_begin: usize,
    col_end: usize,
    row_begin: usize,
    row_end: usize,
) -> (r: Vec<String>)
    requires
        col_begin <= col_end,
        row_begin <= row_end,
    ensures
        r.deep_view() == clipped_layer(
            rows.deep_view(),
            col_begin as int,
            col_end as int,
            row_begin as int,
            row_end as int,
        ),
{
    let from = if row_begin < rows.len() { row_begin } else { rows.len() };
    let to = if row_end < rows.len() { row_end } else { rows.len() };
    let mut r: Vec<String> = Vec::new();
    let mut i: usize = from;
    while i < to
        invariant
            from <= i <= to <= rows.len(),
            col_begin <= col_end,
            r.len() == i - from,
            forall|k: int|
                0 <= k < r.len() ==> (#[trigger] r@[k])@ == clipped_row(
                    rows@[from + k]@,
                    col_begin as int,
                    col_end as int,
                ),
        decreases to - i,
    {
        r.push(clip_row(&rows[i], col_begin, col_end));
        i += 1;
    }
    assert(r.deep_view() =~= clipped_layer(
        rows.deep_view(),
        col_begin as int,
        col_end as int,
        row_begin as int,
        row_end as int,
    ));
    r
}

/// What the rectangle `canvas` of the screen shows of `object`, if it shows
/// any of it.
pub fn clip_layers<T: Object>(object: &T, canvas: Rect) -> (r: Option<Sprite>)
    requires
        canvas.in_range(),
    ensures
        match r {
            Some(sprite) => object.entity().clipped(canvas) == Some(sprite@),
            None => object.entity().clipped(canvas) is None,
        },
{
    let (width, height) = object.get_size();
    let (x, y) = object.transform_pos(canvas);
    let right: i64 = x + width as i64;
    let bottom: i64 = y + height as i64;
    let canvas_left: i64 = canvas.x as i64;
    let canvas_right: i64 = canvas_left + canvas.width as i64;
    let canvas_top: i64 = canvas.y as i64;
    let canvas_bottom: i64 = canvas_top + canvas.height as i64;
    let col_begin: i64 = if canvas_left - x > 0 { canvas_left - x } else { 0 };
    let col_end: i64 = width as i64 - if right - canvas_right > 0 {
        right - canvas_right
    } else {
        0
    };
    let row_begin: i64 = if canvas_top - y > 0 { canvas_top - y } else { 0 };
    let row_end: i64 = height as i64 - if bottom - canvas_bottom > 0 {
        bottom - canvas_bottom
    } else {
        0
    };
    if col_end <= col_begin || row_end <= row_begin {
        return None;
    }
    let layers = object.get_layers();
    let mut clipped: Vec<Vec<String>> = Vec::new();
    let mut i: usize = 0;
    while i < layers.len()
        invariant
            i <= layers.len(),
            clipped.len() == i,
            0 <= col_begin < col_end <= 0xffff,
            0 <= row_begin < row_end <= 0xffff,
            forall|k: int|
                0 <= k < i ==> (#[trigger] clipped@[k]).deep_view() == clipped_layer(
                    layers@[k].deep_view(),
                    col_begin as int,
                    col_end as int,
                    row_begin as int,
                    row_end as int,
                ),
        decreases layers.len() - i,
    {
        clipped.push(
            clip_layer(
                &layers[i],
                col_begin as usize,
                col_end as usize,
                row_begin as usize,
                row_end as usize,
            ),
        );
        i += 1;
    }
    let sprite = Sprite {
        layers: clipped,
        colors: object.get_colors(),
        area: Rect {
            x: (x + col_begin) as u16,
            y: (y + row_begin) as u16,
            width: (col_end - col_begin) as u16,
            height: (row_end - row_begin) as u16,
        },
        ignore_whitespace: false,
    };
    proof {
        let e = object.entity();
        assert(sprite@.layers =~= e.clipped(canvas)->0.layers) by {
            assert(layers.deep_view() == e.layers);
            assert forall|k: int| 0 <= k < e.layers.len() implies sprite@.layers[k] == e.clipped(
                canvas,
            )->0.layers[k] by {
                assert(layers.deep_view()[k] == layers@[k].deep_view());
            }
        }
    }
    Some(sprite)
}

} // verus!
