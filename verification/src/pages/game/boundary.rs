//! A thing that only stands and scrolls: the floor, the ceiling, a pipe.

use vstd::prelude::*;
use vstd::string::*;
use crate::pages::game::object::{longest_row, size_of, tallest, widest, EntityView, Object};
use crate::style::Color;
use crate::text::{split_rows, text_rows};

verus! {

/// The rows of each of the texts `texts`.
pub open spec fn layers_of(texts: Seq<Seq<char>>) -> Seq<Seq<Seq<char>>> {
    texts.map_values(|text: Seq<char>| text_rows(text))
}

/// The thing that the texts `texts` draw, one layer each, in the colours
/// `colors`, with its corner at the cell `(x, y)`.
pub open spec fn entity_of(
    texts: Seq<Seq<char>>,
    colors: Seq<Option<Color>>,
    x: i32,
    y: i32,
) -> EntityView {
    EntityView {
        width: size_of(widest(layers_of(texts))),
        height: size_of(tallest(layers_of(texts))),
        x,
        y,
        layers: layers_of(texts),
        colors,
    }
}

/// The rows of each text.
pub fn split_layers(texts: &Vec<&str>) -> (layers: Vec<Vec<String>>)
    ensures
        layers.deep_view() == layers_of(texts.deep_view()),
{
    let mut layers: Vec<Vec<String>> = Vec::new();
    let mut i: usize = 0;
    while i < texts.len()
        invariant
            i <= texts.len(),
            layers.len() == i,
            forall|k: int|
                0 <= k < i ==> (#[trigger] layers@[k]).deep_view() == text_rows(texts@[k]@),
        decreases texts.len() - i,
    {
        let rows = split_rows(texts[i]);
        layers.push(rows);
        i += 1;
    }
    assert(layers.deep_view() =~= layers_of(texts.deep_view()));
    layers
}

/// The length of the longest row of `rows`.
fn longest(rows: &Vec<String>) -> (n: usize)
    ensures
        n == longest_row(rows.deep_view()),
{
    let mut n: usize = 0;
    let mut i: usize = 0;
    assert(rows.deep_view().take(0) =~= Seq::<Seq<char>>::empty());
    while i < rows.len()
        invariant
            i <= rows.len(),
            n == longest_row(rows.deep_view().take(i as int)),
        decreases rows.len() - i,
    {
        proof {
            assert(rows.deep_view().take(i + 1).drop_last() =~= rows.deep_view().take(i as int));
            assert(rows.deep_view().take(i + 1).last() == rows@[i as int]@);
        }
        let len = rows[i].as_str().unicode_len();
        if len > n {
            n = len;
        }
        i += 1;
    }
    assert(rows.deep_view().take(rows.len() as int) =~= rows.deep_view());
    n
}

/// `n` as a size.
fn to_size(n: usize) -> (s: u16)
    ensures
        s == size_of(n as nat),
{
    if n > 0xffff {
        0xffff
    } else {
        n as u16
    }
}

/// Width and height of the layers `layers`.
pub fn measure(layers: &Vec<Vec<String>>) -> (size: (u16, u16))
    ensures
        size.0 == size_of(widest(layers.deep_view())),
        size.1 == size_of(tallest(layers.deep_view())),
{
    let mut width: usize = 0;
    let mut height: usize = 0;
    let mut i: usize = 0;
    assert(layers.deep_view().take(0) =~= Seq::<Seq<Seq<char>>>::empty());
    while i < layers.len()
        invariant
            i <= layers.len(),
            width == widest(layers.deep_view().take(i as int)),
            height == tallest(layers.deep_view().take(i as int)),
        decreases layers.len() - i,
    {
        proof {
            assert(layers.deep_view().take(i + 1).drop_last() =~= layers.deep_view().take(
                i as int,
            ));
            assert(layers.deep_view().take(i + 1).last() == layers@[i as int].deep_view());
            assert(layers@[i as int].deep_view().len() == layers@[i as int].len());
        }
        let w = longest(&layers[i]);
        if w > width {
            width = w;
        }
        if layers[i].len() > height {
            height = layers[i].len();
        }
        i += 1;
    }
    assert(layers.deep_view().take(layers.len() as int) =~= layers.deep_view());
    (to_size(width), to_size(height))
}

/// A copy of the rows `rows`.
pub fn copy_rows(rows: &Vec<String>) -> (copy: Vec<String>)
    ensures
        copy@ == rows@,
{
    let mut copy: Vec<String> = Vec::new();
    let mut i: usize = 0;
    while i < rows.len()
        invariant
            i <= rows.len(),
            copy@ == rows@.take(i as int),
        decreases rows.len() - i,
    {
        copy.push(rows[i].clone());
        i += 1;
    }
    assert(rows@.take(rows.len() as int) == rows@);
    copy
}

/// A copy of the layers `layers`.
pub fn copy_layers(layers: &Vec<Vec<String>>) -> (copy: Vec<Vec<String>>)
    ensures
        copy.deep_view() == layers.deep_view(),
{
    let mut copy: Vec<Vec<String>> = Vec::new();
    let mut i: usize = 0;
    while i < layers.len()
        invariant
            i <= layers.len(),
            copy.len() == i,
            forall|k: int| 0 <= k < i ==> (#[trigger] copy@[k])@ == layers@[k]@,
        decreases layers.len() - i,
    {
        copy.push(copy_rows(&layers[i]));
        i += 1;
    }
    assert(copy.deep_view() =~= layers.deep_view()) by {
        assert forall|k: int| 0 <= k < copy.len() implies copy.deep_view()[k]
            == layers.deep_view()[k] by {
            assert(copy@[k].deep_view() =~= layers@[k].deep_view());
        }
    }
    copy
}

/// A copy of the colours `colors`.
pub fn copy_colors(colors: &Vec<Option<Color>>) -> (copy: Vec<Option<Color>>)
    ensures
        copy@ == colors@,
{
    let mut copy: Vec<Option<Color>> = Vec::new();
    let mut i: usize = 0;
    while i < colors.len()
        invariant
            i <= colors.len(),
            copy@ == colors@.take(i as int),
        decreases colors.len() - i,
    {
        copy.push(colors[i]);
        i += 1;
    }
    assert(colors@.take(colors.len() as int) == colors@);
    copy
}

/// A thing that stands where it was put until it is moved.
#[derive(Debug)]
pub struct Boundary {
    width: u16,
    height: u16,
    x: i32,
    y: i32,
    layers: Vec<Vec<String>>,
    colors: Vec<Option<Color>>,
}

impl Boundary {
    /// Holds of every boundary: its size is that of its layers, and each
    /// layer has its colour.
    #[verifier::type_invariant]
    pub closed spec fn well_formed(self) -> bool {
        self.entity().well_formed()
    }

    /// The thing that the texts `layers` draw, one layer each, in the
    /// colours `colors`, with its corner at the cell `(x, y)`.
    pub fn new(layers: Vec<&str>, colors: Vec<Option<Color>>, x: i32, y: i32) -> (b: Boundary)
        requires
            layers.len() == colors.len(),
        ensures
            b.entity() == entity_of(layers.deep_view(), colors@, x, y),
            b.entity().well_formed(),
    {
        let layers = split_layers(&layers);
        let (width, height) = measure(&layers);
        Boundary { width, height, x, y, layers, colors }
    }

    /// Moves the thing `step` cells to the left, as far as cells have
    /// numbers.
    pub fn move_left(&mut self, step: u16)
        ensures
            final(self).entity() == old(self).entity().at(
                if old(self).entity().x - step < i32::MIN {
                    i32::MIN
                } else {
                    (old(self).entity().x - step) as i32
                },
                old(self).entity().y,
            ),
    {
        proof {
            use_type_invariant(&*self);
        }
        let x: i64 = self.x as i64 - step as i64;
        self.x = if x < i32::MIN as i64 { i32::MIN } else { x as i32 };
    }

    /// A copy of the thing.
    pub fn duplicate(&self) -> (b: Boundary)
        ensures
            b.entity() == self.entity(),
    {
        proof {
            use_type_invariant(self);
        }
        Boundary {
            width: self.width,
            height: self.height,
            x: self.x,
            y: self.y,
            layers: copy_layers(&self.layers),
            colors: copy_colors(&self.colors),
        }
    }
}

impl Object for Boundary {
    closed spec fn entity(&self) -> EntityView {
        EntityView {
            width: self.width,
            height: self.height,
            x: self.x,
            y: self.y,
            layers: self.layers.deep_view(),
            colors: self.colors@,
        }
    }

    fn get_size(&self) -> (size: (u16, u16)) {
        (self.width, self.height)
    }

    fn get_pos(&self) -> (pos: (i32, i32)) {
        (self.x, self.y)
    }

    fn set_pos(&mut self, x: u16, y: u16) {
        proof {
            use_type_invariant(&*self);
        }
        self.x = x as i32;
        self.y = y as i32;
    }

    fn get_layers(&self) -> (layers: Vec<Vec<String>>) {
        copy_layers(&self.layers)
    }

    fn get_colors(&self) -> (colors: Vec<Option<Color>>) {
        copy_colors(&self.colors)
    }
}

} // verus!
