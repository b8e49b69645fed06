//! How pipes are made: what is drawn by lot, how the lots are fitted to the
//! canvas, and the glyphs of a pipe.

use vstd::prelude::*;
use vstd::string::*;
use crate::text::{lemma_line_len_is, line_body, text_rows};

verus! {

/// The glyph of the body of a pipe.
pub const PIPE_GLYPH: char = '|';

/// The glyph of the rim of a pipe.
pub const RIM_GLYPH: char = '█';

/// Three numbers drawn by lot, from which the next pair of pipes is made:
/// one for the gap between the pipes, one for the height of the lower pipe,
/// one for the distance to the pair before.
#[derive(Clone, Copy, Debug, PartialEq, Eq, Structural)]
pub struct Draws {
    pub gap: u16,
    pub height: u16,
    pub margin: u16,
}

/// `rand::random::<u16>()`: a number that the thread's random generator
/// gives. Nothing is known of it but its type.
#[verifier::external_body]
fn random_u16() -> (r: u16) {
    rand::random::<u16>()
}

impl Draws {
    /// Draws three numbers by lot.
    pub fn random() -> (d: Draws) {
        let gap = random_u16();
        let height = random_u16();
        let margin = random_u16();
        Draws { gap, height, margin }
    }
}

/// Whether numbers can be drawn from `base - range` up to, not including,
/// `base + range`.
pub open spec fn can_sample(base: u16, range: u16) -> bool {
    1 <= range <= base && base + range <= u16::MAX
}

/// The number from `base - range` up to, not including, `base + range`
/// that the lot `draw` stands for.
pub open spec fn sampled_in(base: u16, range: u16, draw: u16) -> int {
    base - range + draw as int % (2 * range)
}

/// The number from `base - range` up to, not including, `base + range`
/// that the lot `draw` stands for.
pub fn rand_in(base: u16, range: u16, draw: u16) -> (r: u16)
    requires
        can_sample(base, range),
    ensures
        r == sampled_in(base, range, draw),
        base - range <= r < base + range,
{
    let span: u32 = 2 * range as u32;
    let r: u32 = base as u32 - range as u32 + draw as u32 % span;
    r as u16
}

/// The gap `gap`, made smaller where the canvas is too low for it: both
/// pipes need two rows.
pub open spec fn fitted_gap(canvas_height: u16, gap: u16) -> u16 {
    if canvas_height >= gap + 4 {
        gap
    } else if canvas_height >= 4 {
        (canvas_height - 4) as u16
    } else {
        0
    }
}

/// The height of the lower pipe that the lot `draw` stands for: from 2 up
/// to, not including, what leaves the gap `gap` and two rows for the upper
/// pipe; 2 where the canvas leaves no choice.
pub open spec fn lower_height(canvas_height: u16, gap: u16, draw: u16) -> u16 {
    if canvas_height > gap + 4 {
        (2 + draw as int % (canvas_height - gap - 4)) as u16
    } else {
        2
    }
}

/// The height of the upper pipe: what the lower pipe and the gap leave of
/// the canvas, and 2 at least.
pub open spec fn upper_height(canvas_height: u16, gap: u16, lower: u16) -> u16 {
    if canvas_height >= gap + lower + 2 {
        (canvas_height - gap - lower) as u16
    } else {
        2
    }
}

/// On a canvas of four rows or more, both pipes have two rows at least, and
/// the two pipes and the gap between them fill the height of the canvas
/// exactly, whatever was drawn.
pub proof fn lemma_pipe_heights(canvas_height: u16, gap: u16, draw: u16)
    requires
        canvas_height >= 4,
    ensures
        ({
            let fitted = fitted_gap(canvas_height, gap);
            let lower = lower_height(canvas_height, fitted, draw);
            let upper = upper_height(canvas_height, fitted, lower);
            &&& fitted <= gap
            &&& lower >= 2
            &&& upper >= 2
            &&& lower + fitted + upper == canvas_height
        }),
{
}

/// On a canvas high enough for the gap that was drawn, the gap stays as it
/// was drawn.
pub proof fn lemma_gap_kept(canvas_height: u16, gap: u16)
    requires
        canvas_height >= gap + 4,
    ensures
        fitted_gap(canvas_height, gap) == gap,
{
}

/// Both pipes have two rows at least on every canvas.
pub proof fn lemma_pipe_heights_min(canvas_height: u16, gap: u16, draw: u16)
    ensures
        lower_height(canvas_height, fitted_gap(canvas_height, gap), draw) >= 2,
        upper_height(
            canvas_height,
            fitted_gap(canvas_height, gap),
            lower_height(canvas_height, fitted_gap(canvas_height, gap), draw),
        ) >= 2,
{
}

/// The gap `gap`, made smaller where the canvas is too low for it.
pub fn fit_gap(canvas_height: u16, gap: u16) -> (r: u16)
    ensures
        r == fitted_gap(canvas_height, gap),
{
    if canvas_height as u32 >= gap as u32 + 4 {
        gap
    } else if canvas_height >= 4 {
        canvas_height - 4
    } else {
        0
    }
}

/// The height of the lower pipe that the lot `draw` stands for.
pub fn lower_pipe_height(canvas_height: u16, gap: u16, draw: u16) -> (r: u16)
    ensures
        r == lower_height(canvas_height, gap, draw),
{
    if canvas_height as u32 > gap as u32 + 4 {
        let span: u16 = canvas_height - gap - 4;
        let r: u32 = 2 + (draw % span) as u32;
        r as u16
    } else {
        2
    }
}

/// The height of the upper pipe.
pub fn upper_pipe_height(canvas_height: u16, gap: u16, lower: u16) -> (r: u16)
    ensures
        r == upper_height(canvas_height, gap, lower),
{
    if canvas_height as u32 >= gap as u32 + lower as u32 + 2 {
        canvas_height - gap - lower
    } else {
        2
    }
}

/// The glyph `c`, `n` times.
pub open spec fn repeated(c: char, n: nat) -> Seq<char> {
    Seq::new(n, |i: int| c)
}

/// The rows `rows`, one below the other: a line feed between each two.
pub open spec fn joined(rows: Seq<Seq<char>>) -> Seq<char>
    decreases rows.len(),
{
    if rows.len() == 0 {
        Seq::empty()
    } else if rows.len() == 1 {
        rows[0]
    } else {
        joined(rows.drop_last()) + seq!['\n'] + rows.last()
    }
}

/// The rows of a pipe from top to bottom: two rows of rim and rows of body,
/// the rim on top where `reverse` holds and at the bottom where it does
/// not.
pub open spec fn pipe_rows(width: u16, height: u16, reverse: bool) -> Seq<Seq<char>>
    recommends
        height >= 2,
{
    let body = Seq::new((height - 2) as nat, |i: int| repeated(PIPE_GLYPH, width as nat));
    let rim = Seq::new(2, |i: int| repeated(RIM_GLYPH, width as nat));
    if reverse {
        rim + body
    } else {
        body + rim
    }
}

/// The text of a pipe.
pub open spec fn pipe_text(width: u16, height: u16, reverse: bool) -> Seq<char> {
    joined(pipe_rows(width, height, reverse))
}

/// A text of two rows or more is its first row, a line feed, and the text
/// of the other rows.
pub proof fn lemma_joined_front(rows: Seq<Seq<char>>)
    requires
        rows.len() >= 2,
    ensures
        joined(rows) == rows[0] + seq!['\n'] + joined(rows.skip(1)),
    decreases rows.len(),
{
    if rows.len() == 2 {
        assert(rows.drop_last() == seq![rows[0]]);
        assert(rows.skip(1) == seq![rows[1]]);
        assert(joined(rows.drop_last()) == rows[0]);
        assert(joined(rows.skip(1)) == rows[1]);
    } else {
        let init = rows.drop_last();
        lemma_joined_front(init);
        assert(init.skip(1) == rows.skip(1).drop_last());
        assert(rows.skip(1).last() == rows.last());
        assert(init[0] == rows[0]);
        assert(joined(rows.skip(1)) == joined(init.skip(1)) + seq!['\n'] + rows.last());
        assert(joined(rows) == (rows[0] + seq!['\n'] + joined(init.skip(1))) + seq!['\n']
            + rows.last());
        assert((rows[0] + seq!['\n'] + joined(init.skip(1))) + seq!['\n'] + rows.last() == rows[0]
            + seq!['\n'] + (joined(init.skip(1)) + seq!['\n'] + rows.last()));
    }
}

/// Whether `row` can be a line of a text: it is not empty, holds no line
/// feed and does not end in a carriage return.
pub open spec fn is_line(row: Seq<char>) -> bool {
    &&& row.len() > 0
    &&& forall|j: int| 0 <= j < row.len() ==> row[j] != '\n'
    &&& row.last() != '\r'
}

/// The lines of rows written one below the other are those rows.
pub proof fn lemma_rows_of_joined(rows: Seq<Seq<char>>)
    requires
        forall|i: int| 0 <= i < rows.len() ==> is_line(#[trigger] rows[i]),
    ensures
        text_rows(joined(rows)) == rows,
    decreases rows.len(),
{
    if rows.len() == 0 {
    } else if rows.len() == 1 {
        let s = rows[0];
        assert(is_line(s));
        lemma_line_len_is(s, s.len() as int);
        assert(text_rows(s) == seq![s]);
        assert(rows == seq![s]);
    } else {
        lemma_joined_front(rows);
        let first = rows[0];
        assert(is_line(first));
        let rest = rows.skip(1);
        assert forall|i: int| 0 <= i < rest.len() implies is_line(#[trigger] rest[i]) by {
            assert(rest[i] == rows[i + 1]);
        }
        lemma_rows_of_joined(rest);
        let s = joined(rows);
        let n = first.len() as int;
        assert(s == first + seq!['\n'] + joined(rest));
        assert forall|i: int| 0 <= i < n implies s[i] != '\n' by {
            assert(s[i] == first[i]);
        }
        assert(s[n] == '\n');
        lemma_line_len_is(s, n);
        assert(s[n - 1] == first.last());
        assert(line_body(s, n) == first) by {
            assert(s.take(n) == first);
        }
        assert(s.skip(n + 1) == joined(rest));
        assert(text_rows(s) == seq![first] + rest);
        assert(seq![first] + rest == rows);
    }
}

/// The rows of the text of a pipe of some width are the rows of the pipe.
pub proof fn lemma_pipe_text_rows(width: u16, height: u16, reverse: bool)
    requires
        width >= 1,
        height >= 2,
    ensures
        text_rows(pipe_text(width, height, reverse)) == pipe_rows(width, height, reverse),
        pipe_rows(width, height, reverse).len() == height,
        forall|i: int|
            0 <= i < height ==> (#[trigger] pipe_rows(width, height, reverse)[i]).len() == width,
{
    let rows = pipe_rows(width, height, reverse);
    assert forall|i: int| 0 <= i < rows.len() implies is_line(#[trigger] rows[i]) by {
        let row = rows[i];
        assert(row == repeated(PIPE_GLYPH, width as nat) || row == repeated(
            RIM_GLYPH,
            width as nat,
        ));
    }
    lemma_rows_of_joined(rows);
}

/// The glyph `c`, `n` times.
pub fn repeat_glyph(c: char, n: u16) -> (s: String)
    ensures
        s@ == repeated(c, n as nat),
{
    let mut s = String::new();
    let mut i: u16 = 0;
    while i < n
        invariant
            i <= n,
            s@ == repeated(c, i as nat),
        decreases n - i,
    {
        s.push(c);
        i += 1;
        assert(s@ =~= repeated(c, i as nat));
    }
    assert(s@ =~= repeated(c, n as nat));
    s
}

/// The text of a pipe `width` glyphs wide and `height` rows high.
pub fn generate_pipe_string(width: u16, height: u16, reverse: bool) -> (text: String)
    requires
        height >= 2,
    ensures
        text@ == pipe_text(width, height, reverse),
{
    let row = repeat_glyph(PIPE_GLYPH, width);
    let edge_row = repeat_glyph(RIM_GLYPH, width);
    let ghost rows = pipe_rows(width, height, reverse);
    let mut text = String::new();
    let mut i: u16 = 0;
    assert(rows.take(0) =~= Seq::<Seq<char>>::empty());
    while i < height
        invariant
            i <= height,
            height >= 2,
            rows == pipe_rows(width, height, reverse),
            rows.len() == height,
            row@ == repeated(PIPE_GLYPH, width as nat),
            edge_row@ == repeated(RIM_GLYPH, width as nat),
            text@ == joined(rows.take(i as int)),
        decreases height - i,
    {
        let ghost before = text@;
        if i > 0 {
            text.push('\n');
        }
        let is_rim = if reverse { i < 2 } else { i >= height - 2 };
        if is_rim {
            text.append(edge_row.as_str());
        } else {
            text.append(row.as_str());
        }
        proof {
            let done = rows.take(i as int);
            let next = rows.take(i + 1);
            assert(next.drop_last() =~= done);
            assert(next.last() == rows[i as int]);
            if i == 0 {
                assert(next =~= seq![rows[0]]);
                assert(text@ =~= rows[0]);
            } else {
                assert(text@ =~= joined(done) + seq!['\n'] + rows[i as int]);
            }
        }
        i += 1;
    }
    assert(rows.take(height as int) =~= rows);
    text
}

} // verus!
