//! Text of several lines, and where each piece of it goes on the screen.
//!
//! The text is shown line by line or glyph by glyph. Line by line, each
//! line gets a rectangle one row high; glyph by glyph, each glyph gets a
//! rectangle of one cell. White space can be left out, so that what lies
//! under it stays visible.

use vstd::prelude::*;
use vstd::string::*;
use crate::layout::Rect;
use crate::style::Style;
use crate::text::{
    char_is_whitespace, chars_of, count_leading_ws, is_whitespace, leading_ws, string_of, trim,
    trim_chars,
};

verus! {

/// One style for the whole text.
pub struct SetStyle(pub Style);

/// No style for the whole text.
#[derive(Default)]
pub struct NoStyle;

/// A style for each line.
pub struct SetLineStyles(pub Vec<Style>);

/// No style for each line.
#[derive(Default)]
pub struct NoLineStyles;

/// The text is shown line by line.
#[derive(Default)]
pub struct LineMode;

/// The text is shown glyph by glyph.
#[derive(Default)]
pub struct PixelMode;

/// Text of several lines, with how it is to be shown: `U` says whether it
/// has one style, `V` whether each line has its own, `M` whether it is shown
/// line by line or glyph by glyph.
pub struct MultiLine<U, V, M> {
    pub lines: Vec<String>,
    pub line_padding: u16,
    pub ignore_whitespace: bool,
    pub style: U,
    pub line_styles: V,
    pub mode: M,
}

impl MultiLine<SetStyle, SetLineStyles, LineMode> {
    /// The text `lines`, shown line by line without style, the lines one
    /// below the other, white space kept.
    pub fn new(lines: Vec<String>) -> (m: MultiLine<NoStyle, NoLineStyles, LineMode>)
        ensures
            m.lines == lines,
            m.line_padding == 0,
            !m.ignore_whitespace,
    {
        MultiLine::<NoStyle, NoLineStyles, LineMode> {
            lines,
            line_padding: 0,
            ignore_whitespace: false,
            style: NoStyle,
            line_styles: NoLineStyles,
            mode: LineMode,
        }
    }
}

impl<U, V, M> MultiLine<U, V, M> {
    /// The same text with `line_padding` empty rows between two lines.
    pub fn line_padding(self, line_padding: u16) -> (m: MultiLine<U, V, M>)
        ensures
            m == (MultiLine { line_padding, ..self }),
    {
        MultiLine {
            lines: self.lines,
            line_padding,
            ignore_whitespace: self.ignore_whitespace,
            style: self.style,
            line_styles: self.line_styles,
            mode: self.mode,
        }
    }

    /// The same text with white space left out or kept.
    pub fn ignore_whitespace(self, ignore_whitespace: bool) -> (m: MultiLine<U, V, M>)
        ensures
            m == (MultiLine { ignore_whitespace, ..self }),
    {
        MultiLine {
            lines: self.lines,
            line_padding: self.line_padding,
            ignore_whitespace,
            style: self.style,
            line_styles: self.line_styles,
            mode: self.mode,
        }
    }
}

impl MultiLine<NoStyle, NoLineStyles, LineMode> {
    /// The same text in the style `style`.
    pub fn style(self, style: Style) -> (m: MultiLine<SetStyle, NoLineStyles, LineMode>)
        ensures
            m.lines == self.lines,
            m.line_padding == self.line_padding,
            m.ignore_whitespace == self.ignore_whitespace,
            m.style.0 == style,
    {
        MultiLine {
            lines: self.lines,
            line_padding: self.line_padding,
            ignore_whitespace: self.ignore_whitespace,
            mode: self.mode,
            style: SetStyle(style),
            line_styles: NoLineStyles,
        }
    }

    /// The same text with the style `styles[i]` for its `i`-th line.
    pub fn line_styles(self, styles: Vec<Style>) -> (m: MultiLine<NoStyle, SetLineStyles, LineMode>)
        requires
            styles.len() == self.lines.len(),
        ensures
            m.lines == self.lines,
            m.line_padding == self.line_padding,
            m.ignore_whitespace == self.ignore_whitespace,
            m.line_styles.0 == styles,
    {
        MultiLine {
            lines: self.lines,
            line_padding: self.line_padding,
            ignore_whitespace: self.ignore_whitespace,
            mode: self.mode,
            style: NoStyle,
            line_styles: SetLineStyles(styles),
        }
    }

    /// The same text shown glyph by glyph.
    pub fn pixel_mode(self) -> (m: MultiLine<NoStyle, NoLineStyles, PixelMode>)
        ensures
            m.lines == self.lines,
            m.line_padding == self.line_padding,
            m.ignore_whitespace == self.ignore_whitespace,
    {
        MultiLine {
            lines: self.lines,
            line_padding: self.line_padding,
            ignore_whitespace: self.ignore_whitespace,
            mode: PixelMode,
            style: self.style,
            line_styles: self.line_styles,
        }
    }
}

impl MultiLine<NoStyle, NoLineStyles, PixelMode> {
    /// The same text in the style `style`.
    pub fn style(self, style: Style) -> (m: MultiLine<SetStyle, NoLineStyles, PixelMode>)
        ensures
            m.lines == self.lines,
            m.line_padding == self.line_padding,
            m.ignore_whitespace == self.ignore_whitespace,
            m.style.0 == style,
    {
        MultiLine {
            lines: self.lines,
            line_padding: self.line_padding,
            ignore_whitespace: self.ignore_whitespace,
            mode: self.mode,
            style: SetStyle(style),
            line_styles: NoLineStyles,
        }
    }

    /// The same text shown line by line.
    pub fn line_mode(self) -> (m: MultiLine<NoStyle, NoLineStyles, LineMode>)
        ensures
            m.lines == self.lines,
            m.line_padding == self.line_padding,
            m.ignore_whitespace == self.ignore_whitespace,
    {
        MultiLine {
            lines: self.lines,
            line_padding: self.line_padding,
            ignore_whitespace: self.ignore_whitespace,
            mode: LineMode,
            style: self.style,
            line_styles: self.line_styles,
        }
    }
}

/// `n`, or the largest number of a column or row where `n` is larger.
pub open spec fn cell(n: int) -> u16 {
    if n > u16::MAX {
        u16::MAX
    } else {
        n as u16
    }
}

/// The row of the `index`-th line of a text that begins in row `y`, with
/// `line_padding` empty rows between two lines.
pub open spec fn line_row(y: u16, index: int, line_padding: u16) -> u16 {
    cell(y + index * (1 + line_padding))
}

/// What is shown of the line `line`: the line itself, or the line without
/// the white space at its ends where white space is left out.
pub open spec fn shown_line(line: Seq<char>, ignore_whitespace: bool) -> Seq<char> {
    if ignore_whitespace {
        trim(line)
    } else {
        line
    }
}

/// The rectangle of the `index`-th line `line` of a text shown in `area`:
/// one row high, as wide as what is shown of the line, and moved right by
/// the white space left out at its start.
pub open spec fn line_area(
    line: Seq<char>,
    index: int,
    line_padding: u16,
    ignore_whitespace: bool,
    area: Rect,
) -> Rect {
    Rect {
        x: if ignore_whitespace {
            cell(area.x + leading_ws(line))
        } else {
            area.x
        },
        y: line_row(area.y, index, line_padding),
        width: cell(shown_line(line, ignore_whitespace).len() as int),
        height: 1,
    }
}

/// `a + b`, or the largest number of a column or row where that is larger.
fn cell_sum(a: u16, b: usize) -> (r: u16)
    ensures
        r == cell(a + b),
{
    if b > 0xffff || a as usize + b > 0xffff {
        0xffff
    } else {
        (a as usize + b) as u16
    }
}

/// The row of the `index`-th line of a text that begins in row `y`.
fn row_of(y: u16, index: usize, line_padding: u16) -> (r: u16)
    ensures
        r == line_row(y, index as int, line_padding),
{
    let step: u64 = 1 + line_padding as u64;
    if index > 0xffff {
        assert(index * (1 + line_padding) > 0xffff) by (nonlinear_arith)
            requires
                index > 0xffff,
                line_padding >= 0,
        ;
        0xffff
    } else {
        assert(0 <= index * (1 + line_padding) <= 0xffff * 0x10000) by (nonlinear_arith)
            requires
                0 <= index <= 0xffff,
                0 <= line_padding <= 0xffff,
        ;
        let offset: u64 = index as u64 * step;
        if y as u64 + offset > 0xffff {
            0xffff
        } else {
            (y as u64 + offset) as u16
        }
    }
}

/// What is shown of each line of a text, and the rectangle of each.
pub fn preprocess_lines(
    lines: Vec<String>,
    line_padding: u16,
    ignore_whitespace: bool,
    area: Rect,
) -> (r: (Vec<String>, Vec<Rect>))
    ensures
        r.0.len() == lines.len(),
        r.1.len() == lines.len(),
        forall|i: int|
            0 <= i < lines.len() ==> (#[trigger] r.0@[i])@ == shown_line(
                lines@[i]@,
                ignore_whitespace,
            ),
        forall|i: int|
            0 <= i < lines.len() ==> #[trigger] r.1@[i] == line_area(
                lines@[i]@,
                i,
                line_padding,
                ignore_whitespace,
                area,
            ),
{
    let mut texts: Vec<String> = Vec::new();
    let mut areas: Vec<Rect> = Vec::new();
    let mut i: usize = 0;
    while i < lines.len()
        invariant
            i <= lines.len(),
            texts.len() == i,
            areas.len() == i,
            forall|k: int|
                0 <= k < i ==> (#[trigger] texts@[k])@ == shown_line(lines@[k]@, ignore_whitespace),
            forall|k: int|
                0 <= k < i ==> #[trigger] areas@[k] == line_area(
                    lines@[k]@,
                    k,
                    line_padding,
                    ignore_whitespace,
                    area,
                ),
        decreases lines.len() - i,
    {
        let chars = chars_of(lines[i].as_str());
        let (shown, x) = if ignore_whitespace {
            let prefix = count_leading_ws(&chars);
            (trim_chars(&chars), cell_sum(area.x, prefix))
        } else {
            (chars, area.x)
        };
        areas.push(
            Rect {
                x,
                y: row_of(area.y, i, line_padding),
                width: cell_sum(0, shown.len()),
                height: 1,
            },
        );
        texts.push(string_of(&shown));
        i += 1;
    }
    (texts, areas)
}

/// The glyphs of the first `n` columns of the `row`-th line `line` of a
/// text shown glyph by glyph in `area`, each with its cell; white space is
/// left out where `ignore_whitespace` holds.
pub open spec fn row_pixels(
    line: Seq<char>,
    n: int,
    row: int,
    line_padding: u16,
    ignore_whitespace: bool,
    area: Rect,
) -> Seq<(char, Rect)>
    decreases n,
{
    if n <= 0 {
        Seq::empty()
    } else {
        let before = row_pixels(line, n - 1, row, line_padding, ignore_whitespace, area);
        if ignore_whitespace && is_whitespace(line[n - 1]) {
            before
        } else {
            before.push(
                (
                    line[n - 1],
                    Rect {
                        x: cell(area.x + (n - 1)),
                        y: line_row(area.y, row, line_padding),
                        width: 1,
                        height: 1,
                    },
                ),
            )
        }
    }
}

/// The glyphs of the first `n` lines of a text shown glyph by glyph in
/// `area`, line after line, each with its cell.
pub open spec fn text_pixels(
    lines: Seq<Seq<char>>,
    n: int,
    line_padding: u16,
    ignore_whitespace: bool,
    area: Rect,
) -> Seq<(char, Rect)>
    decreases n,
{
    if n <= 0 {
        Seq::empty()
    } else {
        text_pixels(lines, n - 1, line_padding, ignore_whitespace, area) + row_pixels(
            lines[n - 1],
            lines[n - 1].len() as int,
            n - 1,
            line_padding,
            ignore_whitespace,
            area,
        )
    }
}

/// Whether the glyphs `pixels` with the cells `areas` are the pairs
/// `expected`.
pub open spec fn pixels_are(
    pixels: Seq<String>,
    areas: Seq<Rect>,
    expected: Seq<(char, Rect)>,
) -> bool {
    &&& pixels.len() == expected.len()
    &&& areas.len() == expected.len()
    &&& forall|i: int| 0 <= i < expected.len() ==> (#[trigger] pixels[i])@ == seq![expected[i].0]
    &&& forall|i: int| 0 <= i < expected.len() ==> #[trigger] areas[i] == expected[i].1
}

/// Each glyph of a text that is shown, and the cell of each.
pub fn preprocess_pixels(
    lines: Vec<String>,
    line_padding: u16,
    ignore_whitespace: bool,
    area: Rect,
) -> (r: (Vec<String>, Vec<Rect>))
    ensures
        pixels_are(
            r.0@,
            r.1@,
            text_pixels(
                lines.deep_view(),
                lines.len() as int,
                line_padding,
                ignore_whitespace,
                area,
            ),
        ),
{
    let mut pixels: Vec<String> = Vec::new();
    let mut areas: Vec<Rect> = Vec::new();
    let ghost all = lines.deep_view();
    let mut r: usize = 0;
    while r < lines.len()
        invariant
            r <= lines.len(),
            all == lines.deep_view(),
            pixels_are(
                pixels@,
                areas@,
                text_pixels(all, r as int, line_padding, ignore_whitespace, area),
            ),
        decreases lines.len() - r,
    {
        let chars = chars_of(lines[r].as_str());
        let y = row_of(area.y, r, line_padding);
        let ghost done = text_pixels(all, r as int, line_padding, ignore_whitespace, area);
        assert(all[r as int] == chars@);
        let mut c: usize = 0;
        while c < chars.len()
            invariant
                c <= chars.len(),
                y == line_row(area.y, r as int, line_padding),
                pixels_are(
                    pixels@,
                    areas@,
                    done + row_pixels(
                        chars@,
                        c as int,
                        r as int,
                        line_padding,
                        ignore_whitespace,
                        area,
                    ),
                ),
            decreases chars.len() - c,
        {
            let ghost before = row_pixels(
                chars@,
                c as int,
                r as int,
                line_padding,
                ignore_whitespace,
                area,
            );
            if !(ignore_whitespace && char_is_whitespace(chars[c])) {
                let mut pixel = String::new();
                pixel.push(chars[c]);
                let place = Rect { x: cell_sum(area.x, c), y, width: 1, height: 1 };
                pixels.push(pixel);
                areas.push(place);
                proof {
                    assert(pixel@ =~= seq![chars@[c as int]]);
                    assert(done + before.push((chars@[c as int], place)) =~= (done + before).push(
                        (chars@[c as int], place),
                    ));
                }
            }
            c += 1;
        }
        r += 1;
    }
    (pixels, areas)
}

} // verus!
