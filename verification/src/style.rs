//! Colours, emphasis and styles as plain values.

use vstd::prelude::*;

verus! {

/// A colour of the terminal.
#[derive(Clone, Copy, Debug, PartialEq, Eq, Hash, Structural)]
pub enum Color {
    Reset,
    Black,
    Red,
    Green,
    Yellow,
    Blue,
    Magenta,
    Cyan,
    Gray,
    DarkGray,
    LightRed,
    LightGreen,
    LightYellow,
    LightBlue,
    LightMagenta,
    LightCyan,
    White,
    Rgb(u8, u8, u8),
    Indexed(u8),
}

/// Kinds of emphasis of text, one flag for each.
#[derive(Clone, Copy, Debug, PartialEq, Eq, Hash, Structural)]
pub struct Modifier {
    pub bold: bool,
    pub dim: bool,
    pub italic: bool,
    pub underlined: bool,
    pub slow_blink: bool,
    pub rapid_blink: bool,
    pub reversed: bool,
    pub hidden: bool,
    pub crossed_out: bool,
}

impl Modifier {
    /// No emphasis.
    pub open spec fn none() -> Modifier {
        Modifier {
            bold: false,
            dim: false,
            italic: false,
            underlined: false,
            slow_blink: false,
            rapid_blink: false,
            reversed: false,
            hidden: false,
            crossed_out: false,
        }
    }

    /// The emphasis of `self` together with that of `other`.
    pub open spec fn joined(self, other: Modifier) -> Modifier {
        Modifier {
            bold: self.bold || other.bold,
            dim: self.dim || other.dim,
            italic: self.italic || other.italic,
            underlined: self.underlined || other.underlined,
            slow_blink: self.slow_blink || other.slow_blink,
            rapid_blink: self.rapid_blink || other.rapid_blink,
            reversed: self.reversed || other.reversed,
            hidden: self.hidden || other.hidden,
            crossed_out: self.crossed_out || other.crossed_out,
        }
    }

    /// The emphasis of `self` that `other` does not hold.
    pub open spec fn without(self, other: Modifier) -> Modifier {
        Modifier {
            bold: self.bold && !other.bold,
            dim: self.dim && !other.dim,
            italic: self.italic && !other.italic,
            underlined: self.underlined && !other.underlined,
            slow_blink: self.slow_blink && !other.slow_blink,
            rapid_blink: self.rapid_blink && !other.rapid_blink,
            reversed: self.reversed && !other.reversed,
            hidden: self.hidden && !other.hidden,
            crossed_out: self.crossed_out && !other.crossed_out,
        }
    }

    /// The emphasis that both `self` and `other` hold.
    pub open spec fn common(self, other: Modifier) -> Modifier {
        Modifier {
            bold: self.bold && other.bold,
            dim: self.dim && other.dim,
            italic: self.italic && other.italic,
            underlined: self.underlined && other.underlined,
            slow_blink: self.slow_blink && other.slow_blink,
            rapid_blink: self.rapid_blink && other.rapid_blink,
            reversed: self.reversed && other.reversed,
            hidden: self.hidden && other.hidden,
            crossed_out: self.crossed_out && other.crossed_out,
        }
    }

    /// No emphasis.
    pub fn empty() -> (m: Modifier)
        ensures
            m == Modifier::none(),
    {
        Modifier {
            bold: false,
            dim: false,
            italic: false,
            underlined: false,
            slow_blink: false,
            rapid_blink: false,
            reversed: false,
            hidden: false,
            crossed_out: false,
        }
    }

    /// Bold alone.
    pub fn bold() -> (m: Modifier)
        ensures
            m == (Modifier { bold: true, ..Modifier::none() }),
    {
        let mut m = Modifier::empty();
        m.bold = true;
        m
    }

    /// Underlined alone.
    pub fn underlined() -> (m: Modifier)
        ensures
            m == (Modifier { underlined: true, ..Modifier::none() }),
    {
        let mut m = Modifier::empty();
        m.underlined = true;
        m
    }

    /// Reversed alone.
    pub fn reversed() -> (m: Modifier)
        ensures
            m == (Modifier { reversed: true, ..Modifier::none() }),
    {
        let mut m = Modifier::empty();
        m.reversed = true;
        m
    }

    /// The emphasis of `self` together with that of `other`.
    pub fn union(self, other: Modifier) -> (m: Modifier)
        ensures
            m == self.joined(other),
    {
        Modifier {
            bold: self.bold || other.bold,
            dim: self.dim || other.dim,
            italic: self.italic || other.italic,
            underlined: self.underlined || other.underlined,
            slow_blink: self.slow_blink || other.slow_blink,
            rapid_blink: self.rapid_blink || other.rapid_blink,
            reversed: self.reversed || other.reversed,
            hidden: self.hidden || other.hidden,
            crossed_out: self.crossed_out || other.crossed_out,
        }
    }

    /// The emphasis of `self` that `other` does not hold.
    pub fn difference(self, other: Modifier) -> (m: Modifier)
        ensures
            m == self.without(other),
    {
        Modifier {
            bold: self.bold && !other.bold,
            dim: self.dim && !other.dim,
            italic: self.italic && !other.italic,
            underlined: self.underlined && !other.underlined,
            slow_blink: self.slow_blink && !other.slow_blink,
            rapid_blink: self.rapid_blink && !other.rapid_blink,
            reversed: self.reversed && !other.reversed,
            hidden: self.hidden && !other.hidden,
            crossed_out: self.crossed_out && !other.crossed_out,
        }
    }

    /// Whether `self` holds all the emphasis of `other`.
    pub fn contains(&self, other: Modifier) -> (r: bool)
        ensures
            r == (self.common(other) == other),
    {
        (self.bold || !other.bold) && (self.dim || !other.dim) && (self.italic || !other.italic)
            && (self.underlined || !other.underlined) && (self.slow_blink || !other.slow_blink)
            && (self.rapid_blink || !other.rapid_blink) && (self.reversed || !other.reversed) && (
        self.hidden || !other.hidden) && (self.crossed_out || !other.crossed_out)
    }
}

/// How text is shown: its colours, the emphasis to add and the emphasis to
/// take away.
#[derive(Clone, Copy, Debug, PartialEq, Eq, Hash, Structural)]
pub struct Style {
    pub fg: Option<Color>,
    pub bg: Option<Color>,
    pub add_modifier: Modifier,
    pub sub_modifier: Modifier,
}

impl Style {
    /// The style that changes nothing.
    pub open spec fn plain() -> Style {
        Style { fg: None, bg: None, add_modifier: Modifier::none(), sub_modifier: Modifier::none() }
    }

    /// The style that changes nothing.
    pub fn new() -> (s: Style)
        ensures
            s == Style::plain(),
    {
        Style {
            fg: None,
            bg: None,
            add_modifier: Modifier::empty(),
            sub_modifier: Modifier::empty(),
        }
    }

    /// The style with the foreground colour `color`.
    pub fn fg(self, color: Color) -> (s: Style)
        ensures
            s == (Style { fg: Some(color), ..self }),
    {
        Style {
            fg: Some(color),
            bg: self.bg,
            add_modifier: self.add_modifier,
            sub_modifier: self.sub_modifier,
        }
    }

    /// The style with the background colour `color`.
    pub fn bg(self, color: Color) -> (s: Style)
        ensures
            s == (Style { bg: Some(color), ..self }),
    {
        Style {
            fg: self.fg,
            bg: Some(color),
            add_modifier: self.add_modifier,
            sub_modifier: self.sub_modifier,
        }
    }

    /// The style that also adds the emphasis `modifier`, and no longer takes
    /// any of it away.
    pub fn add_modifier(self, modifier: Modifier) -> (s: Style)
        ensures
            s == (Style {
                add_modifier: self.add_modifier.joined(modifier),
                sub_modifier: self.sub_modifier.without(modifier),
                ..self
            }),
    {
        Style {
            fg: self.fg,
            bg: self.bg,
            add_modifier: self.add_modifier.union(modifier),
            sub_modifier: self.sub_modifier.difference(modifier),
        }
    }
}

impl Default for Style {
    fn default() -> (s: Style)
        ensures
            s == Style::plain(),
    {
        Style::new()
    }
}

} // verus!
