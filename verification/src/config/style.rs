//! Styles as a configuration writes them: a colour for the text, then the
//! word `on` and a colour for what lies behind it, with the words
//! `underline`, `bold` and `inverse` for emphasis.
//!
//! Texts are read character by character, and case is told apart only
//! where it is said otherwise.

use vstd::prelude::*;
use vstd::string::*;
use crate::style::{Color, Modifier, Style};
use crate::text::{
    chars_of, contains, digit_value, find, first_at, has_word, is_word, lower, occurs_at, parse_u8,
    parsed_u8, replace_word, replaced, slice_of, string_of, to_digit, to_lower, trim, trim_chars,
    trim_start_word, without_prefixes,
};

verus! {

/// The colour part of `s`: `s` with `grey` written `gray`, and without the
/// words `bright`, `bold`, `underline` and `inverse` where a space follows
/// them.
pub open spec fn color_text(s: Seq<char>) -> Seq<char> {
    replaced(
        replaced(
            replaced(
                replaced(replaced(s, "grey"@, "gray"@), "bright "@, ""@),
                "bold "@,
                ""@,
            ),
            "underline "@,
            ""@,
        ),
        "inverse "@,
        ""@,
    )
}

/// The emphasis that `s` names: underlined, bold and reversed as far as `s`
/// holds the words `underline`, `bold` and `inverse`.
pub open spec fn modifiers_of(s: Seq<char>) -> Modifier {
    Modifier {
        underlined: contains(s, "underline"@),
        bold: contains(s, "bold"@),
        reversed: contains(s, "inverse"@),
        ..Modifier::none()
    }
}

/// The number that follows the copies of `word` at the start of `s`, or 0
/// where none below 256 follows.
pub open spec fn number_after(s: Seq<char>, word: Seq<char>) -> u8 {
    match parsed_u8(without_prefixes(s, word)) {
        Some(n) => n,
        None => 0,
    }
}

/// The value of `c` as a decimal digit, or 0 where it is none.
pub open spec fn digit_or_zero(c: char) -> nat {
    match digit_value(c) {
        Some(d) => d,
        None => 0,
    }
}

/// `n` as a number of a colour: what is left of it below 256.
pub open spec fn wrapped(n: nat) -> u8 {
    (n % 256) as u8
}

/// The colour that the name `s` stands for, if it is the name of one.
pub open spec fn named_color(s: Seq<char>) -> Option<Color> {
    if s == "bold black"@ {
        Some(Color::Indexed(8))
    } else if s == "bold red"@ {
        Some(Color::Indexed(9))
    } else if s == "bold green"@ {
        Some(Color::Indexed(10))
    } else if s == "bold yellow"@ {
        Some(Color::Indexed(11))
    } else if s == "bold blue"@ {
        Some(Color::Indexed(12))
    } else if s == "bold magenta"@ {
        Some(Color::Indexed(13))
    } else if s == "bold cyan"@ {
        Some(Color::Indexed(14))
    } else if s == "bold white"@ {
        Some(Color::Indexed(15))
    } else if s == "black"@ {
        Some(Color::Indexed(0))
    } else if s == "red"@ {
        Some(Color::Indexed(1))
    } else if s == "green"@ {
        Some(Color::Indexed(2))
    } else if s == "yellow"@ {
        Some(Color::Indexed(3))
    } else if s == "blue"@ {
        Some(Color::Indexed(4))
    } else if s == "magenta"@ {
        Some(Color::Indexed(5))
    } else if s == "cyan"@ {
        Some(Color::Indexed(6))
    } else if s == "white"@ {
        Some(Color::Indexed(7))
    } else {
        None
    }
}

/// The colour that `text` stands for, if it stands for one.
///
/// White space at the ends does not count. A text that holds `color` is the
/// colour of the number after `color`, one that holds `gray` the grey of
/// that number, counted from 232. A text that holds `rgb` is the colour of
/// the cube whose red, green and blue are its fourth, fifth and sixth
/// characters, where it has so many. Any other text is the name of a colour
/// or nothing. Numbers too large for a colour lose what is above 255.
pub open spec fn color_of(text: Seq<char>) -> Option<Color> {
    let s = trim(text);
    if contains(s, "bright color"@) {
        Some(Color::Indexed(number_after(without_prefixes(s, "bright "@), "color"@)))
    } else if contains(s, "color"@) {
        Some(Color::Indexed(number_after(s, "color"@)))
    } else if contains(s, "gray"@) {
        Some(Color::Indexed(wrapped((232 + number_after(s, "gray"@)) as nat)))
    } else if contains(s, "rgb"@) {
        if s.len() >= 6 {
            Some(
                Color::Indexed(
                    wrapped(
                        16 + digit_or_zero(s[3]) * 36 + digit_or_zero(s[4]) * 6 + digit_or_zero(
                            s[5],
                        ),
                    ),
                ),
            )
        } else {
            None
        }
    } else {
        named_color(s)
    }
}

/// Where the style `line` is parted into what is said of the text and what
/// is said of what lies behind it: where `on` and a space first stand in
/// it, in upper or lower case, or at its end.
pub open spec fn parting(line: Seq<char>) -> int {
    if contains(lower(line), "on "@) {
        choose|i: int| first_at(lower(line), "on "@, i)
    } else {
        line.len() as int
    }
}

/// The style `style` with the text in the colour `color`, if there is one.
pub open spec fn with_fg(style: Style, color: Option<Color>) -> Style {
    match color {
        Some(c) => Style { fg: Some(c), ..style },
        None => style,
    }
}

/// The style `style` on the colour `color`, if there is one.
pub open spec fn with_bg(style: Style, color: Option<Color>) -> Style {
    match color {
        Some(c) => Style { bg: Some(c), ..style },
        None => style,
    }
}

/// The style that `line` stands for: the text in the colour named before
/// the parting, on the colour named after it, with the emphasis named in
/// either part.
pub open spec fn style_of(line: Seq<char>) -> Style {
    let at = parting(line);
    let foreground = line.take(at);
    let background = replaced(line.skip(at), "on "@, ""@);
    let colored = with_bg(
        with_fg(Style::plain(), color_of(color_text(foreground))),
        color_of(color_text(background)),
    );
    Style {
        add_modifier: colored.add_modifier.joined(
            modifiers_of(foreground).joined(modifiers_of(background)),
        ),
        sub_modifier: colored.sub_modifier.without(
            modifiers_of(foreground).joined(modifiers_of(background)),
        ),
        ..colored
    }
}

/// There is one first place at most at which a text stands in another.
pub proof fn lemma_first_at_unique(s: Seq<char>, pat: Seq<char>, i: int, j: int)
    requires
        first_at(s, pat, i),
        first_at(s, pat, j),
    ensures
        i == j,
{
    if i < j {
        assert(!occurs_at(s, pat, i));
    } else if j < i {
        assert(!occurs_at(s, pat, j));
    }
}

/// The colour part of a text and the emphasis that it names.
pub fn process_chars(color_str: &Vec<char>) -> (r: (Vec<char>, Modifier))
    ensures
        r.0@ == color_text(color_str@),
        r.1 == modifiers_of(color_str@),
{
    let color = replace_word(color_str, "grey", "gray");
    let color = replace_word(&color, "bright ", "");
    let color = replace_word(&color, "bold ", "");
    let color = replace_word(&color, "underline ", "");
    let color = replace_word(&color, "inverse ", "");
    let mut modifiers = Modifier::empty();
    if has_word(color_str, "underline") {
        modifiers = modifiers.union(Modifier::underlined());
    }
    if has_word(color_str, "bold") {
        modifiers = modifiers.union(Modifier::bold());
    }
    if has_word(color_str, "inverse") {
        modifiers = modifiers.union(Modifier::reversed());
    }
    (color, modifiers)
}

/// The colour part of a text and the emphasis that it names.
pub fn process_color_string(color_str: &str) -> (r: (String, Modifier))
    ensures
        r.0@ == color_text(color_str@),
        r.1 == modifiers_of(color_str@),
{
    let chars = chars_of(color_str);
    let (color, modifiers) = process_chars(&chars);
    (string_of(&color), modifiers)
}

/// The number that follows the copies of `word` at the start of `s`, or 0.
fn read_number_after(s: &Vec<char>, word: &str) -> (n: u8)
    ensures
        n == number_after(s@, word@),
{
    let rest = trim_start_word(s, word);
    match parse_u8(&rest) {
        Some(n) => n,
        None => 0,
    }
}

/// The value of `c` as a decimal digit, or 0 where it is none.
fn read_digit(c: char) -> (d: u32)
    ensures
        d == digit_or_zero(c),
        d < 10,
{
    match to_digit(c) {
        Some(d) => d as u32,
        None => 0,
    }
}

/// The colour that the name `s` stands for, if it is the name of one.
fn lookup_named_color(s: &Vec<char>) -> (c: Option<Color>)
    ensures
        c == named_color(s@),
{
    if is_word(s, "bold black") {
        Some(Color::Indexed(8))
    } else if is_word(s, "bold red") {
        Some(Color::Indexed(9))
    } else if is_word(s, "bold green") {
        Some(Color::Indexed(10))
    } else if is_word(s, "bold yellow") {
        Some(Color::Indexed(11))
    } else if is_word(s, "bold blue") {
        Some(Color::Indexed(12))
    } else if is_word(s, "bold magenta") {
        Some(Color::Indexed(13))
    } else if is_word(s, "bold cyan") {
        Some(Color::Indexed(14))
    } else if is_word(s, "bold white") {
        Some(Color::Indexed(15))
    } else if is_word(s, "black") {
        Some(Color::Indexed(0))
    } else if is_word(s, "red") {
        Some(Color::Indexed(1))
    } else if is_word(s, "green") {
        Some(Color::Indexed(2))
    } else if is_word(s, "yellow") {
        Some(Color::Indexed(3))
    } else if is_word(s, "blue") {
        Some(Color::Indexed(4))
    } else if is_word(s, "magenta") {
        Some(Color::Indexed(5))
    } else if is_word(s, "cyan") {
        Some(Color::Indexed(6))
    } else if is_word(s, "white") {
        Some(Color::Indexed(7))
    } else {
        None
    }
}

/// The colour that the characters `text` stand for, if they stand for one.
pub fn parse_color_chars(text: &Vec<char>) -> (c: Option<Color>)
    ensures
        c == color_of(text@),
{
    let s = trim_chars(text);
    if has_word(&s, "bright color") {
        let rest = trim_start_word(&s, "bright ");
        Some(Color::Indexed(read_number_after(&rest, "color")))
    } else if has_word(&s, "color") {
        Some(Color::Indexed(read_number_after(&s, "color")))
    } else if has_word(&s, "gray") {
        let n: u32 = 232 + read_number_after(&s, "gray") as u32;
        Some(Color::Indexed((n % 256) as u8))
    } else if has_word(&s, "rgb") {
        if s.len() >= 6 {
            let red = read_digit(s[3]);
            let green = read_digit(s[4]);
            let blue = read_digit(s[5]);
            let n: u32 = 16 + red * 36 + green * 6 + blue;
            Some(Color::Indexed((n % 256) as u8))
        } else {
            None
        }
    } else {
        lookup_named_color(&s)
    }
}

/// The colour that `s` stands for, if it stands for one.
pub fn parse_color(s: &str) -> (c: Option<Color>)
    ensures
        c == color_of(s@),
{
    let chars = chars_of(s);
    parse_color_chars(&chars)
}

/// The style that `line` stands for.
pub fn parse_style(line: &str) -> (style: Style)
    ensures
        style == style_of(line@),
{
    let chars = chars_of(line);
    let lowered = to_lower(&chars);
    let on = chars_of("on ");
    let at: usize = match find(&lowered, &on) {
        Some(i) => {
            proof {
                let j = choose|j: int| first_at(lower(chars@), "on "@, j);
                assert(first_at(lower(chars@), "on "@, i as int));
                lemma_first_at_unique(lower(chars@), "on "@, i as int, j);
            }
            i
        },
        None => chars.len(),
    };
    assert(at == parting(line@));
    assert(at <= chars.len());
    let foreground = slice_of(&chars, 0, at);
    let background = slice_of(&chars, at, chars.len());
    let foreground = process_chars(&foreground);
    let background = process_chars(&replace_word(&background, "on ", ""));
    let mut style = Style::default();
    if let Some(fg) = parse_color_chars(&foreground.0) {
        style = style.fg(fg);
    }
    if let Some(bg) = parse_color_chars(&background.0) {
        style = style.bg(bg);
    }
    style = style.add_modifier(foreground.1.union(background.1));
    style
}

} // verus!
