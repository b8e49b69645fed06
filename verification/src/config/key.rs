//! Key descriptors: the text form of a key stroke, as a binding table
//! writes it, and the way back from a key event to text.
//!
//! A descriptor is any number of the prefixes `ctrl-`, `alt-` and `shift-`
//! followed by the name of a key or by a single character. Letters are read
//! without regard to case, and the whole may stand in angle brackets.

use vstd::prelude::*;
use vstd::string::*;
use crate::keys::{KeyCode, KeyEvent, KeyEventKind, KeyEventState, KeyModifiers};
use crate::text::{
    ascii_upper, chars_of, contains, count_char, count_of, decimal, has_word, is_word, lower,
    matches_at, push_decimal, skip_chars, starts_with, string_of, strip_prefix, strip_prefix_char,
    to_ascii_upper, to_lower, trim_end_char, trim_end_matches, trim_start_char,
    trim_start_matches,
};

verus! {

/// The prefix that adds the control key.
pub open spec fn ctrl_prefix() -> Seq<char> {
    seq!['c', 't', 'r', 'l', '-']
}

/// The prefix that adds the alt key.
pub open spec fn alt_prefix() -> Seq<char> {
    seq!['a', 'l', 't', '-']
}

/// The prefix that adds the shift key.
pub open spec fn shift_prefix() -> Seq<char> {
    seq!['s', 'h', 'i', 'f', 't', '-']
}

/// What is left of `raw` once the modifier prefixes at its start are taken
/// off, and the modifiers that they name.
pub open spec fn split_modifiers(raw: Seq<char>) -> (Seq<char>, KeyModifiers)
    decreases raw.len(),
{
    if starts_with(raw, ctrl_prefix()) {
        let (rest, m) = split_modifiers(raw.skip(5));
        (rest, KeyModifiers { control: true, ..m })
    } else if starts_with(raw, alt_prefix()) {
        let (rest, m) = split_modifiers(raw.skip(4));
        (rest, KeyModifiers { alt: true, ..m })
    } else if starts_with(raw, shift_prefix()) {
        let (rest, m) = split_modifiers(raw.skip(6));
        (rest, KeyModifiers { shift: true, ..m })
    } else {
        (raw, KeyModifiers::none())
    }
}

/// The key that the name `raw` stands for, if it is the name of one.
pub open spec fn named_key(raw: Seq<char>) -> Option<KeyCode> {
    if raw == "esc"@ {
        Some(KeyCode::Esc)
    } else if raw == "enter"@ {
        Some(KeyCode::Enter)
    } else if raw == "left"@ {
        Some(KeyCode::Left)
    } else if raw == "right"@ {
        Some(KeyCode::Right)
    } else if raw == "up"@ {
        Some(KeyCode::Up)
    } else if raw == "down"@ {
        Some(KeyCode::Down)
    } else if raw == "home"@ {
        Some(KeyCode::Home)
    } else if raw == "end"@ {
        Some(KeyCode::End)
    } else if raw == "pageup"@ {
        Some(KeyCode::PageUp)
    } else if raw == "pagedown"@ {
        Some(KeyCode::PageDown)
    } else if raw == "backtab"@ {
        Some(KeyCode::BackTab)
    } else if raw == "backspace"@ {
        Some(KeyCode::Backspace)
    } else if raw == "delete"@ {
        Some(KeyCode::Delete)
    } else if raw == "insert"@ {
        Some(KeyCode::Insert)
    } else if raw == "f1"@ {
        Some(KeyCode::F(1))
    } else if raw == "f2"@ {
        Some(KeyCode::F(2))
    } else if raw == "f3"@ {
        Some(KeyCode::F(3))
    } else if raw == "f4"@ {
        Some(KeyCode::F(4))
    } else if raw == "f5"@ {
        Some(KeyCode::F(5))
    } else if raw == "f6"@ {
        Some(KeyCode::F(6))
    } else if raw == "f7"@ {
        Some(KeyCode::F(7))
    } else if raw == "f8"@ {
        Some(KeyCode::F(8))
    } else if raw == "f9"@ {
        Some(KeyCode::F(9))
    } else if raw == "f10"@ {
        Some(KeyCode::F(10))
    } else if raw == "f11"@ {
        Some(KeyCode::F(11))
    } else if raw == "f12"@ {
        Some(KeyCode::F(12))
    } else if raw == "space"@ {
        Some(KeyCode::Char(' '))
    } else if raw == "hyphen"@ {
        Some(KeyCode::Char('-'))
    } else if raw == "minus"@ {
        Some(KeyCode::Char('-'))
    } else if raw == "tab"@ {
        Some(KeyCode::Tab)
    } else {
        None
    }
}

/// The message for a key name that is none.
pub open spec fn unknown_key_message(raw: Seq<char>) -> Seq<char> {
    "Unable to parse "@ + raw
}

/// The message for a descriptor whose angle brackets do not pair.
pub open spec fn unbalanced_message(raw: Seq<char>) -> Seq<char> {
    "Unable to parse `"@ + raw + "`"@
}

/// The key stroke that the key part `raw` of a descriptor gives with the
/// modifiers `modifiers`, or the message that says it gives none.
///
/// A name gives its key; `backtab` adds shift. Any other single character
/// gives that character, in upper case where shift is among the modifiers.
pub open spec fn key_of(raw: Seq<char>, modifiers: KeyModifiers) -> Result<KeyEvent, Seq<char>> {
    match named_key(raw) {
        Some(code) => {
            if code == KeyCode::BackTab {
                Ok(KeyEvent::press(code, KeyModifiers { shift: true, ..modifiers }))
            } else {
                Ok(KeyEvent::press(code, modifiers))
            }
        },
        None => {
            if raw.len() == 1 {
                let c = if modifiers.shift { ascii_upper(raw[0]) } else { raw[0] };
                Ok(KeyEvent::press(KeyCode::Char(c), modifiers))
            } else {
                Err(unknown_key_message(raw))
            }
        },
    }
}

/// The descriptor `raw` without the angle brackets round it.
pub open spec fn unbracketed(raw: Seq<char>) -> Seq<char> {
    let inner = if !contains(raw, "><"@) {
        strip_prefix_char(strip_prefix_char(raw, '<'), '>')
    } else {
        raw
    };
    trim_end_char(trim_start_char(inner, '<'), '>')
}

/// The key stroke that the descriptor `raw` stands for, or the message that
/// says why it stands for none.
pub open spec fn key_event_of(raw: Seq<char>) -> Result<KeyEvent, Seq<char>> {
    if count_char(raw, '>') != count_char(raw, '<') {
        Err(unbalanced_message(raw))
    } else {
        let (rest, modifiers) = split_modifiers(lower(unbracketed(raw)));
        key_of(rest, modifiers)
    }
}

/// A descriptor stands for the press of a key, with nothing reported of the
/// keyboard.
pub proof fn lemma_descriptors_are_presses(raw: Seq<char>)
    ensures
        key_event_of(raw) matches Ok(event) ==> event.kind == KeyEventKind::Press && event.state
            == KeyEventState::none(),
{
}

/// Whether the result `r` of a parser is the one that `expected` describes.
pub open spec fn parsed_as(
    r: Result<KeyEvent, String>,
    expected: Result<KeyEvent, Seq<char>>,
) -> bool {
    match r {
        Ok(event) => expected == Ok::<KeyEvent, Seq<char>>(event),
        Err(message) => expected == Err::<KeyEvent, Seq<char>>(message@),
    }
}

/// The key that the name `raw` stands for, if it is the name of one.
pub fn lookup_named_key(raw: &Vec<char>) -> (code: Option<KeyCode>)
    ensures
        code == named_key(raw@),
{
    if is_word(raw, "esc") {
        Some(KeyCode::Esc)
    } else if is_word(raw, "enter") {
        Some(KeyCode::Enter)
    } else if is_word(raw, "left") {
        Some(KeyCode::Left)
    } else if is_word(raw, "right") {
        Some(KeyCode::Right)
    } else if is_word(raw, "up") {
        Some(KeyCode::Up)
    } else if is_word(raw, "down") {
        Some(KeyCode::Down)
    } else if is_word(raw, "home") {
        Some(KeyCode::Home)
    } else if is_word(raw, "end") {
        Some(KeyCode::End)
    } else if is_word(raw, "pageup") {
        Some(KeyCode::PageUp)
    } else if is_word(raw, "pagedown") {
        Some(KeyCode::PageDown)
    } else if is_word(raw, "backtab") {
        Some(KeyCode::BackTab)
    } else if is_word(raw, "backspace") {
        Some(KeyCode::Backspace)
    } else if is_word(raw, "delete") {
        Some(KeyCode::Delete)
    } else if is_word(raw, "insert") {
        Some(KeyCode::Insert)
    } else if is_word(raw, "f1") {
        Some(KeyCode::F(1))
    } else if is_word(raw, "f2") {
        Some(KeyCode::F(2))
    } else if is_word(raw, "f3") {
        Some(KeyCode::F(3))
    } else if is_word(raw, "f4") {
        Some(KeyCode::F(4))
    } else if is_word(raw, "f5") {
        Some(KeyCode::F(5))
    } else if is_word(raw, "f6") {
        Some(KeyCode::F(6))
    } else if is_word(raw, "f7") {
        Some(KeyCode::F(7))
    } else if is_word(raw, "f8") {
        Some(KeyCode::F(8))
    } else if is_word(raw, "f9") {
        Some(KeyCode::F(9))
    } else if is_word(raw, "f10") {
        Some(KeyCode::F(10))
    } else if is_word(raw, "f11") {
        Some(KeyCode::F(11))
    } else if is_word(raw, "f12") {
        Some(KeyCode::F(12))
    } else if is_word(raw, "space") {
        Some(KeyCode::Char(' '))
    } else if is_word(raw, "hyphen") {
        Some(KeyCode::Char('-'))
    } else if is_word(raw, "minus") {
        Some(KeyCode::Char('-'))
    } else if is_word(raw, "tab") {
        Some(KeyCode::Tab)
    } else {
        None
    }
}

/// Reads the key part of a descriptor, already in lower case and without
/// its modifier prefixes.
pub fn parse_key_code_with_modifiers(raw: &Vec<char>, modifiers: KeyModifiers) -> (r: Result<
    KeyEvent,
    String,
>)
    ensures
        parsed_as(r, key_of(raw@, modifiers)),
{
    let mut modifiers = modifiers;
    let code = match lookup_named_key(raw) {
        Some(code) => {
            if code == KeyCode::BackTab {
                modifiers.insert(KeyModifiers::shift());
            }
            code
        },
        None => {
            if raw.len() == 1 {
                let mut c = raw[0];
                if modifiers.contains(KeyModifiers::shift()) {
                    c = to_ascii_upper(c);
                }
                KeyCode::Char(c)
            } else {
                let name = string_of(raw);
                return Err(String::from_str("Unable to parse ").concat(name.as_str()));
            }
        },
    };
    Ok(KeyEvent::new(code, modifiers))
}

/// Takes the modifier prefixes off the start of `raw`.
pub fn extract_modifiers(raw: &Vec<char>) -> (r: (Vec<char>, KeyModifiers))
    ensures
        (r.0@, r.1) == split_modifiers(raw@),
{
    let ctrl: Vec<char> = vec!['c', 't', 'r', 'l', '-'];
    let alt: Vec<char> = vec!['a', 'l', 't', '-'];
    let shift: Vec<char> = vec!['s', 'h', 'i', 'f', 't', '-'];
    assert(ctrl@ == ctrl_prefix());
    assert(alt@ == alt_prefix());
    assert(shift@ == shift_prefix());
    let mut modifiers = KeyModifiers::empty();
    let mut at: usize = 0;
    proof {
        assert(raw@.skip(0) == raw@);
        assert(split_modifiers(raw@).1.joined(modifiers) == split_modifiers(raw@).1);
    }
    loop
        invariant
            at <= raw.len(),
            ctrl@ == ctrl_prefix(),
            alt@ == alt_prefix(),
            shift@ == shift_prefix(),
            split_modifiers(raw@) == ({
                let (rest, m) = split_modifiers(raw@.skip(at as int));
                (rest, m.joined(modifiers))
            }),
        ensures
            at <= raw.len(),
            split_modifiers(raw@) == (raw@.skip(at as int), modifiers),
        decreases raw.len() - at,
    {
        let current = skip_chars(raw, at);
        let ghost before = modifiers;
        if matches_at(&current, &ctrl, 0) {
            modifiers.insert(KeyModifiers::control());
            proof {
                assert(current@.skip(5) == raw@.skip(at + 5));
                let (rest, m) = split_modifiers(current@.skip(5));
                assert((KeyModifiers { control: true, ..m }).joined(before) == m.joined(modifiers));
            }
            at = at + 5;
        } else if matches_at(&current, &alt, 0) {
            modifiers.insert(KeyModifiers::alt());
            proof {
                assert(current@.skip(4) == raw@.skip(at + 4));
                let (rest, m) = split_modifiers(current@.skip(4));
                assert((KeyModifiers { alt: true, ..m }).joined(before) == m.joined(modifiers));
            }
            at = at + 4;
        } else if matches_at(&current, &shift, 0) {
            modifiers.insert(KeyModifiers::shift());
            proof {
                assert(current@.skip(6) == raw@.skip(at + 6));
                let (rest, m) = split_modifiers(current@.skip(6));
                assert((KeyModifiers { shift: true, ..m }).joined(before) == m.joined(modifiers));
            }
            at = at + 6;
        } else {
            assert(KeyModifiers::none().joined(modifiers) == modifiers);
            break;
        }
    }
    (skip_chars(raw, at), modifiers)
}

/// Reads a key descriptor.
///
/// Fails where the angle brackets of `raw` do not pair, and where its key
/// part is neither the name of a key nor a single character.
pub fn parse_key_event(raw: &str) -> (r: Result<KeyEvent, String>)
    ensures
        parsed_as(r, key_event_of(raw@)),
{
    let chars = chars_of(raw);
    if count_of(&chars, '>') != count_of(&chars, '<') {
        return Err(String::from_str("Unable to parse `").concat(raw).concat("`"));
    }
    let inner = if !has_word(&chars, "><") {
        let a = strip_prefix(&chars, '<');
        strip_prefix(&a, '>')
    } else {
        chars
    };
    let inner = trim_start_matches(&inner, '<');
    let inner = trim_end_matches(&inner, '>');
    let raw_lower = to_lower(&inner);
    let (remaining, modifiers) = extract_modifiers(&raw_lower);
    parse_key_code_with_modifiers(&remaining, modifiers)
}

/// The name under which a key is shown.
pub open spec fn key_name(code: KeyCode) -> Seq<char> {
    match code {
        KeyCode::Backspace => "Backspace"@,
        KeyCode::Enter => "Enter"@,
        KeyCode::Left => "Left"@,
        KeyCode::Right => "Right"@,
        KeyCode::Up => "Up"@,
        KeyCode::Down => "Down"@,
        KeyCode::Home => "Home"@,
        KeyCode::End => "End"@,
        KeyCode::PageUp => "PageUp"@,
        KeyCode::PageDown => "PageDown"@,
        KeyCode::Tab => "Tab"@,
        KeyCode::BackTab => "BackTab"@,
        KeyCode::Delete => "Delete"@,
        KeyCode::Insert => "Insert"@,
        KeyCode::F(n) => "F("@ + decimal(n as nat) + ")"@,
        KeyCode::Char(c) => if c == ' ' {
            "Space"@
        } else {
            seq![c]
        },
        KeyCode::Esc => "Esc"@,
        _ => Seq::<char>::empty(),
    }
}

/// The modifiers control, shift and alt as far as `m` holds them, in that
/// order, each followed by a hyphen.
pub open spec fn modifier_text(m: KeyModifiers) -> Seq<char> {
    (if m.control {
        "ctrl-"@
    } else {
        Seq::<char>::empty()
    }) + (if m.shift {
        "shift-"@
    } else {
        Seq::<char>::empty()
    }) + (if m.alt {
        "alt-"@
    } else {
        Seq::<char>::empty()
    })
}

/// The text that shows a key event: its modifiers, then the name of its key.
pub open spec fn key_event_text(event: KeyEvent) -> Seq<char> {
    modifier_text(event.modifiers) + key_name(event.code)
}

/// The text that shows a key event.
pub fn key_event_to_string(key_event: &KeyEvent) -> (key: String)
    ensures
        key@ == key_event_text(*key_event),
{
    let mut key = String::new();
    if key_event.modifiers.intersects(KeyModifiers::control()) {
        key.append("ctrl-");
    }
    if key_event.modifiers.intersects(KeyModifiers::shift()) {
        key.append("shift-");
    }
    if key_event.modifiers.intersects(KeyModifiers::alt()) {
        key.append("alt-");
    }
    assert(key@ == modifier_text(key_event.modifiers));
    match key_event.code {
        KeyCode::Backspace => key.append("Backspace"),
        KeyCode::Enter => key.append("Enter"),
        KeyCode::Left => key.append("Left"),
        KeyCode::Right => key.append("Right"),
        KeyCode::Up => key.append("Up"),
        KeyCode::Down => key.append("Down"),
        KeyCode::Home => key.append("Home"),
        KeyCode::End => key.append("End"),
        KeyCode::PageUp => key.append("PageUp"),
        KeyCode::PageDown => key.append("PageDown"),
        KeyCode::Tab => key.append("Tab"),
        KeyCode::BackTab => key.append("BackTab"),
        KeyCode::Delete => key.append("Delete"),
        KeyCode::Insert => key.append("Insert"),
        KeyCode::F(c) => {
            key.append("F(");
            push_decimal(&mut key, c);
            key.append(")");
            assert(key@ == modifier_text(key_event.modifiers) + ("F("@ + decimal(c as nat) + ")"@));
        },
        KeyCode::Char(c) => {
            if c == ' ' {
                key.append("Space");
            } else {
                key.push(c);
                assert(key@ == modifier_text(key_event.modifiers) + seq![c]);
            }
        },
        KeyCode::Esc => key.append("Esc"),
        _ => {
            assert(key@ == key@ + Seq::<char>::empty());
        },
    }
    key
}

} // verus!
