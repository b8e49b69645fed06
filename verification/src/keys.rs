//! Key events as plain values: the key, the modifiers held with it, whether
//! it was pressed, repeated by the terminal or released, and the keyboard
//! state reported with it.

use vstd::prelude::*;
use crate::text::{ascii_upper, char_is_ascii_upper, is_ascii_upper, to_ascii_upper};

verus! {

/// A media key.
#[derive(Clone, Copy, Debug, PartialEq, Eq, Hash, Structural)]
pub enum MediaKeyCode {
    Play,
    Pause,
    PlayPause,
    Reverse,
    Stop,
    FastForward,
    Rewind,
    TrackNext,
    TrackPrevious,
    Record,
    LowerVolume,
    RaiseVolume,
    MuteVolume,
}

/// A modifier key reported as a key of its own.
#[derive(Clone, Copy, Debug, PartialEq, Eq, Hash, Structural)]
pub enum ModifierKeyCode {
    LeftShift,
    LeftControl,
    LeftAlt,
    LeftSuper,
    LeftHyper,
    LeftMeta,
    RightShift,
    RightControl,
    RightAlt,
    RightSuper,
    RightHyper,
    RightMeta,
    IsoLevel3Shift,
    IsoLevel5Shift,
}

/// The key of a key event.
#[derive(Clone, Copy, Debug, PartialEq, Eq, Hash, Structural)]
pub enum KeyCode {
    Backspace,
    Enter,
    Left,
    Right,
    Up,
    Down,
    Home,
    End,
    PageUp,
    PageDown,
    Tab,
    BackTab,
    Delete,
    Insert,
    F(u8),
    Char(char),
    Null,
    Esc,
    CapsLock,
    ScrollLock,
    NumLock,
    PrintScreen,
    Pause,
    Menu,
    KeypadBegin,
    Media(MediaKeyCode),
    Modifier(ModifierKeyCode),
}

/// The modifier keys held during a key event, one flag for each.
#[derive(Clone, Copy, Debug, PartialEq, Eq, Hash, Structural)]
pub struct KeyModifiers {
    pub shift: bool,
    pub control: bool,
    pub alt: bool,
    pub sup: bool,
    pub hyper: bool,
    pub meta: bool,
}

/// Whether a key was pressed, repeated by the terminal while held, or
/// released.
#[derive(Clone, Copy, Debug, PartialEq, Eq, Hash, Structural)]
pub enum KeyEventKind {
    Press,
    Repeat,
    Release,
}

/// The keyboard state reported with a key event.
#[derive(Clone, Copy, Debug, PartialEq, Eq, Hash, Structural)]
pub struct KeyEventState {
    pub keypad: bool,
    pub caps_lock: bool,
    pub num_lock: bool,
}

/// A key event.
#[derive(Clone, Copy, Debug, PartialEq, Eq, Hash, Structural)]
pub struct KeyEvent {
    pub code: KeyCode,
    pub modifiers: KeyModifiers,
    pub kind: KeyEventKind,
    pub state: KeyEventState,
}

impl KeyModifiers {
    /// No modifier.
    pub open spec fn none() -> KeyModifiers {
        KeyModifiers {
            shift: false,
            control: false,
            alt: false,
            sup: false,
            hyper: false,
            meta: false,
        }
    }

    /// The modifiers of `self` together with those of `other`.
    pub open spec fn joined(self, other: KeyModifiers) -> KeyModifiers {
        KeyModifiers {
            shift: self.shift || other.shift,
            control: self.control || other.control,
            alt: self.alt || other.alt,
            sup: self.sup || other.sup,
            hyper: self.hyper || other.hyper,
            meta: self.meta || other.meta,
        }
    }

    /// The modifiers that both `self` and `other` hold.
    pub open spec fn common(self, other: KeyModifiers) -> KeyModifiers {
        KeyModifiers {
            shift: self.shift && other.shift,
            control: self.control && other.control,
            alt: self.alt && other.alt,
            sup: self.sup && other.sup,
            hyper: self.hyper && other.hyper,
            meta: self.meta && other.meta,
        }
    }

    /// No modifier.
    pub fn empty() -> (m: KeyModifiers)
        ensures
            m == KeyModifiers::none(),
    {
        KeyModifiers {
            shift: false,
            control: false,
            alt: false,
            sup: false,
            hyper: false,
            meta: false,
        }
    }

    /// The shift key alone.
    pub fn shift() -> (m: KeyModifiers)
        ensures
            m == (KeyModifiers { shift: true, ..KeyModifiers::none() }),
    {
        KeyModifiers {
            shift: true,
            control: false,
            alt: false,
            sup: false,
            hyper: false,
            meta: false,
        }
    }

    /// The control key alone.
    pub fn control() -> (m: KeyModifiers)
        ensures
            m == (KeyModifiers { control: true, ..KeyModifiers::none() }),
    {
        KeyModifiers {
            shift: false,
            control: true,
            alt: false,
            sup: false,
            hyper: false,
            meta: false,
        }
    }

    /// The alt key alone.
    pub fn alt() -> (m: KeyModifiers)
        ensures
            m == (KeyModifiers { alt: true, ..KeyModifiers::none() }),
    {
        KeyModifiers {
            shift: false,
            control: false,
            alt: true,
            sup: false,
            hyper: false,
            meta: false,
        }
    }

    /// The modifiers of `self` together with those of `other`.
    pub fn union(self, other: KeyModifiers) -> (m: KeyModifiers)
        ensures
            m == self.joined(other),
    {
        KeyModifiers {
            shift: self.shift || other.shift,
            control: self.control || other.control,
            alt: self.alt || other.alt,
            sup: self.sup || other.sup,
            hyper: self.hyper || other.hyper,
            meta: self.meta || other.meta,
        }
    }

    /// Adds the modifiers of `other`.
    pub fn insert(&mut self, other: KeyModifiers)
        ensures
            *final(self) == old(self).joined(other),
    {
        *self = self.union(other);
    }

    /// Whether `self` holds every modifier of `other`.
    pub fn contains(&self, other: KeyModifiers) -> (r: bool)
        ensures
            r == (self.common(other) == other),
    {
        (self.shift || !other.shift) && (self.control || !other.control) && (self.alt
            || !other.alt) && (self.sup || !other.sup) && (self.hyper || !other.hyper) && (self.meta
            || !other.meta)
    }

    /// Whether `self` holds some modifier of `other`.
    pub fn intersects(&self, other: KeyModifiers) -> (r: bool)
        ensures
            r == (self.common(other) != KeyModifiers::none()),
    {
        (self.shift && other.shift) || (self.control && other.control) || (self.alt && other.alt)
            || (self.sup && other.sup) || (self.hyper && other.hyper) || (self.meta && other.meta)
    }

    /// Whether no modifier is held.
    pub fn is_empty(&self) -> (r: bool)
        ensures
            r == (*self == KeyModifiers::none()),
    {
        !(self.shift || self.control || self.alt || self.sup || self.hyper || self.meta)
    }
}

impl KeyEventState {
    /// Nothing reported.
    pub open spec fn none() -> KeyEventState {
        KeyEventState { keypad: false, caps_lock: false, num_lock: false }
    }

    /// Nothing reported.
    pub fn empty() -> (s: KeyEventState)
        ensures
            s == KeyEventState::none(),
    {
        KeyEventState { keypad: false, caps_lock: false, num_lock: false }
    }
}

impl KeyEvent {
    /// The press of `code` with `modifiers`.
    pub open spec fn press(code: KeyCode, modifiers: KeyModifiers) -> KeyEvent {
        KeyEvent { code, modifiers, kind: KeyEventKind::Press, state: KeyEventState::none() }
    }

    /// The event with the case of its letter and its shift flag brought in
    /// line: an upper-case letter implies shift, and shift turns a lower-case
    /// letter into its upper-case form. Two events stand for the same key
    /// stroke exactly when their normal forms are equal.
    pub open spec fn normalized(self) -> KeyEvent {
        match self.code {
            KeyCode::Char(c) => {
                if is_ascii_upper(c) {
                    KeyEvent { modifiers: KeyModifiers { shift: true, ..self.modifiers }, ..self }
                } else if self.modifiers.shift {
                    KeyEvent { code: KeyCode::Char(ascii_upper(c)), ..self }
                } else {
                    self
                }
            },
            _ => self,
        }
    }

    /// Whether the two events stand for the same key stroke.
    pub open spec fn matches(self, other: KeyEvent) -> bool {
        self.normalized() == other.normalized()
    }

    /// The press of `code` with `modifiers`.
    pub fn new(code: KeyCode, modifiers: KeyModifiers) -> (e: KeyEvent)
        ensures
            e == KeyEvent::press(code, modifiers),
    {
        KeyEvent { code, modifiers, kind: KeyEventKind::Press, state: KeyEventState::empty() }
    }

    /// The key stroke of `code` with `modifiers` in the phase `kind`.
    pub fn new_with_kind(code: KeyCode, modifiers: KeyModifiers, kind: KeyEventKind) -> (e:
        KeyEvent)
        ensures
            e == (KeyEvent { kind, ..KeyEvent::press(code, modifiers) }),
    {
        KeyEvent { code, modifiers, kind, state: KeyEventState::empty() }
    }

    /// The normal form of the event.
    pub fn normalize_case(self) -> (e: KeyEvent)
        ensures
            e == self.normalized(),
    {
        match self.code {
            KeyCode::Char(c) => {
                if char_is_ascii_upper(c) {
                    let m = self.modifiers;
                    KeyEvent {
                        code: self.code,
                        modifiers: KeyModifiers {
                            shift: true,
                            control: m.control,
                            alt: m.alt,
                            sup: m.sup,
                            hyper: m.hyper,
                            meta: m.meta,
                        },
                        kind: self.kind,
                        state: self.state,
                    }
                } else if self.modifiers.shift {
                    KeyEvent {
                        code: KeyCode::Char(to_ascii_upper(c)),
                        modifiers: self.modifiers,
                        kind: self.kind,
                        state: self.state,
                    }
                } else {
                    self
                }
            },
            _ => self,
        }
    }

    /// Whether the two events stand for the same key stroke.
    pub fn same_key(&self, other: &KeyEvent) -> (r: bool)
        ensures
            r == self.matches(*other),
    {
        self.normalize_case() == other.normalize_case()
    }

    /// The same key stroke in another phase.
    pub fn with_kind(self, kind: KeyEventKind) -> (e: KeyEvent)
        ensures
            e == (KeyEvent { kind, ..self }),
    {
        KeyEvent { code: self.code, modifiers: self.modifiers, kind, state: self.state }
    }
}

/// Bringing an event into normal form twice changes nothing more.
pub proof fn lemma_normalized_idempotent(e: KeyEvent)
    ensures
        e.normalized().normalized() == e.normalized(),
{
}

/// A change of phase commutes with the normal form.
pub proof fn lemma_normalized_kind(e: KeyEvent, kind: KeyEventKind)
    ensures
        (KeyEvent { kind, ..e }).normalized() == (KeyEvent { kind, ..e.normalized() }),
{
}

} // verus!
