//! Fundamental input event types: structured keyboard events with logical
//! key codes and modifier bit sets.

use vstd::prelude::*;
use crate::text::{join, owned, push_joined, push_str};

verus! {

/// Input event from any input device. Currently keyboard only.
#[derive(Debug, Clone, PartialEq, Eq)]
pub enum InputEvent {
    /// Keyboard event
    Key(KeyEvent),
}

impl InputEvent {
    /// Creates a key event.
    pub fn key(event: KeyEvent) -> (r: Self)
        ensures
            r == InputEvent::Key(event),
    {
        InputEvent::Key(event)
    }

    /// Returns true if this is a key event.
    pub fn is_key(&self) -> (r: bool)
        ensures
            r == (*self is Key),
    {
        match self {
            InputEvent::Key(_) => true,
        }
    }

    /// Returns the key event if this is a key event.
    pub fn as_key(&self) -> (r: Option<&KeyEvent>)
        ensures
            r == (match *self {
                InputEvent::Key(e) => Some(&e),
            }),
    {
        match self {
            InputEvent::Key(event) => Some(event),
        }
    }
}

/// A single keyboard state change.
#[derive(Debug, Clone, PartialEq, Eq)]
pub struct KeyEvent {
    /// The key that was pressed/released
    pub code: KeyCode,
    /// Modifier keys that were active
    pub modifiers: Modifiers,
    /// Event state (pressed, released, repeat)
    pub state: KeyState,
    /// Optional text representation (for IME support)
    pub text: Option<String>,
}

impl KeyEvent {
    /// Creates a new key event without text.
    pub fn new(code: KeyCode, modifiers: Modifiers, state: KeyState) -> (r: Self)
        ensures
            r == (KeyEvent { code, modifiers, state, text: None }),
    {
        KeyEvent { code, modifiers, state, text: None }
    }

    /// Creates a key pressed event.
    pub fn pressed(code: KeyCode, modifiers: Modifiers) -> (r: Self)
        ensures
            r == (KeyEvent { code, modifiers, state: KeyState::Pressed, text: None }),
    {
        Self::new(code, modifiers, KeyState::Pressed)
    }

    /// Creates a key released event.
    pub fn released(code: KeyCode, modifiers: Modifiers) -> (r: Self)
        ensures
            r == (KeyEvent { code, modifiers, state: KeyState::Released, text: None }),
    {
        Self::new(code, modifiers, KeyState::Released)
    }

    /// Creates a key repeat event.
    pub fn repeat(code: KeyCode, modifiers: Modifiers) -> (r: Self)
        ensures
            r == (KeyEvent { code, modifiers, state: KeyState::Repeat, text: None }),
    {
        Self::new(code, modifiers, KeyState::Repeat)
    }

    /// Adds text to this key event (for IME support).
    pub fn with_text(self, text: &str) -> (r: Self)
        ensures
            r.code == self.code,
            r.modifiers == self.modifiers,
            r.state == self.state,
            r.text is Some,
            (r.text->0)@ == text@,
    {
        let mut e = self;
        e.text = Some(owned(text));
        e
    }

    /// Returns true if this is a press event.
    pub fn is_pressed(&self) -> (r: bool)
        ensures
            r == (self.state == KeyState::Pressed),
    {
        self.state == KeyState::Pressed
    }

    /// Returns true if this is a release event.
    pub fn is_released(&self) -> (r: bool)
        ensures
            r == (self.state == KeyState::Released),
    {
        self.state == KeyState::Released
    }

    /// Returns true if this is a repeat event.
    pub fn is_repeat(&self) -> (r: bool)
        ensures
            r == (self.state == KeyState::Repeat),
    {
        self.state == KeyState::Repeat
    }
}

/// Whether a key was pressed, released, or is repeating.
#[derive(Debug, Clone, Copy, PartialEq, Eq, Hash, Structural)]
pub enum KeyState {
    /// Key was pressed down
    Pressed,
    /// Key was released
    Released,
    /// Key is auto-repeating
    Repeat,
}

impl KeyState {
    /// Human-readable rendering: "pressed", "released" or "repeat".
    pub fn to_string(&self) -> (r: String)
        ensures
            r@ == (match *self {
                KeyState::Pressed => "pressed"@,
                KeyState::Released => "released"@,
                KeyState::Repeat => "repeat"@,
            }),
    {
        match self {
            KeyState::Pressed => owned("pressed"),
            KeyState::Released => owned("released"),
            KeyState::Repeat => owned("repeat"),
        }
    }
}

/// Logical key codes, not hardware scan codes.
#[derive(Debug, Clone, Copy, PartialEq, Eq, Hash, Structural)]
pub enum KeyCode {
    // Letters
    A,
    B,
    C,
    D,
    E,
    F,
    G,
    H,
    I,
    J,
    K,
    L,
    M,
    N,
    O,
    P,
    Q,
    R,
    S,
    T,
    U,
    V,
    W,
    X,
    Y,
    Z,

    // Numbers
    Num0,
    Num1,
    Num2,
    Num3,
    Num4,
    Num5,
    Num6,
    Num7,
    Num8,
    Num9,

    // Function keys
    F1,
    F2,
    F3,
    F4,
    F5,
    F6,
    F7,
    F8,
    F9,
    F10,
    F11,
    F12,

    // Special keys
    Escape,
    Tab,
    CapsLock,
    LeftShift,
    RightShift,
    LeftCtrl,
    RightCtrl,
    LeftAlt,
    RightAlt,
    LeftMeta,
    RightMeta,
    Space,
    Enter,
    Backspace,
    Delete,
    Insert,
    Home,
    End,
    PageUp,
    PageDown,

    // Arrow keys
    Up,
    Down,
    Left,
    Right,

    // Punctuation and symbols
    Minus,
    Equal,
    LeftBracket,
    RightBracket,
    Backslash,
    Semicolon,
    Quote,
    Comma,
    Period,
    Slash,
    Grave,

    // Numpad
    NumpadDivide,
    NumpadMultiply,
    NumpadMinus,
    NumpadPlus,
    NumpadEnter,
    NumpadPeriod,
    Numpad0,
    Numpad1,
    Numpad2,
    Numpad3,
    Numpad4,
    Numpad5,
    Numpad6,
    Numpad7,
    Numpad8,
    Numpad9,

    // Other
    PrintScreen,
    ScrollLock,
    Pause,
    NumLock,

    // Unknown/unmapped key
    Unknown,
}

/// The name of a key code, as its variant is spelled.
pub open spec fn keycode_name(k: KeyCode) -> Seq<char> {
    match k {
        KeyCode::A => "A"@,
        KeyCode::B => "B"@,
        KeyCode::C => "C"@,
        KeyCode::D => "D"@,
        KeyCode::E => "E"@,
        KeyCode::F => "F"@,
        KeyCode::G => "G"@,
        KeyCode::H => "H"@,
        KeyCode::I => "I"@,
        KeyCode::J => "J"@,
        KeyCode::K => "K"@,
        KeyCode::L => "L"@,
        KeyCode::M => "M"@,
        KeyCode::N => "N"@,
        KeyCode::O => "O"@,
        KeyCode::P => "P"@,
        KeyCode::Q => "Q"@,
        KeyCode::R => "R"@,
        KeyCode::S => "S"@,
        KeyCode::T => "T"@,
        KeyCode::U => "U"@,
        KeyCode::V => "V"@,
        KeyCode::W => "W"@,
        KeyCode::X => "X"@,
        KeyCode::Y => "Y"@,
        KeyCode::Z => "Z"@,
        KeyCode::Num0 => "Num0"@,
        KeyCode::Num1 => "Num1"@,
        KeyCode::Num2 => "Num2"@,
        KeyCode::Num3 => "Num3"@,
        KeyCode::Num4 => "Num4"@,
        KeyCode::Num5 => "Num5"@,
        KeyCode::Num6 => "Num6"@,
        KeyCode::Num7 => "Num7"@,
        KeyCode::Num8 => "Num8"@,
        KeyCode::Num9 => "Num9"@,
        KeyCode::F1 => "F1"@,
        KeyCode::F2 => "F2"@,
        KeyCode::F3 => "F3"@,
        KeyCode::F4 => "F4"@,
        KeyCode::F5 => "F5"@,
        KeyCode::F6 => "F6"@,
        KeyCode::F7 => "F7"@,
        KeyCode::F8 => "F8"@,
        KeyCode::F9 => "F9"@,
        KeyCode::F10 => "F10"@,
        KeyCode::F11 => "F11"@,
        KeyCode::F12 => "F12"@,
        KeyCode::Escape => "Escape"@,
        KeyCode::Tab => "Tab"@,
        KeyCode::CapsLock => "CapsLock"@,
        KeyCode::LeftShift => "LeftShift"@,
        KeyCode::RightShift => "RightShift"@,
        KeyCode::LeftCtrl => "LeftCtrl"@,
        KeyCode::RightCtrl => "RightCtrl"@,
        KeyCode::LeftAlt => "LeftAlt"@,
        KeyCode::RightAlt => "RightAlt"@,
        KeyCode::LeftMeta => "LeftMeta"@,
        KeyCode::RightMeta => "RightMeta"@,
        KeyCode::Space => "Space"@,
        KeyCode::Enter => "Enter"@,
        KeyCode::Backspace => "Backspace"@,
        KeyCode::Delete => "Delete"@,
        KeyCode::Insert => "Insert"@,
        KeyCode::Home => "Home"@,
        KeyCode::End => "End"@,
        KeyCode::PageUp => "PageUp"@,
        KeyCode::PageDown => "PageDown"@,
        KeyCode::Up => "Up"@,
        KeyCode::Down => "Down"@,
        KeyCode::Left => "Left"@,
        KeyCode::Right => "Right"@,
        KeyCode::Minus => "Minus"@,
        KeyCode::Equal => "Equal"@,
        KeyCode::LeftBracket => "LeftBracket"@,
        KeyCode::RightBracket => "RightBracket"@,
        KeyCode::Backslash => "Backslash"@,
        KeyCode::Semicolon => "Semicolon"@,
        KeyCode::Quote => "Quote"@,
        KeyCode::Comma => "Comma"@,
        KeyCode::Period => "Period"@,
        KeyCode::Slash => "Slash"@,
        KeyCode::Grave => "Grave"@,
        KeyCode::NumpadDivide => "NumpadDivide"@,
        KeyCode::NumpadMultiply => "NumpadMultiply"@,
        KeyCode::NumpadMinus => "NumpadMinus"@,
        KeyCode::NumpadPlus => "NumpadPlus"@,
        KeyCode::NumpadEnter => "NumpadEnter"@,
        KeyCode::NumpadPeriod => "NumpadPeriod"@,
        KeyCode::Numpad0 => "Numpad0"@,
        KeyCode::Numpad1 => "Numpad1"@,
        KeyCode::Numpad2 => "Numpad2"@,
        KeyCode::Numpad3 => "Numpad3"@,
        KeyCode::Numpad4 => "Numpad4"@,
        KeyCode::Numpad5 => "Numpad5"@,
        KeyCode::Numpad6 => "Numpad6"@,
        KeyCode::Numpad7 => "Numpad7"@,
        KeyCode::Numpad8 => "Numpad8"@,
        KeyCode::Numpad9 => "Numpad9"@,
        KeyCode::PrintScreen => "PrintScreen"@,
        KeyCode::ScrollLock => "ScrollLock"@,
        KeyCode::Pause => "Pause"@,
        KeyCode::NumLock => "NumLock"@,
        KeyCode::Unknown => "Unknown"@,
    }
}

impl KeyCode {
    /// The name of the key code, as its variant is spelled.
    pub fn to_string(&self) -> (r: String)
        ensures
            r@ == keycode_name(*self),
    {
        let name = match self {
            KeyCode::A => "A",
            KeyCode::B => "B",
            KeyCode::C => "C",
            KeyCode::D => "D",
            KeyCode::E => "E",
            KeyCode::F => "F",
            KeyCode::G => "G",
            KeyCode::H => "H",
            KeyCode::I => "I",
            KeyCode::J => "J",
            KeyCode::K => "K",
            KeyCode::L => "L",
            KeyCode::M => "M",
            KeyCode::N => "N",
            KeyCode::O => "O",
            KeyCode::P => "P",
            KeyCode::Q => "Q",
            KeyCode::R => "R",
            KeyCode::S => "S",
            KeyCode::T => "T",
            KeyCode::U => "U",
            KeyCode::V => "V",
            KeyCode::W => "W",
            KeyCode::X => "X",
            KeyCode::Y => "Y",
            KeyCode::Z => "Z",
            KeyCode::Num0 => "Num0",
            KeyCode::Num1 => "Num1",
            KeyCode::Num2 => "Num2",
            KeyCode::Num3 => "Num3",
            KeyCode::Num4 => "Num4",
            KeyCode::Num5 => "Num5",
            KeyCode::Num6 => "Num6",
            KeyCode::Num7 => "Num7",
            KeyCode::Num8 => "Num8",
            KeyCode::Num9 => "Num9",
            KeyCode::F1 => "F1",
            KeyCode::F2 => "F2",
            KeyCode::F3 => "F3",
            KeyCode::F4 => "F4",
            KeyCode::F5 => "F5",
            KeyCode::F6 => "F6",
            KeyCode::F7 => "F7",
            KeyCode::F8 => "F8",
            KeyCode::F9 => "F9",
            KeyCode::F10 => "F10",
            KeyCode::F11 => "F11",
            KeyCode::F12 => "F12",
            KeyCode::Escape => "Escape",
            KeyCode::Tab => "Tab",
            KeyCode::CapsLock => "CapsLock",
            KeyCode::LeftShift => "LeftShift",
            KeyCode::RightShift => "RightShift",
            KeyCode::LeftCtrl => "LeftCtrl",
            KeyCode::RightCtrl => "RightCtrl",
            KeyCode::LeftAlt => "LeftAlt",
            KeyCode::RightAlt => "RightAlt",
            KeyCode::LeftMeta => "LeftMeta",
            KeyCode::RightMeta => "RightMeta",
            KeyCode::Space => "Space",
            KeyCode::Enter => "Enter",
            KeyCode::Backspace => "Backspace",
            KeyCode::Delete => "Delete",
            KeyCode::Insert => "Insert",
            KeyCode::Home => "Home",
            KeyCode::End => "End",
            KeyCode::PageUp => "PageUp",
            KeyCode::PageDown => "PageDown",
            KeyCode::Up => "Up",
            KeyCode::Down => "Down",
            KeyCode::Left => "Left",
            KeyCode::Right => "Right",
            KeyCode::Minus => "Minus",
            KeyCode::Equal => "Equal",
            KeyCode::LeftBracket => "LeftBracket",
            KeyCode::RightBracket => "RightBracket",
            KeyCode::Backslash => "Backslash",
            KeyCode::Semicolon => "Semicolon",
            KeyCode::Quote => "Quote",
            KeyCode::Comma => "Comma",
            KeyCode::Period => "Period",
            KeyCode::Slash => "Slash",
            KeyCode::Grave => "Grave",
            KeyCode::NumpadDivide => "NumpadDivide",
            KeyCode::NumpadMultiply => "NumpadMultiply",
            KeyCode::NumpadMinus => "NumpadMinus",
            KeyCode::NumpadPlus => "NumpadPlus",
            KeyCode::NumpadEnter => "NumpadEnter",
            KeyCode::NumpadPeriod => "NumpadPeriod",
            KeyCode::Numpad0 => "Numpad0",
            KeyCode::Numpad1 => "Numpad1",
            KeyCode::Numpad2 => "Numpad2",
            KeyCode::Numpad3 => "Numpad3",
            KeyCode::Numpad4 => "Numpad4",
            KeyCode::Numpad5 => "Numpad5",
            KeyCode::Numpad6 => "Numpad6",
            KeyCode::Numpad7 => "Numpad7",
            KeyCode::Numpad8 => "Numpad8",
            KeyCode::Numpad9 => "Numpad9",
            KeyCode::PrintScreen => "PrintScreen",
            KeyCode::ScrollLock => "ScrollLock",
            KeyCode::Pause => "Pause",
            KeyCode::NumLock => "NumLock",
            KeyCode::Unknown => "Unknown",
        };
        owned(name)
    }
}

/// Modifier keys as a bit set: Ctrl = 1, Alt = 2, Shift = 4, Meta = 8.
#[derive(Debug, Clone, Copy, PartialEq, Eq, Hash, Structural)]
pub struct Modifiers {
    bits: u8,
}

impl View for Modifiers {
    type V = u8;

    closed spec fn view(&self) -> u8 {
        self.bits
    }
}

/// The modifier set of some bits.
pub closed spec fn modifiers_of(bits: u8) -> Modifiers {
    Modifiers { bits }
}

/// A modifier set is the set of its bits, and its bits are those it was
/// made of: equal bits make equal sets.
pub proof fn lemma_modifiers_bits(m: Modifiers, b: u8)
    ensures
        modifiers_of(m@) == m,
        modifiers_of(b)@ == b,
{
}

/// Two modifier sets with the same bits are the same set.
pub proof fn lemma_modifiers_view_injective(a: Modifiers, b: Modifiers)
    requires
        a@ == b@,
    ensures
        a == b,
{
}

/// `a` holds every bit of `b`.
pub open spec fn bits_contain(a: u8, b: u8) -> bool {
    a & b == b
}

impl Modifiers {
    /// Bit of no modifier.
    pub const NONE: u8 = 0;
    /// Bit of the Control key.
    pub const CTRL: u8 = 1;
    /// Bit of the Alt key.
    pub const ALT: u8 = 2;
    /// Bit of the Shift key.
    pub const SHIFT: u8 = 4;
    /// Bit of the Meta/Super/Windows key.
    pub const META: u8 = 8;

    /// Creates a modifier set with no modifiers.
    pub fn none() -> (r: Self)
        ensures
            r@ == 0,
            r == modifiers_of(0),
    {
        Modifiers { bits: 0 }
    }

    /// Creates a modifier set from raw bits.
    pub fn from_bits(bits: u8) -> (r: Self)
        ensures
            r@ == bits,
            r == modifiers_of(bits),
    {
        Modifiers { bits }
    }

    /// Returns the raw bits.
    pub fn bits(&self) -> (r: u8)
        ensures
            r == self@,
    {
        self.bits
    }

    /// Adds the modifiers of `other`.
    pub fn with(self, other: Modifiers) -> (r: Self)
        ensures
            r@ == self@ | other@,
            r == modifiers_of(self@ | other@),
    {
        Modifiers { bits: self.bits | other.bits }
    }

    /// Whether every modifier of `other` is present.
    pub fn contains(&self, other: Modifiers) -> (r: bool)
        ensures
            r == bits_contain(self@, other@),
    {
        (self.bits & other.bits) == other.bits
    }

    /// Whether Ctrl is pressed.
    pub fn is_ctrl(&self) -> (r: bool)
        ensures
            r == bits_contain(self@, 1),
    {
        self.contains(Modifiers { bits: 1 })
    }

    /// Whether Alt is pressed.
    pub fn is_alt(&self) -> (r: bool)
        ensures
            r == bits_contain(self@, 2),
    {
        self.contains(Modifiers { bits: 2 })
    }

    /// Whether Shift is pressed.
    pub fn is_shift(&self) -> (r: bool)
        ensures
            r == bits_contain(self@, 4),
    {
        self.contains(Modifiers { bits: 4 })
    }

    /// Whether Meta is pressed.
    pub fn is_meta(&self) -> (r: bool)
        ensures
            r == bits_contain(self@, 8),
    {
        self.contains(Modifiers { bits: 8 })
    }

    /// Whether no modifier is pressed.
    pub fn is_empty(&self) -> (r: bool)
        ensures
            r == (self@ == 0),
    {
        self.bits == 0
    }

    /// The names of the pressed modifiers, in the order Ctrl, Alt, Shift,
    /// Meta.
    pub open spec fn display_parts(self) -> Seq<Seq<char>> {
        let p0 = Seq::<Seq<char>>::empty();
        let p1 = if bits_contain(self@, 1) { p0.push("Ctrl"@) } else { p0 };
        let p2 = if bits_contain(self@, 2) { p1.push("Alt"@) } else { p1 };
        let p3 = if bits_contain(self@, 4) { p2.push("Shift"@) } else { p2 };
        if bits_contain(self@, 8) { p3.push("Meta"@) } else { p3 }
    }

    /// Human-readable rendering: "none", or the pressed modifiers joined by
    /// "+", such as "Ctrl+Alt+Shift".
    pub fn to_string(&self) -> (r: String)
        ensures
            r@ == (if self@ == 0 {
                "none"@
            } else {
                join(self.display_parts(), "+"@)
            }),
    {
        if self.is_empty() {
            return owned("none");
        }
        let mut s = String::new();
        let ghost prefix = s@;
        let ghost mut parts = Seq::<Seq<char>>::empty();
        let mut count: usize = 0;
        assert(s@ == prefix + join(parts, "+"@));
        if self.is_ctrl() {
            push_joined(&mut s, Ghost(prefix), Ghost(parts), count, "+", "Ctrl");
            proof { parts = parts.push("Ctrl"@); }
            count = count + 1;
        }
        if self.is_alt() {
            push_joined(&mut s, Ghost(prefix), Ghost(parts), count, "+", "Alt");
            proof { parts = parts.push("Alt"@); }
            count = count + 1;
        }
        if self.is_shift() {
            push_joined(&mut s, Ghost(prefix), Ghost(parts), count, "+", "Shift");
            proof { parts = parts.push("Shift"@); }
            count = count + 1;
        }
        if self.is_meta() {
            push_joined(&mut s, Ghost(prefix), Ghost(parts), count, "+", "Meta");
            proof { parts = parts.push("Meta"@); }
            count = count + 1;
        }
        assert(parts == self.display_parts());
        assert(prefix == Seq::<char>::empty());
        assert(prefix + join(parts, "+"@) == join(parts, "+"@));
        s
    }
}

/// Adding modifiers keeps the ones already present and gains the added
/// ones; the order and grouping in which modifiers are added do not
/// matter, adding a set twice is adding it once, and adding none changes
/// nothing.
pub proof fn lemma_modifiers_with(a: u8, b: u8, c: u8)
    ensures
        bits_contain(a | b, a),
        bits_contain(a | b, b),
        a | b == b | a,
        (a | b) | c == a | (b | c),
        a | a == a,
        a | 0 == a,
        modifiers_of(a | b) == modifiers_of(b | a),
        modifiers_of((a | b) | c) == modifiers_of(a | (b | c)),
        modifiers_of(a | a) == modifiers_of(a),
        modifiers_of(a | 0) == modifiers_of(a),
{
    assert(((a | b) & a) == a) by (bit_vector);
    assert(((a | b) & b) == b) by (bit_vector);
    assert(a | b == b | a) by (bit_vector);
    assert((a | b) | c == a | (b | c)) by (bit_vector);
    assert(a | a == a) by (bit_vector);
    assert(a | 0 == a) by (bit_vector);
}

/// Every modifier set contains itself and the empty set.
pub proof fn lemma_modifiers_contains_self(a: u8)
    ensures
        bits_contain(a, a),
        bits_contain(a, 0),
{
    assert(a & a == a) by (bit_vector);
    assert(a & 0 == 0) by (bit_vector);
}

} // verus!
