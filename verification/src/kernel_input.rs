//! Keyboard input for the boot kernel: raw serial bytes and PS/2 set-1
//! scancodes turned into key events, and the kernel's workspace platform
//! (display, input queue and tick counter).

use vstd::prelude::*;
use crate::input_types::{keycode_name, modifiers_of, KeyCode, KeyEvent, KeyState, Modifiers};
use crate::host_runtime::key_char;

verus! {

/// The key a raw input byte stands for, if any.
pub open spec fn byte_key(byte: u8) -> Option<KeyCode> {
    match byte {
        0x1B => Some(KeyCode::Escape),
        0x0A | 0x0D => Some(KeyCode::Enter),
        0x08 | 0x7F => Some(KeyCode::Backspace),
        0x09 => Some(KeyCode::Tab),
        0x20 => Some(KeyCode::Space),
        0x10 => Some(KeyCode::P),
        0x80 => Some(KeyCode::Up),
        0x81 => Some(KeyCode::Down),
        97 | 65 => Some(KeyCode::A),
        98 | 66 => Some(KeyCode::B),
        99 | 67 => Some(KeyCode::C),
        100 | 68 => Some(KeyCode::D),
        101 | 69 => Some(KeyCode::E),
        102 | 70 => Some(KeyCode::F),
        103 | 71 => Some(KeyCode::G),
        104 | 72 => Some(KeyCode::H),
        105 | 73 => Some(KeyCode::I),
        106 | 74 => Some(KeyCode::J),
        107 | 75 => Some(KeyCode::K),
        108 | 76 => Some(KeyCode::L),
        109 | 77 => Some(KeyCode::M),
        110 | 78 => Some(KeyCode::N),
        111 | 79 => Some(KeyCode::O),
        112 | 80 => Some(KeyCode::P),
        113 | 81 => Some(KeyCode::Q),
        114 | 82 => Some(KeyCode::R),
        115 | 83 => Some(KeyCode::S),
        116 | 84 => Some(KeyCode::T),
        117 | 85 => Some(KeyCode::U),
        118 | 86 => Some(KeyCode::V),
        119 | 87 => Some(KeyCode::W),
        120 | 88 => Some(KeyCode::X),
        121 | 89 => Some(KeyCode::Y),
        122 | 90 => Some(KeyCode::Z),
        48 => Some(KeyCode::Num0),
        49 => Some(KeyCode::Num1),
        50 => Some(KeyCode::Num2),
        51 => Some(KeyCode::Num3),
        52 => Some(KeyCode::Num4),
        53 => Some(KeyCode::Num5),
        54 => Some(KeyCode::Num6),
        55 => Some(KeyCode::Num7),
        56 => Some(KeyCode::Num8),
        57 => Some(KeyCode::Num9),
        45 => Some(KeyCode::Minus),
        61 => Some(KeyCode::Equal),
        91 => Some(KeyCode::LeftBracket),
        93 => Some(KeyCode::RightBracket),
        92 => Some(KeyCode::Backslash),
        59 => Some(KeyCode::Semicolon),
        39 => Some(KeyCode::Quote),
        44 => Some(KeyCode::Comma),
        46 => Some(KeyCode::Period),
        47 => Some(KeyCode::Slash),
        96 => Some(KeyCode::Grave),
        _ => None,
    }
}

/// The byte of an ASCII character.
pub open spec fn ascii_byte(c: char) -> u8 {
    (c as u32) as u8
}

/// Every key that types a character is what that character's byte stands
/// for: the space byte gives the space key, each digit its number key,
/// each lowercase letter its letter key, and `/`, `.`, `,` their keys. The
/// colon is left out: it is typed with the semicolon key, whose byte is
/// `;`.
pub proof fn lemma_typed_chars_have_bytes(k: KeyCode)
    requires
        key_char(k) is Some,
        key_char(k)->0 != ':',
    ensures
        byte_key(ascii_byte(key_char(k)->0)) == Some(k),
{
}

/// A letter gives the same key in upper and in lower case, and some key.
pub proof fn lemma_letter_case(b: u8)
    requires
        65 <= b <= 90,
    ensures
        byte_key(b) is Some,
        byte_key(b) == byte_key((b + 32) as u8),
        key_char(byte_key(b)->0) == Some(((b + 32) as u8) as char),
{
}

/// A printable byte that stands for a key that types a character is that
/// character, or for a letter its upper case.
pub proof fn lemma_byte_keys_type_their_char(b: u8)
    requires
        0x20 <= b,
        byte_key(b) is Some,
        key_char(byte_key(b)->0) is Some,
        key_char(byte_key(b)->0)->0 != ':',
    ensures
        ascii_byte(key_char(byte_key(b)->0)->0) == b || (65 <= b <= 90 && ascii_byte(key_char(byte_key(b)->0)->0)
            == b + 32),
{
}

/// The control bytes a terminal sends stand for their keys, whichever of
/// the usual two a terminal uses: line feed and carriage return both for
/// Enter, backspace and delete both for Backspace; escape for Escape and
/// horizontal tab for Tab. The punctuation bytes stand for the keys that
/// bear them.
pub proof fn lemma_control_and_punctuation_bytes()
    ensures
        byte_key(0x0A) == Some(KeyCode::Enter) && byte_key(0x0D) == byte_key(0x0A),
        byte_key(0x08) == Some(KeyCode::Backspace) && byte_key(0x7F) == byte_key(0x08),
        byte_key(0x1B) == Some(KeyCode::Escape),
        byte_key(0x09) == Some(KeyCode::Tab),
        keycode_name(byte_key(ascii_byte('-'))->0) == "Minus"@,
        keycode_name(byte_key(ascii_byte('='))->0) == "Equal"@,
        keycode_name(byte_key(ascii_byte('['))->0) == "LeftBracket"@,
        keycode_name(byte_key(ascii_byte(']'))->0) == "RightBracket"@,
        keycode_name(byte_key(ascii_byte('\\'))->0) == "Backslash"@,
        keycode_name(byte_key(ascii_byte(';'))->0) == "Semicolon"@,
        keycode_name(byte_key(ascii_byte('\''))->0) == "Quote"@,
        keycode_name(byte_key(ascii_byte('`'))->0) == "Grave"@,
        byte_key(ascii_byte('-')) is Some && byte_key(ascii_byte('=')) is Some && byte_key(ascii_byte('['))
            is Some && byte_key(ascii_byte(']')) is Some && byte_key(ascii_byte('\\')) is Some && byte_key(
            ascii_byte(';'),
        ) is Some && byte_key(ascii_byte('\'')) is Some && byte_key(ascii_byte('`')) is Some,
{
}

/// The key event of a raw input byte: a press of its key, without
/// modifiers.
pub fn byte_to_key_event(byte: u8) -> (r: Option<KeyEvent>)
    ensures
        match byte_key(byte) {
            Some(k) => r == Some(
                KeyEvent { code: k, modifiers: modifiers_of(0), state: KeyState::Pressed, text: None },
            ),
            None => r is None,
        },
{
    let code = match byte {
        0x1B => Some(KeyCode::Escape),
        0x0A | 0x0D => Some(KeyCode::Enter),
        0x08 | 0x7F => Some(KeyCode::Backspace),
        0x09 => Some(KeyCode::Tab),
        0x20 => Some(KeyCode::Space),
        0x10 => Some(KeyCode::P),
        0x80 => Some(KeyCode::Up),
        0x81 => Some(KeyCode::Down),
        97 | 65 => Some(KeyCode::A),
        98 | 66 => Some(KeyCode::B),
        99 | 67 => Some(KeyCode::C),
        100 | 68 => Some(KeyCode::D),
        101 | 69 => Some(KeyCode::E),
        102 | 70 => Some(KeyCode::F),
        103 | 71 => Some(KeyCode::G),
        104 | 72 => Some(KeyCode::H),
        105 | 73 => Some(KeyCode::I),
        106 | 74 => Some(KeyCode::J),
        107 | 75 => Some(KeyCode::K),
        108 | 76 => Some(KeyCode::L),
        109 | 77 => Some(KeyCode::M),
        110 | 78 => Some(KeyCode::N),
        111 | 79 => Some(KeyCode::O),
        112 | 80 => Some(KeyCode::P),
        113 | 81 => Some(KeyCode::Q),
        114 | 82 => Some(KeyCode::R),
        115 | 83 => Some(KeyCode::S),
        116 | 84 => Some(KeyCode::T),
        117 | 85 => Some(KeyCode::U),
        118 | 86 => Some(KeyCode::V),
        119 | 87 => Some(KeyCode::W),
        120 | 88 => Some(KeyCode::X),
        121 | 89 => Some(KeyCode::Y),
        122 | 90 => Some(KeyCode::Z),
        48 => Some(KeyCode::Num0),
        49 => Some(KeyCode::Num1),
        50 => Some(KeyCode::Num2),
        51 => Some(KeyCode::Num3),
        52 => Some(KeyCode::Num4),
        53 => Some(KeyCode::Num5),
        54 => Some(KeyCode::Num6),
        55 => Some(KeyCode::Num7),
        56 => Some(KeyCode::Num8),
        57 => Some(KeyCode::Num9),
        45 => Some(KeyCode::Minus),
        61 => Some(KeyCode::Equal),
        91 => Some(KeyCode::LeftBracket),
        93 => Some(KeyCode::RightBracket),
        92 => Some(KeyCode::Backslash),
        59 => Some(KeyCode::Semicolon),
        39 => Some(KeyCode::Quote),
        44 => Some(KeyCode::Comma),
        46 => Some(KeyCode::Period),
        47 => Some(KeyCode::Slash),
        96 => Some(KeyCode::Grave),
        _ => None,
    };
    match code {
        Some(k) => Some(KeyEvent::new(k, Modifiers::none(), KeyState::Pressed)),
        None => None,
    }
}

/// The key a PS/2 set-1 make code stands for, if any.
pub open spec fn scancode_key(code: u8) -> Option<KeyCode> {
    match code {
        0x01 => Some(KeyCode::Escape),
        0x0E => Some(KeyCode::Backspace),
        0x0F => Some(KeyCode::Tab),
        0x1C => Some(KeyCode::Enter),
        0x39 => Some(KeyCode::Space),
        0x1E => Some(KeyCode::A),
        0x30 => Some(KeyCode::B),
        0x2E => Some(KeyCode::C),
        0x20 => Some(KeyCode::D),
        0x12 => Some(KeyCode::E),
        0x21 => Some(KeyCode::F),
        0x22 => Some(KeyCode::G),
        0x23 => Some(KeyCode::H),
        0x17 => Some(KeyCode::I),
        0x24 => Some(KeyCode::J),
        0x25 => Some(KeyCode::K),
        0x26 => Some(KeyCode::L),
        0x32 => Some(KeyCode::M),
        0x31 => Some(KeyCode::N),
        0x18 => Some(KeyCode::O),
        0x19 => Some(KeyCode::P),
        0x10 => Some(KeyCode::Q),
        0x13 => Some(KeyCode::R),
        0x1F => Some(KeyCode::S),
        0x14 => Some(KeyCode::T),
        0x16 => Some(KeyCode::U),
        0x2F => Some(KeyCode::V),
        0x11 => Some(KeyCode::W),
        0x2D => Some(KeyCode::X),
        0x15 => Some(KeyCode::Y),
        0x2C => Some(KeyCode::Z),
        0x02 => Some(KeyCode::Num1),
        0x03 => Some(KeyCode::Num2),
        0x04 => Some(KeyCode::Num3),
        0x05 => Some(KeyCode::Num4),
        0x06 => Some(KeyCode::Num5),
        0x07 => Some(KeyCode::Num6),
        0x08 => Some(KeyCode::Num7),
        0x09 => Some(KeyCode::Num8),
        0x0A => Some(KeyCode::Num9),
        0x0B => Some(KeyCode::Num0),
        0x0C => Some(KeyCode::Minus),
        0x1A => Some(KeyCode::LeftBracket),
        0x1B => Some(KeyCode::RightBracket),
        0x2B => Some(KeyCode::Backslash),
        0x27 => Some(KeyCode::Semicolon),
        0x28 => Some(KeyCode::Quote),
        0x33 => Some(KeyCode::Comma),
        0x34 => Some(KeyCode::Period),
        0x35 => Some(KeyCode::Slash),
        0x3B => Some(KeyCode::F1),
        0x3C => Some(KeyCode::F2),
        0x3D => Some(KeyCode::F3),
        0x3E => Some(KeyCode::F4),
        0x3F => Some(KeyCode::F5),
        0x40 => Some(KeyCode::F6),
        0x41 => Some(KeyCode::F7),
        0x42 => Some(KeyCode::F8),
        0x43 => Some(KeyCode::F9),
        0x44 => Some(KeyCode::F10),
        0x57 => Some(KeyCode::F11),
        0x58 => Some(KeyCode::F12),
        _ => None,
    }
}

/// The modifier bits of the held Shift, Ctrl and Alt keys, added in that
/// order.
pub open spec fn held_bits(shift: bool, ctrl: bool, alt: bool) -> u8 {
    let m1 = if shift {
        0u8 | Modifiers::SHIFT
    } else {
        0u8
    };
    let m2 = if ctrl {
        m1 | Modifiers::CTRL
    } else {
        m1
    };
    if alt {
        m2 | Modifiers::ALT
    } else {
        m2
    }
}

/// Decodes PS/2 set-1 scancodes: tracks the `E0` prefix and the Shift, Ctrl
/// and Alt keys, and reports key presses with the modifiers held.
#[derive(Debug, Clone, Copy, PartialEq, Eq, Structural)]
pub struct Ps2ParserState {
    pub pending_e0: bool,
    pub shift_pressed: bool,
    pub ctrl_pressed: bool,
    pub alt_pressed: bool,
}

impl Ps2ParserState {
    /// A parser with no key held and no prefix pending.
    pub fn new() -> (r: Self)
        ensures
            r == (Ps2ParserState {
                pending_e0: false,
                shift_pressed: false,
                ctrl_pressed: false,
                alt_pressed: false,
            }),
    {
        Ps2ParserState { pending_e0: false, shift_pressed: false, ctrl_pressed: false, alt_pressed: false }
    }

    /// Takes one scancode. `E0` only sets the prefix; Shift, Ctrl and Alt
    /// (with or without the prefix) record whether they are held; any other
    /// code reports a press of its key, unless it is a release or follows the
    /// prefix. Every code but `E0` clears the prefix.
    pub fn process_scancode(&mut self, scancode: u8) -> (r: Option<KeyEvent>)
        ensures
            scancode == 0xE0 ==> r is None && *final(self) == (Ps2ParserState { pending_e0: true, ..*old(self) }),
            scancode != 0xE0 ==> ({
                let is_break = scancode >= 0x80;
                let code = (scancode % 128) as u8;
                if code == 0x2A || code == 0x36 {
                    r is None && *final(self) == (Ps2ParserState {
                        pending_e0: false,
                        shift_pressed: !is_break,
                        ..*old(self)
                    })
                } else if code == 0x1D {
                    r is None && *final(self) == (Ps2ParserState {
                        pending_e0: false,
                        ctrl_pressed: !is_break,
                        ..*old(self)
                    })
                } else if code == 0x38 {
                    r is None && *final(self) == (Ps2ParserState {
                        pending_e0: false,
                        alt_pressed: !is_break,
                        ..*old(self)
                    })
                } else {
                    &&& *final(self) == (Ps2ParserState { pending_e0: false, ..*old(self) })
                    &&& (old(self).pending_e0 || is_break) ==> r is None
                    &&& !(old(self).pending_e0 || is_break) ==> match scancode_key(code) {
                        Some(k) => r matches Some(e) && e.code == k && e.state == KeyState::Pressed
                            && e.text is None && e.modifiers@ == held_bits(
                            old(self).shift_pressed,
                            old(self).ctrl_pressed,
                            old(self).alt_pressed,
                        ),
                        None => r is None,
                    }
                }
            }),
    {
        if scancode == 0xE0 {
            self.pending_e0 = true;
            return None;
        }
        let is_break = (scancode & 0x80) != 0;
        let code = scancode & 0x7F;
        assert(is_break == (scancode >= 0x80) && code == scancode % 128) by (bit_vector)
            requires
                is_break == ((scancode & 0x80) != 0),
                code == scancode & 0x7F,
        ;
        if code == 0x2A || code == 0x36 {
            self.shift_pressed = !is_break;
            self.pending_e0 = false;
            return None;
        }
        if code == 0x1D {
            self.ctrl_pressed = !is_break;
            self.pending_e0 = false;
            return None;
        }
        if code == 0x38 {
            self.alt_pressed = !is_break;
            self.pending_e0 = false;
            return None;
        }
        if self.pending_e0 || is_break {
            self.pending_e0 = false;
            return None;
        }
        self.pending_e0 = false;
        self.scancode_to_key_event(code)
    }

    /// The key event of a make code with the modifiers held.
    pub fn scancode_to_key_event(&self, code: u8) -> (r: Option<KeyEvent>)
        ensures
            match scancode_key(code) {
                Some(k) => r matches Some(e) && e.code == k && e.state == KeyState::Pressed && e.text is None
                    && e.modifiers@ == held_bits(self.shift_pressed, self.ctrl_pressed, self.alt_pressed),
                None => r is None,
            },
    {
        let mut modifiers = Modifiers::none();
        if self.shift_pressed {
            modifiers = modifiers.with(Modifiers::from_bits(Modifiers::SHIFT));
        }
        if self.ctrl_pressed {
            modifiers = modifiers.with(Modifiers::from_bits(Modifiers::CTRL));
        }
        if self.alt_pressed {
            modifiers = modifiers.with(Modifiers::from_bits(Modifiers::ALT));
        }
        let key = match code {
        0x01 => Some(KeyCode::Escape),
        0x0E => Some(KeyCode::Backspace),
        0x0F => Some(KeyCode::Tab),
        0x1C => Some(KeyCode::Enter),
        0x39 => Some(KeyCode::Space),
        0x1E => Some(KeyCode::A),
        0x30 => Some(KeyCode::B),
        0x2E => Some(KeyCode::C),
        0x20 => Some(KeyCode::D),
        0x12 => Some(KeyCode::E),
        0x21 => Some(KeyCode::F),
        0x22 => Some(KeyCode::G),
        0x23 => Some(KeyCode::H),
        0x17 => Some(KeyCode::I),
        0x24 => Some(KeyCode::J),
        0x25 => Some(KeyCode::K),
        0x26 => Some(KeyCode::L),
        0x32 => Some(KeyCode::M),
        0x31 => Some(KeyCode::N),
        0x18 => Some(KeyCode::O),
        0x19 => Some(KeyCode::P),
        0x10 => Some(KeyCode::Q),
        0x13 => Some(KeyCode::R),
        0x1F => Some(KeyCode::S),
        0x14 => Some(KeyCode::T),
        0x16 => Some(KeyCode::U),
        0x2F => Some(KeyCode::V),
        0x11 => Some(KeyCode::W),
        0x2D => Some(KeyCode::X),
        0x15 => Some(KeyCode::Y),
        0x2C => Some(KeyCode::Z),
        0x02 => Some(KeyCode::Num1),
        0x03 => Some(KeyCode::Num2),
        0x04 => Some(KeyCode::Num3),
        0x05 => Some(KeyCode::Num4),
        0x06 => Some(KeyCode::Num5),
        0x07 => Some(KeyCode::Num6),
        0x08 => Some(KeyCode::Num7),
        0x09 => Some(KeyCode::Num8),
        0x0A => Some(KeyCode::Num9),
        0x0B => Some(KeyCode::Num0),
        0x0C => Some(KeyCode::Minus),
        0x1A => Some(KeyCode::LeftBracket),
        0x1B => Some(KeyCode::RightBracket),
        0x2B => Some(KeyCode::Backslash),
        0x27 => Some(KeyCode::Semicolon),
        0x28 => Some(KeyCode::Quote),
        0x33 => Some(KeyCode::Comma),
        0x34 => Some(KeyCode::Period),
        0x35 => Some(KeyCode::Slash),
        0x3B => Some(KeyCode::F1),
        0x3C => Some(KeyCode::F2),
        0x3D => Some(KeyCode::F3),
        0x3E => Some(KeyCode::F4),
        0x3F => Some(KeyCode::F5),
        0x40 => Some(KeyCode::F6),
        0x41 => Some(KeyCode::F7),
        0x42 => Some(KeyCode::F8),
        0x43 => Some(KeyCode::F9),
        0x44 => Some(KeyCode::F10),
        0x57 => Some(KeyCode::F11),
        0x58 => Some(KeyCode::F12),
        _ => None,
        };
        match key {
            Some(k) => Some(KeyEvent::new(k, modifiers, KeyState::Pressed)),
            None => None,
        }
    }
}

/// The display of the kernel workspace platform; it records whether it was
/// cleared.
#[derive(Debug, Clone, Copy, PartialEq, Eq, Structural)]
pub struct KernelDisplay {
    pub cleared: bool,
}

impl KernelDisplay {
    /// A display not yet cleared.
    pub fn new() -> (r: Self)
        ensures
            !r.cleared,
    {
        KernelDisplay { cleared: false }
    }

    /// Clears the display.
    pub fn clear(&mut self)
        ensures
            final(self).cleared,
    {
        self.cleared = true;
    }
}

/// The keyboard input of the kernel workspace platform: a queue of
/// scancodes and the parser that decodes them.
#[derive(Debug, Clone)]
pub struct KernelInput {
    pub parser: Ps2ParserState,
    pub queue: Vec<u8>,
}

impl KernelInput {
    /// Input with no scancode queued.
    pub fn new() -> (r: Self)
        ensures
            r.parser == Ps2ParserState::new_spec(),
            r.queue@ == Seq::<u8>::empty(),
    {
        KernelInput { parser: Ps2ParserState::new(), queue: Vec::new() }
    }

    /// Queues a scancode.
    pub fn inject_scancode(&mut self, scancode: u8)
        ensures
            final(self).queue@ == old(self).queue@.push(scancode),
            final(self).parser == old(self).parser,
    {
        self.queue.push(scancode);
    }

    /// Decodes queued scancodes, oldest first, until one gives a key event;
    /// the scancodes consumed leave the queue.
    pub fn poll_event(&mut self) -> (r: Option<KeyEvent>)
        ensures
            final(self).queue@.len() <= old(self).queue@.len(),
            final(self).queue@ == old(self).queue@.skip(old(self).queue@.len() - final(self).queue@.len()),
            r is None ==> final(self).queue@.len() == 0,
    {
        while self.queue.len() > 0
            invariant
                self.queue@.len() <= old(self).queue@.len(),
                self.queue@ == old(self).queue@.skip(old(self).queue@.len() - self.queue@.len()),
            decreases self.queue@.len(),
        {
            let ghost before = self.queue@;
            let scancode = self.queue.remove(0);
            assert(self.queue@ == old(self).queue@.skip(old(self).queue@.len() - self.queue@.len()));
            if let Some(event) = self.parser.process_scancode(scancode) {
                return Some(event);
            }
        }
        None
    }

    /// Whether scancodes are queued.
    pub fn has_pending(&self) -> (r: bool)
        ensures
            r == (self.queue@.len() > 0),
    {
        self.queue.len() > 0
    }
}

/// The tick counter of the kernel workspace platform.
#[derive(Debug, Clone, Copy, PartialEq, Eq, Structural)]
pub struct KernelTick {
    pub tick_count: u64,
}

impl KernelTick {
    /// A counter at zero.
    pub fn new() -> (r: Self)
        ensures
            r.tick_count == 0,
    {
        KernelTick { tick_count: 0 }
    }

    /// Counts a tick and returns the new count.
    pub fn advance(&mut self) -> (r: u64)
        requires
            old(self).tick_count < u64::MAX,
        ensures
            r == old(self).tick_count + 1,
            final(self).tick_count == r,
    {
        self.tick_count = self.tick_count + 1;
        self.tick_count
    }

    /// The count.
    pub fn current(&self) -> (r: u64)
        ensures
            r == self.tick_count,
    {
        self.tick_count
    }
}

/// The workspace platform of the kernel: its display, keyboard input and
/// tick counter.
#[derive(Debug, Clone)]
pub struct KernelWorkspacePlatform {
    pub display: KernelDisplay,
    pub input: KernelInput,
    pub tick: KernelTick,
}

impl KernelWorkspacePlatform {
    /// A platform with a fresh display, input and counter.
    pub fn new_test() -> (r: Self)
        ensures
            !r.display.cleared,
            r.input.queue@ == Seq::<u8>::empty(),
            r.input.parser == Ps2ParserState::new_spec(),
            r.tick.tick_count == 0,
    {
        KernelWorkspacePlatform { display: KernelDisplay::new(), input: KernelInput::new(), tick: KernelTick::new() }
    }
}

impl Ps2ParserState {
    /// A parser with no key held and no prefix pending.
    pub open spec fn new_spec() -> Ps2ParserState {
        Ps2ParserState { pending_e0: false, shift_pressed: false, ctrl_pressed: false, alt_pressed: false }
    }
}

} // verus!
