//! Scripted keyboard input for deterministic testing and demos.
//!
//! A script is line based; each line is one action:
//! - key names: `Enter`, `Escape`, `Backspace`, `Tab`, `Space`, arrows, `F1`..`F12`
//! - single characters: `a`, `A`, `0`..`9`
//! - modifiers: `Ctrl+c`, `Alt+x`, `Shift+a`
//! - quoted text: `"Hello World"`, one key press per character
//! - comments: `# ...`, and empty lines, are skipped
//! - delays: `wait 100ms`, `wait 2s`

use vstd::prelude::*;
use std::collections::VecDeque;
use crate::input_types::{keycode_name, InputEvent, KeyCode, KeyEvent, Modifiers};
use crate::host_runtime::key_char;
use crate::text::{
    chars_of, decimal, eq_str, lowercase_chars, parse_u64_chars, parse_u64_spec, push_decimal,
    push_str, split_on, starts_with_chars, starts_with_seq, string_of, sub_chars, trim, trimmed,
    trimmed_all, unicode_lowercase, ascii_lower,
};

verus! {

/// Errors of the script parser.
#[derive(Debug, PartialEq, Eq)]
pub enum InputScriptError {
    /// A key name that names no key.
    InvalidKeyName(String),
    /// A modifier name that names no modifier.
    InvalidModifier(String),
    /// A line that could not be parsed, with its number (from 1).
    ParseError { line: usize, message: String },
    /// The script holds no input.
    EmptyScript,
    /// A delay that is not `<n>ms` or `<n>s`.
    InvalidDelay(String),
}

/// An error of the script parser, as plain values.
pub enum ScriptFault {
    InvalidKeyName(Seq<char>),
    InvalidModifier(Seq<char>),
    ParseError { line: nat, message: Seq<char> },
    EmptyScript,
    InvalidDelay(Seq<char>),
}

impl View for InputScriptError {
    type V = ScriptFault;

    open spec fn view(&self) -> ScriptFault {
        match self {
            InputScriptError::InvalidKeyName(s) => ScriptFault::InvalidKeyName(s@),
            InputScriptError::InvalidModifier(s) => ScriptFault::InvalidModifier(s@),
            InputScriptError::ParseError { line, message } => ScriptFault::ParseError {
                line: *line as nat,
                message: message@,
            },
            InputScriptError::EmptyScript => ScriptFault::EmptyScript,
            InputScriptError::InvalidDelay(s) => ScriptFault::InvalidDelay(s@),
        }
    }
}

/// The message of an error.
pub open spec fn fault_text(f: ScriptFault) -> Seq<char> {
    match f {
        ScriptFault::InvalidKeyName(s) => "Invalid key name: "@ + s,
        ScriptFault::InvalidModifier(s) => "Invalid modifier: "@ + s,
        ScriptFault::ParseError { line, message } => "Parse error at line "@ + decimal(line)
            + ": "@ + message,
        ScriptFault::EmptyScript => "Empty script"@,
        ScriptFault::InvalidDelay(s) => "Invalid delay format: "@ + s,
    }
}

impl InputScriptError {
    /// The error's message.
    pub fn to_string(&self) -> (r: String)
        ensures
            r@ == fault_text(self@),
    {
        let mut s = String::new();
        match self {
            InputScriptError::InvalidKeyName(name) => {
                push_str(&mut s, "Invalid key name: ");
                push_str(&mut s, name.as_str());
            },
            InputScriptError::InvalidModifier(name) => {
                push_str(&mut s, "Invalid modifier: ");
                push_str(&mut s, name.as_str());
            },
            InputScriptError::ParseError { line, message } => {
                push_str(&mut s, "Parse error at line ");
                push_decimal(&mut s, *line as u64);
                push_str(&mut s, ": ");
                push_str(&mut s, message.as_str());
            },
            InputScriptError::EmptyScript => {
                push_str(&mut s, "Empty script");
            },
            InputScriptError::InvalidDelay(text) => {
                push_str(&mut s, "Invalid delay format: ");
                push_str(&mut s, text.as_str());
            },
        }
        s
    }
}

/// A single scripted input action.
#[derive(Debug, Clone, Copy, PartialEq, Eq, Structural)]
pub enum ScriptedInput {
    /// A single key press with its modifiers.
    Key(KeyCode, Modifiers),
    /// A wait, in milliseconds.
    Wait(u64),
}

/// A scripted input action as plain values: the key and its modifier bits,
/// or the milliseconds of a wait.
pub enum ScriptStep {
    Key(KeyCode, u8),
    Wait(u64),
}

impl View for ScriptedInput {
    type V = ScriptStep;

    open spec fn view(&self) -> ScriptStep {
        match *self {
            ScriptedInput::Key(k, m) => ScriptStep::Key(k, m@),
            ScriptedInput::Wait(ms) => ScriptStep::Wait(ms),
        }
    }
}

/// The plain values of a run of scripted inputs.
pub open spec fn steps_of(inputs: Seq<ScriptedInput>) -> Seq<ScriptStep> {
    inputs.map_values(|x: ScriptedInput| x@)
}

/// The key a character stands for when typed.
pub open spec fn char_key(c: char) -> KeyCode {
    match c {
        'a' | 'A' => KeyCode::A,
        'b' | 'B' => KeyCode::B,
        'c' | 'C' => KeyCode::C,
        'd' | 'D' => KeyCode::D,
        'e' | 'E' => KeyCode::E,
        'f' | 'F' => KeyCode::F,
        'g' | 'G' => KeyCode::G,
        'h' | 'H' => KeyCode::H,
        'i' | 'I' => KeyCode::I,
        'j' | 'J' => KeyCode::J,
        'k' | 'K' => KeyCode::K,
        'l' | 'L' => KeyCode::L,
        'm' | 'M' => KeyCode::M,
        'n' | 'N' => KeyCode::N,
        'o' | 'O' => KeyCode::O,
        'p' | 'P' => KeyCode::P,
        'q' | 'Q' => KeyCode::Q,
        'r' | 'R' => KeyCode::R,
        's' | 'S' => KeyCode::S,
        't' | 'T' => KeyCode::T,
        'u' | 'U' => KeyCode::U,
        'v' | 'V' => KeyCode::V,
        'w' | 'W' => KeyCode::W,
        'x' | 'X' => KeyCode::X,
        'y' | 'Y' => KeyCode::Y,
        'z' | 'Z' => KeyCode::Z,
        '0' => KeyCode::Num0,
        '1' => KeyCode::Num1,
        '2' => KeyCode::Num2,
        '3' => KeyCode::Num3,
        '4' => KeyCode::Num4,
        '5' => KeyCode::Num5,
        '6' => KeyCode::Num6,
        '7' => KeyCode::Num7,
        '8' => KeyCode::Num8,
        '9' => KeyCode::Num9,
        ' ' => KeyCode::Space,
        ':' => KeyCode::Semicolon,
        '/' => KeyCode::Slash,
        '.' => KeyCode::Period,
        ',' => KeyCode::Comma,
        _ => KeyCode::Unknown,
    }
}

/// The key a lowercased key name names, if any.
pub open spec fn named_key(l: Seq<char>) -> Option<KeyCode> {
    if l == "enter"@ || l == "return"@ {
        Some(KeyCode::Enter)
    } else if l == "escape"@ || l == "esc"@ {
        Some(KeyCode::Escape)
    } else if l == "backspace"@ || l == "back"@ {
        Some(KeyCode::Backspace)
    } else if l == "tab"@ {
        Some(KeyCode::Tab)
    } else if l == "space"@ {
        Some(KeyCode::Space)
    } else if l == "up"@ || l == "arrowup"@ {
        Some(KeyCode::Up)
    } else if l == "down"@ || l == "arrowdown"@ {
        Some(KeyCode::Down)
    } else if l == "left"@ || l == "arrowleft"@ {
        Some(KeyCode::Left)
    } else if l == "right"@ || l == "arrowright"@ {
        Some(KeyCode::Right)
    } else if l == "f1"@ {
        Some(KeyCode::F1)
    } else if l == "f2"@ {
        Some(KeyCode::F2)
    } else if l == "f3"@ {
        Some(KeyCode::F3)
    } else if l == "f4"@ {
        Some(KeyCode::F4)
    } else if l == "f5"@ {
        Some(KeyCode::F5)
    } else if l == "f6"@ {
        Some(KeyCode::F6)
    } else if l == "f7"@ {
        Some(KeyCode::F7)
    } else if l == "f8"@ {
        Some(KeyCode::F8)
    } else if l == "f9"@ {
        Some(KeyCode::F9)
    } else if l == "f10"@ {
        Some(KeyCode::F10)
    } else if l == "f11"@ {
        Some(KeyCode::F11)
    } else if l == "f12"@ {
        Some(KeyCode::F12)
    } else {
        None
    }
}

/// The lowercase of an ASCII text.
pub open spec fn ascii_lowercase(s: Seq<char>) -> Seq<char> {
    s.map_values(|c: char| ascii_lower(c))
}

/// The keys a script names by a word: Enter, Escape, Backspace, Tab,
/// Space, the four arrows and the function keys.
pub open spec fn word_named(k: KeyCode) -> bool {
    match k {
        KeyCode::Enter | KeyCode::Escape | KeyCode::Backspace | KeyCode::Tab | KeyCode::Space | KeyCode::Up
        | KeyCode::Down | KeyCode::Left | KeyCode::Right | KeyCode::F1 | KeyCode::F2 | KeyCode::F3 | KeyCode::F4
        | KeyCode::F5 | KeyCode::F6 | KeyCode::F7 | KeyCode::F8 | KeyCode::F9 | KeyCode::F10 | KeyCode::F11
        | KeyCode::F12 => true,
        _ => false,
    }
}

/// Whether a key is one of the four arrow keys.
pub open spec fn is_arrow(k: KeyCode) -> bool {
    k == KeyCode::Up || k == KeyCode::Down || k == KeyCode::Left || k == KeyCode::Right
}

/// Every key a script names by a word is named by its own name in
/// lowercase (`left` for Left, `f5` for F5), an arrow key also by `arrow`
/// before it (`arrowleft`); so two different keys are never reached from
/// the same name.
pub proof fn lemma_key_names_parse(k: KeyCode)
    requires
        word_named(k),
    ensures
        named_key(ascii_lowercase(keycode_name(k))) == Some(k),
        is_arrow(k) ==> named_key("arrow"@ + ascii_lowercase(keycode_name(k))) == Some(k),
{
    reveal_strlit("enter");
    reveal_strlit("return");
    reveal_strlit("escape");
    reveal_strlit("esc");
    reveal_strlit("backspace");
    reveal_strlit("back");
    reveal_strlit("tab");
    reveal_strlit("space");
    reveal_strlit("up");
    reveal_strlit("arrowup");
    reveal_strlit("down");
    reveal_strlit("arrowdown");
    reveal_strlit("left");
    reveal_strlit("arrowleft");
    reveal_strlit("right");
    reveal_strlit("arrowright");
    reveal_strlit("f1");
    reveal_strlit("f2");
    reveal_strlit("f3");
    reveal_strlit("f4");
    reveal_strlit("f5");
    reveal_strlit("f6");
    reveal_strlit("f7");
    reveal_strlit("f8");
    reveal_strlit("f9");
    reveal_strlit("f10");
    reveal_strlit("f11");
    reveal_strlit("f12");
    reveal_strlit("arrow");
    match k {
            KeyCode::Enter => {
                reveal_strlit("Enter");
                assert(ascii_lowercase(keycode_name(k)) =~= "enter"@);
                assert(named_key(ascii_lowercase(keycode_name(k))) == Some(k));
            },
            KeyCode::Escape => {
                reveal_strlit("Escape");
                assert(ascii_lowercase(keycode_name(k)) =~= "escape"@);
                assert("escape"@[0] != "return"@[0]);
                assert(named_key(ascii_lowercase(keycode_name(k))) == Some(k));
            },
            KeyCode::Backspace => {
                reveal_strlit("Backspace");
                assert(ascii_lowercase(keycode_name(k)) =~= "backspace"@);
                assert(named_key(ascii_lowercase(keycode_name(k))) == Some(k));
            },
            KeyCode::Tab => {
                reveal_strlit("Tab");
                assert(ascii_lowercase(keycode_name(k)) =~= "tab"@);
                assert("tab"@[0] != "esc"@[0]);
                assert(named_key(ascii_lowercase(keycode_name(k))) == Some(k));
            },
            KeyCode::Space => {
                reveal_strlit("Space");
                assert(ascii_lowercase(keycode_name(k)) =~= "space"@);
                assert("space"@[0] != "enter"@[0]);
                assert(named_key(ascii_lowercase(keycode_name(k))) == Some(k));
            },
            KeyCode::Up => {
                reveal_strlit("Up");
                assert(ascii_lowercase(keycode_name(k)) =~= "up"@);
                assert(named_key(ascii_lowercase(keycode_name(k))) == Some(k));
                assert("arrow"@ + "up"@ =~= "arrowup"@);
            },
            KeyCode::Down => {
                reveal_strlit("Down");
                assert(ascii_lowercase(keycode_name(k)) =~= "down"@);
                assert("down"@[0] != "back"@[0]);
                assert("arrowdown"@[0] != "backspace"@[0]);
                assert(named_key(ascii_lowercase(keycode_name(k))) == Some(k));
                assert("arrow"@ + "down"@ =~= "arrowdown"@);
            },
            KeyCode::Left => {
                reveal_strlit("Left");
                assert(ascii_lowercase(keycode_name(k)) =~= "left"@);
                assert("left"@[0] != "back"@[0]);
                assert("left"@[0] != "down"@[0]);
                assert("arrowleft"@[0] != "backspace"@[0]);
                assert("arrowleft"@[5] != "arrowdown"@[5]);
                assert(named_key(ascii_lowercase(keycode_name(k))) == Some(k));
                assert("arrow"@ + "left"@ =~= "arrowleft"@);
            },
            KeyCode::Right => {
                reveal_strlit("Right");
                assert(ascii_lowercase(keycode_name(k)) =~= "right"@);
                assert("right"@[0] != "enter"@[0]);
                assert("right"@[0] != "space"@[0]);
                assert(named_key(ascii_lowercase(keycode_name(k))) == Some(k));
                assert("arrow"@ + "right"@ =~= "arrowright"@);
            },
            KeyCode::F1 => {
                reveal_strlit("F1");
                assert(ascii_lowercase(keycode_name(k)) =~= "f1"@);
                assert("f1"@[0] != "up"@[0]);
                assert(named_key(ascii_lowercase(keycode_name(k))) == Some(k));
            },
            KeyCode::F2 => {
                reveal_strlit("F2");
                assert(ascii_lowercase(keycode_name(k)) =~= "f2"@);
                assert("f2"@[0] != "up"@[0]);
                assert("f2"@[1] != "f1"@[1]);
                assert(named_key(ascii_lowercase(keycode_name(k))) == Some(k));
            },
            KeyCode::F3 => {
                reveal_strlit("F3");
                assert(ascii_lowercase(keycode_name(k)) =~= "f3"@);
                assert("f3"@[0] != "up"@[0]);
                assert("f3"@[1] != "f1"@[1]);
                assert("f3"@[1] != "f2"@[1]);
                assert(named_key(ascii_lowercase(keycode_name(k))) == Some(k));
            },
            KeyCode::F4 => {
                reveal_strlit("F4");
                assert(ascii_lowercase(keycode_name(k)) =~= "f4"@);
                assert("f4"@[0] != "up"@[0]);
                assert("f4"@[1] != "f1"@[1]);
                assert("f4"@[1] != "f2"@[1]);
                assert("f4"@[1] != "f3"@[1]);
                assert(named_key(ascii_lowercase(keycode_name(k))) == Some(k));
            },
            KeyCode::F5 => {
                reveal_strlit("F5");
                assert(ascii_lowercase(keycode_name(k)) =~= "f5"@);
                assert("f5"@[0] != "up"@[0]);
                assert("f5"@[1] != "f1"@[1]);
                assert("f5"@[1] != "f2"@[1]);
                assert("f5"@[1] != "f3"@[1]);
                assert("f5"@[1] != "f4"@[1]);
                assert(named_key(ascii_lowercase(keycode_name(k))) == Some(k));
            },
            KeyCode::F6 => {
                reveal_strlit("F6");
                assert(ascii_lowercase(keycode_name(k)) =~= "f6"@);
                assert("f6"@[0] != "up"@[0]);
                assert("f6"@[1] != "f1"@[1]);
                assert("f6"@[1] != "f2"@[1]);
                assert("f6"@[1] != "f3"@[1]);
                assert("f6"@[1] != "f4"@[1]);
                assert("f6"@[1] != "f5"@[1]);
                assert(named_key(ascii_lowercase(keycode_name(k))) == Some(k));
            },
            KeyCode::F7 => {
                reveal_strlit("F7");
                assert(ascii_lowercase(keycode_name(k)) =~= "f7"@);
                assert("f7"@[0] != "up"@[0]);
                assert("f7"@[1] != "f1"@[1]);
                assert("f7"@[1] != "f2"@[1]);
                assert("f7"@[1] != "f3"@[1]);
                assert("f7"@[1] != "f4"@[1]);
                assert("f7"@[1] != "f5"@[1]);
                assert("f7"@[1] != "f6"@[1]);
                assert(named_key(ascii_lowercase(keycode_name(k))) == Some(k));
            },
            KeyCode::F8 => {
                reveal_strlit("F8");
                assert(ascii_lowercase(keycode_name(k)) =~= "f8"@);
                assert("f8"@[0] != "up"@[0]);
                assert("f8"@[1] != "f1"@[1]);
                assert("f8"@[1] != "f2"@[1]);
                assert("f8"@[1] != "f3"@[1]);
                assert("f8"@[1] != "f4"@[1]);
                assert("f8"@[1] != "f5"@[1]);
                assert("f8"@[1] != "f6"@[1]);
                assert("f8"@[1] != "f7"@[1]);
                assert(named_key(ascii_lowercase(keycode_name(k))) == Some(k));
            },
            KeyCode::F9 => {
                reveal_strlit("F9");
                assert(ascii_lowercase(keycode_name(k)) =~= "f9"@);
                assert("f9"@[0] != "up"@[0]);
                assert("f9"@[1] != "f1"@[1]);
                assert("f9"@[1] != "f2"@[1]);
                assert("f9"@[1] != "f3"@[1]);
                assert("f9"@[1] != "f4"@[1]);
                assert("f9"@[1] != "f5"@[1]);
                assert("f9"@[1] != "f6"@[1]);
                assert("f9"@[1] != "f7"@[1]);
                assert("f9"@[1] != "f8"@[1]);
                assert(named_key(ascii_lowercase(keycode_name(k))) == Some(k));
            },
            KeyCode::F10 => {
                reveal_strlit("F10");
                assert(ascii_lowercase(keycode_name(k)) =~= "f10"@);
                assert("f10"@[0] != "esc"@[0]);
                assert("f10"@[0] != "tab"@[0]);
                assert(named_key(ascii_lowercase(keycode_name(k))) == Some(k));
            },
            KeyCode::F11 => {
                reveal_strlit("F11");
                assert(ascii_lowercase(keycode_name(k)) =~= "f11"@);
                assert("f11"@[0] != "esc"@[0]);
                assert("f11"@[0] != "tab"@[0]);
                assert("f11"@[2] != "f10"@[2]);
                assert(named_key(ascii_lowercase(keycode_name(k))) == Some(k));
            },
            KeyCode::F12 => {
                reveal_strlit("F12");
                assert(ascii_lowercase(keycode_name(k)) =~= "f12"@);
                assert("f12"@[0] != "esc"@[0]);
                assert("f12"@[0] != "tab"@[0]);
                assert("f12"@[2] != "f10"@[2]);
                assert("f12"@[2] != "f11"@[2]);
                assert(named_key(ascii_lowercase(keycode_name(k))) == Some(k));
            },
            _ => {},
    }
}

/// The alternative names of keys name the same keys as their main names:
/// `return` as `enter`, `esc` as `escape`, `back` as `backspace`.
pub proof fn lemma_key_name_aliases()
    ensures
        named_key("return"@) == named_key("enter"@),
        named_key("esc"@) == named_key("escape"@),
        named_key("back"@) == named_key("backspace"@),
        named_key("return"@) == Some(KeyCode::Enter),
        named_key("esc"@) == Some(KeyCode::Escape),
        named_key("back"@) == Some(KeyCode::Backspace),
{
    reveal_strlit("enter");
    reveal_strlit("return");
    reveal_strlit("escape");
    reveal_strlit("esc");
    reveal_strlit("backspace");
    reveal_strlit("back");
    reveal_strlit("tab");
    reveal_strlit("space");
    assert("return"@[0] != "enter"@[0]);
    assert("esc"@.len() != "enter"@.len());
    assert("back"@.len() == 4 && "backspace"@.len() == 9);
    assert("back"@ != "enter"@ && "back"@ != "return"@ && "back"@ != "escape"@ && "back"@ != "esc"@);
    assert("back"@ != "backspace"@);
}

/// Each modifier name sets one modifier bit of its own: `ctrl` and
/// `control` the Ctrl bit, `alt` the Alt bit, `shift` the Shift bit,
/// `super` and `meta` the Meta bit, and the four bits differ.
pub proof fn lemma_modifier_names()
    ensures
        modifier_bit("ctrl"@) == Some(Modifiers::CTRL),
        modifier_bit("control"@) == Some(Modifiers::CTRL),
        modifier_bit("alt"@) == Some(Modifiers::ALT),
        modifier_bit("shift"@) == Some(Modifiers::SHIFT),
        modifier_bit("super"@) == Some(Modifiers::META),
        modifier_bit("meta"@) == Some(Modifiers::META),
        Modifiers::CTRL != Modifiers::ALT && Modifiers::CTRL != Modifiers::SHIFT && Modifiers::CTRL
            != Modifiers::META && Modifiers::ALT != Modifiers::SHIFT && Modifiers::ALT != Modifiers::META
            && Modifiers::SHIFT != Modifiers::META,
{
    reveal_strlit("ctrl");
    reveal_strlit("control");
    reveal_strlit("alt");
    reveal_strlit("shift");
    reveal_strlit("super");
    reveal_strlit("meta");
    assert("control"@.len() != "ctrl"@.len());
    assert("alt"@.len() != "ctrl"@.len());
    assert("shift"@[0] != "alt"@[0]);
    assert("super"@[1] != "shift"@[1]);
    assert("meta"@[0] != "ctrl"@[0]);
}

/// Typing a character gives the key that types it: for every key that
/// types a character, that character stands for the key.
pub proof fn lemma_typed_char_key(k: KeyCode)
    requires
        key_char(k) is Some,
    ensures
        char_key(key_char(k)->0) == k,
{
}

/// The key a key name stands for: a named key (in any case), or a single
/// ASCII character.
pub open spec fn key_outcome(name: Seq<char>) -> Option<KeyCode> {
    match named_key(unicode_lowercase(name)) {
        Some(k) => Some(k),
        None => if name.len() == 1 && (name[0] as u32) < 128 {
            Some(char_key(name[0]))
        } else {
            None
        },
    }
}

/// The modifier bit a lowercased modifier name names, if any.
pub open spec fn modifier_bit(name: Seq<char>) -> Option<u8> {
    if name == "ctrl"@ || name == "control"@ {
        Some(Modifiers::CTRL)
    } else if name == "alt"@ {
        Some(Modifiers::ALT)
    } else if name == "shift"@ {
        Some(Modifiers::SHIFT)
    } else if name == "super"@ || name == "meta"@ {
        Some(Modifiers::META)
    } else {
        None
    }
}

/// The modifier bits of a run of modifier names, or the first name (trimmed
/// and lowercased) that names no modifier.
pub open spec fn modifier_bits(names: Seq<Seq<char>>) -> Result<u8, Seq<char>>
    decreases names.len(),
{
    if names.len() == 0 {
        Ok(0u8)
    } else {
        match modifier_bits(names.drop_last()) {
            Ok(bits) => {
                let name = unicode_lowercase(trim(names.last()));
                match modifier_bit(name) {
                    Some(b) => Ok(bits | b),
                    None => Err(name),
                }
            },
            Err(bad) => Err(bad),
        }
    }
}

/// A key with modifiers, `Ctrl+c`: the modifier bits and the key name, or
/// the modifier name that names no modifier.
pub open spec fn modifiers_outcome(line: Seq<char>) -> Result<(u8, Seq<char>), Seq<char>> {
    let parts = split_on(line, '+');
    if parts.len() == 1 {
        Ok((0u8, line))
    } else {
        match modifier_bits(parts.drop_last()) {
            Ok(bits) => Ok((bits, trim(parts.last()))),
            Err(bad) => Err(bad),
        }
    }
}

/// A delay, `100ms` or `2s`, in milliseconds; or the lowercased text that
/// is no delay. None where the milliseconds of a delay in seconds overflow.
pub open spec fn duration_outcome(d: Seq<char>) -> Option<Result<u64, Seq<char>>> {
    let s = unicode_lowercase(trim(d));
    if s.len() >= 2 && s[s.len() - 2] == 'm' && s.last() == 's' {
        match parse_u64_spec(trim(s.take(s.len() - 2))) {
            Some(v) => Some(Ok(v)),
            None => Some(Err(s)),
        }
    } else if s.len() >= 1 && s.last() == 's' {
        match parse_u64_spec(trim(s.drop_last())) {
            Some(v) => if v * 1000 <= u64::MAX {
                Some(Ok((v * 1000) as u64))
            } else {
                None
            },
            None => Some(Err(s)),
        }
    } else {
        Some(Err(s))
    }
}

/// The key presses of quoted text: one per character, without modifiers.
pub open spec fn quoted_keys(text: Seq<char>) -> Seq<ScriptStep> {
    text.map_values(|c: char| ScriptStep::Key(char_key(c), 0u8))
}

/// What one line of a script (with its number) holds. None where the line
/// is a lone `"` or a delay in seconds whose milliseconds overflow.
pub open spec fn line_outcome(raw: Seq<char>, num: nat) -> Option<
    Result<Seq<ScriptStep>, ScriptFault>,
> {
    let line = trim(raw);
    if starts_with_seq(line, "wait "@) {
        match duration_outcome(trim(line.skip(5))) {
            None => None,
            Some(Ok(ms)) => Some(Ok(seq![ScriptStep::Wait(ms)])),
            Some(Err(s)) => Some(
                Err(
                    ScriptFault::ParseError {
                        line: num,
                        message: fault_text(ScriptFault::InvalidDelay(s)),
                    },
                ),
            ),
        }
    } else if line.len() > 0 && line[0] == '"' && line.last() == '"' {
        if line.len() < 2 {
            None
        } else {
            Some(Ok(quoted_keys(line.subrange(1, line.len() - 1))))
        }
    } else {
        match modifiers_outcome(line) {
            Err(bad) => Some(Err(ScriptFault::InvalidModifier(bad))),
            Ok((bits, name)) => match key_outcome(name) {
                Some(k) => Some(Ok(seq![ScriptStep::Key(k, bits)])),
                None => Some(
                    Err(
                        ScriptFault::ParseError {
                            line: num,
                            message: fault_text(ScriptFault::InvalidKeyName(name)),
                        },
                    ),
                ),
            },
        }
    }
}

/// A line that holds no input: empty (after trimming) or a comment.
pub open spec fn is_skipped(raw: Seq<char>) -> bool {
    let line = trim(raw);
    line.len() == 0 || line[0] == '#'
}

/// What a run of lines holds: the inputs of all of them, or the outcome of
/// the first line that fails.
pub open spec fn lines_outcome(lines: Seq<Seq<char>>) -> Option<
    Result<Seq<ScriptStep>, ScriptFault>,
>
    decreases lines.len(),
{
    if lines.len() == 0 {
        Some(Ok(Seq::empty()))
    } else {
        let prev = lines_outcome(lines.drop_last());
        match prev {
            Some(Ok(steps)) => if is_skipped(lines.last()) {
                prev
            } else {
                match line_outcome(lines.last(), lines.len()) {
                    Some(Ok(more)) => Some(Ok(steps + more)),
                    other => other,
                }
            },
            _ => prev,
        }
    }
}

/// What a script holds: its inputs, the first error, or an empty-script
/// error. None where the standard library would panic on the script.
pub open spec fn script_outcome(text: Seq<char>) -> Option<Result<Seq<ScriptStep>, ScriptFault>> {
    match lines_outcome(split_on(text, '\n')) {
        Some(Ok(steps)) => if steps.len() == 0 {
            Some(Err(ScriptFault::EmptyScript))
        } else {
            Some(Ok(steps))
        },
        other => other,
    }
}

/// Once a run of lines fails, later lines change nothing.
proof fn lemma_lines_stop(lines: Seq<Seq<char>>, k: int)
    requires
        0 <= k <= lines.len(),
        !(lines_outcome(lines.take(k)) matches Some(Ok(_))),
    ensures
        lines_outcome(lines) == lines_outcome(lines.take(k)),
    decreases lines.len(),
{
    if k < lines.len() {
        assert(lines.drop_last().take(k) == lines.take(k));
        lemma_lines_stop(lines.drop_last(), k);
    } else {
        assert(lines.take(k) == lines);
    }
}

/// Once a run of modifier names fails, later names change nothing.
proof fn lemma_modifiers_stop(names: Seq<Seq<char>>, k: int)
    requires
        0 <= k <= names.len(),
        modifier_bits(names.take(k)) is Err,
    ensures
        modifier_bits(names) == modifier_bits(names.take(k)),
    decreases names.len(),
{
    if k < names.len() {
        assert(names.drop_last().take(k) == names.take(k));
        lemma_modifiers_stop(names.drop_last(), k);
    } else {
        assert(names.take(k) == names);
    }
}

/// Splitting gives at least one piece.
proof fn lemma_split_nonempty(s: Seq<char>, sep: char)
    ensures
        split_on(s, sep).len() >= 1,
    decreases s.len(),
{
    if s.len() > 0 {
        lemma_split_nonempty(s.drop_last(), sep);
    }
}

/// The pieces of `v` between occurrences of `sep`.
fn split_chars(v: &Vec<char>, sep: char) -> (r: Vec<Vec<char>>)
    ensures
        r@.map_values(|p: Vec<char>| p@) == split_on(v@, sep),
{
    let mut pieces: Vec<Vec<char>> = Vec::new();
    let mut start: usize = 0;
    let mut i: usize = 0;
    assert(v@.take(0) == Seq::<char>::empty());
    assert(pieces@.map_values(|p: Vec<char>| p@).push(v@.subrange(0, 0)) == seq![Seq::<char>::empty()]);
    while i < v.len()
        invariant
            start <= i <= v@.len(),
            split_on(v@.take(i as int), sep) == pieces@.map_values(|p: Vec<char>| p@).push(
                v@.subrange(start as int, i as int),
            ),
        decreases v.len() - i,
    {
        let ghost done = pieces@.map_values(|p: Vec<char>| p@);
        proof {
            crate::text::lemma_split_step(v@, sep, done, start as int, i as int);
        }
        if v[i] == sep {
            let piece = sub_chars(v, start, i);
            pieces.push(piece);
            assert(pieces@.map_values(|p: Vec<char>| p@) == done.push(v@.subrange(start as int, i as int)));
            start = i + 1;
        }
        i = i + 1;
    }
    let ghost done = pieces@.map_values(|p: Vec<char>| p@);
    let last = sub_chars(v, start, v.len());
    pieces.push(last);
    assert(pieces@.map_values(|p: Vec<char>| p@) == done.push(v@.subrange(start as int, v@.len() as int)));
    assert(v@.take(v@.len() as int) == v@);
    pieces
}

/// The key a character stands for when typed.
fn char_to_keycode(c: char) -> (r: KeyCode)
    ensures
        r == char_key(c),
{
    match c {
        'a' | 'A' => KeyCode::A,
        'b' | 'B' => KeyCode::B,
        'c' | 'C' => KeyCode::C,
        'd' | 'D' => KeyCode::D,
        'e' | 'E' => KeyCode::E,
        'f' | 'F' => KeyCode::F,
        'g' | 'G' => KeyCode::G,
        'h' | 'H' => KeyCode::H,
        'i' | 'I' => KeyCode::I,
        'j' | 'J' => KeyCode::J,
        'k' | 'K' => KeyCode::K,
        'l' | 'L' => KeyCode::L,
        'm' | 'M' => KeyCode::M,
        'n' | 'N' => KeyCode::N,
        'o' | 'O' => KeyCode::O,
        'p' | 'P' => KeyCode::P,
        'q' | 'Q' => KeyCode::Q,
        'r' | 'R' => KeyCode::R,
        's' | 'S' => KeyCode::S,
        't' | 'T' => KeyCode::T,
        'u' | 'U' => KeyCode::U,
        'v' | 'V' => KeyCode::V,
        'w' | 'W' => KeyCode::W,
        'x' | 'X' => KeyCode::X,
        'y' | 'Y' => KeyCode::Y,
        'z' | 'Z' => KeyCode::Z,
        '0' => KeyCode::Num0,
        '1' => KeyCode::Num1,
        '2' => KeyCode::Num2,
        '3' => KeyCode::Num3,
        '4' => KeyCode::Num4,
        '5' => KeyCode::Num5,
        '6' => KeyCode::Num6,
        '7' => KeyCode::Num7,
        '8' => KeyCode::Num8,
        '9' => KeyCode::Num9,
        ' ' => KeyCode::Space,
        ':' => KeyCode::Semicolon,
        '/' => KeyCode::Slash,
        '.' => KeyCode::Period,
        ',' => KeyCode::Comma,
        _ => KeyCode::Unknown,
    }
}

/// The key a lowercased key name names, if any.
fn named_keycode(l: &Vec<char>) -> (r: Option<KeyCode>)
    ensures
        r == named_key(l@),
{
    if eq_str(l, "enter") || eq_str(l, "return") {
        Some(KeyCode::Enter)
    } else if eq_str(l, "escape") || eq_str(l, "esc") {
        Some(KeyCode::Escape)
    } else if eq_str(l, "backspace") || eq_str(l, "back") {
        Some(KeyCode::Backspace)
    } else if eq_str(l, "tab") {
        Some(KeyCode::Tab)
    } else if eq_str(l, "space") {
        Some(KeyCode::Space)
    } else if eq_str(l, "up") || eq_str(l, "arrowup") {
        Some(KeyCode::Up)
    } else if eq_str(l, "down") || eq_str(l, "arrowdown") {
        Some(KeyCode::Down)
    } else if eq_str(l, "left") || eq_str(l, "arrowleft") {
        Some(KeyCode::Left)
    } else if eq_str(l, "right") || eq_str(l, "arrowright") {
        Some(KeyCode::Right)
    } else if eq_str(l, "f1") {
        Some(KeyCode::F1)
    } else if eq_str(l, "f2") {
        Some(KeyCode::F2)
    } else if eq_str(l, "f3") {
        Some(KeyCode::F3)
    } else if eq_str(l, "f4") {
        Some(KeyCode::F4)
    } else if eq_str(l, "f5") {
        Some(KeyCode::F5)
    } else if eq_str(l, "f6") {
        Some(KeyCode::F6)
    } else if eq_str(l, "f7") {
        Some(KeyCode::F7)
    } else if eq_str(l, "f8") {
        Some(KeyCode::F8)
    } else if eq_str(l, "f9") {
        Some(KeyCode::F9)
    } else if eq_str(l, "f10") {
        Some(KeyCode::F10)
    } else if eq_str(l, "f11") {
        Some(KeyCode::F11)
    } else if eq_str(l, "f12") {
        Some(KeyCode::F12)
    } else {
        None
    }
}

/// The modifier bit a lowercased modifier name names, if any.
fn modifier_bit_of(name: &Vec<char>) -> (r: Option<u8>)
    ensures
        r == modifier_bit(name@),
{
    if eq_str(name, "ctrl") || eq_str(name, "control") {
        Some(Modifiers::CTRL)
    } else if eq_str(name, "alt") {
        Some(Modifiers::ALT)
    } else if eq_str(name, "shift") {
        Some(Modifiers::SHIFT)
    } else if eq_str(name, "super") || eq_str(name, "meta") {
        Some(Modifiers::META)
    } else {
        None
    }
}

/// Scripted input, parsed from text and handed out one action at a time.
#[derive(Debug, Clone)]
pub struct InputScript {
    inputs: VecDeque<ScriptedInput>,
}

impl View for InputScript {
    type V = Seq<ScriptStep>;

    closed spec fn view(&self) -> Seq<ScriptStep> {
        steps_of(self.inputs@)
    }
}

impl InputScript {
    /// Creates an empty script.
    pub fn new() -> (r: Self)
        ensures
            r@ == Seq::<ScriptStep>::empty(),
    {
        let r = InputScript { inputs: VecDeque::new() };
        assert(r@ == Seq::<ScriptStep>::empty());
        r
    }

    /// Parses a script from text.
    pub fn from_text(text: &str) -> (r: Result<Self, InputScriptError>)
        requires
            text@.len() < usize::MAX,
            script_outcome(text@) is Some,
        ensures
            match script_outcome(text@) {
                Some(Ok(steps)) => r matches Ok(s) && s@ == steps,
                Some(Err(f)) => r matches Err(e) && e@ == f,
                None => false,
            },
    {
        Self::try_from_text(text).unwrap()
    }

    /// Parses a script from text, or returns None where the text holds a
    /// line that is a lone `"`, or a delay in seconds whose milliseconds do
    /// not fit in a `u64`, before any line that fails.
    pub fn try_from_text(text: &str) -> (r: Option<Result<Self, InputScriptError>>)
        requires
            text@.len() < usize::MAX,
        ensures
            match script_outcome(text@) {
                None => r is None,
                Some(Ok(steps)) => r matches Some(Ok(s)) && s@ == steps,
                Some(Err(f)) => r matches Some(Err(e)) && e@ == f,
            },
    {
        let chars = chars_of(text);
        let lines = split_chars(&chars, '\n');
        let ghost ls = lines@.map_values(|p: Vec<char>| p@);
        let mut inputs: VecDeque<ScriptedInput> = VecDeque::new();
        let mut k: usize = 0;
        assert(ls.take(0) == Seq::<Seq<char>>::empty());
        assert(steps_of(inputs@) == Seq::<ScriptStep>::empty());
        while k < lines.len()
            invariant
                ls == lines@.map_values(|p: Vec<char>| p@),
                ls == split_on(text@, '\n'),
                k <= lines@.len(),
                lines_outcome(ls.take(k as int)) == Some(
                    Ok::<Seq<ScriptStep>, ScriptFault>(steps_of(inputs@)),
                ),
            decreases lines.len() - k,
        {
            assert(ls.take(k + 1).drop_last() == ls.take(k as int));
            assert(ls.take(k + 1).last() == lines@[k as int]@);
            let line = trimmed_all(&lines[k]);
            if line.len() == 0 || line[0] == '#' {
                k = k + 1;
                continue;
            }
            match Self::parse_line(&line, k + 1) {
                None => {
                    proof {
                        crate::text::lemma_trim_idempotent(lines@[k as int]@);
                        lemma_lines_stop(ls, k + 1);
                        assert(ls.take(ls.len() as int) == ls);
                    }
                    return None;
                },
                Some(Err(e)) => {
                    proof {
                        crate::text::lemma_trim_idempotent(lines@[k as int]@);
                        lemma_lines_stop(ls, k + 1);
                    }
                    return Some(Err(e));
                },
                Some(Ok(steps)) => {
                    proof {
                        crate::text::lemma_trim_idempotent(lines@[k as int]@);
                    }
                    let ghost before = steps_of(inputs@);
                    let mut j: usize = 0;
                    while j < steps.len()
                        invariant
                            j <= steps@.len(),
                            steps_of(inputs@) == before + steps_of(steps@.take(j as int)),
                        decreases steps.len() - j,
                    {
                        let ghost prev = inputs@;
                        inputs.push_back(steps[j]);
                        assert(steps_of(inputs@) =~= steps_of(prev).push(steps@[j as int]@));
                        assert(steps@.take(j + 1) == steps@.take(j as int).push(steps@[j as int]));
                        assert(steps_of(steps@.take(j + 1)) == steps_of(steps@.take(j as int)).push(
                            steps@[j as int]@,
                        ));
                        assert(steps_of(inputs@) == before + steps_of(steps@.take(j + 1)));
                        j = j + 1;
                    }
                    assert(steps@.take(steps@.len() as int) == steps@);
                },
            }
            k = k + 1;
        }
        assert(ls.take(ls.len() as int) == ls);
        if inputs.len() == 0 {
            return Some(Err(InputScriptError::EmptyScript));
        }
        Some(Ok(InputScript { inputs }))
    }

    /// Parses one line of a script, with its number.
    fn parse_line(raw: &Vec<char>, line_num: usize) -> (r: Option<
        Result<Vec<ScriptedInput>, InputScriptError>,
    >)
        ensures
            match line_outcome(raw@, line_num as nat) {
                None => r is None,
                Some(Ok(steps)) => r matches Some(Ok(v)) && steps_of(v@) == steps,
                Some(Err(f)) => r matches Some(Err(e)) && e@ == f,
            },
    {
        let line = trimmed_all(raw);
        let n = line.len();
        let wait = chars_of("wait ");
        proof {
            reveal_strlit("wait ");
        }
        if starts_with_chars(&line, &wait) {
            let d = trimmed(&line, 5, n);
            assert(line@.skip(5) == line@.subrange(5, n as int));
            let mut out: Vec<ScriptedInput> = Vec::new();
            match Self::parse_duration(&d) {
                None => {
                    return None;
                },
                Some(Ok(ms)) => {
                    out.push(ScriptedInput::Wait(ms));
                    assert(steps_of(out@) == seq![ScriptStep::Wait(ms)]);
                    return Some(Ok(out));
                },
                Some(Err(e)) => {
                    return Some(
                        Err(InputScriptError::ParseError { line: line_num, message: e.to_string() }),
                    );
                },
            }
        }
        if n > 0 && line[0] == '"' && line[n - 1] == '"' {
            if n < 2 {
                return None;
            }
            let ghost text = line@.subrange(1, n - 1);
            let mut out: Vec<ScriptedInput> = Vec::new();
            let mut j: usize = 1;
            while j < n - 1
                invariant
                    1 <= j <= n - 1,
                    n == line@.len(),
                    text == line@.subrange(1, n - 1),
                    steps_of(out@) == quoted_keys(text.take(j - 1)),
                decreases n - 1 - j,
            {
                let key = ScriptedInput::Key(char_to_keycode(line[j]), Modifiers::none());
                let ghost prev = out@;
                out.push(key);
                assert(steps_of(out@) =~= steps_of(prev).push(key@));
                assert(text.take(j as int) == text.take(j - 1).push(line@[j as int]));
                assert(quoted_keys(text.take(j as int)) =~= quoted_keys(text.take(j - 1)).push(
                    ScriptStep::Key(char_key(line@[j as int]), 0u8),
                ));
                assert(steps_of(out@) == quoted_keys(text.take(j as int)));
                j = j + 1;
            }
            assert(text.take(n - 2) == text);
            return Some(Ok(out));
        }
        match Self::parse_modifiers(&line) {
            Err(e) => Some(Err(e)),
            Ok((modifiers, name)) => match Self::parse_keycode(&name) {
                Ok(k) => {
                    let mut out: Vec<ScriptedInput> = Vec::new();
                    out.push(ScriptedInput::Key(k, modifiers));
                    assert(steps_of(out@) == seq![ScriptStep::Key(k, modifiers@)]);
                    Some(Ok(out))
                },
                Err(e) => Some(
                    Err(InputScriptError::ParseError { line: line_num, message: e.to_string() }),
                ),
            },
        }
    }

    /// Parses the modifiers of a key, `Ctrl+c`: the modifier set and the key
    /// name.
    fn parse_modifiers(line: &Vec<char>) -> (r: Result<(Modifiers, Vec<char>), InputScriptError>)
        ensures
            match modifiers_outcome(line@) {
                Ok((bits, name)) => r matches Ok((m, n)) && m@ == bits && n@ == name,
                Err(bad) => r matches Err(e) && e@ == ScriptFault::InvalidModifier(bad),
            },
    {
        let parts = split_chars(line, '+');
        let ghost ps = parts@.map_values(|p: Vec<char>| p@);
        proof {
            lemma_split_nonempty(line@, '+');
        }
        if parts.len() == 1 {
            return Ok((Modifiers::none(), sub_chars(line, 0, line.len())));
        }
        let ghost names = ps.drop_last();
        let last = parts.len() - 1;
        let mut modifiers = Modifiers::none();
        let mut i: usize = 0;
        assert(names.take(0) == Seq::<Seq<char>>::empty());
        while i < last
            invariant
                ps == parts@.map_values(|p: Vec<char>| p@),
                ps == split_on(line@, '+'),
                names == ps.drop_last(),
                last == parts@.len() - 1,
                i <= last,
                modifier_bits(names.take(i as int)) == Ok::<u8, Seq<char>>(modifiers@),
            decreases last - i,
        {
            assert(names.take(i + 1).drop_last() == names.take(i as int));
            assert(names.take(i + 1).last() == parts@[i as int]@);
            let name = lowercase_chars(&trimmed_all(&parts[i]));
            match modifier_bit_of(&name) {
                Some(b) => {
                    modifiers = modifiers.with(Modifiers::from_bits(b));
                },
                None => {
                    proof {
                        assert(modifier_bits(names.take(i + 1)) == Err::<u8, Seq<char>>(name@));
                        lemma_modifiers_stop(names, i + 1);
                    }
                    return Err(InputScriptError::InvalidModifier(string_of(&name)));
                },
            }
            i = i + 1;
        }
        assert(names.take(last as int) == names);
        Ok((modifiers, trimmed_all(&parts[last])))
    }

    /// Parses a key name.
    fn parse_keycode(name: &Vec<char>) -> (r: Result<KeyCode, InputScriptError>)
        ensures
            match key_outcome(name@) {
                Some(k) => r == Ok::<KeyCode, InputScriptError>(k),
                None => r matches Err(e) && e@ == ScriptFault::InvalidKeyName(name@),
            },
    {
        let lower = lowercase_chars(name);
        match named_keycode(&lower) {
            Some(k) => Ok(k),
            None => {
                if name.len() == 1 && (name[0] as u32) < 128 {
                    Ok(char_to_keycode(name[0]))
                } else {
                    Err(InputScriptError::InvalidKeyName(string_of(name)))
                }
            },
        }
    }

    /// Parses a delay, `100ms` or `2s`, into milliseconds.
    fn parse_duration(d: &Vec<char>) -> (r: Option<Result<u64, InputScriptError>>)
        ensures
            match duration_outcome(d@) {
                None => r is None,
                Some(Ok(ms)) => r == Some(Ok::<u64, InputScriptError>(ms)),
                Some(Err(s)) => r matches Some(Err(e)) && e@ == ScriptFault::InvalidDelay(s),
            },
    {
        let s = lowercase_chars(&trimmed_all(d));
        let n = s.len();
        if n >= 2 && s[n - 2] == 'm' && s[n - 1] == 's' {
            let digits = trimmed(&s, 0, n - 2);
            assert(s@.take(n - 2) == s@.subrange(0, n - 2));
            match parse_u64_chars(&digits) {
                Some(v) => Some(Ok(v)),
                None => Some(Err(InputScriptError::InvalidDelay(string_of(&s)))),
            }
        } else if n >= 1 && s[n - 1] == 's' {
            let digits = trimmed(&s, 0, n - 1);
            assert(s@.drop_last() == s@.subrange(0, n - 1));
            match parse_u64_chars(&digits) {
                Some(v) => {
                    if v <= u64::MAX / 1000 {
                        assert(v * 1000 <= u64::MAX) by (nonlinear_arith)
                            requires
                                v <= u64::MAX / 1000,
                        ;
                        Some(Ok(v * 1000))
                    } else {
                        assert(v * 1000 > u64::MAX) by (nonlinear_arith)
                            requires
                                v > u64::MAX / 1000,
                        ;
                        None
                    }
                },
                None => Some(Err(InputScriptError::InvalidDelay(string_of(&s)))),
            }
        } else {
            Some(Err(InputScriptError::InvalidDelay(string_of(&s))))
        }
    }

    /// Takes the next input, if any.
    pub fn next_input(&mut self) -> (r: Option<ScriptedInput>)
        ensures
            old(self)@.len() == 0 ==> r is None && final(self)@ == old(self)@,
            old(self)@.len() > 0 ==> (r matches Some(x) && x@ == old(self)@[0] && final(self)@
                == old(self)@.drop_first()),
    {
        let r = self.inputs.pop_front();
        proof {
            if r is Some {
                assert(steps_of(self.inputs@) == steps_of(old(self).inputs@).drop_first());
            }
        }
        r
    }

    /// Whether inputs remain.
    pub fn has_more(&self) -> (r: bool)
        ensures
            r == (self@.len() > 0),
    {
        self.inputs.len() > 0
    }

    /// The number of remaining inputs.
    pub fn remaining(&self) -> (r: usize)
        ensures
            r == self@.len(),
    {
        self.inputs.len()
    }

    /// The input event of a scripted input: a key press, or None for a wait
    /// (which the host carries out).
    pub fn to_input_event(input: &ScriptedInput) -> (r: Option<InputEvent>)
        ensures
            match *input {
                ScriptedInput::Key(code, modifiers) => r == Some(
                    InputEvent::Key(
                        KeyEvent {
                            code,
                            modifiers,
                            state: crate::input_types::KeyState::Pressed,
                            text: None,
                        },
                    ),
                ),
                ScriptedInput::Wait(_) => r is None,
            },
    {
        match input {
            ScriptedInput::Key(code, modifiers) => Some(
                InputEvent::Key(KeyEvent::pressed(*code, *modifiers)),
            ),
            ScriptedInput::Wait(_) => None,
        }
    }
}

impl Default for InputScript {
    fn default() -> (r: Self)
        ensures
            r@ == Seq::<ScriptStep>::empty(),
    {
        Self::new()
    }
}

} // verus!
