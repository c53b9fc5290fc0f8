//! Plain-text rendering of the editor state for a serial console, redrawn
//! only when the editor's revision changes.

use vstd::prelude::*;
use vstd::string::StringSliceAdditionalSpecFns;
use crate::text::{push_char, push_str};

verus! {

/// Formatting errors, declared for the serial port's results.
#[verifier::external_type_specification]
#[verifier::external_body]
pub struct ExFmtError(core::fmt::Error);

/// Each byte read as the character of its code.
pub open spec fn byte_chars(bytes: Seq<u8>) -> Seq<char> {
    bytes.map_values(|b: u8| b as char)
}

/// A line with the cursor marker `|` before the byte at `col`, or after
/// the last byte when `col` is past the end.
pub open spec fn marked_line(bytes: Seq<u8>, col: nat) -> Seq<char> {
    if col < bytes.len() {
        byte_chars(bytes.take(col as int)) + seq!['|'] + byte_chars(bytes.skip(col as int))
    } else {
        byte_chars(bytes) + seq!['|']
    }
}

/// The text of the line at `index`: marked when the cursor is on it.
pub open spec fn line_text(line: &str, index: int, cursor_line: Option<usize>, cursor_col: Option<usize>) -> Seq<char> {
    match (cursor_line, cursor_col) {
        (Some(l), Some(c)) => if l == index {
            marked_line(line.spec_bytes(), c as nat).push('\n')
        } else {
            line@.push('\n')
        },
        _ => line@.push('\n'),
    }
}

/// The text of the lines, one after another.
pub open spec fn lines_text(lines: Seq<&str>, cursor_line: Option<usize>, cursor_col: Option<usize>) -> Seq<char>
    decreases lines.len(),
{
    if lines.len() == 0 {
        Seq::empty()
    } else {
        lines_text(lines.drop_last(), cursor_line, cursor_col) + line_text(
            lines.last(),
            lines.len() - 1,
            cursor_line,
            cursor_col,
        )
    }
}

/// `n` copies of a character.
pub open spec fn repeated(c: char, n: nat) -> Seq<char> {
    Seq::new(n, |i: int| c)
}

/// The cursor drawn below the last line: empty lines down to its row, then
/// spaces up to its column and the marker.
pub open spec fn cursor_below_text(line_count: nat, cursor_line: Option<usize>, cursor_col: Option<usize>) -> Seq<char> {
    match (cursor_line, cursor_col) {
        (Some(l), Some(c)) => if l >= line_count {
            repeated('\n', (l - line_count) as nat) + repeated(' ', c as nat) + seq!['|', '\n']
        } else {
            Seq::empty()
        },
        _ => Seq::empty(),
    }
}

/// The whole text of an editor state: a header, the lines with the cursor,
/// a separator, the status line and a closing rule.
pub open spec fn editor_state_text(
    lines: Seq<&str>,
    cursor_line: Option<usize>,
    cursor_col: Option<usize>,
    status: Option<&str>,
) -> Seq<char> {
    "\r\n--- Editor State ---\n"@ + lines_text(lines, cursor_line, cursor_col) + cursor_below_text(
        lines.len(),
        cursor_line,
        cursor_col,
    ) + "\n----------------------------------------\n\n"@ + match status {
        Some(s) => s@,
        None => "(no status)"@,
    } + "\n-------------------\n"@
}

/// Appends each byte as the character of its code.
fn push_byte_chars(s: &mut String, bytes: &[u8], from: usize, to: usize)
    requires
        from <= to <= bytes@.len(),
    ensures
        final(s)@ == old(s)@ + byte_chars(bytes@.subrange(from as int, to as int)),
{
    let mut i = from;
    while i < to
        invariant
            from <= i <= to,
            to <= bytes@.len(),
            s@ == old(s)@ + byte_chars(bytes@.subrange(from as int, i as int)),
        decreases to - i,
    {
        push_char(s, bytes[i] as char);
        assert(byte_chars(bytes@.subrange(from as int, i + 1)) =~= byte_chars(
            bytes@.subrange(from as int, i as int),
        ).push(bytes@[i as int] as char));
        i = i + 1;
    }
}

/// Appends `n` copies of a character.
fn push_repeated(s: &mut String, c: char, n: usize)
    ensures
        final(s)@ == old(s)@ + repeated(c, n as nat),
{
    let mut i: usize = 0;
    while i < n
        invariant
            i <= n,
            s@ == old(s)@ + repeated(c, i as nat),
        decreases n - i,
    {
        push_char(s, c);
        assert(repeated(c, (i + 1) as nat) =~= repeated(c, i as nat).push(c));
        i = i + 1;
    }
}

/// Appends the text of one line.
fn push_line_text(s: &mut String, line: &str, index: usize, cursor_line: Option<usize>, cursor_col: Option<usize>)
    ensures
        final(s)@ == old(s)@ + line_text(line, index as int, cursor_line, cursor_col),
{
    match (cursor_line, cursor_col) {
        (Some(l), Some(col)) => {
            if l == index {
                let bytes = line.as_bytes();
                if col < bytes.len() {
                    push_byte_chars(s, bytes, 0, col);
                    push_char(s, '|');
                    push_byte_chars(s, bytes, col, bytes.len());
                    assert(bytes@.subrange(0, col as int) =~= bytes@.take(col as int));
                    assert(bytes@.subrange(col as int, bytes@.len() as int) =~= bytes@.skip(col as int));
                } else {
                    push_byte_chars(s, bytes, 0, bytes.len());
                    push_char(s, '|');
                    assert(bytes@.subrange(0, bytes@.len() as int) =~= bytes@);
                }
                push_char(s, '\n');
                assert(final(s)@ =~= old(s)@ + line_text(line, index as int, cursor_line, cursor_col));
                return;
            }
        },
        _ => {},
    }
    push_str(s, line);
    push_char(s, '\n');
    assert(s@ =~= old(s)@ + line_text(line, index as int, cursor_line, cursor_col));
}

/// A serial port that keeps what is written to it: the port through which
/// the kernel's console output is checked off the hardware.
#[derive(Default)]
pub struct SerialPort {
    /// Everything written, in order.
    pub buffer: String,
}

impl SerialPort {
    /// A port with nothing written; the I/O base is not used.
    pub fn new(base: u16) -> (r: Self)
        ensures
            r.buffer@.len() == 0,
    {
        SerialPort { buffer: String::new() }
    }

    /// Sets the port up; nothing to do for a port that only keeps text.
    pub fn init(&mut self)
        ensures
            final(self).buffer@ == old(self).buffer@,
    {
    }

    /// Writes one byte, as the character of its code.
    pub fn write_byte(&mut self, byte: u8) -> (r: Result<(), core::fmt::Error>)
        ensures
            r is Ok,
            final(self).buffer@ == old(self).buffer@.push(byte as char),
    {
        push_char(&mut self.buffer, byte as char);
        Ok(())
    }

    /// Writes text.
    pub fn write_str(&mut self, s: &str) -> (r: Result<(), core::fmt::Error>)
        ensures
            r is Ok,
            final(self).buffer@ == old(self).buffer@ + s@,
    {
        push_str(&mut self.buffer, s);
        Ok(())
    }

    /// A byte received, if any; this port receives nothing.
    pub fn try_read_byte(&mut self) -> (r: Option<u8>)
        ensures
            r is None,
            final(self).buffer@ == old(self).buffer@,
    {
        None
    }
}

/// Renders the editor state for a serial console, and remembers which
/// revision it drew so that an unchanged state is not drawn twice.
pub struct BareMetalOutput {
    last_main_revision: Option<u64>,
}

impl BareMetalOutput {
    /// The revision last drawn, if any.
    pub closed spec fn last_revision_view(&self) -> Option<u64> {
        self.last_main_revision
    }

    /// An output that has drawn nothing yet.
    pub fn new() -> (r: Self)
        ensures
            r.last_revision_view() is None,
    {
        BareMetalOutput { last_main_revision: None }
    }

    /// The revision last drawn, if any.
    pub fn last_revision(&self) -> (r: Option<u64>)
        ensures
            r == self.last_revision_view(),
    {
        self.last_main_revision
    }

    /// The text to send for an editor state at a revision: nothing when
    /// that revision was the last one drawn; otherwise the whole state,
    /// and the revision is remembered.
    pub fn render_text(
        &mut self,
        text_lines: &[&str],
        cursor_line: Option<usize>,
        cursor_col: Option<usize>,
        status_text: Option<&str>,
        revision: u64,
    ) -> (r: Option<String>)
        ensures
            old(self).last_revision_view() == Some(revision) ==> r is None,
            old(self).last_revision_view() == Some(revision) ==> final(self).last_revision_view()
                == old(self).last_revision_view(),
            old(self).last_revision_view() != Some(revision) ==> {
                &&& (r matches Some(t) && t@ == editor_state_text(
                    text_lines@,
                    cursor_line,
                    cursor_col,
                    status_text,
                ))
                &&& final(self).last_revision_view() == Some(revision)
            },
    {
        match self.last_main_revision {
            Some(last) => {
                if last == revision {
                    return None;
                }
            },
            None => {},
        }
        let mut out = String::new();
        push_str(&mut out, "\r\n--- Editor State ---\n");
        let ghost head = out@;
        let mut i: usize = 0;
        while i < text_lines.len()
            invariant
                i <= text_lines@.len(),
                out@ == head + lines_text(text_lines@.take(i as int), cursor_line, cursor_col),
            decreases text_lines@.len() - i,
        {
            push_line_text(&mut out, text_lines[i], i, cursor_line, cursor_col);
            assert(text_lines@.take(i + 1).drop_last() =~= text_lines@.take(i as int));
            i = i + 1;
        }
        assert(text_lines@.take(text_lines@.len() as int) =~= text_lines@);
        match (cursor_line, cursor_col) {
            (Some(cline), Some(ccol)) => {
                if cline >= text_lines.len() {
                    push_repeated(&mut out, '\n', cline - text_lines.len());
                    push_repeated(&mut out, ' ', ccol);
                    push_char(&mut out, '|');
                    push_char(&mut out, '\n');
                }
            },
            _ => {},
        }
        push_str(&mut out, "\n----------------------------------------\n\n");
        match status_text {
            Some(status) => push_str(&mut out, status),
            None => push_str(&mut out, "(no status)"),
        }
        push_str(&mut out, "\n-------------------\n");
        assert(out@ =~= editor_state_text(text_lines@, cursor_line, cursor_col, status_text));
        self.last_main_revision = Some(revision);
        Some(out)
    }

    /// Writes the editor state to a serial port, unless that revision was
    /// the last one drawn.
    pub fn render_to_serial(
        &mut self,
        serial: &mut SerialPort,
        text_lines: &[&str],
        cursor_line: Option<usize>,
        cursor_col: Option<usize>,
        status_text: Option<&str>,
        revision: u64,
    )
        ensures
            old(self).last_revision_view() == Some(revision) ==> final(serial).buffer@ == old(serial).buffer@,
            old(self).last_revision_view() != Some(revision) ==> final(serial).buffer@ == old(serial).buffer@
                + editor_state_text(text_lines@, cursor_line, cursor_col, status_text),
            final(self).last_revision_view() == Some(revision),
    {
        match self.render_text(text_lines, cursor_line, cursor_col, status_text, revision) {
            Some(text) => {
                let _ = serial.write_str(text.as_str());
            },
            None => {},
        }
    }

    /// Forgets the revision drawn, so that the next state is drawn.
    pub fn reset(&mut self)
        ensures
            final(self).last_revision_view() is None,
    {
        self.last_main_revision = None;
    }
}

} // verus!
