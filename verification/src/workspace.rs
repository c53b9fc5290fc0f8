//! Pieces of the kernel workspace: the kinds of component it hosts, the
//! lines of its output log, and bounded byte buffers.

use vstd::prelude::*;
use vstd::utf8::encode_utf8;
use vstd::string::StringSliceAdditionalSpecFns;
use crate::text::{chars_of, lemma_split_step, split_on, string_of, sub_chars};

verus! {

/// Longest line of the output log, in bytes.
pub const OUTPUT_LINE_MAX: usize = 80;

/// A kind of workspace component.
#[derive(Debug, Clone, Copy, PartialEq, Eq, Structural)]
pub enum ComponentType {
    Editor,
    Cli,
    Shell,
}

impl ComponentType {
    /// The component's display name.
    pub fn to_string(&self) -> (r: String)
        ensures
            r@ == match *self {
                ComponentType::Editor => "Editor"@,
                ComponentType::Cli => "CLI"@,
                ComponentType::Shell => "Shell"@,
            },
    {
        match self {
            ComponentType::Editor => "Editor".to_owned(),
            ComponentType::Cli => "CLI".to_owned(),
            ComponentType::Shell => "Shell".to_owned(),
        }
    }
}

/// One line of the output log: at most `OUTPUT_LINE_MAX` bytes.
#[derive(Debug, Clone, PartialEq, Eq)]
pub struct OutputLine {
    bytes: Vec<u8>,
}

impl View for OutputLine {
    type V = Seq<u8>;

    closed spec fn view(&self) -> Seq<u8> {
        self.bytes@
    }
}

impl OutputLine {
    /// An empty line.
    pub fn empty() -> (r: Self)
        ensures
            r@ == Seq::<u8>::empty(),
    {
        OutputLine { bytes: Vec::new() }
    }

    /// Sets the line to the bytes, cut to `OUTPUT_LINE_MAX`.
    pub fn set_from_bytes(&mut self, bytes: &[u8])
        ensures
            final(self)@ == bytes@.take(
                if bytes@.len() < OUTPUT_LINE_MAX {
                    bytes@.len() as int
                } else {
                    OUTPUT_LINE_MAX as int
                },
            ),
    {
        let len = if bytes.len() < OUTPUT_LINE_MAX {
            bytes.len()
        } else {
            OUTPUT_LINE_MAX
        };
        let mut v: Vec<u8> = Vec::new();
        let mut i: usize = 0;
        while i < len
            invariant
                i <= len <= bytes@.len(),
                v@ == bytes@.take(i as int),
            decreases len - i,
        {
            v.push(bytes[i]);
            assert(bytes@.take(i + 1) == bytes@.take(i as int).push(bytes@[i as int]));
            i = i + 1;
        }
        self.bytes = v;
    }

    /// The bytes of the line.
    pub fn as_bytes(&self) -> (r: &[u8])
        ensures
            r@ == self@,
    {
        self.bytes.as_slice()
    }
}

/// Copies as many bytes as fit after the first `len` bytes of a buffer, and
/// returns the new length.
pub fn append_bytes(buffer: &mut [u8], len: usize, bytes: &[u8]) -> (r: usize)
    ensures
        ({
            let space = if old(buffer)@.len() >= len {
                old(buffer)@.len() - len
            } else {
                0
            };
            let count = if bytes@.len() < space {
                bytes@.len() as int
            } else {
                space
            };
            &&& r == len + count
            &&& final(buffer)@.len() == old(buffer)@.len()
            &&& forall|i: int| 0 <= i < old(buffer)@.len() ==> #[trigger] final(buffer)@[i] == if len <= i < len
                + count {
                bytes@[i - len]
            } else {
                old(buffer)@[i]
            }
        }),
{
    let blen = buffer.len();
    let space = blen.saturating_sub(len);
    let count = if bytes.len() < space {
        bytes.len()
    } else {
        space
    };
    let mut i: usize = 0;
    while i < count
        invariant
            count <= bytes@.len(),
            blen == buffer@.len(),
            len + count <= blen || count == 0,
            i <= count,
            buffer@.len() == old(buffer)@.len(),
            forall|k: int| 0 <= k < old(buffer)@.len() ==> #[trigger] buffer@[k] == if len <= k < len + i {
                bytes@[k - len]
            } else {
                old(buffer)@[k]
            },
        decreases count - i,
    {
        buffer[len + i] = bytes[i];
        i = i + 1;
    }
    len + count
}

/// Lines the output log keeps.
pub const OUTPUT_MAX_LINES: usize = 64;

/// A line as the log keeps it: cut to `OUTPUT_LINE_MAX` bytes.
pub open spec fn log_line(bytes: Seq<u8>) -> Seq<u8> {
    bytes.take(
        if bytes.len() < OUTPUT_LINE_MAX {
            bytes.len() as int
        } else {
            OUTPUT_LINE_MAX as int
        },
    )
}

/// The lines kept after one more: all of them, or the last
/// `OUTPUT_MAX_LINES` when the log was full.
pub open spec fn log_push(lines: Seq<Seq<u8>>, line: Seq<u8>) -> Seq<Seq<u8>> {
    if lines.len() < OUTPUT_MAX_LINES {
        lines.push(log_line(line))
    } else {
        lines.drop_first().push(log_line(line))
    }
}

/// The pieces a byte string is logged as: chunks of `OUTPUT_LINE_MAX`
/// bytes, and one empty line for no bytes.
pub open spec fn chunks(bytes: Seq<u8>) -> Seq<Seq<u8>>
    decreases bytes.len(),
{
    if bytes.len() <= OUTPUT_LINE_MAX {
        seq![bytes]
    } else {
        seq![bytes.take(OUTPUT_LINE_MAX as int)] + chunks(bytes.skip(OUTPUT_LINE_MAX as int))
    }
}

/// The log after each of the lines, in order.
pub open spec fn log_push_all(lines: Seq<Seq<u8>>, more: Seq<Seq<u8>>) -> Seq<Seq<u8>>
    decreases more.len(),
{
    if more.len() == 0 {
        lines
    } else {
        log_push(log_push_all(lines, more.drop_last()), more.last())
    }
}

/// The log keeps at most `OUTPUT_MAX_LINES` lines, each at most
/// `OUTPUT_LINE_MAX` bytes, and the last line pushed is the newest.
pub proof fn lemma_log_push(lines: Seq<Seq<u8>>, line: Seq<u8>)
    requires
        lines.len() <= OUTPUT_MAX_LINES,
    ensures
        log_push(lines, line).len() <= OUTPUT_MAX_LINES,
        log_push(lines, line).len() == if lines.len() < OUTPUT_MAX_LINES {
            lines.len() + 1int
        } else {
            OUTPUT_MAX_LINES as int
        },
        log_push(lines, line).last() == log_line(line),
        log_line(line).len() <= OUTPUT_LINE_MAX,
        forall|k: int|
            0 <= k < log_push(lines, line).len() - 1 ==> #[trigger] log_push(lines, line)[k] == lines[k + (
            lines.len() + 1 - log_push(lines, line).len())],
{
}

/// The output log: a ring of the last `OUTPUT_MAX_LINES` lines and a count
/// of all lines ever logged.
pub struct OutputLog {
    lines: Vec<OutputLine>,
    head: usize,
    count: usize,
    seq: u64,
    kept: Ghost<Seq<Seq<u8>>>,
}

impl OutputLog {
    /// The lines kept, oldest first.
    pub closed spec fn lines_view(&self) -> Seq<Seq<u8>> {
        self.kept@
    }

    /// The number of lines ever logged, wrapping.
    pub closed spec fn seq_view(&self) -> u64 {
        self.seq
    }

    /// The ring holds the kept lines from `head - count` on, cyclically.
    pub closed spec fn wf(&self) -> bool {
        &&& self.lines@.len() == OUTPUT_MAX_LINES
        &&& self.head < OUTPUT_MAX_LINES
        &&& self.count <= OUTPUT_MAX_LINES
        &&& self.kept@.len() == self.count
        &&& forall|k: int|
            0 <= k < self.count ==> (#[trigger] self.lines@[(self.head + OUTPUT_MAX_LINES - self.count + k)
                % (OUTPUT_MAX_LINES as int)])@ == self.kept@[k]
    }

    /// An empty log.
    pub fn new() -> (r: Self)
        ensures
            r.wf(),
            r.lines_view().len() == 0,
            r.seq_view() == 0,
    {
        let mut lines: Vec<OutputLine> = Vec::new();
        let mut i: usize = 0;
        while i < OUTPUT_MAX_LINES
            invariant
                i <= OUTPUT_MAX_LINES,
                lines@.len() == i,
            decreases OUTPUT_MAX_LINES - i,
        {
            lines.push(OutputLine::empty());
            i = i + 1;
        }
        OutputLog { lines, head: 0, count: 0, seq: 0, kept: Ghost(Seq::empty()) }
    }

    /// The number of lines kept.
    pub fn line_count(&self) -> (r: usize)
        requires
            self.wf(),
        ensures
            r == self.lines_view().len(),
    {
        self.count
    }

    /// The number of lines ever logged, wrapping.
    pub fn sequence(&self) -> (r: u64)
        ensures
            r == self.seq_view(),
    {
        self.seq
    }

    /// The kept line at an index, oldest first.
    pub fn line(&self, index: usize) -> (r: Option<&OutputLine>)
        requires
            self.wf(),
        ensures
            index >= self.lines_view().len() ==> r is None,
            index < self.lines_view().len() ==> (r matches Some(l) && l@ == self.lines_view()[index as int]),
    {
        if index >= self.count {
            return None;
        }
        let start = if self.head >= self.count {
            self.head - self.count
        } else {
            OUTPUT_MAX_LINES + self.head - self.count
        };
        let idx = (start + index) % OUTPUT_MAX_LINES;
        assert(idx == (self.head + OUTPUT_MAX_LINES - self.count + index) % (OUTPUT_MAX_LINES as int));
        Some(&self.lines[idx])
    }

    /// Logs a line, cut to `OUTPUT_LINE_MAX` bytes, dropping the oldest
    /// when the log is full.
    pub fn push_line(&mut self, bytes: &[u8])
        requires
            old(self).wf(),
        ensures
            final(self).wf(),
            final(self).lines_view() == log_push(old(self).lines_view(), bytes@),
            final(self).seq_view() == (old(self).seq_view() + 1) % 0x1_0000_0000_0000_0000,
    {
        let idx = self.head;
        let ghost old_lines = self.lines@;
        let mut line = OutputLine::empty();
        line.set_from_bytes(bytes);
        self.lines.set(idx, line);
        self.head = (self.head + 1) % OUTPUT_MAX_LINES;
        let ghost old_count = self.count;
        if self.count < OUTPUT_MAX_LINES {
            self.count = self.count + 1;
        }
        self.seq = self.seq.wrapping_add(1);
        proof {
            let kept = log_push(self.kept@, bytes@);
            let h0 = idx as int;
            let c0 = old_count as int;
            assert forall|k: int| 0 <= k < self.count implies (#[trigger] self.lines@[(self.head + OUTPUT_MAX_LINES
                - self.count + k) % (OUTPUT_MAX_LINES as int)])@ == kept[k] by {
                let slot = (self.head + OUTPUT_MAX_LINES - self.count + k) % (OUTPUT_MAX_LINES as int);
                if c0 < 64 {
                    assert(slot == (h0 + 64 - c0 + k) % 64);
                    if k < c0 {
                        assert(slot != h0);
                        assert(self.lines@[slot] == old_lines[slot]);
                    } else {
                        assert(slot == h0);
                    }
                } else {
                    assert(slot == (h0 + 64 - 64 + k + 1) % 64);
                    if k < 63 {
                        assert(slot != h0);
                        assert(self.lines@[slot] == old_lines[slot]);
                        assert(slot == (h0 + 64 - c0 + (k + 1)) % 64);
                    } else {
                        assert(slot == h0);
                    }
                }
            }
            self.kept = Ghost(kept);
        }
    }

    /// Logs text line by line: each line (without trailing carriage
    /// returns) as `push_bytes` logs it.
    pub fn append_text(&mut self, text: &str)
        requires
            old(self).wf(),
        ensures
            final(self).wf(),
            final(self).lines_view() == log_text(old(self).lines_view(), split_on(text@, '\n')),
    {
        let chars = chars_of(text);
        let ghost s = chars@;
        let mut piece: Vec<char> = Vec::new();
        let mut start: usize = 0;
        let ghost mut done: Seq<Seq<char>> = Seq::empty();
        let mut i: usize = 0;
        assert(s.take(0) =~= Seq::<char>::empty());
        assert(split_on(s.take(0), '\n') == seq![Seq::<char>::empty()]);
        assert(s.subrange(0, 0) =~= Seq::<char>::empty());
        while i < chars.len()
            invariant
                self.wf(),
                s == chars@,
                s == text@,
                start <= i <= s.len(),
                piece@ == s.subrange(start as int, i as int),
                split_on(s.take(i as int), '\n') == done.push(s.subrange(start as int, i as int)),
                self.lines_view() == log_text(old(self).lines_view(), done),
            decreases s.len() - i,
        {
            let c = chars[i];
            proof {
                lemma_split_step(s, '\n', done, start as int, i as int);
            }
            if c == '\n' {
                self.push_piece(&piece);
                proof {
                    let p = s.subrange(start as int, i as int);
                    assert(done.push(p).drop_last() =~= done);
                    assert(done.push(p).last() == p);
                    done = done.push(p);
                }
                piece = Vec::new();
                start = i + 1;
                assert(s.subrange(start as int, start as int) =~= Seq::<char>::empty());
            } else {
                piece.push(c);
                assert(piece@ =~= s.subrange(start as int, i + 1));
            }
            i = i + 1;
        }
        self.push_piece(&piece);
        proof {
            let p = s.subrange(start as int, s.len() as int);
            assert(s.take(s.len() as int) =~= s);
            assert(done.push(p).drop_last() =~= done);
            assert(done.push(p).last() == p);
        }
    }

    /// Logs one line of text without its trailing carriage returns.
    fn push_piece(&mut self, piece: &Vec<char>)
        requires
            old(self).wf(),
        ensures
            final(self).wf(),
            final(self).lines_view() == log_push_all(
                old(self).lines_view(),
                chunks(encode_utf8(strip_cr(piece@))),
            ),
    {
        let mut end = piece.len();
        assert(piece@.subrange(0, end as int) =~= piece@);
        while end > 0 && piece[end - 1] == '\r'
            invariant
                end <= piece@.len(),
                strip_cr(piece@) == strip_cr(piece@.subrange(0, end as int)),
            decreases end,
        {
            assert(piece@.subrange(0, end as int).drop_last() =~= piece@.subrange(0, end - 1));
            end = end - 1;
        }
        if end > 0 {
            assert(piece@.subrange(0, end as int).last() == piece@[end - 1]);
        }
        let kept = sub_chars(piece, 0, end);
        let line = string_of(&kept);
        self.push_bytes(line.as_str().as_bytes());
    }

    /// Logs bytes as lines of at most `OUTPUT_LINE_MAX` bytes; no bytes log
    /// one empty line.
    pub fn push_bytes(&mut self, bytes: &[u8])
        requires
            old(self).wf(),
        ensures
            final(self).wf(),
            final(self).lines_view() == log_push_all(old(self).lines_view(), chunks(bytes@)),
    {
        let ghost all = bytes@;
        let mut offset: usize = 0;
        assert(chunks(all.skip(0)) =~= chunks(all)) by {
            assert(all.skip(0) =~= all);
        }
        loop
            invariant_except_break
                offset == 0 || offset < bytes@.len(),
                log_push_all(old(self).lines_view(), chunks(all)) == log_push_all(
                    self.lines_view(),
                    chunks(all.skip(offset as int)),
                ),
            invariant
                self.wf(),
                offset <= bytes@.len(),
                all == bytes@,
            ensures
                log_push_all(old(self).lines_view(), chunks(all)) == self.lines_view(),
            decreases bytes@.len() - offset,
        {
            let remaining = bytes.len() - offset;
            let chunk_len = if remaining < OUTPUT_LINE_MAX {
                remaining
            } else {
                OUTPUT_LINE_MAX
            };
            let chunk = vstd::slice::slice_subrange(bytes, offset, offset + chunk_len);
            let ghost rest = all.skip(offset as int);
            let ghost before = self.lines_view();
            self.push_line(chunk);
            proof {
                lemma_log_push_all_first(before, rest);
                assert(chunk@ =~= rest.take(chunk_len as int));
                if rest.len() <= OUTPUT_LINE_MAX {
                    assert(rest.take(chunk_len as int) =~= rest);
                } else {
                    assert(rest.skip(OUTPUT_LINE_MAX as int) =~= all.skip(offset + OUTPUT_LINE_MAX));
                }
            }
            offset = offset + chunk_len;
            if offset >= bytes.len() {
                break;
            }
        }
    }
}

/// Text without its trailing carriage returns.
pub open spec fn strip_cr(s: Seq<char>) -> Seq<char>
    decreases s.len(),
{
    if s.len() > 0 && s.last() == '\r' {
        strip_cr(s.drop_last())
    } else {
        s
    }
}

/// The log after each line of text, in order, as `append_text` logs it.
pub open spec fn log_text(lines: Seq<Seq<u8>>, pieces: Seq<Seq<char>>) -> Seq<Seq<u8>>
    decreases pieces.len(),
{
    if pieces.len() == 0 {
        lines
    } else {
        log_push_all(log_text(lines, pieces.drop_last()), chunks(encode_utf8(strip_cr(pieces.last()))))
    }
}

/// Logging the chunks of bytes logs the first chunk, then the chunks of
/// the rest.
proof fn lemma_log_push_all_first(lines: Seq<Seq<u8>>, bytes: Seq<u8>)
    ensures
        bytes.len() <= OUTPUT_LINE_MAX ==> log_push_all(lines, chunks(bytes)) == log_push(lines, bytes),
        bytes.len() > OUTPUT_LINE_MAX ==> log_push_all(lines, chunks(bytes)) == log_push_all(
            log_push(lines, bytes.take(OUTPUT_LINE_MAX as int)),
            chunks(bytes.skip(OUTPUT_LINE_MAX as int)),
        ),
{
    if bytes.len() <= OUTPUT_LINE_MAX {
        lemma_log_push_all_one(lines, bytes);
    } else {
        lemma_log_push_all_concat(lines, seq![bytes.take(OUTPUT_LINE_MAX as int)], chunks(bytes.skip(OUTPUT_LINE_MAX as int)));
        lemma_log_push_all_one(lines, bytes.take(OUTPUT_LINE_MAX as int));
    }
}

/// Logging one line is pushing it.
proof fn lemma_log_push_all_one(lines: Seq<Seq<u8>>, line: Seq<u8>)
    ensures
        log_push_all(lines, seq![line]) == log_push(lines, line),
{
    assert(seq![line].drop_last() =~= Seq::<Seq<u8>>::empty());
    assert(seq![line].last() == line);
    assert(log_push_all(lines, seq![line].drop_last()) == lines);
    assert(log_push_all(lines, seq![line]) == log_push(
        log_push_all(lines, seq![line].drop_last()),
        seq![line].last(),
    ));
}

/// Logging two runs of lines logs the first, then the second.
proof fn lemma_log_push_all_concat(lines: Seq<Seq<u8>>, a: Seq<Seq<u8>>, b: Seq<Seq<u8>>)
    ensures
        log_push_all(lines, a + b) == log_push_all(log_push_all(lines, a), b),
    decreases b.len(),
{
    if b.len() == 0 {
        assert(a + b =~= a);
    } else {
        lemma_log_push_all_concat(lines, a, b.drop_last());
        assert((a + b).drop_last() =~= a + b.drop_last());
        assert((a + b).last() == b.last());
    }
}

} // verus!
