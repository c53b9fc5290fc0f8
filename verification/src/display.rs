//! Text display output: the display-sink interface, an in-memory sink of
//! character cells for tests, and the frame cache and statistics of the
//! incremental editor renderer.

use vstd::prelude::*;
use crate::text::{push_char, trim_end};
use vstd::string::StringSliceAdditionalSpecFns;

verus! {

/// A call that changes one cell of a display: a character written at a
/// cell, or the cursor drawn at one.
#[derive(Debug, Clone, Copy, PartialEq, Eq, Structural)]
pub enum SinkWrite {
    Cell(usize, usize),
    Cursor(usize, usize),
}

/// How many cells a span of `len` cells from column `col` has before the
/// column index would pass `usize::MAX`.
pub open spec fn span_len(col: usize, len: usize) -> nat {
    if len <= usize::MAX - col + 1 {
        len as nat
    } else {
        (usize::MAX - col + 1) as nat
    }
}

/// The writes of the cells of a row from a column on, left to right.
pub open spec fn span_writes(col: usize, row: usize, len: usize) -> Seq<SinkWrite> {
    Seq::new(span_len(col, len), |i: int| SinkWrite::Cell((col + i) as usize, row))
}

/// A text display of character cells.
///
/// A display keeps an invariant of its own (`ready`), which every operation
/// needs and keeps, and its dimensions do not change.
pub trait DisplaySink {
    /// The display's dimensions: columns, rows.
    spec fn dims_view(&self) -> (usize, usize);

    /// The display's own invariant.
    spec fn ready(&self) -> bool;

    /// Whether the cell at a column and row is on the display and shows a
    /// character in an attribute.
    spec fn shows(&self, col: int, row: int, ch: u8, attr: u8) -> bool;

    /// Whether the cell at a column and row is on the display and blank in
    /// an attribute, as clearing leaves it.
    spec fn blank(&self, col: int, row: int, attr: u8) -> bool;

    /// The character a drawn cursor shows in its cell, on a display where
    /// drawing the cursor changes the cell; None where it leaves the cells
    /// as they are.
    spec fn cursor_mark() -> Option<u8>;

    /// The cell writes and cursor draws the display was sent, oldest
    /// first.
    spec fn writes(&self) -> Seq<SinkWrite>;

    /// Display dimensions: columns, rows.
    fn dims(&self) -> (r: (usize, usize))
        requires
            self.ready(),
        ensures
            r == self.dims_view(),
    ;

    /// Clears every cell to a space with the attribute.
    fn clear(&mut self, attr: u8)
        requires
            old(self).ready(),
        ensures
            final(self).ready(),
            final(self).dims_view() == old(self).dims_view(),
            forall|c: int, w: int|
                0 <= c < old(self).dims_view().0 && 0 <= w < old(self).dims_view().1 ==> (#[trigger] final(self).shows(c, w, 32u8, attr)
                    || final(self).blank(c, w, attr)),
    ;

    /// Writes a character with an attribute at a cell; false when the cell
    /// is off the display. No other cell changes.
    fn write_at(&mut self, col: usize, row: usize, ch: u8, attr: u8) -> (r: bool)
        requires
            old(self).ready(),
        ensures
            r == (col < old(self).dims_view().0 && row < old(self).dims_view().1),
            final(self).writes() == old(self).writes().push(SinkWrite::Cell(col, row)),
            r ==> final(self).shows(col as int, row as int, ch, attr),
            forall|c: int, w: int, x: u8, a: u8|
                !(r && c == col && w == row) ==> #[trigger] final(self).shows(c, w, x, a) == old(self).shows(
                    c,
                    w,
                    x,
                    a,
                ),
            forall|c: int, w: int, a: u8|
                !(r && c == col && w == row) ==> #[trigger] final(self).blank(c, w, a) == old(self).blank(c, w, a),
            final(self).ready(),
            final(self).dims_view() == old(self).dims_view(),
    ;

    /// Writes text from a cell on; returns how many characters were written.
    fn write_str_at(&mut self, col: usize, row: usize, text: &str, attr: u8) -> (r: usize)
        requires
            old(self).ready(),
        ensures
            final(self).ready(),
            final(self).dims_view() == old(self).dims_view(),
    ;

    /// Draws the cursor at a cell: on the display, the cell shows the
    /// cursor mark where the display has one. No other cell changes.
    fn draw_cursor(&mut self, col: usize, row: usize, attr: u8)
        requires
            old(self).ready(),
        ensures
            final(self).ready(),
            final(self).dims_view() == old(self).dims_view(),
            final(self).writes() == old(self).writes().push(SinkWrite::Cursor(col, row)),
            col < old(self).dims_view().0 && row < old(self).dims_view().1 ==> match Self::cursor_mark() {
                Some(m) => final(self).shows(col as int, row as int, m, attr),
                None => true,
            },
            forall|c: int, w: int, x: u8, a: u8|
                !(c == col && w == row && col < old(self).dims_view().0 && row < old(self).dims_view().1
                    && Self::cursor_mark() is Some) ==> #[trigger] final(self).shows(c, w, x, a) == old(
                    self,
                ).shows(c, w, x, a),
            forall|c: int, w: int, a: u8|
                !(c == col && w == row && col < old(self).dims_view().0 && row < old(self).dims_view().1
                    && Self::cursor_mark() is Some) ==> #[trigger] final(self).blank(c, w, a) == old(self).blank(
                    c,
                    w,
                    a,
                ),
    ;

    /// Clears `len` cells of a row from a column on to spaces with the
    /// attribute; returns the number of cells asked for. No other cell
    /// changes.
    fn clear_span(&mut self, col: usize, row: usize, len: usize, attr: u8) -> (r: usize)
        requires
            old(self).ready(),
        ensures
            r == len,
            final(self).writes() == old(self).writes() + span_writes(col, row, len),
            forall|c: int|
                col <= c < col + len && c < old(self).dims_view().0 && row < old(self).dims_view().1
                    ==> #[trigger] final(self).shows(c, row as int, 32u8, attr) || final(self).blank(
                    c,
                    row as int,
                    attr,
                ),
            forall|c: int, w: int, x: u8, a: u8|
                !(w == row && col <= c < col + len) ==> #[trigger] final(self).shows(c, w, x, a) == old(
                    self,
                ).shows(c, w, x, a),
            forall|c: int, w: int, a: u8|
                !(w == row && col <= c < col + len) ==> #[trigger] final(self).blank(c, w, a) == old(self).blank(
                    c,
                    w,
                    a,
                ),
            final(self).ready(),
            final(self).dims_view() == old(self).dims_view(),
    {
        let mut i: usize = 0;
        while i < len && i <= usize::MAX - col
            invariant
                i <= len,
                i <= usize::MAX - col + 1,
                self.ready(),
                self.dims_view() == old(self).dims_view(),
                self.writes() == old(self).writes() + span_writes(col, row, i),
                forall|c: int|
                    col <= c < col + i && c < old(self).dims_view().0 && row < old(self).dims_view().1
                        ==> #[trigger] self.shows(c, row as int, 32u8, attr),
                forall|c: int, w: int, x: u8, a: u8|
                    !(w == row && col <= c < col + i) ==> #[trigger] self.shows(c, w, x, a) == old(
                        self,
                    ).shows(c, w, x, a),
                forall|c: int, w: int, a: u8|
                    !(w == row && col <= c < col + i) ==> #[trigger] self.blank(c, w, a) == old(self).blank(c, w, a),
            decreases len - i,
        {
            self.write_at(col + i, row, 32u8, attr);
            assert(span_writes(col, row, (i + 1) as usize) =~= span_writes(col, row, i).push(SinkWrite::Cell(
                (col + i) as usize,
                row,
            )));
            i = i + 1;
        }
        assert(span_writes(col, row, i) =~= span_writes(col, row, len));
        proof {
            assert forall|c: int, w: int, x: u8, a: u8|
                !(w == row && col <= c < col + len) implies #[trigger] self.shows(c, w, x, a) == old(
                    self,
                ).shows(c, w, x, a) by {
            }
            assert forall|c: int, w: int, a: u8| !(w == row && col <= c < col + len) implies #[trigger] self.blank(
                c,
                w,
                a,
            ) == old(self).blank(c, w, a) by {
            }
        }
        len
    }
}

/// Where a walk writing text over a display stands.
pub struct WalkState {
    pub col: int,
    pub row: int,
    pub written: nat,
    pub cells: Seq<u8>,
    pub stopped: bool,
}

/// The buffer index of the character byte of a cell.
pub open spec fn cell_index(width: nat, col: int, row: int) -> int {
    (row * width + col) * 2
}

/// One byte of a text walk: a newline moves to the start of the next row
/// (stopping below the last row); any other byte wraps to the next row at
/// the right edge, stops below the last row, and otherwise is written when
/// its cell is on the display, moving one column on either way.
pub open spec fn walk_step(width: nat, height: nat, s: WalkState, byte: u8, attr: u8) -> WalkState {
    if s.stopped {
        s
    } else if byte == 10 {
        WalkState { col: 0, row: s.row + 1, stopped: s.row + 1 >= height, ..s }
    } else {
        let (col, row) = if s.col >= width {
            (0, s.row + 1)
        } else {
            (s.col, s.row)
        };
        if row >= height {
            WalkState { col, row, stopped: true, ..s }
        } else if col < width {
            let i = cell_index(width, col, row);
            WalkState {
                col: col + 1,
                row,
                written: s.written + 1,
                cells: s.cells.update(i, byte).update(i + 1, attr),
                stopped: false,
            }
        } else {
            WalkState { col: col + 1, row, ..s }
        }
    }
}

/// A walk writing the bytes, one after another.
pub open spec fn text_walk(width: nat, height: nat, start: WalkState, bytes: Seq<u8>, attr: u8) -> WalkState
    decreases bytes.len(),
{
    if bytes.len() == 0 {
        start
    } else {
        walk_step(width, height, text_walk(width, height, start, bytes.drop_last(), attr), bytes.last(), attr)
    }
}

/// The characters a row shows, as the test sink reads them: spaces before
/// the first other character are skipped, bytes stand for the characters
/// of their code, and trailing whitespace is dropped.
pub open spec fn row_chars(cells: Seq<u8>) -> Seq<char>
    decreases cells.len(),
{
    if cells.len() == 0 {
        Seq::empty()
    } else {
        let prev = row_chars(cells.drop_last());
        let ch = cells.last();
        if ch == 32 && prev.len() == 0 {
            prev
        } else {
            prev.push(ch as char)
        }
    }
}

/// An in-memory display of `width` x `height` cells, two bytes per cell
/// (character, attribute).
#[derive(Clone)]
pub struct TestDisplaySink {
    buffer: Vec<u8>,
    width: usize,
    height: usize,
    writes: Ghost<Seq<SinkWrite>>,
    write_count: usize,
}

impl TestDisplaySink {
    /// The bytes of the cells, row by row.
    pub closed spec fn cells(&self) -> Seq<u8> {
        self.buffer@
    }

    /// The display's width.
    pub closed spec fn width_spec(&self) -> nat {
        self.width as nat
    }

    /// The display's height.
    pub closed spec fn height_spec(&self) -> nat {
        self.height as nat
    }

    /// How many characters `write_at` put on the display, counting up to
    /// `usize::MAX`.
    pub closed spec fn count_view(&self) -> nat {
        self.write_count as nat
    }

    /// How many characters `write_at` put on the display (saturating).
    pub fn write_count(&self) -> (r: usize)
        ensures
            r == self.count_view(),
    {
        self.write_count
    }

    /// Starts counting written characters again from zero.
    pub fn reset_write_count(&mut self)
        ensures
            final(self).count_view() == 0,
            final(self).cells() == old(self).cells(),
            final(self).width_spec() == old(self).width_spec(),
            final(self).height_spec() == old(self).height_spec(),
            final(self).writes() == old(self).writes(),
            final(self).wf() == old(self).wf(),
    {
        self.write_count = 0;
    }

    /// The buffer holds two bytes per cell: what every display made by
    /// `new` keeps.
    pub closed spec fn wf(&self) -> bool {
        &&& self.buffer@.len() == self.width * self.height * 2
        &&& self.width * self.height * 2 <= usize::MAX
    }

    /// A display of zeroed cells.
    pub fn new(width: usize, height: usize) -> (r: Self)
        requires
            width * height * 2 <= usize::MAX,
        ensures
            r.wf(),
            r.width_spec() == width,
            r.height_spec() == height,
            r.cells() == Seq::new((width * height * 2) as nat, |i: int| 0u8),
            r.writes() == Seq::<SinkWrite>::empty(),
            r.count_view() == 0,
    {
        let n = width * height * 2;
        let mut buffer: Vec<u8> = Vec::new();
        let mut i: usize = 0;
        while i < n
            invariant
                i <= n,
                buffer@ == Seq::new(i as nat, |k: int| 0u8),
            decreases n - i,
        {
            buffer.push(0u8);
            assert(buffer@ =~= Seq::new((i + 1) as nat, |k: int| 0u8));
            i = i + 1;
        }
        TestDisplaySink { buffer, width, height, writes: Ghost(Seq::empty()), write_count: 0 }
    }

    /// The character at a cell; None off the display.
    pub fn get_char(&self, col: usize, row: usize) -> (r: Option<u8>)
        requires
            self.wf(),
        ensures
            (col >= self.width_spec() || row >= self.height_spec()) ==> r is None,
            (col < self.width_spec() && row < self.height_spec()) ==> r == Some(
                self.cells()[cell_index(self.width_spec(), col as int, row as int)],
            ),
    {
        if col >= self.width || row >= self.height {
            return None;
        }
        proof {
            lemma_cell_in_bounds(self.width as nat, self.height as nat, col as int, row as int);
        }
        let offset = (row * self.width + col) * 2;
        Some(self.buffer[offset])
    }

    /// The attribute at a cell; None off the display.
    pub fn get_attr(&self, col: usize, row: usize) -> (r: Option<u8>)
        requires
            self.wf(),
        ensures
            (col >= self.width_spec() || row >= self.height_spec()) ==> r is None,
            (col < self.width_spec() && row < self.height_spec()) ==> r == Some(
                self.cells()[cell_index(self.width_spec(), col as int, row as int) + 1],
            ),
    {
        if col >= self.width || row >= self.height {
            return None;
        }
        proof {
            lemma_cell_in_bounds(self.width as nat, self.height as nat, col as int, row as int);
        }
        let offset = (row * self.width + col) * 2;
        Some(self.buffer[offset + 1])
    }

    /// The text a row shows; None off the display.
    pub fn get_line(&self, row: usize) -> (r: Option<String>)
        requires
            self.wf(),
        ensures
            row >= self.height_spec() ==> r is None,
            row < self.height_spec() ==> (r matches Some(s) && s@ == trim_end(
                row_chars(
                    Seq::new(
                        self.width_spec(),
                        |c: int| self.cells()[cell_index(self.width_spec(), c, row as int)],
                    ),
                ),
            )),
    {
        if row >= self.height {
            return None;
        }
        let ghost row_cells = Seq::new(
            self.width as nat,
            |c: int| self.buffer@[cell_index(self.width as nat, c, row as int)],
        );
        let mut line = String::new();
        let mut empty = true;
        let mut col: usize = 0;
        assert(row_cells.take(0) =~= Seq::<u8>::empty());
        while col < self.width
            invariant
                self.wf(),
                row < self.height,
                col <= self.width,
                row_cells == Seq::new(
                    self.width as nat,
                    |c: int| self.buffer@[cell_index(self.width as nat, c, row as int)],
                ),
                line@ == row_chars(row_cells.take(col as int)),
                empty == (line@.len() == 0),
            decreases self.width - col,
        {
            proof {
                lemma_cell_in_bounds(self.width as nat, self.height as nat, col as int, row as int);
            }
            let offset = (row * self.width + col) * 2;
            let ch = self.buffer[offset];
            assert(row_cells.take(col + 1).drop_last() =~= row_cells.take(col as int));
            assert(row_cells.take(col + 1).last() == ch);
            if ch == 32u8 && empty {
            } else {
                push_char(&mut line, ch as char);
                empty = false;
            }
            col = col + 1;
        }
        assert(row_cells.take(self.width as int) =~= row_cells);
        let chars = crate::text::chars_of(line.as_str());
        let trimmed = trim_end_chars(&chars);
        Some(crate::text::string_of(&trimmed))
    }
}

/// The characters of `v` without trailing whitespace.
fn trim_end_chars(v: &Vec<char>) -> (r: Vec<char>)
    ensures
        r@ == trim_end(v@),
{
    let mut b = v.len();
    assert(v@.subrange(0, b as int) =~= v@);
    while b > 0 && crate::text::is_whitespace_char(v[b - 1])
        invariant
            b <= v@.len(),
            trim_end(v@) == trim_end(v@.subrange(0, b as int)),
        decreases b,
    {
        assert(v@.subrange(0, b as int).drop_last() =~= v@.subrange(0, b - 1));
        b = b - 1;
    }
    if b > 0 {
        assert(v@.subrange(0, b as int).last() == v@[b - 1]);
    }
    crate::text::sub_chars(v, 0, b)
}

/// Once a walk has stopped, further bytes leave it as it is.
proof fn lemma_walk_stays_stopped(width: nat, height: nat, start: WalkState, bytes: Seq<u8>, attr: u8, i: int, j: int)
    requires
        0 <= i <= j <= bytes.len(),
        text_walk(width, height, start, bytes.take(i), attr).stopped,
    ensures
        text_walk(width, height, start, bytes.take(j), attr) == text_walk(width, height, start, bytes.take(i), attr),
    decreases j - i,
{
    if j > i {
        lemma_walk_stays_stopped(width, height, start, bytes, attr, i, j - 1);
        assert(bytes.take(j).drop_last() =~= bytes.take(j - 1));
    }
}

/// Two different cells of a row-major grid have byte pairs that do not
/// overlap.
proof fn lemma_cells_apart(width: nat, c1: int, r1: int, c2: int, r2: int)
    requires
        0 <= c1 < width,
        0 <= c2 < width,
        0 <= r1,
        0 <= r2,
        !(c1 == c2 && r1 == r2),
    ensures
        cell_index(width, c1, r1) + 2 <= cell_index(width, c2, r2) || cell_index(width, c2, r2) + 2 <= cell_index(
            width,
            c1,
            r1,
        ),
{
    if r1 == r2 {
    } else if r1 < r2 {
        assert(r1 * width + width <= r2 * width) by (nonlinear_arith)
            requires
                r1 < r2,
        ;
    } else {
        assert(r2 * width + width <= r1 * width) by (nonlinear_arith)
            requires
                r2 < r1,
        ;
    }
}

/// A cell of a display lies in its buffer.
proof fn lemma_cell_in_bounds(width: nat, height: nat, col: int, row: int)
    requires
        0 <= col < width,
        0 <= row < height,
    ensures
        0 <= cell_index(width, col, row),
        cell_index(width, col, row) + 1 < width * height * 2,
{
    assert(row * width + col < width * height) by (nonlinear_arith)
        requires
            0 <= col < width,
            0 <= row < height,
    ;
    assert(0 <= row * width) by (nonlinear_arith)
        requires
            0 <= row,
    ;
}

impl DisplaySink for TestDisplaySink {
    open spec fn dims_view(&self) -> (usize, usize) {
        (self.width_spec() as usize, self.height_spec() as usize)
    }

    open spec fn ready(&self) -> bool {
        self.wf()
    }

    open spec fn shows(&self, col: int, row: int, ch: u8, attr: u8) -> bool {
        &&& 0 <= col < self.width_spec()
        &&& 0 <= row < self.height_spec()
        &&& self.cells()[cell_index(self.width_spec(), col, row)] == ch
        &&& self.cells()[cell_index(self.width_spec(), col, row) + 1] == attr
    }

    open spec fn blank(&self, col: int, row: int, attr: u8) -> bool {
        self.shows(col, row, 32u8, attr)
    }

    open spec fn cursor_mark() -> Option<u8> {
        None
    }

    closed spec fn writes(&self) -> Seq<SinkWrite> {
        self.writes@
    }

    fn dims(&self) -> (r: (usize, usize)) {
        (self.width, self.height)
    }

    fn clear(&mut self, attr: u8)
        ensures
            final(self).width_spec() == old(self).width_spec(),
            final(self).height_spec() == old(self).height_spec(),
            final(self).cells() == Seq::new(
                old(self).cells().len(),
                |i: int| if i % 2 == 0 {
                    32u8
                } else {
                    attr
                },
            ),
    {
        let n = self.buffer.len();
        let ghost w = self.width;
        let ghost h = self.height;
        let mut i: usize = 0;
        while i < n
            invariant
                self.width == w,
                self.height == h,
                w == old(self).width,
                h == old(self).height,
                self.buffer@.len() == n,
                n == self.width * self.height * 2,
                i <= n,
                i % 2 == 0,
                forall|k: int| 0 <= k < i ==> self.buffer@[k] == if k % 2 == 0 {
                    32u8
                } else {
                    attr
                },
            decreases n - i,
        {
            self.buffer[i] = 32u8;
            self.buffer[i + 1] = attr;
            i = i + 2;
        }
        assert(self.buffer@ =~= Seq::new(
            n as nat,
            |k: int| if k % 2 == 0 {
                32u8
            } else {
                attr
            },
        ));
        assert forall|c: int, r: int| 0 <= c < w && 0 <= r < h implies #[trigger] self.shows(c, r, 32u8, attr) by {
            lemma_cell_in_bounds(w as nat, h as nat, c, r);
            let k = cell_index(w as nat, c, r);
            assert(k % 2 == 0 && (k + 1) % 2 == 1) by (nonlinear_arith)
                requires
                    k == (r * w + c) * 2,
            ;
        }
    }

    fn write_at(&mut self, col: usize, row: usize, ch: u8, attr: u8) -> (r: bool)
        ensures
            final(self).width_spec() == old(self).width_spec(),
            final(self).height_spec() == old(self).height_spec(),
            r == (col < old(self).width_spec() && row < old(self).height_spec()),
            r ==> final(self).cells() == old(self).cells().update(
                cell_index(old(self).width_spec(), col as int, row as int),
                ch,
            ).update(cell_index(old(self).width_spec(), col as int, row as int) + 1, attr),
            !r ==> final(self).cells() == old(self).cells(),
            final(self).count_view() == if r && old(self).count_view() < usize::MAX {
                old(self).count_view() + 1
            } else {
                old(self).count_view()
            },
    {
        self.writes = Ghost(self.writes@.push(SinkWrite::Cell(col, row)));
        if col >= self.width || row >= self.height {
            return false;
        }
        if self.write_count < usize::MAX {
            self.write_count = self.write_count + 1;
        }
        proof {
            lemma_cell_in_bounds(self.width as nat, self.height as nat, col as int, row as int);
        }
        let offset = (row * self.width + col) * 2;
        self.buffer[offset] = ch;
        self.buffer[offset + 1] = attr;
        proof {
            assert forall|c: int, w: int, x: u8, a: u8| !(c == col && w == row) implies #[trigger] self.shows(
                c,
                w,
                x,
                a,
            ) == old(self).shows(c, w, x, a) by {
                if 0 <= c < self.width && 0 <= w < self.height {
                    lemma_cells_apart(self.width as nat, c, w, col as int, row as int);
                    lemma_cell_in_bounds(self.width as nat, self.height as nat, c, w);
                    let k = cell_index(self.width as nat, c, w);
                    assert(self.buffer@[k] == old(self).buffer@[k]);
                    assert(self.buffer@[k + 1] == old(self).buffer@[k + 1]);
                }
            }
        }
        true
    }

    fn write_str_at(&mut self, col: usize, row: usize, text: &str, attr: u8) -> (r: usize)
        ensures
            final(self).width_spec() == old(self).width_spec(),
            final(self).height_spec() == old(self).height_spec(),
            row == usize::MAX ==> r == 0 && final(self).cells() == old(self).cells(),
            row < usize::MAX ==> ({
                let walk = text_walk(
                    old(self).width_spec(),
                    old(self).height_spec(),
                    WalkState { col: col as int, row: row as int, written: 0, cells: old(self).cells(), stopped: false },
                    text.spec_bytes(),
                    attr,
                );
                &&& r == walk.written
                &&& final(self).cells() == walk.cells
            }),
    {
        let bytes = text.as_bytes();
        if row == usize::MAX {
            return 0;
        }
        let ghost w = self.width as nat;
        let ghost h = self.height as nat;
        let ghost start = WalkState { col: col as int, row: row as int, written: 0, cells: self.buffer@, stopped: false };
        let mut c = col;
        let mut rw = row;
        let mut written: usize = 0;
        let mut i: usize = 0;
        assert(bytes@.take(0) =~= Seq::<u8>::empty());
        assert(bytes@.take(bytes@.len() as int) =~= bytes@);
        while i < bytes.len()
            invariant_except_break
                ({
                    let s = text_walk(w, h, start, bytes@.take(i as int), attr);
                    &&& !s.stopped
                    &&& s.col == c
                    &&& s.row == rw
                    &&& s.written == written
                    &&& s.cells =~= self.buffer@
                }),
                rw < usize::MAX,
            invariant
                self.wf(),
                w == self.width,
                h == self.height,
                i <= bytes@.len(),
                bytes@ == text.spec_bytes(),
                bytes@.take(bytes@.len() as int) == bytes@,
                written <= i,
            ensures
                ({
                    let s = text_walk(w, h, start, bytes@, attr);
                    &&& s.written == written
                    &&& s.cells =~= self.buffer@
                }),
            decreases bytes.len() - i,
        {
            let b = bytes[i];
            let ghost prev = text_walk(w, h, start, bytes@.take(i as int), attr);
            proof {
                assert(bytes@.take(i + 1).drop_last() =~= bytes@.take(i as int));
                assert(bytes@.take(i + 1).last() == b);
                assert(text_walk(w, h, start, bytes@.take(i + 1), attr) == walk_step(w, h, prev, b, attr));
            }
            if b == 10u8 {
                rw = rw + 1;
                c = 0;
                if rw >= self.height {
                    proof {
                        lemma_walk_stays_stopped(w, h, start, bytes@, attr, i + 1, bytes@.len() as int);
                    }
                    break;
                }
            } else {
                if c >= self.width {
                    c = 0;
                    rw = rw + 1;
                }
                if rw >= self.height {
                    proof {
                        lemma_walk_stays_stopped(w, h, start, bytes@, attr, i + 1, bytes@.len() as int);
                    }
                    break;
                }
                if self.write_at(c, rw, b, attr) {
                    written = written + 1;
                }
                c = c + 1;
            }
            i = i + 1;
        }
        written
    }

    fn draw_cursor(&mut self, col: usize, row: usize, attr: u8)
        ensures
            final(self).cells() == old(self).cells(),
            final(self).width_spec() == old(self).width_spec(),
            final(self).height_spec() == old(self).height_spec(),
            final(self).count_view() == old(self).count_view(),
    {
        self.writes = Ghost(self.writes@.push(SinkWrite::Cursor(col, row)));
    }
}

} // verus!
