//! Incremental editor rendering: a cache of the previous frame's cells and
//! a renderer that redraws only what changed.
//!
//! The renderer reads an editor through `EditorFrame`, the plain values it
//! needs: the visible lines, the status line, the cursor within the
//! viewport and the scroll offset. After every pass the cache holds the
//! frame that was drawn, whether the pass redrew everything or only the
//! changed cells.

use vstd::prelude::*;
use crate::display::{span_len, span_writes, DisplaySink, SinkWrite};
use crate::render_stats::{
    RenderStatsGlobal,
    frame_begin,
    frame_end,
    record_char_draw,
    record_full_clear,
    record_line_clear,
    record_pixel_writes,
};

verus! {

/// Pixels covered by one character cell.
pub const PIXELS_PER_CELL: usize = 128;

/// The content of a character cell.
#[derive(Debug, Clone, Copy, PartialEq, Eq, Structural)]
pub struct Cell {
    pub ch: u8,
    pub attr: u8,
}

/// A blank cell in the default attribute.
pub open spec fn blank_cell() -> Cell {
    Cell { ch: 32, attr: 7 }
}

/// The cell a line shows at a column: its byte there, or a space past its
/// end.
pub open spec fn line_cell(line: Seq<u8>, col: int, attr: u8) -> Cell {
    Cell {
        ch: if 0 <= col < line.len() {
            line[col]
        } else {
            32u8
        },
        attr,
    }
}

/// The position of a cell in a row-major grid.
pub open spec fn grid_index(cols: nat, col: int, row: int) -> int {
    row * cols + col
}

/// The cell of a row-major grid at a column and row.
pub open spec fn grid_cell(cells: Seq<Cell>, cols: nat, col: int, row: int) -> Cell {
    cells[grid_index(cols, col, row)]
}

/// A row of a grid shows a line: each of its columns holds the line's cell.
pub open spec fn row_shows(cells: Seq<Cell>, cols: nat, row: int, line: Seq<u8>, attr: u8) -> bool {
    forall|c: int| 0 <= c < cols ==> #[trigger] grid_cell(cells, cols, c, row) == line_cell(line, c, attr)
}

/// A grid changed at most in one row: every other cell is as before.
pub open spec fn only_row_changed(old_cells: Seq<Cell>, new_cells: Seq<Cell>, cols: nat, rows: nat, row: int) -> bool {
    &&& new_cells.len() == old_cells.len()
    &&& forall|c: int, r: int|
        0 <= c < cols && 0 <= r < rows && r != row ==> #[trigger] grid_cell(new_cells, cols, c, r)
            == grid_cell(old_cells, cols, c, r)
}

/// Whether a display cell shows a grid cell: its character in its
/// attribute, or, for a space, blank in its attribute.
pub open spec fn displays<S: DisplaySink>(sink: S, col: int, row: int, cell: Cell) -> bool {
    sink.shows(col, row, cell.ch, cell.attr) || (cell.ch == 32 && sink.blank(col, row, cell.attr))
}

/// A display shows a row of a grid.
pub open spec fn sink_row_shows<S: DisplaySink>(sink: S, cells: Seq<Cell>, cols: nat, row: int) -> bool {
    forall|c: int| 0 <= c < cols ==> #[trigger] displays(sink, c, row, grid_cell(cells, cols, c, row))
}

/// Two displays look the same outside one row.
pub open spec fn other_rows_kept<S: DisplaySink>(a: S, b: S, row: int) -> bool {
    &&& forall|c: int, w: int, x: u8, t: u8| w != row ==> #[trigger] b.shows(c, w, x, t) == a.shows(c, w, x, t)
    &&& forall|c: int, w: int, t: u8| w != row ==> #[trigger] b.blank(c, w, t) == a.blank(c, w, t)
}

/// What a display shows at a cell of a grid with a cursor: the cursor
/// mark in the cursor's attribute where the cursor stands and the display
/// has a mark, the grid's cell elsewhere.
pub open spec fn cell_seen<S: DisplaySink>(
    sink: S,
    cells: Seq<Cell>,
    cols: nat,
    cursor: Option<(usize, usize)>,
    cursor_attr: u8,
    c: int,
    r: int,
) -> bool {
    match S::cursor_mark() {
        Some(m) => if cursor == Some((c as usize, r as usize)) {
            sink.shows(c, r, m, cursor_attr)
        } else {
            displays(sink, c, r, grid_cell(cells, cols, c, r))
        },
        None => displays(sink, c, r, grid_cell(cells, cols, c, r)),
    }
}

/// A display shows a grid, with the cursor drawn at its place.
pub open spec fn sink_shows_frame<S: DisplaySink>(
    sink: S,
    cells: Seq<Cell>,
    cols: nat,
    rows: nat,
    cursor: Option<(usize, usize)>,
    cursor_attr: u8,
) -> bool {
    forall|c: int, r: int|
        0 <= c < cols && 0 <= r < rows ==> #[trigger] cell_seen(sink, cells, cols, cursor, cursor_attr, c, r)
}

/// A display shows every row of a grid.
pub open spec fn sink_grid_shows<S: DisplaySink>(sink: S, cells: Seq<Cell>, cols: nat, rows: nat) -> bool {
    forall|r: int| 0 <= r < rows ==> #[trigger] sink_row_shows(sink, cells, cols, r)
}

/// A row that neither the display nor the grid changed is still shown.
proof fn lemma_row_kept<S: DisplaySink>(
    a: S,
    b: S,
    ca: Seq<Cell>,
    cb: Seq<Cell>,
    cols: nat,
    rows: nat,
    row: int,
    r: int,
)
    requires
        other_rows_kept(a, b, row),
        only_row_changed(ca, cb, cols, rows, row),
        0 <= r < rows,
        r != row,
        sink_row_shows(a, ca, cols, r),
    ensures
        sink_row_shows(b, cb, cols, r),
{
    assert forall|c: int| 0 <= c < cols implies #[trigger] displays(b, c, r, grid_cell(cb, cols, c, r)) by {
        assert(displays(a, c, r, grid_cell(ca, cols, c, r)));
        assert(grid_cell(cb, cols, c, r) == grid_cell(ca, cols, c, r));
    }
}

/// A cell of a grid lies inside it.
proof fn lemma_grid_index_bounds(cols: nat, rows: nat, col: int, row: int)
    requires
        0 <= col < cols,
        0 <= row < rows,
    ensures
        0 <= grid_index(cols, col, row) < cols * rows,
{
    assert(row * cols + col < cols * rows) by (nonlinear_arith)
        requires
            0 <= col < cols,
            0 <= row < rows,
    ;
    assert(0 <= row * cols) by (nonlinear_arith)
        requires
            0 <= row,
    ;
}

/// Two cells of a grid at the same position are the same cell.
proof fn lemma_grid_index_injective(cols: nat, c1: int, r1: int, c2: int, r2: int)
    requires
        0 <= c1 < cols,
        0 <= c2 < cols,
        0 <= r1,
        0 <= r2,
        grid_index(cols, c1, r1) == grid_index(cols, c2, r2),
    ensures
        c1 == c2,
        r1 == r2,
{
    assert(r1 == r2) by (nonlinear_arith)
        requires
            0 <= c1 < cols,
            0 <= c2 < cols,
            0 <= r1,
            0 <= r2,
            r1 * cols + c1 == r2 * cols + c2,
    {
        if r1 < r2 {
            assert(r1 * cols + cols <= r2 * cols);
        } else if r2 < r1 {
            assert(r2 * cols + cols <= r1 * cols);
        }
    }
}

/// The previous frame, kept to find what changed.
pub struct EditorRenderCache {
    cells: Vec<Cell>,
    cursor_pos: Option<(usize, usize)>,
    status_line: Vec<u8>,
    cols: usize,
    rows: usize,
    /// Whether the cache holds a complete frame of the current size.
    pub valid: bool,
    scroll_offset: usize,
}

impl EditorRenderCache {
    /// The cells of the previous frame, row by row.
    pub closed spec fn cells_view(&self) -> Seq<Cell> {
        self.cells@
    }

    /// The number of columns the cache was sized for.
    pub closed spec fn cols_view(&self) -> nat {
        self.cols as nat
    }

    /// The number of rows the cache was sized for.
    pub closed spec fn rows_view(&self) -> nat {
        self.rows as nat
    }

    /// Where the cursor was drawn.
    pub closed spec fn cursor_view(&self) -> Option<(usize, usize)> {
        self.cursor_pos
    }

    /// The status line that was drawn.
    pub closed spec fn status_view(&self) -> Seq<u8> {
        self.status_line@
    }

    /// Whether the cache holds a complete frame.
    pub closed spec fn valid_view(&self) -> bool {
        self.valid
    }

    /// The scroll offset of the frame drawn.
    pub closed spec fn scroll_view(&self) -> usize {
        self.scroll_offset
    }

    /// The cache holds one cell per column and row.
    pub closed spec fn wf(&self) -> bool {
        &&& self.cells@.len() == self.cols * self.rows
        &&& self.cols * self.rows <= usize::MAX
    }

    /// The cell at a column and row; a blank cell outside the grid.
    pub open spec fn cell_view(&self, col: int, row: int) -> Cell {
        if 0 <= col < self.cols_view() && 0 <= row < self.rows_view() {
            grid_cell(self.cells_view(), self.cols_view(), col, row)
        } else {
            blank_cell()
        }
    }

    /// An empty, invalid cache.
    pub fn new() -> (r: Self)
        ensures
            r.wf(),
            !r.valid_view(),
            r.cols_view() == 0,
            r.rows_view() == 0,
            r.cells_view().len() == 0,
            r.cursor_view() is None,
            r.status_view().len() == 0,
            r.scroll_view() == 0,
    {
        EditorRenderCache {
            cells: Vec::new(),
            cursor_pos: None,
            status_line: Vec::new(),
            cols: 0,
            rows: 0,
            valid: false,
            scroll_offset: 0,
        }
    }

    /// Whether the cache holds a complete frame.
    pub fn is_valid(&self) -> (r: bool)
        ensures
            r == self.valid_view(),
    {
        self.valid
    }

    /// The number of columns the cache was sized for.
    pub fn cols(&self) -> (r: usize)
        ensures
            r == self.cols_view(),
    {
        self.cols
    }

    /// The number of rows the cache was sized for.
    pub fn rows(&self) -> (r: usize)
        ensures
            r == self.rows_view(),
    {
        self.rows
    }

    /// The number of cells held.
    pub fn cell_count(&self) -> (r: usize)
        ensures
            r == self.cells_view().len(),
    {
        self.cells.len()
    }

    /// Marks the cache invalid, so that the next pass redraws everything.
    pub fn invalidate(&mut self)
        ensures
            !final(self).valid_view(),
            final(self).cells_view() == old(self).cells_view(),
            final(self).cols_view() == old(self).cols_view(),
            final(self).rows_view() == old(self).rows_view(),
            final(self).cursor_view() == old(self).cursor_view(),
            final(self).status_view() == old(self).status_view(),
            final(self).scroll_view() == old(self).scroll_view(),
            final(self).wf() == old(self).wf(),
    {
        self.valid = false;
    }

    /// Sizes the cache for a screen; a new size empties it: blank cells,
    /// no cursor, no status line, and invalid.
    pub fn ensure_size(&mut self, cols: usize, rows: usize)
        requires
            cols * rows <= usize::MAX,
        ensures
            final(self).cols_view() == cols,
            final(self).rows_view() == rows,
            final(self).scroll_view() == old(self).scroll_view(),
            (old(self).cols_view() == cols && old(self).rows_view() == rows) ==> *final(self) == *old(self),
            !(old(self).cols_view() == cols && old(self).rows_view() == rows) ==> {
                &&& final(self).wf()
                &&& final(self).cells_view() == Seq::new((cols * rows) as nat, |i: int| blank_cell())
                &&& !final(self).valid_view()
                &&& final(self).cursor_view() is None
                &&& final(self).status_view().len() == 0
            },
    {
        if self.cols != cols || self.rows != rows {
            self.cols = cols;
            self.rows = rows;
            let n = cols * rows;
            let mut cells: Vec<Cell> = Vec::new();
            let mut i: usize = 0;
            while i < n
                invariant
                    i <= n,
                    cells@ == Seq::new(i as nat, |k: int| blank_cell()),
                decreases n - i,
            {
                cells.push(Cell { ch: 32u8, attr: 0x07u8 });
                assert(cells@ =~= Seq::new((i + 1) as nat, |k: int| blank_cell()));
                i = i + 1;
            }
            self.cells = cells;
            self.valid = false;
            self.cursor_pos = None;
            self.status_line = Vec::new();
        }
    }

    /// The cell at a column and row; a blank cell outside the grid.
    fn get(&self, col: usize, row: usize) -> (r: Cell)
        requires
            self.wf(),
        ensures
            r == self.cell_view(col as int, row as int),
    {
        if col < self.cols && row < self.rows {
            proof {
                lemma_grid_index_bounds(self.cols as nat, self.rows as nat, col as int, row as int);
            }
            self.cells[row * self.cols + col]
        } else {
            Cell { ch: 32u8, attr: 0x07u8 }
        }
    }

    /// Sets the cell at a column and row; nothing outside the grid.
    fn set(&mut self, col: usize, row: usize, cell: Cell)
        requires
            old(self).wf(),
        ensures
            final(self).wf(),
            final(self).cols_view() == old(self).cols_view(),
            final(self).rows_view() == old(self).rows_view(),
            final(self).cursor_view() == old(self).cursor_view(),
            final(self).status_view() == old(self).status_view(),
            final(self).scroll_view() == old(self).scroll_view(),
            final(self).valid_view() == old(self).valid_view(),
            final(self).cells_view().len() == old(self).cells_view().len(),
            forall|c: int, r: int|
                0 <= c < old(self).cols_view() && 0 <= r < old(self).rows_view() ==> #[trigger] grid_cell(
                    final(self).cells_view(),
                    old(self).cols_view(),
                    c,
                    r,
                ) == if c == col && r == row {
                    cell
                } else {
                    grid_cell(old(self).cells_view(), old(self).cols_view(), c, r)
                },
    {
        if col < self.cols && row < self.rows {
            proof {
                lemma_grid_index_bounds(self.cols as nat, self.rows as nat, col as int, row as int);
            }
            let i = row * self.cols + col;
            self.cells[i] = cell;
            proof {
                let w = self.cols as nat;
                assert forall|c: int, r: int| 0 <= c < w && 0 <= r < self.rows implies #[trigger] grid_cell(
                    self.cells@,
                    w,
                    c,
                    r,
                ) == if c == col && r == row {
                    cell
                } else {
                    grid_cell(old(self).cells@, w, c, r)
                } by {
                    lemma_grid_index_bounds(w, self.rows as nat, c, r);
                    if grid_index(w, c, r) == i {
                        lemma_grid_index_injective(w, c, r, col as int, row as int);
                    }
                }
            }
        }
    }
}

impl Default for EditorRenderCache {
    fn default() -> (r: Self)
        ensures
            r.wf(),
            !r.valid_view(),
            r.cols_view() == 0,
            r.rows_view() == 0,
    {
        Self::new()
    }
}

/// What the renderer reads of an editor.
pub struct EditorFrame {
    /// The visible lines, from the top of the viewport; rows past the end
    /// are empty.
    pub lines: Vec<Vec<u8>>,
    /// The status line.
    pub status: Vec<u8>,
    /// The cursor within the viewport, as (column, row).
    pub cursor: Option<(usize, usize)>,
    /// The first document row shown.
    pub scroll_offset: usize,
}

/// The line a viewport row shows: empty past the last visible line.
pub open spec fn frame_line(frame: EditorFrame, row: int) -> Seq<u8> {
    if 0 <= row < frame.lines@.len() {
        frame.lines@[row]@
    } else {
        Seq::empty()
    }
}

/// Counters of one render pass.
///
/// Each counter saturates at the largest `usize` in place of overflowing.
#[derive(Debug, Clone, Copy, Default)]
pub struct FrameRenderStats {
    /// Content lines updated.
    pub dirty_lines_count: usize,
    /// Spans updated.
    pub dirty_spans_count: usize,
    /// Glyphs drawn.
    pub glyph_blits_count: usize,
    /// Rectangle fills issued.
    pub rect_fills_count: usize,
    /// Estimated pixel writes (glyphs and fills).
    pub pixels_written: usize,
    /// Flush calls issued.
    pub flush_calls: usize,
    /// Full redraws issued.
    pub full_redraws: usize,
    /// Cells written (glyphs and fills).
    pub cells_written: usize,
    /// Lines redrawn.
    pub lines_redrawn: usize,
    /// Cursor draws and restores.
    pub cursor_redraws: usize,
    /// Whether the pass redrew everything.
    pub full_clear: bool,
}

/// `a + b`, or the largest `usize` where that overflows.
pub open spec fn sat_add(a: usize, b: int) -> usize {
    if a + b > usize::MAX {
        usize::MAX
    } else {
        (a + b) as usize
    }
}

/// The pixels `cells` cells cover, or the largest `usize` where that
/// overflows.
pub open spec fn pixels_of(cells: usize) -> usize {
    if cells * PIXELS_PER_CELL > usize::MAX {
        usize::MAX
    } else {
        (cells * PIXELS_PER_CELL) as usize
    }
}

fn cells_pixels(cells: usize) -> (r: usize)
    ensures
        r == pixels_of(cells),
{
    if cells > usize::MAX / PIXELS_PER_CELL {
        usize::MAX
    } else {
        cells * PIXELS_PER_CELL
    }
}

impl FrameRenderStats {
    /// A pass's counters before anything was drawn.
    pub open spec fn zero() -> FrameRenderStats {
        FrameRenderStats {
            dirty_lines_count: 0,
            dirty_spans_count: 0,
            glyph_blits_count: 0,
            rect_fills_count: 0,
            pixels_written: 0,
            flush_calls: 0,
            full_redraws: 0,
            cells_written: 0,
            lines_redrawn: 0,
            cursor_redraws: 0,
            full_clear: false,
        }
    }

    /// Counters at zero.
    pub fn new() -> (r: Self)
        ensures
            r == Self::zero(),
    {
        FrameRenderStats {
            dirty_lines_count: 0,
            dirty_spans_count: 0,
            glyph_blits_count: 0,
            rect_fills_count: 0,
            pixels_written: 0,
            flush_calls: 0,
            full_redraws: 0,
            cells_written: 0,
            lines_redrawn: 0,
            cursor_redraws: 0,
            full_clear: false,
        }
    }

    /// Records a content line updated.
    fn record_dirty_line(&mut self)
        ensures
            *final(self) == (FrameRenderStats {
                dirty_lines_count: sat_add(old(self).dirty_lines_count, 1),
                lines_redrawn: sat_add(old(self).lines_redrawn, 1),
                ..*old(self)
            }),
    {
        self.dirty_lines_count = self.dirty_lines_count.saturating_add(1);
        self.lines_redrawn = self.lines_redrawn.saturating_add(1);
    }

    /// Records a span updated.
    fn record_dirty_span(&mut self)
        ensures
            *final(self) == (FrameRenderStats {
                dirty_spans_count: sat_add(old(self).dirty_spans_count, 1),
                ..*old(self)
            }),
    {
        self.dirty_spans_count = self.dirty_spans_count.saturating_add(1);
    }

    /// Records `count` glyphs drawn; nothing for none.
    fn record_glyph_blits(&mut self, count: usize)
        ensures
            count == 0 ==> *final(self) == *old(self),
            count > 0 ==> *final(self) == (FrameRenderStats {
                glyph_blits_count: sat_add(old(self).glyph_blits_count, count as int),
                cells_written: sat_add(old(self).cells_written, count as int),
                pixels_written: sat_add(
                    old(self).pixels_written,
                    pixels_of(count) as int,
                ),
                ..*old(self)
            }),
    {
        if count == 0 {
            return;
        }
        self.glyph_blits_count = self.glyph_blits_count.saturating_add(count);
        self.cells_written = self.cells_written.saturating_add(count);
        self.pixels_written = self.pixels_written.saturating_add(cells_pixels(count));
    }

    /// Records a fill of `cells` cells; nothing for none.
    fn record_rect_fill(&mut self, cells: usize)
        ensures
            cells == 0 ==> *final(self) == *old(self),
            cells > 0 ==> *final(self) == (FrameRenderStats {
                rect_fills_count: sat_add(old(self).rect_fills_count, 1),
                cells_written: sat_add(old(self).cells_written, cells as int),
                pixels_written: sat_add(
                    old(self).pixels_written,
                    pixels_of(cells) as int,
                ),
                ..*old(self)
            }),
    {
        if cells == 0 {
            return;
        }
        self.rect_fills_count = self.rect_fills_count.saturating_add(1);
        self.cells_written = self.cells_written.saturating_add(cells);
        self.pixels_written = self.pixels_written.saturating_add(cells_pixels(cells));
    }

    /// Records a cursor draw or restore.
    fn record_cursor_redraw(&mut self)
        ensures
            *final(self) == (FrameRenderStats {
                cursor_redraws: sat_add(old(self).cursor_redraws, 1),
                ..*old(self)
            }),
    {
        self.cursor_redraws = self.cursor_redraws.saturating_add(1);
    }

    /// Records a full redraw.
    fn record_full_redraw(&mut self)
        ensures
            *final(self) == (FrameRenderStats {
                full_redraws: sat_add(old(self).full_redraws, 1),
                full_clear: true,
                ..*old(self)
            }),
    {
        self.full_redraws = self.full_redraws.saturating_add(1);
        self.full_clear = true;
    }

    /// Records a flush.
    fn record_flush_call(&mut self)
        ensures
            *final(self) == (FrameRenderStats {
                flush_calls: sat_add(old(self).flush_calls, 1),
                ..*old(self)
            }),
    {
        self.flush_calls = self.flush_calls.saturating_add(1);
    }
}

/// Where the cursor is drawn: clamped into the last column and the last
/// viewport row.
pub open spec fn clamp_cursor(cursor: Option<(usize, usize)>, cols: usize, viewport_rows: usize) -> Option<(usize, usize)> {
    match cursor {
        Some((c, r)) => Some(
            (
                if c < sat_sub(cols, 1) {
                    c
                } else {
                    sat_sub(cols, 1)
                },
                if r < sat_sub(viewport_rows, 1) {
                    r
                } else {
                    sat_sub(viewport_rows, 1)
                },
            ),
        ),
        None => None,
    }
}

/// `a - b`, or zero below zero.
pub open spec fn sat_sub(a: usize, b: usize) -> usize {
    if a >= b {
        (a - b) as usize
    } else {
        0
    }
}

/// Every viewport row of a grid shows the frame's line for it.
pub open spec fn frame_shown(cells: Seq<Cell>, cols: nat, viewport_rows: nat, frame: EditorFrame, attr: u8) -> bool {
    forall|r: int| 0 <= r < viewport_rows ==> #[trigger] row_shows(cells, cols, r, frame_line(frame, r), attr)
}

/// Whether a row of a grid holds another cell at a column than a line
/// shows there.
pub open spec fn cell_differs(cells: Seq<Cell>, cols: nat, row: int, line: Seq<u8>, attr: u8, c: int) -> bool {
    grid_cell(cells, cols, c, row) != line_cell(line, c, attr)
}

/// The first column from `c` on where a row differs from a line; `cols`
/// when there is none.
pub open spec fn first_diff(cells: Seq<Cell>, cols: nat, row: int, line: Seq<u8>, attr: u8, c: int) -> int
    decreases cols - c,
{
    if c >= cols {
        cols as int
    } else if cell_differs(cells, cols, row, line, attr, c) {
        c
    } else {
        first_diff(cells, cols, row, line, attr, c + 1)
    }
}

/// One past the last column below `c` where a row differs from a line; 0
/// when there is none.
pub open spec fn diff_end(cells: Seq<Cell>, cols: nat, row: int, line: Seq<u8>, attr: u8, c: int) -> int
    decreases c,
{
    if c <= 0 {
        0
    } else if cell_differs(cells, cols, row, line, attr, c - 1) {
        c
    } else {
        diff_end(cells, cols, row, line, attr, c - 1)
    }
}

/// The writes that bring a row up to date with a line: the span from the
/// first cell that differs to the last one, and nothing when none does.
pub open spec fn row_writes(cells: Seq<Cell>, cols: nat, row: int, line: Seq<u8>, attr: u8) -> Seq<SinkWrite> {
    let s = first_diff(cells, cols, row, line, attr, 0);
    let e = diff_end(cells, cols, row, line, attr, cols as int);
    if s < e {
        span_writes(s as usize, row as usize, (e - s) as usize)
    } else {
        Seq::empty()
    }
}

/// The writes that bring the first `n` viewport rows up to date with a
/// frame, row after row.
pub open spec fn rows_writes(cells: Seq<Cell>, cols: nat, frame: EditorFrame, attr: u8, n: nat) -> Seq<SinkWrite>
    decreases n,
{
    if n == 0 {
        Seq::empty()
    } else {
        rows_writes(cells, cols, frame, attr, (n - 1) as nat) + row_writes(
            cells,
            cols,
            (n - 1) as int,
            frame_line(frame, n - 1),
            attr,
        )
    }
}

/// The writes of whole rows, from the first row up to row `n`.
pub open spec fn full_rows_writes(cols: usize, n: nat) -> Seq<SinkWrite>
    decreases n,
{
    if n == 0 {
        Seq::empty()
    } else {
        full_rows_writes(cols, (n - 1) as nat) + span_writes(0, (n - 1) as usize, cols)
    }
}

/// The write that restores the cell under the old cursor, when it stands
/// in the viewport.
pub open spec fn restore_writes(cursor: Option<(usize, usize)>, viewport_rows: usize) -> Seq<SinkWrite> {
    match cursor {
        Some(p) => if p.1 < viewport_rows {
            seq![SinkWrite::Cell(p.0, p.1)]
        } else {
            Seq::empty()
        },
        None => Seq::empty(),
    }
}

/// The cursor draw at a place, if there is one.
pub open spec fn cursor_writes(cursor: Option<(usize, usize)>) -> Seq<SinkWrite> {
    match cursor {
        Some(p) => seq![SinkWrite::Cursor(p.0, p.1)],
        None => Seq::empty(),
    }
}

/// Two spans of a row, one after the other, are one span.
proof fn lemma_span_concat(col: usize, row: usize, m: usize, k: usize)
    requires
        col + m + k <= usize::MAX,
    ensures
        span_writes(col, row, m) + span_writes((col + m) as usize, row, k) == span_writes(col, row, (m + k) as usize),
{
    assert(span_writes(col, row, m) + span_writes((col + m) as usize, row, k) =~= span_writes(col, row, (m + k) as usize));
}

/// Where no cell from `c` on differs, the first difference is `cols`;
/// where one at `t` is the first from `c` on, it is `t`.
proof fn lemma_first_diff(cells: Seq<Cell>, cols: nat, row: int, line: Seq<u8>, attr: u8, c: int, t: int)
    requires
        0 <= c <= t <= cols,
        forall|k: int| c <= k < t ==> !#[trigger] cell_differs(cells, cols, row, line, attr, k),
        t < cols ==> cell_differs(cells, cols, row, line, attr, t),
    ensures
        first_diff(cells, cols, row, line, attr, c) == t,
    decreases t - c,
{
    if c < t {
        lemma_first_diff(cells, cols, row, line, attr, c + 1, t);
    }
}

/// The end of the differences below `c` is at most `c`.
proof fn lemma_diff_end_le(cells: Seq<Cell>, cols: nat, row: int, line: Seq<u8>, attr: u8, c: int)
    ensures
        diff_end(cells, cols, row, line, attr, c) <= if c < 0 { 0 } else { c },
        0 <= diff_end(cells, cols, row, line, attr, c),
    decreases c,
{
    if c > 0 {
        lemma_diff_end_le(cells, cols, row, line, attr, c - 1);
    }
}

/// A row that shows a line needs no writes.
proof fn lemma_row_writes_none(cells: Seq<Cell>, cols: nat, row: int, line: Seq<u8>, attr: u8)
    requires
        row_shows(cells, cols, row, line, attr),
    ensures
        row_writes(cells, cols, row, line, attr) == Seq::<SinkWrite>::empty(),
{
    assert forall|k: int| 0 <= k < cols implies !#[trigger] cell_differs(cells, cols, row, line, attr, k) by {
        assert(grid_cell(cells, cols, k, row) == line_cell(line, k, attr));
    }
    lemma_first_diff(cells, cols, row, line, attr, 0, cols as int);
    lemma_diff_end_le(cells, cols, row, line, attr, cols as int);
}

/// A row's writes depend only on the cells of that row.
proof fn lemma_row_writes_same(a: Seq<Cell>, b: Seq<Cell>, cols: nat, row: int, line: Seq<u8>, attr: u8)
    requires
        forall|c: int| 0 <= c < cols ==> #[trigger] grid_cell(a, cols, c, row) == grid_cell(b, cols, c, row),
    ensures
        row_writes(a, cols, row, line, attr) == row_writes(b, cols, row, line, attr),
{
    lemma_first_diff_same(a, b, cols, row, line, attr, 0);
    lemma_diff_end_same(a, b, cols, row, line, attr, cols as int);
}

proof fn lemma_first_diff_same(a: Seq<Cell>, b: Seq<Cell>, cols: nat, row: int, line: Seq<u8>, attr: u8, c: int)
    requires
        0 <= c,
        forall|k: int| 0 <= k < cols ==> #[trigger] grid_cell(a, cols, k, row) == grid_cell(b, cols, k, row),
    ensures
        first_diff(a, cols, row, line, attr, c) == first_diff(b, cols, row, line, attr, c),
    decreases cols - c,
{
    if c < cols {
        assert(grid_cell(a, cols, c, row) == grid_cell(b, cols, c, row));
        lemma_first_diff_same(a, b, cols, row, line, attr, c + 1);
    }
}

proof fn lemma_diff_end_same(a: Seq<Cell>, b: Seq<Cell>, cols: nat, row: int, line: Seq<u8>, attr: u8, c: int)
    requires
        c <= cols,
        forall|k: int| 0 <= k < cols ==> #[trigger] grid_cell(a, cols, k, row) == grid_cell(b, cols, k, row),
    ensures
        diff_end(a, cols, row, line, attr, c) == diff_end(b, cols, row, line, attr, c),
    decreases c,
{
    if c > 0 {
        assert(grid_cell(a, cols, c - 1, row) == grid_cell(b, cols, c - 1, row));
        lemma_diff_end_same(a, b, cols, row, line, attr, c - 1);
    }
}

/// Rows that all show the frame need no writes.
proof fn lemma_rows_writes_none(cells: Seq<Cell>, cols: nat, frame: EditorFrame, attr: u8, n: nat)
    requires
        forall|r: int| 0 <= r < n ==> #[trigger] row_shows(cells, cols, r, frame_line(frame, r), attr),
    ensures
        rows_writes(cells, cols, frame, attr, n) == Seq::<SinkWrite>::empty(),
    decreases n,
{
    if n > 0 {
        lemma_rows_writes_none(cells, cols, frame, attr, (n - 1) as nat);
        assert(row_shows(cells, cols, n - 1, frame_line(frame, n - 1), attr));
        lemma_row_writes_none(cells, cols, n - 1, frame_line(frame, n - 1), attr);
        assert(rows_writes(cells, cols, frame, attr, n) =~= Seq::<SinkWrite>::empty());
    }
}

/// The cache's other parts are as before: only cells changed.
pub open spec fn same_but_cells(a: EditorRenderCache, b: EditorRenderCache) -> bool {
    &&& b.wf()
    &&& b.cols_view() == a.cols_view()
    &&& b.rows_view() == a.rows_view()
    &&& b.cursor_view() == a.cursor_view()
    &&& b.status_view() == a.status_view()
    &&& b.scroll_view() == a.scroll_view()
    &&& b.valid_view() == a.valid_view()
}

/// The counters that mark full redraws are as before.
pub open spec fn same_redraw_counters(a: FrameRenderStats, b: FrameRenderStats) -> bool {
    &&& b.full_redraws == a.full_redraws
    &&& b.flush_calls == a.flush_calls
    &&& b.full_clear == a.full_clear
}

/// A copy of the bytes.
fn copy_bytes(v: &Vec<u8>) -> (r: Vec<u8>)
    ensures
        r@ == v@,
{
    let mut out: Vec<u8> = Vec::new();
    let mut i: usize = 0;
    while i < v.len()
        invariant
            i <= v@.len(),
            out@ == v@.take(i as int),
        decreases v@.len() - i,
    {
        out.push(v[i]);
        assert(out@ =~= v@.take(i + 1));
        i = i + 1;
    }
    assert(v@.take(v@.len() as int) =~= v@);
    out
}

/// Whether two byte strings are equal.
fn same_bytes(a: &Vec<u8>, b: &Vec<u8>) -> (r: bool)
    ensures
        r == (a@ == b@),
{
    if a.len() != b.len() {
        return false;
    }
    let mut i: usize = 0;
    while i < a.len()
        invariant
            a@.len() == b@.len(),
            i <= a@.len(),
            forall|k: int| 0 <= k < i ==> a@[k] == b@[k],
        decreases a@.len() - i,
    {
        if a[i] != b[i] {
            return false;
        }
        i = i + 1;
    }
    assert(a@ =~= b@);
    true
}

/// How many of the cells from column `start` up to `end` of a row are on a
/// display of the given dimensions.
pub open spec fn cells_on_display(start: nat, end: nat, row: nat, dims: (usize, usize)) -> nat {
    if row >= dims.1 || start >= dims.0 || end <= start {
        0
    } else if end <= dims.0 {
        (end - start) as nat
    } else {
        (dims.0 - start) as nat
    }
}

/// Writes the bytes of a line from `start` up to `end` into a row, each at
/// its own column; returns how many cells were written, those on the
/// display.
fn write_span<S: DisplaySink>(sink: &mut S, row: usize, line: &Vec<u8>, start: usize, end: usize, attr: u8) -> (r: usize)
    requires
        start <= end <= line@.len(),
        old(sink).ready(),
    ensures
        r == cells_on_display(start as nat, end as nat, row as nat, old(sink).dims_view()),
        final(sink).writes() == old(sink).writes() + span_writes(start, row, (end - start) as usize),
        final(sink).ready(),
        final(sink).dims_view() == old(sink).dims_view(),
        forall|c: int|
            start <= c < end && c < old(sink).dims_view().0 && row < old(sink).dims_view().1
                ==> #[trigger] final(sink).shows(c, row as int, line@[c], attr),
        forall|c: int, w: int, x: u8, a: u8|
            !(w == row && start <= c < end) ==> #[trigger] final(sink).shows(c, w, x, a) == old(sink).shows(
                c,
                w,
                x,
                a,
            ),
        forall|c: int, w: int, a: u8|
            !(w == row && start <= c < end) ==> #[trigger] final(sink).blank(c, w, a) == old(sink).blank(c, w, a),
{
    let mut written: usize = 0;
    let mut i: usize = start;
    while i < end
        invariant
            start <= i <= end,
            end <= line@.len(),
            written == cells_on_display(start as nat, i as nat, row as nat, old(sink).dims_view()),
            sink.writes() == old(sink).writes() + span_writes(start, row, (i - start) as usize),
            sink.ready(),
            sink.dims_view() == old(sink).dims_view(),
            forall|c: int|
                start <= c < i && c < old(sink).dims_view().0 && row < old(sink).dims_view().1
                    ==> #[trigger] sink.shows(c, row as int, line@[c], attr),
            forall|c: int, w: int, x: u8, a: u8|
                !(w == row && start <= c < i) ==> #[trigger] sink.shows(c, w, x, a) == old(sink).shows(c, w, x, a),
            forall|c: int, w: int, a: u8|
                !(w == row && start <= c < i) ==> #[trigger] sink.blank(c, w, a) == old(sink).blank(c, w, a),
        decreases end - i,
    {
        if sink.write_at(i, row, line[i], attr) {
            written = written + 1;
        }
        assert(span_writes(start, row, (i + 1 - start) as usize) =~= span_writes(start, row, (i - start) as usize).push(
            SinkWrite::Cell(i, row),
        ));
        i = i + 1;
    }
    written
}

/// Sets a row of the cache to show a line.
fn fill_cache_row(cache: &mut EditorRenderCache, row: usize, line: &Vec<u8>, attr: u8)
    requires
        old(cache).wf(),
        row < old(cache).rows_view(),
    ensures
        same_but_cells(*old(cache), *final(cache)),
        only_row_changed(
            old(cache).cells_view(),
            final(cache).cells_view(),
            old(cache).cols_view(),
            old(cache).rows_view(),
            row as int,
        ),
        row_shows(final(cache).cells_view(), old(cache).cols_view(), row as int, line@, attr),
{
    let cols = cache.cols;
    let line_len = if line.len() < cols {
        line.len()
    } else {
        cols
    };
    let ghost w = cols as nat;
    let ghost h = cache.rows as nat;
    let mut col: usize = 0;
    while col < cols
        invariant
            same_but_cells(*old(cache), *cache),
            w == cols,
            w == old(cache).cols_view(),
            h == old(cache).rows_view(),
            row < h,
            col <= cols,
            line_len <= line@.len(),
            line_len <= cols,
            line_len == line@.len() || line_len == cols,
            only_row_changed(old(cache).cells_view(), cache.cells_view(), w, h, row as int),
            forall|c: int| 0 <= c < col ==> #[trigger] grid_cell(cache.cells_view(), w, c, row as int)
                == line_cell(line@, c, attr),
        decreases cols - col,
    {
        let ch = if col < line_len {
            line[col]
        } else {
            32u8
        };
        cache.set(col, row, Cell { ch, attr });
        col = col + 1;
    }
}

/// Whether a row of the cache differs from the line it should show.
fn line_needs_update(line: &Vec<u8>, cache: &EditorRenderCache, row: usize, attr: u8) -> (r: bool)
    requires
        cache.wf(),
        row < cache.rows_view(),
    ensures
        r == !row_shows(cache.cells_view(), cache.cols_view(), row as int, line@, attr),
{
    let cols = cache.cols;
    let mut col: usize = 0;
    while col < cols
        invariant
            cache.wf(),
            cols == cache.cols_view(),
            row < cache.rows_view(),
            col <= cols,
            forall|c: int| 0 <= c < col ==> #[trigger] grid_cell(cache.cells_view(), cols as nat, c, row as int)
                == line_cell(line@, c, attr),
        decreases cols - col,
    {
        let ch = if col < line.len() {
            line[col]
        } else {
            32u8
        };
        let expected = Cell { ch, attr };
        if cache.get(col, row) != expected {
            return true;
        }
        col = col + 1;
    }
    false
}

/// Redraws a whole row: the line's text, then blanks to the right edge.
fn render_line_full<S: DisplaySink>(
    sink: &mut S,
    line: &Vec<u8>,
    cache: &mut EditorRenderCache,
    row: usize,
    attr: u8,
    stats: &mut FrameRenderStats,
    render_stats: &mut RenderStatsGlobal,
)
    requires
        old(sink).ready(),
        old(cache).wf(),
        row < old(cache).rows_view(),
        old(sink).dims_view().0 == old(cache).cols_view(),
        old(sink).dims_view().1 == old(cache).rows_view(),
    ensures
        final(sink).ready(),
        final(sink).dims_view() == old(sink).dims_view(),
        same_but_cells(*old(cache), *final(cache)),
        only_row_changed(
            old(cache).cells_view(),
            final(cache).cells_view(),
            old(cache).cols_view(),
            old(cache).rows_view(),
            row as int,
        ),
        row_shows(final(cache).cells_view(), old(cache).cols_view(), row as int, line@, attr),
        final(sink).writes() == old(sink).writes() + span_writes(0, row, old(cache).cols_view() as usize),
        sink_row_shows(*final(sink), final(cache).cells_view(), old(cache).cols_view(), row as int),
        other_rows_kept(*old(sink), *final(sink), row as int),
        same_redraw_counters(*old(stats), *final(stats)),
        final(stats).dirty_lines_count == sat_add(old(stats).dirty_lines_count, 1),
{
    let cols = cache.cols;
    let line_len = if line.len() < cols {
        line.len()
    } else {
        cols
    };
    if line_len > 0 {
        write_span(sink, row, line, 0, line_len, attr);
        stats.record_glyph_blits(line_len);
        record_pixel_writes(render_stats, cells_pixels(line_len) as u64);
    }
    if line_len < cols {
        let cleared = sink.clear_span(line_len, row, cols - line_len, attr);
        stats.record_rect_fill(cleared);
    }
    proof {
        lemma_span_concat(0, row, line_len, (cols - line_len) as usize);
        assert(span_writes(0, row, 0) =~= Seq::<SinkWrite>::empty());
        assert(span_writes(line_len, row, 0) =~= Seq::<SinkWrite>::empty());
        assert(sink.writes() =~= old(sink).writes() + span_writes(0, row, cols));
    }
    fill_cache_row(cache, row, line, attr);
    proof {
        assert forall|c: int| 0 <= c < cols implies #[trigger] displays(
            *sink,
            c,
            row as int,
            grid_cell(cache.cells_view(), cols as nat, c, row as int),
        ) by {
            assert(grid_cell(cache.cells_view(), cols as nat, c, row as int) == line_cell(line@, c, attr));
            if c < line_len {
                assert(sink.shows(c, row as int, line@[c], attr));
            } else {
                assert(sink.shows(c, row as int, 32u8, attr) || sink.blank(c, row as int, attr));
            }
        }
    }
    stats.record_dirty_line();
    stats.record_dirty_span();
    record_line_clear(render_stats);
}

/// Redraws the cells of a row that differ from the line it should show:
/// the changed span of text, then any changed cells past the line's end.
fn render_line_incremental<S: DisplaySink>(
    sink: &mut S,
    line: &Vec<u8>,
    cache: &mut EditorRenderCache,
    row: usize,
    attr: u8,
    stats: &mut FrameRenderStats,
    render_stats: &mut RenderStatsGlobal,
)
    requires
        old(sink).ready(),
        old(cache).wf(),
        row < old(cache).rows_view(),
        old(sink).dims_view().0 == old(cache).cols_view(),
        old(sink).dims_view().1 == old(cache).rows_view(),
    ensures
        final(sink).ready(),
        final(sink).dims_view() == old(sink).dims_view(),
        same_but_cells(*old(cache), *final(cache)),
        only_row_changed(
            old(cache).cells_view(),
            final(cache).cells_view(),
            old(cache).cols_view(),
            old(cache).rows_view(),
            row as int,
        ),
        row_shows(final(cache).cells_view(), old(cache).cols_view(), row as int, line@, attr),
        sink_row_shows(*old(sink), old(cache).cells_view(), old(cache).cols_view(), row as int) ==> sink_row_shows(
            *final(sink),
            final(cache).cells_view(),
            old(cache).cols_view(),
            row as int,
        ),
        other_rows_kept(*old(sink), *final(sink), row as int),
        final(sink).writes() == old(sink).writes() + row_writes(
            old(cache).cells_view(),
            old(cache).cols_view(),
            row as int,
            line@,
            attr,
        ),
        same_redraw_counters(*old(stats), *final(stats)),
{
    let cols = cache.cols;
    let ghost w = cols as nat;
    let ghost h = cache.rows as nat;
    let mut span_start: Option<usize> = None;
    let mut span_end: usize = 0;
    let mut col: usize = 0;
    while col < cols
        invariant
            same_but_cells(*old(cache), *cache),
            w == cols,
            w == old(cache).cols_view(),
            h == old(cache).rows_view(),
            row < h,
            col <= cols,
            span_end <= col,
            span_start matches Some(s) ==> s < span_end,
            only_row_changed(old(cache).cells_view(), cache.cells_view(), w, h, row as int),
            forall|c: int| 0 <= c < col ==> #[trigger] grid_cell(cache.cells_view(), w, c, row as int)
                == line_cell(line@, c, attr),
            forall|c: int| col <= c < cols ==> #[trigger] grid_cell(cache.cells_view(), w, c, row as int)
                == grid_cell(old(cache).cells_view(), w, c, row as int),
            forall|c: int|
                0 <= c < col && grid_cell(cache.cells_view(), w, c, row as int) != grid_cell(
                    old(cache).cells_view(),
                    w,
                    c,
                    row as int,
                ) ==> (span_start matches Some(s) && s <= c < span_end),
            span_end as int == diff_end(old(cache).cells_view(), w, row as int, line@, attr, col as int),
            span_start is None ==> forall|k: int|
                0 <= k < col ==> !#[trigger] cell_differs(old(cache).cells_view(), w, row as int, line@, attr, k),
            span_start matches Some(s) ==> first_diff(old(cache).cells_view(), w, row as int, line@, attr, 0) == s,
        decreases cols - col,
    {
        let ch = if col < line.len() {
            line[col]
        } else {
            32u8
        };
        let new_cell = Cell { ch, attr };
        let old_cell = cache.get(col, row);
        assert(old_cell == grid_cell(old(cache).cells_view(), w, col as int, row as int));
        assert(new_cell == line_cell(line@, col as int, attr));
        if new_cell != old_cell {
            if span_start.is_none() {
                proof {
                    lemma_first_diff(old(cache).cells_view(), w, row as int, line@, attr, 0, col as int);
                }
                span_start = Some(col);
            }
            span_end = col + 1;
            cache.set(col, row, new_cell);
        }
        col = col + 1;
    }
    if let Some(start) = span_start {
        if start < line.len() {
            let write_end = if span_end < line.len() {
                span_end
            } else {
                line.len()
            };
            write_span(sink, row, line, start, write_end, attr);
            stats.record_glyph_blits(write_end - start);
            record_pixel_writes(render_stats, cells_pixels(write_end - start) as u64);
        }
        let line_len = line.len();
        if span_end > line_len {
            let clear_start = if line_len > start {
                line_len
            } else {
                start
            };
            let clear_len = span_end - clear_start;
            if clear_len > 0 {
                let cleared = sink.clear_span(clear_start, row, clear_len, attr);
                stats.record_rect_fill(cleared);
                record_char_draw(render_stats);
            }
        }
        stats.record_dirty_line();
        stats.record_dirty_span();
    }
    proof {
        let oc = old(cache).cells_view();
        match span_start {
            Some(st) => {
                let ll = line@.len();
                if st < ll && span_end > ll {
                    lemma_span_concat(st, row, (ll - st) as usize, (span_end - ll) as usize);
                }
                assert(sink.writes() =~= old(sink).writes() + span_writes(st, row, (span_end - st) as usize));
            },
            None => {
                lemma_first_diff(oc, w, row as int, line@, attr, 0, w as int);
                lemma_diff_end_le(oc, w, row as int, line@, attr, w as int);
                assert(sink.writes() =~= old(sink).writes() + row_writes(oc, w, row as int, line@, attr));
            },
        }
        if sink_row_shows(*old(sink), old(cache).cells_view(), w, row as int) {
            assert forall|c: int| 0 <= c < w implies #[trigger] displays(
                *sink,
                c,
                row as int,
                grid_cell(cache.cells_view(), w, c, row as int),
            ) by {
                assert(displays(*old(sink), c, row as int, grid_cell(old(cache).cells_view(), w, c, row as int)));
                assert(grid_cell(cache.cells_view(), w, c, row as int) == line_cell(line@, c, attr));
                match span_start {
                    Some(st) => {
                        if st <= c < span_end {
                            if c < line@.len() {
                                assert(sink.shows(c, row as int, line@[c], attr));
                            } else {
                                assert(sink.shows(c, row as int, 32u8, attr) || sink.blank(c, row as int, attr));
                            }
                        }
                    },
                    None => {},
                }
            }
        }
    }
}

/// Redraws the status line on its row: its text, then blanks to the right
/// edge.
fn render_status_line<S: DisplaySink>(
    sink: &mut S,
    status: &Vec<u8>,
    cache: &mut EditorRenderCache,
    row: usize,
    attr: u8,
    stats: &mut FrameRenderStats,
    render_stats: &mut RenderStatsGlobal,
)
    requires
        old(sink).ready(),
        old(cache).wf(),
        row < old(cache).rows_view(),
        old(sink).dims_view().0 == old(cache).cols_view(),
        old(sink).dims_view().1 == old(cache).rows_view(),
    ensures
        final(sink).ready(),
        final(sink).dims_view() == old(sink).dims_view(),
        same_but_cells(*old(cache), *final(cache)),
        only_row_changed(
            old(cache).cells_view(),
            final(cache).cells_view(),
            old(cache).cols_view(),
            old(cache).rows_view(),
            row as int,
        ),
        row_shows(final(cache).cells_view(), old(cache).cols_view(), row as int, status@, attr),
        final(sink).writes() == old(sink).writes() + span_writes(0, row, old(cache).cols_view() as usize),
        sink_row_shows(*final(sink), final(cache).cells_view(), old(cache).cols_view(), row as int),
        other_rows_kept(*old(sink), *final(sink), row as int),
        same_redraw_counters(*old(stats), *final(stats)),
{
    let cols = cache.cols;
    let status_len = if status.len() < cols {
        status.len()
    } else {
        cols
    };
    write_span(sink, row, status, 0, status_len, attr);
    stats.record_glyph_blits(status_len);
    record_pixel_writes(render_stats, cells_pixels(status_len) as u64);
    if status_len < cols {
        let cleared = sink.clear_span(status_len, row, cols - status_len, attr);
        stats.record_rect_fill(cleared);
    }
    proof {
        lemma_span_concat(0, row, status_len, (cols - status_len) as usize);
        assert(span_writes(0, row, 0) =~= Seq::<SinkWrite>::empty());
        assert(span_writes(status_len, row, 0) =~= Seq::<SinkWrite>::empty());
        assert(sink.writes() =~= old(sink).writes() + span_writes(0, row, cols));
    }
    fill_cache_row(cache, row, status, attr);
    proof {
        assert forall|c: int| 0 <= c < cols implies #[trigger] displays(
            *sink,
            c,
            row as int,
            grid_cell(cache.cells_view(), cols as nat, c, row as int),
        ) by {
            assert(grid_cell(cache.cells_view(), cols as nat, c, row as int) == line_cell(status@, c, attr));
            if c < status_len {
                assert(sink.shows(c, row as int, status@[c], attr));
            } else {
                assert(sink.shows(c, row as int, 32u8, attr) || sink.blank(c, row as int, attr));
            }
        }
    }
    stats.record_dirty_line();
    stats.record_dirty_span();
}

/// The line a viewport row shows, or an empty line past the last.
fn frame_line_at(frame: &EditorFrame, row: usize, empty: &Vec<u8>) -> (r: Vec<u8>)
    requires
        empty@.len() == 0,
    ensures
        r@ == frame_line(*frame, row as int),
{
    if row < frame.lines.len() {
        copy_bytes(&frame.lines[row])
    } else {
        copy_bytes(empty)
    }
}

/// Renders an editor frame onto a display, redrawing only what changed
/// since the frame the cache holds.
///
/// Everything is redrawn when asked to, when the cache is invalid or sized
/// for another display, or when the editor scrolled; otherwise only the
/// rows that differ from the cache are redrawn, and the status line only
/// when it changed. The cell under the old cursor is restored and the
/// cursor drawn at its new place, clamped into the display. Afterwards the
/// cache holds the frame drawn.
#[verifier::rlimit(80)]
pub fn render_editor_optimized<S: DisplaySink>(
    sink: &mut S,
    frame: &EditorFrame,
    cache: &mut EditorRenderCache,
    normal_attr: u8,
    bold_attr: u8,
    force_full: bool,
    current_tick: u64,
    render_stats: &mut RenderStatsGlobal,
) -> (stats: FrameRenderStats)
    requires
        old(cache).wf(),
        old(sink).ready(),
        old(sink).dims_view().0 * old(sink).dims_view().1 <= usize::MAX,
    ensures
        final(sink).ready(),
        final(sink).dims_view() == old(sink).dims_view(),
        ({
            let cols = old(sink).dims_view().0;
            let rows = old(sink).dims_view().1;
            let viewport_rows = sat_sub(rows, 1);
            let sized = old(cache).cols_view() == cols && old(cache).rows_view() == rows;
            let full = force_full || !sized || !old(cache).valid_view() || old(cache).scroll_view()
                != frame.scroll_offset;
            let status_changed = frame.status@ != old(cache).status_view();
            &&& final(cache).wf()
            &&& final(cache).cols_view() == cols
            &&& final(cache).rows_view() == rows
            &&& final(cache).valid_view()
            &&& final(cache).scroll_view() == frame.scroll_offset
            &&& final(cache).status_view() == frame.status@
            &&& final(cache).cursor_view() == clamp_cursor(frame.cursor, cols, viewport_rows)
            &&& frame_shown(final(cache).cells_view(), cols as nat, viewport_rows as nat, *frame, normal_attr)
            &&& rows > 0 && (full || status_changed) ==> row_shows(
                final(cache).cells_view(),
                cols as nat,
                rows - 1,
                frame.status@,
                bold_attr,
            )
            &&& rows > 0 && !(full || status_changed) ==> forall|c: int|
                0 <= c < cols ==> #[trigger] grid_cell(final(cache).cells_view(), cols as nat, c, rows - 1)
                    == grid_cell(old(cache).cells_view(), cols as nat, c, rows - 1)
            &&& stats.full_clear == full
            &&& stats.full_redraws == (if full {
                1usize
            } else {
                0usize
            })
            &&& stats.flush_calls == (if full {
                1usize
            } else {
                0usize
            })
            &&& !full && !status_changed && frame_shown(
                old(cache).cells_view(),
                cols as nat,
                viewport_rows as nat,
                *frame,
                normal_attr,
            ) ==> stats.dirty_lines_count == 0
            &&& final(sink).writes() == old(sink).writes() + (if full {
                full_rows_writes(cols, viewport_rows as nat)
            } else {
                restore_writes(old(cache).cursor_view(), viewport_rows) + rows_writes(
                    old(cache).cells_view(),
                    cols as nat,
                    *frame,
                    normal_attr,
                    viewport_rows as nat,
                )
            }) + (if rows > 0 && (full || status_changed) {
                span_writes(0, (rows - 1) as usize, cols)
            } else {
                Seq::<SinkWrite>::empty()
            }) + cursor_writes(clamp_cursor(frame.cursor, cols, viewport_rows))
            &&& !full && !status_changed && frame_shown(
                old(cache).cells_view(),
                cols as nat,
                viewport_rows as nat,
                *frame,
                normal_attr,
            ) ==> final(sink).writes() == old(sink).writes() + restore_writes(old(cache).cursor_view(), viewport_rows)
                + cursor_writes(clamp_cursor(frame.cursor, cols, viewport_rows))
            &&& (full || (sink_shows_frame(
                *old(sink),
                old(cache).cells_view(),
                cols as nat,
                rows as nat,
                old(cache).cursor_view(),
                normal_attr,
            ) && (old(cache).cursor_view() matches Some(p) ==> p.1 < viewport_rows))) ==> sink_shows_frame(
                *final(sink),
                final(cache).cells_view(),
                cols as nat,
                rows as nat,
                final(cache).cursor_view(),
                normal_attr,
            )
        }),
{
    let (cols, rows) = sink.dims();
    cache.ensure_size(cols, rows);
    frame_begin(render_stats, current_tick);
    let mut stats = FrameRenderStats::new();
    let viewport_rows = rows.saturating_sub(1);
    let current_scroll = frame.scroll_offset;
    let cursor_pos = match frame.cursor {
        Some((c, r)) => {
            let max_col = cols.saturating_sub(1);
            let max_row = viewport_rows.saturating_sub(1);
            Some(
                (
                    if c < max_col {
                        c
                    } else {
                        max_col
                    },
                    if r < max_row {
                        r
                    } else {
                        max_row
                    },
                ),
            )
        },
        None => None,
    };
    let need_full_redraw = force_full || !cache.valid || cache.scroll_offset != current_scroll;
    let empty: Vec<u8> = Vec::new();
    let ghost start_cache = *cache;
    let ghost w = cols as nat;
    let ghost h = rows as nat;
    let ghost w0 = sink.writes();
    if need_full_redraw {
        stats.record_full_redraw();
        stats.record_flush_call();
        record_full_clear(render_stats);
        let mut viewport_row: usize = 0;
        while viewport_row < viewport_rows
            invariant
                sink.ready(),
                sink.dims_view() == old(sink).dims_view(),
                same_but_cells(start_cache, *cache),
                start_cache.cols_view() == w,
                start_cache.rows_view() == h,
                w == cols,
                h == rows,
                viewport_rows == sat_sub(rows, 1),
                viewport_row <= viewport_rows,
                empty@.len() == 0,
                stats.full_clear,
                stats.full_redraws == 1,
                stats.flush_calls == 1,
                sink.writes() == w0 + full_rows_writes(cols, viewport_row as nat),
                cols == old(sink).dims_view().0,
                rows == old(sink).dims_view().1,
                forall|r: int| 0 <= r < viewport_row ==> #[trigger] sink_row_shows(*sink, cache.cells_view(), w, r),
                forall|r: int| 0 <= r < viewport_row ==> #[trigger] row_shows(
                    cache.cells_view(),
                    w,
                    r,
                    frame_line(*frame, r),
                    normal_attr,
                ),
            decreases viewport_rows - viewport_row,
        {
            let line = frame_line_at(frame, viewport_row, &empty);
            let ghost before = cache.cells_view();
            let ghost before_sink = *sink;
            render_line_full(sink, &line, cache, viewport_row, normal_attr, &mut stats, render_stats);
            proof {
                assert forall|r: int| 0 <= r < viewport_row + 1 implies #[trigger] sink_row_shows(
                    *sink,
                    cache.cells_view(),
                    w,
                    r,
                ) by {
                    if r < viewport_row {
                        lemma_row_kept(before_sink, *sink, before, cache.cells_view(), w, h, viewport_row as int, r);
                    }
                }
                assert forall|r: int| 0 <= r < viewport_row + 1 implies #[trigger] row_shows(
                    cache.cells_view(),
                    w,
                    r,
                    frame_line(*frame, r),
                    normal_attr,
                ) by {
                    if r < viewport_row {
                        assert(row_shows(before, w, r, frame_line(*frame, r), normal_attr));
                        assert forall|c: int| 0 <= c < w implies #[trigger] grid_cell(cache.cells_view(), w, c, r)
                            == line_cell(frame_line(*frame, r), c, normal_attr) by {
                            assert(grid_cell(before, w, c, r) == line_cell(frame_line(*frame, r), c, normal_attr));
                        }
                    }
                }
            }
            viewport_row = viewport_row + 1;
        }
        assert(frame_shown(cache.cells_view(), w, viewport_rows as nat, *frame, normal_attr));
        assert(sink.writes() == w0 + full_rows_writes(cols, viewport_rows as nat));
        cache.scroll_offset = current_scroll;
        cache.valid = true;
    } else {
        let ghost entry_sink = *sink;
        if let Some((old_col, old_row)) = cache.cursor_pos {
            if old_row < viewport_rows {
                let cell = cache.get(old_col, old_row);
                sink.write_at(old_col, old_row, cell.ch, cell.attr);
                stats.record_glyph_blits(1);
                stats.record_cursor_redraw();
                record_char_draw(render_stats);
            }
        }
        assert(sink.writes() =~= w0 + restore_writes(start_cache.cursor_view(), viewport_rows));
        let ghost consistent = sink_shows_frame(
            entry_sink,
            start_cache.cells_view(),
            w,
            h,
            start_cache.cursor_view(),
            normal_attr,
        ) && (start_cache.cursor_view() matches Some(p) ==> p.1 < viewport_rows);
        proof {
            if consistent {
                assert forall|r: int| 0 <= r < h implies #[trigger] sink_row_shows(
                    *sink,
                    cache.cells_view(),
                    w,
                    r,
                ) by {
                    assert forall|c: int| 0 <= c < w implies #[trigger] displays(
                        *sink,
                        c,
                        r,
                        grid_cell(cache.cells_view(), w, c, r),
                    ) by {
                        assert(cell_seen(entry_sink, start_cache.cells_view(), w, start_cache.cursor_view(), normal_attr, c, r));
                        match start_cache.cursor_view() {
                            Some(p) => {
                                if p.0 == c && p.1 == r {
                                    assert(cache.cell_view(c, r) == grid_cell(cache.cells_view(), w, c, r));
                                }
                            },
                            None => {},
                        }
                    }
                }
            }
        }
        let ghost pristine = frame_shown(cache.cells_view(), w, sat_sub(rows, 1) as nat, *frame, normal_attr);
        let mut viewport_row: usize = 0;
        while viewport_row < viewport_rows
            invariant
                sink.ready(),
                sink.dims_view() == old(sink).dims_view(),
                same_but_cells(start_cache, *cache),
                start_cache.cols_view() == w,
                start_cache.rows_view() == h,
                start_cache.valid_view(),
                start_cache.scroll_view() == current_scroll,
                w == cols,
                h == rows,
                viewport_rows == sat_sub(rows, 1),
                viewport_row <= viewport_rows,
                empty@.len() == 0,
                !stats.full_clear,
                stats.full_redraws == 0,
                stats.flush_calls == 0,
                pristine ==> stats.dirty_lines_count == 0,
                pristine ==> cache.cells_view() == start_cache.cells_view(),
                cols == old(sink).dims_view().0,
                rows == old(sink).dims_view().1,
                consistent ==> sink_grid_shows(*sink, cache.cells_view(), w, h),
                sink.writes() == w0 + restore_writes(start_cache.cursor_view(), viewport_rows) + rows_writes(
                    start_cache.cells_view(),
                    w,
                    *frame,
                    normal_attr,
                    viewport_row as nat,
                ),
                forall|c: int, r: int|
                    0 <= c < w && viewport_row <= r < h ==> #[trigger] grid_cell(cache.cells_view(), w, c, r)
                        == grid_cell(start_cache.cells_view(), w, c, r),
                pristine == frame_shown(start_cache.cells_view(), w, sat_sub(rows, 1) as nat, *frame, normal_attr),
                forall|c: int, r: int|
                    0 <= c < w && 0 <= r < h && r >= viewport_rows ==> #[trigger] grid_cell(
                        cache.cells_view(),
                        w,
                        c,
                        r,
                    ) == grid_cell(start_cache.cells_view(), w, c, r),
                forall|r: int| 0 <= r < viewport_row ==> #[trigger] row_shows(
                    cache.cells_view(),
                    w,
                    r,
                    frame_line(*frame, r),
                    normal_attr,
                ),
            decreases viewport_rows - viewport_row,
        {
            let line = frame_line_at(frame, viewport_row, &empty);
            let ghost before = cache.cells_view();
            let ghost before_sink = *sink;
            proof {
                assert forall|c: int| 0 <= c < w implies #[trigger] grid_cell(before, w, c, viewport_row as int)
                    == grid_cell(start_cache.cells_view(), w, c, viewport_row as int) by {
                    assert(grid_cell(cache.cells_view(), w, c, viewport_row as int) == grid_cell(
                        start_cache.cells_view(),
                        w,
                        c,
                        viewport_row as int,
                    ));
                }
                lemma_row_writes_same(before, start_cache.cells_view(), w, viewport_row as int, line@, normal_attr);
            }
            let ghost before_writes = sink.writes();
            let needs = line_needs_update(&line, cache, viewport_row, normal_attr);
            proof {
                if !needs {
                    lemma_row_writes_none(before, w, viewport_row as int, line@, normal_attr);
                }
            }
            if needs {
                render_line_incremental(sink, &line, cache, viewport_row, normal_attr, &mut stats, render_stats);
                proof {
                    if consistent {
                        assert(sink_row_shows(before_sink, before, w, viewport_row as int));
                        assert forall|r: int| 0 <= r < h implies #[trigger] sink_row_shows(
                            *sink,
                            cache.cells_view(),
                            w,
                            r,
                        ) by {
                            if r != viewport_row {
                                assert(sink_row_shows(before_sink, before, w, r));
                                lemma_row_kept(before_sink, *sink, before, cache.cells_view(), w, h, viewport_row as int, r);
                            }
                        }
                    }
                    if pristine {
                        assert(row_shows(start_cache.cells_view(), w, viewport_row as int, frame_line(*frame, viewport_row as int), normal_attr));
                    }
                }
            }
            proof {
                assert forall|r: int| 0 <= r < viewport_row + 1 implies #[trigger] row_shows(
                    cache.cells_view(),
                    w,
                    r,
                    frame_line(*frame, r),
                    normal_attr,
                ) by {
                    if r < viewport_row {
                        assert(row_shows(before, w, r, frame_line(*frame, r), normal_attr));
                        assert forall|c: int| 0 <= c < w implies #[trigger] grid_cell(cache.cells_view(), w, c, r)
                            == line_cell(frame_line(*frame, r), c, normal_attr) by {
                            assert(grid_cell(before, w, c, r) == line_cell(frame_line(*frame, r), c, normal_attr));
                        }
                    }
                }
            }
            proof {
                assert(sink.writes() == before_writes + row_writes(
                    start_cache.cells_view(),
                    w,
                    viewport_row as int,
                    frame_line(*frame, viewport_row as int),
                    normal_attr,
                ));
                assert(rows_writes(start_cache.cells_view(), w, *frame, normal_attr, (viewport_row + 1) as nat)
                    == rows_writes(start_cache.cells_view(), w, *frame, normal_attr, viewport_row as nat) + row_writes(
                    start_cache.cells_view(),
                    w,
                    viewport_row as int,
                    frame_line(*frame, viewport_row as int),
                    normal_attr,
                ));
            }
            viewport_row = viewport_row + 1;
        }
        assert(frame_shown(cache.cells_view(), w, viewport_rows as nat, *frame, normal_attr));
        assert(sink.writes() =~= w0 + (restore_writes(start_cache.cursor_view(), viewport_rows) + rows_writes(
            start_cache.cells_view(),
            w,
            *frame,
            normal_attr,
            viewport_rows as nat,
        )));
    }
    let ghost part1 = if need_full_redraw {
        full_rows_writes(cols, viewport_rows as nat)
    } else {
        restore_writes(start_cache.cursor_view(), viewport_rows) + rows_writes(
            start_cache.cells_view(),
            w,
            *frame,
            normal_attr,
            viewport_rows as nat,
        )
    };
    assert(sink.writes() == w0 + part1);
    let ghost w1 = sink.writes();
    let status_row = rows.saturating_sub(1);
    let status_changed = !same_bytes(&frame.status, &cache.status_line);
    let ghost grid_ready = need_full_redraw || (sink_shows_frame(
        *old(sink),
        old(cache).cells_view(),
        cols as nat,
        rows as nat,
        old(cache).cursor_view(),
        normal_attr,
    ) && (old(cache).cursor_view() matches Some(p) ==> p.1 < viewport_rows));
    proof {
        if grid_ready && !need_full_redraw {
            assert(sink_grid_shows(*sink, cache.cells_view(), w, h));
        }
    }
    if rows > 0 && (need_full_redraw || status_changed) {
        let ghost before = cache.cells_view();
        let ghost before_sink = *sink;
        render_status_line(sink, &frame.status, cache, status_row, bold_attr, &mut stats, render_stats);
        proof {
            if grid_ready {
                assert forall|r: int| 0 <= r < h implies #[trigger] sink_row_shows(
                    *sink,
                    cache.cells_view(),
                    w,
                    r,
                ) by {
                    if r != status_row {
                        if need_full_redraw {
                            assert(sink_row_shows(before_sink, before, w, r));
                        } else {
                            assert(sink_row_shows(before_sink, before, w, r));
                        }
                        lemma_row_kept(before_sink, *sink, before, cache.cells_view(), w, h, status_row as int, r);
                    }
                }
            }
            assert forall|r: int| 0 <= r < viewport_rows implies #[trigger] row_shows(
                cache.cells_view(),
                w,
                r,
                frame_line(*frame, r),
                normal_attr,
            ) by {
                assert(row_shows(before, w, r, frame_line(*frame, r), normal_attr));
                assert forall|c: int| 0 <= c < w implies #[trigger] grid_cell(cache.cells_view(), w, c, r)
                    == line_cell(frame_line(*frame, r), c, normal_attr) by {
                    assert(grid_cell(before, w, c, r) == line_cell(frame_line(*frame, r), c, normal_attr));
                }
            }
        }
    }
    proof {
        if grid_ready {
            assert(sink_grid_shows(*sink, cache.cells_view(), w, h));
        }
    }
    let ghost part2 = if rows > 0 && (need_full_redraw || status_changed) {
        span_writes(0, (rows - 1) as usize, cols)
    } else {
        Seq::<SinkWrite>::empty()
    };
    assert(sink.writes() =~= w1 + part2);
    cache.status_line = copy_bytes(&frame.status);
    let ghost drawn = *sink;
    match cursor_pos {
        Some((cursor_col, cursor_row)) => {
            sink.draw_cursor(cursor_col, cursor_row, normal_attr);
            cache.cursor_pos = Some((cursor_col, cursor_row));
            stats.record_cursor_redraw();
            record_char_draw(render_stats);
        },
        None => {
            cache.cursor_pos = None;
        },
    }
    proof {
        if grid_ready {
            assert forall|c: int, r: int| 0 <= c < w && 0 <= r < h implies #[trigger] cell_seen(
                *sink,
                cache.cells_view(),
                w,
                cache.cursor_view(),
                normal_attr,
                c,
                r,
            ) by {
                assert(sink_row_shows(drawn, cache.cells_view(), w, r));
                assert(displays(drawn, c, r, grid_cell(cache.cells_view(), w, c, r)));
            }
        }
    }
    proof {
        assert(sink.writes() =~= w0 + part1 + part2 + cursor_writes(cursor_pos));
        if !need_full_redraw && !status_changed && frame_shown(
            start_cache.cells_view(),
            w,
            viewport_rows as nat,
            *frame,
            normal_attr,
        ) {
            lemma_rows_writes_none(start_cache.cells_view(), w, *frame, normal_attr, viewport_rows as nat);
            assert(part1 =~= restore_writes(start_cache.cursor_view(), viewport_rows));
        }
    }
    frame_end(render_stats, 0);
    stats
}

} // verus!
