//! The bare-metal editor's own part: the viewport that follows the cursor,
//! the status line, and what to do with each outcome of the editing core.
//!
//! The editing core (modes, buffer, cursor, keys) is a component of its
//! own; the editor hands it each key and reports its outcome here. The
//! answer says what to do next: nothing, quit, mark the buffer saved, or
//! save it through the filesystem, whose result comes back here too.

use vstd::prelude::*;
use crate::text::owned;

verus! {

/// The editing core's modes.
#[derive(Debug, Clone, Copy, PartialEq, Eq, Structural)]
pub enum EditorMode {
    Normal,
    Insert,
    Command,
    Search,
}

/// A position in the buffer, or in the viewport.
#[derive(Debug, Clone, Copy, PartialEq, Eq, Structural)]
pub struct Position {
    pub row: usize,
    pub col: usize,
}

impl Position {
    /// The position at a row and column.
    pub fn new(row: usize, col: usize) -> (r: Self)
        ensures
            r == (Position { row, col }),
    {
        Position { row, col }
    }
}

/// What the core asks of the filesystem.
#[derive(Debug, Clone, PartialEq, Eq)]
pub enum CoreIoRequest {
    /// Save to the document's file.
    Save,
    /// Save to a path.
    SaveAs(String),
    /// Save, then quit.
    SaveAndQuit,
}

/// What a key did to the core.
#[derive(Debug, Clone, PartialEq, Eq)]
pub enum CoreOutcome {
    /// Nothing to show.
    Continue,
    /// The buffer or the cursor changed.
    Changed,
    /// The core asks to leave the editor.
    RequestExit,
    /// The core has a message for the status line.
    StatusMessage(String),
    /// The core asks for a filesystem operation.
    RequestIo(CoreIoRequest),
}

/// What the editor does after an outcome.
#[derive(Debug, Clone, PartialEq, Eq)]
pub enum EditorStep {
    /// Go on editing.
    Continue,
    /// Leave the editor.
    Quit,
    /// Mark the core's buffer saved and go on.
    MarkSaved,
    /// Save the buffer to the document's file, and report the result.
    Save,
    /// Save the buffer to a path, and report the result.
    SaveAs(String),
    /// Save the buffer to the document's file, then leave.
    SaveThenQuit,
}

/// The first row to show so that the cursor's row is in view: unchanged
/// while it is, the cursor's row when it is above, the row that puts the
/// cursor on the last line when it is below.
pub open spec fn scrolled(scroll: nat, rows: nat, cursor_row: nat) -> nat {
    if cursor_row < scroll {
        cursor_row
    } else if cursor_row >= scroll + rows {
        if cursor_row >= rows - 1 {
            (cursor_row - (rows - 1)) as nat
        } else {
            0
        }
    } else {
        scroll
    }
}

/// The status line's default: the mode.
pub open spec fn mode_text(mode: EditorMode) -> Seq<char> {
    match mode {
        EditorMode::Normal => "-- NORMAL --"@,
        EditorMode::Insert => "-- INSERT --"@,
        EditorMode::Command => "-- COMMAND --"@,
        EditorMode::Search => "-- SEARCH --"@,
    }
}

/// The editor's own state: the viewport's height, its first row, its
/// status message, whether a filesystem is at hand and whether the buffer
/// belongs to a document.
pub struct MinimalEditor {
    viewport_rows: usize,
    scroll_offset: usize,
    status: String,
    has_io: bool,
    has_document: bool,
}

/// The editor as plain values.
pub struct EditorView {
    pub viewport_rows: nat,
    pub scroll_offset: nat,
    pub status: Seq<char>,
    pub has_io: bool,
    pub has_document: bool,
}

impl View for MinimalEditor {
    type V = EditorView;

    closed spec fn view(&self) -> EditorView {
        EditorView {
            viewport_rows: self.viewport_rows as nat,
            scroll_offset: self.scroll_offset as nat,
            status: self.status@,
            has_io: self.has_io,
            has_document: self.has_document,
        }
    }
}

/// The text "Filesystem unavailable".
pub open spec fn fs_unavailable() -> Seq<char> {
    "Filesystem unavailable"@
}

/// What the editor does after an outcome, and its status after: a change
/// moves the viewport, an exit leaves, a message is shown, and a
/// filesystem request is sent on when a filesystem is at hand (a save
/// without a document cannot be), or answered "Filesystem unavailable".
pub open spec fn outcome_step(v: EditorView, outcome: CoreOutcome, cursor_row: nat) -> (EditorView, EditorStep) {
    let cleared = EditorView { status: Seq::empty(), ..v };
    match outcome {
        CoreOutcome::Continue => (cleared, EditorStep::Continue),
        CoreOutcome::Changed => (
            EditorView { scroll_offset: scrolled(v.scroll_offset, v.viewport_rows, cursor_row), ..cleared },
            EditorStep::Continue,
        ),
        CoreOutcome::RequestExit => (cleared, EditorStep::Quit),
        CoreOutcome::StatusMessage(m) => (EditorView { status: m@, ..cleared }, EditorStep::Continue),
        CoreOutcome::RequestIo(req) => if v.has_io {
            match req {
                CoreIoRequest::Save => if v.has_document {
                    (cleared, EditorStep::Save)
                } else {
                    (EditorView { status: "Error: no file path (use :w <path>)"@, ..cleared }, EditorStep::Continue)
                },
                CoreIoRequest::SaveAs(p) => (cleared, EditorStep::SaveAs(p)),
                CoreIoRequest::SaveAndQuit => if v.has_document {
                    (cleared, EditorStep::SaveThenQuit)
                } else {
                    (cleared, EditorStep::Quit)
                },
            }
        } else {
            match req {
                CoreIoRequest::SaveAndQuit => (EditorView { status: fs_unavailable(), ..cleared }, EditorStep::Quit),
                _ => (EditorView { status: fs_unavailable(), ..cleared }, EditorStep::MarkSaved),
            }
        },
    }
}

impl MinimalEditor {
    /// An editor with a viewport of `viewport_rows` rows at the top of the
    /// buffer, no status, and no filesystem.
    pub fn new(viewport_rows: usize) -> (r: Self)
        ensures
            r@ == (EditorView {
                viewport_rows: viewport_rows as nat,
                scroll_offset: 0,
                status: Seq::empty(),
                has_io: false,
                has_document: false,
            }),
    {
        MinimalEditor { viewport_rows, scroll_offset: 0, status: String::new(), has_io: false, has_document: false }
    }

    /// Gives the editor a filesystem, and says whether the buffer belongs
    /// to a document.
    pub fn set_editor_io(&mut self, has_document: bool)
        ensures
            final(self)@ == (EditorView { has_io: true, has_document, ..old(self)@ }),
    {
        self.has_io = true;
        self.has_document = has_document;
    }

    /// The viewport's height.
    pub fn viewport_rows(&self) -> (r: usize)
        ensures
            r == self@.viewport_rows,
    {
        self.viewport_rows
    }

    /// The first row shown.
    pub fn scroll_offset(&self) -> (r: usize)
        ensures
            r == self@.scroll_offset,
    {
        self.scroll_offset
    }

    /// The status line: the editor's message, else the core's, else the
    /// mode.
    pub fn status_line<'a>(&'a self, core_status: &'a str, mode: EditorMode) -> (r: &'a str)
        ensures
            self@.status.len() > 0 ==> r@ == self@.status,
            self@.status.len() == 0 && core_status@.len() > 0 ==> r@ == core_status@,
            self@.status.len() == 0 && core_status@.len() == 0 ==> r@ == mode_text(mode),
    {
        if self.status.as_str().unicode_len() > 0 {
            return self.status.as_str();
        }
        if core_status.unicode_len() > 0 {
            return core_status;
        }
        match mode {
            EditorMode::Normal => "-- NORMAL --",
            EditorMode::Insert => "-- INSERT --",
            EditorMode::Command => "-- COMMAND --",
            EditorMode::Search => "-- SEARCH --",
        }
    }

    /// Keeps the cursor's row in view.
    fn adjust_viewport(&mut self, cursor_row: usize)
        requires
            old(self)@.viewport_rows > 0,
            old(self)@.scroll_offset + old(self)@.viewport_rows <= usize::MAX,
        ensures
            final(self)@ == (EditorView {
                scroll_offset: scrolled(old(self)@.scroll_offset, old(self)@.viewport_rows, cursor_row as nat),
                ..old(self)@
            }),
    {
        if cursor_row < self.scroll_offset {
            self.scroll_offset = cursor_row;
        } else if cursor_row >= self.scroll_offset + self.viewport_rows {
            self.scroll_offset = cursor_row.saturating_sub(self.viewport_rows - 1);
        }
    }

    /// Takes the core's outcome of a key: clears the status, then moves
    /// the viewport, leaves, shows a message, or sends a filesystem request
    /// on.
    pub fn on_outcome(&mut self, outcome: CoreOutcome, cursor_row: usize) -> (r: EditorStep)
        requires
            outcome is Changed ==> old(self)@.viewport_rows > 0 && old(self)@.scroll_offset
                + old(self)@.viewport_rows <= usize::MAX,
        ensures
            (final(self)@, r) == outcome_step(old(self)@, outcome, cursor_row as nat),
    {
        self.status = String::new();
        match outcome {
            CoreOutcome::Continue => EditorStep::Continue,
            CoreOutcome::Changed => {
                self.adjust_viewport(cursor_row);
                EditorStep::Continue
            },
            CoreOutcome::RequestExit => EditorStep::Quit,
            CoreOutcome::StatusMessage(m) => {
                self.status = m;
                EditorStep::Continue
            },
            CoreOutcome::RequestIo(req) => {
                if self.has_io {
                    match req {
                        CoreIoRequest::Save => {
                            if self.has_document {
                                EditorStep::Save
                            } else {
                                self.status = owned("Error: no file path (use :w <path>)");
                                EditorStep::Continue
                            }
                        },
                        CoreIoRequest::SaveAs(p) => EditorStep::SaveAs(p),
                        CoreIoRequest::SaveAndQuit => {
                            if self.has_document {
                                EditorStep::SaveThenQuit
                            } else {
                                EditorStep::Quit
                            }
                        },
                    }
                } else {
                    self.status = owned("Filesystem unavailable");
                    match req {
                        CoreIoRequest::SaveAndQuit => EditorStep::Quit,
                        _ => EditorStep::MarkSaved,
                    }
                }
            },
        }
    }

    /// Takes the result of a save: its message, or a failure. Returns
    /// whether the buffer is now saved.
    pub fn on_saved(&mut self, result: Result<String, ()>) -> (saved: bool)
        ensures
            saved == (result is Ok),
            match result {
                Ok(m) => final(self)@ == (EditorView { status: m@, ..old(self)@ }),
                Err(_) => final(self)@ == (EditorView { status: "Error: failed to save file"@, ..old(self)@ }),
            },
    {
        match result {
            Ok(m) => {
                self.status = m;
                true
            },
            Err(_) => {
                self.status = owned("Error: failed to save file");
                false
            },
        }
    }

    /// Takes the result of a save to a path: its message, or a failure. A
    /// saved buffer belongs to the document at that path from then on.
    /// Returns whether the buffer is now saved.
    pub fn on_saved_as(&mut self, result: Result<String, ()>) -> (saved: bool)
        ensures
            saved == (result is Ok),
            match result {
                Ok(m) => final(self)@ == (EditorView { status: m@, has_document: true, ..old(self)@ }),
                Err(_) => final(self)@ == (EditorView { status: "Error: failed to save file"@, ..old(self)@ }),
            },
    {
        match result {
            Ok(m) => {
                self.status = m;
                self.has_document = true;
                true
            },
            Err(_) => {
                self.status = owned("Error: failed to save file");
                false
            },
        }
    }

    /// The buffer row shown on a viewport row.
    pub fn viewport_buffer_row(&self, viewport_row: usize) -> (r: usize)
        requires
            self@.scroll_offset + viewport_row <= usize::MAX,
        ensures
            r == self@.scroll_offset + viewport_row,
    {
        self.scroll_offset + viewport_row
    }

    /// The cursor's position in the viewport, when its row is in view.
    pub fn get_viewport_cursor(&self, cursor: Position) -> (r: Option<Position>)
        requires
            self@.scroll_offset + self@.viewport_rows <= usize::MAX,
        ensures
            self@.scroll_offset <= cursor.row < self@.scroll_offset + self@.viewport_rows ==> r == Some(
                Position { row: (cursor.row - self@.scroll_offset) as usize, col: cursor.col },
            ),
            !(self@.scroll_offset <= cursor.row < self@.scroll_offset + self@.viewport_rows) ==> r is None,
    {
        if cursor.row >= self.scroll_offset && cursor.row < self.scroll_offset + self.viewport_rows {
            Some(Position::new(cursor.row - self.scroll_offset, cursor.col))
        } else {
            None
        }
    }
}

/// After any change, the cursor's row is in view.
pub proof fn lemma_cursor_in_view(scroll: nat, rows: nat, cursor_row: nat)
    requires
        rows > 0,
    ensures
        scrolled(scroll, rows, cursor_row) <= cursor_row < scrolled(scroll, rows, cursor_row) + rows,
{
}

} // verus!
