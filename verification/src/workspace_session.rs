//! The kernel's workspace session: the command prompt, the CLI line
//! editor, the output log, the command palette overlay, and the workspace
//! commands.
//!
//! The session talks through a serial port that keeps text. What it needs
//! from the rest of the kernel (the editor, the filesystem, the command
//! service) it asks for with a `WorkspaceRequest`; the caller carries the
//! request out and reports back where the session has something to say
//! about the result.

use vstd::prelude::*;
use crate::command_palette::{descriptor_views, has_id, is_first_with_id, strings_view, CommandDescriptor, DescriptorView, CommandFn, CommandId, CommandPalette, CommandResult};
use crate::kernel_console::{command_schema, ChannelId, CommandRequest, MessageId, COMMAND_MAX};
use crate::kernel_input::byte_key;
use crate::output::SerialPort;
use crate::palette_overlay::{handle_palette_key, results_for, FocusTarget, PaletteKeyAction, PaletteOverlayState, MAX_QUERY_LEN};
use vstd::utf8::{decode_utf8, encode_utf8, valid_utf8};
use crate::host_commands::{join_words, split_words, words};
use crate::text::{lemma_split_step, hex_digits, chars_of, eq_str, join, owned, push_hex, push_str, split_on, string_of, sub_chars, trim, trimmed_all, utf8_text};
use vstd::string::StringSliceAdditionalSpecFns;
use crate::workspace::{log_text, ComponentType, OutputLine, OutputLog, OUTPUT_LINE_MAX};

verus! {

/// A palette command that answers with a fixed text.
pub struct FixedReply {
    pub text: &'static str,
}

impl CommandFn for FixedReply {
    open spec fn admits(&self, args: &[String]) -> bool {
        true
    }

    open spec fn runs(&self, args: &[String], r: CommandResult) -> bool {
        r matches Ok(t) && t@ == self.text@
    }

    fn run(&self, args: &[String]) -> (r: CommandResult) {
        Ok(owned(self.text))
    }
}

/// What the session asks of the rest of the kernel.
#[derive(Debug, Clone, PartialEq, Eq)]
pub enum WorkspaceRequest {
    /// Open an editor, on a file when a path is given.
    OpenEditor(Option<String>),
    /// Hand a byte to the open editor.
    EditorInput(u8),
    /// Send a command line to the command service.
    Delegate(String),
    /// Halt the system.
    Halt,
    /// List the files of the filesystem.
    ListFiles,
    /// Show a file.
    ReadFile(String),
    /// Create or update a file with text.
    WriteFile(String, String),
}

/// The outcome of one input byte: whether the session used it, and what
/// it asks for.
#[derive(Debug, Clone, PartialEq, Eq)]
pub struct InputOutcome {
    pub handled: bool,
    pub request: Option<WorkspaceRequest>,
    pub prompt_pending: bool,
}

/// The palette commands that put a prompt on the command line instead of
/// running: the command and its prompt.
pub open spec fn prompt_pattern(id: Seq<char>) -> Option<Seq<char>> {
    if id == "focus"@ {
        Some("focus "@)
    } else if id == "cat"@ {
        Some("cat "@)
    } else if id == "write"@ {
        Some("write "@)
    } else {
        None
    }
}

/// The prompt a palette command puts on the command line, if any.
fn prompt_for(id: &CommandId) -> (r: Option<&'static str>)
    ensures
        match prompt_pattern(id@) {
            Some(p) => r matches Some(s) && s@ == p && printable_chars(p) && p.len() <= COMMAND_MAX,
            None => r is None,
        },
{
    proof {
        reveal_strlit("focus ");
        reveal_strlit("cat ");
        reveal_strlit("write ");
    }
    let c = chars_of(id.as_str());
    if eq_str(&c, "focus") {
        Some("focus ")
    } else if eq_str(&c, "cat") {
        Some("cat ")
    } else if eq_str(&c, "write") {
        Some("write ")
    } else {
        None
    }
}

/// The palette commands that, after their reply, run as a command line
/// of their own name.
pub open spec fn runs_after(id: Seq<char>) -> bool {
    id == "help"@ || id == "list"@ || id == "halt"@ || id == "boot"@ || id == "mem"@ || id == "ticks"@
        || id == "ls"@
}

/// The command line a palette command runs after its reply, if any.
fn command_for(id: &CommandId) -> (r: Option<&'static str>)
    ensures
        runs_after(id@) ==> (r matches Some(s) && s@ == id@ && printable_chars(s@) && s@.len() <= COMMAND_MAX),
        !runs_after(id@) ==> r is None,
{
    proof {
        reveal_strlit("help");
        reveal_strlit("list");
        reveal_strlit("halt");
        reveal_strlit("boot");
        reveal_strlit("mem");
        reveal_strlit("ticks");
        reveal_strlit("ls");
    }
    let c = chars_of(id.as_str());
    if eq_str(&c, "help") {
        Some("help")
    } else if eq_str(&c, "list") {
        Some("list")
    } else if eq_str(&c, "halt") {
        Some("halt")
    } else if eq_str(&c, "boot") {
        Some("boot")
    } else if eq_str(&c, "mem") {
        Some("mem")
    } else if eq_str(&c, "ticks") {
        Some("ticks")
    } else if eq_str(&c, "ls") {
        Some("ls")
    } else {
        None
    }
}

/// The trace lines the session writes for each byte.
pub open spec fn route_trace(b: u8) -> Seq<char> {
    "route_input:\n  key={byte=0x"@ + hex_digits(b as nat) + "}\n  focus_tile={\"Unavailable\"}\n"@
}

/// What a request asks, as plain values.
pub enum RequestView {
    OpenEditor(Option<Seq<char>>),
    EditorInput(u8),
    Delegate(Seq<char>),
    Halt,
    ListFiles,
    ReadFile(Seq<char>),
    WriteFile(Seq<char>, Seq<char>),
}

impl View for WorkspaceRequest {
    type V = RequestView;

    open spec fn view(&self) -> RequestView {
        match self {
            WorkspaceRequest::OpenEditor(p) => RequestView::OpenEditor(
                match p {
                    Some(s) => Some(s@),
                    None => None,
                },
            ),
            WorkspaceRequest::EditorInput(b) => RequestView::EditorInput(*b),
            WorkspaceRequest::Delegate(c) => RequestView::Delegate(c@),
            WorkspaceRequest::Halt => RequestView::Halt,
            WorkspaceRequest::ListFiles => RequestView::ListFiles,
            WorkspaceRequest::ReadFile(p) => RequestView::ReadFile(p@),
            WorkspaceRequest::WriteFile(p, t) => RequestView::WriteFile(p@, t@),
        }
    }
}

/// An optional request, as plain values.
pub open spec fn request_view(r: Option<WorkspaceRequest>) -> Option<RequestView> {
    match r {
        Some(q) => Some(q@),
        None => None,
    }
}

/// Whether a request leaves the prompt to the report that answers it:
/// every request but a halt.
pub open spec fn defers_prompt(r: Option<RequestView>) -> bool {
    r is Some && r != Some(RequestView::Halt)
}

/// The session as plain values.
pub struct SessionView {
    /// The component in front.
    pub active: Option<ComponentType>,
    /// Whether an editor is open.
    pub editor_open: bool,
    /// Whether the CLI is active.
    pub cli_active: bool,
    /// The CLI line typed so far.
    pub cli_text: Seq<u8>,
    /// Where the CLI cursor is in its line.
    pub cli_cursor: nat,
    /// Whether the CLI tip was shown.
    pub hint_shown: bool,
    /// The line typed at the workspace prompt so far.
    pub command_text: Seq<u8>,
    /// The output log's lines, oldest first.
    pub log: Seq<Seq<u8>>,
    /// The palette overlay.
    pub overlay: PaletteOverlayState,
}

/// Printable ASCII bytes: what the command lines hold.
pub open spec fn printable(b: Seq<u8>) -> bool {
    forall|i: int| 0 <= i < b.len() ==> 0x20 <= #[trigger] b[i] < 0x7F
}

/// The characters of ASCII bytes.
pub open spec fn ascii_chars(b: Seq<u8>) -> Seq<char> {
    Seq::new(b.len(), |i: int| b[i] as char)
}

/// The log after lines of text, in order, each logged as `emit_line`
/// logs it.
pub open spec fn log_lines(log: Seq<Seq<u8>>, lines: Seq<Seq<char>>) -> Seq<Seq<u8>>
    decreases lines.len(),
{
    if lines.len() == 0 {
        log
    } else {
        log_text(log_lines(log, lines.drop_last()), split_on(lines.last(), '\n'))
    }
}

/// What writing lines of text puts on the serial port.
pub open spec fn lines_out(lines: Seq<Seq<char>>) -> Seq<char>
    decreases lines.len(),
{
    if lines.len() == 0 {
        Seq::empty()
    } else {
        lines_out(lines.drop_last()) + line_out(lines.last())
    }
}

/// The session after it emitted lines of text.
pub open spec fn emit_all(v: SessionView, lines: Seq<Seq<char>>) -> SessionView {
    SessionView { log: log_lines(v.log, lines), ..v }
}

/// Emitting two runs of lines emits the first, then the second.
pub proof fn lemma_emit_concat(log: Seq<Seq<u8>>, a: Seq<Seq<char>>, b: Seq<Seq<char>>)
    ensures
        log_lines(log, a + b) == log_lines(log_lines(log, a), b),
        lines_out(a + b) == lines_out(a) + lines_out(b),
    decreases b.len(),
{
    if b.len() == 0 {
        assert(a + b =~= a);
        assert(lines_out(a) + lines_out(b) =~= lines_out(a));
    } else {
        lemma_emit_concat(log, a, b.drop_last());
        assert((a + b).drop_last() =~= a + b.drop_last());
        assert((a + b).last() == b.last());
        assert(lines_out(a + b) =~= lines_out(a) + lines_out(b));
    }
}

/// What a command does: the session's new state (its log aside), the
/// lines it emits, and what it asks of the rest of the kernel.
pub struct Run {
    pub state: SessionView,
    pub lines: Seq<Seq<char>>,
    pub request: Option<RequestView>,
}

/// A line cut to the longest log line.
pub open spec fn cap_line(s: Seq<char>) -> Seq<char> {
    if s.len() <= OUTPUT_LINE_MAX {
        s
    } else {
        s.take(OUTPUT_LINE_MAX as int)
    }
}

/// The first line of the CLI's greeting.
pub open spec fn cli_greeting() -> Seq<char> {
    "CLI mode: type commands, `exit` to leave"@
}

/// The CLI's tip, shown once.
pub open spec fn cli_tip() -> Seq<char> {
    "Tip: Ctrl+P opens Commands."@
}

/// The session after the CLI is turned on or off.
pub open spec fn set_cli_state(v: SessionView, active: bool) -> SessionView {
    if active {
        SessionView { cli_active: true, cli_text: Seq::empty(), cli_cursor: 0, hint_shown: true, ..v }
    } else {
        SessionView {
            cli_active: false,
            active: if v.active == Some(ComponentType::Cli) {
                None
            } else {
                v.active
            },
            ..v
        }
    }
}

/// The lines turning the CLI on or off emits.
pub open spec fn set_cli_lines(v: SessionView, active: bool) -> Seq<Seq<char>> {
    if active {
        if v.hint_shown {
            seq![cli_greeting()]
        } else {
            seq![cli_greeting(), cli_tip()]
        }
    } else {
        seq!["Returned to workspace"@]
    }
}

/// The session with an editor in front.
pub open spec fn editor_opened(v: SessionView) -> SessionView {
    SessionView { active: Some(ComponentType::Editor), editor_open: true, ..v }
}

/// The lines of `help`.
pub open spec fn help_lines() -> Seq<Seq<char>> {
    seq![
        "Workspace Commands:"@,
        "help           - Show this help"@,
        "open <what>    - Open editor or CLI"@,
        "list           - List components"@,
        "focus <id>     - Focus component"@,
        "quit           - Exit component"@,
        "halt           - Halt system"@,
        ""@,
        "File Commands:"@,
        "ls             - List files"@,
        "cat <path>     - Show file contents"@,
        "write <path> <text> - Create/update file"@,
        ""@,
        "System Commands:"@,
        "boot           - Show boot info"@,
        "mem            - Show memory info"@,
        "ticks          - Show system ticks"@,
    ]
}

/// The line `list` shows for the component in front.
pub open spec fn component_line(c: Option<ComponentType>) -> Seq<char> {
    match c {
        Some(ComponentType::Editor) => "  - Editor"@,
        Some(ComponentType::Cli) => "  - Cli"@,
        Some(ComponentType::Shell) => "  - Shell"@,
        None => "  (none)"@,
    }
}

/// The line a command that is not known emits.
pub open spec fn unknown_line(cmd: Seq<char>) -> Seq<char> {
    cap_line("Unknown command: "@ + cmd + ". Type 'help' for help."@)
}

/// A run that changes nothing but emits lines.
pub open spec fn says(v: SessionView, lines: Seq<Seq<char>>) -> Run {
    Run { state: v, lines, request: None }
}

/// What the commands after the first word do, the line echoed first.
#[verifier::opaque]
pub open spec fn command_spec(v: SessionView, echo: Seq<Seq<char>>, ws: Seq<Seq<char>>) -> Run
    recommends
        ws.len() > 0,
{
    let first = ws[0];
    if v.cli_active && (first == "exit"@ || first == "quit"@) {
        Run { state: set_cli_state(v, false), lines: echo + set_cli_lines(v, false), request: None }
    } else if first == "help"@ {
        says(v, echo + help_lines())
    } else if first == "open"@ {
        if ws.len() > 1 && ws[1] == "editor"@ {
            Run {
                state: editor_opened(v),
                lines: echo,
                request: Some(
                    RequestView::OpenEditor(
                        if ws.len() > 2 {
                            Some(ws[2])
                        } else {
                            None
                        },
                    ),
                ),
            }
        } else if ws.len() > 1 && ws[1] == "cli"@ {
            let v1 = SessionView { active: Some(ComponentType::Cli), ..v };
            Run { state: set_cli_state(v1, true), lines: echo + set_cli_lines(v1, true), request: None }
        } else {
            says(v, echo + seq!["Usage: open editor [path] | open cli"@])
        }
    } else if first == "list"@ {
        says(v, echo + seq!["Active components:"@, component_line(v.active)])
    } else if first == "focus"@ {
        says(v, echo + seq!["Focus switching unavailable (no console_vga)"@])
    } else if first == "quit"@ {
        if v.active is Some {
            Run {
                state: SessionView { active: None, ..v },
                lines: echo + seq!["Closed component"@],
                request: None,
            }
        } else {
            says(v, echo + seq!["No active component (use 'halt' to stop)"@])
        }
    } else if first == "editor"@ {
        Run {
            state: editor_opened(v),
            lines: echo,
            request: Some(
                RequestView::OpenEditor(
                    if ws.len() > 1 {
                        Some(ws[1])
                    } else {
                        None
                    },
                ),
            ),
        }
    } else if first == "halt"@ {
        Run { state: v, lines: echo + seq!["Halting system..."@], request: Some(RequestView::Halt) }
    } else if first == "boot"@ || first == "mem"@ || first == "ticks"@ {
        Run { state: v, lines: echo, request: Some(RequestView::Delegate(first)) }
    } else if first == "ls"@ {
        Run { state: v, lines: echo, request: Some(RequestView::ListFiles) }
    } else if first == "cat"@ {
        if ws.len() > 1 {
            Run { state: v, lines: echo, request: Some(RequestView::ReadFile(ws[1])) }
        } else {
            says(v, echo + seq!["Usage: cat <path>"@])
        }
    } else if first == "write"@ {
        if ws.len() > 1 {
            Run {
                state: v,
                lines: echo,
                request: Some(RequestView::WriteFile(ws[1], join(ws.skip(2), " "@))),
            }
        } else {
            says(v, echo + seq!["Usage: write <path> <text>"@])
        }
    } else {
        says(v, echo + seq![unknown_line(first)])
    }
}

/// A command changes neither the overlay, nor the prompt's line, nor the
/// log (which its lines extend afterwards).
pub proof fn lemma_command_frame(v: SessionView, echo: Seq<Seq<char>>, ws: Seq<Seq<char>>)
    requires
        ws.len() > 0,
    ensures
        command_spec(v, echo, ws).state.overlay == v.overlay,
        command_spec(v, echo, ws).state.command_text == v.command_text,
        command_spec(v, echo, ws).state.log == v.log,
{
    reveal(command_spec);
}

/// Running a line at the workspace prompt changes neither the overlay, nor
/// the prompt's line, nor the log (which its lines extend afterwards).
pub proof fn lemma_exec_frame(v: SessionView)
    ensures
        exec_spec(v).state.overlay == v.overlay,
        exec_spec(v).state.command_text == v.command_text,
        exec_spec(v).state.log == v.log,
{
    let cmd = trim(ascii_chars(v.command_text));
    if cmd.len() > 0 && words(cmd).len() > 0 {
        lemma_command_frame(v, seq![cap_line(prompt_text(v.cli_active) + cmd)], words(cmd));
    }
}

/// What running a command line does: nothing for a line without words;
/// otherwise the line is echoed after the prompt, then the command of its
/// first word runs.
pub open spec fn run_spec(v: SessionView, cmd: Seq<char>) -> Run {
    let ws = words(cmd);
    if ws.len() == 0 {
        says(v, Seq::empty())
    } else {
        command_spec(v, seq![cap_line(prompt_text(v.cli_active) + cmd)], ws)
    }
}

/// What running the line typed at the workspace prompt does.
pub open spec fn exec_spec(v: SessionView) -> Run {
    let cmd = trim(ascii_chars(v.command_text));
    if cmd.len() == 0 {
        says(v, Seq::empty())
    } else {
        run_spec(v, cmd)
    }
}

/// What running the line typed at the workspace prompt writes: the lines,
/// then the prompt unless a request is pending.
pub open spec fn exec_out(v: SessionView) -> Seq<char> {
    let r = exec_spec(v);
    lines_out(r.lines) + if r.request is None {
        prompt_text(r.state.cli_active)
    } else {
        Seq::empty()
    }
}

/// What running the CLI line does; the CLI line is emptied after.
pub open spec fn cli_enter_spec(v: SessionView) -> Run {
    let cmd = trim(ascii_chars(v.cli_text));
    let r = if cmd.len() == 0 {
        says(v, Seq::empty())
    } else {
        run_spec(v, cmd)
    };
    Run { state: SessionView { cli_text: Seq::empty(), cli_cursor: 0, ..r.state }, lines: r.lines, request: r.request }
}

/// What one input byte does: the session's new state, what is written
/// after the trace, whether the byte was used, what is asked, and whether
/// the prompt is left to the report that answers the request.
pub struct Step {
    pub state: SessionView,
    pub out: Seq<char>,
    pub handled: bool,
    pub request: Option<RequestView>,
    pub prompt_pending: bool,
}

/// A step that asks nothing.
pub open spec fn done(state: SessionView, out: Seq<char>, handled: bool) -> Step {
    Step { state, out, handled, request: None, prompt_pending: false }
}

/// What the session writes after a run at the workspace prompt.
pub open spec fn prompt_after(r: Run) -> Seq<char> {
    if r.request is None {
        prompt_text(r.state.cli_active)
    } else {
        Seq::empty()
    }
}

/// A byte typed at the workspace prompt: Enter runs the line and empties
/// it, Backspace drops its last byte, a printable byte is added while the
/// line has room; other bytes are not used.
pub open spec fn prompt_step(v: SessionView, byte: u8) -> Step {
    if byte == 0x0D || byte == 0x0A {
        let e = exec_spec(v);
        Step {
            state: SessionView { command_text: Seq::empty(), ..emit_all(e.state, e.lines) },
            out: "\r\n"@ + exec_out(v),
            handled: true,
            request: e.request,
            prompt_pending: defers_prompt(e.request),
        }
    } else if byte == 0x08 || byte == 0x7F {
        if v.command_text.len() > 0 {
            done(SessionView { command_text: v.command_text.drop_last(), ..v }, "\x08 \x08"@, true)
        } else {
            done(v, Seq::empty(), true)
        }
    } else if 0x20 <= byte < 0x7F {
        if v.command_text.len() < COMMAND_MAX {
            done(SessionView { command_text: v.command_text.push(byte), ..v }, seq![byte as char], true)
        } else {
            done(v, Seq::empty(), true)
        }
    } else {
        done(v, Seq::empty(), false)
    }
}

/// A byte typed in the CLI: Enter runs the line, Escape leaves the CLI,
/// Backspace deletes before the cursor, a printable byte is inserted at
/// the cursor while the line has room, the arrows are taken and ignored;
/// other bytes are not used.
pub open spec fn cli_step(v: SessionView, byte: u8) -> Step {
    if byte == 0x0D || byte == 0x0A {
        let c = cli_enter_spec(v);
        Step {
            state: emit_all(c.state, c.lines),
            out: "\r\n"@ + lines_out(c.lines) + if c.state.cli_active && c.request is None {
                prompt_text(true)
            } else {
                Seq::empty()
            },
            handled: true,
            request: c.request,
            prompt_pending: c.state.cli_active && defers_prompt(c.request),
        }
    } else if byte == 0x1B {
        let l = set_cli_lines(v, false);
        done(emit_all(set_cli_state(v, false), l), "\r\n"@ + lines_out(l) + prompt_text(false), true)
    } else if byte == 0x08 || byte == 0x7F {
        if v.cli_cursor > 0 && v.cli_text.len() > 0 {
            done(
                SessionView {
                    cli_text: v.cli_text.take(v.cli_cursor - 1) + v.cli_text.skip(v.cli_cursor as int),
                    cli_cursor: (v.cli_cursor - 1) as nat,
                    ..v
                },
                "\x08 \x08"@,
                true,
            )
        } else {
            done(v, Seq::empty(), true)
        }
    } else if byte == 0x80 || byte == 0x81 {
        done(v, Seq::empty(), true)
    } else if 0x20 <= byte < 0x7F {
        if v.cli_text.len() < COMMAND_MAX {
            done(
                SessionView {
                    cli_text: v.cli_text.take(v.cli_cursor as int).push(byte) + v.cli_text.skip(v.cli_cursor as int),
                    cli_cursor: v.cli_cursor + 1,
                    ..v
                },
                seq![byte as char],
                true,
            )
        } else {
            done(v, Seq::empty(), true)
        }
    } else {
        done(v, Seq::empty(), false)
    }
}

/// The overlay after it closed: empty and shut, with the focus it had.
pub open spec fn closed_from(after: PaletteOverlayState, before: PaletteOverlayState) -> bool {
    &&& !after.open
    &&& after.query@.len() == 0
    &&& after.results@.len() == 0
    &&& after.selection_index == 0
    &&& after.prev_focus == before.prev_focus
}

/// The step changes the overlay only.
pub open spec fn overlay_only(s: Step, v: SessionView) -> bool {
    s.state == (SessionView { overlay: s.state.overlay, ..v })
}

/// Where focus returns when the palette closes.
pub open spec fn focus_of(v: SessionView) -> FocusTarget {
    if v.active == Some(ComponentType::Editor) {
        FocusTarget::Editor
    } else {
        FocusTarget::Cli
    }
}

/// Ctrl+P with the palette closed: the palette opens on every command,
/// remembering where focus was.
pub open spec fn open_step_ok(v: SessionView, palette: CommandPalette, s: Step) -> bool {
    &&& s.out == "  action=open_palette\n"@
    &&& s.handled
    &&& s.request is None
    &&& !s.prompt_pending
    &&& overlay_only(s, v)
    &&& s.state.overlay.open
    &&& s.state.overlay.prev_focus == focus_of(v)
    &&& s.state.overlay.query@.len() == 0
    &&& results_for(palette, Seq::empty(), s.state.overlay.results_view())
}

/// A palette command ran: the session's own commands act on the session,
/// the prompting ones fill the command line, the others run through the
/// palette and log its reply, and some of them then run as a command
/// line; the palette closes.
pub open spec fn execute_step_ok(v: SessionView, palette: CommandPalette, id: Seq<char>, head: Seq<char>, s: Step) -> bool {
    &&& s.handled
    &&& closed_from(s.state.overlay, v.overlay)
    &&& if id == "open_editor"@ {
        &&& s.out == head
        &&& s.request == Some(RequestView::OpenEditor(None))
        &&& !s.prompt_pending
        &&& s.state == (SessionView { overlay: s.state.overlay, ..editor_opened(v) })
    } else if id == "open_cli"@ {
        let v1 = SessionView { active: Some(ComponentType::Cli), ..v };
        let l = set_cli_lines(v1, true);
        &&& s.out == head + lines_out(l)
        &&& s.request is None
        &&& !s.prompt_pending
        &&& s.state == (SessionView { overlay: s.state.overlay, ..emit_all(set_cli_state(v1, true), l) })
    } else if id == "quit"@ {
        let l = seq!["Closed component"@];
        &&& s.out == head + lines_out(l)
        &&& s.request is None
        &&& !s.prompt_pending
        &&& s.state == (SessionView { overlay: s.state.overlay, ..emit_all(SessionView { active: None, ..v }, l) })
    } else if prompt_pattern(id) is Some {
        &&& s.out == head
        &&& s.request is None
        &&& !s.prompt_pending
        &&& s.state == (SessionView {
            overlay: s.state.overlay,
            command_text: ascii_bytes(prompt_pattern(id)->0),
            ..v
        })
    } else {
        exists|msg: Seq<char>, ok: bool| #[trigger] palette_ran(v, id, head, s, msg, ok) && exists|r: CommandResult|
            #[trigger] reply_is(r, msg, ok) && palette_reply(palette, id, r)
    }
}

/// A command's result as the session tells it: the text, and whether it
/// is a success.
pub open spec fn reply_is(r: CommandResult, msg: Seq<char>, ok: bool) -> bool {
    match r {
        Ok(m) => ok && m@ == msg,
        Err(e) => !ok && e@ == msg,
    }
}

/// What the palette answers when the command with the id runs with no
/// arguments: not found, disabled, or what the first command with the id
/// runs to.
pub open spec fn palette_reply(palette: CommandPalette, id: Seq<char>, r: CommandResult) -> bool {
    &&& !has_id(palette.commands(), id) ==> (r matches Err(m) && m@ == "Command not found: "@ + id)
    &&& forall|i: int| is_first_with_id(palette.commands(), id, i) && !palette.commands()[i].enabled ==> (r matches Err(
        m,
    ) && m@ == "Command is disabled"@)
    &&& forall|i: int|
        is_first_with_id(palette.commands(), id, i) && palette.commands()[i].enabled ==> exists|a: &[String]|
            a@.len() == 0 && #[trigger] palette.handler_runs(i, a, r)
}

/// A palette command ran through the palette, which answered `msg`
/// (`ok` tells a success from an error).
pub open spec fn palette_ran(v: SessionView, id: Seq<char>, head: Seq<char>, s: Step, msg: Seq<char>, ok: bool) -> bool {
    let v1 = emit_view(v, msg);
    let said = head + (if ok {
        "  palette_result=success msg="@
    } else {
        "  palette_result=error err="@
    }) + msg + "\n"@;
    if runs_after(id) {
        let v2 = SessionView { command_text: ascii_bytes(id), ..v1 };
        let e = exec_spec(v2);
        &&& s.out == said + exec_out(v2)
        &&& s.request == e.request
        &&& s.prompt_pending == defers_prompt(e.request)
        &&& s.state == (SessionView { overlay: s.state.overlay, ..emit_all(e.state, e.lines) })
    } else {
        &&& s.out == said
        &&& s.request is None
        &&& !s.prompt_pending
        &&& s.state == (SessionView { overlay: s.state.overlay, ..v1 })
    }
}

/// A byte with the palette open: bytes without a key are taken and
/// ignored, Escape closes the palette, Enter runs the selected command,
/// editing keys edit the query; other keys are not used.
pub open spec fn palette_step_ok(v: SessionView, palette: CommandPalette, byte: u8, s: Step) -> bool {
    let pre = "  action=palette_input\n"@;
    if byte_key(byte) is None {
        s == done(v, pre + "  palette_action=unknown_byte\n"@, true)
    } else if byte == 0x1B {
        &&& s.out == pre + "  palette_action=close\n"@
        &&& s.handled
        &&& s.request is None
        &&& !s.prompt_pending
        &&& overlay_only(s, v)
        &&& closed_from(s.state.overlay, v.overlay)
    } else if byte == 0x0A || byte == 0x0D {
        if v.overlay.selection_index < v.overlay.results@.len() {
            let id = v.overlay.results@[v.overlay.selection_index as int].id@;
            execute_step_ok(v, palette, id, pre + "  palette_action=execute cmd="@ + id + "\n"@, s)
        } else {
            s == done(v, pre + "  palette_action=none\n"@, false)
        }
    } else if byte == 0x08 || byte == 0x7F || (0x20 <= byte < 0x7F) {
        &&& s.out == pre + "  palette_action=consumed\n"@
        &&& s.handled
        &&& s.request is None
        &&& !s.prompt_pending
        &&& overlay_only(s, v)
        &&& ((byte == 0x08 || byte == 0x7F) && v.overlay.query@.len() > 0 ==> s.state.overlay.query@
            == v.overlay.query@.drop_last())
        &&& ((0x20 <= byte < 0x7F) && (encode_utf8(v.overlay.query@).len() as usize) < MAX_QUERY_LEN
            ==> s.state.overlay.query@ == v.overlay.query@.push(byte as char))
    } else {
        s == done(v, pre + "  palette_action=none\n"@, false)
    }
}

/// What one input byte does, after the trace: the palette shortcut, the
/// open palette, the editor in front, the CLI, or the workspace prompt,
/// in that order.
pub open spec fn input_ok(v: SessionView, palette: CommandPalette, byte: u8, s: Step) -> bool {
    if byte == 0x10 && !v.overlay.open {
        open_step_ok(v, palette, s)
    } else if v.overlay.open {
        palette_step_ok(v, palette, byte, s)
    } else if v.active == Some(ComponentType::Editor) && v.editor_open {
        s == (Step {
            state: v,
            out: Seq::empty(),
            handled: true,
            request: Some(RequestView::EditorInput(byte)),
            prompt_pending: false,
        })
    } else if v.cli_active {
        s == cli_step(v, byte)
    } else {
        s == prompt_step(v, byte)
    }
}

/// What was written after a point.
pub open spec fn written(before: Seq<char>, after: Seq<char>) -> Seq<char> {
    after.skip(before.len() as int)
}

/// The step an input byte took, as read off the session, the port and the
/// outcome.
pub open spec fn step_of(state: SessionView, before: Seq<char>, after: Seq<char>, r: InputOutcome) -> Step {
    Step {
        state,
        out: written(before, after),
        handled: r.handled,
        request: request_view(r.request),
        prompt_pending: r.prompt_pending,
    }
}

/// The session.
pub struct WorkspaceSession {
    active_component: Option<ComponentType>,
    editor_open: bool,
    command_channel: ChannelId,
    response_channel: ChannelId,
    command_buffer: Vec<u8>,
    command_len: usize,
    output: OutputLog,
    palette_overlay: PaletteOverlayState,
    command_palette: CommandPalette,
    cli_active: bool,
    cli_buffer: Vec<u8>,
    cli_len: usize,
    cli_cursor: usize,
    cli_hint_shown: bool,
}

impl View for WorkspaceSession {
    type V = SessionView;

    closed spec fn view(&self) -> SessionView {
        SessionView {
            active: self.active_component,
            editor_open: self.editor_open,
            cli_active: self.cli_active,
            cli_text: self.cli_buffer@.take(self.cli_len as int),
            cli_cursor: self.cli_cursor as nat,
            hint_shown: self.cli_hint_shown,
            command_text: self.command_buffer@.take(self.command_len as int),
            log: self.output.lines_view(),
            overlay: self.palette_overlay,
        }
    }
}

/// The characters of `a` followed by those of `b`.
fn append_chars(a: &mut Vec<char>, b: &Vec<char>)
    ensures
        final(a)@ == old(a)@ + b@,
{
    let mut i: usize = 0;
    while i < b.len()
        invariant
            i <= b@.len(),
            a@ == old(a)@ + b@.take(i as int),
        decreases b@.len() - i,
    {
        a.push(b[i]);
        assert(b@.take(i + 1) == b@.take(i as int).push(b@[i as int]));
        i = i + 1;
    }
    assert(b@.take(b@.len() as int) == b@);
}

/// A line of text, cut to the longest log line.
fn line_string(v: &Vec<char>) -> (r: String)
    ensures
        r@ == cap_line(v@),
{
    if v.len() <= OUTPUT_LINE_MAX {
        string_of(v)
    } else {
        let w = sub_chars(v, 0, OUTPUT_LINE_MAX);
        assert(w@ == v@.take(OUTPUT_LINE_MAX as int));
        string_of(&w)
    }
}

/// The characters of ASCII bytes.
fn ascii_text(bytes: &[u8]) -> (r: Vec<char>)
    ensures
        r@ == ascii_chars(bytes@),
{
    let mut r: Vec<char> = Vec::new();
    let mut i: usize = 0;
    while i < bytes.len()
        invariant
            i <= bytes@.len(),
            r@ == ascii_chars(bytes@.take(i as int)),
        decreases bytes@.len() - i,
    {
        r.push(bytes[i] as char);
        assert(ascii_chars(bytes@.take(i + 1)) =~= ascii_chars(bytes@.take(i as int)).push(bytes@[i as int] as char));
        i = i + 1;
    }
    assert(bytes@.take(bytes@.len() as int) =~= bytes@);
    r
}

/// Printable ASCII characters.
pub open spec fn printable_chars(s: Seq<char>) -> bool {
    forall|i: int| 0 <= i < s.len() ==> ' ' <= #[trigger] s[i] <= '~'
}

/// The bytes of ASCII characters.
pub open spec fn ascii_bytes(s: Seq<char>) -> Seq<u8> {
    Seq::new(s.len(), |i: int| s[i] as u8)
}

/// Printable ASCII text is encoded one byte per character.
proof fn lemma_ascii_bytes(s: &str)
    requires
        printable_chars(s@),
    ensures
        s.spec_bytes() == ascii_bytes(s@),
        printable(s.spec_bytes()),
        ascii_chars(ascii_bytes(s@)) == s@,
{
    assert(vstd::string::is_ascii(s));
    vstd::string::is_ascii_spec_bytes(s);
    assert(s.spec_bytes() =~= ascii_bytes(s@));
    assert(ascii_chars(ascii_bytes(s@)) =~= s@);
}

/// Two tags.
fn tags2(a: &str, b: &str) -> (r: Vec<String>)
    ensures
        strings_view(r@) == seq![a@, b@],
        r@.len() == 2,
{
    let mut v: Vec<String> = Vec::new();
    v.push(owned(a));
    v.push(owned(b));
    assert(strings_view(v@) =~= seq![a@, b@]);
    v
}

/// Three tags.
fn tags3(a: &str, b: &str, c: &str) -> (r: Vec<String>)
    ensures
        strings_view(r@) == seq![a@, b@, c@],
        r@.len() == 3,
{
    let mut v: Vec<String> = Vec::new();
    v.push(owned(a));
    v.push(owned(b));
    v.push(owned(c));
    assert(strings_view(v@) =~= seq![a@, b@, c@]);
    v
}

/// The view of an enabled command without a capability requirement.
pub open spec fn command_view(id: Seq<char>, name: Seq<char>, description: Seq<char>, tags: Seq<Seq<char>>) -> DescriptorView {
    DescriptorView { id, name, description, tags, required_capability: None, enabled: true }
}

/// What a command answering with fixed text may answer: that text.
pub open spec fn fixed_reply(r: CommandResult, text: Seq<char>) -> bool {
    r matches Ok(t) && t@ == text
}

/// Registers a command that answers with fixed text.
fn register_fixed(
    palette: &mut CommandPalette,
    id: &str,
    name: &str,
    description: &str,
    tags: Vec<String>,
    reply: &'static str,
)
    requires
        tags@.len() <= 3,
    ensures
        final(palette).commands().len() == old(palette).commands().len() + 1,
        descriptor_views(final(palette).commands()) == descriptor_views(old(palette).commands()).push(
            command_view(id@, name@, description@, strings_view(tags@)),
        ),
        forall|i: int, a: &[String], x: CommandResult|
            0 <= i < old(palette).commands().len() ==> #[trigger] final(palette).handler_runs(i, a, x)
                == old(palette).handler_runs(i, a, x),
        forall|a: &[String], x: CommandResult|
            #[trigger] final(palette).handler_runs(old(palette).commands().len() as int, a, x) == fixed_reply(
                x,
                reply@,
            ),
{
    let ghost tv = strings_view(tags@);
    assert(tv.len() == tags@.len());
    let d = CommandDescriptor::new(id, name, description, tags);
    assert(d.tags@.len() == tv.len());
    let h: Box<dyn CommandFn> = Box::new(FixedReply { text: reply });
    palette.register_command(d, h);
    assert(descriptor_views(palette.commands()) =~= descriptor_views(old(palette).commands()).push(
        command_view(id@, name@, description@, tv),
    ));
}

/// A command-line buffer of zeros.
fn zeroed_line() -> (r: Vec<u8>)
    ensures
        r@.len() == COMMAND_MAX,
{
    let mut v: Vec<u8> = Vec::new();
    let mut i: usize = 0;
    while i < COMMAND_MAX
        invariant
            i <= COMMAND_MAX,
            v@.len() == i,
        decreases COMMAND_MAX - i,
    {
        v.push(0u8);
        i = i + 1;
    }
    v
}

/// The workspace's palette commands, in the order they are registered.
pub open spec fn workspace_command_views() -> Seq<DescriptorView> {
    seq![
        command_view("help"@, "Show Help"@, "Display available commands"@, seq!["help"@, "commands"@]),
        command_view("open_editor"@, "Open Editor"@, "Open the text editor"@, seq!["editor"@, "edit"@, "vim"@]),
        command_view("open_cli"@, "Switch to CLI"@, "Switch to the CLI component"@, seq!["cli"@, "console"@, "switch"@]),
        command_view("list"@, "List Components"@, "List active components"@, seq!["list"@, "components"@]),
        command_view("focus"@, "Focus Component"@, "Focus the next component"@, seq!["focus"@, "cycle"@]),
        command_view("quit"@, "Quit"@, "Exit the workspace"@, seq!["exit"@, "close"@, "q"@]),
        command_view("halt"@, "Halt System"@, "Halt the system"@, seq!["halt"@, "shutdown"@]),
        command_view("boot"@, "Show Boot Info"@, "Display boot information"@, seq!["boot"@, "info"@]),
        command_view("mem"@, "Show Memory Info"@, "Display memory information"@, seq!["mem"@, "memory"@]),
        command_view("ticks"@, "Show System Ticks"@, "Display system tick count"@, seq!["ticks"@, "time"@]),
        command_view("ls"@, "List Files"@, "List filesystem entries"@, seq!["ls"@, "files"@]),
        command_view("cat"@, "Show File Contents"@, "Display a file's contents"@, seq!["cat"@, "read"@]),
        command_view("write"@, "Write File"@, "Create or update a file"@, seq!["write"@, "save"@]),
    ]
}

/// What each workspace palette command answers, in the same order.
pub open spec fn workspace_replies() -> Seq<Seq<char>> {
    seq![
        "Available commands: help, open editor, quit"@,
        "Opening editor..."@,
        "Switching to CLI..."@,
        "Listing components..."@,
        "Focus command ready"@,
        "Quitting..."@,
        "Halting..."@,
        "Boot info"@,
        "Memory info"@,
        "System ticks"@,
        "Listing files..."@,
        "Cat command ready"@,
        "Write command ready"@,
    ]
}

/// The prompt shown before a command line.
pub open spec fn prompt_text(cli_active: bool) -> Seq<char> {
    if cli_active {
        "CLI> "@
    } else {
        "WS > "@
    }
}

/// A line written to the serial port: the text and a newline.
pub open spec fn line_out(text: Seq<char>) -> Seq<char> {
    text + "\n"@
}

/// The session after it logged text.
pub open spec fn emit_view(v: SessionView, text: Seq<char>) -> SessionView {
    SessionView { log: log_text(v.log, split_on(text, '\n')), ..v }
}

impl WorkspaceSession {
    /// The channel the session sends command lines on.
    pub closed spec fn command_channel_view(&self) -> ChannelId {
        self.command_channel
    }

    /// The channel answers to the session's command lines come back on.
    pub closed spec fn response_channel_view(&self) -> ChannelId {
        self.response_channel
    }

    /// The channel the session sends command lines on.
    pub fn command_channel(&self) -> (r: ChannelId)
        ensures
            r == self.command_channel_view(),
    {
        self.command_channel
    }

    /// The channel answers to the session's command lines come back on.
    pub fn response_channel(&self) -> (r: ChannelId)
        ensures
            r == self.response_channel_view(),
    {
        self.response_channel
    }

    /// The request that hands a command line to the command service, and
    /// the channel to send it on: the line's bytes cut to `COMMAND_MAX`,
    /// answered on the session's response channel.
    pub fn delegation_request(&self, command: &str, request_id: MessageId) -> (r: Option<(ChannelId, CommandRequest)>)
        ensures
            r matches Some(p) && p.0 == self.command_channel_view() && p.1.bytes() == command.spec_bytes().take(
                if command.spec_bytes().len() < COMMAND_MAX {
                    command.spec_bytes().len() as int
                } else {
                    COMMAND_MAX as int
                },
            ) && p.1.request_id_spec() == request_id && p.1.reply_channel_spec() == self.response_channel_view()
                && p.1.version_spec() == command_schema(),
    {
        let bytes = command.as_bytes();
        let len = if bytes.len() < COMMAND_MAX {
            bytes.len()
        } else {
            COMMAND_MAX
        };
        let mut line: Vec<u8> = Vec::new();
        let mut i: usize = 0;
        while i < len
            invariant
                i <= len,
                len <= bytes@.len(),
                line@ == bytes@.take(i as int),
            decreases len - i,
        {
            line.push(bytes[i]);
            assert(line@ =~= bytes@.take(i + 1));
            i = i + 1;
        }
        match CommandRequest::from_bytes(line.as_slice(), request_id, self.response_channel) {
            Some(request) => Some((self.command_channel, request)),
            None => None,
        }
    }

    /// The palette whose commands the session offers.
    pub closed spec fn palette_state(&self) -> CommandPalette {
        self.command_palette
    }

    /// The buffers hold `COMMAND_MAX` printable bytes at most, the CLI
    /// cursor is in its line, and the log is consistent.
    pub closed spec fn wf(&self) -> bool {
        &&& self.command_buffer@.len() == COMMAND_MAX
        &&& self.cli_buffer@.len() == COMMAND_MAX
        &&& self.command_len <= COMMAND_MAX
        &&& self.cli_len <= COMMAND_MAX
        &&& self.cli_cursor <= self.cli_len
        &&& self.output.wf()
        &&& printable(self.command_buffer@.take(self.command_len as int))
        &&& printable(self.cli_buffer@.take(self.cli_len as int))
    }

    /// What a well-formed session's view holds.
    pub proof fn lemma_view_bounds(&self)
        requires
            self.wf(),
        ensures
            self@.command_text.len() <= COMMAND_MAX,
            self@.cli_text.len() <= COMMAND_MAX,
            self@.cli_cursor <= self@.cli_text.len(),
            printable(self@.command_text),
            printable(self@.cli_text),
    {
    }

    /// A session at the workspace prompt, with the workspace commands in
    /// its palette.
    pub fn new(command_channel: ChannelId, response_channel: ChannelId) -> (r: Self)
        ensures
            r.wf(),
            r@.active is None,
            !r@.editor_open,
            !r@.cli_active,
            r@.cli_text.len() == 0,
            r@.cli_cursor == 0,
            !r@.hint_shown,
            r@.command_text.len() == 0,
            r@.log.len() == 0,
            !r@.overlay.open,
            r.palette_state().commands().len() == 13,
            descriptor_views(r.palette_state().commands()) == workspace_command_views(),
            forall|i: int, a: &[String], x: CommandResult|
                0 <= i < 13 ==> (#[trigger] r.palette_state().handler_runs(i, a, x) == fixed_reply(
                    x,
                    workspace_replies()[i],
                )),
            r.command_channel_view() == command_channel,
            r.response_channel_view() == response_channel,
            r.sequence_view() == 0,
    {
        let mut palette = CommandPalette::new();
        let ghost mut views: Seq<DescriptorView> = Seq::empty();
        let ghost mut reps: Seq<Seq<char>> = Seq::empty();
        assert(descriptor_views(palette.commands()) =~= views);
        let ghost before = palette;
        register_fixed(&mut palette, "help", "Show Help", "Display available commands", tags2("help", "commands"), "Available commands: help, open editor, quit");
        proof {
            let ghost old_reps = reps;
            views = views.push(command_view("help"@, "Show Help"@, "Display available commands"@, seq!["help"@, "commands"@]));
            reps = reps.push("Available commands: help, open editor, quit"@);
            assert forall|i: int, a: &[String], x: CommandResult|
                0 <= i < reps.len() implies #[trigger] palette.handler_runs(i, a, x) == fixed_reply(x, reps[i]) by {
                if i < old_reps.len() {
                    assert(before.handler_runs(i, a, x) == fixed_reply(x, old_reps[i]));
                    assert(reps[i] == old_reps[i]);
                }
            }
        }
        let ghost before = palette;
        register_fixed(&mut palette, "open_editor", "Open Editor", "Open the text editor", tags3("editor", "edit", "vim"), "Opening editor...");
        proof {
            let ghost old_reps = reps;
            views = views.push(command_view("open_editor"@, "Open Editor"@, "Open the text editor"@, seq!["editor"@, "edit"@, "vim"@]));
            reps = reps.push("Opening editor..."@);
            assert forall|i: int, a: &[String], x: CommandResult|
                0 <= i < reps.len() implies #[trigger] palette.handler_runs(i, a, x) == fixed_reply(x, reps[i]) by {
                if i < old_reps.len() {
                    assert(before.handler_runs(i, a, x) == fixed_reply(x, old_reps[i]));
                    assert(reps[i] == old_reps[i]);
                }
            }
        }
        let ghost before = palette;
        register_fixed(&mut palette, "open_cli", "Switch to CLI", "Switch to the CLI component", tags3("cli", "console", "switch"), "Switching to CLI...");
        proof {
            let ghost old_reps = reps;
            views = views.push(command_view("open_cli"@, "Switch to CLI"@, "Switch to the CLI component"@, seq!["cli"@, "console"@, "switch"@]));
            reps = reps.push("Switching to CLI..."@);
            assert forall|i: int, a: &[String], x: CommandResult|
                0 <= i < reps.len() implies #[trigger] palette.handler_runs(i, a, x) == fixed_reply(x, reps[i]) by {
                if i < old_reps.len() {
                    assert(before.handler_runs(i, a, x) == fixed_reply(x, old_reps[i]));
                    assert(reps[i] == old_reps[i]);
                }
            }
        }
        let ghost before = palette;
        register_fixed(&mut palette, "list", "List Components", "List active components", tags2("list", "components"), "Listing components...");
        proof {
            let ghost old_reps = reps;
            views = views.push(command_view("list"@, "List Components"@, "List active components"@, seq!["list"@, "components"@]));
            reps = reps.push("Listing components..."@);
            assert forall|i: int, a: &[String], x: CommandResult|
                0 <= i < reps.len() implies #[trigger] palette.handler_runs(i, a, x) == fixed_reply(x, reps[i]) by {
                if i < old_reps.len() {
                    assert(before.handler_runs(i, a, x) == fixed_reply(x, old_reps[i]));
                    assert(reps[i] == old_reps[i]);
                }
            }
        }
        let ghost before = palette;
        register_fixed(&mut palette, "focus", "Focus Component", "Focus the next component", tags2("focus", "cycle"), "Focus command ready");
        proof {
            let ghost old_reps = reps;
            views = views.push(command_view("focus"@, "Focus Component"@, "Focus the next component"@, seq!["focus"@, "cycle"@]));
            reps = reps.push("Focus command ready"@);
            assert forall|i: int, a: &[String], x: CommandResult|
                0 <= i < reps.len() implies #[trigger] palette.handler_runs(i, a, x) == fixed_reply(x, reps[i]) by {
                if i < old_reps.len() {
                    assert(before.handler_runs(i, a, x) == fixed_reply(x, old_reps[i]));
                    assert(reps[i] == old_reps[i]);
                }
            }
        }
        let ghost before = palette;
        register_fixed(&mut palette, "quit", "Quit", "Exit the workspace", tags3("exit", "close", "q"), "Quitting...");
        proof {
            let ghost old_reps = reps;
            views = views.push(command_view("quit"@, "Quit"@, "Exit the workspace"@, seq!["exit"@, "close"@, "q"@]));
            reps = reps.push("Quitting..."@);
            assert forall|i: int, a: &[String], x: CommandResult|
                0 <= i < reps.len() implies #[trigger] palette.handler_runs(i, a, x) == fixed_reply(x, reps[i]) by {
                if i < old_reps.len() {
                    assert(before.handler_runs(i, a, x) == fixed_reply(x, old_reps[i]));
                    assert(reps[i] == old_reps[i]);
                }
            }
        }
        let ghost before = palette;
        register_fixed(&mut palette, "halt", "Halt System", "Halt the system", tags2("halt", "shutdown"), "Halting...");
        proof {
            let ghost old_reps = reps;
            views = views.push(command_view("halt"@, "Halt System"@, "Halt the system"@, seq!["halt"@, "shutdown"@]));
            reps = reps.push("Halting..."@);
            assert forall|i: int, a: &[String], x: CommandResult|
                0 <= i < reps.len() implies #[trigger] palette.handler_runs(i, a, x) == fixed_reply(x, reps[i]) by {
                if i < old_reps.len() {
                    assert(before.handler_runs(i, a, x) == fixed_reply(x, old_reps[i]));
                    assert(reps[i] == old_reps[i]);
                }
            }
        }
        let ghost before = palette;
        register_fixed(&mut palette, "boot", "Show Boot Info", "Display boot information", tags2("boot", "info"), "Boot info");
        proof {
            let ghost old_reps = reps;
            views = views.push(command_view("boot"@, "Show Boot Info"@, "Display boot information"@, seq!["boot"@, "info"@]));
            reps = reps.push("Boot info"@);
            assert forall|i: int, a: &[String], x: CommandResult|
                0 <= i < reps.len() implies #[trigger] palette.handler_runs(i, a, x) == fixed_reply(x, reps[i]) by {
                if i < old_reps.len() {
                    assert(before.handler_runs(i, a, x) == fixed_reply(x, old_reps[i]));
                    assert(reps[i] == old_reps[i]);
                }
            }
        }
        let ghost before = palette;
        register_fixed(&mut palette, "mem", "Show Memory Info", "Display memory information", tags2("mem", "memory"), "Memory info");
        proof {
            let ghost old_reps = reps;
            views = views.push(command_view("mem"@, "Show Memory Info"@, "Display memory information"@, seq!["mem"@, "memory"@]));
            reps = reps.push("Memory info"@);
            assert forall|i: int, a: &[String], x: CommandResult|
                0 <= i < reps.len() implies #[trigger] palette.handler_runs(i, a, x) == fixed_reply(x, reps[i]) by {
                if i < old_reps.len() {
                    assert(before.handler_runs(i, a, x) == fixed_reply(x, old_reps[i]));
                    assert(reps[i] == old_reps[i]);
                }
            }
        }
        let ghost before = palette;
        register_fixed(&mut palette, "ticks", "Show System Ticks", "Display system tick count", tags2("ticks", "time"), "System ticks");
        proof {
            let ghost old_reps = reps;
            views = views.push(command_view("ticks"@, "Show System Ticks"@, "Display system tick count"@, seq!["ticks"@, "time"@]));
            reps = reps.push("System ticks"@);
            assert forall|i: int, a: &[String], x: CommandResult|
                0 <= i < reps.len() implies #[trigger] palette.handler_runs(i, a, x) == fixed_reply(x, reps[i]) by {
                if i < old_reps.len() {
                    assert(before.handler_runs(i, a, x) == fixed_reply(x, old_reps[i]));
                    assert(reps[i] == old_reps[i]);
                }
            }
        }
        let ghost before = palette;
        register_fixed(&mut palette, "ls", "List Files", "List filesystem entries", tags2("ls", "files"), "Listing files...");
        proof {
            let ghost old_reps = reps;
            views = views.push(command_view("ls"@, "List Files"@, "List filesystem entries"@, seq!["ls"@, "files"@]));
            reps = reps.push("Listing files..."@);
            assert forall|i: int, a: &[String], x: CommandResult|
                0 <= i < reps.len() implies #[trigger] palette.handler_runs(i, a, x) == fixed_reply(x, reps[i]) by {
                if i < old_reps.len() {
                    assert(before.handler_runs(i, a, x) == fixed_reply(x, old_reps[i]));
                    assert(reps[i] == old_reps[i]);
                }
            }
        }
        let ghost before = palette;
        register_fixed(&mut palette, "cat", "Show File Contents", "Display a file's contents", tags2("cat", "read"), "Cat command ready");
        proof {
            let ghost old_reps = reps;
            views = views.push(command_view("cat"@, "Show File Contents"@, "Display a file's contents"@, seq!["cat"@, "read"@]));
            reps = reps.push("Cat command ready"@);
            assert forall|i: int, a: &[String], x: CommandResult|
                0 <= i < reps.len() implies #[trigger] palette.handler_runs(i, a, x) == fixed_reply(x, reps[i]) by {
                if i < old_reps.len() {
                    assert(before.handler_runs(i, a, x) == fixed_reply(x, old_reps[i]));
                    assert(reps[i] == old_reps[i]);
                }
            }
        }
        let ghost before = palette;
        register_fixed(&mut palette, "write", "Write File", "Create or update a file", tags2("write", "save"), "Write command ready");
        proof {
            let ghost old_reps = reps;
            views = views.push(command_view("write"@, "Write File"@, "Create or update a file"@, seq!["write"@, "save"@]));
            reps = reps.push("Write command ready"@);
            assert forall|i: int, a: &[String], x: CommandResult|
                0 <= i < reps.len() implies #[trigger] palette.handler_runs(i, a, x) == fixed_reply(x, reps[i]) by {
                if i < old_reps.len() {
                    assert(before.handler_runs(i, a, x) == fixed_reply(x, old_reps[i]));
                    assert(reps[i] == old_reps[i]);
                }
            }
        }
        assert(views =~= workspace_command_views());
        assert(reps =~= workspace_replies());
        let r = WorkspaceSession {
            active_component: None,
            editor_open: false,
            command_channel,
            response_channel,
            command_buffer: zeroed_line(),
            command_len: 0,
            output: OutputLog::new(),
            palette_overlay: PaletteOverlayState::new(),
            command_palette: palette,
            cli_active: false,
            cli_buffer: zeroed_line(),
            cli_len: 0,
            cli_cursor: 0,
            cli_hint_shown: false,
        };
        assert(r.command_buffer@.take(0) =~= Seq::<u8>::empty());
        assert(r.cli_buffer@.take(0) =~= Seq::<u8>::empty());
        r
    }

    /// Whether the CLI is active.
    pub fn is_cli_active(&self) -> (r: bool)
        ensures
            r == self@.cli_active,
    {
        self.cli_active
    }

    /// Whether an editor is in front.
    pub fn is_editor_active(&self) -> (r: bool)
        ensures
            r == (self@.active == Some(ComponentType::Editor) && self@.editor_open),
    {
        self.active_component == Some(ComponentType::Editor) && self.editor_open
    }

    /// Whether the command palette is open.
    pub fn is_palette_open(&self) -> (r: bool)
        ensures
            r == self@.overlay.open,
    {
        self.palette_overlay.is_open()
    }

    /// The palette overlay, for drawing.
    pub fn palette_overlay(&self) -> (r: &PaletteOverlayState)
        ensures
            *r == self@.overlay,
    {
        &self.palette_overlay
    }

    /// The prompt shown before a command line.
    pub fn prompt_prefix(&self) -> (r: &'static str)
        ensures
            r@ == prompt_text(self@.cli_active),
    {
        if self.cli_active {
            "CLI> "
        } else {
            "WS > "
        }
    }

    /// The mode shown in the footer.
    pub fn mode_indicator(&self) -> (r: &'static str)
        ensures
            self@.cli_active ==> r@ == "[CLI Mode] Ctrl+P: Commands"@,
            !self@.cli_active ==> r@ == "[Workspace] Ctrl+P: Commands"@,
    {
        if self.cli_active {
            "[CLI Mode] Ctrl+P: Commands"
        } else {
            "[Workspace] Ctrl+P: Commands"
        }
    }

    /// The hint line of the footer.
    pub fn status_line(&self) -> (r: &'static str)
        ensures
            self@.cli_active ==> r@ == "CLI: Enter run | Esc exit | Ctrl+P Commands"@,
            !self@.cli_active ==> r@ == "WS: Ctrl+P Commands | open editor | open cli | help"@,
    {
        if self.cli_active {
            "CLI: Enter run | Esc exit | Ctrl+P Commands"
        } else {
            "WS: Ctrl+P Commands | open editor | open cli | help"
        }
    }

    /// The line being typed: the CLI's when it is active, the prompt's
    /// otherwise.
    pub fn get_command_text(&self) -> (r: &[u8])
        requires
            self.wf(),
        ensures
            self@.cli_active ==> r@ == self@.cli_text,
            !self@.cli_active ==> r@ == self@.command_text,
    {
        if self.cli_active {
            vstd::slice::slice_subrange(self.cli_buffer.as_slice(), 0, self.cli_len)
        } else {
            vstd::slice::slice_subrange(self.command_buffer.as_slice(), 0, self.command_len)
        }
    }

    /// The cursor's column: after the prompt, at the CLI cursor or at the
    /// end of the prompt's line.
    pub fn get_cursor_col(&self) -> (r: usize)
        requires
            self.wf(),
        ensures
            r == 5 + if self@.cli_active {
                self@.cli_cursor
            } else {
                self@.command_text.len()
            },
    {
        if self.cli_active {
            5 + self.cli_cursor
        } else {
            5 + self.command_len
        }
    }

    /// The number of lines in the output log.
    pub fn output_line_count(&self) -> (r: usize)
        requires
            self.wf(),
        ensures
            r == self@.log.len(),
    {
        self.output.line_count()
    }

    /// The number of lines ever logged, wrapping.
    pub closed spec fn sequence_view(&self) -> u64 {
        self.output.seq_view()
    }

    /// The number of lines ever logged, wrapping.
    pub fn output_sequence(&self) -> (r: u64)
        ensures
            r == self.sequence_view(),
    {
        self.output.sequence()
    }

    /// A line of the output log, oldest first.
    pub fn output_line(&self, index: usize) -> (r: Option<&OutputLine>)
        requires
            self.wf(),
        ensures
            index >= self@.log.len() ==> r is None,
            index < self@.log.len() ==> (r matches Some(l) && l@ == self@.log[index as int]),
    {
        self.output.line(index)
    }

    /// Logs text, line by line.
    pub fn append_output_text(&mut self, text: &str)
        requires
            old(self).wf(),
        ensures
            final(self).wf(),
            final(self).palette_state() == old(self).palette_state(),
            final(self)@ == emit_view(old(self)@, text@),
    {
        self.output.append_text(text);
    }

    /// Writes a line to the serial port and logs it.
    fn emit_line(&mut self, serial: &mut SerialPort, text: &str)
        requires
            old(self).wf(),
        ensures
            final(self).wf(),
            final(self).palette_state() == old(self).palette_state(),
            final(self)@ == emit_view(old(self)@, text@),
            final(serial).buffer@ == old(serial).buffer@ + line_out(text@),
    {
        let _ = serial.write_str(text);
        let _ = serial.write_str("\n");
        self.output.append_text(text);
        assert(serial.buffer@ =~= old(serial).buffer@ + line_out(text@));
    }

    /// Emits one more line after lines already emitted from `base`.
    fn emit_next(
        &mut self,
        serial: &mut SerialPort,
        text: &str,
        Ghost(base): Ghost<SessionView>,
        Ghost(lines): Ghost<Seq<Seq<char>>>,
        Ghost(out0): Ghost<Seq<char>>,
    )
        requires
            old(self).wf(),
            old(self)@ == emit_all(base, lines),
            old(serial).buffer@ == out0 + lines_out(lines),
        ensures
            final(self).wf(),
            final(self).palette_state() == old(self).palette_state(),
            final(self)@ == emit_all(base, lines.push(text@)),
            final(serial).buffer@ == out0 + lines_out(lines.push(text@)),
    {
        self.emit_line(serial, text);
        proof {
            assert(lines.push(text@).drop_last() =~= lines);
            assert(out0 + lines_out(lines) + line_out(text@) =~= out0 + (lines_out(lines) + line_out(text@)));
        }
    }

    /// Writes the prompt.
    pub fn show_prompt(&self, serial: &mut SerialPort)
        ensures
            final(serial).buffer@ == old(serial).buffer@ + prompt_text(self@.cli_active),
    {
        let _ = serial.write_str(self.prompt_prefix());
    }

    /// Empties the CLI line.
    fn reset_cli_buffer(&mut self)
        requires
            old(self).wf(),
        ensures
            final(self).wf(),
            final(self).palette_state() == old(self).palette_state(),
            final(self)@ == (SessionView { cli_text: Seq::empty(), cli_cursor: 0, ..old(self)@ }),
    {
        self.cli_buffer = zeroed_line();
        self.cli_len = 0;
        self.cli_cursor = 0;
        assert(self.cli_buffer@.take(0) =~= Seq::<u8>::empty());
    }

    /// Puts printable ASCII text on the prompt's line.
    fn set_command_text(&mut self, text: &str)
        requires
            old(self).wf(),
            printable_chars(text@),
            text@.len() <= COMMAND_MAX,
        ensures
            final(self).wf(),
            final(self).palette_state() == old(self).palette_state(),
            final(self)@ == (SessionView { command_text: ascii_bytes(text@), ..old(self)@ }),
    {
        proof {
            lemma_ascii_bytes(text);
        }
        let bytes = text.as_bytes();
        let len = bytes.len();
        let mut i: usize = 0;
        while i < len
            invariant
                i <= len == bytes@.len(),
                len <= COMMAND_MAX,
                bytes@ == ascii_bytes(text@),
                printable(bytes@),
                self.command_buffer@.len() == COMMAND_MAX,
                forall|k: int| 0 <= k < i ==> self.command_buffer@[k] == bytes@[k],
                self.command_len == old(self).command_len,
                self.active_component == old(self).active_component,
                self.editor_open == old(self).editor_open,
                self.cli_active == old(self).cli_active,
                self.cli_buffer@ == old(self).cli_buffer@,
                self.cli_len == old(self).cli_len,
                self.cli_cursor == old(self).cli_cursor,
                self.cli_hint_shown == old(self).cli_hint_shown,
                self.output == old(self).output,
                self.palette_overlay == old(self).palette_overlay,
                self.command_palette == old(self).command_palette,
            decreases len - i,
        {
            self.command_buffer.set(i, bytes[i]);
            i = i + 1;
        }
        self.command_len = len;
        assert(self.command_buffer@.take(len as int) =~= bytes@);
    }

    /// Turns the CLI on or off. Turning it on empties its line and says
    /// so, with a tip the first time; turning it off leaves the CLI
    /// component and says so.
    fn set_cli_active(&mut self, active: bool, serial: &mut SerialPort)
        requires
            old(self).wf(),
        ensures
            final(self).wf(),
            final(self).palette_state() == old(self).palette_state(),
            final(self)@ == emit_all(set_cli_state(old(self)@, active), set_cli_lines(old(self)@, active)),
            final(serial).buffer@ == old(serial).buffer@ + lines_out(set_cli_lines(old(self)@, active)),
    {
        let ghost v0 = self@;
        let ghost out0 = serial.buffer@;
        self.cli_active = active;
        if active {
            self.reset_cli_buffer();
            let ghost base = set_cli_state(v0, true);
            let ghost none: Seq<Seq<char>> = Seq::empty();
            assert(self@ == emit_all(SessionView { hint_shown: v0.hint_shown, ..base }, none));
            assert(out0 =~= out0 + lines_out(none));
            self.emit_next(serial, "CLI mode: type commands, `exit` to leave", Ghost(SessionView { hint_shown: v0.hint_shown, ..base }), Ghost(none), Ghost(out0));
            let ghost greeted = seq![cli_greeting()];
            assert(none.push(cli_greeting()) =~= greeted);
            if !self.cli_hint_shown {
                self.emit_next(serial, "Tip: Ctrl+P opens Commands.", Ghost(SessionView { hint_shown: v0.hint_shown, ..base }), Ghost(greeted), Ghost(out0));
                self.cli_hint_shown = true;
                assert(seq![cli_greeting()].push(cli_tip()) =~= seq![cli_greeting(), cli_tip()]);
            }
            assert(none.push(cli_greeting()) =~= seq![cli_greeting()]);
        } else {
            if self.active_component == Some(ComponentType::Cli) {
                self.active_component = None;
            }
            let ghost none: Seq<Seq<char>> = Seq::empty();
            assert(self@ == emit_all(set_cli_state(v0, false), none));
            assert(out0 =~= out0 + lines_out(none));
            self.emit_next(serial, "Returned to workspace", Ghost(set_cli_state(v0, false)), Ghost(none), Ghost(out0));
            assert(none.push("Returned to workspace"@) =~= seq!["Returned to workspace"@]);
        }
    }
}


/// The views of words.
pub open spec fn word_views(ws: Seq<Vec<char>>) -> Seq<Seq<char>> {
    ws.map_values(|w: Vec<char>| w@)
}

impl WorkspaceSession {
    /// Runs a command line: echoes it after the prompt and runs the
    /// command of its first word.
    fn run_command_line(&mut self, serial: &mut SerialPort, command: &Vec<char>) -> (r: Option<WorkspaceRequest>)
        requires
            old(self).wf(),
        ensures
            final(self).wf(),
            final(self).palette_state() == old(self).palette_state(),
            final(self)@ == emit_all(run_spec(old(self)@, command@).state, run_spec(old(self)@, command@).lines),
            final(serial).buffer@ == old(serial).buffer@ + lines_out(run_spec(old(self)@, command@).lines),
            request_view(r) == run_spec(old(self)@, command@).request,
    {
        let ghost v0 = self@;
        let ghost out0 = serial.buffer@;
        let ws = split_words(command);
        assert(word_views(ws@) =~= words(command@));
        let ghost none: Seq<Seq<char>> = Seq::empty();
        assert(self@ == emit_all(v0, none));
        assert(out0 =~= out0 + lines_out(none));
        if ws.len() == 0 {
            return None;
        }
        let mut echo = chars_of(self.prompt_prefix());
        append_chars(&mut echo, command);
        let echo_line = line_string(&echo);
        self.emit_next(serial, echo_line.as_str(), Ghost(v0), Ghost(none), Ghost(out0));
        let ghost echo_lines = none.push(echo_line@);
        assert(echo_lines =~= seq![cap_line(prompt_text(v0.cli_active) + command@)]);
        self.run_words(serial, &ws, Ghost(v0), Ghost(echo_lines), Ghost(out0))
    }

    /// Runs the command of the first word, after the echo.
    fn run_words(
        &mut self,
        serial: &mut SerialPort,
        ws: &Vec<Vec<char>>,
        Ghost(v0): Ghost<SessionView>,
        Ghost(echo): Ghost<Seq<Seq<char>>>,
        Ghost(out0): Ghost<Seq<char>>,
    ) -> (r: Option<WorkspaceRequest>)
        requires
            old(self).wf(),
            ws@.len() > 0,
            old(self)@ == emit_all(v0, echo),
            old(serial).buffer@ == out0 + lines_out(echo),
        ensures
            final(self).wf(),
            final(self).palette_state() == old(self).palette_state(),
            final(self)@ == emit_all(
                command_spec(v0, echo, word_views(ws@)).state,
                command_spec(v0, echo, word_views(ws@)).lines,
            ),
            final(serial).buffer@ == out0 + lines_out(command_spec(v0, echo, word_views(ws@)).lines),
            request_view(r) == command_spec(v0, echo, word_views(ws@)).request,
    {
        reveal(command_spec);
        let ghost wv = word_views(ws@);
        let first = &ws[0];
        assert(wv[0] == first@);
        let is_exit = eq_str(first, "exit");
        let is_quit = eq_str(first, "quit");
        if self.cli_active && (is_exit || is_quit) {
            self.set_cli_active(false, serial);
            proof {
                lemma_emit_concat(v0.log, echo, set_cli_lines(v0, false));
            }
            return None;
        }
        if eq_str(first, "help") {
            let ghost mut ls = echo;
            self.emit_next(serial, "Workspace Commands:", Ghost(v0), Ghost(ls), Ghost(out0));
            proof { ls = ls.push("Workspace Commands:"@); }
            self.emit_next(serial, "help           - Show this help", Ghost(v0), Ghost(ls), Ghost(out0));
            proof { ls = ls.push("help           - Show this help"@); }
            self.emit_next(serial, "open <what>    - Open editor or CLI", Ghost(v0), Ghost(ls), Ghost(out0));
            proof { ls = ls.push("open <what>    - Open editor or CLI"@); }
            self.emit_next(serial, "list           - List components", Ghost(v0), Ghost(ls), Ghost(out0));
            proof { ls = ls.push("list           - List components"@); }
            self.emit_next(serial, "focus <id>     - Focus component", Ghost(v0), Ghost(ls), Ghost(out0));
            proof { ls = ls.push("focus <id>     - Focus component"@); }
            self.emit_next(serial, "quit           - Exit component", Ghost(v0), Ghost(ls), Ghost(out0));
            proof { ls = ls.push("quit           - Exit component"@); }
            self.emit_next(serial, "halt           - Halt system", Ghost(v0), Ghost(ls), Ghost(out0));
            proof { ls = ls.push("halt           - Halt system"@); }
            self.emit_next(serial, "", Ghost(v0), Ghost(ls), Ghost(out0));
            proof { ls = ls.push(""@); }
            self.emit_next(serial, "File Commands:", Ghost(v0), Ghost(ls), Ghost(out0));
            proof { ls = ls.push("File Commands:"@); }
            self.emit_next(serial, "ls             - List files", Ghost(v0), Ghost(ls), Ghost(out0));
            proof { ls = ls.push("ls             - List files"@); }
            self.emit_next(serial, "cat <path>     - Show file contents", Ghost(v0), Ghost(ls), Ghost(out0));
            proof { ls = ls.push("cat <path>     - Show file contents"@); }
            self.emit_next(serial, "write <path> <text> - Create/update file", Ghost(v0), Ghost(ls), Ghost(out0));
            proof { ls = ls.push("write <path> <text> - Create/update file"@); }
            self.emit_next(serial, "", Ghost(v0), Ghost(ls), Ghost(out0));
            proof { ls = ls.push(""@); }
            self.emit_next(serial, "System Commands:", Ghost(v0), Ghost(ls), Ghost(out0));
            proof { ls = ls.push("System Commands:"@); }
            self.emit_next(serial, "boot           - Show boot info", Ghost(v0), Ghost(ls), Ghost(out0));
            proof { ls = ls.push("boot           - Show boot info"@); }
            self.emit_next(serial, "mem            - Show memory info", Ghost(v0), Ghost(ls), Ghost(out0));
            proof { ls = ls.push("mem            - Show memory info"@); }
            self.emit_next(serial, "ticks          - Show system ticks", Ghost(v0), Ghost(ls), Ghost(out0));
            proof { ls = ls.push("ticks          - Show system ticks"@); }
            assert(ls =~= echo + help_lines());
            return None;
        }
        if eq_str(first, "open") {
            if ws.len() > 1 && eq_str(&ws[1], "editor") {
                assert(wv[1] == ws@[1]@);
                let path = if ws.len() > 2 {
                    assert(wv[2] == ws@[2]@);
                    Some(string_of(&ws[2]))
                } else {
                    None
                };
                self.active_component = Some(ComponentType::Editor);
                self.editor_open = true;
                return Some(WorkspaceRequest::OpenEditor(path));
            }
            if ws.len() > 1 && eq_str(&ws[1], "cli") {
                assert(wv[1] == ws@[1]@);
                self.active_component = Some(ComponentType::Cli);
                let ghost v1 = SessionView { active: Some(ComponentType::Cli), ..v0 };
                assert(self@ == emit_all(v1, echo));
                self.set_cli_active(true, serial);
                proof {
                    lemma_emit_concat(v1.log, echo, set_cli_lines(v1, true));
                }
                return None;
            }
            if ws.len() > 1 {
                assert(wv[1] == ws@[1]@);
            }
            self.emit_next(serial, "Usage: open editor [path] | open cli", Ghost(v0), Ghost(echo), Ghost(out0));
            assert(echo.push("Usage: open editor [path] | open cli"@) =~= echo + seq!["Usage: open editor [path] | open cli"@]);
            return None;
        }
        if eq_str(first, "list") {
            self.emit_next(serial, "Active components:", Ghost(v0), Ghost(echo), Ghost(out0));
            let ghost ls = echo.push("Active components:"@);
            let line = match self.active_component {
                Some(ComponentType::Editor) => "  - Editor",
                Some(ComponentType::Cli) => "  - Cli",
                Some(ComponentType::Shell) => "  - Shell",
                None => "  (none)",
            };
            self.emit_next(serial, line, Ghost(v0), Ghost(ls), Ghost(out0));
            assert(ls.push(line@) =~= echo + seq!["Active components:"@, component_line(v0.active)]);
            return None;
        }
        if eq_str(first, "focus") {
            self.emit_next(serial, "Focus switching unavailable (no console_vga)", Ghost(v0), Ghost(echo), Ghost(out0));
            assert(echo.push("Focus switching unavailable (no console_vga)"@) =~= echo + seq!["Focus switching unavailable (no console_vga)"@]);
            return None;
        }
        if is_quit {
            if self.active_component.is_some() {
                self.active_component = None;
                let ghost v1 = SessionView { active: None, ..v0 };
                assert(self@ == emit_all(v1, echo));
                self.emit_next(serial, "Closed component", Ghost(v1), Ghost(echo), Ghost(out0));
                assert(echo.push("Closed component"@) =~= echo + seq!["Closed component"@]);
            } else {
                self.emit_next(serial, "No active component (use 'halt' to stop)", Ghost(v0), Ghost(echo), Ghost(out0));
                assert(echo.push("No active component (use 'halt' to stop)"@) =~= echo + seq!["No active component (use 'halt' to stop)"@]);
            }
            return None;
        }
        if eq_str(first, "editor") {
            let path = if ws.len() > 1 {
                assert(wv[1] == ws@[1]@);
                Some(string_of(&ws[1]))
            } else {
                None
            };
            self.active_component = Some(ComponentType::Editor);
            self.editor_open = true;
            return Some(WorkspaceRequest::OpenEditor(path));
        }
        if eq_str(first, "halt") {
            self.emit_next(serial, "Halting system...", Ghost(v0), Ghost(echo), Ghost(out0));
            assert(echo.push("Halting system..."@) =~= echo + seq!["Halting system..."@]);
            return Some(WorkspaceRequest::Halt);
        }
        if eq_str(first, "boot") || eq_str(first, "mem") || eq_str(first, "ticks") {
            return Some(WorkspaceRequest::Delegate(string_of(first)));
        }
        if eq_str(first, "ls") {
            return Some(WorkspaceRequest::ListFiles);
        }
        if eq_str(first, "cat") {
            if ws.len() > 1 {
                assert(wv[1] == ws@[1]@);
                return Some(WorkspaceRequest::ReadFile(string_of(&ws[1])));
            }
            self.emit_next(serial, "Usage: cat <path>", Ghost(v0), Ghost(echo), Ghost(out0));
            assert(echo.push("Usage: cat <path>"@) =~= echo + seq!["Usage: cat <path>"@]);
            return None;
        }
        if eq_str(first, "write") {
            if ws.len() > 1 {
                assert(wv[1] == ws@[1]@);
                let text = join_words(ws, 2);
                assert(ws@.skip(2).map_values(|w: Vec<char>| w@) =~= wv.skip(2));
                return Some(WorkspaceRequest::WriteFile(string_of(&ws[1]), text));
            }
            self.emit_next(serial, "Usage: write <path> <text>", Ghost(v0), Ghost(echo), Ghost(out0));
            assert(echo.push("Usage: write <path> <text>"@) =~= echo + seq!["Usage: write <path> <text>"@]);
            return None;
        }
        let mut t = chars_of("Unknown command: ");
        append_chars(&mut t, first);
        let suffix = chars_of(". Type 'help' for help.");
        append_chars(&mut t, &suffix);
        let line = line_string(&t);
        self.emit_next(serial, line.as_str(), Ghost(v0), Ghost(echo), Ghost(out0));
        assert(echo.push(line@) =~= echo + seq![unknown_line(first@)]);
        None
    }
}


impl WorkspaceSession {
    /// Runs the line typed at the workspace prompt, then shows the prompt
    /// unless a request is pending.
    fn execute_command(&mut self, serial: &mut SerialPort) -> (r: Option<WorkspaceRequest>)
        requires
            old(self).wf(),
        ensures
            final(self).wf(),
            final(self).palette_state() == old(self).palette_state(),
            final(self)@ == emit_all(exec_spec(old(self)@).state, exec_spec(old(self)@).lines),
            final(serial).buffer@ == old(serial).buffer@ + exec_out(old(self)@),
            request_view(r) == exec_spec(old(self)@).request,
    {
        let ghost v0 = self@;
        let raw = ascii_text(vstd::slice::slice_subrange(self.command_buffer.as_slice(), 0, self.command_len));
        let cmd = trimmed_all(&raw);
        if cmd.len() == 0 {
            assert(log_lines(v0.log, Seq::empty()) == v0.log);
            assert(self@ == emit_all(v0, Seq::empty()));
            self.show_prompt(serial);
            assert(lines_out(Seq::empty()) + prompt_text(v0.cli_active) =~= prompt_text(v0.cli_active));
            return None;
        }
        let r = self.run_command_line(serial, &cmd);
        if r.is_none() {
            self.show_prompt(serial);
        }
        assert(serial.buffer@ =~= old(serial).buffer@ + exec_out(v0));
        r
    }

    /// A byte typed at the workspace prompt.
    fn prompt_input(&mut self, byte: u8, serial: &mut SerialPort) -> (r: InputOutcome)
        requires
            old(self).wf(),
            !old(self)@.cli_active,
        ensures
            final(self).wf(),
            final(self).palette_state() == old(self).palette_state(),
            step_of(final(self)@, old(serial).buffer@, final(serial).buffer@, r) == prompt_step(old(self)@, byte),
            final(serial).buffer@ == old(serial).buffer@ + prompt_step(old(self)@, byte).out,
    {
        let ghost v0 = self@;
        let ghost out0 = serial.buffer@;
        if byte == 0x0D || byte == 0x0A {
            let _ = serial.write_str("\r\n");
            let r = self.execute_command(serial);
            self.command_len = 0;
            assert(self.command_buffer@.take(0) =~= Seq::<u8>::empty());
            assert(serial.buffer@ =~= out0 + ("\r\n"@ + exec_out(v0)));
            assert(written(out0, serial.buffer@) =~= "\r\n"@ + exec_out(v0));
            let pending = r.is_some() && !matches!(r, Some(WorkspaceRequest::Halt));
            InputOutcome { handled: true, request: r, prompt_pending: pending }
        } else if byte == 0x08 || byte == 0x7F {
            if self.command_len > 0 {
                self.command_len = self.command_len - 1;
                let _ = serial.write_str("\x08 \x08");
                assert(self.command_buffer@.take(self.command_len as int) =~= v0.command_text.drop_last());
            }
            assert(written(out0, serial.buffer@) =~= prompt_step(v0, byte).out);
            InputOutcome { handled: true, request: None, prompt_pending: false }
        } else if byte >= 0x20 && byte < 0x7F {
            if self.command_len < COMMAND_MAX {
                self.command_buffer.set(self.command_len, byte);
                self.command_len = self.command_len + 1;
                let _ = serial.write_byte(byte);
                assert(self.command_buffer@.take(self.command_len as int) =~= v0.command_text.push(byte));
            }
            assert(written(out0, serial.buffer@) =~= prompt_step(v0, byte).out);
            InputOutcome { handled: true, request: None, prompt_pending: false }
        } else {
            assert(written(out0, serial.buffer@) =~= Seq::<char>::empty());
            InputOutcome { handled: false, request: None, prompt_pending: false }
        }
    }
}


impl WorkspaceSession {
    /// Deletes the byte before the CLI cursor.
    fn cli_delete_before_cursor(&mut self)
        requires
            old(self).wf(),
            old(self)@.cli_cursor > 0,
        ensures
            final(self).wf(),
            final(self).palette_state() == old(self).palette_state(),
            final(self)@ == (SessionView {
                cli_text: old(self)@.cli_text.take(old(self)@.cli_cursor - 1) + old(self)@.cli_text.skip(
                    old(self)@.cli_cursor as int,
                ),
                cli_cursor: (old(self)@.cli_cursor - 1) as nat,
                ..old(self)@
            }),
    {
        let ghost b0 = self.cli_buffer@;
        let cursor = self.cli_cursor;
        let len = self.cli_len;
        let mut i = cursor;
        while i < len
            invariant
                cursor <= i <= len <= COMMAND_MAX,
                cursor > 0,
                self.cli_buffer@.len() == COMMAND_MAX,
                b0.len() == COMMAND_MAX,
                forall|k: int| 0 <= k < cursor - 1 ==> self.cli_buffer@[k] == b0[k],
                forall|k: int| cursor - 1 <= k < i - 1 ==> self.cli_buffer@[k] == b0[k + 1],
                forall|k: int| i <= k < COMMAND_MAX ==> self.cli_buffer@[k] == b0[k],
                self.cli_len == old(self).cli_len,
                self.cli_cursor == old(self).cli_cursor,
                self.cli_buffer@ == b0 || i > cursor,
                b0 == old(self).cli_buffer@,
                self.command_buffer@ == old(self).command_buffer@,
                self.command_len == old(self).command_len,
                self.active_component == old(self).active_component,
                self.editor_open == old(self).editor_open,
                self.cli_active == old(self).cli_active,
                self.cli_hint_shown == old(self).cli_hint_shown,
                self.output == old(self).output,
                self.palette_overlay == old(self).palette_overlay,
                self.command_palette == old(self).command_palette,
            decreases len - i,
        {
            let c = self.cli_buffer[i];
            self.cli_buffer.set(i - 1, c);
            i = i + 1;
        }
        self.cli_len = len - 1;
        self.cli_cursor = cursor - 1;
        let ghost t0 = b0.take(len as int);
        assert(self.cli_buffer@.take(self.cli_len as int) =~= t0.take(cursor - 1) + t0.skip(cursor as int));
    }

    /// Inserts a printable byte at the CLI cursor.
    fn cli_insert_at_cursor(&mut self, byte: u8)
        requires
            old(self).wf(),
            old(self)@.cli_text.len() < COMMAND_MAX,
            0x20 <= byte < 0x7F,
        ensures
            final(self).wf(),
            final(self).palette_state() == old(self).palette_state(),
            final(self)@ == (SessionView {
                cli_text: old(self)@.cli_text.take(old(self)@.cli_cursor as int).push(byte) + old(
                    self,
                )@.cli_text.skip(old(self)@.cli_cursor as int),
                cli_cursor: old(self)@.cli_cursor + 1,
                ..old(self)@
            }),
    {
        let ghost b0 = self.cli_buffer@;
        let cursor = self.cli_cursor;
        let len = self.cli_len;
        let mut i = len;
        while i > cursor
            invariant
                cursor <= i <= len < COMMAND_MAX,
                self.cli_buffer@.len() == COMMAND_MAX,
                b0.len() == COMMAND_MAX,
                forall|k: int| 0 <= k <= i ==> self.cli_buffer@[k] == b0[k],
                forall|k: int| i < k <= len ==> self.cli_buffer@[k] == b0[k - 1],
                forall|k: int| len < k < COMMAND_MAX ==> self.cli_buffer@[k] == b0[k],
                self.cli_len == old(self).cli_len,
                self.cli_cursor == old(self).cli_cursor,
                b0 == old(self).cli_buffer@,
                self.command_buffer@ == old(self).command_buffer@,
                self.command_len == old(self).command_len,
                self.active_component == old(self).active_component,
                self.editor_open == old(self).editor_open,
                self.cli_active == old(self).cli_active,
                self.cli_hint_shown == old(self).cli_hint_shown,
                self.output == old(self).output,
                self.palette_overlay == old(self).palette_overlay,
                self.command_palette == old(self).command_palette,
            decreases i - cursor,
        {
            let c = self.cli_buffer[i - 1];
            self.cli_buffer.set(i, c);
            i = i - 1;
        }
        self.cli_buffer.set(cursor, byte);
        self.cli_cursor = cursor + 1;
        self.cli_len = len + 1;
        let ghost t0 = b0.take(len as int);
        assert(self.cli_buffer@.take(self.cli_len as int) =~= t0.take(cursor as int).push(byte) + t0.skip(
            cursor as int,
        ));
    }

    /// Runs the CLI line, empties it, and shows the CLI prompt while the
    /// CLI is on and no request is pending.
    fn cli_enter(&mut self, serial: &mut SerialPort) -> (r: Option<WorkspaceRequest>)
        requires
            old(self).wf(),
        ensures
            final(self).wf(),
            final(self).palette_state() == old(self).palette_state(),
            final(self)@ == emit_all(cli_enter_spec(old(self)@).state, cli_enter_spec(old(self)@).lines),
            final(serial).buffer@ == old(serial).buffer@ + lines_out(cli_enter_spec(old(self)@).lines) + if cli_enter_spec(
                old(self)@,
            ).state.cli_active && cli_enter_spec(old(self)@).request is None {
                prompt_text(true)
            } else {
                Seq::empty()
            },
            request_view(r) == cli_enter_spec(old(self)@).request,
    {
        let ghost v0 = self@;
        let raw = ascii_text(vstd::slice::slice_subrange(self.cli_buffer.as_slice(), 0, self.cli_len));
        let cmd = trimmed_all(&raw);
        let mut r: Option<WorkspaceRequest> = None;
        if cmd.len() > 0 {
            r = self.run_command_line(serial, &cmd);
        } else {
            assert(log_lines(v0.log, Seq::empty()) == v0.log);
            assert(self@ == emit_all(v0, Seq::empty()));
            assert(serial.buffer@ =~= old(serial).buffer@ + lines_out(Seq::<Seq<char>>::empty()));
        }
        self.reset_cli_buffer();
        if self.cli_active && r.is_none() {
            self.show_prompt(serial);
        }
        assert(serial.buffer@ =~= old(serial).buffer@ + lines_out(cli_enter_spec(v0).lines) + if cli_enter_spec(
            v0,
        ).state.cli_active && cli_enter_spec(v0).request is None {
            prompt_text(true)
        } else {
            Seq::empty()
        });
        r
    }

    /// A byte typed in the CLI.
    fn cli_input(&mut self, byte: u8, serial: &mut SerialPort) -> (r: InputOutcome)
        requires
            old(self).wf(),
            old(self)@.cli_active,
        ensures
            final(self).wf(),
            final(self).palette_state() == old(self).palette_state(),
            step_of(final(self)@, old(serial).buffer@, final(serial).buffer@, r) == cli_step(old(self)@, byte),
            final(serial).buffer@ == old(serial).buffer@ + cli_step(old(self)@, byte).out,
    {
        let ghost v0 = self@;
        let ghost out0 = serial.buffer@;
        if byte == 0x0D || byte == 0x0A {
            let _ = serial.write_str("\r\n");
            let r = self.cli_enter(serial);
            assert(serial.buffer@ =~= out0 + cli_step(v0, byte).out);
            assert(written(out0, serial.buffer@) =~= cli_step(v0, byte).out);
            let pending = self.cli_active && r.is_some() && !matches!(r, Some(WorkspaceRequest::Halt));
            InputOutcome { handled: true, request: r, prompt_pending: pending }
        } else if byte == 0x1B {
            let _ = serial.write_str("\r\n");
            self.set_cli_active(false, serial);
            self.show_prompt(serial);
            assert(serial.buffer@ =~= out0 + cli_step(v0, byte).out);
            assert(written(out0, serial.buffer@) =~= cli_step(v0, byte).out);
            InputOutcome { handled: true, request: None, prompt_pending: false }
        } else if byte == 0x08 || byte == 0x7F {
            if self.cli_cursor > 0 && self.cli_len > 0 {
                self.cli_delete_before_cursor();
                let _ = serial.write_str("\x08 \x08");
            }
            assert(serial.buffer@ =~= out0 + cli_step(v0, byte).out);
            assert(written(out0, serial.buffer@) =~= cli_step(v0, byte).out);
            InputOutcome { handled: true, request: None, prompt_pending: false }
        } else if byte == 0x80 || byte == 0x81 {
            assert(serial.buffer@ =~= out0 + cli_step(v0, byte).out);
            assert(written(out0, serial.buffer@) =~= cli_step(v0, byte).out);
            InputOutcome { handled: true, request: None, prompt_pending: false }
        } else if byte >= 0x20 && byte < 0x7F {
            if self.cli_len < COMMAND_MAX {
                self.cli_insert_at_cursor(byte);
                let _ = serial.write_byte(byte);
            }
            assert(serial.buffer@ =~= out0 + cli_step(v0, byte).out);
            assert(written(out0, serial.buffer@) =~= cli_step(v0, byte).out);
            InputOutcome { handled: true, request: None, prompt_pending: false }
        } else {
            assert(serial.buffer@ =~= out0 + cli_step(v0, byte).out);
            assert(written(out0, serial.buffer@) =~= cli_step(v0, byte).out);
            InputOutcome { handled: false, request: None, prompt_pending: false }
        }
    }
}


/// Text that begins with other text.
pub open spec fn extends(before: Seq<char>, after: Seq<char>) -> bool {
    before.len() <= after.len() && after.take(before.len() as int) == before
}

/// Text followed by more text extends it, by that text.
proof fn lemma_written(a: Seq<char>, b: Seq<char>)
    ensures
        extends(a, a + b),
        written(a, a + b) == b,
{
    assert((a + b).take(a.len() as int) =~= a);
    assert((a + b).skip(a.len() as int) =~= b);
}

/// Writes the trace lines for a byte.
fn write_trace(serial: &mut SerialPort, byte: u8)
    ensures
        final(serial).buffer@ == old(serial).buffer@ + route_trace(byte),
{
    let _ = serial.write_str("route_input:\n  key={byte=0x");
    let mut h = String::new();
    push_hex(&mut h, byte as u64);
    let _ = serial.write_str(h.as_str());
    let _ = serial.write_str("}\n  focus_tile={\"Unavailable\"}\n");
    assert(serial.buffer@ =~= old(serial).buffer@ + route_trace(byte));
}

impl WorkspaceSession {
    /// Opens the palette on every command, remembering where focus was.
    fn open_palette(&mut self, serial: &mut SerialPort) -> (r: InputOutcome)
        requires
            old(self).wf(),
        ensures
            final(self).wf(),
            final(self).palette_state() == old(self).palette_state(),
            open_step_ok(old(self)@, old(self).palette_state(), step_of(final(self)@, old(serial).buffer@, final(serial).buffer@, r)),
            final(serial).buffer@ == old(serial).buffer@ + "  action=open_palette\n"@,
    {
        let _ = serial.write_str("  action=open_palette\n");
        let focus = if self.active_component == Some(ComponentType::Editor) {
            FocusTarget::Editor
        } else {
            FocusTarget::Cli
        };
        self.palette_overlay.open(focus);
        self.palette_overlay.update_query(&self.command_palette, String::new());
        assert(serial.buffer@ =~= old(serial).buffer@ + ("  action=open_palette\n"@));
        proof {
            lemma_written(old(serial).buffer@, "  action=open_palette\n"@);
        }
        InputOutcome { handled: true, request: None, prompt_pending: false }
    }

    /// Runs a command chosen in the palette, then closes the palette.
    fn execute_palette(
        &mut self,
        id: CommandId,
        serial: &mut SerialPort,
        Ghost(base): Ghost<Seq<char>>,
        Ghost(head): Ghost<Seq<char>>,
    ) -> (r: InputOutcome)
        requires
            old(self).wf(),
            old(serial).buffer@ == base + head,
        ensures
            final(self).wf(),
            final(self).palette_state() == old(self).palette_state(),
            extends(base, final(serial).buffer@),
            execute_step_ok(old(self)@, old(self).palette_state(), id@, head, step_of(final(self)@, base, final(serial).buffer@, r)),
    {
        let c = chars_of(id.as_str());
        let own = eq_str(&c, "open_editor") || eq_str(&c, "open_cli") || eq_str(&c, "quit") || prompt_for(&id).is_some();
        if own {
            self.execute_own(id, serial, Ghost(base), Ghost(head))
        } else {
            self.execute_through_palette(id, serial, Ghost(base), Ghost(head))
        }
    }

    /// Runs one of the session's own palette commands, then closes the
    /// palette.
    fn execute_own(
        &mut self,
        id: CommandId,
        serial: &mut SerialPort,
        Ghost(base): Ghost<Seq<char>>,
        Ghost(head): Ghost<Seq<char>>,
    ) -> (r: InputOutcome)
        requires
            old(self).wf(),
            old(serial).buffer@ == base + head,
            id@ == "open_editor"@ || id@ == "open_cli"@ || id@ == "quit"@ || prompt_pattern(id@) is Some,
        ensures
            final(self).wf(),
            final(self).palette_state() == old(self).palette_state(),
            extends(base, final(serial).buffer@),
            execute_step_ok(old(self)@, old(self).palette_state(), id@, head, step_of(final(self)@, base, final(serial).buffer@, r)),
    {
        let ghost v0 = self@;
        let ghost out0 = serial.buffer@;
        let c = chars_of(id.as_str());
        if eq_str(&c, "open_editor") {
            self.active_component = Some(ComponentType::Editor);
            self.editor_open = true;
            self.palette_overlay.close();
            let r = InputOutcome { handled: true, request: Some(WorkspaceRequest::OpenEditor(None)), prompt_pending: false };
            assert(serial.buffer@ =~= base + (head));
            proof {
                lemma_written(base, head);
            }
            return r;
        }
        if eq_str(&c, "open_cli") {
            self.active_component = Some(ComponentType::Cli);
            self.set_cli_active(true, serial);
            self.palette_overlay.close();
            assert(serial.buffer@ =~= base + (head + lines_out(
                set_cli_lines(SessionView { active: Some(ComponentType::Cli), ..v0 }, true),
            )));
            proof {
                lemma_written(base, head + lines_out(
                set_cli_lines(SessionView { active: Some(ComponentType::Cli), ..v0 }, true),
            ));
            }
            return InputOutcome { handled: true, request: None, prompt_pending: false };
        }
        if eq_str(&c, "quit") {
            self.active_component = None;
            let ghost v1 = SessionView { active: None, ..v0 };
            let ghost none: Seq<Seq<char>> = Seq::empty();
            assert(self@ == emit_all(v1, none));
            assert(out0 =~= out0 + lines_out(none));
            self.emit_next(serial, "Closed component", Ghost(v1), Ghost(none), Ghost(out0));
            self.palette_overlay.close();
            let ghost l = seq!["Closed component"@];
            assert(none.push("Closed component"@) =~= l);
            assert(serial.buffer@ =~= base + (head + lines_out(l)));
            proof {
                lemma_written(base, head + lines_out(l));
            }
            return InputOutcome { handled: true, request: None, prompt_pending: false };
        }
        match prompt_for(&id) {
            Some(p) => {
                self.set_command_text(p);
                self.palette_overlay.close();
                assert(serial.buffer@ =~= base + (head));
                proof {
                    lemma_written(base, head);
                }
                return InputOutcome { handled: true, request: None, prompt_pending: false };
            },
            None => {},
        }
        assert(false);
        InputOutcome { handled: false, request: None, prompt_pending: false }
    }

    /// Runs a palette command through the palette, logs its reply, runs
    /// the command line that follows some of them, and closes the palette.
    fn execute_through_palette(
        &mut self,
        id: CommandId,
        serial: &mut SerialPort,
        Ghost(base): Ghost<Seq<char>>,
        Ghost(head): Ghost<Seq<char>>,
    ) -> (r: InputOutcome)
        requires
            old(self).wf(),
            old(serial).buffer@ == base + head,
            !(id@ == "open_editor"@ || id@ == "open_cli"@ || id@ == "quit"@ || prompt_pattern(id@) is Some),
        ensures
            final(self).wf(),
            final(self).palette_state() == old(self).palette_state(),
            extends(base, final(serial).buffer@),
            execute_step_ok(old(self)@, old(self).palette_state(), id@, head, step_of(final(self)@, base, final(serial).buffer@, r)),
    {
        let ghost v0 = self@;
        let ghost out0 = serial.buffer@;
        let no_args: Vec<String> = Vec::new();
        let args = no_args.as_slice();
        let result = self.command_palette.execute_command(&id, args);
        proof {
            assert forall|i: int|
                is_first_with_id(self.palette_state().commands(), id@, i) && self.palette_state().commands()[i].enabled implies exists|a: &[String]|
                    a@.len() == 0 && #[trigger] self.palette_state().handler_runs(i, a, result) by {
                assert(self.palette_state().handler_runs(i, args, result));
            }
            assert(palette_reply(self.palette_state(), id@, result));
        }
        let ghost mut msg: Seq<char> = Seq::empty();
        let ok: bool;
        match result {
            Ok(m) => {
                let _ = serial.write_str("  palette_result=success msg=");
                let _ = serial.write_str(m.as_str());
                let _ = serial.write_str("\n");
                self.append_output_text(m.as_str());
                ok = true;
                proof {
                    msg = m@;
                }
            },
            Err(e) => {
                let _ = serial.write_str("  palette_result=error err=");
                let _ = serial.write_str(e.as_str());
                let _ = serial.write_str("\n");
                self.append_output_text(e.as_str());
                ok = false;
                proof {
                    msg = e@;
                }
            },
        }
        let ghost said = head + (if ok {
            "  palette_result=success msg="@
        } else {
            "  palette_result=error err="@
        }) + msg + "\n"@;
        assert(serial.buffer@ =~= base + said);
        match command_for(&id) {
            Some(line) => {
                self.set_command_text(line);
                let ghost v2 = self@;
                proof {
                    lemma_exec_frame(v2);
                }
                let r = self.execute_command(serial);
                self.palette_overlay.close();
                let pending = r.is_some() && !matches!(r, Some(WorkspaceRequest::Halt));
                let out = InputOutcome { handled: true, request: r, prompt_pending: pending };
                assert(serial.buffer@ =~= base + (said + exec_out(v2)));
                proof {
                    lemma_written(base, said + exec_out(v2));
                }
                assert(palette_ran(v0, id@, head, step_of(self@, base, serial.buffer@, out), msg, ok));
                assert(reply_is(result, msg, ok));
                out
            },
            None => {
                self.palette_overlay.close();
                let out = InputOutcome { handled: true, request: None, prompt_pending: false };
                assert(serial.buffer@ =~= base + (said));
                proof {
                    lemma_written(base, said);
                }
                assert(palette_ran(v0, id@, head, step_of(self@, base, serial.buffer@, out), msg, ok));
                assert(reply_is(result, msg, ok));
                out
            },
        }
    }

    /// A byte with the palette open.
    fn palette_input(&mut self, byte: u8, serial: &mut SerialPort) -> (r: InputOutcome)
        requires
            old(self).wf(),
            old(self)@.overlay.open,
        ensures
            final(self).wf(),
            final(self).palette_state() == old(self).palette_state(),
            extends(old(serial).buffer@, final(serial).buffer@),
            palette_step_ok(
                old(self)@,
                old(self).palette_state(),
                byte,
                step_of(final(self)@, old(serial).buffer@, final(serial).buffer@, r),
            ),
    {
        let ghost v0 = self@;
        let ghost out0 = serial.buffer@;
        let _ = serial.write_str("  action=palette_input\n");
        if crate::kernel_input::byte_to_key_event(byte).is_none() {
            let _ = serial.write_str("  palette_action=unknown_byte\n");
            assert(serial.buffer@ =~= out0 + ("  action=palette_input\n"@ + "  palette_action=unknown_byte\n"@));
            proof {
                lemma_written(out0, "  action=palette_input\n"@ + "  palette_action=unknown_byte\n"@);
            }
            return InputOutcome { handled: true, request: None, prompt_pending: false };
        }
        let action = handle_palette_key(&mut self.palette_overlay, &self.command_palette, byte);
        match action {
            PaletteKeyAction::Close => {
                let _ = serial.write_str("  palette_action=close\n");
                self.palette_overlay.close();
                assert(serial.buffer@ =~= out0 + ("  action=palette_input\n"@ + "  palette_action=close\n"@));
                proof {
                    lemma_written(out0, "  action=palette_input\n"@ + "  palette_action=close\n"@);
                }
                InputOutcome { handled: true, request: None, prompt_pending: false }
            },
            PaletteKeyAction::Execute(id) => {
                let _ = serial.write_str("  palette_action=execute cmd=");
                let _ = serial.write_str(id.as_str());
                let _ = serial.write_str("\n");
                let ghost head = "  action=palette_input\n"@ + "  palette_action=execute cmd="@ + id@ + "\n"@;
                assert(serial.buffer@ =~= out0 + head);
                self.execute_palette(id, serial, Ghost(out0), Ghost(head))
            },
            PaletteKeyAction::Consumed => {
                let _ = serial.write_str("  palette_action=consumed\n");
                assert(serial.buffer@ =~= out0 + ("  action=palette_input\n"@ + "  palette_action=consumed\n"@));
                proof {
                    lemma_written(out0, "  action=palette_input\n"@ + "  palette_action=consumed\n"@);
                }
                InputOutcome { handled: true, request: None, prompt_pending: false }
            },
            PaletteKeyAction::NotHandled => {
                let _ = serial.write_str("  palette_action=none\n");
                assert(serial.buffer@ =~= out0 + ("  action=palette_input\n"@ + "  palette_action=none\n"@));
                proof {
                    lemma_written(out0, "  action=palette_input\n"@ + "  palette_action=none\n"@);
                }
                InputOutcome { handled: false, request: None, prompt_pending: false }
            },
        }
    }

    /// Handles one input byte: the palette shortcut, the open palette, the
    /// editor in front (whose bytes are handed on with a request), the CLI,
    /// or the workspace prompt, in that order. A trace of the byte is
    /// written first.
    pub fn process_input(&mut self, byte: u8, serial: &mut SerialPort) -> (r: InputOutcome)
        requires
            old(self).wf(),
        ensures
            final(self).wf(),
            final(self).palette_state() == old(self).palette_state(),
            extends(old(serial).buffer@ + route_trace(byte), final(serial).buffer@),
            input_ok(
                old(self)@,
                old(self).palette_state(),
                byte,
                step_of(final(self)@, old(serial).buffer@ + route_trace(byte), final(serial).buffer@, r),
            ),
    {
        write_trace(serial, byte);
        let ghost base = serial.buffer@;
        if byte == 0x10 && !self.palette_overlay.is_open() {
            let r = self.open_palette(serial);
            proof {
                lemma_written(base, "  action=open_palette\n"@);
            }
            return r;
        }
        if self.palette_overlay.is_open() {
            return self.palette_input(byte, serial);
        }
        if self.active_component == Some(ComponentType::Editor) && self.editor_open {
            assert(serial.buffer@ =~= base + (Seq::<char>::empty()));
            proof {
                lemma_written(base, Seq::<char>::empty());
            }
            return InputOutcome { handled: true, request: Some(WorkspaceRequest::EditorInput(byte)), prompt_pending: false };
        }
        if self.cli_active {
            let r = self.cli_input(byte, serial);
            assert(serial.buffer@ =~= base + (cli_step(old(self)@, byte).out));
            proof {
                lemma_written(base, cli_step(old(self)@, byte).out);
            }
            return r;
        }
        let r = self.prompt_input(byte, serial);
        assert(serial.buffer@ =~= base + (prompt_step(old(self)@, byte).out));
        proof {
            lemma_written(base, prompt_step(old(self)@, byte).out);
        }
        r
    }
}


/// How opening an editor went: a file opened, a path with no file (an
/// empty buffer that saves to it), a new buffer, or no filesystem.
pub enum EditorOpen {
    Opened(String),
    NotFound(String),
    NewBuffer,
    NoFilesystem,
}

/// What listing the files gave.
pub enum FileListing {
    Files(Vec<String>),
    Failed,
    NoFilesystem,
}

/// What reading a file gave.
pub enum FileRead {
    Contents(Vec<u8>),
    NotFound,
    NoFilesystem,
}

/// What writing a file gave.
pub enum FileWrite {
    Written,
    Failed,
    NoFilesystem,
}

/// The line that tells the editor's keys.
pub open spec fn editor_keys_line() -> Seq<char> {
    "Keys: i=insert, Esc=normal, h/j/k/l=move, :q=quit, :w=save"@
}

/// The lines that tell how opening an editor went.
pub open spec fn editor_open_lines(o: EditorOpen) -> Seq<Seq<char>> {
    match o {
        EditorOpen::Opened(p) => seq!["Opened: "@ + p@ + " [filesystem available]"@, editor_keys_line()],
        EditorOpen::NotFound(p) => seq![
            "File not found: "@ + p@,
            "Starting with empty buffer [filesystem available]"@,
            editor_keys_line(),
        ],
        EditorOpen::NewBuffer => seq!["New buffer [filesystem available]"@, editor_keys_line()],
        EditorOpen::NoFilesystem => seq!["Warning: No filesystem - :w will not work"@, editor_keys_line()],
    }
}

/// The views of strings.
pub open spec fn string_views(v: Seq<String>) -> Seq<Seq<char>> {
    v.map_values(|s: String| s@)
}

/// The lines that answer a file listing.
pub open spec fn listing_lines(l: FileListing) -> Seq<Seq<char>> {
    match l {
        FileListing::Files(v) => if v@.len() == 0 {
            seq!["(no files)"@]
        } else {
            string_views(v@)
        },
        FileListing::Failed => seq!["Error: failed to list files"@],
        FileListing::NoFilesystem => seq!["Error: filesystem not initialized"@],
    }
}

/// A line without the carriage return that ended it before its newline.
pub open spec fn strip_one_cr(s: Seq<char>) -> Seq<char> {
    if s.len() > 0 && s.last() == '\r' {
        s.drop_last()
    } else {
        s
    }
}

/// Each line without the carriage return before its newline.
pub open spec fn strip_each(ps: Seq<Seq<char>>) -> Seq<Seq<char>> {
    ps.map_values(|p: Seq<char>| strip_one_cr(p))
}

/// The lines of text as `str::lines` gives them: split at newlines, a
/// carriage return before a newline dropped, no empty line after a final
/// newline.
pub open spec fn text_lines(s: Seq<char>) -> Seq<Seq<char>> {
    let p = split_on(s, '\n');
    let n = if p.last().len() == 0 {
        p.len() - 1
    } else {
        p.len() as int
    };
    Seq::new(
        n as nat,
        |i: int|
            if i < p.len() - 1 {
                strip_one_cr(p[i])
            } else {
                p[i]
            },
    )
}

/// The lines that answer reading a file.
pub open spec fn read_lines(path: Seq<char>, r: FileRead) -> Seq<Seq<char>> {
    match r {
        FileRead::Contents(b) => if valid_utf8(b@) {
            text_lines(decode_utf8(b@))
        } else {
            seq!["Error: file contains invalid UTF-8"@]
        },
        FileRead::NotFound => seq!["Error: file not found: "@ + path],
        FileRead::NoFilesystem => seq!["Error: filesystem not initialized"@],
    }
}

/// The lines that answer writing a file.
pub open spec fn write_lines(path: Seq<char>, r: FileWrite) -> Seq<Seq<char>> {
    match r {
        FileWrite::Written => seq!["Wrote to "@ + path],
        FileWrite::Failed => seq!["Error: failed to write file"@],
        FileWrite::NoFilesystem => seq!["Error: filesystem not initialized"@],
    }
}

/// The prompt, when it is owed.
pub open spec fn prompt_if(owed: bool, cli_active: bool) -> Seq<char> {
    if owed {
        prompt_text(cli_active)
    } else {
        Seq::empty()
    }
}

/// The lines of text, as `str::lines` gives them.
fn text_lines_of(t: &str) -> (r: Vec<String>)
    ensures
        string_views(r@) == text_lines(t@),
{
    let chars = chars_of(t);
    let ghost s = chars@;
    let mut out: Vec<String> = Vec::new();
    let mut piece: Vec<char> = Vec::new();
    let mut start: usize = 0;
    let ghost mut done: Seq<Seq<char>> = Seq::empty();
    let mut i: usize = 0;
    assert(s.take(0) =~= Seq::<char>::empty());
    assert(s.subrange(0, 0) =~= Seq::<char>::empty());
    while i < chars.len()
        invariant
            s == chars@,
            s == t@,
            start <= i <= s.len(),
            piece@ == s.subrange(start as int, i as int),
            split_on(s.take(i as int), '\n') == done.push(s.subrange(start as int, i as int)),
            string_views(out@) == strip_each(done),
        decreases s.len() - i,
    {
        let c = chars[i];
        proof {
            lemma_split_step(s, '\n', done, start as int, i as int);
        }
        if c == '\n' {
            let mut end = piece.len();
            if end > 0 && piece[end - 1] == '\r' {
                end = end - 1;
            }
            let kept = sub_chars(&piece, 0, end);
            let line = string_of(&kept);
            let ghost p = s.subrange(start as int, i as int);
            assert(kept@ == strip_one_cr(p)) by {
                if p.len() > 0 && p.last() == '\r' {
                    assert(p.drop_last() =~= piece@.subrange(0, end as int));
                } else {
                    assert(p =~= piece@.subrange(0, end as int));
                }
            }
            let ghost prev = out@;
            assert(string_views(prev) == strip_each(done));
            assert(string_views(prev).len() == prev.len());
            assert(prev.len() == done.len());
            out.push(line);
            proof {
                assert forall|j: int| 0 <= j < out@.len() implies #[trigger] string_views(out@)[j]
                    == strip_each(done.push(p))[j] by {
                    if j < prev.len() {
                        assert(out@[j] == prev[j]);
                        assert(string_views(prev)[j] == strip_one_cr(done[j]));
                    }
                }
                assert(string_views(out@) =~= strip_each(done.push(p)));
                done = done.push(p);
            }
            piece = Vec::new();
            start = i + 1;
            assert(s.subrange(start as int, start as int) =~= Seq::<char>::empty());
        } else {
            piece.push(c);
            assert(piece@ =~= s.subrange(start as int, i + 1));
        }
        i = i + 1;
    }
    assert(s.take(s.len() as int) =~= s);
    let ghost p = split_on(s, '\n');
    assert(p == done.push(s.subrange(start as int, s.len() as int)));
    let ghost last = s.subrange(start as int, s.len() as int);
    assert(p.len() == done.len() + 1);
    assert(p.last() == last);
    assert forall|j: int| 0 <= j < done.len() implies #[trigger] text_lines(s)[j] == strip_one_cr(done[j]) by {
        assert(p[j] == done[j]);
    }
    if piece.len() > 0 {
        let ghost prev = out@;
        let line = string_of(&piece);
        out.push(line);
        assert forall|j: int| 0 <= j < out@.len() implies #[trigger] string_views(out@)[j] == text_lines(s)[j] by {
            if j < prev.len() {
                assert(out@[j] == prev[j]);
                assert(string_views(prev)[j] == strip_one_cr(done[j]));
            } else {
                assert(p[j] == last);
            }
        }
        assert(string_views(out@) =~= text_lines(s));
    } else {
        assert forall|j: int| 0 <= j < out@.len() implies #[trigger] string_views(out@)[j] == text_lines(s)[j] by {
            assert(string_views(out@)[j] == strip_one_cr(done[j]));
        }
        assert(string_views(out@) =~= text_lines(s));
    }
    out
}

impl WorkspaceSession {
    /// Emits lines, in order.
    fn emit_strings(&mut self, serial: &mut SerialPort, lines: &Vec<String>)
        requires
            old(self).wf(),
        ensures
            final(self).wf(),
            final(self).palette_state() == old(self).palette_state(),
            final(self)@ == emit_all(old(self)@, string_views(lines@)),
            final(serial).buffer@ == old(serial).buffer@ + lines_out(string_views(lines@)),
    {
        let ghost v0 = self@;
        let ghost out0 = serial.buffer@;
        let ghost all = string_views(lines@);
        let mut k: usize = 0;
        assert(all.take(0) =~= Seq::<Seq<char>>::empty());
        assert(self@ == emit_all(v0, all.take(0)));
        assert(out0 =~= out0 + lines_out(all.take(0)));
        while k < lines.len()
            invariant
                k <= lines@.len(),
                all == string_views(lines@),
                self.wf(),
                self.palette_state() == old(self).palette_state(),
                self@ == emit_all(v0, all.take(k as int)),
                serial.buffer@ == out0 + lines_out(all.take(k as int)),
            decreases lines@.len() - k,
        {
            self.emit_next(serial, lines[k].as_str(), Ghost(v0), Ghost(all.take(k as int)), Ghost(out0));
            assert(all.take(k as int).push(lines@[k as int]@) =~= all.take(k + 1));
            k = k + 1;
        }
        assert(all.take(lines@.len() as int) =~= all);
    }

    /// Emits fixed lines after lines already emitted from `base`.
    fn emit_pair(
        &mut self,
        serial: &mut SerialPort,
        first: &str,
        second: &str,
    )
        requires
            old(self).wf(),
        ensures
            final(self).wf(),
            final(self).palette_state() == old(self).palette_state(),
            final(self)@ == emit_all(old(self)@, seq![first@, second@]),
            final(serial).buffer@ == old(serial).buffer@ + lines_out(seq![first@, second@]),
    {
        let ghost v0 = self@;
        let ghost out0 = serial.buffer@;
        let ghost none: Seq<Seq<char>> = Seq::empty();
        assert(self@ == emit_all(v0, none));
        assert(out0 =~= out0 + lines_out(none));
        self.emit_next(serial, first, Ghost(v0), Ghost(none), Ghost(out0));
        let ghost one = none.push(first@);
        self.emit_next(serial, second, Ghost(v0), Ghost(one), Ghost(out0));
        assert(one.push(second@) =~= seq![first@, second@]);
    }

    /// Emits one line.
    fn emit_one(&mut self, serial: &mut SerialPort, text: &str)
        requires
            old(self).wf(),
        ensures
            final(self).wf(),
            final(self).palette_state() == old(self).palette_state(),
            final(self)@ == emit_all(old(self)@, seq![text@]),
            final(serial).buffer@ == old(serial).buffer@ + lines_out(seq![text@]),
    {
        let ghost v0 = self@;
        let ghost out0 = serial.buffer@;
        let ghost none: Seq<Seq<char>> = Seq::empty();
        assert(self@ == emit_all(v0, none));
        assert(out0 =~= out0 + lines_out(none));
        self.emit_next(serial, text, Ghost(v0), Ghost(none), Ghost(out0));
        assert(none.push(text@) =~= seq![text@]);
    }

    /// Writes the prompt when it is owed.
    fn prompt_when(&self, serial: &mut SerialPort, owed: bool)
        ensures
            final(serial).buffer@ == old(serial).buffer@ + prompt_if(owed, self@.cli_active),
    {
        if owed {
            self.show_prompt(serial);
        } else {
            assert(serial.buffer@ =~= old(serial).buffer@ + prompt_if(owed, self@.cli_active));
        }
    }

    /// The editor was closed: nothing is in front any more, and the
    /// prompt comes back.
    pub fn editor_closed(&mut self, serial: &mut SerialPort)
        requires
            old(self).wf(),
        ensures
            final(self).wf(),
            final(self).palette_state() == old(self).palette_state(),
            final(self)@ == (SessionView { active: None, editor_open: false, ..old(self)@ }),
            final(serial).buffer@ == old(serial).buffer@ + "\r\nEditor closed\r\n"@ + prompt_text(old(self)@.cli_active),
    {
        self.active_component = None;
        self.editor_open = false;
        let _ = serial.write_str("\r\nEditor closed\r\n");
        self.show_prompt(serial);
    }

    /// Tells how opening the editor went, with its keys, then writes the
    /// prompt when it is owed.
    pub fn finish_open_editor(&mut self, serial: &mut SerialPort, outcome: &EditorOpen, prompt_owed: bool)
        requires
            old(self).wf(),
        ensures
            final(self).wf(),
            final(self).palette_state() == old(self).palette_state(),
            final(self)@ == emit_all(old(self)@, editor_open_lines(*outcome)),
            final(serial).buffer@ == old(serial).buffer@ + lines_out(editor_open_lines(*outcome)) + prompt_if(
                prompt_owed,
                old(self)@.cli_active,
            ),
    {
        let ghost v0 = self@;
        let ghost out0 = serial.buffer@;
        let keys = "Keys: i=insert, Esc=normal, h/j/k/l=move, :q=quit, :w=save";
        match outcome {
            EditorOpen::Opened(p) => {
                let mut line = owned("Opened: ");
                push_str(&mut line, p.as_str());
                push_str(&mut line, " [filesystem available]");
                self.emit_pair(serial, line.as_str(), keys);
            },
            EditorOpen::NotFound(p) => {
                let mut line = owned("File not found: ");
                push_str(&mut line, p.as_str());
                self.emit_one(serial, line.as_str());
                let ghost v1 = self@;
                let ghost out1 = serial.buffer@;
                self.emit_pair(serial, "Starting with empty buffer [filesystem available]", keys);
                proof {
                    lemma_emit_concat(v0.log, seq![line@], seq!["Starting with empty buffer [filesystem available]"@, keys@]);
                    assert(seq![line@] + seq!["Starting with empty buffer [filesystem available]"@, keys@] =~= editor_open_lines(*outcome));
                }
            },
            EditorOpen::NewBuffer => {
                self.emit_pair(serial, "New buffer [filesystem available]", keys);
            },
            EditorOpen::NoFilesystem => {
                self.emit_pair(serial, "Warning: No filesystem - :w will not work", keys);
            },
        }
        self.prompt_when(serial, prompt_owed);
    }

    /// Tells whether the command went to the command service, then writes
    /// the prompt when it is owed.
    pub fn finish_delegation(&mut self, serial: &mut SerialPort, sent: bool, prompt_owed: bool)
        requires
            old(self).wf(),
        ensures
            final(self).wf(),
            final(self).palette_state() == old(self).palette_state(),
            final(self)@ == emit_all(
                old(self)@,
                seq![if sent { "(Delegated to command service)"@ } else { "Error: command queue full"@ }],
            ),
            final(serial).buffer@ == old(serial).buffer@ + lines_out(
                seq![if sent { "(Delegated to command service)"@ } else { "Error: command queue full"@ }],
            ) + prompt_if(prompt_owed, old(self)@.cli_active),
    {
        if sent {
            self.emit_one(serial, "(Delegated to command service)");
        } else {
            self.emit_one(serial, "Error: command queue full");
        }
        self.prompt_when(serial, prompt_owed);
    }

    /// Shows a file listing, then writes the prompt when it is owed.
    pub fn finish_list_files(&mut self, serial: &mut SerialPort, listing: &FileListing, prompt_owed: bool)
        requires
            old(self).wf(),
        ensures
            final(self).wf(),
            final(self).palette_state() == old(self).palette_state(),
            final(self)@ == emit_all(old(self)@, listing_lines(*listing)),
            final(serial).buffer@ == old(serial).buffer@ + lines_out(listing_lines(*listing)) + prompt_if(
                prompt_owed,
                old(self)@.cli_active,
            ),
    {
        match listing {
            FileListing::Files(v) => {
                if v.len() == 0 {
                    self.emit_one(serial, "(no files)");
                } else {
                    self.emit_strings(serial, v);
                }
            },
            FileListing::Failed => {
                self.emit_one(serial, "Error: failed to list files");
            },
            FileListing::NoFilesystem => {
                self.emit_one(serial, "Error: filesystem not initialized");
            },
        }
        self.prompt_when(serial, prompt_owed);
    }

    /// Shows a file's lines, or why it could not, then writes the prompt
    /// when it is owed.
    pub fn finish_read_file(&mut self, serial: &mut SerialPort, path: &str, read: &FileRead, prompt_owed: bool)
        requires
            old(self).wf(),
        ensures
            final(self).wf(),
            final(self).palette_state() == old(self).palette_state(),
            final(self)@ == emit_all(old(self)@, read_lines(path@, *read)),
            final(serial).buffer@ == old(serial).buffer@ + lines_out(read_lines(path@, *read)) + prompt_if(
                prompt_owed,
                old(self)@.cli_active,
            ),
    {
        match read {
            FileRead::Contents(b) => {
                match utf8_text(b.as_slice()) {
                    Some(t) => {
                        let lines = text_lines_of(t);
                        self.emit_strings(serial, &lines);
                    },
                    None => {
                        self.emit_one(serial, "Error: file contains invalid UTF-8");
                    },
                }
            },
            FileRead::NotFound => {
                let mut line = owned("Error: file not found: ");
                push_str(&mut line, path);
                self.emit_one(serial, line.as_str());
            },
            FileRead::NoFilesystem => {
                self.emit_one(serial, "Error: filesystem not initialized");
            },
        }
        self.prompt_when(serial, prompt_owed);
    }

    /// Tells whether a file was written, then writes the prompt when it is
    /// owed.
    pub fn finish_write_file(&mut self, serial: &mut SerialPort, path: &str, result: &FileWrite, prompt_owed: bool)
        requires
            old(self).wf(),
        ensures
            final(self).wf(),
            final(self).palette_state() == old(self).palette_state(),
            final(self)@ == emit_all(old(self)@, write_lines(path@, *result)),
            final(serial).buffer@ == old(serial).buffer@ + lines_out(write_lines(path@, *result)) + prompt_if(
                prompt_owed,
                old(self)@.cli_active,
            ),
    {
        match result {
            FileWrite::Written => {
                let mut line = owned("Wrote to ");
                push_str(&mut line, path);
                self.emit_one(serial, line.as_str());
            },
            FileWrite::Failed => {
                self.emit_one(serial, "Error: failed to write file");
            },
            FileWrite::NoFilesystem => {
                self.emit_one(serial, "Error: filesystem not initialized");
            },
        }
        self.prompt_when(serial, prompt_owed);
    }
}

} // verus!
