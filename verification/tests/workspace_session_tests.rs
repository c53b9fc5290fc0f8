use pandagen::kernel_console::{ChannelId, MessageId};
use pandagen::output::SerialPort;
use pandagen::workspace_session::{
    EditorOpen, FileListing, FileRead, FileWrite, InputOutcome, WorkspaceRequest, WorkspaceSession,
};

fn feed(session: &mut WorkspaceSession, serial: &mut SerialPort, text: &[u8]) -> Vec<InputOutcome> {
    let mut out = Vec::new();
    for b in text {
        out.push(session.process_input(*b, serial));
    }
    out
}

fn last(session: &mut WorkspaceSession, serial: &mut SerialPort, text: &[u8]) -> InputOutcome {
    feed(session, serial, text).pop().unwrap()
}

fn log_lines(session: &WorkspaceSession) -> Vec<String> {
    let mut v = Vec::new();
    for i in 0..session.output_line_count() {
        let line = session.output_line(i).unwrap();
        v.push(String::from_utf8(line.as_bytes().to_vec()).unwrap());
    }
    v
}

/// Output without the per-byte trace lines.
fn shown(serial: &SerialPort) -> String {
    let mut out = String::new();
    let mut rest = serial.buffer.as_str();
    while let Some(i) = rest.find("route_input:\n") {
        out.push_str(&rest[..i]);
        let after = &rest[i..];
        let end = after.find("focus_tile={\"Unavailable\"}\n").unwrap() + "focus_tile={\"Unavailable\"}\n".len();
        rest = &after[end..];
    }
    out.push_str(rest);
    out
}

fn activate_cli(session: &mut WorkspaceSession, serial: &mut SerialPort) {
    feed(session, serial, b"open cli\r");
    assert!(session.is_cli_active());
}

#[test]
fn test_cli_state_initialization() {
    let session = WorkspaceSession::new(ChannelId(0), ChannelId(1));
    assert!(!session.is_cli_active());
    assert_eq!(session.get_command_text().len(), 0);
    assert_eq!(session.get_cursor_col(), "WS > ".len());
}

#[test]
fn test_cli_buffer_management() {
    let mut serial = SerialPort::new(0x3F8);

    let mut session = WorkspaceSession::new(ChannelId(0), ChannelId(1));

    activate_cli(&mut session, &mut serial);
    assert!(session.is_cli_active());
    assert_eq!(session.get_command_text().len(), 0);

    feed(&mut session, &mut serial, b"x");
    assert_eq!(session.get_command_text(), b"x");
    feed(&mut session, &mut serial, b"\r");
    assert_eq!(session.get_command_text().len(), 0);
    assert_eq!(session.get_cursor_col(), "CLI> ".len());
}

#[test]
fn test_cli_prompt_display() {
    let mut serial = SerialPort::new(0x3F8);

    let mut session = WorkspaceSession::new(ChannelId(0), ChannelId(1));

    session.show_prompt(&mut serial);
    assert_eq!(serial.buffer, "WS > ");

    activate_cli(&mut session, &mut serial);
    serial.buffer.clear();
    session.show_prompt(&mut serial);
    assert_eq!(serial.buffer, "CLI> ");
}

#[test]
fn test_get_command_text_cli_vs_normal() {
    let mut session = WorkspaceSession::new(ChannelId(0), ChannelId(1));
    let mut serial = SerialPort::new(0x3F8);

    feed(&mut session, &mut serial, b"hello");
    assert_eq!(session.get_command_text(), b"hello");

    // The palette's CLI command switches to the CLI without touching the
    // prompt's line.
    feed(&mut session, &mut serial, &[0x10]);
    feed(&mut session, &mut serial, b"switch\r");
    assert!(session.is_cli_active());
    feed(&mut session, &mut serial, b"world");

    assert_eq!(session.get_command_text(), b"world");

    feed(&mut session, &mut serial, &[0x1B]);
    assert!(!session.is_cli_active());
    assert_eq!(session.get_command_text(), b"hello");
}

#[test]
fn test_get_cursor_col_cli_vs_normal() {
    let mut session = WorkspaceSession::new(ChannelId(0), ChannelId(1));
    let mut serial = SerialPort::new(0x3F8);

    feed(&mut session, &mut serial, b"abcde");
    assert_eq!(session.get_cursor_col(), "WS > ".len() + 5);
    feed(&mut session, &mut serial, &[0x7F, 0x7F, 0x7F, 0x7F, 0x7F]);

    activate_cli(&mut session, &mut serial);
    feed(&mut session, &mut serial, b"abcdefghij");
    feed(&mut session, &mut serial, &[0x08, 0x08, 0x08]);
    assert_eq!(session.get_cursor_col(), "CLI> ".len() + 7);
}

#[test]
fn test_status_line_changes_with_cli() {
    let mut session = WorkspaceSession::new(ChannelId(0), ChannelId(1));
    assert!(session.status_line().starts_with("WS:"));

    let mut serial = SerialPort::new(0x3F8);
    activate_cli(&mut session, &mut serial);
    assert!(session.status_line().starts_with("CLI:"));
}

#[test]
fn session_trace_comes_first() {
    let mut session = WorkspaceSession::new(ChannelId(0), ChannelId(1));
    let mut serial = SerialPort::new(0x3F8);
    let r = session.process_input(b'h', &mut serial);
    assert!(r.handled);
    assert_eq!(serial.buffer, "route_input:\n  key={byte=0x68}\n  focus_tile={\"Unavailable\"}\nh");
    let mut serial = SerialPort::new(0x3F8);
    let r = session.process_input(0x00, &mut serial);
    assert!(!r.handled);
    assert_eq!(serial.buffer, "route_input:\n  key={byte=0x0}\n  focus_tile={\"Unavailable\"}\n");
}

#[test]
fn session_help_lists_commands() {
    let mut session = WorkspaceSession::new(ChannelId(0), ChannelId(1));
    let mut serial = SerialPort::new(0x3F8);
    let r = last(&mut session, &mut serial, b"help\r");
    assert!(r.handled);
    assert_eq!(r.request, None);
    let text = shown(&serial);
    assert!(text.starts_with("help\r\nWS > help\nWorkspace Commands:\nhelp           - Show this help\n"));
    assert!(text.ends_with("ticks          - Show system ticks\nWS > "));
    let lines = log_lines(&session);
    assert_eq!(lines.len(), 18);
    assert_eq!(lines[0], "WS > help");
    assert_eq!(lines[8], "");
    assert_eq!(lines[17], "ticks          - Show system ticks");
    assert_eq!(session.get_command_text().len(), 0);
}

#[test]
fn session_unknown_command_is_cut_to_a_log_line() {
    let mut session = WorkspaceSession::new(ChannelId(0), ChannelId(1));
    let mut serial = SerialPort::new(0x3F8);
    feed(&mut session, &mut serial, b"frobnicate\r");
    assert_eq!(log_lines(&session)[1], "Unknown command: frobnicate. Type 'help' for help.");
    let word = "z".repeat(60);
    feed(&mut session, &mut serial, word.as_bytes());
    feed(&mut session, &mut serial, b"\r");
    let line = log_lines(&session)[3].clone();
    assert_eq!(line.len(), 80);
    assert!(line.starts_with("Unknown command: zzzz"));
}

#[test]
fn session_list_and_quit() {
    let mut session = WorkspaceSession::new(ChannelId(0), ChannelId(1));
    let mut serial = SerialPort::new(0x3F8);
    feed(&mut session, &mut serial, b"list\r");
    feed(&mut session, &mut serial, b"quit\r");
    feed(&mut session, &mut serial, b"focus\r");
    assert_eq!(
        log_lines(&session),
        vec![
            "WS > list",
            "Active components:",
            "  (none)",
            "WS > quit",
            "No active component (use 'halt' to stop)",
            "WS > focus",
            "Focus switching unavailable (no console_vga)",
        ]
    );
}

#[test]
fn session_open_editor_routes_bytes_to_it() {
    let mut session = WorkspaceSession::new(ChannelId(0), ChannelId(1));
    let mut serial = SerialPort::new(0x3F8);
    let r = last(&mut session, &mut serial, b"open editor notes.txt\r");
    assert_eq!(r.request, Some(WorkspaceRequest::OpenEditor(Some("notes.txt".to_string()))));
    assert!(r.prompt_pending);
    assert!(session.is_editor_active());
    assert!(!shown(&serial).ends_with("WS > "));

    serial.buffer.clear();
    session.finish_open_editor(&mut serial, &EditorOpen::NotFound("notes.txt".to_string()), true);
    assert_eq!(
        serial.buffer,
        "File not found: notes.txt\nStarting with empty buffer [filesystem available]\nKeys: i=insert, Esc=normal, h/j/k/l=move, :q=quit, :w=save\nWS > "
    );

    let r = session.process_input(b'i', &mut serial);
    assert_eq!(r.request, Some(WorkspaceRequest::EditorInput(b'i')));
    assert!(r.handled);

    serial.buffer.clear();
    session.editor_closed(&mut serial);
    assert!(!session.is_editor_active());
    assert_eq!(serial.buffer, "\r\nEditor closed\r\nWS > ");
}

#[test]
fn session_file_commands_ask_for_the_filesystem() {
    let mut session = WorkspaceSession::new(ChannelId(0), ChannelId(1));
    let mut serial = SerialPort::new(0x3F8);
    let r = last(&mut session, &mut serial, b"write a.txt hello   world\r");
    assert_eq!(
        r.request,
        Some(WorkspaceRequest::WriteFile("a.txt".to_string(), "hello world".to_string()))
    );
    serial.buffer.clear();
    session.finish_write_file(&mut serial, "a.txt", &FileWrite::Written, r.prompt_pending);
    assert_eq!(serial.buffer, "Wrote to a.txt\nWS > ");

    let r = last(&mut session, &mut serial, b"cat a.txt\r");
    assert_eq!(r.request, Some(WorkspaceRequest::ReadFile("a.txt".to_string())));
    serial.buffer.clear();
    session.finish_read_file(&mut serial, "a.txt", &FileRead::Contents(b"one\r\ntwo\n".to_vec()), true);
    assert_eq!(serial.buffer, "one\ntwo\nWS > ");

    serial.buffer.clear();
    session.finish_read_file(&mut serial, "b.txt", &FileRead::NotFound, false);
    assert_eq!(serial.buffer, "Error: file not found: b.txt\n");
    serial.buffer.clear();
    session.finish_read_file(&mut serial, "c.bin", &FileRead::Contents(vec![0xFF, 0xFE]), false);
    assert_eq!(serial.buffer, "Error: file contains invalid UTF-8\n");

    let r = last(&mut session, &mut serial, b"ls\r");
    assert_eq!(r.request, Some(WorkspaceRequest::ListFiles));
    serial.buffer.clear();
    session.finish_list_files(&mut serial, &FileListing::Files(vec![]), true);
    assert_eq!(serial.buffer, "(no files)\nWS > ");
    serial.buffer.clear();
    session.finish_list_files(&mut serial, &FileListing::Files(vec!["a.txt".to_string(), "b.txt".to_string()]), false);
    assert_eq!(serial.buffer, "a.txt\nb.txt\n");
    serial.buffer.clear();
    session.finish_list_files(&mut serial, &FileListing::NoFilesystem, false);
    assert_eq!(serial.buffer, "Error: filesystem not initialized\n");

    let r = last(&mut session, &mut serial, b"cat\r");
    assert_eq!(r.request, None);
    assert_eq!(log_lines(&session).last().unwrap(), "Usage: cat <path>");
}

#[test]
fn session_system_commands_delegate() {
    let mut session = WorkspaceSession::new(ChannelId(0), ChannelId(1));
    let mut serial = SerialPort::new(0x3F8);
    let r = last(&mut session, &mut serial, b"boot\r");
    assert_eq!(r.request, Some(WorkspaceRequest::Delegate("boot".to_string())));
    assert!(r.prompt_pending);
    serial.buffer.clear();
    session.finish_delegation(&mut serial, false, true);
    assert_eq!(serial.buffer, "Error: command queue full\nWS > ");

    let r = last(&mut session, &mut serial, b"halt\r");
    assert_eq!(r.request, Some(WorkspaceRequest::Halt));
    assert!(!r.prompt_pending);
    assert!(shown(&serial).ends_with("Halting system...\n"));
}

#[test]
fn session_cli_greets_once_and_exits() {
    let mut session = WorkspaceSession::new(ChannelId(0), ChannelId(1));
    let mut serial = SerialPort::new(0x3F8);
    activate_cli(&mut session, &mut serial);
    assert!(shown(&serial).ends_with(
        "WS > open cli\nCLI mode: type commands, `exit` to leave\nTip: Ctrl+P opens Commands.\nCLI> "
    ));
    feed(&mut session, &mut serial, b"exit\r");
    assert!(!session.is_cli_active());
    assert!(shown(&serial).ends_with("CLI> exit\nReturned to workspace\n"));
    serial.buffer.clear();
    activate_cli(&mut session, &mut serial);
    assert!(shown(&serial).ends_with("WS > open cli\nCLI mode: type commands, `exit` to leave\nCLI> "));
    let r = last(&mut session, &mut serial, &[0x80]);
    assert!(r.handled);
    let r = last(&mut session, &mut serial, &[0x01]);
    assert!(!r.handled);
}

#[test]
fn session_palette_opens_and_closes() {
    let mut session = WorkspaceSession::new(ChannelId(0), ChannelId(1));
    let mut serial = SerialPort::new(0x3F8);
    let r = session.process_input(0x10, &mut serial);
    assert!(r.handled);
    assert!(session.is_palette_open());
    assert_eq!(session.palette_overlay().results.len(), 13);
    assert!(serial.buffer.ends_with("  action=open_palette\n"));
    let r = session.process_input(0x01, &mut serial);
    assert!(r.handled);
    assert!(serial.buffer.ends_with("  palette_action=unknown_byte\n"));
    let r = session.process_input(0x1B, &mut serial);
    assert!(r.handled);
    assert!(!session.is_palette_open());
    assert!(serial.buffer.ends_with("  palette_action=close\n"));
}

#[test]
fn session_palette_runs_commands() {
    let mut session = WorkspaceSession::new(ChannelId(0), ChannelId(1));
    let mut serial = SerialPort::new(0x3F8);
    session.process_input(0x10, &mut serial);
    let r = last(&mut session, &mut serial, b"ticks\r");
    assert!(!session.is_palette_open());
    assert_eq!(r.request, Some(WorkspaceRequest::Delegate("ticks".to_string())));
    assert!(serial.buffer.contains("  palette_action=execute cmd=ticks\n  palette_result=success msg=System ticks\n"));
    let lines = log_lines(&session);
    assert_eq!(lines, vec!["System ticks", "WS > ticks"]);

    session.process_input(0x10, &mut serial);
    feed(&mut session, &mut serial, b"cat\r");
    assert!(!session.is_palette_open());
    assert_eq!(session.get_command_text(), b"cat ");
}

#[test]
fn delegation_request_targets_the_command_channel() {
    let session = WorkspaceSession::new(ChannelId(3), ChannelId(4));
    assert_eq!(session.command_channel(), ChannelId(3));
    assert_eq!(session.response_channel(), ChannelId(4));
    assert_eq!(session.output_sequence(), 0);
    let (channel, request) = session.delegation_request("mem", MessageId(9)).unwrap();
    assert_eq!(channel, ChannelId(3));
    assert_eq!(request.request_id(), MessageId(9));
    assert_eq!(request.reply_channel(), ChannelId(4));
    assert_eq!(request.as_str(), Some("mem"));
    let long = "x".repeat(100);
    let (_, request) = session.delegation_request(&long, MessageId(10)).unwrap();
    assert_eq!(request.as_str().map(|t| t.len()), Some(64));
}
