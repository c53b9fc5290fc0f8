use pandagen::minimal_editor::{CoreIoRequest, CoreOutcome, EditorMode, EditorStep, MinimalEditor, Position};

#[test]
fn editor_viewport_follows_the_cursor() {
    let mut editor = MinimalEditor::new(10);
    assert_eq!(editor.on_outcome(CoreOutcome::Changed, 3), EditorStep::Continue);
    assert_eq!(editor.scroll_offset(), 0);
    editor.on_outcome(CoreOutcome::Changed, 15);
    assert_eq!(editor.scroll_offset(), 6);
    assert_eq!(editor.get_viewport_cursor(Position::new(15, 4)), Some(Position::new(9, 4)));
    assert_eq!(editor.get_viewport_cursor(Position::new(2, 0)), None);
    editor.on_outcome(CoreOutcome::Changed, 2);
    assert_eq!(editor.scroll_offset(), 2);
    assert_eq!(editor.viewport_buffer_row(3), 5);
}

#[test]
fn editor_status_line_priority() {
    let mut editor = MinimalEditor::new(24);
    assert_eq!(editor.status_line("", EditorMode::Normal), "-- NORMAL --");
    assert_eq!(editor.status_line("", EditorMode::Insert), "-- INSERT --");
    assert_eq!(editor.status_line("core says", EditorMode::Insert), "core says");
    editor.on_outcome(CoreOutcome::StatusMessage("mine".to_string()), 0);
    assert_eq!(editor.status_line("core says", EditorMode::Insert), "mine");
    editor.on_outcome(CoreOutcome::Continue, 0);
    assert_eq!(editor.status_line("", EditorMode::Command), "-- COMMAND --");
}

#[test]
fn editor_without_filesystem_marks_saved_and_quits() {
    let mut editor = MinimalEditor::new(24);
    assert_eq!(editor.on_outcome(CoreOutcome::RequestIo(CoreIoRequest::Save), 0), EditorStep::MarkSaved);
    assert_eq!(editor.status_line("", EditorMode::Normal), "Filesystem unavailable");
    assert_eq!(editor.on_outcome(CoreOutcome::RequestIo(CoreIoRequest::SaveAndQuit), 0), EditorStep::Quit);
    assert_eq!(editor.on_outcome(CoreOutcome::RequestExit, 0), EditorStep::Quit);
}

#[test]
fn editor_with_filesystem_saves() {
    let mut editor = MinimalEditor::new(24);
    editor.set_editor_io(false);
    assert_eq!(editor.on_outcome(CoreOutcome::RequestIo(CoreIoRequest::Save), 0), EditorStep::Continue);
    assert_eq!(editor.status_line("", EditorMode::Normal), "Error: no file path (use :w <path>)");
    assert_eq!(
        editor.on_outcome(CoreOutcome::RequestIo(CoreIoRequest::SaveAs("a.txt".to_string())), 0),
        EditorStep::SaveAs("a.txt".to_string())
    );
    assert!(editor.on_saved_as(Ok("Saved a.txt".to_string())));
    assert_eq!(editor.status_line("", EditorMode::Normal), "Saved a.txt");
    assert_eq!(editor.on_outcome(CoreOutcome::RequestIo(CoreIoRequest::Save), 0), EditorStep::Save);
    assert!(!editor.on_saved(Err(())));
    assert_eq!(editor.status_line("", EditorMode::Normal), "Error: failed to save file");
    assert_eq!(
        editor.on_outcome(CoreOutcome::RequestIo(CoreIoRequest::SaveAndQuit), 0),
        EditorStep::SaveThenQuit
    );
}
