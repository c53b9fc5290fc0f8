use pandagen::command_palette::{CommandDescriptor, CommandPalette};
use pandagen::palette_overlay::{handle_palette_key, FocusTarget, PaletteKeyAction, PaletteOverlayState};

fn create_test_palette() -> CommandPalette {
    let mut palette = CommandPalette::new();

    palette.register_command(
        CommandDescriptor::new(
            "open_editor",
            "Open Editor",
            "Opens a text editor",
            vec!["editor".to_string(), "edit".to_string()],
        ),
        Box::new(|_: &[String]| Ok("Editor opened".to_string())),
    );

    palette.register_command(
        CommandDescriptor::new(
            "save_file",
            "Save File",
            "Saves the current file",
            vec!["file".to_string(), "save".to_string()],
        ),
        Box::new(|_: &[String]| Ok("File saved".to_string())),
    );

    palette.register_command(
        CommandDescriptor::new(
            "quit",
            "Quit",
            "Quit the application",
            vec!["exit".to_string(), "close".to_string()],
        ),
        Box::new(|_: &[String]| Ok("Quitting".to_string())),
    );

    palette
}

#[test]
fn test_palette_open_close() {
    let mut state = PaletteOverlayState::new();

    assert!(!state.is_open());

    state.open(FocusTarget::Editor);
    assert!(state.is_open());
    assert_eq!(state.prev_focus(), FocusTarget::Editor);

    state.close();
    assert!(!state.is_open());
}

#[test]
fn test_query_update() {
    let palette = create_test_palette();
    let mut state = PaletteOverlayState::new();
    state.open(FocusTarget::NoFocus);

    state.update_query(&palette, "edit".to_string());
    assert_eq!(state.query(), "edit");
    assert!(state.result_count() > 0);
}

#[test]
fn test_append_char() {
    let palette = create_test_palette();
    let mut state = PaletteOverlayState::new();
    state.open(FocusTarget::NoFocus);

    state.append_char(&palette, 'e');
    state.append_char(&palette, 'd');
    state.append_char(&palette, 'i');
    state.append_char(&palette, 't');

    assert_eq!(state.query(), "edit");
}

#[test]
fn test_backspace() {
    let palette = create_test_palette();
    let mut state = PaletteOverlayState::new();
    state.open(FocusTarget::NoFocus);

    state.append_char(&palette, 'a');
    state.append_char(&palette, 'b');
    assert_eq!(state.query(), "ab");

    state.backspace(&palette);
    assert_eq!(state.query(), "a");

    state.backspace(&palette);
    assert_eq!(state.query(), "");

    state.backspace(&palette); // Should not crash
    assert_eq!(state.query(), "");
}

#[test]
fn test_selection_movement() {
    let palette = create_test_palette();
    let mut state = PaletteOverlayState::new();
    state.open(FocusTarget::NoFocus);

    state.update_query(&palette, "".to_string()); // Get all commands

    assert_eq!(state.selection_index(), 0);

    state.move_selection_down();
    assert_eq!(state.selection_index(), 1);

    state.move_selection_down();
    assert_eq!(state.selection_index(), 2);

    state.move_selection_up();
    assert_eq!(state.selection_index(), 1);

    state.move_selection_up();
    assert_eq!(state.selection_index(), 0);

    state.move_selection_up(); // Should stay at 0
    assert_eq!(state.selection_index(), 0);
}

#[test]
fn test_selected_command() {
    let palette = create_test_palette();
    let mut state = PaletteOverlayState::new();
    state.open(FocusTarget::NoFocus);

    state.update_query(&palette, "edit".to_string());

    assert!(state.selected_command().is_some());
}

#[test]
fn test_handle_escape() {
    let palette = create_test_palette();
    let mut state = PaletteOverlayState::new();
    state.open(FocusTarget::NoFocus);

    let action = handle_palette_key(&mut state, &palette, 0x1B);
    assert_eq!(action, PaletteKeyAction::Close);
}

#[test]
fn test_handle_enter() {
    let palette = create_test_palette();
    let mut state = PaletteOverlayState::new();
    state.open(FocusTarget::NoFocus);

    state.update_query(&palette, "edit".to_string());

    let action = handle_palette_key(&mut state, &palette, b'\n');
    assert!(matches!(action, PaletteKeyAction::Execute(_)));
}

#[test]
fn test_handle_printable() {
    let palette = create_test_palette();
    let mut state = PaletteOverlayState::new();
    state.open(FocusTarget::NoFocus);

    let action = handle_palette_key(&mut state, &palette, b'a');
    assert_eq!(action, PaletteKeyAction::Consumed);
    assert_eq!(state.query(), "a");
}

#[test]
fn test_handle_backspace() {
    let palette = create_test_palette();
    let mut state = PaletteOverlayState::new();
    state.open(FocusTarget::NoFocus);

    state.append_char(&palette, 'a');
    state.append_char(&palette, 'b');

    let action = handle_palette_key(&mut state, &palette, 0x08);
    assert_eq!(action, PaletteKeyAction::Consumed);
    assert_eq!(state.query(), "a");
}

#[test]
fn test_empty_query_shows_all() {
    let palette = create_test_palette();
    let mut state = PaletteOverlayState::new();
    state.open(FocusTarget::NoFocus);

    state.update_query(&palette, "".to_string());
    assert_eq!(state.result_count(), 3); // All three commands
}

#[test]
fn test_filtered_results() {
    let palette = create_test_palette();
    let mut state = PaletteOverlayState::new();
    state.open(FocusTarget::NoFocus);

    state.update_query(&palette, "edit".to_string());
    assert!(state.result_count() > 0);

    // The "Open Editor" command should match
    let results = state.displayed_results();
    assert!(results.iter().any(|r| r.id.as_str() == "open_editor"));
}

#[test]
fn editing_keys_refresh_results() {
    let palette = create_test_palette();
    let mut state = PaletteOverlayState::new();
    state.open(FocusTarget::NoFocus);
    assert_eq!(handle_palette_key(&mut state, &palette, b'q'), PaletteKeyAction::Consumed);
    assert_eq!(state.result_count(), 1);
    assert_eq!(handle_palette_key(&mut state, &palette, b'z'), PaletteKeyAction::Consumed);
    assert_eq!(state.result_count(), 0);
    assert_eq!(handle_palette_key(&mut state, &palette, 0x7F), PaletteKeyAction::Consumed);
    assert_eq!(state.query(), "q");
    assert_eq!(state.result_count(), 1);
    assert_eq!(handle_palette_key(&mut state, &palette, 0x7F), PaletteKeyAction::Consumed);
    assert_eq!(state.result_count(), 3);
    assert_eq!(handle_palette_key(&mut state, &palette, 0x08), PaletteKeyAction::Consumed);
    assert_eq!(state.query(), "");
    assert_eq!(state.result_count(), 3);
    assert_eq!(state.selection_index(), 0);
}
