use pandagen::command_palette::{CommandDescriptor, CommandId, CommandPalette};

#[test]
fn test_command_id_creation() {
    let id = CommandId::new("test_command");
    assert_eq!(id.as_str(), "test_command");
}

#[test]
fn test_command_descriptor_creation() {
    let desc = CommandDescriptor::new(
        "open_editor",
        "Open Editor",
        "Opens a text editor",
        vec!["editor".to_string(), "text".to_string()],
    );

    assert_eq!(desc.id.as_str(), "open_editor");
    assert_eq!(desc.name, "Open Editor");
    assert_eq!(desc.description, "Opens a text editor");
    assert_eq!(desc.tags.len(), 2);
    assert!(desc.enabled);
    assert!(desc.required_capability.is_none());
}

#[test]
fn test_command_descriptor_with_capability() {
    let desc = CommandDescriptor::new(
        "open_file",
        "Open File",
        "Opens a file",
        vec!["file".to_string()],
    )
    .with_capability("fs_read");

    assert_eq!(desc.required_capability, Some("fs_read".to_string()));
}

#[test]
fn test_command_descriptor_disabled() {
    let desc = CommandDescriptor::new(
        "test",
        "Test",
        "Test command",
        vec![],
    )
    .disabled();

    assert!(!desc.enabled);
}

#[test]
fn test_command_matches() {
    let desc = CommandDescriptor::new(
        "open_editor",
        "Open Editor",
        "Opens a text editor",
        vec!["editor".to_string(), "text".to_string()],
    );

    assert!(desc.matches("edit"));
    assert!(desc.matches("editor"));
    assert!(desc.matches("text"));
    assert!(desc.matches("open"));
    assert!(!desc.matches("file"));
}

#[test]
fn test_command_relevance_score() {
    let desc = CommandDescriptor::new(
        "open_editor",
        "Open Editor",
        "Opens a text editor",
        vec!["editor".to_string(), "text".to_string()],
    );

    // Exact name match should score highest
    let score_exact = desc.relevance_score("Open Editor");

    // Prefix match should score lower
    let score_prefix = desc.relevance_score("Open");

    // Contains match should score even lower
    let score_contains = desc.relevance_score("dit");

    assert!(score_exact > score_prefix);
    assert!(score_prefix > score_contains);
}

#[test]
fn test_disabled_command_no_match() {
    let desc = CommandDescriptor::new(
        "test",
        "Test Command",
        "Test",
        vec![],
    )
    .disabled();

    assert!(!desc.matches("test"));
    assert_eq!(desc.relevance_score("test"), 0);
}

#[test]
fn test_palette_register_command() {
    let mut palette = CommandPalette::new();
    let desc = CommandDescriptor::new(
        "test",
        "Test",
        "Test command",
        vec![],
    );

    palette.register_command(desc.clone(), Box::new(|_: &[String]| Ok("test".to_string())));

    let commands = palette.list_commands();
    assert_eq!(commands.len(), 1);
    assert_eq!(commands[0].id.as_str(), "test");
}

#[test]
fn test_palette_unregister_command() {
    let mut palette = CommandPalette::new();
    let desc = CommandDescriptor::new(
        "test",
        "Test",
        "Test command",
        vec![],
    );
    let id = desc.id.clone();

    palette.register_command(desc, Box::new(|_: &[String]| Ok("test".to_string())));
    assert_eq!(palette.list_commands().len(), 1);

    let removed = palette.unregister_command(&id);
    assert!(removed);
    assert_eq!(palette.list_commands().len(), 0);

    let removed_again = palette.unregister_command(&id);
    assert!(!removed_again);
}

#[test]
fn test_palette_filter_commands() {
    let mut palette = CommandPalette::new();

    palette.register_command(
        CommandDescriptor::new(
            "open_editor",
            "Open Editor",
            "Opens a text editor",
            vec!["editor".to_string()],
        ),
        Box::new(|_: &[String]| Ok("".to_string())),
    );

    palette.register_command(
        CommandDescriptor::new(
            "open_file",
            "Open File",
            "Opens a file",
            vec!["file".to_string()],
        ),
        Box::new(|_: &[String]| Ok("".to_string())),
    );

    palette.register_command(
        CommandDescriptor::new(
            "save_file",
            "Save File",
            "Saves a file",
            vec!["file".to_string(), "save".to_string()],
        ),
        Box::new(|_: &[String]| Ok("".to_string())),
    );

    let matches = palette.filter_commands("file");
    assert_eq!(matches.len(), 2);

    let matches = palette.filter_commands("open");
    assert_eq!(matches.len(), 2);

    let matches = palette.filter_commands("editor");
    assert_eq!(matches.len(), 1);
    assert_eq!(matches[0].id.as_str(), "open_editor");
}

#[test]
fn test_palette_execute_command() {
    let mut palette = CommandPalette::new();
    let desc = CommandDescriptor::new(
        "test",
        "Test",
        "Test command",
        vec![],
    );
    let id = desc.id.clone();

    palette.register_command(desc, Box::new(|args: &[String]| {
        Ok(format!("executed with {} args", args.len()))
    }));

    let result = palette.execute_command(&id, &[]);
    assert!(result.is_ok());
    assert_eq!(result.unwrap(), "executed with 0 args");

    let result = palette.execute_command(
        &id,
        &["arg1".to_string(), "arg2".to_string()],
    );
    assert!(result.is_ok());
    assert_eq!(result.unwrap(), "executed with 2 args");
}

#[test]
fn test_palette_execute_nonexistent_command() {
    let palette = CommandPalette::new();
    let result = palette.execute_command(&CommandId::new("nonexistent"), &[]);
    assert!(result.is_err());
    assert!(result.unwrap_err().contains("not found"));
}

#[test]
fn test_palette_execute_disabled_command() {
    let mut palette = CommandPalette::new();
    let desc = CommandDescriptor::new(
        "test",
        "Test",
        "Test command",
        vec![],
    )
    .disabled();
    let id = desc.id.clone();

    palette.register_command(desc, Box::new(|_: &[String]| Ok("".to_string())));

    let result = palette.execute_command(&id, &[]);
    assert!(result.is_err());
    assert!(result.unwrap_err().contains("disabled"));
}

#[test]
fn test_palette_get_command() {
    let mut palette = CommandPalette::new();
    let desc = CommandDescriptor::new(
        "test",
        "Test",
        "Test command",
        vec![],
    );
    let id = desc.id.clone();

    palette.register_command(desc, Box::new(|_: &[String]| Ok("".to_string())));

    let found = palette.get_command(&id);
    assert!(found.is_some());
    assert_eq!(found.unwrap().id.as_str(), "test");

    let not_found = palette.get_command(&CommandId::new("nonexistent"));
    assert!(not_found.is_none());
}

#[test]
fn test_filter_commands_sorted_by_relevance() {
    let mut palette = CommandPalette::new();

    // This should match "editor" exactly in tags
    palette.register_command(
        CommandDescriptor::new(
            "open_editor",
            "Open Editor",
            "Opens a text editor",
            vec!["editor".to_string()],
        ),
        Box::new(|_: &[String]| Ok("".to_string())),
    );

    // This should only match "editor" in the name
    palette.register_command(
        CommandDescriptor::new(
            "close_all",
            "Close All Editors",
            "Closes all open editors",
            vec!["close".to_string()],
        ),
        Box::new(|_: &[String]| Ok("".to_string())),
    );

    let matches = palette.filter_commands("editor");
    assert_eq!(matches.len(), 2);

    // First result should be the one with exact tag match
    assert_eq!(matches[0].id.as_str(), "open_editor");
}
