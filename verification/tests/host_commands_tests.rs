use pandagen::host_commands::{HostCommand, HostCommandError, HostCommandParser};

#[test]
fn test_parse_open_editor_no_path() {
    let cmd = HostCommandParser::parse("open editor").unwrap();
    assert_eq!(cmd, HostCommand::OpenEditor { path: None });
}

#[test]
fn test_parse_open_editor_with_path() {
    let cmd = HostCommandParser::parse("open editor /path/to/file.txt").unwrap();
    assert_eq!(
        cmd,
        HostCommand::OpenEditor {
            path: Some("/path/to/file.txt".to_string())
        }
    );
}

#[test]
fn test_parse_open_editor_with_path_spaces() {
    let cmd = HostCommandParser::parse("open editor /path with spaces/file.txt").unwrap();
    assert_eq!(
        cmd,
        HostCommand::OpenEditor {
            path: Some("/path with spaces/file.txt".to_string())
        }
    );
}

#[test]
fn test_parse_open_cli() {
    let cmd = HostCommandParser::parse("open cli").unwrap();
    assert_eq!(cmd, HostCommand::OpenCli);
}

#[test]
fn test_parse_open_console() {
    let cmd = HostCommandParser::parse("open console").unwrap();
    assert_eq!(cmd, HostCommand::OpenCli);
}

#[test]
fn test_parse_list() {
    let cmd = HostCommandParser::parse("list").unwrap();
    assert_eq!(cmd, HostCommand::List);
}

#[test]
fn test_parse_focus() {
    let uuid_str = "550e8400-e29b-41d4-a716-446655440000";
    let cmd = HostCommandParser::parse(&format!("focus {}", uuid_str)).unwrap();

    if let HostCommand::Focus { component_id } = cmd {
        assert_eq!(
            uuid::Uuid::from_u128(component_id.as_uuid()).to_string(),
            "550e8400-e29b-41d4-a716-446655440000"
        );
    } else {
        panic!("Expected Focus command");
    }
}

#[test]
fn test_parse_focus_with_prefix() {
    let uuid_str = "550e8400-e29b-41d4-a716-446655440000";
    let cmd = HostCommandParser::parse(&format!("focus comp:{}", uuid_str)).unwrap();

    if let HostCommand::Focus { component_id } = cmd {
        assert_eq!(
            uuid::Uuid::from_u128(component_id.as_uuid()).to_string(),
            "550e8400-e29b-41d4-a716-446655440000"
        );
    } else {
        panic!("Expected Focus command");
    }
}

#[test]
fn test_parse_next() {
    let cmd = HostCommandParser::parse("next").unwrap();
    assert_eq!(cmd, HostCommand::Next);
}

#[test]
fn test_parse_prev() {
    let cmd = HostCommandParser::parse("prev").unwrap();
    assert_eq!(cmd, HostCommand::Previous);
}

#[test]
fn test_parse_previous() {
    let cmd = HostCommandParser::parse("previous").unwrap();
    assert_eq!(cmd, HostCommand::Previous);
}

#[test]
fn test_parse_close() {
    let uuid_str = "550e8400-e29b-41d4-a716-446655440000";
    let cmd = HostCommandParser::parse(&format!("close {}", uuid_str)).unwrap();

    if let HostCommand::Close { component_id } = cmd {
        assert_eq!(
            uuid::Uuid::from_u128(component_id.as_uuid()).to_string(),
            "550e8400-e29b-41d4-a716-446655440000"
        );
    } else {
        panic!("Expected Close command");
    }
}

#[test]
fn test_parse_quit() {
    let cmd = HostCommandParser::parse("quit").unwrap();
    assert_eq!(cmd, HostCommand::Quit);
}

#[test]
fn test_parse_exit() {
    let cmd = HostCommandParser::parse("exit").unwrap();
    assert_eq!(cmd, HostCommand::Quit);
}

#[test]
fn test_parse_empty_command() {
    let result = HostCommandParser::parse("");
    assert!(matches!(result, Err(HostCommandError::InvalidCommand(_))));
}

#[test]
fn test_parse_unknown_command() {
    let result = HostCommandParser::parse("unknown");
    assert!(matches!(result, Err(HostCommandError::UnknownCommand(_))));
}

#[test]
fn test_parse_open_missing_type() {
    let result = HostCommandParser::parse("open");
    assert!(matches!(result, Err(HostCommandError::MissingArgument(_))));
}

#[test]
fn test_parse_open_invalid_type() {
    let result = HostCommandParser::parse("open invalid");
    assert!(matches!(result, Err(HostCommandError::InvalidCommand(_))));
}

#[test]
fn test_parse_focus_missing_id() {
    let result = HostCommandParser::parse("focus");
    assert!(matches!(result, Err(HostCommandError::MissingArgument(_))));
}

#[test]
fn test_parse_focus_invalid_id() {
    let result = HostCommandParser::parse("focus invalid-uuid");
    assert!(matches!(
        result,
        Err(HostCommandError::InvalidComponentId(_))
    ));
}

#[test]
fn test_parse_close_missing_id() {
    let result = HostCommandParser::parse("close");
    assert!(matches!(result, Err(HostCommandError::MissingArgument(_))));
}

#[test]
fn test_parse_case_insensitive() {
    assert_eq!(
        HostCommandParser::parse("OPEN EDITOR").unwrap(),
        HostCommand::OpenEditor { path: None }
    );
    assert_eq!(HostCommandParser::parse("LIST").unwrap(), HostCommand::List);
    assert_eq!(HostCommandParser::parse("NEXT").unwrap(), HostCommand::Next);
    assert_eq!(HostCommandParser::parse("QUIT").unwrap(), HostCommand::Quit);
}

#[test]
fn test_parse_whitespace_handling() {
    assert_eq!(
        HostCommandParser::parse("  open   editor  ").unwrap(),
        HostCommand::OpenEditor { path: None }
    );
    assert_eq!(
        HostCommandParser::parse("\tlist\t").unwrap(),
        HostCommand::List
    );
}

#[test]
fn error_messages() {
    assert_eq!(
        HostCommandParser::parse("").unwrap_err().to_string(),
        "Invalid command: Empty command"
    );
    assert_eq!(
        HostCommandParser::parse("Frob").unwrap_err().to_string(),
        "Unknown command: frob"
    );
    assert_eq!(
        HostCommandParser::parse("open").unwrap_err().to_string(),
        "Missing argument: component type (editor, cli)"
    );
    assert_eq!(
        HostCommandParser::parse("open Shell").unwrap_err().to_string(),
        "Invalid command: Unknown component type: shell"
    );
    assert_eq!(
        HostCommandParser::parse("close comp:nope").unwrap_err().to_string(),
        "Invalid component ID: comp:nope"
    );
}

#[test]
fn close_with_prefix_and_simple_uuid() {
    let cmd = HostCommandParser::parse("close comp:550e8400e29b41d4a716446655440000").unwrap();
    match cmd {
        HostCommand::Close { component_id } => {
            assert_eq!(component_id.as_uuid(), 0x550e8400_e29b_41d4_a716_446655440000u128)
        }
        _ => panic!("Expected Close command"),
    }
}
