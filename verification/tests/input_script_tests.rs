use pandagen::input_script::{InputScript, InputScriptError, ScriptedInput};
use pandagen::input_types::{InputEvent, KeyCode, Modifiers};

#[test]
fn test_parse_single_key() {
    let script = InputScript::from_text("a").unwrap();
    assert_eq!(script.remaining(), 1);

    let mut script = script;
    let input = script.next_input().unwrap();
    assert_eq!(input, ScriptedInput::Key(KeyCode::A, Modifiers::none()));
}

#[test]
fn test_parse_special_keys() {
    let script = InputScript::from_text("Enter\nEscape\nBackspace").unwrap();
    assert_eq!(script.remaining(), 3);

    let mut script = script;
    assert_eq!(
        script.next_input().unwrap(),
        ScriptedInput::Key(KeyCode::Enter, Modifiers::none())
    );
    assert_eq!(
        script.next_input().unwrap(),
        ScriptedInput::Key(KeyCode::Escape, Modifiers::none())
    );
    assert_eq!(
        script.next_input().unwrap(),
        ScriptedInput::Key(KeyCode::Backspace, Modifiers::none())
    );
}

#[test]
fn test_parse_modifiers() {
    let script = InputScript::from_text("Ctrl+c\nAlt+x\nShift+a").unwrap();
    assert_eq!(script.remaining(), 3);

    let mut script = script;
    assert_eq!(
        script.next_input().unwrap(),
        ScriptedInput::Key(KeyCode::C, Modifiers::from_bits(Modifiers::CTRL))
    );
    assert_eq!(
        script.next_input().unwrap(),
        ScriptedInput::Key(KeyCode::X, Modifiers::from_bits(Modifiers::ALT))
    );
    assert_eq!(
        script.next_input().unwrap(),
        ScriptedInput::Key(KeyCode::A, Modifiers::from_bits(Modifiers::SHIFT))
    );
}

#[test]
fn test_parse_quoted_string() {
    let script = InputScript::from_text(r#""Hi""#).unwrap();
    assert_eq!(script.remaining(), 2);

    let mut script = script;
    assert_eq!(
        script.next_input().unwrap(),
        ScriptedInput::Key(KeyCode::H, Modifiers::none())
    );
    assert_eq!(
        script.next_input().unwrap(),
        ScriptedInput::Key(KeyCode::I, Modifiers::none())
    );
}

#[test]
fn test_parse_wait() {
    let script = InputScript::from_text("wait 100ms\nwait 2s").unwrap();
    assert_eq!(script.remaining(), 2);

    let mut script = script;
    assert_eq!(script.next_input().unwrap(), ScriptedInput::Wait(100));
    assert_eq!(script.next_input().unwrap(), ScriptedInput::Wait(2000));
}

#[test]
fn test_parse_comments() {
    let script = InputScript::from_text("# Comment\na\n# Another comment\nb").unwrap();
    assert_eq!(script.remaining(), 2);
}

#[test]
fn test_parse_empty_lines() {
    let script = InputScript::from_text("a\n\nb\n\n\nc").unwrap();
    assert_eq!(script.remaining(), 3);
}

#[test]
fn test_empty_script_error() {
    let result = InputScript::from_text("");
    assert!(matches!(result, Err(InputScriptError::EmptyScript)));
}

#[test]
fn test_empty_script_with_comments() {
    let result = InputScript::from_text("# Just comments\n# Nothing else");
    assert!(matches!(result, Err(InputScriptError::EmptyScript)));
}

#[test]
fn test_invalid_key_name() {
    let result = InputScript::from_text("InvalidKeyName");
    assert!(matches!(result, Err(InputScriptError::ParseError { .. })));
}

#[test]
fn test_invalid_modifier() {
    let result = InputScript::from_text("Invalid+a");
    assert!(matches!(result, Err(InputScriptError::InvalidModifier(_))));
}

#[test]
fn test_invalid_delay() {
    let result = InputScript::from_text("wait abc");
    assert!(matches!(result, Err(InputScriptError::ParseError { .. })));
}

#[test]
fn test_complex_script() {
    let script = InputScript::from_text(
        r#"
        # Open editor
        i
        "Hello Panda"
        Escape
        ":wq"
        Enter
    "#,
    )
    .unwrap();

    // i + 11 chars (Hello Panda) + Escape + 3 chars (:wq) + Enter = 17
    assert_eq!(script.remaining(), 17);
}

#[test]
fn test_to_input_event() {
    let key_input = ScriptedInput::Key(KeyCode::A, Modifiers::none());
    let event = InputScript::to_input_event(&key_input).unwrap();
    assert!(matches!(event, InputEvent::Key(_)));

    let wait_input = ScriptedInput::Wait(100);
    let event = InputScript::to_input_event(&wait_input);
    assert!(event.is_none());
}


#[test]
fn test_parse_wait_overflow_rejected_by_checked_parse() {
    assert!(InputScript::try_from_text("wait 18446744073709552s").is_none());
    assert!(InputScript::try_from_text("\"").is_none());
}

#[test]
fn test_error_before_lone_quote_is_reported() {
    let result = InputScript::try_from_text("Bogus+a\n\"");
    assert!(matches!(result, Some(Err(InputScriptError::InvalidModifier(_)))));
}

#[test]
fn test_parse_error_messages() {
    let result = InputScript::from_text("a\nwait abc");
    match result {
        Err(InputScriptError::ParseError { line, message }) => {
            assert_eq!(line, 2);
            assert_eq!(message, "Invalid delay format: abc");
        }
        _ => panic!("expected a parse error"),
    }
    let result = InputScript::from_text("Nope");
    match result {
        Err(e) => assert_eq!(e.to_string(), "Parse error at line 1: Invalid key name: Nope"),
        _ => panic!("expected a parse error"),
    }
    let result = InputScript::from_text("Hyper+x");
    match result {
        Err(InputScriptError::InvalidModifier(name)) => assert_eq!(name, "hyper"),
        _ => panic!("expected an invalid modifier"),
    }
}

#[test]
fn test_parse_combined_modifiers_and_names() {
    let mut script = InputScript::from_text("  Ctrl + Shift + F5 \nRETURN\nwait 3 S\nwait +7ms").unwrap();
    assert_eq!(script.remaining(), 4);
    assert_eq!(
        script.next_input().unwrap(),
        ScriptedInput::Key(KeyCode::F5, Modifiers::from_bits(Modifiers::CTRL | Modifiers::SHIFT))
    );
    assert_eq!(script.next_input().unwrap(), ScriptedInput::Key(KeyCode::Enter, Modifiers::none()));
    assert_eq!(script.next_input().unwrap(), ScriptedInput::Wait(3000));
    assert_eq!(script.next_input().unwrap(), ScriptedInput::Wait(7));
    assert!(!script.has_more());
    assert!(script.next_input().is_none());
}

#[test]
fn test_quoted_punctuation_keys() {
    let mut script = InputScript::from_text("\"a:/.,?\"").unwrap();
    let expected = [KeyCode::A, KeyCode::Semicolon, KeyCode::Slash, KeyCode::Period, KeyCode::Comma, KeyCode::Unknown];
    for k in expected.iter() {
        assert_eq!(script.next_input().unwrap(), ScriptedInput::Key(*k, Modifiers::none()));
    }
    assert_eq!(InputScript::default().remaining(), 0);
}
