use pandagen::host_commands::{HostCommand, HostCommandParser};
use pandagen::host_runtime::{
    is_host_control_hotkey, keycode_to_char, should_stop, HostConsole, HostInputAction, HostMode,
    HostRuntimeConfig, HostState,
};
use pandagen::input_types::{KeyCode, KeyEvent, Modifiers};

fn press(code: KeyCode) -> KeyEvent {
    KeyEvent::pressed(code, Modifiers::none())
}

#[test]
fn default_config() {
    let config = HostRuntimeConfig::default();
    assert_eq!(config.mode, HostMode::Sim);
    assert!(config.script.is_none());
    assert_eq!(config.max_steps, 0);
    assert!(!config.exit_on_idle);
}

#[test]
fn loop_stop_conditions() {
    let mut config = HostRuntimeConfig::default();
    assert!(!should_stop(&config, false, 1000, true, None));
    assert!(should_stop(&config, true, 0, false, None));
    assert!(should_stop(&config, false, 0, false, Some(false)));
    assert!(!should_stop(&config, false, 0, false, Some(true)));
    config.max_steps = 10;
    assert!(!should_stop(&config, false, 9, false, None));
    assert!(should_stop(&config, false, 10, false, None));
    config.exit_on_idle = true;
    assert!(should_stop(&config, false, 0, true, None));
    config.mode = HostMode::Hal;
    assert!(!should_stop(&config, false, 0, false, Some(false)));
}

#[test]
fn key_characters() {
    assert_eq!(keycode_to_char(KeyCode::A), Some('a'));
    assert_eq!(keycode_to_char(KeyCode::Num7), Some('7'));
    assert_eq!(keycode_to_char(KeyCode::Semicolon), Some(':'));
    assert_eq!(keycode_to_char(KeyCode::Slash), Some('/'));
    assert_eq!(keycode_to_char(KeyCode::Enter), None);
}

#[test]
fn hotkey_is_ctrl_space() {
    assert!(is_host_control_hotkey(&KeyEvent::pressed(
        KeyCode::Space,
        Modifiers::from_bits(Modifiers::CTRL)
    )));
    assert!(!is_host_control_hotkey(&press(KeyCode::Space)));
}

#[test]
fn console_collects_and_runs_a_command() {
    let mut console = HostConsole::new();
    assert_eq!(console.handle_input(&press(KeyCode::L)), HostInputAction::RouteToWorkspace);
    console.toggle_host_control();
    assert_eq!(console.state(), HostState::HostControl);
    for code in [KeyCode::L, KeyCode::I, KeyCode::S, KeyCode::T, KeyCode::X] {
        assert_eq!(console.handle_input(&press(code)), HostInputAction::Consumed);
    }
    console.handle_input(&press(KeyCode::Backspace));
    assert_eq!(console.command_text(), "list");
    match console.handle_input(&press(KeyCode::Enter)) {
        HostInputAction::Execute(text) => {
            assert_eq!(text, "list");
            assert_eq!(HostCommandParser::parse(&text).unwrap(), HostCommand::List);
        }
        other => panic!("unexpected {:?}", other),
    }
    assert_eq!(console.state(), HostState::Running);
    assert_eq!(console.command_text(), "");
}

#[test]
fn console_escape_and_text_input() {
    let mut console = HostConsole::new();
    console.toggle_host_control();
    console.handle_input(&press(KeyCode::A).with_text("Q"));
    assert_eq!(console.command_text(), "Q");
    console.handle_input(&press(KeyCode::Escape));
    assert_eq!(console.state(), HostState::Running);
    console.toggle_host_control();
    assert_eq!(console.command_text(), "");
    console.toggle_host_control();
    assert_eq!(console.state(), HostState::Running);
    console.shutdown();
    console.toggle_host_control();
    assert_eq!(console.state(), HostState::Shutdown);
    assert_eq!(console.handle_input(&press(KeyCode::A)), HostInputAction::Consumed);
}
