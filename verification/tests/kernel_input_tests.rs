use pandagen::input_types::{KeyCode, KeyEvent, KeyState, Modifiers};
use pandagen::kernel_input::{byte_to_key_event, KernelWorkspacePlatform, Ps2ParserState};

#[test]
fn test_ps2_parser_basic() {
    let mut parser = Ps2ParserState::new();

    // Test 'A' key press (scancode 0x1E)
    let event = parser.process_scancode(0x1E);
    assert!(event.is_some());

    if let Some(e) = event {
        assert_eq!(e.code, KeyCode::A);
        assert!(!e.modifiers.contains(Modifiers::from_bits(Modifiers::SHIFT)));
    }
}

#[test]
fn test_ps2_parser_shift() {
    let mut parser = Ps2ParserState::new();

    // Press left shift (0x2A)
    assert!(parser.process_scancode(0x2A).is_none());
    assert!(parser.shift_pressed);

    // Press 'A' with shift
    let event = parser.process_scancode(0x1E);
    assert!(event.is_some());

    if let Some(e) = event {
        assert_eq!(e.code, KeyCode::A);
        assert!(e.modifiers.contains(Modifiers::from_bits(Modifiers::SHIFT)));
    }
}

#[test]
fn test_ps2_parser_ctrl() {
    let mut parser = Ps2ParserState::new();

    // Press left ctrl (0x1D)
    assert!(parser.process_scancode(0x1D).is_none());
    assert!(parser.ctrl_pressed);

    // Press 'P' with ctrl (Ctrl+P for command palette)
    let event = parser.process_scancode(0x19);
    assert!(event.is_some());

    if let Some(e) = event {
        assert_eq!(e.code, KeyCode::P);
        assert!(e.modifiers.contains(Modifiers::from_bits(Modifiers::CTRL)));
    }
}

#[test]
fn test_kernel_platform_creation() {
    let platform = KernelWorkspacePlatform::new_test();
    // Just verify it can be created
    let _ = platform;
}

#[test]
fn test_ps2_parser_release_prefix_and_alt() {
    let mut parser = Ps2ParserState::new();
    assert!(parser.process_scancode(0x9E).is_none());
    assert!(parser.process_scancode(0xE0).is_none());
    assert!(parser.pending_e0);
    assert!(parser.process_scancode(0x48).is_none());
    assert!(!parser.pending_e0);
    assert!(parser.process_scancode(0x38).is_none());
    assert!(parser.process_scancode(0x2A).is_none());
    let e = parser.process_scancode(0x3B).unwrap();
    assert_eq!(e.code, KeyCode::F1);
    assert_eq!(e.modifiers.bits(), Modifiers::ALT | Modifiers::SHIFT);
    assert!(parser.process_scancode(0xAA).is_none());
    assert!(!parser.shift_pressed);
    assert!(parser.process_scancode(0x7F).is_none());
}

#[test]
fn test_kernel_input_queue_and_tick() {
    let mut platform = KernelWorkspacePlatform::new_test();
    platform.input.inject_scancode(0x1D);
    platform.input.inject_scancode(0x19);
    platform.input.inject_scancode(0x9D);
    assert!(platform.input.has_pending());
    let e = platform.input.poll_event().unwrap();
    assert_eq!(e.code, KeyCode::P);
    assert!(e.modifiers.is_ctrl());
    assert!(platform.input.has_pending());
    assert!(platform.input.poll_event().is_none());
    assert!(!platform.input.has_pending());
    assert_eq!(platform.tick.advance(), 1);
    assert_eq!(platform.tick.current(), 1);
    platform.display.clear();
    assert!(platform.display.cleared);
}

#[test]
fn test_byte_to_key_event() {
    let e = byte_to_key_event(b'q').unwrap();
    assert_eq!(e.code, KeyCode::Q);
    assert_eq!(e.state, KeyState::Pressed);
    assert!(e.modifiers.is_empty());
    assert_eq!(byte_to_key_event(b'Q').unwrap().code, KeyCode::Q);
    assert_eq!(byte_to_key_event(b'\r').unwrap().code, KeyCode::Enter);
    assert_eq!(byte_to_key_event(0x7f).unwrap().code, KeyCode::Backspace);
    assert_eq!(byte_to_key_event(0x10).unwrap().code, KeyCode::P);
    assert_eq!(byte_to_key_event(0x81).unwrap().code, KeyCode::Down);
    assert_eq!(byte_to_key_event(b'`').unwrap().code, KeyCode::Grave);
    assert!(byte_to_key_event(b'!').is_none());
    assert!(byte_to_key_event(0xff).is_none());
}

#[test]
fn byte_events_equal_plain_pressed_keys() {
    assert_eq!(
        byte_to_key_event(b'a'),
        Some(KeyEvent::new(KeyCode::A, Modifiers::none(), KeyState::Pressed))
    );
    assert_eq!(byte_to_key_event(b'A'), byte_to_key_event(b'a'));
    assert_eq!(
        byte_to_key_event(b'\r'),
        Some(KeyEvent::new(KeyCode::Enter, Modifiers::none(), KeyState::Pressed))
    );
    assert_eq!(byte_to_key_event(b'7').map(|e| e.code), Some(KeyCode::Num7));
    assert_eq!(byte_to_key_event(b'!'), None);
}
