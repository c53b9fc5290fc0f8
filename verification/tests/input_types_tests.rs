use pandagen::input_types::{InputEvent, KeyCode, KeyEvent, KeyState, Modifiers};

#[test]
fn test_input_event_key() {
    let key_event = KeyEvent::pressed(KeyCode::A, Modifiers::none());
    let event = InputEvent::key(key_event.clone());

    assert!(event.is_key());
    assert_eq!(event.as_key(), Some(&key_event));
}

#[test]
fn test_key_event_pressed() {
    let event = KeyEvent::pressed(KeyCode::A, Modifiers::from_bits(Modifiers::CTRL));

    assert!(event.is_pressed());
    assert!(!event.is_released());
    assert!(!event.is_repeat());
    assert_eq!(event.code, KeyCode::A);
    assert!(event.modifiers.is_ctrl());
}

#[test]
fn test_key_event_released() {
    let event = KeyEvent::released(KeyCode::B, Modifiers::none());

    assert!(!event.is_pressed());
    assert!(event.is_released());
    assert!(!event.is_repeat());
    assert_eq!(event.code, KeyCode::B);
}

#[test]
fn test_key_event_repeat() {
    let event = KeyEvent::repeat(KeyCode::C, Modifiers::from_bits(Modifiers::SHIFT));

    assert!(!event.is_pressed());
    assert!(!event.is_released());
    assert!(event.is_repeat());
    assert!(event.modifiers.is_shift());
}

#[test]
fn test_key_event_with_text() {
    let event = KeyEvent::pressed(KeyCode::A, Modifiers::none()).with_text("a");

    assert_eq!(event.text, Some("a".to_string()));
}

#[test]
fn test_key_state_display() {
    assert_eq!(KeyState::Pressed.to_string(), "pressed");
    assert_eq!(KeyState::Released.to_string(), "released");
    assert_eq!(KeyState::Repeat.to_string(), "repeat");
}

#[test]
fn test_modifiers_none() {
    let mods = Modifiers::none();
    assert!(mods.is_empty());
    assert!(!mods.is_ctrl());
    assert!(!mods.is_alt());
    assert!(!mods.is_shift());
    assert!(!mods.is_meta());
}

#[test]
fn test_modifiers_single() {
    let mods = Modifiers::from_bits(Modifiers::CTRL);
    assert!(!mods.is_empty());
    assert!(mods.is_ctrl());
    assert!(!mods.is_alt());
    assert!(!mods.is_shift());
    assert!(!mods.is_meta());
}

#[test]
fn test_modifiers_combination() {
    let mods = Modifiers::from_bits(Modifiers::CTRL).with(Modifiers::from_bits(Modifiers::SHIFT));
    assert!(mods.is_ctrl());
    assert!(mods.is_shift());
    assert!(!mods.is_alt());
    assert!(!mods.is_meta());
}

#[test]
fn test_modifiers_contains() {
    let mods = Modifiers::from_bits(Modifiers::CTRL).with(Modifiers::from_bits(Modifiers::SHIFT));
    assert!(mods.contains(Modifiers::from_bits(Modifiers::CTRL)));
    assert!(mods.contains(Modifiers::from_bits(Modifiers::SHIFT)));
    assert!(!mods.contains(Modifiers::from_bits(Modifiers::ALT)));
    assert!(mods.contains(Modifiers::from_bits(Modifiers::CTRL).with(Modifiers::from_bits(Modifiers::SHIFT))));
}

#[test]
fn test_modifiers_display() {
    assert_eq!(Modifiers::none().to_string(), "none");
    assert_eq!(Modifiers::from_bits(Modifiers::CTRL).to_string(), "Ctrl");
    assert_eq!(Modifiers::from_bits(Modifiers::CTRL).with(Modifiers::from_bits(Modifiers::ALT)).to_string(), "Ctrl+Alt");
    assert_eq!(
        Modifiers::from_bits(Modifiers::CTRL)
            .with(Modifiers::from_bits(Modifiers::SHIFT))
            .with(Modifiers::from_bits(Modifiers::ALT))
            .to_string(),
        "Ctrl+Alt+Shift"
    );
}

#[test]
fn test_key_event_equality() {
    let event1 = KeyEvent::pressed(KeyCode::A, Modifiers::from_bits(Modifiers::CTRL));
    let event2 = KeyEvent::pressed(KeyCode::A, Modifiers::from_bits(Modifiers::CTRL));
    let event3 = KeyEvent::pressed(KeyCode::B, Modifiers::from_bits(Modifiers::CTRL));

    assert_eq!(event1, event2);
    assert_ne!(event1, event3);
}

#[test]
fn test_modifiers_equality() {
    let mods1 = Modifiers::from_bits(Modifiers::CTRL).with(Modifiers::from_bits(Modifiers::SHIFT));
    let mods2 = Modifiers::from_bits(Modifiers::SHIFT).with(Modifiers::from_bits(Modifiers::CTRL));
    let mods3 = Modifiers::from_bits(Modifiers::CTRL).with(Modifiers::from_bits(Modifiers::ALT));

    assert_eq!(mods1, mods2);
    assert_ne!(mods1, mods3);
}

#[test]
fn test_all_letter_keycodes() {
    // Verify all letter key codes are distinct
    let letters = vec![
        KeyCode::A,
        KeyCode::B,
        KeyCode::C,
        KeyCode::D,
        KeyCode::E,
        KeyCode::F,
        KeyCode::G,
        KeyCode::H,
        KeyCode::I,
        KeyCode::J,
        KeyCode::K,
        KeyCode::L,
        KeyCode::M,
        KeyCode::N,
        KeyCode::O,
        KeyCode::P,
        KeyCode::Q,
        KeyCode::R,
        KeyCode::S,
        KeyCode::T,
        KeyCode::U,
        KeyCode::V,
        KeyCode::W,
        KeyCode::X,
        KeyCode::Y,
        KeyCode::Z,
    ];

    assert_eq!(letters.len(), 26);
    for i in 0..letters.len() {
        for j in (i + 1)..letters.len() {
            assert_ne!(letters[i], letters[j]);
        }
    }
}

#[test]
fn test_all_number_keycodes() {
    let numbers = vec![
        KeyCode::Num0,
        KeyCode::Num1,
        KeyCode::Num2,
        KeyCode::Num3,
        KeyCode::Num4,
        KeyCode::Num5,
        KeyCode::Num6,
        KeyCode::Num7,
        KeyCode::Num8,
        KeyCode::Num9,
    ];

    assert_eq!(numbers.len(), 10);
}

#[test]
fn test_all_function_keycodes() {
    let function_keys = vec![
        KeyCode::F1,
        KeyCode::F2,
        KeyCode::F3,
        KeyCode::F4,
        KeyCode::F5,
        KeyCode::F6,
        KeyCode::F7,
        KeyCode::F8,
        KeyCode::F9,
        KeyCode::F10,
        KeyCode::F11,
        KeyCode::F12,
    ];

    assert_eq!(function_keys.len(), 12);
}

#[test]
fn test_modifier_combinations_comprehensive() {
    // Test all possible single and double modifier combinations
    let all_mods = vec![
        Modifiers::from_bits(Modifiers::CTRL),
        Modifiers::from_bits(Modifiers::ALT),
        Modifiers::from_bits(Modifiers::SHIFT),
        Modifiers::from_bits(Modifiers::META),
    ];

    // Single modifiers
    for mod1 in &all_mods {
        assert!((*mod1).contains(*mod1));
        assert!(!mod1.is_empty());
    }

    // Double combinations
    for i in 0..all_mods.len() {
        for j in (i + 1)..all_mods.len() {
            let combined = all_mods[i].with(all_mods[j]);
            assert!(combined.contains(all_mods[i]));
            assert!(combined.contains(all_mods[j]));
        }
    }
}
