use goofbind::registry::parse_keybind;
use goofbind::structs::Modifiers;
use goofbind::{register_keybind, unregister_keybind, EngineState, KeybindInfo, OutgoingMessage};

fn mods(ctrl: bool, alt: bool, shift: bool, meta: bool) -> Modifiers {
    Modifiers { ctrl, alt, shift, meta }
}

#[test]
fn parses_shift_alt_m() {
    assert_eq!(parse_keybind("shift+alt+m"), (Some(77), mods(false, true, true, false)));
}

#[test]
fn parses_upper_case_modifiers() {
    assert_eq!(parse_keybind("SHIFT+CTRL+a"), (Some(65), mods(true, false, true, false)));
    assert_eq!(parse_keybind("Meta+Alt+Z"), (Some(90), mods(false, true, false, true)));
}

#[test]
fn parses_digit_and_bare_key() {
    assert_eq!(parse_keybind("ctrl+5"), (Some(53), mods(true, false, false, false)));
    assert_eq!(parse_keybind("q"), (Some(81), mods(false, false, false, false)));
}

#[test]
fn unknown_modifier_or_key_gives_no_code() {
    assert_eq!(parse_keybind("hyper+a"), (None, mods(false, false, false, false)));
    assert_eq!(parse_keybind("ctrl+F5"), (None, mods(true, false, false, false)));
    assert_eq!(parse_keybind("ctrl+"), (None, mods(true, false, false, false)));
    assert_eq!(parse_keybind(""), (None, mods(false, false, false, false)));
    assert_eq!(parse_keybind("alt+!"), (None, mods(false, true, false, false)));
    assert_eq!(parse_keybind("shift+alt"), (None, mods(false, false, true, false)));
}

#[test]
fn register_then_press_fires() {
    let mut state = EngineState::new();
    register_keybind(&mut state, "shift+alt+m".to_string(), "1".to_string()).unwrap();
    register_keybind(&mut state, "SHIFT+CTRL+a".to_string(), "2".to_string()).unwrap();
    assert_eq!(state.keybinds.len(), 2);
    state.handle_key(16, true);
    state.handle_key(18, true);
    assert_eq!(state.handle_key(77, true), vec![OutgoingMessage::Pressed { id: "1".to_string() }]);
}

#[test]
fn register_replaces_same_id() {
    let mut state = EngineState::new();
    register_keybind(&mut state, "ctrl+a".to_string(), "x".to_string()).unwrap();
    register_keybind(&mut state, "ctrl+b".to_string(), "y".to_string()).unwrap();
    register_keybind(&mut state, "alt+c".to_string(), "x".to_string()).unwrap();
    assert_eq!(state.keybinds.len(), 2);
    assert_eq!(state.keybinds[0].id, "y");
    assert_eq!(
        state.keybinds[1],
        KeybindInfo {
            id: "x".to_string(),
            name: None,
            keycode: Some(67),
            ctrl: false,
            alt: true,
            shift: false,
            meta: false
        }
    );
}

#[test]
fn unregister_undoes_register() {
    let mut state = EngineState::new();
    register_keybind(&mut state, "ctrl+a".to_string(), "keep".to_string()).unwrap();
    let before = state.keybinds.clone();
    register_keybind(&mut state, "ctrl+b".to_string(), "tmp".to_string()).unwrap();
    unregister_keybind(&mut state, "tmp".to_string()).unwrap();
    assert_eq!(state.keybinds, before);
    unregister_keybind(&mut state, "missing".to_string()).unwrap();
    assert_eq!(state.keybinds, before);
    unregister_keybind(&mut state, "keep".to_string()).unwrap();
    assert!(state.keybinds.is_empty());
}
