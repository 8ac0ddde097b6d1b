use goofbind::structs::{Flow, Modifiers, VK_ALT, VK_CONTROL, VK_SHIFT};
use goofbind::{EngineState, IncomingMessage, InternalMessage, KeybindInfo, OutgoingMessage};

fn kb(id: &str, keycode: Option<u32>, ctrl: bool, alt: bool, shift: bool, meta: bool) -> KeybindInfo {
    KeybindInfo { id: id.to_string(), name: None, keycode, ctrl, alt, shift, meta }
}

fn pressed(id: &str) -> OutgoingMessage {
    OutgoingMessage::Pressed { id: id.to_string() }
}

fn released(id: &str) -> OutgoingMessage {
    OutgoingMessage::Released { id: id.to_string() }
}

fn ids(events: &[OutgoingMessage]) -> Vec<String> {
    events
        .iter()
        .map(|e| match e {
            OutgoingMessage::Pressed { id } => format!("+{id}"),
            OutgoingMessage::Released { id } => format!("-{id}"),
            OutgoingMessage::Error { message } => format!("!{message}"),
        })
        .collect()
}

fn engine(keybinds: Vec<KeybindInfo>) -> EngineState {
    let mut state = EngineState::new();
    state.set_keybinds(keybinds);
    state
}

#[test]
fn ctrl_alt_t_fires_and_releases() {
    let mut state = engine(vec![kb("open-terminal", Some(84), true, true, false, false)]);
    assert!(state.handle_key(VK_CONTROL, true).is_empty());
    assert!(state.handle_key(VK_ALT, true).is_empty());
    assert_eq!(ids(&state.handle_key(84, true)), vec!["+open-terminal"]);
    assert_eq!(state.active_keybinds, vec![("open-terminal".to_string(), 84)]);
    assert_eq!(ids(&state.handle_key(84, false)), vec!["-open-terminal"]);
    assert!(state.active_keybinds.is_empty());
    assert!(state.pressed_keys.contains(&VK_CONTROL));
    assert!(!state.pressed_keys.contains(&84));
}

#[test]
fn modifiers_must_match_exactly() {
    let mut state = engine(vec![kb("t", Some(84), true, false, false, false)]);
    state.handle_key(VK_CONTROL, true);
    state.handle_key(VK_SHIFT, true);
    assert!(state.handle_key(84, true).is_empty());
    assert!(state.active_keybinds.is_empty());
}

#[test]
fn key_without_modifiers_fires_without_them() {
    let mut state = engine(vec![kb("print", Some(44), false, false, false, false)]);
    assert_eq!(ids(&state.handle_key(44, true)), vec!["+print"]);
}

#[test]
fn auto_repeat_does_not_retrigger() {
    let mut state = engine(vec![kb("a", Some(65), false, false, false, false)]);
    assert_eq!(ids(&state.handle_key(65, true)), vec!["+a"]);
    assert!(state.handle_key(65, true).is_empty());
    assert!(state.handle_key(65, true).is_empty());
    assert_eq!(ids(&state.handle_key(65, false)), vec!["-a"]);
}

#[test]
fn several_keybinds_on_one_key_fire_in_table_order() {
    let mut state = engine(vec![
        kb("second", Some(66), false, false, false, false),
        kb("first", Some(66), false, false, false, false),
        kb("other", Some(67), false, false, false, false),
    ]);
    assert_eq!(ids(&state.handle_key(66, true)), vec!["+second", "+first"]);
    assert_eq!(ids(&state.handle_key(66, false)), vec!["-second", "-first"]);
}

#[test]
fn duplicate_id_fires_once() {
    let mut state = engine(vec![
        kb("dup", Some(66), false, false, false, false),
        kb("dup", Some(66), false, false, false, false),
    ]);
    assert_eq!(ids(&state.handle_key(66, true)), vec!["+dup"]);
    assert_eq!(state.active_keybinds.len(), 1);
}

#[test]
fn modifier_key_does_not_count_for_its_own_press() {
    let mut state = engine(vec![kb("shift", Some(VK_SHIFT), false, false, false, false)]);
    assert_eq!(ids(&state.handle_key(VK_SHIFT, true)), vec!["+shift"]);
}

#[test]
fn releasing_a_modifier_keeps_keybind_of_main_key() {
    let mut state = engine(vec![kb("s", Some(83), true, false, false, false)]);
    state.handle_key(VK_CONTROL, true);
    assert_eq!(ids(&state.handle_key(83, true)), vec!["+s"]);
    assert!(state.handle_key(VK_CONTROL, false).is_empty());
    assert_eq!(ids(&state.handle_key(83, false)), vec!["-s"]);
}

#[test]
fn keybind_without_keycode_never_fires() {
    let mut state = engine(vec![kb("portal-only", None, false, false, false, false)]);
    assert!(state.handle_key(65, true).is_empty());
}

#[test]
fn release_of_unheld_key_is_silent() {
    let mut state = engine(vec![kb("a", Some(65), false, false, false, false)]);
    assert!(state.handle_key(65, false).is_empty());
    assert!(state.pressed_keys.is_empty());
}

#[test]
fn press_release_round_trip_restores_state() {
    let mut state = engine(vec![
        kb("x", Some(88), false, false, false, false),
        kb("y", Some(88), false, false, false, false),
    ]);
    state.handle_key(90, true);
    let before_active = state.active_keybinds.clone();
    let before_pressed = state.pressed_keys.clone();
    let down = state.handle_key(88, true);
    let up = state.handle_key(88, false);
    assert_eq!(ids(&down), vec!["+x", "+y"]);
    assert_eq!(ids(&up), vec!["-x", "-y"]);
    assert_eq!(state.active_keybinds, before_active);
    assert_eq!(state.pressed_keys, before_pressed);
}

#[test]
fn replacing_keybinds_keeps_active_ones_until_release() {
    let mut state = engine(vec![kb("a", Some(65), false, false, false, false)]);
    state.handle_key(65, true);
    state.set_keybinds(vec![]);
    assert_eq!(ids(&state.handle_key(65, false)), vec!["-a"]);
}

#[test]
fn default_engine_is_empty() {
    let state = EngineState::default();
    assert!(state.keybinds.is_empty());
    assert!(state.pressed_keys.is_empty());
    assert!(state.active_keybinds.is_empty());
}

#[test]
fn message_set_keybinds_replaces_and_forwards() {
    let mut state = EngineState::new();
    let list = vec![kb("a", Some(65), false, false, false, false)];
    let reaction = state.handle_message(InternalMessage::Command(IncomingMessage::SetKeybinds {
        keybinds: list,
    }));
    assert!(reaction.events.is_empty());
    assert_eq!(reaction.flow, Flow::Continue);
    let forwarded = reaction.forward.expect("forwarded");
    assert_eq!(forwarded.len(), 1);
    assert_eq!(forwarded[0].id, "a");
    assert_eq!(state.keybinds.len(), 1);
    assert_eq!(state.keybinds[0].keycode, Some(65));
}

#[test]
fn message_raw_key_goes_through_engine() {
    let mut state = engine(vec![kb("a", Some(65), false, false, false, false)]);
    let r = state.handle_message(InternalMessage::RawKey { keycode: 65, pressed: true });
    assert_eq!(ids(&r.events), vec!["+a"]);
    assert!(r.forward.is_none());
    let r = state.handle_message(InternalMessage::RawKey { keycode: 65, pressed: false });
    assert_eq!(ids(&r.events), vec!["-a"]);
}

#[test]
fn message_wayland_event_is_reported() {
    let mut state = EngineState::new();
    let r = state.handle_message(InternalMessage::WaylandEvent { id: "w".to_string(), pressed: true });
    assert_eq!(ids(&r.events), vec!["+w"]);
    let r = state.handle_message(InternalMessage::WaylandEvent { id: "w".to_string(), pressed: false });
    assert_eq!(ids(&r.events), vec!["-w"]);
    assert_eq!(r.flow, Flow::Continue);
}

#[test]
fn message_fatal_error_aborts() {
    let mut state = EngineState::new();
    let r = state.handle_message(InternalMessage::FatalError("boom".to_string()));
    assert_eq!(ids(&r.events), vec!["!boom"]);
    assert_eq!(r.flow, Flow::Abort);
}

#[test]
fn message_quit_ends_loop() {
    let mut state = EngineState::new();
    let r = state.handle_message(InternalMessage::Quit);
    assert!(r.events.is_empty());
    assert_eq!(r.flow, Flow::Quit);
}

#[test]
fn modifiers_type_compares() {
    let m = Modifiers { ctrl: true, alt: false, shift: false, meta: false };
    assert_eq!(m, Modifiers { ctrl: true, alt: false, shift: false, meta: false });
    let _ = pressed("x");
    let _ = released("x");
}

#[test]
fn active_keybinds_stay_distinct_and_held() {
    let mut state = engine(vec![
        kb("a", Some(65), false, false, false, false),
        kb("a", Some(66), false, false, false, false),
        kb("b", Some(66), false, false, false, false),
        kb("c", Some(67), true, false, false, false),
    ]);
    let script: [(u32, bool); 10] = [
        (65, true),
        (66, true),
        (VK_CONTROL, true),
        (67, true),
        (65, false),
        (66, true),
        (66, false),
        (VK_CONTROL, false),
        (67, false),
        (68, false),
    ];
    for (code, down) in script {
        state.handle_key(code, down);
        let ids: Vec<&String> = state.active_keybinds.iter().map(|(id, _)| id).collect();
        for i in 0..ids.len() {
            for j in (i + 1)..ids.len() {
                assert_ne!(ids[i], ids[j]);
            }
        }
        for (_, code) in &state.active_keybinds {
            assert!(state.pressed_keys.contains(code));
        }
    }
    assert!(state.active_keybinds.is_empty());
}

#[test]
fn copies_are_exact() {
    let list = vec![
        KeybindInfo {
            id: "n".to_string(),
            name: Some("Name".to_string()),
            keycode: Some(1),
            ctrl: true,
            alt: false,
            shift: true,
            meta: false,
        },
        kb("m", None, false, true, false, true),
    ];
    assert_eq!(goofbind::structs::copy_keybinds(&list), list);
    assert_eq!(list[0].duplicate(), list[0]);
}

#[test]
fn message_platform_error_is_reported_and_loop_goes_on() {
    let mut state = EngineState::new();
    let r = state.handle_message(InternalMessage::PlatformError("bind failed".to_string()));
    assert_eq!(ids(&r.events), vec!["!bind failed"]);
    assert_eq!(r.flow, Flow::Continue);
    assert!(r.forward.is_none());
}

#[test]
fn notifications_alternate_per_id_over_a_run() {
    let mut state = engine(vec![
        kb("a", Some(65), false, false, false, false),
        kb("b", Some(66), false, false, false, false),
        kb("ab", Some(66), true, false, false, false),
    ]);
    let mut all: Vec<OutgoingMessage> = Vec::new();
    let script: [(u32, bool); 12] = [
        (65, true),
        (65, true),
        (66, true),
        (65, false),
        (VK_CONTROL, true),
        (66, true),
        (66, false),
        (66, false),
        (65, true),
        (VK_CONTROL, false),
        (65, false),
        (66, true),
    ];
    for (i, (code, down)) in script.iter().enumerate() {
        if i == 8 {
            state.set_keybinds(vec![kb("a", Some(65), false, false, false, false)]);
        }
        all.extend(state.handle_key(*code, *down));
    }
    for id in ["a", "b", "ab"] {
        let mine: Vec<bool> = all
            .iter()
            .filter_map(|e| match e {
                OutgoingMessage::Pressed { id: x } if x == id => Some(true),
                OutgoingMessage::Released { id: x } if x == id => Some(false),
                _ => None,
            })
            .collect();
        for (k, p) in mine.iter().enumerate() {
            assert_eq!(*p, k % 2 == 0, "id {id}");
        }
        let active = state.active_keybinds.iter().any(|(x, _)| x == id);
        assert_eq!(active, mine.len() % 2 == 1, "id {id}");
    }
}
