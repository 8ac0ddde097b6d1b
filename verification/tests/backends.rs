use goofbind::chord::{shortcut_transition, Chord, ChordTracker};
use goofbind::keymap::{
    hook_key_message, normalize_vk, rdev_key_to_vk, x11_key_message, Key, HC_ACTION, WM_KEYDOWN, WM_KEYUP,
    WM_SYSKEYDOWN, WM_SYSKEYUP,
};
use goofbind::platform::using_xdg;
use goofbind::wayland::{needs_update, shortcut_requests, wayland_step, LoopMessage, WaylandAction};
use goofbind::{GoofbindError, InternalMessage, KeybindInfo, OutgoingMessage};

fn named(id: &str, name: Option<&str>) -> KeybindInfo {
    KeybindInfo {
        id: id.to_string(),
        name: name.map(|n| n.to_string()),
        keycode: Some(65),
        ctrl: false,
        alt: false,
        shift: false,
        meta: false,
    }
}

#[test]
fn x11_letters_digits_and_function_keys() {
    assert_eq!(rdev_key_to_vk(Key::KeyA), Some(65));
    assert_eq!(rdev_key_to_vk(Key::KeyT), Some(84));
    assert_eq!(rdev_key_to_vk(Key::KeyZ), Some(90));
    assert_eq!(rdev_key_to_vk(Key::Num0), Some(48));
    assert_eq!(rdev_key_to_vk(Key::Num9), Some(57));
    assert_eq!(rdev_key_to_vk(Key::Kp0), Some(96));
    assert_eq!(rdev_key_to_vk(Key::Kp9), Some(105));
    assert_eq!(rdev_key_to_vk(Key::F1), Some(112));
    assert_eq!(rdev_key_to_vk(Key::F12), Some(123));
    assert_eq!(rdev_key_to_vk(Key::PrintScreen), Some(44));
    assert_eq!(rdev_key_to_vk(Key::Minus), Some(189));
    assert_eq!(rdev_key_to_vk(Key::KpDivide), Some(111));
}

#[test]
fn x11_aliases_share_codes() {
    assert_eq!(rdev_key_to_vk(Key::Return), Some(13));
    assert_eq!(rdev_key_to_vk(Key::KpReturn), Some(13));
    assert_eq!(rdev_key_to_vk(Key::ShiftLeft), Some(16));
    assert_eq!(rdev_key_to_vk(Key::ShiftRight), Some(16));
    assert_eq!(rdev_key_to_vk(Key::ControlLeft), Some(17));
    assert_eq!(rdev_key_to_vk(Key::ControlRight), Some(17));
    assert_eq!(rdev_key_to_vk(Key::Alt), Some(18));
    assert_eq!(rdev_key_to_vk(Key::AltGr), Some(18));
    assert_eq!(rdev_key_to_vk(Key::MetaLeft), Some(91));
    assert_eq!(rdev_key_to_vk(Key::MetaRight), Some(91));
}

#[test]
fn x11_unmapped_keys() {
    assert_eq!(rdev_key_to_vk(Key::IntlBackslash), None);
    assert_eq!(rdev_key_to_vk(Key::KpDelete), None);
    assert_eq!(rdev_key_to_vk(Key::Function), None);
    assert_eq!(rdev_key_to_vk(Key::Unknown(42)), None);
    assert_eq!(x11_key_message(Key::Unknown(7), true), None);
}

#[test]
fn x11_message_carries_code_and_direction() {
    assert_eq!(
        x11_key_message(Key::KeyT, true),
        Some(InternalMessage::RawKey { keycode: 84, pressed: true })
    );
    assert_eq!(
        x11_key_message(Key::Escape, false),
        Some(InternalMessage::RawKey { keycode: 27, pressed: false })
    );
}

#[test]
fn x11_codes_are_fixed_points_of_windows_normalization() {
    for key in [Key::ShiftLeft, Key::ControlRight, Key::AltGr, Key::MetaRight, Key::KeyQ, Key::F5] {
        let code = rdev_key_to_vk(key).unwrap();
        assert_eq!(normalize_vk(code), code);
    }
}

#[test]
fn windows_normalization() {
    assert_eq!(normalize_vk(160), 16);
    assert_eq!(normalize_vk(161), 16);
    assert_eq!(normalize_vk(162), 17);
    assert_eq!(normalize_vk(163), 17);
    assert_eq!(normalize_vk(164), 18);
    assert_eq!(normalize_vk(165), 18);
    assert_eq!(normalize_vk(92), 91);
    assert_eq!(normalize_vk(65), 65);
    assert_eq!(normalize_vk(normalize_vk(163)), normalize_vk(163));
}

#[test]
fn windows_hook_messages() {
    assert_eq!(
        hook_key_message(HC_ACTION, WM_KEYDOWN, 160),
        Some(InternalMessage::RawKey { keycode: 16, pressed: true })
    );
    assert_eq!(
        hook_key_message(HC_ACTION, WM_SYSKEYDOWN, 84),
        Some(InternalMessage::RawKey { keycode: 84, pressed: true })
    );
    assert_eq!(
        hook_key_message(HC_ACTION, WM_KEYUP, 84),
        Some(InternalMessage::RawKey { keycode: 84, pressed: false })
    );
    assert_eq!(
        hook_key_message(HC_ACTION, WM_SYSKEYUP, 165),
        Some(InternalMessage::RawKey { keycode: 18, pressed: false })
    );
    assert_eq!(hook_key_message(HC_ACTION, 0x0200, 84), None);
    assert_eq!(hook_key_message(3, WM_KEYDOWN, 84), None);
    assert_eq!(hook_key_message(-1, WM_KEYUP, 84), None);
}

#[test]
fn portal_needs_update_on_length_id_or_name() {
    let a = vec![named("a", Some("A")), named("b", None)];
    assert!(!needs_update(&a, &a.clone()));
    assert!(needs_update(&a, &vec![named("a", Some("A"))]));
    assert!(needs_update(&a, &vec![named("a", Some("A")), named("c", None)]));
    assert!(needs_update(&a, &vec![named("a", Some("B")), named("b", None)]));
    assert!(needs_update(&a, &vec![named("a", None), named("b", None)]));
    let mut other_key = a.clone();
    other_key[0].keycode = Some(90);
    other_key[1].ctrl = true;
    assert!(!needs_update(&a, &other_key));
    assert!(!needs_update(&vec![], &vec![]));
}

#[test]
fn portal_shortcut_descriptions_fall_back_to_id() {
    let reqs = shortcut_requests(&vec![named("open", Some("Open Terminal")), named("shot", None)]);
    assert_eq!(reqs.len(), 2);
    assert_eq!(reqs[0].id, "open");
    assert_eq!(reqs[0].description, "Open Terminal");
    assert_eq!(reqs[1].id, "shot");
    assert_eq!(reqs[1].description, "shot");
}

#[test]
fn portal_loop_steps() {
    let mut current: Vec<KeybindInfo> = Vec::new();
    assert_eq!(
        wayland_step(&mut current, LoopMessage::Activated("x".to_string())),
        WaylandAction::Send(InternalMessage::WaylandEvent { id: "x".to_string(), pressed: true })
    );
    assert_eq!(
        wayland_step(&mut current, LoopMessage::Deactivated("x".to_string())),
        WaylandAction::Send(InternalMessage::WaylandEvent { id: "x".to_string(), pressed: false })
    );
    let table = vec![named("open", Some("Open"))];
    match wayland_step(&mut current, LoopMessage::Update(table.clone())) {
        WaylandAction::Bind(reqs) => {
            assert_eq!(reqs.len(), 1);
            assert_eq!(reqs[0].description, "Open");
        }
        other => panic!("expected a bind, got {other:?}"),
    }
    assert_eq!(current, table);
    assert_eq!(wayland_step(&mut current, LoopMessage::Update(table.clone())), WaylandAction::Nothing);
    assert_eq!(wayland_step(&mut current, LoopMessage::Update(vec![])), WaylandAction::Bind(vec![]));
    assert!(current.is_empty());
    assert_eq!(
        wayland_step(&mut current, LoopMessage::BindFailed("no session".to_string())),
        WaylandAction::Send(InternalMessage::PlatformError("no session".to_string()))
    );
    assert!(current.is_empty());
}

#[test]
fn error_messages() {
    assert_eq!(GoofbindError::HookFailed.message(), "Failed to install global OS keyboard hook.");
    assert_eq!(
        GoofbindError::Portal("no session".to_string()).message(),
        "Wayland portal error: no session"
    );
}

#[test]
fn portal_detection() {
    assert!(using_xdg(Some("wayland".to_string()), false, false));
    assert!(!using_xdg(Some("x11".to_string()), false, false));
    assert!(!using_xdg(None, false, false));
    assert!(using_xdg(None, true, false));
    assert!(using_xdg(Some("x11".to_string()), false, true));
}

fn chord(shift: bool, alt: bool, ctrl: bool, c: Option<&str>) -> Chord {
    Chord { shift, alt, ctrl, character: c.map(|s| s.to_string()) }
}

#[test]
fn chord_tracker_press_repeat_switch_release() {
    let mut t = ChordTracker::new();
    let a = chord(true, true, false, Some("m"));
    assert_eq!(
        t.on_key_pressed(a.clone(), Some("1".to_string())),
        vec![OutgoingMessage::Pressed { id: "1".to_string() }]
    );
    assert!(t.on_key_pressed(a.clone(), Some("1".to_string())).is_empty());
    let b = chord(true, false, true, Some("a"));
    assert_eq!(
        t.on_key_pressed(b.clone(), Some("2".to_string())),
        vec![
            OutgoingMessage::Released { id: "1".to_string() },
            OutgoingMessage::Pressed { id: "2".to_string() }
        ]
    );
    assert_eq!(t.on_key_released(), vec![OutgoingMessage::Released { id: "2".to_string() }]);
    assert!(t.on_key_released().is_empty());
    assert!(t.on_key_pressed(chord(false, false, false, None), None).is_empty());
    assert!(t.down.is_none());
}

#[test]
fn windows_shortcut_transition() {
    let mut down = chord(false, false, false, None);
    let next = chord(true, false, false, Some("m"));
    assert_eq!(
        shortcut_transition(&mut down, next.clone(), None, Some("7".to_string())),
        vec![OutgoingMessage::Pressed { id: "7".to_string() }]
    );
    assert_eq!(down, next);
    assert!(shortcut_transition(&mut down, next.clone(), Some("7".to_string()), Some("7".to_string())).is_empty());
    let up = chord(true, false, false, None);
    assert_eq!(
        shortcut_transition(&mut down, up.clone(), Some("7".to_string()), None),
        vec![OutgoingMessage::Released { id: "7".to_string() }]
    );
    assert_eq!(down, up);
}

#[test]
fn chord_notifications_alternate_over_a_run() {
    let mut t = ChordTracker::new();
    let mut all: Vec<OutgoingMessage> = Vec::new();
    let a = chord(true, false, false, Some("a"));
    let b = chord(false, true, false, Some("b"));
    let c = chord(false, false, true, Some("c"));
    all.extend(t.on_key_pressed(a.clone(), Some("1".to_string())));
    all.extend(t.on_key_pressed(a.clone(), Some("1".to_string())));
    all.extend(t.on_key_pressed(b.clone(), Some("2".to_string())));
    all.extend(t.on_key_pressed(c.clone(), None));
    all.extend(t.on_key_released());
    all.extend(t.on_key_pressed(c.clone(), Some("3".to_string())));
    all.extend(t.on_key_released());
    all.extend(t.on_key_released());
    all.extend(t.on_key_pressed(a, Some("1".to_string())));
    for (i, e) in all.iter().enumerate() {
        if i % 2 == 0 {
            assert!(matches!(e, OutgoingMessage::Pressed { .. }));
        } else {
            let prev = match &all[i - 1] {
                OutgoingMessage::Pressed { id } => id.clone(),
                _ => unreachable!(),
            };
            assert_eq!(*e, OutgoingMessage::Released { id: prev });
        }
    }
    assert_eq!(all.len() % 2, 1);
    assert_eq!(t.down.as_ref().map(|(_, id)| id.as_str()), Some("1"));
}
