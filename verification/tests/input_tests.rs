use openconsole::input::{
    action_from_mapping_label, axis_direction, capture_token, collect_runtime_controller_devices,
    controller_axis_token, controller_button_token, controller_connection_event,
    controller_device_info_from_controller, controller_device_info_from_joystick, controller_unique_id,
    device_matches_selected, joystick_axis_token, joystick_button_token, joystick_unique_id,
    keyboard_connection_event, keyboard_token, raw_keyboard_action, runtime_joystick_device,
    trigger_axis_direction, CaptureInput, CaptureKey, ConsoleAction, ConsoleInputPhase, ConsoleInputSource,
    ControllerAxis, ControllerButton, ControllerDeviceInfo,
};
use openconsole::keyboard_input::{KEY_A, KEY_ENTER, KEY_ESC, KEY_SPACE, KEY_TAB, KEY_UP};

#[test]
fn action_names_and_slots() {
    assert_eq!(ConsoleAction::Accept.as_str(), "Accept");
    assert_eq!(ConsoleAction::Select.slot(), 7);
    for i in 0..8 {
        assert_eq!(ConsoleAction::from_slot(i).slot(), i);
    }
}

#[test]
fn axis_directions_use_dead_zone() {
    assert_eq!(axis_direction(-8000), -1);
    assert_eq!(axis_direction(-7999), 0);
    assert_eq!(axis_direction(7999), 0);
    assert_eq!(axis_direction(8000), 1);
    assert_eq!(trigger_axis_direction(-32768), 0);
    assert_eq!(trigger_axis_direction(8000), 1);
}

#[test]
fn input_tokens() {
    assert_eq!(controller_button_token(ControllerButton::DPadLeft), "SDL_CONTROLLER_BUTTON_DPAD_LEFT");
    assert_eq!(keyboard_token(CaptureKey::Return), "Keyboard:Return");
    assert_eq!(joystick_button_token(12), "SDL_JOYSTICK_BUTTON_12");
    assert_eq!(joystick_axis_token(1, -20000).as_deref(), Some("SDL_JOYSTICK_AXIS_1_NEG"));
    assert_eq!(joystick_axis_token(3, 20000).as_deref(), Some("SDL_JOYSTICK_AXIS_3_POS"));
    assert_eq!(joystick_axis_token(3, 100), None);
    assert_eq!(controller_axis_token(ControllerAxis::LeftY, 30000).as_deref(), Some("SDL_CONTROLLER_AXIS_LeftY_POS"));
    assert_eq!(
        controller_axis_token(ControllerAxis::TriggerLeft, 30000).as_deref(),
        Some("SDL_CONTROLLER_AXIS_TriggerLeft_POS")
    );
    assert_eq!(controller_axis_token(ControllerAxis::TriggerLeft, -30000), None);
    assert_eq!(controller_axis_token(ControllerAxis::RightX, 30000), None);
}

#[test]
fn mapping_labels_to_actions() {
    assert_eq!(action_from_mapping_label("Move Up"), Some(ConsoleAction::Up));
    assert_eq!(action_from_mapping_label("Button Cross (A)"), Some(ConsoleAction::Accept));
    assert_eq!(action_from_mapping_label("Button Circle"), Some(ConsoleAction::Cancel));
    assert_eq!(action_from_mapping_label("Button Touchpad"), Some(ConsoleAction::Select));
    assert_eq!(action_from_mapping_label("Top Right"), Some(ConsoleAction::Start));
    assert_eq!(action_from_mapping_label("Left Stick"), None);
}

#[test]
fn raw_keys_to_actions() {
    assert_eq!(raw_keyboard_action(KEY_UP), Some(ConsoleAction::Up));
    assert_eq!(raw_keyboard_action(KEY_A), Some(ConsoleAction::Left));
    assert_eq!(raw_keyboard_action(KEY_SPACE), Some(ConsoleAction::Accept));
    assert_eq!(raw_keyboard_action(KEY_ENTER), Some(ConsoleAction::Accept));
    assert_eq!(raw_keyboard_action(KEY_ESC), Some(ConsoleAction::Cancel));
    assert_eq!(raw_keyboard_action(KEY_TAB), Some(ConsoleAction::Select));
    assert_eq!(raw_keyboard_action(2), None);
}

#[test]
fn device_identities() {
    assert_eq!(
        controller_unique_id("DualSense", Some(1356), Some(3302)),
        "kind:controller|name:DualSense|vendor:1356|product:3302"
    );
    assert_eq!(controller_unique_id("Pad", None, None), "kind:controller|name:Pad|vendor:|product:");
    assert_eq!(joystick_unique_id("0300abcd", "Stick"), "kind:joystick|guid:0300abcd|name:Stick");
    let d = controller_device_info_from_controller(2, "Pad", "id");
    assert_eq!(d.event_node, "sdl:2");
    assert_eq!(d.physical_path, "SDL controller index 2");
    let j = controller_device_info_from_joystick(1, "Stick", "jid", 6, 13, 1);
    assert_eq!(j.event_node, "sdl-joystick:1");
    assert_eq!(j.physical_path, "SDL joystick index 1 axes=6 buttons=13 hats=1");
    let r = runtime_joystick_device(9, "Stick", "jid", 2, 4, 0);
    assert_eq!(r.event_node, "sdl-joystick-instance:9");
    assert_eq!(r.physical_path, "SDL joystick instance 9 axes=2 buttons=4 hats=0");
}

#[test]
fn device_selection_matches() {
    assert!(device_matches_selected("a", None));
    assert!(device_matches_selected("a", Some("a")));
    assert!(!device_matches_selected("a", Some("b")));
}

#[test]
fn connection_events() {
    let e = keyboard_connection_event("/dev/input/event3", "Keyboard", true);
    assert_eq!(e.phase, ConsoleInputPhase::Connected);
    assert_eq!(e.token, "KEYBOARD_CONNECTED:/dev/input/event3");
    assert!(matches!(e.source, ConsoleInputSource::Keyboard { ref keycode, .. } if keycode.is_empty()));
    let c = controller_connection_event(4, "dev", "Pad", true, false, 77);
    assert_eq!(c.phase, ConsoleInputPhase::Disconnected);
    assert_eq!(c.token, "SDL_JOYSTICK_DISCONNECTED:4");
    assert_eq!(c.timestamp, 77);
    let k = controller_connection_event(5, "dev", "Pad", false, true, 1);
    assert_eq!(k.token, "SDL_CONTROLLER_CONNECTED:5");
}

fn device(id: &str) -> ControllerDeviceInfo {
    ControllerDeviceInfo {
        event_node: format!("node-{id}"),
        name: id.to_string(),
        unique_id: id.to_string(),
        physical_path: String::new(),
    }
}

#[test]
fn runtime_devices_sorted_by_unique_id() {
    let r = collect_runtime_controller_devices(vec![device("c"), device("a")], vec![device("b"), device("a")]);
    let ids: Vec<&str> = r.iter().map(|d| d.unique_id.as_str()).collect();
    assert_eq!(ids, vec!["a", "a", "b", "c"]);
}

#[test]
fn capture_tokens_respect_selection() {
    let button = CaptureInput::ControllerButton { device_id: "pad".into(), button: ControllerButton::A };
    assert_eq!(capture_token(&button, None).as_deref(), Some("SDL_CONTROLLER_BUTTON_A"));
    assert_eq!(capture_token(&button, Some("other")), None);
    let ignored = CaptureInput::JoystickAxis { device_id: "pad".into(), axis_idx: 0, value: 30000, ignored: true };
    assert_eq!(capture_token(&ignored, None), None);
    let axis = CaptureInput::JoystickAxis { device_id: "pad".into(), axis_idx: 0, value: 30000, ignored: false };
    assert_eq!(capture_token(&axis, Some("pad")).as_deref(), Some("SDL_JOYSTICK_AXIS_0_POS"));
    let key = CaptureInput::Key { key: CaptureKey::Escape };
    assert_eq!(capture_token(&key, Some("anything")).as_deref(), Some("Keyboard:Escape"));
}
