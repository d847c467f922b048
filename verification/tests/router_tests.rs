use openconsole::action_router::{
    load_controller_profile_bindings, repeat_initial_delay, repeat_interval, resolve_profile_action,
    ActionRouter, JoystickReadiness, ProfileBindings, SourceId,
};
use openconsole::controller::{ControllerProfile, ControllerStore};
use openconsole::input::{ConsoleAction, ConsoleInputEvent, ConsoleInputPhase, ConsoleInputSource, ControllerButton};
use openconsole::keyboard_input::{KEY_UP, KEY_LEFTCTRL};

fn key_source(node: &str, code: u16) -> SourceId {
    SourceId::Keyboard { device_node: node.to_string(), key_code: code }
}

#[test]
fn action_stays_pressed_until_every_source_releases() {
    let mut router = ActionRouter::new();
    let a = key_source("/dev/input/event1", KEY_UP);
    let b = SourceId::ControllerButton { instance_id: 3, button: ControllerButton::DPadUp };
    assert!(router.push_action(ConsoleAction::Up, &a, 0, 300));
    assert!(!router.push_action(ConsoleAction::Up, &b, 10, 300));
    assert!(!router.push_action(ConsoleAction::Up, &a, 20, 300));
    assert!(!router.release_action(ConsoleAction::Up, &a));
    assert!(router.release_action(ConsoleAction::Up, &b));
    assert!(!router.release_action(ConsoleAction::Up, &b));
}

#[test]
fn unmapped_sources_are_tracked_once() {
    let mut router = ActionRouter::new();
    let s = SourceId::JoystickButton { instance_id: 1, button_idx: 9 };
    assert!(router.press_unmapped(&s));
    assert!(!router.press_unmapped(&s));
    assert!(router.release_unmapped(&s));
    assert!(!router.release_unmapped(&s));
}

#[test]
fn keyboard_key_press_release_events() {
    let mut router = ActionRouter::new();
    let mut events: Vec<ConsoleInputEvent> = Vec::new();
    router.handle_keyboard_key("/dev/input/event2", "Keyboard", KEY_UP, 1, 5, 1000, &mut events);
    router.handle_keyboard_key("/dev/input/event2", "Keyboard", KEY_UP, 2, 6, 1010, &mut events);
    router.handle_keyboard_key("/dev/input/event2", "Keyboard", KEY_LEFTCTRL, 1, 7, 1020, &mut events);
    router.handle_keyboard_key("/dev/input/event2", "Keyboard", KEY_UP, 0, 8, 1030, &mut events);
    assert_eq!(events.len(), 2);
    assert_eq!(events[0].phase, ConsoleInputPhase::Pressed);
    assert_eq!(events[0].token, "Keyboard:KEY_UP");
    assert_eq!(events[0].action, Some(ConsoleAction::Up));
    assert_eq!(events[0].timestamp, 5);
    assert!(matches!(events[0].source, ConsoleInputSource::Keyboard { ref keycode, .. } if keycode == "KEY_UP"));
    assert_eq!(events[1].phase, ConsoleInputPhase::Released);
    assert!(!events[1].pressed);
}

#[test]
fn held_action_repeats_after_delay_then_interval() {
    let mut router = ActionRouter::new();
    let mut events: Vec<ConsoleInputEvent> = Vec::new();
    assert!(router.push_action(ConsoleAction::Down, &key_source("k", 108), 0, 300));
    router.repeat_tick(299, 300, 100, 1, &mut events);
    assert!(events.is_empty());
    router.repeat_tick(300, 300, 100, 2, &mut events);
    assert_eq!(events.len(), 1);
    assert_eq!(events[0].phase, ConsoleInputPhase::Repeat);
    assert_eq!(events[0].token, "REPEAT:Down");
    assert_eq!(events[0].action, Some(ConsoleAction::Down));
    router.repeat_tick(399, 300, 100, 3, &mut events);
    assert_eq!(events.len(), 1);
    router.repeat_tick(400, 300, 100, 4, &mut events);
    assert_eq!(events.len(), 2);
    assert!(router.release_action(ConsoleAction::Down, &key_source("k", 108)));
    router.repeat_tick(10_000, 300, 100, 5, &mut events);
    assert_eq!(events.len(), 2);
}

fn pad_store() -> ControllerStore {
    let mut store = ControllerStore::new();
    store.controllers.push(ControllerProfile {
        id: "pad-1".into(),
        name: "Pad".into(),
        template: "Generic".into(),
        device_id: Some("kind:controller|name:Pad|vendor:1|product:2".into()),
        device_name: Some("Pad".into()),
        bluetooth_address: None,
        mappings: vec![
            ("Button A".to_string(), "SDL_CONTROLLER_BUTTON_A".to_string()),
            ("Move Up".to_string(), "SDL_CONTROLLER_BUTTON_DPAD_UP".to_string()),
        ],
    });
    store
}

#[test]
fn profile_bindings_resolve_through_aliases() {
    let bindings = load_controller_profile_bindings(&pad_store());
    let id = "kind:controller|name:Pad|vendor:1|product:2";
    assert_eq!(resolve_profile_action(&bindings, id, "SDL_CONTROLLER_BUTTON_A"), Some(ConsoleAction::Accept));
    assert_eq!(
        resolve_profile_action(&bindings, "controller-name:Pad|vendor:1|product:2", "SDL_CONTROLLER_BUTTON_DPAD_UP"),
        Some(ConsoleAction::Up)
    );
    assert_eq!(resolve_profile_action(&bindings, id, "SDL_CONTROLLER_BUTTON_B"), None);
    assert_eq!(resolve_profile_action(&bindings, "kind:controller|name:Other|vendor:1|product:2", "SDL_CONTROLLER_BUTTON_A"), None);
    let empty = ProfileBindings::new();
    assert_eq!(resolve_profile_action(&empty, id, "SDL_CONTROLLER_BUTTON_A"), None);
}

#[test]
fn controller_button_events_and_removal() {
    let bindings = load_controller_profile_bindings(&pad_store());
    let id = "kind:controller|name:Pad|vendor:1|product:2";
    let mut router = ActionRouter::new();
    let mut events: Vec<ConsoleInputEvent> = Vec::new();
    let a = SourceId::ControllerButton { instance_id: 4, button: ControllerButton::A };
    router.handle_button(&bindings, &a, "SDL_CONTROLLER_BUTTON_A", true, 4, id, "Pad", 11, 0, &mut events);
    let x = SourceId::ControllerButton { instance_id: 4, button: ControllerButton::X };
    router.handle_button(&bindings, &x, "SDL_CONTROLLER_BUTTON_X", true, 4, id, "Pad", 12, 0, &mut events);
    assert_eq!(events.len(), 2);
    assert_eq!(events[0].action, Some(ConsoleAction::Accept));
    assert_eq!(events[0].token, "SDL_CONTROLLER_BUTTON_A");
    assert_eq!(events[1].action, None);
    assert!(events[1].pressed);
    router.remove_controller_from_states(4, 20, "Pad", &mut events);
    assert_eq!(events.len(), 3);
    assert_eq!(events[2].phase, ConsoleInputPhase::Released);
    assert_eq!(events[2].token, "RELEASED:Accept");
    assert_eq!(events[2].timestamp, 20);
    router.handle_button(&bindings, &a, "SDL_CONTROLLER_BUTTON_A", false, 4, id, "Pad", 21, 0, &mut events);
    assert_eq!(events.len(), 3);
}

#[test]
fn joystick_readiness_waits_for_rest() {
    let mut r = JoystickReadiness::new(&vec![Some(30000), Some(0)]);
    assert!(!r.axis_input_ready);
    assert_eq!(r.pending_neutral_axes, vec![0]);
    assert!(!r.refresh(&vec![Some(20000), None]));
    assert!(r.refresh(&vec![Some(10), Some(-10)]));
    assert!(r.refresh(&vec![Some(30000), Some(30000)]));
    let ready = JoystickReadiness::new(&vec![None]);
    assert!(ready.axis_input_ready);
}

#[test]
fn repeat_settings_parse_numbers() {
    assert_eq!(repeat_initial_delay(None), 300);
    assert_eq!(repeat_initial_delay(Some("250")), 250);
    assert_eq!(repeat_initial_delay(Some("+40")), 40);
    assert_eq!(repeat_initial_delay(Some("fast")), 300);
    assert_eq!(repeat_interval(None), 100);
    assert_eq!(repeat_interval(Some("")), 100);
    assert_eq!(repeat_interval(Some("18446744073709551616")), 100);
    assert_eq!(repeat_interval(Some("18446744073709551615")), u64::MAX);
}

#[test]
fn presses_and_releases_alternate_per_action() {
    let mut router = ActionRouter::new();
    let mut events: Vec<ConsoleInputEvent> = Vec::new();
    router.handle_keyboard_key("/dev/input/event2", "Keyboard", KEY_UP, 1, 1, 0, &mut events);
    router.handle_keyboard_key("/dev/input/event3", "Keyboard 2", KEY_UP, 1, 2, 10, &mut events);
    router.handle_keyboard_key("/dev/input/event2", "Keyboard", KEY_UP, 0, 3, 20, &mut events);
    router.handle_keyboard_key("/dev/input/event3", "Keyboard 2", KEY_UP, 0, 4, 30, &mut events);
    router.handle_keyboard_key("/dev/input/event3", "Keyboard 2", KEY_UP, 0, 5, 40, &mut events);
    router.handle_keyboard_key("/dev/input/event2", "Keyboard", KEY_UP, 1, 6, 50, &mut events);
    let phases: Vec<ConsoleInputPhase> = events.iter().map(|e| e.phase).collect();
    assert_eq!(phases, vec![ConsoleInputPhase::Pressed, ConsoleInputPhase::Released, ConsoleInputPhase::Pressed]);
}
