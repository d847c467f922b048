use openconsole::controller::{list_text, list_text_with_selection, ControllerProfile, ControllerStore};
use openconsole::input::ControllerAxis;
use openconsole::keyboard_input::{KEY_A, KEY_ENTER, KEY_ESC, KEY_LEFT, KEY_SPACE, KEY_UP, KEY_W};
use openconsole::runtime_mapper::{
    action_token_aliases, canonical_input_token, configured_controller_ids, controller_axis_direction,
    device_id_allowed, expand_device_id_aliases, input_to_output_map, mapped_keys_for_token,
    output_keys_for_action, MapperInput, MapperState, MappingTable,
};

fn profile(name: &str, device_id: Option<&str>, mappings: &[(&str, &str)]) -> ControllerProfile {
    ControllerProfile {
        id: format!("{name}-id"),
        name: name.to_string(),
        template: "Generic".to_string(),
        device_id: device_id.map(|d| d.to_string()),
        device_name: None,
        bluetooth_address: None,
        mappings: mappings.iter().map(|(a, b)| (a.to_string(), b.to_string())).collect(),
    }
}

#[test]
fn canonical_tokens() {
    assert_eq!(canonical_input_token("SDL_JOYSTICK_BUTTON_3"), "JS_BTN_3");
    assert_eq!(canonical_input_token("SDL_JOYSTICK_AXIS_1_NEG"), "JS_AXIS_1_NEG");
    assert_eq!(canonical_input_token("SDL_CONTROLLER_BUTTON_A"), "SDL_CONTROLLER_BUTTON_A");
    assert_eq!(canonical_input_token("hidraw3_B5_0x20"), "HIDRAW_B5_0x20");
    assert_eq!(canonical_input_token("hidraw_B5"), "hidraw_B5");
    assert_eq!(canonical_input_token("KEY_A"), "KEY_A");
}

#[test]
fn output_keys_and_aliases() {
    assert_eq!(output_keys_for_action("Move Up"), vec![KEY_UP, KEY_W]);
    assert_eq!(output_keys_for_action("Move Left (stick)"), vec![KEY_LEFT, KEY_A]);
    assert_eq!(output_keys_for_action("Button A"), vec![KEY_SPACE]);
    assert_eq!(output_keys_for_action("Start"), vec![KEY_ESC]);
    assert_eq!(output_keys_for_action("Select"), vec![KEY_ENTER]);
    assert!(output_keys_for_action("Button X").is_empty());
    assert_eq!(action_token_aliases("Start")[1], "BTN_BASE4");
    assert_eq!(action_token_aliases("Move Down").len(), 5);
    assert!(action_token_aliases("Button X").is_empty());
}

#[test]
fn mapping_table_from_profiles() {
    let mut store = ControllerStore::new();
    store.controllers.push(profile("Pad", Some("kind:joystick|guid:1|name:Pad"), &[("Button A", "SDL_JOYSTICK_BUTTON_3"), ("Button X", "SDL_JOYSTICK_BUTTON_4")]));
    let table = input_to_output_map(&store);
    assert_eq!(mapped_keys_for_token(&table, "SDL_JOYSTICK_BUTTON_3"), Some(vec![KEY_SPACE]));
    assert_eq!(mapped_keys_for_token(&table, "JS_BTN_3"), Some(vec![KEY_SPACE]));
    assert_eq!(mapped_keys_for_token(&table, "Space"), Some(vec![KEY_SPACE]));
    assert_eq!(mapped_keys_for_token(&table, "SDL_CONTROLLER_BUTTON_X"), Some(vec![KEY_SPACE]));
    assert_eq!(mapped_keys_for_token(&table, "SDL_JOYSTICK_BUTTON_4"), None);
    let empty = MappingTable::new();
    assert_eq!(mapped_keys_for_token(&empty, "Space"), None);
}

#[test]
fn merge_mapping_appends_new_keys_only() {
    let mut table = MappingTable::new();
    table.merge_mapping("T", &[1, 2]);
    table.merge_mapping("T", &[2, 3]);
    assert_eq!(mapped_keys_for_token(&table, "T"), Some(vec![1, 2, 3]));
}

#[test]
fn emitting_a_token_twice_types_once() {
    let mut table = MappingTable::new();
    table.merge_mapping("JS_BTN_1", &[KEY_SPACE]);
    let mut state = MapperState::new();
    assert_eq!(state.emit_mapped_token(&table, "SDL_JOYSTICK_BUTTON_1", 1), vec![(KEY_SPACE, 1)]);
    assert!(state.emit_mapped_token(&table, "SDL_JOYSTICK_BUTTON_1", 1).is_empty());
    assert_eq!(state.emit_mapped_token(&table, "SDL_JOYSTICK_BUTTON_1", 0), vec![(KEY_SPACE, 0)]);
    assert!(state.emit_mapped_token(&table, "unmapped", 1).is_empty());
}

#[test]
fn direction_tokens_and_release_all() {
    let mut table = MappingTable::new();
    table.merge_mapping("NEG", &[KEY_LEFT]);
    table.merge_mapping("POS", &[KEY_UP]);
    let mut state = MapperState::new();
    assert_eq!(state.handle_direction_tokens(&table, "NEG", "POS", -1), vec![(KEY_LEFT, 1), (KEY_UP, 0)]);
    assert_eq!(state.handle_direction_tokens(&table, "NEG", "POS", 1), vec![(KEY_LEFT, 0), (KEY_UP, 1)]);
    assert_eq!(state.release_all_active_tokens(&table), vec![(KEY_UP, 0)]);
    assert!(state.release_all_active_tokens(&table).is_empty());
    assert_eq!(state.handle_direction_tokens(&table, "NEG", "POS", 0), Vec::<(u16, i32)>::new());
}

#[test]
fn controller_axis_directions() {
    assert_eq!(controller_axis_direction(ControllerAxis::LeftX, -9000), -1);
    assert_eq!(controller_axis_direction(ControllerAxis::TriggerRight, 9000), 1);
    assert_eq!(controller_axis_direction(ControllerAxis::TriggerRight, -9000), 0);
    assert_eq!(controller_axis_direction(ControllerAxis::RightY, -9000), 0);
}

#[test]
fn configured_devices_and_aliases() {
    let mut store = ControllerStore::new();
    store.controllers.push(profile("A", Some("kind:controller|name:Pad|vendor:1|product:2"), &[]));
    store.controllers.push(profile("B", None, &[]));
    let ids = configured_controller_ids(&store);
    assert_eq!(ids, vec!["kind:controller|name:Pad|vendor:1|product:2".to_string()]);
    let aliases = expand_device_id_aliases(&ids);
    assert!(aliases.iter().any(|a| a == "controller-name:Pad|vendor:1|product:2"));
    assert!(device_id_allowed("controller-name:Pad|vendor:1|product:2", &aliases));
    assert!(!device_id_allowed("kind:controller|name:Other|vendor:1|product:2", &aliases));
}

#[test]
fn controller_list_text() {
    let mut store = ControllerStore::new();
    assert_eq!(list_text(&store), "No controllers added yet.");
    store.controllers.push(profile("Pad", None, &[]));
    store.controllers.push(profile("Stick", None, &[]));
    assert_eq!(list_text(&store), "  1. Pad (Generic)\n  2. Stick (Generic)");
    assert_eq!(list_text_with_selection(&store, Some(1)), "  1. Pad (Generic)\n> 2. Stick (Generic)");
}

#[test]
fn only_allowed_devices_type_keys() {
    let mut store = ControllerStore::new();
    store.controllers.push(profile("Pad", Some("kind:joystick|guid:1|name:Pad"), &[("Button A", "SDL_JOYSTICK_BUTTON_3")]));
    let table = input_to_output_map(&store);
    let aliases = expand_device_id_aliases(&configured_controller_ids(&store));
    let mut state = MapperState::new();
    let press = MapperInput::Token { token: "SDL_JOYSTICK_BUTTON_3".to_string(), value: 1 };
    assert!(state.handle_device_input(&table, &aliases, "kind:joystick|guid:2|name:Other", &press).is_empty());
    assert!(state.handle_device_input(&table, &Vec::new(), "kind:joystick|guid:1|name:Pad", &press).is_empty());
    assert_eq!(state.handle_device_input(&table, &aliases, "kind:joystick|guid:1|name:Pad", &press), vec![(KEY_SPACE, 1)]);
    assert_eq!(state.release_all_active_tokens(&table), vec![(KEY_SPACE, 0)]);
    let stick = MapperInput::Direction {
        negative_token: "SDL_JOYSTICK_AXIS_0_NEG".to_string(),
        positive_token: "SDL_JOYSTICK_AXIS_0_POS".to_string(),
        direction: 0,
    };
    assert!(state.handle_device_input(&table, &aliases, "kind:joystick|guid:1|name:Pad", &stick).is_empty());
}
