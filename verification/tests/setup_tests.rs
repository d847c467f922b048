use openconsole::controller::ControllerStore;
use openconsole::controller_input::ControllerInputDeviceInfo;
use openconsole::controller_setup::{template_uses_all_devices, ControllerSetupState};
use openconsole::setup_flow::{add_profile_to_store, begin_controller_setup, finalize_check, save_status, SAVED_STATUS};

fn device(node: &str, name: &str, id: &str, phys: &str) -> ControllerInputDeviceInfo {
    ControllerInputDeviceInfo {
        event_node: node.to_string(),
        name: name.to_string(),
        unique_id: id.to_string(),
        physical_path: phys.to_string(),
    }
}

fn two_devices() -> Vec<ControllerInputDeviceInfo> {
    vec![
        device("event3", "USB Gamepad ", "phys:a", "usb-0000:01:00.0-1.2/input0"),
        device("sdl:0", "", "kind:controller|instance:7", "SDL controller index 0"),
    ]
}

#[test]
fn templates() {
    assert!(template_uses_all_devices(2));
    assert!(!template_uses_all_devices(0));
    assert!(!template_uses_all_devices(7));
    let nes = ControllerSetupState::new(0, Vec::new());
    assert_eq!(nes.title(), "Select USB Controller Device");
    assert_eq!(nes.artwork_set(), "nes");
    assert_eq!(nes.confirm_action_prefix(), "Button A");
    let ds = ControllerSetupState::new(2, Vec::new());
    assert_eq!(ds.title(), "Select Bluetooth Controller Device");
    assert_eq!(ds.cancel_action_prefix(), "Button Circle");
    assert_eq!(ds.instruction_text(), "No Bluetooth controller devices found. Press ESC to go back.");
    assert_eq!(ds.progress_text(), "0/0");
    assert_eq!(ds.mapping_lines(), "No SDL controller devices found.");
    assert_eq!(ds.selected_device_summary(), "No SDL controller devices found");
}

#[test]
fn device_labels_and_selection() {
    let mut s = ControllerSetupState::new(1, two_devices());
    assert_eq!(s.device_labels(), vec!["USB Gamepad - USB port 1.2".to_string(), "Controller - USB ID 0".to_string()]);
    assert_eq!(s.device_list_text(), "> USB Gamepad - USB port 1.2\n  Controller - USB ID 0");
    assert_eq!(s.progress_text(), "1/2");
    s.select_next_device();
    assert_eq!(s.selected_device_index(), 1);
    s.select_next_device();
    assert_eq!(s.selected_device_index(), 0);
    s.select_previous_device();
    assert_eq!(s.selected_device_index(), 1);
    s.select_previous_device();
    assert_eq!(s.selected_device_index(), 0);
    assert_eq!(s.selected_device_id().as_deref(), Some("phys:a"));
    assert_eq!(s.instruction_text(), "Use Up/Down to choose the USB controller, then press Enter to start mapping.");
}

#[test]
fn ten_presses_capture_a_control() {
    let mut s = ControllerSetupState::new(0, two_devices());
    assert!(s.is_device_selection());
    let chosen = s.confirm_selected_device().unwrap();
    assert_eq!(chosen.unique_id, "phys:a");
    assert!(s.is_mapping_controls() && s.is_armed());
    assert_eq!(s.title(), "NES USB Controller");
    assert_eq!(s.current_action().as_deref(), Some("Move Up"));
    assert_eq!(s.current_overlay_name(), Some("up"));
    assert_eq!(s.current_button_label(), "Up");
    assert_eq!(s.instruction_text(), "Press the highlighted Move Up button 10 times.");
    for _ in 0..5 {
        assert!(!s.register_mapping_press("JS_BTN_1"));
    }
    assert_eq!(s.current_press_count(), 5);
    assert_eq!(s.current_progress_percent(), 50);
    assert!(!s.register_mapping_press("JS_BTN_2"));
    assert_eq!(s.current_press_count(), 1);
    for _ in 0..9 {
        assert!(!s.register_mapping_press("JS_BTN_2"));
    }
    assert_eq!(s.current_action().as_deref(), Some("Move Down"));
    assert_eq!(s.current_press_count(), 0);
    assert_eq!(s.mapped_token_for_action_prefix("Move Up").as_deref(), Some("JS_BTN_2"));
    assert_eq!(s.progress_text(), "1/8");
    assert!(s.mapping_lines().starts_with("1. Move Up -> JS_BTN_2\n2. Move Down -> Not set"));
}

#[test]
fn finishing_the_mapping_and_saving() {
    let mut s = ControllerSetupState::new(0, two_devices());
    s.confirm_selected_device();
    s.record_key("UP".to_string());
    assert!(!s.is_armed());
    s.record_key("IGNORED".to_string());
    s.arm_next();
    for i in 0..6 {
        s.record_or_skip_current(if i == 2 { None } else { Some(format!("K{i}")) });
    }
    assert!(!s.is_complete());
    s.record_or_skip_current(Some("A".to_string()));
    assert!(s.is_complete());
    assert_eq!(s.current_progress_percent(), 100);
    assert_eq!(s.instruction_text(), "All controls captured. Press Enter to save.");
    assert_eq!(s.progress_text(), "7/8");
    assert_eq!(s.current_action(), None);
    let p = s.to_profile_at(1, 1700000000);
    assert_eq!(p.id, "usb-nes-classic-1700000000");
    assert_eq!(p.name, "NES Controller #2");
    assert_eq!(p.template, "usb-nes-classic");
    assert_eq!(p.device_id.as_deref(), Some("phys:a"));
    assert_eq!(p.device_name.as_deref(), Some("USB Gamepad "));
    let labels: Vec<&str> = p.mappings.iter().map(|(a, _)| a.as_str()).collect();
    assert_eq!(labels, vec!["Button A (Jump / Select)", "Button B (Back / Return)", "Move Down", "Move Left", "Move Up", "Select (Secondary)", "Start (Pause / Menu)"]);
    let fresh = s.to_profile(0);
    assert!(fresh.id.starts_with("usb-nes-classic-"));
    assert_eq!(fresh.name, "NES Controller #1");
}

#[test]
fn dualsense_skip_and_rotation() {
    let mut s = ControllerSetupState::new(2, vec![device("sdl:0", "Keyboard", "k", ""), device("sdl:1", "DualSense Wireless Controller", "d", "")]);
    s.skip_device_selection_for_dualsense();
    assert_eq!(s.selected_device_index(), 1);
    assert!(s.is_mapping_controls());
    for _ in 0..12 {
        s.record_or_skip_current(Some("T".to_string()));
    }
    assert_eq!(s.current_action().as_deref(), Some("Button L1"));
    assert!(s.should_play_rotation_animation());
    assert_eq!(s.artwork_stage(), 0);
    s.mark_rotation_played();
    assert!(s.has_played_rotation() && !s.should_play_rotation_animation());
    assert_eq!(s.artwork_stage(), 18);
    s.set_bluetooth_address(Some("AA:BB".to_string()));
    assert_eq!(s.to_profile_at(0, 5).bluetooth_address.as_deref(), Some("AA:BB"));
}

#[test]
fn setup_flow_steps() {
    let s = begin_controller_setup(2, two_devices(), "AA:BB");
    assert!(s.is_mapping_controls());
    assert_eq!(s.to_profile_at(0, 1).bluetooth_address.as_deref(), Some("AA:BB"));
    let plain = begin_controller_setup(0, two_devices(), "");
    assert!(plain.is_device_selection());
    assert_eq!(finalize_check(false, &None), Some("Controller setup cancelled."));
    assert_eq!(finalize_check(true, &None), Some("No controller setup in progress."));
    assert_eq!(finalize_check(true, &Some(plain.clone())), Some("Controller mapping is not complete."));
    let mut done = ControllerSetupState::new(0, two_devices());
    done.confirm_selected_device();
    for _ in 0..8 {
        done.record_or_skip_current(Some("X".to_string()));
    }
    assert_eq!(finalize_check(true, &Some(done.clone())), None);
    let mut store = ControllerStore::new();
    assert_eq!(add_profile_to_store(&mut store, &done, 9), 0);
    assert_eq!(add_profile_to_store(&mut store, &done, 10), 1);
    assert_eq!(store.controllers[1].name, "NES Controller #2");
    assert_eq!(save_status(&Ok(())), SAVED_STATUS);
    assert_eq!(save_status(&Err("disk full".to_string())), "Failed to save controller: disk full");
}

#[test]
fn dualsense_progress_counts_mapped_only() {
    let mut s = ControllerSetupState::new(2, Vec::new());
    s.skip_device_selection_for_dualsense();
    s.record_or_skip_current(Some("A".to_string()));
    s.record_or_skip_current(None);
    assert_eq!(s.progress_text(), "1/16");
    assert_eq!(s.current_action().as_deref(), Some("Move Right"));
}

#[test]
fn dualsense_mapping_lines() {
    let mut s = ControllerSetupState::new(2, Vec::new());
    s.skip_device_selection_for_dualsense();
    s.record_or_skip_current(Some("Keyboard:Up".to_string()));
    let r = s.mapping_lines();
    assert_eq!(r.lines().count(), 16);
    assert_eq!(r.lines().next(), Some("1. Move Up -> Keyboard:Up"));
    assert_eq!(r.lines().nth(1), Some("2. Move Left -> Not set"));
}

#[test]
fn second_key_without_arming_changes_nothing() {
    let mut s = ControllerSetupState::new(2, Vec::new());
    s.skip_device_selection_for_dualsense();
    s.record_key("K1".to_string());
    s.record_key("K2".to_string());
    assert_eq!(s.current_action().as_deref(), Some("Move Left"));
    assert!(!s.is_armed());
    assert_eq!(s.progress_text(), "1/16");
    assert_eq!(s.mapped_token_for_action_prefix("Move Up").as_deref(), Some("K1"));
    assert_eq!(s.mapped_token_for_action_prefix("Move Left"), None);
}

#[test]
fn tenth_press_captures_and_moves_on() {
    let mut s = ControllerSetupState::new(2, Vec::new());
    s.skip_device_selection_for_dualsense();
    for _ in 0..9 {
        assert!(!s.register_mapping_press("SDL_CONTROLLER_BUTTON_DPAD_UP"));
    }
    assert_eq!(s.current_press_count(), 9);
    assert_eq!(s.current_progress_percent(), 90);
    assert!(!s.register_mapping_press("SDL_CONTROLLER_BUTTON_DPAD_UP"));
    assert_eq!(s.current_action().as_deref(), Some("Move Left"));
    assert_eq!(s.mapped_token_for_action_prefix("Move Up").as_deref(), Some("SDL_CONTROLLER_BUTTON_DPAD_UP"));
    assert_eq!(s.current_press_count(), 0);
    assert!(s.is_armed());
}
