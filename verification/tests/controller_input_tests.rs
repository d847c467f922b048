use openconsole::controller_input::{
    capture_device_plan, collect_controller_input_devices, controller_device_aliases, controller_device_info,
    controller_device_unique_id, decode_joystick_events, device_id_aliases, device_id_matches_aliases,
    device_looks_like_controller, device_looks_like_usb, evdev_device_selected, first_pressed_token,
    hidraw_node_selected, joystick_node_selected, list_controller_input_devices_with_usb_fallback,
    normalize_abs_axis, normalize_event_tokens, normalize_key, segment_value, sorted_unique, EvdevDeviceProbe,
    HidrawReportState, ABS_HAT0X, ABS_RY, ABS_X, BTN_DPAD_UP, BTN_EAST, BTN_SELECT, BTN_SOUTH, EV_ABS, EV_KEY,
    KEY_KPENTER,
};

fn pairs(v: &[(&str, i32)]) -> Vec<(String, i32)> {
    v.iter().map(|(t, n)| (t.to_string(), *n)).collect()
}

#[test]
fn key_tokens() {
    assert_eq!(normalize_key(BTN_DPAD_UP), "UpArrow");
    assert_eq!(normalize_key(BTN_SOUTH), "Space");
    assert_eq!(normalize_key(KEY_KPENTER), "Return");
    assert_eq!(normalize_key(BTN_EAST), "Escape");
    assert_eq!(normalize_key(BTN_SELECT), "Return");
    assert_eq!(normalize_key(30), "A");
    assert_eq!(normalize_key(16), "KEY_Q");
    assert_eq!(normalize_key(0x13e), "BTN_THUMBR");
}

#[test]
fn axis_tokens() {
    assert_eq!(normalize_abs_axis(ABS_HAT0X, -1), pairs(&[("LeftArrow", 1), ("RightArrow", 0)]));
    assert_eq!(normalize_abs_axis(ABS_X, 64), pairs(&[("LeftArrow", 1), ("RightArrow", 0)]));
    assert_eq!(normalize_abs_axis(ABS_X, 128), pairs(&[("LeftArrow", 0), ("RightArrow", 0)]));
    assert_eq!(normalize_abs_axis(ABS_RY, 16384), pairs(&[("UpArrow", 0), ("DownArrow", 1)]));
    assert_eq!(normalize_abs_axis(ABS_RY, -300), pairs(&[("UpArrow", 0), ("DownArrow", 0)]));
    assert!(normalize_abs_axis(0x05, 100).is_empty());
    assert_eq!(normalize_event_tokens(EV_KEY, BTN_SOUTH, 1), pairs(&[("Space", 1)]));
    assert!(normalize_event_tokens(EV_KEY, BTN_SOUTH, 2).is_empty());
    assert_eq!(normalize_event_tokens(EV_ABS, ABS_X, 255), pairs(&[("LeftArrow", 0), ("RightArrow", 1)]));
    assert!(normalize_event_tokens(0, 0, 1).is_empty());
}

#[test]
fn controller_capabilities() {
    assert!(device_looks_like_controller(Some(&[BTN_SOUTH]), None));
    assert!(device_looks_like_controller(None, Some(&[ABS_X])));
    assert!(!device_looks_like_controller(Some(&[30, 31]), Some(&[0x05])));
    assert!(!device_looks_like_controller(None, None));
}

#[test]
fn joystick_records() {
    let mut bytes = vec![0, 0, 0, 0, 1, 0, 1, 3];
    bytes.extend([0, 0, 0, 0, 0xf0, 0xd8, 2, 1]);
    bytes.extend([0, 0, 0, 0, 1, 0, 0x81, 4]);
    bytes.extend([1, 2, 3]);
    assert_eq!(
        decode_joystick_events(&bytes),
        pairs(&[("JS_BTN_3", 1), ("JS_AXIS_1_NEG", 1), ("JS_AXIS_1_POS", 0)])
    );
}

#[test]
fn hidraw_bit_changes() {
    let mut state = HidrawReportState::new();
    assert!(state.report_tokens(vec![0b0000_0001, 0xff]).is_empty());
    assert_eq!(
        state.report_tokens(vec![0b0000_0010, 0xff, 7]),
        pairs(&[("HIDRAW_B0_BIT0", 0), ("HIDRAW_B0_BIT1", 1)])
    );
    assert_eq!(state.last_report, Some(vec![0b0000_0010, 0xff, 7]));
}

#[test]
fn device_id_segments_and_aliases() {
    assert_eq!(segment_value("kind:joystick|guid:ab|name:Pad", "guid:").as_deref(), Some("ab"));
    assert_eq!(segment_value("kind:joystick", "name:"), None);
    assert_eq!(
        device_id_aliases("kind:joystick|guid:ab|name:Pad"),
        vec![
            "joystick-name:Pad".to_string(),
            "kind:joystick|guid:ab|name:Pad".to_string(),
            "kind:joystick|name:Pad".to_string(),
        ]
    );
    assert_eq!(
        device_id_aliases("kind:controller|name:Pad"),
        vec!["controller-name:Pad".to_string(), "kind:controller|name:Pad".to_string()]
    );
    assert_eq!(sorted_unique(vec!["b".into(), "a".into(), "b".into()]), vec!["a".to_string(), "b".to_string()]);
    assert!(device_id_matches_aliases("kind:joystick|guid:ab|name:Pad", &vec!["joystick-name:Pad".to_string()]));
    assert!(!device_id_matches_aliases("phys:x", &vec!["phys:y".to_string()]));
}

fn probe(file: &str, name: Option<&str>, phys: Option<&str>, keys: Option<Vec<u16>>) -> EvdevDeviceProbe {
    EvdevDeviceProbe {
        path: format!("/dev/input/{file}"),
        file_name: Some(file.to_string()),
        name: name.map(|n| n.to_string()),
        physical_path: phys.map(|p| p.to_string()),
        unique_name: None,
        path_identity: None,
        supported_keys: keys,
        supported_axes: None,
    }
}

#[test]
fn evdev_device_records() {
    let pad = probe("event4", Some("Pad"), Some("usb-0000:01:00.0-1.3/input0"), Some(vec![BTN_SOUTH]));
    assert_eq!(controller_device_unique_id(&pad), "phys:usb-0000:01:00.0-1.3/input0");
    let bare = probe("event9", None, Some(""), Some(vec![BTN_SOUTH]));
    assert_eq!(controller_device_unique_id(&bare), "event:event9");
    assert_eq!(
        controller_device_aliases(&pad),
        vec![
            "controller-name:Pad".to_string(),
            "joystick-name:Pad".to_string(),
            "kind:joystick|name:Pad".to_string(),
            "phys:usb-0000:01:00.0-1.3/input0".to_string(),
        ]
    );
    assert!(device_looks_like_usb(&pad));
    assert!(!device_looks_like_usb(&bare));
    let info = controller_device_info(&bare);
    assert_eq!(info.event_node, "event9");
    assert_eq!(info.name, "Unknown controller");
    assert_eq!(info.physical_path, "");
    assert!(evdev_device_selected(&pad, None));
    assert!(evdev_device_selected(&pad, Some("kind:joystick|guid:1|name:Pad")));
    assert!(!evdev_device_selected(&pad, Some("phys:other")));
    let keyboard = probe("event1", Some("Keyboard"), None, Some(vec![30]));
    assert!(!evdev_device_selected(&keyboard, None));
}

#[test]
fn evdev_device_lists() {
    let probes = vec![
        probe("event7", Some("Pad B"), None, Some(vec![BTN_SOUTH])),
        probe("event5", Some("Pad A"), None, Some(vec![BTN_SOUTH])),
        probe("event1", Some("Keyboard"), None, Some(vec![30])),
    ];
    let all = collect_controller_input_devices(&probes, false);
    let nodes: Vec<&str> = all.iter().map(|d| d.event_node.as_str()).collect();
    assert_eq!(nodes, vec!["event5", "event7"]);
    assert!(collect_controller_input_devices(&probes, true).is_empty());
    assert_eq!(list_controller_input_devices_with_usb_fallback(&probes).len(), 2);
    let mut with_usb = probes.clone();
    with_usb.push(probe("event8", Some("USB Pad"), None, Some(vec![BTN_SOUTH])));
    let usb = list_controller_input_devices_with_usb_fallback(&with_usb);
    assert_eq!(usb.len(), 1);
    assert_eq!(usb[0].event_node, "event8");
}

#[test]
fn node_selection() {
    assert!(joystick_node_selected("js0", None, None));
    assert!(!joystick_node_selected("event0", None, None));
    assert!(joystick_node_selected("js0", Some("/sys/x"), Some("/sys/x")));
    assert!(!joystick_node_selected("js0", None, Some("/sys/x")));
    assert!(hidraw_node_selected("HID_NAME=Generic GAMEPAD", None, None));
    assert!(!hidraw_node_selected("HID_NAME=Mouse", None, None));
    assert!(!hidraw_node_selected("gamepad", Some("a"), Some("b")));
}

#[test]
fn capture_helpers() {
    assert_eq!(first_pressed_token(&pairs(&[("A", 0), ("B", 1), ("C", 1)])).as_deref(), Some("B"));
    assert_eq!(first_pressed_token(&pairs(&[("A", 0)])), None);
    assert_eq!(capture_device_plan(0, 0, 0), Err("no controller input devices found under /dev/input"));
    assert_eq!(capture_device_plan(1, 0, 3), Ok(0));
    assert_eq!(capture_device_plan(0, 0, 3), Ok(3));
}
