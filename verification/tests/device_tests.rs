use openconsole::keyboard_input::{
    decode_key_events, key_bitmap_has_code, key_code_name, keyboard_device_candidates, keyboard_device_path,
    looks_like_physical_keyboard, parse_hex_u64, parse_proc_bus_capability, RawKeyboardEvent, KEY_SPACE,
};
use openconsole::usb_gamepad_recovery::{
    fallback_hub_locations, looks_like_usb_gamepad, looks_like_usb_gamepad_lowered, parse_proc_bus_name, parse_proc_bus_value, plan_hub_cycles,
    usb_device_base_name, usb_gamepad_candidates, usb_hub_location,
};

const KEYBOARD_BLOCK: &str = "I: Bus=0003 Vendor=046d\nN: Name=\"Logitech USB Keyboard\"\nH: Handlers=sysrq kbd event3 leds\nB: KEY=1000000000007 ff9f207ac14057ff febeffdfffefffff fffffffffffffffe";
const PAD_BLOCK: &str = "I: Bus=0003\nN: Name=\"Sony Interactive Entertainment Wireless Controller\"\nH: Handlers=js0 event5\nB: KEY=7fdb000000000000 0 0 0 0";

fn chars(s: &str) -> Vec<char> {
    s.chars().collect()
}

#[test]
fn key_code_names() {
    assert_eq!(key_code_name(1), "KEY_ESC");
    assert_eq!(key_code_name(57), "KEY_SPACE");
    assert_eq!(key_code_name(200), "KEY_UNKNOWN");
}

#[test]
fn proc_bus_fields() {
    assert_eq!(openconsole::keyboard_input::parse_proc_bus_value(KEYBOARD_BLOCK, "H").as_deref(), Some("Handlers=sysrq kbd event3 leds"));
    assert_eq!(openconsole::keyboard_input::parse_proc_bus_name(KEYBOARD_BLOCK).as_deref(), Some("Logitech USB Keyboard"));
    assert_eq!(openconsole::keyboard_input::parse_proc_bus_name("N: Plain").as_deref(), Some("Plain"));
    assert_eq!(openconsole::keyboard_input::parse_proc_bus_value(KEYBOARD_BLOCK, "X"), None);
    assert_eq!(
        parse_proc_bus_capability(KEYBOARD_BLOCK, "KEY").as_deref(),
        Some("1000000000007 ff9f207ac14057ff febeffdfffefffff fffffffffffffffe")
    );
}

#[test]
fn hex_words() {
    assert_eq!(parse_hex_u64(&chars("ff")), Some(255));
    assert_eq!(parse_hex_u64(&chars("+A")), Some(10));
    assert_eq!(parse_hex_u64(&chars("ffffffffffffffff")), Some(u64::MAX));
    assert_eq!(parse_hex_u64(&chars("10000000000000000")), None);
    assert_eq!(parse_hex_u64(&chars("")), None);
    assert_eq!(parse_hex_u64(&chars("xyz")), None);
}

#[test]
fn key_bitmaps() {
    assert!(key_bitmap_has_code("1 0", 64));
    assert!(!key_bitmap_has_code("1 0", 0));
    assert!(key_bitmap_has_code("200000000000000", KEY_SPACE));
    assert!(!key_bitmap_has_code("", 1));
    assert!(!key_bitmap_has_code("zz", 1));
}

#[test]
fn physical_keyboards() {
    assert!(looks_like_physical_keyboard("", "USB Keyboard"));
    assert!(looks_like_physical_keyboard("", "Some Device"));
    assert!(!looks_like_physical_keyboard("", "8BitDo Pro"));
    assert!(!looks_like_physical_keyboard("B: KEY=0", "Remote"));
    assert!(looks_like_physical_keyboard(KEYBOARD_BLOCK, "Generic"));
    let candidates = keyboard_device_candidates(&format!("{KEYBOARD_BLOCK}\n\n{PAD_BLOCK}"));
    assert_eq!(candidates, vec![("event3".to_string(), "Logitech USB Keyboard".to_string())]);
    assert_eq!(keyboard_device_path("event3"), "/dev/input/event3");
}

fn record(secs: u64, micros: u64, kind: u16, code: u16, value: i32) -> Vec<u8> {
    let mut r = Vec::new();
    r.extend_from_slice(&secs.to_le_bytes());
    r.extend_from_slice(&micros.to_le_bytes());
    r.extend_from_slice(&kind.to_le_bytes());
    r.extend_from_slice(&code.to_le_bytes());
    r.extend_from_slice(&value.to_le_bytes());
    r
}

#[test]
fn key_events_from_raw_records() {
    let mut pending = record(2, 5_000, 1, 30, 1);
    pending.extend(record(3, 0, 0, 0, 0));
    pending.extend(record(u64::MAX, 0, 1, 31, -1));
    pending.extend([9, 9, 9]);
    let mut events = Vec::new();
    decode_key_events(&mut pending, "event3", "Kbd", &mut events);
    assert_eq!(pending, vec![9, 9, 9]);
    assert_eq!(events.len(), 2);
    match &events[0] {
        RawKeyboardEvent::Key { device_node, key_code, value, timestamp, .. } => {
            assert_eq!(device_node, "event3");
            assert_eq!((*key_code, *value, *timestamp), (30, 1, 2005));
        }
        _ => panic!("expected a key event"),
    }
    match &events[1] {
        RawKeyboardEvent::Key { key_code, value, timestamp, .. } => {
            assert_eq!((*key_code, *value, *timestamp), (31, -1, u32::MAX));
        }
        _ => panic!("expected a key event"),
    }
}

#[test]
fn usb_proc_values() {
    assert_eq!(parse_proc_bus_value("  H:  event5 js0 ", "H").as_deref(), Some("event5 js0"));
    assert_eq!(parse_proc_bus_name(PAD_BLOCK).as_deref(), Some("Sony Interactive Entertainment Wireless Controller"));
    assert_eq!(parse_proc_bus_name("N: Plain"), None);
}

#[test]
fn usb_gamepads_found() {
    assert!(looks_like_usb_gamepad(PAD_BLOCK, "event5 js0"));
    assert!(looks_like_usb_gamepad("N: Name=\"GAMEPAD X\"", "event9"));
    assert!(!looks_like_usb_gamepad("N: Name=\"Gamepad Mouse\"", "event9 js1"));
    assert!(!looks_like_usb_gamepad("N: Name=\"Thing\"", "event9"));
    assert!(looks_like_usb_gamepad_lowered("n: name=\"8bitdo pro\"", "event9"));
    assert!(!looks_like_usb_gamepad_lowered("N: Name=\"GAMEPAD X\"", "event9"));
    assert!(looks_like_usb_gamepad_lowered("n: name=\"thing\"", "event9 js2"));
    let found = usb_gamepad_candidates(&format!("{KEYBOARD_BLOCK}\n\n{PAD_BLOCK}\n\nN: Name=\"Joy\"\nH: Handlers=js3"));
    assert_eq!(found.len(), 1);
    assert_eq!(found[0].event_node, "event5");
    assert_eq!(found[0].device_name, "Sony Interactive Entertainment Wireless Controller");
}

#[test]
fn usb_hub_names() {
    assert_eq!(usb_hub_location("1-1.3"), "1-1");
    assert_eq!(usb_hub_location("1-1.2.4"), "1-1.2");
    assert_eq!(usb_hub_location("1-1"), "1-1");
    assert_eq!(usb_hub_location(".3"), ".3");
    assert_eq!(usb_device_base_name("1-1.3:1.0").as_deref(), Some("1-1.3"));
    assert_eq!(usb_device_base_name("usb1"), None);
}

#[test]
fn fallback_hubs() {
    assert_eq!(fallback_hub_locations(None), vec!["1-1".to_string()]);
    assert_eq!(fallback_hub_locations(Some(" , ")), vec!["1-1".to_string()]);
    assert_eq!(fallback_hub_locations(Some("2-1, 3-1,")), vec!["2-1".to_string(), "3-1".to_string()]);
}

#[test]
fn hub_plan_cycles_each_hub_once() {
    let plan = plan_hub_cycles(
        &vec!["1-1".to_string(), "2-1".to_string(), "1-1".to_string()],
        &vec!["2-1".to_string(), "1-1.4".to_string(), "1-1.4".to_string()],
    );
    let hubs: Vec<(&str, Option<usize>)> = plan.iter().map(|c| (c.hub_location.as_str(), c.target)).collect();
    assert_eq!(hubs, vec![("1-1", None), ("2-1", None), ("1-1.4", Some(1))]);
}
