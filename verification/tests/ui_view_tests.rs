use openconsole::bluetooth::{BluetoothDeviceInfo, BluetoothScanReport};
use openconsole::ui_sections::{GameSelection, SectionRows};
use openconsole::ui_text::{
    bluetooth_device_row_labels, bluetooth_pairing_status, connectivity_texts, current_system_setting_max_index,
    format_bluetooth_devices, format_bluetooth_scan_debug, render_bluetooth_debug_text, set_bluetooth_debug_report,
    system_setting_after_update, visible_wifi_network_window, wifi_network_rows, wifi_network_status,
    BluetoothDebugState,
};
use openconsole::wifi::{WifiNetwork, WifiStatus};

fn rows(r: &[&[i32]], selected: &[i32], section: i32) -> SectionRows {
    SectionRows { rows: r.iter().map(|x| x.to_vec()).collect(), selected: selected.to_vec(), section }
}

#[test]
fn home_rows() {
    let mut home = rows(&[&[], &[5, 6]], &[0, 9], 0);
    assert_eq!(home.row_count(1), 2);
    assert_eq!(home.row_count(7), 0);
    assert_eq!(home.first_available(), Some(1));
    assert_eq!(home.sync_home(), GameSelection::Select(6));
    assert_eq!(home.section, 1);
    assert_eq!(home.selected, vec![0, 1]);
    assert_eq!(home.move_home_vertical(-1), (false, GameSelection::Keep));
    assert_eq!(home.move_horizontal(-1, true), (true, GameSelection::Select(5)));
    assert_eq!(home.move_horizontal(-1, true), (false, GameSelection::Keep));
    let mut both = rows(&[&[1], &[2]], &[0, 0], 0);
    assert_eq!(both.move_home_vertical(1), (true, GameSelection::Select(2)));
    assert_eq!(both.section, 1);
    let mut empty = rows(&[&[], &[]], &[3, 3], 1);
    assert_eq!(empty.normalize_home(), None);
    assert_eq!(empty.sync_home(), GameSelection::Keep);
    assert_eq!(empty.move_horizontal(1, true), (false, GameSelection::Keep));
}

#[test]
fn game_rows() {
    let mut games = rows(&[&[], &[3], &[0, 1, 2]], &[0, 0, 5], 0);
    assert_eq!(games.sync_games(), GameSelection::Select(3));
    assert_eq!(games.section, 1);
    assert_eq!(games.move_games_vertical(1), (true, GameSelection::Select(0)));
    assert_eq!(games.section, 2);
    assert_eq!(games.selected_index(2), 0);
    assert_eq!(games.move_horizontal(5, false), (true, GameSelection::Select(2)));
    assert_eq!(games.move_games_vertical(1), (false, GameSelection::Keep));
    assert_eq!(games.move_games_vertical(-1), (true, GameSelection::Select(3)));
    assert_eq!(games.move_games_vertical(-1), (false, GameSelection::Keep));
    let mut none = rows(&[&[], &[], &[]], &[0, 0, 0], 2);
    assert_eq!(none.sync_games(), GameSelection::Reset);
    assert_eq!(none.section, 0);
    assert_eq!(none.normalize_games(), 0);
}

fn bt(address: &str, name: &str, paired: bool, trusted: bool, connected: bool) -> BluetoothDeviceInfo {
    BluetoothDeviceInfo { address: address.into(), name: name.into(), paired, trusted, connected }
}

#[test]
fn bluetooth_texts() {
    assert_eq!(
        format_bluetooth_devices(&Vec::new(), 0),
        "No DualSense device found yet. Press Scan / Refresh to search again."
    );
    let devices = vec![bt("AA", "Pad", true, false, false), bt("BB", "Pad 2", false, false, false)];
    assert_eq!(format_bluetooth_devices(&devices, 1), "  [PAIRED] Device AA Pad\n> [NEW] Device BB Pad 2");
    assert_eq!(bluetooth_device_row_labels(&devices), vec!["AA".to_string(), "BB".to_string()]);
    assert_eq!(bluetooth_pairing_status(&devices, 0), "Pad is already paired. Press Continue to start button mapping.");
    assert_eq!(bluetooth_pairing_status(&devices, 9), "Pad 2 is ready. Press Continue to pair and start button mapping.");
    assert_eq!(
        bluetooth_pairing_status(&Vec::new(), 0),
        "No PS5 DualSense device found. Press Scan devices to search again."
    );
    let report = BluetoothScanReport {
        raw_output: "a\nbc".to_string(),
        all_devices: vec![bt("AA", "Pad", true, true, false), bt("CC", "Odd", true, false, true)],
        dualsense_devices: Vec::new(),
    };
    assert_eq!(
        format_bluetooth_scan_debug(&report, 0),
        "bluetoothctl raw output (4 bytes):\n  a\n  bc\n\nall bluetooth devices (2):\n> [PAIRED TRUSTED] Device AA Pad\n  [NEW] Device CC Odd\n\nDualSense devices (0):\n  No DualSense device found."
    );
}

#[test]
fn bluetooth_debug_viewer() {
    let mut state = BluetoothDebugState { lines: Vec::new(), offset: 3 };
    assert_eq!(render_bluetooth_debug_text(&state), "Bluetooth scan details will appear here.");
    let report: Vec<String> = (1..=12).map(|i| format!("l{i}")).collect();
    let first = set_bluetooth_debug_report(&mut state, &report.join("\n"));
    assert_eq!(state.offset, 0);
    assert_eq!(state.lines.len(), 12);
    assert!(first.starts_with("Showing lines 1-10 of 12\nl1\nl2"));
    state.offset = 50;
    let last = render_bluetooth_debug_text(&state);
    assert!(last.starts_with("Showing lines 3-12 of 12\nl3\n"));
    assert!(last.ends_with("l12"));
}

#[test]
fn wifi_window_and_rows() {
    assert_eq!(visible_wifi_network_window(20, 10), (6, 10));
    assert_eq!(visible_wifi_network_window(20, 19), (12, 19));
    assert_eq!(visible_wifi_network_window(3, 7), (0, 2));
    assert_eq!(visible_wifi_network_window(20, 2), (0, 2));
    let nets: Vec<WifiNetwork> = (0..10)
        .map(|i| WifiNetwork { ssid: format!("n{i}"), secured: i % 2 == 0, known: i == 9, connected: i == 8, signal: String::new() })
        .collect();
    let r = wifi_network_rows(&nets, 9);
    assert_eq!(r.window_start, 2);
    assert_eq!(r.visible_selected_index, 7);
    assert_eq!(r.names.len(), 8);
    assert_eq!(r.names[0], "n2");
    assert_eq!(r.states[6], 1);
    assert_eq!(r.states[7], 2);
    assert_eq!(r.states[0], 0);
    assert!(r.secured[0] && !r.secured[1]);
    assert!(wifi_network_rows(&Vec::new(), 3).names.is_empty());
    assert_eq!(wifi_network_status(&nets, 9), "Press Enter to remove the saved Wi-Fi configuration for n9.");
    assert_eq!(wifi_network_status(&nets, 0), "Press Enter to enter the Wi-Fi password for n0.");
    assert_eq!(wifi_network_status(&nets, 1), "Press Enter to connect to n1.");
    assert_eq!(wifi_network_status(&Vec::new(), 1), "");
}

fn status(ethernet: bool, v4: &[&str], v6: &[&str], saved: Option<&str>, connected: Option<&str>) -> WifiStatus {
    WifiStatus {
        interface_name: None,
        ethernet_interface: None,
        ethernet_active: ethernet,
        ethernet_ipv4_addresses: v4.iter().map(|s| s.to_string()).collect(),
        ethernet_ipv6_addresses: v6.iter().map(|s| s.to_string()).collect(),
        connected_ssid: connected.map(|s| s.to_string()),
        saved_ssid: saved.map(|s| s.to_string()),
        ipv4_addresses: Vec::new(),
        ipv6_addresses: Vec::new(),
        security: None,
        title: String::new(),
        detail: String::new(),
    }
}

#[test]
fn system_settings_texts() {
    let t = connectivity_texts(&status(true, &["10.0.0.2/24", "10.0.0.3/24"], &["fe80::1/64"], Some("Home"), None));
    assert_eq!(t.ethernet_title, "Connected");
    assert_eq!(t.ethernet_detail, "Network cable is connected. IPv4: 10.0.0.2/24, 10.0.0.3/24. IPv6: fe80::1/64.");
    assert_eq!(t.wifi_title, "Configured");
    assert_eq!(
        t.wifi_detail,
        "Inactive due to connected network cable. WiFi will become active when network cable disconnects."
    );
    let t = connectivity_texts(&status(false, &[], &[], Some("Home"), None));
    assert_eq!((t.ethernet_title.as_str(), t.ethernet_detail.as_str()), ("Disconnected", "No network cable is connected."));
    assert_eq!((t.wifi_title.as_str(), t.wifi_detail.as_str()), ("Disconnected", "Search and select your WiFi network"));
    let t = connectivity_texts(&status(false, &[], &[], None, Some("Home")));
    assert_eq!((t.wifi_title.as_str(), t.wifi_detail.as_str()), ("Connected", "Your wifi connection has been configured."));
    let t = connectivity_texts(&status(true, &[], &[], None, None));
    assert_eq!(t.ethernet_detail, "Network cable is connected.");
    assert_eq!(t.wifi_title, "Configure");
    assert_eq!(system_setting_after_update(false, 2), 1);
    assert_eq!(system_setting_after_update(true, 2), 2);
    assert_eq!(current_system_setting_max_index(true), 2);
    assert_eq!(current_system_setting_max_index(false), 1);
}
