use openconsole::bluetooth::{
    build_scan_report, classify_pairing_failure, connect_result, pair_result, pairing_output_says_success,
    parse_info_output, sanitize_bluetooth_line, sanitize_bluetooth_output, saved_dualsense_addresses,
    scan_device_entries, scan_script, unpair_result, BluetoothDeviceInfoDetails, BLUETOOTH_SCAN_DURATION_SECS,
};
use openconsole::controller::{ControllerProfile, ControllerStore};

#[test]
fn sanitizing_keeps_printable_ascii() {
    assert_eq!(sanitize_bluetooth_output("a\u{1b}[0;94mb\tc\r\n"), "a [0;94mb\tc\r\n");
    assert_eq!(sanitize_bluetooth_output("é"), " ");
    assert_eq!(sanitize_bluetooth_line("  \u{1}[NEW] Device  "), "[NEW] Device");
}

#[test]
fn info_output_fields() {
    let d = parse_info_output("Device AA\n\tAlias: Pad\n\tName: DualSense\n\tPaired: YES\n\tTrusted: no\n\tConnected: yes\n");
    assert_eq!(d.name.as_deref(), Some("DualSense"));
    assert!(d.paired && !d.trusted && d.connected);
    let alias_only = parse_info_output("Alias: Pad\nAlias: Other");
    assert_eq!(alias_only.name.as_deref(), Some("Pad"));
    let empty = parse_info_output("");
    assert!(empty.name.is_none() && !empty.paired && !empty.trusted && !empty.connected);
}

#[test]
fn pairing_success_lines() {
    assert!(pairing_output_says_success("foo\n  Pairing successful  \n"));
    assert!(pairing_output_says_success("BONDED: YES"));
    assert!(!pairing_output_says_success("Pairing successful now"));
    assert!(!pairing_output_says_success(""));
}

#[test]
fn pairing_failure_classes() {
    assert_eq!(
        classify_pairing_failure("Failed to register agent object"),
        "bluetoothctl could not register an agent in this session"
    );
    assert_eq!(classify_pairing_failure("[CHG] Authorize Service 0000"), "bluez requested service authorization");
    assert_eq!(classify_pairing_failure("Pairing FAILED"), "bluetoothctl reported pairing failed");
    assert_eq!(classify_pairing_failure("org.bluez.Error.Failed"), "bluez returned an org.bluez error");
    assert_eq!(classify_pairing_failure("nothing"), "pairing did not reach a confirmed paired state");
}

#[test]
fn scan_entries_and_report() {
    let raw = "[NEW] Device AA:BB Wireless Controller\nnoise\nDevice CC:DD\n[CHG] Device 11:22 Speaker\n";
    let entries = scan_device_entries(raw);
    assert_eq!(
        entries,
        vec![("AA:BB".to_string(), "Wireless Controller".to_string()), ("11:22".to_string(), "Speaker".to_string())]
    );
    let details = |name: Option<&str>, paired: bool| BluetoothDeviceInfoDetails {
        name: name.map(|n| n.to_string()),
        paired,
        trusted: false,
        connected: false,
    };
    let report = build_scan_report(
        raw,
        vec![
            ("CC:DD".to_string(), "Speaker".to_string(), details(None, false)),
            ("AA:BB".to_string(), "Pad".to_string(), details(Some("DualSense Wireless Controller"), true)),
            ("CC:DD".to_string(), "Speaker".to_string(), details(Some("Speaker 2"), false)),
        ],
    );
    assert_eq!(report.raw_output, raw);
    let names: Vec<&str> = report.all_devices.iter().map(|d| d.name.as_str()).collect();
    assert_eq!(names, vec!["DualSense Wireless Controller", "Speaker 2"]);
    assert_eq!(report.dualsense_devices.len(), 1);
    assert_eq!(report.dualsense_devices[0].address, "AA:BB");
    assert!(report.dualsense_devices[0].paired);
}

#[test]
fn pair_connect_unpair_results() {
    let ok = pair_result("AA", "Pairing successful\n").unwrap();
    assert_eq!(ok.name, "DualSense Wireless Controller");
    assert!(!ok.paired);
    let err = pair_result("AA", "Failed to pair: org.bluez.Error.AuthenticationFailed\n").unwrap_err();
    assert_eq!(
        err,
        "pairing verification failed for AA: bluez returned an org.bluez error\nbluetoothctl output:\nFailed to pair: org.bluez.Error.AuthenticationFailed\n"
    );
    let connected = connect_result("AA", "Name: Pad\nConnected: yes\n").unwrap();
    assert_eq!(connected.name, "Pad");
    assert!(connected.connected);
    assert_eq!(
        connect_result("AA", "x").unwrap_err(),
        "connection verification failed for AA: bluetoothctl did not report Connected: yes\nbluetoothctl output:\nx"
    );
    assert!(unpair_result("AA", "Device has been REMOVED").is_ok());
    assert_eq!(unpair_result("AA", "nope").unwrap_err(), "bluetoothctl remove did not report success for AA:\nnope");
}

#[test]
fn saved_dualsense_controllers() {
    let mut store = ControllerStore::new();
    for (template, address) in [("ps5-dualsense", Some("AA")), ("generic", Some("BB")), ("ps5-dualsense", None), ("ps5-dualsense", Some("CC"))] {
        store.controllers.push(ControllerProfile {
            id: "id".into(),
            name: "n".into(),
            template: template.into(),
            device_id: None,
            device_name: None,
            bluetooth_address: address.map(|a| a.to_string()),
            mappings: Vec::new(),
        });
    }
    assert_eq!(saved_dualsense_addresses(&store), vec!["AA".to_string(), "CC".to_string()]);
}

#[test]
fn scan_script_text() {
    assert_eq!(
        scan_script(BLUETOOTH_SCAN_DURATION_SECS),
        "{\n        printf 'scan on\\n'\n        sleep 12\n        printf 'devices\\n'\n        printf 'scan off\\n'\n    } | bluetoothctl 2>&1"
    );
}
