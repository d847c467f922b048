use openconsole::wifi::{
    active_ethernet_interface, connect_failure_details, connection_info_from, connectivity_action,
    current_connected_network, describe_connect_failure, iwctl_outcome, iwctl_timeout_message, iwd_service_state_from,
    iwd_wait_step, iwd_wait_timeout, known_network_names, parse_ip_addresses, parse_networks, read_status,
    refresh_network_status, sanitize_command_output, split_columns, wifi_interface, ConnectivityAction,
    IwdServiceState, NetInterface, WifiConnectionInfo, WifiNetwork, WifiProbe,
};

fn strings(v: &[&str]) -> Vec<String> {
    v.iter().map(|s| s.to_string()).collect()
}

#[test]
fn table_columns() {
    assert_eq!(split_columns("My Net   psk    ****"), strings(&["My Net", "psk", "****"]));
    assert_eq!(split_columns("  a \t b  "), strings(&["a", "b"]));
    assert_eq!(split_columns("one two"), strings(&["one two"]));
    assert!(split_columns("   ").is_empty());
}

#[test]
fn command_output_cleaning() {
    assert_eq!(sanitize_command_output("\u{1b}[1;90m  Home \u{1b}[0m\n"), "Home");
    assert_eq!(sanitize_command_output("a\u{1b}b"), "ab");
    assert_eq!(sanitize_command_output("\u{1b}[31"), "");
}

#[test]
fn connect_failure_messages() {
    assert!(describe_connect_failure("Home", "x", Some("SAE unsupported\nreason: 15")).starts_with("Home failed during authentication."));
    assert!(describe_connect_failure("Home", "CMD_EXTERNAL_AUTH for SAE", None).starts_with("Home advertised an SAE/WPA3"));
    assert_eq!(
        describe_connect_failure("Home", "Reason: 15", Some("")),
        "Home rejected the connection during authentication or key exchange. Verify the passphrase and access point security settings."
    );
    assert!(describe_connect_failure("Home", "Operation aborted", None).starts_with("Home connection was aborted"));
    assert_eq!(describe_connect_failure("Home", "Operation failed", Some("operation aborted")), "Operation failed");
    assert_eq!(connect_failure_details("", " out ", "fallback"), "out");
    assert_eq!(connect_failure_details("\u{1b}[0m", "", "fallback"), "fallback");
}

#[test]
fn iwd_states() {
    assert_eq!(iwd_service_state_from(Some("active\n")), IwdServiceState::Active);
    assert_eq!(iwd_service_state_from(Some("activating")), IwdServiceState::Activating);
    assert_eq!(iwd_service_state_from(Some("failed")), IwdServiceState::Failed);
    assert_eq!(iwd_service_state_from(Some("reloading")), IwdServiceState::Unknown);
    assert_eq!(iwd_service_state_from(None), IwdServiceState::Unknown);
    assert_eq!(iwd_wait_step(IwdServiceState::Active), Some(Ok(())));
    assert_eq!(iwd_wait_step(IwdServiceState::Inactive), Some(Err("Wi-Fi service is not running.".to_string())));
    assert_eq!(iwd_wait_step(IwdServiceState::Unknown), None);
    assert_eq!(iwd_wait_timeout(IwdServiceState::Activating), Err("Wi-Fi service is still starting. Try again in a moment.".to_string()));
}

#[test]
fn station_show_output() {
    let show = "  Station: wlan0\n  Connected network     Home Net\n  IPv4 address          192.168.1.5\n  Security              WPA2-Personal\n";
    assert_eq!(current_connected_network(show).as_deref(), Some("Home Net"));
    assert_eq!(current_connected_network("Connected network   \n"), None);
    let info = connection_info_from(show, strings(&["10.0.0.2/24"]), strings(&["fe80::1/64"]));
    assert_eq!(info.ssid.as_deref(), Some("Home Net"));
    assert_eq!(info.security.as_deref(), Some("WPA2-Personal"));
    assert_eq!(info.ipv4_addresses, strings(&["192.168.1.5"]));
    assert_eq!(info.ipv6_addresses, strings(&["fe80::1/64"]));
}

#[test]
fn ip_address_lines() {
    let out = "2: wlan0    inet 192.168.1.5/24 brd 192.168.1.255 scope global wlan0\n3: eth0 inet6 2001:db8::2/64 scope global\nbroken inet\n";
    assert_eq!(parse_ip_addresses(out), strings(&["192.168.1.5/24", "2001:db8::2/64"]));
}

#[test]
fn known_and_scanned_networks() {
    let known_out = "                Known networks\n---------------\n  Name        Security   Hidden\n---\n  Home Net    psk\n  Cafe        open\n";
    assert_eq!(known_network_names(known_out), strings(&["Home Net", "Cafe"]));
    assert!(known_network_names("Home Net psk").is_empty());
    let scan = "                Available networks\n------\n    Network name       Security   Signal\n------\n  > Home Net           psk        ****\n    Cafe               open       ***\n    Lab                8021x\n";
    let nets = parse_networks(scan, &strings(&["Cafe"]));
    assert_eq!(nets.len(), 3);
    assert_eq!(nets[0].ssid, "Home Net");
    assert!(nets[0].connected && nets[0].secured && !nets[0].known);
    assert_eq!(nets[0].signal, "****");
    assert!(!nets[1].secured && nets[1].known && !nets[1].connected);
    assert!(nets[2].secured);
    assert_eq!(nets[2].signal, "");
}

#[test]
fn refreshing_network_flags() {
    let mut nets = vec![
        WifiNetwork { ssid: "A".into(), secured: true, known: true, connected: true, signal: "".into() },
        WifiNetwork { ssid: "B".into(), secured: true, known: false, connected: false, signal: "".into() },
    ];
    refresh_network_status(&mut nets, Some("B"), &strings(&["B"]));
    assert!(!nets[0].connected && !nets[0].known);
    assert!(nets[1].connected && nets[1].known);
}

fn iface(name: &str, wireless: bool, carrier: Option<&str>, oper: Option<&str>) -> NetInterface {
    NetInterface { name: name.into(), wireless, carrier: carrier.map(|s| s.into()), operstate: oper.map(|s| s.into()) }
}

#[test]
fn interfaces() {
    let ifs = vec![
        iface("lo", false, Some("1"), Some("unknown")),
        iface("eth0", false, Some("0"), Some("down")),
        iface("wlan0", true, Some("1"), Some("up")),
        iface("eth1", false, Some("1"), Some("unknown")),
    ];
    assert_eq!(wifi_interface(&ifs).as_deref(), Some("wlan0"));
    assert_eq!(active_ethernet_interface(&ifs).as_deref(), Some("eth1"));
    assert_eq!(active_ethernet_interface(&ifs[..3].to_vec()), None);
}

#[test]
fn iwctl_results() {
    assert_eq!(iwctl_outcome(true, " ok ", "warn", "0"), Ok("ok".to_string()));
    assert_eq!(iwctl_outcome(false, "out", " err ", "1"), Err("iwctl failed: err".to_string()));
    assert_eq!(iwctl_outcome(false, "", "", "exit status: 1"), Err("iwctl failed with status exit status: 1".to_string()));
    assert_eq!(iwctl_timeout_message("", "", 8), "iwctl timed out after 8s: no additional output");
}

fn probe(state: IwdServiceState, ethernet: Option<&str>, ssid: Option<&str>) -> WifiProbe {
    WifiProbe {
        interface_name: Some("wlan0".into()),
        ethernet_interface: ethernet.map(|e| e.into()),
        ethernet_ipv4_addresses: Vec::new(),
        ethernet_ipv6_addresses: Vec::new(),
        iwd_state: state,
        connection: WifiConnectionInfo {
            ssid: ssid.map(|s| s.into()),
            security: Some("WPA2".into()),
            ipv4_addresses: strings(&["10.0.0.2/24"]),
            ipv6_addresses: Vec::new(),
        },
    }
}

#[test]
fn status_lines() {
    let off = read_status(false, Some("Home"), probe(IwdServiceState::Active, None, Some("Home")));
    assert_eq!((off.title.as_str(), off.detail.as_str()), ("Disabled", "Enable Wi-Fi to scan and connect to a network."));
    assert!(off.connected_ssid.is_none());
    let mut no_iface = probe(IwdServiceState::Active, None, None);
    no_iface.interface_name = None;
    assert_eq!(read_status(true, None, no_iface).title, "Unavailable");
    assert_eq!(read_status(true, None, probe(IwdServiceState::Failed, None, None)).title, "Failed");
    assert_eq!(read_status(true, None, probe(IwdServiceState::Inactive, None, None)).detail, "Wi-Fi service is not running.");
    let starting = read_status(true, Some("  Home "), probe(IwdServiceState::Activating, None, None));
    assert_eq!(starting.title, "Home");
    assert_eq!(starting.saved_ssid.as_deref(), Some("Home"));
    let wired = read_status(true, None, probe(IwdServiceState::Active, Some("eth0"), None));
    assert_eq!(wired.title, "Ethernet active");
    assert_eq!(wired.detail, "Ethernet is active on eth0. Wi-Fi is on standby.");
    let connected = read_status(true, None, probe(IwdServiceState::Active, None, Some("Home")));
    assert_eq!(connected.title, "Home");
    assert_eq!(connected.detail, "Connected over Wi-Fi. IPv4: 10.0.0.2/24. Security: WPA2.");
    let saved = read_status(true, Some("Cafe"), probe(IwdServiceState::Active, None, None));
    assert_eq!((saved.title.as_str(), saved.detail.as_str()), ("Cafe", "Trying saved Wi-Fi network when available."));
    let setup = read_status(true, Some("  "), probe(IwdServiceState::Active, None, None));
    assert_eq!(setup.title, "Setup needed");
}

#[test]
fn connectivity_decisions() {
    let known = strings(&["Home"]);
    assert!(matches!(connectivity_action(false, true, true, true, false, false, None, &known), ConnectivityAction::Disconnect));
    assert!(matches!(connectivity_action(false, false, true, true, false, false, None, &known), ConnectivityAction::Nothing));
    assert!(matches!(connectivity_action(true, true, false, true, false, false, Some("Home"), &known), ConnectivityAction::Nothing));
    assert!(matches!(connectivity_action(true, true, true, true, true, false, Some("Home"), &known), ConnectivityAction::Disconnect));
    match connectivity_action(true, true, true, true, false, false, Some(" Home "), &known) {
        ConnectivityAction::Connect(ssid) => assert_eq!(ssid, "Home"),
        other => panic!("unexpected {other:?}"),
    }
    assert!(matches!(connectivity_action(true, true, true, true, false, true, Some("Home"), &known), ConnectivityAction::Nothing));
    assert!(matches!(connectivity_action(true, true, true, true, false, false, Some("Other"), &known), ConnectivityAction::Nothing));
}
