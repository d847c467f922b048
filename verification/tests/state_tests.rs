use openconsole::audio::{
    asound_card_name, asoundrc_content, detect_preferred_audio_device, drm_port_connected, DrmConnector,
    DEFAULT_AUDIO_DEVICE,
};
use openconsole::game_state::GameState;
use openconsole::hotkey::HotkeyState;
use openconsole::ipc::{join_path_exec, supervisor_socket_path, SupervisorResponse, ROOT_SOCKET_PATH};
use openconsole::keyboard_input::{KEY_LEFTCTRL, KEY_RIGHTCTRL};
use openconsole::system_settings::{
    apply_system_settings, load_or_create_system_settings, settings_file_error, shell_command_error,
    system_settings_config_path, SystemSettings, DEFAULT_SYSTEM_SETTINGS_CONFIG_PATH,
};

fn strings(v: &[&str]) -> Vec<String> {
    v.iter().map(|s| s.to_string()).collect()
}

#[test]
fn toggle_favorite_twice_restores_favorites() {
    let mut state = GameState::new();
    state.favorite_game_ids = strings(&["a", "b"]);
    assert!(state.toggle_favorite("c"));
    assert_eq!(state.favorite_game_ids, strings(&["a", "b", "c"]));
    assert!(state.is_favorite("c"));
    assert!(!state.toggle_favorite("c"));
    assert_eq!(state.favorite_game_ids, strings(&["a", "b"]));
    assert!(!state.is_favorite("c"));
}

#[test]
fn toggle_favorite_removes_first_occurrence_only() {
    let mut state = GameState::new();
    state.favorite_game_ids = strings(&["x", "y", "x"]);
    assert!(!state.toggle_favorite("x"));
    assert_eq!(state.favorite_game_ids, strings(&["y", "x"]));
}

#[test]
fn record_recently_played_moves_game_first() {
    let mut state = GameState::new();
    state.recently_played_game_ids = strings(&["a", "b", "c"]);
    state.record_recently_played("b");
    assert_eq!(state.recently_played_game_ids, strings(&["b", "a", "c"]));
    state.record_recently_played("d");
    assert_eq!(state.recently_played_game_ids, strings(&["d", "b", "a", "c"]));
}

#[test]
fn record_recently_played_keeps_ten() {
    let mut state = GameState::new();
    for i in 0..12 {
        state.record_recently_played(&format!("g{i}"));
    }
    assert_eq!(state.recently_played_game_ids.len(), 10);
    assert_eq!(state.recently_played_game_ids[0], "g11");
    assert_eq!(state.recently_played_game_ids[9], "g2");
    state.record_recently_played("g5");
    assert_eq!(state.recently_played_game_ids.len(), 10);
    assert_eq!(state.recently_played_game_ids[0], "g5");
    assert_eq!(state.recently_played_game_ids.iter().filter(|g| *g == "g5").count(), 1);
}

#[test]
fn hotkey_fires_once_after_two_seconds() {
    let mut hotkey = HotkeyState::new();
    hotkey.on_key(KEY_LEFTCTRL, 1);
    assert!(!hotkey.poll(1000));
    hotkey.on_key(KEY_RIGHTCTRL, 1);
    assert!(!hotkey.poll(1000));
    assert!(!hotkey.poll(2999));
    assert!(hotkey.poll(3000));
    assert!(!hotkey.poll(5000));
    hotkey.on_key(KEY_RIGHTCTRL, 0);
    assert!(!hotkey.poll(5001));
    hotkey.on_key(KEY_RIGHTCTRL, 1);
    assert!(!hotkey.poll(6000));
    assert!(hotkey.poll(8000));
}

#[test]
fn hotkey_repeat_keeps_key_held() {
    let mut hotkey = HotkeyState::new();
    hotkey.on_key(KEY_LEFTCTRL, 1);
    hotkey.on_key(KEY_RIGHTCTRL, 1);
    hotkey.on_key(KEY_LEFTCTRL, 2);
    assert!(hotkey.left_ctrl_pressed);
    hotkey.on_key(30, 0);
    assert!(hotkey.left_ctrl_pressed && hotkey.right_ctrl_pressed);
}

fn connector(name: &str, status: Option<&str>) -> DrmConnector {
    DrmConnector { name: name.to_string(), status: status.map(|s| s.to_string()) }
}

#[test]
fn audio_prefers_second_hdmi_port() {
    let connectors = vec![
        connector("card1-HDMI-A-1", Some("connected\n")),
        connector("card1-HDMI-A-2", Some("connected\n")),
    ];
    assert_eq!(detect_preferred_audio_device(&connectors), "hdmi:CARD=vc4hdmi1,DEV=0");
    let only_first = vec![
        connector("card1-HDMI-A-1", Some(" connected ")),
        connector("card1-HDMI-A-2", Some("disconnected")),
    ];
    assert_eq!(detect_preferred_audio_device(&only_first), "hdmi:CARD=vc4hdmi0,DEV=0");
    assert!(drm_port_connected(&only_first, "HDMI-A-1"));
    assert!(!drm_port_connected(&only_first, "HDMI-A-2"));
}

#[test]
fn audio_defaults_without_connected_port() {
    let connectors = vec![connector("card1-HDMI-A-1", None), connector("card1-HDMI-A-2", Some("unknown"))];
    assert_eq!(detect_preferred_audio_device(&connectors), DEFAULT_AUDIO_DEVICE);
    assert_eq!(detect_preferred_audio_device(&Vec::new()), DEFAULT_AUDIO_DEVICE);
}

#[test]
fn asound_card_name_reads_card_field() {
    assert_eq!(asound_card_name("hdmi:CARD=vc4hdmi0,DEV=0"), "vc4hdmi0");
    assert_eq!(asound_card_name("hdmi:CARD=,DEV=0"), "vc4hdmi1");
    assert_eq!(asound_card_name("default"), "vc4hdmi1");
    assert_eq!(asound_card_name("hw:CARD=foo"), "foo");
}

#[test]
fn asoundrc_content_formats_config() {
    assert_eq!(
        asoundrc_content("hdmi:CARD=vc4hdmi0,DEV=0"),
        "pcm.!default {\n    type plug\n    slave.pcm \"hdmi:CARD=vc4hdmi0,DEV=0\"\n}\n\nctl.!default {\n    type hw\n    card vc4hdmi0\n}\n"
    );
}

#[test]
fn supervisor_responses() {
    let ok = SupervisorResponse::ok("done");
    assert!(ok.ok && ok.message == "done" && ok.captured_input.is_none());
    let input = SupervisorResponse::ok_with_input("captured", "JOY_BUTTON_0");
    assert!(input.ok && input.captured_input.as_deref() == Some("JOY_BUTTON_0"));
    let err = SupervisorResponse::err("bad");
    assert!(!err.ok && err.message == "bad");
}

#[test]
fn socket_path_choices() {
    assert_eq!(supervisor_socket_path(Some("/tmp/x.sock"), true, 0, "/tmp"), "/tmp/x.sock");
    assert_eq!(supervisor_socket_path(None, true, 0, "/tmp"), ROOT_SOCKET_PATH);
    assert_eq!(supervisor_socket_path(None, false, 1000, "/tmp"), "/tmp/openconsole-supervisor-1000.sock");
    assert_eq!(supervisor_socket_path(None, false, 7, "/var/tmp/"), "/var/tmp/openconsole-supervisor-7.sock");
    assert_eq!(join_path_exec("", "a"), "a");
    assert_eq!(join_path_exec("/run", "a"), "/run/a");
}

#[test]
fn system_settings_path_and_loading() {
    assert_eq!(system_settings_config_path(None), DEFAULT_SYSTEM_SETTINGS_CONFIG_PATH);
    assert_eq!(system_settings_config_path(Some("/x.json")), "/x.json");
    let (created, save) = load_or_create_system_settings(None);
    let created = created.unwrap();
    assert!(save && !created.wifi_enabled && !created.bluetooth_enabled && created.preferred_wifi_network.is_none());
    let stored = SystemSettings { wifi_enabled: true, bluetooth_enabled: false, preferred_wifi_network: Some("home".into()) };
    let (loaded, save) = load_or_create_system_settings(Some(Ok(stored)));
    assert!(!save);
    assert_eq!(loaded.unwrap().preferred_wifi_network.as_deref(), Some("home"));
    let (failed, save) = load_or_create_system_settings(Some(Err("parse".to_string())));
    assert!(!save);
    assert_eq!(failed.unwrap_err(), "parse");
}

#[test]
fn system_settings_commands() {
    let on = SystemSettings { wifi_enabled: true, bluetooth_enabled: true, preferred_wifi_network: None };
    let steps = apply_system_settings(&on);
    assert_eq!(steps.len(), 2);
    assert_eq!(steps[0].label, "wifi");
    assert_eq!(
        steps[0].command,
        "systemctl enable --now iwd.service || true; systemctl disable --now wpa_supplicant.service || true"
    );
    assert_eq!(steps[1].label, "bluetooth");
    assert_eq!(steps[1].command, "systemctl enable --now bluetooth.service || true; bluetoothctl power on || true");
    let off = SystemSettings::default();
    let steps = apply_system_settings(&off);
    assert_eq!(steps[1].command, "bluetoothctl power off || true; systemctl disable --now bluetooth.service || true");
    assert_eq!(shell_command_error("wifi", true, "exit status: 1"), "wifi command failed with status exit status: 1");
    assert_eq!(shell_command_error("wifi", false, "not found"), "failed to run wifi command: not found");
    assert_eq!(settings_file_error("read", "/x", "denied"), "failed to read system settings /x: denied");
}
