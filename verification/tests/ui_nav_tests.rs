use openconsole::controller_input::ControllerInputDeviceInfo;
use openconsole::controller_setup::ControllerSetupState;
use openconsole::input::{ConsoleAction, ConsoleInputEvent, ConsoleInputPhase, ConsoleInputSource};
use openconsole::ui_nav::{
    BluetoothView, ControllerView, DetailView, InputRoute, NavFocus, SettingsView, UiCommand, UiState, WifiView,
    route_console_input_event, SCREEN_GAMES, SCREEN_GAME_DETAIL, SCREEN_HOME, SCREEN_SETTINGS, SCREEN_SYSTEM,
    SCREEN_WIFI_NETWORKS, SCREEN_WIFI_PASSWORD,
};
use openconsole::ui_sections::SectionRows;
use openconsole::wifi_password::{new_wifi_password_editor, WifiPasswordCommand, ACTION_CONNECT, ACTION_KEYS, ACTION_MODE_LOWER};

fn state(screen: i32, focus_region: i32) -> UiState {
    UiState {
        nav: NavFocus { screen, focus_region, nav_selection: screen },
        detail: DetailView {
            selected_detail_control: 1,
            screenshot_popup_open: false,
            selected_screenshot_index: 0,
            screenshot_count: 2,
            game_launching: false,
            selected_game: 4,
            game_count: 5,
            launch_status: "busy".to_string(),
        },
        settings: SettingsView {
            selected_setting: 0,
            system_setting: 0,
            wifi_enabled: true,
            bluetooth_enabled: false,
            network_options_selected_index: 0,
            system_settings_status: "old".to_string(),
        },
        wifi: WifiView { network_selected_index: 3, password_action: ACTION_KEYS, password_status: String::new() },
        bluetooth: BluetoothView { pairing_intro: false, scan_running: false, device_action: 0, device_selected_index: 0, device_count: 0 },
        controllers: ControllerView {
            manage_action: 0,
            selected_index: 0,
            item_count: 0,
            type_selection: 0,
            device_selection: false,
            config_complete: false,
            final_selection: 0,
            manager_status: String::new(),
            add_status: String::new(),
        },
        home: SectionRows { rows: vec![vec![7], vec![8, 9]], selected: vec![0, 0], section: 0 },
        games: SectionRows { rows: vec![vec![], vec![1], vec![0, 1, 2]], selected: vec![0, 0, 0], section: 1 },
    }
}

#[test]
fn navigation_bar_moves_between_screens() {
    let mut editor = new_wifi_password_editor();
    let mut ui = state(SCREEN_GAMES, 0);
    assert!(ui.handle_console_action(&mut editor, ConsoleAction::Up).is_empty());
    assert_eq!((ui.nav.screen, ui.nav.nav_selection), (SCREEN_HOME, 0));
    assert!(ui.handle_console_action(&mut editor, ConsoleAction::Accept).is_empty());
    assert_eq!(ui.nav.focus_region, 1);
    assert!(ui.handle_console_action(&mut editor, ConsoleAction::Select).is_empty());
    assert_eq!(ui.nav.focus_region, 1);
}

#[test]
fn home_rows_and_opening_a_game() {
    let mut editor = new_wifi_password_editor();
    let mut ui = state(SCREEN_HOME, 1);
    assert_eq!(ui.handle_console_action(&mut editor, ConsoleAction::Down), vec![UiCommand::ShowGame(8)]);
    assert_eq!(ui.home.section, 1);
    assert_eq!(ui.handle_console_action(&mut editor, ConsoleAction::Right), vec![UiCommand::ShowGame(9)]);
    assert_eq!(ui.handle_console_action(&mut editor, ConsoleAction::Accept), vec![UiCommand::ShowGame(9)]);
    assert_eq!(ui.nav.screen, SCREEN_GAME_DETAIL);
    assert_eq!(ui.detail.selected_detail_control, 1);
}

#[test]
fn game_detail_controls() {
    let mut editor = new_wifi_password_editor();
    let mut ui = state(SCREEN_GAME_DETAIL, 1);
    assert_eq!(ui.handle_console_action(&mut editor, ConsoleAction::Accept), vec![UiCommand::LaunchGame(4)]);
    ui.detail.selected_detail_control = 3;
    ui.detail.selected_screenshot_index = 9;
    assert!(ui.handle_console_action(&mut editor, ConsoleAction::Accept).is_empty());
    assert!(ui.detail.screenshot_popup_open);
    assert_eq!(ui.detail.selected_screenshot_index, 1);
    assert!(ui.handle_console_action(&mut editor, ConsoleAction::Cancel).is_empty());
    assert!(!ui.detail.screenshot_popup_open);
    assert!(ui.handle_console_action(&mut editor, ConsoleAction::Up).is_empty());
    assert_eq!(ui.detail.selected_detail_control, 1);
    assert!(ui.handle_console_action(&mut editor, ConsoleAction::Cancel).is_empty());
    assert_eq!((ui.nav.screen, ui.nav.focus_region), (SCREEN_GAMES, 1));
    assert_eq!(ui.detail.launch_status, "");
}

#[test]
fn settings_and_system_screens() {
    let mut editor = new_wifi_password_editor();
    let mut ui = state(SCREEN_SETTINGS, 1);
    assert!(ui.handle_console_action(&mut editor, ConsoleAction::Accept).is_empty());
    assert_eq!(ui.nav.screen, SCREEN_SYSTEM);
    assert_eq!(ui.settings.system_settings_status, "");
    assert!(ui.handle_console_action(&mut editor, ConsoleAction::Cancel).is_empty());
    assert_eq!((ui.nav.screen, ui.settings.selected_setting), (SCREEN_SETTINGS, 0));
    ui.settings.selected_setting = 2;
    assert_eq!(ui.handle_console_action(&mut editor, ConsoleAction::Accept), vec![UiCommand::RefreshControllers]);
}

#[test]
fn wifi_screens() {
    let mut editor = new_wifi_password_editor();
    let mut ui = state(SCREEN_WIFI_NETWORKS, 1);
    assert_eq!(ui.handle_console_action(&mut editor, ConsoleAction::Up), vec![UiCommand::SelectWifiNetwork(2)]);
    assert_eq!(ui.handle_console_action(&mut editor, ConsoleAction::Cancel), vec![UiCommand::CancelWifiSetup]);
    let mut pw = state(SCREEN_WIFI_PASSWORD, 1);
    pw.wifi.password_action = ACTION_CONNECT;
    assert!(pw.handle_console_action(&mut editor, ConsoleAction::Up).is_empty());
    assert_eq!(pw.wifi.password_action, ACTION_MODE_LOWER);
    assert_eq!(
        pw.handle_console_action(&mut editor, ConsoleAction::Accept),
        vec![UiCommand::WifiPassword(WifiPasswordCommand::SelectMode(0))]
    );
    editor.password = "abc".to_string();
    editor.ssid = "Home".to_string();
    assert_eq!(pw.handle_console_action(&mut editor, ConsoleAction::Cancel), vec![UiCommand::CancelWifiSetup]);
    assert_eq!((editor.password.as_str(), editor.ssid.as_str()), ("", ""));
    assert_eq!(pw.wifi.password_status, "Wi-Fi password cleared.");
    assert_eq!(pw.wifi.password_action, ACTION_KEYS);
}

fn controller_event(phase: ConsoleInputPhase, device: &str, token: &str, action: Option<ConsoleAction>) -> ConsoleInputEvent {
    ConsoleInputEvent {
        phase,
        source: ConsoleInputSource::Controller { instance_id: 1, device_id: device.into(), controller_name: "Pad".into() },
        action,
        token: token.into(),
        pressed: phase == ConsoleInputPhase::Pressed,
        timestamp: 0,
        controller_name: "Pad".into(),
    }
}

#[test]
fn input_events_are_routed() {
    let mut setup: Option<ControllerSetupState> = None;
    match route_console_input_event(SCREEN_HOME, &controller_event(ConsoleInputPhase::Connected, "d", "", None), &mut setup) {
        InputRoute::ControllerStatus(m) => assert_eq!(m, "Controller connected: Pad"),
        other => panic!("unexpected {other:?}"),
    }
    assert!(matches!(
        route_console_input_event(SCREEN_HOME, &controller_event(ConsoleInputPhase::Released, "d", "X", Some(ConsoleAction::Up)), &mut setup),
        InputRoute::Ignore
    ));
    assert!(matches!(
        route_console_input_event(SCREEN_HOME, &controller_event(ConsoleInputPhase::Pressed, "d", "X", Some(ConsoleAction::Up)), &mut setup),
        InputRoute::Action(ConsoleAction::Up)
    ));
    assert!(matches!(
        route_console_input_event(SCREEN_WIFI_PASSWORD, &controller_event(ConsoleInputPhase::Pressed, "d", "SDL_CONTROLLER_BUTTON_B", None), &mut setup),
        InputRoute::Action(ConsoleAction::Cancel)
    ));
    let device = ControllerInputDeviceInfo { event_node: "sdl:0".into(), name: "Pad".into(), unique_id: "d".into(), physical_path: String::new() };
    let mut s = ControllerSetupState::new(0, vec![device]);
    s.confirm_selected_device();
    let mut setup = Some(s);
    match route_console_input_event(6, &controller_event(ConsoleInputPhase::Pressed, "d", "JS_BTN_1", None), &mut setup) {
        InputRoute::Mapping { finished, progress, display, play_rotation } => {
            assert!(!finished && !play_rotation);
            assert_eq!(progress, 10);
            assert_eq!(display, "JS_BTN_1 (1/10)");
        }
        other => panic!("unexpected {other:?}"),
    }
    assert!(!matches!(
        route_console_input_event(6, &controller_event(ConsoleInputPhase::Pressed, "other", "JS_BTN_1", None), &mut setup),
        InputRoute::Mapping { .. }
    ));
    for _ in 0..8 {
        route_console_input_event(6, &controller_event(ConsoleInputPhase::Pressed, "d", "JS_BTN_1", None), &mut setup);
    }
    match route_console_input_event(6, &controller_event(ConsoleInputPhase::Pressed, "d", "JS_BTN_1", None), &mut setup) {
        InputRoute::Mapping { display, progress, .. } => {
            assert_eq!(display, "Mapped JS_BTN_1 (10/10)");
            assert_eq!(progress, 0);
        }
        other => panic!("unexpected {other:?}"),
    }
}
