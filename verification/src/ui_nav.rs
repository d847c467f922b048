use vstd::prelude::*;
use vstd::string::*;

use crate::controller_setup::{uses_all_devices_spec, ControllerSetupPhase, ControllerSetupState, SetupView};
use crate::input::{ConsoleAction, ConsoleInputEvent, ConsoleInputPhase, ConsoleInputSource};
use crate::text::{decimal, owned, push_decimal, push_str};
use crate::ui_sections::{
    games_vertical_post, home_vertical_post, horizontal_post, sync_games_post, sync_home_post, GameSelection, SectionRows,
};
use crate::wifi_password::{
    cancel_token, clear_wifi_password_editor, confirm_spec, is_wifi_password_controller_cancel_token, is_reset, navigate_post, wifi_password_confirm_command, wifi_password_navigate,
    WifiPasswordCommand, WifiPasswordEditorState, ACTION_KEYS,
};

verus! {

broadcast use vstd::string::group_string_axioms;

/// The home screen.
pub const SCREEN_HOME: i32 = 0;
/// The games screen.
pub const SCREEN_GAMES: i32 = 1;
/// The settings screen.
pub const SCREEN_SETTINGS: i32 = 2;
/// The screen of one game.
pub const SCREEN_GAME_DETAIL: i32 = 3;
/// The controller list.
pub const SCREEN_CONTROLLERS: i32 = 4;
/// The choice of the kind of controller to add.
pub const SCREEN_ADD_CONTROLLER: i32 = 5;
/// The mapping of a controller's buttons.
pub const SCREEN_CONTROLLER_SETUP: i32 = 6;
/// The system settings.
pub const SCREEN_SYSTEM: i32 = 7;
/// Bluetooth pairing.
pub const SCREEN_BLUETOOTH: i32 = 8;
/// The Wi-Fi network list.
pub const SCREEN_WIFI_NETWORKS: i32 = 9;
/// The Wi-Fi password editor.
pub const SCREEN_WIFI_PASSWORD: i32 = 10;
/// The about screen.
pub const SCREEN_ABOUT: i32 = 11;
/// The network options.
pub const SCREEN_NETWORK_OPTIONS: i32 = 12;

/// The pairing screen's main button has the focus.
pub const BLUETOOTH_ACTION_PRIMARY_BUTTON: i32 = 0;
/// The pairing screen's device list has the focus.
pub const BLUETOOTH_ACTION_DEVICE_LIST: i32 = 1;

/// Which screen shows and where the focus is.
#[derive(Debug, Clone, Copy, PartialEq, Eq)]
pub struct NavFocus {
    pub screen: i32,
    /// 0: the navigation bar; 1: the screen's content.
    pub focus_region: i32,
    pub nav_selection: i32,
}

/// The screen of one game.
#[derive(Debug, Clone)]
pub struct DetailView {
    pub selected_detail_control: i32,
    pub screenshot_popup_open: bool,
    pub selected_screenshot_index: i32,
    pub screenshot_count: i32,
    pub game_launching: bool,
    pub selected_game: i32,
    pub game_count: i32,
    pub launch_status: String,
}

/// The settings screens.
#[derive(Debug, Clone)]
pub struct SettingsView {
    pub selected_setting: i32,
    pub system_setting: i32,
    pub wifi_enabled: bool,
    pub bluetooth_enabled: bool,
    pub network_options_selected_index: i32,
    pub system_settings_status: String,
}

/// The Wi-Fi screens.
#[derive(Debug, Clone)]
pub struct WifiView {
    pub network_selected_index: i32,
    pub password_action: i32,
    pub password_status: String,
}

/// The Bluetooth pairing screen.
#[derive(Debug, Clone, Copy, PartialEq, Eq)]
pub struct BluetoothView {
    pub pairing_intro: bool,
    pub scan_running: bool,
    pub device_action: i32,
    pub device_selected_index: i32,
    pub device_count: i32,
}

/// The controller screens.
#[derive(Debug, Clone)]
pub struct ControllerView {
    pub manage_action: i32,
    pub selected_index: i32,
    pub item_count: i32,
    pub type_selection: i32,
    pub device_selection: bool,
    pub config_complete: bool,
    pub final_selection: i32,
    pub manager_status: String,
    pub add_status: String,
}

/// What the console's screens show and where the focus is.
#[derive(Debug, Clone)]
pub struct UiState {
    pub nav: NavFocus,
    pub detail: DetailView,
    pub settings: SettingsView,
    pub wifi: WifiView,
    pub bluetooth: BluetoothView,
    pub controllers: ControllerView,
    pub home: SectionRows,
    pub games: SectionRows,
}

/// Work a console action hands to the rest of the UI.
#[derive(Debug, Clone, PartialEq, Eq)]
pub enum UiCommand {
    ShowGame(i32),
    ShowFirstGame,
    SelectBluetoothDevice(i32),
    SelectWifiNetwork(i32),
    ControllerDeviceSelectPrev,
    ControllerDeviceSelectNext,
    ControllerSelectPrev,
    ControllerSelectNext,
    ToggleWifi,
    OpenWifiSetup,
    ToggleBluetooth,
    ActivateWifiNetwork,
    WifiPassword(WifiPasswordCommand),
    RemoveSelectedController,
    StartControllerSetup(i32),
    BeginBluetoothPairing,
    ScanBluetoothDevices,
    PairOrContinueBluetoothDevice,
    ActivateControllerDeviceSelection,
    ActivateControllerFinalSelection,
    LaunchGame(i32),
    ToggleGameFavorite,
    RefreshControllers,
    RestartSystem,
    CancelWifiSetup,
    CancelBluetoothPairing,
    CancelControllerSetup,
    WifiPasswordCancel,
}

/// The commands that show the game a navigation step picked.
pub open spec fn selection_commands(g: GameSelection) -> Seq<UiCommand> {
    match g {
        GameSelection::Select(i) => seq![UiCommand::ShowGame(i)],
        GameSelection::Reset => seq![UiCommand::ShowFirstGame],
        GameSelection::Keep => seq![],
    }
}

fn selection_commands_exec(g: GameSelection) -> (r: Vec<UiCommand>)
    ensures
        r@ == selection_commands(g),
{
    let mut r: Vec<UiCommand> = Vec::new();
    match g {
        GameSelection::Select(i) => r.push(UiCommand::ShowGame(i)),
        GameSelection::Reset => r.push(UiCommand::ShowFirstGame),
        GameSelection::Keep => {},
    }
    proof {
        assert(r@ =~= selection_commands(g));
    }
    r
}

fn one(c: UiCommand) -> (r: Vec<UiCommand>)
    ensures
        r@ == seq![c],
{
    let mut r: Vec<UiCommand> = Vec::new();
    r.push(c);
    proof {
        assert(r@ =~= seq![c]);
    }
    r
}

fn none() -> (r: Vec<UiCommand>)
    ensures
        r@ == Seq::<UiCommand>::empty(),
{
    let r: Vec<UiCommand> = Vec::new();
    proof {
        assert(r@ =~= Seq::<UiCommand>::empty());
    }
    r
}

impl UiState {
    /// The rows have the shape of the screens: two home rows, three games
    /// rows.
    pub open spec fn wf(&self) -> bool {
        &&& self.home.wf()
        &&& self.home.rows@.len() == 2
        &&& self.games.wf()
        &&& self.games.rows@.len() == 3
    }
}

/// `Up`: on a game's screen it moves from the screenshots to the controls
/// and from the controls to the navigation bar; in the network options to
/// the first option; on the home and games rows to the row above (leaving
/// for the bar at the top); on the bar to the previous screen; in lists to
/// the previous entry; elsewhere the focus goes to the bar.
pub open spec fn up_post(o: UiState, oe: WifiPasswordEditorState, n: UiState, ne: WifiPasswordEditorState, c: Seq<UiCommand>) -> bool {
    let s = o.nav.screen;
    let f = o.nav.focus_region;
    if s == 3 && o.detail.screenshot_popup_open {
        n == o && ne == oe && c == Seq::<UiCommand>::empty()
    } else if s == 3 && f == 1 {
        &&& ne == oe && c == Seq::<UiCommand>::empty()
        &&& if o.detail.selected_detail_control == 3 {
            n == UiState { detail: DetailView { selected_detail_control: 1, ..o.detail }, ..o }
        } else if o.detail.selected_detail_control == 1 || o.detail.selected_detail_control == 2 {
            n == UiState { nav: NavFocus { nav_selection: 1, focus_region: 0, ..o.nav }, ..o }
        } else {
            n == o
        }
    } else if s == 12 && f == 1 {
        &&& ne == oe && c == Seq::<UiCommand>::empty()
        &&& n == if o.settings.network_options_selected_index > 0 {
            UiState { settings: SettingsView { network_options_selected_index: 0, ..o.settings }, ..o }
        } else {
            o
        }
    } else if s == 1 && f == 1 {
        exists|r: (bool, GameSelection)| {
            &&& games_vertical_post(o.games, n.games, -1, r)
            &&& n == UiState { games: n.games, nav: NavFocus { focus_region: if r.0 { 1i32 } else { 0i32 }, ..o.nav }, ..o }
            &&& ne == oe && c == selection_commands(r.1)
        }
    } else if s == 0 && f == 1 {
        exists|r: (bool, GameSelection)| {
            &&& home_vertical_post(o.home, n.home, -1, r)
            &&& n == UiState { home: n.home, nav: NavFocus { focus_region: if r.0 { 1i32 } else { 0i32 }, ..o.nav }, ..o }
            &&& ne == oe && c == selection_commands(r.1)
        }
    } else if f == 0 && o.nav.nav_selection > 0 {
        &&& n == UiState { nav: NavFocus { nav_selection: (o.nav.nav_selection - 1) as i32, screen: (o.nav.nav_selection - 1) as i32, ..o.nav }, ..o }
        &&& ne == oe && c == Seq::<UiCommand>::empty()
    } else if s == 8 {
        &&& ne == oe
        &&& if !o.bluetooth.pairing_intro && !o.bluetooth.scan_running && o.bluetooth.device_action == BLUETOOTH_ACTION_DEVICE_LIST
            && o.bluetooth.device_selected_index > 0 {
            n == o && c == seq![UiCommand::SelectBluetoothDevice((o.bluetooth.device_selected_index - 1) as i32)]
        } else {
            n == UiState { bluetooth: BluetoothView { device_action: BLUETOOTH_ACTION_PRIMARY_BUTTON, ..o.bluetooth }, ..o }
                && c == Seq::<UiCommand>::empty()
        }
    } else if s == 9 {
        &&& n == o && ne == oe
        &&& c == if o.wifi.network_selected_index > 0 {
            seq![UiCommand::SelectWifiNetwork((o.wifi.network_selected_index - 1) as i32)]
        } else {
            Seq::<UiCommand>::empty()
        }
    } else if s == 10 {
        &&& navigate_post(oe, o.wifi.password_action, ConsoleAction::Up, ne, n.wifi.password_action)
        &&& n == UiState { wifi: WifiView { password_action: n.wifi.password_action, ..o.wifi }, ..o }
        &&& c == Seq::<UiCommand>::empty()
    } else if s == 2 && f == 1 && o.settings.selected_setting > 0 {
        &&& n == UiState { settings: SettingsView { selected_setting: (o.settings.selected_setting - 1) as i32, ..o.settings }, ..o }
        &&& ne == oe && c == Seq::<UiCommand>::empty()
    } else if s == 7 && f == 1 && o.settings.system_setting > 0 {
        &&& n == UiState { settings: SettingsView { system_setting: (o.settings.system_setting - 1) as i32, ..o.settings }, ..o }
        &&& ne == oe && c == Seq::<UiCommand>::empty()
    } else if s == 6 && o.controllers.device_selection {
        n == o && ne == oe && c == seq![UiCommand::ControllerDeviceSelectPrev]
    } else if s == 4 && f == 1 {
        &&& ne == oe
        &&& if o.controllers.manage_action == 1 {
            n == UiState { controllers: ControllerView { manage_action: 0, ..o.controllers }, ..o } && c == Seq::<UiCommand>::empty()
        } else if o.controllers.selected_index > 0 {
            n == o && c == seq![UiCommand::ControllerSelectPrev]
        } else {
            n == o && c == Seq::<UiCommand>::empty()
        }
    } else {
        &&& ne == oe && c == Seq::<UiCommand>::empty()
        &&& n == if f == 1 { UiState { nav: NavFocus { focus_region: 0, ..o.nav }, ..o } } else { o }
    }
}

impl UiState {
    /// Handles `Up`.
    pub fn on_up(&mut self, editor: &mut WifiPasswordEditorState) -> (c: Vec<UiCommand>)
        requires
            old(self).wf(),
        ensures
            final(self).wf(),
            up_post(*old(self), *old(editor), *final(self), *final(editor), c@),
    {
        let s = self.nav.screen;
        let f = self.nav.focus_region;
        if s == 3 && self.detail.screenshot_popup_open {
            return none();
        }
        if s == 3 && f == 1 {
            if self.detail.selected_detail_control == 3 {
                self.detail.selected_detail_control = 1;
            } else if self.detail.selected_detail_control == 1 || self.detail.selected_detail_control == 2 {
                self.nav.nav_selection = 1;
                self.nav.focus_region = 0;
            }
            return none();
        }
        if s == 12 && f == 1 {
            if self.settings.network_options_selected_index > 0 {
                self.settings.network_options_selected_index = 0;
            }
            return none();
        }
        if s == 1 && f == 1 {
            let r = self.games.move_games_vertical(-1);
            if !r.0 {
                self.nav.focus_region = 0;
            }
            return selection_commands_exec(r.1);
        }
        if s == 0 && f == 1 {
            let r = self.home.move_home_vertical(-1);
            if !r.0 {
                self.nav.focus_region = 0;
            }
            return selection_commands_exec(r.1);
        }
        if f == 0 && self.nav.nav_selection > 0 {
            self.nav.nav_selection = self.nav.nav_selection - 1;
            self.nav.screen = self.nav.nav_selection;
            return none();
        }
        if s == 8 {
            if !self.bluetooth.pairing_intro && !self.bluetooth.scan_running
                && self.bluetooth.device_action == BLUETOOTH_ACTION_DEVICE_LIST && self.bluetooth.device_selected_index > 0 {
                return one(UiCommand::SelectBluetoothDevice(self.bluetooth.device_selected_index - 1));
            }
            self.bluetooth.device_action = BLUETOOTH_ACTION_PRIMARY_BUTTON;
            return none();
        }
        if s == 9 {
            if self.wifi.network_selected_index > 0 {
                return one(UiCommand::SelectWifiNetwork(self.wifi.network_selected_index - 1));
            }
            return none();
        }
        if s == 10 {
            self.wifi.password_action = wifi_password_navigate(editor, self.wifi.password_action, ConsoleAction::Up);
            return none();
        }
        if s == 2 && f == 1 && self.settings.selected_setting > 0 {
            self.settings.selected_setting = self.settings.selected_setting - 1;
            return none();
        }
        if s == 7 && f == 1 && self.settings.system_setting > 0 {
            self.settings.system_setting = self.settings.system_setting - 1;
            return none();
        }
        if s == 6 && self.controllers.device_selection {
            return one(UiCommand::ControllerDeviceSelectPrev);
        }
        if s == 4 && f == 1 {
            if self.controllers.manage_action == 1 {
                self.controllers.manage_action = 0;
                return none();
            } else if self.controllers.selected_index > 0 {
                return one(UiCommand::ControllerSelectPrev);
            }
            return none();
        }
        if f == 1 {
            self.nav.focus_region = 0;
        }
        none()
    }
}

/// The last system setting row: the Bluetooth row is third while Wi-Fi is
/// on.
pub open spec fn max_system_setting(settings: SettingsView) -> i32 {
    if settings.wifi_enabled { 2 } else { 1 }
}

/// The first row of `rows` with games, else the first row.
pub open spec fn first_or_zero(rows: SectionRows) -> int {
    match rows.first_nonempty() {
        Some(x) => x,
        None => 0,
    }
}

/// `Down`: the mirror of `Up`, and from the navigation bar into the screen
/// (on the first row that has games).
pub open spec fn down_post(o: UiState, oe: WifiPasswordEditorState, n: UiState, ne: WifiPasswordEditorState, c: Seq<UiCommand>) -> bool {
    let s = o.nav.screen;
    let f = o.nav.focus_region;
    if s == 3 && o.detail.screenshot_popup_open {
        n == o && ne == oe && c == Seq::<UiCommand>::empty()
    } else if s == 3 && f == 1 {
        &&& ne == oe && c == Seq::<UiCommand>::empty()
        &&& if o.detail.selected_detail_control == 0 {
            n == UiState { detail: DetailView { selected_detail_control: 1, ..o.detail }, ..o }
        } else if o.detail.selected_detail_control == 1 || o.detail.selected_detail_control == 2 {
            n == UiState { detail: DetailView { selected_detail_control: 3, selected_screenshot_index: 0, ..o.detail }, ..o }
        } else {
            n == o
        }
    } else if s == 4 && f == 1 {
        &&& ne == oe && c == seq![UiCommand::ControllerSelectNext]
        &&& n == if o.controllers.manage_action == 1 {
            UiState { controllers: ControllerView { manage_action: 0, ..o.controllers }, ..o }
        } else {
            o
        }
    } else if s == 12 && f == 1 {
        &&& ne == oe && c == Seq::<UiCommand>::empty()
        &&& n == if o.settings.network_options_selected_index < 1 {
            UiState { settings: SettingsView { network_options_selected_index: 1, ..o.settings }, ..o }
        } else {
            o
        }
    } else if s == 1 && f == 0 {
        exists|r: GameSelection| {
            &&& sync_games_post(SectionRows { section: first_or_zero(o.games) as i32, ..o.games }, n.games, r)
            &&& n == UiState { games: n.games, nav: NavFocus { focus_region: 1, ..o.nav }, ..o }
            &&& ne == oe && c == selection_commands(r)
        }
    } else if s == 0 && f == 0 {
        match o.home.first_nonempty() {
            None => n == o && ne == oe && c == Seq::<UiCommand>::empty(),
            Some(sec) => exists|r: GameSelection| {
                &&& sync_home_post(SectionRows { section: sec as i32, ..o.home }, n.home, r)
                &&& n == UiState { home: n.home, nav: NavFocus { focus_region: 1, ..o.nav }, ..o }
                &&& ne == oe && c == selection_commands(r)
            },
        }
    } else if s == 3 && f == 0 {
        &&& ne == oe && c == Seq::<UiCommand>::empty()
        &&& n == if o.nav.nav_selection == 1 {
            UiState { nav: NavFocus { focus_region: 1, ..o.nav }, detail: DetailView { selected_detail_control: 1, ..o.detail }, ..o }
        } else {
            UiState { nav: NavFocus { focus_region: 1, ..o.nav }, ..o }
        }
    } else if s == 0 && f == 1 {
        exists|r: (bool, GameSelection)| {
            &&& home_vertical_post(o.home, n.home, 1, r)
            &&& n == UiState { home: n.home, ..o }
            &&& ne == oe && c == selection_commands(r.1)
        }
    } else if s == 1 && f == 1 {
        exists|r: (bool, GameSelection)| {
            &&& games_vertical_post(o.games, n.games, 1, r)
            &&& n == UiState { games: n.games, ..o }
            &&& ne == oe && c == selection_commands(r.1)
        }
    } else if s == 9 {
        n == o && ne == oe && c == seq![UiCommand::SelectWifiNetwork((o.wifi.network_selected_index + 1) as i32)]
    } else if s == 10 {
        &&& navigate_post(oe, o.wifi.password_action, ConsoleAction::Down, ne, n.wifi.password_action)
        &&& n == UiState { wifi: WifiView { password_action: n.wifi.password_action, ..o.wifi }, ..o }
        &&& c == Seq::<UiCommand>::empty()
    } else if f == 0 {
        n == UiState { nav: NavFocus { focus_region: 1, ..o.nav }, ..o } && ne == oe && c == Seq::<UiCommand>::empty()
    } else if s == 2 && o.settings.selected_setting < 4 {
        &&& n == UiState { settings: SettingsView { selected_setting: (o.settings.selected_setting + 1) as i32, ..o.settings }, ..o }
        &&& ne == oe && c == Seq::<UiCommand>::empty()
    } else if s == 7 && f == 1 && o.settings.system_setting < max_system_setting(o.settings) {
        &&& n == UiState { settings: SettingsView { system_setting: (o.settings.system_setting + 1) as i32, ..o.settings }, ..o }
        &&& ne == oe && c == Seq::<UiCommand>::empty()
    } else if s == 6 && o.controllers.device_selection {
        n == o && ne == oe && c == seq![UiCommand::ControllerDeviceSelectNext]
    } else {
        n == o && ne == oe && c == Seq::<UiCommand>::empty()
    }
}

impl UiState {
    /// Handles `Down`.
    pub fn on_down(&mut self, editor: &mut WifiPasswordEditorState) -> (c: Vec<UiCommand>)
        requires
            old(self).wf(),
            old(self).nav.screen == 9 ==> old(self).wifi.network_selected_index < i32::MAX,
        ensures
            final(self).wf(),
            down_post(*old(self), *old(editor), *final(self), *final(editor), c@),
    {
        let s = self.nav.screen;
        let f = self.nav.focus_region;
        if s == 3 && self.detail.screenshot_popup_open {
            return none();
        }
        if s == 3 && f == 1 {
            if self.detail.selected_detail_control == 0 {
                self.detail.selected_detail_control = 1;
            } else if self.detail.selected_detail_control == 1 || self.detail.selected_detail_control == 2 {
                self.detail.selected_detail_control = 3;
                self.detail.selected_screenshot_index = 0;
            }
            return none();
        }
        if s == 4 && f == 1 {
            if self.controllers.manage_action == 1 {
                self.controllers.manage_action = 0;
            }
            return one(UiCommand::ControllerSelectNext);
        }
        if s == 12 && f == 1 {
            if self.settings.network_options_selected_index < 1 {
                self.settings.network_options_selected_index = 1;
            }
            return none();
        }
        if s == 1 && f == 0 {
            let first = match self.games.first_available() {
                Some(x) => x,
                None => 0,
            };
            self.games.section = first;
            let r = self.games.sync_games();
            self.nav.focus_region = 1;
            return selection_commands_exec(r);
        }
        if s == 0 && f == 0 {
            match self.home.first_available() {
                None => {
                    return none();
                },
                Some(sec) => {
                    self.home.section = sec;
                    let r = self.home.sync_home();
                    self.nav.focus_region = 1;
                    return selection_commands_exec(r);
                },
            }
        }
        if s == 3 && f == 0 {
            if self.nav.nav_selection == 1 {
                self.detail.selected_detail_control = 1;
            }
            self.nav.focus_region = 1;
            return none();
        }
        if s == 0 && f == 1 {
            let r = self.home.move_home_vertical(1);
            return selection_commands_exec(r.1);
        }
        if s == 1 && f == 1 {
            let r = self.games.move_games_vertical(1);
            return selection_commands_exec(r.1);
        }
        if s == 9 {
            return one(UiCommand::SelectWifiNetwork(self.wifi.network_selected_index + 1));
        }
        if s == 10 {
            self.wifi.password_action = wifi_password_navigate(editor, self.wifi.password_action, ConsoleAction::Down);
            return none();
        }
        if f == 0 {
            self.nav.focus_region = 1;
            return none();
        }
        if s == 2 && self.settings.selected_setting < 4 {
            self.settings.selected_setting = self.settings.selected_setting + 1;
            return none();
        }
        let max = if self.settings.wifi_enabled { 2 } else { 1 };
        if s == 7 && f == 1 && self.settings.system_setting < max {
            self.settings.system_setting = self.settings.system_setting + 1;
            return none();
        }
        if s == 6 && self.controllers.device_selection {
            return one(UiCommand::ControllerDeviceSelectNext);
        }
        none()
    }
}

/// `Left`: through a game's controls and screenshots, to the previous
/// option, screen, row entry or choice.
pub open spec fn left_post(o: UiState, oe: WifiPasswordEditorState, n: UiState, ne: WifiPasswordEditorState, c: Seq<UiCommand>) -> bool {
    let s = o.nav.screen;
    let f = o.nav.focus_region;
    if s == 3 && f == 1 && !o.detail.game_launching {
        &&& ne == oe && c == Seq::<UiCommand>::empty()
        &&& if o.detail.selected_detail_control == 2 {
            n == UiState { detail: DetailView { selected_detail_control: 1, ..o.detail }, ..o }
        } else if o.detail.selected_detail_control == 3 && o.detail.selected_screenshot_index > 0 {
            n == UiState { detail: DetailView { selected_screenshot_index: (o.detail.selected_screenshot_index - 1) as i32, ..o.detail }, ..o }
        } else {
            n == o
        }
    } else if s == 12 && f == 1 {
        &&& ne == oe && c == Seq::<UiCommand>::empty()
        &&& n == if o.settings.network_options_selected_index > 0 {
            UiState { settings: SettingsView { network_options_selected_index: 0, ..o.settings }, ..o }
        } else {
            o
        }
    } else if f == 0 && o.nav.nav_selection > 0 {
        &&& n == UiState { nav: NavFocus { nav_selection: (o.nav.nav_selection - 1) as i32, screen: (o.nav.nav_selection - 1) as i32, ..o.nav }, ..o }
        &&& ne == oe && c == Seq::<UiCommand>::empty()
    } else if s == 0 && f == 1 {
        exists|r: (bool, GameSelection)| {
            &&& horizontal_post(o.home, n.home, -1, true, r)
            &&& n == UiState { home: n.home, ..o }
            &&& ne == oe && c == selection_commands(r.1)
        }
    } else if s == 1 && f == 1 {
        exists|r: (bool, GameSelection)| {
            &&& horizontal_post(o.games, n.games, -1, false, r)
            &&& n == UiState { games: n.games, ..o }
            &&& ne == oe && c == selection_commands(r.1)
        }
    } else if s == 8 {
        &&& ne == oe
        &&& if !o.bluetooth.pairing_intro && !o.bluetooth.scan_running && o.bluetooth.device_action == BLUETOOTH_ACTION_DEVICE_LIST
            && o.bluetooth.device_selected_index > 0 {
            n == o && c == seq![UiCommand::SelectBluetoothDevice((o.bluetooth.device_selected_index - 1) as i32)]
        } else {
            n == UiState { bluetooth: BluetoothView { device_action: BLUETOOTH_ACTION_PRIMARY_BUTTON, ..o.bluetooth }, ..o }
                && c == Seq::<UiCommand>::empty()
        }
    } else if s == 9 {
        n == o && ne == oe && c == Seq::<UiCommand>::empty()
    } else if s == 10 {
        &&& navigate_post(oe, o.wifi.password_action, ConsoleAction::Left, ne, n.wifi.password_action)
        &&& n == UiState { wifi: WifiView { password_action: n.wifi.password_action, ..o.wifi }, ..o }
        &&& c == Seq::<UiCommand>::empty()
    } else if s == 7 && f == 1 && o.settings.system_setting > 0 {
        &&& n == UiState { settings: SettingsView { system_setting: (o.settings.system_setting - 1) as i32, ..o.settings }, ..o }
        &&& ne == oe && c == Seq::<UiCommand>::empty()
    } else if s == 4 && f == 1 {
        n == UiState { controllers: ControllerView { manage_action: 0, ..o.controllers }, ..o } && ne == oe && c == Seq::<UiCommand>::empty()
    } else if s == 5 && o.controllers.type_selection > 0 {
        &&& n == UiState { controllers: ControllerView { type_selection: (o.controllers.type_selection - 1) as i32, ..o.controllers }, ..o }
        &&& ne == oe && c == Seq::<UiCommand>::empty()
    } else if s == 6 && o.controllers.config_complete {
        n == UiState { controllers: ControllerView { final_selection: 0, ..o.controllers }, ..o } && ne == oe && c == Seq::<UiCommand>::empty()
    } else {
        n == o && ne == oe && c == Seq::<UiCommand>::empty()
    }
}

/// `Right`: the mirror of `Left`; in the pairing screen it moves into the
/// device list when there is one.
pub open spec fn right_post(o: UiState, oe: WifiPasswordEditorState, n: UiState, ne: WifiPasswordEditorState, c: Seq<UiCommand>) -> bool {
    let s = o.nav.screen;
    let f = o.nav.focus_region;
    if s == 3 && o.detail.screenshot_popup_open {
        n == o && ne == oe && c == Seq::<UiCommand>::empty()
    } else if s == 3 && f == 1 && !o.detail.game_launching {
        &&& ne == oe && c == Seq::<UiCommand>::empty()
        &&& if o.detail.selected_detail_control == 1 {
            n == UiState { detail: DetailView { selected_detail_control: 2, ..o.detail }, ..o }
        } else if o.detail.selected_detail_control == 2 {
            n == UiState { detail: DetailView { selected_detail_control: 3, selected_screenshot_index: 0, ..o.detail }, ..o }
        } else if o.detail.selected_detail_control == 3 && o.detail.selected_screenshot_index + 1 < o.detail.screenshot_count {
            n == UiState { detail: DetailView { selected_screenshot_index: (o.detail.selected_screenshot_index + 1) as i32, ..o.detail }, ..o }
        } else {
            n == o
        }
    } else if s == 12 && f == 1 {
        &&& ne == oe && c == Seq::<UiCommand>::empty()
        &&& n == if o.settings.network_options_selected_index < 1 {
            UiState { settings: SettingsView { network_options_selected_index: 1, ..o.settings }, ..o }
        } else {
            o
        }
    } else if f == 0 && o.nav.nav_selection < 2 {
        &&& n == UiState { nav: NavFocus { nav_selection: (o.nav.nav_selection + 1) as i32, screen: (o.nav.nav_selection + 1) as i32, ..o.nav }, ..o }
        &&& ne == oe && c == Seq::<UiCommand>::empty()
    } else if s == 0 && f == 1 {
        exists|r: (bool, GameSelection)| {
            &&& horizontal_post(o.home, n.home, 1, true, r)
            &&& n == UiState { home: n.home, ..o }
            &&& ne == oe && c == selection_commands(r.1)
        }
    } else if s == 1 && f == 1 {
        exists|r: (bool, GameSelection)| {
            &&& horizontal_post(o.games, n.games, 1, false, r)
            &&& n == UiState { games: n.games, ..o }
            &&& ne == oe && c == selection_commands(r.1)
        }
    } else if s == 8 {
        &&& ne == oe
        &&& if !o.bluetooth.pairing_intro && !o.bluetooth.scan_running && o.bluetooth.device_action == BLUETOOTH_ACTION_DEVICE_LIST {
            n == o && c == seq![UiCommand::SelectBluetoothDevice((o.bluetooth.device_selected_index + 1) as i32)]
        } else if !o.bluetooth.pairing_intro && !o.bluetooth.scan_running && o.bluetooth.device_count > 0 {
            n == UiState { bluetooth: BluetoothView { device_action: BLUETOOTH_ACTION_DEVICE_LIST, ..o.bluetooth }, ..o }
                && c == Seq::<UiCommand>::empty()
        } else {
            n == UiState { bluetooth: BluetoothView { device_action: BLUETOOTH_ACTION_PRIMARY_BUTTON, ..o.bluetooth }, ..o }
                && c == Seq::<UiCommand>::empty()
        }
    } else if s == 9 {
        n == o && ne == oe && c == Seq::<UiCommand>::empty()
    } else if s == 10 {
        &&& navigate_post(oe, o.wifi.password_action, ConsoleAction::Right, ne, n.wifi.password_action)
        &&& n == UiState { wifi: WifiView { password_action: n.wifi.password_action, ..o.wifi }, ..o }
        &&& c == Seq::<UiCommand>::empty()
    } else if s == 7 && f == 1 && o.settings.system_setting < max_system_setting(o.settings) {
        &&& n == UiState { settings: SettingsView { system_setting: (o.settings.system_setting + 1) as i32, ..o.settings }, ..o }
        &&& ne == oe && c == Seq::<UiCommand>::empty()
    } else if s == 4 && f == 1 {
        &&& ne == oe && c == Seq::<UiCommand>::empty()
        &&& n == if o.controllers.selected_index < o.controllers.item_count {
            UiState { controllers: ControllerView { manage_action: 1, ..o.controllers }, ..o }
        } else {
            o
        }
    } else if s == 5 && o.controllers.type_selection < 2 {
        &&& n == UiState { controllers: ControllerView { type_selection: (o.controllers.type_selection + 1) as i32, ..o.controllers }, ..o }
        &&& ne == oe && c == Seq::<UiCommand>::empty()
    } else if s == 6 && o.controllers.config_complete {
        n == UiState { controllers: ControllerView { final_selection: 1, ..o.controllers }, ..o } && ne == oe && c == Seq::<UiCommand>::empty()
    } else {
        n == o && ne == oe && c == Seq::<UiCommand>::empty()
    }
}

impl UiState {
    /// Handles `Left`.
    pub fn on_left(&mut self, editor: &mut WifiPasswordEditorState) -> (c: Vec<UiCommand>)
        requires
            old(self).wf(),
        ensures
            final(self).wf(),
            left_post(*old(self), *old(editor), *final(self), *final(editor), c@),
    {
        let s = self.nav.screen;
        let f = self.nav.focus_region;
        if s == 3 && f == 1 && !self.detail.game_launching {
            if self.detail.selected_detail_control == 2 {
                self.detail.selected_detail_control = 1;
            } else if self.detail.selected_detail_control == 3 && self.detail.selected_screenshot_index > 0 {
                self.detail.selected_screenshot_index = self.detail.selected_screenshot_index - 1;
            }
            return none();
        }
        if s == 12 && f == 1 {
            if self.settings.network_options_selected_index > 0 {
                self.settings.network_options_selected_index = 0;
            }
            return none();
        }
        if f == 0 && self.nav.nav_selection > 0 {
            self.nav.nav_selection = self.nav.nav_selection - 1;
            self.nav.screen = self.nav.nav_selection;
            return none();
        }
        if s == 0 && f == 1 {
            proof {
                old(self).home.lemma_normalized_valid();
            }
            let r = self.home.move_horizontal(-1, true);
            return selection_commands_exec(r.1);
        }
        if s == 1 && f == 1 {
            proof {
                old(self).games.lemma_normalized_valid();
            }
            let r = self.games.move_horizontal(-1, false);
            return selection_commands_exec(r.1);
        }
        if s == 8 {
            if !self.bluetooth.pairing_intro && !self.bluetooth.scan_running
                && self.bluetooth.device_action == BLUETOOTH_ACTION_DEVICE_LIST && self.bluetooth.device_selected_index > 0 {
                return one(UiCommand::SelectBluetoothDevice(self.bluetooth.device_selected_index - 1));
            }
            self.bluetooth.device_action = BLUETOOTH_ACTION_PRIMARY_BUTTON;
            return none();
        }
        if s == 9 {
            return none();
        }
        if s == 10 {
            self.wifi.password_action = wifi_password_navigate(editor, self.wifi.password_action, ConsoleAction::Left);
            return none();
        }
        if s == 7 && f == 1 && self.settings.system_setting > 0 {
            self.settings.system_setting = self.settings.system_setting - 1;
            return none();
        }
        if s == 4 && f == 1 {
            self.controllers.manage_action = 0;
            return none();
        }
        if s == 5 && self.controllers.type_selection > 0 {
            self.controllers.type_selection = self.controllers.type_selection - 1;
            return none();
        }
        if s == 6 && self.controllers.config_complete {
            self.controllers.final_selection = 0;
        }
        none()
    }

    /// Handles `Right`.
    pub fn on_right(&mut self, editor: &mut WifiPasswordEditorState) -> (c: Vec<UiCommand>)
        requires
            old(self).wf(),
            old(self).nav.screen == 8 ==> old(self).bluetooth.device_selected_index < i32::MAX,
        ensures
            final(self).wf(),
            right_post(*old(self), *old(editor), *final(self), *final(editor), c@),
    {
        let s = self.nav.screen;
        let f = self.nav.focus_region;
        if s == 3 && self.detail.screenshot_popup_open {
            return none();
        }
        if s == 3 && f == 1 && !self.detail.game_launching {
            let d = self.detail.selected_detail_control;
            if d == 1 {
                self.detail.selected_detail_control = 2;
            } else if d == 2 {
                self.detail.selected_detail_control = 3;
                self.detail.selected_screenshot_index = 0;
            } else if d == 3 && (self.detail.selected_screenshot_index as i64) + 1 < self.detail.screenshot_count as i64 {
                self.detail.selected_screenshot_index = self.detail.selected_screenshot_index + 1;
            }
            return none();
        }
        if s == 12 && f == 1 {
            if self.settings.network_options_selected_index < 1 {
                self.settings.network_options_selected_index = 1;
            }
            return none();
        }
        if f == 0 && self.nav.nav_selection < 2 {
            self.nav.nav_selection = self.nav.nav_selection + 1;
            self.nav.screen = self.nav.nav_selection;
            return none();
        }
        if s == 0 && f == 1 {
            proof {
                old(self).home.lemma_normalized_valid();
            }
            let r = self.home.move_horizontal(1, true);
            return selection_commands_exec(r.1);
        }
        if s == 1 && f == 1 {
            proof {
                old(self).games.lemma_normalized_valid();
            }
            let r = self.games.move_horizontal(1, false);
            return selection_commands_exec(r.1);
        }
        if s == 8 {
            if !self.bluetooth.pairing_intro && !self.bluetooth.scan_running && self.bluetooth.device_action == BLUETOOTH_ACTION_DEVICE_LIST {
                return one(UiCommand::SelectBluetoothDevice(self.bluetooth.device_selected_index + 1));
            } else if !self.bluetooth.pairing_intro && !self.bluetooth.scan_running && self.bluetooth.device_count > 0 {
                self.bluetooth.device_action = BLUETOOTH_ACTION_DEVICE_LIST;
            } else {
                self.bluetooth.device_action = BLUETOOTH_ACTION_PRIMARY_BUTTON;
            }
            return none();
        }
        if s == 9 {
            return none();
        }
        if s == 10 {
            self.wifi.password_action = wifi_password_navigate(editor, self.wifi.password_action, ConsoleAction::Right);
            return none();
        }
        let max = if self.settings.wifi_enabled { 2 } else { 1 };
        if s == 7 && f == 1 && self.settings.system_setting < max {
            self.settings.system_setting = self.settings.system_setting + 1;
            return none();
        }
        if s == 4 && f == 1 {
            if self.controllers.selected_index < self.controllers.item_count {
                self.controllers.manage_action = 1;
            }
            return none();
        }
        if s == 5 && self.controllers.type_selection < 2 {
            self.controllers.type_selection = self.controllers.type_selection + 1;
            return none();
        }
        if s == 6 && self.controllers.config_complete {
            self.controllers.final_selection = 1;
        }
        none()
    }
}

/// The command of the focused button of the password screen, if any.
pub open spec fn password_commands(action: i32) -> Seq<UiCommand> {
    if confirm_spec(action) == WifiPasswordCommand::Nothing {
        seq![]
    } else {
        seq![UiCommand::WifiPassword(confirm_spec(action))]
    }
}

/// `Accept` (or `Start`): closes an open screenshot; from the navigation bar
/// enters the selected screen; otherwise activates what has the focus.
pub open spec fn accept_post(o: UiState, oe: WifiPasswordEditorState, n: UiState, ne: WifiPasswordEditorState, c: Seq<UiCommand>) -> bool {
    let s = o.nav.screen;
    let f = o.nav.focus_region;
    let d = o.detail;
    &&& ne == oe
    &&& if s == 3 && d.screenshot_popup_open {
        n == UiState { detail: DetailView { screenshot_popup_open: false, ..d }, ..o } && c == Seq::<UiCommand>::empty()
    } else if f == 0 {
        n == UiState { nav: NavFocus { screen: o.nav.nav_selection, focus_region: 1, ..o.nav }, ..o } && c == Seq::<UiCommand>::empty()
    } else if s == 0 {
        if f == 1 {
            exists|r: GameSelection| {
                &&& sync_home_post(o.home, n.home, r)
                &&& n == UiState { home: n.home, nav: NavFocus { screen: 3, ..o.nav }, detail: DetailView { selected_detail_control: 1, ..d }, ..o }
                &&& c == selection_commands(r)
            }
        } else {
            n == o && c == Seq::<UiCommand>::empty()
        }
    } else if s == 1 {
        if d.game_count > 0 {
            exists|r: GameSelection| {
                &&& sync_games_post(o.games, n.games, r)
                &&& n == UiState { games: n.games, nav: NavFocus { screen: 3, ..o.nav }, detail: DetailView { selected_detail_control: 1, ..d }, ..o }
                &&& c == selection_commands(r)
            }
        } else {
            n == o && c == Seq::<UiCommand>::empty()
        }
    } else if s == 3 {
        if !d.game_launching && d.selected_detail_control == 0 {
            &&& n == UiState { nav: NavFocus { screen: 1, ..o.nav }, detail: DetailView { launch_status: n.detail.launch_status, ..d }, ..o }
            &&& n.detail.launch_status@ == Seq::<char>::empty()
            &&& c == Seq::<UiCommand>::empty()
        } else if !d.game_launching && d.selected_detail_control == 1 {
            n == o && c == seq![UiCommand::LaunchGame(d.selected_game)]
        } else if !d.game_launching && d.selected_detail_control == 2 {
            n == o && c == seq![UiCommand::ToggleGameFavorite]
        } else if d.selected_detail_control == 3 && d.screenshot_count > 0 {
            let i = if d.selected_screenshot_index < 0 { 0 } else if d.selected_screenshot_index > d.screenshot_count - 1 {
                d.screenshot_count - 1
            } else {
                d.selected_screenshot_index as int
            };
            n == UiState { detail: DetailView { selected_screenshot_index: i as i32, screenshot_popup_open: true, ..d }, ..o }
                && c == Seq::<UiCommand>::empty()
        } else {
            n == o && c == Seq::<UiCommand>::empty()
        }
    } else if s == 2 {
        let ss = o.settings.selected_setting;
        if ss == 0 {
            &&& n == UiState {
                nav: NavFocus { screen: 7, focus_region: 1, ..o.nav },
                settings: SettingsView { selected_setting: 0, system_settings_status: n.settings.system_settings_status, ..o.settings },
                ..o
            }
            &&& n.settings.system_settings_status@ == Seq::<char>::empty()
            &&& c == Seq::<UiCommand>::empty()
        } else if ss == 1 {
            n == UiState {
                nav: NavFocus { screen: 12, focus_region: 1, ..o.nav },
                settings: SettingsView { network_options_selected_index: 1, ..o.settings },
                ..o
            } && c == Seq::<UiCommand>::empty()
        } else if ss == 2 {
            &&& n == UiState {
                nav: NavFocus { screen: 4, ..o.nav },
                controllers: ControllerView { manager_status: n.controllers.manager_status, ..o.controllers },
                ..o
            }
            &&& n.controllers.manager_status@ == Seq::<char>::empty()
            &&& c == seq![UiCommand::RefreshControllers]
        } else if ss == 3 {
            n == UiState { nav: NavFocus { screen: 11, focus_region: 1, ..o.nav }, ..o } && c == Seq::<UiCommand>::empty()
        } else if ss == 4 {
            n == o && c == seq![UiCommand::RestartSystem]
        } else {
            n == o && c == Seq::<UiCommand>::empty()
        }
    } else if s == 7 {
        &&& n == o
        &&& c == if o.settings.system_setting == 0 {
            seq![UiCommand::ToggleWifi]
        } else if o.settings.system_setting == 1 {
            if o.settings.wifi_enabled { seq![UiCommand::OpenWifiSetup] } else { seq![UiCommand::ToggleBluetooth] }
        } else if o.settings.system_setting == 2 {
            seq![UiCommand::ToggleBluetooth]
        } else {
            Seq::<UiCommand>::empty()
        }
    } else if s == 12 {
        if o.settings.network_options_selected_index == 1 {
            n == o && c == seq![UiCommand::OpenWifiSetup]
        } else {
            n == UiState { nav: NavFocus { screen: 2, focus_region: 1, ..o.nav }, ..o } && c == Seq::<UiCommand>::empty()
        }
    } else if s == 9 {
        n == o && c == seq![UiCommand::ActivateWifiNetwork]
    } else if s == 10 {
        n == o && c == password_commands(o.wifi.password_action)
    } else if s == 4 {
        if o.controllers.selected_index == o.controllers.item_count {
            &&& n == UiState {
                nav: NavFocus { screen: 5, ..o.nav },
                controllers: ControllerView { type_selection: 0, manager_status: n.controllers.manager_status, ..o.controllers },
                ..o
            }
            &&& n.controllers.manager_status@ == Seq::<char>::empty()
            &&& c == Seq::<UiCommand>::empty()
        } else if o.controllers.manage_action == 1 {
            n == o && c == seq![UiCommand::RemoveSelectedController]
        } else {
            n == o && c == Seq::<UiCommand>::empty()
        }
    } else if s == 5 {
        if o.controllers.type_selection == 2 {
            if !o.settings.bluetooth_enabled {
                &&& n == UiState { controllers: ControllerView { add_status: n.controllers.add_status, ..o.controllers }, ..o }
                &&& n.controllers.add_status@ == "Bluetooth is disabled. Enable it in System first."@
                &&& c == Seq::<UiCommand>::empty()
            } else {
                &&& n == UiState {
                    nav: NavFocus { screen: 8, focus_region: 1, ..o.nav },
                    controllers: ControllerView { add_status: n.controllers.add_status, ..o.controllers },
                    bluetooth: BluetoothView {
                        device_selected_index: 0,
                        device_action: BLUETOOTH_ACTION_PRIMARY_BUTTON,
                        pairing_intro: true,
                        scan_running: false,
                        ..o.bluetooth
                    },
                    ..o
                }
                &&& n.controllers.add_status@ == Seq::<char>::empty()
                &&& c == seq![UiCommand::BeginBluetoothPairing]
            }
        } else {
            n == UiState { nav: NavFocus { screen: 6, ..o.nav }, ..o } && c == seq![UiCommand::StartControllerSetup(o.controllers.type_selection)]
        }
    } else if s == 8 {
        n == o && c == if o.bluetooth.pairing_intro || o.bluetooth.device_count == 0 {
            seq![UiCommand::ScanBluetoothDevices]
        } else {
            seq![UiCommand::PairOrContinueBluetoothDevice]
        }
    } else if s == 6 {
        n == o && c == if o.controllers.device_selection {
            seq![UiCommand::ActivateControllerDeviceSelection]
        } else if o.controllers.config_complete {
            seq![UiCommand::ActivateControllerFinalSelection]
        } else {
            Seq::<UiCommand>::empty()
        }
    } else {
        n == o && c == Seq::<UiCommand>::empty()
    }
}

impl UiState {
    /// Handles `Accept` and `Start`.
    #[verifier::spinoff_prover]
    pub fn on_accept(&mut self, editor: &WifiPasswordEditorState) -> (c: Vec<UiCommand>)
        requires
            old(self).wf(),
        ensures
            final(self).wf(),
            accept_post(*old(self), *editor, *final(self), *editor, c@),
    {
        proof {
            reveal_strlit("");
            assert(""@ =~= Seq::<char>::empty());
        }
        let s = self.nav.screen;
        let f = self.nav.focus_region;
        if s == 3 && self.detail.screenshot_popup_open {
            self.detail.screenshot_popup_open = false;
            return none();
        }
        if f == 0 {
            self.nav.screen = self.nav.nav_selection;
            self.nav.focus_region = 1;
            return none();
        }
        if s == 0 {
            if f == 1 {
                let r = self.home.sync_home();
                self.nav.screen = 3;
                self.detail.selected_detail_control = 1;
                return selection_commands_exec(r);
            }
            return none();
        }
        if s == 1 {
            if self.detail.game_count > 0 {
                let r = self.games.sync_games();
                self.nav.screen = 3;
                self.detail.selected_detail_control = 1;
                return selection_commands_exec(r);
            }
            return none();
        }
        if s == 3 {
            let launching = self.detail.game_launching;
            let dc = self.detail.selected_detail_control;
            if !launching && dc == 0 {
                self.nav.screen = 1;
                self.detail.launch_status = owned("");
                return none();
            } else if !launching && dc == 1 {
                return one(UiCommand::LaunchGame(self.detail.selected_game));
            } else if !launching && dc == 2 {
                return one(UiCommand::ToggleGameFavorite);
            } else if dc == 3 && self.detail.screenshot_count > 0 {
                let count = self.detail.screenshot_count;
                let cur = self.detail.selected_screenshot_index;
                let i = if cur < 0 { 0 } else if cur > count - 1 { count - 1 } else { cur };
                self.detail.selected_screenshot_index = i;
                self.detail.screenshot_popup_open = true;
            }
            return none();
        }
        if s == 2 {
            let ss = self.settings.selected_setting;
            if ss == 0 {
                self.nav.screen = 7;
                self.nav.focus_region = 1;
                self.settings.selected_setting = 0;
                self.settings.system_settings_status = owned("");
                return none();
            } else if ss == 1 {
                self.nav.screen = 12;
                self.nav.focus_region = 1;
                self.settings.network_options_selected_index = 1;
                return none();
            } else if ss == 2 {
                self.nav.screen = 4;
                self.controllers.manager_status = owned("");
                return one(UiCommand::RefreshControllers);
            } else if ss == 3 {
                self.nav.screen = 11;
                self.nav.focus_region = 1;
                return none();
            } else if ss == 4 {
                return one(UiCommand::RestartSystem);
            }
            return none();
        }
        if s == 7 {
            let sys = self.settings.system_setting;
            if sys == 0 {
                return one(UiCommand::ToggleWifi);
            } else if sys == 1 {
                if self.settings.wifi_enabled {
                    return one(UiCommand::OpenWifiSetup);
                }
                return one(UiCommand::ToggleBluetooth);
            } else if sys == 2 {
                return one(UiCommand::ToggleBluetooth);
            }
            return none();
        }
        if s == 12 {
            if self.settings.network_options_selected_index == 1 {
                return one(UiCommand::OpenWifiSetup);
            }
            self.nav.screen = 2;
            self.nav.focus_region = 1;
            return none();
        }
        if s == 9 {
            return one(UiCommand::ActivateWifiNetwork);
        }
        if s == 10 {
            let cmd = wifi_password_confirm_command(self.wifi.password_action);
            return match cmd {
                WifiPasswordCommand::Nothing => none(),
                _ => one(UiCommand::WifiPassword(cmd)),
            };
        }
        if s == 4 {
            if self.controllers.selected_index == self.controllers.item_count {
                self.nav.screen = 5;
                self.controllers.type_selection = 0;
                self.controllers.manager_status = owned("");
                return none();
            } else if self.controllers.manage_action == 1 {
                return one(UiCommand::RemoveSelectedController);
            }
            return none();
        }
        if s == 5 {
            if self.controllers.type_selection == 2 {
                if !self.settings.bluetooth_enabled {
                    self.controllers.add_status = owned("Bluetooth is disabled. Enable it in System first.");
                    return none();
                }
                self.controllers.add_status = owned("");
                self.bluetooth.device_selected_index = 0;
                self.bluetooth.device_action = BLUETOOTH_ACTION_PRIMARY_BUTTON;
                self.bluetooth.pairing_intro = true;
                self.bluetooth.scan_running = false;
                self.nav.focus_region = 1;
                self.nav.screen = 8;
                return one(UiCommand::BeginBluetoothPairing);
            }
            self.nav.screen = 6;
            return one(UiCommand::StartControllerSetup(self.controllers.type_selection));
        }
        if s == 8 {
            if self.bluetooth.pairing_intro || self.bluetooth.device_count == 0 {
                return one(UiCommand::ScanBluetoothDevices);
            }
            return one(UiCommand::PairOrContinueBluetoothDevice);
        }
        if s == 6 {
            if self.controllers.device_selection {
                return one(UiCommand::ActivateControllerDeviceSelection);
            } else if self.controllers.config_complete {
                return one(UiCommand::ActivateControllerFinalSelection);
            }
            return none();
        }
        none()
    }
}

/// `Cancel`: closes an open screenshot; leaves the password editor (emptied)
/// and the Wi-Fi setup; otherwise goes back to the screen a screen was
/// opened from, or from the content to the navigation bar.
pub open spec fn cancel_post(o: UiState, oe: WifiPasswordEditorState, n: UiState, ne: WifiPasswordEditorState, c: Seq<UiCommand>) -> bool {
    let s = o.nav.screen;
    let f = o.nav.focus_region;
    let back_to_settings = |row: i32| UiState { nav: NavFocus { screen: 2, focus_region: 1, ..o.nav }, settings: SettingsView { selected_setting: row, ..o.settings }, ..o };
    if s == 3 && o.detail.screenshot_popup_open {
        n == UiState { detail: DetailView { screenshot_popup_open: false, ..o.detail }, ..o } && ne == oe && c == Seq::<UiCommand>::empty()
    } else if s == 10 {
        &&& is_reset(ne, Seq::<char>::empty())
        &&& n == UiState { wifi: WifiView { password_action: ACTION_KEYS, password_status: n.wifi.password_status, ..o.wifi }, ..o }
        &&& n.wifi.password_status@ == "Wi-Fi password cleared."@
        &&& c == seq![UiCommand::CancelWifiSetup]
    } else {
        &&& ne == oe
        &&& if s == 3 && !o.detail.game_launching {
            &&& n == UiState { nav: NavFocus { screen: 1, focus_region: 1, ..o.nav }, detail: DetailView { launch_status: n.detail.launch_status, ..o.detail }, ..o }
            &&& n.detail.launch_status@ == Seq::<char>::empty()
            &&& c == Seq::<UiCommand>::empty()
        } else if s == 4 {
            n == back_to_settings(1) && c == Seq::<UiCommand>::empty()
        } else if s == 5 {
            n == UiState { nav: NavFocus { screen: 4, focus_region: 1, ..o.nav }, ..o } && c == Seq::<UiCommand>::empty()
        } else if s == 8 {
            n == UiState { nav: NavFocus { focus_region: 1, ..o.nav }, ..o } && c == seq![UiCommand::CancelBluetoothPairing]
        } else if s == 11 {
            n == back_to_settings(3) && c == Seq::<UiCommand>::empty()
        } else if s == 12 {
            n == back_to_settings(1) && c == Seq::<UiCommand>::empty()
        } else if s == 9 {
            n == o && c == seq![UiCommand::CancelWifiSetup]
        } else if s == 6 {
            n == o && c == seq![UiCommand::CancelControllerSetup]
        } else if s == 7 {
            &&& n == UiState {
                nav: NavFocus { screen: 2, focus_region: 1, ..o.nav },
                settings: SettingsView { selected_setting: 0, system_settings_status: n.settings.system_settings_status, ..o.settings },
                ..o
            }
            &&& n.settings.system_settings_status@ == Seq::<char>::empty()
            &&& c == Seq::<UiCommand>::empty()
        } else if f == 1 {
            n == UiState { nav: NavFocus { focus_region: 0, ..o.nav }, ..o } && c == Seq::<UiCommand>::empty()
        } else {
            n == o && c == Seq::<UiCommand>::empty()
        }
    }
}

impl UiState {
    /// Handles `Cancel`.
    pub fn on_cancel(&mut self, editor: &mut WifiPasswordEditorState) -> (c: Vec<UiCommand>)
        requires
            old(self).wf(),
        ensures
            final(self).wf(),
            cancel_post(*old(self), *old(editor), *final(self), *final(editor), c@),
    {
        proof {
            reveal_strlit("");
            assert(""@ =~= Seq::<char>::empty());
        }
        let s = self.nav.screen;
        let f = self.nav.focus_region;
        if s == 3 && self.detail.screenshot_popup_open {
            self.detail.screenshot_popup_open = false;
            return none();
        }
        if s == 10 {
            self.wifi.password_action = clear_wifi_password_editor(editor);
            self.wifi.password_status = owned("Wi-Fi password cleared.");
            return one(UiCommand::CancelWifiSetup);
        }
        if s == 3 && !self.detail.game_launching {
            self.nav.screen = 1;
            self.nav.focus_region = 1;
            self.detail.launch_status = owned("");
            return none();
        }
        if s == 4 || s == 11 || s == 12 {
            self.nav.screen = 2;
            self.nav.focus_region = 1;
            self.settings.selected_setting = if s == 11 { 3 } else { 1 };
            return none();
        }
        if s == 5 {
            self.nav.screen = 4;
            self.nav.focus_region = 1;
            return none();
        }
        if s == 8 {
            self.nav.focus_region = 1;
            return one(UiCommand::CancelBluetoothPairing);
        }
        if s == 9 {
            return one(UiCommand::CancelWifiSetup);
        }
        if s == 6 {
            return one(UiCommand::CancelControllerSetup);
        }
        if s == 7 {
            self.nav.screen = 2;
            self.nav.focus_region = 1;
            self.settings.selected_setting = 0;
            self.settings.system_settings_status = owned("");
            return none();
        }
        if f == 1 {
            self.nav.focus_region = 0;
        }
        none()
    }

    /// Handles a console action: the directions, `Accept` and `Start`,
    /// `Cancel`; `Select` does nothing.
    pub fn handle_console_action(&mut self, editor: &mut WifiPasswordEditorState, action: ConsoleAction) -> (c: Vec<UiCommand>)
        requires
            old(self).wf(),
            action == ConsoleAction::Down && old(self).nav.screen == 9 ==> old(self).wifi.network_selected_index < i32::MAX,
            action == ConsoleAction::Right && old(self).nav.screen == 8 ==> old(self).bluetooth.device_selected_index < i32::MAX,
        ensures
            final(self).wf(),
            match action {
                ConsoleAction::Up => up_post(*old(self), *old(editor), *final(self), *final(editor), c@),
                ConsoleAction::Down => down_post(*old(self), *old(editor), *final(self), *final(editor), c@),
                ConsoleAction::Left => left_post(*old(self), *old(editor), *final(self), *final(editor), c@),
                ConsoleAction::Right => right_post(*old(self), *old(editor), *final(self), *final(editor), c@),
                ConsoleAction::Accept | ConsoleAction::Start => accept_post(*old(self), *old(editor), *final(self), *final(editor), c@),
                ConsoleAction::Cancel => cancel_post(*old(self), *old(editor), *final(self), *final(editor), c@),
                ConsoleAction::Select => *final(self) == *old(self) && *final(editor) == *old(editor) && c@ == Seq::<UiCommand>::empty(),
            },
    {
        match action {
            ConsoleAction::Up => self.on_up(editor),
            ConsoleAction::Down => self.on_down(editor),
            ConsoleAction::Left => self.on_left(editor),
            ConsoleAction::Right => self.on_right(editor),
            ConsoleAction::Accept | ConsoleAction::Start => self.on_accept(editor),
            ConsoleAction::Cancel => self.on_cancel(editor),
            ConsoleAction::Select => none(),
        }
    }
}

/// Where an input event goes.
#[derive(Debug, Clone)]
pub enum InputRoute {
    /// A controller came or went: the controller screen's status.
    ControllerStatus(String),
    /// A press was recorded by the controller setup.
    Mapping { finished: bool, progress: i32, display: String, play_rotation: bool },
    /// The event stands for a console action.
    Action(ConsoleAction),
    /// Nothing to do.
    Ignore,
}

/// The rotation animation is due: an all-devices setup asks for `Button L1`
/// and has not shown it yet.
pub open spec fn rotation_due(v: SetupView) -> bool {
    &&& uses_all_devices_spec(v.template)
    &&& v.phase == ControllerSetupPhase::MapControls
    &&& !v.rotation_played
    &&& v.index < v.actions.len() && v.actions[v.index as int] == "Button L1"@
}

/// The progress of the control being mapped, in percent.
pub open spec fn progress_spec(v: SetupView) -> int {
    if v.phase == ControllerSetupPhase::Review { 100 } else if v.hits < 10 { (v.hits * 10) as int } else { 100 }
}

/// What the setup screen shows of the last press: the token and how many
/// of the ten presses of the control are in (ten and the word `Mapped` once
/// the control moved on).
pub open spec fn mapping_display(token: Seq<char>, hits: nat) -> Seq<char> {
    if hits == 0 {
        "Mapped "@ + token + " (10/10)"@
    } else {
        token + " ("@ + decimal(hits) + "/10)"@
    }
}

/// A press goes to the controller setup: the setup screen is mapping
/// controls, and the press comes from a controller that is the chosen
/// device (or no device was chosen).
pub open spec fn goes_to_setup(screen: i32, e: ConsoleInputEvent, setup: Option<ControllerSetupState>) -> bool {
    screen == 6 && e.phase == ConsoleInputPhase::Pressed && match setup {
        Some(st) => st@.phase == ControllerSetupPhase::MapControls && match e.source {
            ConsoleInputSource::Controller { device_id, .. } => !(st@.selected < st@.devices.len()
                && st@.devices[st@.selected as int].unique_id@ != device_id@),
            ConsoleInputSource::Keyboard { .. } => false,
        },
        None => false,
    }
}

/// The route of an event that does not go to the setup: the password
/// editor takes from a keyboard only the directions and `Cancel`, and
/// takes a controller's back buttons as `Cancel`; otherwise the event's
/// action, if any.
pub open spec fn action_route(screen: i32, e: ConsoleInputEvent) -> Option<ConsoleAction> {
    let keyboard_filtered = match e.action {
        Some(a) => screen == 10 && e.source is Keyboard && !(a == ConsoleAction::Up || a == ConsoleAction::Down
            || a == ConsoleAction::Left || a == ConsoleAction::Right || a == ConsoleAction::Cancel),
        None => false,
    };
    if keyboard_filtered {
        None
    } else if screen == 10 && e.phase == ConsoleInputPhase::Pressed && e.source is Controller && e.action is None
        && cancel_token(e.token@) {
        Some(ConsoleAction::Cancel)
    } else {
        e.action
    }
}

/// What the route of a press fed to the setup holds: the setup after the
/// press, whether it finished, the progress, the text and the animation.
pub open spec fn mapping_route(o: SetupView, n: SetupView, token: Seq<char>, r: InputRoute) -> bool {
    &&& n == ControllerSetupState::press_view(o, token)
    &&& match r {
        InputRoute::Mapping { finished, progress, display, play_rotation } => {
            &&& finished == (n.phase == ControllerSetupPhase::Review)
            &&& progress == progress_spec(n)
            &&& display@ == mapping_display(token, if n.hits < 10 { n.hits } else { 10 })
            &&& play_rotation == rotation_due(n)
        },
        _ => false,
    }
}

/// Routes an input event: connections and disconnections of controllers
/// become status texts, releases are ignored, presses on the setup screen
/// feed the controller setup, and the rest become console actions.
pub fn route_console_input_event(screen: i32, event: &ConsoleInputEvent, setup: &mut Option<ControllerSetupState>) -> (r: InputRoute)
    requires
        *old(setup) matches Some(st) ==> st.wf(),
    ensures
        *final(setup) matches Some(st) ==> st.wf(),
        match event.phase {
            ConsoleInputPhase::Connected | ConsoleInputPhase::Disconnected => {
                &&& *final(setup) == *old(setup)
                &&& match event.source {
                    ConsoleInputSource::Controller { controller_name, .. } => r matches InputRoute::ControllerStatus(m)
                        && m@ == (if event.phase == ConsoleInputPhase::Connected { "Controller connected: "@ } else { "Controller disconnected: "@ })
                            + controller_name@,
                    ConsoleInputSource::Keyboard { .. } => r is Ignore,
                }
            },
            ConsoleInputPhase::Released => *final(setup) == *old(setup) && r is Ignore,
            _ => if goes_to_setup(screen, *event, *old(setup)) {
                match (*old(setup), *final(setup)) {
                    (Some(o), Some(n)) => mapping_route(o@, n@, event.token@, r),
                    _ => false,
                }
            } else {
                &&& *final(setup) == *old(setup)
                &&& match action_route(screen, *event) {
                    Some(a) => r == InputRoute::Action(a),
                    None => r is Ignore,
                }
            },
        },
{
    match &event.phase {
        ConsoleInputPhase::Connected | ConsoleInputPhase::Disconnected => {
            return match &event.source {
                ConsoleInputSource::Controller { controller_name, .. } => {
                    let mut m = owned(if matches!(event.phase, ConsoleInputPhase::Connected) {
                        "Controller connected: "
                    } else {
                        "Controller disconnected: "
                    });
                    push_str(&mut m, controller_name.as_str());
                    InputRoute::ControllerStatus(m)
                },
                ConsoleInputSource::Keyboard { .. } => InputRoute::Ignore,
            };
        },
        ConsoleInputPhase::Released => {
            return InputRoute::Ignore;
        },
        _ => {},
    }
    if screen == 6 && matches!(event.phase, ConsoleInputPhase::Pressed) {
        if let Some(st) = setup {
            if st.is_mapping_controls() {
                if let ConsoleInputSource::Controller { device_id, .. } = &event.source {
                    let mismatch = match st.selected_device_id() {
                        Some(expected) => !crate::text::str_eq(expected.as_str(), device_id.as_str()),
                        None => false,
                    };
                    if !mismatch {
                        let finished = st.register_mapping_press(event.token.as_str());
                        let hits = st.current_press_count();
                        let progress = st.current_progress_percent();
                        let play_rotation = st.should_play_rotation_animation();
                        let display = if hits == 0 {
                            let mut d = owned("Mapped ");
                            push_str(&mut d, event.token.as_str());
                            push_str(&mut d, " (10/10)");
                            d
                        } else {
                            let mut d = owned(event.token.as_str());
                            push_str(&mut d, " (");
                            push_decimal(&mut d, hits as u64);
                            push_str(&mut d, "/10)");
                            d
                        };
                        return InputRoute::Mapping { finished, progress, display, play_rotation };
                    }
                }
            }
        }
    }
    let keyboard = matches!(event.source, ConsoleInputSource::Keyboard { .. });
    if screen == 10 && keyboard {
        if let Some(a) = event.action {
            let nav = matches!(a, ConsoleAction::Up | ConsoleAction::Down | ConsoleAction::Left | ConsoleAction::Right | ConsoleAction::Cancel);
            if !nav {
                return InputRoute::Ignore;
            }
        }
    }
    if screen == 10 && matches!(event.phase, ConsoleInputPhase::Pressed) && !keyboard && event.action.is_none()
        && is_wifi_password_controller_cancel_token(event.token.as_str()) {
        return InputRoute::Action(ConsoleAction::Cancel);
    }
    match event.action {
        Some(a) => InputRoute::Action(a),
        None => InputRoute::Ignore,
    }
}

} // verus!
