use vstd::prelude::*;
use vstd::string::*;

use crate::text::{owned, push_str};

verus! {

broadcast use vstd::string::group_string_axioms;

/// Where the system settings are kept unless the environment says
/// otherwise.
pub const DEFAULT_SYSTEM_SETTINGS_CONFIG_PATH: &'static str = "/data/openconsole/system-settings.json";

/// The console's persisted system settings.
#[derive(Debug, Clone)]
pub struct SystemSettings {
    pub wifi_enabled: bool,
    pub bluetooth_enabled: bool,
    pub preferred_wifi_network: Option<String>,
}

impl Default for SystemSettings {
    /// Wi-Fi and Bluetooth off, no preferred network.
    fn default() -> (r: Self)
        ensures
            !r.wifi_enabled,
            !r.bluetooth_enabled,
            r.preferred_wifi_network is None,
    {
        SystemSettings { wifi_enabled: false, bluetooth_enabled: false, preferred_wifi_network: None }
    }
}

/// The settings file: the one the environment names, else the default one.
pub fn system_settings_config_path(configured: Option<&str>) -> (r: String)
    ensures
        r@ == match configured {
            Some(p) => p@,
            None => DEFAULT_SYSTEM_SETTINGS_CONFIG_PATH@,
        },
{
    match configured {
        Some(p) => owned(p),
        None => owned(DEFAULT_SYSTEM_SETTINGS_CONFIG_PATH),
    }
}

/// The settings to use, and whether they must be written: missing settings
/// are the defaults, written out; settings read back are used as they are,
/// and a failure to read or parse them is passed on.
pub fn load_or_create_system_settings(stored: Option<Result<SystemSettings, String>>) -> (r: (Result<SystemSettings, String>, bool))
    ensures
        match stored {
            None => r.1 && (r.0 matches Ok(s) && !s.wifi_enabled && !s.bluetooth_enabled && s.preferred_wifi_network is None),
            Some(Ok(s)) => !r.1 && r.0 == Ok::<SystemSettings, String>(s),
            Some(Err(e)) => !r.1 && r.0 == Err::<SystemSettings, String>(e),
        },
{
    match stored {
        None => (Ok(SystemSettings::default()), true),
        Some(res) => (res, false),
    }
}

/// The shell command that switches Wi-Fi on (iwd on, wpa_supplicant off) or
/// off (both off), ignoring failures of each step.
pub open spec fn wifi_command_spec(enabled: bool) -> Seq<char> {
    if enabled {
        "systemctl enable --now iwd.service || true; systemctl disable --now wpa_supplicant.service || true"@
    } else {
        "systemctl disable --now iwd.service || true; systemctl disable --now wpa_supplicant.service || true"@
    }
}

/// The shell command that switches Bluetooth on (service, then adapter) or
/// off (adapter, then service).
pub open spec fn bluetooth_command_spec(enabled: bool) -> Seq<char> {
    if enabled {
        "systemctl enable --now bluetooth.service || true; bluetoothctl power on || true"@
    } else {
        "bluetoothctl power off || true; systemctl disable --now bluetooth.service || true"@
    }
}

/// A labelled shell command.
#[derive(Debug, Clone)]
pub struct ShellStep {
    pub label: &'static str,
    pub command: &'static str,
}

/// The commands that apply the settings, to run in order until one fails:
/// Wi-Fi, then Bluetooth.
pub fn apply_system_settings(settings: &SystemSettings) -> (r: Vec<ShellStep>)
    ensures
        r@.len() == 2,
        r@[0].label@ == "wifi"@,
        r@[0].command@ == wifi_command_spec(settings.wifi_enabled),
        r@[1].label@ == "bluetooth"@,
        r@[1].command@ == bluetooth_command_spec(settings.bluetooth_enabled),
{
    let wifi = if settings.wifi_enabled {
        "systemctl enable --now iwd.service || true; systemctl disable --now wpa_supplicant.service || true"
    } else {
        "systemctl disable --now iwd.service || true; systemctl disable --now wpa_supplicant.service || true"
    };
    let bluetooth = if settings.bluetooth_enabled {
        "systemctl enable --now bluetooth.service || true; bluetoothctl power on || true"
    } else {
        "bluetoothctl power off || true; systemctl disable --now bluetooth.service || true"
    };
    let mut r: Vec<ShellStep> = Vec::new();
    r.push(ShellStep { label: "wifi", command: wifi });
    r.push(ShellStep { label: "bluetooth", command: bluetooth });
    r
}

/// The error of a labelled shell command that could not run or failed.
pub fn shell_command_error(label: &str, spawned: bool, detail: &str) -> (r: String)
    ensures
        r@ == if spawned {
            label@ + " command failed with status "@ + detail@
        } else {
            "failed to run "@ + label@ + " command: "@ + detail@
        },
{
    if spawned {
        let mut r = owned(label);
        push_str(&mut r, " command failed with status ");
        push_str(&mut r, detail);
        r
    } else {
        let mut r = owned("failed to run ");
        push_str(&mut r, label);
        push_str(&mut r, " command: ");
        push_str(&mut r, detail);
        r
    }
}

/// What went wrong with the settings file, for the log: `action` is what
/// failed (read, parse, write), `path` the file.
pub fn settings_file_error(action: &str, path: &str, error: &str) -> (r: String)
    ensures
        r@ == "failed to "@ + action@ + " system settings "@ + path@ + ": "@ + error@,
{
    let mut r = owned("failed to ");
    push_str(&mut r, action);
    push_str(&mut r, " system settings ");
    push_str(&mut r, path);
    push_str(&mut r, ": ");
    push_str(&mut r, error);
    r
}

} // verus!
