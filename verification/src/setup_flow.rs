use vstd::prelude::*;
use vstd::string::*;

use crate::controller::{ControllerProfile, ControllerStore};
use crate::controller_input::ControllerInputDeviceInfo;
use crate::controller_setup::{
    first_dualsense_from, template_actions, template_of_index, uses_all_devices_spec, ControllerSetupPhase,
    ControllerSetupState, SetupView,
};
use crate::text::{owned, push_str};

verus! {

broadcast use vstd::string::group_string_axioms;

/// Where the profiles are saved, as the status after a save says.
pub const SAVED_STATUS: &'static str = "Controller saved to /data/openconsole/controllers.json";

/// The setup that starts for template `template_index` among `devices`:
/// a fresh setup; for a DualSense just paired over Bluetooth (template 2,
/// with its address) the address is kept and the device choice skipped.
pub open spec fn begun_view(template_index: i32, devices: Seq<ControllerInputDeviceInfo>, address: Seq<char>, fresh: SetupView) -> SetupView {
    if template_index == 2 && address.len() > 0 {
        let with_address = SetupView { bluetooth: Some(address), ..fresh };
        if with_address.phase != ControllerSetupPhase::SelectDevice || !uses_all_devices_spec(with_address.template) {
            with_address
        } else {
            ControllerSetupState::start_mapping(SetupView {
                selected: match first_dualsense_from(with_address.devices, 0) {
                    Some(i) => i,
                    None => with_address.selected,
                },
                ..with_address
            })
        }
    } else {
        fresh
    }
}

/// A fresh setup of template `template_index` among `devices`.
pub open spec fn is_fresh(v: SetupView, template_index: i32, devices: Seq<ControllerInputDeviceInfo>) -> bool {
    &&& v.template == template_of_index(template_index)
    &&& v.phase == ControllerSetupPhase::SelectDevice
    &&& v.devices == devices
    &&& v.selected == 0
    &&& v.bluetooth is None
    &&& v.index == 0
    &&& !v.armed
    &&& v.token is None
    &&& v.hits == 0
    &&& !v.rotation_played
    &&& v.actions == template_actions(template_of_index(template_index))
    &&& forall|i: int| 0 <= i < v.tokens.len() ==> #[trigger] v.tokens[i] is None
}

/// Starts the setup of a controller of template `template_index` among
/// `devices`; `paired_bluetooth_address` is the DualSense just paired, or
/// empty.
pub fn begin_controller_setup(template_index: i32, devices: Vec<ControllerInputDeviceInfo>, paired_bluetooth_address: &str) -> (s: ControllerSetupState)
    ensures
        s.wf(),
        exists|fresh: SetupView| is_fresh(fresh, template_index, devices@)
            && s@ == begun_view(template_index, devices@, paired_bluetooth_address@, fresh),
{
    let ghost dv = devices@;
    let mut state = ControllerSetupState::new(template_index, devices);
    let ghost fresh = state@;
    if template_index == 2 && paired_bluetooth_address.unicode_len() > 0 {
        state.set_bluetooth_address(Some(owned(paired_bluetooth_address)));
        state.skip_device_selection_for_dualsense();
    }
    assert(is_fresh(fresh, template_index, dv));
    state
}

/// Why a finished setup cannot be saved, if it cannot: it was cancelled,
/// there is none, or its mapping is not complete.
pub open spec fn finalize_refusal(confirm: bool, setup: Option<SetupView>) -> Option<Seq<char>> {
    if !confirm {
        Some("Controller setup cancelled."@)
    } else {
        match setup {
            None => Some("No controller setup in progress."@),
            Some(v) => if v.phase != ControllerSetupPhase::Review {
                Some("Controller mapping is not complete."@)
            } else {
                None
            },
        }
    }
}

/// Checks that the setup can be saved; otherwise the status to show.
pub fn finalize_check(confirm: bool, setup: &Option<ControllerSetupState>) -> (r: Option<&'static str>)
    ensures
        match r {
            Some(m) => finalize_refusal(confirm, match *setup { Some(s) => Some(s@), None => None }) == Some(m@),
            None => finalize_refusal(confirm, match *setup { Some(s) => Some(s@), None => None }) is None,
        },
{
    if !confirm {
        return Some("Controller setup cancelled.");
    }
    match setup {
        None => Some("No controller setup in progress."),
        Some(s) => if !s.is_complete() {
            Some("Controller mapping is not complete.")
        } else {
            None
        },
    }
}

/// Adds the profile of a finished setup, stamped `timestamp`, to the store
/// and returns the position to select: the new profile, the last one.
pub fn add_profile_to_store(store: &mut ControllerStore, setup: &ControllerSetupState, timestamp: u64) -> (selected: usize)
    requires
        setup.wf(),
        old(store).controllers@.len() < usize::MAX - 1,
    ensures
        final(store).controllers@.len() == old(store).controllers@.len() + 1,
        final(store).controllers@.drop_last() == old(store).controllers@,
        setup.is_profile_at(final(store).controllers@.last(), old(store).controllers@.len() as nat, timestamp),
        selected == old(store).controllers@.len(),
{
    let n = store.controllers.len();
    let profile = setup.to_profile_at(n, timestamp);
    store.controllers.push(profile);
    assert(store.controllers@.drop_last() =~= old(store).controllers@);
    n
}

/// The status after an attempt to save the store.
pub fn save_status(result: &Result<(), String>) -> (r: String)
    ensures
        match *result {
            Ok(()) => r@ == SAVED_STATUS@,
            Err(e) => r@ == "Failed to save controller: "@ + e@,
        },
{
    match result {
        Ok(()) => owned(SAVED_STATUS),
        Err(e) => {
            let mut m = owned("Failed to save controller: ");
            push_str(&mut m, e.as_str());
            m
        },
    }
}

} // verus!
