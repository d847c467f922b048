use vstd::prelude::*;
use vstd::string::*;

use crate::controller::{mapping_insert, pair_keys, pair_views, pairs_map, ControllerProfile};
use crate::controller_input::{copy_device_info, ControllerInputDeviceInfo};
use crate::text::{
    after_last, all_digits, ascii_lower, before_first, chars_of, contains_chars, contains_seq,
    count_leading_digits, count_trailing_digits, decimal, find_first, find_in, has_prefix,
    is_digit, is_digit_char, join, join_strings, leading_digits, lower_chars, occurs_at, owned,
    push_chars, push_decimal, push_str, slice_from, slice_range, split_on, split_on_char,
    starts_with_chars, str_eq, string_of, strictly_sorted, trailing_digits, trim, trim_chars,
};

verus! {

broadcast use vstd::string::group_string_axioms;

/// The step the controller setup is at.
#[derive(Debug, Clone, Copy, PartialEq, Eq, Structural)]
pub enum ControllerSetupPhase {
    SelectDevice,
    MapControls,
    Review,
}

/// The kinds of controller that can be set up.
#[derive(Debug, Clone, Copy, PartialEq, Eq, Structural)]
pub enum ControllerTemplate {
    NesClassic,
    Snes,
    DualSense,
}

/// How many identical presses capture a control.
pub const PRESSES_PER_CONTROL: usize = 10;

/// The template chosen on the "add controller" screen (0, 1 or 2).
pub open spec fn template_of_index(index: i32) -> ControllerTemplate {
    if index == 1 {
        ControllerTemplate::Snes
    } else if index == 2 {
        ControllerTemplate::DualSense
    } else {
        ControllerTemplate::NesClassic
    }
}

/// Bluetooth controllers are chosen among all input devices, USB ones among
/// USB devices.
pub open spec fn uses_all_devices_spec(t: ControllerTemplate) -> bool {
    t == ControllerTemplate::DualSense
}

/// The identifier saved in a profile's `template` field.
pub open spec fn template_id_spec(t: ControllerTemplate) -> Seq<char> {
    match t {
        ControllerTemplate::NesClassic => "usb-nes-classic"@,
        ControllerTemplate::Snes => "usb-snes"@,
        ControllerTemplate::DualSense => "ps5-dualsense"@,
    }
}

/// The heading shown while mapping.
pub open spec fn template_title_spec(t: ControllerTemplate) -> Seq<char> {
    match t {
        ControllerTemplate::NesClassic => "NES USB Controller"@,
        ControllerTemplate::Snes => "SNES USB Controller"@,
        ControllerTemplate::DualSense => "PS5 DualSense Controller"@,
    }
}

/// The name a new profile gets.
pub open spec fn default_name_spec(t: ControllerTemplate, number: nat) -> Seq<char> {
    match t {
        ControllerTemplate::NesClassic => "NES Controller #"@ + decimal(number),
        ControllerTemplate::Snes => "SNES Controller #"@ + decimal(number),
        ControllerTemplate::DualSense => "DualSense Controller #"@ + decimal(number),
    }
}

/// The actions to map, in the order they are asked for.
pub open spec fn template_actions(t: ControllerTemplate) -> Seq<Seq<char>> {
    match t {
        ControllerTemplate::DualSense => seq![
            "Move Up"@,
            "Move Left"@,
            "Move Right"@,
            "Move Down"@,
            "Button Cross (Select / Jump)"@,
            "Button Circle (Back / Return)"@,
            "Button Square"@,
            "Button Triangle"@,
            "Button Create (Secondary)"@,
            "Button Options (Pause / Menu)"@,
            "Button Touchpad (Secondary)"@,
            "Button Mute"@,
            "Button L1"@,
            "Button L2"@,
            "Button R1"@,
            "Button R2"@,
        ],
        ControllerTemplate::NesClassic => seq![
            "Move Up"@,
            "Move Down"@,
            "Move Left"@,
            "Move Right"@,
            "Select (Secondary)"@,
            "Start (Pause / Menu)"@,
            "Button B (Back / Return)"@,
            "Button A (Jump / Select)"@,
        ],
        ControllerTemplate::Snes => seq![
            "Move Up"@,
            "Move Down"@,
            "Move Left"@,
            "Move Right"@,
            "Select (Secondary)"@,
            "Start (Pause / Menu)"@,
            "Top Left (Secondary Select)"@,
            "Top Right (Secondary Start)"@,
            "Button Y (Back / Return)"@,
            "Button X (Jump / Select)"@,
            "Button B (Back / Return)"@,
            "Button A (Jump / Select)"@,
        ],
    }
}

/// The prefix of the action that confirms on this template.
pub open spec fn confirm_prefix_spec(t: ControllerTemplate) -> Seq<char> {
    if t == ControllerTemplate::DualSense { "Button Cross"@ } else { "Button A"@ }
}

/// The prefix of the action that cancels on this template.
pub open spec fn cancel_prefix_spec(t: ControllerTemplate) -> Seq<char> {
    if t == ControllerTemplate::DualSense { "Button Circle"@ } else { "Button B"@ }
}

/// The artwork set of the template.
pub open spec fn artwork_set_spec(t: ControllerTemplate) -> Seq<char> {
    match t {
        ControllerTemplate::NesClassic => "nes"@,
        ControllerTemplate::Snes => "snes"@,
        ControllerTemplate::DualSense => "dualsense"@,
    }
}

impl ControllerTemplate {
    fn from_index(index: i32) -> (t: Self)
        ensures
            t == template_of_index(index),
    {
        if index == 1 {
            ControllerTemplate::Snes
        } else if index == 2 {
            ControllerTemplate::DualSense
        } else {
            ControllerTemplate::NesClassic
        }
    }

    fn uses_all_devices(self) -> (r: bool)
        ensures
            r == uses_all_devices_spec(self),
    {
        match self {
            ControllerTemplate::DualSense => true,
            _ => false,
        }
    }

    fn id(self) -> (r: &'static str)
        ensures
            r@ == template_id_spec(self),
    {
        match self {
            ControllerTemplate::NesClassic => "usb-nes-classic",
            ControllerTemplate::Snes => "usb-snes",
            ControllerTemplate::DualSense => "ps5-dualsense",
        }
    }

    fn title(self) -> (r: &'static str)
        ensures
            r@ == template_title_spec(self),
    {
        match self {
            ControllerTemplate::NesClassic => "NES USB Controller",
            ControllerTemplate::Snes => "SNES USB Controller",
            ControllerTemplate::DualSense => "PS5 DualSense Controller",
        }
    }

    fn default_name(self, number: usize) -> (r: String)
        ensures
            r@ == default_name_spec(self, number as nat),
    {
        let mut s = match self {
            ControllerTemplate::NesClassic => owned("NES Controller #"),
            ControllerTemplate::Snes => owned("SNES Controller #"),
            ControllerTemplate::DualSense => owned("DualSense Controller #"),
        };
        push_decimal(&mut s, number as u64);
        s
    }

    fn actions(self) -> (r: Vec<String>)
        ensures
            r@.map_values(|s: String| s@) == template_actions(self),
    {
        let labels: Vec<&'static str> = match self {
            ControllerTemplate::DualSense => vec![
                "Move Up",
                "Move Left",
                "Move Right",
                "Move Down",
                "Button Cross (Select / Jump)",
                "Button Circle (Back / Return)",
                "Button Square",
                "Button Triangle",
                "Button Create (Secondary)",
                "Button Options (Pause / Menu)",
                "Button Touchpad (Secondary)",
                "Button Mute",
                "Button L1",
                "Button L2",
                "Button R1",
                "Button R2",
            ],
            ControllerTemplate::NesClassic => vec![
                "Move Up",
                "Move Down",
                "Move Left",
                "Move Right",
                "Select (Secondary)",
                "Start (Pause / Menu)",
                "Button B (Back / Return)",
                "Button A (Jump / Select)",
            ],
            ControllerTemplate::Snes => vec![
                "Move Up",
                "Move Down",
                "Move Left",
                "Move Right",
                "Select (Secondary)",
                "Start (Pause / Menu)",
                "Top Left (Secondary Select)",
                "Top Right (Secondary Start)",
                "Button Y (Back / Return)",
                "Button X (Jump / Select)",
                "Button B (Back / Return)",
                "Button A (Jump / Select)",
            ],
        };
        let mut r: Vec<String> = Vec::new();
        let mut i: usize = 0;
        while i < labels.len()
            invariant
                i <= labels.len(),
                r@.len() == i,
                forall|k: int| 0 <= k < i ==> #[trigger] r@[k]@ == labels@[k]@,
            decreases labels.len() - i,
        {
            r.push(owned(labels[i]));
            i = i + 1;
        }
        proof {
            assert(r@.map_values(|s: String| s@) =~= labels@.map_values(|s: &'static str| s@));
        }
        r
    }

    fn confirm_action_prefix(self) -> (r: &'static str)
        ensures
            r@ == confirm_prefix_spec(self),
    {
        match self {
            ControllerTemplate::DualSense => "Button Cross",
            _ => "Button A",
        }
    }

    fn cancel_action_prefix(self) -> (r: &'static str)
        ensures
            r@ == cancel_prefix_spec(self),
    {
        match self {
            ControllerTemplate::DualSense => "Button Circle",
            _ => "Button B",
        }
    }
}

/// Whether the template chosen by `template_index` picks its device among all
/// input devices (Bluetooth) rather than among USB devices.
pub fn template_uses_all_devices(template_index: i32) -> (r: bool)
    ensures
        r == uses_all_devices_spec(template_of_index(template_index)),
{
    ControllerTemplate::from_index(template_index).uses_all_devices()
}

/// The state of the controller setup screens: device choice, then one
/// control after the other is captured by pressing it ten times, then review.
#[derive(Debug, Clone)]
pub struct ControllerSetupState {
    template: ControllerTemplate,
    phase: ControllerSetupPhase,
    devices: Vec<ControllerInputDeviceInfo>,
    selected_device_index: usize,
    bluetooth_address: Option<String>,
    index: usize,
    armed: bool,
    current_token: Option<String>,
    current_hits: usize,
    rotation_played: bool,
    mappings: Vec<(String, Option<String>)>,
}

/// The view of an optional string.
pub open spec fn opt_view(o: Option<String>) -> Option<Seq<char>> {
    match o {
        Some(s) => Some(s@),
        None => None,
    }
}

/// The abstract state of a controller setup.
#[verifier::ext_equal]
pub struct SetupView {
    pub template: ControllerTemplate,
    pub phase: ControllerSetupPhase,
    pub devices: Seq<ControllerInputDeviceInfo>,
    pub selected: nat,
    pub bluetooth: Option<Seq<char>>,
    /// Position of the control being captured.
    pub index: nat,
    pub armed: bool,
    pub token: Option<Seq<char>>,
    pub hits: nat,
    pub rotation_played: bool,
    /// The action labels, in the order they are asked for.
    pub actions: Seq<Seq<char>>,
    /// The captured token of each action, if any.
    pub tokens: Seq<Option<Seq<char>>>,
}

impl View for ControllerSetupState {
    type V = SetupView;

    closed spec fn view(&self) -> SetupView {
        SetupView {
            template: self.template,
            phase: self.phase,
            devices: self.devices@,
            selected: self.selected_device_index as nat,
            bluetooth: opt_view(self.bluetooth_address),
            index: self.index as nat,
            armed: self.armed,
            token: opt_view(self.current_token),
            hits: self.current_hits as nat,
            rotation_played: self.rotation_played,
            actions: self.mappings@.map_values(|m: (String, Option<String>)| m.0@),
            tokens: self.mappings@.map_values(|m: (String, Option<String>)| opt_view(m.1)),
        }
    }
}

impl ControllerSetupState {
    /// The state is consistent.
    pub closed spec fn wf(&self) -> bool {
        &&& self@.actions == template_actions(self.template)
        &&& self.index <= self.mappings@.len()
        &&& self.phase == ControllerSetupPhase::MapControls ==> self.index < self.mappings@.len()
        &&& self.phase == ControllerSetupPhase::Review ==> self.index == self.mappings@.len()
        &&& self.phase == ControllerSetupPhase::SelectDevice ==> self.index == 0
        &&& self.current_hits < PRESSES_PER_CONTROL
        &&& (self.selected_device_index < self.devices@.len() || self.selected_device_index == 0)
    }

    /// A consistent state shows a consistent view.
    pub proof fn lemma_wf_view(&self)
        requires
            self.wf(),
        ensures
            setup_view_ok(self@),
    {
        assert(self@.tokens.len() == self.mappings@.len());
    }
}

/// The action asked for in view `v`, while controls are mapped.
pub open spec fn asked_action(v: SetupView) -> Option<Seq<char>> {
    if v.phase == ControllerSetupPhase::MapControls && v.index < v.actions.len() {
        Some(v.actions[v.index as int])
    } else {
        None
    }
}

/// What holds of the view of every consistent setup state: the actions are
/// those of the template, each has one token slot, the position and the phase
/// agree, fewer than ten presses are counted, and the chosen device exists
/// (or the choice is the first of none).
pub open spec fn setup_view_ok(v: SetupView) -> bool {
    &&& v.actions == template_actions(v.template)
    &&& v.tokens.len() == v.actions.len()
    &&& v.index <= v.actions.len()
    &&& v.phase == ControllerSetupPhase::MapControls ==> v.index < v.actions.len()
    &&& v.phase == ControllerSetupPhase::Review ==> v.index == v.actions.len()
    &&& v.phase == ControllerSetupPhase::SelectDevice ==> v.index == 0
    &&& v.hits < PRESSES_PER_CONTROL
    &&& (v.selected < v.devices.len() || v.selected == 0)
}

} // verus!

verus! {

impl ControllerSetupState {
    /// The action being captured, while controls are being mapped.
    pub open spec fn current_action_spec(&self) -> Option<Seq<char>> {
        asked_action(self@)
    }

    /// The setup for template `template_index`, choosing among `devices`.
    pub fn new(template_index: i32, devices: Vec<ControllerInputDeviceInfo>) -> (s: Self)
        ensures
            s.wf(),
            setup_view_ok(s@),
            s@.template == template_of_index(template_index),
            s@.phase == ControllerSetupPhase::SelectDevice,
            s@.devices == devices@,
            s@.selected == 0,
            s@.bluetooth is None,
            s@.index == 0,
            !s@.armed,
            s@.token is None,
            s@.hits == 0,
            !s@.rotation_played,
            s@.actions == template_actions(template_of_index(template_index)),
            s@.tokens.len() == s@.actions.len(),
            forall|i: int| 0 <= i < s@.tokens.len() ==> #[trigger] s@.tokens[i] is None,
    {
        let template = ControllerTemplate::from_index(template_index);
        let actions = template.actions();
        let mut mappings: Vec<(String, Option<String>)> = Vec::new();
        let mut i: usize = 0;
        while i < actions.len()
            invariant
                i <= actions.len(),
                mappings@.len() == i,
                forall|k: int| 0 <= k < i ==> #[trigger] mappings@[k].0@ == actions@[k]@ && mappings@[k].1 is None,
            decreases actions.len() - i,
        {
            mappings.push((actions[i].clone(), None));
            i = i + 1;
        }
        let s = ControllerSetupState {
            template,
            phase: ControllerSetupPhase::SelectDevice,
            devices,
            selected_device_index: 0,
            bluetooth_address: None,
            index: 0,
            armed: false,
            current_token: None,
            current_hits: 0,
            rotation_played: false,
            mappings,
        };
        proof {
            assert(s@.actions =~= actions@.map_values(|x: String| x@));
        }
        s
    }

    /// The heading of the setup screen.
    pub fn title(&self) -> (r: String)
        ensures
            r@ == (if self@.phase == ControllerSetupPhase::SelectDevice {
                if uses_all_devices_spec(self@.template) {
                    "Select Bluetooth Controller Device"@
                } else {
                    "Select USB Controller Device"@
                }
            } else {
                template_title_spec(self@.template)
            }),
    {
        match self.phase {
            ControllerSetupPhase::SelectDevice => {
                if self.template.uses_all_devices() {
                    owned("Select Bluetooth Controller Device")
                } else {
                    owned("Select USB Controller Device")
                }
            },
            _ => owned(self.template.title()),
        }
    }

    /// All controls are captured.
    pub fn is_complete(&self) -> (r: bool)
        ensures
            r == (self@.phase == ControllerSetupPhase::Review),
    {
        self.phase == ControllerSetupPhase::Review
    }

    /// Arms the capture of the next control.
    pub fn arm_next(&mut self)
        requires
            old(self).wf(),
        ensures
            final(self).wf(),
            final(self)@ == Self::arm_view(old(self)@),
    {
        if self.phase == ControllerSetupPhase::MapControls && !self.is_complete() {
            self.armed = true;
        }
    }

    /// The capture is armed.
    pub fn is_armed(&self) -> (r: bool)
        ensures
            r == self@.armed,
    {
        self.armed
    }

    /// The action being captured, while controls are being mapped.
    pub fn current_action(&self) -> (r: Option<String>)
        ensures
            opt_view(r) == self.current_action_spec(),
    {
        if self.phase != ControllerSetupPhase::MapControls || self.index >= self.mappings.len() {
            None
        } else {
            Some(self.mappings[self.index].0.clone())
        }
    }

    /// The frame of the controller artwork: the last rotation frame once the
    /// DualSense rotation has played, else the first.
    pub fn artwork_stage(&self) -> (r: i32)
        ensures
            r == (if uses_all_devices_spec(self@.template) && self@.rotation_played { 18i32 } else { 0i32 }),
    {
        if self.template.uses_all_devices() && self.rotation_played {
            18
        } else {
            0
        }
    }

    /// The DualSense artwork should rotate now: L1 is the next control and the
    /// rotation has not played yet.
    pub fn should_play_rotation_animation(&self) -> (r: bool)
        ensures
            r == (uses_all_devices_spec(self@.template)
                && self@.phase == ControllerSetupPhase::MapControls
                && !self@.rotation_played
                && self.current_action_spec() == Some("Button L1"@)),
    {
        if !(self.template.uses_all_devices() && self.phase == ControllerSetupPhase::MapControls && !self.rotation_played) {
            return false;
        }
        match self.current_action() {
            Some(a) => crate::text::str_eq(a.as_str(), "Button L1"),
            None => false,
        }
    }

    /// Records that the rotation has played.
    pub fn mark_rotation_played(&mut self)
        requires
            old(self).wf(),
        ensures
            final(self).wf(),
            final(self)@ == Self::rotation_view(old(self)@),
    {
        self.rotation_played = true;
    }

    /// The rotation has played.
    pub fn has_played_rotation(&self) -> (r: bool)
        ensures
            r == self@.rotation_played,
    {
        self.rotation_played
    }

    /// The device is still being chosen.
    pub fn is_device_selection(&self) -> (r: bool)
        ensures
            r == (self@.phase == ControllerSetupPhase::SelectDevice),
    {
        self.phase == ControllerSetupPhase::SelectDevice
    }

    /// Controls are being captured.
    pub fn is_mapping_controls(&self) -> (r: bool)
        ensures
            r == (self@.phase == ControllerSetupPhase::MapControls),
    {
        self.phase == ControllerSetupPhase::MapControls
    }

    /// Position of the chosen device.
    pub fn selected_device_index(&self) -> (r: usize)
        ensures
            r == self@.selected,
    {
        self.selected_device_index
    }

    /// Number of devices to choose from.
    pub fn device_count(&self) -> (r: usize)
        ensures
            r == self@.devices.len(),
    {
        self.devices.len()
    }

    /// The action prefix that confirms on this template.
    pub fn confirm_action_prefix(&self) -> (r: &'static str)
        ensures
            r@ == confirm_prefix_spec(self@.template),
    {
        self.template.confirm_action_prefix()
    }

    /// The action prefix that cancels on this template.
    pub fn cancel_action_prefix(&self) -> (r: &'static str)
        ensures
            r@ == cancel_prefix_spec(self@.template),
    {
        self.template.cancel_action_prefix()
    }

    /// Remembers the Bluetooth address of the controller being set up.
    pub fn set_bluetooth_address(&mut self, bluetooth_address: Option<String>)
        requires
            old(self).wf(),
        ensures
            final(self).wf(),
            final(self)@ == Self::bluetooth_view(old(self)@, opt_view(bluetooth_address)),
    {
        self.bluetooth_address = bluetooth_address;
    }

    /// The artwork set of the template.
    pub fn artwork_set(&self) -> (r: &'static str)
        ensures
            r@ == artwork_set_spec(self@.template),
    {
        match self.template {
            ControllerTemplate::NesClassic => "nes",
            ControllerTemplate::Snes => "snes",
            ControllerTemplate::DualSense => "dualsense",
        }
    }

    /// Presses of the current control so far, at most ten.
    pub fn current_press_count(&self) -> (r: usize)
        ensures
            r == (if self@.hits < 10 { self@.hits } else { 10 }),
    {
        if self.current_hits < PRESSES_PER_CONTROL {
            self.current_hits
        } else {
            PRESSES_PER_CONTROL
        }
    }

    /// Progress of the current control in percent (100 once all are done).
    pub fn current_progress_percent(&self) -> (r: i32)
        ensures
            r == progress_percent_of(self@),
    {
        if self.is_complete() {
            return 100;
        }
        (self.current_press_count() as i32) * 10
    }

    /// Chooses the previous device, wrapping around.
    pub fn select_previous_device(&mut self)
        requires
            old(self).wf(),
        ensures
            final(self).wf(),
            final(self)@ == Self::previous_device_view(old(self)@),
    {
        if self.phase != ControllerSetupPhase::SelectDevice || self.devices.len() == 0 {
            return;
        }
        if self.selected_device_index == 0 {
            self.selected_device_index = self.devices.len() - 1;
        } else {
            self.selected_device_index = self.selected_device_index - 1;
        }
    }

    /// Chooses the next device, wrapping around.
    pub fn select_next_device(&mut self)
        requires
            old(self).wf(),
        ensures
            final(self).wf(),
            final(self)@ == Self::next_device_view(old(self)@),
    {
        if self.phase != ControllerSetupPhase::SelectDevice || self.devices.len() == 0 {
            return;
        }
        self.selected_device_index = (self.selected_device_index + 1) % self.devices.len();
    }

    /// The chosen device, if there is one.
    pub fn selected_device_info(&self) -> (r: Option<&ControllerInputDeviceInfo>)
        ensures
            r == (if self@.selected < self@.devices.len() {
                Some(&self@.devices[self@.selected as int])
            } else {
                None
            }),
    {
        if self.selected_device_index < self.devices.len() {
            Some(&self.devices[self.selected_device_index])
        } else {
            None
        }
    }

    /// The unique id of the chosen device.
    pub fn selected_device_id(&self) -> (r: Option<String>)
        ensures
            opt_view(r) == (if self@.selected < self@.devices.len() {
                Some(self@.devices[self@.selected as int].unique_id@)
            } else {
                None
            }),
    {
        match self.selected_device_info() {
            Some(d) => Some(d.unique_id.clone()),
            None => None,
        }
    }

    /// The name of the chosen device.
    pub fn selected_device_name(&self) -> (r: Option<String>)
        ensures
            opt_view(r) == (if self@.selected < self@.devices.len() {
                Some(self@.devices[self@.selected as int].name@)
            } else {
                None
            }),
    {
        match self.selected_device_info() {
            Some(d) => Some(d.name.clone()),
            None => None,
        }
    }
}

} // verus!

verus! {

/// The name marks a DualSense controller.
pub open spec fn is_dualsense_name(name: Seq<char>) -> bool {
    contains_seq(ascii_lower(name), "dualsense"@) || contains_seq(ascii_lower(name), "wireless controller"@)
}

/// The first device at or after `i` whose name marks a DualSense controller.
pub open spec fn first_dualsense_from(devices: Seq<ControllerInputDeviceInfo>, i: nat) -> Option<nat>
    decreases devices.len() - i,
{
    if i >= devices.len() {
        None
    } else if is_dualsense_name(devices[i as int].name@) {
        Some(i)
    } else {
        first_dualsense_from(devices, i + 1)
    }
}

/// Progress of the current control in percent: 100 once all controls are
/// done, else ten per press counted (at most 100).
pub open spec fn progress_percent_of(v: SetupView) -> int {
    if v.phase == ControllerSetupPhase::Review {
        100
    } else if v.hits < 10 {
        (v.hits * 10) as int
    } else {
        100
    }
}

/// Number of actions with a captured token.
pub open spec fn count_captured(tokens: Seq<Option<Seq<char>>>) -> nat
    decreases tokens.len(),
{
    if tokens.len() == 0 {
        0
    } else {
        count_captured(tokens.drop_last()) + if tokens.last() is Some { 1nat } else { 0nat }
    }
}

/// The token of the first action at or after `i` that begins with `prefix`
/// and has a token.
pub open spec fn first_token_with_prefix(
    actions: Seq<Seq<char>>,
    tokens: Seq<Option<Seq<char>>>,
    prefix: Seq<char>,
    i: nat,
) -> Option<Seq<char>>
    decreases actions.len() - i,
{
    if i >= actions.len() || i >= tokens.len() {
        None
    } else if has_prefix(actions[i as int], prefix) && tokens[i as int] is Some {
        tokens[i as int]
    } else {
        first_token_with_prefix(actions, tokens, prefix, i + 1)
    }
}

/// The captured tokens as a map from action label to token.
pub open spec fn captured_map(actions: Seq<Seq<char>>, tokens: Seq<Option<Seq<char>>>) -> Map<Seq<char>, Seq<char>>
    decreases actions.len(),
{
    if actions.len() == 0 || tokens.len() != actions.len() {
        Map::empty()
    } else {
        let rest = captured_map(actions.drop_last(), tokens.drop_last());
        match tokens.last() {
            Some(t) => rest.insert(actions.last(), t),
            None => rest,
        }
    }
}

impl ControllerSetupState {
    /// The state after the device choice: capturing the first control.
    pub open spec fn start_mapping(v: SetupView) -> SetupView {
        SetupView { phase: ControllerSetupPhase::MapControls, index: 0, armed: true, token: None, hits: 0, ..v }
    }

    /// The state after arming: armed while controls are mapped.
    pub open spec fn arm_view(v: SetupView) -> SetupView {
        if v.phase == ControllerSetupPhase::MapControls {
            SetupView { armed: true, ..v }
        } else {
            v
        }
    }

    /// The state once the rotation has played.
    pub open spec fn rotation_view(v: SetupView) -> SetupView {
        SetupView { rotation_played: true, ..v }
    }

    /// The state with Bluetooth address `b`.
    pub open spec fn bluetooth_view(v: SetupView, b: Option<Seq<char>>) -> SetupView {
        SetupView { bluetooth: b, ..v }
    }

    /// The state after confirming the chosen device: mapping starts when a
    /// device is chosen during the device choice.
    pub open spec fn confirm_view(v: SetupView) -> SetupView {
        if v.phase == ControllerSetupPhase::SelectDevice && v.selected < v.devices.len() {
            Self::start_mapping(v)
        } else {
            v
        }
    }

    /// The state after skipping the device choice for a DualSense: the first
    /// DualSense-looking device is chosen and mapping starts.
    pub open spec fn skip_selection_view(v: SetupView) -> SetupView {
        if v.phase != ControllerSetupPhase::SelectDevice || !uses_all_devices_spec(v.template) {
            v
        } else {
            Self::start_mapping(SetupView {
                selected: match first_dualsense_from(v.devices, 0) {
                    Some(i) => i,
                    None => v.selected,
                },
                ..v
            })
        }
    }

    /// The state after recording `key` for the armed current control.
    pub open spec fn record_key_view(v: SetupView, key: Seq<char>) -> SetupView {
        if v.phase != ControllerSetupPhase::MapControls || !v.armed {
            v
        } else {
            Self::advance(v, Some(key), false)
        }
    }

    /// The state after recording or skipping the current control.
    pub open spec fn record_or_skip_view(v: SetupView, key: Option<Seq<char>>) -> SetupView {
        if v.phase != ControllerSetupPhase::MapControls {
            v
        } else {
            Self::advance(v, key, false)
        }
    }

    /// The state after the current control got `token` (or was skipped).
    pub open spec fn advance(v: SetupView, token: Option<Seq<char>>, armed: bool) -> SetupView {
        SetupView {
            tokens: v.tokens.update(v.index as int, token),
            index: v.index + 1,
            armed,
            phase: if v.index + 1 >= v.actions.len() {
                ControllerSetupPhase::Review
            } else {
                ControllerSetupPhase::MapControls
            },
            ..v
        }
    }

    /// The state after one press of `token` while controls are mapped: the
    /// count of identical presses in a row goes up, and the tenth captures
    /// the token for the current control.
    pub open spec fn press_view(v: SetupView, token: Seq<char>) -> SetupView {
        let hits = if v.token == Some(token) { v.hits + 1 } else { 1 };
        if v.phase != ControllerSetupPhase::MapControls {
            v
        } else if hits < PRESSES_PER_CONTROL {
            SetupView { token: Some(token), hits, ..v }
        } else {
            SetupView { token: None, hits: 0, ..Self::advance(v, Some(token), true) }
        }
    }

    /// The state after `n` presses of `token`.
    pub open spec fn presses(v: SetupView, token: Seq<char>, n: nat) -> SetupView
        decreases n,
    {
        if n == 0 {
            v
        } else {
            Self::press_view(Self::presses(v, token, (n - 1) as nat), token)
        }
    }

    /// The device after the chosen one, wrapping around.
    pub open spec fn next_device_view(v: SetupView) -> SetupView {
        if v.phase != ControllerSetupPhase::SelectDevice || v.devices.len() == 0 {
            v
        } else {
            SetupView { selected: (v.selected + 1) % v.devices.len(), ..v }
        }
    }

    /// The device before the chosen one, wrapping around.
    pub open spec fn previous_device_view(v: SetupView) -> SetupView {
        if v.phase != ControllerSetupPhase::SelectDevice || v.devices.len() == 0 {
            v
        } else if v.selected == 0 {
            SetupView { selected: (v.devices.len() - 1) as nat, ..v }
        } else {
            SetupView { selected: (v.selected - 1) as nat, ..v }
        }
    }

    proof fn lemma_view_lens(&self)
        requires
            self.wf(),
        ensures
            self@.actions.len() == self.mappings@.len(),
            self@.tokens.len() == self.mappings@.len(),
            self@.actions.len() == template_actions(self@.template).len(),
    {
    }

    /// Confirms the chosen device and starts capturing controls.
    pub fn confirm_selected_device(&mut self) -> (r: Option<ControllerInputDeviceInfo>)
        requires
            old(self).wf(),
        ensures
            final(self).wf(),
            r == (if old(self)@.selected < old(self)@.devices.len() {
                Some(old(self)@.devices[old(self)@.selected as int])
            } else {
                None::<ControllerInputDeviceInfo>
            }),
            final(self)@ == Self::confirm_view(old(self)@),
    {
        let selected = match self.selected_device_info() {
            Some(d) => Some(copy_device_info(d)),
            None => None,
        };
        if self.phase != ControllerSetupPhase::SelectDevice {
            return selected;
        }
        if selected.is_none() {
            return None;
        }
        self.phase = ControllerSetupPhase::MapControls;
        self.index = 0;
        self.armed = true;
        self.current_token = None;
        self.current_hits = 0;
        proof {
            assert(template_actions(self.template).len() > 0);
        }
        selected
    }

    /// Position of the first device whose name marks a DualSense controller.
    fn first_dualsense_index(&self) -> (r: Option<usize>)
        ensures
            r matches Some(i) ==> i < self@.devices.len() && first_dualsense_from(self@.devices, 0) == Some(i as nat),
            r is None ==> first_dualsense_from(self@.devices, 0) is None,
    {
        let mut i: usize = 0;
        while i < self.devices.len()
            invariant
                i <= self.devices.len(),
                self@.devices == self.devices@,
                first_dualsense_from(self@.devices, 0) == first_dualsense_from(self@.devices, i as nat),
            decreases self.devices.len() - i,
        {
            let name = chars_of(self.devices[i].name.as_str());
            let lower = lower_chars(&name);
            let d = chars_of("dualsense");
            let w = chars_of("wireless controller");
            if contains_chars(&lower, &d) || contains_chars(&lower, &w) {
                return Some(i);
            }
            i = i + 1;
        }
        None
    }

    /// For a Bluetooth controller that was just paired: chooses the first
    /// DualSense-looking device (if any) and starts capturing controls.
    pub fn skip_device_selection_for_dualsense(&mut self)
        requires
            old(self).wf(),
        ensures
            final(self).wf(),
            final(self)@ == Self::skip_selection_view(old(self)@),
    {
        if self.phase != ControllerSetupPhase::SelectDevice || !self.template.uses_all_devices() {
            return;
        }
        let found = self.first_dualsense_index();
        if let Some(index) = found {
            self.selected_device_index = index;
        }
        self.phase = ControllerSetupPhase::MapControls;
        self.index = 0;
        self.armed = true;
        self.current_token = None;
        self.current_hits = 0;
        proof {
            assert(template_actions(self.template).len() > 0);
        }
    }

    /// Stores `token` for the current control and moves to the next one.
    fn store_and_advance(&mut self, token: Option<String>, armed: bool)
        requires
            old(self).wf(),
            old(self)@.phase == ControllerSetupPhase::MapControls,
        ensures
            final(self).wf(),
            final(self)@ == Self::advance(SetupView { token: final(self)@.token, hits: final(self)@.hits, ..old(self)@ }, opt_view(token), armed),
            final(self)@.token == old(self)@.token,
            final(self)@.hits == old(self)@.hits,
    {
        let label = self.mappings[self.index].0.clone();
        self.mappings.set(self.index, (label, token));
        self.index = self.index + 1;
        self.armed = armed;
        if self.index >= self.mappings.len() {
            self.phase = ControllerSetupPhase::Review;
        }
        proof {
            let ov = old(self)@;
            assert(self@.actions =~= ov.actions);
            assert(self@.tokens =~= ov.tokens.update(ov.index as int, opt_view(token)));
        }
    }

    /// Records `key` for the armed current control.
    pub fn record_key(&mut self, key: String)
        requires
            old(self).wf(),
        ensures
            final(self).wf(),
            final(self)@ == Self::record_key_view(old(self)@, key@),
    {
        if self.phase != ControllerSetupPhase::MapControls || !self.armed || self.is_complete() {
            return;
        }
        self.store_and_advance(Some(key), false);
    }

    /// Records `key` for the current control, or leaves it unset when `key`
    /// is `None`, and moves on.
    pub fn record_or_skip_current(&mut self, key: Option<String>)
        requires
            old(self).wf(),
        ensures
            final(self).wf(),
            final(self)@ == Self::record_or_skip_view(old(self)@, opt_view(key)),
    {
        if self.phase != ControllerSetupPhase::MapControls || self.is_complete() {
            return;
        }
        self.store_and_advance(key, false);
    }

    /// Counts a press of `token` for the current control. The tenth press of
    /// the same token in a row captures it and moves to the next control.
    /// Returns true when that completed the last control.
    pub fn register_mapping_press(&mut self, token: &str) -> (finished: bool)
        requires
            old(self).wf(),
        ensures
            final(self).wf(),
            final(self)@ == Self::press_view(old(self)@, token@),
            finished == (old(self)@.phase == ControllerSetupPhase::MapControls
                && final(self)@.phase == ControllerSetupPhase::Review),
    {
        if self.phase != ControllerSetupPhase::MapControls || self.is_complete() {
            return false;
        }
        let same = match &self.current_token {
            Some(t) => crate::text::str_eq(t.as_str(), token),
            None => false,
        };
        let hits = if same { self.current_hits + 1 } else { 1 };
        if hits < PRESSES_PER_CONTROL {
            self.current_token = Some(owned(token));
            self.current_hits = hits;
            return false;
        }
        self.store_and_advance(Some(owned(token)), true);
        self.current_token = None;
        self.current_hits = 0;
        self.phase == ControllerSetupPhase::Review
    }

    /// The token of the first captured action whose label begins with
    /// `prefix`.
    pub fn mapped_token_for_action_prefix(&self, prefix: &str) -> (r: Option<String>)
        requires
            self.wf(),
        ensures
            opt_view(r) == first_token_with_prefix(self@.actions, self@.tokens, prefix@, 0),
    {
        let p = chars_of(prefix);
        let mut i: usize = 0;
        while i < self.mappings.len()
            invariant
                i <= self.mappings.len(),
                self@.actions.len() == self.mappings@.len(),
                self@.tokens.len() == self.mappings@.len(),
                p@ == prefix@,
                first_token_with_prefix(self@.actions, self@.tokens, p@, 0)
                    == first_token_with_prefix(self@.actions, self@.tokens, p@, i as nat),
            decreases self.mappings.len() - i,
        {
            let a = chars_of(self.mappings[i].0.as_str());
            proof {
                assert(self@.actions[i as int] == self.mappings@[i as int].0@);
                assert(self@.tokens[i as int] == opt_view(self.mappings@[i as int].1));
                assert(a@ == self.mappings@[i as int].0@);
                assert(p@ == prefix@);
            }
            if starts_with_chars(&a, &p) {
                if let Some(t) = &self.mappings[i].1 {
                    let r = t.clone();
                    proof {
                        assert(self@.tokens[i as int] == Some(r@));
                        assert(has_prefix(self@.actions[i as int], prefix@));
                        assert(first_token_with_prefix(self@.actions, self@.tokens, p@, i as nat) == Some(r@));
                    }
                    return Some(r);
                }
            }
            i = i + 1;
        }
        None
    }

    /// Number of actions with a captured token.
    fn completed_count(&self) -> (n: usize)
        requires
            self.wf(),
        ensures
            n == count_captured(self@.tokens),
    {
        let mut n: usize = 0;
        let mut i: usize = 0;
        while i < self.mappings.len()
            invariant
                i <= self.mappings.len(),
                self@.tokens.len() == self.mappings@.len(),
                n == count_captured(self@.tokens.take(i as int)),
                n <= i,
            decreases self.mappings.len() - i,
        {
            proof {
                assert(self@.tokens.take(i + 1).drop_last() == self@.tokens.take(i as int));
                assert(self@.tokens[i as int] == opt_view(self.mappings@[i as int].1));
            }
            if self.mappings[i].1.is_some() {
                n = n + 1;
            }
            i = i + 1;
        }
        proof {
            assert(self@.tokens.take(self.mappings@.len() as int) == self@.tokens);
        }
        n
    }
}

} // verus!

verus! {

/// A character that may appear in a USB port path (`1.2`).
pub open spec fn is_port_char(c: char) -> bool {
    is_digit(c) || c == '.' || c == '-'
}

/// Every character of `s` may appear in a USB port path.
pub open spec fn all_port_chars(s: Seq<char>) -> bool {
    forall|i: int| 0 <= i < s.len() ==> is_port_char(#[trigger] s[i])
}

/// The USB port in a physical path such as `usb-0000:00:14.0-1.2/input0`:
/// after the first `usb-` (in any case) and up to the next `/`, the part
/// after the last `-`, trimmed; only when it is made of digits, dots and
/// dashes.
pub open spec fn usb_port_of(path: Seq<char>) -> Option<Seq<char>> {
    match find_first(ascii_lower(path), "usb-"@) {
        None => None,
        Some(start) => {
            let segment = split_on(path.skip(start + 4int), '/')[0];
            let candidate = trim(split_on(segment, '-').last());
            if candidate.len() == 0 || !all_port_chars(candidate) {
                None
            } else {
                Some(candidate)
            }
        },
    }
}

/// The digits right after the first `marker` in `text`, when there are any.
pub open spec fn digits_after(text: Seq<char>, marker: Seq<char>) -> Option<Seq<char>> {
    match find_first(text, marker) {
        None => None,
        Some(start) => {
            let tail = text.skip(start + marker.len() as int);
            if leading_digits(tail) == 0 {
                None
            } else {
                Some(tail.take(leading_digits(tail) as int))
            }
        },
    }
}

/// The instance number in `text`: the digits after `instance:`, else after
/// `instance `, else after `index `.
pub open spec fn instance_id_of(text: Seq<char>) -> Option<Seq<char>> {
    if digits_after(text, "instance:"@) is Some {
        digits_after(text, "instance:"@)
    } else if digits_after(text, "instance "@) is Some {
        digits_after(text, "instance "@)
    } else {
        digits_after(text, "index "@)
    }
}

/// The decimal digits that end `text`, when there are any.
pub open spec fn numeric_suffix_of(text: Seq<char>) -> Option<Seq<char>> {
    if trailing_digits(text) == 0 {
        None
    } else {
        Some(text.skip(text.len() - trailing_digits(text)))
    }
}

/// Where a device is plugged in, as the device list shows it.
pub open spec fn port_hint_of(d: ControllerInputDeviceInfo) -> Option<Seq<char>> {
    if usb_port_of(d.physical_path@) is Some {
        Some("USB port "@ + usb_port_of(d.physical_path@)->0)
    } else if numeric_suffix_of(d.event_node@) is Some {
        Some("USB ID "@ + numeric_suffix_of(d.event_node@)->0)
    } else if instance_id_of(d.physical_path@) is Some {
        Some("USB ID "@ + instance_id_of(d.physical_path@)->0)
    } else if instance_id_of(d.unique_id@) is Some {
        Some("USB ID "@ + instance_id_of(d.unique_id@)->0)
    } else {
        None
    }
}

/// The label of a device in the device list: its trimmed name (or
/// `Controller`), then ` - ` and the port hint when there is one.
pub open spec fn device_label_of(d: ControllerInputDeviceInfo) -> Seq<char> {
    let name = trim(d.name@);
    let base = if name.len() == 0 { "Controller"@ } else { name };
    match port_hint_of(d) {
        Some(hint) => base + " - "@ + hint,
        None => base,
    }
}

/// The view of an optional character vector.
pub open spec fn opt_chars(o: Option<Vec<char>>) -> Option<Seq<char>> {
    match o {
        Some(v) => Some(v@),
        None => None,
    }
}

fn all_port_chars_exec(s: &[char]) -> (r: bool)
    ensures
        r == all_port_chars(s@),
{
    let mut i: usize = 0;
    while i < s.len()
        invariant
            i <= s.len(),
            forall|j: int| 0 <= j < i ==> is_port_char(#[trigger] s@[j]),
        decreases s.len() - i,
    {
        let c = s[i];
        if !(is_digit_char(c) || c == '.' || c == '-') {
            assert(!is_port_char(s@[i as int]));
            return false;
        }
        i = i + 1;
    }
    true
}

fn digits_after_exec(text: &[char], marker: &str) -> (r: Option<Vec<char>>)
    ensures
        opt_chars(r) == digits_after(text@, marker@),
{
    let m = chars_of(marker);
    match find_in(text, &m) {
        None => None,
        Some(start) => {
            assert(occurs_at(text@, m@, start as int));
            let ml = m.len();
            let tl = text.len();
            assert(start + ml <= tl);
            let tail = slice_from(text, start + ml);
            let n = count_leading_digits(&tail);
            if n == 0 {
                None
            } else {
                Some(slice_range(&tail, 0, n))
            }
        },
    }
}

impl ControllerSetupState {
    fn extract_usb_port_from_physical_path(physical_path: &str) -> (r: Option<String>)
        ensures
            opt_view(r) == usb_port_of(physical_path@),
    {
        let path = chars_of(physical_path);
        let lower = lower_chars(&path);
        let marker = chars_of("usb-");
        proof {
            reveal_strlit("usb-");
        }
        match find_in(&lower, &marker) {
            None => None,
            Some(start) => {
                assert(occurs_at(lower@, marker@, start as int));
                assert(marker@.len() == 4);
                assert(lower@.len() == path@.len());
                let pl = path.len();
                assert(start + 4 <= pl);
                let tail = slice_from(&path, start + 4);
                let segment = before_first(&tail, '/');
                let k = after_last(&segment, '-');
                let last = slice_from(&segment, k);
                let candidate = trim_chars(&last);
                if candidate.len() == 0 || !all_port_chars_exec(&candidate) {
                    None
                } else {
                    Some(string_of(&candidate))
                }
            },
        }
    }

    fn extract_instance_id(text: &str) -> (r: Option<String>)
        ensures
            opt_view(r) == instance_id_of(text@),
    {
        let t = chars_of(text);
        if let Some(d) = digits_after_exec(&t, "instance:") {
            return Some(string_of(&d));
        }
        if let Some(d) = digits_after_exec(&t, "instance ") {
            return Some(string_of(&d));
        }
        match digits_after_exec(&t, "index ") {
            Some(d) => Some(string_of(&d)),
            None => None,
        }
    }

    fn extract_numeric_suffix(text: &str) -> (r: Option<String>)
        ensures
            opt_view(r) == numeric_suffix_of(text@),
    {
        let t = chars_of(text);
        let n = count_trailing_digits(&t);
        if n == 0 {
            None
        } else {
            Some(string_of(&slice_from(&t, t.len() - n)))
        }
    }

    fn controller_device_port_hint(device: &ControllerInputDeviceInfo) -> (r: Option<String>)
        ensures
            opt_view(r) == port_hint_of(*device),
    {
        if let Some(port) = Self::extract_usb_port_from_physical_path(device.physical_path.as_str()) {
            let mut s = owned("USB port ");
            push_str(&mut s, port.as_str());
            return Some(s);
        }
        let id = match Self::extract_numeric_suffix(device.event_node.as_str()) {
            Some(id) => Some(id),
            None => match Self::extract_instance_id(device.physical_path.as_str()) {
                Some(id) => Some(id),
                None => Self::extract_instance_id(device.unique_id.as_str()),
            },
        };
        match id {
            Some(id) => {
                let mut s = owned("USB ID ");
                push_str(&mut s, id.as_str());
                Some(s)
            },
            None => None,
        }
    }

    fn format_controller_device_label(device: &ControllerInputDeviceInfo) -> (r: String)
        ensures
            r@ == device_label_of(*device),
    {
        let name = trim_chars(&chars_of(device.name.as_str()));
        let mut s = if name.len() == 0 {
            owned("Controller")
        } else {
            string_of(&name)
        };
        if let Some(port) = Self::controller_device_port_hint(device) {
            push_str(&mut s, " - ");
            push_str(&mut s, port.as_str());
        }
        s
    }

    /// The label of each device, in order.
    pub fn device_labels(&self) -> (r: Vec<String>)
        ensures
            r@.len() == self@.devices.len(),
            forall|i: int| 0 <= i < r@.len() ==> #[trigger] r@[i]@ == device_label_of(self@.devices[i]),
    {
        let mut r: Vec<String> = Vec::new();
        let mut i: usize = 0;
        while i < self.devices.len()
            invariant
                i <= self.devices.len(),
                self@.devices == self.devices@,
                r@.len() == i,
                forall|k: int| 0 <= k < i ==> #[trigger] r@[k]@ == device_label_of(self@.devices[k]),
            decreases self.devices.len() - i,
        {
            r.push(Self::format_controller_device_label(&self.devices[i]));
            i = i + 1;
        }
        r
    }
}

} // verus!

verus! {

/// One line of the device list: `>` before the chosen device, a blank
/// before the others, then a space and the label.
pub open spec fn device_list_line(label: Seq<char>, chosen: bool) -> Seq<char> {
    (if chosen { ">"@ } else { " "@ }) + " "@ + label
}

/// The lines of the device list.
pub open spec fn device_lines(devices: Seq<ControllerInputDeviceInfo>, selected: nat) -> Seq<Seq<char>> {
    Seq::new(devices.len(), |i: int| device_list_line(device_label_of(devices[i]), i == selected))
}

/// The device list as the setup screen shows it.
pub open spec fn device_list_spec(devices: Seq<ControllerInputDeviceInfo>, selected: nat) -> Seq<char> {
    if devices.len() == 0 {
        "No SDL controller devices found."@
    } else {
        join(device_lines(devices, selected), "\n"@)
    }
}

/// One line of the mapping list: the 1-based position, the action and its
/// token (or `Not set`).
pub open spec fn mapping_line(index: nat, action: Seq<char>, token: Option<Seq<char>>) -> Seq<char> {
    decimal(index + 1) + ". "@ + action + " -> "@ + match token {
        Some(t) => t,
        None => "Not set"@,
    }
}

/// The list of actions and their tokens.
pub open spec fn mapping_list_spec(actions: Seq<Seq<char>>, tokens: Seq<Option<Seq<char>>>) -> Seq<char> {
    join(Seq::new(actions.len(), |i: int| mapping_line(i as nat, actions[i], tokens[i])), "\n"@)
}

impl ControllerSetupState {
    /// The device list, `>` marking the chosen device.
    pub fn device_list_text(&self) -> (r: String)
        ensures
            r@ == device_list_spec(self@.devices, self@.selected),
    {
        if self.devices.len() == 0 {
            return owned("No SDL controller devices found.");
        }
        let labels = self.device_labels();
        let mut lines: Vec<String> = Vec::new();
        let mut i: usize = 0;
        while i < labels.len()
            invariant
                i <= labels.len(),
                labels@.len() == self@.devices.len(),
                forall|k: int| 0 <= k < labels@.len() ==> #[trigger] labels@[k]@ == device_label_of(self@.devices[k]),
                lines@.len() == i,
                forall|k: int| 0 <= k < i ==> #[trigger] lines@[k]@
                    == device_list_line(device_label_of(self@.devices[k]), k == self@.selected),
            decreases labels.len() - i,
        {
            let mut line = if i == self.selected_device_index {
                owned(">")
            } else {
                owned(" ")
            };
            push_str(&mut line, " ");
            push_str(&mut line, labels[i].as_str());
            lines.push(line);
            i = i + 1;
        }
        proof {
            assert(lines@.map_values(|p: String| p@) =~= device_lines(self@.devices, self@.selected));
        }
        let r = join_strings(&lines, "\n");
        assert(self@.devices.len() > 0);
        r
    }

    /// The label of the chosen device, or a note that there is none.
    pub fn selected_device_summary(&self) -> (r: String)
        ensures
            r@ == (if self@.selected < self@.devices.len() {
                device_label_of(self@.devices[self@.selected as int])
            } else {
                "No SDL controller devices found"@
            }),
    {
        match self.selected_device_info() {
            Some(d) => Self::format_controller_device_label(d),
            None => owned("No SDL controller devices found"),
        }
    }

    /// `chosen/count` while choosing a device, `captured/total` afterwards.
    pub fn progress_text(&self) -> (r: String)
        requires
            self.wf(),
        ensures
            r@ == (if self@.phase == ControllerSetupPhase::SelectDevice {
                if self@.devices.len() == 0 {
                    "0/0"@
                } else {
                    decimal(self@.selected + 1) + "/"@ + decimal(self@.devices.len())
                }
            } else {
                decimal(count_captured(self@.tokens)) + "/"@ + decimal(self@.actions.len())
            }),
    {
        let mut s = String::new();
        if self.phase == ControllerSetupPhase::SelectDevice {
            if self.devices.len() == 0 {
                return owned("0/0");
            }
            push_decimal(&mut s, (self.selected_device_index + 1) as u64);
            push_str(&mut s, "/");
            push_decimal(&mut s, self.devices.len() as u64);
        } else {
            let done = self.completed_count();
            proof {
                self.lemma_view_lens();
            }
            push_decimal(&mut s, done as u64);
            push_str(&mut s, "/");
            push_decimal(&mut s, self.mappings.len() as u64);
        }
        s
    }

    /// The device list while choosing a device, else one line per action
    /// with its token.
    pub fn mapping_lines(&self) -> (r: String)
        requires
            self.wf(),
        ensures
            r@ == (if self@.phase == ControllerSetupPhase::SelectDevice {
                device_list_spec(self@.devices, self@.selected)
            } else {
                mapping_list_spec(self@.actions, self@.tokens)
            }),
    {
        if self.phase == ControllerSetupPhase::SelectDevice {
            return self.device_list_text();
        }
        proof {
            self.lemma_view_lens();
        }
        let mut lines: Vec<String> = Vec::new();
        let mut i: usize = 0;
        while i < self.mappings.len()
            invariant
                i <= self.mappings.len(),
                self@.actions.len() == self.mappings@.len(),
                self@.tokens.len() == self.mappings@.len(),
                lines@.len() == i,
                forall|k: int| 0 <= k < i ==> #[trigger] lines@[k]@
                    == mapping_line(k as nat, self@.actions[k], self@.tokens[k]),
            decreases self.mappings.len() - i,
        {
            let mut line = String::new();
            push_decimal(&mut line, (i + 1) as u64);
            push_str(&mut line, ". ");
            push_str(&mut line, self.mappings[i].0.as_str());
            push_str(&mut line, " -> ");
            match &self.mappings[i].1 {
                Some(t) => push_str(&mut line, t.as_str()),
                None => push_str(&mut line, "Not set"),
            }
            proof {
                assert(self@.actions[i as int] == self.mappings@[i as int].0@);
                assert(self@.tokens[i as int] == opt_view(self.mappings@[i as int].1));
            }
            lines.push(line);
            i = i + 1;
        }
        proof {
            assert(lines@.map_values(|p: String| p@) =~= Seq::new(
                self@.actions.len(),
                |k: int| mapping_line(k as nat, self@.actions[k], self@.tokens[k]),
            ));
        }
        join_strings(&lines, "\n")
    }

    /// What the player is asked to do.
    pub fn instruction_text(&self) -> (r: String)
        requires
            self.wf(),
        ensures
            r@ == (if self@.phase == ControllerSetupPhase::SelectDevice {
                if self@.devices.len() == 0 {
                    if uses_all_devices_spec(self@.template) {
                        "No Bluetooth controller devices found. Press ESC to go back."@
                    } else {
                        "No USB controller devices found. Press ESC to go back."@
                    }
                } else if uses_all_devices_spec(self@.template) {
                    "Use Up/Down to choose the Bluetooth controller, then press Enter to start mapping."@
                } else {
                    "Use Up/Down to choose the USB controller, then press Enter to start mapping."@
                }
            } else if self@.phase == ControllerSetupPhase::MapControls {
                "Press the highlighted "@ + self@.actions[self@.index as int] + " button 10 times."@
            } else {
                "All controls captured. Press Enter to save."@
            }),
    {
        match self.phase {
            ControllerSetupPhase::SelectDevice => {
                if self.devices.len() == 0 {
                    if self.template.uses_all_devices() {
                        owned("No Bluetooth controller devices found. Press ESC to go back.")
                    } else {
                        owned("No USB controller devices found. Press ESC to go back.")
                    }
                } else if self.template.uses_all_devices() {
                    owned("Use Up/Down to choose the Bluetooth controller, then press Enter to start mapping.")
                } else {
                    owned("Use Up/Down to choose the USB controller, then press Enter to start mapping.")
                }
            },
            ControllerSetupPhase::MapControls => {
                proof {
                    self.lemma_view_lens();
                    assert(self@.actions[self.index as int] == self.mappings@[self.index as int].0@);
                }
                let mut s = owned("Press the highlighted ");
                push_str(&mut s, self.mappings[self.index].0.as_str());
                push_str(&mut s, " button 10 times.");
                s
            },
            ControllerSetupPhase::Review => owned("All controls captured. Press Enter to save."),
        }
    }
}

} // verus!

verus! {

/// The view of an optional string slice.
pub open spec fn opt_str_view(o: Option<&str>) -> Option<Seq<char>> {
    match o {
        Some(s) => Some(s@),
        None => None,
    }
}

/// The artwork overlay that highlights the control of an action label.
pub open spec fn overlay_name_of(action: Seq<char>) -> Option<Seq<char>> {
    if has_prefix(action, "Move Up"@) {
        Some("up"@)
    } else if has_prefix(action, "Move Down"@) {
        Some("down"@)
    } else if has_prefix(action, "Move Left"@) {
        Some("left"@)
    } else if has_prefix(action, "Move Right"@) {
        Some("right"@)
    } else if has_prefix(action, "Button Cross"@) {
        Some("cross"@)
    } else if has_prefix(action, "Button Circle"@) {
        Some("circle"@)
    } else if has_prefix(action, "Button Square"@) {
        Some("square"@)
    } else if has_prefix(action, "Button Triangle"@) {
        Some("triangle"@)
    } else if has_prefix(action, "Button Create"@) {
        Some("select"@)
    } else if has_prefix(action, "Button Options"@) {
        Some("start"@)
    } else if has_prefix(action, "Button Touchpad"@) {
        Some("touch_area"@)
    } else if has_prefix(action, "Button Mute"@) {
        Some("mute"@)
    } else if has_prefix(action, "Button L1"@) {
        Some("l1"@)
    } else if has_prefix(action, "Button L2"@) {
        Some("l2"@)
    } else if has_prefix(action, "Button R1"@) {
        Some("r1"@)
    } else if has_prefix(action, "Button R2"@) {
        Some("r2"@)
    } else if has_prefix(action, "Select"@) {
        Some("select"@)
    } else if has_prefix(action, "Start"@) {
        Some("start"@)
    } else if has_prefix(action, "Top Left"@) {
        Some("topleft"@)
    } else if has_prefix(action, "Top Right"@) {
        Some("topright"@)
    } else if has_prefix(action, "Button Y"@) {
        Some("y"@)
    } else if has_prefix(action, "Button X"@) {
        Some("x"@)
    } else if has_prefix(action, "Button B"@) {
        Some("b"@)
    } else if has_prefix(action, "Button A"@) {
        Some("a"@)
    } else {
        None
    }
}

/// The caption of an overlay.
pub open spec fn button_label_of(name: Seq<char>) -> Seq<char> {
    if name == "up"@ {
        "Up"@
    } else if name == "down"@ {
        "Down"@
    } else if name == "left"@ {
        "Left"@
    } else if name == "right"@ {
        "Right"@
    } else if name == "select"@ {
        "Select"@
    } else if name == "start"@ {
        "Start"@
    } else if name == "topleft"@ {
        "Top Left"@
    } else if name == "topright"@ {
        "Top Right"@
    } else if name == "cross"@ {
        "Cross"@
    } else if name == "circle"@ {
        "Circle"@
    } else if name == "square"@ {
        "Square"@
    } else if name == "triangle"@ {
        "Triangle"@
    } else if name == "touch_area"@ {
        "Touchpad"@
    } else if name == "mute"@ {
        "Mute"@
    } else if name == "l1"@ {
        "L1"@
    } else if name == "l2"@ {
        "L2"@
    } else if name == "r1"@ {
        "R1"@
    } else if name == "r2"@ {
        "R2"@
    } else if name == "y"@ {
        "Y"@
    } else if name == "x"@ {
        "X"@
    } else if name == "b"@ {
        "B"@
    } else if name == "a"@ {
        "A"@
    } else {
        ""@
    }
}

/// `a` begins with `p`.
pub fn begins(a: &[char], p: &str) -> (r: bool)
    ensures
        r == has_prefix(a@, p@),
{
    let pc = chars_of(p);
    starts_with_chars(a, &pc)
}

fn overlay_name_for(action: &[char]) -> (r: Option<&'static str>)
    ensures
        opt_str_view(r) == overlay_name_of(action@),
{
    if begins(action, "Move Up") {
        Some("up")
    } else if begins(action, "Move Down") {
        Some("down")
    } else if begins(action, "Move Left") {
        Some("left")
    } else if begins(action, "Move Right") {
        Some("right")
    } else if begins(action, "Button Cross") {
        Some("cross")
    } else if begins(action, "Button Circle") {
        Some("circle")
    } else if begins(action, "Button Square") {
        Some("square")
    } else if begins(action, "Button Triangle") {
        Some("triangle")
    } else if begins(action, "Button Create") {
        Some("select")
    } else if begins(action, "Button Options") {
        Some("start")
    } else if begins(action, "Button Touchpad") {
        Some("touch_area")
    } else if begins(action, "Button Mute") {
        Some("mute")
    } else if begins(action, "Button L1") {
        Some("l1")
    } else if begins(action, "Button L2") {
        Some("l2")
    } else if begins(action, "Button R1") {
        Some("r1")
    } else if begins(action, "Button R2") {
        Some("r2")
    } else if begins(action, "Select") {
        Some("select")
    } else if begins(action, "Start") {
        Some("start")
    } else if begins(action, "Top Left") {
        Some("topleft")
    } else if begins(action, "Top Right") {
        Some("topright")
    } else if begins(action, "Button Y") {
        Some("y")
    } else if begins(action, "Button X") {
        Some("x")
    } else if begins(action, "Button B") {
        Some("b")
    } else if begins(action, "Button A") {
        Some("a")
    } else {
        None
    }
}

fn button_label_for(name: &str) -> (r: &'static str)
    ensures
        r@ == button_label_of(name@),
{
    if str_eq(name, "up") {
        "Up"
    } else if str_eq(name, "down") {
        "Down"
    } else if str_eq(name, "left") {
        "Left"
    } else if str_eq(name, "right") {
        "Right"
    } else if str_eq(name, "select") {
        "Select"
    } else if str_eq(name, "start") {
        "Start"
    } else if str_eq(name, "topleft") {
        "Top Left"
    } else if str_eq(name, "topright") {
        "Top Right"
    } else if str_eq(name, "cross") {
        "Cross"
    } else if str_eq(name, "circle") {
        "Circle"
    } else if str_eq(name, "square") {
        "Square"
    } else if str_eq(name, "triangle") {
        "Triangle"
    } else if str_eq(name, "touch_area") {
        "Touchpad"
    } else if str_eq(name, "mute") {
        "Mute"
    } else if str_eq(name, "l1") {
        "L1"
    } else if str_eq(name, "l2") {
        "L2"
    } else if str_eq(name, "r1") {
        "R1"
    } else if str_eq(name, "r2") {
        "R2"
    } else if str_eq(name, "y") {
        "Y"
    } else if str_eq(name, "x") {
        "X"
    } else if str_eq(name, "b") {
        "B"
    } else if str_eq(name, "a") {
        "A"
    } else {
        ""
    }
}

/// A reading of the system clock.
#[verifier::external_type_specification]
#[verifier::external_body]
pub struct ExSystemTime(std::time::SystemTime);

/// Why a time lies before another.
#[verifier::external_type_specification]
#[verifier::external_body]
pub struct ExSystemTimeError(std::time::SystemTimeError);

/// `SystemTime::now()`: the system clock now. Nothing is claimed of the
/// reading, which depends on the machine and the moment.
#[verifier::external_body]
fn system_time_now() -> (r: std::time::SystemTime) {
    std::time::SystemTime::now()
}

/// `SystemTime::duration_since(UNIX_EPOCH)`: how long after the Unix epoch
/// `t` lies, or an error when it lies before. Nothing is claimed of which
/// comes back, nor of the span.
#[verifier::external_body]
fn since_unix_epoch(t: &std::time::SystemTime) -> (r: Result<std::time::Duration, std::time::SystemTimeError>) {
    t.duration_since(std::time::UNIX_EPOCH)
}

/// `Duration::as_secs`: the whole seconds of a span, which Verus cannot
/// see inside; nothing is claimed of the number.
#[verifier::external_body]
fn whole_seconds(d: &std::time::Duration) -> (r: u64) {
    d.as_secs()
}

/// Seconds since the Unix epoch, 0 when the clock is before it.
fn unix_time_secs() -> u64 {
    let now = system_time_now();
    match since_unix_epoch(&now) {
        Ok(d) => whole_seconds(&d),
        Err(_) => 0,
    }
}

impl ControllerSetupState {
    /// The overlay of the control being captured.
    pub fn current_overlay_name(&self) -> (r: Option<&'static str>)
        requires
            self.wf(),
        ensures
            opt_str_view(r) == match self.current_action_spec() {
                Some(a) => overlay_name_of(a),
                None => None,
            },
    {
        match self.current_action() {
            Some(a) => overlay_name_for(&chars_of(a.as_str())),
            None => None,
        }
    }

    /// The caption of the control being captured, empty when there is none.
    pub fn current_button_label(&self) -> (r: String)
        requires
            self.wf(),
        ensures
            r@ == match self.current_action_spec() {
                Some(a) => match overlay_name_of(a) {
                    Some(n) => button_label_of(n),
                    None => ""@,
                },
                None => ""@,
            },
    {
        proof {
            reveal_strlit("");
        }
        match self.current_overlay_name() {
            Some(n) => owned(button_label_for(n)),
            None => String::new(),
        }
    }

    /// The profile that the captured controls make: number `existing_count
    /// + 1` of its template, stamped with the current time.
    pub fn to_profile(&self, existing_count: usize) -> (p: ControllerProfile)
        requires
            self.wf(),
            existing_count < usize::MAX,
        ensures
            exists|t: u64| #[trigger] self.is_profile_at(p, existing_count as nat, t),
    {
        let timestamp = unix_time_secs();
        self.to_profile_at(existing_count, timestamp)
    }

    /// `p` is the profile of the captured controls, number `existing_count
    /// + 1` of the template, stamped `timestamp`.
    pub open spec fn is_profile_at(&self, p: ControllerProfile, existing_count: nat, timestamp: u64) -> bool {
        let v = self@;
        &&& p.id@ == template_id_spec(v.template) + "-"@ + decimal(timestamp as nat)
        &&& p.name@ == default_name_spec(v.template, existing_count + 1)
        &&& p.template@ == template_id_spec(v.template)
        &&& opt_view(p.device_id) == (if v.selected < v.devices.len() {
            Some(v.devices[v.selected as int].unique_id@)
        } else {
            None
        })
        &&& opt_view(p.device_name) == (if v.selected < v.devices.len() {
            Some(v.devices[v.selected as int].name@)
        } else {
            None
        })
        &&& opt_view(p.bluetooth_address) == v.bluetooth
        &&& strictly_sorted(pair_keys(pair_views(p.mappings@)))
        &&& pairs_map(pair_views(p.mappings@)) == captured_map(v.actions, v.tokens)
    }

    /// The profile of the captured controls, stamped `timestamp`.
    pub fn to_profile_at(&self, existing_count: usize, timestamp: u64) -> (p: ControllerProfile)
        requires
            self.wf(),
            existing_count < usize::MAX,
        ensures
            self.is_profile_at(p, existing_count as nat, timestamp),
    {
        proof {
            self.lemma_view_lens();
        }
        let mut mappings: Vec<(String, String)> = Vec::new();
        let mut i: usize = 0;
        while i < self.mappings.len()
            invariant
                i <= self.mappings.len(),
                self@.actions.len() == self.mappings@.len(),
                self@.tokens.len() == self.mappings@.len(),
                strictly_sorted(pair_keys(pair_views(mappings@))),
                pairs_map(pair_views(mappings@)) == captured_map(
                    self@.actions.take(i as int),
                    self@.tokens.take(i as int),
                ),
            decreases self.mappings.len() - i,
        {
            let ghost before = pairs_map(pair_views(mappings@));
            proof {
                let a = self@.actions.take(i + 1);
                let t = self@.tokens.take(i + 1);
                assert(a.drop_last() == self@.actions.take(i as int));
                assert(t.drop_last() == self@.tokens.take(i as int));
                assert(a.last() == self.mappings@[i as int].0@);
                assert(t.last() == opt_view(self.mappings@[i as int].1));
            }
            if let Some(token) = &self.mappings[i].1 {
                mapping_insert(&mut mappings, self.mappings[i].0.clone(), token.clone());
            }
            i = i + 1;
        }
        proof {
            assert(self@.actions.take(self.mappings@.len() as int) == self@.actions);
            assert(self@.tokens.take(self.mappings@.len() as int) == self@.tokens);
        }
        let mut id = owned(self.template.id());
        push_str(&mut id, "-");
        push_decimal(&mut id, timestamp);
        let bluetooth_address = match &self.bluetooth_address {
            Some(b) => Some(b.clone()),
            None => None,
        };
        ControllerProfile {
            id,
            name: self.template.default_name(existing_count + 1),
            template: owned(self.template.id()),
            device_id: self.selected_device_id(),
            device_name: self.selected_device_name(),
            bluetooth_address,
            mappings,
        }
    }
}

} // verus!

verus! {

impl ControllerSetupState {
    /// Choosing the next device and then the previous one comes back to the
    /// device chosen before.
    pub proof fn lemma_next_then_previous_device(v: SetupView)
        requires
            v.selected < v.devices.len() || v.devices.len() == 0,
        ensures
            Self::previous_device_view(Self::next_device_view(v)) == v,
    {
        if v.phase == ControllerSetupPhase::SelectDevice && v.devices.len() > 0 {
            let n = v.devices.len();
            if v.selected + 1 < n {
                assert((v.selected + 1) % n == v.selected + 1) by (nonlinear_arith)
                    requires v.selected + 1 < n;
            } else {
                assert((v.selected + 1) % n == 0) by (nonlinear_arith)
                    requires v.selected + 1 == n;
            }
            assert(Self::previous_device_view(Self::next_device_view(v)) =~= v);
        }
    }

    /// Choosing the previous device and then the next one comes back to the
    /// device chosen before.
    pub proof fn lemma_previous_then_next_device(v: SetupView)
        requires
            v.selected < v.devices.len() || v.devices.len() == 0,
        ensures
            Self::next_device_view(Self::previous_device_view(v)) == v,
    {
        if v.phase == ControllerSetupPhase::SelectDevice && v.devices.len() > 0 {
            let n = v.devices.len();
            if v.selected == 0 {
                assert(((n - 1) as nat + 1) % n == 0) by (nonlinear_arith)
                    requires n > 0;
            } else {
                assert(((v.selected - 1) as nat + 1) % n == v.selected) by (nonlinear_arith)
                    requires 0 < v.selected < n;
            }
            assert(Self::next_device_view(Self::previous_device_view(v)) =~= v);
        }
    }

    /// How far along the setup is: device choice, then mapping, then review.
    pub open spec fn phase_rank(p: ControllerSetupPhase) -> int {
        match p {
            ControllerSetupPhase::SelectDevice => 0,
            ControllerSetupPhase::MapControls => 1,
            ControllerSetupPhase::Review => 2,
        }
    }

    /// `w` is what one call of a method that changes the setup makes of `v`.
    pub open spec fn setup_step(v: SetupView, w: SetupView) -> bool {
        ||| w == Self::arm_view(v)
        ||| w == Self::rotation_view(v)
        ||| (exists|b: Option<Seq<char>>| w == #[trigger] Self::bluetooth_view(v, b))
        ||| w == Self::next_device_view(v)
        ||| w == Self::previous_device_view(v)
        ||| w == Self::confirm_view(v)
        ||| w == Self::skip_selection_view(v)
        ||| (exists|k: Seq<char>| w == #[trigger] Self::record_key_view(v, k))
        ||| (exists|k: Option<Seq<char>>| w == #[trigger] Self::record_or_skip_view(v, k))
        ||| (exists|t: Seq<char>| w == #[trigger] Self::press_view(v, t))
    }

    /// One step of the setup keeps its view consistent, never changes the
    /// template, the actions or the devices, never moves the phase back, and
    /// either keeps the position and the tokens or completes the current
    /// action: the position goes up by one and only its token changes.
    pub proof fn lemma_step_keeps(v: SetupView, w: SetupView)
        requires
            setup_view_ok(v),
            Self::setup_step(v, w),
        ensures
            setup_view_ok(w),
            w.template == v.template,
            w.actions == v.actions,
            w.devices == v.devices,
            Self::phase_rank(v.phase) <= Self::phase_rank(w.phase),
            w.index == v.index ==> w.tokens == v.tokens,
            w.index != v.index ==> w.index == v.index + 1
                && v.phase == ControllerSetupPhase::MapControls
                && w.tokens == v.tokens.update(v.index as int, w.tokens[v.index as int]),
    {
        if exists|t: Seq<char>| w == #[trigger] Self::press_view(v, t) {
            let t = choose|t: Seq<char>| w == #[trigger] Self::press_view(v, t);
            if v.phase == ControllerSetupPhase::MapControls {
                let hits = if v.token == Some(t) { v.hits + 1 } else { 1 };
                if hits >= PRESSES_PER_CONTROL {
                    assert(w.tokens == v.tokens.update(v.index as int, Some(t)));
                }
            }
        } else if exists|k: Seq<char>| w == #[trigger] Self::record_key_view(v, k) {
            let k = choose|k: Seq<char>| w == #[trigger] Self::record_key_view(v, k);
            if v.phase == ControllerSetupPhase::MapControls && v.armed {
                assert(w.tokens == v.tokens.update(v.index as int, Some(k)));
            }
        } else if exists|k: Option<Seq<char>>| w == #[trigger] Self::record_or_skip_view(v, k) {
            let k = choose|k: Option<Seq<char>>| w == #[trigger] Self::record_or_skip_view(v, k);
            if v.phase == ControllerSetupPhase::MapControls {
                assert(w.tokens == v.tokens.update(v.index as int, k));
            }
        } else if w == Self::skip_selection_view(v) {
            if v.phase == ControllerSetupPhase::SelectDevice && uses_all_devices_spec(v.template) {
                match first_dualsense_from(v.devices, 0) {
                    Some(i) => {
                        Self::lemma_first_dualsense_in(v.devices, 0);
                    },
                    None => {},
                }
            }
        } else if w == Self::next_device_view(v) {
            if v.phase == ControllerSetupPhase::SelectDevice && v.devices.len() > 0 {
                let n = v.devices.len();
                assert((v.selected + 1) % n < n) by (nonlinear_arith)
                    requires n > 0;
            }
        }
    }

    proof fn lemma_first_dualsense_in(devices: Seq<ControllerInputDeviceInfo>, i: nat)
        ensures
            first_dualsense_from(devices, i) matches Some(k) ==> i <= k < devices.len(),
        decreases devices.len() - i,
    {
        if i < devices.len() && !is_dualsense_name(devices[i as int].name@) {
            Self::lemma_first_dualsense_in(devices, i + 1);
        }
    }

    /// Along any run of the setup (each view made from the one before by one
    /// call), starting from a consistent view such as the one `new` makes:
    /// every view is consistent (so the chosen device stays in range), the
    /// template and the actions never change, and the phase never moves
    /// back.
    pub proof fn lemma_run_keeps(run: Seq<SetupView>)
        requires
            run.len() > 0,
            setup_view_ok(run[0]),
            forall|i: int| 0 <= i < run.len() - 1 ==> #[trigger] Self::setup_step(run[i], run[i + 1]),
        ensures
            forall|i: int| 0 <= i < run.len() ==> setup_view_ok(#[trigger] run[i]),
            forall|i: int| 0 <= i < run.len() ==> (#[trigger] run[i]).template == run[0].template,
            forall|i: int| 0 <= i < run.len() ==> (#[trigger] run[i]).actions == run[0].actions,
            forall|i: int, j: int| 0 <= i <= j < run.len() ==> Self::phase_rank(run[i].phase)
                <= Self::phase_rank(run[j].phase),
        decreases run.len(),
    {
        if run.len() > 1 {
            let front = run.drop_last();
            assert forall|i: int| 0 <= i < front.len() - 1 implies #[trigger] Self::setup_step(front[i], front[i + 1]) by {
                assert(Self::setup_step(run[i], run[i + 1]));
            }
            Self::lemma_run_keeps(front);
            let last = run.len() - 1;
            let k = last - 1;
            assert(Self::setup_step(run[k], run[k + 1]));
            assert(k + 1 == last);
            assert(front[0] == run[0] && front[k] == run[k]);
            assert(setup_view_ok(front[k]));
            assert(setup_view_ok(front[last - 1]));
            Self::lemma_step_keeps(run[last - 1], run[last]);
            assert forall|i: int| 0 <= i < run.len() implies setup_view_ok(#[trigger] run[i])
                && run[i].template == run[0].template
                && run[i].actions == run[0].actions by {
                if i < last {
                    assert(run[i] == front[i]);
                    assert(setup_view_ok(front[i]));
                } else {
                    assert(i == last);
                }
            }
            assert forall|i: int, j: int| 0 <= i <= j < run.len() implies Self::phase_rank(run[i].phase)
                <= Self::phase_rank(run[j].phase) by {
                if j < last {
                    assert(run[i] == front[i] && run[j] == front[j]);
                } else if i < last {
                    assert(run[i] == front[i] && run[last - 1] == front[last - 1]);
                }
            }
        }
    }

    /// The step from `v` to `w` completes an action (records it, skips it,
    /// or captures it with the tenth press): the position moves on by one.
    pub open spec fn completes(v: SetupView, w: SetupView) -> bool {
        w.index == v.index + 1
    }

    /// How many of the first `i` steps of a run complete an action.
    pub open spec fn completed_before(run: Seq<SetupView>, i: int) -> nat
        decreases i,
    {
        if i <= 0 {
            0
        } else {
            Self::completed_before(run, i - 1) + if Self::completes(run[i - 1], run[i]) { 1nat } else { 0nat }
        }
    }

    /// Along any run of the setup from the state `new` makes (any
    /// consistent view at position 0), the position is the number of actions
    /// completed so far, and the action asked for is, while controls are
    /// mapped, the template's action at that number (else none).
    pub proof fn lemma_run_position(run: Seq<SetupView>)
        requires
            run.len() > 0,
            setup_view_ok(run[0]),
            run[0].index == 0,
            forall|i: int| 0 <= i < run.len() - 1 ==> #[trigger] Self::setup_step(run[i], run[i + 1]),
        ensures
            forall|i: int| 0 <= i < run.len() ==> (#[trigger] run[i]).index == Self::completed_before(run, i),
            forall|i: int| 0 <= i < run.len() ==> asked_action(#[trigger] run[i]) == (if run[i].phase
                == ControllerSetupPhase::MapControls {
                Some(template_actions(run[0].template)[Self::completed_before(run, i) as int])
            } else {
                None
            }),
    {
        Self::lemma_run_keeps(run);
        assert forall|i: int| 0 <= i < run.len() implies (#[trigger] run[i]).index == Self::completed_before(run, i) by {
            Self::lemma_position_upto(run, i);
        }
        assert forall|i: int| 0 <= i < run.len() implies asked_action(#[trigger] run[i]) == (if run[i].phase
            == ControllerSetupPhase::MapControls {
            Some(template_actions(run[0].template)[Self::completed_before(run, i) as int])
        } else {
            None
        }) by {
            Self::lemma_position_upto(run, i);
            assert(setup_view_ok(run[i]));
        }
    }

    proof fn lemma_position_upto(run: Seq<SetupView>, i: int)
        requires
            0 <= i < run.len(),
            setup_view_ok(run[0]),
            run[0].index == 0,
            forall|j: int| 0 <= j < run.len() - 1 ==> #[trigger] Self::setup_step(run[j], run[j + 1]),
            forall|j: int| 0 <= j < run.len() ==> setup_view_ok(#[trigger] run[j]),
        ensures
            run[i].index == Self::completed_before(run, i),
        decreases i,
    {
        if i > 0 {
            Self::lemma_position_upto(run, i - 1);
            let k = i - 1;
            assert(Self::setup_step(run[k], run[k + 1]));
            assert(setup_view_ok(run[k]));
            Self::lemma_step_keeps(run[k], run[k + 1]);
        }
    }

    /// A consistent setup asks for an action exactly while controls are
    /// mapped, and that action is the template's action at the current
    /// position.
    pub proof fn lemma_current_action(&self)
        requires
            self.wf(),
        ensures
            self.current_action_spec().is_some() == (self@.phase == ControllerSetupPhase::MapControls),
            self.current_action_spec() matches Some(a) ==> a == template_actions(self@.template)[self@.index as int],
    {
        self.lemma_wf_view();
    }

    /// In a consistent view the progress is 100 exactly when all controls
    /// are done, and ten per press counted otherwise.
    pub proof fn lemma_progress_percent(v: SetupView)
        requires
            setup_view_ok(v),
        ensures
            progress_percent_of(v) == (if v.phase == ControllerSetupPhase::Review { 100 } else { v.hits * 10 }),
            (progress_percent_of(v) == 100) == (v.phase == ControllerSetupPhase::Review),
    {
    }

    proof fn lemma_presses_count(v: SetupView, token: Seq<char>, n: nat)
        requires
            v.phase == ControllerSetupPhase::MapControls,
            v.token != Some(token),
            1 <= n < PRESSES_PER_CONTROL,
        ensures
            Self::presses(v, token, n) == (SetupView { token: Some(token), hits: n, ..v }),
        decreases n,
    {
        if n > 1 {
            Self::lemma_presses_count(v, token, (n - 1) as nat);
        } else {
            assert(Self::presses(v, token, 0) == v);
        }
        assert(Self::presses(v, token, n) =~= (SetupView { token: Some(token), hits: n, ..v }));
    }

    /// Pressing one control ten times in a row captures it: after a press of
    /// another control (or none), presses one to nine of `token` only count,
    /// and the tenth stores `token` for the current action and moves on.
    pub proof fn lemma_ten_presses_capture(v: SetupView, token: Seq<char>)
        requires
            v.phase == ControllerSetupPhase::MapControls,
            v.token != Some(token),
        ensures
            forall|n: nat| 1 <= n < PRESSES_PER_CONTROL ==> #[trigger] Self::presses(v, token, n)
                == (SetupView { token: Some(token), hits: n, ..v }),
            Self::presses(v, token, PRESSES_PER_CONTROL as nat)
                == (SetupView { token: None, hits: 0, ..Self::advance(v, Some(token), true) }),
    {
        assert forall|n: nat| 1 <= n < PRESSES_PER_CONTROL implies #[trigger] Self::presses(v, token, n)
            == (SetupView { token: Some(token), hits: n, ..v }) by {
            Self::lemma_presses_count(v, token, n);
        }
        Self::lemma_presses_count(v, token, 9);
    }
}

} // verus!
