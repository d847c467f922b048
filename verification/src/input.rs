use vstd::prelude::*;
use vstd::string::*;

use crate::keyboard_input::{
    KEY_A, KEY_D, KEY_DOWN, KEY_ENTER, KEY_ESC, KEY_LEFT, KEY_RIGHT, KEY_S, KEY_SPACE, KEY_TAB,
    KEY_UP, KEY_W,
};
use crate::text::{chars_of, decimal, has_prefix, owned, push_decimal, push_str, starts_with_chars};

verus! {

broadcast use vstd::string::group_string_axioms;

/// How far a stick must move from the centre to count, on SDL's scale.
pub const DEAD_ZONE: i16 = 8000;

/// Delay before a held action repeats, in milliseconds.
pub const DEFAULT_INITIAL_REPEAT_DELAY_MS: u64 = 300;

/// Delay between repeats of a held action, in milliseconds.
pub const DEFAULT_REPEAT_INTERVAL_MS: u64 = 100;

/// What the console's menus react to.
#[derive(Debug, Clone, Copy, PartialEq, Eq, Structural, Hash)]
pub enum ConsoleAction {
    Up,
    Down,
    Left,
    Right,
    Accept,
    Cancel,
    Start,
    Select,
}

/// The name of an action.
pub open spec fn action_name(a: ConsoleAction) -> Seq<char> {
    match a {
        ConsoleAction::Up => "Up"@,
        ConsoleAction::Down => "Down"@,
        ConsoleAction::Left => "Left"@,
        ConsoleAction::Right => "Right"@,
        ConsoleAction::Accept => "Accept"@,
        ConsoleAction::Cancel => "Cancel"@,
        ConsoleAction::Start => "Start"@,
        ConsoleAction::Select => "Select"@,
    }
}

/// The slot of an action in the router's table.
pub open spec fn action_slot(a: ConsoleAction) -> int {
    match a {
        ConsoleAction::Up => 0,
        ConsoleAction::Down => 1,
        ConsoleAction::Left => 2,
        ConsoleAction::Right => 3,
        ConsoleAction::Accept => 4,
        ConsoleAction::Cancel => 5,
        ConsoleAction::Start => 6,
        ConsoleAction::Select => 7,
    }
}

/// The action in a slot of the router's table.
pub open spec fn slot_action(i: int) -> ConsoleAction {
    if i == 0 {
        ConsoleAction::Up
    } else if i == 1 {
        ConsoleAction::Down
    } else if i == 2 {
        ConsoleAction::Left
    } else if i == 3 {
        ConsoleAction::Right
    } else if i == 4 {
        ConsoleAction::Accept
    } else if i == 5 {
        ConsoleAction::Cancel
    } else if i == 6 {
        ConsoleAction::Start
    } else {
        ConsoleAction::Select
    }
}

impl ConsoleAction {
    /// The name of the action.
    pub fn as_str(self) -> (r: &'static str)
        ensures
            r@ == action_name(self),
    {
        match self {
            ConsoleAction::Up => "Up",
            ConsoleAction::Down => "Down",
            ConsoleAction::Left => "Left",
            ConsoleAction::Right => "Right",
            ConsoleAction::Accept => "Accept",
            ConsoleAction::Cancel => "Cancel",
            ConsoleAction::Start => "Start",
            ConsoleAction::Select => "Select",
        }
    }

    /// The slot of the action in the router's table.
    pub fn slot(self) -> (r: usize)
        ensures
            r == action_slot(self),
            r < 8,
    {
        match self {
            ConsoleAction::Up => 0,
            ConsoleAction::Down => 1,
            ConsoleAction::Left => 2,
            ConsoleAction::Right => 3,
            ConsoleAction::Accept => 4,
            ConsoleAction::Cancel => 5,
            ConsoleAction::Start => 6,
            ConsoleAction::Select => 7,
        }
    }

    /// The action in slot `i < 8`.
    pub fn from_slot(i: usize) -> (a: Self)
        requires
            i < 8,
        ensures
            a == slot_action(i as int),
            action_slot(a) == i,
    {
        if i == 0 {
            ConsoleAction::Up
        } else if i == 1 {
            ConsoleAction::Down
        } else if i == 2 {
            ConsoleAction::Left
        } else if i == 3 {
            ConsoleAction::Right
        } else if i == 4 {
            ConsoleAction::Accept
        } else if i == 5 {
            ConsoleAction::Cancel
        } else if i == 6 {
            ConsoleAction::Start
        } else {
            ConsoleAction::Select
        }
    }
}

/// What happened to an input.
#[derive(Debug, Clone, Copy, PartialEq, Eq, Structural)]
pub enum ConsoleInputPhase {
    Pressed,
    Repeat,
    Released,
    Connected,
    Disconnected,
}

/// Where an input came from.
#[derive(Debug, Clone)]
pub enum ConsoleInputSource {
    Keyboard { keycode: String, device_name: String },
    Controller { instance_id: u32, device_id: String, controller_name: String },
}

/// One input event for the menus.
#[derive(Debug, Clone)]
pub struct ConsoleInputEvent {
    pub phase: ConsoleInputPhase,
    pub source: ConsoleInputSource,
    pub action: Option<ConsoleAction>,
    pub token: String,
    pub pressed: bool,
    pub timestamp: u32,
    pub controller_name: String,
}

/// A controller as the input layer sees it.
#[derive(Debug, Clone)]
pub struct ControllerDeviceInfo {
    pub event_node: String,
    pub name: String,
    pub unique_id: String,
    pub physical_path: String,
}

/// The axes of an SDL game controller.
#[derive(Debug, Clone, Copy, PartialEq, Eq, Structural, Hash)]
pub enum ControllerAxis {
    LeftX,
    LeftY,
    RightX,
    RightY,
    TriggerLeft,
    TriggerRight,
}

/// The name of an axis in tokens.
pub open spec fn axis_name(a: ControllerAxis) -> Seq<char> {
    match a {
        ControllerAxis::LeftX => "LeftX"@,
        ControllerAxis::LeftY => "LeftY"@,
        ControllerAxis::RightX => "RightX"@,
        ControllerAxis::RightY => "RightY"@,
        ControllerAxis::TriggerLeft => "TriggerLeft"@,
        ControllerAxis::TriggerRight => "TriggerRight"@,
    }
}

/// The name of an axis in tokens.
pub fn axis_str(a: ControllerAxis) -> (r: &'static str)
    ensures
        r@ == axis_name(a),
{
    match a {
        ControllerAxis::LeftX => "LeftX",
        ControllerAxis::LeftY => "LeftY",
        ControllerAxis::RightX => "RightX",
        ControllerAxis::RightY => "RightY",
        ControllerAxis::TriggerLeft => "TriggerLeft",
        ControllerAxis::TriggerRight => "TriggerRight",
    }
}

/// The buttons of an SDL game controller.
#[derive(Debug, Clone, Copy, PartialEq, Eq, Structural, Hash)]
pub enum ControllerButton {
    A,
    B,
    X,
    Y,
    Back,
    Guide,
    Start,
    LeftStick,
    RightStick,
    LeftShoulder,
    RightShoulder,
    DPadUp,
    DPadDown,
    DPadLeft,
    DPadRight,
    Misc1,
    Paddle1,
    Paddle2,
    Paddle3,
    Paddle4,
    Touchpad,
}

/// The token of a controller button.
pub open spec fn button_token_spec(b: ControllerButton) -> Seq<char> {
    match b {
        ControllerButton::A => "SDL_CONTROLLER_BUTTON_A"@,
        ControllerButton::B => "SDL_CONTROLLER_BUTTON_B"@,
        ControllerButton::X => "SDL_CONTROLLER_BUTTON_X"@,
        ControllerButton::Y => "SDL_CONTROLLER_BUTTON_Y"@,
        ControllerButton::Back => "SDL_CONTROLLER_BUTTON_BACK"@,
        ControllerButton::Guide => "SDL_CONTROLLER_BUTTON_GUIDE"@,
        ControllerButton::Start => "SDL_CONTROLLER_BUTTON_START"@,
        ControllerButton::LeftStick => "SDL_CONTROLLER_BUTTON_LEFTSTICK"@,
        ControllerButton::RightStick => "SDL_CONTROLLER_BUTTON_RIGHTSTICK"@,
        ControllerButton::LeftShoulder => "SDL_CONTROLLER_BUTTON_LEFTSHOULDER"@,
        ControllerButton::RightShoulder => "SDL_CONTROLLER_BUTTON_RIGHTSHOULDER"@,
        ControllerButton::DPadUp => "SDL_CONTROLLER_BUTTON_DPAD_UP"@,
        ControllerButton::DPadDown => "SDL_CONTROLLER_BUTTON_DPAD_DOWN"@,
        ControllerButton::DPadLeft => "SDL_CONTROLLER_BUTTON_DPAD_LEFT"@,
        ControllerButton::DPadRight => "SDL_CONTROLLER_BUTTON_DPAD_RIGHT"@,
        ControllerButton::Misc1 => "SDL_CONTROLLER_BUTTON_MISC1"@,
        ControllerButton::Paddle1 => "SDL_CONTROLLER_BUTTON_PADDLE1"@,
        ControllerButton::Paddle2 => "SDL_CONTROLLER_BUTTON_PADDLE2"@,
        ControllerButton::Paddle3 => "SDL_CONTROLLER_BUTTON_PADDLE3"@,
        ControllerButton::Paddle4 => "SDL_CONTROLLER_BUTTON_PADDLE4"@,
        ControllerButton::Touchpad => "SDL_CONTROLLER_BUTTON_TOUCHPAD"@,
    }
}

/// The token of a controller button.
pub fn controller_button_token(b: ControllerButton) -> (r: String)
    ensures
        r@ == button_token_spec(b),
{
    owned(
        match b {
            ControllerButton::A => "SDL_CONTROLLER_BUTTON_A",
            ControllerButton::B => "SDL_CONTROLLER_BUTTON_B",
            ControllerButton::X => "SDL_CONTROLLER_BUTTON_X",
            ControllerButton::Y => "SDL_CONTROLLER_BUTTON_Y",
            ControllerButton::Back => "SDL_CONTROLLER_BUTTON_BACK",
            ControllerButton::Guide => "SDL_CONTROLLER_BUTTON_GUIDE",
            ControllerButton::Start => "SDL_CONTROLLER_BUTTON_START",
            ControllerButton::LeftStick => "SDL_CONTROLLER_BUTTON_LEFTSTICK",
            ControllerButton::RightStick => "SDL_CONTROLLER_BUTTON_RIGHTSTICK",
            ControllerButton::LeftShoulder => "SDL_CONTROLLER_BUTTON_LEFTSHOULDER",
            ControllerButton::RightShoulder => "SDL_CONTROLLER_BUTTON_RIGHTSHOULDER",
            ControllerButton::DPadUp => "SDL_CONTROLLER_BUTTON_DPAD_UP",
            ControllerButton::DPadDown => "SDL_CONTROLLER_BUTTON_DPAD_DOWN",
            ControllerButton::DPadLeft => "SDL_CONTROLLER_BUTTON_DPAD_LEFT",
            ControllerButton::DPadRight => "SDL_CONTROLLER_BUTTON_DPAD_RIGHT",
            ControllerButton::Misc1 => "SDL_CONTROLLER_BUTTON_MISC1",
            ControllerButton::Paddle1 => "SDL_CONTROLLER_BUTTON_PADDLE1",
            ControllerButton::Paddle2 => "SDL_CONTROLLER_BUTTON_PADDLE2",
            ControllerButton::Paddle3 => "SDL_CONTROLLER_BUTTON_PADDLE3",
            ControllerButton::Paddle4 => "SDL_CONTROLLER_BUTTON_PADDLE4",
            ControllerButton::Touchpad => "SDL_CONTROLLER_BUTTON_TOUCHPAD",
        },
    )
}

/// The keys of the keyboard that capture accepts.
#[derive(Debug, Clone, Copy, PartialEq, Eq, Structural)]
pub enum CaptureKey {
    Up,
    Down,
    Left,
    Right,
    W,
    A,
    S,
    D,
    Space,
    Return,
    Escape,
    Tab,
}

/// The token of a keyboard key in a captured mapping.
pub open spec fn keyboard_token_spec(k: CaptureKey) -> Seq<char> {
    match k {
        CaptureKey::Up => "Keyboard:Up"@,
        CaptureKey::Down => "Keyboard:Down"@,
        CaptureKey::Left => "Keyboard:Left"@,
        CaptureKey::Right => "Keyboard:Right"@,
        CaptureKey::W => "Keyboard:W"@,
        CaptureKey::A => "Keyboard:A"@,
        CaptureKey::S => "Keyboard:S"@,
        CaptureKey::D => "Keyboard:D"@,
        CaptureKey::Space => "Keyboard:Space"@,
        CaptureKey::Return => "Keyboard:Return"@,
        CaptureKey::Escape => "Keyboard:Escape"@,
        CaptureKey::Tab => "Keyboard:Tab"@,
    }
}

/// The token of a keyboard key in a captured mapping.
pub fn keyboard_token(k: CaptureKey) -> (r: String)
    ensures
        r@ == keyboard_token_spec(k),
{
    owned(
        match k {
            CaptureKey::Up => "Keyboard:Up",
            CaptureKey::Down => "Keyboard:Down",
            CaptureKey::Left => "Keyboard:Left",
            CaptureKey::Right => "Keyboard:Right",
            CaptureKey::W => "Keyboard:W",
            CaptureKey::A => "Keyboard:A",
            CaptureKey::S => "Keyboard:S",
            CaptureKey::D => "Keyboard:D",
            CaptureKey::Space => "Keyboard:Space",
            CaptureKey::Return => "Keyboard:Return",
            CaptureKey::Escape => "Keyboard:Escape",
            CaptureKey::Tab => "Keyboard:Tab",
        },
    )
}

/// The token of a joystick button.
pub fn joystick_button_token(button_idx: u8) -> (r: String)
    ensures
        r@ == "SDL_JOYSTICK_BUTTON_"@ + decimal(button_idx as nat),
{
    let mut s = owned("SDL_JOYSTICK_BUTTON_");
    push_decimal(&mut s, button_idx as u64);
    s
}

/// The direction of a stick value: -1, 0 or 1 outside the dead zone.
pub open spec fn axis_direction_spec(value: i16) -> i8 {
    if value <= -DEAD_ZONE {
        -1i8
    } else if value >= DEAD_ZONE {
        1i8
    } else {
        0i8
    }
}

/// The direction of a stick value.
pub fn axis_direction(value: i16) -> (r: i8)
    ensures
        r == axis_direction_spec(value),
{
    if value <= -DEAD_ZONE {
        -1
    } else if value >= DEAD_ZONE {
        1
    } else {
        0
    }
}

/// The direction of a trigger value: 1 when pulled past the dead zone.
pub open spec fn trigger_direction_spec(value: i16) -> i8 {
    if value >= DEAD_ZONE { 1i8 } else { 0i8 }
}

/// The direction of a trigger value.
pub fn trigger_axis_direction(value: i16) -> (r: i8)
    ensures
        r == trigger_direction_spec(value),
{
    if value >= DEAD_ZONE {
        1
    } else {
        0
    }
}

/// The token of a joystick axis moved in direction `-1` or `1`.
pub open spec fn joystick_axis_token_spec(axis_idx: u8, direction: i8) -> Seq<char> {
    "SDL_JOYSTICK_AXIS_"@ + decimal(axis_idx as nat) + if direction < 0 { "_NEG"@ } else { "_POS"@ }
}

/// The token of a controller axis moved in direction `-1` or `1`.
pub open spec fn controller_axis_token_spec(axis: ControllerAxis, direction: i8) -> Seq<char> {
    "SDL_CONTROLLER_AXIS_"@ + axis_name(axis) + if direction < 0 { "_NEG"@ } else { "_POS"@ }
}

pub fn joystick_axis_token_for(axis_idx: u8, direction: i8) -> (r: String)
    ensures
        r@ == joystick_axis_token_spec(axis_idx, direction),
{
    let mut s = owned("SDL_JOYSTICK_AXIS_");
    push_decimal(&mut s, axis_idx as u64);
    push_str(&mut s, if direction < 0 { "_NEG" } else { "_POS" });
    s
}

pub fn controller_axis_token_for(axis: ControllerAxis, direction: i8) -> (r: String)
    ensures
        r@ == controller_axis_token_spec(axis, direction),
{
    let mut s = owned("SDL_CONTROLLER_AXIS_");
    push_str(&mut s, axis_str(axis));
    push_str(&mut s, if direction < 0 { "_NEG" } else { "_POS" });
    s
}

/// The token of a joystick axis value outside the dead zone.
pub fn joystick_axis_token(axis_idx: u8, value: i16) -> (r: Option<String>)
    ensures
        axis_direction_spec(value) == 0 ==> r is None,
        axis_direction_spec(value) != 0 ==> (r matches Some(t)
            && t@ == joystick_axis_token_spec(axis_idx, axis_direction_spec(value))),
{
    let d = axis_direction(value);
    if d == 0 {
        None
    } else {
        Some(joystick_axis_token_for(axis_idx, d))
    }
}

/// The token of a controller axis value: the left stick both ways, the
/// triggers when pulled, nothing for the right stick.
pub fn controller_axis_token(axis: ControllerAxis, value: i16) -> (r: Option<String>)
    ensures
        match axis {
            ControllerAxis::LeftX | ControllerAxis::LeftY => if axis_direction_spec(value) == 0 {
                r is None
            } else {
                (r matches Some(t) && t@ == controller_axis_token_spec(axis, axis_direction_spec(value)))
            },
            ControllerAxis::TriggerLeft | ControllerAxis::TriggerRight => if trigger_direction_spec(value) == 0 {
                r is None
            } else {
                (r matches Some(t) && t@ == controller_axis_token_spec(axis, 1))
            },
            _ => r is None,
        },
{
    match axis {
        ControllerAxis::LeftX | ControllerAxis::LeftY => {
            let d = axis_direction(value);
            if d == 0 {
                None
            } else {
                Some(controller_axis_token_for(axis, d))
            }
        },
        ControllerAxis::TriggerLeft | ControllerAxis::TriggerRight => {
            if trigger_axis_direction(value) == 0 {
                None
            } else {
                Some(controller_axis_token_for(axis, 1))
            }
        },
        _ => None,
    }
}

/// The action that a mapping label stands for in the menus.
pub open spec fn label_action(label: Seq<char>) -> Option<ConsoleAction> {
    if has_prefix(label, "Move Up"@) {
        Some(ConsoleAction::Up)
    } else if has_prefix(label, "Move Down"@) {
        Some(ConsoleAction::Down)
    } else if has_prefix(label, "Move Left"@) {
        Some(ConsoleAction::Left)
    } else if has_prefix(label, "Move Right"@) {
        Some(ConsoleAction::Right)
    } else if has_prefix(label, "Button A"@) || has_prefix(label, "Button X"@) || has_prefix(
        label,
        "Button Cross"@,
    ) {
        Some(ConsoleAction::Accept)
    } else if has_prefix(label, "Button B"@) || has_prefix(label, "Button Y"@) || has_prefix(
        label,
        "Button Circle"@,
    ) {
        Some(ConsoleAction::Cancel)
    } else if has_prefix(label, "Button Create"@) || has_prefix(label, "Button Touchpad"@)
        || has_prefix(label, "Top Left"@) || has_prefix(label, "Select"@) {
        Some(ConsoleAction::Select)
    } else if has_prefix(label, "Button Options"@) || has_prefix(label, "Top Right"@) || has_prefix(
        label,
        "Start"@,
    ) {
        Some(ConsoleAction::Start)
    } else {
        None
    }
}

fn begins_with(a: &[char], p: &str) -> (r: bool)
    ensures
        r == has_prefix(a@, p@),
{
    starts_with_chars(a, &chars_of(p))
}

/// The action that a mapping label stands for in the menus.
pub fn action_from_mapping_label(label: &str) -> (r: Option<ConsoleAction>)
    ensures
        r == label_action(label@),
{
    let l = chars_of(label);
    if begins_with(&l, "Move Up") {
        Some(ConsoleAction::Up)
    } else if begins_with(&l, "Move Down") {
        Some(ConsoleAction::Down)
    } else if begins_with(&l, "Move Left") {
        Some(ConsoleAction::Left)
    } else if begins_with(&l, "Move Right") {
        Some(ConsoleAction::Right)
    } else if begins_with(&l, "Button A") || begins_with(&l, "Button X") || begins_with(&l, "Button Cross") {
        Some(ConsoleAction::Accept)
    } else if begins_with(&l, "Button B") || begins_with(&l, "Button Y") || begins_with(&l, "Button Circle") {
        Some(ConsoleAction::Cancel)
    } else if begins_with(&l, "Button Create") || begins_with(&l, "Button Touchpad") || begins_with(
        &l,
        "Top Left",
    ) || begins_with(&l, "Select") {
        Some(ConsoleAction::Select)
    } else if begins_with(&l, "Button Options") || begins_with(&l, "Top Right") || begins_with(&l, "Start") {
        Some(ConsoleAction::Start)
    } else {
        None
    }
}

/// The action of a raw keyboard key: arrows and WASD move, Space and Enter
/// accept, Escape cancels, Tab selects.
pub open spec fn raw_key_action(key_code: u16) -> Option<ConsoleAction> {
    if key_code == KEY_UP || key_code == KEY_W {
        Some(ConsoleAction::Up)
    } else if key_code == KEY_DOWN || key_code == KEY_S {
        Some(ConsoleAction::Down)
    } else if key_code == KEY_LEFT || key_code == KEY_A {
        Some(ConsoleAction::Left)
    } else if key_code == KEY_RIGHT || key_code == KEY_D {
        Some(ConsoleAction::Right)
    } else if key_code == KEY_SPACE || key_code == KEY_ENTER {
        Some(ConsoleAction::Accept)
    } else if key_code == KEY_ESC {
        Some(ConsoleAction::Cancel)
    } else if key_code == KEY_TAB {
        Some(ConsoleAction::Select)
    } else {
        None
    }
}

/// The action of a raw keyboard key.
pub fn raw_keyboard_action(key_code: u16) -> (r: Option<ConsoleAction>)
    ensures
        r == raw_key_action(key_code),
{
    if key_code == KEY_UP || key_code == KEY_W {
        Some(ConsoleAction::Up)
    } else if key_code == KEY_DOWN || key_code == KEY_S {
        Some(ConsoleAction::Down)
    } else if key_code == KEY_LEFT || key_code == KEY_A {
        Some(ConsoleAction::Left)
    } else if key_code == KEY_RIGHT || key_code == KEY_D {
        Some(ConsoleAction::Right)
    } else if key_code == KEY_SPACE || key_code == KEY_ENTER {
        Some(ConsoleAction::Accept)
    } else if key_code == KEY_ESC {
        Some(ConsoleAction::Cancel)
    } else if key_code == KEY_TAB {
        Some(ConsoleAction::Select)
    } else {
        None
    }
}


/// Which keyboard keys give which action: each direction comes from exactly
/// its arrow key and its WASD key (so distinct directions come from distinct
/// keys), Accept from Space and Enter, Cancel from Escape, Select from Tab;
/// Start comes from no key, and every other key gives no action.
pub proof fn lemma_raw_key_actions(k: u16)
    ensures
        (raw_key_action(k) == Some(ConsoleAction::Up)) == (k == KEY_UP || k == KEY_W),
        (raw_key_action(k) == Some(ConsoleAction::Down)) == (k == KEY_DOWN || k == KEY_S),
        (raw_key_action(k) == Some(ConsoleAction::Left)) == (k == KEY_LEFT || k == KEY_A),
        (raw_key_action(k) == Some(ConsoleAction::Right)) == (k == KEY_RIGHT || k == KEY_D),
        (raw_key_action(k) == Some(ConsoleAction::Accept)) == (k == KEY_SPACE || k == KEY_ENTER),
        (raw_key_action(k) == Some(ConsoleAction::Cancel)) == (k == KEY_ESC),
        (raw_key_action(k) == Some(ConsoleAction::Select)) == (k == KEY_TAB),
        raw_key_action(k) != Some(ConsoleAction::Start),
        (raw_key_action(k) is None) == !(k == KEY_UP || k == KEY_W || k == KEY_DOWN || k == KEY_S || k == KEY_LEFT
            || k == KEY_A || k == KEY_RIGHT || k == KEY_D || k == KEY_SPACE || k == KEY_ENTER || k == KEY_ESC
            || k == KEY_TAB),
{
}

/// The unique id of an SDL game controller.
pub open spec fn controller_unique_id_spec(name: Seq<char>, vendor: Option<u16>, product: Option<u16>) -> Seq<char> {
    "kind:controller|name:"@ + name + "|vendor:"@ + match vendor {
        Some(v) => decimal(v as nat),
        None => ""@,
    } + "|product:"@ + match product {
        Some(p) => decimal(p as nat),
        None => ""@,
    }
}

/// The unique id of an SDL game controller, from its name and USB ids.
pub fn controller_unique_id(name: &str, vendor: Option<u16>, product: Option<u16>) -> (r: String)
    ensures
        r@ == controller_unique_id_spec(name@, vendor, product),
{
    proof {
        reveal_strlit("");
    }
    let mut s = owned("kind:controller|name:");
    push_str(&mut s, name);
    push_str(&mut s, "|vendor:");
    let ghost a = s@;
    if let Some(v) = vendor {
        push_decimal(&mut s, v as u64);
    } else {
        assert(a + ""@ =~= a);
    }
    push_str(&mut s, "|product:");
    let ghost b = s@;
    if let Some(p) = product {
        push_decimal(&mut s, p as u64);
    } else {
        assert(b + ""@ =~= b);
    }
    s
}

/// The unique id of an SDL joystick, from its GUID text and name.
pub fn joystick_unique_id(guid: &str, name: &str) -> (r: String)
    ensures
        r@ == "kind:joystick|guid:"@ + guid@ + "|name:"@ + name@,
{
    let mut s = owned("kind:joystick|guid:");
    push_str(&mut s, guid);
    push_str(&mut s, "|name:");
    push_str(&mut s, name);
    s
}

/// The device record of the game controller at SDL index `index`.
pub fn controller_device_info_from_controller(index: u32, name: &str, unique_id: &str) -> (d: ControllerDeviceInfo)
    ensures
        d.event_node@ == "sdl:"@ + decimal(index as nat),
        d.name@ == name@,
        d.unique_id@ == unique_id@,
        d.physical_path@ == "SDL controller index "@ + decimal(index as nat),
{
    let mut node = owned("sdl:");
    push_decimal(&mut node, index as u64);
    let mut path = owned("SDL controller index ");
    push_decimal(&mut path, index as u64);
    ControllerDeviceInfo { event_node: node, name: owned(name), unique_id: owned(unique_id), physical_path: path }
}

/// The description of a joystick's axes, buttons and hats.
pub open spec fn joystick_shape(axes: u32, buttons: u32, hats: u32) -> Seq<char> {
    " axes="@ + decimal(axes as nat) + " buttons="@ + decimal(buttons as nat) + " hats="@ + decimal(hats as nat)
}

fn push_shape(s: &mut String, axes: u32, buttons: u32, hats: u32)
    ensures
        final(s)@ == old(s)@ + joystick_shape(axes, buttons, hats),
{
    push_str(s, " axes=");
    push_decimal(s, axes as u64);
    push_str(s, " buttons=");
    push_decimal(s, buttons as u64);
    push_str(s, " hats=");
    push_decimal(s, hats as u64);
}

/// The device record of the plain joystick at SDL index `index`.
pub fn controller_device_info_from_joystick(
    index: u32,
    name: &str,
    unique_id: &str,
    axes: u32,
    buttons: u32,
    hats: u32,
) -> (d: ControllerDeviceInfo)
    ensures
        d.event_node@ == "sdl-joystick:"@ + decimal(index as nat),
        d.name@ == name@,
        d.unique_id@ == unique_id@,
        d.physical_path@ == "SDL joystick index "@ + decimal(index as nat) + joystick_shape(axes, buttons, hats),
{
    let mut node = owned("sdl-joystick:");
    push_decimal(&mut node, index as u64);
    let mut path = owned("SDL joystick index ");
    push_decimal(&mut path, index as u64);
    push_shape(&mut path, axes, buttons, hats);
    ControllerDeviceInfo { event_node: node, name: owned(name), unique_id: owned(unique_id), physical_path: path }
}

/// The device record of an open game controller with SDL instance id
/// `instance_id`.
pub fn runtime_controller_device(instance_id: u32, name: &str, unique_id: &str) -> (d: ControllerDeviceInfo)
    ensures
        d.event_node@ == "sdl-instance:"@ + decimal(instance_id as nat),
        d.name@ == name@,
        d.unique_id@ == unique_id@,
        d.physical_path@ == "SDL controller instance "@ + decimal(instance_id as nat),
{
    let mut node = owned("sdl-instance:");
    push_decimal(&mut node, instance_id as u64);
    let mut path = owned("SDL controller instance ");
    push_decimal(&mut path, instance_id as u64);
    ControllerDeviceInfo { event_node: node, name: owned(name), unique_id: owned(unique_id), physical_path: path }
}

/// The device record of an open plain joystick with SDL instance id
/// `instance_id`.
pub fn runtime_joystick_device(
    instance_id: u32,
    name: &str,
    unique_id: &str,
    axes: u32,
    buttons: u32,
    hats: u32,
) -> (d: ControllerDeviceInfo)
    ensures
        d.event_node@ == "sdl-joystick-instance:"@ + decimal(instance_id as nat),
        d.name@ == name@,
        d.unique_id@ == unique_id@,
        d.physical_path@ == "SDL joystick instance "@ + decimal(instance_id as nat) + joystick_shape(axes, buttons, hats),
{
    let mut node = owned("sdl-joystick-instance:");
    push_decimal(&mut node, instance_id as u64);
    let mut path = owned("SDL joystick instance ");
    push_decimal(&mut path, instance_id as u64);
    push_shape(&mut path, axes, buttons, hats);
    ControllerDeviceInfo { event_node: node, name: owned(name), unique_id: owned(unique_id), physical_path: path }
}

/// A device is the chosen one when nothing is chosen or its id is the
/// chosen id.
pub fn device_matches_selected(device_id: &str, selected_device_id: Option<&str>) -> (r: bool)
    ensures
        r == match selected_device_id {
            Some(s) => device_id@ == s@,
            None => true,
        },
{
    match selected_device_id {
        Some(selected) => crate::text::str_eq(device_id, selected),
        None => true,
    }
}



/// The event of a keyboard that connected or disconnected.
pub fn keyboard_connection_event(device_node: &str, device_name: &str, connected: bool) -> (e: ConsoleInputEvent)
    ensures
        e.phase == (if connected { ConsoleInputPhase::Connected } else { ConsoleInputPhase::Disconnected }),
        e.source matches ConsoleInputSource::Keyboard { keycode, device_name: n } && keycode@ == Seq::<char>::empty() && n@ == device_name@,
        e.action is None,
        e.token@ == (if connected { "KEYBOARD_CONNECTED:"@ } else { "KEYBOARD_DISCONNECTED:"@ }) + device_node@,
        !e.pressed,
        e.timestamp == 0,
        e.controller_name@ == device_name@,
{
    let mut token = owned(if connected { "KEYBOARD_CONNECTED:" } else { "KEYBOARD_DISCONNECTED:" });
    push_str(&mut token, device_node);
    ConsoleInputEvent {
        phase: if connected { ConsoleInputPhase::Connected } else { ConsoleInputPhase::Disconnected },
        source: ConsoleInputSource::Keyboard { keycode: String::new(), device_name: owned(device_name) },
        action: None,
        token,
        pressed: false,
        timestamp: 0,
        controller_name: owned(device_name),
    }
}

/// The event of a game controller (or, with `joystick`, a plain joystick)
/// that connected or disconnected.
pub fn controller_connection_event(
    instance_id: u32,
    device_id: &str,
    controller_name: &str,
    joystick: bool,
    connected: bool,
    timestamp: u32,
) -> (e: ConsoleInputEvent)
    ensures
        e.phase == (if connected { ConsoleInputPhase::Connected } else { ConsoleInputPhase::Disconnected }),
        e.source matches ConsoleInputSource::Controller { instance_id: i, device_id: d, controller_name: n }
            && i == instance_id && d@ == device_id@ && n@ == controller_name@,
        e.action is None,
        e.token@ == (if joystick { "SDL_JOYSTICK_"@ } else { "SDL_CONTROLLER_"@ }) + (if connected {
            "CONNECTED:"@
        } else {
            "DISCONNECTED:"@
        }) + decimal(instance_id as nat),
        !e.pressed,
        e.timestamp == timestamp,
        e.controller_name@ == controller_name@,
{
    let mut token = owned(if joystick { "SDL_JOYSTICK_" } else { "SDL_CONTROLLER_" });
    push_str(&mut token, if connected { "CONNECTED:" } else { "DISCONNECTED:" });
    push_decimal(&mut token, instance_id as u64);
    ConsoleInputEvent {
        phase: if connected { ConsoleInputPhase::Connected } else { ConsoleInputPhase::Disconnected },
        source: ConsoleInputSource::Controller { instance_id, device_id: owned(device_id), controller_name: owned(controller_name) },
        action: None,
        token,
        pressed: false,
        timestamp,
        controller_name: owned(controller_name),
    }
}

/// A field-by-field copy of a device record.
pub fn copy_controller_device(d: &ControllerDeviceInfo) -> (r: ControllerDeviceInfo)
    ensures
        r == *d,
{
    ControllerDeviceInfo {
        event_node: d.event_node.clone(),
        name: d.name.clone(),
        unique_id: d.unique_id.clone(),
        physical_path: d.physical_path.clone(),
    }
}

/// A device list ordered by unique id (`lex_lt` never goes backwards).
pub open spec fn sorted_by_id(v: Seq<ControllerDeviceInfo>) -> bool {
    forall|i: int, j: int| 0 <= i < j < v.len() ==> !crate::text::lex_lt(#[trigger] v[j].unique_id@, #[trigger] v[i].unique_id@)
}

/// The open controllers and joysticks as one list ordered by unique id; the
/// relative order of devices with the same id is kept.
pub fn collect_runtime_controller_devices(
    controllers: Vec<ControllerDeviceInfo>,
    joysticks: Vec<ControllerDeviceInfo>,
) -> (r: Vec<ControllerDeviceInfo>)
    ensures
        r@.to_multiset() == (controllers@ + joysticks@).to_multiset(),
        sorted_by_id(r@),
{
    let mut all = controllers;
    let mut js = joysticks;
    let ghost input = all@ + js@;
    all.append(&mut js);
    assert(all@ == input);
    let mut r: Vec<ControllerDeviceInfo> = Vec::new();
    let mut i: usize = 0;
    assert(r@ == input.take(0));
    while i < all.len()
        invariant
            i <= all.len(),
            all@ == input,
            r@.to_multiset() == input.take(i as int).to_multiset(),
            sorted_by_id(r@),
        decreases all.len() - i,
    {
        let d = copy_controller_device(&all[i]);
        let mut p: usize = 0;
        while p < r.len() && !crate::text::str_lt(d.unique_id.as_str(), r[p].unique_id.as_str())
            invariant
                p <= r.len(),
                i < all.len(),
                d == all@[i as int],
                forall|k: int| 0 <= k < p ==> !crate::text::lex_lt(d.unique_id@, #[trigger] r@[k].unique_id@),
            decreases r.len() - p,
        {
            p = p + 1;
        }
        let ghost before = r@;
        r.insert(p, d);
        proof {
            broadcast use vstd::seq_lib::group_to_multiset_ensures;
            broadcast use vstd::multiset::group_multiset_axioms;
            assert(r@.remove(p as int) =~= before);
            assert(r@[p as int] == all@[i as int]);
            let m1 = r@.to_multiset();
            assert(m1.remove(all@[i as int]) == before.to_multiset());
            assert(r@.contains(all@[i as int]));
            assert(m1 =~= before.to_multiset().insert(all@[i as int]));
            assert(input.take(i + 1) == input.take(i as int).push(input[i as int]));
            assert(input.take(i + 1).to_multiset() =~= input.take(i as int).to_multiset().insert(input[i as int]));
            assert(sorted_by_id(before));
            assert forall|a: int, b: int| 0 <= a < b < r@.len() implies !crate::text::lex_lt(#[trigger] r@[b].unique_id@, #[trigger] r@[a].unique_id@) by {
                let x = all@[i as int].unique_id@;
                if b < p {
                    assert(r@[a] == before[a] && r@[b] == before[b]);
                    assert(!crate::text::lex_lt(before[b].unique_id@, before[a].unique_id@));
                } else if b == p {
                    assert(r@[a] == before[a]);
                    assert(!crate::text::lex_lt(x, before[a].unique_id@));
                } else if a < p {
                    assert(r@[a] == before[a] && r@[b] == before[b - 1]);
                    assert(!crate::text::lex_lt(before[b - 1].unique_id@, before[a].unique_id@));
                } else if a == p {
                    assert(r@[b] == before[b - 1]);
                    assert(p < before.len());
                    assert(crate::text::lex_lt(x, before[p as int].unique_id@));
                    if crate::text::lex_lt(before[b - 1].unique_id@, x) {
                        crate::text::lemma_lex_transitive(before[b - 1].unique_id@, x, before[p as int].unique_id@);
                        if b - 1 == p {
                            crate::text::lemma_lex_irreflexive(before[p as int].unique_id@);
                        } else {
                            assert(!crate::text::lex_lt(before[b - 1].unique_id@, before[p as int].unique_id@));
                        }
                    }
                } else {
                    assert(r@[a] == before[a - 1] && r@[b] == before[b - 1]);
                    assert(!crate::text::lex_lt(before[b - 1].unique_id@, before[a - 1].unique_id@));
                }
            }
        }
        i = i + 1;
    }
    assert(input.take(input.len() as int) == input);
    r
}


/// An input seen while capturing the token of one control.
#[derive(Debug, Clone)]
pub enum CaptureInput {
    ControllerButton { device_id: String, button: ControllerButton },
    JoystickButton { device_id: String, button_idx: u8 },
    /// `ignored` when the joystick's axis has not yet been seen at rest.
    JoystickAxis { device_id: String, axis_idx: u8, value: i16, ignored: bool },
    ControllerAxis { device_id: String, axis: ControllerAxis, value: i16 },
    Key { key: CaptureKey },
}

/// The token that an input captures, if any: inputs of devices other than
/// the chosen one, stick positions inside the dead zone and joystick axes
/// not yet seen at rest capture nothing.
pub open spec fn capture_token_spec(input: CaptureInput, selected: Option<Seq<char>>) -> Option<Seq<char>> {
    let chosen = |d: Seq<char>| match selected {
        Some(s) => d == s,
        None => true,
    };
    match input {
        CaptureInput::ControllerButton { device_id, button } => if chosen(device_id@) {
            Some(button_token_spec(button))
        } else {
            None
        },
        CaptureInput::JoystickButton { device_id, button_idx } => if chosen(device_id@) {
            Some("SDL_JOYSTICK_BUTTON_"@ + decimal(button_idx as nat))
        } else {
            None
        },
        CaptureInput::JoystickAxis { device_id, axis_idx, value, ignored } => if chosen(device_id@) && !ignored
            && axis_direction_spec(value) != 0 {
            Some(joystick_axis_token_spec(axis_idx, axis_direction_spec(value)))
        } else {
            None
        },
        CaptureInput::ControllerAxis { device_id, axis, value } => if !chosen(device_id@) {
            None
        } else {
            match axis {
                ControllerAxis::LeftX | ControllerAxis::LeftY => if axis_direction_spec(value) != 0 {
                    Some(controller_axis_token_spec(axis, axis_direction_spec(value)))
                } else {
                    None
                },
                ControllerAxis::TriggerLeft | ControllerAxis::TriggerRight => if trigger_direction_spec(value) != 0 {
                    Some(controller_axis_token_spec(axis, 1))
                } else {
                    None
                },
                _ => None,
            }
        },
        CaptureInput::Key { key } => Some(keyboard_token_spec(key)),
    }
}

/// The optional string as a sequence.
pub open spec fn opt_string(o: Option<String>) -> Option<Seq<char>> {
    match o {
        Some(s) => Some(s@),
        None => None,
    }
}

/// The token that an input captures for the device `selected_device_id`
/// (any device when `None`).
pub fn capture_token(input: &CaptureInput, selected_device_id: Option<&str>) -> (r: Option<String>)
    ensures
        opt_string(r) == capture_token_spec(*input, match selected_device_id {
            Some(s) => Some(s@),
            None => None,
        }),
{
    match input {
        CaptureInput::ControllerButton { device_id, button } => if device_matches_selected(device_id.as_str(), selected_device_id) {
            Some(controller_button_token(*button))
        } else {
            None
        },
        CaptureInput::JoystickButton { device_id, button_idx } => if device_matches_selected(device_id.as_str(), selected_device_id) {
            Some(joystick_button_token(*button_idx))
        } else {
            None
        },
        CaptureInput::JoystickAxis { device_id, axis_idx, value, ignored } => {
            if !device_matches_selected(device_id.as_str(), selected_device_id) || *ignored {
                return None;
            }
            joystick_axis_token(*axis_idx, *value)
        },
        CaptureInput::ControllerAxis { device_id, axis, value } => {
            if !device_matches_selected(device_id.as_str(), selected_device_id) {
                return None;
            }
            controller_axis_token(*axis, *value)
        },
        CaptureInput::Key { key } => Some(keyboard_token(*key)),
    }
}

} // verus!
