use vstd::prelude::*;
use vstd::string::*;

use crate::keyboard_input::{KEY_A, KEY_D, KEY_DOWN, KEY_ENTER, KEY_ESC, KEY_LEFT, KEY_RIGHT, KEY_S, KEY_SPACE, KEY_UP, KEY_W};
use crate::text::{
    ascii_lower, chars_eq, chars_of, contains_chars, contains_seq, decimal, first_piece_with_prefix,
    first_with_prefix, insert_sorted_unique, lower_chars, owned, push_decimal, push_str, split_on,
    split_on_char, str_eq, string_of, strictly_sorted,
};

verus! {

broadcast use vstd::string::group_string_axioms;

/// A controller input device as the setup screens list it.
#[derive(Debug, Clone)]
pub struct ControllerInputDeviceInfo {
    pub event_node: String,
    pub name: String,
    pub unique_id: String,
    pub physical_path: String,
}

/// The value of the first `|`-separated segment of `device_id` that begins
/// with `prefix`.
pub open spec fn segment_value_spec(device_id: Seq<char>, prefix: Seq<char>) -> Option<Seq<char>> {
    first_with_prefix(split_on(device_id, '|'), prefix)
}

/// The value of the first `|`-separated segment of `device_id` that begins
/// with `prefix`, e.g. the name in `kind:joystick|name:Pad`.
pub fn segment_value(device_id: &str, prefix: &str) -> (r: Option<String>)
    ensures
        r matches Some(v) ==> segment_value_spec(device_id@, prefix@) == Some(v@),
        r is None ==> segment_value_spec(device_id@, prefix@) is None,
{
    let id = chars_of(device_id);
    let p = chars_of(prefix);
    let pieces = split_on_char(&id, '|');
    proof {
        assert(pieces@.map_values(|q: Vec<char>| q@) =~= split_on(id@, '|'));
    }
    match first_piece_with_prefix(&pieces, &p) {
        Some(v) => Some(string_of(&v)),
        None => None,
    }
}

/// The aliases that `device_id_aliases` adds to a device id, in the order the
/// rules produce them (the id itself first).
pub open spec fn alias_candidates(device_id: Seq<char>) -> Seq<Seq<char>> {
    let kind = segment_value_spec(device_id, "kind:"@);
    let name = segment_value_spec(device_id, "name:"@);
    let vendor = segment_value_spec(device_id, "vendor:"@);
    let product = segment_value_spec(device_id, "product:"@);
    let guid = segment_value_spec(device_id, "guid:"@);
    let legacy_joystick = segment_value_spec(device_id, "joystick-instance:"@) is Some;
    let legacy_controller = segment_value_spec(device_id, "instance:"@) is Some;
    let first = seq![device_id];
    let controller_aliases = if name is Some && vendor is Some && product is Some {
        seq![
            "kind:controller|name:"@ + name->0 + "|vendor:"@ + vendor->0 + "|product:"@ + product->0,
            "controller-name:"@ + name->0 + "|vendor:"@ + vendor->0 + "|product:"@ + product->0,
        ]
    } else if (kind == Some("controller"@) || legacy_controller) && name is Some {
        seq!["controller-name:"@ + name->0]
    } else {
        seq![]
    };
    let joystick_aliases = if name is Some && (guid is Some || kind == Some("joystick"@) || legacy_joystick) {
        seq!["kind:joystick|name:"@ + name->0, "joystick-name:"@ + name->0]
    } else {
        seq![]
    };
    let guid_aliases = if guid is Some && name is Some {
        seq!["kind:joystick|guid:"@ + guid->0 + "|name:"@ + name->0]
    } else {
        seq![]
    };
    first + controller_aliases + joystick_aliases + guid_aliases
}

/// The aliases of a device id: the id itself and the equivalent forms of
/// controller and joystick ids, sorted and without duplicates.
pub fn device_id_aliases(device_id: &str) -> (r: Vec<String>)
    ensures
        strictly_sorted(r@.map_values(|s: String| s@)),
        r@.map_values(|s: String| s@).to_set() == alias_candidates(device_id@).to_set(),
{
    let kind = segment_value(device_id, "kind:");
    let name = segment_value(device_id, "name:");
    let vendor = segment_value(device_id, "vendor:");
    let product = segment_value(device_id, "product:");
    let guid = segment_value(device_id, "guid:");
    let legacy_joystick = segment_value(device_id, "joystick-instance:").is_some();
    let legacy_controller = segment_value(device_id, "instance:").is_some();

    let mut candidates: Vec<String> = Vec::new();
    candidates.push(owned(device_id));

    let kind_controller = match &kind {
        Some(k) => str_eq(k.as_str(), "controller"),
        None => false,
    };
    let kind_joystick = match &kind {
        Some(k) => str_eq(k.as_str(), "joystick"),
        None => false,
    };

    match (&name, &vendor, &product) {
        (Some(n), Some(v), Some(p)) => {
            let mut a = owned("kind:controller|name:");
            push_str(&mut a, n.as_str());
            push_str(&mut a, "|vendor:");
            push_str(&mut a, v.as_str());
            push_str(&mut a, "|product:");
            push_str(&mut a, p.as_str());
            candidates.push(a);
            let mut b = owned("controller-name:");
            push_str(&mut b, n.as_str());
            push_str(&mut b, "|vendor:");
            push_str(&mut b, v.as_str());
            push_str(&mut b, "|product:");
            push_str(&mut b, p.as_str());
            candidates.push(b);
        },
        _ => {
            if kind_controller || legacy_controller {
                if let Some(n) = &name {
                    let mut a = owned("controller-name:");
                    push_str(&mut a, n.as_str());
                    candidates.push(a);
                }
            }
        },
    }

    if let Some(n) = &name {
        if guid.is_some() || kind_joystick || legacy_joystick {
            let mut a = owned("kind:joystick|name:");
            push_str(&mut a, n.as_str());
            candidates.push(a);
            let mut b = owned("joystick-name:");
            push_str(&mut b, n.as_str());
            candidates.push(b);
        }
    }

    if let (Some(g), Some(n)) = (&guid, &name) {
        let mut a = owned("kind:joystick|guid:");
        push_str(&mut a, g.as_str());
        push_str(&mut a, "|name:");
        push_str(&mut a, n.as_str());
        candidates.push(a);
    }

    proof {
        assert(candidates@.map_values(|s: String| s@) =~= alias_candidates(device_id@));
    }
    sorted_unique(candidates)
}

/// The strings of `v`, sorted and without duplicates.
pub fn sorted_unique(v: Vec<String>) -> (r: Vec<String>)
    ensures
        strictly_sorted(r@.map_values(|s: String| s@)),
        r@.map_values(|s: String| s@).to_set() == v@.map_values(|s: String| s@).to_set(),
{
    let ghost vv = v@.map_values(|s: String| s@);
    let mut r: Vec<String> = Vec::new();
    let mut v = v;
    let mut i: usize = 0;
    let n = v.len();
    proof {
        assert(r@.map_values(|s: String| s@).to_set() =~= vv.take(0).to_set());
    }
    while i < n
        invariant
            n == v.len(),
            i <= n,
            vv == v@.map_values(|s: String| s@),
            strictly_sorted(r@.map_values(|s: String| s@)),
            r@.map_values(|s: String| s@).to_set() == vv.take(i as int).to_set(),
        decreases n - i,
    {
        let s = owned(v[i].as_str());
        insert_sorted_unique(&mut r, s);
        proof {
            assert(vv.take(i + 1) == vv.take(i as int).push(vv[i as int]));
            vv.take(i as int).lemma_push_to_set_commute(vv[i as int]);
        }
        i = i + 1;
    }
    proof {
        assert(vv.take(n as int) == vv);
    }
    r
}

/// Some alias of `selected_device_id` is among `device_aliases`.
pub fn device_id_matches_aliases(selected_device_id: &str, device_aliases: &Vec<String>) -> (r: bool)
    ensures
        r == exists|a: Seq<char>|
            #![trigger alias_candidates(selected_device_id@).contains(a)]
            alias_candidates(selected_device_id@).contains(a)
                && device_aliases@.map_values(|s: String| s@).contains(a),
{
    let selected = device_id_aliases(selected_device_id);
    let ghost sv = selected@.map_values(|s: String| s@);
    let ghost dv = device_aliases@.map_values(|s: String| s@);
    let mut i: usize = 0;
    while i < selected.len()
        invariant
            i <= selected.len(),
            sv == selected@.map_values(|s: String| s@),
            dv == device_aliases@.map_values(|s: String| s@),
            sv.to_set() == alias_candidates(selected_device_id@).to_set(),
            forall|k: int| 0 <= k < i ==> !dv.contains(#[trigger] sv[k]),
        decreases selected.len() - i,
    {
        let mut j: usize = 0;
        while j < device_aliases.len()
            invariant
                i < selected.len(),
                j <= device_aliases.len(),
                sv == selected@.map_values(|s: String| s@),
                dv == device_aliases@.map_values(|s: String| s@),
                sv.to_set() == alias_candidates(selected_device_id@).to_set(),
                forall|k: int| 0 <= k < j ==> dv[k] != sv[i as int],
            decreases device_aliases.len() - j,
        {
            if str_eq(device_aliases[j].as_str(), selected[i].as_str()) {
                proof {
                    assert(dv[j as int] == sv[i as int]);
                    assert(sv.contains(sv[i as int]));
                    assert(sv.to_set().contains(sv[i as int]));
                    assert(alias_candidates(selected_device_id@).to_set().contains(sv[i as int]));
                    assert(alias_candidates(selected_device_id@).contains(sv[i as int]));
                    assert(dv.contains(sv[i as int]));
                }
                return true;
            }
            j = j + 1;
        }
        i = i + 1;
    }
    proof {
        assert forall|a: Seq<char>|
            alias_candidates(selected_device_id@).contains(a) implies !dv.contains(a) by {
            assert(alias_candidates(selected_device_id@).to_set().contains(a));
            assert(sv.to_set().contains(a));
            let k = choose|k: int| 0 <= k < sv.len() && sv[k] == a;
            assert(!dv.contains(sv[k]));
        }
    }
    false
}

} // verus!

verus! {

/// A field-by-field copy of a device record.
pub fn copy_device_info(d: &ControllerInputDeviceInfo) -> (r: ControllerInputDeviceInfo)
    ensures
        r == *d,
{
    ControllerInputDeviceInfo {
        event_node: d.event_node.clone(),
        name: d.name.clone(),
        unique_id: d.unique_id.clone(),
        physical_path: d.physical_path.clone(),
    }
}


// ---------------------------------------------------------------------------
// evdev events as console tokens
// ---------------------------------------------------------------------------

/// evdev event type of key and button events.
pub const EV_KEY: u16 = 1;
/// evdev event type of absolute axis events.
pub const EV_ABS: u16 = 3;

pub const KEY_KPENTER: u16 = 96;
pub const BTN_TRIGGER: u16 = 0x120;
pub const BTN_THUMB: u16 = 0x121;
pub const BTN_THUMB2: u16 = 0x122;
pub const BTN_TOP: u16 = 0x123;
pub const BTN_TOP2: u16 = 0x124;
pub const BTN_PINKIE: u16 = 0x125;
pub const BTN_BASE: u16 = 0x126;
pub const BTN_BASE2: u16 = 0x127;
pub const BTN_BASE3: u16 = 0x128;
pub const BTN_BASE4: u16 = 0x129;
pub const BTN_SOUTH: u16 = 0x130;
pub const BTN_EAST: u16 = 0x131;
pub const BTN_NORTH: u16 = 0x133;
pub const BTN_WEST: u16 = 0x134;
pub const BTN_SELECT: u16 = 0x13a;
pub const BTN_START: u16 = 0x13b;
pub const BTN_MODE: u16 = 0x13c;
pub const BTN_DPAD_UP: u16 = 0x220;
pub const BTN_DPAD_DOWN: u16 = 0x221;
pub const BTN_DPAD_LEFT: u16 = 0x222;
pub const BTN_DPAD_RIGHT: u16 = 0x223;
pub const BTN_TRIGGER_HAPPY1: u16 = 0x2c0;
pub const BTN_TRIGGER_HAPPY2: u16 = 0x2c1;

pub const ABS_X: u16 = 0x00;
pub const ABS_Y: u16 = 0x01;
pub const ABS_RX: u16 = 0x03;
pub const ABS_RY: u16 = 0x04;
pub const ABS_HAT0X: u16 = 0x10;
pub const ABS_HAT0Y: u16 = 0x11;

/// The text that evdev's `Debug` gives a key code (its constant's name,
/// or `unknown key: <code>`).
pub uninterp spec fn evdev_key_debug(code: u16) -> Seq<char>;

/// `format!("{:?}", evdev::Key::new(code))`: evdev's name for a key code.
#[verifier::external_body]
fn key_debug_name(code: u16) -> (r: String)
    ensures
        r@ == evdev_key_debug(code),
{
    format!("{:?}", evdev::Key::new(code))
}

/// The console token of the keys and buttons that the console knows.
pub open spec fn known_key_token(code: u16) -> Option<Seq<char>> {
    if code == KEY_UP || code == BTN_DPAD_UP {
        Some("UpArrow"@)
    } else if code == KEY_DOWN || code == BTN_DPAD_DOWN {
        Some("DownArrow"@)
    } else if code == KEY_LEFT || code == BTN_DPAD_LEFT {
        Some("LeftArrow"@)
    } else if code == KEY_RIGHT || code == BTN_DPAD_RIGHT {
        Some("RightArrow"@)
    } else if code == KEY_W {
        Some("W"@)
    } else if code == KEY_A {
        Some("A"@)
    } else if code == KEY_S {
        Some("S"@)
    } else if code == KEY_D {
        Some("D"@)
    } else if code == KEY_SPACE || code == BTN_SOUTH || code == BTN_WEST || code == BTN_TRIGGER || code == BTN_THUMB {
        Some("Space"@)
    } else if code == KEY_ENTER || code == KEY_KPENTER || code == BTN_NORTH || code == BTN_TRIGGER_HAPPY1
        || code == BTN_TRIGGER_HAPPY2 || code == BTN_THUMB2 || code == BTN_SELECT || code == BTN_BASE {
        Some("Return"@)
    } else if code == KEY_ESC || code == BTN_START || code == BTN_MODE || code == BTN_EAST {
        Some("Escape"@)
    } else {
        None
    }
}

/// The token of a key code: the console's name for it, else evdev's.
pub open spec fn key_token_spec(code: u16) -> Seq<char> {
    match known_key_token(code) {
        Some(t) => t,
        None => evdev_key_debug(code),
    }
}

/// The console token of a key or button code.
pub fn normalize_key(code: u16) -> (r: String)
    ensures
        r@ == key_token_spec(code),
{
    let known: Option<&str> = if code == KEY_UP || code == BTN_DPAD_UP {
        Some("UpArrow")
    } else if code == KEY_DOWN || code == BTN_DPAD_DOWN {
        Some("DownArrow")
    } else if code == KEY_LEFT || code == BTN_DPAD_LEFT {
        Some("LeftArrow")
    } else if code == KEY_RIGHT || code == BTN_DPAD_RIGHT {
        Some("RightArrow")
    } else if code == KEY_W {
        Some("W")
    } else if code == KEY_A {
        Some("A")
    } else if code == KEY_S {
        Some("S")
    } else if code == KEY_D {
        Some("D")
    } else if code == KEY_SPACE || code == BTN_SOUTH || code == BTN_WEST || code == BTN_TRIGGER || code == BTN_THUMB {
        Some("Space")
    } else if code == KEY_ENTER || code == KEY_KPENTER || code == BTN_NORTH || code == BTN_TRIGGER_HAPPY1
        || code == BTN_TRIGGER_HAPPY2 || code == BTN_THUMB2 || code == BTN_SELECT || code == BTN_BASE {
        Some("Return")
    } else if code == KEY_ESC || code == BTN_START || code == BTN_MODE || code == BTN_EAST {
        Some("Escape")
    } else {
        None
    };
    match known {
        Some(t) => owned(t),
        None => key_debug_name(code),
    }
}

/// The console's key tokens: the arrow key and the D-pad button of each
/// direction give that direction's token, and no other code does (the four
/// tokens are distinct); each other token comes from exactly its keys and
/// buttons. A hat pushed one way presses the token that the arrow key
/// of that way gives.
pub proof fn lemma_direction_tokens(code: u16)
    ensures
        (known_key_token(code) == Some("UpArrow"@)) == (code == KEY_UP || code == BTN_DPAD_UP),
        (known_key_token(code) == Some("DownArrow"@)) == (code == KEY_DOWN || code == BTN_DPAD_DOWN),
        (known_key_token(code) == Some("LeftArrow"@)) == (code == KEY_LEFT || code == BTN_DPAD_LEFT),
        (known_key_token(code) == Some("RightArrow"@)) == (code == KEY_RIGHT || code == BTN_DPAD_RIGHT),
        (code == KEY_UP || code == BTN_DPAD_UP) ==> key_token_spec(code) == "UpArrow"@,
        (code == KEY_DOWN || code == BTN_DPAD_DOWN) ==> key_token_spec(code) == "DownArrow"@,
        (code == KEY_LEFT || code == BTN_DPAD_LEFT) ==> key_token_spec(code) == "LeftArrow"@,
        (code == KEY_RIGHT || code == BTN_DPAD_RIGHT) ==> key_token_spec(code) == "RightArrow"@,
        (known_key_token(code) == Some("W"@)) == (code == KEY_W),
        (known_key_token(code) == Some("A"@)) == (code == KEY_A),
        (known_key_token(code) == Some("S"@)) == (code == KEY_S),
        (known_key_token(code) == Some("D"@)) == (code == KEY_D),
        (known_key_token(code) == Some("Space"@)) == (code == KEY_SPACE || code == BTN_SOUTH || code == BTN_WEST
            || code == BTN_TRIGGER || code == BTN_THUMB),
        (known_key_token(code) == Some("Return"@)) == (code == KEY_ENTER || code == KEY_KPENTER || code == BTN_NORTH
            || code == BTN_TRIGGER_HAPPY1 || code == BTN_TRIGGER_HAPPY2 || code == BTN_THUMB2 || code == BTN_SELECT
            || code == BTN_BASE),
        (known_key_token(code) == Some("Escape"@)) == (code == KEY_ESC || code == BTN_START || code == BTN_MODE
            || code == BTN_EAST),
        "UpArrow"@ != "DownArrow"@ && "UpArrow"@ != "LeftArrow"@ && "UpArrow"@ != "RightArrow"@
            && "DownArrow"@ != "LeftArrow"@ && "DownArrow"@ != "RightArrow"@ && "LeftArrow"@ != "RightArrow"@,
        abs_axis_tokens(ABS_HAT0Y, -1i32)[0] == (key_token_spec(KEY_UP), 1i32),
        abs_axis_tokens(ABS_HAT0Y, 1i32)[1] == (key_token_spec(KEY_DOWN), 1i32),
        abs_axis_tokens(ABS_HAT0X, -1i32)[0] == (key_token_spec(KEY_LEFT), 1i32),
        abs_axis_tokens(ABS_HAT0X, 1i32)[1] == (key_token_spec(KEY_RIGHT), 1i32),
{
    reveal_strlit("UpArrow");
    reveal_strlit("DownArrow");
    reveal_strlit("LeftArrow");
    reveal_strlit("RightArrow");
    reveal_strlit("W");
    reveal_strlit("A");
    reveal_strlit("S");
    reveal_strlit("D");
    reveal_strlit("Space");
    reveal_strlit("Return");
    reveal_strlit("Escape");
    assert("UpArrow"@[0] != "DownArrow"@[0]);
    assert("UpArrow"@[0] != "LeftArrow"@[0]);
    assert("UpArrow"@[0] != "RightArrow"@[0]);
    assert("DownArrow"@[0] != "LeftArrow"@[0]);
    assert("DownArrow"@[0] != "RightArrow"@[0]);
    assert("LeftArrow"@[0] != "RightArrow"@[0]);
    assert("UpArrow"@.len() == 7 && "DownArrow"@.len() == 9 && "LeftArrow"@.len() == 9 && "RightArrow"@.len() == 10);
    assert("W"@.len() == 1 && "A"@.len() == 1 && "S"@.len() == 1 && "D"@.len() == 1);
    assert("Space"@.len() == 5 && "Return"@.len() == 6 && "Escape"@.len() == 6);
    assert("W"@[0] != "A"@[0] && "W"@[0] != "S"@[0] && "W"@[0] != "D"@[0] && "A"@[0] != "S"@[0] && "A"@[0] != "D"@[0]
        && "S"@[0] != "D"@[0]);
    assert("Return"@[0] != "Escape"@[0]);
}

/// The view of a token list.
pub open spec fn tokens_view(v: Seq<(String, i32)>) -> Seq<(Seq<char>, i32)> {
    v.map_values(|t: (String, i32)| (t.0@, t.1))
}

/// The pair of tokens for the two ends of an axis: the one pressed by the
/// direction `dir` (negative, positive, or neither at 0) gets 1.
pub open spec fn axis_pair(neg: Seq<char>, pos: Seq<char>, dir: int) -> Seq<(Seq<char>, i32)> {
    seq![(neg, if dir < 0 { 1i32 } else { 0i32 }), (pos, if dir > 0 { 1i32 } else { 0i32 })]
}

/// The direction of a hat axis value.
pub open spec fn hat_direction(value: i32) -> int {
    if value == -1 { -1 } else if value == 1 { 1 } else { 0 }
}

/// The direction of a stick axis value: values 0..=255 are read as an
/// 8-bit axis centred at 128, others as a 16-bit one centred at 0.
pub open spec fn stick_direction(value: i32) -> int {
    if 0 <= value <= 255 {
        if value <= 64 { -1 } else if value >= 192 { 1 } else { 0 }
    } else if value <= -16384 {
        -1
    } else if value >= 16384 {
        1
    } else {
        0
    }
}

/// The arrow tokens of an absolute axis event.
pub open spec fn abs_axis_tokens(axis: u16, value: i32) -> Seq<(Seq<char>, i32)> {
    if axis == ABS_HAT0X {
        axis_pair("LeftArrow"@, "RightArrow"@, hat_direction(value))
    } else if axis == ABS_HAT0Y {
        axis_pair("UpArrow"@, "DownArrow"@, hat_direction(value))
    } else if axis == ABS_X || axis == ABS_RX {
        axis_pair("LeftArrow"@, "RightArrow"@, stick_direction(value))
    } else if axis == ABS_Y || axis == ABS_RY {
        axis_pair("UpArrow"@, "DownArrow"@, stick_direction(value))
    } else {
        seq![]
    }
}

fn push_pair(out: &mut Vec<(String, i32)>, neg: &str, pos: &str, dir: i8)
    ensures
        tokens_view(final(out)@) == tokens_view(old(out)@) + axis_pair(neg@, pos@, dir as int),
{
    let ghost before = tokens_view(out@);
    out.push((owned(neg), if dir < 0 { 1 } else { 0 }));
    out.push((owned(pos), if dir > 0 { 1 } else { 0 }));
    proof {
        assert(tokens_view(out@) =~= before + axis_pair(neg@, pos@, dir as int));
    }
}

/// The arrow tokens of an absolute axis event.
pub fn normalize_abs_axis(axis: u16, value: i32) -> (r: Vec<(String, i32)>)
    ensures
        tokens_view(r@) == abs_axis_tokens(axis, value),
{
    let mut out: Vec<(String, i32)> = Vec::new();
    let hat: i8 = if value == -1 { -1 } else if value == 1 { 1 } else { 0 };
    let stick: i8 = if 0 <= value && value <= 255 {
        if value <= 64 { -1 } else if value >= 192 { 1 } else { 0 }
    } else if value <= -16384 {
        -1
    } else if value >= 16384 {
        1
    } else {
        0
    };
    proof {
        assert(tokens_view(out@) =~= seq![]);
    }
    if axis == ABS_HAT0X {
        push_pair(&mut out, "LeftArrow", "RightArrow", hat);
    } else if axis == ABS_HAT0Y {
        push_pair(&mut out, "UpArrow", "DownArrow", hat);
    } else if axis == ABS_X || axis == ABS_RX {
        push_pair(&mut out, "LeftArrow", "RightArrow", stick);
    } else if axis == ABS_Y || axis == ABS_RY {
        push_pair(&mut out, "UpArrow", "DownArrow", stick);
    }
    out
}

/// The tokens of an evdev event: a key or button at 0 or 1 gives its token
/// and value, an absolute axis its arrow tokens, anything else none.
pub open spec fn event_tokens(event_type: u16, code: u16, value: i32) -> Seq<(Seq<char>, i32)> {
    if event_type == EV_KEY {
        if value == 0 || value == 1 { seq![(key_token_spec(code), value)] } else { seq![] }
    } else if event_type == EV_ABS {
        abs_axis_tokens(code, value)
    } else {
        seq![]
    }
}

/// The tokens of an evdev event given by its type, code and value.
pub fn normalize_event_tokens(event_type: u16, code: u16, value: i32) -> (r: Vec<(String, i32)>)
    ensures
        tokens_view(r@) == event_tokens(event_type, code, value),
{
    if event_type == EV_KEY {
        let mut out: Vec<(String, i32)> = Vec::new();
        if value == 0 || value == 1 {
            out.push((normalize_key(code), value));
        }
        proof {
            assert(tokens_view(out@) =~= event_tokens(event_type, code, value));
        }
        out
    } else if event_type == EV_ABS {
        normalize_abs_axis(code, value)
    } else {
        let out: Vec<(String, i32)> = Vec::new();
        proof {
            assert(tokens_view(out@) =~= seq![]);
        }
        out
    }
}

/// Buttons that mark an input device as a game controller.
pub open spec fn gamepad_buttons() -> Seq<u16> {
    seq![
        BTN_SOUTH, BTN_EAST, BTN_NORTH, BTN_WEST, BTN_START, BTN_SELECT, BTN_DPAD_UP, BTN_DPAD_DOWN,
        BTN_DPAD_LEFT, BTN_DPAD_RIGHT, BTN_TRIGGER, BTN_THUMB, BTN_THUMB2, BTN_TOP, BTN_TOP2, BTN_PINKIE,
        BTN_BASE, BTN_BASE2, BTN_BASE3, BTN_BASE4,
    ]
}

/// Axes that mark an input device as a game controller.
pub open spec fn direction_axes() -> Seq<u16> {
    seq![ABS_HAT0X, ABS_HAT0Y, ABS_X, ABS_Y, ABS_RX, ABS_RY]
}

/// Some code of `wanted` is in `supported` (none when the device reports no
/// such set).
pub open spec fn supports_any(supported: Option<Seq<u16>>, wanted: Seq<u16>) -> bool {
    match supported {
        Some(s) => exists|i: int| 0 <= i < wanted.len() && s.contains(#[trigger] wanted[i]),
        None => false,
    }
}

fn contains_u16(v: &[u16], x: u16) -> (r: bool)
    ensures
        r == v@.contains(x),
{
    let mut i: usize = 0;
    while i < v.len()
        invariant
            i <= v.len(),
            forall|k: int| 0 <= k < i ==> v@[k] != x,
        decreases v.len() - i,
    {
        if v[i] == x {
            assert(v@[i as int] == x);
            return true;
        }
        i = i + 1;
    }
    false
}

fn supports_any_exec(supported: Option<&[u16]>, wanted: &[u16]) -> (r: bool)
    ensures
        r == supports_any(match supported { Some(s) => Some(s@), None => None }, wanted@),
{
    match supported {
        None => false,
        Some(s) => {
            let mut i: usize = 0;
            while i < wanted.len()
                invariant
                    i <= wanted.len(),
                    supported == Some(s),
                    forall|k: int| 0 <= k < i ==> !s@.contains(#[trigger] wanted@[k]),
                decreases wanted.len() - i,
            {
                if contains_u16(s, wanted[i]) {
                    assert(s@.contains(wanted@[i as int]));
                    return true;
                }
                i = i + 1;
            }
            false
        },
    }
}

/// A device with these supported keys and absolute axes (each absent when
/// the device reports none) is a game controller: it has a gamepad button
/// or a direction axis.
pub open spec fn looks_like_controller_spec(keys: Option<Seq<u16>>, axes: Option<Seq<u16>>) -> bool {
    supports_any(keys, gamepad_buttons()) || supports_any(axes, direction_axes())
}

/// Whether a device with these supported keys and absolute axes is a game
/// controller.
pub fn device_looks_like_controller(keys: Option<&[u16]>, axes: Option<&[u16]>) -> (r: bool)
    ensures
        r == looks_like_controller_spec(
            match keys { Some(k) => Some(k@), None => None },
            match axes { Some(a) => Some(a@), None => None },
        ),
{
    let buttons: [u16; 20] = [
        BTN_SOUTH, BTN_EAST, BTN_NORTH, BTN_WEST, BTN_START, BTN_SELECT, BTN_DPAD_UP, BTN_DPAD_DOWN,
        BTN_DPAD_LEFT, BTN_DPAD_RIGHT, BTN_TRIGGER, BTN_THUMB, BTN_THUMB2, BTN_TOP, BTN_TOP2, BTN_PINKIE,
        BTN_BASE, BTN_BASE2, BTN_BASE3, BTN_BASE4,
    ];
    let dir_axes: [u16; 6] = [ABS_HAT0X, ABS_HAT0Y, ABS_X, ABS_Y, ABS_RX, ABS_RY];
    assert(buttons@ =~= gamepad_buttons());
    assert(dir_axes@ =~= direction_axes());
    supports_any_exec(keys, buttons.as_slice()) || supports_any_exec(axes, dir_axes.as_slice())
}

// ---------------------------------------------------------------------------
// Joystick (`/dev/input/js*`) and hidraw reports as tokens
// ---------------------------------------------------------------------------

/// The signed 16-bit little-endian value of two bytes.
pub open spec fn le_i16(lo: u8, hi: u8) -> int {
    if hi < 128 { lo + 256 * hi } else { lo + 256 * hi - 65536 }
}

/// The tokens of one 8-byte `js_event` record (time, value, type, number):
/// nothing for an initial-state record; a button gives `JS_BTN_<n>` pressed
/// when its value is not 0; an axis gives its two `JS_AXIS_<n>_NEG/POS`
/// tokens, pressed beyond 10000 either way.
pub open spec fn js_record_tokens(rec: Seq<u8>) -> Seq<(Seq<char>, i32)> {
    let value = le_i16(rec[4], rec[5]);
    let kind = rec[6];
    let n = decimal(rec[7] as nat);
    if kind >= 128 {
        seq![]
    } else if kind == 1 {
        seq![("JS_BTN_"@ + n, if value != 0 { 1i32 } else { 0i32 })]
    } else if kind == 2 {
        axis_pair("JS_AXIS_"@ + n + "_NEG"@, "JS_AXIS_"@ + n + "_POS"@, if value <= -10000 { -1 } else if value >= 10000 { 1 } else { 0 })
    } else {
        seq![]
    }
}

/// The tokens of the whole 8-byte records at the start of `bytes`, in order.
pub open spec fn js_tokens(bytes: Seq<u8>) -> Seq<(Seq<char>, i32)>
    decreases bytes.len(),
{
    if bytes.len() < 8 {
        seq![]
    } else {
        js_record_tokens(bytes.take(8)) + js_tokens(bytes.skip(8))
    }
}

proof fn lemma_js_tokens_step(bytes: Seq<u8>, i: int)
    requires
        0 <= i,
        i + 8 <= bytes.len(),
    ensures
        js_tokens(bytes.skip(i)) == js_record_tokens(bytes.subrange(i, i + 8)) + js_tokens(bytes.skip(i + 8)),
{
    assert(bytes.skip(i).take(8) == bytes.subrange(i, i + 8));
    assert(bytes.skip(i).skip(8) == bytes.skip(i + 8));
}

/// The tokens of the joystick event records read from a joystick device;
/// bytes after the last whole record are ignored.
pub fn decode_joystick_events(bytes: &[u8]) -> (r: Vec<(String, i32)>)
    ensures
        tokens_view(r@) == js_tokens(bytes@),
{
    let mut out: Vec<(String, i32)> = Vec::new();
    let mut i: usize = 0;
    proof {
        assert(bytes@.skip(0) == bytes@);
        assert(tokens_view(out@) =~= seq![]);
    }
    while 8 <= bytes.len() - i
        invariant
            i <= bytes.len(),
            tokens_view(out@) + js_tokens(bytes@.skip(i as int)) == js_tokens(bytes@),
        decreases bytes.len() - i,
    {
        proof {
            lemma_js_tokens_step(bytes@, i as int);
        }
        let ghost rec = bytes@.subrange(i as int, i + 8);
        let ghost before = tokens_view(out@);
        let lo = bytes[i + 4];
        let hi = bytes[i + 5];
        let kind = bytes[i + 6];
        let number = bytes[i + 7];
        assert(rec[4] == lo && rec[5] == hi && rec[6] == kind && rec[7] == number);
        let raw: i32 = lo as i32 + 256 * (hi as i32);
        let value: i32 = if hi < 128 { raw } else { raw - 65536 };
        if kind < 128 {
            if kind == 1 {
                let mut t = owned("JS_BTN_");
                push_decimal(&mut t, number as u64);
                out.push((t, if value != 0 { 1 } else { 0 }));
                proof {
                    assert(tokens_view(out@) =~= before + js_record_tokens(rec));
                }
            } else if kind == 2 {
                let mut neg = owned("JS_AXIS_");
                push_decimal(&mut neg, number as u64);
                let mut pos = owned(neg.as_str());
                push_str(&mut neg, "_NEG");
                push_str(&mut pos, "_POS");
                let dir: i8 = if value <= -10000 { -1 } else if value >= 10000 { 1 } else { 0 };
                push_pair(&mut out, neg.as_str(), pos.as_str(), dir);
            } else {
                proof {
                    assert(tokens_view(out@) =~= before + js_record_tokens(rec));
                }
            }
        } else {
            proof {
                assert(tokens_view(out@) =~= before + js_record_tokens(rec));
            }
        }
        proof {
            assert(tokens_view(out@) == before + js_record_tokens(rec));
            assert(before + js_record_tokens(rec) + js_tokens(bytes@.skip(i + 8)) == before + js_tokens(bytes@.skip(i as int)));
        }
        i = i + 8;
    }
    proof {
        assert(js_tokens(bytes@.skip(i as int)) == Seq::<(Seq<char>, i32)>::empty());
        assert(tokens_view(out@) + Seq::<(Seq<char>, i32)>::empty() == tokens_view(out@));
    }
    out
}

/// 2 to the power `k`.
pub open spec fn two_pow(k: nat) -> nat
    decreases k,
{
    if k == 0 { 1 } else { 2 * two_pow((k - 1) as nat) }
}

/// Bit `k` (0 = lowest) of a byte.
pub open spec fn bit_of(b: u8, k: nat) -> int {
    (b as int / two_pow(k) as int) % 2
}

/// The token of bit `bit` of byte `idx` of a hidraw report.
pub open spec fn hidraw_token(idx: nat, bit: nat) -> Seq<char> {
    "HIDRAW_B"@ + decimal(idx) + "_BIT"@ + decimal(bit)
}

/// The tokens of the bits below `k` that differ between two values of byte
/// `idx`, lowest bit first, each with its new value.
pub open spec fn byte_changes(idx: nat, old: u8, new: u8, k: nat) -> Seq<(Seq<char>, i32)>
    decreases k,
{
    if k == 0 {
        seq![]
    } else {
        let b = (k - 1) as nat;
        let rest = byte_changes(idx, old, new, b);
        if bit_of(old, b) != bit_of(new, b) { rest.push((hidraw_token(idx, b), bit_of(new, b) as i32)) } else { rest }
    }
}

/// The tokens of the bits that changed in the first `n` bytes of two
/// reports, byte by byte.
pub open spec fn report_changes(prev: Seq<u8>, cur: Seq<u8>, n: nat) -> Seq<(Seq<char>, i32)>
    decreases n,
{
    if n == 0 {
        seq![]
    } else {
        let i = (n - 1) as nat;
        report_changes(prev, cur, i) + byte_changes(i, prev[i as int], cur[i as int], 8)
    }
}

/// The tokens of a hidraw report following `prev` (none for the first
/// report): every bit of the bytes both reports have that changed.
pub open spec fn hidraw_tokens(prev: Option<Seq<u8>>, cur: Seq<u8>) -> Seq<(Seq<char>, i32)> {
    match prev {
        None => seq![],
        Some(p) => report_changes(p, cur, if p.len() < cur.len() { p.len() } else { cur.len() }),
    }
}

fn bit_at(b: u8, k: usize) -> (r: u8)
    requires
        k < 8,
    ensures
        r as int == bit_of(b, k as nat),
        r < 2,
{
    proof {
        reveal_with_fuel(two_pow, 9);
    }
    let d: u8 = if k == 0 {
        1
    } else if k == 1 {
        2
    } else if k == 2 {
        4
    } else if k == 3 {
        8
    } else if k == 4 {
        16
    } else if k == 5 {
        32
    } else if k == 6 {
        64
    } else {
        128
    };
    assert(d as int == two_pow(k as nat));
    (b / d) % 2
}

/// The last report seen on a hidraw gamepad.
#[derive(Debug, Clone)]
pub struct HidrawReportState {
    pub last_report: Option<Vec<u8>>,
}

impl HidrawReportState {
    pub open spec fn last_view(&self) -> Option<Seq<u8>> {
        match self.last_report {
            Some(v) => Some(v@),
            None => None,
        }
    }

    /// No report seen yet.
    pub fn new() -> (r: Self)
        ensures
            r.last_view() is None,
    {
        HidrawReportState { last_report: None }
    }

    /// The tokens of the bits that changed since the previous report, which
    /// `report` then replaces.
    pub fn report_tokens(&mut self, report: Vec<u8>) -> (r: Vec<(String, i32)>)
        ensures
            tokens_view(r@) == hidraw_tokens(old(self).last_view(), report@),
            final(self).last_view() == Some(report@),
    {
        let mut out: Vec<(String, i32)> = Vec::new();
        proof {
            assert(tokens_view(out@) =~= seq![]);
        }
        match &self.last_report {
            None => {},
            Some(prev) => {
                let n = if prev.len() < report.len() { prev.len() } else { report.len() };
                let mut idx: usize = 0;
                while idx < n
                    invariant
                        idx <= n,
                        n <= prev.len(),
                        n <= report.len(),
                        tokens_view(out@) == report_changes(prev@, report@, idx as nat),
                    decreases n - idx,
                {
                    let o = prev[idx];
                    let w = report[idx];
                    let mut bit: usize = 0;
                    let ghost base = tokens_view(out@);
                    proof {
                        assert(base + byte_changes(idx as nat, o, w, 0) == base);
                    }
                    while bit < 8
                        invariant
                            bit <= 8,
                            o == prev@[idx as int],
                            w == report@[idx as int],
                            tokens_view(out@) == base + byte_changes(idx as nat, o, w, bit as nat),
                        decreases 8 - bit,
                    {
                        let ob = bit_at(o, bit);
                        let nb = bit_at(w, bit);
                        let ghost before = tokens_view(out@);
                        if ob != nb {
                            let mut t = owned("HIDRAW_B");
                            push_decimal(&mut t, idx as u64);
                            push_str(&mut t, "_BIT");
                            push_decimal(&mut t, bit as u64);
                            out.push((t, nb as i32));
                            proof {
                                assert(tokens_view(out@) =~= before.push((hidraw_token(idx as nat, bit as nat), bit_of(w, bit as nat) as i32)));
                            }
                        }
                        proof {
                            assert(base + byte_changes(idx as nat, o, w, (bit + 1) as nat) == tokens_view(out@));
                        }
                        bit = bit + 1;
                    }
                    idx = idx + 1;
                }
            },
        }
        self.last_report = Some(report);
        out
    }
}

// ---------------------------------------------------------------------------
// evdev devices
// ---------------------------------------------------------------------------

/// What the console reads of an evdev input device: its path and file name,
/// the names it reports, the sysfs parent of its input node, and the keys
/// and absolute axes it supports (each absent when it reports none).
#[derive(Debug, Clone)]
pub struct EvdevDeviceProbe {
    pub path: String,
    pub file_name: Option<String>,
    pub name: Option<String>,
    pub physical_path: Option<String>,
    pub unique_name: Option<String>,
    pub path_identity: Option<String>,
    pub supported_keys: Option<Vec<u16>>,
    pub supported_axes: Option<Vec<u16>>,
}

/// The view of an optional string.
pub open spec fn opt_view(o: Option<String>) -> Option<Seq<char>> {
    match o {
        Some(s) => Some(s@),
        None => None,
    }
}

/// The view of an optional code list.
pub open spec fn codes_view(o: Option<Vec<u16>>) -> Option<Seq<u16>> {
    match o {
        Some(v) => Some(v@),
        None => None,
    }
}

/// A non-empty present text.
pub open spec fn nonempty(o: Option<Seq<char>>) -> bool {
    o matches Some(t) && t.len() > 0
}

/// The stable id of an evdev device: its physical path, else its unique
/// name, else the sysfs parent of its node, else its node name.
pub open spec fn device_unique_id_spec(d: EvdevDeviceProbe) -> Seq<char> {
    let phys = opt_view(d.physical_path);
    let uniq = opt_view(d.unique_name);
    if nonempty(phys) {
        "phys:"@ + phys->0
    } else if nonempty(uniq) {
        "uniq:"@ + uniq->0
    } else {
        match opt_view(d.path_identity) {
            Some(i) => i,
            None => "event:"@ + match opt_view(d.file_name) {
                Some(f) => f,
                None => "unknown"@,
            },
        }
    }
}

/// The stable id of an evdev device.
pub fn controller_device_unique_id(d: &EvdevDeviceProbe) -> (r: String)
    ensures
        r@ == device_unique_id_spec(*d),
{
    if let Some(p) = &d.physical_path {
        if p.as_str().unicode_len() > 0 {
            let mut r = owned("phys:");
            push_str(&mut r, p.as_str());
            return r;
        }
    }
    if let Some(u) = &d.unique_name {
        if u.as_str().unicode_len() > 0 {
            let mut r = owned("uniq:");
            push_str(&mut r, u.as_str());
            return r;
        }
    }
    match &d.path_identity {
        Some(i) => owned(i.as_str()),
        None => {
            let mut r = owned("event:");
            match &d.file_name {
                Some(f) => push_str(&mut r, f.as_str()),
                None => push_str(&mut r, "unknown"),
            }
            r
        },
    }
}

/// The ids under which an evdev device can be selected: its stable id and,
/// when it has a name, the name-based joystick and controller ids.
pub open spec fn device_alias_candidates(d: EvdevDeviceProbe) -> Seq<Seq<char>> {
    let id = device_unique_id_spec(d);
    match opt_view(d.name) {
        Some(n) => seq![id, "kind:joystick|name:"@ + n, "joystick-name:"@ + n, "controller-name:"@ + n],
        None => seq![id],
    }
}

/// The ids under which an evdev device can be selected, sorted and without
/// duplicates.
pub fn controller_device_aliases(d: &EvdevDeviceProbe) -> (r: Vec<String>)
    ensures
        strictly_sorted(r@.map_values(|s: String| s@)),
        r@.map_values(|s: String| s@).to_set() == device_alias_candidates(*d).to_set(),
{
    let mut v: Vec<String> = Vec::new();
    v.push(controller_device_unique_id(d));
    if let Some(n) = &d.name {
        let mut a = owned("kind:joystick|name:");
        push_str(&mut a, n.as_str());
        v.push(a);
        let mut b = owned("joystick-name:");
        push_str(&mut b, n.as_str());
        v.push(b);
        let mut c = owned("controller-name:");
        push_str(&mut c, n.as_str());
        v.push(c);
    }
    proof {
        assert(v@.map_values(|s: String| s@) =~= device_alias_candidates(*d));
    }
    sorted_unique(v)
}

/// The text searched for `usb`: the path, then name, physical path and
/// unique name, each present one after a space.
pub open spec fn usb_haystack(d: EvdevDeviceProbe) -> Seq<char> {
    d.path@ + match opt_view(d.name) { Some(n) => " "@ + n, None => seq![] } + match opt_view(d.physical_path) {
        Some(p) => " "@ + p,
        None => seq![],
    } + match opt_view(d.unique_name) {
        Some(u) => " "@ + u,
        None => seq![],
    }
}

/// Whether an evdev device is attached by USB: `usb` appears, in any ASCII
/// case, in its path or names.
pub fn device_looks_like_usb(d: &EvdevDeviceProbe) -> (r: bool)
    ensures
        r == contains_seq(ascii_lower(usb_haystack(*d)), "usb"@),
{
    let mut h = owned(d.path.as_str());
    if let Some(n) = &d.name {
        push_str(&mut h, " ");
        push_str(&mut h, n.as_str());
    }
    if let Some(p) = &d.physical_path {
        push_str(&mut h, " ");
        push_str(&mut h, p.as_str());
    }
    if let Some(u) = &d.unique_name {
        push_str(&mut h, " ");
        push_str(&mut h, u.as_str());
    }
    proof {
        assert(h@ =~= usb_haystack(*d));
    }
    let lower = lower_chars(&chars_of(h.as_str()));
    contains_chars(&lower, &chars_of("usb"))
}

/// The record of an evdev device: node name (`event?` when unknown), name
/// (`Unknown controller` when unknown), stable id and physical path.
pub open spec fn device_info_spec(d: EvdevDeviceProbe) -> (Seq<char>, Seq<char>, Seq<char>, Seq<char>) {
    (
        match opt_view(d.file_name) { Some(f) => f, None => "event?"@ },
        match opt_view(d.name) { Some(n) => n, None => "Unknown controller"@ },
        device_unique_id_spec(d),
        match opt_view(d.physical_path) { Some(p) => p, None => seq![] },
    )
}

/// The view of a device record.
pub open spec fn info_view(i: ControllerInputDeviceInfo) -> (Seq<char>, Seq<char>, Seq<char>, Seq<char>) {
    (i.event_node@, i.name@, i.unique_id@, i.physical_path@)
}

/// The record of an evdev device.
pub fn controller_device_info(d: &EvdevDeviceProbe) -> (r: ControllerInputDeviceInfo)
    ensures
        info_view(r) == device_info_spec(*d),
{
    proof {
        reveal_strlit("");
    }
    let event_node = match &d.file_name {
        Some(f) => owned(f.as_str()),
        None => owned("event?"),
    };
    let name = match &d.name {
        Some(n) => owned(n.as_str()),
        None => owned("Unknown controller"),
    };
    let physical_path = match &d.physical_path {
        Some(p) => owned(p.as_str()),
        None => owned(""),
    };
    let unique_id = controller_device_unique_id(d);
    ControllerInputDeviceInfo { event_node, name, unique_id, physical_path }
}

/// An evdev device that is listed: an `event*` node of a game controller,
/// attached by USB when only USB devices are wanted.
pub open spec fn listed_spec(d: EvdevDeviceProbe, usb_only: bool) -> bool {
    &&& opt_view(d.file_name) matches Some(f) && crate::text::has_prefix(f, "event"@)
    &&& looks_like_controller_spec(codes_view(d.supported_keys), codes_view(d.supported_axes))
    &&& usb_only ==> contains_seq(ascii_lower(usb_haystack(d)), "usb"@)
}

fn listed(d: &EvdevDeviceProbe, usb_only: bool) -> (r: bool)
    ensures
        r == listed_spec(*d, usb_only),
{
    let is_event = match &d.file_name {
        Some(f) => crate::text::starts_with_chars(&chars_of(f.as_str()), &chars_of("event")),
        None => false,
    };
    if !is_event {
        return false;
    }
    let keys: Option<&[u16]> = match &d.supported_keys {
        Some(k) => Some(k.as_slice()),
        None => None,
    };
    let axes: Option<&[u16]> = match &d.supported_axes {
        Some(a) => Some(a.as_slice()),
        None => None,
    };
    if !device_looks_like_controller(keys, axes) {
        return false;
    }
    !usb_only || device_looks_like_usb(d)
}

/// A record list ordered by node name (`lex_lt` never goes backwards).
pub open spec fn sorted_by_node(v: Seq<ControllerInputDeviceInfo>) -> bool {
    forall|i: int, j: int| 0 <= i < j < v.len() ==> !crate::text::lex_lt(#[trigger] v[j].event_node@, #[trigger] v[i].event_node@)
}

/// The records of the listed devices.
pub open spec fn listed_infos(probes: Seq<EvdevDeviceProbe>, usb_only: bool) -> Seq<(Seq<char>, Seq<char>, Seq<char>, Seq<char>)>
    decreases probes.len(),
{
    if probes.len() == 0 {
        seq![]
    } else {
        let rest = listed_infos(probes.drop_last(), usb_only);
        if listed_spec(probes.last(), usb_only) { rest.push(device_info_spec(probes.last())) } else { rest }
    }
}

/// Inserts `d` after the records whose node name does not come after its.
fn insert_by_node(r: &mut Vec<ControllerInputDeviceInfo>, d: ControllerInputDeviceInfo)
    requires
        sorted_by_node(old(r)@),
    ensures
        sorted_by_node(final(r)@),
        final(r)@.map_values(|i: ControllerInputDeviceInfo| info_view(i)).to_multiset()
            == old(r)@.map_values(|i: ControllerInputDeviceInfo| info_view(i)).to_multiset().insert(info_view(d)),
{
    let mut p: usize = 0;
    while p < r.len() && !crate::text::str_lt(d.event_node.as_str(), r[p].event_node.as_str())
        invariant
            p <= r.len(),
            forall|k: int| 0 <= k < p ==> !crate::text::lex_lt(d.event_node@, #[trigger] r@[k].event_node@),
        decreases r.len() - p,
    {
        p = p + 1;
    }
    let ghost before = r@;
    let ghost dv = info_view(d);
    let ghost x = d.event_node@;
    r.insert(p, d);
    proof {
        broadcast use vstd::seq_lib::group_to_multiset_ensures;
        broadcast use vstd::multiset::group_multiset_axioms;
        let bv = before.map_values(|i: ControllerInputDeviceInfo| info_view(i));
        let rv = r@.map_values(|i: ControllerInputDeviceInfo| info_view(i));
        assert(rv.remove(p as int) =~= bv);
        assert(rv[p as int] == dv);
        assert(rv.to_multiset().remove(dv) == bv.to_multiset());
        assert(rv.contains(dv));
        assert(rv.to_multiset() =~= bv.to_multiset().insert(dv));
        assert forall|a: int, b: int| 0 <= a < b < r@.len() implies !crate::text::lex_lt(#[trigger] r@[b].event_node@, #[trigger] r@[a].event_node@) by {
            if b < p {
                assert(r@[a] == before[a] && r@[b] == before[b]);
            } else if b == p {
                assert(r@[a] == before[a]);
            } else if a < p {
                assert(r@[a] == before[a] && r@[b] == before[b - 1]);
            } else if a == p {
                assert(r@[b] == before[b - 1]);
                assert(crate::text::lex_lt(x, before[p as int].event_node@));
                if crate::text::lex_lt(before[b - 1].event_node@, x) {
                    crate::text::lemma_lex_transitive(before[b - 1].event_node@, x, before[p as int].event_node@);
                    if b - 1 == p {
                        crate::text::lemma_lex_irreflexive(before[p as int].event_node@);
                    } else {
                        assert(!crate::text::lex_lt(before[b - 1].event_node@, before[p as int].event_node@));
                    }
                }
            } else {
                assert(r@[a] == before[a - 1] && r@[b] == before[b - 1]);
            }
        }
    }
}

/// The records of the evdev game controllers among `probes` (only those
/// attached by USB when `usb_only`), ordered by node name.
pub fn collect_controller_input_devices(probes: &Vec<EvdevDeviceProbe>, usb_only: bool) -> (r: Vec<ControllerInputDeviceInfo>)
    ensures
        sorted_by_node(r@),
        r@.map_values(|i: ControllerInputDeviceInfo| info_view(i)).to_multiset()
            == listed_infos(probes@, usb_only).to_multiset(),
{
    let mut r: Vec<ControllerInputDeviceInfo> = Vec::new();
    let mut i: usize = 0;
    proof {
        broadcast use vstd::seq_lib::group_to_multiset_ensures;
        assert(r@.map_values(|i: ControllerInputDeviceInfo| info_view(i)) =~= seq![]);
        assert(probes@.take(0) =~= seq![]);
    }
    while i < probes.len()
        invariant
            i <= probes.len(),
            sorted_by_node(r@),
            r@.map_values(|i: ControllerInputDeviceInfo| info_view(i)).to_multiset()
                == listed_infos(probes@.take(i as int), usb_only).to_multiset(),
        decreases probes.len() - i,
    {
        proof {
            assert(probes@.take(i + 1).drop_last() == probes@.take(i as int));
            assert(probes@.take(i + 1).last() == probes@[i as int]);
        }
        if listed(&probes[i], usb_only) {
            let info = controller_device_info(&probes[i]);
            insert_by_node(&mut r, info);
            proof {
                broadcast use vstd::seq_lib::group_to_multiset_ensures;
                broadcast use vstd::multiset::group_multiset_axioms;
                let l = listed_infos(probes@.take(i as int), usb_only);
                assert(listed_infos(probes@.take(i + 1), usb_only) == l.push(device_info_spec(probes@[i as int])));
                assert(l.push(device_info_spec(probes@[i as int])).to_multiset() =~= l.to_multiset().insert(device_info_spec(probes@[i as int])));
            }
        }
        i = i + 1;
    }
    proof {
        assert(probes@.take(probes@.len() as int) == probes@);
    }
    r
}

/// The USB game controllers among `probes`, or every game controller when
/// none is attached by USB.
pub fn list_controller_input_devices_with_usb_fallback(probes: &Vec<EvdevDeviceProbe>) -> (r: Vec<ControllerInputDeviceInfo>)
    ensures
        sorted_by_node(r@),
        r@.map_values(|i: ControllerInputDeviceInfo| info_view(i)).to_multiset() == if listed_infos(probes@, true).len() > 0 {
            listed_infos(probes@, true).to_multiset()
        } else {
            listed_infos(probes@, false).to_multiset()
        },
{
    let usb = collect_controller_input_devices(probes, true);
    if usb.len() > 0 {
        proof {
            broadcast use vstd::seq_lib::group_to_multiset_ensures;
            broadcast use vstd::multiset::group_multiset_axioms;
            assert(usb@.map_values(|i: ControllerInputDeviceInfo| info_view(i)).to_multiset().len() > 0);
        }
        return usb;
    }
    proof {
        broadcast use vstd::seq_lib::group_to_multiset_ensures;
        assert(listed_infos(probes@, true).to_multiset().len() == 0);
    }
    collect_controller_input_devices(probes, false)
}

/// The view of an optional text.
pub open spec fn str_opt_view(o: Option<&str>) -> Option<Seq<char>> {
    match o {
        Some(s) => Some(s@),
        None => None,
    }
}

/// An evdev device is opened for a capture: it is a game controller and,
/// when a device is selected, one of its ids matches the selection.
pub open spec fn evdev_selected_spec(d: EvdevDeviceProbe, selected: Option<Seq<char>>) -> bool {
    &&& looks_like_controller_spec(codes_view(d.supported_keys), codes_view(d.supported_axes))
    &&& match selected {
        Some(sel) => shares_alias(alias_candidates(sel), device_alias_candidates(d)),
        None => true,
    }
}

/// Some alias is in both lists.
pub open spec fn shares_alias(a: Seq<Seq<char>>, b: Seq<Seq<char>>) -> bool {
    exists|x: Seq<char>| #![trigger a.contains(x)] a.contains(x) && b.contains(x)
}

/// Whether an evdev `event*` device is opened for a capture from the
/// selected device (any controller when none is selected).
pub fn evdev_device_selected(d: &EvdevDeviceProbe, selected: Option<&str>) -> (r: bool)
    ensures
        r == evdev_selected_spec(*d, str_opt_view(selected)),
{
    let keys: Option<&[u16]> = match &d.supported_keys {
        Some(k) => Some(k.as_slice()),
        None => None,
    };
    let axes: Option<&[u16]> = match &d.supported_axes {
        Some(a) => Some(a.as_slice()),
        None => None,
    };
    if !device_looks_like_controller(keys, axes) {
        return false;
    }
    match selected {
        None => true,
        Some(sel) => {
            let aliases = controller_device_aliases(d);
            let found = device_id_matches_aliases(sel, &aliases);
            proof {
                let av = aliases@.map_values(|s: String| s@);
                assert forall|a: Seq<char>| av.contains(a) <==> device_alias_candidates(*d).contains(a) by {
                    assert(av.to_set().contains(a) == av.contains(a));
                    assert(device_alias_candidates(*d).to_set().contains(a) == device_alias_candidates(*d).contains(a));
                }
                if found {
                    let a = choose|a: Seq<char>| alias_candidates(sel@).contains(a) && av.contains(a);
                    assert(device_alias_candidates(*d).contains(a));
                    assert(shares_alias(alias_candidates(sel@), device_alias_candidates(*d)));
                } else {
                    assert forall|a: Seq<char>| alias_candidates(sel@).contains(a) implies !device_alias_candidates(*d).contains(a) by {
                        assert(!av.contains(a));
                    }
                }
            }
            found
        },
    }
}

/// A `js*` joystick node is opened for a capture: when a device is
/// selected, the sysfs parent of the node (its identity) is the selection.
pub open spec fn joystick_node_selected_spec(file_name: Seq<char>, identity: Option<Seq<char>>, selected: Option<Seq<char>>) -> bool {
    &&& crate::text::has_prefix(file_name, "js"@)
    &&& match selected {
        Some(sel) => identity == Some(sel),
        None => true,
    }
}

/// Whether a joystick node is opened for a capture.
pub fn joystick_node_selected(file_name: &str, identity: Option<&str>, selected: Option<&str>) -> (r: bool)
    ensures
        r == joystick_node_selected_spec(
            file_name@,
            match identity { Some(i) => Some(i@), None => None },
            match selected { Some(s) => Some(s@), None => None },
        ),
{
    if !crate::text::starts_with_chars(&chars_of(file_name), &chars_of("js")) {
        return false;
    }
    match (selected, identity) {
        (None, _) => true,
        (Some(_), None) => false,
        (Some(s), Some(i)) => str_eq(i, s),
    }
}

/// A hidraw node is opened for a capture: its `uevent` names a gamepad (in
/// any ASCII case) and, when a device is selected, its identity is the
/// selection.
pub open spec fn hidraw_selected_spec(uevent: Seq<char>, identity: Option<Seq<char>>, selected: Option<Seq<char>>) -> bool {
    &&& contains_seq(ascii_lower(uevent), "gamepad"@)
    &&& match selected {
        Some(sel) => identity == Some(sel),
        None => true,
    }
}

/// Whether a hidraw node is opened for a capture.
pub fn hidraw_node_selected(uevent: &str, identity: Option<&str>, selected: Option<&str>) -> (r: bool)
    ensures
        r == hidraw_selected_spec(
            uevent@,
            match identity { Some(i) => Some(i@), None => None },
            match selected { Some(s) => Some(s@), None => None },
        ),
{
    let lower = lower_chars(&chars_of(uevent));
    if !contains_chars(&lower, &chars_of("gamepad")) {
        return false;
    }
    match (selected, identity) {
        (None, _) => true,
        (Some(_), None) => false,
        (Some(s), Some(i)) => str_eq(i, s),
    }
}

/// The first token of a capture that was pressed (value 1), if any.
pub open spec fn first_pressed(tokens: Seq<(Seq<char>, i32)>) -> Option<Seq<char>>
    decreases tokens.len(),
{
    if tokens.len() == 0 {
        None
    } else if tokens[0].1 == 1 {
        Some(tokens[0].0)
    } else {
        first_pressed(tokens.drop_first())
    }
}

/// The first pressed token among the tokens read in a capture.
pub fn first_pressed_token(tokens: &Vec<(String, i32)>) -> (r: Option<String>)
    ensures
        match r {
            Some(t) => first_pressed(tokens_view(tokens@)) == Some(t@),
            None => first_pressed(tokens_view(tokens@)) is None,
        },
{
    let ghost tv = tokens_view(tokens@);
    let mut i: usize = 0;
    proof {
        assert(tv.skip(0) == tv);
    }
    while i < tokens.len()
        invariant
            i <= tokens@.len(),
            tv == tokens_view(tokens@),
            first_pressed(tv) == first_pressed(tv.skip(i as int)),
        decreases tokens.len() - i,
    {
        proof {
            assert(tv.skip(i as int)[0] == (tokens@[i as int].0@, tokens@[i as int].1));
            assert(tv.skip(i as int).drop_first() == tv.skip(i + 1));
        }
        if tokens[i].1 == 1 {
            return Some(owned(tokens[i].0.as_str()));
        }
        i = i + 1;
    }
    None
}

/// The devices a capture reads: hidraw gamepads only when no evdev or
/// joystick device is open; an error when there is none at all.
pub fn capture_device_plan(evdev: usize, joysticks: usize, hidraw: usize) -> (r: Result<usize, &'static str>)
    ensures
        evdev == 0 && joysticks == 0 && hidraw == 0 ==> (r matches Err(m) && m@ == "no controller input devices found under /dev/input"@),
        !(evdev == 0 && joysticks == 0 && hidraw == 0) ==> r == Ok::<usize, &'static str>(if evdev > 0 || joysticks > 0 { 0 } else { hidraw }),
{
    let used_hidraw = if evdev > 0 || joysticks > 0 { 0 } else { hidraw };
    if evdev == 0 && joysticks == 0 && used_hidraw == 0 {
        return Err("no controller input devices found under /dev/input");
    }
    Ok(used_hidraw)
}

} // verus!
