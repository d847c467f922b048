use vstd::prelude::*;
use vstd::string::*;

use crate::controller::{pair_views, ControllerProfile, ControllerStore};
use crate::controller_input::{alias_candidates, device_id_aliases};
use crate::input::{
    axis_direction, axis_direction_spec, raw_key_action, trigger_axis_direction, trigger_direction_spec, ConsoleAction,
    ControllerAxis,
};
use crate::keyboard_input::{KEY_A, KEY_D, KEY_DOWN, KEY_ENTER, KEY_ESC, KEY_LEFT, KEY_RIGHT, KEY_S, KEY_SPACE, KEY_UP, KEY_W};
use crate::text::{
    chars_of, count_leading_digits, has_prefix, leading_digits, owned, push_str, slice_from,
    starts_with_chars, str_eq, string_of, strip_prefix,
};

verus! {

broadcast use vstd::string::group_string_axioms;

// ---------------------------------------------------------------------------
// Lists of distinct keys
// ---------------------------------------------------------------------------

/// No key occurs twice in the list.
pub open spec fn unique_keys<V>(s: Seq<(String, V)>) -> bool {
    forall|i: int, j: int| 0 <= i < s.len() && 0 <= j < s.len() && i != j ==> s[i].0@ != s[j].0@
}

/// The key occurs in the list.
pub open spec fn has_key<V>(s: Seq<(String, V)>, k: Seq<char>) -> bool {
    exists|i: int| 0 <= i < s.len() && s[i].0@ == k
}

/// The list as a map from key to value.
pub open spec fn assoc_view<V>(s: Seq<(String, V)>) -> Map<Seq<char>, V> {
    Map::new(
        |k: Seq<char>| has_key(s, k),
        |k: Seq<char>| s[choose|i: int| 0 <= i < s.len() && s[i].0@ == k].1,
    )
}

/// The entry at `i` is the map's entry for its key.
pub proof fn lemma_assoc_at<V>(s: Seq<(String, V)>, i: int)
    requires
        unique_keys(s),
        0 <= i < s.len(),
    ensures
        assoc_view(s).contains_key(s[i].0@),
        assoc_view(s)[s[i].0@] == s[i].1,
{
    let k = s[i].0@;
    assert(has_key(s, k));
    let j = choose|j: int| 0 <= j < s.len() && s[j].0@ == k;
    assert(j == i);
}

/// Replacing the value at `i` replaces the map's value for its key.
pub proof fn lemma_assoc_update<V>(s: Seq<(String, V)>, i: int, v: V)
    requires
        unique_keys(s),
        0 <= i < s.len(),
    ensures
        unique_keys(s.update(i, (s[i].0, v))),
        assoc_view(s.update(i, (s[i].0, v))) == assoc_view(s).insert(s[i].0@, v),
{
    let t = s.update(i, (s[i].0, v));
    assert(unique_keys(t)) by {
        assert forall|a: int, b: int| 0 <= a < t.len() && 0 <= b < t.len() && a != b implies t[a].0@ != t[b].0@ by {
            assert(t[a].0 == s[a].0 && t[b].0 == s[b].0);
        }
    }
    assert forall|k: Seq<char>| has_key(t, k) == has_key(s, k) by {
        if has_key(t, k) {
            let j = choose|j: int| 0 <= j < t.len() && t[j].0@ == k;
            assert(s[j].0@ == k);
        }
        if has_key(s, k) {
            let j = choose|j: int| 0 <= j < s.len() && s[j].0@ == k;
            assert(t[j].0@ == k);
        }
    }
    assert(assoc_view(t) =~= assoc_view(s).insert(s[i].0@, v)) by {
        assert forall|k: Seq<char>| assoc_view(t).contains_key(k) implies assoc_view(t)[k] == assoc_view(s).insert(s[i].0@, v)[k] by {
            let j = choose|j: int| 0 <= j < t.len() && t[j].0@ == k;
            lemma_assoc_at(t, j);
            if j != i {
                lemma_assoc_at(s, j);
            }
        }
        assert(has_key(s, s[i].0@));
    }
}

/// Appending an entry with a new key adds it to the map.
pub proof fn lemma_assoc_push<V>(s: Seq<(String, V)>, key: String, v: V)
    requires
        unique_keys(s),
        !has_key(s, key@),
    ensures
        unique_keys(s.push((key, v))),
        assoc_view(s.push((key, v))) == assoc_view(s).insert(key@, v),
{
    let t = s.push((key, v));
    assert(unique_keys(t)) by {
        assert forall|a: int, b: int| 0 <= a < t.len() && 0 <= b < t.len() && a != b implies t[a].0@ != t[b].0@ by {
            if a < s.len() && b < s.len() {
                assert(t[a] == s[a] && t[b] == s[b]);
            } else if a < s.len() {
                assert(t[a] == s[a]);
            } else if b < s.len() {
                assert(t[b] == s[b]);
            }
        }
    }
    assert forall|k: Seq<char>| has_key(t, k) == (has_key(s, k) || k == key@) by {
        if has_key(t, k) {
            let j = choose|j: int| 0 <= j < t.len() && t[j].0@ == k;
            if j < s.len() {
                assert(s[j].0@ == k);
            }
        }
        if has_key(s, k) {
            let j = choose|j: int| 0 <= j < s.len() && s[j].0@ == k;
            assert(t[j].0@ == k);
        }
        if k == key@ {
            assert(t[s.len() as int].0@ == k);
        }
    }
    assert(assoc_view(t) =~= assoc_view(s).insert(key@, v)) by {
        assert forall|k: Seq<char>| assoc_view(t).contains_key(k) implies assoc_view(t)[k] == assoc_view(s).insert(key@, v)[k] by {
            let j = choose|j: int| 0 <= j < t.len() && t[j].0@ == k;
            lemma_assoc_at(t, j);
            if j < s.len() {
                assert(t[j] == s[j]);
                lemma_assoc_at(s, j);
            }
        }
    }
}

/// Position of `key` in the list.
pub fn assoc_find<V>(s: &Vec<(String, V)>, key: &str) -> (r: Option<usize>)
    ensures
        r matches Some(i) ==> i < s@.len() && s@[i as int].0@ == key@,
        r is None ==> !has_key(s@, key@),
{
    let mut i: usize = 0;
    while i < s.len()
        invariant
            i <= s.len(),
            forall|j: int| 0 <= j < i ==> s@[j].0@ != key@,
        decreases s.len() - i,
    {
        if str_eq(s[i].0.as_str(), key) {
            return Some(i);
        }
        i = i + 1;
    }
    None
}


// ---------------------------------------------------------------------------
// Tokens and keys
// ---------------------------------------------------------------------------

/// The canonical spelling of an input token: joystick buttons and axes get
/// their short names, `hidrawN_Bx` becomes `HIDRAW_Bx`, other tokens stay.
pub open spec fn canonical_spec(t: Seq<char>) -> Seq<char> {
    if strip_prefix(t, "SDL_JOYSTICK_BUTTON_"@) is Some {
        "JS_BTN_"@ + strip_prefix(t, "SDL_JOYSTICK_BUTTON_"@)->0
    } else if strip_prefix(t, "SDL_JOYSTICK_AXIS_"@) is Some {
        "JS_AXIS_"@ + strip_prefix(t, "SDL_JOYSTICK_AXIS_"@)->0
    } else if has_prefix(t, "SDL_CONTROLLER_BUTTON_"@) || has_prefix(t, "SDL_CONTROLLER_AXIS_"@) {
        t
    } else if strip_prefix(t, "hidraw"@) is Some && leading_digits(strip_prefix(t, "hidraw"@)->0) > 0
        && has_prefix(strip_prefix(t, "hidraw"@)->0.skip(leading_digits(strip_prefix(t, "hidraw"@)->0) as int), "_B"@) {
        "HIDRAW"@ + strip_prefix(t, "hidraw"@)->0.skip(leading_digits(strip_prefix(t, "hidraw"@)->0) as int)
    } else {
        t
    }
}

fn strip(t: &[char], p: &str) -> (r: Option<Vec<char>>)
    ensures
        r matches Some(v) ==> strip_prefix(t@, p@) == Some(v@),
        r is None ==> strip_prefix(t@, p@) is None,
{
    let pc = chars_of(p);
    if starts_with_chars(t, &pc) {
        Some(slice_from(t, pc.len()))
    } else {
        None
    }
}

fn starts(t: &[char], p: &str) -> (r: bool)
    ensures
        r == has_prefix(t@, p@),
{
    starts_with_chars(t, &chars_of(p))
}

/// The canonical spelling of an input token.
pub fn canonical_input_token(input_token: &str) -> (r: String)
    ensures
        r@ == canonical_spec(input_token@),
{
    let t = chars_of(input_token);
    if let Some(button) = strip(&t, "SDL_JOYSTICK_BUTTON_") {
        let mut s = owned("JS_BTN_");
        push_str(&mut s, string_of(&button).as_str());
        return s;
    }
    if let Some(axis) = strip(&t, "SDL_JOYSTICK_AXIS_") {
        let mut s = owned("JS_AXIS_");
        push_str(&mut s, string_of(&axis).as_str());
        return s;
    }
    if starts(&t, "SDL_CONTROLLER_BUTTON_") || starts(&t, "SDL_CONTROLLER_AXIS_") {
        return owned(input_token);
    }
    if let Some(rest) = strip(&t, "hidraw") {
        let n = count_leading_digits(&rest);
        if n > 0 {
            let suffix = slice_from(&rest, n);
            if starts(&suffix, "_B") {
                let mut s = owned("HIDRAW");
                push_str(&mut s, string_of(&suffix).as_str());
                return s;
            }
        }
    }
    owned(input_token)
}

/// The keys that an action label types on the virtual keyboard.
pub open spec fn output_keys_spec(action: Seq<char>) -> Seq<u16> {
    if has_prefix(action, "Move Up"@) {
        seq![KEY_UP, KEY_W]
    } else if has_prefix(action, "Move Down"@) {
        seq![KEY_DOWN, KEY_S]
    } else if has_prefix(action, "Move Left"@) {
        seq![KEY_LEFT, KEY_A]
    } else if has_prefix(action, "Move Right"@) {
        seq![KEY_RIGHT, KEY_D]
    } else if has_prefix(action, "Button A"@) {
        seq![KEY_SPACE]
    } else if has_prefix(action, "Button B"@) {
        seq![KEY_ENTER]
    } else if has_prefix(action, "Start"@) {
        seq![KEY_ESC]
    } else if has_prefix(action, "Select"@) {
        seq![KEY_ENTER]
    } else {
        seq![]
    }
}

/// The keys that an action label types on the virtual keyboard.
pub fn output_keys_for_action(action: &str) -> (r: Vec<u16>)
    ensures
        r@ == output_keys_spec(action@),
{
    let a = chars_of(action);
    if starts(&a, "Move Up") {
        vec![KEY_UP, KEY_W]
    } else if starts(&a, "Move Down") {
        vec![KEY_DOWN, KEY_S]
    } else if starts(&a, "Move Left") {
        vec![KEY_LEFT, KEY_A]
    } else if starts(&a, "Move Right") {
        vec![KEY_RIGHT, KEY_D]
    } else if starts(&a, "Button A") {
        vec![KEY_SPACE]
    } else if starts(&a, "Button B") {
        vec![KEY_ENTER]
    } else if starts(&a, "Start") {
        vec![KEY_ESC]
    } else if starts(&a, "Select") {
        vec![KEY_ENTER]
    } else {
        Vec::new()
    }
}

proof fn lemma_prefix_at(s: Seq<char>, p: Seq<char>, i: int)
    requires
        has_prefix(s, p),
        0 <= i < p.len(),
    ensures
        s[i] == p[i],
{
    assert(s.subrange(0, p.len() as int)[i] == s[i]);
}

/// The four move labels exclude each other: a label that begins with one
/// of them begins with no other (they differ in their sixth character).
pub proof fn lemma_move_labels_distinct(action: Seq<char>)
    ensures
        has_prefix(action, "Move Up"@) ==> !has_prefix(action, "Move Down"@) && !has_prefix(action, "Move Left"@)
            && !has_prefix(action, "Move Right"@),
        has_prefix(action, "Move Down"@) ==> !has_prefix(action, "Move Left"@) && !has_prefix(action, "Move Right"@),
        has_prefix(action, "Move Left"@) ==> !has_prefix(action, "Move Right"@),
{
    reveal_strlit("Move Up");
    reveal_strlit("Move Down");
    reveal_strlit("Move Left");
    reveal_strlit("Move Right");
    if has_prefix(action, "Move Up"@) {
        lemma_prefix_at(action, "Move Up"@, 5);
    }
    if has_prefix(action, "Move Down"@) {
        lemma_prefix_at(action, "Move Down"@, 5);
    }
    if has_prefix(action, "Move Left"@) {
        lemma_prefix_at(action, "Move Left"@, 5);
    }
    if has_prefix(action, "Move Right"@) {
        lemma_prefix_at(action, "Move Right"@, 5);
    }
}

/// The labels that type keys exclude each other: a label that begins with
/// one of them begins with no other.
proof fn lemma_labels_distinct(action: Seq<char>)
    ensures
        has_prefix(action, "Button A"@) || has_prefix(action, "Button B"@) || has_prefix(action, "Start"@)
            || has_prefix(action, "Select"@) ==> !(has_prefix(action, "Move Up"@) || has_prefix(action, "Move Down"@)
            || has_prefix(action, "Move Left"@) || has_prefix(action, "Move Right"@)),
        has_prefix(action, "Button A"@) ==> !has_prefix(action, "Button B"@) && !has_prefix(action, "Start"@)
            && !has_prefix(action, "Select"@),
        has_prefix(action, "Button B"@) ==> !has_prefix(action, "Start"@) && !has_prefix(action, "Select"@),
        has_prefix(action, "Start"@) ==> !has_prefix(action, "Select"@),
{
    reveal_strlit("Move Up");
    reveal_strlit("Move Down");
    reveal_strlit("Move Left");
    reveal_strlit("Move Right");
    reveal_strlit("Button A");
    reveal_strlit("Button B");
    reveal_strlit("Start");
    reveal_strlit("Select");
    if has_prefix(action, "Move Up"@) {
        lemma_prefix_at(action, "Move Up"@, 0);
    }
    if has_prefix(action, "Move Down"@) {
        lemma_prefix_at(action, "Move Down"@, 0);
    }
    if has_prefix(action, "Move Left"@) {
        lemma_prefix_at(action, "Move Left"@, 0);
    }
    if has_prefix(action, "Move Right"@) {
        lemma_prefix_at(action, "Move Right"@, 0);
    }
    if has_prefix(action, "Button A"@) {
        lemma_prefix_at(action, "Button A"@, 0);
        lemma_prefix_at(action, "Button A"@, 7);
    }
    if has_prefix(action, "Button B"@) {
        lemma_prefix_at(action, "Button B"@, 0);
        lemma_prefix_at(action, "Button B"@, 7);
    }
    if has_prefix(action, "Start"@) {
        lemma_prefix_at(action, "Start"@, 0);
        lemma_prefix_at(action, "Start"@, 1);
    }
    if has_prefix(action, "Select"@) {
        lemma_prefix_at(action, "Select"@, 0);
        lemma_prefix_at(action, "Select"@, 1);
    }
}

/// Each move label types the arrow key of its own direction and the WASD
/// key of that direction, and no other key; a keyboard reads every key it
/// types back as that same direction, so no two directions share a key.
/// Button A types Space, Button B and Select type Enter, Start types
/// Escape, and any other label types nothing.
pub proof fn lemma_move_keys(action: Seq<char>)
    ensures
        has_prefix(action, "Move Up"@) ==> output_keys_spec(action) == seq![KEY_UP, KEY_W],
        has_prefix(action, "Move Down"@) ==> output_keys_spec(action) == seq![KEY_DOWN, KEY_S],
        has_prefix(action, "Move Left"@) ==> output_keys_spec(action) == seq![KEY_LEFT, KEY_A],
        has_prefix(action, "Move Right"@) ==> output_keys_spec(action) == seq![KEY_RIGHT, KEY_D],
        has_prefix(action, "Button A"@) ==> output_keys_spec(action) == seq![KEY_SPACE],
        has_prefix(action, "Button B"@) ==> output_keys_spec(action) == seq![KEY_ENTER],
        has_prefix(action, "Start"@) ==> output_keys_spec(action) == seq![KEY_ESC],
        has_prefix(action, "Select"@) ==> output_keys_spec(action) == seq![KEY_ENTER],
        !(has_prefix(action, "Move Up"@) || has_prefix(action, "Move Down"@) || has_prefix(action, "Move Left"@)
            || has_prefix(action, "Move Right"@) || has_prefix(action, "Button A"@) || has_prefix(action, "Button B"@)
            || has_prefix(action, "Start"@) || has_prefix(action, "Select"@)) ==> output_keys_spec(action).len() == 0,
        has_prefix(action, "Move Up"@) ==> forall|k: u16| #[trigger] output_keys_spec(action).contains(k)
            ==> raw_key_action(k) == Some(ConsoleAction::Up),
        has_prefix(action, "Move Down"@) ==> forall|k: u16| #[trigger] output_keys_spec(action).contains(k)
            ==> raw_key_action(k) == Some(ConsoleAction::Down),
        has_prefix(action, "Move Left"@) ==> forall|k: u16| #[trigger] output_keys_spec(action).contains(k)
            ==> raw_key_action(k) == Some(ConsoleAction::Left),
        has_prefix(action, "Move Right"@) ==> forall|k: u16| #[trigger] output_keys_spec(action).contains(k)
            ==> raw_key_action(k) == Some(ConsoleAction::Right),
{
    lemma_move_labels_distinct(action);
    lemma_labels_distinct(action);
    assert forall|k: u16| #[trigger] output_keys_spec(action).contains(k) implies (
        (has_prefix(action, "Move Up"@) ==> raw_key_action(k) == Some(ConsoleAction::Up))
        && (has_prefix(action, "Move Down"@) ==> raw_key_action(k) == Some(ConsoleAction::Down))
        && (has_prefix(action, "Move Left"@) ==> raw_key_action(k) == Some(ConsoleAction::Left))
        && (has_prefix(action, "Move Right"@) ==> raw_key_action(k) == Some(ConsoleAction::Right))
    ) by {
        let ks = output_keys_spec(action);
        let i = choose|i: int| 0 <= i < ks.len() && ks[i] == k;
        if has_prefix(action, "Move Up"@) || has_prefix(action, "Move Down"@) || has_prefix(action, "Move Left"@)
            || has_prefix(action, "Move Right"@) {
            assert(i == 0 || i == 1);
        }
    }
}

/// The extra tokens that an action label also answers to.
pub open spec fn action_aliases_spec(action: Seq<char>) -> Seq<Seq<char>> {
    if has_prefix(action, "Move Left"@) {
        seq!["LeftArrow"@, "JS_AXIS_0_NEG"@, "SDL_JOYSTICK_AXIS_0_NEG"@, "SDL_CONTROLLER_BUTTON_DPAD_LEFT"@, "SDL_CONTROLLER_AXIS_LeftX_NEG"@]
    } else if has_prefix(action, "Move Right"@) {
        seq!["RightArrow"@, "JS_AXIS_0_POS"@, "SDL_JOYSTICK_AXIS_0_POS"@, "SDL_CONTROLLER_BUTTON_DPAD_RIGHT"@, "SDL_CONTROLLER_AXIS_LeftX_POS"@]
    } else if has_prefix(action, "Move Up"@) {
        seq!["UpArrow"@, "JS_AXIS_1_NEG"@, "SDL_JOYSTICK_AXIS_1_NEG"@, "SDL_CONTROLLER_BUTTON_DPAD_UP"@, "SDL_CONTROLLER_AXIS_LeftY_NEG"@]
    } else if has_prefix(action, "Move Down"@) {
        seq!["DownArrow"@, "JS_AXIS_1_POS"@, "SDL_JOYSTICK_AXIS_1_POS"@, "SDL_CONTROLLER_BUTTON_DPAD_DOWN"@, "SDL_CONTROLLER_AXIS_LeftY_POS"@]
    } else if has_prefix(action, "Button A"@) {
        seq!["Space"@, "SDL_JOYSTICK_BUTTON_1"@, "SDL_CONTROLLER_BUTTON_A"@, "SDL_CONTROLLER_BUTTON_X"@]
    } else if has_prefix(action, "Button B"@) {
        seq!["Return"@, "SDL_JOYSTICK_BUTTON_2"@, "SDL_CONTROLLER_BUTTON_B"@, "SDL_CONTROLLER_BUTTON_Y"@]
    } else if has_prefix(action, "Start"@) {
        seq!["Escape"@, "BTN_BASE4"@, "SDL_JOYSTICK_BUTTON_9"@, "SDL_CONTROLLER_BUTTON_START"@]
    } else if has_prefix(action, "Select"@) {
        seq!["Return"@, "JS_BTN_8"@, "SDL_JOYSTICK_BUTTON_8"@, "SDL_CONTROLLER_BUTTON_BACK"@]
    } else {
        seq![]
    }
}

fn strings(parts: &[&str]) -> (r: Vec<String>)
    ensures
        r@.map_values(|s: String| s@) == parts@.map_values(|s: &str| s@),
{
    let mut r: Vec<String> = Vec::new();
    let mut i: usize = 0;
    while i < parts.len()
        invariant
            i <= parts.len(),
            r@.len() == i,
            forall|k: int| 0 <= k < i ==> #[trigger] r@[k]@ == parts@[k]@,
        decreases parts.len() - i,
    {
        r.push(owned(parts[i]));
        i = i + 1;
    }
    assert(r@.map_values(|s: String| s@) =~= parts@.map_values(|s: &str| s@));
    r
}

/// The extra tokens that an action label also answers to.
pub fn action_token_aliases(action: &str) -> (r: Vec<String>)
    ensures
        r@.map_values(|s: String| s@) == action_aliases_spec(action@),
{
    let a = chars_of(action);
    let parts: Vec<&str> = if starts(&a, "Move Left") {
        vec!["LeftArrow", "JS_AXIS_0_NEG", "SDL_JOYSTICK_AXIS_0_NEG", "SDL_CONTROLLER_BUTTON_DPAD_LEFT", "SDL_CONTROLLER_AXIS_LeftX_NEG"]
    } else if starts(&a, "Move Right") {
        vec!["RightArrow", "JS_AXIS_0_POS", "SDL_JOYSTICK_AXIS_0_POS", "SDL_CONTROLLER_BUTTON_DPAD_RIGHT", "SDL_CONTROLLER_AXIS_LeftX_POS"]
    } else if starts(&a, "Move Up") {
        vec!["UpArrow", "JS_AXIS_1_NEG", "SDL_JOYSTICK_AXIS_1_NEG", "SDL_CONTROLLER_BUTTON_DPAD_UP", "SDL_CONTROLLER_AXIS_LeftY_NEG"]
    } else if starts(&a, "Move Down") {
        vec!["DownArrow", "JS_AXIS_1_POS", "SDL_JOYSTICK_AXIS_1_POS", "SDL_CONTROLLER_BUTTON_DPAD_DOWN", "SDL_CONTROLLER_AXIS_LeftY_POS"]
    } else if starts(&a, "Button A") {
        vec!["Space", "SDL_JOYSTICK_BUTTON_1", "SDL_CONTROLLER_BUTTON_A", "SDL_CONTROLLER_BUTTON_X"]
    } else if starts(&a, "Button B") {
        vec!["Return", "SDL_JOYSTICK_BUTTON_2", "SDL_CONTROLLER_BUTTON_B", "SDL_CONTROLLER_BUTTON_Y"]
    } else if starts(&a, "Start") {
        vec!["Escape", "BTN_BASE4", "SDL_JOYSTICK_BUTTON_9", "SDL_CONTROLLER_BUTTON_START"]
    } else if starts(&a, "Select") {
        vec!["Return", "JS_BTN_8", "SDL_JOYSTICK_BUTTON_8", "SDL_CONTROLLER_BUTTON_BACK"]
    } else {
        Vec::new()
    };
    let r = strings(parts.as_slice());
    proof {
        assert(parts@.map_values(|s: &str| s@) =~= action_aliases_spec(action@));
    }
    r
}


// ---------------------------------------------------------------------------
// The input-to-output table
// ---------------------------------------------------------------------------

/// `existing` with the keys of `keys` that it lacks appended, in order.
pub open spec fn append_new(existing: Seq<u16>, keys: Seq<u16>) -> Seq<u16>
    decreases keys.len(),
{
    if keys.len() == 0 {
        existing
    } else {
        let r = append_new(existing, keys.drop_last());
        if r.contains(keys.last()) { r } else { r.push(keys.last()) }
    }
}

/// The table after merging `keys` into the entry of `token`.
pub open spec fn merged(m: Map<Seq<char>, Seq<u16>>, token: Seq<char>, keys: Seq<u16>) -> Map<Seq<char>, Seq<u16>> {
    if m.contains_key(token) {
        m.insert(token, append_new(m[token], keys))
    } else {
        m.insert(token, keys)
    }
}

/// The table after merging `keys` into the entries of all `tokens`, in order.
pub open spec fn merged_all(m: Map<Seq<char>, Seq<u16>>, tokens: Seq<Seq<char>>, keys: Seq<u16>) -> Map<Seq<char>, Seq<u16>>
    decreases tokens.len(),
{
    if tokens.len() == 0 {
        m
    } else {
        merged(merged_all(m, tokens.drop_last(), keys), tokens.last(), keys)
    }
}

/// The table after one mapping of a profile: the keys of the action go to
/// the captured token, its canonical spelling and the action's aliases.
pub open spec fn table_after_mapping(m: Map<Seq<char>, Seq<u16>>, action: Seq<char>, token: Seq<char>) -> Map<Seq<char>, Seq<u16>> {
    let keys = output_keys_spec(action);
    if keys.len() == 0 {
        m
    } else {
        let m1 = merged(m, token, keys);
        let c = canonical_spec(token);
        let m2 = if c != token { merged(m1, c, keys) } else { m1 };
        merged_all(m2, action_aliases_spec(action), keys)
    }
}

/// The table after the mappings of a profile, in order.
pub open spec fn table_after_mappings(m: Map<Seq<char>, Seq<u16>>, mappings: Seq<(Seq<char>, Seq<char>)>) -> Map<Seq<char>, Seq<u16>>
    decreases mappings.len(),
{
    if mappings.len() == 0 {
        m
    } else {
        let r = table_after_mappings(m, mappings.drop_last());
        table_after_mapping(r, mappings.last().0, mappings.last().1)
    }
}

/// The table of the saved profiles, in order.
pub open spec fn table_of_profiles(profiles: Seq<ControllerProfile>) -> Map<Seq<char>, Seq<u16>>
    decreases profiles.len(),
{
    if profiles.len() == 0 {
        Map::empty()
    } else {
        table_after_mappings(table_of_profiles(profiles.drop_last()), pair_views(profiles.last().mappings@))
    }
}

/// For each input token, the keys that the virtual keyboard types.
#[derive(Debug)]
pub struct MappingTable {
    entries: Vec<(String, Vec<u16>)>,
}

impl View for MappingTable {
    type V = Map<Seq<char>, Seq<u16>>;

    closed spec fn view(&self) -> Self::V {
        assoc_view(self.entries@).map_values(|v: Vec<u16>| v@)
    }
}

fn append_new_keys(existing: &mut Vec<u16>, keys: &[u16])
    ensures
        final(existing)@ == append_new(old(existing)@, keys@),
{
    let ghost start = existing@;
    let mut i: usize = 0;
    while i < keys.len()
        invariant
            i <= keys.len(),
            existing@ == append_new(start, keys@.take(i as int)),
        decreases keys.len() - i,
    {
        proof {
            assert(keys@.take(i + 1).drop_last() == keys@.take(i as int));
            assert(keys@.take(i + 1).last() == keys@[i as int]);
        }
        let mut found = false;
        let mut j: usize = 0;
        while j < existing.len()
            invariant
                j <= existing.len(),
                i < keys.len(),
                found == exists|m: int| 0 <= m < j && existing@[m] == keys@[i as int],
            decreases existing.len() - j,
        {
            if existing[j] == keys[i] {
                found = true;
            }
            j = j + 1;
        }
        if !found {
            existing.push(keys[i]);
        }
        i = i + 1;
    }
    proof {
        assert(keys@.take(keys@.len() as int) == keys@);
    }
}

impl MappingTable {
    /// An empty table.
    pub fn new() -> (t: Self)
        ensures
            t.wf(),
            t@ == Map::<Seq<char>, Seq<u16>>::empty(),
    {
        let t = MappingTable { entries: Vec::new() };
        assert(t@ =~= Map::<Seq<char>, Seq<u16>>::empty());
        t
    }

    /// The table holds no token.
    pub closed spec fn wf(&self) -> bool {
        unique_keys(self.entries@)
    }

    /// Merges `keys` into the entry of `token`.
    pub fn merge_mapping(&mut self, input_token: &str, output_keys: &[u16])
        requires
            old(self).wf(),
        ensures
            final(self).wf(),
            final(self)@ == merged(old(self)@, input_token@, output_keys@),
    {
        let ghost before = self.entries@;
        match assoc_find(&self.entries, input_token) {
            Some(i) => {
                let mut keys = self.entries[i].1.clone();
                proof {
                    lemma_assoc_at(before, i as int);
                    assert(keys@ == before[i as int].1@);
                }
                append_new_keys(&mut keys, output_keys);
                let name = self.entries[i].0.clone();
                let ghost nk = keys@;
                self.entries.set(i, (name, keys));
                proof {
                    assert(self.entries@ == before.update(i as int, (before[i as int].0, self.entries@[i as int].1)));
                    lemma_assoc_update(before, i as int, self.entries@[i as int].1);
                    assert(self@ =~= merged(assoc_view(before).map_values(|v: Vec<u16>| v@), input_token@, output_keys@));
                }
            },
            None => {
                let mut keys: Vec<u16> = Vec::new();
                let mut k: usize = 0;
                while k < output_keys.len()
                    invariant
                        k <= output_keys.len(),
                        keys@ == output_keys@.take(k as int),
                    decreases output_keys.len() - k,
                {
                    keys.push(output_keys[k]);
                    k = k + 1;
                    assert(output_keys@.take(k as int) == output_keys@.take(k - 1).push(output_keys@[k - 1]));
                }
                assert(output_keys@.take(output_keys@.len() as int) == output_keys@);
                self.entries.push((owned(input_token), keys));
                proof {
                    lemma_assoc_push(before, self.entries@.last().0, self.entries@.last().1);
                    assert(self.entries@ == before.push(self.entries@.last()));
                    assert(self@ =~= merged(assoc_view(before).map_values(|v: Vec<u16>| v@), input_token@, output_keys@));
                }
            },
        }
    }

    fn get(&self, token: &str) -> (r: Option<Vec<u16>>)
        requires
            self.wf(),
        ensures
            r matches Some(k) ==> self@.contains_key(token@) && self@[token@] == k@,
            r is None ==> !self@.contains_key(token@),
    {
        match assoc_find(&self.entries, token) {
            Some(i) => {
                proof {
                    lemma_assoc_at(self.entries@, i as int);
                }
                Some(self.entries[i].1.clone())
            },
            None => None,
        }
    }
}

/// The keys of an input token: its own entry, else the entry of its
/// canonical spelling.
pub open spec fn mapped_keys_spec(m: Map<Seq<char>, Seq<u16>>, token: Seq<char>) -> Option<Seq<u16>> {
    if m.contains_key(token) {
        Some(m[token])
    } else if canonical_spec(token) != token && m.contains_key(canonical_spec(token)) {
        Some(m[canonical_spec(token)])
    } else {
        None
    }
}

/// The keys of an input token.
pub fn mapped_keys_for_token(table: &MappingTable, input_token: &str) -> (r: Option<Vec<u16>>)
    requires
        table.wf(),
    ensures
        match r {
            Some(k) => mapped_keys_spec(table@, input_token@) == Some(k@),
            None => mapped_keys_spec(table@, input_token@) is None,
        },
{
    if let Some(keys) = table.get(input_token) {
        return Some(keys);
    }
    let canonical = canonical_input_token(input_token);
    if str_eq(canonical.as_str(), input_token) {
        return None;
    }
    table.get(canonical.as_str())
}

fn merge_aliases(table: &mut MappingTable, aliases: &Vec<String>, keys: &[u16])
    requires
        old(table).wf(),
    ensures
        final(table).wf(),
        final(table)@ == merged_all(old(table)@, aliases@.map_values(|s: String| s@), keys@),
{
    let ghost start = table@;
    let ghost av = aliases@.map_values(|s: String| s@);
    let mut i: usize = 0;
    while i < aliases.len()
        invariant
            i <= aliases.len(),
            table.wf(),
            av == aliases@.map_values(|s: String| s@),
            table@ == merged_all(start, av.take(i as int), keys@),
        decreases aliases.len() - i,
    {
        proof {
            assert(av.take(i + 1).drop_last() == av.take(i as int));
            assert(av.take(i + 1).last() == aliases@[i as int]@);
        }
        table.merge_mapping(aliases[i].as_str(), keys);
        i = i + 1;
    }
    proof {
        assert(av.take(aliases@.len() as int) == av);
    }
}

/// The input-to-output table of the saved profiles.
pub fn input_to_output_map(store: &ControllerStore) -> (t: MappingTable)
    ensures
        t.wf(),
        t@ == table_of_profiles(store.controllers@),
{
    let mut table = MappingTable::new();
    let mut p: usize = 0;
    while p < store.controllers.len()
        invariant
            p <= store.controllers.len(),
            table.wf(),
            table@ == table_of_profiles(store.controllers@.take(p as int)),
        decreases store.controllers.len() - p,
    {
        let profile = &store.controllers[p];
        let ghost pv = pair_views(profile.mappings@);
        let ghost start = table@;
        proof {
            assert(store.controllers@.take(p + 1).drop_last() == store.controllers@.take(p as int));
            assert(store.controllers@.take(p + 1).last() == *profile);
        }
        let mut i: usize = 0;
        while i < profile.mappings.len()
            invariant
                i <= profile.mappings.len(),
                table.wf(),
                pv == pair_views(profile.mappings@),
                table@ == table_after_mappings(start, pv.take(i as int)),
            decreases profile.mappings.len() - i,
        {
            proof {
                assert(pv.take(i + 1).drop_last() == pv.take(i as int));
                assert(pv.take(i + 1).last() == (profile.mappings@[i as int].0@, profile.mappings@[i as int].1@));
            }
            let action = profile.mappings[i].0.as_str();
            let token = profile.mappings[i].1.as_str();
            let keys = output_keys_for_action(action);
            if keys.len() > 0 {
                table.merge_mapping(token, keys.as_slice());
                let canonical = canonical_input_token(token);
                if !str_eq(canonical.as_str(), token) {
                    table.merge_mapping(canonical.as_str(), keys.as_slice());
                }
                let aliases = action_token_aliases(action);
                merge_aliases(&mut table, &aliases, keys.as_slice());
            }
            i = i + 1;
        }
        proof {
            assert(pv.take(profile.mappings@.len() as int) == pv);
        }
        p = p + 1;
    }
    proof {
        assert(store.controllers@.take(store.controllers@.len() as int) == store.controllers@);
    }
    table
}


// ---------------------------------------------------------------------------
// Turning input tokens into key presses
// ---------------------------------------------------------------------------

/// The key events (code and value) for `keys` with `value`.
pub open spec fn key_events(keys: Seq<u16>, value: i32) -> Seq<(u16, i32)> {
    keys.map_values(|k: u16| (k, value))
}

/// What a token with `value` (1 pressed, 0 released) does: nothing when it
/// already had that value; else it gets that value and its mapped keys, if
/// any, are typed with it.
pub open spec fn emit_view(
    states: Map<Seq<char>, i32>,
    table: Map<Seq<char>, Seq<u16>>,
    token: Seq<char>,
    value: i32,
) -> (Map<Seq<char>, i32>, Seq<(u16, i32)>) {
    let previous = if states.contains_key(token) { states[token] } else { -1i32 };
    if previous == value {
        (states, seq![])
    } else {
        (
            states.insert(token, value),
            match mapped_keys_spec(table, token) {
                Some(keys) => key_events(keys, value),
                None => seq![],
            },
        )
    }
}

/// What a stick direction does to its two tokens: the side it points to is
/// pressed and the other released (both released at rest), negative first.
pub open spec fn direction_tokens_view(
    states: Map<Seq<char>, i32>,
    table: Map<Seq<char>, Seq<u16>>,
    negative: Seq<char>,
    positive: Seq<char>,
    direction: i8,
) -> (Map<Seq<char>, i32>, Seq<(u16, i32)>) {
    let (nv, pv) = if direction == -1 { (1i32, 0i32) } else if direction == 1 { (0i32, 1i32) } else { (0i32, 0i32) };
    let (s1, e1) = emit_view(states, table, negative, nv);
    let (s2, e2) = emit_view(s1, table, positive, pv);
    (s2, e1 + e2)
}

/// The token values after every pressed token is let go.
pub open spec fn released_states(m: Map<Seq<char>, i32>) -> Map<Seq<char>, i32> {
    m.map_values(|v: i32| if v == 1 { 0i32 } else { v })
}

/// A release of `token` types `key`: the token's mapped keys hold it.
pub open spec fn releases_key(table: Map<Seq<char>, Seq<u16>>, token: Seq<char>, key: u16) -> bool {
    match mapped_keys_spec(table, token) {
        Some(keys) => keys.contains(key),
        None => false,
    }
}

/// The direction of a controller axis for the mapper: the left stick both
/// ways, the triggers when pulled, nothing else.
pub open spec fn controller_axis_direction_spec(axis: ControllerAxis, value: i16) -> i8 {
    match axis {
        ControllerAxis::LeftX | ControllerAxis::LeftY => axis_direction_spec(value),
        ControllerAxis::TriggerLeft | ControllerAxis::TriggerRight => trigger_direction_spec(value),
        _ => 0i8,
    }
}

/// The direction of a controller axis for the mapper.
pub fn controller_axis_direction(axis: ControllerAxis, value: i16) -> (r: i8)
    ensures
        r == controller_axis_direction_spec(axis, value),
{
    match axis {
        ControllerAxis::LeftX | ControllerAxis::LeftY => axis_direction(value),
        ControllerAxis::TriggerLeft | ControllerAxis::TriggerRight => trigger_axis_direction(value),
        _ => 0,
    }
}

/// The last value seen of each input token.
#[derive(Debug)]
pub struct MapperState {
    token_states: Vec<(String, i32)>,
}

impl View for MapperState {
    type V = Map<Seq<char>, i32>;

    closed spec fn view(&self) -> Self::V {
        assoc_view(self.token_states@)
    }
}

fn events_for(keys: &Vec<u16>, value: i32) -> (r: Vec<(u16, i32)>)
    ensures
        r@ == key_events(keys@, value),
{
    let mut r: Vec<(u16, i32)> = Vec::new();
    let mut i: usize = 0;
    while i < keys.len()
        invariant
            i <= keys.len(),
            r@ == key_events(keys@.take(i as int), value),
        decreases keys.len() - i,
    {
        r.push((keys[i], value));
        i = i + 1;
        assert(key_events(keys@.take(i as int), value) =~= key_events(keys@.take(i - 1), value).push((keys@[i - 1], value)));
    }
    assert(keys@.take(keys@.len() as int) == keys@);
    r
}

impl MapperState {
    /// No token seen yet.
    pub fn new() -> (s: Self)
        ensures
            s.wf(),
            s@ == Map::<Seq<char>, i32>::empty(),
    {
        let s = MapperState { token_states: Vec::new() };
        assert(s@ =~= Map::<Seq<char>, i32>::empty());
        s
    }

    /// No token is listed twice.
    pub closed spec fn wf(&self) -> bool {
        unique_keys(self.token_states@)
    }

    fn set_state(&mut self, token: &str, value: i32)
        requires
            old(self).wf(),
        ensures
            final(self).wf(),
            final(self)@ == old(self)@.insert(token@, value),
    {
        let ghost before = self.token_states@;
        match assoc_find(&self.token_states, token) {
            Some(i) => {
                let name = self.token_states[i].0.clone();
                self.token_states.set(i, (name, value));
                proof {
                    assert(self.token_states@ == before.update(i as int, (before[i as int].0, value)));
                    lemma_assoc_update(before, i as int, value);
                }
            },
            None => {
                self.token_states.push((owned(token), value));
                proof {
                    assert(self.token_states@ == before.push(self.token_states@.last()));
                    lemma_assoc_push(before, self.token_states@.last().0, value);
                }
            },
        }
    }

    fn state_of(&self, token: &str) -> (r: i32)
        requires
            self.wf(),
        ensures
            r == (if self@.contains_key(token@) { self@[token@] } else { -1i32 }),
    {
        match assoc_find(&self.token_states, token) {
            Some(i) => {
                proof {
                    lemma_assoc_at(self.token_states@, i as int);
                }
                self.token_states[i].1
            },
            None => -1,
        }
    }

    /// Input token `input_token` now has `value`; returns the key events to
    /// type on the virtual keyboard.
    pub fn emit_mapped_token(&mut self, table: &MappingTable, input_token: &str, value: i32) -> (r: Vec<(u16, i32)>)
        requires
            old(self).wf(),
            table.wf(),
        ensures
            final(self).wf(),
            (final(self)@, r@) == emit_view(old(self)@, table@, input_token@, value),
    {
        let previous = self.state_of(input_token);
        if previous == value {
            return Vec::new();
        }
        self.set_state(input_token, value);
        match mapped_keys_for_token(table, input_token) {
            Some(keys) => events_for(&keys, value),
            None => Vec::new(),
        }
    }

    /// A stick moved to `direction`; returns the key events to type.
    pub fn handle_direction_tokens(
        &mut self,
        table: &MappingTable,
        negative_token: &str,
        positive_token: &str,
        direction: i8,
    ) -> (r: Vec<(u16, i32)>)
        requires
            old(self).wf(),
            table.wf(),
        ensures
            final(self).wf(),
            (final(self)@, r@) == direction_tokens_view(old(self)@, table@, negative_token@, positive_token@, direction),
    {
        let (nv, pv): (i32, i32) = if direction == -1 {
            (1, 0)
        } else if direction == 1 {
            (0, 1)
        } else {
            (0, 0)
        };
        let mut r = self.emit_mapped_token(table, negative_token, nv);
        let mut r2 = self.emit_mapped_token(table, positive_token, pv);
        r.append(&mut r2);
        r
    }

    /// Lets go of every pressed token; returns the key releases to type.
    pub fn release_all_active_tokens(&mut self, table: &MappingTable) -> (r: Vec<(u16, i32)>)
        requires
            old(self).wf(),
            table.wf(),
        ensures
            final(self).wf(),
            final(self)@ == released_states(old(self)@),
            forall|j: int| 0 <= j < r@.len() ==> (#[trigger] r@[j]).1 == 0 && exists|t: Seq<char>|
                old(self)@.contains_key(t) && old(self)@[t] == 1 && releases_key(table@, t, r@[j].0),
            forall|t: Seq<char>, k: u16| #![trigger old(self)@[t], releases_key(table@, t, k)]
                old(self)@.contains_key(t) && old(self)@[t] == 1 && releases_key(table@, t, k) ==> r@.contains((k, 0i32)),
    {
        let ghost before = self.token_states@;
        let mut r: Vec<(u16, i32)> = Vec::new();
        let mut i: usize = 0;
        while i < self.token_states.len()
            invariant
                i <= self.token_states.len(),
                self.token_states@.len() == before.len(),
                unique_keys(self.token_states@),
                table.wf(),
                forall|j: int| 0 <= j < before.len() ==> #[trigger] self.token_states@[j].0 == before[j].0,
                forall|j: int| 0 <= j < i ==> #[trigger] self.token_states@[j].1 == (if before[j].1 == 1 { 0i32 } else { before[j].1 }),
                forall|j: int| i <= j < before.len() ==> #[trigger] self.token_states@[j].1 == before[j].1,
                forall|j: int| 0 <= j < r@.len() ==> (#[trigger] r@[j]).1 == 0 && exists|m: int|
                    0 <= m < i && before[m].1 == 1 && releases_key(table@, #[trigger] before[m].0@, r@[j].0),
                forall|m: int, k: u16| 0 <= m < i && before[m].1 == 1 && #[trigger] releases_key(table@, before[m].0@, k) ==> r@.contains((k, 0i32)),
            decreases before.len() - i,
        {
            let ghost r_start = r@;
            if self.token_states[i].1 == 1 {
                let ghost r0 = r@;
                match mapped_keys_for_token(table, self.token_states[i].0.as_str()) {
                    Some(keys) => {
                        let mut ev = events_for(&keys, 0);
                        r.append(&mut ev);
                        proof {
                            assert forall|k: u16| keys@.contains(k) implies r@.contains((k, 0i32)) by {
                                let x = choose|x: int| 0 <= x < keys@.len() && keys@[x] == k;
                                assert(r@[r0.len() + x] == (k, 0i32));
                            }
                            assert forall|j: int| 0 <= j < r0.len() implies (#[trigger] r@[j]).1 == 0 && exists|m: int|
                                0 <= m < i + 1 && before[m].1 == 1 && releases_key(table@, #[trigger] before[m].0@, r@[j].0) by {
                                assert(r@[j] == r0[j]);
                                let m = choose|m: int| 0 <= m < i && before[m].1 == 1 && releases_key(table@, #[trigger] before[m].0@, r0[j].0);
                                assert(releases_key(table@, before[m].0@, r@[j].0));
                            }
                            assert forall|j: int| r0.len() <= j < r@.len() implies (#[trigger] r@[j]).1 == 0 && exists|m: int|
                                0 <= m < i + 1 && before[m].1 == 1 && releases_key(table@, #[trigger] before[m].0@, r@[j].0) by {
                                assert(r@[j] == (keys@[j - r0.len()], 0i32));
                                assert(keys@.contains(r@[j].0));
                                assert(before[i as int].0@ == self.token_states@[i as int].0@);
                                assert(before[i as int].1 == 1);
                                assert(releases_key(table@, before[i as int].0@, r@[j].0));
                            }
                            assert forall|m: int, k: u16| 0 <= m < i + 1 && before[m].1 == 1 && #[trigger] releases_key(table@, before[m].0@, k) implies r@.contains((k, 0i32)) by {
                                if m < i {
                                    let y = choose|y: int| 0 <= y < r0.len() && r0[y] == (k, 0i32);
                                    assert(r@[y] == (k, 0i32));
                                }
                            }
                        }
                    },
                    None => {},
                }
                let name = self.token_states[i].0.clone();
                self.token_states.set(i, (name, 0));
            }
            proof {
                assert forall|j: int| 0 <= j < r_start.len() implies (#[trigger] r@[j]).1 == 0 && exists|m: int|
                    0 <= m < i + 1 && before[m].1 == 1 && releases_key(table@, #[trigger] before[m].0@, r@[j].0) by {
                    assert(r@[j] == r_start[j]);
                    let m = choose|m: int| 0 <= m < i && before[m].1 == 1 && releases_key(table@, #[trigger] before[m].0@, r_start[j].0);
                    assert(releases_key(table@, before[m].0@, r@[j].0));
                }
                assert forall|j: int| 0 <= j < r@.len() implies (#[trigger] r@[j]).1 == 0 && exists|m: int|
                    0 <= m < i + 1 && before[m].1 == 1 && releases_key(table@, #[trigger] before[m].0@, r@[j].0) by {
                    if j < r_start.len() {
                    } else {
                        assert(j >= r_start.len());
                    }
                }
            }
            i = i + 1;
        }
        proof {
            let after = self.token_states@;
            assert forall|k: Seq<char>| has_key(after, k) == has_key(before, k) by {
                if has_key(after, k) {
                    let j = choose|j: int| 0 <= j < after.len() && after[j].0@ == k;
                    assert(before[j].0@ == k);
                }
                if has_key(before, k) {
                    let j = choose|j: int| 0 <= j < before.len() && before[j].0@ == k;
                    assert(after[j].0@ == k);
                }
            }
            assert(unique_keys(before)) by {
                assert forall|a: int, b: int| 0 <= a < before.len() && 0 <= b < before.len() && a != b implies before[a].0@ != before[b].0@ by {
                    assert(after[a].0 == before[a].0 && after[b].0 == before[b].0);
                }
            }
            assert(self@ =~= released_states(assoc_view(before))) by {
                assert forall|k: Seq<char>| self@.contains_key(k) implies self@[k] == (if assoc_view(before)[k] == 1 { 0i32 } else { assoc_view(before)[k] }) by {
                    let j = choose|j: int| 0 <= j < after.len() && after[j].0@ == k;
                    lemma_assoc_at(after, j);
                    lemma_assoc_at(before, j);
                }
            }
            assert forall|t: Seq<char>, k: u16| #![trigger assoc_view(before)[t], releases_key(table@, t, k)]
                assoc_view(before).contains_key(t) && assoc_view(before)[t] == 1 && releases_key(table@, t, k) implies r@.contains((k, 0i32)) by {
                let j = choose|j: int| 0 <= j < before.len() && before[j].0@ == t;
                lemma_assoc_at(before, j);
            }
            assert forall|j: int| 0 <= j < r@.len() implies (#[trigger] r@[j]).1 == 0 && exists|t: Seq<char>|
                assoc_view(before).contains_key(t) && assoc_view(before)[t] == 1 && releases_key(table@, t, r@[j].0) by {
                let m = choose|m: int| 0 <= m < before.len() && before[m].1 == 1 && releases_key(table@, #[trigger] before[m].0@, r@[j].0);
                lemma_assoc_at(before, m);
            }
        }
        r
    }
}

// ---------------------------------------------------------------------------
// Which devices the mapper listens to
// ---------------------------------------------------------------------------

/// The device ids of the saved profiles that name one, in order.
pub open spec fn configured_ids_spec(profiles: Seq<ControllerProfile>) -> Seq<Seq<char>>
    decreases profiles.len(),
{
    if profiles.len() == 0 {
        seq![]
    } else {
        let rest = configured_ids_spec(profiles.drop_last());
        match profiles.last().device_id {
            Some(d) => rest.push(d@),
            None => rest,
        }
    }
}

/// The device ids of the saved profiles that name one.
pub fn configured_controller_ids(store: &ControllerStore) -> (r: Vec<String>)
    ensures
        r@.map_values(|s: String| s@) == configured_ids_spec(store.controllers@),
{
    let mut r: Vec<String> = Vec::new();
    let mut i: usize = 0;
    while i < store.controllers.len()
        invariant
            i <= store.controllers.len(),
            r@.map_values(|s: String| s@) == configured_ids_spec(store.controllers@.take(i as int)),
        decreases store.controllers.len() - i,
    {
        proof {
            assert(store.controllers@.take(i + 1).drop_last() == store.controllers@.take(i as int));
            assert(store.controllers@.take(i + 1).last() == store.controllers@[i as int]);
        }
        if let Some(d) = &store.controllers[i].device_id {
            let ghost before = r@;
            r.push(d.clone());
            proof {
                assert(r@.map_values(|s: String| s@) =~= before.map_values(|s: String| s@).push(d@));
            }
        }
        i = i + 1;
    }
    proof {
        assert(store.controllers@.take(store.controllers@.len() as int) == store.controllers@);
    }
    r
}

/// All aliases of the given device ids.
pub open spec fn expanded_aliases(ids: Seq<Seq<char>>) -> Set<Seq<char>>
    decreases ids.len(),
{
    if ids.len() == 0 {
        Set::empty()
    } else {
        expanded_aliases(ids.drop_last()).union(alias_candidates(ids.last()).to_set())
    }
}

/// All aliases of the given device ids.
pub fn expand_device_id_aliases(device_ids: &Vec<String>) -> (r: Vec<String>)
    ensures
        r@.map_values(|s: String| s@).to_set() == expanded_aliases(device_ids@.map_values(|s: String| s@)),
{
    let ghost ids = device_ids@.map_values(|s: String| s@);
    let mut r: Vec<String> = Vec::new();
    let mut i: usize = 0;
    while i < device_ids.len()
        invariant
            i <= device_ids.len(),
            ids == device_ids@.map_values(|s: String| s@),
            r@.map_values(|s: String| s@).to_set() == expanded_aliases(ids.take(i as int)),
        decreases device_ids.len() - i,
    {
        let aliases = device_id_aliases(device_ids[i].as_str());
        let ghost before = r@.map_values(|s: String| s@);
        let ghost av = aliases@.map_values(|s: String| s@);
        let mut k: usize = 0;
        while k < aliases.len()
            invariant
                k <= aliases.len(),
                av == aliases@.map_values(|s: String| s@),
                r@.map_values(|s: String| s@).to_set() == before.to_set().union(av.take(k as int).to_set()),
            decreases aliases.len() - k,
        {
            let ghost r0 = r@.map_values(|s: String| s@);
            r.push(aliases[k].clone());
            proof {
                assert(r@.map_values(|s: String| s@) =~= r0.push(av[k as int]));
                r0.lemma_push_to_set_commute(av[k as int]);
                assert(av.take(k + 1) == av.take(k as int).push(av[k as int]));
                av.take(k as int).lemma_push_to_set_commute(av[k as int]);
                assert(r@.map_values(|s: String| s@).to_set() =~= before.to_set().union(av.take(k + 1).to_set()));
            }
            k = k + 1;
        }
        proof {
            assert(av.take(aliases@.len() as int) == av);
            assert(ids.take(i + 1).drop_last() == ids.take(i as int));
            assert(ids.take(i + 1).last() == device_ids@[i as int]@);
        }
        i = i + 1;
    }
    proof {
        assert(ids.take(device_ids@.len() as int) == ids);
    }
    r
}

/// A device is listened to when some alias of it is among the allowed
/// aliases (never when there are none).
pub fn device_id_allowed(device_id: &str, allowed_aliases: &Vec<String>) -> (r: bool)
    ensures
        r == (allowed_aliases@.len() > 0 && exists|a: Seq<char>|
            #![trigger alias_candidates(device_id@).contains(a)]
            alias_candidates(device_id@).contains(a) && allowed_aliases@.map_values(|s: String| s@).contains(a)),
{
    if allowed_aliases.len() == 0 {
        return false;
    }
    crate::controller_input::device_id_matches_aliases(device_id, allowed_aliases)
}

/// A device is listened to: some alias of it is among the allowed aliases
/// (never when there are none).
pub open spec fn device_allowed_spec(device_id: Seq<char>, allowed: Seq<Seq<char>>) -> bool {
    allowed.len() > 0 && exists|a: Seq<char>|
        #![trigger alias_candidates(device_id).contains(a)]
        alias_candidates(device_id).contains(a) && allowed.contains(a)
}

/// What a controller or joystick reports to the mapper.
pub enum MapperInput {
    /// A button token with its value (1 down, 0 up).
    Token { token: String, value: i32 },
    /// A stick moved to `direction` (-1, 0 or 1) between two tokens.
    Direction { negative_token: String, positive_token: String, direction: i8 },
}

impl MapperState {
    /// Input `input` of device `device_id`: only a device whose aliases meet
    /// `allowed_aliases` types keys; any other changes nothing. Returns the
    /// key events to type.
    pub fn handle_device_input(
        &mut self,
        table: &MappingTable,
        allowed_aliases: &Vec<String>,
        device_id: &str,
        input: &MapperInput,
    ) -> (r: Vec<(u16, i32)>)
        requires
            old(self).wf(),
            table.wf(),
        ensures
            final(self).wf(),
            !device_allowed_spec(device_id@, allowed_aliases@.map_values(|s: String| s@)) ==> final(self)@ == old(self)@
                && r@.len() == 0,
            device_allowed_spec(device_id@, allowed_aliases@.map_values(|s: String| s@)) ==> match input {
                MapperInput::Token { token, value } => (final(self)@, r@) == emit_view(old(self)@, table@, token@, *value),
                MapperInput::Direction { negative_token, positive_token, direction } => (final(self)@, r@)
                    == direction_tokens_view(old(self)@, table@, negative_token@, positive_token@, *direction),
            },
    {
        if !device_id_allowed(device_id, allowed_aliases) {
            return Vec::new();
        }
        match input {
            MapperInput::Token { token, value } => self.emit_mapped_token(table, token.as_str(), *value),
            MapperInput::Direction { negative_token, positive_token, direction } => {
                self.handle_direction_tokens(table, negative_token.as_str(), positive_token.as_str(), *direction)
            },
        }
    }
}


/// A token reported twice with the same value types its keys only once:
/// the second report changes nothing.
pub proof fn lemma_emit_idempotent(states: Map<Seq<char>, i32>, table: Map<Seq<char>, Seq<u16>>, token: Seq<char>, value: i32)
    ensures
        ({
            let (s1, e1) = emit_view(states, table, token, value);
            let (s2, e2) = emit_view(s1, table, token, value);
            &&& s2 == s1
            &&& e2.len() == 0
        }),
{
}

/// Pressing a mapped token and letting it go types each of its keys down
/// and then up, and leaves the token released.
pub proof fn lemma_press_then_release(states: Map<Seq<char>, i32>, table: Map<Seq<char>, Seq<u16>>, token: Seq<char>)
    requires
        !states.contains_key(token) || states[token] == 0,
        mapped_keys_spec(table, token) is Some,
    ensures
        ({
            let keys = mapped_keys_spec(table, token)->0;
            let (s1, e1) = emit_view(states, table, token, 1);
            let (s2, e2) = emit_view(s1, table, token, 0);
            &&& e1 == key_events(keys, 1)
            &&& e2 == key_events(keys, 0)
            &&& s2 == states.insert(token, 0)
        }),
{
    let (s1, e1) = emit_view(states, table, token, 1);
    assert(s1.insert(token, 0) =~= states.insert(token, 0));
}

/// After all tokens are let go, no token is pressed, and the same tokens
/// are known.
pub proof fn lemma_release_all_clears(states: Map<Seq<char>, i32>)
    ensures
        forall|t: Seq<char>| #[trigger] released_states(states).contains_key(t) ==> released_states(states)[t] != 1,
        released_states(states).dom() == states.dom(),
{
}

/// The value last typed for key `k` in `out`, if it was typed at all.
pub open spec fn key_last_value(out: Seq<(u16, i32)>, k: u16) -> Option<i32>
    decreases out.len(),
{
    if out.len() == 0 {
        None
    } else if out.last().0 == k {
        Some(out.last().1)
    } else {
        key_last_value(out.drop_last(), k)
    }
}

/// Every key whose last typed value is "down" in `out` is a key of a token
/// that is pressed in `states`.
pub open spec fn keys_backed(states: Map<Seq<char>, i32>, table: Map<Seq<char>, Seq<u16>>, out: Seq<(u16, i32)>) -> bool {
    forall|k: u16| #[trigger] key_last_value(out, k) == Some(1i32) ==> exists|t: Seq<char>|
        states.contains_key(t) && states[t] == 1 && #[trigger] releases_key(table, t, k)
}

/// One step of the mapper (what `handle_device_input` does): a token
/// report, a stick motion, or an input of a device that is not listened to.
pub open spec fn mapper_step(
    table: Map<Seq<char>, Seq<u16>>,
    s: Map<Seq<char>, i32>,
    w: Map<Seq<char>, i32>,
    out: Seq<(u16, i32)>,
) -> bool {
    ||| (exists|t: Seq<char>, v: i32| (w, out) == #[trigger] emit_view(s, table, t, v))
    ||| (exists|n: Seq<char>, p: Seq<char>, d: i8| (w, out) == #[trigger] direction_tokens_view(s, table, n, p, d))
    ||| (w == s && out == Seq::<(u16, i32)>::empty())
}

/// The key events of a run of steps, in order.
pub open spec fn run_keys(outs: Seq<Seq<(u16, i32)>>) -> Seq<(u16, i32)>
    decreases outs.len(),
{
    if outs.len() == 0 {
        seq![]
    } else {
        run_keys(outs.drop_last()) + outs.last()
    }
}

proof fn lemma_last_after_events(out: Seq<(u16, i32)>, keys: Seq<u16>, v: i32, k: u16)
    ensures
        key_last_value(out + key_events(keys, v), k) == (if keys.contains(k) { Some(v) } else { key_last_value(out, k) }),
    decreases keys.len(),
{
    if keys.len() == 0 {
        assert(out + key_events(keys, v) =~= out);
    } else {
        let f = keys.drop_last();
        lemma_last_after_events(out, f, v, k);
        let all = out + key_events(keys, v);
        assert(all.drop_last() =~= out + key_events(f, v));
        assert(all.last() == (keys.last(), v));
        if keys.last() == k {
            assert(keys.contains(k));
        } else {
            assert(keys.contains(k) == f.contains(k)) by {
                if keys.contains(k) {
                    let i = choose|i: int| 0 <= i < keys.len() && keys[i] == k;
                    assert(i < f.len());
                    assert(f[i] == k);
                }
                if f.contains(k) {
                    let i = choose|i: int| 0 <= i < f.len() && f[i] == k;
                    assert(keys[i] == k);
                }
            }
        }
    }
}

proof fn lemma_emit_keeps(
    table: Map<Seq<char>, Seq<u16>>,
    s: Map<Seq<char>, i32>,
    out: Seq<(u16, i32)>,
    t: Seq<char>,
    v: i32,
)
    requires
        keys_backed(s, table, out),
    ensures
        keys_backed(emit_view(s, table, t, v).0, table, out + emit_view(s, table, t, v).1),
{
    let (w, e) = emit_view(s, table, t, v);
    let previous = if s.contains_key(t) { s[t] } else { -1i32 };
    if previous == v {
        assert(out + e =~= out);
    } else {
        assert forall|k: u16| #[trigger] key_last_value(out + e, k) == Some(1i32) implies exists|t2: Seq<char>|
            w.contains_key(t2) && w[t2] == 1 && #[trigger] releases_key(table, t2, k) by {
            let hit = match mapped_keys_spec(table, t) {
                Some(keys) => keys.contains(k),
                None => false,
            };
            match mapped_keys_spec(table, t) {
                Some(keys) => {
                    lemma_last_after_events(out, keys, v, k);
                },
                None => {
                    assert(out + e =~= out);
                },
            }
            if hit {
                assert(v == 1);
                assert(releases_key(table, t, k));
                assert(w.contains_key(t) && w[t] == 1);
            } else {
                assert(key_last_value(out, k) == Some(1i32));
                let t2 = choose|t2: Seq<char>| s.contains_key(t2) && s[t2] == 1 && #[trigger] releases_key(table, t2, k);
                assert(t2 != t);
                assert(w.contains_key(t2) && w[t2] == 1);
            }
        }
    }
}

/// A mapper step keeps every key that was last typed down backed by a
/// pressed token.
pub proof fn lemma_mapper_step_keeps(
    table: Map<Seq<char>, Seq<u16>>,
    s: Map<Seq<char>, i32>,
    w: Map<Seq<char>, i32>,
    out: Seq<(u16, i32)>,
    step: Seq<(u16, i32)>,
)
    requires
        keys_backed(s, table, out),
        mapper_step(table, s, w, step),
    ensures
        keys_backed(w, table, out + step),
{
    if exists|t: Seq<char>, v: i32| (w, step) == #[trigger] emit_view(s, table, t, v) {
        let (t, v) = choose|t: Seq<char>, v: i32| (w, step) == #[trigger] emit_view(s, table, t, v);
        lemma_emit_keeps(table, s, out, t, v);
    } else if exists|n: Seq<char>, p: Seq<char>, d: i8| (w, step) == #[trigger] direction_tokens_view(s, table, n, p, d) {
        let (n, p, d) = choose|n: Seq<char>, p: Seq<char>, d: i8| (w, step) == #[trigger] direction_tokens_view(s, table, n, p, d);
        let (nv, pv) = if d == -1 { (1i32, 0i32) } else if d == 1 { (0i32, 1i32) } else { (0i32, 0i32) };
        let (s1, e1) = emit_view(s, table, n, nv);
        lemma_emit_keeps(table, s, out, n, nv);
        lemma_emit_keeps(table, s1, out + e1, p, pv);
        assert(out + e1 + emit_view(s1, table, p, pv).1 =~= out + step);
    } else {
        assert(out + step =~= out);
    }
}

/// Stopping releases every key still down: along any run of mapper steps
/// (from any state, with nothing typed before), when the stop releases
/// every key of every pressed token (what `release_all_active_tokens`
/// ensures), each key whose last typed value was "down" is typed up.
pub proof fn lemma_stop_releases(
    table: Map<Seq<char>, Seq<u16>>,
    states: Seq<Map<Seq<char>, i32>>,
    outs: Seq<Seq<(u16, i32)>>,
    released: Seq<(u16, i32)>,
)
    requires
        states.len() == outs.len() + 1,
        forall|i: int| 0 <= i < outs.len() ==> #[trigger] mapper_step(table, states[i], states[i + 1], outs[i]),
        forall|t: Seq<char>, k: u16| #![trigger states.last()[t], releases_key(table, t, k)]
            states.last().contains_key(t) && states.last()[t] == 1 && releases_key(table, t, k) ==> released.contains((k, 0i32)),
    ensures
        forall|k: u16| #[trigger] key_last_value(run_keys(outs), k) == Some(1i32) ==> released.contains((k, 0i32)),
{
    lemma_run_backed(table, states, outs);
    assert forall|k: u16| #[trigger] key_last_value(run_keys(outs), k) == Some(1i32) implies released.contains((k, 0i32)) by {
        let t = choose|t: Seq<char>| states.last().contains_key(t) && states.last()[t] == 1 && #[trigger] releases_key(table, t, k);
        assert(states.last()[t] == 1);
    }
}

/// Along any run of mapper steps with nothing typed before, every key last
/// typed down is a key of a token pressed at the end.
pub proof fn lemma_run_backed(
    table: Map<Seq<char>, Seq<u16>>,
    states: Seq<Map<Seq<char>, i32>>,
    outs: Seq<Seq<(u16, i32)>>,
)
    requires
        states.len() == outs.len() + 1,
        forall|i: int| 0 <= i < outs.len() ==> #[trigger] mapper_step(table, states[i], states[i + 1], outs[i]),
    ensures
        keys_backed(states.last(), table, run_keys(outs)),
    decreases outs.len(),
{
    if outs.len() == 0 {
        assert(run_keys(outs) == Seq::<(u16, i32)>::empty());
    } else {
        let n = outs.len() - 1;
        let sf = states.drop_last();
        let of = outs.drop_last();
        assert forall|i: int| 0 <= i < of.len() implies #[trigger] mapper_step(table, sf[i], sf[i + 1], of[i]) by {
            assert(mapper_step(table, states[i], states[i + 1], outs[i]));
        }
        lemma_run_backed(table, sf, of);
        assert(sf.last() == states[n]);
        assert(mapper_step(table, states[n], states[n + 1], outs[n]));
        lemma_mapper_step_keeps(table, states[n], states[n + 1], run_keys(of), outs[n]);
        assert(outs.last() == outs[n]);
        assert(states.last() == states[n + 1]);
    }
}

} // verus!

