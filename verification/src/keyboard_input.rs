use vstd::prelude::*;
use vstd::string::*;

use crate::text::{
    ascii_lower, chars_of, contains_chars, contains_seq, first_piece_with_prefix,
    first_with_prefix, has_prefix, lines, lower_chars, owned, push_str, slice_range,
    split_lines, split_on_chars, split_seq, split_words, starts_with_chars, string_of, trim,
    trim_chars, words,
};

verus! {

broadcast use vstd::string::group_string_axioms;

/// Linux key codes that the console reacts to.
pub const KEY_LEFTCTRL: u16 = 29;
pub const KEY_RIGHTCTRL: u16 = 97;
pub const KEY_SPACE: u16 = 57;
pub const KEY_UP: u16 = 103;
pub const KEY_LEFT: u16 = 105;
pub const KEY_RIGHT: u16 = 106;
pub const KEY_DOWN: u16 = 108;
pub const KEY_ENTER: u16 = 28;
pub const KEY_ESC: u16 = 1;
pub const KEY_TAB: u16 = 15;
pub const KEY_W: u16 = 17;
pub const KEY_A: u16 = 30;
pub const KEY_S: u16 = 31;
pub const KEY_D: u16 = 32;

/// The event type of key presses.
pub const EV_KEY: u16 = 1;

/// Bits per word of a capability bitmap in `/proc/bus/input/devices`.
pub const KEY_CAPABILITY_WORD_BITS: u16 = 64;

/// Bytes of one `struct input_event` on a 64-bit Linux system.
pub const INPUT_EVENT_SIZE: usize = 24;

/// What the raw keyboard backend reports.
#[derive(Debug, Clone)]
pub enum RawKeyboardEvent {
    Connected { device_node: String, device_name: String },
    Disconnected { device_node: String, device_name: String },
    Key { device_node: String, device_name: String, key_code: u16, value: i32, timestamp: u32 },
}

/// The name of a key code.
pub open spec fn key_name_spec(key_code: u16) -> Seq<char> {
    if key_code == KEY_ESC {
        "KEY_ESC"@
    } else if key_code == KEY_TAB {
        "KEY_TAB"@
    } else if key_code == KEY_ENTER {
        "KEY_ENTER"@
    } else if key_code == KEY_SPACE {
        "KEY_SPACE"@
    } else if key_code == KEY_LEFTCTRL {
        "KEY_LEFTCTRL"@
    } else if key_code == KEY_RIGHTCTRL {
        "KEY_RIGHTCTRL"@
    } else if key_code == KEY_UP {
        "KEY_UP"@
    } else if key_code == KEY_LEFT {
        "KEY_LEFT"@
    } else if key_code == KEY_RIGHT {
        "KEY_RIGHT"@
    } else if key_code == KEY_DOWN {
        "KEY_DOWN"@
    } else if key_code == KEY_W {
        "KEY_W"@
    } else if key_code == KEY_A {
        "KEY_A"@
    } else if key_code == KEY_S {
        "KEY_S"@
    } else if key_code == KEY_D {
        "KEY_D"@
    } else {
        "KEY_UNKNOWN"@
    }
}

/// The name of a key code, `KEY_UNKNOWN` for keys the console ignores.
pub fn key_code_name(key_code: u16) -> (r: &'static str)
    ensures
        r@ == key_name_spec(key_code),
{
    match key_code {
        KEY_ESC => "KEY_ESC",
        KEY_TAB => "KEY_TAB",
        KEY_ENTER => "KEY_ENTER",
        KEY_SPACE => "KEY_SPACE",
        KEY_LEFTCTRL => "KEY_LEFTCTRL",
        KEY_RIGHTCTRL => "KEY_RIGHTCTRL",
        KEY_UP => "KEY_UP",
        KEY_LEFT => "KEY_LEFT",
        KEY_RIGHT => "KEY_RIGHT",
        KEY_DOWN => "KEY_DOWN",
        KEY_W => "KEY_W",
        KEY_A => "KEY_A",
        KEY_S => "KEY_S",
        KEY_D => "KEY_D",
        _ => "KEY_UNKNOWN",
    }
}

// ---------------------------------------------------------------------------
// /proc/bus/input/devices
// ---------------------------------------------------------------------------

/// The trimmed rest of the first line of `block` that begins with `prefix`.
pub open spec fn line_value(block: Seq<char>, prefix: Seq<char>) -> Option<Seq<char>> {
    match first_with_prefix(lines(block), prefix) {
        Some(v) => Some(trim(v)),
        None => None,
    }
}

/// The value of the `prefix: ` line of a device block (such as `H: `).
pub open spec fn proc_value_spec(block: Seq<char>, prefix: Seq<char>) -> Option<Seq<char>> {
    line_value(block, prefix + ": "@)
}

/// The bitmap of a `B: capability=` line of a device block.
pub open spec fn proc_capability_spec(block: Seq<char>, capability: Seq<char>) -> Option<Seq<char>> {
    line_value(block, "B: "@ + capability + "="@)
}

/// Number of leading `c` in `s`.
pub open spec fn leading_count(s: Seq<char>, c: char) -> nat
    decreases s.len(),
{
    if s.len() > 0 && s[0] == c {
        1 + leading_count(s.drop_first(), c)
    } else {
        0
    }
}

/// Number of trailing `c` in `s`.
pub open spec fn trailing_count(s: Seq<char>, c: char) -> nat
    decreases s.len(),
{
    if s.len() > 0 && s.last() == c {
        1 + trailing_count(s.drop_last(), c)
    } else {
        0
    }
}

/// `s` without leading and trailing `c` (`str::trim_matches` with a
/// character).
pub open spec fn trim_char(s: Seq<char>, c: char) -> Seq<char> {
    if leading_count(s, c) >= s.len() {
        seq![]
    } else {
        s.subrange(leading_count(s, c) as int, s.len() - trailing_count(s, c))
    }
}

/// The device name of a block: the `N: ` value without `Name=` and quotes.
pub open spec fn proc_name_spec(block: Seq<char>) -> Option<Seq<char>> {
    match proc_value_spec(block, "N"@) {
        None => None,
        Some(v) => Some(
            trim_char(
                if has_prefix(v, "Name="@) {
                    v.skip(5)
                } else {
                    v
                },
                '"',
            ),
        ),
    }
}

fn line_value_exec(block: &str, prefix: &[char]) -> (r: Option<Vec<char>>)
    ensures
        r matches Some(v) ==> line_value(block@, prefix@) == Some(v@),
        r is None ==> line_value(block@, prefix@) is None,
{
    let text = chars_of(block);
    let ls = split_lines(&text);
    proof {
        assert(ls@.map_values(|p: Vec<char>| p@) =~= lines(text@));
    }
    match first_piece_with_prefix(&ls, prefix) {
        Some(v) => Some(trim_chars(&v)),
        None => None,
    }
}

/// The value of the `prefix: ` line of a device block.
pub fn parse_proc_bus_value(block: &str, prefix: &str) -> (r: Option<String>)
    ensures
        r matches Some(v) ==> proc_value_spec(block@, prefix@) == Some(v@),
        r is None ==> proc_value_spec(block@, prefix@) is None,
{
    let mut p = owned(prefix);
    push_str(&mut p, ": ");
    match line_value_exec(block, &chars_of(p.as_str())) {
        Some(v) => Some(string_of(&v)),
        None => None,
    }
}

/// The bitmap of the `B: capability=` line of a device block.
pub fn parse_proc_bus_capability(block: &str, capability: &str) -> (r: Option<String>)
    ensures
        r matches Some(v) ==> proc_capability_spec(block@, capability@) == Some(v@),
        r is None ==> proc_capability_spec(block@, capability@) is None,
{
    let mut p = owned("B: ");
    push_str(&mut p, capability);
    push_str(&mut p, "=");
    match line_value_exec(block, &chars_of(p.as_str())) {
        Some(v) => Some(string_of(&v)),
        None => None,
    }
}

proof fn lemma_leading_count(s: Seq<char>, c: char, i: int)
    requires
        0 <= i <= s.len(),
        forall|j: int| 0 <= j < i ==> s[j] == c,
        i == s.len() || s[i] != c,
    ensures
        leading_count(s, c) == i,
    decreases i,
{
    if i > 0 {
        lemma_leading_count(s.drop_first(), c, i - 1);
    }
}

proof fn lemma_trailing_count(s: Seq<char>, c: char, i: int)
    requires
        0 <= i <= s.len(),
        forall|j: int| s.len() - i <= j < s.len() ==> s[j] == c,
        i == s.len() || s[s.len() - i - 1] != c,
    ensures
        trailing_count(s, c) == i,
    decreases i,
{
    if i > 0 {
        lemma_trailing_count(s.drop_last(), c, i - 1);
    }
}

/// `s` without leading and trailing `c`.
pub fn trim_char_exec(s: &[char], c: char) -> (r: Vec<char>)
    ensures
        r@ == trim_char(s@, c),
{
    let mut a: usize = 0;
    while a < s.len() && s[a] == c
        invariant
            a <= s.len(),
            forall|j: int| 0 <= j < a ==> s@[j] == c,
        decreases s.len() - a,
    {
        a = a + 1;
    }
    proof {
        lemma_leading_count(s@, c, a as int);
    }
    if a >= s.len() {
        return Vec::new();
    }
    let mut b: usize = 0;
    while b < s.len() && s[s.len() - 1 - b] == c
        invariant
            b <= s.len(),
            forall|j: int| s.len() - b <= j < s.len() ==> s@[j] == c,
        decreases s.len() - b,
    {
        b = b + 1;
    }
    proof {
        lemma_trailing_count(s@, c, b as int);
        assert(s@[a as int] != c);
        assert(b < s.len() - a);
    }
    slice_range(s, a, s.len() - b)
}

/// The device name of a block.
pub fn parse_proc_bus_name(block: &str) -> (r: Option<String>)
    ensures
        r matches Some(v) ==> proc_name_spec(block@) == Some(v@),
        r is None ==> proc_name_spec(block@) is None,
{
    match parse_proc_bus_value(block, "N") {
        None => None,
        Some(value) => {
            let v = chars_of(value.as_str());
            let name_prefix = chars_of("Name=");
            proof {
                reveal_strlit("Name=");
            }
            let body = if starts_with_chars(&v, &name_prefix) {
                slice_range(&v, 5, v.len())
            } else {
                slice_range(&v, 0, v.len())
            };
            assert(v@.subrange(0, v@.len() as int) == v@);
            assert(v@.subrange(5, v@.len() as int) == v@.skip(5));
            Some(string_of(&trim_char_exec(&body, '"')))
        },
    }
}

// ---------------------------------------------------------------------------
// Capability bitmaps
// ---------------------------------------------------------------------------

/// The value of a hexadecimal digit.
pub open spec fn hex_digit_value(c: char) -> int {
    if '0' <= c && c <= '9' {
        c as int - '0' as int
    } else if 'a' <= c && c <= 'f' {
        c as int - 'a' as int + 10
    } else if 'A' <= c && c <= 'F' {
        c as int - 'A' as int + 10
    } else {
        -1
    }
}

/// The number that the hexadecimal digits `s` denote.
pub open spec fn hex_value(s: Seq<char>) -> int
    decreases s.len(),
{
    if s.len() == 0 {
        0
    } else {
        hex_value(s.drop_last()) * 16 + hex_digit_value(s.last())
    }
}

/// Every character of `s` is a hexadecimal digit.
pub open spec fn all_hex(s: Seq<char>) -> bool {
    forall|i: int| 0 <= i < s.len() ==> hex_digit_value(#[trigger] s[i]) >= 0
}

/// `u64::from_str_radix(s, 16)`: an optional `+`, then at least one
/// hexadecimal digit, denoting a number that fits in 64 bits.
pub open spec fn parse_hex_spec(s: Seq<char>) -> Option<u64> {
    let body = if s.len() > 0 && s[0] == '+' { s.drop_first() } else { s };
    if body.len() > 0 && all_hex(body) && hex_value(body) <= u64::MAX {
        Some(hex_value(body) as u64)
    } else {
        None
    }
}

proof fn lemma_hex_value_grows(s: Seq<char>, j: int, k: int)
    requires
        0 <= j <= k <= s.len(),
        all_hex(s),
    ensures
        0 <= hex_value(s.take(j)) <= hex_value(s.take(k)),
    decreases k,
{
    if k > 0 {
        assert(s.take(k).drop_last() == s.take(k - 1));
        assert(s.take(k).last() == s[k - 1]);
        assert(hex_digit_value(s[k - 1]) >= 0);
        if j < k {
            lemma_hex_value_grows(s, j, k - 1);
        } else {
            lemma_hex_value_grows(s, k - 1, k - 1);
        }
    } else {
        assert(s.take(0).len() == 0);
    }
}

fn hex_digit(c: char) -> (r: Option<u64>)
    ensures
        r matches Some(d) ==> d == hex_digit_value(c) && d < 16,
        r is None ==> hex_digit_value(c) < 0,
{
    if '0' <= c && c <= '9' {
        Some((c as u64) - ('0' as u64))
    } else if 'a' <= c && c <= 'f' {
        Some((c as u64) - ('a' as u64) + 10)
    } else if 'A' <= c && c <= 'F' {
        Some((c as u64) - ('A' as u64) + 10)
    } else {
        None
    }
}

/// `u64::from_str_radix(s, 16)`.
#[verifier::spinoff_prover]
#[verifier::rlimit(40)]
pub fn parse_hex_u64(s: &[char]) -> (r: Option<u64>)
    ensures
        r == parse_hex_spec(s@),
{
    let start: usize = if s.len() > 0 && s[0] == '+' { 1 } else { 0 };
    let ghost body = if s@.len() > 0 && s@[0] == '+' { s@.drop_first() } else { s@ };
    assert(body == s@.skip(start as int));
    if start >= s.len() {
        return None;
    }
    let mut acc: u64 = 0;
    let mut i: usize = start;
    while i < s.len()
        invariant
            start <= i <= s.len(),
            start < s.len(),
            body == s@.skip(start as int),
            body == (if s@.len() > 0 && s@[0] == '+' { s@.drop_first() } else { s@ }),
            forall|j: int| 0 <= j < i - start ==> hex_digit_value(#[trigger] body[j]) >= 0,
            acc == hex_value(body.take(i - start)),
        decreases s.len() - i,
    {
        proof {
            assert(body.take(i - start + 1).drop_last() == body.take(i - start));
            assert(body.take(i - start + 1).last() == s@[i as int]);
        }
        match hex_digit(s[i]) {
            None => {
                proof {
                    assert(body[i - start] == s@[i as int]);
                    assert(hex_digit_value(body[i - start]) < 0);
                    assert(!all_hex(body));
                }
                return None;
            },
            Some(d) => {
                let next = match acc.checked_mul(16) {
                    Some(m) => m.checked_add(d),
                    None => None,
                };
                match next {
                    Some(n) => {
                        acc = n;
                    },
                    None => {
                        proof {
                            let k: int = i - start + 1;
                            assert(body.len() == s.len() - start);
                            assert(hex_value(body.take(k)) == acc * 16 + d);
                            assert(acc * 16 + d > u64::MAX);
                            if all_hex(body) {
                                lemma_hex_value_grows(body, k, body.len() as int);
                                assert(body.take(body.len() as int) == body);
                            }
                        }
                        return None;
                    },
                }
            },
        }
        i = i + 1;
    }
    proof {
        assert(body.take(body.len() as int) == body);
    }
    Some(acc)
}

/// Whether bit `code % 64` of word `code / 64` (counted from the right) is set
/// in a capability bitmap of space-separated hexadecimal words.
pub open spec fn bitmap_has_code_spec(bitmap: Seq<char>, key_code: u16) -> bool {
    let ws = words(bitmap);
    let wi = (key_code / KEY_CAPABILITY_WORD_BITS) as int;
    if wi >= ws.len() {
        false
    } else {
        match parse_hex_spec(ws[ws.len() - 1 - wi]) {
            None => false,
            Some(w) => w & (1u64 << ((key_code % KEY_CAPABILITY_WORD_BITS) as u64)) != 0,
        }
    }
}

/// Whether a capability bitmap has the bit of `key_code` set.
pub fn key_bitmap_has_code(bitmap: &str, key_code: u16) -> (r: bool)
    ensures
        r == bitmap_has_code_spec(bitmap@, key_code),
{
    let ws = split_words(&chars_of(bitmap));
    let word_index = (key_code / KEY_CAPABILITY_WORD_BITS) as usize;
    if word_index >= ws.len() {
        return false;
    }
    let reversed_index = ws.len() - (word_index + 1);
    match parse_hex_u64(&ws[reversed_index]) {
        None => false,
        Some(word) => {
            let bit_index = (key_code % KEY_CAPABILITY_WORD_BITS) as u64;
            word & (1u64 << bit_index) != 0
        },
    }
}


// ---------------------------------------------------------------------------
// Which input devices are keyboards
// ---------------------------------------------------------------------------

/// 1 for true, 0 for false.
pub open spec fn b2n(b: bool) -> nat {
    if b { 1 } else { 0 }
}

/// The lower-cased name mentions a kind of game controller.
pub open spec fn mentions_controller(lower: Seq<char>) -> bool {
    ||| contains_seq(lower, "gamepad"@)
    ||| contains_seq(lower, "controller"@)
    ||| contains_seq(lower, "joystick"@)
    ||| contains_seq(lower, "dualsense"@)
    ||| contains_seq(lower, "xbox"@)
    ||| contains_seq(lower, "snes"@)
    ||| contains_seq(lower, "nes"@)
    ||| contains_seq(lower, "8bitdo"@)
}

/// How many of W, A, S, D a key bitmap has.
pub open spec fn alpha_count(bitmap: Seq<char>) -> nat {
    b2n(bitmap_has_code_spec(bitmap, KEY_W)) + b2n(bitmap_has_code_spec(bitmap, KEY_A))
        + b2n(bitmap_has_code_spec(bitmap, KEY_S)) + b2n(bitmap_has_code_spec(bitmap, KEY_D))
}

/// How many of the arrows, Enter and Space a key bitmap has.
pub open spec fn navigation_count(bitmap: Seq<char>) -> nat {
    b2n(bitmap_has_code_spec(bitmap, KEY_UP)) + b2n(bitmap_has_code_spec(bitmap, KEY_DOWN))
        + b2n(bitmap_has_code_spec(bitmap, KEY_LEFT)) + b2n(bitmap_has_code_spec(bitmap, KEY_RIGHT))
        + b2n(bitmap_has_code_spec(bitmap, KEY_ENTER)) + b2n(bitmap_has_code_spec(bitmap, KEY_SPACE))
}

/// A device is taken for a physical keyboard when its name says keyboard,
/// or when it does not look like a controller and, if it lists its keys, has
/// at least two of W, A, S, D and two of the navigation keys.
pub open spec fn physical_keyboard_spec(block: Seq<char>, device_name: Seq<char>) -> bool {
    let lower = ascii_lower(device_name);
    if contains_seq(lower, "keyboard"@) {
        true
    } else {
        match proc_capability_spec(block, "KEY"@) {
            None => !mentions_controller(lower),
            Some(bitmap) => !mentions_controller(lower) && alpha_count(bitmap) >= 2
                && navigation_count(bitmap) >= 2,
        }
    }
}

fn has_term(lower: &[char], term: &str) -> (r: bool)
    ensures
        r == contains_seq(lower@, term@),
{
    contains_chars(lower, &chars_of(term))
}

fn count_of(b: bool) -> (r: usize)
    ensures
        r == b2n(b),
{
    if b { 1 } else { 0 }
}

/// Whether a device block describes a physical keyboard.
pub fn looks_like_physical_keyboard(block: &str, device_name: &str) -> (r: bool)
    ensures
        r == physical_keyboard_spec(block@, device_name@),
{
    let lower = lower_chars(&chars_of(device_name));
    if has_term(&lower, "keyboard") {
        return true;
    }
    let looks_like_controller = has_term(&lower, "gamepad") || has_term(&lower, "controller")
        || has_term(&lower, "joystick") || has_term(&lower, "dualsense") || has_term(&lower, "xbox")
        || has_term(&lower, "snes") || has_term(&lower, "nes") || has_term(&lower, "8bitdo");
    let bitmap = match parse_proc_bus_capability(block, "KEY") {
        None => {
            return !looks_like_controller;
        },
        Some(b) => b,
    };
    let alpha = count_of(key_bitmap_has_code(bitmap.as_str(), KEY_W)) + count_of(
        key_bitmap_has_code(bitmap.as_str(), KEY_A),
    ) + count_of(key_bitmap_has_code(bitmap.as_str(), KEY_S)) + count_of(
        key_bitmap_has_code(bitmap.as_str(), KEY_D),
    );
    let navigation = count_of(key_bitmap_has_code(bitmap.as_str(), KEY_UP)) + count_of(
        key_bitmap_has_code(bitmap.as_str(), KEY_DOWN),
    ) + count_of(key_bitmap_has_code(bitmap.as_str(), KEY_LEFT)) + count_of(
        key_bitmap_has_code(bitmap.as_str(), KEY_RIGHT),
    ) + count_of(key_bitmap_has_code(bitmap.as_str(), KEY_ENTER)) + count_of(
        key_bitmap_has_code(bitmap.as_str(), KEY_SPACE),
    );
    if looks_like_controller {
        return false;
    }
    alpha >= 2 && navigation >= 2
}

/// The first word that begins with `prefix`.
pub open spec fn first_word_with_prefix(ws: Seq<Seq<char>>, prefix: Seq<char>) -> Option<Seq<char>>
    decreases ws.len(),
{
    if ws.len() == 0 {
        None
    } else if has_prefix(ws[0], prefix) {
        Some(ws[0])
    } else {
        first_word_with_prefix(ws.drop_first(), prefix)
    }
}

/// The keyboard (event node and name) that a device block describes, if it
/// describes one: a `kbd` handler, an `event` node and a physical keyboard.
pub open spec fn keyboard_entry(block: Seq<char>) -> Option<(Seq<char>, Seq<char>)> {
    match proc_value_spec(block, "H"@) {
        None => None,
        Some(handlers) => {
            let ws = words(handlers);
            if !ws.contains("kbd"@) {
                None
            } else {
                match first_word_with_prefix(ws, "event"@) {
                    None => None,
                    Some(node) => {
                        let name = match proc_name_spec(block) {
                            Some(n) => n,
                            None => node,
                        };
                        if physical_keyboard_spec(block, name) {
                            Some((node, name))
                        } else {
                            None
                        }
                    },
                }
            }
        },
    }
}

/// The keyboards that a list of device blocks describes, in order.
pub open spec fn keyboard_entries(blocks: Seq<Seq<char>>) -> Seq<(Seq<char>, Seq<char>)>
    decreases blocks.len(),
{
    if blocks.len() == 0 {
        seq![]
    } else {
        let rest = keyboard_entries(blocks.drop_last());
        match keyboard_entry(blocks.last()) {
            Some(e) => rest.push(e),
            None => rest,
        }
    }
}

/// The keyboards listed in the text of `/proc/bus/input/devices`, whose
/// device blocks are separated by blank lines.
pub open spec fn keyboards_in(contents: Seq<char>) -> Seq<(Seq<char>, Seq<char>)> {
    keyboard_entries(split_seq(contents, "\n\n"@))
}

fn words_contain(ws: &Vec<Vec<char>>, w: &str) -> (r: bool)
    ensures
        r == ws@.map_values(|p: Vec<char>| p@).contains(w@),
{
    let ghost views = ws@.map_values(|p: Vec<char>| p@);
    let target = chars_of(w);
    let mut i: usize = 0;
    while i < ws.len()
        invariant
            i <= ws.len(),
            views == ws@.map_values(|p: Vec<char>| p@),
            target@ == w@,
            forall|j: int| 0 <= j < i ==> views[j] != w@,
        decreases ws.len() - i,
    {
        if crate::text::chars_eq(&ws[i], &target) {
            assert(views[i as int] == w@);
            return true;
        }
        i = i + 1;
    }
    false
}

fn first_word_starting(ws: &Vec<Vec<char>>, prefix: &str) -> (r: Option<Vec<char>>)
    ensures
        r matches Some(v) ==> first_word_with_prefix(ws@.map_values(|p: Vec<char>| p@), prefix@) == Some(v@),
        r is None ==> first_word_with_prefix(ws@.map_values(|p: Vec<char>| p@), prefix@) is None,
{
    let ghost views = ws@.map_values(|p: Vec<char>| p@);
    let p = chars_of(prefix);
    let mut i: usize = 0;
    assert(views.skip(0) == views);
    while i < ws.len()
        invariant
            i <= ws.len(),
            views == ws@.map_values(|p: Vec<char>| p@),
            p@ == prefix@,
            first_word_with_prefix(views, prefix@) == first_word_with_prefix(views.skip(i as int), prefix@),
        decreases ws.len() - i,
    {
        assert(views.skip(i as int)[0] == ws@[i as int]@);
        assert(views.skip(i as int).drop_first() == views.skip(i + 1));
        if starts_with_chars(&ws[i], &p) {
            return Some(slice_range(&ws[i], 0, ws[i].len()));
        }
        i = i + 1;
    }
    None
}

fn keyboard_entry_exec(block: &str) -> (r: Option<(String, String)>)
    ensures
        r matches Some(e) ==> keyboard_entry(block@) == Some((e.0@, e.1@)),
        r is None ==> keyboard_entry(block@) is None,
{
    let handlers = match parse_proc_bus_value(block, "H") {
        None => {
            return None;
        },
        Some(h) => h,
    };
    let ws = split_words(&chars_of(handlers.as_str()));
    proof {
        assert(ws@.map_values(|p: Vec<char>| p@) =~= words(handlers@));
    }
    if !words_contain(&ws, "kbd") {
        return None;
    }
    let node = match first_word_starting(&ws, "event") {
        None => {
            return None;
        },
        Some(n) => string_of(&n),
    };
    let name = match parse_proc_bus_name(block) {
        Some(n) => n,
        None => node.clone(),
    };
    if looks_like_physical_keyboard(block, name.as_str()) {
        Some((node, name))
    } else {
        None
    }
}

/// The keyboards (event node and name) listed in the text of
/// `/proc/bus/input/devices`.
pub fn keyboard_device_candidates(contents: &str) -> (r: Vec<(String, String)>)
    ensures
        r@.len() == keyboards_in(contents@).len(),
        forall|k: int| 0 <= k < r@.len() ==> (#[trigger] r@[k].0@, r@[k].1@) == keyboards_in(contents@)[k],
{
    let sep = chars_of("\n\n");
    proof {
        reveal_strlit("\n\n");
    }
    let blocks = split_on_chars(&chars_of(contents), &sep);
    let ghost bviews = blocks@.map_values(|p: Vec<char>| p@);
    proof {
        assert(bviews =~= split_seq(contents@, "\n\n"@));
    }
    let mut r: Vec<(String, String)> = Vec::new();
    let mut i: usize = 0;
    while i < blocks.len()
        invariant
            i <= blocks.len(),
            bviews == blocks@.map_values(|p: Vec<char>| p@),
            r@.len() == keyboard_entries(bviews.take(i as int)).len(),
            forall|k: int| 0 <= k < r@.len() ==> (#[trigger] r@[k].0@, r@[k].1@) == keyboard_entries(bviews.take(i as int))[k],
        decreases blocks.len() - i,
    {
        proof {
            assert(bviews.take(i + 1).drop_last() == bviews.take(i as int));
            assert(bviews.take(i + 1).last() == blocks@[i as int]@);
        }
        let block = string_of(&blocks[i]);
        if let Some(e) = keyboard_entry_exec(block.as_str()) {
            r.push(e);
        }
        i = i + 1;
    }
    proof {
        assert(bviews.take(blocks@.len() as int) == bviews);
    }
    r
}

/// The device file of an event node.
pub fn keyboard_device_path(event_node: &str) -> (r: String)
    ensures
        r@ == "/dev/input/"@ + event_node@,
{
    let mut p = owned("/dev/input/");
    push_str(&mut p, event_node);
    p
}


// ---------------------------------------------------------------------------
// Raw input events
// ---------------------------------------------------------------------------

/// The unsigned number that the bytes denote, least significant first.
pub open spec fn le_value(b: Seq<u8>) -> nat
    decreases b.len(),
{
    if b.len() == 0 {
        0
    } else {
        b[0] as nat + 256 * le_value(b.drop_first())
    }
}

/// 256 to the power `n`.
pub open spec fn pow256(n: nat) -> nat
    decreases n,
{
    if n == 0 {
        1
    } else {
        256 * pow256((n - 1) as nat)
    }
}

/// The key event of one `struct input_event` record (24 bytes: seconds and
/// microseconds as 64-bit numbers, then the 16-bit type and code and the
/// 32-bit value, all least significant byte first), or `None` when it is not
/// a key event. The time becomes milliseconds, at most `u32::MAX`.
pub open spec fn decode_record(r: Seq<u8>) -> Option<(u16, i32, u32)> {
    let kind = le_value(r.subrange(16, 18));
    let code = le_value(r.subrange(18, 20));
    let value = le_value(r.subrange(20, 24));
    let millis = le_value(r.subrange(0, 8)) * 1000 + le_value(r.subrange(8, 16)) / 1000;
    if kind != EV_KEY {
        None
    } else {
        Some((code as u16, (value as u32) as i32, if millis > u32::MAX { u32::MAX } else { millis as u32 }))
    }
}

/// The key events of the complete records at the start of `bytes`.
pub open spec fn decode_records(bytes: Seq<u8>) -> Seq<(u16, i32, u32)>
    decreases bytes.len(),
{
    if bytes.len() < INPUT_EVENT_SIZE {
        seq![]
    } else {
        let rest = decode_records(bytes.skip(INPUT_EVENT_SIZE as int));
        match decode_record(bytes.take(INPUT_EVENT_SIZE as int)) {
            Some(e) => seq![e] + rest,
            None => rest,
        }
    }
}

/// `e` is the key event `k` of the device `node` named `name`.
pub open spec fn is_key_event(e: RawKeyboardEvent, node: Seq<char>, name: Seq<char>, k: (u16, i32, u32)) -> bool {
    match e {
        RawKeyboardEvent::Key { device_node, device_name, key_code, value, timestamp } => {
            &&& device_node@ == node
            &&& device_name@ == name
            &&& key_code == k.0
            &&& value == k.1
            &&& timestamp == k.2
        },
        _ => false,
    }
}

/// The number that `n <= 8` bytes of `b` from `at` denote, least
/// significant first.
pub fn le_bytes(b: &[u8], at: usize, n: usize) -> (r: u64)
    requires
        n <= 8,
        at + n <= b.len(),
    ensures
        r == le_value(b@.subrange(at as int, at + n)),
{
    let mut acc: u64 = 0;
    let mut k: usize = n;
    proof {
        assert(pow256(8) == 0x1_0000_0000_0000_0000) by {
            reveal_with_fuel(pow256, 9);
        }
        assert(b@.subrange(at + n, at + n).len() == 0);
    }
    while k > 0
        invariant
            k <= n <= 8,
            at + n <= b.len(),
            pow256(8) == 0x1_0000_0000_0000_0000,
            acc == le_value(b@.subrange(at + k, at + n)),
            acc < pow256((n - k) as nat),
        decreases k,
    {
        proof {
            lemma_pow256_grows((n - k) as nat, 7);
            assert(pow256(7) * 256 == pow256(8));
        }
        k = k - 1;
        acc = acc * 256 + b[at + k] as u64;
        proof {
            assert(b@.subrange(at + k, at + n).drop_first() == b@.subrange(at + k + 1, at + n));
        }
    }
    acc
}

proof fn lemma_pow256_grows(i: nat, j: nat)
    requires
        i <= j,
    ensures
        pow256(i) <= pow256(j),
    decreases j,
{
    if i < j {
        lemma_pow256_grows(i, (j - 1) as nat);
    }
}

fn decode_one(b: &[u8], at: usize) -> (r: Option<(u16, i32, u32)>)
    requires
        at + INPUT_EVENT_SIZE <= b.len(),
    ensures
        r == decode_record(b@.subrange(at as int, at + INPUT_EVENT_SIZE)),
{
    let ghost rec = b@.subrange(at as int, at + INPUT_EVENT_SIZE);
    proof {
        assert(rec.subrange(16, 18) == b@.subrange(at + 16, at + 18));
        assert(rec.subrange(18, 20) == b@.subrange(at + 18, at + 20));
        assert(rec.subrange(20, 24) == b@.subrange(at + 20, at + 24));
        assert(rec.subrange(0, 8) == b@.subrange(at as int, at + 8));
        assert(rec.subrange(8, 16) == b@.subrange(at + 8, at + 16));
        lemma_le_bound(b@.subrange(at + 16, at + 18));
        lemma_le_bound(b@.subrange(at + 18, at + 20));
        lemma_le_bound(b@.subrange(at + 20, at + 24));
        assert(pow256(2) == 65536) by {
            reveal_with_fuel(pow256, 3);
        }
        assert(pow256(4) == 0x1_0000_0000) by {
            reveal_with_fuel(pow256, 5);
        }
    }
    let kind = le_bytes(b, at + 16, 2);
    if kind != EV_KEY as u64 {
        return None;
    }
    let code = le_bytes(b, at + 18, 2) as u16;
    let value = (le_bytes(b, at + 20, 4) as u32) as i32;
    let secs = le_bytes(b, at, 8);
    let micros = le_bytes(b, at + 8, 8);
    let timestamp: u32 = match secs.checked_mul(1000) {
        None => u32::MAX,
        Some(ms) => match ms.checked_add(micros / 1000) {
            None => u32::MAX,
            Some(total) => if total > u32::MAX as u64 {
                u32::MAX
            } else {
                total as u32
            },
        },
    };
    Some((code, value, timestamp))
}

proof fn lemma_le_bound(b: Seq<u8>)
    ensures
        le_value(b) < pow256(b.len()),
    decreases b.len(),
{
    if b.len() > 0 {
        lemma_le_bound(b.drop_first());
    }
}

/// Turns the complete records at the start of `pending` into key events of
/// the device `device_node` named `device_name`, appended to `events`; the
/// bytes of an incomplete record stay in `pending`.
pub fn decode_key_events(
    pending: &mut Vec<u8>,
    device_node: &str,
    device_name: &str,
    events: &mut Vec<RawKeyboardEvent>,
)
    ensures
        final(pending)@ == old(pending)@.skip(old(pending)@.len() - (old(pending)@.len() as int) % (INPUT_EVENT_SIZE as int)),
        final(events)@.len() == old(events)@.len() + decode_records(old(pending)@).len(),
        forall|i: int| 0 <= i < old(events)@.len() ==> #[trigger] final(events)@[i] == old(events)@[i],
        forall|j: int| 0 <= j < decode_records(old(pending)@).len() ==> #[trigger] is_key_event(
            final(events)@[old(events)@.len() + j],
            device_node@,
            device_name@,
            decode_records(old(pending)@)[j],
        ),
{
    let ghost orig = pending@;
    let ghost start_events = events@;
    let ghost emitted: Seq<(u16, i32, u32)> = seq![];
    let ghost q: int = 0;
    let mut at: usize = 0;
    assert(orig.skip(0) == orig);
    while pending.len() - at >= INPUT_EVENT_SIZE
        invariant
            pending@ == orig,
            at <= pending.len(),
            at == INPUT_EVENT_SIZE * q,
            events@.len() == start_events.len() + emitted.len(),
            forall|i: int| 0 <= i < start_events.len() ==> #[trigger] events@[i] == start_events[i],
            forall|j: int| 0 <= j < emitted.len() ==> #[trigger] is_key_event(
                events@[start_events.len() + j],
                device_node@,
                device_name@,
                emitted[j],
            ),
            decode_records(orig) == emitted + decode_records(orig.skip(at as int)),
        decreases pending.len() - at,
    {
        let ghost rest = orig.skip(at as int);
        proof {
            assert(rest.take(INPUT_EVENT_SIZE as int) == orig.subrange(at as int, at + INPUT_EVENT_SIZE));
            assert(rest.skip(INPUT_EVENT_SIZE as int) == orig.skip(at + INPUT_EVENT_SIZE));
        }
        let decoded = decode_one(pending.as_slice(), at);
        if let Some(k) = decoded {
            let ghost before = events@;
            events.push(RawKeyboardEvent::Key {
                device_node: owned(device_node),
                device_name: owned(device_name),
                key_code: k.0,
                value: k.1,
                timestamp: k.2,
            });
            proof {
                let old_emitted = emitted;
                emitted = emitted.push(k);
                assert(seq![k] + decode_records(orig.skip(at + INPUT_EVENT_SIZE)) == decode_records(rest));
                assert(emitted + decode_records(orig.skip(at + INPUT_EVENT_SIZE)) =~= old_emitted + decode_records(rest));
                assert forall|j: int| 0 <= j < emitted.len() implies #[trigger] is_key_event(
                    events@[start_events.len() + j],
                    device_node@,
                    device_name@,
                    emitted[j],
                ) by {
                    if j < old_emitted.len() {
                        assert(events@[start_events.len() + j] == before[start_events.len() + j]);
                    }
                }
            }
        }
        at = at + INPUT_EVENT_SIZE;
        proof {
            q = q + 1;
        }
    }
    proof {
        assert(decode_records(orig.skip(at as int)) == Seq::<(u16, i32, u32)>::empty());
        assert(emitted =~= decode_records(orig));
        let len = orig.len() as int;
        assert(len % (INPUT_EVENT_SIZE as int) == len - at) by (nonlinear_arith)
            requires
                at == 24 * q,
                0 <= len - at < 24,
                INPUT_EVENT_SIZE == 24;
    }
    let mut rest: Vec<u8> = Vec::new();
    let mut i: usize = at;
    while i < pending.len()
        invariant
            pending@ == orig,
            at <= i <= pending.len(),
            rest@ == orig.subrange(at as int, i as int),
        decreases pending.len() - i,
    {
        rest.push(pending[i]);
        i = i + 1;
    }
    *pending = rest;
}

} // verus!
