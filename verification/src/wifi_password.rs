use vstd::prelude::*;
use vstd::string::*;

use crate::input::ConsoleAction;
use crate::text::{ascii_lower, chars_eq, chars_of, lower_chars, owned, push_char, str_eq};

verus! {

broadcast use vstd::string::group_string_axioms;

/// The on-screen keys have the focus.
pub const ACTION_KEYS: i32 = 0;
/// The show/hide button has the focus.
pub const ACTION_VISIBILITY: i32 = 1;
/// The upper-case keyboard button has the focus.
pub const ACTION_MODE_UPPER: i32 = 2;
/// The lower-case keyboard button has the focus.
pub const ACTION_MODE_LOWER: i32 = 3;
/// The symbols keyboard button has the focus.
pub const ACTION_MODE_SYMBOLS: i32 = 4;
/// The connect button has the focus.
pub const ACTION_CONNECT: i32 = 5;

/// The lower-case keyboard.
pub open spec fn regular_rows() -> Seq<Seq<Seq<char>>> {
    seq![
        seq!["Space"@, "q"@, "w"@, "e"@, "r"@, "t"@, "y"@, "u"@, "i"@, "o"@, "p"@, "Delete"@],
        seq!["a"@, "s"@, "d"@, "f"@, "g"@, "h"@, "j"@, "k"@, "l"@],
        seq!["z"@, "x"@, "c"@, "v"@, "b"@, "n"@, "m"@],
    ]
}

/// The upper-case keyboard.
pub open spec fn capital_rows() -> Seq<Seq<Seq<char>>> {
    seq![
        seq!["Space"@, "Q"@, "W"@, "E"@, "R"@, "T"@, "Y"@, "U"@, "I"@, "O"@, "P"@, "Delete"@],
        seq!["A"@, "S"@, "D"@, "F"@, "G"@, "H"@, "J"@, "K"@, "L"@],
        seq!["Z"@, "X"@, "C"@, "V"@, "B"@, "N"@, "M"@],
    ]
}

/// The digits and symbols keyboard.
pub open spec fn symbol_rows() -> Seq<Seq<Seq<char>>> {
    seq![
        seq!["Space"@, "1"@, "2"@, "3"@, "4"@, "5"@, "6"@, "7"@, "8"@, "9"@, "0"@, "Delete"@],
        seq!["-"@, "/"@, ":"@, ";"@, "("@, ")"@, "$"@, "&"@, "@"@, "\\"@],
        seq!["."@, ","@, "?"@, "!"@, "'"@, "#"@],
    ]
}

/// The keyboard of a mode: 1 upper case, 2 symbols, anything else lower
/// case.
pub open spec fn keyboard_rows(mode: i32) -> Seq<Seq<Seq<char>>> {
    if mode == 1 {
        capital_rows()
    } else if mode == 2 {
        symbol_rows()
    } else {
        regular_rows()
    }
}

/// The button that stands for a keyboard mode.
pub open spec fn action_for_mode_spec(mode: i32) -> i32 {
    if mode == 1 {
        ACTION_MODE_UPPER
    } else if mode == 2 {
        ACTION_MODE_SYMBOLS
    } else {
        ACTION_MODE_LOWER
    }
}

/// The button that stands for a keyboard mode.
pub fn wifi_password_action_for_mode(mode: i32) -> (r: i32)
    ensures
        r == action_for_mode_spec(mode),
{
    if mode == 1 {
        ACTION_MODE_UPPER
    } else if mode == 2 {
        ACTION_MODE_SYMBOLS
    } else {
        ACTION_MODE_LOWER
    }
}

/// The view of a keyboard.
pub open spec fn rows_view(rows: Seq<Vec<&'static str>>) -> Seq<Seq<Seq<char>>> {
    rows.map_values(|row: Vec<&'static str>| row@.map_values(|k: &'static str| k@))
}

/// The keyboard of a mode.
pub fn wifi_password_rows_for_mode(mode: i32) -> (r: Vec<Vec<&'static str>>)
    ensures
        rows_view(r@) == keyboard_rows(mode),
        r@.len() == 3,
        forall|i: int| 0 <= i < 3 ==> 6 <= #[trigger] r@[i]@.len() <= 12,
{
    let rows: Vec<Vec<&'static str>> = if mode == 1 {
        vec![
            vec!["Space", "Q", "W", "E", "R", "T", "Y", "U", "I", "O", "P", "Delete"],
            vec!["A", "S", "D", "F", "G", "H", "J", "K", "L"],
            vec!["Z", "X", "C", "V", "B", "N", "M"],
        ]
    } else if mode == 2 {
        vec![
            vec!["Space", "1", "2", "3", "4", "5", "6", "7", "8", "9", "0", "Delete"],
            vec!["-", "/", ":", ";", "(", ")", "$", "&", "@", "\\"],
            vec![".", ",", "?", "!", "'", "#"],
        ]
    } else {
        vec![
            vec!["Space", "q", "w", "e", "r", "t", "y", "u", "i", "o", "p", "Delete"],
            vec!["a", "s", "d", "f", "g", "h", "j", "k", "l"],
            vec!["z", "x", "c", "v", "b", "n", "m"],
        ]
    };
    proof {
        let v = rows_view(rows@);
        let k = keyboard_rows(mode);
        assert(v[0] =~= k[0]);
        assert(v[1] =~= k[1]);
        assert(v[2] =~= k[2]);
        assert(v =~= k);
        assert(rows@[0]@.len() == k[0].len());
        assert(rows@[1]@.len() == k[1].len());
        assert(rows@[2]@.len() == k[2].len());
    }
    rows
}

/// Every keyboard has three rows of six to twelve keys.
pub proof fn lemma_keyboard_shape(mode: i32)
    ensures
        keyboard_rows(mode).len() == 3,
        forall|i: int| 0 <= i < 3 ==> 6 <= #[trigger] keyboard_rows(mode)[i].len() <= 12,
{
}

/// `key` names the same key as `selected` (ASCII case aside).
pub open spec fn key_matches(key: Seq<char>, selected: Seq<char>) -> bool {
    key == selected || ascii_lower(key) == ascii_lower(selected)
}

/// `(r, c)` is a key of `rows`.
pub open spec fn valid_position(rows: Seq<Seq<Seq<char>>>, r: int, c: int) -> bool {
    0 <= r < rows.len() && 0 <= c < rows[r].len()
}

/// `(r2, c2)` comes before `(r, c)` in reading order.
pub open spec fn before(r2: int, c2: int, r: int, c: int) -> bool {
    r2 < r || (r2 == r && c2 < c)
}

/// `(r, c)` is the first key of `rows` (row by row) that matches `selected`.
pub open spec fn is_first_match(rows: Seq<Seq<Seq<char>>>, selected: Seq<char>, r: int, c: int) -> bool {
    &&& valid_position(rows, r, c)
    &&& key_matches(rows[r][c], selected)
    &&& forall|r2: int, c2: int|
        valid_position(rows, r2, c2) && before(r2, c2, r, c) ==> !key_matches(#[trigger] rows[r2][c2], selected)
}

/// No key of `rows` matches `selected`.
pub open spec fn no_match(rows: Seq<Seq<Seq<char>>>, selected: Seq<char>) -> bool {
    forall|r: int, c: int| valid_position(rows, r, c) ==> !key_matches(#[trigger] rows[r][c], selected)
}

fn key_matches_exec(key: &str, selected: &str) -> (r: bool)
    ensures
        r == key_matches(key@, selected@),
{
    if str_eq(key, selected) {
        return true;
    }
    let a = lower_chars(&chars_of(key));
    let b = lower_chars(&chars_of(selected));
    chars_eq(&a, &b)
}

/// Where `selected` is on a keyboard: the first key (row by row) that names
/// it, ASCII case aside.
pub fn wifi_password_key_position_in_rows(rows: &Vec<Vec<&'static str>>, selected: &str) -> (r: Option<(usize, usize)>)
    ensures
        match r {
            Some((row, col)) => is_first_match(rows_view(rows@), selected@, row as int, col as int),
            None => no_match(rows_view(rows@), selected@),
        },
{
    let ghost rv = rows_view(rows@);
    let mut i: usize = 0;
    while i < rows.len()
        invariant
            i <= rows.len(),
            rv == rows_view(rows@),
            forall|r2: int, c2: int| valid_position(rv, r2, c2) && r2 < i ==> !key_matches(#[trigger] rv[r2][c2], selected@),
        decreases rows.len() - i,
    {
        let row = &rows[i];
        let mut j: usize = 0;
        while j < row.len()
            invariant
                i < rows.len(),
                j <= row.len(),
                *row == rows@[i as int],
                rv == rows_view(rows@),
                rv[i as int].len() == row@.len(),
                forall|r2: int, c2: int| valid_position(rv, r2, c2) && before(r2, c2, i as int, j as int) ==> !key_matches(#[trigger] rv[r2][c2], selected@),
            decreases row.len() - j,
        {
            assert(rv[i as int][j as int] == row@[j as int]@);
            if key_matches_exec(row[j], selected) {
                return Some((i, j));
            }
            j = j + 1;
        }
        i = i + 1;
    }
    None
}

/// `text` is a character the password keyboards offer: a space, or a key
/// of some keyboard other than `Space` and `Delete`.
pub open spec fn allowed_key(text: Seq<char>) -> bool {
    ||| text == " "@
    ||| (exists|m: i32, r: int, c: int|
        0 <= m <= 2 && valid_position(keyboard_rows(m), r, c) && #[trigger] keyboard_rows(m)[r][c] == text)
        && text != "Space"@ && text != "Delete"@
}

/// Whether `text` is a character the password keyboards offer.
pub fn is_allowed_wifi_password_key(text: &str) -> (r: bool)
    ensures
        r == allowed_key(text@),
{
    if str_eq(text, " ") {
        return true;
    }
    if str_eq(text, "Space") || str_eq(text, "Delete") {
        return false;
    }
    let mut m: i32 = 0;
    while m <= 2
        invariant
            0 <= m <= 3,
            text@ != "Space"@ && text@ != "Delete"@,
            forall|m2: i32, r: int, c: int|
                0 <= m2 < m && valid_position(keyboard_rows(m2), r, c) ==> #[trigger] keyboard_rows(m2)[r][c] != text@,
        decreases 3 - m,
    {
        let rows = wifi_password_rows_for_mode(m);
        let mut i: usize = 0;
        while i < rows.len()
            invariant
                0 <= m <= 2,
                text@ != "Space"@ && text@ != "Delete"@,
                i <= rows.len(),
                rows_view(rows@) == keyboard_rows(m),
                forall|m2: i32, r: int, c: int|
                    0 <= m2 < m && valid_position(keyboard_rows(m2), r, c) ==> #[trigger] keyboard_rows(m2)[r][c] != text@,
                forall|r: int, c: int| 0 <= r < i && valid_position(keyboard_rows(m), r, c) ==> #[trigger] keyboard_rows(m)[r][c] != text@,
            decreases rows.len() - i,
        {
            let row = &rows[i];
            let mut j: usize = 0;
            while j < row.len()
                invariant
                    0 <= m <= 2,
                    text@ != "Space"@ && text@ != "Delete"@,
                    i < rows.len(),
                    j <= row.len(),
                    *row == rows@[i as int],
                    rows_view(rows@) == keyboard_rows(m),
                    forall|m2: i32, r: int, c: int|
                        0 <= m2 < m && valid_position(keyboard_rows(m2), r, c) ==> #[trigger] keyboard_rows(m2)[r][c] != text@,
                    forall|r: int, c: int| 0 <= r < i && valid_position(keyboard_rows(m), r, c) ==> #[trigger] keyboard_rows(m)[r][c] != text@,
                    forall|c: int| 0 <= c < j ==> #[trigger] keyboard_rows(m)[i as int][c] != text@,
                decreases row.len() - j,
            {
                assert(keyboard_rows(m)[i as int][j as int] == row@[j as int]@);
                if str_eq(row[j], text) {
                    assert(valid_position(keyboard_rows(m), i as int, j as int));
                    return true;
                }
                j = j + 1;
            }
            i = i + 1;
        }
        m = m + 1;
    }
    false
}

/// The password being typed for a Wi-Fi network, and the keyboard used to
/// type it.
#[derive(Debug, Clone)]
pub struct WifiPasswordEditorState {
    pub ssid: String,
    pub password: String,
    pub selected_key: String,
    pub keyboard_mode: i32,
    pub show_password: bool,
}

/// Where the selected key is on the current keyboard: its first match, or
/// the first key when it has none.
pub open spec fn position_spec(mode: i32, selected: Seq<char>) -> (int, int) {
    let rows = keyboard_rows(mode);
    if exists|r: int, c: int| is_first_match(rows, selected, r, c) {
        choose|r: int, c: int| is_first_match(rows, selected, r, c)
    } else {
        (0, 0)
    }
}

proof fn lemma_first_match_unique(rows: Seq<Seq<Seq<char>>>, selected: Seq<char>, r: int, c: int)
    requires
        is_first_match(rows, selected, r, c),
    ensures
        position_spec_in(rows, selected) == (r, c),
{
    let p = choose|r2: int, c2: int| is_first_match(rows, selected, r2, c2);
    assert(is_first_match(rows, selected, p.0, p.1));
    if p.0 != r || p.1 != c {
        if before(p.0, p.1, r, c) {
            assert(!key_matches(rows[p.0][p.1], selected));
        } else {
            assert(before(r, c, p.0, p.1));
            assert(!key_matches(rows[r][c], selected));
        }
    }
}

/// Where `selected` first matches on `rows`, or `(0, 0)`.
pub open spec fn position_spec_in(rows: Seq<Seq<Seq<char>>>, selected: Seq<char>) -> (int, int) {
    if exists|r: int, c: int| is_first_match(rows, selected, r, c) {
        choose|r: int, c: int| is_first_match(rows, selected, r, c)
    } else {
        (0, 0)
    }
}

/// Where the selected key is on the current keyboard (the first key when
/// it is not on it).
pub fn wifi_password_selected_key_position(state: &WifiPasswordEditorState) -> (r: (usize, usize))
    ensures
        (r.0 as int, r.1 as int) == position_spec(state.keyboard_mode, state.selected_key@),
        valid_position(keyboard_rows(state.keyboard_mode), r.0 as int, r.1 as int),
{
    let rows = wifi_password_rows_for_mode(state.keyboard_mode);
    match wifi_password_key_position_in_rows(&rows, state.selected_key.as_str()) {
        Some(p) => {
            proof {
                lemma_first_match_unique(keyboard_rows(state.keyboard_mode), state.selected_key@, p.0 as int, p.1 as int);
            }
            p
        },
        None => {
            proof {
                let rows = keyboard_rows(state.keyboard_mode);
                if exists|r: int, c: int| is_first_match(rows, state.selected_key@, r, c) {
                    let q = choose|r: int, c: int| is_first_match(rows, state.selected_key@, r, c);
                    assert(!key_matches(rows[q.0][q.1], state.selected_key@));
                }
            }
            (0, 0)
        },
    }
}

/// The key at `(row, col)` of a keyboard, each index cut to the last one.
pub open spec fn clamped_key(rows: Seq<Seq<Seq<char>>>, row: int, col: int) -> Seq<char> {
    let r = if row < rows.len() - 1 { row } else { rows.len() - 1 };
    let c = if col < rows[r].len() - 1 { col } else { rows[r].len() - 1 };
    rows[r][c]
}

/// Selects the key at `(row, col)` of the current keyboard, each index cut
/// to the last one.
pub fn wifi_password_select_position(state: &mut WifiPasswordEditorState, row: usize, col: usize)
    ensures
        final(state).selected_key@ == clamped_key(keyboard_rows(old(state).keyboard_mode), row as int, col as int),
        final(state).ssid == old(state).ssid,
        final(state).password == old(state).password,
        final(state).keyboard_mode == old(state).keyboard_mode,
        final(state).show_password == old(state).show_password,
{
    let rows = wifi_password_rows_for_mode(state.keyboard_mode);
    let r = if row < rows.len() - 1 { row } else { rows.len() - 1 };
    let c = if col < rows[r].len() - 1 { col } else { rows[r].len() - 1 };
    assert(rows_view(rows@)[r as int][c as int] == rows@[r as int]@[c as int]@);
    state.selected_key = owned(rows[r][c]);
}

/// The keyboard mode cut to 0..=2.
pub open spec fn clamp_mode(mode: i32) -> i32 {
    if mode < 0 { 0 } else if mode > 2 { 2 } else { mode }
}

/// Switches the keyboard, keeping the selection at the same place.
pub fn wifi_password_set_keyboard_mode(state: &mut WifiPasswordEditorState, keyboard_mode: i32)
    ensures
        final(state).keyboard_mode == clamp_mode(keyboard_mode),
        final(state).selected_key@ == clamped_key(
            keyboard_rows(clamp_mode(keyboard_mode)),
            position_spec(old(state).keyboard_mode, old(state).selected_key@).0,
            position_spec(old(state).keyboard_mode, old(state).selected_key@).1,
        ),
        final(state).ssid == old(state).ssid,
        final(state).password == old(state).password,
        final(state).show_password == old(state).show_password,
{
    let (row, col) = wifi_password_selected_key_position(state);
    state.keyboard_mode = if keyboard_mode < 0 { 0 } else if keyboard_mode > 2 { 2 } else { keyboard_mode };
    wifi_password_select_position(state, row, col);
}

/// Twice the horizontal position of key `col` of a row of `row_len` keys,
/// rows being centred.
pub open spec fn visual_x2(row_len: int, col: int) -> int {
    col * 2 - row_len
}

/// Twice the horizontal position of a key.
pub fn wifi_password_visual_x2(row_len: usize, column_index: usize) -> (r: i32)
    requires
        row_len <= 64,
        column_index <= 64,
    ensures
        r == visual_x2(row_len as int, column_index as int),
{
    column_index as i32 * 2 - row_len as i32
}

/// The distance between two horizontal positions.
pub open spec fn distance(a: int, b: int) -> int {
    if a >= b { a - b } else { b - a }
}

/// The columns a vertical move may land on in a row of `len` keys: all, or
/// all but the two edge keys when they are excluded and there are more than
/// two.
pub open spec fn landing_range(len: int, exclude_edges: bool) -> (int, int) {
    if exclude_edges && len > 2 { (1, len - 1) } else { (0, len) }
}

/// Column `c` is the landing column nearest to `x2`, the leftmost of equals.
pub open spec fn is_nearest(len: int, exclude_edges: bool, x2: int, c: int) -> bool {
    let (start, end) = landing_range(len, exclude_edges);
    &&& start <= c < end
    &&& forall|c2: int| start <= c2 < end ==> {
        ||| distance(visual_x2(len, c), x2) < distance(visual_x2(len, c2), x2)
        ||| (distance(visual_x2(len, c), x2) == distance(visual_x2(len, c2), x2) && c <= c2)
    }
}

/// Selects the key of row `target_row` nearest to the horizontal position
/// `current_x2` (the leftmost of two equally near), leaving out the edge
/// keys when asked.
pub fn wifi_password_select_nearest_vertical_key(
    state: &mut WifiPasswordEditorState,
    target_row: usize,
    current_x2: i32,
    exclude_edge_keys: bool,
) -> (col: usize)
    requires
        target_row < 3,
        -64 <= current_x2 <= 64,
    ensures
        is_nearest(keyboard_rows(old(state).keyboard_mode)[target_row as int].len() as int, exclude_edge_keys, current_x2 as int, col as int),
        final(state).selected_key@ == keyboard_rows(old(state).keyboard_mode)[target_row as int][col as int],
        final(state).ssid == old(state).ssid,
        final(state).password == old(state).password,
        final(state).keyboard_mode == old(state).keyboard_mode,
        final(state).show_password == old(state).show_password,
{
    let rows = wifi_password_rows_for_mode(state.keyboard_mode);
    let row = &rows[target_row];
    let len = row.len();
    assert(rows_view(rows@)[target_row as int].len() == len);
    assert(6 <= len <= 12);
    let mut start: usize = 0;
    let mut end: usize = len;
    if exclude_edge_keys && len > 2 {
        start = 1;
        end = len - 1;
    }
    let mut best: usize = start;
    let mut best_d: i32 = {
        let x = wifi_password_visual_x2(len, start) - current_x2;
        if x >= 0 { x } else { -x }
    };
    let mut c: usize = start + 1;
    while c < end
        invariant
            start < c <= end,
            end <= len,
            len <= 12,
            -64 <= current_x2 <= 64,
            (start as int, end as int) == landing_range(len as int, exclude_edge_keys),
            start <= best < c,
            best_d == distance(visual_x2(len as int, best as int), current_x2 as int),
            forall|c2: int| start <= c2 < c ==> {
                ||| distance(visual_x2(len as int, best as int), current_x2 as int) < distance(visual_x2(len as int, c2), current_x2 as int)
                ||| (distance(visual_x2(len as int, best as int), current_x2 as int) == distance(visual_x2(len as int, c2), current_x2 as int) && best <= c2)
            },
        decreases end - c,
    {
        let x = wifi_password_visual_x2(len, c) - current_x2;
        let d = if x >= 0 { x } else { -x };
        if d < best_d {
            best = c;
            best_d = d;
        }
        c = c + 1;
    }
    assert(rows_view(rows@)[target_row as int][best as int] == row@[best as int]@);
    state.selected_key = owned(row[best]);
    best
}

/// `n` asterisks.
pub open spec fn stars(n: nat) -> Seq<char> {
    Seq::new(n, |i: int| '*')
}

/// What the password field shows: the password, or one `*` per character
/// while it is hidden.
pub open spec fn display_spec(password: Seq<char>, show: bool) -> Seq<char> {
    if show { password } else { stars(password.len()) }
}

/// What the password field shows.
pub fn wifi_password_display_text(state: &WifiPasswordEditorState) -> (r: String)
    ensures
        r@ == display_spec(state.password@, state.show_password),
{
    if state.show_password {
        return owned(state.password.as_str());
    }
    let n = chars_of(state.password.as_str()).len();
    let mut r = String::new();
    proof {
        reveal_strlit("");
        assert(r@ =~= stars(0));
    }
    let mut i: usize = 0;
    while i < n
        invariant
            i <= n,
            r@ == stars(i as nat),
        decreases n - i,
    {
        push_char(&mut r, '*');
        proof {
            assert(r@ =~= stars((i + 1) as nat));
        }
        i = i + 1;
    }
    r
}

/// The label of the show/hide button.
pub fn wifi_password_visibility_label(state: &WifiPasswordEditorState) -> (r: &'static str)
    ensures
        r@ == (if state.show_password { "HIDE"@ } else { "SHOW"@ }),
{
    if state.show_password { "HIDE" } else { "SHOW" }
}

/// `text` is one character that the keyboards offer.
pub open spec fn allowed_text(text: Seq<char>) -> bool {
    text.len() == 1 && allowed_key(text)
}

/// Whether `text` is one character that the keyboards offer.
pub fn is_allowed_wifi_password_text(text: &str) -> (r: bool)
    ensures
        r == allowed_text(text@),
{
    chars_of(text).len() == 1 && is_allowed_wifi_password_key(text)
}

/// A controller button that leaves the password editor.
pub open spec fn cancel_token(token: Seq<char>) -> bool {
    token == "SDL_CONTROLLER_BUTTON_B"@ || token == "SDL_CONTROLLER_BUTTON_BACK"@ || token == "SDL_JOYSTICK_BUTTON_1"@
}

/// Whether a controller token leaves the password editor.
pub fn is_wifi_password_controller_cancel_token(token: &str) -> (r: bool)
    ensures
        r == cancel_token(token@),
{
    str_eq(token, "SDL_CONTROLLER_BUTTON_B") || str_eq(token, "SDL_CONTROLLER_BUTTON_BACK") || str_eq(token, "SDL_JOYSTICK_BUTTON_1")
}

/// Appends `text` to the password when it is one character the keyboards
/// offer; says whether it did.
pub fn append_wifi_password_text(state: &mut WifiPasswordEditorState, text: &str) -> (appended: bool)
    ensures
        appended == allowed_text(text@),
        final(state).password@ == if appended { old(state).password@ + text@ } else { old(state).password@ },
        final(state).ssid == old(state).ssid,
        final(state).selected_key == old(state).selected_key,
        final(state).keyboard_mode == old(state).keyboard_mode,
        final(state).show_password == old(state).show_password,
{
    if !is_allowed_wifi_password_text(text) {
        return false;
    }
    let cs = chars_of(text);
    push_char(&mut state.password, cs[0]);
    assert(text@ =~= seq![cs@[0]]);
    true
}

/// Removes the last character of the password; says whether there was one.
pub fn wifi_password_backspace(state: &mut WifiPasswordEditorState) -> (removed: bool)
    ensures
        removed == (old(state).password@.len() > 0),
        final(state).password@ == if removed { old(state).password@.drop_last() } else { old(state).password@ },
        final(state).ssid == old(state).ssid,
        final(state).selected_key == old(state).selected_key,
        final(state).keyboard_mode == old(state).keyboard_mode,
        final(state).show_password == old(state).show_password,
{
    let cs = chars_of(state.password.as_str());
    if cs.len() == 0 {
        return false;
    }
    let kept = crate::text::slice_range(&cs, 0, cs.len() - 1);
    state.password = crate::text::string_of(&kept);
    true
}

/// The status shown after the selected key was typed.
pub open spec fn typed_status() -> Seq<char> {
    "Password updated. Choose Connect & Save when ready."@
}

/// Types the selected key: `Delete` removes the last character, `Space`
/// types a space, another allowed key types itself. Returns the status to
/// show, if the key changed anything.
pub fn wifi_password_append_selected(state: &mut WifiPasswordEditorState) -> (status: Option<&'static str>)
    ensures
        old(state).selected_key@ == "Delete"@ ==> {
            &&& final(state).password@ == if old(state).password@.len() > 0 { old(state).password@.drop_last() } else { old(state).password@ }
            &&& status matches Some(m) && m@ == "Removed the last character."@
        },
        old(state).selected_key@ != "Delete"@ ==> {
            let text = if old(state).selected_key@ == "Space"@ { " "@ } else { old(state).selected_key@ };
            &&& final(state).password@ == if allowed_text(text) { old(state).password@ + text } else { old(state).password@ }
            &&& (status matches Some(m) ==> m@ == typed_status())
            &&& (status is Some <==> allowed_text(text))
        },
        final(state).ssid == old(state).ssid,
        final(state).selected_key == old(state).selected_key,
        final(state).keyboard_mode == old(state).keyboard_mode,
        final(state).show_password == old(state).show_password,
{
    if str_eq(state.selected_key.as_str(), "Delete") {
        wifi_password_backspace(state);
        return Some("Removed the last character.");
    }
    let text: String = if str_eq(state.selected_key.as_str(), "Space") { owned(" ") } else { owned(state.selected_key.as_str()) };
    if append_wifi_password_text(state, text.as_str()) {
        Some("Password updated. Choose Connect & Save when ready.")
    } else {
        None
    }
}

/// Shows or hides the password; returns the status to show.
pub fn wifi_password_toggle_visibility(state: &mut WifiPasswordEditorState) -> (status: &'static str)
    ensures
        final(state).show_password == !old(state).show_password,
        status@ == if final(state).show_password { "Password is now visible."@ } else { "Password is now hidden."@ },
        final(state).ssid == old(state).ssid,
        final(state).password == old(state).password,
        final(state).selected_key == old(state).selected_key,
        final(state).keyboard_mode == old(state).keyboard_mode,
{
    state.show_password = !state.show_password;
    if state.show_password { "Password is now visible." } else { "Password is now hidden." }
}

/// An emptied editor for network `ssid`, on the first key of the lower-case
/// keyboard.
pub open spec fn is_reset(state: WifiPasswordEditorState, ssid: Seq<char>) -> bool {
    &&& state.ssid@ == ssid
    &&& state.password@ == Seq::<char>::empty()
    &&& state.selected_key@ == "Space"@
    &&& state.keyboard_mode == 0
    &&& !state.show_password
}

/// Empties the editor (network and password) and returns the focus to the
/// keys.
pub fn clear_wifi_password_editor(state: &mut WifiPasswordEditorState) -> (action: i32)
    ensures
        is_reset(*final(state), Seq::<char>::empty()),
        action == ACTION_KEYS,
{
    proof {
        reveal_strlit("");
        assert(""@ =~= Seq::<char>::empty());
    }
    state.password = owned("");
    state.ssid = owned("");
    state.selected_key = owned("Space");
    state.keyboard_mode = 0;
    state.show_password = false;
    ACTION_KEYS
}

/// Opens the editor for network `ssid`, empty, with the focus on the keys.
pub fn open_wifi_password_editor(state: &mut WifiPasswordEditorState, ssid: &str) -> (action: i32)
    ensures
        is_reset(*final(state), ssid@),
        action == ACTION_KEYS,
{
    proof {
        reveal_strlit("");
        assert(""@ =~= Seq::<char>::empty());
    }
    state.ssid = owned(ssid);
    state.password = owned("");
    state.selected_key = owned("Space");
    state.keyboard_mode = 0;
    state.show_password = false;
    ACTION_KEYS
}

/// An editor with nothing in it.
pub fn new_wifi_password_editor() -> (r: WifiPasswordEditorState)
    ensures
        r.ssid@ == Seq::<char>::empty(),
        r.password@ == Seq::<char>::empty(),
        r.selected_key@ == Seq::<char>::empty(),
        r.keyboard_mode == 0,
        !r.show_password,
{
    proof {
        reveal_strlit("");
    }
    WifiPasswordEditorState { ssid: owned(""), password: owned(""), selected_key: owned(""), keyboard_mode: 0, show_password: false }
}

/// At most one column is the nearest landing column.
pub proof fn lemma_nearest_unique(len: int, exclude_edges: bool, x2: int, c1: int, c2: int)
    requires
        is_nearest(len, exclude_edges, x2, c1),
        is_nearest(len, exclude_edges, x2, c2),
    ensures
        c1 == c2,
{
    let d1 = distance(visual_x2(len, c1), x2);
    let d2 = distance(visual_x2(len, c2), x2);
    assert(d1 < d2 || (d1 == d2 && c1 <= c2));
    assert(d2 < d1 || (d2 == d1 && c2 <= c1));
}

/// The column a sideways move lands on: one step, wrapping at the ends.
pub open spec fn moved_col(len: int, col: int, delta_col: int) -> int {
    if delta_col < 0 {
        if col == 0 { len - 1 } else { col - 1 }
    } else if col + 1 >= len {
        0
    } else {
        col + 1
    }
}

/// What a move on the keys does to the selected key and to the focus: a
/// sideways move steps along the row (wrapping); a move down from the last
/// row gives the focus to the keyboard-mode button, a move up from the first
/// row to the show/hide button; other vertical moves land on the nearest key
/// of the next row (leaving out its edge keys when that is the first row).
pub open spec fn key_move_spec(
    old_state: WifiPasswordEditorState,
    action: i32,
    delta_row: int,
    delta_col: int,
    new_state: WifiPasswordEditorState,
    new_action: i32,
) -> bool {
    let rows = keyboard_rows(old_state.keyboard_mode);
    let (cr, cc) = position_spec(old_state.keyboard_mode, old_state.selected_key@);
    let x2 = visual_x2(rows[cr].len() as int, cc);
    if delta_col != 0 {
        new_state.selected_key@ == rows[cr][moved_col(rows[cr].len() as int, cc, delta_col)] && new_action == action
    } else if delta_row == 0 {
        new_state.selected_key == old_state.selected_key && new_action == action
    } else if delta_row > 0 {
        if cr + 1 >= 3 {
            new_state.selected_key == old_state.selected_key && new_action == action_for_mode_spec(old_state.keyboard_mode)
        } else {
            &&& new_action == action
            &&& exists|c: int| is_nearest(rows[cr + 1].len() as int, false, x2, c) && new_state.selected_key@ == #[trigger] rows[cr + 1][c]
        }
    } else if cr == 0 {
        new_state.selected_key == old_state.selected_key && new_action == ACTION_VISIBILITY
    } else {
        &&& new_action == action
        &&& exists|c: int| is_nearest(rows[cr - 1].len() as int, cr - 1 == 0, x2, c) && new_state.selected_key@ == #[trigger] rows[cr - 1][c]
    }
}

/// Moves the key selection by a row or a column; returns the new focus.
pub fn move_wifi_password_key_selection(
    state: &mut WifiPasswordEditorState,
    action: i32,
    delta_row: isize,
    delta_col: isize,
) -> (new_action: i32)
    ensures
        key_move_spec(*old(state), action, delta_row as int, delta_col as int, *final(state), new_action),
        final(state).ssid == old(state).ssid,
        final(state).password == old(state).password,
        final(state).keyboard_mode == old(state).keyboard_mode,
        final(state).show_password == old(state).show_password,
{
    let rows = wifi_password_rows_for_mode(state.keyboard_mode);
    let (current_row, current_col) = wifi_password_selected_key_position(state);
    let ghost rv = keyboard_rows(state.keyboard_mode);
    proof {
        lemma_keyboard_shape(state.keyboard_mode);
        assert(rows@[current_row as int]@.len() == rv[current_row as int].len());
    }
    if delta_col != 0 {
        let row = &rows[current_row];
        let next_col = if delta_col < 0 {
            if current_col == 0 { row.len() - 1 } else { current_col - 1 }
        } else if current_col + 1 >= row.len() {
            0
        } else {
            current_col + 1
        };
        assert(rv[current_row as int][next_col as int] == row@[next_col as int]@);
        state.selected_key = owned(row[next_col]);
        return action;
    }
    if delta_row == 0 {
        return action;
    }
    let current_x2 = wifi_password_visual_x2(rows[current_row].len(), current_col);
    if delta_row > 0 {
        if current_row + 1 >= rows.len() {
            return wifi_password_action_for_mode(state.keyboard_mode);
        }
        let c = wifi_password_select_nearest_vertical_key(state, current_row + 1, current_x2, false);
        action
    } else if current_row == 0 {
        ACTION_VISIBILITY
    } else {
        let c = wifi_password_select_nearest_vertical_key(state, current_row - 1, current_x2, current_row - 1 == 0);
        action
    }
}

/// What confirming on the password screen asks for, by the focused button.
#[derive(Debug, Clone, Copy, PartialEq, Eq)]
pub enum WifiPasswordCommand {
    AppendSelected,
    ToggleVisibility,
    SelectMode(i32),
    Connect,
    Nothing,
}

/// The command of the focused button.
pub open spec fn confirm_spec(action: i32) -> WifiPasswordCommand {
    if action == ACTION_KEYS {
        WifiPasswordCommand::AppendSelected
    } else if action == ACTION_VISIBILITY {
        WifiPasswordCommand::ToggleVisibility
    } else if action == ACTION_MODE_UPPER {
        WifiPasswordCommand::SelectMode(1)
    } else if action == ACTION_MODE_LOWER {
        WifiPasswordCommand::SelectMode(0)
    } else if action == ACTION_MODE_SYMBOLS {
        WifiPasswordCommand::SelectMode(2)
    } else if action == ACTION_CONNECT {
        WifiPasswordCommand::Connect
    } else {
        WifiPasswordCommand::Nothing
    }
}

/// The command that confirming asks for while `action` has the focus.
pub fn wifi_password_confirm_command(action: i32) -> (r: WifiPasswordCommand)
    ensures
        r == confirm_spec(action),
{
    if action == ACTION_KEYS {
        WifiPasswordCommand::AppendSelected
    } else if action == ACTION_VISIBILITY {
        WifiPasswordCommand::ToggleVisibility
    } else if action == ACTION_MODE_UPPER {
        WifiPasswordCommand::SelectMode(1)
    } else if action == ACTION_MODE_LOWER {
        WifiPasswordCommand::SelectMode(0)
    } else if action == ACTION_MODE_SYMBOLS {
        WifiPasswordCommand::SelectMode(2)
    } else if action == ACTION_CONNECT {
        WifiPasswordCommand::Connect
    } else {
        WifiPasswordCommand::Nothing
    }
}

/// Switches the keyboard from its mode button; the focus moves to the new
/// mode's button.
pub fn wifi_password_select_mode(state: &mut WifiPasswordEditorState, mode: i32) -> (action: i32)
    ensures
        final(state).keyboard_mode == clamp_mode(mode),
        final(state).selected_key@ == clamped_key(
            keyboard_rows(clamp_mode(mode)),
            position_spec(old(state).keyboard_mode, old(state).selected_key@).0,
            position_spec(old(state).keyboard_mode, old(state).selected_key@).1,
        ),
        action == action_for_mode_spec(clamp_mode(mode)),
        final(state).ssid == old(state).ssid,
        final(state).password == old(state).password,
        final(state).show_password == old(state).show_password,
{
    wifi_password_set_keyboard_mode(state, mode);
    wifi_password_action_for_mode(state.keyboard_mode)
}

/// Where the focus goes when a direction is pressed while it is on a button
/// (not on the keys) of the password screen.
pub open spec fn button_move_spec(action: i32, mode: i32, direction: ConsoleAction) -> i32 {
    match direction {
        ConsoleAction::Up => if action == ACTION_CONNECT { action_for_mode_spec(mode) } else { ACTION_KEYS },
        ConsoleAction::Down => {
            if action == ACTION_MODE_UPPER || action == ACTION_MODE_LOWER || action == ACTION_MODE_SYMBOLS {
                ACTION_CONNECT
            } else if action == ACTION_VISIBILITY {
                ACTION_KEYS
            } else {
                action
            }
        },
        ConsoleAction::Left => if action == ACTION_MODE_LOWER || action == ACTION_MODE_SYMBOLS { (action - 1) as i32 } else { action },
        ConsoleAction::Right => if action == ACTION_MODE_UPPER || action == ACTION_MODE_LOWER { (action + 1) as i32 } else { action },
        _ => action,
    }
}

/// What a direction does on the password screen: on the keys it moves the
/// key selection; on a button it moves the focus and leaves the editor.
pub open spec fn navigate_post(
    o: WifiPasswordEditorState,
    action: i32,
    direction: ConsoleAction,
    n: WifiPasswordEditorState,
    new_action: i32,
) -> bool {
    &&& action == ACTION_KEYS ==> match direction {
        ConsoleAction::Up => key_move_spec(o, action, -1, 0, n, new_action),
        ConsoleAction::Down => key_move_spec(o, action, 1, 0, n, new_action),
        ConsoleAction::Left => key_move_spec(o, action, 0, -1, n, new_action),
        ConsoleAction::Right => key_move_spec(o, action, 0, 1, n, new_action),
        _ => n == o && new_action == action,
    }
    &&& action != ACTION_KEYS ==> n == o && new_action == button_move_spec(action, o.keyboard_mode, direction)
    &&& n.ssid == o.ssid
    &&& n.password == o.password
    &&& n.keyboard_mode == o.keyboard_mode
    &&& n.show_password == o.show_password
}

/// A direction pressed on the password screen: on the keys it moves the key
/// selection, on a button it moves the focus. Returns the new focus.
pub fn wifi_password_navigate(state: &mut WifiPasswordEditorState, action: i32, direction: ConsoleAction) -> (new_action: i32)
    ensures
        navigate_post(*old(state), action, direction, *final(state), new_action),
{
    if action == ACTION_KEYS {
        match direction {
            ConsoleAction::Up => move_wifi_password_key_selection(state, action, -1, 0),
            ConsoleAction::Down => move_wifi_password_key_selection(state, action, 1, 0),
            ConsoleAction::Left => move_wifi_password_key_selection(state, action, 0, -1),
            ConsoleAction::Right => move_wifi_password_key_selection(state, action, 0, 1),
            _ => action,
        }
    } else {
        match direction {
            ConsoleAction::Up => if action == ACTION_CONNECT { wifi_password_action_for_mode(state.keyboard_mode) } else { ACTION_KEYS },
            ConsoleAction::Down => {
                if action == ACTION_MODE_UPPER || action == ACTION_MODE_LOWER || action == ACTION_MODE_SYMBOLS {
                    ACTION_CONNECT
                } else if action == ACTION_VISIBILITY {
                    ACTION_KEYS
                } else {
                    action
                }
            },
            ConsoleAction::Left => if action == ACTION_MODE_LOWER || action == ACTION_MODE_SYMBOLS { action - 1 } else { action },
            ConsoleAction::Right => if action == ACTION_MODE_UPPER || action == ACTION_MODE_LOWER { action + 1 } else { action },
            _ => action,
        }
    }
}

/// Why a connection cannot start yet, if it cannot: no network, or no
/// password.
pub open spec fn connect_refusal(ssid: Seq<char>, password: Seq<char>) -> Option<Seq<char>> {
    if ssid.len() == 0 {
        Some("No Wi-Fi network is selected."@)
    } else if password.len() == 0 {
        Some("Enter the Wi-Fi password first."@)
    } else {
        None
    }
}

/// Checks that a connection can start: `Ok` with the network and password,
/// or the status that says what is missing.
pub fn wifi_password_connect_request(state: &WifiPasswordEditorState) -> (r: Result<(String, String), &'static str>)
    ensures
        match r {
            Ok((ssid, password)) => connect_refusal(state.ssid@, state.password@) is None && ssid@ == state.ssid@
                && password@ == state.password@,
            Err(m) => connect_refusal(state.ssid@, state.password@) == Some(m@),
        },
{
    if state.ssid.as_str().unicode_len() == 0 {
        return Err("No Wi-Fi network is selected.");
    }
    if state.password.as_str().unicode_len() == 0 {
        return Err("Enter the Wi-Fi password first.");
    }
    Ok((owned(state.ssid.as_str()), owned(state.password.as_str())))
}

/// Typing an allowed character and then deleting one character gives back
/// the password as it was.
pub proof fn lemma_append_then_backspace(password: Seq<char>, text: Seq<char>)
    requires
        allowed_text(text),
    ensures
        (password + text).len() > 0,
        (password + text).drop_last() == password,
{
    assert((password + text).drop_last() =~= password);
}

/// The password field always shows as many characters as the password has.
pub proof fn lemma_display_length(password: Seq<char>, show: bool)
    ensures
        display_spec(password, show).len() == password.len(),
{
}

/// A sideways step one way and then the other comes back to the same column.
pub proof fn lemma_sideways_round_trip(len: int, col: int)
    requires
        0 <= col < len,
    ensures
        moved_col(len, moved_col(len, col, 1), -1) == col,
        moved_col(len, moved_col(len, col, -1), 1) == col,
        0 <= moved_col(len, col, 1) < len,
        0 <= moved_col(len, col, -1) < len,
{
}

} // verus!
