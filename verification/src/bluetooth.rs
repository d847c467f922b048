use vstd::prelude::*;
use vstd::string::*;

use crate::controller::ControllerStore;
use crate::text::{
    ascii_lower, chars_eq, chars_of, contains_chars, contains_seq, find_first, find_in, lex_lt,
    lines, lower_chars, owned, push_decimal, push_str, slice_from, split_lines, str_eq, str_lt,
    string_of, strictly_sorted, strip_prefix, trim, trim_chars, index_of, index_of_char, slice_range, has_prefix,
};

verus! {

broadcast use vstd::string::group_string_axioms;

/// How long a Bluetooth scan runs, in seconds.
pub const BLUETOOTH_SCAN_DURATION_SECS: u64 = 12;

/// A Bluetooth device as `bluetoothctl` describes it.
#[derive(Debug, Clone)]
pub struct BluetoothDeviceInfo {
    pub address: String,
    pub name: String,
    pub paired: bool,
    pub trusted: bool,
    pub connected: bool,
}

/// The result of a Bluetooth scan.
#[derive(Debug, Clone)]
pub struct BluetoothScanReport {
    pub raw_output: String,
    pub all_devices: Vec<BluetoothDeviceInfo>,
    pub dualsense_devices: Vec<BluetoothDeviceInfo>,
}

/// What `bluetoothctl info` says about a device.
#[derive(Debug, Clone)]
pub struct BluetoothDeviceInfoDetails {
    pub name: Option<String>,
    pub paired: bool,
    pub trusted: bool,
    pub connected: bool,
}

/// A character of `bluetoothctl` output as the console keeps it: line
/// breaks, tabs and printable ASCII stay, anything else becomes a blank.
pub open spec fn clean_char(c: char) -> char {
    if c == '\n' || c == '\r' || c == '\t' || (' ' <= c && c <= '~') { c } else { ' ' }
}

/// `bluetoothctl` output with every other character made a blank.
pub open spec fn sanitized_bt(s: Seq<char>) -> Seq<char> {
    s.map_values(|c: char| clean_char(c))
}

/// `bluetoothctl` output with every other character made a blank.
pub fn sanitize_bluetooth_output(output: &str) -> (r: String)
    ensures
        r@ == sanitized_bt(output@),
{
    let s = chars_of(output);
    let mut v: Vec<char> = Vec::new();
    let mut i: usize = 0;
    while i < s.len()
        invariant
            i <= s.len(),
            v@ == sanitized_bt(s@.take(i as int)),
        decreases s.len() - i,
    {
        let c = s[i];
        let d = if c == '\n' || c == '\r' || c == '\t' || (' ' <= c && c <= '~') { c } else { ' ' };
        v.push(d);
        i = i + 1;
        assert(sanitized_bt(s@.take(i as int)) == sanitized_bt(s@.take(i - 1)).push(clean_char(s@[i - 1])));
    }
    assert(s@.take(s@.len() as int) == s@);
    string_of(&v)
}

/// One line of `bluetoothctl` output, cleaned and trimmed.
pub fn sanitize_bluetooth_line(line: &str) -> (r: String)
    ensures
        r@ == trim(sanitized_bt(line@)),
{
    let s = sanitize_bluetooth_output(line);
    string_of(&trim_chars(&chars_of(s.as_str())))
}

/// `a` and `b` are equal ignoring ASCII case.
pub open spec fn eq_ignore_case(a: Seq<char>, b: Seq<char>) -> bool {
    ascii_lower(a) == ascii_lower(b)
}

fn eq_ignore_case_exec(a: &[char], b: &str) -> (r: bool)
    ensures
        r == eq_ignore_case(a@, b@),
{
    chars_eq(&lower_chars(a), &lower_chars(&chars_of(b)))
}

/// The device facts in `bluetoothctl info` output, read line by line: a
/// `Name:` line sets the name, an `Alias:` line only when there is none yet,
/// and `Paired:`, `Trusted:`, `Connected:` lines are yes or no.
pub open spec fn info_fold(ls: Seq<Seq<char>>) -> (Option<Seq<char>>, bool, bool, bool)
    decreases ls.len(),
{
    if ls.len() == 0 {
        (None, false, false, false)
    } else {
        let (name, paired, trusted, connected) = info_fold(ls.drop_last());
        let line = trim(ls.last());
        if strip_prefix(line, "Name: "@) is Some {
            (strip_prefix(line, "Name: "@), paired, trusted, connected)
        } else if strip_prefix(line, "Alias: "@) is Some {
            (if name is None { strip_prefix(line, "Alias: "@) } else { name }, paired, trusted, connected)
        } else if strip_prefix(line, "Paired: "@) is Some {
            (name, eq_ignore_case(strip_prefix(line, "Paired: "@)->0, "yes"@), trusted, connected)
        } else if strip_prefix(line, "Trusted: "@) is Some {
            (name, paired, eq_ignore_case(strip_prefix(line, "Trusted: "@)->0, "yes"@), connected)
        } else if strip_prefix(line, "Connected: "@) is Some {
            (name, paired, trusted, eq_ignore_case(strip_prefix(line, "Connected: "@)->0, "yes"@))
        } else {
            (name, paired, trusted, connected)
        }
    }
}

/// `line`, trimmed, begins with `field` (such as `"Trusted: "`).
pub open spec fn field_line(line: Seq<char>, field: Seq<char>) -> bool {
    has_prefix(trim(line), field)
}

/// What follows `field` on a field line, trimmed.
pub open spec fn field_value(line: Seq<char>, field: Seq<char>) -> Seq<char> {
    trim(line).skip(field.len() as int)
}

/// `ls[i]` is the last `field` line of `ls`.
pub open spec fn last_field_line(ls: Seq<Seq<char>>, field: Seq<char>, i: int) -> bool {
    &&& 0 <= i < ls.len()
    &&& field_line(ls[i], field)
    &&& forall|j: int| i < j < ls.len() ==> !field_line(#[trigger] ls[j], field)
}

/// `ls[i]` is the first `field` line of `ls`.
pub open spec fn first_field_line(ls: Seq<Seq<char>>, field: Seq<char>, i: int) -> bool {
    &&& 0 <= i < ls.len()
    &&& field_line(ls[i], field)
    &&& forall|j: int| 0 <= j < i ==> !field_line(#[trigger] ls[j], field)
}

/// No line of `ls` is a `field` line.
pub open spec fn no_field_line(ls: Seq<Seq<char>>, field: Seq<char>) -> bool {
    forall|j: int| 0 <= j < ls.len() ==> !field_line(#[trigger] ls[j], field)
}

proof fn lemma_first_char(s: Seq<char>, p: Seq<char>)
    requires
        has_prefix(s, p),
        p.len() > 0,
    ensures
        s[0] == p[0],
{
    assert(s.subrange(0, p.len() as int)[0] == s[0]);
}

/// A line is a field line of at most one of the fields of `bluetoothctl
/// info` (they begin with different letters).
proof fn lemma_field_lines_distinct(line: Seq<char>)
    ensures
        field_line(line, "Name: "@) ==> !field_line(line, "Alias: "@) && !field_line(line, "Paired: "@)
            && !field_line(line, "Trusted: "@) && !field_line(line, "Connected: "@),
        field_line(line, "Alias: "@) ==> !field_line(line, "Paired: "@) && !field_line(line, "Trusted: "@)
            && !field_line(line, "Connected: "@),
        field_line(line, "Paired: "@) ==> !field_line(line, "Trusted: "@) && !field_line(line, "Connected: "@),
        field_line(line, "Trusted: "@) ==> !field_line(line, "Connected: "@),
{
    reveal_strlit("Name: ");
    reveal_strlit("Alias: ");
    reveal_strlit("Paired: ");
    reveal_strlit("Trusted: ");
    reveal_strlit("Connected: ");
    let t = trim(line);
    if has_prefix(t, "Name: "@) {
        lemma_first_char(t, "Name: "@);
    }
    if has_prefix(t, "Alias: "@) {
        lemma_first_char(t, "Alias: "@);
    }
    if has_prefix(t, "Paired: "@) {
        lemma_first_char(t, "Paired: "@);
    }
    if has_prefix(t, "Trusted: "@) {
        lemma_first_char(t, "Trusted: "@);
    }
    if has_prefix(t, "Connected: "@) {
        lemma_first_char(t, "Connected: "@);
    }
}

/// What `bluetoothctl info` output says, line by line: each of paired,
/// trusted and connected is whether the value on the last line of its field
/// is "yes" (ignoring ASCII case), and false when no line gives it; the
/// name is the value of the last `Name:` line, else of the first `Alias:`
/// line, else there is none.
pub proof fn lemma_info_fields(ls: Seq<Seq<char>>)
    ensures
        forall|i: int| #[trigger] last_field_line(ls, "Paired: "@, i) ==> info_fold(ls).1
            == eq_ignore_case(field_value(ls[i], "Paired: "@), "yes"@),
        no_field_line(ls, "Paired: "@) ==> !info_fold(ls).1,
        forall|i: int| #[trigger] last_field_line(ls, "Trusted: "@, i) ==> info_fold(ls).2
            == eq_ignore_case(field_value(ls[i], "Trusted: "@), "yes"@),
        no_field_line(ls, "Trusted: "@) ==> !info_fold(ls).2,
        forall|i: int| #[trigger] last_field_line(ls, "Connected: "@, i) ==> info_fold(ls).3
            == eq_ignore_case(field_value(ls[i], "Connected: "@), "yes"@),
        no_field_line(ls, "Connected: "@) ==> !info_fold(ls).3,
        forall|i: int| #[trigger] last_field_line(ls, "Name: "@, i) ==> info_fold(ls).0 == Some(field_value(ls[i], "Name: "@)),
        forall|i: int| no_field_line(ls, "Name: "@) && #[trigger] first_field_line(ls, "Alias: "@, i)
            ==> info_fold(ls).0 == Some(field_value(ls[i], "Alias: "@)),
        no_field_line(ls, "Name: "@) && no_field_line(ls, "Alias: "@) ==> info_fold(ls).0 is None,
    decreases ls.len(),
{
    if ls.len() > 0 {
        let n = ls.len() - 1;
        let front = ls.drop_last();
        lemma_info_fields(front);
        assert(ls.last() == ls[n]);
        lemma_field_lines_distinct(ls[n]);
        assert forall|i: int| #[trigger] last_field_line(ls, "Paired: "@, i) implies last_field_line(front, "Paired: "@, i) || i == n by {
            if i < n {
                assert forall|j: int| i < j < front.len() implies !field_line(front[j], "Paired: "@) by {
                    assert(front[j] == ls[j]);
                }
            }
        }
        if no_field_line(ls, "Paired: "@) {
            assert(!field_line(ls[n], "Paired: "@));
            assert forall|j: int| 0 <= j < front.len() implies !field_line(front[j], "Paired: "@) by {
                assert(front[j] == ls[j]);
            }
        }
        assert forall|i: int| #[trigger] last_field_line(ls, "Trusted: "@, i) implies last_field_line(front, "Trusted: "@, i) || i == n by {
            if i < n {
                assert forall|j: int| i < j < front.len() implies !field_line(front[j], "Trusted: "@) by {
                    assert(front[j] == ls[j]);
                }
            }
        }
        if no_field_line(ls, "Trusted: "@) {
            assert(!field_line(ls[n], "Trusted: "@));
            assert forall|j: int| 0 <= j < front.len() implies !field_line(front[j], "Trusted: "@) by {
                assert(front[j] == ls[j]);
            }
        }
        assert forall|i: int| #[trigger] last_field_line(ls, "Connected: "@, i) implies last_field_line(front, "Connected: "@, i) || i == n by {
            if i < n {
                assert forall|j: int| i < j < front.len() implies !field_line(front[j], "Connected: "@) by {
                    assert(front[j] == ls[j]);
                }
            }
        }
        if no_field_line(ls, "Connected: "@) {
            assert(!field_line(ls[n], "Connected: "@));
            assert forall|j: int| 0 <= j < front.len() implies !field_line(front[j], "Connected: "@) by {
                assert(front[j] == ls[j]);
            }
        }
        assert forall|i: int| #[trigger] last_field_line(ls, "Name: "@, i) implies last_field_line(front, "Name: "@, i) || i == n by {
            if i < n {
                assert forall|j: int| i < j < front.len() implies !field_line(front[j], "Name: "@) by {
                    assert(front[j] == ls[j]);
                }
            }
        }
        if no_field_line(ls, "Name: "@) {
            assert(!field_line(ls[n], "Name: "@));
            assert forall|j: int| 0 <= j < front.len() implies !field_line(front[j], "Name: "@) by {
                assert(front[j] == ls[j]);
            }
        }
        assert forall|i: int| no_field_line(ls, "Name: "@) && #[trigger] first_field_line(ls, "Alias: "@, i)
            implies info_fold(ls).0 == Some(field_value(ls[i], "Alias: "@)) by {
            assert(no_field_line(front, "Name: "@));
            if i < n {
                assert(first_field_line(front, "Alias: "@, i)) by {
                    assert forall|j: int| 0 <= j < i implies !field_line(front[j], "Alias: "@) by {
                        assert(front[j] == ls[j]);
                    }
                    assert(front[i] == ls[i]);
                }
            } else {
                assert forall|j: int| 0 <= j < front.len() implies !field_line(front[j], "Alias: "@) by {
                    assert(front[j] == ls[j]);
                }
            }
        }
        if no_field_line(ls, "Alias: "@) {
            assert(!field_line(ls[n], "Alias: "@));
            assert forall|j: int| 0 <= j < front.len() implies !field_line(front[j], "Alias: "@) by {
                assert(front[j] == ls[j]);
            }
        }
    }
}

/// The view of an optional string.
pub open spec fn ov(o: Option<String>) -> Option<Seq<char>> {
    match o {
        Some(s) => Some(s@),
        None => None,
    }
}

fn strip(t: &[char], p: &str) -> (r: Option<Vec<char>>)
    ensures
        r matches Some(v) ==> strip_prefix(t@, p@) == Some(v@),
        r is None ==> strip_prefix(t@, p@) is None,
{
    let pc = chars_of(p);
    if crate::text::starts_with_chars(t, &pc) {
        Some(slice_from(t, pc.len()))
    } else {
        None
    }
}

/// The device facts in `bluetoothctl info` output.
pub fn parse_info_output(output: &str) -> (d: BluetoothDeviceInfoDetails)
    ensures
        (ov(d.name), d.paired, d.trusted, d.connected) == info_fold(lines(output@)),
{
    let ls = split_lines(&chars_of(output));
    let ghost lv = lines(output@);
    let mut name: Option<String> = None;
    let mut paired = false;
    let mut trusted = false;
    let mut connected = false;
    let mut i: usize = 0;
    while i < ls.len()
        invariant
            i <= ls.len(),
            ls@.len() == lv.len(),
            lv == lines(output@),
            forall|k: int| 0 <= k < ls@.len() ==> #[trigger] ls@[k]@ == lv[k],
            info_fold(lv.take(i as int)) == (ov(name), paired, trusted, connected),
        decreases ls.len() - i,
    {
        proof {
            assert(lv.take(i + 1).drop_last() == lv.take(i as int));
            assert(lv.take(i + 1).last() == ls@[i as int]@);
        }
        let line = trim_chars(&ls[i]);
        if let Some(v) = strip(&line, "Name: ") {
            name = Some(string_of(&v));
        } else if let Some(v) = strip(&line, "Alias: ") {
            if name.is_none() {
                name = Some(string_of(&v));
            }
        } else if let Some(v) = strip(&line, "Paired: ") {
            paired = eq_ignore_case_exec(&v, "yes");
        } else if let Some(v) = strip(&line, "Trusted: ") {
            trusted = eq_ignore_case_exec(&v, "yes");
        } else if let Some(v) = strip(&line, "Connected: ") {
            connected = eq_ignore_case_exec(&v, "yes");
        }
        i = i + 1;
    }
    proof {
        assert(lv.take(ls@.len() as int) == lv);
    }
    BluetoothDeviceInfoDetails { name, paired, trusted, connected }
}

/// A trimmed line that reports a successful pairing.
pub open spec fn success_line(line: Seq<char>) -> bool {
    let t = trim(line);
    ||| eq_ignore_case(t, "pairing successful"@)
    ||| eq_ignore_case(t, "trust succeeded"@)
    ||| eq_ignore_case(t, "device paired"@)
    ||| eq_ignore_case(t, "paired: yes"@)
    ||| eq_ignore_case(t, "bonded: yes"@)
    ||| eq_ignore_case(t, "changing pairable on succeeded"@)
}

/// Some line of the output reports a successful pairing.
pub fn pairing_output_says_success(output: &str) -> (r: bool)
    ensures
        r == exists|i: int| 0 <= i < lines(output@).len() && success_line(#[trigger] lines(output@)[i]),
{
    let ls = split_lines(&chars_of(output));
    let mut i: usize = 0;
    while i < ls.len()
        invariant
            i <= ls.len(),
            ls@.len() == lines(output@).len(),
            forall|k: int| 0 <= k < ls@.len() ==> #[trigger] ls@[k]@ == lines(output@)[k],
            forall|k: int| 0 <= k < i ==> !success_line(#[trigger] lines(output@)[k]),
        decreases ls.len() - i,
    {
        let t = trim_chars(&ls[i]);
        if eq_ignore_case_exec(&t, "pairing successful") || eq_ignore_case_exec(&t, "trust succeeded")
            || eq_ignore_case_exec(&t, "device paired") || eq_ignore_case_exec(&t, "paired: yes")
            || eq_ignore_case_exec(&t, "bonded: yes") || eq_ignore_case_exec(&t, "changing pairable on succeeded") {
            assert(success_line(lines(output@)[i as int]));
            return true;
        }
        i = i + 1;
    }
    false
}

/// Why a pairing failed, from the output.
pub open spec fn pairing_failure_spec(output: Seq<char>) -> Seq<char> {
    let l = ascii_lower(output);
    if contains_seq(l, "failed to register agent object"@) {
        "bluetoothctl could not register an agent in this session"@
    } else if contains_seq(l, "no agent registered"@) {
        "bluetoothctl reported no agent was registered"@
    } else if contains_seq(l, "default agent request successful"@) {
        "bluetoothctl reported default-agent succeeded but pairing still did not complete"@
    } else if contains_seq(l, "authorize service"@) {
        "bluez requested service authorization"@
    } else if contains_seq(l, "authorize pairing"@) {
        "bluez requested pairing authorization"@
    } else if contains_seq(l, "pairing failed"@) {
        "bluetoothctl reported pairing failed"@
    } else if contains_seq(l, "connection failed"@) {
        "bluetoothctl reported connection failed"@
    } else if contains_seq(l, "not available"@) {
        "bluetoothctl reported the adapter or device was not available"@
    } else if contains_seq(l, "org.bluez.error"@) {
        "bluez returned an org.bluez error"@
    } else {
        "pairing did not reach a confirmed paired state"@
    }
}

fn has(s: &[char], t: &str) -> (r: bool)
    ensures
        r == contains_seq(s@, t@),
{
    contains_chars(s, &chars_of(t))
}

/// Why a pairing failed, from the output.
pub fn classify_pairing_failure(output: &str) -> (r: &'static str)
    ensures
        r@ == pairing_failure_spec(output@),
{
    let l = lower_chars(&chars_of(output));
    if has(&l, "failed to register agent object") {
        "bluetoothctl could not register an agent in this session"
    } else if has(&l, "no agent registered") {
        "bluetoothctl reported no agent was registered"
    } else if has(&l, "default agent request successful") {
        "bluetoothctl reported default-agent succeeded but pairing still did not complete"
    } else if has(&l, "authorize service") {
        "bluez requested service authorization"
    } else if has(&l, "authorize pairing") {
        "bluez requested pairing authorization"
    } else if has(&l, "pairing failed") {
        "bluetoothctl reported pairing failed"
    } else if has(&l, "connection failed") {
        "bluetoothctl reported connection failed"
    } else if has(&l, "not available") {
        "bluetoothctl reported the adapter or device was not available"
    } else if has(&l, "org.bluez.error") {
        "bluez returned an org.bluez error"
    } else {
        "pairing did not reach a confirmed paired state"
    }
}


// ---------------------------------------------------------------------------
// Scans
// ---------------------------------------------------------------------------

/// The address and name of a `Device <address> <name>` line of a scan.
pub open spec fn device_line(line: Seq<char>) -> Option<(Seq<char>, Seq<char>)> {
    let cleaned = trim(sanitized_bt(line));
    match find_first(cleaned, "Device "@) {
        None => None,
        Some(at) => {
            let rest = cleaned.skip(at + 7int);
            let sp = index_of_char(rest, ' ');
            if sp >= rest.len() {
                None
            } else {
                Some((rest.take(sp as int), rest.skip(sp + 1int)))
            }
        },
    }
}

/// The devices that the lines of a scan list, in order.
pub open spec fn device_lines(ls: Seq<Seq<char>>) -> Seq<(Seq<char>, Seq<char>)>
    decreases ls.len(),
{
    if ls.len() == 0 {
        seq![]
    } else {
        let rest = device_lines(ls.drop_last());
        match device_line(ls.last()) {
            Some(d) => rest.push(d),
            None => rest,
        }
    }
}

/// The devices (address and name) that the output of a scan lists, in order.
pub fn scan_device_entries(raw_output: &str) -> (r: Vec<(String, String)>)
    ensures
        r@.map_values(|e: (String, String)| (e.0@, e.1@)) == device_lines(lines(raw_output@)),
{
    let ls = split_lines(&chars_of(raw_output));
    let ghost lv = lines(raw_output@);
    let mut r: Vec<(String, String)> = Vec::new();
    let mut i: usize = 0;
    while i < ls.len()
        invariant
            i <= ls.len(),
            ls@.len() == lv.len(),
            lv == lines(raw_output@),
            forall|k: int| 0 <= k < ls@.len() ==> #[trigger] ls@[k]@ == lv[k],
            r@.map_values(|e: (String, String)| (e.0@, e.1@)) == device_lines(lv.take(i as int)),
        decreases ls.len() - i,
    {
        proof {
            assert(lv.take(i + 1).drop_last() == lv.take(i as int));
            assert(lv.take(i + 1).last() == ls@[i as int]@);
        }
        let cleaned = chars_of(sanitize_bluetooth_line(string_of(&ls[i]).as_str()).as_str());
        let marker = chars_of("Device ");
        proof {
            reveal_strlit("Device ");
        }
        if let Some(at) = find_in(&cleaned, &marker) {
            let cl = cleaned.len();
            assert(at + 7 <= cl);
            let rest = slice_from(&cleaned, at + 7);
            let sp = index_of(&rest, ' ');
            if sp < rest.len() {
                let address = string_of(&slice_range(&rest, 0, sp));
                let name = string_of(&slice_from(&rest, sp + 1));
                let ghost before = r@.map_values(|e: (String, String)| (e.0@, e.1@));
                r.push((address, name));
                proof {
                    assert(r@.map_values(|e: (String, String)| (e.0@, e.1@)) =~= before.push((r@.last().0@, r@.last().1@)));
                }
            }
        }
        i = i + 1;
    }
    proof {
        assert(lv.take(ls@.len() as int) == lv);
    }
    r
}

/// The name marks a DualSense controller.
pub open spec fn dualsense_name(name: Seq<char>) -> bool {
    contains_seq(ascii_lower(name), "dualsense"@) || contains_seq(ascii_lower(name), "wireless controller"@)
}

/// The devices of a list, strictly ordered by address.
pub open spec fn sorted_devices(v: Seq<BluetoothDeviceInfo>) -> bool {
    forall|i: int, j: int| 0 <= i < j < v.len() ==> lex_lt(#[trigger] v[i].address@, #[trigger] v[j].address@)
}

/// The devices of a list by address.
pub open spec fn device_map(v: Seq<BluetoothDeviceInfo>) -> Map<Seq<char>, BluetoothDeviceInfo> {
    Map::new(
        |a: Seq<char>| exists|i: int| 0 <= i < v.len() && v[i].address@ == a,
        |a: Seq<char>| v[choose|i: int| 0 <= i < v.len() && v[i].address@ == a],
    )
}

proof fn lemma_device_map_at(v: Seq<BluetoothDeviceInfo>, idx: int)
    requires
        sorted_devices(v),
        0 <= idx < v.len(),
    ensures
        device_map(v).contains_key(v[idx].address@),
        device_map(v)[v[idx].address@] == v[idx],
{
    let a = v[idx].address@;
    crate::text::lemma_lex_irreflexive(a);
    assert(exists|i: int| 0 <= i < v.len() && v[i].address@ == a) by {
        assert(v[idx].address@ == a);
    }
    assert(forall|c: int| 0 <= c < v.len() && v[c].address@ == a ==> c == idx) by {
        assert forall|c: int| 0 <= c < v.len() && v[c].address@ == a implies c == idx by {
            if c < idx {
                assert(lex_lt(v[c].address@, v[idx].address@));
            } else if c > idx {
                assert(lex_lt(v[idx].address@, v[c].address@));
            }
        }
    }
}

/// Puts `d` into the list ordered by address, replacing a device with the
/// same address.
pub fn insert_device(v: &mut Vec<BluetoothDeviceInfo>, d: BluetoothDeviceInfo)
    requires
        sorted_devices(old(v)@),
    ensures
        sorted_devices(final(v)@),
        device_map(final(v)@) == device_map(old(v)@).insert(d.address@, d),
{
    let ghost before = v@;
    let mut i: usize = 0;
    while i < v.len() && str_lt(v[i].address.as_str(), d.address.as_str())
        invariant
            i <= v.len(),
            v@ == before,
            forall|k: int| 0 <= k < i ==> lex_lt(#[trigger] before[k].address@, d.address@),
        decreases v.len() - i,
    {
        i = i + 1;
    }
    let same = i < v.len() && str_eq(v[i].address.as_str(), d.address.as_str());
    let ghost da = d.address@;
    let ghost dd = d;
    if same {
        v.set(i, d);
    } else {
        v.insert(i, d);
    }
    proof {
        let after = v@;
        if i < before.len() && !same {
            assert(!lex_lt(before[i as int].address@, da));
            assert(before[i as int].address@ != da);
            crate::text::lemma_lex_total(before[i as int].address@, da);
        }
        assert(sorted_devices(after)) by {
            assert forall|a: int, b: int| 0 <= a < b < after.len() implies lex_lt(#[trigger] after[a].address@, #[trigger] after[b].address@) by {
                if same {
                    if a == i {
                        assert(lex_lt(before[a].address@, before[b].address@));
                    } else if b == i {
                        assert(lex_lt(before[a].address@, before[b].address@));
                    } else {
                        assert(after[a] == before[a] && after[b] == before[b]);
                    }
                } else {
                    if b < i {
                        assert(after[a] == before[a] && after[b] == before[b]);
                    } else if b == i {
                        assert(after[a] == before[a]);
                    } else if a < i {
                        assert(after[a] == before[a] && after[b] == before[b - 1]);
                        assert(lex_lt(before[a].address@, da));
                        assert(lex_lt(da, before[i as int].address@));
                        if b - 1 > i {
                            assert(lex_lt(before[i as int].address@, before[b - 1].address@));
                            crate::text::lemma_lex_transitive(da, before[i as int].address@, before[b - 1].address@);
                        }
                        crate::text::lemma_lex_transitive(before[a].address@, da, before[b - 1].address@);
                    } else if a == i {
                        assert(after[b] == before[b - 1]);
                        if b - 1 > i {
                            assert(lex_lt(before[i as int].address@, before[b - 1].address@));
                            crate::text::lemma_lex_transitive(da, before[i as int].address@, before[b - 1].address@);
                        }
                    } else {
                        assert(after[a] == before[a - 1] && after[b] == before[b - 1]);
                    }
                }
            }
        }
        assert(device_map(after) =~= device_map(before).insert(da, dd)) by {
            assert forall|a: Seq<char>| device_map(after).contains_key(a) == device_map(before).insert(da, dd).contains_key(a) by {
                if device_map(after).contains_key(a) {
                    let j = choose|j: int| 0 <= j < after.len() && after[j].address@ == a;
                    if a != da {
                        let bj = if same || j < i { j } else { j - 1 };
                        if same && j == i {
                            assert(false);
                        }
                        assert(before[bj].address@ == a);
                    }
                }
                if device_map(before).contains_key(a) {
                    let j = choose|j: int| 0 <= j < before.len() && before[j].address@ == a;
                    if same {
                        if j == i {
                            assert(after[j].address@ == da);
                        } else {
                            assert(after[j].address@ == a);
                        }
                    } else if j < i {
                        assert(after[j].address@ == a);
                    } else {
                        assert(after[j + 1].address@ == a);
                    }
                }
                if a == da {
                    assert(after[i as int].address@ == da);
                }
            }
            assert forall|a: Seq<char>| device_map(after).contains_key(a) implies device_map(after)[a] == device_map(before).insert(da, dd)[a] by {
                let j = choose|j: int| 0 <= j < after.len() && after[j].address@ == a;
                lemma_device_map_at(after, j);
                if a != da {
                    let bj = if same || j < i { j } else { j - 1 };
                    assert(before[bj] == after[j]);
                    lemma_device_map_at(before, bj);
                } else {
                    lemma_device_map_at(after, i as int);
                }
            }
        }
    }
}

/// The report of a scan: each listed device (address, name from the scan,
/// and what `bluetoothctl info` said) once per address, ordered by address,
/// a later listing replacing an earlier one; the DualSense controllers
/// among them; and the cleaned raw output.
pub open spec fn resolved_device(e: (String, String, BluetoothDeviceInfoDetails)) -> BluetoothDeviceInfo {
    BluetoothDeviceInfo {
        address: e.0,
        name: match e.2.name {
            Some(n) => n,
            None => e.1,
        },
        paired: e.2.paired,
        trusted: e.2.trusted,
        connected: e.2.connected,
    }
}

/// All devices of a scan by address.
pub open spec fn all_devices_map(entries: Seq<(String, String, BluetoothDeviceInfoDetails)>) -> Map<Seq<char>, BluetoothDeviceInfo>
    decreases entries.len(),
{
    if entries.len() == 0 {
        Map::empty()
    } else {
        all_devices_map(entries.drop_last()).insert(entries.last().0@, resolved_device(entries.last()))
    }
}

/// The DualSense controllers of a scan by address.
pub open spec fn dualsense_map(entries: Seq<(String, String, BluetoothDeviceInfoDetails)>) -> Map<Seq<char>, BluetoothDeviceInfo>
    decreases entries.len(),
{
    if entries.len() == 0 {
        Map::empty()
    } else {
        let rest = dualsense_map(entries.drop_last());
        let d = resolved_device(entries.last());
        if dualsense_name(d.name@) { rest.insert(entries.last().0@, d) } else { rest }
    }
}

fn copy_device(d: &BluetoothDeviceInfo) -> (r: BluetoothDeviceInfo)
    ensures
        r == *d,
{
    BluetoothDeviceInfo {
        address: d.address.clone(),
        name: d.name.clone(),
        paired: d.paired,
        trusted: d.trusted,
        connected: d.connected,
    }
}

/// The report of a scan whose output is `raw_output` and whose listed
/// devices, with what `bluetoothctl info` said of each, are `entries`.
pub fn build_scan_report(raw_output: &str, entries: Vec<(String, String, BluetoothDeviceInfoDetails)>) -> (r: BluetoothScanReport)
    ensures
        r.raw_output@ == sanitized_bt(raw_output@),
        sorted_devices(r.all_devices@),
        device_map(r.all_devices@) == all_devices_map(entries@),
        sorted_devices(r.dualsense_devices@),
        device_map(r.dualsense_devices@) == dualsense_map(entries@),
{
    let mut all: Vec<BluetoothDeviceInfo> = Vec::new();
    let mut duals: Vec<BluetoothDeviceInfo> = Vec::new();
    proof {
        assert(device_map(all@) =~= Map::<Seq<char>, BluetoothDeviceInfo>::empty());
    }
    let mut i: usize = 0;
    while i < entries.len()
        invariant
            i <= entries.len(),
            sorted_devices(all@),
            sorted_devices(duals@),
            device_map(all@) == all_devices_map(entries@.take(i as int)),
            device_map(duals@) == dualsense_map(entries@.take(i as int)),
        decreases entries.len() - i,
    {
        proof {
            assert(entries@.take(i + 1).drop_last() == entries@.take(i as int));
            assert(entries@.take(i + 1).last() == entries@[i as int]);
        }
        let e = &entries[i];
        let name = match &e.2.name {
            Some(n) => n.clone(),
            None => e.1.clone(),
        };
        let device = BluetoothDeviceInfo {
            address: e.0.clone(),
            name,
            paired: e.2.paired,
            trusted: e.2.trusted,
            connected: e.2.connected,
        };
        assert(device == resolved_device(entries@[i as int]));
        let lower = lower_chars(&chars_of(device.name.as_str()));
        if has(&lower, "dualsense") || has(&lower, "wireless controller") {
            insert_device(&mut duals, copy_device(&device));
        }
        insert_device(&mut all, device);
        i = i + 1;
    }
    proof {
        assert(entries@.take(entries@.len() as int) == entries@);
    }
    BluetoothScanReport { raw_output: sanitize_bluetooth_output(raw_output), all_devices: all, dualsense_devices: duals }
}


// ---------------------------------------------------------------------------
// Pairing and connecting
// ---------------------------------------------------------------------------

/// The name of a device that `bluetoothctl info` did not name.
pub open spec fn default_device_name() -> Seq<char> {
    "DualSense Wireless Controller"@
}

/// The device record from `bluetoothctl info` output.
pub open spec fn device_from_info(address: Seq<char>, output: Seq<char>) -> (Seq<char>, Seq<char>, bool, bool, bool) {
    let (name, paired, trusted, connected) = info_fold(lines(output));
    (address, match name {
        Some(n) => n,
        None => default_device_name(),
    }, paired, trusted, connected)
}

/// A device record as values.
pub open spec fn device_view(d: BluetoothDeviceInfo) -> (Seq<char>, Seq<char>, bool, bool, bool) {
    (d.address@, d.name@, d.paired, d.trusted, d.connected)
}

fn device_of(address: &str, details: BluetoothDeviceInfoDetails) -> (d: BluetoothDeviceInfo)
    ensures
        d.address@ == address@,
        d.name@ == match ov(details.name) {
            Some(n) => n,
            None => default_device_name(),
        },
        d.paired == details.paired,
        d.trusted == details.trusted,
        d.connected == details.connected,
{
    BluetoothDeviceInfo {
        address: owned(address),
        name: match details.name {
            Some(n) => n,
            None => owned("DualSense Wireless Controller"),
        },
        paired: details.paired,
        trusted: details.trusted,
        connected: details.connected,
    }
}

/// The outcome of pairing `address`, from the output of the pairing
/// script: the device when `bluetoothctl info` says it is paired or a line
/// reports success, else an error with the likely cause and the output.
pub fn pair_result(address: &str, output: &str) -> (r: Result<BluetoothDeviceInfo, String>)
    ensures
        ({
            let (_, paired, _, _) = info_fold(lines(output@));
            let ok = paired || exists|i: int| 0 <= i < lines(output@).len() && success_line(#[trigger] lines(output@)[i]);
            &&& ok ==> (r matches Ok(d) && device_view(d) == device_from_info(address@, output@))
            &&& !ok ==> (r matches Err(e) && e@ == "pairing verification failed for "@ + address@ + ": "@
                + pairing_failure_spec(output@) + "\nbluetoothctl output:\n"@ + sanitized_bt(output@))
        }),
{
    let details = parse_info_output(output);
    if !details.paired && !pairing_output_says_success(output) {
        let mut m = owned("pairing verification failed for ");
        push_str(&mut m, address);
        push_str(&mut m, ": ");
        push_str(&mut m, classify_pairing_failure(output));
        push_str(&mut m, "\nbluetoothctl output:\n");
        push_str(&mut m, sanitize_bluetooth_output(output).as_str());
        return Err(m);
    }
    Ok(device_of(address, details))
}

/// The outcome of connecting `address`, from the output of the connection
/// script: the device when `bluetoothctl info` says it is connected, else an
/// error with the output.
pub fn connect_result(address: &str, output: &str) -> (r: Result<BluetoothDeviceInfo, String>)
    ensures
        ({
            let (_, _, _, connected) = info_fold(lines(output@));
            &&& connected ==> (r matches Ok(d) && device_view(d) == device_from_info(address@, output@))
            &&& !connected ==> (r matches Err(e) && e@ == "connection verification failed for "@ + address@
                + ": bluetoothctl did not report Connected: yes\nbluetoothctl output:\n"@ + sanitized_bt(output@))
        }),
{
    let details = parse_info_output(output);
    if !details.connected {
        let mut m = owned("connection verification failed for ");
        push_str(&mut m, address);
        push_str(&mut m, ": bluetoothctl did not report Connected: yes\nbluetoothctl output:\n");
        push_str(&mut m, sanitize_bluetooth_output(output).as_str());
        return Err(m);
    }
    Ok(device_of(address, details))
}

/// The outcome of `bluetoothctl remove <address>`: success when the cleaned
/// output mentions a removal or success (in any case).
pub fn unpair_result(address: &str, output: &str) -> (r: Result<(), String>)
    ensures
        ({
            let l = ascii_lower(sanitized_bt(output@));
            let ok = contains_seq(l, "device has been removed"@) || contains_seq(l, "removed"@) || contains_seq(l, "successful"@);
            &&& ok ==> r is Ok
            &&& !ok ==> (r matches Err(e) && e@ == "bluetoothctl remove did not report success for "@ + address@ + ":\n"@
                + sanitized_bt(output@))
        }),
{
    let sanitized = sanitize_bluetooth_output(output);
    let lower = lower_chars(&chars_of(sanitized.as_str()));
    if has(&lower, "device has been removed") || has(&lower, "removed") || has(&lower, "successful") {
        return Ok(());
    }
    let mut m = owned("bluetoothctl remove did not report success for ");
    push_str(&mut m, address);
    push_str(&mut m, ":\n");
    push_str(&mut m, sanitized.as_str());
    Err(m)
}

/// The Bluetooth addresses of the saved DualSense controllers, in order.
pub open spec fn saved_dualsense_spec(profiles: Seq<crate::controller::ControllerProfile>) -> Seq<Seq<char>>
    decreases profiles.len(),
{
    if profiles.len() == 0 {
        seq![]
    } else {
        let rest = saved_dualsense_spec(profiles.drop_last());
        let p = profiles.last();
        if p.template@ == "ps5-dualsense"@ && p.bluetooth_address is Some {
            rest.push(p.bluetooth_address->0@)
        } else {
            rest
        }
    }
}

/// The Bluetooth addresses of the saved DualSense controllers, which the
/// console reconnects (or pairs again) at start.
pub fn saved_dualsense_addresses(store: &ControllerStore) -> (r: Vec<String>)
    ensures
        r@.map_values(|s: String| s@) == saved_dualsense_spec(store.controllers@),
{
    let mut r: Vec<String> = Vec::new();
    let mut i: usize = 0;
    while i < store.controllers.len()
        invariant
            i <= store.controllers.len(),
            r@.map_values(|s: String| s@) == saved_dualsense_spec(store.controllers@.take(i as int)),
        decreases store.controllers.len() - i,
    {
        proof {
            assert(store.controllers@.take(i + 1).drop_last() == store.controllers@.take(i as int));
            assert(store.controllers@.take(i + 1).last() == store.controllers@[i as int]);
        }
        let p = &store.controllers[i];
        if str_eq(p.template.as_str(), "ps5-dualsense") {
            if let Some(a) = &p.bluetooth_address {
                let ghost before = r@.map_values(|s: String| s@);
                r.push(a.clone());
                proof {
                    assert(r@.map_values(|s: String| s@) =~= before.push(a@));
                }
            }
        }
        i = i + 1;
    }
    proof {
        assert(store.controllers@.take(store.controllers@.len() as int) == store.controllers@);
    }
    r
}

/// The shell script of a scan: scan on, wait, list the devices, scan off.
pub open spec fn scan_script_spec(seconds: u64) -> Seq<char> {
    "{\n        printf 'scan on\\n'\n        sleep "@ + crate::text::decimal(seconds as nat)
        + "\n        printf 'devices\\n'\n        printf 'scan off\\n'\n    } | bluetoothctl 2>&1"@
}

/// The shell script of a scan that lasts `seconds`.
pub fn scan_script(seconds: u64) -> (r: String)
    ensures
        r@ == scan_script_spec(seconds),
{
    let mut s = owned("{\n        printf 'scan on\\n'\n        sleep ");
    push_decimal(&mut s, seconds);
    push_str(&mut s, "\n        printf 'devices\\n'\n        printf 'scan off\\n'\n    } | bluetoothctl 2>&1");
    s
}

/// The shell script that drives `bluetoothctl` to pair `address`.
pub open spec fn pair_script_spec(address: Seq<char>) -> Seq<char> {
    r#"bash <<'EOF'
set -euo pipefail
coproc BLUETOOTHCTL { bluetoothctl; }
exec 3>&${BLUETOOTHCTL[1]}
exec 4<&${BLUETOOTHCTL[0]}

send_command() {
    printf '%s\n' "$1" >&3
}

send_command 'agent on'
send_command 'default-agent'
send_command 'pair "#@ + address + r#"'

deadline=$((SECONDS + 20))
while IFS= read -r -t 1 line <&4; do
    printf '%s\n' "$line"

    case "$line" in
        *'Authorize service'*|*'Authorize services'*|*'Authorize pairing'*|*'(yes/no)'*)
            send_command 'yes'
            ;;
        *'Pairing successful'*|*'Paired: yes'*|*'Bonded: yes'*)
            break
            ;;
    esac

    if [ "$SECONDS" -ge "$deadline" ]; then
        break
    fi
done

send_command 'trust "#@ + address + r#"'
send_command 'connect "#@ + address + r#"'
sleep 1
send_command 'connect "#@ + address + r#"'
send_command 'info "#@ + address + r#"'
send_command 'quit'

connect_deadline=$((SECONDS + 10))
while IFS= read -r -t 1 line <&4; do
    printf '%s\n' "$line"

    case "$line" in
        *'Authorize service'*|*'Authorize services'*|*'Authorize pairing'*|*'(yes/no)'*)
            send_command 'yes'
            ;;
        *'Connected: yes'*|*'ServicesResolved: yes'*|*'Bonded: yes'*|*'Paired: yes'* )
            break
            ;;
        *'connect failed'*|*'Failed to connect:'*)
            if [ "$SECONDS" -ge "$connect_deadline" ]; then
                break
            fi
            ;;
    esac

    if [ "$SECONDS" -ge "$connect_deadline" ]; then
        break
    fi
done
EOF"#@
}

/// The shell script that drives `bluetoothctl` to pair `address`.
pub fn pair_script(address: &str) -> (r: String)
    ensures
        r@ == pair_script_spec(address@),
{
    let mut s = owned(r#"bash <<'EOF'
set -euo pipefail
coproc BLUETOOTHCTL { bluetoothctl; }
exec 3>&${BLUETOOTHCTL[1]}
exec 4<&${BLUETOOTHCTL[0]}

send_command() {
    printf '%s\n' "$1" >&3
}

send_command 'agent on'
send_command 'default-agent'
send_command 'pair "#);
    push_str(&mut s, address);
    push_str(&mut s, r#"'

deadline=$((SECONDS + 20))
while IFS= read -r -t 1 line <&4; do
    printf '%s\n' "$line"

    case "$line" in
        *'Authorize service'*|*'Authorize services'*|*'Authorize pairing'*|*'(yes/no)'*)
            send_command 'yes'
            ;;
        *'Pairing successful'*|*'Paired: yes'*|*'Bonded: yes'*)
            break
            ;;
    esac

    if [ "$SECONDS" -ge "$deadline" ]; then
        break
    fi
done

send_command 'trust "#);
    push_str(&mut s, address);
    push_str(&mut s, r#"'
send_command 'connect "#);
    push_str(&mut s, address);
    push_str(&mut s, r#"'
sleep 1
send_command 'connect "#);
    push_str(&mut s, address);
    push_str(&mut s, r#"'
send_command 'info "#);
    push_str(&mut s, address);
    push_str(&mut s, r#"'
send_command 'quit'

connect_deadline=$((SECONDS + 10))
while IFS= read -r -t 1 line <&4; do
    printf '%s\n' "$line"

    case "$line" in
        *'Authorize service'*|*'Authorize services'*|*'Authorize pairing'*|*'(yes/no)'*)
            send_command 'yes'
            ;;
        *'Connected: yes'*|*'ServicesResolved: yes'*|*'Bonded: yes'*|*'Paired: yes'* )
            break
            ;;
        *'connect failed'*|*'Failed to connect:'*)
            if [ "$SECONDS" -ge "$connect_deadline" ]; then
                break
            fi
            ;;
    esac

    if [ "$SECONDS" -ge "$connect_deadline" ]; then
        break
    fi
done
EOF"#);
    s
}

/// The shell script that drives `bluetoothctl` to connect `address`.
pub open spec fn connect_script_spec(address: Seq<char>) -> Seq<char> {
    r#"bash <<'EOF'
set -euo pipefail
coproc BLUETOOTHCTL { bluetoothctl; }
exec 3>&${BLUETOOTHCTL[1]}
exec 4<&${BLUETOOTHCTL[0]}

send_command() {
    printf '%s\n' "$1" >&3
}

send_command 'agent on'
send_command 'default-agent'
send_command 'trust "#@ + address + r#"'
send_command 'connect "#@ + address + r#"'
sleep 1
send_command 'connect "#@ + address + r#"'
send_command 'info "#@ + address + r#"'
send_command 'quit'

connect_deadline=$((SECONDS + 12))
while IFS= read -r -t 1 line <&4; do
    printf '%s\n' "$line"

    case "$line" in
        *'Authorize service'*|*'Authorize services'*|*'Authorize pairing'*|*'(yes/no)'*)
            send_command 'yes'
            ;;
        *'Connected: yes'*|*'ServicesResolved: yes'*|*'Bonded: yes'*|*'Paired: yes'* )
            break
            ;;
        *'connect failed'*|*'Failed to connect:'*)
            if [ "$SECONDS" -ge "$connect_deadline" ]; then
                break
            fi
            ;;
    esac

    if [ "$SECONDS" -ge "$connect_deadline" ]; then
        break
    fi
done
EOF"#@
}

/// The shell script that drives `bluetoothctl` to connect `address`.
pub fn connect_script(address: &str) -> (r: String)
    ensures
        r@ == connect_script_spec(address@),
{
    let mut s = owned(r#"bash <<'EOF'
set -euo pipefail
coproc BLUETOOTHCTL { bluetoothctl; }
exec 3>&${BLUETOOTHCTL[1]}
exec 4<&${BLUETOOTHCTL[0]}

send_command() {
    printf '%s\n' "$1" >&3
}

send_command 'agent on'
send_command 'default-agent'
send_command 'trust "#);
    push_str(&mut s, address);
    push_str(&mut s, r#"'
send_command 'connect "#);
    push_str(&mut s, address);
    push_str(&mut s, r#"'
sleep 1
send_command 'connect "#);
    push_str(&mut s, address);
    push_str(&mut s, r#"'
send_command 'info "#);
    push_str(&mut s, address);
    push_str(&mut s, r#"'
send_command 'quit'

connect_deadline=$((SECONDS + 12))
while IFS= read -r -t 1 line <&4; do
    printf '%s\n' "$line"

    case "$line" in
        *'Authorize service'*|*'Authorize services'*|*'Authorize pairing'*|*'(yes/no)'*)
            send_command 'yes'
            ;;
        *'Connected: yes'*|*'ServicesResolved: yes'*|*'Bonded: yes'*|*'Paired: yes'* )
            break
            ;;
        *'connect failed'*|*'Failed to connect:'*)
            if [ "$SECONDS" -ge "$connect_deadline" ]; then
                break
            fi
            ;;
    esac

    if [ "$SECONDS" -ge "$connect_deadline" ]; then
        break
    fi
done
EOF"#);
    s
}

} // verus!

