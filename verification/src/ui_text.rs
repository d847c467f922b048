use vstd::prelude::*;
use vstd::string::*;

use crate::bluetooth::{BluetoothDeviceInfo, BluetoothScanReport};
use crate::wifi::{WifiNetwork, WifiStatus};
use crate::text::{chars_of, decimal, join, join_strings, lines, owned, push_decimal, push_str, split_lines, string_of};

verus! {

broadcast use vstd::string::group_string_axioms;

/// How many Bluetooth debug lines show at once.
pub const BLUETOOTH_DEBUG_VISIBLE_LINES: usize = 10;
/// How many Wi-Fi networks show at once.
pub const WIFI_NETWORK_WINDOW_SIZE: usize = 8;

/// One device line: a `>` marks the selected device, then its state, address
/// and name.
pub open spec fn device_line(selected: bool, state: Seq<char>, address: Seq<char>, name: Seq<char>) -> Seq<char> {
    (if selected { ">"@ } else { " "@ }) + " ["@ + state + "] Device "@ + address + " "@ + name
}

fn device_line_exec(selected: bool, state: &str, address: &str, name: &str) -> (r: String)
    ensures
        r@ == device_line(selected, state@, address@, name@),
{
    let mut r = owned(if selected { ">" } else { " " });
    push_str(&mut r, " [");
    push_str(&mut r, state);
    push_str(&mut r, "] Device ");
    push_str(&mut r, address);
    push_str(&mut r, " ");
    push_str(&mut r, name);
    r
}

/// The state shown for a DualSense: paired or new.
pub open spec fn pairing_state(paired: bool) -> Seq<char> {
    if paired { "PAIRED"@ } else { "NEW"@ }
}

/// The lines of a device list, the device at `selected` marked.
pub open spec fn device_lines(devices: Seq<BluetoothDeviceInfo>, selected: int) -> Seq<Seq<char>> {
    Seq::new(devices.len(), |i: int| device_line(i == selected, pairing_state(devices[i].paired), devices[i].address@, devices[i].name@))
}

/// The list of found DualSense controllers, or a hint to scan again when
/// there is none.
pub open spec fn devices_text(devices: Seq<BluetoothDeviceInfo>, selected: int) -> Seq<char> {
    if devices.len() == 0 {
        "No DualSense device found yet. Press Scan / Refresh to search again."@
    } else {
        join(device_lines(devices, selected), "\n"@)
    }
}

/// The list of found DualSense controllers, the one at `selected_index`
/// marked.
pub fn format_bluetooth_devices(devices: &Vec<BluetoothDeviceInfo>, selected_index: usize) -> (r: String)
    ensures
        r@ == devices_text(devices@, selected_index as int),
{
    if devices.len() == 0 {
        return owned("No DualSense device found yet. Press Scan / Refresh to search again.");
    }
    let mut ls: Vec<String> = Vec::new();
    let mut i: usize = 0;
    while i < devices.len()
        invariant
            i <= devices.len(),
            ls@.map_values(|l: String| l@) == device_lines(devices@, selected_index as int).take(i as int),
        decreases devices.len() - i,
    {
        let d = &devices[i];
        let st = if d.paired { "PAIRED" } else { "NEW" };
        assert(st@ == pairing_state(d.paired));
        let l = device_line_exec(i == selected_index, st, d.address.as_str(), d.name.as_str());
        let ghost before = ls@.map_values(|l: String| l@);
        assert(l@ == device_lines(devices@, selected_index as int)[i as int]);
        ls.push(l);
        proof {
            assert(ls@.map_values(|l: String| l@) =~= before.push(l@));
            assert(device_lines(devices@, selected_index as int).take(i + 1) =~= device_lines(devices@, selected_index as int).take(i as int).push(device_lines(devices@, selected_index as int)[i as int]));
        }
        i = i + 1;
    }
    proof {
        assert(device_lines(devices@, selected_index as int).take(devices@.len() as int) =~= device_lines(devices@, selected_index as int));
    }
    join_strings(&ls, "\n")
}

/// The addresses of the found controllers, one row each.
pub fn bluetooth_device_row_labels(devices: &Vec<BluetoothDeviceInfo>) -> (r: Vec<String>)
    ensures
        r@.len() == devices@.len(),
        forall|i: int| 0 <= i < r@.len() ==> #[trigger] r@[i]@ == devices@[i].address@,
{
    let mut r: Vec<String> = Vec::new();
    let mut i: usize = 0;
    while i < devices.len()
        invariant
            i <= devices.len(),
            r@.len() == i,
            forall|k: int| 0 <= k < i ==> #[trigger] r@[k]@ == devices@[k].address@,
        decreases devices.len() - i,
    {
        r.push(owned(devices[i].address.as_str()));
        i = i + 1;
    }
    r
}

/// The state shown for any Bluetooth device: its paired, trusted and
/// connected flags in the combinations `bluetoothctl` reports, else new.
pub open spec fn full_state(paired: bool, trusted: bool, connected: bool) -> Seq<char> {
    if paired && trusted && connected {
        "PAIRED TRUSTED CONNECTED"@
    } else if paired && trusted && !connected {
        "PAIRED TRUSTED"@
    } else if paired && !trusted && !connected {
        "PAIRED"@
    } else if !paired && trusted && !connected {
        "TRUSTED"@
    } else if !paired && !trusted && connected {
        "CONNECTED"@
    } else {
        "NEW"@
    }
}

fn full_state_exec(paired: bool, trusted: bool, connected: bool) -> (r: &'static str)
    ensures
        r@ == full_state(paired, trusted, connected),
{
    if paired && trusted && connected {
        "PAIRED TRUSTED CONNECTED"
    } else if paired && trusted && !connected {
        "PAIRED TRUSTED"
    } else if paired && !trusted && !connected {
        "PAIRED"
    } else if !paired && trusted && !connected {
        "TRUSTED"
    } else if !paired && !trusted && connected {
        "CONNECTED"
    } else {
        "NEW"
    }
}

/// A text with its count in brackets: `<label> (<n>)<tail>`.
pub open spec fn counted(label: Seq<char>, n: nat, tail: Seq<char>) -> Seq<char> {
    label + " ("@ + decimal(n) + ")"@ + tail
}

fn counted_exec(label: &str, n: u64, tail: &str) -> (r: String)
    ensures
        r@ == counted(label@, n as nat, tail@),
{
    let mut r = owned(label);
    push_str(&mut r, " (");
    push_decimal(&mut r, n);
    push_str(&mut r, ")");
    push_str(&mut r, tail);
    r
}

/// The lines of the scan details: the raw `bluetoothctl` output (its size
/// in bytes, then its lines indented), every device seen, and the DualSense
/// controllers among them, the selected one marked in both lists.
pub open spec fn scan_debug_lines(report: BluetoothScanReport, selected: int) -> Seq<Seq<char>> {
    let raw = report.raw_output@;
    let all = report.all_devices@;
    let ds = report.dualsense_devices@;
    seq!["bluetoothctl raw output ("@ + decimal(vstd::utf8::encode_utf8(raw).len()) + " bytes):"@]
        + lines(raw).map_values(|l: Seq<char>| "  "@ + l)
        + seq![Seq::<char>::empty(), counted("all bluetooth devices"@, all.len(), ":"@)]
        + (if all.len() == 0 {
            seq!["  (none found)"@]
        } else {
            Seq::new(all.len(), |i: int| device_line(i == selected, full_state(all[i].paired, all[i].trusted, all[i].connected), all[i].address@, all[i].name@))
        })
        + seq![Seq::<char>::empty(), counted("DualSense devices"@, ds.len(), ":"@)]
        + (if ds.len() == 0 { seq!["  No DualSense device found."@] } else { device_lines(ds, selected) })
}

/// The indented lines of a text.
fn push_indented(out: &mut Vec<String>, text: &str)
    ensures
        final(out)@.map_values(|l: String| l@) == old(out)@.map_values(|l: String| l@) + lines(text@).map_values(
            |l: Seq<char>| "  "@ + l,
        ),
{
    let ls = split_lines(&chars_of(text));
    let ghost base = out@.map_values(|l: String| l@);
    let ghost want = lines(text@).map_values(|l: Seq<char>| "  "@ + l);
    let mut i: usize = 0;
    while i < ls.len()
        invariant
            i <= ls.len(),
            ls@.len() == lines(text@).len(),
            forall|k: int| 0 <= k < ls@.len() ==> #[trigger] ls@[k]@ == lines(text@)[k],
            want == lines(text@).map_values(|l: Seq<char>| "  "@ + l),
            out@.map_values(|l: String| l@) == base + want.take(i as int),
        decreases ls.len() - i,
    {
        let mut l = owned("  ");
        push_str(&mut l, string_of(&ls[i]).as_str());
        let ghost before = out@.map_values(|l: String| l@);
        out.push(l);
        proof {
            assert(out@.map_values(|l: String| l@) =~= before.push(want[i as int]));
            assert(want.take(i + 1) =~= want.take(i as int).push(want[i as int]));
        }
        i = i + 1;
    }
    proof {
        assert(want.take(ls@.len() as int) =~= want);
    }
}

fn push_line(out: &mut Vec<String>, l: String)
    ensures
        final(out)@.map_values(|x: String| x@) == old(out)@.map_values(|x: String| x@).push(l@),
{
    let ghost before = out@.map_values(|x: String| x@);
    out.push(l);
    proof {
        assert(out@.map_values(|x: String| x@) =~= before.push(l@));
    }
}

/// The Bluetooth scan details, the device at `selected_index` marked.
pub fn format_bluetooth_scan_debug(report: &BluetoothScanReport, selected_index: usize) -> (r: String)
    requires
        vstd::utf8::encode_utf8(report.raw_output@).len() <= usize::MAX,
    ensures
        r@ == join(scan_debug_lines(*report, selected_index as int), "\n"@),
{
    let ghost sel = selected_index as int;
    let mut out: Vec<String> = Vec::new();
    let bytes = report.raw_output.as_str().len();
    assert(bytes == vstd::utf8::encode_utf8(report.raw_output@).len());
    let mut head = owned("bluetoothctl raw output (");
    push_decimal(&mut head, bytes as u64);
    push_str(&mut head, " bytes):");
    let ghost h = head@;
    push_line(&mut out, head);
    push_indented(&mut out, report.raw_output.as_str());
    let ghost p2 = out@.map_values(|x: String| x@);
    proof {
        assert(p2 =~= seq![h] + lines(report.raw_output@).map_values(|l: Seq<char>| "  "@ + l));
        reveal_strlit("");
        assert(""@ =~= Seq::<char>::empty());
    }
    push_line(&mut out, owned(""));
    push_line(&mut out, counted_exec("all bluetooth devices", report.all_devices.len() as u64, ":"));
    let ghost mid = out@.map_values(|x: String| x@);
    proof {
        assert(mid =~= p2 + seq![Seq::<char>::empty(), counted("all bluetooth devices"@, report.all_devices@.len(), ":"@)]);
    }
    if report.all_devices.len() == 0 {
        push_line(&mut out, owned("  (none found)"));
    } else {
        let ghost all = report.all_devices@;
        let ghost want = Seq::new(all.len(), |i: int| device_line(i == sel, full_state(all[i].paired, all[i].trusted, all[i].connected), all[i].address@, all[i].name@));
        let mut i: usize = 0;
        while i < report.all_devices.len()
            invariant
                i <= report.all_devices@.len(),
                all == report.all_devices@,
                sel == selected_index as int,
                want == Seq::new(all.len(), |i: int| device_line(i == sel, full_state(all[i].paired, all[i].trusted, all[i].connected), all[i].address@, all[i].name@)),
                out@.map_values(|x: String| x@) == mid + want.take(i as int),
            decreases report.all_devices.len() - i,
        {
            let d = &report.all_devices[i];
            let l = device_line_exec(i == selected_index, full_state_exec(d.paired, d.trusted, d.connected), d.address.as_str(), d.name.as_str());
            assert(l@ == want[i as int]);
            push_line(&mut out, l);
            proof {
                assert(want.take(i + 1) =~= want.take(i as int).push(want[i as int]));
            }
            i = i + 1;
        }
        proof {
            assert(want.take(all.len() as int) =~= want);
        }
    }
    let ghost all_part = if report.all_devices@.len() == 0 {
        seq!["  (none found)"@]
    } else {
        Seq::new(report.all_devices@.len(), |i: int| device_line(i == sel, full_state(report.all_devices@[i].paired, report.all_devices@[i].trusted, report.all_devices@[i].connected), report.all_devices@[i].address@, report.all_devices@[i].name@))
    };
    let ghost p3 = out@.map_values(|x: String| x@);
    proof {
        assert(p3 =~= mid + all_part);
    }
    push_line(&mut out, owned(""));
    push_line(&mut out, counted_exec("DualSense devices", report.dualsense_devices.len() as u64, ":"));
    let ghost mid2 = out@.map_values(|x: String| x@);
    proof {
        assert(mid2 =~= p3 + seq![Seq::<char>::empty(), counted("DualSense devices"@, report.dualsense_devices@.len(), ":"@)]);
    }
    if report.dualsense_devices.len() == 0 {
        push_line(&mut out, owned("  No DualSense device found."));
    } else {
        let ghost ds = report.dualsense_devices@;
        let ghost want = device_lines(ds, sel);
        let mut i: usize = 0;
        while i < report.dualsense_devices.len()
            invariant
                i <= report.dualsense_devices@.len(),
                ds == report.dualsense_devices@,
                sel == selected_index as int,
                want == device_lines(ds, sel),
                out@.map_values(|x: String| x@) == mid2 + want.take(i as int),
            decreases report.dualsense_devices.len() - i,
        {
            let d = &report.dualsense_devices[i];
            let st = if d.paired { "PAIRED" } else { "NEW" };
            assert(st@ == pairing_state(d.paired));
            let l = device_line_exec(i == selected_index, st, d.address.as_str(), d.name.as_str());
            assert(l@ == want[i as int]);
            push_line(&mut out, l);
            proof {
                assert(want.take(i + 1) =~= want.take(i as int).push(want[i as int]));
            }
            i = i + 1;
        }
        proof {
            assert(want.take(ds.len() as int) =~= want);
        }
    }
    proof {
        let ds_part = if report.dualsense_devices@.len() == 0 { seq!["  No DualSense device found."@] } else { device_lines(report.dualsense_devices@, sel) };
        assert(out@.map_values(|x: String| x@) =~= mid2 + ds_part);
        assert(h == "bluetoothctl raw output ("@ + decimal(vstd::utf8::encode_utf8(report.raw_output@).len()) + " bytes):"@);
        assert(out@.map_values(|x: String| x@) =~= scan_debug_lines(*report, sel));
    }
    join_strings(&out, "\n")
}

/// The lines of a Bluetooth scan report, and how far it is scrolled.
#[derive(Debug, Clone)]
pub struct BluetoothDebugState {
    pub lines: Vec<String>,
    pub offset: usize,
}

/// The first line shown: the scroll offset cut so that a full page shows
/// when there is one.
pub open spec fn debug_start(n: int, offset: int) -> int {
    let max_offset = if n > BLUETOOTH_DEBUG_VISIBLE_LINES { n - BLUETOOTH_DEBUG_VISIBLE_LINES } else { 0 };
    if offset < max_offset { offset } else { max_offset }
}

/// The text of the scan details viewer: a hint while there is nothing to
/// show, else which lines show (counted from 1) and those lines.
pub open spec fn debug_text_spec(ls: Seq<Seq<char>>, offset: int) -> Seq<char> {
    if ls.len() == 0 {
        "Bluetooth scan details will appear here."@
    } else {
        let start = debug_start(ls.len() as int, offset);
        let end = if start + BLUETOOTH_DEBUG_VISIBLE_LINES < ls.len() { start + BLUETOOTH_DEBUG_VISIBLE_LINES } else { ls.len() as int };
        join(
            seq!["Showing lines "@ + decimal((start + 1) as nat) + "-"@ + decimal(end as nat) + " of "@ + decimal(ls.len())]
                + ls.subrange(start, end),
            "\n"@,
        )
    }
}

/// The text of the scan details viewer.
pub fn render_bluetooth_debug_text(state: &BluetoothDebugState) -> (r: String)
    ensures
        r@ == debug_text_spec(state.lines@.map_values(|l: String| l@), state.offset as int),
{
    let n = state.lines.len();
    if n == 0 {
        return owned("Bluetooth scan details will appear here.");
    }
    let max_offset = if n > BLUETOOTH_DEBUG_VISIBLE_LINES { n - BLUETOOTH_DEBUG_VISIBLE_LINES } else { 0 };
    let start = if state.offset < max_offset { state.offset } else { max_offset };
    let end = if start + BLUETOOTH_DEBUG_VISIBLE_LINES < n { start + BLUETOOTH_DEBUG_VISIBLE_LINES } else { n };
    let mut head = owned("Showing lines ");
    push_decimal(&mut head, (start + 1) as u64);
    push_str(&mut head, "-");
    push_decimal(&mut head, end as u64);
    push_str(&mut head, " of ");
    push_decimal(&mut head, n as u64);
    let ghost lv = state.lines@.map_values(|l: String| l@);
    let mut out: Vec<String> = Vec::new();
    push_line(&mut out, head);
    let ghost h = out@.map_values(|x: String| x@);
    let mut i: usize = start;
    while i < end
        invariant
            start <= i <= end,
            end <= n,
            n == state.lines@.len(),
            lv == state.lines@.map_values(|l: String| l@),
            out@.map_values(|x: String| x@) == h + lv.subrange(start as int, i as int),
        decreases end - i,
    {
        push_line(&mut out, owned(state.lines[i].as_str()));
        proof {
            assert(lv.subrange(start as int, i + 1) =~= lv.subrange(start as int, i as int).push(lv[i as int]));
        }
        i = i + 1;
    }
    proof {
        let st = debug_start(n as int, state.offset as int);
        assert(st == start);
        assert(h =~= seq!["Showing lines "@ + decimal((start + 1) as nat) + "-"@ + decimal(end as nat) + " of "@ + decimal(lv.len())]);
        assert(out@.map_values(|x: String| x@) =~= h + lv.subrange(start as int, end as int));
    }
    join_strings(&out, "\n")
}

/// Shows a new scan report from its first line.
pub fn set_bluetooth_debug_report(state: &mut BluetoothDebugState, report: &str) -> (r: String)
    ensures
        final(state).lines@.map_values(|l: String| l@) == lines(report@),
        final(state).offset == 0,
        r@ == debug_text_spec(lines(report@), 0),
{
    let ls = split_lines(&chars_of(report));
    let mut v: Vec<String> = Vec::new();
    let mut i: usize = 0;
    while i < ls.len()
        invariant
            i <= ls.len(),
            ls@.len() == lines(report@).len(),
            forall|k: int| 0 <= k < ls@.len() ==> #[trigger] ls@[k]@ == lines(report@)[k],
            v@.map_values(|l: String| l@) == lines(report@).take(i as int),
        decreases ls.len() - i,
    {
        push_line(&mut v, string_of(&ls[i]));
        proof {
            assert(lines(report@).take(i + 1) =~= lines(report@).take(i as int).push(lines(report@)[i as int]));
        }
        i = i + 1;
    }
    proof {
        assert(lines(report@).take(ls@.len() as int) =~= lines(report@));
    }
    state.lines = v;
    state.offset = 0;
    render_bluetooth_debug_text(state)
}

/// The first of the Wi-Fi networks shown, and the selected one: the
/// selection (cut to the list) is kept near the middle of a window of up
/// to eight networks that stays inside the list.
pub open spec fn wifi_window(n: int, selected: int) -> (int, int) {
    let sel = if selected < n - 1 { selected } else { n - 1 };
    let half = WIFI_NETWORK_WINDOW_SIZE / 2;
    let start0 = if sel > half { sel - half } else { 0 };
    let end = if start0 + WIFI_NETWORK_WINDOW_SIZE < n { start0 + WIFI_NETWORK_WINDOW_SIZE } else { n };
    let start = if end - start0 < WIFI_NETWORK_WINDOW_SIZE {
        if end > WIFI_NETWORK_WINDOW_SIZE { end - WIFI_NETWORK_WINDOW_SIZE } else { 0 }
    } else {
        start0
    };
    (start, sel)
}

/// The first of `n` Wi-Fi networks shown and the selected one.
pub fn visible_wifi_network_window(n: usize, selected_index: usize) -> (r: (usize, usize))
    requires
        n > 0,
    ensures
        (r.0 as int, r.1 as int) == wifi_window(n as int, selected_index as int),
        r.0 <= r.1 < n,
{
    let sel = if selected_index < n - 1 { selected_index } else { n - 1 };
    let half = WIFI_NETWORK_WINDOW_SIZE / 2;
    let mut start = if sel > half { sel - half } else { 0 };
    let end = if start < n && WIFI_NETWORK_WINDOW_SIZE < n - start { start + WIFI_NETWORK_WINDOW_SIZE } else { n };
    if end - start < WIFI_NETWORK_WINDOW_SIZE {
        start = if end > WIFI_NETWORK_WINDOW_SIZE { end - WIFI_NETWORK_WINDOW_SIZE } else { 0 };
    }
    (start, sel)
}

/// What the pairing screen says of the selected controller.
pub open spec fn pairing_status(devices: Seq<BluetoothDeviceInfo>, selected: int) -> Seq<char> {
    if devices.len() == 0 {
        "No PS5 DualSense device found. Press Scan devices to search again."@
    } else {
        let d = devices[if selected < devices.len() - 1 { selected } else { devices.len() - 1 }];
        if d.paired {
            d.name@ + " is already paired. Press Continue to start button mapping."@
        } else {
            d.name@ + " is ready. Press Continue to pair and start button mapping."@
        }
    }
}

/// What the pairing screen says of the selected controller.
pub fn bluetooth_pairing_status(devices: &Vec<BluetoothDeviceInfo>, selected_index: usize) -> (r: String)
    ensures
        r@ == pairing_status(devices@, selected_index as int),
{
    if devices.len() == 0 {
        return owned("No PS5 DualSense device found. Press Scan devices to search again.");
    }
    let i = if selected_index < devices.len() - 1 { selected_index } else { devices.len() - 1 };
    let d = &devices[i];
    let mut r = owned(d.name.as_str());
    if d.paired {
        push_str(&mut r, " is already paired. Press Continue to start button mapping.");
    } else {
        push_str(&mut r, " is ready. Press Continue to pair and start button mapping.");
    }
    r
}

/// The titles and details of the wired and Wi-Fi rows of the system
/// settings.
#[derive(Debug, Clone)]
pub struct ConnectivityTexts {
    pub ethernet_title: String,
    pub ethernet_detail: String,
    pub wifi_title: String,
    pub wifi_detail: String,
}

/// The addresses of one family as the settings show them, or nothing.
pub open spec fn address_clause(label: Seq<char>, addrs: Seq<Seq<char>>) -> Seq<char> {
    if addrs.len() == 0 { seq![] } else { label + join(addrs, ", "@) + "."@ }
}

/// The detail of the wired row.
pub open spec fn ethernet_detail_spec(active: bool, v4: Seq<Seq<char>>, v6: Seq<Seq<char>>) -> Seq<char> {
    if active {
        (if v4.len() > 0 { "Network cable is connected. IPv4: "@ + join(v4, ", "@) + "."@ } else { "Network cable is connected."@ })
            + address_clause(" IPv6: "@, v6)
    } else {
        "No network cable is connected."@
    }
}

/// The title of the Wi-Fi row: connected, configured (only a saved
/// network), or still to configure; a saved network without a connection
/// counts as disconnected while no cable is connected.
pub open spec fn wifi_title_spec(ethernet: bool, connected: bool, configured: bool) -> Seq<char> {
    if connected {
        "Connected"@
    } else if configured {
        if ethernet { "Configured"@ } else { "Disconnected"@ }
    } else {
        "Configure"@
    }
}

/// The detail of the Wi-Fi row.
pub open spec fn wifi_detail_spec(ethernet: bool, connected: bool, configured: bool) -> Seq<char> {
    if ethernet {
        if connected {
            "Click to change network."@
        } else if configured {
            "Inactive due to connected network cable. WiFi will become active when network cable disconnects."@
        } else {
            "Search and select your WiFi network"@
        }
    } else if connected {
        "Your wifi connection has been configured."@
    } else {
        "Search and select your WiFi network"@
    }
}

/// The views of a list of texts.
pub open spec fn strs(v: Seq<String>) -> Seq<Seq<char>> {
    v.map_values(|s: String| s@)
}

/// The texts of the wired and Wi-Fi rows for a connectivity status.
pub fn connectivity_texts(status: &WifiStatus) -> (r: ConnectivityTexts)
    ensures
        r.ethernet_title@ == (if status.ethernet_active { "Connected"@ } else { "Disconnected"@ }),
        r.ethernet_detail@ == ethernet_detail_spec(status.ethernet_active, strs(status.ethernet_ipv4_addresses@), strs(status.ethernet_ipv6_addresses@)),
        r.wifi_title@ == wifi_title_spec(status.ethernet_active, status.connected_ssid is Some, status.saved_ssid is Some),
        r.wifi_detail@ == wifi_detail_spec(status.ethernet_active, status.connected_ssid is Some, status.saved_ssid is Some),
{
    let eth = status.ethernet_active;
    let ethernet_title = owned(if eth { "Connected" } else { "Disconnected" });
    let ethernet_detail = if eth {
        let mut d = if status.ethernet_ipv4_addresses.len() > 0 {
            let mut d = owned("Network cable is connected. IPv4: ");
            push_str(&mut d, join_strings(&status.ethernet_ipv4_addresses, ", ").as_str());
            push_str(&mut d, ".");
            d
        } else {
            owned("Network cable is connected.")
        };
        let ghost before = d@;
        if status.ethernet_ipv6_addresses.len() > 0 {
            push_str(&mut d, " IPv6: ");
            push_str(&mut d, join_strings(&status.ethernet_ipv6_addresses, ", ").as_str());
            push_str(&mut d, ".");
        }
        proof {
            assert(d@ =~= before + address_clause(" IPv6: "@, strs(status.ethernet_ipv6_addresses@)));
        }
        d
    } else {
        owned("No network cable is connected.")
    };
    let connected = status.connected_ssid.is_some();
    let configured = status.saved_ssid.is_some();
    let wifi_title = owned(if connected {
        "Connected"
    } else if configured {
        if eth { "Configured" } else { "Disconnected" }
    } else {
        "Configure"
    });
    let wifi_detail = owned(if eth {
        if connected {
            "Click to change network."
        } else if configured {
            "Inactive due to connected network cable. WiFi will become active when network cable disconnects."
        } else {
            "Search and select your WiFi network"
        }
    } else if connected {
        "Your wifi connection has been configured."
    } else {
        "Search and select your WiFi network"
    });
    ConnectivityTexts { ethernet_title, ethernet_detail, wifi_title, wifi_detail }
}

/// The selected system setting once Wi-Fi is switched on or off: without
/// Wi-Fi its setup row disappears, so a selection past the second row moves
/// back to it.
pub fn system_setting_after_update(wifi_enabled: bool, current: i32) -> (r: i32)
    ensures
        r == if !wifi_enabled && current > 1 { 1 } else { current },
{
    if !wifi_enabled && current > 1 { 1 } else { current }
}

/// The last system setting row: the Bluetooth row is third while Wi-Fi is
/// on (its setup row comes second).
pub fn current_system_setting_max_index(wifi_enabled: bool) -> (r: i32)
    ensures
        r == if wifi_enabled { 2i32 } else { 1i32 },
{
    if wifi_enabled { 2 } else { 1 }
}

/// The state a Wi-Fi network row shows: 1 connected, 2 saved but not
/// connected, 0 otherwise.
pub open spec fn network_state(n: WifiNetwork) -> i32 {
    if n.connected { 1 } else if n.known { 2 } else { 0 }
}

/// The visible rows of the Wi-Fi network list.
#[derive(Debug, Clone)]
pub struct WifiNetworkRows {
    pub names: Vec<String>,
    pub secured: Vec<bool>,
    pub states: Vec<i32>,
    pub window_start: usize,
    pub visible_selected_index: usize,
}

/// The rows show the networks of the window around the selection.
pub open spec fn rows_spec(networks: Seq<WifiNetwork>, selected: int, r: WifiNetworkRows) -> bool {
    let w = wifi_window(networks.len() as int, selected);
    let start = w.0;
    let end = if start + WIFI_NETWORK_WINDOW_SIZE < networks.len() { start + WIFI_NETWORK_WINDOW_SIZE } else { networks.len() as int };
    &&& r.window_start == start
    &&& r.visible_selected_index == w.1 - start
    &&& r.names@.len() == end - start && r.secured@.len() == end - start && r.states@.len() == end - start
    &&& forall|i: int| #![trigger r.names@[i]] 0 <= i < end - start ==> r.names@[i]@ == networks[start + i].ssid@
    &&& forall|i: int| #![trigger r.secured@[i]] 0 <= i < end - start ==> r.secured@[i] == networks[start + i].secured
    &&& forall|i: int| #![trigger r.states@[i]] 0 <= i < end - start ==> r.states@[i] == network_state(networks[start + i])
}

/// The rows of the networks in the window around the selection (none for
/// an empty list), and where the selection is within them.
pub fn wifi_network_rows(networks: &Vec<WifiNetwork>, selected_index: usize) -> (r: WifiNetworkRows)
    ensures
        networks@.len() == 0 ==> r.names@.len() == 0 && r.secured@.len() == 0 && r.states@.len() == 0 && r.window_start == 0
            && r.visible_selected_index == 0,
        networks@.len() > 0 ==> rows_spec(networks@, selected_index as int, r),
{
    let mut names: Vec<String> = Vec::new();
    let mut secured: Vec<bool> = Vec::new();
    let mut states: Vec<i32> = Vec::new();
    if networks.len() == 0 {
        return WifiNetworkRows { names, secured, states, window_start: 0, visible_selected_index: 0 };
    }
    let (start, sel) = visible_wifi_network_window(networks.len(), selected_index);
    let end = if start + WIFI_NETWORK_WINDOW_SIZE < networks.len() { start + WIFI_NETWORK_WINDOW_SIZE } else { networks.len() };
    let mut i: usize = start;
    while i < end
        invariant
            start <= i <= end,
            end <= networks@.len(),
            names@.len() == i - start && secured@.len() == i - start && states@.len() == i - start,
            forall|k: int| 0 <= k < i - start ==> #[trigger] names@[k]@ == networks@[start + k].ssid@,
            forall|k: int| 0 <= k < i - start ==> #[trigger] secured@[k] == networks@[start + k].secured,
            forall|k: int| 0 <= k < i - start ==> #[trigger] states@[k] == network_state(networks@[start + k]),
        decreases end - i,
    {
        let n = &networks[i];
        names.push(owned(n.ssid.as_str()));
        secured.push(n.secured);
        states.push(if n.connected { 1 } else if n.known { 2 } else { 0 });
        i = i + 1;
    }
    let r = WifiNetworkRows { names, secured, states, window_start: start, visible_selected_index: sel - start };
    proof {
        let (s2, l2) = wifi_window(networks@.len() as int, selected_index as int);
        assert(s2 == start && l2 == sel);
        assert(r.names@.len() == end - start);
        assert(r.window_start == s2);
        assert(r.visible_selected_index == l2 - s2);
        assert(rows_spec(networks@, selected_index as int, r));
    }
    r
}

/// What the network list says of the selected network: how Enter acts on
/// it (forget a saved one, ask a password, or connect).
pub open spec fn network_status_spec(networks: Seq<WifiNetwork>, selected: int) -> Seq<char> {
    if networks.len() == 0 {
        seq![]
    } else {
        let n = networks[if selected < networks.len() - 1 { selected } else { networks.len() - 1 }];
        if n.known {
            "Press Enter to remove the saved Wi-Fi configuration for "@ + n.ssid@ + "."@
        } else if n.secured {
            "Press Enter to enter the Wi-Fi password for "@ + n.ssid@ + "."@
        } else {
            "Press Enter to connect to "@ + n.ssid@ + "."@
        }
    }
}

/// What the network list says of the selected network.
pub fn wifi_network_status(networks: &Vec<WifiNetwork>, selected_index: usize) -> (r: String)
    ensures
        r@ == network_status_spec(networks@, selected_index as int),
{
    proof {
        reveal_strlit("");
        assert(""@ =~= Seq::<char>::empty());
    }
    if networks.len() == 0 {
        return owned("");
    }
    let i = if selected_index < networks.len() - 1 { selected_index } else { networks.len() - 1 };
    let n = &networks[i];
    let mut r = owned(if n.known {
        "Press Enter to remove the saved Wi-Fi configuration for "
    } else if n.secured {
        "Press Enter to enter the Wi-Fi password for "
    } else {
        "Press Enter to connect to "
    });
    push_str(&mut r, n.ssid.as_str());
    push_str(&mut r, ".");
    r
}

} // verus!
