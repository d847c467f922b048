use vstd::prelude::*;
use vstd::string::*;

use crate::text::{
    ascii_lower, chars_of, contains_chars, contains_seq, has_prefix, join, join_strings, lines,
    lower_chars, owned, push_chars, push_str, slice_from, split_lines, starts_with_chars, str_eq,
    string_of, trim, trim_chars, trim_end, trim_end_chars, trim_start, trim_start_chars, words,
    split_words,
};

verus! {

broadcast use vstd::string::group_string_axioms;

/// A network found by a scan.
#[derive(Debug, Clone)]
pub struct WifiNetwork {
    pub ssid: String,
    pub secured: bool,
    pub known: bool,
    pub connected: bool,
    pub signal: String,
}

/// What the settings screen shows about the network connection.
#[derive(Debug, Clone)]
pub struct WifiStatus {
    pub interface_name: Option<String>,
    pub ethernet_interface: Option<String>,
    pub ethernet_active: bool,
    pub ethernet_ipv4_addresses: Vec<String>,
    pub ethernet_ipv6_addresses: Vec<String>,
    pub connected_ssid: Option<String>,
    pub saved_ssid: Option<String>,
    pub ipv4_addresses: Vec<String>,
    pub ipv6_addresses: Vec<String>,
    pub security: Option<String>,
    pub title: String,
    pub detail: String,
}

/// The state of the iwd service, as `systemctl` reports it.
#[derive(Debug, Clone, Copy, PartialEq, Eq, Structural)]
pub enum IwdServiceState {
    Active,
    Activating,
    Inactive,
    Failed,
    Unknown,
}

/// What `iwctl station <interface> show` says about the connection.
#[derive(Debug, Clone)]
pub struct WifiConnectionInfo {
    pub ssid: Option<String>,
    pub security: Option<String>,
    pub ipv4_addresses: Vec<String>,
    pub ipv6_addresses: Vec<String>,
}

// ---------------------------------------------------------------------------
// Table columns
// ---------------------------------------------------------------------------

/// The state while splitting a table row: the finished columns, the column
/// being read, and the number of blanks seen since its last character.
pub open spec fn column_step(st: (Seq<Seq<char>>, Seq<char>, nat), ch: char) -> (Seq<Seq<char>>, Seq<char>, nat) {
    let (cols, cur, pending) = st;
    if ch == ' ' || ch == '\t' {
        (cols, cur, pending + 1)
    } else if pending >= 2 && trim(cur).len() > 0 {
        (cols.push(trim(cur)), seq![ch], 0)
    } else if pending == 1 && cur.len() > 0 {
        (cols, cur.push(' ').push(ch), 0)
    } else {
        (cols, cur.push(ch), 0)
    }
}

/// The splitting state after the characters of `s`.
pub open spec fn column_fold(s: Seq<char>) -> (Seq<Seq<char>>, Seq<char>, nat)
    decreases s.len(),
{
    if s.len() == 0 {
        (seq![], seq![], 0)
    } else {
        column_step(column_fold(s.drop_last()), s.last())
    }
}

/// The columns of a table row: runs separated by two or more blanks, each
/// trimmed, single blanks inside a column kept as one space.
pub open spec fn columns_spec(s: Seq<char>) -> Seq<Seq<char>> {
    let (cols, cur, _) = column_fold(s);
    if trim(cur).len() > 0 { cols.push(trim(cur)) } else { cols }
}

/// The views of a list of strings.
pub open spec fn views(v: Seq<String>) -> Seq<Seq<char>> {
    v.map_values(|s: String| s@)
}

/// The columns of a table row.
pub fn split_columns(input: &str) -> (r: Vec<String>)
    ensures
        views(r@) == columns_spec(input@),
{
    let s = chars_of(input);
    let mut columns: Vec<String> = Vec::new();
    let mut current: Vec<char> = Vec::new();
    let mut pending: usize = 0;
    let mut i: usize = 0;
    while i < s.len()
        invariant
            i <= s.len(),
            pending <= i,
            column_fold(s@.take(i as int)) == (views(columns@), current@, pending as nat),
        decreases s.len() - i,
    {
        proof {
            assert(s@.take(i + 1).drop_last() == s@.take(i as int));
            assert(s@.take(i + 1).last() == s@[i as int]);
        }
        let ch = s[i];
        if ch == ' ' || ch == '\t' {
            pending = pending + 1;
        } else {
            let t = trim_chars(&current);
            if pending >= 2 && t.len() > 0 {
                let ghost c0 = views(columns@);
                columns.push(string_of(&t));
                proof {
                    assert(views(columns@) =~= c0.push(t@));
                }
                current = Vec::new();
                current.push(ch);
                proof {
                    assert(current@ =~= seq![ch]);
                }
            } else if pending == 1 && current.len() > 0 {
                current.push(' ');
                current.push(ch);
            } else {
                current.push(ch);
            }
            pending = 0;
        }
        i = i + 1;
    }
    proof {
        assert(s@.take(s@.len() as int) == s@);
    }
    let t = trim_chars(&current);
    if t.len() > 0 {
        let ghost c0 = views(columns@);
        columns.push(string_of(&t));
        proof {
            assert(views(columns@) =~= c0.push(t@));
        }
    }
    columns
}

// ---------------------------------------------------------------------------
// Command output
// ---------------------------------------------------------------------------

/// Number of characters that a terminal control sequence after `ESC [`
/// takes: up to and including the first character in `@`..=`~`, or all.
pub open spec fn csi_len(t: Seq<char>) -> nat
    decreases t.len(),
{
    if t.len() == 0 {
        0
    } else if '@' <= t[0] && t[0] <= '~' {
        1
    } else {
        1 + csi_len(t.drop_first())
    }
}

/// `s` without terminal escape sequences: `ESC [ ... final` and lone `ESC`
/// characters are dropped.
pub open spec fn strip_escapes(s: Seq<char>) -> Seq<char>
    decreases s.len(),
{
    if s.len() == 0 {
        seq![]
    } else if s[0] == '\u{1b}' {
        if s.len() > 1 && s[1] == '[' {
            proof {
                lemma_csi_len(s.skip(2));
            }
            strip_escapes(s.skip(2).skip(csi_len(s.skip(2)) as int))
        } else {
            strip_escapes(s.skip(1))
        }
    } else {
        seq![s[0]] + strip_escapes(s.skip(1))
    }
}

/// `csi_len` is at most the length.
pub proof fn lemma_csi_len(t: Seq<char>)
    ensures
        csi_len(t) <= t.len(),
    decreases t.len(),
{
    if t.len() > 0 {
        lemma_csi_len(t.drop_first());
    }
}

/// Command output as the console shows it: escapes removed, trimmed.
pub open spec fn sanitized(s: Seq<char>) -> Seq<char> {
    trim(strip_escapes(s))
}

proof fn lemma_csi_exact(t: Seq<char>, k: int)
    requires
        0 <= k <= t.len(),
        forall|j: int| 0 <= j < k ==> !('@' <= #[trigger] t[j] && t[j] <= '~'),
        k == t.len() || ('@' <= t[k] && t[k] <= '~'),
    ensures
        csi_len(t) == (if k == t.len() { k } else { k + 1 }),
    decreases k,
{
    if k > 0 {
        lemma_csi_exact(t.drop_first(), k - 1);
    }
}

/// Command output as the console shows it.
pub fn sanitize_command_output(output: &str) -> (r: String)
    ensures
        r@ == sanitized(output@),
{
    let s = chars_of(output);
    let mut cleaned: Vec<char> = Vec::new();
    let mut i: usize = 0;
    assert(s@.skip(0) == s@);
    while i < s.len()
        invariant
            i <= s.len(),
            cleaned@ + strip_escapes(s@.skip(i as int)) == strip_escapes(s@),
        decreases s.len() - i,
    {
        let ghost rest = s@.skip(i as int);
        if s[i] == '\u{1b}' {
            if i + 1 < s.len() && s[i + 1] == '[' {
                let mut j: usize = i + 2;
                while j < s.len() && !('@' <= s[j] && s[j] <= '~')
                    invariant
                        i + 2 <= j <= s.len(),
                        forall|m: int| i + 2 <= m < j ==> !('@' <= #[trigger] s@[m] && s@[m] <= '~'),
                    decreases s.len() - j,
                {
                    j = j + 1;
                }
                let next = if j < s.len() { j + 1 } else { j };
                proof {
                    let t = rest.skip(2);
                    assert(t == s@.skip(i + 2));
                    lemma_csi_exact(t, j - (i + 2));
                    assert(t.skip(csi_len(t) as int) == s@.skip(next as int));
                }
                i = next;
            } else {
                proof {
                    assert(rest.skip(1) == s@.skip(i + 1));
                }
                i = i + 1;
            }
        } else {
            proof {
                let c0 = cleaned@;
                assert(rest.skip(1) == s@.skip(i + 1));
                assert(rest[0] == s@[i as int]);
                assert(c0.push(s@[i as int]) + strip_escapes(s@.skip(i + 1)) =~= c0 + (seq![rest[0]] + strip_escapes(rest.skip(1))));
            }
            cleaned.push(s[i]);
            i = i + 1;
        }
    }
    proof {
        assert(strip_escapes(s@.skip(i as int)) == Seq::<char>::empty());
        assert(cleaned@ + Seq::<char>::empty() == cleaned@);
    }
    string_of(&trim_chars(&cleaned))
}

/// The message for a failed connection to `ssid`: the driver's SAE/WPA3
/// trouble and rejected authentication get an explanation, an aborted
/// attempt a hint, anything else the command's own words.
pub open spec fn connect_failure_spec(ssid: Seq<char>, details: Seq<char>, logs: Option<Seq<char>>) -> Seq<char> {
    let combined = match logs {
        Some(l) => if l.len() > 0 { details + "\n"@ + l } else { details },
        None => details,
    };
    let lower = ascii_lower(combined);
    let saw_sae = contains_seq(lower, "sae unsupported"@) || contains_seq(lower, "cmd_external_auth for sae"@);
    let saw_reason = contains_seq(lower, "reason: 15"@);
    if saw_sae && saw_reason {
        ssid + " failed during authentication. The access point advertised an SAE/WPA3 path during negotiation, and this Wi-Fi adapter/driver cannot use SAE reliably. On mixed WPA2-PSK/WPA3-SAE networks this can still happen even when WPA2 is enabled. Also verify the passphrase and make sure the access point changes were fully applied."@
    } else if saw_sae {
        ssid + " advertised an SAE/WPA3 authentication path during negotiation, and this Wi-Fi adapter/driver does not support SAE reliably. If this network is meant to allow WPA2-PSK clients, verify that the access point changes were fully applied and retry."@
    } else if saw_reason {
        ssid + " rejected the connection during authentication or key exchange. Verify the passphrase and access point security settings."@
    } else if contains_seq(ascii_lower(details), "operation aborted"@) {
        ssid + " connection was aborted before completion. Retry once more and check recent iwd.service logs on the device for the exact authentication reason."@
    } else {
        details
    }
}

/// The message for a failed connection to `ssid`, given the command's
/// output `details` and the recent iwd log lines, if any could be read.
pub fn describe_connect_failure(ssid: &str, details: &str, recent_logs: Option<&str>) -> (r: String)
    ensures
        r@ == connect_failure_spec(ssid@, details@, match recent_logs {
            Some(l) => Some(l@),
            None => None,
        }),
{
    let mut combined = owned(details);
    if let Some(logs) = recent_logs {
        if logs.unicode_len() > 0 {
            push_str(&mut combined, "\n");
            push_str(&mut combined, logs);
        }
    }
    let lower = lower_chars(&chars_of(combined.as_str()));
    let details_lower = lower_chars(&chars_of(details));
    let saw_sae = contains_chars(&lower, &chars_of("sae unsupported")) || contains_chars(&lower, &chars_of("cmd_external_auth for sae"));
    let saw_reason = contains_chars(&lower, &chars_of("reason: 15"));
    let mut r = owned(ssid);
    if saw_sae && saw_reason {
        push_str(&mut r, " failed during authentication. The access point advertised an SAE/WPA3 path during negotiation, and this Wi-Fi adapter/driver cannot use SAE reliably. On mixed WPA2-PSK/WPA3-SAE networks this can still happen even when WPA2 is enabled. Also verify the passphrase and make sure the access point changes were fully applied.");
        r
    } else if saw_sae {
        push_str(&mut r, " advertised an SAE/WPA3 authentication path during negotiation, and this Wi-Fi adapter/driver does not support SAE reliably. If this network is meant to allow WPA2-PSK clients, verify that the access point changes were fully applied and retry.");
        r
    } else if saw_reason {
        push_str(&mut r, " rejected the connection during authentication or key exchange. Verify the passphrase and access point security settings.");
        r
    } else if contains_chars(&details_lower, &chars_of("operation aborted")) {
        push_str(&mut r, " connection was aborted before completion. Retry once more and check recent iwd.service logs on the device for the exact authentication reason.");
        r
    } else {
        owned(details)
    }
}


// ---------------------------------------------------------------------------
// Connection status
// ---------------------------------------------------------------------------

/// The state of the iwd service from the `ActiveState` value.
pub open spec fn iwd_state_spec(text: Seq<char>) -> IwdServiceState {
    let t = trim(text);
    if t == "active"@ {
        IwdServiceState::Active
    } else if t == "activating"@ {
        IwdServiceState::Activating
    } else if t == "inactive"@ {
        IwdServiceState::Inactive
    } else if t == "failed"@ {
        IwdServiceState::Failed
    } else {
        IwdServiceState::Unknown
    }
}

/// The state of the iwd service from the output of `systemctl show
/// --property=ActiveState --value` (`None` when the command failed).
pub fn iwd_service_state_from(output: Option<&str>) -> (r: IwdServiceState)
    ensures
        r == match output {
            Some(o) => iwd_state_spec(o@),
            None => IwdServiceState::Unknown,
        },
{
    let text = match output {
        Some(o) => string_of(&trim_chars(&chars_of(o))),
        None => {
            return IwdServiceState::Unknown;
        },
    };
    let t = text.as_str();
    if str_eq(t, "active") {
        IwdServiceState::Active
    } else if str_eq(t, "activating") {
        IwdServiceState::Activating
    } else if str_eq(t, "inactive") {
        IwdServiceState::Inactive
    } else if str_eq(t, "failed") {
        IwdServiceState::Failed
    } else {
        IwdServiceState::Unknown
    }
}

/// The trimmed value of the first line (trimmed) of `output` that begins
/// with `label`, when the value is not empty.
pub open spec fn labelled_value(line: Seq<char>, label: Seq<char>) -> Option<Seq<char>> {
    let t = trim(line);
    if has_prefix(t, label) && trim(t.skip(label.len() as int)).len() > 0 {
        Some(trim(t.skip(label.len() as int)))
    } else {
        None
    }
}

/// `labelled_value` after `has_prefix`: the line begins with the label.
pub open spec fn has_label(line: Seq<char>, label: Seq<char>) -> bool {
    has_prefix(trim(line), label)
}

/// The connection facts in the lines of `iwctl station <if> show`, read in
/// order: a later line of the same kind replaces the network or security
/// and adds to the addresses. Only the first label that a line begins with
/// counts, in the order network, IPv4, IPv6, security.
pub open spec fn station_fold(ls: Seq<Seq<char>>) -> (Option<Seq<char>>, Option<Seq<char>>, Seq<Seq<char>>, Seq<Seq<char>>)
    decreases ls.len(),
{
    if ls.len() == 0 {
        (None, None, seq![], seq![])
    } else {
        let (ssid, sec, v4, v6) = station_fold(ls.drop_last());
        let line = ls.last();
        if has_label(line, "Connected network"@) {
            match labelled_value(line, "Connected network"@) {
                Some(v) => (Some(v), sec, v4, v6),
                None => (ssid, sec, v4, v6),
            }
        } else if has_label(line, "IPv4 address"@) {
            match labelled_value(line, "IPv4 address"@) {
                Some(v) => (ssid, sec, v4.push(v), v6),
                None => (ssid, sec, v4, v6),
            }
        } else if has_label(line, "IPv6 address"@) {
            match labelled_value(line, "IPv6 address"@) {
                Some(v) => (ssid, sec, v4, v6.push(v)),
                None => (ssid, sec, v4, v6),
            }
        } else if has_label(line, "Security"@) {
            match labelled_value(line, "Security"@) {
                Some(v) => (ssid, Some(v), v4, v6),
                None => (ssid, sec, v4, v6),
            }
        } else {
            (ssid, sec, v4, v6)
        }
    }
}

/// The view of an optional string.
pub open spec fn ov(o: Option<String>) -> Option<Seq<char>> {
    match o {
        Some(s) => Some(s@),
        None => None,
    }
}

fn label_value_exec(line: &[char], label: &str) -> (r: (bool, Option<String>))
    ensures
        r.0 == has_label(line@, label@),
        ov(r.1) == (if r.0 { labelled_value(line@, label@) } else { None }),
{
    let t = trim_chars(line);
    let l = chars_of(label);
    if !starts_with_chars(&t, &l) {
        return (false, None);
    }
    let v = trim_chars(&slice_from(&t, l.len()));
    if v.len() > 0 {
        (true, Some(string_of(&v)))
    } else {
        (true, None)
    }
}

/// The connection facts that `iwctl station <if> show` prints; when it
/// lists no address of a kind, the addresses of `ip addr` (`ipv4_fallback`,
/// `ipv6_fallback`) are used.
pub fn connection_info_from(output: &str, ipv4_fallback: Vec<String>, ipv6_fallback: Vec<String>) -> (info: WifiConnectionInfo)
    ensures
        ({
            let (ssid, sec, v4, v6) = station_fold(lines(output@));
            &&& ov(info.ssid) == ssid
            &&& ov(info.security) == sec
            &&& views(info.ipv4_addresses@) == (if v4.len() > 0 { v4 } else { views(ipv4_fallback@) })
            &&& views(info.ipv6_addresses@) == (if v6.len() > 0 { v6 } else { views(ipv6_fallback@) })
        }),
{
    let ls = split_lines(&chars_of(output));
    let ghost lv = lines(output@);
    let mut ssid: Option<String> = None;
    let mut security: Option<String> = None;
    let mut v4: Vec<String> = Vec::new();
    let mut v6: Vec<String> = Vec::new();
    let mut i: usize = 0;
    while i < ls.len()
        invariant
            i <= ls.len(),
            ls@.len() == lv.len(),
            lv == lines(output@),
            forall|k: int| 0 <= k < ls@.len() ==> #[trigger] ls@[k]@ == lv[k],
            station_fold(lv.take(i as int)) == (ov(ssid), ov(security), views(v4@), views(v6@)),
        decreases ls.len() - i,
    {
        proof {
            assert(lv.take(i + 1).drop_last() == lv.take(i as int));
            assert(lv.take(i + 1).last() == ls@[i as int]@);
        }
        let line = &ls[i];
        let (is_net, net) = label_value_exec(line, "Connected network");
        if is_net {
            if net.is_some() {
                ssid = net;
            }
        } else {
            let (is_v4, a4) = label_value_exec(line, "IPv4 address");
            if is_v4 {
                if let Some(a) = a4 {
                    let ghost before = views(v4@);
                    v4.push(a);
                    proof {
                        assert(views(v4@) =~= before.push(v4@.last()@));
                    }
                }
            } else {
                let (is_v6, a6) = label_value_exec(line, "IPv6 address");
                if is_v6 {
                    if let Some(a) = a6 {
                        let ghost before = views(v6@);
                        v6.push(a);
                        proof {
                            assert(views(v6@) =~= before.push(v6@.last()@));
                        }
                    }
                } else {
                    let (is_sec, sv) = label_value_exec(line, "Security");
                    if is_sec && sv.is_some() {
                        security = sv;
                    }
                }
            }
        }
        i = i + 1;
    }
    proof {
        assert(lv.take(ls@.len() as int) == lv);
    }
    let ipv4_addresses = if v4.len() > 0 { v4 } else { ipv4_fallback };
    let ipv6_addresses = if v6.len() > 0 { v6 } else { ipv6_fallback };
    WifiConnectionInfo { ssid, security, ipv4_addresses, ipv6_addresses }
}

/// The network that `iwctl station <if> show` reports as connected.
pub fn current_connected_network(output: &str) -> (r: Option<String>)
    ensures
        ov(r) == station_fold(lines(output@)).0,
{
    let info = connection_info_from(output, Vec::new(), Vec::new());
    info.ssid
}

/// The address after the first `inet` or `inet6` word of a line, if any.
pub open spec fn address_after_inet(ws: Seq<Seq<char>>) -> Option<Seq<char>>
    decreases ws.len(),
{
    if ws.len() == 0 {
        None
    } else if ws[0] == "inet"@ || ws[0] == "inet6"@ {
        if ws.len() > 1 { Some(ws[1]) } else { None }
    } else {
        address_after_inet(ws.drop_first())
    }
}

/// The addresses in the output of `ip -o addr show`, one per line that has
/// one.
pub open spec fn addresses_spec(ls: Seq<Seq<char>>) -> Seq<Seq<char>>
    decreases ls.len(),
{
    if ls.len() == 0 {
        seq![]
    } else {
        let rest = addresses_spec(ls.drop_last());
        match address_after_inet(words(ls.last())) {
            Some(a) => rest.push(a),
            None => rest,
        }
    }
}

/// The addresses in the output of `ip -o addr show`.
pub fn parse_ip_addresses(output: &str) -> (r: Vec<String>)
    ensures
        views(r@) == addresses_spec(lines(output@)),
{
    let ls = split_lines(&chars_of(output));
    let ghost lv = lines(output@);
    let mut r: Vec<String> = Vec::new();
    let mut i: usize = 0;
    while i < ls.len()
        invariant
            i <= ls.len(),
            ls@.len() == lv.len(),
            lv == lines(output@),
            forall|k: int| 0 <= k < ls@.len() ==> #[trigger] ls@[k]@ == lv[k],
            views(r@) == addresses_spec(lv.take(i as int)),
        decreases ls.len() - i,
    {
        proof {
            assert(lv.take(i + 1).drop_last() == lv.take(i as int));
            assert(lv.take(i + 1).last() == ls@[i as int]@);
        }
        let ws = split_words(&ls[i]);
        let ghost wv = ws@.map_values(|w: Vec<char>| w@);
        proof {
            assert(wv =~= words(ls@[i as int]@));
            assert(wv.skip(0) == wv);
        }
        let mut k: usize = 0;
        let mut found: Option<String> = None;
        while k < ws.len()
            invariant_except_break
                found is None,
                address_after_inet(wv) == address_after_inet(wv.skip(k as int)),
            invariant
                k <= ws.len(),
                wv == ws@.map_values(|w: Vec<char>| w@),
            ensures
                ov(found) == address_after_inet(wv),
            decreases ws.len() - k,
        {
            proof {
                assert(wv.skip(k as int)[0] == ws@[k as int]@);
                assert(wv.skip(k as int).drop_first() == wv.skip(k + 1));
            }
            let w = string_of(&ws[k]);
            if str_eq(w.as_str(), "inet") || str_eq(w.as_str(), "inet6") {
                if k + 1 < ws.len() {
                    proof {
                        assert(wv.skip(k as int)[1] == ws@[k + 1]@);
                    }
                    found = Some(string_of(&ws[k + 1]));
                }
                break;
            }
            if k + 1 == ws.len() {
                proof {
                    assert(wv.skip(k + 1).len() == 0);
                }
            }
            k = k + 1;
        }
        if let Some(a) = found {
            let ghost before = views(r@);
            r.push(a);
            proof {
                assert(views(r@) =~= before.push(r@.last()@));
            }
        }
        i = i + 1;
    }
    proof {
        assert(lv.take(ls@.len() as int) == lv);
    }
    r
}


// ---------------------------------------------------------------------------
// iwctl tables
// ---------------------------------------------------------------------------

/// Reading `iwctl known-networks list`: after the `Known networks` heading,
/// each row that is not a rule or the header names a network in its first
/// column.
pub open spec fn known_fold(ls: Seq<Seq<char>>) -> (bool, Seq<Seq<char>>)
    decreases ls.len(),
{
    if ls.len() == 0 {
        (false, seq![])
    } else {
        let (in_table, names) = known_fold(ls.drop_last());
        let line = trim_end(ls.last());
        if trim(line).len() == 0 {
            (in_table, names)
        } else if !in_table {
            (contains_seq(line, "Known networks"@), names)
        } else if has_prefix(trim_start(line), "-"@) || contains_seq(line, "Name"@) {
            (in_table, names)
        } else {
            let cols = columns_spec(trim(line));
            if cols.len() > 0 && trim(cols[0]).len() > 0 {
                (in_table, names.push(trim(cols[0])))
            } else {
                (in_table, names)
            }
        }
    }
}

fn has(s: &[char], t: &str) -> (r: bool)
    ensures
        r == contains_seq(s@, t@),
{
    contains_chars(s, &chars_of(t))
}

fn begins(s: &[char], t: &str) -> (r: bool)
    ensures
        r == has_prefix(s@, t@),
{
    starts_with_chars(s, &chars_of(t))
}

/// The names of the known networks in the output of `iwctl known-networks
/// list`.
pub fn known_network_names(output: &str) -> (r: Vec<String>)
    ensures
        views(r@) == known_fold(lines(output@)).1,
{
    let ls = split_lines(&chars_of(output));
    let ghost lv = lines(output@);
    let mut in_table = false;
    let mut names: Vec<String> = Vec::new();
    let mut i: usize = 0;
    while i < ls.len()
        invariant
            i <= ls.len(),
            ls@.len() == lv.len(),
            lv == lines(output@),
            forall|k: int| 0 <= k < ls@.len() ==> #[trigger] ls@[k]@ == lv[k],
            known_fold(lv.take(i as int)) == (in_table, views(names@)),
        decreases ls.len() - i,
    {
        proof {
            assert(lv.take(i + 1).drop_last() == lv.take(i as int));
            assert(lv.take(i + 1).last() == ls@[i as int]@);
        }
        let line = trim_end_chars(&ls[i]);
        let t = trim_chars(&line);
        if t.len() == 0 {
        } else if !in_table {
            in_table = has(&line, "Known networks");
        } else if begins(&trim_start_chars(&line), "-") || has(&line, "Name") {
        } else {
            let cols = split_columns(string_of(&t).as_str());
            if cols.len() > 0 {
                let name = trim_chars(&chars_of(cols[0].as_str()));
                if name.len() > 0 {
                    let ghost before = views(names@);
                    names.push(string_of(&name));
                    proof {
                        assert(views(names@) =~= before.push(name@));
                    }
                }
            }
        }
        i = i + 1;
    }
    proof {
        assert(lv.take(ls@.len() as int) == lv);
    }
    names
}

/// Number of leading `>`, `*` and white-space characters.
pub open spec fn leading_marks(s: Seq<char>) -> nat
    decreases s.len(),
{
    if s.len() > 0 && (s[0] == '>' || s[0] == '*' || crate::text::is_white(s[0])) {
        1 + leading_marks(s.drop_first())
    } else {
        0
    }
}

/// A scanned network as values: name, secured, known, connected, signal.
pub open spec fn net_view(n: WifiNetwork) -> (Seq<char>, bool, bool, bool, Seq<char>) {
    (n.ssid@, n.secured, n.known, n.connected, n.signal@)
}

/// The networks in a row of `iwctl station <if> get-networks`, if the row
/// lists one: `>` marks the connected one; a security of nothing, `open` or
/// `none` (in any case) means an open network.
pub open spec fn network_row(line: Seq<char>, known: Seq<Seq<char>>) -> Option<(Seq<char>, bool, bool, bool, Seq<char>)> {
    let connected = has_prefix(trim_start(line), ">"@);
    let cleaned = trim(line.skip(leading_marks(line) as int));
    let cols = columns_spec(cleaned);
    if cleaned.len() == 0 || cols.len() == 0 || trim(cols[0]).len() == 0 {
        None
    } else {
        let ssid = trim(cols[0]);
        let security = if cols.len() > 1 { cols[1] } else { ""@ };
        let signal = if cols.len() > 2 { cols[2] } else { ""@ };
        let lower = ascii_lower(security);
        let secured = !(lower.len() == 0 || lower == "open"@ || lower == "none"@);
        Some((ssid, secured, known.contains(ssid), connected, signal))
    }
}

/// Reading `iwctl station <if> get-networks`: after the `Available
/// networks` heading, each row that is not a rule or the header lists one
/// network.
pub open spec fn scan_fold(ls: Seq<Seq<char>>, known: Seq<Seq<char>>) -> (bool, Seq<(Seq<char>, bool, bool, bool, Seq<char>)>)
    decreases ls.len(),
{
    if ls.len() == 0 {
        (false, seq![])
    } else {
        let (in_table, nets) = scan_fold(ls.drop_last(), known);
        let line = trim_end(ls.last());
        if trim(line).len() == 0 {
            (in_table, nets)
        } else if !in_table {
            (contains_seq(line, "Available networks"@), nets)
        } else if has_prefix(trim_start(line), "-"@) || contains_seq(line, "Network name"@) {
            (in_table, nets)
        } else {
            match network_row(line, known) {
                Some(n) => (in_table, nets.push(n)),
                None => (in_table, nets),
            }
        }
    }
}

proof fn lemma_leading_marks(s: Seq<char>, i: int)
    requires
        0 <= i <= s.len(),
        forall|j: int| 0 <= j < i ==> (#[trigger] s[j] == '>' || s[j] == '*' || crate::text::is_white(s[j])),
        i == s.len() || !(s[i] == '>' || s[i] == '*' || crate::text::is_white(s[i])),
    ensures
        leading_marks(s) == i,
    decreases i,
{
    if i > 0 {
        lemma_leading_marks(s.drop_first(), i - 1);
    }
}

fn contains_name(known: &Vec<String>, name: &str) -> (r: bool)
    ensures
        r == views(known@).contains(name@),
{
    let mut i: usize = 0;
    while i < known.len()
        invariant
            i <= known.len(),
            forall|j: int| 0 <= j < i ==> known@[j]@ != name@,
        decreases known.len() - i,
    {
        if str_eq(known[i].as_str(), name) {
            assert(views(known@)[i as int] == name@);
            return true;
        }
        i = i + 1;
    }
    proof {
        if views(known@).contains(name@) {
            let j = choose|j: int| 0 <= j < views(known@).len() && views(known@)[j] == name@;
            assert(known@[j]@ == name@);
        }
    }
    false
}

fn network_row_exec(line: &[char], known: &Vec<String>) -> (r: Option<WifiNetwork>)
    ensures
        match r {
            Some(n) => network_row(line@, views(known@)) == Some(net_view(n)),
            None => network_row(line@, views(known@)) is None,
        },
{
    let connected = begins(&trim_start_chars(line), ">");
    let mut k: usize = 0;
    while k < line.len() && (line[k] == '>' || line[k] == '*' || crate::text::is_white_char(line[k]))
        invariant
            k <= line.len(),
            forall|j: int| 0 <= j < k ==> (#[trigger] line@[j] == '>' || line@[j] == '*' || crate::text::is_white(line@[j])),
        decreases line.len() - k,
    {
        k = k + 1;
    }
    proof {
        lemma_leading_marks(line@, k as int);
    }
    let cleaned = trim_chars(&slice_from(line, k));
    if cleaned.len() == 0 {
        return None;
    }
    let cols = split_columns(string_of(&cleaned).as_str());
    if cols.len() == 0 {
        return None;
    }
    let ssid = trim_chars(&chars_of(cols[0].as_str()));
    if ssid.len() == 0 {
        return None;
    }
    proof {
        reveal_strlit("");
    }
    let security = if cols.len() > 1 { cols[1].clone() } else { String::new() };
    let signal = if cols.len() > 2 { cols[2].clone() } else { String::new() };
    let lower = lower_chars(&chars_of(security.as_str()));
    let ls = string_of(&lower);
    let secured = !(lower.len() == 0 || str_eq(ls.as_str(), "open") || str_eq(ls.as_str(), "none"));
    let ssid_s = string_of(&ssid);
    let is_known = contains_name(known, ssid_s.as_str());
    proof {
        assert(security@ == (if cols@.len() > 1 { views(cols@)[1] } else { ""@ }));
        assert(signal@ == (if cols@.len() > 2 { views(cols@)[2] } else { ""@ }));
    }
    Some(WifiNetwork { ssid: ssid_s, secured, known: is_known, connected, signal })
}

/// The networks listed by `iwctl station <if> get-networks`, marked known
/// when `known` names them.
pub fn parse_networks(output: &str, known: &Vec<String>) -> (r: Vec<WifiNetwork>)
    ensures
        r@.map_values(|n: WifiNetwork| net_view(n)) == scan_fold(lines(output@), views(known@)).1,
{
    let ls = split_lines(&chars_of(output));
    let ghost lv = lines(output@);
    let ghost kv = views(known@);
    let mut in_table = false;
    let mut nets: Vec<WifiNetwork> = Vec::new();
    let mut i: usize = 0;
    while i < ls.len()
        invariant
            i <= ls.len(),
            ls@.len() == lv.len(),
            lv == lines(output@),
            kv == views(known@),
            forall|k: int| 0 <= k < ls@.len() ==> #[trigger] ls@[k]@ == lv[k],
            scan_fold(lv.take(i as int), kv) == (in_table, nets@.map_values(|n: WifiNetwork| net_view(n))),
        decreases ls.len() - i,
    {
        proof {
            assert(lv.take(i + 1).drop_last() == lv.take(i as int));
            assert(lv.take(i + 1).last() == ls@[i as int]@);
        }
        let line = trim_end_chars(&ls[i]);
        let t = trim_chars(&line);
        if t.len() == 0 {
        } else if !in_table {
            in_table = has(&line, "Available networks");
        } else if begins(&trim_start_chars(&line), "-") || has(&line, "Network name") {
        } else {
            if let Some(n) = network_row_exec(&line, known) {
                let ghost before = nets@.map_values(|n: WifiNetwork| net_view(n));
                nets.push(n);
                proof {
                    assert(nets@.map_values(|n: WifiNetwork| net_view(n)) =~= before.push(net_view(nets@.last())));
                }
            }
        }
        i = i + 1;
    }
    proof {
        assert(lv.take(ls@.len() as int) == lv);
    }
    nets
}

/// Marks each network connected when it is `connected_ssid` and known when
/// `known` names it.
pub fn refresh_network_status(networks: &mut Vec<WifiNetwork>, connected_ssid: Option<&str>, known: &Vec<String>)
    ensures
        final(networks)@.len() == old(networks)@.len(),
        forall|i: int| 0 <= i < final(networks)@.len() ==> {
            let n = #[trigger] final(networks)@[i];
            let o = old(networks)@[i];
            &&& n.ssid == o.ssid
            &&& n.secured == o.secured
            &&& n.signal == o.signal
            &&& n.connected == (match connected_ssid {
                Some(c) => c@ == o.ssid@,
                None => false,
            })
            &&& n.known == views(known@).contains(o.ssid@)
        },
{
    let ghost before = networks@;
    let mut i: usize = 0;
    while i < networks.len()
        invariant
            i <= networks.len(),
            networks@.len() == before.len(),
            forall|j: int| i <= j < networks@.len() ==> #[trigger] networks@[j] == before[j],
            forall|j: int| 0 <= j < i ==> {
                let n = #[trigger] networks@[j];
                let o = before[j];
                &&& n.ssid == o.ssid
                &&& n.secured == o.secured
                &&& n.signal == o.signal
                &&& n.connected == (match connected_ssid {
                    Some(c) => c@ == o.ssid@,
                    None => false,
                })
                &&& n.known == views(known@).contains(o.ssid@)
            },
        decreases networks.len() - i,
    {
        let connected = match connected_ssid {
            Some(c) => str_eq(c, networks[i].ssid.as_str()),
            None => false,
        };
        let is_known = contains_name(known, networks[i].ssid.as_str());
        let n = WifiNetwork {
            ssid: networks[i].ssid.clone(),
            secured: networks[i].secured,
            known: is_known,
            connected,
            signal: networks[i].signal.clone(),
        };
        networks.set(i, n);
        i = i + 1;
    }
}


// ---------------------------------------------------------------------------
// The status line
// ---------------------------------------------------------------------------

/// What the system reported about the network hardware and service.
#[derive(Debug, Clone)]
pub struct WifiProbe {
    pub interface_name: Option<String>,
    pub ethernet_interface: Option<String>,
    pub ethernet_ipv4_addresses: Vec<String>,
    pub ethernet_ipv6_addresses: Vec<String>,
    pub iwd_state: IwdServiceState,
    /// The connection facts; only used when Wi-Fi is enabled, the service
    /// is active and there is a wireless interface.
    pub connection: WifiConnectionInfo,
}

/// The saved network name, trimmed; none when it is empty.
pub open spec fn saved_spec(saved: Option<Seq<char>>) -> Option<Seq<char>> {
    match saved {
        Some(s) => if trim(s).len() > 0 { Some(trim(s)) } else { None },
        None => None,
    }
}

/// The detail line of a Wi-Fi connection.
pub open spec fn connected_detail(v4: Seq<Seq<char>>, v6: Seq<Seq<char>>, security: Option<Seq<char>>) -> Seq<char> {
    "Connected over Wi-Fi."@ + (if v4.len() > 0 {
        " IPv4: "@ + join(v4, ", "@) + "."@
    } else {
        " No IPv4 address assigned."@
    }) + (if v6.len() > 0 { " IPv6: "@ + join(v6, ", "@) + "."@ } else { ""@ }) + match security {
        Some(s) => " Security: "@ + s + "."@,
        None => ""@,
    }
}

/// The title and detail of the network status.
pub open spec fn status_text(
    enabled: bool,
    saved: Option<Seq<char>>,
    has_interface: bool,
    ethernet: Option<Seq<char>>,
    state: IwdServiceState,
    connected: Option<Seq<char>>,
    v4: Seq<Seq<char>>,
    v6: Seq<Seq<char>>,
    security: Option<Seq<char>>,
) -> (Seq<char>, Seq<char>) {
    if !enabled {
        ("Disabled"@, "Enable Wi-Fi to scan and connect to a network."@)
    } else if !has_interface {
        ("Unavailable"@, "No wireless interface was detected."@)
    } else if state == IwdServiceState::Failed {
        ("Failed"@, "Wi-Fi service failed to start. Check iwd.service on the system image."@)
    } else if state == IwdServiceState::Inactive || state == IwdServiceState::Unknown {
        ("Offline"@, "Wi-Fi service is not running."@)
    } else if state != IwdServiceState::Active {
        (
            match saved {
                Some(s) => s,
                None => "Starting..."@,
            },
            "Wi-Fi service is still starting."@,
        )
    } else if ethernet is Some {
        (
            match connected {
                Some(c) => c,
                None => match saved {
                    Some(s) => s,
                    None => "Ethernet active"@,
                },
            },
            "Ethernet is active on "@ + ethernet->0 + ". Wi-Fi is on standby."@,
        )
    } else if connected is Some {
        (connected->0, connected_detail(v4, v6, security))
    } else if saved is Some {
        (saved->0, "Trying saved Wi-Fi network when available."@)
    } else {
        ("Setup needed"@, "Select a network and save its settings."@)
    }
}

fn joined(parts: &Vec<String>) -> (r: String)
    ensures
        r@ == join(views(parts@), ", "@),
{
    join_strings(parts, ", ")
}

fn copy_strings(v: &Vec<String>) -> (r: Vec<String>)
    ensures
        views(r@) == views(v@),
{
    let mut r: Vec<String> = Vec::new();
    let mut i: usize = 0;
    while i < v.len()
        invariant
            i <= v.len(),
            views(r@) == views(v@.take(i as int)),
        decreases v.len() - i,
    {
        let ghost before = r@;
        r.push(v[i].clone());
        proof {
            assert(views(r@) =~= views(before).push(v@[i as int]@));
            assert(v@.take(i + 1) == v@.take(i as int).push(v@[i as int]));
            assert(views(v@.take(i + 1)) =~= views(v@.take(i as int)).push(v@[i as int]@));
        }
        i = i + 1;
    }
    assert(v@.take(v@.len() as int) == v@);
    r
}

fn copy_opt(o: &Option<String>) -> (r: Option<String>)
    ensures
        ov(r) == ov(*o),
{
    match o {
        Some(s) => Some(s.clone()),
        None => None,
    }
}

/// The network status for the settings screen: Wi-Fi `enabled` or not,
/// the saved network, and what the system reported.
pub fn read_status(enabled: bool, saved_ssid: Option<&str>, probe: WifiProbe) -> (st: WifiStatus)
    ensures
        ({
            let use_conn = enabled && probe.iwd_state == IwdServiceState::Active && probe.interface_name is Some;
            let conn_ssid = if use_conn { ov(probe.connection.ssid) } else { None };
            let v4 = if use_conn { views(probe.connection.ipv4_addresses@) } else { seq![] };
            let v6 = if use_conn { views(probe.connection.ipv6_addresses@) } else { seq![] };
            let security = if use_conn { ov(probe.connection.security) } else { None };
            let saved = saved_spec(match saved_ssid {
                Some(s) => Some(s@),
                None => None,
            });
            let (title, detail) = status_text(
                enabled,
                saved,
                probe.interface_name is Some,
                ov(probe.ethernet_interface),
                probe.iwd_state,
                conn_ssid,
                v4,
                v6,
                security,
            );
            &&& ov(st.interface_name) == ov(probe.interface_name)
            &&& ov(st.ethernet_interface) == ov(probe.ethernet_interface)
            &&& st.ethernet_active == probe.ethernet_interface is Some
            &&& views(st.ethernet_ipv4_addresses@) == views(probe.ethernet_ipv4_addresses@)
            &&& views(st.ethernet_ipv6_addresses@) == views(probe.ethernet_ipv6_addresses@)
            &&& ov(st.connected_ssid) == conn_ssid
            &&& ov(st.saved_ssid) == saved
            &&& views(st.ipv4_addresses@) == v4
            &&& views(st.ipv6_addresses@) == v6
            &&& ov(st.security) == security
            &&& st.title@ == title
            &&& st.detail@ == detail
        }),
{
    proof {
        reveal_strlit("");
    }
    let iwd_active = probe.iwd_state == IwdServiceState::Active;
    let use_conn = enabled && iwd_active && probe.interface_name.is_some();
    let (connected_ssid, ipv4, ipv6, security) = if use_conn {
        (
            copy_opt(&probe.connection.ssid),
            copy_strings(&probe.connection.ipv4_addresses),
            copy_strings(&probe.connection.ipv6_addresses),
            copy_opt(&probe.connection.security),
        )
    } else {
        (None, Vec::new(), Vec::new(), None)
    };
    proof {
        if !use_conn {
            assert(views(ipv4@) =~= Seq::<Seq<char>>::empty());
            assert(views(ipv6@) =~= Seq::<Seq<char>>::empty());
        }
    }
    let saved = match saved_ssid {
        Some(s) => {
            let t = trim_chars(&chars_of(s));
            if t.len() > 0 { Some(string_of(&t)) } else { None }
        },
        None => None,
    };
    let ethernet_active = probe.ethernet_interface.is_some();
    let (title, detail) = if !enabled {
        (owned("Disabled"), owned("Enable Wi-Fi to scan and connect to a network."))
    } else if probe.interface_name.is_none() {
        (owned("Unavailable"), owned("No wireless interface was detected."))
    } else if probe.iwd_state == IwdServiceState::Failed {
        (owned("Failed"), owned("Wi-Fi service failed to start. Check iwd.service on the system image."))
    } else if probe.iwd_state == IwdServiceState::Inactive || probe.iwd_state == IwdServiceState::Unknown {
        (owned("Offline"), owned("Wi-Fi service is not running."))
    } else if !iwd_active {
        (
            match &saved {
                Some(s) => s.clone(),
                None => owned("Starting..."),
            },
            owned("Wi-Fi service is still starting."),
        )
    } else if ethernet_active {
        let title = match &connected_ssid {
            Some(c) => c.clone(),
            None => match &saved {
                Some(s) => s.clone(),
                None => owned("Ethernet active"),
            },
        };
        let mut detail = owned("Ethernet is active on ");
        match &probe.ethernet_interface {
            Some(e) => push_str(&mut detail, e.as_str()),
            None => push_str(&mut detail, "wired"),
        }
        push_str(&mut detail, ". Wi-Fi is on standby.");
        (title, detail)
    } else if let Some(ssid) = &connected_ssid {
        let mut detail = owned("Connected over Wi-Fi.");
        if ipv4.len() > 0 {
            push_str(&mut detail, " IPv4: ");
            push_str(&mut detail, joined(&ipv4).as_str());
            push_str(&mut detail, ".");
        } else {
            push_str(&mut detail, " No IPv4 address assigned.");
        }
        let ghost d1 = detail@;
        if ipv6.len() > 0 {
            push_str(&mut detail, " IPv6: ");
            push_str(&mut detail, joined(&ipv6).as_str());
            push_str(&mut detail, ".");
        } else {
            assert(d1 + ""@ =~= d1);
        }
        let ghost d2 = detail@;
        if let Some(sec) = &security {
            push_str(&mut detail, " Security: ");
            push_str(&mut detail, sec.as_str());
            push_str(&mut detail, ".");
        } else {
            assert(d2 + ""@ =~= d2);
        }
        (ssid.clone(), detail)
    } else if let Some(s) = &saved {
        (s.clone(), owned("Trying saved Wi-Fi network when available."))
    } else {
        (owned("Setup needed"), owned("Select a network and save its settings."))
    };
    WifiStatus {
        interface_name: probe.interface_name,
        ethernet_interface: probe.ethernet_interface,
        ethernet_active,
        ethernet_ipv4_addresses: probe.ethernet_ipv4_addresses,
        ethernet_ipv6_addresses: probe.ethernet_ipv6_addresses,
        connected_ssid,
        saved_ssid: saved,
        ipv4_addresses: ipv4,
        ipv6_addresses: ipv6,
        security,
        title,
        detail,
    }
}

// ---------------------------------------------------------------------------
// Interfaces and the iwd service
// ---------------------------------------------------------------------------

/// A network interface under `/sys/class/net`, with its `carrier` and
/// `operstate` files read and trimmed (`None` when unreadable).
#[derive(Debug, Clone)]
pub struct NetInterface {
    pub name: String,
    pub wireless: bool,
    pub carrier: Option<String>,
    pub operstate: Option<String>,
}

/// The interface is an active wired one: not loopback, not wireless, with
/// carrier and up (or of unknown state).
pub open spec fn active_wired(i: NetInterface) -> bool {
    &&& i.name@ != "lo"@
    &&& !i.wireless
    &&& ov(i.carrier) == Some("1"@)
    &&& (ov(i.operstate) == Some("up"@) || ov(i.operstate) == Some("unknown"@))
}

/// The first interface, in the order listed, that satisfies `p`.
pub open spec fn first_interface(ifs: Seq<NetInterface>, wired: bool) -> Option<Seq<char>>
    decreases ifs.len(),
{
    if ifs.len() == 0 {
        None
    } else if (wired && active_wired(ifs[0])) || (!wired && ifs[0].wireless) {
        Some(ifs[0].name@)
    } else {
        first_interface(ifs.drop_first(), wired)
    }
}

/// Which interface is taken as the active wired one: the first in the list
/// that is not the loopback, not wireless, has carrier "1" and whose state
/// is "up" or "unknown"; none when no interface is so.
pub proof fn lemma_active_ethernet(ifs: Seq<NetInterface>)
    ensures
        forall|i: int| #![trigger ifs[i]]
            0 <= i < ifs.len() && ifs[i].name@ != "lo"@ && !ifs[i].wireless && ov(ifs[i].carrier) == Some("1"@)
                && (ov(ifs[i].operstate) == Some("up"@) || ov(ifs[i].operstate) == Some("unknown"@))
                && (forall|j: int| 0 <= j < i ==> !(ifs[j].name@ != "lo"@ && !ifs[j].wireless && ov(ifs[j].carrier)
                    == Some("1"@) && (ov(ifs[j].operstate) == Some("up"@) || ov(ifs[j].operstate) == Some("unknown"@))))
                ==> first_interface(ifs, true) == Some(ifs[i].name@),
        (forall|j: int| 0 <= j < ifs.len() ==> !(ifs[j].name@ != "lo"@ && !ifs[j].wireless && ov(ifs[j].carrier)
            == Some("1"@) && (ov(ifs[j].operstate) == Some("up"@) || ov(ifs[j].operstate) == Some("unknown"@))))
            ==> first_interface(ifs, true) is None,
    decreases ifs.len(),
{
    if ifs.len() > 0 {
        let rest = ifs.drop_first();
        lemma_active_ethernet(rest);
        assert forall|i: int| #![trigger ifs[i]]
            0 <= i < ifs.len() && ifs[i].name@ != "lo"@ && !ifs[i].wireless && ov(ifs[i].carrier) == Some("1"@)
                && (ov(ifs[i].operstate) == Some("up"@) || ov(ifs[i].operstate) == Some("unknown"@))
                && (forall|j: int| 0 <= j < i ==> !(ifs[j].name@ != "lo"@ && !ifs[j].wireless && ov(ifs[j].carrier)
                    == Some("1"@) && (ov(ifs[j].operstate) == Some("up"@) || ov(ifs[j].operstate) == Some("unknown"@))))
            implies first_interface(ifs, true) == Some(ifs[i].name@) by {
            if i > 0 {
                assert(!active_wired(ifs[0]));
                assert(rest[i - 1] == ifs[i]);
                assert forall|j: int| 0 <= j < i - 1 implies !(rest[j].name@ != "lo"@ && !rest[j].wireless
                    && ov(rest[j].carrier) == Some("1"@) && (ov(rest[j].operstate) == Some("up"@)
                    || ov(rest[j].operstate) == Some("unknown"@))) by {
                    assert(rest[j] == ifs[j + 1]);
                }
            }
        }
        if forall|j: int| 0 <= j < ifs.len() ==> !(ifs[j].name@ != "lo"@ && !ifs[j].wireless && ov(ifs[j].carrier)
            == Some("1"@) && (ov(ifs[j].operstate) == Some("up"@) || ov(ifs[j].operstate) == Some("unknown"@))) {
            assert(!active_wired(ifs[0]));
            assert forall|j: int| 0 <= j < rest.len() implies !(rest[j].name@ != "lo"@ && !rest[j].wireless
                && ov(rest[j].carrier) == Some("1"@) && (ov(rest[j].operstate) == Some("up"@)
                || ov(rest[j].operstate) == Some("unknown"@))) by {
                assert(rest[j] == ifs[j + 1]);
            }
        }
    }
}

/// Which interface is taken as the Wi-Fi one: the first wireless one in
/// the list; none when no interface is wireless.
pub proof fn lemma_wifi_interface(ifs: Seq<NetInterface>)
    ensures
        forall|i: int| #![trigger ifs[i]]
            0 <= i < ifs.len() && ifs[i].wireless && (forall|j: int| 0 <= j < i ==> !ifs[j].wireless)
                ==> first_interface(ifs, false) == Some(ifs[i].name@),
        (forall|j: int| 0 <= j < ifs.len() ==> !ifs[j].wireless) ==> first_interface(ifs, false) is None,
    decreases ifs.len(),
{
    if ifs.len() > 0 {
        let rest = ifs.drop_first();
        lemma_wifi_interface(rest);
        assert forall|i: int| #![trigger ifs[i]]
            0 <= i < ifs.len() && ifs[i].wireless && (forall|j: int| 0 <= j < i ==> !ifs[j].wireless)
            implies first_interface(ifs, false) == Some(ifs[i].name@) by {
            if i > 0 {
                assert(!ifs[0].wireless);
                assert(rest[i - 1] == ifs[i]);
                assert forall|j: int| 0 <= j < i - 1 implies !rest[j].wireless by {
                    assert(rest[j] == ifs[j + 1]);
                }
            }
        }
        if forall|j: int| 0 <= j < ifs.len() ==> !ifs[j].wireless {
            assert(!ifs[0].wireless);
            assert forall|j: int| 0 <= j < rest.len() implies !rest[j].wireless by {
                assert(rest[j] == ifs[j + 1]);
            }
        }
    }
}

fn eq_opt(o: &Option<String>, t: &str) -> (r: bool)
    ensures
        r == (ov(*o) == Some(t@)),
{
    match o {
        Some(s) => str_eq(s.as_str(), t),
        None => false,
    }
}

fn pick_interface(ifs: &Vec<NetInterface>, wired: bool) -> (r: Option<String>)
    ensures
        ov(r) == first_interface(ifs@, wired),
{
    let mut i: usize = 0;
    assert(ifs@.skip(0) == ifs@);
    while i < ifs.len()
        invariant
            i <= ifs.len(),
            first_interface(ifs@, wired) == first_interface(ifs@.skip(i as int), wired),
        decreases ifs.len() - i,
    {
        let f = &ifs[i];
        proof {
            assert(ifs@.skip(i as int)[0] == ifs@[i as int]);
            assert(ifs@.skip(i as int).drop_first() == ifs@.skip(i + 1));
        }
        let ok = if wired {
            !str_eq(f.name.as_str(), "lo") && !f.wireless && eq_opt(&f.carrier, "1") && (eq_opt(&f.operstate, "up")
                || eq_opt(&f.operstate, "unknown"))
        } else {
            f.wireless
        };
        if ok {
            return Some(f.name.clone());
        }
        i = i + 1;
    }
    None
}

/// The first wireless interface.
pub fn wifi_interface(ifs: &Vec<NetInterface>) -> (r: Option<String>)
    ensures
        ov(r) == first_interface(ifs@, false),
{
    pick_interface(ifs, false)
}

/// The first active wired interface.
pub fn active_ethernet_interface(ifs: &Vec<NetInterface>) -> (r: Option<String>)
    ensures
        ov(r) == first_interface(ifs@, true),
{
    pick_interface(ifs, true)
}

/// While waiting for iwd: an active service is ready, a failed or inactive
/// one ends the wait with an error, otherwise (`None`) keep waiting.
pub fn iwd_wait_step(state: IwdServiceState) -> (r: Option<Result<(), String>>)
    ensures
        state == IwdServiceState::Active ==> r == Some(Ok::<(), String>(())),
        state == IwdServiceState::Failed ==> (r matches Some(Err(e)) && e@
            == "Wi-Fi service failed to start. Check iwd.service and the read-only rootfs override."@),
        state == IwdServiceState::Inactive ==> (r matches Some(Err(e)) && e@ == "Wi-Fi service is not running."@),
        (state == IwdServiceState::Activating || state == IwdServiceState::Unknown) ==> r is None,
{
    match state {
        IwdServiceState::Active => Some(Ok(())),
        IwdServiceState::Failed => Some(Err(owned("Wi-Fi service failed to start. Check iwd.service and the read-only rootfs override."))),
        IwdServiceState::Inactive => Some(Err(owned("Wi-Fi service is not running."))),
        _ => None,
    }
}

/// The outcome when the wait for iwd timed out, from the last state.
pub fn iwd_wait_timeout(state: IwdServiceState) -> (r: Result<(), String>)
    ensures
        state == IwdServiceState::Active ==> r is Ok,
        state == IwdServiceState::Failed ==> (r matches Err(e) && e@
            == "Wi-Fi service failed to start. Check iwd.service and the read-only rootfs override."@),
        state == IwdServiceState::Inactive ==> (r matches Err(e) && e@ == "Wi-Fi service is not running."@),
        (state == IwdServiceState::Activating || state == IwdServiceState::Unknown) ==> (r matches Err(e) && e@
            == "Wi-Fi service is still starting. Try again in a moment."@),
{
    match iwd_wait_step(state) {
        Some(r) => r,
        None => Err(owned("Wi-Fi service is still starting. Try again in a moment.")),
    }
}

/// The first of the cleaned error output, the cleaned standard output, or
/// `fallback`, that is not empty.
pub open spec fn command_details(stderr: Seq<char>, stdout: Seq<char>, fallback: Seq<char>) -> Seq<char> {
    if sanitized(stderr).len() > 0 {
        sanitized(stderr)
    } else if sanitized(stdout).len() > 0 {
        sanitized(stdout)
    } else {
        fallback
    }
}

/// The first of the cleaned error output, the cleaned standard output, or
/// `fallback`, that is not empty.
pub fn connect_failure_details(stderr: &str, stdout: &str, fallback: &str) -> (r: String)
    ensures
        r@ == command_details(stderr@, stdout@, fallback@),
{
    let e = sanitize_command_output(stderr);
    if e.unicode_len() > 0 {
        return e;
    }
    let o = sanitize_command_output(stdout);
    if o.unicode_len() > 0 {
        return o;
    }
    owned(fallback)
}

/// The result of an `iwctl` run: its cleaned output on success, else an
/// error with the cleaned error output, output, or the exit status text.
pub fn iwctl_outcome(success: bool, stdout: &str, stderr: &str, status_text: &str) -> (r: Result<String, String>)
    ensures
        success ==> (r matches Ok(o) && o@ == sanitized(stdout@)),
        !success ==> (r matches Err(e) && e@ == (if sanitized(stderr@).len() > 0 {
            "iwctl failed: "@ + sanitized(stderr@)
        } else if sanitized(stdout@).len() > 0 {
            "iwctl failed: "@ + sanitized(stdout@)
        } else {
            "iwctl failed with status "@ + status_text@
        })),
{
    let out = sanitize_command_output(stdout);
    if success {
        return Ok(out);
    }
    let err = sanitize_command_output(stderr);
    if err.unicode_len() > 0 {
        let mut m = owned("iwctl failed: ");
        push_str(&mut m, err.as_str());
        Err(m)
    } else if out.unicode_len() > 0 {
        let mut m = owned("iwctl failed: ");
        push_str(&mut m, out.as_str());
        Err(m)
    } else {
        let mut m = owned("iwctl failed with status ");
        push_str(&mut m, status_text);
        Err(m)
    }
}

/// The error of an `iwctl` run that timed out after `seconds`.
pub fn iwctl_timeout_message(stdout: &str, stderr: &str, seconds: u64) -> (r: String)
    ensures
        r@ == "iwctl timed out after "@ + crate::text::decimal(seconds as nat) + "s: "@ + command_details(
            stderr@,
            stdout@,
            "no additional output"@,
        ),
{
    let details = connect_failure_details(stderr, stdout, "no additional output");
    let mut m = owned("iwctl timed out after ");
    crate::text::push_decimal(&mut m, seconds);
    push_str(&mut m, "s: ");
    push_str(&mut m, details.as_str());
    m
}

/// What keeping the connectivity policy asks for.
#[derive(Debug, Clone)]
pub enum ConnectivityAction {
    Nothing,
    /// Leave the Wi-Fi network.
    Disconnect,
    /// Join this saved network.
    Connect(String),
}

/// What keeping the connectivity policy asks for, from what was found out
/// in order: with Wi-Fi disabled, leave any network while iwd runs; with no
/// wireless interface, or iwd not ready, nothing; with a cable connected,
/// leave Wi-Fi; otherwise, when not connected, join the saved network
/// (trimmed, if not empty) if iwd knows it.
pub open spec fn connectivity_spec(
    enabled: bool,
    iwd_active: bool,
    has_interface: bool,
    iwd_ready: bool,
    ethernet_active: bool,
    connected: bool,
    saved: Option<Seq<char>>,
    known: Seq<Seq<char>>,
) -> Option<Option<Seq<char>>> {
    if !enabled {
        if iwd_active { Some(None) } else { None }
    } else if !has_interface || !iwd_ready {
        None
    } else if ethernet_active {
        Some(None)
    } else if !connected && saved_spec(saved) is Some && known.contains(saved_spec(saved)->0) {
        Some(Some(saved_spec(saved)->0))
    } else {
        None
    }
}

/// What keeping the connectivity policy asks for (`known` is only looked
/// at when a saved network might be joined).
pub fn connectivity_action(
    enabled: bool,
    iwd_active: bool,
    has_interface: bool,
    iwd_ready: bool,
    ethernet_active: bool,
    connected: bool,
    saved: Option<&str>,
    known: &Vec<String>,
) -> (r: ConnectivityAction)
    ensures
        match connectivity_spec(enabled, iwd_active, has_interface, iwd_ready, ethernet_active, connected,
            match saved { Some(s) => Some(s@), None => None }, known@.map_values(|k: String| k@)) {
            None => r is Nothing,
            Some(None) => r is Disconnect,
            Some(Some(ssid)) => r matches ConnectivityAction::Connect(s) && s@ == ssid,
        },
{
    if !enabled {
        return if iwd_active { ConnectivityAction::Disconnect } else { ConnectivityAction::Nothing };
    }
    if !has_interface || !iwd_ready {
        return ConnectivityAction::Nothing;
    }
    if ethernet_active {
        return ConnectivityAction::Disconnect;
    }
    if connected {
        return ConnectivityAction::Nothing;
    }
    let ghost sv = match saved { Some(s) => Some(s@), None => None::<Seq<char>> };
    let ghost kv = known@.map_values(|k: String| k@);
    match saved {
        None => ConnectivityAction::Nothing,
        Some(s) => {
            let t = string_of(&trim_chars(&chars_of(s)));
            if t.as_str().unicode_len() == 0 {
                return ConnectivityAction::Nothing;
            }
            assert(saved_spec(sv) == Some(t@));
            let mut i: usize = 0;
            while i < known.len()
                invariant
                    i <= known@.len(),
                    kv == known@.map_values(|k: String| k@),
                    enabled && has_interface && iwd_ready && !ethernet_active && !connected,
                    sv == (match saved { Some(s) => Some(s@), None => None::<Seq<char>> }),
                    saved_spec(sv) == Some(t@),
                    forall|j: int| 0 <= j < i ==> kv[j] != t@,
                decreases known.len() - i,
            {
                if str_eq(known[i].as_str(), t.as_str()) {
                    assert(kv[i as int] == t@);
                    assert(kv.contains(t@));
                    return ConnectivityAction::Connect(t);
                }
                i = i + 1;
            }
            ConnectivityAction::Nothing
        },
    }
}

} // verus!
