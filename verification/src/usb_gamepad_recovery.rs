use vstd::prelude::*;
use vstd::string::*;

use crate::keyboard_input::{first_word_with_prefix, trim_char, trim_char_exec};
use crate::text::{
    chars_of, contains_chars, contains_seq, first_with_prefix, has_prefix, index_of, index_of_char,
    lines, owned, slice_from, slice_range, split_lines, split_on, split_on_char, split_on_chars,
    split_seq, split_words, starts_with_chars, string_of, strip_prefix, trim, trim_chars, words,
    after_last, before_first, str_eq,
};

verus! {

broadcast use vstd::string::group_string_axioms;

/// The hub locations to power cycle when none are configured.
pub const DEFAULT_FALLBACK_HUB_LOCATION: &'static str = "1-1";

/// How many times the input devices are looked at while USB gamepads are
/// still being enumerated.
pub const DISCOVERY_RETRY_ATTEMPTS: usize = 12;

/// A USB gamepad found among the input devices.
#[derive(Debug, Clone)]
pub struct UsbGamepadCandidate {
    pub event_node: String,
    pub device_name: String,
}

/// `str::to_lowercase`: the Unicode lower case of a text.
pub uninterp spec fn unicode_lower(s: Seq<char>) -> Seq<char>;

/// The Unicode lower case of `s` (`str::to_lowercase`), which std computes
/// from the Unicode tables; the result is named, not restated.
#[verifier::external_body]
fn to_lowercase(s: &str) -> (r: String)
    ensures
        r@ == unicode_lower(s@),
{
    s.to_lowercase()
}

/// The trimmed value of the first line (trimmed) that begins with `prefix`
/// and a colon.
pub open spec fn block_value(ls: Seq<Seq<char>>, prefix: Seq<char>) -> Option<Seq<char>>
    decreases ls.len(),
{
    if ls.len() == 0 {
        None
    } else {
        let t = trim(ls[0]);
        if has_prefix(t, prefix) && has_prefix(t.skip(prefix.len() as int), ":"@) {
            Some(trim(t.skip(prefix.len() + 1int)))
        } else {
            block_value(ls.drop_first(), prefix)
        }
    }
}

/// The value of the `prefix:` line of a device block.
pub fn parse_proc_bus_value(block: &str, prefix: &str) -> (r: Option<String>)
    ensures
        match r {
            Some(v) => block_value(lines(block@), prefix@) == Some(v@),
            None => block_value(lines(block@), prefix@) is None,
        },
{
    let ls = split_lines(&chars_of(block));
    let ghost lv = lines(block@);
    let p = chars_of(prefix);
    let colon = chars_of(":");
    proof {
        reveal_strlit(":");
        assert(lv.skip(0) == lv);
    }
    let mut i: usize = 0;
    while i < ls.len()
        invariant
            i <= ls.len(),
            ls@.len() == lv.len(),
            lv == lines(block@),
            p@ == prefix@,
            colon@ == ":"@,
            colon@.len() == 1,
            forall|k: int| 0 <= k < ls@.len() ==> #[trigger] ls@[k]@ == lv[k],
            block_value(lv, prefix@) == block_value(lv.skip(i as int), prefix@),
        decreases ls.len() - i,
    {
        proof {
            assert(lv.skip(i as int)[0] == ls@[i as int]@);
            assert(lv.skip(i as int).drop_first() == lv.skip(i + 1));
        }
        let t = trim_chars(&ls[i]);
        if starts_with_chars(&t, &p) {
            let rest = slice_from(&t, p.len());
            if starts_with_chars(&rest, &colon) {
                proof {
                    assert(rest@.skip(1) == t@.skip(prefix@.len() + 1int));
                }
                return Some(string_of(&trim_chars(&slice_from(&rest, 1))));
            }
        }
        i = i + 1;
    }
    None
}

/// The device name of a block: the `N:` value after `Name=`, without
/// quotes; none when the value does not begin with `Name=`.
pub open spec fn block_name(block: Seq<char>) -> Option<Seq<char>> {
    match block_value(lines(block), "N"@) {
        None => None,
        Some(v) => if has_prefix(v, "Name="@) { Some(trim_char(v.skip(5), '"')) } else { None },
    }
}

/// The device name of a block.
pub fn parse_proc_bus_name(block: &str) -> (r: Option<String>)
    ensures
        match r {
            Some(v) => block_name(block@) == Some(v@),
            None => block_name(block@) is None,
        },
{
    let v = match parse_proc_bus_value(block, "N") {
        None => {
            return None;
        },
        Some(v) => chars_of(v.as_str()),
    };
    proof {
        reveal_strlit("Name=");
    }
    if starts_with_chars(&v, &chars_of("Name=")) {
        Some(string_of(&trim_char_exec(&slice_from(&v, 5), '"')))
    } else {
        None
    }
}

/// A word that begins with `js`.
pub open spec fn has_js_handler(ws: Seq<Seq<char>>) -> bool {
    exists|i: int| 0 <= i < ws.len() && has_prefix(#[trigger] ws[i], "js"@)
}

/// The lower-cased block names a kind of game controller.
pub open spec fn names_gamepad(l: Seq<char>) -> bool {
    ||| contains_seq(l, "controller"@)
    ||| contains_seq(l, "gamepad"@)
    ||| contains_seq(l, "dualshock"@)
    ||| contains_seq(l, "dualsense"@)
    ||| contains_seq(l, "xbox"@)
    ||| contains_seq(l, "switch"@)
    ||| contains_seq(l, "joy-con"@)
    ||| contains_seq(l, "pro controller"@)
    ||| contains_seq(l, "wireless controller"@)
    ||| contains_seq(l, "wired controller"@)
    ||| contains_seq(l, "8bitdo"@)
}

/// A device block is a USB gamepad: not a keyboard or mouse, and either a
/// joystick handler or a gamepad name.
pub open spec fn usb_gamepad_spec(block: Seq<char>, handlers: Seq<char>) -> bool {
    usb_gamepad_lowered_spec(unicode_lower(block), unicode_lower(handlers))
}

/// The rule of `usb_gamepad_spec` on a block and handlers already in lower
/// case.
pub open spec fn usb_gamepad_lowered_spec(lb: Seq<char>, lh: Seq<char>) -> bool {
    if contains_seq(lb, "keyboard"@) || contains_seq(lb, "mouse"@) {
        false
    } else {
        has_js_handler(words(lh)) || names_gamepad(lb)
    }
}

fn has(s: &[char], t: &str) -> (r: bool)
    ensures
        r == contains_seq(s@, t@),
{
    contains_chars(s, &chars_of(t))
}

/// Whether a device block with handlers `handlers` is a USB gamepad.
pub fn looks_like_usb_gamepad(block: &str, handlers: &str) -> (r: bool)
    ensures
        r == usb_gamepad_spec(block@, handlers@),
{
    let lower_block = to_lowercase(block);
    let lower_handlers = to_lowercase(handlers);
    looks_like_usb_gamepad_lowered(lower_block.as_str(), lower_handlers.as_str())
}

/// Whether a device block with handlers, both already in lower case, is a
/// USB gamepad.
pub fn looks_like_usb_gamepad_lowered(lower_block: &str, lower_handlers: &str) -> (r: bool)
    ensures
        r == usb_gamepad_lowered_spec(lower_block@, lower_handlers@),
{
    let lb = chars_of(lower_block);
    let lh = chars_of(lower_handlers);
    if has(&lb, "keyboard") || has(&lb, "mouse") {
        return false;
    }
    let ws = split_words(&lh);
    let js = chars_of("js");
    let mut i: usize = 0;
    while i < ws.len()
        invariant
            i <= ws.len(),
            js@ == "js"@,
            lb@ == lower_block@,
            lh@ == lower_handlers@,
            !contains_seq(lb@, "keyboard"@),
            !contains_seq(lb@, "mouse"@),
            ws@.len() == words(lh@).len(),
            forall|k: int| 0 <= k < ws@.len() ==> #[trigger] ws@[k]@ == words(lh@)[k],
            forall|k: int| 0 <= k < i ==> !has_prefix(#[trigger] words(lh@)[k], "js"@),
        decreases ws.len() - i,
    {
        if starts_with_chars(&ws[i], &js) {
            assert(has_prefix(words(lh@)[i as int], "js"@));
            return true;
        }
        i = i + 1;
    }
    has(&lb, "controller") || has(&lb, "gamepad") || has(&lb, "dualshock") || has(&lb, "dualsense") || has(&lb, "xbox")
        || has(&lb, "switch") || has(&lb, "joy-con") || has(&lb, "pro controller") || has(&lb, "wireless controller")
        || has(&lb, "wired controller") || has(&lb, "8bitdo")
}

/// The USB gamepad that a device block describes, if it describes one: an
/// `event` handler and a gamepad; the name defaults to the event node.
pub open spec fn candidate_of(block: Seq<char>) -> Option<(Seq<char>, Seq<char>)> {
    match block_value(lines(block), "H"@) {
        None => None,
        Some(h) => match first_word_with_prefix(words(h), "event"@) {
            None => None,
            Some(node) => if usb_gamepad_spec(block, h) {
                Some((node, match block_name(block) {
                    Some(n) => n,
                    None => node,
                }))
            } else {
                None
            },
        },
    }
}

/// The USB gamepads that a list of device blocks describes, in order.
pub open spec fn candidates_of(blocks: Seq<Seq<char>>) -> Seq<(Seq<char>, Seq<char>)>
    decreases blocks.len(),
{
    if blocks.len() == 0 {
        seq![]
    } else {
        let rest = candidates_of(blocks.drop_last());
        match candidate_of(blocks.last()) {
            Some(c) => rest.push(c),
            None => rest,
        }
    }
}

fn first_event_word(ws: &Vec<Vec<char>>) -> (r: Option<Vec<char>>)
    ensures
        match r {
            Some(v) => first_word_with_prefix(ws@.map_values(|p: Vec<char>| p@), "event"@) == Some(v@),
            None => first_word_with_prefix(ws@.map_values(|p: Vec<char>| p@), "event"@) is None,
        },
{
    let ghost views = ws@.map_values(|p: Vec<char>| p@);
    let p = chars_of("event");
    let mut i: usize = 0;
    assert(views.skip(0) == views);
    while i < ws.len()
        invariant
            i <= ws.len(),
            views == ws@.map_values(|p: Vec<char>| p@),
            p@ == "event"@,
            first_word_with_prefix(views, "event"@) == first_word_with_prefix(views.skip(i as int), "event"@),
        decreases ws.len() - i,
    {
        assert(views.skip(i as int)[0] == ws@[i as int]@);
        assert(views.skip(i as int).drop_first() == views.skip(i + 1));
        if starts_with_chars(&ws[i], &p) {
            return Some(slice_from(&ws[i], 0));
        }
        i = i + 1;
    }
    None
}

/// The USB gamepads (event node and name) listed in the text of
/// `/proc/bus/input/devices`, whose blocks are separated by blank lines.
pub fn usb_gamepad_candidates(contents: &str) -> (r: Vec<UsbGamepadCandidate>)
    ensures
        r@.map_values(|c: UsbGamepadCandidate| (c.event_node@, c.device_name@)) == candidates_of(split_seq(contents@, "\n\n"@)),
{
    let sep = chars_of("\n\n");
    proof {
        reveal_strlit("\n\n");
    }
    let blocks = split_on_chars(&chars_of(contents), &sep);
    let ghost bv = blocks@.map_values(|p: Vec<char>| p@);
    proof {
        assert(bv =~= split_seq(contents@, "\n\n"@));
    }
    let mut r: Vec<UsbGamepadCandidate> = Vec::new();
    let mut i: usize = 0;
    while i < blocks.len()
        invariant
            i <= blocks.len(),
            bv == blocks@.map_values(|p: Vec<char>| p@),
            r@.map_values(|c: UsbGamepadCandidate| (c.event_node@, c.device_name@)) == candidates_of(bv.take(i as int)),
        decreases blocks.len() - i,
    {
        proof {
            assert(bv.take(i + 1).drop_last() == bv.take(i as int));
            assert(bv.take(i + 1).last() == blocks@[i as int]@);
        }
        let block = string_of(&blocks[i]);
        if let Some(h) = parse_proc_bus_value(block.as_str(), "H") {
            let ws = split_words(&chars_of(h.as_str()));
            proof {
                assert(ws@.map_values(|p: Vec<char>| p@) =~= words(h@));
            }
            if let Some(node) = first_event_word(&ws) {
                if looks_like_usb_gamepad(block.as_str(), h.as_str()) {
                    let node_s = string_of(&node);
                    let name = match parse_proc_bus_name(block.as_str()) {
                        Some(n) => n,
                        None => node_s.clone(),
                    };
                    let ghost before = r@.map_values(|c: UsbGamepadCandidate| (c.event_node@, c.device_name@));
                    r.push(UsbGamepadCandidate { event_node: node_s, device_name: name });
                    proof {
                        assert(r@.map_values(|c: UsbGamepadCandidate| (c.event_node@, c.device_name@)) =~= before.push(
                            (r@.last().event_node@, r@.last().device_name@),
                        ));
                    }
                }
            }
        }
        i = i + 1;
    }
    proof {
        assert(bv.take(blocks@.len() as int) == bv);
    }
    r
}

/// The hub of a USB device `bus-port.port...`: the name without its last
/// `.port`, or the name itself when it has no dot (or only a leading one).
pub open spec fn hub_location_spec(device_name: Seq<char>) -> Seq<char> {
    let parts = split_on(device_name, '.');
    if parts.len() <= 1 {
        device_name
    } else {
        let hub = device_name.take(device_name.len() - parts.last().len() - 1);
        if hub.len() > 0 { hub } else { device_name }
    }
}

/// The hub of a USB device name.
pub fn usb_hub_location(device_name: &str) -> (r: String)
    ensures
        r@ == hub_location_spec(device_name@),
{
    let d = chars_of(device_name);
    let k = after_last(&d, '.');
    if k == 0 {
        proof {
            crate::text::lemma_split_last(d@, '.', 0);
            assert(d@.skip(0) == d@);
            if split_on(d@, '.').len() > 1 {
                crate::text::lemma_index_of_char_bound(d@, '.');
                assert(index_of_char(d@, '.') < d@.len());
                assert(d@[index_of_char(d@, '.') as int] == '.');
            }
        }
        return owned(device_name);
    }
    proof {
        assert(d@[k - 1] == '.');
        crate::text::lemma_index_of_char_bound(d@, '.');
        assert(index_of_char(d@, '.') < d@.len()) by {
            if index_of_char(d@, '.') >= d@.len() {
                assert(d@[k - 1] != '.');
            }
        }
        assert(split_on(d@, '.') == seq![d@.take(index_of_char(d@, '.') as int)] + split_on(d@.skip(index_of_char(d@, '.') + 1int), '.'));
        assert(split_on(d@, '.').last() == d@.skip(k as int));
    }
    if k - 1 > 0 {
        string_of(&slice_range(&d, 0, k - 1))
    } else {
        owned(device_name)
    }
}

/// The USB device of a sysfs path element, when it names one (it holds a
/// `-`): the part before any `:`.
pub open spec fn usb_base_name_spec(name: Seq<char>) -> Option<Seq<char>> {
    if index_of_char(name, '-') < name.len() { Some(split_on(name, ':')[0]) } else { None }
}

/// The USB device of a sysfs path element, when it names one.
pub fn usb_device_base_name(name: &str) -> (r: Option<String>)
    ensures
        match r {
            Some(v) => usb_base_name_spec(name@) == Some(v@),
            None => usb_base_name_spec(name@) is None,
        },
{
    let n = chars_of(name);
    if index_of(&n, '-') < n.len() {
        Some(string_of(&before_first(&n, ':')))
    } else {
        None
    }
}

/// The trimmed pieces of `parts` that are not empty, in order.
pub open spec fn trimmed_nonempty(parts: Seq<Seq<char>>) -> Seq<Seq<char>>
    decreases parts.len(),
{
    if parts.len() == 0 {
        seq![]
    } else {
        let rest = trimmed_nonempty(parts.drop_last());
        if trim(parts.last()).len() > 0 { rest.push(trim(parts.last())) } else { rest }
    }
}

/// The hubs to power cycle before controllers enumerate: the trimmed
/// non-empty entries of the comma-separated setting, or the default hub
/// when the setting is absent or lists none.
pub open spec fn fallback_hubs_spec(configured: Option<Seq<char>>) -> Seq<Seq<char>> {
    let listed = match configured {
        Some(c) => trimmed_nonempty(split_on(c, ',')),
        None => seq![],
    };
    if listed.len() == 0 { seq![DEFAULT_FALLBACK_HUB_LOCATION@] } else { listed }
}

/// The hubs to power cycle, from the value of the hub setting (if it is
/// set).
pub fn fallback_hub_locations(configured: Option<&str>) -> (r: Vec<String>)
    ensures
        r@.map_values(|h: String| h@) == fallback_hubs_spec(
            match configured { Some(c) => Some(c@), None => None },
        ),
{
    let ghost cfg = match configured { Some(c) => Some(c@), None => None::<Seq<char>> };
    let mut listed: Vec<String> = Vec::new();
    if let Some(c) = configured {
        let parts = split_on_char(&chars_of(c), ',');
        let ghost pv = split_on(c@, ',');
        let mut i: usize = 0;
        while i < parts.len()
            invariant
                i <= parts.len(),
                parts@.len() == pv.len(),
                forall|k: int| 0 <= k < parts@.len() ==> #[trigger] parts@[k]@ == pv[k],
                listed@.map_values(|h: String| h@) == trimmed_nonempty(pv.take(i as int)),
            decreases parts.len() - i,
        {
            proof {
                assert(pv.take(i + 1).drop_last() == pv.take(i as int));
                assert(pv.take(i + 1).last() == parts@[i as int]@);
            }
            let t = trim_chars(&parts[i]);
            if t.len() > 0 {
                let ghost before = listed@.map_values(|h: String| h@);
                listed.push(string_of(&t));
                proof {
                    assert(listed@.map_values(|h: String| h@) =~= before.push(t@));
                }
            }
            i = i + 1;
        }
        proof {
            assert(pv.take(parts@.len() as int) == pv);
        }
    }
    if listed.len() == 0 {
        let mut d: Vec<String> = Vec::new();
        d.push(owned(DEFAULT_FALLBACK_HUB_LOCATION));
        proof {
            assert(d@.map_values(|h: String| h@) =~= seq![DEFAULT_FALLBACK_HUB_LOCATION@]);
        }
        d
    } else {
        listed
    }
}

/// One hub to power cycle: its location, and the index of the gamepad
/// found behind it (none for a configured fallback hub).
#[derive(Debug, Clone)]
pub struct HubCycle {
    pub hub_location: String,
    pub target: Option<usize>,
}

/// The hubs of the fallback list, then those of the gamepads found (each
/// with the gamepad's index).
pub open spec fn hub_entries(fallbacks: Seq<Seq<char>>, target_hubs: Seq<Seq<char>>) -> Seq<(Seq<char>, Option<int>)> {
    fallbacks.map_values(|h: Seq<char>| (h, None::<int>)) + target_hubs.map(|i: int, h: Seq<char>| (h, Some(i)))
}

/// The entries in order, each hub only at its first occurrence.
pub open spec fn first_per_hub(entries: Seq<(Seq<char>, Option<int>)>) -> Seq<(Seq<char>, Option<int>)>
    decreases entries.len(),
{
    if entries.len() == 0 {
        seq![]
    } else {
        let rest = first_per_hub(entries.drop_last());
        if exists|k: int| 0 <= k < entries.len() - 1 && (#[trigger] entries[k]).0 == entries.last().0 {
            rest
        } else {
            rest.push(entries.last())
        }
    }
}

/// The hubs to power cycle, each once: the fallback hubs first, then the
/// hubs of the gamepads found that are not among them.
pub open spec fn hub_plan_spec(fallbacks: Seq<Seq<char>>, target_hubs: Seq<Seq<char>>) -> Seq<(Seq<char>, Option<int>)> {
    first_per_hub(hub_entries(fallbacks, target_hubs))
}

/// The view of a plan.
pub open spec fn plan_view(p: Seq<HubCycle>) -> Seq<(Seq<char>, Option<int>)> {
    p.map_values(|c: HubCycle| (c.hub_location@, match c.target { Some(t) => Some(t as int), None => None::<int> }))
}

proof fn lemma_first_per_hub_members(entries: Seq<(Seq<char>, Option<int>)>)
    ensures
        forall|j: int| 0 <= j < first_per_hub(entries).len() ==> exists|k: int| 0 <= k < entries.len() && #[trigger] first_per_hub(entries)[j] == entries[k],
        forall|k: int| #![trigger entries[k]] 0 <= k < entries.len() ==> exists|j: int| 0 <= j < first_per_hub(entries).len() && (#[trigger] first_per_hub(entries)[j]).0 == entries[k].0,
    decreases entries.len(),
{
    if entries.len() > 0 {
        let d = entries.drop_last();
        lemma_first_per_hub_members(d);
        let p = first_per_hub(entries);
        assert forall|j: int| 0 <= j < p.len() implies exists|k: int| 0 <= k < entries.len() && #[trigger] p[j] == entries[k] by {
            if j < first_per_hub(d).len() {
                let k = choose|k: int| 0 <= k < d.len() && first_per_hub(d)[j] == d[k];
                assert(p[j] == entries[k]);
            } else {
                assert(p[j] == entries[entries.len() - 1]);
            }
        }
        assert forall|k: int| #![trigger entries[k]] 0 <= k < entries.len() implies exists|j: int| 0 <= j < p.len() && (#[trigger] p[j]).0 == entries[k].0 by {
            if k < d.len() {
                let j = choose|j: int| 0 <= j < first_per_hub(d).len() && first_per_hub(d)[j].0 == d[k].0;
                assert(p[j] == first_per_hub(d)[j]);
            } else if exists|m: int| 0 <= m < entries.len() - 1 && (#[trigger] entries[m]).0 == entries.last().0 {
                let m = choose|m: int| 0 <= m < entries.len() - 1 && (#[trigger] entries[m]).0 == entries.last().0;
                assert(d[m] == entries[m]);
                let j = choose|j: int| 0 <= j < first_per_hub(d).len() && first_per_hub(d)[j].0 == d[m].0;
                assert(p[j] == first_per_hub(d)[j]);
            } else {
                assert(p[p.len() - 1] == entries.last());
            }
        }
    }
}

/// No hub is planned twice.
pub proof fn lemma_plan_hubs_distinct(entries: Seq<(Seq<char>, Option<int>)>)
    ensures
        forall|a: int, b: int|
            0 <= a < b < first_per_hub(entries).len() ==> (#[trigger] first_per_hub(entries)[a]).0 != (#[trigger] first_per_hub(entries)[b]).0,
    decreases entries.len(),
{
    if entries.len() > 0 {
        let d = entries.drop_last();
        lemma_plan_hubs_distinct(d);
        lemma_first_per_hub_members(d);
        let p = first_per_hub(entries);
        let q = first_per_hub(d);
        if !(exists|k: int| 0 <= k < entries.len() - 1 && (#[trigger] entries[k]).0 == entries.last().0) {
            assert forall|a: int, b: int| 0 <= a < b < p.len() implies (#[trigger] p[a]).0 != (#[trigger] p[b]).0 by {
                if b == p.len() - 1 {
                    let k = choose|k: int| 0 <= k < d.len() && q[a] == #[trigger] d[k];
                    assert(entries[k] == d[k]);
                } else {
                    assert(p[a] == q[a] && p[b] == q[b]);
                }
            }
        }
    }
}

/// The view of one planned hub.
pub open spec fn cycle_view(hub: Seq<char>, target: Option<usize>) -> (Seq<char>, Option<int>) {
    (hub, match target { Some(t) => Some(t as int), None => None::<int> })
}

/// Appends a hub to the plan unless it is already planned.
fn push_unplanned(r: &mut Vec<HubCycle>, hub: String, target: Option<usize>)
    ensures
        plan_view(final(r)@) == if exists|m: int| 0 <= m < plan_view(old(r)@).len() && (#[trigger] plan_view(old(r)@)[m]).0 == hub@ {
            plan_view(old(r)@)
        } else {
            plan_view(old(r)@).push(cycle_view(hub@, target))
        },
{
    let ghost pv = plan_view(r@);
    let mut seen = false;
    let mut j: usize = 0;
    while j < r.len()
        invariant
            j <= r.len(),
            pv == plan_view(r@),
            seen <==> exists|m: int| 0 <= m < j && (#[trigger] pv[m]).0 == hub@,
        decreases r.len() - j,
    {
        assert(pv[j as int].0 == r@[j as int].hub_location@);
        if str_eq(r[j].hub_location.as_str(), hub.as_str()) {
            seen = true;
        }
        j = j + 1;
    }
    if !seen {
        r.push(HubCycle { hub_location: hub, target });
        proof {
            assert(plan_view(r@) =~= pv.push(cycle_view(r@.last().hub_location@, target)));
        }
    }
}

proof fn lemma_plan_step(e: Seq<(Seq<char>, Option<int>)>, x: (Seq<char>, Option<int>))
    ensures
        first_per_hub(e.push(x)) == if exists|m: int| 0 <= m < first_per_hub(e).len() && (#[trigger] first_per_hub(e)[m]).0 == x.0 {
            first_per_hub(e)
        } else {
            first_per_hub(e).push(x)
        },
{
    let e2 = e.push(x);
    assert(e2.drop_last() == e);
    lemma_first_per_hub_members(e);
    let p = first_per_hub(e);
    let in_e = exists|k: int| 0 <= k < e2.len() - 1 && (#[trigger] e2[k]).0 == e2.last().0;
    let in_p = exists|m: int| 0 <= m < p.len() && (#[trigger] p[m]).0 == x.0;
    if in_e {
        let k = choose|k: int| 0 <= k < e2.len() - 1 && (#[trigger] e2[k]).0 == e2.last().0;
        assert(e[k] == e2[k]);
        let m = choose|m: int| 0 <= m < p.len() && (#[trigger] p[m]).0 == e[k].0;
        assert(in_p);
    }
    if in_p {
        let m = choose|m: int| 0 <= m < p.len() && (#[trigger] p[m]).0 == x.0;
        let k = choose|k: int| 0 <= k < e.len() && p[m] == #[trigger] e[k];
        assert(e2[k] == e[k]);
        assert(in_e);
    }
}

/// The hubs to power cycle, each once, from the fallback hubs and the hubs
/// of the gamepads found (in the order found).
pub fn plan_hub_cycles(fallbacks: &Vec<String>, target_hubs: &Vec<String>) -> (r: Vec<HubCycle>)
    ensures
        plan_view(r@) == hub_plan_spec(fallbacks@.map_values(|h: String| h@), target_hubs@.map_values(|h: String| h@)),
        forall|a: int, b: int| 0 <= a < b < r@.len() ==> (#[trigger] r@[a]).hub_location@ != (#[trigger] r@[b]).hub_location@,
{
    let ghost fv = fallbacks@.map_values(|h: String| h@);
    let ghost tv = target_hubs@.map_values(|h: String| h@);
    let ghost fe = fv.map_values(|h: Seq<char>| (h, None::<int>));
    let ghost te = tv.map(|i: int, h: Seq<char>| (h, Some(i)));
    let mut r: Vec<HubCycle> = Vec::new();
    let mut i: usize = 0;
    while i < fallbacks.len()
        invariant
            i <= fallbacks.len(),
            fv == fallbacks@.map_values(|h: String| h@),
            fe == fv.map_values(|h: Seq<char>| (h, None::<int>)),
            plan_view(r@) == first_per_hub(fe.take(i as int)),
        decreases fallbacks.len() - i,
    {
        proof {
            assert(fe.take(i + 1) == fe.take(i as int).push(cycle_view(fallbacks@[i as int]@, None)));
            lemma_plan_step(fe.take(i as int), cycle_view(fallbacks@[i as int]@, None));
        }
        push_unplanned(&mut r, fallbacks[i].clone(), None);
        i = i + 1;
    }
    proof {
        assert(fe.take(fallbacks@.len() as int) == fe);
        assert(fe + te.take(0) == fe);
    }
    let mut j: usize = 0;
    while j < target_hubs.len()
        invariant
            j <= target_hubs.len(),
            tv == target_hubs@.map_values(|h: String| h@),
            te == tv.map(|i: int, h: Seq<char>| (h, Some(i))),
            plan_view(r@) == first_per_hub(fe + te.take(j as int)),
        decreases target_hubs.len() - j,
    {
        proof {
            assert(fe + te.take(j + 1) == (fe + te.take(j as int)).push(cycle_view(target_hubs@[j as int]@, Some(j))));
            lemma_plan_step(fe + te.take(j as int), cycle_view(target_hubs@[j as int]@, Some(j)));
        }
        push_unplanned(&mut r, target_hubs[j].clone(), Some(j));
        j = j + 1;
    }
    proof {
        assert(te.take(target_hubs@.len() as int) == te);
        assert(fe + te == hub_entries(fv, tv));
        lemma_plan_hubs_distinct(fe + te);
        assert forall|a: int, b: int| 0 <= a < b < r@.len() implies (#[trigger] r@[a]).hub_location@ != (#[trigger] r@[b]).hub_location@ by {
            assert(plan_view(r@)[a].0 == r@[a].hub_location@);
            assert(plan_view(r@)[b].0 == r@[b].hub_location@);
        }
    }
    r
}

} // verus!
