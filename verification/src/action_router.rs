use vstd::prelude::*;
use vstd::string::*;

use crate::input::{
    action_name, action_slot, slot_action, ConsoleAction, ConsoleInputEvent, ConsoleInputPhase,
    ConsoleInputSource, ControllerAxis, ControllerButton,
};
use crate::controller::{pair_views, ControllerProfile, ControllerStore};
use crate::controller_input::{alias_candidates, device_id_aliases};
use crate::input::{
    action_from_mapping_label, axis_direction, axis_direction_spec, controller_axis_token_for,
    controller_axis_token_spec, joystick_axis_token_for, joystick_axis_token_spec,
    joystick_button_token, label_action, raw_key_action, raw_keyboard_action, trigger_axis_direction,
    trigger_direction_spec, DEFAULT_INITIAL_REPEAT_DELAY_MS, DEFAULT_REPEAT_INTERVAL_MS,
};
use crate::keyboard_input::{key_code_name, key_name_spec};
use crate::text::decimal;
use crate::text::{lemma_lex_asymmetric, lemma_lex_irreflexive, lex_lt, owned, push_str, str_eq, strictly_sorted};

verus! {

broadcast use vstd::string::group_string_axioms;

/// Where a held input comes from: a key of a keyboard device, a button or a
/// stick direction of a controller or joystick.
#[derive(Debug, Clone)]
pub enum SourceId {
    Keyboard { device_node: String, key_code: u16 },
    ControllerButton { instance_id: u32, button: ControllerButton },
    ControllerAxis { instance_id: u32, axis: ControllerAxis, direction: i8 },
    JoystickButton { instance_id: u32, button_idx: u8 },
    JoystickAxis { instance_id: u32, axis_idx: u8, direction: i8 },
}

/// The abstract identity of an input source.
pub enum SourceKey {
    Keyboard(Seq<char>, u16),
    ControllerButton(u32, ControllerButton),
    ControllerAxis(u32, ControllerAxis, i8),
    JoystickButton(u32, u8),
    JoystickAxis(u32, u8, i8),
}

impl View for SourceId {
    type V = SourceKey;

    open spec fn view(&self) -> SourceKey {
        match self {
            SourceId::Keyboard { device_node, key_code } => SourceKey::Keyboard(device_node@, *key_code),
            SourceId::ControllerButton { instance_id, button } => SourceKey::ControllerButton(*instance_id, *button),
            SourceId::ControllerAxis { instance_id, axis, direction } => SourceKey::ControllerAxis(
                *instance_id,
                *axis,
                *direction,
            ),
            SourceId::JoystickButton { instance_id, button_idx } => SourceKey::JoystickButton(*instance_id, *button_idx),
            SourceId::JoystickAxis { instance_id, axis_idx, direction } => SourceKey::JoystickAxis(
                *instance_id,
                *axis_idx,
                *direction,
            ),
        }
    }
}

/// The controller or joystick instance a source belongs to, if any.
pub open spec fn source_instance(k: SourceKey) -> Option<u32> {
    match k {
        SourceKey::Keyboard(_, _) => None,
        SourceKey::ControllerButton(i, _) => Some(i),
        SourceKey::ControllerAxis(i, _, _) => Some(i),
        SourceKey::JoystickButton(i, _) => Some(i),
        SourceKey::JoystickAxis(i, _, _) => Some(i),
    }
}

/// Two sources are the same.
pub fn same_source(a: &SourceId, b: &SourceId) -> (r: bool)
    ensures
        r == (a@ == b@),
{
    match (a, b) {
        (SourceId::Keyboard { device_node: n1, key_code: c1 }, SourceId::Keyboard { device_node: n2, key_code: c2 }) => {
            *c1 == *c2 && str_eq(n1.as_str(), n2.as_str())
        },
        (SourceId::ControllerButton { instance_id: i1, button: b1 }, SourceId::ControllerButton { instance_id: i2, button: b2 }) => {
            *i1 == *i2 && *b1 == *b2
        },
        (
            SourceId::ControllerAxis { instance_id: i1, axis: a1, direction: d1 },
            SourceId::ControllerAxis { instance_id: i2, axis: a2, direction: d2 },
        ) => *i1 == *i2 && *a1 == *a2 && *d1 == *d2,
        (
            SourceId::JoystickButton { instance_id: i1, button_idx: b1 },
            SourceId::JoystickButton { instance_id: i2, button_idx: b2 },
        ) => *i1 == *i2 && *b1 == *b2,
        (
            SourceId::JoystickAxis { instance_id: i1, axis_idx: a1, direction: d1 },
            SourceId::JoystickAxis { instance_id: i2, axis_idx: a2, direction: d2 },
        ) => *i1 == *i2 && *a1 == *a2 && *d1 == *d2,
        _ => false,
    }
}

/// A copy of a source.
pub fn copy_source(a: &SourceId) -> (r: SourceId)
    ensures
        r@ == a@,
{
    match a {
        SourceId::Keyboard { device_node, key_code } => SourceId::Keyboard { device_node: device_node.clone(), key_code: *key_code },
        SourceId::ControllerButton { instance_id, button } => SourceId::ControllerButton { instance_id: *instance_id, button: *button },
        SourceId::ControllerAxis { instance_id, axis, direction } => SourceId::ControllerAxis {
            instance_id: *instance_id,
            axis: *axis,
            direction: *direction,
        },
        SourceId::JoystickButton { instance_id, button_idx } => SourceId::JoystickButton {
            instance_id: *instance_id,
            button_idx: *button_idx,
        },
        SourceId::JoystickAxis { instance_id, axis_idx, direction } => SourceId::JoystickAxis {
            instance_id: *instance_id,
            axis_idx: *axis_idx,
            direction: *direction,
        },
    }
}

fn source_instance_of(a: &SourceId) -> (r: Option<u32>)
    ensures
        r == source_instance(a@),
{
    match a {
        SourceId::Keyboard { .. } => None,
        SourceId::ControllerButton { instance_id, .. } => Some(*instance_id),
        SourceId::ControllerAxis { instance_id, .. } => Some(*instance_id),
        SourceId::JoystickButton { instance_id, .. } => Some(*instance_id),
        SourceId::JoystickAxis { instance_id, .. } => Some(*instance_id),
    }
}

/// The sources in a list.
pub open spec fn key_set(v: Seq<SourceId>) -> Set<SourceKey> {
    Set::new(|k: SourceKey| exists|i: int| 0 <= i < v.len() && v[i]@ == k)
}

/// No source occurs twice in the list.
pub open spec fn distinct_keys(v: Seq<SourceId>) -> bool {
    forall|i: int, j: int| 0 <= i < v.len() && 0 <= j < v.len() && i != j ==> v[i]@ != v[j]@
}

/// Position of source `s` in the list.
fn find_source(v: &Vec<SourceId>, s: &SourceId) -> (r: Option<usize>)
    ensures
        r matches Some(i) ==> i < v@.len() && v@[i as int]@ == s@,
        r is None ==> !key_set(v@).contains(s@),
{
    let mut i: usize = 0;
    while i < v.len()
        invariant
            i <= v.len(),
            forall|j: int| 0 <= j < i ==> v@[j]@ != s@,
        decreases v.len() - i,
    {
        if same_source(&v[i], s) {
            return Some(i);
        }
        i = i + 1;
    }
    None
}

/// Adds `s` to the list unless it is there; true when it was added.
fn insert_source(v: &mut Vec<SourceId>, s: &SourceId) -> (added: bool)
    requires
        distinct_keys(old(v)@),
    ensures
        distinct_keys(final(v)@),
        added == !key_set(old(v)@).contains(s@),
        key_set(final(v)@) == key_set(old(v)@).insert(s@),
{
    match find_source(v, s) {
        Some(i) => {
            assert(key_set(v@).contains(s@));
            assert(key_set(v@).insert(s@) =~= key_set(v@));
            false
        },
        None => {
            let ghost before = v@;
            v.push(copy_source(s));
            proof {
                assert(key_set(v@) =~= key_set(before).insert(s@)) by {
                    assert forall|k: SourceKey| key_set(v@).contains(k) == key_set(before).insert(s@).contains(k) by {
                        if key_set(before).contains(k) {
                            let j = choose|j: int| 0 <= j < before.len() && before[j]@ == k;
                            assert(v@[j]@ == k);
                        }
                        if k == s@ {
                            assert(v@[before.len() as int]@ == k);
                        }
                        if key_set(v@).contains(k) {
                            let j = choose|j: int| 0 <= j < v@.len() && v@[j]@ == k;
                            if j < before.len() {
                                assert(before[j]@ == k);
                            }
                        }
                    }
                }
                assert(distinct_keys(v@)) by {
                    assert forall|i: int, j: int| 0 <= i < v@.len() && 0 <= j < v@.len() && i != j implies v@[i]@ != v@[j]@ by {
                        if i < before.len() && j < before.len() {
                        } else if i < before.len() {
                            assert(!key_set(before).contains(s@));
                            assert(v@[i]@ == before[i]@);
                        } else if j < before.len() {
                            assert(v@[j]@ == before[j]@);
                        }
                    }
                }
            }
            true
        },
    }
}

/// Takes `s` out of the list; true when it was there.
fn remove_source(v: &mut Vec<SourceId>, s: &SourceId) -> (removed: bool)
    requires
        distinct_keys(old(v)@),
    ensures
        distinct_keys(final(v)@),
        removed == key_set(old(v)@).contains(s@),
        key_set(final(v)@) == key_set(old(v)@).remove(s@),
        !removed ==> final(v)@ == old(v)@,
{
    match find_source(v, s) {
        None => {
            assert(key_set(v@).remove(s@) =~= key_set(v@));
            false
        },
        Some(i) => {
            let ghost before = v@;
            v.remove(i);
            proof {
                lemma_remove_at(before, i as int);
            }
            true
        },
    }
}

proof fn lemma_remove_at(before: Seq<SourceId>, i: int)
    requires
        distinct_keys(before),
        0 <= i < before.len(),
    ensures
        distinct_keys(before.remove(i)),
        key_set(before).contains(before[i]@),
        key_set(before.remove(i)) == key_set(before).remove(before[i]@),
{
    let after = before.remove(i);
    let s = before[i]@;
    assert(key_set(before).contains(s));
    assert(key_set(after) =~= key_set(before).remove(s)) by {
        assert forall|k: SourceKey| key_set(after).contains(k) == key_set(before).remove(s).contains(k) by {
            if key_set(after).contains(k) {
                let j = choose|j: int| 0 <= j < after.len() && after[j]@ == k;
                let bj = if j < i { j } else { j + 1 };
                assert(before[bj]@ == k);
                assert(bj != i);
            }
            if key_set(before).contains(k) && k != s {
                let j = choose|j: int| 0 <= j < before.len() && before[j]@ == k;
                assert(j != i);
                if j < i {
                    assert(after[j]@ == k);
                } else {
                    assert(after[j - 1]@ == k);
                }
            }
        }
    }
    assert(distinct_keys(after)) by {
        assert forall|a: int, b: int| 0 <= a < after.len() && 0 <= b < after.len() && a != b implies after[a]@ != after[b]@ by {
            let ba = if a < i { a } else { a + 1 };
            let bb = if b < i { b } else { b + 1 };
            assert(after[a] == before[ba] && after[b] == before[bb]);
        }
    }
}

/// An input event as a value.
#[verifier::ext_equal]
pub enum EventSourceView {
    Keyboard(Seq<char>, Seq<char>),
    Controller(u32, Seq<char>, Seq<char>),
}

/// The abstract content of an input event.
#[verifier::ext_equal]
pub struct EventView {
    pub phase: ConsoleInputPhase,
    pub source: EventSourceView,
    pub action: Option<ConsoleAction>,
    pub token: Seq<char>,
    pub pressed: bool,
    pub timestamp: u32,
    pub controller_name: Seq<char>,
}

impl View for ConsoleInputEvent {
    type V = EventView;

    open spec fn view(&self) -> EventView {
        EventView {
            phase: self.phase,
            source: match self.source {
                ConsoleInputSource::Keyboard { keycode, device_name } => EventSourceView::Keyboard(keycode@, device_name@),
                ConsoleInputSource::Controller { instance_id, device_id, controller_name } => EventSourceView::Controller(
                    instance_id,
                    device_id@,
                    controller_name@,
                ),
            },
            action: self.action,
            token: self.token@,
            pressed: self.pressed,
            timestamp: self.timestamp,
            controller_name: self.controller_name@,
        }
    }
}

/// The views of a list of events.
pub open spec fn event_views(v: Seq<ConsoleInputEvent>) -> Seq<EventView> {
    v.map_values(|e: ConsoleInputEvent| e@)
}

/// Who a controller event is about.
pub struct ControllerTag {
    pub instance_id: u32,
    pub device_id: Seq<char>,
    pub name: Seq<char>,
    pub timestamp: u32,
}

/// A pressed or released event of a controller.
pub open spec fn controller_event(
    tag: ControllerTag,
    action: Option<ConsoleAction>,
    token: Seq<char>,
    pressed: bool,
) -> EventView {
    EventView {
        phase: if pressed { ConsoleInputPhase::Pressed } else { ConsoleInputPhase::Released },
        source: EventSourceView::Controller(tag.instance_id, tag.device_id, tag.name),
        action,
        token,
        pressed,
        timestamp: tag.timestamp,
        controller_name: tag.name,
    }
}

/// The event of a controller input that is pressed (`pressed`) or released.
pub fn controller_input_event(
    instance_id: u32,
    device_id: &str,
    controller_name: &str,
    action: Option<ConsoleAction>,
    token: &str,
    pressed: bool,
    timestamp: u32,
) -> (e: ConsoleInputEvent)
    ensures
        e@ == controller_event(
            ControllerTag { instance_id, device_id: device_id@, name: controller_name@, timestamp },
            action,
            token@,
            pressed,
        ),
{
    ConsoleInputEvent {
        phase: if pressed { ConsoleInputPhase::Pressed } else { ConsoleInputPhase::Released },
        source: ConsoleInputSource::Controller {
            instance_id,
            device_id: owned(device_id),
            controller_name: owned(controller_name),
        },
        action,
        token: owned(token),
        pressed,
        timestamp,
        controller_name: owned(controller_name),
    }
}

/// The event of a pressed mapped controller input.
pub fn emit_pressed_event(
    instance_id: u32,
    device_id: &str,
    controller_name: &str,
    action: ConsoleAction,
    token: &str,
    timestamp: u32,
) -> (e: ConsoleInputEvent)
    ensures
        e@ == controller_event(
            ControllerTag { instance_id, device_id: device_id@, name: controller_name@, timestamp },
            Some(action),
            token@,
            true,
        ),
{
    controller_input_event(instance_id, device_id, controller_name, Some(action), token, true, timestamp)
}

/// The event of a pressed controller input that no action is mapped to.
pub fn emit_unmapped_pressed_event(
    instance_id: u32,
    device_id: &str,
    controller_name: &str,
    token: &str,
    timestamp: u32,
) -> (e: ConsoleInputEvent)
    ensures
        e@ == controller_event(
            ControllerTag { instance_id, device_id: device_id@, name: controller_name@, timestamp },
            None,
            token@,
            true,
        ),
{
    controller_input_event(instance_id, device_id, controller_name, None, token, true, timestamp)
}

/// The event of a released mapped controller input.
pub fn emit_released_event(
    instance_id: u32,
    device_id: &str,
    controller_name: &str,
    action: ConsoleAction,
    token: &str,
    timestamp: u32,
) -> (e: ConsoleInputEvent)
    ensures
        e@ == controller_event(
            ControllerTag { instance_id, device_id: device_id@, name: controller_name@, timestamp },
            Some(action),
            token@,
            false,
        ),
{
    controller_input_event(instance_id, device_id, controller_name, Some(action), token, false, timestamp)
}

/// The event of a released controller input that no action is mapped to.
pub fn emit_unmapped_released_event(
    instance_id: u32,
    device_id: &str,
    controller_name: &str,
    token: &str,
    timestamp: u32,
) -> (e: ConsoleInputEvent)
    ensures
        e@ == controller_event(
            ControllerTag { instance_id, device_id: device_id@, name: controller_name@, timestamp },
            None,
            token@,
            false,
        ),
{
    controller_input_event(instance_id, device_id, controller_name, None, token, false, timestamp)
}


/// The sources that hold one action, and when it next repeats.
#[derive(Debug)]
pub struct ActionState {
    sources: Vec<SourceId>,
    next_repeat_at: Option<u64>,
}

/// Which inputs hold which actions, when held actions repeat, and which
/// controller inputs without an action are held.
#[derive(Debug)]
pub struct ActionRouter {
    states: Vec<ActionState>,
    unmapped: Vec<SourceId>,
}

/// The abstract state of the router: per action slot the holding sources
/// and the time of the next repeat, and the held unmapped sources.
#[verifier::ext_equal]
pub struct RouterView {
    pub active: Seq<Set<SourceKey>>,
    pub repeat_at: Seq<Option<u64>>,
    pub unmapped: Set<SourceKey>,
}

impl View for ActionRouter {
    type V = RouterView;

    closed spec fn view(&self) -> RouterView {
        RouterView {
            active: self.states@.map_values(|st: ActionState| key_set(st.sources@)),
            repeat_at: self.states@.map_values(|st: ActionState| st.next_repeat_at),
            unmapped: key_set(self.unmapped@),
        }
    }
}

/// The sources that hold action `a`.
pub open spec fn held_by(v: RouterView, a: ConsoleAction) -> Set<SourceKey> {
    v.active[action_slot(a)]
}

/// The state after `src` presses action `a`, and whether the action became
/// pressed (it was held by nothing before); a newly pressed action repeats
/// first at `deadline`.
pub open spec fn press_view(v: RouterView, a: ConsoleAction, src: SourceKey, deadline: u64) -> (RouterView, bool) {
    let i = action_slot(a);
    let was_empty = v.active[i] =~= Set::empty();
    (
        RouterView {
            active: v.active.update(i, v.active[i].insert(src)),
            repeat_at: if was_empty { v.repeat_at.update(i, Some(deadline)) } else { v.repeat_at },
            ..v
        },
        was_empty,
    )
}

/// The state after `src` lets go of action `a`, and whether the action
/// became released (`src` was the last source holding it).
pub open spec fn release_view(v: RouterView, a: ConsoleAction, src: SourceKey) -> (RouterView, bool) {
    let i = action_slot(a);
    if !v.active[i].contains(src) {
        (v, false)
    } else {
        let rest = v.active[i].remove(src);
        let now_empty = rest =~= Set::empty();
        (
            RouterView {
                active: v.active.update(i, rest),
                repeat_at: if now_empty { v.repeat_at.update(i, None) } else { v.repeat_at },
                ..v
            },
            now_empty,
        )
    }
}

/// The state after an unmapped source is pressed, and whether it was new.
pub open spec fn unmapped_press_view(v: RouterView, src: SourceKey) -> (RouterView, bool) {
    (RouterView { unmapped: v.unmapped.insert(src), ..v }, !v.unmapped.contains(src))
}

/// The state after an unmapped source is let go, and whether it was held.
pub open spec fn unmapped_release_view(v: RouterView, src: SourceKey) -> (RouterView, bool) {
    (RouterView { unmapped: v.unmapped.remove(src), ..v }, v.unmapped.contains(src))
}

impl ActionRouter {
    /// The router is consistent: one entry per action, no source twice, and
    /// no repeat pending for an action that nothing holds.
    pub closed spec fn wf(&self) -> bool {
        &&& self.states@.len() == 8
        &&& forall|i: int| 0 <= i < 8 ==> distinct_keys(#[trigger] self.states@[i].sources@)
        &&& forall|i: int| 0 <= i < 8 ==> (#[trigger] self.states@[i].sources@.len() == 0 ==> self.states@[i].next_repeat_at is None)
        &&& distinct_keys(self.unmapped@)
    }

    /// Nothing is held.
    pub fn new() -> (r: Self)
        ensures
            r.wf(),
            r@.active.len() == 8,
            r@.repeat_at.len() == 8,
            forall|i: int| 0 <= i < 8 ==> #[trigger] r@.active[i] == Set::<SourceKey>::empty() && r@.repeat_at[i] is None,
            r@.unmapped == Set::<SourceKey>::empty(),
    {
        let mut states: Vec<ActionState> = Vec::new();
        let mut i: usize = 0;
        while i < 8
            invariant
                i <= 8,
                states@.len() == i,
                forall|j: int| 0 <= j < i ==> #[trigger] states@[j].sources@.len() == 0 && states@[j].next_repeat_at is None,
            decreases 8 - i,
        {
            states.push(ActionState { sources: Vec::new(), next_repeat_at: None });
            i = i + 1;
        }
        let r = ActionRouter { states, unmapped: Vec::new() };
        proof {
            assert forall|j: int| 0 <= j < 8 implies #[trigger] r@.active[j] == Set::<SourceKey>::empty() by {
                assert(key_set(r.states@[j].sources@) =~= Set::<SourceKey>::empty());
            }
            assert(key_set(r.unmapped@) =~= Set::<SourceKey>::empty());
        }
        r
    }

    proof fn lemma_view(&self)
        requires
            self.wf(),
        ensures
            self@.active.len() == 8,
            self@.repeat_at.len() == 8,
            forall|i: int| 0 <= i < 8 ==> #[trigger] self@.active[i] == key_set(self.states@[i].sources@),
            forall|i: int| 0 <= i < 8 ==> #[trigger] self@.repeat_at[i] == self.states@[i].next_repeat_at,
            forall|i: int| 0 <= i < 8 ==> (#[trigger] self@.active[i] =~= Set::<SourceKey>::empty()) == (self.states@[i].sources@.len() == 0),
    {
        assert forall|i: int| 0 <= i < 8 implies (#[trigger] self@.active[i] =~= Set::<SourceKey>::empty()) == (self.states@[i].sources@.len() == 0) by {
            let v = self.states@[i].sources@;
            if v.len() > 0 {
                assert(key_set(v).contains(v[0]@));
            }
        }
    }

    /// `source` presses `action`; true when the action became pressed, which
    /// schedules its first repeat `repeat_delay` after `now`.
    pub fn push_action(&mut self, action: ConsoleAction, source: &SourceId, now: u64, repeat_delay: u64) -> (pressed: bool)
        requires
            old(self).wf(),
            now + repeat_delay <= u64::MAX,
        ensures
            final(self).wf(),
            (final(self)@, pressed) == press_view(old(self)@, action, source@, (now + repeat_delay) as u64),
    {
        proof {
            self.lemma_view();
        }
        let i = action.slot();
        let ghost old_view = self@;
        let ghost old_states = self.states@;
        let mut st = ActionState { sources: Vec::new(), next_repeat_at: None };
        std::mem::swap(&mut st, &mut self.states[i]);
        assert(st == old_states[i as int]);
        let was_empty = st.sources.len() == 0;
        let added = insert_source(&mut st.sources, source);
        if added && was_empty {
            st.next_repeat_at = Some(now + repeat_delay);
        }
        let ghost new_st = st;
        std::mem::swap(&mut st, &mut self.states[i]);
        assert(self.states@ =~= old_states.update(i as int, new_st));
        proof {
            assert forall|j: int| 0 <= j < 8 implies distinct_keys(#[trigger] self.states@[j].sources@) by {
                if j != i {
                    assert(self.states@[j] == old_states[j]);
                }
            }
            assert forall|j: int| 0 <= j < 8 implies (#[trigger] self.states@[j].sources@.len() == 0 ==> self.states@[j].next_repeat_at is None) by {
                if j != i {
                    assert(self.states@[j] == old_states[j]);
                } else {
                    assert(key_set(new_st.sources@).contains(source@));
                    let w = choose|k: int| 0 <= k < new_st.sources@.len() && new_st.sources@[k]@ == source@;
                    assert(new_st.sources@.len() > 0);
                }
            }
            assert(self.wf());
            self.lemma_view();
            assert(self@.active =~= old_view.active.update(i as int, old_view.active[i as int].insert(source@)));
            if was_empty {
                assert(old_view.active[i as int] =~= Set::<SourceKey>::empty());
                assert(self@.repeat_at =~= old_view.repeat_at.update(i as int, Some((now + repeat_delay) as u64)));
            } else {
                assert(!(old_view.active[i as int] =~= Set::<SourceKey>::empty()));
                assert(self@.repeat_at =~= old_view.repeat_at);
            }
            assert(self@ =~= press_view(old_view, action, source@, (now + repeat_delay) as u64).0);
        }
        added && was_empty
    }

    /// `source` lets go of `action`; true when the action became released.
    pub fn release_action(&mut self, action: ConsoleAction, source: &SourceId) -> (released: bool)
        requires
            old(self).wf(),
        ensures
            final(self).wf(),
            (final(self)@, released) == release_view(old(self)@, action, source@),
    {
        proof {
            self.lemma_view();
        }
        let i = action.slot();
        let ghost old_view = self@;
        let ghost old_states = self.states@;
        let mut st = ActionState { sources: Vec::new(), next_repeat_at: None };
        std::mem::swap(&mut st, &mut self.states[i]);
        assert(st == old_states[i as int]);
        let removed = remove_source(&mut st.sources, source);
        let mut released = false;
        if removed && st.sources.len() == 0 {
            st.next_repeat_at = None;
            released = true;
        }
        let ghost new_st = st;
        std::mem::swap(&mut st, &mut self.states[i]);
        assert(self.states@ =~= old_states.update(i as int, new_st));
        proof {
            assert forall|j: int| 0 <= j < 8 implies distinct_keys(#[trigger] self.states@[j].sources@) by {
                if j != i {
                    assert(self.states@[j] == old_states[j]);
                }
            }
            assert forall|j: int| 0 <= j < 8 implies (#[trigger] self.states@[j].sources@.len() == 0 ==> self.states@[j].next_repeat_at is None) by {
                if j != i {
                    assert(self.states@[j] == old_states[j]);
                } else if !removed {
                    assert(new_st.sources@ == old_states[i as int].sources@);
                }
            }
            assert(self.wf());
            self.lemma_view();
            assert(self@.active[i as int] == key_set(new_st.sources@));
            if new_st.sources@.len() > 0 {
                assert(key_set(new_st.sources@).contains(new_st.sources@[0]@));
            }
            assert((key_set(new_st.sources@) =~= Set::<SourceKey>::empty()) == (new_st.sources@.len() == 0));
            if removed {
                assert(self@.active =~= old_view.active.update(i as int, old_view.active[i as int].remove(source@)));
                if released {
                    assert(self@.repeat_at =~= old_view.repeat_at.update(i as int, None));
                } else {
                    assert(self@.repeat_at =~= old_view.repeat_at);
                }
                assert(self@ =~= release_view(old_view, action, source@).0);
            } else {
                assert(self@.active =~= old_view.active);
                assert(self@.repeat_at =~= old_view.repeat_at);
                assert(self@ =~= old_view);
            }
        }
        released
    }

    /// An unmapped `source` is pressed; true when it was not held already.
    pub fn press_unmapped(&mut self, source: &SourceId) -> (added: bool)
        requires
            old(self).wf(),
        ensures
            final(self).wf(),
            (final(self)@, added) == unmapped_press_view(old(self)@, source@),
    {
        let ghost old_view = self@;
        let added = insert_source(&mut self.unmapped, source);
        proof {
            assert(self@ =~= unmapped_press_view(old_view, source@).0);
        }
        added
    }

    /// An unmapped `source` is let go; true when it was held.
    pub fn release_unmapped(&mut self, source: &SourceId) -> (removed: bool)
        requires
            old(self).wf(),
        ensures
            final(self).wf(),
            (final(self)@, removed) == unmapped_release_view(old(self)@, source@),
    {
        let ghost old_view = self@;
        let removed = remove_source(&mut self.unmapped, source);
        proof {
            assert(self@ =~= unmapped_release_view(old_view, source@).0);
        }
        removed
    }
}


/// Lets go of `src`, mapped to `action` or unmapped, when `active`; whether
/// that released something.
pub open spec fn release_side(v: RouterView, action: Option<ConsoleAction>, src: SourceKey, active: bool) -> (RouterView, bool) {
    if !active {
        (v, false)
    } else {
        match action {
            Some(a) => release_view(v, a, src),
            None => unmapped_release_view(v, src),
        }
    }
}

/// Presses `src`, mapped to `action` or unmapped, when `active`; whether
/// that pressed something.
pub open spec fn press_side(
    v: RouterView,
    action: Option<ConsoleAction>,
    src: SourceKey,
    active: bool,
    deadline: u64,
) -> (RouterView, bool) {
    if !active {
        (v, false)
    } else {
        match action {
            Some(a) => press_view(v, a, src, deadline),
            None => unmapped_press_view(v, src),
        }
    }
}

/// One side of a stick: the action, source and token of a direction.
pub struct DirectionSide {
    pub action: Option<ConsoleAction>,
    pub source: SourceKey,
    pub token: Seq<char>,
}

/// The event of one side when something happened there.
pub open spec fn side_events(tag: ControllerTag, side: DirectionSide, happened: bool, pressed: bool) -> Seq<EventView> {
    if happened {
        seq![controller_event(tag, side.action, side.token, pressed)]
    } else {
        seq![]
    }
}

/// A stick moved to `direction` (-1, 0 or 1): the side it left is released
/// first (negative, then positive), then the side it points to is pressed.
/// Returns the new state and the events, in that order.
pub open spec fn direction_view(
    v: RouterView,
    neg: DirectionSide,
    pos: DirectionSide,
    direction: i8,
    deadline: u64,
    tag: ControllerTag,
) -> (RouterView, Seq<EventView>) {
    let (v1, e1) = release_side(v, neg.action, neg.source, direction != -1);
    let (v2, e2) = release_side(v1, pos.action, pos.source, direction != 1);
    let (v3, e3) = press_side(v2, neg.action, neg.source, direction == -1, deadline);
    let (v4, e4) = press_side(v3, pos.action, pos.source, direction == 1, deadline);
    (
        v4,
        side_events(tag, neg, e1, false) + side_events(tag, pos, e2, false) + side_events(tag, neg, e3, true)
            + side_events(tag, pos, e4, true),
    )
}

impl ActionRouter {
    fn release_side_exec(&mut self, action: Option<ConsoleAction>, src: &SourceId, active: bool) -> (r: bool)
        requires
            old(self).wf(),
        ensures
            final(self).wf(),
            (final(self)@, r) == release_side(old(self)@, action, src@, active),
    {
        if !active {
            return false;
        }
        match action {
            Some(a) => self.release_action(a, src),
            None => self.release_unmapped(src),
        }
    }

    fn press_side_exec(&mut self, action: Option<ConsoleAction>, src: &SourceId, active: bool, now: u64, delay: u64) -> (r: bool)
        requires
            old(self).wf(),
            now + delay <= u64::MAX,
        ensures
            final(self).wf(),
            (final(self)@, r) == press_side(old(self)@, action, src@, active, (now + delay) as u64),
    {
        if !active {
            return false;
        }
        match action {
            Some(a) => self.push_action(a, src, now, delay),
            None => self.press_unmapped(src),
        }
    }

    /// A stick of controller `instance_id` moved to `direction`: releases the
    /// side it left and presses the side it points to, appending the events
    /// to `events`. A newly pressed action repeats first `repeat_delay` after
    /// `now`.
    pub fn handle_direction_transition(
        &mut self,
        negative_action: Option<ConsoleAction>,
        negative_source: &SourceId,
        negative_token: &str,
        positive_action: Option<ConsoleAction>,
        positive_source: &SourceId,
        positive_token: &str,
        direction: i8,
        now: u64,
        repeat_delay: u64,
        instance_id: u32,
        device_id: &str,
        controller_name: &str,
        timestamp: u32,
        events: &mut Vec<ConsoleInputEvent>,
    )
        requires
            old(self).wf(),
            now + repeat_delay <= u64::MAX,
        ensures
            final(self).wf(),
            ({
                let (nv, evs) = direction_view(
                    old(self)@,
                    DirectionSide { action: negative_action, source: negative_source@, token: negative_token@ },
                    DirectionSide { action: positive_action, source: positive_source@, token: positive_token@ },
                    direction,
                    (now + repeat_delay) as u64,
                    ControllerTag { instance_id, device_id: device_id@, name: controller_name@, timestamp },
                );
                &&& final(self)@ == nv
                &&& event_views(final(events)@) == event_views(old(events)@) + evs
            }),
    {
        let ghost tag = ControllerTag { instance_id, device_id: device_id@, name: controller_name@, timestamp };
        let ghost neg = DirectionSide { action: negative_action, source: negative_source@, token: negative_token@ };
        let ghost pos = DirectionSide { action: positive_action, source: positive_source@, token: positive_token@ };
        let ghost ev0 = event_views(events@);
        let e1 = self.release_side_exec(negative_action, negative_source, direction != -1);
        if e1 {
            events.push(controller_input_event(instance_id, device_id, controller_name, negative_action, negative_token, false, timestamp));
        }
        let ghost ev1 = event_views(events@);
        proof {
            assert(ev1 =~= ev0 + side_events(tag, neg, e1, false));
        }
        let e2 = self.release_side_exec(positive_action, positive_source, direction != 1);
        if e2 {
            events.push(controller_input_event(instance_id, device_id, controller_name, positive_action, positive_token, false, timestamp));
        }
        let ghost ev2 = event_views(events@);
        proof {
            assert(ev2 =~= ev1 + side_events(tag, pos, e2, false));
        }
        let e3 = self.press_side_exec(negative_action, negative_source, direction == -1, now, repeat_delay);
        if e3 {
            events.push(controller_input_event(instance_id, device_id, controller_name, negative_action, negative_token, true, timestamp));
        }
        let ghost ev3 = event_views(events@);
        proof {
            assert(ev3 =~= ev2 + side_events(tag, neg, e3, true));
        }
        let e4 = self.press_side_exec(positive_action, positive_source, direction == 1, now, repeat_delay);
        if e4 {
            events.push(controller_input_event(instance_id, device_id, controller_name, positive_action, positive_token, true, timestamp));
        }
        proof {
            assert(event_views(events@) =~= ev3 + side_events(tag, pos, e4, true));
            assert(event_views(events@) =~= ev0 + (side_events(tag, neg, e1, false) + side_events(tag, pos, e2, false)
                + side_events(tag, neg, e3, true) + side_events(tag, pos, e4, true)));
        }
    }
}


/// The token map of a list of (token, action) pairs: a later pair wins.
pub open spec fn token_map_view(v: Seq<(String, ConsoleAction)>) -> Map<Seq<char>, ConsoleAction>
    decreases v.len(),
{
    if v.len() == 0 {
        Map::empty()
    } else {
        token_map_view(v.drop_last()).insert(v.last().0@, v.last().1)
    }
}

/// The bindings of a list of (alias, token list) pairs: a later pair wins.
pub open spec fn bindings_view(v: Seq<(String, Vec<(String, ConsoleAction)>)>) -> Map<Seq<char>, Map<Seq<char>, ConsoleAction>>
    decreases v.len(),
{
    if v.len() == 0 {
        Map::empty()
    } else {
        bindings_view(v.drop_last()).insert(v.last().0@, token_map_view(v.last().1@))
    }
}

/// For each device alias, the action of each input token.
#[derive(Debug)]
pub struct ProfileBindings {
    entries: Vec<(String, Vec<(String, ConsoleAction)>)>,
}

impl View for ProfileBindings {
    type V = Map<Seq<char>, Map<Seq<char>, ConsoleAction>>;

    closed spec fn view(&self) -> Self::V {
        bindings_view(self.entries@)
    }
}

/// The tokens of a profile's mappings whose label stands for a menu action,
/// with that action; a later mapping of the same token wins.
pub open spec fn profile_token_map(m: Seq<(Seq<char>, Seq<char>)>) -> Map<Seq<char>, ConsoleAction>
    decreases m.len(),
{
    if m.len() == 0 {
        Map::empty()
    } else {
        let rest = profile_token_map(m.drop_last());
        match label_action(m.last().0) {
            Some(a) => rest.insert(m.last().1, a),
            None => rest,
        }
    }
}

/// The aliases of a device id, as a set.
pub open spec fn alias_set(device_id: Seq<char>) -> Set<Seq<char>> {
    alias_candidates(device_id).to_set()
}

/// `m` with every key of `keys` mapped to `value`.
pub open spec fn with_keys<V>(m: Map<Seq<char>, V>, keys: Set<Seq<char>>, value: V) -> Map<Seq<char>, V> {
    m.union_prefer_right(Map::new(|k: Seq<char>| keys.contains(k), |k: Seq<char>| value))
}

/// The bindings that the saved profiles make: each profile with a device
/// and at least one mapped action binds all aliases of its device to its
/// token map; a later profile wins.
pub open spec fn bindings_of(profiles: Seq<ControllerProfile>) -> Map<Seq<char>, Map<Seq<char>, ConsoleAction>>
    decreases profiles.len(),
{
    if profiles.len() == 0 {
        Map::empty()
    } else {
        let rest = bindings_of(profiles.drop_last());
        let p = profiles.last();
        match p.device_id {
            None => rest,
            Some(d) => {
                let tm = profile_token_map(pair_views(p.mappings@));
                if tm.dom() =~= Set::empty() {
                    rest
                } else {
                    with_keys(rest, alias_set(d@), tm)
                }
            },
        }
    }
}

/// Alias `k` binds `token`.
pub open spec fn binds(b: Map<Seq<char>, Map<Seq<char>, ConsoleAction>>, k: Seq<char>, token: Seq<char>) -> bool {
    b.contains_key(k) && b[k].contains_key(token)
}

/// `k` is the alias of `device_id` that comes first in sorted order among
/// those that bind `token`.
pub open spec fn first_binding_alias(
    b: Map<Seq<char>, Map<Seq<char>, ConsoleAction>>,
    device_id: Seq<char>,
    token: Seq<char>,
    k: Seq<char>,
) -> bool {
    &&& alias_set(device_id).contains(k)
    &&& binds(b, k, token)
    &&& forall|k2: Seq<char>| #[trigger] alias_set(device_id).contains(k2) && binds(b, k2, token) ==> !lex_lt(k2, k)
}

/// The action of `token` on device `device_id`: looked up under the aliases
/// of the device in sorted order, the first that binds the token decides.
pub open spec fn resolve_spec(b: Map<Seq<char>, Map<Seq<char>, ConsoleAction>>, device_id: Seq<char>, token: Seq<char>) -> Option<ConsoleAction> {
    if exists|k: Seq<char>| first_binding_alias(b, device_id, token, k) {
        let k = choose|k: Seq<char>| first_binding_alias(b, device_id, token, k);
        Some(b[k][token])
    } else {
        None
    }
}

proof fn lemma_token_map_tail(v: Seq<(String, ConsoleAction)>, i: int, key: Seq<char>)
    requires
        0 <= i <= v.len(),
        forall|j: int| i <= j < v.len() ==> #[trigger] v[j].0@ != key,
    ensures
        token_map_view(v).contains_key(key) == token_map_view(v.take(i)).contains_key(key),
        token_map_view(v).contains_key(key) ==> token_map_view(v)[key] == token_map_view(v.take(i))[key],
    decreases v.len() - i,
{
    if i < v.len() {
        assert(v.drop_last().take(i) == v.take(i));
        lemma_token_map_tail(v.drop_last(), i, key);
    } else {
        assert(v.take(i) == v);
    }
}

proof fn lemma_bindings_tail(v: Seq<(String, Vec<(String, ConsoleAction)>)>, i: int, key: Seq<char>)
    requires
        0 <= i <= v.len(),
        forall|j: int| i <= j < v.len() ==> #[trigger] v[j].0@ != key,
    ensures
        bindings_view(v).contains_key(key) == bindings_view(v.take(i)).contains_key(key),
        bindings_view(v).contains_key(key) ==> bindings_view(v)[key] == bindings_view(v.take(i))[key],
    decreases v.len() - i,
{
    if i < v.len() {
        assert(v.drop_last().take(i) == v.take(i));
        lemma_bindings_tail(v.drop_last(), i, key);
    } else {
        assert(v.take(i) == v);
    }
}

fn lookup_token(m: &Vec<(String, ConsoleAction)>, token: &str) -> (r: Option<ConsoleAction>)
    ensures
        r == (if token_map_view(m@).contains_key(token@) {
            Some(token_map_view(m@)[token@])
        } else {
            None
        }),
{
    let mut i: usize = m.len();
    while i > 0
        invariant
            i <= m.len(),
            forall|j: int| i <= j < m@.len() ==> #[trigger] m@[j].0@ != token@,
        decreases i,
    {
        if str_eq(m[i - 1].0.as_str(), token) {
            proof {
                lemma_token_map_tail(m@, i as int, token@);
                assert(m@.take(i as int).drop_last() == m@.take(i - 1));
            }
            return Some(m[i - 1].1);
        }
        i = i - 1;
    }
    proof {
        lemma_token_map_tail(m@, 0, token@);
    }
    None
}

impl ProfileBindings {
    /// No bindings.
    pub fn new() -> (b: Self)
        ensures
            b@ == Map::<Seq<char>, Map<Seq<char>, ConsoleAction>>::empty(),
    {
        ProfileBindings { entries: Vec::new() }
    }

    fn lookup(&self, alias: &str, token: &str) -> (r: Option<ConsoleAction>)
        ensures
            r == (if binds(self@, alias@, token@) {
                Some(self@[alias@][token@])
            } else {
                None
            }),
    {
        let mut i: usize = self.entries.len();
        while i > 0
            invariant
                i <= self.entries.len(),
                forall|j: int| i <= j < self.entries@.len() ==> #[trigger] self.entries@[j].0@ != alias@,
            decreases i,
        {
            if str_eq(self.entries[i - 1].0.as_str(), alias) {
                proof {
                    lemma_bindings_tail(self.entries@, i as int, alias@);
                    assert(self.entries@.take(i as int).drop_last() == self.entries@.take(i - 1));
                }
                return lookup_token(&self.entries[i - 1].1, token);
            }
            i = i - 1;
        }
        proof {
            lemma_bindings_tail(self.entries@, 0, alias@);
        }
        None
    }

    fn insert(&mut self, alias: String, map: Vec<(String, ConsoleAction)>)
        ensures
            final(self)@ == old(self)@.insert(alias@, token_map_view(map@)),
    {
        let ghost before = self.entries@;
        self.entries.push((alias, map));
        proof {
            assert(self.entries@.drop_last() == before);
        }
    }
}

fn copy_token_map(m: &Vec<(String, ConsoleAction)>) -> (r: Vec<(String, ConsoleAction)>)
    ensures
        token_map_view(r@) == token_map_view(m@),
{
    let mut r: Vec<(String, ConsoleAction)> = Vec::new();
    let mut i: usize = 0;
    while i < m.len()
        invariant
            i <= m.len(),
            token_map_view(r@) == token_map_view(m@.take(i as int)),
        decreases m.len() - i,
    {
        let ghost before = r@;
        r.push((m[i].0.clone(), m[i].1));
        proof {
            assert(r@.drop_last() == before);
            assert(m@.take(i + 1).drop_last() == m@.take(i as int));
        }
        i = i + 1;
    }
    proof {
        assert(m@.take(m.len() as int) == m@);
    }
    r
}

fn profile_tokens(p: &ControllerProfile) -> (r: Vec<(String, ConsoleAction)>)
    ensures
        token_map_view(r@) == profile_token_map(pair_views(p.mappings@)),
{
    let ghost pv = pair_views(p.mappings@);
    let mut r: Vec<(String, ConsoleAction)> = Vec::new();
    let mut i: usize = 0;
    while i < p.mappings.len()
        invariant
            i <= p.mappings.len(),
            pv == pair_views(p.mappings@),
            token_map_view(r@) == profile_token_map(pv.take(i as int)),
        decreases p.mappings.len() - i,
    {
        proof {
            assert(pv.take(i + 1).drop_last() == pv.take(i as int));
            assert(pv.take(i + 1).last() == (p.mappings@[i as int].0@, p.mappings@[i as int].1@));
        }
        match action_from_mapping_label(p.mappings[i].0.as_str()) {
            Some(a) => {
                let ghost before = r@;
                r.push((p.mappings[i].1.clone(), a));
                proof {
                    assert(r@.drop_last() == before);
                }
            },
            None => {},
        }
        i = i + 1;
    }
    proof {
        assert(pv.take(p.mappings@.len() as int) == pv);
    }
    r
}

/// The bindings of the saved controller profiles.
pub fn load_controller_profile_bindings(store: &ControllerStore) -> (b: ProfileBindings)
    ensures
        b@ == bindings_of(store.controllers@),
{
    let mut b = ProfileBindings::new();
    let mut i: usize = 0;
    while i < store.controllers.len()
        invariant
            i <= store.controllers.len(),
            b@ == bindings_of(store.controllers@.take(i as int)),
        decreases store.controllers.len() - i,
    {
        let p = &store.controllers[i];
        proof {
            assert(store.controllers@.take(i + 1).drop_last() == store.controllers@.take(i as int));
            assert(store.controllers@.take(i + 1).last() == *p);
        }
        if let Some(device_id) = &p.device_id {
            let tokens = profile_tokens(p);
            if tokens.len() > 0 {
                let aliases = device_id_aliases(device_id.as_str());
                let ghost av = aliases@.map_values(|s: String| s@);
                let ghost start = b@;
                let mut k: usize = 0;
                while k < aliases.len()
                    invariant
                        k <= aliases.len(),
                        av == aliases@.map_values(|s: String| s@),
                        b@ == with_keys(start, av.take(k as int).to_set(), token_map_view(tokens@)),
                    decreases aliases.len() - k,
                {
                    let m = copy_token_map(&tokens);
                    let ghost before = b@;
                    b.insert(aliases[k].clone(), m);
                    proof {
                        assert(av.take(k + 1) == av.take(k as int).push(av[k as int]));
                        av.take(k as int).lemma_push_to_set_commute(av[k as int]);
                        assert(b@ =~= with_keys(start, av.take(k + 1).to_set(), token_map_view(tokens@)));
                    }
                    k = k + 1;
                }
                proof {
                    assert(av.take(aliases@.len() as int) == av);
                    assert(tokens@.len() > 0);
                    let t = token_map_view(tokens@);
                    assert(t.contains_key(tokens@.last().0@));
                    assert(!(t.dom() =~= Set::empty()));
                }
            } else {
                proof {
                    assert(tokens@ == Seq::<(String, ConsoleAction)>::empty());
                    assert(token_map_view(tokens@).dom() =~= Set::<Seq<char>>::empty());
                }
            }
        }
        i = i + 1;
    }
    proof {
        assert(store.controllers@.take(store.controllers@.len() as int) == store.controllers@);
    }
    b
}

/// The action of `token` on device `device_id` under the profile bindings.
pub fn resolve_profile_action(bindings: &ProfileBindings, device_id: &str, token: &str) -> (r: Option<ConsoleAction>)
    ensures
        r == resolve_spec(bindings@, device_id@, token@),
{
    let aliases = device_id_aliases(device_id);
    let ghost av = aliases@.map_values(|s: String| s@);
    let ghost cands = alias_set(device_id@);
    let mut i: usize = 0;
    while i < aliases.len()
        invariant
            i <= aliases.len(),
            av == aliases@.map_values(|s: String| s@),
            av.to_set() == cands,
            cands == alias_set(device_id@),
            strictly_sorted(av),
            forall|j: int| 0 <= j < i ==> !binds(bindings@, #[trigger] av[j], token@),
        decreases aliases.len() - i,
    {
        let found = bindings.lookup(aliases[i].as_str(), token);
        if let Some(a) = found {
            proof {
                let k = av[i as int];
                assert(k == aliases@[i as int]@);
                assert(binds(bindings@, k, token@));
                assert(av.contains(k));
                assert(cands.contains(k));
                assert forall|k2: Seq<char>| #[trigger] alias_set(device_id@).contains(k2) && binds(bindings@, k2, token@) implies !lex_lt(k2, k) by {
                    assert(cands.contains(k2));
                    assert(av.contains(k2));
                    let j = choose|j: int| 0 <= j < av.len() && av[j] == k2;
                    if j < i {
                    } else if j == i {
                        lemma_lex_irreflexive(k);
                    } else {
                        assert(lex_lt(av[i as int], av[j]));
                        lemma_lex_asymmetric(k, k2);
                    }
                }
                assert(first_binding_alias(bindings@, device_id@, token@, k));
                let c = choose|c: Seq<char>| first_binding_alias(bindings@, device_id@, token@, c);
                if c != k {
                    crate::text::lemma_lex_total(c, k);
                }
            }
            return Some(a);
        }
        i = i + 1;
    }
    proof {
        if exists|k: Seq<char>| first_binding_alias(bindings@, device_id@, token@, k) {
            let k = choose|k: Seq<char>| first_binding_alias(bindings@, device_id@, token@, k);
            assert(av.to_set().contains(k));
            let j = choose|j: int| 0 <= j < av.len() && av[j] == k;
            assert(!binds(bindings@, av[j], token@));
        }
    }
    None
}


/// The two sides of controller axis `axis` of instance `instance_id`.
pub open spec fn controller_axis_sides(
    b: Map<Seq<char>, Map<Seq<char>, ConsoleAction>>,
    instance_id: u32,
    axis: ControllerAxis,
    device_id: Seq<char>,
    negative_mapped: bool,
) -> (DirectionSide, DirectionSide) {
    (
        DirectionSide {
            action: if negative_mapped {
                resolve_spec(b, device_id, controller_axis_token_spec(axis, -1i8))
            } else {
                None
            },
            source: SourceKey::ControllerAxis(instance_id, axis, -1i8),
            token: controller_axis_token_spec(axis, -1i8),
        },
        DirectionSide {
            action: resolve_spec(b, device_id, controller_axis_token_spec(axis, 1i8)),
            source: SourceKey::ControllerAxis(instance_id, axis, 1i8),
            token: controller_axis_token_spec(axis, 1i8),
        },
    )
}

/// What a controller axis motion does: the left stick moves both ways, the
/// triggers only press their positive side; the right stick does nothing.
pub open spec fn controller_axis_view(
    v: RouterView,
    b: Map<Seq<char>, Map<Seq<char>, ConsoleAction>>,
    axis: ControllerAxis,
    value: i16,
    now: u64,
    tag: ControllerTag,
) -> (RouterView, Seq<EventView>) {
    match axis {
        ControllerAxis::LeftX | ControllerAxis::LeftY => {
            let sides = controller_axis_sides(b, tag.instance_id, axis, tag.device_id, true);
            direction_view(v, sides.0, sides.1, axis_direction_spec(value), (now + DEFAULT_INITIAL_REPEAT_DELAY_MS) as u64, tag)
        },
        ControllerAxis::TriggerLeft | ControllerAxis::TriggerRight => {
            let sides = controller_axis_sides(b, tag.instance_id, axis, tag.device_id, false);
            direction_view(v, sides.0, sides.1, trigger_direction_spec(value), (now + DEFAULT_INITIAL_REPEAT_DELAY_MS) as u64, tag)
        },
        _ => (v, seq![]),
    }
}

/// The two sides of joystick axis `axis_idx` of instance `instance_id`.
pub open spec fn joystick_axis_sides(
    b: Map<Seq<char>, Map<Seq<char>, ConsoleAction>>,
    instance_id: u32,
    axis_idx: u8,
    device_id: Seq<char>,
) -> (DirectionSide, DirectionSide) {
    (
        DirectionSide {
            action: resolve_spec(b, device_id, joystick_axis_token_spec(axis_idx, -1i8)),
            source: SourceKey::JoystickAxis(instance_id, axis_idx, -1i8),
            token: joystick_axis_token_spec(axis_idx, -1i8),
        },
        DirectionSide {
            action: resolve_spec(b, device_id, joystick_axis_token_spec(axis_idx, 1i8)),
            source: SourceKey::JoystickAxis(instance_id, axis_idx, 1i8),
            token: joystick_axis_token_spec(axis_idx, 1i8),
        },
    )
}

/// What a joystick axis motion does: axes 0 and 1 move both ways, the
/// others do nothing.
pub open spec fn joystick_axis_view(
    v: RouterView,
    b: Map<Seq<char>, Map<Seq<char>, ConsoleAction>>,
    axis_idx: u8,
    direction: i8,
    now: u64,
    tag: ControllerTag,
) -> (RouterView, Seq<EventView>) {
    if axis_idx == 0 || axis_idx == 1 {
        let sides = joystick_axis_sides(b, tag.instance_id, axis_idx, tag.device_id);
        direction_view(v, sides.0, sides.1, direction, (now + DEFAULT_INITIAL_REPEAT_DELAY_MS) as u64, tag)
    } else {
        (v, seq![])
    }
}

/// What pressing (`down`) or letting go of a controller button does: a
/// mapped button presses or releases its action, an unmapped one is tracked
/// on its own; an event comes only when something changed.
pub open spec fn button_view(
    v: RouterView,
    b: Map<Seq<char>, Map<Seq<char>, ConsoleAction>>,
    src: SourceKey,
    token: Seq<char>,
    down: bool,
    now: u64,
    tag: ControllerTag,
) -> (RouterView, Seq<EventView>) {
    let action = resolve_spec(b, tag.device_id, token);
    let (nv, changed) = match action {
        Some(a) => if down {
            press_view(v, a, src, (now + DEFAULT_INITIAL_REPEAT_DELAY_MS) as u64)
        } else {
            release_view(v, a, src)
        },
        None => if down {
            unmapped_press_view(v, src)
        } else {
            unmapped_release_view(v, src)
        },
    };
    (nv, if changed { seq![controller_event(tag, action, token, down)] } else { seq![] })
}

/// A mapped keyboard event.
pub open spec fn keyboard_event(a: ConsoleAction, key_name: Seq<char>, device_name: Seq<char>, pressed: bool, timestamp: u32) -> EventView {
    EventView {
        phase: if pressed { ConsoleInputPhase::Pressed } else { ConsoleInputPhase::Released },
        source: EventSourceView::Keyboard(key_name, device_name),
        action: Some(a),
        token: "Keyboard:"@ + key_name,
        pressed,
        timestamp,
        controller_name: device_name,
    }
}

/// What a raw key event does (`value` 1 press, 0 release, else repeat): a
/// navigation key presses or releases its action; other keys and key
/// repeats do nothing.
pub open spec fn keyboard_key_view(
    v: RouterView,
    device_node: Seq<char>,
    device_name: Seq<char>,
    key_code: u16,
    value: i32,
    timestamp: u32,
    now: u64,
) -> (RouterView, Seq<EventView>) {
    match raw_key_action(key_code) {
        None => (v, seq![]),
        Some(a) => {
            let src = SourceKey::Keyboard(device_node, key_code);
            if value == 1 {
                let (nv, p) = press_view(v, a, src, (now + DEFAULT_INITIAL_REPEAT_DELAY_MS) as u64);
                (nv, if p { seq![keyboard_event(a, key_name_spec(key_code), device_name, true, timestamp)] } else { seq![] })
            } else if value == 0 {
                let (nv, r) = release_view(v, a, src);
                (nv, if r { seq![keyboard_event(a, key_name_spec(key_code), device_name, false, timestamp)] } else { seq![] })
            } else {
                (v, seq![])
            }
        },
    }
}

impl ActionRouter {
    /// A controller axis moved to `value`.
    pub fn handle_controller_axis_event(
        &mut self,
        bindings: &ProfileBindings,
        instance_id: u32,
        axis: ControllerAxis,
        value: i16,
        timestamp: u32,
        device_id: &str,
        controller_name: &str,
        now: u64,
        events: &mut Vec<ConsoleInputEvent>,
    )
        requires
            old(self).wf(),
            now + DEFAULT_INITIAL_REPEAT_DELAY_MS <= u64::MAX,
        ensures
            final(self).wf(),
            ({
                let (nv, evs) = controller_axis_view(
                    old(self)@,
                    bindings@,
                    axis,
                    value,
                    now,
                    ControllerTag { instance_id, device_id: device_id@, name: controller_name@, timestamp },
                );
                &&& final(self)@ == nv
                &&& event_views(final(events)@) == event_views(old(events)@) + evs
            }),
    {
        let (direction, negative_mapped) = match axis {
            ControllerAxis::LeftX | ControllerAxis::LeftY => (axis_direction(value), true),
            ControllerAxis::TriggerLeft | ControllerAxis::TriggerRight => (trigger_axis_direction(value), false),
            _ => {
                return;
            },
        };
        let neg_token = controller_axis_token_for(axis, -1i8);
        let pos_token = controller_axis_token_for(axis, 1i8);
        let neg_action = if negative_mapped {
            resolve_profile_action(bindings, device_id, neg_token.as_str())
        } else {
            None
        };
        let pos_action = resolve_profile_action(bindings, device_id, pos_token.as_str());
        self.handle_direction_transition(
            neg_action,
            &SourceId::ControllerAxis { instance_id, axis, direction: -1 },
            neg_token.as_str(),
            pos_action,
            &SourceId::ControllerAxis { instance_id, axis, direction: 1 },
            pos_token.as_str(),
            direction,
            now,
            DEFAULT_INITIAL_REPEAT_DELAY_MS,
            instance_id,
            device_id,
            controller_name,
            timestamp,
            events,
        );
    }

    /// A joystick axis moved to `value`.
    pub fn handle_joystick_axis_event(
        &mut self,
        bindings: &ProfileBindings,
        instance_id: u32,
        axis_idx: u8,
        value: i16,
        timestamp: u32,
        device_id: &str,
        controller_name: &str,
        now: u64,
        events: &mut Vec<ConsoleInputEvent>,
    )
        requires
            old(self).wf(),
            now + DEFAULT_INITIAL_REPEAT_DELAY_MS <= u64::MAX,
        ensures
            final(self).wf(),
            ({
                let (nv, evs) = joystick_axis_view(
                    old(self)@,
                    bindings@,
                    axis_idx,
                    axis_direction_spec(value),
                    now,
                    ControllerTag { instance_id, device_id: device_id@, name: controller_name@, timestamp },
                );
                &&& final(self)@ == nv
                &&& event_views(final(events)@) == event_views(old(events)@) + evs
            }),
    {
        self.joystick_axis_direction(bindings, instance_id, axis_idx, axis_direction(value), timestamp, device_id, controller_name, now, events);
    }

    fn joystick_axis_direction(
        &mut self,
        bindings: &ProfileBindings,
        instance_id: u32,
        axis_idx: u8,
        direction: i8,
        timestamp: u32,
        device_id: &str,
        controller_name: &str,
        now: u64,
        events: &mut Vec<ConsoleInputEvent>,
    )
        requires
            old(self).wf(),
            now + DEFAULT_INITIAL_REPEAT_DELAY_MS <= u64::MAX,
        ensures
            final(self).wf(),
            ({
                let (nv, evs) = joystick_axis_view(
                    old(self)@,
                    bindings@,
                    axis_idx,
                    direction,
                    now,
                    ControllerTag { instance_id, device_id: device_id@, name: controller_name@, timestamp },
                );
                &&& final(self)@ == nv
                &&& event_views(final(events)@) == event_views(old(events)@) + evs
            }),
    {
        if axis_idx != 0 && axis_idx != 1 {
            proof {
                assert(event_views(events@) =~= event_views(events@) + Seq::<EventView>::empty());
            }
            return;
        }
        let neg_token = joystick_axis_token_for(axis_idx, -1i8);
        let pos_token = joystick_axis_token_for(axis_idx, 1i8);
        let (neg_action, pos_action) = joystick_axis_actions(bindings, device_id, axis_idx);
        self.handle_direction_transition(
            neg_action,
            &SourceId::JoystickAxis { instance_id, axis_idx, direction: -1 },
            neg_token.as_str(),
            pos_action,
            &SourceId::JoystickAxis { instance_id, axis_idx, direction: 1 },
            pos_token.as_str(),
            direction,
            now,
            DEFAULT_INITIAL_REPEAT_DELAY_MS,
            instance_id,
            device_id,
            controller_name,
            timestamp,
            events,
        );
    }

    /// A controller or joystick button went down (`down`) or up; `source`
    /// is the button and `token` its token.
    pub fn handle_button(
        &mut self,
        bindings: &ProfileBindings,
        source: &SourceId,
        token: &str,
        down: bool,
        instance_id: u32,
        device_id: &str,
        controller_name: &str,
        timestamp: u32,
        now: u64,
        events: &mut Vec<ConsoleInputEvent>,
    )
        requires
            old(self).wf(),
            now + DEFAULT_INITIAL_REPEAT_DELAY_MS <= u64::MAX,
        ensures
            final(self).wf(),
            ({
                let (nv, evs) = button_view(
                    old(self)@,
                    bindings@,
                    source@,
                    token@,
                    down,
                    now,
                    ControllerTag { instance_id, device_id: device_id@, name: controller_name@, timestamp },
                );
                &&& final(self)@ == nv
                &&& event_views(final(events)@) == event_views(old(events)@) + evs
            }),
    {
        let ghost ev0 = event_views(events@);
        let action = resolve_profile_action(bindings, device_id, token);
        let changed = match action {
            Some(a) => if down {
                self.push_action(a, source, now, DEFAULT_INITIAL_REPEAT_DELAY_MS)
            } else {
                self.release_action(a, source)
            },
            None => if down {
                self.press_unmapped(source)
            } else {
                self.release_unmapped(source)
            },
        };
        if changed {
            events.push(controller_input_event(instance_id, device_id, controller_name, action, token, down, timestamp));
        }
        proof {
            let tag = ControllerTag { instance_id, device_id: device_id@, name: controller_name@, timestamp };
            if changed {
                assert(event_views(events@) =~= ev0 + seq![controller_event(tag, action, token@, down)]);
            } else {
                assert(event_views(events@) =~= ev0 + Seq::<EventView>::empty());
            }
        }
    }

    /// A raw key event of a keyboard.
    pub fn handle_keyboard_key(
        &mut self,
        device_node: &str,
        device_name: &str,
        key_code: u16,
        value: i32,
        timestamp: u32,
        now: u64,
        events: &mut Vec<ConsoleInputEvent>,
    )
        requires
            old(self).wf(),
            now + DEFAULT_INITIAL_REPEAT_DELAY_MS <= u64::MAX,
        ensures
            final(self).wf(),
            ({
                let (nv, evs) = keyboard_key_view(old(self)@, device_node@, device_name@, key_code, value, timestamp, now);
                &&& final(self)@ == nv
                &&& event_views(final(events)@) == event_views(old(events)@) + evs
            }),
    {
        let ghost ev0 = event_views(events@);
        let action = match raw_keyboard_action(key_code) {
            None => {
                proof {
                    assert(event_views(events@) =~= ev0 + Seq::<EventView>::empty());
                }
                return;
            },
            Some(a) => a,
        };
        if value != 1 && value != 0 {
            proof {
                assert(event_views(events@) =~= ev0 + Seq::<EventView>::empty());
            }
            return;
        }
        let source = SourceId::Keyboard { device_node: owned(device_node), key_code };
        let pressed = value == 1;
        let changed = if pressed {
            self.push_action(action, &source, now, DEFAULT_INITIAL_REPEAT_DELAY_MS)
        } else {
            self.release_action(action, &source)
        };
        if changed {
            let key_name = key_code_name(key_code);
            let mut token = owned("Keyboard:");
            push_str(&mut token, key_name);
            events.push(ConsoleInputEvent {
                phase: if pressed { ConsoleInputPhase::Pressed } else { ConsoleInputPhase::Released },
                source: ConsoleInputSource::Keyboard { keycode: owned(key_name), device_name: owned(device_name) },
                action: Some(action),
                token,
                pressed,
                timestamp,
                controller_name: owned(device_name),
            });
        }
        proof {
            if changed {
                assert(event_views(events@) =~= ev0 + seq![keyboard_event(action, key_name_spec(key_code), device_name@, pressed, timestamp)]);
            } else {
                assert(event_views(events@) =~= ev0 + Seq::<EventView>::empty());
            }
        }
    }
}

/// The actions of the two directions of joystick axis `axis_idx` (0 and 1
/// only).
pub fn joystick_axis_actions(bindings: &ProfileBindings, device_id: &str, axis_idx: u8) -> (r: (Option<ConsoleAction>, Option<ConsoleAction>))
    ensures
        r == (if axis_idx == 0 || axis_idx == 1 {
            (
                resolve_spec(bindings@, device_id@, joystick_axis_token_spec(axis_idx, -1i8)),
                resolve_spec(bindings@, device_id@, joystick_axis_token_spec(axis_idx, 1i8)),
            )
        } else {
            (None, None)
        }),
{
    if axis_idx == 0 || axis_idx == 1 {
        let n = joystick_axis_token_for(axis_idx, -1i8);
        let p = joystick_axis_token_for(axis_idx, 1i8);
        (resolve_profile_action(bindings, device_id, n.as_str()), resolve_profile_action(bindings, device_id, p.as_str()))
    } else {
        (None, None)
    }
}


/// A sweep drops the sources of controller `instance`, or with `None` all
/// controller and joystick sources (keyboard sources stay).
pub open spec fn dropped_by(k: SourceKey, instance: Option<u32>) -> bool {
    match instance {
        Some(i) => source_instance(k) == Some(i),
        None => source_instance(k) is Some,
    }
}

/// The sources that a sweep keeps.
pub open spec fn swept_set(s: Set<SourceKey>, instance: Option<u32>) -> Set<SourceKey> {
    s.filter(|k: SourceKey| !dropped_by(k, instance))
}

/// The sweep dropped some source of slot `i` and left it empty.
pub open spec fn slot_emptied(v: RouterView, i: int, instance: Option<u32>) -> bool {
    &&& exists|k: SourceKey| #[trigger] v.active[i].contains(k) && dropped_by(k, instance)
    &&& swept_set(v.active[i], instance) =~= Set::empty()
}

/// The state after a sweep.
pub open spec fn sweep_view(v: RouterView, instance: Option<u32>) -> RouterView {
    RouterView {
        active: Seq::new(8, |i: int| swept_set(v.active[i], instance)),
        repeat_at: Seq::new(8, |i: int| if slot_emptied(v, i, instance) { None } else { v.repeat_at[i] }),
        unmapped: v.unmapped,
    }
}

/// The release of an action whose sources went away.
pub open spec fn released_all_event(a: ConsoleAction, instance_id: u32, name: Seq<char>, timestamp: u32) -> EventView {
    EventView {
        phase: ConsoleInputPhase::Released,
        source: EventSourceView::Controller(instance_id, ""@, name),
        action: Some(a),
        token: "RELEASED:"@ + action_name(a),
        pressed: false,
        timestamp,
        controller_name: name,
    }
}

/// The events of a sweep for the first `n` action slots.
pub open spec fn sweep_events(v: RouterView, instance: Option<u32>, event_instance: u32, name: Seq<char>, timestamp: u32, n: nat) -> Seq<EventView>
    decreases n,
{
    if n == 0 {
        seq![]
    } else {
        sweep_events(v, instance, event_instance, name, timestamp, (n - 1) as nat) + if slot_emptied(v, n - 1, instance) {
            seq![released_all_event(slot_action(n - 1), event_instance, name, timestamp)]
        } else {
            seq![]
        }
    }
}

/// When a held action next repeats, and whether it repeats now.
pub open spec fn tick_slot(held: Set<SourceKey>, at: Option<u64>, now: u64, initial: u64, interval: u64) -> (Option<u64>, bool) {
    if held =~= Set::empty() {
        (at, false)
    } else {
        let due = match at {
            Some(t) => t,
            None => (now + initial) as u64,
        };
        if now >= due {
            (Some((now + interval) as u64), true)
        } else {
            (Some(due), false)
        }
    }
}

/// The state after a repeat tick.
pub open spec fn tick_view(v: RouterView, now: u64, initial: u64, interval: u64) -> RouterView {
    RouterView {
        repeat_at: Seq::new(8, |i: int| tick_slot(v.active[i], v.repeat_at[i], now, initial, interval).0),
        ..v
    }
}

/// The repeat event of a held action.
pub open spec fn repeat_event(a: ConsoleAction, timestamp: u32) -> EventView {
    EventView {
        phase: ConsoleInputPhase::Repeat,
        source: EventSourceView::Keyboard("repeat"@, ""@),
        action: Some(a),
        token: "REPEAT:"@ + action_name(a),
        pressed: true,
        timestamp,
        controller_name: ""@,
    }
}

/// The repeat events of a tick for the first `n` action slots.
pub open spec fn tick_events(v: RouterView, now: u64, initial: u64, interval: u64, timestamp: u32, n: nat) -> Seq<EventView>
    decreases n,
{
    if n == 0 {
        seq![]
    } else {
        tick_events(v, now, initial, interval, timestamp, (n - 1) as nat) + if tick_slot(
            v.active[n - 1],
            v.repeat_at[n - 1],
            now,
            initial,
            interval,
        ).1 {
            seq![repeat_event(slot_action(n - 1), timestamp)]
        } else {
            seq![]
        }
    }
}

fn dropped_exec(k: &SourceId, instance: Option<u32>) -> (r: bool)
    ensures
        r == dropped_by(k@, instance),
{
    let own = source_instance_of(k);
    match instance {
        Some(i) => match own {
            Some(j) => i == j,
            None => false,
        },
        None => own.is_some(),
    }
}

fn released_all(a: ConsoleAction, instance_id: u32, name: &str, timestamp: u32) -> (e: ConsoleInputEvent)
    ensures
        e@ == released_all_event(a, instance_id, name@, timestamp),
{
    let mut token = owned("RELEASED:");
    push_str(&mut token, a.as_str());
    let empty = String::new();
    proof {
        reveal_strlit("");
        assert(empty@ =~= ""@);
    }
    ConsoleInputEvent {
        phase: ConsoleInputPhase::Released,
        source: ConsoleInputSource::Controller { instance_id, device_id: empty, controller_name: owned(name) },
        action: Some(a),
        token,
        pressed: false,
        timestamp,
        controller_name: owned(name),
    }
}

fn repeat_event_exec(a: ConsoleAction, timestamp: u32) -> (e: ConsoleInputEvent)
    ensures
        e@ == repeat_event(a, timestamp),
{
    let mut token = owned("REPEAT:");
    push_str(&mut token, a.as_str());
    let empty = String::new();
    let empty2 = String::new();
    proof {
        reveal_strlit("");
        assert(empty@ =~= ""@);
        assert(empty2@ =~= ""@);
    }
    ConsoleInputEvent {
        phase: ConsoleInputPhase::Repeat,
        source: ConsoleInputSource::Keyboard { keycode: owned("repeat"), device_name: empty },
        action: Some(a),
        token,
        pressed: true,
        timestamp,
        controller_name: empty2,
    }
}

fn keep_sources(v: &Vec<SourceId>, instance: Option<u32>) -> (r: (Vec<SourceId>, bool))
    requires
        distinct_keys(v@),
    ensures
        distinct_keys(r.0@),
        key_set(r.0@) == swept_set(key_set(v@), instance),
        r.1 == exists|k: SourceKey| #[trigger] key_set(v@).contains(k) && dropped_by(k, instance),
{
    let mut kept: Vec<SourceId> = Vec::new();
    let mut removed_any = false;
    let mut i: usize = 0;
    while i < v.len()
        invariant
            i <= v.len(),
            distinct_keys(v@),
            distinct_keys(kept@),
            key_set(kept@) == swept_set(key_set(v@.take(i as int)), instance),
            forall|j: int| 0 <= j < kept@.len() ==> exists|m: int| 0 <= m < i && #[trigger] kept@[j]@ == v@[m]@,
            removed_any == exists|m: int| 0 <= m < i && #[trigger] dropped_by(v@[m]@, instance),
        decreases v.len() - i,
    {
        let ghost before = kept@;
        let ghost t0 = v@.take(i as int);
        let ghost t1 = v@.take(i + 1);
        proof {
            assert(t1 == t0.push(v@[i as int]));
            assert(key_set(t1) =~= key_set(t0).insert(v@[i as int]@)) by {
                assert forall|k: SourceKey| key_set(t1).contains(k) == key_set(t0).insert(v@[i as int]@).contains(k) by {
                    if key_set(t1).contains(k) {
                        let j = choose|j: int| 0 <= j < t1.len() && t1[j]@ == k;
                        if j < t0.len() {
                            assert(t0[j]@ == k);
                        }
                    }
                    if key_set(t0).contains(k) {
                        let j = choose|j: int| 0 <= j < t0.len() && t0[j]@ == k;
                        assert(t1[j]@ == k);
                    }
                    if k == v@[i as int]@ {
                        assert(t1[i as int]@ == k);
                    }
                }
            }
        }
        if dropped_exec(&v[i], instance) {
            removed_any = true;
            proof {
                assert(key_set(t1).contains(v@[i as int]@));
                assert(swept_set(key_set(t1), instance) =~= swept_set(key_set(t0), instance));
            }
        } else {
            kept.push(copy_source(&v[i]));
            proof {
                assert(kept@[before.len() as int]@ == v@[i as int]@);
                assert(key_set(kept@) =~= key_set(before).insert(v@[i as int]@)) by {
                    assert forall|k: SourceKey| key_set(kept@).contains(k) == key_set(before).insert(v@[i as int]@).contains(k) by {
                        if key_set(kept@).contains(k) {
                            let j = choose|j: int| 0 <= j < kept@.len() && kept@[j]@ == k;
                            if j < before.len() {
                                assert(before[j]@ == k);
                            }
                        }
                        if key_set(before).contains(k) {
                            let j = choose|j: int| 0 <= j < before.len() && before[j]@ == k;
                            assert(kept@[j]@ == k);
                        }
                    }
                }
                assert(swept_set(key_set(t1), instance) =~= swept_set(key_set(t0), instance).insert(v@[i as int]@));
                assert forall|a: int, b: int| 0 <= a < kept@.len() && 0 <= b < kept@.len() && a != b implies kept@[a]@ != kept@[b]@ by {
                    if a < before.len() && b < before.len() {
                        assert(kept@[a] == before[a] && kept@[b] == before[b]);
                    } else if a < before.len() {
                        assert(kept@[a] == before[a]);
                        let m = choose|m: int| 0 <= m < i && #[trigger] before[a]@ == v@[m]@;
                        assert(v@[m]@ != v@[i as int]@);
                    } else if b < before.len() {
                        assert(kept@[b] == before[b]);
                        let m = choose|m: int| 0 <= m < i && #[trigger] before[b]@ == v@[m]@;
                        assert(v@[m]@ != v@[i as int]@);
                    }
                }
                assert forall|j: int| 0 <= j < kept@.len() implies exists|m: int| 0 <= m < i + 1 && #[trigger] kept@[j]@ == v@[m]@ by {
                    if j < before.len() {
                        assert(kept@[j] == before[j]);
                        let m = choose|m: int| 0 <= m < i && #[trigger] before[j]@ == v@[m]@;
                        assert(kept@[j]@ == v@[m]@);
                    } else {
                        assert(kept@[j]@ == v@[i as int]@);
                    }
                }
            }
        }
        i = i + 1;
    }
    proof {
        assert(v@.take(v@.len() as int) == v@);
        if removed_any {
            let m = choose|m: int| 0 <= m < v@.len() && #[trigger] dropped_by(v@[m]@, instance);
            assert(key_set(v@).contains(v@[m]@));
        }
        if exists|k: SourceKey| #[trigger] key_set(v@).contains(k) && dropped_by(k, instance) {
            let k = choose|k: SourceKey| #[trigger] key_set(v@).contains(k) && dropped_by(k, instance);
            let m = choose|m: int| 0 <= m < v@.len() && v@[m]@ == k;
            assert(dropped_by(v@[m]@, instance));
        }
    }
    (kept, removed_any)
}

impl ActionRouter {
    fn sweep(&mut self, instance: Option<u32>, event_instance: u32, name: &str, timestamp: u32, events: &mut Vec<ConsoleInputEvent>)
        requires
            old(self).wf(),
        ensures
            final(self).wf(),
            final(self)@ == sweep_view(old(self)@, instance),
            event_views(final(events)@) == event_views(old(events)@) + sweep_events(old(self)@, instance, event_instance, name@, timestamp, 8),
    {
        proof {
            self.lemma_view();
        }
        let ghost v0 = self@;
        let ghost states0 = self.states@;
        let ghost ev0 = event_views(events@);
        let mut i: usize = 0;
        while i < 8
            invariant
                i <= 8,
                self.wf(),
                states0.len() == 8,
                forall|j: int| i <= j < 8 ==> #[trigger] self.states@[j] == states0[j],
                forall|j: int| 0 <= j < 8 ==> #[trigger] v0.active[j] == key_set(states0[j].sources@),
                forall|j: int| 0 <= j < 8 ==> #[trigger] v0.repeat_at[j] == states0[j].next_repeat_at,
                v0.active.len() == 8,
                v0.repeat_at.len() == 8,
                self.unmapped@ == old(self).unmapped@,
                v0.unmapped == key_set(old(self).unmapped@),
                forall|j: int| 0 <= j < i ==> #[trigger] key_set(self.states@[j].sources@) == swept_set(v0.active[j], instance),
                forall|j: int| 0 <= j < i ==> #[trigger] self.states@[j].next_repeat_at == (if slot_emptied(v0, j, instance) {
                    None
                } else {
                    v0.repeat_at[j]
                }),
                event_views(events@) == ev0 + sweep_events(v0, instance, event_instance, name@, timestamp, i as nat),
            decreases 8 - i,
        {
            let ghost pre = self.states@;
            let (kept, removed_any) = keep_sources(&self.states[i].sources, instance);
            let emptied = removed_any && kept.len() == 0;
            let next = if emptied { None } else { self.states[i].next_repeat_at };
            let ghost ev_before = event_views(events@);
            proof {
                assert(self.states@[i as int] == states0[i as int]);
                if kept@.len() > 0 {
                    assert(key_set(kept@).contains(kept@[0]@));
                }
                assert((key_set(kept@) =~= Set::<SourceKey>::empty()) == (kept@.len() == 0));
                assert(v0.active[i as int] == key_set(states0[i as int].sources@));
                assert(emptied == slot_emptied(v0, i as int, instance));
                if kept@.len() == 0 && !removed_any {
                    assert(swept_set(v0.active[i as int], instance) =~= v0.active[i as int]);
                    let old_src = states0[i as int].sources@;
                    if old_src.len() > 0 {
                        assert(key_set(old_src).contains(old_src[0]@));
                        assert(swept_set(v0.active[i as int], instance).contains(old_src[0]@));
                    }
                    assert(old_src.len() == 0);
                }
            }
            self.states.set(i, ActionState { sources: kept, next_repeat_at: next });
            if emptied {
                events.push(released_all(ConsoleAction::from_slot(i), event_instance, name, timestamp));
            }
            proof {
                assert forall|j: int| 0 <= j < 8 && j != i implies #[trigger] self.states@[j] == pre[j] by {}
                if emptied {
                    assert(event_views(events@) =~= ev_before + seq![released_all_event(slot_action(i as int), event_instance, name@, timestamp)]);
                } else {
                    assert(event_views(events@) =~= ev_before);
                }
                assert(sweep_events(v0, instance, event_instance, name@, timestamp, (i + 1) as nat)
                    == sweep_events(v0, instance, event_instance, name@, timestamp, i as nat) + if slot_emptied(v0, i as int, instance) {
                    seq![released_all_event(slot_action(i as int), event_instance, name@, timestamp)]
                } else {
                    seq![]
                });
                assert(event_views(events@) =~= ev0 + sweep_events(v0, instance, event_instance, name@, timestamp, (i + 1) as nat));
            }
            i = i + 1;
        }
        proof {
            self.lemma_view();
            assert(self@.active =~= sweep_view(v0, instance).active);
            assert(self@.repeat_at =~= sweep_view(v0, instance).repeat_at);
            assert(self@ =~= sweep_view(v0, instance));
        }
    }

    /// Controller `controller_instance_id` went away: every action it held
    /// lets go of it, and each action that nothing holds any more is
    /// released with an event.
    pub fn remove_controller_from_states(
        &mut self,
        controller_instance_id: u32,
        timestamp: u32,
        controller_name: &str,
        events: &mut Vec<ConsoleInputEvent>,
    )
        requires
            old(self).wf(),
        ensures
            final(self).wf(),
            final(self)@ == sweep_view(old(self)@, Some(controller_instance_id)),
            event_views(final(events)@) == event_views(old(events)@) + sweep_events(
                old(self)@,
                Some(controller_instance_id),
                controller_instance_id,
                controller_name@,
                timestamp,
                8,
            ),
    {
        self.sweep(Some(controller_instance_id), controller_instance_id, controller_name, timestamp, events);
    }

    /// The controller profiles changed: every controller and joystick source
    /// lets go, and each action that nothing holds any more is released.
    pub fn clear_controller_action_states(&mut self, timestamp: u32, events: &mut Vec<ConsoleInputEvent>)
        requires
            old(self).wf(),
        ensures
            final(self).wf(),
            final(self)@ == sweep_view(old(self)@, None),
            event_views(final(events)@) == event_views(old(events)@) + sweep_events(old(self)@, None, 0, ""@, timestamp, 8),
    {
        proof {
            reveal_strlit("");
        }
        self.sweep(None, 0, "", timestamp, events);
    }

    /// Forgets the held unmapped sources.
    pub fn clear_unmapped_sources(&mut self)
        requires
            old(self).wf(),
        ensures
            final(self).wf(),
            final(self)@ == (RouterView { unmapped: Set::empty(), ..old(self)@ }),
    {
        self.unmapped = Vec::new();
        proof {
            assert(key_set(self.unmapped@) =~= Set::<SourceKey>::empty());
        }
    }

    /// The periodic repeat: each held action gets a first repeat time if it
    /// has none, and each whose repeat time has come repeats now (with an
    /// event) and next `interval` later.
    pub fn repeat_tick(&mut self, now: u64, initial_delay: u64, interval: u64, timestamp: u32, events: &mut Vec<ConsoleInputEvent>)
        requires
            old(self).wf(),
            now + initial_delay <= u64::MAX,
            now + interval <= u64::MAX,
        ensures
            final(self).wf(),
            final(self)@ == tick_view(old(self)@, now, initial_delay, interval),
            event_views(final(events)@) == event_views(old(events)@) + tick_events(old(self)@, now, initial_delay, interval, timestamp, 8),
    {
        proof {
            self.lemma_view();
        }
        let ghost v0 = self@;
        let ghost states0 = self.states@;
        let ghost ev0 = event_views(events@);
        let mut i: usize = 0;
        while i < 8
            invariant
                i <= 8,
                self.wf(),
                states0.len() == 8,
                forall|j: int| i <= j < 8 ==> #[trigger] self.states@[j] == states0[j],
                forall|j: int| 0 <= j < 8 ==> #[trigger] self.states@[j].sources@ == states0[j].sources@,
                forall|j: int| 0 <= j < 8 ==> #[trigger] v0.active[j] == key_set(states0[j].sources@),
                forall|j: int| 0 <= j < 8 ==> #[trigger] v0.repeat_at[j] == states0[j].next_repeat_at,
                v0.active.len() == 8,
                v0.repeat_at.len() == 8,
                self.unmapped@ == old(self).unmapped@,
                v0.unmapped == key_set(old(self).unmapped@),
                now + initial_delay <= u64::MAX,
                now + interval <= u64::MAX,
                forall|j: int| 0 <= j < i ==> #[trigger] self.states@[j].next_repeat_at == tick_slot(
                    v0.active[j],
                    v0.repeat_at[j],
                    now,
                    initial_delay,
                    interval,
                ).0,
                event_views(events@) == ev0 + tick_events(v0, now, initial_delay, interval, timestamp, i as nat),
            decreases 8 - i,
        {
            let ghost pre = self.states@;
            let ghost ev_before = event_views(events@);
            proof {
                assert(self.states@[i as int] == states0[i as int]);
                let src = states0[i as int].sources@;
                if src.len() > 0 {
                    assert(key_set(src).contains(src[0]@));
                }
                assert((key_set(src) =~= Set::<SourceKey>::empty()) == (src.len() == 0));
            }
            let mut fired = false;
            if self.states[i].sources.len() > 0 {
                let due = match self.states[i].next_repeat_at {
                    Some(t) => t,
                    None => now + initial_delay,
                };
                let mut st = ActionState { sources: Vec::new(), next_repeat_at: None };
                std::mem::swap(&mut st, &mut self.states[i]);
                if now >= due {
                    st.next_repeat_at = Some(now + interval);
                    fired = true;
                } else {
                    st.next_repeat_at = Some(due);
                }
                std::mem::swap(&mut st, &mut self.states[i]);
            }
            if fired {
                events.push(repeat_event_exec(ConsoleAction::from_slot(i), timestamp));
            }
            proof {
                assert forall|j: int| 0 <= j < 8 && j != i implies #[trigger] self.states@[j] == pre[j] by {}
                assert(fired == tick_slot(v0.active[i as int], v0.repeat_at[i as int], now, initial_delay, interval).1);
                if fired {
                    assert(event_views(events@) =~= ev_before + seq![repeat_event(slot_action(i as int), timestamp)]);
                } else {
                    assert(event_views(events@) =~= ev_before);
                }
                assert(event_views(events@) =~= ev0 + tick_events(v0, now, initial_delay, interval, timestamp, (i + 1) as nat));
            }
            i = i + 1;
        }
        proof {
            self.lemma_view();
            assert(self@.active =~= v0.active);
            assert(self@.repeat_at =~= tick_view(v0, now, initial_delay, interval).repeat_at);
            assert(self@ =~= tick_view(v0, now, initial_delay, interval));
        }
    }
}


/// What the poll of joystick button `idx` (down, up, or unreadable) does to
/// the mapped action of the button.
pub open spec fn joystick_button_poll(
    v: RouterView,
    b: Map<Seq<char>, Map<Seq<char>, ConsoleAction>>,
    idx: u8,
    reading: Option<bool>,
    now: u64,
    tag: ControllerTag,
) -> (RouterView, Seq<EventView>) {
    let token = "SDL_JOYSTICK_BUTTON_"@ + decimal(idx as nat);
    match reading {
        None => (v, seq![]),
        Some(down) => match resolve_spec(b, tag.device_id, token) {
            None => (v, seq![]),
            Some(a) => {
                let src = SourceKey::JoystickButton(tag.instance_id, idx);
                let (nv, changed) = if down {
                    press_view(v, a, src, (now + DEFAULT_INITIAL_REPEAT_DELAY_MS) as u64)
                } else {
                    release_view(v, a, src)
                };
                (nv, if changed { seq![controller_event(tag, Some(a), token, down)] } else { seq![] })
            },
        },
    }
}

/// The polls of the first `n` buttons of a joystick, in order.
pub open spec fn reconcile_buttons(
    v: RouterView,
    b: Map<Seq<char>, Map<Seq<char>, ConsoleAction>>,
    buttons: Seq<Option<bool>>,
    n: nat,
    now: u64,
    tag: ControllerTag,
) -> (RouterView, Seq<EventView>)
    decreases n,
{
    if n == 0 {
        (v, seq![])
    } else {
        let (v1, e1) = reconcile_buttons(v, b, buttons, (n - 1) as nat, now, tag);
        let (v2, e2) = joystick_button_poll(v1, b, (n - 1) as u8, buttons[n - 1], now, tag);
        (v2, e1 + e2)
    }
}

/// The poll of joystick axis `idx`: its position counts only once the
/// joystick's axes were seen at rest.
pub open spec fn axis_poll(
    v: RouterView,
    b: Map<Seq<char>, Map<Seq<char>, ConsoleAction>>,
    idx: u8,
    reading: Option<i16>,
    ready: bool,
    now: u64,
    tag: ControllerTag,
) -> (RouterView, Seq<EventView>) {
    match reading {
        None => (v, seq![]),
        Some(value) => joystick_axis_view(v, b, idx, if ready { axis_direction_spec(value) } else { 0i8 }, now, tag),
    }
}

/// The poll of a whole joystick: its buttons in order, then its first two
/// axes; the events carry time stamp 0.
pub open spec fn reconcile_view(
    v: RouterView,
    b: Map<Seq<char>, Map<Seq<char>, ConsoleAction>>,
    buttons: Seq<Option<bool>>,
    axes: Seq<Option<i16>>,
    ready: bool,
    now: u64,
    tag: ControllerTag,
) -> (RouterView, Seq<EventView>) {
    let (v1, e1) = reconcile_buttons(v, b, buttons, buttons.len(), now, tag);
    let (v2, e2) = if axes.len() > 0 { axis_poll(v1, b, 0, axes[0], ready, now, tag) } else { (v1, seq![]) };
    let (v3, e3) = if axes.len() > 1 { axis_poll(v2, b, 1, axes[1], ready, now, tag) } else { (v2, seq![]) };
    (v3, e1 + e2 + e3)
}

impl ActionRouter {
    fn poll_joystick_button(
        &mut self,
        bindings: &ProfileBindings,
        instance_id: u32,
        idx: u8,
        reading: Option<bool>,
        device_id: &str,
        controller_name: &str,
        now: u64,
        events: &mut Vec<ConsoleInputEvent>,
    )
        requires
            old(self).wf(),
            now + DEFAULT_INITIAL_REPEAT_DELAY_MS <= u64::MAX,
        ensures
            final(self).wf(),
            ({
                let (nv, evs) = joystick_button_poll(
                    old(self)@,
                    bindings@,
                    idx,
                    reading,
                    now,
                    ControllerTag { instance_id, device_id: device_id@, name: controller_name@, timestamp: 0 },
                );
                &&& final(self)@ == nv
                &&& event_views(final(events)@) == event_views(old(events)@) + evs
            }),
    {
        let ghost ev0 = event_views(events@);
        let down = match reading {
            None => {
                proof {
                    assert(event_views(events@) =~= ev0 + Seq::<EventView>::empty());
                }
                return;
            },
            Some(d) => d,
        };
        let token = joystick_button_token(idx);
        let action = match resolve_profile_action(bindings, device_id, token.as_str()) {
            None => {
                proof {
                    assert(event_views(events@) =~= ev0 + Seq::<EventView>::empty());
                }
                return;
            },
            Some(a) => a,
        };
        let source = SourceId::JoystickButton { instance_id, button_idx: idx };
        let changed = if down {
            self.push_action(action, &source, now, DEFAULT_INITIAL_REPEAT_DELAY_MS)
        } else {
            self.release_action(action, &source)
        };
        if changed {
            events.push(controller_input_event(instance_id, device_id, controller_name, Some(action), token.as_str(), down, 0));
        }
        proof {
            let tag = ControllerTag { instance_id, device_id: device_id@, name: controller_name@, timestamp: 0 };
            if changed {
                assert(event_views(events@) =~= ev0 + seq![controller_event(tag, Some(action), token@, down)]);
            } else {
                assert(event_views(events@) =~= ev0 + Seq::<EventView>::empty());
            }
        }
    }

    fn poll_joystick_axis(
        &mut self,
        bindings: &ProfileBindings,
        instance_id: u32,
        idx: u8,
        reading: Option<i16>,
        ready: bool,
        device_id: &str,
        controller_name: &str,
        now: u64,
        events: &mut Vec<ConsoleInputEvent>,
    )
        requires
            old(self).wf(),
            now + DEFAULT_INITIAL_REPEAT_DELAY_MS <= u64::MAX,
        ensures
            final(self).wf(),
            ({
                let (nv, evs) = axis_poll(
                    old(self)@,
                    bindings@,
                    idx,
                    reading,
                    ready,
                    now,
                    ControllerTag { instance_id, device_id: device_id@, name: controller_name@, timestamp: 0 },
                );
                &&& final(self)@ == nv
                &&& event_views(final(events)@) == event_views(old(events)@) + evs
            }),
    {
        match reading {
            None => {
                proof {
                    assert(event_views(events@) =~= event_views(events@) + Seq::<EventView>::empty());
                }
            },
            Some(value) => {
                let direction = if ready { axis_direction(value) } else { 0 };
                self.joystick_axis_direction(bindings, instance_id, idx, direction, 0, device_id, controller_name, now, events);
            },
        }
    }

    /// The periodic poll of a joystick whose buttons read `buttons` (`None`
    /// where a button could not be read) and whose axes read `axes`: mapped
    /// buttons press or release their actions and the first two axes act as
    /// a stick, once `axis_input_ready`.
    pub fn reconcile_joystick(
        &mut self,
        bindings: &ProfileBindings,
        instance_id: u32,
        device_id: &str,
        controller_name: &str,
        buttons: &Vec<Option<bool>>,
        axes: &Vec<Option<i16>>,
        axis_input_ready: bool,
        now: u64,
        events: &mut Vec<ConsoleInputEvent>,
    )
        requires
            old(self).wf(),
            now + DEFAULT_INITIAL_REPEAT_DELAY_MS <= u64::MAX,
        ensures
            final(self).wf(),
            ({
                let (nv, evs) = reconcile_view(
                    old(self)@,
                    bindings@,
                    buttons@,
                    axes@,
                    axis_input_ready,
                    now,
                    ControllerTag { instance_id, device_id: device_id@, name: controller_name@, timestamp: 0 },
                );
                &&& final(self)@ == nv
                &&& event_views(final(events)@) == event_views(old(events)@) + evs
            }),
    {
        let ghost tag = ControllerTag { instance_id, device_id: device_id@, name: controller_name@, timestamp: 0 };
        let ghost v0 = self@;
        let ghost ev0 = event_views(events@);
        let mut i: usize = 0;
        while i < buttons.len()
            invariant
                i <= buttons.len(),
                self.wf(),
                now + DEFAULT_INITIAL_REPEAT_DELAY_MS <= u64::MAX,
                tag == (ControllerTag { instance_id, device_id: device_id@, name: controller_name@, timestamp: 0 }),
                self@ == reconcile_buttons(v0, bindings@, buttons@, i as nat, now, tag).0,
                event_views(events@) == ev0 + reconcile_buttons(v0, bindings@, buttons@, i as nat, now, tag).1,
            decreases buttons.len() - i,
        {
            let ghost ev_before = event_views(events@);
            self.poll_joystick_button(bindings, instance_id, i as u8, buttons[i], device_id, controller_name, now, events);
            proof {
                let (v1, e1) = reconcile_buttons(v0, bindings@, buttons@, i as nat, now, tag);
                let (v2, e2) = joystick_button_poll(v1, bindings@, i as u8, buttons@[i as int], now, tag);
                assert(((i + 1) - 1) as u8 == i as u8);
                assert(reconcile_buttons(v0, bindings@, buttons@, (i + 1) as nat, now, tag) == (v2, e1 + e2));
                assert(event_views(events@) =~= ev0 + (e1 + e2));
            }
            i = i + 1;
        }
        let ghost ev1 = event_views(events@);
        let ghost v1 = self@;
        if axes.len() > 0 {
            self.poll_joystick_axis(bindings, instance_id, 0, axes[0], axis_input_ready, device_id, controller_name, now, events);
        }
        let ghost ev2 = event_views(events@);
        if axes.len() > 1 {
            self.poll_joystick_axis(bindings, instance_id, 1, axes[1], axis_input_ready, device_id, controller_name, now, events);
        }
        proof {
            let r = reconcile_buttons(v0, bindings@, buttons@, buttons@.len(), now, tag);
            let a0 = if axes@.len() > 0 { axis_poll(r.0, bindings@, 0, axes@[0], axis_input_ready, now, tag) } else { (r.0, seq![]) };
            let a1 = if axes@.len() > 1 { axis_poll(a0.0, bindings@, 1, axes@[1], axis_input_ready, now, tag) } else { (a0.0, seq![]) };
            if axes@.len() == 0 {
                assert(ev2 =~= ev1 + a0.1);
            }
            if axes@.len() <= 1 {
                assert(event_views(events@) =~= ev2 + a1.1);
            }
            assert(event_views(events@) =~= ev0 + (r.1 + a0.1 + a1.1));
        }
    }
}

/// Whether a joystick's stick counts yet: right after it connects, its
/// first two axes must have been seen at rest.
#[derive(Debug, Clone)]
pub struct JoystickReadiness {
    pub pending_neutral_axes: Vec<u8>,
    pub axis_input_ready: bool,
}

/// The reading is off centre.
pub open spec fn off_centre_reading(r: Option<i16>) -> bool {
    match r {
        Some(v) => axis_direction_spec(v) != 0,
        None => false,
    }
}

/// The axes among the first two whose reading is off centre.
pub open spec fn off_centre_axes(axes: Seq<Option<i16>>) -> Seq<u8> {
    let first = if axes.len() > 0 && off_centre_reading(axes[0]) { seq![0u8] } else { seq![] };
    let second = if axes.len() > 1 && off_centre_reading(axes[1]) { seq![1u8] } else { seq![] };
    first + second
}

fn off_centre(axes: &Vec<Option<i16>>) -> (r: Vec<u8>)
    ensures
        r@ == off_centre_axes(axes@),
{
    let mut r: Vec<u8> = Vec::new();
    if axes.len() > 0 {
        if let Some(v) = axes[0] {
            if axis_direction(v) != 0 {
                r.push(0);
            }
        }
    }
    let ghost first = r@;
    if axes.len() > 1 {
        if let Some(v) = axes[1] {
            if axis_direction(v) != 0 {
                r.push(1);
            }
        }
    }
    proof {
        let second = if axes@.len() > 1 && off_centre_reading(axes@[1]) { seq![1u8] } else { seq![] };
        assert(r@ =~= first + second);
    }
    r
}

impl JoystickReadiness {
    /// The readiness of a joystick that just connected with axis readings
    /// `axes`: ready when its first two axes rest.
    pub fn new(axes: &Vec<Option<i16>>) -> (r: Self)
        ensures
            r.pending_neutral_axes@ == off_centre_axes(axes@),
            r.axis_input_ready == (off_centre_axes(axes@).len() == 0),
    {
        let pending = off_centre(axes);
        let ready = pending.len() == 0;
        JoystickReadiness { pending_neutral_axes: pending, axis_input_ready: ready }
    }

    /// Samples the axes again while not ready; returns whether the stick
    /// counts now.
    pub fn refresh(&mut self, axes: &Vec<Option<i16>>) -> (ready: bool)
        ensures
            old(self).axis_input_ready ==> *final(self) == *old(self),
            !old(self).axis_input_ready ==> final(self).pending_neutral_axes@ == off_centre_axes(axes@)
                && final(self).axis_input_ready == (off_centre_axes(axes@).len() == 0),
            ready == final(self).axis_input_ready,
    {
        if self.axis_input_ready {
            return true;
        }
        self.pending_neutral_axes = off_centre(axes);
        if self.pending_neutral_axes.len() == 0 {
            self.axis_input_ready = true;
        }
        self.axis_input_ready
    }

    /// A motion of axis `axis_idx` right after connecting is ignored while
    /// that axis has not been seen at rest.
    pub fn should_ignore_startup_axis_motion(&self, axis_idx: u8) -> (r: bool)
        ensures
            r == (!self.axis_input_ready && self.pending_neutral_axes@.contains(axis_idx)),
    {
        if self.axis_input_ready {
            return false;
        }
        let mut i: usize = 0;
        while i < self.pending_neutral_axes.len()
            invariant
                i <= self.pending_neutral_axes.len(),
                !self.axis_input_ready,
                forall|j: int| 0 <= j < i ==> self.pending_neutral_axes@[j] != axis_idx,
            decreases self.pending_neutral_axes.len() - i,
        {
            if self.pending_neutral_axes[i] == axis_idx {
                assert(self.pending_neutral_axes@[i as int] == axis_idx);
                assert(self.pending_neutral_axes@.contains(axis_idx));
                return true;
            }
            i = i + 1;
        }
        false
    }
}


/// The router state is consistent: eight action slots, and no repeat pending
/// for an action that nothing holds.
pub open spec fn view_ok(v: RouterView) -> bool {
    &&& v.active.len() == 8
    &&& v.repeat_at.len() == 8
    &&& forall|i: int| 0 <= i < 8 ==> (#[trigger] v.active[i] =~= Set::<SourceKey>::empty() ==> v.repeat_at[i] is None)
}

impl ActionRouter {
    /// The state of a well-formed router is consistent.
    pub proof fn lemma_view_ok(&self)
        requires
            self.wf(),
        ensures
            view_ok(self@),
    {
        self.lemma_view();
    }
}

/// Pressing an action with a source that does not hold it and letting go
/// again restores the router state; the release is reported exactly when the
/// press was (the source was the only one).
pub proof fn lemma_press_release_restores(v: RouterView, a: ConsoleAction, src: SourceKey, deadline: u64)
    requires
        view_ok(v),
        !held_by(v, a).contains(src),
    ensures
        ({
            let (v1, pressed) = press_view(v, a, src, deadline);
            let (v2, released) = release_view(v1, a, src);
            &&& v2 == v
            &&& released == pressed
        }),
{
    let i = action_slot(a);
    let (v1, pressed) = press_view(v, a, src, deadline);
    assert(v1.active[i].contains(src));
    assert(v1.active[i].remove(src) =~= v.active[i]);
    let (v2, released) = release_view(v1, a, src);
    assert(v2.active =~= v.active);
    assert(v2.repeat_at =~= v.repeat_at);
    assert(v2 =~= v);
}

/// An action held by two sources stays pressed until both let go: the
/// first press is reported, the second not; the first release is not
/// reported, the second is, and the router is back where it started.
pub proof fn lemma_two_sources(v: RouterView, a: ConsoleAction, s1: SourceKey, s2: SourceKey, d1: u64, d2: u64)
    requires
        view_ok(v),
        held_by(v, a) =~= Set::<SourceKey>::empty(),
        s1 != s2,
    ensures
        ({
            let (v1, p1) = press_view(v, a, s1, d1);
            let (v2, p2) = press_view(v1, a, s2, d2);
            let (v3, r1) = release_view(v2, a, s1);
            let (v4, r2) = release_view(v3, a, s2);
            &&& p1 && !p2
            &&& !r1 && r2
            &&& v4 == v
        }),
{
    let i = action_slot(a);
    let (v1, p1) = press_view(v, a, s1, d1);
    let (v2, p2) = press_view(v1, a, s2, d2);
    assert(v1.active[i].contains(s1));
    assert(!(v1.active[i] =~= Set::<SourceKey>::empty()));
    let (v3, r1) = release_view(v2, a, s1);
    assert(v2.active[i].contains(s1));
    assert(v3.active[i].contains(s2));
    assert(!(v3.active[i] =~= Set::<SourceKey>::empty()));
    let (v4, r2) = release_view(v3, a, s2);
    assert(v4.active[i] =~= Set::<SourceKey>::empty());
    assert(v4.active =~= v.active);
    assert(v4.repeat_at =~= v.repeat_at);
    assert(v4 =~= v);
}

/// After a controller goes away no action is held by any of its sources,
/// and every other source still holds what it held.
pub proof fn lemma_sweep_removes_instance(v: RouterView, instance_id: u32)
    requires
        view_ok(v),
    ensures
        forall|i: int, k: SourceKey| 0 <= i < 8 ==> (#[trigger] sweep_view(v, Some(instance_id)).active[i].contains(k)
            <==> v.active[i].contains(k) && source_instance(k) != Some(instance_id)),
        sweep_view(v, Some(instance_id)).unmapped == v.unmapped,
{
}

/// A repeat tick never repeats an action that nothing holds, and an action
/// that repeats next repeats `interval` later.
pub proof fn lemma_tick_repeats_held_only(v: RouterView, now: u64, initial: u64, interval: u64, i: int)
    requires
        view_ok(v),
        0 <= i < 8,
        now + initial <= u64::MAX,
        now + interval <= u64::MAX,
    ensures
        v.active[i] =~= Set::<SourceKey>::empty() ==> !tick_slot(v.active[i], v.repeat_at[i], now, initial, interval).1
            && tick_view(v, now, initial, interval).repeat_at[i] is None,
        tick_slot(v.active[i], v.repeat_at[i], now, initial, interval).1 ==> tick_view(v, now, initial, interval).repeat_at[i]
            == Some((now + interval) as u64),
{
}

/// The delay before a held action first repeats, in milliseconds: the
/// configured value when it is a number, else the default.
pub fn repeat_initial_delay(configured: Option<&str>) -> (r: u64)
    ensures
        r == match configured {
            Some(t) => match crate::text::parse_u64_spec(t@) {
                Some(v) => v,
                None => DEFAULT_INITIAL_REPEAT_DELAY_MS,
            },
            None => DEFAULT_INITIAL_REPEAT_DELAY_MS,
        },
{
    match configured {
        Some(t) => match crate::text::parse_u64(t) {
            Some(v) => v,
            None => DEFAULT_INITIAL_REPEAT_DELAY_MS,
        },
        None => DEFAULT_INITIAL_REPEAT_DELAY_MS,
    }
}

/// The interval between repeats of a held action, in milliseconds: the
/// configured value when it is a number, else the default.
pub fn repeat_interval(configured: Option<&str>) -> (r: u64)
    ensures
        r == match configured {
            Some(t) => match crate::text::parse_u64_spec(t@) {
                Some(v) => v,
                None => DEFAULT_REPEAT_INTERVAL_MS,
            },
            None => DEFAULT_REPEAT_INTERVAL_MS,
        },
{
    match configured {
        Some(t) => match crate::text::parse_u64(t) {
            Some(v) => v,
            None => DEFAULT_REPEAT_INTERVAL_MS,
        },
        None => DEFAULT_REPEAT_INTERVAL_MS,
    }
}

} // verus!
