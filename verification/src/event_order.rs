//! The order of the press and release events that the router reports: for
//! each action they alternate, a press while the action is not held and a
//! release while it is, so that a run from a fresh router reports each
//! action as pressed first and never pressed or released twice in a row.
use vstd::prelude::*;

use crate::action_router::{
    axis_poll, button_view, controller_axis_view, controller_event, direction_view, dropped_by, joystick_axis_view,
    joystick_button_poll, keyboard_event, keyboard_key_view, press_side, press_view, reconcile_buttons, reconcile_view,
    release_side, release_view, released_all_event, repeat_event, side_events, slot_emptied, sweep_events, sweep_view,
    swept_set, tick_events, tick_slot, tick_view, unmapped_press_view, unmapped_release_view, ControllerTag,
    DirectionSide, EventView, RouterView, SourceKey,
};
use crate::input::{action_slot, slot_action, ConsoleAction, ConsoleInputPhase, ControllerAxis};

verus! {

/// Some source holds action `a`.
pub open spec fn is_held(v: RouterView, a: ConsoleAction) -> bool {
    !(v.active[action_slot(a)] =~= Set::<SourceKey>::empty())
}

/// `e` reports action `a` as pressed or released.
pub open spec fn is_edge(e: EventView, a: ConsoleAction) -> bool {
    e.action == Some(a) && (e.phase == ConsoleInputPhase::Pressed || e.phase == ConsoleInputPhase::Released)
}

/// The press (`true`) and release (`false`) reports of action `a`, in order.
pub open spec fn edges_of(es: Seq<EventView>, a: ConsoleAction) -> Seq<bool>
    decreases es.len(),
{
    if es.len() == 0 {
        seq![]
    } else {
        let rest = edges_of(es.drop_last(), a);
        if is_edge(es.last(), a) {
            rest.push(es.last().phase == ConsoleInputPhase::Pressed)
        } else {
            rest
        }
    }
}

/// Reports that start while the action is held (`held`) or not alternate
/// when each press comes while it is not held and each release while it is;
/// then the held state after them, else `None`.
pub open spec fn alternate(edges: Seq<bool>, held: bool) -> Option<bool>
    decreases edges.len(),
{
    if edges.len() == 0 {
        Some(held)
    } else {
        match alternate(edges.drop_last(), held) {
            Some(h) => if edges.last() == !h {
                Some(edges.last())
            } else {
                None
            },
            None => None,
        }
    }
}

/// From `v` to `w` with the events `es`, the reports of every action
/// alternate and leave it held exactly when it is held in `w`.
pub open spec fn step_alternates(v: RouterView, w: RouterView, es: Seq<EventView>) -> bool {
    forall|a: ConsoleAction| #[trigger] alternate(edges_of(es, a), is_held(v, a)) == Some(is_held(w, a))
}

/// The events of a run of steps, one list per step, in order.
pub open spec fn run_events(steps: Seq<Seq<EventView>>) -> Seq<EventView>
    decreases steps.len(),
{
    if steps.len() == 0 {
        seq![]
    } else {
        run_events(steps.drop_last()) + steps.last()
    }
}

/// Every action has one of the eight slots, and the slot names it again.
pub proof fn lemma_slot_action(a: ConsoleAction)
    ensures
        0 <= action_slot(a) < 8,
        slot_action(action_slot(a)) == a,
{
}

proof fn lemma_slot_injective(a: ConsoleAction, b: ConsoleAction)
    ensures
        (action_slot(a) == action_slot(b)) == (a == b),
{
    lemma_slot_action(a);
    lemma_slot_action(b);
}

proof fn lemma_edges_concat(e1: Seq<EventView>, e2: Seq<EventView>, a: ConsoleAction)
    ensures
        edges_of(e1 + e2, a) == edges_of(e1, a) + edges_of(e2, a),
    decreases e2.len(),
{
    if e2.len() == 0 {
        assert(e1 + e2 =~= e1);
        assert(edges_of(e1, a) + edges_of(e2, a) =~= edges_of(e1, a));
    } else {
        lemma_edges_concat(e1, e2.drop_last(), a);
        assert((e1 + e2).drop_last() =~= e1 + e2.drop_last());
        assert((e1 + e2).last() == e2.last());
        if is_edge(e2.last(), a) {
            assert(edges_of(e1, a) + edges_of(e2, a) =~= (edges_of(e1, a) + edges_of(e2.drop_last(), a)).push(
                e2.last().phase == ConsoleInputPhase::Pressed,
            ));
        }
    }
}

proof fn lemma_alternate_concat(s1: Seq<bool>, s2: Seq<bool>, h: bool)
    ensures
        alternate(s1 + s2, h) == match alternate(s1, h) {
            Some(h1) => alternate(s2, h1),
            None => None,
        },
    decreases s2.len(),
{
    if s2.len() == 0 {
        assert(s1 + s2 =~= s1);
    } else {
        lemma_alternate_concat(s1, s2.drop_last(), h);
        assert((s1 + s2).drop_last() =~= s1 + s2.drop_last());
        assert((s1 + s2).last() == s2.last());
    }
}

proof fn lemma_single_edge(e: EventView, a: ConsoleAction)
    ensures
        edges_of(seq![e], a) == (if is_edge(e, a) {
            seq![e.phase == ConsoleInputPhase::Pressed]
        } else {
            Seq::<bool>::empty()
        }),
{
    assert(seq![e].drop_last() =~= Seq::<EventView>::empty());
    assert(seq![e].last() == e);
    assert(edges_of(Seq::<EventView>::empty(), a) == Seq::<bool>::empty());
    if is_edge(e, a) {
        assert(Seq::<bool>::empty().push(e.phase == ConsoleInputPhase::Pressed) =~= seq![e.phase == ConsoleInputPhase::Pressed]);
    }
}

proof fn lemma_alternate_one(b: bool, h: bool)
    ensures
        alternate(seq![b], h) == (if b == !h { Some(b) } else { None }),
{
    assert(seq![b].drop_last() =~= Seq::<bool>::empty());
    assert(alternate(Seq::<bool>::empty(), h) == Some(h));
    assert(seq![b].last() == b);
}

/// Two steps after one another alternate together.
pub proof fn lemma_compose(u: RouterView, v: RouterView, w: RouterView, e1: Seq<EventView>, e2: Seq<EventView>)
    requires
        step_alternates(u, v, e1),
        step_alternates(v, w, e2),
    ensures
        step_alternates(u, w, e1 + e2),
{
    assert forall|a: ConsoleAction| #[trigger] alternate(edges_of(e1 + e2, a), is_held(u, a)) == Some(is_held(w, a)) by {
        lemma_edges_concat(e1, e2, a);
        lemma_alternate_concat(edges_of(e1, a), edges_of(e2, a), is_held(u, a));
        assert(alternate(edges_of(e1, a), is_held(u, a)) == Some(is_held(v, a)));
        assert(alternate(edges_of(e2, a), is_held(v, a)) == Some(is_held(w, a)));
    }
}

/// A step that reports nothing about any action and changes no holder.
proof fn lemma_quiet(v: RouterView, w: RouterView, es: Seq<EventView>)
    requires
        w.active == v.active,
        forall|i: int| 0 <= i < es.len() ==> !(#[trigger] es[i]).action.is_some() || es[i].phase == ConsoleInputPhase::Repeat,
    ensures
        step_alternates(v, w, es),
    decreases es.len(),
{
    if es.len() > 0 {
        let front = es.drop_last();
        assert forall|i: int| 0 <= i < front.len() implies !(#[trigger] front[i]).action.is_some()
            || front[i].phase == ConsoleInputPhase::Repeat by {
            assert(front[i] == es[i]);
        }
        lemma_quiet(v, w, front);
        assert(es.last() == es[es.len() - 1]);
        assert forall|a: ConsoleAction| #[trigger] alternate(edges_of(es, a), is_held(v, a)) == Some(is_held(w, a)) by {
            assert(!is_edge(es.last(), a));
            assert(alternate(edges_of(front, a), is_held(v, a)) == Some(is_held(w, a)));
        }
    } else {
        assert forall|a: ConsoleAction| #[trigger] alternate(edges_of(es, a), is_held(v, a)) == Some(is_held(w, a)) by {
            assert(edges_of(es, a) == Seq::<bool>::empty());
        }
    }
}

/// No step at all.
pub proof fn lemma_still(v: RouterView)
    ensures
        step_alternates(v, v, seq![]),
{
    lemma_quiet(v, v, seq![]);
}

/// A press of action `a` by `src` is reported (by `e`) exactly when it
/// makes the action held.
pub proof fn lemma_press_step(v: RouterView, a: ConsoleAction, src: SourceKey, d: u64, e: EventView)
    requires
        v.active.len() == 8,
        e.action == Some(a),
        e.phase == ConsoleInputPhase::Pressed,
    ensures
        press_view(v, a, src, d).0.active.len() == 8,
        step_alternates(
            v,
            press_view(v, a, src, d).0,
            if press_view(v, a, src, d).1 { seq![e] } else { seq![] },
        ),
{
    let (w, p) = press_view(v, a, src, d);
    let es: Seq<EventView> = if p { seq![e] } else { seq![] };
    lemma_slot_action(a);
    assert forall|b: ConsoleAction| #[trigger] alternate(edges_of(es, b), is_held(v, b)) == Some(is_held(w, b)) by {
        lemma_slot_action(b);
        lemma_slot_injective(a, b);
        lemma_single_edge(e, b);
        if b == a {
            assert(w.active[action_slot(a)].contains(src));
            if p {
                lemma_alternate_one(true, is_held(v, b));
            } else {
                assert(edges_of(es, b) == Seq::<bool>::empty());
            }
        } else {
            assert(w.active[action_slot(b)] == v.active[action_slot(b)]);
            assert(edges_of(es, b) == Seq::<bool>::empty());
        }
    }
}

/// A release of action `a` by `src` is reported (by `e`) exactly when it
/// leaves the action held by nothing.
pub proof fn lemma_release_step(v: RouterView, a: ConsoleAction, src: SourceKey, e: EventView)
    requires
        v.active.len() == 8,
        e.action == Some(a),
        e.phase == ConsoleInputPhase::Released,
    ensures
        release_view(v, a, src).0.active.len() == 8,
        step_alternates(v, release_view(v, a, src).0, if release_view(v, a, src).1 { seq![e] } else { seq![] }),
{
    let (w, r) = release_view(v, a, src);
    let es: Seq<EventView> = if r { seq![e] } else { seq![] };
    lemma_slot_action(a);
    assert forall|b: ConsoleAction| #[trigger] alternate(edges_of(es, b), is_held(v, b)) == Some(is_held(w, b)) by {
        lemma_slot_action(b);
        lemma_slot_injective(a, b);
        lemma_single_edge(e, b);
        if b == a {
            if r {
                assert(v.active[action_slot(a)].contains(src));
                lemma_alternate_one(false, is_held(v, b));
            } else {
                assert(edges_of(es, b) == Seq::<bool>::empty());
                if v.active[action_slot(a)].contains(src) {
                    let rest = v.active[action_slot(a)].remove(src);
                    assert(!(rest =~= Set::<SourceKey>::empty()));
                    let k = choose|k: SourceKey| !(rest.contains(k) == Set::<SourceKey>::empty().contains(k));
                    assert(v.active[action_slot(a)].contains(k));
                }
            }
        } else {
            assert(w.active[action_slot(b)] == v.active[action_slot(b)]);
            assert(edges_of(es, b) == Seq::<bool>::empty());
        }
    }
}

/// A press of an unmapped source changes no action.
pub proof fn lemma_unmapped_press_step(v: RouterView, src: SourceKey, es: Seq<EventView>)
    requires
        forall|i: int| 0 <= i < es.len() ==> (#[trigger] es[i]).action is None,
    ensures
        unmapped_press_view(v, src).0.active == v.active,
        step_alternates(v, unmapped_press_view(v, src).0, es),
{
    lemma_quiet(v, unmapped_press_view(v, src).0, es);
}

/// A release of an unmapped source changes no action.
pub proof fn lemma_unmapped_release_step(v: RouterView, src: SourceKey, es: Seq<EventView>)
    requires
        forall|i: int| 0 <= i < es.len() ==> (#[trigger] es[i]).action is None,
    ensures
        unmapped_release_view(v, src).0.active == v.active,
        step_alternates(v, unmapped_release_view(v, src).0, es),
{
    lemma_quiet(v, unmapped_release_view(v, src).0, es);
}

/// Along a run of steps that each alternate, the reports of the whole run
/// alternate, from the held state at the start to the one at the end.
pub proof fn lemma_run_alternates(views: Seq<RouterView>, steps: Seq<Seq<EventView>>)
    requires
        views.len() == steps.len() + 1,
        forall|i: int| 0 <= i < steps.len() ==> #[trigger] step_alternates(views[i], views[i + 1], steps[i]),
    ensures
        step_alternates(views[0], views.last(), run_events(steps)),
    decreases steps.len(),
{
    if steps.len() == 0 {
        lemma_still(views[0]);
        assert(run_events(steps) =~= Seq::<EventView>::empty());
    } else {
        let n = steps.len() - 1;
        let vf = views.drop_last();
        let sf = steps.drop_last();
        assert forall|i: int| 0 <= i < sf.len() implies #[trigger] step_alternates(vf[i], vf[i + 1], sf[i]) by {
            assert(step_alternates(views[i], views[i + 1], steps[i]));
        }
        lemma_run_alternates(vf, sf);
        assert(step_alternates(views[n], views[n + 1], steps[n]));
        assert(vf.last() == views[n]);
        lemma_compose(views[0], views[n], views.last(), run_events(sf), steps.last());
    }
}

/// Reports that alternate from "not held" begin with a press, and then
/// press and release take turns: the `i`-th is a press exactly when `i` is
/// even.
pub proof fn lemma_alternate_from_released(s: Seq<bool>)
    requires
        alternate(s, false) is Some,
    ensures
        forall|i: int| 0 <= i < s.len() ==> #[trigger] s[i] == (i % 2 == 0),
        alternate(s, false) == Some(s.len() % 2 == 1),
    decreases s.len(),
{
    if s.len() > 0 {
        let f = s.drop_last();
        assert(alternate(f, false) is Some);
        lemma_alternate_from_released(f);
        assert forall|i: int| 0 <= i < s.len() implies #[trigger] s[i] == (i % 2 == 0) by {
            if i < f.len() {
                assert(s[i] == f[i]);
            }
        }
    }
}

/// No event of `es` is a repeat.
pub open spec fn no_repeat(es: Seq<EventView>) -> bool {
    forall|j: int| 0 <= j < es.len() ==> (#[trigger] es[j]).phase != ConsoleInputPhase::Repeat
}

proof fn lemma_no_repeat_concat(a: Seq<EventView>, b: Seq<EventView>)
    requires
        no_repeat(a),
        no_repeat(b),
    ensures
        no_repeat(a + b),
{
    assert forall|j: int| 0 <= j < (a + b).len() implies (#[trigger] (a + b)[j]).phase != ConsoleInputPhase::Repeat by {
        if j < a.len() {
            assert((a + b)[j] == a[j]);
        } else {
            assert((a + b)[j] == b[j - a.len()]);
        }
    }
}

proof fn lemma_side_no_repeat(tag: ControllerTag, side: DirectionSide, happened: bool, pressed: bool)
    ensures
        no_repeat(side_events(tag, side, happened, pressed)),
{
}

proof fn lemma_direction_no_repeat(
    v: RouterView,
    neg: DirectionSide,
    pos: DirectionSide,
    direction: i8,
    deadline: u64,
    tag: ControllerTag,
)
    ensures
        no_repeat(direction_view(v, neg, pos, direction, deadline, tag).1),
{
    let (v1, e1) = release_side(v, neg.action, neg.source, direction != -1);
    let (v2, e2) = release_side(v1, pos.action, pos.source, direction != 1);
    let (v3, e3) = press_side(v2, neg.action, neg.source, direction == -1, deadline);
    let (v4, e4) = press_side(v3, pos.action, pos.source, direction == 1, deadline);
    let s1 = side_events(tag, neg, e1, false);
    let s2 = side_events(tag, pos, e2, false);
    let s3 = side_events(tag, neg, e3, true);
    let s4 = side_events(tag, pos, e4, true);
    lemma_side_no_repeat(tag, neg, e1, false);
    lemma_side_no_repeat(tag, pos, e2, false);
    lemma_side_no_repeat(tag, neg, e3, true);
    lemma_side_no_repeat(tag, pos, e4, true);
    lemma_no_repeat_concat(s1, s2);
    lemma_no_repeat_concat(s1 + s2, s3);
    lemma_no_repeat_concat(s1 + s2 + s3, s4);
}

proof fn lemma_sweep_no_repeat(v: RouterView, instance: Option<u32>, ei: u32, name: Seq<char>, ts: u32, n: nat)
    ensures
        no_repeat(sweep_events(v, instance, ei, name, ts, n)),
    decreases n,
{
    if n > 0 {
        let m = (n - 1) as nat;
        lemma_sweep_no_repeat(v, instance, ei, name, ts, m);
        let tail: Seq<EventView> = if slot_emptied(v, m as int, instance) {
            seq![released_all_event(slot_action(m as int), ei, name, ts)]
        } else {
            seq![]
        };
        lemma_no_repeat_concat(sweep_events(v, instance, ei, name, ts, m), tail);
    }
}

/// Letting go of one side of a stick reports exactly what it releases.
pub proof fn lemma_release_side_step(v: RouterView, side: DirectionSide, active: bool, tag: ControllerTag)
    requires
        v.active.len() == 8,
    ensures
        release_side(v, side.action, side.source, active).0.active.len() == 8,
        step_alternates(
            v,
            release_side(v, side.action, side.source, active).0,
            side_events(tag, side, release_side(v, side.action, side.source, active).1, false),
        ),
{
    let (w, h) = release_side(v, side.action, side.source, active);
    let es = side_events(tag, side, h, false);
    if !active {
        assert(es == Seq::<EventView>::empty());
        lemma_still(v);
    } else {
        match side.action {
            Some(a) => {
                lemma_release_step(v, a, side.source, controller_event(tag, Some(a), side.token, false));
            },
            None => {
                lemma_unmapped_release_step(v, side.source, es);
            },
        }
    }
}

/// Pressing one side of a stick reports exactly what it presses.
pub proof fn lemma_press_side_step(v: RouterView, side: DirectionSide, active: bool, d: u64, tag: ControllerTag)
    requires
        v.active.len() == 8,
    ensures
        press_side(v, side.action, side.source, active, d).0.active.len() == 8,
        step_alternates(
            v,
            press_side(v, side.action, side.source, active, d).0,
            side_events(tag, side, press_side(v, side.action, side.source, active, d).1, true),
        ),
{
    let (w, h) = press_side(v, side.action, side.source, active, d);
    let es = side_events(tag, side, h, true);
    if !active {
        assert(es == Seq::<EventView>::empty());
        lemma_still(v);
    } else {
        match side.action {
            Some(a) => {
                lemma_press_step(v, a, side.source, d, controller_event(tag, Some(a), side.token, true));
            },
            None => {
                lemma_unmapped_press_step(v, side.source, es);
            },
        }
    }
}

/// A stick motion reports its releases and presses in alternation.
pub proof fn lemma_direction_step(
    v: RouterView,
    neg: DirectionSide,
    pos: DirectionSide,
    direction: i8,
    deadline: u64,
    tag: ControllerTag,
)
    requires
        v.active.len() == 8,
    ensures
        direction_view(v, neg, pos, direction, deadline, tag).0.active.len() == 8,
        step_alternates(v, direction_view(v, neg, pos, direction, deadline, tag).0, direction_view(v, neg, pos, direction, deadline, tag).1),
        no_repeat(direction_view(v, neg, pos, direction, deadline, tag).1),
{
    lemma_direction_no_repeat(v, neg, pos, direction, deadline, tag);
    let (v1, e1) = release_side(v, neg.action, neg.source, direction != -1);
    let (v2, e2) = release_side(v1, pos.action, pos.source, direction != 1);
    let (v3, e3) = press_side(v2, neg.action, neg.source, direction == -1, deadline);
    let (v4, e4) = press_side(v3, pos.action, pos.source, direction == 1, deadline);
    lemma_release_side_step(v, neg, direction != -1, tag);
    lemma_release_side_step(v1, pos, direction != 1, tag);
    lemma_press_side_step(v2, neg, direction == -1, deadline, tag);
    lemma_press_side_step(v3, pos, direction == 1, deadline, tag);
    let s1 = side_events(tag, neg, e1, false);
    let s2 = side_events(tag, pos, e2, false);
    let s3 = side_events(tag, neg, e3, true);
    let s4 = side_events(tag, pos, e4, true);
    lemma_compose(v, v1, v2, s1, s2);
    lemma_compose(v, v2, v3, s1 + s2, s3);
    lemma_compose(v, v3, v4, s1 + s2 + s3, s4);
}

/// A controller axis motion reports in alternation.
pub proof fn lemma_controller_axis_step(
    v: RouterView,
    b: Map<Seq<char>, Map<Seq<char>, ConsoleAction>>,
    axis: ControllerAxis,
    value: i16,
    now: u64,
    tag: ControllerTag,
)
    requires
        v.active.len() == 8,
    ensures
        controller_axis_view(v, b, axis, value, now, tag).0.active.len() == 8,
        step_alternates(v, controller_axis_view(v, b, axis, value, now, tag).0, controller_axis_view(v, b, axis, value, now, tag).1),
        no_repeat(controller_axis_view(v, b, axis, value, now, tag).1),
{
    let r = controller_axis_view(v, b, axis, value, now, tag);
    match axis {
        ControllerAxis::LeftX | ControllerAxis::LeftY | ControllerAxis::TriggerLeft | ControllerAxis::TriggerRight => {
            let sides = crate::action_router::controller_axis_sides(
                b,
                tag.instance_id,
                axis,
                tag.device_id,
                axis == ControllerAxis::LeftX || axis == ControllerAxis::LeftY,
            );
            let dir = if axis == ControllerAxis::LeftX || axis == ControllerAxis::LeftY {
                crate::input::axis_direction_spec(value)
            } else {
                crate::input::trigger_direction_spec(value)
            };
            lemma_direction_step(v, sides.0, sides.1, dir, (now + crate::input::DEFAULT_INITIAL_REPEAT_DELAY_MS) as u64, tag);
        },
        _ => {
            lemma_still(v);
        },
    }
}

/// A joystick axis motion reports in alternation.
pub proof fn lemma_joystick_axis_step(
    v: RouterView,
    b: Map<Seq<char>, Map<Seq<char>, ConsoleAction>>,
    axis_idx: u8,
    direction: i8,
    now: u64,
    tag: ControllerTag,
)
    requires
        v.active.len() == 8,
    ensures
        joystick_axis_view(v, b, axis_idx, direction, now, tag).0.active.len() == 8,
        step_alternates(
            v,
            joystick_axis_view(v, b, axis_idx, direction, now, tag).0,
            joystick_axis_view(v, b, axis_idx, direction, now, tag).1,
        ),
        no_repeat(joystick_axis_view(v, b, axis_idx, direction, now, tag).1),
{
    if axis_idx == 0 || axis_idx == 1 {
        let sides = crate::action_router::joystick_axis_sides(b, tag.instance_id, axis_idx, tag.device_id);
        lemma_direction_step(v, sides.0, sides.1, direction, (now + crate::input::DEFAULT_INITIAL_REPEAT_DELAY_MS) as u64, tag);
    } else {
        lemma_still(v);
    }
}

/// A controller button reports in alternation.
pub proof fn lemma_button_step(
    v: RouterView,
    b: Map<Seq<char>, Map<Seq<char>, ConsoleAction>>,
    src: SourceKey,
    token: Seq<char>,
    down: bool,
    now: u64,
    tag: ControllerTag,
)
    requires
        v.active.len() == 8,
    ensures
        button_view(v, b, src, token, down, now, tag).0.active.len() == 8,
        step_alternates(v, button_view(v, b, src, token, down, now, tag).0, button_view(v, b, src, token, down, now, tag).1),
        no_repeat(button_view(v, b, src, token, down, now, tag).1),
{
    let action = crate::action_router::resolve_spec(b, tag.device_id, token);
    let e = controller_event(tag, action, token, down);
    let r = button_view(v, b, src, token, down, now, tag);
    match action {
        Some(a) => {
            if down {
                lemma_press_step(v, a, src, (now + crate::input::DEFAULT_INITIAL_REPEAT_DELAY_MS) as u64, e);
            } else {
                lemma_release_step(v, a, src, e);
            }
        },
        None => {
            if down {
                lemma_unmapped_press_step(v, src, r.1);
            } else {
                lemma_unmapped_release_step(v, src, r.1);
            }
        },
    }
}

/// A keyboard key reports in alternation.
pub proof fn lemma_keyboard_step(
    v: RouterView,
    device_node: Seq<char>,
    device_name: Seq<char>,
    key_code: u16,
    value: i32,
    timestamp: u32,
    now: u64,
)
    requires
        v.active.len() == 8,
    ensures
        keyboard_key_view(v, device_node, device_name, key_code, value, timestamp, now).0.active.len() == 8,
        step_alternates(
            v,
            keyboard_key_view(v, device_node, device_name, key_code, value, timestamp, now).0,
            keyboard_key_view(v, device_node, device_name, key_code, value, timestamp, now).1,
        ),
        no_repeat(keyboard_key_view(v, device_node, device_name, key_code, value, timestamp, now).1),
{
    match crate::input::raw_key_action(key_code) {
        None => {
            lemma_still(v);
        },
        Some(a) => {
            let src = SourceKey::Keyboard(device_node, key_code);
            let name = crate::keyboard_input::key_name_spec(key_code);
            if value == 1 {
                lemma_press_step(
                    v,
                    a,
                    src,
                    (now + crate::input::DEFAULT_INITIAL_REPEAT_DELAY_MS) as u64,
                    keyboard_event(a, name, device_name, true, timestamp),
                );
            } else if value == 0 {
                lemma_release_step(v, a, src, keyboard_event(a, name, device_name, false, timestamp));
            } else {
                lemma_still(v);
            }
        },
    }
}

/// The poll of one joystick button reports in alternation.
pub proof fn lemma_button_poll_step(
    v: RouterView,
    b: Map<Seq<char>, Map<Seq<char>, ConsoleAction>>,
    idx: u8,
    reading: Option<bool>,
    now: u64,
    tag: ControllerTag,
)
    requires
        v.active.len() == 8,
    ensures
        joystick_button_poll(v, b, idx, reading, now, tag).0.active.len() == 8,
        step_alternates(v, joystick_button_poll(v, b, idx, reading, now, tag).0, joystick_button_poll(v, b, idx, reading, now, tag).1),
        no_repeat(joystick_button_poll(v, b, idx, reading, now, tag).1),
{
    let token = "SDL_JOYSTICK_BUTTON_"@ + crate::text::decimal(idx as nat);
    match reading {
        None => {
            lemma_still(v);
        },
        Some(down) => match crate::action_router::resolve_spec(b, tag.device_id, token) {
            None => {
                lemma_still(v);
            },
            Some(a) => {
                let src = SourceKey::JoystickButton(tag.instance_id, idx);
                let e = controller_event(tag, Some(a), token, down);
                if down {
                    lemma_press_step(v, a, src, (now + crate::input::DEFAULT_INITIAL_REPEAT_DELAY_MS) as u64, e);
                } else {
                    lemma_release_step(v, a, src, e);
                }
            },
        },
    }
}

/// The polls of the first `n` buttons of a joystick report in alternation.
pub proof fn lemma_reconcile_buttons_step(
    v: RouterView,
    b: Map<Seq<char>, Map<Seq<char>, ConsoleAction>>,
    buttons: Seq<Option<bool>>,
    n: nat,
    now: u64,
    tag: ControllerTag,
)
    requires
        v.active.len() == 8,
    ensures
        reconcile_buttons(v, b, buttons, n, now, tag).0.active.len() == 8,
        step_alternates(v, reconcile_buttons(v, b, buttons, n, now, tag).0, reconcile_buttons(v, b, buttons, n, now, tag).1),
        no_repeat(reconcile_buttons(v, b, buttons, n, now, tag).1),
    decreases n,
{
    if n == 0 {
        lemma_still(v);
    } else {
        let (v1, e1) = reconcile_buttons(v, b, buttons, (n - 1) as nat, now, tag);
        lemma_reconcile_buttons_step(v, b, buttons, (n - 1) as nat, now, tag);
        let (v2, e2) = joystick_button_poll(v1, b, (n - 1) as u8, buttons[n - 1], now, tag);
        lemma_button_poll_step(v1, b, (n - 1) as u8, buttons[n - 1], now, tag);
        lemma_compose(v, v1, v2, e1, e2);
        lemma_no_repeat_concat(e1, e2);
    }
}

/// The poll of a joystick axis reports in alternation.
pub proof fn lemma_axis_poll_step(
    v: RouterView,
    b: Map<Seq<char>, Map<Seq<char>, ConsoleAction>>,
    idx: u8,
    reading: Option<i16>,
    ready: bool,
    now: u64,
    tag: ControllerTag,
)
    requires
        v.active.len() == 8,
    ensures
        axis_poll(v, b, idx, reading, ready, now, tag).0.active.len() == 8,
        step_alternates(v, axis_poll(v, b, idx, reading, ready, now, tag).0, axis_poll(v, b, idx, reading, ready, now, tag).1),
        no_repeat(axis_poll(v, b, idx, reading, ready, now, tag).1),
{
    match reading {
        None => {
            lemma_still(v);
        },
        Some(value) => {
            lemma_joystick_axis_step(
                v,
                b,
                idx,
                if ready { crate::input::axis_direction_spec(value) } else { 0i8 },
                now,
                tag,
            );
        },
    }
}

/// The poll of a whole joystick reports in alternation.
pub proof fn lemma_reconcile_step(
    v: RouterView,
    b: Map<Seq<char>, Map<Seq<char>, ConsoleAction>>,
    buttons: Seq<Option<bool>>,
    axes: Seq<Option<i16>>,
    ready: bool,
    now: u64,
    tag: ControllerTag,
)
    requires
        v.active.len() == 8,
    ensures
        reconcile_view(v, b, buttons, axes, ready, now, tag).0.active.len() == 8,
        step_alternates(v, reconcile_view(v, b, buttons, axes, ready, now, tag).0, reconcile_view(v, b, buttons, axes, ready, now, tag).1),
        no_repeat(reconcile_view(v, b, buttons, axes, ready, now, tag).1),
{
    let (v1, e1) = reconcile_buttons(v, b, buttons, buttons.len(), now, tag);
    lemma_reconcile_buttons_step(v, b, buttons, buttons.len(), now, tag);
    let (v2, e2) = if axes.len() > 0 { axis_poll(v1, b, 0, axes[0], ready, now, tag) } else { (v1, seq![]) };
    if axes.len() > 0 {
        lemma_axis_poll_step(v1, b, 0, axes[0], ready, now, tag);
    } else {
        lemma_still(v1);
    }
    let (v3, e3) = if axes.len() > 1 { axis_poll(v2, b, 1, axes[1], ready, now, tag) } else { (v2, seq![]) };
    if axes.len() > 1 {
        lemma_axis_poll_step(v2, b, 1, axes[1], ready, now, tag);
    } else {
        lemma_still(v2);
    }
    lemma_compose(v, v1, v2, e1, e2);
    lemma_compose(v, v2, v3, e1 + e2, e3);
    lemma_no_repeat_concat(e1, e2);
    lemma_no_repeat_concat(e1 + e2, e3);
}

proof fn lemma_action_slot_of(i: int)
    requires
        0 <= i < 8,
    ensures
        action_slot(slot_action(i)) == i,
{
}

proof fn lemma_sweep_edges(v: RouterView, instance: Option<u32>, ei: u32, name: Seq<char>, ts: u32, n: nat, a: ConsoleAction)
    requires
        n <= 8,
    ensures
        edges_of(sweep_events(v, instance, ei, name, ts, n), a) == (if action_slot(a) < n && slot_emptied(v, action_slot(a), instance) {
            seq![false]
        } else {
            Seq::<bool>::empty()
        }),
    decreases n,
{
    lemma_slot_action(a);
    if n > 0 {
        let m = (n - 1) as nat;
        lemma_sweep_edges(v, instance, ei, name, ts, m, a);
        let tail: Seq<EventView> = if slot_emptied(v, m as int, instance) {
            seq![released_all_event(slot_action(m as int), ei, name, ts)]
        } else {
            seq![]
        };
        lemma_edges_concat(sweep_events(v, instance, ei, name, ts, m), tail, a);
        lemma_action_slot_of(m as int);
        lemma_slot_injective(a, slot_action(m as int));
        if slot_emptied(v, m as int, instance) {
            lemma_single_edge(released_all_event(slot_action(m as int), ei, name, ts), a);
        }
        assert(edges_of(sweep_events(v, instance, ei, name, ts, n), a) =~= (if action_slot(a) < n && slot_emptied(v, action_slot(a), instance) {
            seq![false]
        } else {
            Seq::<bool>::empty()
        }));
    }
}

/// Dropping the sources of a controller reports the release of exactly the
/// actions that nothing holds any more.
pub proof fn lemma_sweep_step(v: RouterView, instance: Option<u32>, ei: u32, name: Seq<char>, ts: u32)
    requires
        v.active.len() == 8,
    ensures
        sweep_view(v, instance).active.len() == 8,
        step_alternates(v, sweep_view(v, instance), sweep_events(v, instance, ei, name, ts, 8)),
        no_repeat(sweep_events(v, instance, ei, name, ts, 8)),
{
    lemma_sweep_no_repeat(v, instance, ei, name, ts, 8);
    let w = sweep_view(v, instance);
    assert forall|a: ConsoleAction| #[trigger] alternate(edges_of(sweep_events(v, instance, ei, name, ts, 8), a), is_held(v, a))
        == Some(is_held(w, a)) by {
        lemma_sweep_edges(v, instance, ei, name, ts, 8, a);
        lemma_slot_action(a);
        let i = action_slot(a);
        let s = v.active[i];
        let kept = swept_set(s, instance);
        assert(w.active[i] == kept);
        if slot_emptied(v, i, instance) {
            let k = choose|k: SourceKey| #[trigger] s.contains(k) && dropped_by(k, instance);
            assert(s.contains(k));
            lemma_alternate_one(false, is_held(v, a));
        } else {
            if s =~= Set::<SourceKey>::empty() {
                assert(kept =~= Set::<SourceKey>::empty());
            } else {
                let k = choose|k: SourceKey| !(s.contains(k) == Set::<SourceKey>::empty().contains(k));
                assert(s.contains(k));
                if kept =~= Set::<SourceKey>::empty() {
                    assert(!kept.contains(k));
                    assert(dropped_by(k, instance));
                    assert(false);
                }
            }
        }
    }
}

proof fn lemma_tick_events_repeat(v: RouterView, now: u64, initial: u64, interval: u64, ts: u32, n: nat)
    requires
        n <= 8,
        v.active.len() == 8,
    ensures
        forall|j: int| 0 <= j < tick_events(v, now, initial, interval, ts, n).len() ==> {
            let e = #[trigger] tick_events(v, now, initial, interval, ts, n)[j];
            &&& e.phase == ConsoleInputPhase::Repeat
            &&& e.action is Some
            &&& is_held(v, e.action.unwrap())
        },
    decreases n,
{
    if n > 0 {
        let m = (n - 1) as nat;
        lemma_tick_events_repeat(v, now, initial, interval, ts, m);
        let front = tick_events(v, now, initial, interval, ts, m);
        let all = tick_events(v, now, initial, interval, ts, n);
        lemma_action_slot_of(m as int);
        assert forall|j: int| 0 <= j < all.len() implies {
            let e = #[trigger] all[j];
            &&& e.phase == ConsoleInputPhase::Repeat
            &&& e.action is Some
            &&& is_held(v, e.action.unwrap())
        } by {
            if j < front.len() {
                assert(all[j] == front[j]);
            } else {
                assert(tick_slot(v.active[m as int], v.repeat_at[m as int], now, initial, interval).1);
                assert(all[j] == repeat_event(slot_action(m as int), ts));
            }
        }
    }
}

/// A repeat tick reports no press or release and changes no holder; every
/// repeat it reports is of an action that is held.
pub proof fn lemma_tick_step(v: RouterView, now: u64, initial: u64, interval: u64, ts: u32)
    requires
        v.active.len() == 8,
    ensures
        tick_view(v, now, initial, interval).active == v.active,
        step_alternates(v, tick_view(v, now, initial, interval), tick_events(v, now, initial, interval, ts, 8)),
        forall|j: int| 0 <= j < tick_events(v, now, initial, interval, ts, 8).len() ==> {
            let e = #[trigger] tick_events(v, now, initial, interval, ts, 8)[j];
            &&& e.phase == ConsoleInputPhase::Repeat
            &&& e.action is Some
            &&& is_held(v, e.action.unwrap())
        },
{
    lemma_tick_events_repeat(v, now, initial, interval, ts, 8);
    lemma_quiet(v, tick_view(v, now, initial, interval), tick_events(v, now, initial, interval, ts, 8));
}

proof fn lemma_step_at(v: RouterView, w: RouterView, es: Seq<EventView>, a: ConsoleAction)
    requires
        step_alternates(v, w, es),
    ensures
        alternate(edges_of(es, a), is_held(v, a)) == Some(is_held(w, a)),
{
}

/// From a router where nothing is held (as `ActionRouter::new` makes it),
/// along any run of steps that each alternate (each step of the router does,
/// by the lemmas above), every action is first reported pressed, and then
/// released and pressed in turn: its `i`-th report is a press exactly when
/// `i` is even, and it is held at the end exactly when it was reported an
/// odd number of times.
pub proof fn lemma_fresh_run_alternates(views: Seq<RouterView>, steps: Seq<Seq<EventView>>, a: ConsoleAction)
    requires
        views.len() == steps.len() + 1,
        forall|i: int| 0 <= i < steps.len() ==> #[trigger] step_alternates(views[i], views[i + 1], steps[i]),
        !is_held(views[0], a),
    ensures
        forall|i: int| 0 <= i < edges_of(run_events(steps), a).len() ==> #[trigger] edges_of(run_events(steps), a)[i] == (i % 2 == 0),
        is_held(views.last(), a) == (edges_of(run_events(steps), a).len() % 2 == 1),
{
    lemma_run_alternates(views, steps);
    let all = run_events(steps);
    lemma_step_at(views[0], views.last(), all, a);
    lemma_alternate_from_released(edges_of(run_events(steps), a));
}

/// One step of the router: either it reports only presses and releases,
/// in alternation, or it changes no holder and reports only repeats of
/// actions that are held (the repeat tick).
pub open spec fn router_step(v: RouterView, w: RouterView, es: Seq<EventView>) -> bool {
    ||| step_alternates(v, w, es) && no_repeat(es)
    ||| w.active == v.active && forall|j: int| 0 <= j < es.len() ==> {
        let e = #[trigger] es[j];
        &&& e.phase == ConsoleInputPhase::Repeat
        &&& e.action is Some
        &&& is_held(v, e.action.unwrap())
    }
}

proof fn lemma_repeats_no_edges(es: Seq<EventView>, a: ConsoleAction)
    requires
        forall|j: int| 0 <= j < es.len() ==> (#[trigger] es[j]).phase == ConsoleInputPhase::Repeat,
    ensures
        edges_of(es, a) == Seq::<bool>::empty(),
    decreases es.len(),
{
    if es.len() > 0 {
        let f = es.drop_last();
        assert forall|j: int| 0 <= j < f.len() implies (#[trigger] f[j]).phase == ConsoleInputPhase::Repeat by {
            assert(f[j] == es[j]);
        }
        lemma_repeats_no_edges(f, a);
        assert(es.last() == es[es.len() - 1]);
    }
}

proof fn lemma_router_step_alternates(v: RouterView, w: RouterView, es: Seq<EventView>)
    requires
        router_step(v, w, es),
    ensures
        step_alternates(v, w, es),
{
    if !(step_alternates(v, w, es) && no_repeat(es)) {
        lemma_quiet(v, w, es);
    }
}

/// From a router where nothing is held, along any run of router steps
/// (the repeat tick is one by `lemma_tick_step`, every other step by its
/// step lemma above): each action is first reported pressed and then
/// released and pressed in turn, and every repeat of an action comes while
/// it is pressed, after an odd number of its press and release reports.
pub proof fn lemma_fresh_run_repeats(views: Seq<RouterView>, steps: Seq<Seq<EventView>>)
    requires
        views.len() == steps.len() + 1,
        forall|i: int| 0 <= i < steps.len() ==> #[trigger] router_step(views[i], views[i + 1], steps[i]),
        forall|a: ConsoleAction| !is_held(views[0], a),
    ensures
        forall|a: ConsoleAction, i: int| 0 <= i < edges_of(run_events(steps), a).len()
            ==> #[trigger] edges_of(run_events(steps), a)[i] == (i % 2 == 0),
        forall|j: int| 0 <= j < run_events(steps).len() && (#[trigger] run_events(steps)[j]).phase == ConsoleInputPhase::Repeat
            ==> run_events(steps)[j].action is Some
                && edges_of(run_events(steps).take(j), run_events(steps)[j].action.unwrap()).len() % 2 == 1,
    decreases steps.len(),
{
    assert forall|i: int| 0 <= i < steps.len() implies #[trigger] step_alternates(views[i], views[i + 1], steps[i]) by {
        assert(router_step(views[i], views[i + 1], steps[i]));
        lemma_router_step_alternates(views[i], views[i + 1], steps[i]);
    }
    assert forall|a: ConsoleAction, i: int| 0 <= i < edges_of(run_events(steps), a).len()
        implies #[trigger] edges_of(run_events(steps), a)[i] == (i % 2 == 0) by {
        lemma_fresh_run_alternates(views, steps, a);
    }
    if steps.len() > 0 {
        let n = steps.len() - 1;
        let vf = views.drop_last();
        let sf = steps.drop_last();
        assert forall|i: int| 0 <= i < sf.len() implies #[trigger] router_step(vf[i], vf[i + 1], sf[i]) by {
            assert(router_step(views[i], views[i + 1], steps[i]));
        }
        assert forall|i: int| 0 <= i < sf.len() implies #[trigger] step_alternates(vf[i], vf[i + 1], sf[i]) by {
            assert(step_alternates(views[i], views[i + 1], steps[i]));
        }
        assert(vf[0] == views[0]);
        lemma_fresh_run_repeats(vf, sf);
        let rf = run_events(sf);
        let last = steps[n];
        let all = run_events(steps);
        assert(steps.last() == last);
        assert(all == rf + last);
        assert forall|j: int| 0 <= j < all.len() && (#[trigger] all[j]).phase == ConsoleInputPhase::Repeat
            implies all[j].action is Some && edges_of(all.take(j), all[j].action.unwrap()).len() % 2 == 1 by {
            if j < rf.len() {
                assert(all[j] == rf[j]);
                assert(all.take(j) =~= rf.take(j));
            } else {
                let jj = j - rf.len();
                assert(all[j] == last[jj]);
                assert(router_step(views[n], views[n + 1], last));
                if step_alternates(views[n], views[n + 1], last) && no_repeat(last) {
                    assert(last[jj].phase != ConsoleInputPhase::Repeat);
                } else {
                    let e = last[jj];
                    let a = e.action.unwrap();
                    assert(is_held(views[n], a));
                    let pre = last.take(jj);
                    assert forall|k: int| 0 <= k < pre.len() implies (#[trigger] pre[k]).phase == ConsoleInputPhase::Repeat by {
                        assert(pre[k] == last[k]);
                    }
                    lemma_repeats_no_edges(pre, a);
                    assert(all.take(j) =~= rf + pre);
                    lemma_edges_concat(rf, pre, a);
                    assert(edges_of(rf, a) + Seq::<bool>::empty() =~= edges_of(rf, a));
                    assert(!is_held(vf[0], a));
                    lemma_fresh_run_alternates(vf, sf, a);
                    assert(vf.last() == views[n]);
                }
            }
        }
    }
}

/// A connection or disconnection report (as `keyboard_connection_event`
/// and `controller_connection_event` make it: no action, not pressed)
/// changes no holder and is a step of its own in a run.
pub proof fn lemma_connection_step(v: RouterView, e: EventView)
    requires
        e.phase == ConsoleInputPhase::Connected || e.phase == ConsoleInputPhase::Disconnected,
        e.action is None,
    ensures
        router_step(v, v, seq![e]),
{
    lemma_quiet(v, v, seq![e]);
}

} // verus!
