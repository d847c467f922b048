use vstd::prelude::*;

use crate::keyboard_input::{KEY_LEFTCTRL, KEY_RIGHTCTRL};

verus! {

/// How long both Ctrl keys must be held for the failsafe hotkey, in
/// milliseconds.
pub const HOLD_DURATION_MS: u64 = 2000;

/// The failsafe hotkey watcher: Left Ctrl and Right Ctrl held together for
/// two seconds fire it once, until one of them is let go.
#[derive(Debug, Clone, Copy, PartialEq, Eq, Structural)]
pub struct HotkeyState {
    pub left_ctrl_pressed: bool,
    pub right_ctrl_pressed: bool,
    /// When both keys were first seen held, in milliseconds.
    pub hold_started_at: Option<u64>,
    pub trigger_sent: bool,
}

/// The state after a key event (`value` 1 press, 0 release, else repeat).
pub open spec fn key_step(s: HotkeyState, key_code: u16, value: i32) -> HotkeyState {
    let pressed = value == 1;
    let released = value == 0;
    if key_code == KEY_LEFTCTRL {
        HotkeyState { left_ctrl_pressed: pressed || (!released && s.left_ctrl_pressed), ..s }
    } else if key_code == KEY_RIGHTCTRL {
        HotkeyState { right_ctrl_pressed: pressed || (!released && s.right_ctrl_pressed), ..s }
    } else {
        s
    }
}

/// The state after a poll at time `now`, and whether the hotkey fires.
pub open spec fn poll_step(s: HotkeyState, now: u64) -> (HotkeyState, bool) {
    if s.left_ctrl_pressed && s.right_ctrl_pressed {
        let started = match s.hold_started_at {
            Some(t) => t,
            None => now,
        };
        let held = now >= started && now - started >= HOLD_DURATION_MS;
        if held && !s.trigger_sent {
            (HotkeyState { hold_started_at: Some(started), trigger_sent: true, ..s }, true)
        } else {
            (HotkeyState { hold_started_at: Some(started), ..s }, false)
        }
    } else {
        (HotkeyState { hold_started_at: None, trigger_sent: false, ..s }, false)
    }
}

impl HotkeyState {
    /// No key held.
    pub fn new() -> (s: Self)
        ensures
            s == (HotkeyState {
                left_ctrl_pressed: false,
                right_ctrl_pressed: false,
                hold_started_at: None,
                trigger_sent: false,
            }),
    {
        HotkeyState { left_ctrl_pressed: false, right_ctrl_pressed: false, hold_started_at: None, trigger_sent: false }
    }

    /// Takes in a key event of the raw keyboard backend.
    pub fn on_key(&mut self, key_code: u16, value: i32)
        ensures
            *final(self) == key_step(*old(self), key_code, value),
    {
        let is_pressed = value == 1;
        let is_released = value == 0;
        if key_code == KEY_LEFTCTRL {
            self.left_ctrl_pressed = is_pressed || (!is_released && self.left_ctrl_pressed);
        } else if key_code == KEY_RIGHTCTRL {
            self.right_ctrl_pressed = is_pressed || (!is_released && self.right_ctrl_pressed);
        }
    }

    /// Checks the hold at time `now` (milliseconds); true when the hotkey
    /// fires now.
    pub fn poll(&mut self, now: u64) -> (fire: bool)
        ensures
            (*final(self), fire) == poll_step(*old(self), now),
    {
        if self.left_ctrl_pressed && self.right_ctrl_pressed {
            let started = match self.hold_started_at {
                Some(t) => t,
                None => now,
            };
            self.hold_started_at = Some(started);
            if now >= started && now - started >= HOLD_DURATION_MS && !self.trigger_sent {
                self.trigger_sent = true;
                return true;
            }
            false
        } else {
            self.hold_started_at = None;
            self.trigger_sent = false;
            false
        }
    }
}

/// While both keys stay held, the hotkey fires at most once: after it fired,
/// no later poll fires it again.
pub proof fn lemma_fires_once(s: HotkeyState, now: u64)
    requires
        s.trigger_sent,
    ensures
        !poll_step(s, now).1,
        s.left_ctrl_pressed && s.right_ctrl_pressed ==> poll_step(s, now).0.trigger_sent,
{
}

/// Holding both keys fires the hotkey at the first poll two seconds after
/// the hold began, and letting go of either key re-arms it.
pub proof fn lemma_fires_after_hold(s: HotkeyState, start: u64, now: u64)
    requires
        s.left_ctrl_pressed,
        s.right_ctrl_pressed,
        s.hold_started_at == Some(start),
        !s.trigger_sent,
        now >= start,
    ensures
        poll_step(s, now).1 == (now - start >= HOLD_DURATION_MS),
        !poll_step(key_step(s, KEY_LEFTCTRL, 0), now).0.trigger_sent,
        !poll_step(key_step(s, KEY_RIGHTCTRL, 0), now).0.trigger_sent,
{
}

} // verus!
