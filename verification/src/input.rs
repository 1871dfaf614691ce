//! Held-key movement state driven by press/release events. Terminals
//! that never send release events fall back to "auto-repeat as held":
//! a press keeps the key active for a short decay window.
use crate::clock::{elapsed_nanos, now};
use std::time::Instant;
use vstd::prelude::*;

verus! {

/// How long a press without a release keeps a key active.
pub const HELD_DECAY_NANOS: u128 = 120_000_000;

/// The keys the movement state listens to (other keys are `Other`).
#[derive(Clone, Copy, Debug, PartialEq, Eq, Structural)]
pub enum KeyCode {
    Char(char),
    Up,
    Down,
    Left,
    Right,
    Other,
}

/// Which movement slot a key drives, if any: W/↑ up, S/↓ down, A/← left,
/// D/→ right (letters in either case).
pub enum Slot {
    Up,
    Down,
    Left,
    Right,
}

pub open spec fn spec_slot(code: KeyCode) -> Option<Slot> {
    match code {
        KeyCode::Char('w') | KeyCode::Char('W') | KeyCode::Up => Some(Slot::Up),
        KeyCode::Char('s') | KeyCode::Char('S') | KeyCode::Down => Some(Slot::Down),
        KeyCode::Char('a') | KeyCode::Char('A') | KeyCode::Left => Some(Slot::Left),
        KeyCode::Char('d') | KeyCode::Char('D') | KeyCode::Right => Some(Slot::Right),
        _ => None,
    }
}

struct KeyState {
    held: bool,
    /// Last-press time; used for the decay fallback.
    last_press: Option<Instant>,
}

/// A key is active while held, or within the decay window after a press
/// that saw no release (`since_press` is the time since that press).
pub open spec fn spec_is_active(held: bool, since_press: Option<u128>) -> bool {
    held || (since_press matches Some(d) && d < HELD_DECAY_NANOS)
}

pub fn is_active_after(held: bool, since_press: Option<u128>) -> (b: bool)
    ensures
        b == spec_is_active(held, since_press),
{
    if held {
        return true;
    }
    match since_press {
        Some(d) => d < HELD_DECAY_NANOS,
        None => false,
    }
}

impl KeyState {
    spec fn pressed(&self) -> bool {
        self.last_press is Some
    }

    fn new() -> (k: Self)
        ensures
            !k.held && !k.pressed(),
    {
        KeyState { held: false, last_press: None }
    }

    fn press(&mut self)
        ensures
            final(self).held && final(self).pressed(),
    {
        self.held = true;
        self.last_press = Some(now());
    }

    fn release(&mut self)
        ensures
            !final(self).held && !final(self).pressed(),
    {
        self.held = false;
        self.last_press = None;
    }

    fn is_active(&self) -> (b: bool)
        ensures
            self.held ==> b,
            !self.held && !self.pressed() ==> !b,
    {
        let since = match &self.last_press {
            Some(t) => Some(elapsed_nanos(t)),
            None => None,
        };
        is_active_after(self.held, since)
    }
}

pub struct Input {
    up: KeyState,
    down: KeyState,
    left: KeyState,
    right: KeyState,
}

impl Input {
    pub closed spec fn held(&self, s: Slot) -> bool {
        match s {
            Slot::Up => self.up.held,
            Slot::Down => self.down.held,
            Slot::Left => self.left.held,
            Slot::Right => self.right.held,
        }
    }

    /// A press is on record (no release since).
    pub closed spec fn pressed(&self, s: Slot) -> bool {
        match s {
            Slot::Up => self.up.pressed(),
            Slot::Down => self.down.pressed(),
            Slot::Left => self.left.pressed(),
            Slot::Right => self.right.pressed(),
        }
    }

    pub fn new() -> (i: Self)
        ensures
            forall|s: Slot| !#[trigger] i.held(s) && !i.pressed(s),
    {
        Input { up: KeyState::new(), down: KeyState::new(), left: KeyState::new(), right: KeyState::new() }
    }

    /// Feed one key event. A press holds its slot, a release frees it;
    /// keys outside the movement set are ignored.
    pub fn key_event(&mut self, code: KeyCode, press: bool)
        ensures
            forall|s: Slot|
                #![trigger final(self).held(s)]
                #![trigger final(self).pressed(s)]
                (spec_slot(code) matches Some(t) && t == s) ==> final(self).held(s) == press
                    && final(self).pressed(s) == press,
            forall|s: Slot|
                #![trigger final(self).held(s)]
                #![trigger final(self).pressed(s)]
                !(spec_slot(code) matches Some(t) && t == s) ==> final(self).held(s) == old(self).held(s) && final(self).pressed(s) == old(self).pressed(s),
    {
        let slot = match code {
            KeyCode::Char('w') | KeyCode::Char('W') | KeyCode::Up => &mut self.up,
            KeyCode::Char('s') | KeyCode::Char('S') | KeyCode::Down => &mut self.down,
            KeyCode::Char('a') | KeyCode::Char('A') | KeyCode::Left => &mut self.left,
            KeyCode::Char('d') | KeyCode::Char('D') | KeyCode::Right => &mut self.right,
            _ => return,
        };
        if press {
            slot.press();
        } else {
            slot.release();
        }
    }

    pub fn up(&self) -> (b: bool)
        ensures
            self.held(Slot::Up) ==> b,
            !self.held(Slot::Up) && !self.pressed(Slot::Up) ==> !b,
    {
        self.up.is_active()
    }

    pub fn down(&self) -> (b: bool)
        ensures
            self.held(Slot::Down) ==> b,
            !self.held(Slot::Down) && !self.pressed(Slot::Down) ==> !b,
    {
        self.down.is_active()
    }

    pub fn left(&self) -> (b: bool)
        ensures
            self.held(Slot::Left) ==> b,
            !self.held(Slot::Left) && !self.pressed(Slot::Left) ==> !b,
    {
        self.left.is_active()
    }

    pub fn right(&self) -> (b: bool)
        ensures
            self.held(Slot::Right) ==> b,
            !self.held(Slot::Right) && !self.pressed(Slot::Right) ==> !b,
    {
        self.right.is_active()
    }
}

} // verus!
