//! Gamepad buttons, events and rumble requests: how queued rumble
//! requests are coalesced within one poll tick, what motor magnitudes a
//! request becomes, which pad the worker is bound to, and where a
//! coalesced request is routed.
//!
//! The worker thread owns the pad library handle and performs what these
//! decisions name (sending events, building or writing effects).
use vstd::prelude::*;

verus! {

/// Discrete button actions the main loop consumes per frame.
#[derive(Clone, Copy, Debug, PartialEq, Eq, Structural, Hash)]
pub enum GamepadButton {
    South,
    East,
    West,
    North,
    LeftBumper,
    RightBumper,
    LeftTrigger,
    RightTrigger,
    Start,
    Select,
    DpadUp,
    DpadDown,
    DpadLeft,
    DpadRight,
}

#[derive(Clone, Copy, Debug, PartialEq, Eq, Structural)]
pub enum GamepadEvent {
    Press(GamepadButton),
    Release(GamepadButton),
    Connected,
    Disconnected,
}

/// Kind of rumble event.
#[derive(Clone, Copy, Debug, PartialEq, Eq, Structural)]
pub enum Rumble {
    /// Weak, brief tap — single weapon shot.
    Fire,
    /// Stronger, longer pulse scaled by damage magnitude.
    Damage { dmg: i32 },
}

pub open spec fn spec_merge_rumble(a: Option<Rumble>, b: Rumble) -> Rumble {
    match (a, b) {
        (None, x) => x,
        (Some(Rumble::Damage { dmg: d1 }), Rumble::Damage { dmg: d2 }) => Rumble::Damage {
            dmg: if d1 >= d2 {
                d1
            } else {
                d2
            },
        },
        (Some(Rumble::Damage { dmg }), Rumble::Fire) => Rumble::Damage { dmg },
        (Some(Rumble::Fire), Rumble::Damage { dmg }) => Rumble::Damage { dmg },
        (Some(Rumble::Fire), Rumble::Fire) => Rumble::Fire,
    }
}

/// Coalesce two queued rumble requests: damage outranks fire, and the
/// larger of two damages wins.
pub fn merge_rumble(a: Option<Rumble>, b: Rumble) -> (r: Rumble)
    ensures
        r == spec_merge_rumble(a, b),
{
    match (a, b) {
        (None, x) => x,
        (Some(Rumble::Damage { dmg: d1 }), Rumble::Damage { dmg: d2 }) => Rumble::Damage {
            dmg: if d1 >= d2 {
                d1
            } else {
                d2
            },
        },
        (Some(Rumble::Damage { dmg }), Rumble::Fire) => Rumble::Damage { dmg },
        (Some(Rumble::Fire), Rumble::Damage { dmg }) => Rumble::Damage { dmg },
        (Some(Rumble::Fire), Rumble::Fire) => Rumble::Fire,
    }
}

/// Merging is order-blind: folding the same two requests either way
/// gives the same rumble.
pub proof fn lemma_merge_rumble_commutes(x: Rumble, y: Rumble)
    ensures
        spec_merge_rumble(Some(x), y) == spec_merge_rumble(Some(y), x),
{
}

/// Merging is associative, so a tick's queue coalesces to the same
/// rumble however it is grouped.
pub proof fn lemma_merge_rumble_associates(x: Rumble, y: Rumble, z: Rumble)
    ensures
        spec_merge_rumble(Some(spec_merge_rumble(Some(x), y)), z) == spec_merge_rumble(
            Some(x),
            spec_merge_rumble(Some(y), z),
        ),
{
}

/// Rumble strength order: any damage outranks fire; between damages the
/// larger wins.
pub open spec fn rumble_le(a: Rumble, b: Rumble) -> bool {
    match (a, b) {
        (Rumble::Fire, _) => true,
        (Rumble::Damage { .. }, Rumble::Fire) => false,
        (Rumble::Damage { dmg: x }, Rumble::Damage { dmg: y }) => x <= y,
    }
}

/// The queue of one poll tick, merged left to right.
pub open spec fn coalesce(q: Seq<Rumble>) -> Option<Rumble>
    decreases q.len(),
{
    if q.len() == 0 {
        None
    } else {
        Some(spec_merge_rumble(coalesce(q.drop_last()), q.last()))
    }
}

/// Merge a tick's queued requests, oldest first.
pub fn coalesce_rumble(queued: &[Rumble]) -> (r: Option<Rumble>)
    ensures
        r == coalesce(queued@),
{
    let mut best: Option<Rumble> = None;
    let mut i: usize = 0;
    while i < queued.len()
        invariant
            i <= queued@.len(),
            best == coalesce(queued@.take(i as int)),
        decreases queued@.len() - i,
    {
        assert(queued@.take(i + 1).drop_last() =~= queued@.take(i as int));
        best = Some(merge_rumble(best, queued[i]));
        i = i + 1;
    }
    assert(queued@.take(queued@.len() as int) =~= queued@);
    best
}

/// Only the strongest request of a tick plays: the merge of a non-empty
/// queue is one of its requests, and no request in it is stronger.
pub proof fn lemma_coalesce_strongest(q: Seq<Rumble>)
    requires
        q.len() > 0,
    ensures
        coalesce(q) is Some,
        q.contains(coalesce(q)->0),
        forall|i: int| 0 <= i < q.len() ==> rumble_le(#[trigger] q[i], coalesce(q)->0),
    decreases q.len(),
{
    let p = q.drop_last();
    if p.len() == 0 {
        assert(q[0] == q.last());
        assert(q.contains(q[0]));
    } else {
        lemma_coalesce_strongest(p);
        let b = coalesce(p)->0;
        let k = choose|k: int| 0 <= k < p.len() && p[k] == b;
        assert(q[k] == b);
        assert(q[q.len() - 1] == q.last());
        assert forall|i: int| 0 <= i < q.len() implies rumble_le(#[trigger] q[i], coalesce(q)->0) by {
            if i < q.len() - 1 {
                assert(q[i] == p[i]);
                assert(rumble_le(p[i], b));
            }
        }
    }
}

/// Damage scaled into 1..=40.
pub open spec fn clamp_dmg(d: i32) -> int {
    if d < 1 {
        1
    } else if d > 40 {
        40
    } else {
        d as int
    }
}

/// (strong motor, weak motor, milliseconds) of a request. Strong is the
/// low-frequency "thud", weak the high-frequency "click".
pub open spec fn spec_rumble_params(kind: Rumble) -> (u16, u16, u32) {
    match kind {
        Rumble::Fire => (0x2800, 0x8800, 70),
        Rumble::Damage { dmg } => {
            let c = clamp_dmg(dmg);
            (
                (0x5000 + c * 0xAFFF / 40) as u16,
                (0x4000 + c * 0xA000 / 40) as u16,
                (180 + c * 8) as u32,
            )
        },
    }
}

/// Motor magnitudes and duration for a request. Fire is a snappy,
/// mostly weak-motor tap; damage scales with the hit, clamped to 1..=40,
/// from a jolt up to both motors near saturation for half a second. On
/// each of the forty clamped damages the integer formulas give exactly
/// what the float lerp `x + d/40 * (y - x)`, truncated, gives.
pub fn rumble_params(kind: Rumble) -> (r: (u16, u16, u32))
    ensures
        r == spec_rumble_params(kind),
{
    match kind {
        Rumble::Fire => (0x2800, 0x8800, 70),
        Rumble::Damage { dmg } => {
            let c: u32 = if dmg < 1 {
                1
            } else if dmg > 40 {
                40
            } else {
                dmg as u32
            };
            let strong = (0x5000 + c * 0xAFFF / 40) as u16;
            let weak = (0x4000 + c * 0xA000 / 40) as u16;
            (strong, weak, 180 + c * 8)
        },
    }
}

/// The damage rumble a client plays when its own player's hit points
/// drop between two snapshots (none on the first snapshot, or when they
/// did not drop).
pub fn hp_drop_rumble(prev: Option<i32>, hp: i32) -> (r: Option<Rumble>)
    requires
        prev matches Some(p) ==> i32::MIN <= p - hp <= i32::MAX,
    ensures
        r == (match prev {
            Some(p) => if p - hp > 0 {
                Some(Rumble::Damage { dmg: (p - hp) as i32 })
            } else {
                None
            },
            None => None,
        }),
{
    match prev {
        Some(p) => {
            let dropped = p - hp;
            if dropped > 0 {
                Some(Rumble::Damage { dmg: dropped })
            } else {
                None
            }
        },
        None => None,
    }
}

/// Where a tick's coalesced request goes.
#[derive(Clone, Copy, Debug, PartialEq, Eq, Structural)]
pub enum RumbleRoute {
    /// Nothing to play, or no pad / no way to play it.
    Skip,
    /// Build the effect through the pad library for pad `id`.
    Library { id: usize, kind: Rumble },
    /// Write it to the direct-evdev device: magnitudes and milliseconds.
    Evdev { strong: u16, weak: u16, ms: u16 },
}

/// The pad the worker is bound to, and whether the pad library drives
/// its force feedback.
#[derive(Clone, Copy, Debug, PartialEq, Eq, Structural)]
pub struct PadBinding {
    pub active: Option<usize>,
    pub ff_supported: bool,
}

impl PadBinding {
    /// Bind to the first pad found at start, if any (with its FF support).
    pub fn new(first: Option<(usize, bool)>) -> (b: PadBinding)
        ensures
            b.active == (match first {
                Some(p) => Some(p.0),
                None => None::<usize>,
            }),
            b.ff_supported == (match first {
                Some(p) => p.1,
                None => false,
            }),
    {
        match first {
            Some((id, ff)) => PadBinding { active: Some(id), ff_supported: ff },
            None => PadBinding { active: None, ff_supported: false },
        }
    }

    /// A pad connected. With none bound it becomes the bound pad and the
    /// game hears `Connected` (the result); otherwise nothing changes.
    pub fn on_connected(&mut self, id: usize, ff: bool) -> (announce: bool)
        ensures
            announce == (old(self).active is None),
            announce ==> *final(self) == (PadBinding { active: Some(id), ff_supported: ff }),
            !announce ==> *final(self) == *old(self),
    {
        if self.active.is_none() {
            self.active = Some(id);
            self.ff_supported = ff;
            true
        } else {
            false
        }
    }

    /// A pad disconnected. If it was the bound one, bind to `next` (the
    /// first other connected pad, with its FF support), and the game
    /// hears `Disconnected` (the result; live effects are dropped too).
    pub fn on_disconnected(&mut self, id: usize, next: Option<(usize, bool)>) -> (announce: bool)
        ensures
            announce == (old(self).active == Some(id)),
            announce ==> *final(self) == PadBinding::new_spec(next),
            !announce ==> *final(self) == *old(self),
    {
        if self.active == Some(id) {
            *self = PadBinding::new(next);
            true
        } else {
            false
        }
    }

    pub open spec fn new_spec(first: Option<(usize, bool)>) -> PadBinding {
        match first {
            Some(p) => PadBinding { active: Some(p.0), ff_supported: p.1 },
            None => PadBinding { active: None, ff_supported: false },
        }
    }

    pub open spec fn spec_route(self, best: Option<Rumble>, has_evdev: bool) -> RumbleRoute {
        match (best, self.active) {
            (Some(kind), Some(id)) => if self.ff_supported {
                RumbleRoute::Library { id, kind }
            } else if has_evdev {
                let p = spec_rumble_params(kind);
                RumbleRoute::Evdev {
                    strong: p.0,
                    weak: p.1,
                    ms: if p.2 > 0xFFFF {
                        0xFFFF
                    } else {
                        p.2 as u16
                    },
                }
            } else {
                RumbleRoute::Skip
            },
            _ => RumbleRoute::Skip,
        }
    }

    /// Route a tick's coalesced request: through the pad library when it
    /// drives this pad's force feedback, else to the direct-evdev device
    /// when one is open (duration capped to 16 bits), else nowhere.
    pub fn route(&self, best: Option<Rumble>, has_evdev: bool) -> (r: RumbleRoute)
        ensures
            r == self.spec_route(best, has_evdev),
    {
        match (best, self.active) {
            (Some(kind), Some(id)) => {
                if self.ff_supported {
                    RumbleRoute::Library { id, kind }
                } else if has_evdev {
                    let (strong, weak, ms) = rumble_params(kind);
                    let ms16: u16 = if ms > 0xFFFF {
                        0xFFFF
                    } else {
                        ms as u16
                    };
                    RumbleRoute::Evdev { strong, weak, ms: ms16 }
                } else {
                    RumbleRoute::Skip
                }
            },
            _ => RumbleRoute::Skip,
        }
    }
}

} // verus!
