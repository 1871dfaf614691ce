//! Linux direct-evdev force-feedback: the kernel structures, the ioctl
//! request numbers and the stop schedule of uploaded rumble effects.
//!
//! Rumble-only drivers (xpadneo and friends) advertise just `FF_RUMBLE`,
//! so the effect is uploaded with a bare `EVIOCSFF` and started and
//! stopped with `EV_FF` input events written to the `/dev/input/event*`
//! node. The byte layouts here are those of 64-bit little-endian Linux;
//! opening the node and issuing the ioctls is the caller's part.
use crate::text::{contains_str, has_substring, lowercase, to_lowercase};
use vstd::prelude::*;
use vstd::utf8::{decode_utf8, valid_utf8};

verus! {

pub const EV_FF: u16 = 0x15;

pub const FF_RUMBLE: u16 = 0x50;

/// Effects whose upload slots are held at once (the kernel allows 16
/// per descriptor).
pub const MAX_EFFECT_SLOTS: usize = 12;

/// Bytes of `struct ff_effect`.
pub const FF_EFFECT_SIZE: usize = 48;

/// Bytes of `struct input_event`.
pub const INPUT_EVENT_SIZE: usize = 24;

// ----- ioctl request-number construction (asm-generic/ioctl.h) -----

pub const IOC_WRITE: u64 = 1;

pub const IOC_READ: u64 = 2;

pub const IOC_NRBITS: u64 = 8;

pub const IOC_TYPEBITS: u64 = 8;

pub const IOC_SIZEBITS: u64 = 14;

pub const IOC_DIRSHIFT: u64 = IOC_NRBITS + IOC_TYPEBITS + IOC_SIZEBITS;

pub const IOC_SIZESHIFT: u64 = IOC_NRBITS + IOC_TYPEBITS;

pub const IOC_TYPESHIFT: u64 = IOC_NRBITS;

/// The evdev ioctl type, the character `'E'`.
pub const EV_TYPE: u64 = 0x45;

/// `struct ff_replay` from `linux/input.h`.
#[derive(Clone, Copy, Debug, PartialEq, Eq)]
pub struct FfReplay {
    pub length: u16,
    pub delay: u16,
}

/// `struct ff_trigger` from `linux/input.h`.
#[derive(Clone, Copy, Debug, PartialEq, Eq)]
pub struct FfTrigger {
    pub button: u16,
    pub interval: u16,
}

/// `struct ff_effect` from `linux/input.h`. The kernel's union `u` is
/// sized for its largest variant and aligned on 8, hence the two bytes
/// before `payload`. A rumble effect keeps its two magnitudes in the
/// first four bytes of the payload.
#[derive(Clone, Copy, Debug, PartialEq, Eq)]
pub struct FfEffect {
    pub kind: u16,
    pub id: i16,
    pub direction: u16,
    pub trigger: FfTrigger,
    pub replay: FfReplay,
    pub _align: [u8; 2],
    pub payload: [u8; 32],
}

/// Little-endian bytes of a `u16`.
pub open spec fn le16(v: u16) -> Seq<u8> {
    seq![(v % 256) as u8, (v / 256) as u8]
}

/// Little-endian bytes of an `i16` (two's complement).
pub open spec fn le16i(v: i16) -> Seq<u8> {
    le16(v as u16)
}

/// Little-endian bytes of an `i32` (two's complement).
pub open spec fn le32i(v: i32) -> Seq<u8> {
    let u = v as u32;
    seq![(u % 256) as u8, ((u / 256) % 256) as u8, ((u / 65536) % 256) as u8, (u / 16777216) as u8]
}

/// The kernel's layout of an effect: the header fields in order, each
/// little-endian, then the alignment bytes and the payload.
pub open spec fn effect_bytes(e: FfEffect) -> Seq<u8> {
    le16(e.kind) + le16i(e.id) + le16(e.direction) + le16(e.trigger.button) + le16(
        e.trigger.interval,
    ) + le16(e.replay.length) + le16(e.replay.delay) + e._align@ + e.payload@
}

/// The `ioc` request number as an integer: the four fields side by side.
pub open spec fn spec_ioc(dir: int, ty: int, nr: int, size: int) -> int {
    dir * 0x4000_0000 + size * 0x1_0000 + ty * 0x100 + nr
}

/// `_IOC(dir, ty, nr, size)`.
pub fn ioc(dir: u64, ty: u64, nr: u64, size: usize) -> (r: u64)
    requires
        dir < 4,
        ty < 256,
        nr < 256,
        size < 0x4000,
    ensures
        r == spec_ioc(dir as int, ty as int, nr as int, size as int),
{
    let s: u64 = size as u64;
    assert((dir << 30u64) | (s << 16u64) | (ty << 8u64) | nr == dir * 0x4000_0000 + s * 0x1_0000
        + ty * 0x100 + nr) by (bit_vector)
        requires
            dir < 4,
            ty < 256,
            nr < 256,
            s < 0x4000,
    ;
    (dir << IOC_DIRSHIFT) | (s << IOC_SIZESHIFT) | (ty << IOC_TYPESHIFT) | nr
}

/// `EVIOCSFF`: upload an effect.
pub fn eviocsff() -> (r: u64)
    ensures
        r == spec_ioc(IOC_WRITE as int, EV_TYPE as int, 0x80, FF_EFFECT_SIZE as int),
{
    ioc(IOC_WRITE, EV_TYPE, 0x80, FF_EFFECT_SIZE)
}

/// `EVIOCGNAME(len)`: read the device name.
pub fn eviocgname(len: usize) -> (r: u64)
    requires
        len < 0x4000,
    ensures
        r == spec_ioc(IOC_READ as int, EV_TYPE as int, 0x06, len as int),
{
    ioc(IOC_READ, EV_TYPE, 0x06, len)
}

/// `EVIOCGBIT(EV_FF, len)`: read the force-feedback capability bitmap.
pub fn eviocgbit_ff(len: usize) -> (r: u64)
    requires
        len < 0x4000,
    ensures
        r == spec_ioc(IOC_READ as int, EV_TYPE as int, 0x20 + EV_FF, len as int),
{
    ioc(IOC_READ, EV_TYPE, 0x20 + EV_FF as u64, len)
}

/// `EVIOCRMFF`: erase an uploaded effect (the argument is an `int`).
pub fn eviocrmff() -> (r: u64)
    ensures
        r == spec_ioc(IOC_WRITE as int, EV_TYPE as int, 0x81, 4),
{
    broadcast use vstd::layout::layout_of_primitives;

    ioc(IOC_WRITE, EV_TYPE, 0x81, core::mem::size_of::<i32>())
}

fn push_le16(out: &mut Vec<u8>, v: u16)
    ensures
        final(out)@ == old(out)@ + le16(v),
{
    out.push((v % 256) as u8);
    out.push((v / 256) as u8);
    assert(final(out)@ =~= old(out)@ + le16(v));
}

fn push_le16i(out: &mut Vec<u8>, v: i16)
    ensures
        final(out)@ == old(out)@ + le16i(v),
{
    push_le16(out, v as u16);
}

impl FfEffect {
    /// A rumble effect with the two motor magnitudes (0..=0xFFFF) that
    /// runs for `dur_ms` milliseconds; the kernel assigns the id.
    pub fn rumble(strong: u16, weak: u16, dur_ms: u16) -> (e: FfEffect)
        ensures
            e.kind == FF_RUMBLE,
            e.id == -1,
            e.replay == (FfReplay { length: dur_ms, delay: 0 }),
            e.payload@.subrange(0, 4) == le16(strong) + le16(weak),
            forall|i: int| 4 <= i < 32 ==> e.payload@[i] == 0,
            e.direction == 0,
            e.trigger == (FfTrigger { button: 0, interval: 0 }),
            e._align@ == seq![0u8, 0u8],
    {
        let mut e = FfEffect::default();
        e.kind = FF_RUMBLE;
        e.replay = FfReplay { length: dur_ms, delay: 0 };
        e.payload[0] = (strong % 256) as u8;
        e.payload[1] = (strong / 256) as u8;
        e.payload[2] = (weak % 256) as u8;
        e.payload[3] = (weak / 256) as u8;
        assert(e.payload@.subrange(0, 4) =~= le16(strong) + le16(weak));
        e
    }

    /// The effect in the kernel's layout, ready for `EVIOCSFF`.
    pub fn to_bytes(&self) -> (b: Vec<u8>)
        ensures
            b@ == effect_bytes(*self),
            b@.len() == FF_EFFECT_SIZE,
    {
        let mut b: Vec<u8> = Vec::new();
        push_le16(&mut b, self.kind);
        push_le16i(&mut b, self.id);
        push_le16(&mut b, self.direction);
        push_le16(&mut b, self.trigger.button);
        push_le16(&mut b, self.trigger.interval);
        push_le16(&mut b, self.replay.length);
        push_le16(&mut b, self.replay.delay);
        b.push(self._align[0]);
        b.push(self._align[1]);
        let ghost head = b@;
        let mut i: usize = 0;
        while i < 32
            invariant
                i <= 32,
                b@ == head + self.payload@.subrange(0, i as int),
            decreases 32 - i,
        {
            b.push(self.payload[i]);
            assert(self.payload@.subrange(0, i + 1) =~= self.payload@.subrange(0, i as int).push(
                self.payload@[i as int],
            ));
            i = i + 1;
        }
        assert(self._align@ =~= seq![self._align@[0], self._align@[1]]);
        assert(self.payload@.subrange(0, 32) =~= self.payload@);
        assert(b@ =~= effect_bytes(*self));
        b
    }
}

impl Default for FfEffect {
    fn default() -> (e: FfEffect)
        ensures
            e.kind == 0,
            e.id == -1,
            e.direction == 0,
            e.trigger == (FfTrigger { button: 0, interval: 0 }),
            e.replay == (FfReplay { length: 0, delay: 0 }),
            e._align@ == seq![0u8, 0u8],
            forall|i: int| 0 <= i < 32 ==> e.payload@[i] == 0,
    {
        let e = FfEffect {
            kind: 0,
            id: -1,
            direction: 0,
            trigger: FfTrigger { button: 0, interval: 0 },
            replay: FfReplay { length: 0, delay: 0 },
            _align: [0u8; 2],
            payload: [0u8; 32],
        };
        assert(e._align@ =~= seq![0u8, 0u8]);
        e
    }
}

/// The id the kernel wrote back into an uploaded effect (bytes 2 and 3).
pub fn assigned_id(bytes: &[u8]) -> (id: i16)
    requires
        bytes@.len() >= 4,
    ensures
        le16i(id) == bytes@.subrange(2, 4),
{
    let lo = bytes[2] as u16;
    let hi = bytes[3] as u16;
    let u: u16 = lo + hi * 256;
    let id = u as i16;
    assert(id as u16 == u) by (bit_vector)
        requires
            id == u as i16,
    ;
    assert(le16i(id) =~= bytes@.subrange(2, 4));
    id
}

/// The `struct input_event` bytes that start (`value == 1`) or stop
/// (`value == 0`) effect `id`: a zero timestamp, `EV_FF`, the id as the
/// code, then the value.
pub open spec fn spec_ff_event(id: i16, value: i32) -> Seq<u8> {
    Seq::new(16, |i: int| 0u8) + le16(EV_FF) + le16i(id) + le32i(value)
}

pub fn ff_event_bytes(id: i16, value: i32) -> (b: Vec<u8>)
    ensures
        b@ == spec_ff_event(id, value),
        b@.len() == INPUT_EVENT_SIZE,
{
    let mut b: Vec<u8> = Vec::new();
    let mut i: usize = 0;
    while i < 16
        invariant
            i <= 16,
            b@ == Seq::new(i as nat, |k: int| 0u8),
        decreases 16 - i,
    {
        b.push(0);
        assert(b@ =~= Seq::new((i + 1) as nat, |k: int| 0u8));
        i = i + 1;
    }
    push_le16(&mut b, EV_FF);
    push_le16i(&mut b, id);
    let u = value as u32;
    b.push((u % 256) as u8);
    b.push(((u / 256) % 256) as u8);
    b.push(((u / 65536) % 256) as u8);
    b.push((u / 16777216) as u8);
    assert(b@ =~= spec_ff_event(id, value));
    b
}

/// Whether bit `FF_RUMBLE` is set in an `EVIOCGBIT(EV_FF)` bitmap.
pub open spec fn spec_has_rumble_bit(bits: Seq<u8>) -> bool {
    bits[(FF_RUMBLE / 8) as int] % 2 == 1
}

pub fn has_rumble_bit(bits: &[u8]) -> (b: bool)
    requires
        bits@.len() > (FF_RUMBLE / 8) as int,
    ensures
        b == spec_has_rumble_bit(bits@),
{
    let bit = FF_RUMBLE as usize;
    let byte = bits[bit / 8];
    let sh: u8 = (bit % 8) as u8;
    assert(sh == 0);
    assert((byte & (1u8 << 0u8)) != 0 <==> byte % 2 == 1) by (bit_vector);
    (byte & (1u8 << sh)) != 0
}

/// Index of the first NUL byte of `s`, or its length when there is none.
pub open spec fn first_nul(s: Seq<u8>) -> int {
    if exists|i: int| 0 <= i < s.len() && s[i] == 0 && (forall|j: int| 0 <= j < i ==> s[j] != 0) {
        choose|i: int| 0 <= i < s.len() && s[i] == 0 && (forall|j: int| 0 <= j < i ==> s[j] != 0)
    } else {
        s.len() as int
    }
}

/// The name in an `EVIOCGNAME` reply: the first `ret` bytes (at most the
/// buffer), up to the first NUL.
pub open spec fn name_span(buf: Seq<u8>, ret: usize) -> Seq<u8> {
    let s = buf.subrange(0, if ret < buf.len() { ret as int } else { buf.len() as int });
    s.subrange(0, first_nul(s))
}

/// The device name in an `EVIOCGNAME` reply, if it is UTF-8.
pub fn name_from_reply(buf: &[u8], ret: usize) -> (r: Option<String>)
    ensures
        r is Some <==> valid_utf8(name_span(buf@, ret)),
        r matches Some(s) ==> s@ == decode_utf8(name_span(buf@, ret)),
{
    let len = if ret < buf.len() {
        ret
    } else {
        buf.len()
    };
    let ghost s = buf@.subrange(0, len as int);
    let mut end: usize = 0;
    while end < len && buf[end] != 0
        invariant
            end <= len,
            len <= buf@.len(),
            forall|j: int| 0 <= j < end ==> buf@[j] != 0,
        decreases len - end,
    {
        end = end + 1;
    }
    let mut out: Vec<u8> = Vec::new();
    let mut i: usize = 0;
    while i < end
        invariant
            i <= end,
            end <= buf@.len(),
            out@ == buf@.subrange(0, i as int),
        decreases end - i,
    {
        out.push(buf[i]);
        assert(buf@.subrange(0, i + 1) =~= buf@.subrange(0, i as int).push(buf@[i as int]));
        i = i + 1;
    }
    proof {
        if end < len {
            assert(s[end as int] == 0 && forall|j: int| 0 <= j < end ==> s[j] != 0);
            let c = choose|i: int| 0 <= i < s.len() && s[i] == 0 && (forall|j: int| 0 <= j < i ==> s[j] != 0);
            if c < end {
                assert(s[c] == buf@[c]);
            }
            if end < c {
                assert(s[end as int] != 0);
            }
            assert(c == end);
        } else {
            if exists|i: int| 0 <= i < s.len() && s[i] == 0 && (forall|j: int| 0 <= j < i ==> s[j] != 0) {
                let k = choose|i: int| 0 <= i < s.len() && s[i] == 0 && (forall|j: int| 0 <= j < i ==> s[j] != 0);
                assert(buf@[k] != 0);
            }
        }
        assert(name_span(buf@, ret) =~= out@);
    }
    utf8_to_string(&out)
}

/// `std::str::from_utf8`, owned: `Some` exactly when the bytes are UTF-8,
/// holding the characters they encode.
#[verifier::external_body]
fn utf8_to_string(bytes: &Vec<u8>) -> (r: Option<String>)
    ensures
        r is Some <==> valid_utf8(bytes@),
        r matches Some(s) ==> s@ == decode_utf8(bytes@),
{
    match std::str::from_utf8(bytes.as_slice()) {
        Ok(s) => Some(s.to_string()),
        Err(_) => None,
    }
}

// ----- stop schedule of uploaded effects --------------------------

/// An entry whose deadline has come at `now`.
pub open spec fn is_due(now: u128) -> spec_fn((i16, u128)) -> bool {
    |e: (i16, u128)| e.1 <= now
}

/// An entry whose deadline is still ahead at `now`.
pub open spec fn is_ahead(now: u128) -> spec_fn((i16, u128)) -> bool {
    |e: (i16, u128)| e.1 > now
}

/// The effect id of an entry.
pub open spec fn entry_id() -> spec_fn((i16, u128)) -> i16 {
    |e: (i16, u128)| e.0
}

/// Ids of the entries due at `now`, in order.
pub open spec fn due_ids(s: Seq<(i16, u128)>, now: u128) -> Seq<i16> {
    s.filter(is_due(now)).map_values(entry_id())
}

/// Entries still pending after `now`, in order.
pub open spec fn kept(s: Seq<(i16, u128)>, now: u128) -> Seq<(i16, u128)> {
    s.filter(is_ahead(now))
}

/// Effects that were started and are waiting for their stop. Rumble-only
/// drivers do not honour `replay.length`, so each effect is stopped and
/// erased by the host once its deadline (nanoseconds on the caller's
/// clock) has come.
pub struct EffectSchedule {
    pending: Vec<(i16, u128)>,
}

impl EffectSchedule {
    pub closed spec fn view(&self) -> Seq<(i16, u128)> {
        self.pending@
    }

    pub fn new() -> (s: Self)
        ensures
            s@ == Seq::<(i16, u128)>::empty(),
    {
        EffectSchedule { pending: Vec::new() }
    }

    pub fn len(&self) -> (n: usize)
        ensures
            n == self@.len(),
    {
        self.pending.len()
    }

    /// At the slot limit, drop the oldest effect and hand back its id
    /// (to be stopped and erased); otherwise change nothing.
    pub fn make_room(&mut self) -> (r: Option<i16>)
        ensures
            old(self)@.len() >= MAX_EFFECT_SLOTS ==> r == Some(old(self)@[0].0) && final(self)@
                == old(self)@.drop_first(),
            old(self)@.len() < MAX_EFFECT_SLOTS ==> r is None && final(self)@ == old(self)@,
    {
        if self.pending.len() >= MAX_EFFECT_SLOTS {
            let (id, _) = self.pending.remove(0);
            assert(self.pending@ =~= old(self)@.drop_first());
            Some(id)
        } else {
            None
        }
    }

    /// Remember that effect `id` must be stopped at `deadline`.
    pub fn push(&mut self, id: i16, deadline: u128)
        ensures
            final(self)@ == old(self)@.push((id, deadline)),
    {
        self.pending.push((id, deadline));
    }

    /// Take the effects due at `now` (deadline reached), oldest first;
    /// the others stay, in order.
    pub fn take_due(&mut self, now: u128) -> (due: Vec<i16>)
        ensures
            due@ == due_ids(old(self)@, now),
            final(self)@ == kept(old(self)@, now),
    {
        let ghost s = self.pending@;
        let mut due: Vec<i16> = Vec::new();
        let mut keep: Vec<(i16, u128)> = Vec::new();
        let n = self.pending.len();
        let mut i: usize = 0;
        while i < n
            invariant
                self.pending@ == s,
                n == s.len(),
                i <= n,
                due@ == due_ids(s.take(i as int), now),
                keep@ == kept(s.take(i as int), now),
            decreases n - i,
        {
            let e = self.pending[i];
            proof {
                assert(s.take(i + 1) =~= s.take(i as int).push(e));
                s.take(i as int).lemma_filter_push(e, is_due(now));
                s.take(i as int).lemma_filter_push(e, is_ahead(now));
            }
            if e.1 <= now {
                due.push(e.0);
                assert(due_ids(s.take(i + 1), now) =~= due_ids(s.take(i as int), now).push(e.0));
            } else {
                keep.push(e);
            }
            i = i + 1;
        }
        assert(s.take(n as int) =~= s);
        self.pending = keep;
        due
    }

    /// Empty the schedule, handing back every id in order (to silence
    /// the pad before the device closes).
    pub fn drain_all(&mut self) -> (ids: Vec<i16>)
        ensures
            ids@ == old(self)@.map_values(entry_id()),
            final(self)@ == Seq::<(i16, u128)>::empty(),
    {
        let mut ids: Vec<i16> = Vec::new();
        let n = self.pending.len();
        let mut i: usize = 0;
        while i < n
            invariant
                n == self.pending@.len(),
                i <= n,
                ids@ == self.pending@.take(i as int).map_values(entry_id()),
            decreases n - i,
        {
            ids.push(self.pending[i].0);
            assert(self.pending@.take(i + 1).map_values(entry_id()) =~= self.pending@.take(
                i as int,
            ).map_values(entry_id()).push(self.pending@[i as int].0));
            i = i + 1;
        }
        assert(self.pending@.take(n as int) =~= self.pending@);
        self.pending = Vec::new();
        ids
    }
}

// ----- picking the evdev node -------------------------------------

/// The name to look the evdev node up by: the pad's OS name (usually the
/// evdev name), or its display name when that is empty.
pub fn device_hint<'a>(os_name: &'a str, name: &'a str) -> (h: &'a str)
    ensures
        h@ == (if os_name@.len() > 0 {
            os_name@
        } else {
            name@
        }),
{
    if crate::text::chars_of(os_name).len() > 0 {
        os_name
    } else {
        name
    }
}

pub open spec fn shift(o: Option<int>, d: int) -> Option<int> {
    match o {
        Some(k) => Some(k + d),
        None => None,
    }
}

/// Index of the first candidate whose lowercased name contains the
/// lowercased hint.
pub open spec fn first_match(names: Seq<Seq<char>>, hint: Seq<char>) -> Option<int>
    decreases names.len(),
{
    if names.len() == 0 {
        None
    } else if has_substring(lowercase(names[0]), lowercase(hint)) {
        Some(0)
    } else {
        match first_match(names.drop_first(), hint) {
            Some(i) => Some(i + 1),
            None => None,
        }
    }
}

/// The order in which FF-capable candidates (by name) are tried: with a
/// non-empty hint, the first whose name contains it (case-insensitively);
/// then the first candidate.
pub open spec fn spec_candidate_order(names: Seq<Seq<char>>, hint: Seq<char>) -> Seq<usize> {
    let head = if lowercase(hint).len() > 0 {
        match first_match(names, hint) {
            Some(i) => seq![i as usize],
            None => Seq::empty(),
        }
    } else {
        Seq::empty()
    };
    if names.len() > 0 {
        head.push(0usize)
    } else {
        head
    }
}

pub fn candidate_order(names: &Vec<String>, hint: &str) -> (order: Vec<usize>)
    ensures
        order@ == spec_candidate_order(names@.map_values(|s: String| s@), hint@),
{
    let ghost ns = names@.map_values(|s: String| s@);
    let h = to_lowercase(hint);
    let mut order: Vec<usize> = Vec::new();
    if crate::text::chars_of(h.as_str()).len() > 0 {
        let mut i: usize = 0;
        let mut found: Option<usize> = None;
        assert(ns.skip(0) =~= ns);
        assert(shift(first_match(ns, hint@), 0) == first_match(ns, hint@));
        while i < names.len()
            invariant
                i <= names@.len(),
                ns == names@.map_values(|s: String| s@),
                h@ == lowercase(hint@),
                found is None ==> first_match(ns, hint@) == shift(first_match(ns.skip(i as int), hint@), i as int),
                found matches Some(f) ==> first_match(ns, hint@) == Some(f as int),
            decreases names@.len() - i,
        {
            if found.is_none() {
                let lname = to_lowercase(names[i].as_str());
                assert(ns.skip(i as int)[0] == names@[i as int]@);
                assert(ns.skip(i as int).drop_first() =~= ns.skip(i + 1));
                if contains_str(lname.as_str(), h.as_str()) {
                    found = Some(i);
                } else {
                    assert(shift(first_match(ns.skip(i + 1), hint@), i + 1) == shift(first_match(
                        ns.skip(i as int),
                        hint@,
                    ), i as int)) by {
                        match first_match(ns.skip(i + 1), hint@) {
                            Some(k) => {},
                            None => {},
                        }
                    }
                }
            }
            i = i + 1;
        }
        match found {
            Some(f) => order.push(f),
            None => {
                assert(ns.skip(names@.len() as int) =~= Seq::<Seq<char>>::empty());
            },
        }
    }
    if names.len() > 0 {
        order.push(0);
    }
    proof {
        assert(ns.len() == names@.len());
        assert(order@ =~= spec_candidate_order(ns, hint@));
    }
    order
}

} // verus!
