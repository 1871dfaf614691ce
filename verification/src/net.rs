//! Network constants and the plain parts of the wire protocol: what a
//! client sends to be admitted, how the host checks it, and how a
//! `connect` argument names the host.
use crate::share::{spec_decode, ShareCode, ShareError, MAGIC};
use crate::text::{chars_of, contains_str, dec, dec_chars, has_substring, push_chars, string_push_str};
use vstd::prelude::*;

verus! {

/// Netcode protocol id ("TERMHELL").
pub const PROTOCOL_ID: u64 = 0x5445524D_48454C4C;
pub const DEFAULT_PORT: u16 = 4646;
/// Arena size, in tiles, every peer agrees on.
pub const WORLD_W: u16 = 1600;
pub const WORLD_H: u16 = 800;

pub fn default_port() -> (p: u16)
    ensures
        p == DEFAULT_PORT,
{
    DEFAULT_PORT
}

pub fn world_size() -> (s: (u16, u16))
    ensures
        s == (WORLD_W, WORLD_H),
{
    (WORLD_W, WORLD_H)
}

/// Host simulation step: 33.333 ms (30 Hz), in nanoseconds.
pub const SIM_DT_NANOS: u128 = 33_333_000;
/// Host snapshot period: 50 ms (20 Hz), in nanoseconds.
pub const SNAPSHOT_PERIOD_NANOS: u128 = 50_000_000;
/// Host frame budget: 16.667 ms, in nanoseconds.
pub const TARGET_FRAME_NANOS: u128 = 16_667_000;

/// The host loop's fixed-step bookkeeping: frame time not yet spent on
/// simulation ticks, and time since the last snapshot, in nanoseconds.
pub struct ServeCadence {
    pub tick_accum: u128,
    pub snapshot_accum: u128,
}

impl ServeCadence {
    pub fn new() -> (c: Self)
        ensures
            c.tick_accum == 0,
            c.snapshot_accum == 0,
    {
        ServeCadence { tick_accum: 0, snapshot_accum: 0 }
    }

    /// Account a frame of `dt` nanoseconds: returns how many simulation
    /// ticks are due (each spends one step of the accumulated time) and
    /// whether a snapshot is due (which restarts the snapshot clock).
    pub fn advance(&mut self, dt: u128) -> (r: (u128, bool))
        requires
            old(self).tick_accum + dt <= u128::MAX,
            old(self).snapshot_accum + dt <= u128::MAX,
        ensures
            r.0 == (old(self).tick_accum + dt) / SIM_DT_NANOS as int,
            final(self).tick_accum == (old(self).tick_accum + dt) % SIM_DT_NANOS as int,
            r.1 == (old(self).snapshot_accum + dt >= SNAPSHOT_PERIOD_NANOS),
            final(self).snapshot_accum == (if r.1 {
                0
            } else {
                old(self).snapshot_accum + dt
            }),
    {
        let t = self.tick_accum + dt;
        let ticks = t / SIM_DT_NANOS;
        self.tick_accum = t % SIM_DT_NANOS;
        let s = self.snapshot_accum + dt;
        let snap = s >= SNAPSHOT_PERIOD_NANOS;
        self.snapshot_accum = if snap {
            0
        } else {
            s
        };
        (ticks, snap)
    }
}

/// How long the host sleeps after a frame that took `elapsed`
/// nanoseconds: the rest of the frame budget, if any.
pub fn frame_sleep_nanos(elapsed: u128) -> (s: u128)
    ensures
        s == (if elapsed < TARGET_FRAME_NANOS {
            TARGET_FRAME_NANOS - elapsed
        } else {
            0
        }),
{
    if elapsed < TARGET_FRAME_NANOS {
        TARGET_FRAME_NANOS - elapsed
    } else {
        0
    }
}

/// First reliable message a client receives: its player id and the
/// arena tiles.
#[derive(Debug)]
pub struct Welcome {
    pub your_id: u32,
    pub arena_w: u16,
    pub arena_h: u16,
    pub arena_tiles: Vec<u8>,
}

/// The netcode user data a client attaches: the session token in the
/// first 16 bytes, zeros after.
pub open spec fn spec_user_data(token: Seq<u8>) -> Seq<u8> {
    token + Seq::new(240, |i: int| 0u8)
}

/// Build the user data for a session token.
pub fn session_user_data(token: &[u8; 16]) -> (d: [u8; 256])
    ensures
        d@ == spec_user_data(token@),
{
    let mut d = [0u8; 256];
    let mut i: usize = 0;
    while i < 16
        invariant
            i <= 16,
            d@.len() == 256,
            forall|j: int| 0 <= j < i ==> d@[j] == token@[j],
            forall|j: int| i <= j < 256 ==> d@[j] == 0,
        decreases 16 - i,
    {
        d[i] = token[i];
        i = i + 1;
    }
    assert(d@ =~= spec_user_data(token@));
    d
}

/// The host admits a client exactly when its user data is present and
/// starts with the session token.
pub open spec fn spec_token_ok(user_data: Option<Seq<u8>>, token: Seq<u8>) -> bool {
    match user_data {
        Some(d) => d.subrange(0, 16) == token,
        None => false,
    }
}

/// Whether a connecting client carries this session's token.
pub fn token_accepted(user_data: Option<&[u8; 256]>, token: &[u8; 16]) -> (ok: bool)
    ensures
        ok == spec_token_ok(
            match user_data {
                Some(d) => Some(d@),
                None => None,
            },
            token@,
        ),
{
    match user_data {
        Some(d) => {
            let mut i: usize = 0;
            while i < 16
                invariant
                    i <= 16,
                    d@.len() == 256,
                    user_data == Some(d),
                    forall|j: int| 0 <= j < i ==> d@[j] == token@[j],
                decreases 16 - i,
            {
                if d[i] != token[i] {
                    proof {
                        let s = d@.subrange(0, 16);
                        assert(s[i as int] != token@[i as int]);
                        assert(s != token@);
                    }
                    return false;
                }
                i = i + 1;
            }
            assert(d@.subrange(0, 16) =~= token@);
            true
        },
        None => false,
    }
}

/// A client that joins with the share code is admitted, and one whose
/// token differs is turned away.
pub proof fn lemma_token_admission(token: [u8; 16], other: [u8; 16])
    ensures
        spec_token_ok(Some(spec_user_data(token@)), token@),
        token@ != other@ ==> !spec_token_ok(Some(spec_user_data(other@)), token@),
{
    assert(spec_user_data(token@).subrange(0, 16) =~= token@);
    assert(spec_user_data(other@).subrange(0, 16) =~= other@);
}

/// Where `connect` goes.
pub enum ConnectTarget {
    /// A share code: the host's game endpoint and the user data that
    /// carries the session token.
    Code { ip: [u8; 4], port: u16, user_data: [u8; 256] },
    /// A raw address, `ip:port`; the default port is appended when the
    /// argument names none.
    Addr(String),
}

/// The argument starts with the share-code prefix.
pub open spec fn is_code_text(s: Seq<char>) -> bool {
    s.len() >= 4 && s.subrange(0, 4) == MAGIC@
}

/// The address text a raw argument stands for.
pub open spec fn addr_text(s: Seq<char>) -> Seq<char> {
    if has_substring(s, ":"@) {
        s
    } else {
        s + ":"@ + dec(DEFAULT_PORT as nat)
    }
}

/// Read a `connect` argument: a `TH01…` share code (its errors are the
/// decoder's), or a raw `ip[:port]` address.
pub fn connect_target(addr: &str) -> (r: Result<ConnectTarget, ShareError>)
    requires
        addr@.len() * 5 <= usize::MAX,
    ensures
        is_code_text(addr@) ==> match spec_decode(addr@) {
            Ok(c) => (r matches Ok(ConnectTarget::Code { ip, port, user_data }) && ip == c.ip
                && port == c.game_port && user_data@ == spec_user_data(c.token@)),
            Err(e) => r == Err::<ConnectTarget, ShareError>(e),
        },
        !is_code_text(addr@) ==> (r matches Ok(ConnectTarget::Addr(a)) && a@ == addr_text(addr@)),
{
    proof {
        reveal_strlit("TH01");
        reveal_strlit(":");
    }
    let cs = chars_of(addr);
    let is_code = cs.len() >= 4 && cs[0] == 'T' && cs[1] == 'H' && cs[2] == '0' && cs[3] == '1';
    proof {
        if is_code {
            assert(addr@.subrange(0, 4) =~= MAGIC@);
        } else if addr@.len() >= 4 {
            if addr@.subrange(0, 4) == MAGIC@ {
                assert(addr@.subrange(0, 4)[0] == addr@[0]);
                assert(addr@.subrange(0, 4)[1] == addr@[1]);
                assert(addr@.subrange(0, 4)[2] == addr@[2]);
                assert(addr@.subrange(0, 4)[3] == addr@[3]);
            }
        }
    }
    if is_code {
        match ShareCode::decode(addr) {
            Ok(c) => {
                let user_data = session_user_data(&c.token);
                Ok(ConnectTarget::Code { ip: c.ip, port: c.game_port, user_data })
            },
            Err(e) => Err(e),
        }
    } else {
        let mut s = String::new();
        string_push_str(&mut s, addr);
        if !contains_str(addr, ":") {
            string_push_str(&mut s, ":");
            push_chars(&mut s, &dec_chars(DEFAULT_PORT as u128));
        }
        Ok(ConnectTarget::Addr(s))
    }
}

} // verus!
