//! Session share codes.
//!
//! Format: `TH01` prefix + 40 base32 characters encoding 25 bytes:
//!
//! ```text
//! [schema:1] [ip:4] [game_port:2] [http_port:2] [token:16] = 25 bytes
//! ```
//!
//! The base32 alphabet is RFC 4648 (A-Z + 2-7), no padding, so a code is
//! safe to paste into bash / zsh / PowerShell as a plain argument. Ports
//! are big-endian.
//!
//! The token is a 128-bit random value generated per `serve` session: the
//! host checks it on every incoming connection and uses it as the HMAC
//! key for binary signing. It dies with the host process.
use crate::text::{chars_of, dec, dec_chars, push_chars, string_from_chars, string_push_str};
use vstd::prelude::*;

verus! {

pub const MAGIC: &'static str = "TH01";

pub const SCHEMA_V1: u8 = 1;

/// Raw payload size, without the `TH01` prefix.
pub const PAYLOAD_BYTES: usize = 25;

/// What `base32::encode` (RFC 4648 alphabet, no padding) gives for `bytes`.
pub uninterp spec fn b32_encode(bytes: Seq<u8>) -> Seq<char>;

/// What `base32::decode` (RFC 4648 alphabet, no padding) gives for `text`.
pub uninterp spec fn b32_decode(text: Seq<char>) -> Option<Seq<u8>>;

/// A character of the RFC 4648 base32 alphabet: `A`-`Z` and `2`-`7`.
pub open spec fn is_b32_char(c: char) -> bool {
    ('A' <= c <= 'Z') || ('2' <= c <= '7')
}

/// `base32::encode` with the RFC 4648 alphabet and no padding. Each five
/// bytes become eight alphabet characters, and a last partial group of
/// `k` bytes becomes `(8k + 4) / 5` of them (the padding is cut off), so
/// the text is `(8n + 4) / 5` characters long. The crate decodes its own
/// output back to the input (its tests check this for every alphabet).
#[verifier::external_body]
fn base32_encode(bytes: &[u8]) -> (s: String)
    ensures
        s@ == b32_encode(bytes@),
        s@.len() == (bytes@.len() * 8 + 4) / 5,
        forall|i: int| 0 <= i < s@.len() ==> is_b32_char(#[trigger] s@[i]),
        b32_decode(s@) == Some(bytes@),
{
    base32::encode(base32::Alphabet::Rfc4648 { padding: false }, bytes)
}

/// `base32::decode` with the RFC 4648 alphabet and no padding: `None` on
/// a character outside the alphabet (or non-ASCII text). Its output-size
/// computation multiplies the text length by 5, hence the bound.
#[verifier::external_body]
fn base32_decode(text: &str) -> (r: Option<Vec<u8>>)
    requires
        text@.len() * 5 <= usize::MAX,
    ensures
        match r {
            Some(v) => b32_decode(text@) == Some(v@),
            None => b32_decode(text@) is None,
        },
{
    base32::decode(base32::Alphabet::Rfc4648 { padding: false }, text)
}

/// Why a share code was refused.
#[derive(Clone, Copy, Debug, PartialEq, Eq)]
pub enum ShareError {
    /// It does not start with `TH01`.
    BadMagic,
    /// The rest is not base32.
    Base32,
    /// The payload has this many bytes, not 25.
    PayloadLen(usize),
    /// The schema byte names a version this build does not read.
    Schema(u8),
}

impl ShareError {
    pub open spec fn spec_message(self) -> Seq<char> {
        match self {
            ShareError::BadMagic => "share code must start with `TH01`"@,
            ShareError::Base32 => "share code base32 decode failed"@,
            ShareError::PayloadLen(n) => "share code payload is "@ + dec(n as nat)
                + " bytes, expected 25"@,
            ShareError::Schema(v) => "unsupported share-code schema v"@ + dec(v as nat),
        }
    }

    /// The error as a sentence for the user.
    pub fn message(&self) -> (m: String)
        ensures
            m@ == self.spec_message(),
    {
        let mut m = String::new();
        match self {
            ShareError::BadMagic => string_push_str(&mut m, "share code must start with `TH01`"),
            ShareError::Base32 => string_push_str(&mut m, "share code base32 decode failed"),
            ShareError::PayloadLen(n) => {
                string_push_str(&mut m, "share code payload is ");
                push_chars(&mut m, &dec_chars(*n as u128));
                string_push_str(&mut m, " bytes, expected 25");
            },
            ShareError::Schema(v) => {
                string_push_str(&mut m, "unsupported share-code schema v");
                push_chars(&mut m, &dec_chars(*v as u128));
            },
        }
        m
    }
}

#[derive(Clone, Copy, Debug, PartialEq, Eq)]
pub struct ShareCode {
    pub schema: u8,
    pub ip: [u8; 4],
    pub game_port: u16,
    pub http_port: u16,
    pub token: [u8; 16],
}

pub open spec fn be16(v: u16) -> Seq<u8> {
    seq![(v / 256) as u8, (v % 256) as u8]
}

/// The 25 payload bytes of a code.
pub open spec fn payload(c: ShareCode) -> Seq<u8> {
    seq![c.schema] + c.ip@ + be16(c.game_port) + be16(c.http_port) + c.token@
}

/// The code whose payload is `b` (25 bytes).
pub open spec fn from_payload(b: Seq<u8>) -> ShareCode {
    ShareCode {
        schema: b[0],
        ip: [b[1], b[2], b[3], b[4]],
        game_port: (b[5] * 256 + b[6]) as u16,
        http_port: (b[7] * 256 + b[8]) as u16,
        token: [
            b[9],
            b[10],
            b[11],
            b[12],
            b[13],
            b[14],
            b[15],
            b[16],
            b[17],
            b[18],
            b[19],
            b[20],
            b[21],
            b[22],
            b[23],
            b[24],
        ],
    }
}

/// The text of a code.
pub open spec fn spec_encode(c: ShareCode) -> Seq<char> {
    MAGIC@ + b32_encode(payload(c))
}

/// What `ShareCode::decode` answers for `s`.
pub open spec fn spec_decode(s: Seq<char>) -> Result<ShareCode, ShareError> {
    if s.len() < 4 || s.subrange(0, 4) != MAGIC@ {
        Err(ShareError::BadMagic)
    } else {
        match b32_decode(s.subrange(4, s.len() as int)) {
            None => Err(ShareError::Base32),
            Some(b) => spec_payload(b),
        }
    }
}

/// What a decoded payload reads as.
pub open spec fn spec_payload(b: Seq<u8>) -> Result<ShareCode, ShareError> {
    if b.len() != PAYLOAD_BYTES {
        Err(ShareError::PayloadLen(b.len() as usize))
    } else if b[0] != SCHEMA_V1 {
        Err(ShareError::Schema(b[0]))
    } else {
        Ok(from_payload(b))
    }
}

proof fn lemma_payload_roundtrip(c: ShareCode)
    ensures
        payload(c).len() == PAYLOAD_BYTES,
        payload(c)[0] == c.schema,
        from_payload(payload(c)) == c,
{
    let b = payload(c);
    assert(b[5] == c.game_port / 256 && b[6] == c.game_port % 256);
    assert(b[7] == c.http_port / 256 && b[8] == c.http_port % 256);
    assert(from_payload(b).game_port == c.game_port);
    assert(from_payload(b).http_port == c.http_port);
    assert(from_payload(b).ip =~= c.ip);
    assert(from_payload(b).token =~= c.token);
}

fn push_be16(out: &mut Vec<u8>, v: u16)
    ensures
        final(out)@ == old(out)@ + be16(v),
{
    out.push((v / 256) as u8);
    out.push((v % 256) as u8);
    assert(final(out)@ =~= old(out)@ + be16(v));
}

/// Is `p` a prefix of `s`?
fn has_prefix(s: &Vec<char>, p: &Vec<char>) -> (b: bool)
    ensures
        b == (p@.len() <= s@.len() && s@.subrange(0, p@.len() as int) == p@),
{
    if p.len() > s.len() {
        return false;
    }
    let mut i: usize = 0;
    while i < p.len()
        invariant
            p@.len() <= s@.len(),
            i <= p@.len(),
            forall|j: int| 0 <= j < i ==> s@[j] == p@[j],
        decreases p.len() - i,
    {
        if s[i] != p[i] {
            assert(s@.subrange(0, p@.len() as int)[i as int] != p@[i as int]);
            return false;
        }
        i = i + 1;
    }
    assert(s@.subrange(0, p@.len() as int) =~= p@);
    true
}

/// The characters of `s` from `k` on.
fn chars_from(s: &Vec<char>, k: usize) -> (v: Vec<char>)
    requires
        k <= s@.len(),
    ensures
        v@ == s@.subrange(k as int, s@.len() as int),
{
    let mut v: Vec<char> = Vec::new();
    let mut i: usize = k;
    while i < s.len()
        invariant
            k <= i <= s@.len(),
            v@ == s@.subrange(k as int, i as int),
        decreases s.len() - i,
    {
        v.push(s[i]);
        assert(s@.subrange(k as int, i + 1) =~= s@.subrange(k as int, i as int).push(s@[i as int]));
        i = i + 1;
    }
    v
}

impl ShareCode {
    pub fn new(ip: [u8; 4], game_port: u16, http_port: u16, token: [u8; 16]) -> (c: Self)
        ensures
            c == (ShareCode { schema: SCHEMA_V1, ip, game_port, http_port, token }),
    {
        ShareCode { schema: SCHEMA_V1, ip, game_port, http_port, token }
    }

    /// The 25 payload bytes.
    pub fn payload_bytes(&self) -> (b: Vec<u8>)
        ensures
            b@ == payload(*self),
    {
        let mut b: Vec<u8> = Vec::new();
        b.push(self.schema);
        let mut i: usize = 0;
        while i < 4
            invariant
                i <= 4,
                b@ == seq![self.schema] + self.ip@.subrange(0, i as int),
            decreases 4 - i,
        {
            b.push(self.ip[i]);
            assert(self.ip@.subrange(0, i + 1) =~= self.ip@.subrange(0, i as int).push(self.ip@[i as int]));
            i = i + 1;
        }
        push_be16(&mut b, self.game_port);
        push_be16(&mut b, self.http_port);
        let ghost head = b@;
        let mut j: usize = 0;
        while j < 16
            invariant
                j <= 16,
                b@ == head + self.token@.subrange(0, j as int),
            decreases 16 - j,
        {
            b.push(self.token[j]);
            assert(self.token@.subrange(0, j + 1) =~= self.token@.subrange(0, j as int).push(
                self.token@[j as int],
            ));
            j = j + 1;
        }
        assert(self.ip@.subrange(0, 4) =~= self.ip@);
        assert(self.token@.subrange(0, 16) =~= self.token@);
        assert(b@ =~= payload(*self));
        b
    }

    /// `TH01` followed by the base32 payload: 44 characters, the last 40
    /// from `A`-`Z` and `2`-`7`. A code of the current schema decodes back
    /// to itself.
    pub fn encode(&self) -> (s: String)
        ensures
            s@ == spec_encode(*self),
            s@.len() == 44,
            s@.subrange(0, 4) == MAGIC@,
            forall|i: int| 4 <= i < 44 ==> is_b32_char(#[trigger] s@[i]),
            self.schema == SCHEMA_V1 ==> spec_decode(s@) == Ok::<ShareCode, ShareError>(*self),
    {
        let buf = self.payload_bytes();
        let b32 = base32_encode(buf.as_slice());
        let mut s = String::new();
        string_push_str(&mut s, MAGIC);
        string_push_str(&mut s, b32.as_str());
        proof {
            reveal_strlit("TH01");
            lemma_payload_roundtrip(*self);
            assert(s@.subrange(0, 4) =~= MAGIC@);
            assert(s@.subrange(4, s@.len() as int) =~= b32@);
            assert(payload(*self).len() == 25);
            assert forall|i: int| 4 <= i < 44 implies is_b32_char(#[trigger] s@[i]) by {
                assert(s@[i] == b32@[i - 4]);
            }
        }
        s
    }

    /// Parse a code: the `TH01` prefix, base32, 25 bytes, schema 1.
    pub fn decode(s: &str) -> (r: Result<ShareCode, ShareError>)
        requires
            s@.len() * 5 <= usize::MAX,
        ensures
            r == spec_decode(s@),
    {
        proof {
            reveal_strlit("TH01");
        }
        let cs = chars_of(s);
        let magic = chars_of(MAGIC);
        if !has_prefix(&cs, &magic) {
            return Err(ShareError::BadMagic);
        }
        let rest_chars = chars_from(&cs, 4);
        let rest = string_from_chars(&rest_chars);
        let bytes = match base32_decode(rest.as_str()) {
            Some(b) => b,
            None => {
                return Err(ShareError::Base32);
            },
        };
        ShareCode::from_payload_bytes(bytes.as_slice())
    }

    /// Read a decoded payload: 25 bytes, schema 1, then ip, big-endian
    /// ports and token.
    pub fn from_payload_bytes(bytes: &[u8]) -> (r: Result<ShareCode, ShareError>)
        ensures
            r == spec_payload(bytes@),
    {
        if bytes.len() != PAYLOAD_BYTES {
            return Err(ShareError::PayloadLen(bytes.len()));
        }
        let schema = bytes[0];
        if schema != SCHEMA_V1 {
            return Err(ShareError::Schema(schema));
        }
        let ip = [bytes[1], bytes[2], bytes[3], bytes[4]];
        let game_port: u16 = (bytes[5] as u16) * 256 + bytes[6] as u16;
        let http_port: u16 = (bytes[7] as u16) * 256 + bytes[8] as u16;
        let token = [
            bytes[9],
            bytes[10],
            bytes[11],
            bytes[12],
            bytes[13],
            bytes[14],
            bytes[15],
            bytes[16],
            bytes[17],
            bytes[18],
            bytes[19],
            bytes[20],
            bytes[21],
            bytes[22],
            bytes[23],
            bytes[24],
        ];
        let c = ShareCode { schema, ip, game_port, http_port, token };
        assert(c == from_payload(bytes@));
        Ok(c)
    }

    /// The shell command that joins the session:
    /// `terminal_hell connect TH01...`.
    pub fn connect_command(&self) -> (s: String)
        ensures
            s@ == "terminal_hell connect "@ + spec_encode(*self),
    {
        let code = self.encode();
        let mut s = String::new();
        string_push_str(&mut s, "terminal_hell connect ");
        string_push_str(&mut s, code.as_str());
        s
    }
}

/// Why no token could be made.
#[derive(Clone, Copy, Debug, PartialEq, Eq)]
pub enum TokenError {
    /// The OS randomness source failed.
    OsRandomness,
}

#[verifier::external_type_specification]
#[verifier::external_body]
pub struct ExGetrandomError(getrandom::Error);

/// `getrandom::getrandom`: fills `buf` from the OS CSPRNG or fails. What
/// it writes is chance, so only the length is stated.
#[verifier::external_body]
pub(crate) fn os_random_fill(buf: &mut Vec<u8>) -> (r: Result<(), getrandom::Error>)
    ensures
        final(buf)@.len() == old(buf)@.len(),
{
    getrandom::getrandom(buf.as_mut_slice())
}

/// A fresh 128-bit session token from the OS CSPRNG.
pub fn new_token() -> (r: Result<[u8; 16], TokenError>)
    ensures
        r is Err ==> r == Err::<[u8; 16], TokenError>(TokenError::OsRandomness),
{
    let mut t: Vec<u8> = Vec::new();
    let mut i: usize = 0;
    while i < 16
        invariant
            i <= 16,
            t@.len() == i,
        decreases 16 - i,
    {
        t.push(0);
        i = i + 1;
    }
    match os_random_fill(&mut t) {
        Ok(()) => Ok([
            t[0],
            t[1],
            t[2],
            t[3],
            t[4],
            t[5],
            t[6],
            t[7],
            t[8],
            t[9],
            t[10],
            t[11],
            t[12],
            t[13],
            t[14],
            t[15],
        ]),
        Err(_) => Err(TokenError::OsRandomness),
    }
}

} // verus!
