//! Minimal STUN (RFC 5389): the Binding Request and the reading of the
//! XOR-MAPPED-ADDRESS (or plain MAPPED-ADDRESS) out of the response, so
//! `serve` can learn the host's public IPv4 endpoint for the share code.
//!
//! IPv4 only; the response is trusted as far as its transaction id
//! matches. Sending and receiving the datagram is the caller's part.
use crate::share::os_random_fill;
use crate::text::{dec, dec_chars, push_chars, string_push, string_push_str};
use vstd::prelude::*;

verus! {

pub const GOOGLE_STUN: &'static str = "stun.l.google.com:19302";

pub const MAGIC_COOKIE: u32 = 0x2112_A442;

pub const BINDING_REQUEST: u16 = 0x0001;

pub const BINDING_SUCCESS: u16 = 0x0101;

pub const XOR_MAPPED_ADDRESS: u16 = 0x0020;

pub const MAPPED_ADDRESS: u16 = 0x0001;

/// The cookie's bytes, big-endian.
pub open spec fn cookie_bytes() -> Seq<u8> {
    seq![0x21u8, 0x12u8, 0xA4u8, 0x42u8]
}

/// A Binding Request with no attributes: type, zero length, the magic
/// cookie, the transaction id.
pub open spec fn spec_binding_request(txn: Seq<u8>) -> Seq<u8> {
    seq![0u8, 1u8, 0u8, 0u8] + cookie_bytes() + txn
}

pub fn binding_request(txn_id: &[u8; 12]) -> (req: Vec<u8>)
    ensures
        req@ == spec_binding_request(txn_id@),
        req@.len() == 20,
{
    let mut req: Vec<u8> = Vec::new();
    req.push(0);
    req.push(1);
    req.push(0);
    req.push(0);
    req.push(0x21);
    req.push(0x12);
    req.push(0xA4);
    req.push(0x42);
    let mut i: usize = 0;
    while i < 12
        invariant
            i <= 12,
            req@ == seq![0u8, 1u8, 0u8, 0u8] + cookie_bytes() + txn_id@.subrange(0, i as int),
        decreases 12 - i,
    {
        req.push(txn_id[i]);
        assert(txn_id@.subrange(0, i + 1) =~= txn_id@.subrange(0, i as int).push(txn_id@[i as int]));
        i = i + 1;
    }
    assert(txn_id@.subrange(0, 12) =~= txn_id@);
    req
}

/// Why a STUN exchange gave no endpoint.
#[derive(Clone, Copy, Debug, PartialEq, Eq, Structural)]
pub enum StunError {
    /// No transaction id could be drawn from the OS.
    Randomness,
    /// Fewer than 20 bytes came back.
    TooShort(usize),
    /// The message type is not Binding Success.
    NotSuccess(u16),
    /// The magic cookie does not match.
    BadCookie,
    /// The transaction id does not match ours.
    TxnMismatch,
    /// The declared message length runs past the datagram.
    Overrun,
    /// No (XOR-)MAPPED-ADDRESS attribute for IPv4.
    NoAddress,
}

/// Lowercase hex digit of `d` (below 16).
pub open spec fn hex_digit_char(d: int) -> char {
    if d < 10 {
        ((d + 48) as u8) as char
    } else {
        ((d + 87) as u8) as char
    }
}

/// `v` as four lowercase hex digits (`{:04x}`).
pub open spec fn hex4(v: u16) -> Seq<char> {
    seq![
        hex_digit_char((v / 4096) as int),
        hex_digit_char(((v / 256) % 16) as int),
        hex_digit_char(((v / 16) % 16) as int),
        hex_digit_char((v % 16) as int),
    ]
}

fn hex_digit_exec(d: u16) -> (c: char)
    requires
        d < 16,
    ensures
        c == hex_digit_char(d as int),
{
    if d < 10 {
        ((d + 48) as u8) as char
    } else {
        ((d + 87) as u8) as char
    }
}

impl StunError {
    pub open spec fn spec_message(self) -> Seq<char> {
        match self {
            StunError::Randomness => "STUN transaction id"@,
            StunError::TooShort(n) => "STUN response too short ("@ + dec(n as nat) + " bytes)"@,
            StunError::NotSuccess(t) => "STUN response type 0x"@ + hex4(t) + " != success"@,
            StunError::BadCookie => "STUN magic cookie mismatch"@,
            StunError::TxnMismatch => "STUN transaction id mismatch"@,
            StunError::Overrun => "STUN msg_len overruns packet"@,
            StunError::NoAddress => "STUN response had no XOR-MAPPED-ADDRESS attribute"@,
        }
    }

    /// The error as a sentence for the log.
    pub fn message(&self) -> (m: String)
        ensures
            m@ == self.spec_message(),
    {
        let mut m = String::new();
        match self {
            StunError::Randomness => string_push_str(&mut m, "STUN transaction id"),
            StunError::TooShort(n) => {
                string_push_str(&mut m, "STUN response too short (");
                push_chars(&mut m, &dec_chars(*n as u128));
                string_push_str(&mut m, " bytes)");
            },
            StunError::NotSuccess(t) => {
                string_push_str(&mut m, "STUN response type 0x");
                let t = *t;
                string_push(&mut m, hex_digit_exec(t / 4096));
                string_push(&mut m, hex_digit_exec((t / 256) % 16));
                string_push(&mut m, hex_digit_exec((t / 16) % 16));
                string_push(&mut m, hex_digit_exec(t % 16));
                string_push_str(&mut m, " != success");
                proof {
                    reveal_strlit("STUN response type 0x");
                    reveal_strlit(" != success");
                }
                assert(m@ =~= self.spec_message());
            },
            StunError::BadCookie => string_push_str(&mut m, "STUN magic cookie mismatch"),
            StunError::TxnMismatch => string_push_str(&mut m, "STUN transaction id mismatch"),
            StunError::Overrun => string_push_str(&mut m, "STUN msg_len overruns packet"),
            StunError::NoAddress => string_push_str(
                &mut m,
                "STUN response had no XOR-MAPPED-ADDRESS attribute",
            ),
        }
        m
    }
}

/// A fresh 96-bit transaction id from the OS CSPRNG.
pub fn new_txn_id() -> (r: Result<[u8; 12], StunError>)
    ensures
        r is Err ==> r == Err::<[u8; 12], StunError>(StunError::Randomness),
{
    let mut t: Vec<u8> = Vec::new();
    let mut i: usize = 0;
    while i < 12
        invariant
            i <= 12,
            t@.len() == i,
        decreases 12 - i,
    {
        t.push(0);
        i = i + 1;
    }
    match os_random_fill(&mut t) {
        Ok(()) => Ok([t[0], t[1], t[2], t[3], t[4], t[5], t[6], t[7], t[8], t[9], t[10], t[11]]),
        Err(_) => Err(StunError::Randomness),
    }
}

pub open spec fn be16_at(b: Seq<u8>, i: int) -> int {
    b[i] * 256 + b[i + 1]
}

/// The endpoint an address attribute at `start` (value bytes) carries.
pub open spec fn xor_endpoint(b: Seq<u8>, start: int) -> ([u8; 4], u16) {
    (
        [b[start + 4] ^ 0x21u8, b[start + 5] ^ 0x12u8, b[start + 6] ^ 0xA4u8, b[start + 7] ^ 0x42u8],
        (be16_at(b, start + 2) as u16) ^ 0x2112u16,
    )
}

pub open spec fn plain_endpoint(b: Seq<u8>, start: int) -> ([u8; 4], u16) {
    ([b[start + 4], b[start + 5], b[start + 6], b[start + 7]], be16_at(b, start + 2) as u16)
}

/// Walk the attributes of `body` from offset `i`: the first
/// XOR-MAPPED-ADDRESS or MAPPED-ADDRESS of the IPv4 family (value of at
/// least 8 bytes) wins; attributes are padded to four bytes; a truncated
/// attribute ends the walk.
pub open spec fn walk_attrs(body: Seq<u8>, i: int) -> Option<([u8; 4], u16)>
    decreases body.len() + 4 - i,
{
    if i < 0 || i + 4 > body.len() {
        None
    } else {
        let atype = be16_at(body, i);
        let alen = be16_at(body, i + 2);
        let start = i + 4;
        let end = start + alen;
        proof {
            lemma_byte_range(body[i + 2]);
            lemma_byte_range(body[i + 3]);
        }
        if end > body.len() {
            None
        } else if atype == XOR_MAPPED_ADDRESS && alen >= 8 && body[start + 1] == 1 {
            Some(xor_endpoint(body, start))
        } else if atype == MAPPED_ADDRESS && alen >= 8 && body[start + 1] == 1 {
            Some(plain_endpoint(body, start))
        } else {
            walk_attrs(body, end + (4 - alen % 4) % 4)
        }
    }
}

/// An attribute's value padded up to a four-byte boundary.
pub open spec fn padded_len(alen: int) -> int {
    ((alen + 3) / 4) * 4
}

/// Walking past an attribute that carries no usable address (of value
/// length `alen`, lying inside the body) goes on at the next four-byte
/// boundary after its value: offset `i + 4 + padded_len(alen)`.
pub proof fn lemma_walk_skips_padded(body: Seq<u8>, i: int)
    requires
        0 <= i,
        i + 4 + be16_at(body, i + 2) <= body.len(),
        !(be16_at(body, i) == XOR_MAPPED_ADDRESS && be16_at(body, i + 2) >= 8 && body[i + 5] == 1),
        !(be16_at(body, i) == MAPPED_ADDRESS && be16_at(body, i + 2) >= 8 && body[i + 5] == 1),
    ensures
        walk_attrs(body, i) == walk_attrs(body, i + 4 + padded_len(be16_at(body, i + 2))),
{
    let alen = be16_at(body, i + 2);
    lemma_byte_range(body[i + 2]);
    lemma_byte_range(body[i + 3]);
    assert(alen + (4 - alen % 4) % 4 == padded_len(alen));
}

/// A Binding Success whose first attribute is any other kind (of value
/// length `alen`), followed at the next four-byte boundary by an IPv4
/// XOR-MAPPED-ADDRESS, reads as that address.
pub proof fn lemma_address_after_other_attr(buf: Seq<u8>, n: int, txn: Seq<u8>)
    requires
        20 <= n <= buf.len(),
        be16_at(buf, 0) == BINDING_SUCCESS,
        buf.subrange(4, 8) == cookie_bytes(),
        buf.subrange(8, 20) == txn,
        20 + be16_at(buf, 2) <= n,
        be16_at(buf, 20) != XOR_MAPPED_ADDRESS,
        be16_at(buf, 20) != MAPPED_ADDRESS,
        24 + padded_len(be16_at(buf, 22)) + 12 <= 20 + be16_at(buf, 2),
        be16_at(buf, 24 + padded_len(be16_at(buf, 22))) == XOR_MAPPED_ADDRESS,
        be16_at(buf, 26 + padded_len(be16_at(buf, 22))) == 8,
        buf[29 + padded_len(be16_at(buf, 22))] == 1,
    ensures
        spec_parse_response(buf, n, txn) == Ok::<([u8; 4], u16), StunError>(
            xor_endpoint(buf, 28 + padded_len(be16_at(buf, 22))),
        ),
{
    let m = be16_at(buf, 2);
    let body = buf.subrange(20, 20 + m);
    let alen = be16_at(buf, 22);
    let a = 4 + padded_len(alen);
    lemma_byte_range(buf[22]);
    lemma_byte_range(buf[23]);
    assert(be16_at(body, 0) == be16_at(buf, 20));
    assert(be16_at(body, 2) == alen);
    assert(padded_len(alen) >= alen);
    lemma_walk_skips_padded(body, 0);
    assert(be16_at(body, a) == XOR_MAPPED_ADDRESS);
    assert(be16_at(body, a + 2) == 8);
    assert(body[a + 5] == 1);
    assert(xor_endpoint(body, a + 4) == xor_endpoint(buf, 24 + a));
}

pub proof fn lemma_byte_range(x: u8)
    ensures
        0 <= x < 256,
{
}

/// What `parse_response` answers for the first `n` bytes of `buf`.
pub open spec fn spec_parse_response(buf: Seq<u8>, n: int, txn: Seq<u8>) -> Result<([u8; 4], u16), StunError> {
    if n < 20 {
        Err(StunError::TooShort(n as usize))
    } else if be16_at(buf, 0) != BINDING_SUCCESS {
        Err(StunError::NotSuccess(be16_at(buf, 0) as u16))
    } else if buf.subrange(4, 8) != cookie_bytes() {
        Err(StunError::BadCookie)
    } else if buf.subrange(8, 20) != txn {
        Err(StunError::TxnMismatch)
    } else if be16_at(buf, 2) + 20 > n {
        Err(StunError::Overrun)
    } else {
        match walk_attrs(buf.subrange(20, 20 + be16_at(buf, 2)), 0) {
            Some(e) => Ok(e),
            None => Err(StunError::NoAddress),
        }
    }
}

fn be16(b: &[u8], i: usize) -> (v: u16)
    requires
        i + 1 < b@.len(),
    ensures
        v == be16_at(b@, i as int),
{
    (b[i] as u16) * 256 + b[i + 1] as u16
}

/// Read our public endpoint (address, port) out of the `n` bytes a STUN
/// server answered into `buf`.
pub fn parse_response(buf: &[u8], n: usize, txn_id: &[u8; 12]) -> (r: Result<([u8; 4], u16), StunError>)
    requires
        n <= buf@.len(),
    ensures
        r == spec_parse_response(buf@, n as int, txn_id@),
{
    if n < 20 {
        return Err(StunError::TooShort(n));
    }
    let msg_type = be16(buf, 0);
    if msg_type != BINDING_SUCCESS {
        return Err(StunError::NotSuccess(msg_type));
    }
    if !(buf[4] == 0x21 && buf[5] == 0x12 && buf[6] == 0xA4 && buf[7] == 0x42) {
        proof {
            if buf@.subrange(4, 8) == cookie_bytes() {
                assert(buf@.subrange(4, 8)[0] == buf@[4]);
                assert(buf@.subrange(4, 8)[1] == buf@[5]);
                assert(buf@.subrange(4, 8)[2] == buf@[6]);
                assert(buf@.subrange(4, 8)[3] == buf@[7]);
            }
        }
        return Err(StunError::BadCookie);
    }
    assert(buf@.subrange(4, 8) =~= cookie_bytes());
    let mut k: usize = 0;
    while k < 12
        invariant
            k <= 12,
            20 <= n <= buf@.len(),
            be16_at(buf@, 0) == BINDING_SUCCESS,
            buf@.subrange(4, 8) == cookie_bytes(),
            forall|j: int| 0 <= j < k ==> buf@[8 + j] == txn_id@[j],
        decreases 12 - k,
    {
        if buf[8 + k] != txn_id[k] {
            assert(buf@.subrange(8, 20)[k as int] != txn_id@[k as int]);
            return Err(StunError::TxnMismatch);
        }
        k = k + 1;
    }
    assert(buf@.subrange(8, 20) =~= txn_id@);
    let msg_len = be16(buf, 2) as usize;
    if msg_len + 20 > n {
        return Err(StunError::Overrun);
    }
    let ghost body = buf@.subrange(20, 20 + msg_len as int);
    let mut i: usize = 0;
    while i + 4 <= msg_len
        invariant
            20 + msg_len <= n <= buf@.len(),
            msg_len <= 65535,
            msg_len == be16_at(buf@, 2),
            be16_at(buf@, 0) == BINDING_SUCCESS,
            buf@.subrange(4, 8) == cookie_bytes(),
            buf@.subrange(8, 20) == txn_id@,
            body == buf@.subrange(20, 20 + msg_len as int),
            i <= msg_len + 3,
            walk_attrs(body, 0) == walk_attrs(body, i as int),
        decreases msg_len + 4 - i,
    {
        let atype = be16(buf, 20 + i);
        let alen = be16(buf, 20 + i + 2) as usize;
        assert(atype == be16_at(body, i as int));
        assert(alen == be16_at(body, i + 2));
        let start = i + 4;
        let end = start + alen;
        if end > msg_len {
            return Err(StunError::NoAddress);
        }
        if atype == XOR_MAPPED_ADDRESS && alen >= 8 && buf[20 + start + 1] == 1 {
            let p = be16(buf, 20 + start + 2);
            let port = p ^ 0x2112u16;
            let ip = [
                buf[20 + start + 4] ^ 0x21u8,
                buf[20 + start + 5] ^ 0x12u8,
                buf[20 + start + 6] ^ 0xA4u8,
                buf[20 + start + 7] ^ 0x42u8,
            ];
            assert(p == be16_at(body, start + 2));
            assert((ip, port) == xor_endpoint(body, start as int));
            return Ok((ip, port));
        }
        if atype == MAPPED_ADDRESS && alen >= 8 && buf[20 + start + 1] == 1 {
            let port = be16(buf, 20 + start + 2);
            let ip = [buf[20 + start + 4], buf[20 + start + 5], buf[20 + start + 6], buf[20 + start + 7]];
            assert(port == be16_at(body, start + 2));
            assert((ip, port) == plain_endpoint(body, start as int));
            return Ok((ip, port));
        }
        i = end + ((4 - (alen % 4)) % 4);
    }
    Err(StunError::NoAddress)
}

/// Carrier-grade NAT: 100.64.0.0/10 (RFC 6598). A host there cannot be
/// reached directly.
pub fn is_cgnat(ip: [u8; 4]) -> (b: bool)
    ensures
        b == (ip[0] == 100 && 64 <= ip[1] < 128),
{
    let o1 = ip[1];
    assert((o1 & 0xC0) == 0x40 <==> 64 <= o1 < 128) by (bit_vector);
    ip[0] == 100 && (o1 & 0xC0) == 0x40
}

/// The address a share code carries: the STUN-reported public address
/// when the probe gave one outside carrier-grade NAT, the LAN address
/// otherwise (probe failed, or friends could not reach the public one).
pub fn share_ip(public: Option<[u8; 4]>, lan: [u8; 4]) -> (ip: [u8; 4])
    ensures
        ip == (match public {
            Some(p) => if p[0] == 100 && 64 <= p[1] < 128 {
                lan
            } else {
                p
            },
            None => lan,
        }),
{
    match public {
        Some(p) => {
            if is_cgnat(p) {
                lan
            } else {
                p
            }
        },
        None => lan,
    }
}

} // verus!
