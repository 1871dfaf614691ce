//! The host's HTTP install service: what it answers and what it signs.
//!
//! Three endpoints on the host's HTTP port:
//!
//! - `GET /install.sh` — session-specific bash installer, baked with this
//!   session's share code, version, HTTP base and hex token.
//! - `GET /install.ps1` — the same for PowerShell.
//! - `GET /binary?platform=…` — the host's own executable, with
//!   `X-Binary-HMAC: <hex>` = HMAC-SHA256 of the bytes keyed by the
//!   session token. The scripts check it before running the download.
//!
//! Serving (sockets, threads, reading the executable) is the caller's
//! part; this module decides the route, builds the scripts and the
//! one-liners, and computes the signature.
use crate::share::{spec_encode, ShareCode};
use crate::text::{chars_of, dec, dec_chars, push_chars, string_from_chars, string_push_str};
use hmac::{Hmac, Mac};
use sha2::Sha256;
use vstd::prelude::*;

verus! {

/// Shell installer text before the share code.
pub const BASH_HEAD: &'static str = r#"#!/bin/sh
# terminal_hell auto-install + connect. Served by an active host session;
# the HMAC check below verifies the binary actually came from the host
# whose share code you're about to connect to.

set -eu
CODE=""#;

/// Shell installer text between the share code and the version.
pub const BASH_AFTER_CODE: &'static str = r#""
VERSION=""#;

/// Shell installer text between the version and the HTTP base.
pub const BASH_AFTER_VERSION: &'static str = r#""
HTTP_BASE=""#;

/// Shell installer text between the HTTP base and the token.
pub const BASH_AFTER_BASE: &'static str = r#""
TOKEN_HEX=""#;

/// Shell installer text after the token.
pub const BASH_TAIL: &'static str = r#""

# Already installed at the right version? Skip straight to connect.
if command -v terminal_hell >/dev/null 2>&1; then
    CUR=$(terminal_hell --version 2>/dev/null | awk '{print $NF}')
    if [ "$CUR" = "$VERSION" ]; then
        exec terminal_hell connect "$CODE"
    fi
fi

OS=$(uname -s)
ARCH=$(uname -m)
case "$OS" in
    Linux) PLATFORM="linux-$ARCH" ;;
    Darwin) PLATFORM="macos-$ARCH" ;;
    *) echo "Unsupported OS $OS. Install manually from the project README." >&2; exit 1 ;;
esac

if ! command -v curl >/dev/null 2>&1; then
    echo "curl is required." >&2
    exit 1
fi
if ! command -v openssl >/dev/null 2>&1; then
    echo "openssl is required for binary verification." >&2
    exit 1
fi

TMPFILE=$(mktemp)
HEADERS=$(mktemp)
trap 'rm -f "$TMPFILE" "$HEADERS"' EXIT

curl -sSfL -D "$HEADERS" -o "$TMPFILE" "$HTTP_BASE/binary?platform=$PLATFORM"
HMAC_HEADER=$(awk 'tolower($1) == "x-binary-hmac:" {print $2}' "$HEADERS" | tr -d '\r\n')

if [ -z "$HMAC_HEADER" ]; then
    echo "Install server didn't return an HMAC. Aborting." >&2
    exit 1
fi

COMPUTED=$(openssl dgst -sha256 -mac HMAC -macopt "hexkey:$TOKEN_HEX" -hex "$TMPFILE" | awk '{print $NF}')

if [ "$HMAC_HEADER" != "$COMPUTED" ]; then
    echo "Binary HMAC mismatch. Aborting. Your host's share code may not match this install server." >&2
    exit 1
fi

mkdir -p "$HOME/.local/bin"
install -m 0755 "$TMPFILE" "$HOME/.local/bin/terminal_hell"
case ":$PATH:" in
    *":$HOME/.local/bin:"*) ;;
    *) export PATH="$HOME/.local/bin:$PATH" ;;
esac

exec terminal_hell connect "$CODE"
"#;

/// PowerShell installer text before the share code.
pub const PWSH_HEAD: &'static str = r#"# terminal_hell auto-install + connect (PowerShell).
$ErrorActionPreference = 'Stop'
$code = ""#;

/// PowerShell installer text between the share code and the version.
pub const PWSH_AFTER_CODE: &'static str = r#""
$version = ""#;

/// PowerShell installer text between the version and the HTTP base.
pub const PWSH_AFTER_VERSION: &'static str = r#""
$httpBase = ""#;

/// PowerShell installer text between the HTTP base and the token.
pub const PWSH_AFTER_BASE: &'static str = r#""
$tokenHex = ""#;

/// PowerShell installer text after the token.
pub const PWSH_TAIL: &'static str = r#""

$existing = Get-Command terminal_hell -ErrorAction SilentlyContinue
if ($existing) {
    $cur = (& terminal_hell --version) -split ' ' | Select-Object -Last 1
    if ($cur.Trim() -eq $version) {
        & terminal_hell connect $code
        exit $LASTEXITCODE
    }
}

$arch = $env:PROCESSOR_ARCHITECTURE
switch ($arch) {
    "AMD64" { $platform = "windows-x86_64" }
    "ARM64" { $platform = "windows-aarch64" }
    default { throw "Unsupported arch: $arch. Install manually from the project README." }
}

$tmp = [IO.Path]::GetTempFileName()
try {
    $resp = Invoke-WebRequest -UseBasicParsing `
        -Uri "$httpBase/binary?platform=$platform" `
        -OutFile $tmp -PassThru

    $hmacHeader = $null
    foreach ($k in $resp.Headers.Keys) {
        if ($k.ToLower() -eq 'x-binary-hmac') {
            $hmacHeader = $resp.Headers[$k]
            break
        }
    }
    if (-not $hmacHeader) { throw "Install server didn't return an HMAC." }

    $keyBytes = New-Object byte[] ($tokenHex.Length / 2)
    for ($i = 0; $i -lt $tokenHex.Length; $i += 2) {
        $keyBytes[$i / 2] = [Convert]::ToByte($tokenHex.Substring($i, 2), 16)
    }
    $hmac = New-Object System.Security.Cryptography.HMACSHA256
    $hmac.Key = $keyBytes
    $fileBytes = [IO.File]::ReadAllBytes($tmp)
    $computed = ([BitConverter]::ToString($hmac.ComputeHash($fileBytes))).Replace("-","").ToLower()
    if ($computed -ne $hmacHeader.ToString().ToLower()) {
        throw "Binary HMAC mismatch. Aborting."
    }

    $installDir = Join-Path $env:USERPROFILE "bin"
    [void](New-Item -Force -ItemType Directory -Path $installDir)
    $dest = Join-Path $installDir "terminal_hell.exe"
    Move-Item -Force $tmp $dest
    $env:PATH = "$installDir;$env:PATH"
    & $dest connect $code
    exit $LASTEXITCODE
} finally {
    if (Test-Path $tmp) { Remove-Item -Force $tmp -ErrorAction SilentlyContinue }
}
"#;

pub open spec fn bash_script(code: Seq<char>, version: Seq<char>, http_base: Seq<char>, token_hex: Seq<char>) -> Seq<char> {
    BASH_HEAD@ + code + BASH_AFTER_CODE@ + version + BASH_AFTER_VERSION@ + http_base
        + BASH_AFTER_BASE@ + token_hex + BASH_TAIL@
}

pub open spec fn pwsh_script(code: Seq<char>, version: Seq<char>, http_base: Seq<char>, token_hex: Seq<char>) -> Seq<char> {
    PWSH_HEAD@ + code + PWSH_AFTER_CODE@ + version + PWSH_AFTER_VERSION@ + http_base
        + PWSH_AFTER_BASE@ + token_hex + PWSH_TAIL@
}

/// The bash installer for this session.
pub fn build_bash_script(code: &str, version: &str, http_base: &str, token_hex: &str) -> (s: String)
    ensures
        s@ == bash_script(code@, version@, http_base@, token_hex@),
{
    let mut s = String::new();
    string_push_str(&mut s, BASH_HEAD);
    string_push_str(&mut s, code);
    string_push_str(&mut s, BASH_AFTER_CODE);
    string_push_str(&mut s, version);
    string_push_str(&mut s, BASH_AFTER_VERSION);
    string_push_str(&mut s, http_base);
    string_push_str(&mut s, BASH_AFTER_BASE);
    string_push_str(&mut s, token_hex);
    string_push_str(&mut s, BASH_TAIL);
    s
}

/// The PowerShell installer for this session.
pub fn build_pwsh_script(code: &str, version: &str, http_base: &str, token_hex: &str) -> (s: String)
    ensures
        s@ == pwsh_script(code@, version@, http_base@, token_hex@),
{
    let mut s = String::new();
    string_push_str(&mut s, PWSH_HEAD);
    string_push_str(&mut s, code);
    string_push_str(&mut s, PWSH_AFTER_CODE);
    string_push_str(&mut s, version);
    string_push_str(&mut s, PWSH_AFTER_VERSION);
    string_push_str(&mut s, http_base);
    string_push_str(&mut s, PWSH_AFTER_BASE);
    string_push_str(&mut s, token_hex);
    string_push_str(&mut s, PWSH_TAIL);
    s
}

// ----- hex ---------------------------------------------------------------

pub open spec fn hex_nibble(n: int) -> char {
    if n < 10 {
        (('0' as int) + n) as char
    } else {
        (('a' as int) + n - 10) as char
    }
}

/// Lowercase hex of `bytes`, two digits per byte.
pub open spec fn hex_of(bytes: Seq<u8>) -> Seq<char>
    decreases bytes.len(),
{
    if bytes.len() == 0 {
        Seq::empty()
    } else {
        hex_of(bytes.drop_last()) + seq![hex_nibble(bytes.last() as int / 16), hex_nibble(bytes.last() as int % 16)]
    }
}

fn hex_nibble_exec(n: u8) -> (c: char)
    requires
        n < 16,
    ensures
        c == hex_nibble(n as int),
{
    match n {
        0 => '0',
        1 => '1',
        2 => '2',
        3 => '3',
        4 => '4',
        5 => '5',
        6 => '6',
        7 => '7',
        8 => '8',
        9 => '9',
        10 => 'a',
        11 => 'b',
        12 => 'c',
        13 => 'd',
        14 => 'e',
        _ => 'f',
    }
}

/// Lowercase hex, two digits per byte.
pub fn to_hex(bytes: &[u8]) -> (s: String)
    ensures
        s@ == hex_of(bytes@),
{
    let mut v: Vec<char> = Vec::new();
    let mut i: usize = 0;
    while i < bytes.len()
        invariant
            i <= bytes@.len(),
            v@ == hex_of(bytes@.take(i as int)),
        decreases bytes@.len() - i,
    {
        let b = bytes[i];
        v.push(hex_nibble_exec(b / 16));
        v.push(hex_nibble_exec(b % 16));
        assert(bytes@.take(i + 1).drop_last() =~= bytes@.take(i as int));
        assert(v@ =~= hex_of(bytes@.take(i + 1)));
        i = i + 1;
    }
    assert(bytes@.take(bytes@.len() as int) =~= bytes@);
    string_from_chars(&v)
}

// ----- binary signature ---------------------------------------------------

/// The HMAC-SHA256 tag of `data` under `key`.
pub uninterp spec fn hmac_sha256(key: Seq<u8>, data: Seq<u8>) -> Seq<u8>;

/// `Hmac::<Sha256>::new_from_slice(key)`, `update(data)`, `finalize()`:
/// the 32-byte tag. HMAC takes a key of any length, so the construction
/// cannot fail (the crate's `new_from_slice` for `Hmac` always returns
/// `Ok`).
#[verifier::external_body]
fn hmac_tag(key: &[u8], data: &[u8]) -> (t: Vec<u8>)
    ensures
        t@ == hmac_sha256(key@, data@),
        t@.len() == 32,
{
    let mut mac = <Hmac<Sha256> as Mac>::new_from_slice(key).expect("HMAC accepts any key length");
    mac.update(data);
    mac.finalize().into_bytes().to_vec()
}

/// The `X-Binary-HMAC` header value: hex of the HMAC-SHA256 of the
/// binary keyed by the session token.
pub fn binary_hmac_hex(token: &[u8; 16], binary: &[u8]) -> (s: String)
    ensures
        s@ == hex_of(hmac_sha256(token@, binary@)),
        s@.len() == 64,
{
    let tag = hmac_tag(token, binary);
    let s = to_hex(tag.as_slice());
    proof {
        lemma_hex_len(tag@);
    }
    s
}

proof fn lemma_hex_len(b: Seq<u8>)
    ensures
        hex_of(b).len() == 2 * b.len(),
    decreases b.len(),
{
    if b.len() > 0 {
        lemma_hex_len(b.drop_last());
    }
}

// ----- hosts and bases ------------------------------------------------------

/// `a.b.c.d`, as an IPv4 address displays.
pub open spec fn ip_text(ip: [u8; 4]) -> Seq<char> {
    dec(ip[0] as nat) + "."@ + dec(ip[1] as nat) + "."@ + dec(ip[2] as nat) + "."@ + dec(ip[3] as nat)
}

/// `ip:port` of the code's HTTP server.
pub open spec fn default_host(c: ShareCode) -> Seq<char> {
    ip_text(c.ip) + ":"@ + dec(c.http_port as nat)
}

fn push_ip(s: &mut String, ip: [u8; 4])
    ensures
        final(s)@ == old(s)@ + ip_text(ip),
{
    push_chars(s, &dec_chars(ip[0] as u128));
    string_push_str(s, ".");
    push_chars(s, &dec_chars(ip[1] as u128));
    string_push_str(s, ".");
    push_chars(s, &dec_chars(ip[2] as u128));
    string_push_str(s, ".");
    push_chars(s, &dec_chars(ip[3] as u128));
}

fn push_default_host(s: &mut String, c: &ShareCode)
    ensures
        final(s)@ == old(s)@ + default_host(*c),
{
    push_ip(s, c.ip);
    string_push_str(s, ":");
    push_chars(s, &dec_chars(c.http_port as u128));
}

/// The one-liners the host pastes to friends: `curl … | sh` and
/// `iwr … | iex`, against the advertised address.
pub fn one_liners(code: &ShareCode) -> (r: (String, String))
    ensures
        r.0@ == "curl -sSfL http://"@ + default_host(*code) + "/install.sh | sh"@,
        r.1@ == "iwr http://"@ + default_host(*code) + "/install.ps1 -UseBasicParsing | iex"@,
{
    let mut bash = String::new();
    string_push_str(&mut bash, "curl -sSfL http://");
    push_default_host(&mut bash, code);
    string_push_str(&mut bash, "/install.sh | sh");
    let mut pwsh = String::new();
    string_push_str(&mut pwsh, "iwr http://");
    push_default_host(&mut pwsh, code);
    string_push_str(&mut pwsh, "/install.ps1 -UseBasicParsing | iex");
    (bash, pwsh)
}

/// Index of the last `:` in `s`.
pub open spec fn last_colon(s: Seq<char>) -> Option<int>
    decreases s.len(),
{
    if s.len() == 0 {
        None
    } else if s.last() == ':' {
        Some(s.len() - 1)
    } else {
        last_colon(s.drop_last())
    }
}

/// The host without its port (`rsplit_once(':')`).
pub open spec fn host_head(s: Seq<char>) -> Seq<char> {
    match last_colon(s) {
        Some(k) => s.take(k),
        None => s,
    }
}

/// `s` cut at each `.`.
pub open spec fn split_dots(s: Seq<char>) -> Seq<Seq<char>>
    decreases s.len(),
{
    if s.len() == 0 {
        seq![Seq::empty()]
    } else {
        let p = split_dots(s.drop_last());
        if s.last() == '.' {
            p.push(Seq::empty())
        } else {
            p.update(p.len() - 1, p.last().push(s.last()))
        }
    }
}

pub open spec fn dec_value(f: Seq<char>) -> int
    decreases f.len(),
{
    if f.len() == 0 {
        0
    } else {
        dec_value(f.drop_last()) * 10 + (f.last() as int - '0' as int)
    }
}

pub open spec fn all_digits(f: Seq<char>) -> bool {
    forall|i: int| 0 <= i < f.len() ==> '0' <= #[trigger] f[i] <= '9'
}

/// One dotted-decimal octet: one to three digits, no leading zero, at
/// most 255.
pub open spec fn octet(f: Seq<char>) -> Option<u8> {
    if 1 <= f.len() <= 3 && all_digits(f) && !(f.len() > 1 && f[0] == '0') && dec_value(f) <= 255 {
        Some(dec_value(f) as u8)
    } else {
        None
    }
}

/// `s` as a dotted-decimal IPv4 address (what `Ipv4Addr`'s `FromStr`
/// accepts): exactly four octets.
pub open spec fn parse_ipv4(s: Seq<char>) -> Option<[u8; 4]> {
    let p = split_dots(s);
    if p.len() == 4 {
        match (octet(p[0]), octet(p[1]), octet(p[2]), octet(p[3])) {
            (Some(a), Some(b), Some(c), Some(d)) => Some([a, b, c, d]),
            _ => None,
        }
    } else {
        None
    }
}

proof fn lemma_split_dots_nonempty(s: Seq<char>)
    ensures
        split_dots(s).len() >= 1,
    decreases s.len(),
{
    if s.len() > 0 {
        lemma_split_dots_nonempty(s.drop_last());
    }
}

/// Parse one octet from `f`.
fn octet_exec(f: &Vec<char>) -> (r: Option<u8>)
    ensures
        r == octet(f@),
{
    if f.len() < 1 || f.len() > 3 {
        return None;
    }
    if f.len() > 1 && f[0] == '0' {
        return None;
    }
    let mut v: u32 = 0;
    let mut i: usize = 0;
    while i < f.len()
        invariant
            1 <= f@.len() <= 3,
            i <= f@.len(),
            all_digits(f@.take(i as int)),
            v == dec_value(f@.take(i as int)),
            i == 0 ==> v == 0,
            i == 1 ==> v <= 9,
            i == 2 ==> v <= 99,
            v <= 999,
        decreases f@.len() - i,
    {
        let c = f[i];
        if !('0' <= c && c <= '9') {
            assert(!all_digits(f@)) by {
                assert(f@[i as int] == c);
            }
            return None;
        }
        assert(f@.take(i + 1).drop_last() =~= f@.take(i as int));
        assert(f@.take(i + 1).last() == c);
        v = v * 10 + (c as u32 - '0' as u32);
        assert(all_digits(f@.take(i + 1))) by {
            assert forall|k: int| 0 <= k < i + 1 implies '0' <= #[trigger] f@.take(i + 1)[k] <= '9' by {
                if k < i {
                    assert(f@.take(i + 1)[k] == f@.take(i as int)[k]);
                }
            }
        }
        i = i + 1;
    }
    assert(f@.take(f@.len() as int) =~= f@);
    if v > 255 {
        None
    } else {
        Some(v as u8)
    }
}

/// The dotted-decimal IPv4 address `s` spells, if it spells one.
pub fn parse_ipv4_exec(s: &Vec<char>) -> (r: Option<[u8; 4]>)
    ensures
        r == parse_ipv4(s@),
{
    let mut parts: Vec<Vec<char>> = Vec::new();
    parts.push(Vec::new());
    let mut i: usize = 0;
    assert(s@.take(0) =~= Seq::<char>::empty());
    while i < s.len()
        invariant
            i <= s@.len(),
            parts@.len() >= 1,
            parts@.len() == split_dots(s@.take(i as int)).len(),
            forall|k: int| 0 <= k < parts@.len() ==> #[trigger] parts@[k]@ == split_dots(s@.take(i as int))[k],
        decreases s@.len() - i,
    {
        let c = s[i];
        assert(s@.take(i + 1).drop_last() =~= s@.take(i as int));
        assert(s@.take(i + 1).last() == c);
        if c == '.' {
            parts.push(Vec::new());
        } else {
            let last = parts.len() - 1;
            let mut cur = parts.remove(last);
            cur.push(c);
            parts.push(cur);
        }
        i = i + 1;
    }
    assert(s@.take(s@.len() as int) =~= s@);
    if parts.len() != 4 {
        return None;
    }
    let a = octet_exec(&parts[0]);
    let b = octet_exec(&parts[1]);
    let c = octet_exec(&parts[2]);
    let d = octet_exec(&parts[3]);
    match (a, b, c, d) {
        (Some(a), Some(b), Some(c), Some(d)) => Some([a, b, c, d]),
        _ => None,
    }
}

/// The host without its `:port`.
fn host_head_exec(s: &Vec<char>) -> (h: Vec<char>)
    ensures
        h@ == host_head(s@),
{
    let mut k: usize = s.len();
    assert(s@.take(k as int) =~= s@);
    while k > 0 && s[k - 1] != ':'
        invariant
            k <= s@.len(),
            last_colon(s@) == last_colon(s@.take(k as int)),
        decreases k,
    {
        assert(s@.take(k as int).drop_last() =~= s@.take(k - 1));
        k = k - 1;
    }
    if k == 0 {
        assert(s@.take(0) =~= Seq::<char>::empty());
        let mut h: Vec<char> = Vec::new();
        let mut i: usize = 0;
        while i < s.len()
            invariant
                i <= s@.len(),
                h@ == s@.take(i as int),
            decreases s@.len() - i,
        {
            h.push(s[i]);
            assert(s@.take(i + 1) =~= s@.take(i as int).push(s@[i as int]));
            i = i + 1;
        }
        assert(s@.take(s@.len() as int) =~= s@);
        h
    } else {
        assert(s@.take(k as int).last() == ':');
        let mut h: Vec<char> = Vec::new();
        let mut i: usize = 0;
        while i < k - 1
            invariant
                k >= 1,
                k <= s@.len(),
                i <= k - 1,
                h@ == s@.take(i as int),
            decreases k - 1 - i,
        {
            h.push(s[i]);
            assert(s@.take(i + 1) =~= s@.take(i as int).push(s@[i as int]));
            i = i + 1;
        }
        h
    }
}

/// The share code to bake into a script fetched through `host`: the
/// default code, with its address replaced by the host's when the host
/// (port dropped) is a dotted-decimal IPv4 address.
pub open spec fn effective_code(host: Seq<char>, default_code: ShareCode) -> ShareCode {
    match parse_ipv4(host_head(host)) {
        Some(ip) => ShareCode { ip, ..default_code },
        None => default_code,
    }
}

/// The URL base and the encoded share code for a script request whose
/// `Host` header is `host` (the code's own `ip:port` when absent).
pub fn effective_base_and_code(host: Option<&str>, default_code: &ShareCode) -> (r: (String, String))
    ensures
        ({
            let h = match host {
                Some(h) => h@,
                None => default_host(*default_code),
            };
            &&& r.0@ == "http://"@ + h
            &&& r.1@ == spec_encode(effective_code(h, *default_code))
        }),
{
    let mut host_s = String::new();
    match host {
        Some(h) => string_push_str(&mut host_s, h),
        None => push_default_host(&mut host_s, default_code),
    }
    let mut base = String::new();
    string_push_str(&mut base, "http://");
    string_push_str(&mut base, host_s.as_str());
    let hc = chars_of(host_s.as_str());
    let head = host_head_exec(&hc);
    let code = match parse_ipv4_exec(&head) {
        Some(ip) => {
            let mut c = *default_code;
            c.ip = ip;
            c.encode()
        },
        None => default_code.encode(),
    };
    (base, code)
}

// ----- routing ----------------------------------------------------------

/// What the server does with a request.
#[derive(Clone, Copy, Debug, PartialEq, Eq, Structural)]
pub enum InstallRoute {
    /// 405: only `GET` is served.
    MethodNotAllowed,
    /// The bash installer.
    InstallSh,
    /// The PowerShell installer.
    InstallPs1,
    /// The host's binary with its HMAC header.
    Binary,
    /// 404.
    NotFound,
}

/// The URL's path: everything before the first `?`.
pub open spec fn url_path(url: Seq<char>) -> Seq<char>
    decreases url.len(),
{
    if url.len() == 0 {
        url
    } else if url[0] == '?' {
        Seq::empty()
    } else {
        seq![url[0]] + url_path(url.drop_first())
    }
}

pub open spec fn spec_route(is_get: bool, url: Seq<char>) -> InstallRoute {
    if !is_get {
        InstallRoute::MethodNotAllowed
    } else if url_path(url) == "/install.sh"@ {
        InstallRoute::InstallSh
    } else if url_path(url) == "/install.ps1"@ {
        InstallRoute::InstallPs1
    } else if url_path(url) == "/binary"@ {
        InstallRoute::Binary
    } else {
        InstallRoute::NotFound
    }
}

/// Route a request by method and URL.
pub fn route(is_get: bool, url: &str) -> (r: InstallRoute)
    ensures
        r == spec_route(is_get, url@),
{
    if !is_get {
        return InstallRoute::MethodNotAllowed;
    }
    let cs = chars_of(url);
    let mut n: usize = 0;
    assert(cs@.skip(0) =~= cs@);
    assert(cs@.take(0) + url_path(cs@) =~= url_path(cs@));
    while n < cs.len() && cs[n] != '?'
        invariant
            n <= cs@.len(),
            forall|k: int| 0 <= k < n ==> cs@[k] != '?',
            url_path(cs@) == cs@.take(n as int) + url_path(cs@.skip(n as int)),
        decreases cs@.len() - n,
    {
        assert(cs@.skip(n as int)[0] == cs@[n as int]);
        assert(cs@.skip(n as int).drop_first() =~= cs@.skip(n + 1));
        assert(cs@.take(n + 1) =~= cs@.take(n as int) + seq![cs@[n as int]]);
        n = n + 1;
    }
    proof {
        if n < cs@.len() {
            assert(cs@.skip(n as int)[0] == '?');
        } else {
            assert(cs@.skip(n as int) =~= Seq::<char>::empty());
        }
        assert(url_path(cs@) =~= cs@.take(n as int));
    }
    let path = string_from_chars(&crate::text::slice_chars(&cs, 0, n));
    proof {
        assert(cs@.subrange(0, n as int) =~= cs@.take(n as int));
    }
    if crate::text::str_eq(path.as_str(), "/install.sh") {
        InstallRoute::InstallSh
    } else if crate::text::str_eq(path.as_str(), "/install.ps1") {
        InstallRoute::InstallPs1
    } else if crate::text::str_eq(path.as_str(), "/binary") {
        InstallRoute::Binary
    } else {
        InstallRoute::NotFound
    }
}

} // verus!
