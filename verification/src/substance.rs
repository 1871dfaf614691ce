//! Ground substances: the compact id packed into each substance tile,
//! the palette curve a tile's state runs along, and the hex colors the
//! content files write palettes in.
use crate::fb::Pixel;
use crate::tag::{Tag, TagSet, TagTable};
use crate::text::{
    chars_of, is_ws_exec, slice_chars, string_from_chars, string_push_str, trim_end, trim_end_len,
    trim_start, trim_start_len,
};
use vstd::prelude::*;
use vstd::utf8::{encode_scalar, encode_utf8, is_ascii_chars};

verus! {

/// Numeric handle into the substance registry; 0 is reserved for "no
/// substance / floor".
#[derive(Clone, Copy, PartialEq, Eq, Structural, Hash, Debug)]
pub struct SubstanceId(pub u16);

impl SubstanceId {
    pub fn none() -> (id: SubstanceId)
        ensures
            id == SubstanceId(0),
    {
        SubstanceId(0)
    }

    pub fn is_none(self) -> (b: bool)
        ensures
            b == (self.0 == 0),
    {
        self.0 == 0
    }
}

/// How a tile's state byte (0..=255) maps onto the two palette entries.
#[derive(Clone, Copy, PartialEq, Eq, Structural, Debug)]
pub enum StateCurve {
    /// 0 = fresh, 255 = dried: from `fresh` to `dried`.
    FreshToDried,
    /// 0 = faint, 255 = intense: from `dried` (dark) up to `fresh`.
    FaintToIntense,
}

/// One channel `state/255` of the way from `x` to `y`, rounded to the
/// nearest integer, halves away from zero.
pub open spec fn mix_channel(x: u8, y: u8, state: u8) -> u8 {
    ((2 * (255 * x + (y - x) * state) + 255) / 510) as u8
}

pub open spec fn lerp_pixel(a: Pixel, b: Pixel, state: u8) -> Pixel {
    Pixel {
        r: mix_channel(a.r, b.r, state),
        g: mix_channel(a.g, b.g, state),
        b: mix_channel(a.b, b.b, state),
    }
}

pub open spec fn spec_resolve(curve: StateCurve, state: u8, fresh: Pixel, dried: Pixel) -> Pixel {
    match curve {
        StateCurve::FreshToDried => lerp_pixel(fresh, dried, state),
        StateCurve::FaintToIntense => lerp_pixel(dried, fresh, state),
    }
}

proof fn lemma_mix_bounds(x: u8, y: u8, state: u8)
    ensures
        0 <= 255 * x + (y - x) * state <= 255 * 255,
        (x <= y ==> 255 * x <= 255 * x + (y - x) * state <= 255 * y),
        (y <= x ==> 255 * y <= 255 * x + (y - x) * state <= 255 * x),
{
    assert(0 <= state <= 255);
    if x <= y {
        assert(0 <= (y - x) * state <= (y - x) * 255) by (nonlinear_arith)
            requires
                x <= y,
                0 <= state <= 255,
        ;
    } else {
        assert((x - y) * 255 >= (x - y) * state >= 0) by (nonlinear_arith)
            requires
                y < x,
                0 <= state <= 255,
        ;
        assert((y - x) * state == -((x - y) * state)) by (nonlinear_arith);
    }
}

fn mix(x: u8, y: u8, state: u8) -> (c: u8)
    ensures
        c == mix_channel(x, y, state),
        x <= y ==> x <= c <= y,
        y <= x ==> y <= c <= x,
{
    proof {
        lemma_mix_bounds(x, y, state);
    }
    let n: i32 = 255 * (x as i32) + (y as i32 - x as i32) * (state as i32);
    let c = ((2 * n + 255) / 510) as u8;
    c
}

impl StateCurve {
    /// The tile color for `state` between the two palette entries. The
    /// channel values are those of the float lerp `x + (y - x) * s/255`
    /// rounded half away from zero.
    pub fn resolve(self, state: u8, fresh: Pixel, dried: Pixel) -> (p: Pixel)
        ensures
            p == spec_resolve(self, state, fresh, dried),
    {
        let (a, b) = match self {
            StateCurve::FreshToDried => (fresh, dried),
            StateCurve::FaintToIntense => (dried, fresh),
        };
        Pixel::rgb(mix(a.r, b.r, state), mix(a.g, b.g, state), mix(a.b, b.b, state))
    }
}

// ----- hex colors ------------------------------------------------------

/// Why a hex color was refused.
#[derive(Clone, Copy, PartialEq, Eq, Structural, Debug)]
pub enum HexError {
    /// Neither six nor three bytes after trimming and the `#`s.
    BadLength,
    /// A field is not a hex number.
    BadDigit,
}

/// `s` without its leading `#`s (`trim_start_matches('#')`).
pub open spec fn strip_hashes(s: Seq<char>) -> Seq<char>
    decreases s.len(),
{
    if s.len() > 0 && s[0] == '#' {
        strip_hashes(s.drop_first())
    } else {
        s
    }
}

/// The text a color is read from: trimmed of whitespace, then of `#`s.
pub open spec fn hex_text(s: Seq<char>) -> Seq<char> {
    strip_hashes(trim_end(trim_start(s)))
}

pub open spec fn hex_digit(c: char) -> Option<u8> {
    if '0' <= c <= '9' {
        Some((c as int - '0' as int) as u8)
    } else if 'a' <= c <= 'f' {
        Some((c as int - 'a' as int + 10) as u8)
    } else if 'A' <= c <= 'F' {
        Some((c as int - 'A' as int + 10) as u8)
    } else {
        None
    }
}

/// A color field of one or two hex digits, read as a number (`None`
/// unless every character is a hex digit).
pub open spec fn radix16(f: Seq<char>) -> Option<u8> {
    if f.len() == 1 {
        hex_digit(f[0])
    } else if f.len() == 2 {
        match (hex_digit(f[0]), hex_digit(f[1])) {
            (Some(h), Some(l)) => Some((h * 16 + l) as u8),
            _ => None,
        }
    } else {
        None
    }
}

/// What `parse_hex` answers: six hex digits, or three (each doubled),
/// after trimming and the `#`s; anything else is an error.
pub open spec fn spec_parse_hex(s: Seq<char>) -> Result<Pixel, HexError> {
    let u = hex_text(s);
    let l = encode_utf8(u).len();
    if l == 6 {
        if !is_ascii_chars(u) {
            Err(HexError::BadDigit)
        } else {
            match (
                radix16(u.subrange(0, 2)),
                radix16(u.subrange(2, 4)),
                radix16(u.subrange(4, 6)),
            ) {
                (Some(r), Some(g), Some(b)) => Ok(Pixel { r, g, b }),
                _ => Err(HexError::BadDigit),
            }
        }
    } else if l == 3 {
        if !is_ascii_chars(u) {
            Err(HexError::BadDigit)
        } else {
            match (
            radix16(u.subrange(0, 1)),
            radix16(u.subrange(1, 2)),
            radix16(u.subrange(2, 3)),
        ) {
            (Some(r), Some(g), Some(b)) => Ok(
                Pixel { r: (r * 17) as u8, g: (g * 17) as u8, b: (b * 17) as u8 },
            ),
            _ => Err(HexError::BadDigit),
            }
        }
    } else {
        Err(HexError::BadLength)
    }
}

pub open spec fn utf8_width(c: char) -> nat {
    if c as int <= 0x7f {
        1
    } else if c as int <= 0x7ff {
        2
    } else if c as int <= 0xffff {
        3
    } else {
        4
    }
}

proof fn lemma_encode_scalar_len(c: char)
    ensures
        encode_scalar(c as u32).len() == utf8_width(c),
{
    broadcast use vstd::utf8::char_is_scalar;

}

proof fn lemma_encode_utf8_concat(a: Seq<char>, b: Seq<char>)
    ensures
        encode_utf8(a + b) == encode_utf8(a) + encode_utf8(b),
    decreases a.len(),
{
    if a.len() > 0 {
        assert((a + b).drop_first() =~= a.drop_first() + b);
        lemma_encode_utf8_concat(a.drop_first(), b);
        assert((a + b)[0] == a[0]);
        assert(encode_utf8(a + b) =~= encode_utf8(a) + encode_utf8(b));
    } else {
        assert(a + b =~= b);
    }
}

proof fn lemma_encode_take_step(u: Seq<char>, i: int)
    requires
        0 <= i < u.len(),
    ensures
        encode_utf8(u.take(i + 1)).len() == encode_utf8(u.take(i)).len() + utf8_width(u[i]),
{
    assert(u.take(i + 1) =~= u.take(i) + seq![u[i]]);
    lemma_encode_utf8_concat(u.take(i), seq![u[i]]);
    assert(seq![u[i]].drop_first() =~= Seq::<char>::empty());
    assert(encode_utf8(Seq::<char>::empty()) =~= Seq::<u8>::empty());
    assert(encode_utf8(seq![u[i]]) == encode_scalar(u[i] as u32) + encode_utf8(seq![u[i]].drop_first()));
    assert(encode_utf8(seq![u[i]]) =~= encode_scalar(u[i] as u32));
    lemma_encode_scalar_len(u[i]);
}

proof fn lemma_char_floor(c: char)
    ensures
        '\0' <= c,
{
}

/// Each character adds one to four bytes to a prefix's encoding.
proof fn lemma_prefix_len_grows(u: Seq<char>, i: int, j: int)
    requires
        0 <= i <= j <= u.len(),
    ensures
        encode_utf8(u.take(j)).len() >= encode_utf8(u.take(i)).len() + (j - i),
        encode_utf8(u.take(j)).len() <= encode_utf8(u.take(i)).len() + 4 * (j - i),
    decreases j - i,
{
    if i < j {
        lemma_prefix_len_grows(u, i, j - 1);
        lemma_encode_take_step(u, j - 1);
    }
}

/// Number of leading `#`s.
fn count_hashes(v: &Vec<char>) -> (n: usize)
    ensures
        n <= v@.len(),
        strip_hashes(v@) == v@.skip(n as int),
{
    let mut n: usize = 0;
    assert(v@.skip(0) =~= v@);
    while n < v.len() && v[n] == '#'
        invariant
            n <= v@.len(),
            strip_hashes(v@) == strip_hashes(v@.skip(n as int)),
        decreases v.len() - n,
    {
        assert(v@.skip(n as int).drop_first() =~= v@.skip(n + 1));
        n = n + 1;
    }
    n
}

fn hex_digit_exec(c: char) -> (d: Option<u8>)
    ensures
        d == hex_digit(c),
{
    if '0' <= c && c <= '9' {
        Some((c as u32 - '0' as u32) as u8)
    } else if 'a' <= c && c <= 'f' {
        Some((c as u32 - 'a' as u32 + 10) as u8)
    } else if 'A' <= c && c <= 'F' {
        Some((c as u32 - 'A' as u32 + 10) as u8)
    } else {
        None
    }
}

/// `radix16` of `u[from..to]`.
fn radix16_exec(u: &Vec<char>, from: usize, to: usize) -> (r: Option<u8>)
    requires
        from <= to <= u@.len(),
        to - from == 1 || to - from == 2,
    ensures
        r == radix16(u@.subrange(from as int, to as int)),
{
    let ghost f = u@.subrange(from as int, to as int);
    if to - from == 1 {
        assert(f[0] == u@[from as int]);
        hex_digit_exec(u[from])
    } else {
        assert(f[0] == u@[from as int] && f[1] == u@[from + 1]);
        match (hex_digit_exec(u[from]), hex_digit_exec(u[from + 1])) {
            (Some(h), Some(l)) => Some(h * 16 + l),
            _ => None,
        }
    }
}

/// Parse `#rrggbb`, `#rgb`, or `rrggbb` (surrounding whitespace and any
/// number of leading `#`s are ignored). Every field must be hex digits;
/// the lengths are byte lengths, so text with a non-ASCII character is
/// refused.
pub fn parse_hex(s: &str) -> (r: Result<Pixel, HexError>)
    ensures
        r == spec_parse_hex(s@),
{
    let cs = chars_of(s);
    let a = trim_start_len(&cs);
    let t0 = slice_chars(&cs, a, cs.len());
    assert(t0@ == cs@.skip(a as int));
    let b = trim_end_len(&t0);
    let t = slice_chars(&t0, 0, b);
    assert(t@ == t0@.take(b as int));
    let h = count_hashes(&t);
    let u = slice_chars(&t, h, t.len());
    assert(u@ == t@.skip(h as int));
    assert(u@ == hex_text(s@));
    // Bytes of the encoding, counted until they pass six, and whether
    // the characters counted are ASCII.
    let mut total: usize = 0;
    let mut ascii = true;
    let mut i: usize = 0;
    proof {
        assert(u@.take(0) =~= Seq::<char>::empty());
    }
    while i < u.len() && total <= 6
        invariant
            i <= u@.len(),
            total == encode_utf8(u@.take(i as int)).len(),
            total <= 10,
            ascii == is_ascii_chars(u@.take(i as int)),
        decreases u@.len() - i,
    {
        let c = u[i];
        let w: usize = if c <= '\u{7f}' {
            1
        } else if c <= '\u{7ff}' {
            2
        } else if c <= '\u{ffff}' {
            3
        } else {
            4
        };
        proof {
            lemma_encode_take_step(u@, i as int);
            let t = u@.take(i + 1);
            let p = u@.take(i as int);
            assert(t =~= p.push(c));
            if is_ascii_chars(p) && c <= '\u{7f}' {
                assert forall|k: int| 0 <= k < t.len() implies '\0' <= #[trigger] t[k] <= '\u{7f}' by {
                    if k < i {
                        assert(t[k] == p[k]);
                    } else {
                        assert(t[k] == c);
                    }
                    lemma_char_floor(t[k]);
                }
            }
            if is_ascii_chars(t) {
                assert(t[i as int] == c);
                assert forall|k: int| 0 <= k < p.len() implies '\0' <= #[trigger] p[k] <= '\u{7f}' by {
                    assert(t[k] == p[k]);
                }
            }
        }
        total = total + w;
        ascii = ascii && c <= '\u{7f}';
        i = i + 1;
    }
    proof {
        lemma_prefix_len_grows(u@, i as int, u@.len() as int);
        assert(u@.take(u@.len() as int) =~= u@);
    }
    if i < u.len() {
        return Err(HexError::BadLength);
    }
    let l = total;
    if l == 6 {
        if !ascii {
            return Err(HexError::BadDigit);
        }
        proof {
            vstd::utf8::is_ascii_chars_encode_utf8(u@);
        }
        let r = radix16_exec(&u, 0, 2);
        let g = radix16_exec(&u, 2, 4);
        let bb = radix16_exec(&u, 4, 6);
        match (r, g, bb) {
            (Some(r), Some(g), Some(bb)) => Ok(Pixel::rgb(r, g, bb)),
            _ => Err(HexError::BadDigit),
        }
    } else if l == 3 {
        if !ascii {
            return Err(HexError::BadDigit);
        }
        proof {
            vstd::utf8::is_ascii_chars_encode_utf8(u@);
        }
        let r = radix16_exec(&u, 0, 1);
        let g = radix16_exec(&u, 1, 2);
        let bb = radix16_exec(&u, 2, 3);
        match (r, g, bb) {
            (Some(r), Some(g), Some(bb)) => Ok(Pixel::rgb(r * 17, g * 17, bb * 17)),
            _ => Err(HexError::BadDigit),
        }
    } else {
        Err(HexError::BadLength)
    }
}


// ----- registry ---------------------------------------------------------

/// A substance as its content file writes it, less the float-valued
/// render tuning (bloom falloff and strength), which travels in the
/// definition's `extra`.
pub struct SubstanceFields {
    pub id: String,
    pub tags: Vec<String>,
    pub fresh: String,
    pub dried: String,
    pub state_curve: Option<String>,
    pub bloom_color: Option<String>,
    pub bloom_radius: Option<u8>,
    pub jitter: Option<u8>,
}

/// A loaded substance. `extra` holds what the game attaches beyond the
/// plain fields (mip ladder, bloom falloff and strength, behavior).
pub struct SubstanceDef<E> {
    pub id: SubstanceId,
    pub name: String,
    pub tags: TagSet,
    pub fresh: Pixel,
    pub dried: Pixel,
    pub state_curve: StateCurve,
    /// Bloom color and radius, when the file gives both.
    pub bloom: Option<(Pixel, u8)>,
    pub jitter: u8,
    pub extra: E,
}

/// Which palette entry failed to parse.
#[derive(Clone, Copy, PartialEq, Eq, Structural, Debug)]
pub enum ColorField {
    Fresh,
    Dried,
    Bloom,
}

/// Why a substance was not added.
#[derive(Clone, Copy, PartialEq, Eq, Structural, Debug)]
pub enum SubstanceError {
    /// Every id below 65535 is taken.
    Full,
    /// A color of the file is not a hex color.
    Color { field: ColorField, cause: HexError },
}

/// Every loaded substance, indexed by its id; slot 0 is the reserved
/// "no substance" entry.
pub struct SubstanceRegistry<E> {
    defs: Vec<SubstanceDef<E>>,
}

/// The curve a file's `state_curve` names (fresh-to-dried unless it
/// says `faint_to_intense`).
pub open spec fn curve_named(c: Option<Seq<char>>) -> StateCurve {
    match c {
        Some(n) => if n == "faint_to_intense"@ {
            StateCurve::FaintToIntense
        } else {
            StateCurve::FreshToDried
        },
        None => StateCurve::FreshToDried,
    }
}

/// The id of the last substance named `name` (slot 0 excluded).
pub open spec fn find_name<E>(defs: Seq<SubstanceDef<E>>, name: Seq<char>) -> Option<int>
    decreases defs.len(),
{
    if defs.len() <= 1 {
        None
    } else if defs.last().name@ == name {
        Some(defs.len() - 1)
    } else {
        find_name(defs.drop_last(), name)
    }
}

/// The error adding `f` gives, if any, once there is room.
pub open spec fn fields_error(f: SubstanceFields) -> Option<SubstanceError> {
    match spec_parse_hex(f.fresh@) {
        Err(e) => Some(SubstanceError::Color { field: ColorField::Fresh, cause: e }),
        Ok(_) => match spec_parse_hex(f.dried@) {
            Err(e) => Some(SubstanceError::Color { field: ColorField::Dried, cause: e }),
            Ok(_) => match (f.bloom_color, f.bloom_radius) {
                (Some(c), Some(_)) => match spec_parse_hex(c@) {
                    Err(e) => Some(SubstanceError::Color { field: ColorField::Bloom, cause: e }),
                    Ok(_) => None,
                },
                _ => None,
            },
        },
    }
}

/// `d` is the definition loaded from `f` under id `id`, its tags
/// interned in `table`.
pub open spec fn loaded_from<E>(d: SubstanceDef<E>, id: int, f: SubstanceFields, table: TagTable, extra: E) -> bool {
    &&& d.id == SubstanceId(id as u16)
    &&& d.name@ == f.id@
    &&& d.tags.tags@.len() == f.tags@.len()
    &&& forall|k: int|
        0 <= k < f.tags@.len() ==> table.holds(#[trigger] d.tags.tags@[k]) && table.name(d.tags.tags@[k])
            == f.tags@[k]@
    &&& spec_parse_hex(f.fresh@) == Ok::<Pixel, HexError>(d.fresh)
    &&& spec_parse_hex(f.dried@) == Ok::<Pixel, HexError>(d.dried)
    &&& d.state_curve == curve_named(
        match f.state_curve {
            Some(c) => Some(c@),
            None => None,
        },
    )
    &&& d.bloom == (match (f.bloom_color, f.bloom_radius) {
        (Some(c), Some(r)) => match spec_parse_hex(c@) {
            Ok(p) => Some((p, r)),
            Err(_) => None,
        },
        _ => None,
    })
    &&& d.jitter == (match f.jitter {
        Some(j) => j,
        None => 0u8,
    })
    &&& d.extra == extra
}


impl<E> SubstanceRegistry<E> {
    /// Slot `i` holds id `i`; ids fit below 65535.
    pub closed spec fn wf(&self) -> bool {
        &&& 1 <= self.defs@.len() <= 65535
        &&& forall|i: int| 0 <= i < self.defs@.len() ==> (#[trigger] self.defs@[i]).id == SubstanceId(i as u16)
    }

    /// The definitions, by id.
    pub closed spec fn entries(&self) -> Seq<SubstanceDef<E>> {
        self.defs@
    }

    /// A registry holding only the reserved slot 0, whose extra is
    /// `sentinel`.
    pub fn new(sentinel: E) -> (r: Self)
        ensures
            r.wf(),
            r.entries().len() == 1,
            r.entries()[0].id == SubstanceId(0),
            r.entries()[0].name@ == Seq::<char>::empty(),
            r.entries()[0].tags.tags@ == Seq::<Tag>::empty(),
            r.entries()[0].fresh == Pixel::spec_black(),
            r.entries()[0].dried == Pixel::spec_black(),
            r.entries()[0].state_curve == StateCurve::FreshToDried,
            r.entries()[0].bloom is None,
            r.entries()[0].jitter == 0,
            r.entries()[0].extra == sentinel,
    {
        let mut defs: Vec<SubstanceDef<E>> = Vec::new();
        defs.push(
            SubstanceDef {
                id: SubstanceId(0),
                name: String::new(),
                tags: TagSet::default(),
                fresh: Pixel::black(),
                dried: Pixel::black(),
                state_curve: StateCurve::FreshToDried,
                bloom: None,
                jitter: 0,
                extra: sentinel,
            },
        );
        SubstanceRegistry { defs }
    }

    /// The definition with id `id`, if there is one.
    pub fn get(&self, id: SubstanceId) -> (r: Option<&SubstanceDef<E>>)
        ensures
            (id.0 as int) < self.entries().len() ==> r == Some(&self.entries()[id.0 as int]),
            (id.0 as int) >= self.entries().len() ==> r is None,
    {
        let i = id.0 as usize;
        if i < self.defs.len() {
            Some(&self.defs[i])
        } else {
            None
        }
    }

    /// The id of the substance named `name` (the latest one, should a
    /// name be loaded twice).
    pub fn by_name(&self, name: &str) -> (r: Option<SubstanceId>)
        requires
            self.wf(),
        ensures
            r == (match find_name(self.entries(), name@) {
                Some(i) => Some(SubstanceId(i as u16)),
                None => None,
            }),
    {
        let mut k: usize = self.defs.len();
        assert(self.defs@.take(k as int) =~= self.defs@);
        while k > 1
            invariant
                1 <= k <= self.defs@.len(),
                self.wf(),
                find_name(self.defs@, name@) == find_name(self.defs@.take(k as int), name@),
            decreases k,
        {
            let ghost t = self.defs@.take(k as int);
            assert(t.last() == self.defs@[k - 1]);
            assert(t.drop_last() =~= self.defs@.take(k - 1));
            if crate::text::str_eq(self.defs[k - 1].name.as_str(), name) {
                assert(self.defs@[k - 1].id == SubstanceId((k - 1) as u16));
                return Some(SubstanceId((k - 1) as u16));
            }
            k = k - 1;
        }
        None
    }

    /// Replace the extra of substance `id`; an unknown id is ignored.
    pub fn set_extra(&mut self, id: SubstanceId, extra: E)
        requires
            old(self).wf(),
        ensures
            final(self).wf(),
            final(self).entries().len() == old(self).entries().len(),
            forall|i: int|
                0 <= i < old(self).entries().len() && i != id.0 ==> #[trigger] final(self).entries()[i]
                    == old(self).entries()[i],
            (id.0 as int) < old(self).entries().len() ==> {
                let (o, n) = (old(self).entries()[id.0 as int], final(self).entries()[id.0 as int]);
                &&& n.id == o.id
                &&& n.name == o.name
                &&& n.tags == o.tags
                &&& n.fresh == o.fresh
                &&& n.dried == o.dried
                &&& n.state_curve == o.state_curve
                &&& n.bloom == o.bloom
                &&& n.jitter == o.jitter
                &&& n.extra == extra
            },
    {
        let i = id.0 as usize;
        if i < self.defs.len() {
            self.defs[i].extra = extra;
        }
    }

    pub fn len(&self) -> (n: usize)
        ensures
            n == self.entries().len(),
    {
        self.defs.len()
    }

    /// No substance besides the reserved slot.
    pub fn is_empty(&self) -> (b: bool)
        ensures
            b == (self.entries().len() <= 1),
    {
        self.defs.len() <= 1
    }

    /// Load a substance under the next id: its tags interned in `table`,
    /// its palette and bloom colors parsed, its curve read. With 65535
    /// ids taken, or a color that does not parse (fresh, then dried,
    /// then bloom), nothing is added.
    pub fn insert(&mut self, table: &mut TagTable, f: &SubstanceFields, extra: E) -> (r: Result<SubstanceId, SubstanceError>)
        requires
            old(self).wf(),
            old(table).wf(),
        ensures
            final(self).wf(),
            final(table).wf(),
            forall|i: int| 0 <= i < old(table)@.len() ==> final(table)@[i] == old(table)@[i],
            old(self).entries().len() >= 65535 ==> r == Err::<SubstanceId, SubstanceError>(SubstanceError::Full)
                && final(self).entries() == old(self).entries(),
            old(self).entries().len() < 65535 && fields_error(*f) is Some ==> r == Err::<
                SubstanceId,
                SubstanceError,
            >(fields_error(*f).unwrap()) && final(self).entries() == old(self).entries(),
            old(self).entries().len() < 65535 && fields_error(*f) is None ==> {
                &&& r == Ok::<SubstanceId, SubstanceError>(SubstanceId(old(self).entries().len() as u16))
                &&& final(self).entries().len() == old(self).entries().len() + 1
                &&& final(self).entries().drop_last() == old(self).entries()
                &&& loaded_from(final(self).entries().last(), old(self).entries().len() as int, *f, *final(table), extra)
            },
    {
        let next_id = self.defs.len();
        if next_id >= 65535 {
            return Err(SubstanceError::Full);
        }
        let mut tags: Vec<Tag> = Vec::new();
        let mut k: usize = 0;
        while k < f.tags.len()
            invariant
                k <= f.tags@.len(),
                tags@.len() == k,
                table.wf(),
                forall|i: int| 0 <= i < old(table)@.len() ==> table@[i] == old(table)@[i],
                old(table)@.len() <= table@.len(),
                forall|j: int| 0 <= j < k ==> table.holds(#[trigger] tags@[j]) && table.name(tags@[j]) == f.tags@[j]@,
            decreases f.tags@.len() - k,
        {
            let t = Tag::new(table, f.tags[k].as_str());
            tags.push(t);
            k = k + 1;
        }
        let fresh = match parse_hex(f.fresh.as_str()) {
            Ok(p) => p,
            Err(e) => {
                return Err(SubstanceError::Color { field: ColorField::Fresh, cause: e });
            },
        };
        let dried = match parse_hex(f.dried.as_str()) {
            Ok(p) => p,
            Err(e) => {
                return Err(SubstanceError::Color { field: ColorField::Dried, cause: e });
            },
        };
        let bloom = match (&f.bloom_color, f.bloom_radius) {
            (Some(c), Some(r)) => match parse_hex(c.as_str()) {
                Ok(p) => Some((p, r)),
                Err(e) => {
                    return Err(SubstanceError::Color { field: ColorField::Bloom, cause: e });
                },
            },
            _ => None,
        };
        let state_curve = match &f.state_curve {
            Some(c) => {
                if crate::text::str_eq(c.as_str(), "faint_to_intense") {
                    StateCurve::FaintToIntense
                } else {
                    StateCurve::FreshToDried
                }
            },
            None => StateCurve::FreshToDried,
        };
        let mut name = String::new();
        string_push_str(&mut name, f.id.as_str());
        let jitter: u8 = match f.jitter {
            Some(j) => j,
            None => 0,
        };
        let id = SubstanceId(next_id as u16);
        let def = SubstanceDef {
            id,
            name,
            tags: TagSet::from_iter(tags),
            fresh,
            dried,
            state_curve,
            bloom,
            jitter,
            extra,
        };
        self.defs.push(def);
        assert(self.defs@.drop_last() =~= old(self).defs@);
        Ok(id)
    }
}

/// A substance added under a name is what that name finds afterwards,
/// and its id reads back its definition.
pub proof fn lemma_insert_then_lookup<E>(before: Seq<SubstanceDef<E>>, after: Seq<SubstanceDef<E>>)
    requires
        before.len() >= 1,
        after.len() == before.len() + 1,
        after.drop_last() == before,
    ensures
        find_name(after, after.last().name@) == Some(before.len() as int),
        after[before.len() as int] == after.last(),
{
}

} // verus!
