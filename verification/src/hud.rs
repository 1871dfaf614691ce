//! Text overlays drawn over the framebuffer: the status line, banners,
//! perk and brand strips, the loadout strip and the game-over card, each
//! laid out as terminal draw commands.
use crate::brand::{brand_rgb, short_brand, spec_brand_rgb, spec_short_brand};
use crate::draw::{cmd_view, cmds_view, push_cmd, repeat, repeat_char, Cmd, DrawCmd};
use crate::fb::Pixel;
use crate::perk::Perk;
use crate::primitive::{Primitive, Rarity};
use crate::text::{chars_of, dec, dec_chars, pad_left, pad_right, push_chars, push_spaces, string_push, string_push_str};
use crate::waves::IntermissionPhase;
use crate::weapon::FireMode;
use vstd::prelude::*;

verus! {

pub const DEAD_TEXT: &'static str = "  ✝ YOU ARE DEAD — watching the survivors  ";

pub const PAUSED_HOST_TEXT: &'static str = "  ⏸ PAUSED — press ESC → Unpause  ";

pub const PAUSED_CLIENT_TEXT: &'static str = "  ⏸ HOST PAUSED  ";

pub const CONNECTING_TEXT: &'static str = "  CONNECTING...  ";

pub open spec fn strip_bg() -> Pixel {
    Pixel { r: 20, g: 10, b: 30 }
}

pub open spec fn strip_label_fg() -> Pixel {
    Pixel { r: 180, g: 180, b: 210 }
}

pub open spec fn sat_sub(a: int, b: int) -> int {
    if a >= b {
        a - b
    } else {
        0
    }
}

/// One colored line at `(x, y)`, then a color reset.
pub open spec fn banner(x: int, y: int, fg: Pixel, bg: Pixel, text: Seq<char>) -> Seq<Cmd> {
    seq![Cmd::MoveTo(x as u16, y as u16), Cmd::Fg(fg), Cmd::Bg(bg), Cmd::Print(text), Cmd::ResetColor]
}

fn push_banner(cmds: &mut Vec<DrawCmd>, x: u16, y: u16, fg: Pixel, bg: Pixel, text: String)
    ensures
        cmds_view(final(cmds)@) == cmds_view(old(cmds)@) + banner(x as int, y as int, fg, bg, text@),
{
    let ghost t = text@;
    push_cmd(cmds, DrawCmd::MoveTo(x, y));
    push_cmd(cmds, DrawCmd::Fg(fg));
    push_cmd(cmds, DrawCmd::Bg(bg));
    push_cmd(cmds, DrawCmd::Print(text));
    push_cmd(cmds, DrawCmd::ResetColor);
    assert(cmds_view(cmds@) =~= cmds_view(old(cmds)@) + banner(x as int, y as int, fg, bg, t));
}

fn owned(s: &str) -> (r: String)
    ensures
        r@ == s@,
{
    let mut r = String::new();
    string_push_str(&mut r, s);
    r
}

/// The death banner, centered a sixth of the way down.
pub fn draw_dead_banner(cols: u16, rows: u16) -> (cmds: Vec<DrawCmd>)
    ensures
        cmds_view(cmds@) == banner(
            sat_sub(cols as int, (DEAD_TEXT@.len() as u16) as int) / 2,
            rows as int / 6,
            Pixel { r: 255, g: 220, b: 200 },
            Pixel { r: 100, g: 10, b: 20 },
            DEAD_TEXT@,
        ),
{
    let len = chars_of(DEAD_TEXT).len() as u16;
    let x = (if cols >= len { cols - len } else { 0 }) / 2;
    let mut cmds: Vec<DrawCmd> = Vec::new();
    assert(cmds_view(cmds@) =~= Seq::<Cmd>::empty());
    push_banner(&mut cmds, x, rows / 6, Pixel::rgb(255, 220, 200), Pixel::rgb(100, 10, 20), owned(DEAD_TEXT));
    assert(cmds_view(cmds@) =~= banner(x as int, rows as int / 6, Pixel { r: 255, g: 220, b: 200 }, Pixel { r: 100, g: 10, b: 20 }, DEAD_TEXT@));
    cmds
}

/// The pause banner, centered a fifth of the way down; the host is told
/// how to unpause.
pub fn draw_paused_banner(cols: u16, rows: u16, is_authoritative: bool) -> (cmds: Vec<DrawCmd>)
    ensures
        ({
            let text = if is_authoritative {
                PAUSED_HOST_TEXT@
            } else {
                PAUSED_CLIENT_TEXT@
            };
            cmds_view(cmds@) == banner(
                sat_sub(cols as int, (text.len() as u16) as int) / 2,
                rows as int / 5,
                Pixel { r: 30, g: 10, b: 40 },
                Pixel { r: 255, g: 220, b: 120 },
                text,
            )
        }),
{
    let text = if is_authoritative {
        PAUSED_HOST_TEXT
    } else {
        PAUSED_CLIENT_TEXT
    };
    let len = chars_of(text).len() as u16;
    let x = (if cols >= len { cols - len } else { 0 }) / 2;
    let mut cmds: Vec<DrawCmd> = Vec::new();
    assert(cmds_view(cmds@) =~= Seq::<Cmd>::empty());
    push_banner(&mut cmds, x, rows / 5, Pixel::rgb(30, 10, 40), Pixel::rgb(255, 220, 120), owned(text));
    assert(cmds_view(cmds@) =~= banner(x as int, rows as int / 5, Pixel { r: 30, g: 10, b: 40 }, Pixel { r: 255, g: 220, b: 120 }, text@));
    cmds
}

/// The "connecting" line in the top-left corner.
pub fn draw_connecting() -> (cmds: Vec<DrawCmd>)
    ensures
        cmds_view(cmds@) == banner(0, 0, Pixel { r: 255, g: 240, b: 140 }, strip_bg(), CONNECTING_TEXT@),
{
    let mut cmds: Vec<DrawCmd> = Vec::new();
    assert(cmds_view(cmds@) =~= Seq::<Cmd>::empty());
    push_banner(&mut cmds, 0, 0, Pixel::rgb(255, 240, 140), Pixel::rgb(20, 10, 30), owned(CONNECTING_TEXT));
    assert(cmds_view(cmds@) =~= banner(0, 0, Pixel { r: 255, g: 240, b: 140 }, strip_bg(), CONNECTING_TEXT@));
    cmds
}

/// The wave banner: `  WAVE n  ` centered a third of the way down, its
/// green channel `bright` (the caller's fade, at least 150).
pub fn draw_wave_banner(cols: u16, rows: u16, wave: u32, bright: u8) -> (cmds: Vec<DrawCmd>)
    ensures
        ({
            let text = "  WAVE "@ + dec(wave as nat) + "  "@;
            cmds_view(cmds@) == banner(
                sat_sub(cols as int, (text.len() as u16) as int) / 2,
                rows as int / 3,
                Pixel { r: 255, g: if bright >= 150 { bright } else { 150 }, b: 100 },
                Pixel { r: 20, g: 0, b: 15 },
                text,
            )
        }),
{
    let mut text = String::new();
    string_push_str(&mut text, "  WAVE ");
    push_chars(&mut text, &dec_chars(wave as u128));
    string_push_str(&mut text, "  ");
    proof {
        reveal_strlit("  WAVE ");
        reveal_strlit("  ");
    }
    let len = chars_of(text.as_str()).len() as u16;
    let x = (if cols >= len { cols - len } else { 0 }) / 2;
    let g: u8 = if bright >= 150 {
        bright
    } else {
        150
    };
    let ghost tv = text@;
    let mut cmds: Vec<DrawCmd> = Vec::new();
    assert(cmds_view(cmds@) =~= Seq::<Cmd>::empty());
    push_banner(&mut cmds, x, rows / 3, Pixel::rgb(255, g, 100), Pixel::rgb(20, 0, 15), text);
    assert(cmds_view(cmds@) =~= banner(x as int, rows as int / 3, Pixel { r: 255, g, b: 100 }, Pixel { r: 20, g: 0, b: 15 }, tv));
    cmds
}

/// A signed decimal.
pub open spec fn dec_i(n: int) -> Seq<char> {
    if n < 0 {
        "-"@ + dec((-n) as nat)
    } else {
        dec(n as nat)
    }
}

fn push_dec_i(s: &mut String, n: i32)
    ensures
        final(s)@ == old(s)@ + dec_i(n as int),
{
    if n < 0 {
        string_push(s, '-');
        let m: u128 = (-(n as i64)) as u128;
        push_chars(s, &dec_chars(m));
        proof {
            reveal_strlit("-");
        }
        assert(final(s)@ =~= old(s)@ + dec_i(n as int));
    } else {
        push_chars(s, &dec_chars(n as u128));
    }
}

/// `s` padded on the left to `w` characters, pushed.
fn push_left(s: &mut String, t: &Vec<char>, w: usize)
    ensures
        final(s)@ == old(s)@ + pad_left(t@, w as nat),
{
    if t.len() < w {
        push_spaces(s, w - t.len());
    }
    push_chars(s, t);
    assert(final(s)@ =~= old(s)@ + pad_left(t@, w as nat));
}

/// A ten-cell bar with `fill` cells (at most ten) full.
pub open spec fn bar(fill: int) -> Seq<char> {
    let f = if fill > 10 {
        10
    } else {
        fill
    };
    repeat_char('▓', f) + repeat_char('▒', 10 - f)
}

/// The status line.
pub open spec fn hud_text(
    wave: u32,
    hp: i32,
    kills: u32,
    corruption_pct: i32,
    corruption_fill: usize,
    sanity_pct: i32,
    sanity_fill: usize,
    marked: bool,
) -> Seq<char> {
    " WAVE "@ + pad_left(dec(wave as nat), 3) + "   HP "@ + pad_left(
        dec_i(if hp > 0 { hp as int } else { 0 }),
        3,
    ) + "   KILLS "@ + pad_left(dec(kills as nat), 3) + "   CORRUPT "@ + pad_left(
        dec_i(corruption_pct as int),
        3,
    ) + "% ["@ + bar(corruption_fill as int) + "]   SANITY "@ + pad_left(dec_i(sanity_pct as int), 3)
        + "% ["@ + bar(sanity_fill as int) + "]"@ + (if marked {
        " [MARKED]"@
    } else {
        ""@
    }) + " "@
}

/// The status line in the top-left corner: wave, HP (never below zero),
/// kills, corruption and sanity (percent, rounded, with their ten-cell
/// bars, `fill` cells full), and the Hastur mark.
pub fn draw_hud(
    wave: u32,
    hp: i32,
    kills: u32,
    corruption_pct: i32,
    corruption_fill: usize,
    sanity_pct: i32,
    sanity_fill: usize,
    marked: bool,
) -> (cmds: Vec<DrawCmd>)
    ensures
        cmds_view(cmds@) == banner(
            0,
            0,
            if marked {
                Pixel { r: 255, g: 220, b: 100 }
            } else {
                Pixel { r: 255, g: 235, b: 160 }
            },
            strip_bg(),
            hud_text(wave, hp, kills, corruption_pct, corruption_fill, sanity_pct, sanity_fill, marked),
        ),
{
    let mut t = String::new();
    string_push_str(&mut t, " WAVE ");
    push_left(&mut t, &dec_chars(wave as u128), 3);
    string_push_str(&mut t, "   HP ");
    let hp0: i32 = if hp > 0 {
        hp
    } else {
        0
    };
    let mut hs = String::new();
    push_dec_i(&mut hs, hp0);
    push_left(&mut t, &chars_of(hs.as_str()), 3);
    string_push_str(&mut t, "   KILLS ");
    push_left(&mut t, &dec_chars(kills as u128), 3);
    string_push_str(&mut t, "   CORRUPT ");
    let mut cs = String::new();
    push_dec_i(&mut cs, corruption_pct);
    push_left(&mut t, &chars_of(cs.as_str()), 3);
    string_push_str(&mut t, "% [");
    push_bar(&mut t, corruption_fill);
    string_push_str(&mut t, "]   SANITY ");
    let mut ss = String::new();
    push_dec_i(&mut ss, sanity_pct);
    push_left(&mut t, &chars_of(ss.as_str()), 3);
    string_push_str(&mut t, "% [");
    push_bar(&mut t, sanity_fill);
    string_push_str(&mut t, "]");
    if marked {
        string_push_str(&mut t, " [MARKED]");
    } else {
        string_push_str(&mut t, "");
    }
    string_push_str(&mut t, " ");
    let ghost tv = t@;
    assert(tv =~= hud_text(wave, hp, kills, corruption_pct, corruption_fill, sanity_pct, sanity_fill, marked));
    let fg = if marked {
        Pixel::rgb(255, 220, 100)
    } else {
        Pixel::rgb(255, 235, 160)
    };
    let mut cmds: Vec<DrawCmd> = Vec::new();
    assert(cmds_view(cmds@) =~= Seq::<Cmd>::empty());
    push_banner(&mut cmds, 0, 0, fg, Pixel::rgb(20, 10, 30), t);
    assert(cmds_view(cmds@) =~= banner(0, 0, fg, strip_bg(), tv));
    cmds
}

fn push_bar(s: &mut String, fill: usize)
    ensures
        final(s)@ == old(s)@ + bar(fill as int),
{
    let f: usize = if fill > 10 {
        10
    } else {
        fill
    };
    string_push_str(s, repeat('▓', f).as_str());
    string_push_str(s, repeat('▒', 10 - f).as_str());
    assert(final(s)@ =~= old(s)@ + bar(fill as int));
}

/// The perk strip on row 2: a label, then one colored `[glyph]` per
/// perk. Nothing without perks.
pub open spec fn perk_cmds(perks: Seq<Perk>, n: int) -> Seq<Cmd>
    decreases n,
{
    if n <= 0 {
        Seq::empty()
    } else {
        perk_cmds(perks, n - 1) + seq![
            Cmd::Fg(perks[n - 1].spec_color()),
            Cmd::Print(seq!['[', perks[n - 1].spec_glyph(), ']', ' ']),
        ]
    }
}

pub fn draw_perks(perks: &[Perk]) -> (cmds: Vec<DrawCmd>)
    ensures
        perks@.len() == 0 ==> cmds@.len() == 0,
        perks@.len() > 0 ==> cmds_view(cmds@) == seq![
            Cmd::MoveTo(0, 2),
            Cmd::Bg(strip_bg()),
            Cmd::Fg(strip_label_fg()),
            Cmd::Print(" PERKS "@),
        ] + perk_cmds(perks@, perks@.len() as int) + seq![Cmd::ResetColor],
{
    let mut cmds: Vec<DrawCmd> = Vec::new();
    if perks.len() == 0 {
        return cmds;
    }
    assert(cmds_view(cmds@) =~= Seq::<Cmd>::empty());
    push_cmd(&mut cmds, DrawCmd::MoveTo(0, 2));
    push_cmd(&mut cmds, DrawCmd::Bg(Pixel::rgb(20, 10, 30)));
    push_cmd(&mut cmds, DrawCmd::Fg(Pixel::rgb(180, 180, 210)));
    push_cmd(&mut cmds, DrawCmd::Print(owned(" PERKS ")));
    let ghost head = cmds_view(cmds@);
    let mut i: usize = 0;
    while i < perks.len()
        invariant
            i <= perks@.len(),
            cmds_view(cmds@) == head + perk_cmds(perks@, i as int),
        decreases perks@.len() - i,
    {
        let p = perks[i];
        push_cmd(&mut cmds, DrawCmd::Fg(p.color()));
        let mut t = String::new();
        string_push(&mut t, '[');
        string_push(&mut t, p.glyph());
        string_push(&mut t, ']');
        string_push(&mut t, ' ');
        assert(t@ =~= seq!['[', p.spec_glyph(), ']', ' ']);
        push_cmd(&mut cmds, DrawCmd::Print(t));
        i = i + 1;
    }
    push_cmd(&mut cmds, DrawCmd::ResetColor);
    cmds
}

/// The brand strip on row 1: a label, then each active brand's short tag
/// in its color, separated by dim dots. Nothing without brands.
pub open spec fn brand_cmds(ids: Seq<Seq<char>>, n: int) -> Seq<Cmd>
    decreases n,
{
    if n <= 0 {
        Seq::empty()
    } else {
        let id = ids[n - 1];
        let (r, g, b) = spec_brand_rgb(id);
        brand_cmds(ids, n - 1) + (if n - 1 > 0 {
            seq![Cmd::Fg(Pixel { r: 120, g: 120, b: 140 }), Cmd::Print("· "@)]
        } else {
            Seq::empty()
        }) + seq![Cmd::Fg(Pixel { r, g, b }), Cmd::Print(spec_short_brand(id) + " "@)]
    }
}

pub fn draw_active_brands(active_brands: &[String]) -> (cmds: Vec<DrawCmd>)
    ensures
        active_brands@.len() == 0 ==> cmds@.len() == 0,
        active_brands@.len() > 0 ==> cmds_view(cmds@) == seq![
            Cmd::MoveTo(0, 1),
            Cmd::Bg(strip_bg()),
            Cmd::Fg(strip_label_fg()),
            Cmd::Print(" BRANDS "@),
        ] + brand_cmds(active_brands@.map_values(|s: String| s@), active_brands@.len() as int)
            + seq![Cmd::ResetColor],
{
    let ghost ids = active_brands@.map_values(|s: String| s@);
    let mut cmds: Vec<DrawCmd> = Vec::new();
    if active_brands.len() == 0 {
        return cmds;
    }
    assert(cmds_view(cmds@) =~= Seq::<Cmd>::empty());
    push_cmd(&mut cmds, DrawCmd::MoveTo(0, 1));
    push_cmd(&mut cmds, DrawCmd::Bg(Pixel::rgb(20, 10, 30)));
    push_cmd(&mut cmds, DrawCmd::Fg(Pixel::rgb(180, 180, 210)));
    push_cmd(&mut cmds, DrawCmd::Print(owned(" BRANDS ")));
    let ghost head = cmds_view(cmds@);
    let mut i: usize = 0;
    while i < active_brands.len()
        invariant
            i <= active_brands@.len(),
            ids == active_brands@.map_values(|s: String| s@),
            cmds_view(cmds@) == head + brand_cmds(ids, i as int),
        decreases active_brands@.len() - i,
    {
        let id = active_brands[i].as_str();
        assert(ids[i as int] == id@);
        let ghost before = cmds_view(cmds@);
        if i > 0 {
            push_cmd(&mut cmds, DrawCmd::Fg(Pixel::rgb(120, 120, 140)));
            push_cmd(&mut cmds, DrawCmd::Print(owned("· ")));
        }
        let (r, g, b) = brand_rgb(id);
        push_cmd(&mut cmds, DrawCmd::Fg(Pixel::rgb(r, g, b)));
        let mut t = owned(short_brand(id));
        string_push_str(&mut t, " ");
        push_cmd(&mut cmds, DrawCmd::Print(t));
        assert(cmds_view(cmds@) =~= head + brand_cmds(ids, i + 1));
        i = i + 1;
    }
    push_cmd(&mut cmds, DrawCmd::ResetColor);
    cmds
}

/// The local player's two weapon slots as the HUD shows them.
pub struct LocalLoadoutView {
    pub active_slot: u8,
    pub slots: [Option<(Rarity, Vec<Primitive>, FireMode)>; 2],
}

/// The glyphs of a primitive set, or `—` when it is empty.
pub open spec fn prim_letters(prims: Seq<Primitive>) -> Seq<char> {
    if prims.len() == 0 {
        "—"@
    } else {
        prims.map_values(|p: Primitive| p.spec_glyph())
    }
}

/// A loadout slot's color and line (`i` counts from zero).
pub open spec fn slot_line(slot: Option<(Rarity, Vec<Primitive>, FireMode)>, i: int, active: bool) -> (Pixel, Seq<char>) {
    let marker = if active {
        ">"@
    } else {
        " "@
    };
    match slot {
        Some((rarity, prims, mode)) => (
            rarity.spec_color(),
            marker + " S"@ + dec((i + 1) as nat) + " "@ + seq![mode.spec_glyph()] + " "@
                + mode.spec_label() + " ["@ + pad_right(prim_letters(prims@), 6) + "] "@,
        ),
        None => (Pixel { r: 100, g: 100, b: 100 }, marker + " S"@ + dec((i + 1) as nat) + " [ empty ] "@),
    }
}

fn prim_letters_exec(prims: &Vec<Primitive>) -> (letters: Vec<char>)
    ensures
        letters@ == prim_letters(prims@),
{
    if prims.len() == 0 {
        proof {
            reveal_strlit("—");
        }
        return chars_of("—");
    }
    let mut letters: Vec<char> = Vec::new();
    let mut k: usize = 0;
    while k < prims.len()
        invariant
            k <= prims@.len(),
            letters@ == prims@.take(k as int).map_values(|p: Primitive| p.spec_glyph()),
        decreases prims@.len() - k,
    {
        letters.push(prims[k].glyph());
        assert(prims@.take(k + 1).map_values(|p: Primitive| p.spec_glyph()) =~= prims@.take(
            k as int,
        ).map_values(|p: Primitive| p.spec_glyph()).push(prims@[k as int].spec_glyph()));
        k = k + 1;
    }
    assert(prims@.take(prims@.len() as int) =~= prims@);
    letters
}

#[verifier::rlimit(30)]
fn slot_text(slot: &Option<(Rarity, Vec<Primitive>, FireMode)>, i: usize, active: bool) -> (r: (Pixel, String))
    requires
        i < 2,
    ensures
        (r.0, r.1@) == slot_line(*slot, i as int, active),
{
    let mut t = String::new();
    if active {
        string_push_str(&mut t, ">");
    } else {
        string_push_str(&mut t, " ");
    }
    string_push_str(&mut t, " S");
    push_chars(&mut t, &dec_chars((i + 1) as u128));
    match slot {
        Some((rarity, prims, mode)) => {
            string_push_str(&mut t, " ");
            string_push(&mut t, mode.glyph());
            string_push_str(&mut t, " ");
            string_push_str(&mut t, mode.label());
            string_push_str(&mut t, " [");
            let letters = prim_letters_exec(prims);
            push_chars(&mut t, &letters);
            if letters.len() < 6 {
                push_spaces(&mut t, 6 - letters.len());
            }
            string_push_str(&mut t, "] ");
            let ghost tv = t@;
            assert(tv =~= slot_line(*slot, i as int, active).1);
            (rarity.color(), t)
        },
        None => {
            string_push_str(&mut t, " [ empty ] ");
            (Pixel::rgb(100, 100, 100), t)
        },
    }
}

/// The loadout strip: one line per slot on rows 4 and 5, `>` on the
/// active one, in the slot's rarity color (gray when empty).
pub fn draw_loadout(loadout: &LocalLoadoutView) -> (cmds: Vec<DrawCmd>)
    ensures
        cmds_view(cmds@) == banner(
            0,
            4,
            slot_line(loadout.slots[0], 0, loadout.active_slot == 0).0,
            strip_bg(),
            slot_line(loadout.slots[0], 0, loadout.active_slot == 0).1,
        ) + banner(
            0,
            5,
            slot_line(loadout.slots[1], 1, loadout.active_slot == 1).0,
            strip_bg(),
            slot_line(loadout.slots[1], 1, loadout.active_slot == 1).1,
        ),
{
    let mut cmds: Vec<DrawCmd> = Vec::new();
    assert(cmds_view(cmds@) =~= Seq::<Cmd>::empty());
    let (c0, t0) = slot_text(&loadout.slots[0], 0, loadout.active_slot == 0);
    push_banner(&mut cmds, 0, 4, c0, Pixel::rgb(20, 10, 30), t0);
    let (c1, t1) = slot_text(&loadout.slots[1], 1, loadout.active_slot == 1);
    push_banner(&mut cmds, 0, 5, c1, Pixel::rgb(20, 10, 30), t1);
    cmds
}

pub open spec fn pad_zero2(s: Seq<char>) -> Seq<char> {
    if s.len() >= 2 {
        s
    } else {
        seq!['0'] + s
    }
}

/// The game-over card's eight lines.
pub open spec fn gameover_lines(wave: u32, kills: u32, elapsed_secs: u64) -> Seq<Seq<char>> {
    let blank = "                                  "@;
    seq![
        blank,
        "            YOU DIED              "@,
        blank,
        "    wave "@ + pad_left(dec(wave as nat), 3) + "    kills "@ + pad_left(dec(kills as nat), 3)
            + "       "@,
        "    time "@ + pad_left(dec((elapsed_secs / 60) as nat), 2) + "m "@ + pad_zero2(
            dec((elapsed_secs % 60) as nat),
        ) + "s                "@,
        blank,
        "     press any key to exit        "@,
        blank,
    ]
}

/// The largest of the first `n` lines' byte lengths, each taken as `u16`.
pub open spec fn max_len16(lines: Seq<Seq<char>>, n: int) -> u16
    decreases n,
{
    if n <= 0 {
        0
    } else {
        let m = max_len16(lines, n - 1);
        let l = vstd::utf8::encode_utf8(lines[n - 1]).len() as u16;
        if l > m {
            l
        } else {
            m
        }
    }
}

/// The game-over card centered on the screen: one color pair, then each
/// line moved to and printed, then a reset. The card is as wide as its
/// longest line (in bytes).
pub open spec fn gameover_cmds(cols: u16, rows: u16, wave: u32, kills: u32, elapsed_secs: u64) -> Seq<Cmd> {
    let lines = gameover_lines(wave, kills, elapsed_secs);
    let width = max_len16(lines, 8);
    let x = sat_sub(cols as int, width as int) / 2;
    let y = sat_sub(rows as int, 8) / 2;
    seq![Cmd::Fg(Pixel { r: 255, g: 240, b: 140 }), Cmd::Bg(Pixel { r: 30, g: 0, b: 15 })] + Seq::new(
        16,
        |k: int|
            if k % 2 == 0 {
                Cmd::MoveTo(x as u16, (y + k / 2) as u16)
            } else {
                Cmd::Print(lines[k / 2])
            },
    ) + seq![Cmd::ResetColor]
}

fn gameover_text(wave: u32, kills: u32, elapsed_secs: u64) -> (lines: Vec<String>)
    ensures
        lines@.len() == 8,
        forall|i: int| 0 <= i < 8 ==> #[trigger] lines@[i]@ == gameover_lines(wave, kills, elapsed_secs)[i],
{
    let blank = "                                  ";
    let mut lines: Vec<String> = Vec::new();
    lines.push(owned(blank));
    lines.push(owned("            YOU DIED              "));
    lines.push(owned(blank));
    let mut l3 = owned("    wave ");
    push_left(&mut l3, &dec_chars(wave as u128), 3);
    string_push_str(&mut l3, "    kills ");
    push_left(&mut l3, &dec_chars(kills as u128), 3);
    string_push_str(&mut l3, "       ");
    lines.push(l3);
    let mut l4 = owned("    time ");
    push_left(&mut l4, &dec_chars((elapsed_secs / 60) as u128), 2);
    string_push_str(&mut l4, "m ");
    let sec = dec_chars((elapsed_secs % 60) as u128);
    if sec.len() < 2 {
        string_push(&mut l4, '0');
    }
    push_chars(&mut l4, &sec);
    string_push_str(&mut l4, "s                ");
    lines.push(l4);
    lines.push(owned(blank));
    lines.push(owned("     press any key to exit        "));
    lines.push(owned(blank));
    proof {
        let g = gameover_lines(wave, kills, elapsed_secs);
        assert(lines@[3]@ =~= g[3]);
        assert(lines@[4]@ =~= g[4]);
        assert forall|i: int| 0 <= i < 8 implies #[trigger] lines@[i]@ == gameover_lines(wave, kills, elapsed_secs)[i] by {
            if i == 3 {
                assert(lines@[3]@ =~= g[3]);
            } else if i == 4 {
                assert(lines@[4]@ =~= g[4]);
            }
        }
    }
    lines
}

pub fn draw_gameover(cols: u16, rows: u16, wave: u32, kills: u32, elapsed_secs: u64) -> (cmds: Vec<DrawCmd>)
    ensures
        cmds_view(cmds@) == gameover_cmds(cols, rows, wave, kills, elapsed_secs),
{
    let ghost g = gameover_lines(wave, kills, elapsed_secs);
    let lines = gameover_text(wave, kills, elapsed_secs);
    let mut width: u16 = 0;
    let mut i: usize = 0;
    while i < 8
        invariant
            i <= 8,
            lines@.len() == 8,
            forall|j: int| 0 <= j < 8 ==> #[trigger] lines@[j]@ == g[j],
            g == gameover_lines(wave, kills, elapsed_secs),
            width == max_len16(g, i as int),
        decreases 8 - i,
    {
        let l = lines[i].as_str().as_bytes().len() as u16;
        if l > width {
            width = l;
        }
        i = i + 1;
    }
    let x: u16 = (if cols >= width { cols - width } else { 0 }) / 2;
    let y: u16 = (if rows >= 8 { rows - 8 } else { 0 }) / 2;
    let mut cmds: Vec<DrawCmd> = Vec::new();
    assert(cmds_view(cmds@) =~= Seq::<Cmd>::empty());
    push_cmd(&mut cmds, DrawCmd::Fg(Pixel::rgb(255, 240, 140)));
    push_cmd(&mut cmds, DrawCmd::Bg(Pixel::rgb(30, 0, 15)));
    let ghost head = cmds_view(cmds@);
    let ghost body = Seq::new(
        16,
        |k: int|
            if k % 2 == 0 {
                Cmd::MoveTo(x as u16, (y + k / 2) as u16)
            } else {
                Cmd::Print(g[k / 2])
            },
    );
    let mut k: usize = 0;
    let mut lines = lines;
    while k < 8
        invariant
            k <= 8,
            lines@.len() == 8 - k,
            forall|j: int| 0 <= j < 8 - k ==> #[trigger] lines@[j]@ == g[j + k],
            y <= 32767,
            body == Seq::new(
                16,
                |k: int|
                    if k % 2 == 0 {
                        Cmd::MoveTo(x as u16, (y + k / 2) as u16)
                    } else {
                        Cmd::Print(g[k / 2])
                    },
            ),
            cmds_view(cmds@) == head + body.take(2 * k),
        decreases 8 - k,
    {
        let line = lines.remove(0);
        assert(line@ == g[k as int]);
        push_cmd(&mut cmds, DrawCmd::MoveTo(x, y + k as u16));
        push_cmd(&mut cmds, DrawCmd::Print(line));
        assert(body.take(2 * (k + 1)) =~= body.take(2 * k) + seq![
            Cmd::MoveTo(x as u16, (y + k) as u16),
            Cmd::Print(g[k as int]),
        ]);
        k = k + 1;
    }
    push_cmd(&mut cmds, DrawCmd::ResetColor);
    assert(body.take(16) =~= body);
    assert(cmds_view(cmds@) =~= gameover_cmds(cols, rows, wave, kills, elapsed_secs));
    cmds
}


// ----- inventory ------------------------------------------------------

/// The inventory panel's title.
pub const INVENTORY_TITLE: &'static str = " ≡ INVENTORY · Tab to close ≡ ";

/// What the perk list shows while there are none.
pub const NO_PERKS_TEXT: &'static str = "(none yet — kill a miniboss or survive to wave 5)";

/// A player's full hit points.
pub const PLAYER_MAX_HP: i32 = 100;

/// Armor capacity before perks.
pub const PLAYER_BASE_MAX_ARMOR: i32 = 100;

/// Armor capacity: the Survivor perk adds 50.
pub open spec fn spec_max_armor(perks: Seq<Perk>) -> i32 {
    if perks.contains(Perk::Survivor) {
        150
    } else {
        100
    }
}

pub fn max_armor(perks: &[Perk]) -> (m: i32)
    ensures
        m == spec_max_armor(perks@),
{
    let mut i: usize = 0;
    while i < perks.len()
        invariant
            i <= perks@.len(),
            forall|j: int| 0 <= j < i ==> perks@[j] != Perk::Survivor,
        decreases perks@.len() - i,
    {
        if perks[i] == Perk::Survivor {
            assert(perks@[i as int] == Perk::Survivor);
            return PLAYER_BASE_MAX_ARMOR + 50;
        }
        i = i + 1;
    }
    PLAYER_BASE_MAX_ARMOR
}

pub open spec fn inv_bg() -> Pixel {
    Pixel { r: 10, g: 8, b: 20 }
}

pub open spec fn inv_label() -> Pixel {
    Pixel { r: 200, g: 200, b: 230 }
}

pub open spec fn inv_val() -> Pixel {
    Pixel { r: 255, g: 255, b: 220 }
}

pub open spec fn inv_dim() -> Pixel {
    Pixel { r: 140, g: 140, b: 170 }
}

/// `n` panel rows of spaces, `w` wide, from `(x0, y0)` down.
pub open spec fn wipe_rows(x0: int, y0: int, w: int, n: int) -> Seq<Cmd>
    decreases n,
{
    if n <= 0 {
        Seq::empty()
    } else {
        wipe_rows(x0, y0, w, n - 1) + seq![
            Cmd::MoveTo(x0 as u16, (y0 + n - 1) as u16),
            Cmd::Bg(inv_bg()),
            Cmd::Fg(inv_label()),
            Cmd::Print(repeat_char(' ', w)),
        ]
    }
}

/// The stats line: HP (never below zero) of the maximum, armor of its
/// capacity, sanity of 100.
pub open spec fn stats_text(hp: i32, armor: i32, max_armor: i32, sanity: i32) -> Seq<char> {
    "HP "@ + pad_left(dec_i(if hp > 0 { hp as int } else { 0 }), 3) + "/"@ + pad_right(dec(100), 3)
        + "   ARMOR "@ + pad_left(dec_i(armor as int), 3) + "/"@ + pad_right(dec_i(max_armor as int), 3)
        + "   SANITY "@ + pad_left(dec_i(sanity as int), 3) + "/100"@
}

/// A rarity as its name.
pub open spec fn rarity_name(r: Rarity) -> Seq<char> {
    match r {
        Rarity::Common => "Common"@,
        Rarity::Uncommon => "Uncommon"@,
        Rarity::Rare => "Rare"@,
    }
}

/// The glyphs of a primitive set separated by spaces, or `—` when empty.
pub open spec fn spaced_glyphs(prims: Seq<Primitive>) -> Seq<char>
    decreases prims.len(),
{
    if prims.len() == 0 {
        Seq::empty()
    } else if prims.len() == 1 {
        seq![prims[0].spec_glyph()]
    } else {
        spaced_glyphs(prims.drop_last()) + seq![' ', prims.last().spec_glyph()]
    }
}

pub open spec fn prim_list(prims: Seq<Primitive>) -> Seq<char> {
    if prims.len() == 0 {
        "—"@
    } else {
        spaced_glyphs(prims)
    }
}

/// A loadout slot's inventory line (`i` counts from zero).
pub open spec fn inv_slot_text(slot: Option<(Rarity, Vec<Primitive>, FireMode)>, i: int, active: bool) -> Seq<char> {
    let marker = if active {
        ">"@
    } else {
        " "@
    };
    match slot {
        Some((rarity, prims, mode)) => marker + " slot "@ + dec(i as nat) + " · "@ + rarity_name(rarity)
            + " · "@ + seq![mode.spec_glyph()] + " "@ + mode.spec_label() + " ["@ + prim_list(prims@)
            + "]"@,
        None => marker + " slot "@ + dec(i as nat) + " · empty"@,
    }
}

/// A line at `(x, y)` in color `fg`.
pub open spec fn fg_line(x: int, y: int, fg: Pixel, text: Seq<char>) -> Seq<Cmd> {
    seq![Cmd::MoveTo(x as u16, y as u16), Cmd::Fg(fg), Cmd::Print(text)]
}

/// The loadout's two slot lines from row `y`, or nothing without a
/// loadout.
pub open spec fn loadout_rows(loadout: Option<LocalLoadoutView>, x: int, y: int) -> Seq<Cmd> {
    match loadout {
        Some(lo) => fg_line(x, y, inv_val(), inv_slot_text(lo.slots[0], 0, lo.active_slot == 0))
            + fg_line(x, y + 1, inv_val(), inv_slot_text(lo.slots[1], 1, lo.active_slot == 1)),
        None => Seq::empty(),
    }
}

/// One perk: glyph and padded name in its color, then its flavor, dim.
pub open spec fn perk_line(p: Perk, x: int, y: int) -> Seq<Cmd> {
    seq![
        Cmd::MoveTo(x as u16, y as u16),
        Cmd::Fg(p.spec_color()),
        Cmd::Print("["@ + seq![p.spec_glyph()] + "] "@ + pad_right(p.spec_name(), 14)),
        Cmd::Fg(inv_dim()),
        Cmd::Print(" "@ + p.spec_flavor()),
    ]
}

/// The first `n` perks, one row each from row `y`.
pub open spec fn perk_block(perks: Seq<Perk>, x: int, y: int, n: int) -> Seq<Cmd>
    decreases n,
{
    if n <= 0 {
        Seq::empty()
    } else {
        perk_block(perks, x, y, n - 1) + perk_line(perks[n - 1], x, y + n - 1)
    }
}

/// How many perks fit: the list stops after the perk drawn on the row
/// before `last` (the panel's bottom row), but always shows one.
pub open spec fn perks_shown(len: int, y: int, last: int) -> int {
    if len == 0 {
        0
    } else if last - y >= len {
        len
    } else if last - y >= 1 {
        last - y
    } else {
        1
    }
}

/// The panel's wipe, title, stats, consumables and loadout heading, for
/// a panel `pw` × `ph` at `(x0, y0)`.
pub open spec fn inventory_top(
    x0: int,
    y0: int,
    pw: int,
    ph: int,
    hp: i32,
    armor: i32,
    sanity: i32,
    turret_kits: u8,
    perks: Seq<Perk>,
) -> Seq<Cmd> {
    let tx = x0 + sat_sub(pw, (INVENTORY_TITLE@.len() as u16) as int) / 2;
    wipe_rows(x0, y0, pw, ph) + seq![
        Cmd::MoveTo(tx as u16, y0 as u16),
        Cmd::Bg(Pixel { r: 40, g: 25, b: 55 }),
        Cmd::Fg(Pixel { r: 255, g: 200, b: 100 }),
        Cmd::Print(INVENTORY_TITLE@),
        Cmd::MoveTo((x0 + 2) as u16, (y0 + 2) as u16),
        Cmd::Bg(inv_bg()),
        Cmd::Fg(inv_val()),
        Cmd::Print(stats_text(hp, armor, spec_max_armor(perks), sanity)),
    ] + fg_line(x0 + 2, y0 + 4, inv_label(), "consumables:"@) + fg_line(
        x0 + 4,
        y0 + 5,
        inv_val(),
        "turret kits  × "@ + dec(turret_kits as nat),
    ) + fg_line(x0 + 2, y0 + 7, inv_label(), "loadout:"@)
}

/// The perk list from row `hr + 1`: a placeholder when there are none,
/// else as many perks as fit above row `last`.
pub open spec fn inventory_perks(perks: Seq<Perk>, x: int, hr: int, last: int) -> Seq<Cmd> {
    if perks.len() == 0 {
        fg_line(x, hr + 1, inv_dim(), NO_PERKS_TEXT@)
    } else {
        perk_block(perks, x, hr + 1, perks_shown(perks.len() as int, hr + 1, last))
    }
}

/// The whole inventory panel for a `cols` × `rows` terminal: 70% of it
/// in each direction, centred.
pub open spec fn inventory_cmds(
    cols: u16,
    rows: u16,
    hp: i32,
    armor: i32,
    sanity: i32,
    turret_kits: u8,
    perks: Seq<Perk>,
    loadout: Option<LocalLoadoutView>,
) -> Seq<Cmd> {
    let pw = cols * 7 / 10;
    let ph = rows * 7 / 10;
    let x0 = (cols - pw) / 2;
    let y0 = (rows - ph) / 2;
    let hr = y0 + 9 + if loadout is Some {
        2int
    } else {
        0int
    };
    inventory_top(x0, y0, pw, ph, hp, armor, sanity, turret_kits, perks) + loadout_rows(
        loadout,
        x0 + 4,
        y0 + 8,
    ) + fg_line(x0 + 2, hr, inv_label(), "perks ("@ + dec(perks.len()) + "):"@) + inventory_perks(
        perks,
        x0 + 4,
        hr,
        y0 + ph - 1,
    ) + seq![Cmd::ResetColor]
}

fn push_fg_line(cmds: &mut Vec<DrawCmd>, x: u16, y: u16, fg: Pixel, text: String)
    ensures
        cmds_view(final(cmds)@) == cmds_view(old(cmds)@) + fg_line(x as int, y as int, fg, text@),
{
    let ghost t = text@;
    push_cmd(cmds, DrawCmd::MoveTo(x, y));
    push_cmd(cmds, DrawCmd::Fg(fg));
    push_cmd(cmds, DrawCmd::Print(text));
    assert(cmds_view(cmds@) =~= cmds_view(old(cmds)@) + fg_line(x as int, y as int, fg, t));
}

fn push_wipe_rows(cmds: &mut Vec<DrawCmd>, x0: u16, y0: u16, w: u16, n: u16)
    requires
        y0 + n <= u16::MAX,
    ensures
        cmds_view(final(cmds)@) == cmds_view(old(cmds)@) + wipe_rows(x0 as int, y0 as int, w as int, n as int),
{
    let mut k: u16 = 0;
    assert(wipe_rows(x0 as int, y0 as int, w as int, 0) =~= Seq::<Cmd>::empty());
    assert(cmds_view(cmds@) =~= cmds_view(old(cmds)@) + wipe_rows(x0 as int, y0 as int, w as int, 0));
    while k < n
        invariant
            k <= n,
            y0 + n <= u16::MAX,
            cmds_view(cmds@) == cmds_view(old(cmds)@) + wipe_rows(x0 as int, y0 as int, w as int, k as int),
        decreases n - k,
    {
        let ghost before = cmds_view(cmds@);
        push_cmd(cmds, DrawCmd::MoveTo(x0, y0 + k));
        push_cmd(cmds, DrawCmd::Bg(Pixel::rgb(10, 8, 20)));
        push_cmd(cmds, DrawCmd::Fg(Pixel::rgb(200, 200, 230)));
        push_cmd(cmds, DrawCmd::Print(repeat(' ', w as usize)));
        k = k + 1;
        assert(cmds_view(cmds@) =~= cmds_view(old(cmds)@) + wipe_rows(x0 as int, y0 as int, w as int, k as int));
    }
}

fn push_pad_right(s: &mut String, t: &Vec<char>, w: usize)
    ensures
        final(s)@ == old(s)@ + pad_right(t@, w as nat),
{
    push_chars(s, t);
    if t.len() < w {
        push_spaces(s, w - t.len());
    }
    assert(final(s)@ =~= old(s)@ + pad_right(t@, w as nat));
}

fn dec_i_chars(n: i32) -> (v: Vec<char>)
    ensures
        v@ == dec_i(n as int),
{
    let mut s = String::new();
    push_dec_i(&mut s, n);
    chars_of(s.as_str())
}

fn stats_string(hp: i32, armor: i32, max_armor: i32, sanity: i32) -> (s: String)
    ensures
        s@ == stats_text(hp, armor, max_armor, sanity),
{
    let mut s = String::new();
    string_push_str(&mut s, "HP ");
    let hp0: i32 = if hp > 0 {
        hp
    } else {
        0
    };
    push_left(&mut s, &dec_i_chars(hp0), 3);
    string_push_str(&mut s, "/");
    push_pad_right(&mut s, &dec_chars(PLAYER_MAX_HP as u128), 3);
    string_push_str(&mut s, "   ARMOR ");
    push_left(&mut s, &dec_i_chars(armor), 3);
    string_push_str(&mut s, "/");
    push_pad_right(&mut s, &dec_i_chars(max_armor), 3);
    string_push_str(&mut s, "   SANITY ");
    push_left(&mut s, &dec_i_chars(sanity), 3);
    string_push_str(&mut s, "/100");
    proof {
        assert(dec_i(100) == dec(100));
    }
    assert(s@ =~= stats_text(hp, armor, max_armor, sanity));
    s
}

fn rarity_name_str(r: Rarity) -> (s: &'static str)
    ensures
        s@ == rarity_name(r),
{
    match r {
        Rarity::Common => "Common",
        Rarity::Uncommon => "Uncommon",
        Rarity::Rare => "Rare",
    }
}

fn prim_list_string(prims: &Vec<Primitive>) -> (s: String)
    ensures
        s@ == prim_list(prims@),
{
    let mut s = String::new();
    if prims.len() == 0 {
        string_push_str(&mut s, "—");
        return s;
    }
    string_push(&mut s, prims[0].glyph());
    assert(prims@.take(1) =~= seq![prims@[0]]);
    assert(s@ =~= spaced_glyphs(prims@.take(1)));
    let mut k: usize = 1;
    while k < prims.len()
        invariant
            1 <= k <= prims@.len(),
            s@ == spaced_glyphs(prims@.take(k as int)),
        decreases prims@.len() - k,
    {
        string_push(&mut s, ' ');
        string_push(&mut s, prims[k].glyph());
        assert(prims@.take(k + 1).drop_last() =~= prims@.take(k as int));
        assert(s@ =~= spaced_glyphs(prims@.take(k + 1)));
        k = k + 1;
    }
    assert(prims@.take(prims@.len() as int) =~= prims@);
    s
}

#[verifier::rlimit(30)]
fn inv_slot_string(slot: &Option<(Rarity, Vec<Primitive>, FireMode)>, i: usize, active: bool) -> (s: String)
    requires
        i < 2,
    ensures
        s@ == inv_slot_text(*slot, i as int, active),
{
    let mut t = String::new();
    if active {
        string_push_str(&mut t, ">");
    } else {
        string_push_str(&mut t, " ");
    }
    string_push_str(&mut t, " slot ");
    push_chars(&mut t, &dec_chars(i as u128));
    match slot {
        Some((rarity, prims, mode)) => {
            string_push_str(&mut t, " · ");
            string_push_str(&mut t, rarity_name_str(*rarity));
            string_push_str(&mut t, " · ");
            string_push(&mut t, mode.glyph());
            string_push_str(&mut t, " ");
            string_push_str(&mut t, mode.label());
            string_push_str(&mut t, " [");
            let pl = prim_list_string(prims);
            string_push_str(&mut t, pl.as_str());
            string_push_str(&mut t, "]");
            assert(t@ =~= inv_slot_text(*slot, i as int, active));
        },
        None => {
            string_push_str(&mut t, " · empty");
        },
    }
    t
}

fn push_perk_line(cmds: &mut Vec<DrawCmd>, p: Perk, x: u16, y: u16)
    ensures
        cmds_view(final(cmds)@) == cmds_view(old(cmds)@) + perk_line(p, x as int, y as int),
{
    let mut head = String::new();
    string_push_str(&mut head, "[");
    string_push(&mut head, p.glyph());
    string_push_str(&mut head, "] ");
    push_pad_right(&mut head, &chars_of(p.name()), 14);
    let mut tail = String::new();
    string_push_str(&mut tail, " ");
    string_push_str(&mut tail, p.flavor());
    let ghost hv = head@;
    let ghost tv = tail@;
    push_cmd(cmds, DrawCmd::MoveTo(x, y));
    push_cmd(cmds, DrawCmd::Fg(p.color()));
    push_cmd(cmds, DrawCmd::Print(head));
    push_cmd(cmds, DrawCmd::Fg(Pixel::rgb(140, 140, 170)));
    push_cmd(cmds, DrawCmd::Print(tail));
    assert(hv =~= "["@ + seq![p.spec_glyph()] + "] "@ + pad_right(p.spec_name(), 14));
    assert(cmds_view(cmds@) =~= cmds_view(old(cmds)@) + perk_line(p, x as int, y as int));
}

#[verifier::spinoff_prover]
fn push_inventory_top(
    cmds: &mut Vec<DrawCmd>,
    x0: u16,
    y0: u16,
    pw: u16,
    ph: u16,
    hp: i32,
    armor: i32,
    sanity: i32,
    turret_kits: u8,
    perks: &[Perk],
)
    requires
        y0 + ph <= u16::MAX,
        x0 + pw <= u16::MAX,
        x0 + 4 <= u16::MAX,
        y0 + 7 <= u16::MAX,
    ensures
        cmds_view(final(cmds)@) == cmds_view(old(cmds)@) + inventory_top(
            x0 as int,
            y0 as int,
            pw as int,
            ph as int,
            hp,
            armor,
            sanity,
            turret_kits,
            perks@,
        ),
{
    let tl = chars_of(INVENTORY_TITLE).len() as u16;
    let tx: u16 = x0 + (if pw >= tl {
        pw - tl
    } else {
        0
    }) / 2;
    push_wipe_rows(cmds, x0, y0, pw, ph);
    let ghost after_wipe = cmds_view(cmds@);
    push_cmd(cmds, DrawCmd::MoveTo(tx, y0));
    push_cmd(cmds, DrawCmd::Bg(Pixel::rgb(40, 25, 55)));
    push_cmd(cmds, DrawCmd::Fg(Pixel::rgb(255, 200, 100)));
    push_cmd(cmds, DrawCmd::Print(owned(INVENTORY_TITLE)));
    push_cmd(cmds, DrawCmd::MoveTo(x0 + 2, y0 + 2));
    push_cmd(cmds, DrawCmd::Bg(Pixel::rgb(10, 8, 20)));
    push_cmd(cmds, DrawCmd::Fg(Pixel::rgb(255, 255, 220)));
    let ma = max_armor(perks);
    push_cmd(cmds, DrawCmd::Print(stats_string(hp, armor, ma, sanity)));
    assert(cmds_view(cmds@) =~= after_wipe + seq![
        Cmd::MoveTo(tx, y0),
        Cmd::Bg(Pixel { r: 40, g: 25, b: 55 }),
        Cmd::Fg(Pixel { r: 255, g: 200, b: 100 }),
        Cmd::Print(INVENTORY_TITLE@),
        Cmd::MoveTo((x0 + 2) as u16, (y0 + 2) as u16),
        Cmd::Bg(inv_bg()),
        Cmd::Fg(inv_val()),
        Cmd::Print(stats_text(hp, armor, spec_max_armor(perks@), sanity)),
    ]);
    push_fg_line(cmds, x0 + 2, y0 + 4, Pixel::rgb(200, 200, 230), owned("consumables:"));
    let mut kits = String::new();
    string_push_str(&mut kits, "turret kits  × ");
    push_chars(&mut kits, &dec_chars(turret_kits as u128));
    push_fg_line(cmds, x0 + 4, y0 + 5, Pixel::rgb(255, 255, 220), kits);
    push_fg_line(cmds, x0 + 2, y0 + 7, Pixel::rgb(200, 200, 230), owned("loadout:"));
}

#[verifier::spinoff_prover]
fn push_inventory_perks(cmds: &mut Vec<DrawCmd>, perks: &[Perk], x: u16, hr: u16, last: u16)
    requires
        hr < u16::MAX,
        last as int <= u16::MAX,
    ensures
        cmds_view(final(cmds)@) == cmds_view(old(cmds)@) + inventory_perks(perks@, x as int, hr as int, last as int),
{
    let ghost before_perks = cmds_view(cmds@);
    if perks.len() == 0 {
        push_fg_line(cmds, x, hr + 1, Pixel::rgb(140, 140, 170), owned(NO_PERKS_TEXT));
        return;
    }
    let first: u16 = hr + 1;
    let n: usize = if last >= first && (last - first) as usize >= perks.len() {
        perks.len()
    } else if last > first {
        (last - first) as usize
    } else {
        1
    };
    assert(n == perks_shown(perks@.len() as int, first as int, last as int));
    let mut j: usize = 0;
    assert(cmds_view(cmds@) =~= before_perks + perk_block(perks@, x as int, first as int, 0));
    while j < n
        invariant
            j <= n,
            n <= perks@.len(),
            n <= 1 || first as int + n <= last as int,
            first as int + n <= u16::MAX + 1,
            cmds_view(cmds@) == before_perks + perk_block(perks@, x as int, first as int, j as int),
        decreases n - j,
    {
        push_perk_line(cmds, perks[j], x, first + j as u16);
        j = j + 1;
        assert(cmds_view(cmds@) =~= before_perks + perk_block(perks@, x as int, first as int, j as int));
    }
}

/// Full-screen inventory overlay: stats, consumables, the weapon
/// loadout and the perks with their flavor, on a panel over the middle
/// of the screen. Sanity is the caller's rounded value.
#[verifier::spinoff_prover]
pub fn draw_inventory(
    cols: u16,
    rows: u16,
    hp: i32,
    armor: i32,
    sanity: i32,
    turret_kits: u8,
    perks: &[Perk],
    loadout: Option<&LocalLoadoutView>,
) -> (cmds: Vec<DrawCmd>)
    requires
        perks@.len() > 0 ==> rows >= 2,
    ensures
        cmds_view(cmds@) == inventory_cmds(
            cols,
            rows,
            hp,
            armor,
            sanity,
            turret_kits,
            perks@,
            match loadout {
                Some(l) => Some(*l),
                None => None,
            },
        ),
{
    let pw: u16 = ((cols as u32) * 7 / 10) as u16;
    let ph: u16 = ((rows as u32) * 7 / 10) as u16;
    let x0: u16 = (cols - pw) / 2;
    let y0: u16 = (rows - ph) / 2;
    let ghost lo_spec = match loadout {
        Some(l) => Some(*l),
        None => None::<LocalLoadoutView>,
    };
    let mut cmds: Vec<DrawCmd> = Vec::new();
    assert(cmds_view(cmds@) =~= Seq::<Cmd>::empty());
    push_inventory_top(&mut cmds, x0, y0, pw, ph, hp, armor, sanity, turret_kits, perks);
    let ghost before_slots = cmds_view(cmds@);
    let mut hr: u16 = y0 + 9;
    match loadout {
        Some(lo) => {
            push_fg_line(
                &mut cmds,
                x0 + 4,
                y0 + 8,
                Pixel::rgb(255, 255, 220),
                inv_slot_string(&lo.slots[0], 0, lo.active_slot == 0),
            );
            push_fg_line(
                &mut cmds,
                x0 + 4,
                y0 + 9,
                Pixel::rgb(255, 255, 220),
                inv_slot_string(&lo.slots[1], 1, lo.active_slot == 1),
            );
            hr = y0 + 11;
        },
        None => {},
    }
    assert(cmds_view(cmds@) =~= before_slots + loadout_rows(lo_spec, x0 + 4, y0 + 8));
    let mut header = String::new();
    string_push_str(&mut header, "perks (");
    push_chars(&mut header, &dec_chars(perks.len() as u128));
    string_push_str(&mut header, "):");
    push_fg_line(&mut cmds, x0 + 2, hr, Pixel::rgb(200, 200, 230), header);
    let last: u16 = if perks.len() == 0 {
        0
    } else {
        y0 + ph - 1
    };
    let ghost before_perks = cmds_view(cmds@);
    push_inventory_perks(&mut cmds, perks, x0 + 4, hr, last);
    proof {
        if perks@.len() == 0 {
            assert(inventory_perks(perks@, (x0 + 4) as int, hr as int, last as int) == inventory_perks(
                perks@,
                (x0 + 4) as int,
                hr as int,
                y0 + ph - 1,
            ));
        }
    }
    push_cmd(&mut cmds, DrawCmd::ResetColor);
    assert(cmds_view(cmds@) =~= inventory_cmds(cols, rows, hp, armor, sanity, turret_kits, perks@, lo_spec));
    cmds
}

// ----- intermission strip -----------------------------------------------

/// The vote tallies, `short: votes  ` per kiosk.
pub open spec fn kiosk_text(kiosks: Seq<(Seq<char>, u32)>) -> Seq<char>
    decreases kiosks.len(),
{
    if kiosks.len() == 0 {
        Seq::empty()
    } else {
        kiosk_text(kiosks.drop_last()) + spec_short_brand(kiosks.last().0) + ": "@ + dec(
            kiosks.last().1 as nat,
        ) + "  "@
    }
}

/// The active brands' short tags, each followed by a space.
pub open spec fn brand_list(ids: Seq<Seq<char>>) -> Seq<char>
    decreases ids.len(),
{
    if ids.len() == 0 {
        Seq::empty()
    } else {
        brand_list(ids.drop_last()) + spec_short_brand(ids.last()) + " "@
    }
}

/// The intermission line: phase and seconds left, then the vote tallies
/// during a vote with kiosks up, else the active brands.
pub open spec fn intermission_text(
    phase: IntermissionPhase,
    secs: i32,
    kiosks: Seq<(Seq<char>, u32)>,
    brands: Seq<Seq<char>>,
) -> Seq<char> {
    " ["@ + phase.spec_label() + " "@ + pad_left(dec_i(secs as int), 2) + "s] "@ + (if phase
        == IntermissionPhase::Vote && kiosks.len() > 0 {
        kiosk_text(kiosks) + "(walk + E to vote) "@
    } else {
        "brands: "@ + brand_list(brands)
    })
}

/// The intermission strip on row 3 while a phase runs (nothing
/// otherwise). `secs` is the phase timer rounded up; `kiosks` holds
/// each vote kiosk's brand id and votes.
pub fn draw_intermission(
    phase: Option<IntermissionPhase>,
    secs: i32,
    kiosks: &[(String, u32)],
    active_brands: &[String],
) -> (cmds: Vec<DrawCmd>)
    ensures
        phase is None ==> cmds@.len() == 0,
        phase matches Some(p) ==> cmds_view(cmds@) == seq![
            Cmd::MoveTo(0, 3),
            Cmd::Fg(Pixel { r: 255, g: 235, b: 150 }),
            Cmd::Bg(strip_bg()),
            Cmd::Print(
                intermission_text(
                    p,
                    secs,
                    kiosks@.map_values(|k: (String, u32)| (k.0@, k.1)),
                    active_brands@.map_values(|s: String| s@),
                ),
            ),
            Cmd::ResetColor,
        ],
{
    let mut cmds: Vec<DrawCmd> = Vec::new();
    let p = match phase {
        Some(p) => p,
        None => {
            return cmds;
        },
    };
    let ghost ks = kiosks@.map_values(|k: (String, u32)| (k.0@, k.1));
    let ghost bs = active_brands@.map_values(|s: String| s@);
    let mut line = String::new();
    string_push_str(&mut line, " [");
    string_push_str(&mut line, p.label());
    string_push_str(&mut line, " ");
    push_left(&mut line, &dec_i_chars(secs), 2);
    string_push_str(&mut line, "s] ");
    let ghost head = line@;
    if p == IntermissionPhase::Vote && kiosks.len() > 0 {
        let mut i: usize = 0;
        assert(ks.take(0) =~= Seq::<(Seq<char>, u32)>::empty());
        while i < kiosks.len()
            invariant
                i <= kiosks@.len(),
                ks == kiosks@.map_values(|k: (String, u32)| (k.0@, k.1)),
                line@ == head + kiosk_text(ks.take(i as int)),
            decreases kiosks@.len() - i,
        {
            let (id, votes) = (&kiosks[i].0, kiosks[i].1);
            string_push_str(&mut line, short_brand(id.as_str()));
            string_push_str(&mut line, ": ");
            push_chars(&mut line, &dec_chars(votes as u128));
            string_push_str(&mut line, "  ");
            assert(ks.take(i + 1).drop_last() =~= ks.take(i as int));
            assert(ks.take(i + 1).last() == (id@, votes));
            assert(line@ =~= head + kiosk_text(ks.take(i + 1)));
            i = i + 1;
        }
        assert(ks.take(kiosks@.len() as int) =~= ks);
        string_push_str(&mut line, "(walk + E to vote) ");
    } else {
        string_push_str(&mut line, "brands: ");
        let ghost mid = line@;
        let mut i: usize = 0;
        assert(bs.take(0) =~= Seq::<Seq<char>>::empty());
        while i < active_brands.len()
            invariant
                i <= active_brands@.len(),
                bs == active_brands@.map_values(|s: String| s@),
                line@ == mid + brand_list(bs.take(i as int)),
            decreases active_brands@.len() - i,
        {
            string_push_str(&mut line, short_brand(active_brands[i].as_str()));
            string_push_str(&mut line, " ");
            assert(bs.take(i + 1).drop_last() =~= bs.take(i as int));
            assert(line@ =~= mid + brand_list(bs.take(i + 1)));
            i = i + 1;
        }
        assert(bs.take(active_brands@.len() as int) =~= bs);
    }
    assert(line@ =~= intermission_text(p, secs, ks, bs));
    let ghost lv = line@;
    assert(cmds_view(cmds@) =~= Seq::<Cmd>::empty());
    push_cmd(&mut cmds, DrawCmd::MoveTo(0, 3));
    push_cmd(&mut cmds, DrawCmd::Fg(Pixel::rgb(255, 235, 150)));
    push_cmd(&mut cmds, DrawCmd::Bg(Pixel::rgb(20, 10, 30)));
    push_cmd(&mut cmds, DrawCmd::Print(line));
    push_cmd(&mut cmds, DrawCmd::ResetColor);
    assert(cmds_view(cmds@) =~= seq![
        Cmd::MoveTo(0, 3),
        Cmd::Fg(Pixel { r: 255, g: 235, b: 150 }),
        Cmd::Bg(strip_bg()),
        Cmd::Print(lv),
        Cmd::ResetColor,
    ]);
    cmds
}


// ----- kiosk labels -----------------------------------------------------

/// A vote kiosk as its label needs it: the terminal cell it stands on
/// (column, row), its brand's name and color, and its votes.
pub struct KioskLabel {
    pub col: i32,
    pub row: i32,
    pub brand_name: String,
    pub votes: u32,
    pub color: Pixel,
}

/// `name (votes)`.
pub open spec fn kiosk_label_text(k: KioskLabel) -> Seq<char> {
    k.brand_name@ + " ("@ + dec(k.votes as nat) + ")"@
}

/// `v / 2`, rounded toward zero.
pub open spec fn half_toward_zero(v: int) -> int {
    if v >= 0 {
        v / 2
    } else {
        -((-v) / 2)
    }
}

/// Half the label's byte length, as an `i32` (the length is taken modulo
/// 2^32 as a signed number, as `as i32` does).
pub open spec fn kiosk_label_half(k: KioskLabel) -> int {
    half_toward_zero((vstd::utf8::encode_utf8(kiosk_label_text(k)).len() as i32) as int)
}

/// The label of one kiosk, three rows above it and centred on it (by
/// the text's byte length), or nothing when that falls off the view.
pub open spec fn kiosk_label_cmds(k: KioskLabel, total_cols: int, total_rows: int) -> Seq<Cmd> {
    let text = kiosk_label_text(k);
    let row = k.row - 3;
    let half = kiosk_label_half(k);
    let start = if k.col - half > 0 {
        k.col - half
    } else {
        0
    };
    if row < 0 || row >= total_rows || start >= total_cols {
        Seq::empty()
    } else {
        seq![
            Cmd::MoveTo(start as u16, row as u16),
            Cmd::Fg(k.color),
            Cmd::Bg(strip_bg()),
            Cmd::Print(text),
            Cmd::ResetColor,
        ]
    }
}

pub open spec fn kiosk_labels(ks: Seq<KioskLabel>, total_cols: int, total_rows: int) -> Seq<Cmd>
    decreases ks.len(),
{
    if ks.len() == 0 {
        Seq::empty()
    } else {
        kiosk_labels(ks.drop_last(), total_cols, total_rows) + kiosk_label_cmds(ks.last(), total_cols, total_rows)
    }
}

/// Brand names over the vote kiosks, for a viewport of
/// `viewport_w` × `viewport_h` pixels (two pixels per terminal column,
/// three per row).
pub fn draw_kiosk_labels(viewport_w: u16, viewport_h: u16, kiosks: &[KioskLabel]) -> (cmds: Vec<DrawCmd>)
    requires
        forall|i: int| 0 <= i < kiosks@.len() ==> i32::MIN + 3 <= #[trigger] kiosks@[i].row,
        forall|i: int|
            0 <= i < kiosks@.len() ==> i32::MIN <= #[trigger] kiosks@[i].col - kiosk_label_half(kiosks@[i]) <= i32::MAX,
    ensures
        cmds_view(cmds@) == kiosk_labels(kiosks@, viewport_w as int / 2, viewport_h as int / 3),
{
    let total_cols = viewport_w / 2;
    let total_rows = viewport_h / 3;
    let mut cmds: Vec<DrawCmd> = Vec::new();
    let mut i: usize = 0;
    assert(kiosks@.take(0) =~= Seq::<KioskLabel>::empty());
    assert(cmds_view(cmds@) =~= Seq::<Cmd>::empty());
    while i < kiosks.len()
        invariant
            i <= kiosks@.len(),
            total_cols == viewport_w / 2,
            total_rows == viewport_h / 3,
            forall|j: int| 0 <= j < kiosks@.len() ==> i32::MIN + 3 <= #[trigger] kiosks@[j].row,
            forall|j: int|
                0 <= j < kiosks@.len() ==> i32::MIN <= #[trigger] kiosks@[j].col - kiosk_label_half(kiosks@[j]) <= i32::MAX,
            cmds_view(cmds@) == kiosk_labels(kiosks@.take(i as int), total_cols as int, total_rows as int),
        decreases kiosks@.len() - i,
    {
        let k = &kiosks[i];
        let ghost before = cmds_view(cmds@);
        let mut text = String::new();
        string_push_str(&mut text, k.brand_name.as_str());
        string_push_str(&mut text, " (");
        push_chars(&mut text, &dec_chars(k.votes as u128));
        string_push_str(&mut text, ")");
        assert(text@ =~= kiosk_label_text(*k));
        let row: i32 = k.row - 3;
        let bytes = text.as_str().as_bytes();
        let nbytes = bytes.len();
        assert(nbytes == vstd::utf8::encode_utf8(text@).len());
        let len32: i32 = nbytes as i32;
        let half: i32 = len32 / 2;
        assert(half == kiosk_label_half(*k));
        assert(i32::MIN <= k.col - half);
        let start: i32 = if k.col > half {
            k.col - half
        } else {
            0
        };
        if !(row < 0 || row >= total_rows as i32 || start >= total_cols as i32) {
            push_cmd(&mut cmds, DrawCmd::MoveTo(start as u16, row as u16));
            push_cmd(&mut cmds, DrawCmd::Fg(k.color));
            push_cmd(&mut cmds, DrawCmd::Bg(Pixel::rgb(20, 10, 30)));
            let ghost tv = text@;
            push_cmd(&mut cmds, DrawCmd::Print(text));
            push_cmd(&mut cmds, DrawCmd::ResetColor);
            assert(cmds_view(cmds@) =~= before + kiosk_label_cmds(*k, total_cols as int, total_rows as int));
        } else {
            assert(kiosk_label_cmds(*k, total_cols as int, total_rows as int) =~= Seq::<Cmd>::empty());
            assert(cmds_view(cmds@) =~= before + kiosk_label_cmds(*k, total_cols as int, total_rows as int));
        }
        assert(kiosks@.take(i + 1).drop_last() =~= kiosks@.take(i as int));
        i = i + 1;
    }
    assert(kiosks@.take(kiosks@.len() as int) =~= kiosks@);
    cmds
}

} // verus!
