//! Procedural pixel sprites, stamped into the framebuffer.
//!
//! Each sprite is a small grid of optional pixels; `None` is transparent
//! so silhouettes render cleanly over terrain. Sprites are centered on
//! entity positions and the blit clips at the buffer's edges.
//!
//! Overlays (`SpriteOverlay`) are a second, sprite-local layer: holes
//! that suppress base pixels (damaged corpses) and stains painted on top.
use crate::enemy::Archetype;
use crate::fb::{Framebuffer, Pixel};
use crate::sprite_art::{
    player_body_art,
    player_body_palette,
    rusher_art,
    rusher_palette,
    pinkie_art,
    pinkie_palette,
    charger_art,
    charger_palette,
    revenant_art,
    revenant_palette,
    marksman_art,
    marksman_palette,
    pmc_art,
    pmc_palette,
    swarmling_art,
    swarmling_palette,
    orb_art,
    orb_palette,
    eater_art,
    eater_palette,
    breacher_art,
    breacher_palette,
    leaper_art,
    leaper_palette,
    rocketeer_art,
    rocketeer_palette,
    sapper_art,
    sapper_palette,
    juggernaut_art,
    juggernaut_palette,
    howler_art,
    howler_palette,
    sentinel_art,
    sentinel_palette,
    splitter_art,
    splitter_palette,
    killa_art,
    killa_palette,
    zergling_art,
    zergling_palette,
    floodling_art,
    floodling_palette,
    flood_art,
    flood_palette,
    flood_carrier_art,
    flood_carrier_palette,
    miniboss_art,
    miniboss_palette,
};
use vstd::arithmetic::div_mod::{lemma_fundamental_div_mod, lemma_mod_multiples_vanish, lemma_small_mod};
use vstd::prelude::*;

verus! {

/// Sprite-local decoration: pixels to suppress and pixels painted over.
pub struct SpriteOverlay {
    pub holes: Vec<(u16, u16)>,
    pub stains: Vec<(u16, u16, Pixel)>,
}

impl SpriteOverlay {
    pub fn new() -> (o: Self)
        ensures
            o.holes@ == Seq::<(u16, u16)>::empty(),
            o.stains@ == Seq::<(u16, u16, Pixel)>::empty(),
    {
        SpriteOverlay { holes: Vec::new(), stains: Vec::new() }
    }

    /// Suppress the base pixel at `(x, y)`.
    pub fn punch(&mut self, x: u16, y: u16)
        ensures
            final(self).holes@ == old(self).holes@.push((x, y)),
            final(self).stains@ == old(self).stains@,
    {
        self.holes.push((x, y));
    }

    /// Paint `color` over `(x, y)`.
    pub fn stain(&mut self, x: u16, y: u16, color: Pixel)
        ensures
            final(self).stains@ == old(self).stains@.push((x, y, color)),
            final(self).holes@ == old(self).holes@,
    {
        self.stains.push((x, y, color));
    }

    pub fn is_hole(&self, x: u16, y: u16) -> (b: bool)
        ensures
            b == self.holes@.contains((x, y)),
    {
        let mut i: usize = 0;
        while i < self.holes.len()
            invariant
                i <= self.holes@.len(),
                forall|j: int| 0 <= j < i ==> self.holes@[j] != (x, y),
            decreases self.holes@.len() - i,
        {
            let (hx, hy) = self.holes[i];
            if hx == x && hy == y {
                assert(self.holes@[i as int] == (x, y));
                return true;
            }
            i = i + 1;
        }
        false
    }
}

/// A `w` × `h` grid of optional pixels, row-major.
pub struct Sprite {
    pub w: u16,
    pub h: u16,
    pixels: Vec<Option<Pixel>>,
}

/// The pixel a picture shows at `(x, y)`: `rows[y][x]` is a palette
/// index, `0` for transparent and `k > 0` for `palette[k - 1]`.
pub open spec fn art_pixel(rows: Seq<Seq<u8>>, palette: Seq<Pixel>, x: int, y: int) -> Option<Pixel> {
    let k = rows[y][x];
    if k == 0 {
        None
    } else {
        Some(palette[k - 1])
    }
}

/// End of the span `start .. start + len` (saturating at 65535), clipped
/// to `limit`.
pub open spec fn clip_end(start: u16, len: u16, limit: u16) -> int {
    let e = if start + len > 0xFFFF {
        0xFFFF
    } else {
        start + len
    };
    if e < limit {
        e
    } else {
        limit as int
    }
}

/// Integer tint toward `t` by 55%: `a + (t - a) * 0.55`, rounded half
/// away from zero (exactly what the float blend gives on every byte pair).
pub open spec fn tint55(a: u8, t: u8) -> u8 {
    ((9 * a + 11 * t + 10) / 20) as u8
}

pub open spec fn tint55_pixel(c: Pixel, t: Pixel) -> Pixel {
    Pixel { r: tint55(c.r, t.r), g: tint55(c.g, t.g), b: tint55(c.b, t.b) }
}

proof fn lemma_sprite_index(x: int, y: int, w: int, h: int)
    requires
        0 <= x < w,
        0 <= y < h,
        w <= 65535,
        h <= 65535,
    ensures
        0 <= y * w + x < w * h,
        w * h <= 65535 * 65535,
{
    assert(y * w + x < w * h) by (nonlinear_arith)
        requires
            0 <= x < w,
            0 <= y < h,
    ;
    assert(0 <= y * w) by (nonlinear_arith)
        requires
            0 <= y,
            0 <= w,
    ;
    assert(w * h <= 65535 * 65535) by (nonlinear_arith)
        requires
            0 <= w <= 65535,
            0 <= h <= 65535,
    ;
}

proof fn lemma_sprite_index_distinct(a: int, b: int, x: int, y: int, w: int)
    requires
        0 <= a < w,
        0 <= x < w,
        0 <= b,
        0 <= y,
        !(a == x && b == y),
    ensures
        b * w + a != y * w + x,
{
    if b < y {
        assert(b * w + w <= y * w) by (nonlinear_arith)
            requires
                b < y,
                0 <= w,
        ;
    } else if b > y {
        assert(y * w + w <= b * w) by (nonlinear_arith)
            requires
                y < b,
                0 <= w,
        ;
    }
}

impl Sprite {
    /// The pixel store matches the dimensions.
    pub closed spec fn wf(&self) -> bool {
        self.pixels@.len() == self.w as int * self.h as int
    }

    /// The pixel at an in-bounds position (`None` is transparent).
    pub closed spec fn pixel(&self, x: int, y: int) -> Option<Pixel> {
        self.pixels@[y * self.w + x]
    }

    /// Width, as a number.
    pub closed spec fn sw(&self) -> int {
        self.w as int
    }

    /// Height, as a number.
    pub closed spec fn sh(&self) -> int {
        self.h as int
    }

    pub open spec fn in_bounds(&self, x: int, y: int) -> bool {
        0 <= x < self.sw() && 0 <= y < self.sh()
    }

    /// The two sprites have the same size and the same pixels.
    pub open spec fn same_picture(&self, other: Sprite) -> bool {
        &&& self.wf() == other.wf()
        &&& self.sw() == other.sw()
        &&& self.sh() == other.sh()
        &&& forall|x: int, y: int| self.in_bounds(x, y) ==> #[trigger] self.pixel(x, y) == other.pixel(x, y)
    }

    /// A copy of the sprite.
    fn copied(&self) -> (s: Sprite)
        ensures
            s.same_picture(*self),
    {
        let mut pixels: Vec<Option<Pixel>> = Vec::new();
        let mut i: usize = 0;
        while i < self.pixels.len()
            invariant
                i <= self.pixels@.len(),
                pixels@ == self.pixels@.take(i as int),
            decreases self.pixels@.len() - i,
        {
            pixels.push(self.pixels[i]);
            i = i + 1;
            assert(pixels@ =~= self.pixels@.take(i as int));
        }
        assert(pixels@ =~= self.pixels@);
        Sprite { w: self.w, h: self.h, pixels }
    }

    /// The sprite is exactly the picture `rows` over `palette`: one row
    /// per line of the sprite, each as wide as the sprite.
    pub open spec fn shows(&self, rows: Seq<Seq<u8>>, palette: Seq<Pixel>) -> bool {
        &&& self.wf()
        &&& self.sh() == rows.len()
        &&& forall|y: int| 0 <= y < rows.len() ==> #[trigger] rows[y].len() == self.sw()
        &&& forall|x: int, y: int|
            self.in_bounds(x, y) ==> #[trigger] self.pixel(x, y) == art_pixel(rows, palette, x, y)
    }

    /// A fully transparent sprite.
    pub fn new(w: u16, h: u16) -> (s: Self)
        ensures
            s.wf(),
            s.sw() == w,
            s.sh() == h,
            forall|x: int, y: int| s.in_bounds(x, y) ==> #[trigger] s.pixel(x, y) is None,
    {
        proof {
            assert(w as int * h as int <= 65535 * 65535) by (nonlinear_arith)
                requires
                    w <= 65535,
                    h <= 65535,
            ;
        }
        let n: usize = (w as usize) * (h as usize);
        let mut pixels: Vec<Option<Pixel>> = Vec::new();
        let mut i: usize = 0;
        while i < n
            invariant
                i <= n,
                pixels@.len() == i,
                forall|j: int| 0 <= j < i ==> pixels@[j] is None,
            decreases n - i,
        {
            pixels.push(None);
            i = i + 1;
        }
        let s = Sprite { w, h, pixels };
        assert forall|x: int, y: int| s.in_bounds(x, y) implies #[trigger] s.pixel(x, y) is None by {
            lemma_sprite_index(x, y, w as int, h as int);
        }
        s
    }

    /// Paint one pixel; positions outside the sprite are ignored.
    pub fn set(&mut self, x: u16, y: u16, color: Pixel)
        requires
            old(self).wf(),
        ensures
            final(self).wf(),
            final(self).sw() == old(self).sw(),
            final(self).sh() == old(self).sh(),
            forall|a: int, b: int|
                final(self).in_bounds(a, b) ==> #[trigger] final(self).pixel(a, b) == (if a == x && b
                    == y {
                    Some(color)
                } else {
                    old(self).pixel(a, b)
                }),
    {
        if x >= self.w || y >= self.h {
            return;
        }
        proof {
            lemma_sprite_index(x as int, y as int, self.w as int, self.h as int);
        }
        let idx = (y as usize) * (self.w as usize) + (x as usize);
        self.pixels.set(idx, Some(color));
        proof {
            assert forall|a: int, b: int| self.in_bounds(a, b) implies #[trigger] self.pixel(a, b) == (if a
                == x && b == y {
                Some(color)
            } else {
                old(self).pixel(a, b)
            }) by {
                lemma_sprite_index(a, b, self.w as int, self.h as int);
                if !(a == x && b == y) {
                    lemma_sprite_index_distinct(a, b, x as int, y as int, self.w as int);
                }
            }
        }
    }

    /// Fill the rectangle at `(x, y)` of size `w` × `h`, clipped to the
    /// sprite.
    pub fn fill_rect(&mut self, x: u16, y: u16, w: u16, h: u16, color: Pixel)
        requires
            old(self).wf(),
        ensures
            final(self).wf(),
            final(self).sw() == old(self).sw(),
            final(self).sh() == old(self).sh(),
            forall|a: int, b: int|
                final(self).in_bounds(a, b) ==> #[trigger] final(self).pixel(a, b) == (if x <= a < x
                    + w && y <= b < y + h {
                    Some(color)
                } else {
                    old(self).pixel(a, b)
                }),
    {
        let x1: u16 = if x as u32 + w as u32 > 0xFFFF {
            0xFFFF
        } else {
            x + w
        };
        let x1: u16 = if x1 < self.w {
            x1
        } else {
            self.w
        };
        let y1: u16 = if y as u32 + h as u32 > 0xFFFF {
            0xFFFF
        } else {
            y + h
        };
        let y1: u16 = if y1 < self.h {
            y1
        } else {
            self.h
        };
        let mut yy: u16 = y;
        while yy < y1
            invariant
                self.wf(),
                self.sw() == old(self).sw(),
                self.sh() == old(self).sh(),
                self.sw() == self.w,
                self.sh() == self.h,
                y1 <= self.h,
                x1 <= self.w,
                x1 as int == clip_end(x, w, self.w),
                y1 as int == clip_end(y, h, self.h),
                y <= yy,
                y < y1 ==> yy <= y1,
                y1 <= y ==> yy == y,
                forall|a: int, b: int|
                    self.in_bounds(a, b) ==> #[trigger] self.pixel(a, b) == (if x <= a < x1 && y <= b
                        < yy {
                        Some(color)
                    } else {
                        old(self).pixel(a, b)
                    }),
            decreases y1 - yy,
        {
            let ghost row_start = *self;
            let mut xx: u16 = x;
            while xx < x1
                invariant
                    self.wf(),
                    self.sw() == old(self).sw(),
                    self.sh() == old(self).sh(),
                    self.sw() == self.w,
                    self.sh() == self.h,
                    x1 <= self.w,
                    yy < y1,
                    y1 <= self.h,
                    x <= xx,
                    x < x1 ==> xx <= x1,
                    x1 <= x ==> xx == x,
                    forall|a: int, b: int|
                        self.in_bounds(a, b) ==> #[trigger] self.pixel(a, b) == (if x <= a < xx && b
                            == yy {
                            Some(color)
                        } else {
                            row_start.pixel(a, b)
                        }),
                decreases x1 - xx,
            {
                self.set(xx, yy, color);
                xx = xx + 1;
            }
            proof {
                assert forall|a: int, b: int| self.in_bounds(a, b) implies #[trigger] self.pixel(a, b) == (if x <= a
                    < x1 && y <= b < yy + 1 {
                    Some(color)
                } else {
                    old(self).pixel(a, b)
                }) by {
                    assert((x <= a < xx) == (x <= a < x1));
                    assert(row_start.pixel(a, b) == (if x <= a < x1 && y <= b < yy {
                        Some(color)
                    } else {
                        old(self).pixel(a, b)
                    }));
                }
            }
            yy = yy + 1;
        }
        proof {
            assert forall|a: int, b: int| self.in_bounds(a, b) implies #[trigger] self.pixel(a, b) == (if x <= a
                < x + w && y <= b < y + h {
                Some(color)
            } else {
                old(self).pixel(a, b)
            }) by {
                assert(a < self.w && b < self.h);
                assert((y <= b < yy) == (y <= b < y + h));
                assert((x <= a < x1) == (x <= a < x + w));
            }
        }
    }

    /// Blend every opaque pixel 55% of the way toward `target`.
    fn tint55(&mut self, target: Pixel)
        requires
            old(self).wf(),
        ensures
            final(self).wf(),
            final(self).sw() == old(self).sw(),
            final(self).sh() == old(self).sh(),
            forall|a: int, b: int|
                final(self).in_bounds(a, b) ==> #[trigger] final(self).pixel(a, b) == match old(
                    self,
                ).pixel(a, b) {
                    Some(c) => Some(tint55_pixel(c, target)),
                    None => None,
                },
    {
        let n = self.pixels.len();
        let mut i: usize = 0;
        while i < n
            invariant
                n == self.pixels@.len(),
                self.w == old(self).w,
                self.h == old(self).h,
                self.pixels@.len() == old(self).pixels@.len(),
                i <= n,
                forall|j: int|
                    0 <= j < n ==> #[trigger] self.pixels@[j] == (if j < i {
                        match old(self).pixels@[j] {
                            Some(c) => Some(tint55_pixel(c, target)),
                            None => None,
                        }
                    } else {
                        old(self).pixels@[j]
                    }),
            decreases n - i,
        {
            match self.pixels[i] {
                Some(c) => {
                    let t = Pixel::rgb(
                        ((9 * c.r as u32 + 11 * target.r as u32 + 10) / 20) as u8,
                        ((9 * c.g as u32 + 11 * target.g as u32 + 10) / 20) as u8,
                        ((9 * c.b as u32 + 11 * target.b as u32 + 10) / 20) as u8,
                    );
                    self.pixels.set(i, Some(t));
                },
                None => {},
            }
            i = i + 1;
        }
        proof {
            assert forall|a: int, b: int| self.in_bounds(a, b) implies #[trigger] self.pixel(a, b) == match old(
                self,
            ).pixel(a, b) {
                Some(c) => Some(tint55_pixel(c, target)),
                None => None,
            } by {
                lemma_sprite_index(a, b, self.w as int, self.h as int);
            }
        }
    }

    /// Draw the sprite centered on `(cx, cy)` at 1:1 scale. Opaque sprite
    /// pixel `(sx, sy)` lands on screen position `(ox + sx, oy + sy)`,
    /// `ox = cx - w/2`, `oy = cy - h/2`, when both are non-negative; the
    /// position is taken modulo 65536 as the framebuffer's `u16`
    /// coordinates, and the framebuffer ignores positions outside it.
    pub fn blit(&self, fb: &mut Framebuffer, cx: i32, cy: i32)
        requires
            self.wf(),
            cx - self.sw() / 2 + self.sw() <= i32::MAX,
            cy - self.sh() / 2 + self.sh() <= i32::MAX,
            cx - self.sw() / 2 >= i32::MIN,
            cy - self.sh() / 2 >= i32::MIN,
        ensures
            final(fb).spec_width() == old(fb).spec_width(),
            final(fb).spec_height() == old(fb).spec_height(),
            forall|x: int, y: int|
                final(fb).in_bounds(x, y) ==> #[trigger] final(fb).at(x, y) == blit_at(
                    *self,
                    *old(fb),
                    cx - self.sw() / 2,
                    cy - self.sh() / 2,
                    x,
                    y,
                ),
    {
        let ox: i32 = cx - (self.w / 2) as i32;
        let oy: i32 = cy - (self.h / 2) as i32;
        let ghost start = *fb;
        let mut sy: u16 = 0;
        while sy < self.h
            invariant
                self.wf(),
                sy <= self.h,
                ox as int == cx - self.w / 2,
                oy as int == cy - self.h / 2,
                ox + self.w <= i32::MAX,
                oy + self.h <= i32::MAX,
                fb.spec_width() == start.spec_width(),
                fb.spec_height() == start.spec_height(),
                forall|x: int, y: int|
                    fb.in_bounds(x, y) ==> #[trigger] fb.at(x, y) == blit_upto(*self, start, ox as int, oy as int, x, y, sy as int, 0),
            decreases self.h - sy,
        {
            let mut sx: u16 = 0;
            while sx < self.w
                invariant
                    self.wf(),
                    sy < self.h,
                    sx <= self.w,
                    ox + self.w <= i32::MAX,
                    oy + self.h <= i32::MAX,
                    fb.spec_width() == start.spec_width(),
                    fb.spec_height() == start.spec_height(),
                    forall|x: int, y: int|
                        fb.in_bounds(x, y) ==> #[trigger] fb.at(x, y) == blit_upto(*self, start, ox as int, oy as int, x, y, sy as int, sx as int),
                decreases self.w - sx,
            {
                proof {
                    lemma_sprite_index(sx as int, sy as int, self.w as int, self.h as int);
                }
                let idx = (sy as usize) * (self.w as usize) + (sx as usize);
                match self.pixels[idx] {
                    Some(color) => {
                        let px: i32 = ox + sx as i32;
                        let py: i32 = oy + sy as i32;
                        if px >= 0 && py >= 0 {
                            let ux = (px % 65536) as u16;
                            let uy = (py % 65536) as u16;
                            let ghost before = *fb;
                            fb.set(ux, uy, color);
                            proof {
                                assert forall|x: int, y: int| fb.in_bounds(x, y) implies #[trigger] fb.at(x, y)
                                    == blit_upto(*self, start, ox as int, oy as int, x, y, sy as int, sx + 1) by {
                                    fb.lemma_dims();
                                    lemma_blit_step(*self, start, ox as int, oy as int, x, y, sy as int, sx as int);
                                    assert(before.at(x, y) == blit_upto(*self, start, ox as int, oy as int, x, y, sy as int, sx as int));
                                    assert(ux as int == (ox + sx) % 65536);
                                    assert(uy as int == (oy + sy) % 65536);
                                }
                            }
                        } else {
                            proof {
                                assert forall|x: int, y: int| fb.in_bounds(x, y) implies #[trigger] fb.at(x, y)
                                    == blit_upto(*self, start, ox as int, oy as int, x, y, sy as int, sx + 1) by {
                                    fb.lemma_dims();
                                    lemma_blit_step(*self, start, ox as int, oy as int, x, y, sy as int, sx as int);
                                }
                            }
                        }
                    },
                    None => {
                        proof {
                            assert forall|x: int, y: int| fb.in_bounds(x, y) implies #[trigger] fb.at(x, y)
                                == blit_upto(*self, start, ox as int, oy as int, x, y, sy as int, sx + 1) by {
                                fb.lemma_dims();
                                lemma_blit_step(*self, start, ox as int, oy as int, x, y, sy as int, sx as int);
                            }
                        }
                    },
                }
                sx = sx + 1;
            }
            proof {
                assert forall|x: int, y: int| fb.in_bounds(x, y) implies #[trigger] fb.at(x, y) == blit_upto(
                    *self,
                    start,
                    ox as int,
                    oy as int,
                    x,
                    y,
                    sy + 1,
                    0,
                ) by {
                    lemma_blit_row_done(*self, start, ox as int, oy as int, x, y, sy as int);
                }
            }
            sy = sy + 1;
        }
        proof {
            assert forall|x: int, y: int| fb.in_bounds(x, y) implies #[trigger] fb.at(x, y) == blit_at(
                *self,
                start,
                ox as int,
                oy as int,
                x,
                y,
            ) by {
                lemma_blit_done(*self, start, ox as int, oy as int, x, y);
            }
        }
    }
}

/// The sprite column (or row) that lands on screen coordinate `x` when the
/// sprite's origin is at `o`: the offset `(x - o)` modulo 65536.
pub open spec fn src_offset(o: int, x: int) -> int {
    (x - o) % 65536
}

/// Whether sprite pixel `(sx, sy)` is drawn at screen `(x, y)` for origin
/// `(ox, oy)`.
pub open spec fn lands(s: Sprite, ox: int, oy: int, x: int, y: int, sx: int, sy: int) -> bool {
    &&& sx == src_offset(ox, x)
    &&& sy == src_offset(oy, y)
    &&& sx < s.sw()
    &&& sy < s.sh()
    &&& ox + sx >= 0
    &&& oy + sy >= 0
    &&& s.pixel(sx, sy) is Some
}

/// Screen pixel `(x, y)` after a full blit with origin `(ox, oy)`.
pub open spec fn blit_at(s: Sprite, fb: Framebuffer, ox: int, oy: int, x: int, y: int) -> Pixel {
    let sx = src_offset(ox, x);
    let sy = src_offset(oy, y);
    if lands(s, ox, oy, x, y, sx, sy) {
        s.pixel(sx, sy)->0
    } else {
        fb.at(x, y)
    }
}

/// Screen pixel `(x, y)` once the rows before `row` and the first `col`
/// pixels of row `row` are drawn.
pub open spec fn blit_upto(s: Sprite, fb: Framebuffer, ox: int, oy: int, x: int, y: int, row: int, col: int) -> Pixel {
    let sx = src_offset(ox, x);
    let sy = src_offset(oy, y);
    if lands(s, ox, oy, x, y, sx, sy) && (sy < row || (sy == row && sx < col)) {
        s.pixel(sx, sy)->0
    } else {
        fb.at(x, y)
    }
}

/// A screen coordinate `x` (in `0..65536`) is the landing spot of offset
/// `s` from origin `o` exactly when `s` is `x`'s offset from `o`.
proof fn lemma_landing(o: int, s: int, x: int)
    requires
        0 <= s < 65536,
        0 <= x < 65536,
    ensures
        (src_offset(o, x) == s) <==> (x == (o + s) % 65536),
{
    let m: int = 65536;
    let a = x - o;
    let b = o + s;
    lemma_fundamental_div_mod(a, m);
    lemma_fundamental_div_mod(b, m);
    lemma_small_mod(x as nat, m as nat);
    lemma_small_mod(s as nat, m as nat);
    if a % m == s {
        let q = a / m;
        assert(b == m * (-q) + x);
        lemma_mod_multiples_vanish(-q, x, m);
    }
    if x == b % m {
        let q = b / m;
        assert(a == m * (-q) + s);
        lemma_mod_multiples_vanish(-q, s, m);
    }
}

proof fn lemma_blit_step(s: Sprite, fb: Framebuffer, ox: int, oy: int, x: int, y: int, row: int, col: int)
    requires
        s.wf(),
        0 <= row < s.sh(),
        0 <= col < s.sw(),
        0 <= x < 65536,
        0 <= y < 65536,
    ensures
        ({
            let target_x = (ox + col) % 65536;
            let target_y = (oy + row) % 65536;
            let drawn = ox + col >= 0 && oy + row >= 0 && s.pixel(col, row) is Some;
            blit_upto(s, fb, ox, oy, x, y, row, col + 1) == if drawn && x == target_x && y == target_y {
                s.pixel(col, row)->0
            } else {
                blit_upto(s, fb, ox, oy, x, y, row, col)
            }
        }),
{
    lemma_landing(ox, col, x);
    lemma_landing(oy, row, y);
}

proof fn lemma_blit_row_done(s: Sprite, fb: Framebuffer, ox: int, oy: int, x: int, y: int, row: int)
    ensures
        blit_upto(s, fb, ox, oy, x, y, row, s.sw()) == blit_upto(s, fb, ox, oy, x, y, row + 1, 0),
{
}

proof fn lemma_blit_done(s: Sprite, fb: Framebuffer, ox: int, oy: int, x: int, y: int)
    ensures
        blit_upto(s, fb, ox, oy, x, y, s.sh(), 0) == blit_at(s, fb, ox, oy, x, y),
{
}

/// Paint position `(px, py)` (taken modulo 65536 as the framebuffer's
/// coordinates) when both are non-negative.
pub open spec fn hits(px: int, py: int, x: int, y: int) -> bool {
    px >= 0 && py >= 0 && x == px % 65536 && y == py % 65536
}

fn stamp(fb: &mut Framebuffer, px: i32, py: i32, color: Pixel)
    ensures
        final(fb).spec_width() == old(fb).spec_width(),
        final(fb).spec_height() == old(fb).spec_height(),
        forall|x: int, y: int|
            final(fb).in_bounds(x, y) ==> #[trigger] final(fb).at(x, y) == (if hits(px as int, py as int, x, y) {
                color
            } else {
                old(fb).at(x, y)
            }),
{
    if px >= 0 && py >= 0 {
        fb.set((px % 65536) as u16, (py % 65536) as u16, color);
    }
}

/// Cell `k` (row-major) of the 3×3 blob centered on `(cx, cy)` lands on
/// `(x, y)`.
pub open spec fn blob_hit(cx: int, cy: int, x: int, y: int, k: int) -> bool {
    hits(cx + k % 3 - 1, cy + k / 3 - 1, x, y)
}

pub open spec fn blob_covers(cx: int, cy: int, x: int, y: int, n: int) -> bool {
    exists|k: int| 0 <= k < n && #[trigger] blob_hit(cx, cy, x, y, k)
}

/// Low-detail mip: a 3×3 block of `color` centered on the position.
pub fn render_blob(fb: &mut Framebuffer, center: (i32, i32), color: Pixel)
    requires
        i32::MIN < center.0 < i32::MAX,
        i32::MIN < center.1 < i32::MAX,
    ensures
        final(fb).spec_width() == old(fb).spec_width(),
        final(fb).spec_height() == old(fb).spec_height(),
        forall|x: int, y: int|
            final(fb).in_bounds(x, y) ==> #[trigger] final(fb).at(x, y) == (if blob_covers(
                center.0 as int,
                center.1 as int,
                x,
                y,
                9,
            ) {
                color
            } else {
                old(fb).at(x, y)
            }),
{
    let ghost start = *fb;
    let mut k: i32 = 0;
    while k < 9
        invariant
            0 <= k <= 9,
            i32::MIN < center.0 < i32::MAX,
            i32::MIN < center.1 < i32::MAX,
            fb.spec_width() == start.spec_width(),
            fb.spec_height() == start.spec_height(),
            forall|x: int, y: int|
                fb.in_bounds(x, y) ==> #[trigger] fb.at(x, y) == (if blob_covers(
                    center.0 as int,
                    center.1 as int,
                    x,
                    y,
                    k as int,
                ) {
                    color
                } else {
                    start.at(x, y)
                }),
        decreases 9 - k,
    {
        let ghost before = *fb;
        stamp(fb, center.0 + (k % 3 - 1), center.1 + (k / 3 - 1), color);
        proof {
            assert forall|x: int, y: int| fb.in_bounds(x, y) implies #[trigger] fb.at(x, y) == (if blob_covers(
                center.0 as int,
                center.1 as int,
                x,
                y,
                k + 1,
            ) {
                color
            } else {
                start.at(x, y)
            }) by {
                assert(before.in_bounds(x, y));
                if blob_hit(center.0 as int, center.1 as int, x, y, k as int) {
                    assert(blob_covers(center.0 as int, center.1 as int, x, y, k + 1));
                } else {
                    if blob_covers(center.0 as int, center.1 as int, x, y, k + 1) {
                        let j = choose|j: int| 0 <= j < k + 1 && #[trigger] blob_hit(center.0 as int, center.1 as int, x, y, j);
                        assert(j < k);
                        assert(blob_covers(center.0 as int, center.1 as int, x, y, k as int));
                    }
                    if blob_covers(center.0 as int, center.1 as int, x, y, k as int) {
                        let j = choose|j: int| 0 <= j < k && #[trigger] blob_hit(center.0 as int, center.1 as int, x, y, j);
                        assert(blob_covers(center.0 as int, center.1 as int, x, y, k + 1));
                    }
                }
            }
        }
        k = k + 1;
    }
}

/// Lowest mip: one pixel of `color` at the position.
pub fn render_dot(fb: &mut Framebuffer, center: (i32, i32), color: Pixel)
    ensures
        final(fb).spec_width() == old(fb).spec_width(),
        final(fb).spec_height() == old(fb).spec_height(),
        forall|x: int, y: int|
            final(fb).in_bounds(x, y) ==> #[trigger] final(fb).at(x, y) == (if hits(center.0 as int, center.1 as int, x, y) {
                color
            } else {
                old(fb).at(x, y)
            }),
{
    stamp(fb, center.0, center.1, color);
}

pub open spec fn hastur_sign() -> Pixel {
    Pixel { r: 255, g: 220, b: 80 }
}

pub open spec fn hastur_glow() -> Pixel {
    Pixel { r: 255, g: 180, b: 40 }
}

/// The glow ring: five dots at `cy - 7`, from `cx - 2` to `cx + 2`.
pub open spec fn ring_covers(cx: int, cy: int, x: int, y: int) -> bool {
    exists|d: int| -2 <= d <= 2 && #[trigger] hits(cx + d, cy - 7, x, y)
}

/// The Yellow Sign "Y" crown: drawn only when `cx` and `cy - 9` are
/// non-negative; its left arm only when `cx >= 2`.
pub open spec fn crown_covers(cx: int, cy: int, x: int, y: int) -> bool {
    let top = cy - 9;
    cx >= 0 && top >= 0 && (hits(cx, top, x, y) || (cx >= 2 && hits(cx - 2, top + 1, x, y)) || hits(
        cx + 2,
        top + 1,
        x,
        y,
    ) || hits(cx, top + 2, x, y))
}

/// Hastur's gaze halo above a marked player: a ring of glow dots and the
/// Yellow Sign over the head (the sign drawn last, over the ring).
pub fn render_hastur_mark(fb: &mut Framebuffer, cx: i32, cy: i32)
    requires
        cx <= i32::MAX - 2,
        cx >= i32::MIN + 2,
        cy >= i32::MIN + 9,
    ensures
        final(fb).spec_width() == old(fb).spec_width(),
        final(fb).spec_height() == old(fb).spec_height(),
        forall|x: int, y: int|
            final(fb).in_bounds(x, y) ==> #[trigger] final(fb).at(x, y) == (if crown_covers(cx as int, cy as int, x, y) {
                hastur_sign()
            } else if ring_covers(cx as int, cy as int, x, y) {
                hastur_glow()
            } else {
                old(fb).at(x, y)
            }),
{
    let sign = Pixel::rgb(255, 220, 80);
    let glow = Pixel::rgb(255, 180, 40);
    let ghost start = *fb;
    let mut d: i32 = -2;
    while d <= 2
        invariant
            -2 <= d <= 3,
            cx <= i32::MAX - 2,
            cx >= i32::MIN + 2,
            cy >= i32::MIN + 9,
            glow == hastur_glow(),
            fb.spec_width() == start.spec_width(),
            fb.spec_height() == start.spec_height(),
            forall|x: int, y: int|
                fb.in_bounds(x, y) ==> #[trigger] fb.at(x, y) == (if exists|e: int| -2 <= e < d && #[trigger] hits(cx + e, cy - 7, x, y) {
                    glow
                } else {
                    start.at(x, y)
                }),
        decreases 3 - d,
    {
        let ghost before = *fb;
        stamp(fb, cx + d, cy - 7, glow);
        proof {
            assert forall|x: int, y: int| fb.in_bounds(x, y) implies #[trigger] fb.at(x, y) == (if exists|e: int| -2 <= e < d + 1 && #[trigger] hits(cx + e, cy - 7, x, y) {
                glow
            } else {
                start.at(x, y)
            }) by {
                assert(before.in_bounds(x, y));
                if hits(cx + d, cy - 7, x, y) {
                } else {
                    if exists|e: int| -2 <= e < d + 1 && #[trigger] hits(cx + e, cy - 7, x, y) {
                        let e = choose|e: int| -2 <= e < d + 1 && #[trigger] hits(cx + e, cy - 7, x, y);
                        assert(e < d);
                    }
                }
            }
        }
        d = d + 1;
    }
    let ghost ring = *fb;
    let top = cy - 9;
    if cx >= 0 && top >= 0 {
        stamp(fb, cx, top, sign);
        if cx >= 2 {
            stamp(fb, cx - 2, top + 1, sign);
        }
        stamp(fb, cx + 2, top + 1, sign);
        stamp(fb, cx, top + 2, sign);
    }
    proof {
        assert forall|x: int, y: int| fb.in_bounds(x, y) implies #[trigger] fb.at(x, y) == (if crown_covers(cx as int, cy as int, x, y) {
            hastur_sign()
        } else if ring_covers(cx as int, cy as int, x, y) {
            hastur_glow()
        } else {
            start.at(x, y)
        }) by {
            assert(ring.in_bounds(x, y));
            assert(ring.at(x, y) == (if exists|e: int| -2 <= e < 3 && #[trigger] hits(cx + e, cy - 7, x, y) {
                glow
            } else {
                start.at(x, y)
            }));
            if ring_covers(cx as int, cy as int, x, y) {
                let e = choose|e: int| -2 <= e <= 2 && #[trigger] hits(cx + e, cy - 7, x, y);
                assert(-2 <= e < 3 && hits(cx + e, cy - 7, x, y));
            }
            if exists|e: int| -2 <= e < 3 && #[trigger] hits(cx + e, cy - 7, x, y) {
                let e = choose|e: int| -2 <= e < 3 && #[trigger] hits(cx + e, cy - 7, x, y);
                assert(ring_covers(cx as int, cy as int, x, y));
            }
        }
    }
}


/// Every palette entry blended 55% of the way toward `target`.
pub open spec fn tinted(palette: Seq<Pixel>, target: Pixel) -> Seq<Pixel> {
    palette.map_values(|c: Pixel| tint55_pixel(c, target))
}

/// Every index of `rows` names an entry of `palette` (or is transparent).
pub open spec fn fits(rows: Seq<Seq<u8>>, palette: Seq<Pixel>) -> bool {
    forall|y: int, x: int|
        0 <= y < rows.len() && 0 <= x < rows[y].len() ==> #[trigger] rows[y][x] <= palette.len()
}

/// Tinting every opaque pixel of a sprite that shows `rows` over
/// `palette` gives the same picture over the tinted palette.
proof fn lemma_tint_shows(before: Sprite, after: Sprite, rows: Seq<Seq<u8>>, palette: Seq<Pixel>, target: Pixel)
    requires
        before.shows(rows, palette),
        fits(rows, palette),
        after.wf(),
        after.sw() == before.sw(),
        after.sh() == before.sh(),
        forall|a: int, b: int|
            after.in_bounds(a, b) ==> #[trigger] after.pixel(a, b) == match before.pixel(a, b) {
                Some(c) => Some(tint55_pixel(c, target)),
                None => None,
            },
    ensures
        after.shows(rows, tinted(palette, target)),
{
    assert forall|x: int, y: int| after.in_bounds(x, y) implies #[trigger] after.pixel(x, y) == art_pixel(
        rows,
        tinted(palette, target),
        x,
        y,
    ) by {
        assert(before.pixel(x, y) == art_pixel(rows, palette, x, y));
        assert(rows[y][x] <= palette.len());
    }
}

/// The picture (rows and palette) of an archetype's hardcoded sprite.
pub open spec fn archetype_art(archetype: Archetype) -> (Seq<Seq<u8>>, Seq<Pixel>) {
    match archetype {
        Archetype::Rusher => (rusher_art(), rusher_palette()),
        Archetype::Pinkie => (pinkie_art(), pinkie_palette()),
        Archetype::Charger => (charger_art(), charger_palette()),
        Archetype::Revenant => (revenant_art(), revenant_palette()),
        Archetype::Marksman => (marksman_art(), marksman_palette()),
        Archetype::Pmc => (pmc_art(), pmc_palette()),
        Archetype::Swarmling => (swarmling_art(), swarmling_palette()),
        Archetype::Orb => (orb_art(), orb_palette()),
        Archetype::Miniboss => (miniboss_art(), miniboss_palette()),
        Archetype::Eater => (eater_art(), eater_palette()),
        Archetype::Breacher => (breacher_art(), breacher_palette()),
        Archetype::Rocketeer => (rocketeer_art(), rocketeer_palette()),
        Archetype::Leaper => (leaper_art(), leaper_palette()),
        Archetype::Sapper => (sapper_art(), sapper_palette()),
        Archetype::Juggernaut => (juggernaut_art(), juggernaut_palette()),
        Archetype::Howler => (howler_art(), howler_palette()),
        Archetype::Sentinel => (sentinel_art(), sentinel_palette()),
        Archetype::Splitter => (splitter_art(), splitter_palette()),
        Archetype::Killa => (killa_art(), killa_palette()),
        Archetype::Zergling => (zergling_art(), zergling_palette()),
        Archetype::Floodling => (floodling_art(), floodling_palette()),
        Archetype::Flood => (flood_art(), flood_palette()),
        Archetype::FloodCarrier => (flood_carrier_art(), flood_carrier_palette()),
        Archetype::Headcrab => (floodling_art(), floodling_palette()),
        Archetype::Zombie => (flood_art(), flood_palette()),
        Archetype::Rat => (swarmling_art(), swarmling_palette()),
        Archetype::DireRat => (splitter_art(), splitter_palette()),
        Archetype::PlayerTurret => (sentinel_art(), tinted(sentinel_palette(), Pixel::spec_rgb(80, 220, 255))),
        Archetype::Phaser => (leaper_art(), tinted(leaper_palette(), Pixel::spec_rgb(160, 100, 240))),
    }
}

/// The hardcoded sprite of an archetype (used when the content pack has
/// no art for it). Headcrab, zombie, rat and dire rat reuse the
/// floodling, flood, swarmling and splitter silhouettes; the player's
/// turret is the sentinel tinted survivor-cyan and the phaser the leaper
/// tinted violet (each 55% of the way).
pub fn enemy_sprite(archetype: Archetype) -> (s: Sprite)
    ensures
        s.shows(archetype_art(archetype).0, archetype_art(archetype).1),
{
    match archetype {
        Archetype::Rusher => rusher(),
        Archetype::Pinkie => pinkie(),
        Archetype::Charger => charger(),
        Archetype::Revenant => revenant(),
        Archetype::Marksman => marksman(),
        Archetype::Pmc => pmc(),
        Archetype::Swarmling => swarmling(),
        Archetype::Orb => orb(),
        Archetype::Miniboss => miniboss(),
        Archetype::Eater => eater(),
        Archetype::Breacher => breacher(),
        Archetype::Rocketeer => rocketeer(),
        Archetype::Leaper => leaper(),
        Archetype::Sapper => sapper(),
        Archetype::Juggernaut => juggernaut(),
        Archetype::Howler => howler(),
        Archetype::Sentinel => sentinel(),
        Archetype::Splitter => splitter(),
        Archetype::Killa => killa(),
        Archetype::Zergling => zergling(),
        Archetype::Floodling => floodling(),
        Archetype::Flood => flood(),
        Archetype::FloodCarrier => flood_carrier(),
        Archetype::Headcrab => floodling(),
        Archetype::Zombie => flood(),
        Archetype::Rat => swarmling(),
        Archetype::DireRat => splitter(),
        Archetype::PlayerTurret => {
            let mut s = sentinel();
            let ghost before = s;
            s.tint55(Pixel::rgb(80, 220, 255));
            proof {
                assert forall|y: int, x: int| 0 <= y < sentinel_art().len() && 0 <= x < sentinel_art()[y].len() implies
                    #[trigger] sentinel_art()[y][x] <= sentinel_palette().len() by {}
                lemma_tint_shows(before, s, sentinel_art(), sentinel_palette(), Pixel::spec_rgb(80, 220, 255));
            }
            s
        },
        Archetype::Phaser => {
            let mut s = leaper();
            let ghost before = s;
            s.tint55(Pixel::rgb(160, 100, 240));
            proof {
                assert forall|y: int, x: int| 0 <= y < leaper_art().len() && 0 <= x < leaper_art()[y].len() implies
                    #[trigger] leaper_art()[y][x] <= leaper_palette().len() by {}
                lemma_tint_shows(before, s, leaper_art(), leaper_palette(), Pixel::spec_rgb(160, 100, 240));
            }
            s
        },
    }
}

/// Sprite art loaded from content packs, in the order it takes
/// precedence: a brand's art for one of its units, a brand's art for an
/// archetype, and art for an archetype. Each table reads as a map: of
/// several entries with one key, the last one counts.
pub struct ContentSprites {
    pub brand_units: Vec<(String, String, Sprite)>,
    pub brands: Vec<(String, Archetype, Sprite)>,
    pub archetypes: Vec<(Archetype, Sprite)>,
}

/// Index of the last art for `unit` of `brand`.
pub open spec fn unit_art_index(t: Seq<(String, String, Sprite)>, brand: Seq<char>, unit: Seq<char>) -> Option<int>
    decreases t.len(),
{
    if t.len() == 0 {
        None
    } else if t.last().0@ == brand && t.last().1@ == unit {
        Some(t.len() - 1)
    } else {
        unit_art_index(t.drop_last(), brand, unit)
    }
}

/// Index of the last art `brand` gives `archetype`.
pub open spec fn brand_art_index(t: Seq<(String, Archetype, Sprite)>, brand: Seq<char>, archetype: Archetype) -> Option<int>
    decreases t.len(),
{
    if t.len() == 0 {
        None
    } else if t.last().0@ == brand && t.last().1 == archetype {
        Some(t.len() - 1)
    } else {
        brand_art_index(t.drop_last(), brand, archetype)
    }
}

/// Index of the last art for `archetype`.
pub open spec fn archetype_art_index(t: Seq<(Archetype, Sprite)>, archetype: Archetype) -> Option<int>
    decreases t.len(),
{
    if t.len() == 0 {
        None
    } else if t.last().0 == archetype {
        Some(t.len() - 1)
    } else {
        archetype_art_index(t.drop_last(), archetype)
    }
}

/// The characters of an optional string.
pub open spec fn opt_chars(s: Option<&str>) -> Option<Seq<char>> {
    match s {
        Some(t) => Some(t@),
        None => None,
    }
}

/// The content art that stands for `archetype` under `brand` and `unit`,
/// or `None` when the hardcoded sprite is used.
pub open spec fn content_art(
    content: ContentSprites,
    archetype: Archetype,
    brand: Option<Seq<char>>,
    unit: Option<Seq<char>>,
) -> Option<Sprite> {
    let by_unit = match (brand, unit) {
        (Some(b), Some(u)) => unit_art_index(content.brand_units@, b, u),
        _ => None,
    };
    let by_brand = match brand {
        Some(b) => brand_art_index(content.brands@, b, archetype),
        None => None,
    };
    if let Some(i) = by_unit {
        Some(content.brand_units@[i].2)
    } else if let Some(i) = by_brand {
        Some(content.brands@[i].2)
    } else if let Some(i) = archetype_art_index(content.archetypes@, archetype) {
        Some(content.archetypes@[i].1)
    } else {
        None
    }
}

fn find_unit_art(t: &Vec<(String, String, Sprite)>, brand: &str, unit: &str) -> (r: Option<usize>)
    ensures
        match r {
            Some(i) => unit_art_index(t@, brand@, unit@) == Some(i as int) && i < t@.len(),
            None => unit_art_index(t@, brand@, unit@) is None,
        },
{
    let mut k: usize = t.len();
    assert(t@.take(k as int) =~= t@);
    while k > 0
        invariant
            k <= t@.len(),
            unit_art_index(t@, brand@, unit@) == unit_art_index(t@.take(k as int), brand@, unit@),
        decreases k,
    {
        let ghost p = t@.take(k as int);
        assert(p.last() == t@[k - 1]);
        assert(p.drop_last() =~= t@.take(k - 1));
        if crate::text::str_eq(t[k - 1].0.as_str(), brand) && crate::text::str_eq(t[k - 1].1.as_str(), unit) {
            return Some(k - 1);
        }
        k = k - 1;
    }
    None
}

fn find_brand_art(t: &Vec<(String, Archetype, Sprite)>, brand: &str, archetype: Archetype) -> (r: Option<usize>)
    ensures
        match r {
            Some(i) => brand_art_index(t@, brand@, archetype) == Some(i as int) && i < t@.len(),
            None => brand_art_index(t@, brand@, archetype) is None,
        },
{
    let mut k: usize = t.len();
    assert(t@.take(k as int) =~= t@);
    while k > 0
        invariant
            k <= t@.len(),
            brand_art_index(t@, brand@, archetype) == brand_art_index(t@.take(k as int), brand@, archetype),
        decreases k,
    {
        let ghost p = t@.take(k as int);
        assert(p.last() == t@[k - 1]);
        assert(p.drop_last() =~= t@.take(k - 1));
        if crate::text::str_eq(t[k - 1].0.as_str(), brand) && t[k - 1].1 == archetype {
            return Some(k - 1);
        }
        k = k - 1;
    }
    None
}

fn find_archetype_art(t: &Vec<(Archetype, Sprite)>, archetype: Archetype) -> (r: Option<usize>)
    ensures
        match r {
            Some(i) => archetype_art_index(t@, archetype) == Some(i as int) && i < t@.len(),
            None => archetype_art_index(t@, archetype) is None,
        },
{
    let mut k: usize = t.len();
    assert(t@.take(k as int) =~= t@);
    while k > 0
        invariant
            k <= t@.len(),
            archetype_art_index(t@, archetype) == archetype_art_index(t@.take(k as int), archetype),
        decreases k,
    {
        let ghost p = t@.take(k as int);
        assert(p.last() == t@[k - 1]);
        assert(p.drop_last() =~= t@.take(k - 1));
        if t[k - 1].0 == archetype {
            return Some(k - 1);
        }
        k = k - 1;
    }
    None
}

/// The sprite of an archetype with no brand: the content packs' art for
/// the archetype, else the hardcoded sprite.
pub fn enemy_sprite_from_content(archetype: Archetype, content: &ContentSprites) -> (s: Sprite)
    ensures
        match content_art(*content, archetype, None, None) {
            Some(art) => s.same_picture(art),
            None => s.shows(archetype_art(archetype).0, archetype_art(archetype).1),
        },
{
    enemy_sprite_branded(archetype, None, None, content)
}

/// The sprite of an archetype as fielded by `brand_id` (and its unit
/// `unit_id`). Lookup order: the brand's art for the unit, the brand's
/// art for the archetype, the content packs' art for the archetype, and
/// last the hardcoded sprite.
pub fn enemy_sprite_branded(
    archetype: Archetype,
    brand_id: Option<&str>,
    unit_id: Option<&str>,
    content: &ContentSprites,
) -> (s: Sprite)
    ensures
        match content_art(*content, archetype, opt_chars(brand_id), opt_chars(unit_id)) {
            Some(art) => s.same_picture(art),
            None => s.shows(archetype_art(archetype).0, archetype_art(archetype).1),
        },
{
    if let (Some(bid), Some(uid)) = (brand_id, unit_id) {
        if let Some(i) = find_unit_art(&content.brand_units, bid, uid) {
            return content.brand_units[i].2.copied();
        }
    }
    if let Some(bid) = brand_id {
        if let Some(i) = find_brand_art(&content.brands, bid, archetype) {
            return content.brands[i].2.copied();
        }
    }
    if let Some(i) = find_archetype_art(&content.archetypes, archetype) {
        return content.archetypes[i].1.copied();
    }
    enemy_sprite(archetype)
}

/// Humanoid silhouette for the survivor. Body, head, stubby legs. The weapon
/// barrel is drawn separately during entity rendering so it can track the aim
/// angle without needing eight hand-authored variants.
pub fn player_body() -> (s: Sprite)
    ensures
        s.shows(player_body_art(), player_body_palette()),
        s.sw() == 8,
        s.sh() == 11,
{
    let body = Pixel::rgb(90, 255, 230);
    let dark = Pixel::rgb(40, 150, 130);
    let head = Pixel::rgb(130, 255, 245);
    let visor = Pixel::rgb(20, 40, 60);
    let accent = Pixel::rgb(200, 255, 250);

    // 8×11 — cyan humanoid survivor. Helmet with a horizontal visor
    // band, defined torso with outline + chest accent, weapon-ready
    // braced stance with a short arm stub reading as a grip, stubby
    // legs with boot highlights.
    let mut s = Sprite::new(8, 11);
    // Helmet — top crown.
    s.fill_rect(2, 0, 4, 1, dark);
    s.fill_rect(2, 1, 4, 1, head);
    // Visor band across the face.
    s.fill_rect(2, 2, 4, 1, visor);
    s.set(3, 2, accent);
    s.set(4, 2, accent);
    // Neck.
    s.fill_rect(3, 3, 2, 1, dark);
    // Shoulders.
    s.fill_rect(1, 4, 6, 1, dark);
    // Torso — body fill with outline.
    s.fill_rect(1, 5, 6, 3, body);
    // Chest accent highlight.
    s.set(3, 5, accent);
    s.set(4, 5, accent);
    // Central torso shadow for depth.
    s.set(3, 6, dark);
    s.set(4, 6, dark);
    // Side outline on torso.
    let ghost before = s;
    let mut y: u16 = 5;
    while y < 8
        invariant
            s.wf(),
            s.sw() == 8,
            s.sh() == 11,
            5 <= y <= 8,
            forall|a: int, b: int|
                s.in_bounds(a, b) ==> #[trigger] s.pixel(a, b) == (if (a == 1 || a == 6) && 5 <= b < y {
                    Some(dark)
                } else {
                    before.pixel(a, b)
                }),
        decreases 8 - y,
    {
        s.set(1, y, dark);
        s.set(6, y, dark);
        y = y + 1;
    }
    // Weapon-holding arm stub extending forward (right side).
    s.set(7, 5, dark);
    s.set(7, 6, body);
    // Belt.
    s.fill_rect(1, 8, 6, 1, dark);
    // Legs.
    s.fill_rect(1, 9, 2, 2, body);
    s.fill_rect(5, 9, 2, 2, body);
    s.set(1, 9, dark);
    s.set(6, 9, dark);
    // Boots.
    s.fill_rect(1, 10, 2, 1, dark);
    s.fill_rect(5, 10, 2, 1, dark);
    proof {
        assert forall|x: int, y: int| s.in_bounds(x, y) implies #[trigger] s.pixel(x, y) == art_pixel(
            player_body_art(),
            player_body_palette(),
            x,
            y,
        ) by {}
    }
    s
}

pub fn rusher() -> (s: Sprite)
    ensures
        s.shows(rusher_art(), rusher_palette()),
        s.sw() == 8,
        s.sh() == 10,
{
    let body = Pixel::rgb(255, 60, 60);
    let dark = Pixel::rgb(130, 20, 30);
    let horn = Pixel::rgb(230, 200, 170);
    let horn_dark = Pixel::rgb(140, 100, 80);
    let eye = Pixel::rgb(255, 230, 120);

    // 8x10 — Doom imp. Twin curling horns, glowing eyes, hunched shoulders,
    // clawed feet. Narrower at the bottom so the silhouette reads demon,
    // not generic humanoid.
    let mut s = Sprite::new(8, 10);
    // Curled horns rising off the skull.
    s.set(1, 0, horn);
    s.set(6, 0, horn);
    s.set(0, 1, horn_dark);
    s.set(1, 1, horn);
    s.set(6, 1, horn);
    s.set(7, 1, horn_dark);
    // Head — skull with a heavy brow ridge.
    s.fill_rect(2, 1, 4, 3, body);
    s.fill_rect(2, 1, 4, 1, dark);
    // Glowing eyes, fanged mouth.
    s.set(2, 2, eye);
    s.set(3, 2, eye);
    s.set(4, 2, eye);
    s.set(5, 2, eye);
    s.set(3, 3, dark);
    s.set(4, 3, dark);
    // Shoulders — hunched, wider than head.
    s.fill_rect(0, 4, 8, 2, body);
    s.set(0, 4, dark);
    s.set(7, 4, dark);
    s.set(1, 4, dark);
    s.set(6, 4, dark);
    // Torso — narrowing.
    s.fill_rect(1, 6, 6, 2, body);
    s.set(1, 6, dark);
    s.set(6, 6, dark);
    // Spine/chest shadow.
    s.set(3, 6, dark);
    s.set(4, 7, dark);
    // Clawed legs, splayed apart.
    s.set(1, 8, dark);
    s.set(2, 8, dark);
    s.set(5, 8, dark);
    s.set(6, 8, dark);
    // Claws at the feet.
    s.set(0, 9, horn);
    s.set(2, 9, horn_dark);
    s.set(5, 9, horn_dark);
    s.set(7, 9, horn);
    proof {
        assert forall|x: int, y: int| s.in_bounds(x, y) implies #[trigger] s.pixel(x, y) == art_pixel(
            rusher_art(),
            rusher_palette(),
            x,
            y,
        ) by {}
    }
    s
}

pub fn pinkie() -> (s: Sprite)
    ensures
        s.shows(pinkie_art(), pinkie_palette()),
        s.sw() == 12,
        s.sh() == 11,
{
    let body = Pixel::rgb(255, 130, 170);
    let dark = Pixel::rgb(160, 60, 90);
    let accent = Pixel::rgb(255, 200, 220);
    let eye = Pixel::rgb(255, 230, 100);
    let tusk = Pixel::rgb(240, 240, 230);
    let maw = Pixel::rgb(60, 10, 30);

    // 12x11 — Doom pinkie. Wide gaping maw with tusks, heavy bull-like
    // body, short stout legs. Low silhouette that reads "charge tank".
    let mut s = Sprite::new(12, 11);
    // Huge jawed head — splits the top half.
    s.fill_rect(1, 0, 10, 2, dark);
    s.fill_rect(2, 1, 8, 1, body);
    // Beady glowing eyes set high.
    s.set(3, 1, eye);
    s.set(8, 1, eye);
    // Gaping maw — dark rectangle across the jaw line.
    s.fill_rect(2, 2, 8, 3, maw);
    // Teeth top row.
    s.set(3, 2, tusk);
    s.set(5, 2, tusk);
    s.set(6, 2, tusk);
    s.set(8, 2, tusk);
    // Tusks jutting from jaw corners.
    s.set(1, 2, tusk);
    s.set(10, 2, tusk);
    s.set(1, 3, tusk);
    s.set(10, 3, tusk);
    s.set(2, 4, tusk);
    s.set(9, 4, tusk);
    // Lower jaw/lip.
    s.fill_rect(3, 4, 6, 1, dark);
    // Heavy shoulders sloping down.
    s.fill_rect(0, 5, 12, 2, body);
    s.set(0, 5, dark);
    s.set(11, 5, dark);
    // Torso proper — flanks with ribbed shading.
    s.fill_rect(1, 7, 10, 2, body);
    s.set(1, 7, dark);
    s.set(10, 7, dark);
    // Belly highlight.
    s.fill_rect(4, 7, 4, 1, accent);
    s.set(5, 8, accent);
    s.set(6, 8, accent);
    // Stout legs spaced wide, hooves at the base.
    s.fill_rect(1, 9, 3, 2, dark);
    s.fill_rect(8, 9, 3, 2, dark);
    s.set(1, 10, tusk);
    s.set(3, 10, tusk);
    s.set(8, 10, tusk);
    s.set(10, 10, tusk);
    proof {
        assert forall|x: int, y: int| s.in_bounds(x, y) implies #[trigger] s.pixel(x, y) == art_pixel(
            pinkie_art(),
            pinkie_palette(),
            x,
            y,
        ) by {}
    }
    s
}

pub fn charger() -> (s: Sprite)
    ensures
        s.shows(charger_art(), charger_palette()),
        s.sw() == 10,
        s.sh() == 10,
{
    let body = Pixel::rgb(255, 100, 80);
    let dark = Pixel::rgb(150, 40, 30);
    let horn = Pixel::rgb(255, 240, 210);
    let horn_dark = Pixel::rgb(170, 140, 100);
    let eye = Pixel::rgb(255, 220, 100);
    let hoof = Pixel::rgb(80, 40, 30);

    // 10x10 — angry red bull. Forward-sloped horns like a ram mid-charge,
    // shoulders hunched forward, sprint legs splayed. Reads running.
    let mut s = Sprite::new(10, 10);
    // Forward-sloped horns — long curved shapes leading the charge.
    s.set(0, 2, horn);
    s.set(1, 1, horn);
    s.set(2, 1, horn_dark);
    s.set(9, 2, horn);
    s.set(8, 1, horn);
    s.set(7, 1, horn_dark);
    // Head — wedge shape sloping forward.
    s.fill_rect(2, 2, 6, 3, dark);
    s.fill_rect(3, 2, 4, 1, body);
    // Blazing eyes.
    s.set(3, 3, eye);
    s.set(6, 3, eye);
    // Snout / nostrils.
    s.set(4, 4, horn_dark);
    s.set(5, 4, horn_dark);
    // Shoulder hump.
    s.fill_rect(1, 5, 8, 2, body);
    s.set(1, 5, dark);
    s.set(8, 5, dark);
    // Chest shadow — muscle striation.
    s.set(3, 6, dark);
    s.set(4, 6, dark);
    s.set(5, 6, dark);
    s.set(6, 6, dark);
    // Flanks.
    s.fill_rect(2, 7, 6, 1, body);
    s.set(2, 7, dark);
    s.set(7, 7, dark);
    // Sprint legs — front pair forward, back pair back.
    s.set(0, 8, dark);
    s.set(1, 8, dark);
    s.set(2, 8, dark);
    s.set(7, 8, dark);
    s.set(8, 8, dark);
    s.set(9, 8, dark);
    // Hooves.
    s.set(0, 9, hoof);
    s.set(2, 9, hoof);
    s.set(7, 9, hoof);
    s.set(9, 9, hoof);
    proof {
        assert forall|x: int, y: int| s.in_bounds(x, y) implies #[trigger] s.pixel(x, y) == art_pixel(
            charger_art(),
            charger_palette(),
            x,
            y,
        ) by {}
    }
    s
}

pub fn revenant() -> (s: Sprite)
    ensures
        s.shows(revenant_art(), revenant_palette()),
        s.sw() == 8,
        s.sh() == 12,
{
    let bone = Pixel::rgb(220, 230, 240);
    let bone_shade = Pixel::rgb(160, 170, 190);
    let dark = Pixel::rgb(70, 90, 120);
    let glow = Pixel::rgb(120, 200, 255);
    let eye = Pixel::rgb(255, 160, 80);
    let tube = Pixel::rgb(90, 100, 120);

    // 8x12 — skeletal revenant with twin shoulder-mounted rocket tubes.
    // Wide shoulder rack clearly flags him as a ranged threat; skull +
    // ribcage read as bone at any zoom.
    let mut s = Sprite::new(8, 12);
    // Skull — wider top, narrow jaw.
    s.fill_rect(2, 0, 4, 3, bone);
    s.set(2, 0, bone_shade);
    s.set(5, 0, bone_shade);
    // Eye sockets — twin burning pits.
    s.set(3, 1, eye);
    s.set(4, 1, eye);
    // Jaw line / teeth.
    s.set(2, 2, dark);
    s.set(3, 2, bone_shade);
    s.set(4, 2, bone_shade);
    s.set(5, 2, dark);
    // Narrow jawbone.
    s.fill_rect(3, 3, 2, 1, bone_shade);
    // Shoulder rack — twin rocket tubes on either side of the torso.
    s.fill_rect(0, 4, 2, 2, tube);
    s.fill_rect(6, 4, 2, 2, tube);
    s.set(0, 4, glow);
    s.set(7, 4, glow);
    s.set(1, 5, dark);
    s.set(6, 5, dark);
    // Collarbone / clavicle.
    s.fill_rect(2, 4, 4, 1, bone);
    // Ribcage — bones with gaps.
    s.fill_rect(2, 5, 4, 4, bone);
    s.set(2, 5, dark);
    s.set(5, 5, dark);
    s.set(3, 6, dark);
    s.set(4, 6, dark);
    s.set(2, 7, dark);
    s.set(5, 7, dark);
    s.set(3, 8, dark);
    s.set(4, 8, dark);
    // Pelvis / spine knob.
    s.fill_rect(3, 9, 2, 1, bone_shade);
    // Spindly leg bones.
    s.set(2, 9, dark);
    s.set(5, 9, dark);
    s.set(2, 10, bone);
    s.set(3, 10, dark);
    s.set(4, 10, dark);
    s.set(5, 10, bone);
    // Bony feet.
    s.set(1, 11, bone);
    s.set(2, 11, bone_shade);
    s.set(5, 11, bone_shade);
    s.set(6, 11, bone);
    proof {
        assert forall|x: int, y: int| s.in_bounds(x, y) implies #[trigger] s.pixel(x, y) == art_pixel(
            revenant_art(),
            revenant_palette(),
            x,
            y,
        ) by {}
    }
    s
}

pub fn marksman() -> (s: Sprite)
    ensures
        s.shows(marksman_art(), marksman_palette()),
        s.sw() == 9,
        s.sh() == 12,
{
    let body = Pixel::rgb(150, 170, 100);
    let dark = Pixel::rgb(70, 90, 40);
    let helmet = Pixel::rgb(180, 200, 130);
    let visor = Pixel::rgb(90, 180, 120);
    let rifle = Pixel::rgb(60, 55, 45);
    let muzzle = Pixel::rgb(255, 240, 80);

    // 9×12 — tactical rifleman. Helmet with a green-tinted visor band,
    // plate carrier, rifle held diagonally across the chest, legs in a
    // braced firing stance.
    let mut s = Sprite::new(9, 12);
    // Helmet crown with chinstrap shadow.
    s.fill_rect(2, 0, 5, 2, helmet);
    s.set(2, 0, dark);
    s.set(6, 0, dark);
    // Visor band — full-face, horizontal green slit.
    s.fill_rect(2, 2, 5, 1, dark);
    s.set(3, 2, visor);
    s.set(4, 2, visor);
    s.set(5, 2, visor);
    // Neck / chinstrap.
    s.set(4, 3, dark);
    // Shoulders + plate carrier.
    s.fill_rect(1, 3, 7, 1, dark);
    s.fill_rect(1, 4, 7, 4, body);
    // Chest plate with MOLLE shadow lines.
    s.fill_rect(3, 5, 3, 3, dark);
    s.set(4, 6, body);
    // Torso outline for silhouette.
    s.set(1, 4, dark);
    s.set(7, 4, dark);
    s.set(1, 7, dark);
    s.set(7, 7, dark);
    // Rifle slung diagonally across the body — stock high-left, barrel
    // extending to the low-right.
    s.set(1, 5, rifle);
    s.set(2, 5, rifle);
    s.set(5, 6, rifle);
    s.set(6, 6, rifle);
    s.set(7, 6, rifle);
    s.set(8, 7, muzzle);
    // Belt line.
    s.fill_rect(2, 8, 5, 1, dark);
    // Legs — wide braced firing stance.
    s.fill_rect(2, 9, 2, 3, body);
    s.fill_rect(5, 9, 2, 3, body);
    s.set(2, 9, dark);
    s.set(6, 9, dark);
    // Boots.
    s.fill_rect(2, 11, 2, 1, dark);
    s.fill_rect(5, 11, 2, 1, dark);
    proof {
        assert forall|x: int, y: int| s.in_bounds(x, y) implies #[trigger] s.pixel(x, y) == art_pixel(
            marksman_art(),
            marksman_palette(),
            x,
            y,
        ) by {}
    }
    s
}

pub fn pmc() -> (s: Sprite)
    ensures
        s.shows(pmc_art(), pmc_palette()),
        s.sw() == 11,
        s.sh() == 12,
{
    let plate = Pixel::rgb(120, 140, 170);
    let dark = Pixel::rgb(50, 70, 100);
    let accent = Pixel::rgb(160, 180, 210);
    let visor = Pixel::rgb(70, 180, 255);
    let glow = Pixel::rgb(180, 230, 255);

    // 11×12 — heavy armored operator. Wide pauldrons, full-face helmet
    // with a cybernetic visor glow, segmented plate torso.
    let mut s = Sprite::new(11, 12);
    // Helmet crown.
    s.fill_rect(3, 0, 5, 3, dark);
    s.set(3, 0, plate);
    s.set(7, 0, plate);
    // Cybernetic visor — bright cyan with a glow highlight.
    s.fill_rect(3, 1, 5, 1, visor);
    s.set(4, 1, glow);
    s.set(6, 1, glow);
    // Helmet chin.
    s.fill_rect(4, 2, 3, 1, dark);
    // Wide pauldrons extending past the torso width.
    s.fill_rect(0, 3, 11, 2, dark);
    s.fill_rect(0, 3, 3, 2, plate);
    s.fill_rect(8, 3, 3, 2, plate);
    s.set(0, 3, dark);
    s.set(10, 3, dark);
    // Torso — layered plates.
    s.fill_rect(2, 5, 7, 5, plate);
    // Chest rig (lighter accent panel).
    s.fill_rect(3, 5, 5, 4, accent);
    // Central armored core block.
    s.fill_rect(4, 6, 3, 2, dark);
    s.set(5, 7, glow);
    // Ammo pouches along the belt.
    s.fill_rect(2, 9, 7, 1, dark);
    s.set(3, 9, accent);
    s.set(5, 9, accent);
    s.set(7, 9, accent);
    // Side outlines.
    let ghost before = s;
    let mut y: u16 = 5;
    while y < 10
        invariant
            s.wf(),
            s.sw() == 11,
            s.sh() == 12,
            5 <= y <= 10,
            forall|a: int, b: int|
                s.in_bounds(a, b) ==> #[trigger] s.pixel(a, b) == (if (a == 2 || a == 8) && 5 <= b < y {
                    Some(dark)
                } else {
                    before.pixel(a, b)
                }),
        decreases 10 - y,
    {
        s.set(2, y, dark);
        s.set(8, y, dark);
        y = y + 1;
    }
    // Thick boots.
    s.fill_rect(2, 10, 3, 2, dark);
    s.fill_rect(6, 10, 3, 2, dark);
    s.set(3, 11, plate);
    s.set(7, 11, plate);
    proof {
        assert forall|x: int, y: int| s.in_bounds(x, y) implies #[trigger] s.pixel(x, y) == art_pixel(
            pmc_art(),
            pmc_palette(),
            x,
            y,
        ) by {}
    }
    s
}

pub fn swarmling() -> (s: Sprite)
    ensures
        s.shows(swarmling_art(), swarmling_palette()),
        s.sw() == 5,
        s.sh() == 5,
{
    let body = Pixel::rgb(255, 80, 40);
    let dark = Pixel::rgb(140, 20, 10);
    let eye = Pixel::rgb(255, 220, 80);
    let fang = Pixel::rgb(255, 240, 200);

    // 5×5 — tiny scuttling swarm bug. Two antennae, beady eyes, tiny
    // fangs, splayed legs at the bottom.
    let mut s = Sprite::new(5, 5);
    // Antennae.
    s.set(0, 0, dark);
    s.set(4, 0, dark);
    // Head band.
    s.fill_rect(1, 0, 3, 1, dark);
    // Body bulge.
    s.fill_rect(0, 1, 5, 2, body);
    s.set(0, 1, dark);
    s.set(4, 1, dark);
    // Eyes + fangs.
    s.set(1, 1, eye);
    s.set(3, 1, eye);
    s.set(2, 2, fang);
    // Belly band.
    s.fill_rect(1, 3, 3, 1, dark);
    // Splayed legs.
    s.set(0, 4, dark);
    s.set(2, 4, dark);
    s.set(4, 4, dark);
    proof {
        assert forall|x: int, y: int| s.in_bounds(x, y) implies #[trigger] s.pixel(x, y) == art_pixel(
            swarmling_art(),
            swarmling_palette(),
            x,
            y,
        ) by {}
    }
    s
}

pub fn orb() -> (s: Sprite)
    ensures
        s.shows(orb_art(), orb_palette()),
        s.sw() == 8,
        s.sh() == 8,
{
    let body = Pixel::rgb(200, 120, 255);
    let core = Pixel::rgb(255, 200, 255);
    let dark = Pixel::rgb(90, 40, 150);
    let glow = Pixel::rgb(230, 180, 255);
    let pupil = Pixel::rgb(40, 10, 80);

    // 8x8 — floating eye/halo. Roundest possible silhouette at this
    // resolution: chamfered corners. Central pupil reads as an eye;
    // outer ring pulses with glow. Symmetric so rotation is irrelevant.
    let mut s = Sprite::new(8, 8);
    // Outer halo ring — chamfered square to approximate a circle.
    // Top/bottom edges (inset corners).
    s.set(2, 0, dark);
    s.set(3, 0, dark);
    s.set(4, 0, dark);
    s.set(5, 0, dark);
    s.set(2, 7, dark);
    s.set(3, 7, dark);
    s.set(4, 7, dark);
    s.set(5, 7, dark);
    // Side edges.
    s.set(0, 2, dark);
    s.set(0, 3, dark);
    s.set(0, 4, dark);
    s.set(0, 5, dark);
    s.set(7, 2, dark);
    s.set(7, 3, dark);
    s.set(7, 4, dark);
    s.set(7, 5, dark);
    // Corner chamfers.
    s.set(1, 1, dark);
    s.set(6, 1, dark);
    s.set(1, 6, dark);
    s.set(6, 6, dark);
    // Body fill — inside the ring.
    s.fill_rect(2, 1, 4, 1, body);
    s.fill_rect(1, 2, 6, 4, body);
    s.fill_rect(2, 6, 4, 1, body);
    // Inner glow ring — one pixel inside the dark ring.
    s.set(3, 1, glow);
    s.set(4, 1, glow);
    s.set(1, 3, glow);
    s.set(1, 4, glow);
    s.set(6, 3, glow);
    s.set(6, 4, glow);
    s.set(3, 6, glow);
    s.set(4, 6, glow);
    // Bright core — iris of the eye.
    s.fill_rect(2, 2, 4, 4, core);
    // Defined pupil — the eye's focus point.
    s.set(3, 3, pupil);
    s.set(4, 3, pupil);
    s.set(3, 4, pupil);
    s.set(4, 4, pupil);
    // Highlight glint on the iris (top-left).
    s.set(2, 2, glow);
    proof {
        assert forall|x: int, y: int| s.in_bounds(x, y) implies #[trigger] s.pixel(x, y) == art_pixel(
            orb_art(),
            orb_palette(),
            x,
            y,
        ) by {}
    }
    s
}

pub fn eater() -> (s: Sprite)
    ensures
        s.shows(eater_art(), eater_palette()),
        s.sw() == 12,
        s.sh() == 14,
{
    let flesh = Pixel::rgb(140, 30, 180);
    let dark = Pixel::rgb(60, 10, 80);
    let bone = Pixel::rgb(230, 210, 240);
    let maw = Pixel::rgb(40, 0, 30);
    let eye = Pixel::rgb(255, 200, 80);
    let bone_shade = Pixel::rgb(170, 140, 180);

    // 12×14 — purple corrupted humanoid. Wide gaping maw full of teeth,
    // hunched shoulders with spinal ridges, long clawed arms dangling
    // past the torso, stubby legs.
    let mut s = Sprite::new(12, 14);
    // Hunched back spinal ridges.
    s.set(3, 0, dark);
    s.set(5, 0, dark);
    s.set(6, 0, dark);
    s.set(8, 0, dark);
    // Skull crown.
    s.fill_rect(2, 1, 8, 2, flesh);
    s.set(2, 1, dark);
    s.set(9, 1, dark);
    // Burning yellow eyes set deep.
    s.set(3, 2, eye);
    s.set(4, 2, eye);
    s.set(7, 2, eye);
    s.set(8, 2, eye);
    // Wide open maw.
    s.fill_rect(3, 3, 6, 3, maw);
    // Upper row of teeth.
    s.set(3, 3, bone);
    s.set(5, 3, bone);
    s.set(6, 3, bone);
    s.set(8, 3, bone);
    // Lower row of teeth.
    s.set(4, 5, bone_shade);
    s.set(7, 5, bone_shade);
    // Tusks jutting from maw corners.
    s.set(2, 3, bone);
    s.set(9, 3, bone);
    s.set(2, 4, bone);
    s.set(9, 4, bone);
    s.set(1, 5, bone_shade);
    s.set(10, 5, bone_shade);
    // Hunched shoulders wider than head.
    s.fill_rect(0, 6, 12, 1, dark);
    // Heavy torso with shadow core.
    s.fill_rect(1, 6, 10, 5, flesh);
    s.fill_rect(3, 7, 6, 3, dark);
    s.set(5, 8, flesh);
    s.set(6, 8, flesh);
    // Long clawed arms reaching down.
    s.fill_rect(0, 7, 2, 5, dark);
    s.fill_rect(10, 7, 2, 5, dark);
    // Clawed hands at the end of arms.
    s.set(0, 12, bone);
    s.set(1, 12, bone_shade);
    s.set(10, 12, bone_shade);
    s.set(11, 12, bone);
    // Pelvis belt.
    s.fill_rect(2, 11, 8, 1, dark);
    // Stubby legs.
    s.fill_rect(2, 12, 3, 2, flesh);
    s.fill_rect(7, 12, 3, 2, flesh);
    s.set(2, 12, dark);
    s.set(4, 12, dark);
    s.set(7, 12, dark);
    s.set(9, 12, dark);
    // Clawed feet.
    s.set(2, 13, bone);
    s.set(4, 13, bone);
    s.set(7, 13, bone);
    s.set(9, 13, bone);
    proof {
        assert forall|x: int, y: int| s.in_bounds(x, y) implies #[trigger] s.pixel(x, y) == art_pixel(
            eater_art(),
            eater_palette(),
            x,
            y,
        ) by {}
    }
    s
}

pub fn breacher() -> (s: Sprite)
    ensures
        s.shows(breacher_art(), breacher_palette()),
        s.sw() == 10,
        s.sh() == 12,
{
    let body = Pixel::rgb(160, 80, 40);
    let dark = Pixel::rgb(80, 40, 20);
    let iron = Pixel::rgb(60, 60, 70);
    let spark = Pixel::rgb(255, 200, 120);
    let eye = Pixel::rgb(255, 60, 40);

    // 10×12 — squat armored wall-smasher. Riveted helm with horizontal
    // visor slit, oversized hammer-fist pauldron on the right side, small
    // clenched fist on the left.
    let mut s = Sprite::new(10, 12);
    // Helmet crown with rivets.
    s.fill_rect(2, 0, 6, 2, iron);
    s.set(2, 0, dark);
    s.set(7, 0, dark);
    s.set(3, 1, spark);
    s.set(4, 1, dark);
    s.set(5, 1, dark);
    s.set(6, 1, spark);
    // Visor slit — thick horizontal band with two glowing eye dots.
    s.fill_rect(2, 2, 6, 1, dark);
    s.set(3, 2, eye);
    s.set(6, 2, eye);
    // Jaw shadow.
    s.fill_rect(3, 3, 4, 1, dark);
    // Wide armored shoulders.
    s.fill_rect(0, 4, 10, 1, iron);
    s.set(0, 4, dark);
    s.set(9, 4, dark);
    // Torso plate with central dark core.
    s.fill_rect(1, 5, 8, 4, body);
    s.fill_rect(3, 6, 4, 2, dark);
    s.set(4, 7, spark);
    // Rivets on the chest corners.
    s.set(2, 5, spark);
    s.set(7, 5, spark);
    // Oversized hammer-fist on the right — extends past body silhouette.
    s.fill_rect(7, 4, 3, 6, iron);
    s.fill_rect(8, 5, 2, 4, dark);
    s.set(8, 6, spark);
    s.set(9, 7, spark);
    s.set(7, 9, dark);
    s.set(9, 9, dark);
    // Smaller left arm with fist.
    s.fill_rect(0, 5, 2, 3, dark);
    s.set(0, 8, iron);
    s.set(1, 8, iron);
    // Belt line.
    s.fill_rect(2, 9, 5, 1, dark);
    // Legs.
    s.fill_rect(2, 10, 2, 2, dark);
    s.fill_rect(6, 10, 2, 2, dark);
    s.set(2, 11, iron);
    s.set(3, 11, iron);
    s.set(6, 11, iron);
    s.set(7, 11, iron);
    proof {
        assert forall|x: int, y: int| s.in_bounds(x, y) implies #[trigger] s.pixel(x, y) == art_pixel(
            breacher_art(),
            breacher_palette(),
            x,
            y,
        ) by {}
    }
    s
}

pub fn leaper() -> (s: Sprite)
    ensures
        s.shows(leaper_art(), leaper_palette()),
        s.sw() == 8,
        s.sh() == 7,
{
    let body = Pixel::rgb(180, 60, 100);
    let dark = Pixel::rgb(80, 20, 50);
    let claw = Pixel::rgb(230, 230, 230);
    let claw_shade = Pixel::rgb(170, 160, 170);
    let eye = Pixel::rgb(255, 220, 80);

    // 8×7 — low hunched pouncer. Twin eyes on a compact head, extended
    // claws reaching forward on both sides, coiled back haunches ready
    // to launch.
    let mut s = Sprite::new(8, 7);
    // Spiked head crown.
    s.set(3, 0, dark);
    s.set(4, 0, dark);
    // Head with twin eyes.
    s.fill_rect(2, 1, 4, 2, body);
    s.set(2, 1, dark);
    s.set(5, 1, dark);
    s.set(3, 2, eye);
    s.set(4, 2, eye);
    // Forward-reaching claws — two-cell talons on each side.
    s.set(0, 2, claw);
    s.set(7, 2, claw);
    s.set(0, 3, claw_shade);
    s.set(7, 3, claw_shade);
    s.set(1, 3, claw);
    s.set(6, 3, claw);
    // Sinewy body with spine shadow.
    s.fill_rect(1, 4, 6, 1, body);
    s.set(1, 4, dark);
    s.set(6, 4, dark);
    s.set(3, 4, dark);
    s.set(4, 4, dark);
    // Coiled back haunches — bunched high.
    s.set(0, 5, dark);
    s.set(1, 5, body);
    s.set(2, 5, dark);
    s.set(5, 5, dark);
    s.set(6, 5, body);
    s.set(7, 5, dark);
    // Clawed feet.
    s.set(0, 6, claw_shade);
    s.set(2, 6, claw_shade);
    s.set(5, 6, claw_shade);
    s.set(7, 6, claw_shade);
    proof {
        assert forall|x: int, y: int| s.in_bounds(x, y) implies #[trigger] s.pixel(x, y) == art_pixel(
            leaper_art(),
            leaper_palette(),
            x,
            y,
        ) by {}
    }
    s
}

pub fn rocketeer() -> (s: Sprite)
    ensures
        s.shows(rocketeer_art(), rocketeer_palette()),
        s.sw() == 11,
        s.sh() == 11,
{
    let body = Pixel::rgb(110, 160, 200);
    let dark = Pixel::rgb(40, 70, 90);
    let tube = Pixel::rgb(70, 80, 95);
    let warn = Pixel::rgb(255, 200, 70);
    let eye = Pixel::rgb(255, 100, 60);
    let accent = Pixel::rgb(200, 230, 255);

    // 11×11 — lean operator with a shoulder-mounted launcher reaching
    // across the full width. Visible warhead tip with warning stripe,
    // narrow torso for a clearly ranged silhouette.
    let mut s = Sprite::new(11, 11);
    // Helmet with brim.
    s.fill_rect(2, 0, 4, 3, body);
    s.set(2, 0, dark);
    s.set(5, 0, dark);
    // Visor slit.
    s.fill_rect(2, 2, 4, 1, dark);
    s.set(3, 1, eye);
    s.set(4, 1, eye);
    // Shoulder band.
    s.fill_rect(1, 3, 6, 1, dark);
    // Chest / vest.
    s.fill_rect(1, 4, 6, 1, body);
    s.set(1, 4, dark);
    // Launcher tube — extends from shoulder across and past the right
    // edge, with two warning stripes and a bright warhead tip.
    s.fill_rect(3, 3, 8, 2, tube);
    s.fill_rect(3, 3, 8, 1, dark);
    s.set(7, 4, warn);
    s.set(9, 4, warn);
    // Warhead tip (rightmost cell).
    s.set(10, 3, warn);
    s.set(10, 4, accent);
    // Torso under the launcher.
    s.fill_rect(1, 5, 5, 3, body);
    s.fill_rect(2, 6, 3, 1, accent);
    s.set(1, 5, dark);
    s.set(5, 5, dark);
    s.set(1, 7, dark);
    s.set(5, 7, dark);
    // Belt.
    s.fill_rect(2, 7, 3, 1, dark);
    // Thin legs.
    s.fill_rect(2, 8, 1, 3, body);
    s.fill_rect(4, 8, 1, 3, body);
    s.set(2, 8, dark);
    s.set(4, 8, dark);
    // Boots.
    s.set(2, 10, dark);
    s.set(4, 10, dark);
    proof {
        assert forall|x: int, y: int| s.in_bounds(x, y) implies #[trigger] s.pixel(x, y) == art_pixel(
            rocketeer_art(),
            rocketeer_palette(),
            x,
            y,
        ) by {}
    }
    s
}

pub fn sapper() -> (s: Sprite)
    ensures
        s.shows(sapper_art(), sapper_palette()),
        s.sw() == 8,
        s.sh() == 10,
{
    let body = Pixel::rgb(255, 120, 30);
    let dark = Pixel::rgb(100, 40, 8);
    let fuse = Pixel::rgb(255, 230, 100);
    let canister = Pixel::rgb(160, 60, 20);
    let eye = Pixel::rgb(255, 255, 220);
    let cloth = Pixel::rgb(70, 45, 30);

    // 8×10 — suicide bomber humanoid. Lit fuse sparking off the top of
    // the head, dirty hood, TNT canister belt strapped across the chest
    // with three canisters, grimy trousers.
    let mut s = Sprite::new(8, 10);
    // Fuse sparks above the head.
    s.set(3, 0, fuse);
    s.set(4, 0, eye);
    // Hooded head.
    s.fill_rect(2, 1, 4, 2, cloth);
    s.set(2, 1, dark);
    s.set(5, 1, dark);
    // Face / eyes peeking out.
    s.set(3, 2, eye);
    s.set(4, 2, eye);
    // Shoulders.
    s.fill_rect(1, 3, 6, 1, cloth);
    // TNT belt — three canister blocks across the chest with fuses on top.
    s.fill_rect(1, 4, 6, 2, canister);
    s.set(1, 4, dark);
    s.set(3, 4, dark);
    s.set(5, 4, dark);
    s.set(6, 4, dark);
    s.set(2, 3, fuse);
    s.set(4, 3, fuse);
    s.set(6, 3, fuse);
    // Canister stripes.
    s.fill_rect(1, 5, 6, 1, body);
    s.set(2, 5, dark);
    s.set(4, 5, dark);
    s.set(6, 5, dark);
    // Grimy torso below belt.
    s.fill_rect(2, 6, 4, 1, cloth);
    // Dirty trousers.
    s.fill_rect(2, 7, 2, 2, cloth);
    s.fill_rect(4, 7, 2, 2, cloth);
    s.set(3, 8, dark);
    s.set(4, 8, dark);
    // Worn boots.
    s.fill_rect(2, 9, 2, 1, dark);
    s.fill_rect(4, 9, 2, 1, dark);
    proof {
        assert forall|x: int, y: int| s.in_bounds(x, y) implies #[trigger] s.pixel(x, y) == art_pixel(
            sapper_art(),
            sapper_palette(),
            x,
            y,
        ) by {}
    }
    s
}

pub fn juggernaut() -> (s: Sprite)
    ensures
        s.shows(juggernaut_art(), juggernaut_palette()),
        s.sw() == 15,
        s.sh() == 14,
{
    let plate = Pixel::rgb(120, 120, 140);
    let dark = Pixel::rgb(40, 40, 55);
    let rivet = Pixel::rgb(220, 220, 220);
    let eye = Pixel::rgb(255, 60, 40);
    let shadow = Pixel::rgb(75, 75, 95);

    // 15×14 — hulking mech. Small helm sunk between massive pauldrons,
    // armored chest plate with rivet grid, enormous low-hanging fists,
    // tree-trunk legs with kneeplates.
    let mut s = Sprite::new(15, 14);
    // Helm sunk into shoulders.
    s.fill_rect(5, 0, 5, 2, dark);
    s.set(5, 0, shadow);
    s.set(9, 0, shadow);
    // Twin glowing optics.
    s.set(6, 1, eye);
    s.set(7, 1, eye);
    s.set(8, 1, eye);
    // Helm chin band.
    s.fill_rect(6, 2, 3, 1, shadow);
    // Massive pauldrons extending past body width.
    s.fill_rect(0, 2, 4, 4, plate);
    s.fill_rect(11, 2, 4, 4, plate);
    s.set(0, 2, dark);
    s.set(14, 2, dark);
    s.set(0, 5, dark);
    s.set(14, 5, dark);
    // Pauldron rivets.
    s.set(1, 3, rivet);
    s.set(13, 3, rivet);
    // Armored torso.
    s.fill_rect(3, 2, 9, 7, plate);
    // Central chest plate (darker) with rivet grid.
    s.fill_rect(4, 3, 7, 5, shadow);
    s.fill_rect(5, 4, 5, 3, dark);
    s.set(4, 3, rivet);
    s.set(10, 3, rivet);
    s.set(4, 7, rivet);
    s.set(10, 7, rivet);
    s.set(7, 5, eye);
    // Huge fists hanging low, extending past shoulder line.
    s.fill_rect(0, 6, 3, 4, dark);
    s.fill_rect(12, 6, 3, 4, dark);
    s.set(1, 7, plate);
    s.set(13, 7, plate);
    s.set(1, 8, rivet);
    s.set(13, 8, rivet);
    // Belt under torso.
    s.fill_rect(3, 9, 9, 1, dark);
    // Tree-trunk legs with kneeplates.
    s.fill_rect(3, 10, 4, 4, plate);
    s.fill_rect(8, 10, 4, 4, plate);
    s.fill_rect(4, 11, 2, 1, dark);
    s.fill_rect(9, 11, 2, 1, dark);
    // Feet.
    s.fill_rect(3, 13, 4, 1, dark);
    s.fill_rect(8, 13, 4, 1, dark);
    proof {
        assert forall|x: int, y: int| s.in_bounds(x, y) implies #[trigger] s.pixel(x, y) == art_pixel(
            juggernaut_art(),
            juggernaut_palette(),
            x,
            y,
        ) by {}
    }
    s
}

pub fn howler() -> (s: Sprite)
    ensures
        s.shows(howler_art(), howler_palette()),
        s.sw() == 8,
        s.sh() == 12,
{
    let robe = Pixel::rgb(240, 180, 220);
    let dark = Pixel::rgb(80, 20, 60);
    let mouth = Pixel::rgb(30, 10, 20);
    let eye = Pixel::rgb(255, 255, 200);
    let sigil = Pixel::rgb(255, 220, 120);
    let shadow = Pixel::rgb(150, 90, 150);

    // 8×12 — tall gaunt robed cultist. Pointed witch-hat hood tapering
    // to a single point, sunken hollow eyes, wide shrieking black maw,
    // glowing sigil stitched into the chest, tattered robe hem.
    let mut s = Sprite::new(8, 12);
    // Pointed hood tip.
    s.set(3, 0, dark);
    s.set(4, 0, dark);
    s.set(3, 1, dark);
    s.set(4, 1, dark);
    // Hood widening.
    s.fill_rect(2, 2, 4, 1, dark);
    s.fill_rect(1, 3, 6, 1, dark);
    // Inner face shadow inside the hood.
    s.set(3, 3, shadow);
    s.set(4, 3, shadow);
    // Hollow glowing eyes.
    s.set(2, 4, eye);
    s.set(5, 4, eye);
    s.fill_rect(3, 4, 2, 1, dark);
    // Wide shrieking maw.
    s.fill_rect(2, 5, 4, 2, mouth);
    s.set(3, 6, eye);
    s.set(4, 6, eye);
    // Draped robe — starts at shoulders and flares out.
    s.fill_rect(1, 7, 6, 1, robe);
    s.fill_rect(0, 8, 8, 3, robe);
    s.set(0, 8, dark);
    s.set(7, 8, dark);
    // Shadow fold down the center.
    s.set(3, 9, shadow);
    s.set(4, 9, shadow);
    // Glowing sigil on the chest.
    s.set(4, 8, sigil);
    s.set(3, 9, sigil);
    s.set(4, 9, sigil);
    s.set(3, 10, sigil);
    s.set(4, 10, sigil);
    // Fraying, tattered hem.
    s.set(0, 11, dark);
    s.set(1, 11, robe);
    s.set(3, 11, dark);
    s.set(4, 11, dark);
    s.set(6, 11, robe);
    s.set(7, 11, dark);
    proof {
        assert forall|x: int, y: int| s.in_bounds(x, y) implies #[trigger] s.pixel(x, y) == art_pixel(
            howler_art(),
            howler_palette(),
            x,
            y,
        ) by {}
    }
    s
}

pub fn sentinel() -> (s: Sprite)
    ensures
        s.shows(sentinel_art(), sentinel_palette()),
        s.sw() == 10,
        s.sh() == 11,
{
    let shell = Pixel::rgb(80, 200, 180);
    let dark = Pixel::rgb(20, 60, 70);
    let lens = Pixel::rgb(255, 80, 80);
    let tripod = Pixel::rgb(120, 130, 140);
    let warn = Pixel::rgb(255, 200, 60);

    // 10×11 — tripod turret. Round lens-head on a pivot, barrel extends
    // to the right with a warning tip, three splayed tripod legs bolted
    // to the ground.
    let mut s = Sprite::new(10, 11);
    // Round lens-head — chamfered square for a circular feel.
    s.set(2, 0, dark);
    s.set(3, 0, shell);
    s.set(4, 0, shell);
    s.set(5, 0, dark);
    s.fill_rect(1, 1, 6, 4, shell);
    s.set(1, 1, dark);
    s.set(6, 1, dark);
    s.set(1, 4, dark);
    s.set(6, 4, dark);
    // Lens cluster — dark housing with a glowing red iris.
    s.fill_rect(2, 2, 3, 2, dark);
    s.set(3, 2, lens);
    s.set(3, 3, lens);
    s.set(2, 2, warn);
    // Barrel extending rightward with warn-tipped muzzle.
    s.fill_rect(5, 2, 4, 2, dark);
    s.fill_rect(5, 2, 4, 1, tripod);
    s.set(8, 2, warn);
    s.set(9, 2, warn);
    s.set(9, 3, warn);
    // Pivot socket beneath the head.
    s.fill_rect(2, 5, 4, 2, dark);
    s.fill_rect(3, 5, 2, 1, tripod);
    // Central support column.
    s.fill_rect(3, 7, 2, 2, dark);
    // Three splayed tripod legs.
    s.set(1, 8, tripod);
    s.set(4, 8, tripod);
    s.set(7, 8, tripod);
    s.set(0, 9, tripod);
    s.set(4, 9, tripod);
    s.set(8, 9, tripod);
    // Foot pads.
    s.set(0, 10, dark);
    s.set(1, 10, dark);
    s.set(4, 10, dark);
    s.set(8, 10, dark);
    s.set(9, 10, dark);
    proof {
        assert forall|x: int, y: int| s.in_bounds(x, y) implies #[trigger] s.pixel(x, y) == art_pixel(
            sentinel_art(),
            sentinel_palette(),
            x,
            y,
        ) by {}
    }
    s
}

pub fn splitter() -> (s: Sprite)
    ensures
        s.shows(splitter_art(), splitter_palette()),
        s.sw() == 8,
        s.sh() == 8,
{
    let body = Pixel::rgb(170, 120, 60);
    let dark = Pixel::rgb(70, 40, 10);
    let seam = Pixel::rgb(255, 220, 100);
    let crack = Pixel::rgb(40, 20, 0);
    let eye = Pixel::rgb(255, 80, 40);

    // 8×8 — bulbous round creature. Chamfered circular silhouette,
    // glowing horizontal split-seam across the middle with dark cracks
    // radiating from it, twin eyes up top.
    let mut s = Sprite::new(8, 8);
    // Round body — chamfered square.
    s.fill_rect(2, 0, 4, 1, body);
    s.fill_rect(1, 1, 6, 1, body);
    s.fill_rect(0, 2, 8, 4, body);
    s.fill_rect(1, 6, 6, 1, body);
    s.fill_rect(2, 7, 4, 1, body);
    // Dark outline — chamfered corners and sides.
    s.set(2, 0, dark);
    s.set(5, 0, dark);
    s.set(1, 1, dark);
    s.set(6, 1, dark);
    s.set(0, 2, dark);
    s.set(7, 2, dark);
    s.set(0, 5, dark);
    s.set(7, 5, dark);
    s.set(1, 6, dark);
    s.set(6, 6, dark);
    s.set(2, 7, dark);
    s.set(5, 7, dark);
    // Split-line seam — bright glowing horizontal across the middle.
    let ghost before = s;
    let mut i: u16 = 0;
    while i < 8
        invariant
            s.wf(),
            s.sw() == 8,
            s.sh() == 8,
            0 <= i <= 8,
            forall|a: int, b: int|
                s.in_bounds(a, b) ==> #[trigger] s.pixel(a, b) == (if 0 <= a < i && b == 4 {
                    Some(seam)
                } else {
                    before.pixel(a, b)
                }),
        decreases 8 - i,
    {
        s.set(i, 4, seam);
        i = i + 1;
    }
    s.set(0, 4, crack);
    s.set(7, 4, crack);
    // Seam highlight line above.
    s.set(2, 3, seam);
    s.set(5, 3, seam);
    // Dark cracks radiating from the seam.
    s.set(1, 3, crack);
    s.set(6, 3, crack);
    s.set(3, 5, crack);
    s.set(4, 5, crack);
    s.set(2, 6, crack);
    s.set(5, 6, crack);
    // Glowing eyes up top.
    s.set(2, 2, eye);
    s.set(5, 2, eye);
    s.set(3, 2, dark);
    s.set(4, 2, dark);
    proof {
        assert forall|x: int, y: int| s.in_bounds(x, y) implies #[trigger] s.pixel(x, y) == art_pixel(
            splitter_art(),
            splitter_palette(),
            x,
            y,
        ) by {}
    }
    s
}

pub fn killa() -> (s: Sprite)
    ensures
        s.shows(killa_art(), killa_palette()),
        s.sw() == 14,
        s.sh() == 14,
{
    let plate = Pixel::rgb(90, 130, 100);
    let dark = Pixel::rgb(30, 55, 35);
    let iron = Pixel::rgb(60, 60, 70);
    let lmg = Pixel::rgb(40, 40, 50);
    let muzzle = Pixel::rgb(255, 200, 60);
    let visor = Pixel::rgb(180, 40, 30);
    let strap = Pixel::rgb(130, 90, 50);
    let brass = Pixel::rgb(220, 180, 80);

    // 14×14 — Tarkov Killa: OD-green armored brute with a slit-visor
    // helm, plate carrier festooned with ammo belt + pouches, bulging
    // gear, LMG held horizontally across the body.
    let mut s = Sprite::new(14, 14);
    // Big iron helm with rivet studs.
    s.fill_rect(4, 0, 6, 3, iron);
    s.set(4, 0, dark);
    s.set(9, 0, dark);
    s.set(5, 0, brass);
    s.set(8, 0, brass);
    // Horizontal slit visor with a thin red glow inside.
    s.fill_rect(4, 2, 6, 1, dark);
    s.set(5, 2, visor);
    s.set(6, 2, visor);
    s.set(7, 2, visor);
    s.set(8, 2, visor);
    // Chinstrap band.
    s.fill_rect(5, 3, 4, 1, dark);
    // Massive shoulder pauldrons.
    s.fill_rect(1, 3, 4, 3, plate);
    s.fill_rect(9, 3, 4, 3, plate);
    s.set(1, 3, dark);
    s.set(12, 3, dark);
    s.set(1, 5, dark);
    s.set(12, 5, dark);
    // Plate carrier torso.
    s.fill_rect(3, 4, 8, 6, plate);
    s.fill_rect(4, 5, 6, 4, dark);
    // Ammo belt — diagonal brass rounds across the chest.
    let ghost before = s;
    let mut x: u16 = 3;
    while x < 11
        invariant
            s.wf(),
            s.sw() == 14,
            s.sh() == 14,
            3 <= x <= 11,
            forall|a: int, b: int|
                s.in_bounds(a, b) ==> #[trigger] s.pixel(a, b) == (if 3 <= a < x && b == 6 {
                    Some(strap)
                } else {
                    before.pixel(a, b)
                }),
        decreases 11 - x,
    {
        s.set(x, 6, strap);
        x = x + 1;
    }
    s.set(4, 6, brass);
    s.set(6, 6, brass);
    s.set(8, 6, brass);
    // Bulging pouches on the vest.
    s.set(4, 7, strap);
    s.set(9, 7, strap);
    s.set(5, 8, brass);
    s.set(8, 8, brass);
    // LMG held across body — receiver mid-chest, barrel exiting right.
    s.fill_rect(5, 9, 9, 2, lmg);
    s.set(13, 9, muzzle);
    s.set(13, 10, muzzle);
    // Drum mag hanging beneath the receiver.
    s.set(7, 11, lmg);
    s.set(8, 11, lmg);
    // Front grip / forestock.
    s.set(10, 11, lmg);
    // Arm guards gripping the weapon.
    s.fill_rect(1, 6, 2, 4, dark);
    s.fill_rect(11, 7, 2, 3, dark);
    // Thick armored legs.
    s.fill_rect(3, 11, 3, 3, plate);
    s.fill_rect(8, 11, 3, 3, plate);
    s.set(3, 11, dark);
    s.set(5, 11, dark);
    s.set(8, 11, dark);
    s.set(10, 11, dark);
    // Chunky boots.
    s.fill_rect(3, 13, 3, 1, dark);
    s.fill_rect(8, 13, 3, 1, dark);
    proof {
        assert forall|x: int, y: int| s.in_bounds(x, y) implies #[trigger] s.pixel(x, y) == art_pixel(
            killa_art(),
            killa_palette(),
            x,
            y,
        ) by {}
    }
    s
}

pub fn zergling() -> (s: Sprite)
    ensures
        s.shows(zergling_art(), zergling_palette()),
        s.sw() == 7,
        s.sh() == 6,
{
    let body = Pixel::rgb(160, 80, 200);
    let dark = Pixel::rgb(60, 20, 90);
    let claw = Pixel::rgb(240, 220, 255);
    let claw_shade = Pixel::rgb(170, 150, 190);
    let eye = Pixel::rgb(255, 200, 80);

    // 7x6 — StarCraft zergling. Low hunched body, twin scythe claws sweep
    // out in front, back legs coiled. Wider than tall so it reads fast.
    let mut s = Sprite::new(7, 6);
    // Scythe claws out front — curved, point toward attack direction.
    s.set(0, 0, claw);
    s.set(6, 0, claw);
    s.set(0, 1, claw_shade);
    s.set(1, 1, claw);
    s.set(5, 1, claw);
    s.set(6, 1, claw_shade);
    // Spiked carapace top.
    s.set(3, 0, dark);
    // Head — narrow, set between claws.
    s.fill_rect(2, 1, 3, 1, dark);
    s.set(2, 2, body);
    s.set(4, 2, body);
    // Glowing eyes.
    s.set(3, 2, eye);
    // Main body — low, flat, wider in the middle.
    s.fill_rect(1, 3, 5, 1, body);
    s.set(1, 3, dark);
    s.set(5, 3, dark);
    // Spine ridge.
    s.set(3, 3, dark);
    // Back haunches — coiled legs at the rear.
    s.set(0, 4, dark);
    s.set(1, 4, body);
    s.set(2, 4, dark);
    s.set(4, 4, dark);
    s.set(5, 4, body);
    s.set(6, 4, dark);
    // Clawed feet.
    s.set(0, 5, claw_shade);
    s.set(2, 5, claw_shade);
    s.set(4, 5, claw_shade);
    s.set(6, 5, claw_shade);
    proof {
        assert forall|x: int, y: int| s.in_bounds(x, y) implies #[trigger] s.pixel(x, y) == art_pixel(
            zergling_art(),
            zergling_palette(),
            x,
            y,
        ) by {}
    }
    s
}

pub fn floodling() -> (s: Sprite)
    ensures
        s.shows(floodling_art(), floodling_palette()),
        s.sw() == 5,
        s.sh() == 5,
{
    let body = Pixel::rgb(180, 220, 120);
    let dark = Pixel::rgb(60, 110, 40);
    let vein = Pixel::rgb(240, 180, 200);
    let eye = Pixel::rgb(255, 100, 80);

    // 5×5 — Halo parasite infection form. Tadpole body, pink veins
    // running along the sides, twin eyes up top, tendril tail.
    let mut s = Sprite::new(5, 5);
    // Head dome.
    s.set(1, 0, dark);
    s.set(2, 0, body);
    s.set(3, 0, dark);
    // Body upper — with eyes.
    s.fill_rect(0, 1, 5, 1, body);
    s.set(0, 1, dark);
    s.set(4, 1, dark);
    s.set(1, 1, eye);
    s.set(3, 1, eye);
    // Body mid with vein stripes.
    s.fill_rect(0, 2, 5, 1, body);
    s.set(0, 2, vein);
    s.set(4, 2, vein);
    s.set(2, 2, vein);
    // Tail taper.
    s.set(1, 3, body);
    s.set(2, 3, dark);
    s.set(3, 3, body);
    // Tendril tail tips.
    s.set(0, 4, dark);
    s.set(2, 4, vein);
    s.set(4, 4, dark);
    proof {
        assert forall|x: int, y: int| s.in_bounds(x, y) implies #[trigger] s.pixel(x, y) == art_pixel(
            floodling_art(),
            floodling_palette(),
            x,
            y,
        ) by {}
    }
    s
}

pub fn flood() -> (s: Sprite)
    ensures
        s.shows(flood_art(), flood_palette()),
        s.sw() == 8,
        s.sh() == 10,
{
    let body = Pixel::rgb(120, 255, 140);
    let dark = Pixel::rgb(30, 90, 40);
    let vein = Pixel::rgb(255, 180, 220);
    let eye = Pixel::rgb(255, 40, 40);
    let claw = Pixel::rgb(230, 255, 200);

    // 8×10 — Flood combat form. Warped asymmetric humanoid with an
    // elongated tendril arm extending right and claws out left, pink
    // veins and pustules running across the torso, twisted legs.
    let mut s = Sprite::new(8, 10);
    // Lopsided head with a pustule growth.
    s.set(2, 0, dark);
    s.set(3, 0, vein);
    s.set(4, 0, dark);
    s.fill_rect(2, 1, 4, 2, body);
    s.set(2, 1, dark);
    // Burning red eyes.
    s.set(3, 1, eye);
    s.set(5, 1, eye);
    // Jaw.
    s.set(3, 2, dark);
    s.set(4, 2, dark);
    // Pustule growths on shoulders.
    s.set(0, 3, vein);
    s.set(1, 3, dark);
    s.set(6, 3, dark);
    s.set(7, 3, vein);
    // Twisted torso.
    s.fill_rect(1, 3, 6, 4, body);
    s.fill_rect(2, 4, 4, 2, dark);
    // Pustules on chest.
    s.set(3, 4, vein);
    s.set(4, 5, vein);
    // Left arm — short with clawed hand.
    s.set(0, 4, dark);
    s.set(0, 5, claw);
    s.set(1, 5, claw);
    // Elongated tendril arm to the right — multi-segment, ending in
    // long claws.
    s.set(7, 4, dark);
    s.set(7, 5, vein);
    s.set(7, 6, dark);
    s.set(6, 6, claw);
    s.set(7, 7, claw);
    // Belt transition.
    s.fill_rect(2, 6, 4, 1, dark);
    // Twisted legs.
    s.fill_rect(2, 7, 2, 3, body);
    s.fill_rect(4, 7, 2, 3, body);
    s.set(2, 7, dark);
    s.set(5, 7, dark);
    s.set(3, 8, dark);
    s.set(4, 8, dark);
    // Feet.
    s.set(2, 9, claw);
    s.set(5, 9, claw);
    proof {
        assert forall|x: int, y: int| s.in_bounds(x, y) implies #[trigger] s.pixel(x, y) == art_pixel(
            flood_art(),
            flood_palette(),
            x,
            y,
        ) by {}
    }
    s
}

pub fn flood_carrier() -> (s: Sprite)
    ensures
        s.shows(flood_carrier_art(), flood_carrier_palette()),
        s.sw() == 10,
        s.sh() == 11,
{
    let sac = Pixel::rgb(200, 240, 150);
    let dark = Pixel::rgb(90, 140, 60);
    let vein = Pixel::rgb(255, 180, 220);
    let pustule = Pixel::rgb(255, 220, 120);
    let drip = Pixel::rgb(180, 60, 100);

    // 10×11 — bloated walking sac. Enormous round body clearly reading
    // "bomb", pustules breaking through the skin, pink veins snaking
    // across, dripping fluid from underneath, tiny useless legs.
    let mut s = Sprite::new(10, 11);
    // Stubby head on top.
    s.fill_rect(4, 0, 2, 1, dark);
    s.fill_rect(3, 1, 4, 1, sac);
    s.set(3, 1, dark);
    s.set(6, 1, dark);
    // Huge bloated sac body — chamfered corners for a rounder read.
    s.fill_rect(2, 2, 6, 1, sac);
    s.fill_rect(1, 3, 8, 5, sac);
    s.fill_rect(2, 8, 6, 1, sac);
    // Outline.
    s.set(2, 2, dark);
    s.set(7, 2, dark);
    s.set(1, 3, dark);
    s.set(8, 3, dark);
    s.set(1, 7, dark);
    s.set(8, 7, dark);
    s.set(2, 8, dark);
    s.set(7, 8, dark);
    // Interior shadow.
    s.fill_rect(3, 4, 4, 3, dark);
    // Pustules bursting through the skin.
    s.set(2, 4, pustule);
    s.set(7, 4, pustule);
    s.set(4, 3, pustule);
    s.set(5, 5, pustule);
    s.set(3, 6, pustule);
    s.set(6, 6, pustule);
    s.set(4, 7, pustule);
    // Pink veins snaking across the sac.
    s.set(3, 3, vein);
    s.set(6, 3, vein);
    s.set(2, 5, vein);
    s.set(7, 5, vein);
    s.set(4, 6, vein);
    s.set(5, 7, vein);
    // Dripping fluid from underneath.
    s.set(3, 9, drip);
    s.set(6, 9, drip);
    s.set(4, 10, drip);
    // Tiny useless legs dragging.
    s.set(3, 10, dark);
    s.set(6, 10, dark);
    proof {
        assert forall|x: int, y: int| s.in_bounds(x, y) implies #[trigger] s.pixel(x, y) == art_pixel(
            flood_carrier_art(),
            flood_carrier_palette(),
            x,
            y,
        ) by {}
    }
    s
}

pub fn miniboss() -> (s: Sprite)
    ensures
        s.shows(miniboss_art(), miniboss_palette()),
        s.sw() == 18,
        s.sh() == 18,
{
    let body = Pixel::rgb(255, 190, 60);
    let dark = Pixel::rgb(160, 90, 20);
    let armor = Pixel::rgb(90, 50, 10);
    let spike = Pixel::rgb(255, 245, 200);
    let eye = Pixel::rgb(255, 80, 80);
    let tusk = Pixel::rgb(230, 210, 160);

    // 18×18 — giant armored brute. Massive curling horns, pauldrons with
    // spikes, heavy chest plate with boss glow, jutting tusks, tree-trunk
    // legs ending in hoof-spikes.
    let mut s = Sprite::new(18, 18);
    // Curling horns rising off the helm.
    s.set(2, 0, spike);
    s.set(3, 0, spike);
    s.set(14, 0, spike);
    s.set(15, 0, spike);
    s.set(1, 1, spike);
    s.set(4, 1, spike);
    s.set(13, 1, spike);
    s.set(16, 1, spike);
    // Helm band wrapping the head.
    s.fill_rect(4, 1, 10, 4, dark);
    s.fill_rect(5, 2, 8, 2, armor);
    // Glowing twin eyes.
    s.set(6, 3, eye);
    s.set(7, 3, eye);
    s.set(10, 3, eye);
    s.set(11, 3, eye);
    // Jaw/face plate.
    s.fill_rect(5, 4, 8, 1, dark);
    // Tusks jutting down from the jaw corners.
    s.set(4, 5, tusk);
    s.set(13, 5, tusk);
    s.set(5, 5, tusk);
    s.set(12, 5, tusk);
    // Massive pauldrons with a spike cap.
    s.fill_rect(0, 4, 4, 5, armor);
    s.fill_rect(14, 4, 4, 5, armor);
    s.set(0, 4, spike);
    s.set(17, 4, spike);
    s.set(1, 5, dark);
    s.set(16, 5, dark);
    // Huge torso.
    s.fill_rect(3, 5, 12, 9, body);
    // Chest plate with rivets / studs.
    s.fill_rect(5, 6, 8, 6, armor);
    s.fill_rect(6, 7, 6, 4, dark);
    // Central boss glow / gem.
    s.set(8, 8, eye);
    s.set(9, 8, eye);
    s.set(8, 9, spike);
    s.set(9, 9, spike);
    // Rivet corners on plate.
    s.set(5, 6, spike);
    s.set(12, 6, spike);
    s.set(5, 11, spike);
    s.set(12, 11, spike);
    // Arm guards / bracers.
    s.fill_rect(0, 9, 3, 5, dark);
    s.fill_rect(15, 9, 3, 5, dark);
    s.set(1, 10, armor);
    s.set(16, 10, armor);
    // Fists.
    s.fill_rect(0, 13, 3, 2, armor);
    s.fill_rect(15, 13, 3, 2, armor);
    // Belt.
    s.fill_rect(3, 13, 12, 1, dark);
    // Tree-trunk legs with kneepads.
    s.fill_rect(3, 14, 5, 4, armor);
    s.fill_rect(10, 14, 5, 4, armor);
    s.fill_rect(4, 15, 3, 1, dark);
    s.fill_rect(11, 15, 3, 1, dark);
    // Hoof-spikes at the base.
    s.set(3, 17, spike);
    s.set(7, 17, spike);
    s.set(10, 17, spike);
    s.set(14, 17, spike);
    s.set(4, 17, dark);
    s.set(6, 17, dark);
    s.set(11, 17, dark);
    s.set(13, 17, dark);
    proof {
        assert forall|x: int, y: int| s.in_bounds(x, y) implies #[trigger] s.pixel(x, y) == art_pixel(
            miniboss_art(),
            miniboss_palette(),
            x,
            y,
        ) by {}
    }
    s
}

} // verus!
