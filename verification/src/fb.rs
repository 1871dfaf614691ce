//! Pixels and the pixel framebuffer sprites are stamped into.
use vstd::prelude::*;

verus! {

/// An RGB color.
#[derive(Clone, Copy, PartialEq, Eq, Structural, Debug, Hash)]
pub struct Pixel {
    pub r: u8,
    pub g: u8,
    pub b: u8,
}

impl Pixel {
    pub open spec fn spec_black() -> Pixel {
        Pixel { r: 0, g: 0, b: 0 }
    }

    /// Pure black.
    #[verifier::when_used_as_spec(spec_black)]
    pub fn black() -> (p: Pixel)
        ensures
            p == Pixel::spec_black(),
    {
        Pixel { r: 0, g: 0, b: 0 }
    }

    pub open spec fn spec_rgb(r: u8, g: u8, b: u8) -> Pixel {
        Pixel { r, g, b }
    }

    #[verifier::when_used_as_spec(spec_rgb)]
    pub fn rgb(r: u8, g: u8, b: u8) -> (p: Pixel)
        ensures
            p == Pixel::spec_rgb(r, g, b),
    {
        Pixel { r, g, b }
    }
}

/// A `width` × `height` grid of pixels, row-major.
pub struct Framebuffer {
    width: u16,
    height: u16,
    pixels: Vec<Pixel>,
}

impl Framebuffer {
    #[verifier::type_invariant]
    spec fn inv(self) -> bool {
        self.pixels@.len() == self.width as int * self.height as int
    }

    pub closed spec fn spec_width(self) -> int {
        self.width as int
    }

    pub closed spec fn spec_height(self) -> int {
        self.height as int
    }

    /// Dimensions are 16-bit.
    pub proof fn lemma_dims(&self)
        ensures
            0 <= self.spec_width() <= 65535,
            0 <= self.spec_height() <= 65535,
    {
    }

    /// The pixel at an in-bounds position.
    pub closed spec fn at(self, x: int, y: int) -> Pixel {
        self.pixels@[y * self.width + x]
    }

    pub open spec fn in_bounds(self, x: int, y: int) -> bool {
        0 <= x < self.spec_width() && 0 <= y < self.spec_height()
    }

    /// `self` is `old` with exactly the pixel at `(x, y)` set to `c`
    /// (nothing changes when `(x, y)` is outside).
    pub open spec fn set_result(old: Framebuffer, new: Framebuffer, x: int, y: int, c: Pixel) -> bool {
        &&& new.spec_width() == old.spec_width()
        &&& new.spec_height() == old.spec_height()
        &&& forall|a: int, b: int|
            new.in_bounds(a, b) ==> #[trigger] new.at(a, b) == (if a == x && b == y {
                c
            } else {
                old.at(a, b)
            })
    }

    /// A black framebuffer of the given size.
    pub fn new(width: u16, height: u16) -> (f: Self)
        ensures
            f.spec_width() == width,
            f.spec_height() == height,
            forall|x: int, y: int| f.in_bounds(x, y) ==> #[trigger] f.at(x, y) == Pixel::black(),
    {
        proof {
            lemma_index_bounds(0, 0, width as int, height as int);
            assert(width as int * height as int <= 65535 * 65535) by (nonlinear_arith)
                requires
                    width <= 65535,
                    height <= 65535,
            ;
        }
        let n: usize = (width as usize) * (height as usize);
        let mut pixels: Vec<Pixel> = Vec::new();
        let mut i: usize = 0;
        while i < n
            invariant
                i <= n,
                n == width as int * height as int,
                pixels@.len() == i,
                forall|j: int| 0 <= j < i ==> pixels@[j] == Pixel::black(),
            decreases n - i,
        {
            pixels.push(Pixel::black());
            i = i + 1;
        }
        let f = Framebuffer { width, height, pixels };
        assert forall|x: int, y: int| f.in_bounds(x, y) implies #[trigger] f.at(x, y) == Pixel::black() by {
            lemma_index_bounds(x, y, width as int, height as int);
        }
        f
    }

    pub fn width(&self) -> (w: u16)
        ensures
            w == self.spec_width(),
    {
        self.width
    }

    pub fn height(&self) -> (h: u16)
        ensures
            h == self.spec_height(),
    {
        self.height
    }

    pub fn get(&self, x: u16, y: u16) -> (p: Option<Pixel>)
        ensures
            self.in_bounds(x as int, y as int) ==> p == Some(self.at(x as int, y as int)),
            !self.in_bounds(x as int, y as int) ==> p is None,
    {
        proof {
            use_type_invariant(self);
        }
        if x >= self.width || y >= self.height {
            return None;
        }
        proof {
            lemma_index_bounds(x as int, y as int, self.width as int, self.height as int);
        }
        Some(self.pixels[(y as usize) * (self.width as usize) + (x as usize)])
    }

    /// Paint one pixel; positions outside the buffer are ignored.
    pub fn set(&mut self, x: u16, y: u16, c: Pixel)
        ensures
            Framebuffer::set_result(*old(self), *final(self), x as int, y as int, c),
    {
        proof {
            use_type_invariant(&*self);
        }
        if x >= self.width || y >= self.height {
            return;
        }
        proof {
            lemma_index_bounds(x as int, y as int, self.width as int, self.height as int);
        }
        let idx = (y as usize) * (self.width as usize) + (x as usize);
        let mut taken = Framebuffer { width: 0, height: 0, pixels: Vec::new() };
        core::mem::swap(self, &mut taken);
        let Framebuffer { width, height, mut pixels } = taken;
        pixels.set(idx, c);
        *self = Framebuffer { width, height, pixels };
        assert forall|a: int, b: int| self.in_bounds(a, b) implies #[trigger] self.at(a, b) == (if a == x
            && b == y {
            c
        } else {
            old(self).at(a, b)
        }) by {
            lemma_index_bounds(a, b, width as int, height as int);
            if !(a == x && b == y) {
                lemma_index_distinct(a, b, x as int, y as int, width as int);
            }
        }
    }
}

proof fn lemma_index_bounds(x: int, y: int, w: int, h: int)
    requires
        0 <= x < w || (x == 0 && y == 0),
        0 <= y < h || (x == 0 && y == 0),
        0 <= w <= 65535,
        0 <= h <= 65535,
    ensures
        w * h <= 65535 * 65535,
        (0 <= x < w && 0 <= y < h) ==> 0 <= y * w + x < w * h,
{
    assert(w * h <= 65535 * 65535) by (nonlinear_arith)
        requires
            0 <= w <= 65535,
            0 <= h <= 65535,
    ;
    if 0 <= x < w && 0 <= y < h {
        assert(y * w + x < w * h) by (nonlinear_arith)
            requires
                0 <= x < w,
                0 <= y < h,
        ;
        assert(0 <= y * w) by (nonlinear_arith)
            requires
                0 <= y,
                0 <= w,
        ;
    }
}

proof fn lemma_index_distinct(a: int, b: int, x: int, y: int, w: int)
    requires
        0 <= a < w,
        0 <= x < w,
        0 <= b,
        0 <= y,
        !(a == x && b == y),
    ensures
        b * w + a != y * w + x,
{
    if b < y {
        assert(b * w + w <= y * w) by (nonlinear_arith)
            requires
                b < y,
                0 <= w,
        ;
    } else if b > y {
        assert(y * w + w <= b * w) by (nonlinear_arith)
            requires
                y < b,
                0 <= w,
        ;
    }
}

} // verus!
