//! An 8-bit RGBA pixel buffer, row-major, and its mathematical model.

use vstd::prelude::*;

verus! {

/// One RGBA pixel with 8-bit channels.
#[derive(Clone, Copy, Debug, PartialEq, Eq, Structural)]
pub struct Pixel {
    pub r: u8,
    pub g: u8,
    pub b: u8,
    pub a: u8,
}

impl Pixel {
    /// Builds a pixel from its four channels.
    pub fn rgba(r: u8, g: u8, b: u8, a: u8) -> (p: Pixel)
        ensures
            p == (Pixel { r, g, b, a }),
    {
        Pixel { r, g, b, a }
    }

    /// The fully transparent black pixel, which a freshly allocated image holds.
    pub open spec fn spec_transparent() -> Pixel {
        Pixel { r: 0, g: 0, b: 0, a: 0 }
    }

    pub fn transparent() -> (p: Pixel)
        ensures
            p == Pixel::spec_transparent(),
    {
        Pixel { r: 0, g: 0, b: 0, a: 0 }
    }
}

/// The mathematical content of a raster: its dimensions and its pixels in
/// row-major order.
pub struct RasterModel {
    pub width: nat,
    pub height: nat,
    pub pixels: Seq<Pixel>,
}

impl RasterModel {
    /// The pixels sequence matches the dimensions.
    pub open spec fn wf(self) -> bool {
        self.pixels.len() == self.width * self.height
    }

    /// Row-major index of `(x, y)`.
    pub open spec fn index(self, x: int, y: int) -> int {
        y * self.width + x
    }

    pub open spec fn in_bounds(self, x: int, y: int) -> bool {
        0 <= x < self.width && 0 <= y < self.height
    }

    /// The pixel at `(x, y)`.
    pub open spec fn at(self, x: int, y: int) -> Pixel {
        self.pixels[self.index(x, y)]
    }

    /// Two models agree everywhere except possibly inside the rectangle
    /// `[x0, x1) × [y0, y1)`.
    pub open spec fn same_outside(self, other: RasterModel, x0: int, y0: int, x1: int, y1: int) -> bool {
        &&& self.width == other.width
        &&& self.height == other.height
        &&& forall|x: int, y: int|
            #![trigger other.at(x, y)]
            self.in_bounds(x, y) && !(x0 <= x < x1 && y0 <= y < y1) ==> other.at(x, y) == self.at(x, y)
    }
}

/// Row-major index arithmetic stays within the pixel sequence.
pub proof fn lemma_index_in_range(w: nat, h: nat, x: int, y: int)
    requires
        0 <= x < w,
        0 <= y < h,
    ensures
        0 <= y * w + x < w * h,
        y * w + x + 1 <= w * h,
{
    assert(y * w + x < w * h) by (nonlinear_arith)
        requires
            0 <= x < w,
            0 <= y < h,
    ;
    assert(0 <= y * w) by (nonlinear_arith)
        requires
            0 <= y,
    ;
}

/// Distinct in-bounds coordinates have distinct row-major indices, and each
/// index determines its coordinates.
pub proof fn lemma_index_injective(w: nat, x1: int, y1: int, x2: int, y2: int)
    requires
        0 <= x1 < w,
        0 <= x2 < w,
        0 <= y1,
        0 <= y2,
        y1 * w + x1 == y2 * w + x2,
    ensures
        x1 == x2,
        y1 == y2,
{
    if y1 < y2 {
        assert(y1 * w + w <= y2 * w) by (nonlinear_arith)
            requires
                y1 < y2,
                0 <= y1,
        ;
    } else if y2 < y1 {
        assert(y2 * w + w <= y1 * w) by (nonlinear_arith)
            requires
                y2 < y1,
                0 <= y2,
        ;
    }
}

/// Two well-formed models with the same dimensions and the same pixel at
/// every coordinate are equal.
pub proof fn lemma_models_equal(a: RasterModel, b: RasterModel)
    requires
        a.wf(),
        b.wf(),
        a.width == b.width,
        a.height == b.height,
        forall|x: int, y: int| #![trigger a.at(x, y)] a.in_bounds(x, y) ==> a.at(x, y) == b.at(x, y),
    ensures
        a == b,
{
    let w = a.width;
    assert forall|i: int| 0 <= i < a.pixels.len() implies a.pixels[i] == b.pixels[i] by {
        let x = i % (w as int);
        let y = i / (w as int);
        assert(w > 0) by {
            if w == 0 {
                assert(a.pixels.len() == 0) by (nonlinear_arith)
                    requires
                        a.pixels.len() == w * a.height,
                        w == 0,
                ;
            }
        }
        vstd::arithmetic::div_mod::lemma_fundamental_div_mod(i, w as int);
        vstd::arithmetic::div_mod::lemma_mod_bound(i, w as int);
        assert(y < a.height) by (nonlinear_arith)
            requires
                i == (w as int) * y + x,
                0 <= x,
                i < w * a.height,
                w > 0,
        ;
        assert(0 <= y) by (nonlinear_arith)
            requires
                i == (w as int) * y + x,
                x < w,
                0 <= i,
                w > 0,
        ;
        assert(a.at(x, y) == b.at(x, y));
        assert(y * w + x == i) by (nonlinear_arith)
            requires
                i == (w as int) * y + x,
        ;
    }
    assert(a.pixels =~= b.pixels);
}

/// `bytes` is the interleaved RGBA encoding of `pixels`: four bytes per
/// pixel in the order red, green, blue, alpha.
pub open spec fn is_rgba_encoding(pixels: Seq<Pixel>, bytes: Seq<u8>) -> bool {
    &&& bytes.len() == 4 * pixels.len()
    &&& forall|i: int|
        #![trigger pixels[i]]
        0 <= i < pixels.len() ==> {
            &&& bytes[4 * i] == pixels[i].r
            &&& bytes[4 * i + 1] == pixels[i].g
            &&& bytes[4 * i + 2] == pixels[i].b
            &&& bytes[4 * i + 3] == pixels[i].a
        }
}

/// `new` differs from `old` at most in rows `y0..y1`.
pub open spec fn same_outside_rows(old: RasterModel, new: RasterModel, y0: int, y1: int) -> bool {
    &&& new.wf()
    &&& new.width == old.width
    &&& new.height == old.height
    &&& forall|x: int, y: int|
        #![trigger new.at(x, y)]
        new.in_bounds(x, y) && !(y0 <= y < y1) ==> new.at(x, y) == old.at(x, y)
}

/// An RGBA image with 8 bits per channel, row-major.
pub struct RgbaRaster {
    width: u32,
    height: u32,
    pixels: Vec<Pixel>,
}

impl View for RgbaRaster {
    type V = RasterModel;

    closed spec fn view(&self) -> RasterModel {
        RasterModel { width: self.width as nat, height: self.height as nat, pixels: self.pixels@ }
    }
}

impl RgbaRaster {
    /// The dimensions of a raster fit in `u32`.
    pub proof fn lemma_dims_fit(&self)
        ensures
            self@.width <= u32::MAX,
            self@.height <= u32::MAX,
    {
    }

    /// The pixel vector holds exactly `width * height` pixels.
    pub open spec fn wf(&self) -> bool {
        self@.wf()
    }

    /// A `width × height` image filled with `fill`.
    pub fn from_pixel(width: u32, height: u32, fill: Pixel) -> (img: RgbaRaster)
        requires
            width * height <= usize::MAX,
        ensures
            img.wf(),
            img@.width == width,
            img@.height == height,
            forall|x: int, y: int| #![trigger img@.at(x, y)] img@.in_bounds(x, y) ==> img@.at(x, y) == fill,
    {
        let n: usize = (width as usize) * (height as usize);
        let mut pixels: Vec<Pixel> = Vec::with_capacity(n);
        let mut i: usize = 0;
        while i < n
            invariant
                i <= n,
                pixels@.len() == i,
                forall|k: int| 0 <= k < i ==> pixels@[k] == fill,
            decreases n - i,
        {
            pixels.push(fill);
            i = i + 1;
        }
        let img = RgbaRaster { width, height, pixels };
        proof {
            assert forall|x: int, y: int| #![trigger img@.at(x, y)] img@.in_bounds(x, y) implies img@.at(x, y) == fill by {
                lemma_index_in_range(width as nat, height as nat, x, y);
            }
        }
        img
    }

    /// A `width × height` image of transparent black pixels.
    pub fn new(width: u32, height: u32) -> (img: RgbaRaster)
        requires
            width * height <= usize::MAX,
        ensures
            img.wf(),
            img@.width == width,
            img@.height == height,
            forall|x: int, y: int| #![trigger img@.at(x, y)] img@.in_bounds(x, y) ==> img@.at(x, y) == Pixel::spec_transparent(),
    {
        RgbaRaster::from_pixel(width, height, Pixel::transparent())
    }

    /// Wraps a row-major pixel vector; `None` when its length is not
    /// `width * height`.
    pub fn from_pixels(width: u32, height: u32, pixels: Vec<Pixel>) -> (img: Option<RgbaRaster>)
        ensures
            img is Some <==> pixels@.len() == width * height,
            img matches Some(r) ==> r.wf() && r@ == (RasterModel { width: width as nat, height: height as nat, pixels: pixels@ }),
    {
        let n = pixels.len();
        if height == 0 {
            if n == 0 {
                Some(RgbaRaster { width, height, pixels })
            } else {
                None
            }
        } else if n % (height as usize) == 0 && n / (height as usize) == width as usize {
            proof {
                assert(n == (n / (height as usize)) * (height as usize)) by (nonlinear_arith)
                    requires
                        n % (height as usize) == 0,
                        height > 0,
                ;
            }
            Some(RgbaRaster { width, height, pixels })
        } else {
            proof {
                if n == width * height {
                    assert((width * height) % (height as int) == 0 && (width * height) / (height as int) == width) by (nonlinear_arith)
                        requires
                            height > 0,
                            width >= 0,
                    ;
                }
            }
            None
        }
    }

    pub fn width(&self) -> (w: u32)
        ensures
            w == self@.width,
    {
        self.width
    }

    pub fn height(&self) -> (h: u32)
        ensures
            h == self@.height,
    {
        self.height
    }

    /// `(width, height)`.
    pub fn dimensions(&self) -> (d: (u32, u32))
        ensures
            d.0 == self@.width,
            d.1 == self@.height,
    {
        (self.width, self.height)
    }

    /// The pixels in row-major order.
    pub fn pixels(&self) -> (p: &Vec<Pixel>)
        ensures
            p@ == self@.pixels,
    {
        &self.pixels
    }

    /// The pixel at `(x, y)`.
    pub fn get_pixel(&self, x: u32, y: u32) -> (p: Pixel)
        requires
            self.wf(),
            x < self@.width,
            y < self@.height,
        ensures
            p == self@.at(x as int, y as int),
    {
        proof {
            lemma_index_in_range(self.width as nat, self.height as nat, x as int, y as int);
        }
        let len = self.pixels.len();
        let idx: usize = (y as usize) * (self.width as usize) + (x as usize);
        proof {
            assert(idx < len);
        }
        self.pixels[idx]
    }

    /// Overwrites the pixel at `(x, y)`.
    pub fn put_pixel(&mut self, x: u32, y: u32, p: Pixel)
        requires
            old(self).wf(),
            x < old(self)@.width,
            y < old(self)@.height,
        ensures
            final(self).wf(),
            final(self)@.width == old(self)@.width,
            final(self)@.height == old(self)@.height,
            final(self)@.pixels == old(self)@.pixels.update(old(self)@.index(x as int, y as int), p),
            final(self)@.at(x as int, y as int) == p,
            forall|xx: int, yy: int|
                #![trigger final(self)@.at(xx, yy)]
                final(self)@.in_bounds(xx, yy) && (xx != x || yy != y) ==> final(self)@.at(xx, yy) == old(self)@.at(xx, yy),
    {
        proof {
            lemma_index_in_range(self.width as nat, self.height as nat, x as int, y as int);
        }
        let len = self.pixels.len();
        let idx: usize = (y as usize) * (self.width as usize) + (x as usize);
        proof {
            assert(idx < len);
        }
        self.pixels.set(idx, p);
        proof {
            let w = self.width as nat;
            assert forall|xx: int, yy: int|
                #![trigger self@.at(xx, yy)]
                self@.in_bounds(xx, yy) && (xx != x || yy != y) implies self@.at(xx, yy) == old(self)@.at(xx, yy) by {
                lemma_index_in_range(w, self.height as nat, xx, yy);
                if yy * w + xx == y * w + x {
                    lemma_index_injective(w, xx, yy, x as int, y as int);
                }
            }
        }
    }

    /// The interleaved RGBA bytes of the image, row-major.
    pub fn to_rgba_bytes(&self) -> (bytes: Vec<u8>)
        ensures
            is_rgba_encoding(self@.pixels, bytes@),
    {
        let n = self.pixels.len();
        let mut bytes: Vec<u8> = Vec::new();
        let mut i: usize = 0;
        while i < n
            invariant
                n == self@.pixels.len(),
                i <= n,
                bytes@.len() == 4 * i,
                forall|k: int|
                    #![trigger self@.pixels[k]]
                    0 <= k < i ==> {
                        &&& bytes@[4 * k] == self@.pixels[k].r
                        &&& bytes@[4 * k + 1] == self@.pixels[k].g
                        &&& bytes@[4 * k + 2] == self@.pixels[k].b
                        &&& bytes@[4 * k + 3] == self@.pixels[k].a
                    },
            decreases n - i,
        {
            let p = self.pixels[i];
            bytes.push(p.r);
            bytes.push(p.g);
            bytes.push(p.b);
            bytes.push(p.a);
            i = i + 1;
        }
        bytes
    }

    /// Decodes interleaved RGBA bytes into a `width × height` image; `None`
    /// when the byte count is not `4 * width * height`.
    pub fn from_rgba_bytes(width: u32, height: u32, bytes: &Vec<u8>) -> (img: Option<RgbaRaster>)
        ensures
            img is Some <==> bytes@.len() == 4 * (width * height),
            img matches Some(r) ==> r.wf() && r@.width == width && r@.height == height && is_rgba_encoding(r@.pixels, bytes@),
    {
        let len = bytes.len();
        if len % 4 != 0 {
            return None;
        }
        let n = len / 4;
        let mut pixels: Vec<Pixel> = Vec::new();
        let mut i: usize = 0;
        while i < n
            invariant
                len == bytes@.len(),
                n == len / 4,
                len % 4 == 0,
                i <= n,
                pixels@.len() == i,
                forall|k: int|
                    #![trigger pixels@[k]]
                    0 <= k < i ==> {
                        &&& bytes@[4 * k] == pixels@[k].r
                        &&& bytes@[4 * k + 1] == pixels@[k].g
                        &&& bytes@[4 * k + 2] == pixels@[k].b
                        &&& bytes@[4 * k + 3] == pixels@[k].a
                    },
            decreases n - i,
        {
            let base = 4 * i;
            let p = Pixel { r: bytes[base], g: bytes[base + 1], b: bytes[base + 2], a: bytes[base + 3] };
            pixels.push(p);
            i = i + 1;
        }
        let r = RgbaRaster::from_pixels(width, height, pixels);
        r
    }

    /// Paints every pixel of rows `y0..y1` with `color`.
    pub fn fill_rows(&mut self, y0: u32, y1: u32, color: Pixel)
        requires
            old(self).wf(),
            y0 <= y1 <= old(self)@.height,
        ensures
            same_outside_rows(old(self)@, final(self)@, y0 as int, y1 as int),
            forall|x: int, y: int|
                #![trigger final(self)@.at(x, y)]
                final(self)@.in_bounds(x, y) && y0 <= y < y1 ==> final(self)@.at(x, y) == color,
    {
        let ghost orig = self@;
        let w = self.width;
        let mut y: u32 = y0;
        while y < y1
            invariant
                y0 <= y <= y1,
                y1 <= orig.height,
                w == orig.width,
                self.wf(),
                self@.width == orig.width,
                self@.height == orig.height,
                forall|px: int, py: int|
                    #![trigger self@.at(px, py)]
                    self@.in_bounds(px, py) ==> self@.at(px, py) == (if y0 <= py < y { color } else { orig.at(px, py) }),
            decreases y1 - y,
        {
            let mut x: u32 = 0;
            while x < w
                invariant
                    y0 <= y < y1,
                    y1 <= orig.height,
                    x <= w,
                    w == orig.width,
                    self.wf(),
                    self@.width == orig.width,
                    self@.height == orig.height,
                    forall|px: int, py: int|
                        #![trigger self@.at(px, py)]
                        self@.in_bounds(px, py) ==> self@.at(px, py) == (if y0 <= py < y || (py == y && px < x) { color } else { orig.at(px, py) }),
                decreases w - x,
            {
                self.put_pixel(x, y, color);
                x = x + 1;
            }
            y = y + 1;
        }
    }

    /// A copy of the image.
    pub fn clone_raster(&self) -> (out: RgbaRaster)
        ensures
            out@ == self@,
    {
        RgbaRaster { width: self.width, height: self.height, pixels: self.pixels.clone() }
    }
}

} // verus!
