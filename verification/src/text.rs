//! Drawing short ASCII strings into a raster with the built-in 5×7 font.

use vstd::prelude::*;
use crate::font::{glyph, glyph_bits, glyph_pixel};
use crate::raster::{Pixel, RasterModel, RgbaRaster};

verus! {

/// ASCII upper-casing: `'a'..='z'` map to `'A'..='Z'`, everything else is kept.
pub open spec fn ascii_upper(c: char) -> char {
    if 'a' <= c && c <= 'z' {
        ((c as int) - 32) as char
    } else {
        c
    }
}

/// Upper-cases an ASCII letter, leaving every other character unchanged.
pub fn to_ascii_upper(c: char) -> (u: char)
    ensures
        u == ascii_upper(c),
{
    if 'a' <= c && c <= 'z' {
        let b: u8 = (c as u8) - 32;
        b as char
    } else {
        c
    }
}

/// The glyph cell with top-left corner `(x, y0)` lights `(px, py)`: the pixel
/// lies in the 5×7 cell, left of `max_x`, inside the `w × h` image, and the
/// glyph's bit for it is set.
pub open spec fn glyph_covers(bits: u64, x: int, y0: int, max_x: int, w: int, h: int, px: int, py: int) -> bool {
    &&& x <= px < x + 5
    &&& y0 <= py < y0 + 7
    &&& px < max_x
    &&& px < w
    &&& py < h
    &&& glyph_pixel(bits, px - x, py - y0)
}

/// Draws one glyph cell with its top-left corner at `(x, y0)`, clipping at
/// column `max_x` and at the image border.
pub fn draw_glyph(img: &mut RgbaRaster, bits: u64, x: u32, y0: u32, max_x: u32, color: Pixel)
    requires
        old(img).wf(),
        x + 5 <= u32::MAX,
        y0 + 7 <= u32::MAX,
    ensures
        final(img).wf(),
        final(img)@.width == old(img)@.width,
        final(img)@.height == old(img)@.height,
        forall|px: int, py: int|
            #![trigger final(img)@.at(px, py)]
            final(img)@.in_bounds(px, py) ==> final(img)@.at(px, py) == (if glyph_covers(
                bits, x as int, y0 as int, max_x as int, old(img)@.width as int, old(img)@.height as int, px, py,
            ) {
                color
            } else {
                old(img)@.at(px, py)
            }),
{
    let ghost orig: RasterModel = img@;
    let ghost w: int = orig.width as int;
    let ghost h: int = orig.height as int;
    let mut gy: u32 = 0;
    while gy < 7
        invariant
            gy <= 7,
            x + 5 <= u32::MAX,
            y0 + 7 <= u32::MAX,
            img.wf(),
            w == orig.width,
            h == orig.height,
            img@.width == orig.width,
            img@.height == orig.height,
            forall|px: int, py: int|
                #![trigger img@.at(px, py)]
                img@.in_bounds(px, py) ==> img@.at(px, py) == (if glyph_covers(bits, x as int, y0 as int, max_x as int, w, h, px, py) && py < y0 + gy {
                    color
                } else {
                    orig.at(px, py)
                }),
        decreases 7 - gy,
    {
        let mut gx: u32 = 0;
        while gx < 5
            invariant
                gy < 7,
                gx <= 5,
                x + 5 <= u32::MAX,
                y0 + 7 <= u32::MAX,
                img.wf(),
                w == orig.width,
                h == orig.height,
                img@.width == orig.width,
                img@.height == orig.height,
                forall|px: int, py: int|
                    #![trigger img@.at(px, py)]
                    img@.in_bounds(px, py) ==> img@.at(px, py) == (if glyph_covers(bits, x as int, y0 as int, max_x as int, w, h, px, py)
                        && (py < y0 + gy || (py == y0 + gy && px < x + gx)) {
                        color
                    } else {
                        orig.at(px, py)
                    }),
            decreases 5 - gx,
        {
            let bit: u64 = ((6 - gy) * 5 + (4 - gx)) as u64;
            let px: u32 = x + gx;
            let py: u32 = y0 + gy;
            let lit: bool = (bits >> bit) & 1 != 0;
            let ghost prev: RasterModel = img@;
            proof {
                assert(glyph_pixel(bits, px - x, py - y0) == lit);
            }
            let iw = img.width();
            let ih = img.height();
            if lit && px < max_x && px < iw && py < ih {
                img.put_pixel(px, py, color);
            }
            proof {
                assert forall|qx: int, qy: int|
                    #![trigger img@.at(qx, qy)]
                    img@.in_bounds(qx, qy) implies img@.at(qx, qy) == (if glyph_covers(bits, x as int, y0 as int, max_x as int, w, h, qx, qy)
                        && (qy < y0 + gy || (qy == y0 + gy && qx < x + gx + 1)) {
                        color
                    } else {
                        orig.at(qx, qy)
                    }) by {
                    if qx == px && qy == py {
                        if lit && px < max_x && px < w && py < h {
                            assert(glyph_covers(bits, x as int, y0 as int, max_x as int, w, h, qx, qy));
                        } else {
                            assert(!glyph_covers(bits, x as int, y0 as int, max_x as int, w, h, qx, qy));
                            assert(img@.at(qx, qy) == prev.at(qx, qy));
                        }
                    } else {
                        assert(img@.at(qx, qy) == prev.at(qx, qy));
                    }
                }
            }
            gx = gx + 1;
        }
        gy = gy + 1;
    }
}

/// Character slot `k` of a string whose first `n` characters are eligible is
/// drawn: the first slot always is; a later one only while its cell still
/// ends left of `max_x`.
pub open spec fn slot_drawn(k: int, n: int, x0: int, max_x: int) -> bool {
    0 <= k < n && (k == 0 || x0 + 6 * k + 5 <= max_x)
}

/// The number of characters of `text` considered when at most `max_chars`
/// are drawn.
pub open spec fn eligible_chars(text: Seq<char>, max_chars: int) -> int {
    if text.len() < max_chars {
        text.len() as int
    } else {
        max_chars
    }
}

/// Drawing `text` with its first cell at `(x0, y0)` lights `(px, py)`.
/// Characters advance six pixels each; the slot is found from the column.
pub open spec fn text_covers(
    text: Seq<char>,
    max_chars: int,
    x0: int,
    y0: int,
    max_x: int,
    w: int,
    h: int,
    px: int,
    py: int,
) -> bool {
    let k = (px - x0) / 6;
    &&& px >= x0
    &&& slot_drawn(k, eligible_chars(text, max_chars), x0, max_x)
    &&& glyph_bits(ascii_upper(text[k])) matches Some(b)
    &&& glyph_covers(b, x0 + 6 * k, y0, max_x, w, h, px, py)
}

/// The raster `new` is `old` with `text` drawn in `color`.
pub open spec fn text_drawn(
    old: RasterModel,
    new: RasterModel,
    text: Seq<char>,
    max_chars: int,
    x0: int,
    y0: int,
    max_x: int,
    color: Pixel,
) -> bool {
    &&& new.wf()
    &&& new.width == old.width
    &&& new.height == old.height
    &&& forall|px: int, py: int|
        #![trigger new.at(px, py)]
        new.in_bounds(px, py) ==> new.at(px, py) == (if text_covers(
            text, max_chars, x0, y0, max_x, old.width as int, old.height as int, px, py,
        ) {
            color
        } else {
            old.at(px, py)
        })
}

/// Draws at most `max_chars` characters of `text`, upper-cased, starting at
/// `(x0, y0)`: each character takes a 5-pixel cell followed by one pixel of
/// spacing, characters outside the font leave their cell blank, nothing is
/// drawn at or right of column `max_x`, and drawing stops as soon as the next
/// cell would end right of `max_x`.
pub fn draw_text(img: &mut RgbaRaster, text: &str, x0: u32, y0: u32, max_x: u32, color: Pixel, max_chars: usize)
    requires
        old(img).wf(),
        x0 + 6 * max_chars + 11 <= u32::MAX,
        y0 + 7 <= u32::MAX,
    ensures
        text_drawn(old(img)@, final(img)@, text@, max_chars as int, x0 as int, y0 as int, max_x as int, color),
{
    let ghost orig: RasterModel = img@;
    let ghost w: int = orig.width as int;
    let ghost h: int = orig.height as int;
    let len = text.unicode_len();
    let n: usize = if len < max_chars { len } else { max_chars };
    let mut x: u32 = x0;
    let mut i: usize = 0;
    while i < n && (i == 0 || x + 5 <= max_x)
        invariant
            n == eligible_chars(text@, max_chars as int),
            n <= max_chars,
            len == text@.len(),
            i <= n,
            x == x0 + 6 * i,
            x0 + 6 * max_chars + 11 <= u32::MAX,
            y0 + 7 <= u32::MAX,
            i == 0 || x0 + 6 * (i - 1) + 5 <= max_x || i == 1,
            forall|k: int| 0 <= k < i ==> slot_drawn(k, n as int, x0 as int, max_x as int),
            img.wf(),
            w == orig.width,
            h == orig.height,
            img@.width == orig.width,
            img@.height == orig.height,
            forall|px: int, py: int|
                #![trigger img@.at(px, py)]
                img@.in_bounds(px, py) ==> img@.at(px, py) == (if text_covers(text@, max_chars as int, x0 as int, y0 as int, max_x as int, w, h, px, py)
                    && (px - x0) / 6 < i {
                    color
                } else {
                    orig.at(px, py)
                }),
        decreases n - i,
    {
        proof {
            assert(slot_drawn(i as int, n as int, x0 as int, max_x as int));
        }
        let ch = text.get_char(i);
        let upper = to_ascii_upper(ch);
        proof {
            assert(text@[i as int] == ch);
        }
        let ghost before: RasterModel = img@;
        match glyph(upper) {
            Some(bits) => {
                draw_glyph(img, bits, x, y0, max_x, color);
                proof {
                    assert forall|px: int, py: int|
                        #![trigger img@.at(px, py)]
                        img@.in_bounds(px, py) implies img@.at(px, py) == (if text_covers(text@, max_chars as int, x0 as int, y0 as int, max_x as int, w, h, px, py)
                            && (px - x0) / 6 < i + 1 {
                            color
                        } else {
                            orig.at(px, py)
                        }) by {
                        if glyph_covers(bits, x as int, y0 as int, max_x as int, w, h, px, py) {
                            assert((px - x0) / 6 == i);
                            assert(text_covers(text@, max_chars as int, x0 as int, y0 as int, max_x as int, w, h, px, py));
                        } else if px >= x0 && (px - x0) / 6 == i {
                            assert(glyph_bits(ascii_upper(text@[i as int])) == Some(bits));
                            assert(!text_covers(text@, max_chars as int, x0 as int, y0 as int, max_x as int, w, h, px, py));
                        } else {
                            assert(img@.at(px, py) == before.at(px, py));
                        }
                    }
                }
            },
            None => {
                proof {
                    assert forall|px: int, py: int|
                        #![trigger img@.at(px, py)]
                        img@.in_bounds(px, py) implies img@.at(px, py) == (if text_covers(text@, max_chars as int, x0 as int, y0 as int, max_x as int, w, h, px, py)
                            && (px - x0) / 6 < i + 1 {
                            color
                        } else {
                            orig.at(px, py)
                        }) by {
                        if px >= x0 && (px - x0) / 6 == i {
                            assert(!text_covers(text@, max_chars as int, x0 as int, y0 as int, max_x as int, w, h, px, py));
                        }
                    }
                }
            },
        }
        x = x + 6;
        i = i + 1;
    }
    proof {
        assert forall|px: int, py: int|
            #![trigger img@.at(px, py)]
            img@.in_bounds(px, py) implies img@.at(px, py) == (if text_covers(text@, max_chars as int, x0 as int, y0 as int, max_x as int, w, h, px, py) {
                color
            } else {
                orig.at(px, py)
            }) by {
            if text_covers(text@, max_chars as int, x0 as int, y0 as int, max_x as int, w, h, px, py) {
                let k = (px - x0) / 6;
                if k >= i {
                    assert(slot_drawn(k, n as int, x0 as int, max_x as int));
                    assert(i >= 1);
                    assert(x0 + 6 * i + 5 <= max_x);
                }
            }
        }
    }
}

/// Draws a label: up to 64 characters in light gray-white.
pub fn draw_text_simple(img: &mut RgbaRaster, text: &str, x0: u32, y0: u32, max_x: u32)
    requires
        old(img).wf(),
        x0 + 395 <= u32::MAX,
        y0 + 7 <= u32::MAX,
    ensures
        text_drawn(old(img)@, final(img)@, text@, 64, x0 as int, y0 as int, max_x as int, label_text_color()),
{
    draw_text(img, text, x0, y0, max_x, Pixel::rgba(235, 235, 240, 255), 64);
}

/// Draws a subtitle: up to 96 characters in mid gray.
pub fn draw_text_small(img: &mut RgbaRaster, text: &str, x0: u32, y0: u32, max_x: u32)
    requires
        old(img).wf(),
        x0 + 587 <= u32::MAX,
        y0 + 7 <= u32::MAX,
    ensures
        text_drawn(old(img)@, final(img)@, text@, 96, x0 as int, y0 as int, max_x as int, small_text_color()),
{
    draw_text(img, text, x0, y0, max_x, Pixel::rgba(160, 160, 170, 255), 96);
}

/// Color of label text.
pub open spec fn label_text_color() -> Pixel {
    Pixel { r: 235, g: 235, b: 240, a: 255 }
}

/// Color of subtitle and settings text.
pub open spec fn small_text_color() -> Pixel {
    Pixel { r: 160, g: 160, b: 170, a: 255 }
}

} // verus!
