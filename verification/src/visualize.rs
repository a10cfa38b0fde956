//! Visualizations of analysis results: superpixel label maps and face
//! detection annotations.

use vstd::prelude::*;
use crate::raster::{Pixel, RasterModel, RgbaRaster};

verus! {

/// The label of pixels that belong to no superpixel (background).
pub const BG_LABEL: u32 = 0xffff_ffff;

/// Sixteen distinguishable colors, cycled over superpixel labels.
pub const SLIC_PALETTE: [(u8, u8, u8); 16] = [
    (230, 25, 75),
    (60, 180, 75),
    (255, 225, 25),
    (0, 130, 200),
    (245, 130, 48),
    (145, 30, 180),
    (70, 240, 240),
    (240, 50, 230),
    (210, 245, 60),
    (250, 190, 190),
    (0, 128, 128),
    (230, 190, 255),
    (170, 110, 40),
    (255, 250, 200),
    (128, 128, 128),
    (0, 0, 0),
];

/// The color of a superpixel label: dark gray for background, otherwise the
/// palette color at `label mod 16`.
pub open spec fn slic_label_color(label: u32) -> Pixel {
    if label == BG_LABEL {
        Pixel { r: 30, g: 30, b: 30, a: 255 }
    } else {
        let c = SLIC_PALETTE@[(label % 16) as int];
        Pixel { r: c.0, g: c.1, b: c.2, a: 255 }
    }
}

/// The label shown at index `idx` of a label map: missing entries read as 0.
pub open spec fn label_at(labels: Seq<u32>, idx: int) -> u32 {
    if idx < labels.len() { labels[idx] } else { 0 }
}

fn slic_color(label: u32) -> (p: Pixel)
    ensures
        p == slic_label_color(label),
{
    if label == BG_LABEL {
        Pixel::rgba(30, 30, 30, 255)
    } else {
        let c = SLIC_PALETTE[(label % 16) as usize];
        Pixel::rgba(c.0, c.1, c.2, 255)
    }
}

/// Renders a row-major superpixel label map as a `w × h` image, one color
/// per cluster; background pixels are dark gray.
pub fn ml_slic_to_image(labels: &[u32], w: u32, h: u32) -> (img: RgbaRaster)
    requires
        w * h <= u32::MAX,
    ensures
        img.wf(),
        img@.width == w,
        img@.height == h,
        forall|x: int, y: int|
            #![trigger img@.at(x, y)]
            img@.in_bounds(x, y) ==> img@.at(x, y) == slic_label_color(label_at(labels@, y * w + x)),
{
    let mut img = RgbaRaster::new(w, h);
    let mut y: u32 = 0;
    while y < h
        invariant
            y <= h,
            w * h <= u32::MAX,
            img.wf(),
            img@.width == w,
            img@.height == h,
            forall|px: int, py: int|
                #![trigger img@.at(px, py)]
                img@.in_bounds(px, py) && py < y ==> img@.at(px, py) == slic_label_color(label_at(labels@, py * w + px)),
        decreases h - y,
    {
        let mut x: u32 = 0;
        while x < w
            invariant
                y < h,
                x <= w,
                w * h <= u32::MAX,
                img.wf(),
                img@.width == w,
                img@.height == h,
                forall|px: int, py: int|
                    #![trigger img@.at(px, py)]
                    img@.in_bounds(px, py) && (py < y || (py == y && px < x)) ==> img@.at(px, py) == slic_label_color(
                        label_at(labels@, py * w + px),
                    ),
            decreases w - x,
        {
            proof {
                crate::raster::lemma_index_in_range(w as nat, h as nat, x as int, y as int);
            }
            let idx: usize = (y * w + x) as usize;
            let label: u32 = if idx < labels.len() { labels[idx] } else { 0 };
            img.put_pixel(x, y, slic_color(label));
            x = x + 1;
        }
        y = y + 1;
    }
    img
}

/// The color of the `i`-th face landmark: eyes red, nose green, mouth
/// corners magenta, anything else yellow.
pub open spec fn landmark_color(i: int) -> Pixel {
    if i == 0 || i == 1 {
        Pixel { r: 255, g: 0, b: 0, a: 255 }
    } else if i == 2 {
        Pixel { r: 0, g: 255, b: 0, a: 255 }
    } else if i == 3 || i == 4 {
        Pixel { r: 255, g: 0, b: 255, a: 255 }
    } else {
        Pixel { r: 255, g: 255, b: 0, a: 255 }
    }
}

/// Color of a face bounding box.
pub open spec fn box_color() -> Pixel {
    Pixel { r: 0, g: 255, b: 0, a: 255 }
}

/// The 5×5 marker centred on `(cx, cy)` covers `(px, py)`; marker pixels
/// left of column 0 or above row 0 are drawn on that column or row.
pub open spec fn marker_covers(cx: int, cy: int, w: int, h: int, px: int, py: int) -> bool {
    &&& (if cx - 2 < 0 { 0 } else { cx - 2 }) <= px <= cx + 2
    &&& (if cy - 2 < 0 { 0 } else { cy - 2 }) <= py <= cy + 2
    &&& 0 <= px < w
    &&& 0 <= py < h
}

/// `v` clamped below at zero.
pub open spec fn clamp0(v: int) -> int {
    if v < 0 { 0 } else { v }
}

/// Draws the marker of landmark number `index` centred on pixel `(cx, cy)`.
pub fn draw_landmark(img: &mut RgbaRaster, index: usize, cx: u32, cy: u32)
    requires
        old(img).wf(),
        cx + 2 <= i32::MAX,
        cy + 2 <= i32::MAX,
    ensures
        final(img).wf(),
        final(img)@.width == old(img)@.width,
        final(img)@.height == old(img)@.height,
        forall|px: int, py: int|
            #![trigger final(img)@.at(px, py)]
            final(img)@.in_bounds(px, py) ==> final(img)@.at(px, py) == (if marker_covers(
                cx as int, cy as int, old(img)@.width as int, old(img)@.height as int, px, py,
            ) {
                landmark_color(index as int)
            } else {
                old(img)@.at(px, py)
            }),
{
    let ghost orig: RasterModel = img@;
    let ghost w = orig.width as int;
    let ghost h = orig.height as int;
    let color = if index == 0 || index == 1 {
        Pixel::rgba(255, 0, 0, 255)
    } else if index == 2 {
        Pixel::rgba(0, 255, 0, 255)
    } else if index == 3 || index == 4 {
        Pixel::rgba(255, 0, 255, 255)
    } else {
        Pixel::rgba(255, 255, 0, 255)
    };
    let (width, height) = img.dimensions();
    let mut dx: i32 = -2;
    while dx <= 2
        invariant
            -2 <= dx <= 3,
            cx + 2 <= i32::MAX,
            cy + 2 <= i32::MAX,
            w == orig.width,
            h == orig.height,
            width == orig.width,
            height == orig.height,
            color == landmark_color(index as int),
            img.wf(),
            img@.width == orig.width,
            img@.height == orig.height,
            forall|px: int, py: int|
                #![trigger img@.at(px, py)]
                img@.in_bounds(px, py) ==> img@.at(px, py) == (if marker_covers(cx as int, cy as int, w, h, px, py) && dx > -2 && px <= clamp0(
                cx + dx - 1) {
                    color
                } else {
                    orig.at(px, py)
                }),
        decreases 3 - dx,
    {
        let mut dy: i32 = -2;
        while dy <= 2
            invariant
                -2 <= dx <= 2,
                -2 <= dy <= 3,
                cx + 2 <= i32::MAX,
                cy + 2 <= i32::MAX,
                w == orig.width,
                h == orig.height,
                width == orig.width,
                height == orig.height,
                color == landmark_color(index as int),
                img.wf(),
                img@.width == orig.width,
                img@.height == orig.height,
                forall|px: int, py: int|
                    #![trigger img@.at(px, py)]
                    img@.in_bounds(px, py) ==> img@.at(px, py) == (if marker_covers(cx as int, cy as int, w, h, px, py) && ((dx > -2
                        && px <= clamp0(cx + dx - 1)) || (px == clamp0(cx + dx) && dy > -2 && py <= clamp0(cy + dy - 1))) {
                        color
                    } else {
                        orig.at(px, py)
                    }),
            decreases 3 - dy,
        {
            let sx: i32 = cx as i32 + dx;
            let sy: i32 = cy as i32 + dy;
            let draw_x: u32 = if sx < 0 { 0 } else { sx as u32 };
            let draw_y: u32 = if sy < 0 { 0 } else { sy as u32 };
            let ghost before = img@;
            if draw_x < width && draw_y < height {
                img.put_pixel(draw_x, draw_y, color);
            }
            proof {
                assert forall|px: int, py: int|
                    #![trigger img@.at(px, py)]
                    img@.in_bounds(px, py) implies img@.at(px, py) == (if marker_covers(cx as int, cy as int, w, h, px, py) && ((dx > -2
                        && px <= clamp0(cx + dx - 1)) || (px == clamp0(cx + dx) && dy + 1 > -2 && py <= clamp0(cy + dy))) {
                        color
                    } else {
                        orig.at(px, py)
                    }) by {
                    if px == draw_x && py == draw_y {
                    } else {
                        assert(img@.at(px, py) == before.at(px, py));
                    }
                }
            }
            dy = dy + 1;
        }
        dx = dx + 1;
    }
}

/// The first `t` lines of the horizontal edges of the box `(x, y, w, h)`
/// cover `(px, py)`: rows `y .. y + t` and the rows `y + h - k` for `k < t`
/// (the latter only above row 0), within the box's columns.
pub open spec fn box_rows_cover(t: int, x: int, y: int, w: int, h: int, iw: int, ih: int, px: int, py: int) -> bool {
    &&& x <= px < x + w
    &&& px < iw
    &&& 0 <= py < ih
    &&& ((y <= py < y + t) || (y + h - t < py <= y + h && 0 < py))
}

/// The first `t` lines of the vertical edges of the box `(x, y, w, h)`
/// cover `(px, py)`: columns `x .. x + t` and the columns `x + w - k` for
/// `k < t` (the latter only right of column 0), within the box's rows.
pub open spec fn box_cols_cover(t: int, x: int, y: int, w: int, h: int, iw: int, ih: int, px: int, py: int) -> bool {
    &&& y <= py < y + h
    &&& py < ih
    &&& 0 <= px < iw
    &&& ((x <= px < x + t) || (x + w - t < px <= x + w && 0 < px))
}

/// A box outline `t` pixels thick covers `(px, py)`.
pub open spec fn box_covers(t: int, x: int, y: int, w: int, h: int, iw: int, ih: int, px: int, py: int) -> bool {
    box_rows_cover(t, x, y, w, h, iw, ih, px, py) || box_cols_cover(t, x, y, w, h, iw, ih, px, py)
}

/// Draws the outline of the pixel box with top-left corner `(x, y)` and size
/// `w × h`, four pixels thick, in green. The bottom and right lines run
/// through row `y + h` and column `x + w`; everything is clipped to the
/// image.
pub fn draw_face_box(img: &mut RgbaRaster, x: u32, y: u32, w: u32, h: u32)
    requires
        old(img).wf(),
        x + w <= u32::MAX,
        y + h <= u32::MAX,
    ensures
        final(img).wf(),
        final(img)@.width == old(img)@.width,
        final(img)@.height == old(img)@.height,
        forall|px: int, py: int|
            #![trigger final(img)@.at(px, py)]
            final(img)@.in_bounds(px, py) ==> final(img)@.at(px, py) == (if box_covers(
                4, x as int, y as int, w as int, h as int, old(img)@.width as int, old(img)@.height as int, px, py,
            ) {
                box_color()
            } else {
                old(img)@.at(px, py)
            }),
{
    let ghost orig: RasterModel = img@;
    let ghost iw = orig.width as int;
    let ghost ih = orig.height as int;
    let color = Pixel::rgba(0, 255, 0, 255);
    let (width, height) = img.dimensions();
    let x_end: u32 = if x + w < width { x + w } else { width };
    let y_end: u32 = if y + h < height { y + h } else { height };
    let mut t: u32 = 0;
    while t < 4
        invariant
            t <= 4,
            x + w <= u32::MAX,
            y + h <= u32::MAX,
            iw == orig.width,
            ih == orig.height,
            width == orig.width,
            height == orig.height,
            x_end == (if x + w < width { x + w } else { width as int }),
            y_end == (if y + h < height { y + h } else { height as int }),
            color == box_color(),
            img.wf(),
            img@.width == orig.width,
            img@.height == orig.height,
            forall|px: int, py: int|
                #![trigger img@.at(px, py)]
                img@.in_bounds(px, py) ==> img@.at(px, py) == (if box_covers(t as int, x as int, y as int, w as int, h as int, iw, ih, px, py) {
                    color
                } else {
                    orig.at(px, py)
                }),
        decreases 4 - t,
    {
        let mut px: u32 = x;
        while px < x_end
            invariant
                t < 4,
                x <= px,
                px <= x_end || x_end < x,
                x + w <= u32::MAX,
                y + h <= u32::MAX,
                iw == orig.width,
                ih == orig.height,
                width == orig.width,
                height == orig.height,
                x_end == (if x + w < width { x + w } else { width as int }),
                color == box_color(),
                img.wf(),
                img@.width == orig.width,
                img@.height == orig.height,
                forall|qx: int, qy: int|
                    #![trigger img@.at(qx, qy)]
                    img@.in_bounds(qx, qy) ==> img@.at(qx, qy) == (if box_covers(t as int, x as int, y as int, w as int, h as int, iw, ih, qx, qy)
                        || (x <= qx < px && (qy == y + t || (qy == y + h - t && y + h > t))) {
                        color
                    } else {
                        orig.at(qx, qy)
                    }),
            decreases x_end - px,
        {
            let ghost before = img@;
            let top_y: u32 = y.saturating_add(t);
            if top_y < height {
                img.put_pixel(px, top_y, color);
            }
            let ghost mid = img@;
            if y + h > t && (y + h - t) < height {
                img.put_pixel(px, y + h - t, color);
            }
            proof {
                assert forall|qx: int, qy: int|
                    #![trigger img@.at(qx, qy)]
                    img@.in_bounds(qx, qy) implies img@.at(qx, qy) == (if box_covers(t as int, x as int, y as int, w as int, h as int, iw, ih, qx, qy)
                        || (x <= qx < px + 1 && (qy == y + t || (qy == y + h - t && y + h > t))) {
                        color
                    } else {
                        orig.at(qx, qy)
                    }) by {
                    if qx == px && (qy == y + t || (qy == y + h - t && y + h > t)) {
                    } else {
                        assert(img@.at(qx, qy) == mid.at(qx, qy));
                        assert(mid.at(qx, qy) == before.at(qx, qy));
                    }
                }
            }
            px = px + 1;
        }
        let mut py: u32 = y;
        while py < y_end
            invariant
                t < 4,
                y <= py,
                py <= y_end || y_end < y,
                x + w <= u32::MAX,
                y + h <= u32::MAX,
                iw == orig.width,
                ih == orig.height,
                width == orig.width,
                height == orig.height,
                x_end == (if x + w < width { x + w } else { width as int }),
                y_end == (if y + h < height { y + h } else { height as int }),
                color == box_color(),
                img.wf(),
                img@.width == orig.width,
                img@.height == orig.height,
                forall|qx: int, qy: int|
                    #![trigger img@.at(qx, qy)]
                    img@.in_bounds(qx, qy) ==> img@.at(qx, qy) == (if box_covers(t as int, x as int, y as int, w as int, h as int, iw, ih, qx, qy)
                        || (x <= qx < x_end && (qy == y + t || (qy == y + h - t && y + h > t))) || (y <= qy < py && (qx == x + t || (qx == x
                        + w - t && x + w > t))) {
                        color
                    } else {
                        orig.at(qx, qy)
                    }),
            decreases y_end - py,
        {
            let ghost before = img@;
            let left_x: u32 = x.saturating_add(t);
            if left_x < width {
                img.put_pixel(left_x, py, color);
            }
            let ghost mid = img@;
            if x + w > t && (x + w - t) < width {
                img.put_pixel(x + w - t, py, color);
            }
            proof {
                assert forall|qx: int, qy: int|
                    #![trigger img@.at(qx, qy)]
                    img@.in_bounds(qx, qy) implies img@.at(qx, qy) == (if box_covers(t as int, x as int, y as int, w as int, h as int, iw, ih, qx, qy)
                        || (x <= qx < x_end && (qy == y + t || (qy == y + h - t && y + h > t))) || (y <= qy < py + 1 && (qx == x + t || (qx
                        == x + w - t && x + w > t))) {
                        color
                    } else {
                        orig.at(qx, qy)
                    }) by {
                    if qy == py && (qx == x + t || (qx == x + w - t && x + w > t)) {
                    } else {
                        assert(img@.at(qx, qy) == mid.at(qx, qy));
                        assert(mid.at(qx, qy) == before.at(qx, qy));
                    }
                }
            }
            py = py + 1;
        }
        proof {
            assert forall|qx: int, qy: int|
                #![trigger img@.at(qx, qy)]
                img@.in_bounds(qx, qy) implies img@.at(qx, qy) == (if box_covers(t + 1, x as int, y as int, w as int, h as int, iw, ih, qx, qy) {
                    color
                } else {
                    orig.at(qx, qy)
                }) by {
            }
        }
        t = t + 1;
    }
}

/// The pixel at `(px, py)` of `orig` with the face box `b = (x, y, w, h)`
/// and the first `n` landmark markers drawn: later markers cover earlier
/// ones, and markers cover the box.
pub open spec fn annotated_pixel(
    orig: RasterModel,
    b: (u32, u32, u32, u32),
    marks: Seq<(u32, u32)>,
    n: int,
    px: int,
    py: int,
) -> Pixel
    decreases n,
{
    if n <= 0 {
        if box_covers(4, b.0 as int, b.1 as int, b.2 as int, b.3 as int, orig.width as int, orig.height as int, px, py) {
            box_color()
        } else {
            orig.at(px, py)
        }
    } else if marker_covers(marks[n - 1].0 as int, marks[n - 1].1 as int, orig.width as int, orig.height as int, px, py) {
        landmark_color(n - 1)
    } else {
        annotated_pixel(orig, b, marks, n - 1, px, py)
    }
}

/// The image with the detected face drawn on it. Without a detected face
/// (no box) the image is unchanged; with one, its bounding box (pixel corner
/// and size) is drawn as a green outline four pixels thick, then a 5×5
/// marker on each landmark pixel, colored by landmark number.
pub fn visualize_face_detection(original: &RgbaRaster, bounds: Option<(u32, u32, u32, u32)>, landmarks: &[(u32, u32)]) -> (img: RgbaRaster)
    requires
        original.wf(),
        bounds matches Some(b) ==> b.0 + b.2 <= u32::MAX && b.1 + b.3 <= u32::MAX,
        bounds is Some ==> forall|i: int|
            0 <= i < landmarks@.len() ==> (#[trigger] landmarks@[i]).0 + 2 <= i32::MAX && landmarks@[i].1 + 2 <= i32::MAX,
    ensures
        img.wf(),
        bounds is None ==> img@ == original@,
        img@.width == original@.width,
        img@.height == original@.height,
        bounds matches Some(b) ==> forall|px: int, py: int|
            #![trigger img@.at(px, py)]
            img@.in_bounds(px, py) ==> img@.at(px, py) == annotated_pixel(original@, b, landmarks@, landmarks@.len() as int, px, py),
{
    let ghost orig = original@;
    let mut img = original.clone_raster();
    let (x, y, w, h) = match bounds {
        Some(b) => b,
        None => {
            return img;
        },
    };
    let ghost b = (x, y, w, h);
    draw_face_box(&mut img, x, y, w, h);
    let n = landmarks.len();
    let mut i: usize = 0;
    while i < n
        invariant
            n == landmarks@.len(),
            i <= n,
            b == (x, y, w, h),
            img.wf(),
            img@.width == orig.width,
            img@.height == orig.height,
            forall|k: int| 0 <= k < landmarks@.len() ==> (#[trigger] landmarks@[k]).0 + 2 <= i32::MAX && landmarks@[k].1 + 2 <= i32::MAX,
            forall|px: int, py: int|
                #![trigger img@.at(px, py)]
                img@.in_bounds(px, py) ==> img@.at(px, py) == annotated_pixel(orig, b, landmarks@, i as int, px, py),
        decreases n - i,
    {
        let (cx, cy) = landmarks[i];
        let ghost before = img@;
        draw_landmark(&mut img, i, cx, cy);
        proof {
            assert forall|px: int, py: int|
                #![trigger img@.at(px, py)]
                img@.in_bounds(px, py) implies img@.at(px, py) == annotated_pixel(orig, b, landmarks@, i + 1, px, py) by {
                assert(before.in_bounds(px, py));
            }
        }
        i = i + 1;
    }
    img
}

} // verus!
