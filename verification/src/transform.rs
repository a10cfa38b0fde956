//! Geometric transforms of a raster: flips, pixel offsets, crops and resizes.

use vstd::prelude::*;
use crate::imaging::{at_least_one, resize_size, resize_to_fit, ResizeFilter};
use crate::raster::{Pixel, RasterModel, RgbaRaster, lemma_models_equal};
use crate::contact_sheet::div_round;
use crate::sizing::scaled_side;

verus! {

/// `new` is the mirror image of `old` across its vertical axis.
pub open spec fn is_flipped_horizontally(old: RasterModel, new: RasterModel) -> bool {
    &&& new.wf()
    &&& new.width == old.width
    &&& new.height == old.height
    &&& forall|x: int, y: int|
        #![trigger new.at(x, y)]
        new.in_bounds(x, y) ==> new.at(x, y) == old.at(old.width - 1 - x, y)
}

/// `new` is the mirror image of `old` across its horizontal axis.
pub open spec fn is_flipped_vertically(old: RasterModel, new: RasterModel) -> bool {
    &&& new.wf()
    &&& new.width == old.width
    &&& new.height == old.height
    &&& forall|x: int, y: int|
        #![trigger new.at(x, y)]
        new.in_bounds(x, y) ==> new.at(x, y) == old.at(x, old.height - 1 - y)
}

/// `new` is `old` moved by `(dx, dy)` pixels: each pixel comes from
/// `(x - dx, y - dy)` when that lies inside, and is transparent otherwise.
pub open spec fn is_offset(old: RasterModel, new: RasterModel, dx: int, dy: int) -> bool {
    &&& new.wf()
    &&& new.width == old.width
    &&& new.height == old.height
    &&& forall|x: int, y: int|
        #![trigger new.at(x, y)]
        new.in_bounds(x, y) ==> new.at(x, y) == (if old.in_bounds(x - dx, y - dy) {
            old.at(x - dx, y - dy)
        } else {
            Pixel::spec_transparent()
        })
}

/// `new` is the `w × h` window of `old` whose top-left corner is `(x0, y0)`.
pub open spec fn is_window(old: RasterModel, new: RasterModel, x0: int, y0: int, w: int, h: int) -> bool {
    &&& new.wf()
    &&& new.width == w
    &&& new.height == h
    &&& forall|x: int, y: int|
        #![trigger new.at(x, y)]
        new.in_bounds(x, y) ==> new.at(x, y) == old.at(x0 + x, y0 + y)
}

/// The rectangle that cropping `(x, y, width, height)` out of a
/// `iw × ih` image keeps: the corner is clamped into the image and the
/// extent to what remains right of and below it.
pub open spec fn crop_rect(iw: int, ih: int, x: int, y: int, width: int, height: int) -> (int, int, int, int) {
    let cx = if x < iw { x } else { iw };
    let cy = if y < ih { y } else { ih };
    let cw = if width < iw - cx { width } else { iw - cx };
    let ch = if height < ih - cy { height } else { ih - cy };
    (cx, cy, cw, ch)
}

/// Mirroring twice left-to-right gives back the original image.
pub proof fn lemma_flip_horizontal_involution(a: RasterModel, b: RasterModel, c: RasterModel)
    requires
        a.wf(),
        is_flipped_horizontally(a, b),
        is_flipped_horizontally(b, c),
    ensures
        c == a,
{
    assert forall|x: int, y: int| #![trigger c.at(x, y)] c.in_bounds(x, y) implies c.at(x, y) == a.at(x, y) by {
        assert(b.in_bounds(b.width - 1 - x, y));
    }
    lemma_models_equal(c, a);
}

/// Mirroring twice top-to-bottom gives back the original image.
pub proof fn lemma_flip_vertical_involution(a: RasterModel, b: RasterModel, c: RasterModel)
    requires
        a.wf(),
        is_flipped_vertically(a, b),
        is_flipped_vertically(b, c),
    ensures
        c == a,
{
    assert forall|x: int, y: int| #![trigger c.at(x, y)] c.in_bounds(x, y) implies c.at(x, y) == a.at(x, y) by {
        assert(b.in_bounds(x, b.height - 1 - y));
    }
    lemma_models_equal(c, a);
}

/// A zero offset leaves the image unchanged.
pub proof fn lemma_offset_zero_identity(a: RasterModel, b: RasterModel)
    requires
        a.wf(),
        is_offset(a, b, 0, 0),
    ensures
        b == a,
{
    assert forall|x: int, y: int| #![trigger b.at(x, y)] b.in_bounds(x, y) implies b.at(x, y) == a.at(x, y) by {}
    lemma_models_equal(b, a);
}

/// Moving by `(dx, dy)` and then by `(-dx, -dy)` restores every pixel whose
/// shifted position stayed inside the image, and clears the others.
pub proof fn lemma_offset_round_trip(a: RasterModel, b: RasterModel, c: RasterModel, dx: int, dy: int)
    requires
        is_offset(a, b, dx, dy),
        is_offset(b, c, -dx, -dy),
    ensures
        forall|x: int, y: int|
            #![trigger c.at(x, y)]
            c.in_bounds(x, y) ==> c.at(x, y) == (if a.in_bounds(x + dx, y + dy) {
                a.at(x, y)
            } else {
                Pixel::spec_transparent()
            }),
{
    assert forall|x: int, y: int| #![trigger c.at(x, y)] c.in_bounds(x, y) implies c.at(x, y) == (if a.in_bounds(x + dx, y + dy) {
        a.at(x, y)
    } else {
        Pixel::spec_transparent()
    }) by {
        if b.in_bounds(x + dx, y + dy) {
            assert(b.at(x + dx, y + dy) == a.at(x, y));
        }
    }
}

/// Cropping the whole image, or more, gives back the image.
pub proof fn lemma_crop_full_identity(a: RasterModel, b: RasterModel, width: int, height: int)
    requires
        a.wf(),
        width >= a.width,
        height >= a.height,
        ({
            let r = crop_rect(a.width as int, a.height as int, 0, 0, width, height);
            is_window(a, b, r.0, r.1, r.2, r.3)
        }),
    ensures
        b == a,
{
    assert forall|x: int, y: int| #![trigger b.at(x, y)] b.in_bounds(x, y) implies b.at(x, y) == a.at(x, y) by {}
    lemma_models_equal(b, a);
}

/// The size an image of `w × h` is scaled to so that its longer side is
/// `m`: both sides scaled by `m / max(w, h)`, rounded half up, at least one.
pub open spec fn fitted_size(w: int, h: int, m: int) -> (int, int) {
    let s = if w < h { h } else { w };
    let nw = div_round(m * w, s);
    let nh = div_round(m * h, s);
    (if nw < 1 { 1 } else { nw }, if nh < 1 { 1 } else { nh })
}

/// Image transform utilities.
pub struct ImageTransform;

impl ImageTransform {
    /// Resizes the image with the Lanczos3 filter to the largest size that
    /// fits within `width × height` while keeping its aspect ratio.
    pub fn resize(image: &RgbaRaster, width: u32, height: u32) -> (out: RgbaRaster)
        requires
            image.wf(),
        ensures
            out.wf(),
            (out@.width as u32, out@.height as u32) == resize_size(image@.width as u32, image@.height as u32, width, height),
            out@.width <= at_least_one(width),
            out@.height <= at_least_one(height),
            (width == image@.width && height == image@.height) ==> out@ == image@,
            (image@.width > 0 && image@.height > 0 && width > 0 && height > 0 && width * image@.height == height
                * image@.width) ==> out@.width == width && out@.height == height,
    {
        resize_to_fit(image, width, height, ResizeFilter::Lanczos3)
    }

    /// Scales the image down so that its longer side is at most
    /// `max_dimension` (0 means no limit), keeping the aspect ratio: an image
    /// that already fits is returned unchanged, a larger one is resized with
    /// Lanczos3 to fit `fitted_size`.
    pub fn fit_max_dimension(image: &RgbaRaster, max_dimension: u32) -> (out: RgbaRaster)
        requires
            image.wf(),
        ensures
            out.wf(),
            (max_dimension == 0 || (image@.width <= max_dimension && image@.height <= max_dimension)) ==> out@ == image@,
            !(max_dimension == 0 || (image@.width <= max_dimension && image@.height <= max_dimension)) ==> ({
                let d = fitted_size(image@.width as int, image@.height as int, max_dimension as int);
                (out@.width as u32, out@.height as u32) == resize_size(image@.width as u32, image@.height as u32, d.0 as u32, d.1 as u32)
            }),
            max_dimension > 0 ==> out@.width <= max_dimension && out@.height <= max_dimension,
    {
        let (w, h) = image.dimensions();
        let s = if w < h { h } else { w };
        if max_dimension == 0 || s <= max_dimension {
            return image.clone_raster();
        }
        let nw = scaled_side(max_dimension, w, s);
        let nh = scaled_side(max_dimension, h, s);
        let nw = if nw < 1 { 1 } else { nw };
        let nh = if nh < 1 { 1 } else { nh };
        resize_to_fit(image, nw, nh, ResizeFilter::Lanczos3)
    }

    /// Mirrors the image left-to-right.
    pub fn flip_horizontal(image: &RgbaRaster) -> (out: RgbaRaster)
        requires
            image.wf(),
        ensures
            is_flipped_horizontally(image@, out@),
    {
        let (w, h) = image.dimensions();
        proof {
            assert(image@.pixels.len() == w * h);
        }
        let n = image.pixels().len();
        let mut out = RgbaRaster::new(w, h);
        let mut y: u32 = 0;
        while y < h
            invariant
                y <= h,
                w == image@.width,
                h == image@.height,
                image.wf(),
                out.wf(),
                out@.width == w,
                out@.height == h,
                forall|px: int, py: int|
                    #![trigger out@.at(px, py)]
                    out@.in_bounds(px, py) && py < y ==> out@.at(px, py) == image@.at(w - 1 - px, py),
            decreases h - y,
        {
            let mut x: u32 = 0;
            while x < w
                invariant
                    y < h,
                    x <= w,
                    w == image@.width,
                    h == image@.height,
                    image.wf(),
                    out.wf(),
                    out@.width == w,
                    out@.height == h,
                    forall|px: int, py: int|
                        #![trigger out@.at(px, py)]
                        out@.in_bounds(px, py) && (py < y || (py == y && px < x)) ==> out@.at(px, py) == image@.at(w - 1 - px, py),
                decreases w - x,
            {
                let p = image.get_pixel(w - 1 - x, y);
                out.put_pixel(x, y, p);
                x = x + 1;
            }
            y = y + 1;
        }
        out
    }

    /// Mirrors the image top-to-bottom.
    pub fn flip_vertical(image: &RgbaRaster) -> (out: RgbaRaster)
        requires
            image.wf(),
        ensures
            is_flipped_vertically(image@, out@),
    {
        let (w, h) = image.dimensions();
        proof {
            assert(image@.pixels.len() == w * h);
        }
        let n = image.pixels().len();
        let mut out = RgbaRaster::new(w, h);
        let mut y: u32 = 0;
        while y < h
            invariant
                y <= h,
                w == image@.width,
                h == image@.height,
                image.wf(),
                out.wf(),
                out@.width == w,
                out@.height == h,
                forall|px: int, py: int|
                    #![trigger out@.at(px, py)]
                    out@.in_bounds(px, py) && py < y ==> out@.at(px, py) == image@.at(px, h - 1 - py),
            decreases h - y,
        {
            let mut x: u32 = 0;
            while x < w
                invariant
                    y < h,
                    x <= w,
                    w == image@.width,
                    h == image@.height,
                    image.wf(),
                    out.wf(),
                    out@.width == w,
                    out@.height == h,
                    forall|px: int, py: int|
                        #![trigger out@.at(px, py)]
                        out@.in_bounds(px, py) && (py < y || (py == y && px < x)) ==> out@.at(px, py) == image@.at(px, h - 1 - py),
                decreases w - x,
            {
                let p = image.get_pixel(x, h - 1 - y);
                out.put_pixel(x, y, p);
                x = x + 1;
            }
            y = y + 1;
        }
        out
    }
    /// Copies the `w × h` window of `image` whose top-left corner is
    /// `(x0, y0)`; the window must lie inside the image.
    fn window(image: &RgbaRaster, x0: u32, y0: u32, w: u32, h: u32) -> (out: RgbaRaster)
        requires
            image.wf(),
            x0 + w <= image@.width,
            y0 + h <= image@.height,
        ensures
            is_window(image@, out@, x0 as int, y0 as int, w as int, h as int),
    {
        proof {
            assert(w * h <= image@.width * image@.height) by (nonlinear_arith)
                requires
                    w <= image@.width,
                    h <= image@.height,
            ;
            assert(image@.pixels.len() == image@.width * image@.height);
        }
        let n = image.pixels().len();
        let (iw, ih) = image.dimensions();
        let mut out = RgbaRaster::new(w, h);
        let mut y: u32 = 0;
        while y < h
            invariant
                y <= h,
                iw == image@.width,
                ih == image@.height,
                x0 + w <= image@.width,
                y0 + h <= image@.height,
                image.wf(),
                out.wf(),
                out@.width == w,
                out@.height == h,
                forall|px: int, py: int|
                    #![trigger out@.at(px, py)]
                    out@.in_bounds(px, py) && py < y ==> out@.at(px, py) == image@.at(x0 + px, y0 + py),
            decreases h - y,
        {
            let mut x: u32 = 0;
            while x < w
                invariant
                    y < h,
                    x <= w,
                    iw == image@.width,
                    ih == image@.height,
                    x0 + w <= image@.width,
                    y0 + h <= image@.height,
                    image.wf(),
                    out.wf(),
                    out@.width == w,
                    out@.height == h,
                    forall|px: int, py: int|
                        #![trigger out@.at(px, py)]
                        out@.in_bounds(px, py) && (py < y || (py == y && px < x)) ==> out@.at(px, py) == image@.at(x0 + px, y0 + py),
                decreases w - x,
            {
                let p = image.get_pixel(x0 + x, y0 + y);
                out.put_pixel(x, y, p);
                x = x + 1;
            }
            y = y + 1;
        }
        out
    }

    /// Cuts out the rectangle with top-left corner `(x, y)` and size
    /// `width × height`, first clamping the corner into the image and the
    /// size to what remains right of and below the corner.
    pub fn crop(image: &RgbaRaster, x: u32, y: u32, width: u32, height: u32) -> (out: RgbaRaster)
        requires
            image.wf(),
        ensures
            ({
                let r = crop_rect(image@.width as int, image@.height as int, x as int, y as int, width as int, height as int);
                is_window(image@, out@, r.0, r.1, r.2, r.3)
            }),
    {
        let (iw, ih) = image.dimensions();
        let cx = if x < iw { x } else { iw };
        let cy = if y < ih { y } else { ih };
        let cw = if width < iw - cx { width } else { iw - cx };
        let ch = if height < ih - cy { height } else { ih - cy };
        Self::window(image, cx, cy, cw, ch)
    }

    /// Clips the image to a pixel region: the corner is clamped to the last
    /// column and row, the size to what remains of the image from there.
    pub fn clip(image: &RgbaRaster, clip_x: u32, clip_y: u32, clip_w: u32, clip_h: u32) -> (out: RgbaRaster)
        requires
            image.wf(),
            image@.width > 0,
            image@.height > 0,
        ensures
            ({
                let iw = image@.width as int;
                let ih = image@.height as int;
                let cx = if clip_x < iw - 1 { clip_x as int } else { iw - 1 };
                let cy = if clip_y < ih - 1 { clip_y as int } else { ih - 1 };
                let cw = if clip_w < iw - cx { clip_w as int } else { iw - cx };
                let ch = if clip_h < ih - cy { clip_h as int } else { ih - cy };
                is_window(image@, out@, cx, cy, cw, ch)
            }),
    {
        let (img_w, img_h) = image.dimensions();
        let clip_x = if clip_x < img_w - 1 { clip_x } else { img_w - 1 };
        let clip_y = if clip_y < img_h - 1 { clip_y } else { img_h - 1 };
        let clip_w = if clip_w < img_w - clip_x { clip_w } else { img_w - clip_x };
        let clip_h = if clip_h < img_h - clip_y { clip_h } else { img_h - clip_y };
        Self::crop(image, clip_x, clip_y, clip_w, clip_h)
    }

    /// Moves the image by `(dx, dy)` pixels; uncovered pixels become
    /// transparent and pixels moved past the border are dropped.
    pub fn offset(image: &RgbaRaster, dx: i32, dy: i32) -> (out: RgbaRaster)
        requires
            image.wf(),
            image@.width <= i32::MAX,
            image@.height <= i32::MAX,
            image@.width - 1 - dx <= i32::MAX,
            image@.height - 1 - dy <= i32::MAX,
        ensures
            is_offset(image@, out@, dx as int, dy as int),
    {
        let (width, height) = image.dimensions();
        proof {
            assert(image@.pixels.len() == width * height);
        }
        let n = image.pixels().len();
        let mut out = RgbaRaster::new(width, height);
        let mut y: u32 = 0;
        while y < height
            invariant
                y <= height,
                width == image@.width,
                height == image@.height,
                image@.width <= i32::MAX,
                image@.height <= i32::MAX,
                image@.width - 1 - dx <= i32::MAX,
                image@.height - 1 - dy <= i32::MAX,
                image.wf(),
                out.wf(),
                out@.width == width,
                out@.height == height,
                forall|px: int, py: int|
                    #![trigger out@.at(px, py)]
                    out@.in_bounds(px, py) ==> out@.at(px, py) == (if py < y && image@.in_bounds(px - dx, py - dy) {
                        image@.at(px - dx, py - dy)
                    } else {
                        Pixel::spec_transparent()
                    }),
            decreases height - y,
        {
            let mut x: u32 = 0;
            while x < width
                invariant
                    y < height,
                    x <= width,
                    width == image@.width,
                    height == image@.height,
                    image@.width <= i32::MAX,
                    image@.height <= i32::MAX,
                    image@.width - 1 - dx <= i32::MAX,
                    image@.height - 1 - dy <= i32::MAX,
                    image.wf(),
                    out.wf(),
                    out@.width == width,
                    out@.height == height,
                    forall|px: int, py: int|
                        #![trigger out@.at(px, py)]
                        out@.in_bounds(px, py) ==> out@.at(px, py) == (if (py < y || (py == y && px < x)) && image@.in_bounds(px - dx, py - dy) {
                            image@.at(px - dx, py - dy)
                        } else {
                            Pixel::spec_transparent()
                        }),
                decreases width - x,
            {
                let src_x: i32 = x as i32 - dx;
                let src_y: i32 = y as i32 - dy;
                if src_x >= 0 && src_x < width as i32 && src_y >= 0 && src_y < height as i32 {
                    let p = image.get_pixel(src_x as u32, src_y as u32);
                    out.put_pixel(x, y, p);
                }
                x = x + 1;
            }
            y = y + 1;
        }
        out
    }
}

} // verus!
