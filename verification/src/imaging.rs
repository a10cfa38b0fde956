//! Calls into the `image` crate for what it alone computes (filtered
//! resampling, decoding of encoded image files), on plain RGBA bytes, and the
//! verified conversion between those bytes and the library's raster type.

use vstd::prelude::*;
use crate::raster::{is_rgba_encoding, Pixel, RasterModel, RgbaRaster};

verus! {

/// The resampling filter of a resize.
#[derive(Clone, Copy, Debug, PartialEq, Eq, Structural)]
pub enum ResizeFilter {
    /// Nearest-neighbour sampling (keeps hard pixel-art edges).
    Nearest,
    /// Lanczos windowed sinc with radius 3.
    Lanczos3,
}

/// Channel `c` (0 red, 1 green, 2 blue, 3 alpha) of a pixel.
pub open spec fn channel(p: Pixel, c: int) -> u8 {
    if c == 0 { p.r } else if c == 1 { p.g } else if c == 2 { p.b } else { p.a }
}

/// The interleaved RGBA bytes of a pixel sequence.
pub open spec fn rgba_bytes_of(pixels: Seq<Pixel>) -> Seq<u8> {
    Seq::new(4 * pixels.len(), |k: int| channel(pixels[k / 4], k % 4))
}

/// The pixels that interleaved RGBA bytes encode (a trailing partial pixel
/// is ignored).
pub open spec fn pixels_of_rgba(bytes: Seq<u8>) -> Seq<Pixel> {
    Seq::new(bytes.len() / 4, |i: int| Pixel { r: bytes[4 * i], g: bytes[4 * i + 1], b: bytes[4 * i + 2], a: bytes[4 * i + 3] })
}

/// An RGBA encoding is the unique one in both directions.
pub proof fn lemma_rgba_encoding_unique(pixels: Seq<Pixel>, bytes: Seq<u8>)
    requires
        is_rgba_encoding(pixels, bytes),
    ensures
        bytes == rgba_bytes_of(pixels),
        pixels == pixels_of_rgba(bytes),
{
    let e = rgba_bytes_of(pixels);
    assert forall|k: int| 0 <= k < bytes.len() implies bytes[k] == e[k] by {
        let i = k / 4;
        let _p = pixels[i];
    }
    assert(bytes =~= e);
    let d = pixels_of_rgba(bytes);
    assert forall|i: int| 0 <= i < pixels.len() implies pixels[i] == d[i] by {
        let _p = pixels[i];
    }
    assert(pixels =~= d);
}

/// What `image::DynamicImage::resize` produces with the nearest-neighbour
/// filter, as `(width, height, RGBA bytes)`, from the `width × height` RGBA8
/// image with bytes `bytes`, asked to fit `nwidth × nheight`.
pub uninterp spec fn nearest_resized_rgba(width: u32, height: u32, bytes: Seq<u8>, nwidth: u32, nheight: u32) -> (u32, u32, Seq<u8>);

/// The size that the `image` crate's `resize_dimensions` (without fill)
/// computes for fitting a `width × height` image into `nwidth × nheight`.
pub uninterp spec fn fitted_dimensions(width: u32, height: u32, nwidth: u32, nheight: u32) -> (u32, u32);

/// The size of the image that a resize of a `width × height` image to fit
/// `nwidth × nheight` gives: the image's own size when that is the requested
/// size, else the fitted size.
pub open spec fn resize_size(width: u32, height: u32, nwidth: u32, nheight: u32) -> (u32, u32) {
    if nwidth == width && nheight == height {
        (width, height)
    } else {
        fitted_dimensions(width, height, nwidth, nheight)
    }
}

/// `v`, or 1 when it is 0.
pub open spec fn at_least_one(v: u32) -> u32 {
    if v == 0 { 1 } else { v }
}

/// Calls `image::DynamicImage::resize` on an RGBA8 image, which scales the
/// image to the largest size that fits within `nwidth × nheight` keeping its
/// aspect ratio, resampling with `filter`, and returns the result as RGBA8.
/// The contract states: the bytes hold exactly the result's pixels; the
/// result's size is the image's own when that is the requested size (the
/// image then comes back unchanged) and otherwise what the crate's
/// `resize_dimensions` computes, which is named; that size fits within
/// `max(nwidth, 1) × max(nheight, 1)`, as the crate documents; a requested
/// size with exactly the image's aspect ratio (no side zero) is met exactly;
/// and with the nearest-neighbour filter the whole result is named. The
/// Lanczos3 kernel evaluates `f32::sin`, whose precision std leaves to the
/// platform, so the Lanczos3 pixels are not stated.
#[verifier::external_body]
fn resize_rgba(width: u32, height: u32, bytes: Vec<u8>, nwidth: u32, nheight: u32, filter: ResizeFilter) -> (out: (u32, u32, Vec<u8>))
    requires
        bytes@.len() == 4 * (width * height),
    ensures
        filter == ResizeFilter::Nearest ==> (out.0, out.1, out.2@) == nearest_resized_rgba(width, height, bytes@, nwidth, nheight),
        !(nwidth == width && nheight == height) ==> (out.0, out.1) == fitted_dimensions(width, height, nwidth, nheight),
        out.0 <= at_least_one(nwidth),
        out.1 <= at_least_one(nheight),
        out.2@.len() == 4 * (out.0 * out.1),
        (nwidth == width && nheight == height) ==> out.0 == width && out.1 == height && out.2@ == bytes@,
        (width > 0 && height > 0 && nwidth > 0 && nheight > 0 && nwidth * height == nheight * width) ==> out.0 == nwidth
            && out.1 == nheight,
{
    let buf = image::RgbaImage::from_raw(width, height, bytes).unwrap();
    let ft = match filter {
        ResizeFilter::Nearest => image::imageops::FilterType::Nearest,
        ResizeFilter::Lanczos3 => image::imageops::FilterType::Lanczos3,
    };
    let out = image::DynamicImage::ImageRgba8(buf).resize(nwidth, nheight, ft).into_rgba8();
    (out.width(), out.height(), out.into_raw())
}

/// The image that a nearest-neighbour resize of `src` to fit
/// `nwidth × nheight` gives.
pub open spec fn nearest_resized(src: RasterModel, nwidth: u32, nheight: u32) -> RasterModel {
    let r = nearest_resized_rgba(src.width as u32, src.height as u32, rgba_bytes_of(src.pixels), nwidth, nheight);
    RasterModel { width: r.0 as nat, height: r.1 as nat, pixels: pixels_of_rgba(r.2) }
}

/// Resizes `src` to fit `nwidth × nheight`, keeping its aspect ratio.
pub fn resize_to_fit(src: &RgbaRaster, nwidth: u32, nheight: u32, filter: ResizeFilter) -> (out: RgbaRaster)
    requires
        src.wf(),
    ensures
        out.wf(),
        filter == ResizeFilter::Nearest ==> out@ == nearest_resized(src@, nwidth, nheight),
        (out@.width as u32, out@.height as u32) == resize_size(src@.width as u32, src@.height as u32, nwidth, nheight),
        out@.width <= at_least_one(nwidth),
        out@.height <= at_least_one(nheight),
        (nwidth == src@.width && nheight == src@.height) ==> out@ == src@,
        (src@.width > 0 && src@.height > 0 && nwidth > 0 && nheight > 0 && nwidth * src@.height == nheight * src@.width) ==> out@.width
            == nwidth && out@.height == nheight,
{
    let (w, h) = src.dimensions();
    let bytes = src.to_rgba_bytes();
    proof {
        lemma_rgba_encoding_unique(src@.pixels, bytes@);
    }
    let (ow, oh, ob) = resize_rgba(w, h, bytes, nwidth, nheight, filter);
    match RgbaRaster::from_rgba_bytes(ow, oh, &ob) {
        Some(img) => {
            proof {
                lemma_rgba_encoding_unique(img@.pixels, ob@);
                if nwidth == src@.width && nheight == src@.height {
                    assert(img@.pixels =~= src@.pixels);
                }
            }
            img
        },
        None => {
            proof {
                assert(false);
            }
            RgbaRaster::new(0, 0)
        },
    }
}

} // verus!
