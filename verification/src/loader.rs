//! Loading an encoded image (PNG, JPEG, WebP, BMP) into an RGBA raster.

use vstd::prelude::*;
use crate::file_format::{extension_after, plain_extension};
use crate::imaging::{lemma_rgba_encoding_unique, pixels_of_rgba};
use crate::raster::{RasterModel, RgbaRaster};

verus! {

#[verifier::external_type_specification]
#[verifier::external_body]
pub struct ExImageError(image::ImageError);

/// What `image::load_from_memory` decodes from `bytes`, converted to RGBA8
/// as `(width, height, RGBA bytes)`; `None` when it reports an error.
pub uninterp spec fn decoded_rgba(bytes: Seq<u8>) -> Option<(u32, u32, Seq<u8>)>;

/// Calls `image::load_from_memory`, which guesses the format from the bytes
/// and decodes them, then converts the image to RGBA8 with
/// `DynamicImage::into_rgba8`. The contract names the outcome and states that
/// the returned bytes hold exactly `width * height` pixels; which inputs
/// decode and to what is not stated.
#[verifier::external_body]
fn decode_rgba(bytes: &[u8]) -> (r: Result<(u32, u32, Vec<u8>), image::ImageError>)
    ensures
        r is Ok <==> decoded_rgba(bytes@) is Some,
        r matches Ok(t) ==> decoded_rgba(bytes@) == Some((t.0, t.1, t.2@)) && t.2@.len() == 4 * (t.0 * t.1),
{
    match image::load_from_memory(bytes) {
        Ok(img) => {
            let rgba = img.into_rgba8();
            Ok((rgba.width(), rgba.height(), rgba.into_raw()))
        },
        Err(e) => Err(e),
    }
}

/// Calls the `Display` impl of `image::ImageError`. Nothing is stated of the
/// message.
#[verifier::external_body]
pub(crate) fn image_error_message(e: &image::ImageError) -> (s: String) {
    e.to_string()
}

/// What `image::open` decodes from a file whose extension is `ext` and
/// whose contents are `bytes`, converted to RGBA8 as
/// `(width, height, RGBA bytes)`; `None` when it reports an error.
pub uninterp spec fn extension_decoded_rgba(ext: Seq<char>, bytes: Seq<u8>) -> Option<(u32, u32, Seq<u8>)>;

/// The decoded triple of a successful decoding, `None` for an error.
pub open spec fn decoded_outcome(r: Result<(u32, u32, Vec<u8>), image::ImageError>) -> Option<(u32, u32, Seq<u8>)> {
    match r {
        Ok(t) => Some((t.0, t.1, t.2@)),
        Err(_) => None,
    }
}

/// Does what `image::open` does with a file's contents already read: calls
/// `image::ImageFormat::from_path` for the format the path's extension names
/// and `image::load_from_memory_with_format` to decode `bytes` in it, then
/// converts the image to RGBA8. For a plain path (see `plain_extension`) the
/// contract names the outcome by the extension; for other paths, whose
/// extension std reads by the platform's path syntax, it states only that a
/// path without a `.` fails. The returned bytes hold `width * height` pixels.
#[verifier::external_body]
fn decode_rgba_for_path(bytes: &[u8], path: &str) -> (r: Result<(u32, u32, Vec<u8>), image::ImageError>)
    ensures
        forall|dot: int| #[trigger] plain_extension(path@, dot) ==> decoded_outcome(r) == extension_decoded_rgba(extension_after(path@, dot), bytes@),
        !path@.contains('.') ==> r is Err,
        r matches Ok(t) ==> t.2@.len() == 4 * (t.0 * t.1),
{
    let format = image::ImageFormat::from_path(path)?;
    let rgba = image::load_from_memory_with_format(bytes, format)?.into_rgba8();
    Ok((rgba.width(), rgba.height(), rgba.into_raw()))
}

/// The raster that decoding a file with extension `ext` and contents
/// `bytes` gives, when it decodes.
pub open spec fn extension_decoded_image(ext: Seq<char>, bytes: Seq<u8>) -> Option<RasterModel> {
    match extension_decoded_rgba(ext, bytes) {
        Some((w, h, px)) => Some(RasterModel { width: w as nat, height: h as nat, pixels: pixels_of_rgba(px) }),
        None => None,
    }
}

/// The raster of a decoding outcome, `None` for an error.
pub open spec fn loaded_image(r: Result<RgbaRaster, String>) -> Option<RasterModel> {
    match r {
        Ok(img) => Some(img@),
        Err(_) => None,
    }
}

/// The raster that decoding `bytes` gives, when they decode.
pub open spec fn decoded_image(bytes: Seq<u8>) -> Option<RasterModel> {
    match decoded_rgba(bytes) {
        Some((w, h, px)) => Some(RasterModel { width: w as nat, height: h as nat, pixels: pixels_of_rgba(px) }),
        None => None,
    }
}

/// Loads images from their encoded bytes.
pub struct ImageLoader;

impl ImageLoader {
    /// Decodes an encoded image into an RGBA raster; the error carries the
    /// decoder's message.
    pub fn load_from_bytes(bytes: &[u8]) -> (r: Result<RgbaRaster, String>)
        ensures
            r is Ok <==> decoded_image(bytes@) is Some,
            r matches Ok(img) ==> img.wf() && decoded_image(bytes@) == Some(img@),
    {
        match decode_rgba(bytes) {
            Ok((w, h, px)) => match RgbaRaster::from_rgba_bytes(w, h, &px) {
                Some(img) => {
                    proof {
                        lemma_rgba_encoding_unique(img@.pixels, px@);
                    }
                    Ok(img)
                },
                None => {
                    proof {
                        assert(false);
                    }
                    Err(String::new())
                },
            },
            Err(e) => Err(image_error_message(&e)),
        }
    }

    /// Decodes the contents of the file at `path` in the format the path's
    /// extension names, as opening the file by path does; the error carries
    /// the message of the failed format lookup or decoder.
    pub fn load_from_bytes_for_path(bytes: &[u8], path: &str) -> (r: Result<RgbaRaster, String>)
        ensures
            r matches Ok(img) ==> img.wf(),
            forall|dot: int| #[trigger] plain_extension(path@, dot) ==> loaded_image(r) == extension_decoded_image(extension_after(path@, dot), bytes@),
            !path@.contains('.') ==> r is Err,
    {
        match decode_rgba_for_path(bytes, path) {
            Ok((w, h, px)) => match RgbaRaster::from_rgba_bytes(w, h, &px) {
                Some(img) => {
                    proof {
                        lemma_rgba_encoding_unique(img@.pixels, px@);
                    }
                    Ok(img)
                },
                None => {
                    proof {
                        assert(false);
                    }
                    Err(String::new())
                },
            },
            Err(e) => Err(image_error_message(&e)),
        }
    }
}

} // verus!
