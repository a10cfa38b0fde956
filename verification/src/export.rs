//! Exporting images: the integer scale-up, the RGB pixel data of JPEG files,
//! and encoding to PNG and JPEG.

use vstd::prelude::*;
use image::ImageEncoder;
use crate::imaging::{channel, lemma_rgba_encoding_unique, nearest_resized, resize_to_fit, rgba_bytes_of, ResizeFilter};
use crate::loader::image_error_message;
use crate::file_format::{export_format, extension_after, extension_format, plain_extension, ExportFormat};
use crate::raster::{Pixel, RasterModel, RgbaRaster};

verus! {

/// `bytes` holds the red, green and blue channels of every pixel of `m`, in
/// row-major order; alpha is dropped.
pub open spec fn is_rgb_encoding(m: RasterModel, bytes: Seq<u8>) -> bool {
    &&& bytes.len() == 3 * m.pixels.len()
    &&& forall|i: int|
        #![trigger m.pixels[i]]
        0 <= i < m.pixels.len() ==> {
            &&& bytes[3 * i] == m.pixels[i].r
            &&& bytes[3 * i + 1] == m.pixels[i].g
            &&& bytes[3 * i + 2] == m.pixels[i].b
        }
}

/// The interleaved RGB bytes of a pixel sequence (alpha dropped).
pub open spec fn rgb_bytes_of(pixels: Seq<Pixel>) -> Seq<u8> {
    Seq::new(3 * pixels.len(), |k: int| channel(pixels[k / 3], k % 3))
}

/// An RGB encoding is the one `rgb_bytes_of` gives.
pub proof fn lemma_rgb_encoding_unique(m: RasterModel, bytes: Seq<u8>)
    requires
        is_rgb_encoding(m, bytes),
    ensures
        bytes == rgb_bytes_of(m.pixels),
{
    let e = rgb_bytes_of(m.pixels);
    assert forall|k: int| 0 <= k < bytes.len() implies bytes[k] == e[k] by {
        let i = k / 3;
        let _p = m.pixels[i];
    }
    assert(bytes =~= e);
}

/// The PNG file that `image`'s PNG encoder writes for the `width × height`
/// RGBA8 image with bytes `rgba`; `None` when it reports an error.
pub uninterp spec fn png_encoding(width: u32, height: u32, rgba: Seq<u8>) -> Option<Seq<u8>>;

/// Calls `image::codecs::png::PngEncoder::write_image` (default compression
/// and filter, as `save_with_format` uses) on RGBA8 data, writing into
/// memory. The contract names the outcome; the PNG bytes themselves are not
/// stated.
#[verifier::external_body]
fn encode_png_rgba(width: u32, height: u32, rgba: &[u8]) -> (r: Result<Vec<u8>, image::ImageError>)
    requires
        rgba@.len() == 4 * (width * height),
    ensures
        r is Ok <==> png_encoding(width, height, rgba@) is Some,
        r matches Ok(b) ==> png_encoding(width, height, rgba@) == Some(b@),
{
    let mut out: Vec<u8> = Vec::new();
    match image::codecs::png::PngEncoder::new(&mut out).write_image(rgba, width, height, image::ExtendedColorType::Rgba8) {
        Ok(()) => Ok(out),
        Err(e) => Err(e),
    }
}

/// The JPEG file that `image`'s JPEG encoder writes at `quality` for the
/// `width × height` RGB8 image with bytes `rgb`; `None` when it reports an
/// error.
pub uninterp spec fn jpeg_encoding(width: u32, height: u32, rgb: Seq<u8>, quality: u8) -> Option<Seq<u8>>;

/// Calls `image::codecs::jpeg::JpegEncoder::new_with_quality` and `encode`
/// on RGB8 data, writing into memory. The contract names the outcome; the
/// JPEG bytes themselves are not stated.
#[verifier::external_body]
fn encode_jpeg_rgb(width: u32, height: u32, rgb: &[u8], quality: u8) -> (r: Result<Vec<u8>, image::ImageError>)
    requires
        rgb@.len() == 3 * (width * height),
    ensures
        r is Ok <==> jpeg_encoding(width, height, rgb@, quality) is Some,
        r matches Ok(b) ==> jpeg_encoding(width, height, rgb@, quality) == Some(b@),
{
    let mut out: Vec<u8> = Vec::new();
    match image::codecs::jpeg::JpegEncoder::new_with_quality(&mut out, quality).encode(rgb, width, height, image::ExtendedColorType::Rgb8) {
        Ok(()) => Ok(out),
        Err(e) => Err(e),
    }
}

/// The PNG encoding of an image, when the encoder succeeds.
pub open spec fn png_of(m: RasterModel) -> Option<Seq<u8>> {
    png_encoding(m.width as u32, m.height as u32, rgba_bytes_of(m.pixels))
}

/// The JPEG encoding of an image (alpha dropped) at `quality`, when the
/// encoder succeeds.
pub open spec fn jpeg_of(m: RasterModel, quality: u8) -> Option<Seq<u8>> {
    jpeg_encoding(m.width as u32, m.height as u32, rgb_bytes_of(m.pixels), quality)
}

/// The file that `image` writes when saving the `width × height` RGBA8 image
/// to a path whose extension is `ext`; `None` when it reports an error.
pub uninterp spec fn extension_encoding(ext: Seq<char>, width: u32, height: u32, rgba: Seq<u8>) -> Option<Seq<u8>>;

/// The bytes of a successful encoding, `None` for an error.
pub open spec fn outcome_bytes(r: Result<Vec<u8>, image::ImageError>) -> Option<Seq<u8>> {
    match r {
        Ok(b) => Some(b@),
        Err(_) => None,
    }
}

/// Does what `image::DynamicImage::save` does, into memory: calls
/// `image::ImageFormat::from_path` for the format the path's extension names
/// and `DynamicImage::write_to` to encode the RGBA8 image in it. For a plain
/// path (see `plain_extension`) the contract names the outcome by the
/// extension; for other paths, whose extension std reads by the platform's
/// path syntax, it states only that a path without a `.` fails.
#[verifier::external_body]
fn encode_rgba_for_path(width: u32, height: u32, rgba: &[u8], path: &str) -> (r: Result<Vec<u8>, image::ImageError>)
    requires
        rgba@.len() == 4 * (width * height),
    ensures
        forall|dot: int| #[trigger] plain_extension(path@, dot) ==> outcome_bytes(r) == extension_encoding(extension_after(path@, dot), width, height, rgba@),
        !path@.contains('.') ==> r is Err,
{
    let format = image::ImageFormat::from_path(path)?;
    let buf = image::RgbaImage::from_raw(width, height, rgba.to_vec()).unwrap();
    let mut out = std::io::Cursor::new(Vec::new());
    image::DynamicImage::ImageRgba8(buf).write_to(&mut out, format)?;
    Ok(out.into_inner())
}

/// The image as exported at `scale`: scaled up by the integer factor with
/// nearest-neighbour sampling when `scale > 1`, unchanged otherwise.
pub open spec fn export_scaled(m: RasterModel, scale: u32) -> RasterModel {
    if scale > 1 {
        nearest_resized(m, (m.width * scale) as u32, (m.height * scale) as u32)
    } else {
        m
    }
}

/// The bytes of a successful outcome, `None` for an error.
pub open spec fn ok_bytes(r: Result<Vec<u8>, String>) -> Option<Seq<u8>> {
    match r {
        Ok(b) => Some(b@),
        Err(_) => None,
    }
}

/// The format an export writes when the path's extension is `ext`.
pub open spec fn resolved_format(ext: Option<Seq<char>>, fallback: ExportFormat) -> Option<ExportFormat> {
    let named = match ext {
        Some(e) => extension_format(e),
        None => None,
    };
    match named {
        Some(g) => Some(g),
        None => if fallback == ExportFormat::Png || fallback == ExportFormat::Jpeg { Some(fallback) } else { None },
    }
}

/// The file an export writes for the (already scaled) image `m` in
/// `format`, with `ext` the path's extension and `quality` the JPEG quality;
/// `None` when there is no format or encoding fails.
pub open spec fn exported_file(m: RasterModel, format: Option<ExportFormat>, ext: Seq<char>, quality: u8) -> Option<Seq<u8>> {
    match format {
        Some(ExportFormat::Png) => png_of(m),
        Some(ExportFormat::Jpeg) => jpeg_of(m, quality),
        Some(ExportFormat::Other) => extension_encoding(ext, m.width as u32, m.height as u32, rgba_bytes_of(m.pixels)),
        None => None,
    }
}

/// How an image is exported.
pub struct ExportConfig {
    /// The format written when the path's extension names none.
    pub format: ExportFormat,
    /// The integer factor the image is scaled up by.
    pub scale: u32,
    /// The JPEG quality (1 to 100).
    pub quality: u8,
    /// Whether metadata is to be included.
    pub include_metadata: bool,
}

impl Default for ExportConfig {
    fn default() -> (c: ExportConfig)
        ensures
            c.format == ExportFormat::Png,
            c.scale == 1,
            c.quality == 90,
            !c.include_metadata,
    {
        ExportConfig { format: ExportFormat::Png, scale: 1, quality: 90, include_metadata: false }
    }
}

/// Image exporter.
pub struct ImageExporter;

impl ImageExporter {
    /// The image as exported at `scale`: scaled up by the integer factor with
    /// nearest-neighbour sampling when `scale > 1`, unchanged otherwise.
    pub fn scaled_for_export(image: &RgbaRaster, scale: u32) -> (out: RgbaRaster)
        requires
            image.wf(),
            scale > 1 ==> image@.width * scale <= u32::MAX && image@.height * scale <= u32::MAX,
        ensures
            out.wf(),
            out@ == export_scaled(image@, scale),
            (scale > 1 && image@.width > 0 && image@.height > 0) ==> out@.width == image@.width * scale && out@.height
                == image@.height * scale,
    {
        if scale > 1 {
            let (w, h) = image.dimensions();
            proof {
                assert((w * scale) * (h as int) == (h * scale) * (w as int)) by (nonlinear_arith);
                assert(w > 0 && h > 0 ==> w * scale > 0 && h * scale > 0) by (nonlinear_arith)
                    requires
                        scale > 1,
                ;
            }
            resize_to_fit(image, w * scale, h * scale, ResizeFilter::Nearest)
        } else {
            image.clone_raster()
        }
    }

    /// The 8-bit RGB pixel data of the image (alpha dropped), row-major, as
    /// written by the JPEG encoder.
    pub fn rgb_bytes(image: &RgbaRaster) -> (bytes: Vec<u8>)
        requires
            image.wf(),
        ensures
            is_rgb_encoding(image@, bytes@),
    {
        let pixels = image.pixels();
        let n = pixels.len();
        let mut bytes: Vec<u8> = Vec::new();
        let mut i: usize = 0;
        while i < n
            invariant
                n == image@.pixels.len(),
                pixels@ == image@.pixels,
                i <= n,
                bytes@.len() == 3 * i,
                forall|k: int|
                    #![trigger image@.pixels[k]]
                    0 <= k < i ==> {
                        &&& bytes@[3 * k] == image@.pixels[k].r
                        &&& bytes@[3 * k + 1] == image@.pixels[k].g
                        &&& bytes@[3 * k + 2] == image@.pixels[k].b
                    },
            decreases n - i,
        {
            let p = pixels[i];
            bytes.push(p.r);
            bytes.push(p.g);
            bytes.push(p.b);
            i = i + 1;
        }
        bytes
    }

    /// The image encoded as PNG; the error carries the encoder's message.
    pub fn encode_png(image: &RgbaRaster) -> (r: Result<Vec<u8>, String>)
        requires
            image.wf(),
        ensures
            r is Ok <==> png_of(image@) is Some,
            r matches Ok(b) ==> png_of(image@) == Some(b@),
    {
        let (w, h) = image.dimensions();
        let bytes = image.to_rgba_bytes();
        proof {
            lemma_rgba_encoding_unique(image@.pixels, bytes@);
        }
        match encode_png_rgba(w, h, bytes.as_slice()) {
            Ok(b) => Ok(b),
            Err(e) => Err(image_error_message(&e)),
        }
    }

    /// The image encoded as JPEG at `quality` (alpha dropped); the error
    /// carries the encoder's message.
    pub fn encode_jpeg(image: &RgbaRaster, quality: u8) -> (r: Result<Vec<u8>, String>)
        requires
            image.wf(),
        ensures
            r is Ok <==> jpeg_of(image@, quality) is Some,
            r matches Ok(b) ==> jpeg_of(image@, quality) == Some(b@),
    {
        let (w, h) = image.dimensions();
        let bytes = Self::rgb_bytes(image);
        proof {
            lemma_rgb_encoding_unique(image@, bytes@);
        }
        match encode_jpeg_rgb(w, h, bytes.as_slice(), quality) {
            Ok(b) => Ok(b),
            Err(e) => Err(image_error_message(&e)),
        }
    }

    /// The file that exporting the image to `path` writes: the image scaled
    /// by `config.scale`, encoded in the format the path's extension names
    /// (else `config.format` when that is PNG or JPEG) — PNG, JPEG at
    /// `config.quality` with alpha dropped, or another format as saving by
    /// path writes it. The error carries the message of the failed format
    /// lookup or encoder.
    pub fn export_bytes(image: &RgbaRaster, path: &str, config: &ExportConfig) -> (r: Result<Vec<u8>, String>)
        requires
            image.wf(),
            config.scale > 1 ==> image@.width * config.scale <= u32::MAX && image@.height * config.scale <= u32::MAX,
        ensures
            forall|dot: int| #[trigger] plain_extension(path@, dot) ==> ok_bytes(r) == exported_file(
                export_scaled(image@, config.scale),
                resolved_format(Some(extension_after(path@, dot)), config.format),
                extension_after(path@, dot),
                config.quality,
            ),
            !path@.contains('.') ==> ok_bytes(r) == exported_file(
                export_scaled(image@, config.scale),
                resolved_format(None, config.format),
                Seq::empty(),
                config.quality,
            ),
    {
        let scaled = Self::scaled_for_export(image, config.scale);
        match export_format(path, config.format) {
            Ok(ExportFormat::Png) => Self::encode_png(&scaled),
            Ok(ExportFormat::Jpeg) => Self::encode_jpeg(&scaled, config.quality),
            Ok(ExportFormat::Other) => {
                let (w, h) = scaled.dimensions();
                let bytes = scaled.to_rgba_bytes();
                proof {
                    lemma_rgba_encoding_unique(scaled@.pixels, bytes@);
                }
                match encode_rgba_for_path(w, h, bytes.as_slice(), path) {
                    Ok(b) => Ok(b),
                    Err(e) => Err(image_error_message(&e)),
                }
            },
            Err(m) => Err(m),
        }
    }
}

} // verus!
