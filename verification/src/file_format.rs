//! Image file formats and the format a file path names by its extension.

use vstd::prelude::*;
use crate::loader::image_error_message;

verus! {

/// The format an image file is written in, as far as exporting tells them
/// apart: PNG, JPEG, or another format that the `image` crate knows.
#[derive(Clone, Copy, Debug, PartialEq, Eq, Structural)]
pub enum ExportFormat {
    Png,
    Jpeg,
    /// Another format the `image` crate names (GIF, WebP, TIFF, BMP, ...).
    Other,
}

/// `c` with an ASCII capital letter made lower case.
pub open spec fn ascii_lower(c: char) -> char {
    if 'A' <= c && c <= 'Z' {
        ((c as u32) + 32) as char
    } else {
        c
    }
}

/// The format a file extension names, compared without regard to ASCII
/// case; `None` for an extension that names no format.
pub open spec fn extension_format(ext: Seq<char>) -> Option<ExportFormat> {
    let e = ext.map_values(|c: char| ascii_lower(c));
    if e == "jpg"@ || e == "jpeg"@ || e == "jfif"@ {
        Some(ExportFormat::Jpeg)
    } else if e == "png"@ || e == "apng"@ {
        Some(ExportFormat::Png)
    } else if e == "avif"@ || e == "gif"@ || e == "webp"@ || e == "tif"@ || e == "tiff"@ || e == "tga"@ || e == "dds"@
        || e == "bmp"@ || e == "ico"@ || e == "hdr"@ || e == "exr"@ || e == "pbm"@ || e == "pam"@ || e == "ppm"@
        || e == "pgm"@ || e == "pnm"@ || e == "ff"@ || e == "qoi"@ {
        Some(ExportFormat::Other)
    } else {
        None
    }
}

/// `p` is a plain file path whose extension starts after the `.` at `dot`:
/// no backslash anywhere, the file name is the part after the last `/`, it
/// has a non-empty stem without `:` before that `.`, and a non-empty
/// extension without `.` or `/` after it. Such a path reads the same on
/// every platform.
pub open spec fn plain_extension(p: Seq<char>, dot: int) -> bool {
    &&& 0 < dot < p.len() - 1
    &&& p[dot] == '.'
    &&& p[dot - 1] != '/'
    &&& forall|i: int| dot < i < p.len() ==> p[i] != '.' && p[i] != '/'
    &&& forall|i: int| 0 <= i < p.len() ==> p[i] != '\\'
    &&& forall|i: int| 0 <= i < dot && p[i] == ':' ==> exists|j: int| i < j < dot && p[j] == '/'
}

/// The extension of a plain path whose extension starts after `dot`.
pub open spec fn extension_after(p: Seq<char>, dot: int) -> Seq<char> {
    p.subrange(dot + 1, p.len() as int)
}

/// The format of a `path_format` outcome, `None` for an error.
pub open spec fn format_of_outcome<E>(r: Result<ExportFormat, E>) -> Option<ExportFormat> {
    match r {
        Ok(g) => Some(g),
        Err(_) => None,
    }
}

/// Calls `image::ImageFormat::from_path`, which takes the extension of the
/// path's file name (`std::path::Path::extension`) and looks it up with
/// `ImageFormat::from_extension`, failing when there is none or it names no
/// format. The contract states the outcome for plain paths, whose extension
/// std reads the same way on every platform, and that a path without a `.`
/// has no format; how other paths split into a file name and an extension
/// depends on the platform's path syntax and is not stated. Formats other
/// than PNG and JPEG come back as `Other`.
#[verifier::external_body]
fn image_format_from_path(path: &str) -> (r: Result<ExportFormat, image::ImageError>)
    ensures
        forall|dot: int| #[trigger] plain_extension(path@, dot) ==> format_of_outcome(r) == extension_format(extension_after(path@, dot)),
        !path@.contains('.') ==> r is Err,
{
    match image::ImageFormat::from_path(path) {
        Ok(image::ImageFormat::Png) => Ok(ExportFormat::Png),
        Ok(image::ImageFormat::Jpeg) => Ok(ExportFormat::Jpeg),
        Ok(_) => Ok(ExportFormat::Other),
        Err(e) => Err(e),
    }
}

/// The format that a path's extension names; the error carries the
/// message of the failed lookup.
pub fn path_format(path: &str) -> (r: Result<ExportFormat, String>)
    ensures
        forall|dot: int| #[trigger] plain_extension(path@, dot) ==> format_of_outcome(r) == extension_format(extension_after(path@, dot)),
        !path@.contains('.') ==> r is Err,
{
    match image_format_from_path(path) {
        Ok(g) => Ok(g),
        Err(e) => Err(image_error_message(&e)),
    }
}

/// The format an export to `path` writes: the one the path's extension
/// names, else `fallback` when that is PNG or JPEG; an `Other` fallback
/// fails with the lookup's message, since another format is only ever
/// written as the one the path names.
pub fn export_format(path: &str, fallback: ExportFormat) -> (r: Result<ExportFormat, String>)
    ensures
        forall|dot: int| #[trigger] plain_extension(path@, dot) ==> format_of_outcome(r) == match extension_format(extension_after(path@, dot)) {
            Some(g) => Some(g),
            None => if fallback == ExportFormat::Png || fallback == ExportFormat::Jpeg { Some(fallback) } else { None },
        },
        !path@.contains('.') ==> format_of_outcome(r) == if fallback == ExportFormat::Png || fallback == ExportFormat::Jpeg {
            Some(fallback)
        } else {
            None::<ExportFormat>
        },
{
    match path_format(path) {
        Ok(g) => Ok(g),
        Err(msg) => match fallback {
            ExportFormat::Png => Ok(ExportFormat::Png),
            ExportFormat::Jpeg => Ok(ExportFormat::Jpeg),
            _ => Err(msg),
        },
    }
}

} // verus!
