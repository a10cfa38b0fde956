use pixelforge::export::{ExportConfig, ImageExporter};
use pixelforge::file_format::{export_format, path_format, ExportFormat};
use pixelforge::loader::ImageLoader;
use pixelforge::raster::RgbaRaster;
use pixelforge::raster::Pixel;

fn png_bytes() -> Vec<u8> {
    let mut img = image::RgbaImage::new(2, 2);
    img.put_pixel(0, 0, image::Rgba([10, 20, 30, 255]));
    img.put_pixel(1, 1, image::Rgba([40, 50, 60, 128]));
    let mut out = std::io::Cursor::new(Vec::new());
    image::DynamicImage::ImageRgba8(img).write_to(&mut out, image::ImageFormat::Png).unwrap();
    out.into_inner()
}

#[test]
fn load_from_bytes_decodes_png() {
    let img = ImageLoader::load_from_bytes(&png_bytes()).unwrap();
    assert_eq!(img.dimensions(), (2, 2));
    assert_eq!(img.get_pixel(0, 0), Pixel::rgba(10, 20, 30, 255));
    assert_eq!(img.get_pixel(1, 1), Pixel::rgba(40, 50, 60, 128));
    assert_eq!(img.get_pixel(1, 0), Pixel::rgba(0, 0, 0, 0));
}

#[test]
fn load_from_bytes_converts_rgb_to_opaque_rgba() {
    let rgb = image::RgbImage::from_pixel(1, 1, image::Rgb([7, 8, 9]));
    let mut out = std::io::Cursor::new(Vec::new());
    image::DynamicImage::ImageRgb8(rgb).write_to(&mut out, image::ImageFormat::Png).unwrap();
    let img = ImageLoader::load_from_bytes(&out.into_inner()).unwrap();
    assert_eq!(img.get_pixel(0, 0), Pixel::rgba(7, 8, 9, 255));
}

#[test]
fn load_from_bytes_refuses_garbage() {
    let r = ImageLoader::load_from_bytes(b"definitely not an image");
    assert!(r.is_err());
    assert!(!r.err().unwrap().is_empty());
}

#[test]
fn load_for_path_decodes_by_extension() {
    let img = ImageLoader::load_from_bytes_for_path(&png_bytes(), "photos/in.PNG").unwrap();
    assert_eq!(img.dimensions(), (2, 2));
    assert_eq!(img.get_pixel(0, 0), Pixel::rgba(10, 20, 30, 255));
    assert!(ImageLoader::load_from_bytes_for_path(&png_bytes(), "photos/in.jpg").is_err());
    assert!(ImageLoader::load_from_bytes_for_path(&png_bytes(), "photos/in").is_err());
    assert!(ImageLoader::load_from_bytes_for_path(&png_bytes(), "photos/in.xyz").is_err());
}

#[test]
fn path_format_reads_the_extension() {
    assert_eq!(path_format("out.png"), Ok(ExportFormat::Png));
    assert_eq!(path_format("dir/out.JPEG"), Ok(ExportFormat::Jpeg));
    assert_eq!(path_format("/tmp/a.b/out.jfif"), Ok(ExportFormat::Jpeg));
    assert_eq!(path_format("out.bmp"), Ok(ExportFormat::Other));
    assert_eq!(path_format("out.tiff"), Ok(ExportFormat::Other));
    assert!(path_format("out.xyz").is_err());
    assert!(path_format("out").is_err());
}

#[test]
fn export_format_falls_back_for_unknown_extensions() {
    assert_eq!(export_format("out.jpg", ExportFormat::Png), Ok(ExportFormat::Jpeg));
    assert_eq!(export_format("out.xyz", ExportFormat::Png), Ok(ExportFormat::Png));
    assert_eq!(export_format("out", ExportFormat::Jpeg), Ok(ExportFormat::Jpeg));
    assert!(export_format("out", ExportFormat::Other).is_err());
    assert_eq!(export_format("out.webp", ExportFormat::Jpeg), Ok(ExportFormat::Other));
}

fn sample_raster() -> RgbaRaster {
    let mut img = RgbaRaster::from_pixel(3, 2, Pixel::rgba(200, 100, 50, 255));
    img.put_pixel(1, 1, Pixel::rgba(1, 2, 3, 255));
    img
}

#[test]
fn export_bytes_picks_the_encoder_by_path() {
    let img = sample_raster();
    let cfg = ExportConfig::default();
    assert_eq!(ImageExporter::export_bytes(&img, "out.png", &cfg).unwrap(), ImageExporter::encode_png(&img).unwrap());
    assert_eq!(ImageExporter::export_bytes(&img, "out.jpg", &cfg).unwrap(), ImageExporter::encode_jpeg(&img, 90).unwrap());
    assert_eq!(ImageExporter::export_bytes(&img, "out.unknown", &cfg).unwrap(), ImageExporter::encode_png(&img).unwrap());
    let bmp = ImageExporter::export_bytes(&img, "out.bmp", &cfg).unwrap();
    assert_eq!(&bmp[0..2], b"BM");
    let back = ImageLoader::load_from_bytes_for_path(&bmp, "out.bmp").unwrap();
    assert_eq!(back.pixels(), img.pixels());
    assert!(ImageExporter::export_bytes(&img, "out.gif", &cfg).is_err());
}

#[test]
fn export_bytes_scales_before_encoding() {
    let img = sample_raster();
    let cfg = ExportConfig { scale: 2, ..ExportConfig::default() };
    let png = ImageExporter::export_bytes(&img, "big.png", &cfg).unwrap();
    let back = ImageLoader::load_from_bytes(&png).unwrap();
    assert_eq!(back.dimensions(), (6, 4));
    assert_eq!(back.get_pixel(3, 3), Pixel::rgba(1, 2, 3, 255));
    assert_eq!(back.get_pixel(0, 0), Pixel::rgba(200, 100, 50, 255));
}

#[test]
fn export_bytes_without_a_usable_format_fails() {
    let img = sample_raster();
    let cfg = ExportConfig { format: ExportFormat::Other, ..ExportConfig::default() };
    let r = ImageExporter::export_bytes(&img, "out", &cfg);
    assert!(r.is_err());
    assert!(!r.err().unwrap().is_empty());
}
