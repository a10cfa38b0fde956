use pixelforge::export::ImageExporter;
use pixelforge::imaging::{resize_to_fit, ResizeFilter};
use pixelforge::raster::{Pixel, RgbaRaster};
use pixelforge::transform::ImageTransform;

fn px(v: u8) -> Pixel {
    Pixel::rgba(v, v, v, 255)
}

/// A `w × h` image whose pixel at (x, y) has gray level `10 * y + x + 1`.
fn numbered(w: u32, h: u32) -> RgbaRaster {
    let mut img = RgbaRaster::new(w, h);
    for y in 0..h {
        for x in 0..w {
            img.put_pixel(x, y, px((10 * y + x + 1) as u8));
        }
    }
    img
}

#[test]
fn flip_horizontal_mirrors_columns() {
    let img = numbered(3, 2);
    let f = ImageTransform::flip_horizontal(&img);
    assert_eq!(f.dimensions(), (3, 2));
    assert_eq!(f.get_pixel(0, 0), px(3));
    assert_eq!(f.get_pixel(2, 0), px(1));
    assert_eq!(f.get_pixel(1, 1), px(12));
}

#[test]
fn flip_vertical_mirrors_rows() {
    let img = numbered(2, 3);
    let f = ImageTransform::flip_vertical(&img);
    assert_eq!(f.get_pixel(0, 0), px(21));
    assert_eq!(f.get_pixel(1, 2), px(2));
}

#[test]
fn flipping_twice_restores_the_image() {
    let img = numbered(4, 3);
    let hh = ImageTransform::flip_horizontal(&ImageTransform::flip_horizontal(&img));
    let vv = ImageTransform::flip_vertical(&ImageTransform::flip_vertical(&img));
    assert_eq!(hh.pixels(), img.pixels());
    assert_eq!(vv.pixels(), img.pixels());
}

#[test]
fn crop_takes_the_window() {
    let img = numbered(4, 4);
    let c = ImageTransform::crop(&img, 1, 2, 2, 2);
    assert_eq!(c.dimensions(), (2, 2));
    assert_eq!(c.get_pixel(0, 0), px(22));
    assert_eq!(c.get_pixel(1, 1), px(33));
}

#[test]
fn crop_clamps_to_the_image() {
    let img = numbered(4, 4);
    let c = ImageTransform::crop(&img, 3, 1, 5, 9);
    assert_eq!(c.dimensions(), (1, 3));
    assert_eq!(c.get_pixel(0, 0), px(14));
    let outside = ImageTransform::crop(&img, 10, 0, 3, 1);
    assert_eq!(outside.dimensions(), (0, 1));
}

#[test]
fn crop_of_whole_image_is_identity() {
    let img = numbered(3, 3);
    let c = ImageTransform::crop(&img, 0, 0, 3, 3);
    assert_eq!(c.pixels(), img.pixels());
}

#[test]
fn clip_keeps_at_least_one_pixel() {
    let img = numbered(4, 4);
    let c = ImageTransform::clip(&img, 9, 9, 5, 5);
    assert_eq!(c.dimensions(), (1, 1));
    assert_eq!(c.get_pixel(0, 0), px(34));
    let d = ImageTransform::clip(&img, 1, 1, 2, 10);
    assert_eq!(d.dimensions(), (2, 3));
    assert_eq!(d.get_pixel(1, 2), px(33));
}

#[test]
fn offset_moves_pixels_and_clears_the_rest() {
    let img = numbered(3, 1);
    let right = ImageTransform::offset(&img, 1, 0);
    assert_eq!(right.get_pixel(0, 0), Pixel::transparent());
    assert_eq!(right.get_pixel(1, 0), px(1));
    assert_eq!(right.get_pixel(2, 0), px(2));
    let left = ImageTransform::offset(&img, -1, 0);
    assert_eq!(left.get_pixel(0, 0), px(2));
    assert_eq!(left.get_pixel(2, 0), Pixel::transparent());
}

#[test]
fn offset_by_zero_is_identity() {
    let img = numbered(3, 2);
    let same = ImageTransform::offset(&img, 0, 0);
    assert_eq!(same.pixels(), img.pixels());
}

#[test]
fn offset_there_and_back_keeps_the_inner_part() {
    let img = numbered(4, 3);
    let moved = ImageTransform::offset(&img, 1, 1);
    let back = ImageTransform::offset(&moved, -1, -1);
    for y in 0..2 {
        for x in 0..3 {
            assert_eq!(back.get_pixel(x, y), img.get_pixel(x, y));
        }
    }
    assert_eq!(back.get_pixel(3, 0), Pixel::transparent());
    assert_eq!(back.get_pixel(0, 2), Pixel::transparent());
}

#[test]
fn resize_fits_and_keeps_aspect() {
    let img = RgbaRaster::from_pixel(4, 2, Pixel::rgba(200, 10, 10, 255));
    let r = ImageTransform::resize(&img, 2, 2);
    assert_eq!(r.dimensions(), (2, 1));
    assert_eq!(r.get_pixel(1, 0), Pixel::rgba(200, 10, 10, 255));
}

#[test]
fn resize_to_the_same_size_is_identity() {
    let img = numbered(3, 2);
    let r = resize_to_fit(&img, 3, 2, ResizeFilter::Lanczos3);
    assert_eq!(r.pixels(), img.pixels());
}

#[test]
fn nearest_resize_doubles_pixels() {
    let img = numbered(2, 1);
    let r = resize_to_fit(&img, 4, 2, ResizeFilter::Nearest);
    assert_eq!(r.dimensions(), (4, 2));
    assert_eq!(r.get_pixel(0, 0), px(1));
    assert_eq!(r.get_pixel(1, 1), px(1));
    assert_eq!(r.get_pixel(2, 0), px(2));
    assert_eq!(r.get_pixel(3, 1), px(2));
}

#[test]
fn export_scale_multiplies_dimensions() {
    let img = numbered(2, 1);
    let s = ImageExporter::scaled_for_export(&img, 3);
    assert_eq!(s.dimensions(), (6, 3));
    assert_eq!(s.get_pixel(2, 2), px(1));
    assert_eq!(s.get_pixel(3, 0), px(2));
    let same = ImageExporter::scaled_for_export(&img, 1);
    assert_eq!(same.pixels(), img.pixels());
    let zero = ImageExporter::scaled_for_export(&img, 0);
    assert_eq!(zero.pixels(), img.pixels());
}

#[test]
fn rgb_bytes_drop_alpha() {
    let mut img = RgbaRaster::from_pixel(2, 1, Pixel::rgba(1, 2, 3, 4));
    img.put_pixel(1, 0, Pixel::rgba(5, 6, 7, 0));
    assert_eq!(ImageExporter::rgb_bytes(&img), vec![1, 2, 3, 5, 6, 7]);
}

#[test]
fn png_encoding_decodes_back() {
    let img = numbered(3, 2);
    let png = ImageExporter::encode_png(&img).unwrap();
    assert_eq!(&png[1..4], b"PNG");
    let back = image::load_from_memory(&png).unwrap().into_rgba8();
    assert_eq!(back.dimensions(), (3, 2));
    assert_eq!(back.get_pixel(2, 1).0, [13, 13, 13, 255]);
}

#[test]
fn jpeg_encoding_has_jpeg_markers() {
    let img = RgbaRaster::from_pixel(8, 8, Pixel::rgba(120, 120, 120, 255));
    let jpg = ImageExporter::encode_jpeg(&img, 90).unwrap();
    assert_eq!(&jpg[0..2], &[0xFF, 0xD8]);
    assert_eq!(&jpg[jpg.len() - 2..], &[0xFF, 0xD9]);
    let back = image::load_from_memory(&jpg).unwrap().into_rgb8();
    assert_eq!(back.dimensions(), (8, 8));
}

#[test]
fn fit_max_dimension_limits_the_longer_side() {
    let img = RgbaRaster::from_pixel(40, 20, px(90));
    let small = ImageTransform::fit_max_dimension(&img, 10);
    assert_eq!(small.dimensions(), (10, 5));
    assert_eq!(small.get_pixel(9, 4), px(90));
    let tall = RgbaRaster::from_pixel(3, 30, px(90));
    assert_eq!(ImageTransform::fit_max_dimension(&tall, 10).dimensions(), (1, 10));
}

#[test]
fn fit_max_dimension_keeps_small_images() {
    let img = numbered(4, 3);
    assert_eq!(ImageTransform::fit_max_dimension(&img, 4).pixels(), img.pixels());
    assert_eq!(ImageTransform::fit_max_dimension(&img, 0).pixels(), img.pixels());
}
