use pixelforge::font::glyph;
use pixelforge::raster::{Pixel, RgbaRaster};
use pixelforge::text::{draw_text, draw_text_simple, to_ascii_upper};

fn red() -> Pixel {
    Pixel::rgba(255, 0, 0, 255)
}

#[test]
fn new_raster_is_transparent() {
    let img = RgbaRaster::new(3, 2);
    assert_eq!(img.dimensions(), (3, 2));
    assert_eq!(img.pixels().len(), 6);
    assert_eq!(img.get_pixel(2, 1), Pixel::transparent());
}

#[test]
fn put_pixel_then_get_pixel() {
    let mut img = RgbaRaster::new(4, 4);
    img.put_pixel(1, 2, red());
    assert_eq!(img.get_pixel(1, 2), red());
    assert_eq!(img.get_pixel(2, 1), Pixel::transparent());
    assert_eq!(img.pixels()[2 * 4 + 1], red());
}

#[test]
fn rgba_bytes_round_trip() {
    let mut img = RgbaRaster::from_pixel(2, 1, Pixel::rgba(1, 2, 3, 4));
    img.put_pixel(1, 0, Pixel::rgba(5, 6, 7, 8));
    let bytes = img.to_rgba_bytes();
    assert_eq!(bytes, vec![1, 2, 3, 4, 5, 6, 7, 8]);
    let back = RgbaRaster::from_rgba_bytes(2, 1, &bytes).unwrap();
    assert_eq!(back.pixels(), img.pixels());
    assert_eq!(back.dimensions(), (2, 1));
}

#[test]
fn from_rgba_bytes_rejects_wrong_length() {
    assert!(RgbaRaster::from_rgba_bytes(2, 2, &vec![0u8; 15]).is_none());
    assert!(RgbaRaster::from_rgba_bytes(2, 2, &vec![0u8; 12]).is_none());
    assert!(RgbaRaster::from_rgba_bytes(2, 2, &vec![0u8; 16]).is_some());
}

#[test]
fn from_pixels_checks_count() {
    assert!(RgbaRaster::from_pixels(2, 2, vec![red(); 3]).is_none());
    let img = RgbaRaster::from_pixels(2, 2, vec![red(); 4]).unwrap();
    assert_eq!(img.get_pixel(1, 1), red());
}

#[test]
fn fill_rows_paints_only_those_rows() {
    let mut img = RgbaRaster::new(3, 4);
    img.fill_rows(1, 3, red());
    for x in 0..3 {
        assert_eq!(img.get_pixel(x, 0), Pixel::transparent());
        assert_eq!(img.get_pixel(x, 1), red());
        assert_eq!(img.get_pixel(x, 2), red());
        assert_eq!(img.get_pixel(x, 3), Pixel::transparent());
    }
}

#[test]
fn clone_raster_copies_pixels() {
    let img = RgbaRaster::from_pixel(2, 3, red());
    let copy = img.clone_raster();
    assert_eq!(copy.dimensions(), (2, 3));
    assert_eq!(copy.pixels(), img.pixels());
}

#[test]
fn glyph_covers_space_to_underscore() {
    for c in ' '..='_' {
        assert!(glyph(c).is_some(), "missing glyph for {:?}", c);
    }
    assert_eq!(glyph(' '), Some(0));
    assert!(glyph('a').is_none());
    assert!(glyph('~').is_none());
    assert!(glyph('é').is_none());
    assert_eq!(glyph('1'), Some(0b00100_01100_00100_00100_00100_00100_01110));
}

#[test]
fn glyph_bitmaps_fit_in_35_bits() {
    for c in ' '..='_' {
        assert!(glyph(c).unwrap() < (1u64 << 35));
    }
}

#[test]
fn ascii_upper_only_changes_letters() {
    assert_eq!(to_ascii_upper('a'), 'A');
    assert_eq!(to_ascii_upper('z'), 'Z');
    assert_eq!(to_ascii_upper('Q'), 'Q');
    assert_eq!(to_ascii_upper('3'), '3');
    assert_eq!(to_ascii_upper('é'), 'é');
}

#[test]
fn draw_text_draws_the_glyph_pixels() {
    let mut img = RgbaRaster::new(20, 10);
    draw_text(&mut img, "1", 2, 1, 20, red(), 8);
    // Top row of '1' is 00100: only the middle column is lit.
    assert_eq!(img.get_pixel(4, 1), red());
    assert_eq!(img.get_pixel(2, 1), Pixel::transparent());
    // Bottom row of '1' is 01110.
    assert_eq!(img.get_pixel(3, 7), red());
    assert_eq!(img.get_pixel(5, 7), red());
    assert_eq!(img.get_pixel(6, 7), Pixel::transparent());
}

#[test]
fn draw_text_upper_cases_letters() {
    let mut lower = RgbaRaster::new(20, 10);
    let mut upper = RgbaRaster::new(20, 10);
    draw_text(&mut lower, "ab", 0, 0, 20, red(), 8);
    draw_text(&mut upper, "AB", 0, 0, 20, red(), 8);
    assert_eq!(lower.pixels(), upper.pixels());
    assert!(upper.pixels().iter().any(|p| *p == red()));
}

#[test]
fn draw_text_clips_at_max_x() {
    let mut img = RgbaRaster::new(30, 10);
    // '-' lights the whole middle row of its cell; the first cell is cut at
    // column 7 and the next one would end past it, so drawing stops.
    draw_text(&mut img, "---", 4, 0, 7, red(), 8);
    assert_eq!(img.get_pixel(4, 3), red());
    assert_eq!(img.get_pixel(6, 3), red());
    assert_eq!(img.get_pixel(7, 3), Pixel::transparent());
    assert_eq!(img.get_pixel(10, 3), Pixel::transparent());
    let mut wide = RgbaRaster::new(30, 10);
    draw_text(&mut wide, "---", 0, 0, 8, red(), 8);
    assert_eq!(wide.get_pixel(4, 3), red());
    assert_eq!(wide.get_pixel(6, 3), Pixel::transparent());
}

#[test]
fn draw_text_respects_max_chars() {
    let mut img = RgbaRaster::new(40, 10);
    draw_text(&mut img, "----", 0, 0, 40, red(), 2);
    assert_eq!(img.get_pixel(10, 3), red());
    assert_eq!(img.get_pixel(12, 3), Pixel::transparent());
}

#[test]
fn draw_text_simple_uses_label_color() {
    let mut img = RgbaRaster::new(10, 10);
    draw_text_simple(&mut img, "-", 0, 0, 10);
    assert_eq!(img.get_pixel(0, 3), Pixel::rgba(235, 235, 240, 255));
}
