use pixelforge::placeholder::PlaceholderSegmenter;
use pixelforge::raster::{Pixel, RgbaRaster};
use pixelforge::regions::{region_bounds, PixelBounds, bisenet_class_to_region, map_class_to_region, segmentation_class_color, visualize_segmentation_colors, SegmentationRegion, SEGMENTATION_COLORS};
use pixelforge::regions::SegmentationRegion::{
    Background, Clothing, Earring, Ears, Eyeglasses, Eyes, Face, Hair, Hat, InnerMouth, LeftEar, LeftEye, LeftEyebrow, Lips,
    LowerLip, Neck, Nose, RightEar, RightEye, RightEyebrow, Skin, UpperLip,
};
use pixelforge::visualize::{draw_face_box, draw_landmark, ml_slic_to_image, visualize_face_detection, BG_LABEL};

#[test]
fn bisenet_classes_map_one_to_one() {
    let expected = [
        Background, Skin, LeftEyebrow, RightEyebrow, LeftEye, RightEye, Eyeglasses, LeftEar, RightEar, Earring,
        Nose, InnerMouth, UpperLip, LowerLip, Neck, Hair, Hat, Earring, Earring,
    ];
    for (i, r) in expected.iter().enumerate() {
        assert_eq!(bisenet_class_to_region(i), *r, "class {}", i);
    }
    assert_eq!(bisenet_class_to_region(19), Background);
    assert_eq!(bisenet_class_to_region(usize::MAX), Background);
}

#[test]
fn bisenet_keeps_the_sixteen_face_classes_apart() {
    for a in 0..17usize {
        for b in 0..17usize {
            if a != b && !(a == 9 || b == 9) {
                assert_ne!(bisenet_class_to_region(a), bisenet_class_to_region(b));
            }
        }
    }
}

#[test]
fn coarse_classes_map_to_groups() {
    assert_eq!(map_class_to_region(0), Background);
    assert_eq!(map_class_to_region(1), Face);
    assert_eq!(map_class_to_region(2), Face);
    assert_eq!(map_class_to_region(3), Eyes);
    assert_eq!(map_class_to_region(10), Eyes);
    assert_eq!(map_class_to_region(11), Nose);
    assert_eq!(map_class_to_region(14), Nose);
    assert_eq!(map_class_to_region(15), Lips);
    assert_eq!(map_class_to_region(16), Lips);
    assert_eq!(map_class_to_region(17), Hair);
    assert_eq!(map_class_to_region(18), Ears);
    assert_eq!(map_class_to_region(19), Neck);
    assert_eq!(map_class_to_region(20), Clothing);
    assert_eq!(map_class_to_region(21), Background);
}

#[test]
fn segmentation_colors() {
    assert_eq!(SEGMENTATION_COLORS[1], (204, 153, 153, 255));
    assert_eq!(segmentation_class_color(15), Pixel::rgba(139, 69, 19, 255));
    assert_eq!(segmentation_class_color(10), Pixel::rgba(255, 140, 0, 255));
    assert_eq!(segmentation_class_color(19), Pixel::rgba(0, 0, 0, 255));
    assert_eq!(segmentation_class_color(255), Pixel::rgba(0, 0, 0, 255));
}

#[test]
fn class_map_rendering() {
    let img = visualize_segmentation_colors(&[0, 1, 4, 200], 2, 2);
    assert_eq!(img.dimensions(), (2, 2));
    assert_eq!(img.get_pixel(0, 0), Pixel::rgba(0, 0, 0, 255));
    assert_eq!(img.get_pixel(1, 0), Pixel::rgba(204, 153, 153, 255));
    assert_eq!(img.get_pixel(0, 1), Pixel::rgba(0, 255, 255, 255));
    assert_eq!(img.get_pixel(1, 1), Pixel::rgba(0, 0, 0, 255));
}

#[test]
fn short_class_map_leaves_pixels_transparent() {
    let img = visualize_segmentation_colors(&[1], 2, 1);
    assert_eq!(img.get_pixel(0, 0), Pixel::rgba(204, 153, 153, 255));
    assert_eq!(img.get_pixel(1, 0), Pixel::transparent());
}

#[test]
fn superpixel_rendering() {
    let img = ml_slic_to_image(&[0, 1, 16, BG_LABEL, 15], 3, 2);
    assert_eq!(img.get_pixel(0, 0), Pixel::rgba(230, 25, 75, 255));
    assert_eq!(img.get_pixel(1, 0), Pixel::rgba(60, 180, 75, 255));
    // labels wrap around the 16-color palette
    assert_eq!(img.get_pixel(2, 0), Pixel::rgba(230, 25, 75, 255));
    // background label is dark gray
    assert_eq!(img.get_pixel(0, 1), Pixel::rgba(30, 30, 30, 255));
    assert_eq!(img.get_pixel(1, 1), Pixel::rgba(0, 0, 0, 255));
    // missing labels read as label 0
    assert_eq!(img.get_pixel(2, 1), Pixel::rgba(230, 25, 75, 255));
}

#[test]
fn landmark_markers() {
    let mut img = RgbaRaster::new(10, 10);
    draw_landmark(&mut img, 0, 5, 5);
    assert_eq!(img.get_pixel(3, 3), Pixel::rgba(255, 0, 0, 255));
    assert_eq!(img.get_pixel(7, 7), Pixel::rgba(255, 0, 0, 255));
    assert_eq!(img.get_pixel(8, 5), Pixel::transparent());
    draw_landmark(&mut img, 2, 0, 0);
    assert_eq!(img.get_pixel(0, 0), Pixel::rgba(0, 255, 0, 255));
    assert_eq!(img.get_pixel(2, 2), Pixel::rgba(0, 255, 0, 255));
    assert_eq!(img.get_pixel(3, 0), Pixel::transparent());
    draw_landmark(&mut img, 4, 9, 0);
    assert_eq!(img.get_pixel(9, 1), Pixel::rgba(255, 0, 255, 255));
    draw_landmark(&mut img, 7, 5, 9);
    assert_eq!(img.get_pixel(5, 9), Pixel::rgba(255, 255, 0, 255));
}

#[test]
fn face_box_outline() {
    let green = Pixel::rgba(0, 255, 0, 255);
    let mut img = RgbaRaster::new(20, 20);
    draw_face_box(&mut img, 2, 3, 10, 12);
    // top band rows 3..=6 and bottom band rows 12..=15 within columns 2..=11
    assert_eq!(img.get_pixel(7, 3), green);
    assert_eq!(img.get_pixel(7, 6), green);
    assert_eq!(img.get_pixel(7, 7), Pixel::transparent());
    assert_eq!(img.get_pixel(7, 15), green);
    assert_eq!(img.get_pixel(7, 12), green);
    assert_eq!(img.get_pixel(7, 11), Pixel::transparent());
    assert_eq!(img.get_pixel(12, 15), Pixel::transparent());
    // left band columns 2..=5 and right band columns 9..=12 within rows 3..15
    assert_eq!(img.get_pixel(2, 10), green);
    assert_eq!(img.get_pixel(12, 10), green);
    assert_eq!(img.get_pixel(8, 10), Pixel::transparent());
    assert_eq!(img.get_pixel(13, 10), Pixel::transparent());
    assert_eq!(img.get_pixel(1, 10), Pixel::transparent());
}

#[test]
fn placeholder_layout() {
    let regions = PlaceholderSegmenter.segment(20, 20);
    assert_eq!(regions.len(), 400);
    let at = |x: usize, y: usize| regions[y * 20 + x];
    // face box: rows 3..=15, columns 5..=15, 10 × 12 interior steps
    assert_eq!(at(10, 0), Hair);
    assert_eq!(at(0, 2), Hair);
    assert_eq!(at(0, 3), Background);
    assert_eq!(at(5, 3), Skin);
    assert_eq!(at(16, 10), Background);
    assert_eq!(at(10, 16), Background);
    // eyes: rows with 0.25 < (y - 3) / 12 < 0.40, i.e. y = 7
    assert_eq!(at(8, 7), LeftEye);
    assert_eq!(at(12, 7), RightEye);
    assert_eq!(at(10, 7), Skin);
    // nose: 0.42 < (y - 3) / 12 < 0.62 -> y in 9..=10; columns 9..=11
    assert_eq!(at(10, 9), Nose);
    // upper lip: 0.68 < (y - 3) / 12 < 0.82 -> y = 12; columns 9..=11
    assert_eq!(at(10, 12), UpperLip);
    assert_eq!(at(10, 15), Skin);
}

#[test]
fn region_bounding_boxes() {
    let regions = PlaceholderSegmenter.segment(20, 20);
    assert_eq!(
        region_bounds(&regions, 20, 20, Hair),
        Some(PixelBounds { min_x: 0, min_y: 0, max_x: 19, max_y: 2 })
    );
    assert_eq!(
        region_bounds(&regions, 20, 20, Nose),
        Some(PixelBounds { min_x: 9, min_y: 9, max_x: 11, max_y: 10 })
    );
    assert_eq!(
        region_bounds(&regions, 20, 20, LeftEye),
        Some(PixelBounds { min_x: 7, min_y: 7, max_x: 8, max_y: 7 })
    );
    assert_eq!(region_bounds(&regions, 20, 20, Hat), None);
    assert_eq!(region_bounds(&[], 0, 0, Background), None);
}

#[test]
fn face_annotation_draws_box_then_markers() {
    let base = RgbaRaster::from_pixel(30, 30, Pixel::rgba(9, 9, 9, 255));
    let img = visualize_face_detection(&base, Some((5, 5, 20, 20)), &[(10, 12), (20, 12), (15, 16), (11, 22), (19, 22)]);
    let green = Pixel::rgba(0, 255, 0, 255);
    assert_eq!(img.get_pixel(15, 5), green);
    assert_eq!(img.get_pixel(5, 15), green);
    assert_eq!(img.get_pixel(25, 15), green);
    assert_eq!(img.get_pixel(15, 25), green);
    assert_eq!(img.get_pixel(0, 0), Pixel::rgba(9, 9, 9, 255));
    // eyes red, nose green, mouth corners magenta
    assert_eq!(img.get_pixel(10, 12), Pixel::rgba(255, 0, 0, 255));
    assert_eq!(img.get_pixel(22, 14), Pixel::rgba(255, 0, 0, 255));
    assert_eq!(img.get_pixel(15, 16), Pixel::rgba(0, 255, 0, 255));
    assert_eq!(img.get_pixel(11, 22), Pixel::rgba(255, 0, 255, 255));
    // a later marker covers the box
    assert_eq!(img.get_pixel(21, 22), Pixel::rgba(255, 0, 255, 255));
    // with no detected face nothing is drawn
    let plain = visualize_face_detection(&base, None, &[(0, 0)]);
    assert_eq!(plain.get_pixel(0, 0), Pixel::rgba(9, 9, 9, 255));
    assert_eq!(plain.pixels(), base.pixels());
}
