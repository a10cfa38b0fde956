use pixelforge::captions::{
    count_distinct_labels, decimal_string, dims_caption, dims_string, not_run_note, palette_caption, row_subtitle, slic_caption,
    stage_label, SheetStage,
};
use pixelforge::contact_sheet::{compose_contact_sheet, pipeline_rows, stage_row, ContactSheetRow};
use pixelforge::raster::{Pixel, RgbaRaster};

const BG: Pixel = Pixel { r: 24, g: 24, b: 28, a: 255 };
const LABEL_BAND: Pixel = Pixel { r: 40, g: 40, b: 46, a: 255 };
const PLACEHOLDER: Pixel = Pixel { r: 44, g: 44, b: 52, a: 255 };
const SETTINGS: Pixel = Pixel { r: 28, g: 28, b: 34, a: 255 };

fn red() -> Pixel {
    Pixel::rgba(255, 0, 0, 255)
}

fn sample_rows() -> Vec<ContactSheetRow<'static>> {
    vec![
        ContactSheetRow {
            label: "INPUT",
            image: Some(RgbaRaster::from_pixel(4, 2, red())),
            subtitle: Some("4x2  source"),
            settings: None,
        },
        ContactSheetRow { label: "DEPTH MAP", image: None, subtitle: None, settings: None },
        ContactSheetRow {
            label: "SETTINGS",
            image: None,
            subtitle: None,
            settings: Some(vec![("k".to_string(), "24".to_string()), ("gamma".to_string(), "1.00".to_string())]),
        },
    ]
}

#[test]
fn contact_sheet_dimensions() {
    // 8 top padding; image row 22 + 14 + 32 + 8; placeholder row 22 + 64 + 8;
    // settings row 22 + (2 * 11 + 8) + 8.
    let sheet = compose_contact_sheet(&sample_rows(), 64);
    assert_eq!(sheet.dimensions(), (64, 8 + 76 + 94 + 60));
}

#[test]
fn contact_sheet_width_is_at_least_64() {
    let rows = vec![ContactSheetRow { label: "X", image: None, subtitle: None, settings: None }];
    let sheet = compose_contact_sheet(&rows, 10);
    assert_eq!(sheet.dimensions(), (64, 8 + 94));
}

#[test]
fn contact_sheet_bands_and_content() {
    let sheet = compose_contact_sheet(&sample_rows(), 64);
    // top padding
    assert_eq!(sheet.get_pixel(0, 0), BG);
    assert_eq!(sheet.get_pixel(63, 7), BG);
    // label band of the first row (text starts at x = 6)
    assert_eq!(sheet.get_pixel(0, 8), LABEL_BAND);
    assert_eq!(sheet.get_pixel(63, 29), LABEL_BAND);
    // subtitle band
    assert_eq!(sheet.get_pixel(63, 30), BG);
    // image content scaled to 64 × 32
    assert_eq!(sheet.get_pixel(0, 44), red());
    assert_eq!(sheet.get_pixel(63, 75), red());
    // gap after the row
    assert_eq!(sheet.get_pixel(0, 76), BG);
    // placeholder row: label band at 84, content from 106
    assert_eq!(sheet.get_pixel(63, 84), LABEL_BAND);
    assert_eq!(sheet.get_pixel(63, 106), PLACEHOLDER);
    assert_eq!(sheet.get_pixel(0, 169), PLACEHOLDER);
    assert_eq!(sheet.get_pixel(0, 170), BG);
    // settings row: label band at 178, content from 200 to 229
    assert_eq!(sheet.get_pixel(63, 178), LABEL_BAND);
    assert_eq!(sheet.get_pixel(63, 200), SETTINGS);
    assert_eq!(sheet.get_pixel(0, 229), SETTINGS);
    assert_eq!(sheet.get_pixel(0, 230), BG);
}

#[test]
fn contact_sheet_draws_labels() {
    let sheet = compose_contact_sheet(&sample_rows(), 64);
    // "I" of INPUT at (6, 12): its top row is 01110.
    assert_eq!(sheet.get_pixel(7, 12), Pixel::rgba(235, 235, 240, 255));
    assert_eq!(sheet.get_pixel(6, 12), LABEL_BAND);
}

#[test]
fn contact_sheet_of_no_rows_is_padding_only() {
    let sheet = compose_contact_sheet(&[], 100);
    assert_eq!(sheet.dimensions(), (100, 8));
    assert_eq!(sheet.get_pixel(99, 7), BG);
}

#[test]
fn tall_images_get_a_tall_row() {
    let rows = vec![ContactSheetRow {
        label: "TALL",
        image: Some(RgbaRaster::from_pixel(2, 3, red())),
        subtitle: None,
        settings: None,
    }];
    // content height round(64 * 3 / 2) = 96
    let sheet = compose_contact_sheet(&rows, 64);
    assert_eq!(sheet.dimensions(), (64, 8 + 22 + 96 + 8));
    // a very flat image still gets 8 rows
    let flat = vec![ContactSheetRow {
        label: "FLAT",
        image: Some(RgbaRaster::from_pixel(100, 1, red())),
        subtitle: None,
        settings: None,
    }];
    let sheet = compose_contact_sheet(&flat, 64);
    assert_eq!(sheet.dimensions(), (64, 8 + 22 + 8 + 8));
}

#[test]
fn decimal_strings() {
    assert_eq!(decimal_string(0), "0");
    assert_eq!(decimal_string(7), "7");
    assert_eq!(decimal_string(42), "42");
    assert_eq!(decimal_string(1000), "1000");
    assert_eq!(decimal_string(u64::MAX), u64::MAX.to_string());
}

#[test]
fn captions_match_the_sheet_format() {
    assert_eq!(dims_string(518, 384), "518x384");
    assert_eq!(dims_caption(518, 518, "source"), "518x518  source");
    assert_eq!(dims_caption(64, 48, "depth-anything v2"), "64x48  depth-anything v2");
    assert_eq!(slic_caption(640, 480, 24, 19), "640x480  k=24  19 regions");
    assert_eq!(palette_caption(32, 32, 16), "32x32  16 colors");
}

#[test]
fn distinct_label_count() {
    assert_eq!(count_distinct_labels(&[]), 0);
    assert_eq!(count_distinct_labels(&[3, 3, 3]), 1);
    assert_eq!(count_distinct_labels(&[0, 1, 0, 2, u32::MAX, 1]), 4);
}

#[test]
fn stage_labels_in_sheet_order() {
    let stages = [
        SheetStage::Input,
        SheetStage::Depth,
        SheetStage::Edges,
        SheetStage::Superpixels,
        SheetStage::Segmentation,
        SheetStage::Flat,
        SheetStage::Output,
        SheetStage::Settings,
    ];
    let labels: Vec<&str> = stages.iter().map(|s| stage_label(*s)).collect();
    assert_eq!(
        labels,
        vec!["INPUT", "DEPTH MAP", "EDGE MAP", "SLIC REGIONS", "SEGMENTATION", "FLAT (POST-DTF)", "OUTPUT", "SETTINGS"]
    );
}

#[test]
fn not_run_notes_say_what_to_do() {
    assert_eq!(not_run_note(SheetStage::Depth), "not run \u{2014} enable depth estimation and run ML analysis");
    assert_eq!(not_run_note(SheetStage::Edges), "not run \u{2014} enable edge detection and run ML analysis");
    assert_eq!(not_run_note(SheetStage::Superpixels), "not computed \u{2014} run Process once");
    assert_eq!(not_run_note(SheetStage::Segmentation), "not run \u{2014} enable segmentation and run ML analysis");
    assert_eq!(not_run_note(SheetStage::Flat), "run Process to populate");
    assert_eq!(not_run_note(SheetStage::Output), "run Process to populate");
}

#[test]
fn row_subtitle_is_caption_once_run() {
    assert_eq!(row_subtitle(SheetStage::Depth, Some("4x2  depth-anything v2")), "4x2  depth-anything v2");
    assert_eq!(row_subtitle(SheetStage::Depth, None), "not run \u{2014} enable depth estimation and run ML analysis");
    assert_eq!(row_subtitle(SheetStage::Output, None), "run Process to populate");
}

#[test]
fn stage_row_notes_a_stage_that_has_not_run() {
    let ran = stage_row(SheetStage::Edges, Some(RgbaRaster::from_pixel(2, 2, red())), "2x2  dexined");
    assert_eq!(ran.label, "EDGE MAP");
    assert_eq!(ran.subtitle, Some("2x2  dexined"));
    assert!(ran.image.is_some() && ran.settings.is_none());
    let missing = stage_row(SheetStage::Edges, None, "2x2  dexined");
    assert_eq!(missing.subtitle, Some("not run \u{2014} enable edge detection and run ML analysis"));
    assert!(missing.image.is_none());
}

#[test]
fn pipeline_rows_follow_the_pipeline() {
    let captions: Vec<String> = (0..7).map(|k| format!("caption {}", k)).collect();
    let settings = vec![("SOURCE".to_string(), "a.png".to_string())];
    let rows = pipeline_rows(
        RgbaRaster::from_pixel(2, 2, red()),
        None,
        None,
        Some(RgbaRaster::from_pixel(2, 2, red())),
        None,
        None,
        Some(RgbaRaster::from_pixel(2, 2, red())),
        &captions,
        settings.clone(),
    );
    let labels: Vec<&str> = rows.iter().map(|r| r.label).collect();
    assert_eq!(
        labels,
        vec!["INPUT", "DEPTH MAP", "EDGE MAP", "SLIC REGIONS", "SEGMENTATION", "FLAT (POST-DTF)", "OUTPUT", "SETTINGS"]
    );
    assert_eq!(rows[0].subtitle, Some("caption 0"));
    assert_eq!(rows[1].subtitle, Some("not run \u{2014} enable depth estimation and run ML analysis"));
    assert_eq!(rows[3].subtitle, Some("caption 3"));
    assert_eq!(rows[5].subtitle, Some("run Process to populate"));
    assert_eq!(rows[6].subtitle, Some("caption 6"));
    assert!(rows[7].subtitle.is_none() && rows[7].image.is_none());
    assert_eq!(rows[7].settings, Some(settings));
}
